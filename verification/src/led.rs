//! The status LED: colour commands and the automatic colour cycle.
use vstd::prelude::*;
use vstd::string::StringSliceAdditionalSpecFns;

use crate::bounded::{ranges3_as_slice, ranges3_items, ranges3_new, ranges3_push};
use crate::text::{parse_u8, parse_unsigned};

verus! {

/// Interval of the automatic colour cycle, in milliseconds.
pub const CHECK_INTERVAL_MS: u64 = 500;

/// How long a commanded colour holds off the automatic cycle, in seconds.
pub const COMMAND_HOLD_SECS: u64 = 3;

pub const ASCII_COMMA: u8 = 0x2c;

/// An RGB colour with 8 bits per channel.
#[derive(Clone, Copy, PartialEq, Eq, Structural, Debug)]
pub struct Rgb8 {
    pub r: u8,
    pub g: u8,
    pub b: u8,
}

/// Number of commas in `s`.
pub open spec fn comma_count(s: Seq<u8>) -> nat
    decreases s.len(),
{
    if s.len() == 0 {
        0
    } else {
        comma_count(s.drop_last()) + if s.last() == ASCII_COMMA {
            1nat
        } else {
            0nat
        }
    }
}

/// The comma-separated pieces of `s`, in order.
pub open spec fn comma_pieces(s: Seq<u8>) -> Seq<Seq<u8>>
    decreases s.len(),
{
    if s.len() == 0 {
        seq![Seq::empty()]
    } else {
        let front = comma_pieces(s.drop_last());
        if s.last() == ASCII_COMMA {
            front.push(Seq::empty())
        } else {
            front.update(front.len() - 1, front.last().push(s.last()))
        }
    }
}

/// The colour a command gives: exactly three comma-separated decimal
/// channel values of at most 255 each, red, green, blue.
pub open spec fn color_command(s: Seq<u8>) -> Option<Rgb8> {
    let pieces = comma_pieces(s);
    if pieces.len() != 3 {
        None
    } else {
        match (
            parse_unsigned(pieces[0], 255),
            parse_unsigned(pieces[1], 255),
            parse_unsigned(pieces[2], 255),
        ) {
            (Some(r), Some(g), Some(b)) => Some(Rgb8 { r: r as u8, g: g as u8, b: b as u8 }),
            _ => None,
        }
    }
}

proof fn lemma_comma_pieces(s: Seq<u8>)
    ensures
        comma_pieces(s).len() == comma_count(s) + 1,
    decreases s.len(),
{
    if s.len() > 0 {
        lemma_comma_pieces(s.drop_last());
    }
}

/// Number of commas in a command.
pub fn count_commas(s: &str) -> (r: usize)
    ensures
        r == comma_count(s.spec_bytes()),
{
    let bytes = s.as_bytes();
    let mut count: usize = 0;
    let mut i: usize = 0;
    assert(bytes@.subrange(0, 0) =~= Seq::<u8>::empty());
    while i < bytes.len()
        invariant
            i <= bytes@.len(),
            count == comma_count(bytes@.subrange(0, i as int)),
            count <= i,
        decreases bytes.len() - i,
    {
        assert(bytes@.subrange(0, i + 1).drop_last() =~= bytes@.subrange(0, i as int));
        if bytes[i] == ASCII_COMMA {
            count += 1;
        }
        i += 1;
    }
    assert(bytes@.subrange(0, bytes@.len() as int) =~= bytes@);
    count
}

/// Reads a colour command such as `255,0,16`. Splitting stores at most
/// three pieces, so a command with more than two commas is outside what it
/// takes.
pub fn parse_color_str(s: &str) -> (r: Option<Rgb8>)
    requires
        comma_count(s.spec_bytes()) <= 2,
    ensures
        r == color_command(s.spec_bytes()),
{
    let bytes = s.as_bytes();
    let mut parts = ranges3_new();
    let mut start: usize = 0;
    let mut i: usize = 0;
    proof {
        let empty = bytes@.subrange(0, 0);
        assert(empty =~= Seq::<u8>::empty());
        assert(comma_pieces(empty) =~= Seq::new(
            ranges3_items(parts).len() + 1,
            |k: int| if k < ranges3_items(parts).len() {
                bytes@.subrange(ranges3_items(parts)[k].0 as int, ranges3_items(parts)[k].1 as int)
            } else {
                bytes@.subrange(start as int, i as int)
            },
        ));
    }
    while i < bytes.len()
        invariant
            i <= bytes@.len(),
            start <= i,
            comma_count(bytes@) <= 2,
            ranges3_items(parts).len() == comma_count(bytes@.subrange(0, i as int)),
            comma_pieces(bytes@.subrange(0, i as int)) =~= Seq::new(
                ranges3_items(parts).len() + 1,
                |k: int| if k < ranges3_items(parts).len() {
                    bytes@.subrange(ranges3_items(parts)[k].0 as int, ranges3_items(parts)[k].1 as int)
                } else {
                    bytes@.subrange(start as int, i as int)
                },
            ),
            forall|k: int| 0 <= k < ranges3_items(parts).len() ==> (#[trigger] ranges3_items(parts)[k]).0
                <= ranges3_items(parts)[k].1 <= i,
        decreases bytes.len() - i,
    {
        proof {
            lemma_comma_count_prefix(bytes@, i as int);
        }
        let ghost prefix = bytes@.subrange(0, i as int);
        let ghost next = bytes@.subrange(0, i + 1);
        assert(next.drop_last() =~= prefix);
        if bytes[i] == ASCII_COMMA {
            let _ = ranges3_push(&mut parts, (start, i));
            start = i + 1;
        }
        i += 1;
        proof {
            assert(bytes@.subrange(start as int, i as int) =~= if bytes@[i - 1] == ASCII_COMMA {
                Seq::empty()
            } else {
                bytes@.subrange(start as int, i - 1).push(bytes@[i - 1])
            });
        }
    }
    let _ = ranges3_push(&mut parts, (start, bytes.len()));
    assert(bytes@.subrange(0, bytes@.len() as int) =~= bytes@);
    proof {
        lemma_comma_pieces(bytes@);
    }
    let ranges = ranges3_as_slice(&parts);
    if ranges.len() == 3 {
        let r = parse_u8(&bytes[ranges[0].0..ranges[0].1]);
        let g = parse_u8(&bytes[ranges[1].0..ranges[1].1]);
        let b = parse_u8(&bytes[ranges[2].0..ranges[2].1]);
        match (r, g, b) {
            (Some(r), Some(g), Some(b)) => Some(Rgb8 { r, g, b }),
            _ => None,
        }
    } else {
        None
    }
}

proof fn lemma_comma_count_prefix(s: Seq<u8>, i: int)
    requires
        0 <= i <= s.len(),
    ensures
        comma_count(s.subrange(0, i)) <= comma_count(s),
    decreases s.len() - i,
{
    if i < s.len() {
        lemma_comma_count_prefix(s, i + 1);
        assert(s.subrange(0, i + 1).drop_last() =~= s.subrange(0, i));
    } else {
        assert(s.subrange(0, i) =~= s);
    }
}

/// The colours of the automatic cycle: dim red, green, blue.
pub open spec fn auto_color(i: int) -> Rgb8 {
    if i % 3 == 0 {
        Rgb8 { r: 50, g: 0, b: 0 }
    } else if i % 3 == 1 {
        Rgb8 { r: 0, g: 50, b: 0 }
    } else {
        Rgb8 { r: 0, g: 0, b: 50 }
    }
}

/// The automatic cycle starts red, then shows green, then blue, and then
/// repeats with period three.
pub proof fn lemma_auto_color_cycle(i: int)
    requires
        0 <= i,
    ensures
        auto_color(0) == (Rgb8 { r: 50, g: 0, b: 0 }),
        auto_color(1) == (Rgb8 { r: 0, g: 50, b: 0 }),
        auto_color(2) == (Rgb8 { r: 0, g: 0, b: 50 }),
        auto_color(i + 3) == auto_color(i),
{
    assert((i + 3) % 3 == i % 3);
}

/// The LED's colour and automatic cycle. Times are ticks of the system
/// clock.
pub struct LedController {
    current: Rgb8,
    cycle_index: usize,
    command_until: u64,
}

impl LedController {
    pub closed spec fn color(&self) -> Rgb8 {
        self.current
    }

    pub closed spec fn cycle_position(&self) -> usize {
        self.cycle_index
    }

    pub closed spec fn hold_until(&self) -> u64 {
        self.command_until
    }

    /// Off, at the start of the cycle, with no command holding it.
    pub fn new(now: u64) -> (r: Self)
        ensures
            r.color() == (Rgb8 { r: 0, g: 0, b: 0 }),
            r.cycle_position() == 0,
            r.hold_until() == now,
    {
        LedController { current: Rgb8 { r: 0, g: 0, b: 0 }, cycle_index: 0, command_until: now }
    }

    pub fn color_now(&self) -> (r: Rgb8)
        ensures
            r == self.color(),
    {
        self.current
    }

    pub fn cycle_index(&self) -> (r: usize)
        ensures
            r == self.cycle_position(),
    {
        self.cycle_index
    }

    pub fn command_until(&self) -> (r: u64)
        ensures
            r == self.hold_until(),
    {
        self.command_until
    }

    /// A colour command: when it reads, its colour is shown and holds off
    /// the cycle until `hold` ticks from `now`.
    pub fn on_command(&mut self, text: &str, now: u64, hold: u64) -> (r: Option<Rgb8>)
        requires
            comma_count(text.spec_bytes()) <= 2,
            color_command(text.spec_bytes()) is Some ==> now + hold <= u64::MAX,
        ensures
            r == color_command(text.spec_bytes()),
            r matches Some(c) ==> final(self).color() == c && final(self).hold_until() == now + hold
                && final(self).cycle_position() == old(self).cycle_position(),
            r is None ==> *final(self) == *old(self),
    {
        match parse_color_str(text) {
            Some(color) => {
                self.current = color;
                self.command_until = now + hold;
                Some(color)
            },
            None => None,
        }
    }

    /// A tick of the cycle: once no command holds it, the next colour of
    /// the cycle is shown.
    pub fn on_tick(&mut self, now: u64) -> (r: Option<Rgb8>)
        requires
            now >= old(self).hold_until() ==> old(self).cycle_position() < usize::MAX,
        ensures
            now >= old(self).hold_until() ==> r == Some(auto_color(old(self).cycle_position() as int))
                && final(self).color() == auto_color(old(self).cycle_position() as int)
                && final(self).cycle_position() == old(self).cycle_position() + 1
                && final(self).hold_until() == old(self).hold_until(),
            now < old(self).hold_until() ==> r is None && *final(self) == *old(self),
    {
        if now >= self.command_until {
            let color = match self.cycle_index % 3 {
                0 => Rgb8 { r: 50, g: 0, b: 0 },
                1 => Rgb8 { r: 0, g: 50, b: 0 },
                _ => Rgb8 { r: 0, g: 0, b: 50 },
            };
            self.current = color;
            self.cycle_index += 1;
            Some(color)
        } else {
            None
        }
    }
}

} // verus!
