//! Fixed-capacity collections from `heapless`, with the contracts that the
//! rest of the library relies on.
use vstd::prelude::*;
use vstd::string::StringSliceAdditionalSpecFns;

use crate::dhcp::DhcpLease;

verus! {

#[verifier::external_type_specification]
#[verifier::external_body]
pub struct ExHeaplessString<const N: usize>(heapless::String<N>);

/// The UTF-8 bytes held by a `heapless::String<32>`.
pub uninterp spec fn string32_bytes(s: heapless::String<32>) -> Seq<u8>;

/// `heapless::String::<32>::new`: an empty string.
#[verifier::external_body]
pub(crate) fn string32_new() -> (s: heapless::String<32>)
    ensures
        string32_bytes(s) == Seq::<u8>::empty(),
{
    heapless::String::new()
}

/// `heapless::String::<32>::push_str`: appends the bytes of `t` when they
/// fit in the 32 bytes of capacity; otherwise fails and changes nothing.
#[verifier::external_body]
pub(crate) fn string32_push_str(s: &mut heapless::String<32>, t: &str) -> (r: Result<(), ()>)
    ensures
        string32_bytes(*old(s)).len() + t.spec_bytes().len() <= 32 ==> r is Ok,
        string32_bytes(*old(s)).len() + t.spec_bytes().len() <= 32 ==> string32_bytes(*final(s))
            == string32_bytes(*old(s)) + t.spec_bytes(),
        string32_bytes(*old(s)).len() + t.spec_bytes().len() > 32 ==> r is Err,
        string32_bytes(*old(s)).len() + t.spec_bytes().len() > 32 ==> string32_bytes(*final(s))
            == string32_bytes(*old(s)),
{
    s.push_str(t)
}

/// `heapless::String::<32>::clear`: empties the string.
#[verifier::external_body]
pub(crate) fn string32_clear(s: &mut heapless::String<32>)
    ensures
        string32_bytes(*final(s)) == Seq::<u8>::empty(),
{
    s.clear()
}

/// `heapless::String::<32>::as_str`: the held text.
#[verifier::external_body]
pub(crate) fn string32_as_str(s: &heapless::String<32>) -> (r: &str)
    ensures
        r.spec_bytes() == string32_bytes(*s),
        r.spec_bytes().len() <= 32,
{
    s.as_str()
}

/// `heapless::String::<32>::clone`: a string holding the same bytes.
#[verifier::external_body]
pub(crate) fn string32_clone(s: &heapless::String<32>) -> (r: heapless::String<32>)
    ensures
        string32_bytes(r) == string32_bytes(*s),
{
    s.clone()
}

/// The UTF-8 bytes held by a `heapless::String<64>`.
pub uninterp spec fn string64_bytes(s: heapless::String<64>) -> Seq<u8>;

/// `heapless::String::<64>::new`: an empty string.
#[verifier::external_body]
pub(crate) fn string64_new() -> (s: heapless::String<64>)
    ensures
        string64_bytes(s) == Seq::<u8>::empty(),
{
    heapless::String::new()
}

/// `heapless::String::<64>::push_str`: appends the bytes of `t` when they
/// fit in the 64 bytes of capacity; otherwise fails and changes nothing.
#[verifier::external_body]
pub(crate) fn string64_push_str(s: &mut heapless::String<64>, t: &str) -> (r: Result<(), ()>)
    ensures
        string64_bytes(*old(s)).len() + t.spec_bytes().len() <= 64 ==> r is Ok,
        string64_bytes(*old(s)).len() + t.spec_bytes().len() <= 64 ==> string64_bytes(*final(s))
            == string64_bytes(*old(s)) + t.spec_bytes(),
        string64_bytes(*old(s)).len() + t.spec_bytes().len() > 64 ==> r is Err,
        string64_bytes(*old(s)).len() + t.spec_bytes().len() > 64 ==> string64_bytes(*final(s))
            == string64_bytes(*old(s)),
{
    s.push_str(t)
}

/// `heapless::String::<64>::clear`: empties the string.
#[verifier::external_body]
pub(crate) fn string64_clear(s: &mut heapless::String<64>)
    ensures
        string64_bytes(*final(s)) == Seq::<u8>::empty(),
{
    s.clear()
}

/// `heapless::String::<64>::as_str`: the held text.
#[verifier::external_body]
pub(crate) fn string64_as_str(s: &heapless::String<64>) -> (r: &str)
    ensures
        r.spec_bytes() == string64_bytes(*s),
        r.spec_bytes().len() <= 64,
{
    s.as_str()
}

/// `heapless::String::<64>::clone`: a string holding the same bytes.
#[verifier::external_body]
pub(crate) fn string64_clone(s: &heapless::String<64>) -> (r: heapless::String<64>)
    ensures
        string64_bytes(r) == string64_bytes(*s),
{
    s.clone()
}

#[verifier::external_type_specification]
#[verifier::external_body]
#[verifier::reject_recursive_types(T)]
pub struct ExHeaplessVec<T, const N: usize>(heapless::Vec<T, N>);

/// The bytes held by a `heapless::Vec<u8, 32>`.
pub uninterp spec fn vec32_bytes(v: heapless::Vec<u8, 32>) -> Seq<u8>;

/// `heapless::Vec::<u8, 32>::new`: an empty vector.
#[verifier::external_body]
pub(crate) fn vec32_new() -> (v: heapless::Vec<u8, 32>)
    ensures
        vec32_bytes(v) == Seq::<u8>::empty(),
{
    heapless::Vec::new()
}

/// `heapless::Vec::<u8, 32>::push`: appends while fewer than 32 bytes are
/// held; otherwise hands the byte back and changes nothing.
#[verifier::external_body]
pub(crate) fn vec32_push(v: &mut heapless::Vec<u8, 32>, b: u8) -> (r: Result<(), u8>)
    ensures
        vec32_bytes(*old(v)).len() < 32 ==> r is Ok,
        vec32_bytes(*old(v)).len() < 32 ==> vec32_bytes(*final(v)) == vec32_bytes(*old(v)).push(b),
        vec32_bytes(*old(v)).len() >= 32 ==> (r matches Err(x) && x == b),
        vec32_bytes(*old(v)).len() >= 32 ==> vec32_bytes(*final(v)) == vec32_bytes(*old(v)),
{
    v.push(b)
}

/// `heapless::Vec::<u8, 32>::as_slice`: the held bytes.
#[verifier::external_body]
pub(crate) fn vec32_as_slice(v: &heapless::Vec<u8, 32>) -> (r: &[u8])
    ensures
        r@ == vec32_bytes(*v),
        r@.len() <= 32,
{
    v.as_slice()
}

/// The bytes held by a `heapless::Vec<u8, 64>`.
pub uninterp spec fn vec64_bytes(v: heapless::Vec<u8, 64>) -> Seq<u8>;

/// `heapless::Vec::<u8, 64>::new`: an empty vector.
#[verifier::external_body]
pub(crate) fn vec64_new() -> (v: heapless::Vec<u8, 64>)
    ensures
        vec64_bytes(v) == Seq::<u8>::empty(),
{
    heapless::Vec::new()
}

/// `heapless::Vec::<u8, 64>::push`: appends while fewer than 64 bytes are
/// held; otherwise hands the byte back and changes nothing.
#[verifier::external_body]
pub(crate) fn vec64_push(v: &mut heapless::Vec<u8, 64>, b: u8) -> (r: Result<(), u8>)
    ensures
        vec64_bytes(*old(v)).len() < 64 ==> r is Ok,
        vec64_bytes(*old(v)).len() < 64 ==> vec64_bytes(*final(v)) == vec64_bytes(*old(v)).push(b),
        vec64_bytes(*old(v)).len() >= 64 ==> (r matches Err(x) && x == b),
        vec64_bytes(*old(v)).len() >= 64 ==> vec64_bytes(*final(v)) == vec64_bytes(*old(v)),
{
    v.push(b)
}

/// `heapless::Vec::<u8, 64>::as_slice`: the held bytes.
#[verifier::external_body]
pub(crate) fn vec64_as_slice(v: &heapless::Vec<u8, 64>) -> (r: &[u8])
    ensures
        r@ == vec64_bytes(*v),
        r@.len() <= 64,
{
    v.as_slice()
}

/// The byte ranges held by a `heapless::Vec<(usize, usize), 3>`, in order.
pub uninterp spec fn ranges3_items(v: heapless::Vec<(usize, usize), 3>) -> Seq<(usize, usize)>;

/// `heapless::Vec::<(usize, usize), 3>::new`: an empty vector.
#[verifier::external_body]
pub(crate) fn ranges3_new() -> (v: heapless::Vec<(usize, usize), 3>)
    ensures
        ranges3_items(v) == Seq::<(usize, usize)>::empty(),
{
    heapless::Vec::new()
}

/// `heapless::Vec::<(usize, usize), 3>::push`: appends while fewer than 3
/// ranges are held; otherwise hands the range back and changes nothing.
#[verifier::external_body]
pub(crate) fn ranges3_push(v: &mut heapless::Vec<(usize, usize), 3>, item: (usize, usize)) -> (r: Result<(), (usize, usize)>)
    ensures
        ranges3_items(*old(v)).len() < 3 ==> r is Ok,
        ranges3_items(*old(v)).len() < 3 ==> ranges3_items(*final(v)) == ranges3_items(*old(v)).push(item),
        ranges3_items(*old(v)).len() >= 3 ==> (r matches Err(x) && x == item),
        ranges3_items(*old(v)).len() >= 3 ==> ranges3_items(*final(v)) == ranges3_items(*old(v)),
{
    v.push(item)
}

/// `heapless::Vec::<(usize, usize), 3>::as_slice`: the held ranges.
#[verifier::external_body]
pub(crate) fn ranges3_as_slice(v: &heapless::Vec<(usize, usize), 3>) -> (r: &[(usize, usize)])
    ensures
        r@ == ranges3_items(*v),
        r@.len() <= 3,
{
    v.as_slice()
}

/// A fixed-capacity byte buffer.
pub trait BoundedBytes: Sized {
    spec fn contents(&self) -> Seq<u8>;

    spec fn capacity() -> nat;

    fn empty() -> (r: Self)
        ensures
            r.contents() == Seq::<u8>::empty(),
    ;

    fn push_byte(&mut self, b: u8) -> (r: Result<(), u8>)
        ensures
            old(self).contents().len() < Self::capacity() ==> r is Ok && final(self).contents()
                == old(self).contents().push(b),
            old(self).contents().len() >= Self::capacity() ==> r is Err && final(self).contents()
                == old(self).contents(),
    ;

    fn as_bytes(&self) -> (r: &[u8])
        ensures
            r@ == self.contents(),
    ;
}

/// A fixed-capacity UTF-8 string, with the byte buffer of the same
/// capacity that text is assembled in before it is checked and stored.
pub trait BoundedText: Sized {
    type Scratch: BoundedBytes;
    spec fn contents(&self) -> Seq<u8>;

    spec fn capacity() -> nat;

    fn empty() -> (r: Self)
        ensures
            r.contents() == Seq::<u8>::empty(),
    ;

    fn clear_text(&mut self)
        ensures
            final(self).contents() == Seq::<u8>::empty(),
    ;

    fn push_text(&mut self, t: &str) -> (r: Result<(), ()>)
        ensures
            old(self).contents().len() + t.spec_bytes().len() <= Self::capacity() ==> r is Ok
                && final(self).contents() == old(self).contents() + t.spec_bytes(),
            old(self).contents().len() + t.spec_bytes().len() > Self::capacity() ==> r is Err
                && final(self).contents() == old(self).contents(),
    ;

    fn text(&self) -> (r: &str)
        ensures
            r.spec_bytes() == self.contents(),
    ;

    fn duplicate(&self) -> (r: Self)
        ensures
            r.contents() == self.contents(),
    ;
}

impl BoundedBytes for heapless::Vec<u8, 32> {
    open spec fn contents(&self) -> Seq<u8> {
        vec32_bytes(*self)
    }

    open spec fn capacity() -> nat {
        32
    }

    fn empty() -> (r: Self) {
        vec32_new()
    }

    fn push_byte(&mut self, b: u8) -> (r: Result<(), u8>) {
        vec32_push(self, b)
    }

    fn as_bytes(&self) -> (r: &[u8]) {
        vec32_as_slice(self)
    }
}

impl BoundedBytes for heapless::Vec<u8, 64> {
    open spec fn contents(&self) -> Seq<u8> {
        vec64_bytes(*self)
    }

    open spec fn capacity() -> nat {
        64
    }

    fn empty() -> (r: Self) {
        vec64_new()
    }

    fn push_byte(&mut self, b: u8) -> (r: Result<(), u8>) {
        vec64_push(self, b)
    }

    fn as_bytes(&self) -> (r: &[u8]) {
        vec64_as_slice(self)
    }
}

impl BoundedText for heapless::String<32> {
    type Scratch = heapless::Vec<u8, 32>;

    open spec fn contents(&self) -> Seq<u8> {
        string32_bytes(*self)
    }

    open spec fn capacity() -> nat {
        32
    }

    fn empty() -> (r: Self) {
        string32_new()
    }

    fn clear_text(&mut self) {
        string32_clear(self)
    }

    fn push_text(&mut self, t: &str) -> (r: Result<(), ()>) {
        string32_push_str(self, t)
    }

    fn text(&self) -> (r: &str) {
        string32_as_str(self)
    }

    fn duplicate(&self) -> (r: Self) {
        string32_clone(self)
    }
}

impl BoundedText for heapless::String<64> {
    type Scratch = heapless::Vec<u8, 64>;

    open spec fn contents(&self) -> Seq<u8> {
        string64_bytes(*self)
    }

    open spec fn capacity() -> nat {
        64
    }

    fn empty() -> (r: Self) {
        string64_new()
    }

    fn clear_text(&mut self) {
        string64_clear(self)
    }

    fn push_text(&mut self, t: &str) -> (r: Result<(), ()>) {
        string64_push_str(self, t)
    }

    fn text(&self) -> (r: &str) {
        string64_as_str(self)
    }

    fn duplicate(&self) -> (r: Self) {
        string64_clone(self)
    }
}

/// The leases held by the DHCP lease table, in insertion order.
pub uninterp spec fn lease_table_items(v: heapless::Vec<DhcpLease, 8>) -> Seq<DhcpLease>;

/// `heapless::Vec::<DhcpLease, 8>::new`: an empty table.
#[verifier::external_body]
pub(crate) fn lease_table_new() -> (v: heapless::Vec<DhcpLease, 8>)
    ensures
        lease_table_items(v) == Seq::<DhcpLease>::empty(),
{
    heapless::Vec::new()
}

/// `heapless::Vec::<DhcpLease, 8>::push`: appends when fewer than 8 leases
/// are held, and otherwise hands the lease back and leaves the table as it was.
#[verifier::external_body]
pub(crate) fn lease_table_push(v: &mut heapless::Vec<DhcpLease, 8>, lease: DhcpLease) -> (r: Result<(), DhcpLease>)
    ensures
        lease_table_items(*old(v)).len() < 8 ==> r is Ok,
        lease_table_items(*old(v)).len() < 8 ==> lease_table_items(*final(v)) == lease_table_items(
            *old(v),
        ).push(lease),
        lease_table_items(*old(v)).len() >= 8 ==> (r matches Err(l) && l == lease),
        lease_table_items(*old(v)).len() >= 8 ==> lease_table_items(*final(v)) == lease_table_items(
            *old(v),
        ),
{
    v.push(lease)
}

/// `heapless::Vec::<DhcpLease, 8>::as_slice`: the held leases, in order.
#[verifier::external_body]
pub(crate) fn lease_table_as_slice(v: &heapless::Vec<DhcpLease, 8>) -> (s: &[DhcpLease])
    ensures
        s@ == lease_table_items(*v),
        s@.len() <= 8,
{
    v.as_slice()
}

} // verus!
