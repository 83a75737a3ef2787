//! The minimal DHCP server that hands out addresses to clients of the
//! device's own access point.
//!
//! Addresses are plain octet arrays; `ap_ip` is the access point's own
//! address, chosen when the firmware is built.
use vstd::prelude::*;
use vstd::set_lib::{lemma_int_range, lemma_len_subset, lemma_map_size_bound, set_int_range};

use crate::bounded::{lease_table_as_slice, lease_table_items, lease_table_new, lease_table_push};

verus! {

pub const DHCP_MAX_LEASES: usize = 8;

pub const DHCP_FIXED_HEADER_LEN: usize = 236;

pub const DHCP_OPTIONS_OFFSET: usize = 240;

pub const DHCP_MIN_RESPONSE_LEN: usize = 300;

pub const DHCP_LEASE_SECONDS: u32 = 3600;

pub const DHCP_DISCOVER: u8 = 1;

pub const DHCP_OFFER: u8 = 2;

pub const DHCP_REQUEST: u8 = 3;

pub const DHCP_ACK: u8 = 5;

pub const DHCP_OPTION_PAD: u8 = 0;

pub const DHCP_OPTION_SUBNET_MASK: u8 = 1;

pub const DHCP_OPTION_ROUTER: u8 = 3;

pub const DHCP_OPTION_DNS: u8 = 6;

pub const DHCP_OPTION_BROADCAST_ADDRESS: u8 = 28;

pub const DHCP_OPTION_REQUESTED_IP: u8 = 50;

pub const DHCP_OPTION_LEASE_TIME: u8 = 51;

pub const DHCP_OPTION_MESSAGE_TYPE: u8 = 53;

pub const DHCP_OPTION_SERVER_ID: u8 = 54;

pub const DHCP_OPTION_RENEWAL_TIME: u8 = 58;

pub const DHCP_OPTION_REBINDING_TIME: u8 = 59;

pub const DHCP_OPTION_END: u8 = 255;

/// A DISCOVER or REQUEST sent by a client, reduced to the fields the server
/// answers with.
#[derive(Clone, Copy)]
pub struct DhcpRequest {
    pub message_type: u8,
    pub xid: [u8; 4],
    pub flags: [u8; 2],
    pub chaddr: [u8; 16],
    pub client_mac: [u8; 6],
    pub requested_ip: Option<[u8; 4]>,
}

/// One address handed out to one client.
#[derive(Clone, Copy)]
pub struct DhcpLease {
    pub mac: [u8; 6],
    pub ip: [u8; 4],
}

pub open spec fn magic_cookie() -> Seq<u8> {
    seq![99u8, 130u8, 83u8, 99u8]
}

pub open spec fn opt_ip_view(o: Option<[u8; 4]>) -> Option<Seq<u8>> {
    match o {
        Some(ip) => Some(ip@),
        None => None,
    }
}

/// What the options seen so far say: message type, requested address and
/// server identifier, each from the last well-formed occurrence.
pub type SeenOptions = (Option<u8>, Option<Seq<u8>>, Option<Seq<u8>>);

pub open spec fn record_option(seen: SeenOptions, code: u8, data: Seq<u8>) -> SeenOptions {
    if code == DHCP_OPTION_MESSAGE_TYPE && data.len() == 1 {
        (Some(data[0]), seen.1, seen.2)
    } else if code == DHCP_OPTION_REQUESTED_IP && data.len() == 4 {
        (seen.0, Some(data), seen.2)
    } else if code == DHCP_OPTION_SERVER_ID && data.len() == 4 {
        (seen.0, seen.1, Some(data))
    } else {
        seen
    }
}

/// Walks the option area from `off`: `None` when an option runs past the
/// packet, otherwise what was seen up to the end option or the packet's end.
pub open spec fn scan_options(p: Seq<u8>, off: int, seen: SeenOptions) -> Option<SeenOptions>
    decreases p.len() - off,
{
    if off < 0 || off >= p.len() {
        Some(seen)
    } else if p[off] == DHCP_OPTION_PAD {
        scan_options(p, off + 1, seen)
    } else if p[off] == DHCP_OPTION_END {
        Some(seen)
    } else if off + 1 >= p.len() {
        None
    } else if off + 2 + p[off + 1] > p.len() {
        None
    } else {
        scan_options(
            p,
            off + 2 + p[off + 1],
            record_option(seen, p[off], p.subrange(off + 2, off + 2 + p[off + 1])),
        )
    }
}

/// Message type and requested address of a packet that the server answers,
/// or `None` for a packet that it ignores.
pub open spec fn accepted_request(p: Seq<u8>, ap_ip: Seq<u8>) -> Option<(u8, Option<Seq<u8>>)> {
    if p.len() < DHCP_OPTIONS_OFFSET {
        None
    } else if p[0] != 1 || p[1] != 1 || p[2] < 6 {
        None
    } else if p.subrange(DHCP_FIXED_HEADER_LEN as int, DHCP_OPTIONS_OFFSET as int)
        != magic_cookie() {
        None
    } else {
        match scan_options(p, DHCP_OPTIONS_OFFSET as int, (None, None, None)) {
            None => None,
            Some(seen) => match seen.0 {
                None => None,
                Some(t) => {
                    if t != DHCP_DISCOVER && t != DHCP_REQUEST {
                        None
                    } else if seen.2 is Some && seen.2.unwrap() != ap_ip {
                        None
                    } else {
                        Some((t, seen.1))
                    }
                },
            },
        }
    }
}

/// The options of a DISCOVER or REQUEST that states its type, asks for
/// `ip` and names the access point as its server.
pub open spec fn typed_request_options(t: u8, ip: Seq<u8>, ap_ip: Seq<u8>) -> Seq<u8> {
    seq![
        DHCP_OPTION_MESSAGE_TYPE, 1u8, t,
        DHCP_OPTION_REQUESTED_IP, 4u8, ip[0], ip[1], ip[2], ip[3],
        DHCP_OPTION_SERVER_ID, 4u8, ap_ip[0], ap_ip[1], ap_ip[2], ap_ip[3],
        DHCP_OPTION_END,
    ]
}

/// A client's DISCOVER or REQUEST that asks for an address is read with
/// that address, whichever of the two it is and whatever follows the end
/// option: the message type does not affect the requested address.
pub proof fn lemma_requested_address_is_read(
    header: Seq<u8>,
    t: u8,
    ip: Seq<u8>,
    ap_ip: Seq<u8>,
    tail: Seq<u8>,
)
    requires
        header.len() == DHCP_OPTIONS_OFFSET,
        header[0] == 1,
        header[1] == 1,
        header[2] >= 6,
        header.subrange(DHCP_FIXED_HEADER_LEN as int, DHCP_OPTIONS_OFFSET as int) == magic_cookie(),
        t == DHCP_DISCOVER || t == DHCP_REQUEST,
        ip.len() == 4,
        ap_ip.len() == 4,
    ensures
        accepted_request(header + typed_request_options(t, ip, ap_ip) + tail, ap_ip) == Some(
            (t, Some(ip)),
        ),
{
    let o = typed_request_options(t, ip, ap_ip);
    let p = header + o + tail;
    assert(p.subrange(DHCP_FIXED_HEADER_LEN as int, DHCP_OPTIONS_OFFSET as int) =~= header.subrange(
        DHCP_FIXED_HEADER_LEN as int,
        DHCP_OPTIONS_OFFSET as int,
    ));
    assert forall|k: int| 0 <= k < 16 implies p[240 + k] == o[k] by {}
    assert(p[0] == 1 && p[1] == 1 && p[2] >= 6);
    let s0: SeenOptions = (None, None, None);
    let s1: SeenOptions = (Some(t), None, None);
    let s2: SeenOptions = (Some(t), Some(ip), None);
    let s3: SeenOptions = (Some(t), Some(ip), Some(ap_ip));
    assert(p.subrange(242, 243) =~= seq![t]);
    assert(p.subrange(245, 249) =~= ip);
    assert(p.subrange(251, 255) =~= ap_ip);
    assert(scan_options(p, 255, s3) == Some(s3));
    assert(scan_options(p, 249, s2) == scan_options(p, 255, s3));
    assert(scan_options(p, 243, s1) == scan_options(p, 249, s2));
    assert(scan_options(p, 240, s0) == scan_options(p, 243, s1));
}

/// Reads a client's DISCOVER or REQUEST; any other packet gives `None`.
pub fn parse_dhcp_request(packet: &[u8], ap_ip: [u8; 4]) -> (r: Option<DhcpRequest>)
    ensures
        r is Some <==> accepted_request(packet@, ap_ip@) is Some,
        r matches Some(q) ==> {
            let (t, requested) = accepted_request(packet@, ap_ip@).unwrap();
            &&& q.message_type == t
            &&& opt_ip_view(q.requested_ip) == requested
            &&& q.xid@ == packet@.subrange(4, 8)
            &&& q.flags@ == packet@.subrange(10, 12)
            &&& q.chaddr@ == packet@.subrange(28, 44)
            &&& q.client_mac@ == packet@.subrange(28, 34)
        },
{
    let ghost p = packet@;
    if packet.len() < DHCP_OPTIONS_OFFSET {
        return None;
    }
    if packet[0] != 1 || packet[1] != 1 || packet[2] < 6 {
        return None;
    }
    if packet[236] != 99 || packet[237] != 130 || packet[238] != 83 || packet[239] != 99 {
        assert(p.subrange(236, 240) != magic_cookie()) by {
            if p.subrange(236, 240) == magic_cookie() {
                assert(p.subrange(236, 240)[0] == p[236]);
                assert(p.subrange(236, 240)[1] == p[237]);
                assert(p.subrange(236, 240)[2] == p[238]);
                assert(p.subrange(236, 240)[3] == p[239]);
            }
        }
        return None;
    }
    assert(p.subrange(236, 240) =~= magic_cookie());

    let mut message_type: Option<u8> = None;
    let mut requested_ip: Option<[u8; 4]> = None;
    let mut server_id: Option<[u8; 4]> = None;
    let mut offset: usize = DHCP_OPTIONS_OFFSET;

    while offset < packet.len()
        invariant_except_break
            DHCP_OPTIONS_OFFSET <= offset <= packet.len(),
            p == packet@,
            scan_options(p, offset as int, (message_type, opt_ip_view(requested_ip), opt_ip_view(server_id)))
                == scan_options(p, DHCP_OPTIONS_OFFSET as int, (None, None, None)),
        ensures
            scan_options(p, DHCP_OPTIONS_OFFSET as int, (None, None, None)) == Some(
                (message_type, opt_ip_view(requested_ip), opt_ip_view(server_id)),
            ),
        decreases packet.len() - offset,
    {
        let ghost seen = (message_type, opt_ip_view(requested_ip), opt_ip_view(server_id));
        let ghost start = offset as int;
        let code = packet[offset];
        offset += 1;

        if code == DHCP_OPTION_PAD {
        } else if code == DHCP_OPTION_END {
            break;
        } else {
            if offset >= packet.len() {
                return None;
            }
            let len = packet[offset] as usize;
            offset += 1;
            if len > packet.len() - offset {
                return None;
            }
            let ghost data = p.subrange(offset as int, offset + len);
            if code == DHCP_OPTION_MESSAGE_TYPE && len == 1 {
                message_type = Some(packet[offset]);
            } else if code == DHCP_OPTION_REQUESTED_IP && len == 4 {
                let ip = [packet[offset], packet[offset + 1], packet[offset + 2], packet[offset + 3]];
                assert(ip@ =~= data);
                requested_ip = Some(ip);
            } else if code == DHCP_OPTION_SERVER_ID && len == 4 {
                let ip = [packet[offset], packet[offset + 1], packet[offset + 2], packet[offset + 3]];
                assert(ip@ =~= data);
                server_id = Some(ip);
            }
            assert((message_type, opt_ip_view(requested_ip), opt_ip_view(server_id))
                == record_option(seen, code, data));
            offset += len;
        }
    }

    let message_type = match message_type {
        Some(t) => t,
        None => return None,
    };
    if message_type != DHCP_DISCOVER && message_type != DHCP_REQUEST {
        return None;
    }
    if let Some(server_id) = server_id {
        if !ip_eq(&server_id, &ap_ip) {
            return None;
        }
    }
    let xid = [packet[4], packet[5], packet[6], packet[7]];
    let flags = [packet[10], packet[11]];
    let chaddr = [
        packet[28],
        packet[29],
        packet[30],
        packet[31],
        packet[32],
        packet[33],
        packet[34],
        packet[35],
        packet[36],
        packet[37],
        packet[38],
        packet[39],
        packet[40],
        packet[41],
        packet[42],
        packet[43],
    ];
    let client_mac = [packet[28], packet[29], packet[30], packet[31], packet[32], packet[33]];
    assert(xid@ =~= p.subrange(4, 8));
    assert(flags@ =~= p.subrange(10, 12));
    assert(chaddr@ =~= p.subrange(28, 44));
    assert(client_mac@ =~= p.subrange(28, 34));
    Some(DhcpRequest { message_type, xid, flags, chaddr, client_mac, requested_ip })
}


/// `ip` lies in the access point's /24, is not the access point itself and
/// is neither the network nor the broadcast address.
pub open spec fn spec_is_ap_client_ip(ip: Seq<u8>, ap_ip: Seq<u8>) -> bool {
    &&& ip[0] == ap_ip[0]
    &&& ip[1] == ap_ip[1]
    &&& ip[2] == ap_ip[2]
    &&& ip[3] != ap_ip[3]
    &&& ip[3] != 0
    &&& ip[3] != 255
}

pub fn is_ap_client_ip(ip: [u8; 4], ap_ip: [u8; 4]) -> (r: bool)
    ensures
        r == spec_is_ap_client_ip(ip@, ap_ip@),
{
    ip[0] == ap_ip[0] && ip[1] == ap_ip[1] && ip[2] == ap_ip[2] && ip[3] != ap_ip[3] && ip[3]
        != 0 && ip[3] != 255
}

/// The address in the access point's /24 whose last octet is `last`.
pub open spec fn subnet_ip(ap_ip: Seq<u8>, last: int) -> Seq<u8> {
    seq![ap_ip[0], ap_ip[1], ap_ip[2], last as u8]
}

/// A one-byte hash of a hardware address: `h = h * 33 + byte`, modulo 256.
pub open spec fn mac_hash(mac: Seq<u8>) -> int
    decreases mac.len(),
{
    if mac.len() == 0 {
        0
    } else {
        (mac_hash(mac.drop_last()) * 33 + mac.last()) % 256
    }
}

/// The last octet suggested for a client: 100 plus the hash modulo 100,
/// moved one step (wrapping from 199 to 100) when it is the access point's own.
pub open spec fn suggested_last_octet(mac: Seq<u8>, ap_ip: Seq<u8>) -> int {
    let last = 100 + mac_hash(mac) % 100;
    if last == ap_ip[3] {
        if last == 199 {
            100
        } else {
            last + 1
        }
    } else {
        last
    }
}

pub fn suggested_client_ip(mac: [u8; 6], ap_ip: [u8; 4]) -> (r: [u8; 4])
    ensures
        r@ == subnet_ip(ap_ip@, suggested_last_octet(mac@, ap_ip@)),
        100 <= suggested_last_octet(mac@, ap_ip@) < 200,
{
    let mut hash: u8 = 0;
    let mut i: usize = 0;
    while i < 6
        invariant
            i <= 6,
            hash as int == mac_hash(mac@.subrange(0, i as int)),
        decreases 6 - i,
    {
        let byte = mac[i];
        let h = hash;
        hash = hash.wrapping_mul(33).wrapping_add(byte);
        proof {
            assert(mac@.subrange(0, i + 1).drop_last() =~= mac@.subrange(0, i as int));
            assert(mac@.subrange(0, i + 1).last() == byte);
            assert(hash as int == (h as int * 33 + byte as int) % 256) by (nonlinear_arith)
                requires
                    hash as int == (if (h as int * 33) % 256 + byte as int > 255 {
                        (h as int * 33) % 256 + byte as int - 256
                    } else {
                        (h as int * 33) % 256 + byte as int
                    }),
            ;
        }
        i += 1;
    }
    assert(mac@.subrange(0, 6) =~= mac@);
    let mut last = 100u8 + (hash % 100);
    if last == ap_ip[3] {
        last = if last == 199 {
            100
        } else {
            last + 1
        };
    }
    let r = [ap_ip[0], ap_ip[1], ap_ip[2], last];
    assert(r@ =~= subnet_ip(ap_ip@, suggested_last_octet(mac@, ap_ip@)));
    r
}

/// Some lease holds `ip`.
pub open spec fn ip_taken(leases: Seq<DhcpLease>, ip: Seq<u8>) -> bool {
    exists|i: int| 0 <= i < leases.len() && (#[trigger] leases[i]).ip@ == ip
}

/// `last` is a client octet of the pool (100 to 199) that is neither the
/// access point's own nor leased.
pub open spec fn free_last_octet(leases: Seq<DhcpLease>, ap_ip: Seq<u8>, last: int) -> bool {
    &&& 100 <= last < 200
    &&& last != ap_ip[3]
    &&& !ip_taken(leases, subnet_ip(ap_ip, last))
}

/// The smallest free pool octet from `last` on.
pub open spec fn first_free_octet(leases: Seq<DhcpLease>, ap_ip: Seq<u8>, last: int) -> Option<int>
    decreases 200 - last,
{
    if last >= 200 {
        None
    } else if last >= 100 && free_last_octet(leases, ap_ip, last) {
        Some(last)
    } else {
        first_free_octet(leases, ap_ip, last + 1)
    }
}

/// The first pool address that no lease holds.
pub open spec fn next_available_ip(leases: Seq<DhcpLease>, ap_ip: Seq<u8>) -> Option<Seq<u8>> {
    match first_free_octet(leases, ap_ip, 100) {
        Some(last) => Some(subnet_ip(ap_ip, last)),
        None => None,
    }
}

/// Checks whether some lease holds `ip`.
fn leases_hold_ip(leases: &[DhcpLease], ip: &[u8; 4]) -> (r: bool)
    ensures
        r == ip_taken(leases@, ip@),
{
    let mut i: usize = 0;
    while i < leases.len()
        invariant
            i <= leases@.len(),
            forall|j: int| 0 <= j < i ==> (#[trigger] leases@[j]).ip@ != ip@,
        decreases leases.len() - i,
    {
        if ip_eq(&leases[i].ip, ip) {
            return true;
        }
        i += 1;
    }
    false
}

pub fn next_available_client_ip(leases: &[DhcpLease], ap_ip: [u8; 4]) -> (r: Option<[u8; 4]>)
    ensures
        opt_ip_view(r) == next_available_ip(leases@, ap_ip@),
{
    let mut last: u8 = 100;
    while last < 200
        invariant
            100 <= last <= 200,
            first_free_octet(leases@, ap_ip@, 100) == first_free_octet(leases@, ap_ip@, last as int),
        decreases 200 - last,
    {
        if last != ap_ip[3] {
            let candidate = [ap_ip[0], ap_ip[1], ap_ip[2], last];
            assert(candidate@ =~= subnet_ip(ap_ip@, last as int));
            if !leases_hold_ip(leases, &candidate) {
                return Some(candidate);
            }
        }
        last += 1;
    }
    None
}


/// Every lease holds a client address of the access point's network, and no
/// two leases share a hardware address or an address.
pub open spec fn lease_table_sound(leases: Seq<DhcpLease>, ap_ip: Seq<u8>) -> bool {
    &&& forall|i: int| 0 <= i < leases.len() ==> spec_is_ap_client_ip((#[trigger] leases[i]).ip@, ap_ip)
    &&& forall|i: int, j: int|
        0 <= i < j < leases.len() ==> (#[trigger] leases[i]).mac@ != (#[trigger] leases[j]).mac@
            && leases[i].ip@ != leases[j].ip@
}

proof fn lemma_first_free_octet(leases: Seq<DhcpLease>, ap_ip: Seq<u8>, from: int)
    requires
        100 <= from,
    ensures
        first_free_octet(leases, ap_ip, from) matches Some(l) ==> from <= l && free_last_octet(
            leases,
            ap_ip,
            l,
        ),
        first_free_octet(leases, ap_ip, from) is None ==> forall|l: int|
            from <= l < 200 ==> !free_last_octet(leases, ap_ip, l),
    decreases 200 - from,
{
    if from < 200 && !free_last_octet(leases, ap_ip, from) {
        lemma_first_free_octet(leases, ap_ip, from + 1);
    }
}

/// With fewer than 99 leases some pool address is free: the pool holds 99
/// client octets or more.
proof fn lemma_pool_not_exhausted(leases: Seq<DhcpLease>, ap_ip: Seq<u8>)
    requires
        leases.len() < 99,
    ensures
        first_free_octet(leases, ap_ip, 100) is Some,
{
    lemma_first_free_octet(leases, ap_ip, 100);
    if first_free_octet(leases, ap_ip, 100) is None {
        let pool = set_int_range(100, 200).remove(ap_ip[3] as int);
        let indices = set_int_range(0, leases.len() as int);
        let last_octet = |i: int| leases[i].ip@[3] as int;
        let image = indices.map(last_octet);
        lemma_int_range(100, 200);
        lemma_int_range(0, leases.len() as int);
        lemma_map_size_bound(indices, image, last_octet);
        assert forall|l: int| pool.contains(l) implies image.contains(l) by {
            assert(!free_last_octet(leases, ap_ip, l));
            assert(ip_taken(leases, subnet_ip(ap_ip, l)));
            let i = choose|i: int| 0 <= i < leases.len() && (#[trigger] leases[i]).ip@ == subnet_ip(ap_ip, l);
            assert(indices.contains(i));
            assert(last_octet(i) == l);
        }
        lemma_len_subset(pool, image);
        assert(pool.len() >= 99);
    }
}

/// The first lease of `mac`, if any.
pub open spec fn find_lease(leases: Seq<DhcpLease>, mac: Seq<u8>) -> Option<int>
    decreases leases.len(),
{
    if leases.len() == 0 {
        None
    } else {
        match find_lease(leases.drop_last(), mac) {
            Some(i) => Some(i),
            None => if leases.last().mac@ == mac {
                Some(leases.len() - 1)
            } else {
                None
            },
        }
    }
}

/// The address picked for a client that holds no lease yet: the address it
/// asks for when that is a client address of the access point's network,
/// otherwise the suggested one; when that address is leased already, the
/// first free pool address (the suggested one when the pool is exhausted).
pub open spec fn fresh_client_ip(
    leases: Seq<DhcpLease>,
    mac: Seq<u8>,
    requested: Option<Seq<u8>>,
    ap_ip: Seq<u8>,
) -> Seq<u8> {
    let suggested = subnet_ip(ap_ip, suggested_last_octet(mac, ap_ip));
    let first = match requested {
        Some(ip) => if spec_is_ap_client_ip(ip, ap_ip) {
            ip
        } else {
            suggested
        },
        None => suggested,
    };
    if ip_taken(leases, first) {
        match next_available_ip(leases, ap_ip) {
            Some(ip) => ip,
            None => suggested,
        }
    } else {
        first
    }
}

/// The address answered to a client: the one of its lease when it has one,
/// otherwise a fresh one.
pub open spec fn client_ip_for(
    leases: Seq<DhcpLease>,
    mac: Seq<u8>,
    requested: Option<Seq<u8>>,
    ap_ip: Seq<u8>,
) -> Seq<u8> {
    match find_lease(leases, mac) {
        Some(i) => leases[i].ip@,
        None => fresh_client_ip(leases, mac, requested, ap_ip),
    }
}


/// No lease of `mac` is found only when no lease holds `mac`.
proof fn lemma_find_lease_none(leases: Seq<DhcpLease>, mac: Seq<u8>, i: int)
    requires
        find_lease(leases, mac) is None,
        0 <= i < leases.len(),
    ensures
        leases[i].mac@ != mac,
    decreases leases.len(),
{
    if i < leases.len() - 1 {
        lemma_find_lease_none(leases.drop_last(), mac, i);
    }
}

/// Once a lease is recorded for a client, the client is answered the
/// address of that lease, whatever address it asks for.
pub proof fn lemma_recorded_lease_is_answered(
    leases: Seq<DhcpLease>,
    lease: DhcpLease,
    requested: Option<Seq<u8>>,
    ap_ip: Seq<u8>,
)
    requires
        find_lease(leases, lease.mac@) is None,
    ensures
        client_ip_for(leases.push(lease), lease.mac@, requested, ap_ip) == lease.ip@,
{
    let table = leases.push(lease);
    assert(table.drop_last() =~= leases);
}

/// Finds the first lease of `mac`.
fn find_lease_index(leases: &[DhcpLease], mac: &[u8; 6]) -> (r: Option<usize>)
    ensures
        match r {
            Some(i) => find_lease(leases@, mac@) == Some(i as int),
            None => find_lease(leases@, mac@) is None,
        },
        r matches Some(i) ==> i < leases@.len(),
{
    let mut i: usize = 0;
    while i < leases.len()
        invariant
            i <= leases@.len(),
            find_lease(leases@.subrange(0, i as int), mac@) is None,
        decreases leases.len() - i,
    {
        proof {
            lemma_find_lease_prefix(leases@, mac@, i as int);
        }
        if mac_eq(&leases[i].mac, mac) {
            return Some(i);
        }
        i += 1;
    }
    assert(leases@.subrange(0, leases@.len() as int) =~= leases@);
    None
}

proof fn lemma_find_lease_prefix(leases: Seq<DhcpLease>, mac: Seq<u8>, i: int)
    requires
        0 <= i < leases.len(),
        find_lease(leases.subrange(0, i), mac) is None,
    ensures
        find_lease(leases.subrange(0, i + 1), mac) == (if leases[i].mac@ == mac {
            Some(i)
        } else {
            None::<int>
        }),
        leases[i].mac@ == mac ==> find_lease(leases, mac) == Some(i),
    decreases leases.len() - i,
{
    assert(leases.subrange(0, i + 1).drop_last() =~= leases.subrange(0, i));
    if leases[i].mac@ == mac {
        lemma_find_lease_extends(leases, mac, i + 1);
    }
}

/// A lease found in a prefix is the one found in the whole table.
proof fn lemma_find_lease_extends(leases: Seq<DhcpLease>, mac: Seq<u8>, k: int)
    requires
        0 <= k <= leases.len(),
        find_lease(leases.subrange(0, k), mac) is Some,
    ensures
        find_lease(leases, mac) == find_lease(leases.subrange(0, k), mac),
    decreases leases.len() - k,
{
    if k == leases.len() {
        assert(leases.subrange(0, k) =~= leases);
    } else {
        assert(leases.subrange(0, k + 1).drop_last() =~= leases.subrange(0, k));
        lemma_find_lease_extends(leases, mac, k + 1);
    }
}

/// The lease table the server starts with: empty, and so sound for any
/// access point address.
pub fn empty_lease_table() -> (r: heapless::Vec<DhcpLease, 8>)
    ensures
        lease_table_items(r) == Seq::<DhcpLease>::empty(),
        forall|ap_ip: Seq<u8>| #[trigger] lease_table_sound(lease_table_items(r), ap_ip),
{
    lease_table_new()
}

/// Answers the address of a client, leasing a fresh one to a client without
/// a lease while the table has room.
pub fn lease_client_ip(
    leases: &mut heapless::Vec<DhcpLease, 8>,
    request: &DhcpRequest,
    ap_ip: [u8; 4],
) -> (r: [u8; 4])
    ensures
        r@ == client_ip_for(
            lease_table_items(*old(leases)),
            request.client_mac@,
            opt_ip_view(request.requested_ip),
            ap_ip@,
        ),
        find_lease(lease_table_items(*old(leases)), request.client_mac@) is Some
            ==> lease_table_items(*final(leases)) == lease_table_items(*old(leases)),
        find_lease(lease_table_items(*old(leases)), request.client_mac@) is None
            && lease_table_items(*old(leases)).len() < DHCP_MAX_LEASES ==> lease_table_items(
            *final(leases),
        ) == lease_table_items(*old(leases)).push(DhcpLease { mac: request.client_mac, ip: r }),
        find_lease(lease_table_items(*old(leases)), request.client_mac@) is None
            && lease_table_items(*old(leases)).len() >= DHCP_MAX_LEASES ==> lease_table_items(
            *final(leases),
        ) == lease_table_items(*old(leases)),
        lease_table_sound(lease_table_items(*old(leases)), ap_ip@) ==> spec_is_ap_client_ip(
            r@,
            ap_ip@,
        ),
        lease_table_sound(lease_table_items(*old(leases)), ap_ip@) ==> lease_table_sound(
            lease_table_items(*final(leases)),
            ap_ip@,
        ),
{
    let table = lease_table_as_slice(leases);
    if let Some(i) = find_lease_index(table, &request.client_mac) {
        return table[i].ip;
    }
    let mut ip = match request.requested_ip {
        Some(requested_ip) => if is_ap_client_ip(requested_ip, ap_ip) {
            requested_ip
        } else {
            suggested_client_ip(request.client_mac, ap_ip)
        },
        None => suggested_client_ip(request.client_mac, ap_ip),
    };
    if leases_hold_ip(table, &ip) {
        ip = match next_available_client_ip(table, ap_ip) {
            Some(next) => next,
            None => suggested_client_ip(request.client_mac, ap_ip),
        };
        proof {
            lemma_pool_not_exhausted(table@, ap_ip@);
            lemma_first_free_octet(table@, ap_ip@, 100);
        }
    }
    let ghost before = table@;
    let _ = lease_table_push(leases, DhcpLease { mac: request.client_mac, ip });
    proof {
        if lease_table_sound(before, ap_ip@) && before.len() < DHCP_MAX_LEASES {
            let after = lease_table_items(*leases);
            assert(after.len() == before.len() + 1);
            assert(after[before.len() as int] == DhcpLease { mac: request.client_mac, ip });
            assert forall|i: int| 0 <= i < before.len() implies (#[trigger] after[i]).mac@
                != request.client_mac@ by {
                assert(after[i] == before[i]);
                if before[i].mac@ == request.client_mac@ {
                    lemma_find_lease_none(before, request.client_mac@, i);
                }
            }
            assert forall|i: int| 0 <= i < before.len() implies (#[trigger] after[i]).ip@ != ip@ by {
                assert(after[i] == before[i]);
            }
        }
    }
    ip
}


/// An option as it stands on the wire: code, length, value.
pub open spec fn dhcp_option(code: u8, value: Seq<u8>) -> Seq<u8> {
    seq![code, value.len() as u8] + value
}

/// Big-endian bytes of a 32-bit value.
pub open spec fn be_bytes(v: u32) -> Seq<u8> {
    seq![
        (v / 0x100_0000) as u8,
        ((v / 0x1_0000) % 0x100) as u8,
        ((v / 0x100) % 0x100) as u8,
        (v % 0x100) as u8,
    ]
}

pub open spec fn zeros(n: nat) -> Seq<u8> {
    Seq::new(n, |_i: int| 0u8)
}

/// The reply type: OFFER for a DISCOVER, ACK for a REQUEST.
pub open spec fn response_type_for(message_type: u8) -> Option<u8> {
    if message_type == DHCP_DISCOVER {
        Some(DHCP_OFFER)
    } else if message_type == DHCP_REQUEST {
        Some(DHCP_ACK)
    } else {
        None
    }
}

/// The fixed BOOTP part of a reply: op BOOTREPLY, Ethernet addresses, the
/// client's transaction id, flags and hardware address, the address given
/// (`yiaddr`), the server (`siaddr`) and the magic cookie.
pub open spec fn dhcp_reply_header(request: DhcpRequest, client_ip: Seq<u8>, ap_ip: Seq<u8>) -> Seq<u8> {
    seq![2u8, 1u8, 6u8, 0u8] + request.xid@ + zeros(2) + request.flags@ + zeros(4) + client_ip
        + ap_ip + zeros(4) + request.chaddr@ + zeros(192) + magic_cookie()
}

/// The options of a reply, in order, closed by the end option.
pub open spec fn dhcp_reply_options(response_type: u8, ap_ip: Seq<u8>) -> Seq<u8> {
    dhcp_option(DHCP_OPTION_MESSAGE_TYPE, seq![response_type])
        + dhcp_option(DHCP_OPTION_SERVER_ID, ap_ip)
        + dhcp_option(DHCP_OPTION_LEASE_TIME, be_bytes(DHCP_LEASE_SECONDS))
        + dhcp_option(DHCP_OPTION_RENEWAL_TIME, be_bytes(DHCP_LEASE_SECONDS / 2))
        + dhcp_option(DHCP_OPTION_REBINDING_TIME, be_bytes(((DHCP_LEASE_SECONDS * 7) / 8) as u32))
        + dhcp_option(DHCP_OPTION_SUBNET_MASK, seq![255u8, 255u8, 255u8, 0u8])
        + dhcp_option(DHCP_OPTION_ROUTER, ap_ip)
        + dhcp_option(DHCP_OPTION_DNS, ap_ip)
        + dhcp_option(DHCP_OPTION_BROADCAST_ADDRESS, seq![ap_ip[0], ap_ip[1], ap_ip[2], 255u8])
        + seq![DHCP_OPTION_END]
}

/// The whole reply, padded with zeros to the minimum BOOTP length.
pub open spec fn dhcp_reply(
    request: DhcpRequest,
    client_ip: Seq<u8>,
    ap_ip: Seq<u8>,
    response_type: u8,
) -> Seq<u8> {
    let body = dhcp_reply_header(request, client_ip, ap_ip) + dhcp_reply_options(
        response_type,
        ap_ip,
    );
    body + zeros((DHCP_MIN_RESPONSE_LEN - body.len()) as nat)
}

/// Every reply gives the client its address in `yiaddr` (bytes 16 to 20),
/// is 300 bytes long and carries its type in the message-type option (byte
/// 242); an ACK differs from the OFFER for the same request only there.
pub proof fn lemma_reply_gives_client_address(
    request: DhcpRequest,
    client_ip: Seq<u8>,
    ap_ip: Seq<u8>,
    t: u8,
)
    requires
        client_ip.len() == 4,
        ap_ip.len() == 4,
    ensures
        dhcp_reply(request, client_ip, ap_ip, t).len() == DHCP_MIN_RESPONSE_LEN,
        dhcp_reply(request, client_ip, ap_ip, t).subrange(16, 20) == client_ip,
        dhcp_reply(request, client_ip, ap_ip, t)[242] == t,
        forall|i: int|
            0 <= i < DHCP_MIN_RESPONSE_LEN && i != 242 ==> #[trigger] dhcp_reply(
                request,
                client_ip,
                ap_ip,
                DHCP_OFFER,
            )[i] == dhcp_reply(request, client_ip, ap_ip, DHCP_ACK)[i],
{
    let h = dhcp_reply_header(request, client_ip, ap_ip);
    assert(h.len() == 240);
    assert(h.subrange(16, 20) =~= client_ip);
    let o = dhcp_reply_options(t, ap_ip);
    let oo = dhcp_reply_options(DHCP_OFFER, ap_ip);
    let oa = dhcp_reply_options(DHCP_ACK, ap_ip);
    assert(o.len() == 52);
    assert(oo.len() == 52 && oa.len() == 52);
    assert(o[2] == t);
    assert forall|k: int| 0 <= k < 52 && k != 2 implies oo[k] == oa[k] by {
        assert(oo.subrange(3, 52) =~= oa.subrange(3, 52));
        if k > 2 {
            assert(oo[k] == oo.subrange(3, 52)[k - 3]);
            assert(oa[k] == oa.subrange(3, 52)[k - 3]);
        }
    }
    let r = dhcp_reply(request, client_ip, ap_ip, t);
    assert(r.subrange(16, 20) =~= h.subrange(16, 20));
    let ro = dhcp_reply(request, client_ip, ap_ip, DHCP_OFFER);
    let ra = dhcp_reply(request, client_ip, ap_ip, DHCP_ACK);
    assert forall|i: int| 0 <= i < DHCP_MIN_RESPONSE_LEN && i != 242 implies #[trigger] ro[i]
        == ra[i] by {
        if 240 <= i < 292 {
            assert(ro[i] == oo[i - 240]);
            assert(ra[i] == oa[i - 240]);
        }
    }
}

/// Big-endian bytes of a 32-bit value.
pub fn u32_be_bytes(v: u32) -> (r: [u8; 4])
    ensures
        r@ == be_bytes(v),
{
    let r = [(v >> 24) as u8, (v >> 16) as u8, (v >> 8) as u8, v as u8];
    assert((v >> 24) as u8 == (v / 0x100_0000) as u8) by (bit_vector);
    assert((v >> 16) as u8 == ((v / 0x1_0000) % 0x100) as u8) by (bit_vector);
    assert((v >> 8) as u8 == ((v / 0x100) % 0x100) as u8) by (bit_vector);
    assert(v as u8 == (v % 0x100) as u8) by (bit_vector);
    assert(r@ =~= be_bytes(v));
    r
}

/// Writes option `code` with `value` at `*offset` and moves `*offset` past
/// it; `None`, with nothing written, when the value is longer than 255 bytes
/// or the option does not fit.
pub fn push_dhcp_option(buffer: &mut [u8], offset: &mut usize, code: u8, value: &[u8]) -> (r: Option<()>)
    requires
        value@.len() <= 255 ==> *old(offset) + 2 + value@.len() <= usize::MAX,
    ensures
        value@.len() > 255 || *old(offset) + 2 + value@.len() > old(buffer)@.len() ==> {
            &&& r is None
            &&& final(buffer)@ == old(buffer)@
            &&& *final(offset) == *old(offset)
        },
        !(value@.len() > 255 || *old(offset) + 2 + value@.len() > old(buffer)@.len()) ==> {
            &&& r is Some
            &&& final(buffer)@ == old(buffer)@.subrange(0, *old(offset) as int) + dhcp_option(
                code,
                value@,
            ) + old(buffer)@.subrange(
                *old(offset) + 2 + value@.len(),
                old(buffer)@.len() as int,
            )
            &&& *final(offset) == *old(offset) + 2 + value@.len()
        },
{
    if value.len() > 255 || *offset + 2 + value.len() > buffer.len() {
        return None;
    }
    let ghost start = *offset as int;
    let ghost before = buffer@;
    buffer[*offset] = code;
    buffer[*offset + 1] = value.len() as u8;
    *offset += 2;
    let mut i: usize = 0;
    while i < value.len()
        invariant
            i <= value@.len(),
            *offset == start + 2,
            start + 2 + value@.len() <= buffer.len(),
            0 <= start,
            value@.len() <= 255,
            buffer@.len() == before.len(),
            buffer@.subrange(0, start + 2 + i) =~= before.subrange(0, start) + seq![
                code,
                value@.len() as u8,
            ] + value@.subrange(0, i as int),
            buffer@.subrange(start + 2 + i, buffer@.len() as int) =~= before.subrange(
                start + 2 + i,
                before.len() as int,
            ),
        decreases value.len() - i,
    {
        let ghost prev = buffer@;
        buffer[*offset + i] = value[i];
        proof {
            assert(buffer@.subrange(0, start + 2 + i + 1) =~= prev.subrange(0, start + 2 + i).push(
                value@[i as int],
            ));
            assert(value@.subrange(0, i + 1) =~= value@.subrange(0, i as int).push(value@[i as int]));
            assert(buffer@.subrange(start + 2 + i + 1, buffer@.len() as int) =~= prev.subrange(
                start + 2 + i + 1,
                prev.len() as int,
            ));
            assert(prev.subrange(start + 2 + i + 1, prev.len() as int) =~= before.subrange(
                start + 2 + i + 1,
                before.len() as int,
            )) by {
                assert(prev.subrange(start + 2 + i + 1, prev.len() as int) =~= prev.subrange(
                    start + 2 + i,
                    prev.len() as int,
                ).subrange(1, prev.len() - (start + 2 + i)));
            }
        }
        i += 1;
    }
    *offset += value.len();
    assert(value@.subrange(0, value@.len() as int) =~= value@);
    assert(buffer@ =~= buffer@.subrange(0, start + 2 + value@.len()) + buffer@.subrange(
        start + 2 + value@.len(),
        buffer@.len() as int,
    ));
    Some(())
}


/// Writes `src` into `buffer` at `at`.
fn copy_at(buffer: &mut [u8], at: usize, src: &[u8])
    requires
        at + src@.len() <= old(buffer)@.len(),
    ensures
        final(buffer)@ == old(buffer)@.subrange(0, at as int) + src@ + old(buffer)@.subrange(
            at + src@.len(),
            old(buffer)@.len() as int,
        ),
{
    let ghost before = buffer@;
    let mut i: usize = 0;
    while i < src.len()
        invariant
            i <= src@.len(),
            at + src@.len() <= buffer.len(),
            buffer@.len() == before.len(),
            forall|j: int| 0 <= j < at ==> buffer@[j] == before[j],
            forall|j: int| 0 <= j < i ==> buffer@[at + j] == src@[j],
            forall|j: int| at + i <= j < buffer@.len() ==> buffer@[j] == before[j],
        decreases src.len() - i,
    {
        buffer[at + i] = src[i];
        i += 1;
    }
    assert(buffer@ =~= before.subrange(0, at as int) + src@ + before.subrange(
        at + src@.len(),
        before.len() as int,
    ));
}

/// After an option is written at `off` into a buffer laid out as `written`,
/// zeros up to the reply length, then `tail`, the buffer is laid out as
/// `written + opt`, the remaining zeros, then `tail`.
proof fn lemma_option_extends_reply(
    before: Seq<u8>,
    after: Seq<u8>,
    off: int,
    opt: Seq<u8>,
    written: Seq<u8>,
    tail: Seq<u8>,
)
    requires
        0 <= off,
        off + opt.len() <= DHCP_MIN_RESPONSE_LEN,
        off <= before.len(),
        before.subrange(0, off) == written,
        before.subrange(off, before.len() as int) == zeros((DHCP_MIN_RESPONSE_LEN - off) as nat)
            + tail,
        after == before.subrange(0, off) + opt + before.subrange(
            off + opt.len(),
            before.len() as int,
        ),
    ensures
        after.len() == before.len(),
        after.subrange(0, off + opt.len()) == written + opt,
        after.subrange(off + opt.len(), after.len() as int) == zeros(
            (DHCP_MIN_RESPONSE_LEN - off - opt.len()) as nat,
        ) + tail,
{
    let rest = before.subrange(off, before.len() as int);
    assert(before.subrange(off + opt.len(), before.len() as int) =~= rest.subrange(
        opt.len() as int,
        rest.len() as int,
    ));
    assert(rest.subrange(opt.len() as int, rest.len() as int) =~= zeros(
        (DHCP_MIN_RESPONSE_LEN - off - opt.len()) as nat,
    ) + tail);
    assert(after.subrange(0, off + opt.len()) =~= written + opt);
    assert(after.subrange(off + opt.len(), after.len() as int) =~= zeros(
        (DHCP_MIN_RESPONSE_LEN - off - opt.len()) as nat,
    ) + tail);
}

/// Appends one option to a reply being laid out in `buffer`.
fn push_reply_option(
    buffer: &mut [u8],
    offset: &mut usize,
    code: u8,
    value: &[u8],
    Ghost(written): Ghost<Seq<u8>>,
    Ghost(tail): Ghost<Seq<u8>>,
)
    requires
        value@.len() <= 255,
        *old(offset) + 2 + value@.len() <= DHCP_MIN_RESPONSE_LEN,
        *old(offset) <= old(buffer)@.len(),
        old(buffer)@.subrange(0, *old(offset) as int) == written,
        old(buffer)@.subrange(*old(offset) as int, old(buffer)@.len() as int) == zeros(
            (DHCP_MIN_RESPONSE_LEN - *old(offset)) as nat,
        ) + tail,
    ensures
        *final(offset) == *old(offset) + 2 + value@.len(),
        final(buffer)@.len() == old(buffer)@.len(),
        final(buffer)@.len() >= DHCP_MIN_RESPONSE_LEN,
        final(buffer)@.subrange(0, *final(offset) as int) == written + dhcp_option(code, value@),
        final(buffer)@.subrange(*final(offset) as int, final(buffer)@.len() as int) == zeros(
            (DHCP_MIN_RESPONSE_LEN - *final(offset)) as nat,
        ) + tail,
{
    let ghost before = buffer@;
    let ghost off = *offset as int;
    assert(old(buffer)@.len() >= DHCP_MIN_RESPONSE_LEN) by {
        assert(before.subrange(off, before.len() as int).len() == (DHCP_MIN_RESPONSE_LEN - off) + tail.len());
    }
    let r = push_dhcp_option(buffer, offset, code, value);
    proof {
        lemma_option_extends_reply(before, buffer@, off, dhcp_option(code, value@), written, tail);
    }
}

/// Lays out the fixed BOOTP part of a reply over a cleared reply area.
fn write_reply_header(
    buffer: &mut [u8],
    request: &DhcpRequest,
    client_ip: [u8; 4],
    ap_ip: [u8; 4],
    Ghost(tail): Ghost<Seq<u8>>,
)
    requires
        old(buffer)@ == zeros(DHCP_MIN_RESPONSE_LEN as nat) + tail,
    ensures
        final(buffer)@.len() == old(buffer)@.len(),
        final(buffer)@.subrange(0, DHCP_OPTIONS_OFFSET as int) == dhcp_reply_header(
            *request,
            client_ip@,
            ap_ip@,
        ),
        final(buffer)@.subrange(DHCP_OPTIONS_OFFSET as int, final(buffer)@.len() as int) == zeros(
            (DHCP_MIN_RESPONSE_LEN - DHCP_OPTIONS_OFFSET) as nat,
        ) + tail,
{
    buffer[0] = 2;
    buffer[1] = 1;
    buffer[2] = 6;
    copy_at(buffer, 4, request.xid.as_slice());
    copy_at(buffer, 10, request.flags.as_slice());
    copy_at(buffer, 16, client_ip.as_slice());
    copy_at(buffer, 20, ap_ip.as_slice());
    copy_at(buffer, 28, request.chaddr.as_slice());
    let cookie: [u8; 4] = [99, 130, 83, 99];
    copy_at(buffer, DHCP_FIXED_HEADER_LEN, cookie.as_slice());
    assert(buffer@.subrange(0, DHCP_OPTIONS_OFFSET as int) =~= dhcp_reply_header(
        *request,
        client_ip@,
        ap_ip@,
    ));
    assert(buffer@.subrange(DHCP_OPTIONS_OFFSET as int, buffer@.len() as int) =~= zeros(
        (DHCP_MIN_RESPONSE_LEN - DHCP_OPTIONS_OFFSET) as nat,
    ) + tail);
}

/// Lays out the options of a reply after its header; gives the offset just
/// past the end option.
fn write_reply_options(
    buffer: &mut [u8],
    response_type: u8,
    ap_ip: [u8; 4],
    Ghost(header): Ghost<Seq<u8>>,
    Ghost(tail): Ghost<Seq<u8>>,
) -> (end: usize)
    requires
        old(buffer)@.len() >= DHCP_OPTIONS_OFFSET,
        old(buffer)@.subrange(0, DHCP_OPTIONS_OFFSET as int) == header,
        old(buffer)@.subrange(DHCP_OPTIONS_OFFSET as int, old(buffer)@.len() as int) == zeros(
            (DHCP_MIN_RESPONSE_LEN - DHCP_OPTIONS_OFFSET) as nat,
        ) + tail,
    ensures
        end <= DHCP_MIN_RESPONSE_LEN,
        final(buffer)@ == header + dhcp_reply_options(response_type, ap_ip@) + zeros(
            (DHCP_MIN_RESPONSE_LEN - end) as nat,
        ) + tail,
        end == header.len() + dhcp_reply_options(response_type, ap_ip@).len(),
{
    let mut offset: usize = DHCP_OPTIONS_OFFSET;
    let type_value: [u8; 1] = [response_type];
    let lease_time = u32_be_bytes(DHCP_LEASE_SECONDS);
    let renewal_time = u32_be_bytes(DHCP_LEASE_SECONDS / 2);
    let rebinding_time = u32_be_bytes((DHCP_LEASE_SECONDS * 7) / 8);
    let subnet_mask: [u8; 4] = [255, 255, 255, 0];
    let broadcast_ip: [u8; 4] = [ap_ip[0], ap_ip[1], ap_ip[2], 255];
    let ghost w0 = header;
    push_reply_option(buffer, &mut offset, DHCP_OPTION_MESSAGE_TYPE, type_value.as_slice(), Ghost(w0), Ghost(tail));
    let ghost w1 = w0 + dhcp_option(DHCP_OPTION_MESSAGE_TYPE, type_value@);
    push_reply_option(buffer, &mut offset, DHCP_OPTION_SERVER_ID, ap_ip.as_slice(), Ghost(w1), Ghost(tail));
    let ghost w2 = w1 + dhcp_option(DHCP_OPTION_SERVER_ID, ap_ip@);
    push_reply_option(buffer, &mut offset, DHCP_OPTION_LEASE_TIME, lease_time.as_slice(), Ghost(w2), Ghost(tail));
    let ghost w3 = w2 + dhcp_option(DHCP_OPTION_LEASE_TIME, lease_time@);
    push_reply_option(buffer, &mut offset, DHCP_OPTION_RENEWAL_TIME, renewal_time.as_slice(), Ghost(w3), Ghost(tail));
    let ghost w4 = w3 + dhcp_option(DHCP_OPTION_RENEWAL_TIME, renewal_time@);
    push_reply_option(buffer, &mut offset, DHCP_OPTION_REBINDING_TIME, rebinding_time.as_slice(), Ghost(w4), Ghost(tail));
    let ghost w5 = w4 + dhcp_option(DHCP_OPTION_REBINDING_TIME, rebinding_time@);
    push_reply_option(buffer, &mut offset, DHCP_OPTION_SUBNET_MASK, subnet_mask.as_slice(), Ghost(w5), Ghost(tail));
    let ghost w6 = w5 + dhcp_option(DHCP_OPTION_SUBNET_MASK, subnet_mask@);
    push_reply_option(buffer, &mut offset, DHCP_OPTION_ROUTER, ap_ip.as_slice(), Ghost(w6), Ghost(tail));
    let ghost w7 = w6 + dhcp_option(DHCP_OPTION_ROUTER, ap_ip@);
    push_reply_option(buffer, &mut offset, DHCP_OPTION_DNS, ap_ip.as_slice(), Ghost(w7), Ghost(tail));
    let ghost w8 = w7 + dhcp_option(DHCP_OPTION_DNS, ap_ip@);
    push_reply_option(buffer, &mut offset, DHCP_OPTION_BROADCAST_ADDRESS, broadcast_ip.as_slice(), Ghost(w8), Ghost(tail));
    let ghost w9 = w8 + dhcp_option(DHCP_OPTION_BROADCAST_ADDRESS, broadcast_ip@);

    let ghost before = buffer@;
    let ghost off = offset as int;
    buffer[offset] = DHCP_OPTION_END;
    offset += 1;
    proof {
        assert(buffer@ =~= before.subrange(0, off) + seq![DHCP_OPTION_END] + before.subrange(
            off + 1,
            before.len() as int,
        ));
        lemma_option_extends_reply(before, buffer@, off, seq![DHCP_OPTION_END], w9, tail);
        assert(type_value@ =~= seq![response_type]);
        assert(subnet_mask@ =~= seq![255u8, 255u8, 255u8, 0u8]);
        assert(broadcast_ip@ =~= seq![ap_ip@[0], ap_ip@[1], ap_ip@[2], 255u8]);
        assert(w9 + seq![DHCP_OPTION_END] =~= header + dhcp_reply_options(response_type, ap_ip@));
        assert(buffer@ =~= buffer@.subrange(0, offset as int) + buffer@.subrange(
            offset as int,
            buffer@.len() as int,
        ));
    }
    offset
}

/// Writes the OFFER or ACK that answers `request`, giving it `client_ip`,
/// into the start of `buffer`. `None` when the buffer is shorter than a
/// reply (buffer untouched) or the request is neither a DISCOVER nor a
/// REQUEST (the reply area is cleared); otherwise the reply length and type.
pub fn write_dhcp_response(
    buffer: &mut [u8],
    request: &DhcpRequest,
    client_ip: [u8; 4],
    ap_ip: [u8; 4],
) -> (r: Option<(usize, u8)>)
    ensures
        old(buffer)@.len() < DHCP_MIN_RESPONSE_LEN ==> r is None && final(buffer)@ == old(
            buffer,
        )@,
        old(buffer)@.len() >= DHCP_MIN_RESPONSE_LEN && response_type_for(request.message_type)
            is None ==> r is None && final(buffer)@ == zeros(DHCP_MIN_RESPONSE_LEN as nat) + old(
            buffer,
        )@.subrange(DHCP_MIN_RESPONSE_LEN as int, old(buffer)@.len() as int),
        old(buffer)@.len() >= DHCP_MIN_RESPONSE_LEN && response_type_for(request.message_type)
            is Some ==> {
            let t = response_type_for(request.message_type).unwrap();
            &&& r == Some((DHCP_MIN_RESPONSE_LEN, t))
            &&& final(buffer)@ == dhcp_reply(*request, client_ip@, ap_ip@, t) + old(
                buffer,
            )@.subrange(DHCP_MIN_RESPONSE_LEN as int, old(buffer)@.len() as int)
        },
{
    if buffer.len() < DHCP_MIN_RESPONSE_LEN {
        return None;
    }
    let ghost tail = buffer@.subrange(DHCP_MIN_RESPONSE_LEN as int, buffer@.len() as int);
    let mut i: usize = 0;
    while i < DHCP_MIN_RESPONSE_LEN
        invariant
            i <= DHCP_MIN_RESPONSE_LEN <= buffer@.len(),
            buffer@.subrange(DHCP_MIN_RESPONSE_LEN as int, buffer@.len() as int) == tail,
            forall|j: int| 0 <= j < i ==> buffer@[j] == 0,
        decreases DHCP_MIN_RESPONSE_LEN - i,
    {
        let ghost prev = buffer@;
        buffer[i] = 0;
        assert(buffer@.subrange(DHCP_MIN_RESPONSE_LEN as int, buffer@.len() as int) =~= prev.subrange(
            DHCP_MIN_RESPONSE_LEN as int,
            prev.len() as int,
        ));
        i += 1;
    }
    assert(buffer@ =~= zeros(DHCP_MIN_RESPONSE_LEN as nat) + tail);

    let response_type = match request.message_type {
        DHCP_DISCOVER => DHCP_OFFER,
        DHCP_REQUEST => DHCP_ACK,
        _ => return None,
    };
    write_reply_header(buffer, request, client_ip, ap_ip, Ghost(tail));
    let ghost header = dhcp_reply_header(*request, client_ip@, ap_ip@);
    let offset = write_reply_options(buffer, response_type, ap_ip, Ghost(header), Ghost(tail));
    assert(dhcp_reply(*request, client_ip@, ap_ip@, response_type) =~= header + dhcp_reply_options(
        response_type,
        ap_ip@,
    ) + zeros((DHCP_MIN_RESPONSE_LEN - offset) as nat));
    Some((if offset > DHCP_MIN_RESPONSE_LEN { offset } else { DHCP_MIN_RESPONSE_LEN }, response_type))
}

/// Name of a reply type, for the log.
pub fn dhcp_message_name(message_type: u8) -> (r: &'static str)
    ensures
        message_type == DHCP_OFFER ==> r@ == "offer"@,
        message_type == DHCP_ACK ==> r@ == "ack"@,
        message_type != DHCP_OFFER && message_type != DHCP_ACK ==> r@ == "response"@,
{
    match message_type {
        DHCP_OFFER => "offer",
        DHCP_ACK => "ack",
        _ => "response",
    }
}

/// Compares two addresses octet by octet.
pub fn ip_eq(a: &[u8; 4], b: &[u8; 4]) -> (r: bool)
    ensures
        r == (a@ == b@),
{
    let r = a[0] == b[0] && a[1] == b[1] && a[2] == b[2] && a[3] == b[3];
    proof {
        if r {
            assert(a@ =~= b@);
        } else if a@ == b@ {
            assert(a@[0] == b@[0] && a@[1] == b@[1] && a@[2] == b@[2] && a@[3] == b@[3]);
        }
    }
    r
}

/// Compares two hardware addresses byte by byte.
pub fn mac_eq(a: &[u8; 6], b: &[u8; 6]) -> (r: bool)
    ensures
        r == (a@ == b@),
{
    let r = a[0] == b[0] && a[1] == b[1] && a[2] == b[2] && a[3] == b[3] && a[4] == b[4]
        && a[5] == b[5];
    proof {
        if r {
            assert(a@ =~= b@);
        } else if a@ == b@ {
            assert(a@[0] == b@[0] && a@[1] == b@[1] && a@[2] == b@[2]);
            assert(a@[3] == b@[3] && a@[4] == b@[4] && a@[5] == b@[5]);
        }
    }
    r
}

} // verus!
