use esp32_netcfg::dhcp::{
    dhcp_message_name, empty_lease_table, is_ap_client_ip, lease_client_ip, next_available_client_ip,
    parse_dhcp_request, push_dhcp_option, suggested_client_ip, write_dhcp_response, DhcpLease,
    DhcpRequest,
};

const AP_IP: [u8; 4] = [192, 168, 2, 1];

fn packet(options: &[u8]) -> Vec<u8> {
    let mut p = vec![0u8; 240];
    p[0] = 1;
    p[1] = 1;
    p[2] = 6;
    p[4..8].copy_from_slice(&[0xde, 0xad, 0xbe, 0xef]);
    p[10..12].copy_from_slice(&[0x80, 0x00]);
    p[28..34].copy_from_slice(&[2, 0, 0, 0, 0, 1]);
    p[236..240].copy_from_slice(&[99, 130, 83, 99]);
    p.extend_from_slice(options);
    p
}

fn request(message_type: u8, mac: [u8; 6], requested_ip: Option<[u8; 4]>) -> DhcpRequest {
    let mut chaddr = [0u8; 16];
    chaddr[..6].copy_from_slice(&mac);
    DhcpRequest {
        message_type,
        xid: [1, 2, 3, 4],
        flags: [0x80, 0],
        chaddr,
        client_mac: mac,
        requested_ip,
    }
}

#[test]
fn parses_discover_with_requested_address() {
    let p = packet(&[53, 1, 1, 0, 50, 4, 192, 168, 2, 150, 255, 53, 1, 7]);
    let r = parse_dhcp_request(&p, AP_IP).unwrap();
    assert_eq!(r.message_type, 1);
    assert_eq!(r.xid, [0xde, 0xad, 0xbe, 0xef]);
    assert_eq!(r.flags, [0x80, 0x00]);
    assert_eq!(r.client_mac, [2, 0, 0, 0, 0, 1]);
    assert_eq!(&r.chaddr[..6], &[2, 0, 0, 0, 0, 1]);
    assert_eq!(r.requested_ip, Some([192, 168, 2, 150]));
}

#[test]
fn last_message_type_option_wins() {
    let p = packet(&[53, 1, 1, 53, 1, 3]);
    assert_eq!(parse_dhcp_request(&p, AP_IP).unwrap().message_type, 3);
}

#[test]
fn ignores_other_message_types_and_servers() {
    assert!(parse_dhcp_request(&packet(&[53, 1, 2]), AP_IP).is_none());
    assert!(parse_dhcp_request(&packet(&[50, 4, 1, 2, 3, 4]), AP_IP).is_none());
    assert!(parse_dhcp_request(&packet(&[53, 1, 3, 54, 4, 10, 0, 0, 1]), AP_IP).is_none());
    assert!(parse_dhcp_request(&packet(&[53, 1, 3, 54, 4, 192, 168, 2, 1]), AP_IP).is_some());
}

#[test]
fn rejects_malformed_packets() {
    assert!(parse_dhcp_request(&packet(&[53, 1, 1])[..239], AP_IP).is_none());
    let mut bad_cookie = packet(&[53, 1, 1]);
    bad_cookie[237] = 0;
    assert!(parse_dhcp_request(&bad_cookie, AP_IP).is_none());
    let mut reply = packet(&[53, 1, 1]);
    reply[0] = 2;
    assert!(parse_dhcp_request(&reply, AP_IP).is_none());
    assert!(parse_dhcp_request(&packet(&[53, 1, 1, 50]), AP_IP).is_none());
    assert!(parse_dhcp_request(&packet(&[53, 1, 1, 50, 4, 1, 2]), AP_IP).is_none());
}

#[test]
fn client_addresses_of_the_access_point_network() {
    assert!(is_ap_client_ip([192, 168, 2, 50], AP_IP));
    assert!(!is_ap_client_ip([192, 168, 2, 1], AP_IP));
    assert!(!is_ap_client_ip([192, 168, 2, 0], AP_IP));
    assert!(!is_ap_client_ip([192, 168, 2, 255], AP_IP));
    assert!(!is_ap_client_ip([192, 168, 3, 50], AP_IP));
}

#[test]
fn suggested_address_hashes_the_mac() {
    assert_eq!(suggested_client_ip([2, 0, 0, 0, 0, 1], AP_IP), [192, 168, 2, 167]);
    assert_eq!(
        suggested_client_ip([0xaa, 0xbb, 0xcc, 0xdd, 0xee, 0xff], AP_IP),
        [192, 168, 2, 159]
    );
    assert_eq!(suggested_client_ip([2, 0, 0, 0, 0, 1], [10, 0, 0, 167]), [10, 0, 0, 168]);
}

#[test]
fn next_available_skips_leased_and_own_addresses() {
    let leases = [
        DhcpLease { mac: [1; 6], ip: [192, 168, 2, 100] },
        DhcpLease { mac: [2; 6], ip: [192, 168, 2, 101] },
    ];
    assert_eq!(next_available_client_ip(&leases, AP_IP), Some([192, 168, 2, 102]));
    assert_eq!(next_available_client_ip(&leases, [192, 168, 2, 102]), Some([192, 168, 2, 103]));
    assert_eq!(next_available_client_ip(&[], AP_IP), Some([192, 168, 2, 100]));
}

#[test]
fn leases_are_stable_and_distinct() {
    let mut leases = empty_lease_table();
    let first = request(1, [2, 0, 0, 0, 0, 1], Some([192, 168, 2, 150]));
    assert_eq!(lease_client_ip(&mut leases, &first, AP_IP), [192, 168, 2, 150]);
    assert_eq!(leases.len(), 1);

    let again = request(3, [2, 0, 0, 0, 0, 1], Some([192, 168, 2, 99]));
    assert_eq!(lease_client_ip(&mut leases, &again, AP_IP), [192, 168, 2, 150]);
    assert_eq!(leases.len(), 1);

    let other = request(1, [3, 0, 0, 0, 0, 1], Some([192, 168, 2, 150]));
    assert_eq!(lease_client_ip(&mut leases, &other, AP_IP), [192, 168, 2, 100]);
    assert_eq!(leases.len(), 2);

    let outside = request(1, [2, 0, 0, 0, 0, 2], Some([10, 0, 0, 5]));
    let given = lease_client_ip(&mut leases, &outside, AP_IP);
    assert_eq!(given, suggested_client_ip([2, 0, 0, 0, 0, 2], AP_IP));
    assert_eq!(leases.len(), 3);
}

#[test]
fn full_table_still_answers() {
    let mut leases = empty_lease_table();
    for i in 0..8u8 {
        let r = request(1, [9, 9, 9, 9, 9, i], None);
        lease_client_ip(&mut leases, &r, AP_IP);
    }
    assert_eq!(leases.len(), 8);
    let late = request(1, [7, 7, 7, 7, 7, 7], Some([192, 168, 2, 42]));
    assert_eq!(lease_client_ip(&mut leases, &late, AP_IP), [192, 168, 2, 42]);
    assert_eq!(leases.len(), 8);
}

#[test]
fn writes_offer() {
    let mut buffer = [0xffu8; 320];
    let req = request(1, [2, 0, 0, 0, 0, 1], None);
    let r = write_dhcp_response(&mut buffer, &req, [192, 168, 2, 167], AP_IP);
    assert_eq!(r, Some((300, 2)));
    assert_eq!(&buffer[0..4], &[2, 1, 6, 0]);
    assert_eq!(&buffer[4..8], &[1, 2, 3, 4]);
    assert_eq!(&buffer[10..12], &[0x80, 0]);
    assert_eq!(&buffer[16..20], &[192, 168, 2, 167]);
    assert_eq!(&buffer[20..24], &AP_IP);
    assert_eq!(&buffer[28..34], &[2, 0, 0, 0, 0, 1]);
    assert!(buffer[44..236].iter().all(|b| *b == 0));
    assert_eq!(&buffer[236..240], &[99, 130, 83, 99]);
    let options: [u8; 52] = [
        53, 1, 2, 54, 4, 192, 168, 2, 1, 51, 4, 0, 0, 14, 16, 58, 4, 0, 0, 7, 8, 59, 4, 0, 0, 12,
        78, 1, 4, 255, 255, 255, 0, 3, 4, 192, 168, 2, 1, 6, 4, 192, 168, 2, 1, 28, 4, 192, 168,
        2, 255, 255,
    ];
    assert_eq!(&buffer[240..292], &options);
    assert!(buffer[292..300].iter().all(|b| *b == 0));
    assert!(buffer[300..].iter().all(|b| *b == 0xff));
}

#[test]
fn writes_ack_and_refuses_others() {
    let mut buffer = [0u8; 300];
    let req = request(3, [2, 0, 0, 0, 0, 1], None);
    assert_eq!(write_dhcp_response(&mut buffer, &req, [192, 168, 2, 167], AP_IP), Some((300, 5)));
    assert_eq!(buffer[242], 5);

    let mut small = [7u8; 299];
    assert_eq!(write_dhcp_response(&mut small, &req, [192, 168, 2, 167], AP_IP), None);
    assert!(small.iter().all(|b| *b == 7));

    let mut other = [7u8; 310];
    let release = request(7, [2, 0, 0, 0, 0, 1], None);
    assert_eq!(write_dhcp_response(&mut other, &release, [192, 168, 2, 167], AP_IP), None);
    assert!(other[..300].iter().all(|b| *b == 0));
    assert!(other[300..].iter().all(|b| *b == 7));
}

#[test]
fn options_that_do_not_fit_are_refused() {
    let mut buffer = [0u8; 8];
    let mut offset = 2;
    assert_eq!(push_dhcp_option(&mut buffer, &mut offset, 54, &[1, 2, 3, 4]), Some(()));
    assert_eq!(offset, 8);
    assert_eq!(buffer, [0, 0, 54, 4, 1, 2, 3, 4]);
    assert_eq!(push_dhcp_option(&mut buffer, &mut offset, 1, &[]), None);
    assert_eq!(offset, 8);
    let long = [0u8; 256];
    let mut big = [0u8; 300];
    let mut at = 0;
    assert_eq!(push_dhcp_option(&mut big, &mut at, 1, &long), None);
    assert_eq!(at, 0);
}

#[test]
fn message_names() {
    assert_eq!(dhcp_message_name(2), "offer");
    assert_eq!(dhcp_message_name(5), "ack");
    assert_eq!(dhcp_message_name(1), "response");
}
