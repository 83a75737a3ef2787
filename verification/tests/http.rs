use esp32_netcfg::http::{
    config_page, content_length, handle_request, find_header_end, handle_wifi_post, hex_value, parse_request,
    parse_request_is_defined, parse_wifi_form, percent_decode, request_complete,
    request_complete_is_defined, route, write_display, write_escaped, write_text_response, Route,
    StaStatus, MSG_FORM_INVALID, MSG_SAVED,
};
use esp32_netcfg::wifi::WifiRuntimeState;

#[test]
fn finds_the_blank_line() {
    assert_eq!(find_header_end(b"GET / HTTP/1.0\r\n\r\nbody"), Some(14));
    assert_eq!(find_header_end(b"\r\n\r\n"), Some(0));
    assert_eq!(find_header_end(b"GET / HTTP/1.0\r\n"), None);
    assert_eq!(find_header_end(b""), None);
}

#[test]
fn reads_content_length() {
    assert_eq!(content_length(b"POST /wifi HTTP/1.1\r\nContent-Length: 12"), Some(12));
    assert_eq!(content_length(b"POST /wifi HTTP/1.1\r\nCONTENT-length:\t+7 \r\nHost: x"), Some(7));
    assert_eq!(content_length(b"POST /wifi HTTP/1.1\r\nHost: x"), None);
    assert_eq!(content_length(b"POST /wifi HTTP/1.1\r\nContent-Length: abc\r\nContent-Length: 4"), None);
    assert_eq!(content_length(b"X\r\ncontent-length:\xc2\xa05\xe3\x80\x80"), Some(5));
    assert_eq!(content_length(b"content-length: 99999999999999999999999999"), None);
}

#[test]
fn completeness_follows_the_declared_body() {
    let head = b"POST /wifi HTTP/1.1\r\nContent-Length: 4\r\n\r\n";
    let mut full = head.to_vec();
    assert!(!request_complete(&full));
    full.extend_from_slice(b"ab");
    assert!(!request_complete(&full));
    full.extend_from_slice(b"cd");
    assert!(request_complete(&full));
    full.extend_from_slice(b"extra");
    assert!(request_complete(&full));
    assert!(!request_complete(b"GET / HTTP/1.0\r\n"));
    assert!(request_complete(b"\xff\r\n\r\n"));
}

#[test]
fn huge_content_length_is_outside_completeness() {
    let r = b"POST / HTTP/1.1\r\nContent-Length: 18446744073709551615\r\n\r\n";
    assert!(!request_complete_is_defined(r));
    assert!(request_complete_is_defined(b"POST / HTTP/1.1\r\nContent-Length: 3\r\n\r\n"));
}

#[test]
fn parses_method_path_and_body() {
    let raw = b"POST  /wifi HTTP/1.1\r\nContent-Length: 5\r\n\r\nssid=abcdef";
    let req = parse_request(raw).unwrap();
    assert_eq!(req.method, b"POST");
    assert_eq!(req.path, b"/wifi");
    assert_eq!(req.body, b"ssid=");

    let short = parse_request(b"GET / HTTP/1.0\r\nContent-Length: 50\r\n\r\nab").unwrap();
    assert_eq!(short.body, b"ab");

    let no_length = parse_request(b"GET /wifi\r\n\r\nignored").unwrap();
    assert_eq!(no_length.path, b"/wifi");
    assert_eq!(no_length.body, b"");
}

#[test]
fn refuses_bad_requests() {
    assert!(parse_request(b"GET / HTTP/1.0\r\n").is_err());
    assert!(parse_request(b"\r\n\r\n").is_err());
    assert!(parse_request(b"GET\r\n\r\n").is_err());
    assert!(parse_request(b"GET /\xff HTTP/1.0\r\n\r\n").is_err());
}

#[test]
fn body_must_end_at_a_character_boundary() {
    let raw = "POST /wifi HTTP/1.1\r\nContent-Length: 1\r\n\r\n\u{e9}".as_bytes();
    assert!(!parse_request_is_defined(raw));
    let ok = "POST /wifi HTTP/1.1\r\nContent-Length: 2\r\n\r\n\u{e9}".as_bytes();
    assert!(parse_request_is_defined(ok));
    assert_eq!(parse_request(ok).unwrap().body, "\u{e9}".as_bytes());
}

#[test]
fn hex_digits() {
    assert_eq!(hex_value(b'0'), Ok(0));
    assert_eq!(hex_value(b'9'), Ok(9));
    assert_eq!(hex_value(b'a'), Ok(10));
    assert_eq!(hex_value(b'F'), Ok(15));
    assert_eq!(hex_value(b'g'), Err(()));
}

#[test]
fn percent_decoding() {
    let mut out = heapless::String::<32>::new();
    assert_eq!(percent_decode(b"a%20b+c%2B%", &mut out), Ok(()));
    assert_eq!(out.as_str(), "a b c+%");
    assert_eq!(percent_decode(b"%C3%A9", &mut out), Ok(()));
    assert_eq!(out.as_str(), "\u{e9}");
    assert_eq!(percent_decode(b"%zz", &mut out), Err(()));
    assert_eq!(out.as_str(), "");
    assert_eq!(percent_decode(b"ok", &mut out), Ok(()));
    assert_eq!(percent_decode(b"%ff", &mut out), Err(()));
    assert_eq!(out.as_str(), "");
    let long = [b'x'; 33];
    assert_eq!(percent_decode(&long, &mut out), Err(()));
    assert_eq!(percent_decode(&long[..32], &mut out), Ok(()));
    assert_eq!(out.len(), 32);
}

#[test]
fn reads_the_wifi_form() {
    let mut ssid = heapless::String::<32>::new();
    let mut password = heapless::String::<64>::new();
    assert_eq!(parse_wifi_form(b"ssid=My+Net&password=p%40ss&x=1", &mut ssid, &mut password), Ok(()));
    assert_eq!(ssid.as_str(), "My Net");
    assert_eq!(password.as_str(), "p@ss");

    let mut ssid = heapless::String::<32>::new();
    let mut password = heapless::String::<64>::new();
    assert_eq!(parse_wifi_form(b"password=x", &mut ssid, &mut password), Err(()));
    assert_eq!(password.as_str(), "x");

    let mut ssid = heapless::String::<32>::new();
    let mut password = heapless::String::<64>::new();
    assert_eq!(parse_wifi_form(b"ssid=a&password=%g1", &mut ssid, &mut password), Err(()));
    assert_eq!(password.as_str(), "");

    let mut ssid = heapless::String::<32>::new();
    let mut password = heapless::String::<64>::new();
    assert_eq!(parse_wifi_form(b"ssid&ssid=b", &mut ssid, &mut password), Ok(()));
    assert_eq!(ssid.as_str(), "b");
}

#[test]
fn routes() {
    assert_eq!(route(b"GET", b"/"), Route::ConfigPage);
    assert_eq!(route(b"GET", b"/wifi"), Route::ConfigPage);
    assert_eq!(route(b"POST", b"/wifi"), Route::WifiPost);
    assert_eq!(route(b"POST", b"/"), Route::NotFound);
    assert_eq!(route(b"get", b"/"), Route::NotFound);
}

#[test]
fn wifi_post_updates_the_credentials() {
    let mut state = WifiRuntimeState::new();
    assert_eq!(handle_wifi_post(&mut state, b"ssid=Home&password=secret"), MSG_SAVED);
    let current = state.current_credentials().unwrap();
    assert_eq!(current.ssid(), "Home");
    assert_eq!(current.password(), "secret");
    let pending = state.take_update().unwrap();
    assert_eq!(pending.ssid(), "Home");
    assert!(state.take_update().is_none());

    assert_eq!(handle_wifi_post(&mut state, b"password=secret"), MSG_FORM_INVALID);
    assert_eq!(state.current_credentials().unwrap().ssid(), "Home");
    assert!(state.take_update().is_none());
}

#[test]
fn escapes_markup() {
    let mut out = Vec::new();
    write_escaped(&mut out, b"<a href=\"x\">Tom & Jerry's</a>");
    assert_eq!(
        out,
        b"&lt;a href=&quot;x&quot;&gt;Tom &amp; Jerry&#39;s&lt;/a&gt;".to_vec()
    );
}

#[test]
fn displays_addresses() {
    let mut out = Vec::new();
    write_display(&mut out, [192, 168, 2, 1]);
    assert_eq!(out, b"192.168.2.1".to_vec());
    let mut out = Vec::new();
    write_display(&mut out, [0, 10, 255, 9]);
    assert_eq!(out, b"0.10.255.9".to_vec());
}

#[test]
fn text_responses() {
    assert_eq!(
        write_text_response(404, "Not Found", "not found"),
        b"HTTP/1.0 404 Not Found\r\nContent-Type: text/plain\r\nConnection: close\r\n\r\nnot found".to_vec()
    );
    assert_eq!(
        write_text_response(400, "ignored", "bad request"),
        b"HTTP/1.0 400 Bad Request\r\nContent-Type: text/plain\r\nConnection: close\r\n\r\nbad request".to_vec()
    );
    assert_eq!(
        write_text_response(500, "Oops", ""),
        b"HTTP/1.0 Oops\r\nContent-Type: text/plain\r\nConnection: close\r\n\r\n".to_vec()
    );
}

#[test]
fn setup_page() {
    let mut state = WifiRuntimeState::new();
    let page = String::from_utf8(config_page([192, 168, 2, 1], StaStatus::NotConnected, None, &state)).unwrap();
    assert!(page.starts_with("HTTP/1.0 200 OK\r\nContent-Type: text/html; charset=utf-8\r\n"));
    assert!(page.contains("<p class=\"meta\">AP address: 192.168.2.1:8080<br>STA is not connected</p><form"));
    assert!(page.contains("required value=\"\"><label for=\"password\">"));
    assert!(!page.contains("class=\"status\""));
    assert!(page.ends_with("</form></main></body></html>"));

    state.request_station_credentials("a<b", "pw").unwrap();
    let page = String::from_utf8(config_page(
        [192, 168, 2, 1],
        StaStatus::Address([10, 0, 0, 7]),
        Some("Saved & done"),
        &state,
    ))
    .unwrap();
    assert!(page.contains("AP address: 192.168.2.1:8080<br>STA address: 10.0.0.7:8080</p>"));
    assert!(page.contains("<div class=\"status\">Saved &amp; done</div>"));
    assert!(page.contains("required value=\"a&lt;b\">"));

    let page = String::from_utf8(config_page([192, 168, 2, 1], StaStatus::Connecting, None, &state)).unwrap();
    assert!(page.contains("<br>STA is connecting</p>"));
}

#[test]
fn answers_connections() {
    let ap = [192, 168, 2, 1];
    let mut state = WifiRuntimeState::new();
    let bad = b"HTTP/1.0 400 Bad Request\r\nContent-Type: text/plain\r\nConnection: close\r\n\r\nbad request";
    assert_eq!(handle_request(&mut state, None, ap, StaStatus::NotConnected), bad.to_vec());
    let unparsable = b"\r\n\r\n";
    assert_eq!(
        handle_request(&mut state, Some(&unparsable[..]), ap, StaStatus::NotConnected),
        bad.to_vec()
    );
    let missing = b"GET /nope HTTP/1.1\r\n\r\n";
    let not_found = b"HTTP/1.0 404 Not Found\r\nContent-Type: text/plain\r\nConnection: close\r\n\r\nnot found";
    assert_eq!(
        handle_request(&mut state, Some(&missing[..]), ap, StaStatus::NotConnected),
        not_found.to_vec()
    );
    let get = b"GET /wifi HTTP/1.1\r\n\r\n";
    assert_eq!(
        handle_request(&mut state, Some(&get[..]), ap, StaStatus::Connecting),
        config_page(ap, StaStatus::Connecting, None, &state)
    );
    let post = b"POST /wifi HTTP/1.1\r\nContent-Length: 22\r\n\r\nssid=home&password=pw";
    let reply = handle_request(&mut state, Some(&post[..]), ap, StaStatus::Connecting);
    let current = state.current_credentials().unwrap();
    assert_eq!(current.ssid(), "home");
    assert_eq!(reply, config_page(ap, StaStatus::Connecting, Some(MSG_SAVED), &state));
    assert!(String::from_utf8(reply).unwrap().contains("required value=\"home\""));
}

#[test]
fn percent_decoding_accepts_mixed_encodings() {
    let mut out = heapless::String::<32>::new();
    assert_eq!(percent_decode(b"caf%c3%A9%2b%25x", &mut out), Ok(()));
    assert_eq!(out.as_str(), "caf\u{e9}+%x");
}
