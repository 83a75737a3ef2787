use esp32_netcfg::wifi::{
    build_time_credentials, ConnectionAction, ConnectionEvent, ConnectionManager,
    WifiConfigError, WifiCredentials, WifiRuntimeState, PLACEHOLDER_WIFI_PASSWORD,
    PLACEHOLDER_WIFI_SSID,
};

fn creds(ssid: &str, password: &str) -> WifiCredentials {
    WifiCredentials::new(ssid, password).unwrap()
}

#[test]
fn credentials_keep_ssid_and_password() {
    let c = creds("home", "secret");
    assert_eq!(c.ssid(), "home");
    assert_eq!(c.password(), "secret");
    let open = creds("cafe", "");
    assert_eq!(open.password(), "");
    let copy = c.clone();
    assert_eq!(copy.ssid(), "home");
    assert_eq!(copy.password(), "secret");
}

#[test]
fn credentials_are_refused_in_order() {
    assert!(matches!(WifiCredentials::new("", "x"), Err(WifiConfigError::EmptySsid)));
    let long_ssid = "s".repeat(33);
    let long_password = "p".repeat(65);
    assert!(matches!(
        WifiCredentials::new(&long_ssid, &long_password),
        Err(WifiConfigError::SsidTooLong)
    ));
    assert!(matches!(
        WifiCredentials::new("ok", &long_password),
        Err(WifiConfigError::PasswordTooLong)
    ));
    assert!(matches!(WifiCredentials::new("", &long_password), Err(WifiConfigError::EmptySsid)));
}

#[test]
fn credentials_limits_are_bytes_inclusive() {
    let ssid = "s".repeat(32);
    let password = "p".repeat(64);
    let c = creds(&ssid, &password);
    assert_eq!(c.ssid().len(), 32);
    assert_eq!(c.password().len(), 64);
    // "é" takes two bytes: 17 of them are 34 bytes.
    let wide = "é".repeat(17);
    assert!(matches!(WifiCredentials::new(&wide, ""), Err(WifiConfigError::SsidTooLong)));
    let fits = "é".repeat(16);
    assert_eq!(creds(&fits, "").ssid(), fits);
}

#[test]
fn runtime_state_records_submitted_credentials() {
    let mut state = WifiRuntimeState::new();
    assert!(state.current_credentials().is_none());
    assert!(state.take_update().is_none());

    assert!(state.request_station_credentials("net", "pw").is_ok());
    let current = state.current_credentials().unwrap();
    assert_eq!(current.ssid(), "net");
    assert_eq!(current.password(), "pw");

    assert!(matches!(
        state.request_station_credentials("", "pw"),
        Err(WifiConfigError::EmptySsid)
    ));
    assert_eq!(state.current_credentials().unwrap().ssid(), "net");

    assert!(state.request_station_credentials("newer", "").is_ok());
    let update = state.take_update().unwrap();
    assert_eq!(update.ssid(), "newer");
    assert!(state.take_update().is_none());
    assert_eq!(state.current_credentials().unwrap().ssid(), "newer");
}

#[test]
fn set_current_credentials_leaves_pending_update() {
    let mut state = WifiRuntimeState::new();
    state.request_station_credentials("a", "b").unwrap();
    state.set_current_credentials(None);
    assert!(state.current_credentials().is_none());
    assert_eq!(state.take_update().unwrap().ssid(), "a");
}

#[test]
fn build_time_credentials_skip_placeholders() {
    assert!(build_time_credentials("", "x").is_none());
    assert!(build_time_credentials(PLACEHOLDER_WIFI_SSID, "x").is_none());
    let c = build_time_credentials("office", PLACEHOLDER_WIFI_PASSWORD).unwrap();
    assert_eq!(c.ssid(), "office");
    assert_eq!(c.password(), "");
    let d = build_time_credentials("office", "letmein").unwrap();
    assert_eq!(d.password(), "letmein");
    assert!(build_time_credentials(&"x".repeat(40), "").is_none());
}

fn apply_ssid(action: &ConnectionAction) -> Option<(String, bool)> {
    match action {
        ConnectionAction::Apply { credentials, disconnect_first } => {
            Some((credentials.ssid().to_string(), *disconnect_first))
        }
        _ => None,
    }
}

#[test]
fn connection_waits_without_credentials() {
    let mut runtime = WifiRuntimeState::new();
    let (mut manager, first) = ConnectionManager::start(None);
    assert!(matches!(first, ConnectionAction::WaitForCredentials));
    // Events of other phases change nothing.
    let a = manager.step(&mut runtime, ConnectionEvent::Connected);
    assert!(matches!(a, ConnectionAction::WaitForCredentials));
    let b = manager.step(&mut runtime, ConnectionEvent::CredentialsUpdated(creds("lab", "pw")));
    assert_eq!(apply_ssid(&b), Some(("lab".to_string(), false)));
    assert_eq!(runtime.current_credentials().unwrap().ssid(), "lab");
}

#[test]
fn connection_cycle_with_retry_and_reconnect() {
    let mut runtime = WifiRuntimeState::new();
    let (mut manager, first) = ConnectionManager::start(Some(creds("home", "pw")));
    assert_eq!(apply_ssid(&first), Some(("home".to_string(), false)));

    let a = manager.step(&mut runtime, ConnectionEvent::ConfigApplied);
    assert!(matches!(a, ConnectionAction::Connect));
    let b = manager.step(&mut runtime, ConnectionEvent::ConnectFailed);
    assert!(matches!(b, ConnectionAction::WaitRetry));
    let c = manager.step(&mut runtime, ConnectionEvent::RetryElapsed);
    assert_eq!(apply_ssid(&c), Some(("home".to_string(), false)));
    let d = manager.step(&mut runtime, ConnectionEvent::ConfigApplied);
    assert!(matches!(d, ConnectionAction::Connect));
    let e = manager.step(&mut runtime, ConnectionEvent::Connected);
    assert!(matches!(e, ConnectionAction::Monitor));
    let f = manager.step(&mut runtime, ConnectionEvent::RssiTick);
    assert!(matches!(f, ConnectionAction::ReportRssi));
    let g = manager.step(&mut runtime, ConnectionEvent::AccessPointEvent);
    assert!(matches!(g, ConnectionAction::Monitor));

    // New credentials while connected: reconnect with them, dropping the link.
    let h = manager.step(&mut runtime, ConnectionEvent::CredentialsUpdated(creds("work", "x")));
    assert_eq!(apply_ssid(&h), Some(("work".to_string(), true)));
    assert_eq!(runtime.current_credentials().unwrap().ssid(), "work");

    let i = manager.step(&mut runtime, ConnectionEvent::ConfigApplied);
    assert!(matches!(i, ConnectionAction::Connect));
    let j = manager.step(&mut runtime, ConnectionEvent::Connected);
    assert!(matches!(j, ConnectionAction::Monitor));
    let k = manager.step(&mut runtime, ConnectionEvent::StationDisconnected);
    assert_eq!(apply_ssid(&k), Some(("work".to_string(), false)));
}

#[test]
fn credentials_during_retry_are_taken_without_touching_runtime() {
    let mut runtime = WifiRuntimeState::new();
    let (mut manager, _) = ConnectionManager::start(Some(creds("home", "pw")));
    manager.step(&mut runtime, ConnectionEvent::ConfigFailed);
    let a = manager.step(&mut runtime, ConnectionEvent::CredentialsUpdated(creds("other", "")));
    assert_eq!(apply_ssid(&a), Some(("other".to_string(), false)));
    assert!(runtime.current_credentials().is_none());
    let b = manager.step(&mut runtime, ConnectionEvent::RetryElapsed);
    assert_eq!(apply_ssid(&b), Some(("other".to_string(), false)));
}
