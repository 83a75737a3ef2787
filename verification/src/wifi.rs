//! Station Wi-Fi credentials, the shared runtime state that holds them, and
//! the decisions of the task that keeps the station connected.
use vstd::prelude::*;
use vstd::string::StringSliceAdditionalSpecFns;

use crate::bounded::{
    string32_as_str, string32_clone, string32_new, string32_push_str, string64_as_str,
    string64_clone, string64_new, string64_push_str, BoundedText,
};

verus! {

pub const MAX_WIFI_SSID_LEN: usize = 32;

pub const MAX_WIFI_PASSWORD_LEN: usize = 64;

/// SSID and password of the network the station joins.
pub struct WifiCredentials {
    ssid: heapless::String<32>,
    password: heapless::String<64>,
}

/// Why credentials were refused.
#[derive(Clone, Copy, Debug)]
pub enum WifiConfigError {
    EmptySsid,
    SsidTooLong,
    PasswordTooLong,
}

impl View for WifiCredentials {
    /// UTF-8 bytes of the SSID and of the password.
    type V = (Seq<u8>, Seq<u8>);

    closed spec fn view(&self) -> (Seq<u8>, Seq<u8>) {
        (self.ssid.contents(), self.password.contents())
    }
}

/// The outcome of validating an SSID and a password given as UTF-8 bytes.
pub open spec fn validate_credentials(ssid: Seq<u8>, password: Seq<u8>) -> Result<
    (Seq<u8>, Seq<u8>),
    WifiConfigError,
> {
    if ssid.len() == 0 {
        Err(WifiConfigError::EmptySsid)
    } else if ssid.len() > MAX_WIFI_SSID_LEN {
        Err(WifiConfigError::SsidTooLong)
    } else if password.len() > MAX_WIFI_PASSWORD_LEN {
        Err(WifiConfigError::PasswordTooLong)
    } else {
        Ok((ssid, password))
    }
}

pub open spec fn credentials_result_view(r: Result<WifiCredentials, WifiConfigError>) -> Result<
    (Seq<u8>, Seq<u8>),
    WifiConfigError,
> {
    match r {
        Ok(c) => Ok(c@),
        Err(e) => Err(e),
    }
}

pub open spec fn opt_credentials_view(c: Option<WifiCredentials>) -> Option<(Seq<u8>, Seq<u8>)> {
    match c {
        Some(c) => Some(c@),
        None => None,
    }
}

impl WifiCredentials {
    /// Credentials with the given SSID and password: the SSID must not be
    /// empty and must fit in 32 bytes, the password in 64 bytes (checked in
    /// that order).
    pub fn new(ssid: &str, password: &str) -> (r: Result<Self, WifiConfigError>)
        ensures
            credentials_result_view(r) == validate_credentials(ssid.spec_bytes(), password.spec_bytes()),
    {
        if ssid.as_bytes().len() == 0 {
            return Err(WifiConfigError::EmptySsid);
        }
        let mut owned_ssid = string32_new();
        if string32_push_str(&mut owned_ssid, ssid).is_err() {
            return Err(WifiConfigError::SsidTooLong);
        }
        let mut owned_password = string64_new();
        if string64_push_str(&mut owned_password, password).is_err() {
            return Err(WifiConfigError::PasswordTooLong);
        }
        let r = Self { ssid: owned_ssid, password: owned_password };
        assert(r@ == (ssid.spec_bytes(), password.spec_bytes()));
        Ok(r)
    }

    pub fn ssid(&self) -> (r: &str)
        ensures
            r.spec_bytes() == self@.0,
    {
        string32_as_str(&self.ssid)
    }

    pub fn password(&self) -> (r: &str)
        ensures
            r.spec_bytes() == self@.1,
    {
        string64_as_str(&self.password)
    }
}

impl Clone for WifiCredentials {
    fn clone(&self) -> (r: Self)
        ensures
            r@ == self@,
    {
        WifiCredentials { ssid: string32_clone(&self.ssid), password: string64_clone(&self.password) }
    }
}

/// Shared state of the Wi-Fi setup: the credentials the station uses, and
/// credentials submitted at run time that the connection task has not
/// picked up yet (a newer submission replaces an older one).
pub struct WifiRuntimeState {
    credentials: Option<WifiCredentials>,
    update: Option<WifiCredentials>,
}

impl WifiRuntimeState {
    pub closed spec fn current(&self) -> Option<(Seq<u8>, Seq<u8>)> {
        opt_credentials_view(self.credentials)
    }

    pub closed spec fn pending(&self) -> Option<(Seq<u8>, Seq<u8>)> {
        opt_credentials_view(self.update)
    }

    /// No credentials and nothing pending.
    pub fn new() -> (r: Self)
        ensures
            r.current() is None,
            r.pending() is None,
    {
        WifiRuntimeState { credentials: None, update: None }
    }

    /// A copy of the credentials in use.
    pub fn current_credentials(&self) -> (r: Option<WifiCredentials>)
        ensures
            opt_credentials_view(r) == self.current(),
    {
        match &self.credentials {
            Some(c) => Some(c.clone()),
            None => None,
        }
    }

    /// Replaces the credentials in use.
    pub fn set_current_credentials(&mut self, credentials: Option<WifiCredentials>)
        ensures
            final(self).current() == opt_credentials_view(credentials),
            final(self).pending() == old(self).pending(),
    {
        self.credentials = credentials;
    }

    /// Validates credentials submitted at run time; when they are valid they
    /// become the credentials in use and are handed to the connection task.
    pub fn request_station_credentials(&mut self, ssid: &str, password: &str) -> (r: Result<
        (),
        WifiConfigError,
    >)
        ensures
            match validate_credentials(ssid.spec_bytes(), password.spec_bytes()) {
                Ok(c) => r is Ok && final(self).current() == Some(c) && final(self).pending()
                    == Some(c),
                Err(e) => r == Err::<(), WifiConfigError>(e) && final(self).current() == old(
                    self,
                ).current() && final(self).pending() == old(self).pending(),
            },
    {
        let credentials = match WifiCredentials::new(ssid, password) {
            Ok(c) => c,
            Err(e) => return Err(e),
        };
        self.set_current_credentials(Some(credentials.clone()));
        self.update = Some(credentials);
        Ok(())
    }

    /// Takes the credentials submitted since the last call, if any.
    pub fn take_update(&mut self) -> (r: Option<WifiCredentials>)
        ensures
            opt_credentials_view(r) == old(self).pending(),
            final(self).pending() is None,
            final(self).current() == old(self).current(),
    {
        self.update.take()
    }
}

pub const PLACEHOLDER_WIFI_SSID: &'static str = "CHANGE_ME_WIFI_SSID";

pub const PLACEHOLDER_WIFI_PASSWORD: &'static str = "CHANGE_ME_WIFI_PASSWORD";

/// The credentials configured when the firmware was built: none when the
/// SSID is empty or still the placeholder; a placeholder password stands
/// for an empty one; credentials that do not validate count as none.
pub open spec fn build_time_credentials_view(ssid: Seq<u8>, password: Seq<u8>) -> Option<
    (Seq<u8>, Seq<u8>),
> {
    if ssid.len() == 0 || ssid == PLACEHOLDER_WIFI_SSID.spec_bytes() {
        None
    } else {
        let password = if password == PLACEHOLDER_WIFI_PASSWORD.spec_bytes() {
            Seq::empty()
        } else {
            password
        };
        match validate_credentials(ssid, password) {
            Ok(c) => Some(c),
            Err(_) => None,
        }
    }
}

/// The station credentials from the build-time configuration.
pub fn build_time_credentials(wifi_ssid: &str, wifi_password: &str) -> (r: Option<WifiCredentials>)
    ensures
        opt_credentials_view(r) == build_time_credentials_view(
            wifi_ssid.spec_bytes(),
            wifi_password.spec_bytes(),
        ),
{
    if wifi_ssid.as_bytes().len() == 0 || crate::http::slices_equal(
        wifi_ssid.as_bytes(),
        PLACEHOLDER_WIFI_SSID.as_bytes(),
    ) {
        return None;
    }
    let password = if crate::http::slices_equal(
        wifi_password.as_bytes(),
        PLACEHOLDER_WIFI_PASSWORD.as_bytes(),
    ) {
        let empty = "";
        proof {
            reveal_strlit("");
            assert(empty.spec_bytes() =~= Seq::<u8>::empty());
        }
        empty
    } else {
        wifi_password
    };
    match WifiCredentials::new(wifi_ssid, password) {
        Ok(c) => Some(c),
        Err(_) => None,
    }
}

/// Where the connection task stands.
#[derive(Clone, Copy, PartialEq, Eq, Structural, Debug)]
pub enum ConnectionPhase {
    /// No credentials: waiting for some to be submitted.
    AwaitingCredentials,
    /// Applying the access point and station configuration.
    Configuring,
    /// Joining the network.
    Connecting,
    /// Connected; watching for disconnection, access point events and the
    /// periodic signal-strength report.
    Monitoring,
    /// Waiting before the next attempt, unless credentials arrive first.
    Retrying,
}

/// What the connection task has just learned.
pub enum ConnectionEvent {
    CredentialsUpdated(WifiCredentials),
    ConfigApplied,
    ConfigFailed,
    Connected,
    ConnectFailed,
    StationDisconnected,
    AccessPointEvent,
    RssiTick,
    RetryElapsed,
}

/// What the connection task does next.
pub enum ConnectionAction {
    /// Wait until credentials are submitted.
    WaitForCredentials,
    /// Apply the configuration with these station credentials, dropping the
    /// current association first when `disconnect_first` is set.
    Apply { credentials: WifiCredentials, disconnect_first: bool },
    /// Join the network.
    Connect,
    /// Keep watching the connection.
    Monitor,
    /// Report the signal strength, then keep watching.
    ReportRssi,
    /// Wait before retrying, or until credentials arrive.
    WaitRetry,
}

pub open spec fn action_kind(a: ConnectionAction) -> (int, Option<(Seq<u8>, Seq<u8>)>, bool) {
    match a {
        ConnectionAction::WaitForCredentials => (0, None, false),
        ConnectionAction::Apply { credentials, disconnect_first } => (
            1,
            Some(credentials@),
            disconnect_first,
        ),
        ConnectionAction::Connect => (2, None, false),
        ConnectionAction::Monitor => (3, None, false),
        ConnectionAction::ReportRssi => (4, None, false),
        ConnectionAction::WaitRetry => (5, None, false),
    }
}

/// The decisions of the station connection task.
pub struct ConnectionManager {
    credentials: Option<WifiCredentials>,
    phase: ConnectionPhase,
}

impl ConnectionManager {
    pub closed spec fn credentials(&self) -> Option<(Seq<u8>, Seq<u8>)> {
        opt_credentials_view(self.credentials)
    }

    pub closed spec fn phase(&self) -> ConnectionPhase {
        self.phase
    }

    /// Outside the wait for credentials, the task always has some.
    pub open spec fn wf(&self) -> bool {
        self.phase() != ConnectionPhase::AwaitingCredentials ==> self.credentials() is Some
    }

    /// The task's first action: apply the credentials in use, or wait for
    /// some when there are none.
    pub fn start(current: Option<WifiCredentials>) -> (r: (Self, ConnectionAction))
        ensures
            r.0.wf(),
            r.0.credentials() == opt_credentials_view(current),
            current is None ==> r.0.phase() == ConnectionPhase::AwaitingCredentials && action_kind(
                r.1,
            ) == (0int, None::<(Seq<u8>, Seq<u8>)>, false),
            current is Some ==> r.0.phase() == ConnectionPhase::Configuring && action_kind(r.1) == (
                1int,
                opt_credentials_view(current),
                false,
            ),
    {
        match current {
            None => (
                ConnectionManager { credentials: None, phase: ConnectionPhase::AwaitingCredentials },
                ConnectionAction::WaitForCredentials,
            ),
            Some(c) => {
                let action = ConnectionAction::Apply { credentials: c.clone(), disconnect_first: false };
                (ConnectionManager { credentials: Some(c), phase: ConnectionPhase::Configuring }, action)
            },
        }
    }

    /// Starts a configuration with the credentials held.
    fn apply_current(&mut self, disconnect_first: bool) -> (r: ConnectionAction)
        requires
            old(self).credentials() is Some,
        ensures
            final(self).credentials() == old(self).credentials(),
            final(self).phase() == ConnectionPhase::Configuring,
            action_kind(r) == (1int, old(self).credentials(), disconnect_first),
    {
        self.phase = ConnectionPhase::Configuring;
        match &self.credentials {
            Some(c) => ConnectionAction::Apply { credentials: c.clone(), disconnect_first },
            None => ConnectionAction::WaitForCredentials,
        }
    }

    /// Takes in what the task learned and says what it does next. New
    /// credentials received while waiting for some, while connecting or
    /// while connected become the credentials in use in `runtime`; those
    /// received while waiting to retry are only taken up by the task.
    pub fn step(&mut self, runtime: &mut WifiRuntimeState, event: ConnectionEvent) -> (r: ConnectionAction)
        requires
            old(self).wf(),
        ensures
            final(self).wf(),
            final(runtime).pending() == old(runtime).pending(),
            ({
                let phase = old(self).phase();
                match event {
                    ConnectionEvent::CredentialsUpdated(c) => {
                        &&& final(self).credentials() == Some(c@)
                        &&& final(self).phase() == ConnectionPhase::Configuring
                        &&& action_kind(r) == (1int, Some(c@), phase == ConnectionPhase::Connecting
                            || phase == ConnectionPhase::Monitoring)
                        &&& final(runtime).current() == if phase == ConnectionPhase::Retrying
                            || phase == ConnectionPhase::Configuring {
                            old(runtime).current()
                        } else {
                            Some(c@)
                        }
                    },
                    ConnectionEvent::ConfigApplied => {
                        &&& final(self).credentials() == old(self).credentials()
                        &&& final(runtime).current() == old(runtime).current()
                        &&& phase == ConnectionPhase::Configuring ==> final(self).phase()
                            == ConnectionPhase::Connecting && action_kind(r).0 == 2
                    },
                    ConnectionEvent::ConfigFailed => {
                        &&& final(self).credentials() == old(self).credentials()
                        &&& final(runtime).current() == old(runtime).current()
                        &&& phase == ConnectionPhase::Configuring ==> final(self).phase()
                            == ConnectionPhase::Retrying && action_kind(r).0 == 5
                    },
                    ConnectionEvent::Connected => {
                        &&& final(self).credentials() == old(self).credentials()
                        &&& final(runtime).current() == old(runtime).current()
                        &&& phase == ConnectionPhase::Connecting ==> final(self).phase()
                            == ConnectionPhase::Monitoring && action_kind(r).0 == 3
                    },
                    ConnectionEvent::ConnectFailed => {
                        &&& final(self).credentials() == old(self).credentials()
                        &&& final(runtime).current() == old(runtime).current()
                        &&& phase == ConnectionPhase::Connecting ==> final(self).phase()
                            == ConnectionPhase::Retrying && action_kind(r).0 == 5
                    },
                    ConnectionEvent::StationDisconnected => {
                        &&& final(self).credentials() == old(self).credentials()
                        &&& final(runtime).current() == old(runtime).current()
                        &&& phase == ConnectionPhase::Monitoring ==> final(self).phase()
                            == ConnectionPhase::Configuring && action_kind(r) == (
                            1int,
                            old(self).credentials(),
                            false,
                        )
                    },
                    ConnectionEvent::AccessPointEvent => {
                        &&& final(self).credentials() == old(self).credentials()
                        &&& final(runtime).current() == old(runtime).current()
                        &&& phase == ConnectionPhase::Monitoring ==> final(self).phase()
                            == ConnectionPhase::Monitoring && action_kind(r).0 == 3
                    },
                    ConnectionEvent::RssiTick => {
                        &&& final(self).credentials() == old(self).credentials()
                        &&& final(runtime).current() == old(runtime).current()
                        &&& phase == ConnectionPhase::Monitoring ==> final(self).phase()
                            == ConnectionPhase::Monitoring && action_kind(r).0 == 4
                    },
                    ConnectionEvent::RetryElapsed => {
                        &&& final(self).credentials() == old(self).credentials()
                        &&& final(runtime).current() == old(runtime).current()
                        &&& phase == ConnectionPhase::Retrying ==> final(self).phase()
                            == ConnectionPhase::Configuring && action_kind(r) == (
                            1int,
                            old(self).credentials(),
                            false,
                        )
                    },
                }
            }),
            ({
                let phase = old(self).phase();
                let expected = match event {
                    ConnectionEvent::CredentialsUpdated(_) => true,
                    ConnectionEvent::ConfigApplied => phase == ConnectionPhase::Configuring,
                    ConnectionEvent::ConfigFailed => phase == ConnectionPhase::Configuring,
                    ConnectionEvent::Connected => phase == ConnectionPhase::Connecting,
                    ConnectionEvent::ConnectFailed => phase == ConnectionPhase::Connecting,
                    ConnectionEvent::StationDisconnected => phase == ConnectionPhase::Monitoring,
                    ConnectionEvent::AccessPointEvent => phase == ConnectionPhase::Monitoring,
                    ConnectionEvent::RssiTick => phase == ConnectionPhase::Monitoring,
                    ConnectionEvent::RetryElapsed => phase == ConnectionPhase::Retrying,
                };
                !expected ==> final(self).phase() == phase && action_kind(r) == match phase {
                    ConnectionPhase::AwaitingCredentials => (0int, None::<(Seq<u8>, Seq<u8>)>, false),
                    ConnectionPhase::Configuring => (1int, old(self).credentials(), false),
                    ConnectionPhase::Connecting => (2int, None::<(Seq<u8>, Seq<u8>)>, false),
                    ConnectionPhase::Monitoring => (3int, None::<(Seq<u8>, Seq<u8>)>, false),
                    ConnectionPhase::Retrying => (5int, None::<(Seq<u8>, Seq<u8>)>, false),
                }
            }),
    {
        let phase = self.phase;
        let expected = match &event {
            ConnectionEvent::CredentialsUpdated(_) => true,
            ConnectionEvent::ConfigApplied => phase == ConnectionPhase::Configuring,
            ConnectionEvent::ConfigFailed => phase == ConnectionPhase::Configuring,
            ConnectionEvent::Connected => phase == ConnectionPhase::Connecting,
            ConnectionEvent::ConnectFailed => phase == ConnectionPhase::Connecting,
            ConnectionEvent::StationDisconnected => phase == ConnectionPhase::Monitoring,
            ConnectionEvent::AccessPointEvent => phase == ConnectionPhase::Monitoring,
            ConnectionEvent::RssiTick => phase == ConnectionPhase::Monitoring,
            ConnectionEvent::RetryElapsed => phase == ConnectionPhase::Retrying,
        };
        if !expected {
            return self.repeat_action();
        }
        match event {
            ConnectionEvent::CredentialsUpdated(c) => {
                let reconnect = phase == ConnectionPhase::Connecting || phase
                    == ConnectionPhase::Monitoring;
                if reconnect || phase == ConnectionPhase::AwaitingCredentials {
                    runtime.set_current_credentials(Some(c.clone()));
                }
                self.credentials = Some(c);
                self.apply_current(reconnect)
            },
            ConnectionEvent::ConfigApplied => {
                self.phase = ConnectionPhase::Connecting;
                ConnectionAction::Connect
            },
            ConnectionEvent::ConfigFailed => {
                self.phase = ConnectionPhase::Retrying;
                ConnectionAction::WaitRetry
            },
            ConnectionEvent::Connected => {
                self.phase = ConnectionPhase::Monitoring;
                ConnectionAction::Monitor
            },
            ConnectionEvent::ConnectFailed => {
                self.phase = ConnectionPhase::Retrying;
                ConnectionAction::WaitRetry
            },
            ConnectionEvent::StationDisconnected => self.apply_current(false),
            ConnectionEvent::AccessPointEvent => ConnectionAction::Monitor,
            ConnectionEvent::RssiTick => ConnectionAction::ReportRssi,
            ConnectionEvent::RetryElapsed => self.apply_current(false),
        }
    }

    /// The action of the current phase, for an event that does not belong
    /// to it.
    fn repeat_action(&self) -> (r: ConnectionAction)
        requires
            self.wf(),
        ensures
            action_kind(r) == match self.phase() {
                ConnectionPhase::AwaitingCredentials => (0int, None::<(Seq<u8>, Seq<u8>)>, false),
                ConnectionPhase::Configuring => (1int, self.credentials(), false),
                ConnectionPhase::Connecting => (2int, None::<(Seq<u8>, Seq<u8>)>, false),
                ConnectionPhase::Monitoring => (3int, None::<(Seq<u8>, Seq<u8>)>, false),
                ConnectionPhase::Retrying => (5int, None::<(Seq<u8>, Seq<u8>)>, false),
            },
    {
        match self.phase {
            ConnectionPhase::AwaitingCredentials => ConnectionAction::WaitForCredentials,
            ConnectionPhase::Configuring => match &self.credentials {
                Some(c) => ConnectionAction::Apply { credentials: c.clone(), disconnect_first: false },
                None => ConnectionAction::WaitForCredentials,
            },
            ConnectionPhase::Connecting => ConnectionAction::Connect,
            ConnectionPhase::Monitoring => ConnectionAction::Monitor,
            ConnectionPhase::Retrying => ConnectionAction::WaitRetry,
        }
    }
}

} // verus!
