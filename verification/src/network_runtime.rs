//! How the network runtime's status follows what the radio and the time
//! service report. The radio driver performs each operation; these
//! transitions decide what the e-paper shows afterwards.
use vstd::prelude::*;

use crate::network::{
    default_snapshot, NetworkConfig, NetworkSnapshot, NtpSyncState, RtcDateTime, SnapshotView,
    WifiConnectionState,
};
use crate::wifi_setup::{WIFI_SETUP_AP_IP, WIFI_SETUP_AP_SSID};

verus! {

/// Status kept beside the radio driver.
pub struct RuntimeState {
    pub snapshot: NetworkSnapshot,
    /// The first time synchronisation has been reported.
    pub ntp_reported: bool,
    /// Network services were stopped for sleep.
    pub suspended: bool,
}

impl RuntimeState {
    /// No credentials are known.
    pub fn configuration_missing() -> (state: Self)
        ensures
            state.snapshot@ == default_snapshot(),
            !state.ntp_reported,
            !state.suspended,
    {
        RuntimeState { snapshot: NetworkSnapshot::default(), ntp_reported: false, suspended: false }
    }

    /// Starting the radio for `config` failed with `error`.
    pub fn failed(config: &NetworkConfig, error: String) -> (state: Self)
        ensures
            state.snapshot@ == (SnapshotView {
                wifi_state: WifiConnectionState::Failed,
                ntp_state: NtpSyncState::Failed,
                ssid: Some(config.ssid@),
                timezone_name: config.timezone@,
                ntp_server: config.ntp_server@,
                error: Some(error@),
                ..default_snapshot()
            }),
            !state.ntp_reported,
            !state.suspended,
    {
        RuntimeState {
            snapshot: NetworkSnapshot {
                wifi_state: WifiConnectionState::Failed,
                ntp_state: NtpSyncState::Failed,
                ssid: Some(config.ssid.clone()),
                timezone_name: config.timezone.clone(),
                ntp_server: config.ntp_server.clone(),
                error: Some(error),
                ..NetworkSnapshot::default()
            },
            ntp_reported: false,
            suspended: false,
        }
    }

    /// The station joined `config`'s network and got `ipv4_address`; time
    /// synchronisation has started.
    pub fn station_connected(&mut self, config: &NetworkConfig, ipv4_address: String, rssi_dbm: Option<i32>)
        ensures
            final(self).snapshot@ == (SnapshotView {
                wifi_state: WifiConnectionState::Connected,
                ntp_state: NtpSyncState::Synchronizing,
                ssid: Some(config.ssid@),
                ipv4_address: Some(ipv4_address@),
                rssi_dbm,
                timezone_name: config.timezone@,
                ntp_server: config.ntp_server@,
                last_sync_utc: None,
                error: None,
            }),
            !final(self).ntp_reported,
            !final(self).suspended,
    {
        self.snapshot = NetworkSnapshot {
            wifi_state: WifiConnectionState::Connected,
            ntp_state: NtpSyncState::Synchronizing,
            ssid: Some(config.ssid.clone()),
            ipv4_address: Some(ipv4_address),
            rssi_dbm,
            timezone_name: config.timezone.clone(),
            ntp_server: config.ntp_server.clone(),
            last_sync_utc: None,
            error: None,
        };
        self.ntp_reported = false;
        self.suspended = false;
    }

    /// The setup network is up at `ipv4_address`; the time settings are kept.
    pub fn softap_started(&mut self, ipv4_address: String)
        ensures
            final(self).snapshot@ == (SnapshotView {
                wifi_state: WifiConnectionState::Provisioning,
                ntp_state: NtpSyncState::WaitingForWifi,
                ssid: Some(WIFI_SETUP_AP_SSID@),
                ipv4_address: Some(ipv4_address@),
                rssi_dbm: None,
                timezone_name: old(self).snapshot.timezone_name@,
                ntp_server: old(self).snapshot.ntp_server@,
                last_sync_utc: None,
                error: None,
            }),
            !final(self).ntp_reported,
            !final(self).suspended,
    {
        let timezone_name = self.snapshot.timezone_name.clone();
        let ntp_server = self.snapshot.ntp_server.clone();
        self.snapshot = NetworkSnapshot {
            wifi_state: WifiConnectionState::Provisioning,
            ntp_state: NtpSyncState::WaitingForWifi,
            ssid: Some(String::from_str(WIFI_SETUP_AP_SSID)),
            ipv4_address: Some(ipv4_address),
            rssi_dbm: None,
            timezone_name,
            ntp_server,
            last_sync_utc: None,
            error: None,
        };
        self.ntp_reported = false;
        self.suspended = false;
    }

    /// A copy of the current snapshot.
    pub fn snapshot(&self) -> (snapshot: NetworkSnapshot)
        ensures
            snapshot == self.snapshot,
    {
        self.snapshot.duplicate()
    }

    pub fn is_suspended(&self) -> (suspended: bool)
        ensures
            suspended == self.suspended,
    {
        self.suspended
    }

    /// Network services were stopped for sleep.
    pub fn suspend(&mut self)
        ensures
            final(self).snapshot@ == (SnapshotView {
                wifi_state: WifiConnectionState::Disabled,
                ntp_state: NtpSyncState::Disabled,
                ipv4_address: None,
                rssi_dbm: None,
                error: None,
                ..old(self).snapshot@
            }),
            !final(self).ntp_reported,
            final(self).suspended,
    {
        self.snapshot.wifi_state = WifiConnectionState::Disabled;
        self.snapshot.ntp_state = NtpSyncState::Disabled;
        self.snapshot.ipv4_address = None;
        self.snapshot.rssi_dbm = None;
        self.snapshot.error = None;
        self.ntp_reported = false;
        self.suspended = true;
    }

    /// Reconnecting after a wake failed with `error`; the failure stays
    /// visible and the runtime counts as awake.
    pub fn record_resume_failure(&mut self, error: String)
        ensures
            final(self).snapshot@ == (SnapshotView {
                wifi_state: WifiConnectionState::Failed,
                ntp_state: NtpSyncState::Failed,
                ipv4_address: None,
                rssi_dbm: None,
                error: Some(error@),
                ..old(self).snapshot@
            }),
            final(self).ntp_reported == old(self).ntp_reported,
            !final(self).suspended,
    {
        self.snapshot.wifi_state = WifiConnectionState::Failed;
        self.snapshot.ntp_state = NtpSyncState::Failed;
        self.snapshot.ipv4_address = None;
        self.snapshot.rssi_dbm = None;
        self.snapshot.error = Some(error);
        self.suspended = false;
    }

    /// The credentials disappeared.
    pub fn record_configuration_missing(&mut self)
        ensures
            final(self).snapshot@ == default_snapshot(),
            !final(self).ntp_reported,
            !final(self).suspended,
    {
        self.snapshot = NetworkSnapshot::default();
        self.ntp_reported = false;
        self.suspended = false;
    }

    /// One poll of the runtime. While awake, a present radio refreshes the
    /// signal strength with `rssi_dbm`; the first valid time from a running
    /// time service (`clock_utc`) is recorded and reported once.
    pub fn tick(
        &mut self,
        has_radio: bool,
        rssi_dbm: Option<i32>,
        has_time_service: bool,
        clock_utc: Option<RtcDateTime>,
    ) -> (synced: Option<RtcDateTime>)
        ensures
            old(self).suspended ==> *final(self) == *old(self) && synced is None,
            !old(self).suspended ==> {
                let refreshed = if has_radio {
                    SnapshotView { rssi_dbm, ..old(self).snapshot@ }
                } else {
                    old(self).snapshot@
                };
                &&& !final(self).suspended
                &&& if !old(self).ntp_reported && has_time_service && clock_utc is Some {
                    &&& synced == clock_utc
                    &&& final(self).ntp_reported
                    &&& final(self).snapshot@ == (SnapshotView {
                        ntp_state: NtpSyncState::Synchronized,
                        last_sync_utc: clock_utc,
                        ..refreshed
                    })
                } else {
                    &&& synced is None
                    &&& final(self).ntp_reported == old(self).ntp_reported
                    &&& final(self).snapshot@ == refreshed
                }
            },
    {
        if self.suspended {
            return None;
        }
        if has_radio {
            self.snapshot.rssi_dbm = rssi_dbm;
        }
        if self.ntp_reported || !has_time_service {
            return None;
        }
        match clock_utc {
            None => None,
            Some(utc) => {
                self.snapshot.ntp_state = NtpSyncState::Synchronized;
                self.snapshot.last_sync_utc = Some(utc);
                self.ntp_reported = true;
                Some(utc)
            },
        }
    }
}

/// How the station authenticates to its network.
#[derive(Clone, Copy, Debug, PartialEq, Eq, Structural)]
pub enum StationAuth {
    /// No password: an open network.
    Open,
    /// A password: WPA2 personal.
    Wpa2Personal,
}

/// An empty password means an open network.
pub fn station_auth(password: &str) -> (auth: StationAuth)
    ensures
        (auth == StationAuth::Open) == (password@.len() == 0),
        (auth == StationAuth::Wpa2Personal) == (password@.len() != 0),
{
    if crate::text::text_chars(password).len() == 0 {
        StationAuth::Open
    } else {
        StationAuth::Wpa2Personal
    }
}

/// Reads of the setup network's address before the default is used.
pub const SOFTAP_ADDRESS_TRIES: u32 = 25;

/// Wait after each failed read of the setup network's address.
pub const SOFTAP_ADDRESS_RETRY_MS: u32 = 100;

/// What follows a read of the setup network's address.
#[derive(Debug)]
pub enum SoftApAddressStep {
    /// The interface reported this address.
    Found(String),
    /// Wait, then read again.
    Retry { delay_ms: u32 },
    /// Wait, then use the default address.
    GiveUp { delay_ms: u32, address: String },
}

/// The step after read number `attempt` (counting from zero) returned
/// `address`: a reported address is used; otherwise the radio waits and reads
/// again, giving up on the default address after the last try.
pub fn softap_address_step(attempt: u32, address: Option<String>) -> (step: SoftApAddressStep)
    requires
        attempt < SOFTAP_ADDRESS_TRIES,
    ensures
        match address {
            Some(a) => step matches SoftApAddressStep::Found(f) && f@ == a@,
            None => if attempt + 1 < SOFTAP_ADDRESS_TRIES {
                step matches SoftApAddressStep::Retry { delay_ms } && delay_ms
                    == SOFTAP_ADDRESS_RETRY_MS
            } else {
                step matches SoftApAddressStep::GiveUp { delay_ms, address: fallback } && delay_ms
                    == SOFTAP_ADDRESS_RETRY_MS && fallback@ == WIFI_SETUP_AP_IP@
            },
        },
{
    match address {
        Some(a) => SoftApAddressStep::Found(a),
        None => if attempt + 1 < SOFTAP_ADDRESS_TRIES {
            SoftApAddressStep::Retry { delay_ms: SOFTAP_ADDRESS_RETRY_MS }
        } else {
            SoftApAddressStep::GiveUp {
                delay_ms: SOFTAP_ADDRESS_RETRY_MS,
                address: String::from_str(WIFI_SETUP_AP_IP),
            }
        },
    }
}

} // verus!
