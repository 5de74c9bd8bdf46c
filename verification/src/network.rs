//! Wi-Fi and SNTP status snapshots rendered by the UI.
//!
//! A snapshot never holds the Wi-Fi password. Its log fingerprint leaves out
//! the signal strength so that RSSI churn alone never produces a new log line.
use vstd::prelude::*;

use crate::text::{push_char, push_decimal, push_i32, push_str, signed_decimal, decimal};

verus! {

/// SD-card path of the station credentials file.
pub const WIFI_CONFIG_PATH: &'static str = "/sdcard/RUSTMIX/WIFI.TXT";

/// Timezone used when the credentials do not name one.
pub const DEFAULT_TIMEZONE: &'static str = "America/New_York";

/// SNTP server used when the credentials do not name one.
pub const DEFAULT_NTP_SERVER: &'static str = "pool.ntp.org";

/// Station credentials and time settings.
#[derive(Debug, PartialEq, Eq)]
pub struct NetworkConfig {
    pub ssid: String,
    pub password: String,
    pub timezone: String,
    pub ntp_server: String,
}

/// A UTC calendar date and wall-clock time.
#[derive(Clone, Copy, Debug, PartialEq, Eq, Structural)]
pub struct RtcDateTime {
    pub year: u16,
    pub month: u8,
    pub day: u8,
    pub hour: u8,
    pub minute: u8,
    pub second: u8,
}

/// `n` in decimal, left-padded with zeros to at least `width` digits.
pub open spec fn zero_padded(n: nat, width: nat) -> Seq<char>
    decreases width,
{
    if decimal(n).len() >= width {
        decimal(n)
    } else {
        seq!['0'] + zero_padded(n, (width - 1) as nat)
    }
}

/// `YYYY-MM-DD HH:MM:SS`.
pub open spec fn date_time_text(value: RtcDateTime) -> Seq<char> {
    zero_padded(value.year as nat, 4) + seq!['-'] + zero_padded(value.month as nat, 2) + seq!['-']
        + zero_padded(value.day as nat, 2) + seq![' '] + zero_padded(value.hour as nat, 2) + seq![
        ':',
    ] + zero_padded(value.minute as nat, 2) + seq![':'] + zero_padded(value.second as nat, 2)
}

proof fn lemma_decimal_short(n: nat)
    ensures
        1 <= decimal(n).len(),
        n < 10 ==> decimal(n).len() <= 1,
        n < 100 ==> decimal(n).len() <= 2,
        n < 1000 ==> decimal(n).len() <= 3,
        n < 10000 ==> decimal(n).len() <= 4,
        n < 100000 ==> decimal(n).len() <= 5,
    decreases n,
{
    if n >= 10 {
        lemma_decimal_short(n / 10);
    }
}

fn decimal_digits(n: u64) -> (digits: u64)
    requires
        n < 100000,
    ensures
        digits == decimal(n as nat).len(),
    decreases n,
{
    proof {
        lemma_decimal_short(n as nat);
    }
    if n < 10 {
        1
    } else {
        proof {
            lemma_decimal_short((n / 10) as nat);
        }
        1 + decimal_digits(n / 10)
    }
}

fn push_padded(text: &mut String, n: u64, width: u64, digits: u64)
    requires
        width <= 4,
        decimal(n as nat).len() == digits,
    ensures
        final(text)@ == old(text)@ + zero_padded(n as nat, width as nat),
    decreases width,
{
    if digits < width {
        push_char(text, '0');
        push_padded(text, n, width - 1, digits);
        assert(final(text)@ =~= old(text)@ + zero_padded(n as nat, width as nat));
    } else {
        push_decimal(text, n);
    }
}

fn push_padded_number(text: &mut String, n: u64, width: u64)
    requires
        width <= 4,
        n < 100000,
    ensures
        final(text)@ == old(text)@ + zero_padded(n as nat, width as nat),
{
    let digits = decimal_digits(n);
    push_padded(text, n, width, digits);
}

impl RtcDateTime {
    pub fn date_time(&self) -> (text: String)
        ensures
            text@ == date_time_text(*self),
    {
        let mut text = String::new();
        push_padded_number(&mut text, self.year as u64, 4);
        push_char(&mut text, '-');
        push_padded_number(&mut text, self.month as u64, 2);
        push_char(&mut text, '-');
        push_padded_number(&mut text, self.day as u64, 2);
        push_char(&mut text, ' ');
        push_padded_number(&mut text, self.hour as u64, 2);
        push_char(&mut text, ':');
        push_padded_number(&mut text, self.minute as u64, 2);
        push_char(&mut text, ':');
        push_padded_number(&mut text, self.second as u64, 2);
        assert(text@ =~= date_time_text(*self));
        text
    }
}

/// Product-facing Wi-Fi state.
#[derive(Clone, Copy, Debug, PartialEq, Eq, Structural)]
pub enum WifiConnectionState {
    Disabled,
    ConfigurationMissing,
    Provisioning,
    Connecting,
    Connected,
    Failed,
}

impl Default for WifiConnectionState {
    fn default() -> (state: Self)
        ensures
            state == WifiConnectionState::ConfigurationMissing,
    {
        WifiConnectionState::ConfigurationMissing
    }
}

pub open spec fn wifi_label(state: WifiConnectionState) -> Seq<char> {
    match state {
        WifiConnectionState::Disabled => "DISABLED"@,
        WifiConnectionState::ConfigurationMissing => "NO CONFIG"@,
        WifiConnectionState::Provisioning => "SETUP"@,
        WifiConnectionState::Connecting => "CONNECTING"@,
        WifiConnectionState::Connected => "CONNECTED"@,
        WifiConnectionState::Failed => "FAILED"@,
    }
}

impl WifiConnectionState {
    pub fn label(self) -> (label: &'static str)
        ensures
            label@ == wifi_label(self),
    {
        match self {
            WifiConnectionState::Disabled => "DISABLED",
            WifiConnectionState::ConfigurationMissing => "NO CONFIG",
            WifiConnectionState::Provisioning => "SETUP",
            WifiConnectionState::Connecting => "CONNECTING",
            WifiConnectionState::Connected => "CONNECTED",
            WifiConnectionState::Failed => "FAILED",
        }
    }
}

/// Product-facing SNTP synchronization state.
#[derive(Clone, Copy, Debug, PartialEq, Eq, Structural)]
pub enum NtpSyncState {
    Disabled,
    WaitingForWifi,
    Synchronizing,
    Synchronized,
    Failed,
}

impl Default for NtpSyncState {
    fn default() -> (state: Self)
        ensures
            state == NtpSyncState::WaitingForWifi,
    {
        NtpSyncState::WaitingForWifi
    }
}

pub open spec fn ntp_label(state: NtpSyncState) -> Seq<char> {
    match state {
        NtpSyncState::Disabled => "DISABLED"@,
        NtpSyncState::WaitingForWifi => "WAIT WIFI"@,
        NtpSyncState::Synchronizing => "SYNCING"@,
        NtpSyncState::Synchronized => "SYNCED"@,
        NtpSyncState::Failed => "FAILED"@,
    }
}

impl NtpSyncState {
    pub fn label(self) -> (label: &'static str)
        ensures
            label@ == ntp_label(self),
    {
        match self {
            NtpSyncState::Disabled => "DISABLED",
            NtpSyncState::WaitingForWifi => "WAIT WIFI",
            NtpSyncState::Synchronizing => "SYNCING",
            NtpSyncState::Synchronized => "SYNCED",
            NtpSyncState::Failed => "FAILED",
        }
    }
}

/// Serial-log fingerprint of a snapshot; it leaves out the RSSI.
#[derive(Clone, Debug, PartialEq, Eq)]
pub struct NetworkLogFingerprint {
    pub wifi_state: WifiConnectionState,
    pub ntp_state: NtpSyncState,
    pub ssid: Option<String>,
    pub ipv4_address: Option<String>,
    pub last_sync_utc: Option<RtcDateTime>,
    pub error: Option<String>,
}

/// Rendering snapshot that never contains the Wi-Fi password.
#[derive(Clone, Debug, PartialEq, Eq)]
pub struct NetworkSnapshot {
    pub wifi_state: WifiConnectionState,
    pub ntp_state: NtpSyncState,
    pub ssid: Option<String>,
    pub ipv4_address: Option<String>,
    pub rssi_dbm: Option<i32>,
    pub timezone_name: String,
    pub ntp_server: String,
    pub last_sync_utc: Option<RtcDateTime>,
    pub error: Option<String>,
}

pub open spec fn opt_text(value: Option<String>) -> Option<Seq<char>> {
    match value {
        Some(text) => Some(text@),
        None => None,
    }
}

/// A snapshot's fields as plain values.
pub struct SnapshotView {
    pub wifi_state: WifiConnectionState,
    pub ntp_state: NtpSyncState,
    pub ssid: Option<Seq<char>>,
    pub ipv4_address: Option<Seq<char>>,
    pub rssi_dbm: Option<i32>,
    pub timezone_name: Seq<char>,
    pub ntp_server: Seq<char>,
    pub last_sync_utc: Option<RtcDateTime>,
    pub error: Option<Seq<char>>,
}

impl View for NetworkSnapshot {
    type V = SnapshotView;

    open spec fn view(&self) -> SnapshotView {
        SnapshotView {
            wifi_state: self.wifi_state,
            ntp_state: self.ntp_state,
            ssid: opt_text(self.ssid),
            ipv4_address: opt_text(self.ipv4_address),
            rssi_dbm: self.rssi_dbm,
            timezone_name: self.timezone_name@,
            ntp_server: self.ntp_server@,
            last_sync_utc: self.last_sync_utc,
            error: opt_text(self.error),
        }
    }
}

/// A fingerprint's fields as plain values.
pub struct FingerprintView {
    pub wifi_state: WifiConnectionState,
    pub ntp_state: NtpSyncState,
    pub ssid: Option<Seq<char>>,
    pub ipv4_address: Option<Seq<char>>,
    pub last_sync_utc: Option<RtcDateTime>,
    pub error: Option<Seq<char>>,
}

impl View for NetworkLogFingerprint {
    type V = FingerprintView;

    open spec fn view(&self) -> FingerprintView {
        FingerprintView {
            wifi_state: self.wifi_state,
            ntp_state: self.ntp_state,
            ssid: opt_text(self.ssid),
            ipv4_address: opt_text(self.ipv4_address),
            last_sync_utc: self.last_sync_utc,
            error: opt_text(self.error),
        }
    }
}

/// The fingerprint of a snapshot: every field except the RSSI and the time settings.
pub open spec fn fingerprint_of(snapshot: SnapshotView) -> FingerprintView {
    FingerprintView {
        wifi_state: snapshot.wifi_state,
        ntp_state: snapshot.ntp_state,
        ssid: snapshot.ssid,
        ipv4_address: snapshot.ipv4_address,
        last_sync_utc: snapshot.last_sync_utc,
        error: snapshot.error,
    }
}

/// The snapshot before any credentials are known.
pub open spec fn default_snapshot() -> SnapshotView {
    SnapshotView {
        wifi_state: WifiConnectionState::ConfigurationMissing,
        ntp_state: NtpSyncState::WaitingForWifi,
        ssid: None,
        ipv4_address: None,
        rssi_dbm: None,
        timezone_name: DEFAULT_TIMEZONE@,
        ntp_server: DEFAULT_NTP_SERVER@,
        last_sync_utc: None,
        error: None,
    }
}

pub open spec fn badge(wifi: WifiConnectionState, ntp: NtpSyncState) -> Seq<char> {
    match wifi {
        WifiConnectionState::Connected => if ntp == NtpSyncState::Synchronized {
            "NTP OK"@
        } else {
            "WIFI OK"@
        },
        WifiConnectionState::Provisioning => "SETUP"@,
        WifiConnectionState::ConfigurationMissing => "NO CFG"@,
        WifiConnectionState::Connecting => "WAIT"@,
        WifiConnectionState::Disabled => "OFF"@,
        WifiConnectionState::Failed => "FAILED"@,
    }
}

fn clone_text(value: &Option<String>) -> (copy: Option<String>)
    ensures
        copy == *value,
{
    match value {
        Some(text) => Some(text.clone()),
        None => None,
    }
}

impl Default for NetworkSnapshot {
    fn default() -> (snapshot: Self)
        ensures
            snapshot@ == default_snapshot(),
    {
        NetworkSnapshot {
            wifi_state: WifiConnectionState::ConfigurationMissing,
            ntp_state: NtpSyncState::WaitingForWifi,
            ssid: None,
            ipv4_address: None,
            rssi_dbm: None,
            timezone_name: String::from_str(DEFAULT_TIMEZONE),
            ntp_server: String::from_str(DEFAULT_NTP_SERVER),
            last_sync_utc: None,
            error: None,
        }
    }
}

impl NetworkSnapshot {
    /// A copy with equal fields.
    pub fn duplicate(&self) -> (copy: Self)
        ensures
            copy == *self,
    {
        NetworkSnapshot {
            wifi_state: self.wifi_state,
            ntp_state: self.ntp_state,
            ssid: clone_text(&self.ssid),
            ipv4_address: clone_text(&self.ipv4_address),
            rssi_dbm: self.rssi_dbm,
            timezone_name: self.timezone_name.clone(),
            ntp_server: self.ntp_server.clone(),
            last_sync_utc: self.last_sync_utc,
            error: clone_text(&self.error),
        }
    }

    /// SoftAP provisioning before station credentials exist or after the station fails.
    pub fn provisioning() -> (snapshot: Self)
        ensures
            snapshot@ == (SnapshotView {
                wifi_state: WifiConnectionState::Provisioning,
                ntp_state: NtpSyncState::WaitingForWifi,
                ssid: Some(crate::wifi_setup::WIFI_SETUP_AP_SSID@),
                ipv4_address: Some(crate::wifi_setup::WIFI_SETUP_AP_IP@),
                ..default_snapshot()
            }),
    {
        NetworkSnapshot {
            wifi_state: WifiConnectionState::Provisioning,
            ntp_state: NtpSyncState::WaitingForWifi,
            ssid: Some(String::from_str(crate::wifi_setup::WIFI_SETUP_AP_SSID)),
            ipv4_address: Some(String::from_str(crate::wifi_setup::WIFI_SETUP_AP_IP)),
            ..NetworkSnapshot::default()
        }
    }

    /// Credentials are known but Wi-Fi has not been started yet.
    pub fn provisioned(config: &NetworkConfig) -> (snapshot: Self)
        ensures
            snapshot@ == (SnapshotView {
                wifi_state: WifiConnectionState::Connecting,
                ntp_state: NtpSyncState::WaitingForWifi,
                ssid: Some(config.ssid@),
                timezone_name: config.timezone@,
                ntp_server: config.ntp_server@,
                ..default_snapshot()
            }),
    {
        NetworkSnapshot {
            wifi_state: WifiConnectionState::Connecting,
            ntp_state: NtpSyncState::WaitingForWifi,
            ssid: Some(config.ssid.clone()),
            timezone_name: config.timezone.clone(),
            ntp_server: config.ntp_server.clone(),
            ..NetworkSnapshot::default()
        }
    }

    pub fn home_badge(&self) -> (label: &'static str)
        ensures
            label@ == badge(self.wifi_state, self.ntp_state),
    {
        match self.wifi_state {
            WifiConnectionState::Connected => match self.ntp_state {
                NtpSyncState::Synchronized => "NTP OK",
                _ => "WIFI OK",
            },
            WifiConnectionState::Provisioning => "SETUP",
            WifiConnectionState::ConfigurationMissing => "NO CFG",
            WifiConnectionState::Connecting => "WAIT",
            WifiConnectionState::Disabled => "OFF",
            WifiConnectionState::Failed => "FAILED",
        }
    }

    pub fn ssid_label(&self) -> (label: &str)
        ensures
            label@ == (match self@.ssid {
                Some(ssid) => ssid,
                None => "--"@,
            }),
    {
        match &self.ssid {
            Some(ssid) => ssid.as_str(),
            None => "--",
        }
    }

    pub fn ipv4_label(&self) -> (label: &str)
        ensures
            label@ == (match self@.ipv4_address {
                Some(address) => address,
                None => "--"@,
            }),
    {
        match &self.ipv4_address {
            Some(address) => address.as_str(),
            None => "--",
        }
    }

    pub fn rssi_label(&self) -> (label: String)
        ensures
            label@ == (match self.rssi_dbm {
                Some(value) => signed_decimal(value as int) + " dBm"@,
                None => "--"@,
            }),
    {
        match self.rssi_dbm {
            Some(value) => {
                let mut label = String::new();
                push_i32(&mut label, value);
                push_str(&mut label, " dBm");
                assert(label@ =~= signed_decimal(value as int) + " dBm"@);
                label
            },
            None => String::from_str("--"),
        }
    }

    pub fn last_sync_label(&self) -> (label: String)
        ensures
            label@ == (match self.last_sync_utc {
                Some(value) => date_time_text(value) + " UTC"@,
                None => "not synchronized"@,
            }),
    {
        match self.last_sync_utc {
            Some(value) => {
                let mut label = value.date_time();
                push_str(&mut label, " UTC");
                label
            },
            None => String::from_str("not synchronized"),
        }
    }

    pub fn config_path() -> (path: &'static str)
        ensures
            path@ == WIFI_CONFIG_PATH@,
    {
        WIFI_CONFIG_PATH
    }

    /// A concise fingerprint for serial-marker rate limiting.
    pub fn log_fingerprint(&self) -> (fingerprint: NetworkLogFingerprint)
        ensures
            fingerprint@ == fingerprint_of(self@),
    {
        NetworkLogFingerprint {
            wifi_state: self.wifi_state,
            ntp_state: self.ntp_state,
            ssid: clone_text(&self.ssid),
            ipv4_address: clone_text(&self.ipv4_address),
            last_sync_utc: self.last_sync_utc,
            error: clone_text(&self.error),
        }
    }
}

/// Two snapshots that differ only in signal strength share one log
/// fingerprint, so RSSI churn alone never produces a new log line.
pub proof fn lemma_fingerprint_ignores_rssi(a: SnapshotView, b: SnapshotView)
    requires
        a.wifi_state == b.wifi_state,
        a.ntp_state == b.ntp_state,
        a.ssid == b.ssid,
        a.ipv4_address == b.ipv4_address,
        a.last_sync_utc == b.last_sync_utc,
        a.error == b.error,
    ensures
        fingerprint_of(a) == fingerprint_of(b),
{
}

/// A change of state, SSID, address, sync time or error always changes the fingerprint.
pub proof fn lemma_fingerprint_tracks_reported_fields(a: SnapshotView, b: SnapshotView)
    requires
        fingerprint_of(a) == fingerprint_of(b),
    ensures
        a.wifi_state == b.wifi_state,
        a.ntp_state == b.ntp_state,
        a.ssid == b.ssid,
        a.ipv4_address == b.ipv4_address,
        a.last_sync_utc == b.last_sync_utc,
        a.error == b.error,
{
}

} // verus!
