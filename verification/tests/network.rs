use rustmix_wave::network::{
    NetworkConfig, NetworkSnapshot, NtpSyncState, RtcDateTime, WifiConnectionState,
    DEFAULT_NTP_SERVER, DEFAULT_TIMEZONE, WIFI_CONFIG_PATH,
};
use rustmix_wave::network_runtime::{
    softap_address_step, station_auth, RuntimeState, SoftApAddressStep, StationAuth,
};

#[test]
fn configuration_missing_snapshot_is_safe_for_home() {
    let snapshot = NetworkSnapshot::default();
    assert_eq!(
        snapshot.wifi_state,
        WifiConnectionState::ConfigurationMissing
    );
    assert_eq!(snapshot.ntp_state, NtpSyncState::WaitingForWifi);
    assert_eq!(snapshot.home_badge(), "NO CFG");
    assert_eq!(snapshot.ssid_label(), "--");
}

#[test]
fn connected_and_synchronized_snapshot_has_ntp_badge() {
    let snapshot = NetworkSnapshot {
        wifi_state: WifiConnectionState::Connected,
        ntp_state: NtpSyncState::Synchronized,
        ..NetworkSnapshot::default()
    };
    assert_eq!(snapshot.home_badge(), "NTP OK");
}

#[test]
fn provisioning_snapshot_shows_setup_ap() {
    let snapshot = NetworkSnapshot::provisioning();
    assert_eq!(snapshot.wifi_state, WifiConnectionState::Provisioning);
    assert_eq!(snapshot.home_badge(), "SETUP");
    assert_eq!(snapshot.ssid_label(), "Rustmix-Setup");
    assert_eq!(snapshot.ipv4_label(), "192.168.4.1");
}

#[test]
fn log_fingerprint_ignores_rssi_churn() {
    let mut snapshot = NetworkSnapshot::default();
    snapshot.rssi_dbm = Some(-34);
    let first = snapshot.log_fingerprint();
    snapshot.rssi_dbm = Some(-61);
    assert_eq!(first, snapshot.log_fingerprint());
}

#[test]
fn log_fingerprint_still_changes_for_ipv4_state() {
    let snapshot = NetworkSnapshot::default();
    let first = snapshot.log_fingerprint();
    let mut changed = snapshot;
    changed.ipv4_address = Some("192.0.2.10".into());
    assert_ne!(first, changed.log_fingerprint());
}

fn config() -> NetworkConfig {
    NetworkConfig {
        ssid: "Lab".into(),
        password: "correct-horse".into(),
        timezone: "UTC".into(),
        ntp_server: "time.example".into(),
    }
}

#[test]
fn labels_of_every_state() {
    assert_eq!(WifiConnectionState::Disabled.label(), "DISABLED");
    assert_eq!(WifiConnectionState::ConfigurationMissing.label(), "NO CONFIG");
    assert_eq!(WifiConnectionState::Connected.label(), "CONNECTED");
    assert_eq!(NtpSyncState::WaitingForWifi.label(), "WAIT WIFI");
    assert_eq!(NtpSyncState::Synchronized.label(), "SYNCED");
    assert_eq!(WifiConnectionState::default(), WifiConnectionState::ConfigurationMissing);
    assert_eq!(NtpSyncState::default(), NtpSyncState::WaitingForWifi);
}

#[test]
fn badges_for_each_connection_state() {
    let with = |wifi_state, ntp_state| NetworkSnapshot {
        wifi_state,
        ntp_state,
        ..NetworkSnapshot::default()
    };
    assert_eq!(
        with(WifiConnectionState::Connected, NtpSyncState::Synchronizing).home_badge(),
        "WIFI OK"
    );
    assert_eq!(
        with(WifiConnectionState::Connecting, NtpSyncState::WaitingForWifi).home_badge(),
        "WAIT"
    );
    assert_eq!(
        with(WifiConnectionState::Disabled, NtpSyncState::Disabled).home_badge(),
        "OFF"
    );
    assert_eq!(
        with(WifiConnectionState::Failed, NtpSyncState::Failed).home_badge(),
        "FAILED"
    );
}

#[test]
fn rssi_and_sync_labels() {
    let mut snapshot = NetworkSnapshot::default();
    assert_eq!(snapshot.rssi_label(), "--");
    assert_eq!(snapshot.last_sync_label(), "not synchronized");
    snapshot.rssi_dbm = Some(-61);
    assert_eq!(snapshot.rssi_label(), "-61 dBm");
    snapshot.last_sync_utc = Some(RtcDateTime {
        year: 2025,
        month: 3,
        day: 7,
        hour: 9,
        minute: 5,
        second: 0,
    });
    assert_eq!(snapshot.last_sync_label(), "2025-03-07 09:05:00 UTC");
    assert_eq!(NetworkSnapshot::config_path(), WIFI_CONFIG_PATH);
}

#[test]
fn provisioned_snapshot_waits_for_the_station() {
    let snapshot = NetworkSnapshot::provisioned(&config());
    assert_eq!(snapshot.wifi_state, WifiConnectionState::Connecting);
    assert_eq!(snapshot.ssid_label(), "Lab");
    assert_eq!(snapshot.timezone_name, "UTC");
    assert_eq!(snapshot.ntp_server, "time.example");
    let blank = NetworkSnapshot::default();
    assert_eq!(blank.timezone_name, DEFAULT_TIMEZONE);
    assert_eq!(blank.ntp_server, DEFAULT_NTP_SERVER);
}

#[test]
fn runtime_reports_the_first_sync_once() {
    let mut state = RuntimeState::configuration_missing();
    state.station_connected(&config(), "192.0.2.10".into(), Some(-50));
    assert_eq!(state.snapshot.home_badge(), "WIFI OK");
    let utc = RtcDateTime {
        year: 2025,
        month: 1,
        day: 2,
        hour: 3,
        minute: 4,
        second: 5,
    };
    assert_eq!(state.tick(true, Some(-55), true, None), None);
    assert_eq!(state.snapshot.rssi_dbm, Some(-55));
    assert_eq!(state.tick(true, Some(-56), true, Some(utc)), Some(utc));
    assert_eq!(state.snapshot.home_badge(), "NTP OK");
    assert_eq!(state.snapshot.last_sync_utc, Some(utc));
    assert_eq!(state.tick(true, Some(-57), true, Some(utc)), None);
    assert_eq!(state.snapshot.rssi_dbm, Some(-57));
}

#[test]
fn suspended_runtime_ignores_ticks_until_it_reconnects() {
    let mut state = RuntimeState::configuration_missing();
    state.station_connected(&config(), "192.0.2.10".into(), None);
    state.suspend();
    assert!(state.is_suspended());
    assert_eq!(state.snapshot.home_badge(), "OFF");
    assert_eq!(state.snapshot.ipv4_address, None);
    let utc = RtcDateTime {
        year: 2025,
        month: 1,
        day: 2,
        hour: 3,
        minute: 4,
        second: 5,
    };
    assert_eq!(state.tick(true, Some(-40), true, Some(utc)), None);
    assert_eq!(state.snapshot.rssi_dbm, None);
    state.record_resume_failure("join failed".into());
    assert!(!state.is_suspended());
    assert_eq!(state.snapshot.home_badge(), "FAILED");
    assert_eq!(state.snapshot.error.as_deref(), Some("join failed"));
    state.record_configuration_missing();
    assert_eq!(state.snapshot(), NetworkSnapshot::default());
}

#[test]
fn failed_start_and_setup_network_states() {
    let failed = RuntimeState::failed(&config(), "no radio".into());
    assert_eq!(failed.snapshot.home_badge(), "FAILED");
    assert_eq!(failed.snapshot.ssid_label(), "Lab");
    assert_eq!(failed.snapshot.ntp_state, NtpSyncState::Failed);
    let mut state = failed;
    state.softap_started("192.168.4.1".into());
    assert_eq!(state.snapshot.home_badge(), "SETUP");
    assert_eq!(state.snapshot.ssid_label(), "Rustmix-Setup");
    assert_eq!(state.snapshot.timezone_name, "UTC");
    assert_eq!(state.snapshot.error, None);
}

#[test]
fn empty_password_joins_an_open_network() {
    assert_eq!(station_auth(""), StationAuth::Open);
    assert_eq!(station_auth("correct-horse"), StationAuth::Wpa2Personal);
}

#[test]
fn setup_address_is_read_up_to_twenty_five_times() {
    assert!(matches!(
        softap_address_step(0, Some("10.0.0.1".into())),
        SoftApAddressStep::Found(ip) if ip == "10.0.0.1"
    ));
    assert!(matches!(
        softap_address_step(23, None),
        SoftApAddressStep::Retry { delay_ms: 100 }
    ));
    assert!(matches!(
        softap_address_step(24, None),
        SoftApAddressStep::GiveUp { delay_ms: 100, address } if address == "192.168.4.1"
    ));
}
