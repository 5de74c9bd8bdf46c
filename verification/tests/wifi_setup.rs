use rustmix_wave::network::{NetworkConfig, DEFAULT_NTP_SERVER, DEFAULT_TIMEZONE};
use rustmix_wave::setup_portal::SetupPortalStatus;
use rustmix_wave::wifi_nvs::{config_from_nvs, nvs_entries, nvs_text};
use rustmix_wave::wifi_setup::{
    collapse_scan_results, parse_setup_form, scanned_networks_json, setup_html, setup_url,
    ScannedNetwork, SetupFormError, WifiSetupSnapshot, WifiSetupState, SAVED_HTML,
    WIFI_SETUP_AP_SSID, WIFI_SETUP_MAX_SCAN,
};

#[test]
fn setup_portal_is_off_until_started() {
    let snapshot = WifiSetupSnapshot::default();
    assert_eq!(snapshot.state, WifiSetupState::Off);
    assert!(!snapshot.is_active());
    assert_eq!(setup_url(), "http://192.168.4.1/");
    assert_eq!(WIFI_SETUP_AP_SSID, "Rustmix-Setup");
}

#[test]
fn html_mentions_ap_name_and_captive_url() {
    let html = setup_html();
    assert!(html.contains("Rustmix-Setup"));
    assert!(html.contains("192.168.4.1"));
    assert!(html.contains("/scan"));
    assert!(html.contains("refresh=1"));
    assert!(html.contains("/save"));
    assert!(html.contains("name=\"ssid\""));
    assert!(html.contains("name=\"password\""));
}

#[test]
fn form_parser_accepts_urlencoded_credentials() {
    let config =
        parse_setup_form("ssid=Lab%20WiFi&password=correct-horse&timezone=UTC").unwrap();
    assert_eq!(config.ssid, "Lab WiFi");
    assert_eq!(config.password, "correct-horse");
    assert_eq!(config.timezone, "UTC");
}

#[test]
fn form_parser_rejects_short_password_and_missing_ssid() {
    assert!(parse_setup_form("password=correct-horse").is_err());
    assert!(parse_setup_form("ssid=Lab&password=short").is_err());
}

#[test]
fn form_parser_reports_each_refusal() {
    assert_eq!(
        parse_setup_form("password=correct-horse"),
        Err(SetupFormError::MissingSsid)
    );
    assert_eq!(
        parse_setup_form("ssid=Lab&password=short"),
        Err(SetupFormError::PasswordLength)
    );
    assert_eq!(parse_setup_form("ssid=Lab%2").unwrap().ssid, "Lab%2");
    assert_eq!(
        parse_setup_form("ssid=Lab%zz"),
        Err(SetupFormError::InvalidPercentEscape)
    );
    assert_eq!(parse_setup_form("ssid=%FF"), Err(SetupFormError::NotUtf8));
    assert_eq!(
        parse_setup_form("ssid=Lab%0A"),
        Err(SetupFormError::ControlCharacter)
    );
    assert_eq!(parse_setup_form("ssid="), Err(SetupFormError::EmptySsid));
    assert_eq!(SetupFormError::MissingSsid.message(), "ssid is required");
}

#[test]
fn form_parser_decodes_plus_and_defaults_time_settings() {
    let config = parse_setup_form("&ssid=My+Home&&other=1&password=").unwrap();
    assert_eq!(config.ssid, "My Home");
    assert_eq!(config.password, "");
    assert_eq!(config.timezone, DEFAULT_TIMEZONE);
    assert_eq!(config.ntp_server, DEFAULT_NTP_SERVER);
    let later = parse_setup_form("ssid=a&ssid=b&ntp_server=time%2Eexample").unwrap();
    assert_eq!(later.ssid, "b");
    assert_eq!(later.ntp_server, "time.example");
}

#[test]
fn scan_json_escapes_ssid_and_omits_secrets() {
    let json = scanned_networks_json(&[ScannedNetwork {
        ssid: r#"Cafe "Main""#.into(),
        rssi_dbm: -40,
        open: false,
    }]);
    assert!(json.contains(r#"Cafe \"Main\""#));
    assert!(!json.to_ascii_lowercase().contains("pass"));
}

#[test]
fn scan_json_has_exact_shape() {
    let json = scanned_networks_json(&[
        ScannedNetwork {
            ssid: "A\\B\n".into(),
            rssi_dbm: -40,
            open: true,
        },
        ScannedNetwork {
            ssid: "C".into(),
            rssi_dbm: 7,
            open: false,
        },
    ]);
    assert_eq!(
        json,
        r#"[{"ssid":"A\\B\n","rssi":-40,"open":true},{"ssid":"C","rssi":7,"open":false}]"#
    );
    assert_eq!(scanned_networks_json(&[]), "[]");
}

#[test]
fn scan_collapse_drops_setup_ssid_and_duplicates() {
    let collapsed = collapse_scan_results(vec![
        ScannedNetwork {
            ssid: "Home".into(),
            rssi_dbm: -70,
            open: false,
        },
        ScannedNetwork {
            ssid: "Home".into(),
            rssi_dbm: -40,
            open: false,
        },
        ScannedNetwork {
            ssid: WIFI_SETUP_AP_SSID.into(),
            rssi_dbm: -10,
            open: true,
        },
    ]);
    assert_eq!(collapsed.len(), 1);
    assert_eq!(collapsed[0].rssi_dbm, -40);
}

#[test]
fn scan_collapse_orders_by_strength_then_name_and_caps_rows() {
    let rows: Vec<ScannedNetwork> = (0..30)
        .map(|index| ScannedNetwork {
            ssid: format!("net{index:02}"),
            rssi_dbm: -(index % 3),
            open: false,
        })
        .chain(std::iter::once(ScannedNetwork {
            ssid: String::new(),
            rssi_dbm: 0,
            open: true,
        }))
        .collect();
    let collapsed = collapse_scan_results(rows);
    assert_eq!(collapsed.len(), WIFI_SETUP_MAX_SCAN);
    assert_eq!(collapsed[0].ssid, "net00");
    assert_eq!(collapsed[1].ssid, "net03");
    assert!(collapsed.iter().all(|row| !row.ssid.is_empty()));
    for pair in collapsed.windows(2) {
        assert!(pair[0].rssi_dbm >= pair[1].rssi_dbm);
    }
}

#[test]
fn snapshot_constructors() {
    let starting = WifiSetupSnapshot::starting();
    assert_eq!(starting.state, WifiSetupState::Starting);
    assert!(starting.is_active());
    assert_eq!(starting.last_action, "Starting setup network");
    let ready = WifiSetupSnapshot::ready(3);
    assert_eq!(ready.network_count, 3);
    assert_eq!(ready.url_label(), "http://192.168.4.1/");
    let failed = WifiSetupSnapshot::failed("radio busy".into());
    assert!(!failed.is_active());
    assert_eq!(failed.error.as_deref(), Some("radio busy"));
    assert_eq!(WifiSetupState::Saving.label(), "SAVING");
    assert!(SAVED_HTML.contains("Saved"));
}

fn network(ssid: &str) -> ScannedNetwork {
    ScannedNetwork {
        ssid: ssid.into(),
        rssi_dbm: -50,
        open: false,
    }
}

#[test]
fn portal_status_flows_from_scan_to_save() {
    let mut status = SetupPortalStatus::ready();
    assert!(status.take_scan_requested());
    assert!(!status.take_scan_requested());
    status.set_networks(vec![network("Home"), network("Lab")]);
    let snapshot = status.snapshot();
    assert_eq!(snapshot.network_count, 2);
    assert_eq!(snapshot.last_action, "2 networks scanned");
    assert_eq!(status.scan_request("/scan"), scanned_networks_json(&status.networks));
    assert!(!status.take_scan_requested());
    let _ = status.scan_request("/scan?refresh=1");
    assert!(status.take_scan_requested());
    assert_eq!(status.snapshot().last_action, "Scan requested");
    assert_eq!(
        status.save_form(b"ssid=Lab&password=short"),
        Err(SetupFormError::PasswordLength)
    );
    assert!(status.take_pending().is_none());
    assert_eq!(status.save_form(&[0xFF]), Err(SetupFormError::NotUtf8));
    assert_eq!(status.save_form(b"ssid=Lab&password=correct-horse"), Ok(()));
    let snapshot = status.snapshot();
    assert_eq!(snapshot.state, WifiSetupState::Saving);
    assert_eq!(snapshot.last_action, "Saving Lab");
    assert!(!snapshot.last_action.contains("correct-horse"));
    let pending = status.take_pending().unwrap();
    assert_eq!(pending.password, "correct-horse");
    assert!(status.take_pending().is_none());
    status.record_error("join failed".into());
    assert_eq!(status.snapshot().state, WifiSetupState::Failed);
    assert_eq!(status.snapshot().error.as_deref(), Some("join failed"));
}

#[test]
fn starting_portal_becomes_ready_after_a_scan() {
    let mut status = SetupPortalStatus::ready();
    status.snapshot = WifiSetupSnapshot::starting();
    status.set_networks(vec![]);
    assert_eq!(status.snapshot().state, WifiSetupState::Ready);
    assert_eq!(status.snapshot().last_action, "0 networks scanned");
}

#[test]
fn nvs_entries_replace_values_holding_nul() {
    let config = NetworkConfig {
        ssid: "Lab\0".into(),
        password: "correct-horse".into(),
        timezone: "Bad\0Zone".into(),
        ntp_server: "\0".into(),
    };
    let entries = nvs_entries(&config);
    assert_eq!(entries.ssid, "");
    assert_eq!(entries.password, "correct-horse");
    assert_eq!(entries.timezone, "UTC");
    assert_eq!(entries.ntp_server, "pool.ntp.org");
}

#[test]
fn nvs_text_strips_the_terminator() {
    let buffer = *b"Lab\0\0\0";
    assert_eq!(nvs_text(&buffer, 4).as_deref(), Some("Lab"));
    assert_eq!(nvs_text(&buffer, 0), None);
    assert_eq!(nvs_text(&buffer, 1).as_deref(), Some(""));
    assert_eq!(nvs_text(&[0xFF, 0], 2), None);
}

#[test]
fn nvs_values_make_a_checked_configuration() {
    assert!(config_from_nvs(None, Some("correct-horse".into()), None, None).is_none());
    let config = config_from_nvs(Some("Lab".into()), None, None, None).unwrap();
    assert_eq!(config.password, "");
    assert_eq!(config.timezone, DEFAULT_TIMEZONE);
    assert_eq!(config.ntp_server, DEFAULT_NTP_SERVER);
    let config = config_from_nvs(
        Some("Lab".into()),
        Some("correct-horse".into()),
        Some("UTC".into()),
        Some("time.example".into()),
    )
    .unwrap();
    assert_eq!(config.timezone, "UTC");
    assert!(config_from_nvs(Some("Lab".into()), Some("short".into()), None, None).is_none());
    assert!(config_from_nvs(Some(String::new()), None, None, None).is_none());
}

#[test]
fn mirrored_configuration_reads_back_unchanged() {
    let config = parse_setup_form("ssid=Lab%20WiFi&password=correct-horse&timezone=UTC").unwrap();
    let entries = nvs_entries(&config);
    let read_back = config_from_nvs(
        Some(entries.ssid),
        Some(entries.password),
        Some(entries.timezone),
        Some(entries.ntp_server),
    )
    .unwrap();
    assert_eq!(read_back, config);
}

#[test]
fn scan_json_escapes_every_control_character() {
    let json = scanned_networks_json(&[ScannedNetwork {
        ssid: "A\tB\u{1}\u{1f}\r".into(),
        rssi_dbm: -1,
        open: true,
    }]);
    assert_eq!(
        json,
        r#"[{"ssid":"A\u0009B\u0001\u001f\u000d","rssi":-1,"open":true}]"#
    );
    assert!(json.chars().all(|c| c >= ' '));
}
