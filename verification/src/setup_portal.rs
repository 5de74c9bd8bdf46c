//! State shared between the setup portal's HTTP handlers and the main loop:
//! the snapshot shown on the e-paper, the last scan, a submitted
//! configuration waiting to be applied, and whether a new scan was asked for.
use vstd::prelude::*;

use crate::network::{opt_text, NetworkConfig};
use crate::text::{decimal, push_decimal, push_str, string_from_utf8, text_chars};
use crate::wifi_setup::{
    networks_json, parse_setup_form, scanned_networks_json, setup_form_result, ScannedNetwork,
    setup_url_text, SetupFormError, WifiSetupSnapshot, WifiSetupState, WIFI_SETUP_AP_SSID,
};

verus! {

/// A snapshot's fields as plain values.
pub struct SetupSnapshotView {
    pub state: WifiSetupState,
    pub ap_ssid: Seq<char>,
    pub url: Seq<char>,
    pub network_count: usize,
    pub last_action: Seq<char>,
    pub error: Option<Seq<char>>,
}

impl View for WifiSetupSnapshot {
    type V = SetupSnapshotView;

    open spec fn view(&self) -> SetupSnapshotView {
        SetupSnapshotView {
            state: self.state,
            ap_ssid: self.ap_ssid@,
            url: self.url@,
            network_count: self.network_count,
            last_action: self.last_action@,
            error: opt_text(self.error),
        }
    }
}

fn copy_text(text: &Option<String>) -> (copy: Option<String>)
    ensures
        opt_text(copy) == opt_text(*text),
{
    match text {
        Some(t) => Some(t.clone()),
        None => None,
    }
}

impl WifiSetupSnapshot {
    /// A copy with equal fields.
    pub fn duplicate(&self) -> (copy: WifiSetupSnapshot)
        ensures
            copy@ == self@,
    {
        WifiSetupSnapshot {
            state: self.state,
            ap_ssid: self.ap_ssid.clone(),
            url: self.url.clone(),
            network_count: self.network_count,
            last_action: self.last_action.clone(),
            error: copy_text(&self.error),
        }
    }
}

/// Whether `needle` occurs in `text`.
pub open spec fn text_contains(text: Seq<char>, needle: Seq<char>) -> bool {
    exists|i: int|
        0 <= i && i + needle.len() <= text.len() && #[trigger] text.subrange(i, i + needle.len())
            == needle
}

fn contains_text(text: &str, needle: &str) -> (found: bool)
    ensures
        found == text_contains(text@, needle@),
{
    let hay = text_chars(text);
    let pattern = text_chars(needle);
    if pattern.len() == 0 {
        assert(text@.subrange(0, 0 + needle@.len() as int) =~= needle@);
        return true;
    }
    if pattern.len() > hay.len() {
        return false;
    }
    let last = hay.len() - pattern.len();
    let mut start: usize = 0;
    while start <= last
        invariant
            hay@ == text@,
            pattern@ == needle@,
            last + pattern.len() == hay.len(),
            pattern.len() >= 1,
            start <= last + 1,
            forall|i: int|
                0 <= i < start ==> #[trigger] hay@.subrange(i, i + pattern@.len()) != pattern@,
        decreases last + 1 - start,
    {
        let mut k: usize = 0;
        let mut same = true;
        while k < pattern.len()
            invariant
                start <= last,
                last + pattern.len() == hay.len(),
                k <= pattern@.len(),
                same == (forall|j: int| 0 <= j < k ==> hay@[start + j] == pattern@[j]),
            decreases pattern.len() - k,
        {
            if hay[start + k] != pattern[k] {
                same = false;
            }
            k = k + 1;
        }
        if same {
            assert(hay@.subrange(start as int, start + pattern@.len()) =~= pattern@);
            return true;
        }
        assert(hay@.subrange(start as int, start + pattern@.len()) != pattern@) by {
            let j = choose|j: int| 0 <= j < pattern@.len() && hay@[start + j] != pattern@[j];
            assert(hay@.subrange(start as int, start + pattern@.len())[j] != pattern@[j]);
        }
        start = start + 1;
    }
    assert forall|i: int|
        0 <= i && i + needle@.len() <= text@.len() implies #[trigger] text@.subrange(
        i,
        i + needle@.len(),
    ) != needle@ by {
        assert(i < start);
    }
    false
}

/// Query text by which the phone asks for a fresh scan.
pub const SCAN_REFRESH_QUERY: &'static str = "refresh=1";

/// The portal's shared state.
pub struct SetupPortalStatus {
    pub snapshot: WifiSetupSnapshot,
    pub networks: Vec<ScannedNetwork>,
    pub pending: Option<NetworkConfig>,
    pub scan_requested: bool,
}

/// The snapshot of a ready portal that has seen `network_count` networks.
pub open spec fn ready_snapshot_view(network_count: usize) -> SetupSnapshotView {
    SetupSnapshotView {
        state: WifiSetupState::Ready,
        ap_ssid: WIFI_SETUP_AP_SSID@,
        url: setup_url_text(),
        network_count,
        last_action: "Join Rustmix-Setup, then open 192.168.4.1"@,
        error: None,
    }
}

/// The configuration fields as plain values.
pub open spec fn config_view(config: NetworkConfig) -> (Seq<char>, Seq<char>, Seq<char>, Seq<char>) {
    (config.ssid@, config.password@, config.timezone@, config.ntp_server@)
}

impl SetupPortalStatus {
    /// State right after the portal starts: ready with no networks yet and a
    /// scan wanted.
    pub fn ready() -> (status: Self)
        ensures
            status.snapshot@ == ready_snapshot_view(0),
            status.networks@.len() == 0,
            status.pending is None,
            status.scan_requested,
    {
        let snapshot = WifiSetupSnapshot::ready(0);
        let status = SetupPortalStatus {
            snapshot,
            networks: Vec::new(),
            pending: None,
            scan_requested: true,
        };
        status
    }

    /// The snapshot shown on the e-paper.
    pub fn snapshot(&self) -> (snapshot: WifiSetupSnapshot)
        ensures
            snapshot@ == self.snapshot@,
    {
        self.snapshot.duplicate()
    }

    /// Store a new scan; a starting portal becomes ready.
    pub fn set_networks(&mut self, networks: Vec<ScannedNetwork>)
        ensures
            final(self).networks@ == networks@,
            final(self).snapshot@ == (SetupSnapshotView {
                network_count: networks@.len() as usize,
                state: if old(self).snapshot.state == WifiSetupState::Starting {
                    WifiSetupState::Ready
                } else {
                    old(self).snapshot.state
                },
                last_action: decimal(networks@.len()) + " networks scanned"@,
                ..old(self).snapshot@
            }),
            final(self).pending == old(self).pending,
            final(self).scan_requested == old(self).scan_requested,
    {
        let count = networks.len();
        self.networks = networks;
        self.snapshot.network_count = count;
        if self.snapshot.state == WifiSetupState::Starting {
            self.snapshot.state = WifiSetupState::Ready;
        }
        let mut action = String::new();
        push_decimal(&mut action, count as u64);
        push_str(&mut action, " networks scanned");
        self.snapshot.last_action = action;
    }

    /// Whether a scan was asked for since the last call; clears the request.
    pub fn take_scan_requested(&mut self) -> (requested: bool)
        ensures
            requested == old(self).scan_requested,
            !final(self).scan_requested,
            final(self).snapshot == old(self).snapshot,
            final(self).networks == old(self).networks,
            final(self).pending == old(self).pending,
    {
        let requested = self.scan_requested;
        self.scan_requested = false;
        requested
    }

    /// The submitted configuration, if any; it is handed out once.
    pub fn take_pending(&mut self) -> (pending: Option<NetworkConfig>)
        ensures
            pending == old(self).pending,
            final(self).pending is None,
            final(self).snapshot == old(self).snapshot,
            final(self).networks == old(self).networks,
            final(self).scan_requested == old(self).scan_requested,
    {
        self.pending.take()
    }

    /// Show a failure on the e-paper.
    pub fn record_error(&mut self, error: String)
        ensures
            final(self).snapshot@ == (SetupSnapshotView {
                state: WifiSetupState::Failed,
                error: Some(error@),
                last_action: "Setup error"@,
                ..old(self).snapshot@
            }),
            final(self).networks == old(self).networks,
            final(self).pending == old(self).pending,
            final(self).scan_requested == old(self).scan_requested,
    {
        self.snapshot.state = WifiSetupState::Failed;
        self.snapshot.error = Some(error);
        self.snapshot.last_action = String::from_str("Setup error");
    }

    /// Answer a scan request: a request URI holding `refresh=1` asks for a new
    /// scan; the reply is the JSON list of the last scan.
    pub fn scan_request(&mut self, uri: &str) -> (body: String)
        ensures
            body@ == networks_json(old(self).networks@),
            final(self).networks == old(self).networks,
            final(self).pending == old(self).pending,
            text_contains(uri@, SCAN_REFRESH_QUERY@) ==> final(self).scan_requested
                && final(self).snapshot@ == (SetupSnapshotView {
                last_action: "Scan requested"@,
                ..old(self).snapshot@
            }),
            !text_contains(uri@, SCAN_REFRESH_QUERY@) ==> final(self).scan_requested == old(
                self,
            ).scan_requested && final(self).snapshot == old(self).snapshot,
    {
        if contains_text(uri, SCAN_REFRESH_QUERY) {
            self.scan_requested = true;
            self.snapshot.last_action = String::from_str("Scan requested");
        }
        scanned_networks_json(self.networks.as_slice())
    }

    /// Accept the body of a save request: a valid form becomes the pending
    /// configuration and the snapshot shows it being saved; a refused form
    /// changes nothing.
    pub fn save_form(&mut self, body: &[u8]) -> (saved: Result<(), SetupFormError>)
        ensures
            !vstd::utf8::valid_utf8(body@) ==> saved == Err::<(), SetupFormError>(
                SetupFormError::NotUtf8,
            ),
            vstd::utf8::valid_utf8(body@) ==> match setup_form_result(
                vstd::utf8::decode_utf8(body@),
            ) {
                Ok(fields) => {
                    &&& saved is Ok
                    &&& final(self).pending matches Some(config) && config_view(config) == fields
                    &&& final(self).snapshot@ == (SetupSnapshotView {
                        state: WifiSetupState::Saving,
                        last_action: "Saving "@ + fields.0,
                        error: None,
                        ..old(self).snapshot@
                    })
                },
                Err(error) => saved == Err::<(), SetupFormError>(error),
            },
            saved is Err ==> final(self).snapshot == old(self).snapshot && final(self).pending
                == old(self).pending,
            final(self).networks == old(self).networks,
            final(self).scan_requested == old(self).scan_requested,
    {
        let mut bytes: Vec<u8> = Vec::new();
        let mut i: usize = 0;
        while i < body.len()
            invariant
                i <= body@.len(),
                bytes@ == body@.take(i as int),
            decreases body.len() - i,
        {
            bytes.push(body[i]);
            i = i + 1;
            assert(bytes@ =~= body@.take(i as int));
        }
        assert(bytes@ =~= body@);
        let text = match string_from_utf8(bytes) {
            Some(text) => text,
            None => return Err(SetupFormError::NotUtf8),
        };
        let config = match parse_setup_form(text.as_str()) {
            Ok(config) => config,
            Err(error) => return Err(error),
        };
        let mut action = String::new();
        push_str(&mut action, "Saving ");
        push_str(&mut action, config.ssid.as_str());
        self.snapshot.state = WifiSetupState::Saving;
        self.snapshot.last_action = action;
        self.snapshot.error = None;
        self.pending = Some(config);
        Ok(())
    }
}

} // verus!
