//! SoftAP captive Wi-Fi provisioning at `http://192.168.4.1`.
//!
//! Station credentials load first from the SD card. The SoftAP path serves a
//! small page that lists scanned networks as JSON and accepts the chosen
//! credentials as an URL-encoded form.
use vstd::prelude::*;

use crate::text::{push_char, push_i32, push_str, signed_decimal};

verus! {

/// Open setup network shown on the e-paper while provisioning.
pub const WIFI_SETUP_AP_SSID: &'static str = "Rustmix-Setup";

/// SoftAP default IPv4 address. Phones open this URL after joining the AP.
pub const WIFI_SETUP_AP_IP: &'static str = "192.168.4.1";

/// Captive HTTP port. Mutually exclusive with the station transfer portal.
pub const WIFI_SETUP_HTTP_PORT: u16 = 80;

/// Dedicated HTTP task stack for the short-lived setup portal.
pub const WIFI_SETUP_SERVER_STACK_BYTES: usize = 20480;

/// Bound on scan rows returned to the phone UI.
pub const WIFI_SETUP_MAX_SCAN: usize = 24;

/// User request handed from Settings to the firmware main loop.
#[derive(Clone, Copy, Debug, PartialEq, Eq, Structural)]
pub enum WifiSetupUiRequest {
    Start,
    Stop,
}

/// Compact UI-facing SoftAP lifecycle. Never contains a Wi-Fi password.
#[derive(Clone, Copy, Debug, PartialEq, Eq, Structural)]
pub enum WifiSetupState {
    Off,
    Starting,
    Ready,
    Saving,
    Failed,
}

impl Default for WifiSetupState {
    fn default() -> (state: Self)
        ensures
            state == WifiSetupState::Off,
    {
        WifiSetupState::Off
    }
}

pub open spec fn setup_state_label(state: WifiSetupState) -> Seq<char> {
    match state {
        WifiSetupState::Off => "OFF"@,
        WifiSetupState::Starting => "STARTING"@,
        WifiSetupState::Ready => "READY"@,
        WifiSetupState::Saving => "SAVING"@,
        WifiSetupState::Failed => "FAILED"@,
    }
}

impl WifiSetupState {
    pub fn label(self) -> (label: &'static str)
        ensures
            label@ == setup_state_label(self),
    {
        match self {
            WifiSetupState::Off => "OFF",
            WifiSetupState::Starting => "STARTING",
            WifiSetupState::Ready => "READY",
            WifiSetupState::Saving => "SAVING",
            WifiSetupState::Failed => "FAILED",
        }
    }
}

/// One scanned network shown in the phone UI and counted on the e-paper.
#[derive(Clone, Debug, PartialEq, Eq)]
pub struct ScannedNetwork {
    pub ssid: String,
    pub rssi_dbm: i32,
    pub open: bool,
}

/// Password-free snapshot rendered on the e-paper setup screen.
#[derive(Clone, Debug, PartialEq, Eq)]
pub struct WifiSetupSnapshot {
    pub state: WifiSetupState,
    pub ap_ssid: String,
    pub url: String,
    pub network_count: usize,
    pub last_action: String,
    pub error: Option<String>,
}

/// Canonical captive-portal URL.
pub open spec fn setup_url_text() -> Seq<char> {
    "http://192.168.4.1/"@
}

/// Canonical captive-portal URL shown on the e-paper and in the page.
pub fn setup_url() -> (url: &'static str)
    ensures
        url@ == setup_url_text(),
{
    "http://192.168.4.1/"
}

impl Default for WifiSetupSnapshot {
    fn default() -> (snapshot: Self)
        ensures
            snapshot.state == WifiSetupState::Off,
            snapshot.ap_ssid@ == WIFI_SETUP_AP_SSID@,
            snapshot.url@ == setup_url_text(),
            snapshot.network_count == 0,
            snapshot.last_action@ == "SoftAP setup is off"@,
            snapshot.error is None,
    {
        WifiSetupSnapshot {
            state: WifiSetupState::Off,
            ap_ssid: String::from_str(WIFI_SETUP_AP_SSID),
            url: String::from_str(setup_url()),
            network_count: 0,
            last_action: String::from_str("SoftAP setup is off"),
            error: None,
        }
    }
}

impl WifiSetupSnapshot {
    pub fn starting() -> (snapshot: Self)
        ensures
            snapshot.state == WifiSetupState::Starting,
            snapshot.ap_ssid@ == WIFI_SETUP_AP_SSID@,
            snapshot.url@ == setup_url_text(),
            snapshot.network_count == 0,
            snapshot.last_action@ == "Starting setup network"@,
            snapshot.error is None,
    {
        WifiSetupSnapshot {
            state: WifiSetupState::Starting,
            last_action: String::from_str("Starting setup network"),
            ..WifiSetupSnapshot::default()
        }
    }

    pub fn ready(network_count: usize) -> (snapshot: Self)
        ensures
            snapshot.state == WifiSetupState::Ready,
            snapshot.ap_ssid@ == WIFI_SETUP_AP_SSID@,
            snapshot.url@ == setup_url_text(),
            snapshot.network_count == network_count,
            snapshot.last_action@ == "Join Rustmix-Setup, then open 192.168.4.1"@,
            snapshot.error is None,
    {
        WifiSetupSnapshot {
            state: WifiSetupState::Ready,
            network_count,
            last_action: String::from_str("Join Rustmix-Setup, then open 192.168.4.1"),
            ..WifiSetupSnapshot::default()
        }
    }

    pub fn failed(error: String) -> (snapshot: Self)
        ensures
            snapshot.state == WifiSetupState::Failed,
            snapshot.ap_ssid@ == WIFI_SETUP_AP_SSID@,
            snapshot.url@ == setup_url_text(),
            snapshot.network_count == 0,
            snapshot.last_action@ == "SoftAP setup failed"@,
            snapshot.error == Some(error),
    {
        WifiSetupSnapshot {
            state: WifiSetupState::Failed,
            last_action: String::from_str("SoftAP setup failed"),
            error: Some(error),
            ..WifiSetupSnapshot::default()
        }
    }

    pub fn is_active(&self) -> (active: bool)
        ensures
            active == (self.state == WifiSetupState::Starting || self.state == WifiSetupState::Ready
                || self.state == WifiSetupState::Saving),
    {
        match self.state {
            WifiSetupState::Starting | WifiSetupState::Ready | WifiSetupState::Saving => true,
            _ => false,
        }
    }

    pub fn url_label(&self) -> (label: &str)
        ensures
            label@ == self.url@,
    {
        self.url.as_str()
    }
}

/// Lower-case hexadecimal digit of `d < 16`.
pub open spec fn hex_char(d: u32) -> char {
    if d < 10 {
        (('0' as u32) + d) as char
    } else {
        (('a' as u32) + d - 10) as char
    }
}

/// JSON escape of one character: backslash, double quote and line feed get
/// their short escapes, every other character below U+0020 a `\u00XX`
/// escape, and everything else stands for itself.
pub open spec fn json_char(c: char) -> Seq<char> {
    if c == '\\' {
        seq!['\\', '\\']
    } else if c == '"' {
        seq!['\\', '"']
    } else if c == '\n' {
        seq!['\\', 'n']
    } else if (c as u32) < 0x20 {
        seq!['\\', 'u', '0', '0', hex_char((c as u32) / 16), hex_char((c as u32) % 16)]
    } else {
        seq![c]
    }
}

/// JSON string-body escaping of a text.
pub open spec fn json_escaped(text: Seq<char>) -> Seq<char>
    decreases text.len(),
{
    if text.len() == 0 {
        Seq::empty()
    } else {
        json_escaped(text.drop_last()) + json_char(text.last())
    }
}

/// An escaped text holds no control character, and every double quote in
/// it follows a backslash, so it can stand inside a JSON string.
pub proof fn lemma_json_escaped_is_string_body(text: Seq<char>)
    ensures
        forall|i: int|
            0 <= i < json_escaped(text).len() ==> (#[trigger] json_escaped(text)[i] as u32) >= 0x20,
        forall|i: int|
            0 <= i < json_escaped(text).len() && #[trigger] json_escaped(text)[i] == '"' ==> i > 0
                && json_escaped(text)[i - 1] == '\\',
    decreases text.len(),
{
    if text.len() > 0 {
        lemma_json_escaped_is_string_body(text.drop_last());
        let head = json_escaped(text.drop_last());
        let tail = json_char(text.last());
        assert(json_escaped(text) == head + tail);
        let c = text.last();
        if (c as u32) < 0x20 && c != '\n' {
            let d1 = (c as u32) / 16;
            let d2 = (c as u32) % 16;
            assert(hex_char(d1) as u32 >= 0x30);
            assert(hex_char(d2) as u32 >= 0x30);
        }
        assert forall|i: int| 0 <= i < json_escaped(text).len() implies (#[trigger] json_escaped(
            text,
        )[i] as u32) >= 0x20 by {
            if i >= head.len() {
                assert(json_escaped(text)[i] == tail[i - head.len()]);
            } else {
                assert(json_escaped(text)[i] == head[i]);
            }
        }
        assert forall|i: int|
            0 <= i < json_escaped(text).len() && #[trigger] json_escaped(text)[i] == '"' implies i > 0
                && json_escaped(text)[i - 1] == '\\' by {
            if i >= head.len() {
                assert(json_escaped(text)[i] == tail[i - head.len()]);
                if i > head.len() {
                    assert(json_escaped(text)[i - 1] == tail[i - 1 - head.len()]);
                }
            } else {
                assert(json_escaped(text)[i] == head[i]);
                assert(json_escaped(text)[i - 1] == head[i - 1]);
            }
        }
    }
}

fn hex_digit_char(d: u32) -> (c: char)
    requires
        d < 16,
    ensures
        c == hex_char(d),
{
    if d == 0 { '0' } else if d == 1 { '1' } else if d == 2 { '2' } else if d == 3 { '3' }
    else if d == 4 { '4' } else if d == 5 { '5' } else if d == 6 { '6' } else if d == 7 { '7' }
    else if d == 8 { '8' } else if d == 9 { '9' } else if d == 10 { 'a' } else if d == 11 { 'b' }
    else if d == 12 { 'c' } else if d == 13 { 'd' } else if d == 14 { 'e' } else { 'f' }
}

/// `{"ssid":"…","rssi":…,"open":…}` for one network.
pub open spec fn network_json(ssid: Seq<char>, rssi_dbm: i32, open: bool) -> Seq<char> {
    "{\"ssid\":\""@ + json_escaped(ssid) + "\",\"rssi\":"@ + signed_decimal(rssi_dbm as int)
        + ",\"open\":"@ + (if open {
        "true"@
    } else {
        "false"@
    }) + "}"@
}

/// The comma-separated objects of the first `count` networks.
pub open spec fn networks_json_items(networks: Seq<ScannedNetwork>, count: int) -> Seq<char>
    decreases count,
{
    if count <= 0 {
        Seq::empty()
    } else {
        let n = networks[count - 1];
        networks_json_items(networks, count - 1) + (if count > 1 {
            seq![',']
        } else {
            Seq::empty()
        }) + network_json(n.ssid@, n.rssi_dbm, n.open)
    }
}

/// Phone-facing JSON array of the scanned networks.
pub open spec fn networks_json(networks: Seq<ScannedNetwork>) -> Seq<char> {
    seq!['['] + networks_json_items(networks, networks.len() as int) + seq![']']
}

fn push_json_escaped(json: &mut String, value: &str)
    ensures
        final(json)@ == old(json)@ + json_escaped(value@),
{
    let chars = crate::text::text_chars(value);
    let mut i: usize = 0;
    while i < chars.len()
        invariant
            i <= chars@.len(),
            chars@ == value@,
            json@ == old(json)@ + json_escaped(chars@.take(i as int)),
        decreases chars.len() - i,
    {
        let c = chars[i];
        if c == '\\' {
            push_char(json, '\\');
            push_char(json, '\\');
        } else if c == '"' {
            push_char(json, '\\');
            push_char(json, '"');
        } else if c == '\n' {
            push_char(json, '\\');
            push_char(json, 'n');
        } else if (c as u32) < 0x20 {
            push_char(json, '\\');
            push_char(json, 'u');
            push_char(json, '0');
            push_char(json, '0');
            push_char(json, hex_digit_char((c as u32) / 16));
            push_char(json, hex_digit_char((c as u32) % 16));
        } else {
            push_char(json, c);
        }
        proof {
            assert(chars@.take(i + 1).drop_last() =~= chars@.take(i as int));
        }
        i = i + 1;
        assert(json@ =~= old(json)@ + json_escaped(chars@.take(i as int)));
    }
    assert(chars@.take(i as int) =~= chars@);
}

/// Phone-facing JSON array. SSIDs are escaped; passwords are never included.
#[verifier::spinoff_prover]
#[verifier::rlimit(30)]
pub fn scanned_networks_json(networks: &[ScannedNetwork]) -> (json: String)
    ensures
        json@ == networks_json(networks@),
{
    let mut json = String::new();
    push_char(&mut json, '[');
    let mut index: usize = 0;
    while index < networks.len()
        invariant
            index <= networks@.len(),
            json@ == seq!['['] + networks_json_items(networks@, index as int),
        decreases networks.len() - index,
    {
        let ghost before = json@;
        if index > 0 {
            push_char(&mut json, ',');
        }
        let network = &networks[index];
        push_str(&mut json, "{\"ssid\":\"");
        push_json_escaped(&mut json, network.ssid.as_str());
        push_str(&mut json, "\",\"rssi\":");
        push_i32(&mut json, network.rssi_dbm);
        push_str(&mut json, ",\"open\":");
        if network.open {
            push_str(&mut json, "true");
        } else {
            push_str(&mut json, "false");
        }
        push_str(&mut json, "}");
        index = index + 1;
        assert(json@ =~= seq!['['] + networks_json_items(networks@, index as int));
    }
    push_char(&mut json, ']');
    assert(json@ =~= networks_json(networks@));
    json
}

} // verus!

verus! {

impl ScannedNetwork {
    /// A copy with equal fields.
    pub fn duplicate(&self) -> (copy: ScannedNetwork)
        ensures
            copy == *self,
    {
        ScannedNetwork { ssid: self.ssid.clone(), rssi_dbm: self.rssi_dbm, open: self.open }
    }
}

/// Lexicographic order of code points, as `str` orders its UTF-8 bytes.
pub open spec fn text_lt(a: Seq<char>, b: Seq<char>) -> bool
    decreases a.len(),
{
    if b.len() == 0 {
        false
    } else if a.len() == 0 {
        true
    } else if a[0] != b[0] {
        a[0] < b[0]
    } else {
        text_lt(a.drop_first(), b.drop_first())
    }
}

pub proof fn lemma_text_lt_irreflexive(a: Seq<char>)
    ensures
        !text_lt(a, a),
    decreases a.len(),
{
    if a.len() > 0 {
        lemma_text_lt_irreflexive(a.drop_first());
    }
}

pub proof fn lemma_text_lt_total(a: Seq<char>, b: Seq<char>)
    ensures
        a != b ==> (text_lt(a, b) || text_lt(b, a)),
        !(text_lt(a, b) && text_lt(b, a)),
    decreases a.len(),
{
    if a.len() > 0 && b.len() > 0 {
        if a[0] == b[0] {
            lemma_text_lt_total(a.drop_first(), b.drop_first());
            if a != b {
                assert(a =~= seq![a[0]] + a.drop_first());
                assert(b =~= seq![b[0]] + b.drop_first());
            }
        }
    } else if a.len() == 0 && b.len() == 0 {
        assert(a =~= b);
    }
}

pub proof fn lemma_text_lt_transitive(a: Seq<char>, b: Seq<char>, c: Seq<char>)
    requires
        text_lt(a, b),
        text_lt(b, c),
    ensures
        text_lt(a, c),
    decreases a.len(),
{
    if a.len() > 0 && b.len() > 0 && c.len() > 0 && a[0] == b[0] && b[0] == c[0] {
        lemma_text_lt_transitive(a.drop_first(), b.drop_first(), c.drop_first());
    }
}

/// Scan rows keep networks with a name other than the setup network's own.
pub open spec fn valid_scan(network: ScannedNetwork) -> bool {
    network.ssid@.len() > 0 && network.ssid@ != WIFI_SETUP_AP_SSID@
}

/// Stronger signal first, then SSID order.
pub open spec fn ranks_before(a: ScannedNetwork, b: ScannedNetwork) -> bool {
    a.rssi_dbm > b.rssi_dbm || (a.rssi_dbm == b.rssi_dbm && text_lt(a.ssid@, b.ssid@))
}

/// Row `index` is the strongest row of its SSID, and the first among equally strong ones.
pub open spec fn champion_at(networks: Seq<ScannedNetwork>, index: int) -> bool {
    &&& 0 <= index < networks.len()
    &&& valid_scan(networks[index])
    &&& forall|j: int|
        0 <= j < networks.len() && (#[trigger] networks[j]).ssid@ == networks[index].ssid@ ==> (
        networks[j].rssi_dbm < networks[index].rssi_dbm || (networks[j].rssi_dbm
            == networks[index].rssi_dbm && j >= index))
}

pub open spec fn is_champion(networks: Seq<ScannedNetwork>, network: ScannedNetwork) -> bool {
    exists|index: int| champion_at(networks, index) && networks[index] == network
}

pub open spec fn names_ssid(rows: Seq<ScannedNetwork>, ssid: Seq<char>) -> bool {
    exists|i: int| 0 <= i < rows.len() && rows[i].ssid@ == ssid
}

/// `rows` is the deduplicated scan of `networks`: one row per kept SSID, its
/// strongest (first on ties), strongest first then by SSID, at most 24 rows,
/// and only the weakest-ranked SSIDs are dropped when there are more.
pub open spec fn collapsed(networks: Seq<ScannedNetwork>, rows: Seq<ScannedNetwork>) -> bool {
    &&& rows.len() <= WIFI_SETUP_MAX_SCAN
    &&& forall|i: int, j: int| 0 <= i < j < rows.len() ==> ranks_before(rows[i], rows[j])
    &&& forall|i: int| 0 <= i < rows.len() ==> is_champion(networks, #[trigger] rows[i])
    &&& forall|k: int|
        0 <= k < networks.len() && valid_scan(#[trigger] networks[k]) && !names_ssid(
            rows,
            networks[k].ssid@,
        ) ==> rows.len() == WIFI_SETUP_MAX_SCAN && ranks_before(
            rows[WIFI_SETUP_MAX_SCAN - 1],
            networks[k],
        )
}

pub proof fn lemma_ranks_before_total(a: ScannedNetwork, b: ScannedNetwork)
    ensures
        a.ssid@ != b.ssid@ ==> (ranks_before(a, b) || ranks_before(b, a)),
        !(ranks_before(a, b) && ranks_before(b, a)),
        !ranks_before(a, a),
{
    lemma_text_lt_total(a.ssid@, b.ssid@);
    lemma_text_lt_irreflexive(a.ssid@);
}

pub proof fn lemma_ranks_before_transitive(a: ScannedNetwork, b: ScannedNetwork, c: ScannedNetwork)
    requires
        ranks_before(a, b),
        ranks_before(b, c),
    ensures
        ranks_before(a, c),
{
    if a.rssi_dbm == b.rssi_dbm && b.rssi_dbm == c.rssi_dbm {
        lemma_text_lt_transitive(a.ssid@, b.ssid@, c.ssid@);
    }
}

fn chars_lt(a: &Vec<char>, b: &Vec<char>) -> (less: bool)
    ensures
        less == text_lt(a@, b@),
{
    let mut i: usize = 0;
    assert(a@.skip(0) =~= a@);
    assert(b@.skip(0) =~= b@);
    while i < a.len() && i < b.len()
        invariant
            i <= a@.len(),
            i <= b@.len(),
            text_lt(a@, b@) == text_lt(a@.skip(i as int), b@.skip(i as int)),
        decreases a.len() - i,
    {
        if a[i] != b[i] {
            return a[i] < b[i];
        }
        assert(a@.skip(i as int).drop_first() =~= a@.skip(i + 1));
        assert(b@.skip(i as int).drop_first() =~= b@.skip(i + 1));
        i = i + 1;
    }
    i < b.len()
}

fn network_ranks_before(a: &ScannedNetwork, b: &ScannedNetwork) -> (before: bool)
    ensures
        before == ranks_before(*a, *b),
{
    if a.rssi_dbm != b.rssi_dbm {
        return a.rssi_dbm > b.rssi_dbm;
    }
    let a_chars = crate::text::text_chars(a.ssid.as_str());
    let b_chars = crate::text::text_chars(b.ssid.as_str());
    chars_lt(&a_chars, &b_chars)
}

fn is_valid_scan(network: &ScannedNetwork) -> (valid: bool)
    ensures
        valid == valid_scan(*network),
{
    let setup = String::from_str(WIFI_SETUP_AP_SSID);
    !network.ssid.as_str().is_empty() && network.ssid != setup
}

} // verus!

verus! {

/// Row `index` beats every earlier row of its SSID and ties only later ones.
pub open spec fn champion_in_prefix(networks: Seq<ScannedNetwork>, index: int, end: int) -> bool {
    forall|j: int|
        0 <= j < end && (#[trigger] networks[j]).ssid@ == networks[index].ssid@ ==> (
        networks[j].rssi_dbm < networks[index].rssi_dbm || (networks[j].rssi_dbm
            == networks[index].rssi_dbm && j >= index))
}

/// The strongest valid row of every SSID, first on ties, in first-seen order.
#[verifier::spinoff_prover]
fn strongest_per_ssid(networks: &Vec<ScannedNetwork>) -> (best: Vec<ScannedNetwork>)
    ensures
        forall|u: int| 0 <= u < best@.len() ==> is_champion(networks@, #[trigger] best@[u]),
        forall|u: int, v: int|
            0 <= u < best@.len() && 0 <= v < best@.len() && u != v ==> best@[u].ssid@
                != best@[v].ssid@,
        forall|k: int|
            0 <= k < networks@.len() && valid_scan(#[trigger] networks@[k]) ==> names_ssid(
                best@,
                networks@[k].ssid@,
            ),
{
    let mut best: Vec<ScannedNetwork> = Vec::new();
    let ghost mut origin: Seq<int> = Seq::empty();
    let mut k: usize = 0;
    while k < networks.len()
        invariant
            k <= networks@.len(),
            origin.len() == best@.len(),
            forall|u: int|
                0 <= u < best@.len() ==> {
                    &&& 0 <= #[trigger] origin[u] < k
                    &&& networks@[origin[u]] == best@[u]
                    &&& valid_scan(best@[u])
                    &&& champion_in_prefix(networks@, origin[u], k as int)
                },
            forall|u: int, v: int|
                0 <= u < best@.len() && 0 <= v < best@.len() && u != v ==> best@[u].ssid@
                    != best@[v].ssid@,
            forall|j: int|
                0 <= j < k && valid_scan(#[trigger] networks@[j]) ==> names_ssid(
                    best@,
                    networks@[j].ssid@,
                ),
        decreases networks.len() - k,
    {
        let network = &networks[k];
        if is_valid_scan(network) {
            let mut u: usize = 0;
            let mut found = false;
            while u < best.len()
                invariant
                    u <= best@.len(),
                    !found ==> forall|w: int| 0 <= w < u ==> best@[w].ssid@ != network.ssid@,
                    found ==> u < best@.len() && best@[u as int].ssid@ == network.ssid@,
                ensures
                    found ==> u < best@.len() && best@[u as int].ssid@ == network.ssid@,
                    !found ==> forall|w: int|
                        0 <= w < best@.len() ==> best@[w].ssid@ != network.ssid@,
                decreases best.len() - u + (if found {
                    0int
                } else {
                    1int
                }),
            {
                if best[u].ssid == network.ssid {
                    found = true;
                    break;
                }
                u = u + 1;
            }
            if found {
                if network.rssi_dbm > best[u].rssi_dbm {
                    let ghost previous = best@;
                    best.set(u, network.duplicate());
                    proof {
                        let old_origin = origin;
                        assert(0 <= old_origin[u as int] < k);
                        assert(champion_in_prefix(networks@, old_origin[u as int], k as int));
                        origin = origin.update(u as int, k as int);
                        assert forall|w: int| 0 <= w < best@.len() implies {
                            &&& 0 <= #[trigger] origin[w] < k + 1
                            &&& networks@[origin[w]] == best@[w]
                            &&& valid_scan(best@[w])
                            &&& champion_in_prefix(networks@, origin[w], k + 1)
                        } by {
                            if w != u {
                                assert(0 <= old_origin[w] < k);
                                assert(previous[w] == best@[w]);
                                assert(networks@[k as int].ssid@ != best@[w].ssid@);
                            } else {
                                assert forall|j: int|
                                    0 <= j < k + 1 && (#[trigger] networks@[j]).ssid@
                                        == networks@[k as int].ssid@ implies (networks@[j].rssi_dbm
                                    < networks@[k as int].rssi_dbm || (networks@[j].rssi_dbm
                                    == networks@[k as int].rssi_dbm && j >= k)) by {
                                    if j < k {
                                        assert(networks@[j].ssid@ == networks@[old_origin[u as int]].ssid@);
                                    }
                                }
                            }
                        }
                        assert forall|j: int|
                            0 <= j < k + 1 && valid_scan(#[trigger] networks@[j]) implies names_ssid(
                            best@,
                            networks@[j].ssid@,
                        ) by {
                            if j < k {
                                let w = choose|w: int|
                                    0 <= w < previous.len() && previous[w].ssid@
                                        == networks@[j].ssid@;
                                assert(best@[w].ssid@ == networks@[j].ssid@);
                            } else {
                                assert(best@[u as int].ssid@ == networks@[j].ssid@);
                            }
                        }
                    }
                } else {
                    proof {
                        assert forall|w: int| 0 <= w < best@.len() implies {
                            &&& 0 <= #[trigger] origin[w] < k + 1
                            &&& networks@[origin[w]] == best@[w]
                            &&& valid_scan(best@[w])
                            &&& champion_in_prefix(networks@, origin[w], k + 1)
                        } by {
                            assert(0 <= origin[w] < k);
                            if w != u {
                                assert(networks@[k as int].ssid@ != best@[w].ssid@);
                            } else {
                                assert(networks@[k as int].ssid@ == best@[w].ssid@);
                                assert(networks@[k as int].rssi_dbm <= best@[w].rssi_dbm);
                            }
                        }
                    }
                }
            } else {
                let ghost previous = best@;
                best.push(network.duplicate());
                proof {
                    origin = origin.push(k as int);
                    assert forall|w: int| 0 <= w < best@.len() implies {
                        &&& 0 <= #[trigger] origin[w] < k + 1
                        &&& networks@[origin[w]] == best@[w]
                        &&& valid_scan(best@[w])
                        &&& champion_in_prefix(networks@, origin[w], k + 1)
                    } by {
                        if w < previous.len() {
                            assert(previous[w] == best@[w]);
                        } else {
                            assert forall|j: int|
                                0 <= j < k + 1 && (#[trigger] networks@[j]).ssid@
                                    == networks@[origin[w]].ssid@ implies j >= origin[w] by {
                                if j < k {
                                    let x = choose|x: int|
                                        0 <= x < previous.len() && previous[x].ssid@
                                            == networks@[j].ssid@;
                                }
                            }
                        }
                    }
                    assert forall|j: int|
                        0 <= j < k + 1 && valid_scan(#[trigger] networks@[j]) implies names_ssid(
                        best@,
                        networks@[j].ssid@,
                    ) by {
                        if j < k {
                            let w = choose|w: int|
                                0 <= w < previous.len() && previous[w].ssid@ == networks@[j].ssid@;
                            assert(best@[w].ssid@ == networks@[j].ssid@);
                        } else {
                            assert(best@[previous.len() as int].ssid@ == networks@[j].ssid@);
                        }
                    }
                }
            }
        } else {
            proof {
                assert forall|w: int| 0 <= w < best@.len() implies champion_in_prefix(
                    networks@,
                    origin[w],
                    k + 1,
                ) by {
                    assert(0 <= origin[w] < k);
                    assert(valid_scan(best@[w]));
                    assert(!valid_scan(networks@[k as int]));
                    assert(networks@[k as int].ssid@ != best@[w].ssid@);
                }
            }
        }
        k = k + 1;
    }
    proof {
        assert forall|u: int| 0 <= u < best@.len() implies is_champion(networks@, #[trigger] best@[u]) by {
            assert(champion_at(networks@, origin[u]));
        }
    }
    best
}

} // verus!

verus! {

/// Deduplicate scan rows by SSID, keeping the strongest RSSI, strongest first.
#[verifier::spinoff_prover]
pub fn collapse_scan_results(networks: Vec<ScannedNetwork>) -> (rows: Vec<ScannedNetwork>)
    ensures
        collapsed(networks@, rows@),
{
    let mut remaining = strongest_per_ssid(&networks);
    let mut rows: Vec<ScannedNetwork> = Vec::new();
    while rows.len() < WIFI_SETUP_MAX_SCAN && remaining.len() > 0
        invariant
            rows@.len() <= WIFI_SETUP_MAX_SCAN,
            forall|i: int, j: int| 0 <= i < j < rows@.len() ==> ranks_before(rows@[i], rows@[j]),
            forall|i: int| 0 <= i < rows@.len() ==> is_champion(networks@, #[trigger] rows@[i]),
            forall|u: int|
                0 <= u < remaining@.len() ==> is_champion(networks@, #[trigger] remaining@[u]),
            forall|u: int, v: int|
                0 <= u < remaining@.len() && 0 <= v < remaining@.len() && u != v
                    ==> remaining@[u].ssid@ != remaining@[v].ssid@,
            forall|i: int, u: int|
                0 <= i < rows@.len() && 0 <= u < remaining@.len() ==> ranks_before(
                    rows@[i],
                    remaining@[u],
                ),
            forall|k: int|
                0 <= k < networks@.len() && valid_scan(#[trigger] networks@[k]) ==> (names_ssid(
                    rows@,
                    networks@[k].ssid@,
                ) || names_ssid(remaining@, networks@[k].ssid@)),
        decreases remaining.len(),
    {
        let mut pick: usize = 0;
        let mut u: usize = 1;
        proof {
            lemma_ranks_before_total(remaining@[0], remaining@[0]);
        }
        while u < remaining.len()
            invariant
                1 <= u <= remaining@.len(),
                pick < remaining@.len(),
                forall|v: int| 0 <= v < u ==> !ranks_before(remaining@[v], remaining@[pick as int]),
            decreases remaining.len() - u,
        {
            if network_ranks_before(&remaining[u], &remaining[pick]) {
                proof {
                    assert forall|v: int| 0 <= v < u + 1 implies !ranks_before(
                        remaining@[v],
                        remaining@[u as int],
                    ) by {
                        if v < u && ranks_before(remaining@[v], remaining@[u as int]) {
                            lemma_ranks_before_transitive(
                                remaining@[v],
                                remaining@[u as int],
                                remaining@[pick as int],
                            );
                        }
                        lemma_ranks_before_total(remaining@[v], remaining@[u as int]);
                    }
                }
                pick = u;
            }
            u = u + 1;
        }
        let ghost before_rows = rows@;
        let ghost before_remaining = remaining@;
        proof {
            assert forall|v: int| 0 <= v < before_remaining.len() && v != pick implies ranks_before(
                before_remaining[pick as int],
                before_remaining[v],
            ) by {
                lemma_ranks_before_total(before_remaining[pick as int], before_remaining[v]);
            }
        }
        let chosen = remaining.remove(pick);
        rows.push(chosen);
        proof {
            assert forall|v: int| 0 <= v < remaining@.len() implies #[trigger] remaining@[v]
                == before_remaining[if v < pick {
                v
            } else {
                v + 1
            }] by {}
            assert forall|i: int, j: int| 0 <= i < j < rows@.len() implies ranks_before(
                rows@[i],
                rows@[j],
            ) by {
                if j == rows@.len() - 1 {
                    assert(rows@[j] == before_remaining[pick as int]);
                } else {
                    assert(rows@[i] == before_rows[i]);
                    assert(rows@[j] == before_rows[j]);
                }
            }
            assert forall|i: int| 0 <= i < rows@.len() implies is_champion(networks@, #[trigger] rows@[i]) by {
                if i < before_rows.len() {
                    assert(rows@[i] == before_rows[i]);
                } else {
                    assert(rows@[i] == before_remaining[pick as int]);
                }
            }
            assert forall|u: int| 0 <= u < remaining@.len() implies is_champion(
                networks@,
                #[trigger] remaining@[u],
            ) by {
                let _ = remaining@[u];
            }
            assert forall|v: int, w: int|
                0 <= v < remaining@.len() && 0 <= w < remaining@.len() && v != w
                    implies remaining@[v].ssid@ != remaining@[w].ssid@ by {
                let _ = remaining@[v];
                let _ = remaining@[w];
            }
            assert forall|i: int, v: int| 0 <= i < rows@.len() && 0 <= v < remaining@.len()
                implies ranks_before(rows@[i], remaining@[v]) by {
                let _ = remaining@[v];
                if i < before_rows.len() {
                    assert(rows@[i] == before_rows[i]);
                } else {
                    assert(rows@[i] == before_remaining[pick as int]);
                }
            }
            assert forall|k: int|
                0 <= k < networks@.len() && valid_scan(#[trigger] networks@[k]) implies (names_ssid(
                rows@,
                networks@[k].ssid@,
            ) || names_ssid(remaining@, networks@[k].ssid@)) by {
                if names_ssid(before_rows, networks@[k].ssid@) {
                    let i = choose|i: int|
                        0 <= i < before_rows.len() && before_rows[i].ssid@ == networks@[k].ssid@;
                    assert(rows@[i] == before_rows[i]);
                } else {
                    let v = choose|v: int|
                        0 <= v < before_remaining.len() && before_remaining[v].ssid@
                            == networks@[k].ssid@;
                    if v == pick {
                        assert(rows@[rows@.len() - 1] == before_remaining[v]);
                    } else if v < pick {
                        assert(remaining@[v] == before_remaining[v]);
                    } else {
                        assert(remaining@[v - 1] == before_remaining[v]);
                    }
                }
            }
        }
    }
    proof {
        assert forall|k: int|
            0 <= k < networks@.len() && valid_scan(#[trigger] networks@[k]) && !names_ssid(
                rows@,
                networks@[k].ssid@,
            ) implies rows@.len() == WIFI_SETUP_MAX_SCAN && ranks_before(
            rows@[WIFI_SETUP_MAX_SCAN - 1],
            networks@[k],
        ) by {
            let v = choose|v: int|
                0 <= v < remaining@.len() && remaining@[v].ssid@ == networks@[k].ssid@;
            let champion = remaining@[v];
            assert(is_champion(networks@, champion));
            let c = choose|c: int| champion_at(networks@, c) && networks@[c] == champion;
            assert(networks@[k].ssid@ == networks@[c].ssid@);
            let last = rows@[WIFI_SETUP_MAX_SCAN - 1];
            assert(ranks_before(last, champion));
        }
    }
    rows
}

} // verus!

verus! {

/// Why a submitted setup form was refused.
#[derive(Clone, Copy, Debug, PartialEq, Eq, Structural)]
pub enum SetupFormError {
    /// A `%` escape is not followed by two hexadecimal digits.
    InvalidPercentEscape,
    /// The decoded bytes are not UTF-8.
    NotUtf8,
    /// No `ssid` field was submitted.
    MissingSsid,
    /// The SSID or the password holds a control character.
    ControlCharacter,
    /// The submitted SSID is empty.
    EmptySsid,
    /// A non-empty password is shorter than 8 or longer than 63 characters.
    PasswordLength,
}

pub open spec fn form_error_message(error: SetupFormError) -> Seq<char> {
    match error {
        SetupFormError::InvalidPercentEscape => "invalid percent escape"@,
        SetupFormError::NotUtf8 => "form is not UTF-8"@,
        SetupFormError::MissingSsid => "ssid is required"@,
        SetupFormError::ControlCharacter => "ssid and password must not contain control characters"@,
        SetupFormError::EmptySsid => "ssid must not be empty"@,
        SetupFormError::PasswordLength => "password must be empty or 8 to 63 characters"@,
    }
}

impl SetupFormError {
    pub fn message(self) -> (message: &'static str)
        ensures
            message@ == form_error_message(self),
    {
        match self {
            SetupFormError::InvalidPercentEscape => "invalid percent escape",
            SetupFormError::NotUtf8 => "form is not UTF-8",
            SetupFormError::MissingSsid => "ssid is required",
            SetupFormError::ControlCharacter => "ssid and password must not contain control characters",
            SetupFormError::EmptySsid => "ssid must not be empty",
            SetupFormError::PasswordLength => "password must be empty or 8 to 63 characters",
        }
    }
}

/// Value of one ASCII hexadecimal digit.
pub open spec fn hex_digit(value: u8) -> Option<u8> {
    if 0x30 <= value <= 0x39 {
        Some((value - 0x30) as u8)
    } else if 0x61 <= value <= 0x66 {
        Some((value - 0x61 + 10) as u8)
    } else if 0x41 <= value <= 0x46 {
        Some((value - 0x41 + 10) as u8)
    } else {
        None
    }
}

fn hex(value: u8) -> (digit: Option<u8>)
    ensures
        digit == hex_digit(value),
        digit == hex_digit(ascii_upper(value)),
{
    proof {
        lemma_hex_digit_ignores_case(value);
    }
    if 0x30 <= value && value <= 0x39 {
        Some(value - 0x30)
    } else if 0x61 <= value && value <= 0x66 {
        Some(value - 0x61 + 10)
    } else if 0x41 <= value && value <= 0x46 {
        Some(value - 0x41 + 10)
    } else {
        None
    }
}

/// Bytes from position `from` on with `%XX` escapes and `+` decoded; `None`
/// on a `%` with two following bytes that are not both hexadecimal digits.
pub open spec fn percent_decoded_bytes(bytes: Seq<u8>, from: int) -> Option<Seq<u8>>
    decreases bytes.len() - from,
{
    if from < 0 || from >= bytes.len() {
        Some(Seq::empty())
    } else if bytes[from] == 0x25 && from + 2 < bytes.len() {
        match (hex_digit(bytes[from + 1]), hex_digit(bytes[from + 2])) {
            (Some(high), Some(low)) => match percent_decoded_bytes(bytes, from + 3) {
                Some(rest) => Some(seq![(high * 16 + low) as u8] + rest),
                None => None,
            },
            _ => None,
        }
    } else if bytes[from] == 0x2B {
        match percent_decoded_bytes(bytes, from + 1) {
            Some(rest) => Some(seq![0x20u8] + rest),
            None => None,
        }
    } else {
        match percent_decoded_bytes(bytes, from + 1) {
            Some(rest) => Some(seq![bytes[from]] + rest),
            None => None,
        }
    }
}

/// ASCII upper case of a byte; other bytes are unchanged.
pub open spec fn ascii_upper(byte: u8) -> u8 {
    if 0x61 <= byte <= 0x7A {
        (byte - 0x20) as u8
    } else {
        byte
    }
}

/// The byte of a hexadecimal digit of `d < 16`, lower case, or upper case
/// when `upper` holds.
pub open spec fn hex_digit_byte(d: u32, upper: bool) -> u8 {
    if upper {
        ascii_upper(hex_char(d) as u32 as u8)
    } else {
        hex_char(d) as u32 as u8
    }
}

/// Every hexadecimal digit reads as its value in either letter case: the
/// lower-case digit that the JSON writer emits for `d` and its upper-case
/// form both read as `d`.
pub proof fn lemma_hex_digit_values(d: u32, upper: bool)
    requires
        d < 16,
    ensures
        hex_digit(hex_digit_byte(d, upper)) == Some(d as u8),
{
}

/// The value of a byte as a hexadecimal digit does not depend on its letter
/// case, and only the sixteen digits in either case have one.
pub proof fn lemma_hex_digit_ignores_case(byte: u8)
    ensures
        hex_digit(byte) == hex_digit(ascii_upper(byte)),
        hex_digit(byte) is Some <==> exists|d: u32, upper: bool|
            d < 16 && byte == #[trigger] hex_digit_byte(d, upper),
{
    if hex_digit(byte) is Some {
        let d: u32 = hex_digit(byte)->Some_0 as u32;
        if 0x30 <= byte <= 0x39 {
            assert(byte == hex_digit_byte(d, false));
        } else if 0x61 <= byte <= 0x66 {
            assert(byte == hex_digit_byte(d, false));
        } else {
            assert(byte == hex_digit_byte(d, true));
        }
    }
    assert forall|d: u32, upper: bool|
        d < 16 && byte == #[trigger] hex_digit_byte(d, upper) implies hex_digit(byte) is Some by {
        lemma_hex_digit_values(d, upper);
    }
}

proof fn lemma_percent_shift(prefix: Seq<u8>, rest: Seq<u8>, k: int)
    requires
        0 <= k,
    ensures
        percent_decoded_bytes(prefix + rest, prefix.len() + k) == percent_decoded_bytes(rest, k),
    decreases rest.len() - k,
{
    if k < rest.len() {
        lemma_percent_shift(prefix, rest, k + 1);
        if k + 3 <= rest.len() {
            lemma_percent_shift(prefix, rest, k + 3);
        }
    }
}

/// A `%` escape decodes to the byte `16 * high + low` whatever the letter
/// case of its two digits, and decoding goes on after it.
pub proof fn lemma_percent_escape_either_case(
    high: u32,
    low: u32,
    upper_high: bool,
    upper_low: bool,
    rest: Seq<u8>,
)
    requires
        high < 16,
        low < 16,
    ensures
        percent_decoded_bytes(
            seq![0x25u8, hex_digit_byte(high, upper_high), hex_digit_byte(low, upper_low)] + rest,
            0,
        ) == match percent_decoded_bytes(rest, 0) {
            Some(decoded) => Some(seq![(high * 16 + low) as u8] + decoded),
            None => None,
        },
{
    let escape = seq![0x25u8, hex_digit_byte(high, upper_high), hex_digit_byte(low, upper_low)];
    lemma_hex_digit_values(high, upper_high);
    lemma_hex_digit_values(low, upper_low);
    lemma_percent_shift(escape, rest, 0);
    assert((escape + rest)[0] == 0x25u8);
    assert((escape + rest)[1] == hex_digit_byte(high, upper_high));
    assert((escape + rest)[2] == hex_digit_byte(low, upper_low));
}

/// URL-form decoding of a text: escapes on its UTF-8 bytes, then UTF-8 again.
pub open spec fn percent_decoded(text: Seq<char>) -> Result<Seq<char>, SetupFormError> {
    match percent_decoded_bytes(vstd::utf8::encode_utf8(text), 0) {
        None => Err(SetupFormError::InvalidPercentEscape),
        Some(bytes) => if vstd::utf8::valid_utf8(bytes) {
            Ok(vstd::utf8::decode_utf8(bytes))
        } else {
            Err(SetupFormError::NotUtf8)
        },
    }
}

fn percent_decode(value: &str) -> (decoded: Result<String, SetupFormError>)
    ensures
        match decoded {
            Ok(text) => percent_decoded(value@) == Ok::<Seq<char>, SetupFormError>(text@),
            Err(error) => percent_decoded(value@) == Err::<Seq<char>, SetupFormError>(error),
        },
{
    let bytes = value.as_bytes();
    let ghost b = bytes@;
    let mut output: Vec<u8> = Vec::new();
    let mut index: usize = 0;
    while index < bytes.len()
        invariant
            bytes@ == b,
            b == vstd::utf8::encode_utf8(value@),
            index <= b.len(),
            percent_decoded_bytes(b, 0) == match percent_decoded_bytes(b, index as int) {
                Some(rest) => Some(output@ + rest),
                None => None::<Seq<u8>>,
            },
        decreases bytes.len() - index,
    {
        let byte = bytes[index];
        if byte == 0x25 && bytes.len() >= 3 && index < bytes.len() - 2 {
            let high = match hex(bytes[index + 1]) {
                Some(h) => h,
                None => return Err(SetupFormError::InvalidPercentEscape),
            };
            let low = match hex(bytes[index + 2]) {
                Some(l) => l,
                None => return Err(SetupFormError::InvalidPercentEscape),
            };
            let ghost prev = output@;
            output.push(high * 16 + low);
            proof {
                match percent_decoded_bytes(b, index + 3) {
                    Some(rest) => {
                        assert(output@ + rest =~= prev + (seq![(high * 16 + low) as u8] + rest));
                    },
                    None => {},
                }
            }
            index = index + 3;
        } else if byte == 0x2B {
            let ghost prev = output@;
            output.push(0x20);
            proof {
                match percent_decoded_bytes(b, index + 1) {
                    Some(rest) => {
                        assert(output@ + rest =~= prev + (seq![0x20u8] + rest));
                    },
                    None => {},
                }
            }
            index = index + 1;
        } else {
            let ghost prev = output@;
            output.push(byte);
            proof {
                match percent_decoded_bytes(b, index + 1) {
                    Some(rest) => {
                        assert(output@ + rest =~= prev + (seq![byte] + rest));
                    },
                    None => {},
                }
            }
            index = index + 1;
        }
    }
    assert(output@ + Seq::<u8>::empty() =~= output@);
    match crate::text::string_from_utf8(output) {
        Some(text) => Ok(text),
        None => Err(SetupFormError::NotUtf8),
    }
}

} // verus!

verus! {

/// The pieces of `text` between occurrences of `separator`, as `str::split` yields them.
pub open spec fn split_text(text: Seq<char>, separator: char) -> Seq<Seq<char>>
    decreases text.len(),
{
    if text.len() == 0 {
        seq![Seq::<char>::empty()]
    } else {
        let pieces = split_text(text.drop_last(), separator);
        if text.last() == separator {
            pieces.push(Seq::empty())
        } else {
            pieces.update(pieces.len() - 1, pieces.last().push(text.last()))
        }
    }
}

pub proof fn lemma_split_nonempty(text: Seq<char>, separator: char)
    ensures
        split_text(text, separator).len() >= 1,
    decreases text.len(),
{
    if text.len() > 0 {
        lemma_split_nonempty(text.drop_last(), separator);
    }
}

/// Position of the first `target` at or after `from`.
pub open spec fn find_char(text: Seq<char>, target: char, from: int) -> Option<int>
    decreases text.len() - from,
{
    if from < 0 || from >= text.len() {
        None
    } else if text[from] == target {
        Some(from)
    } else {
        find_char(text, target, from + 1)
    }
}

/// A form field's name: the text before the first `=`, or all of it.
pub open spec fn field_key(part: Seq<char>) -> Seq<char> {
    match find_char(part, '=', 0) {
        Some(i) => part.take(i),
        None => part,
    }
}

/// A form field's value: the text after the first `=`, or nothing.
pub open spec fn field_value(part: Seq<char>) -> Seq<char> {
    match find_char(part, '=', 0) {
        Some(i) => part.skip(i + 1),
        None => Seq::empty(),
    }
}

/// Fields collected from a setup form so far; later fields win.
pub struct FormFields {
    pub ssid: Option<Seq<char>>,
    pub password: Seq<char>,
    pub timezone: Option<Seq<char>>,
    pub ntp_server: Option<Seq<char>>,
}

pub open spec fn no_fields() -> FormFields {
    FormFields { ssid: None, password: Seq::empty(), timezone: None, ntp_server: None }
}

pub open spec fn with_field(fields: FormFields, key: Seq<char>, value: Seq<char>) -> FormFields {
    if key == "ssid"@ {
        FormFields { ssid: Some(value), ..fields }
    } else if key == "password"@ {
        FormFields { password: value, ..fields }
    } else if key == "timezone"@ {
        FormFields { timezone: Some(value), ..fields }
    } else if key == "ntp_server"@ {
        FormFields { ntp_server: Some(value), ..fields }
    } else {
        fields
    }
}

/// Decode the first `count` `&`-separated parts in order, skipping empty
/// parts and stopping at the first part whose name or value fails to decode.
pub open spec fn form_fields(parts: Seq<Seq<char>>, count: int) -> Result<FormFields, SetupFormError>
    decreases count,
{
    if count <= 0 {
        Ok(no_fields())
    } else {
        match form_fields(parts, count - 1) {
            Err(error) => Err(error),
            Ok(fields) => {
                let part = parts[count - 1];
                if part.len() == 0 {
                    Ok(fields)
                } else {
                    match percent_decoded(field_key(part)) {
                        Err(error) => Err(error),
                        Ok(key) => match percent_decoded(field_value(part)) {
                            Err(error) => Err(error),
                            Ok(value) => Ok(with_field(fields, key, value)),
                        },
                    }
                }
            },
        }
    }
}

pub open spec fn is_control_char(c: char) -> bool {
    (c as u32) <= 0x1F || (0x7F <= (c as u32) <= 0x9F)
}

pub open spec fn has_control(text: Seq<char>) -> bool {
    exists|i: int| 0 <= i < text.len() && is_control_char(text[i])
}

/// The configuration a setup form yields, or why it is refused.
pub open spec fn setup_form_result(body: Seq<char>) -> Result<
    (Seq<char>, Seq<char>, Seq<char>, Seq<char>),
    SetupFormError,
> {
    let parts = split_text(body, '&');
    match form_fields(parts, parts.len() as int) {
        Err(error) => Err(error),
        Ok(fields) => match fields.ssid {
            None => Err(SetupFormError::MissingSsid),
            Some(ssid) => if has_control(ssid) || has_control(fields.password) {
                Err(SetupFormError::ControlCharacter)
            } else if ssid.len() == 0 {
                Err(SetupFormError::EmptySsid)
            } else if fields.password.len() != 0 && (fields.password.len() < 8
                || fields.password.len() > 63) {
                Err(SetupFormError::PasswordLength)
            } else {
                Ok(
                    (
                        ssid,
                        fields.password,
                        match fields.timezone {
                            Some(timezone) => timezone,
                            None => crate::network::DEFAULT_TIMEZONE@,
                        },
                        match fields.ntp_server {
                            Some(server) => server,
                            None => crate::network::DEFAULT_NTP_SERVER@,
                        },
                    ),
                )
            },
        },
    }
}

} // verus!

verus! {

struct FieldsInProgress {
    ssid: Option<String>,
    password: String,
    timezone: Option<String>,
    ntp_server: Option<String>,
}

impl FieldsInProgress {
    spec fn view(&self) -> FormFields {
        FormFields {
            ssid: crate::network::opt_text(self.ssid),
            password: self.password@,
            timezone: crate::network::opt_text(self.timezone),
            ntp_server: crate::network::opt_text(self.ntp_server),
        }
    }
}

fn chars_to_string(chars: &Vec<char>, from: usize, to: usize) -> (text: String)
    requires
        from <= to <= chars@.len(),
    ensures
        text@ == chars@.subrange(from as int, to as int),
{
    let mut text = String::new();
    let mut i = from;
    while i < to
        invariant
            from <= i <= to <= chars@.len(),
            text@ == chars@.subrange(from as int, i as int),
        decreases to - i,
    {
        push_char(&mut text, chars[i]);
        i = i + 1;
        assert(text@ =~= chars@.subrange(from as int, i as int));
    }
    text
}

fn apply_part(fields: &mut FieldsInProgress, part: &Vec<char>) -> (outcome: Result<(), SetupFormError>)
    ensures
        match outcome {
            Ok(()) => part@.len() == 0 && final(fields).view() == old(fields).view() || part@.len()
                > 0 && percent_decoded(field_key(part@)) is Ok && percent_decoded(
                field_value(part@),
            ) is Ok && final(fields).view() == with_field(
                old(fields).view(),
                percent_decoded(field_key(part@))->Ok_0,
                percent_decoded(field_value(part@))->Ok_0,
            ),
            Err(error) => part@.len() > 0 && (percent_decoded(field_key(part@)) == Err::<
                Seq<char>,
                SetupFormError,
            >(error) || (percent_decoded(field_key(part@)) is Ok && percent_decoded(
                field_value(part@),
            ) == Err::<Seq<char>, SetupFormError>(error))),
        },
{
    if part.len() == 0 {
        return Ok(());
    }
    let mut eq: usize = 0;
    while eq < part.len() && part[eq] != '='
        invariant
            eq <= part@.len(),
            find_char(part@, '=', 0) == find_char(part@, '=', eq as int),
        decreases part.len() - eq,
    {
        eq = eq + 1;
    }
    let (key_text, value_text) = if eq < part.len() {
        assert(find_char(part@, '=', 0) == Some(eq as int));
        (chars_to_string(part, 0, eq), chars_to_string(part, eq + 1, part.len()))
    } else {
        assert(find_char(part@, '=', 0) is None);
        assert(part@.subrange(0, part@.len() as int) =~= part@);
        (chars_to_string(part, 0, part.len()), String::new())
    };
    assert(key_text@ =~= field_key(part@));
    assert(value_text@ =~= field_value(part@));
    let key = match percent_decode(key_text.as_str()) {
        Ok(key) => key,
        Err(error) => return Err(error),
    };
    let value = match percent_decode(value_text.as_str()) {
        Ok(value) => value,
        Err(error) => return Err(error),
    };
    if key == String::from_str("ssid") {
        fields.ssid = Some(value);
    } else if key == String::from_str("password") {
        fields.password = value;
    } else if key == String::from_str("timezone") {
        fields.timezone = Some(value);
    } else if key == String::from_str("ntp_server") {
        fields.ntp_server = Some(value);
    }
    Ok(())
}

fn has_control_char(text: &String) -> (found: bool)
    ensures
        found == has_control(text@),
{
    let chars = crate::text::text_chars(text.as_str());
    let mut i: usize = 0;
    while i < chars.len()
        invariant
            i <= chars@.len(),
            chars@ == text@,
            forall|j: int| 0 <= j < i ==> !is_control_char(chars@[j]),
        decreases chars.len() - i,
    {
        let code = chars[i] as u32;
        if code <= 0x1F || (0x7F <= code && code <= 0x9F) {
            assert(is_control_char(chars@[i as int]));
            return true;
        }
        i = i + 1;
    }
    false
}

pub(crate) fn char_count(text: &String) -> (count: usize)
    ensures
        count == text@.len(),
{
    crate::text::text_chars(text.as_str()).len()
}

/// Parse the `application/x-www-form-urlencoded` body of POST `/save`.
#[verifier::spinoff_prover]
pub fn parse_setup_form(body: &str) -> (config: Result<crate::network::NetworkConfig, SetupFormError>)
    ensures
        match config {
            Ok(c) => setup_form_result(body@) == Ok::<
                (Seq<char>, Seq<char>, Seq<char>, Seq<char>),
                SetupFormError,
            >((c.ssid@, c.password@, c.timezone@, c.ntp_server@)),
            Err(error) => setup_form_result(body@) == Err::<
                (Seq<char>, Seq<char>, Seq<char>, Seq<char>),
                SetupFormError,
            >(error),
        },
{
    let chars = crate::text::text_chars(body);
    let mut fields = FieldsInProgress {
        ssid: None,
        password: String::new(),
        timezone: None,
        ntp_server: None,
    };
    assert(fields.view() =~= no_fields());
    let mut current: Vec<char> = Vec::new();
    let mut i: usize = 0;
    while i < chars.len()
        invariant
            i <= chars@.len(),
            chars@ == body@,
            split_text(chars@.take(i as int), '&').len() >= 1,
            current@ == split_text(chars@.take(i as int), '&').last(),
            form_fields(
                split_text(chars@.take(i as int), '&'),
                split_text(chars@.take(i as int), '&').len() - 1,
            ) == Ok::<FormFields, SetupFormError>(fields.view()),
        decreases chars.len() - i,
    {
        let c = chars[i];
        let ghost parts = split_text(chars@.take(i as int), '&');
        proof {
            assert(chars@.take(i + 1).drop_last() =~= chars@.take(i as int));
        }
        if c == '&' {
            let outcome = apply_part(&mut fields, &current);
            match outcome {
                Ok(()) => {},
                Err(error) => {
                    proof {
                        lemma_form_fields_error_persists(body@, i as int, parts, error);
                    }
                    return Err(error);
                },
            }
            current = Vec::new();
            proof {
                let next = split_text(chars@.take(i + 1), '&');
                assert(next == parts.push(Seq::empty()));
                assert(next[parts.len() - 1] == parts.last());
                assert forall|k: int| 0 <= k < parts.len() implies next[k] == parts[k] by {}
                lemma_form_fields_prefix(parts, next, parts.len() - 1);
                assert(current@ =~= next.last());
            }
        } else {
            current.push(c);
            proof {
                let next = split_text(chars@.take(i + 1), '&');
                assert forall|k: int| 0 <= k < parts.len() - 1 implies next[k] == parts[k] by {}
                lemma_form_fields_prefix(parts, next, parts.len() - 1);
                assert(current@ =~= next.last());
            }
        }
        i = i + 1;
    }
    assert(chars@.take(i as int) =~= body@);
    let outcome = apply_part(&mut fields, &current);
    match outcome {
        Ok(()) => {},
        Err(error) => {
            return Err(error);
        },
    }
    let ssid = match fields.ssid {
        Some(ssid) => ssid,
        None => return Err(SetupFormError::MissingSsid),
    };
    if has_control_char(&ssid) || has_control_char(&fields.password) {
        return Err(SetupFormError::ControlCharacter);
    }
    if char_count(&ssid) == 0 {
        return Err(SetupFormError::EmptySsid);
    }
    let password_len = char_count(&fields.password);
    if password_len != 0 && (password_len < 8 || password_len > 63) {
        return Err(SetupFormError::PasswordLength);
    }
    let timezone = match fields.timezone {
        Some(timezone) => timezone,
        None => String::from_str(crate::network::DEFAULT_TIMEZONE),
    };
    let ntp_server = match fields.ntp_server {
        Some(server) => server,
        None => String::from_str(crate::network::DEFAULT_NTP_SERVER),
    };
    Ok(crate::network::NetworkConfig { ssid, password: fields.password, timezone, ntp_server })
}

proof fn lemma_form_fields_prefix(a: Seq<Seq<char>>, b: Seq<Seq<char>>, count: int)
    requires
        0 <= count <= a.len(),
        count <= b.len(),
        forall|k: int| 0 <= k < count ==> b[k] == a[k],
    ensures
        form_fields(a, count) == form_fields(b, count),
    decreases count,
{
    if count > 0 {
        lemma_form_fields_prefix(a, b, count - 1);
    }
}

proof fn lemma_split_step(text: Seq<char>, j: int)
    requires
        0 <= j < text.len(),
    ensures
        split_text(text.take(j + 1), '&').len() >= split_text(text.take(j), '&').len(),
        forall|k: int|
            0 <= k < split_text(text.take(j), '&').len() - 1 ==> split_text(text.take(j + 1), '&')[k]
                == split_text(text.take(j), '&')[k],
        text[j] == '&' ==> split_text(text.take(j + 1), '&')[split_text(text.take(j), '&').len()
            - 1] == split_text(text.take(j), '&').last() && split_text(text.take(j + 1), '&').len()
            == split_text(text.take(j), '&').len() + 1,
{
    assert(text.take(j + 1).drop_last() =~= text.take(j));
    lemma_split_nonempty(text.take(j), '&');
}

proof fn lemma_split_stable(text: Seq<char>, j: int, m: int)
    requires
        0 <= j <= m <= text.len(),
    ensures
        split_text(text.take(m), '&').len() >= split_text(text.take(j), '&').len(),
        forall|k: int|
            0 <= k < split_text(text.take(j), '&').len() - 1 ==> split_text(text.take(m), '&')[k]
                == split_text(text.take(j), '&')[k],
    decreases m - j,
{
    if m > j {
        lemma_split_stable(text, j, m - 1);
        lemma_split_step(text, m - 1);
        lemma_split_nonempty(text.take(j), '&');
        lemma_split_nonempty(text.take(m - 1), '&');
    }
}

proof fn lemma_form_fields_error_extends(parts: Seq<Seq<char>>, count: int, more: int)
    requires
        0 <= count <= more,
        form_fields(parts, count) is Err,
    ensures
        form_fields(parts, more) == form_fields(parts, count),
    decreases more - count,
{
    if more > count {
        lemma_form_fields_error_extends(parts, count, more - 1);
    }
}

proof fn lemma_form_fields_error_persists(
    body: Seq<char>,
    i: int,
    parts: Seq<Seq<char>>,
    error: SetupFormError,
)
    requires
        0 <= i < body.len(),
        body[i] == '&',
        parts == split_text(body.take(i), '&'),
        parts.len() >= 1,
        form_fields(parts, parts.len() as int) == Err::<FormFields, SetupFormError>(error),
    ensures
        setup_form_result(body) == Err::<
            (Seq<char>, Seq<char>, Seq<char>, Seq<char>),
            SetupFormError,
        >(error),
{
    lemma_split_step(body, i);
    let next = split_text(body.take(i + 1), '&');
    lemma_split_stable(body, i + 1, body.len() as int);
    assert(body.take(body.len() as int) =~= body);
    let full = split_text(body, '&');
    assert forall|k: int| 0 <= k < parts.len() implies full[k] == parts[k] by {
        assert(next[k] == parts[k]);
    }
    lemma_form_fields_prefix(parts, full, parts.len() as int);
    lemma_form_fields_error_extends(full, parts.len() as int, full.len() as int);
}

} // verus!

verus! {

/// Compact mobile page served at `/` and the captive-portal probe URLs.
pub const SETUP_HTML: &'static str = r#"<!doctype html>
<html lang="en">
<head>
<meta charset="utf-8">
<meta name="viewport" content="width=device-width,initial-scale=1">
<title>Rustmix-Setup</title>
<style>
body{font-family:sans-serif;margin:1em;max-width:28em}
label{display:block;margin-top:.8em}
input,button{font-size:1em;width:100%;padding:.4em;box-sizing:border-box}
li{cursor:pointer;padding:.3em 0}
</style>
</head>
<body>
<h1>Rustmix-Setup</h1>
<p>Connected to the setup network. This page lives at http://192.168.4.1/</p>
<h2>Networks</h2>
<ul id="networks"><li>Scanning&hellip;</li></ul>
<button type="button" id="rescan">Scan again</button>
<form method="post" action="/save">
<label>Network name <input name="ssid" id="ssid" required maxlength="32"></label>
<label>Password <input name="password" type="password" maxlength="63"></label>
<label>Timezone <input name="timezone" placeholder="America/New_York"></label>
<label>NTP server <input name="ntp_server" placeholder="pool.ntp.org"></label>
<p><button type="submit">Save and connect</button></p>
</form>
<script>
function show(list){
  var ul=document.getElementById('networks');
  ul.innerHTML='';
  list.forEach(function(n){
    var li=document.createElement('li');
    li.textContent=n.ssid+' ('+n.rssi+' dBm'+(n.open?', open':'')+')';
    li.onclick=function(){document.getElementById('ssid').value=n.ssid;};
    ul.appendChild(li);
  });
  if(!list.length){ul.innerHTML='<li>No networks yet</li>';}
}
function load(url){fetch(url).then(function(r){return r.json();}).then(show).catch(function(){});}
document.getElementById('rescan').onclick=function(){load('/scan?refresh=1');};
load('/scan');
setInterval(function(){load('/scan');},5000);
</script>
</body>
</html>
"#;

/// Page returned after the credentials were accepted.
pub const SAVED_HTML: &'static str = r#"<!doctype html>
<html lang="en">
<head>
<meta charset="utf-8">
<meta name="viewport" content="width=device-width,initial-scale=1">
<title>Rustmix-Setup</title>
</head>
<body>
<h1>Saved</h1>
<p>The device is joining your network. You can leave the Rustmix-Setup network now.</p>
</body>
</html>
"#;

/// Compact mobile HTML served at `/` and at captive-portal probe URLs.
pub fn setup_html() -> (html: &'static str)
    ensures
        html@ == SETUP_HTML@,
{
    SETUP_HTML
}

} // verus!
