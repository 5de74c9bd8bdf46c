//! Reading back the phone-facing scan list: a decoder for the JSON that the
//! setup portal serves, and the law that it recovers every network's SSID,
//! signal strength and open flag, in order.
use vstd::prelude::*;

use crate::text::{decimal, digit_char, signed_decimal};
use crate::wifi_setup::{
    hex_char, json_char, json_escaped, network_json, networks_json, networks_json_items,
    ScannedNetwork,
};

verus! {

/// Value of a hexadecimal digit in either case.
pub open spec fn hex_value(c: char) -> Option<int> {
    if '0' <= c <= '9' {
        Some((c as u32) - 0x30)
    } else if 'a' <= c <= 'f' {
        Some((c as u32) - 0x61 + 10)
    } else if 'A' <= c <= 'F' {
        Some((c as u32) - 0x41 + 10)
    } else {
        None
    }
}

/// The escape at the start of `t` (which begins with a backslash): the
/// character it stands for and its length.
pub open spec fn read_escape(t: Seq<char>) -> Option<(char, int)> {
    if t.len() < 2 {
        None
    } else if t[1] == '\\' {
        Some(('\\', 2))
    } else if t[1] == '"' {
        Some(('"', 2))
    } else if t[1] == 'n' {
        Some(('\n', 2))
    } else if t[1] == 'u' && t.len() >= 6 && hex_value(t[2]) is Some && hex_value(t[3]) is Some
        && hex_value(t[4]) is Some && hex_value(t[5]) is Some {
        let v = hex_value(t[2])->Some_0 * 4096 + hex_value(t[3])->Some_0 * 256 + hex_value(
            t[4],
        )->Some_0 * 16 + hex_value(t[5])->Some_0;
        if v < 0x20 {
            Some(((v as u32) as char, 6))
        } else {
            None
        }
    } else {
        None
    }
}

/// A JSON string body up to its closing quote: the text it stands for and
/// what follows the quote. Raw control characters are refused.
pub open spec fn read_json_string(t: Seq<char>) -> Option<(Seq<char>, Seq<char>)>
    decreases t.len(),
{
    if t.len() == 0 {
        None
    } else if t[0] == '"' {
        Some((Seq::empty(), t.skip(1)))
    } else if t[0] == '\\' {
        match read_escape(t) {
            None => None,
            Some((c, k)) => match read_json_string(t.skip(k)) {
                Some((s, r)) => Some((seq![c] + s, r)),
                None => None,
            },
        }
    } else if (t[0] as u32) < 0x20 {
        None
    } else {
        match read_json_string(t.skip(1)) {
            Some((s, r)) => Some((seq![t[0]] + s, r)),
            None => None,
        }
    }
}

pub open spec fn is_number_char(c: char) -> bool {
    c == '-' || ('0' <= c <= '9')
}

/// The number characters at the start of `t`, and what follows them.
pub open spec fn read_json_number(t: Seq<char>) -> (Seq<char>, Seq<char>)
    decreases t.len(),
{
    if t.len() > 0 && is_number_char(t[0]) {
        let (n, r) = read_json_number(t.skip(1));
        (seq![t[0]] + n, r)
    } else {
        (Seq::empty(), t)
    }
}

/// The value of a run of decimal digits.
pub open spec fn digits_value(digits: Seq<char>) -> int
    decreases digits.len(),
{
    if digits.len() == 0 {
        0
    } else {
        digits_value(digits.drop_last()) * 10 + (digits.last() as u32 - 0x30)
    }
}

pub open spec fn all_digits(text: Seq<char>) -> bool {
    forall|i: int| 0 <= i < text.len() ==> '0' <= #[trigger] text[i] <= '9'
}

/// The integer a JSON number text without fraction or exponent stands for.
pub open spec fn number_value(text: Seq<char>) -> Option<int> {
    if text.len() > 1 && text[0] == '-' && all_digits(text.skip(1)) {
        Some(-digits_value(text.skip(1)))
    } else if text.len() > 0 && all_digits(text) {
        Some(digits_value(text))
    } else {
        None
    }
}

/// `t` with the literal `lit` removed from its front.
pub open spec fn read_literal(t: Seq<char>, lit: Seq<char>) -> Option<Seq<char>> {
    if t.len() >= lit.len() && t.take(lit.len() as int) == lit {
        Some(t.skip(lit.len() as int))
    } else {
        None
    }
}

pub open spec fn read_json_bool(t: Seq<char>) -> Option<(bool, Seq<char>)> {
    match read_literal(t, "true"@) {
        Some(r) => Some((true, r)),
        None => match read_literal(t, "false"@) {
            Some(r) => Some((false, r)),
            None => None,
        },
    }
}

/// A network's fields as the phone reads them.
pub type NetworkFields = (Seq<char>, int, bool);

pub open spec fn network_fields(network: ScannedNetwork) -> NetworkFields {
    (network.ssid@, network.rssi_dbm as int, network.open)
}

/// One `{"ssid":…,"rssi":…,"open":…}` object at the start of `t`.
pub open spec fn read_network(t: Seq<char>) -> Option<(NetworkFields, Seq<char>)> {
    match read_literal(t, "{\"ssid\":\""@) {
        None => None,
        Some(t1) => match read_json_string(t1) {
            None => None,
            Some((ssid, t2)) => match read_literal(t2, ",\"rssi\":"@) {
                None => None,
                Some(t3) => {
                    let (number, t4) = read_json_number(t3);
                    match number_value(number) {
                        None => None,
                        Some(rssi) => match read_literal(t4, ",\"open\":"@) {
                            None => None,
                            Some(t5) => match read_json_bool(t5) {
                                None => None,
                                Some((open, t6)) => match read_literal(t6, "}"@) {
                                    None => None,
                                    Some(t7) => Some(((ssid, rssi, open), t7)),
                                },
                            },
                        },
                    }
                },
            },
        },
    }
}

/// Up to `fuel` further objects, each after a comma.
pub open spec fn read_more_networks(t: Seq<char>, fuel: nat) -> Option<(Seq<NetworkFields>, Seq<char>)>
    decreases fuel,
{
    if fuel > 0 && t.len() > 0 && t[0] == ',' {
        match read_network(t.skip(1)) {
            None => None,
            Some((n, r)) => match read_more_networks(r, (fuel - 1) as nat) {
                None => None,
                Some((ns, r2)) => Some((seq![n] + ns, r2)),
            },
        }
    } else {
        Some((Seq::empty(), t))
    }
}

/// The networks of a whole scan list.
pub open spec fn read_networks(t: Seq<char>) -> Option<Seq<NetworkFields>> {
    if t == seq!['[', ']'] {
        Some(Seq::empty())
    } else {
        match read_literal(t, seq!['[']) {
            None => None,
            Some(t1) => match read_network(t1) {
                None => None,
                Some((n, t2)) => match read_more_networks(t2, t2.len()) {
                    Some((ns, t3)) => if t3 == seq![']'] {
                        Some(seq![n] + ns)
                    } else {
                        None
                    },
                    None => None,
                },
            },
        }
    }
}

// ---------------------------------------------------------------------------
// The string body.

proof fn lemma_escaped_front(s: Seq<char>)
    requires
        s.len() > 0,
    ensures
        json_escaped(s) == json_char(s[0]) + json_escaped(s.skip(1)),
    decreases s.len(),
{
    if s.len() == 1 {
        assert(s.drop_last() =~= Seq::<char>::empty());
        assert(s.skip(1) =~= Seq::<char>::empty());
        assert(json_escaped(s) =~= json_char(s[0]) + json_escaped(s.skip(1)));
    } else {
        lemma_escaped_front(s.drop_last());
        assert(s.skip(1).drop_last() =~= s.drop_last().skip(1));
        assert(s.skip(1).last() == s.last());
        assert(s.drop_last()[0] == s[0]);
        assert(json_escaped(s) =~= json_char(s[0]) + json_escaped(s.skip(1)));
    }
}

proof fn lemma_hex_round_trip(d: u32)
    requires
        d < 16,
    ensures
        hex_value(hex_char(d)) == Some(d as int),
{
}

/// Reading past one escaped character.
proof fn lemma_read_char_token(c: char, x: Seq<char>)
    ensures
        read_json_string(json_char(c) + x) == (match read_json_string(x) {
            Some((s, r)) => Some((seq![c] + s, r)),
            None => None,
        }),
{
    let t = json_char(c) + x;
    let k = json_char(c).len();
    assert(t.skip(k as int) =~= x);
    if c == '\\' || c == '"' || c == '\n' {
        assert(t[0] == '\\');
        assert(read_escape(t) == Some((c, 2int)));
    } else if (c as u32) < 0x20 {
        let d1 = (c as u32) / 16;
        let d2 = (c as u32) % 16;
        lemma_hex_round_trip(d1);
        lemma_hex_round_trip(d2);
        assert(t[0] == '\\' && t[1] == 'u');
        assert(t[2] == '0' && t[3] == '0' && t[4] == hex_char(d1) && t[5] == hex_char(d2));
        assert(hex_value('0') == Some(0int));
        let v = 0 * 4096 + 0 * 256 + d1 * 16 + d2;
        assert(v == c as u32);
        vstd::utf8::char_u32_cast(c, c as u32);
        assert(((v as u32) as char) == c);
        assert(read_escape(t) == Some((c, 6int)));
    } else {
        assert(t[0] == c);
    }
}

proof fn lemma_read_escaped_string(s: Seq<char>, rest: Seq<char>)
    ensures
        read_json_string(json_escaped(s) + seq!['"'] + rest) == Some((s, rest)),
    decreases s.len(),
{
    if s.len() == 0 {
        let t = json_escaped(s) + seq!['"'] + rest;
        assert(t =~= seq!['"'] + rest);
        assert(t.skip(1) =~= rest);
        assert(s =~= Seq::<char>::empty());
    } else {
        let c = s[0];
        let tail = s.skip(1);
        lemma_escaped_front(s);
        lemma_read_escaped_string(tail, rest);
        let x = json_escaped(tail) + seq!['"'] + rest;
        assert(json_escaped(s) + seq!['"'] + rest =~= json_char(c) + x);
        lemma_read_char_token(c, x);
        assert(seq![c] + tail =~= s);
    }
}

// ---------------------------------------------------------------------------
// Numbers.

proof fn lemma_decimal_digits(n: nat)
    ensures
        all_digits(decimal(n)),
        decimal(n).len() > 0,
        digits_value(decimal(n)) == n,
    decreases n,
{
    assert(digits_value(Seq::<char>::empty()) == 0);
    if n < 10 {
        let d = decimal(n);
        assert(d.drop_last() =~= Seq::<char>::empty());
        assert(d.last() == digit_char(n));
        assert(digit_char(n) as u32 - 0x30 == n);
        assert(digits_value(d) == digits_value(d.drop_last()) * 10 + (d.last() as u32 - 0x30));
    } else {
        lemma_decimal_digits(n / 10);
        let d = decimal(n);
        assert(d.drop_last() =~= decimal(n / 10));
        assert(d.last() == digit_char(n % 10));
        assert(digit_char(n % 10) as u32 - 0x30 == n % 10);
        assert((n / 10) * 10 + n % 10 == n);
        assert(digits_value(d) == digits_value(d.drop_last()) * 10 + (d.last() as u32 - 0x30));
        assert forall|i: int| 0 <= i < d.len() implies '0' <= #[trigger] d[i] <= '9' by {
            if i < d.len() - 1 {
                assert(d[i] == decimal(n / 10)[i]);
            }
        }
    }
}

proof fn lemma_signed_decimal(v: int)
    ensures
        forall|i: int|
            0 <= i < signed_decimal(v).len() ==> is_number_char(#[trigger] signed_decimal(v)[i]),
        number_value(signed_decimal(v)) == Some(v),
{
    if v < 0 {
        lemma_decimal_digits((-v) as nat);
        let t = signed_decimal(v);
        assert(t.skip(1) =~= decimal((-v) as nat));
        assert forall|i: int| 0 <= i < t.len() implies is_number_char(#[trigger] t[i]) by {
            if i > 0 {
                assert(t[i] == decimal((-v) as nat)[i - 1]);
            }
        }
    } else {
        lemma_decimal_digits(v as nat);
        let t = signed_decimal(v);
        assert(t[0] != '-');
    }
}

proof fn lemma_read_number(p: Seq<char>, rest: Seq<char>)
    requires
        forall|i: int| 0 <= i < p.len() ==> is_number_char(#[trigger] p[i]),
        rest.len() > 0 && !is_number_char(rest[0]),
    ensures
        read_json_number(p + rest) == (p, rest),
    decreases p.len(),
{
    if p.len() == 0 {
        assert(p + rest =~= rest);
    } else {
        let tail = p.skip(1);
        assert forall|i: int| 0 <= i < tail.len() implies is_number_char(#[trigger] tail[i]) by {
            assert(tail[i] == p[i + 1]);
        }
        lemma_read_number(tail, rest);
        assert((p + rest).skip(1) =~= tail + rest);
        assert(seq![p[0]] + tail =~= p);
    }
}

// ---------------------------------------------------------------------------
// Literals and objects.

proof fn lemma_read_literal(lit: Seq<char>, rest: Seq<char>)
    ensures
        read_literal(lit + rest, lit) == Some(rest),
{
    assert((lit + rest).take(lit.len() as int) =~= lit);
    assert((lit + rest).skip(lit.len() as int) =~= rest);
}

proof fn lemma_read_bool(open: bool, rest: Seq<char>)
    ensures
        read_json_bool((if open {
            "true"@
        } else {
            "false"@
        }) + rest) == Some((open, rest)),
{
    reveal_strlit("true");
    reveal_strlit("false");
    if open {
        lemma_read_literal("true"@, rest);
    } else {
        let u = "false"@ + rest;
        lemma_read_literal("false"@, rest);
        assert(u[1] == 'a');
        assert(u.take(4)[1] != ("true"@)[1]);
        assert(read_literal(u, "true"@) is None);
    }
}

#[verifier::rlimit(80)]
#[verifier::spinoff_prover]
proof fn lemma_read_network(network: ScannedNetwork, rest: Seq<char>)
    ensures
        read_network(network_json(network.ssid@, network.rssi_dbm, network.open) + rest) == Some(
            (network_fields(network), rest),
        ),
{
    reveal_strlit("\",\"rssi\":");
    reveal_strlit(",\"rssi\":");
    let ssid = network.ssid@;
    let rssi = network.rssi_dbm as int;
    let number = signed_decimal(rssi);
    let flag = if network.open {
        "true"@
    } else {
        "false"@
    };
    let after_flag = "}"@ + rest;
    let after_number = ",\"open\":"@ + (flag + after_flag);
    let after_string = ",\"rssi\":"@ + (number + after_number);
    let a = json_escaped(ssid) + seq!['"'] + after_string;
    let t = network_json(ssid, network.rssi_dbm, network.open) + rest;
    assert("\",\"rssi\":"@ =~= seq!['"'] + ",\"rssi\":"@);
    assert(t =~= "{\"ssid\":\""@ + a);
    lemma_read_literal("{\"ssid\":\""@, a);
    assert(read_literal(t, "{\"ssid\":\""@) == Some(a));
    lemma_read_escaped_string(ssid, after_string);
    assert(read_json_string(a) == Some((ssid, after_string)));
    lemma_read_literal(",\"rssi\":"@, number + after_number);
    assert(read_literal(after_string, ",\"rssi\":"@) == Some(number + after_number));
    lemma_signed_decimal(rssi);
    reveal_strlit(",\"open\":");
    assert(after_number[0] == ',');
    lemma_read_number(number, after_number);
    assert(read_json_number(number + after_number) == (number, after_number));
    assert(number_value(number) == Some(rssi));
    lemma_read_literal(",\"open\":"@, flag + after_flag);
    assert(read_literal(after_number, ",\"open\":"@) == Some(flag + after_flag));
    lemma_read_bool(network.open, after_flag);
    assert(read_json_bool(flag + after_flag) == Some((network.open, after_flag)));
    lemma_read_literal("}"@, rest);
    assert(read_literal(after_flag, "}"@) == Some(rest));
}

// ---------------------------------------------------------------------------
// The list.

/// The objects from `from` on, each after a comma.
pub open spec fn json_items_from(networks: Seq<ScannedNetwork>, from: int) -> Seq<char>
    decreases networks.len() - from,
{
    if from < 0 || from >= networks.len() {
        Seq::empty()
    } else {
        seq![','] + network_json(networks[from].ssid@, networks[from].rssi_dbm, networks[from].open)
            + json_items_from(networks, from + 1)
    }
}

proof fn lemma_items_split(networks: Seq<ScannedNetwork>, k: int)
    requires
        1 <= k <= networks.len(),
    ensures
        networks_json_items(networks, k) + json_items_from(networks, k) == networks_json_items(
            networks,
            networks.len() as int,
        ),
    decreases networks.len() - k,
{
    if k < networks.len() {
        lemma_items_split(networks, k + 1);
        let n = networks[k];
        assert(networks_json_items(networks, k + 1) == networks_json_items(networks, k) + seq![',']
            + network_json(n.ssid@, n.rssi_dbm, n.open));
        assert(networks_json_items(networks, k) + json_items_from(networks, k) =~= networks_json_items(
            networks,
            k + 1,
        ) + json_items_from(networks, k + 1));
    } else {
        assert(json_items_from(networks, k) =~= Seq::<char>::empty());
        assert(networks_json_items(networks, k) + json_items_from(networks, k) =~= networks_json_items(
            networks,
            k,
        ));
    }
}

proof fn lemma_items_len(networks: Seq<ScannedNetwork>, from: int)
    requires
        0 <= from <= networks.len(),
    ensures
        json_items_from(networks, from).len() >= networks.len() - from,
    decreases networks.len() - from,
{
    if from < networks.len() {
        lemma_items_len(networks, from + 1);
    }
}

pub open spec fn fields_from(networks: Seq<ScannedNetwork>, from: int) -> Seq<NetworkFields> {
    networks.skip(from).map_values(|n: ScannedNetwork| network_fields(n))
}

proof fn lemma_fields_step(networks: Seq<ScannedNetwork>, from: int)
    requires
        0 <= from < networks.len(),
    ensures
        fields_from(networks, from) == seq![network_fields(networks[from])] + fields_from(
            networks,
            from + 1,
        ),
{
    let a = fields_from(networks, from);
    let b = seq![network_fields(networks[from])] + fields_from(networks, from + 1);
    assert(a.len() == b.len());
    assert forall|i: int| 0 <= i < a.len() implies a[i] == b[i] by {
        if i > 0 {
            assert(b[i] == fields_from(networks, from + 1)[i - 1]);
        }
    }
    assert(a =~= b);
}

#[verifier::rlimit(80)]
#[verifier::spinoff_prover]
proof fn lemma_read_more(networks: Seq<ScannedNetwork>, from: int, fuel: nat)
    requires
        0 <= from <= networks.len(),
        fuel >= networks.len() - from,
    ensures
        read_more_networks(json_items_from(networks, from) + seq![']'], fuel) == Some(
            (fields_from(networks, from), seq![']']),
        ),
    decreases networks.len() - from,
{
    let t = json_items_from(networks, from) + seq![']'];
    if from == networks.len() {
        assert(json_items_from(networks, from) =~= Seq::<char>::empty());
        assert(t =~= seq![']']);
        assert(fields_from(networks, from) =~= Seq::<NetworkFields>::empty());
    } else {
        let n = networks[from];
        let object = network_json(n.ssid@, n.rssi_dbm, n.open);
        let rest = json_items_from(networks, from + 1) + seq![']'];
        assert(json_items_from(networks, from) == seq![','] + object + json_items_from(
            networks,
            from + 1,
        ));
        assert(t =~= seq![','] + (object + rest));
        assert(t[0] == ',');
        assert(t.skip(1) =~= object + rest);
        lemma_read_network(n, rest);
        assert(read_network(t.skip(1)) == Some((network_fields(n), rest)));
        lemma_read_more(networks, from + 1, (fuel - 1) as nat);
        lemma_fields_step(networks, from);
    }
}

/// The scan list reads back as the networks it was made from: for each, in
/// order, its SSID, its signal strength and its open flag.
pub proof fn lemma_scan_json_decodes(networks: Seq<ScannedNetwork>)
    ensures
        read_networks(networks_json(networks)) == Some(
            networks.map_values(|n: ScannedNetwork| network_fields(n)),
        ),
{
    let t = networks_json(networks);
    if networks.len() == 0 {
        assert(t =~= seq!['[', ']']);
        assert(networks.map_values(|n: ScannedNetwork| network_fields(n)) =~= Seq::<
            NetworkFields,
        >::empty());
    } else {
        let n = networks[0];
        let len = networks.len() as int;
        lemma_items_split(networks, 1);
        assert(networks_json_items(networks, 1) == network_json(n.ssid@, n.rssi_dbm, n.open)) by {
            assert(networks_json_items(networks, 0) =~= Seq::<char>::empty());
            assert(networks_json_items(networks, 1) =~= networks_json_items(networks, 0) + Seq::<
                char,
            >::empty() + network_json(n.ssid@, n.rssi_dbm, n.open));
        }
        let rest = json_items_from(networks, 1) + seq![']'];
        assert(t =~= seq!['['] + (network_json(n.ssid@, n.rssi_dbm, n.open) + rest));
        assert(t != seq!['[', ']']) by {
            assert(t.len() > 2);
        }
        lemma_read_literal(seq!['['], network_json(n.ssid@, n.rssi_dbm, n.open) + rest);
        lemma_read_network(n, rest);
        lemma_items_len(networks, 1);
        lemma_read_more(networks, 1, rest.len());
        lemma_fields_step(networks, 0);
        assert(fields_from(networks, 0) =~= networks.map_values(
            |n: ScannedNetwork| network_fields(n),
        )) by {
            assert(networks.skip(0) =~= networks);
        }
    }
}

} // verus!
