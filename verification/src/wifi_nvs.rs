//! The values kept in the non-volatile mirror of the Wi-Fi station
//! credentials: what is written for a configuration, how a stored string is
//! read back from its buffer, and which configuration the stored values give.
//! The SD card file stays the first source; the mirror is read when it is
//! missing and written after every save from the setup portal.
use vstd::prelude::*;

use crate::network::{opt_text, NetworkConfig, DEFAULT_NTP_SERVER, DEFAULT_TIMEZONE};
use crate::text::{string_from_utf8, text_chars};
use crate::wifi_setup::{char_count, is_control_char, setup_form_result};

verus! {

/// Private namespace of the credential mirror.
pub const NVS_NAMESPACE: &'static str = "rw_wifi";

pub const KEY_SSID: &'static str = "ssid";

pub const KEY_PASSWORD: &'static str = "pass";

pub const KEY_TIMEZONE: &'static str = "tz";

pub const KEY_NTP: &'static str = "ntp";

/// Capacity of the read buffer of each stored string, terminator included.
pub const SSID_BUFFER_LEN: usize = 40;

pub const PASSWORD_BUFFER_LEN: usize = 80;

pub const TIMEZONE_BUFFER_LEN: usize = 40;

pub const NTP_BUFFER_LEN: usize = 80;

/// A stored value must be a C string; one holding a NUL is replaced.
pub open spec fn stored_text(text: Seq<char>, fallback: Seq<char>) -> Seq<char> {
    if text.contains('\0') {
        fallback
    } else {
        text
    }
}

/// The four strings written for a configuration.
pub struct NvsNetworkEntries {
    pub ssid: String,
    pub password: String,
    pub timezone: String,
    pub ntp_server: String,
}

fn stored_or(text: &String, fallback: &str) -> (stored: String)
    ensures
        stored@ == stored_text(text@, fallback@),
{
    let chars = text_chars(text.as_str());
    let mut i: usize = 0;
    while i < chars.len()
        invariant
            i <= chars@.len(),
            chars@ == text@,
            forall|k: int| 0 <= k < i ==> chars@[k] != '\0',
        decreases chars.len() - i,
    {
        if chars[i] == '\0' {
            assert(text@.contains('\0')) by {
                assert(text@[i as int] == '\0');
            }
            return String::from_str(fallback);
        }
        i = i + 1;
    }
    assert(!text@.contains('\0'));
    String::from_str(text.as_str())
}

/// What is written to the mirror for `config`: each field as it is, or its
/// fallback where it holds a NUL (empty SSID and password, `UTC`, the default
/// time server).
pub fn nvs_entries(config: &NetworkConfig) -> (entries: NvsNetworkEntries)
    ensures
        entries.ssid@ == stored_text(config.ssid@, ""@),
        entries.password@ == stored_text(config.password@, ""@),
        entries.timezone@ == stored_text(config.timezone@, "UTC"@),
        entries.ntp_server@ == stored_text(config.ntp_server@, DEFAULT_NTP_SERVER@),
{
    NvsNetworkEntries {
        ssid: stored_or(&config.ssid, ""),
        password: stored_or(&config.password, ""),
        timezone: stored_or(&config.timezone, "UTC"),
        ntp_server: stored_or(&config.ntp_server, DEFAULT_NTP_SERVER),
    }
}

/// The string a read returned: `len` counts the bytes written to `buffer`,
/// its NUL terminator included.
pub open spec fn stored_string(buffer: Seq<u8>, len: int) -> Option<Seq<char>> {
    if len == 0 {
        None
    } else if vstd::utf8::valid_utf8(buffer.take(len - 1)) {
        Some(vstd::utf8::decode_utf8(buffer.take(len - 1)))
    } else {
        None
    }
}

/// Decode a string read from the mirror; an empty read or bytes that are not
/// UTF-8 give nothing.
pub fn nvs_text(buffer: &[u8], len: usize) -> (text: Option<String>)
    requires
        len <= buffer@.len(),
    ensures
        opt_text(text) == stored_string(buffer@, len as int),
{
    if len == 0 {
        return None;
    }
    let mut bytes: Vec<u8> = Vec::new();
    let mut i: usize = 0;
    while i < len - 1
        invariant
            i <= len - 1,
            len <= buffer@.len(),
            bytes@ == buffer@.take(i as int),
        decreases len - 1 - i,
    {
        bytes.push(buffer[i]);
        i = i + 1;
        assert(bytes@ =~= buffer@.take(i as int));
    }
    string_from_utf8(bytes)
}

/// The configuration the stored values give: none without an SSID; the
/// password defaults to empty, the time zone and time server to theirs. The
/// result is checked as a configuration file is: the SSID must not be empty
/// and a password must be empty or 8 to 63 characters long.
pub open spec fn nvs_config(
    ssid: Option<Seq<char>>,
    password: Option<Seq<char>>,
    timezone: Option<Seq<char>>,
    ntp_server: Option<Seq<char>>,
) -> Option<(Seq<char>, Seq<char>, Seq<char>, Seq<char>)> {
    match ssid {
        None => None,
        Some(ssid) => {
            let password = match password {
                Some(p) => p,
                None => Seq::empty(),
            };
            if ssid.len() == 0 || (password.len() != 0 && (password.len() < 8 || password.len()
                > 63)) {
                None
            } else {
                Some(
                    (
                        ssid,
                        password,
                        match timezone {
                            Some(t) => t,
                            None => DEFAULT_TIMEZONE@,
                        },
                        match ntp_server {
                            Some(n) => n,
                            None => DEFAULT_NTP_SERVER@,
                        },
                    ),
                )
            }
        },
    }
}

/// Assemble the configuration from the strings read back from the mirror.
pub fn config_from_nvs(
    ssid: Option<String>,
    password: Option<String>,
    timezone: Option<String>,
    ntp_server: Option<String>,
) -> (config: Option<NetworkConfig>)
    ensures
        match config {
            Some(c) => nvs_config(opt_text(ssid), opt_text(password), opt_text(timezone), opt_text(
                ntp_server,
            )) == Some((c.ssid@, c.password@, c.timezone@, c.ntp_server@)),
            None => nvs_config(opt_text(ssid), opt_text(password), opt_text(timezone), opt_text(
                ntp_server,
            )) is None,
        },
{
    let ssid = match ssid {
        Some(s) => s,
        None => return None,
    };
    let password = match password {
        Some(p) => p,
        None => String::new(),
    };
    if char_count(&ssid) == 0 {
        return None;
    }
    let password_len = char_count(&password);
    if password_len != 0 && (password_len < 8 || password_len > 63) {
        return None;
    }
    let timezone = match timezone {
        Some(t) => t,
        None => String::from_str(DEFAULT_TIMEZONE),
    };
    let ntp_server = match ntp_server {
        Some(n) => n,
        None => String::from_str(DEFAULT_NTP_SERVER),
    };
    Some(NetworkConfig { ssid, password, timezone, ntp_server })
}

/// What the mirror holds for a configuration reads back as that
/// configuration when no field holds a NUL and the configuration passes the
/// file checks.
pub proof fn lemma_nvs_round_trip(
    ssid: Seq<char>,
    password: Seq<char>,
    timezone: Seq<char>,
    ntp_server: Seq<char>,
)
    requires
        !ssid.contains('\0'),
        !password.contains('\0'),
        !timezone.contains('\0'),
        !ntp_server.contains('\0'),
        ssid.len() != 0,
        password.len() == 0 || 8 <= password.len() <= 63,
    ensures
        nvs_config(
            Some(stored_text(ssid, ""@)),
            Some(stored_text(password, ""@)),
            Some(stored_text(timezone, "UTC"@)),
            Some(stored_text(ntp_server, DEFAULT_NTP_SERVER@)),
        ) == Some((ssid, password, timezone, ntp_server)),
{
}

/// A configuration accepted from the setup portal survives the mirror: the
/// SSID and password cannot hold a NUL (control characters are refused), so
/// only a time zone or time server holding a NUL is replaced.
pub proof fn lemma_portal_config_survives_mirror(body: Seq<char>)
    requires
        setup_form_result(body) is Ok,
        !setup_form_result(body)->Ok_0.2.contains('\0'),
        !setup_form_result(body)->Ok_0.3.contains('\0'),
    ensures
        ({
            let fields = setup_form_result(body)->Ok_0;
            nvs_config(
                Some(stored_text(fields.0, ""@)),
                Some(stored_text(fields.1, ""@)),
                Some(stored_text(fields.2, "UTC"@)),
                Some(stored_text(fields.3, DEFAULT_NTP_SERVER@)),
            ) == Some(fields)
        }),
{
    let fields = setup_form_result(body)->Ok_0;
    assert(!fields.0.contains('\0')) by {
        if fields.0.contains('\0') {
            let i = choose|i: int| 0 <= i < fields.0.len() && fields.0[i] == '\0';
            assert(is_control_char(fields.0[i]));
        }
    }
    assert(!fields.1.contains('\0')) by {
        if fields.1.contains('\0') {
            let i = choose|i: int| 0 <= i < fields.1.len() && fields.1[i] == '\0';
            assert(is_control_char(fields.1[i]));
        }
    }
    lemma_nvs_round_trip(fields.0, fields.1, fields.2, fields.3);
}

} // verus!
