//! Verified core of the RustMix Wave e-paper reader firmware: screen
//! navigation, panel refresh policy, glyph caching, CJK text measurement and
//! the Wi-Fi provisioning data paths.
use vstd::prelude::*;

pub mod epaper;
pub mod fonts;
pub mod network;
pub mod network_runtime;
pub mod panel_refresh;
pub mod router;
pub mod scan_json;
pub mod setup_portal;
pub mod text;
pub mod typography;
pub mod wifi_nvs;
pub mod wifi_setup;
