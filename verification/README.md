# rustmix_wave

Verified core of the RustMix Wave e-paper reader firmware, written in Verus.

- `src/` is the library. Every function carries a `requires`/`ensures`
  contract that Verus proves: screen navigation (`router`), the panel refresh
  policy (`panel_refresh`), the e-paper command protocol and busy-line timing
  (`epaper`), glyph caching, CJK measurement, truncation, coverage packing,
  pixel coverage and the order of a font directory's files (`fonts`), text
  styles (`typography`), network status and runtime transitions (`network`,
  `network_runtime`), and the Wi-Fi setup portal, its form parser, the
  scan-result JSON and its decoding (`wifi_setup`, `scan_json`), the portal
  state (`setup_portal`) and the credential mirror (`wifi_nvs`). Properties
  that span several calls are stated as public proof functions named
  `lemma_*`.
- `tests/` runs the library on concrete values.
- `app/` is the unverified edge: the SPI/GPIO panel driver, SD font files and
  the `fontdue` rasterizer, drawing to an `embedded-graphics` target, NVS, and
  the ESP-IDF Wi-Fi and HTTP services. The panel plans, busy-line timing, the
  font scan steps and file order, glyph choice, pixel coverage, cursor moves,
  portal state, the scan-result JSON and NVS values come from the library;
  `app/` still turns the rasterizer's float advance into whole pixels and
  guards the conversions from its own data types.
