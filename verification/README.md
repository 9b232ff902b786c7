# telemetry_parser

A library that reads the motion and camera metadata that cameras, action
cameras and flight controllers record: gyroscope and accelerometer samples,
exposure, lens data and clip properties. Its decoding logic is written in
Verus, and the functions of `src/` carry contracts that Verus proves, with
the exceptions listed under "Trusted".

## Layout

- `src/` — the verified library, one module per format or concern:
  - byte and text helpers: `bytes`, `text`, `util`, `filesystem`, `tags`;
  - GoPro GPMF: `klv`, `gopro`, `lens_profile`;
  - Insta360 trailers and records: `insta360`, `extra_info`;
  - RED R3D and RMD: `red`; Nikon N-RAW: `nikon`; Canon: `canon`,
    `canon_tags`; Blackmagic RAW: `braw`; CAMM tracks: `camm`;
  - Cooke /i and ZEISS lens data: `cooke` (packed) and `cooke_yaml` (YAML);
  - DJI helpers: `dji`, `dvtm_wm169`, `proto_enum`;
  - IMU logs: `esplog`, `senseflow`, `kandao`, `qoocam`, `qoocam_info`,
    `ardupilot`, `ardupilot_bin`, `ardupilot_imu`, `blackbox`, `runcam`,
    `phone_apps`;
  - detection of the remaining formats: `formats`.
- `tests/` — tests of the library on concrete inputs.
- `app/` — what Verus does not check: reading files and folders, the
  floating-point conversions of decoded values, and JSON output.

Numbers that the formats store as floats are kept as their bits in the
library, and converted in `app/`.

## Trusted

The calls into other crates and into parts of `std` that Verus has no
specification for go through small functions marked
`#[verifier::external_body]`. Verus believes their contracts and does not
check their bodies; each doc comment says what its contract claims:

- `bytes`: `find` (memchr's `memmem::find`) and the big- and little-endian
  integer readers (byteorder);
- `util`: `memchr`;
- `text`: `str_chars`, `string_from_chars`, `to_lowercase`, `utf8_lossy`,
  `utf8_strict` (std);
- `filesystem`: `human_sorted` (human-sort);
- `canon_tags`: `chrono_millis`, and `dji`: `utc_seconds` (chrono);
- `cooke_yaml`: `yaml_event` (serde_yaml).

The names `unicode_lowercase`, `lossy_utf8`, `naive_utc_seconds` and
`yaml_event_of` stand for what such calls return; nothing in `src/` says
what they are on given values.
