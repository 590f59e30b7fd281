# supersilver

A volume knob: an RP2040 controller reads two rotary encoders and reports
their positions over USB as COBS-framed postcard messages; a host daemon
decodes the reports and drives the ALSA mixer with `amixer`.

The library in `src/` is verified with Verus:

- `protocol` — the report type, `encode`, and the frame-accumulating
  `Decoder`, with the round-trip and stream laws.
- `wire` — the calls into `postcard` that the protocol rests on.
- `controller` — the firmware's decisions: when an encoder movement updates
  the shared report and when a report goes out over USB.
- `host` — the daemon's decisions: volume steps, mute and unmute, the
  `amixer` arguments and the parsing of its output.
- `knob` — the single-knob daemon's level, LED and mixer command.
- `decimal` — decimal numerals as `Display` writes and `str::parse` reads them.

`app/main.rs` is the host daemon's I/O: USB through `nusb`, the mixer through
`amixer`. The controller firmware (an embassy program for the RP2040) and the
single-knob daemon (GPIO through `drogue-device`) have no counterpart there:
their crates target hardware and toolchains that this build does not have, so
only their decisions, in `controller` and `knob`, are part of this crate.
