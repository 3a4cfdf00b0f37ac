# PadProxy

PadProxy is a Linux gamepad remapper: it reads a physical controller, creates
a virtual controller through uinput, and remaps buttons, axes, keyboard keys
and mouse controls according to YAML profiles (layers, activators, turbo,
macros, commands, analog tuning).

## Layout

- `src/` — the verified library (Verus). Each public function states what it
  returns in its `ensures`; the proof functions named `law_*` state what holds
  over several calls.
  - `event_code`, `text`, `glob`: event names, text helpers, glob matching.
  - `profiles`, `profile_doc`, `profile_build`, `mapping_build`,
    `macro_build`, `layer_build`, `profile_errors`, `catalog`: building
    profiles from their documents, with every error message, and merging
    the profiles found in several directories.
  - `engine_spec`, `engine`, `engine_laws`: the remap engine (layers, press
    activators, turbo, macro queue, commands) as a state machine driven by
    events and the time.
  - `analog`, `mobile`, `outputs`, `devices`, `linux`, `bluetooth`, `power`,
    `leds`, `slots`, `presets`, `blocklist`, `autodetect`, `service`,
    `logging`, `gimx`, `bthid`, `vision`: the rest of the domain logic.
- `app/` — the `padproxyctl` program: file, device, socket and process I/O,
  YAML/JSON decoding, and the floating-point analog processing.
- `tests/` — tests of the library.
