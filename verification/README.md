# jetpack_hack

BLE protocol tooling for the Kaotik Lab "The Jetpack" (HF470, KooSync UART
on FFE1/FFE2), written in Verus. Frames are `55 <cmd> <p0> <p1> <p2> <p3>
<tail>`, where the tail is either a fixed `AA` or a check byte.

- `src/` — the verified library
  - `crc` — check byte and the two frame tails
  - `hex` — spaced hex dumps, decimal numbers, reading dumps back
  - `text` — searching and comparing text
  - `jetpack_protocol` — product constants, scan bonus, burst candidates
  - `jetpack_probe`, `jetpack_sweep`, `ble_sweep`, `ble_run` — what each
    tool sends, how it records and classifies replies, and its reports
  - `channel`, `cli` — characteristic pairs and command-line options
- `tests/` — scenarios on concrete values, including every device-confirmed frame
- `app/` — the command-line front end that talks to the device over btleplug
