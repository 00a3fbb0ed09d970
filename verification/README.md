# olivaw

Control, sensing and wire-format logic for the Olivaw car (an ESP32 driving two
DC motors through an L298N, with battery telemetry, an RPLIDAR C1 stream and a
BLE / MQTT link), written in Verus and proved against its contracts.

## Layout

| Path | What |
| --- | --- |
| `src/battery/` | Divider maths, ADC model, LiPo state of charge, low-battery hysteresis |
| `src/drive/` | `"<left>,<right>"` frames, watchdog, E-stop latch, duty governor, slew limiter, L298N channel model |
| `src/proto/` | Control opcodes, packed telemetry, link states, scan frames, MQTT topics |
| `src/lidar/` | Request frames, byte-at-a-time pump with resynchronisation, rotation assembler |
| `src/board/` | Pin map and bring-up errors |
| `src/car/` | Configuration, the secrets-file lookup, shared car state, and the decisions each firmware task makes |
| `tests/` | Scenario tests on concrete values |
| `app/` | What Verus does not check: serde and `Display` copies, postcard and JSON, floating-point kinematics, embedded-hal pin adapters, embassy statics and the async task loops |

Each module states its laws as public proof functions named `lemma_*`; the
executable functions state what they return in `ensures` over the spec
functions beside them.
