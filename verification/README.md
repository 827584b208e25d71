# picodsp_ble

The logic of a synthesizer with USB-MIDI and BLE-MIDI input, verified with Verus. The device plays
one note at a time from 128 stored presets, streams its sound to a converter and to the USB host,
and exchanges its whole preset bank with an editor.

`src/` is the verified library. It holds no floating-point numbers: every level, time and frequency
is carried as the 32 bits of a single-precision number. Controllers are scaled to their ranges in
integer arithmetic that gives those bits; what takes powers and logarithms is computed by the caller
and handed in.

| Modules | What they do |
|---|---|
| `midi`, `note_stack`, `midi_control`, `cc_map` | what the player's messages do to keys, live controls and the working preset |
| `sysex` | dumps and writes of the preset bank, in USB packets |
| `presets`, `factory`, `binary32`, `scaling`, `bytes` | what a sound is made of, its numbers and their ranges, its image, and the factory bank |
| `storage` | the bank's layout in flash and the steps that replace it |
| `psram`, `psram_delay`, `flash_diag` | the external memory, the cores' agreement around flash writes, the flash's timing |
| `ble_midi` | finding a keyboard, the radio link, reading its packets |
| `audio`, `voice` | blocks of sound, USB audio packets, how a voice is built |
| `uac1`, `shell`, `system_info`, `text` | the USB microphone, the serial commands, the start-up report |
| `midictl` | the host's command line tool |

`app/` is ordinary Rust around it: the firmware (for the bare-metal target) and the command line
tool (for the host). `tests/` runs the library from outside.

The library relies on a few outside functions: `heapless::Vec` and `heapless::String` for the held
keys and the typed line, `embassy_usb`'s sample width, and `from_utf8` and `to_lowercase` of the
standard library. What is assumed of each stands in its doc comment.
