# daisy_rs

Firmware logic, audio processing and host tooling for the Daisy Seed audio
board. The library under `src/` is verified with Verus: every function states
what it returns or changes, and the proof functions named `law_*` state what
holds across functions.

| Directory | What it holds |
| --- | --- |
| `src/audio` | codec words, DMA halves, the callback's sample stream |
| `src/boot`, `src/boot_check.rs` | flash chip model, QSPI frames, DFU memory, the boot decision |
| `src/cli` | flashing, building and monitoring from the host; ELF images and their symbols |
| `src/dsp` | delays, rings, FFT plans and schedules, voice allocation, Q15 transform |
| `src/ui` | the terminal, the control panel and the memory test's screen |
| `src/*.rs` | clocks, reset, startup, caches, SDRAM, MIDI, controls, golden comparison |
| `app/` | the program around the library: I/O, hardware access, floating-point arithmetic |
| `tests/` | tests of the library |

Reading ELF files goes through the `object` crate. Its two wrappers, in
`src/cli/elf.rs`, are the only functions whose contracts are believed rather
than proved.
