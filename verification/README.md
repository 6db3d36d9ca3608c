# msx_rs

The logic of an MSX2 computer, with contracts that Verus proves.

- `src/` is the library. Every executable function has a contract over a model of
  the device it belongs to, and the laws of each device are public proof functions
  named `law_…`.
- `tests/` runs the library on concrete values.
- `app/` is the emulator round it: window, sound output, file access, and the
  wires between the Z80 core and the bus. It runs on a desktop (`native.rs`) and in
  a browser (`web.rs`). It wants the C-BIOS images under `assets/`, and the WGSL
  shaders with `hq4x_lut.png` under `shaders/`.

On a desktop the command line names the cartridge, and takes `--disk=`, `--shader` and
`--mapper`; `MSX_BIOS`, `MSX_LOG` and `MSX_PCTRACE` are read from the environment.
In a browser all of these are parameters of the page's address: `rom`, `disk`, `shader`,
`mapper`, `bios`, `log` and `pctrace`. A ROM can be dropped on the window or the
page.

| Module | What it holds |
|---|---|
| `vdp` | The V9938: ports, status, interrupts; `vdp::engine` has the drawing commands, `vdp::sprites` the sprite status. |
| `frame` | When scanlines start and interrupts fire between the instructions of a frame. |
| `ym2413` | The FM sound chip: operators, envelopes, rhythm. |
| `scc`, `sound` | The wavetable chip, and the queue of writes to all sound chips. |
| `slot` | Slots, expanded slots, RAM, ROM and cartridges with bank switching. |
| `bus` | Memory and I/O ports of the whole machine. |
| `fdc`, `rtc`, `ppi` | Floppy controller, clock and keyboard matrix. |
| `archive`, `lut` | Which file of a zip archive is the ROM, and the shader's table out of a picture. |
| `keyboard`, `cli`, `log`, `post`, `debug`, `text` | The host's side: keys, arguments, logging, shaders, debug windows. |

What is trusted rather than proved: the `psg`, `zip` and `png` crates, the host's clock,
and two functions of the standard library. Each has a wrapper with a doc comment
that says what is claimed of it.
