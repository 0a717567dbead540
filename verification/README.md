# saturn

The core of a SEGA Saturn emulator, written in Verus: every function of `src/`
states what it does, and Verus proves it.

| module | what it holds |
| --- | --- |
| `bus` | the memory map, and the time that accesses take |
| `memory`, `cartridge` | work RAM, ROM, battery-backed RAM, the cartridge slot |
| `scu` | interrupts, DMA requests, timers, the ports of the DSP |
| `cd_block` | the CD drive: commands, buffers, filters, files, the data port |
| `scsp` | the sound chip: voices, timers, effects, a native sound driver |
| `disc`, `sheet`, `chd_image` | discs, and the images that they are made from |
| `scheduler` | which chip runs next |
| `bios_hle` | system calls of the BIOS, done natively |
| `savestate` | the header of save states, and loading one |
| `diagnostics` | small programs that show the machine to work |
| `text`, `bits` | texts and numbers; facts about bits |

Laws, which relate several functions, are public proof functions: in the `laws`
modules of `cd_block` and `scsp`, and at the end of the other modules.

The CPUs, the SMPC and the graphics chips are not part of the core. Where an access
reaches one of them, the caller hands in its answer. `app/` holds the loops that
drive such chips, and what reads streams and the environment.
