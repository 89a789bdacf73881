# krankulator_core

The cartridge and I/O side of an NES emulator, written in Verus: every
function in `src/` carries a contract that the verifier proves.

## Layout

- `src/bus.rs`, `src/ppu_bus.rs`: CPU RAM mirroring, nametable and palette
  mirroring, and the PPU bus shared by the simple boards.
- `src/mapper/`: the cartridge boards, one file each (UxROM, AxROM, GxROM, MMC2,
  MMC4, MMC5, VRC1, VRC2/4, Sunsoft 3/4/FME-7, Namco 108/163/175/340, Taito,
  Bandai, Jaleco, Irem and others). The expansion sound of the MMC5 and the
  Namco 163 is kept as integer levels; mixing them into samples is left to
  `app/`. Each board states what a CPU or PPU read returns
  and how every write changes it, and saves and restores its state.
- `src/savestate.rs`: the little-endian savestate writer and reader. Every
  board proves that loading what it saved restores every saved field
  (`lemma_state_roundtrip`).
- `src/loader.rs`, `src/cartridge.rs`, `src/listing.rs`: the iNES header, the
  choice of board, region detection and hex listings.
- `src/controller.rs`, `src/frame_counter.rs`: the joypad shift register and
  the APU frame sequencer.
- `src/debug.rs`, `src/disasm.rs`, `src/dbg.rs`: the debugger's sprite,
  nametable and pattern-table views, the disassembler and the breakpoint
  command.
- `src/overlay.rs`: the on-screen display state: banner, transport line and
  the toast queue, and the plan of where each is drawn on a frame.
- `app/`: file loading, the floating-point audio sinks and mixers, and the
  frame-time line, which stay outside the verifier.
- `tests/`: the test suite.
