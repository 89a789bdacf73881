//! Cartridge and I/O logic of an NES emulator core: mappers, the iNES loader,
//! the controller shift register, the APU frame sequencer and savestates.

pub mod bus;
pub mod controller;
pub mod savestate;
pub mod ppu_bus;
pub mod mapper;
pub mod frame_counter;
pub mod loader;
pub mod listing;
pub mod cartridge;
pub mod host;
pub mod dbg;
pub mod debug;
pub mod disasm;
pub mod overlay;
