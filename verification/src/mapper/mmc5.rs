//! MMC5 (mapper 5): four PRG modes mixing ROM and RAM banks, four CHR modes
//! with separate sprite and background bank sets, nametables from console
//! RAM, ExRAM or a fill tile, a scanline IRQ, an 8x8 multiplier, a vertical
//! split, and two pulse channels.

use vstd::prelude::*;
use crate::bus::{VRAM_SIZE, PALETTE_SIZE, RESET_TARGET_ADDR, palette_slot, palette_index};
use crate::controller::Controller;
use crate::mapper::common::new_controllers;
use crate::ppu_bus::{zeroed, filled};
use crate::savestate::{SavestateWriter, SavestateReader, StateError, enc_u8, enc_bool, enc_u16, enc_u64, dec_u16_at, dec_u64_at, stored_at, lemma_add_assoc, lemma_stored_split, lemma_stored_u8, lemma_stored_bool, lemma_stored_u16, lemma_stored_u64, copy_into_array};
use crate::controller::{controllers_bytes, controller_at, save_controllers, take_controllers, lemma_stored_controllers, CONTROLLER_STATE_LEN};

verus! {

pub const PRG_RAM_SIZE: usize = 64 * 1024;
pub const EXRAM_SIZE: usize = 1024;
pub const INTERNAL_RAM_SIZE: usize = 2048;
pub const CHR_RAM_SIZE: usize = 8192;
/// CPU cycles in one pass of the board's own 240Hz audio sequencer.
pub const AUDIO_FRAME_LENGTH: u16 = 14915;
/// Saved bytes of the memory and banking registers.
pub const BANKING_STATE_LEN: usize = 2 * CONTROLLER_STATE_LEN + INTERNAL_RAM_SIZE + PRG_RAM_SIZE + 33;
/// Saved bytes of the CHR and nametable state, but for the CHR RAM.
pub const VIDEO_STATE_FIXED_LEN: usize = VRAM_SIZE + EXRAM_SIZE + PALETTE_SIZE + 7;
/// Saved bytes of the IRQ and multiplier state.
pub const IRQ_STATE_LEN: usize = 26;
/// Saved bytes of the PCM, split and fetch tracking state.
pub const MISC_STATE_LEN: usize = 16;

/// The eight-step waveform of each duty setting, first step in bit 7.
pub open spec fn duty_pattern(duty: u8) -> u8 {
    if duty == 0 {
        0b01000000
    } else if duty == 1 {
        0b01100000
    } else if duty == 2 {
        0b01111000
    } else {
        0b10011111
    }
}

/// Length counter loads, by the five-bit index written with the timer.
pub open spec fn length_table() -> Seq<u8> {
    seq![
        10u8, 254, 20, 2, 40, 4, 80, 6, 160, 8, 60, 10, 14, 12, 26, 14, 12, 16, 24, 18, 48, 20, 96, 22,
        192, 24, 72, 26, 16, 28, 32, 30,
    ]
}

/// One of the board's two pulse channels. `output` is the level it plays now
/// (0-15).
#[derive(Clone, Copy)]
pub struct Mmc5Pulse {
    pub duty_cycle: u8,
    pub duty_step: u8,
    pub timer: u16,
    pub timer_value: u16,
    pub length_counter: u8,
    pub length_counter_halt: bool,
    pub volume: u8,
    pub constant_volume: bool,
    pub envelope_start: bool,
    pub envelope_divider: u8,
    pub envelope_decay_level: u8,
    pub enabled: bool,
    pub output: u8,
}

impl Mmc5Pulse {
    pub open spec fn wf(&self) -> bool {
        self.duty_cycle < 4 && self.duty_step < 8
    }

    /// The level the channel plays in its current state.
    pub open spec fn level(&self) -> u8 {
        if !self.enabled || self.length_counter == 0 {
            0
        } else if (duty_pattern(self.duty_cycle) >> ((7 - self.duty_step) as u8)) & 1 == 0 {
            0
        } else if self.constant_volume {
            self.volume
        } else {
            self.envelope_decay_level
        }
    }

    pub open spec fn after_control(self, value: u8) -> Mmc5Pulse {
        Mmc5Pulse {
            duty_cycle: (value >> 6u8) & 3,
            length_counter_halt: (value >> 5u8) & 1 != 0,
            constant_volume: (value >> 4u8) & 1 != 0,
            volume: value & 0x0F,
            ..self
        }
    }

    pub open spec fn after_timer_low(self, value: u8) -> Mmc5Pulse {
        Mmc5Pulse { timer: (self.timer & 0xFF00) | value as u16, ..self }
    }

    pub open spec fn after_timer_high(self, value: u8) -> Mmc5Pulse {
        let timer = (self.timer & 0x00FF) | (((value & 0x07) as u16) << 8u16);
        Mmc5Pulse {
            timer,
            timer_value: timer,
            length_counter: if self.enabled {
                length_table()[((value >> 3u8) & 0x1F) as int]
            } else {
                self.length_counter
            },
            duty_step: 0,
            envelope_start: true,
            ..self
        }
    }

    pub open spec fn after_enable(self, enabled: bool) -> Mmc5Pulse {
        Mmc5Pulse { enabled, length_counter: if enabled { self.length_counter } else { 0 }, ..self }
    }

    /// The channel after a write to its register `reg` (0 to 3); the
    /// second register would drive a sweep unit, which this channel lacks.
    pub open spec fn after_write(self, reg: u16, value: u8) -> Mmc5Pulse {
        if reg == 0 {
            self.after_control(value)
        } else if reg == 2 {
            self.after_timer_low(value)
        } else if reg == 3 {
            self.after_timer_high(value)
        } else {
            self
        }
    }

    /// One CPU cycle: the timer counts down, the sequencer steps when it
    /// reloads, and the output level follows.
    pub open spec fn after_cycle(self) -> Mmc5Pulse {
        let stepped = if self.timer_value == 0 {
            Mmc5Pulse { timer_value: self.timer, duty_step: ((self.duty_step + 1) % 8) as u8, ..self }
        } else {
            Mmc5Pulse { timer_value: (self.timer_value - 1) as u16, ..self }
        };
        Mmc5Pulse { output: stepped.level(), ..stepped }
    }

    pub open spec fn after_envelope(self) -> Mmc5Pulse {
        if self.envelope_start {
            Mmc5Pulse { envelope_start: false, envelope_decay_level: 15, envelope_divider: self.volume, ..self }
        } else if self.envelope_divider == 0 {
            Mmc5Pulse {
                envelope_divider: self.volume,
                envelope_decay_level: if self.envelope_decay_level > 0 {
                    (self.envelope_decay_level - 1) as u8
                } else if self.length_counter_halt {
                    15
                } else {
                    self.envelope_decay_level
                },
                ..self
            }
        } else {
            Mmc5Pulse { envelope_divider: (self.envelope_divider - 1) as u8, ..self }
        }
    }

    pub open spec fn after_length_clock(self) -> Mmc5Pulse {
        if !self.length_counter_halt && self.length_counter > 0 {
            Mmc5Pulse { length_counter: (self.length_counter - 1) as u8, ..self }
        } else {
            self
        }
    }

    pub open spec fn new_spec() -> Mmc5Pulse {
        Mmc5Pulse {
            duty_cycle: 0,
            duty_step: 0,
            timer: 0,
            timer_value: 0,
            length_counter: 0,
            length_counter_halt: false,
            volume: 0,
            constant_volume: false,
            envelope_start: false,
            envelope_divider: 0,
            envelope_decay_level: 0,
            enabled: false,
            output: 0,
        }
    }

    pub fn new() -> (p: Mmc5Pulse)
        ensures
            p == Mmc5Pulse::new_spec(),
            p.wf(),
    {
        Mmc5Pulse {
            duty_cycle: 0,
            duty_step: 0,
            timer: 0,
            timer_value: 0,
            length_counter: 0,
            length_counter_halt: false,
            volume: 0,
            constant_volume: false,
            envelope_start: false,
            envelope_divider: 0,
            envelope_decay_level: 0,
            enabled: false,
            output: 0,
        }
    }

    pub fn set_control(&mut self, value: u8)
        requires
            old(self).wf(),
        ensures
            *final(self) == old(self).after_control(value),
            final(self).wf(),
    {
        let d = (value >> 6) & 3;
        assert(d < 4) by (bit_vector)
            requires
                d == (value >> 6u8) & 3,
        ;
        self.duty_cycle = d;
        self.length_counter_halt = (value >> 5) & 1 != 0;
        self.constant_volume = (value >> 4) & 1 != 0;
        self.volume = value & 0x0F;
    }

    pub fn set_timer_low(&mut self, value: u8)
        ensures
            *final(self) == old(self).after_timer_low(value),
    {
        self.timer = (self.timer & 0xFF00) | value as u16;
    }

    pub fn set_timer_high(&mut self, value: u8)
        requires
            old(self).wf(),
        ensures
            *final(self) == old(self).after_timer_high(value),
            final(self).wf(),
    {
        let table: [u8; 32] = [
            10, 254, 20, 2, 40, 4, 80, 6, 160, 8, 60, 10, 14, 12, 26, 14, 12, 16, 24, 18, 48, 20, 96, 22,
            192, 24, 72, 26, 16, 28, 32, 30,
        ];
        assert(table@ == length_table());
        self.timer = (self.timer & 0x00FF) | ((value & 0x07) as u16) << 8;
        self.timer_value = self.timer;
        if self.enabled {
            let idx = ((value >> 3) & 0x1F) as usize;
            assert(idx < 32) by (bit_vector)
                requires
                    idx == ((value >> 3u8) & 0x1F) as usize,
            ;
            self.length_counter = table[idx];
        }
        self.duty_step = 0;
        self.envelope_start = true;
    }

    pub fn set_enabled(&mut self, enabled: bool)
        ensures
            *final(self) == old(self).after_enable(enabled),
    {
        self.enabled = enabled;
        if !enabled {
            self.length_counter = 0;
        }
    }

    pub fn write_register(&mut self, reg: u16, value: u8)
        requires
            old(self).wf(),
        ensures
            *final(self) == old(self).after_write(reg, value),
            final(self).wf(),
    {
        if reg == 0 {
            self.set_control(value);
        } else if reg == 2 {
            self.set_timer_low(value);
        } else if reg == 3 {
            self.set_timer_high(value);
        }
    }

    fn duty(duty: u8) -> (r: u8)
        ensures
            r == duty_pattern(duty),
    {
        if duty == 0 {
            0b01000000
        } else if duty == 1 {
            0b01100000
        } else if duty == 2 {
            0b01111000
        } else {
            0b10011111
        }
    }

    fn generate_output(&mut self)
        requires
            old(self).wf(),
        ensures
            *final(self) == (Mmc5Pulse { output: old(self).level(), ..*old(self) }),
    {
        if !self.enabled || self.length_counter == 0 {
            self.output = 0;
            return;
        }
        let pattern = Self::duty(self.duty_cycle);
        let duty_bit = (pattern >> (7 - self.duty_step)) & 1;
        if duty_bit == 0 {
            self.output = 0;
        } else {
            self.output = if self.constant_volume {
                self.volume
            } else {
                self.envelope_decay_level
            };
        }
    }

    pub fn cycle(&mut self)
        requires
            old(self).wf(),
        ensures
            *final(self) == old(self).after_cycle(),
            final(self).wf(),
    {
        if self.timer_value == 0 {
            self.timer_value = self.timer;
            self.duty_step = (self.duty_step + 1) % 8;
        } else {
            self.timer_value = self.timer_value - 1;
        }
        self.generate_output();
    }

    pub fn clock_envelope(&mut self)
        ensures
            *final(self) == old(self).after_envelope(),
    {
        if self.envelope_start {
            self.envelope_start = false;
            self.envelope_decay_level = 15;
            self.envelope_divider = self.volume;
        } else if self.envelope_divider == 0 {
            self.envelope_divider = self.volume;
            if self.envelope_decay_level > 0 {
                self.envelope_decay_level = self.envelope_decay_level - 1;
            } else if self.length_counter_halt {
                self.envelope_decay_level = 15;
            }
        } else {
            self.envelope_divider = self.envelope_divider - 1;
        }
    }

    pub fn clock_length_counter(&mut self)
        ensures
            *final(self) == old(self).after_length_clock(),
    {
        if !self.length_counter_halt && self.length_counter > 0 {
            self.length_counter = self.length_counter - 1;
        }
    }
}

pub struct MMC5Mapper {
    pub internal_ram: Vec<u8>,
    pub prg_rom: Vec<[u8; 8192]>,
    pub prg_ram: Vec<u8>,
    pub chr_rom: Vec<[u8; 1024]>,
    pub chr_ram: Option<Vec<u8>>,
    pub vram: Vec<u8>,
    pub exram: Vec<u8>,
    pub palette_ram: Vec<u8>,
    pub prg_mode: u8,
    /// $5113-$5117.
    pub prg_bank_regs: [u8; 5],
    pub ram_protect_1: u8,
    pub ram_protect_2: u8,
    pub chr_mode: u8,
    /// $5120-$5127.
    pub chr_bank_a: [u16; 8],
    /// $5128-$512B.
    pub chr_bank_b: [u16; 4],
    pub chr_upper_bits: u8,
    pub large_sprites: bool,
    pub last_chr_write_was_b: bool,
    pub nt_mapping: u8,
    pub fill_tile: u8,
    pub fill_color: u8,
    pub exram_mode: u8,
    pub irq_scanline: u8,
    pub irq_enabled: bool,
    pub irq_pending: bool,
    pub irq_pending_since_dot: u64,
    pub in_frame: bool,
    pub scanline_counter: u8,
    pub last_ppu_read_addr: u16,
    pub nt_read_counter: u8,
    pub last_ppu_fetch_dot: u64,
    pub multiplicand: u8,
    pub multiplier: u8,
    pub pulse1: Mmc5Pulse,
    pub pulse2: Mmc5Pulse,
    /// The last byte written to the PCM channel.
    pub pcm_output: u8,
    pub pcm_read_mode: bool,
    pub audio_half_clock: bool,
    pub audio_frame_counter: u16,
    pub vsplit_mode: u8,
    pub vsplit_scroll: u8,
    pub vsplit_bank: u8,
    pub exattr_fetch_counter: u8,
    pub exattr_nt_offset: u16,
    pub exattr_chr_bank: u16,
    pub controllers: [Controller; 2],
    pub has_battery: bool,
    /// Nametable tile fetches since the scanline began.
    pub split_tile_number: u8,
    pub need_in_frame: bool,
    /// Set by rendering fetches, cleared when the PPU goes idle.
    pub rendering: bool,
}

/// The board with its buffers taken by their contents.
pub struct Mmc5Model {
    pub internal_ram: Seq<u8>,
    pub prg_rom: Seq<[u8; 8192]>,
    pub prg_ram: Seq<u8>,
    pub chr_rom: Seq<[u8; 1024]>,
    pub chr_ram: Option<Seq<u8>>,
    pub vram: Seq<u8>,
    pub exram: Seq<u8>,
    pub palette_ram: Seq<u8>,
    pub prg_mode: u8,
    pub prg_bank_regs: Seq<u8>,
    pub ram_protect_1: u8,
    pub ram_protect_2: u8,
    pub chr_mode: u8,
    pub chr_bank_a: Seq<u16>,
    pub chr_bank_b: Seq<u16>,
    pub chr_upper_bits: u8,
    pub large_sprites: bool,
    pub last_chr_write_was_b: bool,
    pub nt_mapping: u8,
    pub fill_tile: u8,
    pub fill_color: u8,
    pub exram_mode: u8,
    pub irq_scanline: u8,
    pub irq_enabled: bool,
    pub irq_pending: bool,
    pub irq_pending_since_dot: u64,
    pub in_frame: bool,
    pub scanline_counter: u8,
    pub last_ppu_read_addr: u16,
    pub nt_read_counter: u8,
    pub last_ppu_fetch_dot: u64,
    pub multiplicand: u8,
    pub multiplier: u8,
    pub pulse1: Mmc5Pulse,
    pub pulse2: Mmc5Pulse,
    pub pcm_output: u8,
    pub pcm_read_mode: bool,
    pub audio_half_clock: bool,
    pub audio_frame_counter: u16,
    pub vsplit_mode: u8,
    pub vsplit_scroll: u8,
    pub vsplit_bank: u8,
    pub exattr_fetch_counter: u8,
    pub exattr_nt_offset: u16,
    pub exattr_chr_bank: u16,
    pub controllers: Seq<Controller>,
    pub has_battery: bool,
    pub split_tile_number: u8,
    pub need_in_frame: bool,
    pub rendering: bool,
}

impl View for MMC5Mapper {
    type V = Mmc5Model;

    open spec fn view(&self) -> Mmc5Model {
        Mmc5Model {
            internal_ram: self.internal_ram@,
            prg_rom: self.prg_rom@,
            prg_ram: self.prg_ram@,
            chr_rom: self.chr_rom@,
            chr_ram: match self.chr_ram {
                Some(r) => Some(r@),
                None => None,
            },
            vram: self.vram@,
            exram: self.exram@,
            palette_ram: self.palette_ram@,
            prg_mode: self.prg_mode,
            prg_bank_regs: self.prg_bank_regs@,
            ram_protect_1: self.ram_protect_1,
            ram_protect_2: self.ram_protect_2,
            chr_mode: self.chr_mode,
            chr_bank_a: self.chr_bank_a@,
            chr_bank_b: self.chr_bank_b@,
            chr_upper_bits: self.chr_upper_bits,
            large_sprites: self.large_sprites,
            last_chr_write_was_b: self.last_chr_write_was_b,
            nt_mapping: self.nt_mapping,
            fill_tile: self.fill_tile,
            fill_color: self.fill_color,
            exram_mode: self.exram_mode,
            irq_scanline: self.irq_scanline,
            irq_enabled: self.irq_enabled,
            irq_pending: self.irq_pending,
            irq_pending_since_dot: self.irq_pending_since_dot,
            in_frame: self.in_frame,
            scanline_counter: self.scanline_counter,
            last_ppu_read_addr: self.last_ppu_read_addr,
            nt_read_counter: self.nt_read_counter,
            last_ppu_fetch_dot: self.last_ppu_fetch_dot,
            multiplicand: self.multiplicand,
            multiplier: self.multiplier,
            pulse1: self.pulse1,
            pulse2: self.pulse2,
            pcm_output: self.pcm_output,
            pcm_read_mode: self.pcm_read_mode,
            audio_half_clock: self.audio_half_clock,
            audio_frame_counter: self.audio_frame_counter,
            vsplit_mode: self.vsplit_mode,
            vsplit_scroll: self.vsplit_scroll,
            vsplit_bank: self.vsplit_bank,
            exattr_fetch_counter: self.exattr_fetch_counter,
            exattr_nt_offset: self.exattr_nt_offset,
            exattr_chr_bank: self.exattr_chr_bank,
            controllers: self.controllers@,
            has_battery: self.has_battery,
            split_tile_number: self.split_tile_number,
            need_in_frame: self.need_in_frame,
            rendering: self.rendering,
        }
    }
}

/// Where a CPU access to $8000-$FFFF lands: a PRG ROM bank and offset, or
/// an offset into PRG RAM.
#[derive(Clone, Copy, Debug, PartialEq, Eq, Structural)]
pub enum PrgSource {
    Rom(usize, usize),
    Ram(usize),
}

/// The number of PRG banks that bank numbers wrap around (at least one).
pub open spec fn prg_count(m: Mmc5Model) -> int {
    if m.prg_rom.len() == 0 {
        1
    } else {
        m.prg_rom.len() as int
    }
}

/// A 16KB window at `off` into it: ROM when bit 7 of `reg` is set, RAM otherwise.
pub open spec fn window_16k(m: Mmc5Model, reg: u8, off: int) -> PrgSource {
    let n = prg_count(m);
    if reg & 0x80 != 0 {
        let bank = (reg & 0x7E) as int % n;
        PrgSource::Rom(((bank + off / 8192) % n) as usize, (off % 8192) as usize)
    } else {
        PrgSource::Ram(((reg & 0x0E) as int * 8192 + off) as usize)
    }
}

/// An 8KB window at `off` into it: ROM when bit 7 of `reg` is set, RAM otherwise.
pub open spec fn window_8k(m: Mmc5Model, reg: u8, off: int) -> PrgSource {
    let n = prg_count(m);
    if reg & 0x80 != 0 {
        PrgSource::Rom(((reg & 0x7F) as int % n) as usize, off as usize)
    } else {
        PrgSource::Ram(((reg & 0x07) as int * 8192 + off) as usize)
    }
}

/// Where a CPU access to `addr` in $8000-$FFFF lands in each PRG mode.
pub open spec fn prg_source(m: Mmc5Model, addr: u16) -> PrgSource {
    let n = prg_count(m);
    let a = addr as int;
    if m.prg_mode == 0 {
        let bank = (m.prg_bank_regs[4] & 0x7C) as int % n;
        let off = a - 0x8000;
        PrgSource::Rom(((bank + off / 8192) % n) as usize, (off % 8192) as usize)
    } else if m.prg_mode == 1 {
        if a < 0xC000 {
            window_16k(m, m.prg_bank_regs[2], a - 0x8000)
        } else {
            let bank = (m.prg_bank_regs[4] & 0x7E) as int % n;
            let off = a - 0xC000;
            PrgSource::Rom(((bank + off / 8192) % n) as usize, (off % 8192) as usize)
        }
    } else if m.prg_mode == 2 {
        if a < 0xC000 {
            window_16k(m, m.prg_bank_regs[2], a - 0x8000)
        } else if a < 0xE000 {
            window_8k(m, m.prg_bank_regs[3], a - 0xC000)
        } else {
            PrgSource::Rom(((m.prg_bank_regs[4] & 0x7F) as int % n) as usize, (a - 0xE000) as usize)
        }
    } else if m.prg_mode == 3 {
        if a < 0xA000 {
            window_8k(m, m.prg_bank_regs[1], a - 0x8000)
        } else if a < 0xC000 {
            window_8k(m, m.prg_bank_regs[2], a - 0xA000)
        } else if a < 0xE000 {
            window_8k(m, m.prg_bank_regs[3], a - 0xC000)
        } else {
            window_8k(m, m.prg_bank_regs[4], a - 0xE000)
        }
    } else {
        PrgSource::Rom(0, 0)
    }
}

/// The byte a CPU read of `addr` in $8000-$FFFF returns.
pub open spec fn prg_read(m: Mmc5Model, addr: u16) -> u8 {
    match prg_source(m, addr) {
        PrgSource::Rom(bank, off) => if bank < m.prg_rom.len() {
            m.prg_rom[bank as int][off as int]
        } else {
            0
        },
        PrgSource::Ram(off) => m.prg_ram[off as int % PRG_RAM_SIZE as int],
    }
}

/// Whether the second CHR bank set serves pattern fetches now.
pub open spec fn uses_bank_set_b(m: Mmc5Model) -> bool {
    if m.rendering {
        m.large_sprites && !(32 <= m.split_tile_number < 40) && m.in_frame
    } else {
        m.last_chr_write_was_b
    }
}

/// The 1KB CHR bank number that pattern address `a` ($0000-$1FFF) selects.
pub open spec fn chr_bank_index(m: Mmc5Model, a: int) -> int {
    let b = uses_bank_set_b(m);
    if m.chr_mode == 0 {
        let reg = if b {
            m.chr_bank_b[3]
        } else {
            m.chr_bank_a[7]
        };
        reg * 8 + a / 1024
    } else if m.chr_mode == 1 {
        let slot = a / 4096;
        let reg = if b {
            m.chr_bank_b[3]
        } else if slot == 0 {
            m.chr_bank_a[3]
        } else {
            m.chr_bank_a[7]
        };
        reg * 4 + (a % 4096) / 1024
    } else if m.chr_mode == 2 {
        let slot = a / 2048;
        let reg = if b {
            if slot % 2 == 0 {
                m.chr_bank_b[1]
            } else {
                m.chr_bank_b[3]
            }
        } else {
            m.chr_bank_a[2 * slot + 1]
        };
        reg * 2 + (a % 2048) / 1024
    } else if m.chr_mode == 3 {
        let slot = a / 1024;
        if b {
            m.chr_bank_b[slot % 4] as int
        } else {
            m.chr_bank_a[slot] as int
        }
    } else {
        0
    }
}

/// Offset into CHR (ROM banks laid end to end, or RAM) of pattern address `addr`.
pub open spec fn chr_offset(m: Mmc5Model, addr: u16) -> int {
    let a = (addr & 0x1FFF) as int;
    if m.chr_rom.len() > 0 {
        (chr_bank_index(m, a) % m.chr_rom.len() as int) * 1024 + a % 1024
    } else {
        a % 8192
    }
}

pub open spec fn read_chr(m: Mmc5Model, addr: u16) -> u8 {
    if m.chr_rom.len() > 0 {
        let r = chr_offset(m, addr);
        m.chr_rom[r / 1024][r % 1024]
    } else {
        match m.chr_ram {
            Some(ram) => {
                let a = (addr & 0x1FFF) as int;
                if a < ram.len() {
                    ram[a]
                } else {
                    0
                }
            },
            None => 0,
        }
    }
}

/// The source (0-3) that the nametable slot of `addr` is mapped to.
pub open spec fn nt_source(m: Mmc5Model, addr: u16) -> u8 {
    let slot = ((addr & 0x0FFF) / 0x400) as u8;
    (m.nt_mapping >> ((slot * 2) as u8)) & 3
}

/// A fill-mode attribute byte: the fill colour in all four quadrants.
pub open spec fn fill_attr(color: u8) -> u8 {
    let c = color & 3;
    c | (c << 2u8) | (c << 4u8) | (c << 6u8)
}

pub open spec fn read_nt(m: Mmc5Model, addr: u16) -> u8 {
    let off = (addr & 0x3FF) as int;
    let source = nt_source(m, addr);
    if source == 0 {
        m.vram[off]
    } else if source == 1 {
        m.vram[0x400 + off]
    } else if source == 2 {
        if m.exram_mode <= 1 {
            m.exram[off]
        } else {
            0
        }
    } else if off < 960 {
        m.fill_tile
    } else {
        fill_attr(m.fill_color)
    }
}

/// What a PPU read of `addr` returns.
pub open spec fn ppu_read_spec(m: Mmc5Model, addr: u16) -> u8 {
    let a = (addr % 0x4000) as u16;
    if a >= 0x3F00 {
        m.palette_ram[palette_slot(a)]
    } else if a < 0x2000 {
        read_chr(m, a)
    } else {
        read_nt(m, a)
    }
}

/// The board after a PPU write of `value` to `addr`.
pub open spec fn ppu_write_spec(m: Mmc5Model, addr: u16, value: u8) -> Mmc5Model {
    let a = (addr % 0x4000) as u16;
    if a >= 0x3F00 {
        Mmc5Model { palette_ram: m.palette_ram.update(palette_slot(a), value), ..m }
    } else if a < 0x2000 {
        match m.chr_ram {
            Some(ram) => {
                let i = (a & 0x1FFF) as int;
                if i < ram.len() {
                    Mmc5Model { chr_ram: Some(ram.update(i, value)), ..m }
                } else {
                    m
                }
            },
            None => m,
        }
    } else {
        let off = (a & 0x3FF) as int;
        let source = nt_source(m, a);
        if source == 0 {
            Mmc5Model { vram: m.vram.update(off, value), ..m }
        } else if source == 1 {
            Mmc5Model { vram: m.vram.update(0x400 + off, value), ..m }
        } else if source == 2 && m.exram_mode <= 1 {
            Mmc5Model { exram: m.exram.update(off, value), ..m }
        } else {
            m
        }
    }
}

impl MMC5Mapper {
    pub open spec fn wf(&self) -> bool {
        &&& self.internal_ram@.len() == INTERNAL_RAM_SIZE
        &&& self.prg_ram@.len() == PRG_RAM_SIZE
        &&& self.vram@.len() == VRAM_SIZE
        &&& self.exram@.len() == EXRAM_SIZE
        &&& self.palette_ram@.len() == PALETTE_SIZE
        &&& (self.chr_ram matches Some(r) ==> r@.len() == CHR_RAM_SIZE)
        &&& self.pulse1.wf()
        &&& self.pulse2.wf()
        &&& self.audio_frame_counter < AUDIO_FRAME_LENGTH
        &&& self.prg_rom@.len() + 4 <= usize::MAX
        &&& self.chr_rom@.len() * 1024 <= usize::MAX
    }

    /// What `new` builds from its arguments.
    pub open spec fn built_by_new(flags: u8, prg_banks_16k: Vec<[u8; 16384]>, chr_banks_8k: Vec<[u8; 8192]>, has_battery: bool, sram_data: Option<Vec<u8>>, m: MMC5Mapper) -> bool {
        &&& (m.wf())
        &&& (m.prg_rom@.len() == 2 * prg_banks_16k@.len())
        &&& (forall|i: int| 0 <= i < m.prg_rom@.len() ==> #[trigger] m.prg_rom@[i]@ == prg_banks_16k@[i / 2]@.subrange(
                (i % 2) * 8192,
                (i % 2) * 8192 + 8192,
            ))
        &&& (m.chr_rom@.len() == 8 * chr_banks_8k@.len())
        &&& (forall|i: int| 0 <= i < m.chr_rom@.len() ==> #[trigger] m.chr_rom@[i]@ == chr_banks_8k@[i / 8]@.subrange(
                (i % 8) * 1024,
                (i % 8) * 1024 + 1024,
            ))
        &&& ((m.chr_ram is Some) == (chr_banks_8k@.len() == 0))
        &&& (m.chr_ram matches Some(r) ==> r@ == Seq::new(CHR_RAM_SIZE as nat, |i: int| 0u8))
        &&& (forall|i: int| 0 <= i < PRG_RAM_SIZE ==> #[trigger] m.prg_ram@[i] == (match sram_data {
                Some(d) => if i < d@.len() { d@[i] } else { 0u8 },
                None => 0u8,
            }))
        &&& (m.internal_ram@ == Seq::new(INTERNAL_RAM_SIZE as nat, |i: int| 0u8))
        &&& (m.vram@ == Seq::new(VRAM_SIZE as nat, |i: int| 0u8))
        &&& (m.exram@ == Seq::new(EXRAM_SIZE as nat, |i: int| 0u8))
        &&& (m.palette_ram@ == Seq::new(PALETTE_SIZE as nat, |i: int| 0x0Fu8))
        &&& (m.prg_mode == 3)
        &&& (m.prg_bank_regs@ == seq![0u8, 0, 0, 0, (if m.prg_rom@.len() == 0 { 0u8 } else { ((m.prg_rom@.len() - 1) as u8) }) | 0x80])
        &&& (m.has_battery == has_battery)
        &&& (m.pulse1 == Mmc5Pulse::new_spec() && m.pulse2 == Mmc5Pulse::new_spec())
        &&& (m.chr_mode == 0 && m.nt_mapping == 0 && m.exram_mode == 0 && !m.in_frame && !m.irq_pending)
        &&& (m.chr_bank_a@ == seq![0u16, 0, 0, 0, 0, 0, 0, 0] && m.chr_bank_b@ == seq![0u16, 0, 0, 0])
    }

    /// Splits the ROM into 8KB PRG and 1KB CHR banks; without CHR ROM the
    /// board gets 8KB of CHR RAM. PRG mode 3 with the last bank at $E000.
    pub fn new(flags: u8, prg_banks_16k: Vec<[u8; 16384]>, chr_banks_8k: Vec<[u8; 8192]>, has_battery: bool, sram_data: Option<Vec<u8>>) -> (m: MMC5Mapper)
        requires
            2 * prg_banks_16k@.len() + 4 <= usize::MAX,
            8192 * chr_banks_8k@.len() <= usize::MAX,
        ensures
            m.wf(),
            m.prg_rom@.len() == 2 * prg_banks_16k@.len(),
            forall|i: int| 0 <= i < m.prg_rom@.len() ==> #[trigger] m.prg_rom@[i]@ == prg_banks_16k@[i / 2]@.subrange(
                (i % 2) * 8192,
                (i % 2) * 8192 + 8192,
            ),
            m.chr_rom@.len() == 8 * chr_banks_8k@.len(),
            forall|i: int| 0 <= i < m.chr_rom@.len() ==> #[trigger] m.chr_rom@[i]@ == chr_banks_8k@[i / 8]@.subrange(
                (i % 8) * 1024,
                (i % 8) * 1024 + 1024,
            ),
            (m.chr_ram is Some) == (chr_banks_8k@.len() == 0),
            m.chr_ram matches Some(r) ==> r@ == Seq::new(CHR_RAM_SIZE as nat, |i: int| 0u8),
            forall|i: int| 0 <= i < PRG_RAM_SIZE ==> #[trigger] m.prg_ram@[i] == (match sram_data {
                Some(d) => if i < d@.len() { d@[i] } else { 0u8 },
                None => 0u8,
            }),
            m.internal_ram@ == Seq::new(INTERNAL_RAM_SIZE as nat, |i: int| 0u8),
            m.vram@ == Seq::new(VRAM_SIZE as nat, |i: int| 0u8),
            m.exram@ == Seq::new(EXRAM_SIZE as nat, |i: int| 0u8),
            m.palette_ram@ == Seq::new(PALETTE_SIZE as nat, |i: int| 0x0Fu8),
            m.prg_mode == 3,
            m.prg_bank_regs@ == seq![0u8, 0, 0, 0, (if m.prg_rom@.len() == 0 { 0u8 } else { ((m.prg_rom@.len() - 1) as u8) }) | 0x80],
            m.has_battery == has_battery,
            m.pulse1 == Mmc5Pulse::new_spec() && m.pulse2 == Mmc5Pulse::new_spec(),
            m.chr_mode == 0 && m.nt_mapping == 0 && m.exram_mode == 0 && !m.in_frame && !m.irq_pending,
            m.chr_bank_a@ == seq![0u16, 0, 0, 0, 0, 0, 0, 0] && m.chr_bank_b@ == seq![0u16, 0, 0, 0],
            Self::built_by_new(flags, prg_banks_16k, chr_banks_8k, has_battery, sram_data, m),
    {
        let prg_rom = crate::mapper::common::split_16k_to_8k(&prg_banks_16k);
        let chr_rom = crate::mapper::common::split_8k_to_1k(&chr_banks_8k);
        let chr_ram = if chr_rom.len() == 0 {
            Some(zeroed(CHR_RAM_SIZE))
        } else {
            None
        };
        let prg_ram = crate::mapper::common::ram_with_saved(PRG_RAM_SIZE, &sram_data);
        let l = prg_rom.len();
        let last_prg_bank: u8 = if l == 0 {
            0
        } else {
            ((l - 1) % 256) as u8
        };
        assert(l > 0 ==> ((l - 1) % 256) as u8 == ((l - 1) as u8)) by (bit_vector);
        let m = MMC5Mapper {
            internal_ram: zeroed(INTERNAL_RAM_SIZE),
            prg_rom,
            prg_ram,
            chr_rom,
            chr_ram,
            vram: zeroed(VRAM_SIZE),
            exram: zeroed(EXRAM_SIZE),
            palette_ram: filled(PALETTE_SIZE, 0x0F),
            prg_mode: 3,
            prg_bank_regs: [0, 0, 0, 0, last_prg_bank | 0x80],
            ram_protect_1: 0,
            ram_protect_2: 0,
            chr_mode: 0,
            chr_bank_a: [0; 8],
            chr_bank_b: [0; 4],
            chr_upper_bits: 0,
            large_sprites: false,
            last_chr_write_was_b: false,
            nt_mapping: 0,
            fill_tile: 0,
            fill_color: 0,
            exram_mode: 0,
            irq_scanline: 0,
            irq_enabled: false,
            irq_pending: false,
            irq_pending_since_dot: 0,
            in_frame: false,
            scanline_counter: 0,
            last_ppu_read_addr: 0,
            nt_read_counter: 0,
            last_ppu_fetch_dot: 0,
            multiplicand: 0,
            multiplier: 0,
            pulse1: Mmc5Pulse::new(),
            pulse2: Mmc5Pulse::new(),
            pcm_output: 0,
            pcm_read_mode: false,
            audio_half_clock: false,
            audio_frame_counter: 0,
            vsplit_mode: 0,
            vsplit_scroll: 0,
            vsplit_bank: 0,
            exattr_fetch_counter: 0,
            exattr_nt_offset: 0,
            exattr_chr_bank: 0,
            controllers: new_controllers(),
            has_battery,
            split_tile_number: 0,
            need_in_frame: false,
            rendering: false,
        };
        assert(m.prg_bank_regs@ == seq![0u8, 0, 0, 0, last_prg_bank | 0x80]);
        assert(m.chr_bank_a@ == seq![0u16, 0, 0, 0, 0, 0, 0, 0]);
        assert(m.chr_bank_b@ == seq![0u16, 0, 0, 0]);
        m
    }

    fn ram_writes_enabled(&self) -> (r: bool)
        ensures
            r == (self.ram_protect_1 == 0x02 && self.ram_protect_2 == 0x01),
    {
        self.ram_protect_1 == 0x02 && self.ram_protect_2 == 0x01
    }

    fn window_16k_exec(&self, reg: u8, off: usize) -> (r: PrgSource)
        requires
            self.wf(),
            off < 0x4000,
        ensures
            r == window_16k(self@, reg, off as int),
    {
        let n = if self.prg_rom.len() == 0 {
            1
        } else {
            self.prg_rom.len()
        };
        if reg & 0x80 != 0 {
            let bank = ((reg & 0x7E) as usize) % n;
            PrgSource::Rom((bank + off / 8192) % n, off % 8192)
        } else {
            PrgSource::Ram(((reg & 0x0E) as usize) * 8192 + off)
        }
    }

    fn window_8k_exec(&self, reg: u8, off: usize) -> (r: PrgSource)
        requires
            off < 0x2000,
        ensures
            r == window_8k(self@, reg, off as int),
    {
        let n = if self.prg_rom.len() == 0 {
            1
        } else {
            self.prg_rom.len()
        };
        if reg & 0x80 != 0 {
            PrgSource::Rom(((reg & 0x7F) as usize) % n, off)
        } else {
            PrgSource::Ram(((reg & 0x07) as usize) * 8192 + off)
        }
    }

    fn resolve_prg_addr(&self, addr: u16) -> (r: PrgSource)
        requires
            self.wf(),
            addr >= 0x8000,
        ensures
            r == prg_source(self@, addr),
    {
        let n = if self.prg_rom.len() == 0 {
            1
        } else {
            self.prg_rom.len()
        };
        let a = addr as usize;
        if self.prg_mode == 0 {
            let bank = ((self.prg_bank_regs[4] & 0x7C) as usize) % n;
            let off = a - 0x8000;
            PrgSource::Rom((bank + off / 8192) % n, off % 8192)
        } else if self.prg_mode == 1 {
            if a < 0xC000 {
                self.window_16k_exec(self.prg_bank_regs[2], a - 0x8000)
            } else {
                let bank = ((self.prg_bank_regs[4] & 0x7E) as usize) % n;
                let off = a - 0xC000;
                PrgSource::Rom((bank + off / 8192) % n, off % 8192)
            }
        } else if self.prg_mode == 2 {
            if a < 0xC000 {
                self.window_16k_exec(self.prg_bank_regs[2], a - 0x8000)
            } else if a < 0xE000 {
                self.window_8k_exec(self.prg_bank_regs[3], a - 0xC000)
            } else {
                PrgSource::Rom(((self.prg_bank_regs[4] & 0x7F) as usize) % n, a - 0xE000)
            }
        } else if self.prg_mode == 3 {
            if a < 0xA000 {
                self.window_8k_exec(self.prg_bank_regs[1], a - 0x8000)
            } else if a < 0xC000 {
                self.window_8k_exec(self.prg_bank_regs[2], a - 0xA000)
            } else if a < 0xE000 {
                self.window_8k_exec(self.prg_bank_regs[3], a - 0xC000)
            } else {
                self.window_8k_exec(self.prg_bank_regs[4], a - 0xE000)
            }
        } else {
            PrgSource::Rom(0, 0)
        }
    }

    fn read_prg(&self, addr: u16) -> (r: u8)
        requires
            self.wf(),
            addr >= 0x8000,
        ensures
            r == prg_read(self@, addr),
    {
        match self.resolve_prg_addr(addr) {
            PrgSource::Rom(bank, off) => {
                if bank < self.prg_rom.len() {
                    proof {
                        lemma_rom_offset(self@, addr);
                    }
                    self.prg_rom[bank][off]
                } else {
                    0
                }
            },
            PrgSource::Ram(off) => self.prg_ram[off % PRG_RAM_SIZE],
        }
    }

    fn use_b(&self) -> (r: bool)
        ensures
            r == uses_bank_set_b(self@),
    {
        if self.rendering {
            self.large_sprites && !(self.split_tile_number >= 32 && self.split_tile_number < 40) && self.in_frame
        } else {
            self.last_chr_write_was_b
        }
    }

    fn resolve_chr_addr(&self, addr: u16) -> (r: usize)
        requires
            self.wf(),
        ensures
            r as int == chr_offset(self@, addr),
    {
        let a = (addr & 0x1FFF) as usize;
        proof {
            lemma_addr_masks(addr);
        }
        let b = self.use_b();
        let bank_index: usize = if self.chr_mode == 0 {
            let reg = if b {
                self.chr_bank_b[3]
            } else {
                self.chr_bank_a[7]
            };
            (reg as usize) * 8 + a / 1024
        } else if self.chr_mode == 1 {
            let slot = a / 4096;
            let reg = if b {
                self.chr_bank_b[3]
            } else if slot == 0 {
                self.chr_bank_a[3]
            } else {
                self.chr_bank_a[7]
            };
            (reg as usize) * 4 + (a % 4096) / 1024
        } else if self.chr_mode == 2 {
            let slot = a / 2048;
            let reg = if b {
                if slot % 2 == 0 {
                    self.chr_bank_b[1]
                } else {
                    self.chr_bank_b[3]
                }
            } else {
                self.chr_bank_a[2 * slot + 1]
            };
            (reg as usize) * 2 + (a % 2048) / 1024
        } else if self.chr_mode == 3 {
            let slot = a / 1024;
            if b {
                self.chr_bank_b[slot % 4] as usize
            } else {
                self.chr_bank_a[slot] as usize
            }
        } else {
            0
        };
        if self.chr_rom.len() > 0 {
            let k = bank_index % self.chr_rom.len();
            assert(k * 1024 + 1023 < self.chr_rom@.len() * 1024) by (nonlinear_arith)
                requires
                    k < self.chr_rom@.len(),
            ;
            k * 1024 + a % 1024
        } else {
            a % 8192
        }
    }

    fn read_chr(&self, addr: u16) -> (r: u8)
        requires
            self.wf(),
        ensures
            r == read_chr(self@, addr),
    {
        if self.chr_rom.len() > 0 {
            let resolved = self.resolve_chr_addr(addr);
            proof {
                lemma_chr_offset(self@, addr);
            }
            self.chr_rom[resolved / 1024][resolved % 1024]
        } else {
            match &self.chr_ram {
                Some(ram) => {
                    let a = (addr & 0x1FFF) as usize;
                    if a < ram.len() {
                        ram[a]
                    } else {
                        0
                    }
                },
                None => 0,
            }
        }
    }

    fn nt_source_of(&self, addr: u16) -> (r: u8)
        ensures
            r == nt_source(self@, addr),
            r < 4,
    {
        let slot = ((addr & 0x0FFF) / 0x400) as u8;
        assert(slot < 4) by (bit_vector)
            requires
                slot == ((addr & 0x0FFF) / 0x400) as u8,
        ;
        let nt = self.nt_mapping;
        let r = (nt >> (slot * 2)) & 3;
        assert(r < 4) by (bit_vector)
            requires
                r == (nt >> (slot * 2)) & 3u8,
        ;
        r
    }

    fn read_nametable(&self, addr: u16) -> (r: u8)
        requires
            self.wf(),
        ensures
            r == read_nt(self@, addr),
    {
        let off = (addr & 0x3FF) as usize;
        proof {
            lemma_addr_masks(addr);
        }
        let source = self.nt_source_of(addr);
        if source == 0 {
            self.vram[off]
        } else if source == 1 {
            self.vram[0x400 + off]
        } else if source == 2 {
            if self.exram_mode <= 1 {
                self.exram[off]
            } else {
                0
            }
        } else if off < 960 {
            self.fill_tile
        } else {
            let c = self.fill_color & 3;
            c | (c << 2) | (c << 4) | (c << 6)
        }
    }

    pub fn ppu_read(&self, addr: u16) -> (r: u8)
        requires
            self.wf(),
        ensures
            r == ppu_read_spec(self@, addr),
    {
        let a = addr % 0x4000;
        if a >= 0x3F00 {
            self.palette_ram[palette_index(a)]
        } else if a < 0x2000 {
            self.read_chr(a)
        } else {
            self.read_nametable(a)
        }
    }

    fn write_chr_ram(&mut self, a: u16, value: u8)
        requires
            old(self).wf(),
            a < 0x2000,
        ensures
            final(self).wf(),
            final(self)@ == ppu_write_spec(old(self)@, a, value),
    {
        let i = (a & 0x1FFF) as usize;
        let taken = self.chr_ram.take();
        match taken {
            Some(mut ram) => {
                if i < ram.len() {
                    ram.set(i, value);
                }
                self.chr_ram = Some(ram);
            },
            None => {},
        }
    }

    fn write_nametable(&mut self, a: u16, value: u8)
        requires
            old(self).wf(),
            0x2000 <= a < 0x3F00,
        ensures
            final(self).wf(),
            final(self)@ == ppu_write_spec(old(self)@, a, value),
    {
        let off = (a & 0x3FF) as usize;
        proof {
            lemma_addr_masks(a);
        }
        let source = self.nt_source_of(a);
        if source == 0 {
            self.vram.set(off, value);
        } else if source == 1 {
            self.vram.set(0x400 + off, value);
        } else if source == 2 && self.exram_mode <= 1 {
            self.exram.set(off, value);
        }
    }

    pub fn ppu_write(&mut self, addr: u16, value: u8)
        requires
            old(self).wf(),
        ensures
            final(self).wf(),
            final(self)@ == ppu_write_spec(old(self)@, addr, value),
    {
        let a = addr % 0x4000;
        if a >= 0x3F00 {
            let i = palette_index(a);
            self.palette_ram.set(i, value);
        } else if a < 0x2000 {
            self.write_chr_ram(a, value);
        } else {
            self.write_nametable(a, value);
        }
    }
}

/// A ROM source always names an offset inside an 8KB bank.
proof fn lemma_rom_offset(m: Mmc5Model, addr: u16)
    requires
        addr >= 0x8000,
    ensures
        prg_source(m, addr) matches PrgSource::Rom(_, off) ==> off < 8192,
{
}

/// The address masks the board applies keep what they select.
proof fn lemma_addr_masks(addr: u16)
    by (bit_vector)
    ensures
        addr & 0x07FF == addr % 0x800,
        addr & 0x1FFF == addr % 0x2000,
        addr & 0x1FFF <= 0x1FFF,
        addr & 0x3FF <= 0x3FF,
{
}

/// A CHR ROM offset names a byte of a bank that exists.
proof fn lemma_chr_offset(m: Mmc5Model, addr: u16)
    requires
        m.chr_rom.len() > 0,
    ensures
        0 <= chr_offset(m, addr) < m.chr_rom.len() * 1024,
{
    let a16 = addr & 0x1FFF;
    lemma_addr_masks(addr);
    let a = a16 as int;
    let k = chr_bank_index(m, a) % m.chr_rom.len() as int;
    assert(0 <= k < m.chr_rom.len());
    assert(k * 1024 + a % 1024 < m.chr_rom.len() * 1024) by (nonlinear_arith)
        requires
            0 <= k < m.chr_rom.len(),
            0 <= a % 1024 < 1024,
    ;
    assert(0 <= k * 1024) by (nonlinear_arith)
        requires 0 <= k;
}

/// The 16-bit product of the multiplier registers.
pub open spec fn product(m: Mmc5Model) -> int {
    m.multiplicand as int * m.multiplier as int
}

/// Offset into PRG RAM of a CPU access to `addr` in $6000-$7FFF.
pub open spec fn low_ram_offset(m: Mmc5Model, addr: u16) -> int {
    ((m.prg_bank_regs[0] & 0x07) as int * 8192 + (addr as int - 0x6000)) % PRG_RAM_SIZE as int
}

/// What a CPU read of `addr` returns.
pub open spec fn cpu_read_value(m: Mmc5Model, addr: u16) -> u8 {
    let a = addr as int;
    if a < 0x2000 {
        m.internal_ram[a % 0x800]
    } else if a == 0x5015 {
        (if m.pulse1.length_counter > 0 { 1u8 } else { 0u8 }) | (if m.pulse2.length_counter > 0 { 2u8 } else { 0u8 })
    } else if a == 0x5105 {
        m.nt_mapping
    } else if a == 0x5204 {
        (if m.irq_pending { 0x80u8 } else { 0u8 }) | (if m.in_frame { 0x40u8 } else { 0u8 })
    } else if a == 0x5205 {
        (product(m) % 256) as u8
    } else if a == 0x5206 {
        (product(m) / 256) as u8
    } else if 0x5C00 <= a <= 0x5FFF {
        if m.exram_mode >= 2 {
            m.exram[a - 0x5C00]
        } else {
            0
        }
    } else if 0x6000 <= a <= 0x7FFF {
        m.prg_ram[low_ram_offset(m, addr)]
    } else if a >= 0x8000 {
        prg_read(m, addr)
    } else {
        0
    }
}

/// The board after a CPU read of `addr`: reading the IRQ status acknowledges
/// the IRQ, and fetching the NMI vector ends the frame.
pub open spec fn cpu_read_state(m: Mmc5Model, addr: u16) -> Mmc5Model {
    if addr == 0x5204 {
        Mmc5Model { irq_pending: false, ..m }
    } else if addr == 0xFFFA || addr == 0xFFFB {
        Mmc5Model {
            in_frame: false,
            need_in_frame: false,
            last_ppu_read_addr: 0,
            scanline_counter: 0,
            irq_pending: false,
            ..m
        }
    } else {
        m
    }
}

/// A CHR bank register value: the written byte with the upper bits from $5130.
pub open spec fn chr_reg_value(m: Mmc5Model, value: u8) -> u16 {
    (value as u16) | ((m.chr_upper_bits as u16) << 8u16)
}

/// The board after a write to the audio registers $5000-$5015.
pub open spec fn audio_write(m: Mmc5Model, addr: u16, value: u8) -> Mmc5Model {
    if 0x5000 <= addr <= 0x5003 {
        Mmc5Model { pulse1: m.pulse1.after_write((addr - 0x5000) as u16, value), ..m }
    } else if 0x5004 <= addr <= 0x5007 {
        Mmc5Model { pulse2: m.pulse2.after_write((addr - 0x5004) as u16, value), ..m }
    } else if addr == 0x5010 {
        Mmc5Model { pcm_read_mode: value & 0x01 != 0, ..m }
    } else if addr == 0x5011 {
        if !m.pcm_read_mode && value != 0 {
            Mmc5Model { pcm_output: value, ..m }
        } else {
            m
        }
    } else if addr == 0x5015 {
        Mmc5Model {
            pulse1: m.pulse1.after_enable(value & 0x01 != 0),
            pulse2: m.pulse2.after_enable(value & 0x02 != 0),
            ..m
        }
    } else {
        m
    }
}

/// The board after a write to the banking registers $5100-$5130.
pub open spec fn bank_write(m: Mmc5Model, addr: u16, value: u8) -> Mmc5Model {
    let a = addr as int;
    if a == 0x5100 {
        Mmc5Model { prg_mode: value & 3, ..m }
    } else if a == 0x5101 {
        Mmc5Model { chr_mode: value & 3, ..m }
    } else if a == 0x5102 {
        Mmc5Model { ram_protect_1: value & 3, ..m }
    } else if a == 0x5103 {
        Mmc5Model { ram_protect_2: value & 3, ..m }
    } else if a == 0x5104 {
        Mmc5Model { exram_mode: value & 3, ..m }
    } else if a == 0x5105 {
        Mmc5Model { nt_mapping: value, ..m }
    } else if a == 0x5106 {
        Mmc5Model { fill_tile: value, ..m }
    } else if a == 0x5107 {
        Mmc5Model { fill_color: value & 3, ..m }
    } else if 0x5113 <= a <= 0x5116 {
        Mmc5Model { prg_bank_regs: m.prg_bank_regs.update(a - 0x5113, value), ..m }
    } else if a == 0x5117 {
        Mmc5Model { prg_bank_regs: m.prg_bank_regs.update(4, value | 0x80), ..m }
    } else if 0x5120 <= a <= 0x5127 {
        Mmc5Model {
            chr_bank_a: m.chr_bank_a.update(a - 0x5120, chr_reg_value(m, value)),
            last_chr_write_was_b: false,
            ..m
        }
    } else if 0x5128 <= a <= 0x512B {
        Mmc5Model {
            chr_bank_b: m.chr_bank_b.update(a - 0x5128, chr_reg_value(m, value)),
            last_chr_write_was_b: true,
            ..m
        }
    } else if a == 0x5130 {
        Mmc5Model { chr_upper_bits: value & 3, ..m }
    } else {
        m
    }
}

/// The board after a write to the split, IRQ and multiplier registers
/// $5200-$5206.
pub open spec fn misc_write(m: Mmc5Model, addr: u16, value: u8) -> Mmc5Model {
    if addr == 0x5200 {
        Mmc5Model { vsplit_mode: value, ..m }
    } else if addr == 0x5201 {
        Mmc5Model { vsplit_scroll: value, ..m }
    } else if addr == 0x5202 {
        Mmc5Model { vsplit_bank: value, ..m }
    } else if addr == 0x5203 {
        Mmc5Model { irq_scanline: value, ..m }
    } else if addr == 0x5204 {
        Mmc5Model { irq_enabled: value & 0x80 != 0, ..m }
    } else if addr == 0x5205 {
        Mmc5Model { multiplicand: value, ..m }
    } else if addr == 0x5206 {
        Mmc5Model { multiplier: value, ..m }
    } else {
        m
    }
}

/// The board after a CPU write of `value` to `addr`.
pub open spec fn cpu_write_spec(m: Mmc5Model, addr: u16, value: u8) -> Mmc5Model {
    let a = addr as int;
    let ram_ok = m.ram_protect_1 == 0x02 && m.ram_protect_2 == 0x01;
    if a < 0x2000 {
        Mmc5Model { internal_ram: m.internal_ram.update(a % 0x800, value), ..m }
    } else if 0x5000 <= a <= 0x5015 {
        audio_write(m, addr, value)
    } else if 0x5100 <= a <= 0x5130 {
        bank_write(m, addr, value)
    } else if 0x5200 <= a <= 0x5206 {
        misc_write(m, addr, value)
    } else if 0x5C00 <= a <= 0x5FFF {
        if m.exram_mode <= 1 {
            Mmc5Model { exram: m.exram.update(a - 0x5C00, if m.in_frame { value } else { 0 }), ..m }
        } else if m.exram_mode == 2 {
            Mmc5Model { exram: m.exram.update(a - 0x5C00, value), ..m }
        } else {
            m
        }
    } else if 0x6000 <= a <= 0x7FFF {
        if ram_ok {
            Mmc5Model { prg_ram: m.prg_ram.update(low_ram_offset(m, addr), value), ..m }
        } else {
            m
        }
    } else if a >= 0x8000 {
        match prg_source(m, addr) {
            PrgSource::Ram(off) => if ram_ok {
                Mmc5Model { prg_ram: m.prg_ram.update(off as int % PRG_RAM_SIZE as int, value), ..m }
            } else {
                m
            },
            PrgSource::Rom(_, _) => m,
        }
    } else {
        m
    }
}

/// The board after one CPU cycle at PPU dot `dot`: nine idle PPU dots end
/// the frame, the pulses tick, and the 240Hz sequencer clocks envelopes
/// and length counters.
pub open spec fn cpu_cycle_spec(m: Mmc5Model, dot: u64) -> Mmc5Model {
    let m1 = if m.last_ppu_fetch_dot > 0 && dot >= m.last_ppu_fetch_dot + 9 && m.in_frame {
        Mmc5Model { in_frame: false, rendering: false, nt_read_counter: 0, last_ppu_read_addr: 0, ..m }
    } else {
        m
    };
    let p1 = m1.pulse1.after_cycle();
    let p2 = m1.pulse2.after_cycle();
    let c = m1.audio_frame_counter + 1;
    let tick = c == 3729 || c == 7457 || c == 11186 || c >= 14915;
    Mmc5Model {
        pulse1: if tick { p1.after_envelope().after_length_clock() } else { p1 },
        pulse2: if tick { p2.after_envelope().after_length_clock() } else { p2 },
        audio_frame_counter: if c >= 14915 { 0 } else { c as u16 },
        ..m1
    }
}

/// The board after the PPU mask register is written.
pub open spec fn notify_mask_spec(m: Mmc5Model, value: u8) -> Mmc5Model {
    if value & 0x18 == 0 {
        Mmc5Model { in_frame: false, irq_pending: false, scanline_counter: 0, last_ppu_read_addr: 0, nt_read_counter: 0, ..m }
    } else {
        m
    }
}

impl MMC5Mapper {
    fn read_register(&self, addr: u16) -> (r: u8)
        requires
            self.wf(),
            0x2000 <= addr < 0x6000,
        ensures
            r == cpu_read_value(self@, addr),
    {
        if addr == 0x5015 {
            let a: u8 = if self.pulse1.length_counter > 0 {
                1
            } else {
                0
            };
            let b: u8 = if self.pulse2.length_counter > 0 {
                2
            } else {
                0
            };
            a | b
        } else if addr == 0x5105 {
            self.nt_mapping
        } else if addr == 0x5204 {
            let a: u8 = if self.irq_pending {
                0x80
            } else {
                0
            };
            let b: u8 = if self.in_frame {
                0x40
            } else {
                0
            };
            a | b
        } else if addr == 0x5205 || addr == 0x5206 {
            let a = self.multiplicand as u16;
            let b = self.multiplier as u16;
            assert(a * b <= 255 * 255) by (nonlinear_arith)
                requires
                    a <= 255,
                    b <= 255,
            ;
            let p = a * b;
            if addr == 0x5205 {
                (p % 256) as u8
            } else {
                (p / 256) as u8
            }
        } else if addr >= 0x5C00 {
            if self.exram_mode >= 2 {
                self.exram[(addr - 0x5C00) as usize]
            } else {
                0
            }
        } else {
            0
        }
    }

    /// A CPU read. Reading $5204 acknowledges the IRQ; fetching the NMI
    /// vector ends the frame.
    pub fn cpu_read(&mut self, addr: u16) -> (r: u8)
        requires
            old(self).wf(),
        ensures
            final(self).wf(),
            r == cpu_read_value(old(self)@, addr),
            final(self)@ == cpu_read_state(old(self)@, addr),
    {
        if addr < 0x2000 {
            proof {
                lemma_addr_masks(addr);
            }
            self.internal_ram[(addr & 0x07FF) as usize]
        } else if addr < 0x6000 {
            let r = self.read_register(addr);
            if addr == 0x5204 {
                self.irq_pending = false;
            }
            r
        } else if addr < 0x8000 {
            let ram_bank = (self.prg_bank_regs[0] & 0x07) as usize;
            let offset = (addr - 0x6000) as usize;
            self.prg_ram[(ram_bank * 8192 + offset) % PRG_RAM_SIZE]
        } else {
            let r = self.read_prg(addr);
            if addr == 0xFFFA || addr == 0xFFFB {
                self.in_frame = false;
                self.need_in_frame = false;
                self.last_ppu_read_addr = 0;
                self.scanline_counter = 0;
                self.irq_pending = false;
            }
            r
        }
    }

    /// The byte a CPU read would return, without its side effects.
    pub fn cpu_peek(&self, addr: u16) -> (r: u8)
        requires
            self.wf(),
        ensures
            r == cpu_read_value(self@, addr),
    {
        if addr < 0x2000 {
            proof {
                lemma_addr_masks(addr);
            }
            self.internal_ram[(addr & 0x07FF) as usize]
        } else if addr < 0x6000 {
            self.read_register(addr)
        } else if addr < 0x8000 {
            let ram_bank = (self.prg_bank_regs[0] & 0x07) as usize;
            let offset = (addr - 0x6000) as usize;
            self.prg_ram[(ram_bank * 8192 + offset) % PRG_RAM_SIZE]
        } else {
            self.read_prg(addr)
        }
    }

    #[verifier::spinoff_prover]
    #[verifier::rlimit(60)]
    fn write_audio(&mut self, addr: u16, value: u8)
        requires
            old(self).wf(),
        ensures
            final(self).wf(),
            final(self)@ == audio_write(old(self)@, addr, value),
    {
        if 0x5000 <= addr && addr <= 0x5003 {
            self.pulse1.write_register(addr - 0x5000, value);
        } else if 0x5004 <= addr && addr <= 0x5007 {
            self.pulse2.write_register(addr - 0x5004, value);
        } else if addr == 0x5010 {
            self.pcm_read_mode = value & 0x01 != 0;
        } else if addr == 0x5011 {
            if !self.pcm_read_mode && value != 0 {
                self.pcm_output = value;
            }
        } else if addr == 0x5015 {
            self.pulse1.set_enabled(value & 0x01 != 0);
            self.pulse2.set_enabled(value & 0x02 != 0);
        }
    }

    #[verifier::spinoff_prover]
    #[verifier::rlimit(60)]
    fn write_bank_register(&mut self, addr: u16, value: u8)
        requires
            old(self).wf(),
        ensures
            final(self).wf(),
            final(self)@ == bank_write(old(self)@, addr, value),
    {
        if addr == 0x5100 {
            self.prg_mode = value & 3;
        } else if addr == 0x5101 {
            self.chr_mode = value & 3;
        } else if addr == 0x5102 {
            self.ram_protect_1 = value & 3;
        } else if addr == 0x5103 {
            self.ram_protect_2 = value & 3;
        } else if addr == 0x5104 {
            self.exram_mode = value & 3;
        } else if addr == 0x5105 {
            self.nt_mapping = value;
        } else if addr == 0x5106 {
            self.fill_tile = value;
        } else if addr == 0x5107 {
            self.fill_color = value & 3;
        } else if 0x5113 <= addr && addr <= 0x5116 {
            self.prg_bank_regs[(addr - 0x5113) as usize] = value;
        } else if addr == 0x5117 {
            self.prg_bank_regs[4] = value | 0x80;
        } else if 0x5120 <= addr && addr <= 0x5127 {
            self.chr_bank_a[(addr - 0x5120) as usize] = value as u16 | ((self.chr_upper_bits as u16) << 8);
            self.last_chr_write_was_b = false;
        } else if 0x5128 <= addr && addr <= 0x512B {
            self.chr_bank_b[(addr - 0x5128) as usize] = value as u16 | ((self.chr_upper_bits as u16) << 8);
            self.last_chr_write_was_b = true;
        } else if addr == 0x5130 {
            self.chr_upper_bits = value & 3;
        }
    }

    #[verifier::spinoff_prover]
    #[verifier::rlimit(60)]
    fn write_misc_register(&mut self, addr: u16, value: u8)
        requires
            old(self).wf(),
        ensures
            final(self).wf(),
            final(self)@ == misc_write(old(self)@, addr, value),
    {
        if addr == 0x5200 {
            self.vsplit_mode = value;
        } else if addr == 0x5201 {
            self.vsplit_scroll = value;
        } else if addr == 0x5202 {
            self.vsplit_bank = value;
        } else if addr == 0x5203 {
            self.irq_scanline = value;
        } else if addr == 0x5204 {
            self.irq_enabled = value & 0x80 != 0;
        } else if addr == 0x5205 {
            self.multiplicand = value;
        } else if addr == 0x5206 {
            self.multiplier = value;
        }
    }

    fn write_prg_space(&mut self, addr: u16, value: u8)
        requires
            old(self).wf(),
            addr >= 0x6000,
        ensures
            final(self).wf(),
            final(self)@ == cpu_write_spec(old(self)@, addr, value),
    {
        if addr < 0x8000 {
            if self.ram_writes_enabled() {
                let ram_bank = (self.prg_bank_regs[0] & 0x07) as usize;
                let offset = (addr - 0x6000) as usize;
                self.prg_ram.set((ram_bank * 8192 + offset) % PRG_RAM_SIZE, value);
            }
        } else {
            match self.resolve_prg_addr(addr) {
                PrgSource::Ram(offset) => {
                    if self.ram_writes_enabled() {
                        self.prg_ram.set(offset % PRG_RAM_SIZE, value);
                    }
                },
                PrgSource::Rom(_, _) => {},
            }
        }
    }

    /// A CPU write.
    pub fn cpu_write(&mut self, addr: u16, value: u8)
        requires
            old(self).wf(),
        ensures
            final(self).wf(),
            final(self)@ == cpu_write_spec(old(self)@, addr, value),
    {
        if addr < 0x2000 {
            proof {
                lemma_addr_masks(addr);
            }
            self.internal_ram.set((addr & 0x07FF) as usize, value);
        } else if 0x5000 <= addr && addr <= 0x5015 {
            self.write_audio(addr, value);
        } else if 0x5100 <= addr && addr <= 0x5130 {
            self.write_bank_register(addr, value);
        } else if 0x5200 <= addr && addr <= 0x5206 {
            self.write_misc_register(addr, value);
        } else if 0x5C00 <= addr && addr <= 0x5FFF {
            let offset = (addr - 0x5C00) as usize;
            if self.exram_mode <= 1 {
                let v = if self.in_frame {
                    value
                } else {
                    0
                };
                self.exram.set(offset, v);
            } else if self.exram_mode == 2 {
                self.exram.set(offset, value);
            }
        } else if addr >= 0x6000 {
            self.write_prg_space(addr, value);
        }
    }

    pub fn poll_irq(&self) -> (r: bool)
        ensures
            r == (self.irq_pending && self.irq_enabled),
    {
        self.irq_pending && self.irq_enabled
    }

    /// Whether the IRQ line was raised at or before PPU dot `deadline_dot`.
    pub fn poll_irq_at_dot(&self, deadline_dot: u64) -> (r: bool)
        ensures
            r == (self.irq_pending && self.irq_pending_since_dot <= deadline_dot),
    {
        self.irq_pending && self.irq_pending_since_dot <= deadline_dot
    }

    pub fn mapper_id(&self) -> (r: u8)
        ensures
            r == 5,
    {
        5
    }

    /// The board answers the CPU at the PPU register addresses, and at their
    /// mirrors.
    pub fn cpu_maps_ppu_registers(&self) -> (r: bool)
        ensures
            r,
    {
        true
    }

    pub fn cpu_maps_ppu_register_mirrors(&self) -> (r: bool)
        ensures
            r,
    {
        true
    }

    /// The battery-backed RAM: the first 8KB of PRG RAM.
    pub fn sram_data(&self) -> (r: Option<Vec<u8>>)
        requires
            self.wf(),
        ensures
            self.has_battery ==> (r matches Some(d) && d@ == self.prg_ram@.subrange(0, 8192)),
            !self.has_battery ==> r is None,
    {
        if self.has_battery {
            let mut d: Vec<u8> = Vec::new();
            let mut i: usize = 0;
            while i < 8192
                invariant
                    self.prg_ram@.len() == PRG_RAM_SIZE,
                    i <= 8192,
                    d@ == self.prg_ram@.subrange(0, i as int),
                decreases 8192 - i,
            {
                d.push(self.prg_ram[i]);
                i = i + 1;
                assert(self.prg_ram@.subrange(0, i as int) == self.prg_ram@.subrange(0, i - 1).push(self.prg_ram@[i - 1]));
            }
            Some(d)
        } else {
            None
        }
    }

    /// The reset vector.
    pub fn code_start(&mut self) -> (r: u16)
        requires
            old(self).wf(),
        ensures
            final(self).wf(),
            r as int == cpu_read_value(old(self)@, 0xFFFD) as int * 256 + cpu_read_value(old(self)@, 0xFFFC) as int,
            final(self)@ == old(self)@,
    {
        let lo = self.cpu_read(RESET_TARGET_ADDR);
        let hi = self.cpu_read(RESET_TARGET_ADDR + 1);
        (hi as u16) * 256 + lo as u16
    }

    /// Bit 5 of PPUCTRL selects 8x16 sprites.
    pub fn notify_ppu_ctrl(&mut self, value: u8)
        ensures
            *final(self) == (MMC5Mapper { large_sprites: value & 0x20 != 0, ..*old(self) }),
    {
        self.large_sprites = value & 0x20 != 0;
    }

    /// Turning rendering off ends the frame.
    pub fn notify_ppu_mask(&mut self, value: u8)
        requires
            old(self).wf(),
        ensures
            final(self).wf(),
            final(self)@ == notify_mask_spec(old(self)@, value),
    {
        if value & 0x18 == 0 {
            self.in_frame = false;
            self.irq_pending = false;
            self.scanline_counter = 0;
            self.last_ppu_read_addr = 0;
            self.nt_read_counter = 0;
        }
    }

    /// One CPU cycle at PPU dot `ppu_dot`.
    #[verifier::spinoff_prover]
    #[verifier::rlimit(60)]
    pub fn cpu_cycle(&mut self, ppu_dot: u64)
        requires
            old(self).wf(),
            old(self).last_ppu_fetch_dot <= u64::MAX - 9,
        ensures
            final(self).wf(),
            final(self)@ == cpu_cycle_spec(old(self)@, ppu_dot),
    {
        if self.last_ppu_fetch_dot > 0 && ppu_dot >= self.last_ppu_fetch_dot + 9 && self.in_frame {
            self.in_frame = false;
            self.rendering = false;
            self.nt_read_counter = 0;
            self.last_ppu_read_addr = 0;
        }
        self.pulse1.cycle();
        self.pulse2.cycle();
        self.audio_frame_counter = self.audio_frame_counter + 1;
        if self.audio_frame_counter == 3729 || self.audio_frame_counter == 7457 || self.audio_frame_counter == 11186
            || self.audio_frame_counter >= 14915 {
            self.pulse1.clock_envelope();
            self.pulse2.clock_envelope();
            self.pulse1.clock_length_counter();
            self.pulse2.clock_length_counter();
            if self.audio_frame_counter >= 14915 {
                self.audio_frame_counter = 0;
            }
        }
    }
}


/// Whether `a` (below $4000) falls in the nametable range $2000-$2FFF.
pub open spec fn in_nt_range(a: u16) -> bool {
    0x2000 <= a <= 0x2FFF
}

/// Whether `a` is a nametable tile fetch rather than an attribute fetch.
pub open spec fn is_tile_fetch(a: u16) -> bool {
    in_nt_range(a) && (a & 0x03FF) < 0x03C0
}

/// Whether a fetch of `addr` would count the same nametable byte a 256th time.
pub open spec fn fetch_overflows(m: Mmc5Model, addr: u16) -> bool {
    let a = (addr % 0x4000) as u16;
    in_nt_range(a) && m.last_ppu_read_addr == a && m.nt_read_counter == 255
}

/// Step one of a rendering fetch: a tile fetch advances the tile counter and
/// enters a frame that a scanline start has armed.
pub open spec fn tile_step(m: Mmc5Model, a: u16) -> Mmc5Model {
    if is_tile_fetch(a) {
        let t = ((m.split_tile_number + 1) % 256) as u8;
        if !m.in_frame && m.need_in_frame {
            Mmc5Model { split_tile_number: t, need_in_frame: false, in_frame: true, ..m }
        } else {
            Mmc5Model { split_tile_number: t, ..m }
        }
    } else {
        m
    }
}

/// Scanline detection: the third consecutive read of one nametable address
/// starts a scanline; the first in a frame arms frame entry, later ones count
/// scanlines and raise the IRQ at the target line.
pub open spec fn scanline_step(m: Mmc5Model, a: u16, dot: u64) -> Mmc5Model {
    if in_nt_range(a) {
        let cnt = if m.last_ppu_read_addr == a { m.nt_read_counter + 1 } else { 0 };
        let m1 = Mmc5Model { nt_read_counter: cnt as u8, last_ppu_read_addr: a, ..m };
        if cnt == 2 {
            if !m.in_frame && !m.need_in_frame {
                Mmc5Model { split_tile_number: 0, need_in_frame: true, scanline_counter: 0, ..m1 }
            } else {
                let sc = ((m.scanline_counter + 1) % 256) as u8;
                let fire = m.irq_scanline != 0 && m.irq_scanline == sc;
                Mmc5Model {
                    split_tile_number: 0,
                    scanline_counter: sc,
                    irq_pending: fire || m.irq_pending,
                    irq_pending_since_dot: if fire { dot } else { m.irq_pending_since_dot },
                    ..m1
                }
            }
        } else {
            m1
        }
    } else {
        Mmc5Model { nt_read_counter: 0, last_ppu_read_addr: a, ..m }
    }
}

/// The split column of the current tile.
pub open spec fn split_column(m: Mmc5Model) -> int {
    ((m.split_tile_number as int + 255) % 256) % 42
}

/// Whether the current tile lies in the vertical split region.
pub open spec fn in_split(m: Mmc5Model) -> bool {
    let col = split_column(m);
    let delimiter = (m.vsplit_mode & 0x1F) as int;
    if m.vsplit_mode & 0x40 != 0 {
        col >= delimiter
    } else {
        col < delimiter
    }
}

/// The ExRAM index of the split tile for the current scanline and column.
pub open spec fn split_tile_addr(m: Mmc5Model) -> int {
    (((m.scanline_counter as int + m.vsplit_scroll as int) / 8) % 30) * 32 + split_column(m)
}

/// The ExRAM index of the attribute byte that covers split tile `t`.
pub open spec fn split_attr_addr(t: int) -> int {
    0x3C0 + ((t / 32) / 4) * 8 + (t % 32) / 4
}

/// A rendering fetch in the nametable range, after the tile and scanline
/// steps: the byte returned and the board after it.
pub open spec fn nt_fetch(m: Mmc5Model, a: u16) -> (u8, Mmc5Model) {
    let sprite = 32 <= m.split_tile_number < 40;
    let tile = is_tile_fetch(a);
    if m.vsplit_mode & 0x80 != 0 && !sprite && in_split(m) && tile {
        let t = split_tile_addr(m);
        (m.exram[t % 1024], Mmc5Model { exattr_fetch_counter: 3, exattr_nt_offset: t as u16, ..m })
    } else if m.vsplit_mode & 0x80 != 0 && !sprite && in_split(m) && !tile && m.exattr_fetch_counter == 3 {
        (m.exram[split_attr_addr(m.exattr_nt_offset as int) % 1024], Mmc5Model { exattr_fetch_counter: 2, ..m })
    } else if m.exram_mode == 1 && !sprite && tile {
        let m1 = Mmc5Model { exattr_nt_offset: a & 0x03FF, exattr_fetch_counter: 3, ..m };
        (ppu_read_spec(m1, a), m1)
    } else if m.exram_mode == 1 && !sprite && m.exattr_fetch_counter == 3 {
        let b = m.exram[m.exattr_nt_offset as int % 1024];
        let palette = (b >> 6u8) & 3;
        (
            fill_attr(palette),
            Mmc5Model {
                exattr_chr_bank: ((b & 0x3F) as u16) | ((m.chr_upper_bits as u16) << 6u16),
                exattr_fetch_counter: 2,
                ..m
            },
        )
    } else {
        (ppu_read_spec(m, a), m)
    }
}

/// A rendering fetch in the pattern range: the two fetches after an
/// extended-attribute or split tile read from the 4KB bank it selected.
pub open spec fn pattern_fetch(m: Mmc5Model, a: u16) -> (u8, Mmc5Model) {
    if 0 < m.exattr_fetch_counter <= 2 {
        let c = (m.exattr_fetch_counter - 1) as u8;
        let m1 = Mmc5Model { exattr_fetch_counter: c, ..m };
        if m.exram_mode == 1 || m.vsplit_mode & 0x80 != 0 {
            let bank = if m.vsplit_mode & 0x80 != 0 && c <= 1 {
                (m.vsplit_bank as int) + (m.chr_upper_bits as int) * 256
            } else {
                m.exattr_chr_bank as int
            };
            let abs = bank * 4096 + (a & 0x0FFF) as int;
            let v = if m.chr_rom.len() > 0 {
                m.chr_rom[(abs / 1024) % m.chr_rom.len() as int][abs % 1024]
            } else {
                0
            };
            (v, m1)
        } else {
            (ppu_read_spec(m1, a), m1)
        }
    } else {
        (ppu_read_spec(m, a), m)
    }
}

/// A rendering fetch of `addr` at PPU dot `dot`: the byte returned and the
/// board after it.
pub open spec fn ppu_fetch_spec(m: Mmc5Model, addr: u16, dot: u64) -> (u8, Mmc5Model) {
    let a = (addr % 0x4000) as u16;
    let m0 = Mmc5Model { rendering: true, last_ppu_fetch_dot: dot, ..m };
    let m2 = scanline_step(tile_step(m0, a), a, dot);
    if in_nt_range(a) {
        nt_fetch(m2, a)
    } else {
        pattern_fetch(m2, a)
    }
}

impl MMC5Mapper {
    fn tile_step_exec(&mut self, a: u16)
        requires
            old(self).wf(),
        ensures
            final(self).wf(),
            final(self)@ == tile_step(old(self)@, a),
    {
        if 0x2000 <= a && a <= 0x2FFF && (a & 0x03FF) < 0x03C0 {
            self.split_tile_number = self.split_tile_number.wrapping_add(1);
            if self.in_frame {
            } else if self.need_in_frame {
                self.need_in_frame = false;
                self.in_frame = true;
            }
        }
    }

    /// Scanline detection on a PPU read of `a` at dot `dot`.
    #[verifier::spinoff_prover]
    #[verifier::rlimit(80)]
    pub fn detect_scanline(&mut self, a: u16, dot: u64)
        requires
            old(self).wf(),
            !(in_nt_range(a) && old(self).last_ppu_read_addr == a && old(self).nt_read_counter == 255),
        ensures
            final(self).wf(),
            final(self)@ == scanline_step(old(self)@, a, dot),
    {
        if 0x2000 <= a && a <= 0x2FFF {
            if self.last_ppu_read_addr == a {
                self.nt_read_counter = self.nt_read_counter + 1;
            } else {
                self.nt_read_counter = 0;
            }
            if self.nt_read_counter == 2 {
                self.split_tile_number = 0;
                if !self.in_frame && !self.need_in_frame {
                    self.need_in_frame = true;
                    self.scanline_counter = 0;
                } else {
                    self.scanline_counter = self.scanline_counter.wrapping_add(1);
                    if self.irq_scanline != 0 && self.irq_scanline == self.scanline_counter {
                        self.irq_pending = true;
                        self.irq_pending_since_dot = dot;
                    }
                }
            }
        } else {
            self.nt_read_counter = 0;
        }
        self.last_ppu_read_addr = a;
    }

    fn split_column_exec(&self) -> (r: u16)
        ensures
            r == split_column(self@),
            r < 42,
    {
        (self.split_tile_number.wrapping_sub(1) % 42) as u16
    }

    #[verifier::spinoff_prover]
    #[verifier::rlimit(80)]
    fn fetch_nametable(&mut self, a: u16) -> (r: u8)
        requires
            old(self).wf(),
            in_nt_range(a),
        ensures
            final(self).wf(),
            r == nt_fetch(old(self)@, a).0,
            final(self)@ == nt_fetch(old(self)@, a).1,
    {
        let sprite = self.split_tile_number >= 32 && self.split_tile_number < 40;
        let tile = (a & 0x03FF) < 0x03C0;
        if self.vsplit_mode & 0x80 != 0 && !sprite {
            let col = self.split_column_exec();
            let delimiter = (self.vsplit_mode & 0x1F) as u16;
            let split = if self.vsplit_mode & 0x40 != 0 {
                col >= delimiter
            } else {
                col < delimiter
            };
            if split && tile {
                let tile_y = (self.scanline_counter as u16 + self.vsplit_scroll as u16) / 8;
                let t = (tile_y % 30) * 32 + col;
                let v = self.exram[(t as usize) % EXRAM_SIZE];
                self.exattr_fetch_counter = 3;
                self.exattr_nt_offset = t;
                return v;
            }
            if split && !tile && self.exattr_fetch_counter == 3 {
                self.exattr_fetch_counter = 2;
                let t = self.exattr_nt_offset;
                let attr = 0x3C0 + ((t / 32) / 4) * 8 + (t % 32) / 4;
                return self.exram[(attr as usize) % EXRAM_SIZE];
            }
        }
        if self.exram_mode == 1 && !sprite {
            if tile {
                self.exattr_nt_offset = a & 0x03FF;
                self.exattr_fetch_counter = 3;
            } else if self.exattr_fetch_counter == 3 {
                let b = self.exram[(self.exattr_nt_offset as usize) % EXRAM_SIZE];
                let palette = (b >> 6) & 3;
                self.exattr_chr_bank = ((b & 0x3F) as u16) | ((self.chr_upper_bits as u16) << 6);
                self.exattr_fetch_counter = 2;
                let v = palette | (palette << 2) | (palette << 4) | (palette << 6);
                assert(v == fill_attr(palette)) by (bit_vector)
                    requires
                        palette == (b >> 6u8) & 3,
                        v == palette | (palette << 2u8) | (palette << 4u8) | (palette << 6u8),
                ;
                return v;
            }
        }
        self.ppu_read(a)
    }

    #[verifier::spinoff_prover]
    #[verifier::rlimit(80)]
    fn fetch_pattern(&mut self, a: u16) -> (r: u8)
        requires
            old(self).wf(),
            a < 0x2000 || 0x3000 <= a < 0x4000,
        ensures
            final(self).wf(),
            r == pattern_fetch(old(self)@, a).0,
            final(self)@ == pattern_fetch(old(self)@, a).1,
    {
        if self.exattr_fetch_counter > 0 && self.exattr_fetch_counter <= 2 {
            self.exattr_fetch_counter = self.exattr_fetch_counter - 1;
            if self.exram_mode == 1 || self.vsplit_mode & 0x80 != 0 {
                let bank: usize = if self.vsplit_mode & 0x80 != 0 && self.exattr_fetch_counter <= 1 {
                    self.vsplit_bank as usize + (self.chr_upper_bits as usize) * 256
                } else {
                    self.exattr_chr_bank as usize
                };
                let abs = bank * 4096 + (a & 0x0FFF) as usize;
                if self.chr_rom.len() > 0 {
                    let bank_1k = (abs / 1024) % self.chr_rom.len();
                    return self.chr_rom[bank_1k][abs % 1024];
                }
                return 0;
            }
        }
        self.ppu_read(a)
    }

    /// A rendering fetch of `addr` at PPU dot `dot`.
    pub fn ppu_fetch(&mut self, addr: u16, dot: u64) -> (r: u8)
        requires
            old(self).wf(),
            !fetch_overflows(old(self)@, addr),
        ensures
            final(self).wf(),
            r == ppu_fetch_spec(old(self)@, addr, dot).0,
            final(self)@ == ppu_fetch_spec(old(self)@, addr, dot).1,
    {
        self.rendering = true;
        self.last_ppu_fetch_dot = dot;
        let a = addr % 0x4000;
        self.tile_step_exec(a);
        self.detect_scanline(a, dot);
        if 0x2000 <= a && a <= 0x2FFF {
            self.fetch_nametable(a)
        } else {
            self.fetch_pattern(a)
        }
    }
}
impl MMC5Mapper {
    /// The saved form of the CHR RAM: a presence flag, then its bytes.
    pub open spec fn chr_ram_state(&self) -> Seq<u8> {
        match self.chr_ram {
            Some(ram) => enc_bool(true) + ram@,
            None => enc_bool(false),
        }
    }
}

impl MMC5Mapper {
    /// The bytes of the memory and banking part of the state.
    pub open spec fn banking_state_bytes(&self) -> Seq<u8> {
        controllers_bytes(self.controllers)
            + self.internal_ram@
            + enc_u8(self.prg_mode)
            + self.prg_bank_regs@
            + enc_u8(self.ram_protect_1)
            + enc_u8(self.ram_protect_2)
            + self.prg_ram@
            + enc_u8(self.chr_mode)
            + enc_u16(self.chr_bank_a@[0])
            + enc_u16(self.chr_bank_a@[1])
            + enc_u16(self.chr_bank_a@[2])
            + enc_u16(self.chr_bank_a@[3])
            + enc_u16(self.chr_bank_a@[4])
            + enc_u16(self.chr_bank_a@[5])
            + enc_u16(self.chr_bank_a@[6])
            + enc_u16(self.chr_bank_a@[7])
            + enc_u16(self.chr_bank_b@[0])
            + enc_u16(self.chr_bank_b@[1])
            + enc_u16(self.chr_bank_b@[2])
            + enc_u16(self.chr_bank_b@[3])
    }

    pub open spec fn banking_state_len(&self) -> int {
        2 * CONTROLLER_STATE_LEN + INTERNAL_RAM_SIZE + PRG_RAM_SIZE + 33
    }

    pub open spec fn banking_state_valid(&self, d: Seq<u8>, q: int) -> bool {
        true
    }

    pub open spec fn banking_state_loaded(&self, d: Seq<u8>, q: int) -> bool {
        &&& self.controllers@[0] == controller_at(d, q)
        &&& self.controllers@[1] == controller_at(d, q + CONTROLLER_STATE_LEN)
        &&& self.internal_ram@ == d.subrange((q + 2 * CONTROLLER_STATE_LEN), (q + 2 * CONTROLLER_STATE_LEN) + INTERNAL_RAM_SIZE)
        &&& self.prg_mode == d[(q + 2 * CONTROLLER_STATE_LEN + INTERNAL_RAM_SIZE)]
        &&& self.prg_bank_regs@ == d.subrange((q + 2 * CONTROLLER_STATE_LEN + INTERNAL_RAM_SIZE + 1), (q + 2 * CONTROLLER_STATE_LEN + INTERNAL_RAM_SIZE + 1) + 5)
        &&& self.ram_protect_1 == d[(q + 2 * CONTROLLER_STATE_LEN + INTERNAL_RAM_SIZE + 6)]
        &&& self.ram_protect_2 == d[(q + 2 * CONTROLLER_STATE_LEN + INTERNAL_RAM_SIZE + 7)]
        &&& self.prg_ram@ == d.subrange((q + 2 * CONTROLLER_STATE_LEN + INTERNAL_RAM_SIZE + 8), (q + 2 * CONTROLLER_STATE_LEN + INTERNAL_RAM_SIZE + 8) + PRG_RAM_SIZE)
        &&& self.chr_mode == d[(q + 2 * CONTROLLER_STATE_LEN + INTERNAL_RAM_SIZE + PRG_RAM_SIZE + 8)]
        &&& self.chr_bank_a@[0] == dec_u16_at(d, (q + 2 * CONTROLLER_STATE_LEN + INTERNAL_RAM_SIZE + PRG_RAM_SIZE + 9))
        &&& self.chr_bank_a@[1] == dec_u16_at(d, (q + 2 * CONTROLLER_STATE_LEN + INTERNAL_RAM_SIZE + PRG_RAM_SIZE + 11))
        &&& self.chr_bank_a@[2] == dec_u16_at(d, (q + 2 * CONTROLLER_STATE_LEN + INTERNAL_RAM_SIZE + PRG_RAM_SIZE + 13))
        &&& self.chr_bank_a@[3] == dec_u16_at(d, (q + 2 * CONTROLLER_STATE_LEN + INTERNAL_RAM_SIZE + PRG_RAM_SIZE + 15))
        &&& self.chr_bank_a@[4] == dec_u16_at(d, (q + 2 * CONTROLLER_STATE_LEN + INTERNAL_RAM_SIZE + PRG_RAM_SIZE + 17))
        &&& self.chr_bank_a@[5] == dec_u16_at(d, (q + 2 * CONTROLLER_STATE_LEN + INTERNAL_RAM_SIZE + PRG_RAM_SIZE + 19))
        &&& self.chr_bank_a@[6] == dec_u16_at(d, (q + 2 * CONTROLLER_STATE_LEN + INTERNAL_RAM_SIZE + PRG_RAM_SIZE + 21))
        &&& self.chr_bank_a@[7] == dec_u16_at(d, (q + 2 * CONTROLLER_STATE_LEN + INTERNAL_RAM_SIZE + PRG_RAM_SIZE + 23))
        &&& self.chr_bank_b@[0] == dec_u16_at(d, (q + 2 * CONTROLLER_STATE_LEN + INTERNAL_RAM_SIZE + PRG_RAM_SIZE + 25))
        &&& self.chr_bank_b@[1] == dec_u16_at(d, (q + 2 * CONTROLLER_STATE_LEN + INTERNAL_RAM_SIZE + PRG_RAM_SIZE + 27))
        &&& self.chr_bank_b@[2] == dec_u16_at(d, (q + 2 * CONTROLLER_STATE_LEN + INTERNAL_RAM_SIZE + PRG_RAM_SIZE + 29))
        &&& self.chr_bank_b@[3] == dec_u16_at(d, (q + 2 * CONTROLLER_STATE_LEN + INTERNAL_RAM_SIZE + PRG_RAM_SIZE + 31))
    }

    pub open spec fn banking_state_same(&self, other: &Self) -> bool {
        &&& self.controllers@ == other.controllers@
        &&& self.internal_ram@ == other.internal_ram@
        &&& self.prg_mode == other.prg_mode
        &&& self.prg_bank_regs@ == other.prg_bank_regs@
        &&& self.ram_protect_1 == other.ram_protect_1
        &&& self.ram_protect_2 == other.ram_protect_2
        &&& self.prg_ram@ == other.prg_ram@
        &&& self.chr_mode == other.chr_mode
        &&& self.chr_bank_a@[0] == other.chr_bank_a@[0]
        &&& self.chr_bank_a@[1] == other.chr_bank_a@[1]
        &&& self.chr_bank_a@[2] == other.chr_bank_a@[2]
        &&& self.chr_bank_a@[3] == other.chr_bank_a@[3]
        &&& self.chr_bank_a@[4] == other.chr_bank_a@[4]
        &&& self.chr_bank_a@[5] == other.chr_bank_a@[5]
        &&& self.chr_bank_a@[6] == other.chr_bank_a@[6]
        &&& self.chr_bank_a@[7] == other.chr_bank_a@[7]
        &&& self.chr_bank_b@[0] == other.chr_bank_b@[0]
        &&& self.chr_bank_b@[1] == other.chr_bank_b@[1]
        &&& self.chr_bank_b@[2] == other.chr_bank_b@[2]
        &&& self.chr_bank_b@[3] == other.chr_bank_b@[3]
    }

    /// Every field outside the memory and banking part is as in `other`.
    pub open spec fn banking_state_outside(&self, other: &Self) -> bool {
        &&& self.prg_rom == other.prg_rom
        &&& self.chr_rom == other.chr_rom
        &&& self.chr_ram == other.chr_ram
        &&& self.vram == other.vram
        &&& self.exram == other.exram
        &&& self.palette_ram == other.palette_ram
        &&& self.chr_upper_bits == other.chr_upper_bits
        &&& self.large_sprites == other.large_sprites
        &&& self.last_chr_write_was_b == other.last_chr_write_was_b
        &&& self.nt_mapping == other.nt_mapping
        &&& self.fill_tile == other.fill_tile
        &&& self.fill_color == other.fill_color
        &&& self.exram_mode == other.exram_mode
        &&& self.irq_scanline == other.irq_scanline
        &&& self.irq_enabled == other.irq_enabled
        &&& self.irq_pending == other.irq_pending
        &&& self.irq_pending_since_dot == other.irq_pending_since_dot
        &&& self.in_frame == other.in_frame
        &&& self.scanline_counter == other.scanline_counter
        &&& self.last_ppu_read_addr == other.last_ppu_read_addr
        &&& self.nt_read_counter == other.nt_read_counter
        &&& self.last_ppu_fetch_dot == other.last_ppu_fetch_dot
        &&& self.multiplicand == other.multiplicand
        &&& self.multiplier == other.multiplier
        &&& self.pulse1 == other.pulse1
        &&& self.pulse2 == other.pulse2
        &&& self.pcm_output == other.pcm_output
        &&& self.pcm_read_mode == other.pcm_read_mode
        &&& self.audio_half_clock == other.audio_half_clock
        &&& self.audio_frame_counter == other.audio_frame_counter
        &&& self.vsplit_mode == other.vsplit_mode
        &&& self.vsplit_scroll == other.vsplit_scroll
        &&& self.vsplit_bank == other.vsplit_bank
        &&& self.exattr_fetch_counter == other.exattr_fetch_counter
        &&& self.exattr_nt_offset == other.exattr_nt_offset
        &&& self.exattr_chr_bank == other.exattr_chr_bank
        &&& self.has_battery == other.has_battery
        &&& self.split_tile_number == other.split_tile_number
        &&& self.need_in_frame == other.need_in_frame
        &&& self.rendering == other.rendering
    }

    #[verifier::spinoff_prover]
    fn save_banking_state(&self, w: &mut SavestateWriter)
        ensures
            final(w).buf@ == old(w).buf@ + self.banking_state_bytes(),
    {
        let ghost b = w.buf@;
        let ghost s0 = controllers_bytes(self.controllers);
        let ghost s1 = s0 + self.internal_ram@;
        let ghost s2 = s1 + enc_u8(self.prg_mode);
        let ghost s3 = s2 + self.prg_bank_regs@;
        let ghost s4 = s3 + enc_u8(self.ram_protect_1);
        let ghost s5 = s4 + enc_u8(self.ram_protect_2);
        let ghost s6 = s5 + self.prg_ram@;
        let ghost s7 = s6 + enc_u8(self.chr_mode);
        let ghost s8 = s7 + enc_u16(self.chr_bank_a@[0]);
        let ghost s9 = s8 + enc_u16(self.chr_bank_a@[1]);
        let ghost s10 = s9 + enc_u16(self.chr_bank_a@[2]);
        let ghost s11 = s10 + enc_u16(self.chr_bank_a@[3]);
        let ghost s12 = s11 + enc_u16(self.chr_bank_a@[4]);
        let ghost s13 = s12 + enc_u16(self.chr_bank_a@[5]);
        let ghost s14 = s13 + enc_u16(self.chr_bank_a@[6]);
        let ghost s15 = s14 + enc_u16(self.chr_bank_a@[7]);
        let ghost s16 = s15 + enc_u16(self.chr_bank_b@[0]);
        let ghost s17 = s16 + enc_u16(self.chr_bank_b@[1]);
        let ghost s18 = s17 + enc_u16(self.chr_bank_b@[2]);
        let ghost s19 = s18 + enc_u16(self.chr_bank_b@[3]);
        save_controllers(w, &self.controllers);
        w.write_bytes(self.internal_ram.as_slice());
        proof {
            lemma_add_assoc(b, s0, self.internal_ram@);
        }
        w.write_u8(self.prg_mode);
        proof {
            lemma_add_assoc(b, s1, enc_u8(self.prg_mode));
        }
        w.write_bytes(self.prg_bank_regs.as_slice());
        proof {
            lemma_add_assoc(b, s2, self.prg_bank_regs@);
        }
        w.write_u8(self.ram_protect_1);
        proof {
            lemma_add_assoc(b, s3, enc_u8(self.ram_protect_1));
        }
        w.write_u8(self.ram_protect_2);
        proof {
            lemma_add_assoc(b, s4, enc_u8(self.ram_protect_2));
        }
        w.write_bytes(self.prg_ram.as_slice());
        proof {
            lemma_add_assoc(b, s5, self.prg_ram@);
        }
        w.write_u8(self.chr_mode);
        proof {
            lemma_add_assoc(b, s6, enc_u8(self.chr_mode));
        }
        w.write_u16(self.chr_bank_a[0]);
        proof {
            lemma_add_assoc(b, s7, enc_u16(self.chr_bank_a@[0]));
        }
        w.write_u16(self.chr_bank_a[1]);
        proof {
            lemma_add_assoc(b, s8, enc_u16(self.chr_bank_a@[1]));
        }
        w.write_u16(self.chr_bank_a[2]);
        proof {
            lemma_add_assoc(b, s9, enc_u16(self.chr_bank_a@[2]));
        }
        w.write_u16(self.chr_bank_a[3]);
        proof {
            lemma_add_assoc(b, s10, enc_u16(self.chr_bank_a@[3]));
        }
        w.write_u16(self.chr_bank_a[4]);
        proof {
            lemma_add_assoc(b, s11, enc_u16(self.chr_bank_a@[4]));
        }
        w.write_u16(self.chr_bank_a[5]);
        proof {
            lemma_add_assoc(b, s12, enc_u16(self.chr_bank_a@[5]));
        }
        w.write_u16(self.chr_bank_a[6]);
        proof {
            lemma_add_assoc(b, s13, enc_u16(self.chr_bank_a@[6]));
        }
        w.write_u16(self.chr_bank_a[7]);
        proof {
            lemma_add_assoc(b, s14, enc_u16(self.chr_bank_a@[7]));
        }
        w.write_u16(self.chr_bank_b[0]);
        proof {
            lemma_add_assoc(b, s15, enc_u16(self.chr_bank_b@[0]));
        }
        w.write_u16(self.chr_bank_b[1]);
        proof {
            lemma_add_assoc(b, s16, enc_u16(self.chr_bank_b@[1]));
        }
        w.write_u16(self.chr_bank_b[2]);
        proof {
            lemma_add_assoc(b, s17, enc_u16(self.chr_bank_b@[2]));
        }
        w.write_u16(self.chr_bank_b[3]);
        proof {
            lemma_add_assoc(b, s18, enc_u16(self.chr_bank_b@[3]));
        }
    }

    #[verifier::spinoff_prover]
    fn load_banking_state(&mut self, r: &mut SavestateReader)
        requires
            old(self).wf(),
            old(r).wf(),
            old(r).pos + old(self).banking_state_len() <= old(r).data@.len(),
            old(self).banking_state_valid(old(r).data@, old(r).pos as int),
        ensures
            final(r).wf(),
            final(r).data@ == old(r).data@,
            final(r).pos == old(r).pos + old(self).banking_state_len(),
            final(self).wf(),
            final(self).banking_state_loaded(old(r).data@, old(r).pos as int),
            final(self).banking_state_outside(&*old(self)),
    {
        let controllers = take_controllers(r);
        let internal_ram = r.take_bytes(INTERNAL_RAM_SIZE);
        let prg_mode = r.take_u8();
        let prg_bank_regs_bytes = r.take_bytes(5);
        let mut prg_bank_regs = self.prg_bank_regs;
        copy_into_array(&mut prg_bank_regs, &prg_bank_regs_bytes);
        let ram_protect_1 = r.take_u8();
        let ram_protect_2 = r.take_u8();
        let prg_ram = r.take_bytes(PRG_RAM_SIZE);
        let chr_mode = r.take_u8();
        let chr_a0 = r.take_u16();
        let chr_a1 = r.take_u16();
        let chr_a2 = r.take_u16();
        let chr_a3 = r.take_u16();
        let chr_a4 = r.take_u16();
        let chr_a5 = r.take_u16();
        let chr_a6 = r.take_u16();
        let chr_a7 = r.take_u16();
        let chr_b0 = r.take_u16();
        let chr_b1 = r.take_u16();
        let chr_b2 = r.take_u16();
        let chr_b3 = r.take_u16();
        self.controllers = controllers;
        self.internal_ram = internal_ram;
        self.prg_mode = prg_mode;
        self.prg_bank_regs = prg_bank_regs;
        self.ram_protect_1 = ram_protect_1;
        self.ram_protect_2 = ram_protect_2;
        self.prg_ram = prg_ram;
        self.chr_mode = chr_mode;
        self.chr_bank_a = [chr_a0, chr_a1, chr_a2, chr_a3, chr_a4, chr_a5, chr_a6, chr_a7];
        self.chr_bank_b = [chr_b0, chr_b1, chr_b2, chr_b3];
    }

    #[verifier::spinoff_prover]
    proof fn lemma_banking_state_roundtrip(o: Self, m: Self, n: Self, d: Seq<u8>, q: int)
        requires
            m.wf(),
            o.same_layout(&m),
            n.same_layout(&m),
            stored_at(d, q, m.banking_state_bytes()),
        ensures
            o.banking_state_len() == m.banking_state_len(),
            o.banking_state_valid(d, q),
            n.banking_state_loaded(d, q) ==> n.banking_state_same(&m),
    {
        let s0 = controllers_bytes(m.controllers);
        let s1 = s0 + m.internal_ram@;
        let s2 = s1 + enc_u8(m.prg_mode);
        let s3 = s2 + m.prg_bank_regs@;
        let s4 = s3 + enc_u8(m.ram_protect_1);
        let s5 = s4 + enc_u8(m.ram_protect_2);
        let s6 = s5 + m.prg_ram@;
        let s7 = s6 + enc_u8(m.chr_mode);
        let s8 = s7 + enc_u16(m.chr_bank_a@[0]);
        let s9 = s8 + enc_u16(m.chr_bank_a@[1]);
        let s10 = s9 + enc_u16(m.chr_bank_a@[2]);
        let s11 = s10 + enc_u16(m.chr_bank_a@[3]);
        let s12 = s11 + enc_u16(m.chr_bank_a@[4]);
        let s13 = s12 + enc_u16(m.chr_bank_a@[5]);
        let s14 = s13 + enc_u16(m.chr_bank_a@[6]);
        let s15 = s14 + enc_u16(m.chr_bank_a@[7]);
        let s16 = s15 + enc_u16(m.chr_bank_b@[0]);
        let s17 = s16 + enc_u16(m.chr_bank_b@[1]);
        let s18 = s17 + enc_u16(m.chr_bank_b@[2]);
        let s19 = s18 + enc_u16(m.chr_bank_b@[3]);
        lemma_stored_split(d, q, s18, enc_u16(m.chr_bank_b@[3]));
        lemma_stored_split(d, q, s17, enc_u16(m.chr_bank_b@[2]));
        lemma_stored_split(d, q, s16, enc_u16(m.chr_bank_b@[1]));
        lemma_stored_split(d, q, s15, enc_u16(m.chr_bank_b@[0]));
        lemma_stored_split(d, q, s14, enc_u16(m.chr_bank_a@[7]));
        lemma_stored_split(d, q, s13, enc_u16(m.chr_bank_a@[6]));
        lemma_stored_split(d, q, s12, enc_u16(m.chr_bank_a@[5]));
        lemma_stored_split(d, q, s11, enc_u16(m.chr_bank_a@[4]));
        lemma_stored_split(d, q, s10, enc_u16(m.chr_bank_a@[3]));
        lemma_stored_split(d, q, s9, enc_u16(m.chr_bank_a@[2]));
        lemma_stored_split(d, q, s8, enc_u16(m.chr_bank_a@[1]));
        lemma_stored_split(d, q, s7, enc_u16(m.chr_bank_a@[0]));
        lemma_stored_split(d, q, s6, enc_u8(m.chr_mode));
        lemma_stored_split(d, q, s5, m.prg_ram@);
        lemma_stored_split(d, q, s4, enc_u8(m.ram_protect_2));
        lemma_stored_split(d, q, s3, enc_u8(m.ram_protect_1));
        lemma_stored_split(d, q, s2, m.prg_bank_regs@);
        lemma_stored_split(d, q, s1, enc_u8(m.prg_mode));
        lemma_stored_split(d, q, s0, m.internal_ram@);
        lemma_stored_controllers(d, q, m.controllers);
        if n.banking_state_loaded(d, q) {
            assert(n.controllers@ =~= m.controllers@);
        }
        lemma_stored_u8(d, (q + 2 * CONTROLLER_STATE_LEN + INTERNAL_RAM_SIZE), m.prg_mode);
        lemma_stored_u8(d, (q + 2 * CONTROLLER_STATE_LEN + INTERNAL_RAM_SIZE + 6), m.ram_protect_1);
        lemma_stored_u8(d, (q + 2 * CONTROLLER_STATE_LEN + INTERNAL_RAM_SIZE + 7), m.ram_protect_2);
        lemma_stored_u8(d, (q + 2 * CONTROLLER_STATE_LEN + INTERNAL_RAM_SIZE + PRG_RAM_SIZE + 8), m.chr_mode);
        lemma_stored_u16(d, (q + 2 * CONTROLLER_STATE_LEN + INTERNAL_RAM_SIZE + PRG_RAM_SIZE + 9), m.chr_bank_a@[0]);
        lemma_stored_u16(d, (q + 2 * CONTROLLER_STATE_LEN + INTERNAL_RAM_SIZE + PRG_RAM_SIZE + 11), m.chr_bank_a@[1]);
        lemma_stored_u16(d, (q + 2 * CONTROLLER_STATE_LEN + INTERNAL_RAM_SIZE + PRG_RAM_SIZE + 13), m.chr_bank_a@[2]);
        lemma_stored_u16(d, (q + 2 * CONTROLLER_STATE_LEN + INTERNAL_RAM_SIZE + PRG_RAM_SIZE + 15), m.chr_bank_a@[3]);
        lemma_stored_u16(d, (q + 2 * CONTROLLER_STATE_LEN + INTERNAL_RAM_SIZE + PRG_RAM_SIZE + 17), m.chr_bank_a@[4]);
        lemma_stored_u16(d, (q + 2 * CONTROLLER_STATE_LEN + INTERNAL_RAM_SIZE + PRG_RAM_SIZE + 19), m.chr_bank_a@[5]);
        lemma_stored_u16(d, (q + 2 * CONTROLLER_STATE_LEN + INTERNAL_RAM_SIZE + PRG_RAM_SIZE + 21), m.chr_bank_a@[6]);
        lemma_stored_u16(d, (q + 2 * CONTROLLER_STATE_LEN + INTERNAL_RAM_SIZE + PRG_RAM_SIZE + 23), m.chr_bank_a@[7]);
        lemma_stored_u16(d, (q + 2 * CONTROLLER_STATE_LEN + INTERNAL_RAM_SIZE + PRG_RAM_SIZE + 25), m.chr_bank_b@[0]);
        lemma_stored_u16(d, (q + 2 * CONTROLLER_STATE_LEN + INTERNAL_RAM_SIZE + PRG_RAM_SIZE + 27), m.chr_bank_b@[1]);
        lemma_stored_u16(d, (q + 2 * CONTROLLER_STATE_LEN + INTERNAL_RAM_SIZE + PRG_RAM_SIZE + 29), m.chr_bank_b@[2]);
        lemma_stored_u16(d, (q + 2 * CONTROLLER_STATE_LEN + INTERNAL_RAM_SIZE + PRG_RAM_SIZE + 31), m.chr_bank_b@[3]);
    }

    /// The bytes of the CHR and nametable part of the state.
    pub open spec fn video_state_bytes(&self) -> Seq<u8> {
        enc_u8(self.chr_upper_bits)
            + enc_bool(self.large_sprites)
            + enc_bool(self.last_chr_write_was_b)
            + self.chr_ram_state()
            + enc_u8(self.nt_mapping)
            + enc_u8(self.fill_tile)
            + enc_u8(self.fill_color)
            + enc_u8(self.exram_mode)
            + self.vram@
            + self.exram@
            + self.palette_ram@
    }

    pub open spec fn video_state_len(&self) -> int {
        (if self.chr_ram is Some { CHR_RAM_SIZE as int + 1 } else { 1 }) + VRAM_SIZE + EXRAM_SIZE + PALETTE_SIZE + 7
    }

    pub open spec fn video_state_valid(&self, d: Seq<u8>, q: int) -> bool {
        &&& (d[(q + 3)] != 0) == (self.chr_ram is Some)
    }

    pub open spec fn video_state_loaded(&self, d: Seq<u8>, q: int) -> bool {
        &&& self.chr_upper_bits == d[q]
        &&& self.large_sprites == (d[(q + 1)] != 0)
        &&& self.last_chr_write_was_b == (d[(q + 2)] != 0)
        &&& (self.chr_ram matches Some(ram) ==> ram@ == d.subrange((q + 3) + 1, (q + 3) + 1 + CHR_RAM_SIZE))
        &&& self.nt_mapping == d[(q + (if self.chr_ram is Some { CHR_RAM_SIZE as int + 1 } else { 1 }) + 3)]
        &&& self.fill_tile == d[(q + (if self.chr_ram is Some { CHR_RAM_SIZE as int + 1 } else { 1 }) + 4)]
        &&& self.fill_color == d[(q + (if self.chr_ram is Some { CHR_RAM_SIZE as int + 1 } else { 1 }) + 5)]
        &&& self.exram_mode == d[(q + (if self.chr_ram is Some { CHR_RAM_SIZE as int + 1 } else { 1 }) + 6)]
        &&& self.vram@ == d.subrange((q + (if self.chr_ram is Some { CHR_RAM_SIZE as int + 1 } else { 1 }) + 7), (q + (if self.chr_ram is Some { CHR_RAM_SIZE as int + 1 } else { 1 }) + 7) + VRAM_SIZE)
        &&& self.exram@ == d.subrange((q + (if self.chr_ram is Some { CHR_RAM_SIZE as int + 1 } else { 1 }) + VRAM_SIZE + 7), (q + (if self.chr_ram is Some { CHR_RAM_SIZE as int + 1 } else { 1 }) + VRAM_SIZE + 7) + EXRAM_SIZE)
        &&& self.palette_ram@ == d.subrange((q + (if self.chr_ram is Some { CHR_RAM_SIZE as int + 1 } else { 1 }) + VRAM_SIZE + EXRAM_SIZE + 7), (q + (if self.chr_ram is Some { CHR_RAM_SIZE as int + 1 } else { 1 }) + VRAM_SIZE + EXRAM_SIZE + 7) + PALETTE_SIZE)
    }

    pub open spec fn video_state_same(&self, other: &Self) -> bool {
        &&& self.chr_upper_bits == other.chr_upper_bits
        &&& self.large_sprites == other.large_sprites
        &&& self.last_chr_write_was_b == other.last_chr_write_was_b
        &&& (self.chr_ram matches Some(a) ==> (other.chr_ram matches Some(b) && a@ == b@))
        &&& self.nt_mapping == other.nt_mapping
        &&& self.fill_tile == other.fill_tile
        &&& self.fill_color == other.fill_color
        &&& self.exram_mode == other.exram_mode
        &&& self.vram@ == other.vram@
        &&& self.exram@ == other.exram@
        &&& self.palette_ram@ == other.palette_ram@
    }

    /// Every field outside the CHR and nametable part is as in `other`.
    pub open spec fn video_state_outside(&self, other: &Self) -> bool {
        &&& self.internal_ram == other.internal_ram
        &&& self.prg_rom == other.prg_rom
        &&& self.prg_ram == other.prg_ram
        &&& self.chr_rom == other.chr_rom
        &&& self.prg_mode == other.prg_mode
        &&& self.prg_bank_regs == other.prg_bank_regs
        &&& self.ram_protect_1 == other.ram_protect_1
        &&& self.ram_protect_2 == other.ram_protect_2
        &&& self.chr_mode == other.chr_mode
        &&& self.chr_bank_a == other.chr_bank_a
        &&& self.chr_bank_b == other.chr_bank_b
        &&& self.irq_scanline == other.irq_scanline
        &&& self.irq_enabled == other.irq_enabled
        &&& self.irq_pending == other.irq_pending
        &&& self.irq_pending_since_dot == other.irq_pending_since_dot
        &&& self.in_frame == other.in_frame
        &&& self.scanline_counter == other.scanline_counter
        &&& self.last_ppu_read_addr == other.last_ppu_read_addr
        &&& self.nt_read_counter == other.nt_read_counter
        &&& self.last_ppu_fetch_dot == other.last_ppu_fetch_dot
        &&& self.multiplicand == other.multiplicand
        &&& self.multiplier == other.multiplier
        &&& self.pulse1 == other.pulse1
        &&& self.pulse2 == other.pulse2
        &&& self.pcm_output == other.pcm_output
        &&& self.pcm_read_mode == other.pcm_read_mode
        &&& self.audio_half_clock == other.audio_half_clock
        &&& self.audio_frame_counter == other.audio_frame_counter
        &&& self.vsplit_mode == other.vsplit_mode
        &&& self.vsplit_scroll == other.vsplit_scroll
        &&& self.vsplit_bank == other.vsplit_bank
        &&& self.exattr_fetch_counter == other.exattr_fetch_counter
        &&& self.exattr_nt_offset == other.exattr_nt_offset
        &&& self.exattr_chr_bank == other.exattr_chr_bank
        &&& self.controllers == other.controllers
        &&& self.has_battery == other.has_battery
        &&& self.split_tile_number == other.split_tile_number
        &&& self.need_in_frame == other.need_in_frame
        &&& self.rendering == other.rendering
    }

    fn video_state_valid_exec(&self, r: &SavestateReader, q: usize) -> (b: bool)
        requires
            r.wf(),
            q + self.video_state_len() <= r.data.len(),
        ensures
            b == self.video_state_valid(r.data@, q as int),
    {
        ((r.data[(q + 3)] != 0) == self.chr_ram.is_some())
    }

    #[verifier::spinoff_prover]
    fn save_video_state(&self, w: &mut SavestateWriter)
        ensures
            final(w).buf@ == old(w).buf@ + self.video_state_bytes(),
    {
        let ghost b = w.buf@;
        let ghost s0 = enc_u8(self.chr_upper_bits);
        let ghost s1 = s0 + enc_bool(self.large_sprites);
        let ghost s2 = s1 + enc_bool(self.last_chr_write_was_b);
        let ghost s3 = s2 + self.chr_ram_state();
        let ghost s4 = s3 + enc_u8(self.nt_mapping);
        let ghost s5 = s4 + enc_u8(self.fill_tile);
        let ghost s6 = s5 + enc_u8(self.fill_color);
        let ghost s7 = s6 + enc_u8(self.exram_mode);
        let ghost s8 = s7 + self.vram@;
        let ghost s9 = s8 + self.exram@;
        let ghost s10 = s9 + self.palette_ram@;
        w.write_u8(self.chr_upper_bits);
        w.write_bool(self.large_sprites);
        proof {
            lemma_add_assoc(b, s0, enc_bool(self.large_sprites));
        }
        w.write_bool(self.last_chr_write_was_b);
        proof {
            lemma_add_assoc(b, s1, enc_bool(self.last_chr_write_was_b));
        }
        match &self.chr_ram {
            Some(ram) => {
                w.write_bool(true);
                w.write_bytes(ram.as_slice());
            },
            None => {
                w.write_bool(false);
            },
        }
        proof {
            lemma_add_assoc(b, s2, self.chr_ram_state());
        }
        w.write_u8(self.nt_mapping);
        proof {
            lemma_add_assoc(b, s3, enc_u8(self.nt_mapping));
        }
        w.write_u8(self.fill_tile);
        proof {
            lemma_add_assoc(b, s4, enc_u8(self.fill_tile));
        }
        w.write_u8(self.fill_color);
        proof {
            lemma_add_assoc(b, s5, enc_u8(self.fill_color));
        }
        w.write_u8(self.exram_mode);
        proof {
            lemma_add_assoc(b, s6, enc_u8(self.exram_mode));
        }
        w.write_bytes(self.vram.as_slice());
        proof {
            lemma_add_assoc(b, s7, self.vram@);
        }
        w.write_bytes(self.exram.as_slice());
        proof {
            lemma_add_assoc(b, s8, self.exram@);
        }
        w.write_bytes(self.palette_ram.as_slice());
        proof {
            lemma_add_assoc(b, s9, self.palette_ram@);
        }
    }

    #[verifier::spinoff_prover]
    fn load_video_state(&mut self, r: &mut SavestateReader)
        requires
            old(self).wf(),
            old(r).wf(),
            old(r).pos + old(self).video_state_len() <= old(r).data@.len(),
            old(self).video_state_valid(old(r).data@, old(r).pos as int),
        ensures
            final(r).wf(),
            final(r).data@ == old(r).data@,
            final(r).pos == old(r).pos + old(self).video_state_len(),
            final(self).wf(),
            final(self).video_state_loaded(old(r).data@, old(r).pos as int),
            final(self).video_state_outside(&*old(self)),
            (final(self).chr_ram is Some) == (old(self).chr_ram is Some),
    {
        let chr_len: usize = if self.chr_ram.is_some() { CHR_RAM_SIZE + 1 } else { 1 };
        let chr_upper_bits = r.take_u8();
        let large_sprites = r.take_bool();
        let last_chr_write_was_b = r.take_bool();
        let _chr_flag = r.take_bool();
        let chr_data = if self.chr_ram.is_some() {
            r.take_bytes(CHR_RAM_SIZE)
        } else {
            Vec::new()
        };
        let nt_mapping = r.take_u8();
        let fill_tile = r.take_u8();
        let fill_color = r.take_u8();
        let exram_mode = r.take_u8();
        let vram = r.take_bytes(VRAM_SIZE);
        let exram = r.take_bytes(EXRAM_SIZE);
        let palette_ram = r.take_bytes(PALETTE_SIZE);
        self.chr_upper_bits = chr_upper_bits;
        self.large_sprites = large_sprites;
        self.last_chr_write_was_b = last_chr_write_was_b;
        if self.chr_ram.is_some() {
            self.chr_ram = Some(chr_data);
        }
        self.nt_mapping = nt_mapping;
        self.fill_tile = fill_tile;
        self.fill_color = fill_color;
        self.exram_mode = exram_mode;
        self.vram = vram;
        self.exram = exram;
        self.palette_ram = palette_ram;
    }

    #[verifier::spinoff_prover]
    proof fn lemma_video_state_roundtrip(o: Self, m: Self, n: Self, d: Seq<u8>, q: int)
        requires
            m.wf(),
            o.same_layout(&m),
            n.same_layout(&m),
            stored_at(d, q, m.video_state_bytes()),
        ensures
            o.video_state_len() == m.video_state_len(),
            o.video_state_valid(d, q),
            n.video_state_loaded(d, q) ==> n.video_state_same(&m),
    {
        let s0 = enc_u8(m.chr_upper_bits);
        let s1 = s0 + enc_bool(m.large_sprites);
        let s2 = s1 + enc_bool(m.last_chr_write_was_b);
        let s3 = s2 + m.chr_ram_state();
        let s4 = s3 + enc_u8(m.nt_mapping);
        let s5 = s4 + enc_u8(m.fill_tile);
        let s6 = s5 + enc_u8(m.fill_color);
        let s7 = s6 + enc_u8(m.exram_mode);
        let s8 = s7 + m.vram@;
        let s9 = s8 + m.exram@;
        let s10 = s9 + m.palette_ram@;
        lemma_stored_split(d, q, s9, m.palette_ram@);
        lemma_stored_split(d, q, s8, m.exram@);
        lemma_stored_split(d, q, s7, m.vram@);
        lemma_stored_split(d, q, s6, enc_u8(m.exram_mode));
        lemma_stored_split(d, q, s5, enc_u8(m.fill_color));
        lemma_stored_split(d, q, s4, enc_u8(m.fill_tile));
        lemma_stored_split(d, q, s3, enc_u8(m.nt_mapping));
        lemma_stored_split(d, q, s2, m.chr_ram_state());
        lemma_stored_split(d, q, s1, enc_bool(m.last_chr_write_was_b));
        lemma_stored_split(d, q, s0, enc_bool(m.large_sprites));
        lemma_stored_u8(d, q, m.chr_upper_bits);
        lemma_stored_bool(d, (q + 1), m.large_sprites);
        lemma_stored_bool(d, (q + 2), m.last_chr_write_was_b);
        match m.chr_ram {
            Some(ram) => {
                lemma_stored_split(d, (q + 3), enc_bool(true), ram@);
                lemma_stored_bool(d, (q + 3), true);
            },
            None => {
                lemma_stored_bool(d, (q + 3), false);
            },
        }
        lemma_stored_u8(d, (q + (if m.chr_ram is Some { CHR_RAM_SIZE as int + 1 } else { 1 }) + 3), m.nt_mapping);
        lemma_stored_u8(d, (q + (if m.chr_ram is Some { CHR_RAM_SIZE as int + 1 } else { 1 }) + 4), m.fill_tile);
        lemma_stored_u8(d, (q + (if m.chr_ram is Some { CHR_RAM_SIZE as int + 1 } else { 1 }) + 5), m.fill_color);
        lemma_stored_u8(d, (q + (if m.chr_ram is Some { CHR_RAM_SIZE as int + 1 } else { 1 }) + 6), m.exram_mode);
    }

    /// The bytes of the IRQ and multiplier part of the state.
    pub open spec fn irq_state_bytes(&self) -> Seq<u8> {
        enc_u8(self.irq_scanline)
            + enc_bool(self.irq_enabled)
            + enc_bool(self.irq_pending)
            + enc_u64(self.irq_pending_since_dot)
            + enc_bool(self.in_frame)
            + enc_u8(self.scanline_counter)
            + enc_u16(self.last_ppu_read_addr)
            + enc_u8(self.nt_read_counter)
            + enc_u64(self.last_ppu_fetch_dot)
            + enc_u8(self.multiplicand)
            + enc_u8(self.multiplier)
    }

    pub open spec fn irq_state_len(&self) -> int {
        26
    }

    pub open spec fn irq_state_valid(&self, d: Seq<u8>, q: int) -> bool {
        true
    }

    pub open spec fn irq_state_loaded(&self, d: Seq<u8>, q: int) -> bool {
        &&& self.irq_scanline == d[q]
        &&& self.irq_enabled == (d[(q + 1)] != 0)
        &&& self.irq_pending == (d[(q + 2)] != 0)
        &&& self.irq_pending_since_dot == dec_u64_at(d, (q + 3))
        &&& self.in_frame == (d[(q + 11)] != 0)
        &&& self.scanline_counter == d[(q + 12)]
        &&& self.last_ppu_read_addr == dec_u16_at(d, (q + 13))
        &&& self.nt_read_counter == d[(q + 15)]
        &&& self.last_ppu_fetch_dot == dec_u64_at(d, (q + 16))
        &&& self.multiplicand == d[(q + 24)]
        &&& self.multiplier == d[(q + 25)]
    }

    pub open spec fn irq_state_same(&self, other: &Self) -> bool {
        &&& self.irq_scanline == other.irq_scanline
        &&& self.irq_enabled == other.irq_enabled
        &&& self.irq_pending == other.irq_pending
        &&& self.irq_pending_since_dot == other.irq_pending_since_dot
        &&& self.in_frame == other.in_frame
        &&& self.scanline_counter == other.scanline_counter
        &&& self.last_ppu_read_addr == other.last_ppu_read_addr
        &&& self.nt_read_counter == other.nt_read_counter
        &&& self.last_ppu_fetch_dot == other.last_ppu_fetch_dot
        &&& self.multiplicand == other.multiplicand
        &&& self.multiplier == other.multiplier
    }

    /// Every field outside the IRQ and multiplier part is as in `other`.
    pub open spec fn irq_state_outside(&self, other: &Self) -> bool {
        &&& self.internal_ram == other.internal_ram
        &&& self.prg_rom == other.prg_rom
        &&& self.prg_ram == other.prg_ram
        &&& self.chr_rom == other.chr_rom
        &&& self.chr_ram == other.chr_ram
        &&& self.vram == other.vram
        &&& self.exram == other.exram
        &&& self.palette_ram == other.palette_ram
        &&& self.prg_mode == other.prg_mode
        &&& self.prg_bank_regs == other.prg_bank_regs
        &&& self.ram_protect_1 == other.ram_protect_1
        &&& self.ram_protect_2 == other.ram_protect_2
        &&& self.chr_mode == other.chr_mode
        &&& self.chr_bank_a == other.chr_bank_a
        &&& self.chr_bank_b == other.chr_bank_b
        &&& self.chr_upper_bits == other.chr_upper_bits
        &&& self.large_sprites == other.large_sprites
        &&& self.last_chr_write_was_b == other.last_chr_write_was_b
        &&& self.nt_mapping == other.nt_mapping
        &&& self.fill_tile == other.fill_tile
        &&& self.fill_color == other.fill_color
        &&& self.exram_mode == other.exram_mode
        &&& self.pulse1 == other.pulse1
        &&& self.pulse2 == other.pulse2
        &&& self.pcm_output == other.pcm_output
        &&& self.pcm_read_mode == other.pcm_read_mode
        &&& self.audio_half_clock == other.audio_half_clock
        &&& self.audio_frame_counter == other.audio_frame_counter
        &&& self.vsplit_mode == other.vsplit_mode
        &&& self.vsplit_scroll == other.vsplit_scroll
        &&& self.vsplit_bank == other.vsplit_bank
        &&& self.exattr_fetch_counter == other.exattr_fetch_counter
        &&& self.exattr_nt_offset == other.exattr_nt_offset
        &&& self.exattr_chr_bank == other.exattr_chr_bank
        &&& self.controllers == other.controllers
        &&& self.has_battery == other.has_battery
        &&& self.split_tile_number == other.split_tile_number
        &&& self.need_in_frame == other.need_in_frame
        &&& self.rendering == other.rendering
    }

    #[verifier::spinoff_prover]
    fn save_irq_state(&self, w: &mut SavestateWriter)
        ensures
            final(w).buf@ == old(w).buf@ + self.irq_state_bytes(),
    {
        let ghost b = w.buf@;
        let ghost s0 = enc_u8(self.irq_scanline);
        let ghost s1 = s0 + enc_bool(self.irq_enabled);
        let ghost s2 = s1 + enc_bool(self.irq_pending);
        let ghost s3 = s2 + enc_u64(self.irq_pending_since_dot);
        let ghost s4 = s3 + enc_bool(self.in_frame);
        let ghost s5 = s4 + enc_u8(self.scanline_counter);
        let ghost s6 = s5 + enc_u16(self.last_ppu_read_addr);
        let ghost s7 = s6 + enc_u8(self.nt_read_counter);
        let ghost s8 = s7 + enc_u64(self.last_ppu_fetch_dot);
        let ghost s9 = s8 + enc_u8(self.multiplicand);
        let ghost s10 = s9 + enc_u8(self.multiplier);
        w.write_u8(self.irq_scanline);
        w.write_bool(self.irq_enabled);
        proof {
            lemma_add_assoc(b, s0, enc_bool(self.irq_enabled));
        }
        w.write_bool(self.irq_pending);
        proof {
            lemma_add_assoc(b, s1, enc_bool(self.irq_pending));
        }
        w.write_u64(self.irq_pending_since_dot);
        proof {
            lemma_add_assoc(b, s2, enc_u64(self.irq_pending_since_dot));
        }
        w.write_bool(self.in_frame);
        proof {
            lemma_add_assoc(b, s3, enc_bool(self.in_frame));
        }
        w.write_u8(self.scanline_counter);
        proof {
            lemma_add_assoc(b, s4, enc_u8(self.scanline_counter));
        }
        w.write_u16(self.last_ppu_read_addr);
        proof {
            lemma_add_assoc(b, s5, enc_u16(self.last_ppu_read_addr));
        }
        w.write_u8(self.nt_read_counter);
        proof {
            lemma_add_assoc(b, s6, enc_u8(self.nt_read_counter));
        }
        w.write_u64(self.last_ppu_fetch_dot);
        proof {
            lemma_add_assoc(b, s7, enc_u64(self.last_ppu_fetch_dot));
        }
        w.write_u8(self.multiplicand);
        proof {
            lemma_add_assoc(b, s8, enc_u8(self.multiplicand));
        }
        w.write_u8(self.multiplier);
        proof {
            lemma_add_assoc(b, s9, enc_u8(self.multiplier));
        }
    }

    #[verifier::spinoff_prover]
    fn load_irq_state(&mut self, r: &mut SavestateReader)
        requires
            old(self).wf(),
            old(r).wf(),
            old(r).pos + old(self).irq_state_len() <= old(r).data@.len(),
            old(self).irq_state_valid(old(r).data@, old(r).pos as int),
        ensures
            final(r).wf(),
            final(r).data@ == old(r).data@,
            final(r).pos == old(r).pos + old(self).irq_state_len(),
            final(self).wf(),
            final(self).irq_state_loaded(old(r).data@, old(r).pos as int),
            final(self).irq_state_outside(&*old(self)),
    {
        let irq_scanline = r.take_u8();
        let irq_enabled = r.take_bool();
        let irq_pending = r.take_bool();
        let irq_pending_since_dot = r.take_u64();
        let in_frame = r.take_bool();
        let scanline_counter = r.take_u8();
        let last_ppu_read_addr = r.take_u16();
        let nt_read_counter = r.take_u8();
        let last_ppu_fetch_dot = r.take_u64();
        let multiplicand = r.take_u8();
        let multiplier = r.take_u8();
        self.irq_scanline = irq_scanline;
        self.irq_enabled = irq_enabled;
        self.irq_pending = irq_pending;
        self.irq_pending_since_dot = irq_pending_since_dot;
        self.in_frame = in_frame;
        self.scanline_counter = scanline_counter;
        self.last_ppu_read_addr = last_ppu_read_addr;
        self.nt_read_counter = nt_read_counter;
        self.last_ppu_fetch_dot = last_ppu_fetch_dot;
        self.multiplicand = multiplicand;
        self.multiplier = multiplier;
    }

    #[verifier::spinoff_prover]
    proof fn lemma_irq_state_roundtrip(o: Self, m: Self, n: Self, d: Seq<u8>, q: int)
        requires
            m.wf(),
            o.same_layout(&m),
            n.same_layout(&m),
            stored_at(d, q, m.irq_state_bytes()),
        ensures
            o.irq_state_len() == m.irq_state_len(),
            o.irq_state_valid(d, q),
            n.irq_state_loaded(d, q) ==> n.irq_state_same(&m),
    {
        let s0 = enc_u8(m.irq_scanline);
        let s1 = s0 + enc_bool(m.irq_enabled);
        let s2 = s1 + enc_bool(m.irq_pending);
        let s3 = s2 + enc_u64(m.irq_pending_since_dot);
        let s4 = s3 + enc_bool(m.in_frame);
        let s5 = s4 + enc_u8(m.scanline_counter);
        let s6 = s5 + enc_u16(m.last_ppu_read_addr);
        let s7 = s6 + enc_u8(m.nt_read_counter);
        let s8 = s7 + enc_u64(m.last_ppu_fetch_dot);
        let s9 = s8 + enc_u8(m.multiplicand);
        let s10 = s9 + enc_u8(m.multiplier);
        lemma_stored_split(d, q, s9, enc_u8(m.multiplier));
        lemma_stored_split(d, q, s8, enc_u8(m.multiplicand));
        lemma_stored_split(d, q, s7, enc_u64(m.last_ppu_fetch_dot));
        lemma_stored_split(d, q, s6, enc_u8(m.nt_read_counter));
        lemma_stored_split(d, q, s5, enc_u16(m.last_ppu_read_addr));
        lemma_stored_split(d, q, s4, enc_u8(m.scanline_counter));
        lemma_stored_split(d, q, s3, enc_bool(m.in_frame));
        lemma_stored_split(d, q, s2, enc_u64(m.irq_pending_since_dot));
        lemma_stored_split(d, q, s1, enc_bool(m.irq_pending));
        lemma_stored_split(d, q, s0, enc_bool(m.irq_enabled));
        lemma_stored_u8(d, q, m.irq_scanline);
        lemma_stored_bool(d, (q + 1), m.irq_enabled);
        lemma_stored_bool(d, (q + 2), m.irq_pending);
        lemma_stored_u64(d, (q + 3), m.irq_pending_since_dot);
        lemma_stored_bool(d, (q + 11), m.in_frame);
        lemma_stored_u8(d, (q + 12), m.scanline_counter);
        lemma_stored_u16(d, (q + 13), m.last_ppu_read_addr);
        lemma_stored_u8(d, (q + 15), m.nt_read_counter);
        lemma_stored_u64(d, (q + 16), m.last_ppu_fetch_dot);
        lemma_stored_u8(d, (q + 24), m.multiplicand);
        lemma_stored_u8(d, (q + 25), m.multiplier);
    }

    /// The bytes of the pulse channel part of the state.
    pub open spec fn pulse_state_bytes(&self) -> Seq<u8> {
        enc_u8(self.pulse1.duty_cycle)
            + enc_u8(self.pulse1.duty_step)
            + enc_u16(self.pulse1.timer)
            + enc_u16(self.pulse1.timer_value)
            + enc_u8(self.pulse1.length_counter)
            + enc_bool(self.pulse1.length_counter_halt)
            + enc_u8(self.pulse1.volume)
            + enc_bool(self.pulse1.constant_volume)
            + enc_bool(self.pulse1.envelope_start)
            + enc_u8(self.pulse1.envelope_divider)
            + enc_u8(self.pulse1.envelope_decay_level)
            + enc_bool(self.pulse1.enabled)
            + enc_u8(self.pulse1.output)
            + enc_u8(self.pulse2.duty_cycle)
            + enc_u8(self.pulse2.duty_step)
            + enc_u16(self.pulse2.timer)
            + enc_u16(self.pulse2.timer_value)
            + enc_u8(self.pulse2.length_counter)
            + enc_bool(self.pulse2.length_counter_halt)
            + enc_u8(self.pulse2.volume)
            + enc_bool(self.pulse2.constant_volume)
            + enc_bool(self.pulse2.envelope_start)
            + enc_u8(self.pulse2.envelope_divider)
            + enc_u8(self.pulse2.envelope_decay_level)
            + enc_bool(self.pulse2.enabled)
            + enc_u8(self.pulse2.output)
    }

    pub open spec fn pulse_state_len(&self) -> int {
        30
    }

    pub open spec fn pulse_state_valid(&self, d: Seq<u8>, q: int) -> bool {
        &&& (d[q]) < 4
        &&& (d[(q + 1)]) < 8
        &&& (d[(q + 15)]) < 4
        &&& (d[(q + 16)]) < 8
    }

    pub open spec fn pulse_state_loaded(&self, d: Seq<u8>, q: int) -> bool {
        &&& self.pulse1.duty_cycle == d[q]
        &&& self.pulse1.duty_step == d[(q + 1)]
        &&& self.pulse1.timer == dec_u16_at(d, (q + 2))
        &&& self.pulse1.timer_value == dec_u16_at(d, (q + 4))
        &&& self.pulse1.length_counter == d[(q + 6)]
        &&& self.pulse1.length_counter_halt == (d[(q + 7)] != 0)
        &&& self.pulse1.volume == d[(q + 8)]
        &&& self.pulse1.constant_volume == (d[(q + 9)] != 0)
        &&& self.pulse1.envelope_start == (d[(q + 10)] != 0)
        &&& self.pulse1.envelope_divider == d[(q + 11)]
        &&& self.pulse1.envelope_decay_level == d[(q + 12)]
        &&& self.pulse1.enabled == (d[(q + 13)] != 0)
        &&& self.pulse1.output == d[(q + 14)]
        &&& self.pulse2.duty_cycle == d[(q + 15)]
        &&& self.pulse2.duty_step == d[(q + 16)]
        &&& self.pulse2.timer == dec_u16_at(d, (q + 17))
        &&& self.pulse2.timer_value == dec_u16_at(d, (q + 19))
        &&& self.pulse2.length_counter == d[(q + 21)]
        &&& self.pulse2.length_counter_halt == (d[(q + 22)] != 0)
        &&& self.pulse2.volume == d[(q + 23)]
        &&& self.pulse2.constant_volume == (d[(q + 24)] != 0)
        &&& self.pulse2.envelope_start == (d[(q + 25)] != 0)
        &&& self.pulse2.envelope_divider == d[(q + 26)]
        &&& self.pulse2.envelope_decay_level == d[(q + 27)]
        &&& self.pulse2.enabled == (d[(q + 28)] != 0)
        &&& self.pulse2.output == d[(q + 29)]
    }

    pub open spec fn pulse_state_same(&self, other: &Self) -> bool {
        &&& self.pulse1.duty_cycle == other.pulse1.duty_cycle
        &&& self.pulse1.duty_step == other.pulse1.duty_step
        &&& self.pulse1.timer == other.pulse1.timer
        &&& self.pulse1.timer_value == other.pulse1.timer_value
        &&& self.pulse1.length_counter == other.pulse1.length_counter
        &&& self.pulse1.length_counter_halt == other.pulse1.length_counter_halt
        &&& self.pulse1.volume == other.pulse1.volume
        &&& self.pulse1.constant_volume == other.pulse1.constant_volume
        &&& self.pulse1.envelope_start == other.pulse1.envelope_start
        &&& self.pulse1.envelope_divider == other.pulse1.envelope_divider
        &&& self.pulse1.envelope_decay_level == other.pulse1.envelope_decay_level
        &&& self.pulse1.enabled == other.pulse1.enabled
        &&& self.pulse1.output == other.pulse1.output
        &&& self.pulse2.duty_cycle == other.pulse2.duty_cycle
        &&& self.pulse2.duty_step == other.pulse2.duty_step
        &&& self.pulse2.timer == other.pulse2.timer
        &&& self.pulse2.timer_value == other.pulse2.timer_value
        &&& self.pulse2.length_counter == other.pulse2.length_counter
        &&& self.pulse2.length_counter_halt == other.pulse2.length_counter_halt
        &&& self.pulse2.volume == other.pulse2.volume
        &&& self.pulse2.constant_volume == other.pulse2.constant_volume
        &&& self.pulse2.envelope_start == other.pulse2.envelope_start
        &&& self.pulse2.envelope_divider == other.pulse2.envelope_divider
        &&& self.pulse2.envelope_decay_level == other.pulse2.envelope_decay_level
        &&& self.pulse2.enabled == other.pulse2.enabled
        &&& self.pulse2.output == other.pulse2.output
    }

    /// Every field outside the pulse channel part is as in `other`.
    pub open spec fn pulse_state_outside(&self, other: &Self) -> bool {
        &&& self.internal_ram == other.internal_ram
        &&& self.prg_rom == other.prg_rom
        &&& self.prg_ram == other.prg_ram
        &&& self.chr_rom == other.chr_rom
        &&& self.chr_ram == other.chr_ram
        &&& self.vram == other.vram
        &&& self.exram == other.exram
        &&& self.palette_ram == other.palette_ram
        &&& self.prg_mode == other.prg_mode
        &&& self.prg_bank_regs == other.prg_bank_regs
        &&& self.ram_protect_1 == other.ram_protect_1
        &&& self.ram_protect_2 == other.ram_protect_2
        &&& self.chr_mode == other.chr_mode
        &&& self.chr_bank_a == other.chr_bank_a
        &&& self.chr_bank_b == other.chr_bank_b
        &&& self.chr_upper_bits == other.chr_upper_bits
        &&& self.large_sprites == other.large_sprites
        &&& self.last_chr_write_was_b == other.last_chr_write_was_b
        &&& self.nt_mapping == other.nt_mapping
        &&& self.fill_tile == other.fill_tile
        &&& self.fill_color == other.fill_color
        &&& self.exram_mode == other.exram_mode
        &&& self.irq_scanline == other.irq_scanline
        &&& self.irq_enabled == other.irq_enabled
        &&& self.irq_pending == other.irq_pending
        &&& self.irq_pending_since_dot == other.irq_pending_since_dot
        &&& self.in_frame == other.in_frame
        &&& self.scanline_counter == other.scanline_counter
        &&& self.last_ppu_read_addr == other.last_ppu_read_addr
        &&& self.nt_read_counter == other.nt_read_counter
        &&& self.last_ppu_fetch_dot == other.last_ppu_fetch_dot
        &&& self.multiplicand == other.multiplicand
        &&& self.multiplier == other.multiplier
        &&& self.pcm_output == other.pcm_output
        &&& self.pcm_read_mode == other.pcm_read_mode
        &&& self.audio_half_clock == other.audio_half_clock
        &&& self.audio_frame_counter == other.audio_frame_counter
        &&& self.vsplit_mode == other.vsplit_mode
        &&& self.vsplit_scroll == other.vsplit_scroll
        &&& self.vsplit_bank == other.vsplit_bank
        &&& self.exattr_fetch_counter == other.exattr_fetch_counter
        &&& self.exattr_nt_offset == other.exattr_nt_offset
        &&& self.exattr_chr_bank == other.exattr_chr_bank
        &&& self.controllers == other.controllers
        &&& self.has_battery == other.has_battery
        &&& self.split_tile_number == other.split_tile_number
        &&& self.need_in_frame == other.need_in_frame
        &&& self.rendering == other.rendering
    }

    fn pulse_state_valid_exec(&self, r: &SavestateReader, q: usize) -> (b: bool)
        requires
            r.wf(),
            q + self.pulse_state_len() <= r.data.len(),
        ensures
            b == self.pulse_state_valid(r.data@, q as int),
    {
        (r.data[q] < 4)
            && (r.data[(q + 1)] < 8)
            && (r.data[(q + 15)] < 4)
            && (r.data[(q + 16)] < 8)
    }

    #[verifier::spinoff_prover]
    fn save_pulse_state(&self, w: &mut SavestateWriter)
        ensures
            final(w).buf@ == old(w).buf@ + self.pulse_state_bytes(),
    {
        let ghost b = w.buf@;
        let ghost s0 = enc_u8(self.pulse1.duty_cycle);
        let ghost s1 = s0 + enc_u8(self.pulse1.duty_step);
        let ghost s2 = s1 + enc_u16(self.pulse1.timer);
        let ghost s3 = s2 + enc_u16(self.pulse1.timer_value);
        let ghost s4 = s3 + enc_u8(self.pulse1.length_counter);
        let ghost s5 = s4 + enc_bool(self.pulse1.length_counter_halt);
        let ghost s6 = s5 + enc_u8(self.pulse1.volume);
        let ghost s7 = s6 + enc_bool(self.pulse1.constant_volume);
        let ghost s8 = s7 + enc_bool(self.pulse1.envelope_start);
        let ghost s9 = s8 + enc_u8(self.pulse1.envelope_divider);
        let ghost s10 = s9 + enc_u8(self.pulse1.envelope_decay_level);
        let ghost s11 = s10 + enc_bool(self.pulse1.enabled);
        let ghost s12 = s11 + enc_u8(self.pulse1.output);
        let ghost s13 = s12 + enc_u8(self.pulse2.duty_cycle);
        let ghost s14 = s13 + enc_u8(self.pulse2.duty_step);
        let ghost s15 = s14 + enc_u16(self.pulse2.timer);
        let ghost s16 = s15 + enc_u16(self.pulse2.timer_value);
        let ghost s17 = s16 + enc_u8(self.pulse2.length_counter);
        let ghost s18 = s17 + enc_bool(self.pulse2.length_counter_halt);
        let ghost s19 = s18 + enc_u8(self.pulse2.volume);
        let ghost s20 = s19 + enc_bool(self.pulse2.constant_volume);
        let ghost s21 = s20 + enc_bool(self.pulse2.envelope_start);
        let ghost s22 = s21 + enc_u8(self.pulse2.envelope_divider);
        let ghost s23 = s22 + enc_u8(self.pulse2.envelope_decay_level);
        let ghost s24 = s23 + enc_bool(self.pulse2.enabled);
        let ghost s25 = s24 + enc_u8(self.pulse2.output);
        w.write_u8(self.pulse1.duty_cycle);
        w.write_u8(self.pulse1.duty_step);
        proof {
            lemma_add_assoc(b, s0, enc_u8(self.pulse1.duty_step));
        }
        w.write_u16(self.pulse1.timer);
        proof {
            lemma_add_assoc(b, s1, enc_u16(self.pulse1.timer));
        }
        w.write_u16(self.pulse1.timer_value);
        proof {
            lemma_add_assoc(b, s2, enc_u16(self.pulse1.timer_value));
        }
        w.write_u8(self.pulse1.length_counter);
        proof {
            lemma_add_assoc(b, s3, enc_u8(self.pulse1.length_counter));
        }
        w.write_bool(self.pulse1.length_counter_halt);
        proof {
            lemma_add_assoc(b, s4, enc_bool(self.pulse1.length_counter_halt));
        }
        w.write_u8(self.pulse1.volume);
        proof {
            lemma_add_assoc(b, s5, enc_u8(self.pulse1.volume));
        }
        w.write_bool(self.pulse1.constant_volume);
        proof {
            lemma_add_assoc(b, s6, enc_bool(self.pulse1.constant_volume));
        }
        w.write_bool(self.pulse1.envelope_start);
        proof {
            lemma_add_assoc(b, s7, enc_bool(self.pulse1.envelope_start));
        }
        w.write_u8(self.pulse1.envelope_divider);
        proof {
            lemma_add_assoc(b, s8, enc_u8(self.pulse1.envelope_divider));
        }
        w.write_u8(self.pulse1.envelope_decay_level);
        proof {
            lemma_add_assoc(b, s9, enc_u8(self.pulse1.envelope_decay_level));
        }
        w.write_bool(self.pulse1.enabled);
        proof {
            lemma_add_assoc(b, s10, enc_bool(self.pulse1.enabled));
        }
        w.write_u8(self.pulse1.output);
        proof {
            lemma_add_assoc(b, s11, enc_u8(self.pulse1.output));
        }
        w.write_u8(self.pulse2.duty_cycle);
        proof {
            lemma_add_assoc(b, s12, enc_u8(self.pulse2.duty_cycle));
        }
        w.write_u8(self.pulse2.duty_step);
        proof {
            lemma_add_assoc(b, s13, enc_u8(self.pulse2.duty_step));
        }
        w.write_u16(self.pulse2.timer);
        proof {
            lemma_add_assoc(b, s14, enc_u16(self.pulse2.timer));
        }
        w.write_u16(self.pulse2.timer_value);
        proof {
            lemma_add_assoc(b, s15, enc_u16(self.pulse2.timer_value));
        }
        w.write_u8(self.pulse2.length_counter);
        proof {
            lemma_add_assoc(b, s16, enc_u8(self.pulse2.length_counter));
        }
        w.write_bool(self.pulse2.length_counter_halt);
        proof {
            lemma_add_assoc(b, s17, enc_bool(self.pulse2.length_counter_halt));
        }
        w.write_u8(self.pulse2.volume);
        proof {
            lemma_add_assoc(b, s18, enc_u8(self.pulse2.volume));
        }
        w.write_bool(self.pulse2.constant_volume);
        proof {
            lemma_add_assoc(b, s19, enc_bool(self.pulse2.constant_volume));
        }
        w.write_bool(self.pulse2.envelope_start);
        proof {
            lemma_add_assoc(b, s20, enc_bool(self.pulse2.envelope_start));
        }
        w.write_u8(self.pulse2.envelope_divider);
        proof {
            lemma_add_assoc(b, s21, enc_u8(self.pulse2.envelope_divider));
        }
        w.write_u8(self.pulse2.envelope_decay_level);
        proof {
            lemma_add_assoc(b, s22, enc_u8(self.pulse2.envelope_decay_level));
        }
        w.write_bool(self.pulse2.enabled);
        proof {
            lemma_add_assoc(b, s23, enc_bool(self.pulse2.enabled));
        }
        w.write_u8(self.pulse2.output);
        proof {
            lemma_add_assoc(b, s24, enc_u8(self.pulse2.output));
        }
    }

    #[verifier::spinoff_prover]
    fn load_pulse_state(&mut self, r: &mut SavestateReader)
        requires
            old(self).wf(),
            old(r).wf(),
            old(r).pos + old(self).pulse_state_len() <= old(r).data@.len(),
            old(self).pulse_state_valid(old(r).data@, old(r).pos as int),
        ensures
            final(r).wf(),
            final(r).data@ == old(r).data@,
            final(r).pos == old(r).pos + old(self).pulse_state_len(),
            final(self).wf(),
            final(self).pulse_state_loaded(old(r).data@, old(r).pos as int),
            final(self).pulse_state_outside(&*old(self)),
    {
        let p1_duty_cycle = r.take_u8();
        let p1_duty_step = r.take_u8();
        let p1_timer = r.take_u16();
        let p1_timer_value = r.take_u16();
        let p1_length_counter = r.take_u8();
        let p1_length_counter_halt = r.take_bool();
        let p1_volume = r.take_u8();
        let p1_constant_volume = r.take_bool();
        let p1_envelope_start = r.take_bool();
        let p1_envelope_divider = r.take_u8();
        let p1_envelope_decay_level = r.take_u8();
        let p1_enabled = r.take_bool();
        let p1_output = r.take_u8();
        let p2_duty_cycle = r.take_u8();
        let p2_duty_step = r.take_u8();
        let p2_timer = r.take_u16();
        let p2_timer_value = r.take_u16();
        let p2_length_counter = r.take_u8();
        let p2_length_counter_halt = r.take_bool();
        let p2_volume = r.take_u8();
        let p2_constant_volume = r.take_bool();
        let p2_envelope_start = r.take_bool();
        let p2_envelope_divider = r.take_u8();
        let p2_envelope_decay_level = r.take_u8();
        let p2_enabled = r.take_bool();
        let p2_output = r.take_u8();
        self.pulse1.duty_cycle = p1_duty_cycle;
        self.pulse1.duty_step = p1_duty_step;
        self.pulse1.timer = p1_timer;
        self.pulse1.timer_value = p1_timer_value;
        self.pulse1.length_counter = p1_length_counter;
        self.pulse1.length_counter_halt = p1_length_counter_halt;
        self.pulse1.volume = p1_volume;
        self.pulse1.constant_volume = p1_constant_volume;
        self.pulse1.envelope_start = p1_envelope_start;
        self.pulse1.envelope_divider = p1_envelope_divider;
        self.pulse1.envelope_decay_level = p1_envelope_decay_level;
        self.pulse1.enabled = p1_enabled;
        self.pulse1.output = p1_output;
        self.pulse2.duty_cycle = p2_duty_cycle;
        self.pulse2.duty_step = p2_duty_step;
        self.pulse2.timer = p2_timer;
        self.pulse2.timer_value = p2_timer_value;
        self.pulse2.length_counter = p2_length_counter;
        self.pulse2.length_counter_halt = p2_length_counter_halt;
        self.pulse2.volume = p2_volume;
        self.pulse2.constant_volume = p2_constant_volume;
        self.pulse2.envelope_start = p2_envelope_start;
        self.pulse2.envelope_divider = p2_envelope_divider;
        self.pulse2.envelope_decay_level = p2_envelope_decay_level;
        self.pulse2.enabled = p2_enabled;
        self.pulse2.output = p2_output;
    }

    #[verifier::spinoff_prover]
    proof fn lemma_pulse_state_roundtrip(o: Self, m: Self, n: Self, d: Seq<u8>, q: int)
        requires
            m.wf(),
            o.same_layout(&m),
            n.same_layout(&m),
            stored_at(d, q, m.pulse_state_bytes()),
        ensures
            o.pulse_state_len() == m.pulse_state_len(),
            o.pulse_state_valid(d, q),
            n.pulse_state_loaded(d, q) ==> n.pulse_state_same(&m),
    {
        let s0 = enc_u8(m.pulse1.duty_cycle);
        let s1 = s0 + enc_u8(m.pulse1.duty_step);
        let s2 = s1 + enc_u16(m.pulse1.timer);
        let s3 = s2 + enc_u16(m.pulse1.timer_value);
        let s4 = s3 + enc_u8(m.pulse1.length_counter);
        let s5 = s4 + enc_bool(m.pulse1.length_counter_halt);
        let s6 = s5 + enc_u8(m.pulse1.volume);
        let s7 = s6 + enc_bool(m.pulse1.constant_volume);
        let s8 = s7 + enc_bool(m.pulse1.envelope_start);
        let s9 = s8 + enc_u8(m.pulse1.envelope_divider);
        let s10 = s9 + enc_u8(m.pulse1.envelope_decay_level);
        let s11 = s10 + enc_bool(m.pulse1.enabled);
        let s12 = s11 + enc_u8(m.pulse1.output);
        let s13 = s12 + enc_u8(m.pulse2.duty_cycle);
        let s14 = s13 + enc_u8(m.pulse2.duty_step);
        let s15 = s14 + enc_u16(m.pulse2.timer);
        let s16 = s15 + enc_u16(m.pulse2.timer_value);
        let s17 = s16 + enc_u8(m.pulse2.length_counter);
        let s18 = s17 + enc_bool(m.pulse2.length_counter_halt);
        let s19 = s18 + enc_u8(m.pulse2.volume);
        let s20 = s19 + enc_bool(m.pulse2.constant_volume);
        let s21 = s20 + enc_bool(m.pulse2.envelope_start);
        let s22 = s21 + enc_u8(m.pulse2.envelope_divider);
        let s23 = s22 + enc_u8(m.pulse2.envelope_decay_level);
        let s24 = s23 + enc_bool(m.pulse2.enabled);
        let s25 = s24 + enc_u8(m.pulse2.output);
        lemma_stored_split(d, q, s24, enc_u8(m.pulse2.output));
        lemma_stored_split(d, q, s23, enc_bool(m.pulse2.enabled));
        lemma_stored_split(d, q, s22, enc_u8(m.pulse2.envelope_decay_level));
        lemma_stored_split(d, q, s21, enc_u8(m.pulse2.envelope_divider));
        lemma_stored_split(d, q, s20, enc_bool(m.pulse2.envelope_start));
        lemma_stored_split(d, q, s19, enc_bool(m.pulse2.constant_volume));
        lemma_stored_split(d, q, s18, enc_u8(m.pulse2.volume));
        lemma_stored_split(d, q, s17, enc_bool(m.pulse2.length_counter_halt));
        lemma_stored_split(d, q, s16, enc_u8(m.pulse2.length_counter));
        lemma_stored_split(d, q, s15, enc_u16(m.pulse2.timer_value));
        lemma_stored_split(d, q, s14, enc_u16(m.pulse2.timer));
        lemma_stored_split(d, q, s13, enc_u8(m.pulse2.duty_step));
        lemma_stored_split(d, q, s12, enc_u8(m.pulse2.duty_cycle));
        lemma_stored_split(d, q, s11, enc_u8(m.pulse1.output));
        lemma_stored_split(d, q, s10, enc_bool(m.pulse1.enabled));
        lemma_stored_split(d, q, s9, enc_u8(m.pulse1.envelope_decay_level));
        lemma_stored_split(d, q, s8, enc_u8(m.pulse1.envelope_divider));
        lemma_stored_split(d, q, s7, enc_bool(m.pulse1.envelope_start));
        lemma_stored_split(d, q, s6, enc_bool(m.pulse1.constant_volume));
        lemma_stored_split(d, q, s5, enc_u8(m.pulse1.volume));
        lemma_stored_split(d, q, s4, enc_bool(m.pulse1.length_counter_halt));
        lemma_stored_split(d, q, s3, enc_u8(m.pulse1.length_counter));
        lemma_stored_split(d, q, s2, enc_u16(m.pulse1.timer_value));
        lemma_stored_split(d, q, s1, enc_u16(m.pulse1.timer));
        lemma_stored_split(d, q, s0, enc_u8(m.pulse1.duty_step));
        lemma_stored_u8(d, q, m.pulse1.duty_cycle);
        lemma_stored_u8(d, (q + 1), m.pulse1.duty_step);
        lemma_stored_u16(d, (q + 2), m.pulse1.timer);
        lemma_stored_u16(d, (q + 4), m.pulse1.timer_value);
        lemma_stored_u8(d, (q + 6), m.pulse1.length_counter);
        lemma_stored_bool(d, (q + 7), m.pulse1.length_counter_halt);
        lemma_stored_u8(d, (q + 8), m.pulse1.volume);
        lemma_stored_bool(d, (q + 9), m.pulse1.constant_volume);
        lemma_stored_bool(d, (q + 10), m.pulse1.envelope_start);
        lemma_stored_u8(d, (q + 11), m.pulse1.envelope_divider);
        lemma_stored_u8(d, (q + 12), m.pulse1.envelope_decay_level);
        lemma_stored_bool(d, (q + 13), m.pulse1.enabled);
        lemma_stored_u8(d, (q + 14), m.pulse1.output);
        lemma_stored_u8(d, (q + 15), m.pulse2.duty_cycle);
        lemma_stored_u8(d, (q + 16), m.pulse2.duty_step);
        lemma_stored_u16(d, (q + 17), m.pulse2.timer);
        lemma_stored_u16(d, (q + 19), m.pulse2.timer_value);
        lemma_stored_u8(d, (q + 21), m.pulse2.length_counter);
        lemma_stored_bool(d, (q + 22), m.pulse2.length_counter_halt);
        lemma_stored_u8(d, (q + 23), m.pulse2.volume);
        lemma_stored_bool(d, (q + 24), m.pulse2.constant_volume);
        lemma_stored_bool(d, (q + 25), m.pulse2.envelope_start);
        lemma_stored_u8(d, (q + 26), m.pulse2.envelope_divider);
        lemma_stored_u8(d, (q + 27), m.pulse2.envelope_decay_level);
        lemma_stored_bool(d, (q + 28), m.pulse2.enabled);
        lemma_stored_u8(d, (q + 29), m.pulse2.output);
    }

    /// The bytes of the PCM, split and fetch tracking part of the state.
    pub open spec fn misc_state_bytes(&self) -> Seq<u8> {
        enc_u8(self.pcm_output)
            + enc_bool(self.pcm_read_mode)
            + enc_bool(self.audio_half_clock)
            + enc_u16(self.audio_frame_counter)
            + enc_u8(self.vsplit_mode)
            + enc_u8(self.vsplit_scroll)
            + enc_u8(self.vsplit_bank)
            + enc_u8(self.exattr_fetch_counter)
            + enc_u16(self.exattr_nt_offset)
            + enc_u16(self.exattr_chr_bank)
            + enc_u8(self.split_tile_number)
            + enc_bool(self.need_in_frame)
            + enc_bool(self.rendering)
    }

    pub open spec fn misc_state_len(&self) -> int {
        16
    }

    pub open spec fn misc_state_valid(&self, d: Seq<u8>, q: int) -> bool {
        &&& (dec_u16_at(d, (q + 3))) < AUDIO_FRAME_LENGTH
    }

    pub open spec fn misc_state_loaded(&self, d: Seq<u8>, q: int) -> bool {
        &&& self.pcm_output == d[q]
        &&& self.pcm_read_mode == (d[(q + 1)] != 0)
        &&& self.audio_half_clock == (d[(q + 2)] != 0)
        &&& self.audio_frame_counter == dec_u16_at(d, (q + 3))
        &&& self.vsplit_mode == d[(q + 5)]
        &&& self.vsplit_scroll == d[(q + 6)]
        &&& self.vsplit_bank == d[(q + 7)]
        &&& self.exattr_fetch_counter == d[(q + 8)]
        &&& self.exattr_nt_offset == dec_u16_at(d, (q + 9))
        &&& self.exattr_chr_bank == dec_u16_at(d, (q + 11))
        &&& self.split_tile_number == d[(q + 13)]
        &&& self.need_in_frame == (d[(q + 14)] != 0)
        &&& self.rendering == (d[(q + 15)] != 0)
    }

    pub open spec fn misc_state_same(&self, other: &Self) -> bool {
        &&& self.pcm_output == other.pcm_output
        &&& self.pcm_read_mode == other.pcm_read_mode
        &&& self.audio_half_clock == other.audio_half_clock
        &&& self.audio_frame_counter == other.audio_frame_counter
        &&& self.vsplit_mode == other.vsplit_mode
        &&& self.vsplit_scroll == other.vsplit_scroll
        &&& self.vsplit_bank == other.vsplit_bank
        &&& self.exattr_fetch_counter == other.exattr_fetch_counter
        &&& self.exattr_nt_offset == other.exattr_nt_offset
        &&& self.exattr_chr_bank == other.exattr_chr_bank
        &&& self.split_tile_number == other.split_tile_number
        &&& self.need_in_frame == other.need_in_frame
        &&& self.rendering == other.rendering
    }

    /// Every field outside the PCM, split and fetch tracking part is as in `other`.
    pub open spec fn misc_state_outside(&self, other: &Self) -> bool {
        &&& self.internal_ram == other.internal_ram
        &&& self.prg_rom == other.prg_rom
        &&& self.prg_ram == other.prg_ram
        &&& self.chr_rom == other.chr_rom
        &&& self.chr_ram == other.chr_ram
        &&& self.vram == other.vram
        &&& self.exram == other.exram
        &&& self.palette_ram == other.palette_ram
        &&& self.prg_mode == other.prg_mode
        &&& self.prg_bank_regs == other.prg_bank_regs
        &&& self.ram_protect_1 == other.ram_protect_1
        &&& self.ram_protect_2 == other.ram_protect_2
        &&& self.chr_mode == other.chr_mode
        &&& self.chr_bank_a == other.chr_bank_a
        &&& self.chr_bank_b == other.chr_bank_b
        &&& self.chr_upper_bits == other.chr_upper_bits
        &&& self.large_sprites == other.large_sprites
        &&& self.last_chr_write_was_b == other.last_chr_write_was_b
        &&& self.nt_mapping == other.nt_mapping
        &&& self.fill_tile == other.fill_tile
        &&& self.fill_color == other.fill_color
        &&& self.exram_mode == other.exram_mode
        &&& self.irq_scanline == other.irq_scanline
        &&& self.irq_enabled == other.irq_enabled
        &&& self.irq_pending == other.irq_pending
        &&& self.irq_pending_since_dot == other.irq_pending_since_dot
        &&& self.in_frame == other.in_frame
        &&& self.scanline_counter == other.scanline_counter
        &&& self.last_ppu_read_addr == other.last_ppu_read_addr
        &&& self.nt_read_counter == other.nt_read_counter
        &&& self.last_ppu_fetch_dot == other.last_ppu_fetch_dot
        &&& self.multiplicand == other.multiplicand
        &&& self.multiplier == other.multiplier
        &&& self.pulse1 == other.pulse1
        &&& self.pulse2 == other.pulse2
        &&& self.controllers == other.controllers
        &&& self.has_battery == other.has_battery
    }

    fn misc_state_valid_exec(&self, r: &SavestateReader, q: usize) -> (b: bool)
        requires
            r.wf(),
            q + self.misc_state_len() <= r.data.len(),
        ensures
            b == self.misc_state_valid(r.data@, q as int),
    {
        ((((r.data[(q + 3) + 1] as u16) << 8) | (r.data[(q + 3)] as u16)) < AUDIO_FRAME_LENGTH)
    }

    #[verifier::spinoff_prover]
    fn save_misc_state(&self, w: &mut SavestateWriter)
        ensures
            final(w).buf@ == old(w).buf@ + self.misc_state_bytes(),
    {
        let ghost b = w.buf@;
        let ghost s0 = enc_u8(self.pcm_output);
        let ghost s1 = s0 + enc_bool(self.pcm_read_mode);
        let ghost s2 = s1 + enc_bool(self.audio_half_clock);
        let ghost s3 = s2 + enc_u16(self.audio_frame_counter);
        let ghost s4 = s3 + enc_u8(self.vsplit_mode);
        let ghost s5 = s4 + enc_u8(self.vsplit_scroll);
        let ghost s6 = s5 + enc_u8(self.vsplit_bank);
        let ghost s7 = s6 + enc_u8(self.exattr_fetch_counter);
        let ghost s8 = s7 + enc_u16(self.exattr_nt_offset);
        let ghost s9 = s8 + enc_u16(self.exattr_chr_bank);
        let ghost s10 = s9 + enc_u8(self.split_tile_number);
        let ghost s11 = s10 + enc_bool(self.need_in_frame);
        let ghost s12 = s11 + enc_bool(self.rendering);
        w.write_u8(self.pcm_output);
        w.write_bool(self.pcm_read_mode);
        proof {
            lemma_add_assoc(b, s0, enc_bool(self.pcm_read_mode));
        }
        w.write_bool(self.audio_half_clock);
        proof {
            lemma_add_assoc(b, s1, enc_bool(self.audio_half_clock));
        }
        w.write_u16(self.audio_frame_counter);
        proof {
            lemma_add_assoc(b, s2, enc_u16(self.audio_frame_counter));
        }
        w.write_u8(self.vsplit_mode);
        proof {
            lemma_add_assoc(b, s3, enc_u8(self.vsplit_mode));
        }
        w.write_u8(self.vsplit_scroll);
        proof {
            lemma_add_assoc(b, s4, enc_u8(self.vsplit_scroll));
        }
        w.write_u8(self.vsplit_bank);
        proof {
            lemma_add_assoc(b, s5, enc_u8(self.vsplit_bank));
        }
        w.write_u8(self.exattr_fetch_counter);
        proof {
            lemma_add_assoc(b, s6, enc_u8(self.exattr_fetch_counter));
        }
        w.write_u16(self.exattr_nt_offset);
        proof {
            lemma_add_assoc(b, s7, enc_u16(self.exattr_nt_offset));
        }
        w.write_u16(self.exattr_chr_bank);
        proof {
            lemma_add_assoc(b, s8, enc_u16(self.exattr_chr_bank));
        }
        w.write_u8(self.split_tile_number);
        proof {
            lemma_add_assoc(b, s9, enc_u8(self.split_tile_number));
        }
        w.write_bool(self.need_in_frame);
        proof {
            lemma_add_assoc(b, s10, enc_bool(self.need_in_frame));
        }
        w.write_bool(self.rendering);
        proof {
            lemma_add_assoc(b, s11, enc_bool(self.rendering));
        }
    }

    #[verifier::spinoff_prover]
    fn load_misc_state(&mut self, r: &mut SavestateReader)
        requires
            old(self).wf(),
            old(r).wf(),
            old(r).pos + old(self).misc_state_len() <= old(r).data@.len(),
            old(self).misc_state_valid(old(r).data@, old(r).pos as int),
        ensures
            final(r).wf(),
            final(r).data@ == old(r).data@,
            final(r).pos == old(r).pos + old(self).misc_state_len(),
            final(self).wf(),
            final(self).misc_state_loaded(old(r).data@, old(r).pos as int),
            final(self).misc_state_outside(&*old(self)),
    {
        let pcm_output = r.take_u8();
        let pcm_read_mode = r.take_bool();
        let audio_half_clock = r.take_bool();
        let audio_frame_counter = r.take_u16();
        let vsplit_mode = r.take_u8();
        let vsplit_scroll = r.take_u8();
        let vsplit_bank = r.take_u8();
        let exattr_fetch_counter = r.take_u8();
        let exattr_nt_offset = r.take_u16();
        let exattr_chr_bank = r.take_u16();
        let split_tile_number = r.take_u8();
        let need_in_frame = r.take_bool();
        let rendering = r.take_bool();
        self.pcm_output = pcm_output;
        self.pcm_read_mode = pcm_read_mode;
        self.audio_half_clock = audio_half_clock;
        self.audio_frame_counter = audio_frame_counter;
        self.vsplit_mode = vsplit_mode;
        self.vsplit_scroll = vsplit_scroll;
        self.vsplit_bank = vsplit_bank;
        self.exattr_fetch_counter = exattr_fetch_counter;
        self.exattr_nt_offset = exattr_nt_offset;
        self.exattr_chr_bank = exattr_chr_bank;
        self.split_tile_number = split_tile_number;
        self.need_in_frame = need_in_frame;
        self.rendering = rendering;
    }

    #[verifier::spinoff_prover]
    proof fn lemma_misc_state_roundtrip(o: Self, m: Self, n: Self, d: Seq<u8>, q: int)
        requires
            m.wf(),
            o.same_layout(&m),
            n.same_layout(&m),
            stored_at(d, q, m.misc_state_bytes()),
        ensures
            o.misc_state_len() == m.misc_state_len(),
            o.misc_state_valid(d, q),
            n.misc_state_loaded(d, q) ==> n.misc_state_same(&m),
    {
        let s0 = enc_u8(m.pcm_output);
        let s1 = s0 + enc_bool(m.pcm_read_mode);
        let s2 = s1 + enc_bool(m.audio_half_clock);
        let s3 = s2 + enc_u16(m.audio_frame_counter);
        let s4 = s3 + enc_u8(m.vsplit_mode);
        let s5 = s4 + enc_u8(m.vsplit_scroll);
        let s6 = s5 + enc_u8(m.vsplit_bank);
        let s7 = s6 + enc_u8(m.exattr_fetch_counter);
        let s8 = s7 + enc_u16(m.exattr_nt_offset);
        let s9 = s8 + enc_u16(m.exattr_chr_bank);
        let s10 = s9 + enc_u8(m.split_tile_number);
        let s11 = s10 + enc_bool(m.need_in_frame);
        let s12 = s11 + enc_bool(m.rendering);
        lemma_stored_split(d, q, s11, enc_bool(m.rendering));
        lemma_stored_split(d, q, s10, enc_bool(m.need_in_frame));
        lemma_stored_split(d, q, s9, enc_u8(m.split_tile_number));
        lemma_stored_split(d, q, s8, enc_u16(m.exattr_chr_bank));
        lemma_stored_split(d, q, s7, enc_u16(m.exattr_nt_offset));
        lemma_stored_split(d, q, s6, enc_u8(m.exattr_fetch_counter));
        lemma_stored_split(d, q, s5, enc_u8(m.vsplit_bank));
        lemma_stored_split(d, q, s4, enc_u8(m.vsplit_scroll));
        lemma_stored_split(d, q, s3, enc_u8(m.vsplit_mode));
        lemma_stored_split(d, q, s2, enc_u16(m.audio_frame_counter));
        lemma_stored_split(d, q, s1, enc_bool(m.audio_half_clock));
        lemma_stored_split(d, q, s0, enc_bool(m.pcm_read_mode));
        lemma_stored_u8(d, q, m.pcm_output);
        lemma_stored_bool(d, (q + 1), m.pcm_read_mode);
        lemma_stored_bool(d, (q + 2), m.audio_half_clock);
        lemma_stored_u16(d, (q + 3), m.audio_frame_counter);
        lemma_stored_u8(d, (q + 5), m.vsplit_mode);
        lemma_stored_u8(d, (q + 6), m.vsplit_scroll);
        lemma_stored_u8(d, (q + 7), m.vsplit_bank);
        lemma_stored_u8(d, (q + 8), m.exattr_fetch_counter);
        lemma_stored_u16(d, (q + 9), m.exattr_nt_offset);
        lemma_stored_u16(d, (q + 11), m.exattr_chr_bank);
        lemma_stored_u8(d, (q + 13), m.split_tile_number);
        lemma_stored_bool(d, (q + 14), m.need_in_frame);
        lemma_stored_bool(d, (q + 15), m.rendering);
    }

    /// The bytes `save_state` appends.
    pub open spec fn state_bytes(&self) -> Seq<u8> {
        self.banking_state_bytes() + self.video_state_bytes() + self.irq_state_bytes() + self.pulse_state_bytes() + self.misc_state_bytes()
    }

    /// Length of the saved state.
    pub open spec fn state_len(&self) -> nat {
        (self.banking_state_len() + self.video_state_len() + self.irq_state_len() + self.pulse_state_len() + self.misc_state_len()) as nat
    }

    /// The stored bytes at `p` hold a state that this cartridge can take.
    pub open spec fn state_valid(&self, d: Seq<u8>, p: int) -> bool {
        &&& self.banking_state_valid(d, p)
        &&& self.video_state_valid(d, p + self.banking_state_len())
        &&& self.irq_state_valid(d, p + self.banking_state_len() + self.video_state_len())
        &&& self.pulse_state_valid(d, p + self.banking_state_len() + self.video_state_len() + self.irq_state_len())
        &&& self.misc_state_valid(d, p + self.banking_state_len() + self.video_state_len() + self.irq_state_len() + self.pulse_state_len())
    }

    /// What `load_state` answers for the bytes at `p`.
    pub open spec fn load_outcome(&self, d: Seq<u8>, p: int) -> Result<(), StateError> {
        if p + self.state_len() > d.len() {
            Err(StateError::UnexpectedEof)
        } else if !self.state_valid(d, p) {
            Err(StateError::InvalidValue)
        } else {
            Ok(())
        }
    }

    /// Every saved field holds what the bytes at `p` store.
    pub open spec fn loaded_from(&self, d: Seq<u8>, p: int) -> bool {
        &&& self.banking_state_loaded(d, p)
        &&& self.video_state_loaded(d, p + self.banking_state_len())
        &&& self.irq_state_loaded(d, p + self.banking_state_len() + self.video_state_len())
        &&& self.pulse_state_loaded(d, p + self.banking_state_len() + self.video_state_len() + self.irq_state_len())
        &&& self.misc_state_loaded(d, p + self.banking_state_len() + self.video_state_len() + self.irq_state_len() + self.pulse_state_len())
    }

    /// The two agree on every saved field.
    pub open spec fn same_state(&self, other: &Self) -> bool {
        &&& self.banking_state_same(other)
        &&& self.video_state_same(other)
        &&& self.irq_state_same(other)
        &&& self.pulse_state_same(other)
        &&& self.misc_state_same(other)
    }

    /// The two agree on every field that the state does not store.
    pub open spec fn keeps_unsaved(&self, other: &Self) -> bool {
        &&& self.prg_rom == other.prg_rom
        &&& self.chr_rom == other.chr_rom
        &&& self.has_battery == other.has_battery
    }

    /// The two come from cartridges of the same shape.
    pub open spec fn same_layout(&self, other: &Self) -> bool {
        &&& self.prg_rom@.len() == other.prg_rom@.len()
        &&& self.chr_rom@.len() == other.chr_rom@.len()
        &&& (self.chr_ram is Some) == (other.chr_ram is Some)
    }

    #[verifier::spinoff_prover]
    pub fn save_state(&self, w: &mut SavestateWriter)
        ensures
            final(w).buf@ == old(w).buf@ + self.state_bytes(),
    {
        let ghost b = w.buf@;
        self.save_banking_state(w);
        self.save_video_state(w);
        proof {
            lemma_add_assoc(b, self.banking_state_bytes(), self.video_state_bytes());
        }
        self.save_irq_state(w);
        proof {
            lemma_add_assoc(b, self.banking_state_bytes() + self.video_state_bytes(), self.irq_state_bytes());
        }
        self.save_pulse_state(w);
        proof {
            lemma_add_assoc(b, self.banking_state_bytes() + self.video_state_bytes() + self.irq_state_bytes(), self.pulse_state_bytes());
        }
        self.save_misc_state(w);
        proof {
            lemma_add_assoc(b, self.banking_state_bytes() + self.video_state_bytes() + self.irq_state_bytes() + self.pulse_state_bytes(), self.misc_state_bytes());
        }
    }

    /// Restores a state written by `save_state`. Nothing changes unless the
    /// whole state is there and holds values this cartridge can take.
    #[verifier::spinoff_prover]
    pub fn load_state(&mut self, r: &mut SavestateReader) -> (res: Result<(), StateError>)
        requires
            old(self).wf(),
            old(r).wf(),
        ensures
            final(r).wf(),
            final(r).data@ == old(r).data@,
            res == old(self).load_outcome(old(r).data@, old(r).pos as int),
            res is Err ==> *final(self) == *old(self) && final(r).pos == old(r).pos,
            res is Ok ==> final(self).wf() && final(self).loaded_from(old(r).data@, old(r).pos as int)
                && final(self).keeps_unsaved(&*old(self)) && final(self).same_layout(&*old(self))
                && final(r).pos == old(r).pos + old(self).state_len(),
    {
        let chr_len: usize = if self.chr_ram.is_some() { CHR_RAM_SIZE + 1 } else { 1 };
        let fixed: usize = BANKING_STATE_LEN + VIDEO_STATE_FIXED_LEN + IRQ_STATE_LEN + 30 + MISC_STATE_LEN;
        let data_len = r.data.len();
        let rem = r.remaining_len();
        if rem < chr_len || rem - chr_len < fixed {
            return Err(StateError::UnexpectedEof);
        }
        let q_video = r.pos + BANKING_STATE_LEN;
        let q_pulse = q_video + VIDEO_STATE_FIXED_LEN + chr_len + IRQ_STATE_LEN;
        let q_misc = q_pulse + 30;
        if !self.video_state_valid_exec(r, q_video) || !self.pulse_state_valid_exec(r, q_pulse)
            || !self.misc_state_valid_exec(r, q_misc) {
            return Err(StateError::InvalidValue);
        }
        self.load_banking_state(r);
        self.load_video_state(r);
        self.load_irq_state(r);
        self.load_pulse_state(r);
        self.load_misc_state(r);
        Ok(())
    }

    /// Saving a state and loading it into a cartridge of the same shape
    /// succeeds and restores every saved field.
    #[verifier::spinoff_prover]
    #[verifier::rlimit(100)]
    pub proof fn lemma_state_roundtrip(o: Self, m: Self, n: Self, d: Seq<u8>, p: int)
        requires
            o.wf(),
            m.wf(),
            o.same_layout(&m),
            n.same_layout(&m),
            stored_at(d, p, m.state_bytes()),
        ensures
            o.load_outcome(d, p) == Ok::<(), StateError>(()),
            n.loaded_from(d, p) ==> n.same_state(&m),
    {
        lemma_stored_split(d, p, m.banking_state_bytes() + m.video_state_bytes() + m.irq_state_bytes() + m.pulse_state_bytes(), m.misc_state_bytes());
        lemma_stored_split(d, p, m.banking_state_bytes() + m.video_state_bytes() + m.irq_state_bytes(), m.pulse_state_bytes());
        lemma_stored_split(d, p, m.banking_state_bytes() + m.video_state_bytes(), m.irq_state_bytes());
        lemma_stored_split(d, p, m.banking_state_bytes(), m.video_state_bytes());
        Self::lemma_banking_state_roundtrip(o, m, n, d, p);
        Self::lemma_video_state_roundtrip(o, m, n, d, p + m.banking_state_len());
        Self::lemma_irq_state_roundtrip(o, m, n, d, p + m.banking_state_len() + m.video_state_len());
        Self::lemma_pulse_state_roundtrip(o, m, n, d, p + m.banking_state_len() + m.video_state_len() + m.irq_state_len());
        Self::lemma_misc_state_roundtrip(o, m, n, d, p + m.banking_state_len() + m.video_state_len() + m.irq_state_len() + m.pulse_state_len());
        Self::lemma_banking_state_roundtrip(n, m, n, d, p);
        Self::lemma_video_state_roundtrip(n, m, n, d, p + m.banking_state_len());
        Self::lemma_irq_state_roundtrip(n, m, n, d, p + m.banking_state_len() + m.video_state_len());
        Self::lemma_pulse_state_roundtrip(n, m, n, d, p + m.banking_state_len() + m.video_state_len() + m.irq_state_len());
        Self::lemma_misc_state_roundtrip(n, m, n, d, p + m.banking_state_len() + m.video_state_len() + m.irq_state_len() + m.pulse_state_len());
    }
}

/// The multiplier: after writing `a` to $5205 and `b` to $5206, the two
/// registers read back the low and high bytes of `a * b`.
pub proof fn lemma_multiplier_product(m: Mmc5Model, a: u8, b: u8)
    ensures
        ({
            let m2 = cpu_write_spec(cpu_write_spec(m, 0x5205, a), 0x5206, b);
            cpu_read_value(m2, 0x5205) as int + 256 * cpu_read_value(m2, 0x5206) as int == a as int * b as int
        }),
{
    let m2 = cpu_write_spec(cpu_write_spec(m, 0x5205, a), 0x5206, b);
    assert(m2.multiplicand == a && m2.multiplier == b);
    assert(0 <= a as int * b as int <= 255 * 255) by (nonlinear_arith)
        requires
            a <= 255,
            b <= 255,
    ;
}

/// In ExRAM mode 2 the CPU reads back what it wrote to $5C00-$5FFF.
pub proof fn lemma_exram_read_after_write(m: Mmc5Model, addr: u16, value: u8)
    requires
        m.exram_mode == 2,
        m.exram.len() == EXRAM_SIZE,
        0x5C00 <= addr <= 0x5FFF,
    ensures
        cpu_read_value(cpu_write_spec(m, addr, value), addr) == value,
{
}

/// With RAM writes unlocked, the CPU reads back what it wrote to
/// $6000-$7FFF.
pub proof fn lemma_prg_ram_read_after_write(m: Mmc5Model, addr: u16, value: u8)
    requires
        m.ram_protect_1 == 2 && m.ram_protect_2 == 1,
        m.prg_ram.len() == PRG_RAM_SIZE,
        0x6000 <= addr <= 0x7FFF,
    ensures
        cpu_read_value(cpu_write_spec(m, addr, value), addr) == value,
{
}

impl MMC5Mapper {
    /// Copies `size` bytes of PPU memory from `addr` to the front of `dest`,
    /// each as a PPU read of the next address would return it.
    pub fn ppu_copy(&self, addr: u16, dest: &mut Vec<u8>, size: usize)
        requires
            self.wf(),
            size <= old(dest)@.len(),
            addr + size <= 0x10000,
        ensures
            final(dest)@.len() == old(dest)@.len(),
            forall|i: int| 0 <= i < size ==> #[trigger] final(dest)@[i] == ppu_read_spec(self@, (addr + i) as u16),
            forall|i: int| size <= i < old(dest)@.len() ==> #[trigger] final(dest)@[i] == old(dest)@[i],
    {
        let mut i: usize = 0;
        while i < size
            invariant
                self.wf(),
                size <= old(dest)@.len(),
                addr + size <= 0x10000,
                i <= size,
                dest@.len() == old(dest)@.len(),
                forall|j: int| 0 <= j < i ==> #[trigger] dest@[j] == ppu_read_spec(self@, (addr + j) as u16),
                forall|j: int| i <= j < old(dest)@.len() ==> #[trigger] dest@[j] == old(dest)@[j],
            decreases size - i,
        {
            let b = self.ppu_read(addr + i as u16);
            dest.set(i, b);
            i = i + 1;
        }
    }
}

/// The CHR window size in KB of a CHR mode: 8, 4, 2 or 1.
pub open spec fn chr_window_kb(mode: u8) -> int {
    if mode == 0 {
        8
    } else if mode == 1 {
        4
    } else if mode == 2 {
        2
    } else {
        1
    }
}

/// CHR banking: the pattern tables are cut into equal windows of 8, 4, 2 or
/// 1 KB (CHR modes 0 to 3), and a window of `kb` KB shows `kb` consecutive
/// 1KB banks of CHR ROM, starting at its register times `kb`, wrapped to
/// the ROM. With the A set in use, a window's register is the A register
/// of its last 1KB slot ($5123 and $5127 in the 4KB mode, $5121, $5123,
/// $5125, $5127 in the 2KB mode). The B set has four registers for the
/// first 4KB, which the second 4KB repeats, and in the 8KB mode uses $512B.
pub proof fn lemma_chr_windows(m: Mmc5Model, addr: u16)
    requires
        addr < 0x2000,
        m.chr_mode <= 3,
        m.chr_rom.len() > 0,
        m.chr_bank_a.len() == 8,
        m.chr_bank_b.len() == 4,
    ensures
        ({
            let a = addr as int;
            let kb = chr_window_kb(m.chr_mode);
            let n = m.chr_rom.len() as int;
            let in_window = (a % (1024 * kb)) / 1024;
            let a_reg = m.chr_bank_a[(a / (1024 * kb) + 1) * kb - 1] as int;
            let b_reg = if m.chr_mode == 0 {
                m.chr_bank_b[3] as int
            } else {
                m.chr_bank_b[((a % 4096) / (1024 * kb) + 1) * kb - 1] as int
            };
            &&& !uses_bank_set_b(m) ==> ppu_read_spec(m, addr) == m.chr_rom[(a_reg * kb + in_window) % n][a % 1024]
            &&& uses_bank_set_b(m) ==> ppu_read_spec(m, addr) == m.chr_rom[(b_reg * kb + in_window) % n][a % 1024]
        }),
{
    lemma_addr_masks(addr);
    let a = addr as int;
    let n = m.chr_rom.len() as int;
    let idx = chr_bank_index(m, a);
    assert(chr_offset(m, addr) == (idx % n) * 1024 + a % 1024);
    assert(idx % n >= 0);
    assert(((idx % n) * 1024 + a % 1024) / 1024 == idx % n) by (nonlinear_arith)
        requires
            idx % n >= 0,
            0 <= a % 1024 < 1024;
    assert(((idx % n) * 1024 + a % 1024) % 1024 == a % 1024) by (nonlinear_arith)
        requires
            idx % n >= 0,
            0 <= a % 1024 < 1024;
    if m.chr_mode == 0 {
        assert(a / 8192 == 0);
    } else if m.chr_mode == 1 {
        assert(a / 4096 == 0 || a / 4096 == 1);
        assert((a % 4096) / 4096 == 0);
    } else if m.chr_mode == 2 {
        assert((a / 2048) % 2 == (a % 4096) / 2048);
    } else {
        assert((a / 1024) % 4 == (a % 4096) / 1024);
    }
}

} // verus!
