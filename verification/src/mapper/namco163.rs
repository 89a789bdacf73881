//! Namco 163 (mapper 19): 8KB PRG banks, 1KB CHR banks that can also map
//! CHR RAM and nametables, a 15-bit CPU-cycle IRQ counter, and a wavetable
//! sound unit with up to eight channels in 128 bytes of sound RAM.

use vstd::prelude::*;
use crate::bus::{CPU_RAM_SIZE, VRAM_SIZE, PALETTE_SIZE, RESET_TARGET_ADDR, palette_slot, palette_index, word, make_word};
use crate::ppu_bus::{zeroed, filled};
use crate::controller::Controller;
use crate::mapper::common::{new_controllers, split_16k_to_8k, split_8k_to_1k, ram_with_saved};

use crate::savestate::{SavestateWriter, SavestateReader, StateError, enc_u8, enc_bool, enc_u16, dec_u16_at, stored_at, lemma_add_assoc, lemma_stored_split, lemma_stored_u8, lemma_stored_bool, lemma_stored_u16, copy_into_array, banks_bytes, bank_at, lemma_stored_banks};
use crate::controller::{controllers_bytes, controller_at, save_controllers, take_controllers, lemma_stored_controllers, CONTROLLER_STATE_LEN};

verus! {

pub const PRG_BANK_SIZE: usize = 0x2000;
pub const CHR_BANK_SIZE: usize = 0x0400;
pub const SOUND_RAM_SIZE: usize = 128;
pub const PRG_RAM_8K: usize = 0x2000;
/// CPU cycles between two wavetable channel updates.
pub const AUDIO_PERIOD: u8 = 15;
/// The IRQ counter stops, and raises the IRQ, at this value.
pub const IRQ_LIMIT: u16 = 0x7FFF;

/// One channel update of the sound unit: the channel's level, the wave
/// sample less its midpoint times the volume, and the number of channels
/// sharing the output.
pub struct ChannelSample {
    pub level: i16,
    pub active_channels: u8,
}

pub struct Namco163Mapper {
    pub controllers: [Controller; 2],
    pub prg_rom: Vec<[u8; PRG_BANK_SIZE]>,
    /// 1KB CHR banks; eight zeroed banks of CHR RAM when the cartridge has none.
    pub chr_rom: Vec<[u8; CHR_BANK_SIZE]>,
    pub has_chr_ram: bool,
    pub prg_ram: Vec<u8>,
    pub sound_ram: Vec<u8>,
    pub cpu_ram: Vec<u8>,
    pub vram: Vec<u8>,
    pub palette_ram: Vec<u8>,
    pub prg_banks: [u8; 3],
    /// 0-7: pattern table slots; 8-11: nametable slots.
    pub chr_banks: [u8; 12],
    pub chr_ram_enable_lo: bool,
    pub chr_ram_enable_hi: bool,
    pub irq_counter: u16,
    pub irq_enabled: bool,
    pub irq_pending: bool,
    pub sound_addr: u8,
    pub sound_auto_increment: bool,
    pub sound_disable: bool,
    pub wram_protect: u8,
    pub audio_channel_index: u8,
    pub audio_timer: u8,
    pub has_battery: bool,
}

/// The board with its buffers taken by their contents.
pub struct Namco163Model {
    pub controllers: Seq<Controller>,
    pub prg_rom: Seq<[u8; PRG_BANK_SIZE]>,
    pub chr_rom: Seq<Seq<u8>>,
    pub has_chr_ram: bool,
    pub prg_ram: Seq<u8>,
    pub sound_ram: Seq<u8>,
    pub cpu_ram: Seq<u8>,
    pub vram: Seq<u8>,
    pub palette_ram: Seq<u8>,
    pub prg_banks: Seq<u8>,
    pub chr_banks: Seq<u8>,
    pub chr_ram_enable_lo: bool,
    pub chr_ram_enable_hi: bool,
    pub irq_counter: u16,
    pub irq_enabled: bool,
    pub irq_pending: bool,
    pub sound_addr: u8,
    pub sound_auto_increment: bool,
    pub sound_disable: bool,
    pub wram_protect: u8,
    pub audio_channel_index: u8,
    pub audio_timer: u8,
    pub has_battery: bool,
}

impl View for Namco163Mapper {
    type V = Namco163Model;

    open spec fn view(&self) -> Namco163Model {
        Namco163Model {
            controllers: self.controllers@,
            prg_rom: self.prg_rom@,
            chr_rom: self.chr_rom@.map_values(|b: [u8; CHR_BANK_SIZE]| b@),
            has_chr_ram: self.has_chr_ram,
            prg_ram: self.prg_ram@,
            sound_ram: self.sound_ram@,
            cpu_ram: self.cpu_ram@,
            vram: self.vram@,
            palette_ram: self.palette_ram@,
            prg_banks: self.prg_banks@,
            chr_banks: self.chr_banks@,
            chr_ram_enable_lo: self.chr_ram_enable_lo,
            chr_ram_enable_hi: self.chr_ram_enable_hi,
            irq_counter: self.irq_counter,
            irq_enabled: self.irq_enabled,
            irq_pending: self.irq_pending,
            sound_addr: self.sound_addr,
            sound_auto_increment: self.sound_auto_increment,
            sound_disable: self.sound_disable,
            wram_protect: self.wram_protect,
            audio_channel_index: self.audio_channel_index,
            audio_timer: self.audio_timer,
            has_battery: self.has_battery,
        }
    }
}

/// The 8KB bank a PRG register selects: its low six bits, wrapped to the ROM.
pub open spec fn prg_bank(m: Namco163Model, reg: u8) -> int {
    ((reg & 0x3F) as int) % (if m.prg_rom.len() == 0 { 1 } else { m.prg_rom.len() as int })
}

/// A CPU read of PRG ROM at `addr` ($8000-$FFFF); the last bank is fixed at $E000.
pub open spec fn prg_read(m: Namco163Model, addr: u16) -> u8 {
    let a = addr as int;
    let bank = if a < 0xA000 {
        prg_bank(m, m.prg_banks[0])
    } else if a < 0xC000 {
        prg_bank(m, m.prg_banks[1])
    } else if a < 0xE000 {
        prg_bank(m, m.prg_banks[2])
    } else if m.prg_rom.len() == 0 {
        0
    } else {
        m.prg_rom.len() - 1
    };
    if bank < m.prg_rom.len() {
        m.prg_rom[bank][a % 0x2000]
    } else {
        0
    }
}

/// The sound RAM address after an access with auto-increment on.
pub open spec fn next_sound_addr(m: Namco163Model) -> u8 {
    if m.sound_auto_increment {
        ((m.sound_addr + 1) % 128) as u8
    } else {
        m.sound_addr
    }
}

/// What a CPU read of `addr` returns.
pub open spec fn cpu_read_value(m: Namco163Model, addr: u16) -> u8 {
    let a = addr as int;
    if a < 0x2000 {
        m.cpu_ram[a % 0x800]
    } else if 0x4800 <= a <= 0x4FFF {
        m.sound_ram[m.sound_addr as int]
    } else if 0x5000 <= a <= 0x57FF {
        m.irq_counter as u8
    } else if 0x5800 <= a <= 0x5FFF {
        ((m.irq_counter >> 8u16) as u8) | (if m.irq_enabled { 0x80u8 } else { 0u8 })
    } else if 0x6000 <= a <= 0x7FFF {
        m.prg_ram[a - 0x6000]
    } else if a >= 0x8000 {
        prg_read(m, addr)
    } else {
        0
    }
}

/// The board after a CPU read of `addr`: reading sound RAM may advance its
/// address.
pub open spec fn cpu_read_state(m: Namco163Model, addr: u16) -> Namco163Model {
    if 0x4800 <= addr <= 0x4FFF {
        Namco163Model { sound_addr: next_sound_addr(m), ..m }
    } else {
        m
    }
}

/// Whether $6000-$7FFF takes writes: $F800 holds $40-$4F.
pub open spec fn wram_writable(m: Namco163Model) -> bool {
    0x40 <= m.wram_protect <= 0x4F
}

/// The board after a CPU write of `value` to `addr`.
pub open spec fn cpu_write_spec(m: Namco163Model, addr: u16, value: u8) -> Namco163Model {
    let a = addr as int;
    if a < 0x2000 {
        Namco163Model { cpu_ram: m.cpu_ram.update(a % 0x800, value), ..m }
    } else if 0x4800 <= a <= 0x4FFF {
        Namco163Model {
            sound_ram: m.sound_ram.update(m.sound_addr as int, value),
            sound_addr: next_sound_addr(m),
            ..m
        }
    } else if 0x5000 <= a <= 0x57FF {
        Namco163Model { irq_counter: (m.irq_counter & 0xFF00) | (value as u16), irq_pending: false, ..m }
    } else if 0x5800 <= a <= 0x5FFF {
        Namco163Model {
            irq_counter: (m.irq_counter & 0x00FF) | (((value & 0x7F) as u16) << 8u16),
            irq_enabled: value & 0x80 != 0,
            irq_pending: false,
            ..m
        }
    } else if 0x6000 <= a <= 0x7FFF {
        if wram_writable(m) {
            Namco163Model { prg_ram: m.prg_ram.update(a - 0x6000, value), ..m }
        } else {
            m
        }
    } else if 0x8000 <= a <= 0xDFFF {
        Namco163Model { chr_banks: m.chr_banks.update((a - 0x8000) / 0x800, value), ..m }
    } else if 0xE000 <= a <= 0xE7FF {
        Namco163Model {
            prg_banks: m.prg_banks.update(0, value & 0x3F),
            sound_disable: value & 0x40 != 0,
            ..m
        }
    } else if 0xE800 <= a <= 0xEFFF {
        Namco163Model {
            prg_banks: m.prg_banks.update(1, value & 0x3F),
            chr_ram_enable_lo: value & 0x40 == 0,
            chr_ram_enable_hi: value & 0x80 == 0,
            ..m
        }
    } else if 0xF000 <= a <= 0xF7FF {
        Namco163Model { prg_banks: m.prg_banks.update(2, value & 0x3F), ..m }
    } else if a >= 0xF800 {
        Namco163Model {
            sound_addr: value % 128,
            sound_auto_increment: value & 0x80 != 0,
            wram_protect: value,
            ..m
        }
    } else {
        m
    }
}

/// Whether a pattern-table access at `addr` ($0000-$1FFF) goes to CHR RAM:
/// the board has it, the slot's register is $E0 or above, and that half of
/// the pattern tables has CHR RAM enabled.
pub open spec fn chr_uses_ram(m: Namco163Model, addr: u16) -> bool {
    let slot = (addr as int / 1024) % 8;
    &&& m.has_chr_ram
    &&& m.chr_banks[slot] >= 0xE0
    &&& if slot >= 4 { m.chr_ram_enable_hi } else { m.chr_ram_enable_lo }
}

/// The CHR RAM byte a pattern-table access at `addr` reaches.
pub open spec fn chr_ram_index(m: Namco163Model, addr: u16) -> int {
    let slot = (addr as int / 1024) % 8;
    ((m.chr_banks[slot] & 0x1F) as int * 1024 + addr as int % 1024) % (m.chr_rom.len() as int * 1024)
}

/// The 1KB bank a CHR register selects when it maps ROM.
pub open spec fn chr_bank(m: Namco163Model, reg: u8) -> int {
    (reg as int) % (if m.chr_rom.len() == 0 { 1 } else { m.chr_rom.len() as int })
}

pub open spec fn read_chr(m: Namco163Model, addr: u16) -> u8 {
    if chr_uses_ram(m, addr) {
        let i = chr_ram_index(m, addr);
        m.chr_rom[i / 1024][i % 1024]
    } else {
        let b = chr_bank(m, m.chr_banks[(addr as int / 1024) % 8]);
        if b < m.chr_rom.len() {
            m.chr_rom[b][addr as int % 1024]
        } else {
            0
        }
    }
}

/// The nametable register of the slot `addr` ($2000-$3EFF) falls in.
pub open spec fn nt_reg(m: Namco163Model, addr: u16) -> u8 {
    m.chr_banks[8 + (addr as int / 1024) % 4]
}

/// The CIRAM byte a nametable access reaches when its register is $E0 or above.
pub open spec fn nt_vram_index(m: Namco163Model, addr: u16) -> int {
    (nt_reg(m, addr) % 2) as int * 0x400 + addr as int % 1024
}

pub open spec fn read_nt(m: Namco163Model, addr: u16) -> u8 {
    if nt_reg(m, addr) >= 0xE0 {
        m.vram[nt_vram_index(m, addr)]
    } else {
        let b = chr_bank(m, nt_reg(m, addr));
        if b < m.chr_rom.len() {
            m.chr_rom[b][addr as int % 1024]
        } else {
            0
        }
    }
}

/// What a PPU read of `addr` returns.
pub open spec fn ppu_read_spec(m: Namco163Model, addr: u16) -> u8 {
    if addr <= 0x1FFF {
        read_chr(m, addr)
    } else if addr <= 0x3EFF {
        read_nt(m, addr)
    } else if addr <= 0x3FFF {
        m.palette_ram[palette_slot(addr)]
    } else {
        0
    }
}

/// The board after a PPU write of `value` to `addr`; CHR ROM and ROM
/// nametables ignore writes.
pub open spec fn ppu_write_spec(m: Namco163Model, addr: u16, value: u8) -> Namco163Model {
    if addr <= 0x1FFF {
        if chr_uses_ram(m, addr) {
            let i = chr_ram_index(m, addr);
            Namco163Model { chr_rom: m.chr_rom.update(i / 1024, m.chr_rom[i / 1024].update(i % 1024, value)), ..m }
        } else {
            m
        }
    } else if addr <= 0x3EFF {
        if nt_reg(m, addr) >= 0xE0 {
            Namco163Model { vram: m.vram.update(nt_vram_index(m, addr), value), ..m }
        } else {
            m
        }
    } else if addr <= 0x3FFF {
        Namco163Model { palette_ram: m.palette_ram.update(palette_slot(addr), value), ..m }
    } else {
        m
    }
}

/// The IRQ counter after one CPU cycle: while enabled it counts up to
/// `IRQ_LIMIT`, raising the IRQ on reaching it.
pub open spec fn irq_step(m: Namco163Model) -> Namco163Model {
    if m.irq_enabled && m.irq_counter < IRQ_LIMIT {
        let c = (m.irq_counter + 1) as u16;
        Namco163Model { irq_counter: c, irq_pending: c >= IRQ_LIMIT || m.irq_pending, ..m }
    } else {
        m
    }
}

/// Channels in use: one more than bits 4-6 of the last sound RAM byte.
pub open spec fn active_channels(ram: Seq<u8>) -> int {
    (ram[0x7F] / 16) as int % 8 + 1
}

/// Byte `k` of channel `ch`'s eight registers at $40 + 8 * ch.
pub open spec fn ch_reg(ram: Seq<u8>, ch: int, k: int) -> int {
    ram[0x40 + ch * 8 + k] as int
}

/// The channel's 18-bit frequency.
pub open spec fn ch_freq(ram: Seq<u8>, ch: int) -> int {
    ch_reg(ram, ch, 0) + ch_reg(ram, ch, 2) * 256 + (ch_reg(ram, ch, 4) % 4) * 65536
}

/// The channel's 24-bit phase.
pub open spec fn ch_phase(ram: Seq<u8>, ch: int) -> int {
    ch_reg(ram, ch, 1) + ch_reg(ram, ch, 3) * 256 + ch_reg(ram, ch, 5) * 65536
}

/// The channel's wave length in samples: 256 less the top six bits of byte 4.
pub open spec fn ch_wave_length(ram: Seq<u8>, ch: int) -> int {
    256 - (ch_reg(ram, ch, 4) - ch_reg(ram, ch, 4) % 4)
}

/// The phase after one step, wrapped to the wave.
pub open spec fn ch_next_phase(ram: Seq<u8>, ch: int) -> int {
    (ch_phase(ram, ch) + ch_freq(ram, ch)) % (ch_wave_length(ram, ch) * 65536)
}

/// Sound RAM with the channel's phase bytes holding `phase`.
pub open spec fn with_phase(ram: Seq<u8>, ch: int, phase: int) -> Seq<u8> {
    let base = 0x40 + ch * 8;
    ram.update(base + 1, (phase % 256) as u8).update(base + 3, ((phase / 256) % 256) as u8).update(
        base + 5,
        ((phase / 65536) % 256) as u8,
    )
}

/// The 4-bit sample at `index` in the wave data: low nibble first.
pub open spec fn wave_sample(ram: Seq<u8>, index: int) -> int {
    let b = ram[(index / 2) % 128];
    if index % 2 == 1 {
        (b / 16) as int
    } else {
        (b % 16) as int
    }
}

/// The channel updated on this step: the round starts again at the first
/// active channel.
pub open spec fn current_channel(m: Namco163Model) -> int {
    let first = 8 - active_channels(m.sound_ram);
    if (m.audio_channel_index as int) < first {
        first
    } else {
        m.audio_channel_index as int
    }
}

/// The sound unit after one CPU cycle, and the channel update it made, if
/// any: every `AUDIO_PERIOD` cycles one channel steps its phase and reads
/// its wave sample.
pub open spec fn audio_step(m: Namco163Model) -> (Namco163Model, Option<ChannelSample>) {
    if m.sound_disable {
        (m, None)
    } else if m.audio_timer + 1 < AUDIO_PERIOD {
        (Namco163Model { audio_timer: (m.audio_timer + 1) as u8, ..m }, None)
    } else {
        let n = active_channels(m.sound_ram);
        let ch = current_channel(m);
        let phase = ch_next_phase(m.sound_ram, ch);
        let ram = with_phase(m.sound_ram, ch, phase);
        let sample = wave_sample(ram, ch_reg(m.sound_ram, ch, 6) + phase / 65536);
        let volume = ch_reg(m.sound_ram, ch, 7) % 16;
        let next = if ch + 1 >= 8 { 8 - n } else { ch + 1 };
        (
            Namco163Model { sound_ram: ram, audio_timer: 0, audio_channel_index: next as u8, ..m },
            Some(ChannelSample { level: ((sample - 8) * volume) as i16, active_channels: n as u8 }),
        )
    }
}

/// The board after one CPU cycle.
pub open spec fn cpu_cycle_spec(m: Namco163Model) -> (Namco163Model, Option<ChannelSample>) {
    audio_step(irq_step(m))
}

impl Namco163Mapper {
    pub open spec fn wf(&self) -> bool {
        &&& self.prg_ram@.len() == PRG_RAM_8K
        &&& self.sound_ram@.len() == SOUND_RAM_SIZE
        &&& self.cpu_ram@.len() == CPU_RAM_SIZE
        &&& self.vram@.len() == VRAM_SIZE
        &&& self.palette_ram@.len() == PALETTE_SIZE
        &&& self.has_chr_ram ==> self.chr_rom@.len() == 8
        &&& self.chr_rom@.len() * CHR_BANK_SIZE <= usize::MAX
        &&& self.sound_addr < 128
        &&& self.audio_channel_index < 8
        &&& self.audio_timer < AUDIO_PERIOD
    }

    /// What `new` builds from its arguments.
    pub open spec fn built_by_new(flags: u8, prg_banks_16k: Vec<[u8; 16384]>, chr_banks_8k: Vec<[u8; 8192]>, has_battery: bool, sram_data: Option<Vec<u8>>, submapper: u8, m: Namco163Mapper) -> bool {
        &&& (m.wf())
        &&& (m.prg_rom@.len() == 2 * prg_banks_16k@.len())
        &&& (forall|i: int| 0 <= i < m.prg_rom@.len() ==> #[trigger] m.prg_rom@[i]@ == prg_banks_16k@[i / 2]@.subrange(
                (i % 2) * 8192,
                (i % 2) * 8192 + 8192,
            ))
        &&& (m.has_chr_ram == (chr_banks_8k@.len() == 0))
        &&& (m.has_chr_ram ==> m.chr_rom@.len() == 8 && forall|i: int, j: int| 0 <= i < 8 && 0 <= j < 1024 ==> #[trigger] m.chr_rom@[i][j] == 0)
        &&& (!m.has_chr_ram ==> m.chr_rom@.len() == 8 * chr_banks_8k@.len() && forall|i: int| 0 <= i < m.chr_rom@.len() ==> #[trigger] m.chr_rom@[i]@ == chr_banks_8k@[i / 8]@.subrange(
                (i % 8) * 1024,
                (i % 8) * 1024 + 1024,
            ))
        &&& (forall|i: int| 0 <= i < PRG_RAM_8K ==> #[trigger] m.prg_ram@[i] == (match sram_data {
                Some(d) => if i < d@.len() { d@[i] } else { 0u8 },
                None => 0u8,
            }))
        &&& (m.has_battery == has_battery)
        &&& (m.sound_ram@ == Seq::new(SOUND_RAM_SIZE as nat, |i: int| 0u8))
        &&& (m.cpu_ram@ == Seq::new(CPU_RAM_SIZE as nat, |i: int| 0u8))
        &&& (m.vram@ == Seq::new(VRAM_SIZE as nat, |i: int| 0u8))
        &&& (m.palette_ram@ == Seq::new(PALETTE_SIZE as nat, |i: int| 0x0Fu8))
        &&& (m.prg_banks@ == seq![0u8, 1, 2])
        &&& (m.chr_banks@ == Seq::new(12, |i: int| 0u8))
        &&& (!m.chr_ram_enable_lo && !m.chr_ram_enable_hi)
        &&& (m.irq_counter == 0 && !m.irq_enabled && !m.irq_pending)
        &&& (m.sound_addr == 0 && !m.sound_auto_increment && !m.sound_disable && m.wram_protect == 0)
        &&& (m.audio_channel_index == 0 && m.audio_timer == 0)
    }

    pub fn new(
        flags: u8,
        prg_banks_16k: Vec<[u8; 16384]>,
        chr_banks_8k: Vec<[u8; 8192]>,
        has_battery: bool,
        sram_data: Option<Vec<u8>>,
        submapper: u8,
    ) -> (m: Namco163Mapper)
        requires
            2 * prg_banks_16k@.len() <= usize::MAX,
            8192 * chr_banks_8k@.len() <= usize::MAX,
        ensures
            m.wf(),
            m.prg_rom@.len() == 2 * prg_banks_16k@.len(),
            forall|i: int| 0 <= i < m.prg_rom@.len() ==> #[trigger] m.prg_rom@[i]@ == prg_banks_16k@[i / 2]@.subrange(
                (i % 2) * 8192,
                (i % 2) * 8192 + 8192,
            ),
            m.has_chr_ram == (chr_banks_8k@.len() == 0),
            m.has_chr_ram ==> m.chr_rom@.len() == 8 && forall|i: int, j: int| 0 <= i < 8 && 0 <= j < 1024 ==> #[trigger] m.chr_rom@[i][j] == 0,
            !m.has_chr_ram ==> m.chr_rom@.len() == 8 * chr_banks_8k@.len() && forall|i: int| 0 <= i < m.chr_rom@.len() ==> #[trigger] m.chr_rom@[i]@ == chr_banks_8k@[i / 8]@.subrange(
                (i % 8) * 1024,
                (i % 8) * 1024 + 1024,
            ),
            forall|i: int| 0 <= i < PRG_RAM_8K ==> #[trigger] m.prg_ram@[i] == (match sram_data {
                Some(d) => if i < d@.len() { d@[i] } else { 0u8 },
                None => 0u8,
            }),
            m.has_battery == has_battery,
            m.sound_ram@ == Seq::new(SOUND_RAM_SIZE as nat, |i: int| 0u8),
            m.cpu_ram@ == Seq::new(CPU_RAM_SIZE as nat, |i: int| 0u8),
            m.vram@ == Seq::new(VRAM_SIZE as nat, |i: int| 0u8),
            m.palette_ram@ == Seq::new(PALETTE_SIZE as nat, |i: int| 0x0Fu8),
            m.prg_banks@ == seq![0u8, 1, 2],
            m.chr_banks@ == Seq::new(12, |i: int| 0u8),
            !m.chr_ram_enable_lo && !m.chr_ram_enable_hi,
            m.irq_counter == 0 && !m.irq_enabled && !m.irq_pending,
            m.sound_addr == 0 && !m.sound_auto_increment && !m.sound_disable && m.wram_protect == 0,
            m.audio_channel_index == 0 && m.audio_timer == 0,
            Self::built_by_new(flags, prg_banks_16k, chr_banks_8k, has_battery, sram_data, submapper, m),
    {
        let prg_rom = split_16k_to_8k(&prg_banks_16k);
        let has_chr_ram = chr_banks_8k.len() == 0;
        let chr_rom = if has_chr_ram {
            let blank: Vec<[u8; 8192]> = vec![[0u8; 8192]];
            let r = split_8k_to_1k(&blank);
            assert forall|i: int, j: int| 0 <= i < 8 && 0 <= j < 1024 implies #[trigger] r@[i][j] == 0 by {
                assert(r@[i]@ == blank@[i / 8]@.subrange((i % 8) * 1024, (i % 8) * 1024 + 1024));
            }
            r
        } else {
            split_8k_to_1k(&chr_banks_8k)
        };
        let prg_ram = ram_with_saved(PRG_RAM_8K, &sram_data);
        let m = Namco163Mapper {
            controllers: new_controllers(),
            prg_rom,
            chr_rom,
            has_chr_ram,
            prg_ram,
            sound_ram: zeroed(SOUND_RAM_SIZE),
            cpu_ram: zeroed(CPU_RAM_SIZE),
            vram: zeroed(VRAM_SIZE),
            palette_ram: filled(PALETTE_SIZE, 0x0F),
            prg_banks: [0, 1, 2],
            chr_banks: [0; 12],
            chr_ram_enable_lo: false,
            chr_ram_enable_hi: false,
            irq_counter: 0,
            irq_enabled: false,
            irq_pending: false,
            sound_addr: 0,
            sound_auto_increment: false,
            sound_disable: false,
            wram_protect: 0,
            audio_channel_index: 0,
            audio_timer: 0,
            has_battery,
        };
        assert(m.chr_banks@ == Seq::new(12, |i: int| 0u8));
        m
    }

    fn prg_bank_exec(&self, reg: u8) -> (r: usize)
        ensures
            r == prg_bank(self@, reg),
    {
        let n = if self.prg_rom.len() == 0 {
            1
        } else {
            self.prg_rom.len()
        };
        ((reg & 0x3F) as usize) % n
    }

    fn read_prg(&self, addr: u16) -> (r: u8)
        requires
            addr >= 0x8000,
        ensures
            r == prg_read(self@, addr),
    {
        let bank = if addr < 0xA000 {
            self.prg_bank_exec(self.prg_banks[0])
        } else if addr < 0xC000 {
            self.prg_bank_exec(self.prg_banks[1])
        } else if addr < 0xE000 {
            self.prg_bank_exec(self.prg_banks[2])
        } else if self.prg_rom.len() == 0 {
            0
        } else {
            self.prg_rom.len() - 1
        };
        if bank < self.prg_rom.len() {
            self.prg_rom[bank][(addr % 0x2000) as usize]
        } else {
            0
        }
    }

    /// The byte a CPU read would return, without its side effects.
    pub fn cpu_peek(&self, addr: u16) -> (r: u8)
        requires
            self.wf(),
        ensures
            r == cpu_read_value(self@, addr),
    {
        if addr < 0x2000 {
            self.cpu_ram[(addr % 0x800) as usize]
        } else if 0x4800 <= addr && addr <= 0x4FFF {
            self.sound_ram[self.sound_addr as usize]
        } else if 0x5000 <= addr && addr <= 0x57FF {
            self.irq_counter as u8
        } else if 0x5800 <= addr && addr <= 0x5FFF {
            let e: u8 = if self.irq_enabled {
                0x80
            } else {
                0
            };
            ((self.irq_counter >> 8) as u8) | e
        } else if 0x6000 <= addr && addr <= 0x7FFF {
            self.prg_ram[(addr - 0x6000) as usize]
        } else if addr >= 0x8000 {
            self.read_prg(addr)
        } else {
            0
        }
    }

    /// A CPU read; reading sound RAM advances its address when auto-increment is on.
    pub fn cpu_read(&mut self, addr: u16) -> (r: u8)
        requires
            old(self).wf(),
        ensures
            final(self).wf(),
            r == cpu_read_value(old(self)@, addr),
            final(self)@ == cpu_read_state(old(self)@, addr),
    {
        let r = self.cpu_peek(addr);
        if 0x4800 <= addr && addr <= 0x4FFF && self.sound_auto_increment {
            self.sound_addr = (self.sound_addr + 1) % 128;
        }
        r
    }

    fn wram_writable_exec(&self) -> (r: bool)
        ensures
            r == wram_writable(self@),
    {
        self.wram_protect >= 0x40 && self.wram_protect <= 0x4F
    }

    fn write_sound_ram(&mut self, value: u8)
        requires
            old(self).wf(),
        ensures
            final(self).wf(),
            final(self)@ == cpu_write_spec(old(self)@, 0x4800, value),
    {
        self.sound_ram.set(self.sound_addr as usize, value);
        if self.sound_auto_increment {
            self.sound_addr = (self.sound_addr + 1) % 128;
        }
    }

    fn write_bank_register(&mut self, addr: u16, value: u8)
        requires
            old(self).wf(),
            addr >= 0x8000,
        ensures
            final(self).wf(),
            final(self)@ == cpu_write_spec(old(self)@, addr, value),
    {
        if addr <= 0xDFFF {
            self.chr_banks[((addr - 0x8000) / 0x800) as usize] = value;
        } else if addr <= 0xE7FF {
            self.prg_banks[0] = value & 0x3F;
            self.sound_disable = value & 0x40 != 0;
        } else if addr <= 0xEFFF {
            self.prg_banks[1] = value & 0x3F;
            self.chr_ram_enable_lo = value & 0x40 == 0;
            self.chr_ram_enable_hi = value & 0x80 == 0;
        } else if addr <= 0xF7FF {
            self.prg_banks[2] = value & 0x3F;
        } else {
            self.sound_addr = value % 128;
            self.sound_auto_increment = value & 0x80 != 0;
            self.wram_protect = value;
        }
    }

    /// A CPU write.
    pub fn cpu_write(&mut self, addr: u16, value: u8)
        requires
            old(self).wf(),
        ensures
            final(self).wf(),
            final(self)@ == cpu_write_spec(old(self)@, addr, value),
    {
        if addr < 0x2000 {
            self.cpu_ram.set((addr % 0x800) as usize, value);
        } else if 0x4800 <= addr && addr <= 0x4FFF {
            self.write_sound_ram(value);
        } else if 0x5000 <= addr && addr <= 0x57FF {
            self.irq_counter = (self.irq_counter & 0xFF00) | value as u16;
            self.irq_pending = false;
        } else if 0x5800 <= addr && addr <= 0x5FFF {
            self.irq_counter = (self.irq_counter & 0x00FF) | (((value & 0x7F) as u16) << 8);
            self.irq_enabled = value & 0x80 != 0;
            self.irq_pending = false;
        } else if 0x6000 <= addr && addr <= 0x7FFF {
            if self.wram_writable_exec() {
                self.prg_ram.set((addr - 0x6000) as usize, value);
            }
        } else if addr >= 0x8000 {
            self.write_bank_register(addr, value);
        }
    }

    fn chr_uses_ram_exec(&self, addr: u16) -> (r: bool)
        requires
            addr <= 0x1FFF,
        ensures
            r == chr_uses_ram(self@, addr),
    {
        let slot = ((addr / 1024) % 8) as usize;
        let bank_val = self.chr_banks[slot];
        let enabled = if slot >= 4 {
            self.chr_ram_enable_hi
        } else {
            self.chr_ram_enable_lo
        };
        self.has_chr_ram && bank_val >= 0xE0 && enabled
    }

    fn chr_ram_index_exec(&self, addr: u16) -> (r: usize)
        requires
            self.wf(),
            self.has_chr_ram,
            addr <= 0x1FFF,
        ensures
            r == chr_ram_index(self@, addr),
            r < self.chr_rom@.len() * 1024,
    {
        let slot = ((addr / 1024) % 8) as usize;
        let bank_val = self.chr_banks[slot];
        ((bank_val & 0x1F) as usize * 1024 + (addr % 1024) as usize) % (self.chr_rom.len() * CHR_BANK_SIZE)
    }

    fn chr_bank_exec(&self, reg: u8) -> (r: usize)
        ensures
            r == chr_bank(self@, reg),
    {
        let n = if self.chr_rom.len() == 0 {
            1
        } else {
            self.chr_rom.len()
        };
        (reg as usize) % n
    }

    fn read_chr(&self, addr: u16) -> (r: u8)
        requires
            self.wf(),
            addr <= 0x1FFF,
        ensures
            r == read_chr(self@, addr),
    {
        if self.chr_uses_ram_exec(addr) {
            let i = self.chr_ram_index_exec(addr);
            self.chr_rom[i / CHR_BANK_SIZE][i % CHR_BANK_SIZE]
        } else {
            let b = self.chr_bank_exec(self.chr_banks[((addr / 1024) % 8) as usize]);
            if b < self.chr_rom.len() {
                self.chr_rom[b][(addr % 1024) as usize]
            } else {
                0
            }
        }
    }

    fn read_nt(&self, addr: u16) -> (r: u8)
        requires
            self.wf(),
            0x2000 <= addr <= 0x3EFF,
        ensures
            r == read_nt(self@, addr),
    {
        let reg = self.chr_banks[8 + ((addr / 1024) % 4) as usize];
        if reg >= 0xE0 {
            self.vram[(reg % 2) as usize * 0x400 + (addr % 1024) as usize]
        } else {
            let b = self.chr_bank_exec(reg);
            if b < self.chr_rom.len() {
                self.chr_rom[b][(addr % 1024) as usize]
            } else {
                0
            }
        }
    }

    pub fn ppu_read(&self, addr: u16) -> (r: u8)
        requires
            self.wf(),
        ensures
            r == ppu_read_spec(self@, addr),
    {
        if addr <= 0x1FFF {
            self.read_chr(addr)
        } else if addr <= 0x3EFF {
            self.read_nt(addr)
        } else if addr <= 0x3FFF {
            self.palette_ram[palette_index(addr)]
        } else {
            0
        }
    }

    fn write_chr_ram(&mut self, addr: u16, value: u8)
        requires
            old(self).wf(),
            addr <= 0x1FFF,
        ensures
            final(self).wf(),
            final(self)@ == ppu_write_spec(old(self)@, addr, value),
    {
        if self.chr_uses_ram_exec(addr) {
            let i = self.chr_ram_index_exec(addr);
            let b = i / CHR_BANK_SIZE;
            let mut page = self.chr_rom[b];
            page[i % CHR_BANK_SIZE] = value;
            self.chr_rom.set(b, page);
            assert(self@.chr_rom =~= old(self)@.chr_rom.update(b as int, old(self)@.chr_rom[b as int].update(
                (i % CHR_BANK_SIZE) as int,
                value,
            )));
        }
    }

    pub fn ppu_write(&mut self, addr: u16, value: u8)
        requires
            old(self).wf(),
        ensures
            final(self).wf(),
            final(self)@ == ppu_write_spec(old(self)@, addr, value),
    {
        if addr <= 0x1FFF {
            self.write_chr_ram(addr, value);
        } else if addr <= 0x3EFF {
            let reg = self.chr_banks[8 + ((addr / 1024) % 4) as usize];
            if reg >= 0xE0 {
                self.vram.set((reg % 2) as usize * 0x400 + (addr % 1024) as usize, value);
            }
        } else if addr <= 0x3FFF {
            self.palette_ram.set(palette_index(addr), value);
        }
    }

    fn clock_irq(&mut self)
        requires
            old(self).wf(),
        ensures
            final(self).wf(),
            final(self)@ == irq_step(old(self)@),
    {
        if self.irq_enabled && self.irq_counter < IRQ_LIMIT {
            self.irq_counter = self.irq_counter + 1;
            if self.irq_counter >= IRQ_LIMIT {
                self.irq_pending = true;
            }
        }
    }

    fn clock_audio(&mut self) -> (s: Option<ChannelSample>)
        requires
            old(self).wf(),
        ensures
            final(self).wf(),
            (final(self)@, s) == audio_step(old(self)@),
    {
        if self.sound_disable {
            return None;
        }
        if self.audio_timer + 1 < AUDIO_PERIOD {
            self.audio_timer = self.audio_timer + 1;
            return None;
        }
        self.audio_timer = 0;
        let top = self.sound_ram[0x7F];
        let n: u8 = (top / 16) % 8 + 1;
        let first: u8 = 8 - n;
        let ch: usize = if self.audio_channel_index < first {
            first as usize
        } else {
            self.audio_channel_index as usize
        };
        let base: usize = 0x40 + ch * 8;
        let r4 = self.sound_ram[base + 4] as u32;
        let freq: u32 = self.sound_ram[base] as u32 + self.sound_ram[base + 2] as u32 * 256 + (r4 % 4) * 65536;
        let phase: u32 = self.sound_ram[base + 1] as u32 + self.sound_ram[base + 3] as u32 * 256
            + self.sound_ram[base + 5] as u32 * 65536;
        let wave_length: u32 = 256 - (r4 - r4 % 4);
        let wave_addr = self.sound_ram[base + 6] as u32;
        let volume = (self.sound_ram[base + 7] % 16) as i16;
        let next_phase = (phase + freq) % (wave_length * 65536);
        self.sound_ram.set(base + 1, (next_phase % 256) as u8);
        self.sound_ram.set(base + 3, ((next_phase / 256) % 256) as u8);
        self.sound_ram.set(base + 5, ((next_phase / 65536) % 256) as u8);
        let index = (wave_addr + next_phase / 65536) as usize;
        let b = self.sound_ram[(index / 2) % SOUND_RAM_SIZE];
        let sample: i16 = if index % 2 == 1 {
            (b / 16) as i16
        } else {
            (b % 16) as i16
        };
        let next: u8 = if ch + 1 >= 8 {
            first
        } else {
            (ch + 1) as u8
        };
        self.audio_channel_index = next;
        assert(-120 <= (sample - 8) * volume <= 105) by (nonlinear_arith)
            requires
                0 <= sample <= 15,
                0 <= volume <= 15,
        ;
        Some(ChannelSample { level: (sample - 8) * volume, active_channels: n })
    }

    /// One CPU cycle: the IRQ counter, then the sound unit. Returns the
    /// channel update the sound unit made, for the mixer.
    pub fn cpu_cycle(&mut self, ppu_dot: u64) -> (s: Option<ChannelSample>)
        requires
            old(self).wf(),
        ensures
            final(self).wf(),
            (final(self)@, s) == cpu_cycle_spec(old(self)@),
    {
        self.clock_irq();
        self.clock_audio()
    }

    pub fn poll_irq(&self) -> (r: bool)
        ensures
            r == self.irq_pending,
    {
        self.irq_pending
    }

    pub fn mapper_id(&self) -> (r: u8)
        ensures
            r == 19,
    {
        19
    }

    /// The reset vector.
    pub fn code_start(&self) -> (r: u16)
        requires
            self.wf(),
        ensures
            r == word(cpu_read_value(self@, RESET_TARGET_ADDR), cpu_read_value(self@, 0xFFFD)),
    {
        make_word(self.cpu_peek(RESET_TARGET_ADDR), self.cpu_peek(RESET_TARGET_ADDR + 1))
    }

    /// The battery-backed PRG RAM.
    pub fn sram_data(&self) -> (r: Option<&[u8]>)
        ensures
            self.has_battery ==> (r matches Some(d) && d@ == self.prg_ram@),
            !self.has_battery ==> r is None,
    {
        if self.has_battery {
            Some(self.prg_ram.as_slice())
        } else {
            None
        }
    }

    /// The battery-backed PRG RAM, for filling from a save.
    pub fn sram_data_mut(&mut self) -> (r: Option<&mut [u8]>)
        ensures
            !old(self).has_battery ==> r is None && final(self).prg_ram == old(self).prg_ram,
            old(self).has_battery ==> (r matches Some(d) && d@ == old(self).prg_ram@
                && final(self).prg_ram@ == final(d)@),
            final(self).controllers == old(self).controllers,
            final(self).prg_rom == old(self).prg_rom,
            final(self).chr_rom == old(self).chr_rom,
            final(self).has_chr_ram == old(self).has_chr_ram,
            final(self).sound_ram == old(self).sound_ram,
            final(self).cpu_ram == old(self).cpu_ram,
            final(self).vram == old(self).vram,
            final(self).palette_ram == old(self).palette_ram,
            final(self).prg_banks == old(self).prg_banks,
            final(self).chr_banks == old(self).chr_banks,
            final(self).chr_ram_enable_lo == old(self).chr_ram_enable_lo,
            final(self).chr_ram_enable_hi == old(self).chr_ram_enable_hi,
            final(self).irq_counter == old(self).irq_counter,
            final(self).irq_enabled == old(self).irq_enabled,
            final(self).irq_pending == old(self).irq_pending,
            final(self).sound_addr == old(self).sound_addr,
            final(self).sound_auto_increment == old(self).sound_auto_increment,
            final(self).sound_disable == old(self).sound_disable,
            final(self).wram_protect == old(self).wram_protect,
            final(self).audio_channel_index == old(self).audio_channel_index,
            final(self).audio_timer == old(self).audio_timer,
            final(self).has_battery == old(self).has_battery,
    {
        if self.has_battery {
            Some(self.prg_ram.as_mut_slice())
        } else {
            None
        }
    }
}

impl Namco163Mapper {
    /// The bytes `save_state` appends.
    pub open spec fn state_bytes(&self) -> Seq<u8> {
        controllers_bytes(self.controllers)
            + self.cpu_ram@
            + self.vram@
            + self.palette_ram@
            + self.prg_ram@
            + self.sound_ram@
            + banks_bytes(self.chr_rom@)
            + self.chr_banks@
            + self.prg_banks@
            + enc_bool(self.chr_ram_enable_lo)
            + enc_bool(self.chr_ram_enable_hi)
            + enc_u16(self.irq_counter)
            + enc_bool(self.irq_enabled)
            + enc_bool(self.irq_pending)
            + enc_u8(self.sound_addr)
            + enc_bool(self.sound_auto_increment)
            + enc_bool(self.sound_disable)
            + enc_u8(self.wram_protect)
            + enc_u8(self.audio_channel_index)
            + enc_u8(self.audio_timer)
    }

    /// Length of the saved state.
    pub open spec fn state_len(&self) -> nat {
        (2 * CONTROLLER_STATE_LEN + CPU_RAM_SIZE + VRAM_SIZE + PALETTE_SIZE + PRG_RAM_8K + SOUND_RAM_SIZE + self.chr_rom@.len() * CHR_BANK_SIZE + 27) as nat
    }

    /// Every register that the state stores in fewer bits than it is held in
    /// fits in those bits.
    pub open spec fn fits(&self) -> bool {
        true
    }

    /// The stored bytes at `p` hold a state that this cartridge can take.
    pub open spec fn state_valid(&self, d: Seq<u8>, p: int) -> bool {
        &&& (d[(p + 2 * CONTROLLER_STATE_LEN + CPU_RAM_SIZE + VRAM_SIZE + PALETTE_SIZE + PRG_RAM_8K + SOUND_RAM_SIZE + self.chr_rom@.len() * CHR_BANK_SIZE + 21)]) < 128
        &&& (d[(p + 2 * CONTROLLER_STATE_LEN + CPU_RAM_SIZE + VRAM_SIZE + PALETTE_SIZE + PRG_RAM_8K + SOUND_RAM_SIZE + self.chr_rom@.len() * CHR_BANK_SIZE + 25)]) < 8
        &&& (d[(p + 2 * CONTROLLER_STATE_LEN + CPU_RAM_SIZE + VRAM_SIZE + PALETTE_SIZE + PRG_RAM_8K + SOUND_RAM_SIZE + self.chr_rom@.len() * CHR_BANK_SIZE + 26)]) < AUDIO_PERIOD
    }

    /// What `load_state` answers for the bytes at `p`.
    pub open spec fn load_outcome(&self, d: Seq<u8>, p: int) -> Result<(), StateError> {
        if p + self.state_len() > d.len() {
            Err(StateError::UnexpectedEof)
        } else if !self.state_valid(d, p) {
            Err(StateError::InvalidValue)
        } else {
            Ok(())
        }
    }

    /// Every saved field holds what the bytes at `p` store.
    pub open spec fn loaded_from(&self, d: Seq<u8>, p: int) -> bool {
        &&& self.controllers@[0] == controller_at(d, p)
        &&& self.controllers@[1] == controller_at(d, p + CONTROLLER_STATE_LEN)
        &&& self.cpu_ram@ == d.subrange((p + 2 * CONTROLLER_STATE_LEN), (p + 2 * CONTROLLER_STATE_LEN) + CPU_RAM_SIZE)
        &&& self.vram@ == d.subrange((p + 2 * CONTROLLER_STATE_LEN + CPU_RAM_SIZE), (p + 2 * CONTROLLER_STATE_LEN + CPU_RAM_SIZE) + VRAM_SIZE)
        &&& self.palette_ram@ == d.subrange((p + 2 * CONTROLLER_STATE_LEN + CPU_RAM_SIZE + VRAM_SIZE), (p + 2 * CONTROLLER_STATE_LEN + CPU_RAM_SIZE + VRAM_SIZE) + PALETTE_SIZE)
        &&& self.prg_ram@ == d.subrange((p + 2 * CONTROLLER_STATE_LEN + CPU_RAM_SIZE + VRAM_SIZE + PALETTE_SIZE), (p + 2 * CONTROLLER_STATE_LEN + CPU_RAM_SIZE + VRAM_SIZE + PALETTE_SIZE) + PRG_RAM_8K)
        &&& self.sound_ram@ == d.subrange((p + 2 * CONTROLLER_STATE_LEN + CPU_RAM_SIZE + VRAM_SIZE + PALETTE_SIZE + PRG_RAM_8K), (p + 2 * CONTROLLER_STATE_LEN + CPU_RAM_SIZE + VRAM_SIZE + PALETTE_SIZE + PRG_RAM_8K) + SOUND_RAM_SIZE)
        &&& forall|j: int| 0 <= j < self.chr_rom@.len() ==> #[trigger] self.chr_rom@[j]@ == bank_at(d, (p + 2 * CONTROLLER_STATE_LEN + CPU_RAM_SIZE + VRAM_SIZE + PALETTE_SIZE + PRG_RAM_8K + SOUND_RAM_SIZE), j, CHR_BANK_SIZE as int)
        &&& self.chr_banks@ == d.subrange((p + 2 * CONTROLLER_STATE_LEN + CPU_RAM_SIZE + VRAM_SIZE + PALETTE_SIZE + PRG_RAM_8K + SOUND_RAM_SIZE + self.chr_rom@.len() * CHR_BANK_SIZE), (p + 2 * CONTROLLER_STATE_LEN + CPU_RAM_SIZE + VRAM_SIZE + PALETTE_SIZE + PRG_RAM_8K + SOUND_RAM_SIZE + self.chr_rom@.len() * CHR_BANK_SIZE) + 12)
        &&& self.prg_banks@ == d.subrange((p + 2 * CONTROLLER_STATE_LEN + CPU_RAM_SIZE + VRAM_SIZE + PALETTE_SIZE + PRG_RAM_8K + SOUND_RAM_SIZE + self.chr_rom@.len() * CHR_BANK_SIZE + 12), (p + 2 * CONTROLLER_STATE_LEN + CPU_RAM_SIZE + VRAM_SIZE + PALETTE_SIZE + PRG_RAM_8K + SOUND_RAM_SIZE + self.chr_rom@.len() * CHR_BANK_SIZE + 12) + 3)
        &&& self.chr_ram_enable_lo == (d[(p + 2 * CONTROLLER_STATE_LEN + CPU_RAM_SIZE + VRAM_SIZE + PALETTE_SIZE + PRG_RAM_8K + SOUND_RAM_SIZE + self.chr_rom@.len() * CHR_BANK_SIZE + 15)] != 0)
        &&& self.chr_ram_enable_hi == (d[(p + 2 * CONTROLLER_STATE_LEN + CPU_RAM_SIZE + VRAM_SIZE + PALETTE_SIZE + PRG_RAM_8K + SOUND_RAM_SIZE + self.chr_rom@.len() * CHR_BANK_SIZE + 16)] != 0)
        &&& self.irq_counter == dec_u16_at(d, (p + 2 * CONTROLLER_STATE_LEN + CPU_RAM_SIZE + VRAM_SIZE + PALETTE_SIZE + PRG_RAM_8K + SOUND_RAM_SIZE + self.chr_rom@.len() * CHR_BANK_SIZE + 17))
        &&& self.irq_enabled == (d[(p + 2 * CONTROLLER_STATE_LEN + CPU_RAM_SIZE + VRAM_SIZE + PALETTE_SIZE + PRG_RAM_8K + SOUND_RAM_SIZE + self.chr_rom@.len() * CHR_BANK_SIZE + 19)] != 0)
        &&& self.irq_pending == (d[(p + 2 * CONTROLLER_STATE_LEN + CPU_RAM_SIZE + VRAM_SIZE + PALETTE_SIZE + PRG_RAM_8K + SOUND_RAM_SIZE + self.chr_rom@.len() * CHR_BANK_SIZE + 20)] != 0)
        &&& self.sound_addr == d[(p + 2 * CONTROLLER_STATE_LEN + CPU_RAM_SIZE + VRAM_SIZE + PALETTE_SIZE + PRG_RAM_8K + SOUND_RAM_SIZE + self.chr_rom@.len() * CHR_BANK_SIZE + 21)]
        &&& self.sound_auto_increment == (d[(p + 2 * CONTROLLER_STATE_LEN + CPU_RAM_SIZE + VRAM_SIZE + PALETTE_SIZE + PRG_RAM_8K + SOUND_RAM_SIZE + self.chr_rom@.len() * CHR_BANK_SIZE + 22)] != 0)
        &&& self.sound_disable == (d[(p + 2 * CONTROLLER_STATE_LEN + CPU_RAM_SIZE + VRAM_SIZE + PALETTE_SIZE + PRG_RAM_8K + SOUND_RAM_SIZE + self.chr_rom@.len() * CHR_BANK_SIZE + 23)] != 0)
        &&& self.wram_protect == d[(p + 2 * CONTROLLER_STATE_LEN + CPU_RAM_SIZE + VRAM_SIZE + PALETTE_SIZE + PRG_RAM_8K + SOUND_RAM_SIZE + self.chr_rom@.len() * CHR_BANK_SIZE + 24)]
        &&& self.audio_channel_index == d[(p + 2 * CONTROLLER_STATE_LEN + CPU_RAM_SIZE + VRAM_SIZE + PALETTE_SIZE + PRG_RAM_8K + SOUND_RAM_SIZE + self.chr_rom@.len() * CHR_BANK_SIZE + 25)]
        &&& self.audio_timer == d[(p + 2 * CONTROLLER_STATE_LEN + CPU_RAM_SIZE + VRAM_SIZE + PALETTE_SIZE + PRG_RAM_8K + SOUND_RAM_SIZE + self.chr_rom@.len() * CHR_BANK_SIZE + 26)]
    }

    /// The two agree on every saved field.
    pub open spec fn same_state(&self, other: &Self) -> bool {
        &&& self.controllers@ == other.controllers@
        &&& self.cpu_ram@ == other.cpu_ram@
        &&& self.vram@ == other.vram@
        &&& self.palette_ram@ == other.palette_ram@
        &&& self.prg_ram@ == other.prg_ram@
        &&& self.sound_ram@ == other.sound_ram@
        &&& self.chr_rom@.len() == other.chr_rom@.len()
        &&& forall|j: int| 0 <= j < self.chr_rom@.len() ==> #[trigger] self.chr_rom@[j]@ == other.chr_rom@[j]@
        &&& self.chr_banks@ == other.chr_banks@
        &&& self.prg_banks@ == other.prg_banks@
        &&& self.chr_ram_enable_lo == other.chr_ram_enable_lo
        &&& self.chr_ram_enable_hi == other.chr_ram_enable_hi
        &&& self.irq_counter == other.irq_counter
        &&& self.irq_enabled == other.irq_enabled
        &&& self.irq_pending == other.irq_pending
        &&& self.sound_addr == other.sound_addr
        &&& self.sound_auto_increment == other.sound_auto_increment
        &&& self.sound_disable == other.sound_disable
        &&& self.wram_protect == other.wram_protect
        &&& self.audio_channel_index == other.audio_channel_index
        &&& self.audio_timer == other.audio_timer
    }

    /// The two agree on every field that the state does not store.
    pub open spec fn keeps_unsaved(&self, other: &Self) -> bool {
        &&& self.prg_rom == other.prg_rom
        &&& self.has_chr_ram == other.has_chr_ram
        &&& self.has_battery == other.has_battery
    }

    /// The two come from cartridges of the same shape.
    pub open spec fn same_layout(&self, other: &Self) -> bool {
        &&& self.prg_rom@.len() == other.prg_rom@.len()
        &&& self.chr_rom@.len() == other.chr_rom@.len()
        &&& self.has_chr_ram == other.has_chr_ram
    }

    #[verifier::spinoff_prover]
    pub fn save_state(&self, w: &mut SavestateWriter)
        ensures
            final(w).buf@ == old(w).buf@ + self.state_bytes(),
    {
        let ghost b = w.buf@;
        let ghost s0 = controllers_bytes(self.controllers);
        let ghost s1 = s0 + self.cpu_ram@;
        let ghost s2 = s1 + self.vram@;
        let ghost s3 = s2 + self.palette_ram@;
        let ghost s4 = s3 + self.prg_ram@;
        let ghost s5 = s4 + self.sound_ram@;
        let ghost s6 = s5 + banks_bytes(self.chr_rom@);
        let ghost s7 = s6 + self.chr_banks@;
        let ghost s8 = s7 + self.prg_banks@;
        let ghost s9 = s8 + enc_bool(self.chr_ram_enable_lo);
        let ghost s10 = s9 + enc_bool(self.chr_ram_enable_hi);
        let ghost s11 = s10 + enc_u16(self.irq_counter);
        let ghost s12 = s11 + enc_bool(self.irq_enabled);
        let ghost s13 = s12 + enc_bool(self.irq_pending);
        let ghost s14 = s13 + enc_u8(self.sound_addr);
        let ghost s15 = s14 + enc_bool(self.sound_auto_increment);
        let ghost s16 = s15 + enc_bool(self.sound_disable);
        let ghost s17 = s16 + enc_u8(self.wram_protect);
        let ghost s18 = s17 + enc_u8(self.audio_channel_index);
        let ghost s19 = s18 + enc_u8(self.audio_timer);
        save_controllers(w, &self.controllers);
        w.write_bytes(self.cpu_ram.as_slice());
        proof {
            lemma_add_assoc(b, s0, self.cpu_ram@);
        }
        w.write_bytes(self.vram.as_slice());
        proof {
            lemma_add_assoc(b, s1, self.vram@);
        }
        w.write_bytes(self.palette_ram.as_slice());
        proof {
            lemma_add_assoc(b, s2, self.palette_ram@);
        }
        w.write_bytes(self.prg_ram.as_slice());
        proof {
            lemma_add_assoc(b, s3, self.prg_ram@);
        }
        w.write_bytes(self.sound_ram.as_slice());
        proof {
            lemma_add_assoc(b, s4, self.sound_ram@);
        }
        w.write_banks(&self.chr_rom);
        proof {
            lemma_add_assoc(b, s5, banks_bytes(self.chr_rom@));
        }
        w.write_bytes(self.chr_banks.as_slice());
        proof {
            lemma_add_assoc(b, s6, self.chr_banks@);
        }
        w.write_bytes(self.prg_banks.as_slice());
        proof {
            lemma_add_assoc(b, s7, self.prg_banks@);
        }
        w.write_bool(self.chr_ram_enable_lo);
        proof {
            lemma_add_assoc(b, s8, enc_bool(self.chr_ram_enable_lo));
        }
        w.write_bool(self.chr_ram_enable_hi);
        proof {
            lemma_add_assoc(b, s9, enc_bool(self.chr_ram_enable_hi));
        }
        w.write_u16(self.irq_counter);
        proof {
            lemma_add_assoc(b, s10, enc_u16(self.irq_counter));
        }
        w.write_bool(self.irq_enabled);
        proof {
            lemma_add_assoc(b, s11, enc_bool(self.irq_enabled));
        }
        w.write_bool(self.irq_pending);
        proof {
            lemma_add_assoc(b, s12, enc_bool(self.irq_pending));
        }
        w.write_u8(self.sound_addr);
        proof {
            lemma_add_assoc(b, s13, enc_u8(self.sound_addr));
        }
        w.write_bool(self.sound_auto_increment);
        proof {
            lemma_add_assoc(b, s14, enc_bool(self.sound_auto_increment));
        }
        w.write_bool(self.sound_disable);
        proof {
            lemma_add_assoc(b, s15, enc_bool(self.sound_disable));
        }
        w.write_u8(self.wram_protect);
        proof {
            lemma_add_assoc(b, s16, enc_u8(self.wram_protect));
        }
        w.write_u8(self.audio_channel_index);
        proof {
            lemma_add_assoc(b, s17, enc_u8(self.audio_channel_index));
        }
        w.write_u8(self.audio_timer);
        proof {
            lemma_add_assoc(b, s18, enc_u8(self.audio_timer));
        }
    }

    /// Restores a state written by `save_state`. Nothing changes unless the
    /// whole state is there and holds values this cartridge can take.
    #[verifier::spinoff_prover]
    pub fn load_state(&mut self, r: &mut SavestateReader) -> (res: Result<(), StateError>)
        requires
            old(self).wf(),
            old(r).wf(),
        ensures
            final(r).wf(),
            final(r).data@ == old(r).data@,
            res == old(self).load_outcome(old(r).data@, old(r).pos as int),
            res is Err ==> *final(self) == *old(self) && final(r).pos == old(r).pos,
            res is Ok ==> final(self).wf() && final(self).loaded_from(old(r).data@, old(r).pos as int)
                && final(self).keeps_unsaved(&*old(self)) && final(self).same_layout(&*old(self))
                && final(r).pos == old(r).pos + old(self).state_len(),
    {
        let ghost d = r.data@;
        let ghost p = r.pos as int;
        let start = r.pos;
        let data_len = r.data.len();
        let chr_len: usize = match self.chr_rom.len().checked_mul(CHR_BANK_SIZE) {
            Some(n) => n,
            None => {
                return Err(StateError::UnexpectedEof);
            },
        };
        let rem = r.remaining_len();
        if rem < chr_len || rem - chr_len < 2 * CONTROLLER_STATE_LEN + CPU_RAM_SIZE + VRAM_SIZE + PALETTE_SIZE + PRG_RAM_8K + SOUND_RAM_SIZE + 27 {
            return Err(StateError::UnexpectedEof);
        }
        let controllers = take_controllers(r);
        let cpu_ram = r.take_bytes(CPU_RAM_SIZE);
        let vram = r.take_bytes(VRAM_SIZE);
        let palette_ram = r.take_bytes(PALETTE_SIZE);
        let prg_ram = r.take_bytes(PRG_RAM_8K);
        let sound_ram = r.take_bytes(SOUND_RAM_SIZE);
        let chr_rom = r.take_banks::<CHR_BANK_SIZE>(self.chr_rom.len());
        let chr_banks_bytes = r.take_bytes(12);
        let mut chr_banks = self.chr_banks;
        copy_into_array(&mut chr_banks, &chr_banks_bytes);
        let prg_banks_bytes = r.take_bytes(3);
        let mut prg_banks = self.prg_banks;
        copy_into_array(&mut prg_banks, &prg_banks_bytes);
        let chr_ram_enable_lo = r.take_bool();
        let chr_ram_enable_hi = r.take_bool();
        let irq_counter = r.take_u16();
        let irq_enabled = r.take_bool();
        let irq_pending = r.take_bool();
        let sound_addr = r.take_u8();
        let sound_auto_increment = r.take_bool();
        let sound_disable = r.take_bool();
        let wram_protect = r.take_u8();
        let audio_channel_index = r.take_u8();
        let audio_timer = r.take_u8();
        if (sound_addr >= 128)
            || (audio_channel_index >= 8)
            || (audio_timer >= AUDIO_PERIOD) {
            r.rewind(start);
            return Err(StateError::InvalidValue);
        }
        self.controllers = controllers;
        self.cpu_ram = cpu_ram;
        self.vram = vram;
        self.palette_ram = palette_ram;
        self.prg_ram = prg_ram;
        self.sound_ram = sound_ram;
        self.chr_rom = chr_rom;
        self.chr_banks = chr_banks;
        self.prg_banks = prg_banks;
        self.chr_ram_enable_lo = chr_ram_enable_lo;
        self.chr_ram_enable_hi = chr_ram_enable_hi;
        self.irq_counter = irq_counter;
        self.irq_enabled = irq_enabled;
        self.irq_pending = irq_pending;
        self.sound_addr = sound_addr;
        self.sound_auto_increment = sound_auto_increment;
        self.sound_disable = sound_disable;
        self.wram_protect = wram_protect;
        self.audio_channel_index = audio_channel_index;
        self.audio_timer = audio_timer;
        Ok(())
    }

    /// Saving a state and loading it into a cartridge of the same shape
    /// succeeds and restores every saved field.
    #[verifier::spinoff_prover]
    pub proof fn lemma_state_roundtrip(o: Self, m: Self, n: Self, d: Seq<u8>, p: int)
        requires
            o.wf(),
            m.wf(),
            m.fits(),
            o.same_layout(&m),
            n.same_layout(&m),
            stored_at(d, p, m.state_bytes()),
        ensures
            o.load_outcome(d, p) == Ok::<(), StateError>(()),
            n.loaded_from(d, p) ==> n.same_state(&m),
    {
        let s0 = controllers_bytes(m.controllers);
        let s1 = s0 + m.cpu_ram@;
        let s2 = s1 + m.vram@;
        let s3 = s2 + m.palette_ram@;
        let s4 = s3 + m.prg_ram@;
        let s5 = s4 + m.sound_ram@;
        let s6 = s5 + banks_bytes(m.chr_rom@);
        let s7 = s6 + m.chr_banks@;
        let s8 = s7 + m.prg_banks@;
        let s9 = s8 + enc_bool(m.chr_ram_enable_lo);
        let s10 = s9 + enc_bool(m.chr_ram_enable_hi);
        let s11 = s10 + enc_u16(m.irq_counter);
        let s12 = s11 + enc_bool(m.irq_enabled);
        let s13 = s12 + enc_bool(m.irq_pending);
        let s14 = s13 + enc_u8(m.sound_addr);
        let s15 = s14 + enc_bool(m.sound_auto_increment);
        let s16 = s15 + enc_bool(m.sound_disable);
        let s17 = s16 + enc_u8(m.wram_protect);
        let s18 = s17 + enc_u8(m.audio_channel_index);
        let s19 = s18 + enc_u8(m.audio_timer);
        lemma_stored_split(d, p, s18, enc_u8(m.audio_timer));
        lemma_stored_split(d, p, s17, enc_u8(m.audio_channel_index));
        lemma_stored_split(d, p, s16, enc_u8(m.wram_protect));
        lemma_stored_split(d, p, s15, enc_bool(m.sound_disable));
        lemma_stored_split(d, p, s14, enc_bool(m.sound_auto_increment));
        lemma_stored_split(d, p, s13, enc_u8(m.sound_addr));
        lemma_stored_split(d, p, s12, enc_bool(m.irq_pending));
        lemma_stored_split(d, p, s11, enc_bool(m.irq_enabled));
        lemma_stored_split(d, p, s10, enc_u16(m.irq_counter));
        lemma_stored_split(d, p, s9, enc_bool(m.chr_ram_enable_hi));
        lemma_stored_split(d, p, s8, enc_bool(m.chr_ram_enable_lo));
        lemma_stored_split(d, p, s7, m.prg_banks@);
        lemma_stored_split(d, p, s6, m.chr_banks@);
        lemma_stored_split(d, p, s5, banks_bytes(m.chr_rom@));
        lemma_stored_split(d, p, s4, m.sound_ram@);
        lemma_stored_split(d, p, s3, m.prg_ram@);
        lemma_stored_split(d, p, s2, m.palette_ram@);
        lemma_stored_split(d, p, s1, m.vram@);
        lemma_stored_split(d, p, s0, m.cpu_ram@);
        lemma_stored_controllers(d, p, m.controllers);
        lemma_stored_banks(d, (p + 2 * CONTROLLER_STATE_LEN + CPU_RAM_SIZE + VRAM_SIZE + PALETTE_SIZE + PRG_RAM_8K + SOUND_RAM_SIZE), m.chr_rom@);
        if n.loaded_from(d, p) {
            assert forall|j: int| 0 <= j < n.chr_rom@.len() implies #[trigger] n.chr_rom@[j]@ == m.chr_rom@[j]@ by {
                assert(bank_at(d, (p + 2 * CONTROLLER_STATE_LEN + CPU_RAM_SIZE + VRAM_SIZE + PALETTE_SIZE + PRG_RAM_8K + SOUND_RAM_SIZE), j, CHR_BANK_SIZE as int) == m.chr_rom@[j]@);
            }
        }
        lemma_stored_bool(d, (p + 2 * CONTROLLER_STATE_LEN + CPU_RAM_SIZE + VRAM_SIZE + PALETTE_SIZE + PRG_RAM_8K + SOUND_RAM_SIZE + m.chr_rom@.len() * CHR_BANK_SIZE + 15), m.chr_ram_enable_lo);
        lemma_stored_bool(d, (p + 2 * CONTROLLER_STATE_LEN + CPU_RAM_SIZE + VRAM_SIZE + PALETTE_SIZE + PRG_RAM_8K + SOUND_RAM_SIZE + m.chr_rom@.len() * CHR_BANK_SIZE + 16), m.chr_ram_enable_hi);
        lemma_stored_u16(d, (p + 2 * CONTROLLER_STATE_LEN + CPU_RAM_SIZE + VRAM_SIZE + PALETTE_SIZE + PRG_RAM_8K + SOUND_RAM_SIZE + m.chr_rom@.len() * CHR_BANK_SIZE + 17), m.irq_counter);
        lemma_stored_bool(d, (p + 2 * CONTROLLER_STATE_LEN + CPU_RAM_SIZE + VRAM_SIZE + PALETTE_SIZE + PRG_RAM_8K + SOUND_RAM_SIZE + m.chr_rom@.len() * CHR_BANK_SIZE + 19), m.irq_enabled);
        lemma_stored_bool(d, (p + 2 * CONTROLLER_STATE_LEN + CPU_RAM_SIZE + VRAM_SIZE + PALETTE_SIZE + PRG_RAM_8K + SOUND_RAM_SIZE + m.chr_rom@.len() * CHR_BANK_SIZE + 20), m.irq_pending);
        lemma_stored_u8(d, (p + 2 * CONTROLLER_STATE_LEN + CPU_RAM_SIZE + VRAM_SIZE + PALETTE_SIZE + PRG_RAM_8K + SOUND_RAM_SIZE + m.chr_rom@.len() * CHR_BANK_SIZE + 21), m.sound_addr);
        lemma_stored_bool(d, (p + 2 * CONTROLLER_STATE_LEN + CPU_RAM_SIZE + VRAM_SIZE + PALETTE_SIZE + PRG_RAM_8K + SOUND_RAM_SIZE + m.chr_rom@.len() * CHR_BANK_SIZE + 22), m.sound_auto_increment);
        lemma_stored_bool(d, (p + 2 * CONTROLLER_STATE_LEN + CPU_RAM_SIZE + VRAM_SIZE + PALETTE_SIZE + PRG_RAM_8K + SOUND_RAM_SIZE + m.chr_rom@.len() * CHR_BANK_SIZE + 23), m.sound_disable);
        lemma_stored_u8(d, (p + 2 * CONTROLLER_STATE_LEN + CPU_RAM_SIZE + VRAM_SIZE + PALETTE_SIZE + PRG_RAM_8K + SOUND_RAM_SIZE + m.chr_rom@.len() * CHR_BANK_SIZE + 24), m.wram_protect);
        lemma_stored_u8(d, (p + 2 * CONTROLLER_STATE_LEN + CPU_RAM_SIZE + VRAM_SIZE + PALETTE_SIZE + PRG_RAM_8K + SOUND_RAM_SIZE + m.chr_rom@.len() * CHR_BANK_SIZE + 25), m.audio_channel_index);
        lemma_stored_u8(d, (p + 2 * CONTROLLER_STATE_LEN + CPU_RAM_SIZE + VRAM_SIZE + PALETTE_SIZE + PRG_RAM_8K + SOUND_RAM_SIZE + m.chr_rom@.len() * CHR_BANK_SIZE + 26), m.audio_timer);
        if n.loaded_from(d, p) {
            assert(n.controllers@ =~= m.controllers@);
        }
    }
}

/// Without auto-increment, a read of $4800 returns the byte just written
/// there.
pub proof fn lemma_sound_ram_read_after_write(m: Namco163Model, value: u8)
    requires
        !m.sound_auto_increment,
        m.sound_addr < 128,
        m.sound_ram.len() == SOUND_RAM_SIZE,
    ensures
        cpu_read_value(cpu_write_spec(m, 0x4800, value), 0x4800) == value,
{
}

/// With auto-increment on, a run of writes to $4800 fills consecutive sound
/// RAM bytes: the next write lands one byte further on, wrapping at 128.
pub proof fn lemma_sound_ram_auto_increment(m: Namco163Model, v: u8)
    requires
        m.sound_auto_increment,
        m.sound_addr < 128,
        m.sound_ram.len() == SOUND_RAM_SIZE,
    ensures
        cpu_write_spec(m, 0x4800, v).sound_ram[m.sound_addr as int] == v,
        cpu_write_spec(m, 0x4800, v).sound_addr == (m.sound_addr + 1) % 128,
{
}

/// While enabled, the IRQ counter counts up once a cycle and raises the IRQ
/// when it reaches `IRQ_LIMIT`, where it stops.
pub proof fn lemma_irq_counts_to_limit(m: Namco163Model)
    requires
        m.irq_enabled,
    ensures
        m.irq_counter < IRQ_LIMIT ==> cpu_cycle_spec(m).0.irq_counter == m.irq_counter + 1,
        m.irq_counter + 1 == IRQ_LIMIT ==> cpu_cycle_spec(m).0.irq_pending,
        m.irq_counter >= IRQ_LIMIT ==> cpu_cycle_spec(m).0.irq_counter == m.irq_counter,
{
}

/// The sound unit takes its active channels (8 - n to 7) in turn. A cycle
/// that updates a channel updates an active one, changes no sound RAM but
/// that channel's phase bytes, and leaves the next channel in line for the
/// next update: the following channel, or the first active one after
/// channel 7. The cycles in between change neither the sound RAM nor which
/// channel comes next.
pub proof fn lemma_channels_round_robin(m: Namco163Model)
    requires
        m.sound_ram.len() == 128,
        m.audio_channel_index < 8,
        !m.sound_disable,
    ensures
        ({
            let r = audio_step(m);
            let m1 = r.0;
            let n = active_channels(m.sound_ram);
            let ch = current_channel(m);
            if m.audio_timer + 1 < AUDIO_PERIOD {
                &&& r.1 is None
                &&& m1.sound_ram == m.sound_ram
                &&& current_channel(m1) == ch
            } else {
                &&& r.1 is Some
                &&& 8 - n <= ch < 8
                &&& active_channels(m1.sound_ram) == n
                &&& current_channel(m1) == (if ch < 7 { ch + 1 } else { 8 - n })
                &&& forall|i: int|
                    0 <= i < 128 && i != 0x40 + 8 * ch + 1 && i != 0x40 + 8 * ch + 3 && i != 0x40 + 8 * ch + 5
                        ==> #[trigger] m1.sound_ram[i] == m.sound_ram[i]
            }
        }),
{
    let n = active_channels(m.sound_ram);
    assert(1 <= n <= 8);
}

} // verus!
