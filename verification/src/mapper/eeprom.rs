//! The 24C02 serial EEPROM on Bandai LZ93D50 boards: 256 bytes behind a
//! two-wire (I2C) interface that the game bit-bangs through one register.

use vstd::prelude::*;
use crate::savestate::{SavestateWriter, SavestateReader, enc_u8, enc_bool, stored_at, lemma_add_assoc, lemma_stored_split, lemma_stored_u8, lemma_stored_bool, copy_into_array};

verus! {

pub const EEPROM_SIZE_24C02: usize = 256;

#[derive(Clone, Copy, Debug, PartialEq, Eq, Structural)]
pub enum EepromState {
    Idle,
    DeviceAddr,
    WordAddr,
    WriteData,
    ReadData,
}

pub struct Eeprom24C02 {
    pub data: [u8; EEPROM_SIZE_24C02],
    pub state: EepromState,
    pub scl: bool,
    pub sda_out: bool,
    pub sda_in: bool,
    pub bit_count: u8,
    pub shift_reg: u8,
    pub word_addr: u8,
    pub output_bit: bool,
}

/// The contents of an EEPROM chip and its interface state.
pub struct EepromModel {
    pub data: Seq<u8>,
    pub state: EepromState,
    pub scl: bool,
    pub sda_out: bool,
    pub sda_in: bool,
    pub bit_count: u8,
    pub shift_reg: u8,
    pub word_addr: u8,
    pub output_bit: bool,
}

impl View for Eeprom24C02 {
    type V = EepromModel;

    open spec fn view(&self) -> EepromModel {
        EepromModel {
            data: self.data@,
            state: self.state,
            scl: self.scl,
            sda_out: self.sda_out,
            sda_in: self.sda_in,
            bit_count: self.bit_count,
            shift_reg: self.shift_reg,
            word_addr: self.word_addr,
            output_bit: self.output_bit,
        }
    }
}

/// Bit 7 of a byte as a line level.
pub open spec fn top_bit(b: u8) -> bool {
    (b >> 7u8) & 1 != 0
}

/// Bit `7 - n` of a byte as a line level (bits go out most significant first).
pub open spec fn nth_bit(b: u8, n: u8) -> bool {
    (b >> ((7 - n) as u8)) & 1 != 0
}

/// The shift register after taking in one more bit.
pub open spec fn shifted(sr: u8, sda: bool) -> u8 {
    ((sr << 1u8) | (if sda { 1u8 } else { 0u8 })) as u8
}

impl EepromModel {
    pub open spec fn wf(self) -> bool {
        &&& self.data.len() == EEPROM_SIZE_24C02
        &&& self.bit_count == 255 ==> self.scl || self.state == EepromState::Idle
    }

    /// The chip after a rising edge of SCL with `sda` on the data line.
    pub open spec fn rising(self, sda: bool) -> EepromModel {
        match self.state {
            EepromState::Idle => self,
            EepromState::DeviceAddr => if self.bit_count < 8 {
                let sr = shifted(self.shift_reg, sda);
                let bc = (self.bit_count + 1) as u8;
                EepromModel { shift_reg: sr, bit_count: bc, output_bit: if bc == 8 { false } else { self.output_bit }, ..self }
            } else {
                EepromModel { bit_count: (self.bit_count + 1) as u8, ..self }
            },
            EepromState::WordAddr => if self.bit_count < 8 {
                let sr = shifted(self.shift_reg, sda);
                let bc = (self.bit_count + 1) as u8;
                if bc == 8 {
                    EepromModel { shift_reg: sr, bit_count: bc, word_addr: sr, output_bit: false, ..self }
                } else {
                    EepromModel { shift_reg: sr, bit_count: bc, ..self }
                }
            } else {
                EepromModel { bit_count: (self.bit_count + 1) as u8, ..self }
            },
            EepromState::WriteData => if self.bit_count < 8 {
                let sr = shifted(self.shift_reg, sda);
                let bc = (self.bit_count + 1) as u8;
                if bc == 8 {
                    EepromModel {
                        shift_reg: sr,
                        bit_count: bc,
                        data: self.data.update(self.word_addr as int, sr),
                        word_addr: (if self.word_addr == 255 { 0 } else { self.word_addr + 1 }) as u8,
                        output_bit: false,
                        ..self
                    }
                } else {
                    EepromModel { shift_reg: sr, bit_count: bc, ..self }
                }
            } else {
                EepromModel { bit_count: (self.bit_count + 1) as u8, ..self }
            },
            EepromState::ReadData => if self.bit_count < 8 {
                EepromModel {
                    output_bit: nth_bit(self.data[self.word_addr as int], self.bit_count),
                    bit_count: (self.bit_count + 1) as u8,
                    ..self
                }
            } else {
                EepromModel { bit_count: (self.bit_count + 1) as u8, ..self }
            },
        }
    }

    /// The chip after a falling edge of SCL that ends an acknowledge cycle.
    pub open spec fn after_ack(self) -> EepromModel {
        match self.state {
            EepromState::DeviceAddr => if self.shift_reg & 1 == 0 {
                EepromModel { bit_count: 0, state: EepromState::WordAddr, shift_reg: 0, output_bit: true, ..self }
            } else {
                EepromModel {
                    bit_count: 0,
                    state: EepromState::ReadData,
                    output_bit: top_bit(self.data[self.word_addr as int]),
                    ..self
                }
            },
            EepromState::WordAddr => EepromModel {
                bit_count: 0,
                shift_reg: 0,
                output_bit: true,
                state: EepromState::WriteData,
                ..self
            },
            EepromState::WriteData => EepromModel { bit_count: 0, shift_reg: 0, output_bit: true, ..self },
            EepromState::ReadData => {
                let wa = (if self.word_addr == 255 { 0 } else { self.word_addr + 1 }) as u8;
                EepromModel { word_addr: wa, bit_count: 0, output_bit: top_bit(self.data[wa as int]), ..self }
            },
            EepromState::Idle => self,
        }
    }

    /// The chip after the game drives the lines to `sda` and `scl`.
    pub open spec fn step(self, sda: bool, scl: bool) -> EepromModel {
        let old_scl = self.scl;
        let old_sda = self.sda_in;
        let s0 = EepromModel { scl, sda_in: sda, ..self };
        if scl && old_scl && old_sda && !sda {
            EepromModel { state: EepromState::DeviceAddr, bit_count: 0, shift_reg: 0, output_bit: true, ..s0 }
        } else if scl && old_scl && !old_sda && sda {
            EepromModel { state: EepromState::Idle, output_bit: true, ..s0 }
        } else {
            let s1 = if scl && !old_scl { s0.rising(sda) } else { s0 };
            if !scl && old_scl && s1.bit_count > 8 { s1.after_ack() } else { s1 }
        }
    }
}

impl Eeprom24C02 {
    /// A chip filled with $FF, then with the saved bytes (at most 256).
    pub fn new(data: Option<&[u8]>) -> (e: Eeprom24C02)
        ensures
            e@.wf(),
            e.state == EepromState::Idle,
            !e.scl && e.sda_out && e.sda_in && e.output_bit,
            e.bit_count == 0 && e.shift_reg == 0 && e.word_addr == 0,
            forall|i: int| 0 <= i < EEPROM_SIZE_24C02 ==> #[trigger] e.data@[i] == (match data {
                Some(d) => if i < d@.len() { d@[i] } else { 0xFFu8 },
                None => 0xFFu8,
            }),
    {
        let mut eeprom_data = [0xFFu8; EEPROM_SIZE_24C02];
        match data {
            Some(d) => {
                let len = if d.len() < EEPROM_SIZE_24C02 { d.len() } else { EEPROM_SIZE_24C02 };
                let mut i: usize = 0;
                while i < len
                    invariant
                        i <= len,
                        len <= EEPROM_SIZE_24C02,
                        len <= d@.len(),
                        len == d@.len() || len == EEPROM_SIZE_24C02,
                        forall|j: int| 0 <= j < i ==> eeprom_data@[j] == d@[j],
                        forall|j: int| i <= j < EEPROM_SIZE_24C02 ==> eeprom_data@[j] == 0xFFu8,
                    decreases len - i,
                {
                    eeprom_data[i] = d[i];
                    i = i + 1;
                }
            },
            None => {},
        }
        Eeprom24C02 {
            data: eeprom_data,
            state: EepromState::Idle,
            scl: false,
            sda_out: true,
            sda_in: true,
            bit_count: 0,
            shift_reg: 0,
            word_addr: 0,
            output_bit: true,
        }
    }

    fn shift_in(&mut self, sda: bool)
        requires
            old(self).bit_count < 8,
        ensures
            final(self).shift_reg == shifted(old(self).shift_reg, sda),
            final(self).bit_count == old(self).bit_count + 1,
            final(self).data == old(self).data,
            final(self).state == old(self).state,
            final(self).scl == old(self).scl,
            final(self).sda_out == old(self).sda_out,
            final(self).sda_in == old(self).sda_in,
            final(self).word_addr == old(self).word_addr,
            final(self).output_bit == old(self).output_bit,
    {
        self.shift_reg = (self.shift_reg << 1) | (if sda { 1u8 } else { 0u8 });
        self.bit_count = self.bit_count + 1;
    }

    /// One write of the two interface lines by the game.
    pub fn write(&mut self, sda: bool, scl: bool)
        requires
            old(self)@.wf(),
        ensures
            final(self)@ == old(self)@.step(sda, scl),
            final(self)@.wf(),
    {
        let old_scl = self.scl;
        let old_sda = self.sda_in;
        self.scl = scl;
        self.sda_in = sda;

        if scl && old_scl {
            if old_sda && !sda {
                self.state = EepromState::DeviceAddr;
                self.bit_count = 0;
                self.shift_reg = 0;
                self.output_bit = true;
                return;
            }
            if !old_sda && sda {
                self.state = EepromState::Idle;
                self.output_bit = true;
                return;
            }
        }

        if scl && !old_scl {
            match self.state {
                EepromState::Idle => {},
                EepromState::DeviceAddr => {
                    if self.bit_count < 8 {
                        self.shift_in(sda);
                        if self.bit_count == 8 {
                            self.output_bit = false;
                        }
                    } else {
                        self.bit_count = self.bit_count + 1;
                    }
                },
                EepromState::WordAddr => {
                    if self.bit_count < 8 {
                        self.shift_in(sda);
                        if self.bit_count == 8 {
                            self.word_addr = self.shift_reg;
                            self.output_bit = false;
                        }
                    } else {
                        self.bit_count = self.bit_count + 1;
                    }
                },
                EepromState::WriteData => {
                    if self.bit_count < 8 {
                        self.shift_in(sda);
                        if self.bit_count == 8 {
                            let wa = self.word_addr as usize;
                            self.data[wa] = self.shift_reg;
                            self.word_addr = self.word_addr.wrapping_add(1);
                            self.output_bit = false;
                        }
                    } else {
                        self.bit_count = self.bit_count + 1;
                    }
                },
                EepromState::ReadData => {
                    if self.bit_count < 8 {
                        let b = self.data[self.word_addr as usize];
                        self.output_bit = (b >> (7 - self.bit_count)) & 1 != 0;
                        self.bit_count = self.bit_count + 1;
                    } else {
                        self.bit_count = self.bit_count + 1;
                    }
                },
            }
        }

        if !scl && old_scl && self.bit_count > 8 {
            match self.state {
                EepromState::DeviceAddr => {
                    let rw = self.shift_reg & 1;
                    self.bit_count = 0;
                    if rw == 0 {
                        self.state = EepromState::WordAddr;
                        self.shift_reg = 0;
                        self.output_bit = true;
                    } else {
                        self.state = EepromState::ReadData;
                        self.output_bit = (self.data[self.word_addr as usize] >> 7) & 1 != 0;
                    }
                },
                EepromState::WordAddr => {
                    self.bit_count = 0;
                    self.shift_reg = 0;
                    self.output_bit = true;
                    self.state = EepromState::WriteData;
                },
                EepromState::WriteData => {
                    self.bit_count = 0;
                    self.shift_reg = 0;
                    self.output_bit = true;
                },
                EepromState::ReadData => {
                    self.word_addr = self.word_addr.wrapping_add(1);
                    self.bit_count = 0;
                    self.output_bit = (self.data[self.word_addr as usize] >> 7) & 1 != 0;
                },
                EepromState::Idle => {},
            }
        }
    }

    /// The level the chip drives on the data line.
    pub fn read_bit(&self) -> (r: bool)
        ensures
            r == self.output_bit,
    {
        self.output_bit
    }
}


/// The byte a savestate stores for an interface state.
pub open spec fn state_code(s: EepromState) -> u8 {
    match s {
        EepromState::Idle => 0,
        EepromState::DeviceAddr => 1,
        EepromState::WordAddr => 2,
        EepromState::WriteData => 3,
        EepromState::ReadData => 4,
    }
}

/// The interface state a stored byte names; every code past the last reads
/// as `ReadData`.
pub open spec fn state_from_code(c: u8) -> EepromState {
    if c == 0 {
        EepromState::Idle
    } else if c == 1 {
        EepromState::DeviceAddr
    } else if c == 2 {
        EepromState::WordAddr
    } else if c == 3 {
        EepromState::WriteData
    } else {
        EepromState::ReadData
    }
}

/// Length of a chip's saved state.
pub const EEPROM_STATE_LEN: usize = 264;

impl Eeprom24C02 {
    /// The bytes `save_state` appends: the cells, then the interface state.
    pub open spec fn state_bytes(&self) -> Seq<u8> {
        self.data@ + enc_u8(state_code(self.state)) + enc_bool(self.scl) + enc_bool(self.sda_out) + enc_bool(
            self.sda_in,
        ) + enc_u8(self.bit_count) + enc_u8(self.shift_reg) + enc_u8(self.word_addr) + enc_bool(
            self.output_bit,
        )
    }

    /// The chip holds what the bytes at `q` store.
    pub open spec fn loaded_from(&self, d: Seq<u8>, q: int) -> bool {
        &&& self.data@ == d.subrange(q, q + 256)
        &&& self.state == state_from_code(d[q + 256])
        &&& self.scl == (d[q + 257] != 0)
        &&& self.sda_out == (d[q + 258] != 0)
        &&& self.sda_in == (d[q + 259] != 0)
        &&& self.bit_count == d[q + 260]
        &&& self.shift_reg == d[q + 261]
        &&& self.word_addr == d[q + 262]
        &&& self.output_bit == (d[q + 263] != 0)
    }

    /// The bytes at `q` hold an interface state that the chip can be in.
    pub open spec fn state_valid(d: Seq<u8>, q: int) -> bool {
        &&& d[q + 260] == 255 ==> d[q + 257] != 0 || state_from_code(d[q + 256]) == EepromState::Idle
    }

    #[verifier::spinoff_prover]
    pub fn save_state(&self, w: &mut SavestateWriter)
        ensures
            final(w).buf@ == old(w).buf@ + self.state_bytes(),
    {
        let ghost b = w.buf@;
        let ghost s0 = self.data@;
        let ghost s1 = s0 + enc_u8(state_code(self.state));
        let ghost s2 = s1 + enc_bool(self.scl);
        let ghost s3 = s2 + enc_bool(self.sda_out);
        let ghost s4 = s3 + enc_bool(self.sda_in);
        let ghost s5 = s4 + enc_u8(self.bit_count);
        let ghost s6 = s5 + enc_u8(self.shift_reg);
        let ghost s7 = s6 + enc_u8(self.word_addr);
        w.write_bytes(&self.data);
        let code: u8 = match self.state {
            EepromState::Idle => 0,
            EepromState::DeviceAddr => 1,
            EepromState::WordAddr => 2,
            EepromState::WriteData => 3,
            EepromState::ReadData => 4,
        };
        w.write_u8(code);
        proof {
            lemma_add_assoc(b, s0, enc_u8(state_code(self.state)));
        }
        w.write_bool(self.scl);
        proof {
            lemma_add_assoc(b, s1, enc_bool(self.scl));
        }
        w.write_bool(self.sda_out);
        proof {
            lemma_add_assoc(b, s2, enc_bool(self.sda_out));
        }
        w.write_bool(self.sda_in);
        proof {
            lemma_add_assoc(b, s3, enc_bool(self.sda_in));
        }
        w.write_u8(self.bit_count);
        proof {
            lemma_add_assoc(b, s4, enc_u8(self.bit_count));
        }
        w.write_u8(self.shift_reg);
        proof {
            lemma_add_assoc(b, s5, enc_u8(self.shift_reg));
        }
        w.write_u8(self.word_addr);
        proof {
            lemma_add_assoc(b, s6, enc_u8(self.word_addr));
        }
        w.write_bool(self.output_bit);
        proof {
            lemma_add_assoc(b, s7, enc_bool(self.output_bit));
        }
    }

    /// Takes a chip's saved state; the caller has checked that it is there.
    pub fn take_state(r: &mut SavestateReader) -> (e: Eeprom24C02)
        requires
            old(r).wf(),
            old(r).pos + EEPROM_STATE_LEN <= old(r).data@.len(),
        ensures
            final(r).data@ == old(r).data@,
            final(r).pos == old(r).pos + EEPROM_STATE_LEN,
            e.loaded_from(old(r).data@, old(r).pos as int),
    {
        let bytes = r.take_bytes(EEPROM_SIZE_24C02);
        let mut data = [0u8; EEPROM_SIZE_24C02];
        copy_into_array(&mut data, &bytes);
        let code = r.take_u8();
        let state = if code == 0 {
            EepromState::Idle
        } else if code == 1 {
            EepromState::DeviceAddr
        } else if code == 2 {
            EepromState::WordAddr
        } else if code == 3 {
            EepromState::WriteData
        } else {
            EepromState::ReadData
        };
        let scl = r.take_bool();
        let sda_out = r.take_bool();
        let sda_in = r.take_bool();
        let bit_count = r.take_u8();
        let shift_reg = r.take_u8();
        let word_addr = r.take_u8();
        let output_bit = r.take_bool();
        Eeprom24C02 { data, state, scl, sda_out, sda_in, bit_count, shift_reg, word_addr, output_bit }
    }

    /// Whether the interface state is one the chip can be in.
    pub fn interface_valid(&self) -> (r: bool)
        ensures
            r == self@.wf(),
    {
        let idle = match self.state {
            EepromState::Idle => true,
            _ => false,
        };
        self.bit_count != 255 || self.scl || idle
    }

    /// A stored chip state decodes to a valid state that matches the chip.
    pub proof fn lemma_stored_state(d: Seq<u8>, q: int, e: Eeprom24C02, f: Eeprom24C02)
        requires
            e@.wf(),
            stored_at(d, q, e.state_bytes()),
        ensures
            Self::state_valid(d, q),
            f.loaded_from(d, q) ==> f@ == e@,
    {
        let s0 = e.data@;
        let s1 = s0 + enc_u8(state_code(e.state));
        let s2 = s1 + enc_bool(e.scl);
        let s3 = s2 + enc_bool(e.sda_out);
        let s4 = s3 + enc_bool(e.sda_in);
        let s5 = s4 + enc_u8(e.bit_count);
        let s6 = s5 + enc_u8(e.shift_reg);
        let s7 = s6 + enc_u8(e.word_addr);
        lemma_stored_split(d, q, s7, enc_bool(e.output_bit));
        lemma_stored_split(d, q, s6, enc_u8(e.word_addr));
        lemma_stored_split(d, q, s5, enc_u8(e.shift_reg));
        lemma_stored_split(d, q, s4, enc_u8(e.bit_count));
        lemma_stored_split(d, q, s3, enc_bool(e.sda_in));
        lemma_stored_split(d, q, s2, enc_bool(e.sda_out));
        lemma_stored_split(d, q, s1, enc_bool(e.scl));
        lemma_stored_split(d, q, s0, enc_u8(state_code(e.state)));
        lemma_stored_u8(d, q + 256, state_code(e.state));
        lemma_stored_bool(d, q + 257, e.scl);
        lemma_stored_bool(d, q + 258, e.sda_out);
        lemma_stored_bool(d, q + 259, e.sda_in);
        lemma_stored_u8(d, q + 260, e.bit_count);
        lemma_stored_u8(d, q + 261, e.shift_reg);
        lemma_stored_u8(d, q + 262, e.word_addr);
        lemma_stored_bool(d, q + 263, e.output_bit);
        assert(state_from_code(state_code(e.state)) == e.state);
    }
}

} // verus!
