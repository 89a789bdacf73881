//! The APU frame sequencer: a divider that emits quarter-frame, half-frame
//! and IRQ events on a fixed CPU-cycle schedule, in a 4-step or 5-step mode.

use vstd::prelude::*;
use crate::savestate::{SavestateWriter, SavestateReader, StateError, enc_u8, enc_u32, enc_bool, dec_u32, lemma_u32_roundtrip};

verus! {

/// What the sequencer asks the APU to do on a given CPU cycle.
#[derive(Clone, Copy, Debug, PartialEq, Eq, Structural)]
pub enum FrameStep {
    NoEvent,
    QuarterFrame,
    HalfFrame,
    Irq,
    IrqHalfFrame,
    Deferred4017Apply { immediate_clock: bool },
}

#[derive(Clone, Copy, Debug, PartialEq, Eq, Structural)]
pub struct FrameCounter {
    pub mode: u8,
    pub step: u8,
    pub cycles: u32,
    pub irq_inhibit: bool,
    pub reset_delay: u8,
    pub pending_write: u8,
    pub block_tick: u8,
}

/// Cycle count at which step `step` of mode `mode` fires.
pub open spec fn step_target(mode: u8, step: u8) -> u32 {
    if mode == 0 {
        if step == 0 { 7457 } else if step == 1 { 14913 } else if step == 2 { 22371 }
        else if step == 3 { 29828 } else if step == 4 { 29829 } else { 29830 }
    } else {
        if step == 0 { 7457 } else if step == 1 { 14913 } else if step == 2 { 22371 }
        else if step == 3 { 29829 } else if step == 4 { 37281 } else { 37282 }
    }
}

fn mode0_target(step: u8) -> (t: u32)
    requires
        step < 6,
    ensures
        t == step_target(0, step),
{
    match step {
        0 => 7457,
        1 => 14913,
        2 => 22371,
        3 => 29828,
        4 => 29829,
        _ => 29830,
    }
}

fn mode1_target(step: u8) -> (t: u32)
    requires
        step < 6,
    ensures
        t == step_target(1, step),
{
    match step {
        0 => 7457,
        1 => 14913,
        2 => 22371,
        3 => 29829,
        4 => 37281,
        _ => 37282,
    }
}

/// Event of step `step` in the 4-step mode.
pub open spec fn mode0_event(step: u8) -> FrameStep {
    if step == 0 || step == 2 {
        FrameStep::QuarterFrame
    } else if step == 1 {
        FrameStep::HalfFrame
    } else if step == 3 || step == 5 {
        FrameStep::Irq
    } else if step == 4 {
        FrameStep::IrqHalfFrame
    } else {
        FrameStep::NoEvent
    }
}

/// Event of step `step` in the 5-step mode (which never raises an IRQ).
pub open spec fn mode1_event(step: u8) -> FrameStep {
    if step == 0 || step == 2 {
        FrameStep::QuarterFrame
    } else if step == 1 || step == 4 {
        FrameStep::HalfFrame
    } else {
        FrameStep::NoEvent
    }
}

impl FrameCounter {
    /// The counter's state is one the sequencer can reach.
    pub open spec fn wf(self) -> bool {
        &&& self.mode <= 1
        &&& self.step < 6
        &&& self.cycles <= step_target(self.mode, self.step)
        &&& self.reset_delay <= 4
    }

    /// The sequencer once the step counter has advanced past a fired step.
    pub open spec fn advanced(self) -> FrameCounter {
        if self.step + 1 >= 6 {
            FrameCounter { step: 0, cycles: 0, ..self }
        } else {
            FrameCounter { step: (self.step + 1) as u8, ..self }
        }
    }

    /// One CPU cycle of the sequencer: the next state and the event raised.
    pub open spec fn spec_cycle(self) -> (FrameCounter, FrameStep) {
        if self.reset_delay > 0 {
            let d = (self.reset_delay - 1) as u8;
            if d == 0 {
                let mode = (self.pending_write >> 7u8) & 1u8;
                let s = FrameCounter { reset_delay: 0, mode, step: 0, cycles: 0, ..self };
                if mode == 1 {
                    (FrameCounter { block_tick: 2, ..s }, FrameStep::Deferred4017Apply { immediate_clock: true })
                } else {
                    (s, FrameStep::NoEvent)
                }
            } else {
                (FrameCounter { reset_delay: d, ..self }, FrameStep::NoEvent)
            }
        } else {
            let bt = if self.block_tick > 0 { (self.block_tick - 1) as u8 } else { 0u8 };
            let s = FrameCounter { block_tick: bt, cycles: (self.cycles + 1) as u32, ..self };
            if s.mode == 0 {
                if s.step >= 6 || s.cycles < step_target(0, s.step) {
                    (s, FrameStep::NoEvent)
                } else {
                    (s.advanced(), mode0_event(s.step))
                }
            } else if s.mode == 1 {
                if s.step >= 6 || s.cycles < step_target(1, s.step) {
                    (s, FrameStep::NoEvent)
                } else if s.block_tick > 0 {
                    (s.advanced(), FrameStep::NoEvent)
                } else {
                    (s.advanced(), mode1_event(s.step))
                }
            } else {
                (s, FrameStep::NoEvent)
            }
        }
    }

    /// The counter after `write(value, emu_cycle)`.
    pub open spec fn spec_write(self, value: u8, emu_cycle: u64) -> FrameCounter {
        FrameCounter {
            irq_inhibit: (value >> 6u8) & 1u8 != 0,
            pending_write: value,
            reset_delay: if emu_cycle % 2 == 0 { 3u8 } else { 4u8 },
            ..self
        }
    }

    /// The counter after `reset_with_value(value)`.
    pub open spec fn spec_reset(value: u8) -> FrameCounter {
        FrameCounter {
            mode: (value >> 7u8) & 1u8,
            irq_inhibit: (value >> 6u8) & 1u8 != 0,
            step: 0,
            cycles: 10,
            reset_delay: 0,
            pending_write: 0,
            block_tick: 0,
        }
    }

    /// The events of the next `n` cycles, in order.
    pub open spec fn run(self, n: nat) -> Seq<FrameStep>
        decreases n,
    {
        if n == 0 {
            Seq::empty()
        } else {
            seq![self.spec_cycle().1] + self.spec_cycle().0.run((n - 1) as nat)
        }
    }

    /// The two counters differ at most in the IRQ inhibit flag and in the
    /// inhibit bit (bit 6) of the pending $4017 value.
    pub open spec fn alike_but_inhibit(self, o: FrameCounter) -> bool {
        &&& self.mode == o.mode
        &&& self.step == o.step
        &&& self.cycles == o.cycles
        &&& self.reset_delay == o.reset_delay
        &&& self.block_tick == o.block_tick
        &&& self.pending_write & 0xBF == o.pending_write & 0xBF
    }

    /// Power-on state: as if $4017 had been written with 0 ten cycles earlier.
    pub fn new() -> (fc: FrameCounter)
        ensures
            fc == (FrameCounter {
                mode: 0,
                step: 0,
                cycles: 10,
                irq_inhibit: false,
                reset_delay: 0,
                pending_write: 0,
                block_tick: 0,
            }),
            fc.wf(),
    {
        FrameCounter {
            mode: 0,
            step: 0,
            cycles: 10,
            irq_inhibit: false,
            reset_delay: 0,
            pending_write: 0,
            block_tick: 0,
        }
    }

    /// Immediately applies a $4017 value (used on reset).
    pub fn reset_with_value(&mut self, value: u8)
        ensures
            *final(self) == FrameCounter::spec_reset(value),
            final(self).wf(),
    {
        let mode = (value >> 7) & 1;
        assert(mode <= 1) by (bit_vector)
            requires mode == (value >> 7u8) & 1u8;
        self.mode = mode;
        self.irq_inhibit = (value >> 6) & 1 != 0;
        self.step = 0;
        self.cycles = 10;
        self.reset_delay = 0;
        self.pending_write = 0;
        self.block_tick = 0;
    }

    /// A CPU write to $4017: the IRQ inhibit flag applies at once, the mode
    /// after 3 cycles (write on an even cycle) or 4 (odd cycle).
    pub fn write(&mut self, value: u8, emu_cycle: u64)
        ensures
            *final(self) == old(self).spec_write(value, emu_cycle),
            old(self).wf() ==> final(self).wf(),
    {
        self.irq_inhibit = (value >> 6) & 1 != 0;
        self.pending_write = value;
        self.reset_delay = if emu_cycle % 2 == 0 { 3 } else { 4 };
    }

    /// Advances the sequencer by one CPU cycle.
    pub fn cycle(&mut self) -> (ev: FrameStep)
        requires
            old(self).reset_delay > 0 || old(self).cycles < u32::MAX,
        ensures
            (*final(self), ev) == old(self).spec_cycle(),
            old(self).wf() ==> final(self).wf(),
    {
        if self.reset_delay > 0 {
            self.reset_delay -= 1;
            if self.reset_delay == 0 {
                let pw = self.pending_write;
                let mode = (pw >> 7) & 1;
                assert(mode <= 1) by (bit_vector)
                    requires mode == (pw >> 7u8) & 1u8;
                self.mode = mode;
                self.step = 0;
                self.cycles = 0;
                if self.mode == 1 {
                    self.block_tick = 2;
                    return FrameStep::Deferred4017Apply { immediate_clock: true };
                }
                return FrameStep::NoEvent;
            }
            return FrameStep::NoEvent;
        }
        if self.block_tick > 0 {
            self.block_tick -= 1;
        }
        self.cycles += 1;
        match self.mode {
            0 => self.cycle_mode_0(),
            1 => self.cycle_mode_1(),
            _ => FrameStep::NoEvent,
        }
    }

    fn cycle_mode_0(&mut self) -> (ev: FrameStep)
        requires
            old(self).mode == 0,
        ensures
            old(self).step >= 6 || old(self).cycles < step_target(0, old(self).step) ==> *final(self) == *old(self)
                && ev == FrameStep::NoEvent,
            old(self).step < 6 && old(self).cycles >= step_target(0, old(self).step) ==> *final(self) == old(
                self,
            ).advanced() && ev == mode0_event(old(self).step),
            old(self).step < 6 && old(self).reset_delay <= 4 && old(self).cycles <= step_target(0, old(self).step) + 1
                ==> final(self).wf(),
    {
        if self.step >= 6 {
            return FrameStep::NoEvent;
        }
        let target = mode0_target(self.step);
        if self.cycles < target {
            return FrameStep::NoEvent;
        }
        let current_step = self.step;
        self.step += 1;
        if self.step >= 6 {
            self.step = 0;
            self.cycles = 0;
        }
        match current_step {
            0 | 2 => FrameStep::QuarterFrame,
            1 => FrameStep::HalfFrame,
            3 => FrameStep::Irq,
            4 => FrameStep::IrqHalfFrame,
            5 => FrameStep::Irq,
            _ => FrameStep::NoEvent,
        }
    }

    fn cycle_mode_1(&mut self) -> (ev: FrameStep)
        requires
            old(self).mode == 1,
        ensures
            old(self).step >= 6 || old(self).cycles < step_target(1, old(self).step) ==> *final(self) == *old(self)
                && ev == FrameStep::NoEvent,
            old(self).step < 6 && old(self).cycles >= step_target(1, old(self).step) ==> *final(self) == old(
                self,
            ).advanced() && ev == (if old(self).block_tick > 0 {
                FrameStep::NoEvent
            } else {
                mode1_event(old(self).step)
            }),
            old(self).step < 6 && old(self).reset_delay <= 4 && old(self).cycles <= step_target(1, old(self).step) + 1
                ==> final(self).wf(),
    {
        if self.step >= 6 {
            return FrameStep::NoEvent;
        }
        let target = mode1_target(self.step);
        if self.cycles < target {
            return FrameStep::NoEvent;
        }
        let current_step = self.step;
        self.step += 1;
        if self.step >= 6 {
            self.step = 0;
            self.cycles = 0;
        }
        if self.block_tick > 0 {
            return FrameStep::NoEvent;
        }
        match current_step {
            0 | 2 => FrameStep::QuarterFrame,
            1 => FrameStep::HalfFrame,
            4 => FrameStep::HalfFrame,
            _ => FrameStep::NoEvent,
        }
    }

    pub fn get_step(&self) -> (r: u8)
        ensures
            r == self.step,
    {
        self.step
    }

    pub fn get_mode(&self) -> (r: u8)
        ensures
            r == self.mode,
    {
        self.mode
    }

    pub fn irq_inhibit(&self) -> (r: bool)
        ensures
            r == self.irq_inhibit,
    {
        self.irq_inhibit
    }

    /// The encoding written by `save_state`.
    pub open spec fn state_bytes(self) -> Seq<u8> {
        enc_u8(self.mode) + enc_u8(self.step) + enc_u32(self.cycles) + enc_bool(self.irq_inhibit)
            + enc_u8(self.reset_delay) + enc_u8(self.pending_write) + enc_u8(self.block_tick)
    }

    pub fn save_state(&self, w: &mut SavestateWriter)
        ensures
            final(w).buf@ == old(w).buf@ + self.state_bytes(),
    {
        w.write_u8(self.mode);
        w.write_u8(self.step);
        w.write_u32(self.cycles);
        w.write_bool(self.irq_inhibit);
        w.write_u8(self.reset_delay);
        w.write_u8(self.pending_write);
        w.write_u8(self.block_tick);
        assert(final(w).buf@ == old(w).buf@ + self.state_bytes());
    }

    /// The counter after reading a saved state from `d` at `p`: each field,
    /// in saved order, takes its stored value when all of its bytes are
    /// there; from the first one cut short on, the fields keep their values.
    pub open spec fn read_from(self, d: Seq<u8>, p: int) -> FrameCounter {
        let n = d.len() - p;
        FrameCounter {
            mode: if n >= 1 { d[p] } else { self.mode },
            step: if n >= 2 { d[p + 1] } else { self.step },
            cycles: if n >= 6 { dec_u32(d[p + 2], d[p + 3], d[p + 4], d[p + 5]) } else { self.cycles },
            irq_inhibit: if n >= 7 { d[p + 6] != 0 } else { self.irq_inhibit },
            reset_delay: if n >= 8 { d[p + 7] } else { self.reset_delay },
            pending_write: if n >= 9 { d[p + 8] } else { self.pending_write },
            block_tick: if n >= 10 { d[p + 9] } else { self.block_tick },
        }
    }

    /// Restores a counter saved by `save_state`: every field as stored. A
    /// state cut short is refused, after the fields read before the cut have
    /// been restored.
    pub fn load_state(&mut self, r: &mut SavestateReader) -> (res: Result<(), StateError>)
        requires
            old(r).wf(),
        ensures
            final(r).wf(),
            final(r).data@ == old(r).data@,
            res is Err <==> old(r).pos + 10 > old(r).data@.len(),
            *final(self) == old(self).read_from(old(r).data@, old(r).pos as int),
            res is Ok ==> final(r).pos == old(r).pos + 10,
            forall|fc: FrameCounter|
                old(r).pos + 10 <= old(r).data@.len() && #[trigger] fc.state_bytes()
                    == old(r).data@.subrange(old(r).pos as int, old(r).pos + 10) ==> res is Ok
                    && *final(self) == fc && final(r).pos == old(r).pos + 10,
    {
        let ghost p = r.pos;
        let ghost d = r.data@;
        let ghost start = *self;
        self.mode = match r.read_u8() { Ok(v) => v, Err(e) => return Err(e) };
        self.step = match r.read_u8() { Ok(v) => v, Err(e) => return Err(e) };
        self.cycles = match r.read_u32() { Ok(v) => v, Err(e) => return Err(e) };
        self.irq_inhibit = match r.read_bool() { Ok(v) => v, Err(e) => return Err(e) };
        self.reset_delay = match r.read_u8() { Ok(v) => v, Err(e) => return Err(e) };
        self.pending_write = match r.read_u8() { Ok(v) => v, Err(e) => return Err(e) };
        self.block_tick = match r.read_u8() { Ok(v) => v, Err(e) => return Err(e) };
        assert(r.pos == p + 10);
        let ghost loaded = *self;
        proof {
            assert forall|fc: FrameCounter|
                p + 10 <= d.len() && #[trigger] fc.state_bytes() == d.subrange(p as int, p + 10)
                implies fc == loaded by {
                let sb = fc.state_bytes();
                assert(sb =~= seq![fc.mode, fc.step] + enc_u32(fc.cycles) + seq![
                    if fc.irq_inhibit { 1u8 } else { 0u8 },
                    fc.reset_delay,
                    fc.pending_write,
                    fc.block_tick,
                ]);
                assert(sb[0] == d[p as int]);
                assert(sb[1] == d[p + 1]);
                assert(sb[2] == d[p + 2]);
                assert(sb[3] == d[p + 3]);
                assert(sb[4] == d[p + 4]);
                assert(sb[5] == d[p + 5]);
                assert(sb[6] == d[p + 6]);
                assert(sb[7] == d[p + 7]);
                assert(sb[8] == d[p + 8]);
                assert(sb[9] == d[p + 9]);
                lemma_u32_roundtrip(fc.cycles);
            }
        }
        Ok(())
    }
}

/// One cycle of two counters that differ only in the IRQ inhibit flag
/// raises the same event and leaves them differing only in it.
proof fn lemma_cycle_ignores_inhibit(a: FrameCounter, b: FrameCounter)
    requires
        a.alike_but_inhibit(b),
    ensures
        a.spec_cycle().0.alike_but_inhibit(b.spec_cycle().0),
        a.spec_cycle().1 == b.spec_cycle().1,
{
    let (x, y) = (a.pending_write, b.pending_write);
    assert(x & 0xBF == y & 0xBF ==> (x >> 7u8) & 1u8 == (y >> 7u8) & 1u8) by (bit_vector);
}

/// The IRQ inhibit flag never changes the sequence of frame events: two
/// counters that differ only in it (and in the inhibit bit of a pending
/// $4017 value) raise the same events, `Irq` and `IrqHalfFrame` included,
/// on every cycle; whether the IRQ is raised is left to the APU.
pub proof fn lemma_inhibit_never_changes_events(a: FrameCounter, b: FrameCounter, n: nat)
    requires
        a.alike_but_inhibit(b),
    ensures
        a.run(n) == b.run(n),
    decreases n,
{
    if n > 0 {
        lemma_cycle_ignores_inhibit(a, b);
        lemma_inhibit_never_changes_events(a.spec_cycle().0, b.spec_cycle().0, (n - 1) as nat);
    }
}

/// Writes to $4017, and resets, with values that differ only in the
/// inhibit bit leave two such counters differing only in the inhibit flag.
pub proof fn lemma_inhibit_bit_writes_alike(a: FrameCounter, b: FrameCounter, va: u8, vb: u8, emu_cycle: u64)
    requires
        a.alike_but_inhibit(b),
        va & 0xBF == vb & 0xBF,
    ensures
        a.spec_write(va, emu_cycle).alike_but_inhibit(b.spec_write(vb, emu_cycle)),
        FrameCounter::spec_reset(va).alike_but_inhibit(FrameCounter::spec_reset(vb)),
{
    assert(va & 0xBF == vb & 0xBF ==> (va >> 7u8) & 1u8 == (vb >> 7u8) & 1u8) by (bit_vector);
    assert((0u8 & 0xBF) == (0u8 & 0xBF));
}

} // verus!
