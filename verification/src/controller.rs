//! The standard NES joypad: an 8-bit button latch read out serially.

use vstd::prelude::*;
use crate::savestate::{SavestateWriter, SavestateReader, enc_u8, enc_bool, enc_u64, dec_u64_at, stored_at, lemma_stored_split, lemma_stored_u8, lemma_stored_bool, lemma_stored_u64};

verus! {

pub const A: u8 = 0b0000_0001;
pub const B: u8 = 0b0000_0010;
pub const SELECT: u8 = 0b0000_0100;
pub const START: u8 = 0b0000_1000;
pub const UP: u8 = 0b0001_0000;
pub const DOWN: u8 = 0b0010_0000;
pub const LEFT: u8 = 0b0100_0000;
pub const RIGHT: u8 = 0b1000_0000;

/// Button state, the shift register latched from it, the strobe line and the
/// number of reads since the latch.
#[derive(Clone, Copy, Debug, PartialEq, Eq, Structural)]
pub struct Controller {
    pub status: u8,
    pub shift: u8,
    pub strobe: bool,
    pub polls: u64,
}

/// Bit `i` (0 = A) of a button byte.
pub open spec fn bit_of(v: u8, i: u64) -> u8
    recommends
        i < 8,
{
    ((v >> (i as u8)) & 1u8) as u8
}

impl Controller {
    /// What the next read of the serial port returns.
    pub open spec fn spec_poll_value(self) -> u8 {
        if self.strobe {
            self.status & 1
        } else if self.polls < 8 {
            bit_of(self.shift, self.polls)
        } else {
            1
        }
    }

    /// The controller after one read of the serial port.
    pub open spec fn spec_after_poll(self) -> Controller {
        if self.strobe {
            self
        } else {
            Controller { polls: (if self.polls == u64::MAX { 0 } else { self.polls + 1 }) as u64, ..self }
        }
    }

    /// The controller after `n` reads.
    pub open spec fn spec_after_polls(self, n: nat) -> Controller
        decreases n,
    {
        if n == 0 {
            self
        } else {
            self.spec_after_poll().spec_after_polls((n - 1) as nat)
        }
    }

    /// The controller after the strobe line is driven to `on`.
    pub open spec fn spec_after_strobe(self, on: bool) -> Controller {
        if self.strobe && !on {
            Controller { shift: self.status, polls: 0, strobe: on, ..self }
        } else {
            Controller { strobe: on, ..self }
        }
    }

    /// Power-on state: nothing held, nothing latched.
    pub open spec fn new_spec() -> Controller {
        Controller { status: 0, shift: 0, strobe: false, polls: 0 }
    }

    pub fn new() -> (c: Controller)
        ensures
            c == Controller::new_spec(),
    {
        Controller { status: 0, shift: 0, strobe: false, polls: 0 }
    }

    /// Drives the strobe line; its falling edge latches the buttons.
    pub fn set_strobe(&mut self, on: bool)
        ensures
            *final(self) == old(self).spec_after_strobe(on),
    {
        if self.strobe && !on {
            self.shift = self.status;
            self.polls = 0;
        }
        self.strobe = on;
    }

    /// One read of the serial port.
    pub fn poll(&mut self) -> (bit: u8)
        ensures
            bit == old(self).spec_poll_value(),
            *final(self) == old(self).spec_after_poll(),
            bit <= 1,
    {
        if self.strobe {
            let st = self.status;
            let r = st & 1;
            assert(r <= 1) by (bit_vector)
                requires r == st & 1u8;
            return r;
        }
        let bit = if self.polls < 8 {
            let p = self.polls as u8;
            let s = self.shift;
            let r = (s >> p) & 1;
            assert(r <= 1) by (bit_vector)
                requires r == (s >> p) & 1u8;
            r
        } else {
            1
        };
        self.polls = self.polls.wrapping_add(1);
        bit
    }

    pub fn set_pressed(&mut self, button: u8)
        ensures
            *final(self) == (Controller { status: old(self).status | button, ..*old(self) }),
    {
        self.status = self.status | button;
    }

    pub fn set_not_pressed(&mut self, button: u8)
        ensures
            *final(self) == (Controller { status: old(self).status & !button, ..*old(self) }),
    {
        self.status = self.status & !button;
    }

    pub fn save_status(&self) -> (r: u8)
        ensures
            r == self.status,
    {
        self.status
    }

    pub fn save_polls(&self) -> (r: u64)
        ensures
            r == self.polls,
    {
        self.polls
    }

    pub fn save_shift(&self) -> (r: u8)
        ensures
            r == self.shift,
    {
        self.shift
    }

    pub fn save_strobe(&self) -> (r: bool)
        ensures
            r == self.strobe,
    {
        self.strobe
    }

    pub fn load_status(&mut self, s: u8)
        ensures
            *final(self) == (Controller { status: s, ..*old(self) }),
    {
        self.status = s;
    }

    pub fn load_polls(&mut self, p: u64)
        ensures
            *final(self) == (Controller { polls: p, ..*old(self) }),
    {
        self.polls = p;
    }

    pub fn load_shift(&mut self, s: u8)
        ensures
            *final(self) == (Controller { shift: s, ..*old(self) }),
    {
        self.shift = s;
    }

    pub fn load_strobe(&mut self, s: bool)
        ensures
            *final(self) == (Controller { strobe: s, ..*old(self) }),
    {
        self.strobe = s;
    }

    /// 1 when every button of `button` is held, else 0.
    pub fn is_pressed(&self, button: u8) -> (r: u8)
        ensures
            r == (if self.status & button == button { 1u8 } else { 0u8 }),
    {
        if self.status & button == button {
            1
        } else {
            0
        }
    }
}


/// The savestate encoding of one controller: buttons, latched byte, strobe
/// line and read counter.
pub open spec fn controller_bytes(c: Controller) -> Seq<u8> {
    enc_u8(c.status) + enc_u8(c.shift) + enc_bool(c.strobe) + enc_u64(c.polls)
}

/// Length of one controller's encoding.
pub const CONTROLLER_STATE_LEN: usize = 11;

/// The encoding of both controllers, port 1 first.
pub open spec fn controllers_bytes(cs: [Controller; 2]) -> Seq<u8> {
    controller_bytes(cs@[0]) + controller_bytes(cs@[1])
}

/// The controller decoded from the bytes at `q`.
pub open spec fn controller_at(d: Seq<u8>, q: int) -> Controller {
    Controller { status: d[q], shift: d[q + 1], strobe: d[q + 2] != 0, polls: dec_u64_at(d, q + 3) }
}

/// Appends the state of both controllers.
pub fn save_controllers(w: &mut SavestateWriter, cs: &[Controller; 2])
    ensures
        final(w).buf@ == old(w).buf@ + controllers_bytes(*cs),
{
    let mut i: usize = 0;
    while i < 2
        invariant
            i <= 2,
            w.buf@ == old(w).buf@ + (if i == 0 { Seq::empty() } else if i == 1 { controller_bytes(cs@[0]) } else { controllers_bytes(*cs) }),
        decreases 2 - i,
    {
        let c = cs[i];
        w.write_u8(c.status);
        w.write_u8(c.shift);
        w.write_bool(c.strobe);
        w.write_u64(c.polls);
        i = i + 1;
    }
}

/// Takes the state of both controllers; the caller has checked that the
/// bytes are there.
pub fn take_controllers(r: &mut SavestateReader) -> (cs: [Controller; 2])
    requires
        old(r).wf(),
        old(r).pos + 2 * CONTROLLER_STATE_LEN <= old(r).data@.len(),
    ensures
        final(r).data@ == old(r).data@,
        final(r).pos == old(r).pos + 2 * CONTROLLER_STATE_LEN,
        cs@[0] == controller_at(old(r).data@, old(r).pos as int),
        cs@[1] == controller_at(old(r).data@, old(r).pos + CONTROLLER_STATE_LEN),
{
    let s0 = r.take_u8();
    let h0 = r.take_u8();
    let t0 = r.take_bool();
    let p0 = r.take_u64();
    let s1 = r.take_u8();
    let h1 = r.take_u8();
    let t1 = r.take_bool();
    let p1 = r.take_u64();
    [
        Controller { status: s0, shift: h0, strobe: t0, polls: p0 },
        Controller { status: s1, shift: h1, strobe: t1, polls: p1 },
    ]
}

/// Decoding stored controller bytes gives back the controllers.
pub proof fn lemma_stored_controllers(d: Seq<u8>, q: int, cs: [Controller; 2])
    requires
        stored_at(d, q, controllers_bytes(cs)),
    ensures
        controller_at(d, q) == cs@[0],
        controller_at(d, q + CONTROLLER_STATE_LEN) == cs@[1],
{
    lemma_stored_split(d, q, controller_bytes(cs@[0]), controller_bytes(cs@[1]));
    lemma_stored_controller(d, q, cs@[0]);
    lemma_stored_controller(d, q + 11, cs@[1]);
}

proof fn lemma_stored_controller(d: Seq<u8>, q: int, c: Controller)
    requires
        stored_at(d, q, controller_bytes(c)),
    ensures
        controller_at(d, q) == c,
{
    let a = enc_u8(c.status);
    let b = enc_u8(c.shift);
    let t = enc_bool(c.strobe);
    let p = enc_u64(c.polls);
    lemma_stored_split(d, q, a + b + t, p);
    lemma_stored_split(d, q, a + b, t);
    lemma_stored_split(d, q, a, b);
    lemma_stored_u8(d, q, c.status);
    lemma_stored_u8(d, q + 1, c.shift);
    lemma_stored_bool(d, q + 2, c.strobe);
    lemma_stored_u64(d, q + 3, c.polls);
}

/// Pressing a button and releasing it again restores the button byte when the
/// button was not held before.
pub proof fn lemma_press_release_roundtrip(status: u8, button: u8)
    requires
        status & button == 0,
    ensures
        (status | button) & !button == status,
{
    assert((status & button) == 0 ==> ((status | button) & !button) == status) by (bit_vector);
}

/// After the strobe falls, the next eight reads report the buttons held at that
/// moment, A first, and every later read reports 1, for as long as the strobe
/// stays low.
pub proof fn lemma_latched_read_sequence(c: Controller, n: nat)
    requires
        c.strobe,
        n <= u64::MAX,
    ensures
        ({
            let later = c.spec_after_strobe(false).spec_after_polls(n);
            &&& later.polls == n
            &&& n < 8 ==> later.spec_poll_value() == bit_of(c.status, n as u64)
            &&& n >= 8 ==> later.spec_poll_value() == 1
        }),
{
    let latched = c.spec_after_strobe(false);
    lemma_polls_count(latched, n);
}

/// With the strobe low, `n` reads advance the read counter by `n` and keep the
/// latched byte.
pub proof fn lemma_polls_count(c: Controller, n: nat)
    requires
        !c.strobe,
        c.polls + n <= u64::MAX,
    ensures
        c.spec_after_polls(n).polls == c.polls + n,
        c.spec_after_polls(n).shift == c.shift,
        c.spec_after_polls(n).status == c.status,
        !c.spec_after_polls(n).strobe,
    decreases n,
{
    if n > 0 {
        lemma_polls_count(c.spec_after_poll(), (n - 1) as nat);
    }
}

} // verus!
