//! Byte-level savestate encoding: a writer that appends little-endian fields
//! and a reader that takes them back in the same order.

use vstd::prelude::*;

verus! {

/// Why a savestate could not be read back.
#[derive(Clone, Copy, Debug, PartialEq, Eq, Structural)]
pub enum StateError {
    /// The data ended before the field that was asked for.
    UnexpectedEof,
    /// The data names a different kind of cartridge than the one loading it.
    MapperMismatch,
    /// A field holds a value that no saved state can contain.
    InvalidValue,
}

pub open spec fn enc_u8(v: u8) -> Seq<u8> {
    seq![v]
}

pub open spec fn enc_bool(v: bool) -> Seq<u8> {
    seq![if v { 1u8 } else { 0u8 }]
}

pub open spec fn enc_u16(v: u16) -> Seq<u8> {
    seq![(v & 0xff) as u8, (v >> 8u16) as u8]
}

pub open spec fn dec_u16(b0: u8, b1: u8) -> u16 {
    ((b1 as u16) << 8u16) | (b0 as u16)
}

pub open spec fn enc_u32(v: u32) -> Seq<u8> {
    seq![(v & 0xff) as u8, ((v >> 8u32) & 0xff) as u8, ((v >> 16u32) & 0xff) as u8, (v >> 24u32) as u8]
}

pub open spec fn dec_u32(b0: u8, b1: u8, b2: u8, b3: u8) -> u32 {
    ((b3 as u32) << 24u32) | ((b2 as u32) << 16u32) | ((b1 as u32) << 8u32) | (b0 as u32)
}

pub open spec fn enc_u64(v: u64) -> Seq<u8> {
    enc_u32((v & 0xffff_ffff) as u32) + enc_u32((v >> 32u64) as u32)
}

pub open spec fn dec_u64(lo: u32, hi: u32) -> u64 {
    ((hi as u64) << 32u64) | (lo as u64)
}

pub proof fn lemma_u16_roundtrip(v: u16)
    ensures
        dec_u16(enc_u16(v)[0], enc_u16(v)[1]) == v,
{
    let b0 = (v & 0xff) as u8;
    let b1 = (v >> 8u16) as u8;
    assert(((b1 as u16) << 8u16) | (b0 as u16) == v) by (bit_vector)
        requires
            b0 == (v & 0xff) as u8,
            b1 == (v >> 8u16) as u8,
    ;
}

pub proof fn lemma_u32_roundtrip(v: u32)
    ensures
        dec_u32(enc_u32(v)[0], enc_u32(v)[1], enc_u32(v)[2], enc_u32(v)[3]) == v,
{
    let b0 = (v & 0xff) as u8;
    let b1 = ((v >> 8u32) & 0xff) as u8;
    let b2 = ((v >> 16u32) & 0xff) as u8;
    let b3 = (v >> 24u32) as u8;
    assert(((b3 as u32) << 24u32) | ((b2 as u32) << 16u32) | ((b1 as u32) << 8u32) | (b0 as u32)
        == v) by (bit_vector)
        requires
            b0 == (v & 0xff) as u8,
            b1 == ((v >> 8u32) & 0xff) as u8,
            b2 == ((v >> 16u32) & 0xff) as u8,
            b3 == (v >> 24u32) as u8,
    ;
}

pub proof fn lemma_u64_split(v: u64)
    ensures
        dec_u64((v & 0xffff_ffff) as u32, (v >> 32u64) as u32) == v,
{
    let lo = (v & 0xffff_ffff) as u32;
    let hi = (v >> 32u64) as u32;
    assert(((hi as u64) << 32u64) | (lo as u64) == v) by (bit_vector)
        requires
            lo == (v & 0xffff_ffff) as u32,
            hi == (v >> 32u64) as u32,
    ;
}


/// The little-endian 16-bit value stored at `q`.
pub open spec fn dec_u16_at(d: Seq<u8>, q: int) -> u16 {
    dec_u16(d[q], d[q + 1])
}

/// The little-endian 32-bit value stored at `q`.
pub open spec fn dec_u32_at(d: Seq<u8>, q: int) -> u32 {
    dec_u32(d[q], d[q + 1], d[q + 2], d[q + 3])
}

/// The little-endian 64-bit value stored at `q`.
pub open spec fn dec_u64_at(d: Seq<u8>, q: int) -> u64 {
    dec_u64(dec_u32_at(d, q), dec_u32_at(d, q + 4))
}

/// Appending in two steps is appending the joined parts.
pub proof fn lemma_add_assoc(a: Seq<u8>, b: Seq<u8>, c: Seq<u8>)
    ensures
        a + b + c == a + (b + c),
{
    assert(a + b + c =~= a + (b + c));
}

/// `s` stands in `d` from position `p` on.
pub open spec fn stored_at(d: Seq<u8>, p: int, s: Seq<u8>) -> bool {
    &&& 0 <= p
    &&& p + s.len() <= d.len()
    &&& d.subrange(p, p + s.len()) == s
}

/// A stored concatenation is its first part stored in place and its second
/// part stored right after it.
pub proof fn lemma_stored_split(d: Seq<u8>, p: int, a: Seq<u8>, b: Seq<u8>)
    requires
        stored_at(d, p, a + b),
    ensures
        stored_at(d, p, a),
        stored_at(d, p + a.len(), b),
{
    let whole = d.subrange(p, p + a.len() + b.len());
    assert forall|i: int| 0 <= i < a.len() implies d.subrange(p, p + a.len())[i] == a[i] by {
        assert(whole[i] == (a + b)[i]);
    }
    assert(d.subrange(p, p + a.len()) =~= a);
    assert forall|i: int| 0 <= i < b.len() implies d.subrange(p + a.len(), p + a.len() + b.len())[i]
        == b[i] by {
        assert(whole[a.len() + i] == (a + b)[a.len() + i]);
    }
    assert(d.subrange(p + a.len(), p + a.len() + b.len()) =~= b);
}

pub proof fn lemma_stored_u8(d: Seq<u8>, q: int, v: u8)
    requires
        stored_at(d, q, enc_u8(v)),
    ensures
        d[q] == v,
{
    assert(d.subrange(q, q + 1)[0] == d[q]);
}

pub proof fn lemma_stored_bool(d: Seq<u8>, q: int, v: bool)
    requires
        stored_at(d, q, enc_bool(v)),
    ensures
        (d[q] != 0) == v,
{
    assert(d.subrange(q, q + 1)[0] == d[q]);
}

pub proof fn lemma_stored_u16(d: Seq<u8>, q: int, v: u16)
    requires
        stored_at(d, q, enc_u16(v)),
    ensures
        dec_u16_at(d, q) == v,
{
    let s = d.subrange(q, q + 2);
    assert(s[0] == d[q] && s[1] == d[q + 1]);
    lemma_u16_roundtrip(v);
}

pub proof fn lemma_stored_u32(d: Seq<u8>, q: int, v: u32)
    requires
        stored_at(d, q, enc_u32(v)),
    ensures
        dec_u32_at(d, q) == v,
{
    let s = d.subrange(q, q + 4);
    assert(s[0] == d[q] && s[1] == d[q + 1] && s[2] == d[q + 2] && s[3] == d[q + 3]);
    lemma_u32_roundtrip(v);
}

pub proof fn lemma_stored_u64(d: Seq<u8>, q: int, v: u64)
    requires
        stored_at(d, q, enc_u64(v)),
    ensures
        dec_u64_at(d, q) == v,
{
    lemma_stored_split(d, q, enc_u32((v & 0xffff_ffff) as u32), enc_u32((v >> 32u64) as u32));
    lemma_stored_u32(d, q, (v & 0xffff_ffff) as u32);
    lemma_stored_u32(d, q + 4, (v >> 32u64) as u32);
    lemma_u64_split(v);
}

/// Fixed-size banks laid end to end.
pub open spec fn banks_bytes<const N: usize>(b: Seq<[u8; N]>) -> Seq<u8>
    decreases b.len(),
{
    if b.len() == 0 {
        Seq::empty()
    } else {
        banks_bytes(b.drop_last()) + b.last()@
    }
}

/// Bank `j` of the banks stored at `q`.
pub open spec fn bank_at(d: Seq<u8>, q: int, j: int, n: int) -> Seq<u8> {
    d.subrange(q + j * n, q + j * n + n)
}

/// The laid-out banks are `N` bytes each, in order.
pub proof fn lemma_banks_bytes<const N: usize>(b: Seq<[u8; N]>)
    ensures
        banks_bytes(b).len() == b.len() * N,
        forall|j: int| 0 <= j < b.len() ==> #[trigger] bank_at(banks_bytes(b), 0, j, N as int) == b[j]@,
    decreases b.len(),
{
    if b.len() > 0 {
        let pre = b.drop_last();
        lemma_banks_bytes(pre);
        let whole = banks_bytes(b);
        assert(whole == banks_bytes(pre) + b.last()@);
        assert((b.len() - 1) * N + N == b.len() * N) by (nonlinear_arith);
        assert forall|j: int| 0 <= j < b.len() implies #[trigger] bank_at(banks_bytes(b), 0, j, N as int)
            == b[j]@ by {
            assert(j * N + N <= b.len() * N) by (nonlinear_arith)
                requires
                    j < b.len(),
            ;
            assert(0 <= j * N) by (nonlinear_arith)
                requires
                    0 <= j,
            ;
            if j < b.len() - 1 {
                assert(j * N + N <= (b.len() - 1) * N) by (nonlinear_arith)
                    requires
                        j < b.len() - 1,
                ;
                assert(bank_at(whole, 0, j, N as int) =~= bank_at(banks_bytes(pre), 0, j, N as int));
                assert(pre[j] == b[j]);
            } else {
                assert(bank_at(whole, 0, j, N as int) =~= b.last()@);
            }
        }
    }
}

/// Banks stored at `q` are found again bank by bank.
pub proof fn lemma_stored_banks<const N: usize>(d: Seq<u8>, q: int, b: Seq<[u8; N]>)
    requires
        stored_at(d, q, banks_bytes(b)),
    ensures
        banks_bytes(b).len() == b.len() * N,
        forall|j: int| 0 <= j < b.len() ==> #[trigger] bank_at(d, q, j, N as int) == b[j]@,
{
    lemma_banks_bytes(b);
    let bb = banks_bytes(b);
    assert forall|j: int| 0 <= j < b.len() implies #[trigger] bank_at(d, q, j, N as int) == b[j]@ by {
        assert(bank_at(bb, 0, j, N as int) == b[j]@);
        assert(j * N + N <= b.len() * N) by (nonlinear_arith)
            requires
                j < b.len(),
        ;
        assert(0 <= j * N) by (nonlinear_arith)
            requires
                0 <= j,
        ;
        assert(bank_at(d, q, j, N as int) =~= bank_at(bb, 0, j, N as int));
    }
}

/// Every savestate starts with these bytes.
pub open spec fn magic() -> Seq<u8> {
    seq![0x4Bu8, 0x53u8, 0x54u8, 0x01u8]
}


/// Copies `src` into the array `dst`, whose length it has.
pub fn copy_into_array<const N: usize>(dst: &mut [u8; N], src: &Vec<u8>)
    requires
        src@.len() == N,
    ensures
        final(dst)@ == src@,
{
    let mut i: usize = 0;
    while i < N
        invariant
            src@.len() == N,
            i <= N,
            dst@.len() == N,
            forall|j: int| 0 <= j < i ==> dst@[j] == src@[j],
        decreases N - i,
    {
        dst[i] = src[i];
        i = i + 1;
    }
    assert(dst@ =~= src@);
}

/// Accumulates an encoded savestate.
pub struct SavestateWriter {
    pub buf: Vec<u8>,
}

impl SavestateWriter {
    /// A writer holding only the savestate header.
    pub fn new() -> (w: SavestateWriter)
        ensures
            w.buf@ == magic(),
    {
        let mut buf: Vec<u8> = Vec::new();
        buf.push(0x4B);
        buf.push(0x53);
        buf.push(0x54);
        buf.push(0x01);
        assert(buf@ == magic());
        SavestateWriter { buf }
    }

    /// The encoded savestate.
    pub fn finish(self) -> (r: Vec<u8>)
        ensures
            r@ == self.buf@,
    {
        self.buf
    }

    pub fn write_u8(&mut self, v: u8)
        ensures
            final(self).buf@ == old(self).buf@ + enc_u8(v),
    {
        self.buf.push(v);
    }

    pub fn write_bool(&mut self, v: bool)
        ensures
            final(self).buf@ == old(self).buf@ + enc_bool(v),
    {
        self.buf.push(if v { 1 } else { 0 });
    }

    pub fn write_u16(&mut self, v: u16)
        ensures
            final(self).buf@ == old(self).buf@ + enc_u16(v),
    {
        self.buf.push((v & 0xff) as u8);
        self.buf.push((v >> 8) as u8);
    }

    pub fn write_u32(&mut self, v: u32)
        ensures
            final(self).buf@ == old(self).buf@ + enc_u32(v),
    {
        self.buf.push((v & 0xff) as u8);
        self.buf.push(((v >> 8) & 0xff) as u8);
        self.buf.push(((v >> 16) & 0xff) as u8);
        self.buf.push((v >> 24) as u8);
    }

    pub fn write_u64(&mut self, v: u64)
        ensures
            final(self).buf@ == old(self).buf@ + enc_u64(v),
    {
        self.write_u32((v & 0xffff_ffff) as u32);
        self.write_u32((v >> 32) as u32);
    }

    /// Appends every bank in order.
    pub fn write_banks<const N: usize>(&mut self, banks: &Vec<[u8; N]>)
        ensures
            final(self).buf@ == old(self).buf@ + banks_bytes(banks@),
    {
        let ghost b = self.buf@;
        let mut i: usize = 0;
        while i < banks.len()
            invariant
                i <= banks@.len(),
                self.buf@ == b + banks_bytes(banks@.take(i as int)),
            decreases banks@.len() - i,
        {
            self.write_bytes(&banks[i]);
            proof {
                let t = banks@.take(i + 1);
                assert(t.drop_last() =~= banks@.take(i as int));
                lemma_add_assoc(b, banks_bytes(banks@.take(i as int)), banks@[i as int]@);
            }
            i = i + 1;
        }
        assert(banks@.take(banks@.len() as int) =~= banks@);
    }

    pub fn write_bytes(&mut self, data: &[u8])
        ensures
            final(self).buf@ == old(self).buf@ + data@,
    {
        let mut i: usize = 0;
        while i < data.len()
            invariant
                i <= data@.len(),
                self.buf@ == old(self).buf@ + data@.subrange(0, i as int),
            decreases data@.len() - i,
        {
            self.buf.push(data[i]);
            i = i + 1;
            assert(data@.subrange(0, i as int) == data@.subrange(0, i - 1 as int).push(data@[i - 1]));
        }
        assert(data@.subrange(0, data@.len() as int) == data@);
    }

}

/// Reads an encoded savestate back field by field.
pub struct SavestateReader {
    pub data: Vec<u8>,
    pub pos: usize,
}

impl SavestateReader {
    pub open spec fn remaining(self) -> Seq<u8> {
        self.data@.subrange(self.pos as int, self.data@.len() as int)
    }

    pub open spec fn wf(self) -> bool {
        self.pos <= self.data@.len()
    }

    /// A reader over `data`, positioned after the header; refused when the
    /// header is missing.
    pub fn new(data: &[u8]) -> (r: Result<SavestateReader, StateError>)
        ensures
            data@.len() >= 4 && data@.subrange(0, 4) == magic() ==> (r matches Ok(rd) && rd.data@
                == data@ && rd.pos == 4 && rd.wf()),
            !(data@.len() >= 4 && data@.subrange(0, 4) == magic()) ==> r == Err::<
                SavestateReader,
                StateError,
            >(StateError::InvalidValue),
    {
        if data.len() < 4 || data[0] != 0x4B || data[1] != 0x53 || data[2] != 0x54 || data[3] != 0x01 {
            proof {
                if data@.len() >= 4 && data@.subrange(0, 4) == magic() {
                    assert(data@[0] == data@.subrange(0, 4)[0]);
                    assert(data@[1] == data@.subrange(0, 4)[1]);
                    assert(data@[2] == data@.subrange(0, 4)[2]);
                    assert(data@[3] == data@.subrange(0, 4)[3]);
                }
            }
            return Err(StateError::InvalidValue);
        }
        let mut v: Vec<u8> = Vec::new();
        let mut i: usize = 0;
        while i < data.len()
            invariant
                i <= data@.len(),
                v@ == data@.subrange(0, i as int),
            decreases data@.len() - i,
        {
            v.push(data[i]);
            i = i + 1;
            assert(data@.subrange(0, i as int) == data@.subrange(0, i - 1 as int).push(data@[i - 1]));
        }
        assert(data@.subrange(0, data@.len() as int) == data@);
        assert(data@.subrange(0, 4) == magic());
        Ok(SavestateReader { data: v, pos: 4 })
    }

    pub fn read_u8(&mut self) -> (r: Result<u8, StateError>)
        requires
            old(self).wf(),
        ensures
            final(self).wf(),
            final(self).data@ == old(self).data@,
            old(self).pos + 1 <= old(self).data@.len() ==> r == Ok::<u8, StateError>(
                old(self).data@[old(self).pos as int],
            ) && final(self).pos == old(self).pos + 1,
            old(self).pos + 1 > old(self).data@.len() ==> r == Err::<u8, StateError>(
                StateError::UnexpectedEof,
            ) && final(self).pos == old(self).pos,
    {
        if self.pos < self.data.len() {
            let v = self.data[self.pos];
            self.pos = self.pos + 1;
            Ok(v)
        } else {
            Err(StateError::UnexpectedEof)
        }
    }

    pub fn read_bool(&mut self) -> (r: Result<bool, StateError>)
        requires
            old(self).wf(),
        ensures
            final(self).wf(),
            final(self).data@ == old(self).data@,
            old(self).pos + 1 <= old(self).data@.len() ==> r == Ok::<bool, StateError>(
                old(self).data@[old(self).pos as int] != 0,
            ) && final(self).pos == old(self).pos + 1,
            old(self).pos + 1 > old(self).data@.len() ==> r == Err::<bool, StateError>(
                StateError::UnexpectedEof,
            ) && final(self).pos == old(self).pos,
    {
        match self.read_u8() {
            Ok(v) => Ok(v != 0),
            Err(e) => Err(e),
        }
    }

    pub fn read_u16(&mut self) -> (r: Result<u16, StateError>)
        requires
            old(self).wf(),
        ensures
            final(self).wf(),
            final(self).data@ == old(self).data@,
            old(self).pos + 2 <= old(self).data@.len() ==> r == Ok::<u16, StateError>(
                dec_u16(old(self).data@[old(self).pos as int], old(self).data@[old(self).pos + 1]),
            ) && final(self).pos == old(self).pos + 2,
            old(self).pos + 2 > old(self).data@.len() ==> r == Err::<u16, StateError>(
                StateError::UnexpectedEof,
            ) && final(self).pos == old(self).pos,
    {
        if self.data.len() - self.pos >= 2 {
            let b0 = self.data[self.pos];
            let b1 = self.data[self.pos + 1];
            self.pos = self.pos + 2;
            Ok(((b1 as u16) << 8) | (b0 as u16))
        } else {
            Err(StateError::UnexpectedEof)
        }
    }

    pub fn read_u32(&mut self) -> (r: Result<u32, StateError>)
        requires
            old(self).wf(),
        ensures
            final(self).wf(),
            final(self).data@ == old(self).data@,
            old(self).pos + 4 <= old(self).data@.len() ==> r == Ok::<u32, StateError>(
                dec_u32(
                    old(self).data@[old(self).pos as int],
                    old(self).data@[old(self).pos + 1],
                    old(self).data@[old(self).pos + 2],
                    old(self).data@[old(self).pos + 3],
                ),
            ) && final(self).pos == old(self).pos + 4,
            old(self).pos + 4 > old(self).data@.len() ==> r == Err::<u32, StateError>(
                StateError::UnexpectedEof,
            ) && final(self).pos == old(self).pos,
    {
        if self.data.len() - self.pos >= 4 {
            let p = self.pos;
            let b0 = self.data[p];
            let b1 = self.data[p + 1];
            let b2 = self.data[p + 2];
            let b3 = self.data[p + 3];
            self.pos = p + 4;
            Ok(((b3 as u32) << 24) | ((b2 as u32) << 16) | ((b1 as u32) << 8) | (b0 as u32))
        } else {
            Err(StateError::UnexpectedEof)
        }
    }

    pub fn read_u64(&mut self) -> (r: Result<u64, StateError>)
        requires
            old(self).wf(),
        ensures
            final(self).wf(),
            final(self).data@ == old(self).data@,
            old(self).pos + 8 <= old(self).data@.len() ==> r == Ok::<u64, StateError>(
                dec_u64(
                    dec_u32(
                        old(self).data@[old(self).pos as int],
                        old(self).data@[old(self).pos + 1],
                        old(self).data@[old(self).pos + 2],
                        old(self).data@[old(self).pos + 3],
                    ),
                    dec_u32(
                        old(self).data@[old(self).pos + 4],
                        old(self).data@[old(self).pos + 5],
                        old(self).data@[old(self).pos + 6],
                        old(self).data@[old(self).pos + 7],
                    ),
                ),
            ) && final(self).pos == old(self).pos + 8,
            old(self).pos + 8 > old(self).data@.len() ==> r is Err && final(self).pos
                == old(self).pos,
    {
        if self.data.len() - self.pos >= 8 {
            let lo = match self.read_u32() {
                Ok(v) => v,
                Err(e) => return Err(e),
            };
            let hi = match self.read_u32() {
                Ok(v) => v,
                Err(e) => return Err(e),
            };
            Ok(((hi as u64) << 32) | (lo as u64))
        } else {
            Err(StateError::UnexpectedEof)
        }
    }

    /// Bytes left after the read position.
    pub fn remaining_len(&self) -> (n: usize)
        requires
            self.wf(),
        ensures
            n == self.data@.len() - self.pos,
    {
        self.data.len() - self.pos
    }

    /// Takes the next byte; the caller has checked that one is left.
    pub fn take_u8(&mut self) -> (v: u8)
        requires
            old(self).wf(),
            old(self).pos + 1 <= old(self).data@.len(),
        ensures
            final(self).data@ == old(self).data@,
            final(self).pos == old(self).pos + 1,
            v == old(self).data@[old(self).pos as int],
    {
        let len = self.data.len();
        let v = self.data[self.pos];
        assert(self.pos + 1 <= len);
        self.pos = self.pos + 1;
        v
    }

    pub fn take_bool(&mut self) -> (v: bool)
        requires
            old(self).wf(),
            old(self).pos + 1 <= old(self).data@.len(),
        ensures
            final(self).data@ == old(self).data@,
            final(self).pos == old(self).pos + 1,
            v == (old(self).data@[old(self).pos as int] != 0),
    {
        let b = self.take_u8();
        b != 0
    }

    pub fn take_u16(&mut self) -> (v: u16)
        requires
            old(self).wf(),
            old(self).pos + 2 <= old(self).data@.len(),
        ensures
            final(self).data@ == old(self).data@,
            final(self).pos == old(self).pos + 2,
            v == dec_u16_at(old(self).data@, old(self).pos as int),
    {
        let b0 = self.take_u8();
        let b1 = self.take_u8();
        ((b1 as u16) << 8) | (b0 as u16)
    }

    pub fn take_u32(&mut self) -> (v: u32)
        requires
            old(self).wf(),
            old(self).pos + 4 <= old(self).data@.len(),
        ensures
            final(self).data@ == old(self).data@,
            final(self).pos == old(self).pos + 4,
            v == dec_u32_at(old(self).data@, old(self).pos as int),
    {
        let b0 = self.take_u8();
        let b1 = self.take_u8();
        let b2 = self.take_u8();
        let b3 = self.take_u8();
        ((b3 as u32) << 24) | ((b2 as u32) << 16) | ((b1 as u32) << 8) | (b0 as u32)
    }

    pub fn take_u64(&mut self) -> (v: u64)
        requires
            old(self).wf(),
            old(self).pos + 8 <= old(self).data@.len(),
        ensures
            final(self).data@ == old(self).data@,
            final(self).pos == old(self).pos + 8,
            v == dec_u64_at(old(self).data@, old(self).pos as int),
    {
        let lo = self.take_u32();
        let hi = self.take_u32();
        ((hi as u64) << 32) | (lo as u64)
    }

    /// Takes the next `n` bytes; the caller has checked that they are there.
    pub fn take_bytes(&mut self, n: usize) -> (v: Vec<u8>)
        requires
            old(self).wf(),
            old(self).pos + n <= old(self).data@.len(),
        ensures
            final(self).data@ == old(self).data@,
            final(self).pos == old(self).pos + n,
            v@ == old(self).data@.subrange(old(self).pos as int, old(self).pos + n),
    {
        let start = self.pos;
        let len = self.data.len();
        let mut v: Vec<u8> = Vec::new();
        let mut i: usize = 0;
        while i < n
            invariant
                len == self.data@.len(),
                start + n <= self.data@.len(),
                i <= n,
                v@ == self.data@.subrange(start as int, start + i),
            decreases n - i,
        {
            v.push(self.data[start + i]);
            i = i + 1;
            assert(self.data@.subrange(start as int, start + i) == self.data@.subrange(
                start as int,
                start + i - 1,
            ).push(self.data@[start + i - 1]));
        }
        self.pos = start + n;
        v
    }

    /// Takes `n` banks of `N` bytes; the caller has checked that they are there.
    pub fn take_banks<const N: usize>(&mut self, n: usize) -> (v: Vec<[u8; N]>)
        requires
            old(self).wf(),
            old(self).pos + n * N <= old(self).data@.len(),
        ensures
            final(self).data@ == old(self).data@,
            final(self).pos == old(self).pos + n * N,
            v@.len() == n,
            forall|j: int| 0 <= j < n ==> #[trigger] v@[j]@ == bank_at(old(self).data@, old(self).pos as int, j, N as int),
    {
        let ghost d = self.data@;
        let ghost q = self.pos as int;
        let mut v: Vec<[u8; N]> = Vec::new();
        let mut i: usize = 0;
        while i < n
            invariant
                self.wf(),
                self.data@ == d,
                q + n * N <= d.len(),
                i <= n,
                self.pos == q + i * N,
                v@.len() == i,
                forall|j: int| 0 <= j < i ==> #[trigger] v@[j]@ == bank_at(d, q, j, N as int),
            decreases n - i,
        {
            assert(i * N + N <= n * N) by (nonlinear_arith)
                requires
                    i < n,
            ;
            assert((i + 1) * N == i * N + N) by (nonlinear_arith);
            let bytes = self.take_bytes(N);
            let mut bank = [0u8; N];
            copy_into_array(&mut bank, &bytes);
            v.push(bank);
            i = i + 1;
        }
        v
    }

    /// Moves the read position back to `pos`.
    pub fn rewind(&mut self, pos: usize)
        requires
            pos <= old(self).data@.len(),
        ensures
            final(self).data@ == old(self).data@,
            final(self).pos == pos,
    {
        self.pos = pos;
    }

    /// Fills `out` with the next `out.len()` bytes.
    pub fn read_bytes_into(&mut self, out: &mut Vec<u8>) -> (r: Result<(), StateError>)
        requires
            old(self).wf(),
        ensures
            final(self).wf(),
            final(self).data@ == old(self).data@,
            old(self).pos + old(out)@.len() <= old(self).data@.len() ==> r is Ok && final(out)@
                == old(self).data@.subrange(
                old(self).pos as int,
                old(self).pos + old(out)@.len(),
            ) && final(self).pos == old(self).pos + old(out)@.len(),
            old(self).pos + old(out)@.len() > old(self).data@.len() ==> r is Err && final(out)@
                == old(out)@ && final(self).pos == old(self).pos,
    {
        let n = out.len();
        if self.data.len() - self.pos < n {
            return Err(StateError::UnexpectedEof);
        }
        let start = self.pos;
        let mut i: usize = 0;
        while i < n
            invariant
                n == out@.len(),
                start + n <= self.data.len(),
                i <= n,
                forall|j: int| 0 <= j < i ==> out@[j] == self.data@[start + j],
            decreases n - i,
        {
            out[i] = self.data[start + i];
            i = i + 1;
        }
        assert(out@ == self.data@.subrange(start as int, start + n));
        self.pos = start + n;
        Ok(())
    }
}

} // verus!
