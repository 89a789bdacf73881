//! Pieces shared by the boards.

use vstd::prelude::*;
use crate::controller::Controller;

verus! {

/// Both joypads in their power-on state.
pub fn new_controllers() -> (c: [Controller; 2])
    ensures
        c[0] == Controller::new_spec(),
        c[1] == Controller::new_spec(),
{
    [Controller::new(), Controller::new()]
}

/// An 8KB bank holding bytes `off..off + 8192` of a 16KB bank.
pub fn half_of_16k(bank: &[u8; 16384], off: usize) -> (r: [u8; 8192])
    requires
        off == 0 || off == 8192,
    ensures
        r@ == bank@.subrange(off as int, off + 8192),
{
    let mut out = [0u8; 8192];
    let mut i: usize = 0;
    while i < 8192
        invariant
            i <= 8192,
            off == 0 || off == 8192,
            bank@.len() == 16384,
            out@.len() == 8192,
            forall|j: int| 0 <= j < i ==> out@[j] == bank@[off + j],
        decreases 8192 - i,
    {
        out[i] = bank[off + i];
        i = i + 1;
    }
    assert(out@ == bank@.subrange(off as int, off + 8192));
    out
}

/// Splits 16KB PRG banks into 8KB banks, lower half first.
pub fn split_16k_to_8k(banks: &Vec<[u8; 16384]>) -> (r: Vec<[u8; 8192]>)
    requires
        2 * banks@.len() <= usize::MAX,
    ensures
        r@.len() == 2 * banks@.len(),
        forall|i: int| 0 <= i < r@.len() ==> #[trigger] r@[i]@ == banks@[i / 2]@.subrange(
            (i % 2) * 8192,
            (i % 2) * 8192 + 8192,
        ),
{
    let mut out: Vec<[u8; 8192]> = Vec::new();
    let mut k: usize = 0;
    while k < banks.len()
        invariant
            k <= banks@.len(),
            out@.len() == 2 * k,
            forall|i: int| 0 <= i < out@.len() ==> #[trigger] out@[i]@ == banks@[i / 2]@.subrange(
                (i % 2) * 8192,
                (i % 2) * 8192 + 8192,
            ),
        decreases banks@.len() - k,
    {
        let lo = half_of_16k(&banks[k], 0);
        let hi = half_of_16k(&banks[k], 8192);
        out.push(lo);
        out.push(hi);
        k = k + 1;
    }
    out
}

/// A 4KB bank holding bytes `off..off + 4096` of an 8KB bank.
pub fn half_of_8k(bank: &[u8; 8192], off: usize) -> (r: [u8; 4096])
    requires
        off == 0 || off == 4096,
    ensures
        r@ == bank@.subrange(off as int, off + 4096),
{
    let mut out = [0u8; 4096];
    let mut i: usize = 0;
    while i < 4096
        invariant
            i <= 4096,
            off == 0 || off == 4096,
            bank@.len() == 8192,
            out@.len() == 4096,
            forall|j: int| 0 <= j < i ==> out@[j] == bank@[off + j],
        decreases 4096 - i,
    {
        out[i] = bank[off + i];
        i = i + 1;
    }
    assert(out@ == bank@.subrange(off as int, off + 4096));
    out
}

/// Splits 8KB CHR banks into 4KB banks, lower half first.
pub fn split_8k_to_4k(banks: &Vec<[u8; 8192]>) -> (r: Vec<[u8; 4096]>)
    requires
        2 * banks@.len() <= usize::MAX,
    ensures
        r@.len() == 2 * banks@.len(),
        forall|i: int| 0 <= i < r@.len() ==> #[trigger] r@[i]@ == banks@[i / 2]@.subrange(
            (i % 2) * 4096,
            (i % 2) * 4096 + 4096,
        ),
{
    let mut out: Vec<[u8; 4096]> = Vec::new();
    let mut k: usize = 0;
    while k < banks.len()
        invariant
            k <= banks@.len(),
            out@.len() == 2 * k,
            forall|i: int| 0 <= i < out@.len() ==> #[trigger] out@[i]@ == banks@[i / 2]@.subrange(
                (i % 2) * 4096,
                (i % 2) * 4096 + 4096,
            ),
        decreases banks@.len() - k,
    {
        let lo = half_of_8k(&banks[k], 0);
        let hi = half_of_8k(&banks[k], 4096);
        out.push(lo);
        out.push(hi);
        k = k + 1;
    }
    out
}

/// A 1KB bank holding bytes `off..off + 1024` of an 8KB bank.
pub fn slice_1k(bank: &[u8; 8192], off: usize) -> (r: [u8; 1024])
    requires
        off + 1024 <= 8192,
    ensures
        r@ == bank@.subrange(off as int, off + 1024),
{
    let mut out = [0u8; 1024];
    let mut i: usize = 0;
    while i < 1024
        invariant
            i <= 1024,
            off + 1024 <= 8192,
            bank@.len() == 8192,
            out@.len() == 1024,
            forall|j: int| 0 <= j < i ==> out@[j] == bank@[off + j],
        decreases 1024 - i,
    {
        out[i] = bank[off + i];
        i = i + 1;
    }
    assert(out@ == bank@.subrange(off as int, off + 1024));
    out
}

/// Splits 8KB CHR banks into 1KB banks, in address order.
pub fn split_8k_to_1k(banks: &Vec<[u8; 8192]>) -> (r: Vec<[u8; 1024]>)
    requires
        8 * banks@.len() <= usize::MAX,
    ensures
        r@.len() == 8 * banks@.len(),
        forall|i: int| 0 <= i < r@.len() ==> #[trigger] r@[i]@ == banks@[i / 8]@.subrange(
            (i % 8) * 1024,
            (i % 8) * 1024 + 1024,
        ),
{
    let mut out: Vec<[u8; 1024]> = Vec::new();
    let mut k: usize = 0;
    while k < banks.len()
        invariant
            k <= banks@.len(),
            8 * banks@.len() <= usize::MAX,
            out@.len() == 8 * k,
            forall|i: int| 0 <= i < out@.len() ==> #[trigger] out@[i]@ == banks@[i / 8]@.subrange(
                (i % 8) * 1024,
                (i % 8) * 1024 + 1024,
            ),
        decreases banks@.len() - k,
    {
        let mut t: usize = 0;
        while t < 8
            invariant
                t <= 8,
                k < banks@.len(),
                8 * banks@.len() <= usize::MAX,
                out@.len() == 8 * k + t,
                forall|i: int| 0 <= i < out@.len() ==> #[trigger] out@[i]@ == banks@[i / 8]@.subrange(
                    (i % 8) * 1024,
                    (i % 8) * 1024 + 1024,
                ),
            decreases 8 - t,
        {
            let piece = slice_1k(&banks[k], t * 1024);
            out.push(piece);
            t = t + 1;
        }
        k = k + 1;
    }
    out
}

/// A zeroed RAM of `size` bytes holding the start of `saved`, if given.
pub fn ram_with_saved(size: usize, saved: &Option<Vec<u8>>) -> (r: Vec<u8>)
    ensures
        r@.len() == size,
        forall|i: int| 0 <= i < size ==> #[trigger] r@[i] == (match saved {
            Some(d) => if i < d@.len() { d@[i] } else { 0u8 },
            None => 0u8,
        }),
{
    let mut r = crate::ppu_bus::zeroed(size);
    match saved {
        Some(d) => {
            let len = if d.len() < size { d.len() } else { size };
            let mut i: usize = 0;
            while i < len
                invariant
                    i <= len,
                    len <= size,
                    len <= d@.len(),
                    len == d@.len() || len == size,
                    r@.len() == size,
                    forall|j: int| 0 <= j < i ==> r@[j] == d@[j],
                    forall|j: int| i <= j < size ==> r@[j] == 0u8,
                decreases len - i,
            {
                r.set(i, d[i]);
                i = i + 1;
            }
        },
        None => {},
    }
    r
}

/// `dest` with its first `n` bytes replaced by the `n` bytes of `src` from `off`.
pub open spec fn copied_into(dest: Seq<u8>, src: Seq<u8>, off: int, n: int) -> Seq<u8> {
    src.subrange(off, off + n) + dest.subrange(n, dest.len() as int)
}

/// The smaller of two counts.
pub open spec fn min_len(a: int, b: int) -> int {
    if a < b { a } else { b }
}

/// Copies `n` bytes of `src`, from `off`, to the front of `dest`.
pub fn copy_vec_to_front(dest: &mut Vec<u8>, src: &Vec<u8>, off: usize, n: usize)
    requires
        off + n <= src@.len(),
        n <= old(dest)@.len(),
    ensures
        final(dest)@ == copied_into(old(dest)@, src@, off as int, n as int),
{
    let src_len = src.len();
    let mut i: usize = 0;
    while i < n
        invariant
            src_len == src@.len(),
            off + n <= src@.len(),
            n <= old(dest)@.len(),
            i <= n,
            dest@.len() == old(dest)@.len(),
            dest@ == src@.subrange(off as int, off + i) + old(dest)@.subrange(i as int, old(dest)@.len() as int),
        decreases n - i,
    {
        dest.set(i, src[off + i]);
        i = i + 1;
        assert(dest@ =~= src@.subrange(off as int, off + i) + old(dest)@.subrange(i as int, old(dest)@.len() as int));
    }
}

/// Copies `n` bytes of the bank `src`, from `off`, to the front of `dest`.
pub fn copy_bank_to_front<const N: usize>(dest: &mut Vec<u8>, src: &[u8; N], off: usize, n: usize)
    requires
        off + n <= N,
        n <= old(dest)@.len(),
    ensures
        final(dest)@ == copied_into(old(dest)@, src@, off as int, n as int),
{
    let mut i: usize = 0;
    while i < n
        invariant
            off + n <= N,
            src@.len() == N,
            n <= old(dest)@.len(),
            i <= n,
            dest@.len() == old(dest)@.len(),
            dest@ == src@.subrange(off as int, off + i) + old(dest)@.subrange(i as int, old(dest)@.len() as int),
        decreases n - i,
    {
        dest.set(i, src[off + i]);
        i = i + 1;
        assert(dest@ =~= src@.subrange(off as int, off + i) + old(dest)@.subrange(i as int, old(dest)@.len() as int));
    }
}

} // verus!
