//! The iNES / NES 2.0 image format: header fields, the PRG and CHR banks it
//! holds, the TV region it asks for, and the ASCII hex listings used for
//! small test programs.

use vstd::prelude::*;

verus! {

pub const INES_HEADER_SIZE: usize = 16;
pub const NES2_DETECT_MASK: u8 = 0x0C;
pub const NES2_DETECT_VALUE: u8 = 0x08;
pub const FLAG_BATTERY: u8 = 0x02;
pub const FLAG_TRAINER: u8 = 0x04;
pub const TRAINER_SIZE: usize = 512;
pub const PRG_BANK_SIZE: usize = 16384;
pub const CHR_BANK_SIZE: usize = 8192;
pub const PRG_BANK_32K: usize = 32 * 1024;

/// The TV standard a game is made for.
#[derive(Clone, Copy, Debug, PartialEq, Eq, Structural)]
pub enum Region {
    Ntsc,
    Pal,
}

/// Why an image or listing was refused.
#[derive(Clone, Copy, Debug, PartialEq, Eq, Structural)]
pub enum LoadError {
    /// Shorter than the 16-byte header.
    TooSmall,
    /// The header does not start with "NES" and $1A.
    BadMagic,
    /// No board of this number is emulated.
    UnsupportedMapper(u16),
    /// Mapper 34 with a NES 2.0 submapper other than BNROM's.
    UnsupportedSubmapper(u16, u8),
    /// A listing token that is not an even number of hex digits.
    InvalidHex,
}

/// The fields of an iNES header the loader uses.
#[derive(Clone, Copy, Debug, PartialEq, Eq, Structural)]
pub struct InesHeader {
    pub is_nes2: bool,
    pub num_prg_blocks: u8,
    pub num_chr_blocks: u8,
    pub flags: u8,
    pub mapper_id: u16,
    pub has_battery: bool,
    pub submapper: u8,
    pub has_trainer: bool,
    pub prg_offset: usize,
    pub chr_offset: usize,
    pub chr_ram_size: usize,
}

pub open spec fn spec_is_nes2(b: Seq<u8>) -> bool {
    b[7] & NES2_DETECT_MASK == NES2_DETECT_VALUE
}

pub open spec fn spec_has_magic(b: Seq<u8>) -> bool {
    b[0] == 0x4E && b[1] == 0x45 && b[2] == 0x53 && b[3] == 0x1A
}

/// The mapper number: the upper nibbles of flags 7 and flags 6, and on
/// NES 2.0 four more bits from byte 8.
pub open spec fn spec_mapper_id(b: Seq<u8>) -> u16 {
    let ines = ((b[7] & 0xF0) as u16) | ((b[6] >> 4u8) as u16);
    if spec_is_nes2(b) { ines | (((b[8] & 0x0F) as u16) << 8u16) } else { ines }
}

/// The CHR RAM size: 8KB on iNES; on NES 2.0, 64 shifted by the larger of
/// the two shift counts in byte 11, or nothing when both are zero.
pub open spec fn spec_chr_ram_size(b: Seq<u8>) -> usize {
    if spec_is_nes2(b) {
        let lo = b[11] & 0x0F;
        let hi = (b[11] & 0xF0) >> 4u8;
        let shift = if lo > hi { lo } else { hi };
        if shift > 0 { (64usize << shift) } else { 0 }
    } else {
        8192
    }
}

/// The header of an image that is at least 16 bytes long.
pub open spec fn spec_header(b: Seq<u8>) -> InesHeader {
    let nes2 = spec_is_nes2(b);
    let trainer = b[6] & FLAG_TRAINER != 0;
    let prg_offset: usize = if trainer { (INES_HEADER_SIZE + TRAINER_SIZE) as usize } else { INES_HEADER_SIZE };
    InesHeader {
        is_nes2: nes2,
        num_prg_blocks: b[4],
        num_chr_blocks: b[5],
        flags: b[6],
        mapper_id: spec_mapper_id(b),
        has_battery: b[6] & FLAG_BATTERY != 0,
        submapper: if nes2 { (b[8] >> 4u8) & 0x0F } else { 0 },
        has_trainer: trainer,
        prg_offset,
        chr_offset: (prg_offset + b[4] * PRG_BANK_SIZE) as usize,
        chr_ram_size: spec_chr_ram_size(b),
    }
}

/// Whether the image holds every PRG and CHR bank its header announces.
pub open spec fn spec_image_fits(b: Seq<u8>) -> bool {
    b.len() >= INES_HEADER_SIZE && spec_has_magic(b) ==> {
        let h = spec_header(b);
        h.chr_offset + h.num_chr_blocks * CHR_BANK_SIZE <= b.len()
    }
}

/// Reads the header: refused when the image is too short or lacks the
/// magic number.
pub fn parse_header(bytes: &[u8]) -> (r: Result<InesHeader, LoadError>)
    ensures
        bytes@.len() < INES_HEADER_SIZE ==> r == Err::<InesHeader, LoadError>(LoadError::TooSmall),
        bytes@.len() >= INES_HEADER_SIZE && !spec_has_magic(bytes@) ==> r == Err::<InesHeader, LoadError>(LoadError::BadMagic),
        bytes@.len() >= INES_HEADER_SIZE && spec_has_magic(bytes@) ==> r == Ok::<InesHeader, LoadError>(spec_header(bytes@)),
        r matches Ok(h) ==> h.chr_ram_size <= 0x200000,
{
    if bytes.len() < INES_HEADER_SIZE {
        return Err(LoadError::TooSmall);
    }
    if !(bytes[0] == 0x4E && bytes[1] == 0x45 && bytes[2] == 0x53 && bytes[3] == 0x1A) {
        return Err(LoadError::BadMagic);
    }
    let is_nes2 = bytes[7] & NES2_DETECT_MASK == NES2_DETECT_VALUE;
    let num_prg_blocks = bytes[4];
    let num_chr_blocks = bytes[5];
    let flags = bytes[6];
    let ines_mapper = ((bytes[7] & 0xF0) as u16) | ((flags >> 4) as u16);
    let mapper_id = if is_nes2 { ines_mapper | (((bytes[8] & 0x0F) as u16) << 8) } else { ines_mapper };
    let has_battery = (flags & FLAG_BATTERY) != 0;
    let submapper = if is_nes2 { (bytes[8] >> 4) & 0x0F } else { 0 };
    let has_trainer = (flags & FLAG_TRAINER) != 0;
    let prg_offset: usize = if has_trainer { INES_HEADER_SIZE + TRAINER_SIZE } else { INES_HEADER_SIZE };
    let chr_offset: usize = prg_offset + (num_prg_blocks as usize) * PRG_BANK_SIZE;
    let chr_ram_size: usize = if is_nes2 {
        let b11 = bytes[11];
        let lo = b11 & 0x0F;
        let hi = (b11 & 0xF0) >> 4;
        let shift = if lo > hi { lo } else { hi };
        assert(lo <= 15 && hi <= 15) by (bit_vector)
            requires lo == b11 & 0x0F, hi == (b11 & 0xF0) >> 4u8;
        assert(shift <= 15 ==> (64usize << shift) <= 0x200000) by (bit_vector);
        if shift > 0 { 64usize << shift } else { 0 }
    } else {
        8192
    };
    Ok(InesHeader {
        is_nes2,
        num_prg_blocks,
        num_chr_blocks,
        flags,
        mapper_id,
        has_battery,
        submapper,
        has_trainer,
        prg_offset,
        chr_offset,
        chr_ram_size,
    })
}

/// Whether the image holds every bank its header announces; loading an
/// image that does not is refused by `load_nes_from_bytes`'s contract.
pub fn image_fits(bytes: &[u8]) -> (r: bool)
    ensures
        r == spec_image_fits(bytes@),
{
    match parse_header(bytes) {
        Ok(h) => h.chr_offset + (h.num_chr_blocks as usize) * CHR_BANK_SIZE <= bytes.len(),
        Err(_) => true,
    }
}

/// Whether flags 6 announce battery-backed RAM.
pub fn rom_has_battery(bytes: &[u8]) -> (r: bool)
    ensures
        r == (bytes@.len() > 6 && bytes@[6] & FLAG_BATTERY != 0),
{
    bytes.len() > 6 && (bytes[6] & FLAG_BATTERY) != 0
}

/// The region an image's header asks for, NTSC when it says nothing.
pub fn detect_region(bytes: &[u8]) -> (r: Region)
    ensures
        r == spec_detect_region(bytes@, None),
{
    detect_region_with_filename(bytes, None)
}

/// ASCII lower case of one byte.
pub open spec fn ascii_lower(c: u8) -> u8 {
    if 0x41 <= c <= 0x5A { (c + 0x20) as u8 } else { c }
}

/// Whether `needle` occurs in `hay` at `i`, ignoring ASCII case.
pub open spec fn matches_at(hay: Seq<u8>, needle: Seq<u8>, i: int) -> bool {
    &&& 0 <= i
    &&& i + needle.len() <= hay.len()
    &&& forall|j: int| 0 <= j < needle.len() ==> ascii_lower(#[trigger] hay[i + j]) == needle[j]
}

pub open spec fn contains_ci(hay: Seq<u8>, needle: Seq<u8>) -> bool {
    exists|i: int| matches_at(hay, needle, i)
}

/// The markers of a European release in a file name: "(e)", "(europe)"
/// and "(pal)".
pub open spec fn spec_suggests_pal(name: Seq<u8>) -> bool {
    contains_ci(name, seq![0x28u8, 0x65, 0x29])
        || contains_ci(name, seq![0x28u8, 0x65, 0x75, 0x72, 0x6F, 0x70, 0x65, 0x29])
        || contains_ci(name, seq![0x28u8, 0x70, 0x61, 0x6C, 0x29])
}

/// NES 2.0 headers give the region in byte 12 (PAL when its low bits are
/// 1), iNES headers in bit 0 of byte 9 (PAL when set); otherwise, or when
/// the header says NTSC on iNES, the file name may still mark a European
/// release.
pub open spec fn spec_detect_region(b: Seq<u8>, name: Option<Seq<u8>>) -> Region {
    if b.len() >= INES_HEADER_SIZE && spec_is_nes2(b) {
        if b[12] & 0x03 == 1 { Region::Pal } else { Region::Ntsc }
    } else if b.len() >= INES_HEADER_SIZE && b[9] & 0x01 != 0 {
        Region::Pal
    } else if name matches Some(n) && spec_suggests_pal(n) {
        Region::Pal
    } else {
        Region::Ntsc
    }
}

fn contains_ci_exec(hay: &[u8], needle: &[u8]) -> (r: bool)
    ensures
        r == contains_ci(hay@, needle@),
{
    let n = needle.len();
    if n > hay.len() {
        proof {
            assert forall|i: int| !matches_at(hay@, needle@, i) by {}
        }
        return false;
    }
    if n == 0 {
        assert(matches_at(hay@, needle@, 0));
        return true;
    }
    let hl = hay.len();
    let last = hl - n;
    let mut i: usize = 0;
    while i <= last
        invariant
            n == needle@.len(),
            n <= hay@.len(),
            0 < n,
            hl == hay@.len(),
            last == hay@.len() - n,
            i <= last + 1,
            forall|k: int| 0 <= k < i ==> !matches_at(hay@, needle@, k),
        decreases hay@.len() - i,
    {
        let mut j: usize = 0;
        let mut ok = true;
        while j < n
            invariant
                n == needle@.len(),
                hl == hay@.len(),
                i + n <= hay@.len(),
                j <= n,
                ok == (forall|t: int| 0 <= t < j ==> ascii_lower(#[trigger] hay@[i + t]) == needle@[t]),
            decreases n - j,
        {
            let c = hay[i + j];
            let lc = if 0x41 <= c && c <= 0x5A { c + 0x20 } else { c };
            if lc != needle[j] {
                ok = false;
            }
            j = j + 1;
        }
        if ok {
            assert(matches_at(hay@, needle@, i as int));
            return true;
        }
        i = i + 1;
    }
    proof {
        assert forall|k: int| !matches_at(hay@, needle@, k) by {
            if 0 <= k < i {
            } else if k >= i {
                assert(k + n > hay@.len());
            }
        }
    }
    false
}

/// Whether a file name marks a European release, ignoring ASCII case.
fn filename_suggests_pal(name: &str) -> (r: bool)
    ensures
        r == spec_suggests_pal(vstd::string::StringSliceAdditionalSpecFns::spec_bytes(name)),
{
    let b = name.as_bytes();
    let e: [u8; 3] = [0x28, 0x65, 0x29];
    let europe: [u8; 8] = [0x28, 0x65, 0x75, 0x72, 0x6F, 0x70, 0x65, 0x29];
    let pal: [u8; 5] = [0x28, 0x70, 0x61, 0x6C, 0x29];
    assert(e@ == seq![0x28u8, 0x65, 0x29]);
    assert(europe@ == seq![0x28u8, 0x65, 0x75, 0x72, 0x6F, 0x70, 0x65, 0x29]);
    assert(pal@ == seq![0x28u8, 0x70, 0x61, 0x6C, 0x29]);
    contains_ci_exec(b, e.as_slice()) || contains_ci_exec(b, europe.as_slice()) || contains_ci_exec(b, pal.as_slice())
}

/// The region an image asks for, falling back on the file name.
pub fn detect_region_with_filename(bytes: &[u8], filename: Option<&str>) -> (r: Region)
    ensures
        r == spec_detect_region(bytes@, match filename {
            Some(n) => Some(vstd::string::StringSliceAdditionalSpecFns::spec_bytes(n)),
            None => None,
        }),
{
    if bytes.len() >= INES_HEADER_SIZE {
        let is_nes2 = bytes[7] & NES2_DETECT_MASK == NES2_DETECT_VALUE;
        if is_nes2 {
            return if bytes[12] & 0x03 == 1 { Region::Pal } else { Region::Ntsc };
        }
        if bytes[9] & 0x01 != 0 {
            return Region::Pal;
        }
    }
    match filename {
        Some(name) => {
            if filename_suggests_pal(name) {
                return Region::Pal;
            }
        },
        None => {},
    }
    Region::Ntsc
}

/// A 16KB bank copied from `bytes` at `off`.
fn bank_16k_at(bytes: &[u8], off: usize) -> (r: [u8; 16384])
    requires
        off + 16384 <= bytes@.len(),
    ensures
        r@ == bytes@.subrange(off as int, off + 16384),
{
    let len = bytes.len();
    let mut out = [0u8; 16384];
    let mut i: usize = 0;
    while i < 16384
        invariant
            i <= 16384,
            len == bytes@.len(),
            off + 16384 <= bytes@.len(),
            out@.len() == 16384,
            forall|j: int| 0 <= j < i ==> out@[j] == bytes@[off + j],
        decreases 16384 - i,
    {
        out[i] = bytes[off + i];
        i = i + 1;
    }
    assert(out@ == bytes@.subrange(off as int, off + 16384));
    out
}

/// An 8KB bank copied from `bytes` at `off`.
fn bank_8k_at(bytes: &[u8], off: usize) -> (r: [u8; 8192])
    requires
        off + 8192 <= bytes@.len(),
    ensures
        r@ == bytes@.subrange(off as int, off + 8192),
{
    let len = bytes.len();
    let mut out = [0u8; 8192];
    let mut i: usize = 0;
    while i < 8192
        invariant
            i <= 8192,
            len == bytes@.len(),
            off + 8192 <= bytes@.len(),
            out@.len() == 8192,
            forall|j: int| 0 <= j < i ==> out@[j] == bytes@[off + j],
        decreases 8192 - i,
    {
        out[i] = bytes[off + i];
        i = i + 1;
    }
    assert(out@ == bytes@.subrange(off as int, off + 8192));
    out
}

/// The PRG banks of an image: `count` 16KB banks from `off`.
pub fn extract_prg_banks(bytes: &[u8], off: usize, count: u8) -> (r: Vec<[u8; 16384]>)
    requires
        off + count * PRG_BANK_SIZE <= bytes@.len(),
    ensures
        r@.len() == count,
        forall|i: int| 0 <= i < count ==> #[trigger] r@[i]@ == bytes@.subrange(off + i * 16384, off + i * 16384 + 16384),
{
    let len = bytes.len();
    let mut banks: Vec<[u8; 16384]> = Vec::new();
    let mut b: usize = 0;
    while b < count as usize
        invariant
            b <= count,
            len == bytes@.len(),
            off + count * PRG_BANK_SIZE <= bytes@.len(),
            banks@.len() == b,
            forall|i: int| 0 <= i < b ==> #[trigger] banks@[i]@ == bytes@.subrange(off + i * 16384, off + i * 16384 + 16384),
        decreases count - b,
    {
        assert(off + b * 16384 + 16384 <= off + count * 16384) by (nonlinear_arith)
            requires b < count;
        let bank = bank_16k_at(bytes, off + b * PRG_BANK_SIZE);
        banks.push(bank);
        b = b + 1;
    }
    banks
}

/// The CHR banks of an image: `count` 8KB banks from `off`.
pub fn extract_chr_banks(bytes: &[u8], off: usize, count: u8) -> (r: Vec<[u8; 8192]>)
    requires
        off + count * CHR_BANK_SIZE <= bytes@.len(),
    ensures
        r@.len() == count,
        forall|i: int| 0 <= i < count ==> #[trigger] r@[i]@ == bytes@.subrange(off + i * 8192, off + i * 8192 + 8192),
{
    let len = bytes.len();
    let mut banks: Vec<[u8; 8192]> = Vec::new();
    let mut b: usize = 0;
    while b < count as usize
        invariant
            b <= count,
            len == bytes@.len(),
            off + count * CHR_BANK_SIZE <= bytes@.len(),
            banks@.len() == b,
            forall|i: int| 0 <= i < b ==> #[trigger] banks@[i]@ == bytes@.subrange(off + i * 8192, off + i * 8192 + 8192),
        decreases count - b,
    {
        assert(off + b * 8192 + 8192 <= off + count * 8192) by (nonlinear_arith)
            requires b < count;
        let bank = bank_8k_at(bytes, off + b * CHR_BANK_SIZE);
        banks.push(bank);
        b = b + 1;
    }
    banks
}

/// `count` zeroed 8KB banks, standing in for CHR RAM.
pub fn blank_chr_banks(count: usize) -> (r: Vec<[u8; 8192]>)
    ensures
        r@.len() == count,
        forall|i: int, j: int| 0 <= i < count && 0 <= j < 8192 ==> #[trigger] r@[i][j] == 0,
{
    let mut banks: Vec<[u8; 8192]> = Vec::new();
    let mut b: usize = 0;
    while b < count
        invariant
            b <= count,
            banks@.len() == b,
            forall|i: int, j: int| 0 <= i < b && 0 <= j < 8192 ==> #[trigger] banks@[i][j] == 0,
        decreases count - b,
    {
        banks.push([0u8; 8192]);
        b = b + 1;
    }
    banks
}

/// A 32KB bank made of two 16KB banks.
fn join_16k(lo: &[u8; 16384], hi: &[u8; 16384]) -> (r: [u8; 32768])
    ensures
        r@ == lo@ + hi@,
{
    let mut out = [0u8; 32768];
    let mut i: usize = 0;
    while i < 16384
        invariant
            i <= 16384,
            out@.len() == 32768,
            forall|j: int| 0 <= j < i ==> out@[j] == lo@[j] && out@[j + 16384] == hi@[j],
        decreases 16384 - i,
    {
        out[i] = lo[i];
        out[i + 16384] = hi[i];
        i = i + 1;
    }
    assert(out@ =~= lo@ + hi@);
    out
}

/// Pairs 16KB banks into 32KB banks; an odd last bank is paired with
/// itself.
pub fn combine_prg_banks_32k(prg_banks: &Vec<[u8; 16384]>) -> (r: Vec<[u8; 32768]>)
    ensures
        r@.len() == (prg_banks@.len() + 1) / 2,
        forall|i: int| 0 <= i < r@.len() ==> #[trigger] r@[i]@ == prg_banks@[2 * i]@ + (if 2 * i + 1 < prg_banks@.len() {
            prg_banks@[2 * i + 1]@
        } else {
            prg_banks@[2 * i]@
        }),
{
    let n = prg_banks.len();
    let pairs = n / 2 + n % 2;
    let mut banks: Vec<[u8; 32768]> = Vec::new();
    let mut k: usize = 0;
    while k < pairs
        invariant
            n == prg_banks@.len(),
            pairs == n / 2 + n % 2,
            k <= pairs,
            banks@.len() == k,
            forall|t: int| 0 <= t < banks@.len() ==> #[trigger] banks@[t]@ == prg_banks@[2 * t]@ + (if 2 * t + 1 < prg_banks@.len() {
                prg_banks@[2 * t + 1]@
            } else {
                prg_banks@[2 * t]@
            }),
        decreases pairs - k,
    {
        let i = 2 * k;
        let bank = if i + 1 < n {
            join_16k(&prg_banks[i], &prg_banks[i + 1])
        } else {
            join_16k(&prg_banks[i], &prg_banks[i])
        };
        banks.push(bank);
        k = k + 1;
    }
    assert(pairs == (n + 1) / 2);
    banks
}

} // verus!
