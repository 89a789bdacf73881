//! A loaded cartridge: the board an iNES image asks for, built from its
//! banks.

use vstd::prelude::*;
use crate::loader::{LoadError, InesHeader, INES_HEADER_SIZE, CHR_BANK_SIZE, spec_has_magic, spec_header, spec_image_fits, parse_header, extract_prg_banks, extract_chr_banks, blank_chr_banks, combine_prg_banks_32k};
use crate::mapper::uxrom::UxROMMapper;
use crate::mapper::axrom::AxROMMapper;
use crate::mapper::mmc2::MMC2Mapper;
use crate::mapper::mmc5::MMC5Mapper;
use crate::mapper::namco163::Namco163Mapper;
use crate::mapper::mmc4::MMC4Mapper;
use crate::mapper::color_dreams::ColorDreamsMapper;
use crate::mapper::gxrom::GxROMMapper;
use crate::mapper::bandai_fcg::BandaiFcgMapper;
use crate::mapper::jaleco_ss88006::JalecoSS88006Mapper;
use crate::mapper::action53::Action53Mapper;
use crate::mapper::vrc2_4::{Vrc2_4Mapper, spec_variant_mapper_id};
use crate::mapper::unrom512::Unrom512Mapper;
use crate::mapper::mapper31::Mapper31;
use crate::mapper::taito::Taito33Mapper;
use crate::mapper::bnrom::BNROMMapper;
use crate::mapper::sunsoft4::Sunsoft4Mapper;
use crate::mapper::sunsoft_fme7::SunsoftFme7Mapper;
use crate::mapper::camerica::CamericaMapper;
use crate::mapper::vrc1::Vrc1Mapper;
use crate::mapper::simple::{SimpleMapper, spec_simple_id};
use crate::mapper::namco108::{Namco108Mapper, Namco108Variant};
use crate::mapper::nes_event::NesEventMapper;
use crate::mapper::namco175_340::Namco175_340Mapper;

verus! {

/// The boards the loader builds.
pub enum Cartridge {
    UxRom(UxROMMapper),
    AxRom(AxROMMapper),
    Mmc5(MMC5Mapper),
    Mmc2(MMC2Mapper),
    Namco163(Namco163Mapper),
    Mmc4(MMC4Mapper),
    ColorDreams(ColorDreamsMapper),
    GxRom(GxROMMapper),
    BandaiFcg(BandaiFcgMapper),
    JalecoSs88006(JalecoSS88006Mapper),
    Action53(Action53Mapper),
    Vrc2_4(Vrc2_4Mapper),
    Unrom512(Unrom512Mapper),
    Mapper31(Mapper31),
    Taito(Taito33Mapper),
    BnRom(BNROMMapper),
    Sunsoft4(Sunsoft4Mapper),
    SunsoftFme7(SunsoftFme7Mapper),
    Camerica(CamericaMapper),
    Vrc1(Vrc1Mapper),
    Simple(SimpleMapper),
    Namco108(Namco108Mapper),
    NesEvent(NesEventMapper),
    Namco175_340(Namco175_340Mapper),
}

/// The mapper numbers the loader builds a board for.
pub open spec fn is_supported_mapper(id: u16) -> bool {
    id == 2 || id == 5 || id == 7 || id == 9 || id == 10 || id == 11 || id == 16 || id == 18 || id == 19 || id == 21 || id == 22
        || id == 23 || id == 25 || id == 28 || id == 30 || id == 31 || id == 33 || id == 34 || id == 48
        || id == 66 || id == 68 || id == 69 || id == 71 || id == 75 || id == 78 || id == 87 || id == 88 || id == 105
        || id == 140 || id == 152 || id == 180 || id == 184 || id == 185 || id == 206 || id == 210
}

/// The boards whose construction indexes the last PRG bank.
pub open spec fn needs_prg(id: u16) -> bool {
    id == 2 || id == 7 || id == 11 || id == 18 || id == 28 || id == 30 || id == 31 || id == 34 || id == 66
        || id == 71 || id == 75 || id == 78 || id == 87 || id == 140 || id == 152 || id == 180 || id == 184 || id == 185
}

/// What loading an image needs besides a readable header: every bank it
/// announces, and a PRG bank for the boards that index one.
pub open spec fn spec_loadable(b: Seq<u8>) -> bool {
    &&& spec_image_fits(b)
    &&& b.len() >= INES_HEADER_SIZE && spec_has_magic(b) && needs_prg(spec_header(b).mapper_id) ==> b[4] > 0
}

/// The outcome of loading an image, but for the board itself: `Ok(id)`
/// when a board with mapper number `id` is built.
pub open spec fn spec_load_outcome(b: Seq<u8>) -> Result<u16, LoadError> {
    if b.len() < INES_HEADER_SIZE {
        Err(LoadError::TooSmall)
    } else if !spec_has_magic(b) {
        Err(LoadError::BadMagic)
    } else {
        let h = spec_header(b);
        if !is_supported_mapper(h.mapper_id) {
            Err(LoadError::UnsupportedMapper(h.mapper_id))
        } else if h.mapper_id == 34 && h.is_nes2 && h.submapper != 0 && h.submapper != 2 {
            Err(LoadError::UnsupportedSubmapper(34, h.submapper))
        } else {
            Ok(h.mapper_id)
        }
    }
}

/// The 16KB PRG banks of image `b`, in order from the header's PRG offset.
pub open spec fn prg_banks_of(b: Seq<u8>, prg: Vec<[u8; 16384]>) -> bool {
    let h = spec_header(b);
    &&& prg@.len() == h.num_prg_blocks
    &&& forall|i: int| 0 <= i < h.num_prg_blocks ==> #[trigger] prg@[i]@ == b.subrange(
        h.prg_offset + i * 16384,
        h.prg_offset + i * 16384 + 16384,
    )
}

/// The 8KB CHR banks of image `b`, in order from the header's CHR offset;
/// or, for an image without CHR ROM, zeroed banks for the CHR RAM it asks for.
pub open spec fn chr_banks_of(b: Seq<u8>, chr: Vec<[u8; 8192]>) -> bool {
    let h = spec_header(b);
    if h.num_chr_blocks > 0 {
        &&& chr@.len() == h.num_chr_blocks
        &&& forall|i: int| 0 <= i < h.num_chr_blocks ==> #[trigger] chr@[i]@ == b.subrange(
            h.chr_offset + i * 8192,
            h.chr_offset + i * 8192 + 8192,
        )
    } else {
        &&& chr@.len() == h.chr_ram_size / CHR_BANK_SIZE
        &&& forall|i: int, j: int| 0 <= i < chr@.len() && 0 <= j < 8192 ==> #[trigger] chr@[i][j] == 0
    }
}

/// `p` pairs the 16KB banks of `prg` into 32KB banks, the last one doubled
/// when their number is odd.
pub open spec fn combined_32k(prg: Seq<[u8; 16384]>, p: Vec<[u8; 32768]>) -> bool {
    &&& p@.len() == (prg.len() + 1) / 2
    &&& forall|i: int| 0 <= i < p@.len() ==> #[trigger] p@[i]@ == prg[2 * i]@ + (if 2 * i + 1 < prg.len() {
        prg[2 * i + 1]@
    } else {
        prg[2 * i]@
    })
}

impl Cartridge {
    pub open spec fn wf(&self) -> bool {
        match self {
            Cartridge::UxRom(m) => m.wf(),
            Cartridge::AxRom(m) => m.wf(),
            Cartridge::Mmc5(m) => m.wf(),
            Cartridge::Mmc2(m) => m.wf(),
            Cartridge::Namco163(m) => m.wf(),
            Cartridge::Mmc4(m) => m.wf(),
            Cartridge::ColorDreams(m) => m.wf(),
            Cartridge::GxRom(m) => m.wf(),
            Cartridge::BandaiFcg(m) => m.wf(),
            Cartridge::JalecoSs88006(m) => m.wf(),
            Cartridge::Action53(m) => m.wf(),
            Cartridge::Vrc2_4(m) => m.wf(),
            Cartridge::Unrom512(m) => m.wf(),
            Cartridge::Mapper31(m) => m.wf(),
            Cartridge::Taito(m) => m.wf(),
            Cartridge::BnRom(m) => m.wf(),
            Cartridge::Sunsoft4(m) => m.wf(),
            Cartridge::SunsoftFme7(m) => m.wf(),
            Cartridge::Camerica(m) => m.wf(),
            Cartridge::Vrc1(m) => m.wf(),
            Cartridge::Simple(m) => m.wf(),
            Cartridge::Namco108(m) => m.wf(),
            Cartridge::NesEvent(m) => m.wf(),
            Cartridge::Namco175_340(m) => m.wf(),
        }
    }

    /// The board is the one its mapper number selects, built from the
    /// header's flags and submapper, the PRG banks `prg`, the CHR banks
    /// `chr` and the battery save `sram`.
    pub open spec fn built_from(&self, h: InesHeader, prg: Vec<[u8; 16384]>, chr: Vec<[u8; 8192]>, sram: Option<Vec<u8>>) -> bool {
        let f = h.flags;
        let sub = h.submapper;
        let bat = h.has_battery;
        let id = h.mapper_id;
        match self {
            Cartridge::UxRom(m) => UxROMMapper::built_by_new(f, prg, *m),
            Cartridge::AxRom(m) => exists|p: Vec<[u8; 32768]>| combined_32k(prg@, p) && #[trigger] AxROMMapper::built_by_new(f, p, sub, *m),
            Cartridge::Mmc5(m) => MMC5Mapper::built_by_new(f, prg, chr, bat, sram, *m),
            Cartridge::Mmc2(m) => MMC2Mapper::built_by_new(f, prg, chr, *m),
            Cartridge::Namco163(m) => Namco163Mapper::built_by_new(f, prg, chr, bat, sram, sub, *m),
            Cartridge::Mmc4(m) => MMC4Mapper::built_by_new(f, prg, chr, bat, sram, *m),
            Cartridge::ColorDreams(m) => exists|p: Vec<[u8; 32768]>| combined_32k(prg@, p) && #[trigger] ColorDreamsMapper::built_by_new(f, p, chr, *m),
            Cartridge::GxRom(m) => exists|p: Vec<[u8; 32768]>| combined_32k(prg@, p) && #[trigger] GxROMMapper::built_by_new(f, p, chr, *m),
            Cartridge::BandaiFcg(m) => BandaiFcgMapper::built_by_new(f, prg, chr, sub, sram, *m),
            Cartridge::JalecoSs88006(m) => JalecoSS88006Mapper::built_by_new(f, prg, chr, bat, sram, *m),
            Cartridge::Action53(m) => Action53Mapper::built_by_new(f, prg, *m),
            Cartridge::Vrc2_4(m) => Vrc2_4Mapper::built_by_new(f, prg, chr, bat, sram, id as u8, sub, *m),
            Cartridge::Unrom512(m) => Unrom512Mapper::built_by_new(f, prg, sub, *m),
            Cartridge::Mapper31(m) => Mapper31::built_by_new(f, prg, *m),
            Cartridge::Taito(m) => if id == 48 {
                Taito33Mapper::built_by_new_mapper48(f, prg, chr, *m)
            } else {
                Taito33Mapper::built_by_new(f, prg, chr, *m)
            },
            Cartridge::BnRom(m) => exists|p: Vec<[u8; 32768]>| combined_32k(prg@, p) && #[trigger] BNROMMapper::built_by_new(f, p, *m),
            Cartridge::Sunsoft4(m) => Sunsoft4Mapper::built_by_new(f, prg, chr, bat, sram, *m),
            Cartridge::SunsoftFme7(m) => SunsoftFme7Mapper::built_by_new(f, prg, chr, bat, sram, *m),
            Cartridge::Camerica(m) => CamericaMapper::built_by_new(f, prg, *m),
            Cartridge::Vrc1(m) => Vrc1Mapper::built_by_new(f, prg, chr, *m),
            Cartridge::Simple(m) => if id == 78 {
                SimpleMapper::built_by_mapper78(f, prg, chr, sub, *m)
            } else if id == 87 {
                SimpleMapper::built_by_mapper87(f, prg, chr, *m)
            } else if id == 140 {
                SimpleMapper::built_by_mapper140(f, prg, chr, *m)
            } else if id == 152 {
                SimpleMapper::built_by_mapper152(prg, chr, *m)
            } else if id == 180 {
                if h.num_chr_blocks > 0 {
                    SimpleMapper::built_by_mapper180(f, prg, chr, *m)
                } else {
                    exists|c: Vec<[u8; 8192]>| c@.len() == 0 && #[trigger] SimpleMapper::built_by_mapper180(f, prg, c, *m)
                }
            } else if id == 184 {
                SimpleMapper::built_by_mapper184(f, prg, chr, *m)
            } else {
                SimpleMapper::built_by_mapper185(f, prg, chr, sub, *m)
            },
            Cartridge::Namco108(m) => Namco108Mapper::built_by_new(
                f,
                prg,
                chr,
                if id == 88 { Namco108Variant::M88 } else { Namco108Variant::M206 },
                *m,
            ),
            Cartridge::NesEvent(m) => NesEventMapper::built_by_new(f, prg, *m),
            Cartridge::Namco175_340(m) => Namco175_340Mapper::built_by_new(f, prg, chr, sub, *m),
        }
    }

    pub open spec fn spec_mapper_id(&self) -> u16 {
        match self {
            Cartridge::UxRom(_) => 2,
            Cartridge::AxRom(_) => 7,
            Cartridge::Mmc5(_) => 5,
            Cartridge::Mmc2(_) => 9,
            Cartridge::Namco163(_) => 19,
            Cartridge::Mmc4(_) => 10,
            Cartridge::ColorDreams(_) => 11,
            Cartridge::GxRom(_) => 66,
            Cartridge::BandaiFcg(_) => 16,
            Cartridge::JalecoSs88006(_) => 18,
            Cartridge::Action53(_) => 28,
            Cartridge::Vrc2_4(m) => spec_variant_mapper_id(m.variant) as u16,
            Cartridge::Unrom512(_) => 30,
            Cartridge::Mapper31(_) => 31,
            Cartridge::Taito(m) => if m.is_mapper48 { 48 } else { 33 },
            Cartridge::BnRom(_) => 34,
            Cartridge::Sunsoft4(_) => 68,
            Cartridge::SunsoftFme7(_) => 69,
            Cartridge::Camerica(_) => 71,
            Cartridge::Vrc1(_) => 75,
            Cartridge::Simple(m) => spec_simple_id(m.mapper_type) as u16,
            Cartridge::Namco108(m) => match m.variant {
                Namco108Variant::M206 => 206,
                Namco108Variant::M88 => 88,
                Namco108Variant::M76 => 76,
                Namco108Variant::M95 => 95,
                Namco108Variant::M154 => 154,
            },
            Cartridge::NesEvent(_) => 105,
            Cartridge::Namco175_340(_) => 210,
        }
    }

    /// The iNES mapper number of the board.
    pub fn mapper_id(&self) -> (r: u8)
        ensures
            r as u16 == self.spec_mapper_id(),
    {
        match self {
            Cartridge::UxRom(m) => m.mapper_id(),
            Cartridge::AxRom(m) => m.mapper_id(),
            Cartridge::Mmc5(m) => m.mapper_id(),
            Cartridge::Mmc2(m) => m.mapper_id(),
            Cartridge::Namco163(m) => m.mapper_id(),
            Cartridge::Mmc4(m) => m.mapper_id(),
            Cartridge::ColorDreams(m) => m.mapper_id(),
            Cartridge::GxRom(m) => m.mapper_id(),
            Cartridge::BandaiFcg(m) => m.mapper_id(),
            Cartridge::JalecoSs88006(m) => m.mapper_id(),
            Cartridge::Action53(m) => m.mapper_id(),
            Cartridge::Vrc2_4(m) => m.mapper_id(),
            Cartridge::Unrom512(m) => m.mapper_id(),
            Cartridge::Mapper31(m) => m.mapper_id(),
            Cartridge::Taito(m) => m.mapper_id(),
            Cartridge::BnRom(m) => m.mapper_id(),
            Cartridge::Sunsoft4(m) => m.mapper_id(),
            Cartridge::SunsoftFme7(m) => m.mapper_id(),
            Cartridge::Camerica(m) => m.mapper_id(),
            Cartridge::Vrc1(m) => m.mapper_id(),
            Cartridge::Simple(m) => m.mapper_id(),
            Cartridge::Namco108(m) => m.mapper_id(),
            Cartridge::NesEvent(m) => m.mapper_id(),
            Cartridge::Namco175_340(m) => m.mapper_id(),
        }
    }
}

/// `r` is what loading image `b` with save data `sram` gives: the error
/// the image calls for, or the board its mapper number selects, well formed
/// and built from the image's own PRG and CHR banks, its flags and
/// submapper, and `sram`.
pub open spec fn loads(b: Seq<u8>, sram: Option<Vec<u8>>, r: Result<Cartridge, LoadError>) -> bool {
    match spec_load_outcome(b) {
        Ok(id) => r matches Ok(c) && c.wf() && c.spec_mapper_id() == id && exists|prg: Vec<[u8; 16384]>, chr: Vec<[u8; 8192]>|
            prg_banks_of(b, prg) && chr_banks_of(b, chr) && #[trigger] c.built_from(spec_header(b), prg, chr, sram),
        Err(e) => r matches Err(e2) && e2 == e,
    }
}

/// Whether `load_nes_from_bytes` can take the image.
pub fn image_loadable(bytes: &[u8]) -> (r: bool)
    ensures
        r == spec_loadable(bytes@),
{
    if !crate::loader::image_fits(bytes) {
        return false;
    }
    match parse_header(bytes) {
        Ok(h) => {
            let id = h.mapper_id;
            let needs = id == 2 || id == 7 || id == 11 || id == 18 || id == 28 || id == 30 || id == 31 || id == 34
                || id == 66 || id == 71 || id == 75 || id == 78 || id == 87 || id == 140 || id == 152 || id == 180 || id == 184
                || id == 185;
            !needs || h.num_prg_blocks > 0
        },
        Err(_) => true,
    }
}

/// Builds the board an iNES image asks for.
pub fn load_nes_from_bytes(bytes: &[u8]) -> (r: Result<Cartridge, LoadError>)
    requires
        spec_loadable(bytes@),
    ensures
        loads(bytes@, None, r),
{
    load_nes_from_bytes_inner(bytes, None)
}

/// Builds the board an iNES image asks for, its battery RAM filled from a
/// saved copy.
pub fn load_nes_from_bytes_with_sram(bytes: &[u8], sram_data: Option<Vec<u8>>) -> (r: Result<Cartridge, LoadError>)
    requires
        spec_loadable(bytes@),
    ensures
        loads(bytes@, sram_data, r),
{
    load_nes_from_bytes_inner(bytes, sram_data)
}

fn load_nes_from_bytes_inner(bytes: &[u8], sram_data: Option<Vec<u8>>) -> (r: Result<Cartridge, LoadError>)
    requires
        spec_loadable(bytes@),
    ensures
        loads(bytes@, sram_data, r),
{
    let h = match parse_header(bytes) {
        Ok(h) => h,
        Err(e) => return Err(e),
    };
    let id = h.mapper_id;
    let flags = h.flags;
    let sub = h.submapper;
    let supported = id == 2 || id == 5 || id == 7 || id == 9 || id == 10 || id == 11 || id == 16 || id == 18 || id == 19 || id == 21
        || id == 22 || id == 23 || id == 25 || id == 28 || id == 30 || id == 31 || id == 33 || id == 34 || id == 48
        || id == 66 || id == 68 || id == 69 || id == 71 || id == 75 || id == 78 || id == 87 || id == 88 || id == 105
        || id == 140 || id == 152 || id == 180 || id == 184 || id == 185 || id == 206 || id == 210;
    if !supported {
        return Err(LoadError::UnsupportedMapper(id));
    }
    if id == 34 && h.is_nes2 && sub != 0 && sub != 2 {
        return Err(LoadError::UnsupportedSubmapper(34, sub));
    }
    let prg = extract_prg_banks(bytes, h.prg_offset, h.num_prg_blocks);
    let chr = if h.num_chr_blocks > 0 {
        extract_chr_banks(bytes, h.chr_offset, h.num_chr_blocks)
    } else {
        blank_chr_banks(h.chr_ram_size / CHR_BANK_SIZE)
    };
    assert(prg@.len() <= 255 && chr@.len() <= 0x10000);
    let ghost gp = prg;
    let ghost gc = chr;
    let ghost gs = sram_data;
    assert(prg_banks_of(bytes@, gp));
    assert(chr_banks_of(bytes@, gc));
    let has_battery = h.has_battery;
    let cart = if id == 2 {
        Cartridge::UxRom(UxROMMapper::new(flags, prg))
    } else if id == 5 {
        Cartridge::Mmc5(MMC5Mapper::new(flags, prg, chr, has_battery, sram_data))
    } else if id == 7 {
        Cartridge::AxRom(AxROMMapper::new(flags, combine_prg_banks_32k(&prg), sub))
    } else if id == 9 {
        Cartridge::Mmc2(MMC2Mapper::new(flags, prg, chr))
    } else if id == 10 {
        Cartridge::Mmc4(MMC4Mapper::new(flags, prg, chr, has_battery, sram_data))
    } else if id == 11 {
        Cartridge::ColorDreams(ColorDreamsMapper::new(flags, combine_prg_banks_32k(&prg), chr))
    } else if id == 16 {
        Cartridge::BandaiFcg(BandaiFcgMapper::new(flags, prg, chr, sub, sram_data))
    } else if id == 18 {
        Cartridge::JalecoSs88006(JalecoSS88006Mapper::new(flags, prg, chr, has_battery, sram_data))
    } else if id == 19 {
        Cartridge::Namco163(Namco163Mapper::new(flags, prg, chr, has_battery, sram_data, sub))
    } else if id == 28 {
        Cartridge::Action53(Action53Mapper::new(flags, prg))
    } else if id == 21 || id == 22 || id == 23 || id == 25 {
        Cartridge::Vrc2_4(Vrc2_4Mapper::new(flags, prg, chr, has_battery, sram_data, id as u8, sub))
    } else if id == 30 {
        Cartridge::Unrom512(Unrom512Mapper::new(flags, prg, sub))
    } else if id == 31 {
        Cartridge::Mapper31(Mapper31::new(flags, prg))
    } else if id == 33 {
        Cartridge::Taito(Taito33Mapper::new(flags, prg, chr))
    } else if id == 48 {
        Cartridge::Taito(Taito33Mapper::new_mapper48(flags, prg, chr))
    } else if id == 34 {
        Cartridge::BnRom(BNROMMapper::new(flags, combine_prg_banks_32k(&prg)))
    } else if id == 66 {
        Cartridge::GxRom(GxROMMapper::new(flags, combine_prg_banks_32k(&prg), chr))
    } else if id == 68 {
        Cartridge::Sunsoft4(Sunsoft4Mapper::new(flags, prg, chr, has_battery, sram_data))
    } else if id == 69 {
        Cartridge::SunsoftFme7(SunsoftFme7Mapper::new(flags, prg, chr, has_battery, sram_data))
    } else if id == 71 {
        Cartridge::Camerica(CamericaMapper::new(flags, prg))
    } else if id == 75 {
        Cartridge::Vrc1(Vrc1Mapper::new(flags, prg, chr))
    } else if id == 78 {
        Cartridge::Simple(SimpleMapper::mapper78(flags, prg, chr, sub))
    } else if id == 87 {
        Cartridge::Simple(SimpleMapper::mapper87(flags, prg, chr))
    } else if id == 88 {
        Cartridge::Namco108(Namco108Mapper::new(flags, prg, chr, Namco108Variant::M88))
    } else if id == 105 {
        Cartridge::NesEvent(NesEventMapper::new(flags, prg))
    } else if id == 140 {
        Cartridge::Simple(SimpleMapper::mapper140(flags, prg, chr))
    } else if id == 152 {
        Cartridge::Simple(SimpleMapper::mapper152(prg, chr))
    } else if id == 180 {
        let chr180 = if h.num_chr_blocks > 0 { chr } else { Vec::new() };
        Cartridge::Simple(SimpleMapper::mapper180(flags, prg, chr180))
    } else if id == 184 {
        Cartridge::Simple(SimpleMapper::mapper184(flags, prg, chr))
    } else if id == 185 {
        Cartridge::Simple(SimpleMapper::mapper185(flags, prg, chr, sub))
    } else if id == 206 {
        Cartridge::Namco108(Namco108Mapper::new(flags, prg, chr, Namco108Variant::M206))
    } else {
        Cartridge::Namco175_340(Namco175_340Mapper::new(flags, prg, chr, sub))
    };
    assert(cart.built_from(spec_header(bytes@), gp, gc, gs));
    Ok(cart)
}

} // verus!
