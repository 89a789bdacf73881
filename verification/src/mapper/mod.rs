//! Cartridge boards.

pub mod common;
pub mod eeprom;
pub mod uxrom;
pub mod axrom;
pub mod bnrom;
pub mod camerica;
pub mod color_dreams;
pub mod gxrom;
pub mod mapper31;
pub mod vrc1;
pub mod unrom512;
pub mod jaleco_jf;
pub mod action53;
pub mod simple;
pub mod bandai_fcg;
pub mod jaleco_ss88006;
pub mod irem_g101;
pub mod front_fareast;
pub mod mapper77;
pub mod mmc2;
pub mod mmc4;
pub mod namco108;
pub mod namco175_340;
pub mod nes_event;
pub mod oeka_kids;
pub mod sunsoft3;
pub mod sunsoft4;
pub mod sunsoft_fme7;
pub mod taito;
pub mod taito_x1005;
pub mod vrc2_4;
pub mod bandai_karaoke;
pub mod cprom;
pub mod daou;
pub mod k1029;
pub mod mmc5;
pub mod namco163;
