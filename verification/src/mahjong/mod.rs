//! The rules of the game: tiles, hands, melds, shanten, readings of a winning hand,
//! yaku, fu and points.

pub mod tile;
pub mod hand;
pub mod rules;
pub mod meld;
pub mod shanten;
pub mod decompose;
pub mod agari;
pub mod agari_laws;
pub mod shanten_laws;
pub mod yaku;
pub mod yaku_laws;
pub mod score;
pub mod score_laws;
pub mod calc;
pub mod calc_laws;
pub mod yaku_star;
pub mod yaku_star_laws;
