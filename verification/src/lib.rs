//! A rules kernel for Japanese Riichi Mahjong, four-player and three-player.

pub mod cli;
pub mod event;
pub mod inference;
pub mod json;
pub mod mahjong;
pub mod maintainer;
pub mod text;
