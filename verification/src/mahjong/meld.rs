//! Melds (calls).
//!
//! The enum lists every kind of meld; which ones are legal depends on the variant: `Chi`
//! exists in the four-player game only, `Nukidora` in the three-player game only.

use vstd::prelude::*;
use crate::mahjong::rules::RedFiveCounts;
use crate::mahjong::tile::{Suit, Tile};

verus! {

/// Absolute seat index.
pub type SeatId = u8;

#[derive(Debug, Clone, Copy, PartialEq, Eq)]
pub enum Meld {
    /// A sequence: all three tiles, the called one among them, and the player to the left.
    Chi { tiles: [Tile; 3], called: Tile, from: SeatId },
    /// A triplet; `consumed` are the two tiles taken from hand.
    Pon { tile: Tile, called: Tile, consumed: [Tile; 2], from: SeatId },
    /// Open kan: a discarded tile and three from hand.
    Daiminkan { tile: Tile, called: Tile, from: SeatId },
    /// Added kan: the fourth tile added to an existing pon.
    Kakan { tile: Tile, added: Tile },
    /// Closed kan: four tiles from hand.
    Ankan { tile: Tile },
    /// A North set aside as dora; not a meld group.
    Nukidora { tile: Tile },
}

impl Meld {
    pub open spec fn spec_kind_tile(&self) -> Tile {
        match *self {
            Meld::Chi { tiles, .. } => tiles@[0].deaka(),
            Meld::Pon { tile, .. } => tile.deaka(),
            Meld::Daiminkan { tile, .. } => tile.deaka(),
            Meld::Kakan { tile, .. } => tile.deaka(),
            Meld::Ankan { tile } => tile.deaka(),
            Meld::Nukidora { tile } => tile.deaka(),
        }
    }

    /// Representative tile of the meld, red fives folded.
    #[verifier::when_used_as_spec(spec_kind_tile)]
    pub fn kind_tile(&self) -> (r: Tile)
        ensures
            r == self.kind_tile(),
    {
        match self {
            Meld::Chi { tiles, .. } => tiles[0].deaka(),
            Meld::Pon { tile, .. }
            | Meld::Daiminkan { tile, .. }
            | Meld::Kakan { tile, .. }
            | Meld::Ankan { tile }
            | Meld::Nukidora { tile } => tile.deaka(),
        }
    }

    pub open spec fn spec_is_concealed(&self) -> bool {
        *self is Ankan
    }

    /// Only closed kans count as concealed.
    #[verifier::when_used_as_spec(spec_is_concealed)]
    pub fn is_concealed(&self) -> (r: bool)
        ensures
            r == self.is_concealed(),
    {
        matches!(self, Meld::Ankan { .. })
    }

    pub open spec fn spec_is_kan(&self) -> bool {
        *self is Daiminkan || *self is Kakan || *self is Ankan
    }

    #[verifier::when_used_as_spec(spec_is_kan)]
    pub fn is_kan(&self) -> (r: bool)
        ensures
            r == self.is_kan(),
    {
        matches!(self, Meld::Daiminkan { .. } | Meld::Kakan { .. } | Meld::Ankan { .. })
    }

    pub open spec fn spec_breaks_menzen(&self) -> bool {
        !(*self is Ankan || *self is Nukidora)
    }

    /// Whether the meld breaks a closed hand; closed kans and nukidora do not.
    #[verifier::when_used_as_spec(spec_breaks_menzen)]
    pub fn breaks_menzen(&self) -> (r: bool)
        ensures
            r == self.breaks_menzen(),
    {
        !matches!(self, Meld::Ankan { .. } | Meld::Nukidora { .. })
    }

    pub open spec fn spec_kan_aka_count(&self, reds: RedFiveCounts) -> u8 {
        if !self.is_kan() || self.kind_tile().rank() != Some(5u8) {
            0
        } else {
            match self.kind_tile().suit() {
                Suit::Man => reds.man,
                Suit::Pin => reds.pin,
                Suit::Sou => reds.sou,
                Suit::Honor => 0,
            }
        }
    }

    /// Number of red fives inside a kan: a kan of fives uses every copy, so it is the number
    /// in the wall. 0 for other melds, which hold their tiles.
    #[verifier::when_used_as_spec(spec_kan_aka_count)]
    pub fn kan_aka_count(&self, reds: RedFiveCounts) -> (r: u8)
        ensures
            r == self.kan_aka_count(reds),
    {
        if !self.is_kan() {
            return 0;
        }
        let t = self.kind_tile();
        match t.rank() {
            Some(5) => {},
            _ => return 0,
        }
        match t.suit() {
            Suit::Man => reds.man,
            Suit::Pin => reds.pin,
            Suit::Sou => reds.sou,
            Suit::Honor => 0,
        }
    }

    /// The tiles that make up the meld.
    pub open spec fn spec_tiles(&self) -> Seq<Tile> {
        match *self {
            Meld::Chi { tiles, .. } => tiles@,
            Meld::Pon { called, consumed, .. } => seq![consumed@[0], consumed@[1], called],
            Meld::Daiminkan { tile, called, .. } => seq![tile, tile, tile, called],
            Meld::Kakan { tile, added } => seq![tile, tile, tile, added],
            Meld::Ankan { tile } => seq![tile, tile, tile, tile],
            Meld::Nukidora { tile } => seq![tile],
        }
    }

    /// The tiles that make up the meld. A kan repeats its representative tile, so red fives
    /// are not seen here; see [`Meld::kan_aka_count`].
    pub fn tiles(&self) -> (r: Vec<Tile>)
        ensures
            r@ == self.spec_tiles(),
    {
        let v = match self {
            Meld::Chi { tiles, .. } => vec![tiles[0], tiles[1], tiles[2]],
            Meld::Pon { called, consumed, .. } => vec![consumed[0], consumed[1], *called],
            Meld::Daiminkan { tile, called, .. } => vec![*tile, *tile, *tile, *called],
            Meld::Kakan { tile, added } => vec![*tile, *tile, *tile, *added],
            Meld::Ankan { tile } => vec![*tile, *tile, *tile, *tile],
            Meld::Nukidora { tile } => vec![*tile],
        };
        assert(v@ =~= self.spec_tiles());
        v
    }
}

/// A kan has four tiles, a chi or pon three, a nukidora one.
pub proof fn meld_sizes(m: Meld)
    ensures
        m.spec_tiles().len() == if m.is_kan() { 4nat } else if m is Nukidora { 1 } else { 3 },
        m.is_concealed() ==> m.is_kan() && !m.breaks_menzen(),
{
}

} // verus!
