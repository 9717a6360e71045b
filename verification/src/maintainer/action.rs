//! Seat actions: what a decision maker returns after seeing its view. The enums list every
//! possibility; `Chi` exists in the four-player game only, `Nukidora` in the three-player game
//! only.

use vstd::prelude::*;
use crate::mahjong::tile::Tile;

verus! {

/// Declarations that another player may rob with ron.
#[derive(Debug, Clone, Copy, PartialEq, Eq, Structural)]
pub enum RobberyKind {
    /// Added kan; robbing it scores chankan.
    Kakan,
    /// Closed kan; robbable where the rules allow it, by kokushi alone.
    Ankan,
    /// A North set aside; it can be robbed, without scoring chankan.
    Nukidora,
}

/// Kan or nukidora declaration that is public but not yet followed by its replacement draw.
#[derive(Debug, Clone, Copy, PartialEq, Eq, Structural)]
pub struct PendingRobbery {
    pub actor: u8,
    pub tile: Tile,
    pub kind: RobberyKind,
}

/// Actions on one's own turn.
#[derive(Debug, Clone, Copy, PartialEq, Eq, Structural)]
pub enum TurnAction {
    /// Discard a tile; `tsumogiri` marks a discard of the drawn tile.
    Discard { tile: Tile, tsumogiri: bool },
    /// The dealer's first discard, where the 14 tiles are neither drawn nor from hand.
    DealerOpeningDiscard { tile: Tile },
    /// Declare riichi and discard.
    Riichi { tile: Tile, tsumogiri: bool },
    /// The dealer's first discard with riichi.
    DealerOpeningRiichi { tile: Tile },
    Ankan { tile: Tile },
    /// Added kan onto an existing pon.
    Kakan { tile: Tile },
    Tsumo,
    /// Set a North aside.
    Nukidora,
    /// Nine kinds of terminals and honors, on the first turn.
    KyuushuKyuuhai,
}

impl TurnAction {
    pub open spec fn spec_is_plain_discard(&self) -> bool {
        *self is Discard || *self is DealerOpeningDiscard
    }

    /// A discard without riichi, usable as a conservative fallback.
    #[verifier::when_used_as_spec(spec_is_plain_discard)]
    pub fn is_plain_discard(&self) -> (r: bool)
        ensures
            r == self.is_plain_discard(),
    {
        matches!(self, TurnAction::Discard { .. } | TurnAction::DealerOpeningDiscard { .. })
    }
}

/// Responses after another player's discard.
#[derive(Debug, Clone, Copy, PartialEq)]
pub enum ReactionAction {
    Pass,
    /// From the player to the left; `consumed` are the two tiles from hand.
    Chi { consumed: [Tile; 2] },
    Pon { consumed: [Tile; 2] },
    /// Open kan.
    Daiminkan,
    Ron,
}

/// Two tiles as an unordered pair.
pub open spec fn same_pair(a: Seq<Tile>, b: Seq<Tile>) -> bool {
    (a[0] == b[0] && a[1] == b[1]) || (a[0] == b[1] && a[1] == b[0])
}

fn pair_equal(a: &[Tile; 2], b: &[Tile; 2]) -> (r: bool)
    ensures
        r == same_pair(a@, b@),
{
    (a[0] == b[0] && a[1] == b[1]) || (a[0] == b[1] && a[1] == b[0])
}

impl ReactionAction {
    pub open spec fn spec_equivalent(&self, other: &ReactionAction) -> bool {
        match (*self, *other) {
            (ReactionAction::Chi { consumed: a }, ReactionAction::Chi { consumed: b }) => same_pair(a@, b@),
            (ReactionAction::Pon { consumed: a }, ReactionAction::Pon { consumed: b }) => same_pair(a@, b@),
            (ReactionAction::Pass, ReactionAction::Pass) => true,
            (ReactionAction::Daiminkan, ReactionAction::Daiminkan) => true,
            (ReactionAction::Ron, ReactionAction::Ron) => true,
            _ => false,
        }
    }

    /// Equality in meaning: the tiles of a chi or pon are an unordered pair.
    pub fn equivalent(&self, other: &Self) -> (r: bool)
        ensures
            r == self.spec_equivalent(other),
    {
        match (self, other) {
            (ReactionAction::Chi { consumed: a }, ReactionAction::Chi { consumed: b }) => pair_equal(a, b),
            (ReactionAction::Pon { consumed: a }, ReactionAction::Pon { consumed: b }) => pair_equal(a, b),
            (ReactionAction::Pass, ReactionAction::Pass) => true,
            (ReactionAction::Daiminkan, ReactionAction::Daiminkan) => true,
            (ReactionAction::Ron, ReactionAction::Ron) => true,
            _ => false,
        }
    }
}

/// Equality in meaning is an equivalence.
pub proof fn equivalence_of_reactions(a: ReactionAction, b: ReactionAction, c: ReactionAction)
    ensures
        a.spec_equivalent(&a),
        a.spec_equivalent(&b) ==> b.spec_equivalent(&a),
        a.spec_equivalent(&b) && b.spec_equivalent(&c) ==> a.spec_equivalent(&c),
{
}

/// When a decision maker is asked.
#[derive(Debug, Clone, Copy, PartialEq, Structural)]
pub enum DecisionKind {
    /// After drawing on one's own turn.
    Turn,
    /// After another player's discard, kan or nukidora.
    Reaction,
}

} // verus!
