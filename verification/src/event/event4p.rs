//! Four-player event stream.

use vstd::prelude::*;
use crate::event::same::{equal_hands, equal_markers, equal_names, equal_numbers, equal_tiles, markers_view, same_names};
use crate::event::scoring::HoraScoring;
use crate::mahjong::tile::Tile;

verus! {

/// Four-player seat index, `0..=3`.
pub type Actor4 = u8;

/// Four-player event.
#[derive(Debug, PartialEq)]
#[allow(inconsistent_fields)]
pub enum Event4p {
    Nothing,

    StartGame {
        names: [String; 4],
        seed: Option<(u64, u64)>,
    },
    StartKyoku {
        /// Round wind.
        bakaze: Tile,
        /// First dora indicator.
        dora_marker: Tile,
        /// Hand number, 1-based.
        kyoku: u8,
        honba: u8,
        kyotaku: u8,
        /// Dealer seat.
        oya: Actor4,
        scores: [i32; 4],
        /// Starting hands, 13 tiles each (hidden seats show unknown tiles in views).
        tehais: [[Tile; 13]; 4],
    },

    Tsumo {
        actor: Actor4,
        pai: Tile,
    },
    /// The dealer's 14th starting tile; it joins the hand without being a drawn tile.
    DealerOpening {
        actor: Actor4,
        pai: Tile,
    },
    Dahai {
        actor: Actor4,
        pai: Tile,
        tsumogiri: bool,
    },
    /// The dealer's first discard, which is neither drawn nor from hand.
    DealerOpeningDahai {
        actor: Actor4,
        pai: Tile,
    },
    /// From here on the seat discards what it draws, calls nothing, does not ron and scores
    /// no nagashi mangan, until it resumes.
    SeatForcedAutoplay {
        actor: Actor4,
    },
    SeatResumed {
        actor: Actor4,
    },

    Chi {
        actor: Actor4,
        target: Actor4,
        pai: Tile,
        consumed: [Tile; 2],
    },
    Pon {
        actor: Actor4,
        target: Actor4,
        pai: Tile,
        consumed: [Tile; 2],
    },
    Daiminkan {
        actor: Actor4,
        target: Actor4,
        pai: Tile,
        consumed: [Tile; 3],
    },
    Kakan {
        actor: Actor4,
        pai: Tile,
        consumed: [Tile; 3],
    },
    Ankan {
        actor: Actor4,
        consumed: [Tile; 4],
    },
    Dora {
        dora_marker: Tile,
    },

    Reach {
        actor: Actor4,
    },
    ReachAccepted {
        actor: Actor4,
    },

    Hora {
        actor: Actor4,
        target: Actor4,
        deltas: Option<[i32; 4]>,
        ura_markers: Option<Vec<Tile>>,
        scoring: Option<HoraScoring>,
    },
    Ryukyoku {
        deltas: Option<[i32; 4]>,
    },

    EndKyoku,
    EndGame,
}

impl Default for Event4p {
    fn default() -> (r: Self)
        ensures
            r == Event4p::Nothing,
    {
        Event4p::Nothing
    }
}

impl Event4p {
    pub open spec fn spec_actor(&self) -> Option<Actor4> {
        match *self {
            Event4p::Tsumo { actor, .. } => Some(actor),
            Event4p::DealerOpening { actor, .. } => Some(actor),
            Event4p::Dahai { actor, .. } => Some(actor),
            Event4p::DealerOpeningDahai { actor, .. } => Some(actor),
            Event4p::Chi { actor, .. } => Some(actor),
            Event4p::Pon { actor, .. } => Some(actor),
            Event4p::Daiminkan { actor, .. } => Some(actor),
            Event4p::Kakan { actor, .. } => Some(actor),
            Event4p::Ankan { actor, .. } => Some(actor),
            Event4p::Reach { actor, .. } => Some(actor),
            Event4p::ReachAccepted { actor, .. } => Some(actor),
            Event4p::Hora { actor, .. } => Some(actor),
            _ => None,
        }
    }

    /// Seat that performed the event, if any.
    pub fn actor(&self) -> (r: Option<Actor4>)
        ensures
            r == self.spec_actor(),
    {
        match self {
            Event4p::Tsumo { actor, .. } | Event4p::DealerOpening { actor, .. } | Event4p::Dahai { actor, .. } | Event4p::DealerOpeningDahai { actor, .. } | Event4p::Chi { actor, .. } | Event4p::Pon { actor, .. } | Event4p::Daiminkan { actor, .. } | Event4p::Kakan { actor, .. } | Event4p::Ankan { actor, .. } | Event4p::Reach { actor, .. } | Event4p::ReachAccepted { actor, .. } | Event4p::Hora { actor, .. } => Some(*actor),
            _ => None,
        }
    }
}

/// Deltas as a list.
pub open spec fn array_view4(d: Option<[i32; 4]>) -> Option<Seq<i32>> {
    match d {
        Some(a) => Some(a@),
        None => None,
    }
}

fn equal_deltas4(a: &Option<[i32; 4]>, b: &Option<[i32; 4]>) -> (r: bool)
    ensures
        r == (array_view4(*a) == array_view4(*b)),
{
    match (a, b) {
        (Some(x), Some(y)) => equal_numbers(x.as_slice(), y.as_slice()),
        (None, None) => true,
        _ => false,
    }
}

impl Event4p {
    /// Whether two events say the same.
    pub open spec fn spec_same(&self, other: &Event4p) -> bool {
        match (*self, *other) {
            (Event4p::Nothing, Event4p::Nothing) => true,
            (
                Event4p::StartGame { names: names_a, seed: seed_a },
                Event4p::StartGame { names: names_b, seed: seed_b },
            ) => same_names(names_a@, names_b@) && seed_a == seed_b,
            (
                Event4p::StartKyoku { bakaze: bakaze_a, dora_marker: dora_marker_a, kyoku: kyoku_a, honba: honba_a, kyotaku: kyotaku_a, oya: oya_a, scores: scores_a, tehais: tehais_a },
                Event4p::StartKyoku { bakaze: bakaze_b, dora_marker: dora_marker_b, kyoku: kyoku_b, honba: honba_b, kyotaku: kyotaku_b, oya: oya_b, scores: scores_b, tehais: tehais_b },
            ) => bakaze_a == bakaze_b && dora_marker_a == dora_marker_b && kyoku_a == kyoku_b && honba_a == honba_b && kyotaku_a == kyotaku_b && oya_a == oya_b && scores_a@ == scores_b@ && tehais_a@ == tehais_b@,
            (
                Event4p::Tsumo { actor: actor_a, pai: pai_a },
                Event4p::Tsumo { actor: actor_b, pai: pai_b },
            ) => actor_a == actor_b && pai_a == pai_b,
            (
                Event4p::DealerOpening { actor: actor_a, pai: pai_a },
                Event4p::DealerOpening { actor: actor_b, pai: pai_b },
            ) => actor_a == actor_b && pai_a == pai_b,
            (
                Event4p::Dahai { actor: actor_a, pai: pai_a, tsumogiri: tsumogiri_a },
                Event4p::Dahai { actor: actor_b, pai: pai_b, tsumogiri: tsumogiri_b },
            ) => actor_a == actor_b && pai_a == pai_b && tsumogiri_a == tsumogiri_b,
            (
                Event4p::DealerOpeningDahai { actor: actor_a, pai: pai_a },
                Event4p::DealerOpeningDahai { actor: actor_b, pai: pai_b },
            ) => actor_a == actor_b && pai_a == pai_b,
            (
                Event4p::SeatForcedAutoplay { actor: actor_a },
                Event4p::SeatForcedAutoplay { actor: actor_b },
            ) => actor_a == actor_b,
            (
                Event4p::SeatResumed { actor: actor_a },
                Event4p::SeatResumed { actor: actor_b },
            ) => actor_a == actor_b,
            (
                Event4p::Chi { actor: actor_a, target: target_a, pai: pai_a, consumed: consumed_a },
                Event4p::Chi { actor: actor_b, target: target_b, pai: pai_b, consumed: consumed_b },
            ) => actor_a == actor_b && target_a == target_b && pai_a == pai_b && consumed_a@ == consumed_b@,
            (
                Event4p::Pon { actor: actor_a, target: target_a, pai: pai_a, consumed: consumed_a },
                Event4p::Pon { actor: actor_b, target: target_b, pai: pai_b, consumed: consumed_b },
            ) => actor_a == actor_b && target_a == target_b && pai_a == pai_b && consumed_a@ == consumed_b@,
            (
                Event4p::Daiminkan { actor: actor_a, target: target_a, pai: pai_a, consumed: consumed_a },
                Event4p::Daiminkan { actor: actor_b, target: target_b, pai: pai_b, consumed: consumed_b },
            ) => actor_a == actor_b && target_a == target_b && pai_a == pai_b && consumed_a@ == consumed_b@,
            (
                Event4p::Kakan { actor: actor_a, pai: pai_a, consumed: consumed_a },
                Event4p::Kakan { actor: actor_b, pai: pai_b, consumed: consumed_b },
            ) => actor_a == actor_b && pai_a == pai_b && consumed_a@ == consumed_b@,
            (
                Event4p::Ankan { actor: actor_a, consumed: consumed_a },
                Event4p::Ankan { actor: actor_b, consumed: consumed_b },
            ) => actor_a == actor_b && consumed_a@ == consumed_b@,
            (
                Event4p::Dora { dora_marker: dora_marker_a },
                Event4p::Dora { dora_marker: dora_marker_b },
            ) => dora_marker_a == dora_marker_b,
            (
                Event4p::Reach { actor: actor_a },
                Event4p::Reach { actor: actor_b },
            ) => actor_a == actor_b,
            (
                Event4p::ReachAccepted { actor: actor_a },
                Event4p::ReachAccepted { actor: actor_b },
            ) => actor_a == actor_b,
            (
                Event4p::Hora { actor: actor_a, target: target_a, deltas: deltas_a, ura_markers: ura_markers_a, scoring: scoring_a },
                Event4p::Hora { actor: actor_b, target: target_b, deltas: deltas_b, ura_markers: ura_markers_b, scoring: scoring_b },
            ) => actor_a == actor_b && target_a == target_b && array_view4(deltas_a) == array_view4(deltas_b) && markers_view(ura_markers_a) == markers_view(ura_markers_b) && scoring_a == scoring_b,
            (
                Event4p::Ryukyoku { deltas: deltas_a },
                Event4p::Ryukyoku { deltas: deltas_b },
            ) => array_view4(deltas_a) == array_view4(deltas_b),
            (Event4p::EndKyoku, Event4p::EndKyoku) => true,
            (Event4p::EndGame, Event4p::EndGame) => true,
            _ => false,
        }
    }

    /// Whether two events say the same.
    pub fn same(&self, other: &Event4p) -> (r: bool)
        ensures
            r == self.spec_same(other),
    {
        match (self, other) {
            (Event4p::Nothing, Event4p::Nothing) => true,
            (
                Event4p::StartGame { names: names_a, seed: seed_a },
                Event4p::StartGame { names: names_b, seed: seed_b },
            ) => equal_names(names_a.as_slice(), names_b.as_slice()) && *seed_a == *seed_b,
            (
                Event4p::StartKyoku { bakaze: bakaze_a, dora_marker: dora_marker_a, kyoku: kyoku_a, honba: honba_a, kyotaku: kyotaku_a, oya: oya_a, scores: scores_a, tehais: tehais_a },
                Event4p::StartKyoku { bakaze: bakaze_b, dora_marker: dora_marker_b, kyoku: kyoku_b, honba: honba_b, kyotaku: kyotaku_b, oya: oya_b, scores: scores_b, tehais: tehais_b },
            ) => *bakaze_a == *bakaze_b && *dora_marker_a == *dora_marker_b && *kyoku_a == *kyoku_b && *honba_a == *honba_b && *kyotaku_a == *kyotaku_b && *oya_a == *oya_b && equal_numbers(scores_a.as_slice(), scores_b.as_slice()) && equal_hands(tehais_a.as_slice(), tehais_b.as_slice()),
            (
                Event4p::Tsumo { actor: actor_a, pai: pai_a },
                Event4p::Tsumo { actor: actor_b, pai: pai_b },
            ) => *actor_a == *actor_b && *pai_a == *pai_b,
            (
                Event4p::DealerOpening { actor: actor_a, pai: pai_a },
                Event4p::DealerOpening { actor: actor_b, pai: pai_b },
            ) => *actor_a == *actor_b && *pai_a == *pai_b,
            (
                Event4p::Dahai { actor: actor_a, pai: pai_a, tsumogiri: tsumogiri_a },
                Event4p::Dahai { actor: actor_b, pai: pai_b, tsumogiri: tsumogiri_b },
            ) => *actor_a == *actor_b && *pai_a == *pai_b && *tsumogiri_a == *tsumogiri_b,
            (
                Event4p::DealerOpeningDahai { actor: actor_a, pai: pai_a },
                Event4p::DealerOpeningDahai { actor: actor_b, pai: pai_b },
            ) => *actor_a == *actor_b && *pai_a == *pai_b,
            (
                Event4p::SeatForcedAutoplay { actor: actor_a },
                Event4p::SeatForcedAutoplay { actor: actor_b },
            ) => *actor_a == *actor_b,
            (
                Event4p::SeatResumed { actor: actor_a },
                Event4p::SeatResumed { actor: actor_b },
            ) => *actor_a == *actor_b,
            (
                Event4p::Chi { actor: actor_a, target: target_a, pai: pai_a, consumed: consumed_a },
                Event4p::Chi { actor: actor_b, target: target_b, pai: pai_b, consumed: consumed_b },
            ) => *actor_a == *actor_b && *target_a == *target_b && *pai_a == *pai_b && equal_tiles(consumed_a.as_slice(), consumed_b.as_slice()),
            (
                Event4p::Pon { actor: actor_a, target: target_a, pai: pai_a, consumed: consumed_a },
                Event4p::Pon { actor: actor_b, target: target_b, pai: pai_b, consumed: consumed_b },
            ) => *actor_a == *actor_b && *target_a == *target_b && *pai_a == *pai_b && equal_tiles(consumed_a.as_slice(), consumed_b.as_slice()),
            (
                Event4p::Daiminkan { actor: actor_a, target: target_a, pai: pai_a, consumed: consumed_a },
                Event4p::Daiminkan { actor: actor_b, target: target_b, pai: pai_b, consumed: consumed_b },
            ) => *actor_a == *actor_b && *target_a == *target_b && *pai_a == *pai_b && equal_tiles(consumed_a.as_slice(), consumed_b.as_slice()),
            (
                Event4p::Kakan { actor: actor_a, pai: pai_a, consumed: consumed_a },
                Event4p::Kakan { actor: actor_b, pai: pai_b, consumed: consumed_b },
            ) => *actor_a == *actor_b && *pai_a == *pai_b && equal_tiles(consumed_a.as_slice(), consumed_b.as_slice()),
            (
                Event4p::Ankan { actor: actor_a, consumed: consumed_a },
                Event4p::Ankan { actor: actor_b, consumed: consumed_b },
            ) => *actor_a == *actor_b && equal_tiles(consumed_a.as_slice(), consumed_b.as_slice()),
            (
                Event4p::Dora { dora_marker: dora_marker_a },
                Event4p::Dora { dora_marker: dora_marker_b },
            ) => *dora_marker_a == *dora_marker_b,
            (
                Event4p::Reach { actor: actor_a },
                Event4p::Reach { actor: actor_b },
            ) => *actor_a == *actor_b,
            (
                Event4p::ReachAccepted { actor: actor_a },
                Event4p::ReachAccepted { actor: actor_b },
            ) => *actor_a == *actor_b,
            (
                Event4p::Hora { actor: actor_a, target: target_a, deltas: deltas_a, ura_markers: ura_markers_a, scoring: scoring_a },
                Event4p::Hora { actor: actor_b, target: target_b, deltas: deltas_b, ura_markers: ura_markers_b, scoring: scoring_b },
            ) => *actor_a == *actor_b && *target_a == *target_b && equal_deltas4(deltas_a, deltas_b) && equal_markers(ura_markers_a, ura_markers_b) && *scoring_a == *scoring_b,
            (
                Event4p::Ryukyoku { deltas: deltas_a },
                Event4p::Ryukyoku { deltas: deltas_b },
            ) => equal_deltas4(deltas_a, deltas_b),
            (Event4p::EndKyoku, Event4p::EndKyoku) => true,
            (Event4p::EndGame, Event4p::EndGame) => true,
            _ => false,
        }
    }
}

} // verus!
