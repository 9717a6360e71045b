//! Three-player event stream. No chi; a North can be set aside as dora.

use vstd::prelude::*;
use crate::event::same::{equal_hands, equal_markers, equal_names, equal_numbers, equal_tiles, markers_view, same_names};
use crate::event::scoring::HoraScoring;
use crate::mahjong::tile::Tile;

verus! {

/// Three-player seat index, `0..=2`.
pub type Actor3 = u8;

/// Three-player event.
#[derive(Debug, PartialEq)]
#[allow(inconsistent_fields)]
pub enum Event3p {
    Nothing,

    StartGame {
        names: [String; 3],
        seed: Option<(u64, u64)>,
    },
    StartKyoku {
        bakaze: Tile,
        dora_marker: Tile,
        /// Hand number, 1-based.
        kyoku: u8,
        honba: u8,
        kyotaku: u8,
        oya: Actor3,
        scores: [i32; 3],
        tehais: [[Tile; 13]; 3],
    },

    Tsumo {
        actor: Actor3,
        pai: Tile,
    },
    /// The dealer's 14th starting tile; it joins the hand without being a drawn tile.
    DealerOpening {
        actor: Actor3,
        pai: Tile,
    },
    Dahai {
        actor: Actor3,
        pai: Tile,
        tsumogiri: bool,
    },
    /// The dealer's first discard, which is neither drawn nor from hand.
    DealerOpeningDahai {
        actor: Actor3,
        pai: Tile,
    },
    /// From here on the seat discards what it draws, calls nothing, does not ron and scores
    /// no nagashi mangan, until it resumes.
    SeatForcedAutoplay {
        actor: Actor3,
    },
    SeatResumed {
        actor: Actor3,
    },
    Pon {
        actor: Actor3,
        target: Actor3,
        pai: Tile,
        consumed: [Tile; 2],
    },
    Daiminkan {
        actor: Actor3,
        target: Actor3,
        pai: Tile,
        consumed: [Tile; 3],
    },
    Kakan {
        actor: Actor3,
        pai: Tile,
        consumed: [Tile; 3],
    },
    Ankan {
        actor: Actor3,
        consumed: [Tile; 4],
    },
    /// A North set aside as dora.
    Nukidora {
        actor: Actor3,
        pai: Tile,
    },
    Dora {
        dora_marker: Tile,
    },

    Reach {
        actor: Actor3,
    },
    ReachAccepted {
        actor: Actor3,
    },

    Hora {
        actor: Actor3,
        target: Actor3,
        deltas: Option<[i32; 3]>,
        ura_markers: Option<Vec<Tile>>,
        scoring: Option<HoraScoring>,
    },
    Ryukyoku {
        deltas: Option<[i32; 3]>,
    },

    EndKyoku,
    EndGame,
}

impl Default for Event3p {
    fn default() -> (r: Self)
        ensures
            r == Event3p::Nothing,
    {
        Event3p::Nothing
    }
}

impl Event3p {
    pub open spec fn spec_actor(&self) -> Option<Actor3> {
        match *self {
            Event3p::Tsumo { actor, .. } => Some(actor),
            Event3p::DealerOpening { actor, .. } => Some(actor),
            Event3p::Dahai { actor, .. } => Some(actor),
            Event3p::DealerOpeningDahai { actor, .. } => Some(actor),
            Event3p::Pon { actor, .. } => Some(actor),
            Event3p::Daiminkan { actor, .. } => Some(actor),
            Event3p::Kakan { actor, .. } => Some(actor),
            Event3p::Ankan { actor, .. } => Some(actor),
            Event3p::Nukidora { actor, .. } => Some(actor),
            Event3p::Reach { actor, .. } => Some(actor),
            Event3p::ReachAccepted { actor, .. } => Some(actor),
            Event3p::Hora { actor, .. } => Some(actor),
            _ => None,
        }
    }

    /// Seat that performed the event, if any.
    pub fn actor(&self) -> (r: Option<Actor3>)
        ensures
            r == self.spec_actor(),
    {
        match self {
            Event3p::Tsumo { actor, .. } | Event3p::DealerOpening { actor, .. } | Event3p::Dahai { actor, .. } | Event3p::DealerOpeningDahai { actor, .. } | Event3p::Pon { actor, .. } | Event3p::Daiminkan { actor, .. } | Event3p::Kakan { actor, .. } | Event3p::Ankan { actor, .. } | Event3p::Nukidora { actor, .. } | Event3p::Reach { actor, .. } | Event3p::ReachAccepted { actor, .. } | Event3p::Hora { actor, .. } => Some(*actor),
            _ => None,
        }
    }
}

/// Deltas as a list.
pub open spec fn array_view3(d: Option<[i32; 3]>) -> Option<Seq<i32>> {
    match d {
        Some(a) => Some(a@),
        None => None,
    }
}

fn equal_deltas3(a: &Option<[i32; 3]>, b: &Option<[i32; 3]>) -> (r: bool)
    ensures
        r == (array_view3(*a) == array_view3(*b)),
{
    match (a, b) {
        (Some(x), Some(y)) => equal_numbers(x.as_slice(), y.as_slice()),
        (None, None) => true,
        _ => false,
    }
}

impl Event3p {
    /// Whether two events say the same.
    pub open spec fn spec_same(&self, other: &Event3p) -> bool {
        match (*self, *other) {
            (Event3p::Nothing, Event3p::Nothing) => true,
            (
                Event3p::StartGame { names: names_a, seed: seed_a },
                Event3p::StartGame { names: names_b, seed: seed_b },
            ) => same_names(names_a@, names_b@) && seed_a == seed_b,
            (
                Event3p::StartKyoku { bakaze: bakaze_a, dora_marker: dora_marker_a, kyoku: kyoku_a, honba: honba_a, kyotaku: kyotaku_a, oya: oya_a, scores: scores_a, tehais: tehais_a },
                Event3p::StartKyoku { bakaze: bakaze_b, dora_marker: dora_marker_b, kyoku: kyoku_b, honba: honba_b, kyotaku: kyotaku_b, oya: oya_b, scores: scores_b, tehais: tehais_b },
            ) => bakaze_a == bakaze_b && dora_marker_a == dora_marker_b && kyoku_a == kyoku_b && honba_a == honba_b && kyotaku_a == kyotaku_b && oya_a == oya_b && scores_a@ == scores_b@ && tehais_a@ == tehais_b@,
            (
                Event3p::Tsumo { actor: actor_a, pai: pai_a },
                Event3p::Tsumo { actor: actor_b, pai: pai_b },
            ) => actor_a == actor_b && pai_a == pai_b,
            (
                Event3p::DealerOpening { actor: actor_a, pai: pai_a },
                Event3p::DealerOpening { actor: actor_b, pai: pai_b },
            ) => actor_a == actor_b && pai_a == pai_b,
            (
                Event3p::Dahai { actor: actor_a, pai: pai_a, tsumogiri: tsumogiri_a },
                Event3p::Dahai { actor: actor_b, pai: pai_b, tsumogiri: tsumogiri_b },
            ) => actor_a == actor_b && pai_a == pai_b && tsumogiri_a == tsumogiri_b,
            (
                Event3p::DealerOpeningDahai { actor: actor_a, pai: pai_a },
                Event3p::DealerOpeningDahai { actor: actor_b, pai: pai_b },
            ) => actor_a == actor_b && pai_a == pai_b,
            (
                Event3p::SeatForcedAutoplay { actor: actor_a },
                Event3p::SeatForcedAutoplay { actor: actor_b },
            ) => actor_a == actor_b,
            (
                Event3p::SeatResumed { actor: actor_a },
                Event3p::SeatResumed { actor: actor_b },
            ) => actor_a == actor_b,
            (
                Event3p::Pon { actor: actor_a, target: target_a, pai: pai_a, consumed: consumed_a },
                Event3p::Pon { actor: actor_b, target: target_b, pai: pai_b, consumed: consumed_b },
            ) => actor_a == actor_b && target_a == target_b && pai_a == pai_b && consumed_a@ == consumed_b@,
            (
                Event3p::Daiminkan { actor: actor_a, target: target_a, pai: pai_a, consumed: consumed_a },
                Event3p::Daiminkan { actor: actor_b, target: target_b, pai: pai_b, consumed: consumed_b },
            ) => actor_a == actor_b && target_a == target_b && pai_a == pai_b && consumed_a@ == consumed_b@,
            (
                Event3p::Kakan { actor: actor_a, pai: pai_a, consumed: consumed_a },
                Event3p::Kakan { actor: actor_b, pai: pai_b, consumed: consumed_b },
            ) => actor_a == actor_b && pai_a == pai_b && consumed_a@ == consumed_b@,
            (
                Event3p::Ankan { actor: actor_a, consumed: consumed_a },
                Event3p::Ankan { actor: actor_b, consumed: consumed_b },
            ) => actor_a == actor_b && consumed_a@ == consumed_b@,
            (
                Event3p::Nukidora { actor: actor_a, pai: pai_a },
                Event3p::Nukidora { actor: actor_b, pai: pai_b },
            ) => actor_a == actor_b && pai_a == pai_b,
            (
                Event3p::Dora { dora_marker: dora_marker_a },
                Event3p::Dora { dora_marker: dora_marker_b },
            ) => dora_marker_a == dora_marker_b,
            (
                Event3p::Reach { actor: actor_a },
                Event3p::Reach { actor: actor_b },
            ) => actor_a == actor_b,
            (
                Event3p::ReachAccepted { actor: actor_a },
                Event3p::ReachAccepted { actor: actor_b },
            ) => actor_a == actor_b,
            (
                Event3p::Hora { actor: actor_a, target: target_a, deltas: deltas_a, ura_markers: ura_markers_a, scoring: scoring_a },
                Event3p::Hora { actor: actor_b, target: target_b, deltas: deltas_b, ura_markers: ura_markers_b, scoring: scoring_b },
            ) => actor_a == actor_b && target_a == target_b && array_view3(deltas_a) == array_view3(deltas_b) && markers_view(ura_markers_a) == markers_view(ura_markers_b) && scoring_a == scoring_b,
            (
                Event3p::Ryukyoku { deltas: deltas_a },
                Event3p::Ryukyoku { deltas: deltas_b },
            ) => array_view3(deltas_a) == array_view3(deltas_b),
            (Event3p::EndKyoku, Event3p::EndKyoku) => true,
            (Event3p::EndGame, Event3p::EndGame) => true,
            _ => false,
        }
    }

    /// Whether two events say the same.
    pub fn same(&self, other: &Event3p) -> (r: bool)
        ensures
            r == self.spec_same(other),
    {
        match (self, other) {
            (Event3p::Nothing, Event3p::Nothing) => true,
            (
                Event3p::StartGame { names: names_a, seed: seed_a },
                Event3p::StartGame { names: names_b, seed: seed_b },
            ) => equal_names(names_a.as_slice(), names_b.as_slice()) && *seed_a == *seed_b,
            (
                Event3p::StartKyoku { bakaze: bakaze_a, dora_marker: dora_marker_a, kyoku: kyoku_a, honba: honba_a, kyotaku: kyotaku_a, oya: oya_a, scores: scores_a, tehais: tehais_a },
                Event3p::StartKyoku { bakaze: bakaze_b, dora_marker: dora_marker_b, kyoku: kyoku_b, honba: honba_b, kyotaku: kyotaku_b, oya: oya_b, scores: scores_b, tehais: tehais_b },
            ) => *bakaze_a == *bakaze_b && *dora_marker_a == *dora_marker_b && *kyoku_a == *kyoku_b && *honba_a == *honba_b && *kyotaku_a == *kyotaku_b && *oya_a == *oya_b && equal_numbers(scores_a.as_slice(), scores_b.as_slice()) && equal_hands(tehais_a.as_slice(), tehais_b.as_slice()),
            (
                Event3p::Tsumo { actor: actor_a, pai: pai_a },
                Event3p::Tsumo { actor: actor_b, pai: pai_b },
            ) => *actor_a == *actor_b && *pai_a == *pai_b,
            (
                Event3p::DealerOpening { actor: actor_a, pai: pai_a },
                Event3p::DealerOpening { actor: actor_b, pai: pai_b },
            ) => *actor_a == *actor_b && *pai_a == *pai_b,
            (
                Event3p::Dahai { actor: actor_a, pai: pai_a, tsumogiri: tsumogiri_a },
                Event3p::Dahai { actor: actor_b, pai: pai_b, tsumogiri: tsumogiri_b },
            ) => *actor_a == *actor_b && *pai_a == *pai_b && *tsumogiri_a == *tsumogiri_b,
            (
                Event3p::DealerOpeningDahai { actor: actor_a, pai: pai_a },
                Event3p::DealerOpeningDahai { actor: actor_b, pai: pai_b },
            ) => *actor_a == *actor_b && *pai_a == *pai_b,
            (
                Event3p::SeatForcedAutoplay { actor: actor_a },
                Event3p::SeatForcedAutoplay { actor: actor_b },
            ) => *actor_a == *actor_b,
            (
                Event3p::SeatResumed { actor: actor_a },
                Event3p::SeatResumed { actor: actor_b },
            ) => *actor_a == *actor_b,
            (
                Event3p::Pon { actor: actor_a, target: target_a, pai: pai_a, consumed: consumed_a },
                Event3p::Pon { actor: actor_b, target: target_b, pai: pai_b, consumed: consumed_b },
            ) => *actor_a == *actor_b && *target_a == *target_b && *pai_a == *pai_b && equal_tiles(consumed_a.as_slice(), consumed_b.as_slice()),
            (
                Event3p::Daiminkan { actor: actor_a, target: target_a, pai: pai_a, consumed: consumed_a },
                Event3p::Daiminkan { actor: actor_b, target: target_b, pai: pai_b, consumed: consumed_b },
            ) => *actor_a == *actor_b && *target_a == *target_b && *pai_a == *pai_b && equal_tiles(consumed_a.as_slice(), consumed_b.as_slice()),
            (
                Event3p::Kakan { actor: actor_a, pai: pai_a, consumed: consumed_a },
                Event3p::Kakan { actor: actor_b, pai: pai_b, consumed: consumed_b },
            ) => *actor_a == *actor_b && *pai_a == *pai_b && equal_tiles(consumed_a.as_slice(), consumed_b.as_slice()),
            (
                Event3p::Ankan { actor: actor_a, consumed: consumed_a },
                Event3p::Ankan { actor: actor_b, consumed: consumed_b },
            ) => *actor_a == *actor_b && equal_tiles(consumed_a.as_slice(), consumed_b.as_slice()),
            (
                Event3p::Nukidora { actor: actor_a, pai: pai_a },
                Event3p::Nukidora { actor: actor_b, pai: pai_b },
            ) => *actor_a == *actor_b && *pai_a == *pai_b,
            (
                Event3p::Dora { dora_marker: dora_marker_a },
                Event3p::Dora { dora_marker: dora_marker_b },
            ) => *dora_marker_a == *dora_marker_b,
            (
                Event3p::Reach { actor: actor_a },
                Event3p::Reach { actor: actor_b },
            ) => *actor_a == *actor_b,
            (
                Event3p::ReachAccepted { actor: actor_a },
                Event3p::ReachAccepted { actor: actor_b },
            ) => *actor_a == *actor_b,
            (
                Event3p::Hora { actor: actor_a, target: target_a, deltas: deltas_a, ura_markers: ura_markers_a, scoring: scoring_a },
                Event3p::Hora { actor: actor_b, target: target_b, deltas: deltas_b, ura_markers: ura_markers_b, scoring: scoring_b },
            ) => *actor_a == *actor_b && *target_a == *target_b && equal_deltas3(deltas_a, deltas_b) && equal_markers(ura_markers_a, ura_markers_b) && *scoring_a == *scoring_b,
            (
                Event3p::Ryukyoku { deltas: deltas_a },
                Event3p::Ryukyoku { deltas: deltas_b },
            ) => equal_deltas3(deltas_a, deltas_b),
            (Event3p::EndKyoku, Event3p::EndKyoku) => true,
            (Event3p::EndGame, Event3p::EndGame) => true,
            _ => false,
        }
    }
}

} // verus!
