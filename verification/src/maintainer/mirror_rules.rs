//! What the state of a mirror says, and what each event makes of it: the next state, or why
//! the event is refused.

use vstd::prelude::*;
use crate::mahjong::calc::all_known;
use crate::mahjong::meld::Meld;
use crate::mahjong::rules::{RiichiRuleProfile, RonResolution};
use crate::mahjong::tile::Tile;
use crate::mahjong::yaku::kan_count;
use crate::maintainer::action::{PendingRobbery, RobberyKind, TurnAction};
use crate::maintainer::calc::all_closed;
use crate::maintainer::inventory::{nothing_seen, observed, observed_all, Seen};
use crate::maintainer::legal::{reactions, reactions_are_known, turn_actions, turn_is_known, Response};
use crate::maintainer::player::{
    after_discard, countable, discard_result, fresh_seat, hand_waits, marked_called, opening_result, SeatState,
};
use crate::maintainer::reconcile::MirrorQuality;
use crate::maintainer::tileset::{forbidden_after_chi, without};
use crate::maintainer::view::{OpponentFacts, OwnFacts, SeatViewError, TableFacts};
use crate::text::dec;

verus! {

/// What an issue says.
pub struct IssueFacts {
    pub event_index: u64,
    pub code: Seq<char>,
    pub detail: Seq<char>,
}

/// A riichi declared and not yet accepted.
pub struct ReachFacts {
    pub actor: u8,
    pub double_riichi: bool,
    /// Riichi discards that were legal at the declaration; none known for other seats.
    pub legal_discards: Seq<TurnAction>,
}

/// An accepted terminal result: one tsumo, or the rons on one tile.
pub enum PacketFacts {
    Tsumo { winner: u8, ura_markers: Seq<Tile> },
    Ron {
        source: u8,
        robbery: Option<RobberyKind>,
        winners: Seq<u8>,
        max_winners: u8,
        self_ron_legal_at_open: Option<bool>,
        ura_markers: Seq<Tile>,
    },
}

/// What the state of a mirror says.
pub struct MirrorFacts {
    pub seats: usize,
    pub rule_profile: RiichiRuleProfile,
    pub me: u8,
    pub bakaze: Tile,
    pub oya: u8,
    pub kyoku: u8,
    pub honba: u8,
    pub kyotaku: u8,
    pub scores: Seq<i32>,
    pub dora_indicators: Seq<Tile>,
    pub players: Seq<SeatState>,
    pub turn: u8,
    pub last_discard: Option<(u8, Tile)>,
    pub tiles_left: u32,
    pub any_call: bool,
    pub pending_rinshan_draw: bool,
    pub last_draw_was_rinshan: bool,
    pub dealer_opening: bool,
    pub pending_missed_ron: bool,
    pub pending_reach: Option<ReachFacts>,
    pub pending_robbery: Option<PendingRobbery>,
    pub terminal_packet: Option<PacketFacts>,
    pub known_tiles: Seen,
    pub started: bool,
    pub terminal: bool,
    pub quality: MirrorQuality,
    pub issues: Seq<IssueFacts>,
    pub event_index: u64,
}

/// The next state, or why the event is refused.
pub type Step = Result<MirrorFacts, Seq<char>>;

/// The seat of a discard.
pub open spec fn discard_seat(d: Option<(u8, Tile)>) -> u8 {
    match d {
        Some((seat, _)) => seat,
        None => 0,
    }
}

/// The table has three or four seats, and the hand has not started or has all of them.
pub open spec fn has_shape(c: MirrorFacts) -> bool {
    &&& c.seats == 3 || c.seats == 4
    &&& c.players.len() == 0 || (c.players.len() == c.seats && c.me < c.seats)
}

/// The state is consistent in itself.
pub open spec fn is_sound(c: MirrorFacts) -> bool {
    &&& has_shape(c)
    &&& c.scores.len() == c.seats
    &&& c.dora_indicators.len() <= 5
    &&& c.known_tiles.normal.len() == 34 && c.known_tiles.red.len() == 3
    &&& forall|i: int| 0 <= i < c.players.len() ==> (#[trigger] c.players[i]).seat == i && c.players[i].is_sanma == (c.seats == 3)
    &&& c.started ==> c.players.len() == c.seats && c.oya < c.seats && c.turn < c.seats && c.rule_profile.red_fives(
        c.seats,
    ).fault(c.seats as nat) is None
    &&& c.last_discard is Some ==> c.players.len() == c.seats && discard_seat(c.last_discard) < c.seats
    &&& c.pending_robbery is Some ==> c.players.len() == c.seats && c.pending_robbery->0.actor < c.seats
    &&& c.pending_reach is Some ==> c.players.len() == c.seats && c.pending_reach->0.actor < c.seats
    &&& c.pending_missed_ron ==> c.players.len() == c.seats
    &&& c.quality == MirrorQuality::Exact && c.players.len() > 0 ==> all_known(c.players[c.me as int].hand)
}

// Small changes.

pub open spec fn seat_text(head: Seq<char>, seat: u8, tail: Seq<char>) -> Seq<char> {
    head + dec(seat as nat) + tail
}

pub open spec fn with_issue(c: MirrorFacts, quality: MirrorQuality, code: Seq<char>, detail: Seq<char>) -> MirrorFacts {
    MirrorFacts {
        quality: if c.quality != MirrorQuality::Unsafe || quality == MirrorQuality::Unsafe { quality } else { c.quality },
        issues: c.issues.push(IssueFacts { event_index: c.event_index, code, detail }),
        ..c
    }
}

/// A mirror that has refused an event: unsafe until it is synchronized again.
pub open spec fn rejected(c: MirrorFacts, code: Seq<char>, detail: Seq<char>) -> MirrorFacts {
    with_issue(c, MirrorQuality::Unsafe, code, detail)
}

/// A mirror that lacks information; an unsafe one stays as it is.
pub open spec fn degraded(c: MirrorFacts, code: Seq<char>, detail: Seq<char>) -> MirrorFacts {
    if c.quality != MirrorQuality::Unsafe { with_issue(c, MirrorQuality::Degraded, code, detail) } else { c }
}

pub open spec fn actor_fault(c: MirrorFacts, actor: u8) -> Option<Seq<char>> {
    if actor >= c.seats {
        Some("invalid_actor: seat "@ + dec(actor as nat) + " is outside 0.."@ + dec(c.seats as nat))
    } else {
        None
    }
}

pub open spec fn active_fault(c: MirrorFacts) -> Option<Seq<char>> {
    if !c.started {
        Some("phase_error: start_kyoku has not been observed"@)
    } else if c.terminal {
        Some("phase_error: kyoku is already terminal"@)
    } else {
        None
    }
}

/// The mirror is active and the seat exists.
pub open spec fn seat_fault(c: MirrorFacts, actor: u8) -> Option<Seq<char>> {
    match active_fault(c) {
        Some(e) => Some(e),
        None => actor_fault(c, actor),
    }
}

pub open spec fn with_player(c: MirrorFacts, i: int, p: SeatState) -> MirrorFacts {
    MirrorFacts { players: c.players.update(i, p), ..c }
}

/// A seat that passed on a ron.
pub open spec fn missed_ron(s: SeatState) -> SeatState {
    SeatState {
        riichi_furiten: s.riichi || s.riichi_furiten,
        temporary_furiten: !s.riichi || s.temporary_furiten,
        ..s
    }
}

/// Closes the window of a ron that was passed on.
pub open spec fn committed(c: MirrorFacts) -> MirrorFacts {
    if c.pending_missed_ron {
        MirrorFacts {
            players: c.players.update(c.me as int, missed_ron(c.players[c.me as int])),
            pending_missed_ron: false,
            ..c
        }
    } else {
        c
    }
}

pub open spec fn no_ippatsu(c: MirrorFacts) -> MirrorFacts {
    MirrorFacts { players: c.players.map_values(|p: SeatState| SeatState { ippatsu: false, ..p }), ..c }
}

pub open spec fn is_blocked(s: SeatState) -> bool {
    s.furiten || s.temporary_furiten || s.riichi_furiten
}

/// After another seat's discard: a ron window is open for a waited tile, whether or not the
/// hand has a yaku.
pub open spec fn after_opponent_discard(c: MirrorFacts, tile: Tile) -> MirrorFacts {
    let d = committed(c);
    let me = d.players[d.me as int];
    if !is_blocked(me) && hand_waits(me.hand, me.melds, me.is_sanma).contains(tile.kind()) {
        MirrorFacts { pending_missed_ron: true, ..d }
    } else {
        d
    }
}

/// Another seat's discard can be judged: the own hand is known, or furiten anyway.
pub open spec fn can_judge_discard(c: MirrorFacts) -> bool {
    let d = committed(c);
    let me = d.players[d.me as int];
    !is_blocked(me) ==> countable(me.hand)
}

/// After a declaration that can be robbed: a ron window is open where ron is legal.
pub open spec fn after_robbery(c: MirrorFacts) -> MirrorFacts {
    let d = committed(c);
    match d.pending_robbery {
        None => d,
        Some(p) => if p.actor != d.me && reactions(core_view(d, d.me)).contains(Response::Ron) {
            MirrorFacts { pending_missed_ron: true, ..d }
        } else {
            d
        },
    }
}

pub open spec fn can_judge_robbery(c: MirrorFacts) -> bool {
    let d = committed(c);
    d.pending_robbery is Some && d.pending_robbery->0.actor != d.me ==> reactions_are_known(core_view(d, d.me))
}

/// An inventory after a tile of another seat is seen; own tiles are counted when drawn.
pub open spec fn seen_from(c: MirrorFacts, actor: u8, tiles: Seq<Tile>) -> Result<Seen, Seq<char>> {
    if actor != c.me { observed_all(c.known_tiles, tiles, c.seats, c.rule_profile) } else { Ok(c.known_tiles) }
}

// Views.

pub open spec fn total_kans(players: Seq<SeatState>) -> nat
    decreases players.len(),
{
    if players.len() == 0 { 0 } else { total_kans(players.drop_last()) + kan_count(players.last().melds) }
}

pub open spec fn kan_owners(players: Seq<SeatState>) -> nat
    decreases players.len(),
{
    if players.len() == 0 {
        0
    } else {
        kan_owners(players.drop_last()) + if kan_count(players.last().melds) > 0 { 1nat } else { 0 }
    }
}

/// Four kans by at least two players, where the rules end the hand on them.
pub open spec fn four_kans(c: MirrorFacts) -> bool {
    c.rule_profile.suukaikan && total_kans(c.players) >= 4 && kan_owners(c.players) >= 2
}

pub open spec fn opponent_of(p: SeatState, seat: int) -> OpponentFacts {
    OpponentFacts {
        seat: seat as u8,
        hand_count: (p.hand.len() % 256) as u8,
        melds: p.melds,
        discards: p.discards,
        riichi: p.riichi,
    }
}

/// The seats below `n` as another seat sees them.
pub open spec fn opponents(players: Seq<SeatState>, seat: u8, n: int) -> Seq<OpponentFacts>
    decreases n,
{
    if n <= 0 {
        Seq::empty()
    } else {
        let rest = opponents(players, seat, n - 1);
        if n - 1 == seat { rest } else { rest.push(opponent_of(players[n - 1], n - 1)) }
    }
}

/// Why a mirror gives no view of a seat.
pub open spec fn view_fault(c: MirrorFacts, seat: u8) -> Option<SeatViewError> {
    if seat >= c.seats {
        Some(SeatViewError::InvalidSeat { requested: seat, seats: c.seats as u8 })
    } else if c.players.len() == 0 {
        Some(SeatViewError::MirrorNotStarted)
    } else if c.quality == MirrorQuality::Unsafe {
        Some(SeatViewError::MirrorUnsafe)
    } else if c.quality == MirrorQuality::Degraded {
        Some(SeatViewError::MirrorDegraded)
    } else {
        None
    }
}

/// The view that a mirror gives a seat.
pub open spec fn core_view(c: MirrorFacts, seat: u8) -> TableFacts {
    match view_fault(c, seat) {
        Some(e) => TableFacts::nothing(seat, c.seats as u8, c.rule_profile, e),
        None => {
            let p = c.players[seat as int];
            let opening = c.dealer_opening && seat == c.oya;
            TableFacts {
                state_error: None,
                round_terminal: c.terminal,
                rule_profile: c.rule_profile,
                bakaze: c.bakaze,
                kyoku: c.kyoku,
                honba: c.honba,
                kyotaku: c.kyotaku,
                oya: c.oya,
                scores: c.scores,
                dora_indicators: c.dora_indicators,
                tiles_left: c.tiles_left,
                me: OwnFacts {
                    seat,
                    hand: p.hand,
                    drawn_tile: p.drawn_tile,
                    dealer_opening: opening,
                    melds: p.melds,
                    discards: p.discards,
                    riichi: p.riichi,
                    ippatsu: p.ippatsu,
                    kuikae_forbidden: p.kuikae_forbidden,
                    temporary_furiten: p.temporary_furiten,
                    riichi_furiten: p.riichi_furiten,
                },
                others: opponents(c.players, seat, c.seats as int),
                turn: c.turn,
                last_discard: c.last_discard,
                pending_robbery: c.pending_robbery,
                kyuushu_kyuuhai_window: !c.any_call && p.discards.len() == 0 && p.melds.len() == 0 && (p.drawn_tile is Some
                    || opening),
                suukaikan_pending: c.last_discard is Some && four_kans(c),
                last_draw_was_rinshan: c.last_draw_was_rinshan,
            }
        },
    }
}

/// A riichi is declared and its discard still to come.
pub open spec fn awaiting_reach(c: MirrorFacts) -> bool {
    match c.pending_reach {
        None => false,
        Some(p) => match c.last_discard {
            Some((actor, _)) => actor != p.actor,
            None => true,
        },
    }
}

/// Whether a seat should decide now.
pub open spec fn infers(c: MirrorFacts, seat: u8) -> bool {
    &&& c.quality == MirrorQuality::Exact && c.started && !c.terminal && seat < c.seats
    &&& !awaiting_reach(c)
    &&& if c.pending_robbery is Some {
        reactions(core_view(c, seat)).contains(Response::Ron)
    } else {
        match c.last_discard {
            None => c.turn == seat,
            Some((from, _)) => from != seat,
        }
    }
}

// Start and end of a hand.

/// Why a hand cannot start, or the inventory it starts with.
pub open spec fn start_check(c: MirrorFacts, oya: u8, dora_marker: Tile, my_hand: Seq<Tile>, sanma: bool) -> Result<Seen, Seq<char>> {
    if c.me >= c.seats {
        Err("invalid_mirror_seat: seat "@ + dec(c.me as nat) + " is outside 0.."@ + dec(c.seats as nat))
    } else if c.started && !c.terminal && c.quality != MirrorQuality::Unsafe {
        Err("phase_error: start_kyoku received during an active kyoku"@)
    } else if actor_fault(c, oya) is Some {
        Err(actor_fault(c, oya)->0)
    } else if !dora_marker.is_known() {
        Err("start_kyoku: dora marker cannot be unknown"@)
    } else if sanma != (c.seats == 3) {
        Err("start_kyoku: variant/player count mismatch"@)
    } else if c.rule_profile.red_fives(c.seats).fault(c.seats as nat) is Some {
        Err(c.rule_profile.red_fives(c.seats).fault(c.seats as nat)->0)
    } else {
        match observed_all(nothing_seen(), my_hand, c.seats, c.rule_profile) {
            Err(e) => Err(e),
            Ok(s) => observed(s, dora_marker, c.seats, c.rule_profile),
        }
    }
}

/// The seats at the start of a hand: the own one with its hand, the others with unknown tiles.
pub open spec fn start_players(seats: usize, me: u8, my_hand: Seq<Tile>) -> Seq<SeatState> {
    Seq::new(
        seats as nat,
        |i: int| fresh_seat(i as u8, seats == 3, if i == me { my_hand } else { Seq::new(13, |j: int| Tile::unknown()) }),
    )
}

/// The table at the start of a hand, as an event states it.
pub struct StartFacts {
    pub bakaze: Tile,
    pub dora_marker: Tile,
    pub kyoku: u8,
    pub honba: u8,
    pub kyotaku: u8,
    pub oya: u8,
    pub scores: Seq<i32>,
    pub my_hand: Seq<Tile>,
    pub tiles_left: u32,
}

pub open spec fn started(c: MirrorFacts, s: StartFacts, known: Seen) -> MirrorFacts {
    MirrorFacts {
        bakaze: s.bakaze,
        oya: s.oya,
        kyoku: s.kyoku,
        honba: s.honba,
        kyotaku: s.kyotaku,
        scores: s.scores,
        dora_indicators: seq![s.dora_marker],
        players: start_players(c.seats, c.me, s.my_hand),
        turn: s.oya,
        last_discard: None,
        tiles_left: s.tiles_left,
        any_call: false,
        pending_rinshan_draw: false,
        last_draw_was_rinshan: false,
        dealer_opening: false,
        pending_missed_ron: false,
        pending_reach: None,
        pending_robbery: None,
        terminal_packet: None,
        known_tiles: known,
        started: true,
        terminal: false,
        quality: if all_known(s.my_hand) { MirrorQuality::Exact } else { MirrorQuality::Degraded },
        issues: Seq::empty(),
        ..c
    }
}

pub open spec fn start_step(c: MirrorFacts, s: StartFacts, sanma: bool) -> Step {
    match start_check(c, s.oya, s.dora_marker, s.my_hand, sanma) {
        Err(e) => Err(e),
        Ok(known) => Ok(started(c, s, known)),
    }
}

pub open spec fn end_kyoku_step(c: MirrorFacts) -> Step {
    if !c.started || !c.terminal {
        Err("phase_error: end_kyoku before a terminal result"@)
    } else {
        Ok(MirrorFacts { pending_robbery: None, last_discard: None, terminal_packet: None, started: false, ..c })
    }
}

pub open spec fn end_game_step(c: MirrorFacts) -> Step {
    if c.started && !c.terminal {
        Err("phase_error: end_game during an active kyoku"@)
    } else {
        Ok(MirrorFacts { started: false, ..c })
    }
}

pub open spec fn start_game_step(c: MirrorFacts) -> Step {
    if c.started && !c.terminal { Err("phase_error: start_game during an active kyoku"@) } else { Ok(c) }
}

pub open spec fn autoplay_step(c: MirrorFacts, actor: u8) -> Step {
    match actor_fault(c, actor) {
        Some(e) => Err(e),
        None => Ok(c),
    }
}

// Draws.

/// The seat that draws next.
pub open spec fn next_drawer(c: MirrorFacts) -> u8 {
    match c.pending_robbery {
        Some(p) => p.actor,
        None => match c.last_discard {
            Some((from, _)) => ((from + 1) % c.seats as int) as u8,
            None => c.turn,
        },
    }
}

pub open spec fn own_tile(c: MirrorFacts, actor: u8, pai: Tile) -> Tile {
    if actor == c.me { pai } else { Tile::unknown() }
}

/// The inventory after a draw: own tiles are counted, others are not seen.
pub open spec fn seen_drawn(c: MirrorFacts, actor: u8, pai: Tile) -> Result<Seen, Seq<char>> {
    if actor == c.me { observed(c.known_tiles, pai, c.seats, c.rule_profile) } else { Ok(c.known_tiles) }
}

pub open spec fn tsumo_fault(c: MirrorFacts, actor: u8) -> Option<Seq<char>> {
    if seat_fault(c, actor) is Some {
        seat_fault(c, actor)
    } else if c.dealer_opening {
        Some("phase_error: dealer opening must be resolved before another draw"@)
    } else if actor != next_drawer(c) {
        Some("phase_error: expected seat "@ + dec(next_drawer(c) as nat) + " to draw, got "@ + dec(actor as nat))
    } else if c.players[actor as int].drawn_tile is Some {
        Some(seat_text("duplicate_draw: seat "@, actor, " already has a drawn tile"@))
    } else {
        None
    }
}

/// The windows before a draw are closed.
pub open spec fn windows_closed(c: MirrorFacts) -> MirrorFacts {
    let d = committed(c);
    if d.pending_robbery is Some { no_ippatsu(MirrorFacts { pending_robbery: None, ..d }) } else { d }
}

/// The tile joins the hand.
pub open spec fn draw_placed(c: MirrorFacts, actor: u8, t: Tile) -> MirrorFacts {
    let p = c.players[actor as int];
    MirrorFacts {
        players: c.players.update(actor as int, SeatState { hand: p.hand.push(t), drawn_tile: Some(t), ..p }),
        turn: actor,
        last_discard: None,
        ..c
    }
}

/// The tile leaves the wall. A draw from an empty wall is not refused, as the count may be off
/// when an event was lost; the mirror is degraded.
pub open spec fn draw_counted(c: MirrorFacts, actor: u8) -> MirrorFacts {
    let d = if c.tiles_left == 0 {
        degraded(
            c,
            "draw_from_empty_wall"@,
            seat_text("seat "@, actor, " drew while the live wall is already empty"@),
        )
    } else {
        c
    };
    MirrorFacts {
        tiles_left: if d.tiles_left == 0 { 0 } else { (d.tiles_left - 1) as u32 },
        last_draw_was_rinshan: d.pending_rinshan_draw,
        pending_rinshan_draw: false,
        ..d
    }
}

/// A draw that closes the windows before it.
pub open spec fn drawn(c: MirrorFacts, actor: u8, pai: Tile, known: Seen) -> MirrorFacts {
    let d = draw_counted(
        draw_placed(windows_closed(MirrorFacts { known_tiles: known, ..c }), actor, own_tile(c, actor, pai)),
        actor,
    );
    if actor == c.me && !pai.is_known() {
        degraded(d, "unknown_self_draw"@, seat_text("seat "@, actor, " draw is hidden from its own mirror"@))
    } else {
        d
    }
}

pub open spec fn tsumo_step(c: MirrorFacts, actor: u8, pai: Tile) -> Step {
    match tsumo_fault(c, actor) {
        Some(e) => Err(e),
        None => match seen_drawn(c, actor, pai) {
            Err(e) => Err(e),
            Ok(known) => Ok(drawn(c, actor, pai, known)),
        },
    }
}

/// A seat that has done nothing yet.
pub open spec fn is_untouched(p: SeatState) -> bool {
    p.discards.len() == 0 && p.melds.len() == 0 && p.drawn_tile is None
}

pub open spec fn opening_fault(c: MirrorFacts, actor: u8) -> Option<Seq<char>> {
    if seat_fault(c, actor) is Some {
        seat_fault(c, actor)
    } else if actor != c.oya || actor != c.turn || c.last_discard is Some || c.pending_robbery is Some || c.dealer_opening
        || !(forall|i: int| 0 <= i < c.players.len() ==> is_untouched(#[trigger] c.players[i]))
        || c.players[actor as int].hand.len() != 13 {
        Some("phase_error: dealer_opening is only valid before the dealer's first action"@)
    } else {
        None
    }
}

/// The dealer's 14th tile joins the hand.
pub open spec fn opened(c: MirrorFacts, actor: u8, pai: Tile, known: Seen) -> MirrorFacts {
    let p = c.players[actor as int];
    let c1 = MirrorFacts {
        known_tiles: known,
        players: c.players.update(actor as int, SeatState { hand: p.hand.push(own_tile(c, actor, pai)), ..p }),
        tiles_left: if c.tiles_left == 0 { 0 } else { (c.tiles_left - 1) as u32 },
        dealer_opening: true,
        ..c
    };
    if actor == c.me && !pai.is_known() {
        degraded(
            c1,
            "unknown_self_dealer_opening"@,
            seat_text("seat "@, actor, " dealer opening tile is hidden from its own mirror"@),
        )
    } else {
        c1
    }
}

pub open spec fn opening_step(c: MirrorFacts, actor: u8, pai: Tile) -> Step {
    match opening_fault(c, actor) {
        Some(e) => Err(e),
        None => match seen_drawn(c, actor, pai) {
            Err(e) => Err(e),
            Ok(known) => Ok(opened(c, actor, pai, known)),
        },
    }
}

// Discards.

/// A riichi discard in words.
pub open spec fn action_text(a: TurnAction) -> Seq<char> {
    match a {
        TurnAction::Riichi { tile, tsumogiri } => "Riichi { tile: "@ + tile.spec_name() + ", tsumogiri: "@ + (if tsumogiri {
            "true"@
        } else {
            "false"@
        }) + " }"@,
        TurnAction::DealerOpeningRiichi { tile } => "DealerOpeningRiichi { tile: "@ + tile.spec_name() + " }"@,
        _ => Seq::empty(),
    }
}

/// A discard contradicts a declared riichi.
pub open spec fn reach_fault(c: MirrorFacts, actor: u8, action: TurnAction) -> Option<Seq<char>> {
    match c.pending_reach {
        None => None,
        Some(p) => if p.actor != actor {
            Some(
                "phase_error: waiting for seat "@ + dec(p.actor as nat) + " riichi discard, got seat "@ + dec(
                    actor as nat,
                ),
            )
        } else if actor == c.me && !p.legal_discards.contains(action) {
            Some(
                "illegal_reach_discard: declaration discard is not in the frozen legal set: "@ + action_text(action),
            )
        } else {
            None
        },
    }
}

pub open spec fn declared_by(c: MirrorFacts, actor: u8) -> bool {
    c.pending_reach is Some && c.pending_reach->0.actor == actor
}

/// The riichi of a seat takes effect with its discard.
pub open spec fn reach_committed(c: MirrorFacts, actor: u8) -> MirrorFacts {
    if declared_by(c, actor) {
        with_player(
            c,
            actor as int,
            SeatState {
                riichi: true,
                double_riichi: c.pending_reach->0.double_riichi,
                ippatsu: true,
                ..c.players[actor as int]
            },
        )
    } else {
        c
    }
}

/// The first unknown tile of a hand is taken away.
pub open spec fn without_unknown(hand: Seq<Tile>) -> Seq<Tile> {
    without(hand, Tile::unknown())
}

/// A seat whose hidden tile becomes a discard.
pub open spec fn revealed_discard(p: SeatState, pai: Tile) -> SeatState {
    SeatState {
        hand: without_unknown(p.hand),
        drawn_tile: None,
        discards: p.discards.push(pai),
        temporary_furiten: false,
        kuikae_forbidden: Seq::empty(),
        ..p
    }
}

/// The seat after its discard.
pub open spec fn discarder(c: MirrorFacts, actor: u8, pai: Tile, tsumogiri: bool) -> Result<SeatState, Seq<char>> {
    let p = c.players[actor as int];
    if actor == c.me {
        match discard_result(p, pai, tsumogiri) {
            Err(e) => Err("dahai: "@ + e),
            Ok(hand) => Ok(after_discard(p, hand, pai)),
        }
    } else if tsumogiri && p.drawn_tile is None {
        Err(seat_text("dahai: seat "@, actor, " reports tsumogiri without a draw"@))
    } else if !p.hand.contains(Tile::unknown()) {
        Err(seat_text("dahai: seat "@, actor, " has no unknown tile to remove"@))
    } else {
        Ok(revealed_discard(p, pai))
    }
}

/// The table after a discard, before it is judged.
pub open spec fn discard_placed(c: MirrorFacts, actor: u8, pai: Tile, p: SeatState, known: Seen) -> MirrorFacts {
    MirrorFacts {
        known_tiles: known,
        players: c.players.update(
            actor as int,
            if declared_by(c, actor) { p } else { SeatState { ippatsu: false, ..p } },
        ),
        turn: actor,
        last_discard: Some((actor, pai)),
        last_draw_was_rinshan: false,
        dealer_opening: false,
        ..c
    }
}

/// The table after a discard is judged.
pub open spec fn discard_judged(c: MirrorFacts, actor: u8, pai: Tile) -> MirrorFacts {
    reach_committed(
        if actor == c.me { MirrorFacts { pending_missed_ron: false, ..c } } else { after_opponent_discard(c, pai) },
        actor,
    )
}

pub open spec fn dahai_fault(c: MirrorFacts, actor: u8, pai: Tile, tsumogiri: bool) -> Option<Seq<char>> {
    if seat_fault(c, actor) is Some {
        seat_fault(c, actor)
    } else if c.dealer_opening {
        Some("phase_error: dealer opening discard requires dealer_opening_dahai"@)
    } else if actor != c.turn || c.last_discard is Some || c.pending_robbery is Some {
        Some(seat_text("phase_error: seat "@, actor, " cannot discard in the current phase"@))
    } else {
        reach_fault(c, actor, TurnAction::Riichi { tile: pai, tsumogiri })
    }
}

/// The table after a discard, before it is judged, or why the discard is refused.
pub open spec fn dahai_placed(c: MirrorFacts, actor: u8, pai: Tile, tsumogiri: bool) -> Step {
    match dahai_fault(c, actor, pai, tsumogiri) {
        Some(e) => Err(e),
        None => match seen_from(c, actor, seq![pai]) {
            Err(e) => Err(e),
            Ok(known) => match discarder(c, actor, pai, tsumogiri) {
                Err(e) => Err(e),
                Ok(p) => Ok(discard_placed(c, actor, pai, p, known)),
            },
        },
    }
}

pub open spec fn dahai_step(c: MirrorFacts, actor: u8, pai: Tile, tsumogiri: bool) -> Step {
    match dahai_placed(c, actor, pai, tsumogiri) {
        Err(e) => Err(e),
        Ok(d) => Ok(discard_judged(d, actor, pai)),
    }
}

/// A discard can be told: the hand left is known, or another seat's discard can be judged.
pub open spec fn dahai_known(c: MirrorFacts, actor: u8, pai: Tile, tsumogiri: bool) -> bool {
    dahai_fault(c, actor, pai, tsumogiri) is None ==> if actor == c.me {
        discard_result(c.players[actor as int], pai, tsumogiri) is Ok ==> countable(
            discard_result(c.players[actor as int], pai, tsumogiri)->Ok_0,
        )
    } else {
        dahai_placed(c, actor, pai, tsumogiri) is Ok ==> can_judge_discard(dahai_placed(c, actor, pai, tsumogiri)->Ok_0)
    }
}

pub open spec fn opening_discarder(c: MirrorFacts, actor: u8, pai: Tile) -> Result<SeatState, Seq<char>> {
    let p = c.players[actor as int];
    if actor == c.me {
        match opening_result(p, pai) {
            Err(e) => Err("dealer_opening_dahai: "@ + e),
            Ok(hand) => Ok(after_discard(p, hand, pai)),
        }
    } else if !p.hand.contains(Tile::unknown()) {
        Err("dealer_opening_dahai: dealer has no concealed tile to remove"@)
    } else {
        Ok(SeatState { drawn_tile: p.drawn_tile, ..revealed_discard(p, pai) })
    }
}

pub open spec fn opening_dahai_fault(c: MirrorFacts, actor: u8, pai: Tile) -> Option<Seq<char>> {
    if seat_fault(c, actor) is Some {
        seat_fault(c, actor)
    } else if !c.dealer_opening || actor != c.oya || actor != c.turn || c.last_discard is Some || c.pending_robbery is Some {
        Some("phase_error: dealer_opening_dahai outside dealer opening window"@)
    } else {
        reach_fault(c, actor, TurnAction::DealerOpeningRiichi { tile: pai })
    }
}

pub open spec fn opening_dahai_placed(c: MirrorFacts, actor: u8, pai: Tile) -> Step {
    match opening_dahai_fault(c, actor, pai) {
        Some(e) => Err(e),
        None => match seen_from(c, actor, seq![pai]) {
            Err(e) => Err(e),
            Ok(known) => match opening_discarder(c, actor, pai) {
                Err(e) => Err(e),
                Ok(p) => Ok(discard_placed(c, actor, pai, p, known)),
            },
        },
    }
}

pub open spec fn opening_dahai_step(c: MirrorFacts, actor: u8, pai: Tile) -> Step {
    match opening_dahai_placed(c, actor, pai) {
        Err(e) => Err(e),
        Ok(d) => Ok(discard_judged(d, actor, pai)),
    }
}

pub open spec fn opening_dahai_known(c: MirrorFacts, actor: u8, pai: Tile) -> bool {
    opening_dahai_fault(c, actor, pai) is None ==> if actor == c.me {
        opening_result(c.players[actor as int], pai) is Ok ==> countable(
            opening_result(c.players[actor as int], pai)->Ok_0,
        )
    } else {
        opening_dahai_placed(c, actor, pai) is Ok ==> can_judge_discard(opening_dahai_placed(c, actor, pai)->Ok_0)
    }
}

// Calls.

/// A hand without some tiles, or the first of them that is missing.
pub open spec fn taken(hand: Seq<Tile>, tiles: Seq<Tile>) -> Result<Seq<Tile>, Tile>
    decreases tiles.len(),
{
    if tiles.len() == 0 {
        Ok(hand)
    } else {
        match taken(hand, tiles.drop_last()) {
            Err(t) => Err(t),
            Ok(h) => if h.contains(tiles.last()) { Ok(without(h, tiles.last())) } else { Err(tiles.last()) },
        }
    }
}

pub open spec fn count_unknown(hand: Seq<Tile>) -> nat
    decreases hand.len(),
{
    if hand.len() == 0 {
        0
    } else {
        count_unknown(hand.drop_last()) + if hand.last() == Tile::unknown() { 1nat } else { 0 }
    }
}

pub open spec fn drop_unknown(hand: Seq<Tile>, n: nat) -> Seq<Tile>
    decreases n,
{
    if n == 0 { hand } else { without_unknown(drop_unknown(hand, (n - 1) as nat)) }
}

/// The seat after the tiles of a call are taken from its hand: exact tiles from the own hand,
/// unknown ones from another's.
pub open spec fn consumed_from(c: MirrorFacts, actor: u8, tiles: Seq<Tile>) -> Result<SeatState, Seq<char>> {
    let p = c.players[actor as int];
    if actor == c.me {
        match taken(p.hand, tiles) {
            Err(t) => Err("consume: seat "@ + dec(actor as nat) + " missing tile "@ + t.spec_name()),
            Ok(hand) => Ok(SeatState { hand, drawn_tile: None, ..p }),
        }
    } else if count_unknown(p.hand) < tiles.len() {
        Err("consume: seat "@ + dec(actor as nat) + " missing unknown tile (need "@ + dec(tiles.len()) + ")"@)
    } else {
        Ok(SeatState { hand: drop_unknown(p.hand, tiles.len()), drawn_tile: None, ..p })
    }
}

pub open spec fn call_fault(c: MirrorFacts, actor: u8, target: u8, pai: Tile, chi: bool) -> Option<Seq<char>> {
    if seat_fault(c, actor) is Some {
        seat_fault(c, actor)
    } else if actor_fault(c, target) is Some {
        actor_fault(c, target)
    } else if actor == target || c.last_discard != Some((target, pai)) {
        Some("call_window_mismatch: target/tile does not match last discard"@)
    } else if chi && (target + 1) % c.seats as int != actor {
        Some("illegal_chi_direction: only the next seat may chi"@)
    } else {
        None
    }
}

/// The table after a call: the caller's meld laid out, the discard marked as called.
pub open spec fn call_laid(c: MirrorFacts, actor: u8, target: u8, caller: SeatState, kan: bool) -> Step {
    let players = c.players.update(actor as int, caller);
    if players[target as int].discards.len() == 0 {
        Err("no discard to mark as called"@)
    } else {
        Ok(
            no_ippatsu(
                MirrorFacts {
                    players: players.update(target as int, marked_called(players[target as int])),
                    turn: actor,
                    last_discard: None,
                    any_call: true,
                    pending_rinshan_draw: kan || c.pending_rinshan_draw,
                    last_draw_was_rinshan: false,
                    ..c
                },
            ),
        )
    }
}

/// The caller of a meld: its tiles taken from hand, the meld laid out.
pub open spec fn caller_of(c: MirrorFacts, actor: u8, tiles: Seq<Tile>, meld: Meld, forbidden: Seq<usize>, kan: bool) -> Result<SeatState, Seq<char>> {
    match consumed_from(c, actor, tiles) {
        Err(e) => Err(e),
        Ok(p) => Ok(
            SeatState {
                melds: p.melds.push(meld),
                kuikae_forbidden: if kan { p.kuikae_forbidden } else { forbidden },
                ..p
            },
        ),
    }
}

/// The table after a call.
pub open spec fn called(c: MirrorFacts, actor: u8, target: u8, tiles: Seq<Tile>, meld: Meld, forbidden: Seq<usize>, kan: bool, known: Seen) -> Step {
    let d = committed(MirrorFacts { known_tiles: known, ..c });
    match caller_of(d, actor, tiles, meld, forbidden, kan) {
        Err(e) => Err(e),
        Ok(caller) => call_laid(d, actor, target, caller, kan),
    }
}

pub open spec fn min_kind(a: int, b: int, c: int) -> int {
    if a <= b && a <= c { a } else if b <= c { b } else { c }
}

pub open spec fn max_kind(a: int, b: int, c: int) -> int {
    if a >= b && a >= c { a } else if b >= c { b } else { c }
}

/// Three kinds form a sequence.
pub open spec fn is_run(a: int, b: int, c: int) -> bool {
    let lo = min_kind(a, b, c);
    let hi = max_kind(a, b, c);
    let mid = a + b + c - lo - hi;
    lo < 27 && lo / 9 == hi / 9 && lo + 1 == mid && mid + 1 == hi
}

/// Three tiles by ascending kind.
pub open spec fn in_kind_order(a: Tile, b: Tile, c: Tile) -> [Tile; 3] {
    if a.kind() <= b.kind() {
        if b.kind() <= c.kind() {
            [a, b, c]
        } else if a.kind() <= c.kind() {
            [a, c, b]
        } else {
            [c, a, b]
        }
    } else if a.kind() <= c.kind() {
        [b, a, c]
    } else if b.kind() <= c.kind() {
        [b, c, a]
    } else {
        [c, b, a]
    }
}

pub open spec fn chi_step(c: MirrorFacts, actor: u8, target: u8, pai: Tile, consumed: [Tile; 2]) -> Step {
    let a = consumed@[0];
    let b = consumed@[1];
    match call_fault(c, actor, target, pai, true) {
        Some(e) => Err(e),
        None => if !is_run(a.kind() as int, b.kind() as int, pai.kind() as int) {
            Err("chi: consumed tiles do not form a sequence"@)
        } else {
            match seen_from(c, actor, consumed@) {
                Err(e) => Err(e),
                Ok(known) => called(
                    c,
                    actor,
                    target,
                    consumed@,
                    Meld::Chi { tiles: in_kind_order(a, b, pai), called: pai, from: target },
                    if c.rule_profile.kuikae_forbidden { forbidden_after_chi(pai, a, b) } else { Seq::empty() },
                    false,
                    known,
                ),
            }
        },
    }
}

pub open spec fn all_of_kind(tiles: Seq<Tile>, k: usize) -> bool {
    forall|i: int| 0 <= i < tiles.len() ==> (#[trigger] tiles[i]).kind() == k
}

pub open spec fn pon_step(c: MirrorFacts, actor: u8, target: u8, pai: Tile, consumed: [Tile; 2]) -> Step {
    match call_fault(c, actor, target, pai, false) {
        Some(e) => Err(e),
        None => if !all_of_kind(consumed@, pai.kind()) {
            Err("pon: consumed tiles do not match called tile"@)
        } else {
            match seen_from(c, actor, consumed@) {
                Err(e) => Err(e),
                Ok(known) => called(
                    c,
                    actor,
                    target,
                    consumed@,
                    Meld::Pon { tile: pai.deaka(), called: pai, consumed, from: target },
                    if c.rule_profile.kuikae_forbidden { seq![pai.kind()] } else { Seq::empty() },
                    false,
                    known,
                ),
            }
        },
    }
}

pub open spec fn daiminkan_step(c: MirrorFacts, actor: u8, target: u8, pai: Tile, consumed: [Tile; 3]) -> Step {
    match call_fault(c, actor, target, pai, false) {
        Some(e) => Err(e),
        None => if !all_of_kind(consumed@, pai.kind()) {
            Err("daiminkan: consumed tiles do not match called tile"@)
        } else {
            match seen_from(c, actor, consumed@) {
                Err(e) => Err(e),
                Ok(known) => called(
                    c,
                    actor,
                    target,
                    consumed@,
                    Meld::Daiminkan { tile: pai.deaka(), called: pai, from: target },
                    Seq::empty(),
                    true,
                    known,
                ),
            }
        },
    }
}

// Declarations on one's own turn.

pub open spec fn turn_fault(c: MirrorFacts, actor: u8, text: Seq<char>) -> Option<Seq<char>> {
    if seat_fault(c, actor) is Some {
        seat_fault(c, actor)
    } else if actor != c.turn || c.last_discard is Some || c.pending_robbery is Some {
        Some(text)
    } else {
        None
    }
}

/// Place of the first pon of a kind, the number of melds where there is none.
pub open spec fn pon_at(melds: Seq<Meld>, k: usize) -> int
    decreases melds.len(),
{
    if melds.len() == 0 {
        0
    } else {
        match melds[0] {
            Meld::Pon { tile, .. } => if tile.kind() == k { 0 } else { 1 + pon_at(melds.drop_first(), k) },
            _ => 1 + pon_at(melds.drop_first(), k),
        }
    }
}

/// Three tiles are the same, in whatever order.
pub open spec fn same_three(a: Seq<Tile>, b: Seq<Tile>) -> bool {
    (a[0] == b[0] && a[1] == b[1] && a[2] == b[2]) || (a[0] == b[0] && a[1] == b[2] && a[2] == b[1]) || (a[0] == b[1] && a[1]
        == b[0] && a[2] == b[2]) || (a[0] == b[1] && a[1] == b[2] && a[2] == b[0]) || (a[0] == b[2] && a[1] == b[0] && a[2]
        == b[1]) || (a[0] == b[2] && a[1] == b[1] && a[2] == b[0])
}

/// The table after a declaration that can be robbed, before it is judged.
pub open spec fn declared(c: MirrorFacts, actor: u8, caller: SeatState, known: Seen, robbery: PendingRobbery, closes_opening: bool) -> MirrorFacts {
    MirrorFacts {
        known_tiles: known,
        players: c.players.update(actor as int, caller),
        turn: actor,
        last_discard: None,
        any_call: true,
        dealer_opening: c.dealer_opening && !closes_opening,
        pending_rinshan_draw: true,
        last_draw_was_rinshan: false,
        pending_robbery: Some(robbery),
        ..c
    }
}

pub open spec fn kakan_placed(c: MirrorFacts, actor: u8, pai: Tile, consumed: [Tile; 3]) -> Step {
    match turn_fault(c, actor, "phase_error: kakan outside the actor turn"@) {
        Some(e) => Err(e),
        None => {
            let melds = c.players[actor as int].melds;
            let at = pon_at(melds, pai.kind());
            if at >= melds.len() {
                Err("kakan: seat "@ + dec(actor as nat) + " has no matching pon for "@ + pai.spec_name())
            } else if !same_three(melds[at].spec_tiles(), consumed@) {
                Err("kakan: consumed tiles do not match the original pon"@)
            } else {
                match seen_from(c, actor, seq![pai]) {
                    Err(e) => Err(e),
                    Ok(known) => match consumed_from(c, actor, seq![pai]) {
                        Err(e) => Err(e),
                        Ok(p) => Ok(
                            declared(
                                c,
                                actor,
                                SeatState {
                                    melds: p.melds.update(at, Meld::Kakan { tile: pai.deaka(), added: pai }),
                                    ..p
                                },
                                known,
                                PendingRobbery { actor, tile: pai, kind: RobberyKind::Kakan },
                                false,
                            ),
                        ),
                    },
                }
            }
        },
    }
}

pub open spec fn ankan_placed(c: MirrorFacts, actor: u8, consumed: [Tile; 4]) -> Step {
    match turn_fault(c, actor, "phase_error: ankan outside the actor turn"@) {
        Some(e) => Err(e),
        None => if !all_of_kind(consumed@, consumed@[0].kind()) {
            Err("ankan: consumed tiles must have one kind"@)
        } else {
            match seen_from(c, actor, consumed@) {
                Err(e) => Err(e),
                Ok(known) => match consumed_from(c, actor, consumed@) {
                    Err(e) => Err(e),
                    Ok(p) => Ok(
                        declared(
                            c,
                            actor,
                            SeatState { melds: p.melds.push(Meld::Ankan { tile: consumed@[0].deaka() }), ..p },
                            known,
                            PendingRobbery { actor, tile: consumed@[0].deaka(), kind: RobberyKind::Ankan },
                            true,
                        ),
                    ),
                },
            }
        },
    }
}

pub open spec fn nukidora_placed(c: MirrorFacts, actor: u8, pai: Tile) -> Step {
    match turn_fault(c, actor, "phase_error: nukidora outside the actor turn"@) {
        Some(e) => Err(e),
        None => if pai.kind() != 30 {
            Err("nukidora: only north may be extracted"@)
        } else {
            match seen_from(c, actor, seq![pai]) {
                Err(e) => Err(e),
                Ok(known) => match consumed_from(c, actor, seq![pai]) {
                    Err(e) => Err(e),
                    Ok(p) => Ok(
                        declared(
                            c,
                            actor,
                            SeatState { melds: p.melds.push(Meld::Nukidora { tile: pai.deaka() }), ..p },
                            known,
                            PendingRobbery { actor, tile: pai, kind: RobberyKind::Nukidora },
                            true,
                        ),
                    ),
                },
            }
        },
    }
}

/// A declaration that was placed is judged.
pub open spec fn robbery_step(placed: Step) -> Step {
    match placed {
        Err(e) => Err(e),
        Ok(d) => Ok(after_robbery(d)),
    }
}

pub open spec fn robbery_known(placed: Step) -> bool {
    placed is Ok ==> can_judge_robbery(placed->Ok_0)
}

/// The riichi discards among turn actions.
pub open spec fn riichi_only(s: Seq<TurnAction>) -> Seq<TurnAction>
    decreases s.len(),
{
    if s.len() == 0 {
        s
    } else if s.last() is Riichi || s.last() is DealerOpeningRiichi {
        riichi_only(s.drop_last()).push(s.last())
    } else {
        riichi_only(s.drop_last())
    }
}

/// Another seat meets the public conditions of riichi: a drawn tile, closed, not declared yet,
/// and a stick to put down.
pub open spec fn may_declare(c: MirrorFacts, actor: u8) -> bool {
    let p = c.players[actor as int];
    (p.drawn_tile is Some || (c.dealer_opening && actor == c.oya)) && all_closed(p.melds) && !p.riichi && c.scores[actor as int]
        >= 1000
}

pub open spec fn reach_step(c: MirrorFacts, actor: u8) -> Step {
    if seat_fault(c, actor) is Some {
        Err(seat_fault(c, actor)->0)
    } else if actor != c.turn || c.last_discard is Some || c.pending_robbery is Some || c.pending_reach is Some {
        Err("phase_error: reach outside a turn decision"@)
    } else {
        let legal = if actor == c.me { riichi_only(turn_actions(core_view(c, actor))) } else { Seq::empty() };
        if actor == c.me && legal.len() == 0 {
            Err("illegal_reach: no legal riichi discard exists"@)
        } else if actor != c.me && !may_declare(c, actor) {
            Err("illegal_reach: public prerequisites are not met"@)
        } else {
            Ok(
                MirrorFacts {
                    pending_reach: Some(
                        ReachFacts {
                            actor,
                            double_riichi: (forall|i: int|
                                0 <= i < c.players.len() ==> (#[trigger] c.players[i]).melds.len() == 0)
                                && c.players[actor as int].discards.len() == 0,
                            legal_discards: legal,
                        },
                    ),
                    ..c
                },
            )
        }
    }
}

pub open spec fn reach_known(c: MirrorFacts, actor: u8) -> bool {
    seat_fault(c, actor) is None && actor == c.me ==> turn_is_known(core_view(c, actor))
}

pub open spec fn reach_accepted_step(c: MirrorFacts, actor: u8) -> Step {
    if seat_fault(c, actor) is Some {
        Err(seat_fault(c, actor)->0)
    } else if !declared_by(c, actor) || !(c.last_discard is Some && discard_seat(c.last_discard) == actor) {
        Err("phase_error: reach_accepted without matching declaration discard"@)
    } else if c.scores[actor as int] < 1000 {
        Err("illegal_reach_acceptance: score below 1000"@)
    } else {
        Ok(
            MirrorFacts {
                scores: c.scores.update(actor as int, (c.scores[actor as int] - 1000) as i32),
                kyotaku: (c.kyotaku + 1) as u8,
                pending_reach: None,
                ..c
            },
        )
    }
}

pub open spec fn dora_step(c: MirrorFacts, marker: Tile) -> Step {
    if active_fault(c) is Some {
        Err(active_fault(c)->0)
    } else if !marker.is_known() {
        Err("dora: public marker cannot be unknown"@)
    } else if c.dora_indicators.len() >= 5 {
        Err("dora: cannot reveal more than "@ + dec(5) + " indicators"@)
    } else {
        match observed(c.known_tiles, marker, c.seats, c.rule_profile) {
            Err(e) => Err(e),
            Ok(known) => Ok(MirrorFacts { known_tiles: known, dora_indicators: c.dora_indicators.push(marker), ..c }),
        }
    }
}

// Results.

/// Scores after deltas.
pub open spec fn with_deltas(scores: Seq<i32>, deltas: Option<Seq<i32>>) -> Seq<i32> {
    match deltas {
        None => scores,
        Some(d) => Seq::new(scores.len(), |i: int| (scores[i] + d[i]) as i32),
    }
}

/// Scores after deltas are still scores.
pub open spec fn deltas_fit(scores: Seq<i32>, deltas: Option<Seq<i32>>) -> bool {
    deltas is Some && deltas->0.len() == scores.len() ==> forall|i: int|
        0 <= i < scores.len() ==> i32::MIN <= #[trigger] scores[i] + deltas->0[i] <= i32::MAX
}

pub open spec fn ryukyoku_step(c: MirrorFacts, deltas: Option<Seq<i32>>) -> Step {
    if active_fault(c) is Some {
        Err(active_fault(c)->0)
    } else if deltas is Some && deltas->0.len() != c.seats {
        Err("ryukyoku: delta width does not match seat count"@)
    } else {
        let d = committed(MirrorFacts { scores: with_deltas(c.scores, deltas), ..c });
        Ok(
            MirrorFacts {
                turn: match d.last_discard {
                    Some((from, _)) => ((from + 1) % d.seats as int) as u8,
                    None => d.turn,
                },
                last_discard: None,
                pending_robbery: None,
                terminal_packet: None,
                terminal: true,
                ..d
            },
        )
    }
}

/// Most winners of one ron.
pub open spec fn max_winners(c: MirrorFacts) -> u8 {
    match c.rule_profile.ron_resolution {
        RonResolution::AtamaHane => 1,
        RonResolution::Multiple => (c.seats - 1) as u8,
        RonResolution::TripleRonAbortive => 2,
    }
}

pub open spec fn robbery_fault(c: MirrorFacts, kind: RobberyKind) -> Option<Seq<char>> {
    match kind {
        RobberyKind::Kakan => None,
        RobberyKind::Ankan => if c.rule_profile.kokushi_ankan_ron {
            None
        } else {
            Some("hora: current profile does not allow robbing an ankan"@)
        },
        RobberyKind::Nukidora => if c.rule_profile.nukidora_ron {
            None
        } else {
            Some("hora: current profile does not allow robbing nukidora"@)
        },
    }
}

/// What a win says of the ura markers agrees with what was said before; new ones are seen.
pub open spec fn merged_ura(c: MirrorFacts, existing: Seq<Tile>, incoming: Option<Seq<Tile>>) -> Result<(Seq<Tile>, Seen), Seq<char>> {
    match incoming {
        None => Ok((existing, c.known_tiles)),
        Some(markers) => if markers.len() == 0 {
            Ok((existing, c.known_tiles))
        } else if existing.len() > 0 {
            if existing != markers {
                Err("hora: ura markers changed inside one result packet"@)
            } else {
                Ok((existing, c.known_tiles))
            }
        } else {
            match observed_all(c.known_tiles, markers, c.seats, c.rule_profile) {
                Err(e) => Err(e),
                Ok(known) => Ok((markers, known)),
            }
        },
    }
}

/// What is wrong with a win as such: its seats, its deltas, its ura markers.
pub open spec fn hora_fault(c: MirrorFacts, actor: u8, target: u8, deltas: Option<Seq<i32>>, ura: Option<Seq<Tile>>) -> Option<Seq<char>> {
    if !c.started {
        Some("phase_error: hora before start_kyoku"@)
    } else if actor_fault(c, actor) is Some {
        actor_fault(c, actor)
    } else if actor_fault(c, target) is Some {
        actor_fault(c, target)
    } else if deltas is Some && deltas->0.len() != c.seats {
        Some("hora: delta width does not match seat count"@)
    } else if ura is Some && ura->0.len() == 0 {
        Some("hora: explicit ura marker list cannot be empty"@)
    } else if ura is Some && !c.players[actor as int].riichi {
        Some("hora: explicit ura markers require a riichi winner"@)
    } else if ura is Some && ura->0.len() != c.dora_indicators.len() {
        Some(
            "hora: ura marker count "@ + dec(ura->0.len()) + " does not match "@ + dec(c.dora_indicators.len())
                + " visible dora indicators"@,
        )
    } else if c.last_discard is Some && c.pending_robbery is Some {
        Some("hora: discard and robbery response windows overlap"@)
    } else {
        None
    }
}

/// The tile that can be won on: its seat, and the declaration it belongs to.
pub open spec fn response_window(c: MirrorFacts) -> Option<(u8, Option<RobberyKind>)> {
    match c.last_discard {
        Some((source, _)) => Some((source, None)),
        None => match c.pending_robbery {
            Some(p) => Some((p.actor, Some(p.kind))),
            None => None,
        },
    }
}

/// Whether ron is legal for the own seat, as far as an exact mirror can tell.
pub open spec fn own_ron(c: MirrorFacts) -> Option<bool> {
    if c.quality == MirrorQuality::Exact { Some(reactions(core_view(c, c.me)).contains(Response::Ron)) } else { None }
}

/// A result packet with the inventory after it, and whether it closes a response window.
pub type Packet = (PacketFacts, Seen, bool);

/// A further winner of one ron.
pub open spec fn joined_packet(c: MirrorFacts, p: PacketFacts, actor: u8, target: u8, ura: Option<Seq<Tile>>) -> Result<Packet, Seq<char>> {
    match p {
        PacketFacts::Tsumo { .. } => Err("hora: no result may follow a tsumo packet"@),
        PacketFacts::Ron { source, robbery, winners, max_winners: limit, self_ron_legal_at_open, ura_markers } => {
            if actor == target {
                Err("hora: tsumo cannot be mixed into a ron packet"@)
            } else if target != source {
                Err("hora: target changed inside one ron packet"@)
            } else if actor == source {
                Err("hora: ron source cannot also be a winner"@)
            } else if winners.contains(actor) {
                Err("hora: duplicate winner inside one ron packet"@)
            } else if winners.len() >= limit {
                Err("hora: ron packet exceeds profile winner limit "@ + dec(limit as nat))
            } else if limit != max_winners(c) {
                Err("hora: stored ron packet limit disagrees with profile"@)
            } else if actor == c.me && self_ron_legal_at_open == Some(false) {
                Err("hora: exact mirror proves self ron was illegal at response-window open"@)
            } else {
                match merged_ura(c, ura_markers, ura) {
                    Err(e) => Err(e),
                    Ok((markers, known)) => Ok(
                        (
                            PacketFacts::Ron {
                                source,
                                robbery,
                                winners: winners.push(actor),
                                max_winners: limit,
                                self_ron_legal_at_open,
                                ura_markers: markers,
                            },
                            known,
                            false,
                        ),
                    ),
                }
            }
        },
    }
}

/// A seat wins by its own draw, or in the dealer's opening.
pub open spec fn can_win_by_draw(c: MirrorFacts, actor: u8) -> bool {
    actor == c.turn && (c.players[actor as int].drawn_tile is Some || (c.dealer_opening && actor == c.oya))
}

/// The first winner of a ron.
pub open spec fn ron_packet(c: MirrorFacts, actor: u8, target: u8, markers: Seq<Tile>, known: Seen) -> Result<Packet, Seq<char>> {
    match response_window(c) {
        None => Err("hora: ron has no pending discard or robbery source"@),
        Some((source, robbery)) => if target != source {
            Err("hora: target does not match the pending response source"@)
        } else if actor == source {
            Err("hora: ron source cannot also be a winner"@)
        } else if robbery is Some && robbery_fault(c, robbery->0) is Some {
            Err(robbery_fault(c, robbery->0)->0)
        } else if actor == c.me && own_ron(c) == Some(false) {
            Err("hora: exact mirror proves self ron is not a legal reaction"@)
        } else {
            Ok(
                (
                    PacketFacts::Ron {
                        source,
                        robbery,
                        winners: seq![actor],
                        max_winners: max_winners(c),
                        self_ron_legal_at_open: own_ron(c),
                        ura_markers: markers,
                    },
                    known,
                    true,
                ),
            )
        },
    }
}

/// The first result of a hand.
pub open spec fn first_packet(c: MirrorFacts, actor: u8, target: u8, ura: Option<Seq<Tile>>) -> Result<Packet, Seq<char>> {
    if c.terminal {
        Err("phase_error: additional hora outside a result packet"@)
    } else {
        match merged_ura(c, Seq::empty(), ura) {
            Err(e) => Err(e),
            Ok((markers, known)) => if actor == target {
                if response_window(c) is Some {
                    Err("hora: tsumo cannot occur during a response window"@)
                } else if !can_win_by_draw(c, actor) {
                    Err("hora: tsumo requires a draw or dealer opening window"@)
                } else if actor == c.me && c.quality == MirrorQuality::Exact && !turn_actions(core_view(c, actor)).contains(
                    TurnAction::Tsumo,
                ) {
                    Err("hora: exact mirror proves self tsumo is not a legal action"@)
                } else {
                    Ok((PacketFacts::Tsumo { winner: actor, ura_markers: markers }, known, false))
                }
            } else {
                ron_packet(c, actor, target, markers, known)
            },
        }
    }
}

pub open spec fn next_packet(c: MirrorFacts, actor: u8, target: u8, ura: Option<Seq<Tile>>) -> Result<Packet, Seq<char>> {
    match c.terminal_packet {
        Some(p) => joined_packet(c, p, actor, target, ura),
        None => first_packet(c, actor, target, ura),
    }
}

/// A riichi whose discard is won on does not come about.
pub open spec fn reach_withdrawn(c: MirrorFacts, target: u8) -> MirrorFacts {
    if declared_by(c, target) {
        MirrorFacts {
            players: c.players.update(
                target as int,
                SeatState { riichi: false, double_riichi: false, ippatsu: false, ..c.players[target as int] },
            ),
            pending_reach: None,
            ..c
        }
    } else {
        c
    }
}

/// The table after a win.
pub open spec fn won(c: MirrorFacts, target: u8, deltas: Option<Seq<i32>>, p: Packet) -> MirrorFacts {
    let d = reach_withdrawn(c, target);
    MirrorFacts {
        scores: with_deltas(d.scores, deltas),
        pending_missed_ron: false,
        pending_robbery: if p.2 { None } else { d.pending_robbery },
        known_tiles: p.1,
        terminal_packet: Some(p.0),
        terminal: true,
        ..d
    }
}

pub open spec fn hora_step(c: MirrorFacts, actor: u8, target: u8, deltas: Option<Seq<i32>>, ura: Option<Seq<Tile>>) -> Step {
    match hora_fault(c, actor, target, deltas, ura) {
        Some(e) => Err(e),
        None => match next_packet(c, actor, target, ura) {
            Err(e) => Err(e),
            Ok(p) => Ok(won(c, target, deltas, p)),
        },
    }
}

/// A win can be told: the deltas leave scores, and what an exact mirror checks is known.
pub open spec fn hora_known(c: MirrorFacts, actor: u8, target: u8, deltas: Option<Seq<i32>>, ura: Option<Seq<Tile>>) -> bool {
    hora_fault(c, actor, target, deltas, ura) is None ==> {
        &&& deltas_fit(c.scores, deltas)
        &&& c.terminal_packet is None && !c.terminal && c.quality == MirrorQuality::Exact ==> {
            &&& actor == target && actor == c.me && can_win_by_draw(c, actor) && response_window(c) is None ==> turn_is_known(
                core_view(c, actor),
            )
            &&& actor != target && response_window(c) is Some ==> reactions_are_known(core_view(c, c.me))
        }
    }
}

} // verus!
