//! Legal action enumeration: the lists from which a decision maker chooses by index. Variant
//! differences follow from the number of seats in the view.

use vstd::prelude::*;
use crate::mahjong::agari::{is_win, winning_kinds, winning_tiles_for, with_tile};
use crate::mahjong::calc::all_known;
use crate::mahjong::decompose::{is_kokushi, is_thirteen_orphans};
use crate::mahjong::hand::{count_kind, kinds_below, TileCounts};
use crate::mahjong::meld::Meld;
use crate::mahjong::rules::RiichiAnkanRule;
use crate::mahjong::shanten::{is_yaochuu_index, shanten_for, shanten_value, yaochuu_kinds, AGARI, TENPAI};
use crate::mahjong::tile::Tile;
use crate::mahjong::yaku::{clone_melds, count_group_melds, kan_count};
use crate::maintainer::action::{ReactionAction, RobberyKind, TurnAction};
use crate::maintainer::calc::{all_closed, melds_all_closed};
use crate::maintainer::player::{
    any_kind_in, count_tiles, countable, counts_of, lemma_countable, open_groups, waits_discarded, PlayerState,
};
use crate::maintainer::scoring::{can_settle, settle, settlement, ScoringFacts, ScoringInput};
use crate::maintainer::tileset::{
    call_leaves_legal_discard, chi_combos, chi_pairs, clone_tiles, forbidden_after_chi, has_kind, kuikae_forbidden_after_chi,
    leaves_discard, pair_views, pairs_below, pon_pair_combos, Pair,
};
use crate::maintainer::view::{OpponentFacts, SeatView, TableFacts};

verus! {

// Counts over the table.

pub open spec fn others_kans(others: Seq<OpponentFacts>) -> nat
    decreases others.len(),
{
    if others.len() == 0 { 0 } else { others_kans(others.drop_last()) + kan_count(others.last().melds) }
}

/// Kans declared at the table.
pub open spec fn declared_kans(v: TableFacts) -> nat {
    kan_count(v.me.melds) + others_kans(v.others)
}

/// Number of nukidora among melds.
pub open spec fn nuki_count(melds: Seq<Meld>) -> nat
    decreases melds.len(),
{
    if melds.len() == 0 { 0 } else { nuki_count(melds.drop_last()) + if melds.last() is Nukidora { 1nat } else { 0 } }
}

pub open spec fn others_nuki(others: Seq<OpponentFacts>) -> nat
    decreases others.len(),
{
    if others.len() == 0 { 0 } else { others_nuki(others.drop_last()) + nuki_count(others.last().melds) }
}

/// Norths set aside at the table.
pub open spec fn public_nuki(v: TableFacts) -> nat {
    nuki_count(v.me.melds) + others_nuki(v.others)
}

pub fn count_kans_up_to(melds: &Vec<Meld>, limit: usize) -> (n: usize)
    ensures
        n == if kan_count(melds@) < limit { kan_count(melds@) } else { limit as nat },
{
    let mut n: usize = 0;
    let mut i: usize = 0;
    while i < melds.len()
        invariant
            i <= melds.len(),
            n <= limit,
            n == if kan_count(melds@.subrange(0, i as int)) < limit {
                kan_count(melds@.subrange(0, i as int))
            } else {
                limit as nat
            },
        decreases melds.len() - i,
    {
        assert(melds@.subrange(0, i + 1).drop_last() =~= melds@.subrange(0, i as int));
        if melds[i].is_kan() && n < limit {
            n = n + 1;
        }
        i = i + 1;
    }
    assert(melds@.subrange(0, i as int) =~= melds@);
    n
}

/// Whether fewer than four kans have been declared at the table.
fn room_for_kan(view: &SeatView) -> (r: bool)
    ensures
        r == (declared_kans(view@) < 4),
{
    let mut n: usize = count_kans_up_to(&view.me.melds, 4);
    let ghost own = kan_count(view.me.melds@);
    let mut i: usize = 0;
    assert(view@.others.subrange(0, 0) =~= Seq::empty());
    while i < view.others.len()
        invariant
            i <= view.others.len(),
            own == kan_count(view.me.melds@),
            n == if own + others_kans(view@.others.subrange(0, i as int)) < 4 {
                own + others_kans(view@.others.subrange(0, i as int))
            } else {
                4
            },
        decreases view.others.len() - i,
    {
        assert(view@.others.subrange(0, i + 1).drop_last() =~= view@.others.subrange(0, i as int));
        assert(view@.others[i as int] == view.others@[i as int]@);
        n = n + count_kans_up_to(&view.others[i].melds, 4 - n);
        i = i + 1;
    }
    assert(view@.others.subrange(0, i as int) =~= view@.others);
    n < 4
}

fn count_nuki_up_to(melds: &Vec<Meld>, limit: usize) -> (n: usize)
    ensures
        n == if nuki_count(melds@) < limit { nuki_count(melds@) } else { limit as nat },
{
    let mut n: usize = 0;
    let mut i: usize = 0;
    while i < melds.len()
        invariant
            i <= melds.len(),
            n <= limit,
            n == if nuki_count(melds@.subrange(0, i as int)) < limit {
                nuki_count(melds@.subrange(0, i as int))
            } else {
                limit as nat
            },
        decreases melds.len() - i,
    {
        assert(melds@.subrange(0, i + 1).drop_last() =~= melds@.subrange(0, i as int));
        if matches!(melds[i], Meld::Nukidora { .. }) && n < limit {
            n = n + 1;
        }
        i = i + 1;
    }
    assert(melds@.subrange(0, i as int) =~= melds@);
    n
}

/// Number of nukidora among melds.
pub fn count_nuki(melds: &Vec<Meld>) -> (n: usize)
    ensures
        n == nuki_count(melds@),
{
    let mut n: usize = 0;
    let mut i: usize = 0;
    while i < melds.len()
        invariant
            i <= melds.len(),
            n <= i,
            n == nuki_count(melds@.subrange(0, i as int)),
        decreases melds.len() - i,
    {
        assert(melds@.subrange(0, i + 1).drop_last() =~= melds@.subrange(0, i as int));
        if matches!(melds[i], Meld::Nukidora { .. }) {
            n = n + 1;
        }
        i = i + 1;
    }
    assert(melds@.subrange(0, i as int) =~= melds@);
    n
}

fn room_for_nuki(view: &SeatView) -> (r: bool)
    ensures
        r == (public_nuki(view@) < 4),
{
    let mut n: usize = count_nuki_up_to(&view.me.melds, 4);
    let ghost own = nuki_count(view.me.melds@);
    let mut i: usize = 0;
    assert(view@.others.subrange(0, 0) =~= Seq::empty());
    while i < view.others.len()
        invariant
            i <= view.others.len(),
            own == nuki_count(view.me.melds@),
            n == if own + others_nuki(view@.others.subrange(0, i as int)) < 4 {
                own + others_nuki(view@.others.subrange(0, i as int))
            } else {
                4
            },
        decreases view.others.len() - i,
    {
        assert(view@.others.subrange(0, i + 1).drop_last() =~= view@.others.subrange(0, i as int));
        assert(view@.others[i as int] == view.others@[i as int]@);
        n = n + count_nuki_up_to(&view.others[i].melds, 4 - n);
        i = i + 1;
    }
    assert(view@.others.subrange(0, i as int) =~= view@.others);
    n < 4
}

// Winning.

/// Seats at the table as a byte.
pub open spec fn seat_count(v: TableFacts) -> int {
    (v.others.len() + 1) as int % 256
}

/// The wind of a seat, counted from the dealer.
pub open spec fn seat_wind_of(oya: u8, seat: u8, seats: int) -> Tile {
    Tile::of(27 + (seat + seats - oya) % seats)
}

/// The seats give a wind.
pub open spec fn has_seat_wind(oya: u8, seat: u8, seats: int) -> bool {
    0 < seats && seat + seats <= 255 && oya <= seat + seats && (seat + seats - oya) % seats <= 10
}

/// The view of a seat with a hand and a winning tile, as settlement sees it.
pub open spec fn view_win(v: TableFacts, hand: Seq<Tile>, win: Tile, tsumo: bool, tenhou: bool, chankan: bool) -> ScoringFacts {
    ScoringFacts {
        rule_profile: v.rule_profile,
        hand,
        melds: v.me.melds,
        menzen: all_closed(v.me.melds),
        win_tile: win,
        is_tsumo: tsumo,
        bakaze: v.bakaze,
        jikaze: seat_wind_of(v.oya, v.me.seat, seat_count(v)),
        is_oya: v.me.seat == v.oya,
        dora_indicators: v.dora_indicators,
        ura_indicators: Seq::empty(),
        riichi: v.me.riichi,
        double_riichi: false,
        ippatsu: v.me.ippatsu,
        haitei: tsumo && v.tiles_left == 0,
        houtei: !tsumo && v.tiles_left == 0,
        rinshan: tsumo && v.last_draw_was_rinshan,
        chankan,
        tenhou,
        chiihou: false,
        nuki_count: (nuki_count(v.me.melds) % 256) as u8,
        is_sanma: v.is_sanma(),
    }
}

/// A win has a yaku.
#[verifier::opaque]
pub open spec fn scores(s: ScoringFacts) -> bool {
    settlement(s) is Some
}

fn seat_wind(oya: u8, seat: u8, seats: u8) -> (t: Tile)
    requires
        has_seat_wind(oya, seat, seats as int),
    ensures
        t == seat_wind_of(oya, seat, seats as int),
{
    let offset: u8 = (seat + seats - oya) % seats;
    Tile::from_id_unchecked(27 + offset)
}

/// Whether a hand with a winning tile has a yaku.
fn win_scores(view: &SeatView, hand: Vec<Tile>, win_tile: Tile, is_tsumo: bool, tenhou: bool, chankan: bool) -> (r: bool)
    requires
        has_seat_wind(view.oya, view.me.seat, seat_count(view@)),
        view.others@.len() < usize::MAX,
        can_settle(view_win(view@, hand@, win_tile, is_tsumo, tenhou, chankan)),
    ensures
        r == scores(view_win(view@, hand@, win_tile, is_tsumo, tenhou, chankan)),
{
    let menzen = melds_all_closed(&view.me.melds);
    let mut player = PlayerState::new(view.me.seat, [Tile::unknown(); 13]);
    player.hand = hand;
    player.melds = clone_melds(&view.me.melds);
    player.riichi = view.me.riichi;
    player.menzen = menzen;
    let seats: u8 = ((view.others.len() + 1) % 256) as u8;
    let no_ura: Vec<Tile> = Vec::new();
    let input = ScoringInput {
        rule_profile: view.rule_profile,
        player: &player,
        win_tile,
        is_tsumo,
        bakaze: view.bakaze,
        jikaze: seat_wind(view.oya, view.me.seat, seats),
        is_oya: view.me.seat == view.oya,
        dora_indicators: view.dora_indicators.as_slice(),
        ura_indicators: no_ura.as_slice(),
        riichi: view.me.riichi,
        double_riichi: false,
        ippatsu: view.me.ippatsu,
        haitei: is_tsumo && view.tiles_left == 0,
        houtei: !is_tsumo && view.tiles_left == 0,
        rinshan: is_tsumo && view.last_draw_was_rinshan,
        chankan,
        tenhou,
        chiihou: false,
        nuki_count: (count_nuki(&view.me.melds) % 256) as u8,
        is_sanma: view.others.len() == 2,
    };
    assert(no_ura@ =~= Seq::empty());
    assert(input@ == view_win(view@, hand@, win_tile, is_tsumo, tenhou, chankan));
    proof { reveal(scores); }
    settle(&input).is_some()
}

/// The win by tsumo on a tile of the hand.
pub open spec fn tsumo_win(v: TableFacts, win: Tile, tenhou: bool) -> ScoringFacts {
    view_win(v, v.me.hand, win, true, tenhou, false)
}

/// The hand wins by tsumo with a yaku: on its last tile, or in the dealer's opening on any.
pub open spec fn tsumo_scores(v: TableFacts) -> bool {
    if v.me.dealer_opening {
        exists|i: int| 0 <= i < v.me.hand.len() && scores(tsumo_win(v, #[trigger] v.me.hand[i], true))
    } else {
        v.me.hand.len() > 0 && scores(tsumo_win(v, v.me.hand.last(), false))
    }
}

/// Tsumo can be settled.
pub open spec fn tsumo_can_settle(v: TableFacts) -> bool {
    &&& has_seat_wind(v.oya, v.me.seat, seat_count(v))
    &&& v.me.dealer_opening ==> forall|i: int|
        0 <= i < v.me.hand.len() ==> can_settle(tsumo_win(v, #[trigger] v.me.hand[i], true))
    &&& !v.me.dealer_opening ==> can_settle(tsumo_win(v, v.me.hand.last(), false))
}

fn can_tsumo_agari(view: &SeatView) -> (r: bool)
    requires
        view.me.hand@.len() > 0,
        view.others@.len() < usize::MAX,
        tsumo_can_settle(view@),
    ensures
        r == tsumo_scores(view@),
{
    if view.me.dealer_opening {
        let mut i: usize = 0;
        while i < view.me.hand.len()
            invariant
                i <= view.me.hand.len(),
                view.me.dealer_opening,
                view.others@.len() < usize::MAX,
                tsumo_can_settle(view@),
                forall|j: int| 0 <= j < i ==> !scores(tsumo_win(view@, #[trigger] view.me.hand@[j], true)),
            decreases view.me.hand.len() - i,
        {
            let t = view.me.hand[i];
            assert(can_settle(tsumo_win(view@, view.me.hand@[i as int], true)));
            if win_scores(view, clone_tiles(&view.me.hand), t, true, true, false) {
                assert(scores(tsumo_win(view@, view.me.hand@[i as int], true)));
                return true;
            }
            i = i + 1;
        }
        return false;
    }
    let last = view.me.hand[view.me.hand.len() - 1];
    win_scores(view, clone_tiles(&view.me.hand), last, true, false, false)
}

// Turn actions.

/// The seat is to act on a hand of 3n + 2 tiles.
pub open spec fn is_to_act(v: TableFacts) -> bool {
    &&& v.is_live()
    &&& v.me.hand.len() > 0
    &&& v.turn == v.me.seat
    &&& v.last_discard is None
    &&& v.pending_robbery is None
    &&& v.me.hand.len() + open_groups(v.me.melds) * 3 == 14
}

/// A tile was just drawn, or the dealer's opening is on. Declarations need it; after a call
/// there are discards only.
pub open spec fn has_drawn(v: TableFacts) -> bool {
    v.me.drawn_tile is Some || v.me.dealer_opening
}

pub open spec fn action_if(cond: bool, a: TurnAction) -> Seq<TurnAction> {
    if cond { seq![a] } else { Seq::empty() }
}

pub open spec fn is_complete_view(v: TableFacts) -> bool {
    is_win(counts_of(v.me.hand), open_groups(v.me.melds), v.is_sanma())
}

pub open spec fn can_tsumo(v: TableFacts) -> bool {
    has_drawn(v) && is_complete_view(v) && tsumo_scores(v)
}

/// Nine kinds of terminals and honors in the first turn's window.
pub open spec fn can_kyuushu(v: TableFacts) -> bool {
    has_drawn(v) && v.kyuushu_kyuuhai_window && yaochuu_kinds(counts_of(v.me.hand)) >= 9
}

/// A North can be set aside: three seats, a tile left for the replacement draw, fewer than
/// four Norths aside; in riichi only one just drawn.
pub open spec fn can_nuki(v: TableFacts) -> bool {
    &&& has_drawn(v)
    &&& v.is_sanma()
    &&& v.tiles_left > 0
    &&& public_nuki(v) < 4
    &&& count_kind(v.me.hand, 30) > 0
    &&& v.me.riichi ==> v.me.drawn_tile is Some && v.me.drawn_tile->0.kind() == 30
}

/// Kans can be declared: a tile was drawn, one is left, and fewer than four kans are declared.
pub open spec fn can_kan(v: TableFacts) -> bool {
    has_drawn(v) && v.tiles_left > 0 && declared_kans(v) < 4
}

/// The counts with fewer tiles of a kind.
pub open spec fn less(c: Seq<u8>, k: int, n: int) -> Seq<u8> {
    c.update(k, (c[k] - n) as u8)
}

/// A closed kan in riichi: with the drawn fourth tile, where it leaves the waits as they were.
pub open spec fn riichi_ankan_ok(v: TableFacts, k: int) -> bool {
    let c = counts_of(v.me.hand);
    let open = open_groups(v.me.melds);
    let before = winning_kinds(less(c, k, 1), open, v.is_sanma());
    &&& v.rule_profile.riichi_ankan == RiichiAnkanRule::DrawnFourthAndWaitsUnchanged
    &&& v.me.hand.last().kind() == k
    &&& before.len() > 0
    &&& winning_kinds(less(c, k, 4), (open + 1) as u8, v.is_sanma()) == before
}

/// A kind of which a closed kan can be declared.
pub open spec fn ankan_ok(v: TableFacts, k: int) -> bool {
    counts_of(v.me.hand)[k] == 4 && (v.me.riichi ==> riichi_ankan_ok(v, k))
}

pub open spec fn ankans(v: TableFacts) -> Seq<TurnAction> {
    kinds_below(34, |k: int| ankan_ok(v, k)).map_values(|k: usize| TurnAction::Ankan { tile: Tile::of(k as int) })
}

/// The first tile of a kind in hand.
pub open spec fn first_of_kind(hand: Seq<Tile>, k: int) -> Option<Tile>
    decreases hand.len(),
{
    if hand.len() == 0 { None } else if hand[0].kind() == k { Some(hand[0]) } else { first_of_kind(hand.drop_first(), k) }
}

/// Added kans, one for each pon whose fourth tile is in hand.
pub open spec fn kakans(hand: Seq<Tile>, melds: Seq<Meld>) -> Seq<TurnAction>
    decreases melds.len(),
{
    if melds.len() == 0 {
        Seq::empty()
    } else {
        let rest = kakans(hand, melds.drop_last());
        match melds.last() {
            Meld::Pon { tile, .. } => match first_of_kind(hand, tile.kind() as int) {
                Some(t) => rest.push(TurnAction::Kakan { tile: t }),
                None => rest,
            },
            _ => rest,
        }
    }
}

/// Whether the last tile of the hand is the drawn one.
pub open spec fn drawn_is_last(hand: Seq<Tile>, drawn: Option<Tile>) -> bool {
    hand.len() > 0 && drawn == Some(hand.last())
}

/// The known tiles of a list, each once, by first appearance.
pub open spec fn distinct_known(s: Seq<Tile>) -> Seq<Tile>
    decreases s.len(),
{
    if s.len() == 0 {
        Seq::empty()
    } else {
        let t = distinct_known(s.drop_last());
        if s.last().id() < 37 && !t.contains(s.last()) { t.push(s.last()) } else { t }
    }
}

/// A discard: the tile, and whether it is the drawn one.
pub type Candidate = (Tile, bool);

/// The discards from hand, and that of the drawn tile.
pub open spec fn candidates(hand: Seq<Tile>, drawn: Option<Tile>) -> Seq<Candidate> {
    let cut = if drawn_is_last(hand, drawn) { hand.drop_last() } else { hand };
    let from_hand = distinct_known(cut).map_values(|t: Tile| (t, false));
    if drawn_is_last(hand, drawn) { from_hand.push((hand.last(), true)) } else { from_hand }
}

/// A candidate is not of a forbidden kind and, in riichi, is the drawn tile.
pub open spec fn candidate_ok(v: TableFacts, c: Candidate) -> bool {
    !v.me.kuikae_forbidden.contains(c.0.kind()) && (v.me.riichi ==> c.1)
}

pub open spec fn kept(v: TableFacts, s: Seq<Candidate>) -> Seq<Candidate>
    decreases s.len(),
{
    if s.len() == 0 {
        Seq::empty()
    } else if candidate_ok(v, s.last()) {
        kept(v, s.drop_last()).push(s.last())
    } else {
        kept(v, s.drop_last())
    }
}

pub open spec fn discard_action(v: TableFacts, c: Candidate) -> TurnAction {
    if v.me.dealer_opening {
        TurnAction::DealerOpeningDiscard { tile: c.0 }
    } else {
        TurnAction::Discard { tile: c.0, tsumogiri: c.1 }
    }
}

pub open spec fn riichi_action(v: TableFacts, c: Candidate) -> TurnAction {
    if v.me.dealer_opening {
        TurnAction::DealerOpeningRiichi { tile: c.0 }
    } else {
        TurnAction::Riichi { tile: c.0, tsumogiri: c.1 }
    }
}

/// Riichi can be declared at all: after a draw, closed, not yet declared, with a stick to put
/// down and a draw to come.
pub open spec fn can_riichi(v: TableFacts) -> bool {
    &&& has_drawn(v)
    &&& all_closed(v.me.melds)
    &&& !v.me.riichi
    &&& v.me.seat < v.scores.len() && v.scores[v.me.seat as int] >= 1000
    &&& v.rule_profile.no_draw_riichi || v.tiles_left >= (v.others.len() + 1) as int % 0x1_0000_0000
}

/// A discard leaves the hand in tenpai.
pub open spec fn leaves_tenpai(v: TableFacts, c: Candidate) -> bool {
    shanten_value(less(counts_of(v.me.hand), c.0.kind() as int, 1), open_groups(v.me.melds), v.is_sanma()) == TENPAI
}

pub open spec fn riichis(v: TableFacts, s: Seq<Candidate>) -> Seq<TurnAction>
    decreases s.len(),
{
    if s.len() == 0 {
        Seq::empty()
    } else if leaves_tenpai(v, s.last()) {
        riichis(v, s.drop_last()).push(riichi_action(v, s.last()))
    } else {
        riichis(v, s.drop_last())
    }
}

pub open spec fn kans_of(v: TableFacts) -> Seq<TurnAction> {
    if can_kan(v) { ankans(v) + kakans(v.me.hand, v.me.melds) } else { Seq::empty() }
}

/// The discards that a view allows.
pub open spec fn discards_of_view(v: TableFacts) -> Seq<Candidate> {
    kept(v, candidates(v.me.hand, v.me.drawn_tile))
}

/// The turn actions that the rules allow.
pub open spec fn turn_actions(v: TableFacts) -> Seq<TurnAction> {
    if is_to_act(v) {
        action_if(can_tsumo(v), TurnAction::Tsumo)
            + action_if(can_kyuushu(v), TurnAction::KyuushuKyuuhai)
            + action_if(can_nuki(v), TurnAction::Nukidora)
            + kans_of(v)
            + discards_of_view(v).map_values(|c: Candidate| discard_action(v, c))
            + if can_riichi(v) { riichis(v, discards_of_view(v)) } else { Seq::empty() }
    } else {
        Seq::empty()
    }
}

/// The list can be made: the hand is known, and a complete hand can be settled.
pub open spec fn turn_is_known(v: TableFacts) -> bool {
    is_to_act(v) ==> all_known(v.me.hand) && (has_drawn(v) && is_complete_view(v) ==> tsumo_can_settle(v))
}

fn push_action(out: &mut Vec<TurnAction>, cond: bool, a: TurnAction)
    ensures
        final(out)@ == old(out)@ + action_if(cond, a),
{
    let ghost before = out@;
    if cond {
        out.push(a);
    }
    assert(out@ =~= before + action_if(cond, a));
}

fn count_yaochuu(counts: &TileCounts) -> (n: usize)
    ensures
        n == yaochuu_kinds(counts@),
{
    let mut n: usize = 0;
    let mut i: usize = 0;
    while i < 34
        invariant
            i <= 34,
            n <= i,
            n == yaochuu_kinds(counts@.subrange(0, i as int)),
        decreases 34 - i,
    {
        assert(counts@.subrange(0, i + 1).drop_last() =~= counts@.subrange(0, i as int));
        if is_yaochuu_index(i) && counts.0[i] >= 1 {
            n = n + 1;
        }
        i = i + 1;
    }
    assert(counts@.subrange(0, 34) =~= counts@);
    n
}

fn same_kinds(a: &Vec<usize>, b: &Vec<usize>) -> (r: bool)
    ensures
        r == (a@ == b@),
{
    if a.len() != b.len() {
        return false;
    }
    let mut i: usize = 0;
    while i < a.len()
        invariant
            i <= a.len(),
            a.len() == b.len(),
            forall|j: int| 0 <= j < i ==> a@[j] == b@[j],
        decreases a.len() - i,
    {
        if a[i] != b[i] {
            return false;
        }
        i = i + 1;
    }
    assert(a@ =~= b@);
    true
}

fn can_riichi_ankan(view: &SeatView, counts: &TileCounts, open: u8, k: usize) -> (r: bool)
    requires
        k < 34,
        view.me.hand@.len() > 0,
        counts@ == counts_of(view.me.hand@),
        counts@[k as int] == 4,
        open == open_groups(view.me.melds@),
        open < 255,
    ensures
        r == riichi_ankan_ok(view@, k as int),
{
    match view.rule_profile.riichi_ankan_rule() {
        RiichiAnkanRule::Forbidden => return false,
        RiichiAnkanRule::DrawnFourthAndWaitsUnchanged => {},
    }
    let last = view.me.hand[view.me.hand.len() - 1];
    if last.kind() != k {
        return false;
    }
    let sanma = view.others.len() == 2;
    let mut before_draw = *counts;
    before_draw.0[k] = 3;
    assert(before_draw@ =~= less(counts@, k as int, 1));
    let waits_before = winning_tiles_for(&before_draw, open, sanma);
    if waits_before.len() == 0 {
        return false;
    }
    let mut after_kan = *counts;
    after_kan.0[k] = 0;
    assert(after_kan@ =~= less(counts@, k as int, 4));
    let waits_after = winning_tiles_for(&after_kan, open + 1, sanma);
    same_kinds(&waits_after, &waits_before)
}

fn push_ankans(out: &mut Vec<TurnAction>, view: &SeatView, counts: &TileCounts, open: u8)
    requires
        view.me.hand@.len() > 0,
        counts@ == counts_of(view.me.hand@),
        open == open_groups(view.me.melds@),
        open < 255,
    ensures
        final(out)@ == old(out)@ + ankans(view@),
{
    let ghost p = |k: int| ankan_ok(view@, k);
    let ghost f = |k: usize| TurnAction::Ankan { tile: Tile::of(k as int) };
    let ghost before = out@;
    let mut k: usize = 0;
    assert(before =~= before + kinds_below(0, p).map_values(f));
    while k < 34
        invariant
            k <= 34,
            view.me.hand@.len() > 0,
            counts@ == counts_of(view.me.hand@),
            open == open_groups(view.me.melds@),
            open < 255,
            p == (|k: int| ankan_ok(view@, k)),
            f == (|k: usize| TurnAction::Ankan { tile: Tile::of(k as int) }),
            out@ == before + kinds_below(k as nat, p).map_values(f),
        decreases 34 - k,
    {
        let ok = counts.0[k] == 4 && (!view.me.riichi || can_riichi_ankan(view, counts, open, k));
        assert(ok == p(k as int));
        if ok {
            out.push(TurnAction::Ankan { tile: Tile::from_id_unchecked(k as u8) });
            assert(out@ =~= before + kinds_below((k + 1) as nat, p).map_values(f));
        }
        k = k + 1;
    }
}

fn find_of_kind(hand: &Vec<Tile>, k: usize) -> (r: Option<Tile>)
    ensures
        r == first_of_kind(hand@, k as int),
{
    let mut i: usize = 0;
    assert(hand@.subrange(0, hand@.len() as int) =~= hand@);
    while i < hand.len()
        invariant
            i <= hand.len(),
            first_of_kind(hand@, k as int) == first_of_kind(hand@.subrange(i as int, hand@.len() as int), k as int),
        decreases hand.len() - i,
    {
        assert(hand@.subrange(i as int, hand@.len() as int).drop_first() =~= hand@.subrange(i + 1, hand@.len() as int));
        if hand[i].kind() == k {
            return Some(hand[i]);
        }
        i = i + 1;
    }
    None
}

fn push_kakans(out: &mut Vec<TurnAction>, hand: &Vec<Tile>, melds: &Vec<Meld>)
    ensures
        final(out)@ == old(out)@ + kakans(hand@, melds@),
{
    let ghost before = out@;
    let mut i: usize = 0;
    assert(before =~= before + kakans(hand@, melds@.subrange(0, 0)));
    while i < melds.len()
        invariant
            i <= melds.len(),
            out@ == before + kakans(hand@, melds@.subrange(0, i as int)),
        decreases melds.len() - i,
    {
        let ghost s = melds@.subrange(0, i + 1);
        assert(s.drop_last() =~= melds@.subrange(0, i as int));
        match &melds[i] {
            Meld::Pon { tile, .. } => match find_of_kind(hand, tile.kind()) {
                Some(t) => out.push(TurnAction::Kakan { tile: t }),
                None => {},
            },
            _ => {},
        }
        assert(out@ =~= before + kakans(hand@, s));
        i = i + 1;
    }
    assert(melds@.subrange(0, i as int) =~= melds@);
}

fn has_tile(v: &Vec<Tile>, t: Tile) -> (r: bool)
    ensures
        r == v@.contains(t),
{
    let mut i: usize = 0;
    while i < v.len()
        invariant
            i <= v.len(),
            forall|j: int| 0 <= j < i ==> v@[j] != t,
        decreases v.len() - i,
    {
        if v[i] == t {
            assert(v@.contains(t));
            return true;
        }
        i = i + 1;
    }
    false
}

fn distinct_tiles(hand: &Vec<Tile>, end: usize) -> (r: Vec<Tile>)
    requires
        end <= hand.len(),
    ensures
        r@ == distinct_known(hand@.subrange(0, end as int)),
{
    let mut r: Vec<Tile> = Vec::new();
    let mut i: usize = 0;
    assert(hand@.subrange(0, 0) =~= Seq::empty());
    while i < end
        invariant
            i <= end <= hand.len(),
            r@ == distinct_known(hand@.subrange(0, i as int)),
        decreases end - i,
    {
        assert(hand@.subrange(0, i + 1).drop_last() =~= hand@.subrange(0, i as int));
        let t = hand[i];
        if t.id() < 37 && !has_tile(&r, t) {
            r.push(t);
        }
        i = i + 1;
    }
    r
}

fn discard_candidates(hand: &Vec<Tile>, drawn: Option<Tile>) -> (out: Vec<Candidate>)
    requires
        hand@.len() > 0,
    ensures
        out@ == candidates(hand@, drawn),
{
    let last = hand[hand.len() - 1];
    let drawn_last = drawn == Some(last);
    let end: usize = if drawn_last { hand.len() - 1 } else { hand.len() };
    let tiles = distinct_tiles(hand, end);
    assert(hand@.subrange(0, hand@.len() as int) =~= hand@);
    assert(hand@.subrange(0, hand@.len() - 1) =~= hand@.drop_last());
    let ghost from_hand = tiles@.map_values(|t: Tile| (t, false));
    let mut out: Vec<Candidate> = Vec::new();
    let mut i: usize = 0;
    while i < tiles.len()
        invariant
            i <= tiles.len(),
            from_hand == tiles@.map_values(|t: Tile| (t, false)),
            out@ == from_hand.subrange(0, i as int),
        decreases tiles.len() - i,
    {
        out.push((tiles[i], false));
        assert(out@ =~= from_hand.subrange(0, i + 1));
        i = i + 1;
    }
    assert(out@ =~= from_hand);
    if drawn_last {
        out.push((last, true));
    }
    out
}

fn keep_candidates(view: &SeatView, all: &Vec<Candidate>) -> (out: Vec<Candidate>)
    ensures
        out@ == kept(view@, all@),
{
    let mut out: Vec<Candidate> = Vec::new();
    let mut i: usize = 0;
    assert(all@.subrange(0, 0) =~= Seq::empty());
    while i < all.len()
        invariant
            i <= all.len(),
            out@ == kept(view@, all@.subrange(0, i as int)),
        decreases all.len() - i,
    {
        assert(all@.subrange(0, i + 1).drop_last() =~= all@.subrange(0, i as int));
        let c = all[i];
        if !has_kind(&view.me.kuikae_forbidden, c.0.kind()) && (!view.me.riichi || c.1) {
            out.push(c);
        }
        i = i + 1;
    }
    assert(all@.subrange(0, i as int) =~= all@);
    out
}

fn push_discards(out: &mut Vec<TurnAction>, view: &SeatView, all: &Vec<Candidate>)
    ensures
        final(out)@ == old(out)@ + all@.map_values(|c: Candidate| discard_action(view@, c)),
{
    let ghost before = out@;
    let ghost actions = all@.map_values(|c: Candidate| discard_action(view@, c));
    let mut i: usize = 0;
    assert(before =~= before + actions.subrange(0, 0));
    while i < all.len()
        invariant
            i <= all.len(),
            actions == all@.map_values(|c: Candidate| discard_action(view@, c)),
            out@ == before + actions.subrange(0, i as int),
        decreases all.len() - i,
    {
        let c = all[i];
        if view.me.dealer_opening {
            out.push(TurnAction::DealerOpeningDiscard { tile: c.0 });
        } else {
            out.push(TurnAction::Discard { tile: c.0, tsumogiri: c.1 });
        }
        assert(out@ =~= before + actions.subrange(0, i + 1));
        i = i + 1;
    }
    assert(actions.subrange(0, i as int) =~= actions);
}

/// Every candidate is a tile of the hand.
proof fn lemma_candidates_in_hand(hand: Seq<Tile>, s: Seq<Tile>, t: Tile)
    requires
        distinct_known(s).contains(t),
        forall|i: int| 0 <= i < s.len() ==> hand.contains(#[trigger] s[i]),
    ensures
        hand.contains(t),
        t.id() < 37,
    decreases s.len(),
{
    if s.len() > 0 {
        let d = distinct_known(s.drop_last());
        let i = choose|i: int| 0 <= i < distinct_known(s).len() && distinct_known(s)[i] == t;
        if d.contains(t) {
            assert forall|j: int| 0 <= j < s.drop_last().len() implies hand.contains(#[trigger] s.drop_last()[j]) by {
                assert(hand.contains(s[j]));
            }
            lemma_candidates_in_hand(hand, s.drop_last(), t);
        } else {
            if i < d.len() {
                assert(d[i] == t);
            }
            assert(t == s.last());
            assert(hand.contains(s[s.len() - 1]));
        }
    }
}

proof fn lemma_kept(v: TableFacts, s: Seq<Candidate>, i: int)
    requires
        0 <= i < kept(v, s).len(),
    ensures
        s.contains(kept(v, s)[i]),
        candidate_ok(v, kept(v, s)[i]),
    decreases s.len(),
{
    if s.len() > 0 {
        let rest = kept(v, s.drop_last());
        if i < rest.len() {
            lemma_kept(v, s.drop_last(), i);
            let c = rest[i];
            let j = choose|j: int| 0 <= j < s.drop_last().len() && s.drop_last()[j] == c;
            assert(s[j] == c);
        } else {
            assert(s[s.len() - 1] == kept(v, s)[i]);
        }
    }
}

/// A discard offered by a view is a tile of the seat's hand, is not forbidden and, in riichi,
/// is the drawn tile.
pub proof fn offered_discards_are_held(v: TableFacts, i: int)
    requires
        0 <= i < discards_of_view(v).len(),
    ensures
        v.me.hand.contains(discards_of_view(v)[i].0),
        !v.me.kuikae_forbidden.contains(discards_of_view(v)[i].0.kind()),
        v.me.riichi ==> discards_of_view(v)[i].1,
        discards_of_view(v)[i].1 ==> v.me.drawn_tile == Some(discards_of_view(v)[i].0) && discards_of_view(v)[i].0
            == v.me.hand.last(),
{
    let hand = v.me.hand;
    let all = candidates(hand, v.me.drawn_tile);
    lemma_kept(v, all, i);
    let c = discards_of_view(v)[i];
    let j = choose|j: int| 0 <= j < all.len() && all[j] == c;
    let cut = if drawn_is_last(hand, v.me.drawn_tile) { hand.drop_last() } else { hand };
    assert forall|n: int| 0 <= n < cut.len() implies hand.contains(#[trigger] cut[n]) by {
        assert(hand[n] == cut[n]);
    }
    let d = distinct_known(cut);
    if j < d.len() {
        assert(d.contains(d[j]));
        lemma_candidates_in_hand(hand, cut, d[j]);
    } else {
        assert(hand[hand.len() - 1] == c.0);
    }
}

proof fn lemma_held_counts(hand: Seq<Tile>, t: Tile)
    requires
        hand.contains(t),
    ensures
        count_kind(hand, t.kind() as int) > 0,
    decreases hand.len(),
{
    let i = choose|i: int| 0 <= i < hand.len() && hand[i] == t;
    if i < hand.len() - 1 {
        assert(hand.drop_last()[i] == t);
        lemma_held_counts(hand.drop_last(), t);
    }
}

fn push_riichis(out: &mut Vec<TurnAction>, view: &SeatView, counts: &TileCounts, open: u8, all: &Vec<Candidate>)
    requires
        countable(view.me.hand@),
        counts@ == counts_of(view.me.hand@),
        open == open_groups(view.me.melds@),
        forall|i: int| 0 <= i < all@.len() ==> view.me.hand@.contains((#[trigger] all@[i]).0),
    ensures
        final(out)@ == old(out)@ + riichis(view@, all@),
{
    let ghost before = out@;
    let sanma = view.others.len() == 2;
    let mut i: usize = 0;
    proof { lemma_countable(view.me.hand@); }
    assert(before =~= before + riichis(view@, all@.subrange(0, 0)));
    while i < all.len()
        invariant
            i <= all.len(),
            sanma == view@.is_sanma(),
            countable(view.me.hand@),
            counts@ == counts_of(view.me.hand@),
            open == open_groups(view.me.melds@),
            forall|k: int| 0 <= k < 34 ==> #[trigger] count_kind(view.me.hand@, k) <= 255,
            forall|j: int| 0 <= j < all@.len() ==> view.me.hand@.contains((#[trigger] all@[j]).0),
            out@ == before + riichis(view@, all@.subrange(0, i as int)),
        decreases all.len() - i,
    {
        let ghost s = all@.subrange(0, i + 1);
        assert(s.drop_last() =~= all@.subrange(0, i as int));
        let c = all[i];
        let tile = c.0;
        proof {
            assert(view.me.hand@.contains(all@[i as int].0));
            let j = choose|j: int| 0 <= j < view.me.hand@.len() && view.me.hand@[j] == tile;
            assert(view.me.hand@[j].is_known());
            lemma_held_counts(view.me.hand@, tile);
            assert(count_kind(view.me.hand@, tile.kind() as int) <= 255);
        }
        let mut left = *counts;
        left.sub(tile, 1);
        assert(left@ =~= less(counts@, tile.kind() as int, 1));
        if shanten_for(&left, open, sanma) == TENPAI {
            if view.me.dealer_opening {
                out.push(TurnAction::DealerOpeningRiichi { tile });
            } else {
                out.push(TurnAction::Riichi { tile, tsumogiri: c.1 });
            }
        }
        assert(out@ =~= before + riichis(view@, s));
        i = i + 1;
    }
    assert(all@.subrange(0, i as int) =~= all@);
}

/// Declarations of a turn: tsumo, nine kinds, a North set aside, kans.
fn turn_declarations(view: &SeatView, counts: &TileCounts, open: u8) -> (out: Vec<TurnAction>)
    requires
        is_to_act(view@),
        turn_is_known(view@),
        view.others@.len() < usize::MAX,
        counts@ == counts_of(view.me.hand@),
        open == open_groups(view.me.melds@),
    ensures
        out@ == action_if(can_tsumo(view@), TurnAction::Tsumo) + action_if(
            can_kyuushu(view@),
            TurnAction::KyuushuKyuuhai,
        ) + action_if(can_nuki(view@), TurnAction::Nukidora) + kans_of(view@),
{
    let sanma = view.others.len() == 2;
    let post_draw = view.me.drawn_tile.is_some() || view.me.dealer_opening;
    let mut out: Vec<TurnAction> = Vec::new();
    let tsumo = post_draw && shanten_for(counts, open, sanma) == AGARI && can_tsumo_agari(view);
    push_action(&mut out, tsumo, TurnAction::Tsumo);
    assert(out@ =~= action_if(can_tsumo(view@), TurnAction::Tsumo));
    let kyuushu = post_draw && view.kyuushu_kyuuhai_window && count_yaochuu(counts) >= 9;
    push_action(&mut out, kyuushu, TurnAction::KyuushuKyuuhai);
    let drew_north = match view.me.drawn_tile {
        Some(t) => t.kind() == 30,
        None => false,
    };
    proof { lemma_countable(view.me.hand@); }
    assert(counts@[30] == count_kind(view.me.hand@, 30));
    let nuki = post_draw && sanma && view.tiles_left > 0 && room_for_nuki(view) && counts.0[30] > 0 && (!view.me.riichi
        || drew_north);
    push_action(&mut out, nuki, TurnAction::Nukidora);
    let ghost before = out@;
    if post_draw && view.tiles_left > 0 && room_for_kan(view) {
        push_ankans(&mut out, view, counts, open);
        push_kakans(&mut out, &view.me.hand, &view.me.melds);
    }
    assert(out@ =~= before + kans_of(view@));
    out
}

fn may_riichi(view: &SeatView) -> (r: bool)
    requires
        view.others@.len() < usize::MAX,
    ensures
        r == can_riichi(view@),
{
    let post_draw = view.me.drawn_tile.is_some() || view.me.dealer_opening;
    let seat: usize = view.me.seat as usize;
    let has_stick = seat < view.scores.len() && view.scores[seat] >= 1000;
    let seats: u32 = ((view.others.len() + 1) as u64 % 0x1_0000_0000) as u32;
    let has_future_draw = view.rule_profile.allows_no_draw_riichi() || view.tiles_left >= seats;
    post_draw && melds_all_closed(&view.me.melds) && !view.me.riichi && has_stick && has_future_draw
}

/// Turn actions that the rules allow on the seat's own turn: declarations, every discardable
/// tile by its origin, red fives apart, and riichi.
pub fn legal_turn_actions(view: &SeatView) -> (out: Vec<TurnAction>)
    requires
        view.others@.len() < usize::MAX,
        turn_is_known(view@),
    ensures
        out@ == turn_actions(view@),
{
    let open: u8 = (count_group_melds(&view.me.melds) % 256) as u8;
    let room: usize = open as usize * 3;
    if !view.is_valid() || view.round_terminal || view.me.hand.len() == 0 || view.turn != view.me.seat
        || view.last_discard.is_some() || view.pending_robbery.is_some() || room > 14 || view.me.hand.len() != 14 - room {
        let none: Vec<TurnAction> = Vec::new();
        assert(none@ =~= turn_actions(view@));
        return none;
    }
    let counts = count_tiles(&view.me.hand);
    let mut out = turn_declarations(view, &counts, open);
    let all = discard_candidates(&view.me.hand, view.me.drawn_tile);
    let some = keep_candidates(view, &all);
    push_discards(&mut out, view, &some);
    let ghost before = out@;
    if may_riichi(view) {
        proof {
            assert forall|i: int| 0 <= i < some@.len() implies view.me.hand@.contains((#[trigger] some@[i]).0) by {
                offered_discards_are_held(view@, i);
            }
        }
        push_riichis(&mut out, view, &counts, open, &some);
    }
    assert(out@ =~= before + if can_riichi(view@) { riichis(view@, discards_of_view(view@)) } else { Seq::empty() });
    out
}

// Furiten.

/// A wait of the hand is in the own discards; a view that cannot be acted on counts as furiten.
pub open spec fn is_discard_furiten(v: TableFacts) -> bool {
    !v.is_live() || waits_discarded(v.me.hand, v.me.melds, v.is_sanma(), v.me.discards)
}

pub open spec fn is_any_furiten(v: TableFacts) -> bool {
    !v.is_live() || v.me.temporary_furiten || v.me.riichi_furiten || is_discard_furiten(v)
}

/// Discard furiten: a winning tile of the current wait is in the own discards.
pub fn discard_furiten(view: &SeatView) -> (r: bool)
    requires
        view@.is_live() ==> countable(view.me.hand@),
    ensures
        r == is_discard_furiten(view@),
{
    if !view.is_valid() || view.round_terminal {
        return true;
    }
    let counts = count_tiles(&view.me.hand);
    let open: u8 = (count_group_melds(&view.me.melds) % 256) as u8;
    let waits = winning_tiles_for(&counts, open, view.others.len() == 2);
    any_kind_in(&view.me.discards, &waits)
}

/// The same as [`discard_furiten`].
pub fn permanent_furiten(view: &SeatView) -> (r: bool)
    requires
        view@.is_live() ==> countable(view.me.hand@),
    ensures
        r == is_discard_furiten(view@),
{
    discard_furiten(view)
}

/// Any furiten: discard, temporary or riichi.
pub fn any_furiten(view: &SeatView) -> (r: bool)
    requires
        view@.is_live() && !view.me.temporary_furiten && !view.me.riichi_furiten ==> countable(view.me.hand@),
    ensures
        r == is_any_furiten(view@),
{
    if !view.is_valid() || view.round_terminal {
        return true;
    }
    view.me.temporary_furiten || view.me.riichi_furiten || discard_furiten(view)
}

// Reactions.

/// What a reaction says.
pub enum Response {
    Pass,
    Chi(Tile, Tile),
    Pon(Tile, Tile),
    Daiminkan,
    Ron,
}

impl View for ReactionAction {
    type V = Response;

    open spec fn view(&self) -> Response {
        match *self {
            ReactionAction::Pass => Response::Pass,
            ReactionAction::Chi { consumed } => Response::Chi(consumed@[0], consumed@[1]),
            ReactionAction::Pon { consumed } => Response::Pon(consumed@[0], consumed@[1]),
            ReactionAction::Daiminkan => Response::Daiminkan,
            ReactionAction::Ron => Response::Ron,
        }
    }
}

pub open spec fn responses(v: Seq<ReactionAction>) -> Seq<Response> {
    v.map_values(|a: ReactionAction| a@)
}

pub open spec fn response_if(cond: bool, r: Response) -> Seq<Response> {
    if cond { seq![r] } else { Seq::empty() }
}

/// The win by ron on a tile.
pub open spec fn ron_win(v: TableFacts, win: Tile, chankan: bool) -> ScoringFacts {
    view_win(v, v.me.hand.push(win), win, false, false, chankan)
}

/// The counts of the hand with a tile.
pub open spec fn counts_with(v: TableFacts, win: Tile) -> Seq<u8> {
    with_tile(counts_of(v.me.hand), win.kind() as int)
}

/// The hand is complete with a tile; a closed kan can be robbed by kokushi alone.
pub open spec fn completes_view(v: TableFacts, win: Tile) -> bool {
    &&& is_win(counts_with(v, win), open_groups(v.me.melds), v.is_sanma())
    &&& v.pending_robbery is Some && v.pending_robbery->0.kind == RobberyKind::Ankan ==> is_thirteen_orphans(
        counts_with(v, win),
    )
}

/// Ron on a tile: no furiten, a complete hand, and a yaku.
pub open spec fn can_ron(v: TableFacts, win: Tile, chankan: bool) -> bool {
    !is_any_furiten(v) && completes_view(v, win) && scores(ron_win(v, win, chankan))
}

/// Whether ron can be told: the hand and the tile are known, and a complete hand can be settled.
pub open spec fn ron_is_known(v: TableFacts, win: Tile, chankan: bool) -> bool {
    &&& v.is_live() && !v.me.temporary_furiten && !v.me.riichi_furiten ==> countable(v.me.hand)
    &&& !is_any_furiten(v) ==> win.is_known() && count_kind(v.me.hand, win.kind() as int) < 255
    &&& !is_any_furiten(v) && completes_view(v, win) ==> has_seat_wind(v.oya, v.me.seat, seat_count(v)) && can_settle(
        ron_win(v, win, chankan),
    )
}

/// Whether the rules allow a kind of declaration to be robbed.
pub open spec fn robbery_allowed(v: TableFacts, kind: RobberyKind) -> bool {
    match kind {
        RobberyKind::Kakan => true,
        RobberyKind::Nukidora => v.rule_profile.nukidora_ron,
        RobberyKind::Ankan => v.rule_profile.kokushi_ankan_ron,
    }
}

/// The tiles of a kind in hand, in order.
pub open spec fn of_kind(hand: Seq<Tile>, k: int) -> Seq<Tile>
    decreases hand.len(),
{
    if hand.len() == 0 {
        Seq::empty()
    } else if hand.last().kind() == k {
        of_kind(hand.drop_last(), k).push(hand.last())
    } else {
        of_kind(hand.drop_last(), k)
    }
}

/// Pons among pairs, where the rules ask for a discard to be left.
pub open spec fn pons_of(v: TableFacts, k: usize, pairs: Seq<Pair>) -> Seq<Response>
    decreases pairs.len(),
{
    if pairs.len() == 0 {
        Seq::empty()
    } else {
        let rest = pons_of(v, k, pairs.drop_last());
        let (a, b) = pairs.last();
        if v.rule_profile.kuikae_forbidden && !leaves_discard(v.me.hand, seq![a, b], seq![k]) {
            rest
        } else {
            rest.push(Response::Pon(a, b))
        }
    }
}

/// Chis among pairs, where the rules ask for a discard to be left.
pub open spec fn chis_of(v: TableFacts, tile: Tile, pairs: Seq<Pair>) -> Seq<Response>
    decreases pairs.len(),
{
    if pairs.len() == 0 {
        Seq::empty()
    } else {
        let rest = chis_of(v, tile, pairs.drop_last());
        let (a, b) = pairs.last();
        if v.rule_profile.kuikae_forbidden && !leaves_discard(v.me.hand, seq![a, b], forbidden_after_chi(tile, a, b)) {
            rest
        } else {
            rest.push(Response::Chi(a, b))
        }
    }
}

/// The calls on a discard: pons, an open kan, chis from the player to the left.
pub open spec fn calls_on(v: TableFacts, from: u8, tile: Tile) -> Seq<Response> {
    let k = tile.kind();
    let same = of_kind(v.me.hand, k as int);
    pons_of(v, k, pairs_below(same, same.len() as int)) + response_if(
        same.len() >= 3 && declared_kans(v) < 4,
        Response::Daiminkan,
    ) + if v.others.len() + 1 == 4 && (from + 1) % 4 == v.me.seat {
        chis_of(v, tile, chi_pairs(v.me.hand, tile))
    } else {
        Seq::empty()
    }
}

/// The responses that the rules allow.
pub open spec fn reactions(v: TableFacts) -> Seq<Response> {
    if !v.is_live() {
        Seq::empty()
    } else {
        match (v.pending_robbery, v.last_discard) {
            (Some(p), _) => response_if(
                p.actor != v.me.seat && robbery_allowed(v, p.kind) && can_ron(v, p.tile, p.kind == RobberyKind::Kakan),
                Response::Ron,
            ),
            (None, None) => Seq::empty(),
            (None, Some((from, tile))) => if from == v.me.seat {
                Seq::empty()
            } else {
                response_if(can_ron(v, tile, false), Response::Ron) + if v.tiles_left == 0 || v.suukaikan_pending
                    || v.me.riichi {
                    Seq::empty()
                } else {
                    calls_on(v, from, tile)
                }
            },
        }
    }
}

/// The list can be made: where a ron is asked about, it can be told.
pub open spec fn reactions_are_known(v: TableFacts) -> bool {
    v.is_live() ==> match (v.pending_robbery, v.last_discard) {
        (Some(p), _) => p.actor != v.me.seat && robbery_allowed(v, p.kind) ==> ron_is_known(
            v,
            p.tile,
            p.kind == RobberyKind::Kakan,
        ),
        (None, None) => true,
        (None, Some((from, tile))) => from != v.me.seat ==> ron_is_known(v, tile, false) && from < 255,
    }
}

fn can_ron_agari(view: &SeatView, win_tile: Tile, chankan: bool) -> (r: bool)
    requires
        view.others@.len() < usize::MAX,
        ron_is_known(view@, win_tile, chankan),
    ensures
        r == can_ron(view@, win_tile, chankan),
{
    if any_furiten(view) {
        return false;
    }
    let open: u8 = (count_group_melds(&view.me.melds) % 256) as u8;
    let mut with = count_tiles(&view.me.hand);
    proof { lemma_countable(view.me.hand@); }
    with.add(win_tile, 1);
    assert(with@ =~= counts_with(view@, win_tile));
    if shanten_for(&with, open, view.others.len() == 2) != AGARI {
        return false;
    }
    let robs_ankan = match view.pending_robbery {
        Some(p) => matches!(p.kind, RobberyKind::Ankan),
        None => false,
    };
    if robs_ankan && !is_kokushi(&with.0) {
        return false;
    }
    let mut hand = clone_tiles(&view.me.hand);
    hand.push(win_tile);
    win_scores(view, hand, win_tile, false, false, chankan)
}

fn tiles_of_kind(hand: &Vec<Tile>, k: usize) -> (r: Vec<Tile>)
    ensures
        r@ == of_kind(hand@, k as int),
{
    let mut r: Vec<Tile> = Vec::new();
    let mut i: usize = 0;
    assert(hand@.subrange(0, 0) =~= Seq::empty());
    while i < hand.len()
        invariant
            i <= hand.len(),
            r@ == of_kind(hand@.subrange(0, i as int), k as int),
        decreases hand.len() - i,
    {
        assert(hand@.subrange(0, i + 1).drop_last() =~= hand@.subrange(0, i as int));
        if hand[i].kind() == k {
            r.push(hand[i]);
        }
        i = i + 1;
    }
    assert(hand@.subrange(0, i as int) =~= hand@);
    r
}

fn push_pons(out: &mut Vec<ReactionAction>, view: &SeatView, k: usize, pairs: &Vec<[Tile; 2]>)
    ensures
        responses(final(out)@) == responses(old(out)@) + pons_of(view@, k, pair_views(pairs@)),
{
    let ghost before = responses(out@);
    let ghost ps = pair_views(pairs@);
    let kuikae = view.rule_profile.kuikae_forbidden();
    let forbidden: Vec<usize> = vec![k];
    assert(forbidden@ =~= seq![k]);
    let mut i: usize = 0;
    assert(before =~= before + pons_of(view@, k, ps.subrange(0, 0)));
    while i < pairs.len()
        invariant
            i <= pairs.len(),
            ps == pair_views(pairs@),
            kuikae == view.rule_profile.kuikae_forbidden,
            forbidden@ == seq![k],
            responses(out@) == before + pons_of(view@, k, ps.subrange(0, i as int)),
        decreases pairs.len() - i,
    {
        let ghost s = ps.subrange(0, i + 1);
        assert(s.drop_last() =~= ps.subrange(0, i as int));
        let pair = pairs[i];
        assert(pair@ =~= seq![pair@[0], pair@[1]]);
        let ghost mid = responses(out@);
        if !(kuikae && !call_leaves_legal_discard(view.me.hand.as_slice(), pair.as_slice(), forbidden.as_slice())) {
            out.push(ReactionAction::Pon { consumed: pair });
            assert(responses(out@) =~= mid.push(Response::Pon(pair@[0], pair@[1])));
        }
        assert(responses(out@) =~= before + pons_of(view@, k, s));
        i = i + 1;
    }
    assert(ps.subrange(0, i as int) =~= ps);
}

fn push_chis(out: &mut Vec<ReactionAction>, view: &SeatView, tile: Tile, pairs: &Vec<[Tile; 2]>)
    ensures
        responses(final(out)@) == responses(old(out)@) + chis_of(view@, tile, pair_views(pairs@)),
{
    let ghost before = responses(out@);
    let ghost ps = pair_views(pairs@);
    let kuikae = view.rule_profile.kuikae_forbidden();
    let mut i: usize = 0;
    assert(before =~= before + chis_of(view@, tile, ps.subrange(0, 0)));
    while i < pairs.len()
        invariant
            i <= pairs.len(),
            ps == pair_views(pairs@),
            kuikae == view.rule_profile.kuikae_forbidden,
            responses(out@) == before + chis_of(view@, tile, ps.subrange(0, i as int)),
        decreases pairs.len() - i,
    {
        let ghost s = ps.subrange(0, i + 1);
        assert(s.drop_last() =~= ps.subrange(0, i as int));
        let pair = pairs[i];
        assert(pair@ =~= seq![pair@[0], pair@[1]]);
        let ghost mid = responses(out@);
        let forbidden = kuikae_forbidden_after_chi(tile, pair);
        if !(kuikae && !call_leaves_legal_discard(view.me.hand.as_slice(), pair.as_slice(), forbidden.as_slice())) {
            out.push(ReactionAction::Chi { consumed: pair });
            assert(responses(out@) =~= mid.push(Response::Chi(pair@[0], pair@[1])));
        }
        assert(responses(out@) =~= before + chis_of(view@, tile, s));
        i = i + 1;
    }
    assert(ps.subrange(0, i as int) =~= ps);
}

fn push_response(out: &mut Vec<ReactionAction>, cond: bool, a: ReactionAction)
    ensures
        responses(final(out)@) == responses(old(out)@) + response_if(cond, a@),
{
    let ghost before = responses(out@);
    if cond {
        out.push(a);
    }
    assert(responses(out@) =~= before + response_if(cond, a@));
}

fn push_calls(out: &mut Vec<ReactionAction>, view: &SeatView, from: u8, tile: Tile)
    requires
        from < 255,
    ensures
        responses(final(out)@) == responses(old(out)@) + calls_on(view@, from, tile),
{
    let ghost before = responses(out@);
    let k: usize = tile.kind();
    let same = tiles_of_kind(&view.me.hand, k);
    let pairs = pon_pair_combos(same.as_slice());
    push_pons(out, view, k, &pairs);
    push_response(out, same.len() >= 3 && room_for_kan(view), ReactionAction::Daiminkan);
    let ghost mid = responses(out@);
    if view.others.len() == 3 && (from + 1) % 4 == view.me.seat {
        let combos = chi_combos(view.me.hand.as_slice(), tile);
        push_chis(out, view, tile, &combos);
    }
    assert(responses(out@) =~= before + calls_on(view@, from, tile));
}

/// Legal responses to the last discard, or to a declaration that can be robbed. Ron needs a
/// complete hand, no furiten and a yaku; in riichi, on the last tile and when a fourth kan
/// decides the hand, nothing but ron remains.
pub fn legal_reactions(view: &SeatView) -> (out: Vec<ReactionAction>)
    requires
        view.others@.len() < usize::MAX,
        reactions_are_known(view@),
    ensures
        responses(out@) == reactions(view@),
{
    let mut out: Vec<ReactionAction> = Vec::new();
    assert(responses(out@) =~= Seq::empty());
    if !view.is_valid() || view.round_terminal {
        return out;
    }
    match view.pending_robbery {
        Some(pending) => {
            let allowed = match pending.kind {
                RobberyKind::Kakan => true,
                RobberyKind::Nukidora => view.rule_profile.allows_nukidora_ron(),
                RobberyKind::Ankan => view.rule_profile.allows_kokushi_ankan_ron(),
            };
            let ron = pending.actor != view.me.seat && allowed && can_ron_agari(
                view,
                pending.tile,
                matches!(pending.kind, RobberyKind::Kakan),
            );
            push_response(&mut out, ron, ReactionAction::Ron);
            assert(responses(out@) =~= reactions(view@));
            return out;
        },
        None => {},
    }
    match view.last_discard {
        None => out,
        Some((from, tile)) => {
            if from == view.me.seat {
                return out;
            }
            let ron = can_ron_agari(view, tile, false);
            push_response(&mut out, ron, ReactionAction::Ron);
            assert(responses(out@) =~= response_if(ron, Response::Ron));
            if view.tiles_left == 0 || view.suukaikan_pending || view.me.riichi {
                assert(responses(out@) =~= reactions(view@));
                return out;
            }
            push_calls(&mut out, view, from, tile);
            out
        },
    }
}

// Laws.

/// A view that cannot be trusted, or of a hand that is over, allows nothing: no turn action
/// and no response.
pub proof fn dead_views_allow_nothing(v: TableFacts)
    requires
        !v.is_live(),
    ensures
        turn_actions(v).len() == 0,
        reactions(v).len() == 0,
        is_any_furiten(v),
{
}

/// Furiten of any kind rules ron out.
pub proof fn furiten_rules_out_ron(v: TableFacts)
    requires
        is_any_furiten(v),
    ensures
        !reactions(v).contains(Response::Ron),
{
    if v.is_live() && v.pending_robbery is None && v.last_discard is Some {
        let (from, tile) = v.last_discard->0;
        if from != v.me.seat && !(v.tiles_left == 0 || v.suukaikan_pending || v.me.riichi) {
            lemma_calls_hold_no_ron(v, from, tile);
            assert(reactions(v) =~= calls_on(v, from, tile));
        }
    }
}

proof fn lemma_pons_hold_no_ron(v: TableFacts, k: usize, pairs: Seq<Pair>, i: int)
    requires
        0 <= i < pons_of(v, k, pairs).len(),
    ensures
        pons_of(v, k, pairs)[i] is Pon,
    decreases pairs.len(),
{
    if pairs.len() > 0 {
        let rest = pons_of(v, k, pairs.drop_last());
        if i < rest.len() {
            lemma_pons_hold_no_ron(v, k, pairs.drop_last(), i);
        }
    }
}

proof fn lemma_chis_hold_no_ron(v: TableFacts, tile: Tile, pairs: Seq<Pair>, i: int)
    requires
        0 <= i < chis_of(v, tile, pairs).len(),
    ensures
        chis_of(v, tile, pairs)[i] is Chi,
    decreases pairs.len(),
{
    if pairs.len() > 0 {
        let rest = chis_of(v, tile, pairs.drop_last());
        if i < rest.len() {
            lemma_chis_hold_no_ron(v, tile, pairs.drop_last(), i);
        }
    }
}

pub proof fn lemma_calls_hold_no_ron(v: TableFacts, from: u8, tile: Tile)
    ensures
        !calls_on(v, from, tile).contains(Response::Ron),
{
    let k = tile.kind();
    let same = of_kind(v.me.hand, k as int);
    let pairs = pairs_below(same, same.len() as int);
    let a = pons_of(v, k, pairs);
    let b = response_if(same.len() >= 3 && declared_kans(v) < 4, Response::Daiminkan);
    let s = calls_on(v, from, tile);
    if s.contains(Response::Ron) {
        let i = choose|i: int| 0 <= i < s.len() && s[i] == Response::Ron;
        if i < a.len() {
            lemma_pons_hold_no_ron(v, k, pairs, i);
        } else if i < a.len() + b.len() {
        } else {
            lemma_chis_hold_no_ron(v, tile, chi_pairs(v.me.hand, tile), i - a.len() - b.len());
        }
    }
}

/// In riichi, on the last tile, and when a fourth kan decides the hand, there is no call.
pub proof fn riichi_makes_no_calls(v: TableFacts)
    requires
        v.me.riichi || v.tiles_left == 0 || v.suukaikan_pending,
    ensures
        forall|i: int| 0 <= i < reactions(v).len() ==> #[trigger] reactions(v)[i] == Response::Ron,
{
}

/// There is no chi but at a table of four, from the player to the left.
pub proof fn chi_needs_the_left_player(v: TableFacts, i: int)
    requires
        0 <= i < reactions(v).len(),
        reactions(v)[i] is Chi,
    ensures
        v.others.len() == 3,
        match v.last_discard {
            Some((from, _)) => (from + 1) % 4 == v.me.seat,
            None => false,
        },
{
    let (from, tile) = v.last_discard->0;
    let k = tile.kind();
    let same = of_kind(v.me.hand, k as int);
    let pairs = pairs_below(same, same.len() as int);
    let a = pons_of(v, k, pairs);
    let r = response_if(can_ron(v, tile, false), Response::Ron);
    if r.len() <= i < r.len() + a.len() {
        lemma_pons_hold_no_ron(v, k, pairs, i - r.len());
    }
}

/// A hand of 13 tiles, or of any number other than 3n + 2, allows no turn action.
pub proof fn turn_needs_a_drawn_hand(v: TableFacts)
    requires
        v.me.hand.len() % 3 != 2,
    ensures
        turn_actions(v).len() == 0,
{
}

} // verus!
