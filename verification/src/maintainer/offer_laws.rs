//! Which actions a seat is offered: each exactly where the rules allow it.

use vstd::prelude::*;
use crate::mahjong::agari::{is_win, winning_kinds};
use crate::mahjong::hand::{count_kind, kinds_below, lemma_kinds_below};
use crate::mahjong::meld::Meld;
use crate::mahjong::rules::RiichiAnkanRule;
use crate::mahjong::shanten::{shanten_value, yaochuu_kinds};
use crate::mahjong::tile::Tile;
use crate::mahjong::yaku::group_meld_count;
use crate::mahjong::yaku_laws::{is_any_kan, is_end, is_letter, lemma_kans, lemma_tally, places, tally};
use crate::maintainer::action::TurnAction;
use crate::maintainer::legal::{
    action_if, ankan_ok, ankans, can_kan, can_kyuushu, can_nuki, can_riichi, can_tsumo, candidate_ok, candidates,
    declared_kans, discard_action, discards_of_view, distinct_known, drawn_is_last, first_of_kind, is_to_act, kakans,
    kans_of, kept, leaves_tenpai, nuki_count, others_kans, others_nuki, public_nuki, riichi_action, riichis, scores,
    turn_actions, view_win, Candidate,
};
use crate::maintainer::player::{counts_of, open_groups};
use crate::maintainer::scoring::settlement;
use crate::maintainer::view::{OpponentFacts, TableFacts};

verus! {

// Lists.

pub proof fn lemma_in_both<A>(a: Seq<A>, b: Seq<A>, x: A)
    ensures
        (a + b).contains(x) <==> a.contains(x) || b.contains(x),
{
    let s = a + b;
    if a.contains(x) {
        let i = choose|i: int| 0 <= i < a.len() && a[i] == x;
        assert(s[i] == x);
    }
    if b.contains(x) {
        let i = choose|i: int| 0 <= i < b.len() && b[i] == x;
        assert(s[a.len() + i] == x);
    }
    if s.contains(x) {
        let i = choose|i: int| 0 <= i < s.len() && s[i] == x;
        if i < a.len() {
            assert(a[i] == x);
        } else {
            assert(b[i - a.len()] == x);
        }
    }
}

pub proof fn lemma_pushed<A>(s: Seq<A>, y: A, x: A)
    ensures
        s.push(y).contains(x) <==> s.contains(x) || x == y,
{
    assert(s.push(y) =~= s + seq![y]);
    lemma_in_both(s, seq![y], x);
    assert(seq![y][0] == y);
}

proof fn lemma_one(c: bool, a: TurnAction, x: TurnAction)
    ensures
        action_if(c, a).contains(x) <==> c && x == a,
{
    if c {
        assert(action_if(c, a)[0] == a);
    }
}

// The turn.

/// The seat's turn: the hand goes on, nothing waits for an answer, and with its called groups the
/// seat holds fourteen tiles.
pub open spec fn is_own_turn(v: TableFacts) -> bool {
    &&& v.state_error is None && !v.round_terminal
    &&& v.turn == v.me.seat
    &&& v.last_discard is None && v.pending_robbery is None
    &&& v.me.hand.len() > 0
    &&& v.me.hand.len() + 3 * called_count(v.me.melds) == 14
}

/// Called groups; Norths set aside are none.
pub open spec fn called_count(melds: Seq<Meld>) -> nat {
    places(melds.len(), |i: int| !(melds[i] is Nukidora)).len()
}

/// Norths set aside.
pub open spec fn north_count(melds: Seq<Meld>) -> nat {
    places(melds.len(), |i: int| melds[i] is Nukidora).len()
}

proof fn lemma_called_part(melds: Seq<Meld>, n: int)
    requires
        0 <= n <= melds.len(),
    ensures
        group_meld_count(melds.take(n)) == tally(n, |i: int| !(melds[i] is Nukidora)),
        nuki_count(melds.take(n)) == tally(n, |i: int| melds[i] is Nukidora),
        group_meld_count(melds.take(n)) <= n,
    decreases n,
{
    if n > 0 {
        lemma_called_part(melds, n - 1);
        assert(melds.take(n).drop_last() =~= melds.take(n - 1));
    }
}

pub proof fn lemma_called(melds: Seq<Meld>)
    ensures
        group_meld_count(melds) == called_count(melds),
        nuki_count(melds) == north_count(melds),
        group_meld_count(melds) <= melds.len(),
{
    lemma_called_part(melds, melds.len() as int);
    assert(melds.take(melds.len() as int) =~= melds);
    lemma_tally(melds.len() as int, |i: int| !(melds[i] is Nukidora));
    lemma_tally(melds.len() as int, |i: int| melds[i] is Nukidora);
}

proof fn lemma_own_turn(v: TableFacts)
    requires
        v.me.melds.len() <= 255,
    ensures
        is_to_act(v) <==> is_own_turn(v),
        open_groups(v.me.melds) == called_count(v.me.melds),
{
    lemma_called(v.me.melds);
}

/// Kans of all seats.
pub open spec fn kans_at_table(v: TableFacts) -> int {
    v.others.fold_left(
        places(v.me.melds.len(), |i: int| is_any_kan(v.me.melds[i])).len() as int,
        |sum: int, o: OpponentFacts| sum + places(o.melds.len(), |i: int| is_any_kan(o.melds[i])).len(),
    )
}

/// Norths set aside by all seats.
pub open spec fn norths_at_table(v: TableFacts) -> int {
    v.others.fold_left(north_count(v.me.melds) as int, |sum: int, o: OpponentFacts| sum + north_count(o.melds))
}

proof fn lemma_table(others: Seq<OpponentFacts>, kans: int, norths: int)
    ensures
        others.fold_left(
            kans,
            |sum: int, o: OpponentFacts| sum + places(o.melds.len(), |i: int| is_any_kan(o.melds[i])).len(),
        ) == kans + others_kans(others),
        others.fold_left(norths, |sum: int, o: OpponentFacts| sum + north_count(o.melds)) == norths + others_nuki(others),
    decreases others.len(),
{
    if others.len() > 0 {
        lemma_table(others.drop_last(), kans, norths);
        lemma_kans(others.last().melds);
        lemma_called(others.last().melds);
    }
}

pub proof fn lemma_at_table(v: TableFacts)
    ensures
        declared_kans(v) == kans_at_table(v),
        public_nuki(v) == norths_at_table(v),
{
    lemma_kans(v.me.melds);
    lemma_called(v.me.melds);
    lemma_table(
        v.others,
        places(v.me.melds.len(), |i: int| is_any_kan(v.me.melds[i])).len() as int,
        north_count(v.me.melds) as int,
    );
}

/// Where a turn action comes from.
spec fn offered_by(v: TableFacts, x: TurnAction) -> bool {
    match x {
        TurnAction::Tsumo => can_tsumo(v),
        TurnAction::KyuushuKyuuhai => can_kyuushu(v),
        TurnAction::Nukidora => can_nuki(v),
        TurnAction::Ankan { .. } => can_kan(v) && ankans(v).contains(x),
        TurnAction::Kakan { .. } => can_kan(v) && kakans(v.me.hand, v.me.melds).contains(x),
        TurnAction::Discard { .. } => discards_of_view(v).map_values(|c: Candidate| discard_action(v, c)).contains(x),
        TurnAction::DealerOpeningDiscard { .. } => discards_of_view(v).map_values(
            |c: Candidate| discard_action(v, c),
        ).contains(x),
        TurnAction::Riichi { .. } => can_riichi(v) && riichis(v, discards_of_view(v)).contains(x),
        TurnAction::DealerOpeningRiichi { .. } => can_riichi(v) && riichis(v, discards_of_view(v)).contains(x),
    }
}

proof fn lemma_kakans_only(hand: Seq<Tile>, melds: Seq<Meld>, x: TurnAction)
    ensures
        kakans(hand, melds).contains(x) <==> x is Kakan && exists|i: int|
            0 <= i < melds.len() && (#[trigger] melds[i]) is Pon && first_of_kind(hand, melds[i]->Pon_tile.kind() as int)
                == Some(x->Kakan_tile),
    decreases melds.len(),
{
    if melds.len() > 0 {
        let r = melds.drop_last();
        lemma_kakans_only(hand, r, x);
        let m = melds.last();
        assert(melds[melds.len() - 1] == m);
        if m is Pon && first_of_kind(hand, m->Pon_tile.kind() as int) is Some {
            lemma_pushed(
                kakans(hand, r),
                TurnAction::Kakan { tile: first_of_kind(hand, m->Pon_tile.kind() as int)->0 },
                x,
            );
        }
        if kakans(hand, r).contains(x) {
            let i = choose|i: int|
                0 <= i < r.len() && (#[trigger] r[i]) is Pon && first_of_kind(hand, r[i]->Pon_tile.kind() as int) == Some(
                    x->Kakan_tile,
                );
            assert(melds[i] == r[i]);
        }
        if x is Kakan && exists|i: int|
            0 <= i < melds.len() && (#[trigger] melds[i]) is Pon && first_of_kind(hand, melds[i]->Pon_tile.kind() as int)
                == Some(x->Kakan_tile) {
            let i = choose|i: int|
                0 <= i < melds.len() && (#[trigger] melds[i]) is Pon && first_of_kind(hand, melds[i]->Pon_tile.kind() as int)
                    == Some(x->Kakan_tile);
            if i < r.len() {
                assert(r[i] == melds[i]);
            }
        }
    }
}

proof fn lemma_riichis_only(v: TableFacts, s: Seq<Candidate>, x: TurnAction)
    ensures
        riichis(v, s).contains(x) <==> exists|c: Candidate|
            #[trigger] s.contains(c) && leaves_tenpai(v, c) && x == riichi_action(v, c),
    decreases s.len(),
{
    if s.len() > 0 {
        let r = s.drop_last();
        lemma_riichis_only(v, r, x);
        assert(s =~= r.push(s.last()));
        assert forall|c: Candidate| #[trigger] s.contains(c) <==> r.contains(c) || c == s.last() by {
            lemma_pushed(r, s.last(), c);
        }
        if leaves_tenpai(v, s.last()) {
            lemma_pushed(riichis(v, r), riichi_action(v, s.last()), x);
            if x == riichi_action(v, s.last()) {
                assert(s.contains(s.last()));
            }
        }
        if riichis(v, r).contains(x) {
            let c = choose|c: Candidate| #[trigger] r.contains(c) && leaves_tenpai(v, c) && x == riichi_action(v, c);
            assert(s.contains(c));
        }
        if exists|c: Candidate| #[trigger] s.contains(c) && leaves_tenpai(v, c) && x == riichi_action(v, c) {
            let c = choose|c: Candidate| #[trigger] s.contains(c) && leaves_tenpai(v, c) && x == riichi_action(v, c);
            if c != s.last() {
                assert(r.contains(c));
            }
        }
    }
}

proof fn lemma_mapped(v: TableFacts, s: Seq<Candidate>, x: TurnAction)
    ensures
        s.map_values(|c: Candidate| discard_action(v, c)).contains(x) <==> exists|c: Candidate|
            #[trigger] s.contains(c) && x == discard_action(v, c),
{
    let t = s.map_values(|c: Candidate| discard_action(v, c));
    if t.contains(x) {
        let i = choose|i: int| 0 <= i < t.len() && t[i] == x;
        assert(s.contains(s[i]));
    }
    if exists|c: Candidate| #[trigger] s.contains(c) && x == discard_action(v, c) {
        let c = choose|c: Candidate| #[trigger] s.contains(c) && x == discard_action(v, c);
        let i = choose|i: int| 0 <= i < s.len() && s[i] == c;
        assert(t[i] == x);
    }
}

proof fn lemma_ankans_only(v: TableFacts, x: TurnAction)
    ensures
        ankans(v).contains(x) <==> x is Ankan && exists|k: int|
            0 <= k < 34 && x == (TurnAction::Ankan { tile: Tile::of(k) }) && #[trigger] ankan_ok(v, k),
{
    let p = |k: int| ankan_ok(v, k);
    let ks = kinds_below(34, p);
    lemma_kinds_below(34, p);
    let s = ankans(v);
    if s.contains(x) {
        let i = choose|i: int| 0 <= i < s.len() && s[i] == x;
        assert(p(ks[i] as int));
        assert(ankan_ok(v, ks[i] as int));
    }
    if x is Ankan && exists|k: int|
        0 <= k < 34 && x == (TurnAction::Ankan { tile: Tile::of(k) }) && #[trigger] ankan_ok(v, k) {
        let k = choose|k: int| 0 <= k < 34 && x == (TurnAction::Ankan { tile: Tile::of(k) }) && #[trigger] ankan_ok(v, k);
        assert(p(k));
        let i = choose|i: int| 0 <= i < ks.len() && ks[i] == k as usize;
        assert(s[i] == x);
    }
}

proof fn lemma_offered(v: TableFacts, x: TurnAction)
    requires
        is_to_act(v),
    ensures
        turn_actions(v).contains(x) <==> offered_by(v, x),
{
    let a = action_if(can_tsumo(v), TurnAction::Tsumo);
    let b = action_if(can_kyuushu(v), TurnAction::KyuushuKyuuhai);
    let c = action_if(can_nuki(v), TurnAction::Nukidora);
    let k = kans_of(v);
    let d = discards_of_view(v).map_values(|c: Candidate| discard_action(v, c));
    let e = if can_riichi(v) { riichis(v, discards_of_view(v)) } else { Seq::empty() };
    lemma_one(can_tsumo(v), TurnAction::Tsumo, x);
    lemma_one(can_kyuushu(v), TurnAction::KyuushuKyuuhai, x);
    lemma_one(can_nuki(v), TurnAction::Nukidora, x);
    lemma_in_both(a, b, x);
    lemma_in_both(a + b, c, x);
    lemma_in_both(a + b + c, k, x);
    lemma_in_both(a + b + c + k, d, x);
    lemma_in_both(a + b + c + k + d, e, x);
    lemma_in_both(ankans(v), kakans(v.me.hand, v.me.melds), x);
    lemma_kakans_only(v.me.hand, v.me.melds, x);
    lemma_ankans_only(v, x);
    lemma_mapped(v, discards_of_view(v), x);
    lemma_riichis_only(v, discards_of_view(v), x);
}

/// Tsumo is offered exactly where the seat, on its turn, has drawn or opens as the dealer, its hand
/// is complete, and the win has a yaku: on the last tile, or in the opening on any tile. Called
/// melds do not stand in the way.
pub proof fn tsumo_is_offered_exactly_on_a_win(v: TableFacts)
    requires
        v.me.melds.len() <= 255,
    ensures
        turn_actions(v).contains(TurnAction::Tsumo) <==> {
            &&& is_own_turn(v)
            &&& v.me.drawn_tile is Some || v.me.dealer_opening
            &&& is_win(counts_of(v.me.hand), called_count(v.me.melds) as u8, v.others.len() == 2)
            &&& if v.me.dealer_opening {
                exists|i: int|
                    0 <= i < v.me.hand.len() && settlement(view_win(v, v.me.hand, #[trigger] v.me.hand[i], true, true, false)) is Some
            } else {
                settlement(view_win(v, v.me.hand, v.me.hand[v.me.hand.len() - 1], true, false, false)) is Some
            }
        },
{
    lemma_own_turn(v);
    reveal(scores);
    if is_to_act(v) {
        lemma_offered(v, TurnAction::Tsumo);
        assert(v.me.hand.last() == v.me.hand[v.me.hand.len() - 1]);
        if v.me.dealer_opening {
            assert forall|i: int| 0 <= i < v.me.hand.len() implies scores(
                crate::maintainer::legal::tsumo_win(v, #[trigger] v.me.hand[i], true),
            ) == (settlement(view_win(v, v.me.hand, v.me.hand[i], true, true, false)) is Some) by {}
        }
    }
}

/// What a win is settled by: the hand with the winning tile, the melds, whether the hand is closed
/// but for closed kans and Norths, the wind by the distance from the dealer, and what the view says
/// of riichi, ippatsu, the last tile and a replacement draw.
pub proof fn wins_are_settled_as_they_stand(v: TableFacts, hand: Seq<Tile>, win: Tile, tsumo: bool, tenhou: bool, chankan: bool)
    requires
        v.me.melds.len() <= 255,
        v.others.len() <= 3,
        v.oya <= v.others.len(),
        v.me.seat <= v.others.len(),
    ensures
        ({
            let s = view_win(v, hand, win, tsumo, tenhou, chankan);
            let seats = v.others.len() + 1;
            &&& s.hand == hand && s.win_tile == win && s.melds == v.me.melds && s.is_tsumo == tsumo
            &&& s.menzen <==> forall|i: int|
                0 <= i < v.me.melds.len() ==> (#[trigger] v.me.melds[i]) is Ankan || v.me.melds[i] is Nukidora
            &&& s.bakaze == v.bakaze
            &&& exists|d: int|
                0 <= d < seats && (v.oya + d) % seats as int == v.me.seat && s.jikaze == #[trigger] Tile::of(27 + d)
            &&& s.is_oya <==> v.me.seat == v.oya
            &&& s.riichi == v.me.riichi && s.ippatsu == v.me.ippatsu && !s.double_riichi
            &&& s.haitei <==> tsumo && v.tiles_left == 0
            &&& s.houtei <==> !tsumo && v.tiles_left == 0
            &&& s.rinshan <==> tsumo && v.last_draw_was_rinshan
            &&& s.chankan == chankan && s.tenhou == tenhou && !s.chiihou
            &&& s.dora_indicators == v.dora_indicators && s.ura_indicators.len() == 0
            &&& s.nuki_count == north_count(v.me.melds)
            &&& s.is_sanma <==> v.others.len() == 2
            &&& s.rule_profile == v.rule_profile
        }),
{
    lemma_called(v.me.melds);
    let seats = (v.others.len() + 1) as int;
    let d = (v.me.seat + seats - v.oya) % seats;
    lemma_distance(v.oya as int, v.me.seat as int, seats);
    let s = view_win(v, hand, win, tsumo, tenhou, chankan);
    assert(s.jikaze == Tile::of(27 + d));
    assert forall|i: int| 0 <= i < v.me.melds.len() implies ((#[trigger] v.me.melds[i]).breaks_menzen() <==> !(v.me.melds[i] is Ankan
        || v.me.melds[i] is Nukidora)) by {}
    assert(north_count(v.me.melds) <= 255) by {
        lemma_north_bound(v.me.melds, v.me.melds.len() as int);
    }
}

proof fn lemma_distance(from: int, to: int, seats: int)
    requires
        1 <= seats <= 4,
        0 <= from < seats,
        0 <= to < seats,
    ensures
        0 <= (to + seats - from) % seats < seats,
        (from + (to + seats - from) % seats) % seats == to,
{
    if seats == 1 {
        assert((from + (to + 1 - from) % 1) % 1 == to);
    } else if seats == 2 {
        assert((from + (to + 2 - from) % 2) % 2 == to);
    } else if seats == 3 {
        assert((from + (to + 3 - from) % 3) % 3 == to);
    } else {
        assert((from + (to + 4 - from) % 4) % 4 == to);
    }
}

proof fn lemma_north_bound(melds: Seq<Meld>, n: int)
    requires
        0 <= n <= melds.len(),
    ensures
        nuki_count(melds.take(n)) <= n,
        north_count(melds) == nuki_count(melds),
        n == melds.len() ==> nuki_count(melds) <= n,
    decreases n,
{
    lemma_called(melds);
    assert(melds.take(melds.len() as int) =~= melds);
    if n > 0 {
        lemma_north_bound(melds, n - 1);
        assert(melds.take(n).drop_last() =~= melds.take(n - 1));
    }
}

// Discards and riichi.

proof fn lemma_distinct(s: Seq<Tile>, t: Tile)
    ensures
        distinct_known(s).contains(t) <==> s.contains(t) && t.id() < 37,
    decreases s.len(),
{
    if s.len() > 0 {
        let r = s.drop_last();
        lemma_distinct(r, t);
        assert(s =~= r.push(s.last()));
        lemma_pushed(r, s.last(), t);
        lemma_pushed(distinct_known(r), s.last(), t);
    }
}

proof fn lemma_kept_all(v: TableFacts, s: Seq<Candidate>, c: Candidate)
    ensures
        kept(v, s).contains(c) <==> s.contains(c) && candidate_ok(v, c),
    decreases s.len(),
{
    if s.len() > 0 {
        let r = s.drop_last();
        lemma_kept_all(v, r, c);
        assert(s =~= r.push(s.last()));
        lemma_pushed(r, s.last(), c);
        lemma_pushed(kept(v, r), s.last(), c);
    }
}

proof fn lemma_candidates(hand: Seq<Tile>, drawn: Option<Tile>, c: Candidate)
    ensures
        candidates(hand, drawn).contains(c) <==> if c.1 {
            drawn_is_last(hand, drawn) && c.0 == hand.last()
        } else {
            c.0.id() < 37 && (if drawn_is_last(hand, drawn) { hand.drop_last() } else { hand }).contains(c.0)
        },
{
    let cut = if drawn_is_last(hand, drawn) { hand.drop_last() } else { hand };
    let d = distinct_known(cut);
    let m = d.map_values(|t: Tile| (t, false));
    lemma_distinct(cut, c.0);
    assert(m.contains(c) <==> !c.1 && d.contains(c.0)) by {
        if m.contains(c) {
            let i = choose|i: int| 0 <= i < m.len() && m[i] == c;
            assert(d[i] == c.0);
        }
        if !c.1 && d.contains(c.0) {
            let i = choose|i: int| 0 <= i < d.len() && d[i] == c.0;
            assert(m[i] == c);
        }
    }
    lemma_pushed(m, (hand.last(), true), c);
}

/// A discard of the view: of the drawn tile, or of another tile of the hand; not of a kind that a
/// call forbids, and in riichi of the drawn tile alone.
pub open spec fn may_discard(v: TableFacts, tile: Tile, drawn: bool) -> bool {
    let hand = v.me.hand;
    let holds_drawn = v.me.drawn_tile == Some(hand[hand.len() - 1]);
    &&& is_own_turn(v)
    &&& !v.me.kuikae_forbidden.contains(tile.kind())
    &&& if drawn {
        holds_drawn && tile == hand[hand.len() - 1]
    } else {
        &&& !v.me.riichi && tile.id() < 37
        &&& exists|i: int|
            0 <= i < hand.len() && #[trigger] hand[i] == tile && !(holds_drawn && i == hand.len() - 1)
    }
}

proof fn lemma_may_discard(v: TableFacts, c: Candidate)
    requires
        is_to_act(v),
        v.me.melds.len() <= 255,
    ensures
        discards_of_view(v).contains(c) <==> may_discard(v, c.0, c.1),
{
    let hand = v.me.hand;
    lemma_own_turn(v);
    lemma_kept_all(v, candidates(hand, v.me.drawn_tile), c);
    lemma_candidates(hand, v.me.drawn_tile, c);
    let holds = drawn_is_last(hand, v.me.drawn_tile);
    let cut = if holds { hand.drop_last() } else { hand };
    if cut.contains(c.0) {
        let i = choose|i: int| 0 <= i < cut.len() && cut[i] == c.0;
        assert(hand[i] == c.0);
    }
    if exists|i: int| 0 <= i < hand.len() && #[trigger] hand[i] == c.0 && !(holds && i == hand.len() - 1) {
        let i = choose|i: int| 0 <= i < hand.len() && #[trigger] hand[i] == c.0 && !(holds && i == hand.len() - 1);
        assert(cut[i] == c.0);
    }
}

/// Exactly the discards that the rules allow are offered, each by its origin, and in the dealer's
/// opening without it.
pub proof fn discards_are_offered_exactly(v: TableFacts, tile: Tile, drawn: bool)
    requires
        v.me.melds.len() <= 255,
    ensures
        turn_actions(v).contains(TurnAction::Discard { tile, tsumogiri: drawn }) <==> !v.me.dealer_opening && may_discard(
            v,
            tile,
            drawn,
        ),
        turn_actions(v).contains(TurnAction::DealerOpeningDiscard { tile }) <==> v.me.dealer_opening && (may_discard(
            v,
            tile,
            true,
        ) || may_discard(v, tile, false)),
{
    lemma_own_turn(v);
    if is_to_act(v) {
        let x = TurnAction::Discard { tile, tsumogiri: drawn };
        let y = TurnAction::DealerOpeningDiscard { tile };
        lemma_offered(v, x);
        lemma_offered(v, y);
        lemma_mapped(v, discards_of_view(v), x);
        lemma_mapped(v, discards_of_view(v), y);
        assert forall|c: Candidate| #[trigger] discards_of_view(v).contains(c) <==> may_discard(v, c.0, c.1) by {
            lemma_may_discard(v, c);
        }
        if !v.me.dealer_opening && may_discard(v, tile, drawn) {
            assert(discards_of_view(v).contains((tile, drawn)));
        }
        if v.me.dealer_opening {
            if may_discard(v, tile, true) {
                assert(discards_of_view(v).contains((tile, true)));
            }
            if may_discard(v, tile, false) {
                assert(discards_of_view(v).contains((tile, false)));
            }
        }
    }
}

/// Riichi may be declared with a discard: after a draw, with a closed hand, not yet declared, with
/// a stick to put down and a draw to come for each seat unless the rules ask for none, where the
/// hand left is in tenpai.
pub open spec fn may_riichi(v: TableFacts, tile: Tile) -> bool {
    &&& v.me.drawn_tile is Some || v.me.dealer_opening
    &&& forall|i: int| 0 <= i < v.me.melds.len() ==> (#[trigger] v.me.melds[i]) is Ankan || v.me.melds[i] is Nukidora
    &&& !v.me.riichi
    &&& v.me.seat < v.scores.len() && v.scores[v.me.seat as int] >= 1000
    &&& v.rule_profile.no_draw_riichi || v.tiles_left >= v.others.len() + 1
    &&& shanten_value(
        counts_of(v.me.hand).update(tile.kind() as int, (counts_of(v.me.hand)[tile.kind() as int] - 1) as u8),
        called_count(v.me.melds) as u8,
        v.others.len() == 2,
    ) == 0
}

/// Riichi is offered exactly with the discards that may declare it.
pub proof fn riichi_is_offered_exactly(v: TableFacts, tile: Tile, drawn: bool)
    requires
        v.me.melds.len() <= 255,
        v.others.len() <= 3,
    ensures
        turn_actions(v).contains(TurnAction::Riichi { tile, tsumogiri: drawn }) <==> !v.me.dealer_opening && may_discard(
            v,
            tile,
            drawn,
        ) && may_riichi(v, tile),
        turn_actions(v).contains(TurnAction::DealerOpeningRiichi { tile }) <==> v.me.dealer_opening && (may_discard(
            v,
            tile,
            true,
        ) || may_discard(v, tile, false)) && may_riichi(v, tile),
{
    lemma_own_turn(v);
    assert forall|i: int| 0 <= i < v.me.melds.len() implies ((#[trigger] v.me.melds[i]).breaks_menzen() <==> !(v.me.melds[i] is Ankan
        || v.me.melds[i] is Nukidora)) by {}
    if is_to_act(v) {
        let x = TurnAction::Riichi { tile, tsumogiri: drawn };
        let y = TurnAction::DealerOpeningRiichi { tile };
        let s = discards_of_view(v);
        lemma_offered(v, x);
        lemma_offered(v, y);
        lemma_riichis_only(v, s, x);
        lemma_riichis_only(v, s, y);
        assert forall|c: Candidate| #[trigger] s.contains(c) <==> may_discard(v, c.0, c.1) by {
            lemma_may_discard(v, c);
        }
        if can_riichi(v) && leaves_tenpai(v, (tile, drawn)) && may_discard(v, tile, drawn) {
            assert(s.contains((tile, drawn)));
        }
        if can_riichi(v) && leaves_tenpai(v, (tile, true)) && may_discard(v, tile, true) {
            assert(s.contains((tile, true)));
        }
        if can_riichi(v) && leaves_tenpai(v, (tile, false)) && may_discard(v, tile, false) {
            assert(s.contains((tile, false)));
        }
    }
}

// Declarations.

proof fn lemma_first_of_kind(hand: Seq<Tile>, k: int)
    ensures
        first_of_kind(hand, k) is Some <==> exists|i: int| 0 <= i < hand.len() && (#[trigger] hand[i]).kind() == k,
        first_of_kind(hand, k) is Some ==> hand.contains(first_of_kind(hand, k)->0) && (first_of_kind(hand, k)->0).kind() == k,
    decreases hand.len(),
{
    if hand.len() > 0 {
        let r = hand.drop_first();
        lemma_first_of_kind(r, k);
        assert(hand.contains(hand[0]));
        if hand[0].kind() != k {
            if first_of_kind(r, k) is Some {
                let t = first_of_kind(r, k)->0;
                let i = choose|i: int| 0 <= i < r.len() && r[i] == t;
                assert(hand[i + 1] == t);
            }
            if exists|i: int| 0 <= i < hand.len() && (#[trigger] hand[i]).kind() == k {
                let i = choose|i: int| 0 <= i < hand.len() && (#[trigger] hand[i]).kind() == k;
                assert(r[i - 1].kind() == k);
            }
        }
    }
}

/// A kan may be declared: after a draw, with a tile left to replace it and fewer than four kans at
/// the table.
pub open spec fn may_kan(v: TableFacts) -> bool {
    is_own_turn(v) && (v.me.drawn_tile is Some || v.me.dealer_opening) && v.tiles_left > 0 && kans_at_table(v) < 4
}

/// In riichi a closed kan is allowed where the rules allow it at all, with the drawn fourth tile,
/// and where the hand waits for the same tiles without the four as it did before the draw.
pub open spec fn keeps_waits(v: TableFacts, k: int) -> bool {
    let c = counts_of(v.me.hand);
    let melds = called_count(v.me.melds) as u8;
    let before = winning_kinds(c.update(k, (c[k] - 1) as u8), melds, v.others.len() == 2);
    &&& v.rule_profile.riichi_ankan == RiichiAnkanRule::DrawnFourthAndWaitsUnchanged
    &&& v.me.hand[v.me.hand.len() - 1].kind() == k
    &&& before.len() > 0
    &&& winning_kinds(c.update(k, (c[k] - 4) as u8), (melds + 1) as u8, v.others.len() == 2) == before
}

/// A closed kan is offered exactly of a kind held four times, named by its plain tile, where kans
/// may be declared; in riichi only where it keeps the waits.
pub proof fn closed_kans_are_offered_exactly(v: TableFacts, tile: Tile)
    requires
        v.me.melds.len() <= 255,
    ensures
        turn_actions(v).contains(TurnAction::Ankan { tile }) <==> may_kan(v) && exists|k: int|
            0 <= k < 34 && tile == #[trigger] Tile::of(k) && counts_of(v.me.hand)[k] == 4 && (v.me.riichi ==> keeps_waits(v, k)),
{
    lemma_own_turn(v);
    lemma_at_table(v);
    if is_to_act(v) {
        let x = TurnAction::Ankan { tile };
        lemma_offered(v, x);
        lemma_ankans_only(v, x);
        if exists|k: int|
            0 <= k < 34 && tile == #[trigger] Tile::of(k) && counts_of(v.me.hand)[k] == 4 && (v.me.riichi ==> keeps_waits(
                v,
                k,
            )) {
            let k = choose|k: int|
                0 <= k < 34 && tile == #[trigger] Tile::of(k) && counts_of(v.me.hand)[k] == 4 && (v.me.riichi ==> keeps_waits(
                    v,
                    k,
                ));
            assert(ankan_ok(v, k));
        }
        if ankans(v).contains(x) {
            let k = choose|k: int|
                0 <= k < 34 && x == (TurnAction::Ankan { tile: Tile::of(k) }) && #[trigger] ankan_ok(v, k);
            assert(tile == Tile::of(k));
        }
    }
}

/// An added kan is offered exactly for each pon whose fourth tile is in hand, where kans may be
/// declared, and with a tile of that kind from the hand.
pub proof fn added_kans_are_offered_exactly(v: TableFacts, k: int)
    requires
        v.me.melds.len() <= 255,
    ensures
        (exists|tile: Tile| tile.kind() == k && #[trigger] turn_actions(v).contains(TurnAction::Kakan { tile })) <==> may_kan(v)
            && (exists|i: int| 0 <= i < v.me.melds.len() && (#[trigger] v.me.melds[i]) is Pon && v.me.melds[i]->Pon_tile.kind()
            == k) && exists|i: int| 0 <= i < v.me.hand.len() && (#[trigger] v.me.hand[i]).kind() == k,
        forall|tile: Tile| #[trigger]
            turn_actions(v).contains(TurnAction::Kakan { tile }) ==> v.me.hand.contains(tile),
{
    lemma_own_turn(v);
    lemma_at_table(v);
    let hand = v.me.hand;
    let melds = v.me.melds;
    if is_to_act(v) {
        lemma_first_of_kind(hand, k);
        assert forall|tile: Tile| #[trigger] turn_actions(v).contains(TurnAction::Kakan { tile }) <==> can_kan(v) && exists|
            i: int,
        |
            0 <= i < melds.len() && (#[trigger] melds[i]) is Pon && first_of_kind(hand, melds[i]->Pon_tile.kind() as int)
                == Some(tile) by {
            lemma_offered(v, TurnAction::Kakan { tile });
            lemma_kakans_only(hand, melds, TurnAction::Kakan { tile });
        }
        assert forall|tile: Tile| #[trigger] turn_actions(v).contains(TurnAction::Kakan { tile }) implies hand.contains(tile) by {
            let i = choose|i: int|
                0 <= i < melds.len() && (#[trigger] melds[i]) is Pon && first_of_kind(hand, melds[i]->Pon_tile.kind() as int)
                    == Some(tile);
            lemma_first_of_kind(hand, melds[i]->Pon_tile.kind() as int);
        }
        if exists|tile: Tile| tile.kind() == k && #[trigger] turn_actions(v).contains(TurnAction::Kakan { tile }) {
            let tile = choose|tile: Tile|
                tile.kind() == k && #[trigger] turn_actions(v).contains(TurnAction::Kakan { tile });
            let i = choose|i: int|
                0 <= i < melds.len() && (#[trigger] melds[i]) is Pon && first_of_kind(hand, melds[i]->Pon_tile.kind() as int)
                    == Some(tile);
            lemma_first_of_kind(hand, melds[i]->Pon_tile.kind() as int);
            assert(melds[i]->Pon_tile.kind() == k);
        }
        if may_kan(v) && (exists|i: int|
            0 <= i < melds.len() && (#[trigger] melds[i]) is Pon && melds[i]->Pon_tile.kind() == k) && first_of_kind(
            hand,
            k,
        ) is Some {
            let i = choose|i: int| 0 <= i < melds.len() && (#[trigger] melds[i]) is Pon && melds[i]->Pon_tile.kind() == k;
            let tile = first_of_kind(hand, k)->0;
            assert(first_of_kind(hand, melds[i]->Pon_tile.kind() as int) == Some(tile));
            assert(turn_actions(v).contains(TurnAction::Kakan { tile }));
        }
    }
}

proof fn lemma_counted(hand: Seq<Tile>, k: int)
    ensures
        count_kind(hand, k) > 0 <==> exists|i: int| 0 <= i < hand.len() && (#[trigger] hand[i]).kind() == k,
        count_kind(hand, k) <= hand.len(),
    decreases hand.len(),
{
    if hand.len() > 0 {
        let r = hand.drop_last();
        lemma_counted(r, k);
        assert(hand[hand.len() - 1] == hand.last());
        if exists|i: int| 0 <= i < r.len() && (#[trigger] r[i]).kind() == k {
            let i = choose|i: int| 0 <= i < r.len() && (#[trigger] r[i]).kind() == k;
            assert(hand[i] == r[i]);
        }
        if exists|i: int| 0 <= i < hand.len() && (#[trigger] hand[i]).kind() == k {
            let i = choose|i: int| 0 <= i < hand.len() && (#[trigger] hand[i]).kind() == k;
            if i < r.len() {
                assert(r[i] == hand[i]);
            }
        }
    }
}

/// Setting a North aside is offered exactly at a table of three, after a draw, with a tile left to
/// replace it, fewer than four Norths aside and one in hand; in riichi only one just drawn.
pub proof fn norths_are_offered_exactly(v: TableFacts)
    requires
        v.me.melds.len() <= 255,
    ensures
        turn_actions(v).contains(TurnAction::Nukidora) <==> {
            &&& is_own_turn(v)
            &&& v.me.drawn_tile is Some || v.me.dealer_opening
            &&& v.others.len() == 2
            &&& v.tiles_left > 0
            &&& norths_at_table(v) < 4
            &&& exists|i: int| 0 <= i < v.me.hand.len() && (#[trigger] v.me.hand[i]).kind() == 30
            &&& v.me.riichi ==> v.me.drawn_tile is Some && (v.me.drawn_tile->0).kind() == 30
        },
{
    lemma_own_turn(v);
    lemma_at_table(v);
    lemma_counted(v.me.hand, 30);
    if is_to_act(v) {
        lemma_offered(v, TurnAction::Nukidora);
    }
}

proof fn lemma_ends_part(c: Seq<u8>, n: int)
    requires
        0 <= n <= c.len() <= 34,
    ensures
        yaochuu_kinds(c.take(n)) == tally(n, |k: int| (is_end(k) || is_letter(k)) && c[k] > 0),
    decreases n,
{
    if n > 0 {
        lemma_ends_part(c, n - 1);
        assert(c.take(n).drop_last() =~= c.take(n - 1));
    }
}

/// Nine kinds of ends and letters end the hand exactly in the first window, after a draw.
pub proof fn nine_ends_are_offered_exactly(v: TableFacts)
    requires
        v.me.melds.len() <= 255,
    ensures
        turn_actions(v).contains(TurnAction::KyuushuKyuuhai) <==> {
            &&& is_own_turn(v)
            &&& v.me.drawn_tile is Some || v.me.dealer_opening
            &&& v.kyuushu_kyuuhai_window
            &&& places(34, |k: int| (is_end(k) || is_letter(k)) && holds_kind(v.me.hand, k)).len() >= 9
        },
{
    lemma_own_turn(v);
    if is_to_act(v) {
        lemma_offered(v, TurnAction::KyuushuKyuuhai);
        let c = counts_of(v.me.hand);
        lemma_ends_part(c, 34);
        assert(c.take(34) =~= c);
        let p = |k: int| (is_end(k) || is_letter(k)) && c[k] > 0;
        let q = |k: int| (is_end(k) || is_letter(k)) && holds_kind(v.me.hand, k);
        lemma_tally(34, p);
        assert(places(34, p) =~= places(34, q)) by {
            assert forall|k: int| 0 <= k < 34 implies #[trigger] p(k) == q(k) by {
                lemma_counted(v.me.hand, k);
                assert(c[k] == count_kind(v.me.hand, k) as u8);
            }
        }
    }
}

/// A tile of a kind is in hand.
pub open spec fn holds_kind(hand: Seq<Tile>, k: int) -> bool {
    exists|i: int| 0 <= i < hand.len() && (#[trigger] hand[i]).kind() == k
}

proof fn lemma_count_part(hand: Seq<Tile>, k: int, n: int)
    requires
        0 <= n <= hand.len(),
    ensures
        count_kind(hand.take(n), k) == tally(n, |i: int| hand[i].kind() == k),
    decreases n,
{
    if n > 0 {
        lemma_count_part(hand, k, n - 1);
        assert(hand.take(n).drop_last() =~= hand.take(n - 1));
    }
}

/// A kind is counted once for each place that holds it.
pub proof fn lemma_count_places(hand: Seq<Tile>, k: int)
    ensures
        count_kind(hand, k) == places(hand.len(), |i: int| hand[i].kind() == k).len(),
{
    lemma_count_part(hand, k, hand.len() as int);
    assert(hand.take(hand.len() as int) =~= hand);
    lemma_tally(hand.len() as int, |i: int| hand[i].kind() == k);
}

} // verus!
