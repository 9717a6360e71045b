//! Which responses a seat is offered: ron and calls, each exactly where the rules allow it.

use vstd::prelude::*;
use vstd::seq_lib::*;
use crate::mahjong::agari::{completes, is_win};
use crate::mahjong::decompose::is_thirteen_orphans;
use crate::mahjong::hand::{count_kind, lemma_kinds_below};
use crate::mahjong::tile::{Suit, Tile};
use crate::mahjong::yaku_laws::places;
use crate::maintainer::action::RobberyKind;
use crate::maintainer::legal::{
    calls_on, can_ron, chis_of, counts_with, declared_kans, of_kind, pons_of, reactions, response_if, scores,
    view_win, Response,
};
use crate::maintainer::offer_laws::{
    called_count, kans_at_table, lemma_at_table, lemma_called, lemma_in_both, lemma_pushed,
};
use crate::maintainer::player::{counts_of, hand_waits, open_groups, waits_discarded};
use crate::maintainer::scoring::settlement;
use crate::maintainer::tileset::{
    by_id, chi_pairs, completes_run, first_of, forbidden_after_chi, leaves_discard, lemma_first_of, of_rank,
    pairs_below, with_later, with_pairs, with_pairs_of, with_ranks, without, without_all, Pair,
};
use crate::maintainer::view::TableFacts;

verus! {

// Tiles taken from a hand.

/// One where a condition holds, else none.
pub open spec fn one(c: bool) -> nat {
    if c { 1 } else { 0 }
}

/// Taking a tile from a hand takes one copy of it and leaves the rest.
pub proof fn lemma_without(s: Seq<Tile>, t: Tile)
    ensures
        s.contains(t) ==> without(s, t).to_multiset() == s.to_multiset().remove(t),
        !s.contains(t) ==> without(s, t) == s,
        s.contains(t) ==> without(s, t).len() == s.len() - 1,
{
    lemma_first_of(s, t);
    s.to_multiset_ensures();
    if s.contains(t) {
        assert(s.remove(first_of(s, t)).to_multiset() =~= s.to_multiset().remove(t));
    }
}

/// A hand that holds two tiles at two places holds a further tile.
pub open spec fn has_further(hand: Seq<Tile>, a: Tile, b: Tile, x: Tile) -> bool {
    hand.to_multiset().count(x) > one(x == a) + one(x == b)
}

/// Two tiles stand at two places of a hand.
pub open spec fn has_both(hand: Seq<Tile>, a: Tile, b: Tile) -> bool {
    exists|i: int, j: int| 0 <= i < hand.len() && 0 <= j < hand.len() && i != j && #[trigger] hand[i] == a && #[trigger] hand[j] == b
}

proof fn lemma_left(hand: Seq<Tile>, a: Tile, b: Tile, x: Tile)
    requires
        has_both(hand, a, b),
    ensures
        without_all(hand, seq![a, b]).contains(x) <==> has_further(hand, a, b, x),
{
    let (i, j) = choose|i: int, j: int|
        0 <= i < hand.len() && 0 <= j < hand.len() && i != j && #[trigger] hand[i] == a && #[trigger] hand[j] == b;
    let h = without(hand, a);
    let r = without(h, b);
    assert(seq![a, b].drop_last() =~= seq![a]);
    assert(seq![a].drop_last() =~= Seq::empty());
    assert(without_all(hand, Seq::empty()) == hand);
    assert(without_all(hand, seq![a]) == h);
    assert(without_all(hand, seq![a, b]) == r);
    lemma_without(hand, a);
    lemma_first_of(hand, a);
    let f = first_of(hand, a);
    assert(hand.contains(a));
    assert(h.contains(b)) by {
        let m = if f == j { i } else { j };
        assert(hand[m] == b);
        if m < f {
            assert(h[m] == b);
        } else {
            assert(h[m - 1] == b);
        }
    }
    lemma_without(h, b);
    hand.to_multiset_ensures();
    h.to_multiset_ensures();
    r.to_multiset_ensures();
    assert(r.to_multiset() == hand.to_multiset().remove(a).remove(b));
    assert(r.contains(x) <==> r.to_multiset().count(x) > 0);
    assert(hand.to_multiset().count(a) > 0);
    assert(h.to_multiset().count(b) > 0);
}

// Pairs of a kind.

proof fn lemma_of_kind(hand: Seq<Tile>, k: int)
    ensures
        of_kind(hand, k).len() == count_kind(hand, k),
    decreases hand.len(),
{
    if hand.len() > 0 {
        lemma_of_kind(hand.drop_last(), k);
    }
}

spec fn in_turn(s: Seq<Tile>, a: Tile, b: Tile) -> bool {
    exists|i: int, j: int| 0 <= i < j < s.len() && #[trigger] s[i] == a && #[trigger] s[j] == b
}

proof fn lemma_in_turn(s: Seq<Tile>, a: Tile, b: Tile)
    ensures
        s.len() > 0 ==> (in_turn(s, a, b) <==> in_turn(s.drop_last(), a, b) || (s.last() == b && s.drop_last().contains(a))),
        has_both(s, a, b) <==> in_turn(s, a, b) || in_turn(s, b, a),
{
    if s.len() > 0 {
        let r = s.drop_last();
        if in_turn(s, a, b) {
            let (i, j) = choose|i: int, j: int| 0 <= i < j < s.len() && #[trigger] s[i] == a && #[trigger] s[j] == b;
            assert(r[i] == a);
            if j < r.len() {
                assert(r[j] == b);
            }
        }
        if in_turn(r, a, b) {
            let (i, j) = choose|i: int, j: int| 0 <= i < j < r.len() && #[trigger] r[i] == a && #[trigger] r[j] == b;
            assert(s[i] == a && s[j] == b);
        }
        if s.last() == b && r.contains(a) {
            let i = choose|i: int| 0 <= i < r.len() && r[i] == a;
            assert(s[i] == a && s[s.len() - 1] == b);
        }
    }
    if has_both(s, a, b) {
        let (i, j) = choose|i: int, j: int|
            0 <= i < s.len() && 0 <= j < s.len() && i != j && #[trigger] s[i] == a && #[trigger] s[j] == b;
        if i < j {
            assert(in_turn(s, a, b));
        } else {
            assert(in_turn(s, b, a));
        }
    }
}

proof fn lemma_kind_held(hand: Seq<Tile>, k: int, a: Tile, b: Tile)
    ensures
        of_kind(hand, k).contains(a) <==> hand.contains(a) && a.kind() == k,
        in_turn(of_kind(hand, k), a, b) <==> in_turn(hand, a, b) && a.kind() == k && b.kind() == k,
    decreases hand.len(),
{
    lemma_in_turn(hand, a, b);
    lemma_in_turn(of_kind(hand, k), a, b);
    if hand.len() > 0 {
        let r = hand.drop_last();
        lemma_kind_held(r, k, a, b);
        assert(hand =~= r.push(hand.last()));
        lemma_pushed(r, hand.last(), a);
        lemma_pushed(of_kind(r, k), hand.last(), a);
        if hand.last().kind() == k {
            assert(of_kind(hand, k).drop_last() =~= of_kind(r, k));
        }
    }
}

proof fn lemma_with_later(s: Seq<Pair>, tiles: Seq<Tile>, i: int, j: int, p: Pair)
    requires
        0 <= i,
        j <= tiles.len(),
    ensures
        with_later(s, tiles, i, j).contains(p) <==> s.contains(p) || exists|m: int|
            i < m < j && p == by_id(tiles[i], #[trigger] tiles[m]),
    decreases j - i,
{
    if j > i + 1 {
        lemma_with_later(s, tiles, i, j - 1, p);
        let t = with_later(s, tiles, i, j - 1);
        lemma_pushed(t, by_id(tiles[i], tiles[j - 1]), p);
    }
}

proof fn lemma_pairs_below(tiles: Seq<Tile>, n: int, p: Pair)
    requires
        n <= tiles.len(),
    ensures
        pairs_below(tiles, n).contains(p) <==> exists|i: int, m: int|
            0 <= i < n && i < m < tiles.len() && p == by_id(#[trigger] tiles[i], #[trigger] tiles[m]),
    decreases n,
{
    if n > 0 {
        lemma_pairs_below(tiles, n - 1, p);
        lemma_with_later(pairs_below(tiles, n - 1), tiles, n - 1, tiles.len() as int, p);
        if exists|i: int, m: int| 0 <= i < n && i < m < tiles.len() && p == by_id(#[trigger] tiles[i], #[trigger] tiles[m]) {
            let (i, m) = choose|i: int, m: int|
                0 <= i < n && i < m < tiles.len() && p == by_id(#[trigger] tiles[i], #[trigger] tiles[m]);
            if i == n - 1 {
                assert(p == by_id(tiles[n - 1], tiles[m]));
            }
        }
        if exists|m: int| n - 1 < m < tiles.len() && p == by_id(tiles[n - 1], #[trigger] tiles[m]) {
            let m = choose|m: int| n - 1 < m < tiles.len() && p == by_id(tiles[n - 1], #[trigger] tiles[m]);
            assert(p == by_id(tiles[n - 1], tiles[m]));
        }
    }
}

proof fn lemma_pon_pairs(hand: Seq<Tile>, k: int, a: Tile, b: Tile)
    ensures
        pairs_below(of_kind(hand, k), of_kind(hand, k).len() as int).contains((a, b)) <==> a.kind() == k && b.kind() == k && a.id()
            <= b.id() && has_both(hand, a, b),
{
    let s = of_kind(hand, k);
    lemma_pairs_below(s, s.len() as int, (a, b));
    lemma_kind_held(hand, k, a, b);
    lemma_kind_held(hand, k, b, a);
    lemma_in_turn(hand, a, b);
    if pairs_below(s, s.len() as int).contains((a, b)) {
        let (i, m) = choose|i: int, m: int|
            0 <= i < s.len() && i < m < s.len() && (a, b) == by_id(#[trigger] s[i], #[trigger] s[m]);
        if s[m].id() < s[i].id() {
            assert(in_turn(s, b, a));
        } else {
            assert(in_turn(s, a, b));
        }
    }
    if a.id() <= b.id() {
        if in_turn(s, a, b) {
            let (i, m) = choose|i: int, m: int| 0 <= i < m < s.len() && #[trigger] s[i] == a && #[trigger] s[m] == b;
            assert((a, b) == by_id(s[i], s[m]));
        }
        if in_turn(s, b, a) {
            let (i, m) = choose|i: int, m: int| 0 <= i < m < s.len() && #[trigger] s[i] == b && #[trigger] s[m] == a;
            assert((a, b) == by_id(s[i], s[m]));
        }
    }
}

proof fn lemma_pons(v: TableFacts, k: usize, pairs: Seq<Pair>, x: Response)
    ensures
        pons_of(v, k, pairs).contains(x) <==> x is Pon && pairs.contains((x->Pon_0, x->Pon_1)) && (v.rule_profile.kuikae_forbidden
            ==> leaves_discard(v.me.hand, seq![x->Pon_0, x->Pon_1], seq![k])),
    decreases pairs.len(),
{
    if pairs.len() > 0 {
        let r = pairs.drop_last();
        lemma_pons(v, k, r, x);
        assert(pairs =~= r.push(pairs.last()));
        if x is Pon {
            lemma_pushed(r, pairs.last(), (x->Pon_0, x->Pon_1));
        }
        lemma_pushed(pons_of(v, k, r), Response::Pon(pairs.last().0, pairs.last().1), x);
    }
}

proof fn lemma_chis(v: TableFacts, tile: Tile, pairs: Seq<Pair>, x: Response)
    ensures
        chis_of(v, tile, pairs).contains(x) <==> x is Chi && pairs.contains((x->Chi_0, x->Chi_1)) && (v.rule_profile.kuikae_forbidden
            ==> leaves_discard(v.me.hand, seq![x->Chi_0, x->Chi_1], forbidden_after_chi(tile, x->Chi_0, x->Chi_1))),
    decreases pairs.len(),
{
    if pairs.len() > 0 {
        let r = pairs.drop_last();
        lemma_chis(v, tile, r, x);
        assert(pairs =~= r.push(pairs.last()));
        if x is Chi {
            lemma_pushed(r, pairs.last(), (x->Chi_0, x->Chi_1));
        }
        lemma_pushed(chis_of(v, tile, r), Response::Chi(pairs.last().0, pairs.last().1), x);
    }
}

// Pairs of a sequence.

proof fn lemma_of_rank(hand: Seq<Tile>, suit: Suit, n: int, t: Tile)
    ensures
        of_rank(hand, suit, n).contains(t) <==> hand.contains(t) && t.suit() == suit && t.rank() is Some && t.rank()->0 == n,
    decreases hand.len(),
{
    if hand.len() > 0 {
        let r = hand.drop_last();
        lemma_of_rank(r, suit, n, t);
        assert(hand =~= r.push(hand.last()));
        lemma_pushed(r, hand.last(), t);
        lemma_pushed(of_rank(r, suit, n), hand.last(), t);
    }
}

proof fn lemma_with_pairs_of(s: Seq<Pair>, a: Tile, right: Seq<Tile>, p: Pair)
    ensures
        with_pairs_of(s, a, right).contains(p) <==> s.contains(p) || (p.0 == a && right.contains(p.1)),
    decreases right.len(),
{
    if right.len() > 0 {
        let r = right.drop_last();
        lemma_with_pairs_of(s, a, r, p);
        assert(right =~= r.push(right.last()));
        lemma_pushed(r, right.last(), p.1);
        lemma_pushed(with_pairs_of(s, a, r), (a, right.last()), p);
    }
}

proof fn lemma_with_pairs(s: Seq<Pair>, left: Seq<Tile>, right: Seq<Tile>, p: Pair)
    ensures
        with_pairs(s, left, right).contains(p) <==> s.contains(p) || (left.contains(p.0) && right.contains(p.1)),
    decreases left.len(),
{
    if left.len() > 0 {
        let r = left.drop_last();
        lemma_with_pairs(s, r, right, p);
        assert(left =~= r.push(left.last()));
        lemma_pushed(r, left.last(), p.0);
        lemma_with_pairs_of(with_pairs(s, r, right), left.last(), right, p);
    }
}

/// Three kinds are a run of one suit, in order.
pub open spec fn is_straight(x: int, y: int, z: int) -> bool {
    y == x + 1 && z == y + 1 && 0 <= x && z < 27 && x / 9 == z / 9
}

/// Two kinds, the lower first, are a run with a third.
pub open spec fn meets(a: int, b: int, k: int) -> bool {
    is_straight(k, a, b) || is_straight(a, k, b) || is_straight(a, b, k)
}

proof fn lemma_rank_kind(t: Tile, called: Tile, d: int)
    requires
        called.rank() is Some,
        -2 <= d <= 2,
        1 <= called.rank()->0 + d <= 9,
    ensures
        t.suit() == called.suit() && t.rank() is Some && t.rank()->0 == called.rank()->0 + d <==> t.kind() == called.kind() + d,
{
    let k = called.kind() as int;
    assert(k < 27);
    assert(called.rank()->0 == k % 9 + 1);
}

proof fn lemma_chi_pairs(hand: Seq<Tile>, called: Tile, a: Tile, b: Tile)
    ensures
        chi_pairs(hand, called).contains((a, b)) <==> hand.contains(a) && hand.contains(b) && called.kind() < 27 && meets(
            a.kind() as int,
            b.kind() as int,
            called.kind() as int,
        ),
{
    if called.rank() is Some {
        let r = called.rank()->0 as int;
        let s = called.suit();
        let k = called.kind() as int;
        let e = Seq::<Pair>::empty();
        let low = with_ranks(e, hand, s, r + 1, r + 2);
        let mid = with_ranks(low, hand, s, r - 1, r + 1);
        lemma_with_pairs(e, of_rank(hand, s, r + 1), of_rank(hand, s, r + 2), (a, b));
        lemma_with_pairs(low, of_rank(hand, s, r - 1), of_rank(hand, s, r + 1), (a, b));
        lemma_with_pairs(mid, of_rank(hand, s, r - 2), of_rank(hand, s, r - 1), (a, b));
        lemma_of_rank(hand, s, r + 1, a);
        lemma_of_rank(hand, s, r + 2, b);
        lemma_of_rank(hand, s, r - 1, a);
        lemma_of_rank(hand, s, r + 1, b);
        lemma_of_rank(hand, s, r - 2, a);
        lemma_of_rank(hand, s, r - 1, b);
        assert(r == k % 9 + 1);
        if r + 2 <= 9 {
            lemma_rank_kind(a, called, 1);
            lemma_rank_kind(b, called, 2);
        }
        if 1 <= r - 1 && r + 1 <= 9 {
            lemma_rank_kind(a, called, -1);
            lemma_rank_kind(b, called, 1);
        }
        if 1 <= r - 2 {
            lemma_rank_kind(a, called, -2);
            lemma_rank_kind(b, called, -1);
        }
    }
}

/// A kind may not be thrown right after a chi: the called kind, and one that would form a sequence
/// with the same two tiles.
pub open spec fn is_swap(called: Tile, a: Tile, b: Tile, k: int) -> bool {
    k == called.kind() || meets(a.kind() as int, b.kind() as int, k)
}

/// Right after a chi of two tiles, the lower first, exactly the swaps are forbidden.
pub proof fn swaps_are_forbidden_after_chi(called: Tile, a: Tile, b: Tile, k: usize)
    requires
        a.kind() < b.kind(),
    ensures
        forbidden_after_chi(called, a, b).contains(k) <==> is_swap(called, a, b, k as int),
{
    let p = |j: int| completes_run(j, a, b);
    let runs = crate::mahjong::hand::kinds_below(27, p);
    lemma_kinds_below(27, p);
    lemma_pushed(runs, called.kind(), k);
    assert(runs.contains(k) <==> k < 27 && p(k as int)) by {
        if k < 27 && p(k as int) {
            let i = choose|i: int| 0 <= i < runs.len() && runs[i] == k;
        }
        if runs.contains(k) {
            let i = choose|i: int| 0 <= i < runs.len() && runs[i] == k;
            assert(p(runs[i] as int));
        }
    }
    let x = a.kind() as int;
    let y = b.kind() as int;
    assert(k < 27 && completes_run(k as int, a, b) <==> meets(x, y, k as int));
}

// Responses.

/// Another seat's discard can be called: a tile is left to draw, no fourth kan ends the hand, and
/// the seat is not in riichi.
pub open spec fn may_call(v: TableFacts) -> bool {
    &&& v.state_error is None && !v.round_terminal
    &&& v.pending_robbery is None
    &&& v.last_discard is Some && (v.last_discard->0).0 != v.me.seat
    &&& v.tiles_left > 0 && !v.suukaikan_pending && !v.me.riichi
}

proof fn lemma_response(c: bool, a: Response, x: Response)
    ensures
        response_if(c, a).contains(x) <==> c && x == a,
{
    if c {
        assert(response_if(c, a)[0] == a);
    }
}

spec fn answers(v: TableFacts, x: Response) -> bool {
    let (from, tile) = v.last_discard->0;
    let same = of_kind(v.me.hand, tile.kind() as int);
    match x {
        Response::Ron => can_ron(v, tile, false),
        Response::Pon(..) => may_call(v) && pons_of(v, tile.kind(), pairs_below(same, same.len() as int)).contains(x),
        Response::Daiminkan => may_call(v) && same.len() >= 3 && declared_kans(v) < 4,
        Response::Chi(..) => may_call(v) && v.others.len() + 1 == 4 && (from + 1) % 4 == v.me.seat && chis_of(
            v,
            tile,
            chi_pairs(v.me.hand, tile),
        ).contains(x),
        Response::Pass => false,
    }
}

proof fn lemma_answers(v: TableFacts, x: Response)
    requires
        v.state_error is None && !v.round_terminal,
        v.pending_robbery is None,
        v.last_discard is Some && (v.last_discard->0).0 != v.me.seat,
    ensures
        reactions(v).contains(x) <==> answers(v, x),
{
    let (from, tile) = v.last_discard->0;
    let same = of_kind(v.me.hand, tile.kind() as int);
    let pairs = pairs_below(same, same.len() as int);
    let ron = response_if(can_ron(v, tile, false), Response::Ron);
    let calls = if v.tiles_left == 0 || v.suukaikan_pending || v.me.riichi { Seq::empty() } else { calls_on(v, from, tile) };
    lemma_in_both(ron, calls, x);
    lemma_response(can_ron(v, tile, false), Response::Ron, x);
    let p = pons_of(v, tile.kind(), pairs);
    let d = response_if(same.len() >= 3 && declared_kans(v) < 4, Response::Daiminkan);
    let c = if v.others.len() + 1 == 4 && (from + 1) % 4 == v.me.seat {
        chis_of(v, tile, chi_pairs(v.me.hand, tile))
    } else {
        Seq::empty()
    };
    lemma_response(same.len() >= 3 && declared_kans(v) < 4, Response::Daiminkan, x);
    lemma_in_both(p, d, x);
    lemma_in_both(p + d, c, x);
    lemma_pons(v, tile.kind(), pairs, x);
    lemma_chis(v, tile, chi_pairs(v.me.hand, tile), x);
}

/// A pon is offered exactly of two tiles of the discard's kind from hand, a plain five before a red
/// one; where swaps are forbidden, only with a tile of another kind left to throw.
pub proof fn pons_are_offered_exactly(v: TableFacts, a: Tile, b: Tile)
    ensures
        reactions(v).contains(Response::Pon(a, b)) <==> {
            let k = (v.last_discard->0).1.kind();
            &&& may_call(v)
            &&& a.kind() == k && b.kind() == k && a.id() <= b.id()
            &&& has_both(v.me.hand, a, b)
            &&& v.rule_profile.kuikae_forbidden ==> exists|i: int|
                0 <= i < v.me.hand.len() && (#[trigger] v.me.hand[i]).kind() != k
        },
{
    let x = Response::Pon(a, b);
    if may_call(v) {
        let tile = (v.last_discard->0).1;
        let k = tile.kind();
        let hand = v.me.hand;
        lemma_answers(v, x);
        let same = of_kind(hand, k as int);
        lemma_pons(v, k, pairs_below(same, same.len() as int), x);
        lemma_pon_pairs(hand, k as int, a, b);
        if a.kind() == k && b.kind() == k && has_both(hand, a, b) {
            let rest = without_all(hand, seq![a, b]);
            assert(seq![k][0] == k);
            hand.to_multiset_ensures();
            if exists|i: int| 0 <= i < hand.len() && (#[trigger] hand[i]).kind() != k {
                let i = choose|i: int| 0 <= i < hand.len() && (#[trigger] hand[i]).kind() != k;
                lemma_left(hand, a, b, hand[i]);
                assert(hand.contains(hand[i]));
                let m = choose|m: int| 0 <= m < rest.len() && rest[m] == hand[i];
                assert(!seq![k].contains(rest[m].kind()));
            }
            if leaves_discard(hand, seq![a, b], seq![k]) {
                let m = choose|m: int| 0 <= m < rest.len() && !seq![k].contains((#[trigger] rest[m]).kind());
                lemma_left(hand, a, b, rest[m]);
                assert(rest.contains(rest[m]));
                assert(hand.contains(rest[m]));
                let i = choose|i: int| 0 <= i < hand.len() && hand[i] == rest[m];
                assert(hand[i].kind() != k);
            }
        }
    } else {
        lemma_no_calls(v, x);
    }
}

proof fn lemma_no_calls(v: TableFacts, x: Response)
    requires
        !may_call(v),
        x != Response::Ron,
    ensures
        !reactions(v).contains(x),
{
    if v.state_error is None && !v.round_terminal {
        if v.pending_robbery is Some {
            let p = v.pending_robbery->0;
            let c = p.actor != v.me.seat && crate::maintainer::legal::robbery_allowed(v, p.kind) && can_ron(
                v,
                p.tile,
                p.kind == RobberyKind::Kakan,
            );
            lemma_response(c, Response::Ron, x);
        } else if v.last_discard is Some && (v.last_discard->0).0 != v.me.seat {
            lemma_answers(v, x);
        }
    }
}

/// A chi is offered exactly at a table of four, on the discard of the seat to the left, of two tiles
/// from hand, the lower first, that are a run of one suit with it; where swaps are forbidden, only
/// with a further tile left to throw that is none.
pub proof fn chis_are_offered_exactly(v: TableFacts, a: Tile, b: Tile)
    ensures
        reactions(v).contains(Response::Chi(a, b)) <==> {
            let tile = (v.last_discard->0).1;
            &&& may_call(v)
            &&& v.others.len() == 3 && v.me.seat == (if (v.last_discard->0).0 % 4 == 3 { 0 } else { (v.last_discard->0).0 % 4 + 1 })
            &&& v.me.hand.contains(a) && v.me.hand.contains(b)
            &&& meets(a.kind() as int, b.kind() as int, tile.kind() as int)
            &&& v.rule_profile.kuikae_forbidden ==> exists|x: Tile| #[trigger]
                has_further(v.me.hand, a, b, x) && !is_swap(tile, a, b, x.kind() as int)
        },
{
    let x = Response::Chi(a, b);
    if may_call(v) {
        let tile = (v.last_discard->0).1;
        let hand = v.me.hand;
        lemma_answers(v, x);
        lemma_chis(v, tile, chi_pairs(hand, tile), x);
        lemma_chi_pairs(hand, tile, a, b);
        if hand.contains(a) && hand.contains(b) && meets(a.kind() as int, b.kind() as int, tile.kind() as int) {
            let i = choose|i: int| 0 <= i < hand.len() && hand[i] == a;
            let j = choose|j: int| 0 <= j < hand.len() && hand[j] == b;
            assert(hand[i] == a && hand[j] == b && i != j);
            assert(has_both(hand, a, b));
            let f = forbidden_after_chi(tile, a, b);
            let rest = without_all(hand, seq![a, b]);
            swaps_are_forbidden_after_chi(tile, a, b, tile.kind());
            assert(f.len() > 0);
            if leaves_discard(hand, seq![a, b], f) {
                let m = choose|m: int| 0 <= m < rest.len() && !f.contains((#[trigger] rest[m]).kind());
                assert(rest.contains(rest[m]));
                lemma_left(hand, a, b, rest[m]);
                swaps_are_forbidden_after_chi(tile, a, b, rest[m].kind());
                assert(has_further(hand, a, b, rest[m]));
            }
            if exists|y: Tile| #[trigger] has_further(hand, a, b, y) && !is_swap(tile, a, b, y.kind() as int) {
                let y = choose|y: Tile| #[trigger] has_further(hand, a, b, y) && !is_swap(tile, a, b, y.kind() as int);
                lemma_left(hand, a, b, y);
                let m = choose|m: int| 0 <= m < rest.len() && rest[m] == y;
                swaps_are_forbidden_after_chi(tile, a, b, y.kind());
                assert(!f.contains(rest[m].kind()));
            }
        }
    } else {
        lemma_no_calls(v, x);
    }
}

/// An open kan is offered exactly with three tiles of the discard's kind in hand, and fewer than four
/// kans at the table.
pub proof fn open_kans_are_offered_exactly(v: TableFacts)
    ensures
        reactions(v).contains(Response::Daiminkan) <==> {
            let k = (v.last_discard->0).1.kind();
            &&& may_call(v)
            &&& places(v.me.hand.len(), |i: int| v.me.hand[i].kind() == k).len() >= 3
            &&& kans_at_table(v) < 4
        },
{
    if may_call(v) {
        let k = (v.last_discard->0).1.kind();
        lemma_answers(v, Response::Daiminkan);
        lemma_of_kind(v.me.hand, k as int);
        lemma_at_table(v);
        crate::maintainer::offer_laws::lemma_count_places(v.me.hand, k as int);
        assert(places(v.me.hand.len(), |i: int| v.me.hand[i].kind() == k) =~= places(
            v.me.hand.len(),
            |i: int| v.me.hand[i].kind() == k as int,
        ));
    } else {
        lemma_no_calls(v, Response::Daiminkan);
    }
}

/// The own discards hold a kind that would complete the hand.
pub open spec fn has_thrown_a_wait(v: TableFacts) -> bool {
    exists|i: int|
        0 <= i < v.me.discards.len() && (#[trigger] v.me.discards[i]).kind() < 34 && completes(
            counts_of(v.me.hand),
            called_count(v.me.melds) as u8,
            v.others.len() == 2,
            v.me.discards[i].kind() as int,
        )
}

/// A tile wins by ron: the seat is not furiten in any way, the hand with the tile is complete, and
/// the win has a yaku.
pub open spec fn wins_on(v: TableFacts, tile: Tile, chankan: bool) -> bool {
    let k = tile.kind() as int;
    let c = counts_of(v.me.hand);
    &&& !v.me.temporary_furiten && !v.me.riichi_furiten && !has_thrown_a_wait(v)
    &&& is_win(c.update(k, (c[k] + 1) as u8), called_count(v.me.melds) as u8, v.others.len() == 2)
    &&& settlement(view_win(v, v.me.hand.push(tile), tile, false, false, chankan)) is Some
}

proof fn lemma_waits_thrown(v: TableFacts)
    requires
        v.me.melds.len() <= 255,
    ensures
        waits_discarded(v.me.hand, v.me.melds, v.is_sanma(), v.me.discards) == has_thrown_a_wait(v),
        open_groups(v.me.melds) == called_count(v.me.melds),
{
    lemma_called(v.me.melds);
    let sanma = v.others.len() == 2;
    let c = counts_of(v.me.hand);
    let n = called_count(v.me.melds) as u8;
    let p = |k: int| completes(c, n, sanma, k);
    let w = hand_waits(v.me.hand, v.me.melds, sanma);
    lemma_kinds_below(34, p);
    assert(w == crate::mahjong::hand::kinds_below(34, p));
    let d = v.me.discards;
    assert forall|i: int| 0 <= i < d.len() implies (w.contains((#[trigger] d[i]).kind()) <==> d[i].kind() < 34 && completes(
        c,
        n,
        sanma,
        d[i].kind() as int,
    )) by {
        let k = d[i].kind();
        if w.contains(k) {
            let j = choose|j: int| 0 <= j < w.len() && w[j] == k;
            assert(p(w[j] as int));
        }
        if k < 34 && completes(c, n, sanma, k as int) {
            assert(p(k as int));
        }
    }
}

/// Ron is offered exactly on another seat's tile that wins: on a discard; on the tile of an added
/// kan; on a North set aside where the rules say so; and on a closed kan where the rules say so, by
/// thirteen orphans alone.
pub proof fn ron_is_offered_exactly_on_a_win(v: TableFacts)
    requires
        v.me.melds.len() <= 255,
    ensures
        reactions(v).contains(Response::Ron) <==> {
            &&& v.state_error is None && !v.round_terminal
            &&& match v.pending_robbery {
                Some(p) => p.actor != v.me.seat && match p.kind {
                    RobberyKind::Kakan => wins_on(v, p.tile, true),
                    RobberyKind::Nukidora => v.rule_profile.nukidora_ron && wins_on(v, p.tile, false),
                    RobberyKind::Ankan => v.rule_profile.kokushi_ankan_ron && wins_on(v, p.tile, false) && is_thirteen_orphans(
                        counts_with(v, p.tile),
                    ),
                },
                None => match v.last_discard {
                    Some((from, tile)) => from != v.me.seat && wins_on(v, tile, false),
                    None => false,
                },
            }
        },
{
    reveal(scores);
    lemma_waits_thrown(v);
    if v.state_error is None && !v.round_terminal {
        if v.pending_robbery is Some {
            let p = v.pending_robbery->0;
            let c = p.actor != v.me.seat && crate::maintainer::legal::robbery_allowed(v, p.kind) && can_ron(
                v,
                p.tile,
                p.kind == RobberyKind::Kakan,
            );
            lemma_response(c, Response::Ron, Response::Ron);
        } else if v.last_discard is Some && (v.last_discard->0).0 != v.me.seat {
            lemma_answers(v, Response::Ron);
        }
    }
}

} // verus!
