//! What makes a tile safe, and what is visible.

use vstd::prelude::*;
use crate::mahjong::calc::discarded;
use crate::mahjong::hand::count_kind;
use crate::mahjong::meld::Meld;
use crate::mahjong::tile::Tile;
use crate::mahjong::yaku_laws::{lemma_tally, places, tally};
use crate::maintainer::calc::{
    discards_of, hits, is_kabe, marks, opponent_at, riichi_seats, safe_tiles, safety_of, seen_all, seen_melds, seen_once,
    seen_others, suji_hits, suji_of, target_marks, visible_of, SafeLevel, SafeReason, SafeTile,
};
use crate::maintainer::offer_laws::{lemma_count_places, lemma_pushed};
use crate::maintainer::view::{OpponentFacts, TableFacts};

verus! {

// What is visible.

/// The tiles of melds after some others.
pub open spec fn and_melds(s: Seq<Tile>, melds: Seq<Meld>) -> Seq<Tile> {
    melds.fold_left(s, |t: Seq<Tile>, m: Meld| t + m.spec_tiles())
}

/// All tiles that a seat sees: its hand, its discards and melds, those of every other seat, and the
/// indicators.
pub open spec fn visible_tiles(v: TableFacts) -> Seq<Tile> {
    v.others.fold_left(
        and_melds(v.me.hand + v.me.discards, v.me.melds),
        |t: Seq<Tile>, o: OpponentFacts| and_melds(t + o.discards, o.melds),
    ) + v.dora_indicators
}

spec fn shows(c: Seq<u8>, s: Seq<Tile>) -> bool {
    &&& c.len() == 34
    &&& forall|k: int| 0 <= k < 34 ==> #[trigger] c[k] == if count_kind(s, k) > 255 { 255 } else { count_kind(s, k) as int }
}

proof fn lemma_count_push(s: Seq<Tile>, t: Tile, k: int)
    ensures
        count_kind(s.push(t), k) == count_kind(s, k) + if t.kind() == k { 1nat } else { 0 },
{
    assert(s.push(t).drop_last() =~= s);
}

proof fn lemma_seen_all(c: Seq<u8>, s: Seq<Tile>, tiles: Seq<Tile>)
    requires
        shows(c, s),
    ensures
        shows(seen_all(c, tiles), s + tiles),
    decreases tiles.len(),
{
    if tiles.len() == 0 {
        assert(s + tiles =~= s);
    } else {
        let r = tiles.drop_last();
        lemma_seen_all(c, s, r);
        let t = tiles.last();
        assert(s + tiles =~= (s + r).push(t));
        assert forall|k: int| 0 <= k < 34 implies count_kind(s + tiles, k) == #[trigger] count_kind(s + r, k) + if t.kind() == k {
            1nat
        } else {
            0
        } by {
            lemma_count_push(s + r, t, k);
        }
        let d = seen_all(c, r);
        let n = seen_once(d, t);
        assert forall|k: int| 0 <= k < 34 implies #[trigger] n[k] == if count_kind(s + tiles, k) > 255 {
            255
        } else {
            count_kind(s + tiles, k) as int
        } by {
            assert(d[k] == if count_kind(s + r, k) > 255 { 255 } else { count_kind(s + r, k) as int });
            lemma_count_push(s + r, t, k);
        }
    }
}

proof fn lemma_seen_melds(c: Seq<u8>, s: Seq<Tile>, melds: Seq<Meld>)
    requires
        shows(c, s),
    ensures
        shows(seen_melds(c, melds), and_melds(s, melds)),
    decreases melds.len(),
{
    if melds.len() > 0 {
        let r = melds.drop_last();
        lemma_seen_melds(c, s, r);
        lemma_seen_all(seen_melds(c, r), and_melds(s, r), melds.last().spec_tiles());
    }
}

proof fn lemma_seen_others(c: Seq<u8>, s: Seq<Tile>, others: Seq<OpponentFacts>)
    requires
        shows(c, s),
    ensures
        shows(
            seen_others(c, others),
            others.fold_left(s, |t: Seq<Tile>, o: OpponentFacts| and_melds(t + o.discards, o.melds)),
        ),
    decreases others.len(),
{
    if others.len() > 0 {
        let r = others.drop_last();
        lemma_seen_others(c, s, r);
        let f = |t: Seq<Tile>, o: OpponentFacts| and_melds(t + o.discards, o.melds);
        let o = others.last();
        lemma_seen_all(seen_others(c, r), r.fold_left(s, f), o.discards);
        lemma_seen_melds(seen_all(seen_others(c, r), o.discards), r.fold_left(s, f) + o.discards, o.melds);
        assert(others.fold_left(s, f) == f(r.fold_left(s, f), o));
    }
}

proof fn lemma_shown(v: TableFacts)
    ensures
        shows(visible_of(v), visible_tiles(v)),
{
    let zero = Seq::new(34, |i: int| 0u8);
    let e = Seq::<Tile>::empty();
    assert(shows(zero, e));
    lemma_seen_all(zero, e, v.me.hand);
    assert(e + v.me.hand =~= v.me.hand);
    let own = seen_all(zero, v.me.hand);
    lemma_seen_all(own, v.me.hand, v.me.discards);
    let both = seen_all(own, v.me.discards);
    lemma_seen_melds(both, v.me.hand + v.me.discards, v.me.melds);
    let mine = seen_melds(both, v.me.melds);
    let s = and_melds(v.me.hand + v.me.discards, v.me.melds);
    lemma_seen_others(mine, s, v.others);
    let f = |t: Seq<Tile>, o: OpponentFacts| and_melds(t + o.discards, o.melds);
    lemma_seen_all(seen_others(mine, v.others), v.others.fold_left(s, f), v.dora_indicators);
}

/// The visible copies of a kind are the places of it among all that a seat sees, up to a byte's worth.
pub proof fn visible_copies_are_counted(v: TableFacts, k: int)
    requires
        0 <= k < 34,
    ensures
        ({
            let t = visible_tiles(v);
            let n = places(t.len(), |i: int| t[i].kind() == k).len();
            visible_of(v)[k] == if n > 255 { 255 } else { n as int }
        }),
{
    lemma_shown(v);
    lemma_count_places(visible_tiles(v), k);
}

// Who is aimed at.

proof fn lemma_opponent_at(others: Seq<OpponentFacts>, seat: u8)
    ensures
        0 <= opponent_at(others, seat) <= others.len(),
        opponent_at(others, seat) < others.len() ==> others[opponent_at(others, seat)].seat == seat,
        forall|i: int| 0 <= i < opponent_at(others, seat) ==> (#[trigger] others[i]).seat != seat,
    decreases others.len(),
{
    if others.len() > 0 {
        let r = others.drop_first();
        lemma_opponent_at(r, seat);
        if others[0].seat != seat {
            assert forall|i: int| 0 <= i < opponent_at(others, seat) implies (#[trigger] others[i]).seat != seat by {
                if i > 0 {
                    assert(r[i - 1] == others[i]);
                }
            }
            if opponent_at(others, seat) < others.len() {
                assert(r[opponent_at(r, seat)] == others[opponent_at(others, seat)]);
            }
        }
    }
}

/// A seat's discards are those of the opponent with that seat, and none where there is no such opponent.
pub proof fn discards_are_those_of_the_seat(v: TableFacts, seat: u8, i: int)
    requires
        forall|a: int, b: int|
            0 <= a < b < v.others.len() ==> (#[trigger] v.others[a]).seat != (#[trigger] v.others[b]).seat,
    ensures
        0 <= i < v.others.len() && v.others[i].seat == seat ==> discards_of(v, seat) == v.others[i].discards,
        (forall|j: int| 0 <= j < v.others.len() ==> (#[trigger] v.others[j]).seat != seat) ==> discards_of(v, seat).len() == 0,
{
    lemma_opponent_at(v.others, seat);
}

/// The targets are exactly the seats of opponents in riichi.
pub proof fn targets_are_in_riichi(others: Seq<OpponentFacts>, seat: u8)
    ensures
        riichi_seats(others).contains(seat) <==> exists|i: int|
            0 <= i < others.len() && (#[trigger] others[i]).riichi && others[i].seat == seat,
        riichi_seats(others).len() == places(others.len(), |i: int| others[i].riichi).len(),
    decreases others.len(),
{
    lemma_targets(others, seat);
    lemma_targets_part(others, others.len() as int);
    assert(others.take(others.len() as int) =~= others);
    lemma_tally(others.len() as int, |i: int| others[i].riichi);
}

proof fn lemma_targets_part(others: Seq<OpponentFacts>, n: int)
    requires
        0 <= n <= others.len(),
    ensures
        riichi_seats(others.take(n)).len() == tally(n, |i: int| others[i].riichi),
    decreases n,
{
    if n > 0 {
        lemma_targets_part(others, n - 1);
        assert(others.take(n).drop_last() =~= others.take(n - 1));
    }
}

proof fn lemma_targets(others: Seq<OpponentFacts>, seat: u8)
    ensures
        riichi_seats(others).contains(seat) <==> exists|i: int|
            0 <= i < others.len() && (#[trigger] others[i]).riichi && others[i].seat == seat,
    decreases others.len(),
{
    if others.len() > 0 {
        let r = others.drop_last();
        lemma_targets(r, seat);
        lemma_pushed(riichi_seats(r), others.last().seat, seat);
        assert(others[others.len() - 1] == others.last());
        if riichi_seats(r).contains(seat) {
            let i = choose|i: int| 0 <= i < r.len() && (#[trigger] r[i]).riichi && r[i].seat == seat;
            assert(others[i] == r[i]);
        }
        if exists|i: int| 0 <= i < others.len() && (#[trigger] others[i]).riichi && others[i].seat == seat {
            let i = choose|i: int| 0 <= i < others.len() && (#[trigger] others[i]).riichi && others[i].seat == seat;
            if i < r.len() {
                assert(r[i] == others[i]);
            }
        }
    }
}

// What makes a tile safe.

/// Two kinds of one suit of numbers.
pub open spec fn same_suit(a: int, b: int) -> bool {
    0 <= a < 27 && 0 <= b < 27 && a / 9 == b / 9
}

/// Towards one side of a number tile no run can reach it: there is no neighbour, or one of the next two
/// ranks is all visible.
pub open spec fn is_walled(k: int, step: int, visible: Seq<u8>) -> bool {
    same_suit(k, k + step) ==> visible[k + step] >= 4 || (same_suit(k, k + 2 * step) && visible[k + 2 * step] >= 4)
}

/// A seat has thrown the kind three ranks away on a side.
pub open spec fn has_thrown(discards: Seq<Tile>, k: int, step: int) -> bool {
    same_suit(k, k + step) && exists|i: int| 0 <= i < discards.len() && (#[trigger] discards[i]).kind() == k + step
}

/// How many targets meet a condition.
pub open spec fn of_targets(targets: Seq<u8>, p: spec_fn(int) -> bool) -> nat {
    places(targets.len(), p).len()
}

/// A target has thrown a kind.
pub open spec fn threw(v: TableFacts, targets: Seq<u8>, i: int, k: int) -> bool {
    exists|j: int| 0 <= j < discards_of(v, targets[i]).len() && (#[trigger] discards_of(v, targets[i])[j]).kind() == k
}

/// A target has thrown on both sides, three ranks away.
pub open spec fn threw_both(v: TableFacts, targets: Seq<u8>, i: int, k: int) -> bool {
    has_thrown(discards_of(v, targets[i]), k, 3) && has_thrown(discards_of(v, targets[i]), k, -3)
}

/// A target has thrown on exactly one side, three ranks away.
pub open spec fn threw_one(v: TableFacts, targets: Seq<u8>, i: int, k: int) -> bool {
    has_thrown(discards_of(v, targets[i]), k, 3) != has_thrown(discards_of(v, targets[i]), k, -3)
}

proof fn lemma_kabe(k: int, visible: Seq<u8>)
    requires
        0 <= k < 34,
        visible.len() == 34,
    ensures
        is_kabe(k, visible) <==> k < 27 && is_walled(k, -1, visible) && is_walled(k, 1, visible),
{
    if k < 27 {
        let r = k % 9;
        assert(same_suit(k, k - 1) <==> r >= 1);
        assert(same_suit(k, k - 2) <==> r >= 2);
        assert(same_suit(k, k + 1) <==> r <= 7);
        assert(same_suit(k, k + 2) <==> r <= 6);
    }
}

proof fn lemma_suji(k: int, set: [bool; 34], discards: Seq<Tile>)
    requires
        0 <= k < 34,
        marks(set, discards),
    ensures
        suji_of(k, set@) == 2 <==> has_thrown(discards, k, 3) && has_thrown(discards, k, -3),
        suji_of(k, set@) == 1 <==> has_thrown(discards, k, 3) != has_thrown(discards, k, -3),
{
    if k < 27 {
        assert(same_suit(k, k + 3) <==> k % 9 <= 5);
        assert(same_suit(k, k + -3) <==> k % 9 >= 3);
        if k % 9 <= 5 {
            assert(set@[k + 3] <==> discarded(discards, k + 3));
        }
        if k % 9 >= 3 {
            assert(set@[k - 3] <==> discarded(discards, k - 3));
        }
    }
}

proof fn lemma_hits(v: TableFacts, targets: Seq<u8>, sets: Seq<[bool; 34]>, k: int, n: int)
    requires
        0 <= k < 34,
        target_marks(v, targets, sets),
        0 <= n <= targets.len(),
    ensures
        hits(sets.take(n), k) == tally(n, |i: int| threw(v, targets, i, k)),
        suji_hits(sets.take(n), k, 2) == tally(n, |i: int| threw_both(v, targets, i, k)),
        suji_hits(sets.take(n), k, 1) == tally(n, |i: int| threw_one(v, targets, i, k)),
    decreases n,
{
    if n > 0 {
        lemma_hits(v, targets, sets, k, n - 1);
        assert(sets.take(n).drop_last() =~= sets.take(n - 1));
        let d = discards_of(v, targets[n - 1]);
        assert(marks(sets[n - 1], d));
        lemma_suji(k, sets[n - 1], d);
        assert(sets[n - 1]@[k] <==> discarded(d, k));
        assert(sets.take(n).last() == sets[n - 1]);
    }
}

/// A kind is safe for the strongest of these reasons, and for none besides: every target has thrown it;
/// all four copies are visible; some targets have thrown it; no run can reach it from either side; some
/// targets have thrown on both sides three ranks away; some on one. The first two are certain. The
/// coverage is the number of targets that the reason holds against.
pub proof fn tiles_are_safe_for_their_strongest_reason(v: TableFacts, targets: Seq<u8>, sets: Seq<[bool; 34]>, k: int)
    requires
        0 <= k < 34,
        target_marks(v, targets, sets),
        0 < targets.len() <= 255,
    ensures
        ({
            let s = safety_of(k, visible_of(v), sets);
            let thrown = of_targets(targets, |i: int| threw(v, targets, i, k));
            let both = of_targets(targets, |i: int| threw_both(v, targets, i, k));
            let side = of_targets(targets, |i: int| threw_one(v, targets, i, k));
            let all = targets.len();
            let walled = k < 27 && is_walled(k, -1, visible_of(v)) && is_walled(k, 1, visible_of(v));
            if forall|i: int| 0 <= i < all ==> #[trigger] threw(v, targets, i, k) {
                is_safe(s, k, SafeLevel::Absolute, SafeReason::Genbutsu, all)
            } else if visible_of(v)[k] >= 4 {
                is_safe(s, k, SafeLevel::Absolute, SafeReason::DeadWall, all)
            } else if thrown > 0 {
                is_safe(s, k, SafeLevel::Inferred, SafeReason::Genbutsu, thrown)
            } else if walled {
                is_safe(s, k, SafeLevel::Inferred, SafeReason::Kabe, all)
            } else if both > 0 {
                is_safe(s, k, SafeLevel::Inferred, SafeReason::DoubleSuji, both)
            } else if side > 0 {
                is_safe(s, k, SafeLevel::Inferred, SafeReason::Suji, side)
            } else {
                s is None
            }
        }),
{
    let n = targets.len() as int;
    lemma_hits(v, targets, sets, k, n);
    assert(sets.take(n) =~= sets);
    let p = |i: int| threw(v, targets, i, k);
    lemma_tally(n, p);
    lemma_tally(n, |i: int| threw_both(v, targets, i, k));
    lemma_tally(n, |i: int| threw_one(v, targets, i, k));
    lemma_bound(n, p);
    lemma_bound(n, |i: int| threw_both(v, targets, i, k));
    lemma_bound(n, |i: int| threw_one(v, targets, i, k));
    if forall|i: int| 0 <= i < n ==> #[trigger] threw(v, targets, i, k) {
        assert forall|i: int| 0 <= i < n implies #[trigger] p(i) by {}
    }
    if tally(n, p) == n {
        assert forall|i: int| 0 <= i < n implies #[trigger] threw(v, targets, i, k) by {
            assert(p(i));
        }
    }
    visible_copies_are_counted(v, k);
    lemma_shown(v);
    lemma_kabe(k, visible_of(v));
}

proof fn lemma_bound(n: int, p: spec_fn(int) -> bool)
    requires
        n >= 0,
    ensures
        tally(n, p) <= n,
        tally(n, p) == n <==> forall|i: int| 0 <= i < n ==> #[trigger] p(i),
    decreases n,
{
    if n > 0 {
        lemma_bound(n - 1, p);
        if tally(n, p) == n {
            assert forall|i: int| 0 <= i < n implies #[trigger] p(i) by {
                if i == n - 1 {
                    assert(p(n - 1));
                }
            }
        }
        if forall|i: int| 0 <= i < n ==> #[trigger] p(i) {
            assert(p(n - 1));
        }
    }
}

/// A kind is found safe at a level, for a reason, against a number of targets.
pub open spec fn is_safe(s: Option<SafeTile>, k: int, level: SafeLevel, reason: SafeReason, coverage: nat) -> bool {
    s is Some && s->0.tile == k && s->0.level == level && s->0.reason == reason && s->0.coverage == coverage
}

/// Of candidates exactly those that are kinds and safe for some reason are listed; none without a target.
pub proof fn safe_candidates_are_listed(candidates: Seq<usize>, visible: Seq<u8>, sets: Seq<[bool; 34]>, s: SafeTile)
    ensures
        safe_tiles(candidates, visible, sets).contains(s) <==> {
            &&& sets.len() > 0
            &&& exists|i: int|
                0 <= i < candidates.len() && #[trigger] candidates[i] < 34 && safety_of(candidates[i] as int, visible, sets) == Some(s)
        },
    decreases candidates.len(),
{
    if candidates.len() > 0 && sets.len() > 0 {
        let r = candidates.drop_last();
        safe_candidates_are_listed(r, visible, sets, s);
        let k = candidates.last();
        assert(candidates[candidates.len() - 1] == k);
        if k < 34 && safety_of(k as int, visible, sets) is Some {
            lemma_pushed(safe_tiles(r, visible, sets), safety_of(k as int, visible, sets)->0, s);
        }
        if exists|i: int|
            0 <= i < r.len() && #[trigger] r[i] < 34 && safety_of(r[i] as int, visible, sets) == Some(s) {
            let i = choose|i: int|
                0 <= i < r.len() && #[trigger] r[i] < 34 && safety_of(r[i] as int, visible, sets) == Some(s);
            assert(candidates[i] == r[i]);
        }
        if exists|i: int|
            0 <= i < candidates.len() && #[trigger] candidates[i] < 34 && safety_of(candidates[i] as int, visible, sets) == Some(s) {
            let i = choose|i: int|
                0 <= i < candidates.len() && #[trigger] candidates[i] < 34 && safety_of(candidates[i] as int, visible, sets) == Some(
                    s,
                );
            if i < r.len() {
                assert(r[i] == candidates[i]);
            }
        }
    }
}

} // verus!
