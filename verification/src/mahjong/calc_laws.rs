//! Which tiles help a hand, and what a hand in tenpai can be sure of and hope for.

use vstd::prelude::*;
use crate::mahjong::agari::{advances, completes, ukeire_kinds, winning_kinds};
use crate::mahjong::calc::{
    in_every_branch, in_some_branch, joined, kept_in_all, waits_of_hand, yaku_branches, yaku_when_won,
};
use crate::mahjong::hand::lemma_kinds_below;
use crate::mahjong::shanten::{
    has_yaochuu_pair, is_yaochuu_kind, kinds_with, shanten_value, standard_value, yaochuu_kinds,
};
use crate::mahjong::tile::Tile;
use crate::mahjong::yaku::{evaluated, open_count, WinFacts, Yaku};
use crate::mahjong::yaku_laws::{is_end, is_letter, lemma_tally, places, tally};

verus! {

/// The win on one more tile of a kind.
pub open spec fn win_on(f: WinFacts, k: int) -> WinFacts {
    WinFacts { concealed: f.concealed.update(k, (f.concealed[k] + 1) as u8), win_tile: Tile::of(k), ..f }
}

/// A win on a kind has a yaku.
pub open spec fn wins_with(f: WinFacts, k: int, y: Yaku) -> bool {
    exists|i: int|
        0 <= i < evaluated(win_on(f, k)).yaku.len() && (#[trigger] evaluated(win_on(f, k)).yaku[i]).0 == y
}

proof fn lemma_wins_with(f: WinFacts, k: int, y: Yaku)
    ensures
        yaku_when_won(f, k).contains(y) <==> wins_with(f, k, y),
{
    let s = evaluated(win_on(f, k)).yaku;
    let t = yaku_when_won(f, k);
    assert(t == s.map_values(|p: (Yaku, u8)| p.0));
    if t.contains(y) {
        let i = choose|i: int| 0 <= i < t.len() && t[i] == y;
        assert(s[i].0 == y);
    }
    if wins_with(f, k, y) {
        let i = choose|i: int| 0 <= i < s.len() && (#[trigger] s[i]).0 == y;
        assert(t[i] == y);
    }
}

proof fn lemma_kept(s: Seq<Yaku>, branches: Seq<Seq<Yaku>>, n: nat, y: Yaku)
    requires
        n <= branches.len(),
    ensures
        kept_in_all(s, branches, n).contains(y) <==> s.contains(y) && forall|i: int|
            0 <= i < n ==> (#[trigger] branches[i]).contains(y),
    decreases n,
{
    if n > 0 {
        let m = (n - 1) as nat;
        lemma_kept(s, branches, m, y);
        let t = kept_in_all(s, branches, m);
        let p = |x: Yaku| branches[n - 1].contains(x);
        let r = t.filter(p);
        if t.contains(y) && p(y) {
            let i = choose|i: int| 0 <= i < t.len() && t[i] == y;
            t.lemma_filter_contains(p, i);
        }
        if r.contains(y) {
            let i = choose|i: int| 0 <= i < r.len() && r[i] == y;
            t.lemma_filter_pred(p, i);
            t.lemma_filter_contains_rev(p, y);
        }
    }
}

proof fn lemma_joined(s: Seq<Yaku>, more: Seq<Yaku>, y: Yaku)
    ensures
        joined(s, more).contains(y) <==> s.contains(y) || more.contains(y),
    decreases more.len(),
{
    if more.len() > 0 {
        let r = more.drop_last();
        lemma_joined(s, r, y);
        let t = joined(s, r);
        crate::maintainer::offer_laws::lemma_pushed(t, more.last(), y);
        crate::maintainer::offer_laws::lemma_pushed(r, more.last(), y);
        assert(more =~= r.push(more.last()));
    }
}

proof fn lemma_some_branch(branches: Seq<Seq<Yaku>>, y: Yaku)
    ensures
        in_some_branch(branches).contains(y) <==> exists|i: int| 0 <= i < branches.len() && (#[trigger] branches[i]).contains(y),
    decreases branches.len(),
{
    if branches.len() > 0 {
        let r = branches.drop_last();
        lemma_some_branch(r, y);
        lemma_joined(in_some_branch(r), branches.last(), y);
        assert(branches[branches.len() - 1] == branches.last());
        if in_some_branch(r).contains(y) {
            let i = choose|i: int| 0 <= i < r.len() && (#[trigger] r[i]).contains(y);
            assert(branches[i] == r[i]);
        }
        if exists|i: int| 0 <= i < branches.len() && (#[trigger] branches[i]).contains(y) {
            let i = choose|i: int| 0 <= i < branches.len() && (#[trigger] branches[i]).contains(y);
            if i < r.len() {
                assert(r[i] == branches[i]);
            }
        }
    }
}

/// A yaku is certain exactly where the hand has a winning kind and every winning kind brings it; it is
/// possible exactly where some winning kind brings it.
pub proof fn outlook_is_over_all_winning_kinds(f: WinFacts, sanma: bool, y: Yaku)
    ensures
        in_every_branch(yaku_branches(f, sanma)).contains(y) <==> {
            &&& exists|k: int| 0 <= k < 34 && #[trigger] completes(f.concealed, open_count(f), sanma, k)
            &&& forall|k: int|
                0 <= k < 34 && #[trigger] completes(f.concealed, open_count(f), sanma, k) ==> wins_with(f, k, y)
        },
        in_some_branch(yaku_branches(f, sanma)).contains(y) <==> exists|k: int|
            0 <= k < 34 && #[trigger] completes(f.concealed, open_count(f), sanma, k) && wins_with(f, k, y),
{
    let p = |k: int| completes(f.concealed, open_count(f), sanma, k);
    let w = waits_of_hand(f, sanma);
    lemma_kinds_below(34, p);
    assert(w == crate::mahjong::hand::kinds_below(34, p));
    let b = yaku_branches(f, sanma);
    assert forall|i: int| 0 <= i < w.len() implies {
        &&& 0 <= #[trigger] w[i] < 34
        &&& completes(f.concealed, open_count(f), sanma, w[i] as int)
        &&& b[i].contains(y) <==> wins_with(f, w[i] as int, y)
    } by {
        assert(p(w[i] as int));
        lemma_wins_with(f, w[i] as int, y);
        assert(b[i] == yaku_when_won(f, w[i] as int));
    }
    assert forall|k: int| 0 <= k < 34 && #[trigger] completes(f.concealed, open_count(f), sanma, k) implies exists|i: int|
        0 <= i < w.len() && #[trigger] w[i] == k by {
        assert(p(k));
        let u = k as usize;
        let i = choose|i: int| 0 <= i < w.len() && w[i] == u;
        assert(w[i] == k);
    }
    lemma_some_branch(b, y);
    if b.len() > 0 {
        lemma_kept(b[0], b, b.len(), y);
        assert(completes(f.concealed, open_count(f), sanma, w[0] as int));
    }
    if exists|k: int| 0 <= k < 34 && #[trigger] completes(f.concealed, open_count(f), sanma, k) {
        let k = choose|k: int| 0 <= k < 34 && #[trigger] completes(f.concealed, open_count(f), sanma, k);
        let i = choose|i: int| 0 <= i < w.len() && #[trigger] w[i] == k;
        assert(b.len() > 0);
    }
    if in_every_branch(b).contains(y) {
        assert forall|k: int| 0 <= k < 34 && #[trigger] completes(f.concealed, open_count(f), sanma, k) implies wins_with(
            f,
            k,
            y,
        ) by {
            let i = choose|i: int| 0 <= i < w.len() && #[trigger] w[i] == k;
            assert(b[i].contains(y));
        }
    }
    if b.len() > 0 && (forall|k: int|
        0 <= k < 34 && #[trigger] completes(f.concealed, open_count(f), sanma, k) ==> wins_with(f, k, y)) {
        assert forall|i: int| 0 <= i < b.len() implies (#[trigger] b[i]).contains(y) by {
            assert(completes(f.concealed, open_count(f), sanma, w[i] as int));
        }
    }
    if exists|i: int| 0 <= i < b.len() && (#[trigger] b[i]).contains(y) {
        let i = choose|i: int| 0 <= i < b.len() && (#[trigger] b[i]).contains(y);
        assert(completes(f.concealed, open_count(f), sanma, w[i] as int));
    }
    if exists|k: int| 0 <= k < 34 && #[trigger] completes(f.concealed, open_count(f), sanma, k) && wins_with(f, k, y) {
        let k = choose|k: int|
            0 <= k < 34 && #[trigger] completes(f.concealed, open_count(f), sanma, k) && wins_with(f, k, y);
        let i = choose|i: int| 0 <= i < w.len() && #[trigger] w[i] == k;
        assert(b[i].contains(y));
    }
}

// Tiles that help.

/// A fifth copy of no kind can come, nor the middle ranks of characters with three players.
pub open spec fn can_come(c: Seq<u8>, sanma: bool, k: int) -> bool {
    0 <= k < 34 && !(sanma && 1 <= k <= 7) && c[k] < 4
}

/// A hand with one more tile of a kind.
pub open spec fn plus(c: Seq<u8>, k: int) -> Seq<u8> {
    c.update(k, (c[k] + 1) as u8)
}

/// The kinds that help a hand are exactly those that can come and bring it nearer to completion; those that
/// win are exactly those that can come and complete a hand that is one tile short.
pub proof fn tiles_that_help_are_those_that_bring_nearer(c: Seq<u8>, melds: u8, sanma: bool, k: usize)
    ensures
        ukeire_kinds(c, melds, sanma).contains(k) <==> can_come(c, sanma, k as int) && shanten_value(
            plus(c, k as int),
            melds,
            sanma,
        ) < shanten_value(c, melds, sanma),
        winning_kinds(c, melds, sanma).contains(k) <==> can_come(c, sanma, k as int) && shanten_value(c, melds, sanma) == 0
            && shanten_value(plus(c, k as int), melds, sanma) == -1,
        forall|i: int, j: int|
            0 <= i < j < ukeire_kinds(c, melds, sanma).len() ==> #[trigger] ukeire_kinds(c, melds, sanma)[i]
                < #[trigger] ukeire_kinds(c, melds, sanma)[j],
        forall|i: int, j: int|
            0 <= i < j < winning_kinds(c, melds, sanma).len() ==> #[trigger] winning_kinds(c, melds, sanma)[i]
                < #[trigger] winning_kinds(c, melds, sanma)[j],
{
    let p = |j: int| advances(c, melds, sanma, j);
    let q = |j: int| completes(c, melds, sanma, j);
    lemma_kinds_below(34, p);
    lemma_kinds_below(34, q);
    let u = ukeire_kinds(c, melds, sanma);
    let w = winning_kinds(c, melds, sanma);
    assert(u == crate::mahjong::hand::kinds_below(34, p));
    assert(w == crate::mahjong::hand::kinds_below(34, q));
    if u.contains(k) {
        let i = choose|i: int| 0 <= i < u.len() && u[i] == k;
        assert(p(u[i] as int));
    }
    if k < 34 && advances(c, melds, sanma, k as int) {
        assert(p(k as int));
    }
    if w.contains(k) {
        let i = choose|i: int| 0 <= i < w.len() && w[i] == k;
        assert(q(w[i] as int));
    }
    if k < 34 && completes(c, melds, sanma, k as int) {
        assert(q(k as int));
    }
}

proof fn lemma_kinds_with(c: Seq<u8>, m: u8, n: int)
    requires
        0 <= n <= c.len(),
    ensures
        kinds_with(c.take(n), m) == tally(n, |k: int| c[k] >= m),
    decreases n,
{
    if n > 0 {
        lemma_kinds_with(c, m, n - 1);
        assert(c.take(n).drop_last() =~= c.take(n - 1));
    }
}

proof fn lemma_ends_held(c: Seq<u8>, n: int)
    requires
        0 <= n <= c.len() <= 34,
    ensures
        yaochuu_kinds(c.take(n)) == tally(n, |k: int| (is_end(k) || is_letter(k)) && c[k] > 0),
    decreases n,
{
    if n > 0 {
        lemma_ends_held(c, n - 1);
        assert(c.take(n).drop_last() =~= c.take(n - 1));
    }
}

/// A closed hand is as near as the nearest of the three shapes. Seven pairs lack a tile for each pair less
/// than six, and one more for each kind less than seven; thirteen orphans one for each end or letter that is
/// not held, less one where one of them is held twice. With called groups only the standard shape counts.
pub proof fn closed_hands_go_for_the_nearest_shape(c: Seq<u8>, melds: u8, sanma: bool)
    requires
        c.len() == 34,
    ensures
        ({
            let pairs = places(34, |k: int| c[k] >= 2).len();
            let kinds = places(34, |k: int| c[k] >= 1).len();
            let ends = places(34, |k: int| (is_end(k) || is_letter(k)) && c[k] > 0).len();
            let twice = exists|k: int| 0 <= k < 34 && (is_end(k) || is_letter(k)) && #[trigger] c[k] >= 2;
            let seven = 6 - pairs + if kinds < 7 { 7 - kinds } else { 0 };
            let orphans = 13 - ends - if twice { 1int } else { 0 };
            let s = standard_value(c, melds, sanma);
            let v = shanten_value(c, melds, sanma);
            if melds == 0 {
                &&& v <= s && v <= seven && v <= orphans
                &&& v == s || v == seven || v == orphans
            } else {
                v == s
            }
        }),
{
    assert(c.take(34) =~= c);
    lemma_kinds_with(c, 2, 34);
    lemma_kinds_with(c, 1, 34);
    lemma_ends_held(c, 34);
    lemma_tally(34, |k: int| c[k] >= 2);
    lemma_tally(34, |k: int| c[k] >= 1);
    lemma_tally(34, |k: int| (is_end(k) || is_letter(k)) && c[k] > 0);
    assert(places(34, |k: int| c[k] >= 2) =~= places(34, |k: int| c[k] >= 2u8));
    let twice = exists|k: int| 0 <= k < 34 && (is_end(k) || is_letter(k)) && #[trigger] c[k] >= 2;
    assert(has_yaochuu_pair(c) == twice) by {
        if has_yaochuu_pair(c) {
            let k = choose|k: int| #[trigger] is_yaochuu_kind(k) && c[k] >= 2;
            assert(c[k] >= 2);
        }
        if twice {
            let k = choose|k: int| 0 <= k < 34 && (is_end(k) || is_letter(k)) && #[trigger] c[k] >= 2;
            assert(is_yaochuu_kind(k));
        }
    }
}

} // verus!
