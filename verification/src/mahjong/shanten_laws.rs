//! What a draw does to shanten.

use vstd::prelude::*;
use crate::mahjong::agari::{advances, completes, ukeire_kinds, winning_kinds, with_tile};
use crate::mahjong::agari_laws::{lemma_least, lemma_missing, lemma_orphans, lemma_thirteen};
use crate::mahjong::hand::lemma_kinds_below;
use crate::mahjong::shanten::{
    chiitoitsu_value, distance, groups_needed, has_yaochuu_pair, is_distance, is_yaochuu_kind, kind_in_wall,
    kinds_with, kokushi_value, lemma_distance_unique, lemma_some_target, shanten_value, standard_value, yaochuu_kinds,
    Target, TENPAI,
};

verus! {

// The standard form.

/// A drawn tile fills one place of a target where the hand lacks it, and none elsewhere.
proof fn lemma_missing_with(t: Target, c: Seq<u8>, k: int, from: int)
    requires
        c.len() == 34,
        0 <= k < 34,
        c[k] < 255,
        0 <= from <= 34,
    ensures
        t.missing_from(with_tile(c, k), from) == t.missing_from(c, from) - if from <= k && t.lacks(c, k) > 0 {
            1int
        } else {
            0
        },
    decreases 34 - from,
{
    if from < 34 {
        lemma_missing_with(t, c, k, from + 1);
    }
}

proof fn lemma_distance_known(c: Seq<u8>, groups: int, sanma: bool)
    requires
        0 <= groups <= 4,
    ensures
        is_distance(c, groups, sanma, distance(c, groups, sanma)),
        distance(c, groups, sanma) >= 0,
{
    let some = lemma_some_target(c, groups, sanma);
    let d = lemma_least(c, groups, sanma, some);
    lemma_distance_unique(c, groups, sanma, d);
    let best = choose|t: Target| #[trigger] t.is_complete(groups, sanma) && t.missing(c) == d;
    lemma_missing(best, c, 0);
}

proof fn lemma_standard_step(c: Seq<u8>, melds: u8, sanma: bool, k: int)
    requires
        c.len() == 34,
        0 <= k < 34,
        c[k] < 255,
    ensures
        standard_value(c, melds, sanma) - 1 <= standard_value(with_tile(c, k), melds, sanma) <= standard_value(c, melds, sanma),
{
    let groups = groups_needed(melds);
    let e = with_tile(c, k);
    lemma_distance_known(c, groups, sanma);
    lemma_distance_known(e, groups, sanma);
    let t = choose|t: Target| #[trigger] t.is_complete(groups, sanma) && t.missing(c) == distance(c, groups, sanma);
    let u = choose|u: Target| #[trigger] u.is_complete(groups, sanma) && u.missing(e) == distance(e, groups, sanma);
    lemma_missing_with(t, c, k, 0);
    lemma_missing_with(u, c, k, 0);
    assert(t.missing(e) >= distance(e, groups, sanma));
    assert(u.missing(c) >= distance(c, groups, sanma));
}

/// A hand short of a standard one can draw a tile that it lacks.
proof fn lemma_standard_advance(c: Seq<u8>, melds: u8, sanma: bool) -> (k: int)
    requires
        c.len() == 34,
        standard_value(c, melds, sanma) >= 0,
    ensures
        kind_in_wall(k, sanma),
        c[k] < 4,
        standard_value(with_tile(c, k), melds, sanma) < standard_value(c, melds, sanma),
{
    let groups = groups_needed(melds);
    lemma_distance_known(c, groups, sanma);
    let t = choose|t: Target| #[trigger] t.is_complete(groups, sanma) && t.missing(c) == distance(c, groups, sanma);
    lemma_missing(t, c, 0);
    let k = choose|k: int| 0 <= k < 34 && #[trigger] t.lacks(c, k) != 0;
    assert(t.valid_at(k, sanma));
    if k > 0 {
        assert(t.valid_at(k - 1, sanma));
    }
    if k > 1 {
        assert(t.valid_at(k - 2, sanma));
    }
    assert(t.lacks(c, k) > 0);
    let e = with_tile(c, k);
    lemma_missing_with(t, c, k, 0);
    lemma_distance_known(e, groups, sanma);
    assert(t.missing(e) >= distance(e, groups, sanma));
    k
}

// Seven pairs.

proof fn lemma_kinds_step(c: Seq<u8>, k: int, n: u8)
    requires
        0 <= k < c.len(),
        c[k] < 255,
    ensures
        kinds_with(with_tile(c, k), n) == kinds_with(c, n) + if c[k] + 1 == n { 1int } else { 0 },
    decreases c.len(),
{
    let e = with_tile(c, k);
    let d = c.drop_last();
    if k == c.len() - 1 {
        assert(e.drop_last() =~= d);
    } else {
        assert(e.drop_last() =~= with_tile(d, k));
        lemma_kinds_step(d, k, n);
    }
}

proof fn lemma_pairs_step(c: Seq<u8>, k: int)
    requires
        c.len() == 34,
        0 <= k < 34,
        c[k] < 255,
    ensures
        chiitoitsu_value(c) - 1 <= chiitoitsu_value(with_tile(c, k)) <= chiitoitsu_value(c),
{
    lemma_kinds_step(c, k, 1);
    lemma_kinds_step(c, k, 2);
}

/// More kinds than pairs: some kind is held once.
proof fn lemma_some_single(c: Seq<u8>) -> (k: int)
    requires
        kinds_with(c, 2) < kinds_with(c, 1),
    ensures
        0 <= k < c.len(),
        c[k] == 1,
    decreases c.len(),
{
    if c.last() == 1 {
        c.len() - 1
    } else {
        let k = lemma_some_single(c.drop_last());
        k
    }
}

/// Seven honors are seven kinds.
proof fn lemma_honors_held(c: Seq<u8>, n: int)
    requires
        c.len() == 34,
        27 <= n <= 34,
        forall|k: int| 27 <= k < 34 ==> #[trigger] c[k] >= 1,
    ensures
        kinds_with(c.take(n), 1) >= n - 27,
    decreases n,
{
    if n > 27 {
        lemma_honors_held(c, n - 1);
        assert(c.take(n).drop_last() =~= c.take(n - 1));
        assert(c.take(n).last() == c[n - 1]);
    }
}

proof fn lemma_pairs_advance(c: Seq<u8>, sanma: bool) -> (k: int)
    requires
        c.len() == 34,
        forall|k: int| 0 <= k < 34 && #[trigger] c[k] > 0 ==> kind_in_wall(k, sanma),
        chiitoitsu_value(c) >= 0,
    ensures
        kind_in_wall(k, sanma),
        c[k] < 4,
        chiitoitsu_value(with_tile(c, k)) < chiitoitsu_value(c),
{
    if kinds_with(c, 1) < 7 {
        if forall|k: int| 27 <= k < 34 ==> #[trigger] c[k] >= 1 {
            lemma_honors_held(c, 34);
            assert(c.take(34) =~= c);
        }
        let k = choose|k: int| 27 <= k < 34 && !(#[trigger] c[k] >= 1);
        lemma_kinds_step(c, k, 1);
        lemma_kinds_step(c, k, 2);
        k
    } else {
        let k = lemma_some_single(c);
        lemma_kinds_step(c, k, 1);
        lemma_kinds_step(c, k, 2);
        k
    }
}

// Thirteen orphans.

proof fn lemma_yaochuu_step(c: Seq<u8>, k: int)
    requires
        0 <= k < c.len() <= 34,
        c[k] < 255,
    ensures
        yaochuu_kinds(with_tile(c, k)) == yaochuu_kinds(c) + if is_yaochuu_kind(k) && c[k] == 0 { 1int } else { 0 },
    decreases c.len(),
{
    let e = with_tile(c, k);
    let d = c.drop_last();
    if k == c.len() - 1 {
        assert(e.drop_last() =~= d);
    } else {
        assert(e.drop_last() =~= with_tile(d, k));
        lemma_yaochuu_step(d, k);
    }
}

proof fn lemma_orphans_step(c: Seq<u8>, k: int)
    requires
        c.len() == 34,
        0 <= k < 34,
        c[k] < 255,
    ensures
        kokushi_value(c) - 1 <= kokushi_value(with_tile(c, k)) <= kokushi_value(c),
        is_yaochuu_kind(k) && c[k] == 0 ==> kokushi_value(with_tile(c, k)) == kokushi_value(c) - 1,
{
    let e = with_tile(c, k);
    lemma_yaochuu_step(c, k);
    if has_yaochuu_pair(c) {
        let p = choose|p: int| #[trigger] is_yaochuu_kind(p) && c[p] >= 2;
        assert(is_yaochuu_kind(p) && e[p] >= 2);
    }
    if has_yaochuu_pair(e) {
        let p = choose|p: int| #[trigger] is_yaochuu_kind(p) && e[p] >= 2;
        if p != k {
            assert(is_yaochuu_kind(p) && c[p] >= 2);
        }
    }
}

proof fn lemma_orphans_advance(c: Seq<u8>, sanma: bool) -> (k: int)
    requires
        c.len() == 34,
        kokushi_value(c) >= 0,
    ensures
        kind_in_wall(k, sanma),
        c[k] < 4,
        kokushi_value(with_tile(c, k)) < kokushi_value(c),
{
    lemma_thirteen();
    lemma_orphans(c);
    if yaochuu_kinds(c) < 13 {
        let k = choose|k: int| 0 <= k < c.len() && is_yaochuu_kind(k) && !(#[trigger] c[k] >= 1);
        lemma_orphans_step(c, k);
        k
    } else {
        let k = 27int;
        assert(is_yaochuu_kind(k));
        assert(!has_yaochuu_pair(c));
        assert(c[k] == 1);
        lemma_yaochuu_step(c, k);
        assert(is_yaochuu_kind(k) && with_tile(c, k)[k] >= 2);
        k
    }
}

// All forms.

/// One more tile never takes a hand further from completion, and brings it closer by one at most.
pub proof fn draws_advance_by_one_at_most(c: Seq<u8>, melds: u8, sanma: bool, k: int)
    requires
        c.len() == 34,
        0 <= k < 34,
        c[k] < 255,
    ensures
        shanten_value(c, melds, sanma) - 1 <= shanten_value(with_tile(c, k), melds, sanma) <= shanten_value(c, melds, sanma),
{
    lemma_standard_step(c, melds, sanma, k);
    lemma_pairs_step(c, k);
    lemma_orphans_step(c, k);
}

/// A hand of tiles of its wall.
pub open spec fn is_of_wall(c: Seq<u8>, sanma: bool) -> bool {
    c.len() == 34 && forall|k: int| 0 <= k < 34 && #[trigger] c[k] > 0 ==> kind_in_wall(k, sanma)
}

proof fn lemma_advance(c: Seq<u8>, melds: u8, sanma: bool) -> (k: int)
    requires
        is_of_wall(c, sanma),
        shanten_value(c, melds, sanma) >= 0,
    ensures
        advances(c, melds, sanma, k),
{
    let v = shanten_value(c, melds, sanma);
    let k = if v == standard_value(c, melds, sanma) {
        lemma_standard_advance(c, melds, sanma)
    } else if v == chiitoitsu_value(c) {
        lemma_pairs_advance(c, sanma)
    } else {
        lemma_orphans_advance(c, sanma)
    };
    k
}

/// A hand that is not complete always has a tile that advances it by one, of which it does not
/// hold all four copies.
pub proof fn incomplete_hands_can_advance(c: Seq<u8>, melds: u8, sanma: bool)
    requires
        is_of_wall(c, sanma),
        shanten_value(c, melds, sanma) >= 0,
    ensures
        ukeire_kinds(c, melds, sanma).len() > 0,
        forall|i: int|
            0 <= i < ukeire_kinds(c, melds, sanma).len() ==> shanten_value(
                with_tile(c, #[trigger] ukeire_kinds(c, melds, sanma)[i] as int),
                melds,
                sanma,
            ) == shanten_value(c, melds, sanma) - 1,
{
    let p = |k: int| advances(c, melds, sanma, k);
    lemma_kinds_below(34, p);
    let k = lemma_advance(c, melds, sanma);
    assert(p(k));
    let list = ukeire_kinds(c, melds, sanma);
    assert(list.contains(k as usize));
    assert forall|i: int| 0 <= i < list.len() implies shanten_value(with_tile(c, #[trigger] list[i] as int), melds, sanma)
        == shanten_value(c, melds, sanma) - 1 by {
        assert(p(list[i] as int));
        draws_advance_by_one_at_most(c, melds, sanma, list[i] as int);
    }
}

/// A hand is in tenpai exactly where it has a winning tile.
pub proof fn tenpai_hands_have_a_winning_tile(c: Seq<u8>, melds: u8, sanma: bool)
    requires
        is_of_wall(c, sanma),
    ensures
        shanten_value(c, melds, sanma) == TENPAI <==> winning_kinds(c, melds, sanma).len() > 0,
{
    let p = |k: int| completes(c, melds, sanma, k);
    lemma_kinds_below(34, p);
    let list = winning_kinds(c, melds, sanma);
    if shanten_value(c, melds, sanma) == TENPAI {
        let k = lemma_advance(c, melds, sanma);
        draws_advance_by_one_at_most(c, melds, sanma, k);
        assert(p(k));
        assert(list.contains(k as usize));
    }
    if list.len() > 0 {
        assert(p(list[0] as int));
    }
}

} // verus!
