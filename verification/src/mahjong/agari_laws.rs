//! A hand is complete exactly where it can be read as one.

use vstd::prelude::*;
use crate::mahjong::agari::is_win;
use crate::mahjong::decompose::{
    fills, hand_readings, is_reading, is_seven_pairs, is_thirteen_orphans, lemma_readings_exist, readings, used,
    without_pair, MeldShape, Reading,
};
use crate::mahjong::hand::sum_counts;
use crate::mahjong::shanten::{
    chiitoitsu_value, distance, groups_needed, has_yaochuu_pair, is_distance, is_yaochuu_kind, kinds_with, kokushi_value,
    lemma_distance_unique, lemma_some_target, shanten_value, standard_value, yaochuu_kinds, Target,
};

verus! {

// Distances.

pub proof fn lemma_missing(t: Target, c: Seq<u8>, k: int)
    requires
        0 <= k <= 34,
    ensures
        t.missing_from(c, k) >= 0,
        t.missing_from(c, k) == 0 ==> forall|j: int| k <= j < 34 ==> #[trigger] t.lacks(c, j) == 0,
        (forall|j: int| k <= j < 34 ==> #[trigger] t.lacks(c, j) == 0) ==> t.missing_from(c, k) == 0,
    decreases 34 - k,
{
    if k < 34 {
        lemma_missing(t, c, k + 1);
        assert(t.lacks(c, k) >= 0);
        if t.missing_from(c, k) == 0 {
            assert forall|j: int| k <= j < 34 implies #[trigger] t.lacks(c, j) == 0 by {
                if j > k {
                    assert(k + 1 <= j);
                }
            }
        }
    }
}

pub proof fn lemma_least(c: Seq<u8>, groups: int, sanma: bool, t: Target) -> (d: int)
    requires
        t.is_complete(groups, sanma),
    ensures
        is_distance(c, groups, sanma, d),
    decreases t.missing(c),
{
    lemma_missing(t, c, 0);
    if exists|u: Target| #[trigger] u.is_complete(groups, sanma) && u.missing(c) < t.missing(c) {
        let u = choose|u: Target| #[trigger] u.is_complete(groups, sanma) && u.missing(c) < t.missing(c);
        lemma_missing(u, c, 0);
        lemma_least(c, groups, sanma, u)
    } else {
        t.missing(c)
    }
}

/// A distance is never negative, and is zero where a target lacks nothing.
proof fn lemma_distance_zero(c: Seq<u8>, groups: int, sanma: bool)
    requires
        0 <= groups <= 4,
    ensures
        distance(c, groups, sanma) >= 0,
        distance(c, groups, sanma) == 0 <==> exists|t: Target| #[trigger] t.is_complete(groups, sanma) && t.missing(c) == 0,
{
    let some = lemma_some_target(c, groups, sanma);
    let d = lemma_least(c, groups, sanma, some);
    lemma_distance_unique(c, groups, sanma, d);
    let best = choose|t: Target| #[trigger] t.is_complete(groups, sanma) && t.missing(c) == d;
    lemma_missing(best, c, 0);
    if exists|t: Target| #[trigger] t.is_complete(groups, sanma) && t.missing(c) == 0 {
        let t = choose|t: Target| #[trigger] t.is_complete(groups, sanma) && t.missing(c) == 0;
        assert(t.missing(c) >= d);
    }
}

// From a target to a reading.

spec fn copies(m: MeldShape, n: int) -> Seq<MeldShape>
    decreases n,
{
    if n <= 0 { Seq::empty() } else { seq![m] + copies(m, n - 1) }
}

/// The groups of a target from a kind on, in order.
spec fn groups_list(t: Target, k: int) -> Seq<MeldShape>
    decreases 34 - k,
{
    if k >= 34 {
        Seq::empty()
    } else {
        copies(MeldShape::Shuntsu(k as u8), t.runs[k]) + (copies(MeldShape::Kotsu(k as u8), t.triplets[k]) + groups_list(
            t,
            k + 1,
        ))
    }
}

proof fn lemma_used_append(a: Seq<MeldShape>, b: Seq<MeldShape>, k: int)
    ensures
        used(a + b, k) == used(a, k) + used(b, k),
    decreases a.len(),
{
    if a.len() == 0 {
        assert(a + b =~= b);
    } else {
        lemma_used_append(a.drop_first(), b, k);
        assert((a + b).drop_first() =~= a.drop_first() + b);
        assert((a + b)[0] == a[0]);
    }
}

proof fn lemma_copies(m: MeldShape, n: int, k: int)
    requires
        n >= 0,
    ensures
        copies(m, n).len() == n,
        forall|i: int| 0 <= i < n ==> #[trigger] copies(m, n)[i] == m,
        m.uses(k) == 0 ==> used(copies(m, n), k) == 0,
        m.uses(k) == 1 ==> used(copies(m, n), k) == n,
        m.uses(k) == 3 ==> used(copies(m, n), k) == 3 * n,
    decreases n,
{
    if n > 0 {
        lemma_copies(m, n - 1, k);
        let s = copies(m, n);
        assert(s.drop_first() =~= copies(m, n - 1));
        assert(s[0] == m);
        assert forall|i: int| 0 <= i < n implies #[trigger] s[i] == m by {
            if i > 0 {
                assert(s[i] == copies(m, n - 1)[i - 1]);
            }
        }
    }
}

/// Tiles of a kind in the groups of a target that begin at kind `from` or above.
spec fn tiles_from(t: Target, from: int, k: int) -> int {
    (if k >= from { 3 * t.triplets[k] + t.runs_at(k) } else { 0 }) + (if k - 1 >= from { t.runs_at(k - 1) } else { 0 }) + (if k
        - 2 >= from { t.runs_at(k - 2) } else { 0 })
}

proof fn lemma_list_uses(t: Target, groups: int, sanma: bool, from: int, k: int)
    requires
        t.is_complete(groups, sanma),
        0 <= from <= 34,
        0 <= k < 34,
    ensures
        used(groups_list(t, from), k) == tiles_from(t, from, k),
    decreases 34 - from,
{
    if from < 34 {
        lemma_list_uses(t, groups, sanma, from + 1, k);
        assert(t.valid_at(from, sanma));
        let x = MeldShape::Kotsu(from as u8);
        let r = MeldShape::Shuntsu(from as u8);
        let rest = groups_list(t, from + 1);
        lemma_copies(x, t.triplets[from], k);
        lemma_copies(r, t.runs[from], k);
        lemma_used_append(copies(x, t.triplets[from]), rest, k);
        lemma_used_append(copies(r, t.runs[from]), copies(x, t.triplets[from]) + rest, k);
    }
}

proof fn lemma_list_shape(t: Target, groups: int, sanma: bool, from: int)
    requires
        t.is_complete(groups, sanma),
        0 <= from <= 34,
    ensures
        groups_list(t, from).len() == t.groups_from(from),
        forall|i: int|
            0 <= i < groups_list(t, from).len() ==> (#[trigger] groups_list(t, from)[i]).is_group() && groups_list(t, from)[i].tile_kind()
                >= from,
        forall|i: int, j: int|
            0 <= i < j < groups_list(t, from).len() ==> (#[trigger] groups_list(t, from)[i]).comes_before(
                #[trigger] groups_list(t, from)[j],
            ),
    decreases 34 - from,
{
    if from < 34 {
        lemma_list_shape(t, groups, sanma, from + 1);
        assert(t.valid_at(from, sanma));
        let x = MeldShape::Kotsu(from as u8);
        let r = MeldShape::Shuntsu(from as u8);
        let a = copies(r, t.runs[from]);
        let b = copies(x, t.triplets[from]);
        let rest = groups_list(t, from + 1);
        let all = groups_list(t, from);
        lemma_copies(x, t.triplets[from], 0);
        lemma_copies(r, t.runs[from], 0);
        assert forall|i: int| 0 <= i < all.len() implies (#[trigger] all[i]).is_group() && all[i].tile_kind() >= from && (i
            < a.len() + b.len() ==> all[i].tile_kind() == from) by {
            if i < a.len() {
                assert(all[i] == a[i]);
            } else if i < a.len() + b.len() {
                assert(all[i] == b[i - a.len()]);
            } else {
                assert(all[i] == rest[i - a.len() - b.len()]);
            }
        }
        assert forall|i: int, j: int| 0 <= i < j < all.len() implies (#[trigger] all[i]).comes_before(#[trigger] all[j]) by {
            if i >= a.len() + b.len() {
                assert(all[i] == rest[i - a.len() - b.len()]);
                assert(all[j] == rest[j - a.len() - b.len()]);
            } else if j >= a.len() + b.len() {
                assert(all[j] == rest[j - a.len() - b.len()]);
            } else {
                assert(all[i] == if i < a.len() { a[i] } else { b[i - a.len()] });
                assert(all[j] == if j < a.len() { a[j] } else { b[j - a.len()] });
            }
        }
    }
}

// Sums.

spec fn sum_from(c: Seq<u8>, k: int) -> int
    decreases 34 - k,
{
    if k >= 34 { 0 } else { c[k] + sum_from(c, k + 1) }
}

proof fn lemma_sum_split(c: Seq<u8>, k: int)
    requires
        c.len() == 34,
        0 <= k <= 34,
    ensures
        sum_counts(c) == sum_counts(c.take(k)) + sum_from(c, k),
    decreases 34 - k,
{
    if k == 34 {
        assert(c.take(34) =~= c);
    } else {
        lemma_sum_split(c, k + 1);
        assert(c.take(k + 1).drop_last() =~= c.take(k));
        assert(c.take(k + 1).last() == c[k]);
    }
}

/// A target that lacks nothing holds no more than the hand, and exactly the hand where they are
/// as many tiles.
proof fn lemma_exact(t: Target, c: Seq<u8>, groups: int, sanma: bool, k: int)
    requires
        t.is_complete(groups, sanma),
        forall|j: int| 0 <= j < 34 ==> #[trigger] t.lacks(c, j) == 0,
        0 <= k <= 34,
    ensures
        sum_from(c, k) >= 3 * t.groups_from(k) + (if t.pair >= k { 2int } else { 0 }) + 2 * t.runs_at(k - 1) + t.runs_at(k - 2),
        sum_from(c, k) == 3 * t.groups_from(k) + (if t.pair >= k { 2int } else { 0 }) + 2 * t.runs_at(k - 1) + t.runs_at(k - 2)
            ==> forall|j: int| k <= j < 34 ==> #[trigger] t.holds(j) == c[j],
    decreases 34 - k,
{
    if k < 34 {
        lemma_exact(t, c, groups, sanma, k + 1);
        assert(t.lacks(c, k) == 0);
        assert(t.valid_at(k, sanma));
        assert(k >= 1 ==> t.valid_at(k - 1, sanma));
        if sum_from(c, k) == 3 * t.groups_from(k) + (if t.pair >= k { 2int } else { 0 }) + 2 * t.runs_at(k - 1) + t.runs_at(k - 2) {
            assert forall|j: int| k <= j < 34 implies #[trigger] t.holds(j) == c[j] by {
                if j > k {
                    assert(k + 1 <= j);
                }
            }
        }
    } else {
        assert(t.valid_at(33, sanma));
        assert(t.valid_at(32, sanma));
    }
}

/// A hand of the right size for its called melds, with no more copies of a kind than exist.
pub open spec fn is_full_hand(c: Seq<u8>, melds: u8, sanma: bool) -> bool {
    &&& c.len() == 34
    &&& melds <= 4
    &&& sum_counts(c) == 14 - 3 * melds
    &&& forall|k: int| 0 <= k < 34 ==> #[trigger] c[k] <= 4
    &&& sanma ==> forall|k: int| 1 <= k <= 7 ==> #[trigger] c[k] == 0
}

proof fn lemma_target_reading(c: Seq<u8>, melds: u8, sanma: bool, t: Target)
    requires
        is_full_hand(c, melds, sanma),
        t.is_complete(groups_needed(melds), sanma),
        t.missing(c) == 0,
    ensures
        exists|r: Reading| #[trigger] is_reading(c, (4 - melds) as nat, r),
{
    let groups = groups_needed(melds);
    lemma_missing(t, c, 0);
    lemma_exact(t, c, groups, sanma, 0);
    lemma_sum_split(c, 0);
    assert(c.take(0) =~= Seq::empty());
    assert(forall|j: int| 0 <= j < 34 ==> #[trigger] t.holds(j) == c[j]);
    let list = groups_list(t, 0);
    let r = Reading { pair: t.pair as u8, melds: list };
    lemma_list_shape(t, groups, sanma, 0);
    let rest = without_pair(c, t.pair);
    assert(t.holds(t.pair) == c[t.pair]);
    assert(t.valid_at(t.pair, sanma));
    assert(t.pair >= 1 ==> t.valid_at(t.pair - 1, sanma));
    assert(t.pair >= 2 ==> t.valid_at(t.pair - 2, sanma));
    assert forall|k: int| 0 <= k < 34 implies #[trigger] rest[k] == used(list, k) by {
        lemma_list_uses(t, groups, sanma, 0, k);
        assert(t.holds(k) == c[k]);
    }
    assert(fills(rest, (4 - melds) as nat, list));
    assert(is_reading(c, (4 - melds) as nat, r));
}

// From a reading to a target.

spec fn shape_count(melds: Seq<MeldShape>, m: MeldShape) -> int
    decreases melds.len(),
{
    if melds.len() == 0 { 0 } else { (if melds[0] == m { 1int } else { 0 }) + shape_count(melds.drop_first(), m) }
}

spec fn reading_target(pair: int, melds: Seq<MeldShape>) -> Target {
    Target {
        triplets: Seq::new(34, |k: int| shape_count(melds, MeldShape::Kotsu(k as u8))),
        runs: Seq::new(34, |k: int| shape_count(melds, MeldShape::Shuntsu(k as u8))),
        pair,
    }
}

proof fn lemma_count_nonneg(melds: Seq<MeldShape>, m: MeldShape)
    ensures
        shape_count(melds, m) >= 0,
    decreases melds.len(),
{
    if melds.len() > 0 {
        lemma_count_nonneg(melds.drop_first(), m);
    }
}

spec fn runs_count(melds: Seq<MeldShape>, k: int) -> int {
    if 0 <= k < 34 { shape_count(melds, MeldShape::Shuntsu(k as u8)) } else { 0 }
}

proof fn lemma_used_counts(melds: Seq<MeldShape>, k: int)
    requires
        0 <= k < 34,
        forall|i: int| 0 <= i < melds.len() ==> (#[trigger] melds[i]).is_group(),
    ensures
        used(melds, k) == 3 * shape_count(melds, MeldShape::Kotsu(k as u8)) + runs_count(melds, k) + runs_count(melds, k - 1)
            + runs_count(melds, k - 2),
    decreases melds.len(),
{
    if melds.len() > 0 {
        let rest = melds.drop_first();
        assert forall|i: int| 0 <= i < rest.len() implies (#[trigger] rest[i]).is_group() by {
            assert(rest[i] == melds[i + 1]);
        }
        lemma_used_counts(rest, k);
        assert(melds[0].is_group());
    }
}

spec fn groups_below(melds: Seq<MeldShape>, k: int) -> int
    decreases 34 - k,
{
    if k >= 34 {
        0
    } else {
        shape_count(melds, MeldShape::Kotsu(k as u8)) + shape_count(melds, MeldShape::Shuntsu(k as u8)) + groups_below(melds, k + 1)
    }
}

proof fn lemma_groups_below(melds: Seq<MeldShape>, k: int)
    requires
        0 <= k <= 34,
        melds.len() > 0,
        melds[0].is_group(),
    ensures
        groups_below(melds, k) == groups_below(melds.drop_first(), k) + if melds[0].tile_kind() >= k { 1int } else { 0 },
    decreases 34 - k,
{
    if k < 34 {
        lemma_groups_below(melds, k + 1);
    }
}

proof fn lemma_no_groups(k: int)
    requires
        0 <= k <= 34,
    ensures
        groups_below(Seq::<MeldShape>::empty(), k) == 0,
    decreases 34 - k,
{
    if k < 34 {
        lemma_no_groups(k + 1);
    }
}

proof fn lemma_groups_len(melds: Seq<MeldShape>)
    requires
        forall|i: int| 0 <= i < melds.len() ==> (#[trigger] melds[i]).is_group(),
    ensures
        groups_below(melds, 0) == melds.len(),
    decreases melds.len(),
{
    if melds.len() == 0 {
        assert(melds =~= Seq::<MeldShape>::empty());
        lemma_no_groups(0);
    } else {
        let rest = melds.drop_first();
        assert forall|i: int| 0 <= i < rest.len() implies (#[trigger] rest[i]).is_group() by {
            assert(rest[i] == melds[i + 1]);
        }
        lemma_groups_len(rest);
        lemma_groups_below(melds, 0);
    }
}

proof fn lemma_target_groups(pair: int, melds: Seq<MeldShape>, k: int)
    requires
        0 <= k <= 34,
    ensures
        reading_target(pair, melds).groups_from(k) == groups_below(melds, k),
    decreases 34 - k,
{
    if k < 34 {
        lemma_target_groups(pair, melds, k + 1);
    }
}

proof fn lemma_counted_group(melds: Seq<MeldShape>, m: MeldShape) -> (i: int)
    requires
        shape_count(melds, m) > 0,
    ensures
        0 <= i < melds.len(),
        melds[i] == m,
    decreases melds.len(),
{
    if melds.len() > 0 && melds[0] == m {
        0
    } else {
        let j = lemma_counted_group(melds.drop_first(), m);
        j + 1
    }
}

proof fn lemma_reading_target(c: Seq<u8>, melds: u8, sanma: bool, r: Reading)
    requires
        is_full_hand(c, melds, sanma),
        is_reading(c, (4 - melds) as nat, r),
    ensures
        reading_target(r.pair as int, r.melds).is_complete(groups_needed(melds), sanma),
        reading_target(r.pair as int, r.melds).missing(c) == 0,
{
    let t = reading_target(r.pair as int, r.melds);
    let rest = without_pair(c, r.pair as int);
    lemma_groups_len(r.melds);
    lemma_target_groups(r.pair as int, r.melds, 0);
    assert forall|k: int| 0 <= k < 34 implies #[trigger] t.valid_at(k, sanma) && t.holds(k) == c[k] by {
        lemma_used_counts(r.melds, k);
        lemma_count_nonneg(r.melds, MeldShape::Kotsu(k as u8));
        lemma_count_nonneg(r.melds, MeldShape::Shuntsu(k as u8));
        if k >= 1 {
            lemma_count_nonneg(r.melds, MeldShape::Shuntsu((k - 1) as u8));
        }
        if k >= 2 {
            lemma_count_nonneg(r.melds, MeldShape::Shuntsu((k - 2) as u8));
        }
        assert(rest[k] == used(r.melds, k));
        assert(t.holds(k) == c[k]);
        if t.runs[k] > 0 {
            let i = lemma_counted_group(r.melds, MeldShape::Shuntsu(k as u8));
            assert(r.melds[i].is_group());
            if sanma && k < 9 {
                lemma_used_counts(r.melds, k + 1);
                lemma_count_nonneg(r.melds, MeldShape::Kotsu((k + 1) as u8));
                lemma_count_nonneg(r.melds, MeldShape::Shuntsu((k + 1) as u8));
                if k >= 1 {
                    lemma_count_nonneg(r.melds, MeldShape::Shuntsu((k - 1) as u8));
                }
                assert(rest[k + 1] == used(r.melds, k + 1));
                assert(c[k + 1] > 0);
                assert(1 <= k + 1 <= 7);
            }
        }
        if sanma && 1 <= k <= 7 {
            assert(c[k] == 0);
        }
    }
    assert forall|k: int| 0 <= k < 34 implies #[trigger] t.lacks(c, k) == 0 by {
        assert(t.valid_at(k, sanma));
    }
    lemma_missing(t, c, 0);
}

// Seven pairs and thirteen orphans.

proof fn lemma_pairs(c: Seq<u8>)
    ensures
        kinds_with(c, 2) <= kinds_with(c, 1),
        sum_counts(c) >= 2 * kinds_with(c, 2),
        sum_counts(c) == 2 * kinds_with(c, 2) ==> forall|k: int| 0 <= k < c.len() ==> #[trigger] c[k] == 0 || c[k] == 2,
    decreases c.len(),
{
    if c.len() > 0 {
        lemma_pairs(c.drop_last());
        if sum_counts(c) == 2 * kinds_with(c, 2) {
            assert forall|k: int| 0 <= k < c.len() implies #[trigger] c[k] == 0 || c[k] == 2 by {
                if k < c.len() - 1 {
                    assert(c.drop_last()[k] == c[k]);
                }
            }
        }
    }
}

proof fn lemma_pairs_sum(c: Seq<u8>)
    requires
        forall|k: int| 0 <= k < c.len() ==> #[trigger] c[k] == 0 || c[k] == 2,
    ensures
        sum_counts(c) == 2 * kinds_with(c, 2),
        kinds_with(c, 1) == kinds_with(c, 2),
    decreases c.len(),
{
    if c.len() > 0 {
        assert forall|k: int| 0 <= k < c.drop_last().len() implies #[trigger] c.drop_last()[k] == 0 || c.drop_last()[k] == 2 by {
            assert(c.drop_last()[k] == c[k]);
        }
        lemma_pairs_sum(c.drop_last());
    }
}

/// Number of terminal and honor kinds below one.
pub open spec fn yaochuu_below(n: int) -> int
    decreases n,
{
    if n <= 0 { 0 } else { yaochuu_below(n - 1) + if is_yaochuu_kind(n - 1) { 1int } else { 0 } }
}

pub proof fn lemma_thirteen()
    ensures
        yaochuu_below(34) == 13,
{
    reveal_with_fuel(yaochuu_below, 35);
}

pub proof fn lemma_orphans(c: Seq<u8>)
    requires
        c.len() <= 34,
    ensures
        yaochuu_kinds(c) <= yaochuu_below(c.len() as int),
        sum_counts(c) >= yaochuu_kinds(c),
        yaochuu_kinds(c) == yaochuu_below(c.len() as int) ==> forall|k: int|
            0 <= k < c.len() && is_yaochuu_kind(k) ==> #[trigger] c[k] >= 1,
        (forall|k: int| 0 <= k < c.len() && is_yaochuu_kind(k) ==> #[trigger] c[k] >= 1) ==> yaochuu_kinds(c) == yaochuu_below(
            c.len() as int,
        ),
    decreases c.len(),
{
    if c.len() > 0 {
        let d = c.drop_last();
        lemma_orphans(d);
        if yaochuu_kinds(c) == yaochuu_below(c.len() as int) {
            assert forall|k: int| 0 <= k < c.len() && is_yaochuu_kind(k) implies #[trigger] c[k] >= 1 by {
                if k < c.len() - 1 {
                    assert(d[k] == c[k]);
                }
            }
        }
        if forall|k: int| 0 <= k < c.len() && is_yaochuu_kind(k) ==> #[trigger] c[k] >= 1 {
            assert forall|k: int| 0 <= k < d.len() && is_yaochuu_kind(k) implies #[trigger] d[k] >= 1 by {
                assert(d[k] == c[k]);
            }
        }
    }
}

/// Tiles beyond one of each terminal and honor.
proof fn lemma_excess(c: Seq<u8>, p: int, q: int)
    requires
        c.len() <= 34,
        0 <= p < c.len(),
        0 <= q < c.len(),
        p != q,
        is_yaochuu_kind(p),
        c[p] >= 2,
        !is_yaochuu_kind(q),
        c[q] > 0,
    ensures
        sum_counts(c) >= yaochuu_kinds(c) + 2,
    decreases c.len(),
{
    let d = c.drop_last();
    let n = c.len() - 1;
    lemma_orphans(d);
    if p < n && q < n {
        assert(d[p] == c[p] && d[q] == c[q]);
        lemma_excess(d, p, q);
    } else if p == n {
        lemma_one_excess(d, q);
    } else {
        lemma_one_excess(d, p);
    }
}

proof fn lemma_one_excess(c: Seq<u8>, q: int)
    requires
        c.len() <= 34,
        0 <= q < c.len(),
        is_yaochuu_kind(q) ==> c[q] >= 2,
        c[q] > 0,
    ensures
        sum_counts(c) >= yaochuu_kinds(c) + 1,
    decreases c.len(),
{
    let d = c.drop_last();
    lemma_orphans(d);
    if q < c.len() - 1 {
        assert(d[q] == c[q]);
        lemma_one_excess(d, q);
    }
}

proof fn lemma_orphans_win(c: Seq<u8>)
    requires
        c.len() == 34,
        sum_counts(c) == 14,
    ensures
        kokushi_value(c) >= -1,
        kokushi_value(c) == -1 <==> is_thirteen_orphans(c),
{
    lemma_thirteen();
    lemma_orphans(c);
    if kokushi_value(c) == -1 {
        assert(yaochuu_kinds(c) == 13);
        let p = choose|k: int| #[trigger] is_yaochuu_kind(k) && c[k] >= 2;
        assert forall|k: int| 0 <= k < 34 implies (#[trigger] c[k] > 0 <==> is_yaochuu_kind(k)) by {
            if c[k] > 0 && !is_yaochuu_kind(k) {
                lemma_excess(c, p, k);
            }
        }
    }
}

/// A full hand is complete, with shanten -1, exactly where it can be read as a pair and groups,
/// as seven pairs or as thirteen orphans.
pub proof fn complete_hands_can_be_read(c: Seq<u8>, melds: u8, sanma: bool)
    requires
        is_full_hand(c, melds, sanma),
    ensures
        is_win(c, melds, sanma) <==> hand_readings(c, melds).len() > 0 || (melds == 0 && (is_seven_pairs(c)
            || is_thirteen_orphans(c))),
        shanten_value(c, melds, sanma) >= -1,
{
    let groups = groups_needed(melds);
    let need = (4 - melds) as nat;
    lemma_distance_zero(c, groups, sanma);
    lemma_readings_exist(c, need);
    let list = readings(c, need);
    if standard_value(c, melds, sanma) == -1 {
        let t = choose|t: Target| #[trigger] t.is_complete(groups, sanma) && t.missing(c) == 0;
        lemma_target_reading(c, melds, sanma, t);
        let r = choose|r: Reading| #[trigger] is_reading(c, need, r);
        assert(list.contains(r));
    }
    if list.len() > 0 {
        assert(is_reading(c, need, list[0]));
        lemma_reading_target(c, melds, sanma, list[0]);
        assert(standard_value(c, melds, sanma) == -1);
    }
    if melds == 0 {
        lemma_pairs(c);
        if is_seven_pairs(c) {
            lemma_pairs_sum(c);
        }
        lemma_orphans_win(c);
        assert(chiitoitsu_value(c) >= -1);
        assert(chiitoitsu_value(c) == -1 <==> is_seven_pairs(c));
    }
}

/// A hand that still waits for its last tile is never complete.
pub proof fn waiting_hands_are_not_complete(c: Seq<u8>, melds: u8, sanma: bool)
    requires
        c.len() == 34,
        sum_counts(c) + 3 * melds <= 13,
    ensures
        shanten_value(c, melds, sanma) >= 0,
{
    let groups = groups_needed(melds);
    lemma_distance_zero(c, groups, sanma);
    if distance(c, groups, sanma) == 0 {
        let t = choose|t: Target| #[trigger] t.is_complete(groups, sanma) && t.missing(c) == 0;
        lemma_missing(t, c, 0);
        lemma_exact(t, c, groups, sanma, 0);
        lemma_sum_split(c, 0);
        assert(c.take(0) =~= Seq::empty());
    }
    lemma_pairs(c);
    lemma_thirteen();
    lemma_orphans(c);
    if yaochuu_kinds(c) == 13 && has_yaochuu_pair(c) {
        let p = choose|k: int| #[trigger] is_yaochuu_kind(k) && c[k] >= 2;
        lemma_one_excess(c, p);
    }
}

} // verus!
