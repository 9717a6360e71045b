//! Shanten: how many tiles a hand is away from tenpai.
//!
//! Tenpai is 0 and a complete hand is -1. The result is the minimum over the standard form,
//! chiitoitsu and kokushi. `melds` is the number of called melds; nukidora does not count.

use vstd::prelude::*;
use crate::mahjong::hand::TileCounts;

verus! {

pub const AGARI: i8 = -1;
pub const TENPAI: i8 = 0;

/// A complete standard hand to aim for: triplets of each kind, sequences by their lowest
/// kind, and the kind of the pair.
pub struct Target {
    pub triplets: Seq<int>,
    pub runs: Seq<int>,
    pub pair: int,
}

/// Whether a kind is in the wall: the three-player wall has no 2m..8m.
pub open spec fn kind_in_wall(k: int, sanma: bool) -> bool {
    0 <= k < 34 && !(sanma && 1 <= k <= 7)
}

/// Whether a sequence can begin at a kind.
pub open spec fn run_can_start(k: int, sanma: bool) -> bool {
    0 <= k < 27 && k % 9 <= 6 && !(sanma && k < 9)
}

impl Target {
    pub open spec fn runs_at(self, k: int) -> int {
        if 0 <= k < 34 { self.runs[k] } else { 0 }
    }

    /// How many tiles of a kind the target holds.
    pub open spec fn holds(self, k: int) -> int {
        3 * self.triplets[k] + self.runs_at(k) + self.runs_at(k - 1) + self.runs_at(k - 2)
            + if self.pair == k { 2int } else { 0 }
    }

    /// What the target holds of a kind exists in the wall, four copies at most.
    pub open spec fn valid_at(self, k: int, sanma: bool) -> bool {
        &&& self.triplets[k] >= 0
        &&& self.runs[k] >= 0
        &&& self.triplets[k] > 0 ==> kind_in_wall(k, sanma)
        &&& self.runs[k] > 0 ==> run_can_start(k, sanma)
        &&& self.pair == k ==> kind_in_wall(k, sanma)
        &&& self.holds(k) <= 4
    }

    /// Number of groups that begin at kind `k` or above.
    pub open spec fn groups_from(self, k: int) -> int
        decreases 34 - k,
    {
        if k >= 34 { 0 } else { self.triplets[k] + self.runs[k] + self.groups_from(k + 1) }
    }

    /// Tiles of a kind that a hand lacks for the target.
    pub open spec fn lacks(self, c: Seq<u8>, k: int) -> int {
        if self.holds(k) > c[k] { self.holds(k) - c[k] } else { 0 }
    }

    /// Tiles of the kinds from `k` upwards that a hand lacks for the target.
    pub open spec fn missing_from(self, c: Seq<u8>, k: int) -> int
        decreases 34 - k,
    {
        if k >= 34 { 0 } else { self.lacks(c, k) + self.missing_from(c, k + 1) }
    }

    /// A hand of the given number of groups and one pair.
    pub open spec fn is_complete(self, groups: int, sanma: bool) -> bool {
        &&& self.triplets.len() == 34
        &&& self.runs.len() == 34
        &&& 0 <= self.pair < 34
        &&& forall|k: int| 0 <= k < 34 ==> #[trigger] self.valid_at(k, sanma)
        &&& self.groups_from(0) == groups
    }

    /// Tiles that a hand lacks for the target.
    pub open spec fn missing(self, c: Seq<u8>) -> int {
        self.missing_from(c, 0)
    }
}

/// `d` is the smallest number of tiles that a hand lacks for any complete hand.
pub open spec fn is_distance(c: Seq<u8>, groups: int, sanma: bool, d: int) -> bool {
    &&& exists|t: Target| #[trigger] t.is_complete(groups, sanma) && t.missing(c) == d
    &&& forall|t: Target| #[trigger] t.is_complete(groups, sanma) ==> t.missing(c) >= d
}

/// The smallest number of tiles that a hand lacks for a complete standard hand.
pub open spec fn distance(c: Seq<u8>, groups: int, sanma: bool) -> int {
    choose|d: int| is_distance(c, groups, sanma, d)
}

/// Groups that a hand with called melds still has to form.
pub open spec fn groups_needed(melds: u8) -> int {
    if melds > 4 { 0 } else { 4 - melds }
}

pub open spec fn standard_value(c: Seq<u8>, melds: u8, sanma: bool) -> int {
    distance(c, groups_needed(melds), sanma) - 1
}

/// Number of kinds held at least `n` times.
pub open spec fn kinds_with(c: Seq<u8>, n: u8) -> nat
    decreases c.len(),
{
    if c.len() == 0 { 0 } else { kinds_with(c.drop_last(), n) + if c.last() >= n { 1nat } else { 0 } }
}

/// Terminal and honor kinds.
pub open spec fn is_yaochuu_kind(k: int) -> bool {
    0 <= k < 34 && (k >= 27 || k % 9 == 0 || k % 9 == 8)
}

/// Number of terminal and honor kinds held.
pub open spec fn yaochuu_kinds(c: Seq<u8>) -> nat
    decreases c.len(),
{
    if c.len() == 0 {
        0
    } else {
        yaochuu_kinds(c.drop_last()) + if is_yaochuu_kind(c.len() - 1) && c.last() >= 1 { 1nat } else { 0 }
    }
}

/// Whether a terminal or honor is held twice.
pub open spec fn has_yaochuu_pair(c: Seq<u8>) -> bool {
    exists|k: int| #[trigger] is_yaochuu_kind(k) && c[k] >= 2
}

/// 6 less the number of pairs, and one more for each kind short of seven.
pub open spec fn chiitoitsu_value(c: Seq<u8>) -> int {
    6 - kinds_with(c, 2) + if kinds_with(c, 1) < 7 { 7 - kinds_with(c, 1) } else { 0 }
}

/// 13 less the number of terminal and honor kinds, and one less where one of them is paired.
pub open spec fn kokushi_value(c: Seq<u8>) -> int {
    13 - yaochuu_kinds(c) - if has_yaochuu_pair(c) { 1int } else { 0 }
}

pub open spec fn shanten_value(c: Seq<u8>, melds: u8, sanma: bool) -> int {
    let s = standard_value(c, melds, sanma);
    if melds == 0 {
        let a = if chiitoitsu_value(c) < s { chiitoitsu_value(c) } else { s };
        if kokushi_value(c) < a { kokushi_value(c) } else { a }
    } else {
        s
    }
}

// Walking the kinds upwards, a target is a choice at each kind.

/// A choice at kind `k` of `x` triplets, `s` sequences beginning there and the pair if `q`,
/// where `a` sequences began one kind and `b` two kinds below.
spec fn choice_ok(sanma: bool, k: int, p: int, a: int, b: int, x: int, s: int, q: int) -> bool {
    &&& 0 <= x
    &&& 0 <= s
    &&& (x > 0 || q > 0) ==> kind_in_wall(k, sanma)
    &&& s > 0 ==> run_can_start(k, sanma)
    &&& 0 <= q <= p
    &&& 3 * x + s + a + b + 2 * q <= 4
}

spec fn choice_cost(have: u8, a: int, b: int, x: int, s: int, q: int) -> int {
    let t = 3 * x + s + a + b + 2 * q;
    if t > have { t - have } else { 0 }
}

/// Whether choices from kind `k` on form `m` groups, and the pair if `p`, lacking `d` tiles.
spec fn way(c: Seq<u8>, sanma: bool, k: int, m: int, p: int, a: int, b: int, d: int) -> bool
    decreases 34 - k,
{
    if k >= 34 {
        m == 0 && p == 0 && d == 0
    } else {
        exists|x: int, s: int, q: int| #[trigger]
            choice_ok(sanma, k, p, a, b, x, s, q) && way(
                c,
                sanma,
                k + 1,
                m - x - s,
                p - q,
                s,
                a,
                d - choice_cost(c[k], a, b, x, s, q),
            )
    }
}

proof fn lemma_target_is_way(t: Target, c: Seq<u8>, groups: int, sanma: bool, k: int)
    requires
        t.is_complete(groups, sanma),
        0 <= k <= 34,
    ensures
        way(c, sanma, k, t.groups_from(k), (if t.pair >= k { 1int } else { 0 }), t.runs_at(k - 1), t.runs_at(k - 2), t.missing_from(c, k)),
    decreases 34 - k,
{
    if k < 34 {
        lemma_target_is_way(t, c, groups, sanma, k + 1);
        assert(t.valid_at(k, sanma));
        let x = t.triplets[k];
        let s = t.runs[k];
        let q = if t.pair == k { 1int } else { 0 };
        assert(choice_ok(sanma, k, (if t.pair >= k { 1int } else { 0 }), t.runs_at(k - 1), t.runs_at(k - 2), x, s, q));
    }
}

/// Completes a target that is fixed below `k`.
proof fn lemma_way_is_target(
    c: Seq<u8>,
    sanma: bool,
    k: int,
    m: int,
    p: int,
    a: int,
    b: int,
    d: int,
    t: Target,
) -> (r: Target)
    requires
        0 <= k <= 34,
        t.triplets.len() == 34,
        t.runs.len() == 34,
        t.runs_at(k - 1) == a,
        t.runs_at(k - 2) == b,
        way(c, sanma, k, m, p, a, b, d),
        0 <= p <= 1,
        p == 1 ==> t.pair == -1,
        p == 0 ==> 0 <= t.pair < k,
    ensures
        r.triplets.len() == 34,
        r.runs.len() == 34,
        forall|j: int| 0 <= j < k ==> r.triplets[j] == t.triplets[j] && r.runs[j] == t.runs[j],
        p == 1 ==> k <= r.pair < 34,
        p == 0 ==> r.pair == t.pair,
        forall|j: int| k <= j < 34 ==> #[trigger] r.valid_at(j, sanma),
        r.groups_from(k) == m,
        r.missing_from(c, k) == d,
    decreases 34 - k,
{
    if k >= 34 {
        t
    } else {
        let (x, s, q) = choose|x: int, s: int, q: int| #[trigger]
            choice_ok(sanma, k, p, a, b, x, s, q) && way(
                c,
                sanma,
                k + 1,
                m - x - s,
                p - q,
                s,
                a,
                d - choice_cost(c[k], a, b, x, s, q),
            );
        let t1 = Target {
            triplets: t.triplets.update(k, x),
            runs: t.runs.update(k, s),
            pair: if q == 1 { k } else { t.pair },
        };
        let r = lemma_way_is_target(
            c, sanma, k + 1, m - x - s, p - q, s, a, d - choice_cost(c[k], a, b, x, s, q), t1);
        assert(r.triplets[k] == t1.triplets[k]);
        assert(r.runs[k] == t1.runs[k]);
        assert(k >= 1 ==> r.runs[k - 1] == t1.runs[k - 1]);
        assert(k >= 2 ==> r.runs[k - 2] == t1.runs[k - 2]);
        assert(r.runs_at(k - 1) == a);
        assert(r.runs_at(k - 2) == b);
        assert((r.pair == k) == (q == 1));
        assert(r.valid_at(k, sanma));
        r
    }
}

/// A hand of honor triplets and a pair of haku.
proof fn lemma_groups_of_honors(t: Target, c: Seq<u8>, groups: int, k: int)
    requires
        t.pair == 31,
        0 <= groups <= 4,
        0 <= k <= 34,
        t.triplets == Seq::new(34, |i: int| if 27 <= i < 27 + groups { 1int } else { 0 }),
        t.runs == Seq::new(34, |i: int| 0int),
    ensures
        t.groups_from(k) == if k <= 27 { groups } else if k <= 27 + groups { 27 + groups - k } else { 0 },
        t.missing_from(c, k) <= 3 * t.groups_from(k) + if k <= 31 { 2int } else { 0 },
    decreases 34 - k,
{
    if k < 34 {
        lemma_groups_of_honors(t, c, groups, k + 1);
    }
}

/// There is a complete hand of every number of groups up to four.
pub proof fn lemma_some_target(c: Seq<u8>, groups: int, sanma: bool) -> (t: Target)
    requires
        0 <= groups <= 4,
    ensures
        t.is_complete(groups, sanma),
        t.missing(c) <= 3 * groups + 2,
{
    let t = Target {
        triplets: Seq::new(34, |i: int| if 27 <= i < 27 + groups { 1int } else { 0 }),
        runs: Seq::new(34, |i: int| 0int),
        pair: 31,
    };
    lemma_groups_of_honors(t, c, groups, 0);
    assert forall|k: int| 0 <= k < 34 implies #[trigger] t.valid_at(k, sanma) by {}
    t
}

/// Position of a state in a table.
spec fn slot(m: int, p: int, a: int, b: int) -> int {
    ((m * 2 + p) * 5 + a) * 5 + b
}

/// A table entry holds the least number of tiles lacked from `k` on, or 255 where no choices fit.
spec fn entry_ok(v: u8, c: Seq<u8>, sanma: bool, k: int, m: int, p: int, a: int, b: int) -> bool {
    &&& v == 255 || v <= 4 * (34 - k)
    &&& v != 255 ==> way(c, sanma, k, m, p, a, b, v as int)
    &&& forall|d: int| #[trigger] way(c, sanma, k, m, p, a, b, d) ==> v != 255 && v <= d
}

spec fn table_ok(t: Seq<u8>, c: Seq<u8>, sanma: bool, k: int, groups: int) -> bool {
    &&& t.len() == 250
    &&& forall|m: int, p: int, a: int, b: int|
        0 <= m <= groups && 0 <= p <= 1 && 0 <= a <= 4 && 0 <= b <= 4 ==> entry_ok(
            #[trigger] t[slot(m, p, a, b)],
            c,
            sanma,
            k,
            m,
            p,
            a,
            b,
        )
}

/// The better of a known entry and one choice.
fn try_choice(
    next: &Vec<u8>,
    have: u8,
    m: usize,
    p: usize,
    a: usize,
    b: usize,
    x: usize,
    s: usize,
    q: usize,
    best: u8,
    Ghost(c): Ghost<Seq<u8>>,
    Ghost(sanma): Ghost<bool>,
    Ghost(k): Ghost<int>,
    Ghost(groups): Ghost<int>,
) -> (r: u8)
    requires
        0 <= k < 34,
        c.len() == 34,
        have == c[k],
        0 <= groups <= 4,
        table_ok(next@, c, sanma, k + 1, groups),
        m <= groups,
        p <= 1,
        q <= p,
        choice_ok(sanma, k, p as int, a as int, b as int, x as int, s as int, q as int),
        best == 255 || best <= 4 * (34 - k),
        best != 255 ==> way(c, sanma, k, m as int, p as int, a as int, b as int, best as int),
    ensures
        r <= best,
        r == 255 || r <= 4 * (34 - k),
        r != 255 ==> way(c, sanma, k, m as int, p as int, a as int, b as int, r as int),
        forall|d: int| #[trigger]
            way(c, sanma, k + 1, m - x - s, p - q, s as int, a as int, d) ==> r != 255 && r <= d
                + choice_cost(have, a as int, b as int, x as int, s as int, q as int),
{
    let ghost cost0 = choice_cost(have, a as int, b as int, x as int, s as int, q as int);
    if x + s > m {
        proof {
            assert forall|d: int| !#[trigger] way(c, sanma, k + 1, m - x - s, p - q, s as int, a as int, d) by {
                lemma_no_negative_groups(c, sanma, k + 1, m - x - s, p - q, s as int, a as int, d);
            }
        }
        return best;
    }
    let m1: usize = m - x - s;
    let p1: usize = p - q;
    let i: usize = ((m1 * 2 + p1) * 5 + s) * 5 + a;
    assert(i == slot(m1 as int, p1 as int, s as int, a as int));
    let v: u8 = next[i];
    assert(entry_ok(v, c, sanma, k + 1, m1 as int, p1 as int, s as int, a as int));
    if v == 255 {
        return best;
    }
    let t: u8 = (3 * x + s + a + b + 2 * q) as u8;
    let cost: u8 = if t > have { t - have } else { 0 };
    assert(cost == cost0);
    assert(way(c, sanma, k, m as int, p as int, a as int, b as int, v + cost)) by {
        assert(choice_ok(sanma, k, p as int, a as int, b as int, x as int, s as int, q as int));
        assert(v + cost - choice_cost(c[k], a as int, b as int, x as int, s as int, q as int) == v);
    }
    if v + cost < best {
        v + cost
    } else {
        best
    }
}

proof fn lemma_no_negative_groups(c: Seq<u8>, sanma: bool, k: int, m: int, p: int, a: int, b: int, d: int)
    requires
        m < 0,
    ensures
        !way(c, sanma, k, m, p, a, b, d),
    decreases 34 - k,
{
    if k < 34 {
        assert forall|x: int, s: int, q: int| #[trigger]
            choice_ok(sanma, k, p, a, b, x, s, q) implies !way(
            c,
            sanma,
            k + 1,
            m - x - s,
            p - q,
            s,
            a,
            d - choice_cost(c[k], a, b, x, s, q),
        ) by {
            lemma_no_negative_groups(
                c, sanma, k + 1, m - x - s, p - q, s, a, d - choice_cost(c[k], a, b, x, s, q));
        }
    }
}

/// Least number of tiles lacked from kind `k` on in one state.
fn best_entry(
    next: &Vec<u8>,
    have: u8,
    k: usize,
    sanma: bool,
    m: usize,
    p: usize,
    a: usize,
    b: usize,
    Ghost(c): Ghost<Seq<u8>>,
    Ghost(groups): Ghost<int>,
) -> (r: u8)
    requires
        k < 34,
        c.len() == 34,
        have == c[k as int],
        0 <= groups <= 4,
        table_ok(next@, c, sanma, k + 1, groups),
        m <= groups,
        p <= 1,
        a <= 4,
        b <= 4,
    ensures
        entry_ok(r, c, sanma, k as int, m as int, p as int, a as int, b as int),
{
    let mut best: u8 = 255;
    let held: usize = a + b;
    if held > 4 {
        assert forall|d: int| !#[trigger] way(c, sanma, k as int, m as int, p as int, a as int, b as int, d) by {}
        return best;
    }
    let exists_here = !(sanma && 1 <= k && k <= 7);
    let run_here = k < 27 && k % 9 <= 6 && !(sanma && k < 9);
    let room: usize = if run_here { 4 - held } else { 0 };
    let mut s: usize = 0;
    while s <= room
        invariant
            0 <= s <= room + 1,
            held == a + b <= 4,
            room == (if run_here { 4 - held } else { 0 }),
            exists_here == kind_in_wall(k as int, sanma),
            run_here == run_can_start(k as int, sanma),
            k < 34,
            c.len() == 34,
            have == c[k as int],
            0 <= groups <= 4,
            table_ok(next@, c, sanma, k + 1, groups),
            m <= groups,
            p <= 1,
            best == 255 || best <= 4 * (34 - k),
            best != 255 ==> way(c, sanma, k as int, m as int, p as int, a as int, b as int, best as int),
            forall|x: int, s1: int, q: int, d: int|
                #![trigger choice_ok(sanma, k as int, p as int, a as int, b as int, x, s1, q), way(c, sanma, k + 1, m - x - s1, p - q, s1, a as int, d)]
                s1 < s && choice_ok(sanma, k as int, p as int, a as int, b as int, x, s1, q) && way(
                    c,
                    sanma,
                    k + 1,
                    m - x - s1,
                    p - q,
                    s1,
                    a as int,
                    d,
                ) ==> best != 255 && best <= d + choice_cost(have, a as int, b as int, x, s1, q),
        decreases room + 1 - s,
    {
        best = try_choice(next, have, m, p, a, b, 0, s, 0, best, Ghost(c), Ghost(sanma), Ghost(k as int), Ghost(groups));
        if exists_here && p == 1 && held + s <= 2 {
            best = try_choice(next, have, m, p, a, b, 0, s, 1, best, Ghost(c), Ghost(sanma), Ghost(k as int), Ghost(groups));
        }
        if exists_here && held + s <= 1 {
            best = try_choice(next, have, m, p, a, b, 1, s, 0, best, Ghost(c), Ghost(sanma), Ghost(k as int), Ghost(groups));
        }
        s = s + 1;
    }
    assert forall|d: int| #[trigger] way(c, sanma, k as int, m as int, p as int, a as int, b as int, d) implies best != 255
        && best <= d by {
        let (x, s1, q) = choose|x: int, s1: int, q: int| #[trigger]
            choice_ok(sanma, k as int, p as int, a as int, b as int, x, s1, q) && way(
                c,
                sanma,
                k + 1,
                m - x - s1,
                p - q,
                s1,
                a as int,
                d - choice_cost(c[k as int], a as int, b as int, x, s1, q),
            );
        assert(s1 <= room);
        assert(way(c, sanma, k + 1, m - x - s1, p - q, s1, a as int,
            d - choice_cost(c[k as int], a as int, b as int, x, s1, q)));
    }
    best
}

/// The table for kind `k` from the table for the kind above.
fn table_step(next: &Vec<u8>, have: u8, k: usize, sanma: bool, groups: usize, Ghost(c): Ghost<Seq<u8>>) -> (r: Vec<u8>)
    requires
        k < 34,
        c.len() == 34,
        have == c[k as int],
        groups <= 4,
        table_ok(next@, c, sanma, k + 1, groups as int),
    ensures
        table_ok(r@, c, sanma, k as int, groups as int),
{
    let mut t: Vec<u8> = Vec::new();
    let mut i: usize = 0;
    while i < 250
        invariant
            i <= 250,
            t.len() == i,
            k < 34,
            c.len() == 34,
            have == c[k as int],
            groups <= 4,
            table_ok(next@, c, sanma, k + 1, groups as int),
            forall|m: int, p: int, a: int, b: int|
                0 <= m <= groups && 0 <= p <= 1 && 0 <= a <= 4 && 0 <= b <= 4 && slot(m, p, a, b) < i ==> entry_ok(
                    #[trigger] t@[slot(m, p, a, b)],
                    c,
                    sanma,
                    k as int,
                    m,
                    p,
                    a,
                    b,
                ),
        decreases 250 - i,
    {
        let m: usize = i / 50;
        let p: usize = (i / 25) % 2;
        let a: usize = (i / 5) % 5;
        let b: usize = i % 5;
        let v: u8 = if m <= groups {
            best_entry(next, have, k, sanma, m, p, a, b, Ghost(c), Ghost(groups as int))
        } else {
            255
        };
        let ghost before = t@;
        t.push(v);
        assert forall|m1: int, p1: int, a1: int, b1: int|
            0 <= m1 <= groups && 0 <= p1 <= 1 && 0 <= a1 <= 4 && 0 <= b1 <= 4 && slot(m1, p1, a1, b1) < i + 1
            implies entry_ok(#[trigger] t@[slot(m1, p1, a1, b1)], c, sanma, k as int, m1, p1, a1, b1) by {
            if slot(m1, p1, a1, b1) == i {
                assert(m1 == m && p1 == p && a1 == a && b1 == b);
            } else {
                assert(t@[slot(m1, p1, a1, b1)] == before[slot(m1, p1, a1, b1)]);
            }
        }
        i = i + 1;
    }
    t
}

/// The table above the last kind.
fn last_table(groups: usize, Ghost(c): Ghost<Seq<u8>>, Ghost(sanma): Ghost<bool>) -> (r: Vec<u8>)
    requires
        groups <= 4,
    ensures
        table_ok(r@, c, sanma, 34, groups as int),
{
    let mut t: Vec<u8> = Vec::new();
    let mut i: usize = 0;
    while i < 250
        invariant
            i <= 250,
            t.len() == i,
            forall|j: int| 0 <= j < i ==> #[trigger] t@[j] == if j < 25 { 0u8 } else { 255u8 },
        decreases 250 - i,
    {
        t.push(if i < 25 { 0 } else { 255 });
        i = i + 1;
    }
    assert forall|m: int, p: int, a: int, b: int|
        0 <= m <= groups && 0 <= p <= 1 && 0 <= a <= 4 && 0 <= b <= 4 implies entry_ok(
        #[trigger] t@[slot(m, p, a, b)], c, sanma, 34, m, p, a, b) by {
        assert(0 <= slot(m, p, a, b) < 250);
        assert(slot(m, p, a, b) < 25 <==> m == 0 && p == 0);
    }
    t
}

pub proof fn lemma_distance_unique(c: Seq<u8>, groups: int, sanma: bool, d: int)
    requires
        is_distance(c, groups, sanma, d),
    ensures
        distance(c, groups, sanma) == d,
{
    let e = distance(c, groups, sanma);
    assert(is_distance(c, groups, sanma, e));
    let t = choose|t: Target| #[trigger] t.is_complete(groups, sanma) && t.missing(c) == d;
    let u = choose|t: Target| #[trigger] t.is_complete(groups, sanma) && t.missing(c) == e;
    assert(t.missing(c) >= e);
    assert(u.missing(c) >= d);
}

fn least_missing(concealed: &TileCounts, groups: usize, sanma: bool) -> (r: u8)
    requires
        groups <= 4,
    ensures
        is_distance(concealed@, groups as int, sanma, r as int),
        r <= 3 * groups + 2,
{
    let ghost c = concealed@;
    let mut table = last_table(groups, Ghost(c), Ghost(sanma));
    let mut k: usize = 34;
    while k > 0
        invariant
            k <= 34,
            c == concealed@,
            groups <= 4,
            table_ok(table@, c, sanma, k as int, groups as int),
        decreases k,
    {
        k = k - 1;
        table = table_step(&table, concealed.0[k], k, sanma, groups, Ghost(c));
    }
    let i: usize = ((groups * 2 + 1) * 5) * 5;
    assert(i == slot(groups as int, 1, 0, 0));
    let r: u8 = table[i];
    proof {
        let g = groups as int;
        assert(entry_ok(r, c, sanma, 0, g, 1, 0, 0));
        let t0 = lemma_some_target(c, g, sanma);
        lemma_target_is_way(t0, c, g, sanma, 0);
        assert(way(c, sanma, 0, g, 1, 0, 0, t0.missing(c)));
        let blank = Target {
            triplets: Seq::new(34, |i: int| 0int),
            runs: Seq::new(34, |i: int| 0int),
            pair: -1,
        };
        let t = lemma_way_is_target(c, sanma, 0, g, 1, 0, 0, r as int, blank);
        assert(t.is_complete(g, sanma));
        assert forall|u: Target| #[trigger] u.is_complete(g, sanma) implies u.missing(c) >= r by {
            lemma_target_is_way(u, c, g, sanma, 0);
            assert(way(c, sanma, 0, g, 1, 0, 0, u.missing(c)));
        }
    }
    r
}

fn standard(concealed: &TileCounts, melds: u8, sanma: bool) -> (r: i8)
    ensures
        r == standard_value(concealed@, melds, sanma),
{
    let groups: usize = if melds > 4 { 0 } else { 4 - melds as usize };
    let d: u8 = least_missing(concealed, groups, sanma);
    proof {
        lemma_distance_unique(concealed@, groups as int, sanma, d as int);
    }
    d as i8 - 1
}

/// Standard-form shanten (four groups and a pair).
pub fn shanten_standard(concealed: &TileCounts, melds: u8) -> (r: i8)
    ensures
        r == standard_value(concealed@, melds, false),
{
    standard(concealed, melds, false)
}

/// Three-player standard-form shanten; 1m and 9m form triplets and pairs only.
pub fn shanten_standard_3p(concealed: &TileCounts, melds: u8) -> (r: i8)
    ensures
        r == standard_value(concealed@, melds, true),
{
    standard(concealed, melds, true)
}

/// Chiitoitsu shanten.
pub fn shanten_chiitoitsu(c: &TileCounts) -> (r: i8)
    ensures
        r == chiitoitsu_value(c@),
{
    let mut pairs: i8 = 0;
    let mut kinds: i8 = 0;
    let mut i: usize = 0;
    while i < 34
        invariant
            i <= 34,
            pairs == kinds_with(c@.subrange(0, i as int), 2),
            kinds == kinds_with(c@.subrange(0, i as int), 1),
            pairs <= i,
            kinds <= i,
        decreases 34 - i,
    {
        assert(c@.subrange(0, i + 1).drop_last() =~= c@.subrange(0, i as int));
        let n: u8 = c.0[i];
        if n >= 1 {
            kinds = kinds + 1;
        }
        if n >= 2 {
            pairs = pairs + 1;
        }
        i = i + 1;
    }
    assert(c@.subrange(0, 34) =~= c@);
    let lack: i8 = if kinds < 7 { 7 - kinds } else { 0 };
    6 - pairs + lack
}

pub fn is_yaochuu_index(k: usize) -> (r: bool)
    ensures
        r == is_yaochuu_kind(k as int),
{
    k < 34 && (k >= 27 || k % 9 == 0 || k % 9 == 8)
}

/// Kokushi shanten.
pub fn shanten_kokushi(c: &TileCounts) -> (r: i8)
    ensures
        r == kokushi_value(c@),
{
    let mut kinds: i8 = 0;
    let mut has_pair = false;
    let mut i: usize = 0;
    while i < 34
        invariant
            i <= 34,
            kinds == yaochuu_kinds(c@.subrange(0, i as int)),
            has_pair == exists|k: int| #[trigger] is_yaochuu_kind(k) && k < i && c@[k] >= 2,
            kinds <= i,
        decreases 34 - i,
    {
        assert(c@.subrange(0, i + 1).drop_last() =~= c@.subrange(0, i as int));
        if is_yaochuu_index(i) {
            let n: u8 = c.0[i];
            if n >= 1 {
                kinds = kinds + 1;
            }
            if n >= 2 {
                has_pair = true;
            }
        }
        i = i + 1;
    }
    assert(c@.subrange(0, 34) =~= c@);
    13 - kinds - if has_pair { 1 } else { 0 }
}

pub fn shanten_for(concealed: &TileCounts, melds: u8, sanma: bool) -> (r: i8)
    ensures
        r == shanten_value(concealed@, melds, sanma),
{
    let s: i8 = standard(concealed, melds, sanma);
    if melds == 0 {
        let chi: i8 = shanten_chiitoitsu(concealed);
        let kok: i8 = shanten_kokushi(concealed);
        let a: i8 = if chi < s { chi } else { s };
        if kok < a { kok } else { a }
    } else {
        s
    }
}

/// Shanten of a hand; `concealed` excludes melds.
pub fn shanten(concealed: &TileCounts, melds: u8) -> (r: i8)
    ensures
        r == shanten_value(concealed@, melds, false),
{
    shanten_for(concealed, melds, false)
}

/// Three-player shanten: 2m..8m do not exist and 1m and 9m cannot form sequences.
pub fn shanten_3p(concealed: &TileCounts, melds: u8) -> (r: i8)
    ensures
        r == shanten_value(concealed@, melds, true),
{
    shanten_for(concealed, melds, true)
}

} // verus!
