//! Readings of complete hands.
//!
//! Every way to split a concealed hand into a pair and groups. One hand can have several
//! readings (`111222333m` is three triplets or three sequences). Called melds are fixed
//! groups and are not decomposed here.

use vstd::prelude::*;
use crate::mahjong::hand::sum_counts;
use crate::mahjong::shanten::{has_yaochuu_pair, is_yaochuu_index, is_yaochuu_kind, kinds_with};
use crate::mahjong::tile::Tile;

verus! {

#[derive(Debug, Clone, Copy, PartialEq, Eq, Structural)]
pub enum MeldShape {
    /// Sequence, identified by its lowest kind (1m means 1m2m3m).
    Shuntsu(u8),
    /// Triplet of a kind.
    Kotsu(u8),
}

impl MeldShape {
    pub open spec fn spec_tile_kind(self) -> u8 {
        match self {
            MeldShape::Shuntsu(k) => k,
            MeldShape::Kotsu(k) => k,
        }
    }

    /// Representative kind, the lowest one of a sequence.
    #[verifier::when_used_as_spec(spec_tile_kind)]
    pub fn tile_kind(self) -> (r: u8)
        ensures
            r == self.tile_kind(),
    {
        match self {
            MeldShape::Shuntsu(k) | MeldShape::Kotsu(k) => k,
        }
    }

    pub open spec fn spec_is_shuntsu(self) -> bool {
        self is Shuntsu
    }

    #[verifier::when_used_as_spec(spec_is_shuntsu)]
    pub fn is_shuntsu(self) -> (r: bool)
        ensures
            r == self.is_shuntsu(),
    {
        matches!(self, MeldShape::Shuntsu(_))
    }

    pub open spec fn spec_is_kotsu(self) -> bool {
        self is Kotsu
    }

    #[verifier::when_used_as_spec(spec_is_kotsu)]
    pub fn is_kotsu(self) -> (r: bool)
        ensures
            r == self.is_kotsu(),
    {
        matches!(self, MeldShape::Kotsu(_))
    }

    /// A triplet of a kind, or a sequence within a suit.
    pub open spec fn is_group(self) -> bool {
        match self {
            MeldShape::Shuntsu(k) => k < 27 && k % 9 <= 6,
            MeldShape::Kotsu(k) => k < 34,
        }
    }

    /// How many tiles of a kind the group holds.
    pub open spec fn uses(self, k: int) -> int {
        match self {
            MeldShape::Shuntsu(s) => if s <= k <= s + 2 { 1 } else { 0 },
            MeldShape::Kotsu(s) => if s == k { 3 } else { 0 },
        }
    }

    /// Rank of the group in the order of readings: sequences before triplets, then by kind.
    pub open spec fn code(self) -> int {
        match self {
            MeldShape::Shuntsu(k) => k as int,
            MeldShape::Kotsu(k) => 256 + k,
        }
    }

    /// The order of groups within a reading: by kind, a sequence before a triplet of its first kind.
    pub open spec fn comes_before(self, other: MeldShape) -> bool {
        self.tile_kind() < other.tile_kind() || (self.tile_kind() == other.tile_kind() && self.code() <= other.code())
    }
}

/// One standard-form reading of the concealed tiles.
#[derive(Debug, PartialEq, Eq)]
pub struct StandardParse {
    pub pair: u8,
    /// Groups from the concealed tiles, called melds excluded.
    pub melds: Vec<MeldShape>,
}

/// What a reading says.
pub struct Reading {
    pub pair: u8,
    pub melds: Seq<MeldShape>,
}

impl View for StandardParse {
    type V = Reading;

    open spec fn view(&self) -> Reading {
        Reading { pair: self.pair, melds: self.melds@ }
    }
}

impl Clone for StandardParse {
    fn clone(&self) -> (r: Self)
        ensures
            r@ == self@,
    {
        StandardParse { pair: self.pair, melds: clone_shapes(&self.melds) }
    }
}

fn clone_shapes(v: &Vec<MeldShape>) -> (r: Vec<MeldShape>)
    ensures
        r@ == v@,
{
    let mut r: Vec<MeldShape> = Vec::new();
    let mut i: usize = 0;
    while i < v.len()
        invariant
            i <= v.len(),
            r@ == v@.subrange(0, i as int),
        decreases v.len() - i,
    {
        r.push(v[i]);
        assert(r@ =~= v@.subrange(0, i + 1));
        i = i + 1;
    }
    assert(r@ =~= v@);
    r
}

#[derive(Debug, PartialEq, Eq)]
pub enum Decomposition {
    /// All concealed readings of a standard hand.
    Standard(Vec<StandardParse>),
    Chiitoitsu,
    Kokushi,
}

/// Tiles of a kind in a list of groups.
pub open spec fn used(melds: Seq<MeldShape>, k: int) -> int
    decreases melds.len(),
{
    if melds.len() == 0 { 0 } else { melds[0].uses(k) + used(melds.drop_first(), k) }
}

/// The groups use up the counts exactly, and are listed in their order.
pub open spec fn fills(c: Seq<u8>, need: nat, melds: Seq<MeldShape>) -> bool {
    &&& melds.len() == need
    &&& forall|i: int| 0 <= i < melds.len() ==> #[trigger] melds[i].is_group()
    &&& forall|i: int, j: int| 0 <= i < j < melds.len() ==> (#[trigger] melds[i]).comes_before(#[trigger] melds[j])
    &&& forall|k: int| 0 <= k < 34 ==> #[trigger] c[k] == used(melds, k)
}

/// The counts without a pair.
pub open spec fn without_pair(c: Seq<u8>, pair: int) -> Seq<u8> {
    c.update(pair, (c[pair] - 2) as u8)
}

/// A pair and groups that use up the counts exactly.
pub open spec fn is_reading(c: Seq<u8>, need: nat, r: Reading) -> bool {
    &&& r.pair < 34
    &&& c[r.pair as int] >= 2
    &&& fills(without_pair(c, r.pair as int), need, r.melds)
}

/// Place of a reading in the order of readings: by its groups from the first on, then by the pair.
pub open spec fn reading_key(r: Reading) -> int {
    melds_key(r.melds) * 512 + r.pair
}

/// All readings of the counts with a number of groups, each once, in order.
pub open spec fn is_readings_list(s: Seq<Reading>, c: Seq<u8>, need: nat) -> bool {
    &&& forall|i: int| 0 <= i < s.len() ==> is_reading(c, need, #[trigger] s[i])
    &&& forall|r: Reading| #[trigger] is_reading(c, need, r) ==> s.contains(r)
    &&& in_order(s)
}

pub open spec fn in_order(s: Seq<Reading>) -> bool {
    forall|i: int, j: int| 0 <= i < j < s.len() ==> reading_key(#[trigger] s[i]) < reading_key(#[trigger] s[j])
}

/// The readings of the counts with a number of groups.
pub open spec fn readings(c: Seq<u8>, need: nat) -> Seq<Reading> {
    choose|s: Seq<Reading>| is_readings_list(s, c, need)
}

/// The readings of the concealed counts beside a number of called melds.
pub open spec fn hand_readings(c: Seq<u8>, open_melds: u8) -> Seq<Reading> {
    if open_melds > 4 { Seq::empty() } else { readings(c, (4 - open_melds) as nat) }
}

pub open spec fn reading_views(v: Seq<StandardParse>) -> Seq<Reading> {
    v.map_values(|p: StandardParse| p@)
}

pub open spec fn melds_key(melds: Seq<MeldShape>) -> int
    decreases melds.len(),
{
    if melds.len() == 0 { 0 } else { melds_key(melds.drop_last()) * 512 + melds.last().code() }
}

proof fn lemma_used_covers(melds: Seq<MeldShape>, j: int, k: int)
    requires
        0 <= j < melds.len(),
    ensures
        used(melds, k) >= melds[j].uses(k),
        used(melds, k) >= 0,
    decreases melds.len(),
{
    lemma_used_nonneg(melds.drop_first(), k);
    if j > 0 {
        lemma_used_covers(melds.drop_first(), j - 1, k);
    }
}

proof fn lemma_used_nonneg(melds: Seq<MeldShape>, k: int)
    ensures
        used(melds, k) >= 0,
    decreases melds.len(),
{
    if melds.len() > 0 {
        lemma_used_nonneg(melds.drop_first(), k);
    }
}

proof fn lemma_used_by_some(melds: Seq<MeldShape>, k: int) -> (j: int)
    requires
        used(melds, k) > 0,
    ensures
        0 <= j < melds.len(),
        melds[j].uses(k) > 0,
    decreases melds.len(),
{
    if melds[0].uses(k) > 0 {
        0
    } else {
        lemma_used_by_some(melds.drop_first(), k) + 1
    }
}

/// The first group of a filling begins at the lowest kind held.
proof fn lemma_first_group(c: Seq<u8>, need: nat, melds: Seq<MeldShape>, k: int)
    requires
        c.len() == 34,
        fills(c, need, melds),
        need > 0,
        0 <= k < 34,
        c[k] > 0,
        forall|j: int| 0 <= j < k ==> c[j] == 0,
    ensures
        melds[0].tile_kind() == k,
{
    let first = melds[0].tile_kind() as int;
    assert(melds[0].is_group());
    assert(melds[0].uses(first) > 0);
    lemma_used_covers(melds, 0, first);
    assert(c[first] == used(melds, first));
    assert(c[k] == used(melds, k));
    let j = lemma_used_by_some(melds, k);
    assert(melds[j].is_group());
    assert(melds[j].tile_kind() <= k);
    if j > 0 {
        assert(melds[0].comes_before(melds[j]));
    }
}

/// Taking the first group away leaves a filling of the rest.
proof fn lemma_fills_rest(c: Seq<u8>, c2: Seq<u8>, need: nat, melds: Seq<MeldShape>)
    requires
        c.len() == 34,
        c2.len() == 34,
        need > 0,
        fills(c, need, melds),
        forall|k: int| 0 <= k < 34 ==> #[trigger] c2[k] == c[k] - melds[0].uses(k),
    ensures
        fills(c2, (need - 1) as nat, melds.drop_first()),
{
    let rest = melds.drop_first();
    assert forall|i: int| 0 <= i < rest.len() implies #[trigger] rest[i].is_group() by {
        assert(melds[i + 1].is_group());
    }
    assert forall|i: int, j: int| 0 <= i < j < rest.len() implies (#[trigger] rest[i]).comes_before(#[trigger] rest[j]) by {
        assert(melds[i + 1].comes_before(melds[j + 1]));
    }
    assert forall|k: int| 0 <= k < 34 implies #[trigger] c2[k] == used(rest, k) by {
        assert(c[k] == used(melds, k));
    }
}

/// Groups that can stand behind others.
spec fn follows(acc: Seq<MeldShape>, rest: Seq<MeldShape>) -> bool {
    acc.len() > 0 && rest.len() > 0 ==> acc.last().comes_before(rest[0])
}

/// A group before a filling of the rest that can stand behind it gives a filling.
proof fn lemma_fills_whole(c: Seq<u8>, c2: Seq<u8>, need: nat, first: MeldShape, rest: Seq<MeldShape>)
    requires
        c.len() == 34,
        c2.len() == 34,
        need > 0,
        first.is_group(),
        fills(c2, (need - 1) as nat, rest),
        forall|k: int| 0 <= k < 34 ==> #[trigger] c2[k] == c[k] - first.uses(k),
        follows(seq![first], rest),
    ensures
        fills(c, need, seq![first] + rest),
{
    let melds = seq![first] + rest;
    assert(melds.drop_first() =~= rest);
    assert forall|i: int| 0 <= i < melds.len() implies #[trigger] melds[i].is_group() by {
        if i > 0 {
            assert(rest[i - 1].is_group());
        }
    }
    assert forall|k: int| 0 <= k < 34 implies #[trigger] c[k] == used(melds, k) by {
        assert(c2[k] == used(rest, k));
    }
    assert forall|i: int, j: int| 0 <= i < j < melds.len() implies (#[trigger] melds[i]).comes_before(#[trigger] melds[j]) by {
        if i == 0 {
            assert(first.comes_before(rest[0]));
            if j > 1 {
                assert(rest[0].comes_before(rest[j - 1]));
            }
        } else {
            assert(rest[i - 1].comes_before(rest[j - 1]));
        }
    }
}

/// A list of groups that begins as given and goes on with a filling.
spec fn extends(c: Seq<u8>, need: nat, acc: Seq<MeldShape>, v: Seq<MeldShape>) -> bool {
    exists|rest: Seq<MeldShape>| #[trigger] fills(c, need, rest) && follows(acc, rest) && v == acc + rest
}

/// A list of groups occurs from position `lo` on.
spec fn listed(out: Seq<Vec<MeldShape>>, lo: int, v: Seq<MeldShape>) -> bool {
    exists|i: int| lo <= i < out.len() && #[trigger] out[i]@ == v
}

/// Whether a group can stand behind others.
fn may_follow(acc: &Vec<MeldShape>, m: MeldShape) -> (r: bool)
    ensures
        r == follows(acc@, seq![m]),
{
    if acc.len() == 0 {
        return true;
    }
    let last = acc[acc.len() - 1];
    last.tile_kind() < m.tile_kind() || (last.tile_kind() == m.tile_kind() && (last.is_shuntsu() || m.is_kotsu()))
}

/// Walks the lowest kinds, collecting every way to form `need` groups that uses all tiles. The
/// groups are taken in their order, so that no set of groups is found twice.
fn collect_melds(counts: &[u8; 34], need: usize, acc: &Vec<MeldShape>, out: &mut Vec<Vec<MeldShape>>)
    ensures
        final(out)@.len() >= old(out)@.len(),
        forall|i: int| 0 <= i < old(out)@.len() ==> #[trigger] final(out)@[i] == old(out)@[i],
        forall|i: int|
            old(out)@.len() <= i < final(out)@.len() ==> extends(
                counts@,
                need as nat,
                acc@,
                #[trigger] final(out)@[i]@,
            ),
        forall|rest: Seq<MeldShape>| #[trigger]
            fills(counts@, need as nat, rest) && follows(acc@, rest) ==> listed(
                final(out)@,
                old(out)@.len() as int,
                acc@ + rest,
            ),
    decreases need,
{
    let mut k: usize = 0;
    while k < 34 && counts[k] == 0
        invariant
            k <= 34,
            forall|j: int| 0 <= j < k ==> counts@[j] == 0,
        decreases 34 - k,
    {
        k = k + 1;
    }
    if need == 0 {
        if k == 34 {
            let whole = clone_shapes(acc);
            proof {
                let none = Seq::<MeldShape>::empty();
                assert(fills(counts@, 0, none));
                assert(acc@ + none =~= acc@);
            }
            out.push(whole);
            assert forall|rest: Seq<MeldShape>| #[trigger] fills(counts@, need as nat, rest) && follows(acc@, rest) implies listed(
                out@, old(out)@.len() as int, acc@ + rest) by {
                assert(rest =~= Seq::empty());
                assert(acc@ + rest =~= acc@);
                assert(out@[old(out)@.len() as int]@ == acc@ + rest);
            }
        } else {
            assert forall|rest: Seq<MeldShape>| !#[trigger] fills(counts@, need as nat, rest) by {
                if fills(counts@, need as nat, rest) {
                    assert(counts@[k as int] == used(rest, k as int));
                }
            }
        }
        return;
    }
    if k == 34 {
        assert forall|rest: Seq<MeldShape>| !#[trigger] fills(counts@, need as nat, rest) by {
            if fills(counts@, need as nat, rest) {
                let first = rest[0].tile_kind() as int;
                assert(rest[0].is_group());
                assert(rest[0].uses(first) > 0);
                lemma_used_covers(rest, 0, first);
                assert(counts@[first] == used(rest, first));
            }
        }
        return;
    }
    let ghost old_len = out@.len() as int;
    let ghost kotsu = MeldShape::Kotsu(k as u8);
    let ghost shuntsu = MeldShape::Shuntsu(k as u8);
    if counts[k] >= 3 && may_follow(acc, MeldShape::Kotsu(k as u8)) {
        let mut c = *counts;
        c[k] = c[k] - 3;
        proof {
            assert forall|j: int| 0 <= j < 34 implies #[trigger] c@[j] == counts@[j] - kotsu.uses(j) by {}
        }
        let mut acc1 = clone_shapes(acc);
        acc1.push(MeldShape::Kotsu(k as u8));
        collect_melds(&c, need - 1, &acc1, out);
        proof {
            assert forall|i: int| old_len <= i < out@.len() implies extends(
                counts@, need as nat, acc@, #[trigger] out@[i]@) by {
                let tail = choose|tail: Seq<MeldShape>| #[trigger]
                    fills(c@, (need - 1) as nat, tail) && follows(acc1@, tail) && out@[i]@ == acc1@ + tail;
                lemma_fills_whole(counts@, c@, need as nat, kotsu, tail);
                assert(acc1@ + tail =~= acc@ + (seq![kotsu] + tail));
            }
            assert forall|rest: Seq<MeldShape>| #[trigger] fills(counts@, need as nat, rest) && follows(acc@, rest) && rest[0] == kotsu implies listed(
                out@, old_len, acc@ + rest) by {
                lemma_fills_rest(counts@, c@, need as nat, rest);
                assert(fills(c@, (need - 1) as nat, rest.drop_first()));
                assert(follows(acc1@, rest.drop_first())) by {
                    if rest.len() > 1 {
                        assert(rest[0].comes_before(rest[1]));
                    }
                }
                let i = choose|i: int| old_len <= i < out@.len() && #[trigger] out@[i]@ == acc1@ + rest.drop_first();
                assert(acc1@ + rest.drop_first() =~= acc@ + rest);
                assert(out@[i]@ == acc@ + rest);
            }
        }
    }
    let ghost mid = out@;
    if k < 27 && k % 9 <= 6 && counts[k + 1] > 0 && counts[k + 2] > 0 && may_follow(acc, MeldShape::Shuntsu(k as u8)) {
        let mut c = *counts;
        c[k] = c[k] - 1;
        c[k + 1] = c[k + 1] - 1;
        c[k + 2] = c[k + 2] - 1;
        proof {
            assert forall|j: int| 0 <= j < 34 implies #[trigger] c@[j] == counts@[j] - shuntsu.uses(j) by {}
        }
        let mut acc1 = clone_shapes(acc);
        acc1.push(MeldShape::Shuntsu(k as u8));
        collect_melds(&c, need - 1, &acc1, out);
        proof {
            assert forall|i: int| old_len <= i < out@.len() implies extends(
                counts@, need as nat, acc@, #[trigger] out@[i]@) by {
                if i < mid.len() {
                    assert(out@[i] == mid[i]);
                    assert(extends(counts@, need as nat, acc@, mid[i]@));
                } else {
                    let tail = choose|tail: Seq<MeldShape>| #[trigger]
                        fills(c@, (need - 1) as nat, tail) && follows(acc1@, tail) && out@[i]@ == acc1@ + tail;
                    lemma_fills_whole(counts@, c@, need as nat, shuntsu, tail);
                    assert(acc1@ + tail =~= acc@ + (seq![shuntsu] + tail));
                }
            }
            assert forall|rest: Seq<MeldShape>| #[trigger] fills(counts@, need as nat, rest) && follows(acc@, rest) && rest[0] == shuntsu implies listed(
                out@, old_len, acc@ + rest) by {
                lemma_fills_rest(counts@, c@, need as nat, rest);
                assert(fills(c@, (need - 1) as nat, rest.drop_first()));
                assert(follows(acc1@, rest.drop_first())) by {
                    if rest.len() > 1 {
                        assert(rest[0].comes_before(rest[1]));
                    }
                }
                let i = choose|i: int| mid.len() <= i < out@.len() && #[trigger] out@[i]@ == acc1@ + rest.drop_first();
                assert(acc1@ + rest.drop_first() =~= acc@ + rest);
                assert(out@[i]@ == acc@ + rest);
            }
        }
    }
    proof {
        assert forall|rest: Seq<MeldShape>| #[trigger] fills(counts@, need as nat, rest) && follows(acc@, rest) implies listed(
            out@, old_len, acc@ + rest) by {
            lemma_first_group(counts@, need as nat, rest, k as int);
            assert(rest[0].is_group());
            lemma_used_covers(rest, 0, k as int);
            lemma_used_covers(rest, 0, k + 1);
            lemma_used_covers(rest, 0, k + 2);
            assert(counts@[k as int] == used(rest, k as int));
            if rest[0] is Kotsu {
                assert(rest[0] == kotsu);
                let i = choose|i: int| old_len <= i < mid.len() && #[trigger] mid[i]@ == acc@ + rest;
                assert(out@[i] == mid[i]);
                assert(out@[i]@ == acc@ + rest);
            } else {
                assert(rest[0] == shuntsu);
                assert(counts@[k + 1] == used(rest, k + 1));
                assert(counts@[k + 2] == used(rest, k + 2));
            }
        }
    }
}

proof fn lemma_melds_key_injective(a: Seq<MeldShape>, b: Seq<MeldShape>)
    requires
        a.len() == b.len(),
        melds_key(a) == melds_key(b),
    ensures
        a == b,
    decreases a.len(),
{
    if a.len() > 0 {
        assert(0 <= a.last().code() < 512);
        assert(0 <= b.last().code() < 512);
        lemma_melds_key_injective(a.drop_last(), b.drop_last());
        assert(a.last() == b.last());
        assert(a =~= a.drop_last().push(a.last()));
        assert(b =~= b.drop_last().push(b.last()));
    } else {
        assert(a =~= b);
    }
}

proof fn lemma_ordered_lists_agree(s: Seq<Reading>, t: Seq<Reading>)
    requires
        in_order(s),
        in_order(t),
        forall|r: Reading| s.contains(r) <==> t.contains(r),
    ensures
        s == t,
    decreases s.len(),
{
    if s.len() == 0 {
        if t.len() > 0 {
            assert(t.contains(t[0]));
        }
        assert(s =~= t);
    } else {
        assert(s.contains(s.last()));
        assert(t.contains(s.last()));
        let i = choose|i: int| 0 <= i < t.len() && t[i] == s.last();
        assert(t.contains(t.last()));
        let j = choose|j: int| 0 <= j < s.len() && s[j] == t.last();
        assert(s.last() == t.last());
        let s1 = s.drop_last();
        let t1 = t.drop_last();
        assert forall|r: Reading| s1.contains(r) <==> t1.contains(r) by {
            if s1.contains(r) {
                let a = choose|a: int| 0 <= a < s1.len() && s1[a] == r;
                assert(s[a] == r);
                assert(t.contains(r));
                let b = choose|b: int| 0 <= b < t.len() && t[b] == r;
                assert(b != t.len() - 1);
                assert(t1[b] == r);
            }
            if t1.contains(r) {
                let a = choose|a: int| 0 <= a < t1.len() && t1[a] == r;
                assert(t[a] == r);
                assert(s.contains(r));
                let b = choose|b: int| 0 <= b < s.len() && s[b] == r;
                assert(b != s.len() - 1);
                assert(s1[b] == r);
            }
        }
        lemma_ordered_lists_agree(s1, t1);
        assert(s =~= s1.push(s.last()));
        assert(t =~= t1.push(t.last()));
    }
}

/// There is only one list of all readings.
pub proof fn lemma_readings_unique(s: Seq<Reading>, c: Seq<u8>, need: nat)
    requires
        is_readings_list(s, c, need),
    ensures
        readings(c, need) == s,
{
    let t = readings(c, need);
    assert(is_readings_list(t, c, need));
    assert forall|r: Reading| s.contains(r) <==> t.contains(r) by {
        if s.contains(r) {
            let i = choose|i: int| 0 <= i < s.len() && s[i] == r;
            assert(is_reading(c, need, s[i]));
        }
        if t.contains(r) {
            let i = choose|i: int| 0 <= i < t.len() && t[i] == r;
            assert(is_reading(c, need, t[i]));
        }
    }
    lemma_ordered_lists_agree(s, t);
}

/// The readings whose key is below `n`, in order.
spec fn readings_below(c: Seq<u8>, need: nat, n: nat) -> Seq<Reading>
    decreases n,
{
    if n == 0 {
        Seq::empty()
    } else if exists|r: Reading| #[trigger] is_reading(c, need, r) && reading_key(r) == n - 1 {
        readings_below(c, need, (n - 1) as nat).push(
            choose|r: Reading| #[trigger] is_reading(c, need, r) && reading_key(r) == n - 1,
        )
    } else {
        readings_below(c, need, (n - 1) as nat)
    }
}

proof fn lemma_readings_below(c: Seq<u8>, need: nat, n: nat)
    ensures
        forall|i: int|
            0 <= i < readings_below(c, need, n).len() ==> is_reading(c, need, #[trigger] readings_below(c, need, n)[i])
                && reading_key(readings_below(c, need, n)[i]) < n,
        forall|r: Reading| #[trigger]
            is_reading(c, need, r) && reading_key(r) < n ==> readings_below(c, need, n).contains(r),
        in_order(readings_below(c, need, n)),
    decreases n,
{
    if n > 0 {
        lemma_readings_below(c, need, (n - 1) as nat);
        let s = readings_below(c, need, (n - 1) as nat);
        let t = readings_below(c, need, n);
        assert forall|r: Reading| #[trigger] is_reading(c, need, r) && reading_key(r) < n implies t.contains(r) by {
            lemma_key_nonneg(r);
            if reading_key(r) == n - 1 {
                lemma_melds_key_injective(t.last().melds, r.melds);
                assert(t.last() == r);
            } else {
                assert(s.contains(r));
                let i = choose|i: int| 0 <= i < s.len() && s[i] == r;
                assert(t[i] == r);
            }
        }
    } else {
        assert forall|r: Reading| #[trigger] is_reading(c, need, r) implies reading_key(r) >= 0 by {
            lemma_key_nonneg(r);
        }
    }
}

spec fn key_bound(n: nat) -> nat
    decreases n,
{
    if n == 0 { 1 } else { key_bound((n - 1) as nat) * 512 }
}

proof fn lemma_melds_key_bound(m: Seq<MeldShape>)
    ensures
        0 <= melds_key(m) < key_bound(m.len()),
    decreases m.len(),
{
    if m.len() > 0 {
        lemma_melds_key_bound(m.drop_last());
    }
}

proof fn lemma_key_nonneg(r: Reading)
    ensures
        reading_key(r) >= 0,
{
    lemma_melds_key_bound(r.melds);
}

/// There is a list of all readings, and `readings` is that list.
pub proof fn lemma_readings_exist(c: Seq<u8>, need: nat)
    ensures
        is_readings_list(readings(c, need), c, need),
{
    let n = (key_bound(need) * 512 + 512) as nat;
    let s = readings_below(c, need, n);
    lemma_readings_below(c, need, n);
    assert forall|r: Reading| #[trigger] is_reading(c, need, r) implies s.contains(r) by {
        lemma_melds_key_bound(r.melds);
    }
    assert(is_readings_list(s, c, need));
}

/// No set of groups is read twice: readings of one pair with the same groups are the same.
pub proof fn readings_differ_in_their_groups(c: Seq<u8>, need: nat, a: Reading, b: Reading)
    requires
        is_reading(c, need, a),
        is_reading(c, need, b),
        a.pair == b.pair,
        a.melds.to_multiset() == b.melds.to_multiset(),
    ensures
        a == b,
{
    let leq = |m: MeldShape, n: MeldShape| m.comes_before(n);
    assert(vstd::relations::total_ordering(leq));
    vstd::seq_lib::lemma_sorted_unique(a.melds, b.melds, leq);
}

fn key_of(pair: u8, melds: &Vec<MeldShape>) -> (r: u64)
    requires
        melds.len() <= 4,
    ensures
        r == reading_key(Reading { pair, melds: melds@ }),
{
    let mut key: u64 = 0;
    let mut i: usize = 0;
    while i < melds.len()
        invariant
            i <= melds.len() <= 4,
            key == melds_key(melds@.subrange(0, i as int)),
            i == 0 ==> key < 1,
            i == 1 ==> key < 512,
            i == 2 ==> key < 262144,
            i == 3 ==> key < 134217728,
            i == 4 ==> key < 68719476736,
        decreases melds.len() - i,
    {
        assert(melds@.subrange(0, i + 1).drop_last() =~= melds@.subrange(0, i as int));
        let code: u64 = match melds[i] {
            MeldShape::Shuntsu(k) => k as u64,
            MeldShape::Kotsu(k) => 256 + k as u64,
        };
        key = key * 512 + code;
        i = i + 1;
    }
    assert(melds@.subrange(0, i as int) =~= melds@);
    key * 512 + pair as u64
}

/// Puts a reading in its place, unless it is there already.
fn insert_reading(v: &mut Vec<StandardParse>, p: StandardParse)
    requires
        p.melds.len() <= 4,
        in_order(reading_views(old(v)@)),
        forall|i: int| 0 <= i < old(v)@.len() ==> (#[trigger] old(v)@[i]).melds.len() == p.melds.len(),
    ensures
        in_order(reading_views(final(v)@)),
        forall|i: int| 0 <= i < final(v)@.len() ==> (#[trigger] final(v)@[i]).melds.len() == p.melds.len(),
        forall|r: Reading|
            reading_views(final(v)@).contains(r) <==> reading_views(old(v)@).contains(r) || r == p@,
{
    let key: u64 = key_of(p.pair, &p.melds);
    let mut i: usize = 0;
    let ghost s = reading_views(v@);
    while i < v.len() && key_of(v[i].pair, &v[i].melds) < key
        invariant
            i <= v.len(),
            p.melds.len() <= 4,
            s == reading_views(v@),
            *v == *old(v),
            forall|j: int| 0 <= j < v@.len() ==> (#[trigger] v@[j]).melds.len() == p.melds.len(),
            key == reading_key(p@),
            forall|j: int| 0 <= j < i ==> reading_key(#[trigger] s[j]) < key,
        decreases v.len() - i,
    {
        assert(reading_key(s[i as int]) < key);
        i = i + 1;
    }
    if i < v.len() && key_of(v[i].pair, &v[i].melds) == key {
        proof {
            assert(s[i as int] == v@[i as int]@);
            lemma_melds_key_injective(v@[i as int].melds@, p.melds@);
            assert(s[i as int] == p@);
        }
        return;
    }
    let ghost pv = p@;
    v.insert(i, p);
    proof {
        let t = reading_views(v@);
        assert(t =~= s.insert(i as int, pv));
        if i < s.len() {
            assert(reading_key(s[i as int]) > key);
        }
        assert forall|a: int, b: int| 0 <= a < b < t.len() implies reading_key(#[trigger] t[a]) < reading_key(#[trigger] t[b]) by {
            if a < i && b < i {
                assert(reading_key(s[a]) < reading_key(s[b]));
            } else if a < i && b > i {
                assert(reading_key(s[a]) < reading_key(s[b - 1]));
            } else if a > i {
                assert(reading_key(s[a - 1]) < reading_key(s[b - 1]));
            } else if a == i {
                if b - 1 > i {
                    assert(reading_key(s[i as int]) < reading_key(s[b - 1]));
                }
            }
        }
        assert forall|r: Reading| t.contains(r) <==> s.contains(r) || r == pv by {
            if t.contains(r) {
                let a = choose|a: int| 0 <= a < t.len() && t[a] == r;
                if a < i {
                    assert(s[a] == r);
                } else if a > i {
                    assert(s[a - 1] == r);
                }
            }
            if s.contains(r) {
                let a = choose|a: int| 0 <= a < s.len() && s[a] == r;
                if a < i {
                    assert(t[a] == r);
                } else {
                    assert(t[a + 1] == r);
                }
            }
            if r == pv {
                assert(t[i as int] == r);
            }
        }
    }
}

/// Every concealed reading of a standard hand beside its called melds.
pub fn standard_parses(concealed: &[u8; 34], open_melds: u8) -> (r: Vec<StandardParse>)
    ensures
        reading_views(r@) == hand_readings(concealed@, open_melds),
        open_melds <= 4 ==> is_readings_list(reading_views(r@), concealed@, (4 - open_melds) as nat),
{
    let mut parses: Vec<StandardParse> = Vec::new();
    if open_melds > 4 {
        assert(reading_views(parses@) =~= Seq::empty());
        return parses;
    }
    let need: usize = 4 - open_melds as usize;
    let ghost c = concealed@;
    let mut pair: u8 = 0;
    while pair < 34
        invariant
            pair <= 34,
            need <= 4,
            c == concealed@,
            in_order(reading_views(parses@)),
            forall|i: int| 0 <= i < parses@.len() ==> (#[trigger] parses@[i]).melds.len() == need,
            forall|r: Reading| #[trigger]
                reading_views(parses@).contains(r) <==> is_reading(c, need as nat, r) && r.pair < pair,
        decreases 34 - pair,
    {
        if concealed[pair as usize] >= 2 {
            let mut counts = *concealed;
            counts[pair as usize] = counts[pair as usize] - 2;
            assert(counts@ =~= without_pair(c, pair as int));
            let mut found: Vec<Vec<MeldShape>> = Vec::new();
            let acc: Vec<MeldShape> = Vec::new();
            collect_melds(&counts, need, &acc, &mut found);
            let ghost before = reading_views(parses@);
            let mut i: usize = 0;
            proof {
                assert forall|j: int| 0 <= j < found@.len() implies fills(counts@, need as nat, #[trigger] found@[j]@) by {
                    let rest = choose|rest: Seq<MeldShape>| #[trigger]
                        fills(counts@, need as nat, rest) && found@[j]@ == acc@ + rest;
                    assert(acc@ + rest =~= rest);
                }
            }
            while i < found.len()
                invariant
                    i <= found.len(),
                    need <= 4,
                    pair < 34,
                    in_order(reading_views(parses@)),
                    forall|j: int| 0 <= j < found@.len() ==> fills(counts@, need as nat, #[trigger] found@[j]@),
                    forall|j: int| 0 <= j < parses@.len() ==> (#[trigger] parses@[j]).melds.len() == need,
                    forall|r: Reading| #[trigger]
                        reading_views(parses@).contains(r) <==> before.contains(r) || (r.pair == pair && exists|j: int|
                            0 <= j < i && #[trigger] found@[j]@ == r.melds),
                decreases found.len() - i,
            {
                assert(fills(counts@, need as nat, found@[i as int]@));
                let p = StandardParse { pair, melds: clone_shapes(&found[i]) };
                let ghost pv = p@;
                let ghost mid = reading_views(parses@);
                insert_reading(&mut parses, p);
                proof {
                    assert forall|r: Reading| #[trigger] reading_views(parses@).contains(r) <==> before.contains(r) || (r.pair
                        == pair && exists|j: int| 0 <= j < i + 1 && #[trigger] found@[j]@ == r.melds) by {
                        assert(reading_views(parses@).contains(r) <==> mid.contains(r) || r == pv);
                        if r.pair == pair && exists|j: int| 0 <= j < i + 1 && #[trigger] found@[j]@ == r.melds {
                            let j = choose|j: int| 0 <= j < i + 1 && #[trigger] found@[j]@ == r.melds;
                            if j == i {
                                assert(r == pv);
                            }
                        }
                        if r == pv {
                            assert(found@[i as int]@ == r.melds);
                        }
                    }
                }
                i = i + 1;
            }
            proof {
                assert forall|r: Reading| #[trigger] reading_views(parses@).contains(r) <==> is_reading(c, need as nat, r) && r.pair
                    < pair + 1 by {
                    if r.pair == pair && is_reading(c, need as nat, r) {
                        assert(fills(counts@, need as nat, r.melds));
                        assert(listed(found@, 0, acc@ + r.melds));
                        assert(acc@ + r.melds =~= r.melds);
                    }
                    if r.pair == pair && exists|j: int| 0 <= j < i && #[trigger] found@[j]@ == r.melds {
                        let j = choose|j: int| 0 <= j < i && #[trigger] found@[j]@ == r.melds;
                        assert(fills(counts@, need as nat, found@[j]@));
                    }
                }
            }
        }
        pair = pair + 1;
    }
    proof {
        let s = reading_views(parses@);
        assert forall|i: int| 0 <= i < s.len() implies is_reading(c, need as nat, #[trigger] s[i]) by {
            assert(s.contains(s[i]));
        }
        assert(is_readings_list(s, c, need as nat));
        lemma_readings_unique(s, c, need as nat);
    }
    parses
}

/// Seven different pairs and nothing else.
pub open spec fn is_seven_pairs(c: Seq<u8>) -> bool {
    &&& forall|k: int| 0 <= k < 34 ==> #[trigger] c[k] == 0 || c[k] == 2
    &&& kinds_with(c, 2) == 7
}

pub fn is_chiitoitsu(c: &[u8; 34]) -> (r: bool)
    ensures
        r == is_seven_pairs(c@),
{
    let mut pairs: u8 = 0;
    let mut i: usize = 0;
    while i < 34
        invariant
            i <= 34,
            pairs == kinds_with(c@.subrange(0, i as int), 2),
            pairs <= i,
            forall|k: int| 0 <= k < i ==> #[trigger] c@[k] == 0 || c@[k] == 2,
        decreases 34 - i,
    {
        assert(c@.subrange(0, i + 1).drop_last() =~= c@.subrange(0, i as int));
        let n: u8 = c[i];
        if n == 2 {
            pairs = pairs + 1;
        } else if n != 0 {
            return false;
        }
        i = i + 1;
    }
    assert(c@.subrange(0, 34) =~= c@);
    pairs == 7
}

/// All thirteen terminals and honors, one of them twice, and nothing else.
pub open spec fn is_thirteen_orphans(c: Seq<u8>) -> bool {
    &&& forall|k: int| 0 <= k < 34 ==> (#[trigger] c[k] > 0 <==> is_yaochuu_kind(k))
    &&& has_yaochuu_pair(c)
    &&& sum_counts(c) == 14
}

pub fn is_kokushi(c: &[u8; 34]) -> (r: bool)
    ensures
        r == is_thirteen_orphans(c@),
{
    let mut total: u32 = 0;
    let mut has_pair = false;
    let mut i: usize = 0;
    while i < 34
        invariant
            i <= 34,
            total == sum_counts(c@.subrange(0, i as int)),
            total <= 255 * i,
            has_pair == exists|k: int| #[trigger] is_yaochuu_kind(k) && k < i && c@[k] >= 2,
            forall|k: int| 0 <= k < i ==> (#[trigger] c@[k] > 0 <==> is_yaochuu_kind(k)),
        decreases 34 - i,
    {
        assert(c@.subrange(0, i + 1).drop_last() =~= c@.subrange(0, i as int));
        let n: u8 = c[i];
        if is_yaochuu_index(i) {
            if n == 0 {
                assert(!(c@[i as int] > 0 <==> is_yaochuu_kind(i as int)));
                return false;
            }
            if n >= 2 {
                has_pair = true;
            }
        } else if n != 0 {
            assert(!(c@[i as int] > 0 <==> is_yaochuu_kind(i as int)));
            return false;
        }
        total = total + n as u32;
        i = i + 1;
    }
    assert(c@.subrange(0, 34) =~= c@);
    has_pair && total == 14
}

/// Decomposes the concealed counts; no readings where the hand is not complete.
pub fn decompose(concealed: &[u8; 34], open_melds: u8) -> (r: Decomposition)
    ensures
        match r {
            Decomposition::Chiitoitsu => open_melds == 0 && is_seven_pairs(concealed@),
            Decomposition::Kokushi => open_melds == 0 && !is_seven_pairs(concealed@) && is_thirteen_orphans(
                concealed@,
            ),
            Decomposition::Standard(v) => !(open_melds == 0 && (is_seven_pairs(concealed@) || is_thirteen_orphans(
                concealed@,
            ))) && reading_views(v@) == hand_readings(concealed@, open_melds),
        },
{
    if open_melds == 0 {
        if is_chiitoitsu(concealed) {
            return Decomposition::Chiitoitsu;
        }
        if is_kokushi(concealed) {
            return Decomposition::Kokushi;
        }
    }
    Decomposition::Standard(standard_parses(concealed, open_melds))
}

/// Where the winning tile sits in a reading; determines fu and pinfu.
#[derive(Debug, Clone, Copy, PartialEq, Eq, Structural)]
pub enum WaitShape {
    /// Two-sided wait (23 waiting on 1/4).
    Ryanmen,
    /// Closed wait (13 waiting on 2).
    Kanchan,
    /// Edge wait (12 waiting on 3, 89 waiting on 7).
    Penchan,
    /// Pair wait.
    Tanki,
    /// Dual pon wait.
    Shanpon,
}

/// How a winning tile sits in one group.
pub open spec fn wait_in_group(m: MeldShape, win: int) -> Option<WaitShape> {
    match m {
        MeldShape::Kotsu(k) => if k == win { Some(WaitShape::Shanpon) } else { None },
        MeldShape::Shuntsu(s) => if win == s + 1 {
            Some(WaitShape::Kanchan)
        } else if win == s + 2 {
            Some(if s % 9 == 0 { WaitShape::Penchan } else { WaitShape::Ryanmen })
        } else if win == s {
            Some(if s % 9 == 6 { WaitShape::Penchan } else { WaitShape::Ryanmen })
        } else {
            None
        },
    }
}

/// A list with one more entry, unless it is there already.
pub open spec fn with_wait(s: Seq<WaitShape>, w: Option<WaitShape>) -> Seq<WaitShape> {
    match w {
        Some(x) => if s.contains(x) { s } else { s.push(x) },
        None => s,
    }
}

/// The interpretations of a winning tile in a reading, each once: the pair first, then the
/// groups in order.
pub open spec fn waits_of(pair: u8, melds: Seq<MeldShape>, win: int) -> Seq<WaitShape>
    decreases melds.len(),
{
    if melds.len() == 0 {
        with_wait(Seq::empty(), if pair == win { Some(WaitShape::Tanki) } else { None })
    } else {
        with_wait(waits_of(pair, melds.drop_last(), win), wait_in_group(melds.last(), win))
    }
}

fn push_wait(out: &mut Vec<WaitShape>, cand: WaitShape)
    ensures
        final(out)@ == with_wait(old(out)@, Some(cand)),
{
    let mut i: usize = 0;
    while i < out.len()
        invariant
            i <= out.len(),
            *out == *old(out),
            forall|j: int| 0 <= j < i ==> out@[j] != cand,
        decreases out.len() - i,
    {
        if out[i] == cand {
            assert(out@.contains(cand));
            return;
        }
        i = i + 1;
    }
    out.push(cand);
}

/// Every valid interpretation of `win` within `parse`.
///
/// Fu takes the interpretation with most fu, while pinfu requires the two-sided one, so all
/// of them are given; [`wait_shape`] gives the choice that favors pinfu.
pub fn wait_shapes(parse: &StandardParse, win: Tile) -> (r: Vec<WaitShape>)
    requires
        forall|i: int| 0 <= i < parse.melds@.len() ==> (#[trigger] parse.melds@[i]).tile_kind() <= 253,
    ensures
        r@ == waits_of(parse.pair, parse.melds@, win.kind() as int),
{
    let wk: u8 = win.kind() as u8;
    let mut out: Vec<WaitShape> = Vec::new();
    if parse.pair == wk {
        push_wait(&mut out, WaitShape::Tanki);
    }
    let mut i: usize = 0;
    assert(parse.melds@.subrange(0, 0) =~= Seq::empty());
    while i < parse.melds.len()
        invariant
            i <= parse.melds.len(),
            wk == win.kind(),
            forall|j: int| 0 <= j < parse.melds@.len() ==> (#[trigger] parse.melds@[j]).tile_kind() <= 253,
            out@ == waits_of(parse.pair, parse.melds@.subrange(0, i as int), wk as int),
        decreases parse.melds.len() - i,
    {
        assert(parse.melds@.subrange(0, i + 1).drop_last() =~= parse.melds@.subrange(0, i as int));
        assert(parse.melds@[i as int].tile_kind() <= 253);
        match parse.melds[i] {
            MeldShape::Kotsu(k) => {
                if k == wk {
                    push_wait(&mut out, WaitShape::Shanpon);
                }
            },
            MeldShape::Shuntsu(s) => {
                let a: u8 = s;
                let b: u8 = s + 1;
                let c: u8 = s + 2;
                if wk == a || wk == c {
                    let rank: u8 = a % 9;
                    if (wk == c && rank == 0) || (wk == a && rank == 6) {
                        push_wait(&mut out, WaitShape::Penchan);
                    } else {
                        push_wait(&mut out, WaitShape::Ryanmen);
                    }
                } else if wk == b {
                    push_wait(&mut out, WaitShape::Kanchan);
                }
            },
        }
        i = i + 1;
    }
    assert(parse.melds@.subrange(0, i as int) =~= parse.melds@);
    out
}

/// How much a wait favors pinfu: two-sided, then closed and edge, then dual pon and pair.
pub open spec fn wait_rank(w: WaitShape) -> int {
    match w {
        WaitShape::Ryanmen => 3,
        WaitShape::Kanchan => 2,
        WaitShape::Penchan => 2,
        WaitShape::Shanpon => 1,
        WaitShape::Tanki => 1,
    }
}

/// The first of the waits of highest rank.
pub open spec fn is_best_wait(s: Seq<WaitShape>, r: Option<WaitShape>) -> bool {
    match r {
        None => s.len() == 0,
        Some(w) => exists|i: int|
            0 <= i < s.len() && #[trigger] s[i] == w && (forall|j: int|
                0 <= j < s.len() ==> wait_rank(#[trigger] s[j]) <= wait_rank(w)) && (forall|j: int|
                0 <= j < i ==> wait_rank(#[trigger] s[j]) < wait_rank(w)),
    }
}

/// The wait kept when later waits replace it only if they rank higher.
pub open spec fn best_wait(s: Seq<WaitShape>) -> Option<WaitShape>
    decreases s.len(),
{
    if s.len() == 0 {
        None
    } else {
        match best_wait(s.drop_last()) {
            None => Some(s.last()),
            Some(b) => if wait_rank(s.last()) > wait_rank(b) { Some(s.last()) } else { Some(b) },
        }
    }
}

fn rank_of(w: WaitShape) -> (r: u8)
    ensures
        r == wait_rank(w),
{
    match w {
        WaitShape::Ryanmen => 3,
        WaitShape::Kanchan | WaitShape::Penchan => 2,
        WaitShape::Shanpon | WaitShape::Tanki => 1,
    }
}

/// The wait most favorable for pinfu. Not for fu; see [`wait_shapes`].
pub fn wait_shape(parse: &StandardParse, win: Tile) -> (r: Option<WaitShape>)
    requires
        forall|i: int| 0 <= i < parse.melds@.len() ==> (#[trigger] parse.melds@[i]).tile_kind() <= 253,
    ensures
        is_best_wait(waits_of(parse.pair, parse.melds@, win.kind() as int), r),
        r == best_wait(waits_of(parse.pair, parse.melds@, win.kind() as int)),
{
    let v = wait_shapes(parse, win);
    if v.len() == 0 {
        return None;
    }
    let mut best: WaitShape = v[0];
    let mut i: usize = 1;
    let ghost mut at: int = 0;
    proof {
        reveal_with_fuel(best_wait, 2);
        assert(v@.subrange(0, 1).drop_last() =~= Seq::empty());
    }
    while i < v.len()
        invariant
            1 <= i <= v.len(),
            best_wait(v@.subrange(0, i as int)) == Some(best),
            0 <= at < i,
            v@[at] == best,
            forall|j: int| 0 <= j < i ==> wait_rank(#[trigger] v@[j]) <= wait_rank(best),
            forall|j: int| 0 <= j < at ==> wait_rank(#[trigger] v@[j]) < wait_rank(best),
        decreases v.len() - i,
    {
        assert(v@.subrange(0, i + 1).drop_last() =~= v@.subrange(0, i as int));
        if rank_of(v[i]) > rank_of(best) {
            best = v[i];
            proof { at = i as int; }
        }
        i = i + 1;
    }
    assert(v@[at] == best);
    assert(v@.subrange(0, i as int) =~= v@);
    Some(best)
}

} // verus!
