//! Hands as counts: one slot for each of the 34 base kinds, red fives folded into plain
//! fives.

use vstd::prelude::*;
use vstd::string::*;
use crate::text::{chars_of, owned};
use crate::mahjong::tile::Tile;

verus! {

/// Tile counts over the 34 base kinds.
#[derive(Debug, Clone, Copy, PartialEq, Eq, Hash)]
pub struct TileCounts(pub [u8; 34]);

/// How many tiles of a list are of a kind.
pub open spec fn count_kind(tiles: Seq<Tile>, k: int) -> nat
    decreases tiles.len(),
{
    if tiles.len() == 0 {
        0
    } else {
        count_kind(tiles.drop_last(), k) + if tiles.last().kind() == k { 1nat } else { 0 }
    }
}

/// Sum of a list of counts.
pub open spec fn sum_counts(c: Seq<u8>) -> nat
    decreases c.len(),
{
    if c.len() == 0 { 0 } else { sum_counts(c.drop_last()) + c.last() as nat }
}

/// Number of positive entries of a list of counts.
pub open spec fn positive_entries(c: Seq<u8>) -> nat
    decreases c.len(),
{
    if c.len() == 0 { 0 } else { positive_entries(c.drop_last()) + if c.last() > 0 { 1nat } else { 0 } }
}

/// The tiles that a list of counts stands for, in ascending order of kind.
pub open spec fn expand(c: Seq<u8>) -> Seq<Tile>
    decreases c.len(),
{
    if c.len() == 0 {
        Seq::empty()
    } else {
        expand(c.drop_last()) + Seq::new(c.last() as nat, |i: int| Tile::of(c.len() - 1))
    }
}

/// The names of tiles with a blank between two of them.
pub open spec fn spaced_names(tiles: Seq<Tile>) -> Seq<char>
    decreases tiles.len(),
{
    if tiles.len() == 0 {
        Seq::empty()
    } else if tiles.len() == 1 {
        tiles.last().spec_name()
    } else {
        spaced_names(tiles.drop_last()) + " "@ + tiles.last().spec_name()
    }
}

impl View for TileCounts {
    type V = Seq<u8>;

    open spec fn view(&self) -> Seq<u8> {
        self.0@
    }
}

impl Default for TileCounts {
    fn default() -> (r: Self)
        ensures
            r@ == Seq::new(34, |i: int| 0u8),
    {
        TileCounts::new()
    }
}

impl TileCounts {
    pub fn new() -> (r: Self)
        ensures
            r@ == Seq::new(34, |i: int| 0u8),
    {
        let zeros = [0u8; 34];
        let r = TileCounts(zeros);
        proof { vstd::array::axiom_spec_array_fill_for_copy_type::<u8, 34>(0u8); }
        assert(r@ =~= Seq::new(34, |i: int| 0u8));
        r
    }

    pub fn from_raw(raw: [u8; 34]) -> (r: Self)
        ensures
            r@ == raw@,
            r.0 == raw,
    {
        TileCounts(raw)
    }

    /// Counts a list of known tiles.
    pub fn from_tiles(tiles: &[Tile]) -> (r: Self)
        requires
            forall|i: int| 0 <= i < tiles@.len() ==> #[trigger] tiles@[i].is_known(),
            forall|k: int| 0 <= k < 34 ==> #[trigger] count_kind(tiles@, k) <= 255,
        ensures
            r@.len() == 34,
            forall|k: int| 0 <= k < 34 ==> #[trigger] r@[k] == count_kind(tiles@, k),
    {
        let mut c = TileCounts::new();
        let mut i: usize = 0;
        while i < tiles.len()
            invariant
                i <= tiles.len(),
                forall|j: int| 0 <= j < tiles@.len() ==> #[trigger] tiles@[j].is_known(),
                forall|k: int| 0 <= k < 34 ==> #[trigger] count_kind(tiles@, k) <= 255,
                forall|k: int| 0 <= k < 34 ==> #[trigger] c@[k] == count_kind(tiles@.subrange(0, i as int), k),
            decreases tiles.len() - i,
        {
            let ghost before = tiles@.subrange(0, i as int);
            let ghost after = tiles@.subrange(0, i + 1);
            assert(after.drop_last() =~= before);
            proof {
                lemma_count_prefix(tiles@, i + 1, tiles@[i as int].kind() as int);
            }
            let t = tiles[i];
            assert(after.last() == t && t.is_known());
            assert(count_kind(after, t.kind() as int) == count_kind(before, t.kind() as int) + 1);
            assert(count_kind(tiles@, t.kind() as int) <= 255);
            c.add(t, 1);
            assert forall|k: int| 0 <= k < 34 implies #[trigger] c@[k] == count_kind(after, k) by {}
            i = i + 1;
        }
        assert(tiles@.subrange(0, i as int) =~= tiles@);
        c
    }

    pub fn count(&self, kind: usize) -> (r: u8)
        requires
            kind < 34,
        ensures
            r == self@[kind as int],
    {
        self.0[kind]
    }

    pub fn count_of(&self, tile: Tile) -> (r: u8)
        requires
            tile.is_known(),
        ensures
            r == self@[tile.kind() as int],
    {
        self.0[tile.kind()]
    }

    pub fn add(&mut self, tile: Tile, n: u8)
        requires
            tile.is_known(),
            old(self)@[tile.kind() as int] + n <= 255,
        ensures
            final(self)@ == old(self)@.update(
                tile.kind() as int,
                (old(self)@[tile.kind() as int] + n) as u8,
            ),
    {
        let k: usize = tile.kind();
        let m: u8 = self.0[k];
        self.0[k] = m + n;
    }

    pub fn sub(&mut self, tile: Tile, n: u8)
        requires
            tile.is_known(),
            n <= old(self)@[tile.kind() as int],
        ensures
            final(self)@ == old(self)@.update(
                tile.kind() as int,
                (old(self)@[tile.kind() as int] - n) as u8,
            ),
    {
        let k: usize = tile.kind();
        let m: u8 = self.0[k];
        self.0[k] = m - n;
    }

    pub fn total(&self) -> (r: u32)
        ensures
            r == sum_counts(self@),
    {
        let mut sum: u32 = 0;
        let mut i: usize = 0;
        while i < 34
            invariant
                i <= 34,
                sum == sum_counts(self@.subrange(0, i as int)),
                sum <= 255 * i,
            decreases 34 - i,
        {
            assert(self@.subrange(0, i + 1).drop_last() =~= self@.subrange(0, i as int));
            sum = sum + self.0[i] as u32;
            i = i + 1;
        }
        assert(self@.subrange(0, 34) =~= self@);
        sum
    }

    pub fn raw(&self) -> (r: &[u8; 34])
        ensures
            *r == self.0,
            r@ == self@,
    {
        &self.0
    }

    pub fn raw_mut(&mut self) -> (r: &mut [u8; 34])
        ensures
            *r == old(self).0,
            final(self).0 == *final(r),
    {
        &mut self.0
    }

    /// Number of distinct kinds held.
    pub fn distinct(&self) -> (r: u8)
        ensures
            r == positive_entries(self@),
    {
        let mut n: u8 = 0;
        let mut i: usize = 0;
        while i < 34
            invariant
                i <= 34,
                n == positive_entries(self@.subrange(0, i as int)),
                n <= i,
            decreases 34 - i,
        {
            assert(self@.subrange(0, i + 1).drop_last() =~= self@.subrange(0, i as int));
            if self.0[i] > 0 {
                n = n + 1;
            }
            i = i + 1;
        }
        assert(self@.subrange(0, 34) =~= self@);
        n
    }

    /// The tiles counted, in ascending order of kind, no red fives among them.
    pub fn to_tiles(&self) -> (r: Vec<Tile>)
        ensures
            r@ == expand(self@),
    {
        let mut v: Vec<Tile> = Vec::new();
        let mut k: usize = 0;
        while k < 34
            invariant
                k <= 34,
                v@ == expand(self@.subrange(0, k as int)),
            decreases 34 - k,
        {
            let t = Tile::from_id_unchecked(k as u8);
            let n: u8 = self.0[k];
            let ghost before = v@;
            let mut j: u8 = 0;
            while j < n
                invariant
                    j <= n,
                    t == Tile::of(k as int),
                    v@ == before + Seq::new(j as nat, |i: int| Tile::of(k as int)),
                decreases n - j,
            {
                v.push(t);
                assert(v@ =~= before + Seq::new((j + 1) as nat, |i: int| Tile::of(k as int)));
                j = j + 1;
            }
            assert(self@.subrange(0, k + 1).drop_last() =~= self@.subrange(0, k as int));
            assert(v@ =~= expand(self@.subrange(0, k + 1)));
            k = k + 1;
        }
        assert(self@.subrange(0, 34) =~= self@);
        v
    }

    /// The tiles in words, for diagnostics.
    pub fn describe(&self) -> (r: String)
        ensures
            r@ == "TileCounts["@ + spaced_names(expand(self@)) + "]"@,
    {
        let tiles = self.to_tiles();
        let mut r = owned("TileCounts[");
        let mut i: usize = 0;
        while i < tiles.len()
            invariant
                i <= tiles.len(),
                tiles@ == expand(self@),
                r@ == "TileCounts["@ + spaced_names(tiles@.subrange(0, i as int)),
            decreases tiles.len() - i,
        {
            if i > 0 {
                r.append(" ");
            }
            r.append(tiles[i].as_str());
            assert(tiles@.subrange(0, i + 1).drop_last() =~= tiles@.subrange(0, i as int));
            assert(r@ =~= "TileCounts["@ + spaced_names(tiles@.subrange(0, i + 1)));
            i = i + 1;
        }
        assert(tiles@.subrange(0, i as int) =~= tiles@);
        r.append("]");
        r
    }
}

proof fn lemma_count_prefix(tiles: Seq<Tile>, n: int, k: int)
    requires
        0 <= n <= tiles.len(),
    ensures
        count_kind(tiles.subrange(0, n), k) <= count_kind(tiles, k),
    decreases tiles.len(),
{
    if n == tiles.len() {
        assert(tiles.subrange(0, n) =~= tiles);
    } else {
        lemma_count_prefix(tiles.drop_last(), n, k);
        assert(tiles.drop_last().subrange(0, n) =~= tiles.subrange(0, n));
    }
}

pub proof fn lemma_count_kind_append(a: Seq<Tile>, b: Seq<Tile>, k: int)
    ensures
        count_kind(a + b, k) == count_kind(a, k) + count_kind(b, k),
    decreases b.len(),
{
    if b.len() == 0 {
        assert(a + b =~= a);
    } else {
        lemma_count_kind_append(a, b.drop_last(), k);
        assert((a + b).drop_last() =~= a + b.drop_last());
    }
}

proof fn lemma_count_constant(id: int, n: nat, k: int)
    requires
        0 <= id < 34,
    ensures
        count_kind(Seq::new(n, |i: int| Tile::of(id)), k) == if id == k { n } else { 0 },
    decreases n,
{
    let s = Seq::new(n, |i: int| Tile::of(id));
    if n > 0 {
        lemma_count_constant(id, (n - 1) as nat, k);
        assert(s.drop_last() =~= Seq::new((n - 1) as nat, |i: int| Tile::of(id)));
    }
}

pub proof fn lemma_expand_counts(c: Seq<u8>, k: int)
    requires
        c.len() <= 34,
    ensures
        count_kind(expand(c), k) == if 0 <= k < c.len() { c[k] as nat } else { 0 },
        expand(c).len() == sum_counts(c),
    decreases c.len(),
{
    if c.len() > 0 {
        lemma_expand_counts(c.drop_last(), k);
        let tail = Seq::new(c.last() as nat, |i: int| Tile::of(c.len() - 1));
        lemma_count_kind_append(expand(c.drop_last()), tail, k);
        lemma_count_constant(c.len() - 1, c.last() as nat, k);
        assert(tail =~= Seq::new(c.last() as nat, |i: int| Tile::of(c.len() - 1)));
    }
}

/// Writing counts out as tiles and counting them again gives the counts back, and the list
/// is as long as their total.
pub proof fn expand_then_count(c: TileCounts)
    ensures
        forall|k: int| 0 <= k < 34 ==> #[trigger] count_kind(expand(c@), k) == c@[k],
        expand(c@).len() == sum_counts(c@),
{
    assert forall|k: int| 0 <= k < 34 implies #[trigger] count_kind(expand(c@), k) == c@[k] by {
        lemma_expand_counts(c@, k);
    }
    lemma_expand_counts(c@, 0);
}

/// Adding tiles and taking as many away again changes nothing.
pub proof fn add_then_sub(c: TileCounts, tile: Tile, n: u8)
    requires
        tile.is_known(),
        c@[tile.kind() as int] + n <= 255,
    ensures
        ({
            let k = tile.kind() as int;
            let up = c@.update(k, (c@[k] + n) as u8);
            up.update(k, (up[k] - n) as u8) == c@
        }),
{
    let k = tile.kind() as int;
    let up = c@.update(k, (c@[k] + n) as u8);
    assert(up.update(k, (up[k] - n) as u8) =~= c@);
}

/// The kinds below `n` with a property, in ascending order.
pub open spec fn kinds_below(n: nat, p: spec_fn(int) -> bool) -> Seq<usize>
    decreases n,
{
    if n == 0 {
        Seq::empty()
    } else if p(n - 1) {
        kinds_below((n - 1) as nat, p).push((n - 1) as usize)
    } else {
        kinds_below((n - 1) as nat, p)
    }
}

/// The listed kinds are those with the property, in ascending order.
pub proof fn lemma_kinds_below(n: nat, p: spec_fn(int) -> bool)
    requires
        n <= 34,
    ensures
        forall|i: int| 0 <= i < kinds_below(n, p).len() ==> (#[trigger] kinds_below(n, p)[i]) < n && p(
            kinds_below(n, p)[i] as int,
        ),
        forall|k: int| 0 <= k < n && #[trigger] p(k) ==> kinds_below(n, p).contains(k as usize),
        forall|i: int, j: int|
            0 <= i < j < kinds_below(n, p).len() ==> kinds_below(n, p)[i] < kinds_below(n, p)[j],
        kinds_below(n, p).len() <= n,
    decreases n,
{
    if n > 0 {
        lemma_kinds_below((n - 1) as nat, p);
        let s = kinds_below((n - 1) as nat, p);
        let t = kinds_below(n, p);
        assert forall|k: int| 0 <= k < n && #[trigger] p(k) implies t.contains(k as usize) by {
            if k == n - 1 {
                assert(t[t.len() - 1] == k as usize);
            } else {
                assert(s.contains(k as usize));
                let i = choose|i: int| 0 <= i < s.len() && s[i] == k as usize;
                assert(t[i] == k as usize);
            }
        }
    }
}

/// What has been read of a hand in `"123m456p"` notation: the kinds named so far, the
/// digits whose suit letter is still to come, and the first error.
pub struct Notation {
    pub kinds: Seq<int>,
    pub digits: Seq<char>,
    pub error: Option<Seq<char>>,
}

/// Kind named by a digit before a suit letter; `0` is a red five.
pub open spec fn digit_kind(d: char, suit: char) -> int {
    let rank = if d == '0' { 5int } else { d as int - '0' as int };
    let base = if suit == 'm' { 0int } else if suit == 'p' { 9int } else { 18int };
    base + rank - 1
}

/// Kind named by an honor letter.
pub open spec fn letter_kind(ch: char) -> int {
    if ch == 'E' { 27 } else if ch == 'S' { 28 } else if ch == 'W' { 29 } else if ch == 'N' { 30 }
    else if ch == 'P' { 31 } else if ch == 'F' { 32 } else { 33 }
}

pub open spec fn is_honor_letter(ch: char) -> bool {
    ch == 'E' || ch == 'S' || ch == 'W' || ch == 'N' || ch == 'P' || ch == 'F' || ch == 'C'
}

/// Reads a hand in notation from left to right.
pub open spec fn read_notation(s: Seq<char>) -> Notation
    decreases s.len(),
{
    if s.len() == 0 {
        Notation { kinds: Seq::empty(), digits: Seq::empty(), error: None }
    } else {
        let before = read_notation(s.drop_last());
        let ch = s.last();
        if before.error is Some {
            before
        } else if '0' <= ch <= '9' {
            Notation { digits: before.digits.push(ch), ..before }
        } else if ch == 'm' || ch == 'p' || ch == 's' {
            Notation {
                kinds: before.kinds + before.digits.map_values(|d: char| digit_kind(d, ch)),
                digits: Seq::empty(),
                error: None,
            }
        } else if is_honor_letter(ch) {
            Notation { kinds: before.kinds.push(letter_kind(ch)), ..before }
        } else if ch == ' ' || ch == ',' {
            before
        } else {
            Notation { error: Some("unexpected char "@.push(ch)), ..before }
        }
    }
}

/// How often a kind occurs in a list of kinds.
pub open spec fn occurrences(kinds: Seq<int>, k: int) -> nat
    decreases kinds.len(),
{
    if kinds.len() == 0 {
        0
    } else {
        occurrences(kinds.drop_last(), k) + if kinds.last() == k { 1nat } else { 0 }
    }
}

proof fn lemma_occurrences_prefix(a: Seq<int>, b: Seq<int>, k: int)
    ensures
        occurrences(a + b, k) >= occurrences(a, k),
    decreases b.len(),
{
    if b.len() == 0 {
        assert(a + b =~= a);
    } else {
        lemma_occurrences_prefix(a, b.drop_last(), k);
        assert((a + b).drop_last() =~= a + b.drop_last());
    }
}

/// Reading on only adds kinds.
proof fn lemma_notation_grows(s: Seq<char>, n: int, k: int)
    requires
        0 <= n <= s.len(),
    ensures
        occurrences(read_notation(s.subrange(0, n)).kinds, k) <= occurrences(read_notation(s).kinds, k),
        read_notation(s.subrange(0, n)).error is Some ==> read_notation(s) == read_notation(s.subrange(0, n)),
    decreases s.len(),
{
    if n == s.len() {
        assert(s.subrange(0, n) =~= s);
    } else {
        lemma_notation_grows(s.drop_last(), n, k);
        assert(s.drop_last().subrange(0, n) =~= s.subrange(0, n));
        let before = read_notation(s.drop_last());
        let ch = s.last();
        lemma_occurrences_prefix(before.kinds, before.digits.map_values(|d: char| digit_kind(d, ch)), k);
        lemma_occurrences_prefix(before.kinds, seq![letter_kind(ch)], k);
        assert(before.kinds + seq![letter_kind(ch)] =~= before.kinds.push(letter_kind(ch)));
    }
}

/// Parses `"123m456p"`-style notation. Honors are `E S W N P F C`; `0` in a suit is a red
/// five.
pub fn counts_from_str(s: &str) -> (r: Result<TileCounts, String>)
    requires
        forall|k: int| 0 <= k < 34 ==> #[trigger] occurrences(read_notation(s@).kinds, k) <= 255,
    ensures
        match r {
            Ok(c) => read_notation(s@).error is None && read_notation(s@).digits.len() == 0
                && forall|k: int| 0 <= k < 34 ==> #[trigger] c@[k] == occurrences(read_notation(s@).kinds, k),
            Err(e) => match read_notation(s@).error {
                Some(text) => e@ == text,
                None => read_notation(s@).digits.len() > 0 && e@ == "trailing digits without suit"@,
            },
        },
{
    let chars = chars_of(s);
    let mut c = TileCounts::new();
    let mut digits: Vec<char> = Vec::new();
    let mut i: usize = 0;
    while i < chars.len()
        invariant
            i <= chars.len(),
            chars@ == s@,
            forall|k: int| 0 <= k < 34 ==> #[trigger] occurrences(read_notation(s@).kinds, k) <= 255,
            read_notation(s@.subrange(0, i as int)).error is None,
            digits@ == read_notation(s@.subrange(0, i as int)).digits,
            forall|j: int| 0 <= j < digits@.len() ==> '0' <= #[trigger] digits@[j] <= '9',
            forall|k: int| 0 <= k < 34 ==> #[trigger] c@[k] == occurrences(
                read_notation(s@.subrange(0, i as int)).kinds,
                k,
            ),
        decreases chars.len() - i,
    {
        let ch = chars[i];
        let ghost before = read_notation(s@.subrange(0, i as int));
        let ghost after = read_notation(s@.subrange(0, i + 1));
        assert(s@.subrange(0, i + 1).drop_last() =~= s@.subrange(0, i as int));
        proof {
            assert forall|k: int| 0 <= k < 34 implies #[trigger] occurrences(after.kinds, k) <= 255 by {
                lemma_notation_grows(s@, i + 1, k);
            }
            lemma_notation_grows(s@, i + 1, 0);
        }
        if '0' <= ch && ch <= '9' {
            digits.push(ch);
        } else if ch == 'm' || ch == 'p' || ch == 's' {
            let mut j: usize = 0;
            let ghost added = digits@.map_values(|d: char| digit_kind(d, ch));
            while j < digits.len()
                invariant
                    j <= digits.len(),
                    ch == 'm' || ch == 'p' || ch == 's',
                    added == digits@.map_values(|d: char| digit_kind(d, ch)),
                    after.kinds == before.kinds + added,
                    forall|l: int| 0 <= l < digits@.len() ==> '0' <= #[trigger] digits@[l] <= '9',
                    forall|k: int| 0 <= k < 34 ==> #[trigger] occurrences(after.kinds, k) <= 255,
                    forall|k: int| 0 <= k < 34 ==> #[trigger] c@[k] == occurrences(
                        before.kinds + added.subrange(0, j as int),
                        k,
                    ),
                decreases digits.len() - j,
            {
                let d = digits[j];
                let rank: u8 = if d == '0' { 5 } else { (d as u32 - '0' as u32) as u8 };
                let base: u8 = if ch == 'm' { 0 } else if ch == 'p' { 9 } else { 18 };
                let tile = Tile::from_id_unchecked(base + rank - 1);
                let ghost shorter = before.kinds + added.subrange(0, j as int);
                let ghost longer = before.kinds + added.subrange(0, j + 1);
                assert(longer.drop_last() =~= shorter);
                assert(longer.last() == digit_kind(d, ch));
                proof {
                    lemma_occurrences_prefix(longer, added.subrange(j + 1, added.len() as int), tile.kind() as int);
                    assert(longer + added.subrange(j + 1, added.len() as int) =~= after.kinds);
                }
                c.add(tile, 1);
                assert forall|k: int| 0 <= k < 34 implies #[trigger] c@[k] == occurrences(longer, k) by {}
                j = j + 1;
            }
            assert(added.subrange(0, j as int) =~= added);
            digits = Vec::new();
            assert(digits@ =~= after.digits);
        } else if ch == 'E' || ch == 'S' || ch == 'W' || ch == 'N' || ch == 'P' || ch == 'F' || ch == 'C' {
            let id: u8 = if ch == 'E' { 27 } else if ch == 'S' { 28 } else if ch == 'W' { 29 } else if ch == 'N' { 30 }
                else if ch == 'P' { 31 } else if ch == 'F' { 32 } else { 33 };
            let tile = Tile::from_id_unchecked(id);
            assert(after.kinds.drop_last() =~= before.kinds);
            assert(occurrences(after.kinds, id as int) <= 255);
            c.add(tile, 1);
            assert forall|k: int| 0 <= k < 34 implies #[trigger] c@[k] == occurrences(after.kinds, k) by {}
        } else if ch == ' ' || ch == ',' {
        } else {
            let mut e = owned("unexpected char ");
            e.push(ch);
            return Err(e);
        }
        i = i + 1;
    }
    assert(s@.subrange(0, i as int) =~= s@);
    if digits.len() > 0 {
        return Err(owned("trailing digits without suit"));
    }
    Ok(c)
}

} // verus!
