//! Tile sets of the two variants, and the tiles of calls. Red fives replace plain fives and
//! do not change the number of tiles.

use vstd::prelude::*;
use crate::mahjong::hand::count_kind;
use crate::mahjong::rules::RedFiveCounts;
use crate::mahjong::tile::{Suit, Tile};

verus! {

/// Most dora indicators that a hand can reveal: one at the start and one for each of four kans.
pub const MAX_DORA_INDICATORS: usize = 5;

/// Red fives of a kind: of fives the count of their suit, of other kinds none.
pub open spec fn reds_of_kind(k: int, reds: RedFiveCounts) -> int {
    if k == 4 { reds.man as int } else if k == 13 { reds.pin as int } else if k == 22 { reds.sou as int } else { 0 }
}

/// A copy of a kind; the first copies of a five are red.
pub open spec fn wall_tile(k: int, copy: int, reds: RedFiveCounts) -> Tile {
    if copy < reds_of_kind(k, reds) { Tile::of(k).akaize() } else { Tile::of(k) }
}

/// Four copies of each of the 34 kinds, in order.
pub open spec fn wall_4p(reds: RedFiveCounts) -> Seq<Tile> {
    Seq::new(136, |i: int| wall_tile(i / 4, i % 4, reds))
}

/// Kind of a position in the three-player set, which has no 2m..8m.
pub open spec fn kind_3p(i: int) -> int {
    if i < 4 { 0 } else if i < 8 { 8 } else { 9 + (i - 8) / 4 }
}

/// Four copies of each of the 27 kinds of the three-player game, in order.
pub open spec fn wall_3p(reds: RedFiveCounts) -> Seq<Tile> {
    Seq::new(108, |i: int| wall_tile(kind_3p(i), i % 4, reds))
}

fn tile_copy(k: u8, copy: u8, reds: RedFiveCounts) -> (t: Tile)
    requires
        k < 34,
    ensures
        t == wall_tile(k as int, copy as int, reds),
{
    let red: u8 = if k == 4 { reds.man } else if k == 13 { reds.pin } else if k == 22 { reds.sou } else { 0 };
    let tile = Tile::from_id_unchecked(k);
    if copy < red { tile.akaize() } else { tile }
}

fn build_4p(reds: RedFiveCounts) -> (v: Vec<Tile>)
    ensures
        v@ == wall_4p(reds),
{
    let mut v: Vec<Tile> = Vec::new();
    let mut i: u8 = 0;
    while i < 136
        invariant
            i <= 136,
            v@ == wall_4p(reds).subrange(0, i as int),
        decreases 136 - i,
    {
        v.push(tile_copy(i / 4, i % 4, reds));
        assert(v@ =~= wall_4p(reds).subrange(0, i + 1));
        i = i + 1;
    }
    assert(v@ =~= wall_4p(reds));
    v
}

fn build_3p(reds: RedFiveCounts) -> (v: Vec<Tile>)
    ensures
        v@ == wall_3p(reds),
{
    let mut v: Vec<Tile> = Vec::new();
    let mut i: u8 = 0;
    while i < 108
        invariant
            i <= 108,
            v@ == wall_3p(reds).subrange(0, i as int),
        decreases 108 - i,
    {
        let k: u8 = if i < 4 { 0 } else if i < 8 { 8 } else { 9 + (i - 8) / 4 };
        v.push(tile_copy(k, i % 4, reds));
        assert(v@ =~= wall_3p(reds).subrange(0, i + 1));
        i = i + 1;
    }
    assert(v@ =~= wall_3p(reds));
    v
}

/// Four-player wall: 136 tiles, with one red 5m, 5p and 5s.
pub fn tileset_4p() -> (v: Vec<Tile>)
    ensures
        v@ == wall_4p(RedFiveCounts { man: 1, pin: 1, sou: 1 }),
{
    build_4p(RedFiveCounts { man: 1, pin: 1, sou: 1 })
}

/// Four-player wall with the given red five counts.
pub fn tileset_4p_with_red_fives(red_fives: RedFiveCounts) -> (r: Result<Vec<Tile>, String>)
    ensures
        match r {
            Ok(v) => red_fives.fault(4) is None && v@ == wall_4p(red_fives),
            Err(e) => red_fives.fault(4) == Some(e@),
        },
{
    match red_fives.validate_for_players(4) {
        Ok(_) => Ok(build_4p(red_fives)),
        Err(e) => Err(e),
    }
}

/// Three-player wall: 108 tiles. Manzu has 1m and 9m only; the red fives are 5pr and 5sr.
pub fn tileset_3p() -> (v: Vec<Tile>)
    ensures
        v@ == wall_3p(RedFiveCounts { man: 0, pin: 1, sou: 1 }),
{
    build_3p(RedFiveCounts { man: 0, pin: 1, sou: 1 })
}

/// Three-player wall with the given red five counts; `man` must be 0.
pub fn tileset_3p_with_red_fives(red_fives: RedFiveCounts) -> (r: Result<Vec<Tile>, String>)
    ensures
        match r {
            Ok(v) => red_fives.fault(3) is None && v@ == wall_3p(red_fives),
            Err(e) => red_fives.fault(3) == Some(e@),
        },
{
    match red_fives.validate_for_players(3) {
        Ok(_) => Ok(build_3p(red_fives)),
        Err(e) => Err(e),
    }
}

/// How many red fives of a suit a list holds.
pub open spec fn count_red(tiles: Seq<Tile>, id: int) -> nat
    decreases tiles.len(),
{
    if tiles.len() == 0 { 0 } else { count_red(tiles.drop_last(), id) + if tiles.last().id() == id { 1nat } else { 0 } }
}

spec fn clamp4(x: int) -> nat {
    if x < 0 { 0 } else if x > 4 { 4 } else { x as nat }
}

proof fn lemma_wall_tile_kind(k: int, copy: int, reds: RedFiveCounts)
    requires
        0 <= k < 34,
        0 <= copy,
    ensures
        wall_tile(k, copy, reds).kind() == k,
        wall_tile(k, copy, reds).is_aka() == (copy < reds_of_kind(k, reds)),
        reds_of_kind(k, reds) > 0 ==> (copy < reds_of_kind(k, reds) ==> wall_tile(k, copy, reds).id() == 34 + k / 9),
{
}

proof fn lemma_wall_4p_prefix(reds: RedFiveCounts, n: int, k: int)
    requires
        0 <= n <= 136,
        0 <= k < 34,
    ensures
        count_kind(wall_4p(reds).subrange(0, n), k) == clamp4(n - 4 * k),
    decreases n,
{
    if n > 0 {
        lemma_wall_4p_prefix(reds, n - 1, k);
        let s = wall_4p(reds).subrange(0, n);
        assert(s.drop_last() =~= wall_4p(reds).subrange(0, n - 1));
        lemma_wall_tile_kind((n - 1) / 4, (n - 1) % 4, reds);
    }
}

/// Place of a kind in the three-player set.
spec fn place_3p(k: int) -> int {
    if k == 0 { 0 } else if k == 8 { 4 } else { 8 + 4 * (k - 9) }
}

proof fn lemma_wall_3p_prefix(reds: RedFiveCounts, n: int, k: int)
    requires
        0 <= n <= 108,
        0 <= k < 34,
    ensures
        count_kind(wall_3p(reds).subrange(0, n), k) == if 1 <= k <= 7 { 0 } else { clamp4(n - place_3p(k)) },
    decreases n,
{
    if n > 0 {
        lemma_wall_3p_prefix(reds, n - 1, k);
        let s = wall_3p(reds).subrange(0, n);
        assert(s.drop_last() =~= wall_3p(reds).subrange(0, n - 1));
        lemma_wall_tile_kind(kind_3p(n - 1), (n - 1) % 4, reds);
    }
}

/// Each kind is in the four-player wall exactly four times.
pub proof fn wall_4p_has_four_of_each(reds: RedFiveCounts, k: int)
    requires
        0 <= k < 34,
    ensures
        wall_4p(reds).len() == 136,
        count_kind(wall_4p(reds), k) == 4,
{
    lemma_wall_4p_prefix(reds, 136, k);
    assert(wall_4p(reds).subrange(0, 136) =~= wall_4p(reds));
}

/// Each kind but 2m..8m is in the three-player wall exactly four times, and those not at all.
pub proof fn wall_3p_has_four_of_each(reds: RedFiveCounts, k: int)
    requires
        0 <= k < 34,
    ensures
        wall_3p(reds).len() == 108,
        count_kind(wall_3p(reds), k) == if 1 <= k <= 7 { 0nat } else { 4 },
{
    lemma_wall_3p_prefix(reds, 108, k);
    assert(wall_3p(reds).subrange(0, 108) =~= wall_3p(reds));
}

proof fn lemma_red_prefix(reds: RedFiveCounts, n: int, s: int)
    requires
        0 <= n <= 136,
        0 <= s < 3,
        reds.fault(4) is None,
    ensures
        count_red(wall_4p(reds).subrange(0, n), 34 + s) == ({
            let seen = n - 4 * (9 * s + 4);
            let all = reds_of_kind(9 * s + 4, reds);
            if seen <= 0 { 0 } else if seen < all { seen as nat } else { all as nat }
        }),
    decreases n,
{
    if n > 0 {
        lemma_red_prefix(reds, n - 1, s);
        let t = wall_4p(reds).subrange(0, n);
        assert(t.drop_last() =~= wall_4p(reds).subrange(0, n - 1));
        let k = (n - 1) / 4;
        let copy = (n - 1) % 4;
        lemma_wall_tile_kind(k, copy, reds);
        assert(t.last() == wall_tile(k, copy, reds));
        assert(t.last().id() == 34 + s <==> k == 9 * s + 4 && copy < reds_of_kind(k, reds));
    }
}

/// The four-player wall has as many red fives of each suit as the counts say.
pub proof fn wall_4p_has_the_red_fives(reds: RedFiveCounts)
    requires
        reds.fault(4) is None,
    ensures
        count_red(wall_4p(reds), 34) == reds.man,
        count_red(wall_4p(reds), 35) == reds.pin,
        count_red(wall_4p(reds), 36) == reds.sou,
{
    lemma_red_prefix(reds, 136, 0);
    lemma_red_prefix(reds, 136, 1);
    lemma_red_prefix(reds, 136, 2);
    assert(wall_4p(reds).subrange(0, 136) =~= wall_4p(reds));
}

// Tiles of calls.

/// A pair of tiles from hand.
pub type Pair = (Tile, Tile);

pub open spec fn pair_views(v: Seq<[Tile; 2]>) -> Seq<Pair> {
    v.map_values(|p: [Tile; 2]| (p@[0], p@[1]))
}

/// A list with one more pair, unless it is there already.
pub open spec fn with_pair(s: Seq<Pair>, p: Pair) -> Seq<Pair> {
    if s.contains(p) { s } else { s.push(p) }
}

/// The tiles of a rank and suit, in order.
pub open spec fn of_rank(hand: Seq<Tile>, suit: Suit, n: int) -> Seq<Tile>
    decreases hand.len(),
{
    if hand.len() == 0 {
        Seq::empty()
    } else {
        let rest = of_rank(hand.drop_last(), suit, n);
        let t = hand.last();
        if t.suit() == suit && t.rank() is Some && t.rank()->0 == n { rest.push(t) } else { rest }
    }
}

/// A list with the pairs of one tile and each of others.
pub open spec fn with_pairs_of(s: Seq<Pair>, a: Tile, right: Seq<Tile>) -> Seq<Pair>
    decreases right.len(),
{
    if right.len() == 0 { s } else { with_pair(with_pairs_of(s, a, right.drop_last()), (a, right.last())) }
}

/// A list with the pairs of a left and a right tile.
pub open spec fn with_pairs(s: Seq<Pair>, left: Seq<Tile>, right: Seq<Tile>) -> Seq<Pair>
    decreases left.len(),
{
    if left.len() == 0 { s } else { with_pairs_of(with_pairs(s, left.drop_last(), right), left.last(), right) }
}

/// A list with the pairs of two ranks, where both exist.
pub open spec fn with_ranks(s: Seq<Pair>, hand: Seq<Tile>, suit: Suit, a: int, b: int) -> Seq<Pair> {
    if 1 <= a && b <= 9 { with_pairs(s, of_rank(hand, suit, a), of_rank(hand, suit, b)) } else { s }
}

/// The pairs from hand that form a sequence with a called tile, as its lowest, middle and
/// highest tile.
pub open spec fn chi_pairs(hand: Seq<Tile>, called: Tile) -> Seq<Pair> {
    match called.rank() {
        None => Seq::empty(),
        Some(r) => {
            let s = called.suit();
            let low = with_ranks(Seq::empty(), hand, s, r + 1, r + 2);
            let mid = with_ranks(low, hand, s, r - 1, r + 1);
            with_ranks(mid, hand, s, r - 2, r - 1)
        },
    }
}

fn push_pair(out: &mut Vec<[Tile; 2]>, a: Tile, b: Tile)
    ensures
        pair_views(final(out)@) == with_pair(pair_views(old(out)@), (a, b)),
{
    let ghost s = pair_views(out@);
    let mut i: usize = 0;
    while i < out.len()
        invariant
            i <= out.len(),
            s == pair_views(out@),
            *out == *old(out),
            forall|j: int| 0 <= j < i ==> s[j] != (a, b),
        decreases out.len() - i,
    {
        if out[i][0] == a && out[i][1] == b {
            assert(s[i as int] == (a, b));
            return;
        }
        i = i + 1;
    }
    out.push([a, b]);
    assert(pair_views(out@) =~= s.push((a, b)));
}

fn matching(hand: &[Tile], suit: Suit, n: u8) -> (r: Vec<Tile>)
    ensures
        r@ == of_rank(hand@, suit, n as int),
{
    let mut r: Vec<Tile> = Vec::new();
    let mut i: usize = 0;
    assert(hand@.subrange(0, 0) =~= Seq::empty());
    while i < hand.len()
        invariant
            i <= hand.len(),
            r@ == of_rank(hand@.subrange(0, i as int), suit, n as int),
        decreases hand.len() - i,
    {
        assert(hand@.subrange(0, i + 1).drop_last() =~= hand@.subrange(0, i as int));
        let t = hand[i];
        if t.suit() == suit {
            match t.rank() {
                Some(k) => {
                    if k == n {
                        r.push(t);
                    }
                },
                None => {},
            }
        }
        i = i + 1;
    }
    assert(hand@.subrange(0, i as int) =~= hand@);
    r
}

fn push_ranks(out: &mut Vec<[Tile; 2]>, hand: &[Tile], suit: Suit, a: u8, b: u8)
    ensures
        pair_views(final(out)@) == with_pairs(
            pair_views(old(out)@),
            of_rank(hand@, suit, a as int),
            of_rank(hand@, suit, b as int),
        ),
{
    let left = matching(hand, suit, a);
    let right = matching(hand, suit, b);
    let ghost s = pair_views(out@);
    let mut i: usize = 0;
    assert(left@.subrange(0, 0) =~= Seq::empty());
    while i < left.len()
        invariant
            i <= left.len(),
            pair_views(out@) == with_pairs(s, left@.subrange(0, i as int), right@),
        decreases left.len() - i,
    {
        assert(left@.subrange(0, i + 1).drop_last() =~= left@.subrange(0, i as int));
        let ghost t = pair_views(out@);
        let mut j: usize = 0;
        assert(right@.subrange(0, 0) =~= Seq::empty());
        while j < right.len()
            invariant
                i < left.len(),
                j <= right.len(),
                pair_views(out@) == with_pairs_of(t, left@[i as int], right@.subrange(0, j as int)),
            decreases right.len() - j,
        {
            assert(right@.subrange(0, j + 1).drop_last() =~= right@.subrange(0, j as int));
            push_pair(out, left[i], right[j]);
            j = j + 1;
        }
        assert(right@.subrange(0, j as int) =~= right@);
        i = i + 1;
    }
    assert(left@.subrange(0, i as int) =~= left@);
}

/// Every pair of hand tiles that forms a sequence with the called tile, red five choices
/// apart. The lower tile of a pair comes first.
pub fn chi_combos(hand: &[Tile], called: Tile) -> (out: Vec<[Tile; 2]>)
    ensures
        pair_views(out@) == chi_pairs(hand@, called),
{
    let mut out: Vec<[Tile; 2]> = Vec::new();
    assert(pair_views(out@) =~= Seq::empty());
    match called.rank() {
        None => {},
        Some(r) => {
            let suit = called.suit();
            if r <= 7 {
                push_ranks(&mut out, hand, suit, r + 1, r + 2);
            }
            if 2 <= r && r <= 8 {
                push_ranks(&mut out, hand, suit, r - 1, r + 1);
            }
            if 3 <= r {
                push_ranks(&mut out, hand, suit, r - 2, r - 1);
            }
        },
    }
    out
}

/// Two tiles by ascending ID.
pub open spec fn by_id(a: Tile, b: Tile) -> Pair {
    if b.id() < a.id() { (b, a) } else { (a, b) }
}

/// A list with the pairs of the tile at `i` and those at `i + 1` up to `j`.
pub open spec fn with_later(s: Seq<Pair>, tiles: Seq<Tile>, i: int, j: int) -> Seq<Pair>
    decreases j - i,
{
    if j <= i + 1 { s } else { with_pair(with_later(s, tiles, i, j - 1), by_id(tiles[i], tiles[j - 1])) }
}

/// The pairs whose first tile is below position `n`.
pub open spec fn pairs_below(tiles: Seq<Tile>, n: int) -> Seq<Pair>
    decreases n,
{
    if n <= 0 { Seq::empty() } else { with_later(pairs_below(tiles, n - 1), tiles, n - 1, tiles.len() as int) }
}

/// Every pair of tiles of the same kind, red five choices apart.
pub fn pon_pair_combos(same_kind_tiles: &[Tile]) -> (out: Vec<[Tile; 2]>)
    ensures
        pair_views(out@) == pairs_below(same_kind_tiles@, same_kind_tiles@.len() as int),
{
    let ghost tiles = same_kind_tiles@;
    let mut out: Vec<[Tile; 2]> = Vec::new();
    assert(pair_views(out@) =~= Seq::empty());
    let mut i: usize = 0;
    while i < same_kind_tiles.len()
        invariant
            i <= same_kind_tiles.len(),
            tiles == same_kind_tiles@,
            pair_views(out@) == pairs_below(tiles, i as int),
        decreases same_kind_tiles.len() - i,
    {
        let ghost s = pair_views(out@);
        let mut j: usize = i + 1;
        while j < same_kind_tiles.len()
            invariant
                i < j <= same_kind_tiles.len(),
                tiles == same_kind_tiles@,
                pair_views(out@) == with_later(s, tiles, i as int, j as int),
            decreases same_kind_tiles.len() - j,
        {
            let a = same_kind_tiles[i];
            let b = same_kind_tiles[j];
            if b.id() < a.id() {
                push_pair(&mut out, b, a);
            } else {
                push_pair(&mut out, a, b);
            }
            j = j + 1;
        }
        i = i + 1;
    }
    out
}

/// The first position of a tile, the length of the list where it is not there.
pub open spec fn first_of(s: Seq<Tile>, t: Tile) -> int
    decreases s.len(),
{
    if s.len() == 0 { 0 } else if s[0] == t { 0 } else { 1 + first_of(s.drop_first(), t) }
}

/// A list without the first copy of a tile.
pub open spec fn without(s: Seq<Tile>, t: Tile) -> Seq<Tile> {
    if first_of(s, t) < s.len() { s.remove(first_of(s, t)) } else { s }
}

/// A list without one copy of each of some tiles.
pub open spec fn without_all(s: Seq<Tile>, tiles: Seq<Tile>) -> Seq<Tile>
    decreases tiles.len(),
{
    if tiles.len() == 0 { s } else { without(without_all(s, tiles.drop_last()), tiles.last()) }
}

pub proof fn lemma_first_of(s: Seq<Tile>, t: Tile)
    ensures
        0 <= first_of(s, t) <= s.len(),
        first_of(s, t) < s.len() ==> s[first_of(s, t)] == t,
        first_of(s, t) < s.len() <==> s.contains(t),
        forall|i: int| 0 <= i < first_of(s, t) ==> s[i] != t,
    decreases s.len(),
{
    if s.len() > 0 {
        let rest = s.drop_first();
        lemma_first_of(rest, t);
        if s[0] != t {
            assert forall|i: int| 0 <= i < first_of(s, t) implies s[i] != t by {
                if i > 0 {
                    assert(rest[i - 1] == s[i]);
                }
            }
            if s.contains(t) {
                let i = choose|i: int| 0 <= i < s.len() && s[i] == t;
                assert(rest[i - 1] == t);
            }
            if first_of(s, t) < s.len() {
                assert(s[first_of(s, t)] == rest[first_of(rest, t)]);
            }
        }
    }
}

/// Position of the first copy of a tile.
pub fn position(v: &Vec<Tile>, t: Tile) -> (r: Option<usize>)
    ensures
        match r {
            Some(i) => i < v@.len() && i == first_of(v@, t),
            None => first_of(v@, t) == v@.len() && !v@.contains(t),
        },
{
    let mut i: usize = 0;
    proof { lemma_first_of(v@, t); }
    while i < v.len()
        invariant
            i <= v.len(),
            i <= first_of(v@, t),
        decreases v.len() - i,
    {
        proof { lemma_first_of(v@, t); }
        if v[i] == t {
            return Some(i);
        }
        i = i + 1;
    }
    None
}

pub fn clone_tiles(v: &[Tile]) -> (r: Vec<Tile>)
    ensures
        r@ == v@,
{
    let mut r: Vec<Tile> = Vec::new();
    let mut i: usize = 0;
    while i < v.len()
        invariant
            i <= v.len(),
            r@ == v@.subrange(0, i as int),
        decreases v.len() - i,
    {
        r.push(v[i]);
        assert(r@ =~= v@.subrange(0, i + 1));
        i = i + 1;
    }
    assert(r@ =~= v@);
    r
}

/// Takes one copy of a tile away, if there is one.
pub fn take_one(v: &mut Vec<Tile>, t: Tile) -> (found: bool)
    ensures
        final(v)@ == without(old(v)@, t),
        found == old(v)@.contains(t),
{
    proof { lemma_first_of(v@, t); }
    match position(v, t) {
        Some(i) => {
            v.remove(i);
            true
        },
        None => false,
    }
}

pub fn has_kind(v: &[usize], k: usize) -> (r: bool)
    ensures
        r == v@.contains(k),
{
    let mut i: usize = 0;
    while i < v.len()
        invariant
            i <= v.len(),
            forall|j: int| 0 <= j < i ==> v@[j] != k,
        decreases v.len() - i,
    {
        if v[i] == k {
            assert(v@.contains(k));
            return true;
        }
        i = i + 1;
    }
    false
}

/// A call leaves a tile that may be discarded, or forbids nothing.
pub open spec fn leaves_discard(hand: Seq<Tile>, consumed: Seq<Tile>, forbidden: Seq<usize>) -> bool {
    forbidden.len() == 0 || exists|i: int|
        0 <= i < without_all(hand, consumed).len() && !forbidden.contains(
            (#[trigger] without_all(hand, consumed)[i]).kind(),
        )
}

/// Whether at least one tile can still be discarded after a call. `hand` is the closed hand
/// before the call, `consumed` the tiles it uses and `forbidden` the kinds forbidden after it.
pub fn call_leaves_legal_discard(hand: &[Tile], consumed: &[Tile], forbidden: &[usize]) -> (r: bool)
    ensures
        r == leaves_discard(hand@, consumed@, forbidden@),
{
    if forbidden.len() == 0 {
        return true;
    }
    let mut rest = clone_tiles(hand);
    let mut i: usize = 0;
    assert(consumed@.subrange(0, 0) =~= Seq::empty());
    while i < consumed.len()
        invariant
            i <= consumed.len(),
            rest@ == without_all(hand@, consumed@.subrange(0, i as int)),
        decreases consumed.len() - i,
    {
        assert(consumed@.subrange(0, i + 1).drop_last() =~= consumed@.subrange(0, i as int));
        take_one(&mut rest, consumed[i]);
        i = i + 1;
    }
    assert(consumed@.subrange(0, i as int) =~= consumed@);
    let mut j: usize = 0;
    while j < rest.len()
        invariant
            j <= rest.len(),
            rest@ == without_all(hand@, consumed@),
            forbidden@.len() > 0,
            forall|l: int| 0 <= l < j ==> forbidden@.contains((#[trigger] rest@[l]).kind()),
        decreases rest.len() - j,
    {
        if !has_kind(forbidden, rest[j].kind()) {
            assert(!forbidden@.contains(rest@[j as int].kind()));
            return true;
        }
        j = j + 1;
    }
    false
}

/// A kind that forms a sequence of one suit with two tiles.
pub open spec fn completes_run(k: int, a: Tile, b: Tile) -> bool {
    let x = a.kind() as int;
    let y = b.kind() as int;
    0 <= k < 27 && x < 27 && y < 27 && k / 9 == x / 9 && k / 9 == y / 9 && ((x == k + 1 && y == k + 2) || (y == k + 1 && x
        == k + 2) || (x == k - 1 && y == k + 1) || (y == k - 1 && x == k + 1) || (x == k - 1 && y == k - 2) || (y
        == k - 1 && x == k - 2))
}

/// The kinds that complete the sequence of a chi again, and the called kind.
pub open spec fn forbidden_after_chi(called: Tile, a: Tile, b: Tile) -> Seq<usize> {
    let runs = crate::mahjong::hand::kinds_below(27, |k: int| completes_run(k, a, b));
    if runs.contains(called.kind()) { runs } else { runs.push(called.kind()) }
}

/// Kinds that may not be discarded right after a chi: those that would form the same
/// sequence with the two consumed tiles, at either end.
pub fn kuikae_forbidden_after_chi(called: Tile, consumed: [Tile; 2]) -> (r: Vec<usize>)
    ensures
        r@ == forbidden_after_chi(called, consumed@[0], consumed@[1]),
{
    let ghost p = |k: int| completes_run(k, consumed@[0], consumed@[1]);
    let x: usize = consumed[0].kind();
    let y: usize = consumed[1].kind();
    let mut forbidden: Vec<usize> = Vec::new();
    let mut k: usize = 0;
    while k < 27
        invariant
            k <= 27,
            x == consumed@[0].kind(),
            y == consumed@[1].kind(),
            p == (|j: int| completes_run(j, consumed@[0], consumed@[1])),
            x < 34 || x == 37,
            y < 34 || y == 37,
            forbidden@ == crate::mahjong::hand::kinds_below(k as nat, p),
        decreases 27 - k,
    {
        if x < 27 && y < 27 && k / 9 == x / 9 && k / 9 == y / 9 {
            let low: usize = if x < y { x } else { y };
            let high: usize = if x < y { y } else { x };
            if (low == k + 1 && high == k + 2) || (low + 1 == k && high == k + 1) || (low + 2 == k && high + 1 == k) {
                forbidden.push(k);
            }
        }
        k = k + 1;
    }
    if !has_kind(&forbidden, called.kind()) {
        forbidden.push(called.kind());
    }
    forbidden
}

} // verus!
