//! Win detection and ukeire.

use vstd::prelude::*;
use crate::mahjong::hand::{kinds_below, lemma_kinds_below, TileCounts};
use crate::mahjong::shanten::{kind_in_wall, shanten_for, shanten_value, AGARI, TENPAI};

verus! {

/// The counts with one more tile of a kind.
pub open spec fn with_tile(c: Seq<u8>, k: int) -> Seq<u8> {
    c.update(k, (c[k] + 1) as u8)
}

/// A complete shape.
pub open spec fn is_win(c: Seq<u8>, melds: u8, sanma: bool) -> bool {
    shanten_value(c, melds, sanma) == AGARI
}

/// A kind that can still be drawn and brings the hand closer to completion.
pub open spec fn advances(c: Seq<u8>, melds: u8, sanma: bool, k: int) -> bool {
    &&& kind_in_wall(k, sanma)
    &&& c[k] < 4
    &&& shanten_value(with_tile(c, k), melds, sanma) < shanten_value(c, melds, sanma)
}

/// A kind that can still be drawn and completes a hand in tenpai.
pub open spec fn completes(c: Seq<u8>, melds: u8, sanma: bool, k: int) -> bool {
    &&& shanten_value(c, melds, sanma) == TENPAI
    &&& kind_in_wall(k, sanma)
    &&& c[k] < 4
    &&& is_win(with_tile(c, k), melds, sanma)
}

/// The kinds that advance a hand, in ascending order.
pub open spec fn ukeire_kinds(c: Seq<u8>, melds: u8, sanma: bool) -> Seq<usize> {
    kinds_below(34, |k: int| advances(c, melds, sanma, k))
}

/// The kinds that complete a hand, in ascending order.
pub open spec fn winning_kinds(c: Seq<u8>, melds: u8, sanma: bool) -> Seq<usize> {
    kinds_below(34, |k: int| completes(c, melds, sanma, k))
}

/// Whether the hand with the winning tile is a complete shape, yaku aside.
pub fn is_agari(concealed: &TileCounts, melds: u8) -> (r: bool)
    ensures
        r == is_win(concealed@, melds, false),
{
    shanten_for(concealed, melds, false) == AGARI
}

/// Three-player [`is_agari`].
pub fn is_agari_3p(concealed: &TileCounts, melds: u8) -> (r: bool)
    ensures
        r == is_win(concealed@, melds, true),
{
    shanten_for(concealed, melds, true) == AGARI
}

pub fn ukeire_for(concealed: &TileCounts, melds: u8, sanma: bool) -> (r: Vec<usize>)
    ensures
        r@ == ukeire_kinds(concealed@, melds, sanma),
{
    let ghost p = |k: int| advances(concealed@, melds, sanma, k);
    let cur: i8 = shanten_for(concealed, melds, sanma);
    let mut out: Vec<usize> = Vec::new();
    let mut k: usize = 0;
    while k < 34
        invariant
            k <= 34,
            cur == shanten_value(concealed@, melds, sanma),
            p == (|j: int| advances(concealed@, melds, sanma, j)),
            out@ == kinds_below(k as nat, p),
        decreases 34 - k,
    {
        if !(sanma && 1 <= k && k <= 7) && concealed.0[k] < 4 {
            let mut c = *concealed;
            c.0[k] = c.0[k] + 1;
            assert(c@ =~= with_tile(concealed@, k as int));
            if shanten_for(&c, melds, sanma) < cur {
                out.push(k);
            }
        }
        k = k + 1;
    }
    out
}

/// Tile kinds that would reduce shanten.
pub fn ukeire(concealed: &TileCounts, melds: u8) -> (r: Vec<usize>)
    ensures
        r@ == ukeire_kinds(concealed@, melds, false),
{
    ukeire_for(concealed, melds, false)
}

/// Three-player ukeire; never 2m..8m.
pub fn ukeire_3p(concealed: &TileCounts, melds: u8) -> (r: Vec<usize>)
    ensures
        r@ == ukeire_kinds(concealed@, melds, true),
{
    ukeire_for(concealed, melds, true)
}

pub fn winning_tiles_for(concealed: &TileCounts, melds: u8, sanma: bool) -> (r: Vec<usize>)
    ensures
        r@ == winning_kinds(concealed@, melds, sanma),
        r@.len() <= 34,
        forall|i: int| 0 <= i < r@.len() ==> #[trigger] r@[i] < 34 && completes(concealed@, melds, sanma, r@[i] as int),
{
    let ghost p = |k: int| completes(concealed@, melds, sanma, k);
    let tenpai = shanten_for(concealed, melds, sanma) == TENPAI;
    let mut out: Vec<usize> = Vec::new();
    let mut k: usize = 0;
    while k < 34
        invariant
            k <= 34,
            tenpai == (shanten_value(concealed@, melds, sanma) == TENPAI),
            p == (|j: int| completes(concealed@, melds, sanma, j)),
            out@ == kinds_below(k as nat, p),
        decreases 34 - k,
    {
        if tenpai && !(sanma && 1 <= k && k <= 7) && concealed.0[k] < 4 {
            let mut c = *concealed;
            c.0[k] = c.0[k] + 1;
            assert(c@ =~= with_tile(concealed@, k as int));
            if shanten_for(&c, melds, sanma) == AGARI {
                out.push(k);
            }
        }
        k = k + 1;
    }
    proof { lemma_kinds_below(34, p); }
    out
}

/// Winning tiles of a hand in tenpai.
pub fn winning_tiles(concealed: &TileCounts, melds: u8) -> (r: Vec<usize>)
    ensures
        r@ == winning_kinds(concealed@, melds, false),
{
    winning_tiles_for(concealed, melds, false)
}

/// Three-player winning tiles; never 2m..8m.
pub fn winning_tiles_3p(concealed: &TileCounts, melds: u8) -> (r: Vec<usize>)
    ensures
        r@ == winning_kinds(concealed@, melds, true),
{
    winning_tiles_for(concealed, melds, true)
}

/// A winning tile completes the hand, and brings it closer to completion; with the tile the
/// hand is a win. 2m..8m never win a three-player hand.
pub proof fn winning_tiles_complete(c: TileCounts, melds: u8, sanma: bool)
    ensures
        forall|k: int| 0 <= k < 34 ==> (winning_kinds(c@, melds, sanma).contains(k as usize) <==> #[trigger] completes(c@, melds, sanma, k)),
        forall|k: int|
            0 <= k < 34 && winning_kinds(c@, melds, sanma).contains(k as usize) ==> #[trigger] ukeire_kinds(
                c@,
                melds,
                sanma,
            ).contains(k as usize),
        forall|k: int|
            sanma && 1 <= k <= 7 ==> !#[trigger] winning_kinds(c@, melds, sanma).contains(k as usize)
                && !ukeire_kinds(c@, melds, sanma).contains(k as usize),
{
    let p = |k: int| completes(c@, melds, sanma, k);
    let q = |k: int| advances(c@, melds, sanma, k);
    lemma_kinds_below(34, p);
    lemma_kinds_below(34, q);
    assert forall|k: int| 0 <= k < 34 implies (winning_kinds(c@, melds, sanma).contains(k as usize) <==> #[trigger] completes(c@, melds, sanma, k)) by {
        assert(p(k) == completes(c@, melds, sanma, k));
    }
    assert forall|k: int| 0 <= k < 34 && winning_kinds(c@, melds, sanma).contains(k as usize) implies #[trigger] ukeire_kinds(c@, melds, sanma).contains(k as usize) by {
        assert(completes(c@, melds, sanma, k));
        assert(q(k));
    }
    assert forall|k: int| sanma && 1 <= k <= 7 implies !#[trigger] winning_kinds(c@, melds, sanma).contains(k as usize)
        && !ukeire_kinds(c@, melds, sanma).contains(k as usize) by {
        assert(!p(k));
        assert(!q(k));
        let ghost u = ukeire_kinds(c@, melds, sanma);
        if u.contains(k as usize) {
            let i = choose|i: int| 0 <= i < u.len() && u[i] == k as usize;
            assert(q(u[i] as int));
        }
    }
}

} // verus!
