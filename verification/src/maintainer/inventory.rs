//! Inventory of the physical tiles that a mirror has seen in a hand. It records first
//! reveals: a tile that moves from hand to discards or melds is not counted again, and another
//! seat's hidden tile is counted when it is first discarded or called.

use vstd::prelude::*;
use vstd::string::*;
use crate::mahjong::rules::{RedFiveCounts, RiichiRuleProfile};
use crate::mahjong::tile::Tile;
use crate::maintainer::tileset::reds_of_kind;
use crate::text::{dec, dec_usize, join2};

verus! {

/// Tiles seen: plain ones by kind, red fives by suit.
#[derive(Debug, Clone, Copy, PartialEq, Eq)]
pub struct KnownTileInventory {
    pub normal: [u8; 34],
    pub red: [u8; 3],
}

/// What an inventory says.
pub struct Seen {
    pub normal: Seq<u8>,
    pub red: Seq<u8>,
}

impl View for KnownTileInventory {
    type V = Seen;

    open spec fn view(&self) -> Seen {
        Seen { normal: self.normal@, red: self.red@ }
    }
}

/// Nothing seen.
pub open spec fn nothing_seen() -> Seen {
    Seen { normal: Seq::new(34, |i: int| 0u8), red: Seq::new(3, |i: int| 0u8) }
}

impl Default for KnownTileInventory {
    fn default() -> (r: Self)
        ensures
            r@ == nothing_seen(),
    {
        let r = KnownTileInventory { normal: [0; 34], red: [0; 3] };
        assert(r.normal@ =~= nothing_seen().normal);
        assert(r.red@ =~= nothing_seen().red);
        r
    }
}

/// Whether a kind is a five.
pub open spec fn is_five_kind(k: int) -> bool {
    k == 4 || k == 13 || k == 22
}

/// What is wrong with the copies of a kind: more red or plain fives than the rules have, or a
/// fifth copy.
pub open spec fn kind_fault(s: Seen, k: int, reds: RedFiveCounts) -> Option<Seq<char>> {
    if is_five_kind(k) {
        let red = s.red[k / 9] as int;
        let normal = s.normal[k] as int;
        let limit = reds_of_kind(k, reds);
        if red > limit {
            Some(
                "known_tiles: red five count "@ + dec(red as nat) + " exceeds profile limit "@ + dec(limit as nat)
                    + " for kind "@ + dec(k as nat),
            )
        } else if normal > 4 - limit {
            Some(
                "known_tiles: normal five count "@ + dec(normal as nat) + " exceeds profile limit "@ + dec(
                    (4 - limit) as nat,
                ) + " for kind "@ + dec(k as nat),
            )
        } else {
            None
        }
    } else if s.normal[k] > 4 {
        Some("known_tiles: fifth physical copy of kind "@ + dec(k as nat))
    } else {
        None
    }
}

/// The inventory with one more tile.
pub open spec fn with_seen(s: Seen, t: Tile) -> Seen {
    let k = t.kind() as int;
    if t.is_aka() {
        Seen { red: s.red.update(k / 9, (s.red[k / 9] + 1) as u8), ..s }
    } else {
        Seen { normal: s.normal.update(k, (s.normal[k] + 1) as u8), ..s }
    }
}

/// The inventory after a tile is seen, or what is wrong with it. Unknown tiles are not counted.
pub open spec fn observed(s: Seen, t: Tile, seats: usize, profile: RiichiRuleProfile) -> Result<Seen, Seq<char>> {
    let k = t.kind() as int;
    if !t.is_known() {
        Ok(s)
    } else if seats == 3 && 1 <= k <= 7 {
        Err("known_tiles: invalid sanma tile "@ + t.spec_name())
    } else if t.is_aka() && s.red[k / 9] == 255 {
        Err("known_tiles: red count overflow for "@ + t.spec_name())
    } else if !t.is_aka() && s.normal[k] == 255 {
        Err("known_tiles: normal count overflow for "@ + t.spec_name())
    } else {
        let next = with_seen(s, t);
        match kind_fault(next, k, profile.red_fives(seats)) {
            Some(e) => Err(e),
            None => Ok(next),
        }
    }
}

/// The inventory after tiles are seen one by one, or what is wrong with the first that does
/// not fit.
pub open spec fn observed_all(s: Seen, tiles: Seq<Tile>, seats: usize, profile: RiichiRuleProfile) -> Result<Seen, Seq<char>>
    decreases tiles.len(),
{
    if tiles.len() == 0 {
        Ok(s)
    } else {
        match observed_all(s, tiles.drop_last(), seats, profile) {
            Err(e) => Err(e),
            Ok(n) => observed(n, tiles.last(), seats, profile),
        }
    }
}

fn count_text(head: &str, count: u8, limit: u8, kind: usize) -> (r: String)
    ensures
        r@ == head@ + dec(count as nat) + " exceeds profile limit "@ + dec(limit as nat) + " for kind "@ + dec(kind as nat),
{
    let mut r = join2(head, dec_usize(count as usize).as_str());
    r.append(" exceeds profile limit ");
    r.append(dec_usize(limit as usize).as_str());
    r.append(" for kind ");
    r.append(dec_usize(kind).as_str());
    r
}

impl KnownTileInventory {
    fn validate_kind(&self, kind: usize, reds: RedFiveCounts) -> (r: Result<(), String>)
        requires
            kind < 34,
            reds_of_kind(kind as int, reds) <= 4,
        ensures
            match r {
                Ok(_) => kind_fault(self@, kind as int, reds) is None,
                Err(e) => kind_fault(self@, kind as int, reds) == Some(e@),
            },
    {
        if kind == 4 || kind == 13 || kind == 22 {
            let limit: u8 = if kind == 4 { reds.man } else if kind == 13 { reds.pin } else { reds.sou };
            let red: u8 = self.red[kind / 9];
            let normal: u8 = self.normal[kind];
            if red > limit {
                return Err(count_text("known_tiles: red five count ", red, limit, kind));
            }
            let normal_limit: u8 = 4 - limit;
            if normal > normal_limit {
                return Err(count_text("known_tiles: normal five count ", normal, normal_limit, kind));
            }
        } else if self.normal[kind] > 4 {
            return Err(join2("known_tiles: fifth physical copy of kind ", dec_usize(kind).as_str()));
        }
        Ok(())
    }

    /// The inventory with one more tile seen.
    pub fn observe(&self, tile: Tile, seats: usize, profile: RiichiRuleProfile) -> (r: Result<KnownTileInventory, String>)
        requires
            profile.red_fives(seats).man <= 4,
            profile.red_fives(seats).pin <= 4,
            profile.red_fives(seats).sou <= 4,
        ensures
            match r {
                Ok(n) => observed(self@, tile, seats, profile) == Ok::<Seen, Seq<char>>(n@),
                Err(e) => observed(self@, tile, seats, profile) == Err::<Seen, Seq<char>>(e@),
            },
    {
        if tile.is_unknown() {
            return Ok(*self);
        }
        let kind: usize = tile.kind();
        if seats == 3 && 1 <= kind && kind <= 7 {
            return Err(join2("known_tiles: invalid sanma tile ", tile.as_str()));
        }
        let mut next = *self;
        if tile.is_aka() {
            let suit: usize = kind / 9;
            let n: u8 = next.red[suit];
            if n == 255 {
                return Err(join2("known_tiles: red count overflow for ", tile.as_str()));
            }
            next.red[suit] = n + 1;
        } else {
            let n: u8 = next.normal[kind];
            if n == 255 {
                return Err(join2("known_tiles: normal count overflow for ", tile.as_str()));
            }
            next.normal[kind] = n + 1;
        }
        assert(next@.normal =~= with_seen(self@, tile).normal);
        assert(next@.red =~= with_seen(self@, tile).red);
        match next.validate_kind(kind, profile.red_fives(seats)) {
            Ok(_) => Ok(next),
            Err(e) => Err(e),
        }
    }

    /// The inventory with further tiles seen.
    pub fn observe_all(&self, tiles: &[Tile], seats: usize, profile: RiichiRuleProfile) -> (r: Result<KnownTileInventory, String>)
        requires
            profile.red_fives(seats).man <= 4,
            profile.red_fives(seats).pin <= 4,
            profile.red_fives(seats).sou <= 4,
        ensures
            match r {
                Ok(n) => observed_all(self@, tiles@, seats, profile) == Ok::<Seen, Seq<char>>(n@),
                Err(e) => observed_all(self@, tiles@, seats, profile) == Err::<Seen, Seq<char>>(e@),
            },
    {
        let mut next = *self;
        let mut i: usize = 0;
        assert(tiles@.subrange(0, 0) =~= Seq::empty());
        while i < tiles.len()
            invariant
                i <= tiles.len(),
                profile.red_fives(seats).man <= 4,
                profile.red_fives(seats).pin <= 4,
                profile.red_fives(seats).sou <= 4,
                observed_all(self@, tiles@.subrange(0, i as int), seats, profile) == Ok::<Seen, Seq<char>>(next@),
            decreases tiles.len() - i,
        {
            let ghost s = tiles@.subrange(0, i + 1);
            assert(s.drop_last() =~= tiles@.subrange(0, i as int));
            match next.observe(tiles[i], seats, profile) {
                Ok(n) => {
                    next = n;
                },
                Err(e) => {
                    proof { lemma_first_error_stays(self@, tiles@, i + 1, seats, profile); }
                    return Err(e);
                },
            }
            i = i + 1;
        }
        assert(tiles@.subrange(0, i as int) =~= tiles@);
        Ok(next)
    }
}

proof fn lemma_first_error_stays(s: Seen, tiles: Seq<Tile>, n: int, seats: usize, profile: RiichiRuleProfile)
    requires
        0 <= n <= tiles.len(),
        observed_all(s, tiles.subrange(0, n), seats, profile) is Err,
    ensures
        observed_all(s, tiles, seats, profile) == observed_all(s, tiles.subrange(0, n), seats, profile),
    decreases tiles.len(),
{
    if n == tiles.len() {
        assert(tiles.subrange(0, n) =~= tiles);
    } else {
        assert(tiles.drop_last().subrange(0, n) =~= tiles.subrange(0, n));
        lemma_first_error_stays(s, tiles.drop_last(), n, seats, profile);
    }
}

/// No kind is counted more than four times, fives and red fives together.
pub open spec fn within_four(s: Seen) -> bool {
    &&& s.normal.len() == 34
    &&& s.red.len() == 3
    &&& forall|k: int| 0 <= k < 34 && !is_five_kind(k) ==> #[trigger] s.normal[k] <= 4
    &&& s.normal[4] + s.red[0] <= 4
    &&& s.normal[13] + s.red[1] <= 4
    &&& s.normal[22] + s.red[2] <= 4
}

/// Seeing a tile keeps every kind within four copies: a fifth copy is refused.
pub proof fn inventory_stays_within_four(s: Seen, t: Tile, seats: usize, profile: RiichiRuleProfile)
    requires
        within_four(s),
        observed(s, t, seats, profile) is Ok,
    ensures
        within_four(observed(s, t, seats, profile)->Ok_0),
{
    let n = observed(s, t, seats, profile)->Ok_0;
    if t.is_known() {
        let k = t.kind() as int;
        assert(kind_fault(n, k, profile.red_fives(seats)) is None);
        assert forall|j: int| 0 <= j < 34 && !is_five_kind(j) implies #[trigger] n.normal[j] <= 4 by {
            assert(s.normal[j] <= 4);
        }
    }
}

} // verus!
