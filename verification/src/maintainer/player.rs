//! State of one seat: hand, melds, discards, riichi and furiten.

use vstd::prelude::*;
use vstd::string::*;
use crate::mahjong::agari::{is_win, winning_kinds, winning_tiles_for, with_tile};
use crate::mahjong::calc::all_known;
use crate::mahjong::hand::{count_kind, TileCounts};
use crate::mahjong::meld::Meld;
use crate::mahjong::shanten::{shanten_for, shanten_value, AGARI, TENPAI};
use crate::mahjong::tile::Tile;
use crate::mahjong::yaku::{clone_melds, count_group_melds, group_meld_count};
use crate::maintainer::tileset::{clone_tiles, first_of, has_kind, lemma_first_of, position, without};
use crate::text::{join2, join3, owned};

verus! {

/// State of a seat.
#[derive(Debug)]
pub struct PlayerState {
    pub seat: u8,
    /// Three-player game: 1m and 9m are no ends of sequences.
    pub is_sanma: bool,
    /// Closed hand, red fives among it.
    pub hand: Vec<Tile>,
    /// The last tile of the hand, where it was just drawn.
    pub drawn_tile: Option<Tile>,
    pub melds: Vec<Meld>,
    /// Discards in order.
    pub discards: Vec<Tile>,
    /// Indices of discards called by other players; they void nagashi mangan.
    pub called_discards: Vec<usize>,
    pub riichi: bool,
    /// Declared on the first turn with no calls before it.
    pub double_riichi: bool,
    /// Index of the riichi declaration in the discards.
    pub riichi_discard_idx: Option<usize>,
    /// Ippatsu still possible.
    pub ippatsu: bool,
    /// Kinds forbidden for the discard right after a call.
    pub kuikae_forbidden: Vec<usize>,
    /// No melds other than closed kans.
    pub menzen: bool,
    /// A current wait is in the own discards.
    pub furiten: bool,
    /// Passed on a ron, until the seat's next discard.
    pub temporary_furiten: bool,
    /// Passed on a ron after riichi; no ron for the rest of the hand.
    pub riichi_furiten: bool,
}

/// What the state of a seat says.
pub struct SeatState {
    pub seat: u8,
    pub is_sanma: bool,
    pub hand: Seq<Tile>,
    pub drawn_tile: Option<Tile>,
    pub melds: Seq<Meld>,
    pub discards: Seq<Tile>,
    pub called_discards: Seq<usize>,
    pub riichi: bool,
    pub double_riichi: bool,
    pub riichi_discard_idx: Option<usize>,
    pub ippatsu: bool,
    pub kuikae_forbidden: Seq<usize>,
    pub menzen: bool,
    pub furiten: bool,
    pub temporary_furiten: bool,
    pub riichi_furiten: bool,
}

impl View for PlayerState {
    type V = SeatState;

    open spec fn view(&self) -> SeatState {
        SeatState {
            seat: self.seat,
            is_sanma: self.is_sanma,
            hand: self.hand@,
            drawn_tile: self.drawn_tile,
            melds: self.melds@,
            discards: self.discards@,
            called_discards: self.called_discards@,
            riichi: self.riichi,
            double_riichi: self.double_riichi,
            riichi_discard_idx: self.riichi_discard_idx,
            ippatsu: self.ippatsu,
            kuikae_forbidden: self.kuikae_forbidden@,
            menzen: self.menzen,
            furiten: self.furiten,
            temporary_furiten: self.temporary_furiten,
            riichi_furiten: self.riichi_furiten,
        }
    }
}

pub fn clone_kinds(v: &Vec<usize>) -> (r: Vec<usize>)
    ensures
        r@ == v@,
{
    let mut r: Vec<usize> = Vec::new();
    let mut i: usize = 0;
    while i < v.len()
        invariant
            i <= v.len(),
            r@ == v@.subrange(0, i as int),
        decreases v.len() - i,
    {
        r.push(v[i]);
        assert(r@ =~= v@.subrange(0, i + 1));
        i = i + 1;
    }
    assert(r@ =~= v@);
    r
}

impl Clone for PlayerState {
    fn clone(&self) -> (r: Self)
        ensures
            r@ == self@,
    {
        PlayerState {
            seat: self.seat,
            is_sanma: self.is_sanma,
            hand: clone_tiles(&self.hand),
            drawn_tile: self.drawn_tile,
            melds: clone_melds(&self.melds),
            discards: clone_tiles(&self.discards),
            called_discards: clone_kinds(&self.called_discards),
            riichi: self.riichi,
            double_riichi: self.double_riichi,
            riichi_discard_idx: self.riichi_discard_idx,
            ippatsu: self.ippatsu,
            kuikae_forbidden: clone_kinds(&self.kuikae_forbidden),
            menzen: self.menzen,
            furiten: self.furiten,
            temporary_furiten: self.temporary_furiten,
            riichi_furiten: self.riichi_furiten,
        }
    }
}

/// Tiles that can be counted by kind: all known, and no more of a kind than a byte holds.
pub open spec fn countable(tiles: Seq<Tile>) -> bool {
    all_known(tiles) && (tiles.len() <= 255 || forall|k: int| 0 <= k < 34 ==> #[trigger] count_kind(tiles, k) <= 255)
}

/// The counts of tiles by kind.
pub open spec fn counts_of(tiles: Seq<Tile>) -> Seq<u8> {
    Seq::new(34, |k: int| count_kind(tiles, k) as u8)
}

/// A kind is held no more often than there are tiles.
pub proof fn lemma_count_within_len(tiles: Seq<Tile>, k: int)
    ensures
        count_kind(tiles, k) <= tiles.len(),
    decreases tiles.len(),
{
    if tiles.len() > 0 {
        lemma_count_within_len(tiles.drop_last(), k);
    }
}

/// No kind of countable tiles exceeds a byte.
pub proof fn lemma_countable(tiles: Seq<Tile>)
    requires
        countable(tiles),
    ensures
        forall|k: int| 0 <= k < 34 ==> #[trigger] count_kind(tiles, k) <= 255,
        forall|k: int| 0 <= k < 34 ==> #[trigger] counts_of(tiles)[k] == count_kind(tiles, k),
{
    assert forall|k: int| 0 <= k < 34 implies #[trigger] count_kind(tiles, k) <= 255 by {
        lemma_count_within_len(tiles, k);
    }
}

/// Counts tiles by kind.
pub fn count_tiles(tiles: &Vec<Tile>) -> (r: TileCounts)
    requires
        countable(tiles@),
    ensures
        r@ == counts_of(tiles@),
{
    proof { lemma_countable(tiles@); }
    let r = TileCounts::from_tiles(tiles.as_slice());
    assert(r@ =~= counts_of(tiles@));
    r
}

/// Number of called groups as shanten takes it.
pub open spec fn open_groups(melds: Seq<Meld>) -> u8 {
    (group_meld_count(melds) % 256) as u8
}

/// The kinds that complete a hand.
pub open spec fn hand_waits(hand: Seq<Tile>, melds: Seq<Meld>, sanma: bool) -> Seq<usize> {
    winning_kinds(counts_of(hand), open_groups(melds), sanma)
}

/// Whether a kind that completes a hand is among discards.
pub open spec fn waits_discarded(hand: Seq<Tile>, melds: Seq<Meld>, sanma: bool, discards: Seq<Tile>) -> bool {
    exists|i: int| 0 <= i < discards.len() && hand_waits(hand, melds, sanma).contains((#[trigger] discards[i]).kind())
}

/// A seat that has discarded a tile and keeps a hand: it has drawn nothing, is free of
/// temporary furiten and of forbidden kinds, and is furiten by its discards alone.
pub open spec fn after_discard(s: SeatState, hand: Seq<Tile>, tile: Tile) -> SeatState {
    SeatState {
        hand,
        drawn_tile: None,
        discards: s.discards.push(tile),
        temporary_furiten: false,
        kuikae_forbidden: Seq::empty(),
        furiten: waits_discarded(hand, s.melds, s.is_sanma, s.discards.push(tile)),
        ..s
    }
}

/// A seat at the start of a hand.
pub open spec fn fresh_seat(seat: u8, sanma: bool, hand: Seq<Tile>) -> SeatState {
    SeatState {
        seat,
        is_sanma: sanma,
        hand,
        drawn_tile: None,
        melds: Seq::empty(),
        discards: Seq::empty(),
        called_discards: Seq::empty(),
        riichi: false,
        double_riichi: false,
        riichi_discard_idx: None,
        ippatsu: false,
        kuikae_forbidden: Seq::empty(),
        menzen: true,
        furiten: false,
        temporary_furiten: false,
        riichi_furiten: false,
    }
}

/// The hand left by a discard of the drawn tile or of another, or why it cannot be.
pub open spec fn discard_result(s: SeatState, tile: Tile, tsumogiri: bool) -> Result<Seq<Tile>, Seq<char>> {
    let name = tile.spec_name();
    if s.kuikae_forbidden.contains(tile.kind()) {
        Err("kuikae forbids discarding "@ + name + " right after the call"@)
    } else if s.hand.len() == 0 {
        Err("cannot discard from an empty hand"@)
    } else if tsumogiri {
        match s.drawn_tile {
            None => Err("no drawn tile to discard as tsumogiri"@),
            Some(drawn) => if drawn != tile || s.hand.last() != tile {
                Err("tsumogiri must discard the drawn "@ + drawn.spec_name() + ", not "@ + name)
            } else {
                Ok(s.hand.drop_last())
            },
        }
    } else if s.drawn_tile == Some(s.hand.last()) {
        if s.hand.drop_last().contains(tile) {
            Ok(without(s.hand, tile))
        } else if s.hand.last() == tile {
            Err("a hand discard cannot be the only drawn "@ + name)
        } else {
            Err(name + " is not in hand"@)
        }
    } else if s.hand.contains(tile) {
        Ok(without(s.hand, tile))
    } else {
        Err(name + " is not in hand"@)
    }
}

/// The hand left by the dealer's opening discard, or why it cannot be.
pub open spec fn opening_result(s: SeatState, tile: Tile) -> Result<Seq<Tile>, Seq<char>> {
    if s.drawn_tile is Some {
        Err("the dealer opening discard cannot have a drawn_tile"@)
    } else if s.hand.contains(tile) {
        Ok(without(s.hand, tile))
    } else {
        Err(tile.spec_name() + " is not in hand"@)
    }
}

fn has_tile_before(v: &Vec<Tile>, n: usize, t: Tile) -> (r: bool)
    requires
        n <= v.len(),
    ensures
        r == v@.subrange(0, n as int).contains(t),
        r ==> first_of(v@, t) < n,
{
    proof { lemma_first_of(v@, t); }
    match position(v, t) {
        Some(i) => {
            proof {
                if i < n {
                    assert(v@.subrange(0, n as int)[i as int] == t);
                }
                if v@.subrange(0, n as int).contains(t) {
                    let j = choose|j: int| 0 <= j < n && v@.subrange(0, n as int)[j] == t;
                    assert(v@[j] == t);
                }
            }
            i < n
        },
        None => {
            proof {
                if v@.subrange(0, n as int).contains(t) {
                    let j = choose|j: int| 0 <= j < n && v@.subrange(0, n as int)[j] == t;
                    assert(v@[j] == t);
                }
            }
            false
        },
    }
}

impl PlayerState {
    fn start(seat: u8, is_sanma: bool, haipai: [Tile; 13]) -> (r: Self)
        ensures
            r@ == fresh_seat(seat, is_sanma, haipai@),
    {
        let mut hand: Vec<Tile> = Vec::new();
        let mut i: usize = 0;
        while i < 13
            invariant
                i <= 13,
                hand@ == haipai@.subrange(0, i as int),
            decreases 13 - i,
        {
            hand.push(haipai[i]);
            assert(hand@ =~= haipai@.subrange(0, i + 1));
            i = i + 1;
        }
        assert(hand@ =~= haipai@);
        let r = PlayerState {
            seat,
            is_sanma,
            hand,
            drawn_tile: None,
            melds: Vec::new(),
            discards: Vec::new(),
            called_discards: Vec::new(),
            riichi: false,
            double_riichi: false,
            riichi_discard_idx: None,
            ippatsu: false,
            kuikae_forbidden: Vec::new(),
            menzen: true,
            furiten: false,
            temporary_furiten: false,
            riichi_furiten: false,
        };
        assert(r.melds@ =~= Seq::empty());
        assert(r.discards@ =~= Seq::empty());
        assert(r.called_discards@ =~= Seq::empty());
        assert(r.kuikae_forbidden@ =~= Seq::empty());
        r
    }

    pub fn new(seat: u8, haipai: [Tile; 13]) -> (r: Self)
        ensures
            r@ == fresh_seat(seat, false, haipai@),
    {
        Self::start(seat, false, haipai)
    }

    /// A seat of the three-player game.
    pub fn new_sanma(seat: u8, haipai: [Tile; 13]) -> (r: Self)
        ensures
            r@ == fresh_seat(seat, true, haipai@),
    {
        Self::start(seat, true, haipai)
    }

    pub open spec fn spec_is_furiten_blocked(&self) -> bool {
        self.furiten || self.temporary_furiten || self.riichi_furiten
    }

    /// Ron is blocked by any furiten.
    #[verifier::when_used_as_spec(spec_is_furiten_blocked)]
    pub fn is_furiten_blocked(&self) -> (r: bool)
        ensures
            r == self.is_furiten_blocked(),
    {
        self.furiten || self.temporary_furiten || self.riichi_furiten
    }

    /// Records a passed ron: riichi furiten when in riichi, otherwise temporary furiten.
    pub fn note_missed_ron(&mut self)
        ensures
            final(self)@ == (SeatState {
                riichi_furiten: old(self).riichi || old(self).riichi_furiten,
                temporary_furiten: !old(self).riichi || old(self).temporary_furiten,
                ..old(self)@
            }),
    {
        if self.riichi {
            self.riichi_furiten = true;
        } else {
            self.temporary_furiten = true;
        }
    }

    /// Number of melds that are groups.
    pub fn meld_set_count(&self) -> (r: u8)
        ensures
            r == open_groups(self@.melds),
    {
        (count_group_melds(&self.melds) % 256) as u8
    }

    /// Closed-hand counts, red fives folded.
    pub fn hand_counts(&self) -> (r: TileCounts)
        requires
            countable(self@.hand),
        ensures
            r@ == counts_of(self@.hand),
    {
        count_tiles(&self.hand)
    }

    pub fn shanten(&self) -> (r: i8)
        requires
            countable(self@.hand),
        ensures
            r == shanten_value(counts_of(self@.hand), open_groups(self@.melds), self.is_sanma),
    {
        shanten_for(&self.hand_counts(), self.meld_set_count(), self.is_sanma)
    }

    pub fn is_tenpai(&self) -> (r: bool)
        requires
            countable(self@.hand),
        ensures
            r == (shanten_value(counts_of(self@.hand), open_groups(self@.melds), self.is_sanma) == TENPAI),
    {
        self.shanten() == TENPAI
    }

    /// Winning tile kinds when in tenpai.
    pub fn waits(&self) -> (r: Vec<usize>)
        requires
            countable(self@.hand),
        ensures
            r@ == hand_waits(self@.hand, self@.melds, self.is_sanma),
    {
        winning_tiles_for(&self.hand_counts(), self.meld_set_count(), self.is_sanma)
    }

    /// Draws a tile. Temporary furiten ends with the seat's next discard, not with the draw.
    pub fn draw(&mut self, tile: Tile)
        ensures
            final(self)@ == (SeatState {
                hand: old(self)@.hand.push(tile),
                drawn_tile: Some(tile),
                ..old(self)@
            }),
    {
        self.hand.push(tile);
        self.drawn_tile = Some(tile);
    }

    /// A tile joins the hand without being a drawn one.
    pub fn add_to_hand(&mut self, tile: Tile)
        ensures
            final(self)@ == (SeatState { hand: old(self)@.hand.push(tile), ..old(self)@ }),
    {
        self.hand.push(tile);
    }

    fn finish_discard(&mut self, tile: Tile)
        requires
            countable(old(self)@.hand),
        ensures
            final(self)@ == after_discard(old(self)@, old(self)@.hand, tile),
    {
        self.drawn_tile = None;
        self.discards.push(tile);
        self.temporary_furiten = false;
        self.kuikae_forbidden = Vec::new();
        self.recompute_furiten();
        assert(self.kuikae_forbidden@ =~= Seq::empty());
    }

    /// Discards a tile from hand. Returns whether it could be.
    pub fn discard(&mut self, tile: Tile) -> (r: bool)
        requires
            old(self)@.hand.contains(tile) && !old(self)@.kuikae_forbidden.contains(tile.kind()) ==> countable(
                without(old(self)@.hand, tile),
            ),
        ensures
            r == (old(self)@.hand.contains(tile) && !old(self)@.kuikae_forbidden.contains(tile.kind())),
            r ==> final(self)@ == after_discard(old(self)@, without(old(self)@.hand, tile), tile),
            !r ==> *final(self) == *old(self),
    {
        if has_kind(&self.kuikae_forbidden, tile.kind()) {
            return false;
        }
        proof { lemma_first_of(self.hand@, tile); }
        match position(&self.hand, tile) {
            Some(pos) => {
                self.hand.remove(pos);
                self.finish_discard(tile);
                true
            },
            None => false,
        }
    }

    /// Discards with an explicit origin; what contradicts it is refused.
    pub fn discard_with_source(&mut self, tile: Tile, tsumogiri: bool) -> (r: Result<(), String>)
        requires
            discard_result(old(self)@, tile, tsumogiri) is Ok ==> countable(
                discard_result(old(self)@, tile, tsumogiri)->Ok_0,
            ),
        ensures
            match r {
                Ok(_) => discard_result(old(self)@, tile, tsumogiri) is Ok && final(self)@ == after_discard(
                    old(self)@,
                    discard_result(old(self)@, tile, tsumogiri)->Ok_0,
                    tile,
                ),
                Err(e) => discard_result(old(self)@, tile, tsumogiri) == Err::<Seq<Tile>, Seq<char>>(e@) && *final(self)
                    == *old(self),
            },
    {
        if has_kind(&self.kuikae_forbidden, tile.kind()) {
            return Err(join3("kuikae forbids discarding ", tile.as_str(), " right after the call"));
        }
        if self.hand.len() == 0 {
            return Err(owned("cannot discard from an empty hand"));
        }
        let last_idx: usize = self.hand.len() - 1;
        let last = self.hand[last_idx];
        proof {
            lemma_first_of(self.hand@, tile);
            assert(self.hand@.subrange(0, last_idx as int) =~= self.hand@.drop_last());
        }
        if tsumogiri {
            let drawn = match self.drawn_tile {
                Some(d) => d,
                None => return Err(owned("no drawn tile to discard as tsumogiri")),
            };
            if drawn != tile || last != tile {
                let mut e = join3("tsumogiri must discard the drawn ", drawn.as_str(), ", not ");
                e.append(tile.as_str());
                return Err(e);
            }
            self.hand.pop();
        } else if self.drawn_tile == Some(last) {
            if has_tile_before(&self.hand, last_idx, tile) {
                match position(&self.hand, tile) {
                    Some(pos) => {
                        self.hand.remove(pos);
                    },
                    None => {},
                }
            } else if last == tile {
                return Err(join2("a hand discard cannot be the only drawn ", tile.as_str()));
            } else {
                return Err(join2(tile.as_str(), " is not in hand"));
            }
        } else {
            match position(&self.hand, tile) {
                Some(pos) => {
                    self.hand.remove(pos);
                },
                None => return Err(join2(tile.as_str(), " is not in hand")),
            }
        }
        self.finish_discard(tile);
        Ok(())
    }

    /// Discards from the dealer's 14-tile opening hand, without an origin.
    pub fn discard_dealer_opening(&mut self, tile: Tile) -> (r: Result<(), String>)
        requires
            opening_result(old(self)@, tile) is Ok ==> countable(opening_result(old(self)@, tile)->Ok_0),
        ensures
            match r {
                Ok(_) => opening_result(old(self)@, tile) is Ok && final(self)@ == after_discard(
                    old(self)@,
                    opening_result(old(self)@, tile)->Ok_0,
                    tile,
                ),
                Err(e) => opening_result(old(self)@, tile) == Err::<Seq<Tile>, Seq<char>>(e@) && *final(self)
                    == *old(self),
            },
    {
        if self.drawn_tile.is_some() {
            return Err(owned("the dealer opening discard cannot have a drawn_tile"));
        }
        proof { lemma_first_of(self.hand@, tile); }
        match position(&self.hand, tile) {
            Some(pos) => {
                self.hand.remove(pos);
                self.finish_discard(tile);
                Ok(())
            },
            None => Err(join2(tile.as_str(), " is not in hand")),
        }
    }

    /// Marks the latest discard as called.
    pub fn mark_latest_discard_called(&mut self) -> (r: Result<(), String>)
        ensures
            match r {
                Ok(_) => old(self)@.discards.len() > 0 && final(self)@ == marked_called(old(self)@),
                Err(e) => old(self)@.discards.len() == 0 && e@ == "no discard to mark as called"@ && *final(self)
                    == *old(self),
            },
    {
        if self.discards.len() == 0 {
            return Err(owned("no discard to mark as called"));
        }
        let index: usize = self.discards.len() - 1;
        if !has_kind(&self.called_discards, index) {
            self.called_discards.push(index);
        }
        Ok(())
    }

    /// Nagashi mangan: at least one discard, all of them terminals or honors, none called.
    pub fn is_nagashi_mangan_eligible(&self) -> (r: bool)
        ensures
            r == (self@.discards.len() > 0 && self@.called_discards.len() == 0 && forall|i: int|
                0 <= i < self@.discards.len() ==> (#[trigger] self@.discards[i]).is_yaochuu()),
    {
        if self.discards.len() == 0 || self.called_discards.len() > 0 {
            return false;
        }
        let mut i: usize = 0;
        while i < self.discards.len()
            invariant
                i <= self.discards.len(),
                forall|j: int| 0 <= j < i ==> (#[trigger] self@.discards[j]).is_yaochuu(),
            decreases self.discards.len() - i,
        {
            if !self.discards[i].is_yaochuu() {
                assert(!self@.discards[i as int].is_yaochuu());
                return false;
            }
            i = i + 1;
        }
        true
    }

    /// Whether adding a tile completes the hand, yaku aside.
    pub fn would_agari_with(&self, win_tile: Tile) -> (r: bool)
        requires
            countable(self@.hand),
            win_tile.is_known(),
            count_kind(self@.hand, win_tile.kind() as int) < 255,
        ensures
            r == is_win(
                with_tile(counts_of(self@.hand), win_tile.kind() as int),
                open_groups(self@.melds),
                self.is_sanma,
            ),
    {
        let mut c = self.hand_counts();
        proof { lemma_countable(self@.hand); }
        c.add(win_tile, 1);
        assert(c@ =~= with_tile(counts_of(self@.hand), win_tile.kind() as int));
        shanten_for(&c, self.meld_set_count(), self.is_sanma) == AGARI
    }

    /// Recomputes discard furiten: whether a current wait is in the own discards.
    pub fn recompute_furiten(&mut self)
        requires
            countable(old(self)@.hand),
        ensures
            final(self)@ == (SeatState {
                furiten: waits_discarded(
                    old(self)@.hand,
                    old(self)@.melds,
                    old(self).is_sanma,
                    old(self)@.discards,
                ),
                ..old(self)@
            }),
    {
        let waits = self.waits();
        self.furiten = any_kind_in(&self.discards, &waits);
    }
}

/// A seat whose latest discard is marked as called.
pub open spec fn marked_called(s: SeatState) -> SeatState {
    let index = (s.discards.len() - 1) as usize;
    SeatState {
        called_discards: if s.called_discards.contains(index) { s.called_discards } else { s.called_discards.push(index) },
        ..s
    }
}

/// Whether the kind of a tile is in a list.
pub fn any_kind_in(tiles: &Vec<Tile>, kinds: &Vec<usize>) -> (r: bool)
    ensures
        r == exists|i: int| 0 <= i < tiles@.len() && kinds@.contains((#[trigger] tiles@[i]).kind()),
{
    let mut i: usize = 0;
    while i < tiles.len()
        invariant
            i <= tiles.len(),
            forall|j: int| 0 <= j < i ==> !kinds@.contains((#[trigger] tiles@[j]).kind()),
        decreases tiles.len() - i,
    {
        if has_kind(kinds, tiles[i].kind()) {
            assert(kinds@.contains(tiles@[i as int].kind()));
            return true;
        }
        i = i + 1;
    }
    false
}

/// A discard moves one tile from the hand to the discards: with it the hand is as before, the
/// order of its tiles aside.
pub proof fn discard_moves_one_tile(s: SeatState, tile: Tile, tsumogiri: bool)
    requires
        discard_result(s, tile, tsumogiri) is Ok,
    ensures
        discard_result(s, tile, tsumogiri)->Ok_0.push(tile).to_multiset() == s.hand.to_multiset(),
        discard_result(s, tile, tsumogiri)->Ok_0.len() + 1 == s.hand.len(),
{
    let left = discard_result(s, tile, tsumogiri)->Ok_0;
    lemma_first_of(s.hand, tile);
    if tsumogiri {
        assert(left.push(tile) =~= s.hand);
    } else {
        if s.hand.drop_last().contains(tile) {
            let i = choose|i: int| 0 <= i < s.hand.len() - 1 && s.hand.drop_last()[i] == tile;
            assert(s.hand[i] == tile);
        }
        let i = first_of(s.hand, tile);
        assert(left == s.hand.remove(i));
        broadcast use vstd::seq_lib::group_to_multiset_ensures;
        assert(s.hand.remove(i).to_multiset() =~= s.hand.to_multiset().remove(tile));
        assert(left.push(tile).to_multiset() =~= left.to_multiset().insert(tile));
    }
}

/// Marking a discard as called twice is marking it once.
pub proof fn marking_called_is_idempotent(s: SeatState)
    requires
        s.discards.len() > 0,
    ensures
        marked_called(marked_called(s)) == marked_called(s),
{
    let index = (s.discards.len() - 1) as usize;
    if !s.called_discards.contains(index) {
        let t = s.called_discards.push(index);
        assert(t[t.len() - 1] == index);
    }
}

} // verus!
