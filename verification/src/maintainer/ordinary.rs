//! Tables as play brings them about, for which every question that a seat can ask has an answer.

use vstd::prelude::*;
use crate::mahjong::calc::all_known;
use crate::mahjong::hand::count_kind;
use crate::mahjong::meld::Meld;
use crate::mahjong::rules::RedFiveCounts;
use crate::mahjong::tile::Tile;
use crate::mahjong::yaku::{count_group_melds, group_meld_count, is_ordinary};
use crate::maintainer::legal::{
    count_nuki, has_seat_wind, nuki_count, reactions_are_known, ron_win, seat_count, tsumo_can_settle, tsumo_win,
    turn_is_known, view_win,
};
use crate::maintainer::player::countable;
use crate::maintainer::scoring::{
    can_settle, count_aka, dora_of, indicated, indicators_han, meld_tiles, melds_aka, nuki_han, win_facts,
};
use crate::maintainer::view::{SeatView, TableFacts};

verus! {

/// At most four red fives of a suit.
pub open spec fn few_reds(r: RedFiveCounts) -> bool {
    r.man <= 4 && r.pin <= 4 && r.sou <= 4
}

/// A hand in play: known tiles, no more than a turn holds, with the Norths set aside.
pub open spec fn is_hand_in_play(hand: Seq<Tile>, melds: Seq<Meld>) -> bool {
    &&& all_known(hand)
    &&& melds.len() <= 8
    &&& nuki_count(melds) <= 4
    &&& hand.len() + 3 * group_meld_count(melds) <= 14
}

/// A view of a hand in play: the tiles that can be won on are known too.
pub open spec fn is_view_in_play(v: TableFacts) -> bool {
    &&& is_hand_in_play(v.me.hand, v.me.melds)
    &&& v.dora_indicators.len() <= 5
    &&& v.rule_profile.nuki_dora_han <= 2
    &&& few_reds(v.rule_profile.red_fives_3p) && few_reds(v.rule_profile.red_fives_4p)
    &&& 2 <= v.others.len() <= 3
    &&& v.me.seat <= v.others.len() && v.oya <= v.others.len()
    &&& v.last_discard is Some ==> known_discard(v.last_discard->0)
    &&& v.pending_robbery is Some ==> v.pending_robbery->0.tile.is_known()
}

pub open spec fn known_discard(d: (u8, Tile)) -> bool {
    match d {
        (from, tile) => from < 255 && tile.is_known(),
    }
}

proof fn lemma_kind_bound(tiles: Seq<Tile>, k: int)
    ensures
        count_kind(tiles, k) <= tiles.len(),
        count_aka(tiles) <= tiles.len(),
    decreases tiles.len(),
{
    if tiles.len() > 0 {
        lemma_kind_bound(tiles.drop_last(), k);
    }
}

proof fn lemma_kind_positive(tiles: Seq<Tile>, i: int)
    requires
        0 <= i < tiles.len(),
    ensures
        count_kind(tiles, tiles[i].kind() as int) > 0,
    decreases tiles.len(),
{
    if i < tiles.len() - 1 {
        lemma_kind_positive(tiles.drop_last(), i);
    }
}

proof fn lemma_meld_bounds(melds: Seq<Meld>, reds: RedFiveCounts)
    requires
        few_reds(reds),
    ensures
        meld_tiles(melds).len() <= 4 * group_meld_count(melds),
        melds_aka(melds, reds) <= 4 * group_meld_count(melds),
        group_meld_count(melds) + nuki_count(melds) == melds.len(),
    decreases melds.len(),
{
    if melds.len() > 0 {
        lemma_meld_bounds(melds.drop_last(), reds);
        let m = melds.last();
        lemma_kind_bound(m.spec_tiles(), 0);
    }
}

proof fn lemma_indicators_bound(tiles: Seq<Tile>, indicators: Seq<Tile>, sanma: bool, nuki: u8)
    ensures
        indicators_han(tiles, indicators, sanma, nuki) <= indicators.len() * (tiles.len() + nuki),
    decreases indicators.len(),
{
    if indicators.len() > 0 {
        lemma_indicators_bound(tiles, indicators.drop_last(), sanma, nuki);
        lemma_kind_bound(tiles, indicated(indicators.last(), sanma).kind() as int);
        let n = indicators.len() as int;
        let w = tiles.len() + nuki;
        assert(n * w == (n - 1) * w + w) by (nonlinear_arith);
    }
}

/// A win in a view in play can be settled.
proof fn lemma_can_settle(v: TableFacts, hand: Seq<Tile>, win: Tile, tsumo: bool, tenhou: bool, chankan: bool)
    requires
        is_view_in_play(v),
        all_known(hand),
        hand.len() <= v.me.hand.len() + 1,
        hand.contains(win),
    ensures
        can_settle(view_win(v, hand, win, tsumo, tenhou, chankan)),
{
    let s = view_win(v, hand, win, tsumo, tenhou, chankan);
    let reds = s.rule_profile.red_fives(if s.is_sanma { 3 } else { 4 });
    let tiles = s.hand + meld_tiles(s.melds);
    lemma_meld_bounds(s.melds, reds);
    lemma_kind_bound(s.hand, 0);
    lemma_indicators_bound(tiles, s.dora_indicators, s.is_sanma, s.nuki_count);
    let n = s.dora_indicators.len() as int;
    let w = tiles.len() + s.nuki_count;
    assert(w <= 23);
    assert(n * w <= 115) by (nonlinear_arith)
        requires
            0 <= n <= 5,
            0 <= w <= 23,
    ;
    let a = s.nuki_count as int;
    let b = s.rule_profile.nuki_dora_han as int;
    assert(a * b <= 8) by (nonlinear_arith)
        requires
            0 <= a <= 4,
            0 <= b <= 2,
    ;
    assert(nuki_han(s) <= 8);
    assert(indicators_han(tiles, s.ura_indicators, s.is_sanma, s.nuki_count) == 0);
    assert(dora_of(s).total() <= 142);
    let i = choose|i: int| 0 <= i < hand.len() && hand[i] == win;
    lemma_kind_positive(hand, i);
    lemma_kind_bound(hand, win.kind() as int);
    assert(win_facts(s).concealed[win.kind() as int] > 0);
    assert(is_ordinary(win_facts(s)));
}

/// In a view in play, the turn actions can be told.
pub proof fn lemma_turn_in_play(v: TableFacts)
    requires
        v.is_live() ==> is_view_in_play(v),
    ensures
        turn_is_known(v),
{
    if v.is_live() && v.me.hand.len() > 0 {
        assert(has_seat_wind(v.oya, v.me.seat, seat_count(v)));
        assert forall|i: int| 0 <= i < v.me.hand.len() implies can_settle(tsumo_win(v, #[trigger] v.me.hand[i], true)) by {
            lemma_can_settle(v, v.me.hand, v.me.hand[i], true, true, false);
        }
        lemma_can_settle(v, v.me.hand, v.me.hand.last(), true, false, false);
        assert(tsumo_can_settle(v));
    }
}

/// In a view in play, the responses can be told.
pub proof fn lemma_reactions_in_play(v: TableFacts)
    requires
        v.is_live() ==> is_view_in_play(v),
    ensures
        reactions_are_known(v),
{
    if v.is_live() {
        assert(has_seat_wind(v.oya, v.me.seat, seat_count(v)));
        assert forall|win: Tile, chankan: bool| win.is_known() implies can_settle(#[trigger] ron_win(v, win, chankan)) by {
            let hand = v.me.hand.push(win);
            assert(hand[v.me.hand.len() as int] == win);
            lemma_can_settle(v, hand, win, false, false, chankan);
        }
        assert forall|k: int| #[trigger] count_kind(v.me.hand, k) < 255 by {
            lemma_kind_bound(v.me.hand, k);
        }
    }
}

fn tiles_known(tiles: &Vec<Tile>) -> (r: bool)
    ensures
        r == all_known(tiles@),
{
    let mut i: usize = 0;
    while i < tiles.len()
        invariant
            i <= tiles.len(),
            forall|j: int| 0 <= j < i ==> (#[trigger] tiles@[j]).is_known(),
        decreases tiles.len() - i,
    {
        if tiles[i].is_unknown() {
            return false;
        }
        i = i + 1;
    }
    true
}

fn has_few_reds(r: &RedFiveCounts) -> (b: bool)
    ensures
        b == few_reds(*r),
{
    r.man <= 4 && r.pin <= 4 && r.sou <= 4
}

/// Whether a hand is one in play.
pub fn hand_in_play(hand: &Vec<Tile>, melds: &Vec<Meld>) -> (r: bool)
    ensures
        r == is_hand_in_play(hand@, melds@),
{
    melds.len() <= 8 && hand.len() <= 14 && count_nuki(melds) <= 4 && hand.len() + 3 * count_group_melds(melds) <= 14
        && tiles_known(hand)
}

/// Whether a view is one in play. Its actions and responses can then be asked for.
pub fn view_in_play(view: &SeatView) -> (r: bool)
    ensures
        r == is_view_in_play(view@),
        r ==> turn_is_known(view@) && reactions_are_known(view@) && countable(view.me.hand@),
{
    proof {
        if is_view_in_play(view@) {
            lemma_turn_in_play(view@);
            lemma_reactions_in_play(view@);
        }
        assert(view.others@.len() == view@.others.len());
        assert(view@.me.hand == view.me.hand@);
    }
    let discard_known = match view.last_discard {
        Some((from, tile)) => from < 255 && !tile.is_unknown(),
        None => true,
    };
    let robbery_known = match view.pending_robbery {
        Some(p) => !p.tile.is_unknown(),
        None => true,
    };
    hand_in_play(&view.me.hand, &view.me.melds) && view.dora_indicators.len() <= 5 && view.rule_profile.nuki_dora_han <= 2
        && has_few_reds(&view.rule_profile.red_fives_3p) && has_few_reds(&view.rule_profile.red_fives_4p)
        && view.others.len() >= 2 && view.others.len() <= 3 && view.me.seat as usize <= view.others.len()
        && view.oya as usize <= view.others.len() && discard_known && robbery_known
}

} // verus!
