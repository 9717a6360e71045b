//! What a win is settled at: dora by place and kind, and the situation it was won in.

use vstd::prelude::*;
use crate::mahjong::hand::count_kind;
use crate::mahjong::meld::Meld;
use crate::mahjong::rules::RedFiveCounts;
use crate::mahjong::score::full_score;
use crate::mahjong::tile::Tile;
use crate::mahjong::yaku::{evaluated, Yaku, YakumanKind};
use crate::mahjong::yaku_laws::{is_any_kan, lemma_tally, places, tally};
use crate::maintainer::offer_laws::lemma_count_places;
use crate::maintainer::player::counts_of;
use crate::maintainer::scoring::{
    count_aka, dora_of, flags_of, indicated, indicators_han, meld_aka, meld_tiles, melds_aka, settlement, win_facts,
    ScoringFacts,
};

verus! {

/// The tiles that dora are counted in: the hand and the called groups, without Norths set aside.
pub open spec fn counted_tiles(s: ScoringFacts) -> Seq<Tile> {
    s.melds.fold_left(s.hand, |t: Seq<Tile>, m: Meld| if m is Nukidora { t } else { t + m.spec_tiles() })
}

/// How often an indicator's dora is held: each tile of the kind behind the indicator, and with three
/// players each North set aside where that kind is North.
pub open spec fn held_dora(s: ScoringFacts, indicator: Tile) -> nat {
    let k = (if s.is_sanma { indicator.dora_from_indicator_3p() } else { indicator.dora_from_indicator() }).kind();
    let t = counted_tiles(s);
    places(t.len(), |i: int| t[i].kind() == k).len() + if s.is_sanma && k == 30 { s.nuki_count as nat } else { 0 }
}

/// The han of some indicators.
pub open spec fn han_behind(s: ScoringFacts, indicators: Seq<Tile>) -> int {
    indicators.fold_left(0int, |sum: int, ind: Tile| sum + held_dora(s, ind))
}

/// Red fives in a meld: in a kan of fives all that the wall has of them, else those it holds.
pub open spec fn reds_in(m: Meld, reds: RedFiveCounts) -> nat {
    if m is Nukidora {
        0
    } else if is_any_kan(m) {
        let k = m.kind_tile().kind();
        if k == 4 { reds.man as nat } else if k == 13 { reds.pin as nat } else if k == 22 { reds.sou as nat } else { 0 }
    } else {
        places(m.spec_tiles().len(), |i: int| m.spec_tiles()[i].is_aka()).len()
    }
}

/// Red fives of a hand and its melds.
pub open spec fn reds_held(s: ScoringFacts) -> int {
    s.melds.fold_left(
        places(s.hand.len(), |i: int| s.hand[i].is_aka()).len() as int,
        |sum: int, m: Meld| sum + reds_in(m, s.rule_profile.red_fives(if s.is_sanma { 3 } else { 4 })),
    )
}

proof fn lemma_counted_tiles(hand: Seq<Tile>, melds: Seq<Meld>)
    ensures
        melds.fold_left(hand, |t: Seq<Tile>, m: Meld| if m is Nukidora { t } else { t + m.spec_tiles() }) == hand + meld_tiles(
            melds,
        ),
    decreases melds.len(),
{
    if melds.len() == 0 {
        assert(hand + meld_tiles(melds) =~= hand);
    } else {
        let r = melds.drop_last();
        lemma_counted_tiles(hand, r);
        let f = |t: Seq<Tile>, m: Meld| if m is Nukidora { t } else { t + m.spec_tiles() };
        assert(melds.fold_left(hand, f) == f(r.fold_left(hand, f), melds.last()));
        assert(hand + meld_tiles(r) + melds.last().spec_tiles() =~= hand + (meld_tiles(r) + melds.last().spec_tiles()));
    }
}

proof fn lemma_indicators(s: ScoringFacts, indicators: Seq<Tile>)
    ensures
        indicators_han(s.hand + meld_tiles(s.melds), indicators, s.is_sanma, s.nuki_count) == han_behind(s, indicators),
    decreases indicators.len(),
{
    if indicators.len() > 0 {
        let r = indicators.drop_last();
        lemma_indicators(s, r);
        lemma_counted_tiles(s.hand, s.melds);
        let t = s.hand + meld_tiles(s.melds);
        let k = indicated(indicators.last(), s.is_sanma).kind();
        lemma_count_places(t, k as int);
        assert(places(t.len(), |i: int| t[i].kind() == k) =~= places(t.len(), |i: int| t[i].kind() == k as int));
        assert(counted_tiles(s) == t);
        assert(held_dora(s, indicators.last()) == count_kind(t, k as int) + if s.is_sanma && k == 30 {
            s.nuki_count as nat
        } else {
            0
        });
    }
}

proof fn lemma_aka_part(t: Seq<Tile>, n: int)
    requires
        0 <= n <= t.len(),
    ensures
        count_aka(t.take(n)) == tally(n, |i: int| t[i].is_aka()),
    decreases n,
{
    if n > 0 {
        lemma_aka_part(t, n - 1);
        assert(t.take(n).drop_last() =~= t.take(n - 1));
    }
}

proof fn lemma_aka(t: Seq<Tile>)
    ensures
        count_aka(t) == places(t.len(), |i: int| t[i].is_aka()).len(),
{
    lemma_aka_part(t, t.len() as int);
    assert(t.take(t.len() as int) =~= t);
    lemma_tally(t.len() as int, |i: int| t[i].is_aka());
}

proof fn lemma_meld_reds(m: Meld, reds: RedFiveCounts)
    ensures
        meld_aka(m, reds) == reds_in(m, reds),
{
    lemma_aka(m.spec_tiles());
    let k = m.kind_tile().kind() as int;
    assert(m.is_kan() == is_any_kan(m));
    if m.kind_tile().rank() is Some {
        assert(k < 27);
        assert(k % 9 + 1 == 5 <==> k == 4 || k == 13 || k == 22);
    }
}

proof fn lemma_reds(melds: Seq<Meld>, reds: RedFiveCounts, start: int)
    ensures
        melds.fold_left(start, |sum: int, m: Meld| sum + reds_in(m, reds)) == start + melds_aka(melds, reds),
    decreases melds.len(),
{
    if melds.len() > 0 {
        lemma_reds(melds.drop_last(), reds, start);
        lemma_meld_reds(melds.last(), reds);
    }
}

proof fn lemma_dora_han(s: ScoringFacts)
    requires
        evaluated(win_facts(s)).yakuman <= 255,
    ensures
        settlement(s) is Some ==> (settlement(s)->0).dora_han == if (settlement(s)->0).score.yakuman == 0 {
            dora_of(s).total() as int
        } else {
            0
        },
        settlement(s) is Some && (settlement(s)->0).score.yakuman != 0 ==> (settlement(s)->0).regular_dora_han == 0 && (settlement(
            s,
        )->0).red_dora_han == 0 && (settlement(s)->0).ura_dora_han == 0 && (settlement(s)->0).nuki_dora_han == 0,
        settlement(s) is Some <==> full_score(win_facts(s), dora_of(s).total() as int, s.is_oya) is Some,
        settlement(s) is Some ==> (settlement(s)->0).score == (full_score(
            win_facts(s),
            dora_of(s).total() as int,
            s.is_oya,
        )->0).score && (settlement(s)->0).yaku == (full_score(win_facts(s), dora_of(s).total() as int, s.is_oya)->0).yaku && (
        settlement(s)->0).fu == (full_score(win_facts(s), dora_of(s).total() as int, s.is_oya)->0).fu,
{
    crate::mahjong::score_laws::lemma_dora_of_score(win_facts(s), dora_of(s).total() as int, s.is_oya);
}

/// A win is settled exactly where it has a yaku with its dora counted, at the points, han and fu of
/// that score.
pub proof fn settling_is_scoring_with_dora(s: ScoringFacts, dora: int)
    requires
        evaluated(win_facts(s)).yakuman <= 255,
        settlement(s) is Some && (settlement(s)->0).score.yakuman == 0 ==> dora == (settlement(s)->0).dora_han,
        settlement(s) is None ==> dora == dora_of(s).total(),
    ensures
        settlement(s) is Some && (settlement(s)->0).score.yakuman == 0 ==> {
            let r = full_score(win_facts(s), dora, s.is_oya);
            r is Some && (r->0).score == (settlement(s)->0).score && (r->0).yaku == (settlement(s)->0).yaku && (r->0).fu == (
            settlement(s)->0).fu
        },
        settlement(s) is None ==> full_score(win_facts(s), dora, s.is_oya) is None,
{
    lemma_dora_han(s);
}

/// Dora are counted by kind and place: under each indicator the tiles of the kind behind it, red
/// fives each, Norths set aside at the han that the rules give them. Together they are the dora han
/// of the win; a yakuman counts none.
pub proof fn dora_are_counted_by_kind(s: ScoringFacts)
    requires
        evaluated(win_facts(s)).yakuman <= 255,
        settlement(s) is Some,
    ensures
        ({
            let r = settlement(s)->0;
            if r.score.yakuman == 0 {
                let norths = s.nuki_count * s.rule_profile.nuki_dora_han;
                &&& r.regular_dora_han == han_behind(s, s.dora_indicators)
                &&& r.ura_dora_han == han_behind(s, s.ura_indicators)
                &&& r.red_dora_han == reds_held(s)
                &&& r.nuki_dora_han == if norths > 255 { 255 } else { norths }
                &&& r.dora_han == r.regular_dora_han + r.red_dora_han + r.ura_dora_han + r.nuki_dora_han
            } else {
                r.regular_dora_han == 0 && r.ura_dora_han == 0 && r.red_dora_han == 0 && r.nuki_dora_han == 0 && r.dora_han == 0
            }
        }),
{
    lemma_dora_han(s);
    lemma_indicators(s, s.dora_indicators);
    lemma_indicators(s, s.ura_indicators);
    lemma_aka(s.hand);
    lemma_reds(s.melds, s.rule_profile.red_fives(if s.is_sanma { 3 } else { 4 }), count_aka(s.hand) as int);
}

/// A win is scored for what it is: the tiles of the hand by kind, the melds, the winning tile red or
/// not, the winds, and each circumstance under its own name.
pub proof fn wins_are_scored_as_they_stand(s: ScoringFacts)
    ensures
        ({
            let f = win_facts(s);
            &&& f.concealed == counts_of(s.hand) && f.melds == s.melds
            &&& f.win_tile.kind() == s.win_tile.kind() && !f.win_tile.is_aka()
            &&& f.is_tsumo == s.is_tsumo && f.menzen == s.menzen
            &&& f.bakaze == s.bakaze && f.jikaze == s.jikaze
            &&& f.riichi == s.riichi && f.double_riichi == s.double_riichi && f.ippatsu == s.ippatsu
            &&& f.haitei == s.haitei && f.houtei == s.houtei
            &&& f.rinshan == s.rinshan && f.chankan == s.chankan
            &&& f.tenhou == s.tenhou && f.chiihou == s.chiihou
            &&& f.nuki_count == s.nuki_count && !f.pei_is_yakuhai
            &&& f.rule_profile == s.rule_profile
        }),
{
}

/// Indicators add up: one more indicator adds exactly the dora behind it.
pub proof fn indicators_add_up(s: ScoringFacts, t: ScoringFacts, indicator: Tile)
    requires
        evaluated(win_facts(s)).yakuman <= 255,
        t == (ScoringFacts { dora_indicators: s.dora_indicators.push(indicator), ..s }),
        settlement(s) is Some,
        settlement(t) is Some,
        (settlement(s)->0).score.yakuman == 0,
        (settlement(t)->0).score.yakuman == 0,
    ensures
        (settlement(t)->0).regular_dora_han == (settlement(s)->0).regular_dora_han + held_dora(s, indicator),
        (settlement(t)->0).ura_dora_han == (settlement(s)->0).ura_dora_han,
        (settlement(t)->0).red_dora_han == (settlement(s)->0).red_dora_han,
{
    dora_are_counted_by_kind(s);
    dora_are_counted_by_kind(t);
    let d = s.dora_indicators.push(indicator);
    assert(d.drop_last() =~= s.dora_indicators);
    lemma_indicators(s, s.dora_indicators);
    lemma_indicators(s, d);
    lemma_indicators(t, d);
    let f = |sum: int, ind: Tile| sum + held_dora(s, ind);
    assert(d.fold_left(0int, f) == f(d.drop_last().fold_left(0int, f), d.last()));
}

/// Each flag of a win is set exactly where the yaku of its name was scored.
pub proof fn flags_name_their_yaku(yaku: Seq<(Yaku, u8)>, y: Yaku)
    ensures
        ({
            let r = flags_of(yaku);
            let held = exists|i: int| 0 <= i < yaku.len() && (#[trigger] yaku[i]).0 == y;
            match y {
                Yaku::Riichi => r.riichi == held,
                Yaku::DoubleRiichi => r.double_riichi == held,
                Yaku::Ippatsu => r.ippatsu == held,
                Yaku::MenzenTsumo => r.menzen_tsumo == held,
                Yaku::Haitei => r.haitei == held,
                Yaku::Houtei => r.houtei == held,
                Yaku::Rinshan => r.rinshan == held,
                Yaku::Chankan => r.chankan == held,
                Yaku::Yakuman(YakumanKind::Tenhou) => r.tenhou == held,
                Yaku::Yakuman(YakumanKind::Chiihou) => r.chiihou == held,
                _ => true,
            }
        }),
{
}

} // verus!
