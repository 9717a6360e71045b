//! What each yaku stands for, in terms of the tiles and the groups of a hand.

use vstd::prelude::*;
use vstd::set_lib::{lemma_int_range, set_int_range};
use crate::mahjong::decompose::{
    best_wait, is_reading, used, wait_in_group, wait_rank, waits_of, without_pair, MeldShape, Reading, WaitShape,
};
use crate::mahjong::hand::{count_kind, expand, lemma_expand_counts, sum_counts};
use crate::mahjong::meld::Meld;
use crate::mahjong::rules::RiichiRuleProfile;
use crate::mahjong::shanten::is_yaochuu_kind;
use crate::mahjong::tile::Tile;
use crate::mahjong::yaku::{
    all_green, all_have_yaochuu, all_honor, all_terminal, all_triplets, all_yaochuu, any_honor, best_standard,
    called_groups, called_tiles, chuuren_of, concealed_triplets, equal_run_pairs, evaluated, first_at, flush_of,
    form_of, group_has_yaochuu, group_meld_count, groups_of, han_sum, hand_tiles, has_sanshoku, has_sanshoku_triplets,
    has_straight, holds_group, is_complete_hand, is_green_kind, is_nine_gates, is_nine_gates_with, is_pinfu,
    is_thirteen_wait, kan_count, lemma_standard_as_parts, meld_group, nine_gates_need, no_yaku, no_yaochuu, one_suit,
    opened_by_ron, readings_of, runs_at, seven_pairs_outcome, seven_pairs_yaku, situational, standard_outcome,
    standard_parts, standard_yaku, straight_in, triplets_between, weight_sum, when_kind, whole_hand_yakuman,
    with_kind, with_reading, with_readings, yakuhai, yakuhai_of, yakuman_kinds, Group, HandForm, WinFacts, Yaku,
    YakuOutcome, YakuhaiKind, YakumanKind,
};

verus! {

// Lists.

proof fn lemma_in_both(a: Seq<(Yaku, u8)>, b: Seq<(Yaku, u8)>, x: (Yaku, u8))
    ensures
        (a + b).contains(x) <==> a.contains(x) || b.contains(x),
{
    let s = a + b;
    if a.contains(x) {
        let i = choose|i: int| 0 <= i < a.len() && a[i] == x;
        assert(s[i] == x);
    }
    if b.contains(x) {
        let i = choose|i: int| 0 <= i < b.len() && b[i] == x;
        assert(s[a.len() + i] == x);
    }
    if s.contains(x) {
        let i = choose|i: int| 0 <= i < s.len() && s[i] == x;
        if i < a.len() {
            assert(a[i] == x);
        } else {
            assert(b[i - a.len()] == x);
        }
    }
}

proof fn lemma_then(s: Seq<(Yaku, u8)>, c: bool, y: Yaku, h: u8, x: (Yaku, u8))
    ensures
        (s + crate::mahjong::yaku::when(c, y, h)).contains(x) <==> s.contains(x) || (c && x == (y, h)),
{
    lemma_in_both(s, crate::mahjong::yaku::when(c, y, h), x);
    if c {
        assert(crate::mahjong::yaku::when(c, y, h)[0] == (y, h));
    }
}

proof fn lemma_situational(f: WinFacts, closed: bool, x: (Yaku, u8))
    ensures
        situational(f, closed).contains(x) <==> {
            ||| f.double_riichi && x == (Yaku::DoubleRiichi, 2u8)
            ||| !f.double_riichi && f.riichi && x == (Yaku::Riichi, 1u8)
            ||| f.ippatsu && (f.riichi || f.double_riichi) && x == (Yaku::Ippatsu, 1u8)
            ||| f.is_tsumo && closed && x == (Yaku::MenzenTsumo, 1u8)
            ||| f.haitei && !f.rinshan && x == (Yaku::Haitei, 1u8)
            ||| f.houtei && x == (Yaku::Houtei, 1u8)
            ||| f.rinshan && x == (Yaku::Rinshan, 1u8)
            ||| f.chankan && x == (Yaku::Chankan, 1u8)
        },
{
    let c0 = f.double_riichi;
    let c1 = !f.double_riichi && f.riichi;
    let c2 = f.ippatsu && (f.riichi || f.double_riichi);
    let c3 = f.is_tsumo && closed;
    let c4 = f.haitei && !f.rinshan;
    let e = Seq::<(Yaku, u8)>::empty();
    let s0 = crate::mahjong::yaku::when(c0, Yaku::DoubleRiichi, 2);
    lemma_then(e, c0, Yaku::DoubleRiichi, 2, x);
    assert(e + s0 =~= s0);
    let s1 = s0 + crate::mahjong::yaku::when(c1, Yaku::Riichi, 1);
    lemma_then(s0, c1, Yaku::Riichi, 1, x);
    let s2 = s1 + crate::mahjong::yaku::when(c2, Yaku::Ippatsu, 1);
    lemma_then(s1, c2, Yaku::Ippatsu, 1, x);
    let s3 = s2 + crate::mahjong::yaku::when(c3, Yaku::MenzenTsumo, 1);
    lemma_then(s2, c3, Yaku::MenzenTsumo, 1, x);
    let s4 = s3 + crate::mahjong::yaku::when(c4, Yaku::Haitei, 1);
    lemma_then(s3, c4, Yaku::Haitei, 1, x);
    let s5 = s4 + crate::mahjong::yaku::when(f.houtei, Yaku::Houtei, 1);
    lemma_then(s4, f.houtei, Yaku::Houtei, 1, x);
    let s6 = s5 + crate::mahjong::yaku::when(f.rinshan, Yaku::Rinshan, 1);
    lemma_then(s5, f.rinshan, Yaku::Rinshan, 1, x);
    lemma_then(s6, f.chankan, Yaku::Chankan, 1, x);
}

/// The yakuhai that a triplet of a kind gives.
pub open spec fn is_value_of(f: WinFacts, k: int, y: YakuhaiKind) -> bool {
    match y {
        YakuhaiKind::Haku => k == 31,
        YakuhaiKind::Hatsu => k == 32,
        YakuhaiKind::Chun => k == 33,
        YakuhaiKind::Bakaze => 27 <= k <= 30 && k == f.bakaze.kind(),
        YakuhaiKind::Jikaze => 27 <= k <= 30 && k == f.jikaze.kind(),
        YakuhaiKind::Pei => k == 30 && f.pei_is_yakuhai,
    }
}

proof fn lemma_yakuhai_of(f: WinFacts, m: MeldShape, x: (Yaku, u8))
    ensures
        yakuhai_of(f, m).contains(x) <==> m is Kotsu && x.0 is Yakuhai && x.1 == 1 && is_value_of(
            f,
            m->Kotsu_0 as int,
            x.0->Yakuhai_0,
        ),
{
    match m {
        MeldShape::Shuntsu(_) => {},
        MeldShape::Kotsu(k) => {
            let c3 = 27 <= k <= 30 && k == f.bakaze.kind();
            let c4 = 27 <= k <= 30 && k == f.jikaze.kind();
            let c5 = k == 30 && f.pei_is_yakuhai;
            let e = Seq::<(Yaku, u8)>::empty();
            let s0 = crate::mahjong::yaku::when(k == 31, Yaku::Yakuhai(YakuhaiKind::Haku), 1);
            lemma_then(e, k == 31, Yaku::Yakuhai(YakuhaiKind::Haku), 1, x);
            assert(e + s0 =~= s0);
            let s1 = s0 + crate::mahjong::yaku::when(k == 32, Yaku::Yakuhai(YakuhaiKind::Hatsu), 1);
            lemma_then(s0, k == 32, Yaku::Yakuhai(YakuhaiKind::Hatsu), 1, x);
            let s2 = s1 + crate::mahjong::yaku::when(k == 33, Yaku::Yakuhai(YakuhaiKind::Chun), 1);
            lemma_then(s1, k == 33, Yaku::Yakuhai(YakuhaiKind::Chun), 1, x);
            let s3 = s2 + crate::mahjong::yaku::when(c3, Yaku::Yakuhai(YakuhaiKind::Bakaze), 1);
            lemma_then(s2, c3, Yaku::Yakuhai(YakuhaiKind::Bakaze), 1, x);
            let s4 = s3 + crate::mahjong::yaku::when(c4, Yaku::Yakuhai(YakuhaiKind::Jikaze), 1);
            lemma_then(s3, c4, Yaku::Yakuhai(YakuhaiKind::Jikaze), 1, x);
            lemma_then(s4, c5, Yaku::Yakuhai(YakuhaiKind::Pei), 1, x);
        },
    }
}

proof fn lemma_yakuhai(f: WinFacts, g: Seq<Group>, x: (Yaku, u8))
    ensures
        yakuhai(f, g).contains(x) <==> x.0 is Yakuhai && x.1 == 1 && exists|i: int|
            0 <= i < g.len() && (#[trigger] g[i]).0 is Kotsu && is_value_of(f, g[i].0->Kotsu_0 as int, x.0->Yakuhai_0),
    decreases g.len(),
{
    if g.len() > 0 {
        let r = g.drop_last();
        lemma_yakuhai(f, r, x);
        lemma_yakuhai_of(f, g.last().0, x);
        lemma_in_both(yakuhai(f, r), yakuhai_of(f, g.last().0), x);
        if yakuhai(f, r).contains(x) {
            let i = choose|i: int|
                0 <= i < r.len() && (#[trigger] r[i]).0 is Kotsu && is_value_of(f, r[i].0->Kotsu_0 as int, x.0->Yakuhai_0);
            assert(g[i] == r[i]);
        }
        if yakuhai_of(f, g.last().0).contains(x) {
            assert(g[g.len() - 1].0 is Kotsu);
        }
        if x.0 is Yakuhai && x.1 == 1 && exists|i: int|
            0 <= i < g.len() && (#[trigger] g[i]).0 is Kotsu && is_value_of(f, g[i].0->Kotsu_0 as int, x.0->Yakuhai_0) {
            let i = choose|i: int|
                0 <= i < g.len() && (#[trigger] g[i]).0 is Kotsu && is_value_of(f, g[i].0->Kotsu_0 as int, x.0->Yakuhai_0);
            if i < r.len() {
                assert(r[i] == g[i]);
            }
        }
    }
}

/// Where an entry of the list of yaku of a reading comes from.
spec fn listed_by(f: WinFacts, p: Reading, x: (Yaku, u8)) -> bool {
    let g = groups_of(f, p);
    let all = hand_tiles(f);
    let two: u8 = if f.menzen { 2 } else { 1 };
    let three: u8 = if f.menzen { 3 } else { 2 };
    let six: u8 = if f.menzen { 6 } else { 5 };
    let outside = all_have_yaochuu(g) && is_yaochuu_kind(p.pair as int);
    match x.0 {
        Yaku::Pinfu => is_pinfu(f, p) && x.1 == 1,
        Yaku::Tanyao => no_yaochuu(all) && (f.menzen || f.rule_profile.open_tanyao) && x.1 == 1,
        Yaku::Ryanpeikou => f.menzen && equal_run_pairs(g, 256) == 2 && x.1 == 3,
        Yaku::Iipeikou => f.menzen && equal_run_pairs(g, 256) == 1 && x.1 == 1,
        Yaku::Sanshoku => has_sanshoku(g) && x.1 == two,
        Yaku::SanshokuDoukou => has_sanshoku_triplets(g) && x.1 == 2,
        Yaku::Ittsuu => has_straight(g) && x.1 == two,
        Yaku::Toitoi => all_triplets(g) && x.1 == 2,
        Yaku::Sanankou => concealed_triplets(g) == 3 && x.1 == 2,
        Yaku::Sankantsu => kan_count(f.melds) == 3 && x.1 == 2,
        Yaku::Honroutou => outside && all_triplets(g) && x.1 == 2,
        Yaku::Chanta => outside && !all_triplets(g) && any_honor(all) && x.1 == two,
        Yaku::Junchan => outside && !all_triplets(g) && !any_honor(all) && x.1 == three,
        Yaku::Shousangen => triplets_between(g, 31, 33) == 2 && 31 <= p.pair <= 33 && x.1 == 2,
        Yaku::Chinitsu => flush_of(all) == Some(true) && x.1 == six,
        Yaku::Honitsu => flush_of(all) == Some(false) && x.1 == three,
        _ => situational(f, f.menzen).contains(x) || yakuhai(f, g).contains(x),
    }
}

proof fn lemma_parts(s0: Seq<(Yaku, u8)>, c0: bool, c1: bool, c2: bool, c3: bool, c4: bool, c5: bool, c6: bool, c7: bool, c8: bool, c9: bool, c10: bool, c11: bool, c12: bool, c13: bool, c14: bool, c15: bool, two: u8, three: u8, six: u8, x: (Yaku, u8))
    ensures
        standard_parts(s0, c0, c1, c2, c3, c4, c5, c6, c7, c8, c9, c10, c11, c12, c13, c14, c15, two, three, six).contains(x) <==> {
            ||| s0.contains(x)
            ||| c0 && x == (Yaku::Pinfu, 1u8)
            ||| c1 && x == (Yaku::Tanyao, 1u8)
            ||| c2 && x == (Yaku::Ryanpeikou, 3u8)
            ||| c3 && x == (Yaku::Iipeikou, 1u8)
            ||| c4 && x == (Yaku::Sanshoku, two)
            ||| c5 && x == (Yaku::SanshokuDoukou, 2u8)
            ||| c6 && x == (Yaku::Ittsuu, two)
            ||| c7 && x == (Yaku::Toitoi, 2u8)
            ||| c8 && x == (Yaku::Sanankou, 2u8)
            ||| c9 && x == (Yaku::Sankantsu, 2u8)
            ||| c10 && x == (Yaku::Honroutou, 2u8)
            ||| c11 && x == (Yaku::Chanta, two)
            ||| c12 && x == (Yaku::Junchan, three)
            ||| c13 && x == (Yaku::Shousangen, 2u8)
            ||| c14 && x == (Yaku::Chinitsu, six)
            ||| c15 && x == (Yaku::Honitsu, three)
        },
{
    let s1 = s0 + crate::mahjong::yaku::when(c0, Yaku::Pinfu, 1);
    lemma_then(s0, c0, Yaku::Pinfu, 1, x);
    let s2 = s1 + crate::mahjong::yaku::when(c1, Yaku::Tanyao, 1);
    lemma_then(s1, c1, Yaku::Tanyao, 1, x);
    let s3 = s2 + crate::mahjong::yaku::when(c2, Yaku::Ryanpeikou, 3);
    lemma_then(s2, c2, Yaku::Ryanpeikou, 3, x);
    let s4 = s3 + crate::mahjong::yaku::when(c3, Yaku::Iipeikou, 1);
    lemma_then(s3, c3, Yaku::Iipeikou, 1, x);
    let s5 = s4 + crate::mahjong::yaku::when(c4, Yaku::Sanshoku, two);
    lemma_then(s4, c4, Yaku::Sanshoku, two, x);
    let s6 = s5 + crate::mahjong::yaku::when(c5, Yaku::SanshokuDoukou, 2);
    lemma_then(s5, c5, Yaku::SanshokuDoukou, 2, x);
    let s7 = s6 + crate::mahjong::yaku::when(c6, Yaku::Ittsuu, two);
    lemma_then(s6, c6, Yaku::Ittsuu, two, x);
    let s8 = s7 + crate::mahjong::yaku::when(c7, Yaku::Toitoi, 2);
    lemma_then(s7, c7, Yaku::Toitoi, 2, x);
    let s9 = s8 + crate::mahjong::yaku::when(c8, Yaku::Sanankou, 2);
    lemma_then(s8, c8, Yaku::Sanankou, 2, x);
    let s10 = s9 + crate::mahjong::yaku::when(c9, Yaku::Sankantsu, 2);
    lemma_then(s9, c9, Yaku::Sankantsu, 2, x);
    let s11 = s10 + crate::mahjong::yaku::when(c10, Yaku::Honroutou, 2);
    lemma_then(s10, c10, Yaku::Honroutou, 2, x);
    let s12 = s11 + crate::mahjong::yaku::when(c11, Yaku::Chanta, two);
    lemma_then(s11, c11, Yaku::Chanta, two, x);
    let s13 = s12 + crate::mahjong::yaku::when(c12, Yaku::Junchan, three);
    lemma_then(s12, c12, Yaku::Junchan, three, x);
    let s14 = s13 + crate::mahjong::yaku::when(c13, Yaku::Shousangen, 2);
    lemma_then(s13, c13, Yaku::Shousangen, 2, x);
    let s15 = s14 + crate::mahjong::yaku::when(c14, Yaku::Chinitsu, six);
    lemma_then(s14, c14, Yaku::Chinitsu, six, x);
    let s16 = s15 + crate::mahjong::yaku::when(c15, Yaku::Honitsu, three);
    lemma_then(s15, c15, Yaku::Honitsu, three, x);
    reveal(standard_parts);
    assert(standard_parts(s0, c0, c1, c2, c3, c4, c5, c6, c7, c8, c9, c10, c11, c12, c13, c14, c15, two, three, six) == s16);
}

proof fn lemma_all_parts(x: (Yaku, u8))
    ensures
        forall|s0: Seq<(Yaku, u8)>, c0: bool, c1: bool, c2: bool, c3: bool, c4: bool, c5: bool, c6: bool, c7: bool, c8: bool, c9: bool, c10: bool, c11: bool, c12: bool, c13: bool, c14: bool, c15: bool, two: u8, three: u8, six: u8|
            (#[trigger] standard_parts(s0, c0, c1, c2, c3, c4, c5, c6, c7, c8, c9, c10, c11, c12, c13, c14, c15, two, three, six)).contains(x) <==> {
            ||| s0.contains(x)
            ||| c0 && x == (Yaku::Pinfu, 1u8)
            ||| c1 && x == (Yaku::Tanyao, 1u8)
            ||| c2 && x == (Yaku::Ryanpeikou, 3u8)
            ||| c3 && x == (Yaku::Iipeikou, 1u8)
            ||| c4 && x == (Yaku::Sanshoku, two)
            ||| c5 && x == (Yaku::SanshokuDoukou, 2u8)
            ||| c6 && x == (Yaku::Ittsuu, two)
            ||| c7 && x == (Yaku::Toitoi, 2u8)
            ||| c8 && x == (Yaku::Sanankou, 2u8)
            ||| c9 && x == (Yaku::Sankantsu, 2u8)
            ||| c10 && x == (Yaku::Honroutou, 2u8)
            ||| c11 && x == (Yaku::Chanta, two)
            ||| c12 && x == (Yaku::Junchan, three)
            ||| c13 && x == (Yaku::Shousangen, 2u8)
            ||| c14 && x == (Yaku::Chinitsu, six)
            ||| c15 && x == (Yaku::Honitsu, three)
            },
{
    assert forall|s0: Seq<(Yaku, u8)>, c0: bool, c1: bool, c2: bool, c3: bool, c4: bool, c5: bool, c6: bool, c7: bool, c8: bool, c9: bool, c10: bool, c11: bool, c12: bool, c13: bool, c14: bool, c15: bool, two: u8, three: u8, six: u8|
        (#[trigger] standard_parts(s0, c0, c1, c2, c3, c4, c5, c6, c7, c8, c9, c10, c11, c12, c13, c14, c15, two, three, six)).contains(x) <==> {
            ||| s0.contains(x)
            ||| c0 && x == (Yaku::Pinfu, 1u8)
            ||| c1 && x == (Yaku::Tanyao, 1u8)
            ||| c2 && x == (Yaku::Ryanpeikou, 3u8)
            ||| c3 && x == (Yaku::Iipeikou, 1u8)
            ||| c4 && x == (Yaku::Sanshoku, two)
            ||| c5 && x == (Yaku::SanshokuDoukou, 2u8)
            ||| c6 && x == (Yaku::Ittsuu, two)
            ||| c7 && x == (Yaku::Toitoi, 2u8)
            ||| c8 && x == (Yaku::Sanankou, 2u8)
            ||| c9 && x == (Yaku::Sankantsu, 2u8)
            ||| c10 && x == (Yaku::Honroutou, 2u8)
            ||| c11 && x == (Yaku::Chanta, two)
            ||| c12 && x == (Yaku::Junchan, three)
            ||| c13 && x == (Yaku::Shousangen, 2u8)
            ||| c14 && x == (Yaku::Chinitsu, six)
            ||| c15 && x == (Yaku::Honitsu, three)
        } by {
        lemma_parts(s0, c0, c1, c2, c3, c4, c5, c6, c7, c8, c9, c10, c11, c12, c13, c14, c15, two, three, six, x);
    }
}

proof fn lemma_listed(f: WinFacts, p: Reading, x: (Yaku, u8))
    ensures
        standard_yaku(f, p).contains(x) <==> listed_by(f, p, x),
{
    let g = groups_of(f, p);
    lemma_situational(f, f.menzen, x);
    lemma_yakuhai(f, g, x);
    lemma_in_both(situational(f, f.menzen), yakuhai(f, g), x);
    lemma_standard_as_parts(f, p);
    lemma_all_parts(x);
}

// Counting.

/// How many of the numbers below one have a property.
pub open spec fn tally(n: int, p: spec_fn(int) -> bool) -> nat
    decreases n,
{
    if n <= 0 { 0 } else { tally(n - 1, p) + if p(n - 1) { 1nat } else { 0 } }
}

pub proof fn lemma_tally(n: int, p: spec_fn(int) -> bool)
    requires
        n >= 0,
    ensures
        set_int_range(0, n).filter(p).finite(),
        set_int_range(0, n).filter(p).len() == tally(n, p),
    decreases n,
{
    lemma_int_range(0, n);
    let s = set_int_range(0, n).filter(p);
    if n == 0 {
        assert(s =~= Set::empty());
    } else {
        lemma_tally(n - 1, p);
        let r = set_int_range(0, n - 1).filter(p);
        if p(n - 1) {
            assert(s =~= r.insert(n - 1));
        } else {
            assert(s =~= r);
        }
    }
}

/// The places of a list of groups that have a property.
pub open spec fn places(n: nat, p: spec_fn(int) -> bool) -> Set<int> {
    set_int_range(0, n as int).filter(p)
}

/// A concealed triplet.
pub open spec fn is_ankou(g: Group) -> bool {
    g.0 is Kotsu && g.1
}

/// A triplet of a kind within bounds.
pub open spec fn is_triplet_in(g: Group, lo: int, hi: int) -> bool {
    g.0 is Kotsu && lo <= g.0->Kotsu_0 <= hi
}

proof fn lemma_ankou(g: Seq<Group>, n: int)
    requires
        0 <= n <= g.len(),
    ensures
        concealed_triplets(g.take(n)) == tally(n, |i: int| is_ankou(g[i])),
    decreases n,
{
    if n > 0 {
        lemma_ankou(g, n - 1);
        assert(g.take(n).drop_last() =~= g.take(n - 1));
    }
}

proof fn lemma_concealed(g: Seq<Group>)
    ensures
        concealed_triplets(g) == places(g.len(), |i: int| is_ankou(g[i])).len(),
{
    lemma_ankou(g, g.len() as int);
    assert(g.take(g.len() as int) =~= g);
    lemma_tally(g.len() as int, |i: int| is_ankou(g[i]));
}

proof fn lemma_between_part(g: Seq<Group>, lo: u8, hi: u8, n: int)
    requires
        0 <= n <= g.len(),
    ensures
        triplets_between(g.take(n), lo, hi) == tally(n, |i: int| is_triplet_in(g[i], lo as int, hi as int)),
    decreases n,
{
    if n > 0 {
        lemma_between_part(g, lo, hi, n - 1);
        assert(g.take(n).drop_last() =~= g.take(n - 1));
    }
}

proof fn lemma_between(g: Seq<Group>, lo: u8, hi: u8)
    ensures
        triplets_between(g, lo, hi) == places(g.len(), |i: int| is_triplet_in(g[i], lo as int, hi as int)).len(),
{
    lemma_between_part(g, lo, hi, g.len() as int);
    assert(g.take(g.len() as int) =~= g);
    lemma_tally(g.len() as int, |i: int| is_triplet_in(g[i], lo as int, hi as int));
}

/// A kan of any kind.
pub open spec fn is_any_kan(m: Meld) -> bool {
    m is Ankan || m is Daiminkan || m is Kakan
}

proof fn lemma_kans_part(melds: Seq<Meld>, n: int)
    requires
        0 <= n <= melds.len(),
    ensures
        kan_count(melds.take(n)) == tally(n, |i: int| is_any_kan(melds[i])),
    decreases n,
{
    if n > 0 {
        lemma_kans_part(melds, n - 1);
        assert(melds.take(n).drop_last() =~= melds.take(n - 1));
    }
}

pub proof fn lemma_kans(melds: Seq<Meld>)
    ensures
        kan_count(melds) == places(melds.len(), |i: int| is_any_kan(melds[i])).len(),
{
    lemma_kans_part(melds, melds.len() as int);
    assert(melds.take(melds.len() as int) =~= melds);
    lemma_tally(melds.len() as int, |i: int| is_any_kan(melds[i]));
}

// Sequences.

/// Three groups hold each rank of a suit once.
pub open spec fn covers_suit(a: MeldShape, b: MeldShape, c: MeldShape, suit: int) -> bool {
    forall|r: int| 0 <= r < 9 ==> #[trigger] a.uses(9 * suit + r) + b.uses(9 * suit + r) + c.uses(9 * suit + r) == 1
}

/// Three sequences among the groups hold each of the nine ranks of a suit once.
pub open spec fn covers_some_suit(g: Seq<Group>) -> bool {
    exists|i: int, j: int, k: int, suit: int|
        0 <= i < g.len() && 0 <= j < g.len() && 0 <= k < g.len() && 0 <= suit < 3 && g[i].0 is Shuntsu && g[j].0 is Shuntsu
            && g[k].0 is Shuntsu && #[trigger] covers_suit(g[i].0, g[j].0, g[k].0, suit)
}

proof fn lemma_covering(a: u8, b: u8, c: u8, suit: int)
    requires
        0 <= suit < 3,
        covers_suit(MeldShape::Shuntsu(a), MeldShape::Shuntsu(b), MeldShape::Shuntsu(c), suit),
    ensures
        a == 9 * suit || b == 9 * suit || c == 9 * suit,
        a == 9 * suit + 3 || b == 9 * suit + 3 || c == 9 * suit + 3,
        a == 9 * suit + 6 || b == 9 * suit + 6 || c == 9 * suit + 6,
{
    let x = MeldShape::Shuntsu(a);
    let y = MeldShape::Shuntsu(b);
    let z = MeldShape::Shuntsu(c);
    assert(x.uses(9 * suit + 0) + y.uses(9 * suit + 0) + z.uses(9 * suit + 0) == 1);
    assert(x.uses(9 * suit + 1) + y.uses(9 * suit + 1) + z.uses(9 * suit + 1) == 1);
    assert(x.uses(9 * suit + 2) + y.uses(9 * suit + 2) + z.uses(9 * suit + 2) == 1);
    assert(x.uses(9 * suit + 3) + y.uses(9 * suit + 3) + z.uses(9 * suit + 3) == 1);
    assert(x.uses(9 * suit + 4) + y.uses(9 * suit + 4) + z.uses(9 * suit + 4) == 1);
    assert(x.uses(9 * suit + 5) + y.uses(9 * suit + 5) + z.uses(9 * suit + 5) == 1);
    assert(x.uses(9 * suit + 6) + y.uses(9 * suit + 6) + z.uses(9 * suit + 6) == 1);
    assert(x.uses(9 * suit + 7) + y.uses(9 * suit + 7) + z.uses(9 * suit + 7) == 1);
    assert(x.uses(9 * suit + 8) + y.uses(9 * suit + 8) + z.uses(9 * suit + 8) == 1);
}

/// Ittsuu: three sequences of one suit that hold each of its nine ranks once. 2 han closed, 1 open.
pub proof fn ittsuu_is_a_full_straight(f: WinFacts, p: Reading, h: u8)
    ensures
        standard_yaku(f, p).contains((Yaku::Ittsuu, h)) <==> covers_some_suit(groups_of(f, p)) && h == if f.menzen {
            2int
        } else {
            1
        },
{
    let g = groups_of(f, p);
    lemma_listed(f, p, (Yaku::Ittsuu, h));
    if has_straight(g) {
        let suit: int = if straight_in(g, 0) { 0 } else if straight_in(g, 9) { 1 } else { 2 };
        let base = (9 * suit) as u8;
        let i = choose|i: int| 0 <= i < g.len() && (#[trigger] g[i]).0 == MeldShape::Shuntsu(base);
        let j = choose|i: int| 0 <= i < g.len() && (#[trigger] g[i]).0 == MeldShape::Shuntsu((base + 3) as u8);
        let k = choose|i: int| 0 <= i < g.len() && (#[trigger] g[i]).0 == MeldShape::Shuntsu((base + 6) as u8);
        assert(covers_suit(g[i].0, g[j].0, g[k].0, suit));
    }
    if covers_some_suit(g) {
        let (i, j, k, suit) = choose|i: int, j: int, k: int, suit: int|
            0 <= i < g.len() && 0 <= j < g.len() && 0 <= k < g.len() && 0 <= suit < 3 && g[i].0 is Shuntsu && g[j].0 is Shuntsu
                && g[k].0 is Shuntsu && #[trigger] covers_suit(g[i].0, g[j].0, g[k].0, suit);
        lemma_covering(g[i].0->Shuntsu_0, g[j].0->Shuntsu_0, g[k].0->Shuntsu_0, suit);
        let base = (9 * suit) as u8;
        assert(holds_group(g, MeldShape::Shuntsu(base)));
        assert(holds_group(g, MeldShape::Shuntsu((base + 3) as u8)));
        assert(holds_group(g, MeldShape::Shuntsu((base + 6) as u8)));
        assert(straight_in(g, base));
    }
}

/// Three groups of one rank, one in each suit, all sequences or all triplets.
pub open spec fn in_each_suit(g: Seq<Group>, runs: bool) -> bool {
    exists|i: int, j: int, k: int|
        0 <= i < g.len() && 0 <= j < g.len() && 0 <= k < g.len() && g[i].0 is Shuntsu == runs && g[j].0 is Shuntsu == runs
            && g[k].0 is Shuntsu == runs && #[trigger] one_in_each_suit(
            g[i].0.tile_kind() as int,
            g[j].0.tile_kind() as int,
            g[k].0.tile_kind() as int,
        )
}

/// Kinds of one rank in the three suits.
pub open spec fn one_in_each_suit(a: int, b: int, c: int) -> bool {
    a / 9 == 0 && b / 9 == 1 && c / 9 == 2 && a % 9 == b % 9 && b % 9 == c % 9
}

/// Sanshoku: the same sequence in all three suits. 2 han closed, 1 open.
pub proof fn sanshoku_is_one_run_in_each_suit(f: WinFacts, p: Reading, h: u8)
    ensures
        standard_yaku(f, p).contains((Yaku::Sanshoku, h)) <==> in_each_suit(groups_of(f, p), true) && h == if f.menzen {
            2int
        } else {
            1
        },
{
    let g = groups_of(f, p);
    lemma_listed(f, p, (Yaku::Sanshoku, h));
    if has_sanshoku(g) {
        let r = choose|r: u8|
            r < 9 && #[trigger] holds_group(g, MeldShape::Shuntsu(r)) && holds_group(g, MeldShape::Shuntsu((9 + r) as u8))
                && holds_group(g, MeldShape::Shuntsu((18 + r) as u8));
        let i = choose|i: int| 0 <= i < g.len() && (#[trigger] g[i]).0 == MeldShape::Shuntsu(r);
        let j = choose|i: int| 0 <= i < g.len() && (#[trigger] g[i]).0 == MeldShape::Shuntsu((9 + r) as u8);
        let k = choose|i: int| 0 <= i < g.len() && (#[trigger] g[i]).0 == MeldShape::Shuntsu((18 + r) as u8);
        assert(one_in_each_suit(g[i].0.tile_kind() as int, g[j].0.tile_kind() as int, g[k].0.tile_kind() as int));
    }
    if in_each_suit(g, true) {
        let (i, j, k) = choose|i: int, j: int, k: int|
            0 <= i < g.len() && 0 <= j < g.len() && 0 <= k < g.len() && g[i].0 is Shuntsu == true && g[j].0 is Shuntsu == true
                && g[k].0 is Shuntsu == true && #[trigger] one_in_each_suit(
                g[i].0.tile_kind() as int,
                g[j].0.tile_kind() as int,
                g[k].0.tile_kind() as int,
            );
        let r = g[i].0->Shuntsu_0;
        assert(g[j].0 == MeldShape::Shuntsu((9 + r) as u8));
        assert(g[k].0 == MeldShape::Shuntsu((18 + r) as u8));
        assert(holds_group(g, MeldShape::Shuntsu(r)));
    }
}

/// Sanshoku doukou: the same triplet in all three suits, 2 han.
pub proof fn sanshoku_doukou_is_one_triplet_in_each_suit(f: WinFacts, p: Reading, h: u8)
    ensures
        standard_yaku(f, p).contains((Yaku::SanshokuDoukou, h)) <==> in_each_suit(groups_of(f, p), false) && h == 2,
{
    let g = groups_of(f, p);
    lemma_listed(f, p, (Yaku::SanshokuDoukou, h));
    if has_sanshoku_triplets(g) {
        let r = choose|r: u8|
            r < 9 && #[trigger] holds_group(g, MeldShape::Kotsu(r)) && holds_group(g, MeldShape::Kotsu((9 + r) as u8))
                && holds_group(g, MeldShape::Kotsu((18 + r) as u8));
        let i = choose|i: int| 0 <= i < g.len() && (#[trigger] g[i]).0 == MeldShape::Kotsu(r);
        let j = choose|i: int| 0 <= i < g.len() && (#[trigger] g[i]).0 == MeldShape::Kotsu((9 + r) as u8);
        let k = choose|i: int| 0 <= i < g.len() && (#[trigger] g[i]).0 == MeldShape::Kotsu((18 + r) as u8);
        assert(one_in_each_suit(g[i].0.tile_kind() as int, g[j].0.tile_kind() as int, g[k].0.tile_kind() as int));
    }
    if in_each_suit(g, false) {
        let (i, j, k) = choose|i: int, j: int, k: int|
            0 <= i < g.len() && 0 <= j < g.len() && 0 <= k < g.len() && g[i].0 is Shuntsu == false && g[j].0 is Shuntsu
                == false && g[k].0 is Shuntsu == false && #[trigger] one_in_each_suit(
                g[i].0.tile_kind() as int,
                g[j].0.tile_kind() as int,
                g[k].0.tile_kind() as int,
            );
        let r = g[i].0->Kotsu_0;
        assert(g[j].0 == MeldShape::Kotsu((9 + r) as u8));
        assert(g[k].0 == MeldShape::Kotsu((18 + r) as u8));
        assert(holds_group(g, MeldShape::Kotsu(r)));
    }
}

// Triplets.

/// Toitoi: every group is a triplet, 2 han.
pub proof fn toitoi_is_all_triplets(f: WinFacts, p: Reading, h: u8)
    ensures
        standard_yaku(f, p).contains((Yaku::Toitoi, h)) <==> h == 2 && forall|i: int|
            0 <= i < groups_of(f, p).len() ==> (#[trigger] groups_of(f, p)[i]).0 is Kotsu,
{
    lemma_listed(f, p, (Yaku::Toitoi, h));
}

/// Sanankou: three concealed triplets, 2 han.
pub proof fn sanankou_is_three_concealed_triplets(f: WinFacts, p: Reading, h: u8)
    ensures
        standard_yaku(f, p).contains((Yaku::Sanankou, h)) <==> h == 2 && places(
            groups_of(f, p).len(),
            |i: int| is_ankou(groups_of(f, p)[i]),
        ).len() == 3,
{
    lemma_listed(f, p, (Yaku::Sanankou, h));
    lemma_concealed(groups_of(f, p));
}

/// Sankantsu: three kans of any kind, 2 han.
pub proof fn sankantsu_is_three_kans(f: WinFacts, p: Reading, h: u8)
    ensures
        standard_yaku(f, p).contains((Yaku::Sankantsu, h)) <==> h == 2 && places(
            f.melds.len(),
            |i: int| is_any_kan(f.melds[i]),
        ).len() == 3,
{
    lemma_listed(f, p, (Yaku::Sankantsu, h));
    lemma_kans(f.melds);
}

/// Shousangen: two triplets of dragons and a pair of them, 2 han.
pub proof fn shousangen_is_two_dragons_and_a_pair(f: WinFacts, p: Reading, h: u8)
    ensures
        standard_yaku(f, p).contains((Yaku::Shousangen, h)) <==> h == 2 && 31 <= p.pair <= 33 && places(
            groups_of(f, p).len(),
            |i: int| is_triplet_in(groups_of(f, p)[i], 31, 33),
        ).len() == 2,
{
    lemma_listed(f, p, (Yaku::Shousangen, h));
    lemma_between(groups_of(f, p), 31, 33);
}

/// Yakuhai: a triplet of a dragon, of the round wind or of the seat wind, 1 han each; and of North
/// where the rules say so.
pub proof fn yakuhai_are_triplets_of_value(f: WinFacts, p: Reading, y: YakuhaiKind, h: u8)
    ensures
        standard_yaku(f, p).contains((Yaku::Yakuhai(y), h)) <==> h == 1 && exists|i: int|
            0 <= i < groups_of(f, p).len() && (#[trigger] groups_of(f, p)[i]).0 is Kotsu && is_value_of(
                f,
                groups_of(f, p)[i].0->Kotsu_0 as int,
                y,
            ),
{
    let x = (Yaku::Yakuhai(y), h);
    lemma_listed(f, p, x);
    lemma_situational(f, f.menzen, x);
    lemma_yakuhai(f, groups_of(f, p), x);
}

/// The yaku of the situation: riichi or double riichi, ippatsu with either, a self-drawn win with a
/// closed hand, the last draw unless it is a replacement, the last discard, a replacement draw and
/// a robbed kan.
pub proof fn situations_give_their_yaku(f: WinFacts, p: Reading, h: u8)
    ensures
        standard_yaku(f, p).contains((Yaku::DoubleRiichi, h)) <==> h == 2 && f.double_riichi,
        standard_yaku(f, p).contains((Yaku::Riichi, h)) <==> h == 1 && f.riichi && !f.double_riichi,
        standard_yaku(f, p).contains((Yaku::Ippatsu, h)) <==> h == 1 && f.ippatsu && (f.riichi || f.double_riichi),
        standard_yaku(f, p).contains((Yaku::MenzenTsumo, h)) <==> h == 1 && f.is_tsumo && f.menzen,
        standard_yaku(f, p).contains((Yaku::Haitei, h)) <==> h == 1 && f.haitei && !f.rinshan,
        standard_yaku(f, p).contains((Yaku::Houtei, h)) <==> h == 1 && f.houtei,
        standard_yaku(f, p).contains((Yaku::Rinshan, h)) <==> h == 1 && f.rinshan,
        standard_yaku(f, p).contains((Yaku::Chankan, h)) <==> h == 1 && f.chankan,
{
    let g = groups_of(f, p);
    assert forall|y: Yaku| !(y is Yakuhai) implies !yakuhai(f, g).contains((y, h)) by {
        lemma_yakuhai(f, g, (y, h));
    }
    lemma_listed(f, p, (Yaku::DoubleRiichi, h));
    lemma_listed(f, p, (Yaku::Riichi, h));
    lemma_listed(f, p, (Yaku::Ippatsu, h));
    lemma_listed(f, p, (Yaku::MenzenTsumo, h));
    lemma_listed(f, p, (Yaku::Haitei, h));
    lemma_listed(f, p, (Yaku::Houtei, h));
    lemma_listed(f, p, (Yaku::Rinshan, h));
    lemma_listed(f, p, (Yaku::Chankan, h));
    lemma_situational(f, f.menzen, (Yaku::DoubleRiichi, h));
    lemma_situational(f, f.menzen, (Yaku::Riichi, h));
    lemma_situational(f, f.menzen, (Yaku::Ippatsu, h));
    lemma_situational(f, f.menzen, (Yaku::MenzenTsumo, h));
    lemma_situational(f, f.menzen, (Yaku::Haitei, h));
    lemma_situational(f, f.menzen, (Yaku::Houtei, h));
    lemma_situational(f, f.menzen, (Yaku::Rinshan, h));
    lemma_situational(f, f.menzen, (Yaku::Chankan, h));
}

// The tiles of the hand.

/// A kind from two to eight of a suit.
pub open spec fn is_simple(k: int) -> bool {
    0 <= k < 27 && 1 <= k % 9 <= 7
}

/// A one or nine of a suit.
pub open spec fn is_end(k: int) -> bool {
    k == 0 || k == 8 || k == 9 || k == 17 || k == 18 || k == 26
}

/// Wind or dragon.
pub open spec fn is_letter(k: int) -> bool {
    27 <= k <= 33
}

/// Tanyao: only tiles from two to eight, closed or where open tanyao counts; 1 han.
pub proof fn tanyao_is_simples_alone(f: WinFacts, p: Reading, h: u8)
    requires
        forall|i: int| 0 <= i < hand_tiles(f).len() ==> (#[trigger] hand_tiles(f)[i]).is_known(),
    ensures
        standard_yaku(f, p).contains((Yaku::Tanyao, h)) <==> {
            &&& h == 1
            &&& f.menzen || f.rule_profile.open_tanyao
            &&& forall|i: int| 0 <= i < hand_tiles(f).len() ==> is_simple((#[trigger] hand_tiles(f)[i]).kind() as int)
        },
{
    let all = hand_tiles(f);
    lemma_listed(f, p, (Yaku::Tanyao, h));
    assert forall|i: int| 0 <= i < all.len() implies (is_simple((#[trigger] all[i]).kind() as int) <==> !all[i].is_yaochuu()) by {}
}

/// Every tile is of one suit or, where letters may be among them, a letter; and both occur.
pub open spec fn is_of_suit(all: Seq<Tile>, suit: int, letters: bool) -> bool {
    &&& exists|i: int| 0 <= i < all.len() && (#[trigger] all[i]).kind() / 9 == suit
    &&& letters ==> exists|i: int| 0 <= i < all.len() && is_letter((#[trigger] all[i]).kind() as int)
    &&& forall|i: int|
        0 <= i < all.len() ==> (#[trigger] all[i]).kind() / 9 == suit || (letters && is_letter(all[i].kind() as int))
}

/// Chinitsu: tiles of one suit alone, 6 han closed and 5 open. Honitsu: tiles of one suit and
/// letters, 3 han closed and 2 open.
pub proof fn flushes_are_of_one_suit(f: WinFacts, p: Reading, h: u8)
    requires
        forall|i: int| 0 <= i < hand_tiles(f).len() ==> (#[trigger] hand_tiles(f)[i]).is_known(),
    ensures
        standard_yaku(f, p).contains((Yaku::Chinitsu, h)) <==> h == (if f.menzen { 6int } else { 5 }) && exists|suit: int|
            0 <= suit < 3 && #[trigger] is_of_suit(hand_tiles(f), suit, false),
        standard_yaku(f, p).contains((Yaku::Honitsu, h)) <==> h == (if f.menzen { 3int } else { 2 }) && exists|suit: int|
            0 <= suit < 3 && #[trigger] is_of_suit(hand_tiles(f), suit, true),
{
    let all = hand_tiles(f);
    lemma_listed(f, p, (Yaku::Chinitsu, h));
    lemma_listed(f, p, (Yaku::Honitsu, h));
    lemma_flush(all);
}

proof fn lemma_flush(all: Seq<Tile>)
    requires
        forall|i: int| 0 <= i < all.len() ==> (#[trigger] all[i]).is_known(),
    ensures
        flush_of(all) == Some(true) <==> exists|suit: int| 0 <= suit < 3 && #[trigger] is_of_suit(all, suit, false),
        flush_of(all) == Some(false) <==> exists|suit: int| 0 <= suit < 3 && #[trigger] is_of_suit(all, suit, true),
{
    if one_suit(all) {
        let n = choose|i: int| 0 <= i < all.len() && !(#[trigger] all[i]).is_honor();
        let suit = (all[n].kind() / 9) as int;
        assert forall|i: int| 0 <= i < all.len() && !(#[trigger] all[i]).is_honor() implies all[i].kind() / 9 == suit by {
            assert(all[i].suit() == all[n].suit());
        }
        if any_honor(all) {
            let m = choose|i: int| 0 <= i < all.len() && (#[trigger] all[i]).is_honor();
            assert(is_letter(all[m].kind() as int));
            assert(is_of_suit(all, suit, true));
        } else {
            assert(is_of_suit(all, suit, false));
        }
    }
    assert forall|suit: int, letters: bool| 0 <= suit < 3 && #[trigger] is_of_suit(all, suit, letters) implies flush_of(all)
        == Some(!letters) by {
        let n = choose|i: int| 0 <= i < all.len() && (#[trigger] all[i]).kind() / 9 == suit;
        assert(!all[n].is_honor());
        assert forall|i: int, j: int|
            0 <= i < all.len() && 0 <= j < all.len() && !(#[trigger] all[i]).is_honor() && !(#[trigger] all[j]).is_honor() implies all[i].suit()
            == all[j].suit() by {
            assert(all[i].kind() / 9 == suit);
            assert(all[j].kind() / 9 == suit);
        }
        assert(one_suit(all));
        if letters {
            let m = choose|i: int| 0 <= i < all.len() && is_letter((#[trigger] all[i]).kind() as int);
            assert(all[m].is_honor());
        } else {
            assert forall|i: int| 0 <= i < all.len() implies !(#[trigger] all[i]).is_honor() by {}
        }
    }
}

/// A group holds a one, a nine or a letter.
pub open spec fn touches_end(m: MeldShape) -> bool {
    exists|k: int| (is_end(k) || is_letter(k)) && #[trigger] m.uses(k) > 0
}

/// Every group and the pair hold a one, a nine or a letter.
pub open spec fn is_outside(f: WinFacts, p: Reading) -> bool {
    &&& is_end(p.pair as int) || is_letter(p.pair as int)
    &&& forall|i: int| 0 <= i < groups_of(f, p).len() ==> touches_end((#[trigger] groups_of(f, p)[i]).0)
}

/// Honroutou: only ones, nines and letters in triplets, 2 han. Chanta: every group and the pair
/// hold one of these, with a sequence and a letter among them, 2 han closed and 1 open. Junchan:
/// the same without letters, 3 han closed and 2 open.
pub proof fn outside_hands_hold_ends(f: WinFacts, p: Reading, h: u8)
    requires
        forall|i: int| 0 <= i < groups_of(f, p).len() ==> (#[trigger] groups_of(f, p)[i]).0.is_group(),
    ensures
        standard_yaku(f, p).contains((Yaku::Honroutou, h)) <==> h == 2 && is_outside(f, p) && forall|i: int|
            0 <= i < groups_of(f, p).len() ==> (#[trigger] groups_of(f, p)[i]).0 is Kotsu,
        standard_yaku(f, p).contains((Yaku::Chanta, h)) <==> h == (if f.menzen { 2int } else { 1 }) && is_outside(f, p) && (
        exists|i: int| 0 <= i < groups_of(f, p).len() && (#[trigger] groups_of(f, p)[i]).0 is Shuntsu) && (exists|i: int|
            0 <= i < hand_tiles(f).len() && is_letter((#[trigger] hand_tiles(f)[i]).kind() as int)),
        standard_yaku(f, p).contains((Yaku::Junchan, h)) <==> h == (if f.menzen { 3int } else { 2 }) && is_outside(f, p) && (
        exists|i: int| 0 <= i < groups_of(f, p).len() && (#[trigger] groups_of(f, p)[i]).0 is Shuntsu) && (forall|i: int|
            0 <= i < hand_tiles(f).len() ==> !is_letter((#[trigger] hand_tiles(f)[i]).kind() as int)),
{
    let g = groups_of(f, p);
    lemma_listed(f, p, (Yaku::Honroutou, h));
    lemma_listed(f, p, (Yaku::Chanta, h));
    lemma_listed(f, p, (Yaku::Junchan, h));
    assert forall|i: int| 0 <= i < g.len() implies (touches_end((#[trigger] g[i]).0) <==> group_has_yaochuu(g[i].0)) by {
        lemma_touches(g[i].0);
    }
    assert forall|i: int| 0 <= i < g.len() && !((#[trigger] g[i]).0 is Kotsu) implies g[i].0 is Shuntsu by {}
    assert(is_yaochuu_kind(p.pair as int) <==> is_end(p.pair as int) || is_letter(p.pair as int));
    let all = hand_tiles(f);
    assert forall|i: int| 0 <= i < all.len() implies (is_letter((#[trigger] all[i]).kind() as int) <==> all[i].is_honor()) by {}
}

proof fn lemma_touches(m: MeldShape)
    requires
        m.is_group(),
    ensures
        touches_end(m) <==> group_has_yaochuu(m),
{
    match m {
        MeldShape::Kotsu(k) => {
            assert(m.uses(k as int) > 0);
        },
        MeldShape::Shuntsu(s) => {
            assert(m.uses(s as int) > 0);
            assert(m.uses(s + 2) > 0);
        },
    }
}

// Equal sequences.

/// Two different places hold the same sequence.
pub open spec fn are_twins(g: Seq<Group>, i: int, j: int) -> bool {
    0 <= i < g.len() && 0 <= j < g.len() && i != j && g[i].0 is Shuntsu && g[i].0 == g[j].0
}

/// Two pairs of equal sequences at four different places.
pub open spec fn has_two_twins(g: Seq<Group>) -> bool {
    exists|i: int, j: int, k: int, l: int|
        #[trigger] are_twins(g, i, j) && #[trigger] are_twins(g, k, l) && i != k && i != l && j != k && j != l
}

/// A pair of equal sequences.
pub open spec fn has_twins(g: Seq<Group>) -> bool {
    exists|i: int, j: int| #[trigger] are_twins(g, i, j)
}

spec fn run_is(g: Seq<Group>, k: int) -> spec_fn(int) -> bool {
    |i: int| g[i].0 is Shuntsu && g[i].0->Shuntsu_0 == k
}

proof fn lemma_runs_part(g: Seq<Group>, k: int, n: int)
    requires
        0 <= n <= g.len(),
    ensures
        runs_at(g.take(n), k) == tally(n, run_is(g, k)),
    decreases n,
{
    if n > 0 {
        lemma_runs_part(g, k, n - 1);
        assert(g.take(n).drop_last() =~= g.take(n - 1));
    }
}

proof fn lemma_some_place(n: int, p: spec_fn(int) -> bool) -> (i: int)
    requires
        tally(n, p) > 0,
    ensures
        0 <= i < n,
        p(i),
        tally(i, p) == tally(n, p) - 1,
    decreases n,
{
    if n > 0 && p(n - 1) {
        n - 1
    } else {
        lemma_some_place(n - 1, p)
    }
}

proof fn lemma_counts_place(n: int, p: spec_fn(int) -> bool, i: int)
    requires
        0 <= i < n,
        p(i),
    ensures
        tally(n, p) >= tally(i, p) + 1,
    decreases n,
{
    if i < n - 1 {
        lemma_counts_place(n - 1, p, i);
    }
}

proof fn lemma_tally_grows(m: int, n: int, p: spec_fn(int) -> bool)
    requires
        m <= n,
    ensures
        tally(m, p) <= tally(n, p),
    decreases n - m,
{
    if m < n {
        lemma_tally_grows(m, n - 1, p);
    }
}

/// The sequences that begin below a kind are no more than the groups.
proof fn lemma_pairs_bound(g: Seq<Group>, n: nat)
    ensures
        equal_run_pairs(g, n) * 2 <= runs_below(g, n as int),
        runs_below(g, n as int) <= g.len(),
    decreases n,
{
    lemma_runs_below_len(g, n as int);
    if n > 0 {
        lemma_pairs_bound(g, (n - 1) as nat);
        lemma_runs_step(g, n as int);
    }
}

/// Number of sequences that begin below a kind.
spec fn runs_below(g: Seq<Group>, k: int) -> nat
    decreases g.len(),
{
    if g.len() == 0 {
        0
    } else {
        runs_below(g.drop_last(), k) + if g.last().0 is Shuntsu && g.last().0->Shuntsu_0 < k { 1nat } else { 0 }
    }
}

proof fn lemma_runs_below_len(g: Seq<Group>, k: int)
    ensures
        runs_below(g, k) <= g.len(),
    decreases g.len(),
{
    if g.len() > 0 {
        lemma_runs_below_len(g.drop_last(), k);
    }
}

proof fn lemma_runs_step(g: Seq<Group>, n: int)
    ensures
        runs_below(g, n) == runs_below(g, n - 1) + runs_at(g, n - 1),
    decreases g.len(),
{
    if g.len() > 0 {
        lemma_runs_step(g.drop_last(), n);
    }
}

proof fn lemma_pairs_grow(g: Seq<Group>, m: nat, n: nat)
    requires
        m <= n,
    ensures
        equal_run_pairs(g, m) <= equal_run_pairs(g, n),
    decreases n - m,
{
    if m < n {
        lemma_pairs_grow(g, m, (n - 1) as nat);
    }
}

/// A kind whose sequences give a pair, below a bound where there is one.
proof fn lemma_paired_kind(g: Seq<Group>, n: nat) -> (k: nat)
    requires
        equal_run_pairs(g, n) > 0,
    ensures
        k < n,
        runs_at(g, k as int) >= 2,
        equal_run_pairs(g, k) == equal_run_pairs(g, n) - runs_at(g, k as int) / 2,
    decreases n,
{
    if runs_at(g, n - 1) >= 2 {
        (n - 1) as nat
    } else {
        lemma_paired_kind(g, (n - 1) as nat)
    }
}

proof fn lemma_four_places(g: Seq<Group>, k: int) -> (r: (int, int, int, int))
    requires
        runs_at(g, k) >= 4,
    ensures
        are_twins(g, r.0, r.1),
        are_twins(g, r.2, r.3),
        r.0 != r.2 && r.0 != r.3 && r.1 != r.2 && r.1 != r.3,
{
    let p = run_is(g, k);
    lemma_runs_part(g, k, g.len() as int);
    assert(g.take(g.len() as int) =~= g);
    let a = lemma_some_place(g.len() as int, p);
    let b = lemma_some_place(a, p);
    let c = lemma_some_place(b, p);
    let d = lemma_some_place(c, p);
    (a, b, c, d)
}

proof fn lemma_two_places(g: Seq<Group>, k: int) -> (r: (int, int))
    requires
        runs_at(g, k) >= 2,
    ensures
        are_twins(g, r.0, r.1),
        g[r.0].0 == MeldShape::Shuntsu(k as u8),
        0 <= k <= 255,
{
    let p = run_is(g, k);
    lemma_runs_part(g, k, g.len() as int);
    assert(g.take(g.len() as int) =~= g);
    let a = lemma_some_place(g.len() as int, p);
    let b = lemma_some_place(a, p);
    (a, b)
}

/// Places of one sequence are counted by the pairs that it gives.
proof fn lemma_twins_count(g: Seq<Group>, i: int, j: int)
    requires
        are_twins(g, i, j),
    ensures
        runs_at(g, g[i].0->Shuntsu_0 as int) >= 2,
{
    let k = g[i].0->Shuntsu_0 as int;
    let p = run_is(g, k);
    lemma_runs_part(g, k, g.len() as int);
    assert(g.take(g.len() as int) =~= g);
    let lo = if i < j { i } else { j };
    let hi = if i < j { j } else { i };
    lemma_counts_place(g.len() as int, p, hi);
    lemma_counts_place(hi, p, lo);
}

proof fn lemma_at_least(g: Seq<Group>, k: nat, n: nat)
    requires
        k < n,
    ensures
        equal_run_pairs(g, n) >= equal_run_pairs(g, k) + runs_at(g, k as int) / 2,
{
    lemma_pairs_grow(g, k + 1, n);
}

/// Four different places of one sequence.
proof fn lemma_four_count(g: Seq<Group>, k: int, a: int, b: int, c: int, d: int)
    requires
        0 <= a < b < c < d < g.len(),
        run_is(g, k)(a) && run_is(g, k)(b) && run_is(g, k)(c) && run_is(g, k)(d),
    ensures
        runs_at(g, k) >= 4,
{
    let p = run_is(g, k);
    lemma_runs_part(g, k, g.len() as int);
    assert(g.take(g.len() as int) =~= g);
    lemma_counts_place(g.len() as int, p, d);
    lemma_counts_place(d, p, c);
    lemma_counts_place(c, p, b);
    lemma_counts_place(b, p, a);
}

proof fn lemma_sorted_four(g: Seq<Group>, k: int, i: int, j: int, m: int, l: int)
    requires
        are_twins(g, i, j),
        are_twins(g, m, l),
        i != m && i != l && j != m && j != l,
        g[i].0 == MeldShape::Shuntsu(k as u8),
        g[m].0 == g[i].0,
        0 <= k <= 255,
    ensures
        runs_at(g, k) >= 4,
{
    let a = if i < j { i } else { j };
    let b = if i < j { j } else { i };
    let c = if m < l { m } else { l };
    let d = if m < l { l } else { m };
    if b < c {
        lemma_four_count(g, k, a, b, c, d);
    } else if d < a {
        lemma_four_count(g, k, c, d, a, b);
    } else if a < c {
        if b < d {
            lemma_four_count(g, k, a, c, b, d);
        } else {
            lemma_four_count(g, k, a, c, d, b);
        }
    } else {
        if b < d {
            lemma_four_count(g, k, c, a, b, d);
        } else {
            lemma_four_count(g, k, c, a, d, b);
        }
    }
}

proof fn lemma_twin_pairs(g: Seq<Group>)
    requires
        g.len() <= 5,
    ensures
        equal_run_pairs(g, 256) == 2 <==> has_two_twins(g),
        equal_run_pairs(g, 256) == 1 <==> has_twins(g) && !has_two_twins(g),
{
    lemma_pairs_bound(g, 256);
    let e = equal_run_pairs(g, 256);
    if e >= 1 {
        let k = lemma_paired_kind(g, 256);
        let (a, b) = lemma_two_places(g, k as int);
        assert(are_twins(g, a, b));
        if e == 2 {
            if runs_at(g, k as int) >= 4 {
                let (i, j, m, l) = lemma_four_places(g, k as int);
                assert(are_twins(g, i, j) && are_twins(g, m, l));
            } else {
                let q = lemma_paired_kind(g, k);
                let (c, d) = lemma_two_places(g, q as int);
                assert(are_twins(g, a, b) && are_twins(g, c, d));
            }
        }
    }
    if has_twins(g) {
        let (i, j) = choose|i: int, j: int| #[trigger] are_twins(g, i, j);
        lemma_twins_count(g, i, j);
        lemma_at_least(g, g[i].0->Shuntsu_0 as nat, 256);
    }
    if has_two_twins(g) {
        let (i, j, m, l) = choose|i: int, j: int, k: int, l: int|
            #[trigger] are_twins(g, i, j) && #[trigger] are_twins(g, k, l) && i != k && i != l && j != k && j != l;
        let a = g[i].0->Shuntsu_0;
        let b = g[m].0->Shuntsu_0;
        lemma_twins_count(g, i, j);
        lemma_twins_count(g, m, l);
        if a == b {
            lemma_sorted_four(g, a as int, i, j, m, l);
            lemma_at_least(g, a as nat, 256);
        } else {
            let lo = if a < b { a } else { b };
            let hi = if a < b { b } else { a };
            lemma_at_least(g, lo as nat, hi as nat);
            lemma_at_least(g, hi as nat, 256);
        }
    }
}

/// Ryanpeikou: closed, with two pairs of equal sequences, 3 han. Iipeikou: closed, with one, 1 han.
pub proof fn peikou_are_equal_runs(f: WinFacts, p: Reading, h: u8)
    requires
        groups_of(f, p).len() <= 5,
    ensures
        standard_yaku(f, p).contains((Yaku::Ryanpeikou, h)) <==> h == 3 && f.menzen && has_two_twins(groups_of(f, p)),
        standard_yaku(f, p).contains((Yaku::Iipeikou, h)) <==> h == 1 && f.menzen && has_twins(groups_of(f, p))
            && !has_two_twins(groups_of(f, p)),
{
    lemma_listed(f, p, (Yaku::Ryanpeikou, h));
    lemma_listed(f, p, (Yaku::Iipeikou, h));
    lemma_twin_pairs(groups_of(f, p));
}

// Waits.

pub proof fn lemma_waits(pair: u8, melds: Seq<MeldShape>, win: int, w: WaitShape)
    ensures
        waits_of(pair, melds, win).contains(w) <==> (w == WaitShape::Tanki && pair == win) || exists|i: int|
            0 <= i < melds.len() && wait_in_group(#[trigger] melds[i], win) == Some(w),
    decreases melds.len(),
{
    if melds.len() == 0 {
        let s = Seq::<WaitShape>::empty();
        assert(!s.contains(WaitShape::Tanki));
        if pair == win {
            assert(waits_of(pair, melds, win) =~= s.push(WaitShape::Tanki));
            assert(waits_of(pair, melds, win)[0] == WaitShape::Tanki);
        }
    } else {
        let r = melds.drop_last();
        lemma_waits(pair, r, win, w);
        let before = waits_of(pair, r, win);
        let after = waits_of(pair, melds, win);
        if before.contains(w) {
            let i = choose|i: int| 0 <= i < before.len() && before[i] == w;
            assert(after[i] == w);
            if exists|i: int| 0 <= i < r.len() && wait_in_group(#[trigger] r[i], win) == Some(w) {
                let j = choose|i: int| 0 <= i < r.len() && wait_in_group(#[trigger] r[i], win) == Some(w);
                assert(melds[j] == r[j]);
            }
        }
        if after.contains(w) && !before.contains(w) {
            assert(wait_in_group(melds[melds.len() - 1], win) == Some(w));
        }
        if wait_in_group(melds.last(), win) == Some(w) && !before.contains(w) {
            assert(after[after.len() - 1] == w);
        }
        if exists|i: int| 0 <= i < melds.len() && wait_in_group(#[trigger] melds[i], win) == Some(w) {
            let i = choose|i: int| 0 <= i < melds.len() && wait_in_group(#[trigger] melds[i], win) == Some(w);
            if i < r.len() {
                assert(r[i] == melds[i]);
            }
        }
    }
}

proof fn lemma_best(s: Seq<WaitShape>)
    ensures
        s.len() > 0 <==> best_wait(s) is Some,
        s.len() > 0 ==> s.contains(best_wait(s)->0),
        forall|i: int| 0 <= i < s.len() ==> wait_rank(#[trigger] s[i]) <= wait_rank(best_wait(s)->0),
    decreases s.len(),
{
    if s.len() > 0 {
        let r = s.drop_last();
        lemma_best(r);
        if r.len() > 0 {
            let b = best_wait(r)->0;
            let i = choose|i: int| 0 <= i < r.len() && r[i] == b;
            assert(s[i] == b);
        }
        assert(s[s.len() - 1] == s.last());
        assert forall|i: int| 0 <= i < s.len() implies wait_rank(#[trigger] s[i]) <= wait_rank(best_wait(s)->0) by {
            if i < r.len() {
                assert(r[i] == s[i]);
            }
        }
    }
}

/// A sequence that a tile completed from either side: the other two ranks could have taken a tile
/// at their other end too.
pub open spec fn is_two_sided(m: MeldShape, win: int) -> bool {
    match m {
        MeldShape::Kotsu(_) => false,
        MeldShape::Shuntsu(s) => (win == s && s % 9 != 6) || (win == s + 2 && s % 9 != 0),
    }
}

/// Pinfu: closed, sequences alone, a pair of no value and a two-sided wait; 1 han.
pub proof fn pinfu_is_runs_and_a_two_sided_wait(f: WinFacts, p: Reading, h: u8)
    ensures
        standard_yaku(f, p).contains((Yaku::Pinfu, h)) <==> {
            &&& h == 1 && f.menzen
            &&& forall|i: int| 0 <= i < groups_of(f, p).len() ==> (#[trigger] groups_of(f, p)[i]).0 is Shuntsu
            &&& !(31 <= p.pair <= 33) && p.pair != f.bakaze.kind() && p.pair != f.jikaze.kind()
            &&& exists|i: int| 0 <= i < p.melds.len() && is_two_sided(#[trigger] p.melds[i], f.win_tile.kind() as int)
        },
{
    lemma_listed(f, p, (Yaku::Pinfu, h));
    let win = f.win_tile.kind() as int;
    let s = waits_of(p.pair, p.melds, win);
    lemma_waits(p.pair, p.melds, win, WaitShape::Ryanmen);
    lemma_best(s);
    assert forall|i: int| 0 <= i < p.melds.len() implies (is_two_sided(#[trigger] p.melds[i], win) <==> wait_in_group(
        p.melds[i],
        win,
    ) == Some(WaitShape::Ryanmen)) by {}
    if s.contains(WaitShape::Ryanmen) {
        let i = choose|i: int| 0 <= i < s.len() && s[i] == WaitShape::Ryanmen;
        assert(wait_rank(s[i]) <= wait_rank(best_wait(s)->0));
    }
}

// Groups.

/// A triplet of a reading counts as open only where ron completed it: the winning tile is of its
/// kind and could stand neither in the pair nor in a sequence of the reading. Every other group of
/// the reading is concealed.
pub proof fn only_ron_opens_a_concealed_triplet(f: WinFacts, p: Reading, i: int)
    requires
        0 <= i < p.melds.len(),
    ensures
        groups_of(f, p).len() >= p.melds.len(),
        groups_of(f, p)[i].0 == p.melds[i],
        f.is_tsumo ==> groups_of(f, p)[i].1,
        !groups_of(f, p)[i].1 ==> {
            &&& p.melds[i] == MeldShape::Kotsu(f.win_tile.kind() as u8)
            &&& p.pair != f.win_tile.kind()
            &&& forall|j: int|
                0 <= j < p.melds.len() ==> !((#[trigger] p.melds[j]) is Shuntsu && p.melds[j].uses(f.win_tile.kind() as int) > 0)
        },
        !f.is_tsumo && p.pair != f.win_tile.kind() && f.win_tile.is_known() && (exists|j: int|
            0 <= j < p.melds.len() && #[trigger] p.melds[j] == MeldShape::Kotsu(f.win_tile.kind() as u8)) && (forall|j: int|
            0 <= j < p.melds.len() ==> !((#[trigger] p.melds[j]) is Shuntsu && p.melds[j].uses(f.win_tile.kind() as int) > 0))
            ==> exists|j: int| 0 <= j < p.melds.len() && !(#[trigger] groups_of(f, p)[j]).1,
{
    let win = f.win_tile.kind() as int;
    let s = waits_of(p.pair, p.melds, win);
    let kotsu = MeldShape::Kotsu(f.win_tile.kind() as u8);
    lemma_best(s);
    lemma_waits(p.pair, p.melds, win, WaitShape::Ryanmen);
    lemma_waits(p.pair, p.melds, win, WaitShape::Kanchan);
    lemma_waits(p.pair, p.melds, win, WaitShape::Penchan);
    lemma_waits(p.pair, p.melds, win, WaitShape::Tanki);
    lemma_waits(p.pair, p.melds, win, WaitShape::Shanpon);
    lemma_first(p.melds, kotsu);
    lemma_pair_first(p.pair, p.melds, win);
    let at = opened_by_ron(f, p);
    if best_wait(s) == Some(WaitShape::Shanpon) {
        assert forall|j: int| 0 <= j < p.melds.len() implies !((#[trigger] p.melds[j]) is Shuntsu && p.melds[j].uses(win) > 0) by {
            if p.melds[j] is Shuntsu && p.melds[j].uses(win) > 0 {
                let w = wait_in_group(p.melds[j], win)->0;
                assert(wait_in_group(p.melds[j], win) == Some(w));
                let k = choose|k: int| 0 <= k < s.len() && s[k] == w;
                assert(wait_rank(s[k]) <= wait_rank(best_wait(s)->0));
            }
        }
    }
    if !f.is_tsumo && p.pair != f.win_tile.kind() && f.win_tile.is_known() && (exists|j: int|
        0 <= j < p.melds.len() && #[trigger] p.melds[j] == kotsu) && (forall|j: int|
        0 <= j < p.melds.len() ==> !((#[trigger] p.melds[j]) is Shuntsu && p.melds[j].uses(win) > 0)) {
        let n = choose|j: int| 0 <= j < p.melds.len() && #[trigger] p.melds[j] == kotsu;
        assert(wait_in_group(p.melds[n], win) == Some(WaitShape::Shanpon));
        let b = best_wait(s)->0;
        assert(s.contains(b));
        if b != WaitShape::Shanpon && b != WaitShape::Tanki {
            let m = choose|i: int| 0 <= i < p.melds.len() && wait_in_group(#[trigger] p.melds[i], win) == Some(b);
            assert(p.melds[m] is Shuntsu && p.melds[m].uses(win) > 0);
        }
        assert(0 <= at < p.melds.len());
        assert(!groups_of(f, p)[at].1);
    }
}

/// A pair that the tile stands in is the first reading of the wait.
proof fn lemma_pair_first(pair: u8, melds: Seq<MeldShape>, win: int)
    ensures
        pair == win ==> waits_of(pair, melds, win).len() > 0 && waits_of(pair, melds, win)[0] == WaitShape::Tanki,
        pair == win ==> best_wait(waits_of(pair, melds, win)) != Some(WaitShape::Shanpon),
    decreases melds.len(),
{
    if melds.len() > 0 {
        lemma_pair_first(pair, melds.drop_last(), win);
    } else if pair == win {
        assert(waits_of(pair, melds, win) =~= seq![WaitShape::Tanki]);
    }
    if pair == win {
        lemma_first_stays(waits_of(pair, melds, win));
    }
}

proof fn lemma_first_stays(s: Seq<WaitShape>)
    requires
        s.len() > 0,
        s[0] == WaitShape::Tanki,
    ensures
        best_wait(s) is Some,
        best_wait(s) != Some(WaitShape::Shanpon),
    decreases s.len(),
{
    if s.len() > 1 {
        lemma_first_stays(s.drop_last());
        lemma_best(s.drop_last());
        assert(wait_rank(s.drop_last()[0]) <= wait_rank(best_wait(s.drop_last())->0));
    } else {
        assert(s.drop_last() =~= Seq::empty());
    }
}

proof fn lemma_first(melds: Seq<MeldShape>, m: MeldShape)
    ensures
        0 <= first_at(melds, m) <= melds.len(),
        first_at(melds, m) < melds.len() ==> melds[first_at(melds, m)] == m,
        (exists|j: int| 0 <= j < melds.len() && #[trigger] melds[j] == m) ==> first_at(melds, m) < melds.len(),
    decreases melds.len(),
{
    if melds.len() > 0 {
        let r = melds.drop_first();
        lemma_first(r, m);
        if melds[0] != m {
            if exists|j: int| 0 <= j < melds.len() && #[trigger] melds[j] == m {
                let j = choose|j: int| 0 <= j < melds.len() && #[trigger] melds[j] == m;
                assert(r[j - 1] == m);
            }
        }
    }
}

/// A called meld that is what it is called: a chi of three following ranks of a suit, a pon or kan
/// of one kind.
pub open spec fn is_proper(m: Meld) -> bool {
    match m {
        Meld::Chi { tiles, .. } => exists|k: int|
            #![trigger is_run_of(tiles@, k)]
            is_run_of(tiles@, k),
        Meld::Pon { tile, called, consumed, .. } => tile.is_known() && called.kind() == tile.kind() && consumed@[0].kind()
            == tile.kind() && consumed@[1].kind() == tile.kind(),
        Meld::Daiminkan { tile, called, .. } => tile.is_known() && called.kind() == tile.kind(),
        Meld::Kakan { tile, added } => tile.is_known() && added.kind() == tile.kind(),
        Meld::Ankan { tile } => tile.is_known(),
        Meld::Nukidora { .. } => true,
    }
}

/// Three tiles of three following ranks of a suit, in whatever order.
pub open spec fn is_run_of(tiles: Seq<Tile>, k: int) -> bool {
    &&& 0 <= k < 27 && k % 9 <= 6
    &&& k <= tiles[0].kind() <= k + 2 && k <= tiles[1].kind() <= k + 2 && k <= tiles[2].kind() <= k + 2
    &&& tiles[0].kind() != tiles[1].kind() && tiles[1].kind() != tiles[2].kind() && tiles[0].kind() != tiles[2].kind()
}

/// The tiles of a called meld beyond those of its group: the fourth of a kan.
pub open spec fn fourth_of(m: Meld, k: int) -> int {
    if is_any_kan(m) && m.kind_tile().kind() == k { 1 } else { 0 }
}

proof fn lemma_meld_tiles(m: Meld, k: int)
    requires
        is_proper(m),
        0 <= k < 34,
    ensures
        m is Nukidora <==> meld_group(m) is None,
        meld_group(m) is Some ==> (meld_group(m)->0).0.is_group() && count_kind(
            m.spec_tiles().map_values(|t: Tile| t.deaka()),
            k,
        ) == (meld_group(m)->0).0.uses(k) + fourth_of(m, k),
        meld_group(m) is Some ==> (meld_group(m)->0).1 == (m is Ankan),
{
    reveal_with_fuel(count_kind, 6);
    let s = m.spec_tiles().map_values(|t: Tile| t.deaka());
    if !(m is Nukidora) {
        assert(s.drop_last().drop_last().drop_last() =~= if s.len() == 3 { Seq::empty() } else { seq![s[0]] });
        assert(s.drop_last().drop_last().last() == s[s.len() - 3]);
        assert(s.drop_last().last() == s[s.len() - 2]);
        if s.len() == 4 {
            assert(seq![s[0]].drop_last() =~= Seq::empty());
            assert(seq![s[0]].last() == s[0]);
        }
    }
    match m {
        Meld::Chi { tiles, .. } => {
            let b = choose|b: int| #![trigger is_run_of(tiles@, b)] is_run_of(tiles@, b);
            assert(s[0].kind() == tiles@[0].kind());
            assert(s[1].kind() == tiles@[1].kind());
            assert(s[2].kind() == tiles@[2].kind());
        },
        _ => {},
    }
}

proof fn lemma_count_append(a: Seq<Tile>, b: Seq<Tile>, k: int)
    ensures
        count_kind(a + b, k) == count_kind(a, k) + count_kind(b, k),
    decreases b.len(),
{
    if b.len() == 0 {
        assert(a + b =~= a);
    } else {
        lemma_count_append(a, b.drop_last(), k);
        assert((a + b).drop_last() =~= a + b.drop_last());
    }
}

/// How many tiles of a kind groups hold.
pub open spec fn held(g: Seq<Group>, k: int) -> int
    decreases g.len(),
{
    if g.len() == 0 { 0 } else { held(g.drop_last(), k) + g.last().0.uses(k) }
}

/// How many fourth tiles of a kind kans hold.
pub open spec fn fourths(melds: Seq<Meld>, k: int) -> int
    decreases melds.len(),
{
    if melds.len() == 0 { 0 } else { fourths(melds.drop_last(), k) + fourth_of(melds.last(), k) }
}

proof fn lemma_called_tiles(melds: Seq<Meld>, k: int)
    requires
        forall|i: int| 0 <= i < melds.len() ==> is_proper(#[trigger] melds[i]),
        0 <= k < 34,
    ensures
        count_kind(called_tiles(melds), k) == held(called_groups(melds), k) + fourths(melds, k),
        forall|i: int| 0 <= i < called_groups(melds).len() ==> (#[trigger] called_groups(melds)[i]).0.is_group(),
    decreases melds.len(),
{
    if melds.len() > 0 {
        let r = melds.drop_last();
        assert forall|i: int| 0 <= i < r.len() implies is_proper(#[trigger] r[i]) by {
            assert(melds[i] == r[i]);
        }
        lemma_called_tiles(r, k);
        let m = melds.last();
        assert(is_proper(melds[melds.len() - 1]));
        lemma_meld_tiles(m, k);
        if !(m is Nukidora) {
            lemma_count_append(called_tiles(r), m.spec_tiles().map_values(|t: Tile| t.deaka()), k);
            assert(called_groups(melds).drop_last() =~= called_groups(r));
        }
    }
}

proof fn lemma_held_append(a: Seq<Group>, b: Seq<Group>, k: int)
    ensures
        held(a + b, k) == held(a, k) + held(b, k),
    decreases b.len(),
{
    if b.len() == 0 {
        assert(a + b =~= a);
    } else {
        lemma_held_append(a, b.drop_last(), k);
        assert((a + b).drop_last() =~= a + b.drop_last());
    }
}

proof fn lemma_held_used(g: Seq<Group>, melds: Seq<MeldShape>, k: int)
    requires
        g.len() == melds.len(),
        forall|i: int| 0 <= i < g.len() ==> (#[trigger] g[i]).0 == melds[i],
    ensures
        held(g, k) == used(melds, k),
    decreases g.len(),
{
    if g.len() > 0 {
        let r = melds.drop_last();
        let q = g.drop_last();
        assert forall|i: int| 0 <= i < q.len() implies (#[trigger] q[i]).0 == r[i] by {
            assert(g[i].0 == melds[i]);
        }
        lemma_held_used(q, r, k);
        assert(g[g.len() - 1].0 == melds[melds.len() - 1]);
        lemma_used_last(melds, k);
    }
}

proof fn lemma_used_last(melds: Seq<MeldShape>, k: int)
    requires
        melds.len() > 0,
    ensures
        used(melds, k) == used(melds.drop_last(), k) + melds.last().uses(k),
    decreases melds.len(),
{
    if melds.len() == 1 {
        assert(melds.drop_first() =~= Seq::empty());
        assert(melds.drop_last() =~= Seq::empty());
    } else {
        lemma_used_last(melds.drop_first(), k);
        assert(melds.drop_first().drop_last() =~= melds.drop_last().drop_first());
    }
}

/// The groups of a reading and of the called melds, the pair and the fourth tiles of kans are
/// together the tiles of the hand, kind by kind.
pub proof fn groups_make_up_the_hand(f: WinFacts, p: Reading, need: nat, k: int)
    requires
        f.concealed.len() == 34,
        is_reading(f.concealed, need, p),
        forall|i: int| 0 <= i < f.melds.len() ==> is_proper(#[trigger] f.melds[i]),
        0 <= k < 34,
    ensures
        count_kind(hand_tiles(f), k) == held(groups_of(f, p), k) + fourths(f.melds, k) + if p.pair == k { 2int } else { 0 },
        forall|i: int| 0 <= i < groups_of(f, p).len() ==> (#[trigger] groups_of(f, p)[i]).0.is_group(),
{
    let own = Seq::new(p.melds.len(), |i: int| (p.melds[i], i != opened_by_ron(f, p)));
    let rest = without_pair(f.concealed, p.pair as int);
    lemma_called_tiles(f.melds, k);
    lemma_held_append(own, called_groups(f.melds), k);
    lemma_held_used(own, p.melds, k);
    lemma_count_append(expand(f.concealed), called_tiles(f.melds), k);
    lemma_expand_counts(f.concealed, k);
    assert(rest[k] == used(p.melds, k));
    assert forall|i: int| 0 <= i < groups_of(f, p).len() implies (#[trigger] groups_of(f, p)[i]).0.is_group() by {
        if i < p.melds.len() {
            assert(p.melds[i].is_group());
        } else {
            assert(groups_of(f, p)[i] == called_groups(f.melds)[i - p.melds.len()]);
        }
    }
}

// Seven pairs.

/// The yaku of seven pairs: chiitoitsu itself, tanyao, honroutou and the flushes as for any closed
/// hand, and those of the situation.
pub proof fn seven_pairs_give_their_yaku(f: WinFacts, h: u8)
    requires
        forall|i: int| 0 <= i < hand_tiles(f).len() ==> (#[trigger] hand_tiles(f)[i]).is_known(),
    ensures
        seven_pairs_yaku(f).contains((Yaku::Chiitoitsu, h)) <==> h == 2,
        seven_pairs_yaku(f).contains((Yaku::Tanyao, h)) <==> h == 1 && forall|i: int|
            0 <= i < hand_tiles(f).len() ==> is_simple((#[trigger] hand_tiles(f)[i]).kind() as int),
        seven_pairs_yaku(f).contains((Yaku::Honroutou, h)) <==> h == 2 && forall|i: int|
            0 <= i < hand_tiles(f).len() ==> is_end((#[trigger] hand_tiles(f)[i]).kind() as int) || is_letter(
                hand_tiles(f)[i].kind() as int,
            ),
        seven_pairs_yaku(f).contains((Yaku::Chinitsu, h)) <==> h == 6 && exists|suit: int|
            0 <= suit < 3 && #[trigger] is_of_suit(hand_tiles(f), suit, false),
        seven_pairs_yaku(f).contains((Yaku::Honitsu, h)) <==> h == 3 && exists|suit: int|
            0 <= suit < 3 && #[trigger] is_of_suit(hand_tiles(f), suit, true),
        seven_pairs_yaku(f).contains((Yaku::DoubleRiichi, h)) <==> h == 2 && f.double_riichi,
        seven_pairs_yaku(f).contains((Yaku::Riichi, h)) <==> h == 1 && f.riichi && !f.double_riichi,
        seven_pairs_yaku(f).contains((Yaku::Ippatsu, h)) <==> h == 1 && f.ippatsu && (f.riichi || f.double_riichi),
        seven_pairs_yaku(f).contains((Yaku::MenzenTsumo, h)) <==> h == 1 && f.is_tsumo,
        seven_pairs_yaku(f).contains((Yaku::Haitei, h)) <==> h == 1 && f.haitei && !f.rinshan,
        seven_pairs_yaku(f).contains((Yaku::Houtei, h)) <==> h == 1 && f.houtei,
        seven_pairs_yaku(f).contains((Yaku::Rinshan, h)) <==> h == 1 && f.rinshan,
        seven_pairs_yaku(f).contains((Yaku::Chankan, h)) <==> h == 1 && f.chankan,
{
    let all = hand_tiles(f);
    lemma_flush(all);
    assert forall|i: int| 0 <= i < all.len() implies (is_simple((#[trigger] all[i]).kind() as int) <==> !all[i].is_yaochuu()) by {}
    assert forall|i: int| 0 <= i < all.len() implies (is_end((#[trigger] all[i]).kind() as int) || is_letter(
        all[i].kind() as int,
    ) <==> all[i].is_yaochuu()) by {}
    lemma_seven(f, (Yaku::Chiitoitsu, h));
    lemma_seven(f, (Yaku::Tanyao, h));
    lemma_seven(f, (Yaku::Honroutou, h));
    lemma_seven(f, (Yaku::Chinitsu, h));
    lemma_seven(f, (Yaku::Honitsu, h));
    lemma_seven(f, (Yaku::DoubleRiichi, h));
    lemma_seven(f, (Yaku::Riichi, h));
    lemma_seven(f, (Yaku::Ippatsu, h));
    lemma_seven(f, (Yaku::MenzenTsumo, h));
    lemma_seven(f, (Yaku::Haitei, h));
    lemma_seven(f, (Yaku::Houtei, h));
    lemma_seven(f, (Yaku::Rinshan, h));
    lemma_seven(f, (Yaku::Chankan, h));
}

proof fn lemma_seven(f: WinFacts, x: (Yaku, u8))
    ensures
        seven_pairs_yaku(f).contains(x) <==> {
            ||| x == (Yaku::Chiitoitsu, 2u8)
            ||| no_yaochuu(hand_tiles(f)) && x == (Yaku::Tanyao, 1u8)
            ||| all_yaochuu(hand_tiles(f)) && x == (Yaku::Honroutou, 2u8)
            ||| flush_of(hand_tiles(f)) == Some(true) && x == (Yaku::Chinitsu, 6u8)
            ||| flush_of(hand_tiles(f)) == Some(false) && x == (Yaku::Honitsu, 3u8)
            ||| f.double_riichi && x == (Yaku::DoubleRiichi, 2u8)
            ||| !f.double_riichi && f.riichi && x == (Yaku::Riichi, 1u8)
            ||| f.ippatsu && (f.riichi || f.double_riichi) && x == (Yaku::Ippatsu, 1u8)
            ||| f.is_tsumo && x == (Yaku::MenzenTsumo, 1u8)
            ||| f.haitei && !f.rinshan && x == (Yaku::Haitei, 1u8)
            ||| f.houtei && x == (Yaku::Houtei, 1u8)
            ||| f.rinshan && x == (Yaku::Rinshan, 1u8)
            ||| f.chankan && x == (Yaku::Chankan, 1u8)
        },
{
    let all = hand_tiles(f);
    let s0 = seq![(Yaku::Chiitoitsu, 2u8)];
    assert(s0[0] == (Yaku::Chiitoitsu, 2u8));
    lemma_in_both(s0, situational(f, true), x);
    lemma_situational(f, true, x);
    let s1 = s0 + situational(f, true);
    let c1 = no_yaochuu(all);
    let c2 = all_yaochuu(all);
    let c3 = flush_of(all) == Some(true);
    let c4 = flush_of(all) == Some(false);
    lemma_seven_parts(s1, c1, c2, c3, c4, x);
}

proof fn lemma_seven_parts(s1: Seq<(Yaku, u8)>, c1: bool, c2: bool, c3: bool, c4: bool, x: (Yaku, u8))
    ensures
        (s1 + crate::mahjong::yaku::when(c1, Yaku::Tanyao, 1) + crate::mahjong::yaku::when(c2, Yaku::Honroutou, 2)
            + crate::mahjong::yaku::when(c3, Yaku::Chinitsu, 6) + crate::mahjong::yaku::when(c4, Yaku::Honitsu, 3)).contains(x)
            <==> s1.contains(x) || (c1 && x == (Yaku::Tanyao, 1u8)) || (c2 && x == (Yaku::Honroutou, 2u8)) || (c3 && x == (
            Yaku::Chinitsu,
            6u8,
        )) || (c4 && x == (Yaku::Honitsu, 3u8)),
{
    let s2 = s1 + crate::mahjong::yaku::when(c1, Yaku::Tanyao, 1);
    lemma_then(s1, c1, Yaku::Tanyao, 1, x);
    let s3 = s2 + crate::mahjong::yaku::when(c2, Yaku::Honroutou, 2);
    lemma_then(s2, c2, Yaku::Honroutou, 2, x);
    let s4 = s3 + crate::mahjong::yaku::when(c3, Yaku::Chinitsu, 6);
    lemma_then(s3, c3, Yaku::Chinitsu, 6, x);
    lemma_then(s4, c4, Yaku::Honitsu, 3, x);
}

// The whole hand.

/// The han of a list of yaku, added up from the first on.
pub open spec fn total_han(s: Seq<(Yaku, u8)>) -> int {
    s.fold_left(0int, |sum: int, x: (Yaku, u8)| sum + x.1)
}

pub proof fn lemma_total(s: Seq<(Yaku, u8)>)
    ensures
        han_sum(s) == total_han(s),
    decreases s.len(),
{
    if s.len() > 0 {
        lemma_total(s.drop_last());
    }
}

spec fn pick(os: Seq<YakuOutcome>, start: YakuOutcome) -> YakuOutcome
    decreases os.len(),
{
    if os.len() == 0 {
        start
    } else {
        let b = pick(os.drop_last(), start);
        if os.last().han > b.han { os.last() } else { b }
    }
}

proof fn lemma_pick(os: Seq<YakuOutcome>, start: YakuOutcome)
    ensures
        ({
            let b = pick(os, start);
            &&& b == start || exists|i: int| 0 <= i < os.len() && b == #[trigger] os[i]
            &&& b.han >= start.han
            &&& forall|i: int| 0 <= i < os.len() ==> b.han >= (#[trigger] os[i]).han
        }),
    decreases os.len(),
{
    if os.len() > 0 {
        let r = os.drop_last();
        lemma_pick(r, start);
        let b = pick(r, start);
        if b != start {
            let i = choose|i: int| 0 <= i < r.len() && b == #[trigger] r[i];
            assert(os[i] == r[i]);
        }
        assert(os[os.len() - 1] == os.last());
        assert forall|i: int| 0 <= i < os.len() implies pick(os, start).han >= (#[trigger] os[i]).han by {
            if i < r.len() {
                assert(r[i] == os[i]);
            }
        }
    }
}

#[verifier::opaque]
spec fn outcome(f: WinFacts, p: Reading) -> YakuOutcome {
    standard_outcome(f, p)
}

spec fn outcomes(f: WinFacts, ps: Seq<Reading>) -> Seq<YakuOutcome> {
    Seq::new(ps.len(), |i: int| outcome(f, ps[i]))
}

#[verifier::rlimit(40)]
proof fn lemma_best_step(f: WinFacts, ps: Seq<Reading>, start: YakuOutcome)
    requires
        ps.len() > 0,
    ensures
        best_standard(f, ps, start) == if outcome(f, ps.last()).han > best_standard(f, ps.drop_last(), start).han {
            outcome(f, ps.last())
        } else {
            best_standard(f, ps.drop_last(), start)
        },
{
    reveal(outcome);
}

proof fn lemma_best_is_picked(f: WinFacts, ps: Seq<Reading>, start: YakuOutcome)
    ensures
        best_standard(f, ps, start) == pick(outcomes(f, ps), start),
    decreases ps.len(),
{
    if ps.len() > 0 {
        lemma_best_is_picked(f, ps.drop_last(), start);
        lemma_best_step(f, ps, start);
        assert(outcomes(f, ps).drop_last() =~= outcomes(f, ps.drop_last()));
        assert(outcomes(f, ps).last() == outcome(f, ps.last()));
    }
}

proof fn lemma_outcome(f: WinFacts, p: Reading)
    ensures
        outcome(f, p).yaku == standard_yaku(f, p),
        outcome(f, p).han == total_han(outcome(f, p).yaku),
        outcome(f, p).yakuman == 0,
{
    reveal(outcome);
    lemma_total(standard_yaku(f, p));
}

/// A hand without yakuman is taken by the reading that has most han: the list is that of one
/// reading or of the seven pairs, no reading has more, and the han are the sum of those listed.
pub proof fn evaluation_takes_the_reading_with_most_han(f: WinFacts)
    requires
        yakuman_kinds(f).len() == 0,
    ensures
        evaluated(f).yakuman == 0,
        evaluated(f).han == total_han(evaluated(f).yaku),
        form_of(f) != HandForm::Orphans ==> forall|i: int|
            0 <= i < readings_of(f).len() ==> evaluated(f).han >= total_han(standard_yaku(f, #[trigger] readings_of(f)[i])),
        form_of(f) == HandForm::SevenPairs ==> evaluated(f).han >= total_han(seven_pairs_yaku(f)),
        evaluated(f).yaku.len() > 0 ==> (form_of(f) == HandForm::SevenPairs && evaluated(f).yaku == seven_pairs_yaku(f)) || exists|
            i: int,
        | 0 <= i < readings_of(f).len() && evaluated(f).yaku == standard_yaku(f, #[trigger] readings_of(f)[i]),
{
    let ps = readings_of(f);
    let start = if form_of(f) == HandForm::SevenPairs { seven_pairs_outcome(f) } else { no_yaku() };
    let os = outcomes(f, ps);
    lemma_best_is_picked(f, ps, start);
    lemma_pick(os, start);
    lemma_total(seven_pairs_yaku(f));
    lemma_total(Seq::empty());
    assert forall|i: int| 0 <= i < ps.len() implies {
        let o = outcome(f, #[trigger] ps[i]);
        o.yaku == standard_yaku(f, ps[i]) && o.han == total_han(o.yaku) && o.yakuman == 0 && os[i] == o
    } by {
        lemma_outcome(f, ps[i]);
    }
    let b = best_standard(f, ps, start);
    if b != start {
        let i = choose|i: int| 0 <= i < os.len() && b == #[trigger] os[i];
        assert(outcome(f, ps[i]) == b);
    }
}

// Yakuman.

/// The yakuman that one reading of a hand gives.
pub open spec fn reading_gives(f: WinFacts, p: Reading, k: YakumanKind) -> bool {
    let g = groups_of(f, p);
    let dragons = places(g.len(), |i: int| is_triplet_in(g[i], 31, 33)).len();
    let winds = places(g.len(), |i: int| is_triplet_in(g[i], 27, 30)).len();
    let ankou = places(g.len(), |i: int| is_ankou(g[i])).len();
    match k {
        YakumanKind::Daisangen => dragons == 3,
        YakumanKind::Daisuushi => winds == 4,
        YakumanKind::Shousuushi => winds == 3 && 27 <= p.pair <= 30,
        YakumanKind::SuuankouTanki => ankou >= 4 && p.pair == f.win_tile.kind(),
        YakumanKind::Suuankou => ankou >= 4 && p.pair != f.win_tile.kind() && f.is_tsumo,
        YakumanKind::Suukantsu => places(f.melds.len(), |i: int| is_any_kan(f.melds[i])).len() == 4,
        _ => false,
    }
}

/// The yakuman that the tiles of a hand or the situation give, whatever the reading.
pub open spec fn hand_gives(f: WinFacts, k: YakumanKind) -> bool {
    let all = hand_tiles(f);
    match k {
        YakumanKind::Tenhou => f.tenhou,
        YakumanKind::Chiihou => f.chiihou,
        YakumanKind::KokushiMusouJuusanmen => form_of(f) == HandForm::Orphans && waits_on_thirteen(f),
        YakumanKind::KokushiMusou => form_of(f) == HandForm::Orphans && !waits_on_thirteen(f),
        YakumanKind::Tsuuiisou => all.len() > 0 && forall|i: int|
            0 <= i < all.len() ==> is_letter((#[trigger] all[i]).kind() as int),
        YakumanKind::Chinroutou => all.len() > 0 && forall|i: int|
            0 <= i < all.len() ==> is_end((#[trigger] all[i]).kind() as int),
        YakumanKind::Ryuuiisou => all.len() > 0 && forall|i: int|
            0 <= i < all.len() ==> (#[trigger] all[i]).kind() == 32 || is_green_bamboo(all[i].kind() as int),
        _ => false,
    }
}

/// Two, three, four, six or eight of bamboo.
pub open spec fn is_green_bamboo(k: int) -> bool {
    k / 9 == 2 && (k % 9 + 1 == 2 || k % 9 + 1 == 3 || k % 9 + 1 == 4 || k % 9 + 1 == 6 || k % 9 + 1 == 8)
}

/// Each of the thirteen ends and letters is held once, but the one that won, which is held twice.
pub open spec fn waits_on_thirteen(f: WinFacts) -> bool {
    let w = f.win_tile.kind() as int;
    &&& is_end(w) || is_letter(w)
    &&& forall|k: int|
        0 <= k < 34 ==> #[trigger] f.concealed[k] == if is_end(k) || is_letter(k) {
            if k == w { 2int } else { 1 }
        } else {
            0
        }
}

proof fn lemma_kind_added(s: Seq<YakumanKind>, c: bool, k: YakumanKind, x: YakumanKind)
    ensures
        with_kind(s, c, k).contains(x) <==> s.contains(x) || (c && x == k),
{
    let t = with_kind(s, c, k);
    if s.contains(x) {
        let i = choose|i: int| 0 <= i < s.len() && s[i] == x;
        assert(t[i] == x);
    }
    if c && !s.contains(k) {
        assert(t[s.len() as int] == k);
        if t.contains(x) {
            let i = choose|i: int| 0 <= i < t.len() && t[i] == x;
            if i < s.len() {
                assert(s[i] == x);
            }
        }
    }
}

proof fn lemma_with_reading(s: Seq<YakumanKind>, f: WinFacts, p: Reading, x: YakumanKind)
    ensures
        with_reading(s, f, p).contains(x) <==> s.contains(x) || reading_gives(f, p, x),
{
    let g = groups_of(f, p);
    lemma_between(g, 31, 33);
    lemma_between(g, 27, 30);
    lemma_concealed(g);
    lemma_kans(f.melds);
    let winds = triplets_between(g, 27, 30);
    let four = concealed_triplets(g) >= 4;
    let on_pair = p.pair == f.win_tile.kind();
    let c1 = triplets_between(g, 31, 33) == 3;
    let c3 = winds == 3 && 27 <= p.pair <= 30;
    let c6 = kan_count(f.melds) == 4;
    let s1 = with_kind(s, c1, YakumanKind::Daisangen);
    lemma_kind_added(s, c1, YakumanKind::Daisangen, x);
    let s2 = with_kind(s1, winds == 4, YakumanKind::Daisuushi);
    lemma_kind_added(s1, winds == 4, YakumanKind::Daisuushi, x);
    let s3 = with_kind(s2, c3, YakumanKind::Shousuushi);
    lemma_kind_added(s2, c3, YakumanKind::Shousuushi, x);
    let s4 = with_kind(s3, four && on_pair, YakumanKind::SuuankouTanki);
    lemma_kind_added(s3, four && on_pair, YakumanKind::SuuankouTanki, x);
    let s5 = with_kind(s4, four && !on_pair && f.is_tsumo, YakumanKind::Suuankou);
    lemma_kind_added(s4, four && !on_pair && f.is_tsumo, YakumanKind::Suuankou, x);
    lemma_kind_added(s5, c6, YakumanKind::Suukantsu, x);
}

proof fn lemma_with_readings(s: Seq<YakumanKind>, f: WinFacts, ps: Seq<Reading>, x: YakumanKind)
    ensures
        with_readings(s, f, ps).contains(x) <==> s.contains(x) || exists|i: int|
            0 <= i < ps.len() && reading_gives(f, #[trigger] ps[i], x),
    decreases ps.len(),
{
    if ps.len() > 0 {
        let r = ps.drop_last();
        lemma_with_readings(s, f, r, x);
        lemma_with_reading(with_readings(s, f, r), f, ps.last(), x);
        assert(ps[ps.len() - 1] == ps.last());
        if exists|i: int| 0 <= i < r.len() && reading_gives(f, #[trigger] r[i], x) {
            let i = choose|i: int| 0 <= i < r.len() && reading_gives(f, #[trigger] r[i], x);
            assert(ps[i] == r[i]);
        }
        if exists|i: int| 0 <= i < ps.len() && reading_gives(f, #[trigger] ps[i], x) {
            let i = choose|i: int| 0 <= i < ps.len() && reading_gives(f, #[trigger] ps[i], x);
            if i < r.len() {
                assert(r[i] == ps[i]);
            }
        }
    }
}

proof fn lemma_kind_then(s: Seq<YakumanKind>, c: bool, k: YakumanKind, x: YakumanKind)
    ensures
        (s + when_kind(c, k)).contains(x) <==> s.contains(x) || (c && x == k),
{
    let t = s + when_kind(c, k);
    if s.contains(x) {
        let i = choose|i: int| 0 <= i < s.len() && s[i] == x;
        assert(t[i] == x);
    }
    if c {
        assert(t[s.len() as int] == k);
    }
    if t.contains(x) {
        let i = choose|i: int| 0 <= i < t.len() && t[i] == x;
        if i < s.len() {
            assert(s[i] == x);
        }
    }
}

proof fn lemma_kind_parts(c0: bool, c1: bool, c2: bool, c3: bool, c4: bool, c5: bool, c6: bool, x: YakumanKind)
    ensures
        (when_kind(c0, YakumanKind::Tenhou) + when_kind(c1, YakumanKind::Chiihou) + when_kind(
            c2,
            YakumanKind::KokushiMusouJuusanmen,
        ) + when_kind(c3, YakumanKind::KokushiMusou) + when_kind(c4, YakumanKind::Tsuuiisou) + when_kind(
            c5,
            YakumanKind::Chinroutou,
        ) + when_kind(c6, YakumanKind::Ryuuiisou)).contains(x) <==> (c0 && x == YakumanKind::Tenhou) || (c1 && x
            == YakumanKind::Chiihou) || (c2 && x == YakumanKind::KokushiMusouJuusanmen) || (c3 && x
            == YakumanKind::KokushiMusou) || (c4 && x == YakumanKind::Tsuuiisou) || (c5 && x == YakumanKind::Chinroutou) || (c6
            && x == YakumanKind::Ryuuiisou),
{
    let e = Seq::<YakumanKind>::empty();
    let s0 = when_kind(c0, YakumanKind::Tenhou);
    lemma_kind_then(e, c0, YakumanKind::Tenhou, x);
    assert(e + s0 =~= s0);
    let s1 = s0 + when_kind(c1, YakumanKind::Chiihou);
    lemma_kind_then(s0, c1, YakumanKind::Chiihou, x);
    let s2 = s1 + when_kind(c2, YakumanKind::KokushiMusouJuusanmen);
    lemma_kind_then(s1, c2, YakumanKind::KokushiMusouJuusanmen, x);
    let s3 = s2 + when_kind(c3, YakumanKind::KokushiMusou);
    lemma_kind_then(s2, c3, YakumanKind::KokushiMusou, x);
    let s4 = s3 + when_kind(c4, YakumanKind::Tsuuiisou);
    lemma_kind_then(s3, c4, YakumanKind::Tsuuiisou, x);
    let s5 = s4 + when_kind(c5, YakumanKind::Chinroutou);
    lemma_kind_then(s4, c5, YakumanKind::Chinroutou, x);
    lemma_kind_then(s5, c6, YakumanKind::Ryuuiisou, x);
}

proof fn lemma_whole_hand(f: WinFacts, x: YakumanKind)
    requires
        f.concealed.len() == 34,
        f.win_tile.is_known(),
        forall|i: int| 0 <= i < hand_tiles(f).len() ==> (#[trigger] hand_tiles(f)[i]).is_known(),
    ensures
        whole_hand_yakuman(f).contains(x) <==> hand_gives(f, x),
{
    let all = hand_tiles(f);
    let c2 = form_of(f) == HandForm::Orphans && is_thirteen_wait(f);
    let c3 = form_of(f) == HandForm::Orphans && !is_thirteen_wait(f);
    let c4 = all.len() > 0 && all_honor(all);
    let c5 = all.len() > 0 && all_terminal(all);
    let c6 = all.len() > 0 && all_green(all);
    lemma_kind_parts(f.tenhou, f.chiihou, c2, c3, c4, c5, c6, x);
    assert forall|i: int| 0 <= i < all.len() implies (is_letter((#[trigger] all[i]).kind() as int) <==> all[i].is_honor()) by {}
    assert forall|i: int| 0 <= i < all.len() implies (is_end((#[trigger] all[i]).kind() as int) <==> all[i].is_terminal()) by {}
    assert forall|i: int| 0 <= i < all.len() implies (is_green_kind((#[trigger] all[i]).kind() as int) <==> all[i].kind()
        == 32 || is_green_bamboo(all[i].kind() as int)) by {}
    assert(is_thirteen_wait(f) <==> waits_on_thirteen(f)) by {
        assert forall|k: int| 0 <= k < 34 implies (is_yaochuu_kind(k) <==> is_end(k) || is_letter(k)) by {}
        let w = f.win_tile.kind() as int;
        if is_thirteen_wait(f) {
            assert forall|k: int| 0 <= k < 34 implies #[trigger] f.concealed[k] == if is_end(k) || is_letter(k) {
                if k == w { 2int } else { 1 }
            } else {
                0
            } by {}
        }
        if waits_on_thirteen(f) {
            assert(f.concealed[w] == 2);
        }
    }
}

/// One suit alone: three ones, three nines, one of each rank between, and one tile more.
pub open spec fn is_nine_gates_in(c: Seq<u8>, suit: int) -> bool {
    &&& sum_counts(c) == 14
    &&& forall|k: int| 0 <= k < 34 && k / 9 != suit ==> #[trigger] c[k] == 0
    &&& forall|k: int|
        0 <= k < 34 && k / 9 == suit ==> #[trigger] c[k] >= if is_end(k) { 3int } else { 1 }
}

/// A hand gives a yakuman exactly where it is complete and one of these holds: its tiles or the
/// situation give it, or one of its readings does. Nine gates stand apart.
pub proof fn yakuman_are_what_they_stand_for(f: WinFacts, k: YakumanKind)
    requires
        f.concealed.len() == 34,
        f.win_tile.is_known(),
        forall|i: int| 0 <= i < hand_tiles(f).len() ==> (#[trigger] hand_tiles(f)[i]).is_known(),
        k != YakumanKind::ChuurenPoutou && k != YakumanKind::JunseiChuuren,
    ensures
        yakuman_kinds(f).contains(k) <==> is_complete_hand(f) && (hand_gives(f, k) || (form_of(f) == HandForm::Standard
            && exists|i: int| 0 <= i < readings_of(f).len() && reading_gives(f, #[trigger] readings_of(f)[i], k))),
{
    lemma_whole_hand(f, k);
    let s = whole_hand_yakuman(f);
    lemma_with_readings(s, f, readings_of(f), k);
    if chuuren_of(f) is Some {
        lemma_kind_added(with_readings(s, f, readings_of(f)), f.menzen, chuuren_of(f)->0, k);
    }
}

/// The yakuman of a hand count once each, or twice where the rules double four of them; the
/// multiplier is their sum, and han do not count beside them.
pub proof fn yakuman_multiply(f: WinFacts)
    requires
        yakuman_kinds(f).len() > 0,
    ensures
        evaluated(f).han == 0,
        evaluated(f).yaku.len() == yakuman_kinds(f).len(),
        forall|i: int|
            0 <= i < yakuman_kinds(f).len() ==> #[trigger] evaluated(f).yaku[i] == (Yaku::Yakuman(yakuman_kinds(f)[i]), 0u8),
        evaluated(f).yakuman == yakuman_kinds(f).fold_left(
            0int,
            |sum: int, k: YakumanKind|
                sum + if f.rule_profile.double_special_yakuman && (k == YakumanKind::SuuankouTanki || k
                    == YakumanKind::JunseiChuuren || k == YakumanKind::Daisuushi || k
                    == YakumanKind::KokushiMusouJuusanmen) {
                    2int
                } else {
                    1
                },
        ),
{
    lemma_weights(f.rule_profile, yakuman_kinds(f));
}

proof fn lemma_weights(profile: RiichiRuleProfile, s: Seq<YakumanKind>)
    ensures
        weight_sum(profile, s) == s.fold_left(
            0int,
            |sum: int, k: YakumanKind|
                sum + if profile.double_special_yakuman && (k == YakumanKind::SuuankouTanki || k == YakumanKind::JunseiChuuren
                    || k == YakumanKind::Daisuushi || k == YakumanKind::KokushiMusouJuusanmen) {
                    2int
                } else {
                    1
                },
        ),
    decreases s.len(),
{
    if s.len() > 0 {
        lemma_weights(profile, s.drop_last());
    }
}

// Nine gates.

/// What nine gates hold of each kind, without the extra tile.
spec fn gates(suit: int) -> Seq<u8> {
    Seq::new(34, |k: int| if k / 9 == suit { if is_end(k) { 3u8 } else { 1u8 } } else { 0u8 })
}

proof fn lemma_gates_sum(suit: int)
    requires
        0 <= suit < 3,
    ensures
        sum_counts(gates(suit)) == 13,
{
    lemma_gates_part(suit, 34);
    assert(gates(suit).take(34) =~= gates(suit));
}

proof fn lemma_gates_part(suit: int, n: int)
    requires
        0 <= suit < 3,
        0 <= n <= 34,
    ensures
        sum_counts(gates(suit).take(n)) == if n <= 9 * suit {
            0int
        } else if n >= 9 * suit + 9 {
            13
        } else {
            n - 9 * suit + 2
        },
    decreases n,
{
    if n > 0 {
        lemma_gates_part(suit, n - 1);
        assert(gates(suit).take(n).drop_last() =~= gates(suit).take(n - 1));
        assert(gates(suit).take(n).last() == gates(suit)[n - 1]);
    }
}

/// Counts that are nowhere less than others and one more in sum differ at one place.
proof fn lemma_one_more(c: Seq<u8>, d: Seq<u8>) -> (e: int)
    requires
        c.len() == d.len(),
        forall|k: int| 0 <= k < c.len() ==> #[trigger] c[k] >= d[k],
        sum_counts(c) <= sum_counts(d) + 1,
    ensures
        sum_counts(c) >= sum_counts(d),
        sum_counts(c) == sum_counts(d) ==> forall|k: int| 0 <= k < c.len() ==> #[trigger] c[k] == d[k],
        sum_counts(c) == sum_counts(d) + 1 ==> 0 <= e < c.len() && forall|k: int|
            0 <= k < c.len() ==> #[trigger] c[k] == d[k] + if k == e { 1int } else { 0 },
    decreases c.len(),
{
    if c.len() == 0 {
        0
    } else {
        let a = c.drop_last();
        let b = d.drop_last();
        assert forall|k: int| 0 <= k < a.len() implies #[trigger] a[k] >= b[k] by {
            assert(c[k] >= d[k]);
        }
        assert(c[c.len() - 1] >= d[d.len() - 1]);
        let e = lemma_one_more(a, b);
        let r = if c.last() > d.last() { c.len() - 1 } else { e };
        if sum_counts(c) == sum_counts(d) {
            assert forall|k: int| 0 <= k < c.len() implies #[trigger] c[k] == d[k] by {
                if k < a.len() {
                    assert(a[k] == b[k]);
                }
            }
        }
        if sum_counts(c) == sum_counts(d) + 1 {
            assert forall|k: int| 0 <= k < c.len() implies #[trigger] c[k] == d[k] + if k == r { 1int } else { 0 } by {
                if k < a.len() {
                    assert(a[k] == c[k] && b[k] == d[k]);
                }
            }
        }
        r
    }
}

proof fn lemma_sum_one_more(c: Seq<u8>, d: Seq<u8>, e: int)
    requires
        c.len() == d.len(),
        0 <= e < c.len(),
        forall|k: int| 0 <= k < c.len() ==> #[trigger] c[k] == d[k] + if k == e { 1int } else { 0 },
    ensures
        sum_counts(c) == sum_counts(d) + 1,
    decreases c.len(),
{
    let a = c.drop_last();
    let b = d.drop_last();
    assert(c[c.len() - 1] == d[d.len() - 1] + if c.len() - 1 == e { 1int } else { 0 });
    if e == c.len() - 1 {
        assert(a =~= b) by {
            assert forall|k: int| 0 <= k < a.len() implies a[k] == b[k] by {
                assert(c[k] == d[k] + if k == e { 1int } else { 0 });
            }
        }
    } else {
        assert forall|k: int| 0 <= k < a.len() implies #[trigger] a[k] == b[k] + if k == e { 1int } else { 0 } by {
            assert(c[k] == d[k] + if k == e { 1int } else { 0 });
        }
        lemma_sum_one_more(a, b, e);
    }
}

proof fn lemma_nine_gates(c: Seq<u8>, suit: int)
    requires
        c.len() == 34,
        0 <= suit < 3,
    ensures
        is_nine_gates(c, 9 * suit) <==> is_nine_gates_in(c, suit),
{
    let d = gates(suit);
    lemma_gates_sum(suit);
    if is_nine_gates_in(c, suit) {
        assert forall|k: int| 0 <= k < c.len() implies #[trigger] c[k] >= d[k] by {}
        let e = lemma_one_more(c, d);
        assert(c[e] == d[e] + 1);
        assert(e / 9 == suit);
        assert(is_nine_gates_with(c, 9 * suit, e - 9 * suit));
    }
    if is_nine_gates(c, 9 * suit) {
        let base = 9 * suit;
        let e = choose|e: int| is_nine_gates_with(c, base, e);
        assert forall|k: int| 0 <= k < c.len() implies #[trigger] c[k] == d[k] + if k == 9 * suit + e { 1int } else { 0 } by {}
        lemma_sum_one_more(c, d, 9 * suit + e);
        assert forall|k: int| 0 <= k < 34 && k / 9 != suit implies #[trigger] c[k] == 0 by {}
        assert forall|k: int| 0 <= k < 34 && k / 9 == suit implies #[trigger] c[k] >= if is_end(k) { 3int } else { 1 } by {}
    }
}

/// Chuuren: a closed hand without called groups whose tiles are, in one suit alone, three ones,
/// three nines, one of each rank between and one tile more. It is the pure form where the winning
/// tile is the one more.
pub proof fn chuuren_is_nine_gates(f: WinFacts)
    requires
        f.concealed.len() == 34,
        f.win_tile.is_known(),
        f.concealed[f.win_tile.kind() as int] > 0,
        forall|i: int| 0 <= i < hand_tiles(f).len() ==> (#[trigger] hand_tiles(f)[i]).is_known(),
    ensures
        ({
            let w = f.win_tile.kind() as int;
            let gates = form_of(f) == HandForm::Standard && is_complete_hand(f) && f.menzen && (forall|i: int|
                0 <= i < f.melds.len() ==> (#[trigger] f.melds[i]) is Nukidora) && exists|suit: int|
                0 <= suit < 3 && #[trigger] is_nine_gates_in(f.concealed, suit);
            let pure = f.concealed[w] == 2 && !is_end(w) || f.concealed[w] == 4 && is_end(w);
            &&& yakuman_kinds(f).contains(YakumanKind::JunseiChuuren) <==> gates && pure
            &&& yakuman_kinds(f).contains(YakumanKind::ChuurenPoutou) <==> gates && !pure
        }),
{
    let w = f.win_tile.kind() as int;
    let s = whole_hand_yakuman(f);
    let t = with_readings(s, f, readings_of(f));
    let a = YakumanKind::JunseiChuuren;
    let b = YakumanKind::ChuurenPoutou;
    lemma_whole_hand(f, a);
    lemma_whole_hand(f, b);
    lemma_with_readings(s, f, readings_of(f), a);
    lemma_with_readings(s, f, readings_of(f), b);
    lemma_nine_gates(f.concealed, 0);
    lemma_nine_gates(f.concealed, 1);
    lemma_nine_gates(f.concealed, 2);
    lemma_no_groups(f.melds);
    if chuuren_of(f) is Some {
        lemma_kind_added(t, f.menzen, chuuren_of(f)->0, a);
        lemma_kind_added(t, f.menzen, chuuren_of(f)->0, b);
    }
    assert forall|suit: int| 0 <= suit < 3 && #[trigger] is_nine_gates_in(f.concealed, suit) implies w / 9 == suit by {}
    assert forall|base: int, e: int|
        (base == 0 || base == 9 || base == 18) && #[trigger] is_nine_gates_with(f.concealed, base, e) && w / 9 == base / 9 implies (e
        == w - base <==> (f.concealed[w] == 2 && !is_end(w) || f.concealed[w] == 4 && is_end(w))) by {
        assert(f.concealed[w] == nine_gates_need(w - base) + if w - base == e { 1int } else { 0 });
    }
    if group_meld_count(f.melds) == 0 {
        let suit = w / 9;
        if 0 <= suit < 3 && is_nine_gates(f.concealed, 9 * suit) {
            let base = 9 * suit;
            let e = choose|e: int| is_nine_gates_with(f.concealed, base, e);
            assert(is_nine_gates_with(f.concealed, 9 * suit, e));
        }
        if is_nine_gates_in(f.concealed, 0) || is_nine_gates_in(f.concealed, 1) || is_nine_gates_in(f.concealed, 2) {
            assert(is_nine_gates_in(f.concealed, suit));
        }
    }
}

proof fn lemma_no_groups(melds: Seq<Meld>)
    ensures
        group_meld_count(melds) == 0 <==> forall|i: int| 0 <= i < melds.len() ==> (#[trigger] melds[i]) is Nukidora,
    decreases melds.len(),
{
    if melds.len() > 0 {
        let r = melds.drop_last();
        lemma_no_groups(r);
        assert(melds[melds.len() - 1] == melds.last());
        if group_meld_count(r) == 0 {
            assert forall|i: int| 0 <= i < r.len() implies (#[trigger] melds[i]) is Nukidora by {
                assert(r[i] is Nukidora);
            }
        } else {
            let i = choose|i: int| 0 <= i < r.len() && !((#[trigger] r[i]) is Nukidora);
            assert(!(melds[i] is Nukidora));
        }
    }
}

} // verus!
