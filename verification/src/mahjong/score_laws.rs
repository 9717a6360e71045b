//! What a win is worth: the reading that pays most, its fu and its points.

use vstd::arithmetic::power::pow;
use vstd::prelude::*;
use crate::mahjong::decompose::{waits_of, MeldShape, Reading, WaitShape};
use crate::mahjong::meld::Meld;
use crate::mahjong::rules::{KazoeLimit, RiichiRuleProfile};
use crate::mahjong::score::{
    base_points, best_score, fu_of, full_score, groups_fu, is_better, is_kan_kind, kan_fu, kans_fu, payout_of, points,
    raw_fu, reading_score, result_points, scored, up_to_hundred, FullOutcome, ScoreLimit, ScoreResult,
};
use crate::mahjong::tile::Tile;
use crate::mahjong::yaku::{
    evaluated, form_of, groups_of, han_sum, is_pinfu, readings_of, seven_pairs_outcome, seven_pairs_yaku,
    standard_outcome, standard_yaku, yakuman_kinds, Group, HandForm, WinFacts, Yaku, YakuOutcome,
};
use crate::mahjong::yaku_laws::{is_any_kan, is_end, is_letter, lemma_total, lemma_waits, total_han};

verus! {

// Points.

/// An amount is the least multiple of 100 that is not below another.
pub open spec fn is_rounded(amount: int, x: int) -> bool {
    amount % 100 == 0 && x <= amount < x + 100
}

/// How base points are paid: the discarder pays four times as much, six to a dealer; of a
/// self-drawn win the dealer pays twice and another once as much, and each pays a dealer twice.
pub open spec fn pays_base(s: ScoreResult, base: int, oya: bool, tsumo: bool) -> bool {
    &&& is_rounded(s.ron as int, if tsumo { 0 } else if oya { 6 * base } else { 4 * base })
    &&& is_rounded(s.tsumo_ko as int, if !tsumo { 0 } else if oya { 2 * base } else { base })
    &&& is_rounded(s.tsumo_oya as int, if tsumo && !oya { 2 * base } else { 0 })
}

/// Below five han, base points are the fu doubled twice and once more for each han, mangan at
/// most; and mangan where the rules round up to it.
pub proof fn low_hands_pay_by_fu(han: u8, fu: u8, oya: bool, tsumo: bool, profile: RiichiRuleProfile)
    requires
        1 <= han <= 4,
    ensures
        ({
            let raw = fu * pow(2, (han + 2) as nat);
            let up = profile.kiriage_mangan && ((han == 4 && fu == 30) || (han == 3 && fu == 60));
            let base = if raw >= 2000 || up { 2000 } else { raw };
            let s = points(han as int, fu as int, oya, tsumo, profile);
            &&& pays_base(s, base, oya, tsumo)
            &&& s.limit == if base == 2000 { ScoreLimit::Mangan } else { ScoreLimit::Normal }
            &&& s.han == han && s.fu == fu && s.yakuman == 0
        }),
{
    reveal_with_fuel(pow, 7);
    assert(pow(2, 3) == 8 && pow(2, 4) == 16 && pow(2, 5) == 32 && pow(2, 6) == 64);
}

/// From five han on, fu do not count: mangan, then one and a half, two and three times as much at
/// 6, 8 and 11 han, and from 13 han on four times, or three where the rules stop there.
pub proof fn high_hands_pay_by_limit(han: u8, fu: u8, oya: bool, tsumo: bool, profile: RiichiRuleProfile)
    requires
        han >= 5,
    ensures
        ({
            let halves: int = if han == 5 {
                2
            } else if han < 8 {
                3
            } else if han < 11 {
                4
            } else if han < 13 || profile.kazoe_limit == KazoeLimit::Sanbaiman {
                6
            } else {
                8
            };
            let s = points(han as int, fu as int, oya, tsumo, profile);
            &&& pays_base(s, 1000 * halves, oya, tsumo)
            &&& s.limit == if halves == 2 {
                ScoreLimit::Mangan
            } else if halves == 3 {
                ScoreLimit::Haneman
            } else if halves == 4 {
                ScoreLimit::Baiman
            } else if halves == 6 {
                ScoreLimit::Sanbaiman
            } else {
                ScoreLimit::Yakuman(1)
            }
            &&& s.han == han && s.fu == fu && s.yakuman == 0
        }),
{
}

/// A yakuman pays four times mangan for each time that it counts, whatever its han and fu.
pub proof fn yakuman_pay_by_multiple(y: YakuOutcome, fu: u8, oya: bool, tsumo: bool, profile: RiichiRuleProfile)
    requires
        1 <= y.yakuman <= 255,
    ensures
        ({
            let s = result_points(y, fu as int, oya, tsumo, profile);
            &&& pays_base(s, 8000 * y.yakuman, oya, tsumo)
            &&& s.limit == ScoreLimit::Yakuman(y.yakuman as u8)
            &&& s.yakuman == y.yakuman
        }),
{
}

/// A self-drawn win takes from every other seat: the dealer's share once where another wins.
pub proof fn tsumo_takes_from_every_seat(s: ScoreResult, seats: int)
    requires
        seats >= 2,
    ensures
        s.tsumo_oya == 0 ==> s.tsumo_sum(seats) == (seats - 1) * s.tsumo_ko,
        s.tsumo_oya != 0 ==> s.tsumo_sum(seats) == s.tsumo_oya + (seats - 2) * s.tsumo_ko,
        s.tsumo_sum(seats + 1) == s.tsumo_sum(seats) + s.tsumo_ko,
{
    let ko = s.tsumo_ko as int;
    assert(ko * (seats - 1) == (seats - 1) * ko) by (nonlinear_arith);
    assert(ko * (seats - 2) == (seats - 2) * ko) by (nonlinear_arith);
    assert(ko * seats == ko * (seats - 1) + ko) by (nonlinear_arith);
    assert(ko * (seats - 1) == ko * (seats - 2) + ko) by (nonlinear_arith);
}

// Fu.

/// Fu of a triplet: 2, twice as much of ends and letters, and twice as much concealed.
pub open spec fn triplet_fu(k: int, concealed: bool) -> int {
    2 * (if is_end(k) || is_letter(k) { 2int } else { 1 }) * (if concealed { 2int } else { 1 })
}

/// Fu of a group that is no kan.
pub open spec fn plain_fu(melds: Seq<Meld>, g: Group) -> int {
    match g.0 {
        MeldShape::Shuntsu(_) => 0,
        MeldShape::Kotsu(k) => if exists|i: int|
            0 <= i < melds.len() && is_any_kan(#[trigger] melds[i]) && melds[i].kind_tile().kind() == k {
            0
        } else {
            triplet_fu(k as int, g.1)
        },
    }
}

/// Fu of a kan: four times those of a triplet.
pub open spec fn quad_fu(m: Meld) -> int {
    if is_any_kan(m) { 4 * triplet_fu(m.kind_tile().kind() as int, m is Ankan) } else { 0 }
}

/// A wait that the winning tile filled from one side alone: the middle of a sequence, its end at
/// the edge of the suit, or the pair.
pub open spec fn is_narrow(f: WinFacts, p: Reading) -> bool {
    let w = f.win_tile.kind() as int;
    p.pair == w || exists|i: int|
        0 <= i < p.melds.len() && (#[trigger] p.melds[i]) is Shuntsu && {
            let s = p.melds[i]->Shuntsu_0;
            w == s + 1 || (w == s + 2 && s % 9 == 0) || (w == s && s % 9 == 6)
        }
}

proof fn lemma_groups_worth(melds: Seq<Meld>, g: Seq<Group>)
    requires
        forall|i: int| 0 <= i < g.len() && (#[trigger] g[i]).0 is Kotsu ==> g[i].0->Kotsu_0 < 34,
    ensures
        groups_fu(melds, g) == g.fold_left(0int, |sum: int, x: Group| sum + plain_fu(melds, x)),
    decreases g.len(),
{
    if g.len() > 0 {
        let r = g.drop_last();
        assert forall|i: int| 0 <= i < r.len() && (#[trigger] r[i]).0 is Kotsu implies r[i].0->Kotsu_0 < 34 by {
            assert(g[i] == r[i]);
        }
        lemma_groups_worth(melds, r);
        assert(g[g.len() - 1] == g.last());
        match g.last().0 {
            MeldShape::Kotsu(k) => {
                assert(is_kan_kind(melds, k as int) <==> exists|i: int|
                    0 <= i < melds.len() && is_any_kan(#[trigger] melds[i]) && melds[i].kind_tile().kind() == k);
            },
            _ => {},
        }
    }
}

proof fn lemma_kans_worth(melds: Seq<Meld>)
    requires
        forall|i: int| 0 <= i < melds.len() && is_any_kan(#[trigger] melds[i]) ==> melds[i].kind_tile().is_known(),
    ensures
        kans_fu(melds) == melds.fold_left(0int, |sum: int, m: Meld| sum + quad_fu(m)),
    decreases melds.len(),
{
    if melds.len() > 0 {
        let r = melds.drop_last();
        assert forall|i: int| 0 <= i < r.len() && is_any_kan(#[trigger] r[i]) implies r[i].kind_tile().is_known() by {
            assert(melds[i] == r[i]);
        }
        lemma_kans_worth(r);
        assert(melds[melds.len() - 1] == melds.last());
        assert(kan_fu(melds.last()) == quad_fu(melds.last()));
    }
}

/// The fu of a reading are 20, 10 more for a closed ron and 2 for a self-drawn win, those of its
/// triplets and kans, 2 for each value of its pair and 2 for a narrow wait, rounded up to tens; a
/// bare 20 counts as 30. Pinfu has 20 self-drawn and 30 by ron, seven pairs 25.
pub proof fn fu_add_up(f: WinFacts, p: Reading)
    requires
        forall|i: int| 0 <= i < groups_of(f, p).len() && (#[trigger] groups_of(f, p)[i]).0 is Kotsu ==> groups_of(f, p)[i].0->Kotsu_0
            < 34,
        forall|i: int| 0 <= i < f.melds.len() && is_any_kan(#[trigger] f.melds[i]) ==> f.melds[i].kind_tile().is_known(),
    ensures
        ({
            let sum = 20 + (if f.is_tsumo { 2int } else if f.menzen { 10 } else { 0 }) + groups_of(f, p).fold_left(
                0int,
                |sum: int, x: Group| sum + plain_fu(f.melds, x),
            ) + f.melds.fold_left(0int, |sum: int, m: Meld| sum + quad_fu(m)) + (if 31 <= p.pair <= 33 { 2int } else { 0 }) + (
            if p.pair == f.bakaze.kind() { 2int } else { 0 }) + (if p.pair == f.jikaze.kind() { 2int } else { 0 }) + (
            if is_narrow(f, p) { 2int } else { 0 });
            let fu = fu_of(f, p, false, false);
            &&& fu % 10 == 0
            &&& sum <= fu
            &&& fu < sum + 10 || (sum == 20 && fu == 30)
            &&& fu != 20
        }),
        fu_of(f, p, true, false) == if f.is_tsumo { 20int } else { 30 },
        forall|pinfu: bool| #[trigger] fu_of(f, p, pinfu, true) == 25,
{
    let w = f.win_tile.kind() as int;
    lemma_raw_fu(f, p);
    lemma_groups_worth(f.melds, groups_of(f, p));
    lemma_kans_worth(f.melds);
    lemma_waits(p.pair, p.melds, w, WaitShape::Kanchan);
    lemma_waits(p.pair, p.melds, w, WaitShape::Penchan);
    lemma_waits(p.pair, p.melds, w, WaitShape::Tanki);
    let s = waits_of(p.pair, p.melds, w);
    assert(is_narrow(f, p) <==> crate::mahjong::score::has_narrow_wait(s)) by {
        assert forall|i: int| 0 <= i < p.melds.len() implies ((#[trigger] p.melds[i]) is Shuntsu && {
            let s = p.melds[i]->Shuntsu_0;
            w == s + 1 || (w == s + 2 && s % 9 == 0) || (w == s && s % 9 == 6)
        } <==> crate::mahjong::decompose::wait_in_group(p.melds[i], w) == Some(WaitShape::Kanchan)
            || crate::mahjong::decompose::wait_in_group(p.melds[i], w) == Some(WaitShape::Penchan)) by {}
    }
}

// The best reading.

/// Pays no less, from whomever.
pub open spec fn pays_at_least(a: ScoreResult, b: ScoreResult) -> bool {
    a.ron >= b.ron && a.tsumo_ko >= b.tsumo_ko && a.tsumo_oya >= b.tsumo_oya
}

proof fn lemma_pays(han: int, fu: int, han2: int, fu2: int, oya: bool, tsumo: bool, profile: RiichiRuleProfile)
    requires
        fu >= 0,
        fu2 >= 0,
        payout_of(points(han, fu, oya, tsumo, profile)) >= payout_of(points(han2, fu2, oya, tsumo, profile)),
    ensures
        pays_at_least(points(han, fu, oya, tsumo, profile), points(han2, fu2, oya, tsumo, profile)),
{
    let a = base_points(han, fu, profile);
    let b = base_points(han2, fu2, profile);
    assert(0 <= a <= 8000 && 0 <= b <= 8000);
    if a < b {
        lemma_steps(a, b);
        lemma_steps(2 * a, 2 * b);
        lemma_steps(4 * a, 4 * b);
        lemma_steps(6 * a, 6 * b);
    } else {
        lemma_steps(b, a);
        lemma_steps(2 * b, 2 * a);
        lemma_steps(4 * b, 4 * a);
        lemma_steps(6 * b, 6 * a);
    }
}

proof fn lemma_steps(x: int, y: int)
    requires
        0 <= x <= y,
    ensures
        up_to_hundred(x) <= up_to_hundred(y),
{
}

/// What a reading is worth: its han and the dora, at its fu.
pub open spec fn worth_of(f: WinFacts, p: Reading, dora: int, oya: bool) -> ScoreResult {
    points(total_han(standard_yaku(f, p)) + dora, fu_of(f, p, is_pinfu(f, p), false), oya, f.is_tsumo, f.rule_profile)
}

/// What seven pairs are worth.
pub open spec fn pairs_worth(f: WinFacts, dora: int, oya: bool) -> ScoreResult {
    points(total_han(seven_pairs_yaku(f)) + dora, 25, oya, f.is_tsumo, f.rule_profile)
}

/// A score is that of a reading that has a yaku.
pub open spec fn is_score_of(f: WinFacts, s: FullOutcome, p: Reading, dora: int, oya: bool) -> bool {
    &&& total_han(standard_yaku(f, p)) > 0
    &&& s.yaku.yaku == standard_yaku(f, p)
    &&& s.yaku.han == total_han(standard_yaku(f, p))
    &&& s.fu == fu_of(f, p, is_pinfu(f, p), false)
    &&& s.score == worth_of(f, p, dora, oya)
}

/// A score is that of seven pairs.
pub open spec fn is_score_of_pairs(f: WinFacts, s: FullOutcome, dora: int, oya: bool) -> bool {
    &&& s.yaku.yaku == seven_pairs_yaku(f)
    &&& s.yaku.han == total_han(seven_pairs_yaku(f))
    &&& s.fu == 25
    &&& s.score == pairs_worth(f, dora, oya)
}

spec fn counts(f: WinFacts, p: Reading) -> bool {
    standard_outcome(f, p).han != 0
}

proof fn lemma_best_is_one(f: WinFacts, ps: Seq<Reading>, start: Option<FullOutcome>, dora: int, oya: bool)
    ensures
        ({
            let b = best_score(f, ps, start, dora, oya);
            &&& b is None <==> start is None && forall|i: int| 0 <= i < ps.len() ==> !counts(f, #[trigger] ps[i])
            &&& b is Some ==> (start is Some && b == start) || exists|i: int|
                0 <= i < ps.len() && counts(f, #[trigger] ps[i]) && b->0 == reading_score(f, ps[i], dora, oya)
        }),
    decreases ps.len(),
{
    if ps.len() > 0 {
        let r = ps.drop_last();
        lemma_best_is_one(f, r, start, dora, oya);
        let cur = best_score(f, r, start, dora, oya);
        assert(ps[ps.len() - 1] == ps.last());
        assert forall|i: int| 0 <= i < r.len() implies ps[i] == #[trigger] r[i] by {}
        if cur is Some && !(start is Some && cur == start) {
            let i = choose|i: int|
                0 <= i < r.len() && counts(f, #[trigger] r[i]) && cur->0 == reading_score(f, r[i], dora, oya);
            assert(ps[i] == r[i]);
        }
        if start is None && cur is Some {
            let i = choose|i: int| 0 <= i < r.len() && counts(f, #[trigger] r[i]);
            assert(counts(f, ps[i]));
        }
        if cur is None && !counts(f, ps.last()) {
            assert forall|i: int| 0 <= i < ps.len() implies !counts(f, #[trigger] ps[i]) by {
                if i < r.len() {
                    assert(!counts(f, r[i]));
                }
            }
        }
    }
}

proof fn lemma_best_payout(f: WinFacts, ps: Seq<Reading>, start: Option<FullOutcome>, dora: int, oya: bool)
    ensures
        ({
            let b = best_score(f, ps, start, dora, oya);
            &&& start is Some ==> b is Some && payout_of((b->0).score) >= payout_of((start->0).score)
            &&& forall|i: int|
                0 <= i < ps.len() && counts(f, #[trigger] ps[i]) ==> b is Some && payout_of((b->0).score) >= payout_of(
                    (reading_score(f, ps[i], dora, oya)).score,
                )
        }),
    decreases ps.len(),
{
    if ps.len() > 0 {
        let r = ps.drop_last();
        lemma_best_payout(f, r, start, dora, oya);
        let b = best_score(f, ps, start, dora, oya);
        assert(ps[ps.len() - 1] == ps.last());
        assert forall|i: int| 0 <= i < ps.len() && counts(f, #[trigger] ps[i]) implies b is Some && payout_of((b->0).score)
            >= payout_of((reading_score(f, ps[i], dora, oya)).score) by {
            if i < r.len() {
                assert(r[i] == ps[i]);
            }
        }
    }
}

/// A reading has a yaku where its han are counted, and is scored by them.
proof fn lemma_reading_worth(f: WinFacts, p: Reading, dora: int, oya: bool)
    ensures
        counts(f, p) <==> total_han(standard_yaku(f, p)) > 0,
        total_han(standard_yaku(f, p)) >= 0,
        counts(f, p) ==> is_score_of(f, reading_score(f, p, dora, oya), p, dora, oya),
        reading_score(f, p, dora, oya).score == worth_of(f, p, dora, oya),
        fu_of(f, p, is_pinfu(f, p), false) >= 0,
{
    lemma_total(standard_yaku(f, p));
    lemma_han_nonneg(standard_yaku(f, p));
    lemma_raw_fu(f, p);
}

proof fn lemma_han_nonneg(s: Seq<(Yaku, u8)>)
    ensures
        han_sum(s) >= 0,
    decreases s.len(),
{
    if s.len() > 0 {
        lemma_han_nonneg(s.drop_last());
    }
}

proof fn lemma_raw_fu(f: WinFacts, p: Reading)
    ensures
        raw_fu(f, p) >= 20,
        forall|pinfu: bool| #[trigger] fu_of(f, p, pinfu, false) >= 20,
{
    crate::mahjong::score::lemma_groups_fu_prefix(f.melds, groups_of(f, p), 0);
    lemma_kans_nonneg(f.melds);
}

proof fn lemma_kans_nonneg(melds: Seq<Meld>)
    ensures
        kans_fu(melds) >= 0,
    decreases melds.len(),
{
    if melds.len() > 0 {
        lemma_kans_nonneg(melds.drop_last());
    }
}

/// A win without yakuman is worth its best reading: the score is that of a reading that has a yaku
/// or of the seven pairs, and no reading that has a yaku pays more, from whomever, nor do the
/// seven pairs. There is none exactly where nothing has a yaku.
pub proof fn the_best_reading_is_paid(f: WinFacts, dora: int, oya: bool)
    requires
        yakuman_kinds(f).len() == 0,
        form_of(f) != HandForm::Orphans,
    ensures
        ({
            let r = full_score(f, dora, oya);
            let ps = readings_of(f);
            let pairs = form_of(f) == HandForm::SevenPairs;
            &&& r is None <==> !pairs && forall|i: int|
                0 <= i < ps.len() ==> total_han(standard_yaku(f, #[trigger] ps[i])) == 0
            &&& r is Some ==> (pairs && is_score_of_pairs(f, r->0, dora, oya)) || exists|i: int|
                0 <= i < ps.len() && is_score_of(f, r->0, #[trigger] ps[i], dora, oya)
            &&& r is Some ==> forall|i: int|
                0 <= i < ps.len() && total_han(standard_yaku(f, #[trigger] ps[i])) > 0 ==> pays_at_least(
                    (r->0).score,
                    worth_of(f, ps[i], dora, oya),
                )
            &&& r is Some && pairs ==> pays_at_least((r->0).score, pairs_worth(f, dora, oya))
            &&& r is Some ==> (r->0).dora_han == dora
        }),
{
    let r = full_score(f, dora, oya);
    let ps = readings_of(f);
    let pairs = form_of(f) == HandForm::SevenPairs;
    crate::mahjong::yaku_laws::evaluation_takes_the_reading_with_most_han(f);
    lemma_total(seven_pairs_yaku(f));
    assert forall|i: int| 0 <= i < ps.len() implies {
        &&& counts(f, #[trigger] ps[i]) <==> total_han(standard_yaku(f, ps[i])) > 0
        &&& total_han(standard_yaku(f, ps[i])) >= 0
        &&& counts(f, ps[i]) ==> is_score_of(f, reading_score(f, ps[i], dora, oya), ps[i], dora, oya)
        &&& reading_score(f, ps[i], dora, oya).score == worth_of(f, ps[i], dora, oya)
        &&& fu_of(f, ps[i], is_pinfu(f, ps[i]), false) >= 0
    } by {
        lemma_reading_worth(f, ps[i], dora, oya);
    }
    let seven = scored(f, seven_pairs_outcome(f), 25, dora, oya);
    let start = if pairs { Some(seven) } else { None };
    lemma_best_is_one(f, ps, start, dora, oya);
    lemma_best_payout(f, ps, start, dora, oya);
    lemma_dora_kept(f, ps, start, dora, oya);
    assert(is_score_of_pairs(f, seven, dora, oya));
    if r is Some {
        let (h, u) = if pairs && r == start {
            (total_han(seven_pairs_yaku(f)) + dora, 25)
        } else {
            let i = choose|i: int|
                0 <= i < ps.len() && counts(f, #[trigger] ps[i]) && r->0 == reading_score(f, ps[i], dora, oya);
            assert(is_score_of(f, r->0, ps[i], dora, oya));
            (total_han(standard_yaku(f, ps[i])) + dora, fu_of(f, ps[i], is_pinfu(f, ps[i]), false))
        };
        assert((r->0).score == points(h, u, oya, f.is_tsumo, f.rule_profile));
        assert forall|i: int| 0 <= i < ps.len() && total_han(standard_yaku(f, #[trigger] ps[i])) > 0 implies pays_at_least(
            (r->0).score,
            worth_of(f, ps[i], dora, oya),
        ) by {
            assert(counts(f, ps[i]));
            lemma_pays(
                h,
                u,
                total_han(standard_yaku(f, ps[i])) + dora,
                fu_of(f, ps[i], is_pinfu(f, ps[i]), false),
                oya,
                f.is_tsumo,
                f.rule_profile,
            );
        }
        if pairs {
            lemma_pays(h, u, total_han(seven_pairs_yaku(f)) + dora, 25, oya, f.is_tsumo, f.rule_profile);
        }
    }
}

proof fn lemma_dora_kept(f: WinFacts, ps: Seq<Reading>, start: Option<FullOutcome>, dora: int, oya: bool)
    requires
        start is Some ==> (start->0).dora_han == dora,
    ensures
        best_score(f, ps, start, dora, oya) is Some ==> (best_score(f, ps, start, dora, oya)->0).dora_han == dora,
    decreases ps.len(),
{
    if ps.len() > 0 {
        lemma_dora_kept(f, ps.drop_last(), start, dora, oya);
    }
}

proof fn lemma_no_yakuman(f: WinFacts, ps: Seq<Reading>, start: Option<FullOutcome>, dora: int, oya: bool)
    requires
        start is Some ==> (start->0).score.yakuman == 0,
    ensures
        best_score(f, ps, start, dora, oya) is Some ==> (best_score(f, ps, start, dora, oya)->0).score.yakuman == 0,
    decreases ps.len(),
{
    if ps.len() > 0 {
        lemma_no_yakuman(f, ps.drop_last(), start, dora, oya);
    }
}

/// A win counts its dora unless it is a yakuman.
pub proof fn lemma_dora_of_score(f: WinFacts, dora: int, oya: bool)
    requires
        evaluated(f).yakuman <= 255,
    ensures
        full_score(f, dora, oya) is Some ==> {
            let r = full_score(f, dora, oya)->0;
            &&& r.score.yakuman == 0 ==> r.dora_han == dora
            &&& r.score.yakuman != 0 ==> r.dora_han == 0 && r.regular_dora_han == 0 && r.red_dora_han == 0 && r.ura_dora_han
                == 0 && r.nuki_dora_han == 0
            &&& r.score.yakuman == 0 <==> yakuman_kinds(f).len() == 0
        },
{
    crate::mahjong::yaku::lemma_yakuman_weight(f);
    let seven = scored(f, seven_pairs_outcome(f), 25, dora, oya);
    let start = if form_of(f) == HandForm::SevenPairs { Some(seven) } else { None };
    lemma_dora_kept(f, readings_of(f), start, dora, oya);
    lemma_no_yakuman(f, readings_of(f), start, dora, oya);
}

/// Among readings that pay the same, one with more han is kept, and among those one with more fu.
pub proof fn ties_go_to_han_and_fu(f: WinFacts, dora: int, oya: bool, i: int)
    requires
        yakuman_kinds(f).len() == 0,
        form_of(f) != HandForm::Orphans,
        full_score(f, dora, oya) is Some,
        0 <= i < readings_of(f).len(),
        total_han(standard_yaku(f, readings_of(f)[i])) > 0,
        0 <= dora,
        total_han(standard_yaku(f, readings_of(f)[i])) + dora <= 255,
        payout_of((full_score(f, dora, oya)->0).score) == payout_of(worth_of(f, readings_of(f)[i], dora, oya)),
    ensures
        ({
            let s = full_score(f, dora, oya)->0;
            let w = worth_of(f, readings_of(f)[i], dora, oya);
            let fu = fu_of(f, readings_of(f)[i], is_pinfu(f, readings_of(f)[i]), false);
            s.score.han > w.han || (s.score.han == w.han && s.fu >= fu)
        }),
{
    let ps = readings_of(f);
    crate::mahjong::yaku_laws::evaluation_takes_the_reading_with_most_han(f);
    let start = if form_of(f) == HandForm::SevenPairs {
        Some(scored(f, seven_pairs_outcome(f), 25, dora, oya))
    } else {
        None
    };
    lemma_ties(f, ps, start, dora, oya, i);
}

proof fn lemma_ties(f: WinFacts, ps: Seq<Reading>, start: Option<FullOutcome>, dora: int, oya: bool, i: int)
    requires
        0 <= i < ps.len(),
        total_han(standard_yaku(f, ps[i])) > 0,
    ensures
        best_score(f, ps, start, dora, oya) is Some,
        !is_better(reading_score(f, ps[i], dora, oya), best_score(f, ps, start, dora, oya)->0),
        (reading_score(f, ps[i], dora, oya)).score == worth_of(f, ps[i], dora, oya),
    decreases ps.len(),
{
    lemma_total(standard_yaku(f, ps[i]));
    if i < ps.len() - 1 {
        assert(ps.drop_last()[i] == ps[i]);
        lemma_ties(f, ps.drop_last(), start, dora, oya, i);
    } else {
        assert(ps.last() == ps[i]);
    }
}

/// A yakuman is scored by its multiplier alone; dora and fu do not count.
pub proof fn yakuman_are_paid_alone(f: WinFacts, dora: int, oya: bool)
    requires
        yakuman_kinds(f).len() > 0,
        evaluated(f).yakuman <= 255,
    ensures
        ({
            let r = full_score(f, dora, oya);
            &&& r is Some
            &&& (r->0).dora_han == 0 && (r->0).fu == 0
            &&& (r->0).yaku == evaluated(f)
            &&& pays_base((r->0).score, 8000 * evaluated(f).yakuman, oya, f.is_tsumo)
        }),
{
    crate::mahjong::yaku::lemma_yakuman_weight(f);
}

// Indicators.

/// The dora stands behind its indicator: the next rank of the suit, from nine back to one; the next
/// wind in the order of the seats, from North back to East; and white, green, red and white again.
/// With three players one and nine of characters stand behind each other.
pub proof fn dora_stand_behind_their_indicator(t: Tile)
    requires
        t.is_known(),
    ensures
        ({
            let k = t.kind() as int;
            let n = t.dora_from_indicator().kind() as int;
            let m = t.dora_from_indicator_3p().kind() as int;
            &&& k < 27 ==> n / 9 == k / 9 && n % 9 == (k % 9 + 1) % 9
            &&& 27 <= k <= 30 ==> n == 27 + (k - 27 + 1) % 4
            &&& 31 <= k <= 33 ==> n == 31 + (k - 31 + 1) % 3
            &&& m == if k == 0 { 8 } else if k == 8 { 0 } else { n }
        }),
{
}

} // verus!
