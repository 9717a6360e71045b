//! Which yaku the called melds rule out.

use vstd::prelude::*;
use crate::mahjong::meld::Meld;
use crate::mahjong::tile::{Suit, Tile};
use crate::mahjong::yaku::evaluated;
use crate::mahjong::yaku_laws::{is_any_kan, is_end, is_letter, lemma_kans, lemma_tally, places, tally};
use crate::mahjong::yaku_star::{
    ankan_count, as_count, called_triplets, chi_at_three, chi_start, confirms, groups_left, has_bit, has_chi_at,
    has_middle_chi, has_open_triplet, has_suit, has_triplet, has_triplet_of, is_blocked, lists_slot, mask_holds,
    meld_passes, meld_suit, number_suits, passes, pon_count, sanshoku_out, sanshoku_triplets_out, some_tile_passes,
    star_slots_are_numbered, star_wait, star_win, straight_out, triplet_passes, triplet_tile, triplets_at_three,
    unseen, yaku_star_id, TileTest, YakuStarContext, YakuStarId,
};
use crate::maintainer::offer_laws::{called_count, lemma_called};

verus! {

// Called groups.

/// A triplet or a kan.
pub open spec fn is_set(m: Meld) -> bool {
    m is Pon || is_any_kan(m)
}

/// A called tile has a property of its kind; Norths set aside do not count.
pub open spec fn touches(m: Meld, p: spec_fn(int) -> bool) -> bool {
    if m is Chi {
        p(m->Chi_tiles@[0].kind() as int) || p(m->Chi_tiles@[1].kind() as int) || p(m->Chi_tiles@[2].kind() as int)
    } else {
        is_set(m) && p(m.kind_tile().kind() as int)
    }
}

/// Some called tile has a property of its kind.
pub open spec fn any_touches(melds: Seq<Meld>, p: spec_fn(int) -> bool) -> bool {
    exists|i: int| 0 <= i < melds.len() && touches(#[trigger] melds[i], p)
}

/// Some triplet or kan has a property of its kind.
pub open spec fn any_set(melds: Seq<Meld>, p: spec_fn(int) -> bool) -> bool {
    exists|i: int| 0 <= i < melds.len() && is_set(#[trigger] melds[i]) && p(melds[i].kind_tile().kind() as int)
}

/// A kind is called as a triplet or a kan.
pub open spec fn is_called(melds: Seq<Meld>, k: int) -> bool {
    exists|i: int| 0 <= i < melds.len() && is_set(#[trigger] melds[i]) && melds[i].kind_tile().kind() == k
}

/// A run is called whose lowest kind is `k`.
pub open spec fn is_run_called(melds: Seq<Meld>, k: int) -> bool {
    exists|i: int| 0 <= i < melds.len() && (#[trigger] melds[i]) is Chi && begins(melds[i], k)
}

/// The lowest kind of a chi.
pub open spec fn begins(m: Meld, k: int) -> bool {
    let t = m->Chi_tiles@;
    &&& k <= t[0].kind() && k <= t[1].kind() && k <= t[2].kind()
    &&& k == t[0].kind() || k == t[1].kind() || k == t[2].kind()
}

/// A called run reaches neither end of its suit.
pub open spec fn has_inner_run(melds: Seq<Meld>) -> bool {
    exists|i: int, k: int|
        0 <= i < melds.len() && (#[trigger] melds[i]) is Chi && #[trigger] begins(melds[i], k) && !(k < 27 && (k % 9 == 0 || (k + 2)
            % 9 == 8))
}

/// Two called groups are of different suits of numbers.
pub open spec fn mixes_suits(melds: Seq<Meld>) -> bool {
    exists|i: int, j: int|
        0 <= i < melds.len() && 0 <= j < melds.len() && is_number_group(#[trigger] melds[i]) && is_number_group(#[trigger] melds[j])
            && group_kind(melds[i]) / 9 != group_kind(melds[j]) / 9
}

/// A kind of a called group: the first of a chi.
pub open spec fn group_kind(m: Meld) -> int {
    if m is Chi { m->Chi_tiles@[0].kind() as int } else { m.kind_tile().kind() as int }
}

/// A called group of numbers.
pub open spec fn is_number_group(m: Meld) -> bool {
    (m is Chi || is_set(m)) && group_kind(m) < 27
}

/// A kind of the green tiles.
pub open spec fn is_green(k: int) -> bool {
    k == 19 || k == 20 || k == 21 || k == 23 || k == 25 || k == 32
}

proof fn lemma_triplet(m: Meld)
    ensures
        triplet_tile(m) is Some <==> is_set(m),
        is_set(m) ==> (triplet_tile(m)->0).kind() == m.kind_tile().kind(),
{
}

proof fn lemma_passes(test: TileTest, t: Tile)
    ensures
        ({
            let k = t.kind() as int;
            passes(test, t) == match test {
                TileTest::Yaochuu => is_end(k) || is_letter(k),
                TileTest::Honor => is_letter(k),
                TileTest::NotYaochuu => !(is_end(k) || is_letter(k)),
                TileTest::NotTerminal => !is_end(k),
                TileTest::NotHonor => !is_letter(k),
                TileTest::NotGreen => !is_green(k),
            }
        }),
{
}

/// The kinds that a test asks for.
spec fn kinds_of(test: TileTest) -> spec_fn(int) -> bool {
    match test {
        TileTest::Yaochuu => |k: int| is_end(k) || is_letter(k),
        TileTest::Honor => |k: int| is_letter(k),
        TileTest::NotYaochuu => |k: int| !(is_end(k) || is_letter(k)),
        TileTest::NotTerminal => |k: int| !is_end(k),
        TileTest::NotHonor => |k: int| !is_letter(k),
        TileTest::NotGreen => |k: int| !is_green(k),
    }
}

proof fn lemma_touches(melds: Seq<Meld>, test: TileTest)
    ensures
        some_tile_passes(melds, test) == any_touches(melds, kinds_of(test)),
        triplet_passes(melds, test) == any_set(melds, kinds_of(test)),
{
    let p = kinds_of(test);
    assert forall|m: Meld| #[trigger] meld_passes(m, test) == touches(m, p) by {
        lemma_triplet(m);
        if m is Chi {
            lemma_passes(test, m->Chi_tiles@[0]);
            lemma_passes(test, m->Chi_tiles@[1]);
            lemma_passes(test, m->Chi_tiles@[2]);
        } else if is_set(m) {
            lemma_passes(test, triplet_tile(m)->0);
        }
    }
    assert forall|m: Meld| #[trigger] triplet_tile(m) is Some implies passes(test, triplet_tile(m)->0) == p(
        m.kind_tile().kind() as int,
    ) by {
        lemma_triplet(m);
        lemma_passes(test, triplet_tile(m)->0);
    }
    if any_touches(melds, p) {
        let i = choose|i: int| 0 <= i < melds.len() && touches(#[trigger] melds[i], p);
        assert(meld_passes(melds[i], test));
    }
    if some_tile_passes(melds, test) {
        let i = choose|i: int| 0 <= i < melds.len() && meld_passes(#[trigger] melds[i], test);
        assert(touches(melds[i], p));
    }
    if any_set(melds, p) {
        let i = choose|i: int| 0 <= i < melds.len() && is_set(#[trigger] melds[i]) && p(melds[i].kind_tile().kind() as int);
        lemma_triplet(melds[i]);
        assert(triplet_tile(melds[i]) is Some);
    }
    if triplet_passes(melds, test) {
        let i = choose|i: int|
            0 <= i < melds.len() && triplet_tile(#[trigger] melds[i]) is Some && passes(test, triplet_tile(melds[i])->0);
        lemma_triplet(melds[i]);
        assert(is_set(melds[i]));
    }
}

proof fn lemma_called_kind(melds: Seq<Meld>, k: int)
    ensures
        has_triplet_of(melds, k) == is_called(melds, k),
        has_chi_at(melds, k) == is_run_called(melds, k),
{
    assert forall|i: int| 0 <= i < melds.len() implies (triplet_tile(#[trigger] melds[i]) is Some <==> is_set(melds[i])) && (is_set(
        melds[i],
    ) ==> (triplet_tile(melds[i])->0).kind() == melds[i].kind_tile().kind()) by {
        lemma_triplet(melds[i]);
    }
    if is_called(melds, k) {
        let i = choose|i: int| 0 <= i < melds.len() && is_set(#[trigger] melds[i]) && melds[i].kind_tile().kind() == k;
        assert(triplet_tile(melds[i]) is Some);
    }
    assert forall|i: int| 0 <= i < melds.len() implies (chi_start(#[trigger] melds[i]) == Some(k) <==> melds[i] is Chi && begins(
        melds[i],
        k,
    )) by {}
    if is_run_called(melds, k) {
        let i = choose|i: int| 0 <= i < melds.len() && (#[trigger] melds[i]) is Chi && begins(melds[i], k);
        assert(chi_start(melds[i]) == Some(k));
    }
    if has_chi_at(melds, k) {
        let i = choose|i: int| 0 <= i < melds.len() && chi_start(#[trigger] melds[i]) == Some(k);
        assert(begins(melds[i], k));
    }
}

proof fn lemma_sets(melds: Seq<Meld>)
    ensures
        has_triplet(melds) <==> exists|i: int| 0 <= i < melds.len() && is_set(#[trigger] melds[i]),
        has_open_triplet(melds) <==> exists|i: int| 0 <= i < melds.len() && is_set(#[trigger] melds[i]) && !(melds[i] is Ankan),
        has_middle_chi(melds) == has_inner_run(melds),
{
    assert forall|i: int| 0 <= i < melds.len() implies (triplet_tile(#[trigger] melds[i]) is Some <==> is_set(melds[i])) by {
        lemma_triplet(melds[i]);
    }
    if exists|i: int| 0 <= i < melds.len() && is_set(#[trigger] melds[i]) {
        let i = choose|i: int| 0 <= i < melds.len() && is_set(#[trigger] melds[i]);
        assert(triplet_tile(melds[i]) is Some);
    }
    if has_triplet(melds) {
        let i = choose|i: int| 0 <= i < melds.len() && triplet_tile(#[trigger] melds[i]) is Some;
        assert(is_set(melds[i]));
    }
    assert forall|i: int| 0 <= i < melds.len() implies (is_set(#[trigger] melds[i]) && !(melds[i] is Ankan) <==> melds[i] is Pon
        || melds[i] is Daiminkan || melds[i] is Kakan) by {}
    if has_middle_chi(melds) {
        let i = choose|i: int|
            0 <= i < melds.len() && chi_start(#[trigger] melds[i]) is Some && !crate::mahjong::yaku_star::run_has_terminal(
                chi_start(melds[i])->0,
            );
        let k = chi_start(melds[i])->0;
        assert(begins(melds[i], k));
    }
    if has_inner_run(melds) {
        let (i, k) = choose|i: int, k: int|
            0 <= i < melds.len() && (#[trigger] melds[i]) is Chi && #[trigger] begins(melds[i], k) && !(k < 27 && (k % 9 == 0 || (k
                + 2) % 9 == 8));
        assert(chi_start(melds[i]) == Some(k));
    }
}

proof fn lemma_has_suit(melds: Seq<Meld>, suit: Suit, s: int)
    requires
        (s == 0 && suit == Suit::Man) || (s == 1 && suit == Suit::Pin) || (s == 2 && suit == Suit::Sou),
    ensures
        has_suit(melds, suit) <==> exists|i: int|
            0 <= i < melds.len() && is_number_group(#[trigger] melds[i]) && group_kind(melds[i]) / 9 == s,
{
    assert forall|i: int| 0 <= i < melds.len() implies (meld_suit(#[trigger] melds[i]) == Some(suit) <==> is_number_group(melds[i])
        && group_kind(melds[i]) / 9 == s) by {
        lemma_triplet(melds[i]);
    }
}

proof fn lemma_suits(melds: Seq<Meld>)
    ensures
        number_suits(melds) > 1 <==> mixes_suits(melds),
{
    lemma_has_suit(melds, Suit::Man, 0);
    lemma_has_suit(melds, Suit::Pin, 1);
    lemma_has_suit(melds, Suit::Sou, 2);
    if mixes_suits(melds) {
        let (i, j) = choose|i: int, j: int|
            0 <= i < melds.len() && 0 <= j < melds.len() && is_number_group(#[trigger] melds[i]) && is_number_group(
                #[trigger] melds[j],
            ) && group_kind(melds[i]) / 9 != group_kind(melds[j]) / 9;
        let (a, b) = (group_kind(melds[i]) / 9, group_kind(melds[j]) / 9);
        assert(0 <= a <= 2 && 0 <= b <= 2);
    }
}

proof fn lemma_counts_part(melds: Seq<Meld>, n: int)
    requires
        0 <= n <= melds.len(),
    ensures
        ankan_count(melds.take(n)) == tally(n, |i: int| melds[i] is Ankan),
        pon_count(melds.take(n)) == tally(n, |i: int| melds[i] is Pon),
    decreases n,
{
    if n > 0 {
        lemma_counts_part(melds, n - 1);
        assert(melds.take(n).drop_last() =~= melds.take(n - 1));
    }
}

proof fn lemma_counts(melds: Seq<Meld>)
    ensures
        ankan_count(melds) == places(melds.len(), |i: int| melds[i] is Ankan).len(),
        pon_count(melds) == places(melds.len(), |i: int| melds[i] is Pon).len(),
{
    let n = melds.len() as int;
    lemma_counts_part(melds, n);
    assert(melds.take(n) =~= melds);
    lemma_tally(n, |i: int| melds[i] is Ankan);
    lemma_tally(n, |i: int| melds[i] is Pon);
}

/// How many of some kinds in a row are called as triplets or kans.
pub open spec fn sets_among(melds: Seq<Meld>, first: int, n: nat) -> nat {
    places(n, |d: int| is_called(melds, first + d)).len()
}

/// How many of three runs or triplets, one in each suit, are called.
pub open spec fn of_three(p: spec_fn(int) -> bool) -> nat {
    places(3, p).len()
}

/// How many of the three runs that begin at a rank are called, one in each suit.
pub open spec fn runs_in_suits(melds: Seq<Meld>, r: int) -> nat {
    of_three(|s: int| is_run_called(melds, r + s * 9))
}

/// How many of the three triplets of a rank are called, one in each suit.
pub open spec fn sets_in_suits(melds: Seq<Meld>, r: int) -> nat {
    of_three(|s: int| is_called(melds, r + s * 9))
}

/// How many of the three runs of a full straight of a suit are called.
pub open spec fn straight_runs(melds: Seq<Meld>, u: int) -> nat {
    of_three(|s: int| is_run_called(melds, u * 9 + s * 3))
}

proof fn lemma_called_triplets(melds: Seq<Meld>, lo: int, n: nat)
    ensures
        called_triplets(melds, lo, lo + n - 1) == sets_among(melds, lo, n),
    decreases n,
{
    let p = |d: int| is_called(melds, lo + d);
    lemma_tally(n as int, p);
    lemma_called_part(melds, lo, n);
}

proof fn lemma_called_part(melds: Seq<Meld>, lo: int, n: nat)
    ensures
        called_triplets(melds, lo, lo + n - 1) == tally(n as int, |d: int| is_called(melds, lo + d)),
    decreases n,
{
    if n > 0 {
        lemma_called_part(melds, lo, (n - 1) as nat);
        lemma_called_kind(melds, lo + n - 1);
    }
}

proof fn lemma_three(p: spec_fn(int) -> bool)
    ensures
        of_three(p) == as_count(p(0)) + as_count(p(1)) + as_count(p(2)),
{
    lemma_tally(3, p);
    assert(tally(0, p) == 0);
    assert(tally(1, p) == tally(0, p) + as_count(p(0)));
    assert(tally(2, p) == tally(1, p) + as_count(p(1)));
    assert(tally(3, p) == tally(2, p) + as_count(p(2)));
}

proof fn lemma_runs_of_three(melds: Seq<Meld>, a: int, step: int)
    ensures
        chi_at_three(melds, a, a + step, a + 2 * step) == of_three(|s: int| is_run_called(melds, a + s * step)),
        triplets_at_three(melds, a, a + step, a + 2 * step) == of_three(|s: int| is_called(melds, a + s * step)),
{
    let p = |s: int| is_run_called(melds, a + s * step);
    let q = |s: int| is_called(melds, a + s * step);
    lemma_three(p);
    lemma_three(q);
    lemma_called_kind(melds, a);
    lemma_called_kind(melds, a + step);
    lemma_called_kind(melds, a + 2 * step);
    assert(a + 0 * step == a && a + 1 * step == a + step);
}

/// What can still be called or drawn: the groups of four that are not called yet.
pub open spec fn left(melds: Seq<Meld>) -> int {
    4 - called_count(melds)
}

/// A yaku of kans cannot be reached: the table has four kans already, or even with a kan of every pon
/// and of every group to come there are too few, unless one more can be declared at once.
pub open spec fn lacks_kans(melds: Seq<Meld>, ctx: YakuStarContext, need: int) -> bool {
    let own = places(melds.len(), |i: int| is_any_kan(melds[i])).len() as int;
    let most = own + places(melds.len(), |i: int| melds[i] is Pon).len() + left(melds);
    own < need && (ctx.total_declared_kans >= 4 || most < if ctx.has_legal_kan_candidate { need - 1 } else { need })
}

/// With at most four groups called, the called melds rule out the yaku of a closed hand exactly where
/// the hand is open, or where they leave no room: for runs alone, for two runs of a kind, for pairs.
pub proof fn open_hands_lose_closed_yaku(melds: Seq<Meld>, ctx: YakuStarContext)
    requires
        called_count(melds) <= 4,
    ensures
        is_blocked(YakuStarId::Riichi, melds, ctx) <==> !ctx.menzen,
        is_blocked(YakuStarId::DoubleRiichi, melds, ctx) <==> !ctx.menzen,
        is_blocked(YakuStarId::Ippatsu, melds, ctx) <==> !ctx.menzen,
        is_blocked(YakuStarId::MenzenTsumo, melds, ctx) <==> !ctx.menzen,
        is_blocked(YakuStarId::Pinfu, melds, ctx) <==> !ctx.menzen || exists|i: int|
            0 <= i < melds.len() && is_set(#[trigger] melds[i]),
        is_blocked(YakuStarId::Iipeikou, melds, ctx) <==> !ctx.menzen || called_count(melds) - places(
            melds.len(),
            |i: int| melds[i] is Ankan,
        ).len() > 2,
        is_blocked(YakuStarId::Ryanpeikou, melds, ctx) <==> !ctx.menzen || called_count(melds) > 0,
        is_blocked(YakuStarId::Chiitoitsu, melds, ctx) <==> !ctx.menzen || called_count(melds) > 0,
        is_blocked(YakuStarId::Kokushi, melds, ctx) <==> !ctx.menzen || called_count(melds) > 0,
        is_blocked(YakuStarId::Chuuren, melds, ctx) <==> !ctx.menzen || called_count(melds) > 0,
        is_blocked(YakuStarId::Tenhou, melds, ctx) <==> !ctx.tenhou,
        is_blocked(YakuStarId::Chiihou, melds, ctx) <==> !ctx.chiihou,
        !is_blocked(YakuStarId::Haitei, melds, ctx) && !is_blocked(YakuStarId::Houtei, melds, ctx) && !is_blocked(
            YakuStarId::Rinshan,
            melds,
            ctx,
        ) && !is_blocked(YakuStarId::Chankan, melds, ctx),
{
    lemma_called(melds);
    lemma_counts(melds);
    lemma_sets(melds);
}

/// With at most four groups called, the called melds rule out a yaku of tiles exactly where a called tile
/// is of another kind than the yaku allows.
pub proof fn called_tiles_rule_out_yaku(melds: Seq<Meld>, ctx: YakuStarContext)
    requires
        called_count(melds) <= 4,
    ensures
        is_blocked(YakuStarId::Tanyao, melds, ctx) <==> any_touches(melds, |k: int| is_end(k) || is_letter(k)),
        is_blocked(YakuStarId::Honitsu, melds, ctx) <==> mixes_suits(melds),
        is_blocked(YakuStarId::Chinitsu, melds, ctx) <==> any_touches(melds, |k: int| is_letter(k)) || mixes_suits(melds),
        is_blocked(YakuStarId::Chanta, melds, ctx) <==> has_inner_run(melds) || any_set(
            melds,
            |k: int| !(is_end(k) || is_letter(k)),
        ),
        is_blocked(YakuStarId::Junchan, melds, ctx) <==> has_inner_run(melds) || any_set(melds, |k: int| !is_end(k)),
        is_blocked(YakuStarId::Honroutou, melds, ctx) <==> (exists|i: int| 0 <= i < melds.len() && (#[trigger] melds[i]) is Chi)
            || any_touches(melds, |k: int| !(is_end(k) || is_letter(k))),
        is_blocked(YakuStarId::Chinroutou, melds, ctx) <==> (exists|i: int| 0 <= i < melds.len() && (#[trigger] melds[i]) is Chi)
            || any_touches(melds, |k: int| !is_end(k)),
        is_blocked(YakuStarId::Tsuuiisou, melds, ctx) <==> any_touches(melds, |k: int| !is_letter(k)),
        is_blocked(YakuStarId::Ryuuiisou, melds, ctx) <==> any_touches(melds, |k: int| !is_green(k)),
{
    lemma_called(melds);
    lemma_sets(melds);
    lemma_suits(melds);
    lemma_touches(melds, TileTest::Yaochuu);
    lemma_touches(melds, TileTest::Honor);
    lemma_touches(melds, TileTest::NotYaochuu);
    lemma_touches(melds, TileTest::NotTerminal);
    lemma_touches(melds, TileTest::NotHonor);
    lemma_touches(melds, TileTest::NotGreen);
}

/// With at most four groups called, a yaku of groups is ruled out exactly where more of its groups are
/// missing than are left to come.
pub proof fn missing_groups_rule_out_yaku(melds: Seq<Meld>, ctx: YakuStarContext)
    requires
        called_count(melds) <= 4,
    ensures
        is_blocked(YakuStarId::Toitoi, melds, ctx) <==> exists|i: int| 0 <= i < melds.len() && (#[trigger] melds[i]) is Chi,
        is_blocked(YakuStarId::Suuankou, melds, ctx) <==> !ctx.menzen || (exists|i: int|
            0 <= i < melds.len() && (#[trigger] melds[i]) is Chi) || exists|i: int|
            0 <= i < melds.len() && is_set(#[trigger] melds[i]) && !(melds[i] is Ankan),
        is_blocked(YakuStarId::Sanankou, melds, ctx) <==> 3 - places(melds.len(), |i: int| melds[i] is Ankan).len() > left(melds),
        is_blocked(YakuStarId::Sankantsu, melds, ctx) <==> lacks_kans(melds, ctx, 3),
        is_blocked(YakuStarId::Suukantsu, melds, ctx) <==> lacks_kans(melds, ctx, 4),
        is_blocked(YakuStarId::YakuhaiRound, melds, ctx) <==> !is_called(melds, ctx.bakaze.kind() as int) && left(melds) == 0,
        is_blocked(YakuStarId::YakuhaiSeat, melds, ctx) <==> !is_called(melds, ctx.jikaze.kind() as int) && left(melds) == 0,
        is_blocked(YakuStarId::Haku, melds, ctx) <==> !is_called(melds, 31) && left(melds) == 0,
        is_blocked(YakuStarId::Hatsu, melds, ctx) <==> !is_called(melds, 32) && left(melds) == 0,
        is_blocked(YakuStarId::Chun, melds, ctx) <==> !is_called(melds, 33) && left(melds) == 0,
        is_blocked(YakuStarId::Daisangen, melds, ctx) <==> 3 - sets_among(melds, 31, 3) > left(melds),
        is_blocked(YakuStarId::Shousangen, melds, ctx) <==> 2 - sets_among(melds, 31, 3) > left(melds),
        is_blocked(YakuStarId::Daisuushi, melds, ctx) <==> 4 - sets_among(melds, 27, 4) > left(melds),
        is_blocked(YakuStarId::Shousuushi, melds, ctx) <==> 3 - sets_among(melds, 27, 4) > left(melds),
{
    lemma_called(melds);
    lemma_counts(melds);
    lemma_sets(melds);
    lemma_kans(melds);
    lemma_called_triplets(melds, 31, 3);
    lemma_called_triplets(melds, 27, 4);
    lemma_called_kind(melds, 31);
    lemma_called_kind(melds, 32);
    lemma_called_kind(melds, 33);
    lemma_called_kind(melds, ctx.bakaze.kind() as int);
    lemma_called_kind(melds, ctx.jikaze.kind() as int);
}

/// With at most four groups called, a run or a triplet in all suits, and a full straight, are ruled out
/// exactly where more of their groups are missing, at every rank or in every suit, than are left to come.
pub proof fn missing_runs_rule_out_yaku(melds: Seq<Meld>, ctx: YakuStarContext)
    requires
        called_count(melds) <= 4,
    ensures
        is_blocked(YakuStarId::SanshokuDoujun, melds, ctx) <==> forall|r: int|
            0 <= r <= 6 ==> 3 - #[trigger] runs_in_suits(melds, r) > left(melds),
        is_blocked(YakuStarId::SanshokuDoukou, melds, ctx) <==> forall|r: int|
            0 <= r < 9 ==> 3 - #[trigger] sets_in_suits(melds, r) > left(melds),
        is_blocked(YakuStarId::Ittsuu, melds, ctx) <==> forall|u: int|
            0 <= u < 3 ==> 3 - #[trigger] straight_runs(melds, u) > left(melds),
{
    lemma_called(melds);
    assert(groups_left(melds) == left(melds));
    assert forall|r: int| #![trigger chi_at_three(melds, r, 9 + r, 18 + r)]
        chi_at_three(melds, r, 9 + r, 18 + r) == runs_in_suits(melds, r) by {
        lemma_runs_of_three(melds, r, 9);
    }
    assert forall|r: int| #![trigger triplets_at_three(melds, r, 9 + r, 18 + r)]
        triplets_at_three(melds, r, 9 + r, 18 + r) == sets_in_suits(melds, r) by {
        lemma_runs_of_three(melds, r, 9);
    }
    assert forall|u: int| #![trigger chi_at_three(melds, u * 9, u * 9 + 3, u * 9 + 6)]
        chi_at_three(melds, u * 9, u * 9 + 3, u * 9 + 6) == straight_runs(melds, u) by {
        lemma_runs_of_three(melds, u * 9, 3);
    }
    if sanshoku_out(melds) {
        assert forall|r: int| 0 <= r <= 6 implies 3 - #[trigger] runs_in_suits(melds, r) > left(melds) by {
            assert(3 - chi_at_three(melds, r, 9 + r, 18 + r) > groups_left(melds));
        }
    }
    if sanshoku_triplets_out(melds) {
        assert forall|r: int| 0 <= r < 9 implies 3 - #[trigger] sets_in_suits(melds, r) > left(melds) by {
            assert(3 - triplets_at_three(melds, r, 9 + r, 18 + r) > groups_left(melds));
        }
    }
    if straight_out(melds) {
        assert forall|u: int| 0 <= u < 3 implies 3 - #[trigger] straight_runs(melds, u) > left(melds) by {
            assert(3 - chi_at_three(melds, u * 9, u * 9 + 3, u * 9 + 6) > groups_left(melds));
        }
    }
}

/// With more than four groups called everything is ruled out.
pub proof fn five_groups_rule_out_everything(melds: Seq<Meld>, ctx: YakuStarContext, id: YakuStarId)
    requires
        called_count(melds) > 4,
    ensures
        is_blocked(id, melds, ctx),
{
    lemma_called(melds);
}

// Copies that are left.

/// The unseen copies of some kinds are four of each, less those that were seen.
pub proof fn unseen_copies_add_up(kinds: Seq<usize>, seen: Seq<u8>)
    ensures
        unseen(kinds, seen) == kinds.fold_left(
            0int,
            |sum: int, k: usize| sum + if seen[k as int] >= 4 { 0 } else { 4 - seen[k as int] },
        ),
    decreases kinds.len(),
{
    if kinds.len() > 0 {
        unseen_copies_add_up(kinds.drop_last(), seen);
    }
}

/// A yaku is carried by a wait, by ron or by tsumo, exactly where the hand waits on that kind and the win on
/// it counts and lists the yaku; each way of winning has the circumstances that go with it alone.
pub proof fn waits_carry_what_their_win_lists(
    mask: u64,
    id: YakuStarId,
    c: Seq<u8>,
    melds: Seq<Meld>,
    star: YakuStarContext,
    sanma: bool,
    is_tsumo: bool,
    k: u64,
)
    requires
        mask_holds(mask, id, c, melds, star, sanma, is_tsumo),
        k < 34,
    ensures
        ({
            let w = star_win(c, k as int, melds, star, is_tsumo);
            let r = evaluated(w);
            &&& has_bit(mask, k) <==> star_wait(c, melds, star, sanma, k as int) && (r.han != 0 || r.yakuman != 0) && exists|i: int|
                0 <= i < r.yaku.len() && yaku_star_id((#[trigger] r.yaku[i]).0) == Some(id)
            &&& w.concealed == c.update(k as int, (c[k as int] + 1) as u8) && w.win_tile.kind() == k && w.is_tsumo == is_tsumo
            &&& w.melds == melds && w.menzen == star.menzen && w.bakaze == star.bakaze && w.jikaze == star.jikaze
            &&& w.riichi == star.riichi && w.double_riichi == star.double_riichi && w.ippatsu == star.ippatsu
            &&& is_tsumo ==> w.haitei == star.haitei && w.rinshan == star.rinshan && w.tenhou == star.tenhou && w.chiihou
                == star.chiihou && !w.houtei && !w.chankan
            &&& !is_tsumo ==> w.houtei == star.houtei && w.chankan == star.chankan && !w.haitei && !w.rinshan && !w.tenhou
                && !w.chiihou
        }),
{
    reveal(confirms);
    let r = evaluated(star_win(c, k as int, melds, star, is_tsumo));
    assert(has_bit(mask, k) <==> star_wait(c, melds, star, sanma, k as int) && confirms(
        star_win(c, k as int, melds, star, is_tsumo),
        id.index() as int,
    ));
    assert forall|i: int| 0 <= i < r.yaku.len() implies ((yaku_star_id((#[trigger] r.yaku[i]).0) is Some && yaku_star_id(
        r.yaku[i].0,
    )->0.index() == id.index()) <==> yaku_star_id(r.yaku[i].0) == Some(id)) by {
        star_slots_are_numbered(id, 0);
        if yaku_star_id(r.yaku[i].0) is Some {
            star_slots_are_numbered(yaku_star_id(r.yaku[i].0)->0, 0);
        }
    }
    if lists_slot(r.yaku, id.index() as int) {
        let i = choose|i: int|
            0 <= i < r.yaku.len() && yaku_star_id((#[trigger] r.yaku[i]).0) is Some && yaku_star_id(r.yaku[i].0)->0.index()
                == id.index() as int;
        assert(yaku_star_id(r.yaku[i].0) == Some(id));
    }
}

} // verus!
