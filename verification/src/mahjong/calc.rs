//! Calculators over known information: facts that follow from the rules and visible tiles.
//! Suji, kabe and other estimates of danger are judgments and are not made here.

use vstd::prelude::*;
use crate::mahjong::agari::{completes, winning_kinds, winning_tiles_for, with_tile};
use crate::mahjong::hand::{kinds_below, lemma_kinds_below, TileCounts};
use crate::mahjong::shanten::{shanten_for, shanten_value};
use crate::mahjong::tile::Tile;
use crate::mahjong::yaku::{can_evaluate, evaluate, evaluated, open_count, WinFacts, Yaku, YakuContext};

verus! {

/// Shanten from concealed counts and the number of called melds.
pub fn shanten_calc(concealed: &TileCounts, open_melds: u8) -> (r: i8)
    ensures
        r == shanten_value(concealed@, open_melds, false),
{
    shanten_for(concealed, open_melds, false)
}

/// Three-player shanten.
pub fn shanten_calc_3p(concealed: &TileCounts, open_melds: u8) -> (r: i8)
    ensures
        r == shanten_value(concealed@, open_melds, true),
{
    shanten_for(concealed, open_melds, true)
}

/// Whether a kind is among the discards.
pub open spec fn discarded(discards: Seq<Tile>, k: int) -> bool {
    exists|i: int| 0 <= i < discards.len() && (#[trigger] discards[i]).kind() == k
}

pub open spec fn all_known(tiles: Seq<Tile>) -> bool {
    forall|i: int| 0 <= i < tiles.len() ==> (#[trigger] tiles[i]).is_known()
}

/// Marks the kinds of the discards.
fn discard_marks(discards: &[Tile]) -> (r: [bool; 34])
    requires
        all_known(discards@),
    ensures
        forall|k: int| 0 <= k < 34 ==> (#[trigger] r@[k] <==> discarded(discards@, k)),
{
    let mut set = [false; 34];
    let mut i: usize = 0;
    while i < discards.len()
        invariant
            i <= discards.len(),
            all_known(discards@),
            forall|k: int|
                0 <= k < 34 ==> (#[trigger] set@[k] <==> exists|j: int|
                    0 <= j < i && (#[trigger] discards@[j]).kind() == k),
        decreases discards.len() - i,
    {
        let t = discards[i];
        assert(t.is_known());
        let kind: usize = t.kind();
        let ghost before = set@;
        set[kind] = true;
        assert forall|k: int| 0 <= k < 34 implies (#[trigger] set@[k] <==> exists|j: int|
            0 <= j < i + 1 && (#[trigger] discards@[j]).kind() == k) by {
            if k == kind {
                assert(discards@[i as int].kind() == k);
            } else {
                assert(set@[k] == before[k]);
            }
        }
        i = i + 1;
    }
    assert forall|k: int| 0 <= k < 34 implies (#[trigger] set@[k] <==> discarded(discards@, k)) by {}
    set
}

/// Genbutsu for one opponent: the kinds among that player's own discards, which furiten
/// keeps them from winning on.
pub fn genbutsu_safe(opponent_discards: &[Tile]) -> (r: Vec<usize>)
    requires
        all_known(opponent_discards@),
    ensures
        r@ == kinds_below(34, |k: int| discarded(opponent_discards@, k)),
{
    let set = discard_marks(opponent_discards);
    let ghost p = |k: int| discarded(opponent_discards@, k);
    let mut out: Vec<usize> = Vec::new();
    let mut k: usize = 0;
    while k < 34
        invariant
            k <= 34,
            p == (|j: int| discarded(opponent_discards@, j)),
            forall|j: int| 0 <= j < 34 ==> (#[trigger] set@[j] <==> discarded(opponent_discards@, j)),
            out@ == kinds_below(k as nat, p),
        decreases 34 - k,
    {
        if set[k] {
            out.push(k);
        }
        k = k + 1;
    }
    out
}

/// Whether a kind is among the discards of every opponent, and there is one.
pub open spec fn discarded_by_all(discards: Seq<&[Tile]>, k: int) -> bool {
    discards.len() > 0 && forall|i: int| 0 <= i < discards.len() ==> discarded((#[trigger] discards[i])@, k)
}

/// Kinds that are genbutsu against every given opponent.
pub fn genbutsu_safe_against_all(opponents_discards: &[&[Tile]]) -> (r: Vec<usize>)
    requires
        forall|i: int| 0 <= i < opponents_discards@.len() ==> all_known((#[trigger] opponents_discards@[i])@),
    ensures
        r@ == kinds_below(34, |k: int| discarded_by_all(opponents_discards@, k)),
{
    let ghost all = opponents_discards@;
    let mut acc = [opponents_discards.len() > 0; 34];
    let mut i: usize = 0;
    while i < opponents_discards.len()
        invariant
            i <= opponents_discards.len(),
            all == opponents_discards@,
            forall|j: int| 0 <= j < all.len() ==> all_known((#[trigger] all[j])@),
            forall|k: int|
                0 <= k < 34 ==> (#[trigger] acc@[k] <==> all.len() > 0 && forall|j: int|
                    0 <= j < i ==> discarded((#[trigger] all[j])@, k)),
        decreases opponents_discards.len() - i,
    {
        assert(all_known(all[i as int]@));
        let here = discard_marks(opponents_discards[i]);
        let mut k: usize = 0;
        let ghost before = acc@;
        while k < 34
            invariant
                k <= 34,
                forall|j: int| 0 <= j < k ==> #[trigger] acc@[j] == (before[j] && here@[j]),
                forall|j: int| k <= j < 34 ==> #[trigger] acc@[j] == before[j],
            decreases 34 - k,
        {
            acc[k] = acc[k] && here[k];
            k = k + 1;
        }
        assert forall|k: int| 0 <= k < 34 implies (#[trigger] acc@[k] <==> all.len() > 0 && forall|j: int|
            0 <= j < i + 1 ==> discarded((#[trigger] all[j])@, k)) by {
            assert(acc@[k] == (before[k] && here@[k]));
            assert(here@[k] <==> discarded(all[i as int]@, k));
        }
        i = i + 1;
    }
    let ghost p = |k: int| discarded_by_all(all, k);
    let mut out: Vec<usize> = Vec::new();
    let mut k: usize = 0;
    while k < 34
        invariant
            k <= 34,
            p == (|j: int| discarded_by_all(all, j)),
            forall|j: int| 0 <= j < 34 ==> (#[trigger] acc@[j] <==> discarded_by_all(all, j)),
            out@ == kinds_below(k as nat, p),
        decreases 34 - k,
    {
        if acc[k] {
            out.push(k);
        }
        k = k + 1;
    }
    out
}

/// A win on one more tile of a kind.
pub open spec fn won_with(f: WinFacts, k: int) -> WinFacts {
    WinFacts { concealed: with_tile(f.concealed, k), win_tile: Tile::of(k), ..f }
}

/// The yaku of a win on a kind.
pub open spec fn yaku_when_won(f: WinFacts, k: int) -> Seq<Yaku> {
    evaluated(won_with(f, k)).yaku.map_values(|p: (Yaku, u8)| p.0)
}

/// The winning kinds of a hand in tenpai.
pub open spec fn waits_of_hand(f: WinFacts, sanma: bool) -> Seq<usize> {
    winning_kinds(f.concealed, open_count(f), sanma)
}

/// The yaku for each winning kind, in ascending order of kind.
pub open spec fn yaku_branches(f: WinFacts, sanma: bool) -> Seq<Seq<Yaku>> {
    waits_of_hand(f, sanma).map_values(|k: usize| yaku_when_won(f, k as int))
}

/// Each win can be evaluated; a matter of course for a hand with few melds.
pub open spec fn wins_can_evaluate(f: WinFacts, sanma: bool) -> bool {
    f.melds.len() <= 40 || forall|k: int|
        0 <= k < 34 && #[trigger] completes(f.concealed, open_count(f), sanma, k) ==> can_evaluate(won_with(f, k))
}

/// The yaku found in every branch, in the order of the first one.
pub open spec fn in_every_branch(branches: Seq<Seq<Yaku>>) -> Seq<Yaku> {
    if branches.len() == 0 {
        Seq::empty()
    } else {
        kept_in_all(branches[0], branches, branches.len())
    }
}

/// What is left of a list when each of the first `n` branches keeps only its own yaku.
pub open spec fn kept_in_all(s: Seq<Yaku>, branches: Seq<Seq<Yaku>>, n: nat) -> Seq<Yaku>
    decreases n,
{
    if n == 0 {
        s
    } else {
        kept_in_all(s, branches, (n - 1) as nat).filter(|y: Yaku| branches[n - 1].contains(y))
    }
}

/// A list with further entries, each unless it is there already.
pub open spec fn joined(s: Seq<Yaku>, more: Seq<Yaku>) -> Seq<Yaku>
    decreases more.len(),
{
    if more.len() == 0 {
        s
    } else {
        let t = joined(s, more.drop_last());
        if t.contains(more.last()) { t } else { t.push(more.last()) }
    }
}

/// The yaku found in some branch, in order of appearance.
pub open spec fn in_some_branch(branches: Seq<Seq<Yaku>>) -> Seq<Yaku>
    decreases branches.len(),
{
    if branches.len() == 0 { Seq::empty() } else { joined(in_some_branch(branches.drop_last()), branches.last()) }
}

fn has_yaku(v: &Vec<Yaku>, y: Yaku) -> (r: bool)
    ensures
        r == v@.contains(y),
{
    let mut i: usize = 0;
    while i < v.len()
        invariant
            i <= v.len(),
            forall|j: int| 0 <= j < i ==> v@[j] != y,
        decreases v.len() - i,
    {
        if v[i] == y {
            assert(v@.contains(y));
            return true;
        }
        i = i + 1;
    }
    false
}

pub open spec fn branch_views(v: Seq<Vec<Yaku>>) -> Seq<Seq<Yaku>> {
    v.map_values(|b: Vec<Yaku>| b@)
}

proof fn lemma_won_with_is_ordinary(f: WinFacts, k: int)
    requires
        f.concealed.len() == 34,
        f.melds.len() <= 40,
        0 <= k < 34,
        f.concealed[k] < 4,
    ensures
        can_evaluate(won_with(f, k)),
{
}

/// Yaku of a win on a kind.
#[verifier::rlimit(40)]
fn yaku_of_win(ctx: &YakuContext, w: usize) -> (ys: Vec<Yaku>)
    requires
        w < 34,
        ctx@.concealed[w as int] < 4,
        can_evaluate(won_with(ctx@, w as int)),
    ensures
        ys@ == yaku_when_won(ctx@, w as int),
{
    let win = Tile::from_id_unchecked(w as u8);
    let mut won = ctx.clone();
    won.concealed[w] = won.concealed[w] + 1;
    won.win_tile = win;
    assert(won@.concealed =~= with_tile(ctx@.concealed, w as int));
    assert(won@ == won_with(ctx@, w as int));
    let r = evaluate(&won);
    let mut ys: Vec<Yaku> = Vec::new();
    let ghost names = r.yaku@.map_values(|p: (Yaku, u8)| p.0);
    let mut j: usize = 0;
    while j < r.yaku.len()
        invariant
            j <= r.yaku.len(),
            names == r.yaku@.map_values(|p: (Yaku, u8)| p.0),
            ys@ == names.subrange(0, j as int),
        decreases r.yaku.len() - j,
    {
        ys.push(r.yaku[j].0);
        assert(ys@ =~= names.subrange(0, j + 1));
        j = j + 1;
    }
    assert(ys@ =~= names);
    ys
}

/// Yaku for each winning tile of a hand in tenpai.
fn yaku_per_win(ctx: &YakuContext, sanma: bool) -> (r: Vec<Vec<Yaku>>)
    requires
        wins_can_evaluate(ctx@, sanma),
    ensures
        branch_views(r@) == yaku_branches(ctx@, sanma),
{
    let counts = TileCounts::from_raw(ctx.concealed);
    let open: u8 = ctx.melds_set_count_pub();
    let waits = winning_tiles_for(&counts, open, sanma);
    let ghost want = yaku_branches(ctx@, sanma);
    let mut out: Vec<Vec<Yaku>> = Vec::new();
    let mut i: usize = 0;
    while i < waits.len()
        invariant
            i <= waits.len(),
            open == open_count(ctx@),
            counts@ == ctx@.concealed,
            waits@ == waits_of_hand(ctx@, sanma),
            want == yaku_branches(ctx@, sanma),
            forall|j: int| 0 <= j < waits@.len() ==> #[trigger] waits@[j] < 34 && completes(counts@, open, sanma, waits@[j] as int),
            wins_can_evaluate(ctx@, sanma),
            branch_views(out@) == want.subrange(0, i as int),
        decreases waits.len() - i,
    {
        let w: usize = waits[i];
        assert(completes(counts@, open, sanma, w as int));
        proof {
            if ctx@.melds.len() <= 40 {
                lemma_won_with_is_ordinary(ctx@, w as int);
            }
        }
        let ys = yaku_of_win(ctx, w);
        let ghost before = branch_views(out@);
        let ghost ysv = ys@;
        out.push(ys);
        assert(branch_views(out@) =~= before.push(ysv));
        assert(want.subrange(0, i + 1) =~= want.subrange(0, i as int).push(want[i as int]));
        i = i + 1;
    }
    assert(want.subrange(0, i as int) =~= want);
    out
}

fn retain_in(acc: &Vec<Yaku>, set: &Vec<Yaku>) -> (r: Vec<Yaku>)
    ensures
        r@ == acc@.filter(|y: Yaku| set@.contains(y)),
{
    let ghost p = |y: Yaku| set@.contains(y);
    let mut r: Vec<Yaku> = Vec::new();
    let mut i: usize = 0;
    proof { reveal(Seq::filter); }
    while i < acc.len()
        invariant
            i <= acc.len(),
            p == (|y: Yaku| set@.contains(y)),
            r@ == acc@.subrange(0, i as int).filter(p),
        decreases acc.len() - i,
    {
        proof { reveal(Seq::filter); }
        assert(acc@.subrange(0, i + 1).drop_last() =~= acc@.subrange(0, i as int));
        if has_yaku(set, acc[i]) {
            r.push(acc[i]);
        }
        i = i + 1;
    }
    assert(acc@.subrange(0, i as int) =~= acc@);
    r
}

#[verifier::rlimit(40)]
pub fn certain_yaku_for(ctx: &YakuContext, sanma: bool) -> (r: Vec<Yaku>)
    requires
        wins_can_evaluate(ctx@, sanma),
    ensures
        r@ == in_every_branch(yaku_branches(ctx@, sanma)),
{
    let branches = yaku_per_win(ctx, sanma);
    let ghost b = branch_views(branches@);
    let mut acc: Vec<Yaku> = Vec::new();
    if branches.len() == 0 {
        assert(acc@ =~= in_every_branch(b));
        return acc;
    }
    let mut j: usize = 0;
    while j < branches[0].len()
        invariant
            branches.len() > 0,
            j <= branches@[0].len(),
            acc@ == branches@[0]@.subrange(0, j as int),
        decreases branches@[0].len() - j,
    {
        acc.push(branches[0][j]);
        assert(acc@ =~= branches@[0]@.subrange(0, j + 1));
        j = j + 1;
    }
    assert(acc@ =~= b[0]);
    let mut i: usize = 0;
    while i < branches.len()
        invariant
            i <= branches.len(),
            b == branch_views(branches@),
            acc@ == kept_in_all(b[0], b, i as nat),
        decreases branches.len() - i,
    {
        let kept = retain_in(&acc, &branches[i]);
        assert(b[i as int] == branches@[i as int]@);
        acc = kept;
        i = i + 1;
    }
    acc
}

/// Yaku that hold whichever winning tile completes the hand; none where it is not in tenpai.
pub fn certain_yaku(ctx_template: &YakuContext) -> (r: Vec<Yaku>)
    requires
        wins_can_evaluate(ctx_template@, false),
    ensures
        r@ == in_every_branch(yaku_branches(ctx_template@, false)),
{
    certain_yaku_for(ctx_template, false)
}

pub fn certain_yaku_3p(ctx_template: &YakuContext) -> (r: Vec<Yaku>)
    requires
        wins_can_evaluate(ctx_template@, true),
    ensures
        r@ == in_every_branch(yaku_branches(ctx_template@, true)),
{
    certain_yaku_for(ctx_template, true)
}

#[verifier::rlimit(40)]
pub fn possible_yaku_for(ctx: &YakuContext, sanma: bool) -> (r: Vec<Yaku>)
    requires
        wins_can_evaluate(ctx@, sanma),
    ensures
        r@ == in_some_branch(yaku_branches(ctx@, sanma)),
{
    let branches = yaku_per_win(ctx, sanma);
    let ghost b = branch_views(branches@);
    let mut acc: Vec<Yaku> = Vec::new();
    let mut i: usize = 0;
    assert(b.subrange(0, 0) =~= Seq::empty());
    assert(acc@ =~= Seq::empty());
    while i < branches.len()
        invariant
            i <= branches.len(),
            b == branch_views(branches@),
            acc@ == in_some_branch(b.subrange(0, i as int)),
        decreases branches.len() - i,
    {
        let set = &branches[i];
        let ghost before = acc@;
        let mut j: usize = 0;
        assert(set@.subrange(0, 0) =~= Seq::empty());
        while j < set.len()
            invariant
                j <= set.len(),
                acc@ == joined(before, set@.subrange(0, j as int)),
            decreases set.len() - j,
        {
            assert(set@.subrange(0, j + 1).drop_last() =~= set@.subrange(0, j as int));
            if !has_yaku(&acc, set[j]) {
                acc.push(set[j]);
            }
            j = j + 1;
        }
        assert(set@.subrange(0, j as int) =~= set@);
        assert(b.subrange(0, i + 1).drop_last() =~= b.subrange(0, i as int));
        assert(b.subrange(0, i + 1).last() == set@);
        i = i + 1;
    }
    assert(b.subrange(0, i as int) =~= b);
    acc
}

/// Yaku of at least one winning tile.
pub fn possible_yaku(ctx_template: &YakuContext) -> (r: Vec<Yaku>)
    requires
        wins_can_evaluate(ctx_template@, false),
    ensures
        r@ == in_some_branch(yaku_branches(ctx_template@, false)),
{
    possible_yaku_for(ctx_template, false)
}

pub fn possible_yaku_3p(ctx_template: &YakuContext) -> (r: Vec<Yaku>)
    requires
        wins_can_evaluate(ctx_template@, true),
    ensures
        r@ == in_some_branch(yaku_branches(ctx_template@, true)),
{
    possible_yaku_for(ctx_template, true)
}

proof fn lemma_kept_in_all(s: Seq<Yaku>, branches: Seq<Seq<Yaku>>, n: nat, y: Yaku)
    requires
        n <= branches.len(),
    ensures
        kept_in_all(s, branches, n).contains(y) <==> s.contains(y) && forall|j: int|
            0 <= j < n ==> (#[trigger] branches[j]).contains(y),
    decreases n,
{
    if n > 0 {
        lemma_kept_in_all(s, branches, (n - 1) as nat, y);
        let t = kept_in_all(s, branches, (n - 1) as nat);
        let p = |y: Yaku| branches[n - 1].contains(y);
        let u = t.filter(p);
        if u.contains(y) {
            let i = choose|i: int| 0 <= i < u.len() && u[i] == y;
            t.lemma_filter_pred(p, i);
            t.lemma_filter_contains_rev(p, y);
        }
        if t.contains(y) && p(y) {
            let i = choose|i: int| 0 <= i < t.len() && t[i] == y;
            t.lemma_filter_contains(p, i);
        }
    }
}

proof fn lemma_joined(s: Seq<Yaku>, more: Seq<Yaku>, y: Yaku)
    ensures
        joined(s, more).contains(y) <==> s.contains(y) || more.contains(y),
    decreases more.len(),
{
    if more.len() > 0 {
        lemma_joined(s, more.drop_last(), y);
        lemma_joined(s, more.drop_last(), more.last());
        let t = joined(s, more.drop_last());
        if more.contains(y) {
            let i = choose|i: int| 0 <= i < more.len() && more[i] == y;
            if i < more.len() - 1 {
                assert(more.drop_last()[i] == y);
            }
        }
        if more.drop_last().contains(y) {
            let i = choose|i: int| 0 <= i < more.len() - 1 && more.drop_last()[i] == y;
            assert(more[i] == y);
        }
        if !t.contains(more.last()) {
            assert(t.push(more.last())[t.len() as int] == more.last());
            if t.contains(y) {
                let i = choose|i: int| 0 <= i < t.len() && t[i] == y;
                assert(t.push(more.last())[i] == y);
            }
            if t.push(more.last()).contains(y) {
                let i = choose|i: int| 0 <= i < t.len() + 1 && t.push(more.last())[i] == y;
                if i < t.len() {
                    assert(t[i] == y);
                } else {
                    assert(more[more.len() - 1] == y);
                }
            }
        }
    }
}

proof fn lemma_in_some_branch(branches: Seq<Seq<Yaku>>, y: Yaku)
    ensures
        in_some_branch(branches).contains(y) <==> exists|j: int|
            0 <= j < branches.len() && (#[trigger] branches[j]).contains(y),
    decreases branches.len(),
{
    if branches.len() > 0 {
        lemma_in_some_branch(branches.drop_last(), y);
        lemma_joined(in_some_branch(branches.drop_last()), branches.last(), y);
        if exists|j: int| 0 <= j < branches.len() && (#[trigger] branches[j]).contains(y) {
            let j = choose|j: int| 0 <= j < branches.len() && (#[trigger] branches[j]).contains(y);
            if j < branches.len() - 1 {
                assert(branches.drop_last()[j].contains(y));
            }
        }
        if exists|j: int| 0 <= j < branches.len() - 1 && (#[trigger] branches.drop_last()[j]).contains(y) {
            let j = choose|j: int| 0 <= j < branches.len() - 1 && (#[trigger] branches.drop_last()[j]).contains(y);
            assert(branches[j].contains(y));
        }
    }
}

/// A certain yaku is one of every winning tile's, a possible yaku one of some winning tile's,
/// and what is certain is possible.
pub proof fn certain_is_possible(f: WinFacts, sanma: bool, y: Yaku)
    ensures
        in_every_branch(yaku_branches(f, sanma)).contains(y) <==> yaku_branches(f, sanma).len() > 0 && forall|j: int|
            0 <= j < yaku_branches(f, sanma).len() ==> (#[trigger] yaku_branches(f, sanma)[j]).contains(y),
        in_some_branch(yaku_branches(f, sanma)).contains(y) <==> exists|j: int|
            0 <= j < yaku_branches(f, sanma).len() && (#[trigger] yaku_branches(f, sanma)[j]).contains(y),
        in_every_branch(yaku_branches(f, sanma)).contains(y) ==> in_some_branch(yaku_branches(f, sanma)).contains(y),
{
    let b = yaku_branches(f, sanma);
    lemma_in_some_branch(b, y);
    if b.len() > 0 {
        lemma_kept_in_all(b[0], b, b.len(), y);
        if in_every_branch(b).contains(y) {
            assert(b[0].contains(y));
        }
        if forall|j: int| 0 <= j < b.len() ==> (#[trigger] b[j]).contains(y) {
            assert(b[0].contains(y));
        }
    }
}

/// What is genbutsu against all opponents is genbutsu against each of them, and conversely.
pub proof fn genbutsu_is_intersection(discards: Seq<&[Tile]>, k: int)
    requires
        0 <= k < 34,
        discards.len() > 0,
    ensures
        kinds_below(34, |j: int| discarded_by_all(discards, j)).contains(k as usize) <==> forall|i: int|
            0 <= i < discards.len() ==> kinds_below(34, |j: int| discarded((#[trigger] discards[i])@, j)).contains(
                k as usize,
            ),
{
    let p = |j: int| discarded_by_all(discards, j);
    lemma_kinds_below(34, p);
    assert(kinds_below(34, p).contains(k as usize) <==> p(k)) by {
        if kinds_below(34, p).contains(k as usize) {
            let i = choose|i: int| 0 <= i < kinds_below(34, p).len() && kinds_below(34, p)[i] == k as usize;
            assert(p(kinds_below(34, p)[i] as int));
        }
    }
    assert forall|i: int| 0 <= i < discards.len() implies (kinds_below(34, |j: int| discarded((#[trigger] discards[i])@, j)).contains(
        k as usize) <==> discarded(discards[i]@, k)) by {
        let q = |j: int| discarded(discards[i]@, j);
        lemma_kinds_below(34, q);
        assert(q(k) == discarded(discards[i]@, k));
        if kinds_below(34, q).contains(k as usize) {
            let n = choose|n: int| 0 <= n < kinds_below(34, q).len() && kinds_below(34, q)[n] == k as usize;
            assert(q(kinds_below(34, q)[n] as int));
        }
    }
}

} // verus!
