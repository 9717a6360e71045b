//! Calculators over a seat view. A view holds what the seat can see, so these use known
//! information only, and give facts rather than estimates.

use vstd::prelude::*;
use crate::mahjong::calc::{
    all_known, certain_yaku_for, discarded, discarded_by_all, genbutsu_safe, genbutsu_safe_against_all, in_every_branch,
    in_some_branch, possible_yaku_for, wins_can_evaluate, yaku_branches,
};
use crate::mahjong::hand::{kinds_below, TileCounts};
use crate::mahjong::meld::Meld;
use crate::mahjong::shanten::{shanten_for, shanten_value, TENPAI};
use crate::mahjong::tile::Tile;
use crate::mahjong::yaku::{clone_melds, count_group_melds, WinFacts, Yaku, YakuContext};
use crate::maintainer::player::{count_tiles, countable, counts_of, open_groups};
use crate::maintainer::view::{opponent_facts, OpponentFacts, OpponentView, SeatView, TableFacts};

verus! {

/// Shanten of the seat's hand.
pub open spec fn view_shanten(v: TableFacts) -> int {
    shanten_value(counts_of(v.me.hand), open_groups(v.me.melds), v.is_sanma())
}

/// Own shanten.
pub fn my_shanten(view: &SeatView) -> (r: i8)
    requires
        countable(view.me.hand@),
    ensures
        r == view_shanten(view@),
{
    let counts = count_tiles(&view.me.hand);
    let open: u8 = (count_group_melds(&view.me.melds) % 256) as u8;
    shanten_for(&counts, open, view.others.len() == 2)
}

/// Shanten for given closed counts and number of called groups.
pub fn shanten_after(counts: &TileCounts, open_melds: u8) -> (r: i8)
    ensures
        r == shanten_value(counts@, open_melds, false),
{
    shanten_for(counts, open_melds, false)
}

/// Shanten after a discard for an explicit variant.
pub fn shanten_after_for(counts: &TileCounts, open_melds: u8, is_sanma: bool) -> (r: i8)
    ensures
        r == shanten_value(counts@, open_melds, is_sanma),
{
    shanten_for(counts, open_melds, is_sanma)
}

/// Whether the seat is in tenpai.
pub fn my_tenpai(view: &SeatView) -> (r: bool)
    requires
        countable(view.me.hand@),
    ensures
        r == (view_shanten(view@) == TENPAI),
{
    my_shanten(view) == TENPAI
}

/// Place of the first opponent with a seat number, their number where there is none.
pub open spec fn opponent_at(others: Seq<OpponentFacts>, seat: u8) -> int
    decreases others.len(),
{
    if others.len() == 0 { 0 } else if others[0].seat == seat { 0 } else { 1 + opponent_at(others.drop_first(), seat) }
}

fn find_opponent(others: &Vec<OpponentView>, seat: u8) -> (r: Option<usize>)
    ensures
        match r {
            Some(i) => i < others@.len() && i == opponent_at(opponent_facts(others@), seat),
            None => opponent_at(opponent_facts(others@), seat) == others@.len(),
        },
{
    let ghost all = opponent_facts(others@);
    let mut i: usize = 0;
    assert(all.subrange(0, all.len() as int) =~= all);
    while i < others.len()
        invariant
            i <= others.len(),
            all == opponent_facts(others@),
            opponent_at(all, seat) == i + opponent_at(all.subrange(i as int, all.len() as int), seat),
        decreases others.len() - i,
    {
        assert(all.subrange(i as int, all.len() as int).drop_first() =~= all.subrange(i + 1, all.len() as int));
        if others[i].seat == seat {
            return Some(i);
        }
        i = i + 1;
    }
    None
}

/// The discards of an opponent, none for a seat that is no opponent's.
pub open spec fn discards_of(v: TableFacts, seat: u8) -> Seq<Tile> {
    let i = opponent_at(v.others, seat);
    if i < v.others.len() { v.others[i].discards } else { Seq::empty() }
}

/// Genbutsu against one opponent.
pub fn genbutsu_against(view: &SeatView, opponent_seat: u8) -> (r: Vec<usize>)
    requires
        all_known(discards_of(view@, opponent_seat)),
    ensures
        r@ == kinds_below(34, |k: int| discarded(discards_of(view@, opponent_seat), k)),
{
    match find_opponent(&view.others, opponent_seat) {
        Some(i) => genbutsu_safe(view.others[i].discards.as_slice()),
        None => {
            let none: Vec<Tile> = Vec::new();
            assert(none@ =~= discards_of(view@, opponent_seat));
            genbutsu_safe(none.as_slice())
        },
    }
}

/// A kind among the discards of every opponent in riichi, of whom there is one.
pub open spec fn safe_against_riichi(others: Seq<OpponentFacts>, k: int) -> bool {
    &&& exists|i: int| 0 <= i < others.len() && (#[trigger] others[i]).riichi
    &&& forall|i: int| 0 <= i < others.len() && (#[trigger] others[i]).riichi ==> discarded(others[i].discards, k)
}

/// Genbutsu against every opponent in riichi. Whether others are in tenpai is a judgment, so
/// they are left out.
pub fn genbutsu_against_riichi(view: &SeatView) -> (r: Vec<usize>)
    requires
        forall|i: int|
            0 <= i < view@.others.len() && (#[trigger] view@.others[i]).riichi ==> all_known(view@.others[i].discards),
    ensures
        r@ == kinds_below(34, |k: int| safe_against_riichi(view@.others, k)),
{
    let ghost others = view@.others;
    let mut discs: Vec<&[Tile]> = Vec::new();
    let ghost mut from: Seq<int> = Seq::empty();
    let mut i: usize = 0;
    while i < view.others.len()
        invariant
            i <= view.others.len(),
            others == view@.others,
            forall|j: int| 0 <= j < others.len() && (#[trigger] others[j]).riichi ==> all_known(others[j].discards),
            from.len() == discs@.len(),
            forall|n: int| 0 <= n < from.len() ==> 0 <= #[trigger] from[n] < i && others[from[n]].riichi && discs@[n]@
                == others[from[n]].discards,
            forall|j: int| 0 <= j < i && (#[trigger] others[j]).riichi ==> from.contains(j),
        decreases view.others.len() - i,
    {
        assert(others[i as int] == view.others@[i as int]@);
        if view.others[i].riichi {
            let ghost before = from;
            discs.push(view.others[i].discards.as_slice());
            proof {
                from = from.push(i as int);
                assert(from[from.len() - 1] == i);
                assert forall|j: int| 0 <= j < i + 1 && (#[trigger] others[j]).riichi implies from.contains(j) by {
                    if j < i {
                        assert(before.contains(j));
                        let n = choose|n: int| 0 <= n < before.len() && before[n] == j;
                        assert(from[n] == j);
                    }
                }
            }
        }
        i = i + 1;
    }
    proof {
        assert forall|n: int| 0 <= n < discs@.len() implies all_known((#[trigger] discs@[n])@) by {
            assert(others[from[n]].riichi);
        }
        let p = |k: int| discarded_by_all(discs@, k);
        let q = |k: int| safe_against_riichi(others, k);
        assert forall|k: int| #[trigger] p(k) == q(k) by {
            if p(k) {
                assert(others[from[0]].riichi);
                assert forall|j: int| 0 <= j < others.len() && (#[trigger] others[j]).riichi implies discarded(others[j].discards, k) by {
                    assert(from.contains(j));
                    let n = choose|n: int| 0 <= n < from.len() && from[n] == j;
                    assert(discarded(discs@[n]@, k));
                }
            }
            if q(k) {
                let j = choose|j: int| 0 <= j < others.len() && (#[trigger] others[j]).riichi;
                assert(from.contains(j));
                assert forall|n: int| 0 <= n < discs@.len() implies discarded((#[trigger] discs@[n])@, k) by {
                    assert(others[from[n]].riichi);
                }
            }
        }
        lemma_kinds_below_same(34, p, q);
    }
    genbutsu_safe_against_all(discs.as_slice())
}

proof fn lemma_kinds_below_same(n: nat, p: spec_fn(int) -> bool, q: spec_fn(int) -> bool)
    requires
        forall|k: int| #[trigger] p(k) == q(k),
    ensures
        kinds_below(n, p) == kinds_below(n, q),
    decreases n,
{
    if n > 0 {
        lemma_kinds_below_same((n - 1) as nat, p, q);
    }
}

pub open spec fn all_closed(melds: Seq<Meld>) -> bool {
    forall|i: int| 0 <= i < melds.len() ==> !(#[trigger] melds[i]).breaks_menzen()
}

pub fn melds_all_closed(melds: &Vec<Meld>) -> (r: bool)
    ensures
        r == all_closed(melds@),
{
    let mut i: usize = 0;
    while i < melds.len()
        invariant
            i <= melds.len(),
            forall|j: int| 0 <= j < i ==> !(#[trigger] melds@[j]).breaks_menzen(),
        decreases melds.len() - i,
    {
        if melds[i].breaks_menzen() {
            assert(melds@[i as int].breaks_menzen());
            return false;
        }
        i = i + 1;
    }
    true
}

/// The hand of a view as a win by ron, with no situational yaku but riichi.
pub open spec fn outlook_facts(v: TableFacts) -> WinFacts {
    WinFacts {
        rule_profile: v.rule_profile,
        concealed: counts_of(v.me.hand),
        melds: v.me.melds,
        win_tile: Tile::unknown(),
        is_tsumo: false,
        menzen: all_closed(v.me.melds),
        bakaze: v.bakaze,
        jikaze: Tile::of(27 + (v.me.seat + 4 - v.oya) % 4),
        riichi: v.me.riichi,
        double_riichi: false,
        ippatsu: false,
        haitei: false,
        houtei: false,
        rinshan: false,
        chankan: false,
        tenhou: false,
        chiihou: false,
        nuki_count: 0,
        pei_is_yakuhai: false,
    }
}

fn outlook_context(view: &SeatView) -> (ctx: YakuContext)
    requires
        countable(view.me.hand@),
        view.me.seat <= 251,
        view.oya <= view.me.seat + 4,
    ensures
        ctx@ == outlook_facts(view@),
{
    let counts = count_tiles(&view.me.hand);
    let offset: u8 = (view.me.seat + 4 - view.oya) % 4;
    YakuContext {
        rule_profile: view.rule_profile,
        concealed: counts.0,
        melds: clone_melds(&view.me.melds),
        win_tile: Tile::unknown(),
        is_tsumo: false,
        menzen: melds_all_closed(&view.me.melds),
        bakaze: view.bakaze,
        jikaze: Tile::from_id_unchecked(27 + offset),
        riichi: view.me.riichi,
        double_riichi: false,
        ippatsu: false,
        haitei: false,
        houtei: false,
        rinshan: false,
        chankan: false,
        tenhou: false,
        chiihou: false,
        nuki_count: 0,
        pei_is_yakuhai: false,
    }
}

/// Certain and possible yaku of the own hand in tenpai, none otherwise.
pub fn my_yaku_outlook(view: &SeatView) -> (r: (Vec<Yaku>, Vec<Yaku>))
    requires
        countable(view.me.hand@),
        view_shanten(view@) == TENPAI ==> view.me.seat <= 251 && view.oya <= view.me.seat + 4 && wins_can_evaluate(
            outlook_facts(view@),
            view@.is_sanma(),
        ),
    ensures
        view_shanten(view@) != TENPAI ==> r.0@.len() == 0 && r.1@.len() == 0,
        view_shanten(view@) == TENPAI ==> r.0@ == in_every_branch(yaku_branches(outlook_facts(view@), view@.is_sanma()))
            && r.1@ == in_some_branch(yaku_branches(outlook_facts(view@), view@.is_sanma())),
{
    if !my_tenpai(view) {
        return (Vec::new(), Vec::new());
    }
    let ctx = outlook_context(view);
    let sanma = view.others.len() == 2;
    (certain_yaku_for(&ctx, sanma), possible_yaku_for(&ctx, sanma))
}

// Safe tiles.

/// Safety level.
#[derive(Debug, Clone, Copy, PartialEq, Eq, Structural)]
pub enum SafeLevel {
    /// Genbutsu against every target, or all four copies visible.
    Absolute,
    /// Genbutsu against some targets, kabe or suji: not guaranteed.
    Inferred,
}

/// Reason a tile is safe.
#[derive(Debug, Clone, Copy, PartialEq, Eq, Structural)]
pub enum SafeReason {
    Genbutsu,
    DeadWall,
    Kabe,
    DoubleSuji,
    Suji,
}

impl SafeLevel {
    pub open spec fn spec_wire_value(self) -> Seq<char> {
        match self {
            SafeLevel::Absolute => "absolute"@,
            SafeLevel::Inferred => "inferred"@,
        }
    }

    pub fn wire_value(self) -> (r: &'static str)
        ensures
            r@ == self.spec_wire_value(),
    {
        match self {
            SafeLevel::Absolute => "absolute",
            SafeLevel::Inferred => "inferred",
        }
    }
}

impl SafeReason {
    pub open spec fn spec_wire_value(self) -> Seq<char> {
        match self {
            SafeReason::Genbutsu => "genbutsu"@,
            SafeReason::DeadWall => "dead_wall"@,
            SafeReason::Kabe => "kabe"@,
            SafeReason::DoubleSuji => "double_suji"@,
            SafeReason::Suji => "suji"@,
        }
    }

    pub fn wire_value(self) -> (r: &'static str)
        ensures
            r@ == self.spec_wire_value(),
    {
        match self {
            SafeReason::Genbutsu => "genbutsu",
            SafeReason::DeadWall => "dead_wall",
            SafeReason::Kabe => "kabe",
            SafeReason::DoubleSuji => "double_suji",
            SafeReason::Suji => "suji",
        }
    }
}

/// Safety of one tile against the given targets, by its strongest reason.
#[derive(Debug, Clone, Copy, PartialEq, Eq, Structural)]
pub struct SafeTile {
    /// Tile kind `0..34`.
    pub tile: usize,
    pub level: SafeLevel,
    pub reason: SafeReason,
    /// Number of targets covered.
    pub coverage: u8,
}

/// The seats of opponents in riichi, in order.
pub open spec fn riichi_seats(others: Seq<OpponentFacts>) -> Seq<u8>
    decreases others.len(),
{
    if others.len() == 0 {
        Seq::empty()
    } else if others.last().riichi {
        riichi_seats(others.drop_last()).push(others.last().seat)
    } else {
        riichi_seats(others.drop_last())
    }
}

/// Seats of opponents in riichi.
pub fn riichi_targets(view: &SeatView) -> (r: Vec<u8>)
    ensures
        r@ == riichi_seats(view@.others),
{
    let mut r: Vec<u8> = Vec::new();
    let mut i: usize = 0;
    assert(view@.others.subrange(0, 0) =~= Seq::empty());
    while i < view.others.len()
        invariant
            i <= view.others.len(),
            r@ == riichi_seats(view@.others.subrange(0, i as int)),
        decreases view.others.len() - i,
    {
        assert(view@.others.subrange(0, i + 1).drop_last() =~= view@.others.subrange(0, i as int));
        assert(view@.others[i as int] == view.others@[i as int]@);
        if view.others[i].riichi {
            r.push(view.others[i].seat);
        }
        i = i + 1;
    }
    assert(view@.others.subrange(0, i as int) =~= view@.others);
    r
}

/// Number of targets that have discarded a kind.
pub open spec fn hits(targets: Seq<[bool; 34]>, k: int) -> nat
    decreases targets.len(),
{
    if targets.len() == 0 { 0 } else { hits(targets.drop_last(), k) + if targets.last()@[k] { 1nat } else { 0 } }
}

/// The neighbours of a number tile three ranks away that a target has discarded.
pub open spec fn suji_of(k: int, set: Seq<bool>) -> int {
    if k >= 27 {
        0
    } else {
        (if k % 9 >= 3 && set[k - 3] { 1int } else { 0 }) + (if k % 9 <= 5 && set[k + 3] { 1int } else { 0 })
    }
}

/// Number of targets with a number of suji neighbours.
pub open spec fn suji_hits(targets: Seq<[bool; 34]>, k: int, n: int) -> nat
    decreases targets.len(),
{
    if targets.len() == 0 {
        0
    } else {
        suji_hits(targets.drop_last(), k, n) + if suji_of(k, targets.last()@) == n { 1nat } else { 0 }
    }
}

/// No sequence below or above a number tile can be completed by it: one of the two ranks below
/// and one of the two above are all visible, where there are any.
pub open spec fn is_kabe(k: int, visible: Seq<u8>) -> bool {
    let r = k % 9;
    &&& k < 27
    &&& r == 0 || visible[k - 1] >= 4 || (r >= 2 && visible[k - 2] >= 4)
    &&& r == 8 || visible[k + 1] >= 4 || (r <= 6 && visible[k + 2] >= 4)
}

/// The strongest reason for which a tile is safe.
pub open spec fn safety_of(k: int, visible: Seq<u8>, targets: Seq<[bool; 34]>) -> Option<SafeTile> {
    let total = targets.len() as u8;
    let found = |level: SafeLevel, reason: SafeReason, coverage: u8| Some(
        SafeTile { tile: k as usize, level, reason, coverage },
    );
    if hits(targets, k) == targets.len() {
        found(SafeLevel::Absolute, SafeReason::Genbutsu, total)
    } else if visible[k] >= 4 {
        found(SafeLevel::Absolute, SafeReason::DeadWall, total)
    } else if hits(targets, k) > 0 {
        found(SafeLevel::Inferred, SafeReason::Genbutsu, hits(targets, k) as u8)
    } else if is_kabe(k, visible) {
        found(SafeLevel::Inferred, SafeReason::Kabe, total)
    } else if suji_hits(targets, k, 2) > 0 {
        found(SafeLevel::Inferred, SafeReason::DoubleSuji, suji_hits(targets, k, 2) as u8)
    } else if suji_hits(targets, k, 1) > 0 {
        found(SafeLevel::Inferred, SafeReason::Suji, suji_hits(targets, k, 1) as u8)
    } else {
        None
    }
}

/// The safe tiles among candidates, in order.
pub open spec fn safe_tiles(candidates: Seq<usize>, visible: Seq<u8>, targets: Seq<[bool; 34]>) -> Seq<SafeTile>
    decreases candidates.len(),
{
    if candidates.len() == 0 || targets.len() == 0 {
        Seq::empty()
    } else {
        let rest = safe_tiles(candidates.drop_last(), visible, targets);
        let k = candidates.last();
        if k < 34 && safety_of(k as int, visible, targets) is Some {
            rest.push(safety_of(k as int, visible, targets)->0)
        } else {
            rest
        }
    }
}

fn count_hits(targets: &[[bool; 34]], k: usize) -> (n: usize)
    requires
        k < 34,
    ensures
        n == hits(targets@, k as int),
        n <= targets@.len(),
{
    let mut n: usize = 0;
    let mut i: usize = 0;
    while i < targets.len()
        invariant
            i <= targets.len(),
            k < 34,
            n <= i,
            n == hits(targets@.subrange(0, i as int), k as int),
        decreases targets.len() - i,
    {
        assert(targets@.subrange(0, i + 1).drop_last() =~= targets@.subrange(0, i as int));
        if targets[i][k] {
            n = n + 1;
        }
        i = i + 1;
    }
    assert(targets@.subrange(0, i as int) =~= targets@);
    n
}

fn suji_matches(k: usize, set: &[bool; 34]) -> (n: usize)
    requires
        k < 34,
    ensures
        n == suji_of(k as int, set@),
{
    if k >= 27 {
        return 0;
    }
    let low: usize = if k % 9 >= 3 && set[k - 3] { 1 } else { 0 };
    let high: usize = if k % 9 <= 5 && set[k + 3] { 1 } else { 0 };
    low + high
}

fn count_suji_hits(targets: &[[bool; 34]], k: usize, m: usize) -> (n: usize)
    requires
        k < 34,
    ensures
        n == suji_hits(targets@, k as int, m as int),
        n <= targets@.len(),
{
    let mut n: usize = 0;
    let mut i: usize = 0;
    while i < targets.len()
        invariant
            i <= targets.len(),
            k < 34,
            n <= i,
            n == suji_hits(targets@.subrange(0, i as int), k as int, m as int),
        decreases targets.len() - i,
    {
        assert(targets@.subrange(0, i + 1).drop_last() =~= targets@.subrange(0, i as int));
        if suji_matches(k, &targets[i]) == m {
            n = n + 1;
        }
        i = i + 1;
    }
    assert(targets@.subrange(0, i as int) =~= targets@);
    n
}

fn kabe_safe(k: usize, visible: &[u8; 34]) -> (b: bool)
    requires
        k < 34,
    ensures
        b == is_kabe(k as int, visible@),
{
    if k >= 27 {
        return false;
    }
    let r: usize = k % 9;
    let low = r == 0 || visible[k - 1] >= 4 || (r >= 2 && visible[k - 2] >= 4);
    let high = r == 8 || visible[k + 1] >= 4 || (r <= 6 && visible[k + 2] >= 4);
    low && high
}

fn classify_safe_tile(k: usize, visible: &[u8; 34], targets: &[[bool; 34]]) -> (r: Option<SafeTile>)
    requires
        k < 34,
        targets@.len() <= 255,
    ensures
        r == safety_of(k as int, visible@, targets@),
{
    let total: u8 = targets.len() as u8;
    let genbutsu: usize = count_hits(targets, k);
    if genbutsu == targets.len() {
        return Some(SafeTile { tile: k, level: SafeLevel::Absolute, reason: SafeReason::Genbutsu, coverage: total });
    }
    if visible[k] >= 4 {
        return Some(SafeTile { tile: k, level: SafeLevel::Absolute, reason: SafeReason::DeadWall, coverage: total });
    }
    if genbutsu > 0 {
        return Some(
            SafeTile { tile: k, level: SafeLevel::Inferred, reason: SafeReason::Genbutsu, coverage: genbutsu as u8 },
        );
    }
    if kabe_safe(k, visible) {
        return Some(SafeTile { tile: k, level: SafeLevel::Inferred, reason: SafeReason::Kabe, coverage: total });
    }
    let double: usize = count_suji_hits(targets, k, 2);
    let single: usize = count_suji_hits(targets, k, 1);
    if double > 0 {
        return Some(
            SafeTile { tile: k, level: SafeLevel::Inferred, reason: SafeReason::DoubleSuji, coverage: double as u8 },
        );
    }
    if single > 0 {
        return Some(
            SafeTile { tile: k, level: SafeLevel::Inferred, reason: SafeReason::Suji, coverage: single as u8 },
        );
    }
    None
}

/// Evaluates candidates from visible counts and one set of discarded kinds for each target.
pub fn evaluate_safe_tiles_raw(
    visible: &[u8; 34],
    target_discards: &[[bool; 34]],
    candidates: &[usize],
) -> (r: Vec<SafeTile>)
    requires
        target_discards@.len() <= 255,
    ensures
        r@ == safe_tiles(candidates@, visible@, target_discards@),
{
    let mut r: Vec<SafeTile> = Vec::new();
    if target_discards.len() == 0 {
        assert(r@ =~= safe_tiles(candidates@, visible@, target_discards@));
        return r;
    }
    let mut i: usize = 0;
    assert(candidates@.subrange(0, 0) =~= Seq::empty());
    while i < candidates.len()
        invariant
            i <= candidates.len(),
            0 < target_discards@.len() <= 255,
            r@ == safe_tiles(candidates@.subrange(0, i as int), visible@, target_discards@),
        decreases candidates.len() - i,
    {
        assert(candidates@.subrange(0, i + 1).drop_last() =~= candidates@.subrange(0, i as int));
        let k: usize = candidates[i];
        if k < 34 {
            match classify_safe_tile(k, visible, target_discards) {
                Some(s) => r.push(s),
                None => {},
            }
        }
        i = i + 1;
    }
    assert(candidates@.subrange(0, i as int) =~= candidates@);
    r
}

/// Counts with one more of a kind, up to 255.
pub open spec fn seen_once(c: Seq<u8>, t: Tile) -> Seq<u8> {
    if t.is_known() && c[t.kind() as int] < 255 { c.update(t.kind() as int, (c[t.kind() as int] + 1) as u8) } else { c }
}

pub open spec fn seen_all(c: Seq<u8>, tiles: Seq<Tile>) -> Seq<u8>
    decreases tiles.len(),
{
    if tiles.len() == 0 { c } else { seen_once(seen_all(c, tiles.drop_last()), tiles.last()) }
}

pub open spec fn seen_melds(c: Seq<u8>, melds: Seq<Meld>) -> Seq<u8>
    decreases melds.len(),
{
    if melds.len() == 0 { c } else { seen_all(seen_melds(c, melds.drop_last()), melds.last().spec_tiles()) }
}

pub open spec fn seen_others(c: Seq<u8>, others: Seq<OpponentFacts>) -> Seq<u8>
    decreases others.len(),
{
    if others.len() == 0 {
        c
    } else {
        seen_melds(seen_all(seen_others(c, others.drop_last()), others.last().discards), others.last().melds)
    }
}

/// Visible copies of each kind: own hand, all discards, all melds and dora indicators.
pub open spec fn visible_of(v: TableFacts) -> Seq<u8> {
    let own = seen_all(seen_all(Seq::new(34, |i: int| 0u8), v.me.hand), v.me.discards);
    seen_all(seen_others(seen_melds(own, v.me.melds), v.others), v.dora_indicators)
}

fn see_tiles(c: &mut TileCounts, tiles: &Vec<Tile>)
    ensures
        final(c)@ == seen_all(old(c)@, tiles@),
{
    let ghost c0 = c@;
    let mut i: usize = 0;
    assert(tiles@.subrange(0, 0) =~= Seq::empty());
    while i < tiles.len()
        invariant
            i <= tiles.len(),
            c@ == seen_all(c0, tiles@.subrange(0, i as int)),
        decreases tiles.len() - i,
    {
        assert(tiles@.subrange(0, i + 1).drop_last() =~= tiles@.subrange(0, i as int));
        let k: usize = tiles[i].kind();
        if k < 34 && c.0[k] < 255 {
            c.0[k] = c.0[k] + 1;
        }
        assert(c@ =~= seen_all(c0, tiles@.subrange(0, i + 1)));
        i = i + 1;
    }
    assert(tiles@.subrange(0, i as int) =~= tiles@);
}

fn see_melds(c: &mut TileCounts, melds: &Vec<Meld>)
    ensures
        final(c)@ == seen_melds(old(c)@, melds@),
{
    let ghost c0 = c@;
    let mut i: usize = 0;
    assert(melds@.subrange(0, 0) =~= Seq::empty());
    while i < melds.len()
        invariant
            i <= melds.len(),
            c@ == seen_melds(c0, melds@.subrange(0, i as int)),
        decreases melds.len() - i,
    {
        assert(melds@.subrange(0, i + 1).drop_last() =~= melds@.subrange(0, i as int));
        see_tiles(c, &melds[i].tiles());
        i = i + 1;
    }
    assert(melds@.subrange(0, i as int) =~= melds@);
}

fn visible_counts(view: &SeatView) -> (c: TileCounts)
    ensures
        c@ == visible_of(view@),
{
    let mut c = TileCounts::new();
    see_tiles(&mut c, &view.me.hand);
    see_tiles(&mut c, &view.me.discards);
    see_melds(&mut c, &view.me.melds);
    let ghost c0 = c@;
    let mut i: usize = 0;
    assert(view@.others.subrange(0, 0) =~= Seq::empty());
    while i < view.others.len()
        invariant
            i <= view.others.len(),
            c@ == seen_others(c0, view@.others.subrange(0, i as int)),
        decreases view.others.len() - i,
    {
        assert(view@.others.subrange(0, i + 1).drop_last() =~= view@.others.subrange(0, i as int));
        assert(view@.others[i as int] == view.others@[i as int]@);
        see_tiles(&mut c, &view.others[i].discards);
        see_melds(&mut c, &view.others[i].melds);
        i = i + 1;
    }
    assert(view@.others.subrange(0, i as int) =~= view@.others);
    see_tiles(&mut c, &view.dora_indicators);
    c
}

/// A set of kinds is that of the known tiles in a list.
pub open spec fn marks(set: [bool; 34], discards: Seq<Tile>) -> bool {
    forall|k: int| 0 <= k < 34 ==> (#[trigger] set@[k] <==> discarded(discards, k))
}

fn mark_discards(discards: &Vec<Tile>) -> (set: [bool; 34])
    ensures
        marks(set, discards@),
{
    let mut set = [false; 34];
    let mut i: usize = 0;
    while i < discards.len()
        invariant
            i <= discards.len(),
            forall|k: int|
                0 <= k < 34 ==> (#[trigger] set@[k] <==> exists|j: int|
                    0 <= j < i && (#[trigger] discards@[j]).kind() == k),
        decreases discards.len() - i,
    {
        let kind: usize = discards[i].kind();
        let ghost before = set@;
        if kind < 34 {
            set[kind] = true;
        }
        assert forall|k: int| 0 <= k < 34 implies (#[trigger] set@[k] <==> exists|j: int|
            0 <= j < i + 1 && (#[trigger] discards@[j]).kind() == k) by {
            if k == kind {
                assert(discards@[i as int].kind() == k);
            } else {
                assert(set@[k] == before[k]);
            }
        }
        i = i + 1;
    }
    set
}

/// One set of discarded kinds for each target.
pub open spec fn target_marks(v: TableFacts, targets: Seq<u8>, sets: Seq<[bool; 34]>) -> bool {
    sets.len() == targets.len() && forall|i: int|
        0 <= i < targets.len() ==> marks(#[trigger] sets[i], discards_of(v, targets[i]))
}

/// Evaluates the safety of kinds against targets by the strongest reason: genbutsu against
/// all or four visible, then genbutsu against some, kabe, double suji, suji. Tiles without a
/// reason are left out.
pub fn evaluate_safe_tiles(view: &SeatView, targets: &[u8], candidates: &[usize]) -> (r: Vec<SafeTile>)
    requires
        targets@.len() <= 255,
    ensures
        exists|sets: Seq<[bool; 34]>| #[trigger]
            target_marks(view@, targets@, sets) && r@ == safe_tiles(candidates@, visible_of(view@), sets),
{
    let visible = visible_counts(view);
    let mut sets: Vec<[bool; 34]> = Vec::new();
    let mut i: usize = 0;
    while i < targets.len()
        invariant
            i <= targets.len() <= 255,
            sets.len() == i,
            forall|j: int| 0 <= j < i ==> marks(#[trigger] sets@[j], discards_of(view@, targets@[j])),
        decreases targets.len() - i,
    {
        let set = match find_opponent(&view.others, targets[i]) {
            Some(o) => mark_discards(&view.others[o].discards),
            None => {
                let none: Vec<Tile> = Vec::new();
                assert(none@ =~= discards_of(view@, targets@[i as int]));
                mark_discards(&none)
            },
        };
        sets.push(set);
        i = i + 1;
    }
    let r = evaluate_safe_tiles_raw(&visible.0, sets.as_slice(), candidates);
    assert(target_marks(view@, targets@, sets@));
    r
}

/// The sets of discarded kinds are determined by the view and the targets.
pub proof fn target_marks_are_unique(v: TableFacts, targets: Seq<u8>, a: Seq<[bool; 34]>, b: Seq<[bool; 34]>)
    requires
        target_marks(v, targets, a),
        target_marks(v, targets, b),
    ensures
        a == b,
{
    assert forall|j: int| 0 <= j < a.len() implies a[j] == b[j] by {
        assert(marks(a[j], discards_of(v, targets[j])));
        assert(marks(b[j], discards_of(v, targets[j])));
        assert forall|k: int| 0 <= k < 34 implies a[j]@[k] == b[j]@[k] by {}
        assert(a[j]@ =~= b[j]@);
        assert(a[j] =~= b[j]);
    }
    assert(a =~= b);
}

/// A tile called absolutely safe is genbutsu against every target, or has all copies visible.
pub proof fn absolute_is_certain(k: int, visible: Seq<u8>, targets: Seq<[bool; 34]>)
    requires
        0 <= k < 34,
        safety_of(k, visible, targets) is Some,
        safety_of(k, visible, targets)->0.level == SafeLevel::Absolute,
    ensures
        visible[k] >= 4 || forall|i: int| 0 <= i < targets.len() ==> (#[trigger] targets[i])@[k],
{
    if visible[k] < 4 {
        lemma_full_hits(targets, k);
    }
}

proof fn lemma_full_hits(targets: Seq<[bool; 34]>, k: int)
    ensures
        hits(targets, k) <= targets.len(),
        hits(targets, k) == targets.len() ==> forall|i: int| 0 <= i < targets.len() ==> (#[trigger] targets[i])@[k],
    decreases targets.len(),
{
    if targets.len() > 0 {
        lemma_full_hits(targets.drop_last(), k);
        if hits(targets, k) == targets.len() {
            assert forall|i: int| 0 <= i < targets.len() implies (#[trigger] targets[i])@[k] by {
                if i < targets.len() - 1 {
                    assert(targets.drop_last()[i]@[k]);
                }
            }
        }
    }
}

} // verus!
