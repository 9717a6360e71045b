//! Which violations a match log has: each exactly where something is out of order.

use vstd::prelude::*;
use vstd::string::*;
use crate::event::matchlog::event::{HoraBody, MatchlogEvent, RyukyokuBody, RyukyokuKind};
use crate::event::matchlog::types::{fingerprint_of, MatchlogMeld, MeldKind, TileRef};
use crate::event::matchlog::validate::{
    body_faults, dora_faults, event_faults, fault_if, haipai_faults, hands_faults, header_faults, hora_faults,
    hora_places, id_faults, last_place, log_faults, meld_faults, melds_faults, overlap_fault, overlap_faults,
    places_of, places_of_melds, refs_faults, refs_of_meld, ryukyoku_faults, seats_faults, seats_of, stream_faults,
    sum_faults, sum_of, width_faults, Fault, Place,
};
use crate::mahjong::yaku_laws::{lemma_tally, places, tally};

verus! {

/// How many violations of a list have a code.
pub open spec fn number(f: Seq<Fault>, code: Seq<char>) -> nat {
    places(f.len(), |j: int| f[j].code == code).len()
}

/// One where a condition holds, else none.
pub open spec fn one(c: bool) -> nat {
    if c { 1 } else { 0 }
}

spec fn of_code(f: Seq<Fault>, code: Seq<char>) -> nat
    decreases f.len(),
{
    if f.len() == 0 { 0 } else { of_code(f.drop_last(), code) + one(f.last().code == code) }
}

proof fn lemma_number_part(f: Seq<Fault>, code: Seq<char>, n: int)
    requires
        0 <= n <= f.len(),
    ensures
        of_code(f.take(n), code) == tally(n, |j: int| f[j].code == code),
    decreases n,
{
    if n > 0 {
        lemma_number_part(f, code, n - 1);
        assert(f.take(n).drop_last() =~= f.take(n - 1));
    }
}

proof fn lemma_number(f: Seq<Fault>, code: Seq<char>)
    ensures
        number(f, code) == of_code(f, code),
{
    lemma_number_part(f, code, f.len() as int);
    assert(f.take(f.len() as int) =~= f);
    lemma_tally(f.len() as int, |j: int| f[j].code == code);
}

proof fn lemma_sum(a: Seq<Fault>, b: Seq<Fault>, code: Seq<char>)
    ensures
        of_code(a + b, code) == of_code(a, code) + of_code(b, code),
    decreases b.len(),
{
    if b.len() == 0 {
        assert(a + b =~= a);
    } else {
        lemma_sum(a, b.drop_last(), code);
        assert((a + b).drop_last() =~= a + b.drop_last());
        assert((a + b).last() == b.last());
    }
}

proof fn lemma_if(c: bool, seq: usize, k: Seq<char>, detail: Seq<char>, code: Seq<char>)
    ensures
        of_code(fault_if(c, seq, k, detail), code) == one(c && k == code),
{
    if c {
        let f = fault_if(c, seq, k, detail);
        assert(f.drop_last() =~= Seq::empty());
        assert(of_code(f.drop_last(), code) == 0);
    }
}

// Numbers and tables.

/// The sum of a list.
pub open spec fn total(v: Seq<i32>) -> int {
    v.fold_left(0int, |s: int, x: i32| s + x)
}

proof fn lemma_total(v: Seq<i32>)
    ensures
        sum_of(v) == total(v),
    decreases v.len(),
{
    if v.len() > 0 {
        lemma_total(v.drop_last());
    }
}

proof fn lemma_ids(seq: usize, v: Seq<(u8, u8)>, code: Seq<char>)
    ensures
        of_code(id_faults(seq, v), code) == if code == "yaku_id_out_of_range"@ {
            tally(v.len() as int, |i: int| v[i].0 > 54)
        } else {
            0
        },
        of_code(dora_faults(seq, v), code) == if code == "dora_in_yaku_table"@ {
            tally(v.len() as int, |i: int| 52 <= v[i].0 <= 54)
        } else {
            0
        },
    decreases v.len(),
{
    if v.len() > 0 {
        let r = v.drop_last();
        let x = v.last().0;
        lemma_ids(seq, r, code);
        let d = "yaku id "@ + crate::text::dec(x as nat) + " > 54"@;
        let e = "dora yaku id "@ + crate::text::dec(x as nat) + " belongs in dora_han and related fields"@;
        lemma_if(x > 54, seq, "yaku_id_out_of_range"@, d, code);
        lemma_if(52 <= x <= 54, seq, "dora_in_yaku_table"@, e, code);
        lemma_sum(id_faults(seq, r), fault_if(x > 54, seq, "yaku_id_out_of_range"@, d), code);
        lemma_sum(dora_faults(seq, r), fault_if(52 <= x <= 54, seq, "dora_in_yaku_table"@, e), code);
        lemma_same_tally(r.len() as int, |i: int| r[i].0 > 54, |i: int| v[i].0 > 54);
        lemma_same_tally(r.len() as int, |i: int| 52 <= r[i].0 <= 54, |i: int| 52 <= v[i].0 <= 54);
    }
}

proof fn lemma_same_tally(n: int, p: spec_fn(int) -> bool, q: spec_fn(int) -> bool)
    requires
        forall|i: int| 0 <= i < n ==> #[trigger] p(i) == q(i),
    ensures
        tally(n, p) == tally(n, q),
    decreases n,
{
    if n > 0 {
        lemma_same_tally(n - 1, p, q);
        assert(p(n - 1) == q(n - 1));
    }
}

// Tiles.

/// A physical ID names one of four copies of its kind; the first copy of a five is the red one.
pub open spec fn is_own_copy(r: TileRef) -> bool {
    r.physical_id is Some ==> {
        let id = r.physical_id->0 as int;
        &&& 4 * r.tile.kind() <= id < 4 * r.tile.kind() + 4 && id < 136
        &&& r.tile.is_aka() <==> id == 4 * 4 || id == 4 * 13 || id == 4 * 22
    }
}

proof fn lemma_own_copy(r: TileRef)
    ensures
        r.is_consistent() == is_own_copy(r),
{
}

proof fn lemma_refs(seq: usize, name: Seq<char>, refs: Seq<TileRef>, code: Seq<char>)
    ensures
        of_code(refs_faults(seq, name, refs), code) == if code == "tile_id_inconsistent"@ {
            tally(refs.len() as int, |i: int| !is_own_copy(refs[i]))
        } else {
            0
        },
    decreases refs.len(),
{
    if refs.len() > 0 {
        let r = refs.drop_last();
        let x = refs.last();
        lemma_refs(seq, name, r, code);
        lemma_own_copy(x);
        let d = name + ": physical_id "@ + crate::event::matchlog::validate::option_text(x.physical_id)
            + " is inconsistent with tile "@ + x.tile.spec_name();
        lemma_if(!x.is_consistent(), seq, "tile_id_inconsistent"@, d, code);
        lemma_sum(
            refs_faults(seq, name, r),
            fault_if(!x.is_consistent(), seq, "tile_id_inconsistent"@, d),
            code,
        );
        lemma_same_tally(r.len() as int, |i: int| !is_own_copy(r[i]), |i: int| !is_own_copy(refs[i]));
    }
}

/// The tiles of a meld: those from hand, then the claimed one.
pub open spec fn tiles_of(m: MatchlogMeld) -> Seq<TileRef> {
    m.consumed@ + match m.claimed {
        Some(t) => seq![t],
        None => Seq::empty(),
    }
}

/// The tiles of a list and of melds after it.
pub open spec fn with_melds(s: Seq<TileRef>, melds: Seq<MatchlogMeld>) -> Seq<TileRef> {
    melds.fold_left(s, |s: Seq<TileRef>, m: MatchlogMeld| s + tiles_of(m))
}

/// A meld has the fields and the number of tiles of its kind: two from hand and the claimed one, with
/// its source, for a chi or a pon, three for an open or an added kan; four from hand alone for a
/// closed one; a lone North set aside. Chis are for tables of four, Norths for tables of three.
pub open spec fn is_well_formed(m: MatchlogMeld, seats: usize) -> bool {
    let open = m.from is Some && m.claimed is Some;
    match m.kind {
        MeldKind::Chi => open && m.consumed@.len() == 2 && seats == 4,
        MeldKind::Pon => open && m.consumed@.len() == 2,
        MeldKind::Daiminkan | MeldKind::Kakan => open && m.consumed@.len() == 3,
        MeldKind::Ankan => m.from is None && tiles_of(m).len() == 4 && m.claimed is None,
        MeldKind::Kita => m.from is None && tiles_of(m).len() == 1 && m.consumed@.len() == 0 && seats == 3,
    }
}

proof fn lemma_tiles_of(m: MatchlogMeld, seats: usize)
    ensures
        refs_of_meld(m) == tiles_of(m),
        m.spec_shape_is_valid(seats) == is_well_formed(m, seats),
{
    assert(refs_of_meld(m) =~= tiles_of(m));
}

proof fn lemma_tally_sum(a: Seq<TileRef>, b: Seq<TileRef>)
    ensures
        tally((a + b).len() as int, |i: int| !is_own_copy((a + b)[i])) == tally(a.len() as int, |i: int| !is_own_copy(a[i]))
            + tally(b.len() as int, |i: int| !is_own_copy(b[i])),
    decreases b.len(),
{
    let s = a + b;
    if b.len() == 0 {
        assert(s =~= a);
    } else {
        let c = b.drop_last();
        let t = a + c;
        lemma_tally_sum(a, c);
        assert(s.len() - 1 == t.len());
        lemma_same_tally(t.len() as int, |i: int| !is_own_copy(t[i]), |i: int| !is_own_copy(s[i]));
        lemma_same_tally(c.len() as int, |i: int| !is_own_copy(c[i]), |i: int| !is_own_copy(b[i]));
        assert(s[s.len() - 1] == b[b.len() - 1]);
    }
}

proof fn lemma_meld(seq: usize, name: Seq<char>, m: MatchlogMeld, seats: usize, code: Seq<char>)
    ensures
        "meld_shape_invalid"@ != "tile_id_inconsistent"@,
        of_code(meld_faults(seq, name, m, seats), code) == if code == "meld_shape_invalid"@ {
            one(!is_well_formed(m, seats))
        } else if code == "tile_id_inconsistent"@ {
            tally(tiles_of(m).len() as int, |i: int| !is_own_copy(tiles_of(m)[i]))
        } else {
            0
        },
{
    lemma_codes();
    lemma_tiles_of(m, seats);
    let d = m.kind.spec_name() + " violates the meld shape invariant"@;
    lemma_if(!m.spec_shape_is_valid(seats), seq, "meld_shape_invalid"@, d, code);
    lemma_refs(seq, name, refs_of_meld(m), code);
    lemma_sum(
        fault_if(!m.spec_shape_is_valid(seats), seq, "meld_shape_invalid"@, d),
        refs_faults(seq, name, refs_of_meld(m)),
        code,
    );
}

proof fn lemma_melds(seq: usize, name: Seq<char>, melds: Seq<MatchlogMeld>, seats: usize, s: Seq<TileRef>, code: Seq<char>)
    ensures
        of_code(melds_faults(seq, name, melds, seats), "meld_shape_invalid"@) == tally(
            melds.len() as int,
            |i: int| !is_well_formed(melds[i], seats),
        ),
        tally(s.len() as int, |i: int| !is_own_copy(s[i])) + of_code(
            melds_faults(seq, name, melds, seats),
            "tile_id_inconsistent"@,
        ) == tally(with_melds(s, melds).len() as int, |i: int| !is_own_copy(with_melds(s, melds)[i])),
        code != "meld_shape_invalid"@ && code != "tile_id_inconsistent"@ ==> of_code(
            melds_faults(seq, name, melds, seats),
            code,
        ) == 0,
    decreases melds.len(),
{
    if melds.len() > 0 {
        let r = melds.drop_last();
        let m = melds.last();
        lemma_melds(seq, name, r, seats, s, code);
        lemma_meld(seq, name, m, seats, code);
        lemma_meld(seq, name, m, seats, "meld_shape_invalid"@);
        lemma_meld(seq, name, m, seats, "tile_id_inconsistent"@);
        let a = melds_faults(seq, name, r, seats);
        let b = meld_faults(seq, name, m, seats);
        lemma_sum(a, b, code);
        lemma_sum(a, b, "meld_shape_invalid"@);
        lemma_sum(a, b, "tile_id_inconsistent"@);
        lemma_tally_sum(with_melds(s, r), tiles_of(m));
        assert(with_melds(s, melds) == with_melds(s, r) + tiles_of(m));
        lemma_same_tally(r.len() as int, |i: int| !is_well_formed(r[i], seats), |i: int| !is_well_formed(melds[i], seats));
    }
}

// Tiles that occur twice.

/// The physical tile at a place stands at an earlier one too.
pub open spec fn is_repeated(refs: Seq<TileRef>, j: int) -> bool {
    refs[j].physical_id is Some && exists|i: int| 0 <= i < j && (#[trigger] refs[i]).physical_id == refs[j].physical_id
}

spec fn ids_of(refs: Seq<TileRef>) -> Seq<u8>
    decreases refs.len(),
{
    if refs.len() == 0 {
        Seq::empty()
    } else {
        match refs.last().physical_id {
            Some(id) => ids_of(refs.drop_last()).push(id),
            None => ids_of(refs.drop_last()),
        }
    }
}

spec fn ids_at(s: Seq<Place>) -> Seq<u8> {
    s.map_values(|p: Place| p.id)
}

spec fn repeats(ids: Seq<u8>) -> nat
    decreases ids.len(),
{
    if ids.len() == 0 { 0 } else { repeats(ids.drop_last()) + one(ids.drop_last().contains(ids.last())) }
}

proof fn lemma_ids_of_sum(a: Seq<TileRef>, b: Seq<TileRef>)
    ensures
        ids_of(a + b) == ids_of(a) + ids_of(b),
    decreases b.len(),
{
    if b.len() == 0 {
        assert(a + b =~= a);
        assert(ids_of(a) + ids_of(b) =~= ids_of(a));
    } else {
        lemma_ids_of_sum(a, b.drop_last());
        assert((a + b).drop_last() =~= a + b.drop_last());
        assert((a + b).last() == b.last());
        assert(ids_of(a + b) =~= ids_of(a) + ids_of(b));
    }
}

proof fn lemma_places_of(refs: Seq<TileRef>, name: Seq<char>)
    ensures
        ids_at(places_of(refs, name)) == ids_of(refs),
    decreases refs.len(),
{
    if refs.len() > 0 {
        lemma_places_of(refs.drop_last(), name);
    }
    assert(ids_at(places_of(refs, name)) =~= ids_of(refs));
}

proof fn lemma_places_of_melds(s: Seq<TileRef>, melds: Seq<MatchlogMeld>)
    ensures
        ids_of(s) + ids_at(places_of_melds(melds)) == ids_of(with_melds(s, melds)),
    decreases melds.len(),
{
    if melds.len() == 0 {
        assert(ids_of(s) + ids_at(places_of_melds(melds)) =~= ids_of(s));
    } else {
        let r = melds.drop_last();
        let m = melds.last();
        lemma_places_of_melds(s, r);
        lemma_tiles_of(m, 0);
        lemma_places_of(tiles_of(m), "melds"@);
        lemma_ids_of_sum(with_melds(s, r), tiles_of(m));
        assert(with_melds(s, melds) == with_melds(s, r) + tiles_of(m));
        assert(ids_at(places_of_melds(melds)) =~= ids_at(places_of_melds(r)) + ids_of(tiles_of(m)));
        assert(ids_of(s) + ids_at(places_of_melds(melds)) =~= ids_of(with_melds(s, r)) + ids_of(tiles_of(m)));
    }
}

proof fn lemma_last_place(s: Seq<Place>, id: u8)
    ensures
        last_place(s, id) is Some <==> ids_at(s).contains(id),
    decreases s.len(),
{
    if s.len() > 0 {
        let r = s.drop_last();
        lemma_last_place(r, id);
        assert(ids_at(s) =~= ids_at(r).push(s.last().id));
        if ids_at(r).contains(id) {
            let i = choose|i: int| 0 <= i < ids_at(r).len() && ids_at(r)[i] == id;
            assert(ids_at(s)[i] == id);
        }
        if s.last().id == id {
            assert(ids_at(s)[s.len() - 1] == id);
        }
        if ids_at(s).contains(id) {
            let i = choose|i: int| 0 <= i < ids_at(s).len() && ids_at(s)[i] == id;
            if i < r.len() {
                assert(ids_at(r)[i] == id);
            }
        }
    }
}

proof fn lemma_overlaps(seq: usize, s: Seq<Place>, code: Seq<char>)
    ensures
        of_code(overlap_faults(seq, s), code) == if code == "tile_sets_overlap"@ { repeats(ids_at(s)) } else { 0 },
    decreases s.len(),
{
    if s.len() > 0 {
        let r = s.drop_last();
        let p = s.last();
        lemma_overlaps(seq, r, code);
        lemma_last_place(r, p.id);
        let f = overlap_fault(seq, r, p);
        lemma_sum(overlap_faults(seq, r), f, code);
        assert(ids_at(s) =~= ids_at(r).push(p.id));
        assert(ids_at(s).drop_last() =~= ids_at(r));
        if f.len() > 0 {
            assert(f.drop_last() =~= Seq::empty());
            assert(of_code(f.drop_last(), code) == 0);
        }
    }
}

proof fn lemma_in_ids(refs: Seq<TileRef>, id: u8)
    ensures
        ids_of(refs).contains(id) <==> exists|i: int| 0 <= i < refs.len() && (#[trigger] refs[i]).physical_id == Some(id),
    decreases refs.len(),
{
    if refs.len() > 0 {
        let r = refs.drop_last();
        lemma_in_ids(r, id);
        let a = ids_of(r);
        let b = ids_of(refs);
        if a.contains(id) {
            let i = choose|i: int| 0 <= i < a.len() && a[i] == id;
            assert(b[i] == id);
            let k = choose|k: int| 0 <= k < r.len() && (#[trigger] r[k]).physical_id == Some(id);
            assert(refs[k].physical_id == Some(id));
        }
        if refs.last().physical_id == Some(id) {
            assert(b[b.len() - 1] == id);
            assert(refs[refs.len() - 1].physical_id == Some(id));
        }
        if exists|i: int| 0 <= i < refs.len() && (#[trigger] refs[i]).physical_id == Some(id) {
            let i = choose|i: int| 0 <= i < refs.len() && (#[trigger] refs[i]).physical_id == Some(id);
            if i < r.len() {
                assert(r[i].physical_id == Some(id));
            }
        }
        if b.contains(id) && refs.last().physical_id != Some(id) {
            let i = choose|i: int| 0 <= i < b.len() && b[i] == id;
            assert(a[i] == id);
        }
    }
}

proof fn lemma_repeats(refs: Seq<TileRef>)
    ensures
        repeats(ids_of(refs)) == tally(refs.len() as int, |j: int| is_repeated(refs, j)),
    decreases refs.len(),
{
    if refs.len() > 0 {
        let r = refs.drop_last();
        lemma_repeats(r);
        assert forall|j: int| 0 <= j < r.len() implies is_repeated(r, j) == is_repeated(refs, j) by {
            if is_repeated(r, j) {
                let i = choose|i: int| 0 <= i < j && (#[trigger] r[i]).physical_id == r[j].physical_id;
                assert(refs[i].physical_id == refs[j].physical_id);
            }
            if is_repeated(refs, j) {
                let i = choose|i: int| 0 <= i < j && (#[trigger] refs[i]).physical_id == refs[j].physical_id;
                assert(r[i].physical_id == r[j].physical_id);
            }
        }
        lemma_same_tally(r.len() as int, |j: int| is_repeated(r, j), |j: int| is_repeated(refs, j));
        let n = refs.len() - 1;
        if refs.last().physical_id is Some {
            let id = refs.last().physical_id->0;
            lemma_in_ids(r, id);
            assert(ids_of(refs).drop_last() =~= ids_of(r));
            if ids_of(r).contains(id) {
                let i = choose|i: int| 0 <= i < r.len() && (#[trigger] r[i]).physical_id == Some(id);
                assert(refs[i].physical_id == refs[n].physical_id);
                assert(is_repeated(refs, n));
            }
            if is_repeated(refs, n) {
                let i = choose|i: int| 0 <= i < n && (#[trigger] refs[i]).physical_id == refs[n].physical_id;
                assert(r[i].physical_id == Some(id));
            }
        }
    }
}

// Codes.

spec fn is_code(s: Seq<char>, len: int, first: char) -> bool {
    s.len() == len && s[0] == first
}

proof fn lemma_codes()
    ensures
        is_code("width_mismatch"@, 14, 'w'),
        is_code("not_zero_sum"@, 12, 'n'),
        is_code("tile_id_inconsistent"@, 20, 't'),
        is_code("meld_shape_invalid"@, 18, 'm'),
        is_code("yaku_id_out_of_range"@, 20, 'y'),
        is_code("dora_in_yaku_table"@, 18, 'd'),
        is_code("tile_sets_overlap"@, 17, 't'),
        is_code("kyotaku_negative"@, 16, 'k'),
        is_code("yaku_tables_overlap"@, 19, 'y'),
        is_code("seat_out_of_range"@, 17, 's'),
        is_code("ryukyoku_kind_impossible"@, 24, 'r'),
        is_code("haipai_size"@, 11, 'h'),
        is_code("duplicate_start_match"@, 21, 'd'),
        is_code("schema_mismatch"@, 15, 's'),
        is_code("seats_out_of_range"@, 18, 's'),
        is_code("fingerprint_mismatch"@, 20, 'f'),
{
    reveal_strlit("width_mismatch");
    reveal_strlit("not_zero_sum");
    reveal_strlit("tile_id_inconsistent");
    reveal_strlit("meld_shape_invalid");
    reveal_strlit("yaku_id_out_of_range");
    reveal_strlit("dora_in_yaku_table");
    reveal_strlit("tile_sets_overlap");
    reveal_strlit("kyotaku_negative");
    reveal_strlit("yaku_tables_overlap");
    reveal_strlit("seat_out_of_range");
    reveal_strlit("ryukyoku_kind_impossible");
    reveal_strlit("haipai_size");
    reveal_strlit("duplicate_start_match");
    reveal_strlit("schema_mismatch");
    reveal_strlit("seats_out_of_range");
    reveal_strlit("fingerprint_mismatch");
}

// Wins.

/// The tiles of a win: the winning tile, the concealed ones, the melds.
pub open spec fn winning_tiles(b: HoraBody) -> Seq<TileRef> {
    with_melds(seq![b.machi] + b.concealed@, b.melds@)
}

spec fn hora_count(b: HoraBody, seats: usize, code: Seq<char>) -> nat {
    if code == "width_mismatch"@ {
        one(b.base_deltas@.len() != seats) + one(b.honba_deltas@.len() != seats) + one(b.kyotaku_deltas@.len() != seats)
    } else if code == "not_zero_sum"@ {
        one(total(b.base_deltas@) != 0) + one(total(b.honba_deltas@) != 0)
    } else if code == "kyotaku_negative"@ {
        one(total(b.kyotaku_deltas@) < 0)
    } else if code == "yaku_tables_overlap"@ {
        one(b.yakuman@.len() > 0 && b.normal@.len() > 0)
    } else if code == "yaku_id_out_of_range"@ {
        tally(b.normal@.len() as int, |i: int| b.normal@[i].0 > 54) + tally(b.yakuman@.len() as int, |i: int| b.yakuman@[i].0 > 54)
    } else if code == "dora_in_yaku_table"@ {
        tally(b.normal@.len() as int, |i: int| 52 <= b.normal@[i].0 <= 54)
    } else if code == "meld_shape_invalid"@ {
        tally(b.melds@.len() as int, |i: int| !is_well_formed(b.melds@[i], seats))
    } else if code == "tile_id_inconsistent"@ {
        tally(winning_tiles(b).len() as int, |i: int| !is_own_copy(winning_tiles(b)[i])) + tally(
            b.ura_markers@.len() as int,
            |i: int| !is_own_copy(b.ura_markers@[i]),
        )
    } else if code == "tile_sets_overlap"@ {
        tally(winning_tiles(b).len() as int, |j: int| is_repeated(winning_tiles(b), j))
    } else if code == "seat_out_of_range"@ {
        one(b.winner >= seats || b.from >= seats) + one(b.pao is Some && b.pao->0 >= seats)
    } else {
        0
    }
}

proof fn lemma_width(seq: usize, name: Seq<char>, got: nat, seats: nat, code: Seq<char>)
    ensures
        of_code(width_faults(seq, name, got, seats), code) == one(got != seats && "width_mismatch"@ == code),
{
    lemma_if(
        got != seats,
        seq,
        "width_mismatch"@,
        name + " length "@ + crate::text::dec(got) + " != seats "@ + crate::text::dec(seats),
        code,
    );
}

proof fn lemma_zero(seq: usize, name: Seq<char>, v: Seq<i32>, code: Seq<char>)
    ensures
        of_code(sum_faults(seq, name, v), code) == one(total(v) != 0 && "not_zero_sum"@ == code),
{
    lemma_total(v);
    lemma_if(
        sum_of(v) != 0,
        seq,
        "not_zero_sum"@,
        name + " sums to "@ + crate::text::dec_int(sum_of(v)) + ", expected 0"@,
        code,
    );
}

spec fn hora_numbers(seq: usize, b: HoraBody, seats: usize) -> Seq<Fault> {
    width_faults(seq, "hora.base_deltas"@, b.base_deltas@.len(), seats as nat)
        + width_faults(seq, "hora.honba_deltas"@, b.honba_deltas@.len(), seats as nat)
        + width_faults(seq, "hora.kyotaku_deltas"@, b.kyotaku_deltas@.len(), seats as nat)
        + sum_faults(seq, "hora.base_deltas"@, b.base_deltas@)
        + sum_faults(seq, "hora.honba_deltas"@, b.honba_deltas@)
        + fault_if(
        sum_of(b.kyotaku_deltas@) < 0,
        seq,
        "kyotaku_negative"@,
        "riichi sticks only flow from the pool to the winner; the sum must not be negative"@,
    )
}

proof fn lemma_hora_numbers(seq: usize, b: HoraBody, seats: usize, code: Seq<char>)
    ensures
        of_code(hora_numbers(seq, b, seats), code) == one(b.base_deltas@.len() != seats && "width_mismatch"@ == code) + one(
            b.honba_deltas@.len() != seats && "width_mismatch"@ == code,
        ) + one(b.kyotaku_deltas@.len() != seats && "width_mismatch"@ == code) + one(
            total(b.base_deltas@) != 0 && "not_zero_sum"@ == code,
        ) + one(total(b.honba_deltas@) != 0 && "not_zero_sum"@ == code) + one(
            total(b.kyotaku_deltas@) < 0 && "kyotaku_negative"@ == code,
        ),
{
    let a = width_faults(seq, "hora.base_deltas"@, b.base_deltas@.len(), seats as nat);
    let c = width_faults(seq, "hora.honba_deltas"@, b.honba_deltas@.len(), seats as nat);
    let d = width_faults(seq, "hora.kyotaku_deltas"@, b.kyotaku_deltas@.len(), seats as nat);
    let e = sum_faults(seq, "hora.base_deltas"@, b.base_deltas@);
    let f = sum_faults(seq, "hora.honba_deltas"@, b.honba_deltas@);
    let t = "riichi sticks only flow from the pool to the winner; the sum must not be negative"@;
    let g = fault_if(sum_of(b.kyotaku_deltas@) < 0, seq, "kyotaku_negative"@, t);
    lemma_width(seq, "hora.base_deltas"@, b.base_deltas@.len(), seats as nat, code);
    lemma_width(seq, "hora.honba_deltas"@, b.honba_deltas@.len(), seats as nat, code);
    lemma_width(seq, "hora.kyotaku_deltas"@, b.kyotaku_deltas@.len(), seats as nat, code);
    lemma_zero(seq, "hora.base_deltas"@, b.base_deltas@, code);
    lemma_zero(seq, "hora.honba_deltas"@, b.honba_deltas@, code);
    lemma_total(b.kyotaku_deltas@);
    lemma_if(sum_of(b.kyotaku_deltas@) < 0, seq, "kyotaku_negative"@, t, code);
    lemma_sum(a, c, code);
    lemma_sum(a + c, d, code);
    lemma_sum(a + c + d, e, code);
    lemma_sum(a + c + d + e, f, code);
    lemma_sum(a + c + d + e + f, g, code);
}

spec fn hora_tables(seq: usize, b: HoraBody, seats: usize) -> Seq<Fault> {
    hora_numbers(seq, b, seats) + fault_if(
        b.yakuman@.len() > 0 && b.normal@.len() > 0,
        seq,
        "yaku_tables_overlap"@,
        "normal must be empty when yakuman is non-empty"@,
    ) + id_faults(seq, b.normal@) + id_faults(seq, b.yakuman@) + dora_faults(seq, b.normal@)
}

proof fn lemma_hora_tables(seq: usize, b: HoraBody, seats: usize, code: Seq<char>)
    ensures
        of_code(hora_tables(seq, b, seats), code) == of_code(hora_numbers(seq, b, seats), code) + one(
            b.yakuman@.len() > 0 && b.normal@.len() > 0 && "yaku_tables_overlap"@ == code,
        ) + of_code(id_faults(seq, b.normal@), code) + of_code(id_faults(seq, b.yakuman@), code) + of_code(
            dora_faults(seq, b.normal@),
            code,
        ),
{
    let a = hora_numbers(seq, b, seats);
    let c = b.yakuman@.len() > 0 && b.normal@.len() > 0;
    let t = "normal must be empty when yakuman is non-empty"@;
    let d = fault_if(c, seq, "yaku_tables_overlap"@, t);
    lemma_if(c, seq, "yaku_tables_overlap"@, t, code);
    lemma_sum(a, d, code);
    lemma_sum(a + d, id_faults(seq, b.normal@), code);
    lemma_sum(a + d + id_faults(seq, b.normal@), id_faults(seq, b.yakuman@), code);
    lemma_sum(a + d + id_faults(seq, b.normal@) + id_faults(seq, b.yakuman@), dora_faults(seq, b.normal@), code);
}

spec fn hora_tiles(seq: usize, b: HoraBody, seats: usize) -> Seq<Fault> {
    hora_tables(seq, b, seats) + melds_faults(seq, "hora.melds"@, b.melds@, seats) + refs_faults(
        seq,
        "hora.concealed"@,
        b.concealed@,
    ) + refs_faults(seq, "hora.machi"@, seq![b.machi]) + refs_faults(seq, "hora.ura_markers"@, b.ura_markers@)
        + overlap_faults(seq, hora_places(b))
}

proof fn lemma_hora_tiles(seq: usize, b: HoraBody, seats: usize, code: Seq<char>)
    ensures
        of_code(hora_tiles(seq, b, seats), code) == of_code(hora_tables(seq, b, seats), code) + of_code(
            melds_faults(seq, "hora.melds"@, b.melds@, seats),
            code,
        ) + of_code(refs_faults(seq, "hora.concealed"@, b.concealed@), code) + of_code(
            refs_faults(seq, "hora.machi"@, seq![b.machi]),
            code,
        ) + of_code(refs_faults(seq, "hora.ura_markers"@, b.ura_markers@), code) + of_code(
            overlap_faults(seq, hora_places(b)),
            code,
        ),
{
    let a = hora_tables(seq, b, seats);
    let m = melds_faults(seq, "hora.melds"@, b.melds@, seats);
    let c = refs_faults(seq, "hora.concealed"@, b.concealed@);
    let d = refs_faults(seq, "hora.machi"@, seq![b.machi]);
    let e = refs_faults(seq, "hora.ura_markers"@, b.ura_markers@);
    let f = overlap_faults(seq, hora_places(b));
    lemma_sum(a, m, code);
    lemma_sum(a + m, c, code);
    lemma_sum(a + m + c, d, code);
    lemma_sum(a + m + c + d, e, code);
    lemma_sum(a + m + c + d + e, f, code);
}

spec fn pair_fault(seq: usize, b: HoraBody, seats: usize) -> Seq<Fault> {
    fault_if(b.winner >= seats || b.from >= seats, seq, "seat_out_of_range"@, "winner / from out of range"@)
}

spec fn pao_fault(seq: usize, b: HoraBody, seats: usize) -> Seq<Fault> {
    fault_if(b.pao is Some && b.pao->0 >= seats, seq, "seat_out_of_range"@, "pao out of range"@)
}

proof fn lemma_hora_parts(seq: usize, b: HoraBody, seats: usize)
    ensures
        hora_faults(seq, b, seats) == hora_tiles(seq, b, seats) + pair_fault(seq, b, seats) + pao_fault(seq, b, seats),
{
}

proof fn lemma_hora_seats(seq: usize, b: HoraBody, seats: usize, code: Seq<char>)
    ensures
        of_code(hora_faults(seq, b, seats), code) == of_code(hora_tiles(seq, b, seats), code) + one(
            (b.winner >= seats || b.from >= seats) && "seat_out_of_range"@ == code,
        ) + one(b.pao is Some && b.pao->0 >= seats && "seat_out_of_range"@ == code),
{
    let t = hora_tiles(seq, b, seats);
    let p = pair_fault(seq, b, seats);
    let q = pao_fault(seq, b, seats);
    lemma_hora_parts(seq, b, seats);
    lemma_sum(t, p, code);
    lemma_sum(t + p, q, code);
    lemma_if(b.winner >= seats || b.from >= seats, seq, "seat_out_of_range"@, "winner / from out of range"@, code);
    lemma_if(b.pao is Some && b.pao->0 >= seats, seq, "seat_out_of_range"@, "pao out of range"@, code);
}

spec fn bad_copies(refs: Seq<TileRef>) -> nat {
    tally(refs.len() as int, |i: int| !is_own_copy(refs[i]))
}

spec fn bad_melds(melds: Seq<MatchlogMeld>, seats: usize) -> nat {
    tally(melds.len() as int, |i: int| !is_well_formed(melds[i], seats))
}

spec fn repeated(refs: Seq<TileRef>) -> nat {
    tally(refs.len() as int, |j: int| is_repeated(refs, j))
}

proof fn lemma_hora_overlaps(seq: usize, b: HoraBody, code: Seq<char>)
    ensures
        of_code(overlap_faults(seq, hora_places(b)), code) == if code == "tile_sets_overlap"@ {
            repeated(winning_tiles(b))
        } else {
            0
        },
{
    let one_tile = seq![b.machi];
    let s = one_tile + b.concealed@;
    lemma_overlaps(seq, hora_places(b), code);
    lemma_places_of(one_tile, "machi"@);
    lemma_places_of(b.concealed@, "concealed"@);
    lemma_ids_of_sum(one_tile, b.concealed@);
    lemma_places_of_melds(s, b.melds@);
    assert(ids_at(hora_places(b)) =~= ids_of(s) + ids_at(places_of_melds(b.melds@)));
    lemma_repeats(winning_tiles(b));
}

proof fn lemma_hora_copies(seq: usize, b: HoraBody, seats: usize, code: Seq<char>)
    ensures
        of_code(melds_faults(seq, "hora.melds"@, b.melds@, seats), code) + of_code(
            refs_faults(seq, "hora.concealed"@, b.concealed@),
            code,
        ) + of_code(refs_faults(seq, "hora.machi"@, seq![b.machi]), code) + of_code(
            refs_faults(seq, "hora.ura_markers"@, b.ura_markers@),
            code,
        ) == if code == "meld_shape_invalid"@ {
            bad_melds(b.melds@, seats)
        } else if code == "tile_id_inconsistent"@ {
            bad_copies(winning_tiles(b)) + bad_copies(b.ura_markers@)
        } else {
            0
        },
{
    let one_tile = seq![b.machi];
    let s = one_tile + b.concealed@;
    lemma_codes();
    lemma_refs(seq, "hora.concealed"@, b.concealed@, code);
    lemma_refs(seq, "hora.machi"@, one_tile, code);
    lemma_refs(seq, "hora.ura_markers"@, b.ura_markers@, code);
    lemma_tally_sum(one_tile, b.concealed@);
    lemma_melds(seq, "hora.melds"@, b.melds@, seats, s, code);
}

proof fn lemma_hora(seq: usize, b: HoraBody, seats: usize, code: Seq<char>)
    ensures
        of_code(hora_faults(seq, b, seats), code) == hora_count(b, seats, code),
{
    lemma_hora_seats(seq, b, seats, code);
    lemma_hora_tiles(seq, b, seats, code);
    lemma_hora_tables(seq, b, seats, code);
    lemma_hora_numbers(seq, b, seats, code);
    lemma_hora_overlaps(seq, b, code);
    lemma_hora_copies(seq, b, seats, code);
    lemma_ids(seq, b.normal@, code);
    lemma_ids(seq, b.yakuman@, code);
    lemma_codes();
    let w = winning_tiles(b);
    assert(bad_copies(w) == tally(w.len() as int, |i: int| !is_own_copy(winning_tiles(b)[i])));
    assert(repeated(w) == tally(w.len() as int, |j: int| is_repeated(winning_tiles(b), j)));
}

proof fn lemma_no_seats(f: Seq<Fault>)
    ensures
        f + Seq::<Fault>::empty() == f,
{
    assert(f + Seq::<Fault>::empty() =~= f);
}

/// A win is faulted once for each thing that is out of order, under the code of that thing, and for
/// nothing else: a list of deltas that has not one entry for each seat, payments or repeats that do
/// not add up to zero, sticks that are paid by the winner, yakuman beside other yaku, yaku IDs that
/// do not exist or count dora, melds that are not well formed, tiles that are not what their ID says
/// or occur twice, and seats that are not at the table.
pub proof fn wins_are_faulted_exactly(seq: usize, b: HoraBody, seats: usize)
    ensures
        ({
            let f = event_faults(seq, MatchlogEvent::Hora(Box::new(b)), seats);
            &&& number(f, "width_mismatch"@) == one(b.base_deltas@.len() != seats) + one(b.honba_deltas@.len() != seats) + one(
                b.kyotaku_deltas@.len() != seats,
            )
            &&& number(f, "not_zero_sum"@) == one(total(b.base_deltas@) != 0) + one(total(b.honba_deltas@) != 0)
            &&& number(f, "kyotaku_negative"@) == one(total(b.kyotaku_deltas@) < 0)
            &&& number(f, "yaku_tables_overlap"@) == one(b.yakuman@.len() > 0 && b.normal@.len() > 0)
            &&& number(f, "yaku_id_out_of_range"@) == places(b.normal@.len(), |i: int| b.normal@[i].0 > 54).len() + places(
                b.yakuman@.len(),
                |i: int| b.yakuman@[i].0 > 54,
            ).len()
            &&& number(f, "dora_in_yaku_table"@) == places(b.normal@.len(), |i: int| 52 <= b.normal@[i].0 <= 54).len()
            &&& number(f, "meld_shape_invalid"@) == places(b.melds@.len(), |i: int| !is_well_formed(b.melds@[i], seats)).len()
            &&& number(f, "tile_id_inconsistent"@) == places(
                winning_tiles(b).len(),
                |i: int| !is_own_copy(winning_tiles(b)[i]),
            ).len() + places(b.ura_markers@.len(), |i: int| !is_own_copy(b.ura_markers@[i])).len()
            &&& number(f, "tile_sets_overlap"@) == places(winning_tiles(b).len(), |j: int| is_repeated(winning_tiles(b), j)).len()
            &&& number(f, "seat_out_of_range"@) == one(b.winner >= seats || b.from >= seats) + one(
                b.pao is Some && b.pao->0 >= seats,
            )
        }),
{
    let f = hora_faults(seq, b, seats);
    let ev = MatchlogEvent::Hora(Box::new(b));
    assert(seats_of(ev) =~= Seq::empty());
    lemma_no_seats(f);
    assert(event_faults(seq, ev, seats) == f);
    lemma_codes();
    lemma_hora(seq, b, seats, "width_mismatch"@);
    lemma_hora(seq, b, seats, "not_zero_sum"@);
    lemma_hora(seq, b, seats, "kyotaku_negative"@);
    lemma_hora(seq, b, seats, "yaku_tables_overlap"@);
    lemma_hora(seq, b, seats, "yaku_id_out_of_range"@);
    lemma_hora(seq, b, seats, "dora_in_yaku_table"@);
    lemma_hora(seq, b, seats, "meld_shape_invalid"@);
    lemma_hora(seq, b, seats, "tile_id_inconsistent"@);
    lemma_hora(seq, b, seats, "tile_sets_overlap"@);
    lemma_hora(seq, b, seats, "seat_out_of_range"@);
    lemma_number(f, "width_mismatch"@);
    lemma_number(f, "not_zero_sum"@);
    lemma_number(f, "kyotaku_negative"@);
    lemma_number(f, "yaku_tables_overlap"@);
    lemma_number(f, "yaku_id_out_of_range"@);
    lemma_number(f, "dora_in_yaku_table"@);
    lemma_number(f, "meld_shape_invalid"@);
    lemma_number(f, "tile_id_inconsistent"@);
    lemma_number(f, "tile_sets_overlap"@);
    lemma_number(f, "seat_out_of_range"@);
    let w = winning_tiles(b);
    lemma_tally(b.normal@.len() as int, |i: int| b.normal@[i].0 > 54);
    lemma_tally(b.yakuman@.len() as int, |i: int| b.yakuman@[i].0 > 54);
    lemma_tally(b.normal@.len() as int, |i: int| 52 <= b.normal@[i].0 <= 54);
    lemma_tally(b.melds@.len() as int, |i: int| !is_well_formed(b.melds@[i], seats));
    lemma_tally(w.len() as int, |i: int| !is_own_copy(winning_tiles(b)[i]));
    lemma_tally(b.ura_markers@.len() as int, |i: int| !is_own_copy(b.ura_markers@[i]));
    lemma_tally(w.len() as int, |j: int| is_repeated(winning_tiles(b), j));
}

/// Nothing is wrong with a win.
pub open spec fn is_in_order(b: HoraBody, seats: usize) -> bool {
    &&& b.base_deltas@.len() == seats && b.honba_deltas@.len() == seats && b.kyotaku_deltas@.len() == seats
    &&& total(b.base_deltas@) == 0 && total(b.honba_deltas@) == 0 && total(b.kyotaku_deltas@) >= 0
    &&& b.yakuman@.len() == 0 || b.normal@.len() == 0
    &&& forall|i: int| 0 <= i < b.normal@.len() ==> (#[trigger] b.normal@[i]).0 < 52
    &&& forall|i: int| 0 <= i < b.yakuman@.len() ==> (#[trigger] b.yakuman@[i]).0 <= 54
    &&& forall|i: int| 0 <= i < b.melds@.len() ==> is_well_formed(#[trigger] b.melds@[i], seats)
    &&& forall|i: int| 0 <= i < winning_tiles(b).len() ==> is_own_copy(#[trigger] winning_tiles(b)[i])
    &&& forall|i: int| 0 <= i < b.ura_markers@.len() ==> is_own_copy(#[trigger] b.ura_markers@[i])
    &&& forall|i: int, j: int|
        0 <= i < j < winning_tiles(b).len() ==> (#[trigger] winning_tiles(b)[i]).physical_id is None || winning_tiles(
            b,
        )[i].physical_id != (#[trigger] winning_tiles(b)[j]).physical_id
    &&& b.winner < seats && b.from < seats
    &&& b.pao is Some ==> b.pao->0 < seats
}

proof fn lemma_none(n: int, p: spec_fn(int) -> bool)
    ensures
        tally(n, p) == 0 <==> forall|i: int| 0 <= i < n ==> !#[trigger] p(i),
    decreases n,
{
    if n > 0 {
        lemma_none(n - 1, p);
        if forall|i: int| 0 <= i < n ==> !#[trigger] p(i) {
            assert(!p(n - 1));
        }
        if tally(n, p) == 0 {
            assert forall|i: int| 0 <= i < n implies !#[trigger] p(i) by {
                if i == n - 1 {
                    assert(!p(n - 1));
                }
            }
        }
    }
}

proof fn lemma_empty(f: Seq<Fault>)
    ensures
        f.len() > 0 ==> of_code(f, f.last().code) > 0,
        f.len() == 0 ==> forall|code: Seq<char>| #[trigger] of_code(f, code) == 0,
{
}

spec fn has_no_bad(b: HoraBody, seats: usize) -> bool {
    &&& tally(b.normal@.len() as int, |i: int| b.normal@[i].0 > 54) == 0
    &&& tally(b.normal@.len() as int, |i: int| 52 <= b.normal@[i].0 <= 54) == 0
    &&& tally(b.yakuman@.len() as int, |i: int| b.yakuman@[i].0 > 54) == 0
    &&& tally(b.melds@.len() as int, |i: int| !is_well_formed(b.melds@[i], seats)) == 0
    &&& tally(winning_tiles(b).len() as int, |i: int| !is_own_copy(winning_tiles(b)[i])) == 0
    &&& tally(b.ura_markers@.len() as int, |i: int| !is_own_copy(b.ura_markers@[i])) == 0
    &&& tally(winning_tiles(b).len() as int, |j: int| is_repeated(winning_tiles(b), j)) == 0
}

proof fn lemma_distinct(w: Seq<TileRef>)
    ensures
        tally(w.len() as int, |j: int| is_repeated(w, j)) == 0 <==> forall|i: int, j: int|
            0 <= i < j < w.len() ==> (#[trigger] w[i]).physical_id is None || w[i].physical_id != (#[trigger] w[j]).physical_id,
{
    let p = |j: int| is_repeated(w, j);
    lemma_none(w.len() as int, p);
    if tally(w.len() as int, p) == 0 {
        assert forall|i: int, j: int| 0 <= i < j < w.len() implies (#[trigger] w[i]).physical_id is None || w[i].physical_id != (
        #[trigger] w[j]).physical_id by {
            assert(!p(j));
        }
    }
    if forall|i: int, j: int|
        0 <= i < j < w.len() ==> (#[trigger] w[i]).physical_id is None || w[i].physical_id != (#[trigger] w[j]).physical_id {
        assert forall|j: int| 0 <= j < w.len() implies !#[trigger] p(j) by {}
    }
}

proof fn lemma_in_order(b: HoraBody, seats: usize)
    ensures
        has_no_bad(b, seats) <==> {
            &&& forall|i: int| 0 <= i < b.normal@.len() ==> (#[trigger] b.normal@[i]).0 < 52
            &&& forall|i: int| 0 <= i < b.yakuman@.len() ==> (#[trigger] b.yakuman@[i]).0 <= 54
            &&& forall|i: int| 0 <= i < b.melds@.len() ==> is_well_formed(#[trigger] b.melds@[i], seats)
            &&& forall|i: int| 0 <= i < winning_tiles(b).len() ==> is_own_copy(#[trigger] winning_tiles(b)[i])
            &&& forall|i: int| 0 <= i < b.ura_markers@.len() ==> is_own_copy(#[trigger] b.ura_markers@[i])
            &&& forall|i: int, j: int|
                0 <= i < j < winning_tiles(b).len() ==> (#[trigger] winning_tiles(b)[i]).physical_id is None || winning_tiles(
                    b,
                )[i].physical_id != (#[trigger] winning_tiles(b)[j]).physical_id
        },
{
    let w = winning_tiles(b);
    let high = |i: int| b.normal@[i].0 > 54;
    let dora = |i: int| 52 <= b.normal@[i].0 <= 54;
    let yaku = |i: int| b.yakuman@[i].0 > 54;
    let meld = |i: int| !is_well_formed(b.melds@[i], seats);
    let tile = |i: int| !is_own_copy(winning_tiles(b)[i]);
    let ura = |i: int| !is_own_copy(b.ura_markers@[i]);
    lemma_none(b.normal@.len() as int, high);
    lemma_none(b.normal@.len() as int, dora);
    lemma_none(b.yakuman@.len() as int, yaku);
    lemma_none(b.melds@.len() as int, meld);
    lemma_none(w.len() as int, tile);
    lemma_none(b.ura_markers@.len() as int, ura);
    lemma_distinct(w);
    if has_no_bad(b, seats) {
        assert forall|i: int| 0 <= i < b.normal@.len() implies (#[trigger] b.normal@[i]).0 < 52 by {
            assert(!high(i) && !dora(i));
        }
        assert forall|i: int| 0 <= i < b.yakuman@.len() implies (#[trigger] b.yakuman@[i]).0 <= 54 by {
            assert(!yaku(i));
        }
        assert forall|i: int| 0 <= i < b.melds@.len() implies is_well_formed(#[trigger] b.melds@[i], seats) by {
            assert(!meld(i));
        }
        assert forall|i: int| 0 <= i < w.len() implies is_own_copy(#[trigger] w[i]) by {
            assert(!tile(i));
        }
        assert forall|i: int| 0 <= i < b.ura_markers@.len() implies is_own_copy(#[trigger] b.ura_markers@[i]) by {
            assert(!ura(i));
        }
    }
}

/// A win is faulted exactly where something is out of order; with everything in order it has no
/// fault, by ron or by the winner's own draw. A winner or a source that is not at the table is
/// named as such, and only then.
pub proof fn wins_in_order_have_no_fault(seq: usize, b: HoraBody, seats: usize)
    ensures
        ({
            let f = event_faults(seq, MatchlogEvent::Hora(Box::new(b)), seats);
            &&& f.len() == 0 <==> is_in_order(b, seats)
            &&& f.contains(
                Fault { seq: Some(seq), code: "seat_out_of_range"@, detail: "winner / from out of range"@ },
            ) <==> !(b.winner < seats && b.from < seats)
            &&& f.contains(Fault { seq: Some(seq), code: "seat_out_of_range"@, detail: "pao out of range"@ }) <==> b.pao is Some
                && b.pao->0 >= seats
        }),
{
    let f = hora_faults(seq, b, seats);
    let ev = MatchlogEvent::Hora(Box::new(b));
    assert(seats_of(ev) =~= Seq::empty());
    lemma_no_seats(f);
    assert(event_faults(seq, ev, seats) == f);
    lemma_in_order(b, seats);
    lemma_empty(f);
    lemma_codes();
    if f.len() > 0 {
        lemma_hora(seq, b, seats, f.last().code);
    } else {
        lemma_hora(seq, b, seats, "width_mismatch"@);
        lemma_hora(seq, b, seats, "not_zero_sum"@);
        lemma_hora(seq, b, seats, "kyotaku_negative"@);
        lemma_hora(seq, b, seats, "yaku_tables_overlap"@);
        lemma_hora(seq, b, seats, "yaku_id_out_of_range"@);
        lemma_hora(seq, b, seats, "dora_in_yaku_table"@);
        lemma_hora(seq, b, seats, "meld_shape_invalid"@);
        lemma_hora(seq, b, seats, "tile_id_inconsistent"@);
        lemma_hora(seq, b, seats, "tile_sets_overlap"@);
        lemma_hora(seq, b, seats, "seat_out_of_range"@);
    }
    lemma_named(seq, b, seats);
}

proof fn lemma_named(seq: usize, b: HoraBody, seats: usize)
    ensures
        hora_faults(seq, b, seats).contains(
            Fault { seq: Some(seq), code: "seat_out_of_range"@, detail: "winner / from out of range"@ },
        ) <==> b.winner >= seats || b.from >= seats,
        hora_faults(seq, b, seats).contains(
            Fault { seq: Some(seq), code: "seat_out_of_range"@, detail: "pao out of range"@ },
        ) <==> b.pao is Some && b.pao->0 >= seats,
{
    reveal_strlit("winner / from out of range");
    reveal_strlit("pao out of range");
    lemma_codes();
    let t = hora_tiles(seq, b, seats);
    let p = pair_fault(seq, b, seats);
    let q = pao_fault(seq, b, seats);
    let code = "seat_out_of_range"@;
    let x = Fault { seq: Some(seq), code, detail: "winner / from out of range"@ };
    let y = Fault { seq: Some(seq), code, detail: "pao out of range"@ };
    lemma_hora(seq, b, seats, code);
    lemma_hora_seats(seq, b, seats, code);
    assert(of_code(t, code) == 0);
    lemma_hora_parts(seq, b, seats);
    lemma_absent(t, x);
    lemma_absent(t, y);
    lemma_in_sum(t, p, x);
    lemma_in_sum(t + p, q, x);
    lemma_in_sum(t, p, y);
    lemma_in_sum(t + p, q, y);
    assert(x.detail.len() != y.detail.len());
    if b.winner >= seats || b.from >= seats {
        assert(p[0] == x);
    }
    if b.pao is Some && b.pao->0 >= seats {
        assert(q[0] == y);
    }
}

proof fn lemma_absent(f: Seq<Fault>, x: Fault)
    requires
        of_code(f, x.code) == 0,
    ensures
        !f.contains(x),
    decreases f.len(),
{
    if f.len() > 0 {
        lemma_absent(f.drop_last(), x);
        if f.contains(x) {
            let i = choose|i: int| 0 <= i < f.len() && f[i] == x;
            if i < f.len() - 1 {
                assert(f.drop_last()[i] == x);
            }
        }
    }
}

proof fn lemma_in_sum(a: Seq<Fault>, b: Seq<Fault>, x: Fault)
    ensures
        (a + b).contains(x) <==> a.contains(x) || b.contains(x),
{
    let s = a + b;
    if a.contains(x) {
        let i = choose|i: int| 0 <= i < a.len() && a[i] == x;
        assert(s[i] == x);
    }
    if b.contains(x) {
        let i = choose|i: int| 0 <= i < b.len() && b[i] == x;
        assert(s[a.len() + i] == x);
    }
    if s.contains(x) {
        let i = choose|i: int| 0 <= i < s.len() && s[i] == x;
        if i < a.len() {
            assert(a[i] == x);
        } else {
            assert(b[i - a.len()] == x);
        }
    }
}

// Other events.

/// The named seats of an event that are not at the table; the seats of a win are its own matter.
pub open spec fn strangers(ev: MatchlogEvent, seats: usize) -> nat {
    match ev {
        MatchlogEvent::Tsumo { actor, .. } => one(actor >= seats),
        MatchlogEvent::Dahai { actor, .. } => one(actor >= seats),
        MatchlogEvent::DealerOpening { actor, .. } => one(actor >= seats),
        MatchlogEvent::DealerOpeningDahai { actor, .. } => one(actor >= seats),
        MatchlogEvent::KyuushuDeclare { actor } => one(actor >= seats),
        MatchlogEvent::ReachAccepted { actor } => one(actor >= seats),
        MatchlogEvent::Call { actor, meld } => one(actor >= seats) + one(meld.from is Some && meld.from->0 >= seats),
        MatchlogEvent::StartKyoku { oya, .. } => one(oya >= seats),
        MatchlogEvent::PlatformDisconnect { seat } => one(seat >= seats),
        MatchlogEvent::PlatformReconnect { seat } => one(seat >= seats),
        _ => 0,
    }
}

proof fn lemma_seats(seq: usize, named: Seq<u8>, seats: usize, code: Seq<char>)
    ensures
        of_code(seats_faults(seq, named, seats), code) == if code == "seat_out_of_range"@ {
            tally(named.len() as int, |i: int| named[i] >= seats)
        } else {
            0
        },
    decreases named.len(),
{
    if named.len() > 0 {
        let r = named.drop_last();
        lemma_seats(seq, r, seats, code);
        let d = "seat "@ + crate::text::dec(named.last() as nat) + " out of range"@;
        lemma_if(named.last() >= seats, seq, "seat_out_of_range"@, d, code);
        lemma_sum(seats_faults(seq, r, seats), fault_if(named.last() >= seats, seq, "seat_out_of_range"@, d), code);
        lemma_same_tally(r.len() as int, |i: int| r[i] >= seats, |i: int| named[i] >= seats);
    }
}

proof fn lemma_strangers(ev: MatchlogEvent, seats: usize)
    ensures
        tally(seats_of(ev).len() as int, |i: int| seats_of(ev)[i] >= seats) == strangers(ev, seats),
{
    let named = seats_of(ev);
    let p = |i: int| seats_of(ev)[i] >= seats;
    assert(tally(0, p) == 0);
    if named.len() == 1 {
        assert(tally(1, p) == one(p(0)));
    } else if named.len() == 2 {
        assert(tally(1, p) == one(p(0)));
        assert(tally(2, p) == one(p(0)) + one(p(1)));
    }
}

/// Hands of a start, one after the other.
pub open spec fn all_tiles(hands: Seq<Vec<TileRef>>) -> Seq<TileRef> {
    hands.fold_left(Seq::empty(), |s: Seq<TileRef>, h: Vec<TileRef>| s + h@)
}

/// Revealed hands of a draw, one after the other.
pub open spec fn revealed_tiles(hands: Seq<Option<Vec<TileRef>>>) -> Seq<TileRef> {
    hands.fold_left(
        Seq::empty(),
        |s: Seq<TileRef>, h: Option<Vec<TileRef>>|
            s + match h {
                Some(v) => v@,
                None => Seq::empty(),
            },
    )
}

proof fn lemma_haipai(seq: usize, hands: Seq<Vec<TileRef>>, code: Seq<char>)
    ensures
        of_code(haipai_faults(seq, hands), code) == if code == "haipai_size"@ {
            tally(hands.len() as int, |i: int| hands[i]@.len() != 13)
        } else if code == "tile_id_inconsistent"@ {
            bad_copies(all_tiles(hands))
        } else {
            0
        },
    decreases hands.len(),
{
    lemma_codes();
    if hands.len() > 0 {
        let r = hands.drop_last();
        let h = hands.last()@;
        lemma_haipai(seq, r, code);
        let d = crate::text::dec(h.len()) + " starting tiles, expected 13"@;
        let a = haipai_faults(seq, r);
        let b = fault_if(h.len() != 13, seq, "haipai_size"@, d);
        let c = refs_faults(seq, "start_kyoku.haipai"@, h);
        lemma_if(h.len() != 13, seq, "haipai_size"@, d, code);
        lemma_refs(seq, "start_kyoku.haipai"@, h, code);
        lemma_sum(a, b, code);
        lemma_sum(a + b, c, code);
        lemma_same_tally(r.len() as int, |i: int| r[i]@.len() != 13, |i: int| hands[i]@.len() != 13);
        lemma_tally_sum(all_tiles(r), h);
        assert(all_tiles(hands) == all_tiles(r) + h);
    }
}

proof fn lemma_revealed(seq: usize, hands: Seq<Option<Vec<TileRef>>>, code: Seq<char>)
    ensures
        of_code(hands_faults(seq, hands), code) == if code == "tile_id_inconsistent"@ {
            bad_copies(revealed_tiles(hands))
        } else {
            0
        },
    decreases hands.len(),
{
    if hands.len() > 0 {
        let r = hands.drop_last();
        lemma_revealed(seq, r, code);
        let a = hands_faults(seq, r);
        match hands.last() {
            Some(h) => {
                lemma_refs(seq, "ryukyoku.concealed"@, h@, code);
                lemma_sum(a, refs_faults(seq, "ryukyoku.concealed"@, h@), code);
                lemma_tally_sum(revealed_tiles(r), h@);
                assert(revealed_tiles(hands) == revealed_tiles(r) + h@);
            },
            None => {
                lemma_sum(a, Seq::empty(), code);
                assert(revealed_tiles(hands) == revealed_tiles(r) + Seq::<TileRef>::empty());
                assert(revealed_tiles(hands) =~= revealed_tiles(r));
            },
        }
    }
}

/// The tiles of an event that are not what their ID says; those of a win are its own matter.
pub open spec fn wrong_tiles(ev: MatchlogEvent) -> nat {
    match ev {
        MatchlogEvent::Tsumo { pai, .. } => one(!is_own_copy(pai)),
        MatchlogEvent::Dahai { pai, .. } => one(!is_own_copy(pai)),
        MatchlogEvent::DealerOpening { pai, .. } => one(!is_own_copy(pai)),
        MatchlogEvent::DealerOpeningDahai { pai, .. } => one(!is_own_copy(pai)),
        MatchlogEvent::Dora { marker, .. } => one(!is_own_copy(marker)),
        MatchlogEvent::Call { meld, .. } => places(tiles_of(meld).len(), |i: int| !is_own_copy(tiles_of(meld)[i])).len(),
        MatchlogEvent::StartKyoku { haipai, dora_marker, .. } => places(
            all_tiles(haipai@).len(),
            |i: int| !is_own_copy(all_tiles(haipai@)[i]),
        ).len() + one(!is_own_copy(dora_marker)),
        MatchlogEvent::Ryukyoku(b) => places(
            revealed_tiles(b.concealed@).len(),
            |i: int| !is_own_copy(revealed_tiles(b.concealed@)[i]),
        ).len(),
        _ => 0,
    }
}

/// The lists of an event that have not one entry for each seat; those of a win are its own matter.
pub open spec fn wrong_widths(ev: MatchlogEvent, seats: usize) -> nat {
    match ev {
        MatchlogEvent::StartKyoku { scores, haipai, .. } => one(scores@.len() != seats) + one(haipai@.len() != seats),
        MatchlogEvent::Ryukyoku(b) => one(b.tenpai_mask@.len() != seats) + one(b.concealed@.len() != seats) + one(
            b.base_deltas@.len() != seats,
        ) + one(b.honba_deltas@.len() != seats),
        MatchlogEvent::MatchEnd { final_scores, rank_points } => one(final_scores@.len() != seats) + one(
            rank_points is Some && rank_points->0@.len() != seats,
        ),
        _ => 0,
    }
}

/// How many faults of a code an event has that is no win.
pub open spec fn due(seq: usize, ev: MatchlogEvent, seats: usize, code: Seq<char>) -> nat {
    if code == "seat_out_of_range"@ {
        strangers(ev, seats)
    } else if code == "tile_id_inconsistent"@ {
        wrong_tiles(ev)
    } else if code == "width_mismatch"@ {
        wrong_widths(ev, seats)
    } else {
        match ev {
            MatchlogEvent::StartMatch { .. } => one(code == "duplicate_start_match"@ && seq != 0),
            MatchlogEvent::StartKyoku { haipai, .. } => if code == "haipai_size"@ {
                places(haipai@.len(), |i: int| haipai@[i]@.len() != 13).len()
            } else {
                0
            },
            MatchlogEvent::Call { meld, .. } => one(code == "meld_shape_invalid"@ && !is_well_formed(meld, seats)),
            MatchlogEvent::Ryukyoku(b) => if code == "not_zero_sum"@ {
                one(total(b.base_deltas@) != 0) + one(total(b.honba_deltas@) != 0)
            } else {
                one(
                    code == "ryukyoku_kind_impossible"@ && seats != 4 && (b.kind == RyukyokuKind::SuuchaRiichi || b.kind
                        == RyukyokuKind::SuufonRenda || b.kind == RyukyokuKind::SanchaHora),
                )
            },
            _ => 0,
        }
    }
}

proof fn lemma_one_tile(seq: usize, name: Seq<char>, t: TileRef, code: Seq<char>)
    ensures
        of_code(refs_faults(seq, name, seq![t]), code) == one(code == "tile_id_inconsistent"@ && !is_own_copy(t)),
{
    lemma_refs(seq, name, seq![t], code);
    let p = |i: int| !is_own_copy(seq![t][i]);
    assert(tally(0, p) == 0);
    assert(tally(1, p) == one(p(0)));
}

proof fn lemma_bad_copies(s: Seq<TileRef>)
    ensures
        bad_copies(s) == places(s.len(), |i: int| !is_own_copy(s[i])).len(),
{
    lemma_tally(s.len() as int, |i: int| !is_own_copy(s[i]));
}

proof fn lemma_ryukyoku(seq: usize, b: RyukyokuBody, seats: usize, code: Seq<char>)
    ensures
        of_code(ryukyoku_faults(seq, b, seats), code) == one(b.tenpai_mask@.len() != seats && "width_mismatch"@ == code) + one(
            b.concealed@.len() != seats && "width_mismatch"@ == code,
        ) + one(b.base_deltas@.len() != seats && "width_mismatch"@ == code) + one(
            b.honba_deltas@.len() != seats && "width_mismatch"@ == code,
        ) + one(total(b.base_deltas@) != 0 && "not_zero_sum"@ == code) + one(
            total(b.honba_deltas@) != 0 && "not_zero_sum"@ == code,
        ) + one(!b.kind.possible_with(seats) && "ryukyoku_kind_impossible"@ == code) + of_code(
            hands_faults(seq, b.concealed@),
            code,
        ),
{
    let a1 = width_faults(seq, "ryukyoku.tenpai_mask"@, b.tenpai_mask@.len(), seats as nat);
    let a2 = width_faults(seq, "ryukyoku.concealed"@, b.concealed@.len(), seats as nat);
    let a3 = width_faults(seq, "ryukyoku.base_deltas"@, b.base_deltas@.len(), seats as nat);
    let a4 = width_faults(seq, "ryukyoku.honba_deltas"@, b.honba_deltas@.len(), seats as nat);
    let a5 = sum_faults(seq, "ryukyoku.base_deltas"@, b.base_deltas@);
    let a6 = sum_faults(seq, "ryukyoku.honba_deltas"@, b.honba_deltas@);
    let t = b.kind.spec_name() + " cannot occur with "@ + crate::text::dec(seats as nat) + " players"@;
    let a7 = fault_if(!b.kind.possible_with(seats), seq, "ryukyoku_kind_impossible"@, t);
    lemma_width(seq, "ryukyoku.tenpai_mask"@, b.tenpai_mask@.len(), seats as nat, code);
    lemma_width(seq, "ryukyoku.concealed"@, b.concealed@.len(), seats as nat, code);
    lemma_width(seq, "ryukyoku.base_deltas"@, b.base_deltas@.len(), seats as nat, code);
    lemma_width(seq, "ryukyoku.honba_deltas"@, b.honba_deltas@.len(), seats as nat, code);
    lemma_zero(seq, "ryukyoku.base_deltas"@, b.base_deltas@, code);
    lemma_zero(seq, "ryukyoku.honba_deltas"@, b.honba_deltas@, code);
    lemma_if(!b.kind.possible_with(seats), seq, "ryukyoku_kind_impossible"@, t, code);
    lemma_sum(a1, a2, code);
    lemma_sum(a1 + a2, a3, code);
    lemma_sum(a1 + a2 + a3, a4, code);
    lemma_sum(a1 + a2 + a3 + a4, a5, code);
    lemma_sum(a1 + a2 + a3 + a4 + a5, a6, code);
    lemma_sum(a1 + a2 + a3 + a4 + a5 + a6, a7, code);
    lemma_sum(a1 + a2 + a3 + a4 + a5 + a6 + a7, hands_faults(seq, b.concealed@), code);
}

proof fn lemma_draw_body(seq: usize, b: RyukyokuBody, seats: usize, code: Seq<char>)
    ensures
        of_code(ryukyoku_faults(seq, b, seats), code) == due(seq, MatchlogEvent::Ryukyoku(Box::new(b)), seats, code),
{
    lemma_codes();
    lemma_ryukyoku(seq, b, seats, code);
    lemma_revealed(seq, b.concealed@, code);
    lemma_bad_copies(revealed_tiles(b.concealed@));
}

proof fn lemma_start_body(seq: usize, ev: MatchlogEvent, seats: usize, code: Seq<char>)
    requires
        ev is StartKyoku,
    ensures
        of_code(body_faults(seq, ev, seats), code) + (if code == "seat_out_of_range"@ { strangers(ev, seats) } else { 0 })
            == due(seq, ev, seats, code),
{
    lemma_codes();
    if let MatchlogEvent::StartKyoku { scores, haipai, dora_marker, .. } = ev {
        let a = width_faults(seq, "start_kyoku.scores"@, scores@.len(), seats as nat);
        let b = width_faults(seq, "start_kyoku.haipai"@, haipai@.len(), seats as nat);
        let c = haipai_faults(seq, haipai@);
        let d = refs_faults(seq, "start_kyoku.dora_marker"@, seq![dora_marker]);
        lemma_width(seq, "start_kyoku.scores"@, scores@.len(), seats as nat, code);
        lemma_width(seq, "start_kyoku.haipai"@, haipai@.len(), seats as nat, code);
        lemma_haipai(seq, haipai@, code);
        lemma_one_tile(seq, "start_kyoku.dora_marker"@, dora_marker, code);
        lemma_sum(a, b, code);
        lemma_sum(a + b, c, code);
        lemma_sum(a + b + c, d, code);
        lemma_bad_copies(all_tiles(haipai@));
        lemma_tally(haipai@.len() as int, |i: int| haipai@[i]@.len() != 13);
    }
}

proof fn lemma_plain_body(seq: usize, ev: MatchlogEvent, seats: usize, code: Seq<char>)
    requires
        !(ev is StartKyoku) && !(ev is Ryukyoku) && !(ev is Hora),
    ensures
        of_code(body_faults(seq, ev, seats), code) + (if code == "seat_out_of_range"@ { strangers(ev, seats) } else { 0 })
            == due(seq, ev, seats, code),
{
    lemma_codes();
    match ev {
        MatchlogEvent::StartMatch { .. } => lemma_if(
            seq != 0,
            seq,
            "duplicate_start_match"@,
            "start_match may only appear at the start of the stream"@,
            code,
        ),
        MatchlogEvent::Call { meld, .. } => {
            lemma_meld(seq, "call.meld"@, meld, seats, code);
            lemma_bad_copies(tiles_of(meld));
        },
        MatchlogEvent::Tsumo { pai, .. } => lemma_one_tile(seq, "pai"@, pai, code),
        MatchlogEvent::Dahai { pai, .. } => lemma_one_tile(seq, "pai"@, pai, code),
        MatchlogEvent::DealerOpening { pai, .. } => lemma_one_tile(seq, "pai"@, pai, code),
        MatchlogEvent::DealerOpeningDahai { pai, .. } => lemma_one_tile(seq, "pai"@, pai, code),
        MatchlogEvent::Dora { marker, .. } => lemma_one_tile(seq, "dora.marker"@, marker, code),
        MatchlogEvent::MatchEnd { final_scores, rank_points } => {
            let a = width_faults(seq, "match_end.final_scores"@, final_scores@.len(), seats as nat);
            lemma_width(seq, "match_end.final_scores"@, final_scores@.len(), seats as nat, code);
            match rank_points {
                Some(rp) => {
                    let b = width_faults(seq, "match_end.rank_points"@, rp@.len(), seats as nat);
                    lemma_width(seq, "match_end.rank_points"@, rp@.len(), seats as nat, code);
                    lemma_sum(a, b, code);
                },
                None => lemma_no_seats(a),
            }
        },
        _ => {},
    }
}

/// An event that is no win is faulted, under each code, exactly as often as something of that kind is
/// out of order in it, and for nothing else.
pub proof fn events_are_faulted_exactly(seq: usize, ev: MatchlogEvent, seats: usize, code: Seq<char>)
    requires
        !(ev is Hora),
    ensures
        number(event_faults(seq, ev, seats), code) == due(seq, ev, seats, code),
{
    let f = event_faults(seq, ev, seats);
    lemma_number(f, code);
    lemma_codes();
    lemma_sum(body_faults(seq, ev, seats), seats_faults(seq, seats_of(ev), seats), code);
    lemma_seats(seq, seats_of(ev), seats, code);
    lemma_strangers(ev, seats);
    if let MatchlogEvent::Ryukyoku(b) = ev {
        lemma_draw_body(seq, *b, seats, code);
    } else if ev is StartKyoku {
        lemma_start_body(seq, ev, seats, code);
    } else {
        lemma_plain_body(seq, ev, seats, code);
    }
}

// The log.

/// The header is faulted once for each thing that is out of order: an unknown schema, a number of
/// seats that is neither three nor four, a fingerprint that is not that of the rules, and rank points
/// that are not one for each seat.
pub proof fn headers_are_faulted_exactly(head: MatchlogEvent)
    ensures
        ({
            let f = header_faults(head);
            match head {
                MatchlogEvent::StartMatch { schema, seats, rule_profile, profile_fingerprint, settlement_profile, .. } => {
                    &&& number(f, "schema_mismatch"@) == one(schema@ != "flytable-matchlog-v1"@)
                    &&& number(f, "seats_out_of_range"@) == one(!(3 <= seats <= 4))
                    &&& number(f, "fingerprint_mismatch"@) == one(profile_fingerprint@ != fingerprint_of(rule_profile))
                    &&& number(f, "width_mismatch"@) == one(
                        settlement_profile is Some && settlement_profile->0.rank_points@.len() != seats,
                    )
                    &&& f.len() == one(schema@ != "flytable-matchlog-v1"@) + one(!(3 <= seats <= 4)) + one(
                        profile_fingerprint@ != fingerprint_of(rule_profile),
                    ) + one(settlement_profile is Some && settlement_profile->0.rank_points@.len() != seats)
                },
                _ => f.len() == 0,
            }
        }),
{
    let f = header_faults(head);
    lemma_number(f, "schema_mismatch"@);
    lemma_number(f, "seats_out_of_range"@);
    lemma_number(f, "fingerprint_mismatch"@);
    lemma_number(f, "width_mismatch"@);
    lemma_header(head, "schema_mismatch"@);
    lemma_header(head, "seats_out_of_range"@);
    lemma_header(head, "fingerprint_mismatch"@);
    lemma_header(head, "width_mismatch"@);
    lemma_codes();
}

proof fn lemma_header(head: MatchlogEvent, code: Seq<char>)
    ensures
        match head {
            MatchlogEvent::StartMatch { schema, seats, rule_profile, profile_fingerprint, settlement_profile, .. } => of_code(
                header_faults(head),
                code,
            ) == one(schema@ != "flytable-matchlog-v1"@ && code == "schema_mismatch"@) + one(
                !(3 <= seats <= 4) && code == "seats_out_of_range"@,
            ) + one(profile_fingerprint@ != fingerprint_of(rule_profile) && code == "fingerprint_mismatch"@) + one(
                settlement_profile is Some && settlement_profile->0.rank_points@.len() != seats && code == "width_mismatch"@,
            ),
            _ => header_faults(head).len() == 0,
        },
{
    if let MatchlogEvent::StartMatch { schema, seats, rule_profile, profile_fingerprint, settlement_profile, .. } = head {
        let t = "unknown schema "@ + schema@;
        let u = "seats = "@ + crate::text::dec(seats as nat);
        let v = "declared "@ + profile_fingerprint@ + ", computed "@ + fingerprint_of(rule_profile);
        let bad = profile_fingerprint@ != fingerprint_of(rule_profile);
        let a = fault_if(schema@ != "flytable-matchlog-v1"@, 0, "schema_mismatch"@, t);
        let b = fault_if(seats != 3 && seats != 4, 0, "seats_out_of_range"@, u);
        let c = fault_if(bad, 0, "fingerprint_mismatch"@, v);
        lemma_if(schema@ != "flytable-matchlog-v1"@, 0, "schema_mismatch"@, t, code);
        lemma_if(seats != 3 && seats != 4, 0, "seats_out_of_range"@, u, code);
        lemma_if(bad, 0, "fingerprint_mismatch"@, v, code);
        lemma_sum(a, b, code);
        lemma_sum(a + b, c, code);
        match settlement_profile {
            Some(sp) => {
                let w = "settlement_profile.rank_points length "@ + crate::text::dec(sp.rank_points@.len()) + " != seats "@
                    + crate::text::dec(seats as nat);
                let d = fault_if(sp.rank_points@.len() != seats, 0, "width_mismatch"@, w);
                lemma_if(sp.rank_points@.len() != seats, 0, "width_mismatch"@, w, code);
                lemma_sum(a + b + c, d, code);
                assert(header_faults(head) == a + b + c + d);
            },
            None => {
                lemma_no_seats(a + b + c);
                assert(header_faults(head) == a + b + c + Seq::<Fault>::empty());
            },
        }
    }
}

/// All violations of a list are of one event.
pub open spec fn all_at(f: Seq<Fault>, seq: usize) -> bool {
    forall|j: int| 0 <= j < f.len() ==> (#[trigger] f[j]).seq == Some(seq)
}

proof fn lemma_refs_at(seq: usize, name: Seq<char>, refs: Seq<TileRef>)
    ensures
        all_at(refs_faults(seq, name, refs), seq),
    decreases refs.len(),
{
    if refs.len() > 0 {
        lemma_refs_at(seq, name, refs.drop_last());
    }
}

proof fn lemma_melds_at(seq: usize, name: Seq<char>, melds: Seq<MatchlogMeld>, seats: usize)
    ensures
        all_at(melds_faults(seq, name, melds, seats), seq),
    decreases melds.len(),
{
    if melds.len() > 0 {
        lemma_melds_at(seq, name, melds.drop_last(), seats);
        lemma_refs_at(seq, name, refs_of_meld(melds.last()));
    }
}

proof fn lemma_tables_at(seq: usize, v: Seq<(u8, u8)>)
    ensures
        all_at(id_faults(seq, v), seq),
        all_at(dora_faults(seq, v), seq),
    decreases v.len(),
{
    if v.len() > 0 {
        lemma_tables_at(seq, v.drop_last());
    }
}

proof fn lemma_overlaps_at(seq: usize, s: Seq<Place>)
    ensures
        all_at(overlap_faults(seq, s), seq),
    decreases s.len(),
{
    if s.len() > 0 {
        lemma_overlaps_at(seq, s.drop_last());
    }
}

proof fn lemma_hands_at(seq: usize, hands: Seq<Option<Vec<TileRef>>>)
    ensures
        all_at(hands_faults(seq, hands), seq),
    decreases hands.len(),
{
    if hands.len() > 0 {
        lemma_hands_at(seq, hands.drop_last());
        if let Some(h) = hands.last() {
            lemma_refs_at(seq, "ryukyoku.concealed"@, h@);
        }
    }
}

proof fn lemma_haipai_at(seq: usize, hands: Seq<Vec<TileRef>>)
    ensures
        all_at(haipai_faults(seq, hands), seq),
    decreases hands.len(),
{
    if hands.len() > 0 {
        lemma_haipai_at(seq, hands.drop_last());
        lemma_refs_at(seq, "start_kyoku.haipai"@, hands.last()@);
    }
}

proof fn lemma_seats_at(seq: usize, named: Seq<u8>, seats: usize)
    ensures
        all_at(seats_faults(seq, named, seats), seq),
    decreases named.len(),
{
    if named.len() > 0 {
        lemma_seats_at(seq, named.drop_last(), seats);
    }
}

proof fn lemma_hora_at(seq: usize, b: HoraBody, seats: usize)
    ensures
        all_at(hora_faults(seq, b, seats), seq),
{
    lemma_hora_parts(seq, b, seats);
    lemma_tables_at(seq, b.normal@);
    lemma_tables_at(seq, b.yakuman@);
    lemma_melds_at(seq, "hora.melds"@, b.melds@, seats);
    lemma_refs_at(seq, "hora.concealed"@, b.concealed@);
    lemma_refs_at(seq, "hora.machi"@, seq![b.machi]);
    lemma_refs_at(seq, "hora.ura_markers"@, b.ura_markers@);
    lemma_overlaps_at(seq, hora_places(b));
    assert(all_at(hora_numbers(seq, b, seats), seq));
    assert(all_at(hora_tables(seq, b, seats), seq));
    assert(all_at(hora_tiles(seq, b, seats), seq));
}

/// The violations of an event name its place in the stream.
pub proof fn faults_name_their_event(seq: usize, ev: MatchlogEvent, seats: usize)
    ensures
        all_at(event_faults(seq, ev, seats), seq),
{
    lemma_seats_at(seq, seats_of(ev), seats);
    match ev {
        MatchlogEvent::StartKyoku { haipai, dora_marker, .. } => {
            lemma_haipai_at(seq, haipai@);
            lemma_refs_at(seq, "start_kyoku.dora_marker"@, seq![dora_marker]);
        },
        MatchlogEvent::Call { meld, .. } => lemma_refs_at(seq, "call.meld"@, refs_of_meld(meld)),
        MatchlogEvent::Tsumo { pai, .. } => lemma_refs_at(seq, "pai"@, seq![pai]),
        MatchlogEvent::Dahai { pai, .. } => lemma_refs_at(seq, "pai"@, seq![pai]),
        MatchlogEvent::DealerOpening { pai, .. } => lemma_refs_at(seq, "pai"@, seq![pai]),
        MatchlogEvent::DealerOpeningDahai { pai, .. } => lemma_refs_at(seq, "pai"@, seq![pai]),
        MatchlogEvent::Dora { marker, .. } => lemma_refs_at(seq, "dora.marker"@, seq![marker]),
        MatchlogEvent::Hora(b) => lemma_hora_at(seq, *b, seats),
        MatchlogEvent::Ryukyoku(b) => lemma_hands_at(seq, b.concealed@),
        _ => {},
    }
    assert(all_at(body_faults(seq, ev, seats), seq));
}

proof fn lemma_stream(events: Seq<MatchlogEvent>, seats: usize, x: Fault)
    ensures
        stream_faults(events, seats).contains(x) <==> exists|i: int|
            0 <= i < events.len() && event_faults(i as usize, #[trigger] events[i], seats).contains(x),
    decreases events.len(),
{
    if events.len() > 0 {
        let r = events.drop_last();
        let n = events.len() - 1;
        lemma_stream(r, seats, x);
        lemma_in_sum(stream_faults(r, seats), event_faults(n as usize, events.last(), seats), x);
        if stream_faults(r, seats).contains(x) {
            let i = choose|i: int| 0 <= i < r.len() && event_faults(i as usize, #[trigger] r[i], seats).contains(x);
            assert(events[i] == r[i]);
        }
        if event_faults(n as usize, events.last(), seats).contains(x) {
            assert(events[n] == events.last());
        }
        if exists|i: int| 0 <= i < events.len() && event_faults(i as usize, #[trigger] events[i], seats).contains(x) {
            let i = choose|i: int|
                0 <= i < events.len() && event_faults(i as usize, #[trigger] events[i], seats).contains(x);
            if i < n {
                assert(r[i] == events[i]);
            }
        }
    }
}

/// A log with a header has the violations of its header and those of each of its events at its place,
/// by the number of seats that the header names.
pub proof fn logs_have_the_faults_of_their_events(events: Seq<MatchlogEvent>, x: Fault)
    requires
        events.len() > 0,
        events[0] is StartMatch,
    ensures
        log_faults(events).contains(x) <==> header_faults(events[0]).contains(x) || exists|i: int|
            0 <= i < events.len() && event_faults(
                i as usize,
                #[trigger] events[i],
                events[0]->StartMatch_seats as usize,
            ).contains(x),
{
    let seats = events[0]->StartMatch_seats as usize;
    lemma_stream(events, seats, x);
    lemma_in_sum(header_faults(events[0]), stream_faults(events, seats), x);
}

} // verus!
