//! Invariant checks of a match log: widths, meld shapes, disjoint tile sets, seat counts and
//! yaku tables. They run after reading, as the schema cannot express them.

use vstd::prelude::*;
use vstd::string::*;
use crate::event::matchlog::event::{HoraBody, MatchlogEvent, RyukyokuBody};
use crate::event::matchlog::types::{fingerprint_of, profile_fingerprint, MatchlogMeld, TileRef, MATCHLOG_SCHEMA};
use crate::text::{dec, dec_i128, dec_int, dec_usize, join2, join3, owned, same};

verus! {

/// An invariant violation.
#[derive(Debug, PartialEq, Eq)]
pub struct Violation {
    /// Index of the event in the stream, none for the stream as a whole.
    pub seq: Option<usize>,
    pub code: &'static str,
    pub detail: String,
}

/// What a violation says.
pub struct Fault {
    pub seq: Option<usize>,
    pub code: Seq<char>,
    pub detail: Seq<char>,
}

impl View for Violation {
    type V = Fault;

    open spec fn view(&self) -> Fault {
        Fault { seq: self.seq, code: self.code@, detail: self.detail@ }
    }
}

pub open spec fn faults(v: Seq<Violation>) -> Seq<Fault> {
    v.map_values(|x: Violation| x@)
}

/// One fault where a condition holds, else none.
pub open spec fn fault_if(cond: bool, seq: usize, code: Seq<char>, detail: Seq<char>) -> Seq<Fault> {
    if cond { seq![Fault { seq: Some(seq), code, detail }] } else { Seq::empty() }
}

pub open spec fn width_faults(seq: usize, name: Seq<char>, got: nat, seats: nat) -> Seq<Fault> {
    fault_if(
        got != seats,
        seq,
        "width_mismatch"@,
        name + " length "@ + dec(got) + " != seats "@ + dec(seats),
    )
}

pub open spec fn sum_of(v: Seq<i32>) -> int
    decreases v.len(),
{
    if v.len() == 0 { 0 } else { sum_of(v.drop_last()) + v.last() }
}

pub open spec fn sum_faults(seq: usize, name: Seq<char>, v: Seq<i32>) -> Seq<Fault> {
    fault_if(sum_of(v) != 0, seq, "not_zero_sum"@, name + " sums to "@ + dec_int(sum_of(v)) + ", expected 0"@)
}

/// An optional number in words.
pub open spec fn option_text(x: Option<u8>) -> Seq<char> {
    match x {
        Some(n) => "Some("@ + dec(n as nat) + ")"@,
        None => "None"@,
    }
}

pub open spec fn ref_faults(seq: usize, name: Seq<char>, r: TileRef) -> Seq<Fault> {
    fault_if(
        !r.is_consistent(),
        seq,
        "tile_id_inconsistent"@,
        name + ": physical_id "@ + option_text(r.physical_id) + " is inconsistent with tile "@ + r.tile.spec_name(),
    )
}

pub open spec fn refs_faults(seq: usize, name: Seq<char>, refs: Seq<TileRef>) -> Seq<Fault>
    decreases refs.len(),
{
    if refs.len() == 0 { Seq::empty() } else { refs_faults(seq, name, refs.drop_last()) + ref_faults(seq, name, refs.last()) }
}

/// The tiles of a meld.
pub open spec fn refs_of_meld(m: MatchlogMeld) -> Seq<TileRef> {
    match m.claimed {
        Some(c) => m.consumed@.push(c),
        None => m.consumed@,
    }
}

pub open spec fn meld_faults(seq: usize, name: Seq<char>, m: MatchlogMeld, seats: usize) -> Seq<Fault> {
    fault_if(
        !m.spec_shape_is_valid(seats),
        seq,
        "meld_shape_invalid"@,
        m.kind.spec_name() + " violates the meld shape invariant"@,
    ) + refs_faults(seq, name, refs_of_meld(m))
}

pub open spec fn melds_faults(seq: usize, name: Seq<char>, melds: Seq<MatchlogMeld>, seats: usize) -> Seq<Fault>
    decreases melds.len(),
{
    if melds.len() == 0 {
        Seq::empty()
    } else {
        melds_faults(seq, name, melds.drop_last(), seats) + meld_faults(seq, name, melds.last(), seats)
    }
}

/// Yaku IDs above 54.
pub open spec fn id_faults(seq: usize, v: Seq<(u8, u8)>) -> Seq<Fault>
    decreases v.len(),
{
    if v.len() == 0 {
        Seq::empty()
    } else {
        id_faults(seq, v.drop_last()) + fault_if(
            v.last().0 > 54,
            seq,
            "yaku_id_out_of_range"@,
            "yaku id "@ + dec(v.last().0 as nat) + " > 54"@,
        )
    }
}

/// Dora among the yaku.
pub open spec fn dora_faults(seq: usize, v: Seq<(u8, u8)>) -> Seq<Fault>
    decreases v.len(),
{
    if v.len() == 0 {
        Seq::empty()
    } else {
        dora_faults(seq, v.drop_last()) + fault_if(
            52 <= v.last().0 <= 54,
            seq,
            "dora_in_yaku_table"@,
            "dora yaku id "@ + dec(v.last().0 as nat) + " belongs in dora_han and related fields"@,
        )
    }
}

/// A physical tile and the set it was found in.
pub struct Place {
    pub id: u8,
    pub name: Seq<char>,
}

/// The physical tiles of a list.
pub open spec fn places_of(refs: Seq<TileRef>, name: Seq<char>) -> Seq<Place>
    decreases refs.len(),
{
    if refs.len() == 0 {
        Seq::empty()
    } else {
        match refs.last().physical_id {
            Some(id) => places_of(refs.drop_last(), name).push(Place { id, name }),
            None => places_of(refs.drop_last(), name),
        }
    }
}

pub open spec fn places_of_melds(melds: Seq<MatchlogMeld>) -> Seq<Place>
    decreases melds.len(),
{
    if melds.len() == 0 {
        Seq::empty()
    } else {
        places_of_melds(melds.drop_last()) + places_of(refs_of_meld(melds.last()), "melds"@)
    }
}

/// The last set in which a physical tile was found.
pub open spec fn last_place(s: Seq<Place>, id: u8) -> Option<Seq<char>>
    decreases s.len(),
{
    if s.len() == 0 { None } else if s.last().id == id { Some(s.last().name) } else { last_place(s.drop_last(), id) }
}

/// A physical tile found again.
pub open spec fn overlap_fault(seq: usize, before: Seq<Place>, p: Place) -> Seq<Fault> {
    match last_place(before, p.id) {
        Some(prev) => seq![
            Fault {
                seq: Some(seq),
                code: "tile_sets_overlap"@,
                detail: "physical tile "@ + dec(p.id as nat) + " appears in both "@ + prev + " and "@ + p.name,
            },
        ],
        None => Seq::empty(),
    }
}

pub open spec fn overlap_faults(seq: usize, s: Seq<Place>) -> Seq<Fault>
    decreases s.len(),
{
    if s.len() == 0 { Seq::empty() } else { overlap_faults(seq, s.drop_last()) + overlap_fault(seq, s.drop_last(), s.last()) }
}

/// The physical tiles of a win: the winning tile, the concealed tiles, the melds.
pub open spec fn hora_places(b: HoraBody) -> Seq<Place> {
    places_of(seq![b.machi], "machi"@) + places_of(b.concealed@, "concealed"@) + places_of_melds(b.melds@)
}

/// What is wrong with the settlement of a win.
pub open spec fn hora_faults(seq: usize, b: HoraBody, seats: usize) -> Seq<Fault> {
    width_faults(seq, "hora.base_deltas"@, b.base_deltas@.len(), seats as nat)
        + width_faults(seq, "hora.honba_deltas"@, b.honba_deltas@.len(), seats as nat)
        + width_faults(seq, "hora.kyotaku_deltas"@, b.kyotaku_deltas@.len(), seats as nat)
        + sum_faults(seq, "hora.base_deltas"@, b.base_deltas@)
        + sum_faults(seq, "hora.honba_deltas"@, b.honba_deltas@)
        + fault_if(
        sum_of(b.kyotaku_deltas@) < 0,
        seq,
        "kyotaku_negative"@,
        "riichi sticks only flow from the pool to the winner; the sum must not be negative"@,
    ) + fault_if(
        b.yakuman@.len() > 0 && b.normal@.len() > 0,
        seq,
        "yaku_tables_overlap"@,
        "normal must be empty when yakuman is non-empty"@,
    ) + id_faults(seq, b.normal@) + id_faults(seq, b.yakuman@) + dora_faults(seq, b.normal@) + melds_faults(
        seq,
        "hora.melds"@,
        b.melds@,
        seats,
    ) + refs_faults(seq, "hora.concealed"@, b.concealed@) + refs_faults(seq, "hora.machi"@, seq![b.machi])
        + refs_faults(seq, "hora.ura_markers"@, b.ura_markers@) + overlap_faults(seq, hora_places(b)) + fault_if(
        b.winner >= seats || b.from >= seats,
        seq,
        "seat_out_of_range"@,
        "winner / from out of range"@,
    ) + fault_if(b.pao is Some && b.pao->0 >= seats, seq, "seat_out_of_range"@, "pao out of range"@)
}

pub open spec fn hands_faults(seq: usize, hands: Seq<Option<Vec<TileRef>>>) -> Seq<Fault>
    decreases hands.len(),
{
    if hands.len() == 0 {
        Seq::empty()
    } else {
        hands_faults(seq, hands.drop_last()) + match hands.last() {
            Some(h) => refs_faults(seq, "ryukyoku.concealed"@, h@),
            None => Seq::empty(),
        }
    }
}

/// What is wrong with the settlement of a draw.
pub open spec fn ryukyoku_faults(seq: usize, b: RyukyokuBody, seats: usize) -> Seq<Fault> {
    width_faults(seq, "ryukyoku.tenpai_mask"@, b.tenpai_mask@.len(), seats as nat)
        + width_faults(seq, "ryukyoku.concealed"@, b.concealed@.len(), seats as nat)
        + width_faults(seq, "ryukyoku.base_deltas"@, b.base_deltas@.len(), seats as nat)
        + width_faults(seq, "ryukyoku.honba_deltas"@, b.honba_deltas@.len(), seats as nat)
        + sum_faults(seq, "ryukyoku.base_deltas"@, b.base_deltas@)
        + sum_faults(seq, "ryukyoku.honba_deltas"@, b.honba_deltas@)
        + fault_if(
        !b.kind.possible_with(seats),
        seq,
        "ryukyoku_kind_impossible"@,
        b.kind.spec_name() + " cannot occur with "@ + dec(seats as nat) + " players"@,
    ) + hands_faults(seq, b.concealed@)
}

pub open spec fn haipai_faults(seq: usize, hands: Seq<Vec<TileRef>>) -> Seq<Fault>
    decreases hands.len(),
{
    if hands.len() == 0 {
        Seq::empty()
    } else {
        haipai_faults(seq, hands.drop_last()) + fault_if(
            hands.last()@.len() != 13,
            seq,
            "haipai_size"@,
            dec(hands.last()@.len()) + " starting tiles, expected 13"@,
        ) + refs_faults(seq, "start_kyoku.haipai"@, hands.last()@)
    }
}

/// What is wrong with the body of an event.
pub open spec fn body_faults(seq: usize, ev: MatchlogEvent, seats: usize) -> Seq<Fault> {
    match ev {
        MatchlogEvent::StartMatch { .. } => fault_if(
            seq != 0,
            seq,
            "duplicate_start_match"@,
            "start_match may only appear at the start of the stream"@,
        ),
        MatchlogEvent::StartKyoku { scores, haipai, dora_marker, .. } => width_faults(
            seq,
            "start_kyoku.scores"@,
            scores@.len(),
            seats as nat,
        ) + width_faults(seq, "start_kyoku.haipai"@, haipai@.len(), seats as nat) + haipai_faults(seq, haipai@)
            + refs_faults(seq, "start_kyoku.dora_marker"@, seq![dora_marker]),
        MatchlogEvent::Call { meld, .. } => meld_faults(seq, "call.meld"@, meld, seats),
        MatchlogEvent::Tsumo { pai, .. } => refs_faults(seq, "pai"@, seq![pai]),
        MatchlogEvent::Dahai { pai, .. } => refs_faults(seq, "pai"@, seq![pai]),
        MatchlogEvent::DealerOpening { pai, .. } => refs_faults(seq, "pai"@, seq![pai]),
        MatchlogEvent::DealerOpeningDahai { pai, .. } => refs_faults(seq, "pai"@, seq![pai]),
        MatchlogEvent::Dora { marker, .. } => refs_faults(seq, "dora.marker"@, seq![marker]),
        MatchlogEvent::Hora(body) => hora_faults(seq, *body, seats),
        MatchlogEvent::Ryukyoku(body) => ryukyoku_faults(seq, *body, seats),
        MatchlogEvent::MatchEnd { final_scores, rank_points } => width_faults(
            seq,
            "match_end.final_scores"@,
            final_scores@.len(),
            seats as nat,
        ) + match rank_points {
            Some(rp) => width_faults(seq, "match_end.rank_points"@, rp@.len(), seats as nat),
            None => Seq::empty(),
        },
        _ => Seq::empty(),
    }
}

/// The seats that an event names.
pub open spec fn seats_of(ev: MatchlogEvent) -> Seq<u8> {
    match ev {
        MatchlogEvent::Tsumo { actor, .. } => seq![actor],
        MatchlogEvent::Dahai { actor, .. } => seq![actor],
        MatchlogEvent::DealerOpening { actor, .. } => seq![actor],
        MatchlogEvent::DealerOpeningDahai { actor, .. } => seq![actor],
        MatchlogEvent::KyuushuDeclare { actor } => seq![actor],
        MatchlogEvent::ReachAccepted { actor } => seq![actor],
        MatchlogEvent::Call { actor, meld } => match meld.from {
            Some(f) => seq![actor, f],
            None => seq![actor],
        },
        MatchlogEvent::StartKyoku { oya, .. } => seq![oya],
        MatchlogEvent::PlatformDisconnect { seat } => seq![seat],
        MatchlogEvent::PlatformReconnect { seat } => seq![seat],
        _ => Seq::empty(),
    }
}

pub open spec fn seats_faults(seq: usize, named: Seq<u8>, seats: usize) -> Seq<Fault>
    decreases named.len(),
{
    if named.len() == 0 {
        Seq::empty()
    } else {
        seats_faults(seq, named.drop_last(), seats) + fault_if(
            named.last() >= seats,
            seq,
            "seat_out_of_range"@,
            "seat "@ + dec(named.last() as nat) + " out of range"@,
        )
    }
}

pub open spec fn event_faults(seq: usize, ev: MatchlogEvent, seats: usize) -> Seq<Fault> {
    body_faults(seq, ev, seats) + seats_faults(seq, seats_of(ev), seats)
}

pub open spec fn stream_faults(events: Seq<MatchlogEvent>, seats: usize) -> Seq<Fault>
    decreases events.len(),
{
    if events.len() == 0 {
        Seq::empty()
    } else {
        stream_faults(events.drop_last(), seats) + event_faults((events.len() - 1) as usize, events.last(), seats)
    }
}

/// What is wrong with the header.
pub open spec fn header_faults(head: MatchlogEvent) -> Seq<Fault> {
    match head {
        MatchlogEvent::StartMatch { schema, seats, rule_profile, profile_fingerprint, settlement_profile, .. } => fault_if(
            schema@ != MATCHLOG_SCHEMA@,
            0,
            "schema_mismatch"@,
            "unknown schema "@ + schema@,
        ) + fault_if(seats != 3 && seats != 4, 0, "seats_out_of_range"@, "seats = "@ + dec(seats as nat)) + fault_if(
            profile_fingerprint@ != fingerprint_of(rule_profile),
            0,
            "fingerprint_mismatch"@,
            "declared "@ + profile_fingerprint@ + ", computed "@ + fingerprint_of(rule_profile),
        ) + match settlement_profile {
            Some(sp) => fault_if(
                sp.rank_points@.len() != seats,
                0,
                "width_mismatch"@,
                "settlement_profile.rank_points length "@ + dec(sp.rank_points@.len()) + " != seats "@ + dec(
                    seats as nat,
                ),
            ),
            None => Seq::empty(),
        },
        _ => Seq::empty(),
    }
}

/// Everything that is wrong with a match log.
pub open spec fn log_faults(events: Seq<MatchlogEvent>) -> Seq<Fault> {
    if events.len() > 0 && events[0] is StartMatch {
        header_faults(events[0]) + stream_faults(events, events[0]->StartMatch_seats as usize)
    } else {
        seq![
            Fault {
                seq: None,
                code: "missing_start_match"@,
                detail: "the first event must be start_match (header)"@,
            },
        ]
    }
}

// Checks.

fn report(cond: bool, seq: usize, code: &'static str, detail: String, out: &mut Vec<Violation>)
    ensures
        faults(final(out)@) == faults(old(out)@) + fault_if(cond, seq, code@, detail@),
{
    let ghost before = out@;
    if cond {
        out.push(Violation { seq: Some(seq), code, detail });
    }
    assert(faults(out@) =~= faults(before) + fault_if(cond, seq, code@, detail@));
}

fn width(seq: usize, name: &'static str, got: usize, seats: usize, out: &mut Vec<Violation>)
    ensures
        faults(final(out)@) == faults(old(out)@) + width_faults(seq, name@, got as nat, seats as nat),
{
    let mut detail = join2(name, " length ");
    detail.append(dec_usize(got).as_str());
    detail.append(" != seats ");
    detail.append(dec_usize(seats).as_str());
    report(got != seats, seq, "width_mismatch", detail, out);
}

fn sum(v: &Vec<i32>) -> (r: i128)
    ensures
        r == sum_of(v@),
        r > i128::MIN,
{
    let mut s: i128 = 0;
    let mut i: usize = 0;
    while i < v.len()
        invariant
            i <= v.len(),
            s == sum_of(v@.subrange(0, i as int)),
            -2147483648 * i <= s <= 2147483647 * i,
        decreases v.len() - i,
    {
        assert(v@.subrange(0, i + 1).drop_last() =~= v@.subrange(0, i as int));
        s = s + v[i] as i128;
        i = i + 1;
    }
    assert(v@.subrange(0, i as int) =~= v@);
    s
}

fn zero_sum(seq: usize, name: &'static str, deltas: &Vec<i32>, out: &mut Vec<Violation>)
    ensures
        faults(final(out)@) == faults(old(out)@) + sum_faults(seq, name@, deltas@),
{
    let s: i128 = sum(deltas);
    let mut detail = join2(name, " sums to ");
    detail.append(dec_i128(s).as_str());
    detail.append(", expected 0");
    report(s != 0, seq, "not_zero_sum", detail, out);
}

fn option_str(x: Option<u8>) -> (r: String)
    ensures
        r@ == option_text(x),
{
    match x {
        Some(n) => join3("Some(", dec_usize(n as usize).as_str(), ")"),
        None => owned("None"),
    }
}

fn check_tile_ref(seq: usize, name: &'static str, r: TileRef, out: &mut Vec<Violation>)
    ensures
        faults(final(out)@) == faults(old(out)@) + ref_faults(seq, name@, r),
{
    let mut detail = join2(name, ": physical_id ");
    detail.append(option_str(r.physical_id).as_str());
    detail.append(" is inconsistent with tile ");
    detail.append(r.tile.as_str());
    report(!r.is_consistent(), seq, "tile_id_inconsistent", detail, out);
}

proof fn lemma_one_ref(seq: usize, name: Seq<char>, r: TileRef)
    ensures
        refs_faults(seq, name, seq![r]) == ref_faults(seq, name, r),
{
    reveal_with_fuel(refs_faults, 2);
    assert(seq![r].drop_last() =~= Seq::empty());
    assert(refs_faults(seq, name, seq![r]) =~= ref_faults(seq, name, r));
}

fn check_tile_refs(seq: usize, name: &'static str, refs: &Vec<TileRef>, out: &mut Vec<Violation>)
    ensures
        faults(final(out)@) == faults(old(out)@) + refs_faults(seq, name@, refs@),
{
    let ghost before = faults(out@);
    let mut i: usize = 0;
    assert(before =~= before + refs_faults(seq, name@, refs@.subrange(0, 0)));
    while i < refs.len()
        invariant
            i <= refs.len(),
            faults(out@) == before + refs_faults(seq, name@, refs@.subrange(0, i as int)),
        decreases refs.len() - i,
    {
        let ghost s = refs@.subrange(0, i + 1);
        assert(s.drop_last() =~= refs@.subrange(0, i as int));
        check_tile_ref(seq, name, refs[i], out);
        assert(faults(out@) =~= before + refs_faults(seq, name@, s));
        i = i + 1;
    }
    assert(refs@.subrange(0, i as int) =~= refs@);
}

fn one_ref(seq: usize, name: &'static str, r: TileRef, out: &mut Vec<Violation>)
    ensures
        faults(final(out)@) == faults(old(out)@) + refs_faults(seq, name@, seq![r]),
{
    proof { lemma_one_ref(seq, name@, r); }
    check_tile_ref(seq, name, r, out);
}

fn meld_refs(m: &MatchlogMeld) -> (r: Vec<TileRef>)
    ensures
        r@ == refs_of_meld(*m),
{
    let mut v: Vec<TileRef> = Vec::new();
    let mut i: usize = 0;
    while i < m.consumed.len()
        invariant
            i <= m.consumed.len(),
            v@ == m.consumed@.subrange(0, i as int),
        decreases m.consumed.len() - i,
    {
        v.push(m.consumed[i]);
        assert(v@ =~= m.consumed@.subrange(0, i + 1));
        i = i + 1;
    }
    assert(v@ =~= m.consumed@);
    match m.claimed {
        Some(c) => v.push(c),
        None => {},
    }
    v
}

fn check_meld(seq: usize, name: &'static str, m: &MatchlogMeld, seats: usize, out: &mut Vec<Violation>)
    ensures
        faults(final(out)@) == faults(old(out)@) + meld_faults(seq, name@, *m, seats),
{
    let ghost before = faults(out@);
    let detail = join2(m.kind.name(), " violates the meld shape invariant");
    report(!m.shape_is_valid(seats), seq, "meld_shape_invalid", detail, out);
    check_tile_refs(seq, name, &meld_refs(m), out);
    assert(faults(out@) =~= before + meld_faults(seq, name@, *m, seats));
}

fn check_melds(seq: usize, name: &'static str, melds: &Vec<MatchlogMeld>, seats: usize, out: &mut Vec<Violation>)
    ensures
        faults(final(out)@) == faults(old(out)@) + melds_faults(seq, name@, melds@, seats),
{
    let ghost before = faults(out@);
    let mut i: usize = 0;
    assert(before =~= before + melds_faults(seq, name@, melds@.subrange(0, 0), seats));
    while i < melds.len()
        invariant
            i <= melds.len(),
            faults(out@) == before + melds_faults(seq, name@, melds@.subrange(0, i as int), seats),
        decreases melds.len() - i,
    {
        let ghost s = melds@.subrange(0, i + 1);
        assert(s.drop_last() =~= melds@.subrange(0, i as int));
        check_meld(seq, name, &melds[i], seats, out);
        assert(faults(out@) =~= before + melds_faults(seq, name@, s, seats));
        i = i + 1;
    }
    assert(melds@.subrange(0, i as int) =~= melds@);
}

fn check_ids(seq: usize, v: &Vec<(u8, u8)>, out: &mut Vec<Violation>)
    ensures
        faults(final(out)@) == faults(old(out)@) + id_faults(seq, v@),
{
    let ghost before = faults(out@);
    let mut i: usize = 0;
    assert(before =~= before + id_faults(seq, v@.subrange(0, 0)));
    while i < v.len()
        invariant
            i <= v.len(),
            faults(out@) == before + id_faults(seq, v@.subrange(0, i as int)),
        decreases v.len() - i,
    {
        let ghost s = v@.subrange(0, i + 1);
        assert(s.drop_last() =~= v@.subrange(0, i as int));
        let id: u8 = v[i].0;
        let detail = join3("yaku id ", dec_usize(id as usize).as_str(), " > 54");
        report(id > 54, seq, "yaku_id_out_of_range", detail, out);
        assert(faults(out@) =~= before + id_faults(seq, s));
        i = i + 1;
    }
    assert(v@.subrange(0, i as int) =~= v@);
}

fn check_dora_ids(seq: usize, v: &Vec<(u8, u8)>, out: &mut Vec<Violation>)
    ensures
        faults(final(out)@) == faults(old(out)@) + dora_faults(seq, v@),
{
    let ghost before = faults(out@);
    let mut i: usize = 0;
    assert(before =~= before + dora_faults(seq, v@.subrange(0, 0)));
    while i < v.len()
        invariant
            i <= v.len(),
            faults(out@) == before + dora_faults(seq, v@.subrange(0, i as int)),
        decreases v.len() - i,
    {
        let ghost s = v@.subrange(0, i + 1);
        assert(s.drop_last() =~= v@.subrange(0, i as int));
        let id: u8 = v[i].0;
        let detail = join3(
            "dora yaku id ",
            dec_usize(id as usize).as_str(),
            " belongs in dora_han and related fields",
        );
        report(52 <= id && id <= 54, seq, "dora_in_yaku_table", detail, out);
        assert(faults(out@) =~= before + dora_faults(seq, s));
        i = i + 1;
    }
    assert(v@.subrange(0, i as int) =~= v@);
}

pub open spec fn place_views(s: Seq<(u8, &'static str)>) -> Seq<Place> {
    s.map_values(|p: (u8, &'static str)| Place { id: p.0, name: p.1@ })
}

fn push_places(refs: &Vec<TileRef>, name: &'static str, v: &mut Vec<(u8, &'static str)>)
    ensures
        place_views(final(v)@) == place_views(old(v)@) + places_of(refs@, name@),
{
    let ghost before = place_views(v@);
    let mut i: usize = 0;
    assert(before =~= before + places_of(refs@.subrange(0, 0), name@));
    while i < refs.len()
        invariant
            i <= refs.len(),
            place_views(v@) == before + places_of(refs@.subrange(0, i as int), name@),
        decreases refs.len() - i,
    {
        let ghost s = refs@.subrange(0, i + 1);
        assert(s.drop_last() =~= refs@.subrange(0, i as int));
        match refs[i].physical_id {
            Some(id) => {
                let ghost mid = place_views(v@);
                v.push((id, name));
                assert(place_views(v@) =~= mid.push(Place { id, name: name@ }));
            },
            None => {},
        }
        assert(place_views(v@) =~= before + places_of(s, name@));
        i = i + 1;
    }
    assert(refs@.subrange(0, i as int) =~= refs@);
}

fn push_meld_places(melds: &Vec<MatchlogMeld>, v: &mut Vec<(u8, &'static str)>)
    ensures
        place_views(final(v)@) == place_views(old(v)@) + places_of_melds(melds@),
{
    let ghost before = place_views(v@);
    let mut i: usize = 0;
    assert(before =~= before + places_of_melds(melds@.subrange(0, 0)));
    while i < melds.len()
        invariant
            i <= melds.len(),
            place_views(v@) == before + places_of_melds(melds@.subrange(0, i as int)),
        decreases melds.len() - i,
    {
        let ghost s = melds@.subrange(0, i + 1);
        assert(s.drop_last() =~= melds@.subrange(0, i as int));
        push_places(&meld_refs(&melds[i]), "melds", v);
        assert(place_views(v@) =~= before + places_of_melds(s));
        i = i + 1;
    }
    assert(melds@.subrange(0, i as int) =~= melds@);
}

/// The last set among the first `n` in which a physical tile was found.
fn find_place(v: &Vec<(u8, &'static str)>, n: usize, id: u8) -> (r: Option<&'static str>)
    requires
        n <= v.len(),
    ensures
        match r {
            Some(name) => last_place(place_views(v@).subrange(0, n as int), id) == Some(name@),
            None => last_place(place_views(v@).subrange(0, n as int), id) is None,
        },
{
    let ghost all = place_views(v@);
    let mut i: usize = n;
    while i > 0
        invariant
            i <= n <= v.len(),
            all == place_views(v@),
            last_place(all.subrange(0, n as int), id) == last_place(all.subrange(0, i as int), id),
        decreases i,
    {
        assert(all.subrange(0, i as int).drop_last() =~= all.subrange(0, i - 1));
        if v[i - 1].0 == id {
            return Some(v[i - 1].1);
        }
        i = i - 1;
    }
    None
}

fn check_overlap(seq: usize, v: &Vec<(u8, &'static str)>, out: &mut Vec<Violation>)
    ensures
        faults(final(out)@) == faults(old(out)@) + overlap_faults(seq, place_views(v@)),
{
    let ghost before = faults(out@);
    let ghost all = place_views(v@);
    let mut i: usize = 0;
    assert(before =~= before + overlap_faults(seq, all.subrange(0, 0)));
    while i < v.len()
        invariant
            i <= v.len(),
            all == place_views(v@),
            faults(out@) == before + overlap_faults(seq, all.subrange(0, i as int)),
        decreases v.len() - i,
    {
        let ghost s = all.subrange(0, i + 1);
        let ghost mid = faults(out@);
        assert(s.drop_last() =~= all.subrange(0, i as int));
        match find_place(v, i, v[i].0) {
            Some(prev) => {
                let mut detail = join3("physical tile ", dec_usize(v[i].0 as usize).as_str(), " appears in both ");
                detail.append(prev);
                detail.append(" and ");
                detail.append(v[i].1);
                report(true, seq, "tile_sets_overlap", detail, out);
            },
            None => {},
        }
        assert(faults(out@) =~= mid + overlap_fault(seq, s.drop_last(), s.last()));
        assert(faults(out@) =~= before + overlap_faults(seq, s));
        i = i + 1;
    }
    assert(all.subrange(0, i as int) =~= all);
}

fn check_hora_tables(seq: usize, body: &HoraBody, seats: usize) -> (out: Vec<Violation>)
    ensures
        faults(out@) == width_faults(seq, "hora.base_deltas"@, body.base_deltas@.len(), seats as nat)
            + width_faults(seq, "hora.honba_deltas"@, body.honba_deltas@.len(), seats as nat)
            + width_faults(seq, "hora.kyotaku_deltas"@, body.kyotaku_deltas@.len(), seats as nat)
            + sum_faults(seq, "hora.base_deltas"@, body.base_deltas@)
            + sum_faults(seq, "hora.honba_deltas"@, body.honba_deltas@) + fault_if(
            sum_of(body.kyotaku_deltas@) < 0,
            seq,
            "kyotaku_negative"@,
            "riichi sticks only flow from the pool to the winner; the sum must not be negative"@,
        ) + fault_if(
            body.yakuman@.len() > 0 && body.normal@.len() > 0,
            seq,
            "yaku_tables_overlap"@,
            "normal must be empty when yakuman is non-empty"@,
        ) + id_faults(seq, body.normal@) + id_faults(seq, body.yakuman@) + dora_faults(seq, body.normal@),
{
    let mut v: Vec<Violation> = Vec::new();
    let out = &mut v;
    width(seq, "hora.base_deltas", body.base_deltas.len(), seats, out);
    assert(faults(out@) =~= width_faults(seq, "hora.base_deltas"@, body.base_deltas@.len(), seats as nat));
    width(seq, "hora.honba_deltas", body.honba_deltas.len(), seats, out);
    width(seq, "hora.kyotaku_deltas", body.kyotaku_deltas.len(), seats, out);
    zero_sum(seq, "hora.base_deltas", &body.base_deltas, out);
    zero_sum(seq, "hora.honba_deltas", &body.honba_deltas, out);
    report(
        sum(&body.kyotaku_deltas) < 0,
        seq,
        "kyotaku_negative",
        owned("riichi sticks only flow from the pool to the winner; the sum must not be negative"),
        out,
    );
    report(
        body.yakuman.len() > 0 && body.normal.len() > 0,
        seq,
        "yaku_tables_overlap",
        owned("normal must be empty when yakuman is non-empty"),
        out,
    );
    check_ids(seq, &body.normal, out);
    check_ids(seq, &body.yakuman, out);
    check_dora_ids(seq, &body.normal, out);
    v
}

fn check_hora(seq: usize, body: &HoraBody, seats: usize, out: &mut Vec<Violation>)
    ensures
        faults(final(out)@) == faults(old(out)@) + hora_faults(seq, *body, seats),
{
    let ghost before = faults(out@);
    let mut v = check_hora_tables(seq, body, seats);
    check_melds(seq, "hora.melds", &body.melds, seats, &mut v);
    check_tile_refs(seq, "hora.concealed", &body.concealed, &mut v);
    one_ref(seq, "hora.machi", body.machi, &mut v);
    check_tile_refs(seq, "hora.ura_markers", &body.ura_markers, &mut v);
    let mut places: Vec<(u8, &'static str)> = Vec::new();
    let machi: Vec<TileRef> = vec![body.machi];
    assert(machi@ =~= seq![body.machi]);
    push_places(&machi, "machi", &mut places);
    assert(place_views(places@) =~= places_of(seq![body.machi], "machi"@));
    push_places(&body.concealed, "concealed", &mut places);
    push_meld_places(&body.melds, &mut places);
    check_overlap(seq, &places, &mut v);
    report(
        body.winner as usize >= seats || body.from as usize >= seats,
        seq,
        "seat_out_of_range",
        owned("winner / from out of range"),
        &mut v,
    );
    let pao_out = match body.pao {
        Some(pao) => pao as usize >= seats,
        None => false,
    };
    report(pao_out, seq, "seat_out_of_range", owned("pao out of range"), &mut v);
    assert(faults(v@) == hora_faults(seq, *body, seats));
    join_reports(out, v);
}

fn join_reports(out: &mut Vec<Violation>, v: Vec<Violation>)
    ensures
        faults(final(out)@) == faults(old(out)@) + faults(v@),
{
    let ghost a = out@;
    let ghost b = v@;
    let mut w = v;
    out.append(&mut w);
    assert(faults(out@) =~= faults(a) + faults(b));
}

fn check_hands(seq: usize, hands: &Vec<Option<Vec<TileRef>>>, out: &mut Vec<Violation>)
    ensures
        faults(final(out)@) == faults(old(out)@) + hands_faults(seq, hands@),
{
    let ghost before = faults(out@);
    let mut i: usize = 0;
    assert(before =~= before + hands_faults(seq, hands@.subrange(0, 0)));
    while i < hands.len()
        invariant
            i <= hands.len(),
            faults(out@) == before + hands_faults(seq, hands@.subrange(0, i as int)),
        decreases hands.len() - i,
    {
        let ghost s = hands@.subrange(0, i + 1);
        assert(s.drop_last() =~= hands@.subrange(0, i as int));
        match &hands[i] {
            Some(h) => check_tile_refs(seq, "ryukyoku.concealed", h, out),
            None => {},
        }
        assert(faults(out@) =~= before + hands_faults(seq, s));
        i = i + 1;
    }
    assert(hands@.subrange(0, i as int) =~= hands@);
}

fn check_ryukyoku(seq: usize, body: &RyukyokuBody, seats: usize, out: &mut Vec<Violation>)
    ensures
        faults(final(out)@) == faults(old(out)@) + ryukyoku_faults(seq, *body, seats),
{
    let mut v: Vec<Violation> = Vec::new();
    width(seq, "ryukyoku.tenpai_mask", body.tenpai_mask.len(), seats, &mut v);
    assert(faults(v@) =~= width_faults(seq, "ryukyoku.tenpai_mask"@, body.tenpai_mask@.len(), seats as nat));
    width(seq, "ryukyoku.concealed", body.concealed.len(), seats, &mut v);
    width(seq, "ryukyoku.base_deltas", body.base_deltas.len(), seats, &mut v);
    width(seq, "ryukyoku.honba_deltas", body.honba_deltas.len(), seats, &mut v);
    zero_sum(seq, "ryukyoku.base_deltas", &body.base_deltas, &mut v);
    zero_sum(seq, "ryukyoku.honba_deltas", &body.honba_deltas, &mut v);
    let mut detail = join3(body.kind.name(), " cannot occur with ", dec_usize(seats).as_str());
    detail.append(" players");
    report(!body.kind.possible_with(seats), seq, "ryukyoku_kind_impossible", detail, &mut v);
    check_hands(seq, &body.concealed, &mut v);
    join_reports(out, v);
}

fn check_haipai(seq: usize, hands: &Vec<Vec<TileRef>>, out: &mut Vec<Violation>)
    ensures
        faults(final(out)@) == faults(old(out)@) + haipai_faults(seq, hands@),
{
    let ghost before = faults(out@);
    let mut i: usize = 0;
    assert(before =~= before + haipai_faults(seq, hands@.subrange(0, 0)));
    while i < hands.len()
        invariant
            i <= hands.len(),
            faults(out@) == before + haipai_faults(seq, hands@.subrange(0, i as int)),
        decreases hands.len() - i,
    {
        let ghost s = hands@.subrange(0, i + 1);
        assert(s.drop_last() =~= hands@.subrange(0, i as int));
        let n: usize = hands[i].len();
        let detail = join2(dec_usize(n).as_str(), " starting tiles, expected 13");
        report(n != 13, seq, "haipai_size", detail, out);
        check_tile_refs(seq, "start_kyoku.haipai", &hands[i], out);
        assert(faults(out@) =~= before + haipai_faults(seq, s));
        i = i + 1;
    }
    assert(hands@.subrange(0, i as int) =~= hands@);
}

fn event_seats(ev: &MatchlogEvent) -> (v: Vec<u8>)
    ensures
        v@ == seats_of(*ev),
{
    let v: Vec<u8> = match ev {
        MatchlogEvent::Tsumo { actor, .. }
        | MatchlogEvent::Dahai { actor, .. }
        | MatchlogEvent::DealerOpening { actor, .. }
        | MatchlogEvent::DealerOpeningDahai { actor, .. }
        | MatchlogEvent::KyuushuDeclare { actor }
        | MatchlogEvent::ReachAccepted { actor } => vec![*actor],
        MatchlogEvent::Call { actor, meld } => match meld.from {
            Some(f) => vec![*actor, f],
            None => vec![*actor],
        },
        MatchlogEvent::StartKyoku { oya, .. } => vec![*oya],
        MatchlogEvent::PlatformDisconnect { seat } | MatchlogEvent::PlatformReconnect { seat } => vec![*seat],
        _ => Vec::new(),
    };
    assert(v@ =~= seats_of(*ev));
    v
}

fn check_seats(seq: usize, named: &Vec<u8>, seats: usize, out: &mut Vec<Violation>)
    ensures
        faults(final(out)@) == faults(old(out)@) + seats_faults(seq, named@, seats),
{
    let ghost before = faults(out@);
    let mut i: usize = 0;
    assert(before =~= before + seats_faults(seq, named@.subrange(0, 0), seats));
    while i < named.len()
        invariant
            i <= named.len(),
            faults(out@) == before + seats_faults(seq, named@.subrange(0, i as int), seats),
        decreases named.len() - i,
    {
        let ghost s = named@.subrange(0, i + 1);
        assert(s.drop_last() =~= named@.subrange(0, i as int));
        let seat: u8 = named[i];
        let detail = join3("seat ", dec_usize(seat as usize).as_str(), " out of range");
        report(seat as usize >= seats, seq, "seat_out_of_range", detail, out);
        assert(faults(out@) =~= before + seats_faults(seq, s, seats));
        i = i + 1;
    }
    assert(named@.subrange(0, i as int) =~= named@);
}

fn check_body(seq: usize, ev: &MatchlogEvent, seats: usize, out: &mut Vec<Violation>)
    ensures
        faults(final(out)@) == faults(old(out)@) + body_faults(seq, *ev, seats),
{
    let ghost before = faults(out@);
    match ev {
        MatchlogEvent::StartMatch { .. } => {
            report(
                seq != 0,
                seq,
                "duplicate_start_match",
                owned("start_match may only appear at the start of the stream"),
                out,
            );
        },
        MatchlogEvent::StartKyoku { scores, haipai, dora_marker, .. } => {
            width(seq, "start_kyoku.scores", scores.len(), seats, out);
            width(seq, "start_kyoku.haipai", haipai.len(), seats, out);
            check_haipai(seq, haipai, out);
            one_ref(seq, "start_kyoku.dora_marker", *dora_marker, out);
            assert(faults(out@) =~= before + body_faults(seq, *ev, seats));
        },
        MatchlogEvent::Call { meld, .. } => {
            check_meld(seq, "call.meld", meld, seats, out);
        },
        MatchlogEvent::Tsumo { pai, .. }
        | MatchlogEvent::Dahai { pai, .. }
        | MatchlogEvent::DealerOpening { pai, .. }
        | MatchlogEvent::DealerOpeningDahai { pai, .. } => {
            one_ref(seq, "pai", *pai, out);
        },
        MatchlogEvent::Dora { marker, .. } => {
            one_ref(seq, "dora.marker", *marker, out);
        },
        MatchlogEvent::Hora(body) => {
            check_hora(seq, body, seats, out);
        },
        MatchlogEvent::Ryukyoku(body) => {
            check_ryukyoku(seq, body, seats, out);
        },
        MatchlogEvent::MatchEnd { final_scores, rank_points } => {
            width(seq, "match_end.final_scores", final_scores.len(), seats, out);
            match rank_points {
                Some(rp) => {
                    width(seq, "match_end.rank_points", rp.len(), seats, out);
                },
                None => {},
            }
            assert(faults(out@) =~= before + body_faults(seq, *ev, seats));
        },
        _ => {
            assert(faults(out@) =~= before + body_faults(seq, *ev, seats));
        },
    }
}

fn check_header(head: &MatchlogEvent) -> (out: Vec<Violation>)
    requires
        *head is StartMatch,
    ensures
        faults(out@) == header_faults(*head),
{
    let mut out: Vec<Violation> = Vec::new();
    if let MatchlogEvent::StartMatch {
        schema,
        seats,
        rule_profile,
        profile_fingerprint: declared,
        settlement_profile,
        ..
    } = head {
        let n: usize = *seats as usize;
        report(
            !same(schema.as_str(), MATCHLOG_SCHEMA),
            0,
            "schema_mismatch",
            join2("unknown schema ", schema.as_str()),
            &mut out,
        );
        assert(faults(out@) =~= fault_if(schema@ != MATCHLOG_SCHEMA@, 0, "schema_mismatch"@, "unknown schema "@ + schema@));
        report(
            !matches!(n, 3 | 4),
            0,
            "seats_out_of_range",
            join2("seats = ", dec_usize(n).as_str()),
            &mut out,
        );
        let want = profile_fingerprint(rule_profile);
        let mut detail = join3("declared ", declared.as_str(), ", computed ");
        detail.append(want.as_str());
        report(!same(declared.as_str(), want.as_str()), 0, "fingerprint_mismatch", detail, &mut out);
        let ghost mid = faults(out@);
        match settlement_profile {
            Some(sp) => {
                let mut detail = join3(
                    "settlement_profile.rank_points length ",
                    dec_usize(sp.rank_points.len()).as_str(),
                    " != seats ",
                );
                detail.append(dec_usize(n).as_str());
                report(!sp.is_valid_for(n), 0, "width_mismatch", detail, &mut out);
            },
            None => {
                assert(mid =~= mid + Seq::<Fault>::empty());
            },
        }
    }
    out
}

/// Checks all invariants and returns every violation, without stopping at the first one. The
/// number of seats comes from the header; a missing header is the only violation reported.
pub fn validate(events: &[MatchlogEvent]) -> (r: Vec<Violation>)
    ensures
        faults(r@) == log_faults(events@),
{
    let seats: usize = match first_seats(events) {
        Some(n) => n,
        None => {
            let mut out: Vec<Violation> = Vec::new();
            out.push(
                Violation {
                    seq: None,
                    code: "missing_start_match",
                    detail: owned("the first event must be start_match (header)"),
                },
            );
            assert(faults(out@) =~= log_faults(events@));
            return out;
        },
    };
    let mut out = check_header(&events[0]);
    let ghost head = faults(out@);
    let mut seq: usize = 0;
    assert(head =~= head + stream_faults(events@.subrange(0, 0), seats));
    while seq < events.len()
        invariant
            seq <= events.len(),
            faults(out@) == head + stream_faults(events@.subrange(0, seq as int), seats),
        decreases events.len() - seq,
    {
        let ghost s = events@.subrange(0, seq + 1);
        assert(s.drop_last() =~= events@.subrange(0, seq as int));
        check_body(seq, &events[seq], seats, &mut out);
        check_seats(seq, &event_seats(&events[seq]), seats, &mut out);
        assert(faults(out@) =~= head + stream_faults(s, seats));
        seq = seq + 1;
    }
    assert(events@.subrange(0, seq as int) =~= events@);
    out
}

/// Seats of the header, if the stream begins with one.
fn first_seats(events: &[MatchlogEvent]) -> (r: Option<usize>)
    ensures
        match r {
            Some(n) => events@.len() > 0 && events@[0] is StartMatch && n == events@[0]->StartMatch_seats,
            None => !(events@.len() > 0 && events@[0] is StartMatch),
        },
{
    if events.len() == 0 {
        return None;
    }
    match &events[0] {
        MatchlogEvent::StartMatch { seats, .. } => Some(*seats as usize),
        _ => None,
    }
}

/// A stream without a header gets exactly one violation, whatever else it holds.
pub proof fn missing_header_is_the_only_fault(events: Seq<MatchlogEvent>)
    requires
        events.len() == 0 || !(events[0] is StartMatch),
    ensures
        log_faults(events).len() == 1,
        log_faults(events)[0].seq is None,
{
}

/// A longer stream has all the violations of a shorter one: checking never stops early.
pub proof fn faults_accumulate(events: Seq<MatchlogEvent>, ev: MatchlogEvent)
    requires
        events.len() > 0,
        events[0] is StartMatch,
    ensures
        log_faults(events.push(ev)) == log_faults(events) + event_faults(
            events.len() as usize,
            ev,
            events[0]->StartMatch_seats as usize,
        ),
{
    assert(events.push(ev).drop_last() =~= events);
    assert(log_faults(events.push(ev)) =~= log_faults(events) + event_faults(
        events.len() as usize, ev, events[0]->StartMatch_seats as usize));
}

} // verus!
