//! What the command line prints.

use vstd::prelude::*;
use vstd::string::*;
use crate::cli::selfplay::{seats_list, seats_text};
use crate::inference::registry::scan::SmokeSummary;
use crate::mahjong::tile::{quote, quoted};
use crate::mahjong::yaku::Yaku;
use crate::text::{
    dec, dec_i64, dec_int, dec_u64, dec_usize, hex_number, hex_text, join2, join3, join_all, joined, list_of,
    list_text, owned, pad_left, pad_right, padded_left, padded_right, texts,
};

verus! {

// The result of a hand.

/// A win, as far as it is printed.
#[derive(Debug)]
pub struct WinReport {
    pub winner: u8,
    pub from: Option<u8>,
    pub yaku: Vec<(Yaku, u8)>,
    pub yakuman: u8,
    pub han: u8,
    pub dora_han: u8,
    pub fu: u8,
    pub ron: i32,
    pub tsumo_oya: i32,
    pub tsumo_ko: i32,
}

/// How a hand ended, as far as it is printed.
#[derive(Debug)]
pub enum HandResult {
    Win(WinReport),
    Wins(Vec<u8>, Option<u8>),
    Exhausted(Vec<u8>),
    NagashiMangan(Vec<u8>, Vec<u8>),
    /// Why the hand was broken off.
    Abortive(String),
}

pub open spec fn seat_option(s: Option<u8>) -> Seq<char> {
    match s {
        Some(n) => "Some("@ + dec(n as nat) + ")"@,
        None => "None"@,
    }
}

/// How a win came about.
pub open spec fn how_won(from: Option<u8>) -> Seq<char> {
    match from {
        Some(f) => "ron (from seat "@ + dec(f as nat) + ")"@,
        None => "tsumo"@,
    }
}

pub open spec fn yaku_texts(v: Seq<(Yaku, u8)>) -> Seq<Seq<char>> {
    Seq::new(v.len(), |i: int| v[i].0.spec_name() + "("@ + dec(v[i].1 as nat) + ")"@)
}

/// What a four-player win pays.
pub open spec fn payout(w: WinReport, oya: u8) -> Seq<char> {
    if w.from is Some {
        dec_int(w.ron as int) + " points"@
    } else if w.winner == oya {
        dec_int(w.tsumo_ko as int) + " x3 points"@
    } else {
        "dealer "@ + dec_int(w.tsumo_oya as int) + " / non-dealer "@ + dec_int(w.tsumo_ko as int) + " points"@
    }
}

pub open spec fn win_line(w: WinReport, oya: u8, four: bool) -> Seq<char> {
    let head = "seat "@ + dec(w.winner as nat) + " wins: "@ + how_won(w.from);
    if w.yakuman > 0 {
        head + ", yakuman x"@ + dec(w.yakuman as nat)
    } else {
        let counted = head + ", "@ + dec((w.han + w.dora_han) as nat) + " han "@ + dec(w.fu as nat) + " fu (dora "@ + dec(
            w.dora_han as nat,
        );
        if four { counted + ") -> "@ + payout(w, oya) } else { counted + ", including nukidora)"@ }
    }
}

/// The lines of a hand's result.
pub open spec fn result_lines(r: HandResult, oya: u8, events: nat, four: bool) -> Seq<Seq<char>> {
    let head = seq![if four { "--- result ---"@ } else { "--- result (3p) ---"@ }];
    let body = match r {
        HandResult::Win(w) => seq![win_line(w, oya, four), "yaku: "@ + joined(yaku_texts(w.yaku@), ", "@)],
        HandResult::Wins(winners, from) => seq![
            (if four { "multiple ron, winners: "@ } else { "double ron, winners: "@ }) + seats_text(winners@) + ", from seat: "@
                + seat_option(from),
        ],
        HandResult::Exhausted(tenpai) => seq!["exhaustive draw, tenpai seats: "@ + seats_text(tenpai@)],
        HandResult::NagashiMangan(winners, tenpai) => seq![
            "nagashi mangan, winners: "@ + seats_text(winners@) + ", tenpai seats: "@ + seats_text(tenpai@),
        ],
        HandResult::Abortive(reason) => seq!["abortive draw: "@ + reason@],
    };
    head + body + seq!["total events: "@ + dec(events)]
}

fn seat_option_text(s: Option<u8>) -> (r: String)
    ensures
        r@ == seat_option(s),
{
    match s {
        Some(n) => join3("Some(", dec_usize(n as usize).as_str(), ")"),
        None => owned("None"),
    }
}

fn how_text(from: Option<u8>) -> (r: String)
    ensures
        r@ == how_won(from),
{
    match from {
        Some(f) => join3("ron (from seat ", dec_usize(f as usize).as_str(), ")"),
        None => owned("tsumo"),
    }
}

fn yaku_list(v: &Vec<(Yaku, u8)>) -> (r: Vec<String>)
    ensures
        texts(r@) == yaku_texts(v@),
{
    let mut out: Vec<String> = Vec::new();
    let mut i: usize = 0;
    while i < v.len()
        invariant
            i <= v@.len(),
            out@.len() == i,
            forall|j: int| 0 <= j < i ==> (#[trigger] out@[j])@ == v@[j].0.spec_name() + "("@ + dec(v@[j].1 as nat) + ")"@,
        decreases v@.len() - i,
    {
        let mut s = join3(v[i].0.name(), "(", dec_usize(v[i].1 as usize).as_str());
        s.append(")");
        out.push(s);
        i = i + 1;
    }
    assert(texts(out@) =~= yaku_texts(v@));
    out
}

fn payout_text(w: &WinReport, oya: u8) -> (r: String)
    ensures
        r@ == payout(*w, oya),
{
    if w.from.is_some() {
        join2(dec_i64(w.ron as i64).as_str(), " points")
    } else if w.winner == oya {
        join2(dec_i64(w.tsumo_ko as i64).as_str(), " x3 points")
    } else {
        let mut s = join3("dealer ", dec_i64(w.tsumo_oya as i64).as_str(), " / non-dealer ");
        s.append(dec_i64(w.tsumo_ko as i64).as_str());
        s.append(" points");
        s
    }
}

fn win_text(w: &WinReport, oya: u8, four: bool) -> (r: String)
    ensures
        r@ == win_line(*w, oya, four),
{
    let mut s = join3("seat ", dec_usize(w.winner as usize).as_str(), " wins: ");
    s.append(how_text(w.from).as_str());
    if w.yakuman > 0 {
        s.append(", yakuman x");
        s.append(dec_usize(w.yakuman as usize).as_str());
        return s;
    }
    s.append(", ");
    s.append(dec_usize(w.han as usize + w.dora_han as usize).as_str());
    s.append(" han ");
    s.append(dec_usize(w.fu as usize).as_str());
    s.append(" fu (dora ");
    s.append(dec_usize(w.dora_han as usize).as_str());
    if four {
        s.append(") -> ");
        s.append(payout_text(w, oya).as_str());
    } else {
        s.append(", including nukidora)");
    }
    s
}

pub(crate) fn push_line(out: &mut Vec<String>, s: String)
    ensures
        texts(final(out)@) == texts(old(out)@).push(s@),
{
    let ghost before = out@;
    out.push(s);
    assert(texts(out@) =~= texts(before).push(s@));
}

/// The lines of a hand's result.
pub fn report(result: &HandResult, oya: u8, events: usize, four: bool) -> (r: Vec<String>)
    ensures
        texts(r@) == result_lines(*result, oya, events as nat, four),
{
    let mut out: Vec<String> = Vec::new();
    assert(texts(out@) =~= Seq::empty());
    push_line(&mut out, owned(if four { "--- result ---" } else { "--- result (3p) ---" }));
    match result {
        HandResult::Win(w) => {
            push_line(&mut out, win_text(w, oya, four));
            push_line(&mut out, join2("yaku: ", join_all(&yaku_list(&w.yaku), ", ").as_str()));
        },
        HandResult::Wins(winners, from) => {
            let mut s = join3(
                if four { "multiple ron, winners: " } else { "double ron, winners: " },
                seats_list(winners).as_str(),
                ", from seat: ",
            );
            s.append(seat_option_text(*from).as_str());
            push_line(&mut out, s);
        },
        HandResult::Exhausted(tenpai) => {
            push_line(&mut out, join2("exhaustive draw, tenpai seats: ", seats_list(tenpai).as_str()));
        },
        HandResult::NagashiMangan(winners, tenpai) => {
            let mut s = join3("nagashi mangan, winners: ", seats_list(winners).as_str(), ", tenpai seats: ");
            s.append(seats_list(tenpai).as_str());
            push_line(&mut out, s);
        },
        HandResult::Abortive(reason) => {
            push_line(&mut out, join2("abortive draw: ", reason.as_str()));
        },
    }
    push_line(&mut out, join2("total events: ", dec_usize(events).as_str()));
    assert(texts(out@) =~= result_lines(*result, oya, events as nat, four));
    out
}

// The report of a match.

/// One decision of a match.
#[derive(Debug)]
pub struct MoveTrace {
    pub turn_index: u64,
    pub seat: u8,
    pub phase: String,
    pub legal_count: u64,
    pub selected: String,
    pub agent_kind: String,
    pub model_id: String,
    pub latency_ms: u64,
    pub fallback: Option<String>,
}

/// One hand of a match.
#[derive(Debug)]
pub struct KyokuReport {
    pub kyoku_index: u64,
    pub bakaze: String,
    pub kyoku: u8,
    pub honba: u8,
    pub kyotaku: u8,
    pub oya: u8,
    pub seed_hi: u64,
    pub seed_lo: u64,
    pub traces: Vec<MoveTrace>,
    pub outcome: String,
    pub deltas: Vec<i64>,
    pub scores_after: Vec<i64>,
}

/// How the agent of a seat did.
#[derive(Debug)]
pub struct AgentStatus {
    pub kind: String,
    pub model_id: String,
    pub calls: u64,
    pub fallbacks: u64,
    pub errors: u64,
    pub last_latency_ms: Option<u64>,
}

/// A match.
#[derive(Debug)]
pub struct FullMatchReport {
    pub variant: String,
    pub rule_profile: String,
    pub length: String,
    pub seed: u64,
    pub match_id: String,
    pub schema_version: u32,
    pub completion: String,
    pub ended: bool,
    pub kyokus: Vec<KyokuReport>,
    pub current_scores: Vec<i64>,
    pub final_scores: Vec<i64>,
    pub rankings: Vec<i64>,
    pub agents: Vec<AgentStatus>,
}

pub open spec fn truth_text(b: bool) -> Seq<char> {
    if b { "true"@ } else { "false"@ }
}

fn truth_of(b: bool) -> (r: &'static str)
    ensures
        r@ == truth_text(b),
{
    if b {
        "true"
    } else {
        "false"
    }
}

/// The line of a decision.
pub open spec fn trace_line(t: MoveTrace) -> Seq<char> {
    "  [t"@ + padded_left(dec(t.turn_index as nat), 3) + "] seat "@ + dec(t.seat as nat) + " "@ + padded_right(t.phase@, 8)
        + " legal="@ + padded_right(dec(t.legal_count as nat), 2) + " -> "@ + padded_right(t.selected@, 22) + " via "@
        + t.agent_kind@ + "/"@ + t.model_id@ + "  "@ + dec(t.latency_ms as nat) + "ms"@ + match t.fallback {
        Some(f) => "  (fallback: "@ + f@ + ")"@,
        None => Seq::empty(),
    }
}

/// The first line of a hand.
pub open spec fn hand_line(k: KyokuReport) -> Seq<char> {
    "=== kyoku#"@ + dec(k.kyoku_index as nat) + " wind "@ + k.bakaze@ + " hand "@ + dec(k.kyoku as nat) + " honba "@ + dec(
        k.honba as nat,
    ) + " sticks "@ + dec(k.kyotaku as nat) + " dealer "@ + dec(k.oya as nat) + " (seed 0x"@ + hex_number(k.seed_hi as nat)
        + "/0x"@ + hex_number(k.seed_lo as nat) + ") ==="@
}

/// The last line of a hand.
pub open spec fn hand_end_line(k: KyokuReport) -> Seq<char> {
    "  result: "@ + k.outcome@ + "  deltas="@ + list_text(k.deltas@) + "  scores="@ + list_text(k.scores_after@)
}

pub open spec fn trace_lines(v: Seq<MoveTrace>) -> Seq<Seq<char>> {
    Seq::new(v.len(), |i: int| trace_line(v[i]))
}

/// The lines of a hand.
pub open spec fn hand_lines(k: KyokuReport) -> Seq<Seq<char>> {
    seq![hand_line(k)] + trace_lines(k.traces@) + seq![hand_end_line(k)]
}

/// The lines of all hands.
pub open spec fn all_hand_lines(v: Seq<KyokuReport>) -> Seq<Seq<char>>
    decreases v.len(),
{
    if v.len() == 0 { Seq::empty() } else { all_hand_lines(v.drop_last()) + hand_lines(v.last()) }
}

/// The line of an agent.
pub open spec fn agent_line(i: nat, a: AgentStatus) -> Seq<char> {
    "  seat"@ + dec(i) + " "@ + a.kind@ + "/"@ + a.model_id@ + " calls="@ + dec(a.calls as nat) + " fallbacks="@ + dec(
        a.fallbacks as nat,
    ) + " errors="@ + dec(a.errors as nat) + " last_latency="@ + dec(
        match a.last_latency_ms {
            Some(n) => n as nat,
            None => 0,
        },
    ) + "ms"@
}

pub open spec fn agent_lines(v: Seq<AgentStatus>) -> Seq<Seq<char>> {
    Seq::new(v.len(), |i: int| agent_line(i as nat, v[i]))
}

pub open spec fn match_line(r: FullMatchReport) -> Seq<char> {
    "--- run-match "@ + r.variant@ + " platform="@ + r.rule_profile@ + " length="@ + r.length@ + " seed="@ + dec(r.seed as nat)
        + " match_id="@ + r.match_id@ + " (schema v"@ + dec(r.schema_version as nat) + ") ---"@
}

pub open spec fn hands_line(r: FullMatchReport) -> Seq<char> {
    "hands: "@ + dec(r.kyokus@.len()) + "  completion="@ + r.completion@ + "  match over: "@ + truth_text(r.ended)
}

pub open spec fn final_line(r: FullMatchReport) -> Seq<char> {
    "final scores: "@ + list_text(r.final_scores@) + "  ranking (seats): "@ + list_text(r.rankings@)
}

/// The lines of a match: its hands unless it is told quietly, the scores, the final ones once it
/// is over, and the seats.
pub open spec fn match_lines(r: FullMatchReport, quiet: bool) -> Seq<Seq<char>> {
    let hands = if quiet { Seq::empty() } else { all_hand_lines(r.kyokus@) };
    let head = seq![match_line(r), hands_line(r), "current scores: "@ + list_text(r.current_scores@)];
    let over = if r.ended { seq![final_line(r)] } else { Seq::empty() };
    hands + head + over + seq!["seat status:"@] + agent_lines(r.agents@)
}

fn trace_text(t: &MoveTrace) -> (r: String)
    ensures
        r@ == trace_line(*t),
{
    let mut s = join3("  [t", pad_left(dec_u64(t.turn_index).as_str(), 3).as_str(), "] seat ");
    s.append(dec_usize(t.seat as usize).as_str());
    s.append(" ");
    s.append(pad_right(t.phase.as_str(), 8).as_str());
    s.append(" legal=");
    s.append(pad_right(dec_u64(t.legal_count).as_str(), 2).as_str());
    s.append(" -> ");
    s.append(pad_right(t.selected.as_str(), 22).as_str());
    s.append(" via ");
    s.append(t.agent_kind.as_str());
    s.append("/");
    s.append(t.model_id.as_str());
    s.append("  ");
    s.append(dec_u64(t.latency_ms).as_str());
    s.append("ms");
    match &t.fallback {
        Some(f) => {
            let tail = join3("  (fallback: ", f.as_str(), ")");
            s.append(tail.as_str());
        },
        None => {
            assert(s@ + Seq::<char>::empty() =~= s@);
        },
    }
    s
}

fn hand_text(k: &KyokuReport) -> (r: String)
    ensures
        r@ == hand_line(*k),
{
    let mut s = join3("=== kyoku#", dec_u64(k.kyoku_index).as_str(), " wind ");
    s.append(k.bakaze.as_str());
    s.append(" hand ");
    s.append(dec_usize(k.kyoku as usize).as_str());
    s.append(" honba ");
    s.append(dec_usize(k.honba as usize).as_str());
    s.append(" sticks ");
    s.append(dec_usize(k.kyotaku as usize).as_str());
    s.append(" dealer ");
    s.append(dec_usize(k.oya as usize).as_str());
    s.append(" (seed 0x");
    s.append(hex_text(k.seed_hi).as_str());
    s.append("/0x");
    s.append(hex_text(k.seed_lo).as_str());
    s.append(") ===");
    s
}

fn hand_end_text(k: &KyokuReport) -> (r: String)
    ensures
        r@ == hand_end_line(*k),
{
    let mut s = join3("  result: ", k.outcome.as_str(), "  deltas=");
    s.append(list_of(k.deltas.as_slice()).as_str());
    s.append("  scores=");
    s.append(list_of(k.scores_after.as_slice()).as_str());
    s
}

fn push_hand(out: &mut Vec<String>, k: &KyokuReport)
    ensures
        texts(final(out)@) == texts(old(out)@) + hand_lines(*k),
{
    let ghost before = texts(out@);
    push_line(out, hand_text(k));
    let ghost opened = texts(out@);
    let mut i: usize = 0;
    assert(texts(out@) =~= opened + trace_lines(k.traces@).take(0));
    while i < k.traces.len()
        invariant
            i <= k.traces@.len(),
            texts(out@) == opened + trace_lines(k.traces@).take(i as int),
        decreases k.traces@.len() - i,
    {
        let ghost now = texts(out@);
        push_line(out, trace_text(&k.traces[i]));
        i = i + 1;
        assert(texts(out@) =~= opened + trace_lines(k.traces@).take(i as int));
    }
    push_line(out, hand_end_text(k));
    assert(trace_lines(k.traces@).take(i as int) =~= trace_lines(k.traces@));
    assert(texts(out@) =~= before + hand_lines(*k));
}

fn agent_text(i: usize, a: &AgentStatus) -> (r: String)
    ensures
        r@ == agent_line(i as nat, *a),
{
    let mut s = join3("  seat", dec_usize(i).as_str(), " ");
    s.append(a.kind.as_str());
    s.append("/");
    s.append(a.model_id.as_str());
    s.append(" calls=");
    s.append(dec_u64(a.calls).as_str());
    s.append(" fallbacks=");
    s.append(dec_u64(a.fallbacks).as_str());
    s.append(" errors=");
    s.append(dec_u64(a.errors).as_str());
    s.append(" last_latency=");
    let latency: u64 = match a.last_latency_ms {
        Some(n) => n,
        None => 0,
    };
    s.append(dec_u64(latency).as_str());
    s.append("ms");
    s
}

fn push_agents(out: &mut Vec<String>, v: &Vec<AgentStatus>)
    ensures
        texts(final(out)@) == texts(old(out)@) + agent_lines(v@),
{
    let ghost before = texts(out@);
    let mut i: usize = 0;
    assert(texts(out@) =~= before + agent_lines(v@).take(0));
    while i < v.len()
        invariant
            i <= v@.len(),
            texts(out@) == before + agent_lines(v@).take(i as int),
        decreases v@.len() - i,
    {
        push_line(out, agent_text(i, &v[i]));
        i = i + 1;
        assert(texts(out@) =~= before + agent_lines(v@).take(i as int));
    }
    assert(agent_lines(v@).take(i as int) =~= agent_lines(v@));
}

fn match_text(r: &FullMatchReport) -> (s: String)
    ensures
        s@ == match_line(*r),
{
    let mut s = join3("--- run-match ", r.variant.as_str(), " platform=");
    s.append(r.rule_profile.as_str());
    s.append(" length=");
    s.append(r.length.as_str());
    s.append(" seed=");
    s.append(dec_u64(r.seed).as_str());
    s.append(" match_id=");
    s.append(r.match_id.as_str());
    s.append(" (schema v");
    s.append(dec_u64(r.schema_version as u64).as_str());
    s.append(") ---");
    s
}

fn hands_text(r: &FullMatchReport) -> (s: String)
    ensures
        s@ == hands_line(*r),
{
    let mut s = join3("hands: ", dec_usize(r.kyokus.len()).as_str(), "  completion=");
    s.append(r.completion.as_str());
    s.append("  match over: ");
    s.append(truth_of(r.ended));
    s
}

fn final_text(r: &FullMatchReport) -> (s: String)
    ensures
        s@ == final_line(*r),
{
    let mut s = join3("final scores: ", list_of(r.final_scores.as_slice()).as_str(), "  ranking (seats): ");
    s.append(list_of(r.rankings.as_slice()).as_str());
    s
}

/// The lines of a match.
pub fn print_report(r: &FullMatchReport, quiet: bool) -> (out: Vec<String>)
    ensures
        texts(out@) == match_lines(*r, quiet),
{
    let mut out: Vec<String> = Vec::new();
    assert(texts(out@) =~= Seq::empty());
    if !quiet {
        let mut i: usize = 0;
        assert(all_hand_lines(r.kyokus@.take(0)) =~= Seq::empty());
        while i < r.kyokus.len()
            invariant
                i <= r.kyokus@.len(),
                texts(out@) == all_hand_lines(r.kyokus@.take(i as int)),
            decreases r.kyokus@.len() - i,
        {
            assert(r.kyokus@.take(i + 1).drop_last() =~= r.kyokus@.take(i as int));
            assert(r.kyokus@.take(i + 1).last() == r.kyokus@[i as int]);
            push_hand(&mut out, &r.kyokus[i]);
            i = i + 1;
        }
        assert(r.kyokus@.take(i as int) =~= r.kyokus@);
    }
    let ghost hands = texts(out@);
    push_line(&mut out, match_text(r));
    push_line(&mut out, hands_text(r));
    push_line(&mut out, join2("current scores: ", list_of(r.current_scores.as_slice()).as_str()));
    if r.ended {
        push_line(&mut out, final_text(r));
    }
    push_line(&mut out, owned("seat status:"));
    push_agents(&mut out, &r.agents);
    assert(texts(out@) =~= match_lines(*r, quiet));
    out
}

// The catalog.

/// A model of the catalog.
#[derive(Debug)]
pub struct CatalogEntry {
    pub source: String,
    pub seat_agent_kind: String,
    pub model_id: Option<String>,
    pub display_name: String,
    pub rule_lines: Vec<String>,
    pub riichi_style: Option<String>,
    pub health: String,
    pub usable: bool,
    pub smoke: Option<SmokeSummary>,
    pub error_summary: Option<String>,
}

pub open spec fn quoted_all(v: Seq<String>) -> Seq<Seq<char>> {
    Seq::new(v.len(), |i: int| quoted(v[i]@))
}

pub open spec fn or_text(s: Option<String>, otherwise: Seq<char>) -> Seq<char> {
    match s {
        Some(t) => t@,
        None => otherwise,
    }
}

/// The line of a model.
pub open spec fn catalog_line(e: CatalogEntry) -> Seq<char> {
    "  ["@ + e.source@ + "/"@ + e.seat_agent_kind@ + "] "@ + or_text(e.model_id, "<uncertified>"@) + " \u{ab}"@ + e.display_name@
        + "\u{bb} rule_line=["@ + joined(quoted_all(e.rule_lines@), ", "@) + "] style="@ + or_text(e.riichi_style, "-"@)
        + " health="@ + e.health@ + " usable="@ + truth_text(e.usable) + (match e.smoke {
        Some(s) => "  smoke(decisions "@ + dec(s.decisions as nat) + "/all legal "@ + truth_text(s.all_legal) + "/max "@ + dec(
            s.max_infer_ms as nat,
        ) + "ms)"@,
        None => Seq::empty(),
    }) + match e.error_summary {
        Some(t) => "  reason: "@ + t@,
        None => Seq::empty(),
    }
}

fn or_str<'a>(s: &'a Option<String>, otherwise: &'a str) -> (r: &'a str)
    ensures
        r@ == or_text(*s, otherwise@),
{
    match s {
        Some(t) => t.as_str(),
        None => otherwise,
    }
}

fn quote_all(v: &Vec<String>) -> (r: Vec<String>)
    ensures
        texts(r@) == quoted_all(v@),
{
    let mut out: Vec<String> = Vec::new();
    let mut i: usize = 0;
    while i < v.len()
        invariant
            i <= v@.len(),
            out@.len() == i,
            forall|j: int| 0 <= j < i ==> (#[trigger] out@[j])@ == quoted(v@[j]@),
        decreases v@.len() - i,
    {
        out.push(quote(v[i].as_str()));
        i = i + 1;
    }
    assert(texts(out@) =~= quoted_all(v@));
    out
}

/// The line of a model.
pub fn print_entry(e: &CatalogEntry) -> (r: String)
    ensures
        r@ == catalog_line(*e),
{
    let mut s = join3("  [", e.source.as_str(), "/");
    s.append(e.seat_agent_kind.as_str());
    s.append("] ");
    s.append(or_str(&e.model_id, "<uncertified>"));
    s.append(" \u{ab}");
    s.append(e.display_name.as_str());
    s.append("\u{bb} rule_line=[");
    s.append(join_all(&quote_all(&e.rule_lines), ", ").as_str());
    s.append("] style=");
    s.append(or_str(&e.riichi_style, "-"));
    s.append(" health=");
    s.append(e.health.as_str());
    s.append(" usable=");
    s.append(truth_of(e.usable));
    match &e.smoke {
        Some(k) => {
            let mut t = join3("  smoke(decisions ", dec_usize(k.decisions).as_str(), "/all legal ");
            t.append(truth_of(k.all_legal));
            t.append("/max ");
            t.append(dec_u64(k.max_infer_ms).as_str());
            t.append("ms)");
            s.append(t.as_str());
        },
        None => {
            assert(s@ + Seq::<char>::empty() =~= s@);
        },
    }
    match &e.error_summary {
        Some(t) => {
            let tail = join2("  reason: ", t.as_str());
            s.append(tail.as_str());
        },
        None => {
            assert(s@ + Seq::<char>::empty() =~= s@);
        },
    }
    s
}

} // verus!
