//! Checking an engine's reply and turning it into a decision.

use vstd::prelude::*;
use crate::inference::contract::{
    actions_view, decision_view, fault, inference_error, protocol_fault, ActionFacts, DecisionFacts, Fault,
    InferenceDecision, InferenceError, InferenceErrorKind, LegalAction, FLYA_INFERENCE_PROTOCOL_V1,
};
use crate::inference::parse::{
    fault_option, find_legal, legal_index, match_index_3p, match_index_4p, matched, parse_legal_action_3p,
    parse_legal_action_4p, parse_response_action_3p, parse_response_action_4p, parsed_action, protocol_action_fault,
    response_action, validate_response_action_protocol,
};
use crate::inference::recommend::{meta_text, response_meta};
use crate::inference::request::{BuiltFacts, BuiltInferenceRequest};
use crate::json::{float_rank, items_view, Json, JsonView};
use crate::text::{dec, dec_u64, join2, join3};

verus! {

// Branches.

/// What a reply decides by.
#[derive(Debug, Clone, Copy, PartialEq, Eq, Structural)]
pub enum ResponseBranch {
    Select,
    Action,
    Ranked,
    Abstain,
    DeclareReach,
}

pub open spec fn branch_if(cond: bool, b: ResponseBranch) -> Seq<ResponseBranch> {
    if cond { seq![b] } else { Seq::empty() }
}

/// The branches that a reply has.
pub open spec fn branches(response: JsonView) -> Seq<ResponseBranch> {
    branch_if(response.get("select"@) is Some, ResponseBranch::Select) + branch_if(
        response.get("action"@) is Some,
        ResponseBranch::Action,
    ) + branch_if(response.get("ranked"@) is Some, ResponseBranch::Ranked) + branch_if(
        response.bool_at("abstain"@) == Some(true),
        ResponseBranch::Abstain,
    ) + branch_if(response.bool_at("declare_reach"@) == Some(true), ResponseBranch::DeclareReach)
}

/// The one branch of a reply.
pub open spec fn branch(response: JsonView) -> Result<ResponseBranch, Fault> {
    let b = branches(response);
    if b.len() == 1 {
        Ok(b[0])
    } else if b.len() == 0 {
        Err(protocol_fault("ok:true response missing select|action|ranked|abstain|declare_reach branch"@))
    } else {
        Err(protocol_fault("ok:true response has multiple select|action|ranked|abstain|declare_reach branches"@))
    }
}

fn push_branch(out: &mut Vec<ResponseBranch>, cond: bool, b: ResponseBranch)
    ensures
        final(out)@ == old(out)@ + branch_if(cond, b),
{
    let ghost before = out@;
    if cond {
        out.push(b);
    }
    assert(out@ =~= before + branch_if(cond, b));
}

/// The one branch of a reply.
pub fn response_branch(response: &Json) -> (r: Result<ResponseBranch, InferenceError>)
    ensures
        match r {
            Ok(b) => branch(response@) == Ok::<ResponseBranch, Fault>(b),
            Err(e) => branch(response@) == Err::<ResponseBranch, Fault>(e@),
        },
{
    let mut found: Vec<ResponseBranch> = Vec::new();
    push_branch(&mut found, response.get("select").is_some(), ResponseBranch::Select);
    assert(found@ =~= branch_if(response@.get("select"@) is Some, ResponseBranch::Select));
    push_branch(&mut found, response.get("action").is_some(), ResponseBranch::Action);
    push_branch(&mut found, response.get("ranked").is_some(), ResponseBranch::Ranked);
    push_branch(&mut found, matches!(response.bool_at("abstain"), Some(true)), ResponseBranch::Abstain);
    push_branch(&mut found, matches!(response.bool_at("declare_reach"), Some(true)), ResponseBranch::DeclareReach);
    if found.len() == 1 {
        Ok(found[0])
    } else if found.len() == 0 {
        Err(
            inference_error(
                InferenceErrorKind::Protocol,
                "ok:true response missing select|action|ranked|abstain|declare_reach branch",
            ),
        )
    } else {
        Err(
            inference_error(
                InferenceErrorKind::Protocol,
                "ok:true response has multiple select|action|ranked|abstain|declare_reach branches",
            ),
        )
    }
}

// The echo.

/// The error that an engine reports.
pub open spec fn reported(response: JsonView) -> Fault {
    let k = response.text_at("error_kind"@);
    Fault {
        kind: if k == Some("internal"@) {
            InferenceErrorKind::Internal
        } else if k == Some("stale"@) {
            InferenceErrorKind::StaleDecision
        } else if k == Some("unavailable"@) {
            InferenceErrorKind::EngineUnavailable
        } else if k == Some("state_sync_required"@) {
            InferenceErrorKind::StateSyncRequired
        } else {
            InferenceErrorKind::Protocol
        },
        detail: match response.text_at("detail"@) {
            Some(d) => d,
            None => "engine returned ok:false error"@,
        },
    }
}

/// The error that an engine reports.
pub fn error_response(response: &Json) -> (r: InferenceError)
    ensures
        r@ == reported(response@),
{
    let kind = if response.has_text("error_kind", "internal") {
        InferenceErrorKind::Internal
    } else if response.has_text("error_kind", "stale") {
        InferenceErrorKind::StaleDecision
    } else if response.has_text("error_kind", "unavailable") {
        InferenceErrorKind::EngineUnavailable
    } else if response.has_text("error_kind", "state_sync_required") {
        InferenceErrorKind::StateSyncRequired
    } else {
        InferenceErrorKind::Protocol
    };
    match response.text_at("detail") {
        Some(d) => inference_error(kind, d),
        None => inference_error(kind, "engine returned ok:false error"),
    }
}

/// Why a reply is not one to a request: it reports an error, or echoes another request or
/// another state.
pub open spec fn echo_fault(response: JsonView, built: BuiltFacts) -> Option<Fault> {
    match response.bool_at("ok"@) {
        Some(false) => Some(reported(response)),
        None => Some(protocol_fault("engine response missing ok boolean"@)),
        Some(true) => if response.text_at("decision_id"@) != Some(built.decision_id) {
            Some(fault(InferenceErrorKind::StaleDecision, "engine decision_id echo mismatch"@))
        } else if response.text_at("legal_digest"@) != Some(built.legal_digest) {
            Some(fault(InferenceErrorKind::StaleDecision, "engine legal_digest echo mismatch"@))
        } else if response.text_at("state_digest"@) != Some(built.state_digest) {
            Some(fault(InferenceErrorKind::StaleDecision, "engine state_digest echo mismatch"@))
        } else if response.u64_at("engine_ack_seq"@) != Some(built.to_seq) {
            Some(fault(InferenceErrorKind::StateSyncRequired, "engine_ack_seq does not match request to_seq"@))
        } else if response.text_at("engine_ack_state_digest"@) != Some(built.state_digest) {
            Some(
                fault(
                    InferenceErrorKind::StateSyncRequired,
                    "engine_ack_state_digest does not match authoritative state_digest"@,
                ),
            )
        } else {
            None
        },
    }
}

/// Whether a reply means that the engine has to be started again.
pub open spec fn echo_rebuilds(response: JsonView) -> bool {
    match response.bool_at("ok"@) {
        Some(false) => reported(response).kind == InferenceErrorKind::Protocol || reported(response).kind
            == InferenceErrorKind::EngineUnavailable || reported(response).kind == InferenceErrorKind::Timeout,
        None => true,
        Some(true) => false,
    }
}

/// Checks that a reply belongs to a request. The second result tells whether the engine has to
/// be started again.
pub fn check_echo(response: &Json, built: &BuiltInferenceRequest) -> (r: (Result<(), InferenceError>, bool))
    ensures
        fault_option(r.0) == echo_fault(response@, built@),
        r.1 == echo_rebuilds(response@),
{
    match response.bool_at("ok") {
        Some(true) => {},
        Some(false) => {
            let err = error_response(response);
            let rebuild = err.kind == InferenceErrorKind::Protocol || err.kind == InferenceErrorKind::EngineUnavailable
                || err.kind == InferenceErrorKind::Timeout;
            return (Err(err), rebuild);
        },
        None => {
            return (Err(inference_error(InferenceErrorKind::Protocol, "engine response missing ok boolean")), true);
        },
    }
    if !response.has_text("decision_id", built.decision_id.as_str()) {
        return (Err(inference_error(InferenceErrorKind::StaleDecision, "engine decision_id echo mismatch")), false);
    }
    if !response.has_text("legal_digest", built.legal_digest.as_str()) {
        return (Err(inference_error(InferenceErrorKind::StaleDecision, "engine legal_digest echo mismatch")), false);
    }
    if !response.has_text("state_digest", built.state_digest.as_str()) {
        return (Err(inference_error(InferenceErrorKind::StaleDecision, "engine state_digest echo mismatch")), false);
    }
    let acked = match response.u64_at("engine_ack_seq") {
        Some(n) => n == built.to_seq,
        None => false,
    };
    if !acked {
        return (
            Err(inference_error(InferenceErrorKind::StateSyncRequired, "engine_ack_seq does not match request to_seq")),
            false,
        );
    }
    if !response.has_text("engine_ack_state_digest", built.state_digest.as_str()) {
        return (
            Err(
                inference_error(
                    InferenceErrorKind::StateSyncRequired,
                    "engine_ack_state_digest does not match authoritative state_digest",
                ),
            ),
            false,
        );
    }
    (Ok(()), false)
}

// Decisions.

/// The decision of a number in the legal list.
pub open spec fn selected(response: JsonView, legal_len: nat) -> Result<DecisionFacts, Fault> {
    let at = match response.get("select"@) {
        Some(s) => s.u64_at("legal_index"@),
        None => None,
    };
    match at {
        None => Err(protocol_fault("select branch missing legal_index"@)),
        Some(n) => if n >= legal_len {
            Err(fault(InferenceErrorKind::InvalidAction, "engine selected out-of-range legal index "@ + dec(n as nat)))
        } else {
            Ok(DecisionFacts::Select { index: n as usize, meta: meta_text(response, legal_len) })
        },
    }
}

/// The decision of a number in the legal list.
pub fn select_decision(response: &Json, legal_len: usize) -> (r: Result<InferenceDecision, InferenceError>)
    ensures
        decision_view(r) == selected(response@, legal_len as nat),
{
    let at: Option<u64> = match response.get("select") {
        Some(s) => s.u64_at("legal_index"),
        None => None,
    };
    match at {
        None => Err(inference_error(InferenceErrorKind::Protocol, "select branch missing legal_index")),
        Some(n) => {
            if n >= legal_len as u64 {
                let d = join2("engine selected out-of-range legal index ", dec_u64(n).as_str());
                return Err(inference_error(InferenceErrorKind::InvalidAction, d.as_str()));
            }
            Ok(InferenceDecision::Select { index: n as usize, meta: response_meta(response, legal_len) })
        },
    }
}

/// Where a decision is made: the table, the seat and the protocol.
pub ghost struct Place {
    pub four: bool,
    pub seat: u8,
    pub v1: bool,
}

/// The decision of a named action.
pub open spec fn named(response: JsonView, legal: Seq<ActionFacts>, at: Place) -> Result<DecisionFacts, Fault> {
    match response.get("action"@) {
        None => Err(protocol_fault("missing action branch"@)),
        Some(j) => match response_action(j, at.seat, at.four, at.v1) {
            Err(e) => Err(e),
            Ok(a) => match matched(legal, a, at.four) {
                Err(e) => Err(e),
                Ok(i) => Ok(DecisionFacts::Select { index: i as usize, meta: meta_text(response, legal.len()) }),
            },
        },
    }
}

fn named_decision(response: &Json, legal: &[LegalAction], four: bool, seat: u8, protocol: &str) -> (r: Result<
    InferenceDecision,
    InferenceError,
>)
    ensures
        decision_view(r) == named(
            response@,
            actions_view(legal@),
            Place { four, seat, v1: protocol@ == FLYA_INFERENCE_PROTOCOL_V1@ },
        ),
{
    assert(actions_view(legal@).len() == legal@.len());
    let j = match response.get("action") {
        None => {
            return Err(inference_error(InferenceErrorKind::Protocol, "missing action branch"));
        },
        Some(j) => j,
    };
    let parsed = if four {
        parse_response_action_4p(j, seat, protocol)
    } else {
        parse_response_action_3p(j, seat, protocol)
    };
    let action = match parsed {
        Ok(a) => a,
        Err(e) => {
            return Err(e);
        },
    };
    let place = if four {
        match_index_4p(&action, legal)
    } else {
        match_index_3p(&action, legal)
    };
    match place {
        Ok(index) => Ok(InferenceDecision::Select { index, meta: response_meta(response, legal.len()) }),
        Err(e) => Err(e),
    }
}

// Ranked actions.

/// Why an entry is no ranked action.
pub open spec fn entry_fault(item: JsonView) -> Option<Fault> {
    if item.get("action"@) is None {
        Some(protocol_fault("ranked entry missing action"@))
    } else if item.float_at("score"@) is None {
        Some(protocol_fault("ranked entry missing numeric score"@))
    } else {
        None
    }
}

/// The first fault of ranked entries.
pub open spec fn entries_fault(items: Seq<JsonView>) -> Option<Fault>
    decreases items.len(),
{
    if items.len() == 0 {
        None
    } else if entries_fault(items.drop_last()) is Some {
        entries_fault(items.drop_last())
    } else {
        entry_fault(items.last())
    }
}

/// The score of an entry, by which entries are ordered.
pub open spec fn entry_rank(item: JsonView) -> int {
    match item.float_at("score"@) {
        Some(f) => float_rank(f.0),
        None => 0,
    }
}

pub open spec fn entry_action(item: JsonView) -> JsonView {
    match item.get("action"@) {
        Some(a) => a,
        None => JsonView::Null,
    }
}

/// An entry is looked at before another: it has the higher score, or the same and comes first.
pub open spec fn goes_before(items: Seq<JsonView>, i: int, j: int) -> bool {
    entry_rank(items[i]) > entry_rank(items[j]) || (entry_rank(items[i]) == entry_rank(items[j]) && i < j)
}

/// An entry that hits, and that no other such entry goes before.
pub open spec fn leads(items: Seq<JsonView>, hits: Seq<bool>, i: int) -> bool {
    &&& 0 <= i < items.len() && hits[i]
    &&& forall|j: int| 0 <= j < items.len() && #[trigger] hits[j] && j != i ==> goes_before(items, i, j)
}

/// The first entry that hits, in the order of scores.
pub open spec fn leader(items: Seq<JsonView>, hits: Seq<bool>) -> Option<int> {
    if exists|i: int| leads(items, hits, i) { Some(choose|i: int| leads(items, hits, i)) } else { None }
}

/// The entries whose action cannot be named under the protocol.
pub open spec fn unnameable(items: Seq<JsonView>, v1: bool) -> Seq<bool> {
    Seq::new(items.len(), |i: int| protocol_action_fault(entry_action(items[i]), v1) is Some)
}

/// The entries that end the search: their action is malformed, or legal.
pub open spec fn decisive(items: Seq<JsonView>, legal: Seq<ActionFacts>, at: Place) -> Seq<bool> {
    Seq::new(
        items.len(),
        |i: int|
            match parsed_action(entry_action(items[i]), at.seat, at.four) {
                Err(_) => true,
                Ok(a) => legal_index(legal, a) is Some,
            },
    )
}

/// The decision of ranked actions: the legal one with the highest score.
pub open spec fn ranked(response: JsonView, legal: Seq<ActionFacts>, at: Place) -> Result<DecisionFacts, Fault> {
    match response.array_at("ranked"@) {
        None => Err(protocol_fault("ranked branch must be an array"@)),
        Some(items) => match entries_fault(items) {
            Some(e) => Err(e),
            None => match leader(items, unnameable(items, at.v1)) {
                Some(i) => Err(protocol_action_fault(entry_action(items[i]), at.v1)->0),
                None => match leader(items, decisive(items, legal, at)) {
                    None => Err(
                        fault(
                            InferenceErrorKind::InvalidAction,
                            "no ranked "@ + crate::inference::parse::players_text(at.four)
                                + " action exactly matched current legal list"@,
                        ),
                    ),
                    Some(i) => match parsed_action(entry_action(items[i]), at.seat, at.four) {
                        Err(e) => Err(e),
                        Ok(a) => Ok(
                            DecisionFacts::Select {
                                index: legal_index(legal, a)->0 as usize,
                                meta: meta_text(response, legal.len()),
                            },
                        ),
                    },
                },
            },
        },
    }
}

proof fn lemma_leader(items: Seq<JsonView>, hits: Seq<bool>, i: int)
    requires
        leads(items, hits, i),
    ensures
        leader(items, hits) == Some(i),
{
    let k = leader(items, hits)->0;
    assert(leads(items, hits, k));
    if k != i {
        assert(goes_before(items, i, k));
        assert(goes_before(items, k, i));
    }
}

fn find_leader(ranks: &Vec<i64>, hits: &Vec<bool>, Ghost(items): Ghost<Seq<JsonView>>) -> (r: Option<usize>)
    requires
        ranks@.len() == items.len(),
        hits@.len() == items.len(),
        forall|i: int| 0 <= i < items.len() ==> #[trigger] ranks@[i] == entry_rank(items[i]),
    ensures
        match r {
            Some(i) => i < items.len() && leader(items, hits@) == Some(i as int),
            None => leader(items, hits@) is None,
        },
{
    let mut best: Option<usize> = None;
    let mut i: usize = 0;
    while i < ranks.len()
        invariant
            i <= ranks@.len(),
            ranks@.len() == items.len(),
            hits@.len() == items.len(),
            forall|k: int| 0 <= k < items.len() ==> #[trigger] ranks@[k] == entry_rank(items[k]),
            match best {
                None => forall|j: int| 0 <= j < i ==> !#[trigger] hits@[j],
                Some(b) => b < i && hits@[b as int] && forall|j: int|
                    0 <= j < i && #[trigger] hits@[j] && j != b ==> goes_before(items, b as int, j),
            },
        decreases ranks@.len() - i,
    {
        if hits[i] {
            assert(ranks@[i as int] == entry_rank(items[i as int]));
            match best {
                None => {
                    best = Some(i);
                },
                Some(b) => {
                    assert(ranks@[b as int] == entry_rank(items[b as int]));
                    if ranks[i] > ranks[b] {
                        best = Some(i);
                    }
                },
            }
        }
        i = i + 1;
    }
    proof {
        match best {
            None => {
                if leader(items, hits@) is Some {
                    let k = choose|k: int| leads(items, hits@, k);
                    assert(hits@[k]);
                }
            },
            Some(b) => {
                assert(leads(items, hits@, b as int));
                lemma_leader(items, hits@, b as int);
            },
        }
    }
    best
}

proof fn lemma_first_entry_fault(items: Seq<JsonView>, n: int)
    requires
        0 <= n <= items.len(),
        entries_fault(items.take(n)) is Some,
    ensures
        entries_fault(items) == entries_fault(items.take(n)),
    decreases items.len() - n,
{
    if n == items.len() {
        assert(items.take(n) =~= items);
    } else {
        assert(items.take(n + 1).drop_last() =~= items.take(n));
        lemma_first_entry_fault(items, n + 1);
    }
}

/// The scores of ranked entries.
fn entry_ranks(items: &Vec<Json>) -> (r: Result<Vec<i64>, InferenceError>)
    ensures
        match r {
            Ok(v) => entries_fault(items_view(items@)) is None && v@.len() == items@.len() && forall|i: int|
                0 <= i < items@.len() ==> #[trigger] v@[i] == entry_rank(items_view(items@)[i]),
            Err(e) => entries_fault(items_view(items@)) == Some(e@),
        },
{
    let ghost all = items_view(items@);
    let mut out: Vec<i64> = Vec::new();
    let mut i: usize = 0;
    while i < items.len()
        invariant
            i <= items@.len(),
            all == items_view(items@),
            out@.len() == i,
            entries_fault(all.take(i as int)) is None,
            forall|j: int| 0 <= j < i ==> #[trigger] out@[j] == entry_rank(all[j]),
        decreases items@.len() - i,
    {
        assert(all.take(i + 1).drop_last() =~= all.take(i as int));
        assert(all.take(i + 1).last() == items@[i as int]@);
        if items[i].get("action").is_none() {
            proof { lemma_first_entry_fault(all, i + 1); }
            return Err(inference_error(InferenceErrorKind::Protocol, "ranked entry missing action"));
        }
        match items[i].float_at("score") {
            Some(f) => {
                out.push(f.rank());
            },
            None => {
                proof { lemma_first_entry_fault(all, i + 1); }
                return Err(inference_error(InferenceErrorKind::Protocol, "ranked entry missing numeric score"));
            },
        }
        i = i + 1;
    }
    assert(all.take(i as int) =~= all);
    Ok(out)
}

fn action_of_entry(item: &Json) -> (r: Json)
    ensures
        r@ == entry_action(item@),
{
    match item.get("action") {
        Some(a) => a.copy(),
        None => Json::Null,
    }
}

fn unnameable_entries(items: &Vec<Json>, protocol: &str) -> (r: Vec<bool>)
    ensures
        r@ == unnameable(items_view(items@), protocol@ == FLYA_INFERENCE_PROTOCOL_V1@),
{
    let ghost all = items_view(items@);
    let ghost v1 = protocol@ == FLYA_INFERENCE_PROTOCOL_V1@;
    let mut out: Vec<bool> = Vec::new();
    let mut i: usize = 0;
    while i < items.len()
        invariant
            i <= items@.len(),
            all == items_view(items@),
            out@.len() == i,
            v1 == (protocol@ == FLYA_INFERENCE_PROTOCOL_V1@),
            forall|j: int| 0 <= j < i ==> #[trigger] out@[j] == protocol_action_fault(entry_action(all[j]), v1) is Some,
        decreases items@.len() - i,
    {
        let a = action_of_entry(&items[i]);
        assert(all[i as int] == items@[i as int]@);
        out.push(validate_response_action_protocol(&a, protocol).is_err());
        i = i + 1;
    }
    assert(out@ =~= unnameable(all, v1));
    out
}

fn parse_for(a: &Json, seat: u8, four: bool) -> (r: Result<LegalAction, InferenceError>)
    ensures
        crate::inference::parse::action_result(r) == parsed_action(a@, seat, four),
{
    if four {
        parse_legal_action_4p(a, seat)
    } else {
        parse_legal_action_3p(a, seat)
    }
}

fn decisive_entries(items: &Vec<Json>, legal: &[LegalAction], four: bool, seat: u8, Ghost(v1): Ghost<bool>) -> (r: Vec<bool>)
    ensures
        r@ == decisive(items_view(items@), actions_view(legal@), Place { four, seat, v1 }),
{
    let ghost all = items_view(items@);
    let ghost want = decisive(all, actions_view(legal@), Place { four, seat, v1 });
    let mut out: Vec<bool> = Vec::new();
    let mut i: usize = 0;
    while i < items.len()
        invariant
            i <= items@.len(),
            all == items_view(items@),
            want == decisive(all, actions_view(legal@), Place { four, seat, v1 }),
            out@.len() == i,
            forall|j: int| 0 <= j < i ==> #[trigger] out@[j] == want[j],
        decreases items@.len() - i,
    {
        let a = action_of_entry(&items[i]);
        assert(all[i as int] == items@[i as int]@);
        let ends = match parse_for(&a, seat, four) {
            Err(_) => true,
            Ok(action) => find_legal(legal, &action).is_some(),
        };
        out.push(ends);
        i = i + 1;
    }
    assert(out@ =~= want);
    out
}

fn ranked_decision(response: &Json, legal: &[LegalAction], four: bool, seat: u8, protocol: &str) -> (r: Result<
    InferenceDecision,
    InferenceError,
>)
    ensures
        decision_view(r) == ranked(
            response@,
            actions_view(legal@),
            Place { four, seat, v1: protocol@ == FLYA_INFERENCE_PROTOCOL_V1@ },
        ),
{
    let ghost v1 = protocol@ == FLYA_INFERENCE_PROTOCOL_V1@;
    assert(actions_view(legal@).len() == legal@.len());
    let items = match response.array_at("ranked") {
        None => {
            return Err(inference_error(InferenceErrorKind::Protocol, "ranked branch must be an array"));
        },
        Some(items) => items,
    };
    let ghost all = items_view(items@);
    assert(all.len() == items@.len());
    let ranks = match entry_ranks(items) {
        Ok(v) => v,
        Err(e) => {
            return Err(e);
        },
    };
    let bad = unnameable_entries(items, protocol);
    match find_leader(&ranks, &bad, Ghost(all)) {
        Some(i) => {
            let a = action_of_entry(&items[i]);
            assert(all[i as int] == items@[i as int]@);
            match validate_response_action_protocol(&a, protocol) {
                Err(e) => {
                    proof { lemma_leader_hits(all, bad@); }
                    return Err(e);
                },
                Ok(_) => {
                    proof { lemma_leader_hits(all, bad@); }
                },
            }
        },
        None => {},
    }
    let ends = decisive_entries(items, legal, four, seat, Ghost(v1));
    match find_leader(&ranks, &ends, Ghost(all)) {
        None => {
            let d = join3("no ranked ", if four { "4p" } else { "3p" }, " action exactly matched current legal list");
            Err(inference_error(InferenceErrorKind::InvalidAction, d.as_str()))
        },
        Some(i) => {
            let a = action_of_entry(&items[i]);
            assert(all[i as int] == items@[i as int]@);
            proof { lemma_leader_hits(all, ends@); }
            match parse_for(&a, seat, four) {
                Err(e) => Err(e),
                Ok(action) => match find_legal(legal, &action) {
                    Some(index) => Ok(InferenceDecision::Select { index, meta: response_meta(response, legal.len()) }),
                    None => {
                        assert(false);
                        Ok(InferenceDecision::Abstain)
                    },
                },
            }
        },
    }
}

proof fn lemma_leader_hits(items: Seq<JsonView>, hits: Seq<bool>)
    requires
        leader(items, hits) is Some,
    ensures
        leads(items, hits, leader(items, hits)->0),
{
}

/// The decision of a reply that belongs to a request. An engine that ranks actions has to have
/// said so.
pub open spec fn decided(response: JsonView, legal: Seq<ActionFacts>, at: Place, ranks: bool) -> Result<DecisionFacts, Fault> {
    match branch(response) {
        Err(e) => Err(e),
        Ok(ResponseBranch::Select) => selected(response, legal.len()),
        Ok(ResponseBranch::Action) => named(response, legal, at),
        Ok(ResponseBranch::Ranked) => if ranks {
            ranked(response, legal, at)
        } else {
            Err(protocol_fault("engine returned ranked actions without declaring returns_ranked_actions"@))
        },
        Ok(ResponseBranch::Abstain) => Ok(DecisionFacts::Abstain),
        Ok(ResponseBranch::DeclareReach) => Err(protocol_fault("declare_reach is only valid through the stage driver entry"@)),
    }
}

/// The decision of a reply to a request.
pub open spec fn answered(response: JsonView, built: BuiltFacts, legal: Seq<ActionFacts>, at: Place, ranks: bool) -> Result<
    DecisionFacts,
    Fault,
> {
    match echo_fault(response, built) {
        Some(e) => Err(e),
        None => decided(response, legal, at, ranks),
    }
}

/// The decision of a reply that belongs to a request.
pub fn decide(response: &Json, legal: &[LegalAction], four: bool, seat: u8, protocol: &str, ranks: bool) -> (r: Result<
    InferenceDecision,
    InferenceError,
>)
    ensures
        decision_view(r) == decided(
            response@,
            actions_view(legal@),
            Place { four, seat, v1: protocol@ == FLYA_INFERENCE_PROTOCOL_V1@ },
            ranks,
        ),
{
    assert(actions_view(legal@).len() == legal@.len());
    match response_branch(response) {
        Err(e) => Err(e),
        Ok(ResponseBranch::Select) => select_decision(response, legal.len()),
        Ok(ResponseBranch::Action) => named_decision(response, legal, four, seat, protocol),
        Ok(ResponseBranch::Ranked) => if ranks {
            ranked_decision(response, legal, four, seat, protocol)
        } else {
            Err(
                inference_error(
                    InferenceErrorKind::Protocol,
                    "engine returned ranked actions without declaring returns_ranked_actions",
                ),
            )
        },
        Ok(ResponseBranch::Abstain) => Ok(InferenceDecision::Abstain),
        Ok(ResponseBranch::DeclareReach) => Err(
            inference_error(
                InferenceErrorKind::Protocol,
                "declare_reach is only valid through the stage driver entry",
            ),
        ),
    }
}

proof fn lemma_legal_index(legal: Seq<ActionFacts>, action: ActionFacts)
    requires
        legal_index(legal, action) is Some,
    ensures
        0 <= legal_index(legal, action)->0 < legal.len(),
{
    let i = choose|i: int| 0 <= i < legal.len() && crate::inference::parse::stands_for(#[trigger] legal[i], action);
    lemma_first_standing(legal, action, i);
}

proof fn lemma_first_standing(legal: Seq<ActionFacts>, action: ActionFacts, i: int)
    requires
        0 <= i < legal.len(),
        crate::inference::parse::stands_for(legal[i], action),
    ensures
        exists|k: int|
            0 <= k < legal.len() && crate::inference::parse::stands_for(#[trigger] legal[k], action) && forall|j: int|
                0 <= j < k ==> !crate::inference::parse::stands_for(#[trigger] legal[j], action),
    decreases i,
{
    if exists|j: int| 0 <= j < i && crate::inference::parse::stands_for(#[trigger] legal[j], action) {
        let j = choose|j: int| 0 <= j < i && crate::inference::parse::stands_for(#[trigger] legal[j], action);
        lemma_first_standing(legal, action, j);
    } else {
        assert(forall|j: int| 0 <= j < i ==> !crate::inference::parse::stands_for(#[trigger] legal[j], action));
    }
}

/// Whatever an engine replies, a decision is one of the legal actions or none.
#[verifier::rlimit(40)]
pub proof fn decisions_are_legal(response: JsonView, built: BuiltFacts, legal: Seq<ActionFacts>, at: Place, ranks: bool)
    requires
        legal.len() <= usize::MAX,
    ensures
        match answered(response, built, legal, at, ranks) {
            Ok(DecisionFacts::Select { index, .. }) => index < legal.len(),
            _ => true,
        },
{
    if echo_fault(response, built) is None {
        match branch(response) {
            Ok(ResponseBranch::Action) => {
                if response.get("action"@) is Some && response_action(
                    response.get("action"@)->0,
                    at.seat,
                    at.four,
                    at.v1,
                ) is Ok {
                    let a = response_action(response.get("action"@)->0, at.seat, at.four, at.v1)->Ok_0;
                    if legal_index(legal, a) is Some {
                        lemma_legal_index(legal, a);
                    }
                }
            },
            Ok(ResponseBranch::Ranked) => {
                if ranks && response.array_at("ranked"@) is Some {
                    let items = response.array_at("ranked"@)->0;
                    let hits = decisive(items, legal, at);
                    if leader(items, hits) is Some {
                        lemma_leader_hits(items, hits);
                        let i = leader(items, hits)->0;
                        let p = parsed_action(entry_action(items[i]), at.seat, at.four);
                        if p is Ok {
                            assert(hits[i]);
                            lemma_legal_index(legal, p->Ok_0);
                        }
                    }
                }
            },
            _ => {},
        }
    }
}

/// A reply that echoes another decision, other legal actions or another state decides nothing.
pub proof fn stale_replies_decide_nothing(response: JsonView, built: BuiltFacts, legal: Seq<ActionFacts>, at: Place, ranks: bool)
    requires
        response.text_at("decision_id"@) != Some(built.decision_id) || response.text_at("legal_digest"@) != Some(
            built.legal_digest,
        ) || response.text_at("state_digest"@) != Some(built.state_digest),
    ensures
        answered(response, built, legal, at, ranks) is Err,
{
}

} // verus!
