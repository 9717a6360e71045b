//! What a reply has to be for a decision to come of it, and which decision that is.

use vstd::prelude::*;
use crate::inference::contract::{ActionFacts, DecisionFacts, Fault, InferenceErrorKind};
use crate::inference::parse::{legal_index, parsed_action, protocol_action_fault, response_action};
use crate::inference::request::BuiltFacts;
use crate::inference::response::{
    branch, decided, decisive, echo_fault, echo_rebuilds, entries_fault, entry_action, entry_fault, entry_rank,
    leader, leads, named, ranked, unnameable, Place, ResponseBranch,
};
use crate::json::JsonView;

verus! {

/// A reply is taken exactly where it says so and echoes all of the request: the decision, the legal
/// actions, the state, and the last event and state that the engine has seen. Anything else is refused
/// under its own kind of error.
pub proof fn replies_have_to_echo_the_request(response: JsonView, built: BuiltFacts)
    ensures
        ({
            let ok = response.bool_at("ok"@) == Some(true);
            let same = response.text_at("decision_id"@) == Some(built.decision_id) && response.text_at("legal_digest"@) == Some(
                built.legal_digest,
            ) && response.text_at("state_digest"@) == Some(built.state_digest);
            let seen = response.u64_at("engine_ack_seq"@) == Some(built.to_seq) && response.text_at("engine_ack_state_digest"@)
                == Some(built.state_digest);
            let f = echo_fault(response, built);
            &&& f is None <==> ok && same && seen
            &&& ok && !same ==> f is Some && f->0.kind == InferenceErrorKind::StaleDecision
            &&& ok && same && !seen ==> f is Some && f->0.kind == InferenceErrorKind::StateSyncRequired
            &&& response.bool_at("ok"@) is None ==> f is Some && f->0.kind == InferenceErrorKind::Protocol
        }),
{
}

/// An error that an engine reports keeps its kind and its words; one of no known kind is a fault of the
/// protocol. The engine is started again exactly after a fault of the protocol or where it is unavailable.
pub proof fn reported_errors_keep_their_kind(response: JsonView, built: BuiltFacts)
    requires
        response.bool_at("ok"@) == Some(false),
    ensures
        ({
            let f = echo_fault(response, built);
            let k = response.text_at("error_kind"@);
            &&& f is Some
            &&& f->0.kind == InferenceErrorKind::Internal <==> k == Some("internal"@)
            &&& f->0.kind == InferenceErrorKind::StaleDecision <==> k == Some("stale"@)
            &&& f->0.kind == InferenceErrorKind::EngineUnavailable <==> k == Some("unavailable"@)
            &&& f->0.kind == InferenceErrorKind::StateSyncRequired <==> k == Some("state_sync_required"@)
            &&& response.text_at("detail"@) is Some ==> f->0.detail == response.text_at("detail"@)->0
            &&& echo_rebuilds(response) <==> k != Some("internal"@) && k != Some("stale"@) && k != Some("state_sync_required"@)
        }),
{
    reveal_strlit("internal");
    reveal_strlit("stale");
    reveal_strlit("unavailable");
    reveal_strlit("state_sync_required");
    assert("internal"@.len() != "stale"@.len());
    assert("internal"@.len() != "unavailable"@.len());
    assert("internal"@.len() != "state_sync_required"@.len());
    assert("stale"@.len() != "unavailable"@.len());
    assert("stale"@.len() != "state_sync_required"@.len());
    assert("unavailable"@.len() != "state_sync_required"@.len());
}

/// Whether a reply has a branch.
pub open spec fn has_branch(response: JsonView, b: ResponseBranch) -> bool {
    match b {
        ResponseBranch::Select => response.get("select"@) is Some,
        ResponseBranch::Action => response.get("action"@) is Some,
        ResponseBranch::Ranked => response.get("ranked"@) is Some,
        ResponseBranch::Abstain => response.bool_at("abstain"@) == Some(true),
        ResponseBranch::DeclareReach => response.bool_at("declare_reach"@) == Some(true),
    }
}

/// A reply decides by a branch exactly where it has that branch and no other.
pub proof fn replies_decide_by_their_one_branch(response: JsonView, b: ResponseBranch)
    ensures
        branch(response) == Ok::<ResponseBranch, Fault>(b) <==> has_branch(response, b) && forall|o: ResponseBranch| #[trigger]
            has_branch(response, o) ==> o == b,
        branch(response) is Err ==> branch(response)->Err_0.kind == InferenceErrorKind::Protocol,
{
    let s = has_branch(response, ResponseBranch::Select);
    let a = has_branch(response, ResponseBranch::Action);
    let r = has_branch(response, ResponseBranch::Ranked);
    let n = has_branch(response, ResponseBranch::Abstain);
    let d = has_branch(response, ResponseBranch::DeclareReach);
}

/// A number decides exactly where it is that of a legal action, and then for that action.
pub proof fn numbers_decide_for_legal_actions(response: JsonView, legal: Seq<ActionFacts>, at: Place, ranks: bool, n: u64)
    requires
        branch(response) == Ok::<ResponseBranch, Fault>(ResponseBranch::Select),
        response.get("select"@)->0.u64_at("legal_index"@) == Some(n),
        legal.len() <= usize::MAX,
    ensures
        n < legal.len() ==> decided(response, legal, at, ranks) is Ok && decided(response, legal, at, ranks)->Ok_0 is Select
            && decided(response, legal, at, ranks)->Ok_0->index == n,
        n >= legal.len() ==> decided(response, legal, at, ranks) is Err && decided(response, legal, at, ranks)->Err_0.kind
            == InferenceErrorKind::InvalidAction,
{
}

/// An action is the same as a legal one: equal, or in the dealer's opening the same but for where the
/// tile came from.
pub open spec fn is_same(legal: ActionFacts, action: ActionFacts) -> bool {
    ||| legal == action
    ||| legal is DealerOpeningDiscard && action is Discard && legal->DealerOpeningDiscard_pai == action->Discard_pai
        && legal->DealerOpeningDiscard_riichi == action->Discard_riichi
    ||| legal is DealerOpeningTsumo && action is Tsumo
}

proof fn lemma_first_same(legal: Seq<ActionFacts>, action: ActionFacts, i: int)
    requires
        0 <= i < legal.len(),
        is_same(legal[i], action),
        forall|j: int| 0 <= j < i ==> !is_same(#[trigger] legal[j], action),
    ensures
        legal_index(legal, action) == Some(i),
{
    assert forall|j: int| 0 <= j < legal.len() implies crate::inference::parse::stands_for(#[trigger] legal[j], action)
        == is_same(legal[j], action) by {}
    assert(crate::inference::parse::stands_for(legal[i], action));
    let k = legal_index(legal, action)->0;
    assert(0 <= k < legal.len() && crate::inference::parse::stands_for(legal[k], action) && forall|j: int|
        0 <= j < k ==> !crate::inference::parse::stands_for(#[trigger] legal[j], action));
}

proof fn lemma_none_same(legal: Seq<ActionFacts>, action: ActionFacts)
    requires
        forall|j: int| 0 <= j < legal.len() ==> !is_same(#[trigger] legal[j], action),
    ensures
        legal_index(legal, action) is None,
{
}

/// A named action decides for the first legal action that it is the same as, and for none where there is
/// no such action.
pub proof fn named_actions_decide_for_the_first_match(response: JsonView, legal: Seq<ActionFacts>, at: Place, ranks: bool, action: ActionFacts, i: int)
    requires
        branch(response) == Ok::<ResponseBranch, Fault>(ResponseBranch::Action),
        response_action(response.get("action"@)->0, at.seat, at.four, at.v1) == Ok::<ActionFacts, Fault>(action),
        0 <= i <= legal.len() <= usize::MAX,
        i < legal.len() ==> is_same(legal[i], action),
        forall|j: int| 0 <= j < i ==> !is_same(#[trigger] legal[j], action),
    ensures
        ({
            let r = decided(response, legal, at, ranks);
            if i < legal.len() {
                r is Ok && r->Ok_0 is Select && r->Ok_0->index == i
            } else {
                r is Err && r->Err_0.kind == InferenceErrorKind::InvalidAction
            }
        }),
{
    if i < legal.len() {
        lemma_first_same(legal, action, i);
    } else {
        lemma_none_same(legal, action);
    }
}

/// An entry of a ranking is legal: its action can be read and is the same as a legal one.
pub open spec fn is_legal_entry(item: JsonView, legal: Seq<ActionFacts>, at: Place) -> bool {
    let p = parsed_action(entry_action(item), at.seat, at.four);
    p is Ok && exists|j: int| 0 <= j < legal.len() && is_same(#[trigger] legal[j], p->Ok_0)
}

/// A ranking can be read: each entry has an action and a score, and each action can be named and read.
pub open spec fn is_readable(items: Seq<JsonView>, at: Place) -> bool {
    forall|i: int|
        0 <= i < items.len() ==> (#[trigger] items[i]).get("action"@) is Some && items[i].float_at("score"@) is Some
            && protocol_action_fault(entry_action(items[i]), at.v1) is None && parsed_action(
            entry_action(items[i]),
            at.seat,
            at.four,
        ) is Ok
}

proof fn lemma_entries(items: Seq<JsonView>)
    requires
        forall|i: int| 0 <= i < items.len() ==> entry_fault(#[trigger] items[i]) is None,
    ensures
        entries_fault(items) is None,
    decreases items.len(),
{
    if items.len() > 0 {
        let r = items.drop_last();
        assert forall|i: int| 0 <= i < r.len() implies entry_fault(#[trigger] r[i]) is None by {
            assert(items[i] == r[i]);
        }
        lemma_entries(r);
        assert(items[items.len() - 1] == items.last());
    }
}

proof fn lemma_leads(items: Seq<JsonView>, hits: Seq<bool>, i: int)
    requires
        leads(items, hits, i),
    ensures
        leader(items, hits) == Some(i),
{
    let k = leader(items, hits)->0;
    assert(leads(items, hits, k));
}

/// A ranking that can be read decides for its best legal entry: of the legal ones the one with the
/// highest score, the earlier of equals, whatever is ranked above it that is not legal.
pub proof fn rankings_decide_for_the_best_legal_entry(response: JsonView, legal: Seq<ActionFacts>, at: Place, items: Seq<JsonView>, i: int, j: int)
    requires
        branch(response) == Ok::<ResponseBranch, Fault>(ResponseBranch::Ranked),
        response.array_at("ranked"@) == Some(items),
        legal.len() <= usize::MAX,
        is_readable(items, at),
        0 <= i < items.len(),
        is_legal_entry(items[i], legal, at),
        forall|o: int|
            0 <= o < items.len() && o != i && is_legal_entry(#[trigger] items[o], legal, at) ==> entry_rank(items[i]) > entry_rank(
                items[o],
            ) || (entry_rank(items[i]) == entry_rank(items[o]) && i < o),
        0 <= j < legal.len(),
        is_same(legal[j], parsed_action(entry_action(items[i]), at.seat, at.four)->Ok_0),
        forall|o: int|
            0 <= o < j ==> !is_same(#[trigger] legal[o], parsed_action(entry_action(items[i]), at.seat, at.four)->Ok_0),
    ensures
        ({
            let r = decided(response, legal, at, true);
            r is Ok && r->Ok_0 is Select && r->Ok_0->index == j
        }),
        decided(response, legal, at, false) is Err,
{
    lemma_entries(items);
    let bad = unnameable(items, at.v1);
    assert forall|o: int| #![trigger bad[o]] 0 <= o < items.len() implies !bad[o] by {
        assert(protocol_action_fault(entry_action(items[o]), at.v1) is None);
    }
    if exists|o: int| leads(items, bad, o) {
        let o = choose|o: int| leads(items, bad, o);
        assert(bad[o]);
    }
    assert(leader(items, bad) is None);
    let hits = decisive(items, legal, at);
    assert forall|o: int| 0 <= o < items.len() implies #[trigger] hits[o] == is_legal_entry(items[o], legal, at) by {
        let p = parsed_action(entry_action(items[o]), at.seat, at.four);
        assert(p is Ok);
        assert forall|m: int| 0 <= m < legal.len() implies crate::inference::parse::stands_for(#[trigger] legal[m], p->Ok_0)
            == is_same(legal[m], p->Ok_0) by {}
    }
    assert(leads(items, hits, i));
    lemma_leads(items, hits, i);
    lemma_first_same(legal, parsed_action(entry_action(items[i]), at.seat, at.four)->Ok_0, j);
}

/// An engine that abstains leaves the decision open, and one that declares riichi decides nothing on its
/// own.
pub proof fn abstaining_decides_nothing(response: JsonView, legal: Seq<ActionFacts>, at: Place, ranks: bool)
    ensures
        branch(response) == Ok::<ResponseBranch, Fault>(ResponseBranch::Abstain) ==> decided(response, legal, at, ranks) == Ok::<
            DecisionFacts,
            Fault,
        >(DecisionFacts::Abstain),
        branch(response) == Ok::<ResponseBranch, Fault>(ResponseBranch::DeclareReach) ==> decided(response, legal, at, ranks) is Err,
        branch(response) is Err ==> decided(response, legal, at, ranks) is Err,
{
}

} // verus!
