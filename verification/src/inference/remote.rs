//! Engines over the network: what is sent, and what a reply means.

use vstd::prelude::*;
use vstd::string::*;
use crate::inference::contract::{
    actions_view, decision_view, fault, inference_error, protocol_fault, string_view, DecisionFacts, Fault,
    InferenceDecision, InferenceError, InferenceErrorKind, LegalAction, RuleLine,
};
use crate::inference::request::{
    build_remote_infer_request_3p, build_remote_infer_request_4p, events_json_3p, events_json_4p, remote_request,
    InferenceInput3p, InferenceInput4p, RemoteHttpConfig,
};
use crate::inference::wire::{json_result, legal_actions_to_wire, plain_actions_wire};
use crate::json::{items_view, written, Json, JsonView};
use crate::text::{dec, dec_u64, dec_usize, join3, owned, trim, trimmed};

verus! {

/// The message of a reply that reports an error.
pub open spec fn message_of(j: JsonView, otherwise: Seq<char>) -> Seq<char> {
    let text = match j.get("message"@) {
        Some(m) => m.as_text(),
        None => j.text_at("error"@),
    };
    match text {
        Some(t) => t,
        None => otherwise,
    }
}

/// What a status says of a call that failed.
pub open spec fn status_kind(status: u16) -> InferenceErrorKind {
    if 401 <= status <= 403 {
        InferenceErrorKind::EngineUnavailable
    } else if status == 408 || status == 504 {
        InferenceErrorKind::Timeout
    } else if status == 409 {
        InferenceErrorKind::StaleDecision
    } else {
        InferenceErrorKind::Protocol
    }
}

/// The decision of a reply. It has to echo the decision and the action that it selects.
pub open spec fn remote_decision(response: JsonView, decision_id: Seq<char>, legal: Seq<JsonView>) -> Result<DecisionFacts, Fault> {
    match response.bool_at("ok"@) {
        Some(false) => Err(protocol_fault(message_of(response, "remote inference returned ok:false"@))),
        None => Err(protocol_fault("remote inference response missing ok boolean"@)),
        Some(true) => if response.text_at("decision_id"@) != Some(decision_id) {
            Err(fault(InferenceErrorKind::StaleDecision, "remote inference decision_id echo mismatch"@))
        } else {
            match response.u64_at("selected_index"@) {
                None => Err(protocol_fault("remote inference response missing selected_index"@)),
                Some(n) => if n >= legal.len() {
                    Err(
                        fault(
                            InferenceErrorKind::InvalidAction,
                            "remote selected_index "@ + dec(n as nat) + " out of range"@,
                        ),
                    )
                } else if response.get("action"@) != Some(legal[n as int]) {
                    Err(
                        fault(
                            InferenceErrorKind::InvalidAction,
                            "remote inference action echo does not match selected_index"@,
                        ),
                    )
                } else {
                    Ok(DecisionFacts::Select { index: n as usize, meta: remote_meta(response) })
                },
            }
        },
    }
}

/// What a reply remarks, if anything.
pub open spec fn remote_meta(response: JsonView) -> Option<Seq<char>> {
    match response.get("meta"@) {
        None => None,
        Some(m) => if m is Null { None } else { Some(written(m)) },
    }
}

/// The decision of a call: its status, and the reply if the call went well.
pub open spec fn remote_outcome(status: u16, response: JsonView, decision_id: Seq<char>, legal: Seq<JsonView>) -> Result<
    DecisionFacts,
    Fault,
> {
    if 200 <= status < 300 {
        remote_decision(response, decision_id, legal)
    } else {
        Err(
            fault(
                status_kind(status),
                "remote status "@ + dec(status as nat) + ": "@ + message_of(response, "remote inference failed"@),
            ),
        )
    }
}

fn error_message(j: &Json, otherwise: &str) -> (r: String)
    ensures
        r@ == message_of(j@, otherwise@),
{
    let text: Option<&str> = match j.get("message") {
        Some(m) => m.as_str(),
        None => j.text_at("error"),
    };
    match text {
        Some(t) => owned(t),
        None => owned(otherwise),
    }
}

/// The decision of a reply.
pub fn parse_remote_infer_response(response: &Json, decision_id: &str, legal_actions: &Vec<Json>) -> (r: Result<
    InferenceDecision,
    InferenceError,
>)
    ensures
        decision_view(r) == remote_decision(response@, decision_id@, items_view(legal_actions@)),
{
    let ghost legal = items_view(legal_actions@);
    assert(legal.len() == legal_actions@.len());
    match response.bool_at("ok") {
        Some(true) => {},
        Some(false) => {
            let d = error_message(response, "remote inference returned ok:false");
            return Err(inference_error(InferenceErrorKind::Protocol, d.as_str()));
        },
        None => {
            return Err(inference_error(InferenceErrorKind::Protocol, "remote inference response missing ok boolean"));
        },
    }
    if !response.has_text("decision_id", decision_id) {
        return Err(inference_error(InferenceErrorKind::StaleDecision, "remote inference decision_id echo mismatch"));
    }
    let n: u64 = match response.u64_at("selected_index") {
        Some(n) => n,
        None => {
            return Err(inference_error(InferenceErrorKind::Protocol, "remote inference response missing selected_index"));
        },
    };
    if n >= legal_actions.len() as u64 {
        let d = join3("remote selected_index ", dec_u64(n).as_str(), " out of range");
        return Err(inference_error(InferenceErrorKind::InvalidAction, d.as_str()));
    }
    let index = n as usize;
    assert(legal[index as int] == legal_actions@[index as int]@);
    let echoed = match response.get("action") {
        Some(a) => a.same_as(&legal_actions[index]),
        None => false,
    };
    if !echoed {
        return Err(
            inference_error(
                InferenceErrorKind::InvalidAction,
                "remote inference action echo does not match selected_index",
            ),
        );
    }
    let meta: Option<String> = match response.get("meta") {
        None => None,
        Some(m) => match m {
            Json::Null => None,
            _ => Some(m.write()),
        },
    };
    Ok(InferenceDecision::Select { index, meta })
}

/// The decision of a call, from its status and its reply.
pub fn parse_remote_reply(status: u16, response: &Json, decision_id: &str, legal: &[LegalAction]) -> (r: Result<
    InferenceDecision,
    InferenceError,
>)
    ensures
        decision_view(r) == remote_outcome(status, response@, decision_id@, plain_actions_wire(actions_view(legal@))),
{
    if status >= 200 && status < 300 {
        return parse_remote_infer_response(response, decision_id, &legal_actions_to_wire(legal));
    }
    let kind = if status >= 401 && status <= 403 {
        InferenceErrorKind::EngineUnavailable
    } else if status == 408 || status == 504 {
        InferenceErrorKind::Timeout
    } else if status == 409 {
        InferenceErrorKind::StaleDecision
    } else {
        InferenceErrorKind::Protocol
    };
    let mut d = join3("remote status ", dec_usize(status as usize).as_str(), ": ");
    d.append(error_message(response, "remote inference failed").as_str());
    Err(inference_error(kind, d.as_str()))
}

/// An engine that is reached over the network.
pub struct RemoteHttpHost {
    pub config: RemoteHttpConfig,
}

impl RemoteHttpHost {
    /// An engine behind an endpoint, which cannot be blank.
    pub fn new(config: RemoteHttpConfig) -> (r: Result<Self, InferenceError>)
        ensures
            match r {
                Ok(h) => trimmed(config.endpoint@).len() > 0 && h.config == config,
                Err(e) => trimmed(config.endpoint@).len() == 0 && e@ == protocol_fault("remote endpoint is empty"@),
            },
    {
        if trim(config.endpoint.as_str()).as_str().is_empty() {
            return Err(inference_error(InferenceErrorKind::Protocol, "remote endpoint is empty"));
        }
        Ok(RemoteHttpHost { config })
    }

    pub fn config(&self) -> (r: &RemoteHttpConfig)
        ensures
            *r == self.config,
    {
        &self.config
    }

    /// The token that a call is made with; a blank one is none.
    pub fn token(&self) -> (r: Option<String>)
        ensures
            string_view(r) == match self.config.bearer_token {
                None => None,
                Some(t) => if trimmed(t@).len() == 0 { None } else { Some(trimmed(t@)) },
            },
    {
        match &self.config.bearer_token {
            None => None,
            Some(t) => {
                let s = trim(t.as_str());
                if s.as_str().is_empty() {
                    None
                } else {
                    Some(s)
                }
            },
        }
    }

    /// What is sent for a four-player decision.
    pub fn prepare_4p(&self, input: &InferenceInput4p<'_>) -> (r: Result<Json, InferenceError>)
        ensures
            json_result(r) == if self.config.rule_line != RuleLine::Riichi4p {
                Err(protocol_fault("4p infer called on non-riichi4p remote host"@))
            } else {
                Ok(
                    remote_request(
                        self.config,
                        input.decision_id@,
                        input.phase,
                        input.wall_remaining,
                        events_json_4p(input.events@),
                        plain_actions_wire(actions_view(input.legal_actions@)),
                    ),
                )
            },
    {
        if self.config.rule_line != RuleLine::Riichi4p {
            return Err(inference_error(InferenceErrorKind::Protocol, "4p infer called on non-riichi4p remote host"));
        }
        Ok(build_remote_infer_request_4p(&self.config, input))
    }

    /// What is sent for a three-player decision.
    pub fn prepare_3p(&self, input: &InferenceInput3p<'_>) -> (r: Result<Json, InferenceError>)
        ensures
            json_result(r) == if self.config.rule_line != RuleLine::Riichi3p {
                Err(protocol_fault("3p infer called on non-riichi3p remote host"@))
            } else {
                Ok(
                    remote_request(
                        self.config,
                        input.decision_id@,
                        input.phase,
                        input.wall_remaining,
                        events_json_3p(input.events@),
                        plain_actions_wire(actions_view(input.legal_actions@)),
                    ),
                )
            },
    {
        if self.config.rule_line != RuleLine::Riichi3p {
            return Err(inference_error(InferenceErrorKind::Protocol, "3p infer called on non-riichi3p remote host"));
        }
        Ok(build_remote_infer_request_3p(&self.config, input))
    }
}

/// Whatever comes back over the network, a decision is one of the legal actions, echoed.
pub proof fn remote_decisions_are_legal(status: u16, response: JsonView, decision_id: Seq<char>, legal: Seq<JsonView>)
    requires
        legal.len() <= usize::MAX,
    ensures
        match remote_outcome(status, response, decision_id, legal) {
            Ok(DecisionFacts::Select { index, .. }) => index < legal.len() && response.get("action"@) == Some(
                legal[index as int],
            ),
            Ok(DecisionFacts::Abstain) => false,
            Err(_) => true,
        },
{
}

} // verus!
