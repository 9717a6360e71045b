//! What an engine is sent: every part of a request under its own name.

use vstd::prelude::*;
use vstd::string::*;
use crate::inference::contract::{RuleLine, FLYA_INFERENCE_PROTOCOL_V2};
use crate::inference::request::{
    built, digest, legal_document, request_body, state_document, state_json, version_of, AskFacts, DecisionPhase,
};
use crate::json::{number, set_member_is_read_back, JsonView};

verus! {

proof fn lemma_with(j: JsonView, key: Seq<char>, v: JsonView, other: Seq<char>)
    requires
        j is Object,
    ensures
        j.with(key, v) is Object,
        j.with(key, v).get(other) == if other == key { Some(v) } else { j.get(other) },
{
    set_member_is_read_back(j->Object_0, key, v, other);
}

proof fn lemma_empty(other: Seq<char>)
    ensures
        JsonView::object() is Object,
        JsonView::object().get(other) is None,
{
}

spec fn is_key(s: Seq<char>, len: int, a: char) -> bool {
    s.len() == len && s[0] == a
}

proof fn lemma_keys()
    ensures
        is_key("v"@, 1, 'v'),
        is_key("cmd"@, 3, 'c'),
        is_key("seat"@, 4, 's'),
        is_key("decision_id"@, 11, 'd'),
        is_key("phase"@, 5, 'p'),
        is_key("legal_digest"@, 12, 'l'),
        is_key("state_digest"@, 12, 's'),
        is_key("session_id"@, 10, 's'),
        "session_id"@[1] == 'e',
        is_key("state_sync"@, 10, 's'),
        "state_sync"@[1] == 't',
        is_key("base_seq"@, 8, 'b'),
        is_key("to_seq"@, 6, 't'),
        is_key("state"@, 5, 's'),
        is_key("remote_auth"@, 11, 'r'),
        is_key("rule_line"@, 9, 'r'),
        is_key("player_count"@, 12, 'p'),
        is_key("match_context"@, 13, 'm'),
        is_key("wall_remaining"@, 14, 'w'),
        is_key("source"@, 6, 's'),
        is_key("events"@, 6, 'e'),
        is_key("legal_actions"@, 13, 'l'),
        is_key("protocol_version"@, 16, 'p'),
        is_key("viewer_seat"@, 11, 'v'),
        is_key("seq"@, 3, 's'),
{
    reveal_strlit("v");
    reveal_strlit("cmd");
    reveal_strlit("seat");
    reveal_strlit("decision_id");
    reveal_strlit("phase");
    reveal_strlit("legal_digest");
    reveal_strlit("state_digest");
    reveal_strlit("session_id");
    reveal_strlit("state_sync");
    reveal_strlit("base_seq");
    reveal_strlit("to_seq");
    reveal_strlit("state");
    reveal_strlit("remote_auth");
    reveal_strlit("rule_line");
    reveal_strlit("player_count");
    reveal_strlit("match_context");
    reveal_strlit("wall_remaining");
    reveal_strlit("source");
    reveal_strlit("events");
    reveal_strlit("legal_actions");
    reveal_strlit("protocol_version");
    reveal_strlit("viewer_seat");
    reveal_strlit("seq");
}

/// What a request holds under a name.
pub open spec fn asked(a: AskFacts, q: Seq<char>) -> Option<JsonView> {
    if q == "state"@ {
        Some(state_json(a))
    } else if q == "to_seq"@ {
        Some(JsonView::UInt(a.to_seq))
    } else if q == "base_seq"@ {
        Some(JsonView::Null)
    } else if q == "state_sync"@ {
        Some(JsonView::Text("full"@))
    } else if q == "session_id"@ {
        Some(JsonView::Text(a.session_id))
    } else if q == "state_digest"@ {
        Some(JsonView::Text(digest(state_document(a))))
    } else if q == "legal_digest"@ {
        Some(JsonView::Text(digest(legal_document(a))))
    } else if q == "phase"@ {
        Some(JsonView::Text(if a.phase == DecisionPhase::Discard { "discard"@ } else { "response"@ }))
    } else if q == "decision_id"@ {
        Some(JsonView::Text(a.decision_id))
    } else if q == "seat"@ {
        Some(number(a.viewer_seat as int))
    } else if q == "cmd"@ {
        Some(JsonView::Text("infer"@))
    } else if q == "v"@ {
        Some(JsonView::UInt(if a.protocol == FLYA_INFERENCE_PROTOCOL_V2@ { 2 } else { 1 }))
    } else {
        None
    }
}

proof fn lemma_request(a: AskFacts, q: Seq<char>)
    ensures
        request_body(a) is Object,
        request_body(a).get(q) == asked(a, q),
{
    let legal = JsonView::Text(digest(legal_document(a)));
    let state = JsonView::Text(digest(state_document(a)));
    let phase = JsonView::Text(a.phase.spec_as_str());
    let j0 = JsonView::object();
    let j1 = j0.with("v"@, JsonView::UInt(version_of(a.protocol)));
    let j2 = j1.with("cmd"@, JsonView::Text("infer"@));
    let j3 = j2.with("seat"@, number(a.viewer_seat as int));
    let j4 = j3.with("decision_id"@, JsonView::Text(a.decision_id));
    let j5 = j4.with("phase"@, phase);
    let j6 = j5.with("legal_digest"@, legal);
    let j7 = j6.with("state_digest"@, state);
    let j8 = j7.with("session_id"@, JsonView::Text(a.session_id));
    let j9 = j8.with("state_sync"@, JsonView::Text("full"@));
    let j10 = j9.with("base_seq"@, JsonView::Null);
    let j11 = j10.with("to_seq"@, JsonView::UInt(a.to_seq));
    lemma_empty(q);
    lemma_with(j0, "v"@, JsonView::UInt(version_of(a.protocol)), q);
    lemma_with(j1, "cmd"@, JsonView::Text("infer"@), q);
    lemma_with(j2, "seat"@, number(a.viewer_seat as int), q);
    lemma_with(j3, "decision_id"@, JsonView::Text(a.decision_id), q);
    lemma_with(j4, "phase"@, phase, q);
    lemma_with(j5, "legal_digest"@, legal, q);
    lemma_with(j6, "state_digest"@, state, q);
    lemma_with(j7, "session_id"@, JsonView::Text(a.session_id), q);
    lemma_with(j8, "state_sync"@, JsonView::Text("full"@), q);
    lemma_with(j9, "base_seq"@, JsonView::Null, q);
    lemma_with(j10, "to_seq"@, JsonView::UInt(a.to_seq), q);
    lemma_with(j11, "state"@, state_json(a), q);
}

/// A request says which decision of which seat it asks for, and carries the digests that the reply has to
/// echo; a ticket is sent exactly where there is one that is not empty.
pub proof fn requests_name_what_they_ask_for(a: AskFacts)
    ensures
        ({
            let b = built(a);
            let r = b.request;
            &&& r.text_at("decision_id"@) == Some(a.decision_id) && b.decision_id == a.decision_id
            &&& r.text_at("legal_digest"@) == Some(b.legal_digest) && r.text_at("state_digest"@) == Some(b.state_digest)
            &&& r.text_at("session_id"@) == Some(a.session_id)
            &&& r.text_at("phase"@) == Some(if a.phase == DecisionPhase::Discard { "discard"@ } else { "response"@ })
            &&& r.text_at("cmd"@) == Some("infer"@) && r.text_at("state_sync"@) == Some("full"@)
            &&& r.get("seat"@) == Some(number(a.viewer_seat as int)) && b.viewer_seat == a.viewer_seat
            &&& r.get("to_seq"@) == Some(JsonView::UInt(a.to_seq)) && b.to_seq == a.to_seq
            &&& r.get("v"@) == Some(JsonView::UInt(if a.protocol == FLYA_INFERENCE_PROTOCOL_V2@ { 2 } else { 1 }))
            &&& r.get("remote_auth"@) == if a.remote_auth is Some && a.remote_auth->0.len() > 0 {
                Some(JsonView::Text(a.remote_auth->0))
            } else {
                None
            }
            &&& r.get("state"@) is Some && b.legal_digest == digest(legal_document(a)) && b.state_digest == digest(state_document(a))
        }),
{
    lemma_keys();
    lemma_sent(a, "decision_id"@);
    lemma_sent(a, "legal_digest"@);
    lemma_sent(a, "state_digest"@);
    lemma_sent(a, "session_id"@);
    lemma_sent(a, "phase"@);
    lemma_sent(a, "cmd"@);
    lemma_sent(a, "state_sync"@);
    lemma_sent(a, "seat"@);
    lemma_sent(a, "to_seq"@);
    lemma_sent(a, "v"@);
    lemma_sent(a, "remote_auth"@);
    lemma_sent(a, "state"@);
}

proof fn lemma_sent(a: AskFacts, q: Seq<char>)
    ensures
        built(a).request.get(q) == if q == "remote_auth"@ && a.remote_auth is Some && a.remote_auth->0.len() > 0 {
            Some(JsonView::Text(a.remote_auth->0))
        } else {
            asked(a, q)
        },
{
    lemma_request(a, q);
    if a.remote_auth is Some && a.remote_auth->0.len() > 0 {
        lemma_with(request_body(a), "remote_auth"@, JsonView::Text(a.remote_auth->0), q);
    }
}

proof fn lemma_state(a: AskFacts, q: Seq<char>)
    ensures
        state_json(a).get(q) == if q == "legal_actions"@ {
            Some(JsonView::Array(a.legal_actions))
        } else if q == "events"@ {
            Some(JsonView::Array(a.events))
        } else if q == "source"@ {
            Some(a.source.wire_value())
        } else if q == "wall_remaining"@ {
            Some(number(a.wall_remaining as int))
        } else if q == "match_context"@ {
            Some(a.match_context)
        } else if q == "player_count"@ {
            Some(number(a.player_count as int))
        } else if q == "rule_line"@ {
            Some(JsonView::Text(a.rule_line.spec_wire_value()))
        } else {
            None
        },
{
    let j0 = JsonView::object();
    let j1 = j0.with("rule_line"@, JsonView::Text(a.rule_line.spec_wire_value()));
    let j2 = j1.with("player_count"@, number(a.player_count as int));
    let j3 = j2.with("match_context"@, a.match_context);
    let j4 = j3.with("wall_remaining"@, number(a.wall_remaining as int));
    let j5 = j4.with("source"@, a.source.wire_value());
    let j6 = j5.with("events"@, JsonView::Array(a.events));
    lemma_empty(q);
    lemma_with(j0, "rule_line"@, JsonView::Text(a.rule_line.spec_wire_value()), q);
    lemma_with(j1, "player_count"@, number(a.player_count as int), q);
    lemma_with(j2, "match_context"@, a.match_context, q);
    lemma_with(j3, "wall_remaining"@, number(a.wall_remaining as int), q);
    lemma_with(j4, "source"@, a.source.wire_value(), q);
    lemma_with(j5, "events"@, JsonView::Array(a.events), q);
    lemma_with(j6, "legal_actions"@, JsonView::Array(a.legal_actions), q);
}

/// The state of a request is the game, the table, the events so far and the legal actions.
pub proof fn requests_carry_the_state(a: AskFacts)
    ensures
        ({
            let s = built(a).request.get("state"@)->0;
            &&& s.text_at("rule_line"@) == Some(if a.rule_line == RuleLine::Riichi4p { "riichi4p"@ } else { "riichi3p"@ })
            &&& s.get("player_count"@) == Some(number(a.player_count as int))
            &&& s.get("match_context"@) == Some(a.match_context)
            &&& s.get("wall_remaining"@) == Some(number(a.wall_remaining as int))
            &&& s.get("events"@) == Some(JsonView::Array(a.events))
            &&& s.get("legal_actions"@) == Some(JsonView::Array(a.legal_actions))
            &&& s.get("source"@) == Some(a.source.wire_value())
        }),
{
    lemma_keys();
    lemma_sent(a, "state"@);
    lemma_state(a, "rule_line"@);
    lemma_state(a, "player_count"@);
    lemma_state(a, "match_context"@);
    lemma_state(a, "wall_remaining"@);
    lemma_state(a, "events"@);
    lemma_state(a, "legal_actions"@);
    lemma_state(a, "source"@);
}

proof fn lemma_legal(a: AskFacts, q: Seq<char>)
    ensures
        legal_document(a).get(q) == if q == "legal_actions"@ {
            Some(JsonView::Array(a.legal_actions))
        } else if q == "wall_remaining"@ {
            Some(number(a.wall_remaining as int))
        } else if q == "seq"@ {
            Some(JsonView::UInt(a.to_seq))
        } else if q == "phase"@ {
            Some(JsonView::Text(a.phase.spec_as_str()))
        } else if q == "viewer_seat"@ {
            Some(number(a.viewer_seat as int))
        } else if q == "rule_line"@ {
            Some(JsonView::Text(a.rule_line.spec_wire_value()))
        } else if q == "protocol_version"@ {
            Some(JsonView::Text(a.protocol))
        } else {
            None
        },
{
    let j0 = JsonView::object();
    let j1 = j0.with("protocol_version"@, JsonView::Text(a.protocol));
    let j2 = j1.with("rule_line"@, JsonView::Text(a.rule_line.spec_wire_value()));
    let j3 = j2.with("viewer_seat"@, number(a.viewer_seat as int));
    let j4 = j3.with("phase"@, JsonView::Text(a.phase.spec_as_str()));
    let j5 = j4.with("seq"@, JsonView::UInt(a.to_seq));
    let j6 = j5.with("wall_remaining"@, number(a.wall_remaining as int));
    lemma_empty(q);
    lemma_with(j0, "protocol_version"@, JsonView::Text(a.protocol), q);
    lemma_with(j1, "rule_line"@, JsonView::Text(a.rule_line.spec_wire_value()), q);
    lemma_with(j2, "viewer_seat"@, number(a.viewer_seat as int), q);
    lemma_with(j3, "phase"@, JsonView::Text(a.phase.spec_as_str()), q);
    lemma_with(j4, "seq"@, JsonView::UInt(a.to_seq), q);
    lemma_with(j5, "wall_remaining"@, number(a.wall_remaining as int), q);
    lemma_with(j6, "legal_actions"@, JsonView::Array(a.legal_actions), q);
}

proof fn lemma_stated(a: AskFacts, q: Seq<char>)
    ensures
        state_document(a).get(q) == if q == "events"@ {
            Some(JsonView::Array(a.events))
        } else if q == "wall_remaining"@ {
            Some(number(a.wall_remaining as int))
        } else if q == "to_seq"@ {
            Some(JsonView::UInt(a.to_seq))
        } else if q == "source"@ {
            Some(a.source.digest_value())
        } else if q == "viewer_seat"@ {
            Some(number(a.viewer_seat as int))
        } else if q == "rule_line"@ {
            Some(JsonView::Text(a.rule_line.spec_wire_value()))
        } else if q == "protocol_version"@ {
            Some(JsonView::Text(a.protocol))
        } else {
            None
        },
{
    let j0 = JsonView::object();
    let j1 = j0.with("protocol_version"@, JsonView::Text(a.protocol));
    let j2 = j1.with("rule_line"@, JsonView::Text(a.rule_line.spec_wire_value()));
    let j3 = j2.with("viewer_seat"@, number(a.viewer_seat as int));
    let j4 = j3.with("source"@, a.source.digest_value());
    let j5 = j4.with("to_seq"@, JsonView::UInt(a.to_seq));
    let j6 = j5.with("wall_remaining"@, number(a.wall_remaining as int));
    lemma_empty(q);
    lemma_with(j0, "protocol_version"@, JsonView::Text(a.protocol), q);
    lemma_with(j1, "rule_line"@, JsonView::Text(a.rule_line.spec_wire_value()), q);
    lemma_with(j2, "viewer_seat"@, number(a.viewer_seat as int), q);
    lemma_with(j3, "source"@, a.source.digest_value(), q);
    lemma_with(j4, "to_seq"@, JsonView::UInt(a.to_seq), q);
    lemma_with(j5, "wall_remaining"@, number(a.wall_remaining as int), q);
    lemma_with(j6, "events"@, JsonView::Array(a.events), q);
}

/// The digest of the legal actions covers them with the seat, the phase, the last event and the wall; that
/// of the state covers the events with the seat, the source and the wall.
pub proof fn digests_cover_what_was_asked(a: AskFacts)
    ensures
        legal_document(a).get("legal_actions"@) == Some(JsonView::Array(a.legal_actions)),
        legal_document(a).get("viewer_seat"@) == Some(number(a.viewer_seat as int)),
        legal_document(a).get("seq"@) == Some(JsonView::UInt(a.to_seq)),
        legal_document(a).get("wall_remaining"@) == Some(number(a.wall_remaining as int)),
        legal_document(a).get("phase"@) == Some(
            JsonView::Text(if a.phase == DecisionPhase::Discard { "discard"@ } else { "response"@ }),
        ),
        legal_document(a).get("protocol_version"@) == Some(JsonView::Text(a.protocol)),
        state_document(a).get("events"@) == Some(JsonView::Array(a.events)),
        state_document(a).get("viewer_seat"@) == Some(number(a.viewer_seat as int)),
        state_document(a).get("to_seq"@) == Some(JsonView::UInt(a.to_seq)),
        state_document(a).get("wall_remaining"@) == Some(number(a.wall_remaining as int)),
        state_document(a).get("source"@) == Some(a.source.digest_value()),
        state_document(a).get("protocol_version"@) == Some(JsonView::Text(a.protocol)),
{
    lemma_keys();
    lemma_legal(a, "legal_actions"@);
    lemma_legal(a, "viewer_seat"@);
    lemma_legal(a, "seq"@);
    lemma_legal(a, "wall_remaining"@);
    lemma_legal(a, "phase"@);
    lemma_legal(a, "protocol_version"@);
    lemma_stated(a, "events"@);
    lemma_stated(a, "viewer_seat"@);
    lemma_stated(a, "to_seq"@);
    lemma_stated(a, "wall_remaining"@);
    lemma_stated(a, "source"@);
    lemma_stated(a, "protocol_version"@);
}

} // verus!
