//! What is sent to an engine for a decision.

use vstd::prelude::*;
use vstd::string::*;
use sha2::Digest;
use crate::event::event3p::Event3p;
use crate::event::event4p::Event4p;
use crate::inference::contract::{
    actions_view, Fault, InferenceError, LegalAction, RuleLine, FLYA_INFERENCE_PROTOCOL_V1, FLYA_INFERENCE_PROTOCOL_V2,
};
use crate::inference::wire::{
    actions_wire, dealer_opening_tile_3p, dealer_opening_tile_4p, event_3p_to_json, event_4p_to_json, event_json_3p,
    event_json_4p, legal_actions_to_protocol_wire, legal_actions_to_wire, opening_tile_3p, opening_tile_4p,
    openings_seated_3p, openings_seated_4p, plain_actions_wire, stream_3p, stream_4p, visible_events_3p_to_wire,
    visible_events_4p_to_wire,
};
use crate::json::{canonical, canonical_members_are_ordered, is_ordered, items_view, number, written, Json, JsonView};
use crate::text::{digit_char, digit_str, hex, owned, same};

verus! {

// Digests.

/// What SHA-256 gives for bytes.
pub uninterp spec fn sha256_of(data: Seq<u8>) -> Seq<u8>;

/// `sha2::Sha256::digest`: 32 bytes that depend on the data alone.
#[verifier::external_body]
pub(crate) fn sha256(data: &[u8]) -> (r: Vec<u8>)
    ensures
        r@ == sha256_of(data@),
        r@.len() == 32,
{
    sha2::Sha256::digest(data).to_vec()
}

/// Bytes in lower-case hexadecimal.
pub open spec fn hex_bytes(b: Seq<u8>) -> Seq<char>
    decreases b.len(),
{
    if b.len() == 0 { Seq::empty() } else { hex_bytes(b.drop_last()) + hex(b.last() as nat, 2) }
}

/// Bytes in lower-case hexadecimal.
pub fn hex_of(b: &[u8]) -> (r: String)
    ensures
        r@ == hex_bytes(b@),
{
    let mut out = String::new();
    let mut i: usize = 0;
    assert(b@.take(0) =~= Seq::empty());
    while i < b.len()
        invariant
            i <= b@.len(),
            out@ == hex_bytes(b@.take(i as int)),
        decreases b@.len() - i,
    {
        let ghost before = out@;
        let n = b[i];
        assert(b@.take(i + 1).drop_last() =~= b@.take(i as int));
        assert(b@.take(i + 1).last() == n);
        out.append(digit_str(n / 16));
        out.append(digit_str(n % 16));
        proof {
            let h = digit_char((n / 16) as int);
            let l = digit_char((n % 16) as int);
            reveal_with_fuel(hex, 3);
            assert((n as nat / 16) % 16 == n as nat / 16);
            assert(hex(n as nat, 2) =~= seq![h, l]);
            assert(out@ =~= before + seq![h, l]);
        }
        i = i + 1;
    }
    assert(b@.take(i as int) =~= b@);
    out
}

/// The digest of bytes.
pub open spec fn bytes_digest(data: Seq<u8>) -> Seq<char> {
    "sha256:"@ + hex_bytes(sha256_of(data))
}

/// The digest of a document: of its text, with the members of every object in the order of their
/// keys.
pub open spec fn digest(j: JsonView) -> Seq<char> {
    bytes_digest(vstd::utf8::encode_utf8(written(canonical(j))))
}

/// The digest of bytes.
pub fn digest_bytes(data: &[u8]) -> (r: String)
    ensures
        r@ == bytes_digest(data@),
{
    let mut out = owned("sha256:");
    out.append(hex_of(sha256(data).as_slice()).as_str());
    out
}

/// The digest of a document.
pub fn digest_value(value: &Json) -> (r: String)
    ensures
        r@ == digest(value@),
{
    let text = value.canonical().write();
    digest_bytes(text.as_str().as_bytes())
}

/// Documents that say the same have the same digest, whatever the order of their members.
pub proof fn digests_follow_documents(a: JsonView, b: JsonView)
    requires
        canonical(a) == canonical(b),
    ensures
        digest(a) == digest(b),
        a is Object ==> canonical(a) is Object && is_ordered(canonical(a)->Object_0),
{
    if a is Object {
        canonical_members_are_ordered(a->Object_0, a->Object_0.len());
    }
}

// Terms of a decision.

#[derive(Debug, Clone, Copy, PartialEq, Eq, Structural)]
pub enum DecisionPhase {
    Discard,
    Response,
}

impl DecisionPhase {
    pub open spec fn spec_as_str(self) -> Seq<char> {
        match self {
            DecisionPhase::Discard => "discard"@,
            DecisionPhase::Response => "response"@,
        }
    }

    pub fn as_str(self) -> (r: &'static str)
        ensures
            r@ == self.spec_as_str(),
    {
        match self {
            DecisionPhase::Discard => "discard",
            DecisionPhase::Response => "response",
        }
    }
}

/// Where the state comes from.
#[derive(Debug, Clone, Copy, PartialEq, Eq, Structural)]
pub enum SourceKind {
    Authoritative,
    Observed,
}

impl SourceKind {
    pub open spec fn spec_as_str(self) -> Seq<char> {
        match self {
            SourceKind::Authoritative => "authoritative"@,
            SourceKind::Observed => "observed"@,
        }
    }

    pub fn as_str(self) -> (r: &'static str)
        ensures
            r@ == self.spec_as_str(),
    {
        match self {
            SourceKind::Authoritative => "authoritative",
            SourceKind::Observed => "observed",
        }
    }
}

#[derive(Debug)]
pub struct SourceInfo {
    pub kind: SourceKind,
    pub epoch: u64,
    pub status: String,
}

/// A source, as facts.
pub ghost struct SourceFacts {
    pub kind: SourceKind,
    pub epoch: u64,
    pub status: Seq<char>,
}

impl View for SourceInfo {
    type V = SourceFacts;

    open spec fn view(&self) -> SourceFacts {
        SourceFacts { kind: self.kind, epoch: self.epoch, status: self.status@ }
    }
}

impl SourceFacts {
    pub open spec fn digest_value(self) -> JsonView {
        JsonView::object().with("kind"@, JsonView::Text(self.kind.spec_as_str())).with("epoch"@, JsonView::UInt(self.epoch))
    }

    pub open spec fn wire_value(self) -> JsonView {
        self.digest_value().with("status"@, JsonView::Text(self.status))
    }
}

impl SourceInfo {
    /// The table itself.
    pub fn authoritative() -> (r: Self)
        ensures
            r@ == (SourceFacts { kind: SourceKind::Authoritative, epoch: 0, status: "reconstructable"@ }),
    {
        SourceInfo { kind: SourceKind::Authoritative, epoch: 0, status: owned("reconstructable") }
    }

    /// What the state digest says of the source.
    pub fn digest_value(&self) -> (r: Json)
        ensures
            r@ == self@.digest_value(),
            r@ is Object,
    {
        Json::object().with("kind", Json::text(self.kind.as_str())).with("epoch", Json::UInt(self.epoch))
    }

    /// What a request says of the source.
    pub fn wire_value(&self) -> (r: Json)
        ensures
            r@ == self@.wire_value(),
    {
        self.digest_value().with("status", Json::text(self.status.as_str()))
    }
}

/// Time that an engine has for an answer, in milliseconds.
pub const DEFAULT_INFER_TIMEOUT: u64 = 5000;

/// How an engine process is started, and what it is told.
#[derive(Debug)]
pub struct EngineProcessConfig {
    pub executable: String,
    pub args: Vec<String>,
    pub env: Vec<(String, String)>,
    pub cwd: Option<String>,
    /// In milliseconds.
    pub timeout: u64,
    pub session_id: String,
    pub seat: u8,
    pub rule_line: RuleLine,
    pub match_context: Json,
    /// Versions of the protocol that may be negotiated, best first.
    pub protocol_versions: Vec<String>,
}

impl EngineProcessConfig {
    pub fn new(executable: &str, seat: u8, rule_line: RuleLine, session_id: &str) -> (r: Self)
        ensures
            r.executable@ == executable@,
            r.args@.len() == 0,
            r.env@.len() == 0,
            r.cwd is None,
            r.timeout == DEFAULT_INFER_TIMEOUT,
            r.session_id@ == session_id@,
            r.seat == seat,
            r.rule_line == rule_line,
            r.match_context@ == JsonView::Null,
            r.protocol_versions@.len() == 2,
            r.protocol_versions@[0]@ == FLYA_INFERENCE_PROTOCOL_V2@,
            r.protocol_versions@[1]@ == FLYA_INFERENCE_PROTOCOL_V1@,
    {
        EngineProcessConfig {
            executable: owned(executable),
            args: Vec::new(),
            env: Vec::new(),
            cwd: None,
            timeout: DEFAULT_INFER_TIMEOUT,
            session_id: owned(session_id),
            seat,
            rule_line,
            match_context: Json::Null,
            protocol_versions: vec![owned(FLYA_INFERENCE_PROTOCOL_V2), owned(FLYA_INFERENCE_PROTOCOL_V1)],
        }
    }
}

/// How an engine is reached over the network, and what it is told.
pub struct RemoteHttpConfig {
    pub endpoint: String,
    pub bearer_token: Option<String>,
    /// In milliseconds.
    pub timeout: u64,
    pub session_id: String,
    pub seat: u8,
    pub rule_line: RuleLine,
    pub match_context: Json,
}

impl RemoteHttpConfig {
    pub fn new(endpoint: &str, seat: u8, rule_line: RuleLine, session_id: &str) -> (r: Self)
        ensures
            r.endpoint@ == endpoint@,
            r.bearer_token is None,
            r.timeout == DEFAULT_INFER_TIMEOUT,
            r.session_id@ == session_id@,
            r.seat == seat,
            r.rule_line == rule_line,
            r.match_context@ == JsonView::Null,
    {
        RemoteHttpConfig {
            endpoint: owned(endpoint),
            bearer_token: None,
            timeout: DEFAULT_INFER_TIMEOUT,
            session_id: owned(session_id),
            seat,
            rule_line,
            match_context: Json::Null,
        }
    }
}

/// One decision of a four-player seat.
pub struct InferenceInput4p<'a> {
    pub decision_id: String,
    pub phase: DecisionPhase,
    pub events: &'a [Event4p],
    pub legal_actions: &'a [LegalAction],
    pub wall_remaining: u32,
    pub source: SourceInfo,
    /// Ticket that the engine needs for calls of its own.
    pub remote_auth: Option<String>,
    /// The deciding seat, where it is not the configured one.
    pub seat: Option<u8>,
}

/// One decision of a three-player seat.
pub struct InferenceInput3p<'a> {
    pub decision_id: String,
    pub phase: DecisionPhase,
    pub events: &'a [Event3p],
    pub legal_actions: &'a [LegalAction],
    pub wall_remaining: u32,
    pub source: SourceInfo,
    /// Ticket that the engine needs for calls of its own.
    pub remote_auth: Option<String>,
    /// The deciding seat, where it is not the configured one.
    pub seat: Option<u8>,
    /// The context of the match, where it is not the configured one.
    pub match_context: Option<Json>,
}

// Requests.

/// A request, with what the reply has to echo.
pub struct BuiltInferenceRequest {
    pub request: Json,
    pub decision_id: String,
    pub legal_digest: String,
    pub state_digest: String,
    pub to_seq: u64,
    pub viewer_seat: u8,
}

/// A request, as facts.
pub ghost struct BuiltFacts {
    pub request: JsonView,
    pub decision_id: Seq<char>,
    pub legal_digest: Seq<char>,
    pub state_digest: Seq<char>,
    pub to_seq: u64,
    pub viewer_seat: u8,
}

impl View for BuiltInferenceRequest {
    type V = BuiltFacts;

    open spec fn view(&self) -> BuiltFacts {
        BuiltFacts {
            request: self.request@,
            decision_id: self.decision_id@,
            legal_digest: self.legal_digest@,
            state_digest: self.state_digest@,
            to_seq: self.to_seq,
            viewer_seat: self.viewer_seat,
        }
    }
}

/// What a request is made from.
pub ghost struct AskFacts {
    pub protocol: Seq<char>,
    pub rule_line: RuleLine,
    pub session_id: Seq<char>,
    pub viewer_seat: u8,
    pub decision_id: Seq<char>,
    pub phase: DecisionPhase,
    pub wall_remaining: u32,
    pub source: SourceFacts,
    pub events: Seq<JsonView>,
    pub legal_actions: Seq<JsonView>,
    pub player_count: u8,
    pub to_seq: u64,
    pub remote_auth: Option<Seq<char>>,
    pub match_context: JsonView,
}

/// The two protocols.
pub open spec fn is_protocol(p: Seq<char>) -> bool {
    p == FLYA_INFERENCE_PROTOCOL_V1@ || p == FLYA_INFERENCE_PROTOCOL_V2@
}

/// The number of a protocol.
pub open spec fn version_of(p: Seq<char>) -> u64 {
    if p == FLYA_INFERENCE_PROTOCOL_V2@ { 2 } else { 1 }
}

/// The number of a protocol.
pub fn protocol_number(protocol: &str) -> (r: u8)
    requires
        is_protocol(protocol@),
    ensures
        r == version_of(protocol@),
{
    if same(protocol, FLYA_INFERENCE_PROTOCOL_V2) {
        2
    } else {
        1
    }
}

/// What the digest of the legal actions covers.
pub open spec fn legal_document(a: AskFacts) -> JsonView {
    JsonView::object().with("protocol_version"@, JsonView::Text(a.protocol)).with(
        "rule_line"@,
        JsonView::Text(a.rule_line.spec_wire_value()),
    ).with("viewer_seat"@, number(a.viewer_seat as int)).with("phase"@, JsonView::Text(a.phase.spec_as_str())).with(
        "seq"@,
        JsonView::UInt(a.to_seq),
    ).with("wall_remaining"@, number(a.wall_remaining as int)).with("legal_actions"@, JsonView::Array(a.legal_actions))
}

/// What the digest of the state covers.
pub open spec fn state_document(a: AskFacts) -> JsonView {
    JsonView::object().with("protocol_version"@, JsonView::Text(a.protocol)).with(
        "rule_line"@,
        JsonView::Text(a.rule_line.spec_wire_value()),
    ).with("viewer_seat"@, number(a.viewer_seat as int)).with("source"@, a.source.digest_value()).with(
        "to_seq"@,
        JsonView::UInt(a.to_seq),
    ).with("wall_remaining"@, number(a.wall_remaining as int)).with("events"@, JsonView::Array(a.events))
}

/// The state that a request carries.
pub open spec fn state_json(a: AskFacts) -> JsonView {
    JsonView::object().with("rule_line"@, JsonView::Text(a.rule_line.spec_wire_value())).with(
        "player_count"@,
        number(a.player_count as int),
    ).with("match_context"@, a.match_context).with("wall_remaining"@, number(a.wall_remaining as int)).with(
        "source"@,
        a.source.wire_value(),
    ).with("events"@, JsonView::Array(a.events)).with("legal_actions"@, JsonView::Array(a.legal_actions))
}

/// A request without a ticket.
pub open spec fn request_body(a: AskFacts) -> JsonView {
    JsonView::object().with("v"@, JsonView::UInt(version_of(a.protocol))).with("cmd"@, JsonView::Text("infer"@)).with(
        "seat"@,
        number(a.viewer_seat as int),
    ).with("decision_id"@, JsonView::Text(a.decision_id)).with("phase"@, JsonView::Text(a.phase.spec_as_str())).with(
        "legal_digest"@,
        JsonView::Text(digest(legal_document(a))),
    ).with("state_digest"@, JsonView::Text(digest(state_document(a)))).with("session_id"@, JsonView::Text(a.session_id)).with(
        "state_sync"@,
        JsonView::Text("full"@),
    ).with("base_seq"@, JsonView::Null).with("to_seq"@, JsonView::UInt(a.to_seq)).with("state"@, state_json(a))
}

/// The request of a decision. A ticket that is empty is not sent.
pub open spec fn built(a: AskFacts) -> BuiltFacts {
    BuiltFacts {
        request: match a.remote_auth {
            Some(t) => if t.len() > 0 { request_body(a).with("remote_auth"@, JsonView::Text(t)) } else { request_body(a) },
            None => request_body(a),
        },
        decision_id: a.decision_id,
        legal_digest: digest(legal_document(a)),
        state_digest: digest(state_document(a)),
        to_seq: a.to_seq,
        viewer_seat: a.viewer_seat,
    }
}

/// What a request is made from.
struct Ask<'a> {
    protocol: &'a str,
    rule_line: RuleLine,
    session_id: &'a str,
    viewer_seat: u8,
    decision_id: &'a str,
    phase: DecisionPhase,
    wall_remaining: u32,
    source: &'a SourceInfo,
    events: Json,
    legal_actions: Json,
    player_count: u8,
    to_seq: u64,
    remote_auth: Option<&'a str>,
    match_context: &'a Json,
}

spec fn ask_facts(a: Ask<'_>) -> AskFacts {
    AskFacts {
        protocol: a.protocol@,
        rule_line: a.rule_line,
        session_id: a.session_id@,
        viewer_seat: a.viewer_seat,
        decision_id: a.decision_id@,
        phase: a.phase,
        wall_remaining: a.wall_remaining,
        source: a.source@,
        events: a.events@->Array_0,
        legal_actions: a.legal_actions@->Array_0,
        player_count: a.player_count,
        to_seq: a.to_seq,
        remote_auth: crate::json::text_option(a.remote_auth),
        match_context: a.match_context@,
    }
}

fn build_infer_request_common(a: Ask<'_>) -> (r: BuiltInferenceRequest)
    requires
        is_protocol(a.protocol@),
        a.events@ is Array,
        a.legal_actions@ is Array,
    ensures
        r@ == built(ask_facts(a)),
{
    let rule_line = a.rule_line.wire_value();
    let legal_doc = Json::object().with("protocol_version", Json::text(a.protocol)).with("rule_line", Json::text(rule_line)).with(
        "viewer_seat",
        Json::UInt(a.viewer_seat as u64),
    ).with("phase", Json::text(a.phase.as_str())).with("seq", Json::UInt(a.to_seq)).with(
        "wall_remaining",
        Json::UInt(a.wall_remaining as u64),
    ).with("legal_actions", a.legal_actions.copy());
    let legal_digest = digest_value(&legal_doc);
    let state_doc = Json::object().with("protocol_version", Json::text(a.protocol)).with("rule_line", Json::text(rule_line)).with(
        "viewer_seat",
        Json::UInt(a.viewer_seat as u64),
    ).with("source", a.source.digest_value()).with("to_seq", Json::UInt(a.to_seq)).with(
        "wall_remaining",
        Json::UInt(a.wall_remaining as u64),
    ).with("events", a.events.copy());
    let state_digest = digest_value(&state_doc);
    let state = Json::object().with("rule_line", Json::text(rule_line)).with(
        "player_count",
        Json::UInt(a.player_count as u64),
    ).with("match_context", a.match_context.copy()).with("wall_remaining", Json::UInt(a.wall_remaining as u64)).with(
        "source",
        a.source.wire_value(),
    ).with("events", a.events.copy()).with("legal_actions", a.legal_actions.copy());
    let body = Json::object().with("v", Json::UInt(protocol_number(a.protocol) as u64)).with("cmd", Json::text("infer")).with(
        "seat",
        Json::UInt(a.viewer_seat as u64),
    ).with("decision_id", Json::text(a.decision_id)).with("phase", Json::text(a.phase.as_str())).with(
        "legal_digest",
        Json::text(legal_digest.as_str()),
    ).with("state_digest", Json::text(state_digest.as_str())).with("session_id", Json::text(a.session_id)).with(
        "state_sync",
        Json::text("full"),
    ).with("base_seq", Json::Null).with("to_seq", Json::UInt(a.to_seq)).with("state", state);
    let request = match a.remote_auth {
        Some(t) => if t.is_empty() { body } else { body.with("remote_auth", Json::text(t)) },
        None => body,
    };
    BuiltInferenceRequest {
        request,
        decision_id: owned(a.decision_id),
        legal_digest,
        state_digest,
        to_seq: a.to_seq,
        viewer_seat: a.viewer_seat,
    }
}

/// A request or an error, as facts.
pub open spec fn built_result(r: Result<BuiltInferenceRequest, InferenceError>) -> Result<BuiltFacts, Fault> {
    match r {
        Ok(b) => Ok(b@),
        Err(e) => Err(e@),
    }
}

fn opt_str(s: &Option<String>) -> (r: Option<&str>)
    ensures
        crate::json::text_option(r) == crate::inference::contract::string_view(*s),
{
    match s {
        Some(t) => Some(t.as_str()),
        None => None,
    }
}

pub open spec fn effective_seat(seat: u8, override_seat: Option<u8>) -> u8 {
    match override_seat {
        Some(s) => s,
        None => seat,
    }
}

/// What is sent over the network for a decision.
pub open spec fn remote_request(
    config: RemoteHttpConfig,
    decision_id: Seq<char>,
    phase: DecisionPhase,
    wall_remaining: u32,
    events: Seq<JsonView>,
    legal_actions: Seq<JsonView>,
) -> JsonView {
    JsonView::object().with("session_id"@, JsonView::Text(config.session_id@)).with("seat"@, number(config.seat as int)).with(
        "phase"@,
        JsonView::Text(phase.spec_as_str()),
    ).with("decision_id"@, JsonView::Text(decision_id)).with("wall_remaining"@, number(wall_remaining as int)).with(
        "match_context"@,
        config.match_context@,
    ).with("events"@, JsonView::Array(events)).with("legal_actions"@, JsonView::Array(legal_actions))
}

fn remote_infer_request_common(
    config: &RemoteHttpConfig,
    decision_id: &str,
    phase: DecisionPhase,
    wall_remaining: u32,
    events: Vec<Json>,
    legal_actions: Vec<Json>,
) -> (r: Json)
    ensures
        r@ == remote_request(*config, decision_id@, phase, wall_remaining, items_view(events@), items_view(legal_actions@)),
{
    Json::object().with("session_id", Json::text(config.session_id.as_str())).with("seat", Json::UInt(config.seat as u64)).with(
        "phase",
        Json::text(phase.as_str()),
    ).with("decision_id", Json::text(decision_id)).with("wall_remaining", Json::UInt(wall_remaining as u64)).with(
        "match_context",
        config.match_context.copy(),
    ).with("events", Json::array(events)).with("legal_actions", Json::array(legal_actions))
}

/// What the request of a four-player decision is made from, given its legal actions as messages.
pub open spec fn ask_4p(config: EngineProcessConfig, protocol: Seq<char>, input: InferenceInput4p<'_>, legal: Seq<JsonView>) -> AskFacts {
    let seat = effective_seat(config.seat, input.seat);
    AskFacts {
        protocol,
        rule_line: config.rule_line,
        session_id: config.session_id@,
        viewer_seat: seat,
        decision_id: input.decision_id@,
        phase: input.phase,
        wall_remaining: input.wall_remaining,
        source: input.source@,
        events: stream_4p(input.events@, seat, protocol == FLYA_INFERENCE_PROTOCOL_V1@),
        legal_actions: legal,
        player_count: 4,
        to_seq: input.events@.len() as u64,
        remote_auth: crate::inference::contract::string_view(input.remote_auth),
        match_context: config.match_context@,
    }
}

/// The request of a four-player decision, or why there is none.
pub open spec fn request_4p(config: EngineProcessConfig, protocol: Seq<char>, input: InferenceInput4p<'_>) -> Result<BuiltFacts, Fault> {
    let seat = effective_seat(config.seat, input.seat);
    match actions_wire(
        actions_view(input.legal_actions@),
        protocol == FLYA_INFERENCE_PROTOCOL_V1@,
        opening_tile_4p(input.events@, seat),
    ) {
        Err(e) => Err(e),
        Ok(legal) => Ok(built(ask_4p(config, protocol, input, legal))),
    }
}

/// Builds the request of a four-player decision.
pub fn build_infer_request_4p(config: &EngineProcessConfig, protocol: &str, input: &InferenceInput4p<'_>) -> (r: Result<
    BuiltInferenceRequest,
    InferenceError,
>)
    requires
        is_protocol(protocol@),
        protocol@ == FLYA_INFERENCE_PROTOCOL_V1@ ==> openings_seated_4p(input.events@),
    ensures
        built_result(r) == request_4p(*config, protocol@, *input),
{
    let viewer_seat = match input.seat {
        Some(s) => s,
        None => config.seat,
    };
    let events = Json::array(visible_events_4p_to_wire(input.events, viewer_seat, protocol));
    let opening_tile = dealer_opening_tile_4p(input.events, viewer_seat);
    let legal_actions = match legal_actions_to_protocol_wire(input.legal_actions, protocol, opening_tile) {
        Ok(v) => Json::array(v),
        Err(e) => {
            return Err(e);
        },
    };
    let ask = Ask {
        protocol,
        rule_line: config.rule_line,
        session_id: config.session_id.as_str(),
        viewer_seat,
        decision_id: input.decision_id.as_str(),
        phase: input.phase,
        wall_remaining: input.wall_remaining,
        source: &input.source,
        events,
        legal_actions,
        player_count: 4,
        to_seq: input.events.len() as u64,
        remote_auth: opt_str(&input.remote_auth),
        match_context: &config.match_context,
    };
    Ok(build_infer_request_common(ask))
}

/// The events of a table, in full.
pub open spec fn events_json_4p(events: Seq<Event4p>) -> Seq<JsonView> {
    Seq::new(events.len(), |i: int| event_json_4p(events[i], None))
}

fn events_4p_to_json(events: &[Event4p]) -> (r: Vec<Json>)
    ensures
        items_view(r@) == events_json_4p(events@),
{
    let mut out: Vec<Json> = Vec::new();
    let mut i: usize = 0;
    while i < events.len()
        invariant
            i <= events@.len(),
            out@.len() == i,
            forall|j: int| 0 <= j < i ==> (#[trigger] out@[j])@ == event_json_4p(events@[j], None),
        decreases events@.len() - i,
    {
        out.push(event_4p_to_json(&events[i], None));
        i = i + 1;
    }
    assert(items_view(out@) =~= events_json_4p(events@));
    out
}

/// What is sent over the network for a four-player decision.
pub fn build_remote_infer_request_4p(config: &RemoteHttpConfig, input: &InferenceInput4p<'_>) -> (r: Json)
    ensures
        r@ == remote_request(
            *config,
            input.decision_id@,
            input.phase,
            input.wall_remaining,
            events_json_4p(input.events@),
            plain_actions_wire(actions_view(input.legal_actions@)),
        ),
{
    remote_infer_request_common(
        config,
        input.decision_id.as_str(),
        input.phase,
        input.wall_remaining,
        events_4p_to_json(input.events),
        legal_actions_to_wire(input.legal_actions),
    )
}

/// What the request of a three-player decision is made from, given its legal actions as messages.
pub open spec fn ask_3p(config: EngineProcessConfig, protocol: Seq<char>, input: InferenceInput3p<'_>, legal: Seq<JsonView>) -> AskFacts {
    let seat = effective_seat(config.seat, input.seat);
    AskFacts {
        protocol,
        rule_line: config.rule_line,
        session_id: config.session_id@,
        viewer_seat: seat,
        decision_id: input.decision_id@,
        phase: input.phase,
        wall_remaining: input.wall_remaining,
        source: input.source@,
        events: stream_3p(input.events@, seat, protocol == FLYA_INFERENCE_PROTOCOL_V1@),
        legal_actions: legal,
        player_count: 3,
        to_seq: input.events@.len() as u64,
        remote_auth: crate::inference::contract::string_view(input.remote_auth),
        match_context: match input.match_context {
            Some(c) => c@,
            None => config.match_context@,
        },
    }
}

/// The request of a three-player decision, or why there is none.
pub open spec fn request_3p(config: EngineProcessConfig, protocol: Seq<char>, input: InferenceInput3p<'_>) -> Result<BuiltFacts, Fault> {
    let seat = effective_seat(config.seat, input.seat);
    match actions_wire(
        actions_view(input.legal_actions@),
        protocol == FLYA_INFERENCE_PROTOCOL_V1@,
        opening_tile_3p(input.events@, seat),
    ) {
        Err(e) => Err(e),
        Ok(legal) => Ok(built(ask_3p(config, protocol, input, legal))),
    }
}

/// Builds the request of a three-player decision.
pub fn build_infer_request_3p(config: &EngineProcessConfig, protocol: &str, input: &InferenceInput3p<'_>) -> (r: Result<
    BuiltInferenceRequest,
    InferenceError,
>)
    requires
        is_protocol(protocol@),
        protocol@ == FLYA_INFERENCE_PROTOCOL_V1@ ==> openings_seated_3p(input.events@),
    ensures
        built_result(r) == request_3p(*config, protocol@, *input),
{
    let viewer_seat = match input.seat {
        Some(s) => s,
        None => config.seat,
    };
    let events = Json::array(visible_events_3p_to_wire(input.events, viewer_seat, protocol));
    let opening_tile = dealer_opening_tile_3p(input.events, viewer_seat);
    let legal_actions = match legal_actions_to_protocol_wire(input.legal_actions, protocol, opening_tile) {
        Ok(v) => Json::array(v),
        Err(e) => {
            return Err(e);
        },
    };
    let ask = Ask {
        protocol,
        rule_line: config.rule_line,
        session_id: config.session_id.as_str(),
        viewer_seat,
        decision_id: input.decision_id.as_str(),
        phase: input.phase,
        wall_remaining: input.wall_remaining,
        source: &input.source,
        events,
        legal_actions,
        player_count: 3,
        to_seq: input.events.len() as u64,
        remote_auth: opt_str(&input.remote_auth),
        match_context: match &input.match_context {
            Some(c) => c,
            None => &config.match_context,
        },
    };
    Ok(build_infer_request_common(ask))
}

/// The events of a table, in full.
pub open spec fn events_json_3p(events: Seq<Event3p>) -> Seq<JsonView> {
    Seq::new(events.len(), |i: int| event_json_3p(events[i], None))
}

fn events_3p_to_json(events: &[Event3p]) -> (r: Vec<Json>)
    ensures
        items_view(r@) == events_json_3p(events@),
{
    let mut out: Vec<Json> = Vec::new();
    let mut i: usize = 0;
    while i < events.len()
        invariant
            i <= events@.len(),
            out@.len() == i,
            forall|j: int| 0 <= j < i ==> (#[trigger] out@[j])@ == event_json_3p(events@[j], None),
        decreases events@.len() - i,
    {
        out.push(event_3p_to_json(&events[i], None));
        i = i + 1;
    }
    assert(items_view(out@) =~= events_json_3p(events@));
    out
}

/// What is sent over the network for a three-player decision.
pub fn build_remote_infer_request_3p(config: &RemoteHttpConfig, input: &InferenceInput3p<'_>) -> (r: Json)
    ensures
        r@ == remote_request(
            *config,
            input.decision_id@,
            input.phase,
            input.wall_remaining,
            events_json_3p(input.events@),
            plain_actions_wire(actions_view(input.legal_actions@)),
        ),
{
    remote_infer_request_common(
        config,
        input.decision_id.as_str(),
        input.phase,
        input.wall_remaining,
        events_3p_to_json(input.events),
        legal_actions_to_wire(input.legal_actions),
    )
}

} // verus!
