//! One engine process: what is said to it from the greeting to the end, and what is known of it.
//! Starting it, writing to it and reading from it is left to the caller.

use vstd::prelude::*;
use crate::inference::contract::{
    actions_view, decision_view, fault, inference_error, protocol_fault, strings_view, ActionFacts, CapsFacts, DecisionFacts,
    EngineCaps, Fault, InferenceDecision, InferenceError, InferenceErrorKind, LegalAction, RiichiStyle, RuleLine,
    FLYA_INFERENCE_PROTOCOL_V1, FLYA_INFERENCE_PROTOCOL_V2,
};
use crate::inference::parse::fault_option;
use crate::inference::request::{
    build_infer_request_3p, build_infer_request_4p, built_result, is_protocol, protocol_number, request_3p, request_4p,
    version_of, BuiltFacts, BuiltInferenceRequest, EngineProcessConfig, InferenceInput3p, InferenceInput4p,
};
use crate::inference::response::{
    answered, branch, check_echo, decide, decided, echo_fault, echo_rebuilds, response_branch, Place, ResponseBranch,
};
use crate::inference::wire::{openings_seated_3p, openings_seated_4p};
use crate::json::{items_view, number, parse_json, parsed_json, written, Json, JsonView};
use crate::mahjong::tile::{quote, quoted};
use crate::text::{dec, dec_usize, join2, owned, same};

verus! {

// Capabilities.

/// The texts among items.
pub open spec fn texts_of(items: Seq<JsonView>) -> Seq<Seq<char>>
    decreases items.len(),
{
    if items.len() == 0 {
        Seq::empty()
    } else {
        match items.last().as_text() {
            Some(s) => texts_of(items.drop_last()).push(s),
            None => texts_of(items.drop_last()),
        }
    }
}

/// The texts of a list under a key.
pub open spec fn texts_at(j: JsonView, key: Seq<char>) -> Option<Seq<Seq<char>>> {
    match j.array_at(key) {
        Some(items) => Some(texts_of(items)),
        None => None,
    }
}

pub open spec fn strings_option(v: Option<Vec<String>>) -> Option<Seq<Seq<char>>> {
    match v {
        Some(s) => Some(strings_view(s@)),
        None => None,
    }
}

fn string_array(j: &Json, key: &str) -> (r: Option<Vec<String>>)
    ensures
        strings_option(r) == texts_at(j@, key@),
{
    match j.array_at(key) {
        None => None,
        Some(items) => {
            let ghost all = items_view(items@);
            let mut out: Vec<String> = Vec::new();
            let mut i: usize = 0;
            assert(strings_view(out@) =~= Seq::empty());
            while i < items.len()
                invariant
                    i <= items@.len(),
                    all == items_view(items@),
                    strings_view(out@) == texts_of(all.take(i as int)),
                decreases items@.len() - i,
            {
                let ghost before = out@;
                assert(all.take(i + 1).drop_last() =~= all.take(i as int));
                assert(all.take(i + 1).last() == items@[i as int]@);
                match items[i].as_str() {
                    Some(s) => {
                        out.push(owned(s));
                        assert(strings_view(out@) =~= strings_view(before).push(s@));
                    },
                    None => {},
                }
                i = i + 1;
            }
            assert(all.take(i as int) =~= all);
            Some(out)
        },
    }
}

pub open spec fn rule_line_of(s: Seq<char>) -> Result<RuleLine, Fault> {
    if s == "riichi4p"@ {
        Ok(RuleLine::Riichi4p)
    } else if s == "riichi3p"@ {
        Ok(RuleLine::Riichi3p)
    } else {
        Err(protocol_fault("unknown rule_line "@ + quoted(s)))
    }
}

/// The games of a list of names, or the first that is unknown.
pub open spec fn rule_lines_of(names: Seq<Seq<char>>) -> Result<Seq<RuleLine>, Fault>
    decreases names.len(),
{
    if names.len() == 0 {
        Ok(Seq::empty())
    } else {
        match rule_lines_of(names.drop_last()) {
            Err(e) => Err(e),
            Ok(rest) => match rule_line_of(names.last()) {
                Err(e) => Err(e),
                Ok(l) => Ok(rest.push(l)),
            },
        }
    }
}

pub open spec fn riichi_style_of(s: Seq<char>) -> Result<RiichiStyle, Fault> {
    if s == "parallel_discard"@ {
        Ok(RiichiStyle::ParallelDiscard)
    } else if s == "declare_then_discard"@ {
        Ok(RiichiStyle::DeclareThenDiscard)
    } else {
        Err(protocol_fault("unknown riichi_style "@ + quoted(s)))
    }
}

/// The capabilities that a greeting declares, or the first thing it lacks.
pub open spec fn caps_of(response: JsonView) -> Result<CapsFacts, Fault> {
    match response.get("caps"@) {
        None => Err(protocol_fault("engine hello missing caps"@)),
        Some(caps) => match response.u64_at("caps_version"@) {
            None => Err(protocol_fault("engine hello missing caps_version"@)),
            Some(version) => match texts_at(response, "protocol_versions"@) {
                None => Err(protocol_fault("engine hello missing protocol_versions"@)),
                Some(protocols) => match texts_at(caps, "rule_lines"@) {
                    None => Err(protocol_fault("engine caps missing rule_lines"@)),
                    Some(names) => match rule_lines_of(names) {
                        Err(e) => Err(e),
                        Ok(rule_lines) => match caps.text_at("riichi_style"@) {
                            None => Err(protocol_fault("engine caps missing riichi_style"@)),
                            Some(style) => match riichi_style_of(style) {
                                Err(e) => Err(e),
                                Ok(riichi_style) => match caps.bool_at("supports_incremental"@) {
                                    None => Err(protocol_fault("engine caps missing supports_incremental"@)),
                                    Some(supports_incremental) => match caps.bool_at("returns_ranked_actions"@) {
                                        None => Err(protocol_fault("engine caps missing returns_ranked_actions"@)),
                                        Some(returns_ranked_actions) => Ok(
                                            CapsFacts {
                                                caps_version: (version % 0x1_0000_0000) as u32,
                                                protocol_versions: protocols,
                                                rule_lines,
                                                riichi_style,
                                                supports_incremental,
                                                returns_ranked_actions,
                                            },
                                        ),
                                    },
                                },
                            },
                        },
                    },
                },
            },
        },
    }
}

pub(crate) fn parse_rule_line(s: &str) -> (r: Result<RuleLine, InferenceError>)
    ensures
        match r {
            Ok(l) => rule_line_of(s@) == Ok::<RuleLine, Fault>(l),
            Err(e) => rule_line_of(s@) == Err::<RuleLine, Fault>(e@),
        },
{
    if same(s, "riichi4p") {
        Ok(RuleLine::Riichi4p)
    } else if same(s, "riichi3p") {
        Ok(RuleLine::Riichi3p)
    } else {
        Err(inference_error(InferenceErrorKind::Protocol, join2("unknown rule_line ", quote(s).as_str()).as_str()))
    }
}

proof fn lemma_first_bad_line(names: Seq<Seq<char>>, n: int)
    requires
        0 <= n <= names.len(),
        rule_lines_of(names.take(n)) is Err,
    ensures
        rule_lines_of(names) == rule_lines_of(names.take(n)),
    decreases names.len() - n,
{
    if n == names.len() {
        assert(names.take(n) =~= names);
    } else {
        assert(names.take(n + 1).drop_last() =~= names.take(n));
        lemma_first_bad_line(names, n + 1);
    }
}

fn parse_rule_lines(names: &Vec<String>) -> (r: Result<Vec<RuleLine>, InferenceError>)
    ensures
        match r {
            Ok(v) => rule_lines_of(strings_view(names@)) == Ok::<Seq<RuleLine>, Fault>(v@),
            Err(e) => rule_lines_of(strings_view(names@)) == Err::<Seq<RuleLine>, Fault>(e@),
        },
{
    let ghost all = strings_view(names@);
    let mut out: Vec<RuleLine> = Vec::new();
    let mut i: usize = 0;
    assert(out@ =~= Seq::empty());
    while i < names.len()
        invariant
            i <= names@.len(),
            all == strings_view(names@),
            rule_lines_of(all.take(i as int)) == Ok::<Seq<RuleLine>, Fault>(out@),
        decreases names@.len() - i,
    {
        assert(all.take(i + 1).drop_last() =~= all.take(i as int));
        assert(all.take(i + 1).last() == names@[i as int]@);
        match parse_rule_line(names[i].as_str()) {
            Ok(l) => {
                out.push(l);
            },
            Err(e) => {
                proof { lemma_first_bad_line(all, i + 1); }
                return Err(e);
            },
        }
        i = i + 1;
    }
    assert(all.take(i as int) =~= all);
    Ok(out)
}

pub(crate) fn parse_riichi_style(s: &str) -> (r: Result<RiichiStyle, InferenceError>)
    ensures
        match r {
            Ok(l) => riichi_style_of(s@) == Ok::<RiichiStyle, Fault>(l),
            Err(e) => riichi_style_of(s@) == Err::<RiichiStyle, Fault>(e@),
        },
{
    if same(s, "parallel_discard") {
        Ok(RiichiStyle::ParallelDiscard)
    } else if same(s, "declare_then_discard") {
        Ok(RiichiStyle::DeclareThenDiscard)
    } else {
        Err(inference_error(InferenceErrorKind::Protocol, join2("unknown riichi_style ", quote(s).as_str()).as_str()))
    }
}

/// The capabilities that a greeting declares.
pub fn parse_engine_caps(response: &Json) -> (r: Result<EngineCaps, InferenceError>)
    ensures
        match r {
            Ok(c) => caps_of(response@) == Ok::<CapsFacts, Fault>(c@),
            Err(e) => caps_of(response@) == Err::<CapsFacts, Fault>(e@),
        },
{
    let caps = match response.get("caps") {
        Some(c) => c,
        None => {
            return Err(inference_error(InferenceErrorKind::Protocol, "engine hello missing caps"));
        },
    };
    let version: u64 = match response.u64_at("caps_version") {
        Some(n) => n,
        None => {
            return Err(inference_error(InferenceErrorKind::Protocol, "engine hello missing caps_version"));
        },
    };
    let protocol_versions = match string_array(response, "protocol_versions") {
        Some(v) => v,
        None => {
            return Err(inference_error(InferenceErrorKind::Protocol, "engine hello missing protocol_versions"));
        },
    };
    let names = match string_array(caps, "rule_lines") {
        Some(v) => v,
        None => {
            return Err(inference_error(InferenceErrorKind::Protocol, "engine caps missing rule_lines"));
        },
    };
    let rule_lines = match parse_rule_lines(&names) {
        Ok(v) => v,
        Err(e) => {
            return Err(e);
        },
    };
    let riichi_style = match caps.text_at("riichi_style") {
        None => {
            return Err(inference_error(InferenceErrorKind::Protocol, "engine caps missing riichi_style"));
        },
        Some(s) => match parse_riichi_style(s) {
            Ok(v) => v,
            Err(e) => {
                return Err(e);
            },
        },
    };
    let supports_incremental = match caps.bool_at("supports_incremental") {
        Some(b) => b,
        None => {
            return Err(inference_error(InferenceErrorKind::Protocol, "engine caps missing supports_incremental"));
        },
    };
    let returns_ranked_actions = match caps.bool_at("returns_ranked_actions") {
        Some(b) => b,
        None => {
            return Err(inference_error(InferenceErrorKind::Protocol, "engine caps missing returns_ranked_actions"));
        },
    };
    Ok(
        EngineCaps {
            caps_version: (version % 0x1_0000_0000) as u32,
            protocol_versions,
            rule_lines,
            riichi_style,
            supports_incremental,
            returns_ranked_actions,
        },
    )
}

// The greeting.

/// Every protocol that may be negotiated is known.
pub open spec fn are_protocols(names: Seq<Seq<char>>) -> bool {
    forall|i: int| 0 <= i < names.len() ==> is_protocol(#[trigger] names[i])
}

/// Why an engine cannot be greeted.
pub open spec fn offer_fault(offered: Seq<Seq<char>>) -> Option<Fault> {
    if offered.len() == 0 {
        Some(protocol_fault("host protocol_versions must not be empty"@))
    } else if !are_protocols(offered) {
        Some(protocol_fault("host protocol_versions contains an unsupported version"@))
    } else {
        None
    }
}

/// Texts as a list.
pub open spec fn texts_json(v: Seq<Seq<char>>) -> JsonView {
    JsonView::Array(Seq::new(v.len(), |i: int| JsonView::Text(v[i])))
}

/// What an engine is greeted with.
pub open spec fn hello(config: EngineProcessConfig) -> JsonView {
    JsonView::object().with("v"@, JsonView::UInt(1)).with("cmd"@, JsonView::Text("hello"@)).with(
        "seat"@,
        number(config.seat as int),
    ).with("rule_line"@, JsonView::Text(config.rule_line.spec_wire_value())).with(
        "session_id"@,
        JsonView::Text(config.session_id@),
    ).with("match_context"@, config.match_context@).with(
        "host_protocols"@,
        texts_json(strings_view(config.protocol_versions@)),
    )
}

/// The first protocol of the host that an engine knows.
pub open spec fn negotiated(host: Seq<Seq<char>>, engine: Seq<Seq<char>>) -> Option<Seq<char>>
    decreases host.len(),
{
    if host.len() == 0 {
        None
    } else if engine.contains(host[0]) {
        Some(host[0])
    } else {
        negotiated(host.drop_first(), engine)
    }
}

/// What a greeting is answered with: the protocol and the capabilities, or why it failed and
/// whether the engine has to be started again.
pub open spec fn greeted(config: EngineProcessConfig, response: JsonView) -> Result<(Seq<char>, CapsFacts), (Fault, bool)> {
    if response.bool_at("ok"@) != Some(true) {
        Err((protocol_fault("engine hello failed: "@ + written(response)), true))
    } else if response.text_at("session_id"@) != Some(config.session_id@) {
        Err((protocol_fault("engine hello session_id mismatch"@), true))
    } else {
        match texts_at(response, "protocol_versions"@) {
            None => Err((protocol_fault("engine hello missing protocol_versions"@), false)),
            Some(engine) => match negotiated(strings_view(config.protocol_versions@), engine) {
                None => Err((protocol_fault("engine protocol_versions has no supported host intersection"@), true)),
                Some(p) => match caps_of(response) {
                    Err(e) => Err((e, false)),
                    Ok(caps) => if !caps.rule_lines.contains(config.rule_line) {
                        Err((protocol_fault("engine caps do not include requested rule line"@), true))
                    } else {
                        Ok((p, caps))
                    },
                },
            },
        }
    }
}

/// The protocol that is negotiated is one that the host offers and the engine knows.
pub proof fn negotiated_protocols_are_common(host: Seq<Seq<char>>, engine: Seq<Seq<char>>)
    ensures
        negotiated(host, engine) is Some ==> host.contains(negotiated(host, engine)->0) && engine.contains(
            negotiated(host, engine)->0,
        ),
        negotiated(host, engine) is None ==> forall|i: int| 0 <= i < host.len() ==> !engine.contains(#[trigger] host[i]),
    decreases host.len(),
{
    if host.len() > 0 {
        let rest = host.drop_first();
        negotiated_protocols_are_common(rest, engine);
        if engine.contains(host[0]) {
            assert(host[0] == negotiated(host, engine)->0);
        } else {
            if negotiated(rest, engine) is Some {
                let i = choose|i: int| 0 <= i < rest.len() && rest[i] == negotiated(rest, engine)->0;
                assert(host[i + 1] == rest[i]);
            } else {
                assert forall|i: int| 0 <= i < host.len() implies !engine.contains(#[trigger] host[i]) by {
                    if i > 0 {
                        assert(host[i] == rest[i - 1]);
                    }
                }
            }
        }
    }
}

/// An engine process as far as it is known: its configuration, what it greeted with, and whether
/// it has to be started again.
pub struct EngineSession {
    pub config: EngineProcessConfig,
    pub caps: Option<EngineCaps>,
    pub negotiated_protocol: Option<String>,
    pub needs_rebuild: bool,
}

/// Capabilities that may be known.
pub open spec fn caps_option(c: Option<EngineCaps>) -> Option<CapsFacts> {
    match c {
        Some(v) => Some(v@),
        None => None,
    }
}

/// A text that may be known.
pub open spec fn known(s: Option<String>) -> Option<Seq<char>> {
    crate::inference::contract::string_view(s)
}

pub(crate) fn contains_text(v: &Vec<String>, s: &str) -> (r: bool)
    ensures
        r == strings_view(v@).contains(s@),
{
    let ghost all = strings_view(v@);
    let mut i: usize = 0;
    while i < v.len()
        invariant
            i <= v@.len(),
            all == strings_view(v@),
            forall|j: int| 0 <= j < i ==> #[trigger] all[j] != s@,
        decreases v@.len() - i,
    {
        assert(all[i as int] == v@[i as int]@);
        if same(v[i].as_str(), s) {
            return true;
        }
        i = i + 1;
    }
    false
}

pub(crate) fn contains_line(v: &Vec<RuleLine>, l: RuleLine) -> (r: bool)
    ensures
        r == v@.contains(l),
{
    let mut i: usize = 0;
    while i < v.len()
        invariant
            i <= v@.len(),
            forall|j: int| 0 <= j < i ==> v@[j] != l,
        decreases v@.len() - i,
    {
        if v[i] == l {
            return true;
        }
        i = i + 1;
    }
    false
}

fn negotiate(host: &Vec<String>, engine: &Vec<String>) -> (r: Option<String>)
    ensures
        known(r) == negotiated(strings_view(host@), strings_view(engine@)),
{
    let ghost all = strings_view(host@);
    let mut i: usize = 0;
    assert(all.skip(0) =~= all);
    while i < host.len()
        invariant
            i <= host@.len(),
            all == strings_view(host@),
            negotiated(all, strings_view(engine@)) == negotiated(all.skip(i as int), strings_view(engine@)),
        decreases host@.len() - i,
    {
        assert(all.skip(i as int)[0] == host@[i as int]@);
        assert(all.skip(i as int).drop_first() =~= all.skip(i + 1));
        if contains_text(engine, host[i].as_str()) {
            return Some(host[i].clone());
        }
        i = i + 1;
    }
    None
}

pub(crate) fn texts_to_json(v: &Vec<String>) -> (r: Json)
    ensures
        r@ == texts_json(strings_view(v@)),
{
    let mut out: Vec<Json> = Vec::new();
    let mut i: usize = 0;
    while i < v.len()
        invariant
            i <= v@.len(),
            out@.len() == i,
            forall|j: int| 0 <= j < i ==> (#[trigger] out@[j])@ == JsonView::Text(v@[j]@),
        decreases v@.len() - i,
    {
        out.push(Json::text(v[i].as_str()));
        i = i + 1;
    }
    assert(items_view(out@) =~= texts_json(strings_view(v@))->Array_0);
    Json::array(out)
}

fn all_protocols(v: &Vec<String>) -> (r: bool)
    ensures
        r == are_protocols(strings_view(v@)),
{
    let ghost all = strings_view(v@);
    let mut i: usize = 0;
    while i < v.len()
        invariant
            i <= v@.len(),
            all == strings_view(v@),
            forall|j: int| 0 <= j < i ==> is_protocol(#[trigger] all[j]),
        decreases v@.len() - i,
    {
        assert(all[i as int] == v@[i as int]@);
        if !same(v[i].as_str(), FLYA_INFERENCE_PROTOCOL_V1) && !same(v[i].as_str(), FLYA_INFERENCE_PROTOCOL_V2) {
            return false;
        }
        i = i + 1;
    }
    true
}

/// A stage of a decision: where the engine declares riichi first, it is asked again for the tile.
#[derive(Debug)]
pub enum HostStageDecision {
    Decision(InferenceDecision),
    DeclareReach,
}

/// A stage, as facts.
#[allow(inconsistent_fields)]
pub ghost enum StageFacts {
    Decision(DecisionFacts),
    DeclareReach,
}

/// A stage or an error, as facts.
pub open spec fn stage_view(r: Result<HostStageDecision, InferenceError>) -> Result<StageFacts, Fault> {
    match r {
        Ok(HostStageDecision::Decision(d)) => Ok(StageFacts::Decision(d@)),
        Ok(HostStageDecision::DeclareReach) => Ok(StageFacts::DeclareReach),
        Err(e) => Err(e@),
    }
}

/// The stage that a reply gives.
pub open spec fn staged(response: JsonView, built: BuiltFacts, legal: Seq<ActionFacts>, at: Place, ranks: bool) -> Result<
    StageFacts,
    Fault,
> {
    match echo_fault(response, built) {
        Some(e) => Err(e),
        None => match branch(response) {
            Err(e) => Err(e),
            Ok(ResponseBranch::DeclareReach) => Ok(StageFacts::DeclareReach),
            Ok(_) => match decided(response, legal, at, ranks) {
                Ok(d) => Ok(StageFacts::Decision(d)),
                Err(e) => Err(e),
            },
        },
    }
}

/// What is said of a line that is no document.
pub open spec fn not_a_document(reason: Seq<char>, line: Seq<char>) -> Fault {
    protocol_fault("engine returned invalid JSON: "@ + reason + "; line="@ + quoted(line))
}

/// The request of a stage.
pub open spec fn stage_request(request: JsonView, second: bool) -> JsonView {
    request.with("driver_stage"@, JsonView::Text(if second { "riichi_second_stage"@ } else { "primary"@ }))
}

/// What an engine is told at the end.
pub open spec fn goodbye(protocol: Option<Seq<char>>, session_id: Seq<char>) -> JsonView {
    JsonView::object().with(
        "v"@,
        JsonView::UInt(
            match protocol {
                Some(p) => version_of(p),
                None => 1,
            },
        ),
    ).with("cmd"@, JsonView::Text("end"@)).with("session_id"@, JsonView::Text(session_id))
}

impl EngineSession {
    /// A protocol that was negotiated is a known one.
    pub open spec fn is_sound(&self) -> bool {
        self.negotiated_protocol is Some ==> is_protocol(self.negotiated_protocol->0@)
    }

    /// Whether the engine ranks actions.
    pub open spec fn ranks(&self) -> bool {
        match self.caps {
            Some(c) => c.returns_ranked_actions,
            None => false,
        }
    }

    /// The place of a decision.
    pub open spec fn place(&self, four: bool, seat: u8) -> Place {
        Place { four, seat, v1: self.negotiated_protocol->0@ == FLYA_INFERENCE_PROTOCOL_V1@ }
    }

    pub fn new(config: EngineProcessConfig) -> (r: Self)
        ensures
            r.config == config,
            r.caps is None,
            r.negotiated_protocol is None,
            !r.needs_rebuild,
            r.is_sound(),
    {
        EngineSession { config, caps: None, negotiated_protocol: None, needs_rebuild: false }
    }

    /// What the engine is greeted with.
    pub fn hello_request(&self) -> (r: Result<Json, InferenceError>)
        ensures
            match r {
                Ok(j) => offer_fault(strings_view(self.config.protocol_versions@)) is None && j@ == hello(self.config),
                Err(e) => offer_fault(strings_view(self.config.protocol_versions@)) == Some(e@),
            },
    {
        assert(strings_view(self.config.protocol_versions@).len() == self.config.protocol_versions@.len());
        if self.config.protocol_versions.len() == 0 {
            return Err(inference_error(InferenceErrorKind::Protocol, "host protocol_versions must not be empty"));
        }
        if !all_protocols(&self.config.protocol_versions) {
            return Err(
                inference_error(InferenceErrorKind::Protocol, "host protocol_versions contains an unsupported version"),
            );
        }
        Ok(
            Json::object().with("v", Json::UInt(1)).with("cmd", Json::text("hello")).with(
                "seat",
                Json::UInt(self.config.seat as u64),
            ).with("rule_line", Json::text(self.config.rule_line.wire_value())).with(
                "session_id",
                Json::text(self.config.session_id.as_str()),
            ).with("match_context", self.config.match_context.copy()).with(
                "host_protocols",
                texts_to_json(&self.config.protocol_versions),
            ),
        )
    }

    /// Takes in the answer to the greeting.
    pub fn handle_hello(&mut self, response: &Json) -> (r: Result<(), InferenceError>)
        requires
            offer_fault(strings_view(old(self).config.protocol_versions@)) is None,
            old(self).is_sound(),
        ensures
            final(self).is_sound(),
            final(self).config == old(self).config,
            match greeted(old(self).config, response@) {
                Ok((p, caps)) => r is Ok && known(final(self).negotiated_protocol) == Some(p) && caps_option(final(self).caps)
                    == Some(caps) && final(self).needs_rebuild == old(self).needs_rebuild,
                Err((e, rebuild)) => r is Err && r->Err_0@ == e && final(self).needs_rebuild == (old(self).needs_rebuild
                    || rebuild) && final(self).negotiated_protocol == old(self).negotiated_protocol && final(self).caps
                    == old(self).caps,
            },
    {
        if !matches!(response.bool_at("ok"), Some(true)) {
            self.needs_rebuild = true;
            let d = join2("engine hello failed: ", response.write().as_str());
            return Err(inference_error(InferenceErrorKind::Protocol, d.as_str()));
        }
        if !response.has_text("session_id", self.config.session_id.as_str()) {
            self.needs_rebuild = true;
            return Err(inference_error(InferenceErrorKind::Protocol, "engine hello session_id mismatch"));
        }
        let engine = match string_array(response, "protocol_versions") {
            Some(v) => v,
            None => {
                return Err(inference_error(InferenceErrorKind::Protocol, "engine hello missing protocol_versions"));
            },
        };
        let protocol = match negotiate(&self.config.protocol_versions, &engine) {
            Some(p) => p,
            None => {
                self.needs_rebuild = true;
                return Err(
                    inference_error(
                        InferenceErrorKind::Protocol,
                        "engine protocol_versions has no supported host intersection",
                    ),
                );
            },
        };
        let caps = match parse_engine_caps(response) {
            Ok(c) => c,
            Err(e) => {
                return Err(e);
            },
        };
        if !contains_line(&caps.rule_lines, self.config.rule_line) {
            self.needs_rebuild = true;
            return Err(inference_error(InferenceErrorKind::Protocol, "engine caps do not include requested rule line"));
        }
        proof {
            let host = strings_view(self.config.protocol_versions@);
            negotiated_protocols_are_common(host, strings_view(engine@));
            let i = choose|i: int| 0 <= i < host.len() && host[i] == protocol@;
            assert(is_protocol(host[i]));
        }
        self.caps = Some(caps);
        self.negotiated_protocol = Some(protocol);
        Ok(())
    }

    /// Takes in what a line of the engine was read as: a document, or why it is none. An engine
    /// that does not write documents has to be started again.
    pub fn take_reply(&mut self, line: &str, read: Result<Json, String>) -> (r: Result<Json, InferenceError>)
        ensures
            match read {
                Ok(j) => r == Ok::<Json, InferenceError>(j) && *final(self) == *old(self),
                Err(e) => r is Err && r->Err_0@ == not_a_document(e@, line@) && *final(self) == (EngineSession {
                    needs_rebuild: true,
                    ..*old(self)
                }),
            },
    {
        match read {
            Ok(j) => Ok(j),
            Err(e) => {
                self.needs_rebuild = true;
                let mut d = join2("engine returned invalid JSON: ", e.as_str());
                d.append("; line=");
                d.append(quote(line).as_str());
                Err(inference_error(InferenceErrorKind::Protocol, d.as_str()))
            },
        }
    }

    /// Reads a line of the engine.
    pub fn read_reply(&mut self, line: &str) -> (r: Result<Json, InferenceError>)
        ensures
            match parsed_json(line@) {
                Ok(v) => r is Ok && r->Ok_0@ == v && *final(self) == *old(self),
                Err(e) => r is Err && r->Err_0@ == not_a_document(e, line@) && *final(self) == (EngineSession {
                    needs_rebuild: true,
                    ..*old(self)
                }),
            },
    {
        let read = parse_json(line);
        self.take_reply(line, read)
    }

    /// The engine cannot be reached any more.
    pub fn mark_unavailable(&mut self)
        ensures
            final(self).needs_rebuild,
            final(self).config == old(self).config,
            final(self).caps == old(self).caps,
            final(self).negotiated_protocol == old(self).negotiated_protocol,
    {
        self.needs_rebuild = true;
    }

    /// The engine has been started again.
    pub fn mark_started(&mut self)
        ensures
            !final(self).needs_rebuild,
            final(self).config == old(self).config,
            final(self).caps == old(self).caps,
            final(self).negotiated_protocol == old(self).negotiated_protocol,
    {
        self.needs_rebuild = false;
    }

    fn ranks_actions(&self) -> (r: bool)
        ensures
            r == self.ranks(),
    {
        match &self.caps {
            Some(c) => c.returns_ranked_actions,
            None => false,
        }
    }

    fn handle_response(&mut self, response: &Json, built: &BuiltInferenceRequest, legal: &[LegalAction], four: bool) -> (r: Result<
        InferenceDecision,
        InferenceError,
    >)
        requires
            old(self).negotiated_protocol is Some,
        ensures
            decision_view(r) == answered(
                response@,
                built@,
                actions_view(legal@),
                old(self).place(four, built.viewer_seat),
                old(self).ranks(),
            ),
            *final(self) == (EngineSession {
                needs_rebuild: old(self).needs_rebuild || echo_rebuilds(response@),
                ..*old(self)
            }),
    {
        let (echo, rebuild) = check_echo(response, built);
        if rebuild {
            self.needs_rebuild = true;
        }
        match echo {
            Err(e) => Err(e),
            Ok(_) => match &self.negotiated_protocol {
                Some(p) => decide(response, legal, four, built.viewer_seat, p.as_str(), self.ranks_actions()),
                None => Ok(InferenceDecision::Abstain),
            },
        }
    }

    fn handle_stage(&mut self, response: &Json, built: &BuiltInferenceRequest, legal: &[LegalAction], four: bool) -> (r: Result<
        HostStageDecision,
        InferenceError,
    >)
        requires
            old(self).negotiated_protocol is Some,
        ensures
            stage_view(r) == staged(
                response@,
                built@,
                actions_view(legal@),
                old(self).place(four, built.viewer_seat),
                old(self).ranks(),
            ),
            *final(self) == (EngineSession {
                needs_rebuild: old(self).needs_rebuild || echo_rebuilds(response@),
                ..*old(self)
            }),
    {
        let (echo, rebuild) = check_echo(response, built);
        if rebuild {
            self.needs_rebuild = true;
        }
        match echo {
            Err(e) => {
                return Err(e);
            },
            Ok(_) => {},
        }
        match response_branch(response) {
            Err(e) => Err(e),
            Ok(ResponseBranch::DeclareReach) => Ok(HostStageDecision::DeclareReach),
            Ok(_) => match &self.negotiated_protocol {
                Some(p) => match decide(response, legal, four, built.viewer_seat, p.as_str(), self.ranks_actions()) {
                    Ok(d) => Ok(HostStageDecision::Decision(d)),
                    Err(e) => Err(e),
                },
                None => Ok(HostStageDecision::DeclareReach),
            },
        }
    }

    /// What the engine is told at the end.
    pub fn end_request(&self) -> (r: Json)
        requires
            self.is_sound(),
        ensures
            r@ == goodbye(known(self.negotiated_protocol), self.config.session_id@),
    {
        let v: u8 = match &self.negotiated_protocol {
            Some(p) => protocol_number(p.as_str()),
            None => 1,
        };
        Json::object().with("v", Json::UInt(v as u64)).with("cmd", Json::text("end")).with(
            "session_id",
            Json::text(self.config.session_id.as_str()),
        )
    }

    /// Checks the answer to the end.
    pub fn handle_end(&self, response: &Json) -> (r: Result<(), InferenceError>)
        ensures
            fault_option(r) == if response@.bool_at("ok"@) == Some(true) {
                None
            } else {
                Some(protocol_fault("engine end failed: "@ + written(response@)))
            },
    {
        if matches!(response.bool_at("ok"), Some(true)) {
            Ok(())
        } else {
            let d = join2("engine end failed: ", response.write().as_str());
            Err(inference_error(InferenceErrorKind::Protocol, d.as_str()))
        }
    }

    /// Builds the request of a four-player decision.
    pub fn prepare_4p(&self, input: &InferenceInput4p<'_>) -> (r: Result<BuiltInferenceRequest, InferenceError>)
        requires
            self.is_sound(),
            self.config.rule_line == RuleLine::Riichi4p ==> self.negotiated_protocol is Some,
            self.config.rule_line == RuleLine::Riichi4p && self.negotiated_protocol->0@ == FLYA_INFERENCE_PROTOCOL_V1@
                ==> openings_seated_4p(input.events@),
        ensures
            built_result(r) == if self.config.rule_line != RuleLine::Riichi4p {
                Err(protocol_fault("4p infer called on non-riichi4p host"@))
            } else {
                request_4p(self.config, self.negotiated_protocol->0@, *input)
            },
    {
        if self.config.rule_line != RuleLine::Riichi4p {
            return Err(inference_error(InferenceErrorKind::Protocol, "4p infer called on non-riichi4p host"));
        }
        match &self.negotiated_protocol {
            Some(p) => build_infer_request_4p(&self.config, p.as_str(), input),
            None => Err(inference_error(InferenceErrorKind::Protocol, "4p infer called on non-riichi4p host")),
        }
    }

    /// Builds the request of a stage of a four-player decision.
    pub fn prepare_stage_4p(&self, input: &InferenceInput4p<'_>, second_stage: bool) -> (r: Result<
        BuiltInferenceRequest,
        InferenceError,
    >)
        requires
            self.is_sound(),
            self.config.rule_line == RuleLine::Riichi4p ==> self.negotiated_protocol is Some,
            self.config.rule_line == RuleLine::Riichi4p && self.negotiated_protocol->0@ == FLYA_INFERENCE_PROTOCOL_V1@
                ==> openings_seated_4p(input.events@),
        ensures
            built_result(r) == if self.config.rule_line != RuleLine::Riichi4p {
                Err(protocol_fault("4p stage infer called on non-riichi4p host"@))
            } else {
                match request_4p(self.config, self.negotiated_protocol->0@, *input) {
                    Err(e) => Err(e),
                    Ok(b) => Ok(BuiltFacts { request: stage_request(b.request, second_stage), ..b }),
                }
            },
    {
        if self.config.rule_line != RuleLine::Riichi4p {
            return Err(inference_error(InferenceErrorKind::Protocol, "4p stage infer called on non-riichi4p host"));
        }
        match self.prepare_4p(input) {
            Err(e) => Err(e),
            Ok(b) => {
                assert(b@.request is Object);
                let stage = if second_stage { "riichi_second_stage" } else { "primary" };
                let mut out = b;
                let request = out.request.copy().with("driver_stage", Json::text(stage));
                out.request = request;
                Ok(out)
            },
        }
    }

    /// Turns the reply to a four-player request into a decision.
    pub fn handle_response_4p(&mut self, response: &Json, built: &BuiltInferenceRequest, legal: &[LegalAction]) -> (r: Result<
        InferenceDecision,
        InferenceError,
    >)
        requires
            old(self).negotiated_protocol is Some,
        ensures
            decision_view(r) == answered(
                response@,
                built@,
                actions_view(legal@),
                old(self).place(true, built.viewer_seat),
                old(self).ranks(),
            ),
            *final(self) == (EngineSession {
                needs_rebuild: old(self).needs_rebuild || echo_rebuilds(response@),
                ..*old(self)
            }),
    {
        self.handle_response(response, built, legal, true)
    }

    /// Turns the reply to a stage of a four-player decision into what it says.
    pub fn handle_stage_4p(&mut self, response: &Json, built: &BuiltInferenceRequest, legal: &[LegalAction]) -> (r: Result<
        HostStageDecision,
        InferenceError,
    >)
        requires
            old(self).negotiated_protocol is Some,
        ensures
            stage_view(r) == staged(
                response@,
                built@,
                actions_view(legal@),
                old(self).place(true, built.viewer_seat),
                old(self).ranks(),
            ),
            *final(self) == (EngineSession {
                needs_rebuild: old(self).needs_rebuild || echo_rebuilds(response@),
                ..*old(self)
            }),
    {
        self.handle_stage(response, built, legal, true)
    }

    /// Builds the request of a three-player decision.
    pub fn prepare_3p(&self, input: &InferenceInput3p<'_>) -> (r: Result<BuiltInferenceRequest, InferenceError>)
        requires
            self.is_sound(),
            self.config.rule_line == RuleLine::Riichi3p ==> self.negotiated_protocol is Some,
            self.config.rule_line == RuleLine::Riichi3p && self.negotiated_protocol->0@ == FLYA_INFERENCE_PROTOCOL_V1@
                ==> openings_seated_3p(input.events@),
        ensures
            built_result(r) == if self.config.rule_line != RuleLine::Riichi3p {
                Err(protocol_fault("3p infer called on non-riichi3p host"@))
            } else {
                request_3p(self.config, self.negotiated_protocol->0@, *input)
            },
    {
        if self.config.rule_line != RuleLine::Riichi3p {
            return Err(inference_error(InferenceErrorKind::Protocol, "3p infer called on non-riichi3p host"));
        }
        match &self.negotiated_protocol {
            Some(p) => build_infer_request_3p(&self.config, p.as_str(), input),
            None => Err(inference_error(InferenceErrorKind::Protocol, "3p infer called on non-riichi3p host")),
        }
    }

    /// Builds the request of a stage of a three-player decision.
    pub fn prepare_stage_3p(&self, input: &InferenceInput3p<'_>, second_stage: bool) -> (r: Result<
        BuiltInferenceRequest,
        InferenceError,
    >)
        requires
            self.is_sound(),
            self.config.rule_line == RuleLine::Riichi3p ==> self.negotiated_protocol is Some,
            self.config.rule_line == RuleLine::Riichi3p && self.negotiated_protocol->0@ == FLYA_INFERENCE_PROTOCOL_V1@
                ==> openings_seated_3p(input.events@),
        ensures
            built_result(r) == if self.config.rule_line != RuleLine::Riichi3p {
                Err(protocol_fault("3p stage infer called on non-riichi3p host"@))
            } else {
                match request_3p(self.config, self.negotiated_protocol->0@, *input) {
                    Err(e) => Err(e),
                    Ok(b) => Ok(BuiltFacts { request: stage_request(b.request, second_stage), ..b }),
                }
            },
    {
        if self.config.rule_line != RuleLine::Riichi3p {
            return Err(inference_error(InferenceErrorKind::Protocol, "3p stage infer called on non-riichi3p host"));
        }
        match self.prepare_3p(input) {
            Err(e) => Err(e),
            Ok(b) => {
                assert(b@.request is Object);
                let stage = if second_stage { "riichi_second_stage" } else { "primary" };
                let mut out = b;
                let request = out.request.copy().with("driver_stage", Json::text(stage));
                out.request = request;
                Ok(out)
            },
        }
    }

    /// Turns the reply to a three-player request into a decision.
    pub fn handle_response_3p(&mut self, response: &Json, built: &BuiltInferenceRequest, legal: &[LegalAction]) -> (r: Result<
        InferenceDecision,
        InferenceError,
    >)
        requires
            old(self).negotiated_protocol is Some,
        ensures
            decision_view(r) == answered(
                response@,
                built@,
                actions_view(legal@),
                old(self).place(false, built.viewer_seat),
                old(self).ranks(),
            ),
            *final(self) == (EngineSession {
                needs_rebuild: old(self).needs_rebuild || echo_rebuilds(response@),
                ..*old(self)
            }),
    {
        self.handle_response(response, built, legal, false)
    }

    /// Turns the reply to a stage of a three-player decision into what it says.
    pub fn handle_stage_3p(&mut self, response: &Json, built: &BuiltInferenceRequest, legal: &[LegalAction]) -> (r: Result<
        HostStageDecision,
        InferenceError,
    >)
        requires
            old(self).negotiated_protocol is Some,
        ensures
            stage_view(r) == staged(
                response@,
                built@,
                actions_view(legal@),
                old(self).place(false, built.viewer_seat),
                old(self).ranks(),
            ),
            *final(self) == (EngineSession {
                needs_rebuild: old(self).needs_rebuild || echo_rebuilds(response@),
                ..*old(self)
            }),
    {
        self.handle_stage(response, built, legal, false)
    }
}

// Falling back.

/// What is done where an engine does not decide.
#[derive(Debug, Clone, Copy, PartialEq, Eq, Structural)]
pub enum FallbackPolicy {
    ProductBasicDecider,
    FailMatch,
}

/// Why the engine's decision is replaced.
#[derive(Debug, Clone, Copy, PartialEq, Eq, Structural)]
pub enum FallbackReason {
    Abstain,
    Error(InferenceErrorKind),
}

/// Who decided.
#[derive(Debug)]
#[allow(inconsistent_fields)]
pub enum HostInferenceOutcome {
    Engine(InferenceDecision),
    Fallback { policy: FallbackPolicy, reason: FallbackReason, decision: InferenceDecision },
}

/// Who decided, as facts.
#[allow(inconsistent_fields)]
pub ghost enum OutcomeFacts {
    Engine(DecisionFacts),
    Fallback { policy: FallbackPolicy, reason: FallbackReason, decision: DecisionFacts },
}

/// An outcome or an error, as facts.
pub open spec fn outcome_view(r: Result<HostInferenceOutcome, InferenceError>) -> Result<OutcomeFacts, Fault> {
    match r {
        Ok(HostInferenceOutcome::Engine(d)) => Ok(OutcomeFacts::Engine(d@)),
        Ok(HostInferenceOutcome::Fallback { policy, reason, decision }) => Ok(
            OutcomeFacts::Fallback { policy, reason, decision: decision@ },
        ),
        Err(e) => Err(e@),
    }
}

/// The fallback's decision: what a basic decider chose among the legal actions.
pub open spec fn fallen_back(policy: FallbackPolicy, reason: FallbackReason, choice: Option<usize>, legal_len: nat) -> Result<
    OutcomeFacts,
    Fault,
> {
    if policy == FallbackPolicy::FailMatch {
        Err(fault(InferenceErrorKind::EngineUnavailable, "engine abstained under fail-match fallback policy"@))
    } else {
        match choice {
            None => Err(fault(InferenceErrorKind::Internal, "fallback selector produced no legal action"@)),
            Some(index) => if index >= legal_len {
                Err(
                    fault(
                        InferenceErrorKind::InvalidAction,
                        "fallback selector returned out-of-range legal index "@ + dec(index as nat),
                    ),
                )
            } else {
                Ok(OutcomeFacts::Fallback { policy, reason, decision: DecisionFacts::Select { index, meta: None } })
            },
        }
    }
}

/// Who decides: the engine if it does, and otherwise as the policy says.
pub open spec fn settled(r: Result<DecisionFacts, Fault>, policy: FallbackPolicy, choice: Option<usize>, legal_len: nat) -> Result<
    OutcomeFacts,
    Fault,
> {
    match r {
        Ok(DecisionFacts::Abstain) => fallen_back(policy, FallbackReason::Abstain, choice, legal_len),
        Ok(d) => Ok(OutcomeFacts::Engine(d)),
        Err(e) => if policy == FallbackPolicy::ProductBasicDecider {
            fallen_back(policy, FallbackReason::Error(e.kind), choice, legal_len)
        } else {
            Err(e)
        },
    }
}

fn fall_back(policy: FallbackPolicy, reason: FallbackReason, choice: Option<usize>, legal_len: usize) -> (r: Result<
    HostInferenceOutcome,
    InferenceError,
>)
    ensures
        outcome_view(r) == fallen_back(policy, reason, choice, legal_len as nat),
{
    if policy == FallbackPolicy::FailMatch {
        return Err(
            inference_error(
                InferenceErrorKind::EngineUnavailable,
                "engine abstained under fail-match fallback policy",
            ),
        );
    }
    match choice {
        None => Err(inference_error(InferenceErrorKind::Internal, "fallback selector produced no legal action")),
        Some(index) => {
            if index >= legal_len {
                let d = join2("fallback selector returned out-of-range legal index ", dec_usize(index).as_str());
                return Err(inference_error(InferenceErrorKind::InvalidAction, d.as_str()));
            }
            Ok(
                HostInferenceOutcome::Fallback {
                    policy,
                    reason,
                    decision: InferenceDecision::Select { index, meta: None },
                },
            )
        },
    }
}

/// Who decides: `choice` is what the basic decider chose among the legal actions.
pub fn decide_or_fall_back(
    result: Result<InferenceDecision, InferenceError>,
    policy: FallbackPolicy,
    choice: Option<usize>,
    legal_len: usize,
) -> (r: Result<HostInferenceOutcome, InferenceError>)
    ensures
        outcome_view(r) == settled(decision_view(result), policy, choice, legal_len as nat),
{
    match result {
        Ok(InferenceDecision::Abstain) => fall_back(policy, FallbackReason::Abstain, choice, legal_len),
        Ok(d) => Ok(HostInferenceOutcome::Engine(d)),
        Err(e) => {
            if policy == FallbackPolicy::ProductBasicDecider {
                fall_back(policy, FallbackReason::Error(e.kind), choice, legal_len)
            } else {
                Err(e)
            }
        },
    }
}

/// A basic decider that chooses a legal action always leads to a decision.
pub proof fn a_basic_decider_always_decides(r: Result<DecisionFacts, Fault>, choice: usize, legal_len: nat)
    requires
        choice < legal_len,
    ensures
        settled(r, FallbackPolicy::ProductBasicDecider, Some(choice), legal_len) is Ok,
{
}

} // verus!
