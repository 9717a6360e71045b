use flytable::event::event3p::Event3p;
use flytable::event::event4p::Event4p;
use flytable::inference::contract::{
    InferenceDecision, InferenceErrorKind, KanKind, LegalAction, ResponseOpportunities, RiichiStyle, RuleLine,
    FLYA_INFERENCE_PROTOCOL_V1, FLYA_INFERENCE_PROTOCOL_V2,
};
use flytable::inference::driver::{
    call_budget, call_timeout_from_deadline, DriverHealth, ProviderPolicy, ProviderSchedule,
};
use flytable::inference::parse::{parse_legal_action_3p, parse_legal_action_4p};
use flytable::inference::recommend::{normalize_recommendation, response_meta, MAX_META_BYTES};
use flytable::inference::remote::{parse_remote_reply, RemoteHttpHost};
use flytable::inference::request::{
    build_infer_request_4p, BuiltInferenceRequest, DecisionPhase, EngineProcessConfig, InferenceInput3p, InferenceInput4p,
    RemoteHttpConfig, SourceInfo, SourceKind,
};
use flytable::inference::response::{response_branch, ResponseBranch};
use flytable::inference::session::{
    decide_or_fall_back, EngineSession, FallbackPolicy, FallbackReason, HostInferenceOutcome, HostStageDecision,
};
use flytable::inference::wire::{
    legal_action_3p_to_wire, legal_action_4p_to_wire, visible_event_4p_to_wire, visible_events_4p_to_wire,
};
use flytable::json::{Json, JsonFloat};
use flytable::mahjong::tile::Tile;

fn t(name: &str) -> Tile {
    Tile::from_name(name).unwrap()
}

fn obj(members: Vec<(&str, Json)>) -> Json {
    let mut out = Json::object();
    for (k, v) in members {
        out = out.with(k, v);
    }
    out
}

fn text(s: &str) -> Json {
    Json::text(s)
}

fn float(v: f64) -> Json {
    Json::Float(JsonFloat { bits: v.to_bits(), text: format!("{v:?}") })
}

fn actions() -> Vec<LegalAction> {
    vec![
        LegalAction::Discard { pai: t("5mr"), tsumogiri: true, riichi: false },
        LegalAction::Discard { pai: t("1p"), tsumogiri: false, riichi: true },
        LegalAction::Tsumo { pai: t("5mr") },
    ]
}

fn events() -> Vec<Event4p> {
    let hidden = [t("1s"); 13];
    vec![
        Event4p::StartGame { names: ["a", "b", "c", "d"].map(str::to_owned), seed: Some((1, 2)) },
        Event4p::StartKyoku {
            bakaze: t("E"),
            dora_marker: t("9p"),
            kyoku: 1,
            honba: 0,
            kyotaku: 0,
            oya: 0,
            scores: [25000; 4],
            tehais: [[t("E"); 13], hidden, hidden, hidden],
        },
        Event4p::Tsumo { actor: 0, pai: t("5mr") },
    ]
}

fn config() -> EngineProcessConfig {
    EngineProcessConfig::new("engine", 0, RuleLine::Riichi4p, "session")
}

fn hello_reply() -> Json {
    obj(vec![
        ("ok", Json::Bool(true)),
        ("session_id", text("session")),
        ("protocol_versions", Json::array(vec![text("flya-inference-v1"), text("flya-inference-v2")])),
        ("caps_version", Json::UInt(3)),
        (
            "caps",
            obj(vec![
                ("rule_lines", Json::array(vec![text("riichi4p")])),
                ("riichi_style", text("parallel_discard")),
                ("supports_incremental", Json::Bool(false)),
                ("returns_ranked_actions", Json::Bool(true)),
            ]),
        ),
    ])
}

fn session() -> EngineSession {
    let mut s = EngineSession::new(config());
    s.hello_request().unwrap();
    s.handle_hello(&hello_reply()).unwrap();
    s
}

fn input<'a>(events: &'a [Event4p], legal: &'a [LegalAction]) -> InferenceInput4p<'a> {
    InferenceInput4p {
        decision_id: "d1".to_string(),
        phase: DecisionPhase::Discard,
        events,
        legal_actions: legal,
        wall_remaining: 69,
        source: SourceInfo::authoritative(),
        remote_auth: None,
        seat: None,
    }
}

fn reply(b: &BuiltInferenceRequest) -> Json {
    obj(vec![
        ("ok", Json::Bool(true)),
        ("decision_id", text(&b.decision_id)),
        ("legal_digest", text(&b.legal_digest)),
        ("state_digest", text(&b.state_digest)),
        ("engine_ack_seq", Json::UInt(b.to_seq)),
        ("engine_ack_state_digest", text(&b.state_digest)),
    ])
}

// Messages.

#[test]
fn legal_actions_are_read_back() {
    let both = vec![
        LegalAction::Discard { pai: t("5mr"), tsumogiri: true, riichi: false },
        LegalAction::DealerOpeningDiscard { pai: t("1p"), riichi: true },
        LegalAction::Kan { pai: t("E"), kind: KanKind::Ankan, consumed: vec![t("E"); 4] },
        LegalAction::Kan { pai: t("E"), kind: KanKind::Daiminkan, consumed: vec![t("E"); 3] },
        LegalAction::Kan { pai: t("E"), kind: KanKind::Kakan, consumed: vec![t("E"); 3] },
        LegalAction::Tsumo { pai: t("9s") },
        LegalAction::DealerOpeningTsumo,
        LegalAction::Kyushukyuhai,
        LegalAction::PassAll { declines: ResponseOpportunities { ron: true, call: false } },
        LegalAction::Pon { pai: t("5p"), consumed: [t("5pr"), t("5p")] },
        LegalAction::Ron { pai: t("C"), target: 2 },
    ];
    for (i, a) in both.iter().enumerate() {
        let wire = legal_action_4p_to_wire(i, a);
        assert_eq!(wire.u64_at("action_id"), Some(i as u64));
        assert_eq!(&parse_legal_action_4p(&wire, 1).unwrap(), a);
        assert_eq!(&parse_legal_action_3p(&legal_action_3p_to_wire(i, a), 1).unwrap(), a);
    }
    let chi = LegalAction::Chi { pai: t("2m"), consumed: [t("3m"), t("4m")] };
    assert_eq!(parse_legal_action_4p(&legal_action_4p_to_wire(0, &chi), 1).unwrap(), chi);
    let kita = LegalAction::Nukidora;
    assert_eq!(parse_legal_action_3p(&legal_action_3p_to_wire(0, &kita), 1).unwrap(), kita);
}

#[test]
fn malformed_actions_are_refused() {
    let cases = vec![
        (Json::UInt(1), InferenceErrorKind::Protocol, "invalid 4p action wire shape: invalid type: integer `1`, expected struct WireAction"),
        (Json::object(), InferenceErrorKind::Protocol, "invalid 4p action wire shape: missing field `type`"),
        (
            obj(vec![("type", Json::Null)]),
            InferenceErrorKind::Protocol,
            "invalid 4p action wire shape: invalid type: null, expected a string",
        ),
        (
            obj(vec![("type", text("ron")), ("target", Json::UInt(256))]),
            InferenceErrorKind::Protocol,
            "invalid 4p action wire shape: invalid value: integer `256`, expected u8",
        ),
        (
            obj(vec![("type", text("dahai")), ("pai", text("0m"))]),
            InferenceErrorKind::Protocol,
            "invalid 4p action wire shape: invalid tile name \"0m\"",
        ),
        (obj(vec![("type", text("dahai"))]), InferenceErrorKind::Protocol, "action missing required tile field pai"),
        (
            obj(vec![("type", text("dahai")), ("pai", text("1m"))]),
            InferenceErrorKind::Protocol,
            "action missing required boolean field tsumogiri",
        ),
        (
            obj(vec![("type", text("pon")), ("pai", text("1m")), ("consumed", Json::array(vec![text("1m")]))]),
            InferenceErrorKind::Protocol,
            "action consumed length 1 outside required range 2..=2",
        ),
        (
            obj(vec![("type", text("pon")), ("pai", text("1m"))]),
            InferenceErrorKind::Protocol,
            "action missing required consumed field",
        ),
        (
            obj(vec![("type", text("ron")), ("pai", text("1m"))]),
            InferenceErrorKind::Protocol,
            "action missing required target field",
        ),
        (obj(vec![("type", text("pass_all"))]), InferenceErrorKind::Protocol, "pass_all action missing declines"),
        (obj(vec![("type", text("kita"))]), InferenceErrorKind::Protocol, "unknown 4p action type \"kita\""),
        (
            obj(vec![("type", text("kyushukyuhai")), ("actor", Json::UInt(2))]),
            InferenceErrorKind::InvalidAction,
            "action actor does not match requested seat",
        ),
    ];
    for (wire, kind, detail) in cases {
        let e = parse_legal_action_4p(&wire, 1).unwrap_err();
        assert_eq!((e.kind, e.detail.as_str()), (kind, detail));
    }
    let chi = legal_action_4p_to_wire(0, &LegalAction::Chi { pai: t("2m"), consumed: [t("3m"), t("4m")] });
    assert_eq!(parse_legal_action_3p(&chi, 0).unwrap_err().detail, "3p action cannot be chi");
}

#[test]
fn other_seats_tiles_are_not_sent() {
    let wire = visible_event_4p_to_wire(&events()[1], 0);
    let hands = wire.array_at("tehais").unwrap();
    assert_eq!(hands[0].as_array().unwrap()[0], text("E"));
    assert_eq!(hands[1].as_array().unwrap()[0], text("?"));
    assert_eq!(wire.u64_at("viewer_seat"), Some(0));
    let drawn = visible_event_4p_to_wire(&Event4p::Tsumo { actor: 2, pai: t("1m") }, 0);
    assert!(drawn.has_text("pai", "?"));
    assert_eq!(drawn, visible_event_4p_to_wire(&Event4p::Tsumo { actor: 2, pai: t("9p") }, 0));
    assert_eq!(visible_event_4p_to_wire(&events()[0], 0).get("seed"), None);
}

#[test]
fn the_first_protocol_knows_no_opening() {
    let stream = vec![
        Event4p::SeatForcedAutoplay { actor: 1 },
        Event4p::DealerOpening { actor: 0, pai: t("9s") },
        Event4p::DealerOpeningDahai { actor: 0, pai: t("9s") },
    ];
    let v1 = visible_events_4p_to_wire(&stream, 0, FLYA_INFERENCE_PROTOCOL_V1);
    assert_eq!(v1.len(), 2);
    assert!(v1[0].has_text("type", "tsumo"));
    assert!(v1[1].has_text("type", "dahai"));
    assert_eq!(v1[1].bool_at("tsumogiri"), Some(true));
    let v2 = visible_events_4p_to_wire(&stream, 0, FLYA_INFERENCE_PROTOCOL_V2);
    assert_eq!(v2.len(), 3);
    assert!(v2[1].has_text("type", "dealer_opening"));
    let legal = vec![LegalAction::DealerOpeningTsumo];
    let none: Vec<Event4p> = vec![];
    let e = build_infer_request_4p(&config(), FLYA_INFERENCE_PROTOCOL_V1, &input(&none, &legal)).err().unwrap();
    assert_eq!(e.detail, "v1 dealer-opening compatibility requires the opening tile event");
}

// The greeting.

#[test]
fn the_best_common_protocol_is_negotiated() {
    let s = session();
    assert_eq!(s.negotiated_protocol.as_deref(), Some(FLYA_INFERENCE_PROTOCOL_V2));
    let caps = s.caps.as_ref().unwrap();
    assert_eq!(caps.caps_version, 3);
    assert_eq!(caps.riichi_style, RiichiStyle::ParallelDiscard);
    assert!(caps.returns_ranked_actions && !s.needs_rebuild);
    let hello = s.hello_request().unwrap();
    assert!(hello.has_text("cmd", "hello") && hello.has_text("rule_line", "riichi4p"));
    assert_eq!(s.end_request().write(), r#"{"cmd":"end","session_id":"session","v":2}"#);
    assert!(s.handle_end(&obj(vec![("ok", Json::Bool(true))])).is_ok());
    assert_eq!(s.handle_end(&Json::Null).unwrap_err().detail, "engine end failed: null");
}

#[test]
fn greetings_that_fail() {
    let cases = vec![
        (Json::object(), "engine hello failed: {}", true),
        (hello_reply().with("session_id", text("x")), "engine hello session_id mismatch", true),
        (hello_reply().without("protocol_versions"), "engine hello missing protocol_versions", false),
        (
            hello_reply().with("protocol_versions", Json::array(vec![text("v9")])),
            "engine protocol_versions has no supported host intersection",
            true,
        ),
        (hello_reply().without("caps"), "engine hello missing caps", false),
        (hello_reply().without("caps_version"), "engine hello missing caps_version", false),
        (hello_reply().with("caps", Json::object()), "engine caps missing rule_lines", false),
    ];
    for (response, detail, rebuild) in cases {
        let mut s = EngineSession::new(config());
        assert_eq!(s.handle_hello(&response).unwrap_err().detail, detail);
        assert_eq!(s.needs_rebuild, rebuild);
        assert!(s.negotiated_protocol.is_none());
    }
    let caps = |rules: &str, style: &str| {
        obj(vec![
            ("rule_lines", Json::array(vec![text(rules)])),
            ("riichi_style", text(style)),
            ("supports_incremental", Json::Bool(false)),
            ("returns_ranked_actions", Json::Bool(false)),
        ])
    };
    let mut s = EngineSession::new(config());
    assert_eq!(
        s.handle_hello(&hello_reply().with("caps", caps("riichi3p", "parallel_discard"))).unwrap_err().detail,
        "engine caps do not include requested rule line"
    );
    assert_eq!(
        s.handle_hello(&hello_reply().with("caps", caps("go", "parallel_discard"))).unwrap_err().detail,
        "unknown rule_line \"go\""
    );
    assert_eq!(
        s.handle_hello(&hello_reply().with("caps", caps("riichi4p", "x"))).unwrap_err().detail,
        "unknown riichi_style \"x\""
    );
    let mut empty = config();
    empty.protocol_versions.clear();
    assert_eq!(
        EngineSession::new(empty).hello_request().unwrap_err().detail,
        "host protocol_versions must not be empty"
    );
}

// Requests and replies.

#[test]
fn requests_carry_the_state_and_its_digests() {
    let (events, legal) = (events(), actions());
    let b = session().prepare_4p(&input(&events, &legal)).unwrap();
    assert_eq!(b.to_seq, 3);
    assert!(b.legal_digest.starts_with("sha256:") && b.legal_digest != b.state_digest);
    assert!(b.request.has_text("cmd", "infer") && b.request.has_text("legal_digest", &b.legal_digest));
    let state = b.request.get("state").unwrap();
    assert_eq!(state.array_at("events").unwrap().len(), 3);
    assert_eq!(state.array_at("legal_actions").unwrap().len(), 3);
    assert_eq!(b.request.get("remote_auth"), None);
    let mut with = input(&events, &legal);
    with.remote_auth = Some("SECRET-REDACTED".to_string());
    assert!(session().prepare_4p(&with).unwrap().request.has_text("remote_auth", "SECRET-REDACTED"));
    let other = actions().into_iter().take(2).collect::<Vec<_>>();
    assert_ne!(session().prepare_4p(&input(&events, &other)).unwrap().legal_digest, b.legal_digest);
    let none: Vec<Event3p> = vec![];
    let three = InferenceInput3p {
        decision_id: "d".to_string(),
        phase: DecisionPhase::Response,
        events: &none,
        legal_actions: &legal,
        wall_remaining: 1,
        source: SourceInfo { kind: SourceKind::Observed, epoch: 1, status: "x".to_string() },
        remote_auth: None,
        seat: Some(1),
        match_context: None,
    };
    assert_eq!(session().prepare_3p(&three).err().unwrap().detail, "3p infer called on non-riichi3p host");
}

#[test]
fn an_engine_decides_among_the_legal_actions() {
    let (events, legal) = (events(), actions());
    let mut s = session();
    let b = s.prepare_4p(&input(&events, &legal)).unwrap();
    let select = |n: u64| reply(&b).with("select", obj(vec![("legal_index", Json::UInt(n))]));
    assert!(matches!(
        s.handle_response_4p(&select(1), &b, &legal),
        Ok(InferenceDecision::Select { index: 1, meta: None })
    ));
    assert_eq!(
        s.handle_response_4p(&select(3), &b, &legal).unwrap_err().detail,
        "engine selected out-of-range legal index 3"
    );
    let named = reply(&b).with("action", legal_action_4p_to_wire(9, &legal[2]));
    assert!(matches!(s.handle_response_4p(&named, &b, &legal), Ok(InferenceDecision::Select { index: 2, .. })));
    let stranger = reply(&b).with("action", legal_action_4p_to_wire(0, &LegalAction::Kyushukyuhai));
    let e = s.handle_response_4p(&stranger, &b, &legal).unwrap_err();
    assert_eq!(e.kind, InferenceErrorKind::InvalidAction);
    assert_eq!(e.detail, "engine action does not exactly match current 4p legal list: Kyushukyuhai");
    assert!(matches!(
        s.handle_response_4p(&reply(&b).with("abstain", Json::Bool(true)), &b, &legal),
        Ok(InferenceDecision::Abstain)
    ));
    assert!(!s.needs_rebuild);
}

#[test]
fn ranked_actions_go_by_score() {
    let (events, legal) = (events(), actions());
    let mut s = session();
    let b = s.prepare_4p(&input(&events, &legal)).unwrap();
    let entry = |i: usize, score: Json| obj(vec![("action", legal_action_4p_to_wire(0, &legal[i])), ("score", score)]);
    let ranked = |v: Vec<Json>| reply(&b).with("ranked", Json::array(v));
    let pick = |s: &mut EngineSession, r: Json| match s.handle_response_4p(&r, &b, &legal) {
        Ok(InferenceDecision::Select { index, .. }) => index,
        other => panic!("{other:?}"),
    };
    assert_eq!(pick(&mut s, ranked(vec![entry(0, float(0.25)), entry(1, float(0.5)), entry(2, float(-3.0))])), 1);
    assert_eq!(pick(&mut s, ranked(vec![entry(2, Json::UInt(1)), entry(1, float(1.0))])), 2);
    let foreign = obj(vec![("action", legal_action_4p_to_wire(0, &LegalAction::Kyushukyuhai)), ("score", Json::UInt(9))]);
    assert_eq!(pick(&mut s, ranked(vec![entry(0, Json::Int(-1)), foreign.copy()])), 0);
    assert_eq!(
        s.handle_response_4p(&ranked(vec![foreign]), &b, &legal).unwrap_err().detail,
        "no ranked 4p action exactly matched current legal list"
    );
    assert_eq!(
        s.handle_response_4p(&ranked(vec![Json::object()]), &b, &legal).unwrap_err().detail,
        "ranked entry missing action"
    );
    s.caps.as_mut().unwrap().returns_ranked_actions = false;
    assert_eq!(
        s.handle_response_4p(&ranked(vec![entry(0, Json::UInt(1))]), &b, &legal).unwrap_err().detail,
        "engine returned ranked actions without declaring returns_ranked_actions"
    );
}

#[test]
fn stale_replies_are_refused() {
    let (events, legal) = (events(), actions());
    let mut s = session();
    let b = s.prepare_4p(&input(&events, &legal)).unwrap();
    let good = reply(&b).with("abstain", Json::Bool(true));
    let cases = vec![
        ("decision_id", InferenceErrorKind::StaleDecision, "engine decision_id echo mismatch"),
        ("legal_digest", InferenceErrorKind::StaleDecision, "engine legal_digest echo mismatch"),
        ("state_digest", InferenceErrorKind::StaleDecision, "engine state_digest echo mismatch"),
        ("engine_ack_seq", InferenceErrorKind::StateSyncRequired, "engine_ack_seq does not match request to_seq"),
        (
            "engine_ack_state_digest",
            InferenceErrorKind::StateSyncRequired,
            "engine_ack_state_digest does not match authoritative state_digest",
        ),
    ];
    for (key, kind, detail) in cases {
        let e = s.handle_response_4p(&good.copy().with(key, text("x")), &b, &legal).unwrap_err();
        assert_eq!((e.kind, e.detail.as_str()), (kind, detail));
    }
    assert!(!s.needs_rebuild);
    let e = s
        .handle_response_4p(
            &obj(vec![("ok", Json::Bool(false)), ("error_kind", text("stale")), ("detail", text("late"))]),
            &b,
            &legal,
        )
        .unwrap_err();
    assert_eq!((e.kind, e.detail.as_str(), s.needs_rebuild), (InferenceErrorKind::StaleDecision, "late", false));
    let e = s.handle_response_4p(&Json::object(), &b, &legal).unwrap_err();
    assert_eq!((e.detail.as_str(), s.needs_rebuild), ("engine response missing ok boolean", true));
}

#[test]
fn a_reply_has_one_branch() {
    assert_eq!(response_branch(&obj(vec![("select", Json::Null)])).unwrap(), ResponseBranch::Select);
    assert!(response_branch(&obj(vec![("abstain", Json::Bool(false))])).is_err());
    let two = obj(vec![("abstain", Json::Bool(true)), ("declare_reach", Json::Bool(true))]);
    assert_eq!(
        response_branch(&two).unwrap_err().detail,
        "ok:true response has multiple select|action|ranked|abstain|declare_reach branches"
    );
}

#[test]
fn riichi_can_be_declared_in_stages() {
    let (events, legal) = (events(), actions());
    let mut s = session();
    let b = s.prepare_stage_4p(&input(&events, &legal), true).unwrap();
    assert!(b.request.has_text("driver_stage", "riichi_second_stage"));
    let declared = reply(&b).with("declare_reach", Json::Bool(true));
    assert!(matches!(s.handle_stage_4p(&declared, &b, &legal), Ok(HostStageDecision::DeclareReach)));
    assert_eq!(
        s.handle_response_4p(&declared, &b, &legal).unwrap_err().detail,
        "declare_reach is only valid through the stage driver entry"
    );
}

#[test]
fn a_basic_decider_replaces_the_engine() {
    let err = || Err(flytable::inference::contract::inference_error(InferenceErrorKind::Timeout, "late"));
    match decide_or_fall_back(err(), FallbackPolicy::ProductBasicDecider, Some(1), 2) {
        Ok(HostInferenceOutcome::Fallback { reason, decision: InferenceDecision::Select { index: 1, .. }, .. }) => {
            assert_eq!(reason, FallbackReason::Error(InferenceErrorKind::Timeout))
        }
        other => panic!("{other:?}"),
    }
    assert_eq!(decide_or_fall_back(err(), FallbackPolicy::FailMatch, Some(1), 2).unwrap_err().detail, "late");
    assert_eq!(
        decide_or_fall_back(Ok(InferenceDecision::Abstain), FallbackPolicy::FailMatch, Some(1), 2).unwrap_err().detail,
        "engine abstained under fail-match fallback policy"
    );
    assert_eq!(
        decide_or_fall_back(err(), FallbackPolicy::ProductBasicDecider, Some(2), 2).unwrap_err().detail,
        "fallback selector returned out-of-range legal index 2"
    );
    assert_eq!(
        decide_or_fall_back(err(), FallbackPolicy::ProductBasicDecider, None, 2).unwrap_err().detail,
        "fallback selector produced no legal action"
    );
}

// Remarks.

#[test]
fn good_remarks_are_kept_and_bad_ones_dropped() {
    let remark = |id: &str, value: Json| obj(vec![("id", text(id)), ("type", text("number")), ("value", value)]);
    let rec = obj(vec![
        (
            "actions",
            Json::array(vec![
                obj(vec![
                    ("action_ref", Json::UInt(0)),
                    ("primary", obj(vec![("kind", text("probability")), ("value", Json::UInt(1))])),
                    ("attributes", Json::array(vec![remark(" ev ", float(0.5)), remark(" ", float(0.5)), Json::Null])),
                ]),
                obj(vec![("action_ref", Json::UInt(7))]),
                Json::Null,
            ]),
        ),
        ("global", Json::array(vec![obj(vec![("id", text("n")), ("type", text("text")), ("value", text(""))])])),
    ]);
    assert_eq!(
        normalize_recommendation(&rec, 2).unwrap().write(),
        concat_lines(&[
            r#"{"actions":[{"action_ref":0,"attributes":[{"display":"follow","format":"raw","id":"ev","type":"number","value":0.5}],"#,
            r#""primary":{"kind":"probability","value":1.0}}],"global":[]}"#,
        ])
    );
    assert!(normalize_recommendation(&Json::Null, 2).is_none());
    assert!(normalize_recommendation(&Json::object(), 2).is_none());
    let bad = obj(vec![(
        "actions",
        Json::array(vec![obj(vec![
            ("action_ref", Json::UInt(1)),
            ("primary", obj(vec![("kind", text("probability")), ("value", float(1.5))])),
        ])]),
    )]);
    assert_eq!(normalize_recommendation(&bad, 2).unwrap().write(), r#"{"actions":[{"action_ref":1,"attributes":[]}],"global":[]}"#);
}

fn concat_lines(parts: &[&str]) -> String {
    parts.concat()
}

#[test]
fn long_texts_are_cut_at_a_character() {
    let long = "\u{20ac}".repeat(2000);
    let rec = obj(vec![(
        "global",
        Json::array(vec![obj(vec![("id", text("n")), ("type", text("text")), ("value", text(&long))])]),
    )]);
    let out = normalize_recommendation(&rec, 0).unwrap();
    let value = out.array_at("global").unwrap()[0].text_at("value").unwrap().to_string();
    assert_eq!(value.chars().count(), 1366);
    assert!(value.ends_with('\u{2026}'));
}

#[test]
fn remarks_are_bounded() {
    let big = |n: usize| text(&"x".repeat(n));
    let small = obj(vec![("meta", obj(vec![("note", text("hi"))]))]);
    assert_eq!(response_meta(&small, 2).unwrap(), r#"{"note":"hi"}"#);
    assert_eq!(response_meta(&Json::object(), 2), None);
    let trimmed = obj(vec![("meta", obj(vec![("state", big(MAX_META_BYTES)), ("debug", text("kept"))]))]);
    assert_eq!(response_meta(&trimmed, 2).unwrap(), r#"{"debug":"kept"}"#);
    let rest = obj(vec![("meta", obj(vec![("other", big(MAX_META_BYTES)), ("behavior", text("gone"))]))]);
    assert_eq!(response_meta(&rest, 2).unwrap(), "{}");
    let whole = obj(vec![("meta", big(MAX_META_BYTES))]);
    assert_eq!(response_meta(&whole, 2), None);
}

// Over the network.

#[test]
fn remote_replies_echo_the_selected_action() {
    let legal = actions();
    let good = obj(vec![
        ("ok", Json::Bool(true)),
        ("decision_id", text("d1")),
        ("selected_index", Json::UInt(1)),
        ("action", legal_action_4p_to_wire(1, &legal[1])),
        ("meta", obj(vec![("a", Json::UInt(1))])),
    ]);
    match parse_remote_reply(200, &good, "d1", &legal) {
        Ok(InferenceDecision::Select { index: 1, meta: Some(m) }) => assert_eq!(m, r#"{"a":1}"#),
        other => panic!("{other:?}"),
    }
    let cases = vec![
        (200, good.copy().with("decision_id", text("x")), InferenceErrorKind::StaleDecision, "remote inference decision_id echo mismatch"),
        (200, good.copy().without("selected_index"), InferenceErrorKind::Protocol, "remote inference response missing selected_index"),
        (200, good.copy().with("selected_index", Json::UInt(3)), InferenceErrorKind::InvalidAction, "remote selected_index 3 out of range"),
        (200, good.copy().with("selected_index", Json::UInt(0)), InferenceErrorKind::InvalidAction, "remote inference action echo does not match selected_index"),
        (200, Json::object(), InferenceErrorKind::Protocol, "remote inference response missing ok boolean"),
        (200, obj(vec![("ok", Json::Bool(false)), ("error", text("no"))]), InferenceErrorKind::Protocol, "no"),
        (401, Json::Null, InferenceErrorKind::EngineUnavailable, "remote status 401: remote inference failed"),
        (504, obj(vec![("message", text("slow"))]), InferenceErrorKind::Timeout, "remote status 504: slow"),
        (409, Json::Null, InferenceErrorKind::StaleDecision, "remote status 409: remote inference failed"),
        (500, Json::Null, InferenceErrorKind::Protocol, "remote status 500: remote inference failed"),
    ];
    for (status, response, kind, detail) in cases {
        let e = parse_remote_reply(status, &response, "d1", &legal).unwrap_err();
        assert_eq!((e.kind, e.detail.as_str()), (kind, detail));
    }
}

#[test]
fn remote_hosts_need_an_endpoint() {
    let blank = RemoteHttpConfig::new("  ", 0, RuleLine::Riichi4p, "s");
    assert_eq!(RemoteHttpHost::new(blank).err().unwrap().detail, "remote endpoint is empty");
    let mut c = RemoteHttpConfig::new("http://engine", 0, RuleLine::Riichi4p, "s");
    c.bearer_token = Some(" \n".to_string());
    let host = RemoteHttpHost::new(c).unwrap();
    assert_eq!(host.token(), None);
    let (events, legal) = (events(), actions());
    let body = host.prepare_4p(&input(&events, &legal)).unwrap();
    let first = &body.array_at("events").unwrap()[0];
    assert_eq!(first.array_at("seed").unwrap().len(), 2);
    assert!(body.has_text("decision_id", "d1"));
}

// Scheduling.

#[test]
fn the_breaker_opens_and_lets_one_probe_through() {
    let policy = ProviderPolicy { trip_threshold: 2, cooldown: 100, ..ProviderPolicy::default() };
    let mut p = ProviderSchedule::new(policy, 3);
    assert_eq!((p.concurrency, p.permits), (3, 3));
    for now in [0, 10] {
        p.begin_call(now).unwrap();
        p.on_failure(now);
    }
    assert!(p.metrics(50).circuit_open);
    assert_eq!(p.begin_call(109).unwrap_err().detail, "provider circuit open");
    p.begin_call(110).unwrap();
    assert_eq!(p.begin_call(111).unwrap_err().detail, "provider half-open probe already in flight");
    assert!(matches!(p.health(50, DriverHealth::Healthy), DriverHealth::Unhealthy(_)));
    p.on_success();
    assert!(!p.metrics(50).circuit_open);
    p.begin_call(112).unwrap();
    let m = p.metrics(112);
    assert_eq!((m.calls, m.failures, m.rejected_open), (4, 2, 2));
}

#[test]
fn only_unsent_calls_are_retried() {
    let p = ProviderSchedule::new(ProviderPolicy { max_retries: 1, ..ProviderPolicy::default() }, 0);
    assert_eq!(p.concurrency, 1);
    assert!(p.retries(InferenceErrorKind::PreSendUnavailable, 0, 0, None));
    assert!(!p.retries(InferenceErrorKind::PreSendUnavailable, 1, 0, None));
    assert!(!p.retries(InferenceErrorKind::Timeout, 0, 0, None));
    assert!(!p.retries(InferenceErrorKind::PreSendUnavailable, 0, 5, Some(5)));
}

#[test]
fn calls_take_their_place_in_the_budget() {
    let mut p = ProviderSchedule::new(ProviderPolicy { max_concurrency: 1, ..ProviderPolicy::default() }, 9);
    assert!(p.acquire());
    assert!(!p.acquire());
    assert_eq!(p.wait_budget(Some(10), 4).unwrap(), Some(6));
    assert_eq!(p.wait_budget(None, 4).unwrap(), None);
    assert_eq!(
        p.wait_budget(Some(4), 4).unwrap_err().detail,
        "provider concurrency wait exceeded decision deadline"
    );
    p.release();
    assert!(p.acquire());
}

#[test]
fn deadlines_bound_a_call() {
    assert_eq!(call_timeout_from_deadline(None, 7, 50), 50);
    assert_eq!(call_timeout_from_deadline(Some(20), 7, 50), 13);
    assert_eq!(call_timeout_from_deadline(Some(200), 7, 50), 50);
    assert_eq!(call_timeout_from_deadline(Some(7), 7, 50), 0);
    assert_eq!(call_budget(Some(7), 7, 50).unwrap_err().kind, InferenceErrorKind::Timeout);
    assert_eq!(call_budget(Some(8), 7, 50).unwrap(), 1);
}

#[test]
fn lines_of_an_engine_are_read() {
    let mut s = session();
    let line = r#"{"z":[1,-2,1.5,null,true],"a":{"k":"v\n"}}"#;
    let read = s.read_reply(line).unwrap();
    let expected = Json::object()
        .with(
            "z",
            Json::array(vec![
                Json::UInt(1),
                Json::Int(-2),
                Json::Float(JsonFloat { bits: 1.5f64.to_bits(), text: "1.5".to_string() }),
                Json::Null,
                Json::Bool(true),
            ]),
        )
        .with("a", Json::object().with("k", text("v\n")));
    assert_eq!(read, expected);
    assert!(!s.needs_rebuild);
    assert_eq!(s.read_reply(&hello_reply().write()).unwrap(), hello_reply());

    let error = s.read_reply("{\"a\"").unwrap_err();
    assert_eq!(error.kind, InferenceErrorKind::Protocol);
    let words = serde_json::from_str::<serde_json::Value>("{\"a\"").unwrap_err().to_string();
    assert_eq!(error.detail, format!("engine returned invalid JSON: {words}; line=\"{{\\\"a\\\"\""));
    assert!(s.needs_rebuild);

    let mut s = session();
    assert_eq!(s.take_reply("x", Ok(Json::Null)).unwrap(), Json::Null);
    assert!(!s.needs_rebuild);
    assert_eq!(
        s.take_reply("x", Err("why".to_string())).unwrap_err().detail,
        "engine returned invalid JSON: why; line=\"x\""
    );
    assert!(s.needs_rebuild);
}

fn shape_error(action: &Json) -> String {
    let error = parse_legal_action_3p(action, 1).unwrap_err();
    assert_eq!(error.kind, InferenceErrorKind::Protocol);
    error.detail.strip_prefix("invalid 3p action wire shape: ").unwrap().to_string()
}

fn words<T: serde::de::DeserializeOwned + std::fmt::Debug>(json: &Json) -> String {
    let value: serde_json::Value = serde_json::from_str(&json.write()).unwrap();
    serde_json::from_value::<T>(value).unwrap_err().to_string()
}

#[test]
fn faults_of_fields_are_told_in_the_words_of_the_json_library() {
    let values = vec![
        Json::Bool(true),
        Json::Bool(false),
        Json::UInt(256),
        Json::Int(-1),
        Json::Float(JsonFloat { bits: 5.0f64.to_bits(), text: "5.0".to_string() }),
        Json::Float(JsonFloat { bits: 1e30f64.to_bits(), text: serde_json::Value::from(1e30f64).to_string() }),
        text("a \"b\"\n"),
        Json::array(vec![]),
        Json::object(),
    ];
    for v in &values {
        let with = |key: &str| shape_error(&obj(vec![("type", text("ron"))]).with(key, v.copy()));
        assert_eq!(with("actor"), words::<u8>(v));
        assert_eq!(with("target"), words::<Option<u8>>(v));
        if !matches!(v, Json::Bool(_)) {
            assert_eq!(with("riichi"), words::<bool>(v));
            assert_eq!(with("tsumogiri"), words::<Option<bool>>(v));
        }
        if !matches!(v, Json::Text(_)) {
            assert_eq!(with("pai"), words::<String>(v));
            assert_eq!(with("type"), words::<String>(v));
        }
        if !matches!(v, Json::Array(_)) {
            assert_eq!(with("consumed"), words::<Vec<String>>(v));
        }
    }
    let consumed = Json::array(vec![text("1m"), Json::UInt(3), text("zz")]);
    assert_eq!(shape_error(&obj(vec![("type", text("pon")), ("consumed", consumed.copy())])), words::<Vec<String>>(&consumed));
}

#[test]
fn the_first_fault_of_an_action_is_told() {
    // Members in the order of their keys, and what is missing last.
    let bad = obj(vec![("tsumogiri", Json::UInt(1)), ("pai", text("x")), ("actor", text("me"))]);
    assert_eq!(shape_error(&bad), "invalid type: string \"me\", expected u8");
    assert_eq!(shape_error(&bad.copy().without("actor")), "invalid tile name \"x\"");
    assert_eq!(shape_error(&bad.without("actor").without("pai")), "invalid type: integer `1`, expected a boolean");
    assert_eq!(shape_error(&obj(vec![("pai", text("1m")), ("other", Json::UInt(1))])), "missing field `type`");
    let declines = |j: Json| shape_error(&obj(vec![("type", text("pass_all"))]).with("declines", j));
    assert_eq!(declines(Json::UInt(1)), "invalid type: integer `1`, expected struct WireDeclines");
    assert_eq!(declines(Json::object()), "missing field `ron`");
    assert_eq!(declines(obj(vec![("ron", Json::Bool(true))])), "missing field `call`");
    assert_eq!(declines(obj(vec![("call", Json::Null)])), "invalid type: null, expected a boolean");
    assert_eq!(
        declines(obj(vec![("ron", Json::UInt(1)), ("call", Json::UInt(2))])),
        "invalid type: integer `2`, expected a boolean"
    );
    assert_eq!(
        declines(Json::array(vec![Json::Bool(true)])),
        "invalid length 1, expected struct WireDeclines with 2 elements"
    );
    assert_eq!(
        declines(Json::array(vec![Json::Bool(true), Json::Bool(true), Json::Null])),
        "invalid length 3, expected fewer elements in array"
    );

    // A list gives the fields in their own order.
    let list = |n: usize| {
        let mut v = vec![text("ron"), Json::UInt(1), text("1m"), Json::Null, Json::Null, Json::UInt(2)];
        v.resize_with(n, || Json::Null);
        Json::array(v)
    };
    assert_eq!(
        parse_legal_action_3p(&list(8), 1).unwrap(),
        LegalAction::Ron { pai: t("1m"), target: 2 }
    );
    assert_eq!(shape_error(&list(7)), "invalid length 7, expected struct WireAction with 8 elements");
    assert_eq!(shape_error(&list(9)), "invalid length 9, expected fewer elements in array");
    assert_eq!(
        shape_error(&Json::array(vec![Json::Null, text("me")])),
        "invalid type: null, expected a string"
    );
}
