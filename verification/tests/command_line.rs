use flytable::cli::matchlog::{
    after_archive, drive, inspect, log_hand_text, log_header_text, outcome_text, plan, seats, settlement_for, window_text,
    written_text, DriveAction, KyokuArchive, LiveStep, MatchArchive,
};
use flytable::cli::report::{
    print_entry, print_report, report, AgentStatus, CatalogEntry, FullMatchReport, HandResult, KyokuReport, MoveTrace, WinReport,
};
use flytable::cli::seats::{match_rules, needs_plugins, parse_spec, seat_table, AlgorithmKind, MatchKind, SeatSpec};
use flytable::cli::selfplay::{
    missed_rons, normalize_winners, nothing_to_answer, refusal_text, resolve_answers, step, Answered, Asked, Phase, SeatAnswer, TableState,
};
use flytable::event::matchlog::event::{MatchlogEvent, RyukyokuBody, RyukyokuKind};
use flytable::event::matchlog::types::{RuleEra, TileIdentity};
use flytable::event::matchlog::window::{DecisionWindow, WindowPhase};
use flytable::inference::registry::scan::{CertifiedPluginRuntime, SmokeSummary};
use flytable::mahjong::rules::{RiichiRuleProfile, RonResolution};
use flytable::mahjong::tile::Tile;
use flytable::mahjong::yaku::Yaku;
use flytable::maintainer::action::ReactionAction;

fn s(v: &[&str]) -> Vec<String> {
    v.iter().map(|x| x.to_string()).collect()
}

fn runtime(id: &str, name: &str, line: &str) -> CertifiedPluginRuntime {
    CertifiedPluginRuntime {
        model_id: id.to_string(),
        name: name.to_string(),
        plugin_dir: String::new(),
        rule_line: line.to_string(),
        riichi_style: String::new(),
        protocol: String::new(),
        launch_cmd: String::new(),
        launch_args: vec![],
        package_hash: String::new(),
        cached: false,
        smoke: SmokeSummary { decisions: 8, all_legal: true, dealer_opening_checked: true, max_infer_ms: 5 },
    }
}

// Seats.

#[test]
fn seats_default_to_tsumogiri() {
    let table = seat_table(3, &s(&["1=tsumogiri"]), None, None).unwrap();
    assert_eq!(table, vec![SeatSpec::Algorithm(AlgorithmKind::Tsumogiri); 3]);
    assert_eq!(seat_table(5, &vec![], None, None).unwrap_err(), "only 3 or 4 seats are supported");
}

#[test]
fn seat_entries_that_are_refused() {
    let err = |e: &[&str]| seat_table(4, &s(e), None, None).unwrap_err();
    assert_eq!(err(&["tsumogiri"]), "--seat must be I=SPEC, got \"tsumogiri\"");
    assert_eq!(err(&["x=tsumogiri"]), "invalid --seat index: \"x\"");
    assert_eq!(err(&["=tsumogiri"]), "invalid --seat index: \"\"");
    assert_eq!(err(&["4=tsumogiri"]), "seat index 4 is outside 0..4");
    assert_eq!(err(&["0=tsumogiri", " +0 = tsumogiri"]), "seat 0 specified more than once");
    assert_eq!(err(&["99999999999999999999999=tsumogiri"]), "invalid --seat index: \"99999999999999999999999\"");
    assert_eq!(
        err(&["0=random"]),
        "unknown seat spec \"random\" (expected tsumogiri / plugin:<model_id> / plugin@<name>)"
    );
    assert_eq!(
        err(&["0=plugin:x"]),
        "plugin seats need --models-root <root> (the registry scans <root>/{4p,3p}/<plugin>)"
    );
}

#[test]
fn plugins_are_found_by_identifier_or_name() {
    let plugins = vec![runtime("id1", "a", "riichi4p"), runtime("id2", "a", "riichi3p"), runtime("id3", "b", "riichi4p"), runtime("id4", "b", "riichi4p")];
    let go = |players: u8, spec: &str| parse_spec(players, spec, Some("/m"), Some(&plugins));
    assert_eq!(go(4, "plugin:id1").unwrap(), SeatSpec::Plugin(0));
    assert_eq!(go(3, "plugin@a").unwrap(), SeatSpec::Plugin(1));
    assert_eq!(
        go(4, "plugin:id2").unwrap_err(),
        "plugin id2 is for rule line riichi3p, which does not match --players 4 (riichi4p)"
    );
    assert_eq!(
        go(4, "plugin@b").unwrap_err(),
        "name=\"b\" matches 2 plugins under riichi4p; use plugin:<model_id> instead"
    );
    assert!(go(4, "plugin:zzz").unwrap_err().starts_with("model_id=\"zzz\" not found. Certified plugins:\n  - id1 (name=a) [riichi4p]\n"));
    assert!(go(3, "plugin@b").unwrap_err().starts_with("name=\"b\" not found under riichi3p. Certified plugins:\n  - name=a [riichi4p] -> id1\n"));
    let none = vec![];
    assert_eq!(
        parse_spec(4, "plugin:x", Some("/m"), Some(&none)).unwrap_err(),
        "no certified plugins under models-root /m (model_id=\"x\" not found)"
    );
    assert!(needs_plugins(&s(&["0= plugin@a"])) && !needs_plugins(&s(&["0=tsumogiri", "plugin:x"])));
    assert_eq!(MatchKind::parse("half"), Some(MatchKind::Half));
    assert_eq!(MatchKind::parse("full"), None);
}

// Self-play.

#[test]
fn winners_go_in_the_order_of_turns() {
    assert_eq!(normalize_winners(&vec![0, 3, 0], 2, 4, RonResolution::Multiple), vec![3, 0]);
    assert_eq!(normalize_winners(&vec![0, 1, 3], 2, 4, RonResolution::AtamaHane), vec![3]);
    assert_eq!(normalize_winners(&vec![1, 2], 0, 3, RonResolution::Multiple), vec![1, 2]);
    assert_eq!(
        refusal_text(&Asked::Ron(vec![1, 2]), false),
        "RULE_RON_APPLY_REJECTED: seats=[1, 2] stage=selfplay_reaction"
    );
    assert_eq!(
        refusal_text(&Asked::Ron(vec![1]), true),
        "RULE_ROBBERY_RON_APPLY_REJECTED: seats=[1] stage=selfplay_robbery"
    );
    assert_eq!(
        refusal_text(&Asked::MissedRon(2), true),
        "RULE_MISSED_RON_APPLY_REJECTED: seat=2 stage=selfplay_robbery"
    );
    assert_eq!(refusal_text(&Asked::TripleRon, false), "RULE_SANCHAHO_APPLY_REJECTED: stage=selfplay_reaction");
    assert_eq!(refusal_text(&Asked::Pon(3), false), "RULE_CALL_APPLY_REJECTED: seat=3 stage=selfplay_reaction");
    assert_eq!(
        refusal_text(&Asked::RobberyPass, true),
        "RULE_ROBBERY_PASS_RESOLUTION_FAILED: stage=selfplay_robbery"
    );
    assert_eq!(nothing_to_answer(true), "HOST_ROBBERY_STATE_MISSING: no pending declaration");
    assert_eq!(nothing_to_answer(false), "HOST_REACTION_STATE_MISSING: no last discard");
}

#[test]
fn ron_goes_before_pon() {
    let one = Tile::from_name("1m").unwrap();
    let answer = |seat: u8, could_ron: bool, action: ReactionAction| SeatAnswer { seat, could_ron, action };
    let pon = ReactionAction::Pon { consumed: [one, one] };
    let answers = vec![answer(1, true, ReactionAction::Ron), answer(2, false, pon), answer(3, true, ReactionAction::Pass)];
    assert!(matches!(resolve_answers(&answers, 0, 4, RonResolution::Multiple, false), Answered::Ron(v) if v == vec![1]));
    assert_eq!(missed_rons(&answers), vec![3]);
    let calls = vec![answer(2, false, pon), answer(3, false, ReactionAction::Pass)];
    assert!(matches!(resolve_answers(&calls, 0, 4, RonResolution::Multiple, false), Answered::Pon(2, _)));
    assert!(matches!(resolve_answers(&calls, 0, 4, RonResolution::Multiple, true), Answered::Pass));
    assert!(matches!(resolve_answers(&vec![], 0, 4, RonResolution::Multiple, false), Answered::Pass));
    let all: Vec<SeatAnswer> = [1, 2, 3].iter().map(|s| answer(*s, true, ReactionAction::Ron)).collect();
    assert!(matches!(resolve_answers(&all, 0, 4, RonResolution::TripleRonAbortive, false), Answered::TripleRon));
    assert!(matches!(resolve_answers(&all, 0, 4, RonResolution::Multiple, false), Answered::Ron(v) if v == vec![1, 2, 3]));
}

#[test]
fn a_round_of_self_play() {
    let t = TableState {
        three_players: false,
        seat: 1,
        wall_before: 70,
        drawn: true,
        refused: false,
        ended: false,
        may_set_aside: false,
        robbery_pending: false,
        discard_pending: true,
        events: 3,
    };
    assert_eq!(step(Phase::Draw, &t).unwrap(), Phase::Turn);
    assert_eq!(step(Phase::Draw, &TableState { three_players: true, ..t }).unwrap(), Phase::SetAside);
    assert_eq!(step(Phase::Turn, &t).unwrap(), Phase::Discard);
    assert_eq!(step(Phase::Turn, &TableState { robbery_pending: true, ..t }).unwrap(), Phase::Robbery);
    assert_eq!(step(Phase::Discard, &t).unwrap(), Phase::Advance);
    assert_eq!(step(Phase::Advance, &t).unwrap(), Phase::Draw);
    assert_eq!(step(Phase::Turn, &TableState { ended: true, ..t }).unwrap(), Phase::Over);
    assert_eq!(step(Phase::Draw, &TableState { drawn: false, wall_before: 0, ..t }).unwrap(), Phase::Exhausted);
    assert_eq!(
        step(Phase::Draw, &TableState { drawn: false, ..t }).unwrap_err(),
        "RULE_DRAW_APPLY_REJECTED: live wall was non-empty in selfplay"
    );
    assert_eq!(
        step(Phase::Turn, &TableState { refused: true, ..t }).unwrap_err(),
        "RULE_LEGAL_ACTION_APPLY_REJECTED: seat=1 stage=selfplay_turn"
    );
    assert_eq!(
        step(Phase::Advance, &TableState { events: 10001, ..t }).unwrap_err(),
        "HOST_LOG_LIMIT_EXCEEDED: stage=selfplay_guard"
    );
}

// What is printed.

fn win() -> WinReport {
    WinReport {
        winner: 2,
        from: Some(1),
        yaku: vec![(Yaku::Riichi, 1), (Yaku::Pinfu, 1)],
        yakuman: 0,
        han: 2,
        dora_han: 1,
        fu: 30,
        ron: 3900,
        tsumo_oya: 0,
        tsumo_ko: 0,
    }
}

#[test]
fn results_of_hands() {
    assert_eq!(
        report(&HandResult::Win(win()), 0, 12, true),
        s(&[
            "--- result ---",
            "seat 2 wins: ron (from seat 1), 3 han 30 fu (dora 1) -> 3900 points",
            "yaku: Riichi(1), Pinfu(1)",
            "total events: 12"
        ])
    );
    let tsumo = WinReport { from: None, tsumo_oya: 2000, tsumo_ko: 1000, ..win() };
    assert_eq!(
        report(&HandResult::Win(tsumo), 0, 1, true)[1],
        "seat 2 wins: tsumo, 3 han 30 fu (dora 1) -> dealer 2000 / non-dealer 1000 points"
    );
    let dealer = WinReport { from: None, tsumo_ko: 2000, ..win() };
    assert!(report(&HandResult::Win(dealer), 2, 1, true)[1].ends_with("-> 2000 x3 points"));
    let three = report(&HandResult::Win(WinReport { yakuman: 2, ..win() }), 0, 1, false);
    assert_eq!((three[0].as_str(), three[1].as_str()), ("--- result (3p) ---", "seat 2 wins: ron (from seat 1), yakuman x2"));
    assert_eq!(
        report(&HandResult::Wins(vec![1, 2], Some(0)), 0, 1, true)[1],
        "multiple ron, winners: [1, 2], from seat: Some(0)"
    );
    assert_eq!(report(&HandResult::Exhausted(vec![]), 0, 1, true)[1], "exhaustive draw, tenpai seats: []");
    assert_eq!(report(&HandResult::Abortive("SuufonRenda".to_string()), 0, 1, true)[1], "abortive draw: SuufonRenda");
}

#[test]
fn reports_of_matches() {
    let r = FullMatchReport {
        variant: "riichi4p".to_string(),
        rule_profile: "tenhou".to_string(),
        length: "single".to_string(),
        seed: 1,
        match_id: "m".to_string(),
        schema_version: 4,
        completion: "complete".to_string(),
        ended: true,
        kyokus: vec![KyokuReport {
            kyoku_index: 0,
            bakaze: "E".to_string(),
            kyoku: 1,
            honba: 0,
            kyotaku: 0,
            oya: 0,
            seed_hi: 255,
            seed_lo: 0,
            traces: vec![MoveTrace {
                turn_index: 7,
                seat: 3,
                phase: "discard".to_string(),
                legal_count: 5,
                selected: "dahai 1m".to_string(),
                agent_kind: "algorithm".to_string(),
                model_id: "tsumogiri".to_string(),
                latency_ms: 0,
                fallback: Some("slow".to_string()),
            }],
            outcome: "ryukyoku".to_string(),
            deltas: vec![1000, -1000],
            scores_after: vec![26000, 24000],
        }],
        current_scores: vec![26000, 24000],
        final_scores: vec![26000, 24000],
        rankings: vec![0, 1],
        agents: vec![AgentStatus {
            kind: "algorithm".to_string(),
            model_id: "tsumogiri".to_string(),
            calls: 3,
            fallbacks: 1,
            errors: 0,
            last_latency_ms: None,
        }],
    };
    assert_eq!(
        print_report(&r, false),
        s(&[
            "=== kyoku#0 wind E hand 1 honba 0 sticks 0 dealer 0 (seed 0xff/0x0) ===",
            "  [t  7] seat 3 discard  legal=5  -> dahai 1m               via algorithm/tsumogiri  0ms  (fallback: slow)",
            "  result: ryukyoku  deltas=[1000, -1000]  scores=[26000, 24000]",
            "--- run-match riichi4p platform=tenhou length=single seed=1 match_id=m (schema v4) ---",
            "hands: 1  completion=complete  match over: true",
            "current scores: [26000, 24000]",
            "final scores: [26000, 24000]  ranking (seats): [0, 1]",
            "seat status:",
            "  seat0 algorithm/tsumogiri calls=3 fallbacks=1 errors=0 last_latency=0ms",
        ])
    );
    assert_eq!(print_report(&r, true).len(), 6);
}

#[test]
fn lines_of_the_catalog() {
    let e = CatalogEntry {
        source: "BuiltIn".to_string(),
        seat_agent_kind: "algorithm".to_string(),
        model_id: None,
        display_name: "Tsumogiri".to_string(),
        rule_lines: s(&["riichi4p", "riichi3p"]),
        riichi_style: None,
        health: "Ready".to_string(),
        usable: true,
        smoke: Some(SmokeSummary { decisions: 8, all_legal: true, dealer_opening_checked: true, max_infer_ms: 5 }),
        error_summary: Some("old".to_string()),
    };
    assert_eq!(
        print_entry(&e),
        "  [BuiltIn/algorithm] <uncertified> \u{ab}Tsumogiri\u{bb} rule_line=[\"riichi4p\", \"riichi3p\"] style=- health=Ready usable=true  smoke(decisions 8/all legal true/max 5ms)  reason: old"
    );
}

#[test]
fn lines_of_a_match_log() {
    let draw = MatchlogEvent::Ryukyoku(Box::new(RyukyokuBody {
        kind: RyukyokuKind::Exhaustive,
        tenpai_mask: vec![],
        concealed: vec![],
        base_deltas: vec![],
        honba_deltas: vec![],
        kyotaku_carry: 0,
    }));
    let events = [MatchlogEvent::ReachAccepted { actor: 0 }, draw];
    assert_eq!(outcome_text(&events), "Exhaustive");
    assert_eq!(outcome_text(&events[..1]), "(no settlement layer)");
    assert_eq!(log_hand_text(0, &events, 4), "  hand 1: events 2 \u{b7} windows 4 \u{b7} Exhaustive");
    assert_eq!(
        window_text(7, 1, WindowPhase::Reaction, 12, 3, 2),
        "      window 7 seat 1 Reaction anchor 12 \u{b7} 3 offers -> 2"
    );
    assert_eq!(log_header_text("f", &events[0], 1).unwrap_err(), "the first event is not the header");
    assert_eq!(settlement_for("tenhou", 3).unwrap().oka, 15);
    assert!(settlement_for("mahjong-soul", 4).is_none());
}

#[test]
fn plugins_without_a_root_are_refused_first() {
    assert_eq!(
        seat_table(4, &s(&["nonsense", "0= plugin@x"]), None, None).unwrap_err(),
        "plugin seats need --models-root <root> (the registry scans <root>/{4p,3p}/<plugin>)"
    );
}

#[test]
fn rules_of_a_match() {
    let (kind, profile) = match_rules(3, "half", " Mahjong-Soul ").unwrap();
    assert_eq!(kind, MatchKind::Half);
    assert_eq!(profile, RiichiRuleProfile::mahjong_soul());
    assert_eq!(match_rules(2, "?", "?").unwrap_err(), "only 3 or 4 seats are supported");
    assert_eq!(match_rules(4, "?", "?").unwrap_err(), "unknown --length \"?\" (expected single / east / half)");
    assert_eq!(
        match_rules(4, "east", "Other").unwrap_err(),
        "unknown rule platform \"other\" (expected tenhou / mahjong-soul / riichi-city)"
    );
}

#[test]
fn plans_of_logged_matches() {
    let p = plan(3, "east", "tenhou", &s(&["tsumogiri"])).unwrap();
    assert_eq!(p.seats, vec![AlgorithmKind::Tsumogiri; 3]);
    assert_eq!(p.kind, MatchKind::East);
    assert_eq!(p.profile, RiichiRuleProfile::tenhou());
    assert_eq!(p.settlement.unwrap().rank_points, vec![20, 0, -20]);
    // The settlement goes by the platform's name as it was written.
    assert!(plan(3, "east", "Tenhou", &s(&[])).unwrap().settlement.is_none());
    let err = |n: u8, l: &str, f: &str, v: &[&str]| plan(n, l, f, &s(v)).unwrap_err();
    assert_eq!(
        err(5, "long", "x", &["y"]),
        "unknown rule platform \"x\" (expected tenhou / mahjong-soul / riichi-city)"
    );
    assert_eq!(err(5, "long", "tenhou", &["y"]), "unknown match length `long` (single/east/half)");
    assert_eq!(err(5, "half", "tenhou", &["y"]), "only 3 or 4 seats are supported, got 5");
    assert_eq!(
        err(4, "half", "tenhou", &["tsumogiri", "y"]),
        "unknown algorithm `y` for seat 1 (only tsumogiri is available)"
    );
    assert_eq!(seats(&s(&["tsumogiri", "y"]), 1).unwrap(), vec![AlgorithmKind::Tsumogiri]);
}

#[test]
fn driving_a_match_by_itself() {
    assert_eq!(drive(&LiveStep::KyokuEnded).unwrap(), DriveAction::Archive);
    assert_eq!(drive(&LiveStep::MatchEnded).unwrap(), DriveAction::Stop);
    assert_eq!(drive(&LiveStep::InProgress).unwrap(), DriveAction::Play);
    assert_eq!(drive(&LiveStep::Failed("x".to_string())).unwrap_err(), "host failed: x");
    assert_eq!(
        drive(&LiveStep::Pending("y".to_string())).unwrap_err(),
        "automatic seats should never leave a window pending: y"
    );
    assert_eq!(after_archive(true), DriveAction::Play);
    assert_eq!(after_archive(false), DriveAction::Stop);
}

#[test]
fn inspecting_a_match_log() {
    let profile = RiichiRuleProfile::tenhou();
    let window = DecisionWindow {
        window_id: 7,
        seat: 1,
        phase: WindowPhase::Turn,
        anchor_seq: 12,
        offers: vec!['a', 'b'],
        chosen: 1,
    };
    let archive = MatchArchive {
        start_match: MatchlogEvent::StartMatch {
            schema: "s1".to_string(),
            seats: 4,
            rule_profile: profile,
            rule_era: RuleEra("test".to_string()),
            profile_fingerprint: "f".to_string(),
            settlement_profile: None,
            tile_identity: TileIdentity::Absent,
            names: None,
            seed: None,
        },
        kyokus: vec![
            KyokuArchive { events: vec![MatchlogEvent::ReachAccepted { actor: 0 }], windows: vec![window] },
            KyokuArchive { events: vec![], windows: vec![] },
        ],
    };
    let head = [
        "match log p",
        "  schema s1 \u{b7} 4 seats \u{b7} source test",
        "  rule profile fingerprint f",
        "  physical tile identity None",
        "  hands 2",
        "  hand 1: events 1 \u{b7} windows 1 \u{b7} (no settlement layer)",
    ];
    let tail = [
        "  hand 2: events 0 \u{b7} windows 0 \u{b7} (no settlement layer)",
        "\nvalidation passed (rechecked after reading back).",
    ];
    let quiet = inspect("p", &archive, Ok(()), false).unwrap();
    assert_eq!(quiet, [&head[..], &tail[..]].concat());
    let verbose = inspect("p", &archive, Ok(()), true).unwrap();
    let line = ["      window 7 seat 1 Turn anchor 12 \u{b7} 2 offers -> 1"];
    assert_eq!(verbose, [&head[..], &line[..], &tail[..]].concat());
    assert_eq!(inspect("p", &archive, Err("bad".to_string()), true).unwrap_err(), "bad");
    assert_eq!(
        written_text("p", &archive, 99),
        "wrote p\n  hands 2 \u{b7} events 1 \u{b7} decision windows 1 \u{b7} 99 bytes"
    );
    let headless: MatchArchive<char> =
        MatchArchive { start_match: MatchlogEvent::ReachAccepted { actor: 0 }, kyokus: vec![] };
    assert_eq!(inspect("p", &headless, Ok(()), false).unwrap_err(), "the first event is not the header");
}
