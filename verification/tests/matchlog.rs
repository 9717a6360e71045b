use flytable::event::matchlog::event::{HoraBody, Limit, MatchlogEvent, RyukyokuBody, RyukyokuKind};
use flytable::event::matchlog::types::{
    profile_canonical, profile_fingerprint, MatchSettlementProfile, MatchlogMeld, MeldKind, RuleEra, TileIdentity, TileRef,
    MATCHLOG_SCHEMA,
};
use flytable::event::matchlog::validate::validate;
use flytable::event::matchlog::window::{DecisionWindow, WindowPhase};
use flytable::event::matchlog::yaku_id::{is_dora_id, tenhou_yaku_id, tenhou_yaku_name, yaku_name};
use flytable::mahjong::rules::RiichiRuleProfile;
use flytable::mahjong::tile::Tile;
use flytable::mahjong::yaku::{Yaku, YakuhaiKind};

fn t(name: &str) -> Tile {
    Tile::from_name(name).unwrap()
}

fn header(seats: u8) -> MatchlogEvent {
    let profile = RiichiRuleProfile::tenhou();
    MatchlogEvent::StartMatch {
        schema: MATCHLOG_SCHEMA.to_string(),
        seats,
        rule_profile: profile,
        rule_era: RuleEra("test".to_string()),
        profile_fingerprint: profile_fingerprint(&profile),
        settlement_profile: None,
        tile_identity: TileIdentity::Absent,
        names: None,
        seed: None,
    }
}

fn codes(events: &[MatchlogEvent]) -> Vec<&'static str> {
    validate(events).iter().map(|v| v.code).collect()
}

fn win() -> HoraBody {
    HoraBody {
        winner: 1,
        from: 0,
        machi: TileRef::opaque(t("E")),
        concealed: vec![],
        melds: vec![],
        normal: vec![(8, 1)],
        yakuman: vec![],
        fu: 30,
        limit: Limit::NoLimit,
        dora_han: 0,
        ura_han: 0,
        aka_han: 0,
        nuki_han: 0,
        ura_markers: vec![],
        pao: None,
        base_deltas: vec![-1000, 1000, 0, 0],
        honba_deltas: vec![0; 4],
        kyotaku_deltas: vec![0; 4],
    }
}

#[test]
fn a_log_begins_with_its_header() {
    assert_eq!(codes(&[]), vec!["missing_start_match"]);
    assert_eq!(codes(&[MatchlogEvent::ReachAccepted { actor: 0 }]), vec!["missing_start_match"]);
    assert!(validate(&[header(4)]).is_empty());
    assert!(validate(&[header(3)]).is_empty());
    assert_eq!(codes(&[header(4), header(4)]), vec!["duplicate_start_match"]);
    assert_eq!(codes(&[header(5)]), vec!["seats_out_of_range"]);
}

#[test]
fn headers_are_held_to_their_rules() {
    let mut h = header(4);
    if let MatchlogEvent::StartMatch { schema, profile_fingerprint, settlement_profile, .. } = &mut h {
        *schema = "other".to_string();
        *profile_fingerprint = "none".to_string();
        *settlement_profile = Some(MatchSettlementProfile::tenhou_3p());
    }
    assert_eq!(codes(&[h]), vec!["schema_mismatch", "fingerprint_mismatch", "width_mismatch"]);
}

#[test]
fn fingerprints_follow_the_profile() {
    let a = RiichiRuleProfile::tenhou();
    let b = RiichiRuleProfile::mahjong_soul();
    assert_eq!(profile_fingerprint(&a), profile_fingerprint(&RiichiRuleProfile::tenhou()));
    assert_ne!(profile_fingerprint(&a), profile_fingerprint(&b));
    assert_ne!(profile_canonical(&a), profile_canonical(&a.with_open_tanyao(!a.allows_open_tanyao())));
    assert_ne!(profile_fingerprint(&a), profile_fingerprint(&a.with_open_tanyao(!a.allows_open_tanyao())));
}

#[test]
fn a_sound_win_has_no_fault() {
    assert!(validate(&[header(4), MatchlogEvent::Hora(Box::new(win()))]).is_empty());
}

#[test]
fn faults_of_a_win() {
    let mut b = win();
    b.base_deltas = vec![-1000, 900, 0, 0];
    let v = validate(&[header(4), MatchlogEvent::Hora(Box::new(b))]);
    assert_eq!(v.len(), 1);
    assert_eq!(v[0].code, "not_zero_sum");
    assert_eq!(v[0].seq, Some(1));
    assert_eq!(v[0].detail, "hora.base_deltas sums to -100, expected 0");

    let mut b = win();
    b.kyotaku_deltas = vec![0, -1000, 0, 0];
    b.normal.push((53, 1));
    b.normal.push((60, 1));
    b.yakuman.push((37, 1));
    b.winner = 9;
    b.pao = Some(7);
    assert_eq!(
        codes(&[header(4), MatchlogEvent::Hora(Box::new(b))]),
        vec![
            "kyotaku_negative",
            "yaku_tables_overlap",
            "yaku_id_out_of_range",
            "dora_in_yaku_table",
            "seat_out_of_range",
            "seat_out_of_range"
        ]
    );

    let mut b = win();
    b.honba_deltas = vec![0; 3];
    assert_eq!(codes(&[header(4), MatchlogEvent::Hora(Box::new(b))]), vec!["width_mismatch"]);
}

#[test]
fn a_physical_tile_lies_in_one_place() {
    let mut b = win();
    b.machi = TileRef::new(t("1m"), Some(0));
    b.concealed = vec![TileRef::new(t("1m"), Some(0))];
    let v = validate(&[header(4), MatchlogEvent::Hora(Box::new(b))]);
    assert_eq!(v[0].code, "tile_sets_overlap");
    assert_eq!(v[0].detail, "physical tile 0 appears in both machi and concealed");
    let mut b = win();
    b.machi = TileRef::new(t("E"), Some(0));
    assert_eq!(codes(&[header(4), MatchlogEvent::Hora(Box::new(b))]), vec!["tile_id_inconsistent"]);
}

#[test]
fn melds_have_the_shape_of_their_kind() {
    let r = TileRef::opaque(t("E"));
    let pon = MatchlogMeld { kind: MeldKind::Pon, from: Some(0), claimed: Some(r), consumed: vec![r, r] };
    assert!(pon.shape_is_valid(4) && pon.shape_is_valid(3));
    let chi = MatchlogMeld { kind: MeldKind::Chi, from: Some(0), claimed: Some(r), consumed: vec![r, r] };
    assert!(chi.shape_is_valid(4) && !chi.shape_is_valid(3));
    let kita = MatchlogMeld { kind: MeldKind::Kita, from: None, claimed: Some(r), consumed: vec![] };
    assert!(kita.shape_is_valid(3) && !kita.shape_is_valid(4));
    let bad = MatchlogMeld { kind: MeldKind::Ankan, from: Some(1), claimed: None, consumed: vec![r, r, r, r] };
    assert_eq!(codes(&[header(4), MatchlogEvent::Call { actor: 5, meld: bad }]), vec!["meld_shape_invalid", "seat_out_of_range"]);
}

#[test]
fn draws_that_cannot_happen() {
    let b = RyukyokuBody {
        kind: RyukyokuKind::SanchaHora,
        tenpai_mask: vec![false; 3],
        concealed: vec![None, None, None],
        base_deltas: vec![0; 3],
        honba_deltas: vec![0; 3],
        kyotaku_carry: 0,
    };
    assert!(!RyukyokuKind::SanchaHora.possible_with(3) && RyukyokuKind::SanchaHora.possible_with(4));
    assert_eq!(codes(&[header(3), MatchlogEvent::Ryukyoku(Box::new(b))]), vec!["ryukyoku_kind_impossible"]);
}

#[test]
fn starting_hands_have_thirteen_tiles() {
    let hand = vec![TileRef::opaque(t("1m")); 13];
    let start = |last: Vec<TileRef>| MatchlogEvent::StartKyoku {
        bakaze: t("E"),
        kyoku: 1,
        honba: 0,
        kyotaku: 0,
        oya: 0,
        scores: vec![25000; 4],
        haipai: vec![hand.clone(), hand.clone(), hand.clone(), last],
        dora_marker: TileRef::opaque(t("9p")),
    };
    assert!(validate(&[header(4), start(hand.clone())]).is_empty());
    let v = validate(&[header(4), start(vec![])]);
    assert_eq!((v[0].code, v[0].detail.as_str()), ("haipai_size", "0 starting tiles, expected 13"));
}

#[test]
fn physical_identities() {
    assert!(TileRef::new(t("1m"), Some(3)).is_consistent());
    assert!(!TileRef::new(t("1m"), Some(4)).is_consistent());
    assert!(TileRef::opaque(t("5pr")).is_consistent());
    assert!(!TileRef::new(t("1m"), Some(136)).is_consistent());
}

#[test]
fn windows_choose_among_their_offers() {
    let w = DecisionWindow { window_id: 1, seat: 0, phase: WindowPhase::Turn, anchor_seq: 3, offers: vec![1, 2], chosen: 1 };
    assert!(w.chosen_in_range());
    assert!(!DecisionWindow { chosen: 2, ..w }.chosen_in_range());
    assert!(WindowPhase::Reaction.requires_pass_option() && !WindowPhase::Turn.requires_pass_option());
}

#[test]
fn yaku_numbers() {
    assert_eq!(tenhou_yaku_id(&Yaku::Riichi, t("E"), t("E")), Some(1));
    let own = tenhou_yaku_id(&Yaku::Yakuhai(YakuhaiKind::Jikaze), t("S"), t("E"));
    let round = tenhou_yaku_id(&Yaku::Yakuhai(YakuhaiKind::Bakaze), t("S"), t("E"));
    assert!(own.is_some() && round.is_some() && own != round);
    for id in 0..=54u8 {
        assert_eq!(tenhou_yaku_name(id).is_some(), id <= 51 && id != 36);
        assert_eq!(is_dora_id(id), (52..=54).contains(&id));
    }
    assert_eq!(tenhou_yaku_name(55), None);
    assert!(!yaku_name(&Yaku::Pinfu).is_empty());
}

#[test]
fn settlements_fit_their_table() {
    assert_eq!(MatchSettlementProfile::tenhou_4p().rank_points, vec![20, 10, -10, -20]);
    assert!(MatchSettlementProfile::tenhou_4p().is_valid_for(4));
    assert!(!MatchSettlementProfile::tenhou_4p().is_valid_for(3));
    assert!(MatchSettlementProfile::mahjong_soul_3p().is_valid_for(3));
}
