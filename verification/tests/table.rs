use flytable::cli::selfplay::{sets_north_aside, tsumogiri};
use flytable::event::compat3p::{deltas_3_to_mjai4, scores_3_to_mjai4, scores_mjai4_to_3};
use flytable::event::event3p::Event3p;
use flytable::event::event4p::Event4p;
use flytable::inference::contract::LegalAction;
use flytable::inference::registry::smoke::turn_action_to_legal_3p;
use flytable::mahjong::hand::counts_from_str;
use flytable::mahjong::meld::Meld;
use flytable::mahjong::rules::{RedFiveCounts, RiichiRuleProfile};
use flytable::mahjong::tile::Tile;
use flytable::mahjong::yaku::{Yaku, YakuhaiKind};
use flytable::maintainer::action::{ReactionAction, TurnAction};
use flytable::maintainer::calc::{
    evaluate_safe_tiles_raw, genbutsu_against, genbutsu_against_riichi, my_shanten, my_tenpai, my_yaku_outlook, riichi_targets,
    shanten_after, shanten_after_for, SafeLevel, SafeReason,
};
use flytable::maintainer::inventory::KnownTileInventory;
use flytable::maintainer::legal::{any_furiten, legal_reactions, legal_turn_actions, permanent_furiten};
use flytable::maintainer::ordinary::view_in_play;
use flytable::maintainer::player::PlayerState;
use flytable::maintainer::product::{Mirror3p, Mirror4p, MirrorCenter, LIVE_WALL_4P};
use flytable::maintainer::reconcile::{reconcile_action_sets, ActionSetRelation, MirrorQuality};
use flytable::maintainer::scoring::{settle, yaku_flags_from_score, ScoringInput};
use flytable::maintainer::tileset::{
    call_leaves_legal_discard, chi_combos, kuikae_forbidden_after_chi, pon_pair_combos, tileset_3p, tileset_3p_with_red_fives,
    tileset_4p,
};
use flytable::maintainer::view::{SeatView, SeatViewError};

fn t(name: &str) -> Tile {
    Tile::from_name(name).unwrap()
}

fn tiles(names: &[&str]) -> Vec<Tile> {
    names.iter().map(|n| t(n)).collect()
}

const HAND: [&str; 13] = ["1m", "2m", "3m", "4p", "5p", "6p", "7s", "8s", "9s", "E", "E", "S", "S"];

fn hand13(names: [&str; 13]) -> [Tile; 13] {
    names.map(t)
}

fn start_game() -> Event4p {
    Event4p::StartGame { names: ["a", "b", "c", "d"].map(str::to_owned), seed: None }
}

fn start_kyoku() -> Event4p {
    let hidden = [Tile::unknown(); 13];
    Event4p::StartKyoku {
        bakaze: t("E"),
        dora_marker: t("9p"),
        kyoku: 1,
        honba: 0,
        kyotaku: 0,
        oya: 0,
        scores: [25000; 4],
        tehais: [hand13(HAND), hidden, hidden, hidden],
    }
}

fn started() -> Mirror4p {
    let mut m = Mirror4p::new(0);
    for e in [start_game(), start_kyoku()] {
        assert!(m.can_feed(&e));
        m.feed(e).unwrap();
    }
    m
}

fn feed(m: &mut Mirror4p, e: Event4p) {
    assert!(m.can_feed(&e));
    m.feed(e).unwrap();
}

fn tsumo(actor: u8, pai: &str) -> Event4p {
    Event4p::Tsumo { actor, pai: t(pai) }
}

fn dahai(actor: u8, pai: &str) -> Event4p {
    Event4p::Dahai { actor, pai: t(pai), tsumogiri: true }
}

// Walls, combinations and events.

#[test]
fn walls_hold_four_of_each() {
    let wall = tileset_4p();
    assert_eq!(wall.len(), 136);
    for k in 0..34 {
        assert_eq!(wall.iter().filter(|x| x.kind() == k).count(), 4);
    }
    assert_eq!(wall.iter().filter(|x| x.is_aka()).count(), 3);
    let sanma = tileset_3p();
    assert_eq!(sanma.len(), 108);
    assert!(sanma.iter().all(|x| !(1..=7).contains(&x.kind())));
    assert!(tileset_3p_with_red_fives(RedFiveCounts { man: 1, pin: 0, sou: 0 }).is_err());
}

#[test]
fn calls_from_a_hand() {
    let hand = tiles(&["2m", "3m", "5m", "5mr", "6m"]);
    assert_eq!(
        chi_combos(&hand, t("4m")),
        vec![[t("5m"), t("6m")], [t("5mr"), t("6m")], [t("3m"), t("5m")], [t("3m"), t("5mr")], [t("2m"), t("3m")]]
    );
    assert!(chi_combos(&hand, t("E")).is_empty());
    assert_eq!(pon_pair_combos(&tiles(&["5m", "5mr"])), vec![[t("5m"), t("5mr")]]);
    assert_eq!(kuikae_forbidden_after_chi(t("4m"), [t("5m"), t("6m")]), vec![3, 6]);
    assert_eq!(kuikae_forbidden_after_chi(t("4m"), [t("3m"), t("5m")]), vec![3]);
    assert!(!call_leaves_legal_discard(&tiles(&["5m", "6m", "4m"]), &tiles(&["5m", "6m"]), &[3]));
    assert!(call_leaves_legal_discard(&tiles(&["5m", "6m", "9m"]), &tiles(&["5m", "6m"]), &[3]));
}

#[test]
fn three_seat_scores_are_padded_and_read_back() {
    let padded = scores_3_to_mjai4([35000, 30000, 40000]);
    assert_eq!(padded, [35000, 30000, 40000, 0]);
    assert_eq!(scores_mjai4_to_3(padded).unwrap(), [35000, 30000, 40000]);
    assert!(scores_mjai4_to_3([1, 2, 3, 4]).is_err());
    assert_eq!(deltas_3_to_mjai4([1, -1, 0]), [1, -1, 0, 0]);
}

#[test]
fn events_name_their_actor() {
    assert_eq!(dahai(2, "1m").actor(), Some(2));
    assert_eq!(Event4p::EndGame.actor(), None);
    assert!(dahai(2, "1m").same(&dahai(2, "1m")));
    assert!(!dahai(2, "1m").same(&dahai(3, "1m")));
    assert!(start_game().same(&start_game()));
    assert_eq!(Event3p::Nukidora { actor: 1, pai: t("N") }.actor(), Some(1));
}

// A seat.

#[test]
fn discards_and_furiten_of_a_seat() {
    let mut p = PlayerState::new(0, hand13(HAND));
    assert!(p.is_tenpai());
    assert_eq!(p.waits(), vec![27, 28]);
    assert!(p.would_agari_with(t("E")));
    p.draw(t("E"));
    assert_eq!(p.drawn_tile, Some(t("E")));
    assert_eq!(
        p.discard_with_source(t("S"), true).unwrap_err(),
        "tsumogiri must discard the drawn E, not S"
    );
    p.discard_with_source(t("E"), true).unwrap();
    p.recompute_furiten();
    assert!(p.furiten && p.is_furiten_blocked());
    assert!(p.is_nagashi_mangan_eligible());
    p.mark_latest_discard_called().unwrap();
    assert!(!p.is_nagashi_mangan_eligible());
    assert!(!p.discard(t("C")));
}

#[test]
fn missed_ron_makes_furiten() {
    let mut p = PlayerState::new(0, hand13(HAND));
    p.note_missed_ron();
    assert!(p.temporary_furiten && !p.riichi_furiten);
    p.riichi = true;
    p.note_missed_ron();
    assert!(p.riichi_furiten);
}

#[test]
fn settlement_counts_dora() {
    let mut p = PlayerState::new(1, hand13(["2m", "3m", "4m", "4p", "5pr", "6p", "6s", "7s", "8s", "2p", "2p", "3s", "4s"]));
    p.add_to_hand(t("5s"));
    let input = ScoringInput {
        rule_profile: RiichiRuleProfile::tenhou(),
        player: &p,
        win_tile: t("5s"),
        is_tsumo: false,
        bakaze: t("E"),
        jikaze: t("S"),
        is_oya: false,
        dora_indicators: &[t("1p")],
        ura_indicators: &[t("5s")],
        riichi: true,
        double_riichi: false,
        ippatsu: false,
        haitei: false,
        houtei: false,
        rinshan: false,
        chankan: false,
        tenhou: false,
        chiihou: false,
        nuki_count: 0,
        is_sanma: false,
    };
    let s = settle(&input).unwrap();
    assert_eq!(s.regular_dora_han, 2);
    assert_eq!(s.red_dora_han, 1);
    assert_eq!(s.ura_dora_han, 1);
    assert_eq!(s.dora_han, 4);
    assert_eq!(s.yaku.han, 3);
    assert_eq!(s.score.ron, 12000);
    let flags = yaku_flags_from_score(&s);
    assert!(flags.riichi && !flags.ippatsu);
}

// What is seen.

#[test]
fn a_fifth_copy_is_refused() {
    let profile = RiichiRuleProfile::tenhou();
    let mut seen = KnownTileInventory::default();
    for _ in 0..4 {
        seen = seen.observe(t("1m"), 4, profile).unwrap();
    }
    assert!(seen.observe(t("1m"), 4, profile).is_err());
    let one = KnownTileInventory::default().observe(t("5mr"), 4, profile).unwrap();
    assert!(one.observe(t("5mr"), 4, profile).is_err());
    assert!(KnownTileInventory::default().observe(t("5m"), 3, profile).is_err());
    assert!(KnownTileInventory::default().observe_all(&tiles(&["E", "E", "E", "E"]), 4, profile).is_ok());
}

// Views and legal actions.

#[test]
fn turn_actions_of_a_drawn_hand() {
    let mut m = started();
    feed(&mut m, tsumo(0, "5m"));
    let view = m.mirror_view(0);
    assert!(view.is_valid() && view_in_play(&view));
    assert_eq!(view.tiles_left, LIVE_WALL_4P - 1);
    let actions = legal_turn_actions(&view);
    assert_eq!(actions, m.legal_turn(0));
    assert_eq!(actions.len(), 13);
    assert!(actions.contains(&TurnAction::Discard { tile: t("5m"), tsumogiri: true }));
    assert!(actions.contains(&TurnAction::Discard { tile: t("E"), tsumogiri: false }));
    assert_eq!(actions[12], TurnAction::Riichi { tile: t("5m"), tsumogiri: true });
    assert!(!actions.contains(&TurnAction::Tsumo));
    assert!(m.should_infer(0) && !m.should_infer(1));
}

#[test]
fn tsumo_is_offered_with_a_complete_hand() {
    let mut m = started();
    feed(&mut m, tsumo(0, "S"));
    assert!(m.legal_turn(0).contains(&TurnAction::Tsumo));
    assert_eq!(m.shanten(0), -1);
}

#[test]
fn other_seats_are_counted_not_seen() {
    let mut m = started();
    feed(&mut m, tsumo(0, "5m"));
    let view = m.mirror_view(0);
    assert_eq!(view.others.len(), 3);
    assert!(view.others.iter().all(|o| o.hand_count == 13));
    view.assert_no_hidden_truth();
    assert_eq!(view.me.hand.len(), 14);
}

#[test]
fn a_passed_ron_makes_the_seat_furiten() {
    let mut m = started();
    feed(&mut m, tsumo(0, "5m"));
    feed(&mut m, dahai(0, "5m"));
    feed(&mut m, tsumo(1, "?"));
    feed(&mut m, dahai(1, "E"));
    let view = m.mirror_view(0);
    let answers = legal_reactions(&view);
    assert!(answers.contains(&ReactionAction::Ron));
    assert!(answers.contains(&ReactionAction::Pon { consumed: [t("E"), t("E")] }));
    assert!(!any_furiten(&view));
    assert!(m.should_infer(0));
    feed(&mut m, tsumo(2, "?"));
    feed(&mut m, dahai(2, "S"));
    let view = m.mirror_view(0);
    assert!(any_furiten(&view) && !permanent_furiten(&view));
    assert!(!m.furiten(0));
    assert!(!m.legal_reactions(0).contains(&ReactionAction::Ron));
}

#[test]
fn a_win_closes_the_hand() {
    let mut m = started();
    feed(&mut m, tsumo(0, "5m"));
    feed(&mut m, dahai(0, "5m"));
    feed(&mut m, tsumo(1, "?"));
    feed(&mut m, dahai(1, "E"));
    feed(
        &mut m,
        Event4p::Hora { actor: 0, target: 1, deltas: Some([3900, -3900, 0, 0]), ura_markers: None, scoring: None },
    );
    feed(&mut m, Event4p::EndKyoku);
    assert_eq!(m.core.scores, vec![28900, 21100, 25000, 25000]);
    assert!(m.mirror_view(0).round_terminal);
    assert!(m.legal_turn(0).is_empty());
}

#[test]
fn riichi_waits_for_its_discard() {
    let mut m = started();
    feed(&mut m, tsumo(0, "5m"));
    feed(&mut m, Event4p::Reach { actor: 0 });
    assert!(!m.should_infer(0));
    let err = m.feed(tsumo(1, "?")).unwrap_err();
    assert_eq!(err, "phase_error: waiting for seat 0 declaration discard");
    assert_eq!(m.quality(), MirrorQuality::Unsafe);
}

#[test]
fn accepted_riichi_pays_a_stick() {
    let mut m = started();
    feed(&mut m, tsumo(0, "5m"));
    feed(&mut m, Event4p::Reach { actor: 0 });
    feed(&mut m, dahai(0, "5m"));
    feed(&mut m, Event4p::ReachAccepted { actor: 0 });
    assert_eq!(m.core.scores[0], 24000);
    assert_eq!(m.core.kyotaku, 1);
    assert!(m.mirror_view(1).others[0].riichi);
}

// Refusals.

#[test]
fn refused_events_leave_the_state() {
    let mut m = started();
    feed(&mut m, tsumo(0, "5m"));
    let hand = m.core.players[0].hand.clone();
    assert!(m.feed(dahai(2, "1p")).is_err());
    assert_eq!(m.quality(), MirrorQuality::Unsafe);
    assert_eq!(m.core.players[0].hand, hand);
    assert_eq!(m.last_issue().unwrap().code, "event_rejected");
    assert_eq!(m.mirror_view(0).state_error, Some(SeatViewError::MirrorUnsafe));
    assert!(m.legal_turn(0).is_empty() && m.legal_reactions(0).is_empty());
    assert_eq!(m.feed(dahai(0, "5m")).unwrap_err(), "mirror_unsafe: resynchronization required");
    feed(&mut m, start_kyoku());
    assert_eq!(m.quality(), MirrorQuality::Exact);
}

#[test]
fn repeated_events_are_refused() {
    let mut m = started();
    feed(&mut m, tsumo(0, "5m"));
    assert_eq!(m.feed(tsumo(0, "5m")).unwrap_err(), "duplicate event at index 3");
    assert_eq!(m.last_issue().unwrap().code, "duplicate_event");
}

#[test]
fn lost_information_stops_inference() {
    let mut m = started();
    feed(&mut m, tsumo(0, "5m"));
    m.mark_degraded("gap", "a packet was lost".to_string());
    assert_eq!(m.quality(), MirrorQuality::Degraded);
    assert!(!m.should_infer(0));
    assert_eq!(m.mirror_view(0).state_error, Some(SeatViewError::MirrorDegraded));
}

#[test]
fn a_mirror_seat_has_to_exist() {
    let m = Mirror4p::new(4);
    assert_eq!(m.quality(), MirrorQuality::Unsafe);
    assert_eq!(
        m.mirror_view(7).state_error,
        Some(SeatViewError::InvalidSeat { requested: 7, seats: 4 })
    );
    assert_eq!(Mirror4p::new(0).mirror_view(0).state_error, Some(SeatViewError::MirrorNotStarted));
}

#[test]
fn three_player_mirror_sets_norths_aside() {
    let hidden = [Tile::unknown(); 13];
    let mut m = Mirror3p::new(0);
    m.feed(Event3p::StartKyoku {
        bakaze: t("E"),
        dora_marker: t("9p"),
        kyoku: 1,
        honba: 0,
        kyotaku: 0,
        oya: 0,
        scores: [35000; 3],
        tehais: [
            hand13(["1m", "1m", "9m", "1p", "2p", "3p", "4p", "5p", "6p", "7s", "8s", "9s", "N"]),
            hidden,
            hidden,
        ],
    })
    .unwrap();
    m.feed(Event3p::Tsumo { actor: 0, pai: t("9m") }).unwrap();
    assert!(m.legal_turn(0).contains(&TurnAction::Nukidora));
    let view = m.mirror_view(0);
    assert!(view_in_play(&view) && sets_north_aside(&view));
    assert_eq!(tsumogiri(&view), TurnAction::Discard { tile: t("9m"), tsumogiri: true });
    assert_eq!(turn_action_to_legal_3p(&TurnAction::Nukidora, &view), LegalAction::Nukidora);
    let e = Event3p::Nukidora { actor: 0, pai: t("N") };
    assert!(m.can_feed(&e));
    m.feed(e).unwrap();
    assert_eq!(m.mirror_view(0).me.melds, vec![Meld::Nukidora { tile: t("N") }]);
    assert_eq!(m.mirror_view(0).me.hand.len(), 13);
    assert!(!sets_north_aside(&m.mirror_view(0)));
}

#[test]
fn shanten_and_genbutsu_of_a_view() {
    let mut m = started();
    feed(&mut m, tsumo(0, "5m"));
    feed(&mut m, dahai(0, "5m"));
    feed(&mut m, tsumo(1, "?"));
    feed(&mut m, dahai(1, "9m"));
    let view: SeatView = m.mirror_view(0);
    assert_eq!(my_shanten(&view), 0);
    assert!(my_tenpai(&view));
    assert_eq!(genbutsu_against(&view, 1), vec![8]);
    assert!(riichi_targets(&view).is_empty());
    assert!(genbutsu_against_riichi(&view).is_empty());
    let (certain, possible) = my_yaku_outlook(&view);
    assert!(certain.is_empty());
    assert_eq!(possible, vec![Yaku::Yakuhai(YakuhaiKind::Bakaze), Yaku::Yakuhai(YakuhaiKind::Jikaze)]);
    let counts = counts_from_str("123m456p789sEESS").unwrap();
    assert_eq!(shanten_after(&counts, 0), 0);
    assert_eq!(shanten_after_for(&counts, 0, false), 0);
}

#[test]
fn safe_tiles_by_their_strongest_reason() {
    let mut visible = [0u8; 34];
    visible[27] = 4;
    visible[10] = 4;
    let mut discarded = [false; 34];
    discarded[4] = true;
    let safe = evaluate_safe_tiles_raw(&visible, &[discarded], &[4, 27, 1, 0]);
    assert_eq!(safe[0].tile, 4);
    assert_eq!((safe[0].level, safe[0].reason, safe[0].coverage), (SafeLevel::Absolute, SafeReason::Genbutsu, 1));
    let wall = safe.iter().find(|s| s.tile == 27).unwrap();
    assert_eq!((wall.level, wall.reason), (SafeLevel::Absolute, SafeReason::DeadWall));
    let suji = safe.iter().find(|s| s.tile == 1).unwrap();
    assert_eq!((suji.level, suji.reason), (SafeLevel::Inferred, SafeReason::Suji));
    assert!(evaluate_safe_tiles_raw(&visible, &[], &[4]).is_empty());
}

// Reconciliation.

#[test]
fn inference_uses_common_actions_of_an_exact_mirror() {
    let a = TurnAction::Tsumo;
    let b = TurnAction::Discard { tile: t("1m"), tsumogiri: false };
    let c = TurnAction::Nukidora;
    let r = reconcile_action_sets(MirrorQuality::Exact, &[a, b], &[b, c]);
    assert_eq!(r.common, vec![b]);
    assert_eq!(r.flytable_only, vec![a]);
    assert_eq!(r.platform_only, vec![c]);
    assert_eq!(r.inference_actions, vec![b]);
    assert!(r.normal_inference_allowed());
    let same = reconcile_action_sets(MirrorQuality::Exact, &[a, b], &[b, a]);
    assert_eq!(same.relation, ActionSetRelation::Exact);
    assert_eq!(r.relation, ActionSetRelation::Divergent);
    assert_eq!(reconcile_action_sets(MirrorQuality::Exact, &[a], &[c]).relation, ActionSetRelation::Disjoint);
    assert_eq!(reconcile_action_sets(MirrorQuality::Exact, &[a, b], &[b]).relation, ActionSetRelation::PlatformNarrower);
    assert_eq!(reconcile_action_sets(MirrorQuality::Exact, &[], &[b]).relation, ActionSetRelation::Missing);
    let degraded = reconcile_action_sets(MirrorQuality::Degraded, &[a, b], &[b, c]);
    assert!(degraded.inference_actions.is_empty() && !degraded.normal_inference_allowed());
    assert_eq!(degraded.deterministic_fallback(), degraded.fallback_actions.first());
    let broken = reconcile_action_sets(MirrorQuality::Unsafe, &[a, b], &[b, c]);
    assert!(broken.inference_actions.is_empty() && broken.fallback_actions.is_empty());
}

#[test]
fn a_passed_ron_blocks_until_the_own_discard() {
    let mut m = started();
    // The hand waits for E and S.
    feed(&mut m, tsumo(0, "5m"));
    feed(&mut m, dahai(0, "5m"));
    feed(&mut m, tsumo(1, "?"));
    feed(&mut m, dahai(1, "E"));
    assert!(m.legal_reactions(0).contains(&ReactionAction::Ron));
    feed(&mut m, tsumo(2, "?"));
    assert!(m.mirror_view(0).me.temporary_furiten);
    feed(&mut m, dahai(2, "E"));
    assert!(!m.legal_reactions(0).contains(&ReactionAction::Ron));
    feed(&mut m, tsumo(3, "?"));
    feed(&mut m, dahai(3, "9m"));
    feed(&mut m, tsumo(0, "5m"));
    feed(&mut m, dahai(0, "5m"));
    assert!(!m.mirror_view(0).me.temporary_furiten);
}

#[test]
fn own_discards_are_safe_against_the_seat() {
    let mut m = started();
    feed(&mut m, tsumo(0, "E"));
    feed(&mut m, dahai(0, "E"));
    feed(&mut m, tsumo(1, "?"));
    feed(&mut m, dahai(1, "E"));
    assert!(!m.legal_reactions(0).contains(&ReactionAction::Ron));
}
