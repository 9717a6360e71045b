use flytable::mahjong::agari::{is_agari, is_agari_3p, ukeire, ukeire_3p, winning_tiles, winning_tiles_3p};
use flytable::mahjong::calc::{
    certain_yaku, certain_yaku_3p, genbutsu_safe, genbutsu_safe_against_all, possible_yaku, possible_yaku_3p, shanten_calc,
    shanten_calc_3p,
};
use flytable::mahjong::decompose::{
    decompose, is_chiitoitsu, is_kokushi, standard_parses, wait_shape, wait_shapes, Decomposition, MeldShape, WaitShape,
};
use flytable::mahjong::hand::{counts_from_str, TileCounts};
use flytable::mahjong::meld::Meld;
use flytable::mahjong::rules::{
    KanDoraTiming, KazoeLimit, RedFiveCounts, RiichiAnkanRule, RiichiRuleProfile, RonResolution, RulePlatform,
};
use flytable::mahjong::score::{evaluate_full, score, score_with_profile, ScoreLimit};
use flytable::mahjong::shanten::{
    shanten, shanten_3p, shanten_chiitoitsu, shanten_kokushi, shanten_standard, shanten_standard_3p,
};
use flytable::mahjong::tile::{InvalidTile, Suit, Tile};
use flytable::mahjong::yaku::{evaluate, Yaku, YakuContext, YakuResult, YakuhaiKind, YakumanKind};
use flytable::mahjong::yaku_star::{
    static_identity_han, yaku_3p_not_applicable, yaku_star, yaku_star_3p, yaku_star_id, YakuStarContext, YakuStarId, YakuStarStatus,
};

fn t(name: &str) -> Tile {
    Tile::from_name(name).unwrap()
}

fn counts(s: &str) -> TileCounts {
    counts_from_str(s).unwrap()
}

/// A closed ron on a tile, for the south player in the east round.
fn context(hand: &str, win: &str) -> YakuContext {
    YakuContext {
        rule_profile: RiichiRuleProfile::tenhou(),
        concealed: *counts(hand).raw(),
        melds: Vec::new(),
        win_tile: t(win),
        is_tsumo: false,
        menzen: true,
        bakaze: t("E"),
        jikaze: t("S"),
        riichi: false,
        double_riichi: false,
        ippatsu: false,
        haitei: false,
        houtei: false,
        rinshan: false,
        chankan: false,
        tenhou: false,
        chiihou: false,
        nuki_count: 0,
        pei_is_yakuhai: false,
    }
}

// Tiles.

#[test]
fn names_are_read_back() {
    for id in 0..=37u8 {
        let tile = Tile::from_id(id).unwrap();
        assert_eq!(tile.id(), id);
        assert_eq!(Tile::from_name(tile.as_str()).unwrap(), tile);
        assert_eq!(tile.as_str().parse::<Tile>().unwrap(), tile);
    }
    assert_eq!(t("5mr").as_str(), "5mr");
    assert_eq!(t("?"), Tile::unknown());
}

#[test]
fn invalid_tiles_are_refused() {
    assert!(matches!(Tile::from_id(38), Err(InvalidTile::Id(38))));
    assert_eq!(Tile::from_id(38).unwrap_err().message(), "invalid tile id 38");
    assert_eq!(Tile::from_name("0m").unwrap_err().message(), "invalid tile name \"0m\"");
    assert!(Tile::number(Suit::Man, 10).is_err());
    assert!(Tile::honor(7).is_err());
    assert_eq!(Tile::number(Suit::Pin, 3).unwrap(), t("3p"));
    assert_eq!(Tile::honor(4).unwrap(), t("P"));
}

#[test]
fn red_fives_fold_into_their_kind() {
    for (red, plain) in [("5mr", "5m"), ("5pr", "5p"), ("5sr", "5s")] {
        assert!(t(red).is_aka());
        assert_eq!(t(red).deaka(), t(plain));
        assert_eq!(t(plain).akaize(), t(red));
        assert_eq!(t(red).kind(), t(plain).kind());
        assert_eq!(t(red).rank(), Some(5));
    }
    assert_eq!(t("4m").akaize(), t("4m"));
}

#[test]
fn indicators_point_at_the_next_tile() {
    for (ind, dora) in [("1m", "2m"), ("9m", "1m"), ("5pr", "6p"), ("N", "E"), ("E", "S"), ("C", "P"), ("P", "F")] {
        assert_eq!(t(ind).dora_from_indicator(), t(dora));
    }
    assert_eq!(t("1m").dora_from_indicator_3p(), t("9m"));
    assert_eq!(t("9m").dora_from_indicator_3p(), t("1m"));
    assert_eq!(t("1p").dora_from_indicator_3p(), t("2p"));
}

#[test]
fn tile_classes() {
    assert!(t("1s").is_terminal() && t("1s").is_yaochuu() && !t("1s").is_honor());
    assert!(t("W").is_wind() && t("W").is_honor() && t("W").is_yaochuu());
    assert!(t("F").is_dragon() && !t("F").is_wind());
    assert_eq!(t("N").honor_idx(), Some(3));
    assert_eq!(t("8m").succ_in_suit(), Some(t("9m")));
    assert_eq!(t("9m").succ_in_suit(), None);
    assert_eq!(t("3s").suit(), Suit::Sou);
}

// Counts.

#[test]
fn notation_is_counted() {
    let c = counts("123m 0p, EEC");
    assert_eq!(c.count(0), 1);
    assert_eq!(c.count_of(t("5pr")), 1);
    assert_eq!(c.count(27), 2);
    assert_eq!(c.total(), 7);
    assert_eq!(c.distinct(), 6);
    assert_eq!(c.describe(), "TileCounts[1m 2m 3m 5p E E C]");
    assert_eq!(counts_from_str("12").unwrap_err(), "trailing digits without suit");
    assert_eq!(counts_from_str("1x").unwrap_err(), "unexpected char x");
}

#[test]
fn counts_expand_and_recount() {
    let c = counts("1122m34p7sNN");
    let tiles = c.to_tiles();
    assert_eq!(TileCounts::from_tiles(&tiles), c);
    let mut d = c;
    d.add(t("9s"), 2);
    d.sub(t("9s"), 2);
    assert_eq!(d, c);
}

// Shanten.

#[test]
fn shanten_of_known_hands() {
    assert_eq!(shanten(&counts("123m456p789s1112p"), 0), 0);
    assert_eq!(shanten(&counts("123m456p789sEEESS"), 0), -1);
    assert_eq!(shanten(&counts("123m456p789sEESS"), 0), 0);
    assert_eq!(shanten(&counts("19m19p19sESWNPFC"), 0), 0);
    assert_eq!(shanten_kokushi(&counts("19m19p19sESWNPFC")), 0);
    assert_eq!(shanten(&counts("1122m3344p5566s7s"), 0), 0);
    assert_eq!(shanten_chiitoitsu(&counts("1122m3344p5566s7s")), 0);
    assert_eq!(shanten_chiitoitsu(&counts("1111m3344p5566s7s")), 2);
    assert_eq!(shanten(&counts("159m159p159sESWN"), 0), 3);
    assert_eq!(shanten_standard(&counts("159m159p159sESWN"), 0), 8);
    assert_eq!(shanten(&counts("123m456p55s"), 2), -1);
    assert_eq!(shanten(&counts("1m"), 4), 0);
    assert_eq!(shanten_calc(&counts("11m"), 4), -1);
}

#[test]
fn a_wall_holds_four_copies() {
    // Four copies of the pair tile are used up, so the wait on a fifth is no tenpai.
    assert_eq!(shanten(&counts("1111m"), 3), 1);
}

#[test]
fn three_player_hands_have_no_middle_characters() {
    assert_eq!(shanten_standard_3p(&counts("111m999mEEESSSP"), 0), 0);
    assert_eq!(shanten_3p(&counts("111999m123p456p7p"), 0), 0);
    let waits = winning_tiles_3p(&counts("11999m123p456pPP"), 0);
    assert_eq!(waits, vec![0, 31]);
    for k in ukeire_3p(&counts("119m159p159sESWN"), 0) {
        assert!(!(1..=7).contains(&k));
    }
    assert!(is_agari_3p(&counts("111999m123p456pPP"), 0));
}

#[test]
fn waits_complete_the_hand() {
    let hand = counts("123m456p789sEESS");
    assert_eq!(winning_tiles(&hand, 0), vec![27, 28]);
    for k in winning_tiles(&hand, 0) {
        let mut with = hand;
        with.add(Tile::from_id(k as u8).unwrap(), 1);
        assert!(is_agari(&with, 0));
    }
    assert_eq!(winning_tiles(&counts("2345678m555pEEE"), 0), vec![1, 4, 7]);
    assert_eq!(winning_tiles(&counts("19m19p19sESWNPFC"), 0).len(), 13);
    assert!(winning_tiles(&counts("159m159p159sESWN"), 0).is_empty());
    assert!(ukeire(&hand, 0).contains(&27));
}

// Readings.

#[test]
fn every_reading_is_listed() {
    let hand = counts("111222333m456pEE");
    let parses = standard_parses(hand.raw(), 0);
    assert_eq!(parses.len(), 2);
    assert_eq!(
        parses[0].melds,
        vec![MeldShape::Shuntsu(0), MeldShape::Shuntsu(0), MeldShape::Shuntsu(0), MeldShape::Shuntsu(12)]
    );
    assert_eq!(
        parses[1].melds,
        vec![MeldShape::Kotsu(0), MeldShape::Kotsu(1), MeldShape::Kotsu(2), MeldShape::Shuntsu(12)]
    );
    assert!(parses.iter().all(|p| p.pair == 27));
}

#[test]
fn a_set_of_groups_is_read_once() {
    let parses = standard_parses(counts("111123mEE").raw(), 2);
    assert_eq!(parses.len(), 1);
    assert_eq!(parses[0].pair, 27);
    assert_eq!(parses[0].melds, vec![MeldShape::Shuntsu(0), MeldShape::Kotsu(0)]);
    let parses = standard_parses(counts("222234444mEE").raw(), 1);
    assert_eq!(parses.len(), 1);
    assert_eq!(parses[0].melds, vec![MeldShape::Shuntsu(1), MeldShape::Kotsu(1), MeldShape::Kotsu(3)]);
}

#[test]
fn complete_hands_have_a_reading() {
    for (hand, melds) in [
        ("123m456p789sEEESS", 0),
        ("11123455678999m", 0),
        ("123m55s", 3),
        ("55s", 4),
        ("22334455667788m", 0),
    ] {
        let c = counts(hand);
        assert!(is_agari(&c, melds));
        assert!(!standard_parses(c.raw(), melds).is_empty());
    }
    let incomplete = counts("123m456p789sEEESW");
    assert!(!is_agari(&incomplete, 0));
    assert!(standard_parses(incomplete.raw(), 0).is_empty());
}

#[test]
fn special_forms() {
    let pairs = counts("1122m3344p5566s77s");
    assert!(is_chiitoitsu(pairs.raw()));
    assert_eq!(decompose(pairs.raw(), 0), Decomposition::Chiitoitsu);
    let orphans = counts("19m19p19sESWNPFCC");
    assert!(is_kokushi(orphans.raw()));
    assert_eq!(decompose(orphans.raw(), 0), Decomposition::Kokushi);
    assert!(!is_chiitoitsu(counts("1111m3344p5566s77s").raw()));
    assert!(matches!(decompose(counts("55s").raw(), 4), Decomposition::Standard(v) if v.len() == 1));
}

#[test]
fn wait_shapes_of_a_reading() {
    let parse = &standard_parses(counts("123m456p789sEEESS").raw(), 0)[0];
    assert_eq!(wait_shape(parse, t("3m")), Some(WaitShape::Penchan));
    assert_eq!(wait_shape(parse, t("5p")), Some(WaitShape::Kanchan));
    assert_eq!(wait_shape(parse, t("4p")), Some(WaitShape::Ryanmen));
    assert_eq!(wait_shape(parse, t("S")), Some(WaitShape::Tanki));
    assert_eq!(wait_shape(parse, t("E")), Some(WaitShape::Shanpon));
    assert_eq!(wait_shape(parse, t("C")), None);
    assert_eq!(wait_shapes(parse, t("7s")), vec![WaitShape::Penchan]);
}

// Yaku and points.

#[test]
fn pinfu_and_tanyao() {
    let result = evaluate(&context("234m456p678s22p345s", "3s"));
    assert_eq!(result.yaku, vec![(Yaku::Pinfu, 1), (Yaku::Tanyao, 1)]);
    assert_eq!(result.han, 2);
    assert_eq!(result.yakuman, 0);
    let full = evaluate_full(&context("234m456p678s22p345s", "3s"), 0, false).unwrap();
    assert_eq!(full.fu, 30);
    assert_eq!(full.score.ron, 2000);
    let mut tsumo = context("234m456p678s22p345s", "3s");
    tsumo.is_tsumo = true;
    let full = evaluate_full(&tsumo, 0, false).unwrap();
    assert_eq!((full.fu, full.yaku.han), (20, 3));
    assert_eq!((full.score.tsumo_ko, full.score.tsumo_oya), (700, 1300));
    assert_eq!(full.score.tsumo_total(4), 2700);
    assert_eq!(full.score.tsumo_total(3), 2000);
}

#[test]
fn no_yaku_no_win() {
    let mut open = context("123m789s55p", "1m");
    open.menzen = false;
    open.melds = vec![
        Meld::Chi { tiles: [t("2p"), t("3p"), t("4p")], called: t("2p"), from: 0 },
        Meld::Pon { tile: t("N"), called: t("N"), consumed: [t("N"), t("N")], from: 2 },
    ];
    assert_eq!(evaluate(&open).han, 0);
    assert!(evaluate_full(&open, 3, false).is_none());
}

#[test]
fn yakuhai_counts_once_for_each_role() {
    let mut c = context("123m456p789sEEE55p", "5p");
    c.jikaze = t("E");
    let result = evaluate(&c);
    assert_eq!(
        result.yaku,
        vec![(Yaku::Yakuhai(YakuhaiKind::Bakaze), 1), (Yaku::Yakuhai(YakuhaiKind::Jikaze), 1)]
    );
    assert_eq!(Yaku::Yakuhai(YakuhaiKind::Bakaze).name(), "Yakuhai Round Wind");
}

#[test]
fn yakuman_hands() {
    let kokushi = evaluate(&context("19m19p19sESWNPFCC", "C"));
    assert!(kokushi.yakuman >= 1);
    assert!(kokushi.yaku.iter().any(|(y, _)| matches!(y, Yaku::Yakuman(_))));
    let suuankou = evaluate(&{
        let mut c = context("111m222p333sEEESS", "E");
        c.is_tsumo = true;
        c
    });
    assert_eq!(suuankou.yaku, vec![(Yaku::Yakuman(YakumanKind::Suuankou), 0)]);
    let full = evaluate_full(
        &{
            let mut c = context("111m222p333sEEESS", "E");
            c.is_tsumo = true;
            c
        },
        0,
        true,
    )
    .unwrap();
    assert_eq!(full.score.limit, ScoreLimit::Yakuman(1));
    assert_eq!(full.score.tsumo_ko, 16000);
}

#[test]
fn points_of_han_and_fu() {
    let han = |n: u8| YakuResult { yaku: vec![], han: n, yakuman: 0 };
    assert_eq!(score(&han(1), 30, false, false).ron, 1000);
    assert_eq!(score(&han(1), 40, true, false).ron, 2000);
    assert_eq!(score(&han(3), 60, false, false).ron, 7700);
    assert_eq!(score(&han(4), 30, false, false).limit, ScoreLimit::Normal);
    assert_eq!(score(&han(4), 40, false, false).ron, 8000);
    assert_eq!(score(&han(5), 30, true, false).ron, 12000);
    assert_eq!(score(&han(6), 30, false, false).limit, ScoreLimit::Haneman);
    assert_eq!(score(&han(8), 30, false, false).ron, 16000);
    assert_eq!(score(&han(11), 30, false, false).ron, 24000);
    let kiriage = RiichiRuleProfile::tenhou().with_scoring_limits(true, KazoeLimit::Yakuman);
    assert_eq!(score_with_profile(&han(4), 30, false, false, kiriage).ron, 8000);
    let plain = RiichiRuleProfile::tenhou().with_scoring_limits(false, KazoeLimit::Yakuman);
    assert_eq!(score_with_profile(&han(4), 30, false, false, plain).ron, 7700);
    assert_eq!(score_with_profile(&han(13), 30, false, false, plain).ron, 32000);
    let tsumo = score(&han(3), 40, false, true);
    assert_eq!((tsumo.tsumo_ko, tsumo.tsumo_oya), (1300, 2600));
}

#[test]
fn fu_of_groups_and_waits() {
    // Closed ron 10, honor triplet closed 8, dragon pair none: 20 + 10 + 8 = 38, rounded up.
    let full = evaluate_full(&context("123m456p789sPPP55p", "5p"), 0, false).unwrap();
    assert_eq!(full.fu, 40);
    let seven = evaluate_full(&context("1122m3344p5566s77s", "7s"), 0, false).unwrap();
    assert_eq!((seven.fu, seven.yaku.han), (25, 2));
    assert_eq!(seven.score.ron, 1600);
}

// What is certain and what is possible.

#[test]
fn certain_yaku_are_possible() {
    let template = {
        let mut c = context("234m456p678s22p34s", "3s");
        c.is_tsumo = false;
        c
    };
    let certain = certain_yaku(&template);
    let possible = possible_yaku(&template);
    assert_eq!(certain, vec![Yaku::Pinfu, Yaku::Tanyao]);
    for y in &certain {
        assert!(possible.contains(y));
    }
}

#[test]
fn three_player_hands_are_looked_at_in_their_own_tiles() {
    // Both 3m and 6m would win with four players; with three there are none.
    let template = context("45m456p678s22pEEE", "3m");
    assert_eq!(shanten_calc(&counts("45m456p678s22pEEE"), 0), 0);
    assert!(shanten_calc_3p(&counts("456p678s22pEEE45s"), 0) == 0);
    assert!(!certain_yaku(&template).is_empty());
    assert!(certain_yaku_3p(&template).is_empty());
    assert!(possible_yaku_3p(&template).is_empty());
    let sanma = context("456p678s22pEEE45s", "3s");
    assert_eq!(certain_yaku_3p(&sanma), certain_yaku(&sanma));
    assert_eq!(possible_yaku_3p(&sanma), possible_yaku(&sanma));
}

#[test]
fn genbutsu_is_what_was_discarded() {
    let a = [t("1m"), t("5pr"), t("E")];
    let b = [t("E"), t("9s")];
    assert_eq!(genbutsu_safe(&a), vec![0, 13, 27]);
    assert_eq!(genbutsu_safe_against_all(&[&a, &b]), vec![27]);
    assert!(genbutsu_safe(&[]).is_empty());
}

#[test]
fn yaku_stars_of_a_tenpai_hand() {
    let ctx = YakuStarContext {
        rule_profile: RiichiRuleProfile::tenhou(),
        bakaze: t("E"),
        jikaze: t("S"),
        menzen: true,
        total_declared_kans: 0,
        has_legal_kan_candidate: false,
        riichi: false,
        double_riichi: false,
        ippatsu: false,
        haitei: false,
        houtei: false,
        rinshan: false,
        chankan: false,
        tenhou: false,
        chiihou: false,
        nuki_count: 0,
        pei_is_yakuhai: false,
    };
    let hand = counts("234m456p678s22p34s");
    let state = yaku_star(&hand, &hand, &[], &ctx);
    assert_eq!(state.facts.shanten_min, 0);
    assert_eq!(state.facts.wait_mask, (1 << 19) | (1 << 22));
    let tanyao = state.rows[yaku_star_id(Yaku::Tanyao).unwrap().index()];
    assert_eq!(tanyao.status, YakuStarStatus::Confirmed);
    assert_eq!(tanyao.ron_wait_mask, state.facts.wait_mask);
    // Only the higher of the two waits carries tanyao.
    let partly = counts("234m567p678s22s23p");
    let some = yaku_star(&partly, &partly, &[], &ctx);
    assert_eq!(some.facts.wait_mask, (1 << 9) | (1 << 12));
    let row = some.rows[yaku_star_id(Yaku::Tanyao).unwrap().index()];
    assert_eq!((row.status, row.ron_wait_mask), (YakuStarStatus::Possible, 1 << 12));
    let row = some.rows[yaku_star_id(Yaku::Pinfu).unwrap().index()];
    assert_eq!((row.status, row.ron_wait_mask), (YakuStarStatus::Confirmed, some.facts.wait_mask));
    for i in 0..42 {
        assert_eq!(YakuStarId::at(i).index(), i);
        let row = state.rows[i];
        assert_eq!(row.ron_wait_mask & !state.facts.wait_mask, 0);
        assert_eq!(row.static_identity_han, static_identity_han(YakuStarId::at(i)));
    }
    assert!(!yaku_3p_not_applicable(yaku_star_id(Yaku::Sanshoku).unwrap()));
    let sanma = counts("111p456p678s22p34s");
    let state = yaku_star_3p(&sanma, &sanma, &[], &ctx);
    assert_eq!(state.facts.wait_mask, (1 << 19) | (1 << 22));
    let pinfu = state.rows[yaku_star_id(Yaku::Pinfu).unwrap().index()];
    assert_eq!(pinfu.ron_wait_mask, 0);
}

// Rule profiles.

#[test]
fn platforms_are_read_by_name() {
    for (name, platform) in [
        ("tenhou", RulePlatform::Tenhou),
        (" Mahjong-Soul ", RulePlatform::MahjongSoul),
        ("riichi_city", RulePlatform::RiichiCity),
    ] {
        assert_eq!(RulePlatform::from_name(name).unwrap(), platform);
        assert_eq!(name.parse::<RiichiRuleProfile>().unwrap().platform(), platform);
        assert_eq!(RulePlatform::from_name(platform.as_str()).unwrap(), platform);
    }
    assert_eq!(
        RiichiRuleProfile::from_name("Nowhere").unwrap_err(),
        "unknown rule platform \"nowhere\" (expected tenhou / mahjong-soul / riichi-city)"
    );
}

#[test]
fn presets_can_be_played() {
    for p in [RiichiRuleProfile::tenhou(), RiichiRuleProfile::mahjong_soul(), RiichiRuleProfile::riichi_city()] {
        assert!(p.validate_for_players(4).is_ok());
        assert!(p.validate_for_players(3).is_ok());
        assert_eq!(p.start_score(3), 35000);
        assert_eq!(p.red_fives(3).man, 0);
    }
    assert_eq!(RiichiRuleProfile::tenhou().start_score(4), 25000);
    assert_eq!(RiichiRuleProfile::default(), RiichiRuleProfile::tenhou());
    let p = RiichiRuleProfile::tenhou()
        .with_ron_resolution(RonResolution::AtamaHane)
        .with_riichi_ankan_rule(RiichiAnkanRule::DrawnFourthAndWaitsUnchanged);
    assert_eq!(p.ron_resolution(), RonResolution::AtamaHane);
}

#[test]
fn impossible_red_fives_are_refused() {
    let none = RedFiveCounts { man: 0, pin: 0, sou: 0 };
    let p = RiichiRuleProfile::tenhou().with_red_fives(4, none).unwrap();
    assert_eq!(p.red_fives(4), none);
    assert!(RedFiveCounts { man: 1, pin: 0, sou: 0 }.validate_for_players(3).is_err());
    assert!(RedFiveCounts { man: 5, pin: 0, sou: 0 }.validate_for_players(4).is_err());
    assert!(none.validate_for_players(5).is_err());
}

#[test]
fn room_variants_change_one_knob() {
    let p = RiichiRuleProfile::tenhou();
    assert_eq!(p.with_no_draw_riichi(!p.allows_no_draw_riichi()).allows_no_draw_riichi(), !p.allows_no_draw_riichi());
    let points = p.with_match_points(1, 2, 3, 4);
    assert_eq!((points.start_score(4), points.target_score(4)), (1, 2));
    assert_eq!((points.start_score(3), points.target_score(3)), (3, 4));
    let ends = p.with_end_rules(false, 7, true, false);
    assert!(!ends.bust_below_zero() && ends.allows_agariyame() && !ends.allows_tenpaiyame());
    assert_eq!(ends.max_extra_bakaze(), 7);
    assert!(!p.with_kuikae_forbidden(false).kuikae_forbidden());
    assert_eq!(p.with_kan_dora_timing(KanDoraTiming::Immediate).kan_dora_timing(), KanDoraTiming::Immediate);
    assert!(p.with_kan_dora_pending_flush_at_declaration(true).kan_dora_pending_flush_at_declaration());
    assert!(p.with_suukaikan_on_kita_declaration(true).suukaikan_on_kita_declaration());
    assert_eq!(ends.with_end_rules(p.bust_below_zero(), p.max_extra_bakaze(), p.allows_agariyame(), p.allows_tenpaiyame()), p);
    assert!(p.allows_nagashi_mangan() && p.allows_pao() && p.allows_suucha_riichi());
}

#[test]
fn counts_can_be_written_through() {
    let mut c = TileCounts::new();
    c.raw_mut()[5] = 2;
    assert_eq!(c.raw()[5], 2);
    assert_eq!(c.total(), 2);
}

#[test]
fn draws_advance_a_hand_by_one() {
    for hand in ["13579m2468p1357s", "234m456p678s22p34s", "1199m1199p1199sE", "1111m2222m3333m4m", "19m19p19sESWNPF1m"] {
        let c = counts(hand);
        let before = shanten(&c, 0);
        let useful = ukeire(&c, 0);
        assert!(!useful.is_empty());
        for k in 0..34usize {
            let mut d = c;
            if d.raw()[k] == 4 {
                continue;
            }
            d.raw_mut()[k] += 1;
            let after = shanten(&d, 0);
            assert_eq!(after, if useful.contains(&k) { before - 1 } else { before });
        }
        assert_eq!(before == 0, !winning_tiles(&c, 0).is_empty());
    }
}
