//! Events and legal actions as an engine receives them.

use vstd::prelude::*;
use crate::event::event3p::Event3p;
use crate::event::event4p::Event4p;
use crate::event::scoring::{HoraAgari, HoraPoint, HoraScoring, HoraYakuFlags};
use crate::inference::contract::{
    actions_view, inference_error, protocol_fault, wire_type, ActionFacts, Fault, InferenceError, InferenceErrorKind,
    LegalAction, ResponseOpportunities, FLYA_INFERENCE_PROTOCOL_V1,
};
use crate::json::{items_view, number, Json, JsonView};
use crate::mahjong::tile::Tile;
use crate::text::same;

verus! {

// Parts of messages.

pub open spec fn tile_json(t: Tile) -> JsonView {
    JsonView::Text(t.spec_name())
}

pub open spec fn tiles_json(tiles: Seq<Tile>) -> JsonView {
    JsonView::Array(Seq::new(tiles.len(), |i: int| tile_json(tiles[i])))
}

pub open spec fn numbers_json(v: Seq<i32>) -> JsonView {
    JsonView::Array(Seq::new(v.len(), |i: int| number(v[i] as int)))
}

pub open spec fn names_json(v: Seq<String>) -> JsonView {
    JsonView::Array(Seq::new(v.len(), |i: int| JsonView::Text(v[i]@)))
}

/// The starting hands. A viewer sees the own one; the tiles of the others are unknown.
pub open spec fn hands_json(hands: Seq<[Tile; 13]>, viewer: Option<u8>) -> JsonView {
    JsonView::Array(
        Seq::new(hands.len(), |i: int| if is_seen(viewer, i) { tiles_json(hands[i]@) } else { tiles_json(hidden_hand()) }),
    )
}

pub open spec fn hidden_hand() -> Seq<Tile> {
    Seq::new(13, |i: int| Tile::unknown())
}

/// Whether a viewer sees the concealed tiles of a seat; without a viewer all are seen.
pub open spec fn is_seen(viewer: Option<u8>, seat: int) -> bool {
    match viewer {
        Some(v) => v == seat,
        None => true,
    }
}

/// A concealed tile of a seat, as a viewer sees it.
pub open spec fn seen(pai: Tile, actor: u8, viewer: Option<u8>) -> Tile {
    if is_seen(viewer, actor as int) { pai } else { Tile::unknown() }
}

pub open spec fn seed_json(seed: Option<(u64, u64)>) -> JsonView {
    match seed {
        None => JsonView::Null,
        Some((nonce, key)) => JsonView::Array(seq![JsonView::UInt(nonce), JsonView::UInt(key)]),
    }
}

pub open spec fn agari_json(a: HoraAgari) -> JsonView {
    match a {
        HoraAgari::Normal { fu, han } => JsonView::object().with("kind"@, JsonView::Text("normal"@)).with(
            "fu"@,
            number(fu as int),
        ).with("han"@, number(han as int)),
        HoraAgari::Yakuman { count } => JsonView::object().with("kind"@, JsonView::Text("yakuman"@)).with(
            "count"@,
            number(count as int),
        ),
    }
}

pub open spec fn point_json(p: HoraPoint) -> JsonView {
    JsonView::object().with("ron"@, number(p.ron as int)).with("tsumo_ko"@, number(p.tsumo_ko as int)).with(
        "tsumo_oya"@,
        number(p.tsumo_oya as int),
    )
}

pub open spec fn flags_json(f: HoraYakuFlags) -> JsonView {
    JsonView::object().with("riichi"@, JsonView::Bool(f.riichi)).with("double_riichi"@, JsonView::Bool(f.double_riichi)).with(
        "ippatsu"@,
        JsonView::Bool(f.ippatsu),
    ).with("menzen_tsumo"@, JsonView::Bool(f.menzen_tsumo)).with("haitei"@, JsonView::Bool(f.haitei)).with(
        "houtei"@,
        JsonView::Bool(f.houtei),
    ).with("rinshan"@, JsonView::Bool(f.rinshan)).with("chankan"@, JsonView::Bool(f.chankan)).with(
        "tenhou"@,
        JsonView::Bool(f.tenhou),
    ).with("chiihou"@, JsonView::Bool(f.chiihou))
}

pub open spec fn scoring_json(s: Option<HoraScoring>) -> JsonView {
    match s {
        None => JsonView::Null,
        Some(s) => JsonView::object().with("agari"@, agari_json(s.agari)).with("point"@, point_json(s.point)).with(
            "additional_hans"@,
            number(s.additional_hans as int),
        ).with("dora_han"@, number(s.dora_han as int)).with("red_dora_han"@, number(s.red_dora_han as int)).with(
            "ura_dora_han"@,
            number(s.ura_dora_han as int),
        ).with("nuki_dora_han"@, number(s.nuki_dora_han as int)).with("yaku_flags"@, flags_json(s.yaku_flags)),
    }
}

pub open spec fn markers_json(m: Option<Vec<Tile>>) -> JsonView {
    match m {
        None => JsonView::Null,
        Some(v) => tiles_json(v@),
    }
}

/// An object that tells its type.
pub open spec fn typed(t: Seq<char>) -> JsonView {
    JsonView::object().with("type"@, JsonView::Text(t))
}

fn typed_object(t: &str) -> (r: Json)
    ensures
        r@ == typed(t@),
{
    Json::object().with("type", Json::text(t))
}

fn tile_to_json(t: Tile) -> (r: Json)
    ensures
        r@ == tile_json(t),
{
    Json::text(t.as_str())
}

fn small(n: u8) -> (r: Json)
    ensures
        r@ == number(n as int),
{
    Json::UInt(n as u64)
}

fn tiles_to_json(tiles: &[Tile]) -> (r: Json)
    ensures
        r@ == tiles_json(tiles@),
{
    let mut out: Vec<Json> = Vec::new();
    let mut i: usize = 0;
    while i < tiles.len()
        invariant
            i <= tiles@.len(),
            out@.len() == i,
            forall|j: int| 0 <= j < i ==> (#[trigger] out@[j])@ == tile_json(tiles@[j]),
        decreases tiles@.len() - i,
    {
        out.push(tile_to_json(tiles[i]));
        i = i + 1;
    }
    assert(items_view(out@) =~= tiles_json(tiles@)->Array_0);
    Json::array(out)
}

fn numbers_to_json(v: &[i32]) -> (r: Json)
    ensures
        r@ == numbers_json(v@),
{
    let mut out: Vec<Json> = Vec::new();
    let mut i: usize = 0;
    while i < v.len()
        invariant
            i <= v@.len(),
            out@.len() == i,
            forall|j: int| 0 <= j < i ==> (#[trigger] out@[j])@ == number(v@[j] as int),
        decreases v@.len() - i,
    {
        out.push(Json::number(v[i] as i64));
        i = i + 1;
    }
    assert(items_view(out@) =~= numbers_json(v@)->Array_0);
    Json::array(out)
}

fn names_to_json(v: &[String]) -> (r: Json)
    ensures
        r@ == names_json(v@),
{
    let mut out: Vec<Json> = Vec::new();
    let mut i: usize = 0;
    while i < v.len()
        invariant
            i <= v@.len(),
            out@.len() == i,
            forall|j: int| 0 <= j < i ==> (#[trigger] out@[j])@ == JsonView::Text(v@[j]@),
        decreases v@.len() - i,
    {
        out.push(Json::text(v[i].as_str()));
        i = i + 1;
    }
    assert(items_view(out@) =~= names_json(v@)->Array_0);
    Json::array(out)
}

fn sees(viewer: Option<u8>, seat: usize) -> (r: bool)
    ensures
        r == is_seen(viewer, seat as int),
{
    match viewer {
        Some(v) => v as usize == seat,
        None => true,
    }
}

fn seen_tile(pai: Tile, actor: u8, viewer: Option<u8>) -> (r: Tile)
    ensures
        r == seen(pai, actor, viewer),
{
    if sees(viewer, actor as usize) {
        pai
    } else {
        Tile::unknown()
    }
}

fn hidden_tiles() -> (r: [Tile; 13])
    ensures
        r@ == hidden_hand(),
{
    let u = Tile::unknown();
    let r = [u, u, u, u, u, u, u, u, u, u, u, u, u];
    assert(r@ =~= hidden_hand());
    r
}

fn hands_to_json(hands: &[[Tile; 13]], viewer: Option<u8>) -> (r: Json)
    ensures
        r@ == hands_json(hands@, viewer),
{
    let hidden = hidden_tiles();
    let mut out: Vec<Json> = Vec::new();
    let mut i: usize = 0;
    while i < hands.len()
        invariant
            i <= hands@.len(),
            out@.len() == i,
            hidden@ == hidden_hand(),
            forall|j: int|
                0 <= j < i ==> (#[trigger] out@[j])@ == if is_seen(viewer, j) {
                    tiles_json(hands@[j]@)
                } else {
                    tiles_json(hidden_hand())
                },
        decreases hands@.len() - i,
    {
        if sees(viewer, i) {
            out.push(tiles_to_json(hands[i].as_slice()));
        } else {
            out.push(tiles_to_json(hidden.as_slice()));
        }
        i = i + 1;
    }
    assert(items_view(out@) =~= hands_json(hands@, viewer)->Array_0);
    Json::array(out)
}

fn seed_to_json(seed: Option<(u64, u64)>) -> (r: Json)
    ensures
        r@ == seed_json(seed),
{
    match seed {
        None => Json::Null,
        Some((nonce, key)) => {
            let v = vec![Json::UInt(nonce), Json::UInt(key)];
            assert(items_view(v@) =~= seq![JsonView::UInt(nonce), JsonView::UInt(key)]);
            Json::array(v)
        },
    }
}

fn agari_to_json(a: &HoraAgari) -> (r: Json)
    ensures
        r@ == agari_json(*a),
{
    match a {
        HoraAgari::Normal { fu, han } => Json::object().with("kind", Json::text("normal")).with("fu", small(*fu)).with(
            "han",
            small(*han),
        ),
        HoraAgari::Yakuman { count } => Json::object().with("kind", Json::text("yakuman")).with("count", small(*count)),
    }
}

fn point_to_json(p: &HoraPoint) -> (r: Json)
    ensures
        r@ == point_json(*p),
{
    Json::object().with("ron", Json::number(p.ron as i64)).with("tsumo_ko", Json::number(p.tsumo_ko as i64)).with(
        "tsumo_oya",
        Json::number(p.tsumo_oya as i64),
    )
}

fn flags_to_json(f: &HoraYakuFlags) -> (r: Json)
    ensures
        r@ == flags_json(*f),
{
    Json::object().with("riichi", Json::Bool(f.riichi)).with("double_riichi", Json::Bool(f.double_riichi)).with(
        "ippatsu",
        Json::Bool(f.ippatsu),
    ).with("menzen_tsumo", Json::Bool(f.menzen_tsumo)).with("haitei", Json::Bool(f.haitei)).with(
        "houtei",
        Json::Bool(f.houtei),
    ).with("rinshan", Json::Bool(f.rinshan)).with("chankan", Json::Bool(f.chankan)).with(
        "tenhou",
        Json::Bool(f.tenhou),
    ).with("chiihou", Json::Bool(f.chiihou))
}

fn scoring_to_json(s: &Option<HoraScoring>) -> (r: Json)
    ensures
        r@ == scoring_json(*s),
{
    match s {
        None => Json::Null,
        Some(s) => Json::object().with("agari", agari_to_json(&s.agari)).with("point", point_to_json(&s.point)).with(
            "additional_hans",
            small(s.additional_hans),
        ).with("dora_han", small(s.dora_han)).with("red_dora_han", small(s.red_dora_han)).with(
            "ura_dora_han",
            small(s.ura_dora_han),
        ).with("nuki_dora_han", small(s.nuki_dora_han)).with("yaku_flags", flags_to_json(&s.yaku_flags)),
    }
}

fn markers_to_json(m: &Option<Vec<Tile>>) -> (r: Json)
    ensures
        r@ == markers_json(*m),
{
    match m {
        None => Json::Null,
        Some(v) => tiles_to_json(v.as_slice()),
    }
}

// Events of a four-player table.

pub open spec fn deltas_json_4p(d: Option<[i32; 4]>) -> JsonView {
    match d {
        None => JsonView::Null,
        Some(v) => numbers_json(v@),
    }
}

fn deltas_to_json_4p(d: &Option<[i32; 4]>) -> (r: Json)
    ensures
        r@ == deltas_json_4p(*d),
{
    match d {
        None => Json::Null,
        Some(v) => numbers_to_json(v.as_slice()),
    }
}

/// An event as a message: what a viewer may see of it, or all of it, with the seed of the wall.
pub open spec fn event_json_4p(event: Event4p, viewer: Option<u8>) -> JsonView {
    match event {
        Event4p::Nothing => typed("none"@),
        Event4p::StartGame { names, seed } => match viewer {
            Some(_) => typed("start_game"@).with("names"@, names_json(names@)),
            None => typed("start_game"@).with("names"@, names_json(names@)).with("seed"@, seed_json(seed)),
        },
        Event4p::StartKyoku { bakaze, dora_marker, kyoku, honba, kyotaku, oya, scores, tehais } => typed("start_kyoku"@).with(
            "bakaze"@,
            tile_json(bakaze),
        ).with("dora_marker"@, tile_json(dora_marker)).with("kyoku"@, number(kyoku as int)).with(
            "honba"@,
            number(honba as int),
        ).with("kyotaku"@, number(kyotaku as int)).with("oya"@, number(oya as int)).with(
            "scores"@,
            numbers_json(scores@),
        ).with("tehais"@, hands_json(tehais@, viewer)),
        Event4p::Tsumo { actor, pai } => typed("tsumo"@).with("actor"@, number(actor as int)).with("pai"@, tile_json(seen(pai, actor, viewer))),
        Event4p::DealerOpening { actor, pai } => typed("dealer_opening"@).with("actor"@, number(actor as int)).with("pai"@, tile_json(seen(pai, actor, viewer))),
        Event4p::Dahai { actor, pai, tsumogiri } => typed("dahai"@).with("actor"@, number(actor as int)).with("pai"@, tile_json(pai)).with("tsumogiri"@, JsonView::Bool(tsumogiri)),
        Event4p::DealerOpeningDahai { actor, pai } => typed("dealer_opening_dahai"@).with("actor"@, number(actor as int)).with("pai"@, tile_json(pai)),
        Event4p::SeatForcedAutoplay { actor } => typed("seat_forced_autoplay"@).with("actor"@, number(actor as int)),
        Event4p::SeatResumed { actor } => typed("seat_resumed"@).with("actor"@, number(actor as int)),
        Event4p::Chi { actor, target, pai, consumed } => typed("chi"@).with("actor"@, number(actor as int)).with("target"@, number(target as int)).with("pai"@, tile_json(pai)).with("consumed"@, tiles_json(consumed@)),
        Event4p::Pon { actor, target, pai, consumed } => typed("pon"@).with("actor"@, number(actor as int)).with("target"@, number(target as int)).with("pai"@, tile_json(pai)).with("consumed"@, tiles_json(consumed@)),
        Event4p::Daiminkan { actor, target, pai, consumed } => typed("daiminkan"@).with("actor"@, number(actor as int)).with("target"@, number(target as int)).with("pai"@, tile_json(pai)).with("consumed"@, tiles_json(consumed@)),
        Event4p::Kakan { actor, pai, consumed } => typed("kakan"@).with("actor"@, number(actor as int)).with("pai"@, tile_json(pai)).with("consumed"@, tiles_json(consumed@)),
        Event4p::Ankan { actor, consumed } => typed("ankan"@).with("actor"@, number(actor as int)).with("consumed"@, tiles_json(consumed@)),
        Event4p::Dora { dora_marker } => typed("dora"@).with("dora_marker"@, tile_json(dora_marker)),
        Event4p::Reach { actor } => typed("reach"@).with("actor"@, number(actor as int)),
        Event4p::ReachAccepted { actor } => typed("reach_accepted"@).with("actor"@, number(actor as int)),
        Event4p::Hora { actor, target, deltas, ura_markers, scoring } => typed("hora"@).with(
            "actor"@,
            number(actor as int),
        ).with("target"@, number(target as int)).with("deltas"@, deltas_json_4p(deltas)).with(
            "ura_markers"@,
            markers_json(ura_markers),
        ).with("scoring"@, scoring_json(scoring)),
        Event4p::Ryukyoku { deltas } => typed("ryukyoku"@).with("deltas"@, deltas_json_4p(deltas)),
        Event4p::EndKyoku => typed("end_kyoku"@),
        Event4p::EndGame => typed("end_game"@),
    }
}

/// An event as a message.
pub fn event_4p_to_json(event: &Event4p, viewer: Option<u8>) -> (r: Json)
    ensures
        r@ == event_json_4p(*event, viewer),
        r@ is Object,
{
    match event {
        Event4p::Nothing => typed_object("none"),
        Event4p::StartGame { names, seed } => {
            let start = typed_object("start_game").with("names", names_to_json(names.as_slice()));
            if viewer.is_some() {
                start
            } else {
                start.with("seed", seed_to_json(*seed))
            }
        },
        Event4p::StartKyoku { bakaze, dora_marker, kyoku, honba, kyotaku, oya, scores, tehais } => typed_object("start_kyoku").with(
            "bakaze",
            tile_to_json(*bakaze),
        ).with("dora_marker", tile_to_json(*dora_marker)).with("kyoku", small(*kyoku)).with("honba", small(*honba)).with(
            "kyotaku",
            small(*kyotaku),
        ).with("oya", small(*oya)).with("scores", numbers_to_json(scores.as_slice())).with(
            "tehais",
            hands_to_json(tehais.as_slice(), viewer),
        ),
        Event4p::Tsumo { actor, pai } => typed_object("tsumo").with("actor", small(*actor)).with("pai", tile_to_json(seen_tile(*pai, *actor, viewer))),
        Event4p::DealerOpening { actor, pai } => typed_object("dealer_opening").with("actor", small(*actor)).with("pai", tile_to_json(seen_tile(*pai, *actor, viewer))),
        Event4p::Dahai { actor, pai, tsumogiri } => typed_object("dahai").with("actor", small(*actor)).with("pai", tile_to_json(*pai)).with("tsumogiri", Json::Bool(*tsumogiri)),
        Event4p::DealerOpeningDahai { actor, pai } => typed_object("dealer_opening_dahai").with("actor", small(*actor)).with("pai", tile_to_json(*pai)),
        Event4p::SeatForcedAutoplay { actor } => typed_object("seat_forced_autoplay").with("actor", small(*actor)),
        Event4p::SeatResumed { actor } => typed_object("seat_resumed").with("actor", small(*actor)),
        Event4p::Chi { actor, target, pai, consumed } => typed_object("chi").with("actor", small(*actor)).with("target", small(*target)).with("pai", tile_to_json(*pai)).with("consumed", tiles_to_json(consumed.as_slice())),
        Event4p::Pon { actor, target, pai, consumed } => typed_object("pon").with("actor", small(*actor)).with("target", small(*target)).with("pai", tile_to_json(*pai)).with("consumed", tiles_to_json(consumed.as_slice())),
        Event4p::Daiminkan { actor, target, pai, consumed } => typed_object("daiminkan").with("actor", small(*actor)).with("target", small(*target)).with("pai", tile_to_json(*pai)).with("consumed", tiles_to_json(consumed.as_slice())),
        Event4p::Kakan { actor, pai, consumed } => typed_object("kakan").with("actor", small(*actor)).with("pai", tile_to_json(*pai)).with("consumed", tiles_to_json(consumed.as_slice())),
        Event4p::Ankan { actor, consumed } => typed_object("ankan").with("actor", small(*actor)).with("consumed", tiles_to_json(consumed.as_slice())),
        Event4p::Dora { dora_marker } => typed_object("dora").with("dora_marker", tile_to_json(*dora_marker)),
        Event4p::Reach { actor } => typed_object("reach").with("actor", small(*actor)),
        Event4p::ReachAccepted { actor } => typed_object("reach_accepted").with("actor", small(*actor)),
        Event4p::Hora { actor, target, deltas, ura_markers, scoring } => typed_object("hora").with("actor", small(*actor)).with(
            "target",
            small(*target),
        ).with("deltas", deltas_to_json_4p(deltas)).with("ura_markers", markers_to_json(ura_markers)).with(
            "scoring",
            scoring_to_json(scoring),
        ),
        Event4p::Ryukyoku { deltas } => typed_object("ryukyoku").with("deltas", deltas_to_json_4p(deltas)),
        Event4p::EndKyoku => typed_object("end_kyoku"),
        Event4p::EndGame => typed_object("end_game"),
    }
}

/// An event as a seat sees it.
pub open spec fn visible_wire_4p(event: Event4p, seat: u8) -> JsonView {
    event_json_4p(event, Some(seat)).with("viewer_seat"@, number(seat as int))
}

/// An event as a seat sees it: concealed tiles of the other seats and the seed of the wall are
/// left out.
pub fn visible_event_4p_to_wire(event: &Event4p, seat: u8) -> (r: Json)
    ensures
        r@ == visible_wire_4p(*event, seat),
        r@ is Object,
{
    event_4p_to_json(event, Some(seat)).with("viewer_seat", small(seat))
}

/// The dealer's opening tile that a seat has seen and that was not discarded since.
pub open spec fn opening_seen_4p(events: Seq<Event4p>, seat: u8, actor: int) -> Option<Tile>
    decreases events.len(),
{
    if events.len() == 0 {
        None
    } else {
        match events.last() {
            Event4p::DealerOpening { actor: a, pai } => if a == actor {
                Some(seen(pai, a, Some(seat)))
            } else {
                opening_seen_4p(events.drop_last(), seat, actor)
            },
            Event4p::DealerOpeningDahai { actor: a, .. } => if a == actor {
                None
            } else {
                opening_seen_4p(events.drop_last(), seat, actor)
            },
            _ => opening_seen_4p(events.drop_last(), seat, actor),
        }
    }
}

/// An event in the first version of the protocol, which knows no dealer opening: its tile is a
/// draw, and its discard a tsumogiri if it is that tile.
pub open spec fn v1_wire_4p(event: Event4p, seat: u8, opened: Option<Tile>) -> JsonView {
    match event {
        Event4p::DealerOpening { .. } => visible_wire_4p(event, seat).with("type"@, JsonView::Text("tsumo"@)),
        Event4p::DealerOpeningDahai { pai, .. } => visible_wire_4p(event, seat).with("type"@, JsonView::Text("dahai"@)).with(
            "tsumogiri"@,
            JsonView::Bool(opened == Some(pai)),
        ),
        _ => visible_wire_4p(event, seat),
    }
}

pub open spec fn opening_actor_4p(event: Event4p) -> int {
    match event {
        Event4p::DealerOpening { actor, .. } => actor as int,
        Event4p::DealerOpeningDahai { actor, .. } => actor as int,
        _ => 0,
    }
}

/// The event stream of a seat. The first version of the protocol has no forced autoplay.
pub open spec fn stream_4p(events: Seq<Event4p>, seat: u8, v1: bool) -> Seq<JsonView>
    decreases events.len(),
{
    if events.len() == 0 {
        Seq::empty()
    } else {
        let rest = stream_4p(events.drop_last(), seat, v1);
        let e = events.last();
        if v1 && (e is SeatForcedAutoplay || e is SeatResumed) {
            rest
        } else if v1 {
            rest.push(v1_wire_4p(e, seat, opening_seen_4p(events.drop_last(), seat, opening_actor_4p(e))))
        } else {
            rest.push(visible_wire_4p(e, seat))
        }
    }
}

/// The dealers of openings are seats of the table.
pub open spec fn openings_seated_4p(events: Seq<Event4p>) -> bool {
    forall|i: int| 0 <= i < events.len() ==> opening_actor_4p(#[trigger] events[i]) < 4
}

fn v1_event_4p(event: &Event4p, seat: u8, opening: &mut [Option<Tile>; 4]) -> (r: Json)
    requires
        opening_actor_4p(*event) < 4,
    ensures
        r@ == v1_wire_4p(*event, seat, old(opening)@[opening_actor_4p(*event)]),
        match *event {
            Event4p::DealerOpening { actor, pai } => final(opening)@ == old(opening)@.update(
                actor as int,
                Some(seen(pai, actor, Some(seat))),
            ),
            Event4p::DealerOpeningDahai { actor, .. } => final(opening)@ == old(opening)@.update(actor as int, None),
            _ => final(opening)@ == old(opening)@,
        },
{
    let wire = visible_event_4p_to_wire(event, seat);
    match event {
        Event4p::DealerOpening { actor, pai } => {
            opening[*actor as usize] = Some(seen_tile(*pai, *actor, Some(seat)));
            wire.with("type", Json::text("tsumo"))
        },
        Event4p::DealerOpeningDahai { actor, pai } => {
            let tsumogiri = match opening[*actor as usize] {
                Some(t) => t == *pai,
                None => false,
            };
            opening[*actor as usize] = None;
            wire.with("type", Json::text("dahai")).with("tsumogiri", Json::Bool(tsumogiri))
        },
        _ => wire,
    }
}

/// The event stream of a seat under a protocol.
pub fn visible_events_4p_to_wire(events: &[Event4p], seat: u8, protocol: &str) -> (r: Vec<Json>)
    requires
        protocol@ == FLYA_INFERENCE_PROTOCOL_V1@ ==> openings_seated_4p(events@),
    ensures
        items_view(r@) == stream_4p(events@, seat, protocol@ == FLYA_INFERENCE_PROTOCOL_V1@),
{
    let v1 = same(protocol, FLYA_INFERENCE_PROTOCOL_V1);
    let mut opening: [Option<Tile>; 4] = [None, None, None, None];
    let mut out: Vec<Json> = Vec::new();
    let mut i: usize = 0;
    assert(items_view(out@) =~= stream_4p(events@.take(0), seat, v1));
    while i < events.len()
        invariant
            i <= events@.len(),
            v1 ==> openings_seated_4p(events@),
            v1 ==> forall|a: int| 0 <= a < 4 ==> #[trigger] opening@[a] == opening_seen_4p(events@.take(i as int), seat, a),
            items_view(out@) == stream_4p(events@.take(i as int), seat, v1),
        decreases events@.len() - i,
    {
        let ghost now = events@.take(i + 1);
        let ghost before = out@;
        assert(now.drop_last() =~= events@.take(i as int));
        assert(now.last() == events@[i as int]);
        let skip = v1 && matches!(events[i], Event4p::SeatForcedAutoplay { .. } | Event4p::SeatResumed { .. });
        if !skip {
            let wire = if v1 {
                v1_event_4p(&events[i], seat, &mut opening)
            } else {
                visible_event_4p_to_wire(&events[i], seat)
            };
            out.push(wire);
            assert(items_view(out@) =~= items_view(before).push(wire@));
        }
        i = i + 1;
    }
    assert(events@.take(i as int) =~= events@);
    out
}

/// The dealer's opening tile of a seat: the last in the stream.
pub open spec fn opening_tile_4p(events: Seq<Event4p>, seat: u8) -> Option<Tile>
    decreases events.len(),
{
    if events.len() == 0 {
        None
    } else {
        match events.last() {
            Event4p::DealerOpening { actor, pai } => if actor == seat {
                Some(pai)
            } else {
                opening_tile_4p(events.drop_last(), seat)
            },
            _ => opening_tile_4p(events.drop_last(), seat),
        }
    }
}

/// The dealer's opening tile of a seat.
pub fn dealer_opening_tile_4p(events: &[Event4p], seat: u8) -> (r: Option<Tile>)
    ensures
        r == opening_tile_4p(events@, seat),
{
    let mut i: usize = events.len();
    assert(events@.take(i as int) =~= events@);
    while i > 0
        invariant
            i <= events@.len(),
            opening_tile_4p(events@, seat) == opening_tile_4p(events@.take(i as int), seat),
        decreases i,
    {
        assert(events@.take(i as int).drop_last() =~= events@.take(i - 1));
        assert(events@.take(i as int).last() == events@[i - 1]);
        i = i - 1;
        match &events[i] {
            Event4p::DealerOpening { actor, pai } => {
                if *actor == seat {
                    return Some(*pai);
                }
            },
            _ => {},
        }
    }
    None
}

/// A seat is shown nothing of the other seats' concealed tiles: events that differ only there
/// look the same.
pub proof fn hidden_tiles_do_not_show_4p(a: Event4p, b: Event4p, seat: u8)
    requires
        match (a, b) {
            (Event4p::Tsumo { actor, .. }, Event4p::Tsumo { actor: other, .. }) => actor == other && actor != seat,
            (Event4p::DealerOpening { actor, .. }, Event4p::DealerOpening { actor: other, .. }) => actor == other && actor != seat,
            (
                Event4p::StartKyoku { bakaze, dora_marker, kyoku, honba, kyotaku, oya, scores, tehais },
                Event4p::StartKyoku {
                    bakaze: w,
                    dora_marker: m,
                    kyoku: k,
                    honba: h,
                    kyotaku: d,
                    oya: o,
                    scores: s,
                    tehais: t,
                },
            ) => bakaze == w && dora_marker == m && kyoku == k && honba == h && kyotaku == d && oya == o && scores == s && (seat
                < 4 ==> tehais@[seat as int] == t@[seat as int]),
            (Event4p::StartGame { names, .. }, Event4p::StartGame { names: other, .. }) => names == other,
            _ => false,
        },
    ensures
        visible_wire_4p(a, seat) == visible_wire_4p(b, seat),
{
    match (a, b) {
        (Event4p::StartKyoku { tehais, .. }, Event4p::StartKyoku { tehais: t, .. }) => {
            assert(hands_json(tehais@, Some(seat))->Array_0 =~= hands_json(t@, Some(seat))->Array_0);
        },
        _ => {},
    }
}

// Events of a three-player table.

pub open spec fn deltas_json_3p(d: Option<[i32; 3]>) -> JsonView {
    match d {
        None => JsonView::Null,
        Some(v) => numbers_json(v@),
    }
}

fn deltas_to_json_3p(d: &Option<[i32; 3]>) -> (r: Json)
    ensures
        r@ == deltas_json_3p(*d),
{
    match d {
        None => Json::Null,
        Some(v) => numbers_to_json(v.as_slice()),
    }
}

/// An event as a message: what a viewer may see of it, or all of it, with the seed of the wall.
pub open spec fn event_json_3p(event: Event3p, viewer: Option<u8>) -> JsonView {
    match event {
        Event3p::Nothing => typed("none"@),
        Event3p::StartGame { names, seed } => match viewer {
            Some(_) => typed("start_game"@).with("names"@, names_json(names@)),
            None => typed("start_game"@).with("names"@, names_json(names@)).with("seed"@, seed_json(seed)),
        },
        Event3p::StartKyoku { bakaze, dora_marker, kyoku, honba, kyotaku, oya, scores, tehais } => typed("start_kyoku"@).with(
            "bakaze"@,
            tile_json(bakaze),
        ).with("dora_marker"@, tile_json(dora_marker)).with("kyoku"@, number(kyoku as int)).with(
            "honba"@,
            number(honba as int),
        ).with("kyotaku"@, number(kyotaku as int)).with("oya"@, number(oya as int)).with(
            "scores"@,
            numbers_json(scores@),
        ).with("tehais"@, hands_json(tehais@, viewer)),
        Event3p::Tsumo { actor, pai } => typed("tsumo"@).with("actor"@, number(actor as int)).with("pai"@, tile_json(seen(pai, actor, viewer))),
        Event3p::DealerOpening { actor, pai } => typed("dealer_opening"@).with("actor"@, number(actor as int)).with("pai"@, tile_json(seen(pai, actor, viewer))),
        Event3p::Dahai { actor, pai, tsumogiri } => typed("dahai"@).with("actor"@, number(actor as int)).with("pai"@, tile_json(pai)).with("tsumogiri"@, JsonView::Bool(tsumogiri)),
        Event3p::DealerOpeningDahai { actor, pai } => typed("dealer_opening_dahai"@).with("actor"@, number(actor as int)).with("pai"@, tile_json(pai)),
        Event3p::SeatForcedAutoplay { actor } => typed("seat_forced_autoplay"@).with("actor"@, number(actor as int)),
        Event3p::SeatResumed { actor } => typed("seat_resumed"@).with("actor"@, number(actor as int)),
        Event3p::Pon { actor, target, pai, consumed } => typed("pon"@).with("actor"@, number(actor as int)).with("target"@, number(target as int)).with("pai"@, tile_json(pai)).with("consumed"@, tiles_json(consumed@)),
        Event3p::Daiminkan { actor, target, pai, consumed } => typed("daiminkan"@).with("actor"@, number(actor as int)).with("target"@, number(target as int)).with("pai"@, tile_json(pai)).with("consumed"@, tiles_json(consumed@)),
        Event3p::Kakan { actor, pai, consumed } => typed("kakan"@).with("actor"@, number(actor as int)).with("pai"@, tile_json(pai)).with("consumed"@, tiles_json(consumed@)),
        Event3p::Ankan { actor, consumed } => typed("ankan"@).with("actor"@, number(actor as int)).with("consumed"@, tiles_json(consumed@)),
        Event3p::Nukidora { actor, pai } => typed("nukidora"@).with("actor"@, number(actor as int)).with("pai"@, tile_json(pai)),
        Event3p::Dora { dora_marker } => typed("dora"@).with("dora_marker"@, tile_json(dora_marker)),
        Event3p::Reach { actor } => typed("reach"@).with("actor"@, number(actor as int)),
        Event3p::ReachAccepted { actor } => typed("reach_accepted"@).with("actor"@, number(actor as int)),
        Event3p::Hora { actor, target, deltas, ura_markers, scoring } => typed("hora"@).with(
            "actor"@,
            number(actor as int),
        ).with("target"@, number(target as int)).with("deltas"@, deltas_json_3p(deltas)).with(
            "ura_markers"@,
            markers_json(ura_markers),
        ).with("scoring"@, scoring_json(scoring)),
        Event3p::Ryukyoku { deltas } => typed("ryukyoku"@).with("deltas"@, deltas_json_3p(deltas)),
        Event3p::EndKyoku => typed("end_kyoku"@),
        Event3p::EndGame => typed("end_game"@),
    }
}

/// An event as a message.
pub fn event_3p_to_json(event: &Event3p, viewer: Option<u8>) -> (r: Json)
    ensures
        r@ == event_json_3p(*event, viewer),
        r@ is Object,
{
    match event {
        Event3p::Nothing => typed_object("none"),
        Event3p::StartGame { names, seed } => {
            let start = typed_object("start_game").with("names", names_to_json(names.as_slice()));
            if viewer.is_some() {
                start
            } else {
                start.with("seed", seed_to_json(*seed))
            }
        },
        Event3p::StartKyoku { bakaze, dora_marker, kyoku, honba, kyotaku, oya, scores, tehais } => typed_object("start_kyoku").with(
            "bakaze",
            tile_to_json(*bakaze),
        ).with("dora_marker", tile_to_json(*dora_marker)).with("kyoku", small(*kyoku)).with("honba", small(*honba)).with(
            "kyotaku",
            small(*kyotaku),
        ).with("oya", small(*oya)).with("scores", numbers_to_json(scores.as_slice())).with(
            "tehais",
            hands_to_json(tehais.as_slice(), viewer),
        ),
        Event3p::Tsumo { actor, pai } => typed_object("tsumo").with("actor", small(*actor)).with("pai", tile_to_json(seen_tile(*pai, *actor, viewer))),
        Event3p::DealerOpening { actor, pai } => typed_object("dealer_opening").with("actor", small(*actor)).with("pai", tile_to_json(seen_tile(*pai, *actor, viewer))),
        Event3p::Dahai { actor, pai, tsumogiri } => typed_object("dahai").with("actor", small(*actor)).with("pai", tile_to_json(*pai)).with("tsumogiri", Json::Bool(*tsumogiri)),
        Event3p::DealerOpeningDahai { actor, pai } => typed_object("dealer_opening_dahai").with("actor", small(*actor)).with("pai", tile_to_json(*pai)),
        Event3p::SeatForcedAutoplay { actor } => typed_object("seat_forced_autoplay").with("actor", small(*actor)),
        Event3p::SeatResumed { actor } => typed_object("seat_resumed").with("actor", small(*actor)),
        Event3p::Pon { actor, target, pai, consumed } => typed_object("pon").with("actor", small(*actor)).with("target", small(*target)).with("pai", tile_to_json(*pai)).with("consumed", tiles_to_json(consumed.as_slice())),
        Event3p::Daiminkan { actor, target, pai, consumed } => typed_object("daiminkan").with("actor", small(*actor)).with("target", small(*target)).with("pai", tile_to_json(*pai)).with("consumed", tiles_to_json(consumed.as_slice())),
        Event3p::Kakan { actor, pai, consumed } => typed_object("kakan").with("actor", small(*actor)).with("pai", tile_to_json(*pai)).with("consumed", tiles_to_json(consumed.as_slice())),
        Event3p::Ankan { actor, consumed } => typed_object("ankan").with("actor", small(*actor)).with("consumed", tiles_to_json(consumed.as_slice())),
        Event3p::Nukidora { actor, pai } => typed_object("nukidora").with("actor", small(*actor)).with("pai", tile_to_json(*pai)),
        Event3p::Dora { dora_marker } => typed_object("dora").with("dora_marker", tile_to_json(*dora_marker)),
        Event3p::Reach { actor } => typed_object("reach").with("actor", small(*actor)),
        Event3p::ReachAccepted { actor } => typed_object("reach_accepted").with("actor", small(*actor)),
        Event3p::Hora { actor, target, deltas, ura_markers, scoring } => typed_object("hora").with("actor", small(*actor)).with(
            "target",
            small(*target),
        ).with("deltas", deltas_to_json_3p(deltas)).with("ura_markers", markers_to_json(ura_markers)).with(
            "scoring",
            scoring_to_json(scoring),
        ),
        Event3p::Ryukyoku { deltas } => typed_object("ryukyoku").with("deltas", deltas_to_json_3p(deltas)),
        Event3p::EndKyoku => typed_object("end_kyoku"),
        Event3p::EndGame => typed_object("end_game"),
    }
}

/// An event as a seat sees it.
pub open spec fn visible_wire_3p(event: Event3p, seat: u8) -> JsonView {
    event_json_3p(event, Some(seat)).with("viewer_seat"@, number(seat as int))
}

/// An event as a seat sees it: concealed tiles of the other seats and the seed of the wall are
/// left out.
pub fn visible_event_3p_to_wire(event: &Event3p, seat: u8) -> (r: Json)
    ensures
        r@ == visible_wire_3p(*event, seat),
        r@ is Object,
{
    event_3p_to_json(event, Some(seat)).with("viewer_seat", small(seat))
}

/// The dealer's opening tile that a seat has seen and that was not discarded since.
pub open spec fn opening_seen_3p(events: Seq<Event3p>, seat: u8, actor: int) -> Option<Tile>
    decreases events.len(),
{
    if events.len() == 0 {
        None
    } else {
        match events.last() {
            Event3p::DealerOpening { actor: a, pai } => if a == actor {
                Some(seen(pai, a, Some(seat)))
            } else {
                opening_seen_3p(events.drop_last(), seat, actor)
            },
            Event3p::DealerOpeningDahai { actor: a, .. } => if a == actor {
                None
            } else {
                opening_seen_3p(events.drop_last(), seat, actor)
            },
            _ => opening_seen_3p(events.drop_last(), seat, actor),
        }
    }
}

/// An event in the first version of the protocol, which knows no dealer opening: its tile is a
/// draw, and its discard a tsumogiri if it is that tile.
pub open spec fn v1_wire_3p(event: Event3p, seat: u8, opened: Option<Tile>) -> JsonView {
    match event {
        Event3p::DealerOpening { .. } => visible_wire_3p(event, seat).with("type"@, JsonView::Text("tsumo"@)),
        Event3p::DealerOpeningDahai { pai, .. } => visible_wire_3p(event, seat).with("type"@, JsonView::Text("dahai"@)).with(
            "tsumogiri"@,
            JsonView::Bool(opened == Some(pai)),
        ),
        _ => visible_wire_3p(event, seat),
    }
}

pub open spec fn opening_actor_3p(event: Event3p) -> int {
    match event {
        Event3p::DealerOpening { actor, .. } => actor as int,
        Event3p::DealerOpeningDahai { actor, .. } => actor as int,
        _ => 0,
    }
}

/// The event stream of a seat. The first version of the protocol has no forced autoplay.
pub open spec fn stream_3p(events: Seq<Event3p>, seat: u8, v1: bool) -> Seq<JsonView>
    decreases events.len(),
{
    if events.len() == 0 {
        Seq::empty()
    } else {
        let rest = stream_3p(events.drop_last(), seat, v1);
        let e = events.last();
        if v1 && (e is SeatForcedAutoplay || e is SeatResumed) {
            rest
        } else if v1 {
            rest.push(v1_wire_3p(e, seat, opening_seen_3p(events.drop_last(), seat, opening_actor_3p(e))))
        } else {
            rest.push(visible_wire_3p(e, seat))
        }
    }
}

/// The dealers of openings are seats of the table.
pub open spec fn openings_seated_3p(events: Seq<Event3p>) -> bool {
    forall|i: int| 0 <= i < events.len() ==> opening_actor_3p(#[trigger] events[i]) < 3
}

fn v1_event_3p(event: &Event3p, seat: u8, opening: &mut [Option<Tile>; 3]) -> (r: Json)
    requires
        opening_actor_3p(*event) < 3,
    ensures
        r@ == v1_wire_3p(*event, seat, old(opening)@[opening_actor_3p(*event)]),
        match *event {
            Event3p::DealerOpening { actor, pai } => final(opening)@ == old(opening)@.update(
                actor as int,
                Some(seen(pai, actor, Some(seat))),
            ),
            Event3p::DealerOpeningDahai { actor, .. } => final(opening)@ == old(opening)@.update(actor as int, None),
            _ => final(opening)@ == old(opening)@,
        },
{
    let wire = visible_event_3p_to_wire(event, seat);
    match event {
        Event3p::DealerOpening { actor, pai } => {
            opening[*actor as usize] = Some(seen_tile(*pai, *actor, Some(seat)));
            wire.with("type", Json::text("tsumo"))
        },
        Event3p::DealerOpeningDahai { actor, pai } => {
            let tsumogiri = match opening[*actor as usize] {
                Some(t) => t == *pai,
                None => false,
            };
            opening[*actor as usize] = None;
            wire.with("type", Json::text("dahai")).with("tsumogiri", Json::Bool(tsumogiri))
        },
        _ => wire,
    }
}

/// The event stream of a seat under a protocol.
pub fn visible_events_3p_to_wire(events: &[Event3p], seat: u8, protocol: &str) -> (r: Vec<Json>)
    requires
        protocol@ == FLYA_INFERENCE_PROTOCOL_V1@ ==> openings_seated_3p(events@),
    ensures
        items_view(r@) == stream_3p(events@, seat, protocol@ == FLYA_INFERENCE_PROTOCOL_V1@),
{
    let v1 = same(protocol, FLYA_INFERENCE_PROTOCOL_V1);
    let mut opening: [Option<Tile>; 3] = [None, None, None];
    let mut out: Vec<Json> = Vec::new();
    let mut i: usize = 0;
    assert(items_view(out@) =~= stream_3p(events@.take(0), seat, v1));
    while i < events.len()
        invariant
            i <= events@.len(),
            v1 ==> openings_seated_3p(events@),
            v1 ==> forall|a: int| 0 <= a < 3 ==> #[trigger] opening@[a] == opening_seen_3p(events@.take(i as int), seat, a),
            items_view(out@) == stream_3p(events@.take(i as int), seat, v1),
        decreases events@.len() - i,
    {
        let ghost now = events@.take(i + 1);
        let ghost before = out@;
        assert(now.drop_last() =~= events@.take(i as int));
        assert(now.last() == events@[i as int]);
        let skip = v1 && matches!(events[i], Event3p::SeatForcedAutoplay { .. } | Event3p::SeatResumed { .. });
        if !skip {
            let wire = if v1 {
                v1_event_3p(&events[i], seat, &mut opening)
            } else {
                visible_event_3p_to_wire(&events[i], seat)
            };
            out.push(wire);
            assert(items_view(out@) =~= items_view(before).push(wire@));
        }
        i = i + 1;
    }
    assert(events@.take(i as int) =~= events@);
    out
}

/// The dealer's opening tile of a seat: the last in the stream.
pub open spec fn opening_tile_3p(events: Seq<Event3p>, seat: u8) -> Option<Tile>
    decreases events.len(),
{
    if events.len() == 0 {
        None
    } else {
        match events.last() {
            Event3p::DealerOpening { actor, pai } => if actor == seat {
                Some(pai)
            } else {
                opening_tile_3p(events.drop_last(), seat)
            },
            _ => opening_tile_3p(events.drop_last(), seat),
        }
    }
}

/// The dealer's opening tile of a seat.
pub fn dealer_opening_tile_3p(events: &[Event3p], seat: u8) -> (r: Option<Tile>)
    ensures
        r == opening_tile_3p(events@, seat),
{
    let mut i: usize = events.len();
    assert(events@.take(i as int) =~= events@);
    while i > 0
        invariant
            i <= events@.len(),
            opening_tile_3p(events@, seat) == opening_tile_3p(events@.take(i as int), seat),
        decreases i,
    {
        assert(events@.take(i as int).drop_last() =~= events@.take(i - 1));
        assert(events@.take(i as int).last() == events@[i - 1]);
        i = i - 1;
        match &events[i] {
            Event3p::DealerOpening { actor, pai } => {
                if *actor == seat {
                    return Some(*pai);
                }
            },
            _ => {},
        }
    }
    None
}

/// A seat is shown nothing of the other seats' concealed tiles: events that differ only there
/// look the same.
pub proof fn hidden_tiles_do_not_show_3p(a: Event3p, b: Event3p, seat: u8)
    requires
        match (a, b) {
            (Event3p::Tsumo { actor, .. }, Event3p::Tsumo { actor: other, .. }) => actor == other && actor != seat,
            (Event3p::DealerOpening { actor, .. }, Event3p::DealerOpening { actor: other, .. }) => actor == other && actor != seat,
            (
                Event3p::StartKyoku { bakaze, dora_marker, kyoku, honba, kyotaku, oya, scores, tehais },
                Event3p::StartKyoku {
                    bakaze: w,
                    dora_marker: m,
                    kyoku: k,
                    honba: h,
                    kyotaku: d,
                    oya: o,
                    scores: s,
                    tehais: t,
                },
            ) => bakaze == w && dora_marker == m && kyoku == k && honba == h && kyotaku == d && oya == o && scores == s && (seat
                < 3 ==> tehais@[seat as int] == t@[seat as int]),
            (Event3p::StartGame { names, .. }, Event3p::StartGame { names: other, .. }) => names == other,
            _ => false,
        },
    ensures
        visible_wire_3p(a, seat) == visible_wire_3p(b, seat),
{
    match (a, b) {
        (Event3p::StartKyoku { tehais, .. }, Event3p::StartKyoku { tehais: t, .. }) => {
            assert(hands_json(tehais@, Some(seat))->Array_0 =~= hands_json(t@, Some(seat))->Array_0);
        },
        _ => {},
    }
}

// Legal actions.

pub open spec fn declines_json(d: ResponseOpportunities) -> JsonView {
    JsonView::object().with("ron"@, JsonView::Bool(d.ron)).with("call"@, JsonView::Bool(d.call))
}

/// What a message says of an action beside its number.
pub open spec fn action_body(a: ActionFacts) -> JsonView {
    let t = typed(wire_type(a));
    match a {
        ActionFacts::Discard { pai, tsumogiri, riichi } => t.with("pai"@, tile_json(pai)).with(
            "tsumogiri"@,
            JsonView::Bool(tsumogiri),
        ).with("riichi"@, JsonView::Bool(riichi)),
        ActionFacts::DealerOpeningDiscard { pai, riichi } => t.with("pai"@, tile_json(pai)).with(
            "riichi"@,
            JsonView::Bool(riichi),
        ),
        ActionFacts::Kan { pai, consumed, .. } => t.with("pai"@, tile_json(pai)).with("consumed"@, tiles_json(consumed)),
        ActionFacts::Nukidora => t,
        ActionFacts::Tsumo { pai } => t.with("pai"@, tile_json(pai)),
        ActionFacts::DealerOpeningTsumo => t,
        ActionFacts::Kyushukyuhai => t,
        ActionFacts::PassAll { declines } => t.with("declines"@, declines_json(declines)),
        ActionFacts::Pon { pai, consumed } => t.with("pai"@, tile_json(pai)).with("consumed"@, tiles_json(consumed)),
        ActionFacts::Chi { pai, consumed } => t.with("pai"@, tile_json(pai)).with("consumed"@, tiles_json(consumed)),
        ActionFacts::Ron { pai, target } => t.with("pai"@, tile_json(pai)).with("target"@, number(target as int)),
    }
}

/// A legal action as a message, with its number in the list.
pub open spec fn action_wire(index: int, a: ActionFacts) -> JsonView {
    action_body(a).with("action_id"@, number(index))
}

fn declines_to_wire(d: ResponseOpportunities) -> (r: Json)
    ensures
        r@ == declines_json(d),
{
    Json::object().with("ron", Json::Bool(d.ron)).with("call", Json::Bool(d.call))
}

fn legal_action_to_wire(index: usize, action: &LegalAction) -> (r: Json)
    ensures
        r@ == action_wire(index as int, action@),
{
    let t = typed_object(action.wire_type());
    let value = match action {
        LegalAction::Discard { pai, tsumogiri, riichi } => t.with("pai", tile_to_json(*pai)).with(
            "tsumogiri",
            Json::Bool(*tsumogiri),
        ).with("riichi", Json::Bool(*riichi)),
        LegalAction::DealerOpeningDiscard { pai, riichi } => t.with("pai", tile_to_json(*pai)).with(
            "riichi",
            Json::Bool(*riichi),
        ),
        LegalAction::Kan { pai, consumed, .. } => t.with("pai", tile_to_json(*pai)).with(
            "consumed",
            tiles_to_json(consumed.as_slice()),
        ),
        LegalAction::Nukidora => t,
        LegalAction::Tsumo { pai } => t.with("pai", tile_to_json(*pai)),
        LegalAction::DealerOpeningTsumo => t,
        LegalAction::Kyushukyuhai => t,
        LegalAction::PassAll { declines } => t.with("declines", declines_to_wire(*declines)),
        LegalAction::Pon { pai, consumed } => t.with("pai", tile_to_json(*pai)).with(
            "consumed",
            tiles_to_json(consumed.as_slice()),
        ),
        LegalAction::Chi { pai, consumed } => t.with("pai", tile_to_json(*pai)).with(
            "consumed",
            tiles_to_json(consumed.as_slice()),
        ),
        LegalAction::Ron { pai, target } => t.with("pai", tile_to_json(*pai)).with("target", small(*target)),
    };
    value.with("action_id", Json::UInt(index as u64))
}

/// A four-player legal action as a message, with its number in the list.
pub fn legal_action_4p_to_wire(index: usize, action: &LegalAction) -> (r: Json)
    requires
        !(action@ is Nukidora),
    ensures
        r@ == action_wire(index as int, action@),
{
    legal_action_to_wire(index, action)
}

/// A three-player legal action as a message, with its number in the list.
pub fn legal_action_3p_to_wire(index: usize, action: &LegalAction) -> (r: Json)
    requires
        !(action@ is Chi),
    ensures
        r@ == action_wire(index as int, action@),
{
    legal_action_to_wire(index, action)
}

/// A legal action under a protocol. The first version knows no dealer opening: its discard and
/// its win name the opening tile as drawn.
pub open spec fn protocol_wire(index: int, a: ActionFacts, v1: bool, opened: Option<Tile>) -> Result<JsonView, Fault> {
    match a {
        ActionFacts::DealerOpeningDiscard { pai, riichi } => if v1 {
            Ok(
                typed("dahai"@).with("pai"@, tile_json(pai)).with("tsumogiri"@, JsonView::Bool(opened == Some(pai))).with(
                    "riichi"@,
                    JsonView::Bool(riichi),
                ).with("action_id"@, number(index)),
            )
        } else {
            Ok(action_wire(index, a))
        },
        ActionFacts::DealerOpeningTsumo => if v1 {
            match opened {
                None => Err(protocol_fault("v1 dealer-opening compatibility requires the opening tile event"@)),
                Some(t) => Ok(typed("tsumo"@).with("pai"@, tile_json(t)).with("action_id"@, number(index))),
            }
        } else {
            Ok(action_wire(index, a))
        },
        _ => Ok(action_wire(index, a)),
    }
}

/// A value or an error, as facts.
pub open spec fn json_result(r: Result<Json, InferenceError>) -> Result<JsonView, Fault> {
    match r {
        Ok(j) => Ok(j@),
        Err(e) => Err(e@),
    }
}

fn legal_action_to_protocol_wire(index: usize, action: &LegalAction, v1: bool, opened: Option<Tile>) -> (r: Result<
    Json,
    InferenceError,
>)
    ensures
        json_result(r) == protocol_wire(index as int, action@, v1, opened),
{
    if !v1 {
        return Ok(legal_action_to_wire(index, action));
    }
    match action {
        LegalAction::DealerOpeningDiscard { pai, riichi } => {
            let tsumogiri = match opened {
                Some(t) => t == *pai,
                None => false,
            };
            Ok(
                typed_object("dahai").with("pai", tile_to_json(*pai)).with("tsumogiri", Json::Bool(tsumogiri)).with(
                    "riichi",
                    Json::Bool(*riichi),
                ).with("action_id", Json::UInt(index as u64)),
            )
        },
        LegalAction::DealerOpeningTsumo => match opened {
            Some(t) => Ok(typed_object("tsumo").with("pai", tile_to_json(t)).with("action_id", Json::UInt(index as u64))),
            None => Err(
                inference_error(
                    InferenceErrorKind::Protocol,
                    "v1 dealer-opening compatibility requires the opening tile event",
                ),
            ),
        },
        _ => Ok(legal_action_to_wire(index, action)),
    }
}

/// The legal actions under a protocol, or the first fault among them.
pub open spec fn actions_wire(actions: Seq<ActionFacts>, v1: bool, opened: Option<Tile>) -> Result<Seq<JsonView>, Fault>
    decreases actions.len(),
{
    if actions.len() == 0 {
        Ok(Seq::empty())
    } else {
        match actions_wire(actions.drop_last(), v1, opened) {
            Err(e) => Err(e),
            Ok(rest) => match protocol_wire(actions.len() - 1, actions.last(), v1, opened) {
                Err(e) => Err(e),
                Ok(j) => Ok(rest.push(j)),
            },
        }
    }
}

/// Values or an error, as facts.
pub open spec fn list_result(r: Result<Vec<Json>, InferenceError>) -> Result<Seq<JsonView>, Fault> {
    match r {
        Ok(v) => Ok(items_view(v@)),
        Err(e) => Err(e@),
    }
}

proof fn lemma_first_fault(actions: Seq<ActionFacts>, n: int, v1: bool, opened: Option<Tile>)
    requires
        0 <= n <= actions.len(),
        actions_wire(actions.take(n), v1, opened) is Err,
    ensures
        actions_wire(actions, v1, opened) == actions_wire(actions.take(n), v1, opened),
    decreases actions.len() - n,
{
    if n == actions.len() {
        assert(actions.take(n) =~= actions);
    } else {
        assert(actions.take(n + 1).drop_last() =~= actions.take(n));
        lemma_first_fault(actions, n + 1, v1, opened);
    }
}

/// The legal actions under a protocol.
pub fn legal_actions_to_protocol_wire(actions: &[LegalAction], protocol: &str, opened: Option<Tile>) -> (r: Result<
    Vec<Json>,
    InferenceError,
>)
    ensures
        list_result(r) == actions_wire(actions_view(actions@), protocol@ == FLYA_INFERENCE_PROTOCOL_V1@, opened),
{
    let v1 = same(protocol, FLYA_INFERENCE_PROTOCOL_V1);
    let ghost all = actions_view(actions@);
    let mut out: Vec<Json> = Vec::new();
    let mut i: usize = 0;
    assert(items_view(out@) =~= Seq::empty());
    while i < actions.len()
        invariant
            i <= actions@.len(),
            all == actions_view(actions@),
            v1 == (protocol@ == FLYA_INFERENCE_PROTOCOL_V1@),
            actions_wire(all.take(i as int), v1, opened) == Ok::<Seq<JsonView>, Fault>(items_view(out@)),
        decreases actions@.len() - i,
    {
        let ghost before = out@;
        assert(all.take(i + 1).drop_last() =~= all.take(i as int));
        assert(all.take(i + 1).last() == actions@[i as int]@);
        match legal_action_to_protocol_wire(i, &actions[i], v1, opened) {
            Ok(j) => {
                out.push(j);
                assert(items_view(out@) =~= items_view(before).push(j@));
            },
            Err(e) => {
                proof { lemma_first_fault(all, i + 1, v1, opened); }
                return Err(e);
            },
        }
        i = i + 1;
    }
    assert(all.take(i as int) =~= all);
    Ok(out)
}

/// Legal actions as messages, numbered.
pub open spec fn plain_actions_wire(actions: Seq<ActionFacts>) -> Seq<JsonView> {
    Seq::new(actions.len(), |i: int| action_wire(i, actions[i]))
}

/// Legal actions as messages, numbered.
pub fn legal_actions_to_wire(actions: &[LegalAction]) -> (r: Vec<Json>)
    ensures
        items_view(r@) == plain_actions_wire(actions_view(actions@)),
{
    let mut out: Vec<Json> = Vec::new();
    let mut i: usize = 0;
    while i < actions.len()
        invariant
            i <= actions@.len(),
            out@.len() == i,
            forall|j: int| 0 <= j < i ==> (#[trigger] out@[j])@ == action_wire(j, actions@[j]@),
        decreases actions@.len() - i,
    {
        out.push(legal_action_to_wire(i, &actions[i]));
        i = i + 1;
    }
    assert(items_view(out@) =~= plain_actions_wire(actions_view(actions@)));
    out
}

} // verus!
