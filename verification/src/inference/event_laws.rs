//! What an engine is shown of an event: every part of it under its own name, and no concealed tile of
//! another seat.

use vstd::prelude::*;
use vstd::string::*;
use crate::event::event3p::Event3p;
use crate::event::event4p::Event4p;
use crate::inference::contract::InferenceErrorKind;
use crate::inference::remote::remote_outcome;
use crate::inference::wire::{
    deltas_json_3p, deltas_json_4p, event_json_3p, event_json_4p, hands_json, markers_json, numbers_json, scoring_json, typed,
    visible_wire_3p, visible_wire_4p,
};
use crate::json::{number, set_member_is_read_back, JsonView};
use crate::mahjong::tile::Tile;

verus! {

proof fn lemma_with(j: JsonView, key: Seq<char>, v: JsonView, other: Seq<char>)
    requires
        j is Object,
    ensures
        j.with(key, v) is Object,
        j.with(key, v).get(other) == if other == key { Some(v) } else { j.get(other) },
{
    set_member_is_read_back(j->Object_0, key, v, other);
}

proof fn lemma_typed(t: Seq<char>, q: Seq<char>)
    ensures
        typed(t) is Object,
        typed(t).get(q) == if q == "type"@ { Some(JsonView::Text(t)) } else { None },
{
    lemma_with(JsonView::object(), "type"@, JsonView::Text(t), q);
}

spec fn is_key(s: Seq<char>, len: int, a: char) -> bool {
    s.len() == len && s[0] == a
}

proof fn lemma_keys()
    ensures
        is_key("type"@, 4, 't'),
        is_key("actor"@, 5, 'a'),
        is_key("target"@, 6, 't'),
        is_key("pai"@, 3, 'p'),
        is_key("consumed"@, 8, 'c'),
        is_key("tsumogiri"@, 9, 't'),
        is_key("deltas"@, 6, 'd'),
        is_key("ura_markers"@, 11, 'u'),
        is_key("scoring"@, 7, 's'),
        is_key("dora_marker"@, 11, 'd'),
        is_key("bakaze"@, 6, 'b'),
        is_key("kyoku"@, 5, 'k'),
        is_key("honba"@, 5, 'h'),
        is_key("kyotaku"@, 7, 'k'),
        is_key("oya"@, 3, 'o'),
        is_key("scores"@, 6, 's'),
        is_key("tehais"@, 6, 't'),
        is_key("viewer_seat"@, 11, 'v'),
        is_key("names"@, 5, 'n'),
        is_key("seed"@, 4, 's'),
        "target"@[1] == 'a',
        "tehais"@[1] == 'e',
{
    reveal_strlit("type");
    reveal_strlit("actor");
    reveal_strlit("target");
    reveal_strlit("pai");
    reveal_strlit("consumed");
    reveal_strlit("tsumogiri");
    reveal_strlit("deltas");
    reveal_strlit("ura_markers");
    reveal_strlit("scoring");
    reveal_strlit("dora_marker");
    reveal_strlit("bakaze");
    reveal_strlit("kyoku");
    reveal_strlit("honba");
    reveal_strlit("kyotaku");
    reveal_strlit("oya");
    reveal_strlit("scores");
    reveal_strlit("tehais");
    reveal_strlit("viewer_seat");
    reveal_strlit("names");
    reveal_strlit("seed");
}

proof fn lemma_2(j: JsonView, k1: Seq<char>, v1: JsonView, k2: Seq<char>, v2: JsonView, q: Seq<char>)
    requires
        j is Object,
    ensures
        ({
            let r = j.with(k1, v1).with(k2, v2);
            &&& r is Object
            &&& r.get(q) == if q == k2 {
                Some(v2)
            } else if q == k1 {
                Some(v1)
            } else {
                j.get(q)
            }
        }),
{
    lemma_with(j, k1, v1, q);
    lemma_with(j.with(k1, v1), k2, v2, q);
}

proof fn lemma_3(j: JsonView, k1: Seq<char>, v1: JsonView, k2: Seq<char>, v2: JsonView, k3: Seq<char>, v3: JsonView, q: Seq<char>)
    requires
        j is Object,
    ensures
        ({
            let r = j.with(k1, v1).with(k2, v2).with(k3, v3);
            &&& r is Object
            &&& r.get(q) == if q == k3 {
                Some(v3)
            } else if q == k2 {
                Some(v2)
            } else if q == k1 {
                Some(v1)
            } else {
                j.get(q)
            }
        }),
{
    lemma_with(j, k1, v1, q);
    lemma_with(j.with(k1, v1), k2, v2, q);
    lemma_with(j.with(k1, v1).with(k2, v2), k3, v3, q);
}

proof fn lemma_4(j: JsonView, k1: Seq<char>, v1: JsonView, k2: Seq<char>, v2: JsonView, k3: Seq<char>, v3: JsonView, k4: Seq<char>, v4: JsonView, q: Seq<char>)
    requires
        j is Object,
    ensures
        ({
            let r = j.with(k1, v1).with(k2, v2).with(k3, v3).with(k4, v4);
            &&& r is Object
            &&& r.get(q) == if q == k4 {
                Some(v4)
            } else if q == k3 {
                Some(v3)
            } else if q == k2 {
                Some(v2)
            } else if q == k1 {
                Some(v1)
            } else {
                j.get(q)
            }
        }),
{
    lemma_with(j, k1, v1, q);
    lemma_with(j.with(k1, v1), k2, v2, q);
    lemma_with(j.with(k1, v1).with(k2, v2), k3, v3, q);
    lemma_with(j.with(k1, v1).with(k2, v2).with(k3, v3), k4, v4, q);
}

proof fn lemma_5(j: JsonView, k1: Seq<char>, v1: JsonView, k2: Seq<char>, v2: JsonView, k3: Seq<char>, v3: JsonView, k4: Seq<char>, v4: JsonView, k5: Seq<char>, v5: JsonView, q: Seq<char>)
    requires
        j is Object,
    ensures
        ({
            let r = j.with(k1, v1).with(k2, v2).with(k3, v3).with(k4, v4).with(k5, v5);
            &&& r is Object
            &&& r.get(q) == if q == k5 {
                Some(v5)
            } else if q == k4 {
                Some(v4)
            } else if q == k3 {
                Some(v3)
            } else if q == k2 {
                Some(v2)
            } else if q == k1 {
                Some(v1)
            } else {
                j.get(q)
            }
        }),
{
    lemma_with(j, k1, v1, q);
    lemma_with(j.with(k1, v1), k2, v2, q);
    lemma_with(j.with(k1, v1).with(k2, v2), k3, v3, q);
    lemma_with(j.with(k1, v1).with(k2, v2).with(k3, v3), k4, v4, q);
    lemma_with(j.with(k1, v1).with(k2, v2).with(k3, v3).with(k4, v4), k5, v5, q);
}

proof fn lemma_8(j: JsonView, k1: Seq<char>, v1: JsonView, k2: Seq<char>, v2: JsonView, k3: Seq<char>, v3: JsonView, k4: Seq<char>, v4: JsonView, k5: Seq<char>, v5: JsonView, k6: Seq<char>, v6: JsonView, k7: Seq<char>, v7: JsonView, k8: Seq<char>, v8: JsonView, q: Seq<char>)
    requires
        j is Object,
    ensures
        ({
            let r = j.with(k1, v1).with(k2, v2).with(k3, v3).with(k4, v4).with(k5, v5).with(k6, v6).with(k7, v7).with(k8, v8);
            &&& r is Object
            &&& r.get(q) == if q == k8 {
                Some(v8)
            } else if q == k7 {
                Some(v7)
            } else if q == k6 {
                Some(v6)
            } else if q == k5 {
                Some(v5)
            } else if q == k4 {
                Some(v4)
            } else if q == k3 {
                Some(v3)
            } else if q == k2 {
                Some(v2)
            } else if q == k1 {
                Some(v1)
            } else {
                j.get(q)
            }
        }),
{
    lemma_with(j, k1, v1, q);
    lemma_with(j.with(k1, v1), k2, v2, q);
    lemma_with(j.with(k1, v1).with(k2, v2), k3, v3, q);
    lemma_with(j.with(k1, v1).with(k2, v2).with(k3, v3), k4, v4, q);
    lemma_with(j.with(k1, v1).with(k2, v2).with(k3, v3).with(k4, v4), k5, v5, q);
    lemma_with(j.with(k1, v1).with(k2, v2).with(k3, v3).with(k4, v4).with(k5, v5), k6, v6, q);
    lemma_with(j.with(k1, v1).with(k2, v2).with(k3, v3).with(k4, v4).with(k5, v5).with(k6, v6), k7, v7, q);
    lemma_with(j.with(k1, v1).with(k2, v2).with(k3, v3).with(k4, v4).with(k5, v5).with(k6, v6).with(k7, v7), k8, v8, q);
}

/// A tile by its name.
pub open spec fn named(t: Tile) -> JsonView {
    JsonView::Text(t.spec_name())
}

/// Tiles by their names.
pub open spec fn all_named(tiles: Seq<Tile>) -> JsonView {
    JsonView::Array(Seq::new(tiles.len(), |i: int| named(tiles[i])))
}

/// A concealed tile as a viewer sees it: by its name where it is the viewer's own, else unknown.
pub open spec fn concealed(t: Tile, actor: u8, viewer: Option<u8>) -> JsonView {
    if viewer is None || viewer->0 == actor { named(t) } else { named(Tile::unknown()) }
}

/// What an event is called in a message.
pub open spec fn type_of_4p(event: Event4p) -> Seq<char> {
    match event {
        Event4p::Nothing => "none"@,
        Event4p::EndKyoku => "end_kyoku"@,
        Event4p::EndGame => "end_game"@,
        Event4p::StartGame { .. } => "start_game"@,
        Event4p::StartKyoku { .. } => "start_kyoku"@,
        Event4p::Tsumo { .. } => "tsumo"@,
        Event4p::DealerOpening { .. } => "dealer_opening"@,
        Event4p::Dahai { .. } => "dahai"@,
        Event4p::DealerOpeningDahai { .. } => "dealer_opening_dahai"@,
        Event4p::SeatForcedAutoplay { .. } => "seat_forced_autoplay"@,
        Event4p::SeatResumed { .. } => "seat_resumed"@,
        Event4p::Chi { .. } => "chi"@,
        Event4p::Pon { .. } => "pon"@,
        Event4p::Daiminkan { .. } => "daiminkan"@,
        Event4p::Kakan { .. } => "kakan"@,
        Event4p::Ankan { .. } => "ankan"@,
        Event4p::Dora { .. } => "dora"@,
        Event4p::Reach { .. } => "reach"@,
        Event4p::ReachAccepted { .. } => "reach_accepted"@,
        Event4p::Hora { .. } => "hora"@,
        Event4p::Ryukyoku { .. } => "ryukyoku"@,
    }
}

/// An event is sent with its type, and with each of its parts under the name of that part; a drawn tile of
/// another seat is sent as unknown.
#[verifier::rlimit(60)]
pub proof fn events_are_sent_part_by_part_4p(event: Event4p, viewer: Option<u8>)
    ensures
        ({
            let j = event_json_4p(event, viewer);
            &&& j.text_at("type"@) == Some(type_of_4p(event))
            &&& match event {
                Event4p::Tsumo { actor, pai } => {
                    &&& j.get("actor"@) == Some(number(actor as int))
                    &&& j.get("pai"@) == Some(concealed(pai, actor, viewer))
                },
                Event4p::DealerOpening { actor, pai } => {
                    &&& j.get("actor"@) == Some(number(actor as int))
                    &&& j.get("pai"@) == Some(concealed(pai, actor, viewer))
                },
                Event4p::Dahai { actor, pai, tsumogiri } => {
                    &&& j.get("actor"@) == Some(number(actor as int))
                    &&& j.get("pai"@) == Some(named(pai))
                    &&& j.get("tsumogiri"@) == Some(JsonView::Bool(tsumogiri))
                },
                Event4p::DealerOpeningDahai { actor, pai } => {
                    &&& j.get("actor"@) == Some(number(actor as int))
                    &&& j.get("pai"@) == Some(named(pai))
                },
                Event4p::Chi { actor, target, pai, consumed } => {
                    &&& j.get("actor"@) == Some(number(actor as int))
                    &&& j.get("target"@) == Some(number(target as int))
                    &&& j.get("pai"@) == Some(named(pai))
                    &&& j.get("consumed"@) == Some(all_named(consumed@))
                },
                Event4p::Pon { actor, target, pai, consumed } => {
                    &&& j.get("actor"@) == Some(number(actor as int))
                    &&& j.get("target"@) == Some(number(target as int))
                    &&& j.get("pai"@) == Some(named(pai))
                    &&& j.get("consumed"@) == Some(all_named(consumed@))
                },
                Event4p::Daiminkan { actor, target, pai, consumed } => {
                    &&& j.get("actor"@) == Some(number(actor as int))
                    &&& j.get("target"@) == Some(number(target as int))
                    &&& j.get("pai"@) == Some(named(pai))
                    &&& j.get("consumed"@) == Some(all_named(consumed@))
                },
                Event4p::Kakan { actor, pai, consumed } => {
                    &&& j.get("actor"@) == Some(number(actor as int))
                    &&& j.get("pai"@) == Some(named(pai))
                    &&& j.get("consumed"@) == Some(all_named(consumed@))
                },
                Event4p::Ankan { actor, consumed } => {
                    &&& j.get("actor"@) == Some(number(actor as int))
                    &&& j.get("consumed"@) == Some(all_named(consumed@))
                },
                Event4p::Hora { actor, target, deltas, ura_markers, scoring } => {
                    &&& j.get("actor"@) == Some(number(actor as int))
                    &&& j.get("target"@) == Some(number(target as int))
                    &&& j.get("deltas"@) == Some(deltas_json_4p(deltas))
                    &&& j.get("ura_markers"@) == Some(markers_json(ura_markers))
                    &&& j.get("scoring"@) == Some(scoring_json(scoring))
                },
                Event4p::StartKyoku { bakaze, dora_marker, kyoku, honba, kyotaku, oya, scores, tehais } => {
                    &&& j.get("bakaze"@) == Some(named(bakaze))
                    &&& j.get("dora_marker"@) == Some(named(dora_marker))
                    &&& j.get("kyoku"@) == Some(number(kyoku as int))
                    &&& j.get("honba"@) == Some(number(honba as int))
                    &&& j.get("kyotaku"@) == Some(number(kyotaku as int))
                    &&& j.get("oya"@) == Some(number(oya as int))
                    &&& j.get("scores"@) == Some(numbers_json(scores@))
                    &&& j.get("tehais"@) == Some(hands_json(tehais@, viewer))
                },
                Event4p::Dora { dora_marker } => j.get("dora_marker"@) == Some(named(dora_marker)),
                Event4p::Reach { actor } => j.get("actor"@) == Some(number(actor as int)),
                Event4p::ReachAccepted { actor } => j.get("actor"@) == Some(number(actor as int)),
                Event4p::SeatForcedAutoplay { actor } => j.get("actor"@) == Some(number(actor as int)),
                Event4p::SeatResumed { actor } => j.get("actor"@) == Some(number(actor as int)),
                Event4p::Ryukyoku { deltas } => j.get("deltas"@) == Some(deltas_json_4p(deltas)),
                _ => true,
            }
        }),
{
    lemma_keys();
    let t = type_of_4p(event);
    let o = typed(t);
    lemma_typed(t, "actor"@);
    lemma_typed(t, "bakaze"@);
    lemma_typed(t, "consumed"@);
    lemma_typed(t, "deltas"@);
    lemma_typed(t, "dora_marker"@);
    lemma_typed(t, "honba"@);
    lemma_typed(t, "kyoku"@);
    lemma_typed(t, "kyotaku"@);
    lemma_typed(t, "oya"@);
    lemma_typed(t, "pai"@);
    lemma_typed(t, "scores"@);
    lemma_typed(t, "scoring"@);
    lemma_typed(t, "target"@);
    lemma_typed(t, "tehais"@);
    lemma_typed(t, "tsumogiri"@);
    lemma_typed(t, "type"@);
    lemma_typed(t, "ura_markers"@);
    match event {
        Event4p::Tsumo { actor, pai } => {
            lemma_2(o, "actor"@, number(actor as int), "pai"@, concealed(pai, actor, viewer), "type"@);
            lemma_2(o, "actor"@, number(actor as int), "pai"@, concealed(pai, actor, viewer), "actor"@);
            lemma_2(o, "actor"@, number(actor as int), "pai"@, concealed(pai, actor, viewer), "pai"@);
        },
        Event4p::DealerOpening { actor, pai } => {
            lemma_2(o, "actor"@, number(actor as int), "pai"@, concealed(pai, actor, viewer), "type"@);
            lemma_2(o, "actor"@, number(actor as int), "pai"@, concealed(pai, actor, viewer), "actor"@);
            lemma_2(o, "actor"@, number(actor as int), "pai"@, concealed(pai, actor, viewer), "pai"@);
        },
        Event4p::Dahai { actor, pai, tsumogiri } => {
            lemma_3(o, "actor"@, number(actor as int), "pai"@, named(pai), "tsumogiri"@, JsonView::Bool(tsumogiri), "type"@);
            lemma_3(o, "actor"@, number(actor as int), "pai"@, named(pai), "tsumogiri"@, JsonView::Bool(tsumogiri), "actor"@);
            lemma_3(o, "actor"@, number(actor as int), "pai"@, named(pai), "tsumogiri"@, JsonView::Bool(tsumogiri), "pai"@);
            lemma_3(o, "actor"@, number(actor as int), "pai"@, named(pai), "tsumogiri"@, JsonView::Bool(tsumogiri), "tsumogiri"@);
        },
        Event4p::DealerOpeningDahai { actor, pai } => {
            lemma_2(o, "actor"@, number(actor as int), "pai"@, named(pai), "type"@);
            lemma_2(o, "actor"@, number(actor as int), "pai"@, named(pai), "actor"@);
            lemma_2(o, "actor"@, number(actor as int), "pai"@, named(pai), "pai"@);
        },
        Event4p::Chi { actor, target, pai, consumed } => {
            assert(crate::inference::wire::tiles_json(consumed@)->Array_0 =~= all_named(consumed@)->Array_0);
            lemma_4(o, "actor"@, number(actor as int), "target"@, number(target as int), "pai"@, named(pai), "consumed"@, all_named(consumed@), "type"@);
            lemma_4(o, "actor"@, number(actor as int), "target"@, number(target as int), "pai"@, named(pai), "consumed"@, all_named(consumed@), "actor"@);
            lemma_4(o, "actor"@, number(actor as int), "target"@, number(target as int), "pai"@, named(pai), "consumed"@, all_named(consumed@), "target"@);
            lemma_4(o, "actor"@, number(actor as int), "target"@, number(target as int), "pai"@, named(pai), "consumed"@, all_named(consumed@), "pai"@);
            lemma_4(o, "actor"@, number(actor as int), "target"@, number(target as int), "pai"@, named(pai), "consumed"@, all_named(consumed@), "consumed"@);
        },
        Event4p::Pon { actor, target, pai, consumed } => {
            assert(crate::inference::wire::tiles_json(consumed@)->Array_0 =~= all_named(consumed@)->Array_0);
            lemma_4(o, "actor"@, number(actor as int), "target"@, number(target as int), "pai"@, named(pai), "consumed"@, all_named(consumed@), "type"@);
            lemma_4(o, "actor"@, number(actor as int), "target"@, number(target as int), "pai"@, named(pai), "consumed"@, all_named(consumed@), "actor"@);
            lemma_4(o, "actor"@, number(actor as int), "target"@, number(target as int), "pai"@, named(pai), "consumed"@, all_named(consumed@), "target"@);
            lemma_4(o, "actor"@, number(actor as int), "target"@, number(target as int), "pai"@, named(pai), "consumed"@, all_named(consumed@), "pai"@);
            lemma_4(o, "actor"@, number(actor as int), "target"@, number(target as int), "pai"@, named(pai), "consumed"@, all_named(consumed@), "consumed"@);
        },
        Event4p::Daiminkan { actor, target, pai, consumed } => {
            assert(crate::inference::wire::tiles_json(consumed@)->Array_0 =~= all_named(consumed@)->Array_0);
            lemma_4(o, "actor"@, number(actor as int), "target"@, number(target as int), "pai"@, named(pai), "consumed"@, all_named(consumed@), "type"@);
            lemma_4(o, "actor"@, number(actor as int), "target"@, number(target as int), "pai"@, named(pai), "consumed"@, all_named(consumed@), "actor"@);
            lemma_4(o, "actor"@, number(actor as int), "target"@, number(target as int), "pai"@, named(pai), "consumed"@, all_named(consumed@), "target"@);
            lemma_4(o, "actor"@, number(actor as int), "target"@, number(target as int), "pai"@, named(pai), "consumed"@, all_named(consumed@), "pai"@);
            lemma_4(o, "actor"@, number(actor as int), "target"@, number(target as int), "pai"@, named(pai), "consumed"@, all_named(consumed@), "consumed"@);
        },
        Event4p::Kakan { actor, pai, consumed } => {
            assert(crate::inference::wire::tiles_json(consumed@)->Array_0 =~= all_named(consumed@)->Array_0);
            lemma_3(o, "actor"@, number(actor as int), "pai"@, named(pai), "consumed"@, all_named(consumed@), "type"@);
            lemma_3(o, "actor"@, number(actor as int), "pai"@, named(pai), "consumed"@, all_named(consumed@), "actor"@);
            lemma_3(o, "actor"@, number(actor as int), "pai"@, named(pai), "consumed"@, all_named(consumed@), "pai"@);
            lemma_3(o, "actor"@, number(actor as int), "pai"@, named(pai), "consumed"@, all_named(consumed@), "consumed"@);
        },
        Event4p::Ankan { actor, consumed } => {
            assert(crate::inference::wire::tiles_json(consumed@)->Array_0 =~= all_named(consumed@)->Array_0);
            lemma_2(o, "actor"@, number(actor as int), "consumed"@, all_named(consumed@), "type"@);
            lemma_2(o, "actor"@, number(actor as int), "consumed"@, all_named(consumed@), "actor"@);
            lemma_2(o, "actor"@, number(actor as int), "consumed"@, all_named(consumed@), "consumed"@);
        },
        Event4p::Hora { actor, target, deltas, ura_markers, scoring } => {
            lemma_5(o, "actor"@, number(actor as int), "target"@, number(target as int), "deltas"@, deltas_json_4p(deltas), "ura_markers"@, markers_json(ura_markers), "scoring"@, scoring_json(scoring), "type"@);
            lemma_5(o, "actor"@, number(actor as int), "target"@, number(target as int), "deltas"@, deltas_json_4p(deltas), "ura_markers"@, markers_json(ura_markers), "scoring"@, scoring_json(scoring), "actor"@);
            lemma_5(o, "actor"@, number(actor as int), "target"@, number(target as int), "deltas"@, deltas_json_4p(deltas), "ura_markers"@, markers_json(ura_markers), "scoring"@, scoring_json(scoring), "target"@);
            lemma_5(o, "actor"@, number(actor as int), "target"@, number(target as int), "deltas"@, deltas_json_4p(deltas), "ura_markers"@, markers_json(ura_markers), "scoring"@, scoring_json(scoring), "deltas"@);
            lemma_5(o, "actor"@, number(actor as int), "target"@, number(target as int), "deltas"@, deltas_json_4p(deltas), "ura_markers"@, markers_json(ura_markers), "scoring"@, scoring_json(scoring), "ura_markers"@);
            lemma_5(o, "actor"@, number(actor as int), "target"@, number(target as int), "deltas"@, deltas_json_4p(deltas), "ura_markers"@, markers_json(ura_markers), "scoring"@, scoring_json(scoring), "scoring"@);
        },
        Event4p::StartKyoku { bakaze, dora_marker, kyoku, honba, kyotaku, oya, scores, tehais } => {
            lemma_8(o, "bakaze"@, named(bakaze), "dora_marker"@, named(dora_marker), "kyoku"@, number(kyoku as int), "honba"@, number(honba as int), "kyotaku"@, number(kyotaku as int), "oya"@, number(oya as int), "scores"@, numbers_json(scores@), "tehais"@, hands_json(tehais@, viewer), "type"@);
            lemma_8(o, "bakaze"@, named(bakaze), "dora_marker"@, named(dora_marker), "kyoku"@, number(kyoku as int), "honba"@, number(honba as int), "kyotaku"@, number(kyotaku as int), "oya"@, number(oya as int), "scores"@, numbers_json(scores@), "tehais"@, hands_json(tehais@, viewer), "bakaze"@);
            lemma_8(o, "bakaze"@, named(bakaze), "dora_marker"@, named(dora_marker), "kyoku"@, number(kyoku as int), "honba"@, number(honba as int), "kyotaku"@, number(kyotaku as int), "oya"@, number(oya as int), "scores"@, numbers_json(scores@), "tehais"@, hands_json(tehais@, viewer), "dora_marker"@);
            lemma_8(o, "bakaze"@, named(bakaze), "dora_marker"@, named(dora_marker), "kyoku"@, number(kyoku as int), "honba"@, number(honba as int), "kyotaku"@, number(kyotaku as int), "oya"@, number(oya as int), "scores"@, numbers_json(scores@), "tehais"@, hands_json(tehais@, viewer), "kyoku"@);
            lemma_8(o, "bakaze"@, named(bakaze), "dora_marker"@, named(dora_marker), "kyoku"@, number(kyoku as int), "honba"@, number(honba as int), "kyotaku"@, number(kyotaku as int), "oya"@, number(oya as int), "scores"@, numbers_json(scores@), "tehais"@, hands_json(tehais@, viewer), "honba"@);
            lemma_8(o, "bakaze"@, named(bakaze), "dora_marker"@, named(dora_marker), "kyoku"@, number(kyoku as int), "honba"@, number(honba as int), "kyotaku"@, number(kyotaku as int), "oya"@, number(oya as int), "scores"@, numbers_json(scores@), "tehais"@, hands_json(tehais@, viewer), "kyotaku"@);
            lemma_8(o, "bakaze"@, named(bakaze), "dora_marker"@, named(dora_marker), "kyoku"@, number(kyoku as int), "honba"@, number(honba as int), "kyotaku"@, number(kyotaku as int), "oya"@, number(oya as int), "scores"@, numbers_json(scores@), "tehais"@, hands_json(tehais@, viewer), "oya"@);
            lemma_8(o, "bakaze"@, named(bakaze), "dora_marker"@, named(dora_marker), "kyoku"@, number(kyoku as int), "honba"@, number(honba as int), "kyotaku"@, number(kyotaku as int), "oya"@, number(oya as int), "scores"@, numbers_json(scores@), "tehais"@, hands_json(tehais@, viewer), "scores"@);
            lemma_8(o, "bakaze"@, named(bakaze), "dora_marker"@, named(dora_marker), "kyoku"@, number(kyoku as int), "honba"@, number(honba as int), "kyotaku"@, number(kyotaku as int), "oya"@, number(oya as int), "scores"@, numbers_json(scores@), "tehais"@, hands_json(tehais@, viewer), "tehais"@);
        },
        Event4p::Dora { dora_marker } => {
            lemma_with(o, "dora_marker"@, named(dora_marker), "type"@);
            lemma_with(o, "dora_marker"@, named(dora_marker), "dora_marker"@);
        },
        Event4p::Reach { actor } => {
            lemma_with(o, "actor"@, number(actor as int), "type"@);
            lemma_with(o, "actor"@, number(actor as int), "actor"@);
        },
        Event4p::ReachAccepted { actor } => {
            lemma_with(o, "actor"@, number(actor as int), "type"@);
            lemma_with(o, "actor"@, number(actor as int), "actor"@);
        },
        Event4p::SeatForcedAutoplay { actor } => {
            lemma_with(o, "actor"@, number(actor as int), "type"@);
            lemma_with(o, "actor"@, number(actor as int), "actor"@);
        },
        Event4p::SeatResumed { actor } => {
            lemma_with(o, "actor"@, number(actor as int), "type"@);
            lemma_with(o, "actor"@, number(actor as int), "actor"@);
        },
        Event4p::Ryukyoku { deltas } => {
            lemma_with(o, "deltas"@, deltas_json_4p(deltas), "type"@);
            lemma_with(o, "deltas"@, deltas_json_4p(deltas), "deltas"@);
        },
        Event4p::StartGame { names, seed } => {
            lemma_with(o, "names"@, crate::inference::wire::names_json(names@), "type"@);
            lemma_with(
                o.with("names"@, crate::inference::wire::names_json(names@)),
                "seed"@,
                crate::inference::wire::seed_json(seed),
                "type"@,
            );
        },
        _ => {},
    }
}

/// What an event is called in a message.
pub open spec fn type_of_3p(event: Event3p) -> Seq<char> {
    match event {
        Event3p::Nothing => "none"@,
        Event3p::EndKyoku => "end_kyoku"@,
        Event3p::EndGame => "end_game"@,
        Event3p::StartGame { .. } => "start_game"@,
        Event3p::StartKyoku { .. } => "start_kyoku"@,
        Event3p::Tsumo { .. } => "tsumo"@,
        Event3p::DealerOpening { .. } => "dealer_opening"@,
        Event3p::Dahai { .. } => "dahai"@,
        Event3p::DealerOpeningDahai { .. } => "dealer_opening_dahai"@,
        Event3p::SeatForcedAutoplay { .. } => "seat_forced_autoplay"@,
        Event3p::SeatResumed { .. } => "seat_resumed"@,
        Event3p::Pon { .. } => "pon"@,
        Event3p::Daiminkan { .. } => "daiminkan"@,
        Event3p::Kakan { .. } => "kakan"@,
        Event3p::Ankan { .. } => "ankan"@,
        Event3p::Nukidora { .. } => "nukidora"@,
        Event3p::Dora { .. } => "dora"@,
        Event3p::Reach { .. } => "reach"@,
        Event3p::ReachAccepted { .. } => "reach_accepted"@,
        Event3p::Hora { .. } => "hora"@,
        Event3p::Ryukyoku { .. } => "ryukyoku"@,
    }
}

/// An event is sent with its type, and with each of its parts under the name of that part; a drawn tile of
/// another seat is sent as unknown.
#[verifier::rlimit(60)]
pub proof fn events_are_sent_part_by_part_3p(event: Event3p, viewer: Option<u8>)
    ensures
        ({
            let j = event_json_3p(event, viewer);
            &&& j.text_at("type"@) == Some(type_of_3p(event))
            &&& match event {
                Event3p::Tsumo { actor, pai } => {
                    &&& j.get("actor"@) == Some(number(actor as int))
                    &&& j.get("pai"@) == Some(concealed(pai, actor, viewer))
                },
                Event3p::DealerOpening { actor, pai } => {
                    &&& j.get("actor"@) == Some(number(actor as int))
                    &&& j.get("pai"@) == Some(concealed(pai, actor, viewer))
                },
                Event3p::Dahai { actor, pai, tsumogiri } => {
                    &&& j.get("actor"@) == Some(number(actor as int))
                    &&& j.get("pai"@) == Some(named(pai))
                    &&& j.get("tsumogiri"@) == Some(JsonView::Bool(tsumogiri))
                },
                Event3p::DealerOpeningDahai { actor, pai } => {
                    &&& j.get("actor"@) == Some(number(actor as int))
                    &&& j.get("pai"@) == Some(named(pai))
                },
                Event3p::Pon { actor, target, pai, consumed } => {
                    &&& j.get("actor"@) == Some(number(actor as int))
                    &&& j.get("target"@) == Some(number(target as int))
                    &&& j.get("pai"@) == Some(named(pai))
                    &&& j.get("consumed"@) == Some(all_named(consumed@))
                },
                Event3p::Daiminkan { actor, target, pai, consumed } => {
                    &&& j.get("actor"@) == Some(number(actor as int))
                    &&& j.get("target"@) == Some(number(target as int))
                    &&& j.get("pai"@) == Some(named(pai))
                    &&& j.get("consumed"@) == Some(all_named(consumed@))
                },
                Event3p::Kakan { actor, pai, consumed } => {
                    &&& j.get("actor"@) == Some(number(actor as int))
                    &&& j.get("pai"@) == Some(named(pai))
                    &&& j.get("consumed"@) == Some(all_named(consumed@))
                },
                Event3p::Ankan { actor, consumed } => {
                    &&& j.get("actor"@) == Some(number(actor as int))
                    &&& j.get("consumed"@) == Some(all_named(consumed@))
                },
                Event3p::Nukidora { actor, pai } => {
                    &&& j.get("actor"@) == Some(number(actor as int))
                    &&& j.get("pai"@) == Some(named(pai))
                },
                Event3p::Hora { actor, target, deltas, ura_markers, scoring } => {
                    &&& j.get("actor"@) == Some(number(actor as int))
                    &&& j.get("target"@) == Some(number(target as int))
                    &&& j.get("deltas"@) == Some(deltas_json_3p(deltas))
                    &&& j.get("ura_markers"@) == Some(markers_json(ura_markers))
                    &&& j.get("scoring"@) == Some(scoring_json(scoring))
                },
                Event3p::StartKyoku { bakaze, dora_marker, kyoku, honba, kyotaku, oya, scores, tehais } => {
                    &&& j.get("bakaze"@) == Some(named(bakaze))
                    &&& j.get("dora_marker"@) == Some(named(dora_marker))
                    &&& j.get("kyoku"@) == Some(number(kyoku as int))
                    &&& j.get("honba"@) == Some(number(honba as int))
                    &&& j.get("kyotaku"@) == Some(number(kyotaku as int))
                    &&& j.get("oya"@) == Some(number(oya as int))
                    &&& j.get("scores"@) == Some(numbers_json(scores@))
                    &&& j.get("tehais"@) == Some(hands_json(tehais@, viewer))
                },
                Event3p::Dora { dora_marker } => j.get("dora_marker"@) == Some(named(dora_marker)),
                Event3p::Reach { actor } => j.get("actor"@) == Some(number(actor as int)),
                Event3p::ReachAccepted { actor } => j.get("actor"@) == Some(number(actor as int)),
                Event3p::SeatForcedAutoplay { actor } => j.get("actor"@) == Some(number(actor as int)),
                Event3p::SeatResumed { actor } => j.get("actor"@) == Some(number(actor as int)),
                Event3p::Ryukyoku { deltas } => j.get("deltas"@) == Some(deltas_json_3p(deltas)),
                _ => true,
            }
        }),
{
    lemma_keys();
    let t = type_of_3p(event);
    let o = typed(t);
    lemma_typed(t, "actor"@);
    lemma_typed(t, "bakaze"@);
    lemma_typed(t, "consumed"@);
    lemma_typed(t, "deltas"@);
    lemma_typed(t, "dora_marker"@);
    lemma_typed(t, "honba"@);
    lemma_typed(t, "kyoku"@);
    lemma_typed(t, "kyotaku"@);
    lemma_typed(t, "oya"@);
    lemma_typed(t, "pai"@);
    lemma_typed(t, "scores"@);
    lemma_typed(t, "scoring"@);
    lemma_typed(t, "target"@);
    lemma_typed(t, "tehais"@);
    lemma_typed(t, "tsumogiri"@);
    lemma_typed(t, "type"@);
    lemma_typed(t, "ura_markers"@);
    match event {
        Event3p::Tsumo { actor, pai } => {
            lemma_2(o, "actor"@, number(actor as int), "pai"@, concealed(pai, actor, viewer), "type"@);
            lemma_2(o, "actor"@, number(actor as int), "pai"@, concealed(pai, actor, viewer), "actor"@);
            lemma_2(o, "actor"@, number(actor as int), "pai"@, concealed(pai, actor, viewer), "pai"@);
        },
        Event3p::DealerOpening { actor, pai } => {
            lemma_2(o, "actor"@, number(actor as int), "pai"@, concealed(pai, actor, viewer), "type"@);
            lemma_2(o, "actor"@, number(actor as int), "pai"@, concealed(pai, actor, viewer), "actor"@);
            lemma_2(o, "actor"@, number(actor as int), "pai"@, concealed(pai, actor, viewer), "pai"@);
        },
        Event3p::Dahai { actor, pai, tsumogiri } => {
            lemma_3(o, "actor"@, number(actor as int), "pai"@, named(pai), "tsumogiri"@, JsonView::Bool(tsumogiri), "type"@);
            lemma_3(o, "actor"@, number(actor as int), "pai"@, named(pai), "tsumogiri"@, JsonView::Bool(tsumogiri), "actor"@);
            lemma_3(o, "actor"@, number(actor as int), "pai"@, named(pai), "tsumogiri"@, JsonView::Bool(tsumogiri), "pai"@);
            lemma_3(o, "actor"@, number(actor as int), "pai"@, named(pai), "tsumogiri"@, JsonView::Bool(tsumogiri), "tsumogiri"@);
        },
        Event3p::DealerOpeningDahai { actor, pai } => {
            lemma_2(o, "actor"@, number(actor as int), "pai"@, named(pai), "type"@);
            lemma_2(o, "actor"@, number(actor as int), "pai"@, named(pai), "actor"@);
            lemma_2(o, "actor"@, number(actor as int), "pai"@, named(pai), "pai"@);
        },
        Event3p::Pon { actor, target, pai, consumed } => {
            assert(crate::inference::wire::tiles_json(consumed@)->Array_0 =~= all_named(consumed@)->Array_0);
            lemma_4(o, "actor"@, number(actor as int), "target"@, number(target as int), "pai"@, named(pai), "consumed"@, all_named(consumed@), "type"@);
            lemma_4(o, "actor"@, number(actor as int), "target"@, number(target as int), "pai"@, named(pai), "consumed"@, all_named(consumed@), "actor"@);
            lemma_4(o, "actor"@, number(actor as int), "target"@, number(target as int), "pai"@, named(pai), "consumed"@, all_named(consumed@), "target"@);
            lemma_4(o, "actor"@, number(actor as int), "target"@, number(target as int), "pai"@, named(pai), "consumed"@, all_named(consumed@), "pai"@);
            lemma_4(o, "actor"@, number(actor as int), "target"@, number(target as int), "pai"@, named(pai), "consumed"@, all_named(consumed@), "consumed"@);
        },
        Event3p::Daiminkan { actor, target, pai, consumed } => {
            assert(crate::inference::wire::tiles_json(consumed@)->Array_0 =~= all_named(consumed@)->Array_0);
            lemma_4(o, "actor"@, number(actor as int), "target"@, number(target as int), "pai"@, named(pai), "consumed"@, all_named(consumed@), "type"@);
            lemma_4(o, "actor"@, number(actor as int), "target"@, number(target as int), "pai"@, named(pai), "consumed"@, all_named(consumed@), "actor"@);
            lemma_4(o, "actor"@, number(actor as int), "target"@, number(target as int), "pai"@, named(pai), "consumed"@, all_named(consumed@), "target"@);
            lemma_4(o, "actor"@, number(actor as int), "target"@, number(target as int), "pai"@, named(pai), "consumed"@, all_named(consumed@), "pai"@);
            lemma_4(o, "actor"@, number(actor as int), "target"@, number(target as int), "pai"@, named(pai), "consumed"@, all_named(consumed@), "consumed"@);
        },
        Event3p::Kakan { actor, pai, consumed } => {
            assert(crate::inference::wire::tiles_json(consumed@)->Array_0 =~= all_named(consumed@)->Array_0);
            lemma_3(o, "actor"@, number(actor as int), "pai"@, named(pai), "consumed"@, all_named(consumed@), "type"@);
            lemma_3(o, "actor"@, number(actor as int), "pai"@, named(pai), "consumed"@, all_named(consumed@), "actor"@);
            lemma_3(o, "actor"@, number(actor as int), "pai"@, named(pai), "consumed"@, all_named(consumed@), "pai"@);
            lemma_3(o, "actor"@, number(actor as int), "pai"@, named(pai), "consumed"@, all_named(consumed@), "consumed"@);
        },
        Event3p::Ankan { actor, consumed } => {
            assert(crate::inference::wire::tiles_json(consumed@)->Array_0 =~= all_named(consumed@)->Array_0);
            lemma_2(o, "actor"@, number(actor as int), "consumed"@, all_named(consumed@), "type"@);
            lemma_2(o, "actor"@, number(actor as int), "consumed"@, all_named(consumed@), "actor"@);
            lemma_2(o, "actor"@, number(actor as int), "consumed"@, all_named(consumed@), "consumed"@);
        },
        Event3p::Nukidora { actor, pai } => {
            lemma_2(o, "actor"@, number(actor as int), "pai"@, named(pai), "type"@);
            lemma_2(o, "actor"@, number(actor as int), "pai"@, named(pai), "actor"@);
            lemma_2(o, "actor"@, number(actor as int), "pai"@, named(pai), "pai"@);
        },
        Event3p::Hora { actor, target, deltas, ura_markers, scoring } => {
            lemma_5(o, "actor"@, number(actor as int), "target"@, number(target as int), "deltas"@, deltas_json_3p(deltas), "ura_markers"@, markers_json(ura_markers), "scoring"@, scoring_json(scoring), "type"@);
            lemma_5(o, "actor"@, number(actor as int), "target"@, number(target as int), "deltas"@, deltas_json_3p(deltas), "ura_markers"@, markers_json(ura_markers), "scoring"@, scoring_json(scoring), "actor"@);
            lemma_5(o, "actor"@, number(actor as int), "target"@, number(target as int), "deltas"@, deltas_json_3p(deltas), "ura_markers"@, markers_json(ura_markers), "scoring"@, scoring_json(scoring), "target"@);
            lemma_5(o, "actor"@, number(actor as int), "target"@, number(target as int), "deltas"@, deltas_json_3p(deltas), "ura_markers"@, markers_json(ura_markers), "scoring"@, scoring_json(scoring), "deltas"@);
            lemma_5(o, "actor"@, number(actor as int), "target"@, number(target as int), "deltas"@, deltas_json_3p(deltas), "ura_markers"@, markers_json(ura_markers), "scoring"@, scoring_json(scoring), "ura_markers"@);
            lemma_5(o, "actor"@, number(actor as int), "target"@, number(target as int), "deltas"@, deltas_json_3p(deltas), "ura_markers"@, markers_json(ura_markers), "scoring"@, scoring_json(scoring), "scoring"@);
        },
        Event3p::StartKyoku { bakaze, dora_marker, kyoku, honba, kyotaku, oya, scores, tehais } => {
            lemma_8(o, "bakaze"@, named(bakaze), "dora_marker"@, named(dora_marker), "kyoku"@, number(kyoku as int), "honba"@, number(honba as int), "kyotaku"@, number(kyotaku as int), "oya"@, number(oya as int), "scores"@, numbers_json(scores@), "tehais"@, hands_json(tehais@, viewer), "type"@);
            lemma_8(o, "bakaze"@, named(bakaze), "dora_marker"@, named(dora_marker), "kyoku"@, number(kyoku as int), "honba"@, number(honba as int), "kyotaku"@, number(kyotaku as int), "oya"@, number(oya as int), "scores"@, numbers_json(scores@), "tehais"@, hands_json(tehais@, viewer), "bakaze"@);
            lemma_8(o, "bakaze"@, named(bakaze), "dora_marker"@, named(dora_marker), "kyoku"@, number(kyoku as int), "honba"@, number(honba as int), "kyotaku"@, number(kyotaku as int), "oya"@, number(oya as int), "scores"@, numbers_json(scores@), "tehais"@, hands_json(tehais@, viewer), "dora_marker"@);
            lemma_8(o, "bakaze"@, named(bakaze), "dora_marker"@, named(dora_marker), "kyoku"@, number(kyoku as int), "honba"@, number(honba as int), "kyotaku"@, number(kyotaku as int), "oya"@, number(oya as int), "scores"@, numbers_json(scores@), "tehais"@, hands_json(tehais@, viewer), "kyoku"@);
            lemma_8(o, "bakaze"@, named(bakaze), "dora_marker"@, named(dora_marker), "kyoku"@, number(kyoku as int), "honba"@, number(honba as int), "kyotaku"@, number(kyotaku as int), "oya"@, number(oya as int), "scores"@, numbers_json(scores@), "tehais"@, hands_json(tehais@, viewer), "honba"@);
            lemma_8(o, "bakaze"@, named(bakaze), "dora_marker"@, named(dora_marker), "kyoku"@, number(kyoku as int), "honba"@, number(honba as int), "kyotaku"@, number(kyotaku as int), "oya"@, number(oya as int), "scores"@, numbers_json(scores@), "tehais"@, hands_json(tehais@, viewer), "kyotaku"@);
            lemma_8(o, "bakaze"@, named(bakaze), "dora_marker"@, named(dora_marker), "kyoku"@, number(kyoku as int), "honba"@, number(honba as int), "kyotaku"@, number(kyotaku as int), "oya"@, number(oya as int), "scores"@, numbers_json(scores@), "tehais"@, hands_json(tehais@, viewer), "oya"@);
            lemma_8(o, "bakaze"@, named(bakaze), "dora_marker"@, named(dora_marker), "kyoku"@, number(kyoku as int), "honba"@, number(honba as int), "kyotaku"@, number(kyotaku as int), "oya"@, number(oya as int), "scores"@, numbers_json(scores@), "tehais"@, hands_json(tehais@, viewer), "scores"@);
            lemma_8(o, "bakaze"@, named(bakaze), "dora_marker"@, named(dora_marker), "kyoku"@, number(kyoku as int), "honba"@, number(honba as int), "kyotaku"@, number(kyotaku as int), "oya"@, number(oya as int), "scores"@, numbers_json(scores@), "tehais"@, hands_json(tehais@, viewer), "tehais"@);
        },
        Event3p::Dora { dora_marker } => {
            lemma_with(o, "dora_marker"@, named(dora_marker), "type"@);
            lemma_with(o, "dora_marker"@, named(dora_marker), "dora_marker"@);
        },
        Event3p::Reach { actor } => {
            lemma_with(o, "actor"@, number(actor as int), "type"@);
            lemma_with(o, "actor"@, number(actor as int), "actor"@);
        },
        Event3p::ReachAccepted { actor } => {
            lemma_with(o, "actor"@, number(actor as int), "type"@);
            lemma_with(o, "actor"@, number(actor as int), "actor"@);
        },
        Event3p::SeatForcedAutoplay { actor } => {
            lemma_with(o, "actor"@, number(actor as int), "type"@);
            lemma_with(o, "actor"@, number(actor as int), "actor"@);
        },
        Event3p::SeatResumed { actor } => {
            lemma_with(o, "actor"@, number(actor as int), "type"@);
            lemma_with(o, "actor"@, number(actor as int), "actor"@);
        },
        Event3p::Ryukyoku { deltas } => {
            lemma_with(o, "deltas"@, deltas_json_3p(deltas), "type"@);
            lemma_with(o, "deltas"@, deltas_json_3p(deltas), "deltas"@);
        },
        Event3p::StartGame { names, seed } => {
            lemma_with(o, "names"@, crate::inference::wire::names_json(names@), "type"@);
            lemma_with(
                o.with("names"@, crate::inference::wire::names_json(names@)),
                "seed"@,
                crate::inference::wire::seed_json(seed),
                "type"@,
            );
        },
        _ => {},
    }
}

proof fn lemma_objects(four: Event4p, three: Event3p, viewer: Option<u8>)
    ensures
        event_json_4p(four, viewer) is Object,
        event_json_3p(three, viewer) is Object,
{
}

/// An event that is shown to a seat is the event as that seat sees it, with the seat's number.
pub proof fn shown_events_name_their_viewer(four: Event4p, three: Event3p, seat: u8, q: Seq<char>)
    ensures
        visible_wire_4p(four, seat).get(q) == if q == "viewer_seat"@ {
            Some(number(seat as int))
        } else {
            event_json_4p(four, Some(seat)).get(q)
        },
        visible_wire_3p(three, seat).get(q) == if q == "viewer_seat"@ {
            Some(number(seat as int))
        } else {
            event_json_3p(three, Some(seat)).get(q)
        },
{
    lemma_objects(four, three, Some(seat));
    lemma_with(event_json_4p(four, Some(seat)), "viewer_seat"@, number(seat as int), q);
    lemma_with(event_json_3p(three, Some(seat)), "viewer_seat"@, number(seat as int), q);
}

/// A hand is dealt openly to the viewer alone: every other seat's starting tiles are sent as unknown.
pub proof fn hands_are_sent_to_their_seat(hands: Seq<[Tile; 13]>, viewer: Option<u8>, i: int)
    requires
        0 <= i < hands.len(),
    ensures
        hands_json(hands, viewer) is Array,
        hands_json(hands, viewer)->Array_0.len() == hands.len(),
        viewer is None || viewer->0 == i ==> hands_json(hands, viewer)->Array_0[i] == all_named(hands[i]@),
        viewer is Some && viewer->0 != i ==> hands_json(hands, viewer)->Array_0[i] == all_named(
            Seq::new(13, |k: int| Tile::unknown()),
        ),
{
    let a = hands_json(hands, viewer)->Array_0[i];
    if viewer is None || viewer->0 == i {
        assert(a->Array_0 =~= all_named(hands[i]@)->Array_0);
    } else {
        assert(a->Array_0 =~= all_named(Seq::new(13, |k: int| Tile::unknown()))->Array_0);
    }
}

/// A remote reply decides exactly where the call went well, the reply says so, echoes the decision, and
/// echoes the legal action whose number it gives; it decides for that number.
pub proof fn remote_replies_decide_exactly(status: u16, response: JsonView, decision_id: Seq<char>, legal: Seq<JsonView>)
    requires
        legal.len() <= usize::MAX,
    ensures
        ({
            let r = remote_outcome(status, response, decision_id, legal);
            let n = response.u64_at("selected_index"@);
            let said = 200 <= status <= 299 && response.bool_at("ok"@) == Some(true);
            let echoed = response.text_at("decision_id"@) == Some(decision_id);
            &&& r is Ok <==> said && echoed && n is Some && n->0 < legal.len() && response.get("action"@) == Some(
                legal[n->0 as int],
            )
            &&& r is Ok ==> r->Ok_0 is Select && r->Ok_0->index == n->0
            &&& said && !echoed ==> r is Err && r->Err_0.kind == InferenceErrorKind::StaleDecision
            &&& said && echoed && n is Some && r is Err ==> r->Err_0.kind == InferenceErrorKind::InvalidAction
            &&& !(200 <= status <= 299) ==> r is Err && (r->Err_0.kind == InferenceErrorKind::StaleDecision <==> status == 409) && (
            r->Err_0.kind == InferenceErrorKind::Timeout <==> status == 408 || status == 504) && (r->Err_0.kind
                == InferenceErrorKind::EngineUnavailable <==> status == 401 || status == 402 || status == 403)
        }),
{
}

} // verus!
