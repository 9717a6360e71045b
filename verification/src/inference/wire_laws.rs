//! Reading a legal action back from its message.

use vstd::prelude::*;
use crate::inference::contract::{wire_type, ActionFacts};
use crate::inference::parse::{parsed_action, shape, stands_for, tile_of, tiles_of, WireFacts};
use crate::inference::wire::{action_body, action_wire, declines_json, tile_json, tiles_json, typed};
use crate::json::{number, set_member_is_read_back, JsonView};
use crate::mahjong::tile::{name_determines_tile, Tile};

verus! {

proof fn lemma_read_back(j: JsonView, key: Seq<char>, v: JsonView, other: Seq<char>)
    requires
        j is Object,
    ensures
        j.with(key, v) is Object,
        j.with(key, v).get(other) == if other == key { Some(v) } else { j.get(other) },
{
    set_member_is_read_back(j->Object_0, key, v, other);
}

proof fn lemma_tile_back(t: Tile)
    requires
        t.id() <= 37,
    ensures
        tile_of(tile_json(t)) == Ok::<Tile, Seq<char>>(t),
{
    let s = t.spec_name();
    let u = choose|u: Tile| u.id() <= 37 && #[trigger] u.spec_name() == s;
    name_determines_tile(t, u);
}

proof fn lemma_tiles_back(tiles: Seq<Tile>)
    requires
        forall|i: int| 0 <= i < tiles.len() ==> (#[trigger] tiles[i]).id() <= 37,
    ensures
        tiles_of(tiles_json(tiles)->Array_0) == Ok::<Seq<Tile>, Seq<char>>(tiles),
    decreases tiles.len(),
{
    let items = tiles_json(tiles)->Array_0;
    if tiles.len() == 0 {
        assert(tiles =~= Seq::empty());
    } else {
        lemma_tiles_back(tiles.drop_last());
        lemma_tile_back(tiles.last());
        assert(items.drop_last() =~= tiles_json(tiles.drop_last())->Array_0);
        assert(tiles.drop_last().push(tiles.last()) =~= tiles);
    }
}

proof fn lemma_keys()
    ensures
        "type"@ != "pai"@,
        "type"@ != "riichi"@,
        "type"@ != "target"@,
        "type"@ != "consumed"@,
        "type"@ != "declines"@,
        "type"@ != "tsumogiri"@,
        "type"@ != "actor"@,
        "type"@ != "action_id"@,
        "pai"@ != "riichi"@,
        "pai"@ != "target"@,
        "pai"@ != "consumed"@,
        "pai"@ != "declines"@,
        "pai"@ != "tsumogiri"@,
        "pai"@ != "actor"@,
        "pai"@ != "action_id"@,
        "riichi"@ != "target"@,
        "riichi"@ != "consumed"@,
        "riichi"@ != "declines"@,
        "riichi"@ != "tsumogiri"@,
        "riichi"@ != "actor"@,
        "riichi"@ != "action_id"@,
        "target"@ != "consumed"@,
        "target"@ != "declines"@,
        "target"@ != "tsumogiri"@,
        "target"@ != "actor"@,
        "target"@ != "action_id"@,
        "consumed"@ != "declines"@,
        "consumed"@ != "tsumogiri"@,
        "consumed"@ != "actor"@,
        "consumed"@ != "action_id"@,
        "declines"@ != "tsumogiri"@,
        "declines"@ != "actor"@,
        "declines"@ != "action_id"@,
        "tsumogiri"@ != "actor"@,
        "tsumogiri"@ != "action_id"@,
        "actor"@ != "action_id"@,
        "ron"@ != "call"@,
{
    reveal_strlit("type");
    assert("type"@.len() == 4);
    reveal_strlit("pai");
    assert("pai"@.len() == 3);
    reveal_strlit("riichi");
    assert("riichi"@.len() == 6);
    reveal_strlit("target");
    assert("target"@.len() == 6);
    reveal_strlit("consumed");
    assert("consumed"@.len() == 8);
    reveal_strlit("declines");
    assert("declines"@.len() == 8);
    reveal_strlit("tsumogiri");
    assert("tsumogiri"@.len() == 9);
    reveal_strlit("actor");
    assert("actor"@.len() == 5);
    reveal_strlit("action_id");
    assert("action_id"@.len() == 9);
    reveal_strlit("ron");
    assert("ron"@.len() == 3);
    reveal_strlit("call");
    assert("call"@.len() == 4);
    assert("riichi"@[0] != "target"@[0]);
    assert("consumed"@[0] != "declines"@[0]);
    assert("tsumogiri"@[0] != "action_id"@[0]);
}

proof fn lemma_kinds()
    ensures
        "dealer_opening_dahai"@ != "dahai"@,
        "ankan"@ != "dahai"@,
        "ankan"@ != "dealer_opening_dahai"@,
        "kakan"@ != "dahai"@,
        "kakan"@ != "dealer_opening_dahai"@,
        "kakan"@ != "ankan"@,
        "daiminkan"@ != "dahai"@,
        "daiminkan"@ != "dealer_opening_dahai"@,
        "daiminkan"@ != "ankan"@,
        "daiminkan"@ != "kakan"@,
        "tsumo"@ != "dahai"@,
        "tsumo"@ != "dealer_opening_dahai"@,
        "tsumo"@ != "ankan"@,
        "tsumo"@ != "kakan"@,
        "tsumo"@ != "daiminkan"@,
        "kyushukyuhai"@ != "dahai"@,
        "kyushukyuhai"@ != "dealer_opening_dahai"@,
        "kyushukyuhai"@ != "ankan"@,
        "kyushukyuhai"@ != "kakan"@,
        "kyushukyuhai"@ != "daiminkan"@,
        "kyushukyuhai"@ != "tsumo"@,
        "pass_all"@ != "dahai"@,
        "pass_all"@ != "dealer_opening_dahai"@,
        "pass_all"@ != "ankan"@,
        "pass_all"@ != "kakan"@,
        "pass_all"@ != "daiminkan"@,
        "pass_all"@ != "tsumo"@,
        "pass_all"@ != "kyushukyuhai"@,
        "nukidora"@ != "dahai"@,
        "nukidora"@ != "dealer_opening_dahai"@,
        "nukidora"@ != "ankan"@,
        "nukidora"@ != "kakan"@,
        "nukidora"@ != "daiminkan"@,
        "nukidora"@ != "tsumo"@,
        "nukidora"@ != "kyushukyuhai"@,
        "nukidora"@ != "pass_all"@,
        "nukidora"@ != "pon"@,
        "nukidora"@ != "ron"@,
        "nukidora"@ != "chi"@,
        "pon"@ != "dahai"@,
        "pon"@ != "dealer_opening_dahai"@,
        "pon"@ != "ankan"@,
        "pon"@ != "kakan"@,
        "pon"@ != "daiminkan"@,
        "pon"@ != "tsumo"@,
        "pon"@ != "kyushukyuhai"@,
        "pon"@ != "pass_all"@,
        "ron"@ != "dahai"@,
        "ron"@ != "dealer_opening_dahai"@,
        "ron"@ != "ankan"@,
        "ron"@ != "kakan"@,
        "ron"@ != "daiminkan"@,
        "ron"@ != "tsumo"@,
        "ron"@ != "kyushukyuhai"@,
        "ron"@ != "pass_all"@,
        "ron"@ != "pon"@,
        "chi"@ != "dahai"@,
        "chi"@ != "dealer_opening_dahai"@,
        "chi"@ != "ankan"@,
        "chi"@ != "kakan"@,
        "chi"@ != "daiminkan"@,
        "chi"@ != "tsumo"@,
        "chi"@ != "kyushukyuhai"@,
        "chi"@ != "pass_all"@,
        "chi"@ != "pon"@,
        "chi"@ != "ron"@,
{
    reveal_strlit("dahai");
    assert("dahai"@.len() == 5);
    reveal_strlit("dealer_opening_dahai");
    assert("dealer_opening_dahai"@.len() == 20);
    reveal_strlit("ankan");
    assert("ankan"@.len() == 5);
    reveal_strlit("kakan");
    assert("kakan"@.len() == 5);
    reveal_strlit("daiminkan");
    assert("daiminkan"@.len() == 9);
    reveal_strlit("tsumo");
    assert("tsumo"@.len() == 5);
    reveal_strlit("kyushukyuhai");
    assert("kyushukyuhai"@.len() == 12);
    reveal_strlit("pass_all");
    assert("pass_all"@.len() == 8);
    reveal_strlit("nukidora");
    assert("nukidora"@.len() == 8);
    reveal_strlit("pon");
    assert("pon"@.len() == 3);
    reveal_strlit("ron");
    assert("ron"@.len() == 3);
    reveal_strlit("chi");
    assert("chi"@.len() == 3);
    assert("dahai"@[0] != "ankan"@[0]);
    assert("dahai"@[0] != "kakan"@[0]);
    assert("dahai"@[0] != "tsumo"@[0]);
    assert("ankan"@[0] != "kakan"@[0]);
    assert("ankan"@[0] != "tsumo"@[0]);
    assert("kakan"@[0] != "tsumo"@[0]);
    assert("pass_all"@[0] != "nukidora"@[0]);
    assert("pon"@[0] != "ron"@[0]);
    assert("pon"@[0] != "chi"@[0]);
    assert("ron"@[0] != "chi"@[0]);
}

proof fn lemma_typed(t: Seq<char>, key: Seq<char>)
    ensures
        typed(t) is Object,
        typed(t).get(key) == if key == "type"@ { Some(JsonView::Text(t)) } else { None },
{
    lemma_read_back(JsonView::object(), "type"@, JsonView::Text(t), key);
}

/// The tiles of an action are tiles.
pub open spec fn has_tiles(a: ActionFacts) -> bool {
    match a {
        ActionFacts::Discard { pai, .. } => pai.id() <= 37,
        ActionFacts::DealerOpeningDiscard { pai, .. } => pai.id() <= 37,
        ActionFacts::Kan { pai, consumed, .. } => pai.id() <= 37 && all_tiles(consumed),
        ActionFacts::Tsumo { pai } => pai.id() <= 37,
        ActionFacts::Pon { pai, consumed } => pai.id() <= 37 && all_tiles(consumed),
        ActionFacts::Chi { pai, consumed } => pai.id() <= 37 && all_tiles(consumed),
        ActionFacts::Ron { pai, .. } => pai.id() <= 37,
        _ => true,
    }
}

pub open spec fn all_tiles(tiles: Seq<Tile>) -> bool {
    forall|i: int| 0 <= i < tiles.len() ==> (#[trigger] tiles[i]).id() <= 37
}

/// An action of a table: calls take two tiles of the hand and kans three or four, chi exists
/// for four players and nukidora for three.
pub open spec fn fits_table(a: ActionFacts, four: bool) -> bool {
    match a {
        ActionFacts::Kan { consumed, .. } => 3 <= consumed.len() <= 4,
        ActionFacts::Pon { consumed, .. } => consumed.len() == 2,
        ActionFacts::Chi { consumed, .. } => four && consumed.len() == 2,
        ActionFacts::Nukidora => !four,
        _ => true,
    }
}

/// The members of an action's message.
proof fn lemma_body_members(a: ActionFacts, index: int, key: Seq<char>)
    requires
        key == "type"@ || key == "actor"@ || key == "pai"@ || key == "tsumogiri"@ || key == "riichi"@ || key == "target"@ || key
            == "consumed"@ || key == "declines"@,
    ensures
        action_wire(index, a) is Object,
        action_wire(index, a).get(key) == match a {
            ActionFacts::Discard { pai, tsumogiri, riichi } => if key == "type"@ {
                Some(JsonView::Text(wire_type(a)))
            } else if key == "pai"@ {
                Some(tile_json(pai))
            } else if key == "tsumogiri"@ {
                Some(JsonView::Bool(tsumogiri))
            } else if key == "riichi"@ {
                Some(JsonView::Bool(riichi))
            } else {
                None
            },
            ActionFacts::DealerOpeningDiscard { pai, riichi } => if key == "type"@ {
                Some(JsonView::Text(wire_type(a)))
            } else if key == "pai"@ {
                Some(tile_json(pai))
            } else if key == "riichi"@ {
                Some(JsonView::Bool(riichi))
            } else {
                None
            },
            ActionFacts::Tsumo { pai } => if key == "type"@ {
                Some(JsonView::Text(wire_type(a)))
            } else if key == "pai"@ {
                Some(tile_json(pai))
            } else {
                None
            },
            ActionFacts::PassAll { declines } => if key == "type"@ {
                Some(JsonView::Text(wire_type(a)))
            } else if key == "declines"@ {
                Some(declines_json(declines))
            } else {
                None
            },
            ActionFacts::Kan { pai, consumed, .. } => if key == "type"@ {
                Some(JsonView::Text(wire_type(a)))
            } else if key == "pai"@ {
                Some(tile_json(pai))
            } else if key == "consumed"@ {
                Some(tiles_json(consumed))
            } else {
                None
            },
            ActionFacts::Pon { pai, consumed } => if key == "type"@ {
                Some(JsonView::Text(wire_type(a)))
            } else if key == "pai"@ {
                Some(tile_json(pai))
            } else if key == "consumed"@ {
                Some(tiles_json(consumed))
            } else {
                None
            },
            ActionFacts::Chi { pai, consumed } => if key == "type"@ {
                Some(JsonView::Text(wire_type(a)))
            } else if key == "pai"@ {
                Some(tile_json(pai))
            } else if key == "consumed"@ {
                Some(tiles_json(consumed))
            } else {
                None
            },
            ActionFacts::Ron { pai, target } => if key == "type"@ {
                Some(JsonView::Text(wire_type(a)))
            } else if key == "pai"@ {
                Some(tile_json(pai))
            } else if key == "target"@ {
                Some(number(target as int))
            } else {
                None
            },
            _ => if key == "type"@ {
                Some(JsonView::Text(wire_type(a)))
            } else {
                None
            },
        },
{
    lemma_keys();
    let t = typed(wire_type(a));
    lemma_typed(wire_type(a), key);
    match a {
        ActionFacts::Discard { pai, tsumogiri, riichi } => {
            lemma_read_back(t, "pai"@, tile_json(pai), key);
            let u = t.with("pai"@, tile_json(pai));
            lemma_read_back(u, "tsumogiri"@, JsonView::Bool(tsumogiri), key);
            let v = u.with("tsumogiri"@, JsonView::Bool(tsumogiri));
            lemma_read_back(v, "riichi"@, JsonView::Bool(riichi), key);
        },
        ActionFacts::DealerOpeningDiscard { pai, riichi } => {
            lemma_read_back(t, "pai"@, tile_json(pai), key);
            lemma_read_back(t.with("pai"@, tile_json(pai)), "riichi"@, JsonView::Bool(riichi), key);
        },
        ActionFacts::Kan { pai, consumed, .. } => {
            lemma_read_back(t, "pai"@, tile_json(pai), key);
            lemma_read_back(t.with("pai"@, tile_json(pai)), "consumed"@, tiles_json(consumed), key);
        },
        ActionFacts::Tsumo { pai } => {
            lemma_read_back(t, "pai"@, tile_json(pai), key);
        },
        ActionFacts::PassAll { declines } => {
            lemma_read_back(t, "declines"@, declines_json(declines), key);
        },
        ActionFacts::Pon { pai, consumed } => {
            lemma_read_back(t, "pai"@, tile_json(pai), key);
            lemma_read_back(t.with("pai"@, tile_json(pai)), "consumed"@, tiles_json(consumed), key);
        },
        ActionFacts::Chi { pai, consumed } => {
            lemma_read_back(t, "pai"@, tile_json(pai), key);
            lemma_read_back(t.with("pai"@, tile_json(pai)), "consumed"@, tiles_json(consumed), key);
        },
        ActionFacts::Ron { pai, target } => {
            lemma_read_back(t, "pai"@, tile_json(pai), key);
            lemma_read_back(t.with("pai"@, tile_json(pai)), "target"@, number(target as int), key);
        },
        _ => {},
    }
    lemma_read_back(action_body(a), "action_id"@, number(index), key);
}

/// The fields that an action's message gives.
pub open spec fn given_fields(a: ActionFacts) -> WireFacts {
    WireFacts {
        kind: wire_type(a),
        actor: None,
        pai: match a {
            ActionFacts::Discard { pai, .. } => Some(pai),
            ActionFacts::DealerOpeningDiscard { pai, .. } => Some(pai),
            ActionFacts::Kan { pai, .. } => Some(pai),
            ActionFacts::Tsumo { pai } => Some(pai),
            ActionFacts::Pon { pai, .. } => Some(pai),
            ActionFacts::Chi { pai, .. } => Some(pai),
            ActionFacts::Ron { pai, .. } => Some(pai),
            _ => None,
        },
        tsumogiri: match a {
            ActionFacts::Discard { tsumogiri, .. } => Some(tsumogiri),
            _ => None,
        },
        riichi: match a {
            ActionFacts::Discard { riichi, .. } => Some(riichi),
            ActionFacts::DealerOpeningDiscard { riichi, .. } => Some(riichi),
            _ => None,
        },
        target: match a {
            ActionFacts::Ron { target, .. } => Some(target),
            _ => None,
        },
        consumed: match a {
            ActionFacts::Kan { consumed, .. } => Some(consumed),
            ActionFacts::Pon { consumed, .. } => Some(consumed),
            ActionFacts::Chi { consumed, .. } => Some(consumed),
            _ => None,
        },
        declines: match a {
            ActionFacts::PassAll { declines } => Some(declines),
            _ => None,
        },
    }
}

proof fn lemma_shape_back(a: ActionFacts, index: int)
    requires
        has_tiles(a),
    ensures
        shape(action_wire(index, a)) == Ok::<WireFacts, Seq<char>>(given_fields(a)),
{
    let j = action_wire(index, a);
    lemma_body_members(a, index, "type"@);
    lemma_body_members(a, index, "actor"@);
    lemma_body_members(a, index, "pai"@);
    lemma_body_members(a, index, "tsumogiri"@);
    lemma_body_members(a, index, "riichi"@);
    lemma_body_members(a, index, "target"@);
    lemma_body_members(a, index, "consumed"@);
    lemma_body_members(a, index, "declines"@);
    lemma_keys();
    match a {
        ActionFacts::Discard { pai, .. } => { lemma_tile_back(pai); },
        ActionFacts::DealerOpeningDiscard { pai, .. } => { lemma_tile_back(pai); },
        ActionFacts::Kan { pai, consumed, .. } => {
            lemma_tile_back(pai);
            lemma_tiles_back(consumed);
        },
        ActionFacts::Tsumo { pai } => { lemma_tile_back(pai); },
        ActionFacts::Pon { pai, consumed } => {
            lemma_tile_back(pai);
            lemma_tiles_back(consumed);
        },
        ActionFacts::Chi { pai, consumed } => {
            lemma_tile_back(pai);
            lemma_tiles_back(consumed);
        },
        ActionFacts::Ron { pai, .. } => { lemma_tile_back(pai); },
        ActionFacts::PassAll { declines } => {
            let r = JsonView::object().with("ron"@, JsonView::Bool(declines.ron));
            lemma_read_back(JsonView::object(), "ron"@, JsonView::Bool(declines.ron), "ron"@);
            lemma_read_back(r, "call"@, JsonView::Bool(declines.call), "ron"@);
            lemma_read_back(r, "call"@, JsonView::Bool(declines.call), "call"@);
        },
        _ => {},
    }
}

/// A legal action that is sent in a message is read back from it, whatever its number and
/// whichever seat decides.
pub proof fn sent_actions_are_read_back(a: ActionFacts, index: int, seat: u8, four: bool)
    requires
        has_tiles(a),
        fits_table(a, four),
    ensures
        parsed_action(action_wire(index, a), seat, four) == Ok::<ActionFacts, crate::inference::contract::Fault>(a),
{
    lemma_shape_back(a, index);
    lemma_kinds();
}

/// Every legal action stands for itself.
pub proof fn actions_stand_for_themselves(a: ActionFacts)
    ensures
        stands_for(a, a),
{
}

} // verus!
