//! Reading the action that an engine names, and finding it among the legal ones.

use vstd::prelude::*;
use vstd::string::*;
use crate::inference::contract::{
    action_text, actions_view, fault, inference_error, protocol_fault, string_view, ActionFacts, Fault, InferenceError,
    InferenceErrorKind, KanKind, LegalAction, ResponseOpportunities, FLYA_INFERENCE_PROTOCOL_V1,
};
use crate::json::{items_view, json_option, Json, JsonView};
use crate::mahjong::tile::{quote, quoted, Tile};
use crate::text::{dec, dec_i64, dec_int, dec_u64, dec_usize, join2, join3, owned, same};

verus! {

// The fields of an action.

/// The tile of a written name.
pub open spec fn named_tile(s: Seq<char>) -> Option<Tile> {
    if exists|t: Tile| t.id() <= 37 && #[trigger] t.spec_name() == s {
        Some(choose|t: Tile| t.id() <= 37 && #[trigger] t.spec_name() == s)
    } else {
        None
    }
}

/// The fields of an action, as far as they are given.
pub struct WireAction {
    pub kind: String,
    pub actor: Option<u8>,
    pub pai: Option<Tile>,
    pub tsumogiri: Option<bool>,
    pub riichi: Option<bool>,
    pub target: Option<u8>,
    pub consumed: Option<Vec<Tile>>,
    pub declines: Option<ResponseOpportunities>,
}

/// The fields of an action, as facts.
pub ghost struct WireFacts {
    pub kind: Seq<char>,
    pub actor: Option<u8>,
    pub pai: Option<Tile>,
    pub tsumogiri: Option<bool>,
    pub riichi: Option<bool>,
    pub target: Option<u8>,
    pub consumed: Option<Seq<Tile>>,
    pub declines: Option<ResponseOpportunities>,
}

/// A list of tiles that may be there.
pub open spec fn tiles_option(v: Option<Vec<Tile>>) -> Option<Seq<Tile>> {
    match v {
        Some(t) => Some(t@),
        None => None,
    }
}

impl View for WireAction {
    type V = WireFacts;

    open spec fn view(&self) -> WireFacts {
        WireFacts {
            kind: self.kind@,
            actor: self.actor,
            pai: self.pai,
            tsumogiri: self.tsumogiri,
            riichi: self.riichi,
            target: self.target,
            consumed: tiles_option(self.consumed),
            declines: self.declines,
        }
    }
}

/// A field of an action or of its declines: a member of an object, or an entry of a list that
/// gives all fields in order.
pub open spec fn given(j: JsonView, key: Seq<char>, at: int) -> Option<JsonView> {
    match j {
        JsonView::Array(s) => if at < s.len() { Some(s[at]) } else { None },
        _ => j.get(key),
    }
}

/// A field that may be left out; one that is null is left out.
pub open spec fn field(j: JsonView, key: Seq<char>, at: int) -> Option<JsonView> {
    let v = given(j, key, at);
    if v == Some(JsonView::Null) { None } else { v }
}

// What is wrong with a field.

/// What stands where something else is expected.
pub open spec fn found(j: JsonView) -> Seq<char> {
    match j {
        JsonView::Null => "null"@,
        JsonView::Bool(b) => if b { "boolean `true`"@ } else { "boolean `false`"@ },
        JsonView::UInt(n) => "integer `"@ + dec(n as nat) + "`"@,
        JsonView::Int(n) => "integer `"@ + dec_int(n as int) + "`"@,
        JsonView::Float(_, text) => "floating point `"@ + text + "`"@,
        JsonView::Text(s) => "string "@ + quoted(s),
        JsonView::Array(_) => "sequence"@,
        JsonView::Object(_) => "map"@,
    }
}

pub open spec fn wrong_type(j: JsonView, expected: Seq<char>) -> Seq<char> {
    "invalid type: "@ + found(j) + ", expected "@ + expected
}

pub open spec fn wrong_value(j: JsonView, expected: Seq<char>) -> Seq<char> {
    "invalid value: "@ + found(j) + ", expected "@ + expected
}

pub open spec fn missing(name: Seq<char>) -> Seq<char> {
    "missing field `"@ + name + "`"@
}

pub open spec fn wrong_length(n: nat, expected: Seq<char>) -> Seq<char> {
    "invalid length "@ + dec(n) + ", expected "@ + expected
}

/// The fault of what was read.
pub open spec fn fault_of<T>(r: Result<T, Seq<char>>) -> Option<Seq<char>> {
    match r {
        Ok(_) => None,
        Err(e) => Some(e),
    }
}

/// The first of two faults.
pub open spec fn first_of(a: Option<Seq<char>>, b: Option<Seq<char>>) -> Option<Seq<char>> {
    if a is Some { a } else { b }
}

/// The fault of an entry of a list of `n` entries: that the list ends before it, or its own.
pub open spec fn entry_fault(n: nat, at: nat, expected: Seq<char>, fault: Option<Seq<char>>) -> Option<Seq<char>> {
    if n <= at { Some(wrong_length(at, expected)) } else { fault }
}

/// The fault of a list of more than `max` entries.
pub open spec fn long_fault(n: nat, max: nat) -> Option<Seq<char>> {
    if n > max { Some(wrong_length(n, "fewer elements in array"@)) } else { None }
}

// What fields hold.

/// What a field holds, if it is given, or what is wrong with it.
pub type Read<T> = Result<Option<T>, Seq<char>>;

pub open spec fn read_byte(v: Option<JsonView>) -> Read<u8> {
    match v {
        None => Ok(None),
        Some(j) => match j {
            JsonView::UInt(n) => if n <= 255 { Ok(Some(n as u8)) } else { Err(wrong_value(j, "u8"@)) },
            JsonView::Int(n) => if 0 <= n <= 255 { Ok(Some(n as u8)) } else { Err(wrong_value(j, "u8"@)) },
            _ => Err(wrong_type(j, "u8"@)),
        },
    }
}

pub open spec fn truth_in(j: JsonView) -> Result<bool, Seq<char>> {
    match j {
        JsonView::Bool(b) => Ok(b),
        _ => Err(wrong_type(j, "a boolean"@)),
    }
}

pub open spec fn read_truth(v: Option<JsonView>) -> Read<bool> {
    match v {
        None => Ok(None),
        Some(j) => match truth_in(j) {
            Ok(b) => Ok(Some(b)),
            Err(e) => Err(e),
        },
    }
}

/// A field that has to be given and to hold a truth value.
pub open spec fn due_truth(v: Option<JsonView>, name: Seq<char>) -> Result<bool, Seq<char>> {
    match v {
        None => Err(missing(name)),
        Some(j) => truth_in(j),
    }
}

/// A field that has to be given and to hold a text.
pub open spec fn due_text(v: Option<JsonView>, name: Seq<char>) -> Result<Seq<char>, Seq<char>> {
    match v {
        None => Err(missing(name)),
        Some(j) => match j {
            JsonView::Text(s) => Ok(s),
            _ => Err(wrong_type(j, "a string"@)),
        },
    }
}

pub open spec fn tile_of(j: JsonView) -> Result<Tile, Seq<char>> {
    match j {
        JsonView::Text(s) => match named_tile(s) {
            Some(t) => Ok(t),
            None => Err("invalid tile name "@ + quoted(s)),
        },
        _ => Err(wrong_type(j, "a string"@)),
    }
}

pub open spec fn read_tile(v: Option<JsonView>) -> Read<Tile> {
    match v {
        None => Ok(None),
        Some(j) => match tile_of(j) {
            Ok(t) => Ok(Some(t)),
            Err(e) => Err(e),
        },
    }
}

/// The tiles of a list of names, or the first fault.
pub open spec fn tiles_of(items: Seq<JsonView>) -> Result<Seq<Tile>, Seq<char>>
    decreases items.len(),
{
    if items.len() == 0 {
        Ok(Seq::empty())
    } else {
        match tiles_of(items.drop_last()) {
            Err(e) => Err(e),
            Ok(rest) => match tile_of(items.last()) {
                Ok(t) => Ok(rest.push(t)),
                Err(e) => Err(e),
            },
        }
    }
}

pub open spec fn read_tiles(v: Option<JsonView>) -> Read<Seq<Tile>> {
    match v {
        None => Ok(None),
        Some(j) => match j {
            JsonView::Array(items) => match tiles_of(items) {
                Ok(t) => Ok(Some(t)),
                Err(e) => Err(e),
            },
            _ => Err(wrong_type(j, "a sequence"@)),
        },
    }
}

/// The first fault of declines: members are read in the order of their keys and then missed in
/// the order of the fields; entries of a list are read in the order of the fields.
pub open spec fn declines_fault(j: JsonView) -> Option<Seq<char>> {
    let ron = fault_of(due_truth(given(j, "ron"@, 0), "ron"@));
    let call = fault_of(due_truth(given(j, "call"@, 1), "call"@));
    match j {
        JsonView::Object(_) => first_of(if given(j, "call"@, 1) is Some { call } else { None }, first_of(ron, call)),
        JsonView::Array(s) => first_of(
            entry_fault(s.len(), 0, "struct WireDeclines with 2 elements"@, ron),
            first_of(
                entry_fault(s.len(), 1, "struct WireDeclines with 2 elements"@, call),
                long_fault(s.len(), 2),
            ),
        ),
        _ => Some(wrong_type(j, "struct WireDeclines"@)),
    }
}

pub open spec fn read_declines(v: Option<JsonView>) -> Read<ResponseOpportunities> {
    match v {
        None => Ok(None),
        Some(j) => match declines_fault(j) {
            Some(e) => Err(e),
            None => Ok(
                Some(
                    ResponseOpportunities {
                        ron: due_truth(given(j, "ron"@, 0), "ron"@)->Ok_0,
                        call: due_truth(given(j, "call"@, 1), "call"@)->Ok_0,
                    },
                ),
            ),
        },
    }
}

/// What the fields of an action hold, each or what is wrong with it.
pub ghost struct FieldReads {
    pub kind: Result<Seq<char>, Seq<char>>,
    pub actor: Read<u8>,
    pub pai: Read<Tile>,
    pub tsumogiri: Read<bool>,
    pub riichi: Read<bool>,
    pub target: Read<u8>,
    pub consumed: Read<Seq<Tile>>,
    pub declines: Read<ResponseOpportunities>,
}

pub open spec fn fields_of(j: JsonView) -> FieldReads {
    FieldReads {
        kind: due_text(given(j, "type"@, 0), "type"@),
        actor: read_byte(field(j, "actor"@, 1)),
        pai: read_tile(field(j, "pai"@, 2)),
        tsumogiri: read_truth(field(j, "tsumogiri"@, 3)),
        riichi: read_truth(field(j, "riichi"@, 4)),
        target: read_byte(field(j, "target"@, 5)),
        consumed: read_tiles(field(j, "consumed"@, 6)),
        declines: read_declines(field(j, "declines"@, 7)),
    }
}

/// The first fault of the members of an action, in the order of their keys.
pub open spec fn member_fault(r: FieldReads) -> Option<Seq<char>> {
    first_of(
        fault_of(r.actor),
        first_of(
            fault_of(r.consumed),
            first_of(
                fault_of(r.declines),
                first_of(
                    fault_of(r.pai),
                    first_of(
                        fault_of(r.riichi),
                        first_of(fault_of(r.target), first_of(fault_of(r.tsumogiri), fault_of(r.kind))),
                    ),
                ),
            ),
        ),
    )
}

/// The fault of an entry of an action that is given as a list.
pub open spec fn slot_fault(n: nat, at: nat, fault: Option<Seq<char>>) -> Option<Seq<char>> {
    entry_fault(n, at, "struct WireAction with 8 elements"@, fault)
}

/// The first fault of an action that is given as a list of `n` entries, in the order of the fields.
pub open spec fn list_fault(r: FieldReads, n: nat) -> Option<Seq<char>> {
    first_of(
        slot_fault(n, 0, fault_of(r.kind)),
        first_of(
            slot_fault(n, 1, fault_of(r.actor)),
            first_of(
                slot_fault(n, 2, fault_of(r.pai)),
                first_of(
                    slot_fault(n, 3, fault_of(r.tsumogiri)),
                    first_of(
                        slot_fault(n, 4, fault_of(r.riichi)),
                        first_of(
                            slot_fault(n, 5, fault_of(r.target)),
                            first_of(
                                slot_fault(n, 6, fault_of(r.consumed)),
                                first_of(slot_fault(n, 7, fault_of(r.declines)), long_fault(n, 8)),
                            ),
                        ),
                    ),
                ),
            ),
        ),
    )
}

/// The first fault of an action.
pub open spec fn action_fault(j: JsonView) -> Option<Seq<char>> {
    match j {
        JsonView::Object(_) => member_fault(fields_of(j)),
        JsonView::Array(s) => list_fault(fields_of(j), s.len()),
        _ => Some(wrong_type(j, "struct WireAction"@)),
    }
}

/// The fields of an action, or its first fault.
pub open spec fn shape(j: JsonView) -> Result<WireFacts, Seq<char>> {
    match action_fault(j) {
        Some(e) => Err(e),
        None => Ok(
            WireFacts {
                kind: fields_of(j).kind->Ok_0,
                actor: fields_of(j).actor->Ok_0,
                pai: fields_of(j).pai->Ok_0,
                tsumogiri: fields_of(j).tsumogiri->Ok_0,
                riichi: fields_of(j).riichi->Ok_0,
                target: fields_of(j).target->Ok_0,
                consumed: fields_of(j).consumed->Ok_0,
                declines: fields_of(j).declines->Ok_0,
            },
        ),
    }
}

// Reading fields.

fn given_in<'a>(j: &'a Json, key: &str, at: usize) -> (r: Option<&'a Json>)
    ensures
        json_option(r) == given(j@, key@, at as int),
{
    match j.as_array() {
        Some(items) => {
            assert(items_view(items@).len() == items@.len());
            if at < items.len() {
                assert(items_view(items@)[at as int] == items@[at as int]@);
                Some(&items[at])
            } else {
                None
            }
        },
        None => j.get(key),
    }
}

fn field_of<'a>(j: &'a Json, key: &str, at: usize) -> (r: Option<&'a Json>)
    ensures
        json_option(r) == field(j@, key@, at as int),
{
    let v = given_in(j, key, at);
    match v {
        Some(Json::Null) => None,
        _ => v,
    }
}

fn found_in(j: &Json) -> (r: String)
    ensures
        r@ == found(j@),
{
    match j {
        Json::Null => owned("null"),
        Json::Bool(b) => owned(if *b { "boolean `true`" } else { "boolean `false`" }),
        Json::UInt(n) => join3("integer `", dec_u64(*n).as_str(), "`"),
        Json::Int(n) => join3("integer `", dec_i64(*n).as_str(), "`"),
        Json::Float(f) => join3("floating point `", f.text.as_str(), "`"),
        Json::Text(s) => join2("string ", quote(s.as_str()).as_str()),
        Json::Array(_) => owned("sequence"),
        Json::Object(_) => owned("map"),
    }
}

fn type_fault(j: &Json, expected: &str) -> (r: String)
    ensures
        r@ == wrong_type(j@, expected@),
{
    let mut s = join3("invalid type: ", found_in(j).as_str(), ", expected ");
    s.append(expected);
    s
}

fn value_fault(j: &Json, expected: &str) -> (r: String)
    ensures
        r@ == wrong_value(j@, expected@),
{
    let mut s = join3("invalid value: ", found_in(j).as_str(), ", expected ");
    s.append(expected);
    s
}

fn missing_field(name: &str) -> (r: String)
    ensures
        r@ == missing(name@),
{
    join3("missing field `", name, "`")
}

fn length_fault(n: usize, expected: &str) -> (r: String)
    ensures
        r@ == wrong_length(n as nat, expected@),
{
    let mut s = join3("invalid length ", dec_usize(n).as_str(), ", expected ");
    s.append(expected);
    s
}

/// What was read, as facts.
pub open spec fn read_view<T>(r: Result<T, String>) -> Result<T, Seq<char>> {
    match r {
        Ok(v) => Ok(v),
        Err(e) => Err(e@),
    }
}

fn error_in<T>(r: &Result<T, String>) -> (e: Option<String>)
    ensures
        string_view(e) == fault_of(read_view(*r)),
{
    match r {
        Ok(_) => None,
        Err(s) => Some(s.clone()),
    }
}

fn earlier(a: Option<String>, b: Option<String>) -> (r: Option<String>)
    ensures
        string_view(r) == first_of(string_view(a), string_view(b)),
{
    match a {
        Some(_) => a,
        None => b,
    }
}

fn at_entry(n: usize, at: usize, expected: &str, e: Option<String>) -> (r: Option<String>)
    ensures
        string_view(r) == entry_fault(n as nat, at as nat, expected@, string_view(e)),
{
    if n <= at {
        Some(length_fault(at, expected))
    } else {
        e
    }
}

fn at_end(n: usize, max: usize) -> (r: Option<String>)
    ensures
        string_view(r) == long_fault(n as nat, max as nat),
{
    if n > max {
        Some(length_fault(n, "fewer elements in array"))
    } else {
        None
    }
}

fn byte_of(v: Option<&Json>) -> (r: Result<Option<u8>, String>)
    ensures
        read_view(r) == read_byte(json_option(v)),
{
    match v {
        None => Ok(None),
        Some(j) => match j {
            Json::UInt(n) => if *n <= 255 { Ok(Some(*n as u8)) } else { Err(value_fault(j, "u8")) },
            Json::Int(n) => if 0 <= *n && *n <= 255 { Ok(Some(*n as u8)) } else { Err(value_fault(j, "u8")) },
            _ => Err(type_fault(j, "u8")),
        },
    }
}

fn truth_from(j: &Json) -> (r: Result<bool, String>)
    ensures
        read_view(r) == truth_in(j@),
{
    match j {
        Json::Bool(b) => Ok(*b),
        _ => Err(type_fault(j, "a boolean")),
    }
}

fn truth_of(v: Option<&Json>) -> (r: Result<Option<bool>, String>)
    ensures
        read_view(r) == read_truth(json_option(v)),
{
    match v {
        None => Ok(None),
        Some(j) => match truth_from(j) {
            Ok(b) => Ok(Some(b)),
            Err(e) => Err(e),
        },
    }
}

fn due_truth_of(v: Option<&Json>, name: &str) -> (r: Result<bool, String>)
    ensures
        read_view(r) == due_truth(json_option(v), name@),
{
    match v {
        None => Err(missing_field(name)),
        Some(j) => truth_from(j),
    }
}

/// A text that was read, as facts.
pub open spec fn text_read(r: Result<String, String>) -> Result<Seq<char>, Seq<char>> {
    match r {
        Ok(s) => Ok(s@),
        Err(e) => Err(e@),
    }
}

fn due_text_of(v: Option<&Json>, name: &str) -> (r: Result<String, String>)
    ensures
        text_read(r) == due_text(json_option(v), name@),
{
    match v {
        None => Err(missing_field(name)),
        Some(j) => match j {
            Json::Text(s) => Ok(s.clone()),
            _ => Err(type_fault(j, "a string")),
        },
    }
}

fn tile_from(j: &Json) -> (r: Result<Tile, String>)
    ensures
        read_view(r) == tile_of(j@),
{
    match j {
        Json::Text(s) => match Tile::from_name(s.as_str()) {
            Ok(t) => {
                proof {
                    use_type_invariant(t);
                    assert(t.id() <= 37);
                }
                Ok(t)
            },
            Err(_) => Err(join2("invalid tile name ", quote(s.as_str()).as_str())),
        },
        _ => Err(type_fault(j, "a string")),
    }
}

fn tile_at(v: Option<&Json>) -> (r: Result<Option<Tile>, String>)
    ensures
        read_view(r) == read_tile(json_option(v)),
{
    match v {
        None => Ok(None),
        Some(j) => match tile_from(j) {
            Ok(t) => Ok(Some(t)),
            Err(e) => Err(e),
        },
    }
}

proof fn lemma_bad_tile(items: Seq<JsonView>, n: int)
    requires
        0 <= n <= items.len(),
        tiles_of(items.take(n)) is Err,
    ensures
        tiles_of(items) == tiles_of(items.take(n)),
    decreases items.len() - n,
{
    if n == items.len() {
        assert(items.take(n) =~= items);
    } else {
        assert(items.take(n + 1).drop_last() =~= items.take(n));
        lemma_bad_tile(items, n + 1);
    }
}

/// Tiles that were read, as facts.
pub open spec fn tiles_read(r: Result<Vec<Tile>, String>) -> Result<Seq<Tile>, Seq<char>> {
    match r {
        Ok(v) => Ok(v@),
        Err(e) => Err(e@),
    }
}

fn tiles_from(items: &Vec<Json>) -> (r: Result<Vec<Tile>, String>)
    ensures
        tiles_read(r) == tiles_of(items_view(items@)),
{
    let ghost all = items_view(items@);
    let mut out: Vec<Tile> = Vec::new();
    let mut i: usize = 0;
    assert(out@ =~= Seq::empty());
    while i < items.len()
        invariant
            i <= items@.len(),
            all == items_view(items@),
            tiles_of(all.take(i as int)) == Ok::<Seq<Tile>, Seq<char>>(out@),
        decreases items@.len() - i,
    {
        assert(all.take(i + 1).drop_last() =~= all.take(i as int));
        assert(all.take(i + 1).last() == items@[i as int]@);
        match tile_from(&items[i]) {
            Ok(t) => {
                out.push(t);
            },
            Err(e) => {
                proof { lemma_bad_tile(all, i + 1); }
                return Err(e);
            },
        }
        i = i + 1;
    }
    assert(all.take(i as int) =~= all);
    Ok(out)
}

/// Tiles that may be given, as facts.
pub open spec fn tiles_read_option(r: Result<Option<Vec<Tile>>, String>) -> Read<Seq<Tile>> {
    match r {
        Ok(v) => Ok(tiles_option(v)),
        Err(e) => Err(e@),
    }
}

fn tiles_at(v: Option<&Json>) -> (r: Result<Option<Vec<Tile>>, String>)
    ensures
        tiles_read_option(r) == read_tiles(json_option(v)),
{
    match v {
        None => Ok(None),
        Some(j) => match j.as_array() {
            Some(items) => match tiles_from(items) {
                Ok(t) => Ok(Some(t)),
                Err(e) => Err(e),
            },
            None => Err(type_fault(j, "a sequence")),
        },
    }
}

fn declines_at(v: Option<&Json>) -> (r: Result<Option<ResponseOpportunities>, String>)
    ensures
        read_view(r) == read_declines(json_option(v)),
{
    let j: &Json = match v {
        None => {
            return Ok(None);
        },
        Some(j) => j,
    };
    let call_given = given_in(j, "call", 1);
    let ron = due_truth_of(given_in(j, "ron", 0), "ron");
    let call = due_truth_of(call_given, "call");
    let fault: Option<String> = match j {
        Json::Object(_) => earlier(
            if call_given.is_some() { error_in(&call) } else { None },
            earlier(error_in(&ron), error_in(&call)),
        ),
        Json::Array(items) => {
            assert(j@ == JsonView::Array(items_view(items@))) by {
                crate::json::lemma_array_view(*items);
            }
            let n = items.len();
            earlier(
                at_entry(n, 0, "struct WireDeclines with 2 elements", error_in(&ron)),
                earlier(at_entry(n, 1, "struct WireDeclines with 2 elements", error_in(&call)), at_end(n, 2)),
            )
        },
        _ => Some(type_fault(j, "struct WireDeclines")),
    };
    assert(string_view(fault) == declines_fault(j@));
    match fault {
        Some(e) => Err(e),
        None => Ok(Some(ResponseOpportunities { ron: ron.unwrap(), call: call.unwrap() })),
    }
}

/// Reads the fields of an action.
fn read_shape(j: &Json) -> (r: Result<WireAction, String>)
    ensures
        match r {
            Ok(w) => shape(j@) == Ok::<WireFacts, Seq<char>>(w@),
            Err(e) => shape(j@) == Err::<WireFacts, Seq<char>>(e@),
        },
{
    let kind = due_text_of(given_in(j, "type", 0), "type");
    let actor = byte_of(field_of(j, "actor", 1));
    let pai = tile_at(field_of(j, "pai", 2));
    let tsumogiri = truth_of(field_of(j, "tsumogiri", 3));
    let riichi = truth_of(field_of(j, "riichi", 4));
    let target = byte_of(field_of(j, "target", 5));
    let consumed = tiles_at(field_of(j, "consumed", 6));
    let declines = declines_at(field_of(j, "declines", 7));
    let fault: Option<String> = match j {
        Json::Object(_) => earlier(
            error_in(&actor),
            earlier(
                error_in(&consumed),
                earlier(
                    error_in(&declines),
                    earlier(
                        error_in(&pai),
                        earlier(
                            error_in(&riichi),
                            earlier(error_in(&target), earlier(error_in(&tsumogiri), error_in(&kind))),
                        ),
                    ),
                ),
            ),
        ),
        Json::Array(items) => {
            assert(j@ == JsonView::Array(items_view(items@))) by {
                crate::json::lemma_array_view(*items);
            }
            let n = items.len();
            earlier(
                at_slot(n, 0, error_in(&kind)),
                earlier(
                    at_slot(n, 1, error_in(&actor)),
                    earlier(
                        at_slot(n, 2, error_in(&pai)),
                        earlier(
                            at_slot(n, 3, error_in(&tsumogiri)),
                            earlier(
                                at_slot(n, 4, error_in(&riichi)),
                                earlier(
                                    at_slot(n, 5, error_in(&target)),
                                    earlier(
                                        at_slot(n, 6, error_in(&consumed)),
                                        earlier(at_slot(n, 7, error_in(&declines)), at_end(n, 8)),
                                    ),
                                ),
                            ),
                        ),
                    ),
                ),
            )
        },
        _ => Some(type_fault(j, "struct WireAction")),
    };
    assert(string_view(fault) == action_fault(j@));
    match fault {
        Some(e) => Err(e),
        None => Ok(
            WireAction {
                kind: kind.unwrap(),
                actor: actor.unwrap(),
                pai: pai.unwrap(),
                tsumogiri: tsumogiri.unwrap(),
                riichi: riichi.unwrap(),
                target: target.unwrap(),
                consumed: consumed.unwrap(),
                declines: declines.unwrap(),
            },
        ),
    }
}

fn at_slot(n: usize, at: usize, e: Option<String>) -> (r: Option<String>)
    ensures
        string_view(r) == slot_fault(n as nat, at as nat, string_view(e)),
{
    at_entry(n, at, "struct WireAction with 8 elements", e)
}

// From fields to an action.

pub open spec fn needed_tile(v: Option<Tile>) -> Result<Tile, Fault> {
    match v {
        Some(t) => Ok(t),
        None => Err(protocol_fault("action missing required tile field pai"@)),
    }
}

pub open spec fn needed_truth(v: Option<bool>, name: Seq<char>) -> Result<bool, Fault> {
    match v {
        Some(b) => Ok(b),
        None => Err(protocol_fault("action missing required boolean field "@ + name)),
    }
}

pub open spec fn needed_tiles(v: Option<Seq<Tile>>, min: nat, max: nat) -> Result<Seq<Tile>, Fault> {
    match v {
        None => Err(protocol_fault("action missing required consumed field"@)),
        Some(t) => if t.len() < min || t.len() > max {
            Err(
                protocol_fault(
                    "action consumed length "@ + dec(t.len()) + " outside required range "@ + dec(min) + "..="@ + dec(max),
                ),
            )
        } else {
            Ok(t)
        },
    }
}

pub open spec fn discard_of(w: WireFacts) -> Result<ActionFacts, Fault> {
    match (needed_tile(w.pai), needed_truth(w.tsumogiri, "tsumogiri"@), needed_truth(w.riichi, "riichi"@)) {
        (Err(e), _, _) => Err(e),
        (_, Err(e), _) => Err(e),
        (_, _, Err(e)) => Err(e),
        (Ok(pai), Ok(tsumogiri), Ok(riichi)) => Ok(ActionFacts::Discard { pai, tsumogiri, riichi }),
    }
}

pub open spec fn opening_discard_of(w: WireFacts) -> Result<ActionFacts, Fault> {
    match (needed_tile(w.pai), needed_truth(w.riichi, "riichi"@)) {
        (Err(e), _) => Err(e),
        (_, Err(e)) => Err(e),
        (Ok(pai), Ok(riichi)) => Ok(ActionFacts::DealerOpeningDiscard { pai, riichi }),
    }
}

pub open spec fn kan_of(w: WireFacts, kind: KanKind) -> Result<ActionFacts, Fault> {
    match (needed_tile(w.pai), needed_tiles(w.consumed, 3, 4)) {
        (Err(e), _) => Err(e),
        (_, Err(e)) => Err(e),
        (Ok(pai), Ok(consumed)) => Ok(ActionFacts::Kan { pai, kind, consumed }),
    }
}

pub open spec fn call_of(w: WireFacts, chi: bool) -> Result<ActionFacts, Fault> {
    match (needed_tile(w.pai), needed_tiles(w.consumed, 2, 2)) {
        (Err(e), _) => Err(e),
        (_, Err(e)) => Err(e),
        (Ok(pai), Ok(consumed)) => Ok(
            if chi { ActionFacts::Chi { pai, consumed } } else { ActionFacts::Pon { pai, consumed } },
        ),
    }
}

pub open spec fn ron_of(w: WireFacts) -> Result<ActionFacts, Fault> {
    match (needed_tile(w.pai), w.target) {
        (Err(e), _) => Err(e),
        (_, None) => Err(protocol_fault("action missing required target field"@)),
        (Ok(pai), Some(target)) => Ok(ActionFacts::Ron { pai, target }),
    }
}

pub open spec fn players_text(four: bool) -> Seq<char> {
    if four { "4p"@ } else { "3p"@ }
}

/// The action that the fields name at a table.
pub open spec fn action_of(w: WireFacts, four: bool) -> Result<ActionFacts, Fault> {
    if w.kind == "dahai"@ {
        discard_of(w)
    } else if w.kind == "dealer_opening_dahai"@ {
        opening_discard_of(w)
    } else if w.kind == "ankan"@ {
        kan_of(w, KanKind::Ankan)
    } else if w.kind == "kakan"@ {
        kan_of(w, KanKind::Kakan)
    } else if w.kind == "daiminkan"@ {
        kan_of(w, KanKind::Daiminkan)
    } else if w.kind == "tsumo"@ {
        match w.pai {
            Some(pai) => Ok(ActionFacts::Tsumo { pai }),
            None => Ok(ActionFacts::DealerOpeningTsumo),
        }
    } else if w.kind == "kyushukyuhai"@ {
        Ok(ActionFacts::Kyushukyuhai)
    } else if w.kind == "pass_all"@ {
        match w.declines {
            Some(declines) => Ok(ActionFacts::PassAll { declines }),
            None => Err(protocol_fault("pass_all action missing declines"@)),
        }
    } else if w.kind == "pon"@ {
        call_of(w, false)
    } else if w.kind == "ron"@ {
        ron_of(w)
    } else if w.kind == "chi"@ {
        if four { call_of(w, true) } else { Err(protocol_fault("3p action cannot be chi"@)) }
    } else if w.kind == "nukidora"@ && !four {
        Ok(ActionFacts::Nukidora)
    } else {
        Err(protocol_fault("unknown "@ + players_text(four) + " action type "@ + quoted(w.kind)))
    }
}

/// The action that a message names for a seat of a table.
pub open spec fn parsed_action(j: JsonView, seat: u8, four: bool) -> Result<ActionFacts, Fault> {
    match shape(j) {
        Err(e) => Err(protocol_fault("invalid "@ + players_text(four) + " action wire shape: "@ + e)),
        Ok(w) => if w.actor is Some && w.actor->0 != seat {
            Err(fault(InferenceErrorKind::InvalidAction, "action actor does not match requested seat"@))
        } else {
            action_of(w, four)
        },
    }
}

/// An action or an error, as facts.
pub open spec fn action_result(r: Result<LegalAction, InferenceError>) -> Result<ActionFacts, Fault> {
    match r {
        Ok(a) => Ok(a@),
        Err(e) => Err(e@),
    }
}

fn require_tile(v: Option<Tile>) -> (r: Result<Tile, InferenceError>)
    ensures
        match r {
            Ok(t) => needed_tile(v) == Ok::<Tile, Fault>(t),
            Err(e) => needed_tile(v) == Err::<Tile, Fault>(e@),
        },
{
    match v {
        Some(t) => Ok(t),
        None => Err(inference_error(InferenceErrorKind::Protocol, "action missing required tile field pai")),
    }
}

fn require_bool(v: Option<bool>, name: &str) -> (r: Result<bool, InferenceError>)
    ensures
        match r {
            Ok(b) => needed_truth(v, name@) == Ok::<bool, Fault>(b),
            Err(e) => needed_truth(v, name@) == Err::<bool, Fault>(e@),
        },
{
    match v {
        Some(b) => Ok(b),
        None => {
            let d = join2("action missing required boolean field ", name);
            Err(inference_error(InferenceErrorKind::Protocol, d.as_str()))
        },
    }
}

fn require_consumed_len(v: Option<Vec<Tile>>, min: usize, max: usize) -> (r: Result<Vec<Tile>, InferenceError>)
    ensures
        match r {
            Ok(t) => needed_tiles(tiles_option(v), min as nat, max as nat) == Ok::<Seq<Tile>, Fault>(t@),
            Err(e) => needed_tiles(tiles_option(v), min as nat, max as nat) == Err::<Seq<Tile>, Fault>(e@),
        },
{
    match v {
        None => Err(inference_error(InferenceErrorKind::Protocol, "action missing required consumed field")),
        Some(t) => {
            if t.len() < min || t.len() > max {
                let mut d = join3("action consumed length ", dec_usize(t.len()).as_str(), " outside required range ");
                d.append(dec_usize(min).as_str());
                d.append("..=");
                d.append(dec_usize(max).as_str());
                Err(inference_error(InferenceErrorKind::Protocol, d.as_str()))
            } else {
                Ok(t)
            }
        },
    }
}

fn kan_from(w: WireAction, kind: KanKind) -> (r: Result<LegalAction, InferenceError>)
    ensures
        action_result(r) == kan_of(w@, kind),
{
    let pai = match require_tile(w.pai) {
        Ok(t) => t,
        Err(e) => {
            return Err(e);
        },
    };
    match require_consumed_len(w.consumed, 3, 4) {
        Ok(consumed) => Ok(LegalAction::Kan { pai, kind, consumed }),
        Err(e) => Err(e),
    }
}

fn call_from(w: WireAction, chi: bool) -> (r: Result<LegalAction, InferenceError>)
    ensures
        action_result(r) == call_of(w@, chi),
{
    let pai = match require_tile(w.pai) {
        Ok(t) => t,
        Err(e) => {
            return Err(e);
        },
    };
    match require_consumed_len(w.consumed, 2, 2) {
        Ok(v) => {
            let consumed = [v[0], v[1]];
            assert(consumed@ =~= v@);
            if chi {
                Ok(LegalAction::Chi { pai, consumed })
            } else {
                Ok(LegalAction::Pon { pai, consumed })
            }
        },
        Err(e) => Err(e),
    }
}

fn discard_from(w: &WireAction) -> (r: Result<LegalAction, InferenceError>)
    ensures
        action_result(r) == discard_of(w@),
{
    match require_tile(w.pai) {
        Err(e) => Err(e),
        Ok(pai) => match require_bool(w.tsumogiri, "tsumogiri") {
            Err(e) => Err(e),
            Ok(tsumogiri) => match require_bool(w.riichi, "riichi") {
                Err(e) => Err(e),
                Ok(riichi) => Ok(LegalAction::Discard { pai, tsumogiri, riichi }),
            },
        },
    }
}

fn opening_discard_from(w: &WireAction) -> (r: Result<LegalAction, InferenceError>)
    ensures
        action_result(r) == opening_discard_of(w@),
{
    match require_tile(w.pai) {
        Err(e) => Err(e),
        Ok(pai) => match require_bool(w.riichi, "riichi") {
            Err(e) => Err(e),
            Ok(riichi) => Ok(LegalAction::DealerOpeningDiscard { pai, riichi }),
        },
    }
}

fn ron_from(w: &WireAction) -> (r: Result<LegalAction, InferenceError>)
    ensures
        action_result(r) == ron_of(w@),
{
    match require_tile(w.pai) {
        Err(e) => Err(e),
        Ok(pai) => match w.target {
            None => Err(inference_error(InferenceErrorKind::Protocol, "action missing required target field")),
            Some(target) => Ok(LegalAction::Ron { pai, target }),
        },
    }
}

fn action_from(w: WireAction, four: bool) -> (r: Result<LegalAction, InferenceError>)
    ensures
        action_result(r) == action_of(w@, four),
{
    let kind = w.kind.as_str();
    if same(kind, "dahai") {
        discard_from(&w)
    } else if same(kind, "dealer_opening_dahai") {
        opening_discard_from(&w)
    } else if same(kind, "ankan") {
        kan_from(w, KanKind::Ankan)
    } else if same(kind, "kakan") {
        kan_from(w, KanKind::Kakan)
    } else if same(kind, "daiminkan") {
        kan_from(w, KanKind::Daiminkan)
    } else if same(kind, "tsumo") {
        match w.pai {
            Some(pai) => Ok(LegalAction::Tsumo { pai }),
            None => Ok(LegalAction::DealerOpeningTsumo),
        }
    } else if same(kind, "kyushukyuhai") {
        Ok(LegalAction::Kyushukyuhai)
    } else if same(kind, "pass_all") {
        match w.declines {
            Some(declines) => Ok(LegalAction::PassAll { declines }),
            None => Err(inference_error(InferenceErrorKind::Protocol, "pass_all action missing declines")),
        }
    } else if same(kind, "pon") {
        call_from(w, false)
    } else if same(kind, "ron") {
        ron_from(&w)
    } else if same(kind, "chi") {
        if four {
            call_from(w, true)
        } else {
            Err(inference_error(InferenceErrorKind::Protocol, "3p action cannot be chi"))
        }
    } else if same(kind, "nukidora") && !four {
        Ok(LegalAction::Nukidora)
    } else {
        let mut d = join3("unknown ", if four { "4p" } else { "3p" }, " action type ");
        d.append(quote(kind).as_str());
        Err(inference_error(InferenceErrorKind::Protocol, d.as_str()))
    }
}

fn parse_action(j: &Json, seat: u8, four: bool) -> (r: Result<LegalAction, InferenceError>)
    ensures
        action_result(r) == parsed_action(j@, seat, four),
{
    let w = match read_shape(j) {
        Ok(w) => w,
        Err(e) => {
            let mut d = join3("invalid ", if four { "4p" } else { "3p" }, " action wire shape: ");
            d.append(e.as_str());
            return Err(inference_error(InferenceErrorKind::Protocol, d.as_str()));
        },
    };
    match w.actor {
        Some(a) => {
            if a != seat {
                return Err(
                    inference_error(InferenceErrorKind::InvalidAction, "action actor does not match requested seat"),
                );
            }
        },
        None => {},
    }
    action_from(w, four)
}

/// Reads a legal action of a four-player table from a message; the inverse of
/// [`crate::inference::wire::legal_action_4p_to_wire`].
pub fn parse_legal_action_4p(value: &Json, seat: u8) -> (r: Result<LegalAction, InferenceError>)
    ensures
        action_result(r) == parsed_action(value@, seat, true),
{
    parse_action(value, seat, true)
}

/// Reads a legal action of a three-player table from a message; the inverse of
/// [`crate::inference::wire::legal_action_3p_to_wire`].
pub fn parse_legal_action_3p(value: &Json, seat: u8) -> (r: Result<LegalAction, InferenceError>)
    ensures
        action_result(r) == parsed_action(value@, seat, false),
{
    parse_action(value, seat, false)
}

// Under a protocol.

pub open spec fn starts_with(s: Seq<char>, head: Seq<char>) -> bool {
    head.len() <= s.len() && s.take(head.len() as int) == head
}

/// Why an action cannot be named under a protocol: the first version knows no dealer opening.
pub open spec fn protocol_action_fault(j: JsonView, v1: bool) -> Option<Fault> {
    if !v1 {
        None
    } else if j.text_at("type"@) is Some && starts_with(j.text_at("type"@)->0, "dealer_opening"@) {
        Some(protocol_fault("dealer_opening actions require flya-inference-v2"@))
    } else if j.text_at("type"@) == Some("tsumo"@) && (j.get("pai"@) is None || j.get("pai"@) == Some(JsonView::Null)) {
        Some(protocol_fault("v1 tsumo actions require pai"@))
    } else {
        None
    }
}

/// The action of a reply.
pub open spec fn response_action(j: JsonView, seat: u8, four: bool, v1: bool) -> Result<ActionFacts, Fault> {
    match protocol_action_fault(j, v1) {
        Some(e) => Err(e),
        None => parsed_action(j, seat, four),
    }
}

fn has_prefix(s: &str, head: &str) -> (r: bool)
    ensures
        r == starts_with(s@, head@),
{
    let a = crate::text::chars_of(s);
    let b = crate::text::chars_of(head);
    if b.len() > a.len() {
        return false;
    }
    let mut i: usize = 0;
    while i < b.len()
        invariant
            i <= b@.len() <= a@.len(),
            a@ == s@,
            b@ == head@,
            forall|j: int| 0 <= j < i ==> a@[j] == b@[j],
        decreases b@.len() - i,
    {
        if a[i] != b[i] {
            assert(a@.take(b@.len() as int)[i as int] != b@[i as int]);
            return false;
        }
        i = i + 1;
    }
    assert(a@.take(b@.len() as int) =~= b@);
    true
}

/// Whether an error is there, as facts.
pub open spec fn fault_option(r: Result<(), InferenceError>) -> Option<Fault> {
    match r {
        Ok(_) => None,
        Err(e) => Some(e@),
    }
}

pub fn validate_response_action_protocol(value: &Json, protocol: &str) -> (r: Result<(), InferenceError>)
    ensures
        fault_option(r) == protocol_action_fault(value@, protocol@ == FLYA_INFERENCE_PROTOCOL_V1@),
{
    if !same(protocol, FLYA_INFERENCE_PROTOCOL_V1) {
        return Ok(());
    }
    match value.text_at("type") {
        Some(kind) => {
            if has_prefix(kind, "dealer_opening") {
                return Err(
                    inference_error(InferenceErrorKind::Protocol, "dealer_opening actions require flya-inference-v2"),
                );
            }
            let no_tile = match value.get("pai") {
                None => true,
                Some(p) => matches!(p, Json::Null),
            };
            if same(kind, "tsumo") && no_tile {
                return Err(inference_error(InferenceErrorKind::Protocol, "v1 tsumo actions require pai"));
            }
            Ok(())
        },
        None => Ok(()),
    }
}

pub fn parse_response_action_4p(value: &Json, seat: u8, protocol: &str) -> (r: Result<LegalAction, InferenceError>)
    ensures
        action_result(r) == response_action(value@, seat, true, protocol@ == FLYA_INFERENCE_PROTOCOL_V1@),
{
    match validate_response_action_protocol(value, protocol) {
        Ok(_) => parse_action(value, seat, true),
        Err(e) => Err(e),
    }
}

pub fn parse_response_action_3p(value: &Json, seat: u8, protocol: &str) -> (r: Result<LegalAction, InferenceError>)
    ensures
        action_result(r) == response_action(value@, seat, false, protocol@ == FLYA_INFERENCE_PROTOCOL_V1@),
{
    match validate_response_action_protocol(value, protocol) {
        Ok(_) => parse_action(value, seat, false),
        Err(e) => Err(e),
    }
}

// Among the legal actions.

/// An engine's action stands for a legal one: the same, or one that names the dealer's opening
/// as an ordinary turn.
pub open spec fn stands_for(legal: ActionFacts, action: ActionFacts) -> bool {
    match (legal, action) {
        (ActionFacts::DealerOpeningDiscard { pai, riichi }, ActionFacts::Discard { pai: p, riichi: r, .. }) => pai == p
            && riichi == r,
        (ActionFacts::DealerOpeningTsumo, ActionFacts::Tsumo { .. }) => true,
        _ => legal == action,
    }
}

/// The first legal action that an action stands for.
pub open spec fn legal_index(legal: Seq<ActionFacts>, action: ActionFacts) -> Option<int> {
    if exists|i: int| 0 <= i < legal.len() && stands_for(#[trigger] legal[i], action) {
        Some(
            choose|i: int|
                0 <= i < legal.len() && stands_for(#[trigger] legal[i], action) && forall|j: int|
                    0 <= j < i ==> !stands_for(#[trigger] legal[j], action),
        )
    } else {
        None
    }
}

/// The place of an action among the legal ones, or that it is not there.
pub open spec fn matched(legal: Seq<ActionFacts>, action: ActionFacts, four: bool) -> Result<int, Fault> {
    match legal_index(legal, action) {
        Some(i) => Ok(i),
        None => Err(
            fault(
                InferenceErrorKind::InvalidAction,
                "engine action does not exactly match current "@ + players_text(four) + " legal list: "@ + action_text(action),
            ),
        ),
    }
}

/// Whether an action stands for a legal one.
fn equivalent(legal: &LegalAction, action: &LegalAction) -> (r: bool)
    ensures
        r == stands_for(legal@, action@),
{
    match (legal, action) {
        (LegalAction::DealerOpeningDiscard { pai, riichi }, LegalAction::Discard { pai: p, riichi: q, .. }) => *pai == *p
            && *riichi == *q,
        (LegalAction::DealerOpeningTsumo, LegalAction::Tsumo { .. }) => true,
        _ => legal.same_as(action),
    }
}

/// The first legal action that an action stands for.
pub fn find_legal(legal: &[LegalAction], action: &LegalAction) -> (r: Option<usize>)
    ensures
        match r {
            Some(i) => legal_index(actions_view(legal@), action@) == Some(i as int) && i < legal@.len(),
            None => legal_index(actions_view(legal@), action@) is None,
        },
{
    let ghost all = actions_view(legal@);
    let mut i: usize = 0;
    while i < legal.len()
        invariant
            i <= legal@.len(),
            all == actions_view(legal@),
            forall|j: int| 0 <= j < i ==> !stands_for(#[trigger] all[j], action@),
        decreases legal@.len() - i,
    {
        assert(all[i as int] == legal@[i as int]@);
        if equivalent(&legal[i], action) {
            proof {
                let k = legal_index(all, action@)->0;
                assert(stands_for(all[i as int], action@));
                assert(0 <= i < all.len() && stands_for(all[i as int], action@) && forall|j: int|
                    0 <= j < i ==> !stands_for(#[trigger] all[j], action@));
                assert(k == i);
            }
            return Some(i);
        }
        i = i + 1;
    }
    None
}

fn match_index(action: &LegalAction, legal: &[LegalAction], four: bool) -> (r: Result<usize, InferenceError>)
    ensures
        match r {
            Ok(i) => matched(actions_view(legal@), action@, four) == Ok::<int, Fault>(i as int) && i < legal@.len(),
            Err(e) => matched(actions_view(legal@), action@, four) == Err::<int, Fault>(e@),
        },
{
    match find_legal(legal, action) {
        Some(i) => Ok(i),
        None => {
            let mut d = join3(
                "engine action does not exactly match current ",
                if four { "4p" } else { "3p" },
                " legal list: ",
            );
            d.append(action.describe().as_str());
            Err(inference_error(InferenceErrorKind::InvalidAction, d.as_str()))
        },
    }
}

/// The place of an action among the legal ones of a four-player table.
pub fn match_index_4p(action: &LegalAction, legal: &[LegalAction]) -> (r: Result<usize, InferenceError>)
    ensures
        match r {
            Ok(i) => matched(actions_view(legal@), action@, true) == Ok::<int, Fault>(i as int) && i < legal@.len(),
            Err(e) => matched(actions_view(legal@), action@, true) == Err::<int, Fault>(e@),
        },
{
    match_index(action, legal, true)
}

/// The place of an action among the legal ones of a three-player table.
pub fn match_index_3p(action: &LegalAction, legal: &[LegalAction]) -> (r: Result<usize, InferenceError>)
    ensures
        match r {
            Ok(i) => matched(actions_view(legal@), action@, false) == Ok::<int, Fault>(i as int) && i < legal@.len(),
            Err(e) => matched(actions_view(legal@), action@, false) == Err::<int, Fault>(e@),
        },
{
    match_index(action, legal, false)
}

} // verus!
