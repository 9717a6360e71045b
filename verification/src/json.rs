//! JSON values: reading, building, comparing and writing them.

use serde_json::Value;
use vstd::prelude::*;
use vstd::string::*;
use crate::text::{dec, dec_i64, dec_int, dec_u64, chars_of, owned, same};

verus! {

/// A number with a fraction or an exponent: the bits of its IEEE 754 double, and its shortest
/// decimal text.
#[derive(Debug, PartialEq, Eq)]
pub struct JsonFloat {
    pub bits: u64,
    pub text: String,
}

/// A JSON value. The members of an object are ordered by key, each key once, but for records,
/// whose members keep their own order.
#[derive(Debug, PartialEq, Eq)]
pub enum Json {
    Null,
    Bool(bool),
    UInt(u64),
    Int(i64),
    Float(JsonFloat),
    Text(String),
    Array(Vec<Json>),
    Object(Vec<(String, Json)>),
}

/// What a JSON value says.
#[allow(inconsistent_fields)]
pub ghost enum JsonView {
    Null,
    Bool(bool),
    UInt(u64),
    Int(i64),
    Float(u64, Seq<char>),
    Text(Seq<char>),
    Array(Seq<JsonView>),
    Object(Seq<(Seq<char>, JsonView)>),
}

impl View for Json {
    type V = JsonView;

    open spec fn view(&self) -> JsonView {
        json_view(*self)
    }
}

pub open spec fn json_view(j: Json) -> JsonView
    decreases j,
{
    match j {
        Json::Null => JsonView::Null,
        Json::Bool(b) => JsonView::Bool(b),
        Json::UInt(n) => JsonView::UInt(n),
        Json::Int(n) => JsonView::Int(n),
        Json::Float(f) => JsonView::Float(f.bits, f.text@),
        Json::Text(s) => JsonView::Text(s@),
        Json::Array(items) => JsonView::Array(
            Seq::new(
                items@.len(),
                |i: int| if 0 <= i < items@.len() { json_view(items@[i]) } else { JsonView::Null },
            ),
        ),
        Json::Object(members) => JsonView::Object(
            Seq::new(
                members@.len(),
                |i: int|
                    if 0 <= i < members@.len() {
                        (members@[i].0@, json_view(members@[i].1))
                    } else {
                        (Seq::empty(), JsonView::Null)
                    },
            ),
        ),
    }
}

pub open spec fn items_view(items: Seq<Json>) -> Seq<JsonView> {
    Seq::new(items.len(), |i: int| items[i]@)
}

pub open spec fn members_view(members: Seq<(String, Json)>) -> Seq<(Seq<char>, JsonView)> {
    Seq::new(members.len(), |i: int| (members[i].0@, members[i].1@))
}

pub(crate) proof fn lemma_array_view(items: Vec<Json>)
    ensures
        Json::Array(items)@ == JsonView::Array(items_view(items@)),
{
    let a = Json::Array(items)@->Array_0;
    assert(a =~= items_view(items@));
}

proof fn lemma_object_view(members: Vec<(String, Json)>)
    ensures
        Json::Object(members)@ == JsonView::Object(members_view(members@)),
{
    let a = Json::Object(members)@->Object_0;
    assert(a =~= members_view(members@));
}

proof fn lemma_items_push(items: Seq<Json>, j: Json)
    ensures
        items_view(items.push(j)) == items_view(items).push(j@),
{
    assert(items_view(items.push(j)) =~= items_view(items).push(j@));
}

proof fn lemma_members_push(members: Seq<(String, Json)>, m: (String, Json))
    ensures
        members_view(members.push(m)) == members_view(members).push((m.0@, m.1@)),
{
    assert(members_view(members.push(m)) =~= members_view(members).push((m.0@, m.1@)));
}

proof fn lemma_item_smaller(j: Json, i: int)
    requires
        j is Array,
        0 <= i < j->Array_0@.len(),
    ensures
        decreases_to!(j => j->Array_0@[i]),
{
    let items = j->Array_0;
    assert(decreases_to!(j => items));
    assert(decreases_to!(items => items[i]));
}

proof fn lemma_member_smaller(j: Json, i: int)
    requires
        j is Object,
        0 <= i < j->Object_0@.len(),
    ensures
        decreases_to!(j => j->Object_0@[i].1),
{
    let members = j->Object_0;
    assert(decreases_to!(j => members));
    assert(decreases_to!(members => members[i]));
    assert(decreases_to!(members[i] => members[i].1));
}

/// An integer as a JSON value.
pub open spec fn number(n: int) -> JsonView {
    if n >= 0 { JsonView::UInt(n as u64) } else { JsonView::Int(n as i64) }
}

/// The first member under a key.
pub open spec fn find_member(m: Seq<(Seq<char>, JsonView)>, key: Seq<char>) -> Option<JsonView>
    decreases m.len(),
{
    if m.len() == 0 {
        None
    } else if m[0].0 == key {
        Some(m[0].1)
    } else {
        find_member(m.drop_first(), key)
    }
}

/// The order of keys: by their characters, first difference first.
pub open spec fn key_less(a: Seq<char>, b: Seq<char>) -> bool
    decreases a.len(),
{
    if b.len() == 0 {
        false
    } else if a.len() == 0 {
        true
    } else if a[0] == b[0] {
        key_less(a.drop_first(), b.drop_first())
    } else {
        (a[0] as u32) < (b[0] as u32)
    }
}

/// Members with one set: in the place of its key, or before the first greater one.
pub open spec fn with_member(m: Seq<(Seq<char>, JsonView)>, key: Seq<char>, v: JsonView) -> Seq<(Seq<char>, JsonView)>
    decreases m.len(),
{
    if m.len() == 0 {
        seq![(key, v)]
    } else if m[0].0 == key {
        seq![(key, v)] + m.drop_first()
    } else if key_less(key, m[0].0) {
        seq![(key, v)] + m
    } else {
        seq![m[0]] + with_member(m.drop_first(), key, v)
    }
}

/// Members without the first under a key.
pub open spec fn without_member(m: Seq<(Seq<char>, JsonView)>, key: Seq<char>) -> Seq<(Seq<char>, JsonView)>
    decreases m.len(),
{
    if m.len() == 0 {
        m
    } else if m[0].0 == key {
        m.drop_first()
    } else {
        seq![m[0]] + without_member(m.drop_first(), key)
    }
}

impl JsonView {
    pub open spec fn object() -> JsonView {
        JsonView::Object(Seq::empty())
    }

    /// The member of an object under a key.
    pub open spec fn get(self, key: Seq<char>) -> Option<JsonView> {
        match self {
            JsonView::Object(m) => find_member(m, key),
            _ => None,
        }
    }

    pub open spec fn as_text(self) -> Option<Seq<char>> {
        match self {
            JsonView::Text(s) => Some(s),
            _ => None,
        }
    }

    pub open spec fn as_bool(self) -> Option<bool> {
        match self {
            JsonView::Bool(b) => Some(b),
            _ => None,
        }
    }

    pub open spec fn as_u64(self) -> Option<u64> {
        match self {
            JsonView::UInt(n) => Some(n),
            _ => None,
        }
    }

    pub open spec fn as_array(self) -> Option<Seq<JsonView>> {
        match self {
            JsonView::Array(s) => Some(s),
            _ => None,
        }
    }

    pub open spec fn as_float(self) -> Option<(u64, Seq<char>)> {
        match self {
            JsonView::UInt(n) => Some(uint_float(n)),
            JsonView::Int(n) => Some(int_float(n)),
            JsonView::Float(bits, text) => Some((bits, text)),
            _ => None,
        }
    }

    pub open spec fn float_at(self, key: Seq<char>) -> Option<(u64, Seq<char>)> {
        match self.get(key) {
            Some(v) => v.as_float(),
            None => None,
        }
    }

    pub open spec fn text_at(self, key: Seq<char>) -> Option<Seq<char>> {
        match self.get(key) {
            Some(v) => v.as_text(),
            None => None,
        }
    }

    pub open spec fn bool_at(self, key: Seq<char>) -> Option<bool> {
        match self.get(key) {
            Some(v) => v.as_bool(),
            None => None,
        }
    }

    pub open spec fn u64_at(self, key: Seq<char>) -> Option<u64> {
        match self.get(key) {
            Some(v) => v.as_u64(),
            None => None,
        }
    }

    pub open spec fn array_at(self, key: Seq<char>) -> Option<Seq<JsonView>> {
        match self.get(key) {
            Some(v) => v.as_array(),
            None => None,
        }
    }

    /// The object with a member set.
    pub open spec fn with(self, key: Seq<char>, v: JsonView) -> JsonView {
        match self {
            JsonView::Object(m) => JsonView::Object(with_member(m, key, v)),
            _ => self,
        }
    }

    /// The object without a member.
    pub open spec fn without(self, key: Seq<char>) -> JsonView {
        match self {
            JsonView::Object(m) => JsonView::Object(without_member(m, key)),
            _ => self,
        }
    }
}

/// A reference to a value, as what it says.
pub open spec fn json_option(r: Option<&Json>) -> Option<JsonView> {
    match r {
        Some(v) => Some(v@),
        None => None,
    }
}

/// A text that may be there.
pub open spec fn text_option(r: Option<&str>) -> Option<Seq<char>> {
    match r {
        Some(s) => Some(s@),
        None => None,
    }
}

/// The text of a value: no spaces, members in their order.
pub open spec fn written(j: JsonView) -> Seq<char>
    decreases j, 0nat,
{
    match j {
        JsonView::Null => "null"@,
        JsonView::Bool(b) => if b { "true"@ } else { "false"@ },
        JsonView::UInt(n) => dec(n as nat),
        JsonView::Int(n) => dec_int(n as int),
        JsonView::Float(_, text) => text,
        JsonView::Text(s) => json_quoted(s),
        JsonView::Array(items) => "["@ + written_items(items, items.len()) + "]"@,
        JsonView::Object(members) => "{"@ + written_members(members, members.len()) + "}"@,
    }
}

/// The first `n` items, with commas between them.
pub open spec fn written_items(items: Seq<JsonView>, n: nat) -> Seq<char>
    decreases items, n,
{
    if n == 0 || n > items.len() {
        Seq::empty()
    } else {
        written_items(items, (n - 1) as nat) + (if n > 1 { ","@ } else { Seq::empty() }) + written(items[n - 1])
    }
}

/// The first `n` members, with commas between them.
pub open spec fn written_members(members: Seq<(Seq<char>, JsonView)>, n: nat) -> Seq<char>
    decreases members, n,
{
    if n == 0 || n > members.len() {
        Seq::empty()
    } else {
        written_members(members, (n - 1) as nat) + (if n > 1 { ","@ } else { Seq::empty() }) + json_quoted(members[n - 1].0) + ":"@
            + written(members[n - 1].1)
    }
}

/// A document with the members of every object ordered by key, each key once with its last value.
pub open spec fn canonical(j: JsonView) -> JsonView
    decreases j, 0nat,
{
    match j {
        JsonView::Array(items) => JsonView::Array(canonical_items(items, items.len())),
        JsonView::Object(members) => JsonView::Object(canonical_members(members, members.len())),
        _ => j,
    }
}

/// The first `n` items, each with its members ordered.
pub open spec fn canonical_items(items: Seq<JsonView>, n: nat) -> Seq<JsonView>
    decreases items, n,
{
    if n == 0 || n > items.len() {
        Seq::empty()
    } else {
        canonical_items(items, (n - 1) as nat).push(canonical(items[n - 1]))
    }
}

/// The first `n` members, ordered by key.
pub open spec fn canonical_members(members: Seq<(Seq<char>, JsonView)>, n: nat) -> Seq<(Seq<char>, JsonView)>
    decreases members, n,
{
    if n == 0 || n > members.len() {
        Seq::empty()
    } else {
        with_member(canonical_members(members, (n - 1) as nat), members[n - 1].0, canonical(members[n - 1].1))
    }
}

/// What `serde_json::to_string` gives for a string.
pub uninterp spec fn json_quoted(s: Seq<char>) -> Seq<char>;

/// `serde_json::to_string` of a string: the string in double quotes, with what JSON cannot hold
/// in quotes escaped. Writing a string does not fail. The text is a function of the string.
#[verifier::external_body]
fn quote_json(s: &str) -> (r: String)
    ensures
        r@ == json_quoted(s@),
{
    serde_json::to_string(s).unwrap_or_default()
}

/// What `serde_json::from_str` reads in a text: the document, or why there is none.
pub uninterp spec fn parsed_json(text: Seq<char>) -> Result<JsonView, Seq<char>>;

/// The document of `serde_json`.
#[verifier::external_type_specification]
#[verifier::external_body]
pub struct ExValue(serde_json::Value);

/// A document or a reason, as facts.
pub open spec fn json_result(r: Result<Json, String>) -> Result<JsonView, Seq<char>> {
    match r {
        Ok(j) => Ok(j@),
        Err(e) => Err(e@),
    }
}

/// A `serde_json::Value`, variant by variant: the members of an object in the order of its map,
/// and a number as the kind of number that it is. Nothing is claimed of it here; it is part of
/// what `parse_json` claims.
#[verifier::external_body]
fn json_of(value: Value) -> Json {
    match value {
        Value::Null => Json::Null,
        Value::Bool(b) => Json::Bool(b),
        Value::Number(n) => match (n.as_u64(), n.as_i64()) {
            (Some(u), _) => Json::UInt(u),
            (None, Some(i)) => Json::Int(i),
            _ => Json::Float(JsonFloat { bits: n.as_f64().unwrap_or_default().to_bits(), text: n.to_string() }),
        },
        Value::String(s) => Json::Text(s),
        Value::Array(v) => Json::Array(v.into_iter().map(json_of).collect()),
        Value::Object(m) => Json::Object(m.into_iter().map(|(k, v)| (k, json_of(v))).collect()),
    }
}

/// `serde_json::from_str` into a `serde_json::Value`: the document that the text holds, value by
/// value, or the words of the error. Both are functions of the text.
#[verifier::external_body]
pub(crate) fn parse_json(text: &str) -> (r: Result<Json, String>)
    ensures
        json_result(r) == parsed_json(text@),
{
    match serde_json::from_str::<Value>(text) {
        Ok(value) => Ok(json_of(value)),
        Err(error) => Err(error.to_string()),
    }
}

/// The bits and the text of a natural number as an IEEE 754 double.
pub uninterp spec fn uint_float(n: u64) -> (u64, Seq<char>);

/// The bits and the text of a negative integer as an IEEE 754 double.
pub uninterp spec fn int_float(n: i64) -> (u64, Seq<char>);

/// `serde_json::Number::as_f64` of a natural number: the nearest double, with its text as
/// `serde_json` writes a double. Both are functions of the number.
#[verifier::external_body]
fn float_of_uint(n: u64) -> (r: JsonFloat)
    ensures
        (r.bits, r.text@) == uint_float(n),
{
    let f = serde_json::Number::from(n).as_f64().unwrap_or_default();
    JsonFloat { bits: f.to_bits(), text: serde_json::Value::from(f).to_string() }
}

/// `serde_json::Number::as_f64` of an integer: the nearest double, with its text as
/// `serde_json` writes a double. Both are functions of the number.
#[verifier::external_body]
fn float_of_int(n: i64) -> (r: JsonFloat)
    ensures
        (r.bits, r.text@) == int_float(n),
{
    let f = serde_json::Number::from(n).as_f64().unwrap_or_default();
    JsonFloat { bits: f.to_bits(), text: serde_json::Value::from(f).to_string() }
}

/// The bit that tells the sign of a double.
pub const SIGN_BIT: u64 = 0x8000_0000_0000_0000;
/// The bits of the first value that is not finite.
pub const NOT_FINITE: u64 = 0x7FF0_0000_0000_0000;
/// The bits of one.
pub const ONE_BITS: u64 = 0x3FF0_0000_0000_0000;

/// A number by which doubles are ordered: bits without a sign grow with the value, and both
/// zeros are equal.
pub open spec fn float_rank(bits: u64) -> int {
    if bits >= SIGN_BIT { -(bits - SIGN_BIT) } else { bits as int }
}

/// The bits are those of a finite double.
pub open spec fn is_finite(bits: u64) -> bool {
    (if bits >= SIGN_BIT { bits - SIGN_BIT } else { bits as int }) < NOT_FINITE
}

impl JsonFloat {
    pub fn finite(&self) -> (r: bool)
        ensures
            r == is_finite(self.bits),
    {
        if self.bits >= SIGN_BIT {
            self.bits - SIGN_BIT < NOT_FINITE
        } else {
            self.bits < NOT_FINITE
        }
    }

    /// The number by which doubles are ordered.
    pub fn rank(&self) -> (r: i64)
        ensures
            r == float_rank(self.bits),
    {
        if self.bits >= SIGN_BIT {
            0i64 - (self.bits - SIGN_BIT) as i64
        } else {
            self.bits as i64
        }
    }
}

/// Setting a member gives it back, and leaves the others.
pub proof fn set_member_is_read_back(m: Seq<(Seq<char>, JsonView)>, key: Seq<char>, v: JsonView, other: Seq<char>)
    ensures
        find_member(with_member(m, key, v), other) == if other == key { Some(v) } else { find_member(m, other) },
    decreases m.len(),
{
    if m.len() > 0 {
        set_member_is_read_back(m.drop_first(), key, v, other);
        let w = with_member(m, key, v);
        if m[0].0 == key {
            assert(w.drop_first() =~= m.drop_first());
        } else if key_less(key, m[0].0) {
            assert(w.drop_first() =~= m);
        } else {
            assert(w.drop_first() =~= with_member(m.drop_first(), key, v));
        }
    } else {
        assert(seq![(key, v)].drop_first() =~= m);
    }
}

/// The members of an object are ordered by key.
pub open spec fn is_ordered(m: Seq<(Seq<char>, JsonView)>) -> bool {
    forall|i: int| 0 < i < m.len() ==> key_less(#[trigger] m[i - 1].0, m[i].0)
}

proof fn lemma_one_is_less(a: Seq<char>, b: Seq<char>)
    ensures
        a == b || key_less(a, b) || key_less(b, a),
    decreases a.len(),
{
    if a.len() > 0 && b.len() > 0 && a[0] == b[0] {
        lemma_one_is_less(a.drop_first(), b.drop_first());
        assert(a =~= seq![a[0]] + a.drop_first());
        assert(b =~= seq![b[0]] + b.drop_first());
    } else if a.len() == 0 && b.len() == 0 {
        assert(a =~= b);
    } else if a.len() > 0 && b.len() > 0 {
        vstd::utf8::char_u32_cast(a[0], a[0] as u32);
        vstd::utf8::char_u32_cast(b[0], b[0] as u32);
    }
}

/// Setting a member keeps the members ordered by key, so that the text of an object does not
/// depend on the order in which it was built.
pub proof fn members_stay_ordered(m: Seq<(Seq<char>, JsonView)>, key: Seq<char>, v: JsonView)
    requires
        is_ordered(m),
    ensures
        is_ordered(with_member(m, key, v)),
        with_member(m, key, v).len() > 0,
        with_member(m, key, v)[0].0 == key || (m.len() > 0 && with_member(m, key, v)[0].0 == m[0].0),
    decreases m.len(),
{
    let w = with_member(m, key, v);
    if m.len() > 0 {
        let rest = m.drop_first();
        assert forall|i: int| 0 < i < rest.len() implies key_less(#[trigger] rest[i - 1].0, rest[i].0) by {
            assert(key_less(m[i + 1 - 1].0, m[i + 1].0));
        }
        members_stay_ordered(rest, key, v);
        lemma_one_is_less(key, m[0].0);
        let tail = with_member(rest, key, v);
        assert forall|i: int| 0 < i < w.len() implies key_less(#[trigger] w[i - 1].0, w[i].0) by {
            if m[0].0 == key {
                assert(key_less(m[i - 1].0, m[i].0));
            } else if key_less(key, m[0].0) {
                if i > 1 {
                    assert(key_less(m[i - 1 - 1].0, m[i - 1].0));
                }
            } else if i > 1 {
                assert(key_less(tail[i - 1 - 1].0, tail[i - 1].0));
            } else if rest.len() > 0 {
                assert(key_less(m[1 - 1].0, m[1].0));
            }
        }
    }
}

/// The members of a canonical object are ordered by key, whatever order they came in.
pub proof fn canonical_members_are_ordered(members: Seq<(Seq<char>, JsonView)>, n: nat)
    ensures
        is_ordered(canonical_members(members, n)),
    decreases n,
{
    if n > 0 && n <= members.len() {
        canonical_members_are_ordered(members, (n - 1) as nat);
        members_stay_ordered(
            canonical_members(members, (n - 1) as nat),
            members[n - 1].0,
            canonical(members[n - 1].1),
        );
    }
}

proof fn lemma_written_item(all: Seq<JsonView>, n: nat, out: Seq<char>)
    requires
        0 < n <= all.len(),
        out == (if n > 1 { "["@ + written_items(all, (n - 1) as nat) + ","@ } else { "["@ + written_items(all, 0) }) + written(
            all[n - 1],
        ),
    ensures
        out == "["@ + written_items(all, n),
{
    assert(out =~= "["@ + written_items(all, n));
}

proof fn lemma_written_member(all: Seq<(Seq<char>, JsonView)>, n: nat, out: Seq<char>)
    requires
        0 < n <= all.len(),
        out == (if n > 1 { "{"@ + written_members(all, (n - 1) as nat) + ","@ } else { "{"@ + written_members(all, 0) })
            + json_quoted(all[n - 1].0) + ":"@ + written(all[n - 1].1),
    ensures
        out == "{"@ + written_members(all, n),
{
    assert(out =~= "{"@ + written_members(all, n));
}

pub fn less_key(a: &str, b: &str) -> (r: bool)
    ensures
        r == key_less(a@, b@),
{
    let x = chars_of(a);
    let y = chars_of(b);
    let mut i: usize = 0;
    assert(x@.skip(0) =~= x@);
    assert(y@.skip(0) =~= y@);
    while i < x.len() && i < y.len() && x[i] == y[i]
        invariant
            i <= x.len(),
            i <= y.len(),
            key_less(x@, y@) == key_less(x@.skip(i as int), y@.skip(i as int)),
        decreases x.len() - i,
    {
        assert(x@.skip(i as int).drop_first() =~= x@.skip(i + 1));
        assert(y@.skip(i as int).drop_first() =~= y@.skip(i + 1));
        i = i + 1;
    }
    if i >= y.len() {
        false
    } else if i >= x.len() {
        true
    } else {
        (x[i] as u32) < (y[i] as u32)
    }
}

fn put_member(m: &mut Vec<(String, Json)>, key: &str, value: Json)
    ensures
        members_view(final(m)@) == with_member(members_view(old(m)@), key@, value@),
{
    let ghost before = members_view(m@);
    let mut i: usize = 0;
    assert(before.skip(0) =~= before);
    assert(before.take(0) + with_member(before, key@, value@) =~= with_member(before, key@, value@));
    while i < m.len() && !same(m[i].0.as_str(), key) && !less_key(key, m[i].0.as_str())
        invariant
            i <= m.len(),
            before == members_view(m@),
            with_member(before, key@, value@) == before.take(i as int) + with_member(before.skip(i as int), key@, value@),
        ensures
            i < m.len() ==> m@[i as int].0@ == key@ || key_less(key@, m@[i as int].0@),
        decreases m.len() - i,
    {
        let ghost rest = before.skip(i as int);
        assert(rest[0] == (m@[i as int].0@, m@[i as int].1@));
        assert(rest.drop_first() =~= before.skip(i + 1));
        assert(before.take(i as int) + (seq![rest[0]] + with_member(before.skip(i + 1), key@, value@)) =~= before.take(i + 1)
            + with_member(before.skip(i + 1), key@, value@));
        i = i + 1;
    }
    let ghost rest = before.skip(i as int);
    if i < m.len() {
        assert(rest[0] == (m@[i as int].0@, m@[i as int].1@));
        if same(m[i].0.as_str(), key) {
            let k = owned(key);
            let ghost set = m@.update(i as int, (k, value));
            m[i] = (k, value);
            assert(members_view(m@) =~= before.take(i as int) + (seq![(key@, value@)] + rest.drop_first()));
        } else {
            m.insert(i, (owned(key), value));
            assert(members_view(m@) =~= before.take(i as int) + (seq![(key@, value@)] + rest));
        }
    } else {
        m.push((owned(key), value));
        assert(members_view(m@) =~= before.take(i as int) + seq![(key@, value@)]);
    }
}

fn drop_member(m: &mut Vec<(String, Json)>, key: &str)
    ensures
        members_view(final(m)@) == without_member(members_view(old(m)@), key@),
{
    let ghost before = members_view(m@);
    let mut i: usize = 0;
    assert(before.skip(0) =~= before);
    assert(before.take(0) + without_member(before, key@) =~= without_member(before, key@));
    while i < m.len() && !same(m[i].0.as_str(), key)
        invariant
            i <= m.len(),
            before == members_view(m@),
            without_member(before, key@) == before.take(i as int) + without_member(before.skip(i as int), key@),
        ensures
            i < m.len() ==> m@[i as int].0@ == key@,
        decreases m.len() - i,
    {
        let ghost rest = before.skip(i as int);
        assert(rest[0] == (m@[i as int].0@, m@[i as int].1@));
        assert(rest.drop_first() =~= before.skip(i + 1));
        assert(before.take(i as int) + (seq![rest[0]] + without_member(before.skip(i + 1), key@)) =~= before.take(i + 1)
            + without_member(before.skip(i + 1), key@));
        i = i + 1;
    }
    let ghost rest = before.skip(i as int);
    if i < m.len() {
        assert(rest[0] == (m@[i as int].0@, m@[i as int].1@));
        m.remove(i);
        assert(members_view(m@) =~= before.take(i as int) + rest.drop_first());
    } else {
        assert(before.take(i as int) + rest =~= members_view(m@));
    }
}

impl Json {
    /// The document with the members of every object ordered by key.
    pub fn canonical(&self) -> (r: Json)
        ensures
            r@ == canonical(self@),
        decreases self,
    {
        match self {
            Json::Array(items) => {
                let ghost all = items_view(items@);
                let mut out: Vec<Json> = Vec::new();
                let mut i: usize = 0;
                assert(items_view(out@) =~= canonical_items(all, 0));
                while i < items.len()
                    invariant
                        i <= items.len(),
                        *self == Json::Array(*items),
                        all == items_view(items@),
                        items_view(out@) == canonical_items(all, i as nat),
                    decreases items.len() - i,
                {
                    proof { lemma_item_smaller(*self, i as int); }
                    let c = items[i].canonical();
                    proof { lemma_items_push(out@, c); }
                    out.push(c);
                    i = i + 1;
                }
                proof {
                    lemma_array_view(out);
                    lemma_array_view(*items);
                }
                Json::Array(out)
            },
            Json::Object(members) => {
                let ghost all = members_view(members@);
                let mut out = Json::object();
                let mut i: usize = 0;
                while i < members.len()
                    invariant
                        i <= members.len(),
                        *self == Json::Object(*members),
                        all == members_view(members@),
                        out@ == JsonView::Object(canonical_members(all, i as nat)),
                    decreases members.len() - i,
                {
                    proof { lemma_member_smaller(*self, i as int); }
                    let c = members[i].1.canonical();
                    out = out.with(members[i].0.as_str(), c);
                    i = i + 1;
                }
                proof { lemma_object_view(*members); }
                out
            },
            _ => self.copy(),
        }
    }

    /// A copy.
    pub fn copy(&self) -> (r: Json)
        ensures
            r@ == self@,
        decreases self,
    {
        match self {
            Json::Null => Json::Null,
            Json::Bool(b) => Json::Bool(*b),
            Json::UInt(n) => Json::UInt(*n),
            Json::Int(n) => Json::Int(*n),
            Json::Float(f) => Json::Float(JsonFloat { bits: f.bits, text: f.text.clone() }),
            Json::Text(s) => Json::Text(s.clone()),
            Json::Array(items) => {
                let mut out: Vec<Json> = Vec::new();
                let mut i: usize = 0;
                while i < items.len()
                    invariant
                        i <= items.len(),
                        *self == Json::Array(*items),
                        items_view(out@) == items_view(items@).subrange(0, i as int),
                    decreases items.len() - i,
                {
                    proof { lemma_item_smaller(*self, i as int); }
                    let c = items[i].copy();
                    proof { lemma_items_push(out@, c); }
                    out.push(c);
                    i = i + 1;
                    assert(items_view(out@) =~= items_view(items@).subrange(0, i as int));
                }
                proof {
                    assert(items_view(items@).subrange(0, i as int) =~= items_view(items@));
                    lemma_array_view(out);
                    lemma_array_view(*items);
                }
                Json::Array(out)
            },
            Json::Object(members) => {
                let mut out: Vec<(String, Json)> = Vec::new();
                let mut i: usize = 0;
                while i < members.len()
                    invariant
                        i <= members.len(),
                        *self == Json::Object(*members),
                        members_view(out@) == members_view(members@).subrange(0, i as int),
                    decreases members.len() - i,
                {
                    proof { lemma_member_smaller(*self, i as int); }
                    let c = members[i].1.copy();
                    let k = members[i].0.clone();
                    proof { lemma_members_push(out@, (k, c)); }
                    out.push((k, c));
                    i = i + 1;
                    assert(members_view(out@) =~= members_view(members@).subrange(0, i as int));
                }
                proof {
                    assert(members_view(members@).subrange(0, i as int) =~= members_view(members@));
                    lemma_object_view(out);
                    lemma_object_view(*members);
                }
                Json::Object(out)
            },
        }
    }

    /// Whether two values say the same.
    pub fn same_as(&self, other: &Json) -> (r: bool)
        ensures
            r == (self@ == other@),
        decreases self,
    {
        match (self, other) {
            (Json::Null, Json::Null) => true,
            (Json::Bool(a), Json::Bool(b)) => *a == *b,
            (Json::UInt(a), Json::UInt(b)) => *a == *b,
            (Json::Int(a), Json::Int(b)) => *a == *b,
            (Json::Float(a), Json::Float(b)) => a.bits == b.bits && same(a.text.as_str(), b.text.as_str()),
            (Json::Text(a), Json::Text(b)) => same(a.as_str(), b.as_str()),
            (Json::Array(a), Json::Array(b)) => {
                proof {
                    lemma_array_view(*a);
                    lemma_array_view(*b);
                    assert(items_view(a@).len() == a@.len());
                    assert(items_view(b@).len() == b@.len());
                }
                if a.len() != b.len() {
                    return false;
                }
                let mut i: usize = 0;
                while i < a.len()
                    invariant
                        i <= a.len(),
                        a.len() == b.len(),
                        *self == Json::Array(*a),
                        self@ == JsonView::Array(items_view(a@)),
                        other@ == JsonView::Array(items_view(b@)),
                        forall|j: int| 0 <= j < i ==> #[trigger] items_view(a@)[j] == items_view(b@)[j],
                    decreases a.len() - i,
                {
                    proof { lemma_item_smaller(*self, i as int); }
                    let equal = a[i].same_as(&b[i]);
                    assert(items_view(a@)[i as int] == a@[i as int]@);
                    assert(items_view(b@)[i as int] == b@[i as int]@);
                    if !equal {
                        return false;
                    }
                    i = i + 1;
                }
                assert(items_view(a@) =~= items_view(b@));
                true
            },
            (Json::Object(a), Json::Object(b)) => {
                proof {
                    lemma_object_view(*a);
                    lemma_object_view(*b);
                    assert(members_view(a@).len() == a@.len());
                    assert(members_view(b@).len() == b@.len());
                }
                if a.len() != b.len() {
                    return false;
                }
                let mut i: usize = 0;
                while i < a.len()
                    invariant
                        i <= a.len(),
                        a.len() == b.len(),
                        *self == Json::Object(*a),
                        self@ == JsonView::Object(members_view(a@)),
                        other@ == JsonView::Object(members_view(b@)),
                        forall|j: int| 0 <= j < i ==> #[trigger] members_view(a@)[j] == members_view(b@)[j],
                    decreases a.len() - i,
                {
                    proof { lemma_member_smaller(*self, i as int); }
                    let equal = same(a[i].0.as_str(), b[i].0.as_str()) && a[i].1.same_as(&b[i].1);
                    assert(members_view(a@)[i as int] == (a@[i as int].0@, a@[i as int].1@));
                    assert(members_view(b@)[i as int] == (b@[i as int].0@, b@[i as int].1@));
                    if !equal {
                        return false;
                    }
                    i = i + 1;
                }
                assert(members_view(a@) =~= members_view(b@));
                true
            },
            _ => false,
        }
    }

    /// The member of an object under a key.
    pub fn get(&self, key: &str) -> (r: Option<&Json>)
        ensures
            json_option(r) == self@.get(key@),
    {
        match self {
            Json::Object(members) => {
                proof { lemma_object_view(*members); }
                let mut i: usize = 0;
                assert(members_view(members@).skip(0) =~= members_view(members@));
                while i < members.len()
                    invariant
                        i <= members.len(),
                        self@ == JsonView::Object(members_view(members@)),
                        find_member(members_view(members@), key@) == find_member(
                            members_view(members@).skip(i as int),
                            key@,
                        ),
                    decreases members.len() - i,
                {
                    let ghost rest = members_view(members@).skip(i as int);
                    assert(rest[0] == (members@[i as int].0@, members@[i as int].1@));
                    if same(members[i].0.as_str(), key) {
                        return Some(&members[i].1);
                    }
                    assert(rest.drop_first() =~= members_view(members@).skip(i + 1));
                    i = i + 1;
                }
                None
            },
            _ => None,
        }
    }

    pub fn as_str(&self) -> (r: Option<&str>)
        ensures
            text_option(r) == self@.as_text(),
    {
        match self {
            Json::Text(s) => Some(s.as_str()),
            _ => None,
        }
    }

    pub fn as_bool(&self) -> (r: Option<bool>)
        ensures
            r == self@.as_bool(),
    {
        match self {
            Json::Bool(b) => Some(*b),
            _ => None,
        }
    }

    pub fn as_u64(&self) -> (r: Option<u64>)
        ensures
            r == self@.as_u64(),
    {
        match self {
            Json::UInt(n) => Some(*n),
            _ => None,
        }
    }

    pub fn as_array(&self) -> (r: Option<&Vec<Json>>)
        ensures
            match r {
                Some(v) => self@.as_array() == Some(items_view(v@)),
                None => self@.as_array() is None,
            },
    {
        match self {
            Json::Array(items) => {
                proof { lemma_array_view(*items); }
                Some(items)
            },
            _ => None,
        }
    }

    /// The number as a double.
    pub fn as_float(&self) -> (r: Option<JsonFloat>)
        ensures
            match r {
                Some(f) => self@.as_float() == Some((f.bits, f.text@)),
                None => self@.as_float() is None,
            },
    {
        match self {
            Json::UInt(n) => Some(float_of_uint(*n)),
            Json::Int(n) => Some(float_of_int(*n)),
            Json::Float(f) => Some(JsonFloat { bits: f.bits, text: f.text.clone() }),
            _ => None,
        }
    }

    /// The number under a key, as a double.
    pub fn float_at(&self, key: &str) -> (r: Option<JsonFloat>)
        ensures
            match r {
                Some(f) => self@.float_at(key@) == Some((f.bits, f.text@)),
                None => self@.float_at(key@) is None,
            },
    {
        match self.get(key) {
            Some(v) => v.as_float(),
            None => None,
        }
    }

    /// The text under a key.
    pub fn text_at(&self, key: &str) -> (r: Option<&str>)
        ensures
            text_option(r) == self@.text_at(key@),
    {
        match self.get(key) {
            Some(v) => v.as_str(),
            None => None,
        }
    }

    /// The truth value under a key.
    pub fn bool_at(&self, key: &str) -> (r: Option<bool>)
        ensures
            r == self@.bool_at(key@),
    {
        match self.get(key) {
            Some(v) => v.as_bool(),
            None => None,
        }
    }

    /// The natural number under a key.
    pub fn u64_at(&self, key: &str) -> (r: Option<u64>)
        ensures
            r == self@.u64_at(key@),
    {
        match self.get(key) {
            Some(v) => v.as_u64(),
            None => None,
        }
    }

    /// The list under a key.
    pub fn array_at(&self, key: &str) -> (r: Option<&Vec<Json>>)
        ensures
            match r {
                Some(v) => self@.array_at(key@) == Some(items_view(v@)),
                None => self@.array_at(key@) is None,
            },
    {
        match self.get(key) {
            Some(v) => v.as_array(),
            None => None,
        }
    }

    /// Whether the text under a key is a given one.
    pub fn has_text(&self, key: &str, text: &str) -> (r: bool)
        ensures
            r == (self@.text_at(key@) == Some(text@)),
    {
        match self.text_at(key) {
            Some(s) => same(s, text),
            None => false,
        }
    }

    /// An object without members.
    pub fn object() -> (r: Json)
        ensures
            r@ == JsonView::object(),
    {
        let m: Vec<(String, Json)> = Vec::new();
        proof {
            lemma_object_view(m);
            assert(members_view(m@) =~= Seq::empty());
        }
        Json::Object(m)
    }

    /// An object with its members in a given order.
    pub fn record(members: Vec<(String, Json)>) -> (r: Json)
        ensures
            r@ == JsonView::Object(members_view(members@)),
    {
        proof { lemma_object_view(members); }
        Json::Object(members)
    }

    pub fn text(s: &str) -> (r: Json)
        ensures
            r@ == JsonView::Text(s@),
    {
        Json::Text(owned(s))
    }

    /// An integer.
    pub fn number(n: i64) -> (r: Json)
        ensures
            r@ == number(n as int),
    {
        if n >= 0 {
            Json::UInt(n as u64)
        } else {
            Json::Int(n)
        }
    }

    pub fn array(items: Vec<Json>) -> (r: Json)
        ensures
            r@ == JsonView::Array(items_view(items@)),
    {
        proof { lemma_array_view(items); }
        Json::Array(items)
    }

    /// The object with a member set.
    pub fn with(self, key: &str, value: Json) -> (r: Json)
        requires
            self@ is Object,
        ensures
            r@ == self@.with(key@, value@),
    {
        match self {
            Json::Object(members) => {
                let mut m = members;
                proof { lemma_object_view(m); }
                put_member(&mut m, key, value);
                proof { lemma_object_view(m); }
                Json::Object(m)
            },
            other => other,
        }
    }

    /// The object without a member.
    pub fn without(self, key: &str) -> (r: Json)
        ensures
            r@ == self@.without(key@),
    {
        match self {
            Json::Object(members) => {
                let mut m = members;
                proof { lemma_object_view(m); }
                drop_member(&mut m, key);
                proof { lemma_object_view(m); }
                Json::Object(m)
            },
            other => other,
        }
    }

    /// The text of the value, without spaces, members in order of their keys.
    pub fn write(&self) -> (r: String)
        ensures
            r@ == written(self@),
        decreases self,
    {
        match self {
            Json::Null => owned("null"),
            Json::Bool(b) => if *b { owned("true") } else { owned("false") },
            Json::UInt(n) => dec_u64(*n),
            Json::Int(n) => dec_i64(*n),
            Json::Float(f) => f.text.clone(),
            Json::Text(s) => quote_json(s.as_str()),
            Json::Array(items) => {
                let mut out = owned("[");
                let mut i: usize = 0;
                proof { lemma_array_view(*items); }
                let ghost all = items_view(items@);
                assert(all.len() == items@.len());
                assert("["@ + Seq::<char>::empty() =~= "["@);
                while i < items.len()
                    invariant
                        i <= items.len(),
                        *self == Json::Array(*items),
                        all == items_view(items@),
                        out@ == "["@ + written_items(all, i as nat),
                    decreases items.len() - i,
                {
                    if i > 0 {
                        out.append(",");
                    }
                    proof { lemma_item_smaller(*self, i as int); }
                    let t = items[i].write();
                    assert(all[i as int] == items@[i as int]@);
                    out.append(t.as_str());
                    i = i + 1;
                    proof { lemma_written_item(all, i as nat, out@); }
                }
                out.append("]");
                out
            },
            Json::Object(members) => {
                let mut out = owned("{");
                let mut i: usize = 0;
                proof { lemma_object_view(*members); }
                let ghost all = members_view(members@);
                assert(all.len() == members@.len());
                assert("{"@ + Seq::<char>::empty() =~= "{"@);
                while i < members.len()
                    invariant
                        i <= members.len(),
                        *self == Json::Object(*members),
                        all == members_view(members@),
                        out@ == "{"@ + written_members(all, i as nat),
                    decreases members.len() - i,
                {
                    if i > 0 {
                        out.append(",");
                    }
                    proof { lemma_member_smaller(*self, i as int); }
                    let k = quote_json(members[i].0.as_str());
                    let t = members[i].1.write();
                    assert(all[i as int] == (members@[i as int].0@, members@[i as int].1@));
                    out.append(k.as_str());
                    out.append(":");
                    out.append(t.as_str());
                    i = i + 1;
                    proof { lemma_written_member(all, i as nat, out@); }
                }
                out.append("}");
                out
            },
        }
    }
}

} // verus!
