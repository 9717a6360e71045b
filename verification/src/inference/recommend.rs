//! What an engine remarks on a decision: checked entry by entry, bounded, and passed on.

use vstd::prelude::*;
use vstd::string::*;
use vstd::utf8::{encode_scalar, encode_utf8};
use crate::inference::contract::string_view;
use crate::json::{float_rank, is_finite, items_view, number, text_option, written, Json, JsonView, ONE_BITS};
use crate::text::{chars_of, from_chars, owned, same, trim, trimmed};

verus! {

/// Most bytes of an engine's remarks.
pub const MAX_META_BYTES: usize = 65536;
/// Most actions that are remarked on.
pub const MAX_RECOMMENDATION_ACTIONS: usize = 128;
/// Most remarks on one action, and on the decision as a whole.
pub const MAX_ANNOTATIONS_PER_SCOPE: usize = 32;
/// Most bytes of a remark's text.
pub const MAX_ANNOTATION_TEXT_BYTES: usize = 4096;

// Texts.

/// Bytes of a character.
pub open spec fn char_bytes(c: char) -> nat {
    encode_scalar(c as u32).len()
}

/// How many characters from the start take no more than some bytes.
pub open spec fn fitting(s: Seq<char>, max: nat) -> nat
    decreases s.len(),
{
    if s.len() == 0 || char_bytes(s[0]) > max {
        0
    } else {
        1 + fitting(s.drop_first(), (max - char_bytes(s[0])) as nat)
    }
}

/// A text, or as many of its characters as fit, with an ellipsis.
pub open spec fn bounded_text(s: Seq<char>) -> Seq<char> {
    if encode_utf8(s).len() > MAX_ANNOTATION_TEXT_BYTES {
        s.take(fitting(s, MAX_ANNOTATION_TEXT_BYTES as nat) as int) + "\u{2026}"@
    } else {
        s
    }
}

proof fn lemma_fitting_bound(s: Seq<char>, max: nat)
    ensures
        fitting(s, max) <= s.len(),
    decreases s.len(),
{
    if s.len() > 0 && char_bytes(s[0]) <= max {
        lemma_fitting_bound(s.drop_first(), (max - char_bytes(s[0])) as nat);
    }
}

/// What is kept of a text takes no more than the given bytes.
pub proof fn kept_characters_fit(s: Seq<char>, max: nat)
    ensures
        fitting(s, max) <= s.len(),
        encode_utf8(s.take(fitting(s, max) as int)).len() <= max,
    decreases s.len(),
{
    lemma_fitting_bound(s, max);
    let n = fitting(s, max);
    let kept = s.take(n as int);
    if n == 0 {
        assert(kept =~= Seq::empty());
        assert(encode_utf8(kept).len() == 0);
    } else {
        let rest = (max - char_bytes(s[0])) as nat;
        kept_characters_fit(s.drop_first(), rest);
        lemma_fitting_bound(s.drop_first(), rest);
        assert(kept.drop_first() =~= s.drop_first().take(fitting(s.drop_first(), rest) as int));
        assert(kept[0] == s[0]);
        assert(encode_utf8(kept) == encode_scalar(s[0] as u32) + encode_utf8(kept.drop_first()));
    }
}

fn bytes_of(c: char) -> (r: usize)
    ensures
        r == char_bytes(c),
        1 <= r <= 4,
{
    let n = c as u32;
    proof { vstd::utf8::char_is_scalar(c); }
    if n < 0x80 {
        1
    } else if n < 0x800 {
        2
    } else if n < 0x10000 {
        3
    } else {
        4
    }
}

fn bound_text(s: &str) -> (r: String)
    ensures
        r@ == bounded_text(s@),
{
    if byte_len(s) <= MAX_ANNOTATION_TEXT_BYTES {
        return owned(s);
    }
    let chars = chars_of(s);
    let mut left: usize = MAX_ANNOTATION_TEXT_BYTES;
    let mut kept: Vec<char> = Vec::new();
    let mut i: usize = 0;
    let ghost total = fitting(s@, MAX_ANNOTATION_TEXT_BYTES as nat);
    assert(chars@.skip(0) =~= s@);
    while i < chars.len() && bytes_of(chars[i]) <= left
        invariant
            i <= chars@.len(),
            kept@ == chars@.take(i as int),
            total == i + fitting(chars@.skip(i as int), left as nat),
        decreases chars@.len() - i,
    {
        assert(chars@.skip(i as int)[0] == chars@[i as int]);
        assert(chars@.skip(i as int).drop_first() =~= chars@.skip(i + 1));
        assert(chars@.take(i + 1) =~= chars@.take(i as int).push(chars@[i as int]));
        left = left - bytes_of(chars[i]);
        kept.push(chars[i]);
        i = i + 1;
    }
    assert(i < chars@.len() ==> chars@.skip(i as int)[0] == chars@[i as int]);
    assert(total == i);
    let mut out = from_chars(&kept);
    out.append("\u{2026}");
    out
}

fn byte_len(s: &str) -> (r: usize)
    ensures
        r == encode_utf8(s@).len(),
{
    s.as_bytes().len()
}

// Remarks.

pub open spec fn float_json(f: (u64, Seq<char>)) -> JsonView {
    JsonView::Float(f.0, f.1)
}

/// A text that is set if it is there.
pub open spec fn with_text(j: JsonView, key: Seq<char>, t: Option<Seq<char>>) -> JsonView {
    match t {
        Some(s) => j.with(key, JsonView::Text(s)),
        None => j,
    }
}

/// The value of a remark: a finite number, an identifier, or a text that is not empty.
pub open spec fn normal_value(j: JsonView) -> Option<JsonView> {
    match j.text_at("type"@) {
        None => None,
        Some(kind) => if kind == "number"@ {
            match j.float_at("value"@) {
                None => None,
                Some(f) => if !is_finite(f.0) {
                    None
                } else {
                    Some(
                        JsonView::object().with("type"@, JsonView::Text("number"@)).with("value"@, float_json(f)).with(
                            "format"@,
                            JsonView::Text(if j.text_at("format"@) == Some("percent"@) { "percent"@ } else { "raw"@ }),
                        ),
                    )
                },
            }
        } else if kind == "semantic_id"@ {
            match j.text_at("value"@) {
                None => None,
                Some(id) => if id.len() == 0 {
                    None
                } else {
                    Some(
                        with_text(
                            JsonView::object().with("type"@, JsonView::Text("semantic_id"@)).with("value"@, JsonView::Text(id)),
                            "label"@,
                            j.text_at("label"@),
                        ),
                    )
                },
            }
        } else if kind == "text"@ {
            match j.text_at("value"@) {
                None => None,
                Some(s) => if s.len() == 0 {
                    None
                } else {
                    Some(
                        JsonView::object().with("type"@, JsonView::Text("text"@)).with(
                            "value"@,
                            JsonView::Text(bounded_text(s)),
                        ),
                    )
                },
            }
        } else {
            None
        },
    }
}

/// How a remark is shown: as a token says, or by its type.
pub open spec fn display_of(j: JsonView) -> Seq<char> {
    match j.text_at("display"@) {
        Some(token) => token,
        None => "follow"@,
    }
}

/// A remark: an identifier that is not blank, a value, and how they are shown.
pub open spec fn normal_annotation(j: JsonView) -> Option<JsonView> {
    if !(j is Object) {
        None
    } else {
        match (j.text_at("id"@), normal_value(j)) {
            (Some(id), Some(value)) => if trimmed(id).len() == 0 {
                None
            } else {
                Some(
                    with_text(value.with("id"@, JsonView::Text(trimmed(id))), "title"@, j.text_at("title"@)).with(
                        "display"@,
                        JsonView::Text(display_of(j)),
                    ),
                )
            },
            _ => None,
        }
    }
}

/// The main number of an action: a probability between 0 and 1, or a rank from 1.
pub open spec fn normal_primary(j: JsonView) -> Option<JsonView> {
    if !(j is Object) {
        None
    } else if j.text_at("kind"@) == Some("probability"@) {
        match j.float_at("value"@) {
            None => None,
            Some(f) => if !is_finite(f.0) || float_rank(f.0) < 0 || float_rank(f.0) > ONE_BITS {
                None
            } else {
                Some(JsonView::object().with("kind"@, JsonView::Text("probability"@)).with("value"@, float_json(f)))
            },
        }
    } else if j.text_at("kind"@) == Some("rank"@) {
        match j.u64_at("value"@) {
            None => None,
            Some(n) => if n == 0 {
                None
            } else {
                Some(
                    JsonView::object().with("kind"@, JsonView::Text("rank"@)).with("value"@, JsonView::UInt(n % 0x1_0000_0000)),
                )
            },
        }
    } else {
        None
    }
}

/// The good ones among remarks.
pub open spec fn normal_annotations(items: Seq<JsonView>) -> Seq<JsonView>
    decreases items.len(),
{
    if items.len() == 0 {
        Seq::empty()
    } else {
        match normal_annotation(items.last()) {
            Some(a) => normal_annotations(items.drop_last()).push(a),
            None => normal_annotations(items.drop_last()),
        }
    }
}

/// The first of a list, up to a number.
pub open spec fn up_to(s: Seq<JsonView>, max: nat) -> Seq<JsonView> {
    if s.len() > max { s.take(max as int) } else { s }
}

/// The remarks under a key.
pub open spec fn scope(j: JsonView, key: Seq<char>) -> Seq<JsonView> {
    match j.array_at(key) {
        Some(items) => up_to(normal_annotations(items), MAX_ANNOTATIONS_PER_SCOPE as nat),
        None => Seq::empty(),
    }
}

/// What is remarked on an action. It has to name one of the legal actions.
pub open spec fn normal_action(j: JsonView, legal_len: nat) -> Option<JsonView> {
    if !(j is Object) {
        None
    } else {
        match j.u64_at("action_ref"@) {
            None => None,
            Some(n) => if legal_len != 0 && n >= legal_len {
                None
            } else {
                let base = JsonView::object().with("action_ref"@, JsonView::UInt(n)).with(
                    "attributes"@,
                    JsonView::Array(scope(j, "attributes"@)),
                );
                let main = match j.get("primary"@) {
                    None => None,
                    Some(p) => normal_primary(p),
                };
                let shown = match main {
                    Some(p) => base.with("primary"@, p),
                    None => base,
                };
                Some(with_text(shown, "label"@, j.text_at("label"@)))
            },
        }
    }
}

/// The good ones among remarks on actions.
pub open spec fn normal_actions(items: Seq<JsonView>, legal_len: nat) -> Seq<JsonView>
    decreases items.len(),
{
    if items.len() == 0 {
        Seq::empty()
    } else {
        match normal_action(items.last(), legal_len) {
            Some(a) => normal_actions(items.drop_last(), legal_len).push(a),
            None => normal_actions(items.drop_last(), legal_len),
        }
    }
}

pub open spec fn action_scope(j: JsonView, legal_len: nat) -> Seq<JsonView> {
    match j.array_at("actions"@) {
        Some(items) => up_to(normal_actions(items, legal_len), MAX_RECOMMENDATION_ACTIONS as nat),
        None => Seq::empty(),
    }
}

/// The remarks on a decision; none where nothing good is left.
pub open spec fn normal_recommendation(j: JsonView, legal_len: nat) -> Option<JsonView> {
    if !(j is Object) {
        None
    } else {
        let actions = action_scope(j, legal_len);
        let global = scope(j, "global"@);
        if actions.len() == 0 && global.len() == 0 {
            None
        } else {
            Some(
                JsonView::object().with("actions"@, JsonView::Array(actions)).with("global"@, JsonView::Array(global)),
            )
        }
    }
}

fn put_text(j: Json, key: &str, t: Option<&str>) -> (r: Json)
    requires
        j@ is Object,
    ensures
        r@ == with_text(j@, key@, text_option(t)),
        r@ is Object,
{
    match t {
        Some(s) => j.with(key, Json::text(s)),
        None => j,
    }
}

fn annotation_value(j: &Json) -> (r: Option<Json>)
    ensures
        match r {
            Some(v) => normal_value(j@) == Some(v@) && v@ is Object,
            None => normal_value(j@) is None,
        },
{
    match j.text_at("type") {
        None => None,
        Some(kind) => {
            if same(kind, "number") {
                match j.float_at("value") {
                    None => None,
                    Some(f) => {
                        if !f.finite() {
                            return None;
                        }
                        let format = if j.has_text("format", "percent") { "percent" } else { "raw" };
                        Some(
                            Json::object().with("type", Json::text("number")).with("value", Json::Float(f)).with(
                                "format",
                                Json::text(format),
                            ),
                        )
                    },
                }
            } else if same(kind, "semantic_id") {
                match j.text_at("value") {
                    None => None,
                    Some(id) => {
                        if id.is_empty() {
                            return None;
                        }
                        let base = Json::object().with("type", Json::text("semantic_id")).with("value", Json::text(id));
                        Some(put_text(base, "label", j.text_at("label")))
                    },
                }
            } else if same(kind, "text") {
                match j.text_at("value") {
                    None => None,
                    Some(s) => {
                        if s.is_empty() {
                            return None;
                        }
                        Some(
                            Json::object().with("type", Json::text("text")).with(
                                "value",
                                Json::text(bound_text(s).as_str()),
                            ),
                        )
                    },
                }
            } else {
                None
            }
        },
    }
}

fn annotation(j: &Json) -> (r: Option<Json>)
    ensures
        match r {
            Some(v) => normal_annotation(j@) == Some(v@),
            None => normal_annotation(j@) is None,
        },
{
    if !matches!(j, Json::Object(_)) {
        return None;
    }
    let id = match j.text_at("id") {
        None => {
            return None;
        },
        Some(s) => trim(s),
    };
    if id.as_str().is_empty() {
        return None;
    }
    match annotation_value(j) {
        None => None,
        Some(value) => {
            let display = match j.text_at("display") {
                Some(token) => token,
                None => "follow",
            };
            let named = put_text(value.with("id", Json::text(id.as_str())), "title", j.text_at("title"));
            Some(named.with("display", Json::text(display)))
        },
    }
}

fn annotations(items: &Vec<Json>) -> (r: Vec<Json>)
    ensures
        items_view(r@) == up_to(normal_annotations(items_view(items@)), MAX_ANNOTATIONS_PER_SCOPE as nat),
{
    let ghost all = items_view(items@);
    let mut out: Vec<Json> = Vec::new();
    let mut i: usize = 0;
    assert(items_view(out@) =~= normal_annotations(all.take(0)));
    while i < items.len() && out.len() < MAX_ANNOTATIONS_PER_SCOPE
        invariant
            i <= items@.len(),
            all == items_view(items@),
            items_view(out@) == normal_annotations(all.take(i as int)),
            out@.len() <= MAX_ANNOTATIONS_PER_SCOPE,
        decreases items@.len() - i,
    {
        let ghost before = out@;
        assert(all.take(i + 1).drop_last() =~= all.take(i as int));
        assert(all.take(i + 1).last() == items@[i as int]@);
        match annotation(&items[i]) {
            Some(a) => {
                out.push(a);
                assert(items_view(out@) =~= items_view(before).push(a@));
            },
            None => {},
        }
        i = i + 1;
    }
    proof {
        lemma_annotations_grow(all, i as int);
        assert(items_view(out@).len() == out@.len());
        assert(all.take(all.len() as int) =~= all);
    }
    out
}

proof fn lemma_annotations_grow(all: Seq<JsonView>, n: int)
    requires
        0 <= n <= all.len(),
    ensures
        normal_annotations(all.take(n)).len() <= normal_annotations(all).len(),
        normal_annotations(all).take(normal_annotations(all.take(n)).len() as int) == normal_annotations(all.take(n)),
    decreases all.len() - n,
{
    let part = normal_annotations(all.take(n));
    if n == all.len() {
        assert(all.take(n) =~= all);
        assert(part.take(part.len() as int) =~= part);
    } else {
        lemma_annotations_grow(all, n + 1);
        assert(all.take(n + 1).drop_last() =~= all.take(n));
        let next = normal_annotations(all.take(n + 1));
        assert(normal_annotations(all).take(part.len() as int) =~= normal_annotations(all).take(next.len() as int).take(
            part.len() as int,
        ));
        assert(next.take(part.len() as int) =~= part);
    }
}

fn scope_of(j: &Json, key: &str) -> (r: Vec<Json>)
    ensures
        items_view(r@) == scope(j@, key@),
{
    match j.array_at(key) {
        Some(items) => annotations(items),
        None => {
            let r: Vec<Json> = Vec::new();
            assert(items_view(r@) =~= Seq::empty());
            r
        },
    }
}

fn primary_metric(j: &Json) -> (r: Option<Json>)
    ensures
        match r {
            Some(v) => normal_primary(j@) == Some(v@),
            None => normal_primary(j@) is None,
        },
{
    if !matches!(j, Json::Object(_)) {
        return None;
    }
    proof {
        reveal_strlit("probability");
        reveal_strlit("rank");
        assert("probability"@.len() == 11);
        assert("rank"@.len() == 4);
    }
    match j.text_at("kind") {
        None => None,
        Some(kind) => {
            if same(kind, "probability") {
                match j.float_at("value") {
                    None => None,
                    Some(f) => {
                        if !f.finite() || f.rank() < 0 || f.rank() > ONE_BITS as i64 {
                            return None;
                        }
                        Some(Json::object().with("kind", Json::text("probability")).with("value", Json::Float(f)))
                    },
                }
            } else if same(kind, "rank") {
                match j.u64_at("value") {
                    None => None,
                    Some(n) => {
                        if n == 0 {
                            return None;
                        }
                        Some(
                            Json::object().with("kind", Json::text("rank")).with("value", Json::UInt(n % 0x1_0000_0000)),
                        )
                    },
                }
            } else {
                None
            }
        },
    }
}

fn action_annotation(j: &Json, legal_len: usize) -> (r: Option<Json>)
    ensures
        match r {
            Some(v) => normal_action(j@, legal_len as nat) == Some(v@),
            None => normal_action(j@, legal_len as nat) is None,
        },
{
    if !matches!(j, Json::Object(_)) {
        return None;
    }
    match j.u64_at("action_ref") {
        None => None,
        Some(n) => {
            if legal_len != 0 && n >= legal_len as u64 {
                return None;
            }
            let base = Json::object().with("action_ref", Json::UInt(n)).with(
                "attributes",
                Json::array(scope_of(j, "attributes")),
            );
            let main = match j.get("primary") {
                None => None,
                Some(p) => primary_metric(p),
            };
            let shown = match main {
                Some(p) => base.with("primary", p),
                None => base,
            };
            Some(put_text(shown, "label", j.text_at("label")))
        },
    }
}

fn action_annotations(items: &Vec<Json>, legal_len: usize) -> (r: Vec<Json>)
    ensures
        items_view(r@) == up_to(normal_actions(items_view(items@), legal_len as nat), MAX_RECOMMENDATION_ACTIONS as nat),
{
    let ghost all = items_view(items@);
    let mut out: Vec<Json> = Vec::new();
    let mut i: usize = 0;
    assert(items_view(out@) =~= normal_actions(all.take(0), legal_len as nat));
    while i < items.len() && out.len() < MAX_RECOMMENDATION_ACTIONS
        invariant
            i <= items@.len(),
            all == items_view(items@),
            items_view(out@) == normal_actions(all.take(i as int), legal_len as nat),
            out@.len() <= MAX_RECOMMENDATION_ACTIONS,
        decreases items@.len() - i,
    {
        let ghost before = out@;
        assert(all.take(i + 1).drop_last() =~= all.take(i as int));
        assert(all.take(i + 1).last() == items@[i as int]@);
        match action_annotation(&items[i], legal_len) {
            Some(a) => {
                out.push(a);
                assert(items_view(out@) =~= items_view(before).push(a@));
            },
            None => {},
        }
        i = i + 1;
    }
    proof {
        lemma_actions_grow(all, i as int, legal_len as nat);
        assert(items_view(out@).len() == out@.len());
        assert(all.take(all.len() as int) =~= all);
    }
    out
}

proof fn lemma_actions_grow(all: Seq<JsonView>, n: int, legal_len: nat)
    requires
        0 <= n <= all.len(),
    ensures
        normal_actions(all.take(n), legal_len).len() <= normal_actions(all, legal_len).len(),
        normal_actions(all, legal_len).take(normal_actions(all.take(n), legal_len).len() as int) == normal_actions(
            all.take(n),
            legal_len,
        ),
    decreases all.len() - n,
{
    let part = normal_actions(all.take(n), legal_len);
    if n == all.len() {
        assert(all.take(n) =~= all);
        assert(part.take(part.len() as int) =~= part);
    } else {
        lemma_actions_grow(all, n + 1, legal_len);
        assert(all.take(n + 1).drop_last() =~= all.take(n));
        let next = normal_actions(all.take(n + 1), legal_len);
        assert(normal_actions(all, legal_len).take(part.len() as int) =~= normal_actions(all, legal_len).take(
            next.len() as int,
        ).take(part.len() as int));
        assert(next.take(part.len() as int) =~= part);
    }
}

/// The good remarks of an engine, in their normal form.
pub fn normalize_recommendation(j: &Json, legal_len: usize) -> (r: Option<Json>)
    ensures
        match r {
            Some(v) => normal_recommendation(j@, legal_len as nat) == Some(v@),
            None => normal_recommendation(j@, legal_len as nat) is None,
        },
{
    if !matches!(j, Json::Object(_)) {
        return None;
    }
    let actions = match j.array_at("actions") {
        Some(items) => action_annotations(items, legal_len),
        None => {
            let e: Vec<Json> = Vec::new();
            assert(items_view(e@) =~= Seq::empty());
            e
        },
    };
    let global = scope_of(j, "global");
    assert(items_view(actions@).len() == actions@.len());
    assert(items_view(global@).len() == global@.len());
    if actions.len() == 0 && global.len() == 0 {
        return None;
    }
    Some(Json::object().with("actions", Json::array(actions)).with("global", Json::array(global)))
}

// What is passed on.

/// Fields that are left out first where the remarks are too long.
pub open spec fn trim_key(k: int) -> Seq<char> {
    if k == 0 {
        "state"@
    } else if k == 1 {
        "debug"@
    } else if k == 2 {
        "model_output"@
    } else if k == 3 {
        "table_context"@
    } else {
        "behavior"@
    }
}

/// Bytes of a document.
pub open spec fn size(j: JsonView) -> nat {
    encode_utf8(written(j)).len()
}

pub open spec fn too_long(j: JsonView) -> bool {
    size(j) > MAX_META_BYTES
}

/// Without fields from the `k`th on, as long as it is too long.
pub open spec fn trimmed_from(j: JsonView, k: int) -> JsonView
    decreases 5 - k,
{
    if k >= 5 || !too_long(j) {
        j
    } else {
        trimmed_from(j.without(trim_key(k)), k + 1)
    }
}

/// The recommendation alone.
pub open spec fn recommendation_only(j: JsonView) -> JsonView {
    match j {
        JsonView::Object(_) => match j.get("recommendation"@) {
            Some(r) => JsonView::object().with("recommendation"@, r),
            None => JsonView::object(),
        },
        _ => j,
    }
}

/// The remarks with the recommendation in its normal form, or without it.
pub open spec fn checked_meta(meta: JsonView, legal_len: nat) -> JsonView {
    match meta.get("recommendation"@) {
        None => meta,
        Some(r) => match normal_recommendation(r, legal_len) {
            Some(n) => meta.with("recommendation"@, n),
            None => meta.without("recommendation"@),
        },
    }
}

/// What is passed on of an engine's remarks: all of them, or without what is dispensable, or the
/// recommendation alone, whichever is short enough first.
pub open spec fn meta_text(response: JsonView, legal_len: nat) -> Option<Seq<char>> {
    match response.get("meta"@) {
        None => None,
        Some(meta) => {
            let all = trimmed_from(checked_meta(meta, legal_len), 0);
            if !too_long(all) {
                Some(written(all))
            } else if !too_long(recommendation_only(all)) {
                Some(written(recommendation_only(all)))
            } else {
                None
            }
        },
    }
}

fn trim_str(k: usize) -> (r: &'static str)
    requires
        k < 5,
    ensures
        r@ == trim_key(k as int),
{
    if k == 0 {
        "state"
    } else if k == 1 {
        "debug"
    } else if k == 2 {
        "model_output"
    } else if k == 3 {
        "table_context"
    } else {
        "behavior"
    }
}

/// What is passed on of an engine's remarks.
pub fn response_meta(response: &Json, legal_len: usize) -> (r: Option<String>)
    ensures
        string_view(r) == meta_text(response@, legal_len as nat),
{
    let given = match response.get("meta") {
        None => {
            return None;
        },
        Some(m) => m.copy(),
    };
    let mut meta = match given.get("recommendation") {
        None => given.copy(),
        Some(rec) => match normalize_recommendation(rec, legal_len) {
            Some(n) => {
                assert(given@ is Object);
                given.copy().with("recommendation", n)
            },
            None => given.copy().without("recommendation"),
        },
    };
    let ghost all = trimmed_from(meta@, 0);
    let mut raw = meta.write();
    let mut k: usize = 0;
    while k < 5 && byte_len(raw.as_str()) > MAX_META_BYTES
        invariant
            k <= 5,
            raw@ == written(meta@),
            trimmed_from(meta@, k as int) == all,
        decreases 5 - k,
    {
        meta = meta.without(trim_str(k));
        raw = meta.write();
        k = k + 1;
    }
    assert(meta@ == all);
    if byte_len(raw.as_str()) <= MAX_META_BYTES {
        return Some(raw);
    }
    let only = match &meta {
        Json::Object(_) => match meta.get("recommendation") {
            Some(r) => Json::object().with("recommendation", r.copy()),
            None => Json::object(),
        },
        _ => meta.copy(),
    };
    let short = only.write();
    if byte_len(short.as_str()) <= MAX_META_BYTES {
        Some(short)
    } else {
        None
    }
}

/// What is passed on is never longer than the limit.
pub proof fn passed_on_remarks_are_bounded(response: JsonView, legal_len: nat)
    ensures
        meta_text(response, legal_len) is Some ==> encode_utf8(meta_text(response, legal_len)->0).len() <= MAX_META_BYTES,
{
}

/// Every remark on an action that is passed on names one of the legal actions.
pub proof fn remarks_name_legal_actions(items: Seq<JsonView>, legal_len: nat, i: int)
    requires
        legal_len > 0,
        0 <= i < normal_actions(items, legal_len).len(),
    ensures
        exists|k: int|
            0 <= k < items.len() && normal_action(#[trigger] items[k], legal_len) == Some(normal_actions(items, legal_len)[i])
                && items[k].u64_at("action_ref"@) is Some && items[k].u64_at("action_ref"@)->0 < legal_len,
    decreases items.len(),
{
    let rest = items.drop_last();
    if normal_action(items.last(), legal_len) is Some && i == normal_actions(rest, legal_len).len() {
        let k = items.len() - 1;
        assert(normal_action(items[k], legal_len) == Some(normal_actions(items, legal_len)[i]));
    } else {
        remarks_name_legal_actions(rest, legal_len, i);
        let k = choose|k: int|
            0 <= k < rest.len() && normal_action(#[trigger] rest[k], legal_len) == Some(normal_actions(rest, legal_len)[i])
                && rest[k].u64_at("action_ref"@) is Some && rest[k].u64_at("action_ref"@)->0 < legal_len;
        assert(items[k] == rest[k]);
    }
}

} // verus!
