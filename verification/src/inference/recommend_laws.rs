//! What is kept of an engine's remarks: as much as there is room for.

use vstd::prelude::*;
use vstd::utf8::{encode_scalar, encode_utf8};
use crate::inference::recommend::{
    char_bytes, checked_meta, fitting, meta_text, normal_action, normal_actions, normal_annotation, normal_annotations,
    trimmed_from, MAX_META_BYTES,
};
use crate::json::{written, JsonView};
use crate::maintainer::offer_laws::lemma_pushed;

verus! {

/// As many characters are kept as there is room for: with the next one the text would be too long.
pub proof fn kept_characters_are_the_most_that_fit(s: Seq<char>, max: nat)
    requires
        fitting(s, max) < s.len(),
    ensures
        encode_utf8(s.take(fitting(s, max) as int + 1)).len() > max,
    decreases s.len(),
{
    let n = fitting(s, max) as int;
    let kept = s.take(n + 1);
    let r = s.drop_first();
    assert(kept[0] == s[0]);
    assert(encode_utf8(kept) == encode_scalar(s[0] as u32) + encode_utf8(kept.drop_first()));
    if char_bytes(s[0]) <= max {
        let left = (max - char_bytes(s[0])) as nat;
        kept_characters_are_the_most_that_fit(r, left);
        assert(kept.drop_first() =~= r.take(fitting(r, left) as int + 1));
    }
}

/// Of remarks exactly the good ones are kept, in their normal form.
pub proof fn good_remarks_are_kept(items: Seq<JsonView>, a: JsonView)
    ensures
        normal_annotations(items).contains(a) <==> exists|i: int|
            0 <= i < items.len() && normal_annotation(#[trigger] items[i]) == Some(a),
    decreases items.len(),
{
    if items.len() > 0 {
        let r = items.drop_last();
        good_remarks_are_kept(r, a);
        assert(items[items.len() - 1] == items.last());
        if normal_annotation(items.last()) is Some {
            lemma_pushed(normal_annotations(r), normal_annotation(items.last())->0, a);
        }
        if exists|i: int| 0 <= i < r.len() && normal_annotation(#[trigger] r[i]) == Some(a) {
            let i = choose|i: int| 0 <= i < r.len() && normal_annotation(#[trigger] r[i]) == Some(a);
            assert(items[i] == r[i]);
        }
        if exists|i: int| 0 <= i < items.len() && normal_annotation(#[trigger] items[i]) == Some(a) {
            let i = choose|i: int| 0 <= i < items.len() && normal_annotation(#[trigger] items[i]) == Some(a);
            if i < r.len() {
                assert(r[i] == items[i]);
            }
        }
    }
}

/// Of remarks on actions exactly the good ones are kept, in their normal form.
pub proof fn good_remarks_on_actions_are_kept(items: Seq<JsonView>, legal_len: nat, a: JsonView)
    ensures
        normal_actions(items, legal_len).contains(a) <==> exists|i: int|
            0 <= i < items.len() && normal_action(#[trigger] items[i], legal_len) == Some(a),
    decreases items.len(),
{
    if items.len() > 0 {
        let r = items.drop_last();
        good_remarks_on_actions_are_kept(r, legal_len, a);
        assert(items[items.len() - 1] == items.last());
        if normal_action(items.last(), legal_len) is Some {
            lemma_pushed(normal_actions(r, legal_len), normal_action(items.last(), legal_len)->0, a);
        }
        if exists|i: int| 0 <= i < r.len() && normal_action(#[trigger] r[i], legal_len) == Some(a) {
            let i = choose|i: int| 0 <= i < r.len() && normal_action(#[trigger] r[i], legal_len) == Some(a);
            assert(items[i] == r[i]);
        }
        if exists|i: int| 0 <= i < items.len() && normal_action(#[trigger] items[i], legal_len) == Some(a) {
            let i = choose|i: int| 0 <= i < items.len() && normal_action(#[trigger] items[i], legal_len) == Some(a);
            if i < r.len() {
                assert(r[i] == items[i]);
            }
        }
    }
}

/// Remarks that are short enough are passed on whole, with their recommendation checked.
pub proof fn short_remarks_are_passed_on_whole(response: JsonView, legal_len: nat)
    requires
        response.get("meta"@) is Some,
        encode_utf8(written(checked_meta(response.get("meta"@)->0, legal_len))).len() <= MAX_META_BYTES,
    ensures
        meta_text(response, legal_len) == Some(written(checked_meta(response.get("meta"@)->0, legal_len))),
{
    let meta = checked_meta(response.get("meta"@)->0, legal_len);
    assert(trimmed_from(meta, 0) == meta);
}

} // verus!
