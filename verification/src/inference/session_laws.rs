//! How an engine is greeted, and when it is asked again.

use vstd::prelude::*;
use crate::inference::contract::{strings_view, InferenceErrorKind};
use crate::inference::driver::{is_retried, time_left, Admission, BreakerState, ProviderPolicy};
use crate::inference::request::EngineProcessConfig;
use crate::inference::session::{caps_of, greeted, negotiated, texts_at, texts_of};
use crate::json::JsonView;
use crate::maintainer::offer_laws::lemma_pushed;

verus! {

/// The protocol that is negotiated is the first that the host offers and the engine knows; there is none
/// exactly where they have none in common.
pub proof fn the_first_common_protocol_is_negotiated(host: Seq<Seq<char>>, engine: Seq<Seq<char>>)
    ensures
        match negotiated(host, engine) {
            Some(p) => exists|i: int|
                0 <= i < host.len() && #[trigger] host[i] == p && engine.contains(p) && forall|j: int|
                    0 <= j < i ==> !engine.contains(#[trigger] host[j]),
            None => forall|j: int| 0 <= j < host.len() ==> !engine.contains(#[trigger] host[j]),
        },
    decreases host.len(),
{
    if host.len() > 0 {
        if engine.contains(host[0]) {
            assert(host[0] == negotiated(host, engine)->0);
        } else {
            let r = host.drop_first();
            the_first_common_protocol_is_negotiated(r, engine);
            assert forall|j: int| 1 <= j < host.len() implies #[trigger] host[j] == r[j - 1] by {}
            match negotiated(host, engine) {
                Some(p) => {
                    let i = choose|i: int|
                        0 <= i < r.len() && #[trigger] r[i] == p && engine.contains(p) && forall|j: int|
                            0 <= j < i ==> !engine.contains(#[trigger] r[j]);
                    assert(host[i + 1] == p);
                    assert forall|j: int| 0 <= j < i + 1 implies !engine.contains(#[trigger] host[j]) by {
                        if j > 0 {
                            assert(host[j] == r[j - 1]);
                        }
                    }
                },
                None => {},
            }
        }
    }
}

/// The texts of a list are kept, what is no text is passed over.
pub proof fn texts_are_kept(items: Seq<JsonView>, t: Seq<char>)
    ensures
        texts_of(items).contains(t) <==> exists|i: int| 0 <= i < items.len() && (#[trigger] items[i]).as_text() == Some(t),
    decreases items.len(),
{
    if items.len() > 0 {
        let r = items.drop_last();
        texts_are_kept(r, t);
        assert(items[items.len() - 1] == items.last());
        if items.last().as_text() is Some {
            lemma_pushed(texts_of(r), items.last().as_text()->0, t);
        }
        if exists|i: int| 0 <= i < r.len() && (#[trigger] r[i]).as_text() == Some(t) {
            let i = choose|i: int| 0 <= i < r.len() && (#[trigger] r[i]).as_text() == Some(t);
            assert(items[i] == r[i]);
        }
        if exists|i: int| 0 <= i < items.len() && (#[trigger] items[i]).as_text() == Some(t) {
            let i = choose|i: int| 0 <= i < items.len() && (#[trigger] items[i]).as_text() == Some(t);
            if i < r.len() {
                assert(r[i] == items[i]);
            }
        }
    }
}

/// A greeting is taken exactly where the engine says so for this session, shares a protocol, declares its
/// capabilities and plays the game that was asked for.
pub proof fn greetings_are_taken_exactly(config: EngineProcessConfig, response: JsonView)
    ensures
        greeted(config, response) is Ok <==> {
            &&& response.bool_at("ok"@) == Some(true)
            &&& response.text_at("session_id"@) == Some(config.session_id@)
            &&& texts_at(response, "protocol_versions"@) is Some
            &&& exists|i: int|
                0 <= i < strings_view(config.protocol_versions@).len() && texts_at(response, "protocol_versions"@)->0.contains(
                    #[trigger] strings_view(config.protocol_versions@)[i],
                )
            &&& caps_of(response) is Ok && caps_of(response)->Ok_0.rule_lines.contains(config.rule_line)
        },
        greeted(config, response) is Ok ==> (greeted(config, response)->Ok_0).1 == caps_of(response)->Ok_0,
        greeted(config, response) is Err ==> (greeted(config, response)->Err_0).0.kind == InferenceErrorKind::Protocol || caps_of(
            response,
        ) is Err,
{
    if texts_at(response, "protocol_versions"@) is Some {
        the_first_common_protocol_is_negotiated(
            strings_view(config.protocol_versions@),
            texts_at(response, "protocol_versions"@)->0,
        );
    }
}

/// A call has the smaller of its cap and the time to its deadline.
pub proof fn calls_have_the_time_that_is_left(deadline: Option<u64>, now: u64, cap: u64)
    ensures
        ({
            let t = time_left(deadline, now, cap);
            &&& deadline is None ==> t == cap
            &&& deadline is Some && now + cap <= deadline->0 ==> t == cap
            &&& deadline is Some && now <= deadline->0 < now + cap ==> now + t == deadline->0
            &&& deadline is Some && deadline->0 < now ==> t == 0
        }),
{
}

/// A call is made again exactly where it was never sent, may be repeated, and has time left.
pub proof fn unsent_calls_are_repeated_in_time(policy: ProviderPolicy, kind: InferenceErrorKind, attempt: usize, now: u64, deadline: Option<u64>)
    ensures
        is_retried(policy, kind, attempt, now, deadline) <==> {
            &&& kind == InferenceErrorKind::PreSendUnavailable
            &&& attempt < policy.max_retries
            &&& deadline is Some ==> time_left(deadline, now, 1) > 0
        },
{
}

/// A breaker lets a call through exactly where it was never opened, or where its time is over and no other
/// call is trying it.
pub proof fn breakers_let_calls_through_when_closed_or_tried(b: BreakerState, now: u64)
    ensures
        b.admission(now) == Admission::Pass <==> b.open_until is None,
        b.admission(now) == Admission::Probe <==> b.open_until is Some && b.open_until->0 <= now && !b.half_open_inflight,
        b.admission(now) == Admission::Open <==> b.open_until is Some && now < b.open_until->0,
        b.admission(now) == Admission::Probe ==> b.after_admission(now).half_open_inflight,
        b.admission(now) != Admission::Probe ==> b.after_admission(now) == b,
{
}

} // verus!
