//! How two sets of actions compare, and which actions go where.

use vstd::prelude::*;
use crate::maintainer::offer_laws::lemma_pushed;
use crate::maintainer::reconcile::{
    distinct, reconciles, those_in, ActionReconciliation, ActionSetRelation, MirrorQuality,
};

verus! {

/// Every action of a list is in another.
pub open spec fn is_within<A>(s: Seq<A>, t: Seq<A>) -> bool {
    forall|a: A| #[trigger] s.contains(a) ==> t.contains(a)
}

/// Two lists have an action in common.
pub open spec fn meets<A>(s: Seq<A>, t: Seq<A>) -> bool {
    exists|a: A| #[trigger] s.contains(a) && t.contains(a)
}

/// Nothing stands twice in a list.
pub open spec fn is_plain<A>(s: Seq<A>) -> bool {
    forall|i: int, j: int| 0 <= i < j < s.len() ==> #[trigger] s[i] != #[trigger] s[j]
}

proof fn lemma_distinct_list<A>(s: Seq<A>)
    ensures
        is_plain(distinct(s)),
        forall|a: A| #[trigger] distinct(s).contains(a) <==> s.contains(a),
        distinct(s).len() == 0 <==> s.len() == 0,
    decreases s.len(),
{
    if s.len() > 0 {
        let r = s.drop_last();
        lemma_distinct_list(r);
        let t = distinct(r);
        assert(s =~= r.push(s.last()));
        assert forall|a: A| #[trigger] distinct(s).contains(a) <==> s.contains(a) by {
            lemma_pushed(r, s.last(), a);
            lemma_pushed(t, s.last(), a);
        }
        if !t.contains(s.last()) {
            assert forall|i: int, j: int| 0 <= i < j < t.push(s.last()).len() implies #[trigger] t.push(s.last())[i]
                != #[trigger] t.push(s.last())[j] by {
                assert(t.contains(t[i]));
            }
        } else {
            let i = choose|i: int| 0 <= i < t.len() && t[i] == s.last();
        }
    }
}

proof fn lemma_those<A>(s: Seq<A>, other: Seq<A>, inside: bool)
    ensures
        forall|a: A| #[trigger] those_in(s, other, inside).contains(a) <==> s.contains(a) && other.contains(a) == inside,
        is_plain(s) ==> is_plain(those_in(s, other, inside)),
        those_in(s, other, inside).len() == 0 <==> forall|a: A| #[trigger] s.contains(a) ==> other.contains(a) != inside,
    decreases s.len(),
{
    if s.len() > 0 {
        let r = s.drop_last();
        let x = s.last();
        lemma_those(r, other, inside);
        let t = those_in(r, other, inside);
        let u = those_in(s, other, inside);
        assert(s =~= r.push(x));
        assert forall|a: A| #[trigger] u.contains(a) <==> s.contains(a) && other.contains(a) == inside by {
            lemma_pushed(r, x, a);
            lemma_pushed(t, x, a);
        }
        if is_plain(s) {
            assert forall|i: int, j: int| 0 <= i < j < r.len() implies #[trigger] r[i] != #[trigger] r[j] by {
                assert(s[i] != s[j]);
            }
            assert(is_plain(r));
            assert(!r.contains(x)) by {
                if r.contains(x) {
                    let i = choose|i: int| 0 <= i < r.len() && r[i] == x;
                    assert(s[i] != s[s.len() - 1]);
                }
            }
            assert forall|i: int, j: int| 0 <= i < j < u.len() implies #[trigger] u[i] != #[trigger] u[j] by {
                if j == t.len() {
                    assert(t.contains(t[i]));
                }
            }
        }
        if u.len() > 0 {
            assert(u.contains(u[0]));
        }
        if exists|a: A| #[trigger] s.contains(a) && other.contains(a) == inside {
            let a = choose|a: A| #[trigger] s.contains(a) && other.contains(a) == inside;
            assert(u.contains(a));
        }
    } else {
        assert forall|a: A| !(#[trigger] s.contains(a)) by {}
    }
}

/// Two sets of actions compare as sets: one is missing; they have nothing in common; they are the same;
/// the platform's is the smaller one, or the larger one; or each has something of its own.
pub proof fn relations_are_those_of_sets<A>(r: ActionReconciliation<A>, quality: MirrorQuality, flytable: Seq<A>, platform: Seq<A>)
    requires
        reconciles(r, quality, flytable, platform),
    ensures
        ({
            let none = flytable.len() == 0 || platform.len() == 0;
            let common = !none && meets(flytable, platform);
            &&& r.relation == ActionSetRelation::Missing <==> none
            &&& r.relation == ActionSetRelation::Disjoint <==> !none && !meets(flytable, platform)
            &&& r.relation == ActionSetRelation::Exact <==> common && is_within(flytable, platform) && is_within(platform, flytable)
            &&& r.relation == ActionSetRelation::PlatformNarrower <==> common && is_within(platform, flytable) && !is_within(
                flytable,
                platform,
            )
            &&& r.relation == ActionSetRelation::PlatformWider <==> common && is_within(flytable, platform) && !is_within(
                platform,
                flytable,
            )
            &&& r.relation == ActionSetRelation::Divergent <==> common && !is_within(flytable, platform) && !is_within(
                platform,
                flytable,
            )
        }),
{
    let f = distinct(flytable);
    let p = distinct(platform);
    lemma_distinct_list(flytable);
    lemma_distinct_list(platform);
    lemma_those(f, p, true);
    lemma_those(f, p, false);
    lemma_those(p, f, false);
    assert(those_in(f, p, true).len() == 0 <==> !meets(flytable, platform)) by {
        if meets(flytable, platform) {
            let a = choose|a: A| #[trigger] flytable.contains(a) && platform.contains(a);
            assert(f.contains(a));
        }
        if those_in(f, p, true).len() > 0 {
            let a = choose|a: A| #[trigger] f.contains(a) && p.contains(a);
            assert(flytable.contains(a));
        }
    }
    assert(those_in(f, p, false).len() == 0 <==> is_within(flytable, platform)) by {
        if is_within(flytable, platform) {
            assert forall|a: A| #[trigger] f.contains(a) implies p.contains(a) by {
                assert(flytable.contains(a));
            }
        }
        if those_in(f, p, false).len() == 0 {
            assert forall|a: A| #[trigger] flytable.contains(a) implies platform.contains(a) by {
                assert(f.contains(a));
            }
        }
    }
    assert(those_in(p, f, false).len() == 0 <==> is_within(platform, flytable)) by {
        if is_within(platform, flytable) {
            assert forall|a: A| #[trigger] p.contains(a) implies f.contains(a) by {
                assert(platform.contains(a));
            }
        }
        if those_in(p, f, false).len() == 0 {
            assert forall|a: A| #[trigger] platform.contains(a) implies flytable.contains(a) by {
                assert(p.contains(a));
            }
        }
    }
}

/// Inference is given exactly what both sides have, of an exact mirror alone; a fallback has that too, of
/// a degraded mirror all that the platform offers, and of an unsafe one nothing. Nothing is listed twice.
pub proof fn actions_go_where_the_mirror_allows<A>(
    r: ActionReconciliation<A>,
    quality: MirrorQuality,
    flytable: Seq<A>,
    platform: Seq<A>,
    a: A,
)
    requires
        reconciles(r, quality, flytable, platform),
    ensures
        r.inference_actions@.contains(a) <==> quality == MirrorQuality::Exact && flytable.contains(a) && platform.contains(a),
        r.fallback_actions@.contains(a) <==> match quality {
            MirrorQuality::Exact => flytable.contains(a) && platform.contains(a),
            MirrorQuality::Degraded => platform.contains(a),
            MirrorQuality::Unsafe => false,
        },
        is_plain(r.common@) && is_plain(r.flytable_only@) && is_plain(r.platform_only@) && is_plain(r.inference_actions@) && is_plain(
            r.fallback_actions@,
        ),
        r.quality == quality,
{
    let f = distinct(flytable);
    let p = distinct(platform);
    lemma_distinct_list(flytable);
    lemma_distinct_list(platform);
    lemma_those(f, p, true);
    lemma_those(f, p, false);
    lemma_those(p, f, false);
    assert(f.contains(a) <==> flytable.contains(a));
    assert(p.contains(a) <==> platform.contains(a));
}

} // verus!
