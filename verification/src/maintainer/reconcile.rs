//! Comparison of the library's legal actions with those that a platform offers.

use vstd::prelude::*;
use crate::maintainer::action::{ReactionAction, TurnAction};

verus! {

/// Quality of the passive reconstruction.
#[derive(Debug, Clone, Copy, PartialEq, Eq, Structural)]
pub enum MirrorQuality {
    Exact,
    Degraded,
    Unsafe,
}

/// Relation between the legal set and the actions a platform offers.
#[derive(Debug, Clone, Copy, PartialEq, Eq, Structural)]
pub enum ActionSetRelation {
    Exact,
    /// The platform offers fewer.
    PlatformNarrower,
    /// The platform offers actions that are not legal here.
    PlatformWider,
    /// Each side has actions of its own, and there are common ones.
    Divergent,
    /// Both have actions, none in common.
    Disjoint,
    /// At least one side has no actions.
    Missing,
}

/// Actions that can be compared and copied.
pub trait ActionItem: Sized {
    /// Whether two actions are the same.
    fn same_as(&self, other: &Self) -> (r: bool)
        ensures
            r == (*self == *other),
    ;

    /// The same action again.
    fn again(&self) -> (r: Self)
        ensures
            r == *self,
    ;
}

impl ActionItem for TurnAction {
    fn same_as(&self, other: &Self) -> (r: bool) {
        *self == *other
    }

    fn again(&self) -> (r: Self) {
        *self
    }
}

impl ActionItem for ReactionAction {
    fn same_as(&self, other: &Self) -> (r: bool) {
        match (self, other) {
            (ReactionAction::Chi { consumed: a }, ReactionAction::Chi { consumed: b })
            | (ReactionAction::Pon { consumed: a }, ReactionAction::Pon { consumed: b }) => {
                let r = a[0] == b[0] && a[1] == b[1];
                proof {
                    if r {
                        assert(a@ =~= b@);
                        assert(*a =~= *b);
                    } else {
                        assert(a@[0] != b@[0] || a@[1] != b@[1]);
                    }
                }
                r
            },
            (ReactionAction::Pass, ReactionAction::Pass) => true,
            (ReactionAction::Daiminkan, ReactionAction::Daiminkan) => true,
            (ReactionAction::Ron, ReactionAction::Ron) => true,
            _ => false,
        }
    }

    fn again(&self) -> (r: Self) {
        *self
    }
}

/// Action boundary between the mirror and a platform.
///
/// Inference uses common actions, and only on an exact mirror. A degraded mirror keeps what
/// the platform has shown to be executable as a fallback; an unsafe one has neither.
#[derive(Debug, PartialEq, Eq)]
pub struct ActionReconciliation<A> {
    pub quality: MirrorQuality,
    pub relation: ActionSetRelation,
    pub common: Vec<A>,
    pub flytable_only: Vec<A>,
    pub platform_only: Vec<A>,
    pub inference_actions: Vec<A>,
    pub fallback_actions: Vec<A>,
}

impl<A> ActionReconciliation<A> {
    pub fn normal_inference_allowed(&self) -> (r: bool)
        ensures
            r == (self.quality == MirrorQuality::Exact && self.inference_actions@.len() > 0),
    {
        self.quality == MirrorQuality::Exact && self.inference_actions.len() > 0
    }

    /// The first action allowed at this quality, as a deterministic fallback.
    pub fn deterministic_fallback(&self) -> (r: Option<&A>)
        ensures
            match r {
                Some(a) => self.fallback_actions@.len() > 0 && *a == self.fallback_actions@[0],
                None => self.fallback_actions@.len() == 0,
            },
    {
        if self.fallback_actions.len() > 0 {
            Some(&self.fallback_actions[0])
        } else {
            None
        }
    }
}

/// A list without repetitions, by first appearance.
pub open spec fn distinct<A>(s: Seq<A>) -> Seq<A>
    decreases s.len(),
{
    if s.len() == 0 {
        s
    } else {
        let t = distinct(s.drop_last());
        if t.contains(s.last()) { t } else { t.push(s.last()) }
    }
}

/// The entries of a list that are in another, or those that are not.
pub open spec fn those_in<A>(s: Seq<A>, other: Seq<A>, inside: bool) -> Seq<A>
    decreases s.len(),
{
    if s.len() == 0 {
        s
    } else {
        let t = those_in(s.drop_last(), other, inside);
        if other.contains(s.last()) == inside { t.push(s.last()) } else { t }
    }
}

pub open spec fn relation_of(flytable: nat, platform: nat, common: nat, flytable_only: nat, platform_only: nat) -> ActionSetRelation {
    if flytable == 0 || platform == 0 {
        ActionSetRelation::Missing
    } else if common == 0 {
        ActionSetRelation::Disjoint
    } else if flytable_only == 0 && platform_only == 0 {
        ActionSetRelation::Exact
    } else if platform_only == 0 {
        ActionSetRelation::PlatformNarrower
    } else if flytable_only == 0 {
        ActionSetRelation::PlatformWider
    } else {
        ActionSetRelation::Divergent
    }
}

fn contains_item<A: ActionItem>(v: &Vec<A>, a: &A) -> (r: bool)
    ensures
        r == v@.contains(*a),
{
    let mut i: usize = 0;
    while i < v.len()
        invariant
            i <= v.len(),
            forall|j: int| 0 <= j < i ==> v@[j] != *a,
        decreases v.len() - i,
    {
        if v[i].same_as(a) {
            assert(v@.contains(*a));
            return true;
        }
        i = i + 1;
    }
    false
}

fn dedup_actions<A: ActionItem>(actions: &[A]) -> (r: Vec<A>)
    ensures
        r@ == distinct(actions@),
{
    let mut r: Vec<A> = Vec::new();
    let mut i: usize = 0;
    assert(actions@.subrange(0, 0) =~= Seq::empty());
    assert(r@ =~= distinct(actions@.subrange(0, 0)));
    while i < actions.len()
        invariant
            i <= actions.len(),
            r@ == distinct(actions@.subrange(0, i as int)),
        decreases actions.len() - i,
    {
        assert(actions@.subrange(0, i + 1).drop_last() =~= actions@.subrange(0, i as int));
        if !contains_item(&r, &actions[i]) {
            r.push(actions[i].again());
        }
        i = i + 1;
    }
    assert(actions@.subrange(0, i as int) =~= actions@);
    r
}

fn select_items<A: ActionItem>(v: &Vec<A>, other: &Vec<A>, inside: bool) -> (r: Vec<A>)
    ensures
        r@ == those_in(v@, other@, inside),
{
    let mut r: Vec<A> = Vec::new();
    let mut i: usize = 0;
    assert(v@.subrange(0, 0) =~= Seq::empty());
    assert(r@ =~= those_in(v@.subrange(0, 0), other@, inside));
    while i < v.len()
        invariant
            i <= v.len(),
            r@ == those_in(v@.subrange(0, i as int), other@, inside),
        decreases v.len() - i,
    {
        assert(v@.subrange(0, i + 1).drop_last() =~= v@.subrange(0, i as int));
        if contains_item(other, &v[i]) == inside {
            r.push(v[i].again());
        }
        i = i + 1;
    }
    assert(v@.subrange(0, i as int) =~= v@);
    r
}

fn copy_items<A: ActionItem>(v: &Vec<A>) -> (r: Vec<A>)
    ensures
        r@ == v@,
{
    let mut r: Vec<A> = Vec::new();
    let mut i: usize = 0;
    while i < v.len()
        invariant
            i <= v.len(),
            r@ == v@.subrange(0, i as int),
        decreases v.len() - i,
    {
        r.push(v[i].again());
        assert(r@ =~= v@.subrange(0, i + 1));
        i = i + 1;
    }
    assert(r@ =~= v@);
    r
}

/// A comparison of the legal actions with the platform's.
pub open spec fn reconciles<A>(r: ActionReconciliation<A>, quality: MirrorQuality, flytable: Seq<A>, platform: Seq<A>) -> bool {
    let f = distinct(flytable);
    let p = distinct(platform);
    &&& r.quality == quality
    &&& r.common@ == those_in(f, p, true)
    &&& r.flytable_only@ == those_in(f, p, false)
    &&& r.platform_only@ == those_in(p, f, false)
    &&& r.relation == relation_of(
        f.len(),
        p.len(),
        those_in(f, p, true).len(),
        those_in(f, p, false).len(),
        those_in(p, f, false).len(),
    )
    &&& r.inference_actions@ == if quality == MirrorQuality::Exact { those_in(f, p, true) } else { Seq::empty() }
    &&& r.fallback_actions@ == match quality {
        MirrorQuality::Exact => those_in(f, p, true),
        MirrorQuality::Degraded => p,
        MirrorQuality::Unsafe => Seq::empty(),
    }
}

/// Compares the legal actions with the platform's. Platform actions are converted beforehand;
/// nothing is matched loosely to force an intersection.
pub fn reconcile_action_sets<A: ActionItem>(quality: MirrorQuality, flytable: &[A], platform: &[A]) -> (r: ActionReconciliation<A>)
    ensures
        reconciles(r, quality, flytable@, platform@),
{
    let f = dedup_actions(flytable);
    let p = dedup_actions(platform);
    let common = select_items(&f, &p, true);
    let flytable_only = select_items(&f, &p, false);
    let platform_only = select_items(&p, &f, false);
    let relation = if f.len() == 0 || p.len() == 0 {
        ActionSetRelation::Missing
    } else if common.len() == 0 {
        ActionSetRelation::Disjoint
    } else if flytable_only.len() == 0 && platform_only.len() == 0 {
        ActionSetRelation::Exact
    } else if platform_only.len() == 0 {
        ActionSetRelation::PlatformNarrower
    } else if flytable_only.len() == 0 {
        ActionSetRelation::PlatformWider
    } else {
        ActionSetRelation::Divergent
    };
    let inference_actions = if quality == MirrorQuality::Exact { copy_items(&common) } else { Vec::new() };
    let fallback_actions = match quality {
        MirrorQuality::Exact => copy_items(&common),
        MirrorQuality::Degraded => copy_items(&p),
        MirrorQuality::Unsafe => Vec::new(),
    };
    proof {
        assert(quality != MirrorQuality::Exact ==> inference_actions@ =~= Seq::empty());
        assert(quality == MirrorQuality::Unsafe ==> fallback_actions@ =~= Seq::empty());
    }
    ActionReconciliation { quality, relation, common, flytable_only, platform_only, inference_actions, fallback_actions }
}

proof fn lemma_those_in<A>(s: Seq<A>, other: Seq<A>, inside: bool, a: A)
    ensures
        those_in(s, other, inside).contains(a) <==> s.contains(a) && other.contains(a) == inside,
    decreases s.len(),
{
    if s.len() > 0 {
        let rest = s.drop_last();
        lemma_those_in(rest, other, inside, a);
        let t = those_in(rest, other, inside);
        let u = those_in(s, other, inside);
        if s.contains(a) {
            let i = choose|i: int| 0 <= i < s.len() && s[i] == a;
            if i < s.len() - 1 {
                assert(rest[i] == a);
            }
        }
        if rest.contains(a) {
            let i = choose|i: int| 0 <= i < rest.len() && rest[i] == a;
            assert(s[i] == a);
        }
        if t.contains(a) {
            let i = choose|i: int| 0 <= i < t.len() && t[i] == a;
            assert(u[i] == a);
        }
        if u.contains(a) {
            let i = choose|i: int| 0 <= i < u.len() && u[i] == a;
            if i < t.len() {
                assert(t[i] == a);
            } else {
                assert(s[s.len() - 1] == a);
            }
        }
        if a == s.last() && other.contains(a) == inside {
            assert(u[u.len() - 1] == a);
        }
    }
}

proof fn lemma_distinct<A>(s: Seq<A>, a: A)
    ensures
        distinct(s).contains(a) <==> s.contains(a),
    decreases s.len(),
{
    if s.len() > 0 {
        let rest = s.drop_last();
        lemma_distinct(rest, a);
        lemma_distinct(rest, s.last());
        let t = distinct(rest);
        let u = distinct(s);
        if s.contains(a) {
            let i = choose|i: int| 0 <= i < s.len() && s[i] == a;
            if i < s.len() - 1 {
                assert(rest[i] == a);
            }
        }
        if rest.contains(a) {
            let i = choose|i: int| 0 <= i < rest.len() && rest[i] == a;
            assert(s[i] == a);
        }
        if t.contains(a) {
            let i = choose|i: int| 0 <= i < t.len() && t[i] == a;
            assert(u[i] == a);
        }
        if u.contains(a) {
            let i = choose|i: int| 0 <= i < u.len() && u[i] == a;
            if i < t.len() {
                assert(t[i] == a);
            } else {
                assert(s[s.len() - 1] == a);
            }
        }
        if a == s.last() && !t.contains(a) {
            assert(u[u.len() - 1] == a);
        }
    }
}

/// The three lists part the two sets of actions: what is common is in both, what is one
/// side's own is in that one alone, and nothing else is in any of them. Inference never sees
/// an action that the platform does not offer or the rules do not allow.
pub proof fn reconciliation_parts_the_actions<A>(
    r: ActionReconciliation<A>,
    quality: MirrorQuality,
    flytable: Seq<A>,
    platform: Seq<A>,
    a: A,
)
    requires
        reconciles(r, quality, flytable, platform),
    ensures
        r.common@.contains(a) <==> flytable.contains(a) && platform.contains(a),
        r.flytable_only@.contains(a) <==> flytable.contains(a) && !platform.contains(a),
        r.platform_only@.contains(a) <==> platform.contains(a) && !flytable.contains(a),
        r.inference_actions@.contains(a) ==> flytable.contains(a) && platform.contains(a) && quality == MirrorQuality::Exact,
        r.fallback_actions@.contains(a) ==> platform.contains(a) && quality != MirrorQuality::Unsafe,
{
    let f = distinct(flytable);
    let p = distinct(platform);
    lemma_distinct(flytable, a);
    lemma_distinct(platform, a);
    lemma_those_in(f, p, true, a);
    lemma_those_in(f, p, false, a);
    lemma_those_in(p, f, false, a);
}

} // verus!
