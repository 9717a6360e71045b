//! What holds of every mirror: it fails closed, refuses repeated events, and shows a seat only
//! what the seat may see.

use vstd::prelude::*;
use crate::mahjong::calc::all_known;
use crate::maintainer::legal::{dead_views_allow_nothing, reactions, turn_actions};
use crate::maintainer::mirror_rules::{
    core_view, degraded, infers, kan_owners, opponent_of, opponents, start_step, total_kans, view_fault, MirrorFacts,
    StartFacts, Step,
};
use crate::maintainer::player::SeatState;
use crate::maintainer::product::{fed, EventClass};
use crate::maintainer::reconcile::MirrorQuality;

verus! {

/// A mirror that is not exact offers no action and asks for no decision: it fails closed.
pub proof fn inexact_mirrors_offer_nothing(c: MirrorFacts, seat: u8)
    requires
        c.quality != MirrorQuality::Exact,
    ensures
        view_fault(c, seat) is Some,
        turn_actions(core_view(c, seat)).len() == 0,
        reactions(core_view(c, seat)).len() == 0,
        !infers(c, seat),
{
    dead_views_allow_nothing(core_view(c, seat));
}

/// A refused event changes nothing but the quality and the noted issues, and the mirror is then
/// unsafe and offers nothing to any seat.
pub proof fn refused_events_change_no_state(
    c: MirrorFacts,
    repeats: bool,
    class: EventClass,
    step: Step,
    after: MirrorFacts,
    r: Result<(), String>,
    seat: u8,
)
    requires
        fed(c, repeats, class, step, after, r),
        r is Err,
    ensures
        after == (MirrorFacts { quality: after.quality, issues: after.issues, ..c }),
        after.quality == MirrorQuality::Unsafe,
        turn_actions(core_view(after, seat)).len() == 0,
        reactions(core_view(after, seat)).len() == 0,
        !infers(after, seat),
{
    inexact_mirrors_offer_nothing(after, seat);
}

/// The event just accepted is refused if it comes again while the mirror is not unsafe.
pub proof fn repeated_events_are_refused(
    c: MirrorFacts,
    class: EventClass,
    step: Step,
    after: MirrorFacts,
    r: Result<(), String>,
)
    requires
        c.quality != MirrorQuality::Unsafe,
        !(class is Nothing),
        fed(c, true, class, step, after, r),
    ensures
        r is Err,
        after.quality == MirrorQuality::Unsafe,
{
}

/// An unsafe mirror takes nothing but the start of a game or a hand.
pub proof fn unsafe_mirrors_wait_for_a_start(
    c: MirrorFacts,
    repeats: bool,
    class: EventClass,
    step: Step,
    after: MirrorFacts,
    r: Result<(), String>,
)
    requires
        c.quality == MirrorQuality::Unsafe,
        !(class is Start),
        fed(c, repeats, class, step, after, r),
    ensures
        r is Err,
        after == c,
{
}

/// A hand that starts makes the mirror exact again where the own tiles are all known, and
/// degraded where they are not.
pub proof fn a_new_hand_restores_the_mirror(c: MirrorFacts, s: StartFacts, sanma: bool)
    requires
        start_step(c, s, sanma) is Ok,
    ensures
        (start_step(c, s, sanma)->Ok_0.quality == MirrorQuality::Exact) == all_known(s.my_hand),
        start_step(c, s, sanma)->Ok_0.quality != MirrorQuality::Unsafe,
{
}

/// Lost information never makes a mirror better.
pub proof fn degrading_never_restores(c: MirrorFacts, code: Seq<char>, detail: Seq<char>)
    ensures
        degraded(c, code, detail).quality != MirrorQuality::Exact,
        c.quality == MirrorQuality::Unsafe ==> degraded(c, code, detail).quality == MirrorQuality::Unsafe,
{
}

proof fn lemma_same_opponents(a: Seq<SeatState>, b: Seq<SeatState>, seat: u8, n: int)
    requires
        n <= a.len() == b.len(),
        forall|i: int| 0 <= i < a.len() && i != seat ==> opponent_of(#[trigger] a[i], i) == opponent_of(b[i], i),
    ensures
        opponents(a, seat, n) == opponents(b, seat, n),
    decreases n,
{
    if n > 0 {
        lemma_same_opponents(a, b, seat, n - 1);
        assert(n - 1 != seat ==> opponent_of(a[n - 1], n - 1) == opponent_of(b[n - 1], n - 1));
    }
}

proof fn lemma_same_kans(a: Seq<SeatState>, b: Seq<SeatState>)
    requires
        a.len() == b.len(),
        forall|i: int| 0 <= i < a.len() ==> (#[trigger] a[i]).melds == b[i].melds,
    ensures
        total_kans(a) == total_kans(b),
        kan_owners(a) == kan_owners(b),
    decreases a.len(),
{
    if a.len() > 0 {
        assert(a[a.len() - 1].melds == b[a.len() - 1].melds);
        lemma_same_kans(a.drop_last(), b.drop_last());
    }
}

/// Two tables that differ only in what the other seats hold look the same to a seat: a view
/// carries how many tiles another seat holds, never which.
pub proof fn views_hide_other_hands(c: MirrorFacts, players: Seq<SeatState>, seat: u8)
    requires
        players.len() == c.players.len(),
        c.players.len() == 0 || c.players.len() == c.seats,
        seat < players.len() ==> players[seat as int] == c.players[seat as int],
        forall|i: int| 0 <= i < players.len() && i != seat ==> opponent_of(#[trigger] c.players[i], i) == opponent_of(players[i], i),
    ensures
        core_view(MirrorFacts { players, ..c }, seat) == core_view(c, seat),
{
    let d = MirrorFacts { players, ..c };
    if view_fault(c, seat) is None {
        lemma_same_opponents(c.players, players, seat, c.seats as int);
        assert forall|i: int| 0 <= i < players.len() implies (#[trigger] c.players[i]).melds == players[i].melds by {
            assert(i != seat ==> opponent_of(c.players[i], i) == opponent_of(players[i], i));
        }
        lemma_same_kans(c.players, players);
    }
}

} // verus!
