//! Who wins, who calls and how a hand of self-play goes on.

use vstd::prelude::*;
use crate::cli::selfplay::{
    answered, counted_winners, declared_pon, declared_ron, in_turn_order, next_phase, passed_on_ron, AnsweredFacts,
    Phase, SeatAnswer, TableState,
};
use crate::mahjong::rules::RonResolution;
use crate::mahjong::tile::Tile;
use crate::maintainer::action::ReactionAction;
use crate::maintainer::offer_laws::lemma_pushed;

verus! {

/// How many turns a seat is after another.
pub open spec fn turns_after(seat: int, from: int, seats: int) -> int {
    if seat >= from { seat - from } else { seat + seats - from }
}

spec fn goes_around(all: Seq<u8>, winners: Seq<u8>, from: u8, seats: nat, n: nat) -> bool {
    &&& forall|i: int|
        0 <= i < all.len() ==> (#[trigger] all[i]) < seats && winners.contains(all[i]) && turns_after(
            all[i] as int,
            from as int,
            seats as int,
        ) < n
    &&& forall|i: int, j: int|
        0 <= i < j < all.len() ==> turns_after((#[trigger] all[i]) as int, from as int, seats as int) < turns_after(
            (#[trigger] all[j]) as int,
            from as int,
            seats as int,
        )
    &&& forall|s: u8|
        s < seats && #[trigger] winners.contains(s) && turns_after(s as int, from as int, seats as int) < n ==> all.contains(s)
}

proof fn lemma_around(from: int, seats: int, k: int)
    requires
        1 <= seats <= 4,
        0 <= from < seats,
        0 <= k < seats,
    ensures
        0 <= (from + k) % seats < seats,
        turns_after((from + k) % seats, from, seats) == k,
        forall|s: int| 0 <= s < seats && #[trigger] turns_after(s, from, seats) == k ==> s == (from + k) % seats,
{
    if seats == 1 {
        assert((from + k) % 1 == 0);
    } else if seats == 2 {
        assert((from + k) % 2 == if from + k < 2 { from + k } else { from + k - 2 });
    } else if seats == 3 {
        assert((from + k) % 3 == if from + k < 3 { from + k } else { from + k - 3 });
    } else {
        assert((from + k) % 4 == if from + k < 4 { from + k } else { from + k - 4 });
    }
}

proof fn lemma_turn_order(winners: Seq<u8>, from: u8, seats: nat, n: nat)
    requires
        from < seats <= 4,
        n <= seats,
    ensures
        goes_around(in_turn_order(winners, from, seats, n), winners, from, seats, n),
    decreases n,
{
    if n > 0 {
        let m = (n - 1) as nat;
        let rest = in_turn_order(winners, from, seats, m);
        lemma_turn_order(winners, from, seats, m);
        lemma_around(from as int, seats as int, m as int);
        let s = ((from + n - 1) % seats as int) as u8;
        let all = in_turn_order(winners, from, seats, n);
        assert forall|w: u8| w < seats && #[trigger] winners.contains(w) && turns_after(w as int, from as int, seats as int) < n implies all.contains(
            w,
        ) by {
            lemma_pushed(rest, s, w);
            if turns_after(w as int, from as int, seats as int) == m {
                assert(w == s);
            }
        }
    }
}

/// The winners that count stand in the order of turns after the seat that lost the tile, and where one
/// wins alone, it is the next in turn of all.
pub proof fn winners_stand_in_turn_order(winners: Seq<u8>, from: u8, seats: nat, resolution: RonResolution, w: u8)
    requires
        from < seats <= 4,
        w < seats,
    ensures
        ({
            let c = counted_winners(winners, from, seats, resolution);
            &&& forall|i: int, j: int|
                0 <= i < j < c.len() ==> turns_after((#[trigger] c[i]) as int, from as int, seats as int) < turns_after(
                    (#[trigger] c[j]) as int,
                    from as int,
                    seats as int,
                )
            &&& c.contains(w) ==> winners.contains(w)
            &&& winners.contains(w) ==> c.len() > 0
            &&& resolution != RonResolution::AtamaHane && winners.contains(w) ==> c.contains(w)
            &&& resolution == RonResolution::AtamaHane && winners.contains(w) ==> c.len() == 1 && turns_after(
                c[0] as int,
                from as int,
                seats as int,
            ) <= turns_after(w as int, from as int, seats as int)
        }),
{
    let all = in_turn_order(winners, from, seats, seats);
    lemma_turn_order(winners, from, seats, seats);
    let c = counted_winners(winners, from, seats, resolution);
    if winners.contains(w) {
        assert(all.contains(w));
        let i = choose|i: int| 0 <= i < all.len() && all[i] == w;
        assert(all.len() > 0);
        if i > 0 {
            assert(turns_after(all[0] as int, from as int, seats as int) < turns_after(all[i] as int, from as int, seats as int));
        }
    }
    if c.contains(w) {
        let i = choose|i: int| 0 <= i < c.len() && c[i] == w;
        assert(all[i] == w);
    }
}

proof fn lemma_declared_ron(answers: Seq<SeatAnswer>, seat: u8)
    ensures
        declared_ron(answers).contains(seat) <==> exists|i: int|
            0 <= i < answers.len() && (#[trigger] answers[i]).action is Ron && answers[i].seat == seat,
        declared_ron(answers).len() > 0 <==> exists|i: int| 0 <= i < answers.len() && (#[trigger] answers[i]).action is Ron,
    decreases answers.len(),
{
    if answers.len() > 0 {
        let r = answers.drop_last();
        lemma_declared_ron(r, seat);
        lemma_pushed(declared_ron(r), answers.last().seat, seat);
        assert(answers[answers.len() - 1] == answers.last());
        if exists|i: int| 0 <= i < r.len() && (#[trigger] r[i]).action is Ron && r[i].seat == seat {
            let i = choose|i: int| 0 <= i < r.len() && (#[trigger] r[i]).action is Ron && r[i].seat == seat;
            assert(answers[i] == r[i]);
        }
        if exists|i: int| 0 <= i < r.len() && (#[trigger] r[i]).action is Ron {
            let i = choose|i: int| 0 <= i < r.len() && (#[trigger] r[i]).action is Ron;
            assert(answers[i] == r[i]);
        }
        if exists|i: int| 0 <= i < answers.len() && (#[trigger] answers[i]).action is Ron && answers[i].seat == seat {
            let i = choose|i: int| 0 <= i < answers.len() && (#[trigger] answers[i]).action is Ron && answers[i].seat == seat;
            if i < r.len() {
                assert(r[i] == answers[i]);
            }
        }
        if exists|i: int| 0 <= i < answers.len() && (#[trigger] answers[i]).action is Ron {
            let i = choose|i: int| 0 <= i < answers.len() && (#[trigger] answers[i]).action is Ron;
            if i < r.len() {
                assert(r[i] == answers[i]);
            }
        }
    }
}

proof fn lemma_declared_pon(answers: Seq<SeatAnswer>)
    ensures
        match declared_pon(answers) {
            Some((s, t)) => exists|i: int| is_first_pon(answers, i, s, t),
            None => forall|i: int| 0 <= i < answers.len() ==> !((#[trigger] answers[i]).action is Pon),
        },
    decreases answers.len(),
{
    if answers.len() > 0 {
        let r = answers.drop_last();
        lemma_declared_pon(r);
        let n = answers.len() - 1;
        assert(answers[n] == answers.last());
        if declared_pon(r) is Some {
            let (s, t) = declared_pon(r)->0;
            let i = choose|i: int| is_first_pon(r, i, s, t);
            assert(answers[i] == r[i]);
            assert forall|j: int| 0 <= j < i implies !((#[trigger] answers[j]).action is Pon) by {
                assert(answers[j] == r[j]);
            }
            assert(is_first_pon(answers, i, s, t));
        } else {
            assert forall|j: int| 0 <= j < n implies !((#[trigger] answers[j]).action is Pon) by {
                assert(answers[j] == r[j]);
            }
            if declared_pon(answers) is Some {
                let (s, t) = declared_pon(answers)->0;
                assert(is_first_pon(answers, n, s, t));
            }
        }
    }
}

/// The first answer that is a pon: its seat and its tiles.
pub open spec fn is_first_pon(answers: Seq<SeatAnswer>, i: int, seat: u8, tiles: [Tile; 2]) -> bool {
    &&& 0 <= i < answers.len() && answers[i].seat == seat && answers[i].action == (ReactionAction::Pon { consumed: tiles })
    &&& forall|j: int| 0 <= j < i ==> !((#[trigger] answers[j]).action is Pon)
}

/// Ron goes before pon, and pon before nothing: where a seat declares ron, the winners that count win, or
/// three at once end a hand of four where the rules say so; else the first pon is taken, unless the tile
/// can only be robbed; else all pass.
pub proof fn ron_goes_before_pon(answers: Seq<SeatAnswer>, from: u8, seats: u8, resolution: RonResolution, robbery: bool, w: u8)
    requires
        from < seats <= 4,
        w < seats,
    ensures
        ({
            let r = answered(answers, from, seats, resolution, robbery);
            let any_ron = exists|i: int| 0 <= i < answers.len() && (#[trigger] answers[i]).action is Ron;
            let any_pon = exists|i: int| 0 <= i < answers.len() && (#[trigger] answers[i]).action is Pon;
            &&& r is Ron || r is TripleRon <==> any_ron
            &&& r is TripleRon ==> seats == 4 && resolution == RonResolution::TripleRonAbortive
            &&& r is Pon <==> !any_ron && !robbery && any_pon
            &&& r is Pon ==> exists|i: int| is_first_pon(answers, i, r->Pon_0, r->Pon_1)
            &&& r is Ron && r->Ron_0.contains(w) ==> exists|i: int|
                0 <= i < answers.len() && (#[trigger] answers[i]).action is Ron && answers[i].seat == w
            &&& r is Ron && resolution != RonResolution::AtamaHane && (exists|i: int|
                0 <= i < answers.len() && (#[trigger] answers[i]).action is Ron && answers[i].seat == w) ==> r->Ron_0.contains(w)
            &&& r is Ron && resolution == RonResolution::TripleRonAbortive && seats == 4 ==> r->Ron_0.len() != 3
        }),
{
    lemma_declared_ron(answers, w);
    lemma_declared_pon(answers);
    let rons = declared_ron(answers);
    winners_stand_in_turn_order(rons, from, seats as nat, resolution, w);
    if declared_pon(answers) is Some {
        let (s, t) = declared_pon(answers)->0;
        let i = choose|i: int| is_first_pon(answers, i, s, t);
        assert(answers[i].action is Pon);
    }
    let r = answered(answers, from, seats, resolution, robbery);
    if r is Pon {
        let (s, t) = declared_pon(answers)->0;
        assert(r == AnsweredFacts::Pon(s, t));
        let i = choose|i: int| is_first_pon(answers, i, s, t);
        assert(is_first_pon(answers, i, r->Pon_0, r->Pon_1));
    }
}

/// Exactly the seats that could have declared ron and did not have passed on it.
pub proof fn silent_rons_are_passed_on(answers: Seq<SeatAnswer>, seat: u8)
    ensures
        passed_on_ron(answers).contains(seat) <==> exists|i: int|
            0 <= i < answers.len() && (#[trigger] answers[i]).could_ron && !(answers[i].action is Ron) && answers[i].seat == seat,
    decreases answers.len(),
{
    if answers.len() > 0 {
        let r = answers.drop_last();
        silent_rons_are_passed_on(r, seat);
        lemma_pushed(passed_on_ron(r), answers.last().seat, seat);
        assert(answers[answers.len() - 1] == answers.last());
        if exists|i: int|
            0 <= i < r.len() && (#[trigger] r[i]).could_ron && !(r[i].action is Ron) && r[i].seat == seat {
            let i = choose|i: int|
                0 <= i < r.len() && (#[trigger] r[i]).could_ron && !(r[i].action is Ron) && r[i].seat == seat;
            assert(answers[i] == r[i]);
        }
        if exists|i: int|
            0 <= i < answers.len() && (#[trigger] answers[i]).could_ron && !(answers[i].action is Ron) && answers[i].seat == seat {
            let i = choose|i: int|
                0 <= i < answers.len() && (#[trigger] answers[i]).could_ron && !(answers[i].action is Ron) && answers[i].seat
                    == seat;
            if i < r.len() {
                assert(r[i] == answers[i]);
            }
        }
    }
}

/// The loop stops with an error exactly where a turn or a North is refused, where no tile came from a
/// wall that had some, or where a round ends with too many events.
pub proof fn the_loop_stops_on_refusals(p: Phase, t: TableState)
    ensures
        next_phase(p, t) is Err <==> {
            ||| p == Phase::Draw && !t.drawn && t.wall_before > 0
            ||| p == Phase::SetAside && t.may_set_aside && t.refused
            ||| p == Phase::Turn && t.refused
            ||| t.events > 10000 && ends_round(p, t)
        },
        next_phase(p, t) == Ok::<Phase, Seq<char>>(Phase::Draw) <==> ends_round(p, t) && t.events <= 10000,
{
}

/// A round of the loop ends: the turn passes on, or nothing is left to answer.
pub open spec fn ends_round(p: Phase, t: TableState) -> bool {
    ||| p == Phase::Advance
    ||| p == Phase::Discard && !t.ended && !t.discard_pending
    ||| p == Phase::Robbery && !t.ended && !t.discard_pending
    ||| p == Phase::Turn && !t.refused && !t.ended && !t.robbery_pending && !t.discard_pending
}

/// A hand is over exactly where the table says that it has ended, or where no tile was left to draw.
/// Each seat decides after its draw, at a table of three once it sets no more Norths aside; robberies are
/// answered before discards, and the turn passes on only after a discard that nobody took.
pub proof fn the_loop_keeps_its_order(p: Phase, t: TableState)
    requires
        next_phase(p, t) is Ok,
    ensures
        ({
            let n = next_phase(p, t)->Ok_0;
            &&& n == Phase::Over <==> p == Phase::Over || p == Phase::Exhausted || (t.ended && (p == Phase::Turn || p == Phase::Robbery
                || p == Phase::Discard || p == Phase::SetAsideRobbery || (p == Phase::SetAside && t.may_set_aside)))
            &&& n == Phase::Exhausted <==> p == Phase::Draw && !t.drawn
            &&& n == Phase::Turn <==> (p == Phase::Draw && t.drawn && !t.three_players) || (p == Phase::SetAside && !t.may_set_aside)
            &&& n == Phase::SetAside <==> (p == Phase::Draw && t.drawn && t.three_players) || (p == Phase::SetAsideRobbery && !t.ended)
                || (p == Phase::SetAside && t.may_set_aside && !t.ended && !t.robbery_pending)
            &&& n == Phase::SetAsideRobbery <==> p == Phase::SetAside && t.may_set_aside && !t.ended && t.robbery_pending
            &&& n == Phase::Robbery <==> p == Phase::Turn && !t.ended && t.robbery_pending
            &&& n == Phase::Discard <==> !t.ended && t.discard_pending && (p == Phase::Robbery || (p == Phase::Turn
                && !t.robbery_pending))
            &&& n == Phase::Advance <==> p == Phase::Discard && !t.ended && t.discard_pending
        }),
{
}

} // verus!
