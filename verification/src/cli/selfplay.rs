//! How a hand of self-play goes on: draw, ask the seat, apply, ask the others, advance. The
//! table and the players are outside; here is what is done with what they say.

use vstd::prelude::*;
use vstd::string::*;
use crate::mahjong::rules::RonResolution;
use crate::mahjong::tile::Tile;
use crate::maintainer::action::{ReactionAction, TurnAction};
use crate::maintainer::legal::{legal_turn_actions, turn_actions, turn_is_known};
use crate::maintainer::view::{SeatView, TableFacts};
use crate::text::{dec, dec_usize, join3, list_of, list_text, owned};

verus! {

// The North of three players.

/// Whether the hand holds a North and the rules let it be set aside.
pub open spec fn may_set_aside(view: TableFacts) -> bool {
    &&& exists|i: int| 0 <= i < view.me.hand.len() && (#[trigger] view.me.hand[i]).kind() == 30
    &&& turn_actions(view).contains(TurnAction::Nukidora)
}

/// Whether self-play sets a North aside.
pub fn sets_north_aside(view: &SeatView) -> (r: bool)
    requires
        view.others@.len() < usize::MAX,
        turn_is_known(view@),
    ensures
        r == may_set_aside(view@),
{
    let mut held = false;
    let mut i: usize = 0;
    while i < view.me.hand.len() && !held
        invariant
            i <= view.me.hand@.len(),
            view@.me.hand == view.me.hand@,
            held == exists|j: int| 0 <= j < i && (#[trigger] view@.me.hand[j]).kind() == 30,
        decreases view.me.hand@.len() - i,
    {
        held = view.me.hand[i].kind() == 30;
        assert(view@.me.hand[i as int] == view.me.hand@[i as int]);
        i = i + 1;
    }
    if !held {
        return false;
    }
    let all = legal_turn_actions(view);
    let mut k: usize = 0;
    while k < all.len()
        invariant
            k <= all@.len(),
            all@ == turn_actions(view@),
            exists|j: int| 0 <= j < view@.me.hand.len() && (#[trigger] view@.me.hand[j]).kind() == 30,
            forall|j: int| 0 <= j < k ==> all@[j] != TurnAction::Nukidora,
        decreases all@.len() - k,
    {
        if matches!(all[k], TurnAction::Nukidora) {
            assert(all@[k as int] == TurnAction::Nukidora);
            return true;
        }
        k = k + 1;
    }
    false
}

// The built-in player.

/// What the built-in player does on its turn: it discards the tile it has just drawn, or the last
/// of its hand where it drew none. It never calls, never declares riichi and never wins.
pub open spec fn drawn_discard(view: TableFacts) -> TurnAction {
    match view.me.drawn_tile {
        Some(tile) => TurnAction::Discard { tile, tsumogiri: true },
        None => TurnAction::Discard { tile: view.me.hand.last(), tsumogiri: false },
    }
}

/// The built-in player's turn.
pub fn tsumogiri(view: &SeatView) -> (r: TurnAction)
    requires
        view.me.drawn_tile is None ==> view.me.hand@.len() > 0,
    ensures
        r == drawn_discard(view@),
{
    match view.me.drawn_tile {
        Some(tile) => TurnAction::Discard { tile, tsumogiri: true },
        None => TurnAction::Discard { tile: view.me.hand[view.me.hand.len() - 1], tsumogiri: false },
    }
}

/// What the built-in player answers to others: nothing.
pub fn tsumogiri_answer(seat: u8, could_ron: bool) -> (r: SeatAnswer)
    ensures
        r.seat == seat,
        r.could_ron == could_ron,
        r.action == ReactionAction::Pass,
{
    SeatAnswer { seat, could_ron, action: ReactionAction::Pass }
}

// Winners.

/// The seats of a list in the order of turns after a seat, up to a distance.
pub open spec fn in_turn_order(winners: Seq<u8>, from: u8, seats: nat, n: nat) -> Seq<u8>
    decreases n,
{
    if n == 0 {
        Seq::empty()
    } else {
        let s = ((from + n - 1) % seats as int) as u8;
        let rest = in_turn_order(winners, from, seats, (n - 1) as nat);
        if winners.contains(s) { rest.push(s) } else { rest }
    }
}

/// The winners that count: in the order of turns, each once, and the first alone where the
/// rules say so.
pub open spec fn counted_winners(winners: Seq<u8>, from: u8, seats: nat, resolution: RonResolution) -> Seq<u8> {
    let all = in_turn_order(winners, from, seats, seats);
    if resolution == RonResolution::AtamaHane && all.len() > 1 { all.take(1) } else { all }
}

fn has_seat(v: &Vec<u8>, s: u8) -> (r: bool)
    ensures
        r == v@.contains(s),
{
    let mut i: usize = 0;
    while i < v.len()
        invariant
            i <= v@.len(),
            forall|j: int| 0 <= j < i ==> v@[j] != s,
        decreases v@.len() - i,
    {
        if v[i] == s {
            return true;
        }
        i = i + 1;
    }
    false
}

/// The winners that count.
pub fn normalize_winners(winners: &Vec<u8>, from: u8, seats: u8, resolution: RonResolution) -> (r: Vec<u8>)
    requires
        from < seats <= 4,
    ensures
        r@ == counted_winners(winners@, from, seats as nat, resolution),
{
    let mut out: Vec<u8> = Vec::new();
    let mut n: u8 = 0;
    assert(out@ =~= Seq::empty());
    while n < seats
        invariant
            from < seats <= 4,
            n <= seats,
            out@ == in_turn_order(winners@, from, seats as nat, n as nat),
        decreases seats - n,
    {
        let s = (from + n) % seats;
        if has_seat(winners, s) {
            out.push(s);
        }
        n = n + 1;
    }
    if resolution == RonResolution::AtamaHane && out.len() > 1 {
        let first = out[0];
        let one: Vec<u8> = vec![first];
        assert(one@ =~= out@.take(1));
        return one;
    }
    out
}

proof fn lemma_turn_order(winners: Seq<u8>, from: u8, seats: nat, n: nat)
    requires
        from < seats <= 4,
        n <= seats,
    ensures
        forall|i: int|
            0 <= i < in_turn_order(winners, from, seats, n).len() ==> winners.contains(
                #[trigger] in_turn_order(winners, from, seats, n)[i],
            ) && exists|k: int| 0 <= k < n && in_turn_order(winners, from, seats, n)[i] == #[trigger] ((from + k) % seats as int),
        forall|k: int|
            0 <= k < n && winners.contains((#[trigger] ((from + k) % seats as int)) as u8) ==> in_turn_order(
                winners,
                from,
                seats,
                n,
            ).contains(((from + k) % seats as int) as u8),
        forall|i: int, j: int|
            0 <= i < j < in_turn_order(winners, from, seats, n).len() ==> #[trigger] in_turn_order(winners, from, seats, n)[i]
                != #[trigger] in_turn_order(winners, from, seats, n)[j],
    decreases n,
{
    if n > 0 {
        lemma_turn_order(winners, from, seats, (n - 1) as nat);
        let rest = in_turn_order(winners, from, seats, (n - 1) as nat);
        let all = in_turn_order(winners, from, seats, n);
        let s = ((from + n - 1) % seats as int) as u8;
        assert forall|i: int| 0 <= i < rest.len() implies rest[i] != s by {
            let k = choose|k: int| 0 <= k < n - 1 && rest[i] == #[trigger] ((from + k) % seats as int);
            assert((from + k) % seats as int != (from + n - 1) % seats as int) by (nonlinear_arith)
                requires
                    0 <= k < n - 1,
                    n <= seats,
                    seats <= 4,
                    0 <= from < seats,
            ;
        }
        assert forall|i: int| 0 <= i < all.len() implies winners.contains(#[trigger] all[i]) && exists|k: int|
            0 <= k < n && all[i] == #[trigger] ((from + k) % seats as int) by {
            if i < rest.len() {
                assert(all[i] == rest[i]);
                let k = choose|k: int| 0 <= k < n - 1 && rest[i] == #[trigger] ((from + k) % seats as int);
                assert(0 <= k < n && all[i] == ((from + k) % seats as int));
            } else {
                assert(all[i] == s);
                assert(s == ((from + (n - 1)) % seats as int));
            }
        }
        assert forall|k: int| 0 <= k < n && winners.contains((#[trigger] ((from + k) % seats as int)) as u8) implies all.contains(
            ((from + k) % seats as int) as u8,
        ) by {
            if k < n - 1 {
                let w = ((from + k) % seats as int) as u8;
                assert(rest.contains(w));
                let i = choose|i: int| 0 <= i < rest.len() && rest[i] == w;
                assert(all[i] == w);
            } else {
                assert(all[rest.len() as int] == s);
            }
        }
        assert forall|i: int, j: int| 0 <= i < j < all.len() implies #[trigger] all[i] != #[trigger] all[j] by {
            if j < rest.len() {
                assert(all[i] == rest[i] && all[j] == rest[j]);
            } else {
                assert(all[i] == rest[i]);
            }
        }
    }
}

/// The winners that count are winners, each once; where more than one may win, all of them.
pub proof fn counted_winners_are_winners(winners: Seq<u8>, from: u8, seats: nat, resolution: RonResolution)
    requires
        from < seats <= 4,
        forall|i: int| 0 <= i < winners.len() ==> (#[trigger] winners[i]) < seats,
    ensures
        ({
            let c = counted_winners(winners, from, seats, resolution);
            &&& forall|i: int| 0 <= i < c.len() ==> winners.contains(#[trigger] c[i])
            &&& forall|i: int, j: int| 0 <= i < j < c.len() ==> #[trigger] c[i] != #[trigger] c[j]
            &&& resolution == RonResolution::AtamaHane ==> c.len() <= 1
            &&& resolution != RonResolution::AtamaHane ==> forall|i: int|
                0 <= i < winners.len() ==> c.contains(#[trigger] winners[i])
        }),
{
    let all = in_turn_order(winners, from, seats, seats);
    lemma_turn_order(winners, from, seats, seats);
    let c = counted_winners(winners, from, seats, resolution);
    if resolution != RonResolution::AtamaHane {
        assert forall|i: int| 0 <= i < winners.len() implies c.contains(#[trigger] winners[i]) by {
            let w = winners[i];
            let k = (w + seats - from) % seats as int;
            assert((from + k) % seats as int == w && 0 <= k < seats) by (nonlinear_arith)
                requires
                    0 <= w < seats,
                    0 <= from < seats,
                    seats <= 4,
                    k == (w + seats - from) % seats as int,
            ;
            assert(winners.contains(((from + k) % seats as int) as u8));
        }
    }
}

// Answers of the other seats.

/// What a seat answers to a discard or a declaration.
#[derive(Debug, Clone, Copy)]
pub struct SeatAnswer {
    pub seat: u8,
    /// Ron was among its legal answers.
    pub could_ron: bool,
    pub action: ReactionAction,
}

/// The seats that passed on a ron.
pub open spec fn passed_on_ron(answers: Seq<SeatAnswer>) -> Seq<u8>
    decreases answers.len(),
{
    if answers.len() == 0 {
        Seq::empty()
    } else if answers.last().could_ron && !(answers.last().action is Ron) {
        passed_on_ron(answers.drop_last()).push(answers.last().seat)
    } else {
        passed_on_ron(answers.drop_last())
    }
}

/// The seats that declare ron.
pub open spec fn declared_ron(answers: Seq<SeatAnswer>) -> Seq<u8>
    decreases answers.len(),
{
    if answers.len() == 0 {
        Seq::empty()
    } else if answers.last().action is Ron {
        declared_ron(answers.drop_last()).push(answers.last().seat)
    } else {
        declared_ron(answers.drop_last())
    }
}

/// The first seat that calls pon, with its tiles.
pub open spec fn declared_pon(answers: Seq<SeatAnswer>) -> Option<(u8, [Tile; 2])>
    decreases answers.len(),
{
    if answers.len() == 0 {
        None
    } else {
        match declared_pon(answers.drop_last()) {
            Some(p) => Some(p),
            None => match answers.last().action {
                ReactionAction::Pon { consumed } => Some((answers.last().seat, consumed)),
                _ => None,
            },
        }
    }
}

/// The seats that passed on a ron, which makes them furiten.
pub fn missed_rons(answers: &Vec<SeatAnswer>) -> (r: Vec<u8>)
    ensures
        r@ == passed_on_ron(answers@),
{
    let mut out: Vec<u8> = Vec::new();
    let mut i: usize = 0;
    assert(out@ =~= passed_on_ron(answers@.take(0)));
    while i < answers.len()
        invariant
            i <= answers@.len(),
            out@ == passed_on_ron(answers@.take(i as int)),
        decreases answers@.len() - i,
    {
        assert(answers@.take(i + 1).drop_last() =~= answers@.take(i as int));
        assert(answers@.take(i + 1).last() == answers@[i as int]);
        if answers[i].could_ron && !matches!(answers[i].action, ReactionAction::Ron) {
            out.push(answers[i].seat);
        }
        i = i + 1;
    }
    assert(answers@.take(i as int) =~= answers@);
    out
}

/// What comes of the answers.
#[derive(Debug)]
pub enum Answered {
    /// Nobody wants the tile.
    Pass,
    /// Three wins at once end the hand.
    TripleRon,
    Ron(Vec<u8>),
    Pon(u8, [Tile; 2]),
}

#[allow(inconsistent_fields)]
pub ghost enum AnsweredFacts {
    Pass,
    TripleRon,
    Ron(Seq<u8>),
    Pon(u8, [Tile; 2]),
}

impl View for Answered {
    type V = AnsweredFacts;

    open spec fn view(&self) -> AnsweredFacts {
        match *self {
            Answered::Pass => AnsweredFacts::Pass,
            Answered::TripleRon => AnsweredFacts::TripleRon,
            Answered::Ron(v) => AnsweredFacts::Ron(v@),
            Answered::Pon(s, t) => AnsweredFacts::Pon(s, t),
        }
    }
}

/// What comes of the answers: ron goes before pon, and three at once end a four-player hand
/// where the rules say so. A declaration that can be robbed cannot be called.
pub open spec fn answered(answers: Seq<SeatAnswer>, from: u8, seats: u8, resolution: RonResolution, robbery: bool) -> AnsweredFacts {
    let rons = declared_ron(answers);
    let winners = counted_winners(rons, from, seats as nat, resolution);
    if rons.len() > 0 {
        if seats == 4 && resolution == RonResolution::TripleRonAbortive && winners.len() == 3 {
            AnsweredFacts::TripleRon
        } else {
            AnsweredFacts::Ron(winners)
        }
    } else if robbery {
        AnsweredFacts::Pass
    } else {
        match declared_pon(answers) {
            Some((s, t)) => AnsweredFacts::Pon(s, t),
            None => AnsweredFacts::Pass,
        }
    }
}

fn rons_of(answers: &Vec<SeatAnswer>) -> (r: Vec<u8>)
    ensures
        r@ == declared_ron(answers@),
{
    let mut out: Vec<u8> = Vec::new();
    let mut i: usize = 0;
    assert(out@ =~= declared_ron(answers@.take(0)));
    while i < answers.len()
        invariant
            i <= answers@.len(),
            out@ == declared_ron(answers@.take(i as int)),
        decreases answers@.len() - i,
    {
        assert(answers@.take(i + 1).drop_last() =~= answers@.take(i as int));
        assert(answers@.take(i + 1).last() == answers@[i as int]);
        if matches!(answers[i].action, ReactionAction::Ron) {
            out.push(answers[i].seat);
        }
        i = i + 1;
    }
    assert(answers@.take(i as int) =~= answers@);
    out
}

fn pon_of(answers: &Vec<SeatAnswer>) -> (r: Option<(u8, [Tile; 2])>)
    ensures
        r == declared_pon(answers@),
{
    let mut found: Option<(u8, [Tile; 2])> = None;
    let mut i: usize = 0;
    while i < answers.len()
        invariant
            i <= answers@.len(),
            found == declared_pon(answers@.take(i as int)),
        decreases answers@.len() - i,
    {
        assert(answers@.take(i + 1).drop_last() =~= answers@.take(i as int));
        assert(answers@.take(i + 1).last() == answers@[i as int]);
        if found.is_none() {
            match answers[i].action {
                ReactionAction::Pon { consumed } => {
                    found = Some((answers[i].seat, consumed));
                },
                _ => {},
            }
        }
        i = i + 1;
    }
    assert(answers@.take(i as int) =~= answers@);
    found
}

/// What comes of the answers to a discard of a seat, or to its declaration.
pub fn resolve_answers(answers: &Vec<SeatAnswer>, from: u8, seats: u8, resolution: RonResolution, robbery: bool) -> (r: Answered)
    requires
        from < seats <= 4,
    ensures
        r@ == answered(answers@, from, seats, resolution, robbery),
{
    let rons = rons_of(answers);
    if rons.len() > 0 {
        let winners = normalize_winners(&rons, from, seats, resolution);
        if seats == 4 && resolution == RonResolution::TripleRonAbortive && winners.len() == 3 {
            Answered::TripleRon
        } else {
            Answered::Ron(winners)
        }
    } else if robbery {
        Answered::Pass
    } else {
        match pon_of(answers) {
            Some((s, t)) => Answered::Pon(s, t),
            None => Answered::Pass,
        }
    }
}

// The loop.

/// Most events of a hand.
pub const EVENT_LIMIT: usize = 10000;

/// What the loop does next.
#[derive(Debug, Clone, Copy, PartialEq, Eq, Structural)]
pub enum Phase {
    /// The seat draws.
    Draw,
    /// The seat sets a North aside, if it may.
    SetAside,
    /// The others may rob the North.
    SetAsideRobbery,
    /// The seat decides.
    Turn,
    /// The others may rob a kan.
    Robbery,
    /// The others may answer the discard.
    Discard,
    /// The turn passes on.
    Advance,
    /// The hand ends without a win.
    Exhausted,
    /// The hand is over.
    Over,
}

/// What the table shows after a phase.
#[derive(Debug, Clone, Copy, PartialEq, Eq, Structural)]
pub struct TableState {
    pub three_players: bool,
    pub seat: u8,
    /// Tiles of the live wall before the draw.
    pub wall_before: usize,
    /// A tile was drawn.
    pub drawn: bool,
    /// What was asked of the table was refused.
    pub refused: bool,
    /// The hand has ended.
    pub ended: bool,
    /// The seat may set a North aside.
    pub may_set_aside: bool,
    pub robbery_pending: bool,
    pub discard_pending: bool,
    pub events: usize,
}

/// The end of a round of the loop.
pub open spec fn round_end(t: TableState) -> Result<Phase, Seq<char>> {
    if t.events > EVENT_LIMIT {
        Err("HOST_LOG_LIMIT_EXCEEDED: stage=selfplay_guard"@)
    } else {
        Ok(Phase::Draw)
    }
}

/// Once a robbery is settled: the discard is answered, or the round ends.
pub open spec fn after_robbery(t: TableState) -> Result<Phase, Seq<char>> {
    if t.discard_pending { Ok(Phase::Discard) } else { round_end(t) }
}

pub open spec fn refused_text(seat: u8, stage: Seq<char>) -> Seq<char> {
    "RULE_LEGAL_ACTION_APPLY_REJECTED: seat="@ + dec(seat as nat) + " stage="@ + stage
}

/// What comes after a phase, or why the loop stops.
pub open spec fn next_phase(p: Phase, t: TableState) -> Result<Phase, Seq<char>> {
    match p {
        Phase::Draw => if t.drawn {
            Ok(if t.three_players { Phase::SetAside } else { Phase::Turn })
        } else if t.wall_before > 0 {
            Err("RULE_DRAW_APPLY_REJECTED: live wall was non-empty in selfplay"@)
        } else {
            Ok(Phase::Exhausted)
        },
        Phase::SetAside => if !t.may_set_aside {
            Ok(Phase::Turn)
        } else if t.refused {
            Err(refused_text(t.seat, "selfplay_nukidora"@))
        } else if t.ended {
            Ok(Phase::Over)
        } else if t.robbery_pending {
            Ok(Phase::SetAsideRobbery)
        } else {
            Ok(Phase::SetAside)
        },
        Phase::SetAsideRobbery => if t.ended { Ok(Phase::Over) } else { Ok(Phase::SetAside) },
        Phase::Turn => if t.refused {
            Err(refused_text(t.seat, "selfplay_turn"@))
        } else if t.ended {
            Ok(Phase::Over)
        } else if t.robbery_pending {
            Ok(Phase::Robbery)
        } else {
            after_robbery(t)
        },
        Phase::Robbery => if t.ended { Ok(Phase::Over) } else { after_robbery(t) },
        Phase::Discard => if t.ended {
            Ok(Phase::Over)
        } else if t.discard_pending {
            Ok(Phase::Advance)
        } else {
            round_end(t)
        },
        Phase::Advance => round_end(t),
        Phase::Exhausted => Ok(Phase::Over),
        Phase::Over => Ok(Phase::Over),
    }
}

/// A phase or a reason, as facts.
pub open spec fn phase_result(r: Result<Phase, String>) -> Result<Phase, Seq<char>> {
    match r {
        Ok(p) => Ok(p),
        Err(e) => Err(e@),
    }
}

fn end_round(t: &TableState) -> (r: Result<Phase, String>)
    ensures
        phase_result(r) == round_end(*t),
{
    if t.events > EVENT_LIMIT {
        Err(owned("HOST_LOG_LIMIT_EXCEEDED: stage=selfplay_guard"))
    } else {
        Ok(Phase::Draw)
    }
}

fn go_on(t: &TableState) -> (r: Result<Phase, String>)
    ensures
        phase_result(r) == after_robbery(*t),
{
    if t.discard_pending {
        Ok(Phase::Discard)
    } else {
        end_round(t)
    }
}

fn refused(seat: u8, stage: &str) -> (r: String)
    ensures
        r@ == refused_text(seat, stage@),
{
    let mut s = join3("RULE_LEGAL_ACTION_APPLY_REJECTED: seat=", dec_usize(seat as usize).as_str(), " stage=");
    s.append(stage);
    s
}

/// What comes after a phase, given what the table then shows.
pub fn step(p: Phase, t: &TableState) -> (r: Result<Phase, String>)
    ensures
        phase_result(r) == next_phase(p, *t),
{
    match p {
        Phase::Draw => {
            if t.drawn {
                Ok(if t.three_players { Phase::SetAside } else { Phase::Turn })
            } else if t.wall_before > 0 {
                Err(owned("RULE_DRAW_APPLY_REJECTED: live wall was non-empty in selfplay"))
            } else {
                Ok(Phase::Exhausted)
            }
        },
        Phase::SetAside => {
            if !t.may_set_aside {
                Ok(Phase::Turn)
            } else if t.refused {
                Err(refused(t.seat, "selfplay_nukidora"))
            } else if t.ended {
                Ok(Phase::Over)
            } else if t.robbery_pending {
                Ok(Phase::SetAsideRobbery)
            } else {
                Ok(Phase::SetAside)
            }
        },
        Phase::SetAsideRobbery => {
            if t.ended {
                Ok(Phase::Over)
            } else {
                Ok(Phase::SetAside)
            }
        },
        Phase::Turn => {
            if t.refused {
                Err(refused(t.seat, "selfplay_turn"))
            } else if t.ended {
                Ok(Phase::Over)
            } else if t.robbery_pending {
                Ok(Phase::Robbery)
            } else {
                go_on(t)
            }
        },
        Phase::Robbery => {
            if t.ended {
                Ok(Phase::Over)
            } else {
                go_on(t)
            }
        },
        Phase::Discard => {
            if t.ended {
                Ok(Phase::Over)
            } else if t.discard_pending {
                Ok(Phase::Advance)
            } else {
                end_round(t)
            }
        },
        Phase::Advance => end_round(t),
        Phase::Exhausted => Ok(Phase::Over),
        Phase::Over => Ok(Phase::Over),
    }
}

/// A hand that is over stays over, and an ended table never goes on with a turn.
pub proof fn ended_hands_stay_over(p: Phase, t: TableState)
    requires
        t.ended,
        !t.refused,
        p == Phase::Turn || p == Phase::Robbery || p == Phase::Discard || p == Phase::SetAsideRobbery || p == Phase::Over,
    ensures
        next_phase(p, t) == Ok::<Phase, Seq<char>>(Phase::Over),
{
}

// What is said where the table refuses.

/// Seats in brackets.
pub open spec fn seats_text(v: Seq<u8>) -> Seq<char> {
    list_text(Seq::new(v.len(), |i: int| v[i] as i64))
}

/// Seats in brackets.
pub fn seats_list(v: &Vec<u8>) -> (r: String)
    ensures
        r@ == seats_text(v@),
{
    let mut wide: Vec<i64> = Vec::new();
    let mut i: usize = 0;
    while i < v.len()
        invariant
            i <= v@.len(),
            wide@.len() == i,
            forall|j: int| 0 <= j < i ==> #[trigger] wide@[j] == v@[j],
        decreases v@.len() - i,
    {
        wide.push(v[i] as i64);
        i = i + 1;
    }
    assert(wide@ =~= Seq::new(v@.len(), |i: int| v@[i] as i64));
    list_of(wide.as_slice())
}

/// What the table was asked for and refused, beside an action on a turn.
#[derive(Debug)]
pub enum Asked {
    /// To note that a seat passed on a ron.
    MissedRon(u8),
    Ron(Vec<u8>),
    TripleRon,
    Pon(u8),
    /// To go on after nobody robbed a declaration.
    RobberyPass,
}

/// Where in the loop the table was asked.
pub open spec fn stage_name(robbery: bool) -> Seq<char> {
    if robbery { "selfplay_robbery"@ } else { "selfplay_reaction"@ }
}

/// What is said where the table refuses.
pub open spec fn refusal(asked: Asked, robbery: bool) -> Seq<char> {
    let said = match asked {
        Asked::MissedRon(seat) => "RULE_MISSED_RON_APPLY_REJECTED: seat="@ + dec(seat as nat) + " stage="@,
        Asked::Ron(winners) => (if robbery {
            "RULE_ROBBERY_RON_APPLY_REJECTED: seats="@
        } else {
            "RULE_RON_APPLY_REJECTED: seats="@
        }) + seats_text(winners@) + " stage="@,
        Asked::TripleRon => "RULE_SANCHAHO_APPLY_REJECTED: stage="@,
        Asked::Pon(seat) => "RULE_CALL_APPLY_REJECTED: seat="@ + dec(seat as nat) + " stage="@,
        Asked::RobberyPass => "RULE_ROBBERY_PASS_RESOLUTION_FAILED: stage="@,
    };
    said + stage_name(robbery)
}

/// What is said where the table refuses.
pub fn refusal_text(asked: &Asked, robbery: bool) -> (r: String)
    ensures
        r@ == refusal(*asked, robbery),
{
    let mut s = match asked {
        Asked::MissedRon(seat) => join3(
            "RULE_MISSED_RON_APPLY_REJECTED: seat=",
            dec_usize(*seat as usize).as_str(),
            " stage=",
        ),
        Asked::Ron(winners) => join3(
            if robbery { "RULE_ROBBERY_RON_APPLY_REJECTED: seats=" } else { "RULE_RON_APPLY_REJECTED: seats=" },
            seats_list(winners).as_str(),
            " stage=",
        ),
        Asked::TripleRon => owned("RULE_SANCHAHO_APPLY_REJECTED: stage="),
        Asked::Pon(seat) => join3("RULE_CALL_APPLY_REJECTED: seat=", dec_usize(*seat as usize).as_str(), " stage="),
        Asked::RobberyPass => owned("RULE_ROBBERY_PASS_RESOLUTION_FAILED: stage="),
    };
    s.append(if robbery { "selfplay_robbery" } else { "selfplay_reaction" });
    s
}

/// What is said where nothing is there to be answered.
pub fn nothing_to_answer(robbery: bool) -> (r: String)
    ensures
        r@ == if robbery {
            "HOST_ROBBERY_STATE_MISSING: no pending declaration"@
        } else {
            "HOST_REACTION_STATE_MISSING: no last discard"@
        },
{
    if robbery {
        owned("HOST_ROBBERY_STATE_MISSING: no pending declaration")
    } else {
        owned("HOST_REACTION_STATE_MISSING: no last discard")
    }
}

} // verus!
