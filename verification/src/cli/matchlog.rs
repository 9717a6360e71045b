//! Match logs on the command line: what a match to be logged is set up with, and what is printed
//! of a log.

use vstd::prelude::*;
use vstd::string::*;
use crate::cli::report::push_line;
use crate::cli::seats::{AlgorithmKind, MatchKind};
use crate::event::matchlog::event::MatchlogEvent;
use crate::event::matchlog::types::{MatchSettlementProfile, TieBreak, TileIdentity};
use crate::event::matchlog::window::{DecisionWindow, WindowPhase};
use crate::mahjong::rules::{RiichiRuleProfile, RulePlatform};
use crate::mahjong::tile::quoted;
use crate::text::{dec, dec_u64, dec_usize, join2, join3, lower, owned, same, texts, trimmed};

verus! {

/// A hand of a match log: its events and its decision windows over actions of type `A`.
#[derive(Debug)]
pub struct KyokuArchive<A> {
    pub events: Vec<MatchlogEvent>,
    pub windows: Vec<DecisionWindow<A>>,
}

/// A match log: the header and the hands.
#[derive(Debug)]
pub struct MatchArchive<A> {
    pub start_match: MatchlogEvent,
    pub kyokus: Vec<KyokuArchive<A>>,
}

// Setting up.

/// What a seat is set to; one that is not set plays tsumogiri.
pub open spec fn spec_at(specs: Seq<Seq<char>>, i: int) -> Seq<char> {
    if 0 <= i < specs.len() {
        specs[i]
    } else {
        "tsumogiri"@
    }
}

/// The first seat whose player is unknown.
pub open spec fn first_unknown(specs: Seq<Seq<char>>, n: int, i: int) -> bool {
    &&& 0 <= i < n
    &&& AlgorithmKind::named(spec_at(specs, i)) is None
    &&& forall|j: int| 0 <= j < i ==> AlgorithmKind::named(#[trigger] spec_at(specs, j)) is Some
}

pub open spec fn unknown_algorithm(spec: Seq<char>, i: nat) -> Seq<char> {
    "unknown algorithm `"@ + spec + "` for seat "@ + dec(i) + " (only tsumogiri is available)"@
}

/// The players of the first `n` seats; entries beyond them are not looked at.
pub fn seats(specs: &Vec<String>, n: usize) -> (r: Result<Vec<AlgorithmKind>, String>)
    ensures
        match r {
            Ok(v) => v@.len() == n && forall|i: int|
                0 <= i < n ==> AlgorithmKind::named(#[trigger] spec_at(texts(specs@), i)) == Some(v@[i]),
            Err(e) => exists|i: int|
                first_unknown(texts(specs@), n as int, i) && e@ == unknown_algorithm(
                    #[trigger] spec_at(texts(specs@), i),
                    i as nat,
                ),
        },
{
    let ghost all = texts(specs@);
    let mut out: Vec<AlgorithmKind> = Vec::new();
    let mut i: usize = 0;
    while i < n
        invariant
            i <= n,
            all == texts(specs@),
            out@.len() == i,
            forall|j: int| 0 <= j < i ==> AlgorithmKind::named(#[trigger] spec_at(all, j)) == Some(out@[j]),
        decreases n - i,
    {
        let spec: &str = if i < specs.len() { specs[i].as_str() } else { "tsumogiri" };
        assert(spec@ == spec_at(all, i as int));
        match AlgorithmKind::parse(spec) {
            Some(k) => {
                out.push(k);
            },
            None => {
                let mut s = join3("unknown algorithm `", spec, "` for seat ");
                s.append(dec_usize(i).as_str());
                s.append(" (only tsumogiri is available)");
                assert(first_unknown(all, n as int, i as int));
                return Err(s);
            },
        }
        i = i + 1;
    }
    Ok(out)
}

/// What a match to be logged is set up with.
#[derive(Debug)]
pub struct EmitPlan {
    pub profile: RiichiRuleProfile,
    pub kind: MatchKind,
    pub seats: Vec<AlgorithmKind>,
    pub settlement: Option<MatchSettlementProfile>,
}

/// The arguments of a match to be logged, in the order in which they are looked at: the platform,
/// the length, the number of seats, and who sits at them.
pub fn plan(players: u8, length: &str, platform: &str, specs: &Vec<String>) -> (r: Result<EmitPlan, String>)
    ensures
        match r {
            Ok(p) => {
                &&& RulePlatform::named(lower(trimmed(platform@))) is Some
                &&& p.profile == RiichiRuleProfile::from_platform(RulePlatform::named(lower(trimmed(platform@)))->0)
                &&& MatchKind::named(length@) == Some(p.kind)
                &&& players == 3 || players == 4
                &&& p.seats@.len() == players
                &&& forall|i: int|
                    0 <= i < players ==> AlgorithmKind::named(#[trigger] spec_at(texts(specs@), i)) == Some(p.seats@[i])
                &&& is_settlement_for(platform@, players, p.settlement)
            },
            Err(e) => if RulePlatform::named(lower(trimmed(platform@))) is None {
                e@ == "unknown rule platform "@ + quoted(lower(trimmed(platform@)))
                    + " (expected tenhou / mahjong-soul / riichi-city)"@
            } else if MatchKind::named(length@) is None {
                e@ == "unknown match length `"@ + length@ + "` (single/east/half)"@
            } else if players != 3 && players != 4 {
                e@ == "only 3 or 4 seats are supported, got "@ + dec(players as nat)
            } else {
                exists|i: int|
                    first_unknown(texts(specs@), players as int, i) && e@ == unknown_algorithm(
                        #[trigger] spec_at(texts(specs@), i),
                        i as nat,
                    )
            },
        },
{
    let profile = match RiichiRuleProfile::from_name(platform) {
        Ok(p) => p,
        Err(e) => {
            return Err(e);
        },
    };
    let kind = match MatchKind::parse(length) {
        Some(k) => k,
        None => {
            return Err(join3("unknown match length `", length, "` (single/east/half)"));
        },
    };
    if players != 3 && players != 4 {
        return Err(join2("only 3 or 4 seats are supported, got ", dec_usize(players as usize).as_str()));
    }
    match seats(specs, players as usize) {
        Ok(seats) => Ok(EmitPlan { profile, kind, seats, settlement: settlement_for(platform, players) }),
        Err(e) => Err(e),
    }
}

/// The settlement of a match of a platform. What depends on the room is not guessed.
pub open spec fn is_settlement_for(platform: Seq<char>, players: u8, r: Option<MatchSettlementProfile>) -> bool {
    &&& r is Some == (platform == "tenhou"@ && (players == 4 || players == 3))
    &&& r is Some ==> r->0.tie_break == TieBreak::SeatOrder && r->0.oka == if players == 4 { 20i32 } else { 15i32 }
        && r->0.rank_points@ == if players == 4 {
        seq![20i32, 10i32, (-10) as i32, (-20) as i32]
    } else {
        seq![20i32, 0i32, (-20) as i32]
    }
}

/// The settlement of a match of a platform. What depends on the room is not guessed.
pub fn settlement_for(platform: &str, players: u8) -> (r: Option<MatchSettlementProfile>)
    ensures
        is_settlement_for(platform@, players, r),
{
    if same(platform, "tenhou") && players == 4 {
        Some(MatchSettlementProfile::tenhou_4p())
    } else if same(platform, "tenhou") && players == 3 {
        Some(MatchSettlementProfile::tenhou_3p())
    } else {
        None
    }
}

// Playing.

/// How far a match without open decisions went.
#[derive(Debug)]
pub enum LiveStep {
    KyokuEnded,
    MatchEnded,
    InProgress,
    /// The host failed, with its words.
    Failed(String),
    /// Something that only a seat with open decisions comes to, as it is printed.
    Pending(String),
}

/// What to do after a step.
#[derive(Debug, Clone, Copy, PartialEq, Eq, Structural)]
pub enum DriveAction {
    /// Play on.
    Play,
    /// Archive the hand that ended, and start the next one if there is one.
    Archive,
    /// The match is over.
    Stop,
}

/// What to do after a step of a match that plays by itself.
pub fn drive(step: &LiveStep) -> (r: Result<DriveAction, String>)
    ensures
        match *step {
            LiveStep::KyokuEnded => r == Ok::<DriveAction, String>(DriveAction::Archive),
            LiveStep::MatchEnded => r == Ok::<DriveAction, String>(DriveAction::Stop),
            LiveStep::InProgress => r == Ok::<DriveAction, String>(DriveAction::Play),
            LiveStep::Failed(failure) => r is Err && r->Err_0@ == "host failed: "@ + failure@,
            LiveStep::Pending(other) => r is Err && r->Err_0@
                == "automatic seats should never leave a window pending: "@ + other@,
        },
{
    match step {
        LiveStep::KyokuEnded => Ok(DriveAction::Archive),
        LiveStep::MatchEnded => Ok(DriveAction::Stop),
        LiveStep::InProgress => Ok(DriveAction::Play),
        LiveStep::Failed(failure) => Err(join2("host failed: ", failure.as_str())),
        LiveStep::Pending(other) => Err(
            join2("automatic seats should never leave a window pending: ", other.as_str()),
        ),
    }
}

/// What to do once a hand is archived, by whether a next one was started.
pub fn after_archive(next_started: bool) -> (r: DriveAction)
    ensures
        r == if next_started { DriveAction::Play } else { DriveAction::Stop },
{
    if next_started {
        DriveAction::Play
    } else {
        DriveAction::Stop
    }
}

// Writing.

/// The number of events of some hands.
pub open spec fn event_count<A>(hands: Seq<KyokuArchive<A>>) -> nat
    decreases hands.len(),
{
    if hands.len() == 0 {
        0
    } else {
        event_count(hands.drop_last()) + hands.last().events@.len()
    }
}

/// The number of decision windows of some hands.
pub open spec fn window_count<A>(hands: Seq<KyokuArchive<A>>) -> nat
    decreases hands.len(),
{
    if hands.len() == 0 {
        0
    } else {
        window_count(hands.drop_last()) + hands.last().windows@.len()
    }
}

proof fn lemma_counts_grow<A>(hands: Seq<KyokuArchive<A>>, n: int)
    requires
        0 <= n <= hands.len(),
    ensures
        event_count(hands.take(n)) <= event_count(hands),
        window_count(hands.take(n)) <= window_count(hands),
    decreases hands.len() - n,
{
    if n == hands.len() {
        assert(hands.take(n) =~= hands);
    } else {
        assert(hands.take(n + 1).drop_last() =~= hands.take(n));
        lemma_counts_grow(hands, n + 1);
    }
}

/// What is printed once a log is written.
pub open spec fn written_line(path: Seq<char>, hands: nat, events: nat, windows: nat, bytes: nat) -> Seq<char> {
    "wrote "@ + path + "\n  hands "@ + dec(hands) + " \u{b7} events "@ + dec(events) + " \u{b7} decision windows "@ + dec(
        windows,
    ) + " \u{b7} "@ + dec(bytes) + " bytes"@
}

/// What is printed once a log of `bytes` bytes is written.
pub fn written_text<A>(path: &str, archive: &MatchArchive<A>, bytes: usize) -> (r: String)
    requires
        event_count(archive.kyokus@) <= usize::MAX,
        window_count(archive.kyokus@) <= usize::MAX,
    ensures
        r@ == written_line(
            path@,
            archive.kyokus@.len(),
            event_count(archive.kyokus@),
            window_count(archive.kyokus@),
            bytes as nat,
        ),
{
    let hands = &archive.kyokus;
    let mut events: usize = 0;
    let mut windows: usize = 0;
    let mut i: usize = 0;
    assert(hands@.take(0) =~= Seq::empty());
    while i < hands.len()
        invariant
            i <= hands@.len(),
            event_count(hands@) <= usize::MAX,
            window_count(hands@) <= usize::MAX,
            events == event_count(hands@.take(i as int)),
            windows == window_count(hands@.take(i as int)),
        decreases hands@.len() - i,
    {
        proof {
            assert(hands@.take(i + 1).drop_last() =~= hands@.take(i as int));
            lemma_counts_grow(hands@, i + 1);
        }
        events = events + hands[i].events.len();
        windows = windows + hands[i].windows.len();
        i = i + 1;
    }
    assert(hands@.take(i as int) =~= hands@);
    let mut s = join3("wrote ", path, "\n  hands ");
    s.append(dec_usize(hands.len()).as_str());
    s.append(" \u{b7} events ");
    s.append(dec_usize(events).as_str());
    s.append(" \u{b7} decision windows ");
    s.append(dec_usize(windows).as_str());
    s.append(" \u{b7} ");
    s.append(dec_usize(bytes).as_str());
    s.append(" bytes");
    s
}

// Reading back.

/// How a hand of a match log ended.
pub open spec fn hand_outcome(events: Seq<MatchlogEvent>) -> Seq<char> {
    if events.len() == 0 {
        "(no settlement layer)"@
    } else {
        match events.last() {
            MatchlogEvent::Hora(b) => (if b.from == b.winner { "tsumo"@ } else { "ron"@ }) + ", seat "@ + dec(b.winner as nat)
                + " \u{b7} "@ + dec(b.fu as nat) + " fu"@,
            MatchlogEvent::Ryukyoku(b) => b.kind.spec_name(),
            _ => "(no settlement layer)"@,
        }
    }
}

/// How a hand of a match log ended.
pub fn outcome_text(events: &[MatchlogEvent]) -> (r: String)
    ensures
        r@ == hand_outcome(events@),
{
    if events.len() == 0 {
        return owned("(no settlement layer)");
    }
    match &events[events.len() - 1] {
        MatchlogEvent::Hora(b) => {
            let mut s = join3(
                if b.from == b.winner { "tsumo" } else { "ron" },
                ", seat ",
                dec_usize(b.winner as usize).as_str(),
            );
            s.append(" \u{b7} ");
            s.append(dec_usize(b.fu as usize).as_str());
            s.append(" fu");
            s
        },
        MatchlogEvent::Ryukyoku(b) => owned(b.kind.name()),
        _ => owned("(no settlement layer)"),
    }
}

/// The line of a hand of a match log.
pub open spec fn log_hand_line(i: nat, events: Seq<MatchlogEvent>, windows: nat) -> Seq<char> {
    "  hand "@ + dec(i + 1) + ": events "@ + dec(events.len()) + " \u{b7} windows "@ + dec(windows) + " \u{b7} "@ + hand_outcome(
        events,
    )
}

/// The line of a hand of a match log.
pub fn log_hand_text(i: usize, events: &[MatchlogEvent], windows: usize) -> (r: String)
    requires
        i < usize::MAX,
    ensures
        r@ == log_hand_line(i as nat, events@, windows as nat),
{
    let mut s = join3("  hand ", dec_usize(i + 1).as_str(), ": events ");
    s.append(dec_usize(events.len()).as_str());
    s.append(" \u{b7} windows ");
    s.append(dec_usize(windows).as_str());
    s.append(" \u{b7} ");
    s.append(outcome_text(events).as_str());
    s
}

pub open spec fn phase_name(p: WindowPhase) -> Seq<char> {
    match p {
        WindowPhase::Turn => "Turn"@,
        WindowPhase::Reaction => "Reaction"@,
        WindowPhase::Robbery => "Robbery"@,
    }
}

/// The line of a decision window of a match log.
pub open spec fn window_line(id: u64, seat: u8, phase: WindowPhase, anchor: u64, offers: nat, chosen: nat) -> Seq<char> {
    "      window "@ + dec(id as nat) + " seat "@ + dec(seat as nat) + " "@ + phase_name(phase) + " anchor "@ + dec(
        anchor as nat,
    ) + " \u{b7} "@ + dec(offers) + " offers -> "@ + dec(chosen)
}

/// The line of a decision window of a match log.
pub fn window_text(id: u64, seat: u8, phase: WindowPhase, anchor: u64, offers: usize, chosen: usize) -> (r: String)
    ensures
        r@ == window_line(id, seat, phase, anchor, offers as nat, chosen as nat),
{
    let mut s = join3("      window ", dec_u64(id).as_str(), " seat ");
    s.append(dec_usize(seat as usize).as_str());
    s.append(" ");
    s.append(
        match phase {
            WindowPhase::Turn => "Turn",
            WindowPhase::Reaction => "Reaction",
            WindowPhase::Robbery => "Robbery",
        },
    );
    s.append(" anchor ");
    s.append(dec_u64(anchor).as_str());
    s.append(" \u{b7} ");
    s.append(dec_usize(offers).as_str());
    s.append(" offers -> ");
    s.append(dec_usize(chosen).as_str());
    s
}

/// The head of a match log: its schema, seats, source, rules and identities.
pub open spec fn log_header(path: Seq<char>, head: MatchlogEvent, hands: nat) -> Option<Seq<Seq<char>>> {
    match head {
        MatchlogEvent::StartMatch { schema, seats, rule_era, profile_fingerprint, tile_identity, .. } => Some(
            seq![
                "match log "@ + path,
                "  schema "@ + schema@ + " \u{b7} "@ + dec(seats as nat) + " seats \u{b7} source "@ + rule_era.0@,
                "  rule profile fingerprint "@ + profile_fingerprint@,
                "  physical tile identity "@ + identity_name(tile_identity),
                "  hands "@ + dec(hands),
            ],
        ),
        _ => None,
    }
}

pub open spec fn identity_name(t: TileIdentity) -> Seq<char> {
    match t {
        TileIdentity::Absent => "None"@,
        TileIdentity::Partial => "Partial"@,
        TileIdentity::Complete => "Complete"@,
    }
}

/// The head of a match log, whose first event has to be its header.
pub fn log_header_text(path: &str, head: &MatchlogEvent, hands: usize) -> (r: Result<Vec<String>, String>)
    ensures
        match r {
            Ok(v) => log_header(path@, *head, hands as nat) == Some(texts(v@)),
            Err(e) => log_header(path@, *head, hands as nat) is None && e@ == "the first event is not the header"@,
        },
{
    match head {
        MatchlogEvent::StartMatch { schema, seats, rule_era, profile_fingerprint, tile_identity, .. } => {
            let mut out: Vec<String> = Vec::new();
            assert(texts(out@) =~= Seq::empty());
            push_line(&mut out, join2("match log ", path));
            let mut s = join3("  schema ", schema.as_str(), " \u{b7} ");
            s.append(dec_usize(*seats as usize).as_str());
            s.append(" seats \u{b7} source ");
            s.append(rule_era.0.as_str());
            push_line(&mut out, s);
            push_line(&mut out, join2("  rule profile fingerprint ", profile_fingerprint.as_str()));
            push_line(
                &mut out,
                join2(
                    "  physical tile identity ",
                    match tile_identity {
                        TileIdentity::Absent => "None",
                        TileIdentity::Partial => "Partial",
                        TileIdentity::Complete => "Complete",
                    },
                ),
            );
            push_line(&mut out, join2("  hands ", dec_usize(hands).as_str()));
            assert(texts(out@) =~= log_header(path@, *head, hands as nat)->0);
            Ok(out)
        },
        _ => Err(owned("the first event is not the header")),
    }
}

/// The line of a decision window of a match log.
pub open spec fn line_of_window<A>(w: DecisionWindow<A>) -> Seq<char> {
    window_line(w.window_id, w.seat, w.phase, w.anchor_seq, w.offers@.len(), w.chosen as nat)
}

/// The lines of some decision windows.
pub open spec fn window_lines<A>(windows: Seq<DecisionWindow<A>>) -> Seq<Seq<char>> {
    Seq::new(windows.len(), |i: int| line_of_window(windows[i]))
}

/// The lines of the hands of a match log, each with its windows where they are asked for.
pub open spec fn hand_lines<A>(hands: Seq<KyokuArchive<A>>, verbose: bool) -> Seq<Seq<char>>
    decreases hands.len(),
{
    if hands.len() == 0 {
        Seq::empty()
    } else {
        hand_lines(hands.drop_last(), verbose).push(
            log_hand_line((hands.len() - 1) as nat, hands.last().events@, hands.last().windows@.len()),
        ) + if verbose { window_lines(hands.last().windows@) } else { Seq::empty() }
    }
}

/// Everything that is printed of a match log which passed its checks.
pub open spec fn log_lines<A>(path: Seq<char>, archive: MatchArchive<A>, verbose: bool) -> Option<Seq<Seq<char>>> {
    match log_header(path, archive.start_match, archive.kyokus@.len()) {
        Some(head) => Some(
            (head + hand_lines(archive.kyokus@, verbose)).push("\nvalidation passed (rechecked after reading back)."@),
        ),
        None => None,
    }
}

/// What is printed of a match log, given what its checks came to.
pub fn inspect<A>(path: &str, archive: &MatchArchive<A>, checked: Result<(), String>, verbose: bool) -> (r: Result<
    Vec<String>,
    String,
>)
    ensures
        match checked {
            Err(fault) => r is Err && r->Err_0@ == fault@,
            Ok(_) => match r {
                Ok(v) => log_lines(path@, *archive, verbose) == Some(texts(v@)),
                Err(e) => log_lines(path@, *archive, verbose) is None && e@ == "the first event is not the header"@,
            },
        },
{
    match checked {
        Err(fault) => {
            return Err(fault);
        },
        Ok(_) => {},
    }
    let hands = &archive.kyokus;
    let mut out: Vec<String> = match log_header_text(path, &archive.start_match, hands.len()) {
        Ok(v) => v,
        Err(e) => {
            return Err(e);
        },
    };
    let ghost head = texts(out@);
    let mut i: usize = 0;
    assert(hands@.take(0) =~= Seq::empty());
    assert(head + Seq::<Seq<char>>::empty() =~= head);
    while i < hands.len()
        invariant
            i <= hands@.len(),
            texts(out@) == head + hand_lines(hands@.take(i as int), verbose),
        decreases hands@.len() - i,
    {
        let ghost before = hand_lines(hands@.take(i as int), verbose);
        assert(hands@.take(i + 1).drop_last() =~= hands@.take(i as int));
        assert(hands@.take(i + 1).last() == hands@[i as int]);
        let hand = &hands[i];
        push_line(&mut out, log_hand_text(i, hand.events.as_slice(), hand.windows.len()));
        let ghost line = log_hand_line(i as nat, hand.events@, hand.windows@.len());
        assert(texts(out@) =~= head + before.push(line));
        if verbose {
            let mut k: usize = 0;
            assert(head + (before.push(line) + window_lines(hand.windows@).take(0)) =~= head + before.push(line));
            while k < hand.windows.len()
                invariant
                    k <= hand.windows@.len(),
                    texts(out@) == head + (before.push(line) + window_lines(hand.windows@).take(k as int)),
                decreases hand.windows@.len() - k,
            {
                let w = &hand.windows[k];
                push_line(
                    &mut out,
                    window_text(w.window_id, w.seat, w.phase, w.anchor_seq, w.offers.len(), w.chosen),
                );
                assert(texts(out@) =~= head + (before.push(line) + window_lines(hand.windows@).take(k + 1)));
                k = k + 1;
            }
            assert(window_lines(hand.windows@).take(k as int) =~= window_lines(hand.windows@));
        } else {
            assert(before.push(line) + Seq::<Seq<char>>::empty() =~= before.push(line));
        }
        assert(texts(out@) == head + hand_lines(hands@.take(i + 1), verbose));
        i = i + 1;
    }
    assert(hands@.take(i as int) =~= hands@);
    push_line(&mut out, owned("\nvalidation passed (rechecked after reading back)."));
    Ok(out)
}

} // verus!
