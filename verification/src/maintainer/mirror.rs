//! Passive observation core of the mirrors. It follows the public information of every seat and
//! the hand of one, and never holds the wall, so it cannot contain what events did not reveal.

use vstd::prelude::*;
use vstd::string::*;
use crate::mahjong::calc::all_known;
use crate::mahjong::meld::Meld;
use crate::mahjong::rules::{RiichiRuleProfile, RonResolution};
use crate::mahjong::tile::Tile;
use crate::mahjong::yaku::clone_melds;
use crate::maintainer::action::{PendingRobbery, ReactionAction, RobberyKind, TurnAction};
use crate::maintainer::calc::melds_all_closed;
use crate::maintainer::inventory::{nothing_seen, observed, KnownTileInventory, Seen};
use crate::maintainer::legal::{
    count_kans_up_to, legal_reactions, legal_turn_actions, reactions, reactions_are_known, responses, turn_actions,
    turn_is_known, Response,
};
use crate::maintainer::mirror_rules::{
    action_text, active_fault, actor_fault, after_opponent_discard, after_robbery, all_of_kind, ankan_placed,
    awaiting_reach, autoplay_step, call_fault, call_laid, called, caller_of, can_judge_discard, can_judge_robbery,
    can_win_by_draw, chi_step, committed, consumed_from, core_view, count_unknown, dahai_fault, dahai_known,
    dahai_step, daiminkan_step, declared, declared_by, degraded, deltas_fit, discard_judged, discard_placed,
    discarder, dora_step, draw_counted, draw_placed, drawn, drop_unknown, end_game_step, end_kyoku_step, first_packet,
    four_kans, has_shape, hora_fault, hora_known, hora_step, in_kind_order, infers, is_run, is_sound, is_untouched,
    joined_packet, kakan_placed, kan_owners, max_winners, may_declare, merged_ura, missed_ron, next_drawer,
    no_ippatsu, nukidora_placed, opening_dahai_fault, opening_dahai_known, opening_dahai_step, opened,
    opening_discarder, opening_fault, opening_step, opponent_of, opponents, pon_at, pon_step, reach_accepted_step,
    reach_committed, reach_fault, reach_known, reach_step, reach_withdrawn, rejected, response_window,
    revealed_discard, ron_packet, riichi_only, robbery_fault, robbery_known, robbery_step, ryukyoku_step, same_three,
    seat_fault, seat_text, seen_drawn, seen_from, start_check, start_game_step, start_players, start_step, started,
    taken, total_kans, tsumo_fault, tsumo_step, turn_fault, view_fault, windows_closed, with_deltas, with_issue, won,
    IssueFacts, MirrorFacts, Packet, PacketFacts, ReachFacts, StartFacts, Step,
};
use crate::maintainer::player::{clone_kinds, countable, discard_result, opening_result, PlayerState, SeatState};
use crate::maintainer::reconcile::MirrorQuality;
use crate::maintainer::tileset::{clone_tiles, has_kind, kuikae_forbidden_after_chi, take_one, without};
use crate::maintainer::view::{opponent_facts, OpponentView, SeatView, SeatViewError, SelfView};
use crate::text::{dec, dec_usize, join2, join3, owned};

verus! {

/// Why the quality of a mirror changed.
#[derive(Debug, PartialEq, Eq)]
pub struct MirrorIssue {
    pub event_index: u64,
    pub code: &'static str,
    pub detail: String,
}

impl View for MirrorIssue {
    type V = IssueFacts;

    open spec fn view(&self) -> IssueFacts {
        IssueFacts { event_index: self.event_index, code: self.code@, detail: self.detail@ }
    }
}

/// A riichi declared and not yet accepted.
pub struct PendingReach {
    pub actor: u8,
    pub double_riichi: bool,
    pub legal_discards: Vec<TurnAction>,
}

impl View for PendingReach {
    type V = ReachFacts;

    open spec fn view(&self) -> ReachFacts {
        ReachFacts {
            actor: self.actor,
            double_riichi: self.double_riichi,
            legal_discards: self.legal_discards@,
        }
    }
}

/// An accepted terminal result.
pub enum TerminalResultPacket {
    Tsumo { winner: u8, ura_markers: Vec<Tile> },
    Ron {
        source: u8,
        robbery: Option<RobberyKind>,
        winners: Vec<u8>,
        max_winners: u8,
        /// Whether ron was legal for the own seat when the window opened; later winners of the
        /// same ron are judged by the same window. None where the mirror was not exact.
        self_ron_legal_at_open: Option<bool>,
        ura_markers: Vec<Tile>,
    },
}

impl View for TerminalResultPacket {
    type V = PacketFacts;

    open spec fn view(&self) -> PacketFacts {
        match *self {
            TerminalResultPacket::Tsumo { winner, ura_markers } => PacketFacts::Tsumo {
                winner,
                ura_markers: ura_markers@,
            },
            TerminalResultPacket::Ron {
                source,
                robbery,
                winners,
                max_winners,
                self_ron_legal_at_open,
                ura_markers,
            } => PacketFacts::Ron {
                source,
                robbery,
                winners: winners@,
                max_winners,
                self_ron_legal_at_open,
                ura_markers: ura_markers@,
            },
        }
    }
}

/// State of a mirror.
pub struct MirrorCore {
    pub seats: usize,
    pub rule_profile: RiichiRuleProfile,
    /// Own seat, the only one with a known hand.
    pub me: u8,
    pub bakaze: Tile,
    pub oya: u8,
    pub kyoku: u8,
    pub honba: u8,
    pub kyotaku: u8,
    pub scores: Vec<i32>,
    pub dora_indicators: Vec<Tile>,
    pub players: Vec<PlayerState>,
    pub turn: u8,
    pub last_discard: Option<(u8, Tile)>,
    /// Live wall remaining.
    pub tiles_left: u32,
    /// Whether any call, nukidora or kan has happened.
    pub any_call: bool,
    /// Whether the next draw is a replacement draw.
    pub pending_rinshan_draw: bool,
    pub last_draw_was_rinshan: bool,
    /// The dealer's 14-tile opening.
    pub dealer_opening: bool,
    /// The latest discard is waited on and not won yet.
    pub pending_missed_ron: bool,
    pub pending_reach: Option<PendingReach>,
    /// Kan or nukidora declaration not yet closed by a replacement draw or a win.
    pub pending_robbery: Option<PendingRobbery>,
    pub terminal_packet: Option<TerminalResultPacket>,
    pub known_tiles: KnownTileInventory,
    pub started: bool,
    pub terminal: bool,
    pub quality: MirrorQuality,
    pub issues: Vec<MirrorIssue>,
    pub event_index: u64,
}

pub open spec fn seat_states(v: Seq<PlayerState>) -> Seq<SeatState> {
    v.map_values(|p: PlayerState| p@)
}

pub open spec fn issue_facts(v: Seq<MirrorIssue>) -> Seq<IssueFacts> {
    v.map_values(|i: MirrorIssue| i@)
}

pub open spec fn reach_facts(r: Option<PendingReach>) -> Option<ReachFacts> {
    match r {
        Some(p) => Some(p@),
        None => None,
    }
}

pub open spec fn packet_facts(r: Option<TerminalResultPacket>) -> Option<PacketFacts> {
    match r {
        Some(p) => Some(p@),
        None => None,
    }
}

impl View for MirrorCore {
    type V = MirrorFacts;

    open spec fn view(&self) -> MirrorFacts {
        MirrorFacts {
            seats: self.seats,
            rule_profile: self.rule_profile,
            me: self.me,
            bakaze: self.bakaze,
            oya: self.oya,
            kyoku: self.kyoku,
            honba: self.honba,
            kyotaku: self.kyotaku,
            scores: self.scores@,
            dora_indicators: self.dora_indicators@,
            players: seat_states(self.players@),
            turn: self.turn,
            last_discard: self.last_discard,
            tiles_left: self.tiles_left,
            any_call: self.any_call,
            pending_rinshan_draw: self.pending_rinshan_draw,
            last_draw_was_rinshan: self.last_draw_was_rinshan,
            dealer_opening: self.dealer_opening,
            pending_missed_ron: self.pending_missed_ron,
            pending_reach: reach_facts(self.pending_reach),
            pending_robbery: self.pending_robbery,
            terminal_packet: packet_facts(self.terminal_packet),
            known_tiles: self.known_tiles@,
            started: self.started,
            terminal: self.terminal,
            quality: self.quality,
            issues: issue_facts(self.issues@),
            event_index: self.event_index,
        }
    }
}

// Copies.

fn clone_scores(v: &[i32]) -> (r: Vec<i32>)
    ensures
        r@ == v@,
{
    let mut r: Vec<i32> = Vec::new();
    let mut i: usize = 0;
    while i < v.len()
        invariant
            i <= v.len(),
            r@ == v@.subrange(0, i as int),
        decreases v.len() - i,
    {
        r.push(v[i]);
        assert(r@ =~= v@.subrange(0, i + 1));
        i = i + 1;
    }
    assert(r@ =~= v@);
    r
}

fn clone_seats(v: &Vec<u8>) -> (r: Vec<u8>)
    ensures
        r@ == v@,
{
    let mut r: Vec<u8> = Vec::new();
    let mut i: usize = 0;
    while i < v.len()
        invariant
            i <= v.len(),
            r@ == v@.subrange(0, i as int),
        decreases v.len() - i,
    {
        r.push(v[i]);
        assert(r@ =~= v@.subrange(0, i + 1));
        i = i + 1;
    }
    assert(r@ =~= v@);
    r
}

fn clone_actions(v: &Vec<TurnAction>) -> (r: Vec<TurnAction>)
    ensures
        r@ == v@,
{
    let mut r: Vec<TurnAction> = Vec::new();
    let mut i: usize = 0;
    while i < v.len()
        invariant
            i <= v.len(),
            r@ == v@.subrange(0, i as int),
        decreases v.len() - i,
    {
        r.push(v[i]);
        assert(r@ =~= v@.subrange(0, i + 1));
        i = i + 1;
    }
    assert(r@ =~= v@);
    r
}

fn clone_players(v: &Vec<PlayerState>) -> (r: Vec<PlayerState>)
    ensures
        seat_states(r@) == seat_states(v@),
{
    let mut r: Vec<PlayerState> = Vec::new();
    let mut i: usize = 0;
    while i < v.len()
        invariant
            i <= v.len(),
            seat_states(r@) == seat_states(v@).subrange(0, i as int),
        decreases v.len() - i,
    {
        let ghost before = seat_states(r@);
        let x = v[i].clone();
        let ghost xv = x@;
        r.push(x);
        assert(seat_states(r@) =~= before.push(xv));
        assert(seat_states(v@).subrange(0, i + 1) =~= seat_states(v@).subrange(0, i as int).push(xv));
        i = i + 1;
    }
    assert(seat_states(r@) =~= seat_states(v@));
    r
}

fn clone_issues(v: &Vec<MirrorIssue>) -> (r: Vec<MirrorIssue>)
    ensures
        issue_facts(r@) == issue_facts(v@),
{
    let mut r: Vec<MirrorIssue> = Vec::new();
    let mut i: usize = 0;
    while i < v.len()
        invariant
            i <= v.len(),
            issue_facts(r@) == issue_facts(v@).subrange(0, i as int),
        decreases v.len() - i,
    {
        let x = &v[i];
        let ghost before = issue_facts(r@);
        let y = MirrorIssue { event_index: x.event_index, code: x.code, detail: x.detail.clone() };
        let ghost yv = y@;
        r.push(y);
        assert(issue_facts(r@) =~= before.push(yv));
        assert(issue_facts(v@).subrange(0, i + 1) =~= issue_facts(v@).subrange(0, i as int).push(yv));
        i = i + 1;
    }
    assert(issue_facts(r@) =~= issue_facts(v@));
    r
}

fn clone_reach(r: &Option<PendingReach>) -> (c: Option<PendingReach>)
    ensures
        reach_facts(c) == reach_facts(*r),
{
    match r {
        None => None,
        Some(p) => Some(
            PendingReach {
                actor: p.actor,
                double_riichi: p.double_riichi,
                legal_discards: clone_actions(&p.legal_discards),
            },
        ),
    }
}

fn clone_packet(r: &Option<TerminalResultPacket>) -> (c: Option<TerminalResultPacket>)
    ensures
        packet_facts(c) == packet_facts(*r),
{
    match r {
        None => None,
        Some(TerminalResultPacket::Tsumo { winner, ura_markers }) => Some(
            TerminalResultPacket::Tsumo { winner: *winner, ura_markers: clone_tiles(ura_markers) },
        ),
        Some(
            TerminalResultPacket::Ron {
                source,
                robbery,
                winners,
                max_winners,
                self_ron_legal_at_open,
                ura_markers,
            },
        ) => Some(
            TerminalResultPacket::Ron {
                source: *source,
                robbery: *robbery,
                winners: clone_seats(winners),
                max_winners: *max_winners,
                self_ron_legal_at_open: *self_ron_legal_at_open,
                ura_markers: clone_tiles(ura_markers),
            },
        ),
    }
}

impl Clone for MirrorCore {
    fn clone(&self) -> (r: Self)
        ensures
            r@ == self@,
    {
        MirrorCore {
            seats: self.seats,
            rule_profile: self.rule_profile,
            me: self.me,
            bakaze: self.bakaze,
            oya: self.oya,
            kyoku: self.kyoku,
            honba: self.honba,
            kyotaku: self.kyotaku,
            scores: clone_scores(&self.scores),
            dora_indicators: clone_tiles(&self.dora_indicators),
            players: clone_players(&self.players),
            turn: self.turn,
            last_discard: self.last_discard,
            tiles_left: self.tiles_left,
            any_call: self.any_call,
            pending_rinshan_draw: self.pending_rinshan_draw,
            last_draw_was_rinshan: self.last_draw_was_rinshan,
            dealer_opening: self.dealer_opening,
            pending_missed_ron: self.pending_missed_ron,
            pending_reach: clone_reach(&self.pending_reach),
            pending_robbery: self.pending_robbery,
            terminal_packet: clone_packet(&self.terminal_packet),
            known_tiles: self.known_tiles,
            started: self.started,
            terminal: self.terminal,
            quality: self.quality,
            issues: clone_issues(&self.issues),
            event_index: self.event_index,
        }
    }
}

// Texts.

fn seat_message(head: &str, seat: u8, tail: &str) -> (r: String)
    ensures
        r@ == seat_text(head@, seat, tail@),
{
    join3(head, dec_usize(seat as usize).as_str(), tail)
}

/// A state that a mirror starts from.
pub open spec fn blank_core(seats: usize, me: u8, rule_profile: RiichiRuleProfile) -> MirrorFacts {
    MirrorFacts {
        seats,
        rule_profile,
        me,
        bakaze: Tile::unknown(),
        oya: 0,
        kyoku: 1,
        honba: 0,
        kyotaku: 0,
        scores: Seq::new(seats as nat, |i: int| 25000i32),
        dora_indicators: Seq::empty(),
        players: Seq::empty(),
        turn: 0,
        last_discard: None,
        tiles_left: 0,
        any_call: false,
        pending_rinshan_draw: false,
        last_draw_was_rinshan: false,
        dealer_opening: false,
        pending_missed_ron: false,
        pending_reach: None,
        pending_robbery: None,
        terminal_packet: None,
        known_tiles: nothing_seen(),
        started: false,
        terminal: false,
        quality: MirrorQuality::Degraded,
        issues: Seq::empty(),
        event_index: 0,
    }
}

/// A new mirror; unsafe where its own seat does not exist.
pub open spec fn new_core(seats: usize, me: u8, rule_profile: RiichiRuleProfile) -> MirrorFacts {
    let c = blank_core(seats, me, rule_profile);
    if me >= seats {
        rejected(
            c,
            "invalid_mirror_seat"@,
            "mirror seat "@ + dec(me as nat) + " is outside 0.."@ + dec(seats as nat),
        )
    } else {
        c
    }
}

fn start_scores(n: usize) -> (v: Vec<i32>)
    ensures
        v@ == Seq::new(n as nat, |i: int| 25000i32),
{
    let mut v: Vec<i32> = Vec::new();
    let mut i: usize = 0;
    while i < n
        invariant
            i <= n,
            v@ == Seq::new(i as nat, |j: int| 25000i32),
        decreases n - i,
    {
        v.push(25000);
        assert(v@ =~= Seq::new((i + 1) as nat, |j: int| 25000i32));
        i = i + 1;
    }
    v
}

impl MirrorCore {
    pub fn new(seats: usize, me: u8, rule_profile: RiichiRuleProfile) -> (r: Self)
        requires
            seats == 3 || seats == 4,
        ensures
            r@ == new_core(seats, me, rule_profile),
            is_sound(r@),
    {
        let mut core = MirrorCore {
            seats,
            rule_profile,
            me,
            bakaze: Tile::unknown(),
            oya: 0,
            kyoku: 1,
            honba: 0,
            kyotaku: 0,
            scores: start_scores(seats),
            dora_indicators: Vec::new(),
            players: Vec::new(),
            turn: 0,
            last_discard: None,
            tiles_left: 0,
            any_call: false,
            pending_rinshan_draw: false,
            last_draw_was_rinshan: false,
            dealer_opening: false,
            pending_missed_ron: false,
            pending_reach: None,
            pending_robbery: None,
            terminal_packet: None,
            known_tiles: KnownTileInventory::default(),
            started: false,
            terminal: false,
            quality: MirrorQuality::Degraded,
            issues: Vec::new(),
            event_index: 0,
        };
        assert(core.dora_indicators@ =~= Seq::empty());
        assert(seat_states(core.players@) =~= Seq::empty());
        assert(issue_facts(core.issues@) =~= Seq::empty());
        assert(core@ == blank_core(seats, me, rule_profile));
        if me as usize >= seats {
            let mut detail = join3("mirror seat ", dec_usize(me as usize).as_str(), " is outside 0..");
            detail.append(dec_usize(seats).as_str());
            core.reject("invalid_mirror_seat", detail);
        }
        core
    }

    fn issue(&mut self, quality: MirrorQuality, code: &'static str, detail: String)
        ensures
            final(self)@ == with_issue(old(self)@, quality, code@, detail@),
    {
        if self.quality != MirrorQuality::Unsafe || quality == MirrorQuality::Unsafe {
            self.quality = quality;
        }
        let ghost before = issue_facts(self.issues@);
        let index: u64 = self.event_index;
        self.issues.push(MirrorIssue { event_index: index, code, detail });
        assert(issue_facts(self.issues@) =~= before.push(
            IssueFacts { event_index: index, code: code@, detail: detail@ }));
    }

    pub fn reject(&mut self, code: &'static str, detail: String)
        ensures
            final(self)@ == rejected(old(self)@, code@, detail@),
    {
        self.issue(MirrorQuality::Unsafe, code, detail);
    }

    pub fn degrade(&mut self, code: &'static str, detail: String)
        ensures
            final(self)@ == degraded(old(self)@, code@, detail@),
    {
        if self.quality != MirrorQuality::Unsafe {
            self.issue(MirrorQuality::Degraded, code, detail);
        }
    }

    fn ensure_actor(&self, actor: u8) -> (r: Result<(), String>)
        ensures
            match r {
                Ok(_) => actor_fault(self@, actor) is None,
                Err(e) => actor_fault(self@, actor) == Some(e@),
            },
    {
        if actor as usize >= self.seats {
            let mut e = join3("invalid_actor: seat ", dec_usize(actor as usize).as_str(), " is outside 0..");
            e.append(dec_usize(self.seats).as_str());
            Err(e)
        } else {
            Ok(())
        }
    }

    fn ensure_active(&self) -> (r: Result<(), String>)
        ensures
            match r {
                Ok(_) => active_fault(self@) is None,
                Err(e) => active_fault(self@) == Some(e@),
            },
    {
        if !self.started {
            Err(owned("phase_error: start_kyoku has not been observed"))
        } else if self.terminal {
            Err(owned("phase_error: kyoku is already terminal"))
        } else {
            Ok(())
        }
    }

    fn ensure_seat(&self, actor: u8) -> (r: Result<(), String>)
        ensures
            match r {
                Ok(_) => seat_fault(self@, actor) is None,
                Err(e) => seat_fault(self@, actor) == Some(e@),
            },
    {
        match self.ensure_active() {
            Err(e) => Err(e),
            Ok(_) => self.ensure_actor(actor),
        }
    }

    pub fn pending_reach_actor(&self) -> (r: Option<u8>)
        ensures
            match r {
                Some(a) => self@.pending_reach is Some && self@.pending_reach->0.actor == a,
                None => self@.pending_reach is None,
            },
    {
        match &self.pending_reach {
            Some(p) => Some(p.actor),
            None => None,
        }
    }

    pub fn awaiting_reach_discard(&self) -> (r: bool)
        ensures
            r == awaiting_reach(self@),
    {
        match &self.pending_reach {
            None => false,
            Some(p) => match self.last_discard {
                Some((actor, _)) => actor != p.actor,
                None => true,
            },
        }
    }

    fn is_declared_by(&self, actor: u8) -> (r: bool)
        ensures
            r == declared_by(self@, actor),
    {
        match self.pending_reach_actor() {
            Some(a) => a == actor,
            None => false,
        }
    }

    fn commit_missed_ron_if_pending(&mut self)
        requires
            old(self).pending_missed_ron ==> old(self).me < old(self)@.players.len(),
        ensures
            final(self)@ == committed(old(self)@),
    {
        if self.pending_missed_ron {
            let me: usize = self.me as usize;
            let ghost before = seat_states(self.players@);
            self.players[me].note_missed_ron();
            self.pending_missed_ron = false;
            assert(seat_states(self.players@) =~= before.update(me as int, missed_ron(before[me as int])));
        }
    }

    fn clear_all_ippatsu(&mut self)
        ensures
            final(self)@ == no_ippatsu(old(self)@),
    {
        let ghost before = seat_states(self.players@);
        let ghost want = before.map_values(|p: SeatState| SeatState { ippatsu: false, ..p });
        let ghost c = self@;
        let mut i: usize = 0;
        while i < self.players.len()
            invariant
                i <= self.players@.len(),
                self.players@.len() == before.len(),
                want == before.map_values(|p: SeatState| SeatState { ippatsu: false, ..p }),
                self@ == (MirrorFacts { players: self@.players, ..c }),
                forall|j: int| 0 <= j < i ==> #[trigger] seat_states(self.players@)[j] == want[j],
                forall|j: int| i <= j < before.len() ==> #[trigger] seat_states(self.players@)[j] == before[j],
            decreases self.players@.len() - i,
        {
            let ghost mid = seat_states(self.players@);
            self.players[i].ippatsu = false;
            assert(seat_states(self.players@) =~= mid.update(i as int, SeatState { ippatsu: false, ..mid[i as int] }));
            assert(mid[i as int] == before[i as int]);
            i = i + 1;
        }
        assert(seat_states(self.players@) =~= want);
    }
}

// Views.

fn seat_view_of(p: &PlayerState, seat: u8) -> (r: OpponentView)
    ensures
        r@ == opponent_of(p@, seat as int),
{
    OpponentView {
        seat,
        hand_count: (p.hand.len() % 256) as u8,
        melds: clone_melds(&p.melds),
        discards: clone_tiles(&p.discards),
        riichi: p.riichi,
    }
}

impl MirrorCore {
    fn suukaikan_condition_met(&self) -> (r: bool)
        ensures
            r == four_kans(self@),
    {
        if !self.rule_profile.allows_suukaikan() {
            return false;
        }
        let ghost all = self@.players;
        let mut total: usize = 0;
        let mut owners: usize = 0;
        let mut i: usize = 0;
        assert(all.subrange(0, 0) =~= Seq::empty());
        while i < self.players.len()
            invariant
                i <= self.players@.len(),
                all == seat_states(self.players@),
                total <= 4,
                owners <= 2,
                total == if total_kans(all.subrange(0, i as int)) < 4 { total_kans(all.subrange(0, i as int)) } else { 4 },
                owners == if kan_owners(all.subrange(0, i as int)) < 2 { kan_owners(all.subrange(0, i as int)) } else { 2 },
            decreases self.players@.len() - i,
        {
            assert(all.subrange(0, i + 1).drop_last() =~= all.subrange(0, i as int));
            assert(all[i as int] == self.players@[i as int]@);
            let n: usize = count_kans_up_to(&self.players[i].melds, 4);
            if n > 0 && owners < 2 {
                owners = owners + 1;
            }
            total = if total + n < 4 { total + n } else { 4 };
            i = i + 1;
        }
        assert(all.subrange(0, i as int) =~= all);
        total >= 4 && owners >= 2
    }

    fn opponents_of(&self, seat: u8) -> (r: Vec<OpponentView>)
        requires
            self.players@.len() == self.seats,
            self.seats <= 4,
        ensures
            opponent_facts(r@) == opponents(self@.players, seat, self.seats as int),
    {
        let ghost all = self@.players;
        let mut r: Vec<OpponentView> = Vec::new();
        let mut i: usize = 0;
        assert(opponent_facts(r@) =~= opponents(all, seat, 0));
        while i < self.seats
            invariant
                i <= self.seats,
                self.seats <= 4,
                self.players@.len() == self.seats,
                all == seat_states(self.players@),
                opponent_facts(r@) == opponents(all, seat, i as int),
            decreases self.seats - i,
        {
            if i != seat as usize {
                assert(all[i as int] == self.players@[i as int]@);
                let ghost before = opponent_facts(r@);
                let o = seat_view_of(&self.players[i], i as u8);
                let ghost ov = o@;
                r.push(o);
                assert(opponent_facts(r@) =~= before.push(ov));
            }
            i = i + 1;
        }
        r
    }

    fn live_view(&self, seat: u8) -> (r: SeatView)
        requires
            has_shape(self@),
            view_fault(self@, seat) is None,
        ensures
            r@ == core_view(self@, seat),
    {
        let p = &self.players[seat as usize];
        assert(self@.players[seat as int] == p@);
        let opening = self.dealer_opening && seat == self.oya;
        SeatView {
            state_error: None,
            round_terminal: self.terminal,
            rule_profile: self.rule_profile,
            bakaze: self.bakaze,
            kyoku: self.kyoku,
            honba: self.honba,
            kyotaku: self.kyotaku,
            oya: self.oya,
            scores: clone_scores(&self.scores),
            dora_indicators: clone_tiles(&self.dora_indicators),
            tiles_left: self.tiles_left,
            me: SelfView {
                seat,
                hand: clone_tiles(&p.hand),
                drawn_tile: p.drawn_tile,
                dealer_opening: opening,
                melds: clone_melds(&p.melds),
                discards: clone_tiles(&p.discards),
                riichi: p.riichi,
                ippatsu: p.ippatsu,
                kuikae_forbidden: clone_kinds(&p.kuikae_forbidden),
                temporary_furiten: p.temporary_furiten,
                riichi_furiten: p.riichi_furiten,
            },
            others: self.opponents_of(seat),
            turn: self.turn,
            last_discard: self.last_discard,
            pending_robbery: self.pending_robbery,
            kyuushu_kyuuhai_window: !self.any_call && p.discards.len() == 0 && p.melds.len() == 0 && (p.drawn_tile.is_some()
                || opening),
            suukaikan_pending: self.last_discard.is_some() && self.suukaikan_condition_met(),
            last_draw_was_rinshan: self.last_draw_was_rinshan,
        }
    }

    /// View of a seat. An inexact mirror gives none.
    pub fn mirror_view(&self, seat: u8) -> (r: SeatView)
        requires
            has_shape(self@),
        ensures
            r@ == core_view(self@, seat),
    {
        let seats: u8 = self.seats as u8;
        if seat as usize >= self.seats {
            return SeatView::invalid(
                seat,
                seats,
                self.rule_profile,
                SeatViewError::InvalidSeat { requested: seat, seats },
            );
        }
        if self.players.len() == 0 {
            return SeatView::invalid(seat, seats, self.rule_profile, SeatViewError::MirrorNotStarted);
        }
        match self.quality {
            MirrorQuality::Unsafe => SeatView::invalid(seat, seats, self.rule_profile, SeatViewError::MirrorUnsafe),
            MirrorQuality::Degraded => SeatView::invalid(seat, seats, self.rule_profile, SeatViewError::MirrorDegraded),
            MirrorQuality::Exact => self.live_view(seat),
        }
    }

    /// Whether ron is among the responses of a seat.
    fn ron_is_legal(&self, seat: u8) -> (r: bool)
        requires
            has_shape(self@),
            reactions_are_known(core_view(self@, seat)),
        ensures
            r == reactions(core_view(self@, seat)).contains(Response::Ron),
    {
        let view = self.mirror_view(seat);
        proof { lemma_few_opponents(self@, seat); }
        assert(view.others@.len() == view@.others.len());
        let list = legal_reactions(&view);
        has_ron(&list)
    }

    /// Whether a seat should decide now: its own draw, or another's tile that it may answer.
    pub fn should_infer(&self, seat: u8) -> (r: bool)
        requires
            has_shape(self@),
            self.quality == MirrorQuality::Exact && self.started && !self.terminal && seat < self.seats && !awaiting_reach(
                self@,
            ) && self.pending_robbery is Some ==> reactions_are_known(core_view(self@, seat)),
        ensures
            r == infers(self@, seat),
    {
        if self.quality != MirrorQuality::Exact || !self.started || self.terminal || seat as usize >= self.seats {
            return false;
        }
        if self.awaiting_reach_discard() {
            return false;
        }
        if self.pending_robbery.is_some() {
            return self.ron_is_legal(seat);
        }
        match self.last_discard {
            None => self.turn == seat,
            Some((from, _)) => from != seat,
        }
    }

    fn note_opponent_discard_for_furiten(&mut self, tile: Tile)
        requires
            old(self).me < old(self)@.players.len(),
            can_judge_discard(old(self)@),
        ensures
            final(self)@ == after_opponent_discard(old(self)@, tile),
    {
        self.commit_missed_ron_if_pending();
        assert(self@.players.len() == self.players@.len());
        let me = &self.players[self.me as usize];
        assert(self@.players[self.me as int] == me@);
        if me.is_furiten_blocked() {
            return;
        }
        if has_kind(&me.waits(), tile.kind()) {
            self.pending_missed_ron = true;
        }
    }

    fn note_robbery_for_furiten(&mut self)
        requires
            has_shape(old(self)@),
            old(self).pending_missed_ron ==> old(self)@.players.len() > 0,
            can_judge_robbery(old(self)@),
        ensures
            final(self)@ == after_robbery(old(self)@),
    {
        self.commit_missed_ron_if_pending();
        match self.pending_robbery {
            None => {},
            Some(p) => {
                if p.actor != self.me && self.ron_is_legal(self.me) {
                    self.pending_missed_ron = true;
                }
            },
        }
    }
}

fn has_ron(v: &Vec<ReactionAction>) -> (r: bool)
    ensures
        r == responses(v@).contains(Response::Ron),
{
    let mut i: usize = 0;
    while i < v.len()
        invariant
            i <= v.len(),
            forall|j: int| 0 <= j < i ==> #[trigger] responses(v@)[j] != Response::Ron,
        decreases v.len() - i,
    {
        if matches!(v[i], ReactionAction::Ron) {
            assert(responses(v@)[i as int] == Response::Ron);
            return true;
        }
        i = i + 1;
    }
    false
}

proof fn lemma_opponents_len(players: Seq<SeatState>, seat: u8, n: int)
    requires
        n >= 0,
    ensures
        opponents(players, seat, n).len() <= n,
    decreases n,
{
    if n > 0 {
        lemma_opponents_len(players, seat, n - 1);
    }
}

proof fn lemma_few_opponents(c: MirrorFacts, seat: u8)
    requires
        c.seats <= 4,
    ensures
        core_view(c, seat).others.len() <= 4,
{
    lemma_opponents_len(c.players, seat, c.seats as int);
}

// Start and end of a hand.

fn has_unknown(hand: &[Tile; 13]) -> (r: bool)
    ensures
        r == !all_known(hand@),
{
    let mut i: usize = 0;
    while i < 13
        invariant
            i <= 13,
            forall|j: int| 0 <= j < i ==> (#[trigger] hand@[j]).is_known(),
        decreases 13 - i,
    {
        if hand[i].is_unknown() {
            assert(!hand@[i as int].is_known());
            return true;
        }
        i = i + 1;
    }
    false
}

fn start_seats(seats: usize, me: u8, my_hand: [Tile; 13]) -> (r: Vec<PlayerState>)
    requires
        seats <= 4,
    ensures
        seat_states(r@) == start_players(seats, me, my_hand@),
{
    let hidden = [Tile::unknown(); 13];
    assert(hidden@ =~= Seq::new(13, |j: int| Tile::unknown()));
    let ghost want = start_players(seats, me, my_hand@);
    let mut r: Vec<PlayerState> = Vec::new();
    let mut i: usize = 0;
    while i < seats
        invariant
            i <= seats <= 4,
            hidden@ == Seq::new(13, |j: int| Tile::unknown()),
            want == start_players(seats, me, my_hand@),
            seat_states(r@) == want.subrange(0, i as int),
        decreases seats - i,
    {
        let hand = if i == me as usize { my_hand } else { hidden };
        let p = if seats == 3 { PlayerState::new_sanma(i as u8, hand) } else { PlayerState::new(i as u8, hand) };
        let ghost before = seat_states(r@);
        let ghost pv = p@;
        r.push(p);
        assert(seat_states(r@) =~= before.push(pv));
        assert(pv == want[i as int]);
        assert(want.subrange(0, i + 1) =~= want.subrange(0, i as int).push(want[i as int]));
        i = i + 1;
    }
    assert(want.subrange(0, i as int) =~= want);
    r
}

proof fn lemma_reds_ok(c: MirrorFacts)
    requires
        c.rule_profile.red_fives(c.seats).fault(c.seats as nat) is None,
    ensures
        c.rule_profile.red_fives(c.seats).man <= 4,
        c.rule_profile.red_fives(c.seats).pin <= 4,
        c.rule_profile.red_fives(c.seats).sou <= 4,
{
}

/// What an event says of the table at the start of a hand.
pub struct KyokuStart {
    pub bakaze: Tile,
    pub dora_marker: Tile,
    pub kyoku: u8,
    pub honba: u8,
    pub kyotaku: u8,
    pub oya: u8,
    pub scores: Vec<i32>,
    pub my_hand: [Tile; 13],
    pub tiles_left: u32,
}

impl View for KyokuStart {
    type V = StartFacts;

    open spec fn view(&self) -> StartFacts {
        StartFacts {
            bakaze: self.bakaze,
            dora_marker: self.dora_marker,
            kyoku: self.kyoku,
            honba: self.honba,
            kyotaku: self.kyotaku,
            oya: self.oya,
            scores: self.scores@,
            my_hand: self.my_hand@,
            tiles_left: self.tiles_left,
        }
    }
}

/// A step gave a result.
pub open spec fn stepped(r: Result<(), String>, after: MirrorFacts, step: Step) -> bool {
    match r {
        Ok(_) => step == Ok::<MirrorFacts, Seq<char>>(after),
        Err(e) => step == Err::<MirrorFacts, Seq<char>>(e@),
    }
}

impl MirrorCore {
    fn validate_start_kyoku(&self, oya: u8, dora_marker: Tile, my_hand: &[Tile; 13], sanma: bool) -> (r: Result<KnownTileInventory, String>)
        requires
            is_sound(self@),
        ensures
            match r {
                Ok(k) => start_check(self@, oya, dora_marker, my_hand@, sanma) == Ok::<Seen, Seq<char>>(k@),
                Err(e) => start_check(self@, oya, dora_marker, my_hand@, sanma) == Err::<Seen, Seq<char>>(e@),
            },
    {
        if self.me as usize >= self.seats {
            let mut e = join3("invalid_mirror_seat: seat ", dec_usize(self.me as usize).as_str(), " is outside 0..");
            e.append(dec_usize(self.seats).as_str());
            return Err(e);
        }
        if self.started && !self.terminal && self.quality != MirrorQuality::Unsafe {
            return Err(owned("phase_error: start_kyoku received during an active kyoku"));
        }
        match self.ensure_actor(oya) {
            Err(e) => return Err(e),
            Ok(_) => {},
        }
        if dora_marker.is_unknown() {
            return Err(owned("start_kyoku: dora marker cannot be unknown"));
        }
        if sanma != (self.seats == 3) {
            return Err(owned("start_kyoku: variant/player count mismatch"));
        }
        match self.rule_profile.validate_for_players(self.seats) {
            Err(e) => return Err(e),
            Ok(_) => {},
        }
        proof { lemma_reds_ok(self@); }
        let empty = KnownTileInventory::default();
        match empty.observe_all(my_hand.as_slice(), self.seats, self.rule_profile) {
            Err(e) => Err(e),
            Ok(known) => known.observe(dora_marker, self.seats, self.rule_profile),
        }
    }

    pub fn start_kyoku(&mut self, start: KyokuStart, sanma: bool) -> (r: Result<(), String>)
        requires
            is_sound(old(self)@),
        ensures
            stepped(r, final(self)@, start_step(old(self)@, start@, sanma)),
    {
        let known = match self.validate_start_kyoku(start.oya, start.dora_marker, &start.my_hand, sanma) {
            Err(e) => return Err(e),
            Ok(k) => k,
        };
        let ghost sv = start@;
        let ghost before = self@;
        let exact = !has_unknown(&start.my_hand);
        self.players = start_seats(self.seats, self.me, start.my_hand);
        self.bakaze = start.bakaze;
        self.oya = start.oya;
        self.kyoku = start.kyoku;
        self.honba = start.honba;
        self.kyotaku = start.kyotaku;
        self.dora_indicators = vec![start.dora_marker];
        self.turn = start.oya;
        self.last_discard = None;
        self.tiles_left = start.tiles_left;
        self.any_call = false;
        self.pending_rinshan_draw = false;
        self.last_draw_was_rinshan = false;
        self.dealer_opening = false;
        self.pending_missed_ron = false;
        self.pending_reach = None;
        self.pending_robbery = None;
        self.terminal_packet = None;
        self.known_tiles = known;
        self.started = true;
        self.terminal = false;
        self.quality = if exact { MirrorQuality::Exact } else { MirrorQuality::Degraded };
        self.issues = Vec::new();
        self.scores = start.scores;
        assert(self.dora_indicators@ =~= seq![sv.dora_marker]);
        assert(issue_facts(self.issues@) =~= Seq::empty());
        assert(self@ == started(before, sv, known@));
        Ok(())
    }

    pub fn end_kyoku(&mut self) -> (r: Result<(), String>)
        ensures
            stepped(r, final(self)@, end_kyoku_step(old(self)@)),
    {
        if !self.started || !self.terminal {
            return Err(owned("phase_error: end_kyoku before a terminal result"));
        }
        self.pending_robbery = None;
        self.last_discard = None;
        self.terminal_packet = None;
        self.started = false;
        Ok(())
    }

    pub fn end_game(&mut self) -> (r: Result<(), String>)
        ensures
            stepped(r, final(self)@, end_game_step(old(self)@)),
    {
        if self.started && !self.terminal {
            return Err(owned("phase_error: end_game during an active kyoku"));
        }
        self.started = false;
        Ok(())
    }

    pub fn start_game(&mut self) -> (r: Result<(), String>)
        ensures
            stepped(r, final(self)@, start_game_step(old(self)@)),
    {
        if self.started && !self.terminal {
            return Err(owned("phase_error: start_game during an active kyoku"));
        }
        Ok(())
    }

    pub fn autoplay(&mut self, actor: u8) -> (r: Result<(), String>)
        ensures
            stepped(r, final(self)@, autoplay_step(old(self)@, actor)),
    {
        self.ensure_actor(actor)
    }

    // Draws.

    fn next_to_draw(&self) -> (r: u8)
        requires
            is_sound(self@),
        ensures
            r == next_drawer(self@),
    {
        match self.pending_robbery {
            Some(p) => p.actor,
            None => match self.last_discard {
                Some((from, _)) => (from + 1) % self.seats as u8,
                None => self.turn,
            },
        }
    }

    fn check_tsumo(&self, actor: u8) -> (r: Result<(), String>)
        requires
            is_sound(self@),
        ensures
            match r {
                Ok(_) => tsumo_fault(self@, actor) is None,
                Err(e) => tsumo_fault(self@, actor) == Some(e@),
            },
    {
        match self.ensure_seat(actor) {
            Err(e) => return Err(e),
            Ok(_) => {},
        }
        if self.dealer_opening {
            return Err(owned("phase_error: dealer opening must be resolved before another draw"));
        }
        let expected: u8 = self.next_to_draw();
        if actor != expected {
            let mut e = join3("phase_error: expected seat ", dec_usize(expected as usize).as_str(), " to draw, got ");
            e.append(dec_usize(actor as usize).as_str());
            return Err(e);
        }
        assert(self@.players[actor as int] == self.players@[actor as int]@);
        if self.players[actor as usize].drawn_tile.is_some() {
            return Err(seat_message("duplicate_draw: seat ", actor, " already has a drawn tile"));
        }
        Ok(())
    }

    fn see_drawn(&self, actor: u8, pai: Tile) -> (r: Result<KnownTileInventory, String>)
        requires
            is_sound(self@),
            self.started,
        ensures
            match r {
                Ok(k) => seen_drawn(self@, actor, pai) == Ok::<Seen, Seq<char>>(k@),
                Err(e) => seen_drawn(self@, actor, pai) == Err::<Seen, Seq<char>>(e@),
            },
    {
        if actor == self.me {
            proof { lemma_reds_ok(self@); }
            self.known_tiles.observe(pai, self.seats, self.rule_profile)
        } else {
            Ok(self.known_tiles)
        }
    }

    fn close_windows(&mut self)
        requires
            old(self).pending_missed_ron ==> old(self).me < old(self)@.players.len(),
        ensures
            final(self)@ == windows_closed(old(self)@),
    {
        self.commit_missed_ron_if_pending();
        if self.pending_robbery.is_some() {
            self.pending_robbery = None;
            self.clear_all_ippatsu();
        }
    }

    fn place_draw(&mut self, actor: u8, t: Tile)
        requires
            actor < old(self)@.players.len(),
        ensures
            final(self)@ == draw_placed(old(self)@, actor, t),
    {
        let ghost before = seat_states(self.players@);
        self.players[actor as usize].draw(t);
        self.turn = actor;
        self.last_discard = None;
        assert(seat_states(self.players@) =~= before.update(actor as int, self.players@[actor as int]@));
    }

    fn count_draw(&mut self, actor: u8)
        ensures
            final(self)@ == draw_counted(old(self)@, actor),
    {
        if self.tiles_left == 0 {
            self.degrade(
                "draw_from_empty_wall",
                seat_message("seat ", actor, " drew while the live wall is already empty"),
            );
        }
        self.tiles_left = if self.tiles_left == 0 { 0 } else { self.tiles_left - 1 };
        self.last_draw_was_rinshan = self.pending_rinshan_draw;
        self.pending_rinshan_draw = false;
    }

    pub fn tsumo(&mut self, actor: u8, pai: Tile) -> (r: Result<(), String>)
        requires
            is_sound(old(self)@),
        ensures
            stepped(r, final(self)@, tsumo_step(old(self)@, actor, pai)),
    {
        match self.check_tsumo(actor) {
            Err(e) => return Err(e),
            Ok(_) => {},
        }
        let known = match self.see_drawn(actor, pai) {
            Err(e) => return Err(e),
            Ok(k) => k,
        };
        let t = if actor == self.me { pai } else { Tile::unknown() };
        self.known_tiles = known;
        self.close_windows();
        self.place_draw(actor, t);
        self.count_draw(actor);
        if actor == self.me && pai.is_unknown() {
            self.degrade("unknown_self_draw", seat_message("seat ", actor, " draw is hidden from its own mirror"));
        }
        Ok(())
    }

    fn all_untouched(&self) -> (r: bool)
        ensures
            r == forall|i: int| 0 <= i < self@.players.len() ==> is_untouched(#[trigger] self@.players[i]),
    {
        let mut i: usize = 0;
        while i < self.players.len()
            invariant
                i <= self.players@.len(),
                forall|j: int| 0 <= j < i ==> is_untouched(#[trigger] self@.players[j]),
            decreases self.players@.len() - i,
        {
            let p = &self.players[i];
            assert(self@.players[i as int] == p@);
            if p.discards.len() > 0 || p.melds.len() > 0 || p.drawn_tile.is_some() {
                assert(!is_untouched(self@.players[i as int]));
                return false;
            }
            i = i + 1;
        }
        true
    }

    fn check_opening(&self, actor: u8) -> (r: Result<(), String>)
        requires
            is_sound(self@),
        ensures
            match r {
                Ok(_) => opening_fault(self@, actor) is None,
                Err(e) => opening_fault(self@, actor) == Some(e@),
            },
    {
        match self.ensure_seat(actor) {
            Err(e) => return Err(e),
            Ok(_) => {},
        }
        assert(self@.players[actor as int] == self.players@[actor as int]@);
        let wrong_time = actor != self.oya || actor != self.turn || self.last_discard.is_some()
            || self.pending_robbery.is_some() || self.dealer_opening;
        if wrong_time || !self.all_untouched() || self.players[actor as usize].hand.len() != 13 {
            return Err(owned("phase_error: dealer_opening is only valid before the dealer's first action"));
        }
        Ok(())
    }

    fn give_tile(&mut self, actor: u8, t: Tile)
        requires
            actor < old(self)@.players.len(),
        ensures
            final(self)@ == ({
                let c = old(self)@;
                let p = c.players[actor as int];
                MirrorFacts { players: c.players.update(actor as int, SeatState { hand: p.hand.push(t), ..p }), ..c }
            }),
    {
        let ghost before = seat_states(self.players@);
        self.players[actor as usize].add_to_hand(t);
        assert(seat_states(self.players@) =~= before.update(actor as int, self.players@[actor as int]@));
    }

    fn place_opening(&mut self, actor: u8, pai: Tile, known: KnownTileInventory)
        requires
            actor < old(self)@.players.len(),
        ensures
            final(self)@ == opened(old(self)@, actor, pai, known@),
    {
        let t = if actor == self.me { pai } else { Tile::unknown() };
        self.known_tiles = known;
        self.give_tile(actor, t);
        self.tiles_left = if self.tiles_left == 0 { 0 } else { self.tiles_left - 1 };
        self.dealer_opening = true;
        if actor == self.me && pai.is_unknown() {
            self.degrade(
                "unknown_self_dealer_opening",
                seat_message("seat ", actor, " dealer opening tile is hidden from its own mirror"),
            );
        }
    }

    pub fn open_dealer(&mut self, actor: u8, pai: Tile) -> (r: Result<(), String>)
        requires
            is_sound(old(self)@),
        ensures
            stepped(r, final(self)@, opening_step(old(self)@, actor, pai)),
    {
        match self.check_opening(actor) {
            Err(e) => return Err(e),
            Ok(_) => {},
        }
        match self.see_drawn(actor, pai) {
            Err(e) => Err(e),
            Ok(known) => {
                self.place_opening(actor, pai, known);
                Ok(())
            },
        }
    }
}

// Discards.

fn has_action(v: &Vec<TurnAction>, a: TurnAction) -> (r: bool)
    ensures
        r == v@.contains(a),
{
    let mut i: usize = 0;
    while i < v.len()
        invariant
            i <= v.len(),
            forall|j: int| 0 <= j < i ==> v@[j] != a,
        decreases v.len() - i,
    {
        if v[i] == a {
            assert(v@.contains(a));
            return true;
        }
        i = i + 1;
    }
    false
}

fn describe_action(a: TurnAction) -> (r: String)
    ensures
        r@ == action_text(a),
{
    match a {
        TurnAction::Riichi { tile, tsumogiri } => {
            let mut r = join3("Riichi { tile: ", tile.as_str(), ", tsumogiri: ");
            r.append(if tsumogiri { "true" } else { "false" });
            r.append(" }");
            r
        },
        TurnAction::DealerOpeningRiichi { tile } => join3("DealerOpeningRiichi { tile: ", tile.as_str(), " }"),
        _ => {
            let r = String::new();
            assert(r@ =~= Seq::empty());
            r
        },
    }
}

impl MirrorCore {
    fn set_player(&mut self, i: u8, p: PlayerState)
        requires
            i < old(self)@.players.len(),
        ensures
            final(self)@ == (MirrorFacts { players: old(self)@.players.update(i as int, p@), ..old(self)@ }),
    {
        let ghost before = seat_states(self.players@);
        self.players.set(i as usize, p);
        assert(seat_states(self.players@) =~= before.update(i as int, p@));
    }

    fn copy_player(&self, i: u8) -> (p: PlayerState)
        requires
            i < self@.players.len(),
        ensures
            p@ == self@.players[i as int],
    {
        self.players[i as usize].clone()
    }

    fn validate_reach_discard(&self, actor: u8, action: TurnAction) -> (r: Result<(), String>)
        ensures
            match r {
                Ok(_) => reach_fault(self@, actor, action) is None,
                Err(e) => reach_fault(self@, actor, action) == Some(e@),
            },
    {
        match &self.pending_reach {
            None => Ok(()),
            Some(p) => {
                if p.actor != actor {
                    let mut e = join3(
                        "phase_error: waiting for seat ",
                        dec_usize(p.actor as usize).as_str(),
                        " riichi discard, got seat ",
                    );
                    e.append(dec_usize(actor as usize).as_str());
                    return Err(e);
                }
                if actor == self.me && !has_action(&p.legal_discards, action) {
                    return Err(
                        join2(
                            "illegal_reach_discard: declaration discard is not in the frozen legal set: ",
                            describe_action(action).as_str(),
                        ),
                    );
                }
                Ok(())
            },
        }
    }

    fn check_dahai(&self, actor: u8, pai: Tile, tsumogiri: bool) -> (r: Result<(), String>)
        ensures
            match r {
                Ok(_) => dahai_fault(self@, actor, pai, tsumogiri) is None,
                Err(e) => dahai_fault(self@, actor, pai, tsumogiri) == Some(e@),
            },
    {
        match self.ensure_seat(actor) {
            Err(e) => return Err(e),
            Ok(_) => {},
        }
        if self.dealer_opening {
            return Err(owned("phase_error: dealer opening discard requires dealer_opening_dahai"));
        }
        if actor != self.turn || self.last_discard.is_some() || self.pending_robbery.is_some() {
            return Err(seat_message("phase_error: seat ", actor, " cannot discard in the current phase"));
        }
        self.validate_reach_discard(actor, TurnAction::Riichi { tile: pai, tsumogiri })
    }

    fn see_from(&self, actor: u8, tiles: &[Tile]) -> (r: Result<KnownTileInventory, String>)
        requires
            is_sound(self@),
            self.started,
        ensures
            match r {
                Ok(k) => seen_from(self@, actor, tiles@) == Ok::<Seen, Seq<char>>(k@),
                Err(e) => seen_from(self@, actor, tiles@) == Err::<Seen, Seq<char>>(e@),
            },
    {
        if actor != self.me {
            proof { lemma_reds_ok(self@); }
            self.known_tiles.observe_all(tiles, self.seats, self.rule_profile)
        } else {
            Ok(self.known_tiles)
        }
    }

    fn see_one(&self, actor: u8, tile: Tile) -> (r: Result<KnownTileInventory, String>)
        requires
            is_sound(self@),
            self.started,
        ensures
            match r {
                Ok(k) => seen_from(self@, actor, seq![tile]) == Ok::<Seen, Seq<char>>(k@),
                Err(e) => seen_from(self@, actor, seq![tile]) == Err::<Seen, Seq<char>>(e@),
            },
    {
        let v: Vec<Tile> = vec![tile];
        assert(v@ =~= seq![tile]);
        self.see_from(actor, v.as_slice())
    }

    fn player_after_dahai(&self, actor: u8, pai: Tile, tsumogiri: bool) -> (r: Result<PlayerState, String>)
        requires
            actor < self@.players.len(),
            actor == self.me && discard_result(self@.players[actor as int], pai, tsumogiri) is Ok ==> countable(
                discard_result(self@.players[actor as int], pai, tsumogiri)->Ok_0,
            ),
        ensures
            match r {
                Ok(p) => discarder(self@, actor, pai, tsumogiri) == Ok::<SeatState, Seq<char>>(p@),
                Err(e) => discarder(self@, actor, pai, tsumogiri) == Err::<SeatState, Seq<char>>(e@),
            },
    {
        let mut p = self.copy_player(actor);
        if actor == self.me {
            match p.discard_with_source(pai, tsumogiri) {
                Ok(_) => Ok(p),
                Err(e) => Err(join2("dahai: ", e.as_str())),
            }
        } else {
            if tsumogiri && p.drawn_tile.is_none() {
                return Err(seat_message("dahai: seat ", actor, " reports tsumogiri without a draw"));
            }
            if !reveal_discard(&mut p, pai) {
                return Err(seat_message("dahai: seat ", actor, " has no unknown tile to remove"));
            }
            Ok(p)
        }
    }

    fn place_discard(&mut self, actor: u8, pai: Tile, player: PlayerState, known: KnownTileInventory)
        requires
            actor < old(self)@.players.len(),
        ensures
            final(self)@ == discard_placed(old(self)@, actor, pai, player@, known@),
    {
        let mut p = player;
        if !self.is_declared_by(actor) {
            p.ippatsu = false;
        }
        self.known_tiles = known;
        self.set_player(actor, p);
        self.turn = actor;
        self.last_discard = Some((actor, pai));
        self.last_draw_was_rinshan = false;
        self.dealer_opening = false;
    }

    fn commit_reach_discard(&mut self, actor: u8)
        requires
            actor < old(self)@.players.len(),
        ensures
            final(self)@ == reach_committed(old(self)@, actor),
    {
        let double = match &self.pending_reach {
            Some(p) => if p.actor == actor { p.double_riichi } else { return },
            None => return,
        };
        let mut p = self.copy_player(actor);
        p.riichi = true;
        p.double_riichi = double;
        p.ippatsu = true;
        self.set_player(actor, p);
    }

    fn judge_discard(&mut self, actor: u8, pai: Tile)
        requires
            actor < old(self)@.players.len(),
            old(self).me < old(self)@.players.len(),
            actor != old(self).me ==> can_judge_discard(old(self)@),
        ensures
            final(self)@ == discard_judged(old(self)@, actor, pai),
    {
        if actor == self.me {
            self.pending_missed_ron = false;
        } else {
            self.note_opponent_discard_for_furiten(pai);
        }
        self.commit_reach_discard(actor);
    }

    pub fn dahai(&mut self, actor: u8, pai: Tile, tsumogiri: bool) -> (r: Result<(), String>)
        requires
            is_sound(old(self)@),
            dahai_known(old(self)@, actor, pai, tsumogiri),
        ensures
            stepped(r, final(self)@, dahai_step(old(self)@, actor, pai, tsumogiri)),
    {
        match self.check_dahai(actor, pai, tsumogiri) {
            Err(e) => return Err(e),
            Ok(_) => {},
        }
        let known = match self.see_one(actor, pai) {
            Err(e) => return Err(e),
            Ok(k) => k,
        };
        let p = match self.player_after_dahai(actor, pai, tsumogiri) {
            Err(e) => return Err(e),
            Ok(p) => p,
        };
        self.place_discard(actor, pai, p, known);
        self.judge_discard(actor, pai);
        Ok(())
    }

    fn check_opening_dahai(&self, actor: u8, pai: Tile) -> (r: Result<(), String>)
        ensures
            match r {
                Ok(_) => opening_dahai_fault(self@, actor, pai) is None,
                Err(e) => opening_dahai_fault(self@, actor, pai) == Some(e@),
            },
    {
        match self.ensure_seat(actor) {
            Err(e) => return Err(e),
            Ok(_) => {},
        }
        if !self.dealer_opening || actor != self.oya || actor != self.turn || self.last_discard.is_some()
            || self.pending_robbery.is_some() {
            return Err(owned("phase_error: dealer_opening_dahai outside dealer opening window"));
        }
        self.validate_reach_discard(actor, TurnAction::DealerOpeningRiichi { tile: pai })
    }

    fn player_after_opening(&self, actor: u8, pai: Tile) -> (r: Result<PlayerState, String>)
        requires
            actor < self@.players.len(),
            actor == self.me && opening_result(self@.players[actor as int], pai) is Ok ==> countable(
                opening_result(self@.players[actor as int], pai)->Ok_0,
            ),
        ensures
            match r {
                Ok(p) => opening_discarder(self@, actor, pai) == Ok::<SeatState, Seq<char>>(p@),
                Err(e) => opening_discarder(self@, actor, pai) == Err::<SeatState, Seq<char>>(e@),
            },
    {
        let mut p = self.copy_player(actor);
        if actor == self.me {
            match p.discard_dealer_opening(pai) {
                Ok(_) => Ok(p),
                Err(e) => Err(join2("dealer_opening_dahai: ", e.as_str())),
            }
        } else {
            let drawn_tile = p.drawn_tile;
            if !reveal_discard(&mut p, pai) {
                return Err(owned("dealer_opening_dahai: dealer has no concealed tile to remove"));
            }
            p.drawn_tile = drawn_tile;
            Ok(p)
        }
    }

    pub fn dealer_opening_dahai(&mut self, actor: u8, pai: Tile) -> (r: Result<(), String>)
        requires
            is_sound(old(self)@),
            opening_dahai_known(old(self)@, actor, pai),
        ensures
            stepped(r, final(self)@, opening_dahai_step(old(self)@, actor, pai)),
    {
        match self.check_opening_dahai(actor, pai) {
            Err(e) => return Err(e),
            Ok(_) => {},
        }
        let known = match self.see_one(actor, pai) {
            Err(e) => return Err(e),
            Ok(k) => k,
        };
        let p = match self.player_after_opening(actor, pai) {
            Err(e) => return Err(e),
            Ok(p) => p,
        };
        self.place_discard(actor, pai, p, known);
        self.judge_discard(actor, pai);
        Ok(())
    }
}

/// Turns an unknown tile of a hand into a discard. Returns whether there was one.
fn reveal_discard(p: &mut PlayerState, pai: Tile) -> (r: bool)
    ensures
        r == old(p)@.hand.contains(Tile::unknown()),
        r ==> final(p)@ == revealed_discard(old(p)@, pai),
{
    if !take_one(&mut p.hand, Tile::unknown()) {
        return false;
    }
    p.drawn_tile = None;
    p.discards.push(pai);
    p.temporary_furiten = false;
    p.kuikae_forbidden = Vec::new();
    assert(p.kuikae_forbidden@ =~= Seq::empty());
    true
}

// Calls.

/// Takes tiles from a hand one by one; the first that is missing stops it.
fn take_tiles(hand: &Vec<Tile>, tiles: &[Tile]) -> (r: Result<Vec<Tile>, Tile>)
    ensures
        match r {
            Ok(h) => taken(hand@, tiles@) == Ok::<Seq<Tile>, Tile>(h@),
            Err(t) => taken(hand@, tiles@) == Err::<Seq<Tile>, Tile>(t),
        },
{
    let mut h = clone_tiles(hand);
    let mut i: usize = 0;
    assert(tiles@.subrange(0, 0) =~= Seq::empty());
    while i < tiles.len()
        invariant
            i <= tiles.len(),
            taken(hand@, tiles@.subrange(0, i as int)) == Ok::<Seq<Tile>, Tile>(h@),
        decreases tiles.len() - i,
    {
        assert(tiles@.subrange(0, i + 1).drop_last() =~= tiles@.subrange(0, i as int));
        if !take_one(&mut h, tiles[i]) {
            proof { lemma_missing_stays(hand@, tiles@, i + 1); }
            return Err(tiles[i]);
        }
        i = i + 1;
    }
    assert(tiles@.subrange(0, i as int) =~= tiles@);
    Ok(h)
}

proof fn lemma_missing_stays(hand: Seq<Tile>, tiles: Seq<Tile>, n: int)
    requires
        0 <= n <= tiles.len(),
        taken(hand, tiles.subrange(0, n)) is Err,
    ensures
        taken(hand, tiles) == taken(hand, tiles.subrange(0, n)),
    decreases tiles.len(),
{
    if n == tiles.len() {
        assert(tiles.subrange(0, n) =~= tiles);
    } else {
        assert(tiles.drop_last().subrange(0, n) =~= tiles.subrange(0, n));
        lemma_missing_stays(hand, tiles.drop_last(), n);
    }
}

fn unknown_in(hand: &Vec<Tile>) -> (n: usize)
    ensures
        n == count_unknown(hand@),
{
    let mut n: usize = 0;
    let mut i: usize = 0;
    while i < hand.len()
        invariant
            i <= hand.len(),
            n <= i,
            n == count_unknown(hand@.subrange(0, i as int)),
        decreases hand.len() - i,
    {
        assert(hand@.subrange(0, i + 1).drop_last() =~= hand@.subrange(0, i as int));
        if hand[i] == Tile::unknown() {
            n = n + 1;
        }
        i = i + 1;
    }
    assert(hand@.subrange(0, i as int) =~= hand@);
    n
}

fn drop_hidden(hand: &Vec<Tile>, n: usize) -> (h: Vec<Tile>)
    ensures
        h@ == drop_unknown(hand@, n as nat),
{
    let mut h = clone_tiles(hand);
    let mut i: usize = 0;
    while i < n
        invariant
            i <= n,
            h@ == drop_unknown(hand@, i as nat),
        decreases n - i,
    {
        take_one(&mut h, Tile::unknown());
        i = i + 1;
    }
    h
}

fn is_all_of_kind(tiles: &[Tile], k: usize) -> (r: bool)
    ensures
        r == all_of_kind(tiles@, k),
{
    let mut i: usize = 0;
    while i < tiles.len()
        invariant
            i <= tiles.len(),
            forall|j: int| 0 <= j < i ==> (#[trigger] tiles@[j]).kind() == k,
        decreases tiles.len() - i,
    {
        if tiles[i].kind() != k {
            assert(tiles@[i as int].kind() != k);
            return false;
        }
        i = i + 1;
    }
    true
}

fn forms_run(a: usize, b: usize, c: usize) -> (r: bool)
    requires
        a <= 37,
        b <= 37,
        c <= 37,
    ensures
        r == is_run(a as int, b as int, c as int),
{
    let lo: usize = if a <= b && a <= c { a } else if b <= c { b } else { c };
    let hi: usize = if a >= b && a >= c { a } else if b >= c { b } else { c };
    let mid: usize = a + b + c - lo - hi;
    lo < 27 && lo / 9 == hi / 9 && lo + 1 == mid && mid + 1 == hi
}

fn order_by_kind(a: Tile, b: Tile, c: Tile) -> (r: [Tile; 3])
    ensures
        r == in_kind_order(a, b, c),
{
    let r = if a.kind() <= b.kind() {
        if b.kind() <= c.kind() {
            [a, b, c]
        } else if a.kind() <= c.kind() {
            [a, c, b]
        } else {
            [c, a, b]
        }
    } else if a.kind() <= c.kind() {
        [b, a, c]
    } else if b.kind() <= c.kind() {
        [b, c, a]
    } else {
        [c, b, a]
    };
    assert(r@ =~= in_kind_order(a, b, c)@);
    assert(r =~= in_kind_order(a, b, c));
    r
}

impl MirrorCore {
    /// The seat after the tiles of a call are taken from its hand.
    fn consume(&self, actor: u8, tiles: &[Tile]) -> (r: Result<PlayerState, String>)
        requires
            actor < self@.players.len(),
        ensures
            match r {
                Ok(p) => consumed_from(self@, actor, tiles@) == Ok::<SeatState, Seq<char>>(p@),
                Err(e) => consumed_from(self@, actor, tiles@) == Err::<SeatState, Seq<char>>(e@),
            },
    {
        let mut p = self.copy_player(actor);
        if actor == self.me {
            match take_tiles(&p.hand, tiles) {
                Ok(h) => {
                    p.hand = h;
                    p.drawn_tile = None;
                    Ok(p)
                },
                Err(t) => {
                    let mut e = join3("consume: seat ", dec_usize(actor as usize).as_str(), " missing tile ");
                    e.append(t.as_str());
                    Err(e)
                },
            }
        } else {
            if unknown_in(&p.hand) < tiles.len() {
                let mut e = join3("consume: seat ", dec_usize(actor as usize).as_str(), " missing unknown tile (need ");
                e.append(dec_usize(tiles.len()).as_str());
                e.append(")");
                return Err(e);
            }
            p.hand = drop_hidden(&p.hand, tiles.len());
            p.drawn_tile = None;
            Ok(p)
        }
    }

    fn validate_call(&self, actor: u8, target: u8, pai: Tile, chi: bool) -> (r: Result<(), String>)
        requires
            is_sound(self@),
        ensures
            match r {
                Ok(_) => call_fault(self@, actor, target, pai, chi) is None,
                Err(e) => call_fault(self@, actor, target, pai, chi) == Some(e@),
            },
    {
        match self.ensure_seat(actor) {
            Err(e) => return Err(e),
            Ok(_) => {},
        }
        match self.ensure_actor(target) {
            Err(e) => return Err(e),
            Ok(_) => {},
        }
        let on_table = match self.last_discard {
            Some((from, tile)) => from == target && tile == pai,
            None => false,
        };
        if actor == target || !on_table {
            return Err(owned("call_window_mismatch: target/tile does not match last discard"));
        }
        if chi && (target + 1) % self.seats as u8 != actor {
            return Err(owned("illegal_chi_direction: only the next seat may chi"));
        }
        Ok(())
    }

    /// The caller of a meld.
    fn caller_after(&self, actor: u8, tiles: &[Tile], meld: Meld, forbidden: Vec<usize>, kan: bool) -> (r: Result<PlayerState, String>)
        requires
            actor < self@.players.len(),
        ensures
            match r {
                Ok(p) => caller_of(self@, actor, tiles@, meld, forbidden@, kan) == Ok::<SeatState, Seq<char>>(p@),
                Err(e) => caller_of(self@, actor, tiles@, meld, forbidden@, kan) == Err::<SeatState, Seq<char>>(e@),
            },
    {
        match self.consume(actor, tiles) {
            Err(e) => Err(e),
            Ok(q) => {
                let mut p = q;
                p.melds.push(meld);
                if !kan {
                    p.kuikae_forbidden = forbidden;
                }
                Ok(p)
            },
        }
    }

    /// Lays out a call.
    fn lay_call(&mut self, actor: u8, target: u8, caller: PlayerState, kan: bool) -> (r: Result<(), String>)
        requires
            actor < old(self)@.players.len(),
            target < old(self)@.players.len(),
        ensures
            stepped(r, final(self)@, call_laid(old(self)@, actor, target, caller@, kan)),
    {
        self.set_player(actor, caller);
        let mut q = self.copy_player(target);
        match q.mark_latest_discard_called() {
            Err(e) => return Err(e),
            Ok(_) => {},
        }
        self.set_player(target, q);
        self.turn = actor;
        self.last_discard = None;
        self.any_call = true;
        self.pending_rinshan_draw = kan || self.pending_rinshan_draw;
        self.last_draw_was_rinshan = false;
        self.clear_all_ippatsu();
        Ok(())
    }

    fn call(&mut self, actor: u8, target: u8, tiles: &[Tile], meld: Meld, forbidden: Vec<usize>, kan: bool, known: KnownTileInventory) -> (r: Result<(), String>)
        requires
            is_sound(old(self)@),
            actor < old(self)@.players.len(),
            target < old(self)@.players.len(),
        ensures
            stepped(r, final(self)@, called(old(self)@, actor, target, tiles@, meld, forbidden@, kan, known@)),
    {
        self.known_tiles = known;
        self.commit_missed_ron_if_pending();
        match self.caller_after(actor, tiles, meld, forbidden, kan) {
            Err(e) => Err(e),
            Ok(p) => self.lay_call(actor, target, p, kan),
        }
    }

    pub fn chi(&mut self, actor: u8, target: u8, pai: Tile, consumed: [Tile; 2]) -> (r: Result<(), String>)
        requires
            is_sound(old(self)@),
        ensures
            stepped(r, final(self)@, chi_step(old(self)@, actor, target, pai, consumed)),
    {
        match self.validate_call(actor, target, pai, true) {
            Err(e) => return Err(e),
            Ok(_) => {},
        }
        let a = consumed[0];
        let b = consumed[1];
        if !forms_run(a.kind(), b.kind(), pai.kind()) {
            return Err(owned("chi: consumed tiles do not form a sequence"));
        }
        let known = match self.see_from(actor, consumed.as_slice()) {
            Err(e) => return Err(e),
            Ok(k) => k,
        };
        let meld = Meld::Chi { tiles: order_by_kind(a, b, pai), called: pai, from: target };
        let forbidden: Vec<usize> = if self.rule_profile.kuikae_forbidden() {
            kuikae_forbidden_after_chi(pai, consumed)
        } else {
            Vec::new()
        };
        assert(!self.rule_profile.kuikae_forbidden ==> forbidden@ =~= Seq::empty());
        self.call(actor, target, consumed.as_slice(), meld, forbidden, false, known)
    }

    pub fn pon(&mut self, actor: u8, target: u8, pai: Tile, consumed: [Tile; 2]) -> (r: Result<(), String>)
        requires
            is_sound(old(self)@),
        ensures
            stepped(r, final(self)@, pon_step(old(self)@, actor, target, pai, consumed)),
    {
        match self.validate_call(actor, target, pai, false) {
            Err(e) => return Err(e),
            Ok(_) => {},
        }
        if !is_all_of_kind(consumed.as_slice(), pai.kind()) {
            return Err(owned("pon: consumed tiles do not match called tile"));
        }
        let known = match self.see_from(actor, consumed.as_slice()) {
            Err(e) => return Err(e),
            Ok(k) => k,
        };
        let meld = Meld::Pon { tile: pai.deaka(), called: pai, consumed, from: target };
        let forbidden: Vec<usize> = if self.rule_profile.kuikae_forbidden() { vec![pai.kind()] } else { Vec::new() };
        assert(!self.rule_profile.kuikae_forbidden ==> forbidden@ =~= Seq::empty());
        assert(self.rule_profile.kuikae_forbidden ==> forbidden@ =~= seq![pai.kind()]);
        self.call(actor, target, consumed.as_slice(), meld, forbidden, false, known)
    }

    pub fn daiminkan(&mut self, actor: u8, target: u8, pai: Tile, consumed: [Tile; 3]) -> (r: Result<(), String>)
        requires
            is_sound(old(self)@),
        ensures
            stepped(r, final(self)@, daiminkan_step(old(self)@, actor, target, pai, consumed)),
    {
        match self.validate_call(actor, target, pai, false) {
            Err(e) => return Err(e),
            Ok(_) => {},
        }
        if !is_all_of_kind(consumed.as_slice(), pai.kind()) {
            return Err(owned("daiminkan: consumed tiles do not match called tile"));
        }
        let known = match self.see_from(actor, consumed.as_slice()) {
            Err(e) => return Err(e),
            Ok(k) => k,
        };
        let meld = Meld::Daiminkan { tile: pai.deaka(), called: pai, from: target };
        let forbidden: Vec<usize> = Vec::new();
        assert(forbidden@ =~= Seq::empty());
        self.call(actor, target, consumed.as_slice(), meld, forbidden, true, known)
    }

    // Declarations on one's own turn.

    fn check_turn(&self, actor: u8, text: &str) -> (r: Result<(), String>)
        ensures
            match r {
                Ok(_) => turn_fault(self@, actor, text@) is None,
                Err(e) => turn_fault(self@, actor, text@) == Some(e@),
            },
    {
        match self.ensure_seat(actor) {
            Err(e) => return Err(e),
            Ok(_) => {},
        }
        if actor != self.turn || self.last_discard.is_some() || self.pending_robbery.is_some() {
            return Err(owned(text));
        }
        Ok(())
    }

    /// Lays out a declaration that can be robbed, and judges it.
    fn declare(&mut self, actor: u8, player: PlayerState, known: KnownTileInventory, robbery: PendingRobbery, closes_opening: bool)
        requires
            is_sound(old(self)@),
            actor < old(self)@.players.len(),
            can_judge_robbery(declared(old(self)@, actor, player@, known@, robbery, closes_opening)),
        ensures
            final(self)@ == after_robbery(declared(old(self)@, actor, player@, known@, robbery, closes_opening)),
    {
        self.known_tiles = known;
        self.set_player(actor, player);
        self.turn = actor;
        self.last_discard = None;
        self.any_call = true;
        if closes_opening {
            self.dealer_opening = false;
        }
        self.pending_rinshan_draw = true;
        self.last_draw_was_rinshan = false;
        self.pending_robbery = Some(robbery);
        self.note_robbery_for_furiten();
    }

    pub fn kakan(&mut self, actor: u8, pai: Tile, consumed: [Tile; 3]) -> (r: Result<(), String>)
        requires
            is_sound(old(self)@),
            robbery_known(kakan_placed(old(self)@, actor, pai, consumed)),
        ensures
            stepped(r, final(self)@, robbery_step(kakan_placed(old(self)@, actor, pai, consumed))),
    {
        match self.check_turn(actor, "phase_error: kakan outside the actor turn") {
            Err(e) => return Err(e),
            Ok(_) => {},
        }
        assert(self@.players[actor as int] == self.players@[actor as int]@);
        let at: usize = match find_pon(&self.players[actor as usize].melds, pai.kind()) {
            Some(i) => i,
            None => {
                let mut e = join3("kakan: seat ", dec_usize(actor as usize).as_str(), " has no matching pon for ");
                e.append(pai.as_str());
                return Err(e);
            },
        };
        assert(self@.players[actor as int] == self.players@[actor as int]@);
        let original = self.players[actor as usize].melds[at].tiles();
        if !equal_three(&original, &consumed) {
            return Err(owned("kakan: consumed tiles do not match the original pon"));
        }
        let known = match self.see_one(actor, pai) {
            Err(e) => return Err(e),
            Ok(k) => k,
        };
        let one: Vec<Tile> = vec![pai];
        assert(one@ =~= seq![pai]);
        let mut p = match self.consume(actor, one.as_slice()) {
            Err(e) => return Err(e),
            Ok(p) => p,
        };
        p.melds.set(at, Meld::Kakan { tile: pai.deaka(), added: pai });
        self.declare(actor, p, known, PendingRobbery { actor, tile: pai, kind: RobberyKind::Kakan }, false);
        Ok(())
    }

    pub fn ankan(&mut self, actor: u8, consumed: [Tile; 4]) -> (r: Result<(), String>)
        requires
            is_sound(old(self)@),
            robbery_known(ankan_placed(old(self)@, actor, consumed)),
        ensures
            stepped(r, final(self)@, robbery_step(ankan_placed(old(self)@, actor, consumed))),
    {
        match self.check_turn(actor, "phase_error: ankan outside the actor turn") {
            Err(e) => return Err(e),
            Ok(_) => {},
        }
        if !is_all_of_kind(consumed.as_slice(), consumed[0].kind()) {
            return Err(owned("ankan: consumed tiles must have one kind"));
        }
        let known = match self.see_from(actor, consumed.as_slice()) {
            Err(e) => return Err(e),
            Ok(k) => k,
        };
        let mut p = match self.consume(actor, consumed.as_slice()) {
            Err(e) => return Err(e),
            Ok(p) => p,
        };
        let tile = consumed[0].deaka();
        p.melds.push(Meld::Ankan { tile });
        self.declare(actor, p, known, PendingRobbery { actor, tile, kind: RobberyKind::Ankan }, true);
        Ok(())
    }

    pub fn nukidora(&mut self, actor: u8, pai: Tile) -> (r: Result<(), String>)
        requires
            is_sound(old(self)@),
            robbery_known(nukidora_placed(old(self)@, actor, pai)),
        ensures
            stepped(r, final(self)@, robbery_step(nukidora_placed(old(self)@, actor, pai))),
    {
        match self.check_turn(actor, "phase_error: nukidora outside the actor turn") {
            Err(e) => return Err(e),
            Ok(_) => {},
        }
        if pai.kind() != 30 {
            return Err(owned("nukidora: only north may be extracted"));
        }
        let known = match self.see_one(actor, pai) {
            Err(e) => return Err(e),
            Ok(k) => k,
        };
        let one: Vec<Tile> = vec![pai];
        assert(one@ =~= seq![pai]);
        let mut p = match self.consume(actor, one.as_slice()) {
            Err(e) => return Err(e),
            Ok(p) => p,
        };
        p.melds.push(Meld::Nukidora { tile: pai.deaka() });
        self.declare(actor, p, known, PendingRobbery { actor, tile: pai, kind: RobberyKind::Nukidora }, true);
        Ok(())
    }
}

fn find_pon(melds: &Vec<Meld>, k: usize) -> (r: Option<usize>)
    ensures
        match r {
            Some(i) => i < melds@.len() && i == pon_at(melds@, k) && melds@[i as int] is Pon,
            None => pon_at(melds@, k) >= melds@.len(),
        },
{
    let mut i: usize = 0;
    assert(melds@.subrange(0, melds@.len() as int) =~= melds@);
    while i < melds.len()
        invariant
            i <= melds.len(),
            pon_at(melds@, k) == i + pon_at(melds@.subrange(i as int, melds@.len() as int), k),
        decreases melds.len() - i,
    {
        assert(melds@.subrange(i as int, melds@.len() as int).drop_first() =~= melds@.subrange(i + 1, melds@.len() as int));
        match &melds[i] {
            Meld::Pon { tile, .. } => {
                if tile.kind() == k {
                    return Some(i);
                }
            },
            _ => {},
        }
        i = i + 1;
    }
    None
}

fn equal_three(a: &Vec<Tile>, b: &[Tile; 3]) -> (r: bool)
    requires
        a.len() == 3,
    ensures
        r == same_three(a@, b@),
{
    let (x, y, z) = (a[0], a[1], a[2]);
    let (p, q, s) = (b[0], b[1], b[2]);
    (x == p && y == q && z == s) || (x == p && y == s && z == q) || (x == q && y == p && z == s) || (x == q && y == s && z
        == p) || (x == s && y == p && z == q) || (x == s && y == q && z == p)
}

// Riichi.

fn only_riichi(v: &Vec<TurnAction>) -> (r: Vec<TurnAction>)
    ensures
        r@ == riichi_only(v@),
{
    let mut r: Vec<TurnAction> = Vec::new();
    let mut i: usize = 0;
    assert(v@.subrange(0, 0) =~= Seq::empty());
    assert(r@ =~= riichi_only(v@.subrange(0, 0)));
    while i < v.len()
        invariant
            i <= v.len(),
            r@ == riichi_only(v@.subrange(0, i as int)),
        decreases v.len() - i,
    {
        assert(v@.subrange(0, i + 1).drop_last() =~= v@.subrange(0, i as int));
        let a = v[i];
        if matches!(a, TurnAction::Riichi { .. } | TurnAction::DealerOpeningRiichi { .. }) {
            r.push(a);
        }
        i = i + 1;
    }
    assert(v@.subrange(0, i as int) =~= v@);
    r
}

impl MirrorCore {
    /// Turn actions of a seat.
    fn turn_list(&self, seat: u8) -> (r: Vec<TurnAction>)
        requires
            has_shape(self@),
            turn_is_known(core_view(self@, seat)),
        ensures
            r@ == turn_actions(core_view(self@, seat)),
    {
        let view = self.mirror_view(seat);
        proof { lemma_few_opponents(self@, seat); }
        assert(view.others@.len() == view@.others.len());
        legal_turn_actions(&view)
    }

    fn no_melds(&self) -> (r: bool)
        ensures
            r == forall|i: int| 0 <= i < self@.players.len() ==> (#[trigger] self@.players[i]).melds.len() == 0,
    {
        let mut i: usize = 0;
        while i < self.players.len()
            invariant
                i <= self.players@.len(),
                forall|j: int| 0 <= j < i ==> (#[trigger] self@.players[j]).melds.len() == 0,
            decreases self.players@.len() - i,
        {
            assert(self@.players[i as int] == self.players@[i as int]@);
            if self.players[i].melds.len() > 0 {
                assert(self@.players[i as int].melds.len() > 0);
                return false;
            }
            i = i + 1;
        }
        true
    }

    fn meets_public_conditions(&self, actor: u8) -> (r: bool)
        requires
            actor < self@.players.len(),
            actor < self@.scores.len(),
        ensures
            r == may_declare(self@, actor),
    {
        let p = &self.players[actor as usize];
        assert(self@.players[actor as int] == p@);
        (p.drawn_tile.is_some() || (self.dealer_opening && actor == self.oya)) && melds_all_closed(&p.melds) && !p.riichi
            && self.scores[actor as usize] >= 1000
    }

    pub fn reach(&mut self, actor: u8) -> (r: Result<(), String>)
        requires
            is_sound(old(self)@),
            reach_known(old(self)@, actor),
        ensures
            stepped(r, final(self)@, reach_step(old(self)@, actor)),
    {
        match self.ensure_seat(actor) {
            Err(e) => return Err(e),
            Ok(_) => {},
        }
        if actor != self.turn || self.last_discard.is_some() || self.pending_robbery.is_some()
            || self.pending_reach.is_some() {
            return Err(owned("phase_error: reach outside a turn decision"));
        }
        let legal_discards: Vec<TurnAction> = if actor == self.me {
            let legal = only_riichi(&self.turn_list(actor));
            if legal.len() == 0 {
                return Err(owned("illegal_reach: no legal riichi discard exists"));
            }
            legal
        } else {
            if !self.meets_public_conditions(actor) {
                return Err(owned("illegal_reach: public prerequisites are not met"));
            }
            let none: Vec<TurnAction> = Vec::new();
            assert(none@ =~= Seq::empty());
            none
        };
        assert(self@.players[actor as int] == self.players@[actor as int]@);
        let double_riichi = self.no_melds() && self.players[actor as usize].discards.len() == 0;
        self.pending_reach = Some(PendingReach { actor, double_riichi, legal_discards });
        Ok(())
    }

    pub fn reach_accepted(&mut self, actor: u8) -> (r: Result<(), String>)
        requires
            is_sound(old(self)@),
            reach_accepted_step(old(self)@, actor) is Ok ==> old(self).kyotaku < 255,
        ensures
            stepped(r, final(self)@, reach_accepted_step(old(self)@, actor)),
    {
        match self.ensure_seat(actor) {
            Err(e) => return Err(e),
            Ok(_) => {},
        }
        let discarded = match self.last_discard {
            Some((from, _)) => from == actor,
            None => false,
        };
        if !self.is_declared_by(actor) || !discarded {
            return Err(owned("phase_error: reach_accepted without matching declaration discard"));
        }
        let score: i32 = self.scores[actor as usize];
        if score < 1000 {
            return Err(owned("illegal_reach_acceptance: score below 1000"));
        }
        self.scores.set(actor as usize, score - 1000);
        self.kyotaku = self.kyotaku + 1;
        self.pending_reach = None;
        Ok(())
    }

    pub fn dora(&mut self, dora_marker: Tile) -> (r: Result<(), String>)
        requires
            is_sound(old(self)@),
        ensures
            stepped(r, final(self)@, dora_step(old(self)@, dora_marker)),
    {
        match self.ensure_active() {
            Err(e) => return Err(e),
            Ok(_) => {},
        }
        if dora_marker.is_unknown() {
            return Err(owned("dora: public marker cannot be unknown"));
        }
        if self.dora_indicators.len() >= 5 {
            return Err(join3("dora: cannot reveal more than ", dec_usize(5).as_str(), " indicators"));
        }
        proof { lemma_reds_ok(self@); }
        match self.known_tiles.observe(dora_marker, self.seats, self.rule_profile) {
            Err(e) => Err(e),
            Ok(known) => {
                self.known_tiles = known;
                self.dora_indicators.push(dora_marker);
                Ok(())
            },
        }
    }

    // Results.

    fn apply_deltas(&mut self, deltas: Option<&[i32]>)
        requires
            deltas is Some ==> deltas->0@.len() == old(self)@.scores.len(),
            deltas_fit(old(self)@.scores, slice_view(deltas)),
        ensures
            final(self)@ == (MirrorFacts {
                scores: with_deltas(old(self)@.scores, slice_view(deltas)),
                ..old(self)@
            }),
    {
        match deltas {
            None => {},
            Some(d) => {
                let mut next: Vec<i32> = Vec::new();
                let ghost want = with_deltas(self@.scores, slice_view(deltas));
                let mut i: usize = 0;
                while i < self.scores.len()
                    invariant
                        i <= self.scores@.len(),
                        d@.len() == self.scores@.len(),
                        deltas_fit(self@.scores, Some(d@)),
                        want == with_deltas(self@.scores, Some(d@)),
                        next@ == want.subrange(0, i as int),
                    decreases self.scores@.len() - i,
                {
                    assert(i32::MIN <= self@.scores[i as int] + d@[i as int] <= i32::MAX);
                    next.push(self.scores[i] + d[i]);
                    assert(next@ =~= want.subrange(0, i + 1));
                    i = i + 1;
                }
                assert(next@ =~= want);
                self.scores = next;
            },
        }
    }

    #[verifier::rlimit(40)]
    pub fn ryukyoku(&mut self, deltas: Option<&[i32]>) -> (r: Result<(), String>)
        requires
            is_sound(old(self)@),
            deltas_fit(old(self)@.scores, slice_view(deltas)),
        ensures
            stepped(r, final(self)@, ryukyoku_step(old(self)@, slice_view(deltas))),
    {
        match self.ensure_active() {
            Err(e) => return Err(e),
            Ok(_) => {},
        }
        match deltas {
            Some(d) => {
                if d.len() != self.seats {
                    return Err(owned("ryukyoku: delta width does not match seat count"));
                }
            },
            None => {},
        }
        self.apply_deltas(deltas);
        self.commit_missed_ron_if_pending();
        match self.last_discard {
            Some((from, _)) => {
                self.turn = (from + 1) % self.seats as u8;
            },
            None => {},
        }
        self.last_discard = None;
        self.pending_robbery = None;
        self.terminal_packet = None;
        self.terminal = true;
        Ok(())
    }

    fn max_ron_winners(&self) -> (r: u8)
        requires
            is_sound(self@),
        ensures
            r == max_winners(self@),
    {
        match self.rule_profile.ron_resolution() {
            RonResolution::AtamaHane => 1,
            RonResolution::Multiple => (self.seats - 1) as u8,
            RonResolution::TripleRonAbortive => 2,
        }
    }

    fn validate_robbery_result(&self, kind: RobberyKind) -> (r: Result<(), String>)
        ensures
            match r {
                Ok(_) => robbery_fault(self@, kind) is None,
                Err(e) => robbery_fault(self@, kind) == Some(e@),
            },
    {
        match kind {
            RobberyKind::Kakan => Ok(()),
            RobberyKind::Ankan => if self.rule_profile.allows_kokushi_ankan_ron() {
                Ok(())
            } else {
                Err(owned("hora: current profile does not allow robbing an ankan"))
            },
            RobberyKind::Nukidora => if self.rule_profile.allows_nukidora_ron() {
                Ok(())
            } else {
                Err(owned("hora: current profile does not allow robbing nukidora"))
            },
        }
    }

    fn merge_ura_markers(&self, existing: &[Tile], incoming: Option<&[Tile]>) -> (r: Result<(Vec<Tile>, KnownTileInventory), String>)
        requires
            is_sound(self@),
            self.started,
        ensures
            match r {
                Ok((m, k)) => merged_ura(self@, existing@, tiles_view(incoming)) == Ok::<(Seq<Tile>, Seen), Seq<char>>(
                    (m@, k@),
                ),
                Err(e) => merged_ura(self@, existing@, tiles_view(incoming)) == Err::<(Seq<Tile>, Seen), Seq<char>>(e@),
            },
    {
        match incoming {
            None => Ok((clone_tiles(existing), self.known_tiles)),
            Some(markers) => {
                if markers.len() == 0 {
                    return Ok((clone_tiles(existing), self.known_tiles));
                }
                if existing.len() > 0 {
                    if !same_tiles(existing, markers) {
                        return Err(owned("hora: ura markers changed inside one result packet"));
                    }
                    return Ok((clone_tiles(existing), self.known_tiles));
                }
                proof { lemma_reds_ok(self@); }
                match self.known_tiles.observe_all(markers, self.seats, self.rule_profile) {
                    Err(e) => Err(e),
                    Ok(known) => Ok((clone_tiles(markers), known)),
                }
            },
        }
    }

    fn check_hora(&self, actor: u8, target: u8, deltas: Option<&[i32]>, ura: Option<&[Tile]>) -> (r: Result<(), String>)
        requires
            is_sound(self@),
        ensures
            match r {
                Ok(_) => hora_fault(self@, actor, target, slice_view(deltas), tiles_view(ura)) is None,
                Err(e) => hora_fault(self@, actor, target, slice_view(deltas), tiles_view(ura)) == Some(e@),
            },
    {
        if !self.started {
            return Err(owned("phase_error: hora before start_kyoku"));
        }
        match self.ensure_actor(actor) {
            Err(e) => return Err(e),
            Ok(_) => {},
        }
        match self.ensure_actor(target) {
            Err(e) => return Err(e),
            Ok(_) => {},
        }
        match deltas {
            Some(d) => {
                if d.len() != self.seats {
                    return Err(owned("hora: delta width does not match seat count"));
                }
            },
            None => {},
        }
        assert(self@.players[actor as int] == self.players@[actor as int]@);
        match ura {
            Some(markers) => {
                if markers.len() == 0 {
                    return Err(owned("hora: explicit ura marker list cannot be empty"));
                }
                if !self.players[actor as usize].riichi {
                    return Err(owned("hora: explicit ura markers require a riichi winner"));
                }
                if markers.len() != self.dora_indicators.len() {
                    let mut e = join3("hora: ura marker count ", dec_usize(markers.len()).as_str(), " does not match ");
                    e.append(dec_usize(self.dora_indicators.len()).as_str());
                    e.append(" visible dora indicators");
                    return Err(e);
                }
            },
            None => {},
        }
        if self.last_discard.is_some() && self.pending_robbery.is_some() {
            return Err(owned("hora: discard and robbery response windows overlap"));
        }
        Ok(())
    }

    fn window(&self) -> (r: Option<(u8, Option<RobberyKind>)>)
        ensures
            r == response_window(self@),
    {
        match self.last_discard {
            Some((source, _)) => Some((source, None)),
            None => match self.pending_robbery {
                Some(p) => Some((p.actor, Some(p.kind))),
                None => None,
            },
        }
    }

    /// A further winner of one ron.
    fn join_packet(&self, packet: &TerminalResultPacket, actor: u8, target: u8, ura: Option<&[Tile]>) -> (r: Result<(TerminalResultPacket, KnownTileInventory, bool), String>)
        requires
            is_sound(self@),
            self.started,
        ensures
            packet_made(r, joined_packet(self@, packet@, actor, target, tiles_view(ura))),
    {
        match packet {
            TerminalResultPacket::Tsumo { .. } => Err(owned("hora: no result may follow a tsumo packet")),
            TerminalResultPacket::Ron {
                source,
                robbery,
                winners,
                max_winners,
                self_ron_legal_at_open,
                ura_markers,
            } => {
                if actor == target {
                    return Err(owned("hora: tsumo cannot be mixed into a ron packet"));
                }
                if target != *source {
                    return Err(owned("hora: target changed inside one ron packet"));
                }
                if actor == *source {
                    return Err(owned("hora: ron source cannot also be a winner"));
                }
                if has_seat(winners, actor) {
                    return Err(owned("hora: duplicate winner inside one ron packet"));
                }
                if winners.len() >= *max_winners as usize {
                    return Err(
                        join2(
                            "hora: ron packet exceeds profile winner limit ",
                            dec_usize(*max_winners as usize).as_str(),
                        ),
                    );
                }
                if *max_winners != self.max_ron_winners() {
                    return Err(owned("hora: stored ron packet limit disagrees with profile"));
                }
                if actor == self.me && *self_ron_legal_at_open == Some(false) {
                    return Err(owned("hora: exact mirror proves self ron was illegal at response-window open"));
                }
                match self.merge_ura_markers(ura_markers.as_slice(), ura) {
                    Err(e) => Err(e),
                    Ok((markers, known)) => {
                        let mut all = clone_seats(winners);
                        all.push(actor);
                        Ok(
                            (
                                TerminalResultPacket::Ron {
                                    source: *source,
                                    robbery: *robbery,
                                    winners: all,
                                    max_winners: *max_winners,
                                    self_ron_legal_at_open: *self_ron_legal_at_open,
                                    ura_markers: markers,
                                },
                                known,
                                false,
                            ),
                        )
                    },
                }
            },
        }
    }

    fn wins_by_draw(&self, actor: u8) -> (r: bool)
        requires
            actor < self@.players.len(),
        ensures
            r == can_win_by_draw(self@, actor),
    {
        assert(self@.players[actor as int] == self.players@[actor as int]@);
        actor == self.turn && (self.players[actor as usize].drawn_tile.is_some() || (self.dealer_opening && actor == self.oya))
    }

    /// The first result of a hand.
    fn open_packet(&self, actor: u8, target: u8, ura: Option<&[Tile]>) -> (r: Result<(TerminalResultPacket, KnownTileInventory, bool), String>)
        requires
            is_sound(self@),
            self.started,
            actor < self.seats,
            target < self.seats,
            !self.terminal && self.quality == MirrorQuality::Exact ==> {
                &&& actor == target && actor == self.me && can_win_by_draw(self@, actor) && response_window(self@) is None
                    ==> turn_is_known(core_view(self@, actor))
                &&& actor != target && response_window(self@) is Some ==> reactions_are_known(core_view(self@, self.me))
            },
        ensures
            packet_made(r, first_packet(self@, actor, target, tiles_view(ura))),
    {
        if self.terminal {
            return Err(owned("phase_error: additional hora outside a result packet"));
        }
        let none: Vec<Tile> = Vec::new();
        assert(none@ =~= Seq::empty());
        let (markers, known) = match self.merge_ura_markers(none.as_slice(), ura) {
            Err(e) => return Err(e),
            Ok(x) => x,
        };
        let response = self.window();
        if actor == target {
            if response.is_some() {
                return Err(owned("hora: tsumo cannot occur during a response window"));
            }
            if !self.wins_by_draw(actor) {
                return Err(owned("hora: tsumo requires a draw or dealer opening window"));
            }
            if actor == self.me && self.quality == MirrorQuality::Exact && !has_action(
                &self.turn_list(actor),
                TurnAction::Tsumo,
            ) {
                return Err(owned("hora: exact mirror proves self tsumo is not a legal action"));
            }
            Ok((TerminalResultPacket::Tsumo { winner: actor, ura_markers: markers }, known, false))
        } else {
            self.open_ron(actor, target, response, markers, known)
        }
    }

    fn open_ron(&self, actor: u8, target: u8, response: Option<(u8, Option<RobberyKind>)>, markers: Vec<Tile>, known: KnownTileInventory) -> (r: Result<(TerminalResultPacket, KnownTileInventory, bool), String>)
        requires
            is_sound(self@),
            response == response_window(self@),
            self.quality == MirrorQuality::Exact && response is Some ==> reactions_are_known(core_view(self@, self.me)),
        ensures
            packet_made(r, ron_packet(self@, actor, target, markers@, known@)),
    {
        let (source, robbery) = match response {
            None => return Err(owned("hora: ron has no pending discard or robbery source")),
            Some(x) => x,
        };
        if target != source {
            return Err(owned("hora: target does not match the pending response source"));
        }
        if actor == source {
            return Err(owned("hora: ron source cannot also be a winner"));
        }
        match robbery {
            Some(kind) => match self.validate_robbery_result(kind) {
                Err(e) => return Err(e),
                Ok(_) => {},
            },
            None => {},
        }
        let legal: Option<bool> = if self.quality == MirrorQuality::Exact { Some(self.ron_is_legal(self.me)) } else { None };
        if actor == self.me && legal == Some(false) {
            return Err(owned("hora: exact mirror proves self ron is not a legal reaction"));
        }
        let winners: Vec<u8> = vec![actor];
        assert(winners@ =~= seq![actor]);
        Ok(
            (
                TerminalResultPacket::Ron {
                    source,
                    robbery,
                    winners,
                    max_winners: self.max_ron_winners(),
                    self_ron_legal_at_open: legal,
                    ura_markers: markers,
                },
                known,
                true,
            ),
        )
    }

    fn withdraw_reach(&mut self, target: u8)
        requires
            target < old(self)@.players.len(),
        ensures
            final(self)@ == reach_withdrawn(old(self)@, target),
    {
        if self.is_declared_by(target) {
            let mut p = self.copy_player(target);
            p.riichi = false;
            p.double_riichi = false;
            p.ippatsu = false;
            self.set_player(target, p);
            self.pending_reach = None;
        }
    }

    fn settle_win(&mut self, target: u8, deltas: Option<&[i32]>, packet: TerminalResultPacket, known: KnownTileInventory, closes: bool)
        requires
            target < old(self)@.players.len(),
            deltas is Some ==> deltas->0@.len() == old(self)@.scores.len(),
            deltas_fit(old(self)@.scores, slice_view(deltas)),
        ensures
            final(self)@ == won(old(self)@, target, slice_view(deltas), (packet@, known@, closes)),
    {
        self.withdraw_reach(target);
        self.apply_deltas(deltas);
        self.pending_missed_ron = false;
        if closes {
            self.pending_robbery = None;
        }
        self.known_tiles = known;
        self.terminal_packet = Some(packet);
        self.terminal = true;
    }

    pub fn hora(&mut self, actor: u8, target: u8, deltas: Option<&[i32]>, ura_markers: Option<&[Tile]>) -> (r: Result<(), String>)
        requires
            is_sound(old(self)@),
            hora_known(old(self)@, actor, target, slice_view(deltas), tiles_view(ura_markers)),
        ensures
            stepped(
                r,
                final(self)@,
                hora_step(old(self)@, actor, target, slice_view(deltas), tiles_view(ura_markers)),
            ),
    {
        match self.check_hora(actor, target, deltas, ura_markers) {
            Err(e) => return Err(e),
            Ok(_) => {},
        }
        let made = match &self.terminal_packet {
            Some(p) => self.join_packet(p, actor, target, ura_markers),
            None => self.open_packet(actor, target, ura_markers),
        };
        match made {
            Err(e) => Err(e),
            Ok((packet, known, closes)) => {
                self.settle_win(target, deltas, packet, known, closes);
                Ok(())
            },
        }
    }
}

pub open spec fn slice_view(d: Option<&[i32]>) -> Option<Seq<i32>> {
    match d {
        Some(x) => Some(x@),
        None => None,
    }
}

pub open spec fn tiles_view(d: Option<&[Tile]>) -> Option<Seq<Tile>> {
    match d {
        Some(x) => Some(x@),
        None => None,
    }
}

/// A packet was made, or refused.
spec fn packet_made(r: Result<(TerminalResultPacket, KnownTileInventory, bool), String>, want: Result<Packet, Seq<char>>) -> bool {
    match r {
        Ok((p, k, b)) => want == Ok::<Packet, Seq<char>>((p@, k@, b)),
        Err(e) => want == Err::<Packet, Seq<char>>(e@),
    }
}

fn same_tiles(a: &[Tile], b: &[Tile]) -> (r: bool)
    ensures
        r == (a@ == b@),
{
    if a.len() != b.len() {
        return false;
    }
    let mut i: usize = 0;
    while i < a.len()
        invariant
            i <= a.len(),
            a.len() == b.len(),
            forall|j: int| 0 <= j < i ==> a@[j] == b@[j],
        decreases a.len() - i,
    {
        if a[i] != b[i] {
            return false;
        }
        i = i + 1;
    }
    assert(a@ =~= b@);
    true
}

fn has_seat(v: &Vec<u8>, seat: u8) -> (r: bool)
    ensures
        r == v@.contains(seat),
{
    let mut i: usize = 0;
    while i < v.len()
        invariant
            i <= v.len(),
            forall|j: int| 0 <= j < i ==> v@[j] != seat,
        decreases v.len() - i,
    {
        if v[i] == seat {
            assert(v@.contains(seat));
            return true;
        }
        i = i + 1;
    }
    false
}

} // verus!
