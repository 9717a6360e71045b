//! Seat view: the state sent to one seat, which has no place to hold hidden tiles. Other hands
//! are counts, the wall is a remaining count, and ura dora do not exist before they are
//! revealed.

use vstd::prelude::*;
use crate::mahjong::meld::Meld;
use crate::mahjong::rules::RiichiRuleProfile;
use crate::mahjong::tile::Tile;
use crate::maintainer::action::PendingRobbery;

verus! {

/// Why a trustworthy seat view could not be built.
#[derive(Debug, Clone, Copy, PartialEq, Eq, Structural)]
pub enum SeatViewError {
    InvalidSeat { requested: u8, seats: u8 },
    MirrorNotStarted,
    MirrorDegraded,
    MirrorUnsafe,
}

/// Everything the seat can see about itself.
#[derive(Debug, PartialEq, Eq)]
pub struct SelfView {
    pub seat: u8,
    /// Own hand, red fives among it.
    pub hand: Vec<Tile>,
    /// A tile just drawn and not yet discarded, none when discarding after a call.
    pub drawn_tile: Option<Tile>,
    /// The dealer's 14-tile opening, in which no tile is a drawn one.
    pub dealer_opening: bool,
    pub melds: Vec<Meld>,
    /// Own discards in order.
    pub discards: Vec<Tile>,
    pub riichi: bool,
    /// Ippatsu still possible.
    pub ippatsu: bool,
    /// Kinds forbidden for the discard right after a call.
    pub kuikae_forbidden: Vec<usize>,
    /// Passed on a ron, until the seat's next discard.
    pub temporary_furiten: bool,
    /// Passed on a ron after riichi; no ron for the rest of the hand.
    pub riichi_furiten: bool,
}

/// What is visible about one opponent. There is no field for their hand.
#[derive(Debug, PartialEq, Eq)]
pub struct OpponentView {
    pub seat: u8,
    /// Number of tiles in the closed hand.
    pub hand_count: u8,
    pub melds: Vec<Meld>,
    pub discards: Vec<Tile>,
    pub riichi: bool,
}

/// View of the table sent to one seat.
#[derive(Debug, PartialEq, Eq)]
pub struct SeatView {
    /// Where this is set the view must not be used, and no action is legal.
    pub state_error: Option<SeatViewError>,
    /// The hand has ended. The view can still be shown, but no action is legal.
    pub round_terminal: bool,
    pub rule_profile: RiichiRuleProfile,
    /// Round wind.
    pub bakaze: Tile,
    /// Hand number (1-based), honba and riichi sticks.
    pub kyoku: u8,
    pub honba: u8,
    pub kyotaku: u8,
    /// Dealer seat.
    pub oya: u8,
    /// Scores in seat order.
    pub scores: Vec<i32>,
    pub dora_indicators: Vec<Tile>,
    /// Tiles left in the live wall.
    pub tiles_left: u32,
    pub me: SelfView,
    /// Opponents in seat order.
    pub others: Vec<OpponentView>,
    /// Seat whose turn it is.
    pub turn: u8,
    /// The latest discard and its discarder, for calls and ron.
    pub last_discard: Option<(u8, Tile)>,
    /// A declaration not yet followed by its replacement draw, open to ron alone.
    pub pending_robbery: Option<PendingRobbery>,
    /// After the first draw, with no calls, nukidora or kans before it.
    pub kyuushu_kyuuhai_window: bool,
    /// The fourth kan is complete and `last_discard` is the next discard of its player: only
    /// ron is possible, and without one the hand ends in a draw.
    pub suukaikan_pending: bool,
    /// Whether the last draw was a replacement draw.
    pub last_draw_was_rinshan: bool,
}

/// What a seat sees of itself.
pub struct OwnFacts {
    pub seat: u8,
    pub hand: Seq<Tile>,
    pub drawn_tile: Option<Tile>,
    pub dealer_opening: bool,
    pub melds: Seq<Meld>,
    pub discards: Seq<Tile>,
    pub riichi: bool,
    pub ippatsu: bool,
    pub kuikae_forbidden: Seq<usize>,
    pub temporary_furiten: bool,
    pub riichi_furiten: bool,
}

/// What is visible about an opponent.
pub struct OpponentFacts {
    pub seat: u8,
    pub hand_count: u8,
    pub melds: Seq<Meld>,
    pub discards: Seq<Tile>,
    pub riichi: bool,
}

/// What a view of the table says.
pub struct TableFacts {
    pub state_error: Option<SeatViewError>,
    pub round_terminal: bool,
    pub rule_profile: RiichiRuleProfile,
    pub bakaze: Tile,
    pub kyoku: u8,
    pub honba: u8,
    pub kyotaku: u8,
    pub oya: u8,
    pub scores: Seq<i32>,
    pub dora_indicators: Seq<Tile>,
    pub tiles_left: u32,
    pub me: OwnFacts,
    pub others: Seq<OpponentFacts>,
    pub turn: u8,
    pub last_discard: Option<(u8, Tile)>,
    pub pending_robbery: Option<PendingRobbery>,
    pub kyuushu_kyuuhai_window: bool,
    pub suukaikan_pending: bool,
    pub last_draw_was_rinshan: bool,
}

impl View for SelfView {
    type V = OwnFacts;

    open spec fn view(&self) -> OwnFacts {
        OwnFacts {
            seat: self.seat,
            hand: self.hand@,
            drawn_tile: self.drawn_tile,
            dealer_opening: self.dealer_opening,
            melds: self.melds@,
            discards: self.discards@,
            riichi: self.riichi,
            ippatsu: self.ippatsu,
            kuikae_forbidden: self.kuikae_forbidden@,
            temporary_furiten: self.temporary_furiten,
            riichi_furiten: self.riichi_furiten,
        }
    }
}

impl View for OpponentView {
    type V = OpponentFacts;

    open spec fn view(&self) -> OpponentFacts {
        OpponentFacts {
            seat: self.seat,
            hand_count: self.hand_count,
            melds: self.melds@,
            discards: self.discards@,
            riichi: self.riichi,
        }
    }
}

pub open spec fn opponent_facts(v: Seq<OpponentView>) -> Seq<OpponentFacts> {
    v.map_values(|o: OpponentView| o@)
}

impl View for SeatView {
    type V = TableFacts;

    open spec fn view(&self) -> TableFacts {
        TableFacts {
            state_error: self.state_error,
            round_terminal: self.round_terminal,
            rule_profile: self.rule_profile,
            bakaze: self.bakaze,
            kyoku: self.kyoku,
            honba: self.honba,
            kyotaku: self.kyotaku,
            oya: self.oya,
            scores: self.scores@,
            dora_indicators: self.dora_indicators@,
            tiles_left: self.tiles_left,
            me: self.me@,
            others: opponent_facts(self.others@),
            turn: self.turn,
            last_discard: self.last_discard,
            pending_robbery: self.pending_robbery,
            kyuushu_kyuuhai_window: self.kyuushu_kyuuhai_window,
            suukaikan_pending: self.suukaikan_pending,
            last_draw_was_rinshan: self.last_draw_was_rinshan,
        }
    }
}

impl TableFacts {
    /// The view holds an error, the rules and nothing else.
    pub open spec fn nothing(
        requested: u8,
        seats: u8,
        rule_profile: RiichiRuleProfile,
        error: SeatViewError,
    ) -> TableFacts {
        TableFacts {
            state_error: Some(error),
            round_terminal: true,
            rule_profile,
            bakaze: Tile::unknown(),
            kyoku: 0,
            honba: 0,
            kyotaku: 0,
            oya: 0,
            scores: Seq::new(seats as nat, |i: int| 0i32),
            dora_indicators: Seq::empty(),
            tiles_left: 0,
            me: OwnFacts {
                seat: requested,
                hand: Seq::empty(),
                drawn_tile: None,
                dealer_opening: false,
                melds: Seq::empty(),
                discards: Seq::empty(),
                riichi: false,
                ippatsu: false,
                kuikae_forbidden: Seq::empty(),
                temporary_furiten: false,
                riichi_furiten: false,
            },
            others: Seq::empty(),
            turn: 0,
            last_discard: None,
            pending_robbery: None,
            kyuushu_kyuuhai_window: false,
            suukaikan_pending: false,
            last_draw_was_rinshan: false,
        }
    }

    pub open spec fn is_valid(self) -> bool {
        self.state_error is None
    }

    /// The view can be acted on.
    pub open spec fn is_live(self) -> bool {
        self.is_valid() && !self.round_terminal
    }

    /// Whether the table has three seats.
    pub open spec fn is_sanma(self) -> bool {
        self.others.len() + 1 == 3
    }
}

fn zeros(n: usize) -> (v: Vec<i32>)
    ensures
        v@ == Seq::new(n as nat, |i: int| 0i32),
{
    let mut v: Vec<i32> = Vec::new();
    let mut i: usize = 0;
    while i < n
        invariant
            i <= n,
            v@ == Seq::new(i as nat, |j: int| 0i32),
        decreases n - i,
    {
        v.push(0);
        assert(v@ =~= Seq::new((i + 1) as nat, |j: int| 0i32));
        i = i + 1;
    }
    v
}

impl SeatView {
    /// A view that carries no game state and allows no action.
    pub fn invalid(requested: u8, seats: u8, rule_profile: RiichiRuleProfile, error: SeatViewError) -> (r: Self)
        ensures
            r@ == TableFacts::nothing(requested, seats, rule_profile, error),
    {
        let r = SeatView {
            state_error: Some(error),
            round_terminal: true,
            rule_profile,
            bakaze: Tile::unknown(),
            kyoku: 0,
            honba: 0,
            kyotaku: 0,
            oya: 0,
            scores: zeros(seats as usize),
            dora_indicators: Vec::new(),
            tiles_left: 0,
            me: SelfView {
                seat: requested,
                hand: Vec::new(),
                drawn_tile: None,
                dealer_opening: false,
                melds: Vec::new(),
                discards: Vec::new(),
                riichi: false,
                ippatsu: false,
                kuikae_forbidden: Vec::new(),
                temporary_furiten: false,
                riichi_furiten: false,
            },
            others: Vec::new(),
            turn: 0,
            last_discard: None,
            pending_robbery: None,
            kyuushu_kyuuhai_window: false,
            suukaikan_pending: false,
            last_draw_was_rinshan: false,
        };
        assert(r.dora_indicators@ =~= Seq::empty());
        assert(r.me.hand@ =~= Seq::empty());
        assert(r.me.melds@ =~= Seq::empty());
        assert(r.me.discards@ =~= Seq::empty());
        assert(r.me.kuikae_forbidden@ =~= Seq::empty());
        assert(opponent_facts(r.others@) =~= Seq::empty());
        r
    }

    pub open spec fn spec_is_valid(&self) -> bool {
        self.state_error is None
    }

    #[verifier::when_used_as_spec(spec_is_valid)]
    pub fn is_valid(&self) -> (r: bool)
        ensures
            r == self.is_valid(),
    {
        self.state_error.is_none()
    }

    /// Opponents' hands have no field here, so there is nothing to check of them; an own hand
    /// holds at most 14 tiles.
    pub fn assert_no_hidden_truth(&self)
        requires
            self.me.hand@.len() <= 14,
    {
    }
}

} // verus!
