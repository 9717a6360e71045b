//! Tiles.
//!
//! `Tile` covers 34 base kinds, 3 red fives and the unknown tile. Which tiles exist in a
//! variant is a property of the wall, not of this type.
//!
//! ```text
//!  0..=8   1m..9m       9..=17  1p..9p      18..=26 1s..9s
//! 27 E  28 S  29 W  30 N      31 P(haku) 32 F(hatsu) 33 C(chun)
//! 34 5mr   35 5pr   36 5sr    37 unknown
//! ```

use vstd::prelude::*;
use vstd::string::*;
use crate::text::{dec, dec_usize, digit_char, join2, owned, same};

verus! {

#[derive(Debug, Clone, Copy, PartialEq, Eq, Hash, Structural)]
pub enum Suit {
    Man,
    Pin,
    Sou,
    Honor,
}

impl Suit {
    /// Position of the suit in the order man, pin, sou, honor.
    pub open spec fn spec_index(self) -> usize {
        match self {
            Suit::Man => 0,
            Suit::Pin => 1,
            Suit::Sou => 2,
            Suit::Honor => 3,
        }
    }

    #[verifier::when_used_as_spec(spec_index)]
    pub fn index(self) -> (r: usize)
        ensures
            r == self.index(),
    {
        match self {
            Suit::Man => 0,
            Suit::Pin => 1,
            Suit::Sou => 2,
            Suit::Honor => 3,
        }
    }
}

/// A single tile, red fives distinguished: an ID in `0..=37`, 37 being the unknown tile.
#[derive(Debug, Clone, Copy, PartialEq, Eq, Hash, Structural)]
pub struct Tile(pub(crate) u8);

pub const NUM_KINDS: usize = 34;
/// Number of tile IDs with red fives, without the unknown tile.
pub const NUM_IDS: usize = 37;
/// ID of the unknown tile, used for hidden tiles in seat views.
pub const UNKNOWN_ID: u8 = 37;

#[derive(Debug)]
pub enum InvalidTile {
    Id(usize),
    Name(String),
}

/// How std's `Debug` writes a string: between double quotes, with escapes.
pub uninterp spec fn quoted(s: Seq<char>) -> Seq<char>;

/// std's `Debug` formatting of `str`, taken as a function of the characters.
#[verifier::external_body]
pub(crate) fn quote(s: &str) -> (r: String)
    ensures
        r@ == quoted(s@),
{
    format!("{:?}", s)
}

impl InvalidTile {
    pub open spec fn spec_message(self) -> Seq<char> {
        match self {
            InvalidTile::Id(id) => "invalid tile id "@ + dec(id as nat),
            InvalidTile::Name(s) => "invalid tile name "@ + quoted(s@),
        }
    }

    /// The error in words.
    pub fn message(&self) -> (r: String)
        ensures
            r@ == self.spec_message(),
    {
        match self {
            InvalidTile::Id(id) => join2("invalid tile id ", dec_usize(*id).as_str()),
            InvalidTile::Name(s) => join2("invalid tile name ", quote(s.as_str()).as_str()),
        }
    }
}

/// Letter of a number suit.
pub open spec fn suit_char(i: int) -> char {
    if i == 0 { 'm' } else if i == 1 { 'p' } else { 's' }
}

/// Letter of an honor, `0..=6`.
pub open spec fn honor_char(i: int) -> char {
    if i == 0 { 'E' } else if i == 1 { 'S' } else if i == 2 { 'W' } else if i == 3 { 'N' }
    else if i == 4 { 'P' } else if i == 5 { 'F' } else { 'C' }
}

/// Written name of a tile ID: rank and suit letter, an honor's letter, a five with `r`
/// behind it for a red five, a question mark for the unknown tile.
pub open spec fn id_name(id: int) -> Seq<char> {
    if id < 27 {
        seq![digit_char(id % 9 + 1), suit_char(id / 9)]
    } else if id < 34 {
        seq![honor_char(id - 27)]
    } else if id < 37 {
        seq!['5', suit_char(id - 34), 'r']
    } else {
        seq!['?']
    }
}

impl Tile {
    #[verifier::type_invariant]
    pub open(crate) spec fn wf(self) -> bool {
        self.0 <= 37
    }

    pub open(crate) spec fn spec_id(self) -> u8 {
        self.0
    }

    /// Raw ID, red-five IDs `34..=36` among them.
    #[verifier::when_used_as_spec(spec_id)]
    pub fn id(self) -> (r: u8)
        ensures
            r == self.id(),
            r <= 37,
    {
        proof { use_type_invariant(self); }
        self.0
    }

    pub open(crate) spec fn spec_unknown() -> Tile {
        Tile(37)
    }

    #[verifier::when_used_as_spec(spec_unknown)]
    pub fn unknown() -> (r: Self)
        ensures
            r == Tile::unknown(),
            r.id() == UNKNOWN_ID,
    {
        Tile(UNKNOWN_ID)
    }

    pub open spec fn spec_is_unknown(self) -> bool {
        self.id() == 37
    }

    /// A tile of one of the 34 base kinds.
    pub open spec fn is_known(self) -> bool {
        self.kind() < 34
    }

    #[verifier::when_used_as_spec(spec_is_unknown)]
    pub fn is_unknown(self) -> (r: bool)
        ensures
            r == self.is_unknown(),
            r == !self.is_known(),
    {
        proof { use_type_invariant(self); }
        self.0 == UNKNOWN_ID
    }

    /// The tile with the given ID.
    pub open(crate) spec fn of(id: int) -> Tile {
        Tile(id as u8)
    }

    /// Builds a tile from an ID in `0..=37`.
    pub fn from_id(id: u8) -> (r: Result<Self, InvalidTile>)
        ensures
            id <= 37 ==> r == Ok::<Tile, InvalidTile>(Tile::of(id as int)),
            id > 37 ==> r == Err::<Tile, InvalidTile>(InvalidTile::Id(id as usize)),
    {
        if (id as usize) <= NUM_IDS {
            Ok(Tile(id))
        } else {
            Err(InvalidTile::Id(id as usize))
        }
    }

    /// Builds a tile from an ID that is known to be one.
    pub fn from_id_unchecked(id: u8) -> (r: Self)
        requires
            id <= 37,
        ensures
            r == Tile::of(id as int),
            r.id() == id,
    {
        Tile(id)
    }

    /// Builds a number tile from a suit and a 1-based rank.
    pub fn number(suit: Suit, n: u8) -> (r: Result<Self, InvalidTile>)
        ensures
            suit != Suit::Honor && 1 <= n <= 9 ==> r == Ok::<Tile, InvalidTile>(
                Tile::of(9 * suit.index() + n - 1),
            ),
            !(suit != Suit::Honor && 1 <= n <= 9) ==> r == Err::<Tile, InvalidTile>(
                InvalidTile::Id((suit.index() * 100 + n) as usize),
            ),
    {
        let ranked = 1 <= n && n <= 9;
        match suit {
            Suit::Man if ranked => Ok(Tile(n - 1)),
            Suit::Pin if ranked => Ok(Tile(9 + n - 1)),
            Suit::Sou if ranked => Ok(Tile(18 + n - 1)),
            _ => Err(InvalidTile::Id(suit.index() * 100 + n as usize)),
        }
    }

    /// Builds an honor tile from `0..=6` (E S W N P F C).
    pub fn honor(idx: u8) -> (r: Result<Self, InvalidTile>)
        ensures
            idx < 7 ==> r == Ok::<Tile, InvalidTile>(Tile::of(27 + idx)),
            idx >= 7 ==> r == Err::<Tile, InvalidTile>(InvalidTile::Id((27 + idx) as usize)),
    {
        if idx < 7 {
            Ok(Tile(27 + idx))
        } else {
            Err(InvalidTile::Id(27 + idx as usize))
        }
    }

    pub open(crate) spec fn spec_deaka(self) -> Tile {
        if self.0 == 34 { Tile(4) } else if self.0 == 35 { Tile(13) } else if self.0 == 36 { Tile(22) } else { self }
    }

    /// Folds a red five back to the plain five.
    #[verifier::when_used_as_spec(spec_deaka)]
    pub fn deaka(self) -> (r: Self)
        ensures
            r == self.deaka(),
    {
        match self.0 {
            34 => Tile(4),
            35 => Tile(13),
            36 => Tile(22),
            _ => self,
        }
    }

    pub open(crate) spec fn spec_akaize(self) -> Tile {
        if self.0 == 4 { Tile(34) } else if self.0 == 13 { Tile(35) } else if self.0 == 22 { Tile(36) } else { self }
    }

    /// Turns a plain five into its red five; other tiles are returned unchanged.
    #[verifier::when_used_as_spec(spec_akaize)]
    pub fn akaize(self) -> (r: Self)
        ensures
            r == self.akaize(),
    {
        match self.0 {
            4 => Tile(34),
            13 => Tile(35),
            22 => Tile(36),
            _ => self,
        }
    }

    pub open spec fn spec_is_aka(self) -> bool {
        34 <= self.id() <= 36
    }

    #[verifier::when_used_as_spec(spec_is_aka)]
    pub fn is_aka(self) -> (r: bool)
        ensures
            r == self.is_aka(),
    {
        matches!(self.0, 34 | 35 | 36)
    }

    pub open spec fn spec_kind(self) -> usize {
        self.deaka().id() as usize
    }

    /// Base kind `0..=33` after folding red fives; 37 for the unknown tile.
    #[verifier::when_used_as_spec(spec_kind)]
    pub fn kind(self) -> (r: usize)
        ensures
            r == self.kind(),
            r < 34 || r == 37,
            self.is_known() <==> !self.is_unknown(),
    {
        proof { use_type_invariant(self); }
        self.deaka().0 as usize
    }

    pub open spec fn spec_suit(self) -> Suit {
        if self.kind() < 9 { Suit::Man } else if self.kind() < 18 { Suit::Pin }
        else if self.kind() < 27 { Suit::Sou } else { Suit::Honor }
    }

    #[verifier::when_used_as_spec(spec_suit)]
    pub fn suit(self) -> (r: Suit)
        ensures
            r == self.suit(),
    {
        match self.deaka().0 {
            0..=8 => Suit::Man,
            9..=17 => Suit::Pin,
            18..=26 => Suit::Sou,
            _ => Suit::Honor,
        }
    }

    pub open spec fn spec_rank(self) -> Option<u8> {
        if self.kind() < 27 { Some((self.kind() % 9 + 1) as u8) } else { None }
    }

    /// Rank `1..=9` of a number tile.
    #[verifier::when_used_as_spec(spec_rank)]
    pub fn rank(self) -> (r: Option<u8>)
        ensures
            r == self.rank(),
    {
        let k: u8 = self.deaka().0;
        match k {
            0..=8 => Some(k + 1),
            9..=17 => Some(k - 9 + 1),
            18..=26 => Some(k - 18 + 1),
            _ => None,
        }
    }

    pub open spec fn spec_honor_idx(self) -> Option<u8> {
        if 27 <= self.kind() < 34 { Some((self.kind() - 27) as u8) } else { None }
    }

    /// Honor index `0..=6` (E S W N P F C).
    #[verifier::when_used_as_spec(spec_honor_idx)]
    pub fn honor_idx(self) -> (r: Option<u8>)
        ensures
            r == self.honor_idx(),
    {
        let k: u8 = self.deaka().0;
        if k >= 27 && k <= 33 {
            Some(k - 27)
        } else {
            None
        }
    }

    pub open spec fn spec_is_honor(self) -> bool {
        27 <= self.kind() < 34
    }

    #[verifier::when_used_as_spec(spec_is_honor)]
    pub fn is_honor(self) -> (r: bool)
        ensures
            r == self.is_honor(),
    {
        matches!(self.deaka().0, 27..=33)
    }

    pub open(crate) spec fn spec_dora_from_indicator(self) -> Tile {
        let k = self.kind() as int;
        if k < 27 {
            Tile::of(k / 9 * 9 + (k % 9 + 1) % 9)
        } else if k < 31 {
            Tile::of(27 + (k - 27 + 1) % 4)
        } else if k < 34 {
            Tile::of(31 + (k - 31 + 1) % 3)
        } else {
            self
        }
    }

    /// Dora from indicator: numbers go round within a suit, winds and dragons within their group.
    #[verifier::when_used_as_spec(spec_dora_from_indicator)]
    pub fn dora_from_indicator(self) -> (r: Self)
        ensures
            r == self.dora_from_indicator(),
    {
        let k: u8 = self.deaka().0;
        match k {
            0..=8 => Tile(if k == 8 { 0 } else { k + 1 }),
            9..=17 => Tile(if k == 17 { 9 } else { k + 1 }),
            18..=26 => Tile(if k == 26 { 18 } else { k + 1 }),
            27..=30 => Tile(if k == 30 { 27 } else { k + 1 }),
            31..=33 => Tile(if k == 33 { 31 } else { k + 1 }),
            _ => self,
        }
    }

    pub open(crate) spec fn spec_dora_from_indicator_3p(self) -> Tile {
        if self.kind() == 0 { Tile(8) } else if self.kind() == 8 { Tile(0) } else { self.dora_from_indicator() }
    }

    /// Three-player dora from indicator: 1m and 9m point to each other.
    #[verifier::when_used_as_spec(spec_dora_from_indicator_3p)]
    pub fn dora_from_indicator_3p(self) -> (r: Self)
        ensures
            r == self.dora_from_indicator_3p(),
    {
        match self.deaka().0 {
            0 => Tile(8),
            8 => Tile(0),
            _ => self.dora_from_indicator(),
        }
    }

    pub open spec fn spec_is_dragon(self) -> bool {
        31 <= self.kind() < 34
    }

    #[verifier::when_used_as_spec(spec_is_dragon)]
    pub fn is_dragon(self) -> (r: bool)
        ensures
            r == self.is_dragon(),
    {
        matches!(self.deaka().0, 31..=33)
    }

    pub open spec fn spec_is_wind(self) -> bool {
        27 <= self.kind() < 31
    }

    #[verifier::when_used_as_spec(spec_is_wind)]
    pub fn is_wind(self) -> (r: bool)
        ensures
            r == self.is_wind(),
    {
        matches!(self.deaka().0, 27..=30)
    }

    pub open spec fn spec_is_terminal(self) -> bool {
        self.kind() < 27 && (self.kind() % 9 == 0 || self.kind() % 9 == 8)
    }

    /// A number tile of rank 1 or 9.
    #[verifier::when_used_as_spec(spec_is_terminal)]
    pub fn is_terminal(self) -> (r: bool)
        ensures
            r == self.is_terminal(),
    {
        matches!(self.deaka().0, 0 | 8 | 9 | 17 | 18 | 26)
    }

    pub open spec fn spec_is_yaochuu(self) -> bool {
        self.is_terminal() || self.is_honor()
    }

    /// Terminal or honor.
    #[verifier::when_used_as_spec(spec_is_yaochuu)]
    pub fn is_yaochuu(self) -> (r: bool)
        ensures
            r == self.is_yaochuu(),
    {
        self.is_terminal() || self.is_honor()
    }

    pub open spec fn spec_succ_in_suit(self) -> Option<Tile> {
        if self.kind() < 27 && self.kind() % 9 != 8 { Some(Tile::of(self.kind() + 1)) } else { None }
    }

    /// Next tile of the same suit, none behind a 9 or for an honor.
    #[verifier::when_used_as_spec(spec_succ_in_suit)]
    pub fn succ_in_suit(self) -> (r: Option<Self>)
        ensures
            r == self.succ_in_suit(),
    {
        let k: u8 = self.deaka().0;
        match k {
            0..=7 | 9..=16 | 18..=25 => Some(Tile(k + 1)),
            _ => None,
        }
    }

    pub open spec fn spec_name(self) -> Seq<char> {
        id_name(self.id() as int)
    }

    /// The written name of the tile.
    pub fn as_str(self) -> (r: &'static str)
        ensures
            r@ == self.spec_name(),
    {
        proof { use_type_invariant(self); }
        id_str(self.0)
    }

    /// Reads a tile from its written name.
    pub fn from_name(s: &str) -> (r: Result<Self, InvalidTile>)
        ensures
            match r {
                Ok(t) => t.spec_name() == s@,
                Err(InvalidTile::Name(n)) => n@ == s@ && forall|id: int|
                    0 <= id <= 37 ==> #[trigger] id_name(id) != s@,
                Err(_) => false,
            },
            forall|t: Tile| t.id() <= 37 && #[trigger] t.spec_name() == s@ ==> r == Ok::<Tile, InvalidTile>(t),
    {
        let mut i: u8 = 0;
        while i <= UNKNOWN_ID
            invariant
                i <= 38,
                forall|id: int| 0 <= id < i ==> #[trigger] id_name(id) != s@,
            decreases 38 - i,
        {
            if same(id_str(i), s) {
                proof {
                    assert forall|t: Tile| t.id() <= 37 && #[trigger] t.spec_name() == s@ implies t == Tile(i) by {
                        lemma_id_name_injective(t.id() as int, i as int);
                    }
                }
                return Ok(Tile(i));
            }
            i = i + 1;
        }
        Err(InvalidTile::Name(owned(s)))
    }
}

/// Name of a tile ID.
fn id_str(id: u8) -> (r: &'static str)
    requires
        id <= 37,
    ensures
        r@ == id_name(id as int),
{
    proof {
        reveal_strlit("1m"); reveal_strlit("2m"); reveal_strlit("3m"); reveal_strlit("4m"); reveal_strlit("5m");
        reveal_strlit("6m"); reveal_strlit("7m"); reveal_strlit("8m"); reveal_strlit("9m");
        reveal_strlit("1p"); reveal_strlit("2p"); reveal_strlit("3p"); reveal_strlit("4p"); reveal_strlit("5p");
        reveal_strlit("6p"); reveal_strlit("7p"); reveal_strlit("8p"); reveal_strlit("9p");
        reveal_strlit("1s"); reveal_strlit("2s"); reveal_strlit("3s"); reveal_strlit("4s"); reveal_strlit("5s");
        reveal_strlit("6s"); reveal_strlit("7s"); reveal_strlit("8s"); reveal_strlit("9s");
        reveal_strlit("E"); reveal_strlit("S"); reveal_strlit("W"); reveal_strlit("N"); reveal_strlit("P");
        reveal_strlit("F"); reveal_strlit("C"); reveal_strlit("5mr"); reveal_strlit("5pr"); reveal_strlit("5sr");
        reveal_strlit("?");
    }
    let r: &'static str = match id {
        0 => "1m", 1 => "2m", 2 => "3m", 3 => "4m", 4 => "5m", 5 => "6m", 6 => "7m", 7 => "8m", 8 => "9m",
        9 => "1p", 10 => "2p", 11 => "3p", 12 => "4p", 13 => "5p", 14 => "6p", 15 => "7p", 16 => "8p", 17 => "9p",
        18 => "1s", 19 => "2s", 20 => "3s", 21 => "4s", 22 => "5s", 23 => "6s", 24 => "7s", 25 => "8s", 26 => "9s",
        27 => "E", 28 => "S", 29 => "W", 30 => "N", 31 => "P", 32 => "F", 33 => "C",
        34 => "5mr", 35 => "5pr", 36 => "5sr",
        _ => "?",
    };
    assert(r@ =~= id_name(id as int));
    r
}

/// Two tile IDs with the same name are the same.
pub proof fn lemma_id_name_injective(a: int, b: int)
    requires
        0 <= a <= 37,
        0 <= b <= 37,
        id_name(a) == id_name(b),
    ensures
        a == b,
{
    let x = id_name(a);
    let y = id_name(b);
    assert(x.len() == y.len());
    assert(x[0] == y[0]);
    if x.len() >= 2 {
        assert(x[1] == y[1]);
    }
    if x.len() == 2 {
        assert(digit_char(a % 9 + 1) == digit_char(b % 9 + 1));
        assert(suit_char(a / 9) == suit_char(b / 9));
        assert(a % 9 == b % 9);
        assert(a / 9 == b / 9);
    }
}

/// Every tile is written and read back unchanged: its name names no other tile.
pub proof fn name_determines_tile(t: Tile, u: Tile)
    requires
        t.id() <= 37,
        u.id() <= 37,
        t.spec_name() == u.spec_name(),
    ensures
        t == u,
{
    lemma_id_name_injective(t.id() as int, u.id() as int);
}

/// Folding and reddening undo each other on fives, and folding is idempotent.
pub proof fn aka_laws(t: Tile)
    requires
        t.id() <= 37,
    ensures
        t.deaka().deaka() == t.deaka(),
        t.akaize().deaka() == t.deaka(),
        t.is_aka() ==> t.deaka().akaize() == t,
        t.akaize().is_aka() <==> t.rank() == Some(5u8),
        t.akaize().kind() == t.kind(),
        !t.deaka().is_aka(),
{
}

/// The tile reached from an indicator by indicating `n` times.
pub open spec fn dora_steps(t: Tile, n: nat) -> Tile
    decreases n,
{
    if n == 0 { t.deaka() } else { dora_steps(t, (n - 1) as nat).dora_from_indicator() }
}

/// Indicating goes one rank up within a suit, and from nine to one.
#[verifier::spinoff_prover]
proof fn lemma_dora_next(suit: int, rank: int)
    requires
        0 <= suit < 3,
        0 <= rank < 9,
    ensures
        Tile::of(suit * 9 + rank).kind() == suit * 9 + rank,
        Tile::of(suit * 9 + rank).dora_from_indicator() == Tile::of(suit * 9 + if rank == 8 { 0int } else { rank + 1 }),
{
}

#[verifier::spinoff_prover]
proof fn lemma_dora_steps_number(t: Tile, n: nat)
    requires
        t.kind() < 27,
    ensures
        dora_steps(t, n) == Tile::of(t.kind() / 9 * 9 + (t.kind() % 9 + n) % 9),
    decreases n,
{
    let suit = (t.kind() / 9) as int;
    let r = (t.kind() % 9) as int;
    if n == 0 {
        assert((r + 0) % 9 == r);
    } else {
        lemma_dora_steps_number(t, (n - 1) as nat);
        let a = (r + n - 1) % 9;
        lemma_dora_next(suit, a);
        assert((r + n) % 9 == if a == 8 { 0int } else { a + 1 });
    }
}

/// Indicating stays within a suit, never stands still, and sees a red five as a plain one.
pub proof fn dora_from_indicator_laws(t: Tile)
    requires
        t.id() < 37,
    ensures
        t.deaka().dora_from_indicator() == t.dora_from_indicator(),
        t.dora_from_indicator().suit() == t.suit(),
        !t.dora_from_indicator().is_aka(),
        t.dora_from_indicator() != t.deaka(),
{
}

/// Dora indication goes round: nine steps return a number tile.
pub proof fn number_dora_cycle(t: Tile)
    requires
        t.rank() is Some,
    ensures
        dora_steps(t, 9) == t.deaka(),
{
    lemma_dora_steps_number(t, 9);
}

/// Dora indication goes round: four steps return a wind, three a dragon.
pub proof fn honor_dora_cycle(t: Tile)
    ensures
        t.is_wind() ==> dora_steps(t, 4) == t,
        t.is_dragon() ==> dora_steps(t, 3) == t,
{
    reveal_with_fuel(dora_steps, 5);
}

/// In the three-player game 1m and 9m indicate each other.
pub proof fn sanma_terminal_dora_cycle(t: Tile)
    requires
        t.kind() == 0 || t.kind() == 8,
    ensures
        t.dora_from_indicator_3p().dora_from_indicator_3p() == t,
        t.dora_from_indicator_3p() != t,
{
}

/// Two different kinds never indicate the same dora.
pub proof fn dora_from_indicator_injective(t: Tile, u: Tile)
    requires
        t.id() < 37,
        u.id() < 37,
        t.dora_from_indicator() == u.dora_from_indicator(),
    ensures
        t.kind() == u.kind(),
{
}

impl Default for Tile {
    /// Hidden tiles in a view are unknown by default.
    fn default() -> (r: Self)
        ensures
            r == Tile::unknown(),
    {
        Self::unknown()
    }
}

impl core::str::FromStr for Tile {
    type Err = InvalidTile;

    fn from_str(s: &str) -> Result<Self, InvalidTile> {
        Tile::from_name(s)
    }
}

} // verus!
