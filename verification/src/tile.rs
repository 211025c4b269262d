//! Tiles: one grid cell's height together with an optional prefab.

use crate::error::ParseErrorType;
use crate::text::{as_chars, push_char, push_signed_decimal, signed_decimal};
use vstd::prelude::*;
use vstd::string::StringExecFns;

verus! {

/// The lowest height a tile can have.
pub const MIN_HEIGHT: i8 = -50;

/// The greatest height a tile can have.
pub const MAX_HEIGHT: i8 = 50;

/// Whether `height` is one a tile can carry.
pub open spec fn height_in_range(height: int) -> bool {
    MIN_HEIGHT <= height <= MAX_HEIGHT
}

/// A prefab is a spawning option for a tile.
/// There can only be one prefab per tile.
#[derive(Clone, Copy, Debug, PartialEq, Eq, Structural)]
pub enum Prefab {
    /// Will spawn a projectile enemy on the tile
    Projectile,
    /// Will spawn a melee enemy on the tile
    Melee,
    /// Will spawn a Hideous Mass on the tile
    HideousMass,
    /// Will place a jump pad on the tile
    JumpPad,
    /// Will place stairs on the tile
    Stairs,
    /// Will not place or spawn anything on the tile.
    /// This is what `Tile::default()` and `CyberGrindPattern::new()` use.
    Empty,
}

impl Prefab {
    /// The number a prefab is known by: 0 for no prefab, then melee,
    /// projectile, hideous mass, jump pad and stairs.
    pub open spec fn spec_number(self) -> u8 {
        match self {
            Prefab::Empty => 0,
            Prefab::Melee => 1,
            Prefab::Projectile => 2,
            Prefab::HideousMass => 3,
            Prefab::JumpPad => 4,
            Prefab::Stairs => 5,
        }
    }

    /// The byte that stands for a prefab in a pattern file: the ASCII code of
    /// `0`, `n`, `p`, `H`, `s` or `J`.
    pub open spec fn spec_symbol(self) -> u8 {
        match self {
            Prefab::Empty => 48,
            Prefab::Melee => 110,
            Prefab::Projectile => 112,
            Prefab::HideousMass => 72,
            Prefab::Stairs => 115,
            Prefab::JumpPad => 74,
        }
    }

    /// The prefab that a byte of a pattern file stands for, if any.
    pub open spec fn spec_from_symbol(byte: u8) -> Option<Prefab> {
        if byte == 48 {
            Some(Prefab::Empty)
        } else if byte == 110 {
            Some(Prefab::Melee)
        } else if byte == 112 {
            Some(Prefab::Projectile)
        } else if byte == 72 {
            Some(Prefab::HideousMass)
        } else if byte == 74 {
            Some(Prefab::JumpPad)
        } else if byte == 115 {
            Some(Prefab::Stairs)
        } else {
            None
        }
    }

    /// The letter that a prefab is shown by in the label of a tile.
    pub open spec fn spec_letter(self) -> char {
        match self {
            Prefab::HideousMass => 'M',
            Prefab::Projectile => 'p',
            Prefab::Melee => 'm',
            Prefab::Stairs => 's',
            Prefab::JumpPad => 'j',
            Prefab::Empty => ' ',
        }
    }

    /// The letter that this prefab is shown by in the label of a tile.
    pub fn letter(self) -> (letter: char)
        ensures
            letter == self.spec_letter(),
    {
        match self {
            Prefab::HideousMass => 'M',
            Prefab::Projectile => 'p',
            Prefab::Melee => 'm',
            Prefab::Stairs => 's',
            Prefab::JumpPad => 'j',
            Prefab::Empty => ' ',
        }
    }

    /// The byte that stands for this prefab in a pattern file:
    /// `0`, `n`, `p`, `H`, `s` or `J`.
    pub fn symbol(self) -> (byte: u8)
        ensures
            byte == self.spec_symbol(),
    {
        match self {
            Prefab::Empty => 48,
            Prefab::Melee => 110,
            Prefab::Projectile => 112,
            Prefab::HideousMass => 72,
            Prefab::Stairs => 115,
            Prefab::JumpPad => 74,
        }
    }

    /// Every prefab is read back from the byte that stands for it, and a
    /// byte that stands for a prefab is the one written for it.
    pub proof fn lemma_symbol_round_trip(prefab: Prefab, byte: u8)
        ensures
            Prefab::spec_from_symbol(prefab.spec_symbol()) == Some(prefab),
            Prefab::spec_from_symbol(byte) == Some(prefab) ==> byte == prefab.spec_symbol(),
    {
    }
}

impl Default for Prefab {
    fn default() -> (prefab: Prefab)
        ensures
            prefab == Prefab::Empty,
    {
        Prefab::Empty
    }
}

impl vstd::std_specs::convert::FromSpecImpl<Prefab> for u8 {
    open spec fn obeys_from_spec() -> bool {
        true
    }

    open spec fn from_spec(prefab: Prefab) -> u8 {
        prefab.spec_number()
    }
}

impl From<Prefab> for u8 {
    fn from(prefab: Prefab) -> (number: u8) {
        match prefab {
            Prefab::Empty => 0,
            Prefab::Melee => 1,
            Prefab::Projectile => 2,
            Prefab::HideousMass => 3,
            Prefab::JumpPad => 4,
            Prefab::Stairs => 5,
        }
    }
}

impl vstd::std_specs::convert::TryFromSpecImpl<u8> for Prefab {
    open spec fn obeys_try_from_spec() -> bool {
        true
    }

    open spec fn try_from_spec(byte: u8) -> Result<Prefab, ParseErrorType> {
        match Prefab::spec_from_symbol(byte) {
            Some(prefab) => Ok(prefab),
            None => Err(ParseErrorType::InvalidPrefab),
        }
    }
}

impl TryFrom<u8> for Prefab {
    type Error = ParseErrorType;

    fn try_from(byte: u8) -> (result: Result<Prefab, ParseErrorType>) {
        match byte {
            48 => Ok(Prefab::Empty),
            110 => Ok(Prefab::Melee),
            112 => Ok(Prefab::Projectile),
            72 => Ok(Prefab::HideousMass),
            74 => Ok(Prefab::JumpPad),
            115 => Ok(Prefab::Stairs),
            _ => Err(ParseErrorType::InvalidPrefab),
        }
    }
}

/// What a tile holds: its height and its prefab.
pub struct TileView {
    pub height: int,
    pub prefab: Prefab,
}

impl TileView {
    /// Whether the height is one a tile can carry.
    pub open spec fn in_range(self) -> bool {
        height_in_range(self.height)
    }

    /// The short form in which a tile is shown: its height in square
    /// brackets, as in `[-12]`, with the letter of its prefab where it has
    /// one, as in `[10, s]`.
    pub open spec fn label(self) -> Seq<char> {
        if self.prefab == Prefab::Empty {
            "["@ + as_chars(signed_decimal(self.height)) + "]"@
        } else {
            "["@ + as_chars(signed_decimal(self.height)) + ", "@ + seq![self.prefab.spec_letter()]
                + "]"@
        }
    }
}

/// A tile on the CyberGrindPattern.
/// Contains a height anywhere between -50 and 50, and an optional prefab.
#[derive(Clone, Copy, Debug, PartialEq, Eq, Structural)]
pub struct Tile {
    height: i8,
    prefab: Prefab,
}

impl View for Tile {
    type V = TileView;

    closed spec fn view(&self) -> TileView {
        TileView { height: self.height as int, prefab: self.prefab }
    }
}

impl Tile {
    /// What holds of every tile: its height is between -50 and 50.
    #[verifier::type_invariant]
    pub open spec fn height_is_in_range(self) -> bool {
        self@.in_range()
    }

    /// The tile that holds `view`, meaningful where `view` is in range.
    pub closed spec fn spec_from_view(view: TileView) -> Tile {
        Tile { height: view.height as i8, prefab: view.prefab }
    }

    /// A tile is determined by what it holds.
    pub proof fn lemma_view_determines_tile(a: Tile, b: Tile)
        ensures
            a@ == b@ <==> a == b,
    {
    }

    /// `spec_from_view` gives a tile that holds the view it was made from.
    pub proof fn lemma_spec_from_view(view: TileView)
        requires
            view.in_range(),
        ensures
            Tile::spec_from_view(view)@ == view,
    {
    }

    /// Whether `height` is one a tile can carry: between -50 and 50.
    pub fn check_height(height: i8) -> (ok: bool)
        ensures
            ok == height_in_range(height as int),
    {
        MIN_HEIGHT <= height && height <= MAX_HEIGHT
    }

    /// Creates a new tile with height `height` and prefab `prefab`.
    pub fn new(height: i8, prefab: Prefab) -> (tile: Tile)
        requires
            height_in_range(height as int),
        ensures
            tile@ == (TileView { height: height as int, prefab }),
    {
        Tile { height, prefab }
    }

    /// Creates a new tile with height `height` and no prefab.
    pub fn with_height(height: i8) -> (tile: Tile)
        requires
            height_in_range(height as int),
        ensures
            tile@ == (TileView { height: height as int, prefab: Prefab::Empty }),
    {
        Tile { height, prefab: Prefab::Empty }
    }

    /// Creates a new tile with prefab `prefab` and a height of 0.
    /// Equivalent to `Tile::from(prefab)`.
    pub fn with_prefab(prefab: Prefab) -> (tile: Tile)
        ensures
            tile@ == (TileView { height: 0, prefab }),
    {
        Tile { height: 0, prefab }
    }

    /// Sets an existing tile's height to `new_height`.
    pub fn set_height(&mut self, new_height: i8)
        requires
            height_in_range(new_height as int),
        ensures
            final(self)@ == (TileView { height: new_height as int, prefab: old(self)@.prefab }),
    {
        self.height = new_height;
    }

    /// Sets an existing tile's prefab to `new_prefab`.
    pub fn set_prefab(&mut self, new_prefab: Prefab)
        ensures
            final(self)@ == (TileView { height: old(self)@.height, prefab: new_prefab }),
    {
        proof {
            use_type_invariant(&*self);
        }
        self.prefab = new_prefab;
    }

    /// Gets the height of a tile.
    pub fn height(self) -> (height: i8)
        ensures
            height == self@.height,
            height_in_range(height as int),
    {
        proof {
            use_type_invariant(&self);
        }
        self.height
    }

    /// Gets the prefab of a tile.
    pub fn prefab(self) -> (prefab: Prefab)
        ensures
            prefab == self@.prefab,
    {
        self.prefab
    }

    /// The short form in which a tile is shown, such as `[-12]` or
    /// `[10, s]`.
    pub fn label(&self) -> (text: String)
        ensures
            text@ == self@.label(),
    {
        let mut text = String::from_str("[");
        push_signed_decimal(&mut text, self.height);
        if self.prefab != Prefab::Empty {
            text.append(", ");
            push_char(&mut text, self.prefab.letter());
        }
        text.append("]");
        text
    }
}

impl Default for Tile {
    fn default() -> (tile: Tile)
        ensures
            tile@ == (TileView { height: 0, prefab: Prefab::Empty }),
    {
        Tile { height: 0, prefab: Prefab::Empty }
    }
}

impl vstd::std_specs::convert::FromSpecImpl<Prefab> for Tile {
    open spec fn obeys_from_spec() -> bool {
        true
    }

    open spec fn from_spec(prefab: Prefab) -> Tile {
        Tile::spec_from_view(TileView { height: 0, prefab })
    }
}

impl From<Prefab> for Tile {
    fn from(prefab: Prefab) -> (tile: Tile)
        ensures
            tile@ == (TileView { height: 0, prefab }),
    {
        Tile { height: 0, prefab }
    }
}

impl vstd::std_specs::ops::AddSpecImpl<i8> for Tile {
    open spec fn obeys_add_spec() -> bool {
        true
    }

    open spec fn add_req(self, rhs: i8) -> bool {
        height_in_range(self@.height + rhs)
    }

    open spec fn add_spec(self, rhs: i8) -> Tile {
        Tile::spec_from_view(TileView { height: self@.height + rhs, prefab: self@.prefab })
    }
}

/// Adds to the tile's height. The sum has to be a height a tile can carry.
impl core::ops::Add<i8> for Tile {
    type Output = Tile;

    fn add(self, rhs: i8) -> (tile: Tile)
        ensures
            tile@ == (TileView { height: self@.height + rhs, prefab: self@.prefab }),
    {
        proof {
            use_type_invariant(&self);
        }
        Tile { height: self.height + rhs, prefab: self.prefab }
    }
}

impl vstd::std_specs::ops::SubSpecImpl<i8> for Tile {
    open spec fn obeys_sub_spec() -> bool {
        true
    }

    open spec fn sub_req(self, rhs: i8) -> bool {
        height_in_range(self@.height - rhs)
    }

    open spec fn sub_spec(self, rhs: i8) -> Tile {
        Tile::spec_from_view(TileView { height: self@.height - rhs, prefab: self@.prefab })
    }
}

/// Subtracts from the tile's height. The difference has to be a height a
/// tile can carry.
impl core::ops::Sub<i8> for Tile {
    type Output = Tile;

    fn sub(self, rhs: i8) -> (tile: Tile)
        ensures
            tile@ == (TileView { height: self@.height - rhs, prefab: self@.prefab }),
    {
        proof {
            use_type_invariant(&self);
        }
        Tile { height: self.height - rhs, prefab: self.prefab }
    }
}

} // verus!
