//! Action tokens: an action kind and the full game state in one opaque
//! string, `#bs#` + kind character + base64 of the 59 state bytes; and the
//! text form of a board coordinate.

use vstd::prelude::*;
use crate::grid::{Vec2, GRID_SIZE};
use crate::game::GameState;
use crate::codec::{Encode, STATE_BYTES, lemma_decode_encode};
use crate::base64url::{append_base64, decode_base64, push_char, base64_text, base64_bytes};

verus! {

/// Text every token starts with.
pub const CUSTOM_ID_PREFIX: &'static str = "#bs#";

/// The characters of `CUSTOM_ID_PREFIX`.
pub open spec fn token_prefix() -> Seq<char> {
    seq!['#', 'b', 's', '#']
}

/// What a token asks for.
#[derive(Debug, Clone, Copy, PartialEq, Eq, Structural)]
pub enum GameActionKind {
    /// Acknowledge that a turn starts; shows the firing board.
    StartTurn,
    /// Ask for a coordinate, or, with one, fire at it.
    Fire,
    /// Show the acting player's fleet, to accept or redraw.
    Place,
    /// Draw the acting player's fleet anew.
    RandomizePlace,
    /// Accept the fleet and move the placement phase on.
    ConfirmPlace,
}

/// Why a token was refused.
#[derive(Debug, Clone, Copy, PartialEq, Eq, Structural)]
pub enum GameActionParseError {
    /// The prefix is missing.
    NotBattleshipId,
    /// The kind character is not one of the known ones.
    UnknownAction,
    /// The payload is no base64 text of exactly 59 bytes.
    InvalidData,
    /// Nothing follows the prefix.
    NoData,
}

/// A kind of action together with the state it acts on.
#[derive(Debug, Clone, Copy)]
pub struct GameAction {
    pub kind: GameActionKind,
    pub state: GameState,
}

/// A parsed board coordinate.
#[derive(Debug, Clone, Copy, PartialEq, Eq, Structural)]
pub struct Coord(pub Vec2);

/// The character that stands for `k` in a token.
pub open spec fn kind_char(k: GameActionKind) -> char {
    match k {
        GameActionKind::StartTurn => 'T',
        GameActionKind::Fire => 'F',
        GameActionKind::Place => 'P',
        GameActionKind::RandomizePlace => 'R',
        GameActionKind::ConfirmPlace => 'C',
    }
}

/// The kind that `c` stands for in a token, if any.
pub open spec fn kind_of(c: char) -> Option<GameActionKind> {
    if c == 'T' {
        Some(GameActionKind::StartTurn)
    } else if c == 'F' {
        Some(GameActionKind::Fire)
    } else if c == 'P' {
        Some(GameActionKind::Place)
    } else if c == 'R' {
        Some(GameActionKind::RandomizePlace)
    } else if c == 'C' {
        Some(GameActionKind::ConfirmPlace)
    } else {
        None
    }
}

/// The token text of `a`.
pub open spec fn token_of(a: GameAction) -> Seq<char> {
    token_prefix().push(kind_char(a.kind)) + base64_text(a.state.encoding())
}

/// What the payload text of a token decodes to.
pub open spec fn payload_state(text: Seq<char>) -> Result<GameState, GameActionParseError> {
    match base64_bytes(text) {
        None => Err(GameActionParseError::InvalidData),
        Some(bytes) => match GameState::decoding(bytes) {
            None => Err(GameActionParseError::InvalidData),
            Some(s) => Ok(s),
        },
    }
}

/// What a token text decodes to: each failing step has its own error.
pub open spec fn token_action(id: Seq<char>) -> Result<GameAction, GameActionParseError> {
    if id.len() < 4 || id.take(4) != token_prefix() {
        Err(GameActionParseError::NotBattleshipId)
    } else if id.len() == 4 {
        Err(GameActionParseError::NoData)
    } else {
        match kind_of(id[4]) {
            None => Err(GameActionParseError::UnknownAction),
            Some(kind) => match payload_state(id.skip(5)) {
                Err(e) => Err(e),
                Ok(state) => Ok(GameAction { kind, state }),
            },
        }
    }
}

impl GameActionKind {
    pub fn to_char(self) -> (r: char)
        ensures
            r == kind_char(self),
            kind_of(r) == Some(self),
    {
        match self {
            GameActionKind::StartTurn => 'T',
            GameActionKind::Fire => 'F',
            GameActionKind::Place => 'P',
            GameActionKind::RandomizePlace => 'R',
            GameActionKind::ConfirmPlace => 'C',
        }
    }

    pub fn from_char(c: char) -> (r: Result<GameActionKind, GameActionParseError>)
        ensures
            r == (match kind_of(c) {
                Some(k) => Ok(k),
                None => Err(GameActionParseError::UnknownAction),
            }),
    {
        if c == 'T' {
            Ok(GameActionKind::StartTurn)
        } else if c == 'F' {
            Ok(GameActionKind::Fire)
        } else if c == 'P' {
            Ok(GameActionKind::Place)
        } else if c == 'R' {
            Ok(GameActionKind::RandomizePlace)
        } else if c == 'C' {
            Ok(GameActionKind::ConfirmPlace)
        } else {
            Err(GameActionParseError::UnknownAction)
        }
    }
}

/// Decodes the payload part of a token into a game state.
pub fn parse_game_state(text: &str) -> (r: Result<GameState, GameActionParseError>)
    ensures
        r == payload_state(text@),
{
    match decode_base64(text) {
        Ok(raw) => match GameState::try_decode(raw.as_slice()) {
            Some(state) => Ok(state),
            None => Err(GameActionParseError::InvalidData),
        },
        Err(_) => Err(GameActionParseError::InvalidData),
    }
}

impl GameAction {
    pub fn new(kind: GameActionKind, state: GameState) -> (r: Self)
        ensures
            r == (GameAction { kind, state }),
    {
        GameAction { kind, state }
    }

    /// The token that carries this action.
    pub fn to_id(&self) -> (r: String)
        ensures
            r@ == token_of(*self),
            r@.len() == 84,
            token_action(r@) == Ok::<GameAction, GameActionParseError>(*self),
    {
        let mut id = String::from_str(CUSTOM_ID_PREFIX);
        proof {
            reveal_strlit("#bs#");
        }
        push_char(&mut id, self.kind.to_char());
        let bytes = self.state.encode();
        let ghost head = id@;
        append_base64(bytes.as_slice(), &mut id);
        proof {
            lemma_decode_encode(self.state);
            assert(head =~= token_prefix().push(kind_char(self.kind)));
            assert(id@.take(4) =~= token_prefix());
            assert(id@[4] == kind_char(self.kind));
            assert(payload_state(id@.skip(5)) == Ok::<GameState, GameActionParseError>(self.state));
        }
        id
    }

    /// Reads a token back: prefix, kind character, then state.
    pub fn from_id(id: &str) -> (r: Result<Self, GameActionParseError>)
        ensures
            r == token_action(id@),
    {
        let n = id.unicode_len();
        if n < 4 || id.get_char(0) != '#' || id.get_char(1) != 'b' || id.get_char(2) != 's'
            || id.get_char(3) != '#' {
            proof {
                if n >= 4 {
                    assert(id@.take(4)[0] == id@[0]);
                    assert(id@.take(4)[1] == id@[1]);
                    assert(id@.take(4)[2] == id@[2]);
                    assert(id@.take(4)[3] == id@[3]);
                }
            }
            return Err(GameActionParseError::NotBattleshipId);
        }
        assert(id@.take(4) =~= token_prefix());
        if n == 4 {
            return Err(GameActionParseError::NoData);
        }
        let kind = GameActionKind::from_char(id.get_char(4))?;
        let payload = id.substring_char(5, n);
        assert(payload@ =~= id@.skip(5));
        let state = parse_game_state(payload)?;
        Ok(GameAction { kind, state })
    }
}

/// Each kind of malformed token is refused with its own error: a missing
/// prefix, nothing after it, an unknown kind character, and a payload that
/// is no base64 or not exactly one state long.
pub proof fn lemma_token_rejections(id: Seq<char>)
    ensures
        id.len() < 4 || id.take(4) != token_prefix() ==> token_action(id) == Err::<
            GameAction,
            GameActionParseError,
        >(GameActionParseError::NotBattleshipId),
        id == token_prefix() ==> token_action(id) == Err::<GameAction, GameActionParseError>(
            GameActionParseError::NoData,
        ),
        id.len() > 4 && id.take(4) == token_prefix() && kind_of(id[4]) is None ==> token_action(id)
            == Err::<GameAction, GameActionParseError>(GameActionParseError::UnknownAction),
        id.len() > 4 && id.take(4) == token_prefix() && kind_of(id[4]) is Some && (base64_bytes(
            id.skip(5),
        ) matches Some(b) ==> b.len() != STATE_BYTES) ==> token_action(id) == Err::<
            GameAction,
            GameActionParseError,
        >(GameActionParseError::InvalidData),
{
    if id == token_prefix() {
        assert(id.take(4) =~= id);
    }
}

/// The column that a letter names: `A`-`J` or `a`-`j`, from 0.
pub open spec fn column_of(c: char) -> Option<u8> {
    if 'A' <= c <= 'J' {
        Some((c as u32 - 'A' as u32) as u8)
    } else if 'a' <= c <= 'j' {
        Some((c as u32 - 'a' as u32) as u8)
    } else {
        None
    }
}

/// The value of a decimal digit.
pub open spec fn digit_of(c: char) -> Option<u8> {
    if '0' <= c <= '9' {
        Some((c as u32 - '0' as u32) as u8)
    } else {
        None
    }
}

/// The row that a one- or two-digit number from 1 to 10 names, from 0.
pub open spec fn row_of(s: Seq<char>) -> Option<u8> {
    let v: Option<int> = if s.len() == 1 && digit_of(s[0]) is Some {
        Some(digit_of(s[0])->0 as int)
    } else if s.len() == 2 && digit_of(s[0]) is Some && digit_of(s[1]) is Some {
        Some(digit_of(s[0])->0 * 10 + digit_of(s[1])->0)
    } else {
        None
    };
    match v {
        Some(n) => if 1 <= n <= 10 {
            Some((n - 1) as u8)
        } else {
            None
        },
        None => None,
    }
}

/// The cell a coordinate text names: a column letter, then a row number.
pub open spec fn coord_of(t: Seq<char>) -> Option<Vec2> {
    if t.len() < 1 {
        None
    } else {
        match (column_of(t[0]), row_of(t.skip(1))) {
            (Some(x), Some(y)) => Some(Vec2 { x, y }),
            _ => None,
        }
    }
}

impl Coord {
    /// Parses a coordinate text such as `B4`: a column letter `A`-`J`
    /// (either case), then a row from 1 to 10.
    pub fn from_str(t: &str) -> (r: Option<Coord>)
        ensures
            r == (match coord_of(t@) {
                Some(p) => Some(Coord(p)),
                None => None,
            }),
            r matches Some(c) ==> c.0.x < GRID_SIZE && c.0.y < GRID_SIZE,
    {
        let n = t.unicode_len();
        if n < 1 {
            return None;
        }
        let column = t.get_char(0);
        let rest = t.substring_char(1, n);
        assert(rest@ =~= t@.skip(1));
        Self::from_pair(column, rest)
    }

    fn from_pair(column: char, row: &str) -> (r: Option<Coord>)
        ensures
            r == (match (column_of(column), row_of(row@)) {
                (Some(x), Some(y)) => Some(Coord(Vec2 { x, y })),
                _ => None,
            }),
    {
        let x: u8 = if 'A' <= column && column <= 'J' {
            (column as u32 - 'A' as u32) as u8
        } else if 'a' <= column && column <= 'j' {
            (column as u32 - 'a' as u32) as u8
        } else {
            return None;
        };
        let n = row.unicode_len();
        let value: u8 = if n == 1 {
            match digit(row.get_char(0)) {
                Some(d) => d,
                None => return None,
            }
        } else if n == 2 {
            match (digit(row.get_char(0)), digit(row.get_char(1))) {
                (Some(a), Some(b)) => a * 10 + b,
                _ => return None,
            }
        } else {
            return None;
        };
        if value >= 1 && value <= GRID_SIZE {
            Some(Coord(Vec2::new(x, value - 1)))
        } else {
            None
        }
    }
}

fn digit(c: char) -> (r: Option<u8>)
    ensures
        r == digit_of(c),
        r matches Some(d) ==> d < 10,
{
    if '0' <= c && c <= '9' {
        Some((c as u32 - '0' as u32) as u8)
    } else {
        None
    }
}

} // verus!
