//! What players send: room requests and moves, and how a captured piece names
//! its tiles.

use vstd::prelude::*;
use vstd::string::*;
use crate::room::RoomType;

verus! {

/// A board-game move: squares in algebraic notation and an optional promotion letter.
#[derive(Debug, Clone)]
pub struct Move {
    pub from: String,
    pub to: String,
    pub promotion: String,
}

/// A request to join a room, with the player's stable identity.
#[derive(Debug, Clone)]
pub struct JoinRoom {
    pub room_id: String,
    pub name: String,
    pub avatar: String,
    pub avatar_orientation: u8,
    pub avatar_color: String,
}

/// A request to open a room, with the creator's stable identity and, for a
/// timed room, the seconds each player gets.
#[derive(Debug, Clone)]
pub struct CreateRoom {
    pub name: String,
    pub avatar: String,
    pub avatar_orientation: u8,
    pub avatar_color: String,
    pub time: Option<u64>,
}

impl CreateRoom {
    /// The type of the room asked for: timed when a time is given.
    pub fn room_type(&self) -> (r: RoomType)
        ensures
            r == (match self.time {
                Some(t) => RoomType::Timed(t),
                None => RoomType::Casual,
            }),
    {
        match self.time {
            Some(t) => RoomType::Timed(t),
            None => RoomType::Casual,
        }
    }
}

/// The tile label of a piece written as one letter (upper case for white,
/// lower case for black): the side's letter then the piece's; empty for any
/// other text.
pub open spec fn capture_label_of(piece: Seq<char>) -> Seq<char> {
    if piece.len() != 1 {
        Seq::empty()
    } else {
        let c = piece[0];
        if c == 'p' {
            seq!['b', 'p']
        } else if c == 'q' {
            seq!['b', 'q']
        } else if c == 'r' {
            seq!['b', 'r']
        } else if c == 'b' {
            seq!['b', 'b']
        } else if c == 'n' {
            seq!['b', 'n']
        } else if c == 'k' {
            seq!['b', 'k']
        } else if c == 'P' {
            seq!['w', 'p']
        } else if c == 'Q' {
            seq!['w', 'q']
        } else if c == 'R' {
            seq!['w', 'r']
        } else if c == 'B' {
            seq!['w', 'b']
        } else if c == 'N' {
            seq!['w', 'n']
        } else if c == 'K' {
            seq!['w', 'k']
        } else {
            Seq::empty()
        }
    }
}

/// The tile label of a captured piece written as one letter.
pub fn capture_label(piece: &str) -> (r: String)
    ensures
        r@ == capture_label_of(piece@),
{
    if piece.unicode_len() != 1 {
        return String::new();
    }
    let c = piece.get_char(0);
    proof {
        reveal_strlit("bp");
        reveal_strlit("bq");
        reveal_strlit("br");
        reveal_strlit("bb");
        reveal_strlit("bn");
        reveal_strlit("bk");
        reveal_strlit("wp");
        reveal_strlit("wq");
        reveal_strlit("wr");
        reveal_strlit("wb");
        reveal_strlit("wn");
        reveal_strlit("wk");
    }
    let r = if c == 'p' {
        String::from_str("bp")
    } else if c == 'q' {
        String::from_str("bq")
    } else if c == 'r' {
        String::from_str("br")
    } else if c == 'b' {
        String::from_str("bb")
    } else if c == 'n' {
        String::from_str("bn")
    } else if c == 'k' {
        String::from_str("bk")
    } else if c == 'P' {
        String::from_str("wp")
    } else if c == 'Q' {
        String::from_str("wq")
    } else if c == 'R' {
        String::from_str("wr")
    } else if c == 'B' {
        String::from_str("wb")
    } else if c == 'N' {
        String::from_str("wn")
    } else if c == 'K' {
        String::from_str("wk")
    } else {
        String::new()
    };
    assert(r@ =~= capture_label_of(piece@));
    r
}

/// The pieces a pawn can promote to.
#[derive(Debug, Clone, Copy, PartialEq, Eq, Structural)]
pub enum Promotion {
    Queen,
    Rook,
    Bishop,
    Knight,
}

/// The promotion a move's letter asks for: `q`, `r`, `b` or `n`; none for any other text.
pub open spec fn promotion_of_text(s: Seq<char>) -> Option<Promotion> {
    if s.len() != 1 {
        None
    } else if s[0] == 'q' {
        Some(Promotion::Queen)
    } else if s[0] == 'r' {
        Some(Promotion::Rook)
    } else if s[0] == 'b' {
        Some(Promotion::Bishop)
    } else if s[0] == 'n' {
        Some(Promotion::Knight)
    } else {
        None
    }
}

/// The promotion a move's letter asks for.
pub fn promotion_of(s: &str) -> (r: Option<Promotion>)
    ensures
        r == promotion_of_text(s@),
{
    if s.unicode_len() != 1 {
        return None;
    }
    let c = s.get_char(0);
    if c == 'q' {
        Some(Promotion::Queen)
    } else if c == 'r' {
        Some(Promotion::Rook)
    } else if c == 'b' {
        Some(Promotion::Bishop)
    } else if c == 'n' {
        Some(Promotion::Knight)
    } else {
        None
    }
}

} // verus!
