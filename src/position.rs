//! The board-game position, kept as text in Forsyth–Edwards notation and read
//! by the chess crate.

use vstd::prelude::*;
use vstd::string::*;
use crate::tiles::Side;

verus! {

/// The standard starting position.
pub open spec fn start_fen() -> Seq<char> {
    "rnbqkbnr/pppppppp/8/8/8/8/PPPPPPPP/RNBQKBNR w KQkq - 0 1"@
}

/// Relies on chess's `Board::default`, the standard starting position, and on
/// its `Display`, which writes a position in Forsyth–Edwards notation.
#[verifier::external_body]
pub(crate) fn start_position() -> (r: String)
    ensures
        r@ == start_fen(),
{
    chess::Board::default().to_string()
}

/// A piece letter other than a king's.
pub open spec fn is_piece_letter(c: char) -> bool {
    c == 'p' || c == 'n' || c == 'b' || c == 'r' || c == 'q' || c == 'P' || c == 'N' || c == 'B'
        || c == 'R' || c == 'Q'
}

/// Reading a piece placement from index `i` on, with `r` rank separators and
/// `f` files of the current rank seen, and whether the white and the black king
/// were seen: the placement (up to the first space) must give eight ranks of
/// exactly eight files each, and exactly one king of each colour.
pub open spec fn placement_scan(s: Seq<char>, i: int, r: int, f: int, wk: bool, bk: bool) -> bool
    decreases s.len() - i,
{
    if i < 0 || i >= s.len() || s[i] == ' ' {
        r == 7 && f == 8 && wk && bk
    } else {
        let c = s[i];
        if c == '/' {
            f == 8 && r < 7 && placement_scan(s, i + 1, r + 1, 0, wk, bk)
        } else if '1' <= c && c <= '8' {
            f + (c as int - '0' as int) <= 8 && placement_scan(s, i + 1, r, f + (c as int - '0' as int), wk, bk)
        } else if c == 'K' {
            f < 8 && !wk && placement_scan(s, i + 1, r, f + 1, true, bk)
        } else if c == 'k' {
            f < 8 && !bk && placement_scan(s, i + 1, r, f + 1, wk, true)
        } else if is_piece_letter(c) {
            f < 8 && placement_scan(s, i + 1, r, f + 1, wk, bk)
        } else {
            false
        }
    }
}

/// A position text whose piece placement is well formed: eight ranks of
/// exactly eight files, one white king and one black king.
pub open spec fn placement_ok(fen: Seq<char>) -> bool {
    placement_scan(fen, 0, 0, 0, false, false)
}

/// Whether a position text has a well-formed piece placement.
pub fn is_readable_position(fen: &str) -> (r: bool)
    ensures
        r == placement_ok(fen@),
{
    let n = fen.unicode_len();
    let mut i: usize = 0;
    let mut r: u32 = 0;
    let mut f: u32 = 0;
    let mut wk = false;
    let mut bk = false;
    while i < n && fen.get_char(i) != ' '
        invariant
            n == fen@.len(),
            i <= n,
            r <= 7,
            f <= 8,
            placement_ok(fen@) == placement_scan(fen@, i as int, r as int, f as int, wk, bk),
        decreases n - i,
    {
        let c = fen.get_char(i);
        if c == '/' {
            if f != 8 || r >= 7 {
                return false;
            }
            r = r + 1;
            f = 0;
        } else if '1' <= c && c <= '8' {
            let k = c as u32 - '0' as u32;
            if f + k > 8 {
                return false;
            }
            f = f + k;
        } else if c == 'K' {
            if f >= 8 || wk {
                return false;
            }
            wk = true;
            f = f + 1;
        } else if c == 'k' {
            if f >= 8 || bk {
                return false;
            }
            bk = true;
            f = f + 1;
        } else if c == 'p' || c == 'n' || c == 'b' || c == 'r' || c == 'q' || c == 'P' || c == 'N'
            || c == 'B' || c == 'R' || c == 'Q' {
            if f >= 8 {
                return false;
            }
            f = f + 1;
        } else {
            return false;
        }
        i = i + 1;
    }
    r == 7 && f == 8 && wk && bk
}

/// A piece, written as one letter, that may be taken off the board: any but a king.
pub open spec fn clearable(piece: Seq<char>) -> bool {
    piece.len() == 1 && is_piece_letter(piece[0])
}

/// Whether a piece written as one letter may be taken off the board.
pub fn may_clear(piece: &str) -> (r: bool)
    ensures
        r == clearable(piece@),
{
    if piece.unicode_len() != 1 {
        return false;
    }
    let c = piece.get_char(0);
    c == 'p' || c == 'n' || c == 'b' || c == 'r' || c == 'q' || c == 'P' || c == 'N' || c == 'B'
        || c == 'R' || c == 'Q'
}

/// The piece letters of one colour (upper case for white) in a placement, read
/// from index `i` up to the first space.
pub open spec fn placement_pieces(s: Seq<char>, i: int, white: bool) -> nat
    decreases s.len() - i,
{
    if i < 0 || i >= s.len() || s[i] == ' ' {
        0
    } else {
        let c = s[i];
        let counted = if white {
            c == 'P' || c == 'N' || c == 'B' || c == 'R' || c == 'Q' || c == 'K'
        } else {
            c == 'p' || c == 'n' || c == 'b' || c == 'r' || c == 'q' || c == 'k'
        };
        (if counted { 1nat } else { 0nat }) + placement_pieces(s, i + 1, white)
    }
}

/// The numbers of white and of black pieces in a position (`None` for a text
/// that is no position).
pub uninterp spec fn material_of(fen: Seq<char>) -> Option<(u32, u32)>;

/// Relies on chess's `Board::from_str` to read a position (an `Err` for a text
/// that is none), and on `BitBoard::popcnt` of `Board::color_combined` to count
/// each side's pieces; a board has sixty-four squares. `Board::from_str` works
/// out pins from the side to move's king before it checks the board, so the
/// placement must hold each king exactly once and no more than sixty-four squares.
/// With eight ranks of eight files, each piece letter of the placement lands on
/// its own square, so each side's count is the number of its letters.
#[verifier::external_body]
pub(crate) fn count_material(fen: &str) -> (r: Option<(u32, u32)>)
    requires
        placement_ok(fen@),
    ensures
        r == material_of(fen@),
        r matches Some((w, b)) ==> w <= 64 && b <= 64,
        r matches Some((w, b)) ==> w == placement_pieces(fen@, 0, true) && b == placement_pieces(
            fen@,
            0,
            false,
        ),
{
    match <chess::Board as std::str::FromStr>::from_str(fen) {
        Ok(b) => Some(
            (
                b.color_combined(chess::Color::White).popcnt(),
                b.color_combined(chess::Color::Black).popcnt(),
            ),
        ),
        Err(_) => None,
    }
}

/// Who wins on material alone: a side reduced to a single piece loses.
pub open spec fn material_winner(white: u32, black: u32) -> Option<Side> {
    if white == 1 {
        Some(Side::Black)
    } else if black == 1 {
        Some(Side::White)
    } else {
        None
    }
}

/// Who wins on material alone, from the numbers of white and black pieces.
pub fn winner_by_material(white: u32, black: u32) -> (r: Option<Side>)
    ensures
        r == material_winner(white, black),
{
    if white == 1 {
        Some(Side::Black)
    } else if black == 1 {
        Some(Side::White)
    } else {
        None
    }
}

/// Who wins on material alone in a position; `None` also for a text whose
/// placement is malformed or that the chess crate does not read as a position.
pub open spec fn position_winner(fen: Seq<char>) -> Option<Side> {
    if !placement_ok(fen) {
        None
    } else {
        match material_of(fen) {
            Some((w, b)) => material_winner(w, b),
            None => None,
        }
    }
}

/// Who wins on material alone in a position (see `position_winner`).
pub fn check_position(fen: &str) -> (r: Option<Side>)
    ensures
        r == position_winner(fen@),
{
    if !is_readable_position(fen) {
        return None;
    }
    match count_material(fen) {
        Some((w, b)) => winner_by_material(w, b),
        None => None,
    }
}

/// A side's castling rights.
#[derive(Debug, Clone, Copy, PartialEq, Eq, Structural)]
pub enum CastlingRights {
    NoRights,
    KingSide,
    QueenSide,
    Both,
}

/// The home square of a side's queen-side rook.
pub open spec fn queen_rook_home(side: Side) -> Seq<char> {
    match side {
        Side::White => "a1"@,
        Side::Black => "a8"@,
    }
}

/// The home square of a side's king-side rook.
pub open spec fn king_rook_home(side: Side) -> Seq<char> {
    match side {
        Side::White => "h1"@,
        Side::Black => "h8"@,
    }
}

/// A side's castling rights once its rook on `square` leaves the board: from a
/// rook's home square, full rights keep the other wing and partial ones go.
pub open spec fn rights_after_rook_loss(rights: CastlingRights, side: Side, square: Seq<char>) -> CastlingRights {
    if square == queen_rook_home(side) {
        if rights == CastlingRights::Both {
            CastlingRights::KingSide
        } else {
            CastlingRights::NoRights
        }
    } else if square == king_rook_home(side) {
        if rights == CastlingRights::Both {
            CastlingRights::QueenSide
        } else {
            CastlingRights::NoRights
        }
    } else {
        rights
    }
}

/// A side's castling rights once its rook on `square` leaves the board.
pub fn rights_without_rook(rights: CastlingRights, side: Side, square: &str) -> (r: CastlingRights)
    ensures
        r == rights_after_rook_loss(rights, side, square@),
{
    proof {
        reveal_strlit("a1");
        reveal_strlit("a8");
        reveal_strlit("h1");
        reveal_strlit("h8");
    }
    let sq = String::from_str(square);
    let (queen_home, king_home) = match side {
        Side::White => (String::from_str("a1"), String::from_str("h1")),
        Side::Black => (String::from_str("a8"), String::from_str("h8")),
    };
    if sq == queen_home {
        if rights == CastlingRights::Both {
            CastlingRights::KingSide
        } else {
            CastlingRights::NoRights
        }
    } else if sq == king_home {
        if rights == CastlingRights::Both {
            CastlingRights::QueenSide
        } else {
            CastlingRights::NoRights
        }
    } else {
        rights
    }
}

} // verus!
