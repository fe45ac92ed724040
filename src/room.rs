//! One room: two player seats, the game state machine, the board-game position,
//! the tile deck and the two players' clocks.

use vstd::prelude::*;
use vstd::string::*;
use crate::player::{fresh_user, same_identity, tick_clock, PlayerClock, User, UserView};
use crate::labels::base_label;
use crate::messages::{capture_label, capture_label_of};
use crate::position::{check_position, clearable, may_clear, position_winner, start_fen, start_position};
use crate::tiles::{
    board_wf, is_shuffled_deck, flip_refused, flip_view, fresh_deck, match_outcome, on_deck, partners, pawn_label,
    promoted_label, random_in, remove_outcome, upgrade_outcome, valid_draws, BoardView, MatchedTiles, MemoryBoard,
    Side, Tile,
};

verus! {

#[derive(Debug, Clone, Copy, PartialEq, Eq, Structural)]
pub enum RoomState {
    Waiting,
    Ready,
    Playing,
    Over,
}

/// A casual room has no clocks; a timed one gives each player that many seconds.
#[derive(Debug, Clone, Copy, PartialEq, Eq, Structural)]
pub enum RoomType {
    Casual,
    Timed(u64),
}

/// The seconds each player starts with.
pub open spec fn duration(t: RoomType) -> u64 {
    match t {
        RoomType::Casual => 0,
        RoomType::Timed(s) => s,
    }
}

impl RoomType {
    /// The room type's name: `casual` or `timed`.
    pub fn to_string(&self) -> (r: String)
        ensures
            r@ == (match self {
                RoomType::Casual => "casual"@,
                RoomType::Timed(_) => "timed"@,
            }),
    {
        match self {
            RoomType::Casual => String::from_str("casual"),
            RoomType::Timed(_) => String::from_str("timed"),
        }
    }
}

/// What a room holds.
pub struct RoomView {
    pub p1: Option<UserView>,
    pub p2: Option<UserView>,
    pub position: Seq<char>,
    pub board: BoardView,
    pub turn: Seq<char>,
    pub turn_count: u64,
    pub state: RoomState,
    pub room_type: RoomType,
}

/// A room: two seats, the position, the tile deck, whose turn it is (empty
/// for nobody's), how many turns were taken, the state and the room type.
#[derive(Debug, Clone)]
pub struct Room {
    p1: Option<User>,
    p2: Option<User>,
    chess_fen: String,
    memory_board: MemoryBoard,
    turn: String,
    turn_count: u64,
    state: RoomState,
    room_type: RoomType,
}

/// What a seat holds, if it is taken.
pub open spec fn seat_view(u: Option<User>) -> Option<UserView> {
    match u {
        Some(x) => Some(x@),
        None => None,
    }
}

impl View for Room {
    type V = RoomView;

    closed spec fn view(&self) -> RoomView {
        RoomView {
            p1: seat_view(self.p1),
            p2: seat_view(self.p2),
            position: self.chess_fen@,
            board: self.memory_board@,
            turn: self.turn@,
            turn_count: self.turn_count,
            state: self.state,
            room_type: self.room_type,
        }
    }
}

/// Whether a seat is taken by a connected player.
pub open spec fn seat_connected(u: Option<UserView>) -> bool {
    u matches Some(x) && x.connected
}

/// Whether a seat's clock is counting down.
pub open spec fn seat_running(u: Option<UserView>) -> bool {
    u matches Some(x) && x.clock.running
}

/// Whether a seat is taken.
pub open spec fn occupied(u: Option<UserView>) -> int {
    if u.is_some() {
        1
    } else {
        0
    }
}

/// The number of connected players.
pub open spec fn connected_count(v: RoomView) -> int {
    (if seat_connected(v.p1) { 1int } else { 0int }) + (if seat_connected(v.p2) { 1int } else { 0int })
}

/// A well-formed room: the first seat is taken, the deck is well formed, and
/// at most one clock counts down.
pub open spec fn room_wf(v: RoomView) -> bool {
    &&& v.p1.is_some()
    &&& board_wf(v.board)
    &&& !(seat_running(v.p1) && seat_running(v.p2))
}

/// The side recorded for the white player.
pub open spec fn white_text() -> Seq<char> {
    "white"@
}

/// The side recorded for the black player.
pub open spec fn black_text() -> Seq<char> {
    "black"@
}

/// A seat's clock, started or stopped, with its time kept.
pub open spec fn with_running(u: UserView, running: bool) -> UserView {
    UserView { clock: PlayerClock { remaining: u.clock.remaining, running }, ..u }
}

/// The seats after a player arrives, and the connection id of the seat taken
/// over (`None` for a seat that was empty): a disconnected first seat with the
/// same identity is reconnected; else an empty second seat is taken; else a
/// disconnected second seat with the same identity is reconnected; else a
/// disconnected seat (the second one while the first player is connected) is
/// given to the newcomer. Only meaningful when the room is not `room_full`.
pub open spec fn connect_seats(
    v: RoomView,
    p: Seq<char>,
    name: Seq<char>,
    avatar: Seq<char>,
    avatar_orientation: u8,
    avatar_color: Seq<char>,
) -> (Option<UserView>, Option<UserView>, Option<Seq<char>>) {
    let fresh = Some(
        fresh_user(
            p,
            name,
            avatar,
            avatar_orientation,
            avatar_color,
            Seq::empty(),
            duration(v.room_type),
        ),
    );
    let u1 = v.p1.unwrap();
    let u2 = v.p2.unwrap();
    if same_identity(u1, name, avatar, avatar_orientation, avatar_color) && !u1.connected {
        (Some(UserView { id: p, connected: true, ..u1 }), v.p2, Some(u1.id))
    } else if v.p2.is_none() {
        (v.p1, fresh, None)
    } else if !u2.connected && same_identity(u2, name, avatar, avatar_orientation, avatar_color) {
        (v.p1, Some(UserView { id: p, connected: true, ..u2 }), Some(u2.id))
    } else if u1.connected {
        (v.p1, fresh, Some(u2.id))
    } else {
        (fresh, v.p2, Some(u1.id))
    }
}

/// Whether both seats are taken by connected players: nobody can join then.
pub open spec fn room_full(v: RoomView) -> bool {
    v.p1.is_some() && v.p2.is_some() && v.p1.unwrap().connected && v.p2.unwrap().connected
}

/// The room after a player arrives: the seats as `connect_seats` says; the turn
/// follows a seat taken over by the new connection id; with both players
/// connected the room is `Ready` before the first turn and `Playing` after it.
pub open spec fn connect_view(
    v: RoomView,
    p: Seq<char>,
    name: Seq<char>,
    avatar: Seq<char>,
    avatar_orientation: u8,
    avatar_color: Seq<char>,
) -> RoomView {
    let (s1, s2, replaced) = connect_seats(v, p, name, avatar, avatar_orientation, avatar_color);
    let turn = if v.turn.len() > 0 && replaced == Some(v.turn) {
        p
    } else {
        v.turn
    };
    let state = if seat_connected(s1) && seat_connected(s2) {
        if v.turn_count == 0 {
            RoomState::Ready
        } else {
            RoomState::Playing
        }
    } else {
        v.state
    };
    RoomView { p1: s1, p2: s2, turn, state, ..v }
}

/// The room after the player on connection `p` starts the game, and whether
/// it started: only from `Ready`, with both seats taken, by a seated player.
/// The starter plays white, holds the turn and has the only running clock.
pub open spec fn start_view(v: RoomView, p: Seq<char>) -> (RoomView, bool) {
    let u1 = v.p1.unwrap();
    let u2 = v.p2.unwrap();
    if v.state != RoomState::Ready || v.p1.is_none() || v.p2.is_none() || (p != u1.id && p
        != u2.id) {
        (v, false)
    } else if p == u1.id {
        (
            RoomView {
                p1: Some(with_running(UserView { chess_color: white_text(), ..u1 }, true)),
                p2: Some(with_running(UserView { chess_color: black_text(), ..u2 }, false)),
                turn: p,
                state: RoomState::Playing,
                ..v
            },
            true,
        )
    } else {
        (
            RoomView {
                p1: Some(with_running(UserView { chess_color: black_text(), ..u1 }, false)),
                p2: Some(with_running(UserView { chess_color: white_text(), ..u2 }, true)),
                turn: p,
                state: RoomState::Playing,
                ..v
            },
            true,
        )
    }
}

/// The room after a turn ends: only while `Playing` with both seats taken, the
/// turn holder's clock stops, the turn passes to the other seat, whose clock
/// starts, and the turn count grows by one (it stops at its largest value).
pub open spec fn switch_view(v: RoomView) -> RoomView {
    let u1 = v.p1.unwrap();
    let u2 = v.p2.unwrap();
    let count = if v.turn_count < u64::MAX {
        (v.turn_count + 1) as u64
    } else {
        v.turn_count
    };
    if v.state != RoomState::Playing || v.p1.is_none() || v.p2.is_none() {
        v
    } else if v.turn == u1.id {
        RoomView {
            p1: Some(with_running(u1, false)),
            p2: Some(with_running(u2, true)),
            turn: u2.id,
            turn_count: count,
            ..v
        }
    } else {
        RoomView {
            p1: Some(with_running(u1, true)),
            p2: Some(with_running(u2, false)),
            turn: u1.id,
            turn_count: count,
            ..v
        }
    }
}

/// The room after the player on connection `p` leaves: that seat is marked
/// disconnected (the first seat is looked at first); nothing else changes.
pub open spec fn disconnect_view(v: RoomView, p: Seq<char>) -> RoomView {
    if v.p1.is_some() && v.p1.unwrap().id == p {
        RoomView { p1: Some(UserView { connected: false, ..v.p1.unwrap() }), ..v }
    } else if v.p2.is_some() && v.p2.unwrap().id == p {
        RoomView { p2: Some(UserView { connected: false, ..v.p2.unwrap() }), ..v }
    } else {
        v
    }
}

/// A seat's clock stopped at `time`.
pub open spec fn reset_seat(u: Option<UserView>, time: u64) -> Option<UserView> {
    match u {
        Some(x) => Some(UserView { clock: PlayerClock { remaining: time, running: false }, ..x }),
        None => None,
    }
}

/// A seat's clock stopped, its time kept.
pub open spec fn stop_seat(u: Option<UserView>) -> Option<UserView> {
    match u {
        Some(x) => Some(with_running(x, false)),
        None => None,
    }
}

/// A seat's clock after one second.
pub open spec fn tick_seat(u: Option<UserView>) -> Option<UserView> {
    match u {
        Some(x) => Some(UserView { clock: tick_clock(x.clock), ..x }),
        None => None,
    }
}

/// Whether a timed room with both seats taken has a clock at zero.
pub open spec fn timed_out(v: RoomView) -> bool {
    &&& v.room_type != RoomType::Casual
    &&& v.p1.is_some()
    &&& v.p2.is_some()
    &&& (v.p1.unwrap().clock.remaining == 0 || v.p2.unwrap().clock.remaining == 0)
}

/// A finished game: the winner (or first player) and the other player, and how it ended.
#[derive(Debug, Clone)]
pub struct GameResult {
    pub player1: User,
    pub player2: User,
    pub result: String,
}

/// What the rules engine says of a position.
#[derive(Debug, Clone, Copy, PartialEq, Eq, Structural)]
pub enum GameStatus {
    Ongoing,
    Checkmate,
    Stalemate,
}

/// The text of a side as a seat records it.
pub open spec fn side_text(side: Side) -> Seq<char> {
    match side {
        Side::White => white_text(),
        Side::Black => black_text(),
    }
}

/// The result of a timed-out room: the player with time left first (the first
/// seat's player when the second has none left).
pub open spec fn timeout_view(v: RoomView) -> Option<(UserView, UserView, Seq<char>)> {
    if !timed_out(v) {
        None
    } else if v.p2.unwrap().clock.remaining > 0 {
        Some((v.p2.unwrap(), v.p1.unwrap(), "timeout"@))
    } else {
        Some((v.p1.unwrap(), v.p2.unwrap(), "timeout"@))
    }
}

/// The result of a game after a move, winner first: a side down to one piece
/// loses (`game_over`); else a checkmated side to move loses (`checkmate`);
/// else a stalemate ends it (`stalemate`).
/// Both seats must be taken.
pub open spec fn game_over_view(v: RoomView, status: GameStatus, side_to_move: Side) -> Option<
    (UserView, UserView, Seq<char>),
> {
    let u1 = v.p1.unwrap();
    let u2 = v.p2.unwrap();
    let material = position_winner(v.position);
    if v.p1.is_none() || v.p2.is_none() {
        None
    } else if material.is_some() {
        if u1.chess_color == side_text(material.unwrap()) {
            Some((u1, u2, "game_over"@))
        } else {
            Some((u2, u1, "game_over"@))
        }
    } else if status == GameStatus::Checkmate {
        let white = if u1.chess_color == white_text() { u1 } else { u2 };
        let black = if u1.chess_color == black_text() { u1 } else { u2 };
        match side_to_move {
            Side::White => Some((black, white, "checkmate"@)),
            Side::Black => Some((white, black, "checkmate"@)),
        }
    } else if status == GameStatus::Stalemate {
        Some((u1, u2, "stalemate"@))
    } else {
        None
    }
}

/// What a game result says.
pub open spec fn result_view(r: Option<GameResult>) -> Option<(UserView, UserView, Seq<char>)> {
    match r {
        Some(g) => Some((g.player1@, g.player2@, g.result@)),
        None => None,
    }
}

/// The result of a game after a move, given what the rules engine says of the
/// new position and whose move it is there, as `game_over_view` says.
pub fn is_game_over(status: GameStatus, side_to_move: Side, room: &Room) -> (r: Option<GameResult>)
    ensures
        result_view(r) == game_over_view(room@, status, side_to_move),
{
    let (a, b) = room.get_players();
    if a.is_none() || b.is_none() {
        return None;
    }
    let p1 = a.unwrap();
    let p2 = b.unwrap();
    proof {
        reveal_strlit("white");
        reveal_strlit("black");
        reveal_strlit("game_over");
        reveal_strlit("checkmate");
        reveal_strlit("stalemate");
    }
    match room.check_win() {
        Some(winner) => {
            let name = match winner {
                Side::White => String::from_str("white"),
                Side::Black => String::from_str("black"),
            };
            let result = String::from_str("game_over");
            if p1.get_chess_color() == name {
                Some(GameResult { player1: p1, player2: p2, result })
            } else {
                Some(GameResult { player1: p2, player2: p1, result })
            }
        },
        None => {
            if status == GameStatus::Checkmate {
                let white_text = String::from_str("white");
                let black_text = String::from_str("black");
                let white = if p1.get_chess_color() == white_text { p1.snapshot() } else { p2.snapshot() };
                let black = if p1.get_chess_color() == black_text { p1.snapshot() } else { p2.snapshot() };
                let result = String::from_str("checkmate");
                match side_to_move {
                    Side::White => Some(GameResult { player1: black, player2: white, result }),
                    Side::Black => Some(GameResult { player1: white, player2: black, result }),
                }
            } else if status == GameStatus::Stalemate {
                Some(GameResult { player1: p1, player2: p2, result: String::from_str("stalemate") })
            } else {
                None
            }
        },
    }
}

/// A room never seats more than two players.
pub proof fn lemma_at_most_two_seats(v: RoomView)
    ensures
        occupied(v.p1) + occupied(v.p2) <= 2,
        0 <= connected_count(v) <= 2,
{
}

/// At most one clock counts down, and every transition keeps it so; a started
/// game runs the starter's clock alone, and a switched turn the new holder's alone.
pub proof fn lemma_clock_exclusive(
    v: RoomView,
    p: Seq<char>,
    name: Seq<char>,
    avatar: Seq<char>,
    avatar_orientation: u8,
    avatar_color: Seq<char>,
)
    requires
        room_wf(v),
    ensures
        !(seat_running(v.p1) && seat_running(v.p2)),
        room_wf(connect_view(v, p, name, avatar, avatar_orientation, avatar_color)),
        room_wf(start_view(v, p).0),
        room_wf(switch_view(v)),
        room_wf(disconnect_view(v, p)),
        start_view(v, p).1 ==> {
            let w = start_view(v, p).0;
            &&& w.state == RoomState::Playing
            &&& w.turn == p
            &&& (seat_running(w.p1) <==> w.p1.unwrap().id == p)
            &&& (seat_running(w.p2) <==> w.p1.unwrap().id != p)
        },
        v.state == RoomState::Playing && v.p2.is_some() ==> {
            let w = switch_view(v);
            &&& v.turn == v.p1.unwrap().id ==> !seat_running(w.p1) && seat_running(w.p2) && w.turn
                == v.p2.unwrap().id
            &&& v.turn != v.p1.unwrap().id ==> seat_running(w.p1) && !seat_running(w.p2) && w.turn
                == v.p1.unwrap().id
        },
{
}

/// A returning player whose identity matches a disconnected seat is let in
/// (the room is not full) and gets that seat back under the new connection id, with its clock and side kept, and the
/// turn too when the seat held it.
pub proof fn lemma_reconnect_restores(
    v: RoomView,
    p: Seq<char>,
    name: Seq<char>,
    avatar: Seq<char>,
    avatar_orientation: u8,
    avatar_color: Seq<char>,
)
    requires
        room_wf(v),
    ensures
        ({
            let w = connect_view(v, p, name, avatar, avatar_orientation, avatar_color);
            let u1 = v.p1.unwrap();
            same_identity(u1, name, avatar, avatar_orientation, avatar_color) && !u1.connected ==> {
                &&& !room_full(v)
                &&& w.p1 == Some(UserView { id: p, connected: true, ..u1 })
                &&& w.p1.unwrap().clock.remaining == u1.clock.remaining
                &&& w.p1.unwrap().chess_color == u1.chess_color
                &&& (v.turn.len() > 0 && v.turn == u1.id ==> w.turn == p)
            }
        }),
        ({
            let w = connect_view(v, p, name, avatar, avatar_orientation, avatar_color);
            let u1 = v.p1.unwrap();
            let u2 = v.p2.unwrap();
            v.p2.is_some() && same_identity(u2, name, avatar, avatar_orientation, avatar_color)
                && !u2.connected && !(same_identity(
                u1,
                name,
                avatar,
                avatar_orientation,
                avatar_color,
            ) && !u1.connected) ==> {
                &&& !room_full(v)
                &&& w.p2 == Some(UserView { id: p, connected: true, ..u2 })
                &&& w.p2.unwrap().clock.remaining == u2.clock.remaining
                &&& w.p2.unwrap().chess_color == u2.chess_color
                &&& (v.turn.len() > 0 && v.turn == u2.id ==> w.turn == p)
            }
        }),
{
}

/// What the rules engine made of a legal move.
#[derive(Debug, Clone)]
pub struct LegalMove {
    /// The captured piece as one letter (upper case for white), if any.
    pub captured: Option<String>,
    /// The piece a pawn promotes to, as a letter, if any.
    pub promotion: Option<String>,
    /// The side that moved.
    pub mover: Side,
    /// The position after the move.
    pub new_position: String,
    /// The rules engine's verdict on the new position.
    pub status: GameStatus,
    /// The side to move in the new position.
    pub next_to_move: Side,
}

/// The rules engine's answer to a requested move.
#[derive(Debug, Clone)]
pub enum MoveVerdict {
    /// The stored position could not be read.
    BadPosition,
    /// The move's squares could not be read.
    InvalidSquares,
    /// The move breaks the rules.
    Illegal,
    Legal(LegalMove),
}

/// Why a move was turned down.
#[derive(Debug, Clone, Copy, PartialEq, Eq, Structural)]
pub enum Refusal {
    TimedOut,
    NotPlaying,
    BadPosition,
    InvalidMove,
    IllegalMove,
}

/// What a move did.
#[derive(Debug, Clone)]
pub enum MoveReport {
    Refused(Refusal),
    Played {
        /// The move started the game.
        started: bool,
        /// The tiles retired for a captured piece.
        removed: Option<Vec<usize>>,
        /// The pawn tiles promoted.
        upgraded: Option<(Tile, Tile)>,
        /// The result, when the move ended the game.
        result: Option<GameResult>,
    },
}

/// Why a move by the player on connection `p` is turned down, if it is: a
/// clock at zero, a room neither playing nor startable by `p`, or the rules
/// engine's refusal. A refused move changes nothing.
pub open spec fn refusal_of(v: RoomView, p: Seq<char>, verdict: MoveVerdict) -> Option<Refusal> {
    if timed_out(v) {
        Some(Refusal::TimedOut)
    } else if !(v.state == RoomState::Playing || (v.state == RoomState::Ready && start_view(v, p).1)) {
        Some(Refusal::NotPlaying)
    } else {
        match verdict {
            MoveVerdict::BadPosition => Some(Refusal::BadPosition),
            MoveVerdict::InvalidSquares => Some(Refusal::InvalidMove),
            MoveVerdict::Illegal => Some(Refusal::IllegalMove),
            MoveVerdict::Legal(_) => None,
        }
    }
}

/// The room once a move is accepted, before its effects: started if it was
/// `Ready`, with no tile face up.
pub open spec fn prepared(v: RoomView, p: Seq<char>) -> RoomView {
    let v1 = if v.state == RoomState::Ready {
        start_view(v, p).0
    } else {
        v
    };
    RoomView { board: BoardView { tiles: v1.board.tiles, flips: Seq::empty() }, ..v1 }
}

/// The text of an optional string.
pub open spec fn text_of(s: Option<String>) -> Option<Seq<char>> {
    match s {
        Some(t) => Some(t@),
        None => None,
    }
}

/// The deck after retiring two tiles of a captured piece, chosen by the draws,
/// and the indices retired.
pub open spec fn after_capture(b: BoardView, m: LegalMove, first: int, second: int) -> (BoardView, Seq<usize>) {
    match text_of(m.captured) {
        Some(c) => remove_outcome(b, capture_label_of(c), first, second),
        None => (b, Seq::empty()),
    }
}

/// Draws that fit the tiles of a captured piece.
pub open spec fn capture_draws(b: BoardView, m: LegalMove, first: int, second: int) -> bool {
    match text_of(m.captured) {
        Some(c) => valid_draws(on_deck(b.tiles, capture_label_of(c)).len() as int, first, second),
        None => true,
    }
}

/// The deck after promoting two of the mover's pawn tiles, chosen by the draws,
/// and the indices promoted.
pub open spec fn after_promotion(b: BoardView, m: LegalMove, first: int, second: int) -> (
    BoardView,
    Option<(usize, usize)>,
) {
    match text_of(m.promotion) {
        Some(piece) => upgrade_outcome(b, m.mover, piece, first, second),
        None => (b, None),
    }
}

/// Draws that fit the mover's pawn tiles.
pub open spec fn promotion_draws(b: BoardView, m: LegalMove, first: int, second: int) -> bool {
    match text_of(m.promotion) {
        Some(_) => valid_draws(on_deck(b.tiles, pawn_label(m.mover)).len() as int, first, second),
        None => true,
    }
}

/// The room after a played move: the game ends (`Over`, clocks stopped) when
/// `game_over_view` gives a result, else the turn passes.
pub open spec fn finish(v: RoomView, status: GameStatus, next_to_move: Side) -> RoomView {
    if game_over_view(v, status, next_to_move).is_some() {
        RoomView { p1: stop_seat(v.p1), p2: stop_seat(v.p2), state: RoomState::Over, ..v }
    } else {
        switch_view(v)
    }
}

/// What the rules engine made of taking a piece off a square.
#[derive(Debug, Clone)]
pub enum ClearVerdict {
    /// The stored position could not be read.
    BadPosition,
    /// The square could not be read, or holds no piece.
    NoPiece,
    /// The square holds `piece` (one letter, upper case for white); `after` is
    /// the position without it, the rules engine's verdict on it and the side
    /// to move, or `None` when no position came of it.
    Piece { piece: String, after: Option<(String, GameStatus, Side)> },
}

/// Why taking a piece off was turned down.
#[derive(Debug, Clone, Copy, PartialEq, Eq, Structural)]
pub enum ClearRefusal {
    BadPosition,
    NoPiece,
    King,
    Invalid,
}

/// What taking a piece off did.
#[derive(Debug, Clone)]
pub enum ClearReport {
    Refused(ClearRefusal),
    /// The piece taken off, and the result when that ended the game.
    Cleared { piece: String, result: Option<GameResult> },
}

/// Why taking a piece off is turned down, if it is: an unreadable position, an
/// empty square, a king, or no position after it. A refusal changes nothing.
pub open spec fn clear_refusal(verdict: ClearVerdict) -> Option<ClearRefusal> {
    match verdict {
        ClearVerdict::BadPosition => Some(ClearRefusal::BadPosition),
        ClearVerdict::NoPiece => Some(ClearRefusal::NoPiece),
        ClearVerdict::Piece { piece, after } => if !clearable(piece@) {
            Some(ClearRefusal::King)
        } else if after.is_none() {
            Some(ClearRefusal::Invalid)
        } else {
            None
        },
    }
}

/// The room once the game ends: `Over`, both clocks stopped.
pub open spec fn ended(v: RoomView) -> RoomView {
    RoomView { p1: stop_seat(v.p1), p2: stop_seat(v.p2), state: RoomState::Over, ..v }
}

impl Room {
    pub open spec fn wf(&self) -> bool {
        room_wf(self@)
    }

    /// A room of the given type whose first seat holds the creator; the second
    /// seat is empty, the position is the starting one and the deck is fresh.
    pub fn new(
        id: String,
        name: String,
        avatar: String,
        avatar_orientation: u8,
        avatar_color: String,
        room_type: RoomType,
    ) -> (r: Self)
        ensures
            r.wf(),
            r@.p1 == Some(
                fresh_user(
                    id@,
                    name@,
                    avatar@,
                    avatar_orientation,
                    avatar_color@,
                    Seq::empty(),
                    duration(room_type),
                ),
            ),
            r@.p2.is_none(),
            r@.position == start_fen(),
            is_shuffled_deck(r@.board.tiles),
            r@.board.tiles.to_multiset() == fresh_deck().to_multiset(),
            r@.board.tiles.len() == 64,
            r@.board.flips.len() == 0,
            r@.turn.len() == 0,
            r@.turn_count == 0,
            r@.state == RoomState::Waiting,
            r@.room_type == room_type,
    {
        let time = match room_type {
            RoomType::Timed(t) => t,
            RoomType::Casual => 0,
        };
        let p1 = User::new(id, name, avatar, avatar_orientation, avatar_color, String::new(), time);
        Room {
            p1: Some(p1),
            p2: None,
            chess_fen: start_position(),
            memory_board: MemoryBoard::new(),
            turn: String::new(),
            turn_count: 0,
            state: RoomState::Waiting,
            room_type,
        }
    }

    /// A copy of the room.
    pub fn snapshot(&self) -> (r: Room)
        ensures
            r@ == self@,
    {
        let (p1, p2) = self.get_players();
        Room {
            p1,
            p2,
            chess_fen: self.chess_fen.clone(),
            memory_board: self.memory_board.snapshot(),
            turn: self.turn.clone(),
            turn_count: self.turn_count,
            state: self.state,
            room_type: self.room_type,
        }
    }

    /// The seconds each player starts with: the timed duration, or zero.
    pub fn get_time(&self) -> (r: u64)
        ensures
            r == duration(self@.room_type),
    {
        match self.room_type {
            RoomType::Timed(t) => t,
            RoomType::Casual => 0,
        }
    }

    /// Seats a player arriving on connection `p`, as `connect_view` says, and
    /// returns `true`; a room whose two players are both connected turns the
    /// newcomer away (`false`, nothing changed).
    pub fn connect_player(
        &mut self,
        p: String,
        name: String,
        avatar: String,
        avatar_orientation: u8,
        avatar_color: String,
    ) -> (r: bool)
        requires
            old(self).wf(),
        ensures
            final(self).wf(),
            r == !room_full(old(self)@),
            !r ==> final(self)@ == old(self)@,
            r ==> final(self)@ == connect_view(
                old(self)@,
                p@,
                name@,
                avatar@,
                avatar_orientation,
                avatar_color@,
            ),
    {
        let full = match (&self.p1, &self.p2) {
            (Some(a), Some(b)) => a.is_connected() && b.is_connected(),
            _ => false,
        };
        if full {
            return false;
        }
        let ghost v = self@;
        let time = self.get_time();
        let mut p1 = self.p1.take().unwrap();
        let mut replaced: Option<String> = None;
        if p1.matches(&name, &avatar, &avatar_orientation, &avatar_color) && !p1.is_connected() {
            replaced = Some(p1.get_id());
            p1.reconnect(p.clone());
            self.p1 = Some(p1);
        } else if self.p2.is_none() {
            self.p1 = Some(p1);
            self.p2 = Some(
                User::new(
                    p.clone(),
                    name,
                    avatar,
                    avatar_orientation,
                    avatar_color,
                    String::new(),
                    time,
                ),
            );
        } else {
            let mut p2 = self.p2.take().unwrap();
            if !p2.is_connected() && p2.matches(
                &name,
                &avatar,
                &avatar_orientation,
                &avatar_color,
            ) {
                replaced = Some(p2.get_id());
                p2.reconnect(p.clone());
                self.p1 = Some(p1);
                self.p2 = Some(p2);
            } else if p1.is_connected() {
                replaced = Some(p2.get_id());
                self.p1 = Some(p1);
                self.p2 = Some(
                    User::new(
                        p.clone(),
                        name,
                        avatar,
                        avatar_orientation,
                        avatar_color,
                        String::new(),
                        time,
                    ),
                );
            } else {
                replaced = Some(p1.get_id());
                self.p1 = Some(
                    User::new(
                        p.clone(),
                        name,
                        avatar,
                        avatar_orientation,
                        avatar_color,
                        String::new(),
                        time,
                    ),
                );
                self.p2 = Some(p2);
            }
        }
        let ghost s = connect_seats(v, p@, name@, avatar@, avatar_orientation, avatar_color@);
        assert(seat_view(self.p1) == s.0);
        assert(seat_view(self.p2) == s.1);
        let take_turn = match &replaced {
            Some(old_id) => self.turn.as_str().unicode_len() > 0 && *old_id == self.turn,
            None => false,
        };
        if take_turn {
            self.turn = p;
        }
        let both = match (&self.p1, &self.p2) {
            (Some(a), Some(b)) => a.is_connected() && b.is_connected(),
            _ => false,
        };
        if both {
            if self.turn_count == 0 {
                self.state = RoomState::Ready;
            } else {
                self.state = RoomState::Playing;
            }
        }
        true
    }

    /// Starts the game for the player on connection `p`, as `start_view` says.
    pub fn start_game(&mut self, p: String) -> (r: bool)
        requires
            old(self).wf(),
        ensures
            final(self).wf(),
            (final(self)@, r) == start_view(old(self)@, p@),
    {
        if self.state != RoomState::Ready || self.p1.is_none() || self.p2.is_none() {
            return false;
        }
        let ghost v = self@;
        let mut p1 = self.p1.take().unwrap();
        let mut p2 = self.p2.take().unwrap();
        let first = p1.get_id() == p;
        if !first && !(p2.get_id() == p) {
            self.p1 = Some(p1);
            self.p2 = Some(p2);
            return false;
        }
        proof {
            reveal_strlit("white");
            reveal_strlit("black");
        }
        if first {
            p1.set_chess_color(String::from_str("white"));
            p2.set_chess_color(String::from_str("black"));
            p2.end_turn();
            p1.start_turn();
        } else {
            p1.set_chess_color(String::from_str("black"));
            p2.set_chess_color(String::from_str("white"));
            p1.end_turn();
            p2.start_turn();
        }
        self.p1 = Some(p1);
        self.p2 = Some(p2);
        self.turn = p;
        self.state = RoomState::Playing;
        true
    }

    /// Whether the player on connection `p` could start the game now.
    pub fn can_start(&self, p: &String) -> (r: bool)
        ensures
            r == start_view(self@, p@).1,
    {
        if self.state != RoomState::Ready {
            return false;
        }
        match (&self.p1, &self.p2) {
            (Some(a), Some(b)) => a.get_id() == *p || b.get_id() == *p,
            _ => false,
        }
    }

    /// Plays a move by the player on connection `p`, given the rules engine's
    /// answer. A move that `refusal_of` turns down leaves the room alone. An
    /// accepted one starts a `Ready` game, face-up tiles are forgotten, a captured piece
    /// retires two of its tiles and a promotion turns two of the mover's pawn
    /// tiles (both chosen at random), the new position is stored, and the game
    /// ends or the turn passes, as `finish` says.
    pub fn apply_move(&mut self, p: String, verdict: MoveVerdict) -> (r: MoveReport)
        requires
            old(self).wf(),
        ensures
            final(self).wf(),
            refusal_of(old(self)@, p@, verdict) matches Some(f) ==> r == MoveReport::Refused(f)
                && final(self)@ == old(self)@,
            refusal_of(old(self)@, p@, verdict) is None ==> (verdict matches MoveVerdict::Legal(m) && r matches MoveReport::Played { started, removed, upgraded, result } && ({
                let v1 = prepared(old(self)@, p@);
                let v5 = RoomView { board: final(self)@.board, position: m.new_position@, ..v1 };
                &&& started == (old(self)@.state == RoomState::Ready)
                &&& final(self)@ == finish(v5, m.status, m.next_to_move)
                &&& result_view(result) == game_over_view(v5, m.status, m.next_to_move)
                &&& removed.is_some() == m.captured.is_some()
                &&& upgraded.is_some() ==> m.promotion.is_some()
                &&& exists|a: int, b: int, c: int, d: int|
                    #![trigger after_capture(v1.board, m, a, b), after_promotion(after_capture(v1.board, m, a, b).0, m, c, d)]
                    {
                        let (b1, rem) = after_capture(v1.board, m, a, b);
                        let (b2, up) = after_promotion(b1, m, c, d);
                        &&& capture_draws(v1.board, m, a, b)
                        &&& promotion_draws(b1, m, c, d)
                        &&& final(self)@.board == b2
                        &&& (removed matches Some(x) ==> x@ == rem)
                        &&& upgraded.is_some() == up.is_some()
                        &&& (upgraded matches Some(t) ==> up == Some((t.0.spec_index(), t.1.spec_index()))
                            && t.0.spec_value() == promoted_label(m.mover, text_of(m.promotion).unwrap())
                            && t.1.spec_value() == promoted_label(m.mover, text_of(m.promotion).unwrap()))
                    }
            })),
    {
        if self.timeout() {
            return MoveReport::Refused(Refusal::TimedOut);
        }
        let ready = self.state == RoomState::Ready;
        if self.state != RoomState::Playing && !(ready && self.can_start(&p)) {
            return MoveReport::Refused(Refusal::NotPlaying);
        }
        let m = match verdict {
            MoveVerdict::BadPosition => return MoveReport::Refused(Refusal::BadPosition),
            MoveVerdict::InvalidSquares => return MoveReport::Refused(Refusal::InvalidMove),
            MoveVerdict::Illegal => return MoveReport::Refused(Refusal::IllegalMove),
            MoveVerdict::Legal(m) => m,
        };
        let ghost v = self@;
        if ready {
            self.start_game(p);
        }
        self.memory_board.reset_flips();
        let ghost v1 = self@;
        assert(v1 == prepared(v, p@));
        let (a, b, removed) = match &m.captured {
            Some(c) => {
                let label = capture_label(c.as_str());
                let n = self.memory_board.count_label(label.as_str());
                let (a, b) = if n >= 2 {
                    (random_in(0, n), random_in(0, n - 1))
                } else {
                    (0, 0)
                };
                let removed = self.memory_board.remove_tiles_with(label.as_str(), a, b);
                (a, b, Some(removed))
            },
            None => (0, 0, None),
        };
        let ghost b1 = self@.board;
        assert(b1 == after_capture(v1.board, m, a as int, b as int).0);
        let (c, d, upgraded) = match &m.promotion {
            Some(piece) => {
                proof {
                    reveal_strlit("wp");
                    reveal_strlit("bp");
                }
                let pawn = match m.mover {
                    Side::White => String::from_str("wp"),
                    Side::Black => String::from_str("bp"),
                };
                assert(pawn@ =~= pawn_label(m.mover));
                let n = self.memory_board.count_label(pawn.as_str());
                let (c, d) = if n >= 2 {
                    (random_in(0, n), random_in(0, n - 1))
                } else {
                    (0, 0)
                };
                let up = self.memory_board.upgrade_tile_with(piece.as_str(), m.mover, c, d);
                (c, d, up)
            },
            None => (0, 0, None),
        };
        assert(self@.board == after_promotion(b1, m, c as int, d as int).0);
        self.chess_fen = m.new_position.clone();
        let result = is_game_over(m.status, m.next_to_move, self);
        if result.is_some() {
            self.end_game();
        } else {
            self.switch_turn();
        }
        MoveReport::Played { started: ready, removed, upgraded, result }
    }

    /// A tile flip by the player on connection `p`: refused (`None`, nothing
    /// changed) when a clock has run out, or unless the room is playing or `p`
    /// can start it; else the game
    /// starts if it was `Ready`, the tile is turned up as `flip_view` says, and
    /// a flip that happened counts as a turn. Returns whether the game started
    /// and the tile's base label, if it was turned.
    pub fn flip_action(&mut self, p: String, index: usize) -> (r: Option<(bool, Option<String>)>)
        requires
            old(self).wf(),
        ensures
            final(self).wf(),
            timed_out(old(self)@) || !(old(self)@.state == RoomState::Playing || (old(self)@.state
                == RoomState::Ready && start_view(old(self)@, p@).1)) ==> r.is_none() && final(self)@
                == old(self)@,
            !timed_out(old(self)@) && (old(self)@.state == RoomState::Playing || (old(self)@.state
                == RoomState::Ready && start_view(old(self)@, p@).1)) ==> (r matches Some((started, tile)) && ({
                let v1 = if old(self)@.state == RoomState::Ready {
                    start_view(old(self)@, p@).0
                } else {
                    old(self)@
                };
                let count = if tile.is_some() && v1.turn_count < u64::MAX {
                    (v1.turn_count + 1) as u64
                } else {
                    v1.turn_count
                };
                &&& started == (old(self)@.state == RoomState::Ready)
                &&& tile.is_none() == flip_refused(v1.board, index as int)
                &&& (tile matches Some(t) ==> t@ == base_label(v1.board.tiles[index as int]))
                &&& final(self)@ == (RoomView {
                    board: flip_view(v1.board, index as int),
                    turn_count: count,
                    ..v1
                })
            })),
    {
        if self.timeout() {
            return None;
        }
        let started = self.state == RoomState::Ready;
        if !self.ensure_playing(p) {
            return None;
        }
        let tile = self.memory_board.flip_tile(index);
        if tile.is_some() && self.turn_count < u64::MAX {
            self.turn_count = self.turn_count + 1;
        }
        Some((started, tile))
    }

    /// Matching the face-up tiles, only while playing with time left on both
    /// clocks (else `None`, nothing changed): returns the indices that were up
    /// and what the match reports.
    pub fn match_action(&mut self) -> (r: Option<(Vec<usize>, MatchedTiles)>)
        requires
            old(self).wf(),
        ensures
            final(self).wf(),
            old(self)@.state != RoomState::Playing || timed_out(old(self)@) ==> r.is_none()
                && final(self)@ == old(self)@,
            old(self)@.state == RoomState::Playing && !timed_out(old(self)@) ==> (r matches Some((flips, m)) && flips@
                == old(self)@.board.flips && final(self)@ == (RoomView {
                board: final(self)@.board,
                ..old(self)@
            }) && exists|pick: int|
                (partners(old(self)@.board).len() > 0 ==> 0 <= pick < partners(
                    old(self)@.board,
                ).len()) && final(self)@.board == match_outcome(old(self)@.board, pick).0 && m@
                    == match_outcome(old(self)@.board, pick).1),
    {
        if self.state != RoomState::Playing || self.timeout() {
            return None;
        }
        let flips = self.memory_board.get_flips();
        let m = self.memory_board.match_tiles();
        Some((flips, m))
    }

    /// Takes a piece off the board, given the rules engine's answer. What
    /// `clear_refusal` turns down leaves the room alone. Otherwise the new
    /// position is stored, and the game ends when `game_over_view` gives a result.
    pub fn apply_clear(&mut self, verdict: ClearVerdict) -> (r: ClearReport)
        requires
            old(self).wf(),
        ensures
            final(self).wf(),
            clear_refusal(verdict) matches Some(f) ==> r == ClearReport::Refused(f) && final(self)@
                == old(self)@,
            clear_refusal(verdict) is None ==> (verdict matches ClearVerdict::Piece { piece, after }
                && r matches ClearReport::Cleared { piece: taken, result } && ({
                let (pos, status, side) = after.unwrap();
                let v1 = RoomView { position: pos@, ..old(self)@ };
                &&& taken@ == piece@
                &&& result_view(result) == game_over_view(v1, status, side)
                &&& final(self)@ == (if result.is_some() { ended(v1) } else { v1 })
            })),
    {
        match verdict {
            ClearVerdict::BadPosition => ClearReport::Refused(ClearRefusal::BadPosition),
            ClearVerdict::NoPiece => ClearReport::Refused(ClearRefusal::NoPiece),
            ClearVerdict::Piece { piece, after } => {
                if !may_clear(piece.as_str()) {
                    return ClearReport::Refused(ClearRefusal::King);
                }
                match after {
                    None => ClearReport::Refused(ClearRefusal::Invalid),
                    Some((pos, status, side)) => {
                        self.chess_fen = pos;
                        let result = is_game_over(status, side, self);
                        if result.is_some() {
                            self.end_game();
                        }
                        ClearReport::Cleared { piece, result }
                    },
                }
            },
        }
    }

    /// Readies the room for a turn action by the player on connection `p`: a
    /// `Playing` room is ready as it is; a `Ready` room starts with `p` as the
    /// starter (see `start_view`); any other room refuses (`false`, nothing changed).
    pub fn ensure_playing(&mut self, p: String) -> (r: bool)
        requires
            old(self).wf(),
        ensures
            final(self).wf(),
            old(self)@.state == RoomState::Playing ==> r && final(self)@ == old(self)@,
            old(self)@.state == RoomState::Ready ==> (final(self)@, r) == start_view(old(self)@, p@),
            old(self)@.state != RoomState::Playing && old(self)@.state != RoomState::Ready ==> !r
                && final(self)@ == old(self)@,
    {
        if self.state == RoomState::Playing {
            true
        } else if self.state == RoomState::Ready {
            self.start_game(p)
        } else {
            false
        }
    }

    /// Marks the player on connection `p` as disconnected, as `disconnect_view` says.
    pub fn disconnect_player(&mut self, p: String)
        requires
            old(self).wf(),
        ensures
            final(self).wf(),
            final(self)@ == disconnect_view(old(self)@, p@),
    {
        let in_first = match &self.p1 {
            Some(u) => u.get_id() == p,
            None => false,
        };
        if in_first {
            let mut u = self.p1.take().unwrap();
            u.disconnect();
            self.p1 = Some(u);
            return;
        }
        let in_second = match &self.p2 {
            Some(u) => u.get_id() == p,
            None => false,
        };
        if in_second {
            let mut u = self.p2.take().unwrap();
            u.disconnect();
            self.p2 = Some(u);
        }
    }

    /// Starts over: the starting position, a freshly shuffled deck, nobody's
    /// turn, no turns taken, both clocks stopped at the room's duration, `Ready`.
    pub fn reset_game(&mut self)
        requires
            old(self).wf(),
        ensures
            final(self).wf(),
            final(self)@.p1 == reset_seat(old(self)@.p1, duration(old(self)@.room_type)),
            final(self)@.p2 == reset_seat(old(self)@.p2, duration(old(self)@.room_type)),
            final(self)@.position == start_fen(),
            is_shuffled_deck(final(self)@.board.tiles),
            final(self)@.board.tiles.to_multiset() == fresh_deck().to_multiset(),
            final(self)@.board.tiles.len() == 64,
            final(self)@.board.flips.len() == 0,
            final(self)@.turn.len() == 0,
            final(self)@.turn_count == 0,
            final(self)@.state == RoomState::Ready,
            final(self)@.room_type == old(self)@.room_type,
    {
        let time = self.get_time();
        self.chess_fen = start_position();
        self.memory_board = MemoryBoard::new();
        self.turn = String::new();
        self.turn_count = 0;
        self.state = RoomState::Ready;
        match self.p1.take() {
            Some(mut u) => {
                u.end_turn();
                u.reset_time(time);
                self.p1 = Some(u);
            },
            None => {},
        }
        match self.p2.take() {
            Some(mut u) => {
                u.end_turn();
                u.reset_time(time);
                self.p2 = Some(u);
            },
            None => {},
        }
    }

    /// How many turns were taken.
    pub fn get_turn_count(&self) -> (r: u64)
        ensures
            r == self@.turn_count,
    {
        self.turn_count
    }

    pub fn get_state(&self) -> (r: RoomState)
        ensures
            r == self@.state,
    {
        self.state
    }

    /// The number of connected players.
    pub fn player_count(&self) -> (r: u32)
        ensures
            r == connected_count(self@),
    {
        let mut count: u32 = 0;
        match &self.p1 {
            Some(u) => if u.is_connected() {
                count = count + 1;
            },
            None => {},
        }
        match &self.p2 {
            Some(u) => if u.is_connected() {
                count = count + 1;
            },
            None => {},
        }
        count
    }

    /// The connection id of the turn holder, if anybody holds the turn.
    pub fn get_turn(&self) -> (r: Option<String>)
        ensures
            self@.turn.len() == 0 ==> r.is_none(),
            self@.turn.len() > 0 ==> (r matches Some(t) && t@ == self@.turn),
    {
        if self.turn.as_str().unicode_len() > 0 {
            Some(self.turn.clone())
        } else {
            None
        }
    }

    /// Passes the turn, as `switch_view` says: the holder's clock stops before
    /// the other one starts.
    pub fn switch_turn(&mut self)
        requires
            old(self).wf(),
        ensures
            final(self).wf(),
            final(self)@ == switch_view(old(self)@),
    {
        if self.state != RoomState::Playing || self.p1.is_none() || self.p2.is_none() {
            return;
        }
        let mut p1 = self.p1.take().unwrap();
        let mut p2 = self.p2.take().unwrap();
        if self.turn == p1.get_id() {
            p1.end_turn();
            self.turn = p2.get_id();
            p2.start_turn();
        } else {
            p2.end_turn();
            self.turn = p1.get_id();
            p1.start_turn();
        }
        self.p1 = Some(p1);
        self.p2 = Some(p2);
        if self.turn_count < u64::MAX {
            self.turn_count = self.turn_count + 1;
        }
    }

    /// Counts one more turn (the count stops at its largest value).
    pub fn increment_turns(&mut self)
        requires
            old(self).wf(),
        ensures
            final(self).wf(),
            final(self)@ == (RoomView {
                turn_count: if old(self)@.turn_count < u64::MAX {
                    (old(self)@.turn_count + 1) as u64
                } else {
                    old(self)@.turn_count
                },
                ..old(self)@
            }),
    {
        if self.turn_count < u64::MAX {
            self.turn_count = self.turn_count + 1;
        }
    }

    /// Ends the game: the room is `Over` and both clocks are stopped.
    pub fn end_game(&mut self)
        requires
            old(self).wf(),
        ensures
            final(self).wf(),
            final(self)@ == (RoomView {
                p1: stop_seat(old(self)@.p1),
                p2: stop_seat(old(self)@.p2),
                state: RoomState::Over,
                ..old(self)@
            }),
    {
        self.state = RoomState::Over;
        match self.p1.take() {
            Some(mut u) => {
                u.end_turn();
                self.p1 = Some(u);
            },
            None => {},
        }
        match self.p2.take() {
            Some(mut u) => {
                u.end_turn();
                self.p2 = Some(u);
            },
            None => {},
        }
    }

    /// One second passes on both clocks (only a running one changes).
    pub fn tick(&mut self)
        requires
            old(self).wf(),
        ensures
            final(self).wf(),
            final(self)@ == (RoomView {
                p1: tick_seat(old(self)@.p1),
                p2: tick_seat(old(self)@.p2),
                ..old(self)@
            }),
    {
        match self.p1.take() {
            Some(mut u) => {
                u.tick();
                self.p1 = Some(u);
            },
            None => {},
        }
        match self.p2.take() {
            Some(mut u) => {
                u.tick();
                self.p2 = Some(u);
            },
            None => {},
        }
    }

    /// Seconds left for each seat (zero for an empty seat).
    pub fn get_player_times(&self) -> (r: (u64, u64))
        ensures
            r.0 == (if self@.p1.is_some() { self@.p1.unwrap().clock.remaining } else { 0 }),
            r.1 == (if self@.p2.is_some() { self@.p2.unwrap().clock.remaining } else { 0 }),
    {
        let a = match &self.p1 {
            Some(u) => u.get_time(),
            None => 0,
        };
        let b = match &self.p2 {
            Some(u) => u.get_time(),
            None => 0,
        };
        (a, b)
    }

    pub fn get_type(&self) -> (r: RoomType)
        ensures
            r == self@.room_type,
    {
        self.room_type
    }

    /// Whether a player of a timed room with both seats taken has run out of time.
    pub fn timeout(&self) -> (r: bool)
        ensures
            r == timed_out(self@),
    {
        match (&self.p1, &self.p2) {
            (Some(a), Some(b)) => {
                if self.room_type == RoomType::Casual {
                    false
                } else {
                    a.get_time() == 0 || b.get_time() == 0
                }
            },
            _ => false,
        }
    }

    /// The result of a timed-out room, as `timeout_view` says.
    pub fn timeout_result(&self) -> (r: Option<GameResult>)
        ensures
            result_view(r) == timeout_view(self@),
    {
        if !self.timeout() {
            return None;
        }
        let (a, b) = self.get_players();
        let p1 = a.unwrap();
        let p2 = b.unwrap();
        proof {
            reveal_strlit("timeout");
        }
        let result = String::from_str("timeout");
        if p2.get_time() > 0 {
            Some(GameResult { player1: p2, player2: p1, result })
        } else {
            Some(GameResult { player1: p1, player2: p2, result })
        }
    }

    /// Copies of the two seats.
    pub fn get_players(&self) -> (r: (Option<User>, Option<User>))
        ensures
            seat_view(r.0) == self@.p1,
            seat_view(r.1) == self@.p2,
    {
        let a = match &self.p1 {
            Some(u) => Some(u.snapshot()),
            None => None,
        };
        let b = match &self.p2 {
            Some(u) => Some(u.snapshot()),
            None => None,
        };
        (a, b)
    }

    /// The player with the given side, once both players are connected.
    fn seat_with_color(&self, color: &str) -> (r: Option<User>)
        ensures
            connected_count(self@) != 2 ==> r.is_none(),
            connected_count(self@) == 2 ==> r.is_some() && (if self@.p1.unwrap().chess_color
                == color@ {
                r.unwrap()@ == self@.p1.unwrap()
            } else {
                r.unwrap()@ == self@.p2.unwrap()
            }),
    {
        if self.player_count() != 2 {
            return None;
        }
        match (&self.p1, &self.p2) {
            (Some(a), Some(b)) => {
                let c = String::from_str(color);
                if a.get_chess_color() == c {
                    Some(a.snapshot())
                } else {
                    Some(b.snapshot())
                }
            },
            _ => None,
        }
    }

    /// The white player, once both players are connected (the second seat's
    /// player unless the first one plays white).
    pub fn get_white(&self) -> (r: Option<User>)
        ensures
            connected_count(self@) != 2 ==> r.is_none(),
            connected_count(self@) == 2 ==> r.is_some() && (if self@.p1.unwrap().chess_color
                == white_text() {
                r.unwrap()@ == self@.p1.unwrap()
            } else {
                r.unwrap()@ == self@.p2.unwrap()
            }),
    {
        proof {
            reveal_strlit("white");
        }
        self.seat_with_color("white")
    }

    /// The black player, once both players are connected (the second seat's
    /// player unless the first one plays black).
    pub fn get_black(&self) -> (r: Option<User>)
        ensures
            connected_count(self@) != 2 ==> r.is_none(),
            connected_count(self@) == 2 ==> r.is_some() && (if self@.p1.unwrap().chess_color
                == black_text() {
                r.unwrap()@ == self@.p1.unwrap()
            } else {
                r.unwrap()@ == self@.p2.unwrap()
            }),
    {
        proof {
            reveal_strlit("black");
        }
        self.seat_with_color("black")
    }

    /// The position, in Forsyth–Edwards notation.
    pub fn get_position(&self) -> (r: String)
        ensures
            r@ == self@.position,
    {
        self.chess_fen.clone()
    }

    /// Replaces the position.
    pub fn set_position(&mut self, fen: String)
        requires
            old(self).wf(),
        ensures
            final(self).wf(),
            final(self)@ == (RoomView { position: fen@, ..old(self)@ }),
    {
        self.chess_fen = fen;
    }

    /// The side that wins on material: the other side is down to one piece
    /// (`None` also when the stored position cannot be read).
    pub fn check_win(&self) -> (r: Option<Side>)
        ensures
            r == position_winner(self@.position),
    {
        check_position(self.chess_fen.as_str())
    }

    /// A copy of the tile deck.
    pub fn get_memory_board(&self) -> (r: MemoryBoard)
        ensures
            r@ == self@.board,
    {
        self.memory_board.snapshot()
    }

    /// Replaces the tile deck.
    pub fn set_memory_board(&mut self, board: MemoryBoard)
        requires
            old(self).wf(),
            board.wf(),
        ensures
            final(self).wf(),
            final(self)@ == (RoomView { board: board@, ..old(self)@ }),
    {
        self.memory_board = board;
    }

    /// Turns a tile of the deck face up (see `MemoryBoard::flip_tile`).
    pub fn flip_tile(&mut self, index: usize) -> (r: Option<String>)
        requires
            old(self).wf(),
        ensures
            final(self).wf(),
            final(self)@ == (RoomView { board: flip_view(old(self)@.board, index as int), ..old(self)@ }),
            r.is_none() == flip_refused(old(self)@.board, index as int),
            r matches Some(s) ==> s@ == base_label(old(self)@.board.tiles[index as int]),
    {
        self.memory_board.flip_tile(index)
    }

    /// Matches the two face-up tiles of the deck (see `MemoryBoard::match_tiles`).
    pub fn match_tiles(&mut self) -> (r: MatchedTiles)
        requires
            old(self).wf(),
        ensures
            final(self).wf(),
            final(self)@ == (RoomView { board: final(self)@.board, ..old(self)@ }),
            exists|pick: int|
                (partners(old(self)@.board).len() > 0 ==> 0 <= pick < partners(
                    old(self)@.board,
                ).len()) && final(self)@.board == match_outcome(old(self)@.board, pick).0 && r@
                    == match_outcome(old(self)@.board, pick).1,
    {
        self.memory_board.match_tiles()
    }

    /// Forgets the face-up tiles of the deck.
    pub fn reset_flips(&mut self)
        requires
            old(self).wf(),
        ensures
            final(self).wf(),
            final(self)@ == (RoomView {
                board: BoardView { tiles: old(self)@.board.tiles, flips: Seq::empty() },
                ..old(self)@
            }),
    {
        self.memory_board.reset_flips();
    }

    /// Turns two of a side's pawn tiles into `piece` (see `MemoryBoard::upgrade_tile`).
    pub fn upgrade_tile(&mut self, piece: String, side: Side) -> (r: Option<(Tile, Tile)>)
        requires
            old(self).wf(),
        ensures
            final(self).wf(),
            final(self)@ == (RoomView { board: final(self)@.board, ..old(self)@ }),
            exists|first: int, second: int|
                #![trigger upgrade_outcome(old(self)@.board, side, piece@, first, second)]
                {
                    let o = upgrade_outcome(old(self)@.board, side, piece@, first, second);
                    &&& valid_draws(
                        on_deck(old(self)@.board.tiles, pawn_label(side)).len() as int,
                        first,
                        second,
                    )
                    &&& final(self)@.board == o.0
                    &&& r.is_some() == o.1.is_some()
                    &&& r matches Some(p) ==> {
                        &&& o.1 == Some((p.0.spec_index(), p.1.spec_index()))
                        &&& p.0.spec_value() == promoted_label(side, piece@)
                        &&& p.1.spec_value() == promoted_label(side, piece@)
                    }
                },
    {
        self.memory_board.upgrade_tile(piece, side)
    }

    /// Retires two deck tiles labelled `piece` (see `MemoryBoard::remove_tiles`).
    pub fn remove_tiles(&mut self, piece: String) -> (r: Vec<usize>)
        requires
            old(self).wf(),
        ensures
            final(self).wf(),
            final(self)@ == (RoomView { board: final(self)@.board, ..old(self)@ }),
            exists|first: int, second: int|
                #![trigger remove_outcome(old(self)@.board, piece@, first, second)]
                valid_draws(on_deck(old(self)@.board.tiles, piece@).len() as int, first, second)
                    && final(self)@.board == remove_outcome(old(self)@.board, piece@, first, second).0
                    && r@ == remove_outcome(old(self)@.board, piece@, first, second).1,
    {
        self.memory_board.remove_tiles(piece)
    }
}

} // verus!