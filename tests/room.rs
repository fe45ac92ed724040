use memory_chess::messages::{capture_label, promotion_of, CreateRoom, Promotion};
use memory_chess::position::{
    check_position, is_readable_position, rights_without_rook, winner_by_material, CastlingRights,
};
use memory_chess::room::{
    is_game_over, ClearRefusal, ClearReport, ClearVerdict, GameStatus, LegalMove, MoveReport, MoveVerdict, Refusal, Room, RoomState, RoomType,
};
use memory_chess::tiles::{MemoryBoard, Side};

const START: &str = "rnbqkbnr/pppppppp/8/8/8/8/PPPPPPPP/RNBQKBNR w KQkq - 0 1";

fn room(kind: RoomType) -> Room {
    Room::new("a1".to_string(), "ann".to_string(), "cat".to_string(), 1, "red".to_string(), kind)
}

fn join_bob(r: &mut Room, id: &str) {
    r.connect_player(id.to_string(), "bob".to_string(), "dog".to_string(), 2, "blue".to_string());
}

#[test]
fn new_room_waits_for_a_second_player() {
    let r = room(RoomType::Timed(300));
    assert_eq!(r.get_state(), RoomState::Waiting);
    assert_eq!(r.player_count(), 1);
    assert_eq!(r.get_turn(), None);
    assert_eq!(r.get_player_times(), (300, 0));
    assert_eq!(r.get_position(), START);
    assert_eq!(r.get_type(), RoomType::Timed(300));
    assert_eq!(r.get_time(), 300);
    assert_eq!(r.get_memory_board().to_parts().0.len(), 64);
    let (p1, p2) = r.get_players();
    assert!(p2.is_none());
    let p1 = p1.unwrap();
    assert_eq!(p1.get_id(), "a1");
    assert_eq!(p1.get_chess_color(), "");
    assert!(p1.is_connected());
}

#[test]
fn second_player_then_start() {
    let mut r = room(RoomType::Timed(60));
    join_bob(&mut r, "b1");
    assert_eq!(r.get_state(), RoomState::Ready);
    assert_eq!(r.player_count(), 2);
    assert!(r.start_game("a1".to_string()));
    assert_eq!(r.get_state(), RoomState::Playing);
    assert_eq!(r.get_turn(), Some("a1".to_string()));
    let (p1, p2) = r.get_players();
    let (p1, p2) = (p1.unwrap(), p2.unwrap());
    assert!(p1.get_clock().running);
    assert!(!p2.get_clock().running);
    assert_eq!(p1.get_chess_color(), "white");
    assert_eq!(p2.get_chess_color(), "black");
    assert_eq!(r.get_white().unwrap().get_id(), "a1");
    assert_eq!(r.get_black().unwrap().get_id(), "b1");
}

#[test]
fn start_is_refused_outside_ready_or_by_a_stranger() {
    let mut r = room(RoomType::Casual);
    assert!(!r.start_game("a1".to_string()));
    assert_eq!(r.get_state(), RoomState::Waiting);
    join_bob(&mut r, "b1");
    assert!(!r.start_game("zz".to_string()));
    assert_eq!(r.get_state(), RoomState::Ready);
    assert!(r.start_game("b1".to_string()));
    assert_eq!(r.get_white().unwrap().get_id(), "b1");
    assert!(!r.start_game("b1".to_string()));
}

#[test]
fn switching_turns_moves_the_running_clock() {
    let mut r = room(RoomType::Timed(10));
    join_bob(&mut r, "b1");
    r.start_game("a1".to_string());
    r.tick();
    r.tick();
    assert_eq!(r.get_player_times(), (8, 10));
    r.switch_turn();
    assert_eq!(r.get_turn(), Some("b1".to_string()));
    let (p1, p2) = r.get_players();
    assert!(!p1.unwrap().get_clock().running);
    assert!(p2.unwrap().get_clock().running);
    r.tick();
    assert_eq!(r.get_player_times(), (8, 9));
    r.switch_turn();
    assert_eq!(r.get_turn(), Some("a1".to_string()));
}

#[test]
fn switch_outside_play_does_nothing() {
    let mut r = room(RoomType::Timed(10));
    join_bob(&mut r, "b1");
    r.switch_turn();
    assert_eq!(r.get_turn(), None);
    assert_eq!(r.get_state(), RoomState::Ready);
}

#[test]
fn clock_runs_out_and_stops() {
    let mut r = room(RoomType::Timed(2));
    join_bob(&mut r, "b1");
    r.start_game("b1".to_string());
    assert!(!r.timeout());
    r.tick();
    r.tick();
    assert!(r.timeout());
    r.tick();
    let (_, p2) = r.get_players();
    let c = p2.unwrap().get_clock();
    assert_eq!(c.remaining, 0);
    assert!(!c.running);
    let res = r.timeout_result().unwrap();
    assert_eq!(res.player1.get_id(), "a1");
    assert_eq!(res.player2.get_id(), "b1");
    assert_eq!(res.result, "timeout");
}

#[test]
fn casual_rooms_never_time_out() {
    let mut r = room(RoomType::Casual);
    join_bob(&mut r, "b1");
    r.start_game("a1".to_string());
    assert_eq!(r.get_player_times(), (0, 0));
    assert!(!r.timeout());
    assert!(r.timeout_result().is_none());
}

#[test]
fn reconnect_restores_time_side_and_turn() {
    let mut r = room(RoomType::Timed(30));
    join_bob(&mut r, "b1");
    r.start_game("b1".to_string());
    r.tick();
    r.disconnect_player("b1".to_string());
    assert_eq!(r.player_count(), 1);
    assert_eq!(r.get_state(), RoomState::Playing);
    join_bob(&mut r, "b2");
    let (_, p2) = r.get_players();
    let p2 = p2.unwrap();
    assert_eq!(p2.get_id(), "b2");
    assert!(p2.is_connected());
    assert_eq!(p2.get_time(), 29);
    assert_eq!(p2.get_chess_color(), "white");
    assert_eq!(r.get_turn(), Some("b2".to_string()));
}

#[test]
fn first_seat_reconnects_too() {
    let mut r = room(RoomType::Timed(30));
    join_bob(&mut r, "b1");
    r.start_game("a1".to_string());
    r.switch_turn();
    r.disconnect_player("a1".to_string());
    r.connect_player("a2".to_string(), "ann".to_string(), "cat".to_string(), 1, "red".to_string());
    let (p1, _) = r.get_players();
    let p1 = p1.unwrap();
    assert_eq!(p1.get_id(), "a2");
    assert_eq!(p1.get_chess_color(), "white");
    assert_eq!(r.get_turn(), Some("b1".to_string()));
    assert_eq!(r.get_state(), RoomState::Playing);
}

#[test]
fn newcomer_takes_an_abandoned_seat() {
    let mut r = room(RoomType::Casual);
    join_bob(&mut r, "b1");
    r.disconnect_player("b1".to_string());
    r.connect_player("c1".to_string(), "cy".to_string(), "owl".to_string(), 0, "green".to_string());
    let (_, p2) = r.get_players();
    let p2 = p2.unwrap();
    assert_eq!(p2.get_id(), "c1");
    assert_eq!(p2.get_name(), "cy");
    assert_eq!(r.player_count(), 2);
    assert_eq!(r.get_state(), RoomState::Ready);
}

#[test]
fn reset_restarts_the_game() {
    let mut r = room(RoomType::Timed(5));
    join_bob(&mut r, "b1");
    r.start_game("a1".to_string());
    r.tick();
    r.flip_tile(0);
    r.set_position("8/8/8/8/8/8/8/K6k w - - 0 1".to_string());
    r.end_game();
    assert_eq!(r.get_state(), RoomState::Over);
    r.reset_game();
    assert_eq!(r.get_state(), RoomState::Ready);
    assert_eq!(r.get_turn(), None);
    assert_eq!(r.get_player_times(), (5, 5));
    assert_eq!(r.get_position(), START);
    assert!(r.get_memory_board().get_flips().is_empty());
    let (p1, _) = r.get_players();
    assert!(!p1.unwrap().get_clock().running);
}

#[test]
fn room_tile_actions() {
    let mut r = room(RoomType::Casual);
    let label = r.flip_tile(7).unwrap();
    assert_eq!(r.get_memory_board().get_flips(), vec![7]);
    r.reset_flips();
    assert!(r.get_memory_board().get_flips().is_empty());
    let removed = r.remove_tiles(label.clone());
    assert_eq!(removed.len(), 2);
    let pawns = r.upgrade_tile("r".to_string(), Side::White).unwrap();
    assert_eq!(pawns.0.get_value(), "wr");
    r.set_memory_board(MemoryBoard::new());
    r.increment_turns();
    join_bob(&mut r, "b1");
    assert_eq!(r.get_state(), RoomState::Playing);
}

#[test]
fn room_type_names() {
    assert_eq!(RoomType::Casual.to_string(), "casual");
    assert_eq!(RoomType::Timed(9).to_string(), "timed");
    let c = CreateRoom {
        name: "n".to_string(),
        avatar: "a".to_string(),
        avatar_orientation: 0,
        avatar_color: "c".to_string(),
        time: Some(90),
    };
    assert_eq!(c.room_type(), RoomType::Timed(90));
    let d = CreateRoom { time: None, ..c };
    assert_eq!(d.room_type(), RoomType::Casual);
}

#[test]
fn material_decides() {
    assert_eq!(winner_by_material(1, 5), Some(Side::Black));
    assert_eq!(winner_by_material(5, 1), Some(Side::White));
    assert_eq!(winner_by_material(3, 4), None);
    assert_eq!(check_position("3qk3/8/8/8/8/8/8/4K3 w - - 0 1"), Some(Side::Black));
    assert_eq!(check_position("4k3/8/8/8/8/8/8/3QK3 b - - 0 1"), Some(Side::White));
    assert_eq!(check_position(START), None);
    assert_eq!(check_position("not a position"), None);
}

#[test]
fn game_over_results() {
    let mut r = room(RoomType::Casual);
    join_bob(&mut r, "b1");
    r.start_game("a1".to_string());
    assert!(is_game_over(GameStatus::Ongoing, Side::White, &r).is_none());
    let mate = is_game_over(GameStatus::Checkmate, Side::Black, &r).unwrap();
    assert_eq!(mate.result, "checkmate");
    assert_eq!(mate.player1.get_id(), "a1");
    let stale = is_game_over(GameStatus::Stalemate, Side::White, &r).unwrap();
    assert_eq!(stale.result, "stalemate");
    r.set_position("3qk3/8/8/8/8/8/8/4K3 w - - 0 1".to_string());
    assert_eq!(r.check_win(), Some(Side::Black));
    let over = is_game_over(GameStatus::Ongoing, Side::White, &r).unwrap();
    assert_eq!(over.result, "game_over");
    assert_eq!(over.player1.get_id(), "b1");
}

#[test]
fn capture_labels() {
    assert_eq!(capture_label("p"), "bp");
    assert_eq!(capture_label("K"), "wk");
    assert_eq!(capture_label("N"), "wn");
    assert_eq!(capture_label("x"), "");
    assert_eq!(capture_label("pp"), "");
}

#[test]
fn castling_after_a_rook_leaves() {
    assert_eq!(rights_without_rook(CastlingRights::Both, Side::White, "a1"), CastlingRights::KingSide);
    assert_eq!(rights_without_rook(CastlingRights::Both, Side::Black, "h8"), CastlingRights::QueenSide);
    assert_eq!(rights_without_rook(CastlingRights::KingSide, Side::White, "h1"), CastlingRights::NoRights);
    assert_eq!(rights_without_rook(CastlingRights::Both, Side::White, "a8"), CastlingRights::Both);
}

fn legal(captured: Option<&str>, promotion: Option<&str>, position: &str) -> LegalMove {
    LegalMove {
        captured: captured.map(|s| s.to_string()),
        promotion: promotion.map(|s| s.to_string()),
        mover: Side::White,
        new_position: position.to_string(),
        status: GameStatus::Ongoing,
        next_to_move: Side::Black,
    }
}

fn count_label(r: &Room, label: &str) -> usize {
    r.get_memory_board().to_parts().0.iter().filter(|t| t.trim_matches('_') == label).count()
}

#[test]
fn refused_moves_change_nothing() {
    let mut r = room(RoomType::Timed(60));
    match r.apply_move("a1".to_string(), MoveVerdict::Illegal) {
        MoveReport::Refused(f) => assert_eq!(f, Refusal::NotPlaying),
        other => panic!("unexpected {:?}", other),
    }
    join_bob(&mut r, "b1");
    r.flip_tile(0);
    for (verdict, why) in [
        (MoveVerdict::BadPosition, Refusal::BadPosition),
        (MoveVerdict::InvalidSquares, Refusal::InvalidMove),
        (MoveVerdict::Illegal, Refusal::IllegalMove),
    ] {
        match r.apply_move("a1".to_string(), verdict) {
            MoveReport::Refused(f) => assert_eq!(f, why),
            other => panic!("unexpected {:?}", other),
        }
        assert_eq!(r.get_state(), RoomState::Ready);
        assert_eq!(r.get_memory_board().get_flips(), vec![0]);
    }
    match r.apply_move("zz".to_string(), MoveVerdict::Legal(legal(None, None, START))) {
        MoveReport::Refused(f) => assert_eq!(f, Refusal::NotPlaying),
        other => panic!("unexpected {:?}", other),
    }
}

#[test]
fn a_capture_starts_the_game_and_passes_the_turn() {
    let mut r = room(RoomType::Timed(60));
    join_bob(&mut r, "b1");
    r.flip_tile(5);
    let after = "rnbqkbnr/ppp1pppp/8/3P4/8/8/PPP1PPPP/RNBQKBNR b KQkq - 0 2";
    match r.apply_move("a1".to_string(), MoveVerdict::Legal(legal(Some("p"), None, after))) {
        MoveReport::Played { started, removed, upgraded, result } => {
            assert!(started);
            assert_eq!(removed.unwrap().len(), 2);
            assert!(upgraded.is_none());
            assert!(result.is_none());
        }
        other => panic!("unexpected {:?}", other),
    }
    assert_eq!(r.get_state(), RoomState::Playing);
    assert_eq!(r.get_turn(), Some("b1".to_string()));
    assert_eq!(r.get_position(), after);
    assert!(r.get_memory_board().get_flips().is_empty());
    assert_eq!(count_label(&r, "bp"), 14);
    assert_eq!(r.get_turn_count(), 1);
}

#[test]
fn a_promotion_turns_pawn_tiles() {
    let mut r = room(RoomType::Casual);
    join_bob(&mut r, "b1");
    r.start_game("a1".to_string());
    match r.apply_move("a1".to_string(), MoveVerdict::Legal(legal(None, Some("Q"), START))) {
        MoveReport::Played { started, upgraded, .. } => {
            assert!(!started);
            let (a, b) = upgraded.unwrap();
            assert_eq!(a.get_value(), "wq");
            assert_eq!(b.get_value(), "wq");
        }
        other => panic!("unexpected {:?}", other),
    }
    assert_eq!(count_label(&r, "wp"), 14);
    assert_eq!(count_label(&r, "wq"), 4);
}

#[test]
fn a_move_that_ends_the_game() {
    let mut r = room(RoomType::Timed(60));
    join_bob(&mut r, "b1");
    r.start_game("a1".to_string());
    let lone_king = "3qk3/8/8/8/8/8/8/4K3 w - - 0 1";
    match r.apply_move("a1".to_string(), MoveVerdict::Legal(legal(Some("Q"), None, lone_king))) {
        MoveReport::Played { result, .. } => {
            let g = result.unwrap();
            assert_eq!(g.result, "game_over");
            assert_eq!(g.player1.get_id(), "b1");
        }
        other => panic!("unexpected {:?}", other),
    }
    assert_eq!(r.get_state(), RoomState::Over);
    let (p1, p2) = r.get_players();
    assert!(!p1.unwrap().get_clock().running && !p2.unwrap().get_clock().running);
}

#[test]
fn a_move_after_time_ran_out() {
    let mut r = room(RoomType::Timed(1));
    join_bob(&mut r, "b1");
    r.start_game("a1".to_string());
    r.tick();
    match r.apply_move("a1".to_string(), MoveVerdict::Legal(legal(None, None, START))) {
        MoveReport::Refused(f) => assert_eq!(f, Refusal::TimedOut),
        other => panic!("unexpected {:?}", other),
    }
}

#[test]
fn ensure_playing_starts_a_ready_room() {
    let mut r = room(RoomType::Casual);
    assert!(!r.ensure_playing("a1".to_string()));
    join_bob(&mut r, "b1");
    assert!(r.ensure_playing("b1".to_string()));
    assert_eq!(r.get_turn(), Some("b1".to_string()));
    assert!(r.ensure_playing("a1".to_string()));
    assert_eq!(r.get_turn(), Some("b1".to_string()));
    r.end_game();
    assert!(!r.ensure_playing("a1".to_string()));
}

#[test]
fn flip_and_match_actions() {
    let mut r = room(RoomType::Casual);
    assert!(r.flip_action("a1".to_string(), 0).is_none());
    assert!(r.match_action().is_none());
    join_bob(&mut r, "b1");
    let (started, tile) = r.flip_action("a1".to_string(), 0).unwrap();
    assert!(started);
    assert!(tile.is_some());
    assert_eq!(r.get_turn_count(), 1);
    let (started, again) = r.flip_action("b1".to_string(), 0).unwrap();
    assert!(!started);
    assert!(again.is_none());
    assert_eq!(r.get_turn_count(), 1);
    r.flip_action("a1".to_string(), 1);
    let (flips, _) = r.match_action().unwrap();
    assert_eq!(flips, vec![0, 1]);
    assert!(r.get_memory_board().get_flips().is_empty());
}

#[test]
fn never_more_than_two_seats() {
    let mut r = room(RoomType::Casual);
    join_bob(&mut r, "b1");
    assert!(!r.connect_player("c1".to_string(), "cy".to_string(), "owl".to_string(), 0, "green".to_string()));
    assert!(!r.connect_player("d1".to_string(), "di".to_string(), "fox".to_string(), 3, "gold".to_string()));
    assert_eq!(r.player_count(), 2);
    let (p1, p2) = r.get_players();
    assert_eq!(p1.unwrap().get_id(), "a1");
    assert_eq!(p2.unwrap().get_id(), "b1");
    assert_eq!(r.get_state(), RoomState::Ready);
}

#[test]
fn malformed_placements_are_not_read() {
    assert!(is_readable_position(START));
    assert!(!is_readable_position("8/8/8/8/8/8/8/8 w - - 0 1"));
    assert!(!is_readable_position("4k3/8/8/8/8/8/8/4K4 w - - 0 1"));
    assert!(!is_readable_position("4k3/8/8/8/8/8/8 w - - 0 1"));
    assert!(!is_readable_position("4k3/8/8/8/8/8/8/4KK2 w - - 0 1"));
    assert!(!is_readable_position("4k3/8/8/8/8/8/8/4Kx2 w - - 0 1"));
    assert_eq!(check_position("8/8/8/8/8/8/8/8 w - - 0 1"), None);
    let mut r = room(RoomType::Casual);
    r.set_position("8/8/8/8/8/8/8/8 w - - 0 1".to_string());
    assert_eq!(r.check_win(), None);
}

#[test]
fn tile_actions_stop_when_time_runs_out() {
    let mut r = room(RoomType::Timed(1));
    join_bob(&mut r, "b1");
    r.start_game("a1".to_string());
    r.flip_action("a1".to_string(), 0).unwrap();
    r.tick();
    assert!(r.flip_action("a1".to_string(), 1).is_none());
    assert!(r.match_action().is_none());
    assert_eq!(r.get_memory_board().get_flips(), vec![0]);
}

#[test]
fn promotion_letters() {
    assert_eq!(promotion_of("q"), Some(Promotion::Queen));
    assert_eq!(promotion_of("n"), Some(Promotion::Knight));
    assert_eq!(promotion_of(""), None);
    assert_eq!(promotion_of("Q"), None);
}

#[test]
fn reset_always_makes_the_room_ready() {
    let mut r = room(RoomType::Timed(7));
    r.reset_game();
    assert_eq!(r.get_state(), RoomState::Ready);
    assert_eq!(r.get_player_times(), (7, 0));
    // nobody can start with an empty seat
    assert!(!r.start_game("a1".to_string()));
}

#[test]
fn checkmate_counts_with_a_player_away() {
    let mut r = room(RoomType::Casual);
    join_bob(&mut r, "b1");
    r.start_game("a1".to_string());
    r.disconnect_player("b1".to_string());
    let mate = is_game_over(GameStatus::Checkmate, Side::Black, &r).unwrap();
    assert_eq!(mate.result, "checkmate");
    assert_eq!(mate.player1.get_id(), "a1");
    assert_eq!(mate.player2.get_id(), "b1");
}

#[test]
fn flip_action_reports_the_label() {
    let mut r = room(RoomType::Casual);
    join_bob(&mut r, "b1");
    let label = r.get_memory_board().to_parts().0[9].clone();
    let (_, tile) = r.flip_action("a1".to_string(), 9).unwrap();
    assert_eq!(tile, Some(label.clone()));
    assert_eq!(r.get_memory_board().to_parts().0[9], format!("{}_", label));
}

#[test]
fn clearing_squares() {
    let mut r = room(RoomType::Casual);
    join_bob(&mut r, "b1");
    r.start_game("a1".to_string());
    let before = r.get_position();
    match r.apply_clear(ClearVerdict::BadPosition) {
        ClearReport::Refused(f) => assert_eq!(f, ClearRefusal::BadPosition),
        other => panic!("unexpected {:?}", other),
    }
    match r.apply_clear(ClearVerdict::NoPiece) {
        ClearReport::Refused(f) => assert_eq!(f, ClearRefusal::NoPiece),
        other => panic!("unexpected {:?}", other),
    }
    let king = ClearVerdict::Piece { piece: "K".to_string(), after: Some((START.to_string(), GameStatus::Ongoing, Side::White)) };
    match r.apply_clear(king) {
        ClearReport::Refused(f) => assert_eq!(f, ClearRefusal::King),
        other => panic!("unexpected {:?}", other),
    }
    match r.apply_clear(ClearVerdict::Piece { piece: "q".to_string(), after: None }) {
        ClearReport::Refused(f) => assert_eq!(f, ClearRefusal::Invalid),
        other => panic!("unexpected {:?}", other),
    }
    assert_eq!(r.get_position(), before);
    let after = "rnb1kbnr/pppppppp/8/8/8/8/PPPPPPPP/RNBQKBNR w KQkq - 0 1";
    match r.apply_clear(ClearVerdict::Piece { piece: "q".to_string(), after: Some((after.to_string(), GameStatus::Ongoing, Side::White)) }) {
        ClearReport::Cleared { piece, result } => {
            assert_eq!(piece, "q");
            assert!(result.is_none());
        }
        other => panic!("unexpected {:?}", other),
    }
    assert_eq!(r.get_position(), after);
    assert_eq!(r.get_state(), RoomState::Playing);
    let lone = "3qk3/8/8/8/8/8/8/4K3 w - - 0 1";
    match r.apply_clear(ClearVerdict::Piece { piece: "P".to_string(), after: Some((lone.to_string(), GameStatus::Ongoing, Side::White)) }) {
        ClearReport::Cleared { result, .. } => assert_eq!(result.unwrap().result, "game_over"),
        other => panic!("unexpected {:?}", other),
    }
    assert_eq!(r.get_state(), RoomState::Over);
}
