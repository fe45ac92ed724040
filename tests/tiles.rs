use memory_chess::labels::{base_of, labels_match, without_last};
use memory_chess::tiles::{MatchedTiles, MemoryBoard, Side};

fn unshuffled() -> Vec<String> {
    let block = ["x", "q", "r", "r", "b", "b", "n", "n", "p", "p", "p", "p", "p", "p", "p", "p"];
    let mut v = Vec::new();
    for side in ["b", "w", "b", "w"] {
        for t in block.iter() {
            if *t == "x" {
                v.push("x".to_string());
            } else {
                v.push(format!("{}{}", side, t));
            }
        }
    }
    v
}

fn board_of(tiles: Vec<String>) -> MemoryBoard {
    MemoryBoard::from_parts(tiles, vec![]).unwrap()
}

fn count(tiles: &[String], label: &str) -> usize {
    tiles.iter().filter(|t| t.as_str() == label).count()
}

#[test]
fn fresh_deck_has_four_wildcards_and_thirty_pairs() {
    let board = MemoryBoard::new();
    let (tiles, flips) = board.to_parts();
    assert_eq!(tiles.len(), 64);
    assert!(flips.is_empty());
    assert_eq!(count(&tiles, "x"), 4);
    let mut labels: Vec<&String> = tiles.iter().filter(|t| t.as_str() != "x").collect();
    assert_eq!(labels.len(), 60);
    labels.sort();
    labels.dedup();
    let mut pairs = 0;
    for l in labels {
        let n = count(&tiles, l);
        assert_eq!(n % 2, 0);
        pairs += n / 2;
    }
    assert_eq!(pairs, 30);
    assert_eq!(count(&tiles, "bq"), 2);
    assert_eq!(count(&tiles, "wr"), 4);
    assert_eq!(count(&tiles, "bp"), 16);
    assert_eq!(count(&tiles, "wp"), 16);
}

#[test]
fn shuffle_applies_the_draws_in_order() {
    // every position exchanges with the one right after it: the first tile walks to the end
    let targets: Vec<usize> = (0..62).map(|i| i + 1).collect();
    let board = MemoryBoard::shuffled(&targets);
    let (tiles, _) = board.to_parts();
    let fresh = unshuffled();
    for i in 0..62 {
        assert_eq!(tiles[i], fresh[i + 1]);
    }
    assert_eq!(tiles[62], fresh[0]);
    assert_eq!(tiles[63], fresh[63]);
}

#[test]
fn flip_marks_and_reports_base_label() {
    let mut board = board_of(unshuffled());
    assert_eq!(board.flip_tile(1), Some("bq".to_string()));
    assert_eq!(board.get_flips(), vec![1]);
    assert_eq!(board.to_parts().0[1], "bq_");
}

#[test]
fn flip_refusals_change_nothing() {
    let mut tiles = unshuffled();
    tiles[5] = String::new();
    let mut board = board_of(tiles);
    // an empty slot
    assert_eq!(board.flip_tile(5), None);
    assert!(board.get_flips().is_empty());
    // off the deck
    assert_eq!(board.flip_tile(64), None);
    // already up
    assert!(board.flip_tile(2).is_some());
    let before = board.to_parts();
    assert_eq!(board.flip_tile(2), None);
    assert_eq!(board.to_parts(), before);
    // two already up
    assert!(board.flip_tile(3).is_some());
    let before = board.to_parts();
    assert_eq!(board.flip_tile(4), None);
    assert_eq!(board.to_parts(), before);
    assert_eq!(board.get_flips(), vec![2, 3]);
}

#[test]
fn wildcard_takes_a_third_tile() {
    let mut tiles = unshuffled();
    tiles.swap(1, 17); // deck[1] = "wq"; the other "wq" is at 49
    let mut board = board_of(tiles);
    assert_eq!(board.flip_tile(0), Some("x".to_string()));
    assert_eq!(board.flip_tile(1), Some("wq".to_string()));
    assert_eq!(board.partner_tiles(), vec![49]);
    let m = board.match_tiles();
    assert_eq!(m.get_tile(), "wq");
    assert_eq!(m.get_matches(), vec![0, 1, 49]);
    let (after, flips) = board.to_parts();
    assert!(after[0].is_empty() && after[1].is_empty() && after[49].is_empty());
    assert!(flips.is_empty());
    assert_eq!(count(&after, "wq"), 0);
}

#[test]
fn wildcard_with_partner_choice() {
    let mut board = board_of(unshuffled());
    // "x" at 0 and a black rook at 2; the other black rooks are at 3, 34, 35
    board.flip_tile(0);
    board.flip_tile(2);
    assert_eq!(board.partner_tiles(), vec![3, 34, 35]);
    let m = board.match_tiles_with(1);
    assert_eq!(m.get_tile(), "br");
    assert_eq!(m.get_matches(), vec![0, 2, 34]);
}

#[test]
fn wildcard_without_partner_leaves_the_deck() {
    let mut tiles = unshuffled();
    tiles[33] = String::new(); // the second black queen is gone
    let mut board = board_of(tiles);
    board.flip_tile(1);
    board.flip_tile(16);
    let before = board.to_parts();
    let m = board.match_tiles();
    assert!(m.get_matches().is_empty());
    assert_eq!(board.to_parts(), before);
}

#[test]
fn two_wildcards_match_each_other() {
    let mut board = board_of(unshuffled());
    board.flip_tile(16);
    board.flip_tile(32);
    let m = board.match_tiles();
    assert_eq!(m.get_tile(), "x");
    assert_eq!(m.get_matches(), vec![16, 32]);
    let (after, flips) = board.to_parts();
    assert!(after[16].is_empty() && after[32].is_empty());
    assert_eq!(count(&after, "x"), 2);
    assert!(flips.is_empty());
}

#[test]
fn equal_labels_match_ignoring_case() {
    let mut tiles = unshuffled();
    tiles[7] = "BN".to_string();
    let mut board = board_of(tiles);
    board.flip_tile(6);
    board.flip_tile(7);
    let m = board.match_tiles();
    assert_eq!(m.get_tile(), "bn");
    assert_eq!(m.get_matches(), vec![6, 7]);
    let (after, _) = board.to_parts();
    assert!(after[6].is_empty() && after[7].is_empty());
}

#[test]
fn different_labels_turn_back_down() {
    let mut board = board_of(unshuffled());
    board.flip_tile(1);
    board.flip_tile(2);
    let m = board.match_tiles();
    assert_eq!(m.get_tile(), "");
    assert!(m.get_matches().is_empty());
    let (after, flips) = board.to_parts();
    assert_eq!(after, unshuffled());
    assert!(flips.is_empty());
}

#[test]
fn match_needs_two_flips() {
    let mut board = board_of(unshuffled());
    board.flip_tile(1);
    let before = board.to_parts();
    let m = board.match_tiles();
    assert!(m.get_matches().is_empty());
    assert_eq!(board.to_parts(), before);
}

#[test]
fn remove_takes_two_of_the_label() {
    let mut board = board_of(unshuffled());
    let bp: Vec<usize> = (0..64).filter(|i| unshuffled()[*i] == "bp").collect();
    let removed = board.remove_tiles("bp".to_string());
    assert_eq!(removed.len(), 2);
    assert_ne!(removed[0], removed[1]);
    assert!(bp.contains(&removed[0]) && bp.contains(&removed[1]));
    let (after, _) = board.to_parts();
    assert_eq!(count(&after, "bp"), 14);
    assert!(after[removed[0]].is_empty() && after[removed[1]].is_empty());
}

#[test]
fn remove_from_eight_pawns() {
    let mut tiles = unshuffled();
    for i in 40..48 {
        tiles[i] = String::new(); // eight black pawns left: 8..16
    }
    let mut board = board_of(tiles);
    let removed = board.remove_tiles("bp".to_string());
    assert_eq!(removed.len(), 2);
    assert!(removed.iter().all(|i| (8..16).contains(i)));
    assert_eq!(count(&board.to_parts().0, "bp"), 6);
}

#[test]
fn remove_with_draws() {
    let mut board = board_of(unshuffled());
    // queens "bq" at 1 and 33: first draw 1, second draw 0 names the other one
    assert_eq!(board.remove_tiles_with("bq", 1, 0), vec![33, 1]);
    assert_eq!(board.remove_tiles("bq".to_string()), Vec::<usize>::new());
}

#[test]
fn upgrade_lowers_the_piece_letter() {
    let mut board = board_of(unshuffled());
    let (a, b) = board.upgrade_tile_with("Q", Side::White, 0, 0).unwrap();
    assert_eq!((a.get_index(), a.get_value()), (24, "wq"));
    assert_eq!((b.get_index(), b.get_value()), (25, "wq"));
    let (after, _) = board.to_parts();
    assert_eq!(count(&after, "wq"), 4);
    assert_eq!(count(&after, "wp"), 14);
}

#[test]
fn upgrade_at_random_and_without_pawns() {
    let mut board = board_of(unshuffled());
    let (a, b) = board.upgrade_tile("n".to_string(), Side::Black).unwrap();
    assert_ne!(a.get_index(), b.get_index());
    assert_eq!(a.get_value(), "bn");
    assert_eq!(count(&board.to_parts().0, "bp"), 14);
    let mut tiles = unshuffled();
    for t in tiles.iter_mut() {
        if t == "wp" {
            *t = String::new();
        }
    }
    tiles[24] = "wp".to_string();
    let mut lone = board_of(tiles);
    assert!(lone.upgrade_tile("q".to_string(), Side::White).is_none());
}

#[test]
fn reset_flips_keeps_markers() {
    let mut board = board_of(unshuffled());
    board.flip_tile(1);
    board.reset_flips();
    assert!(board.get_flips().is_empty());
    assert_eq!(board.to_parts().0[1], "bq_");
    // the marked tile can be turned up again and still reads as a queen
    assert_eq!(board.flip_tile(1), Some("bq".to_string()));
}

#[test]
fn parts_round_trip_through_json() {
    let mut board = MemoryBoard::new();
    board.flip_tile(3);
    let (tiles, flips) = board.to_parts();
    let text = serde_json::to_string(&(tiles.clone(), flips.clone())).unwrap();
    let (t2, f2): (Vec<String>, Vec<usize>) = serde_json::from_str(&text).unwrap();
    let back = MemoryBoard::from_parts(t2, f2).unwrap();
    assert_eq!(back.to_parts(), (tiles, flips));
}

#[test]
fn from_parts_refuses_bad_flips() {
    assert!(MemoryBoard::from_parts(unshuffled(), vec![64]).is_none());
    assert!(MemoryBoard::from_parts(unshuffled(), vec![1, 1]).is_none());
    assert!(MemoryBoard::from_parts(unshuffled(), vec![1, 2, 3]).is_none());
    // a face-up tile must carry its marker
    assert!(MemoryBoard::from_parts(unshuffled(), vec![1, 2]).is_none());
    let mut marked = unshuffled();
    marked[1].push('_');
    marked[2].push('_');
    assert!(MemoryBoard::from_parts(marked.clone(), vec![1, 2]).is_some());
    assert!(MemoryBoard::from_parts(marked, vec![1, 3]).is_none());
}

#[test]
fn matched_tiles_accessors() {
    let m = MatchedTiles::new("wr".to_string(), vec![4, 9]);
    assert_eq!(m.get_tile(), "wr");
    assert_eq!(m.get_matches(), vec![4, 9]);
    let e = MatchedTiles::new_empty();
    assert_eq!(e.get_tile(), "");
    assert!(e.get_matches().is_empty());
}

#[test]
fn label_helpers() {
    assert_eq!(base_of(&"__wq__".to_string()), "wq");
    assert_eq!(base_of(&"___".to_string()), "");
    assert!(labels_match("Wq", "wQ"));
    assert!(!labels_match("wq", "wq_"));
    assert_eq!(without_last(&"bp_".to_string()), "bp");
    assert_eq!(without_last(&String::new()), "");
}

#[test]
fn removing_a_face_up_tile_turns_it_down() {
    let mut board = board_of(unshuffled());
    board.flip_tile(1);
    board.flip_tile(2);
    // the black queens are at 1 and 33
    assert_eq!(board.remove_tiles("bq".to_string()).len(), 2);
    assert_eq!(board.get_flips(), vec![2]);
    let (after, _) = board.to_parts();
    assert!(after[1].is_empty() && after[33].is_empty());
    assert_eq!(after[2], "br_");
}

#[test]
fn upgrading_a_face_up_pawn_turns_it_down() {
    let mut board = board_of(unshuffled());
    board.flip_tile(24);
    let (a, b) = board.upgrade_tile_with("r", Side::White, 0, 0).unwrap();
    assert_eq!((a.get_index(), b.get_index()), (24, 25));
    assert!(board.get_flips().is_empty());
    assert_eq!(board.to_parts().0[24], "wr");
}

#[test]
fn unflip_keeps_the_base_label() {
    let mut board = board_of(unshuffled());
    board.flip_tile(1);
    board.flip_tile(8);
    board.match_tiles();
    let (after, flips) = board.to_parts();
    assert_eq!(after[1], "bq");
    assert_eq!(after[8], "bp");
    assert!(flips.is_empty());
}
