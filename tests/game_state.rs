use parchis::game_state::{color_text, Color, Game, GameStatus, Pawn};
use parchis::text::{decimal_text, parse_usize};

fn game_with(names: &[&str]) -> Game {
    let mut g = Game::new();
    for (i, n) in names.iter().enumerate() {
        g.add_player(n.to_string(), i as u64 + 1);
    }
    g
}

#[test]
fn new_game_is_empty_and_waiting() {
    let _pawn = Pawn::new();
    let g = Game::new();
    assert_eq!(g.status(), GameStatus::WaitingForPlayers);
    assert_eq!(g.num_players(), 0);
    assert!(g.can_add_player());
    assert!(!g.is_in_progress());
    assert_eq!(g.get_current_turn(), None);
    assert_eq!(g.get_turn_order_message(), "No turn order set.");
    assert_eq!(g.get_board_state(), "");
}

#[test]
fn can_add_player_until_four() {
    let mut g = Game::new();
    for i in 0..4u64 {
        assert!(g.can_add_player());
        g.add_player(format!("p{}", i), i);
    }
    assert_eq!(g.num_players(), 4);
    assert!(!g.can_add_player());
}

#[test]
fn can_add_player_false_once_started() {
    let mut g = game_with(&["a", "b"]);
    assert!(g.can_add_player());
    g.start_game();
    assert!(!g.can_add_player());
}

#[test]
fn names_are_lower_cased_and_unique() {
    let mut g = Game::new();
    assert!(g.add_player("ALICE".to_string(), 7));
    assert!(g.get_player("alice").is_some());
    assert!(g.get_player("ALICE").is_none());
    assert_eq!(g.get_player("alice").unwrap().name(), "alice");
    assert_eq!(g.get_player("alice").unwrap().conn_id(), 7);
    assert!(g.register_color("alice", Color::Green));
    assert!(!g.add_player("Alice".to_string(), 9));
    assert_eq!(g.num_players(), 1);
    assert_eq!(g.get_player("alice").unwrap().conn_id(), 7);
    assert_eq!(g.get_player("alice").unwrap().color(), Color::Green);
}

#[test]
fn available_colors_shrink_as_colors_are_taken() {
    let mut g = game_with(&["Alice", "Bob"]);
    assert_eq!(
        g.available_colors(),
        vec![Color::Red, Color::Green, Color::Blue, Color::Yellow]
    );
    assert!(g.register_color("alice", Color::Red));
    assert_eq!(g.available_colors(), vec![Color::Green, Color::Blue, Color::Yellow]);
    assert!(!g.register_color("bob", Color::Red));
    assert!(!g.register_color("bob", Color::Unassigned));
    assert!(!g.register_color("carol", Color::Blue));
    assert!(!g.register_color("alice", Color::Blue));
    assert!(g.register_color("bob", Color::Yellow));
    assert_eq!(g.available_colors(), vec![Color::Green, Color::Blue]);
    assert_eq!(g.num_registered(), 2);
    let alice = g.get_player("alice").unwrap();
    assert_eq!(alice.color(), Color::Red);
    assert!(alice.is_registered());
}

#[test]
fn start_needs_two_players() {
    let mut g = game_with(&["solo"]);
    g.start_game();
    assert_eq!(g.status(), GameStatus::WaitingForPlayers);
    assert_eq!(g.get_current_turn(), None);
}

#[test]
fn start_with_order_sets_first_turn_and_message() {
    let mut g = game_with(&["a", "b", "c"]);
    g.start_game_with_order(vec![2, 0, 1]);
    assert!(g.is_in_progress());
    assert_eq!(g.get_current_turn(), Some("c".to_string()));
    assert_eq!(
        g.get_turn_order_message(),
        "Turn Order:\n-> c (starts)\n-> a\n-> b\n"
    );
}

#[test]
fn random_start_orders_every_player_once() {
    let mut g = game_with(&["a", "b", "c", "d"]);
    g.start_game();
    assert!(g.is_in_progress());
    let first = g.get_current_turn().unwrap();
    let mut seen = vec![first.clone()];
    for _ in 0..3 {
        g.next_turn();
        seen.push(g.get_current_turn().unwrap());
    }
    seen.sort();
    assert_eq!(seen, vec!["a", "b", "c", "d"]);
    g.next_turn();
    assert_eq!(g.get_current_turn().unwrap(), first);
}

#[test]
fn next_turn_wraps_after_player_count_calls() {
    let mut g = game_with(&["a", "b", "c"]);
    g.start_game_with_order(vec![1, 2, 0]);
    assert_eq!(g.get_current_turn(), Some("b".to_string()));
    g.next_turn();
    assert_eq!(g.get_current_turn(), Some("c".to_string()));
    g.next_turn();
    assert_eq!(g.get_current_turn(), Some("a".to_string()));
    g.next_turn();
    assert_eq!(g.get_current_turn(), Some("b".to_string()));
}

#[test]
fn next_turn_before_start_does_nothing() {
    let mut g = game_with(&["a", "b"]);
    g.next_turn();
    assert_eq!(g.get_current_turn(), None);
}

#[test]
fn pawn_moves_follow_the_track() {
    let mut g = game_with(&["a"]);
    let p = g.get_player("a").unwrap();
    assert_eq!(p.get_pawn_counts(), (4, 0));
    assert_eq!(p.first_pawn_on_board_number(), None);
    assert!(!p.is_valid_pawn_number(1));
    g.move_player_pawn("a", 1, 3);
    assert_eq!(
        g.get_player("a").unwrap().get_pawn_positions(),
        "Pawn 1: House, Pawn 2: House, Pawn 3: House, Pawn 4: House"
    );
    g.move_player_pawn_out("a");
    g.move_player_pawn_out("a");
    let p = g.get_player("a").unwrap();
    assert_eq!(p.get_pawn_counts(), (2, 2));
    assert_eq!(p.first_pawn_on_board_number(), Some(1));
    assert!(p.is_valid_pawn_number(2));
    assert!(!p.is_valid_pawn_number(3));
    assert!(!p.is_valid_pawn_number(0));
    assert!(!p.is_valid_pawn_number(5));
    g.move_player_pawn("a", 2, 5);
    g.move_player_pawn("a", 0, 5);
    g.move_player_pawn("a", 9, 5);
    assert_eq!(
        g.get_player("a").unwrap().get_pawn_positions(),
        "Pawn 1: 1, Pawn 2: 6, Pawn 3: House, Pawn 4: House"
    );
}

#[test]
fn reaching_or_passing_the_end_enters_the_goal() {
    let mut g = game_with(&["a"]);
    g.move_player_pawn_out("a");
    g.move_player_pawn_out("a");
    for _ in 0..9 {
        g.move_player_pawn("a", 1, 6);
        g.move_player_pawn("a", 2, 6);
    }
    g.move_player_pawn("a", 1, 2);
    g.move_player_pawn("a", 2, 3);
    let p = g.get_player("a").unwrap();
    assert_eq!(
        p.get_pawn_positions(),
        "Pawn 1: 57, Pawn 2: Goal, Pawn 3: House, Pawn 4: House"
    );
    assert!(p.is_pawn_in_goal(2));
    assert!(!p.is_pawn_in_goal(1));
    assert!(!p.is_pawn_in_goal(0));
    assert!(!p.is_valid_pawn_number(2));
    assert_eq!(p.get_pawn_counts(), (2, 1));
    g.move_player_pawn("a", 1, 6);
    g.move_player_pawn("a", 2, 6);
    let p = g.get_player("a").unwrap();
    assert_eq!(
        p.get_pawn_positions(),
        "Pawn 1: Goal, Pawn 2: Goal, Pawn 3: House, Pawn 4: House"
    );
    assert!(!p.all_pawns_in_goal());
    assert_eq!(p.get_pawn_counts(), (2, 0));
}

#[test]
fn all_pawns_in_goal_wins() {
    let mut g = game_with(&["a"]);
    for n in 1..=4usize {
        g.move_player_pawn_out("a");
        for _ in 0..10 {
            g.move_player_pawn("a", n, 6);
        }
    }
    assert!(g.get_player("a").unwrap().all_pawns_in_goal());
    g.initialize_all_pawns();
    assert_eq!(g.get_player("a").unwrap().get_pawn_counts(), (4, 0));
}

#[test]
fn board_state_lists_players_in_joining_order() {
    let mut g = game_with(&["Bob", "alice"]);
    g.move_player_pawn_out("alice");
    assert_eq!(
        g.get_board_state(),
        "bob: Pawn 1: House, Pawn 2: House, Pawn 3: House, Pawn 4: House\n\
         alice: Pawn 1: 1, Pawn 2: House, Pawn 3: House, Pawn 4: House"
    );
    g.register_color("bob", Color::Blue);
    assert_eq!(
        g.get_pawn_positions_message(),
        "bob (Blue): Pawn 1: House, Pawn 2: House, Pawn 3: House, Pawn 4: House\n\
         alice (Unassigned): Pawn 1: 1, Pawn 2: House, Pawn 3: House, Pawn 4: House"
    );
}

#[test]
fn status_only_moves_forward() {
    let mut g = game_with(&["a", "b"]);
    g.set_status(GameStatus::InProgress);
    assert!(g.is_in_progress());
    g.set_status(GameStatus::WaitingForPlayers);
    assert_eq!(g.status(), GameStatus::InProgress);
    g.set_status(GameStatus::GameOver);
    assert_eq!(g.status(), GameStatus::GameOver);
    g.set_status(GameStatus::InProgress);
    assert_eq!(g.status(), GameStatus::GameOver);
}

#[test]
fn last_dice_roll_is_per_player() {
    let mut g = game_with(&["a", "b"]);
    assert_eq!(g.get_last_dice_roll("a"), None);
    g.set_last_dice_roll("a", 4);
    assert_eq!(g.get_last_dice_roll("a"), Some(4));
    assert_eq!(g.get_last_dice_roll("b"), None);
    g.set_last_dice_roll("nobody", 2);
    assert_eq!(g.get_last_dice_roll("nobody"), None);
    g.set_last_dice_roll("a", 6);
    assert_eq!(g.get_last_dice_roll("a"), Some(6));
}

#[test]
fn decimal_text_writes_digits() {
    assert_eq!(decimal_text(0), "0");
    assert_eq!(decimal_text(7), "7");
    assert_eq!(decimal_text(57), "57");
    assert_eq!(decimal_text(1204), "1204");
    assert_eq!(color_text(Color::Yellow), "Yellow");
}

#[test]
fn parse_usize_accepts_plus_and_digits_only() {
    assert_eq!(parse_usize("3"), Some(3));
    assert_eq!(parse_usize("+42"), Some(42));
    assert_eq!(parse_usize("007"), Some(7));
    assert_eq!(parse_usize(""), None);
    assert_eq!(parse_usize("+"), None);
    assert_eq!(parse_usize("-1"), None);
    assert_eq!(parse_usize("1a"), None);
    assert_eq!(parse_usize(" 1"), None);
    assert_eq!(parse_usize("18446744073709551615"), Some(usize::MAX));
    assert_eq!(parse_usize("18446744073709551616"), None);
    assert_eq!(parse_usize("99999999999999999999999x"), None);
}
