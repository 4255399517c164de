use parchis::game_state::{Color, Game, GameStatus};
use parchis::session::{
    dispatch, get_player_name_from_connection, handle_begin, handle_color, handle_join, handle_message,
    handle_message_with_roll, handle_move, handle_move_out, handle_roll_with, parse_color,
    welcome_message, Outbound,
};

fn to(c: u64, s: &str) -> Outbound {
    Outbound::To(c, s.to_string())
}

fn all(s: &str) -> Outbound {
    Outbound::All(s.to_string())
}

fn all_but(c: u64, s: &str) -> Outbound {
    Outbound::AllBut(c, s.to_string())
}

/// Alice on connection 1 and Bob on connection 2, registered, game started
/// with Alice first.
fn started_game() -> Game {
    let mut g = Game::new();
    handle_join(&mut g, 1, Some("Alice"));
    handle_join(&mut g, 2, Some("Bob"));
    handle_color(&mut g, 1, Some("red"));
    handle_color(&mut g, 2, Some("blue"));
    g.start_game_with_order(vec![0, 1]);
    g
}

fn turn_notice(c: u64, name: &str) -> Vec<Outbound> {
    vec![
        to(c, "It's now your turn to roll the dice."),
        all_but(c, &format!("It's now {}'s turn to roll the dice.", name)),
    ]
}

#[test]
fn parse_color_ignores_case() {
    assert_eq!(parse_color("Red"), Some(Color::Red));
    assert_eq!(parse_color("GREEN"), Some(Color::Green));
    assert_eq!(parse_color("blue"), Some(Color::Blue));
    assert_eq!(parse_color("yElLoW"), Some(Color::Yellow));
    assert_eq!(parse_color("purple"), None);
    assert_eq!(parse_color(""), None);
}

#[test]
fn welcome_text() {
    assert_eq!(
        welcome_message(),
        "Welcome to Parchis! Enter 'JOIN <name>' to join the game."
    );
}

#[test]
fn two_players_join_pick_colors_and_begin() {
    let mut g = Game::new();
    let r = handle_join(&mut g, 1, Some("Alice"));
    assert_eq!(
        r,
        vec![to(
            1,
            "Choose your color by typing 'COLOR <color>' where <color> is one of the following:\n\
             1. Red\n2. Green\n3. Blue\n4. Yellow"
        )]
    );
    assert_eq!(g.available_colors().len(), 4);
    let r = handle_color(&mut g, 1, Some("Red"));
    assert_eq!(
        r,
        vec![
            all_but(1, "alice successfully registered with color Red. Waiting for other players..."),
            to(1, "You have successfully registered with color Red. Waiting for other players..."),
        ]
    );
    assert_eq!(g.available_colors().len(), 3);
    let r = handle_join(&mut g, 2, Some("Bob"));
    assert_eq!(
        r,
        vec![to(
            2,
            "Choose your color by typing 'COLOR <color>' where <color> is one of the following:\n\
             1. Green\n2. Blue\n3. Yellow"
        )]
    );
    let r = handle_color(&mut g, 2, Some("green"));
    assert_eq!(r.len(), 3);
    assert_eq!(
        r[2],
        all("2 players have joined. Anyone can start the game by typing 'BEGIN'.")
    );
    let r = handle_begin(&mut g, 2);
    assert_eq!(g.status(), GameStatus::InProgress);
    for name in ["alice", "bob"] {
        assert_eq!(g.get_player(name).unwrap().get_pawn_counts(), (4, 0));
    }
    let first = g.get_current_turn().unwrap();
    let first_conn = g.get_player(&first).unwrap().conn_id();
    assert_eq!(r.len(), 3);
    match &r[0] {
        Outbound::All(text) => {
            assert!(text.starts_with("Game started!\nTurn Order:\n"));
            assert!(text.contains(&format!("-> {} (starts)\n", first)));
            assert!(text.contains("alice (Red): Pawn 1: House"));
            assert!(text.ends_with(&format!(
                "\nGood luck to all players!\nIt's {}'s turn to roll the dice.",
                first
            )));
        }
        other => panic!("unexpected {:?}", other),
    }
    assert_eq!(&r[1..], &turn_notice(first_conn, &first)[..]);
}

#[test]
fn join_refusals() {
    let mut g = Game::new();
    assert_eq!(
        handle_join(&mut g, 1, None),
        vec![to(1, "Please provide a name. Usage: JOIN <name>")]
    );
    for i in 0..4u64 {
        handle_join(&mut g, i, Some(&format!("p{}", i)));
    }
    assert_eq!(
        handle_join(&mut g, 9, Some("late")),
        vec![to(9, "Game is full or already started.")]
    );
    assert_eq!(g.num_players(), 4);
}

#[test]
fn color_refusals() {
    let mut g = Game::new();
    assert_eq!(
        handle_color(&mut g, 5, Some("red")),
        vec![to(5, "Unable to identify player.")]
    );
    handle_join(&mut g, 1, Some("a"));
    handle_join(&mut g, 2, Some("b"));
    assert_eq!(
        handle_color(&mut g, 1, Some("purple")),
        vec![to(1, "Invalid color choice or color not available.")]
    );
    assert_eq!(
        handle_color(&mut g, 1, None),
        vec![to(1, "Invalid color choice or color not available.")]
    );
    handle_color(&mut g, 1, Some("red"));
    assert_eq!(
        handle_color(&mut g, 2, Some("RED")),
        vec![to(2, "Invalid color choice or color not available.")]
    );
    assert_eq!(
        handle_color(&mut g, 1, Some("blue")),
        vec![to(1, "Error: Player not found or already registered.")]
    );
    assert_eq!(get_player_name_from_connection(&g, 2), Some("b".to_string()));
    assert_eq!(get_player_name_from_connection(&g, 3), None);
}

#[test]
fn begin_refusals() {
    let mut g = Game::new();
    handle_join(&mut g, 1, Some("a"));
    assert_eq!(
        handle_begin(&mut g, 1),
        vec![to(1, "Not enough players to start the game.")]
    );
    handle_join(&mut g, 2, Some("b"));
    handle_begin(&mut g, 1);
    assert_eq!(
        handle_begin(&mut g, 1),
        vec![to(1, "Game has already started.")]
    );
}

#[test]
fn roll_refusals() {
    let mut g = Game::new();
    handle_join(&mut g, 1, Some("a"));
    assert_eq!(
        handle_roll_with(&mut g, 1, 3),
        vec![to(1, "The game hasn't started yet.")]
    );
    let mut g = started_game();
    assert_eq!(
        handle_roll_with(&mut g, 2, 3),
        vec![to(2, "It's not your turn, it's alice's turn.")]
    );
    assert_eq!(g.get_last_dice_roll("alice"), None);
}

#[test]
fn roll_six_with_all_pawns_home_prompts_move_out() {
    let mut g = started_game();
    let r = handle_roll_with(&mut g, 1, 6);
    assert_eq!(
        r,
        vec![
            all_but(1, "alice rolled a 6."),
            to(1, "You rolled a 6."),
            to(1, "You can move a pawn out of the house. Type 'MOVE_OUT'."),
        ]
    );
    assert_eq!(g.get_last_dice_roll("alice"), Some(6));
    assert_eq!(g.get_last_dice_roll("bob"), None);
    assert_eq!(g.get_current_turn(), Some("alice".to_string()));
}

#[test]
fn roll_without_six_and_all_home_passes_the_turn() {
    let mut g = started_game();
    let r = handle_roll_with(&mut g, 1, 4);
    let board = g.get_board_state();
    let mut expected = vec![
        all_but(1, "alice rolled a 4."),
        to(1, "You rolled a 4."),
        to(1, "You need a 6 to move a pawn out of the house."),
        all(&board),
    ];
    expected.extend(turn_notice(2, "bob"));
    assert_eq!(r, expected);
    assert_eq!(g.get_current_turn(), Some("bob".to_string()));
    assert_eq!(g.get_player("alice").unwrap().get_pawn_counts(), (4, 0));
}

#[test]
fn move_out_after_six_then_single_pawn_moves_itself() {
    let mut g = started_game();
    handle_roll_with(&mut g, 1, 6);
    let r = handle_move_out(&mut g, 1);
    assert_eq!(r[0], to(1, "A pawn has been moved out of the house."));
    assert_eq!(r.len(), 4);
    assert_eq!(g.get_player("alice").unwrap().get_pawn_counts(), (3, 1));
    assert_eq!(g.get_current_turn(), Some("bob".to_string()));
    handle_roll_with(&mut g, 2, 2);
    assert_eq!(g.get_current_turn(), Some("alice".to_string()));
    let r = handle_roll_with(&mut g, 1, 5);
    assert_eq!(r[2], to(1, "Your pawn 1 on the board has been moved."));
    assert_eq!(r.len(), 6);
    assert_eq!(
        g.get_player("alice").unwrap().get_pawn_positions(),
        "Pawn 1: 6, Pawn 2: House, Pawn 3: House, Pawn 4: House"
    );
    assert_eq!(g.get_current_turn(), Some("bob".to_string()));
}

#[test]
fn single_pawn_overshoot_reaches_goal() {
    let mut g = started_game();
    g.move_player_pawn_out("alice");
    for _ in 0..9 {
        g.move_player_pawn("alice", 1, 6);
    }
    // pawn 1 stands on 55; a 5 passes the end of the track
    let r = handle_roll_with(&mut g, 1, 5);
    assert_eq!(r[2], to(1, "Your pawn 1 reached the goal!"));
    assert!(g.get_player("alice").unwrap().is_pawn_in_goal(1));
    assert_eq!(g.get_player("alice").unwrap().get_pawn_counts(), (3, 0));
    assert_eq!(g.status(), GameStatus::InProgress);
}

#[test]
fn six_with_pawns_home_and_on_board_offers_both() {
    let mut g = started_game();
    g.move_player_pawn_out("alice");
    let r = handle_roll_with(&mut g, 1, 6);
    assert_eq!(
        r[2],
        to(
            1,
            "Type 'MOVE_OUT' to move a pawn out of the house or 'MOVE <pawn number>' to move a pawn on the board."
        )
    );
    assert_eq!(g.get_current_turn(), Some("alice".to_string()));
}

#[test]
fn two_pawns_on_board_ask_which_to_move() {
    let mut g = started_game();
    g.move_player_pawn_out("alice");
    g.move_player_pawn_out("alice");
    let r = handle_roll_with(&mut g, 1, 3);
    assert_eq!(r[2], to(1, "Choose a pawn to move. Type 'MOVE <pawn number>'."));
    let r = handle_move(&mut g, 1, Some("2"));
    assert_eq!(r[0], all(&g.get_board_state()));
    assert_eq!(
        g.get_player("alice").unwrap().get_pawn_positions(),
        "Pawn 1: 1, Pawn 2: 4, Pawn 3: House, Pawn 4: House"
    );
    assert_eq!(g.get_current_turn(), Some("bob".to_string()));
}

#[test]
fn move_out_refusals() {
    let mut g = Game::new();
    assert_eq!(
        handle_move_out(&mut g, 1),
        vec![to(1, "The game hasn't started yet.")]
    );
    let mut g = started_game();
    assert_eq!(handle_move_out(&mut g, 2), vec![to(2, "It's not your turn.")]);
    assert_eq!(
        handle_move_out(&mut g, 1),
        vec![to(1, "You cannot move a pawn out right now.")]
    );
    g.set_last_dice_roll("alice", 5);
    assert_eq!(
        handle_move_out(&mut g, 1),
        vec![to(1, "You cannot move a pawn out right now.")]
    );
    assert_eq!(g.get_player("alice").unwrap().get_pawn_counts(), (4, 0));
}

#[test]
fn move_refusals() {
    let mut g = started_game();
    assert_eq!(handle_move(&mut g, 2, Some("1")), vec![to(2, "It's not your turn.")]);
    assert_eq!(
        handle_move(&mut g, 1, None),
        vec![to(1, "Please specify which pawn to move (e.g., 'MOVE 1').")]
    );
    assert_eq!(
        handle_move(&mut g, 1, Some("one")),
        vec![to(1, "Invalid pawn number format.")]
    );
    assert_eq!(
        handle_move(&mut g, 1, Some("1")),
        vec![to(1, "Invalid pawn number, pawn not on board, or pawn already in goal.")]
    );
    g.move_player_pawn_out("alice");
    assert_eq!(
        handle_move(&mut g, 1, Some("7")),
        vec![to(1, "Invalid pawn number, pawn not on board, or pawn already in goal.")]
    );
    assert_eq!(
        handle_move(&mut g, 1, Some("+1")),
        vec![to(1, "No dice roll found.")]
    );
}

#[test]
fn last_pawn_home_wins_once() {
    let mut g = started_game();
    for n in 1..=4usize {
        g.move_player_pawn_out("alice");
        let steps = if n == 4 { 9 } else { 10 };
        for _ in 0..steps {
            g.move_player_pawn("alice", n, 6);
        }
    }
    // pawn 4 stands on 55
    g.set_last_dice_roll("alice", 3);
    let r = handle_move(&mut g, 1, Some("4"));
    assert_eq!(g.status(), GameStatus::GameOver);
    assert_eq!(
        r.last().unwrap(),
        &all("alice has won the game!\nType 'END' to close the game.")
    );
    assert_eq!(r.len(), 4);
    assert_eq!(handle_roll_with(&mut g, 2, 6), vec![to(2, "The game is over.")]);
    assert_eq!(handle_move(&mut g, 2, Some("1")), vec![to(2, "The game is over.")]);
}

#[test]
fn whole_lines_are_dispatched() {
    let mut g = Game::new();
    assert_eq!(
        handle_message(&mut g, 1, "DANCE"),
        vec![to(1, "Unknown or invalid command.")]
    );
    assert_eq!(
        handle_message(&mut g, 1, "   "),
        vec![to(1, "Unknown or invalid command.")]
    );
    assert_eq!(
        handle_message(&mut g, 1, "join Alice"),
        vec![to(1, "Unknown or invalid command.")]
    );
    handle_message(&mut g, 1, "  JOIN   Alice  ");
    handle_message(&mut g, 2, "JOIN Bob");
    assert_eq!(g.num_players(), 2);
    handle_message(&mut g, 1, "COLOR red");
    handle_message(&mut g, 2, "COLOR Yellow");
    assert_eq!(g.get_player("bob").unwrap().color(), Color::Yellow);
    handle_message(&mut g, 1, "BEGIN");
    assert!(g.is_in_progress());
    let first = g.get_current_turn().unwrap();
    let conn = g.get_player(&first).unwrap().conn_id();
    let r = handle_message(&mut g, conn, "ROLL");
    match &r[1] {
        Outbound::To(c, text) => {
            assert_eq!(*c, conn);
            let d: u8 = text
                .trim_start_matches("You rolled a ")
                .trim_end_matches('.')
                .parse()
                .unwrap();
            assert!((1..=6).contains(&d));
            assert_eq!(g.get_last_dice_roll(&first), Some(d));
        }
        other => panic!("unexpected {:?}", other),
    }
}

#[test]
fn line_with_given_roll() {
    let mut g = started_game();
    let r = handle_message_with_roll(&mut g, 1, "ROLL", 6);
    assert_eq!(r[1], to(1, "You rolled a 6."));
    let r = handle_message_with_roll(&mut g, 1, "MOVE_OUT", 1);
    assert_eq!(r[0], to(1, "A pawn has been moved out of the house."));
}

#[test]
fn join_under_a_taken_name_changes_nothing() {
    let mut g = Game::new();
    handle_join(&mut g, 1, Some("Alice"));
    handle_color(&mut g, 1, Some("red"));
    assert_eq!(
        handle_join(&mut g, 2, Some("ALICE")),
        vec![to(2, "That name is already taken.")]
    );
    assert_eq!(g.num_players(), 1);
    let alice = g.get_player("alice").unwrap();
    assert_eq!(alice.conn_id(), 1);
    assert_eq!(alice.color(), Color::Red);
    assert!(alice.is_registered());
}

#[test]
fn dispatch_takes_split_words() {
    let mut g = started_game();
    let words = vec!["ROLL".to_string()];
    let r = dispatch(&mut g, 1, &words, 4);
    assert_eq!(r[1], to(1, "You rolled a 4."));
    assert_eq!(g.get_current_turn(), Some("bob".to_string()));
    let words = vec!["COLOR".to_string(), "green".to_string()];
    assert_eq!(
        dispatch(&mut g, 2, &words, 1),
        vec![to(2, "Error: Player not found or already registered.")]
    );
    assert_eq!(
        dispatch(&mut g, 2, &Vec::new(), 1),
        vec![to(2, "Unknown or invalid command.")]
    );
}
