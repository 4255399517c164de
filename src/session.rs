//! The per-connection command protocol: one line of input is parsed into a
//! command, applied to the shared game, and answered with messages for the
//! sender, for everyone, or for everyone but one connection.

use vstd::prelude::*;

use crate::game_state::{
    added, advance_turn, all_house, available_seq, board_count, board_text, can_register,
    color_name, color_text, colored_board_text, count_registered, first_on_board, house_count,
    is_goal, is_on_board, is_turn_order, lemma_count_witness, moved, moved_out, player_changed,
    recolored, turn_order_text, Color, Game, GameStatus, PawnPosition,
};
use crate::primitives::{
    lower_of, lowercase, roll_in, split_words, words_of,
};
use crate::text::{
    decimal, decimal_text, joined, lemma_joined_push, parse_usize, parsed_usize, text_eq,
};

verus! {

/// A message body (without the end-of-message sentinel) and who receives it.
#[derive(Debug, PartialEq, Eq)]
pub enum Outbound {
    /// To one connection.
    To(u64, String),
    /// To every connection but the one given.
    AllBut(u64, String),
    /// To every connection.
    All(String),
}

/// What an `Outbound` carries, as plain text.
pub enum Note {
    To(u64, Seq<char>),
    AllBut(u64, Seq<char>),
    All(Seq<char>),
}

impl View for Outbound {
    type V = Note;

    open spec fn view(&self) -> Note {
        match self {
            Outbound::To(c, s) => Note::To(*c, s@),
            Outbound::AllBut(c, s) => Note::AllBut(*c, s@),
            Outbound::All(s) => Note::All(s@),
        }
    }
}

pub open spec fn notes(r: Seq<Outbound>) -> Seq<Note> {
    r.map_values(|o: Outbound| o@)
}

/// The connection of the player at index `i` of `g`.
pub open spec fn conn_of_index(g: Game, i: int) -> u64 {
    g.spec_players()[i].spec_conn()
}

/// Tells the player whose turn it is, and everyone else, whose turn it is.
pub open spec fn turn_notice(g: Game) -> Seq<Note> {
    match g.current_index() {
        Some(i) => seq![
            Note::To(conn_of_index(g, i), "It's now your turn to roll the dice."@),
            Note::AllBut(
                conn_of_index(g, i),
                "It's now "@ + g.spec_players()[i].spec_name() + "'s turn to roll the dice."@,
            ),
        ],
        None => seq![],
    }
}

fn say(r: &mut Vec<Outbound>, conn: u64, text: &str)
    ensures
        notes(final(r)@) == notes(old(r)@).push(Note::To(conn, text@)),
{
    r.push(Outbound::To(conn, String::from_str(text)));
    assert(notes(final(r)@) =~= notes(old(r)@).push(Note::To(conn, text@)));
}

fn push_note(r: &mut Vec<Outbound>, o: Outbound)
    ensures
        notes(final(r)@) == notes(old(r)@).push(o@),
{
    let ghost v = o@;
    r.push(o);
    assert(notes(final(r)@) =~= notes(old(r)@).push(v));
}

/// Appends the turn notice for the player whose turn it now is.
fn notify_next_player_turn(game: &Game, r: &mut Vec<Outbound>)
    requires
        game.wf(),
    ensures
        notes(final(r)@) == notes(old(r)@) + turn_notice(*game),
{
    proof {
        game.lemma_wf();
    }
    match game.get_current_turn() {
        Some(name) => {
            let conn = game.get_player(name.as_str()).unwrap().conn_id();
            say(r, conn, "It's now your turn to roll the dice.");
            let mut text = String::from_str("It's now ");
            text.append(name.as_str());
            text.append("'s turn to roll the dice.");
            push_note(r, Outbound::AllBut(conn, text));
        },
        None => {},
    }
    assert(notes(final(r)@) =~= notes(old(r)@) + turn_notice(*game));
}

/// The color a lower-case word names.
pub open spec fn color_named(w: Seq<char>) -> Option<Color> {
    if w == "red"@ {
        Some(Color::Red)
    } else if w == "green"@ {
        Some(Color::Green)
    } else if w == "blue"@ {
        Some(Color::Blue)
    } else if w == "yellow"@ {
        Some(Color::Yellow)
    } else {
        None
    }
}

/// Reads a color name, in any letter case.
pub fn parse_color(color_str: &str) -> (r: Option<Color>)
    ensures
        r == color_named(lower_of(color_str@)),
{
    let w = lowercase(color_str);
    if text_eq(w.as_str(), "red") {
        Some(Color::Red)
    } else if text_eq(w.as_str(), "green") {
        Some(Color::Green)
    } else if text_eq(w.as_str(), "blue") {
        Some(Color::Blue)
    } else if text_eq(w.as_str(), "yellow") {
        Some(Color::Yellow)
    } else {
        None
    }
}

/// Index of the first player, in joining order, bound to connection `conn`.
pub open spec fn caller_index(g: Game, conn: u64) -> Option<int> {
    if exists|i: int| 0 <= i < g.spec_players().len() && #[trigger] conn_of_index(g, i) == conn {
        Some(
            choose|i: int|
                0 <= i < g.spec_players().len() && #[trigger] conn_of_index(g, i) == conn && forall|j: int|
                    0 <= j < i ==> #[trigger] conn_of_index(g, j) != conn,
        )
    } else {
        None
    }
}

/// The name of the player bound to connection `conn`.
pub fn get_player_name_from_connection(game: &Game, conn: u64) -> (r: Option<String>)
    requires
        game.wf(),
    ensures
        match caller_index(*game, conn) {
            Some(i) => r matches Some(s) && s@ == game.spec_players()[i].spec_name(),
            None => r is None,
        },
{
    let n = game.num_players();
    let mut i: usize = 0;
    while i < n
        invariant
            game.wf(),
            n == game.spec_players().len(),
            0 <= i <= n,
            forall|j: int| 0 <= j < i ==> #[trigger] conn_of_index(*game, j) != conn,
        decreases n - i,
    {
        let p = game.player_at(i);
        if p.conn_id() == conn {
            proof {
                let k = choose|k: int|
                    0 <= k < game.spec_players().len() && #[trigger] conn_of_index(*game, k) == conn
                        && forall|j: int| 0 <= j < k ==> #[trigger] conn_of_index(*game, j) != conn;
                assert(conn_of_index(*game, i as int) == conn);
                if k < i {
                    assert(conn_of_index(*game, k) != conn);
                }
                if k > i {
                    assert(conn_of_index(*game, i as int) != conn);
                }
            }
            return Some(p.name().clone());
        }
        i = i + 1;
    }
    None
}

/// `n. Color` for each color, one per line.
pub open spec fn color_menu(cs: Seq<Color>) -> Seq<char> {
    joined(Seq::new(cs.len(), |i: int| decimal((i + 1) as nat) + ". "@ + color_name(cs[i])), "\n"@)
}

/// Prompt sent after a successful join, listing the colors still free.
pub open spec fn color_prompt(cs: Seq<Color>) -> Seq<char> {
    "Choose your color by typing 'COLOR <color>' where <color> is one of the following:\n"@
        + color_menu(cs)
}

fn color_prompt_text(cs: &Vec<Color>) -> (r: String)
    requires
        cs@.len() <= 4,
    ensures
        r@ == color_prompt(cs@),
{
    let ghost items = Seq::new(cs@.len(), |i: int| decimal((i + 1) as nat) + ". "@ + color_name(cs@[i]));
    let mut menu = String::new();
    let mut i: usize = 0;
    while i < cs.len()
        invariant
            cs@.len() <= 4,
            items == Seq::new(cs@.len(), |i: int| decimal((i + 1) as nat) + ". "@ + color_name(cs@[i])),
            0 <= i <= cs@.len(),
            menu@ == joined(items.take(i as int), "\n"@),
        decreases cs@.len() - i,
    {
        proof {
            lemma_joined_push(items, "\n"@, i as int);
        }
        let mut item = decimal_text((i + 1) as u64);
        item.append(". ");
        let c = color_text(cs[i]);
        item.append(c.as_str());
        if i > 0 {
            menu.append("\n");
        }
        menu.append(item.as_str());
        i = i + 1;
    }
    assert(items.take(cs@.len() as int) =~= items);
    let mut r = String::from_str(
        "Choose your color by typing 'COLOR <color>' where <color> is one of the following:\n",
    );
    r.append(menu.as_str());
    r
}

pub open spec fn opt_view(a: Option<&str>) -> Option<Seq<char>> {
    match a {
        Some(s) => Some(s@),
        None => None,
    }
}

/// What `JOIN` does to the game `g1`, giving `g2` and the replies `out`.
pub open spec fn join_effect(
    g1: Game,
    g2: Game,
    conn: u64,
    name: Option<Seq<char>>,
    out: Seq<Note>,
) -> bool {
    if !g1.can_add_player_spec() {
        g2 == g1 && out == seq![Note::To(conn, "Game is full or already started."@)]
    } else if name is None {
        g2 == g1 && out == seq![Note::To(conn, "Please provide a name. Usage: JOIN <name>"@)]
    } else if g1.has_player(lower_of(name.unwrap())) {
        g2 == g1 && out == seq![Note::To(conn, "That name is already taken."@)]
    } else {
        &&& added(g1, g2, lower_of(name.unwrap()), conn)
        &&& out == seq![Note::To(conn, color_prompt(available_seq(g2.spec_players())))]
    }
}

/// `JOIN <name>` from connection `conn`: adds the player while the game
/// accepts players, and answers with the colors still free.
pub fn handle_join(game: &mut Game, conn: u64, name: Option<&str>) -> (r: Vec<Outbound>)
    requires
        old(game).wf(),
    ensures
        final(game).wf(),
        join_effect(*old(game), *final(game), conn, opt_view(name), notes(r@)),
{
    let mut r: Vec<Outbound> = Vec::new();
    assert(notes(r@) =~= seq![]);
    if !game.can_add_player() {
        say(&mut r, conn, "Game is full or already started.");
        return r;
    }
    match name {
        None => {
            say(&mut r, conn, "Please provide a name. Usage: JOIN <name>");
        },
        Some(n) => {
            if !game.add_player(String::from_str(n), conn) {
                say(&mut r, conn, "That name is already taken.");
                return r;
            }
            let colors = game.available_colors();
            let text = color_prompt_text(&colors);
            push_note(&mut r, Outbound::To(conn, text));
        },
    }
    r
}

/// `<n> players have joined. ...`, sent once two or more players are registered.
pub open spec fn begin_hint(n: nat) -> Seq<char> {
    decimal(n) + " players have joined. Anyone can start the game by typing 'BEGIN'."@
}

/// Replies to a successful color choice by the player `name` on `conn`.
pub open spec fn color_replies(name: Seq<char>, conn: u64, c: Color, registered: nat) -> Seq<Note> {
    seq![
        Note::AllBut(
            conn,
            name + " successfully registered with color "@ + color_name(c)
                + ". Waiting for other players..."@,
        ),
        Note::To(
            conn,
            "You have successfully registered with color "@ + color_name(c)
                + ". Waiting for other players..."@,
        ),
    ] + if registered >= 2 {
        seq![Note::All(begin_hint(registered))]
    } else {
        seq![]
    }
}

/// What `COLOR` does to the game `g1`, giving `g2` and the replies `out`.
pub open spec fn color_effect(
    g1: Game,
    g2: Game,
    conn: u64,
    color: Option<Seq<char>>,
    out: Seq<Note>,
) -> bool {
    let g = g1;
    match caller_index(g, conn) {
        None => g2 == g && out == seq![Note::To(conn, "Unable to identify player."@)],
        Some(i) => {
            let name = g.spec_players()[i].spec_name();
            let c = match color {
                Some(s) => color_named(lower_of(s)),
                None => None,
            };
            if c is None || !available_seq(g.spec_players()).contains(c.unwrap()) {
                g2 == g && out == seq![
                    Note::To(conn, "Invalid color choice or color not available."@),
                ]
            } else if !can_register(g, name, c.unwrap()) {
                g2 == g && out == seq![
                    Note::To(conn, "Error: Player not found or already registered."@),
                ]
            } else {
                &&& recolored(g, g2, name, c.unwrap())
                &&& out == color_replies(name, conn, c.unwrap(), count_registered(g2.spec_players()))
            }
        },
    }
}

/// `COLOR <color>` from connection `conn`: the player bound to `conn` takes
/// the color when it is free and the player has not picked one yet.
pub fn handle_color(game: &mut Game, conn: u64, color: Option<&str>) -> (r: Vec<Outbound>)
    requires
        old(game).wf(),
    ensures
        final(game).wf(),
        color_effect(*old(game), *final(game), conn, opt_view(color), notes(r@)),
{
    let mut r: Vec<Outbound> = Vec::new();
    assert(notes(r@) =~= seq![]);
    let name = match get_player_name_from_connection(game, conn) {
        Some(n) => n,
        None => {
            say(&mut r, conn, "Unable to identify player.");
            return r;
        },
    };
    let c = match color {
        Some(s) => parse_color(s),
        None => None,
    };
    let c = match c {
        Some(c) => c,
        None => {
            say(&mut r, conn, "Invalid color choice or color not available.");
            return r;
        },
    };
    let free = game.available_colors();
    let mut found = false;
    let mut k: usize = 0;
    while k < free.len()
        invariant
            0 <= k <= free@.len(),
            found == exists|j: int| 0 <= j < k && free@[j] == c,
        decreases free@.len() - k,
    {
        if free[k] == c {
            found = true;
        }
        k = k + 1;
    }
    if !found {
        say(&mut r, conn, "Invalid color choice or color not available.");
        return r;
    }
    if !game.register_color(name.as_str(), c) {
        say(&mut r, conn, "Error: Player not found or already registered.");
        return r;
    }
    let cname = color_text(c);
    let mut to_others = name.clone();
    to_others.append(" successfully registered with color ");
    to_others.append(cname.as_str());
    to_others.append(". Waiting for other players...");
    push_note(&mut r, Outbound::AllBut(conn, to_others));
    let mut to_sender = String::from_str("You have successfully registered with color ");
    to_sender.append(cname.as_str());
    to_sender.append(". Waiting for other players...");
    push_note(&mut r, Outbound::To(conn, to_sender));
    let registered = game.num_registered();
    if registered >= 2 {
        let mut hint = decimal_text(registered as u64);
        hint.append(" players have joined. Anyone can start the game by typing 'BEGIN'.");
        push_note(&mut r, Outbound::All(hint));
    }
    assert(notes(r@) =~= color_replies(name@, conn, c, count_registered(game.spec_players())));
    r
}

/// Announcement that the game `g` has started.
pub open spec fn start_text(g: Game) -> Seq<char> {
    "Game started!\n"@ + turn_order_text(g) + "\n"@ + colored_board_text(g.spec_players())
        + "\nGood luck to all players!\nIt's "@ + g.current_turn().unwrap()
        + "'s turn to roll the dice."@
}

/// `g2` is `g1` started: pawns reset, a turn order over all players, and the
/// first in it to play.
pub open spec fn started(g1: Game, g2: Game) -> bool {
    &&& g2.spec_status() == GameStatus::InProgress
    &&& is_turn_order(g2.spec_turn_order(), g2.spec_players().len())
    &&& g2.turn_position() == Some(0nat)
    &&& g2.spec_players().len() == g1.spec_players().len()
    &&& forall|i: int|
        #![trigger g2.spec_players()[i]]
        0 <= i < g1.spec_players().len() ==> {
            &&& g2.spec_players()[i].positions() == all_house()
            &&& g2.spec_players()[i].same_but_pawns(&g1.spec_players()[i])
        }
}

/// What `BEGIN` from `conn` does to the game `g1`, giving `g2` and the replies `out`.
pub open spec fn begin_effect(g1: Game, g2: Game, conn: u64, out: Seq<Note>) -> bool {
    if g1.spec_status() != GameStatus::WaitingForPlayers {
        g2 == g1 && out == seq![Note::To(conn, "Game has already started."@)]
    } else if g1.spec_players().len() < 2 {
        g2 == g1 && out == seq![Note::To(conn, "Not enough players to start the game."@)]
    } else {
        &&& started(g1, g2)
        &&& out == seq![Note::All(start_text(g2))] + turn_notice(g2)
    }
}

/// `BEGIN` from connection `conn`: starts the game once two players joined.
pub fn handle_begin(game: &mut Game, conn: u64) -> (r: Vec<Outbound>)
    requires
        old(game).wf(),
    ensures
        final(game).wf(),
        begin_effect(*old(game), *final(game), conn, notes(r@)),
{
    let mut r: Vec<Outbound> = Vec::new();
    assert(notes(r@) =~= seq![]);
    if game.status() != GameStatus::WaitingForPlayers {
        say(&mut r, conn, "Game has already started.");
        return r;
    }
    if game.num_players() < 2 {
        say(&mut r, conn, "Not enough players to start the game.");
        return r;
    }
    game.initialize_all_pawns();
    game.start_game();
    let order = game.get_turn_order_message();
    let board = game.get_pawn_positions_message();
    let current = game.get_current_turn().unwrap();
    let mut text = String::from_str("Game started!\n");
    text.append(order.as_str());
    text.append("\n");
    text.append(board.as_str());
    text.append("\nGood luck to all players!\nIt's ");
    text.append(current.as_str());
    text.append("'s turn to roll the dice.");
    push_note(&mut r, Outbound::All(text));
    notify_next_player_turn(game, &mut r);
    r
}

/// Why a turn command (`ROLL`, `MOVE_OUT`, `MOVE`) from `conn` is refused,
/// if it is; `detailed` names the player whose turn it is.
pub open spec fn turn_refusal(g: Game, conn: u64, detailed: bool) -> Option<Seq<char>> {
    if g.spec_status() == GameStatus::GameOver {
        Some("The game is over."@)
    } else if g.spec_status() != GameStatus::InProgress || g.current_index() is None {
        Some("The game hasn't started yet."@)
    } else if conn_of_index(g, g.current_index().unwrap()) != conn {
        if detailed {
            Some("It's not your turn, it's "@ + g.current_turn().unwrap() + "'s turn."@)
        } else {
            Some("It's not your turn."@)
        }
    } else {
        None
    }
}

fn check_turn(game: &Game, conn: u64, detailed: bool) -> (r: Option<String>)
    requires
        game.wf(),
    ensures
        match r {
            Some(s) => turn_refusal(*game, conn, detailed) == Some(s@),
            None => turn_refusal(*game, conn, detailed) is None,
        },
{
    proof {
        game.lemma_wf();
    }
    if game.status() == GameStatus::GameOver {
        return Some(String::from_str("The game is over."));
    }
    if game.status() != GameStatus::InProgress {
        return Some(String::from_str("The game hasn't started yet."));
    }
    match game.get_current_turn() {
        None => Some(String::from_str("The game hasn't started yet.")),
        Some(name) => {
            let i = game.player_index(name.as_str()).unwrap();
            assert(i == game.current_index().unwrap());
            if game.player_at(i).conn_id() != conn {
                if detailed {
                    let mut t = String::from_str("It's not your turn, it's ");
                    t.append(name.as_str());
                    t.append("'s turn.");
                    Some(t)
                } else {
                    Some(String::from_str("It's not your turn."))
                }
            } else {
                None
            }
        },
    }
}

/// Where the turn stands after a command that may pass it on.
pub open spec fn turn_after(g1: Game, g2: Game, passes: bool) -> bool {
    g2.turn_position() == if passes {
        match g1.turn_position() {
            Some(c) => Some(advance_turn(c, g1.spec_turn_order().len())),
            None => None,
        }
    } else {
        g1.turn_position()
    }
}

/// The replies to a roll of `dice` by `name` on `conn` that do not depend on the pawns.
pub open spec fn roll_notes(name: Seq<char>, conn: u64, dice: u8) -> Seq<Note> {
    seq![
        Note::AllBut(conn, name + " rolled a "@ + decimal(dice as nat) + "."@),
        Note::To(conn, "You rolled a "@ + decimal(dice as nat) + "."@),
    ]
}

/// What `ROLL` from `conn`, with the die showing `dice`, does to the game
/// `g1`, giving `g2` and the replies `out`.
pub open spec fn roll_effect(g1: Game, g2: Game, conn: u64, dice: u8, out: Seq<Note>) -> bool {
    match turn_refusal(g1, conn, true) {
        Some(t) => g2 == g1 && out == seq![Note::To(conn, t)],
        None => {
            let i = g1.current_index().unwrap();
            let p = g1.spec_players()[i];
            let ps = p.positions();
            let h = house_count(ps);
            let b = board_count(ps);
            let stuck = h == 4 && b == 0 && dice != 6;
            let auto = h == 3 && b == 1 && dice != 6;
            let k = first_on_board(ps);
            let ps2 = if auto {
                moved(ps, (k + 1) as usize, dice)
            } else {
                ps
            };
            &&& player_changed(g1, g2, i, ps2, Some(dice))
            &&& g2.spec_status() == g1.spec_status()
            &&& turn_after(g1, g2, stuck || auto)
            &&& out == roll_notes(p.spec_name(), conn, dice) + if h == 4 && b == 0 && dice == 6 {
                seq![Note::To(conn, "You can move a pawn out of the house. Type 'MOVE_OUT'."@)]
            } else if stuck {
                seq![
                    Note::To(conn, "You need a 6 to move a pawn out of the house."@),
                    Note::All(board_text(g2.spec_players())),
                ] + turn_notice(g2)
            } else if 1 <= h <= 3 && dice == 6 {
                seq![
                    Note::To(
                        conn,
                        "Type 'MOVE_OUT' to move a pawn out of the house or 'MOVE <pawn number>' to move a pawn on the board."@,
                    ),
                ]
            } else if auto {
                seq![
                    Note::To(
                        conn,
                        if ps2[k] == PawnPosition::Goal {
                            "Your pawn "@ + decimal((k + 1) as nat) + " reached the goal!"@
                        } else {
                            "Your pawn "@ + decimal((k + 1) as nat) + " on the board has been moved."@
                        },
                    ),
                    Note::All(board_text(g2.spec_players())),
                ] + turn_notice(g2)
            } else {
                seq![Note::To(conn, "Choose a pawn to move. Type 'MOVE <pawn number>'."@)]
            }
        },
    }
}

/// Board snapshot for everyone, then the turn passes on and everyone hears whose it is.
fn pass_turn(game: &mut Game, r: &mut Vec<Outbound>)
    requires
        old(game).wf(),
    ensures
        final(game).wf(),
        final(game).spec_players() == old(game).spec_players(),
        final(game).spec_turn_order() == old(game).spec_turn_order(),
        final(game).spec_status() == old(game).spec_status(),
        turn_after(*old(game), *final(game), true),
        notes(final(r)@) == notes(old(r)@) + seq![Note::All(board_text(old(game).spec_players()))]
            + turn_notice(*final(game)),
{
    let board = game.get_board_state();
    push_note(r, Outbound::All(board));
    game.next_turn();
    notify_next_player_turn(game, r);
}

/// `ROLL` from connection `conn` with the die showing `dice`.
pub fn handle_roll_with(game: &mut Game, conn: u64, dice: u8) -> (r: Vec<Outbound>)
    requires
        old(game).wf(),
        1 <= dice <= 6,
    ensures
        final(game).wf(),
        roll_effect(*old(game), *final(game), conn, dice, notes(r@)),
{
    let mut r: Vec<Outbound> = Vec::new();
    assert(notes(r@) =~= seq![]);
    if let Some(t) = check_turn(game, conn, true) {
        push_note(&mut r, Outbound::To(conn, t));
        return r;
    }
    proof {
        game.lemma_wf();
    }
    let ghost g1 = *game;
    let name = game.get_current_turn().unwrap();
    let i = game.player_index(name.as_str()).unwrap();
    assert(i == g1.current_index().unwrap());
    let (h, b) = game.player_at(i).get_pawn_counts();
    game.set_last_dice_roll(name.as_str(), dice);
    assert(player_changed(g1, *game, i as int, g1.spec_players()[i as int].positions(), Some(dice)));
    let d = decimal_text(dice as u64);
    let mut to_others = name.clone();
    to_others.append(" rolled a ");
    to_others.append(d.as_str());
    to_others.append(".");
    push_note(&mut r, Outbound::AllBut(conn, to_others));
    let mut to_sender = String::from_str("You rolled a ");
    to_sender.append(d.as_str());
    to_sender.append(".");
    push_note(&mut r, Outbound::To(conn, to_sender));
    assert(notes(r@) =~= roll_notes(name@, conn, dice));
    if h == 4 && b == 0 && dice == 6 {
        say(&mut r, conn, "You can move a pawn out of the house. Type 'MOVE_OUT'.");
        assert(notes(r@) =~= roll_notes(name@, conn, dice) + seq![Note::To(conn, "You can move a pawn out of the house. Type 'MOVE_OUT'."@)]);
    } else if h == 4 && b == 0 {
        say(&mut r, conn, "You need a 6 to move a pawn out of the house.");
        pass_turn(game, &mut r);
        assert(notes(r@) =~= roll_notes(name@, conn, dice) + (seq![
            Note::To(conn, "You need a 6 to move a pawn out of the house."@),
            Note::All(board_text(game.spec_players())),
        ] + turn_notice(*game)));
    } else if 1 <= h && h <= 3 && dice == 6 {
        say(
            &mut r,
            conn,
            "Type 'MOVE_OUT' to move a pawn out of the house or 'MOVE <pawn number>' to move a pawn on the board.",
        );
        assert(notes(r@) =~= roll_notes(name@, conn, dice) + seq![
            Note::To(
                conn,
                "Type 'MOVE_OUT' to move a pawn out of the house or 'MOVE <pawn number>' to move a pawn on the board."@,
            ),
        ]);
    } else if h == 3 && b == 1 {
        let ghost ps = g1.spec_players()[i as int].positions();
        proof {
            game.lemma_wf();
            lemma_count_witness(ps, |p: PawnPosition| is_on_board(p));
            let w = choose|k: int| 0 <= k < ps.len() && (|p: PawnPosition| is_on_board(p))(#[trigger] ps[k]);
            assert(is_on_board(ps[w]));
            assert(game.spec_players()[i as int].positions() == ps);
            g1.spec_players()[i as int].lemma_wf();
            assert(is_on_board(game.spec_players()[i as int].positions()[w]));
        }
        let n = game.player_at(i).first_pawn_on_board_number().unwrap();
        proof {
            let k = first_on_board(ps);
            assert(is_on_board(ps[n - 1]));
            if k < n - 1 {
                assert(!is_on_board(ps[k]));
            }
            if k > n - 1 {
                assert(!is_on_board(ps[n - 1]));
            }
            assert(k == n - 1);
        }
        game.move_player_pawn(name.as_str(), n, dice);
        assert(player_changed(g1, *game, i as int, moved(ps, n, dice), Some(dice)));
        proof {
            game.lemma_wf();
        }
        let num = decimal_text(n as u64);
        let mut t = String::from_str("Your pawn ");
        t.append(num.as_str());
        if game.player_at(i).is_pawn_in_goal(n) {
            t.append(" reached the goal!");
        } else {
            t.append(" on the board has been moved.");
        }
        let ghost tv = t@;
        push_note(&mut r, Outbound::To(conn, t));
        pass_turn(game, &mut r);
        assert(notes(r@) =~= roll_notes(name@, conn, dice) + (seq![
            Note::To(conn, tv),
            Note::All(board_text(game.spec_players())),
        ] + turn_notice(*game)));
    } else {
        say(&mut r, conn, "Choose a pawn to move. Type 'MOVE <pawn number>'.");
        assert(notes(r@) =~= roll_notes(name@, conn, dice) + seq![Note::To(conn, "Choose a pawn to move. Type 'MOVE <pawn number>'."@)]);
    }
    r
}

/// What `MOVE_OUT` from `conn` does to the game `g1`, giving `g2` and the replies `out`.
pub open spec fn move_out_effect(g1: Game, g2: Game, conn: u64, out: Seq<Note>) -> bool {
    match turn_refusal(g1, conn, false) {
        Some(t) => g2 == g1 && out == seq![Note::To(conn, t)],
        None => {
            let i = g1.current_index().unwrap();
            let p = g1.spec_players()[i];
            if p.spec_last_roll() != Some(6u8) || house_count(p.positions()) == 0 {
                g2 == g1 && out == seq![Note::To(conn, "You cannot move a pawn out right now."@)]
            } else {
                &&& player_changed(g1, g2, i, g2.spec_players()[i].positions(), p.spec_last_roll())
                &&& moved_out(p.positions(), g2.spec_players()[i].positions())
                &&& g2.spec_status() == g1.spec_status()
                &&& turn_after(g1, g2, true)
                &&& out == seq![
                    Note::To(conn, "A pawn has been moved out of the house."@),
                    Note::All(board_text(g2.spec_players())),
                ] + turn_notice(g2)
            }
        },
    }
}

/// `MOVE_OUT` from connection `conn`: after a 6, a pawn leaves the house.
/// A player's last roll stays recorded until that player rolls again.
pub fn handle_move_out(game: &mut Game, conn: u64) -> (r: Vec<Outbound>)
    requires
        old(game).wf(),
    ensures
        final(game).wf(),
        move_out_effect(*old(game), *final(game), conn, notes(r@)),
{
    let mut r: Vec<Outbound> = Vec::new();
    assert(notes(r@) =~= seq![]);
    if let Some(t) = check_turn(game, conn, false) {
        push_note(&mut r, Outbound::To(conn, t));
        return r;
    }
    proof {
        game.lemma_wf();
    }
    let ghost g1 = *game;
    let name = game.get_current_turn().unwrap();
    let i = game.player_index(name.as_str()).unwrap();
    assert(i == g1.current_index().unwrap());
    let roll = game.get_last_dice_roll(name.as_str());
    let (h, _b) = game.player_at(i).get_pawn_counts();
    if roll != Some(6u8) || h == 0 {
        say(&mut r, conn, "You cannot move a pawn out right now.");
        return r;
    }
    game.move_player_pawn_out(name.as_str());
    assert(player_changed(g1, *game, i as int, game.spec_players()[i as int].positions(), g1.spec_players()[i as int].spec_last_roll()));
    say(&mut r, conn, "A pawn has been moved out of the house.");
    pass_turn(game, &mut r);
    assert(notes(r@) =~= seq![
        Note::To(conn, "A pawn has been moved out of the house."@),
        Note::All(board_text(game.spec_players())),
    ] + turn_notice(*game));
    r
}

/// Announcement that `name` has won.
pub open spec fn win_text(name: Seq<char>) -> Seq<char> {
    name + " has won the game!\nType 'END' to close the game."@
}

/// What `MOVE <n>` from `conn` does to the game `g1`, giving `g2` and the replies `out`.
pub open spec fn move_effect(
    g1: Game,
    g2: Game,
    conn: u64,
    arg: Option<Seq<char>>,
    out: Seq<Note>,
) -> bool {
    match turn_refusal(g1, conn, false) {
        Some(t) => g2 == g1 && out == seq![Note::To(conn, t)],
        None => {
            let i = g1.current_index().unwrap();
            let p = g1.spec_players()[i];
            let ps = p.positions();
            if arg is None {
                g2 == g1 && out == seq![
                    Note::To(conn, "Please specify which pawn to move (e.g., 'MOVE 1')."@),
                ]
            } else if parsed_usize(arg.unwrap()) is None {
                g2 == g1 && out == seq![Note::To(conn, "Invalid pawn number format."@)]
            } else {
                let n = parsed_usize(arg.unwrap()).unwrap();
                if !(1 <= n <= 4 && is_on_board(ps[n - 1])) {
                    g2 == g1 && out == seq![
                        Note::To(
                            conn,
                            "Invalid pawn number, pawn not on board, or pawn already in goal."@,
                        ),
                    ]
                } else if p.spec_last_roll() is None {
                    g2 == g1 && out == seq![Note::To(conn, "No dice roll found."@)]
                } else {
                    let ps2 = moved(ps, n, p.spec_last_roll().unwrap());
                    let won = forall|j: int| 0 <= j < 4 ==> is_goal(#[trigger] ps2[j]);
                    &&& player_changed(g1, g2, i, ps2, p.spec_last_roll())
                    &&& g2.spec_status() == if won {
                        GameStatus::GameOver
                    } else {
                        g1.spec_status()
                    }
                    &&& turn_after(g1, g2, true)
                    &&& out == seq![Note::All(board_text(g2.spec_players()))] + turn_notice(g2)
                        + if won {
                        seq![Note::All(win_text(p.spec_name()))]
                    } else {
                        seq![]
                    }
                }
            }
        },
    }
}

/// `MOVE <n>` from connection `conn`: pawn `n` advances by the last roll.
/// A player's last roll stays recorded until that player rolls again.
pub fn handle_move(game: &mut Game, conn: u64, arg: Option<&str>) -> (r: Vec<Outbound>)
    requires
        old(game).wf(),
    ensures
        final(game).wf(),
        move_effect(*old(game), *final(game), conn, opt_view(arg), notes(r@)),
{
    let mut r: Vec<Outbound> = Vec::new();
    assert(notes(r@) =~= seq![]);
    if let Some(t) = check_turn(game, conn, false) {
        push_note(&mut r, Outbound::To(conn, t));
        return r;
    }
    proof {
        game.lemma_wf();
    }
    let ghost g1 = *game;
    let name = game.get_current_turn().unwrap();
    let i = game.player_index(name.as_str()).unwrap();
    assert(i == g1.current_index().unwrap());
    let text = match arg {
        Some(a) => a,
        None => {
            say(&mut r, conn, "Please specify which pawn to move (e.g., 'MOVE 1').");
            return r;
        },
    };
    let n = match parse_usize(text) {
        Some(n) => n,
        None => {
            say(&mut r, conn, "Invalid pawn number format.");
            return r;
        },
    };
    if !game.player_at(i).is_valid_pawn_number(n) || game.player_at(i).is_pawn_in_goal(n) {
        say(&mut r, conn, "Invalid pawn number, pawn not on board, or pawn already in goal.");
        return r;
    }
    let dice = match game.get_last_dice_roll(name.as_str()) {
        Some(d) => d,
        None => {
            say(&mut r, conn, "No dice roll found.");
            return r;
        },
    };
    game.move_player_pawn(name.as_str(), n, dice);
    assert(player_changed(g1, *game, i as int, moved(g1.spec_players()[i as int].positions(), n, dice), Some(dice)));
    proof {
        game.lemma_wf();
    }
    let won = game.player_at(i).all_pawns_in_goal();
    pass_turn(game, &mut r);
    if won {
        let mut t = name.clone();
        t.append(" has won the game!\nType 'END' to close the game.");
        push_note(&mut r, Outbound::All(t));
        game.set_status(GameStatus::GameOver);
    }
    assert(notes(r@) =~= seq![Note::All(board_text(game.spec_players()))] + turn_notice(*game) + if won {
        seq![Note::All(win_text(name@))]
    } else {
        seq![]
    });
    r
}

/// The word after the command word, if any.
pub open spec fn argument(w: Seq<Seq<char>>) -> Option<Seq<char>> {
    if w.len() > 1 {
        Some(w[1])
    } else {
        None
    }
}

/// What the command in the words `w` does to the game `g1`, giving `g2` and
/// the replies `out`; `dice` is the die a `ROLL` shows.
pub open spec fn command_effect(
    g1: Game,
    g2: Game,
    conn: u64,
    w: Seq<Seq<char>>,
    dice: u8,
    out: Seq<Note>,
) -> bool {
    if w.len() == 0 {
        g2 == g1 && out == seq![Note::To(conn, "Unknown or invalid command."@)]
    } else if w[0] == "JOIN"@ {
        join_effect(g1, g2, conn, argument(w), out)
    } else if w[0] == "COLOR"@ {
        color_effect(g1, g2, conn, argument(w), out)
    } else if w[0] == "BEGIN"@ {
        begin_effect(g1, g2, conn, out)
    } else if w[0] == "ROLL"@ {
        roll_effect(g1, g2, conn, dice, out)
    } else if w[0] == "MOVE_OUT"@ {
        move_out_effect(g1, g2, conn, out)
    } else if w[0] == "MOVE"@ {
        move_effect(g1, g2, conn, argument(w), out)
    } else {
        g2 == g1 && out == seq![Note::To(conn, "Unknown or invalid command."@)]
    }
}

/// Applies the command whose words are `words`, from connection `conn`, with
/// the die showing `dice` should it be a `ROLL`.
pub fn dispatch(game: &mut Game, conn: u64, words: &Vec<String>, dice: u8) -> (r: Vec<Outbound>)
    requires
        old(game).wf(),
        1 <= dice <= 6,
    ensures
        final(game).wf(),
        command_effect(
            *old(game),
            *final(game),
            conn,
            words@.map_values(|w: String| w@),
            dice,
            notes(r@),
        ),
{
    let ghost w = words@.map_values(|w: String| w@);
    let arg: Option<&str> = if words.len() > 1 {
        Some(words[1].as_str())
    } else {
        None
    };
    assert(opt_view(arg) == argument(w));
    if words.len() == 0 {
        let mut r: Vec<Outbound> = Vec::new();
        assert(notes(r@) =~= seq![]);
        say(&mut r, conn, "Unknown or invalid command.");
        return r;
    }
    let head = words[0].as_str();
    if text_eq(head, "JOIN") {
        handle_join(game, conn, arg)
    } else if text_eq(head, "COLOR") {
        handle_color(game, conn, arg)
    } else if text_eq(head, "BEGIN") {
        handle_begin(game, conn)
    } else if text_eq(head, "ROLL") {
        handle_roll_with(game, conn, dice)
    } else if text_eq(head, "MOVE_OUT") {
        handle_move_out(game, conn)
    } else if text_eq(head, "MOVE") {
        handle_move(game, conn, arg)
    } else {
        let mut r: Vec<Outbound> = Vec::new();
        assert(notes(r@) =~= seq![]);
        say(&mut r, conn, "Unknown or invalid command.");
        r
    }
}

/// Applies one line of input from connection `conn`, with the die showing
/// `dice` should the line be a `ROLL`.
pub fn handle_message_with_roll(game: &mut Game, conn: u64, line: &str, dice: u8) -> (r: Vec<
    Outbound,
>)
    requires
        old(game).wf(),
        1 <= dice <= 6,
    ensures
        final(game).wf(),
        command_effect(*old(game), *final(game), conn, words_of(line@), dice, notes(r@)),
{
    let words = split_words(line);
    dispatch(game, conn, &words, dice)
}

/// Applies one line of input from connection `conn`; a `ROLL` draws a die.
pub fn handle_message(game: &mut Game, conn: u64, line: &str) -> (r: Vec<Outbound>)
    requires
        old(game).wf(),
    ensures
        final(game).wf(),
        exists|dice: u8|
            1 <= dice <= 6 && command_effect(
                *old(game),
                *final(game),
                conn,
                words_of(line@),
                dice,
                notes(r@),
            ),
{
    let words = split_words(line);
    let dice = if words.len() > 0 && text_eq(words[0].as_str(), "ROLL") {
        roll_in(1, 6)
    } else {
        1
    };
    dispatch(game, conn, &words, dice)
}

/// The greeting a connection receives before its first command.
pub fn welcome_message() -> (r: String)
    ensures
        r@ == "Welcome to Parchis! Enter 'JOIN <name>' to join the game."@,
{
    String::from_str("Welcome to Parchis! Enter 'JOIN <name>' to join the game.")
}

} // verus!
