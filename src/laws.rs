//! Properties that hold of every game, stated over the contracts of the
//! game state and the command handlers.

use vstd::prelude::*;

use crate::game_state::{
    advance_turn, advanced, all_house, available_seq, color_taken, colors_unique, house_count,
    is_base_color, is_goal, is_house, is_turn_order, lemma_count_witness, lemma_turn_order_facts,
    moved, moved_out, Color, Game, GameStatus, PawnPosition, Player,
};
use crate::session::{
    command_effect, move_out_effect, roll_effect, turn_refusal, win_text, Note,
};

verus! {

/// The colors offered are exactly the base colors that no player holds.
pub proof fn lemma_available_colors(g: Game)
    ensures
        forall|c: Color|
            available_seq(g.spec_players()).contains(c) <==> (is_base_color(c) && !color_taken(
                g.spec_players(),
                c,
            )),
{
    let ps = g.spec_players();
    assert forall|c: Color|
        available_seq(ps).contains(c) <==> (is_base_color(c) && !color_taken(ps, c)) by {
        if is_base_color(c) && !color_taken(ps, c) {
            let k: int = if c == Color::Red {
                0
            } else if c == Color::Green {
                if color_taken(ps, Color::Red) { 0 } else { 1 }
            } else if c == Color::Blue {
                available_seq(ps).len() - 1 - (if color_taken(ps, Color::Yellow) { 0int } else { 1int })
            } else {
                available_seq(ps).len() - 1
            };
            assert(available_seq(ps)[k] == c);
        }
    }
}

/// In every well-formed game no two players hold the same color, once assigned.
pub proof fn lemma_colors_never_shared(g: Game)
    requires
        g.wf(),
    ensures
        forall|i: int, j: int|
            0 <= i < g.spec_players().len() && 0 <= j < g.spec_players().len() && i != j
                && g.spec_players()[i].spec_color() != Color::Unassigned ==> g.spec_players()[i].spec_color()
                != g.spec_players()[j].spec_color(),
{
    g.lemma_wf();
    assert(colors_unique(g.spec_players()));
}

/// Once the game has started, the turn order lists every player exactly once.
pub proof fn lemma_turn_order_is_permutation(g: Game)
    requires
        g.wf(),
        is_turn_order(g.spec_turn_order(), g.spec_players().len()),
    ensures
        g.spec_turn_order().len() == g.spec_players().len(),
        g.spec_turn_order().no_duplicates(),
        forall|i: usize| i < g.spec_players().len() ==> g.spec_turn_order().contains(i),
        forall|k: int|
            0 <= k < g.spec_turn_order().len() ==> #[trigger] g.spec_turn_order()[k]
                < g.spec_players().len(),
{
    g.lemma_wf();
    lemma_turn_order_facts(g.spec_turn_order(), g.spec_players().len());
}

/// A board pawn advances by the roll, and enters the goal on reaching or
/// passing the end of the track; house and goal pawns do not move.
pub proof fn lemma_move_rule(p: PawnPosition, roll: u8)
    ensures
        p matches PawnPosition::Board(n) ==> advanced(p, roll) == if n + roll < 58 {
            PawnPosition::Board((n + roll) as u8)
        } else {
            PawnPosition::Goal
        },
        p == PawnPosition::House ==> advanced(p, roll) == PawnPosition::House,
        p == PawnPosition::Goal ==> advanced(p, roll) == PawnPosition::Goal,
{
}

proof fn lemma_first_house(a: Seq<PawnPosition>, k: int)
    requires
        0 <= k < a.len(),
        is_house(a[k]),
    ensures
        exists|m: int|
            0 <= m <= k && is_house(#[trigger] a[m]) && forall|j: int|
                0 <= j < m ==> !is_house(#[trigger] a[j]),
    decreases k,
{
    if exists|j: int| 0 <= j < k && is_house(#[trigger] a[j]) {
        let j = choose|j: int| 0 <= j < k && is_house(#[trigger] a[j]);
        lemma_first_house(a, j);
    } else {
        assert(is_house(a[k]));
    }
}

/// Moving a pawn out, when some pawn is in the house, changes exactly one
/// pawn, from the house to track index 1.
pub proof fn lemma_move_out_changes_one(a: Seq<PawnPosition>, b: Seq<PawnPosition>)
    requires
        moved_out(a, b),
        exists|k: int| 0 <= k < a.len() && is_house(#[trigger] a[k]),
    ensures
        exists|k: int|
            0 <= k < a.len() && is_house(#[trigger] a[k]) && b[k] == PawnPosition::Board(1) && b.len()
                == a.len() && forall|j: int| 0 <= j < a.len() && j != k ==> b[j] == a[j],
{
    let k0 = choose|k: int| 0 <= k < a.len() && is_house(#[trigger] a[k]);
    lemma_first_house(a, k0);
    let m = choose|m: int|
        0 <= m <= k0 && is_house(#[trigger] a[m]) && forall|j: int|
            0 <= j < m ==> !is_house(#[trigger] a[j]);
    assert(b == a.update(m, PawnPosition::Board(1)));
    assert(b[m] == PawnPosition::Board(1));
}

/// Turn position after `k` passes of the turn, starting at `c`.
pub open spec fn turns_after(c: nat, n: nat, k: nat) -> nat
    decreases k,
{
    if k == 0 {
        c
    } else {
        advance_turn(turns_after(c, n, (k - 1) as nat), n)
    }
}

proof fn lemma_turns_after_mod(c: nat, n: nat, k: nat)
    requires
        c < n,
    ensures
        turns_after(c, n, k) as int == (c + k) as int % (n as int),
    decreases k,
{
    if k == 0 {
        vstd::arithmetic::div_mod::lemma_small_mod(c, n);
    } else {
        lemma_turns_after_mod(c, n, (k - 1) as nat);
        vstd::arithmetic::div_mod::lemma_add_mod_noop((c + k - 1) as int, 1, n as int);
        if n > 1 {
            vstd::arithmetic::div_mod::lemma_small_mod(1, n);
        } else {
            assert(n == 1);
            assert(((c + k - 1) % 1) == 0) by (nonlinear_arith);
            assert(((c + k) % 1) == 0) by (nonlinear_arith);
        }
    }
}

proof fn lemma_wrap(x: int, n: int)
    requires
        0 < n,
        0 <= x < 2 * n,
    ensures
        x % n == if x < n {
            x
        } else {
            x - n
        },
{
    if x < n {
        vstd::arithmetic::div_mod::lemma_small_mod(x as nat, n as nat);
    } else {
        vstd::arithmetic::div_mod::lemma_mod_add_multiples_vanish(x - n, n);
        vstd::arithmetic::div_mod::lemma_small_mod((x - n) as nat, n as nat);
    }
}

/// Within one cycle the turn never comes back to a player: the positions
/// reached after `0..n` passes are pairwise distinct, and so are the players
/// at those positions of the turn order.
pub proof fn lemma_each_player_once_per_cycle(g: Game, k1: nat, k2: nat)
    requires
        g.wf(),
        g.turn_position() is Some,
        k1 < k2 < g.spec_turn_order().len(),
    ensures
        ({
            let n = g.spec_turn_order().len();
            let c = g.turn_position().unwrap();
            &&& turns_after(c, n, k1) != turns_after(c, n, k2)
            &&& g.spec_turn_order()[turns_after(c, n, k1) as int] != g.spec_turn_order()[turns_after(
                c,
                n,
                k2,
            ) as int]
        }),
{
    g.lemma_wf();
    let n = g.spec_turn_order().len();
    let c = g.turn_position().unwrap();
    lemma_turns_after_mod(c, n, k1);
    lemma_turns_after_mod(c, n, k2);
    lemma_wrap((c + k1) as int, n as int);
    lemma_wrap((c + k2) as int, n as int);
}

/// Passing the turn as many times as there are players brings it back to
/// where it started.
pub proof fn lemma_turns_cycle(c: nat, n: nat)
    requires
        c < n,
    ensures
        turns_after(c, n, n) == c,
{
    lemma_turns_after_mod(c, n, n);
    vstd::arithmetic::div_mod::lemma_add_mod_noop(c as int, n as int, n as int);
    vstd::arithmetic::div_mod::lemma_mod_self_0(n as int);
    vstd::arithmetic::div_mod::lemma_small_mod(c, n);
}

/// A `ROLL` that is accepted records the die for the rolling player, a value
/// in 1..=6, and leaves every other player's last roll as it was.
pub proof fn lemma_roll_records_only_roller(
    g1: Game,
    g2: Game,
    conn: u64,
    dice: u8,
    out: Seq<Note>,
)
    requires
        g1.wf(),
        1 <= dice <= 6,
        roll_effect(g1, g2, conn, dice, out),
        turn_refusal(g1, conn, true) is None,
    ensures
        g2.spec_players().len() == g1.spec_players().len(),
        g2.spec_players()[g1.current_index().unwrap()].spec_last_roll() == Some(dice),
        forall|j: int|
            0 <= j < g1.spec_players().len() && j != g1.current_index().unwrap()
                ==> #[trigger] g2.spec_players()[j].spec_last_roll()
                == g1.spec_players()[j].spec_last_roll(),
{
    g1.lemma_wf();
    let i = g1.current_index().unwrap();
    assert forall|j: int|
        0 <= j < g1.spec_players().len() && j != i implies #[trigger] g2.spec_players()[j].spec_last_roll()
        == g1.spec_players()[j].spec_last_roll() by {
        assert(g2.spec_players()[j] == g1.spec_players()[j]);
    }
}

/// `MOVE_OUT` changes the game only when the mover's last roll was 6 and a
/// pawn of theirs was in the house, and then exactly one pawn goes from the
/// house to track index 1.
pub proof fn lemma_move_out_rule(g1: Game, g2: Game, conn: u64, out: Seq<Note>)
    requires
        g1.wf(),
        move_out_effect(g1, g2, conn, out),
        g2 != g1,
    ensures
        turn_refusal(g1, conn, false) is None,
        g1.spec_players()[g1.current_index().unwrap()].spec_last_roll() == Some(6u8),
        house_count(g1.spec_players()[g1.current_index().unwrap()].positions()) > 0,
        ({
            let i = g1.current_index().unwrap();
            let a = g1.spec_players()[i].positions();
            let b = g2.spec_players()[i].positions();
            exists|k: int|
                0 <= k < a.len() && is_house(#[trigger] a[k]) && b[k] == PawnPosition::Board(1)
                    && b.len() == a.len() && forall|j: int| 0 <= j < a.len() && j != k ==> b[j] == a[j]
        }),
{
    g1.lemma_wf();
    let i = g1.current_index().unwrap();
    let a = g1.spec_players()[i].positions();
    lemma_count_witness(a, |p: PawnPosition| is_house(p));
    let w = choose|k: int| 0 <= k < a.len() && (|p: PawnPosition| is_house(p))(#[trigger] a[k]);
    assert(is_house(a[w]));
    lemma_move_out_changes_one(a, g2.spec_players()[i].positions());
}

/// Whether all four pawns of `p` are in the goal.
pub open spec fn has_won(p: Player) -> bool {
    forall|j: int| 0 <= j < 4 ==> is_goal(#[trigger] p.positions()[j])
}

/// The game is over exactly when some player has all four pawns in the goal.
pub open spec fn over_iff_won(g: Game) -> bool {
    (g.spec_status() == GameStatus::GameOver) <==> exists|i: int|
        0 <= i < g.spec_players().len() && has_won(#[trigger] g.spec_players()[i])
}

proof fn lemma_house_not_won(p: Player, k: int)
    requires
        0 <= k < 4,
        is_house(p.positions()[k]),
    ensures
        !has_won(p),
{
    assert(!is_goal(p.positions()[k]));
}

/// Every command keeps the game over exactly when someone has won; a game
/// that is over stays over and refuses every further turn command, and the
/// command that ends it announces the winner, by name, as its last message.
pub proof fn lemma_game_over_iff_winner(
    g1: Game,
    g2: Game,
    conn: u64,
    w: Seq<Seq<char>>,
    dice: u8,
    out: Seq<Note>,
)
    requires
        g1.wf(),
        g2.wf(),
        over_iff_won(g1),
        command_effect(g1, g2, conn, w, dice, out),
    ensures
        over_iff_won(g2),
        g1.spec_status() == GameStatus::GameOver ==> g2.spec_status() == GameStatus::GameOver,
        g1.spec_status() == GameStatus::GameOver && w.len() > 0 && (w[0] == "ROLL"@ || w[0]
            == "MOVE_OUT"@ || w[0] == "MOVE"@) ==> g2 == g1 && out == seq![
            Note::To(conn, "The game is over."@),
        ],
        g1.spec_status() != GameStatus::GameOver && g2.spec_status() == GameStatus::GameOver
            ==> exists|i: int|
            0 <= i < g2.spec_players().len() && has_won(#[trigger] g2.spec_players()[i])
                && out.last() == Note::All(win_text(g2.spec_players()[i].spec_name())),
{
    g1.lemma_wf();
    g2.lemma_wf();
    reveal_strlit("JOIN");
    reveal_strlit("COLOR");
    reveal_strlit("BEGIN");
    reveal_strlit("ROLL");
    reveal_strlit("MOVE_OUT");
    reveal_strlit("MOVE");
    assert("JOIN"@[0] == 'J' && "COLOR"@[0] == 'C' && "BEGIN"@[0] == 'B' && "ROLL"@[0] == 'R');
    assert("MOVE_OUT"@[0] == 'M' && "MOVE"@[0] == 'M' && "MOVE_OUT"@.len() != "MOVE"@.len());
    let ps1 = g1.spec_players();
    let ps2 = g2.spec_players();
    if g2 == g1 {
        return;
    }
    if w.len() > 0 && w[0] == "JOIN"@ {
        if exists|i: int| 0 <= i < ps2.len() && has_won(#[trigger] ps2[i]) {
            let i = choose|i: int| 0 <= i < ps2.len() && has_won(#[trigger] ps2[i]);
            if i < ps1.len() {
                assert(ps2.drop_last().len() == ps1.len() ==> ps2[i] == ps2.drop_last()[i]);
            }
            if i < ps1.len() && ps2[i] == ps1[i] {
                assert(has_won(ps1[i]));
            } else {
                assert(ps2[i].positions() == all_house());
                lemma_house_not_won(ps2[i], 0);
            }
        }
    } else if w.len() > 0 && w[0] == "COLOR"@ {
        assert forall|i: int| 0 <= i < ps2.len() implies has_won(#[trigger] ps2[i]) == has_won(ps1[i]) by {
            assert(ps2[i].positions() == ps1[i].positions());
        }
        if exists|i: int| 0 <= i < ps1.len() && has_won(#[trigger] ps1[i]) {
            let i = choose|i: int| 0 <= i < ps1.len() && has_won(#[trigger] ps1[i]);
            assert(has_won(ps2[i]));
        }
    } else if w.len() > 0 && w[0] == "BEGIN"@ {
        if exists|i: int| 0 <= i < ps2.len() && has_won(#[trigger] ps2[i]) {
            let i = choose|i: int| 0 <= i < ps2.len() && has_won(#[trigger] ps2[i]);
            assert(ps2[i].positions() == all_house());
            lemma_house_not_won(ps2[i], 0);
        }
    } else if w.len() > 0 && (w[0] == "ROLL"@ || w[0] == "MOVE_OUT"@ || w[0] == "MOVE"@) {
        let t = if w[0] == "ROLL"@ {
            turn_refusal(g1, conn, true)
        } else {
            turn_refusal(g1, conn, false)
        };
        assert(t is None);
        let c = g1.current_index().unwrap();
        assert(g1.spec_status() == GameStatus::InProgress);
        assert forall|i: int| 0 <= i < ps1.len() implies !has_won(#[trigger] ps1[i]) by {}
        ps1[c].lemma_wf();
        ps2[c].lemma_wf();
        assert forall|i: int| 0 <= i < ps2.len() && i != c implies !has_won(#[trigger] ps2[i]) by {
            assert(ps2[i] == ps1[i]);
        }
        if w[0] == "ROLL"@ {
            let ps = ps1[c].positions();
            if ps2[c].positions() != ps {
                lemma_three_in_house_not_won(ps, dice, ps2[c]);
            } else {
                assert(!has_won(ps1[c]));
            }
        } else if w[0] == "MOVE_OUT"@ {
            let a = ps1[c].positions();
            lemma_count_witness(a, |p: PawnPosition| is_house(p));
            let x = choose|k: int| 0 <= k < a.len() && (|p: PawnPosition| is_house(p))(#[trigger] a[k]);
            assert(is_house(a[x]));
            lemma_move_out_changes_one(a, ps2[c].positions());
            let k = choose|k: int|
                0 <= k < a.len() && is_house(#[trigger] a[k]) && ps2[c].positions()[k]
                    == PawnPosition::Board(1) && ps2[c].positions().len() == a.len() && forall|j: int|
                    0 <= j < a.len() && j != k ==> ps2[c].positions()[j] == a[j];
            assert(!is_goal(ps2[c].positions()[k]));
        } else {
            if g2.spec_status() != GameStatus::GameOver {
                assert(!has_won(ps2[c]));
            } else {
                assert(has_won(ps2[c]));
            }
        }
    } else {
    }
}

/// After an automatic move, a player with three pawns in the house has not won.
proof fn lemma_three_in_house_not_won(ps: Seq<PawnPosition>, dice: u8, moved_player: Player)
    requires
        ps.len() == 4,
        house_count(ps) == 3,
        exists|n: usize| moved_player.positions() == moved(ps, n, dice),
    ensures
        !has_won(moved_player),
{
    lemma_count_witness(ps, |p: PawnPosition| is_house(p));
    let n = choose|n: usize| moved_player.positions() == moved(ps, n, dice);
    let x = choose|k: int| 0 <= k < ps.len() && (|p: PawnPosition| is_house(p))(#[trigger] ps[k]);
    assert(is_house(ps[x]));
    if 1 <= n <= 4 && x == n - 1 {
        assert(advanced(ps[x], dice) == PawnPosition::House);
    }
    assert(is_house(moved_player.positions()[x]));
    lemma_house_not_won(moved_player, x);
}

} // verus!
