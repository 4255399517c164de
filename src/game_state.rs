//! Players, pawns and the shared game state.

use vstd::prelude::*;

use crate::primitives::{lower_of, lowercase, shuffle_indices};
use crate::text::{decimal, decimal_text, joined, lemma_joined_push, text_eq};

verus! {

/// Track index at which an advancing pawn leaves the board and enters the goal.
pub const GOAL_INDEX: u8 = 58;

/// Number of pawns each player owns.
pub const PAWNS_PER_PLAYER: usize = 4;

/// Largest number of players in one game.
pub const MAX_PLAYERS: usize = 4;

/// Lifecycle of a game; it only ever moves forward.
#[derive(PartialEq, Eq, Structural, Clone, Copy, Debug)]
pub enum GameStatus {
    WaitingForPlayers,
    InProgress,
    GameOver,
}

/// A player's color; `Unassigned` until the player picks one.
#[derive(PartialEq, Eq, Structural, Clone, Copy, Debug)]
pub enum Color {
    Red,
    Green,
    Blue,
    Yellow,
    Unassigned,
}

/// Where a pawn stands: in its house, on the track (index 1..=57), or in the goal.
#[derive(PartialEq, Eq, Structural, Clone, Copy, Debug)]
pub enum PawnPosition {
    House,
    Board(u8),
    Goal,
}

/// A position is valid when every board index lies on the track.
pub open spec fn valid_position(p: PawnPosition) -> bool {
    match p {
        PawnPosition::Board(n) => 1 <= n < GOAL_INDEX,
        _ => true,
    }
}

/// Where a pawn at `p` lands after a roll of `roll`: a board pawn advances,
/// and reaching or passing the end of the track puts it in the goal.
pub open spec fn advanced(p: PawnPosition, roll: u8) -> PawnPosition {
    match p {
        PawnPosition::Board(n) => if n + roll >= GOAL_INDEX {
            PawnPosition::Goal
        } else {
            PawnPosition::Board((n + roll) as u8)
        },
        _ => p,
    }
}

pub struct Pawn {
    position: PawnPosition,
}

impl Pawn {
    pub closed spec fn spec_position(&self) -> PawnPosition {
        self.position
    }

    /// A pawn that starts in its house.
    pub fn new() -> (r: Pawn)
        ensures
            r.spec_position() == PawnPosition::House,
    {
        Pawn { position: PawnPosition::House }
    }
}


/// Number of positions in `s` that satisfy `f`.
pub open spec fn count_where(s: Seq<PawnPosition>, f: spec_fn(PawnPosition) -> bool) -> nat
    decreases s.len(),
{
    if s.len() == 0 {
        0
    } else {
        count_where(s.drop_last(), f) + if f(s.last()) {
            1nat
        } else {
            0nat
        }
    }
}

/// Number of pawns in the house.
pub open spec fn house_count(s: Seq<PawnPosition>) -> nat {
    count_where(s, |p: PawnPosition| is_house(p))
}

/// Number of pawns on the board.
pub open spec fn board_count(s: Seq<PawnPosition>) -> nat {
    count_where(s, |p: PawnPosition| is_on_board(p))
}

pub open spec fn is_house(p: PawnPosition) -> bool {
    p == PawnPosition::House
}

pub open spec fn is_on_board(p: PawnPosition) -> bool {
    p is Board
}

pub open spec fn is_goal(p: PawnPosition) -> bool {
    p == PawnPosition::Goal
}

/// Positions after pawn `n` (counted from 1) moves by `roll`; other numbers change nothing.
pub open spec fn moved(ps: Seq<PawnPosition>, n: usize, roll: u8) -> Seq<PawnPosition> {
    if 1 <= n <= ps.len() {
        ps.update(n - 1, advanced(ps[n - 1], roll))
    } else {
        ps
    }
}

/// `b` is `a` with its first house pawn moved onto track index 1, or `a`
/// itself when no pawn is in the house.
pub open spec fn moved_out(a: Seq<PawnPosition>, b: Seq<PawnPosition>) -> bool {
    &&& (forall|j: int| 0 <= j < a.len() ==> !is_house(#[trigger] a[j])) ==> b == a
    &&& forall|i: int|
        0 <= i < a.len() && is_house(#[trigger] a[i]) && (forall|j: int|
            0 <= j < i ==> !is_house(#[trigger] a[j])) ==> b == a.update(i, PawnPosition::Board(1))
}

/// `g2` is `g1` but for the pawns of the player named `name`, whose positions
/// went from `a` to `b` with `rel(a, b)`.
pub open spec fn pawns_changed(
    g1: Game,
    g2: Game,
    name: Seq<char>,
    rel: spec_fn(Seq<PawnPosition>, Seq<PawnPosition>) -> bool,
) -> bool {
    &&& g2.spec_status() == g1.spec_status()
    &&& g2.spec_turn_order() == g1.spec_turn_order()
    &&& g2.turn_position() == g1.turn_position()
    &&& g2.spec_players().len() == g1.spec_players().len()
    &&& forall|i: int|
        #![trigger g1.spec_players()[i]]
        0 <= i < g1.spec_players().len() ==> if g1.spec_players()[i].spec_name() == name {
            &&& rel(g1.spec_players()[i].positions(), g2.spec_players()[i].positions())
            &&& g2.spec_players()[i].same_but_pawns(&g1.spec_players()[i])
        } else {
            g2.spec_players()[i] == g1.spec_players()[i]
        }
}

pub open spec fn pawn_text(p: PawnPosition) -> Seq<char> {
    match p {
        PawnPosition::House => "House"@,
        PawnPosition::Board(n) => decimal(n as nat),
        PawnPosition::Goal => "Goal"@,
    }
}

/// `Pawn k: <position>`.
pub open spec fn pawn_entry(k: nat, p: PawnPosition) -> Seq<char> {
    "Pawn "@ + decimal(k) + ": "@ + pawn_text(p)
}

pub open spec fn pawn_entries(ps: Seq<PawnPosition>) -> Seq<Seq<char>> {
    Seq::new(ps.len(), |i: int| pawn_entry((i + 1) as nat, ps[i]))
}

/// Every pawn's position, numbered from 1, separated by commas.
pub open spec fn positions_text(ps: Seq<PawnPosition>) -> Seq<char> {
    joined(pawn_entries(ps), ", "@)
}

pub open spec fn color_name(c: Color) -> Seq<char> {
    match c {
        Color::Red => "Red"@,
        Color::Green => "Green"@,
        Color::Blue => "Blue"@,
        Color::Yellow => "Yellow"@,
        Color::Unassigned => "Unassigned"@,
    }
}

/// One line per player, `name: positions`, in joining order.
pub open spec fn board_text(ps: Seq<Player>) -> Seq<char> {
    joined(
        Seq::new(ps.len(), |i: int| ps[i].spec_name() + ": "@ + positions_text(ps[i].positions())),
        "\n"@,
    )
}

/// One line per player, `name (Color): positions`, in joining order.
pub open spec fn colored_board_text(ps: Seq<Player>) -> Seq<char> {
    joined(
        Seq::new(
            ps.len(),
            |i: int|
                ps[i].spec_name() + " ("@ + color_name(ps[i].spec_color()) + "): "@ + positions_text(
                    ps[i].positions(),
                ),
        ),
        "\n"@,
    )
}

/// `Turn Order:` followed by one line per player in turn order, the player
/// whose turn it is marked as the one who starts; a fixed notice before the start.
pub open spec fn turn_order_text(g: Game) -> Seq<char> {
    match g.current_turn() {
        None => "No turn order set."@,
        Some(cur) => "Turn Order:\n"@ + joined(
            Seq::new(
                g.spec_turn_order().len(),
                |k: int|
                    {
                        let name = g.spec_players()[g.spec_turn_order()[k] as int].spec_name();
                        if name == cur {
                            "-> "@ + name + " (starts)\n"@
                        } else {
                            "-> "@ + name + "\n"@
                        }
                    },
            ),
            ""@,
        ),
    }
}

/// `g2` is `g1` with a fresh player added under `key` from connection `conn`.
pub open spec fn added(g1: Game, g2: Game, key: Seq<char>, conn: u64) -> bool {
    &&& g2.spec_status() == g1.spec_status()
    &&& g2.spec_turn_order() == g1.spec_turn_order()
    &&& g2.turn_position() == g1.turn_position()
    &&& g2.spec_players().len() == g1.spec_players().len() + 1
    &&& g2.spec_players().drop_last() == g1.spec_players()
    &&& g2.spec_players().last().is_fresh(key, conn)
}

/// Whether the player named `name` may take `color`: it exists, is not
/// registered yet, and `color` is a base color that nobody holds.
pub open spec fn can_register(g: Game, name: Seq<char>, color: Color) -> bool {
    &&& exists|i: int|
        0 <= i < g.spec_players().len() && #[trigger] g.spec_players()[i].spec_name() == name
            && !g.spec_players()[i].registered()
    &&& is_base_color(color)
    &&& !color_taken(g.spec_players(), color)
}

/// `g2` is `g1` with the player named `name` holding `color` and registered.
pub open spec fn recolored(g1: Game, g2: Game, name: Seq<char>, color: Color) -> bool {
    &&& g2.spec_status() == g1.spec_status()
    &&& g2.spec_turn_order() == g1.spec_turn_order()
    &&& g2.turn_position() == g1.turn_position()
    &&& g2.spec_players().len() == g1.spec_players().len()
    &&& forall|i: int|
        #![trigger g1.spec_players()[i]]
        0 <= i < g1.spec_players().len() ==> if g1.spec_players()[i].spec_name() == name {
            &&& g2.spec_players()[i].spec_color() == color
            &&& g2.spec_players()[i].registered()
            &&& g2.spec_players()[i].positions() == g1.spec_players()[i].positions()
            &&& g2.spec_players()[i].spec_name() == name
            &&& g2.spec_players()[i].spec_conn() == g1.spec_players()[i].spec_conn()
            &&& g2.spec_players()[i].spec_last_roll() == g1.spec_players()[i].spec_last_roll()
        } else {
            g2.spec_players()[i] == g1.spec_players()[i]
        }
}

/// Number of registered players in `ps`.
pub open spec fn count_registered(ps: Seq<Player>) -> nat
    decreases ps.len(),
{
    if ps.len() == 0 {
        0
    } else {
        count_registered(ps.drop_last()) + if ps.last().registered() {
            1nat
        } else {
            0nat
        }
    }
}

/// `g2` is `g1` but for player `i`, whose pawns now stand at `ps` and whose
/// last roll is `roll`; the turn order is kept.
pub open spec fn player_changed(
    g1: Game,
    g2: Game,
    i: int,
    ps: Seq<PawnPosition>,
    roll: Option<u8>,
) -> bool {
    &&& g2.spec_players().len() == g1.spec_players().len()
    &&& forall|j: int|
        0 <= j < g1.spec_players().len() && j != i ==> #[trigger] g2.spec_players()[j]
            == g1.spec_players()[j]
    &&& g2.spec_players()[i].positions() == ps
    &&& g2.spec_players()[i].spec_last_roll() == roll
    &&& g2.spec_players()[i].spec_name() == g1.spec_players()[i].spec_name()
    &&& g2.spec_players()[i].spec_color() == g1.spec_players()[i].spec_color()
    &&& g2.spec_players()[i].spec_conn() == g1.spec_players()[i].spec_conn()
    &&& g2.spec_players()[i].registered() == g1.spec_players()[i].registered()
    &&& g2.spec_turn_order() == g1.spec_turn_order()
}

/// Index of the lowest-numbered pawn on the board.
pub open spec fn first_on_board(ps: Seq<PawnPosition>) -> int {
    choose|k: int|
        0 <= k < ps.len() && is_on_board(#[trigger] ps[k]) && forall|j: int|
            0 <= j < k ==> !is_on_board(#[trigger] ps[j])
}

/// A positive count has a witness.
pub proof fn lemma_count_witness(s: Seq<PawnPosition>, f: spec_fn(PawnPosition) -> bool)
    requires
        count_where(s, f) > 0,
    ensures
        exists|k: int| 0 <= k < s.len() && f(#[trigger] s[k]),
    decreases s.len(),
{
    if !f(s.last()) {
        lemma_count_witness(s.drop_last(), f);
        let k = choose|k: int| 0 <= k < s.drop_last().len() && f(#[trigger] s.drop_last()[k]);
        assert(s[k] == s.drop_last()[k]);
    } else {
        assert(f(s[s.len() - 1]));
    }
}

/// The name of color `c`.
pub fn color_text(c: Color) -> (r: String)
    ensures
        r@ == color_name(c),
{
    match c {
        Color::Red => String::from_str("Red"),
        Color::Green => String::from_str("Green"),
        Color::Blue => String::from_str("Blue"),
        Color::Yellow => String::from_str("Yellow"),
        Color::Unassigned => String::from_str("Unassigned"),
    }
}

/// Order of the statuses along a game's life.
pub open spec fn status_rank(s: GameStatus) -> nat {
    match s {
        GameStatus::WaitingForPlayers => 0,
        GameStatus::InProgress => 1,
        GameStatus::GameOver => 2,
    }
}

fn status_rank_of(s: GameStatus) -> (r: u8)
    ensures
        r == status_rank(s),
{
    match s {
        GameStatus::WaitingForPlayers => 0,
        GameStatus::InProgress => 1,
        GameStatus::GameOver => 2,
    }
}

/// The four positions of a player who has just joined or whose pawns were reset.
pub open spec fn all_house() -> Seq<PawnPosition> {
    seq![PawnPosition::House, PawnPosition::House, PawnPosition::House, PawnPosition::House]
}

/// A player of the game; `name` is the lower-cased name that identifies it.
pub struct Player {
    name: String,
    pawns: Vec<Pawn>,
    color: Color,
    conn_id: u64,
    is_fully_registered: bool,
    last_roll: Option<u8>,
}

impl Player {
    pub closed spec fn spec_name(&self) -> Seq<char> {
        self.name@
    }

    pub closed spec fn positions(&self) -> Seq<PawnPosition> {
        self.pawns@.map_values(|p: Pawn| p.spec_position())
    }

    /// The connection this player joined from.
    pub closed spec fn spec_conn(&self) -> u64 {
        self.conn_id
    }

    pub closed spec fn spec_color(&self) -> Color {
        self.color
    }

    pub closed spec fn registered(&self) -> bool {
        self.is_fully_registered
    }

    pub closed spec fn spec_last_roll(&self) -> Option<u8> {
        self.last_roll
    }

    /// Four pawns on valid positions, and a recorded roll is a die face.
    pub closed spec fn wf(&self) -> bool {
        &&& self.pawns@.len() == PAWNS_PER_PLAYER
        &&& forall|i: int| 0 <= i < 4 ==> valid_position(#[trigger] self.positions()[i])
        &&& match self.last_roll {
            Some(v) => 1 <= v <= 6,
            None => true,
        }
    }

    /// Every observable part of `self` but the pawns equals that of `o`.
    pub open spec fn same_but_pawns(&self, o: &Player) -> bool {
        &&& self.spec_name() == o.spec_name()
        &&& self.spec_color() == o.spec_color()
        &&& self.spec_conn() == o.spec_conn()
        &&& self.registered() == o.registered()
        &&& self.spec_last_roll() == o.spec_last_roll()
    }

    /// A player who has just joined: pawns at home, no color, not registered.
    pub open spec fn is_fresh(&self, name: Seq<char>, conn_id: u64) -> bool {
        &&& self.spec_name() == name
        &&& self.positions() == all_house()
        &&& self.spec_color() == Color::Unassigned
        &&& self.spec_conn() == conn_id
        &&& !self.registered()
        &&& self.spec_last_roll() is None
        &&& self.wf()
    }

    pub(crate) fn fresh(name: String, conn_id: u64) -> (r: Player)
        ensures
            r.is_fresh(name@, conn_id),
    {
        let r = Player {
            name,
            pawns: vec![Pawn::new(), Pawn::new(), Pawn::new(), Pawn::new()],
            color: Color::Unassigned,
            conn_id,
            is_fully_registered: false,
            last_roll: None,
        };
        assert(r.positions() =~= all_house());
        r
    }

    /// What well-formedness says of a player's pawns and last roll.
    pub proof fn lemma_wf(&self)
        requires
            self.wf(),
        ensures
            self.positions().len() == PAWNS_PER_PLAYER,
            forall|i: int| 0 <= i < 4 ==> valid_position(#[trigger] self.positions()[i]),
            self.spec_last_roll() matches Some(v) ==> 1 <= v <= 6,
    {
    }

    /// The lower-cased name that identifies this player.
    pub fn name(&self) -> (r: &String)
        ensures
            r@ == self.spec_name(),
    {
        &self.name
    }

    pub fn conn_id(&self) -> (r: u64)
        ensures
            r == self.spec_conn(),
    {
        self.conn_id
    }

    pub fn color(&self) -> (r: Color)
        ensures
            r == self.spec_color(),
    {
        self.color
    }

    pub fn is_registered(&self) -> (r: bool)
        ensures
            r == self.registered(),
    {
        self.is_fully_registered
    }

    pub fn mark_as_fully_registered(&mut self)
        ensures
            final(self).registered(),
            final(self).spec_name() == old(self).spec_name(),
            final(self).spec_color() == old(self).spec_color(),
            final(self).spec_conn() == old(self).spec_conn(),
            final(self).spec_last_roll() == old(self).spec_last_roll(),
            final(self).positions() == old(self).positions(),
            old(self).wf() ==> final(self).wf(),
    {
        self.is_fully_registered = true;
        assert(self.positions() == old(self).positions());
    }

    pub fn set_color(&mut self, new_color: Color)
        ensures
            final(self).spec_color() == new_color,
            final(self).spec_name() == old(self).spec_name(),
            final(self).registered() == old(self).registered(),
            final(self).spec_conn() == old(self).spec_conn(),
            final(self).spec_last_roll() == old(self).spec_last_roll(),
            final(self).positions() == old(self).positions(),
            old(self).wf() ==> final(self).wf(),
    {
        self.color = new_color;
        assert(self.positions() == old(self).positions());
    }

    pub(crate) fn set_last_roll(&mut self, value: u8)
        requires
            1 <= value <= 6,
        ensures
            final(self).spec_last_roll() == Some(value),
            final(self).spec_name() == old(self).spec_name(),
            final(self).spec_color() == old(self).spec_color(),
            final(self).registered() == old(self).registered(),
            final(self).spec_conn() == old(self).spec_conn(),
            final(self).positions() == old(self).positions(),
            old(self).wf() ==> final(self).wf(),
    {
        self.last_roll = Some(value);
        assert(self.positions() == old(self).positions());
    }


    fn pawn_entry_text(&self, i: usize) -> (r: String)
        requires
            self.wf(),
            i < 4,
        ensures
            r@ == pawn_entry((i + 1) as nat, self.positions()[i as int]),
    {
        let mut r = String::from_str("Pawn ");
        let k = decimal_text((i + 1) as u64);
        r.append(k.as_str());
        r.append(": ");
        match self.pawns[i].position {
            PawnPosition::House => r.append("House"),
            PawnPosition::Board(n) => {
                let t = decimal_text(n as u64);
                r.append(t.as_str());
            },
            PawnPosition::Goal => r.append("Goal"),
        }
        r
    }

    /// The positions of all four pawns: `Pawn 1: House, Pawn 2: 7, ...`.
    pub fn get_pawn_positions(&self) -> (r: String)
        requires
            self.wf(),
        ensures
            r@ == positions_text(self.positions()),
    {
        let ghost entries = pawn_entries(self.positions());
        let mut r = String::new();
        let mut i: usize = 0;
        while i < 4
            invariant
                self.wf(),
                entries == pawn_entries(self.positions()),
                0 <= i <= 4,
                r@ == joined(entries.take(i as int), ", "@),
            decreases 4 - i,
        {
            proof {
                lemma_joined_push(entries, ", "@, i as int);
            }
            let e = self.pawn_entry_text(i);
            if i > 0 {
                r.append(", ");
            }
            r.append(e.as_str());
            i = i + 1;
        }
        assert(entries.take(4) =~= entries);
        r
    }

    /// Sends every pawn back to the house.
    pub fn initialize_pawns(&mut self)
        requires
            old(self).wf(),
        ensures
            final(self).wf(),
            final(self).positions() == all_house(),
            final(self).same_but_pawns(old(self)),
    {
        let mut i: usize = 0;
        while i < self.pawns.len()
            invariant
                self.pawns@.len() == PAWNS_PER_PLAYER,
                0 <= i <= 4,
                forall|j: int| 0 <= j < i ==> self.pawns@[j].spec_position() == PawnPosition::House,
                self.same_but_pawns(old(self)),
                old(self).wf(),
            decreases 4 - i,
        {
            self.pawns.set(i, Pawn::new());
            i = i + 1;
        }
        assert(self.positions() =~= all_house());
    }

    /// `(pawns in the house, pawns on the board)`; pawns in the goal count in neither.
    pub fn get_pawn_counts(&self) -> (r: (usize, usize))
        requires
            self.wf(),
        ensures
            r.0 == house_count(self.positions()),
            r.1 == board_count(self.positions()),
    {
        let mut in_house: usize = 0;
        let mut on_board: usize = 0;
        let mut i: usize = 0;
        while i < self.pawns.len()
            invariant
                self.wf(),
                0 <= i <= 4,
                in_house == count_where(self.positions().take(i as int), |p: PawnPosition| is_house(p)),
                on_board == count_where(self.positions().take(i as int), |p: PawnPosition| is_on_board(p)),
                in_house <= i,
                on_board <= i,
            decreases 4 - i,
        {
            assert(self.positions().take(i + 1).drop_last() =~= self.positions().take(i as int));
            match self.pawns[i].position {
                PawnPosition::House => in_house = in_house + 1,
                PawnPosition::Board(_) => on_board = on_board + 1,
                PawnPosition::Goal => {},
            }
            i = i + 1;
        }
        assert(self.positions().take(4) =~= self.positions());
        (in_house, on_board)
    }
    /// Moves the first pawn found in the house onto track index 1; no change
    /// when no pawn is in the house.
    pub fn move_pawn_out(&mut self)
        requires
            old(self).wf(),
        ensures
            final(self).wf(),
            final(self).same_but_pawns(old(self)),
            moved_out(old(self).positions(), final(self).positions()),
    {
        let mut i: usize = 0;
        while i < self.pawns.len()
            invariant
                self.wf(),
                *self == *old(self),
                0 <= i <= 4,
                forall|j: int| 0 <= j < i ==> !is_house(#[trigger] self.positions()[j]),
            decreases 4 - i,
        {
            if self.pawns[i].position == PawnPosition::House {
                assert(is_house(old(self).positions()[i as int]));
                self.pawns.set(i, Pawn { position: PawnPosition::Board(1) });
                assert(self.positions() =~= old(self).positions().update(
                    i as int,
                    PawnPosition::Board(1),
                ));
                return;
            }
            i = i + 1;
        }
    }

    /// Whether pawn `pawn_number` (counted from 1) is in the goal; false for a
    /// number outside 1..=4.
    pub fn is_pawn_in_goal(&self, pawn_number: usize) -> (r: bool)
        requires
            self.wf(),
        ensures
            r == (1 <= pawn_number <= 4 && is_goal(self.positions()[pawn_number - 1])),
    {
        if pawn_number == 0 || pawn_number > self.pawns.len() {
            return false;
        }
        self.pawns[pawn_number - 1].position == PawnPosition::Goal
    }

    /// Whether all four pawns are in the goal: this player has won.
    pub fn all_pawns_in_goal(&self) -> (r: bool)
        requires
            self.wf(),
        ensures
            r == (forall|j: int| 0 <= j < 4 ==> is_goal(#[trigger] self.positions()[j])),
    {
        let mut i: usize = 0;
        while i < self.pawns.len()
            invariant
                self.wf(),
                0 <= i <= 4,
                forall|j: int| 0 <= j < i ==> is_goal(#[trigger] self.positions()[j]),
            decreases 4 - i,
        {
            if self.pawns[i].position != PawnPosition::Goal {
                assert(!is_goal(self.positions()[i as int]));
                return false;
            }
            i = i + 1;
        }
        true
    }

    /// The number (counted from 1) of the lowest-numbered pawn on the board.
    pub fn first_pawn_on_board_number(&self) -> (r: Option<usize>)
        requires
            self.wf(),
        ensures
            match r {
                Some(n) => 1 <= n <= 4 && is_on_board(self.positions()[n - 1]) && forall|j: int|
                    0 <= j < n - 1 ==> !is_on_board(#[trigger] self.positions()[j]),
                None => forall|j: int| 0 <= j < 4 ==> !is_on_board(#[trigger] self.positions()[j]),
            },
    {
        let mut i: usize = 0;
        while i < self.pawns.len()
            invariant
                self.wf(),
                0 <= i <= 4,
                forall|j: int| 0 <= j < i ==> !is_on_board(#[trigger] self.positions()[j]),
            decreases 4 - i,
        {
            if let PawnPosition::Board(_) = self.pawns[i].position {
                return Some(i + 1);
            }
            i = i + 1;
        }
        None
    }

    /// Advances pawn `pawn_number` (counted from 1) by `dice_value` when it is
    /// on the board; any other pawn number, and a pawn in the house or the
    /// goal, leaves the player unchanged.
    pub fn move_pawn(&mut self, pawn_number: usize, dice_value: u8)
        requires
            old(self).wf(),
        ensures
            final(self).wf(),
            final(self).same_but_pawns(old(self)),
            final(self).positions() == moved(old(self).positions(), pawn_number, dice_value),
    {
        if pawn_number == 0 || pawn_number > self.pawns.len() {
            assert(self.positions() =~= old(self).positions());
            return;
        }
        let index = pawn_number - 1;
        match self.pawns[index].position {
            PawnPosition::Board(pos) => {
                let target: u16 = pos as u16 + dice_value as u16;
                if target >= GOAL_INDEX as u16 {
                    self.pawns.set(index, Pawn { position: PawnPosition::Goal });
                } else {
                    self.pawns.set(index, Pawn { position: PawnPosition::Board(target as u8) });
                }
            },
            _ => {},
        }
        assert(self.positions() =~= old(self).positions().update(
            index as int,
            advanced(old(self).positions()[index as int], dice_value),
        ));
    }

    /// Whether `pawn_number` (counted from 1) names a pawn that is on the board.
    pub fn is_valid_pawn_number(&self, pawn_number: usize) -> (r: bool)
        requires
            self.wf(),
        ensures
            r == (1 <= pawn_number <= 4 && is_on_board(self.positions()[pawn_number - 1])),
    {
        if pawn_number == 0 || pawn_number > self.pawns.len() {
            return false;
        }
        match self.pawns[pawn_number - 1].position {
            PawnPosition::Board(_) => true,
            _ => false,
        }
    }
}

/// `0, 1, ..., n - 1`: the player indices of a game with `n` players.
pub open spec fn index_range(n: nat) -> Seq<usize> {
    Seq::new(n, |i: int| i as usize)
}

/// `o` lists each of the player indices `0..n` exactly once.
pub open spec fn is_turn_order(o: Seq<usize>, n: nat) -> bool {
    o.to_multiset() == index_range(n).to_multiset()
}

/// Where the turn goes from position `c` of a turn order of length `n`.
pub open spec fn advance_turn(c: nat, n: nat) -> nat {
    if n == 0 {
        c
    } else {
        (c + 1) % n
    }
}

/// Player names are unique.
pub open spec fn names_unique(ps: Seq<Player>) -> bool {
    forall|i: int, j: int|
        0 <= i < ps.len() && 0 <= j < ps.len() && i != j ==> #[trigger] ps[i].spec_name()
            != #[trigger] ps[j].spec_name()
}

/// No two players hold the same assigned color.
pub open spec fn colors_unique(ps: Seq<Player>) -> bool {
    forall|i: int, j: int|
        0 <= i < ps.len() && 0 <= j < ps.len() && i != j && ps[i].spec_color()
            != Color::Unassigned ==> #[trigger] ps[i].spec_color() != #[trigger] ps[j].spec_color()
}

/// Whether some player holds color `c`.
pub open spec fn color_taken(ps: Seq<Player>, c: Color) -> bool {
    exists|i: int| 0 <= i < ps.len() && #[trigger] ps[i].spec_color() == c
}

/// `seq![c]` when no player holds `c`, else nothing.
pub open spec fn if_free(ps: Seq<Player>, c: Color) -> Seq<Color> {
    if color_taken(ps, c) {
        seq![]
    } else {
        seq![c]
    }
}

/// The base colors that no player holds, in the order red, green, blue, yellow.
pub open spec fn available_seq(ps: Seq<Player>) -> Seq<Color> {
    if_free(ps, Color::Red) + if_free(ps, Color::Green) + if_free(ps, Color::Blue) + if_free(
        ps,
        Color::Yellow,
    )
}

/// Whether `c` is one of the four colors a player can pick.
pub open spec fn is_base_color(c: Color) -> bool {
    c != Color::Unassigned
}

/// The shared state of one game.
pub struct Game {
    players: Vec<Player>,
    turn_order: Vec<usize>,
    current: Option<usize>,
    status: GameStatus,
}

impl Game {
    /// The players, in the order in which they joined.
    pub closed spec fn spec_players(&self) -> Seq<Player> {
        self.players@
    }

    /// The turn order, as indices into `spec_players()`; empty before the start.
    pub closed spec fn spec_turn_order(&self) -> Seq<usize> {
        self.turn_order@
    }

    /// Position in the turn order of the player whose turn it is.
    pub closed spec fn turn_position(&self) -> Option<nat> {
        match self.current {
            Some(c) => Some(c as nat),
            None => None,
        }
    }

    pub closed spec fn spec_status(&self) -> GameStatus {
        self.status
    }

    /// Index into `spec_players()` of the player whose turn it is.
    pub open spec fn current_index(&self) -> Option<int> {
        match self.turn_position() {
            Some(c) => Some(self.spec_turn_order()[c as int] as int),
            None => None,
        }
    }

    /// Name of the player whose turn it is.
    pub open spec fn current_turn(&self) -> Option<Seq<char>> {
        match self.current_index() {
            Some(i) => Some(self.spec_players()[i].spec_name()),
            None => None,
        }
    }

    /// Whether a player named `name` has joined.
    pub open spec fn has_player(&self, name: Seq<char>) -> bool {
        exists|i: int|
            0 <= i < self.spec_players().len() && #[trigger] self.spec_players()[i].spec_name()
                == name
    }

    pub open spec fn can_add_player_spec(&self) -> bool {
        self.spec_status() == GameStatus::WaitingForPlayers && self.spec_players().len()
            < MAX_PLAYERS
    }

    pub closed spec fn wf(&self) -> bool {
        &&& self.players@.len() <= MAX_PLAYERS
        &&& forall|i: int| 0 <= i < self.players@.len() ==> #[trigger] self.players@[i].wf()
        &&& names_unique(self.players@)
        &&& colors_unique(self.players@)
        &&& self.turn_order@.len() == 0 || is_turn_order(self.turn_order@, self.players@.len())
        &&& match self.current {
            Some(c) => c < self.turn_order@.len(),
            None => true,
        }
        &&& self.status == GameStatus::WaitingForPlayers ==> self.turn_order@.len() == 0
            && self.current is None
    }

    /// Facts that hold of every well-formed game.
    pub proof fn lemma_wf(&self)
        requires
            self.wf(),
        ensures
            self.spec_players().len() <= MAX_PLAYERS,
            forall|i: int| 0 <= i < self.spec_players().len() ==> #[trigger] self.spec_players()[i].wf(),
            names_unique(self.spec_players()),
            colors_unique(self.spec_players()),
            self.spec_turn_order().len() == 0 || self.spec_turn_order().len() == self.spec_players().len(),
            forall|k: int| 0 <= k < self.spec_turn_order().len() ==> #[trigger] self.spec_turn_order()[k] < self.spec_players().len(),
            self.spec_turn_order().no_duplicates(),
            self.turn_position() matches Some(c) ==> c < self.spec_turn_order().len(),
            self.current_index() matches Some(i) ==> 0 <= i < self.spec_players().len(),
            self.spec_status() == GameStatus::WaitingForPlayers ==> self.spec_turn_order().len() == 0
                && self.turn_position() is None,
    {
        if self.turn_order@.len() != 0 {
            lemma_turn_order_facts(self.turn_order@, self.players@.len());
        }
    }

    /// A game with no players, waiting for them to join.
    pub fn new() -> (r: Game)
        ensures
            r.wf(),
            r.spec_players().len() == 0,
            r.spec_status() == GameStatus::WaitingForPlayers,
            r.turn_position() is None,
            r.spec_turn_order().len() == 0,
    {
        Game {
            players: Vec::new(),
            turn_order: Vec::new(),
            current: None,
            status: GameStatus::WaitingForPlayers,
        }
    }

    /// Whether one more player may join.
    pub fn can_add_player(&self) -> (r: bool)
        ensures
            r == self.can_add_player_spec(),
    {
        self.status == GameStatus::WaitingForPlayers && self.players.len() < MAX_PLAYERS
    }

    pub fn num_players(&self) -> (r: usize)
        ensures
            r == self.spec_players().len(),
    {
        self.players.len()
    }

    /// Index of the player named `name`.
    pub fn player_index(&self, name: &str) -> (r: Option<usize>)
        requires
            self.wf(),
        ensures
            match r {
                Some(i) => i < self.spec_players().len() && self.spec_players()[i as int].spec_name()
                    == name@,
                None => !self.has_player(name@),
            },
    {
        let mut i: usize = 0;
        while i < self.players.len()
            invariant
                0 <= i <= self.players@.len(),
                forall|j: int| 0 <= j < i ==> #[trigger] self.players@[j].spec_name() != name@,
            decreases self.players@.len() - i,
        {
            if text_eq(self.players[i].name.as_str(), name) {
                return Some(i);
            }
            i = i + 1;
        }
        None
    }

    /// The player named `name`.
    pub fn get_player(&self, name: &str) -> (r: Option<&Player>)
        requires
            self.wf(),
        ensures
            match r {
                Some(p) => exists|i: int|
                    0 <= i < self.spec_players().len() && self.spec_players()[i] == *p
                        && p.spec_name() == name@,
                None => !self.has_player(name@),
            },
    {
        match self.player_index(name) {
            Some(i) => Some(&self.players[i]),
            None => None,
        }
    }

    /// Adds a player under the lower-cased form of `name`, with four pawns in
    /// the house and no color, and returns true; when a player already goes
    /// by that name, nothing changes and the result is false.
    pub fn add_player(&mut self, name: String, conn_id: u64) -> (r: bool)
        requires
            old(self).wf(),
            old(self).can_add_player_spec(),
        ensures
            final(self).wf(),
            r == !old(self).has_player(lower_of(name@)),
            r ==> added(*old(self), *final(self), lower_of(name@), conn_id),
            !r ==> *final(self) == *old(self),
    {
        let key = lowercase(name.as_str());
        match self.player_index(key.as_str()) {
            Some(_) => false,
            None => {
                let player = Player::fresh(key, conn_id);
                self.players.push(player);
                assert(self.players@.drop_last() =~= old(self).players@);
                true
            },
        }
    }

    /// Whether some player holds `c`.
    fn is_color_taken(&self, c: Color) -> (r: bool)
        ensures
            r == color_taken(self.spec_players(), c),
    {
        let mut i: usize = 0;
        while i < self.players.len()
            invariant
                0 <= i <= self.players@.len(),
                forall|j: int| 0 <= j < i ==> #[trigger] self.players@[j].spec_color() != c,
            decreases self.players@.len() - i,
        {
            if self.players[i].color == c {
                assert(self.players@[i as int].spec_color() == c);
                return true;
            }
            i = i + 1;
        }
        false
    }

    /// The base colors that no player holds yet, red, green, blue, yellow in that order.
    pub fn available_colors(&self) -> (r: Vec<Color>)
        ensures
            r@ == available_seq(self.spec_players()),
    {
        let mut r: Vec<Color> = Vec::new();
        if !self.is_color_taken(Color::Red) {
            r.push(Color::Red);
        }
        if !self.is_color_taken(Color::Green) {
            r.push(Color::Green);
        }
        if !self.is_color_taken(Color::Blue) {
            r.push(Color::Blue);
        }
        if !self.is_color_taken(Color::Yellow) {
            r.push(Color::Yellow);
        }
        assert(r@ =~= available_seq(self.spec_players()));
        r
    }

    /// Gives `color` to the player named `name` and marks it registered, when
    /// that player exists, is not registered yet, and `color` is a base color
    /// that nobody holds; otherwise nothing changes. Returns whether it did.
    pub fn register_color(&mut self, name: &str, color: Color) -> (r: bool)
        requires
            old(self).wf(),
        ensures
            final(self).wf(),
            r == can_register(*old(self), name@, color),
            r ==> recolored(*old(self), *final(self), name@, color),
            !r ==> *final(self) == *old(self),
    {
        match self.player_index(name) {
            None => false,
            Some(i) => {
                if self.players[i].is_fully_registered || color == Color::Unassigned
                    || self.is_color_taken(color) {
                    return false;
                }
                let mut p = self.players.remove(i);
                p.set_color(color);
                p.mark_as_fully_registered();
                self.players.insert(i, p);
                assert(forall|j: int| 0 <= j < self.players@.len() && j != i ==> self.players@[j] == old(self).players@[j]);
                true
            },
        }
    }

    /// Sends every pawn of every player back to the house.
    pub fn initialize_all_pawns(&mut self)
        requires
            old(self).wf(),
        ensures
            final(self).wf(),
            final(self).spec_status() == old(self).spec_status(),
            final(self).spec_turn_order() == old(self).spec_turn_order(),
            final(self).turn_position() == old(self).turn_position(),
            final(self).spec_players().len() == old(self).spec_players().len(),
            forall|i: int|
                #![trigger final(self).spec_players()[i]]
                0 <= i < old(self).spec_players().len() ==> {
                    &&& final(self).spec_players()[i].positions() == all_house()
                    &&& final(self).spec_players()[i].same_but_pawns(&old(self).spec_players()[i])
                },
    {
        let n = self.players.len();
        let mut i: usize = 0;
        while i < n
            invariant
                self.wf(),
                n == self.players@.len(),
                n == old(self).players@.len(),
                0 <= i <= n,
                self.status == old(self).status,
                self.turn_order == old(self).turn_order,
                self.current == old(self).current,
                forall|j: int|
                    #![trigger self.players@[j]]
                    0 <= j < i ==> {
                        &&& self.players@[j].positions() == all_house()
                        &&& self.players@[j].same_but_pawns(&old(self).players@[j])
                    },
                forall|j: int| i <= j < n ==> #[trigger] self.players@[j] == old(self).players@[j],
            decreases n - i,
        {
            let mut p = self.players.remove(i);
            p.initialize_pawns();
            self.players.insert(i, p);
            i = i + 1;
        }
        assert(self.spec_players() == self.players@);
        assert(old(self).spec_players() == old(self).players@);
    }

    /// Whether the game may start: still waiting for players, and at least two joined.
    pub open spec fn can_start(&self) -> bool {
        self.spec_status() == GameStatus::WaitingForPlayers && self.spec_players().len() >= 2
    }

    /// Starts the game with the turn order `order`, when it may start:
    /// the first in `order` gets the turn. Otherwise nothing changes.
    pub fn start_game_with_order(&mut self, order: Vec<usize>)
        requires
            old(self).wf(),
            is_turn_order(order@, old(self).spec_players().len()),
        ensures
            final(self).wf(),
            final(self).spec_players() == old(self).spec_players(),
            old(self).can_start() ==> {
                &&& final(self).spec_status() == GameStatus::InProgress
                &&& final(self).spec_turn_order() == order@
                &&& final(self).turn_position() == Some(0nat)
            },
            !old(self).can_start() ==> *final(self) == *old(self),
    {
        if self.status == GameStatus::WaitingForPlayers && self.players.len() >= 2 {
            proof {
                lemma_turn_order_facts(order@, self.players@.len());
            }
            self.status = GameStatus::InProgress;
            self.turn_order = order;
            self.current = Some(0);
        }
    }

    /// Starts the game, when it may start, with the players in a random
    /// order; the first in that order gets the turn. Otherwise nothing changes.
    pub fn start_game(&mut self)
        requires
            old(self).wf(),
        ensures
            final(self).wf(),
            final(self).spec_players() == old(self).spec_players(),
            old(self).can_start() ==> {
                &&& final(self).spec_status() == GameStatus::InProgress
                &&& is_turn_order(final(self).spec_turn_order(), final(self).spec_players().len())
                &&& final(self).turn_position() == Some(0nat)
            },
            !old(self).can_start() ==> *final(self) == *old(self),
    {
        let n = self.players.len();
        let mut order: Vec<usize> = Vec::new();
        let mut i: usize = 0;
        while i < n
            invariant
                0 <= i <= n,
                order@ == index_range(i as nat),
            decreases n - i,
        {
            order.push(i);
            i = i + 1;
            assert(order@ =~= index_range(i as nat));
        }
        shuffle_indices(&mut order);
        self.start_game_with_order(order);
    }

    /// Name of the player whose turn it is, once the game has started.
    pub fn get_current_turn(&self) -> (r: Option<String>)
        requires
            self.wf(),
        ensures
            match r {
                Some(s) => self.current_turn() == Some(s@),
                None => self.current_turn() is None,
            },
    {
        proof {
            self.lemma_wf();
        }
        match self.current {
            Some(c) => Some(self.players[self.turn_order[c]].name.clone()),
            None => None,
        }
    }

    /// Passes the turn to the next player in the turn order, wrapping from
    /// the last back to the first; no change before the game has started.
    pub fn next_turn(&mut self)
        requires
            old(self).wf(),
        ensures
            final(self).wf(),
            final(self).spec_players() == old(self).spec_players(),
            final(self).spec_turn_order() == old(self).spec_turn_order(),
            final(self).spec_status() == old(self).spec_status(),
            final(self).turn_position() == match old(self).turn_position() {
                Some(c) => Some(advance_turn(c, old(self).spec_turn_order().len())),
                None => None,
            },
    {
        proof {
            self.lemma_wf();
        }
        if let Some(c) = self.current {
            self.current = Some((c + 1) % self.turn_order.len());
        }
    }

    pub fn get_last_dice_roll(&self, player_name: &str) -> (r: Option<u8>)
        requires
            self.wf(),
        ensures
            self.has_player(player_name@) ==> exists|i: int|
                0 <= i < self.spec_players().len() && #[trigger] self.spec_players()[i].spec_name()
                    == player_name@ && r == self.spec_players()[i].spec_last_roll(),
            !self.has_player(player_name@) ==> r is None,
    {
        match self.player_index(player_name) {
            Some(i) => self.players[i].last_roll,
            None => None,
        }
    }

    /// Records `value` as the last roll of the player named `player_name`;
    /// nothing changes when no player has that name.
    pub fn set_last_dice_roll(&mut self, player_name: &str, value: u8)
        requires
            old(self).wf(),
            1 <= value <= 6,
        ensures
            final(self).wf(),
            final(self).spec_status() == old(self).spec_status(),
            final(self).spec_turn_order() == old(self).spec_turn_order(),
            final(self).turn_position() == old(self).turn_position(),
            final(self).spec_players().len() == old(self).spec_players().len(),
            forall|i: int|
                0 <= i < old(self).spec_players().len() ==> if old(self).spec_players()[i].spec_name() == player_name@ {
                    &&& final(self).spec_players()[i].spec_last_roll() == Some(value)
                    &&& final(self).spec_players()[i].positions() == old(self).spec_players()[i].positions()
                    &&& final(self).spec_players()[i].spec_name() == player_name@
                    &&& final(self).spec_players()[i].spec_color() == old(self).spec_players()[i].spec_color()
                    &&& final(self).spec_players()[i].registered() == old(self).spec_players()[i].registered()
                    &&& final(self).spec_players()[i].spec_conn() == old(self).spec_players()[i].spec_conn()
                } else {
                    final(self).spec_players()[i] == old(self).spec_players()[i]
                },
    {
        if let Some(i) = self.player_index(player_name) {
            let mut p = self.players.remove(i);
            p.set_last_roll(value);
            self.players.insert(i, p);
            assert(forall|j: int| 0 <= j < self.players@.len() && j != i ==> self.players@[j] == old(self).players@[j]);
        }
    }

    pub fn is_in_progress(&self) -> (r: bool)
        ensures
            r == (self.spec_status() == GameStatus::InProgress),
    {
        self.status == GameStatus::InProgress
    }

    pub fn status(&self) -> (r: GameStatus)
        ensures
            r == self.spec_status(),
    {
        self.status
    }

    /// Moves the status to `new_status` when that is a step forward
    /// (waiting, in progress, over); a step back is ignored.
    pub fn set_status(&mut self, new_status: GameStatus)
        requires
            old(self).wf(),
        ensures
            final(self).wf(),
            final(self).spec_players() == old(self).spec_players(),
            final(self).spec_turn_order() == old(self).spec_turn_order(),
            final(self).turn_position() == old(self).turn_position(),
            final(self).spec_status() == if status_rank(new_status) >= status_rank(
                old(self).spec_status(),
            ) {
                new_status
            } else {
                old(self).spec_status()
            },
    {
        if status_rank_of(new_status) >= status_rank_of(self.status) {
            self.status = new_status;
        }
    }


    /// Moves out the first pawn in the house of the player named `name`.
    pub fn move_player_pawn_out(&mut self, name: &str)
        requires
            old(self).wf(),
        ensures
            final(self).wf(),
            pawns_changed(*old(self), *final(self), name@, |a: Seq<PawnPosition>, b: Seq<PawnPosition>| moved_out(a, b)),
    {
        if let Some(i) = self.player_index(name) {
            let mut p = self.players.remove(i);
            p.move_pawn_out();
            self.players.insert(i, p);
            assert(forall|j: int| 0 <= j < self.players@.len() && j != i ==> self.players@[j] == old(self).players@[j]);
        }
    }

    /// Moves pawn `pawn_number` of the player named `name` by `dice_value`,
    /// as `Player::move_pawn` does.
    pub fn move_player_pawn(&mut self, name: &str, pawn_number: usize, dice_value: u8)
        requires
            old(self).wf(),
        ensures
            final(self).wf(),
            pawns_changed(*old(self), *final(self), name@, |a: Seq<PawnPosition>, b: Seq<PawnPosition>| b == moved(a, pawn_number, dice_value)),
    {
        if let Some(i) = self.player_index(name) {
            let mut p = self.players.remove(i);
            p.move_pawn(pawn_number, dice_value);
            self.players.insert(i, p);
            assert(forall|j: int| 0 <= j < self.players@.len() && j != i ==> self.players@[j] == old(self).players@[j]);
        }
    }


    /// A snapshot of every player's pawns, one line per player.
    pub fn get_board_state(&self) -> (r: String)
        requires
            self.wf(),
        ensures
            r@ == board_text(self.spec_players()),
    {
        let ghost ps = self.players@;
        let ghost lines = Seq::new(ps.len(), |i: int| ps[i].spec_name() + ": "@ + positions_text(ps[i].positions()));
        let mut r = String::new();
        let mut i: usize = 0;
        while i < self.players.len()
            invariant
                self.wf(),
                ps == self.players@,
                lines == Seq::new(ps.len(), |i: int| ps[i].spec_name() + ": "@ + positions_text(ps[i].positions())),
                0 <= i <= ps.len(),
                r@ == joined(lines.take(i as int), "\n"@),
            decreases ps.len() - i,
        {
            proof {
                lemma_joined_push(lines, "\n"@, i as int);
            }
            let p = &self.players[i];
            let mut line = p.name.clone();
            line.append(": ");
            let t = p.get_pawn_positions();
            line.append(t.as_str());
            if i > 0 {
                r.append("\n");
            }
            r.append(line.as_str());
            i = i + 1;
        }
        assert(lines.take(ps.len() as int) =~= lines);
        r
    }

    /// Like `get_board_state`, with each player's color after the name.
    pub fn get_pawn_positions_message(&self) -> (r: String)
        requires
            self.wf(),
        ensures
            r@ == colored_board_text(self.spec_players()),
    {
        let ghost ps = self.players@;
        let ghost lines = Seq::new(
            ps.len(),
            |i: int|
                ps[i].spec_name() + " ("@ + color_name(ps[i].spec_color()) + "): "@ + positions_text(
                    ps[i].positions(),
                ),
        );
        let mut r = String::new();
        let mut i: usize = 0;
        while i < self.players.len()
            invariant
                self.wf(),
                ps == self.players@,
                lines == Seq::new(
                    ps.len(),
                    |i: int|
                        ps[i].spec_name() + " ("@ + color_name(ps[i].spec_color()) + "): "@
                            + positions_text(ps[i].positions()),
                ),
                0 <= i <= ps.len(),
                r@ == joined(lines.take(i as int), "\n"@),
            decreases ps.len() - i,
        {
            proof {
                lemma_joined_push(lines, "\n"@, i as int);
            }
            let p = &self.players[i];
            let mut line = p.name.clone();
            line.append(" (");
            let c = color_text(p.color);
            line.append(c.as_str());
            line.append("): ");
            let t = p.get_pawn_positions();
            line.append(t.as_str());
            if i > 0 {
                r.append("\n");
            }
            r.append(line.as_str());
            i = i + 1;
        }
        assert(lines.take(ps.len() as int) =~= lines);
        r
    }

    /// The turn order, one player per line, marking the one whose turn it is.
    pub fn get_turn_order_message(&self) -> (r: String)
        requires
            self.wf(),
        ensures
            r@ == turn_order_text(*self),
    {
        proof {
            self.lemma_wf();
        }
        match self.current {
            None => String::from_str("No turn order set."),
            Some(c) => {
                let cur = &self.players[self.turn_order[c]].name;
                let ghost g = *self;
                let ghost lines = Seq::new(
                    g.spec_turn_order().len(),
                    |k: int|
                        {
                            let name = g.spec_players()[g.spec_turn_order()[k] as int].spec_name();
                            if name == cur@ {
                                "-> "@ + name + " (starts)\n"@
                            } else {
                                "-> "@ + name + "\n"@
                            }
                        },
                );
                let mut body = String::new();
                let n = self.turn_order.len();
                let mut k: usize = 0;
                while k < n
                    invariant
                        self.wf(),
                        g == *self,
                        n == self.turn_order@.len(),
                        forall|j: int| 0 <= j < n ==> #[trigger] self.turn_order@[j] < self.players@.len(),
                        cur@ == g.current_turn().unwrap(),
                        lines == Seq::new(
                            g.spec_turn_order().len(),
                            |k: int|
                                {
                                    let name = g.spec_players()[g.spec_turn_order()[k] as int].spec_name();
                                    if name == cur@ {
                                        "-> "@ + name + " (starts)\n"@
                                    } else {
                                        "-> "@ + name + "\n"@
                                    }
                                },
                        ),
                        0 <= k <= n,
                        body@ == joined(lines.take(k as int), ""@),
                    decreases n - k,
                {
                    proof {
                        lemma_joined_push(lines, ""@, k as int);
                        reveal_strlit("");
                        assert(""@ == Seq::<char>::empty());
                    }
                    let name = &self.players[self.turn_order[k]].name;
                    let mut line = String::from_str("-> ");
                    line.append(name.as_str());
                    if *name == *cur {
                        line.append(" (starts)\n");
                    } else {
                        line.append("\n");
                    }
                    body.append(line.as_str());
                    k = k + 1;
                }
                assert(lines.take(n as int) =~= lines);
                let mut r = String::from_str("Turn Order:\n");
                r.append(body.as_str());
                r
            },
        }
    }


    /// The player at position `i` in joining order.
    pub fn player_at(&self, i: usize) -> (r: &Player)
        requires
            i < self.spec_players().len(),
        ensures
            *r == self.spec_players()[i as int],
    {
        &self.players[i]
    }


    /// Number of players who have picked a color.
    pub fn num_registered(&self) -> (r: usize)
        ensures
            r == count_registered(self.spec_players()),
    {
        let mut k: usize = 0;
        let mut i: usize = 0;
        while i < self.players.len()
            invariant
                0 <= i <= self.players@.len(),
                k <= i,
                k == count_registered(self.players@.take(i as int)),
            decreases self.players@.len() - i,
        {
            assert(self.players@.take(i + 1).drop_last() =~= self.players@.take(i as int));
            if self.players[i].is_fully_registered {
                k = k + 1;
            }
            i = i + 1;
        }
        assert(self.players@.take(self.players@.len() as int) =~= self.players@);
        k
    }

}

/// What a turn order over `n` players says about its entries.
pub proof fn lemma_turn_order_facts(o: Seq<usize>, n: nat)
    requires
        is_turn_order(o, n),
        n <= usize::MAX,
    ensures
        o.len() == n,
        o.no_duplicates(),
        forall|k: int| 0 <= k < o.len() ==> #[trigger] o[k] < n,
        forall|j: usize| j < n ==> o.contains(j),
{
    broadcast use vstd::seq_lib::group_to_multiset_ensures;

    let r = index_range(n);
    vstd::seq_lib::to_multiset_len(o);
    vstd::seq_lib::to_multiset_len(r);
    assert forall|i: int, j: int| 0 <= i < r.len() && 0 <= j < r.len() && i != j implies r[i]
        != r[j] by {
        assert(r[i] == i);
        assert(r[j] == j);
    }
    assert(r.no_duplicates());
    r.lemma_multiset_has_no_duplicates();
    o.lemma_multiset_has_no_duplicates_conv();
    assert forall|k: int| 0 <= k < o.len() implies #[trigger] o[k] < n by {
        assert(o.contains(o[k]));
        vstd::seq_lib::to_multiset_contains(o, o[k]);
        vstd::seq_lib::to_multiset_contains(r, o[k]);
    }
    assert forall|j: usize| j < n implies o.contains(j) by {
        assert(r[j as int] == j);
        assert(r.contains(j));
        vstd::seq_lib::to_multiset_contains(o, j);
        vstd::seq_lib::to_multiset_contains(r, j);
    }
}

} // verus!
