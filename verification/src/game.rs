//! The rules of a round: the menu, ten turns of guessing cells, and the
//! end screen, with the texts the game shows.

use vstd::prelude::*;
use crate::buckos::{Buckos, Cell, all_caught, caught_after, readings, on_grid};
use crate::text::{
    decimal, push_decimal, is_digit, number_follows, writes_pair, lemma_decimal_value,
    lemma_decimal_injective,
};

verus! {

/// Turns a player has to find all the buckos.
pub const TURNS: u8 = 10;

/// Side of the square grid.
pub const GRID_SIZE: u16 = 10;

/// Fewest buckos a game can hide.
pub const MIN_BUCKOS: u8 = 1;

/// Most buckos a game can hide.
pub const MAX_BUCKOS: u8 = 8;

/// Buckos hidden when the game is first shown.
pub const START_BUCKOS: u8 = 4;

/// Where the game is.
#[derive(Clone, Copy, PartialEq, Eq, Structural, Debug)]
pub enum GameState {
    MainMenu,
    Playing,
    GameOver,
}

/// One guess: the cell and what it showed for each bucko.
pub struct Turn {
    pub target_cell: Cell,
    pub distances: Vec<Option<String>>,
}

/// What one frame of play led to.
#[derive(Clone, Copy, PartialEq, Eq, Structural, Debug)]
pub enum Play {
    /// Nothing happened.
    Wait,
    /// The round ended, with every bucko found or not.
    Over { won: bool },
    /// A guess at `cell` was made; `got` tells whether it caught a bucko.
    Guess { cell: Cell, got: bool },
}

/// `v` clamped to `[lo, hi]`.
pub open spec fn clamp(v: int, lo: int, hi: int) -> int {
    if v < lo {
        lo
    } else if v > hi {
        hi
    } else {
        v
    }
}

/// The text of a cell: column, comma, row.
pub open spec fn cell_text(c: Cell) -> Seq<char> {
    decimal(c.x as nat) + ","@ + decimal(c.y as nat)
}

/// The prompt of each state, `turns` being the guesses made so far.
pub open spec fn prompt(state: GameState, turns: nat) -> Seq<char> {
    match state {
        GameState::MainMenu => "Click/Press Enter to begin!"@,
        GameState::Playing => "Turn "@ + decimal(turns) + ": "@,
        GameState::GameOver => "That was pog! Let's play again..."@,
    }
}

/// The entry line: the prompt, then the selected cell, or a request to
/// select one while playing.
pub open spec fn entry_line(state: GameState, turns: nat, selected: Option<Cell>) -> Seq<char> {
    prompt(state, turns) + match selected {
        Some(c) => cell_text(c),
        None => if state == GameState::Playing {
            "Select a cell"@
        } else {
            Seq::<char>::empty()
        },
    }
}

/// The closing line of a round of `turns` guesses.
pub open spec fn final_line(won: bool, turns: nat) -> Seq<char> {
    if won {
        "You got them all in "@ + decimal(turns) + " turns!"@
    } else {
        "Sorry, that's "@ + decimal(TURNS as nat) + " tries."@
    }
}

/// The head of a guess's line in the log: its cell and a bar.
pub open spec fn turn_head(c: Cell) -> Seq<char> {
    cell_text(c) + " | "@
}

/// Each bucko is caught exactly when its cell is among `guesses`.
pub open spec fn caught_iff_guessed(cells: Seq<Cell>, caught: Seq<bool>, guesses: Seq<Cell>) -> bool {
    forall|i: int| 0 <= i < cells.len() ==> (#[trigger] caught[i] <==> guesses.contains(cells[i]))
}

/// Whether any of `shown` is `GOT`.
pub open spec fn shows_got(shown: Seq<Option<Seq<char>>>) -> bool {
    exists|i: int| 0 <= i < shown.len() && shown[i] == Some("GOT"@)
}

/// The state of the game between frames.
pub struct Game {
    state: GameState,
    bucko_amount: u8,
    selected_cell: Option<Cell>,
    buckos: Buckos,
    log: Vec<Turn>,
}

impl Game {
    /// Where the game is.
    pub closed spec fn state_spec(&self) -> GameState {
        self.state
    }

    /// How many buckos a round hides.
    pub closed spec fn amount_spec(&self) -> u8 {
        self.bucko_amount
    }

    /// The cell selected for the next guess.
    pub closed spec fn selected_spec(&self) -> Option<Cell> {
        self.selected_cell
    }

    /// The buckos of the round.
    pub closed spec fn buckos_spec(&self) -> Buckos {
        self.buckos
    }

    /// The guesses made, by cell.
    pub closed spec fn guesses(&self) -> Seq<Cell> {
        self.log@.map_values(|t: Turn| t.target_cell)
    }

    /// What each guess showed.
    pub closed spec fn shown(&self) -> Seq<Seq<Option<Seq<char>>>> {
        self.log@.map_values(|t: Turn| t.distances.deep_view())
    }

    /// The amount of buckos is within bounds, the buckos are well formed,
    /// no more than `TURNS` guesses were made, none at the menu, and in a
    /// round a bucko is caught exactly when its cell was guessed.
    pub open spec fn well_formed(&self) -> bool {
        &&& MIN_BUCKOS <= self.amount_spec() <= MAX_BUCKOS
        &&& self.buckos_spec().well_formed()
        &&& self.guesses().len() <= TURNS
        &&& self.state_spec() == GameState::MainMenu ==> self.guesses().len() == 0
        &&& self.state_spec() != GameState::MainMenu ==> self.buckos_spec().grid_side()
            == GRID_SIZE as u8
        &&& self.state_spec() != GameState::MainMenu ==> caught_iff_guessed(
            self.buckos_spec().cells(),
            self.buckos_spec().caught(),
            self.guesses(),
        )
    }

    /// A new game at its menu, with the default amount of buckos.
    pub fn new() -> (g: Self)
        ensures
            g.well_formed(),
            g.state_spec() == GameState::MainMenu,
            g.amount_spec() == START_BUCKOS,
            g.selected_spec() == None::<Cell>,
            g.buckos_spec().cells().len() == 0,
            g.guesses().len() == 0,
    {
        Game {
            state: GameState::MainMenu,
            bucko_amount: START_BUCKOS,
            selected_cell: None,
            buckos: Buckos::empty(),
            log: Vec::new(),
        }
    }

    /// The menu's buttons: one fewer bucko, one more, or both; the amount
    /// stays within `[MIN_BUCKOS, MAX_BUCKOS]`.
    pub fn adjust_amount(&mut self, fewer: bool, more: bool)
        requires
            old(self).well_formed(),
        ensures
            final(self).well_formed(),
            final(self).amount_spec() == clamp(
                old(self).amount_spec() - (if fewer { 1int } else { 0int }) + (if more {
                    1int
                } else {
                    0int
                }),
                MIN_BUCKOS as int,
                MAX_BUCKOS as int,
            ),
            final(self).state_spec() == old(self).state_spec(),
            final(self).selected_spec() == old(self).selected_spec(),
            final(self).buckos_spec() == old(self).buckos_spec(),
            final(self).guesses() == old(self).guesses(),
            final(self).shown() == old(self).shown(),
    {
        let mut amount = self.bucko_amount;
        if fewer {
            amount = amount - 1;
        }
        if more {
            amount = amount + 1;
        }
        if amount < MIN_BUCKOS {
            amount = MIN_BUCKOS;
        } else if amount > MAX_BUCKOS {
            amount = MAX_BUCKOS;
        }
        self.bucko_amount = amount;
    }

    /// Starts a round: hides the chosen amount of buckos on the grid, using
    /// `seed` for the draws, and goes on to play.
    pub fn start(&mut self, seed: u64)
        requires
            old(self).well_formed(),
            old(self).state_spec() == GameState::MainMenu,
        ensures
            final(self).well_formed(),
            final(self).state_spec() == GameState::Playing,
            final(self).amount_spec() == old(self).amount_spec(),
            final(self).selected_spec() == old(self).selected_spec(),
            final(self).guesses() == old(self).guesses(),
            final(self).shown() == old(self).shown(),
            final(self).buckos_spec().cells().len() == old(self).amount_spec(),
            final(self).buckos_spec().grid_side() == GRID_SIZE as u8,
            on_grid(final(self).buckos_spec().cells(), GRID_SIZE as nat),
            final(self).buckos_spec().caught() == Seq::new(
                old(self).amount_spec() as nat,
                |i: int| false,
            ),
    {
        self.buckos = Buckos::new(self.bucko_amount, GRID_SIZE, seed);
        self.state = GameState::Playing;
        assert(self.guesses() =~= Seq::<Cell>::empty());
    }

    /// Selects the cell to guess next.
    pub fn select(&mut self, cell: Cell)
        requires
            old(self).well_formed(),
        ensures
            final(self).well_formed(),
            final(self).selected_spec() == Some(cell),
            final(self).state_spec() == old(self).state_spec(),
            final(self).amount_spec() == old(self).amount_spec(),
            final(self).buckos_spec() == old(self).buckos_spec(),
            final(self).guesses() == old(self).guesses(),
            final(self).shown() == old(self).shown(),
    {
        self.selected_cell = Some(cell);
    }

    /// One frame of play. When Ami is waiting and the turns are used up or
    /// every bucko is caught, the round ends. Otherwise, when Enter is
    /// pressed while Ami waits and a cell is selected, that cell is guessed:
    /// the buckos report on it, the guess is logged and the selection
    /// cleared.
    pub fn play(&mut self, ami_waiting: bool, enter: bool) -> (p: Play)
        requires
            old(self).well_formed(),
            old(self).state_spec() == GameState::Playing,
        ensures
            final(self).well_formed(),
            final(self).amount_spec() == old(self).amount_spec(),
            final(self).buckos_spec().cells() == old(self).buckos_spec().cells(),
            ({
                let caught = old(self).buckos_spec().caught();
                let cells = old(self).buckos_spec().cells();
                let over = ami_waiting && (old(self).guesses().len() == TURNS || all_caught(caught));
                if over {
                    &&& p == Play::Over { won: all_caught(caught) }
                    &&& final(self).state_spec() == GameState::GameOver
                    &&& final(self).selected_spec() == None::<Cell>
                    &&& final(self).buckos_spec().caught() == caught
                    &&& final(self).guesses() == old(self).guesses()
                    &&& final(self).shown() == old(self).shown()
                } else if enter && ami_waiting && old(self).selected_spec() is Some {
                    let cell = old(self).selected_spec()->0;
                    &&& p == Play::Guess {
                        cell,
                        got: exists|i: int| 0 <= i < cells.len() && !caught[i] && cells[i] == cell,
                    }
                    &&& final(self).state_spec() == old(self).state_spec()
                    &&& final(self).selected_spec() == None::<Cell>
                    &&& final(self).buckos_spec().caught() == caught_after(cells, caught, cell)
                    &&& final(self).guesses() == old(self).guesses().push(cell)
                    &&& final(self).shown() == old(self).shown().push(readings(cells, caught, cell))
                } else {
                    &&& p == Play::Wait
                    &&& final(self).state_spec() == old(self).state_spec()
                    &&& final(self).selected_spec() == old(self).selected_spec()
                    &&& final(self).buckos_spec().caught() == caught
                    &&& final(self).guesses() == old(self).guesses()
                    &&& final(self).shown() == old(self).shown()
                }
            }),
    {
        let won = self.buckos.all_captured();
        if ami_waiting && (self.log.len() == TURNS as usize || won) {
            self.selected_cell = None;
            self.state = GameState::GameOver;
            return Play::Over { won };
        }
        if enter && ami_waiting {
            if let Some(cell) = self.selected_cell {
                let ghost cells = self.buckos.cells();
                let ghost caught = self.buckos.caught();
                let ghost old_log = self.log@;
                let distances = self.buckos.distances(cell);
                let got = shows_got_exec(&distances);
                proof {
                    if got {
                        let i = choose|i: int|
                            0 <= i < distances.deep_view().len() && distances.deep_view()[i]
                                == Some("GOT"@);
                        assert(!caught[i] && cells[i] == cell);
                    } else {
                        assert forall|i: int|
                            0 <= i < cells.len() && !caught[i] && cells[i] == cell implies false by {
                            assert(distances.deep_view()[i] == Some("GOT"@));
                        }
                    }
                }
                let ghost shown = distances.deep_view();
                self.log.push(Turn { target_cell: cell, distances });
                self.selected_cell = None;
                proof {
                    let old_guesses = old_log.map_values(|t: Turn| t.target_cell);
                    assert(self.log@.map_values(|t: Turn| t.target_cell) =~= old_guesses.push(
                        cell,
                    ));
                    assert forall|k: int| 0 <= k < cells.len() implies (
                    #[trigger] self.buckos.caught()[k] <==> old_guesses.push(cell).contains(
                        cells[k],
                    )) by {
                        assert(caught[k] <==> old_guesses.contains(cells[k]));
                        if old_guesses.push(cell).contains(cells[k]) {
                            let j = choose|j: int|
                                0 <= j < old_guesses.len() + 1 && old_guesses.push(cell)[j]
                                    == cells[k];
                            if j < old_guesses.len() {
                                assert(old_guesses.contains(cells[k]));
                            }
                        }
                        if old_guesses.contains(cells[k]) {
                            let j = choose|j: int|
                                0 <= j < old_guesses.len() && old_guesses[j] == cells[k];
                            assert(old_guesses.push(cell)[j] == cells[k]);
                        }
                        if cells[k] == cell {
                            assert(old_guesses.push(cell)[old_guesses.len() as int] == cells[k]);
                        }
                    }
                    assert(self.log@.map_values(|t: Turn| t.distances.deep_view())
                        =~= old_log.map_values(|t: Turn| t.distances.deep_view()).push(shown));
                }
                return Play::Guess { cell, got };
            }
        }
        Play::Wait
    }

    /// Leaves the end screen for the menu: the log is emptied.
    pub fn restart(&mut self)
        requires
            old(self).well_formed(),
        ensures
            final(self).well_formed(),
            final(self).state_spec() == GameState::MainMenu,
            final(self).guesses().len() == 0,
            final(self).shown().len() == 0,
            final(self).amount_spec() == old(self).amount_spec(),
            final(self).selected_spec() == old(self).selected_spec(),
            final(self).buckos_spec() == old(self).buckos_spec(),
    {
        self.log.clear();
        self.state = GameState::MainMenu;
        assert(self.guesses() =~= Seq::<Cell>::empty());
        assert(self.shown() =~= Seq::<Seq<Option<Seq<char>>>>::empty());
    }

    /// The line at the bottom of the screen (see `entry_line`).
    pub fn entry_text(&self) -> (text: String)
        ensures
            text@ == entry_line(self.state_spec(), self.guesses().len(), self.selected_spec()),
            self.state_spec() == GameState::Playing ==> number_follows(
                text@,
                "Turn "@,
                self.guesses().len(),
                ": "@,
            ),
            self.selected_spec() matches Some(c) ==> exists|k: int|
                0 < k <= text@.len() && !is_digit(text@[k - 1]) && #[trigger] writes_pair(
                    text@.skip(k),
                    c.x as nat,
                    c.y as nat,
                ),
    {
        let mut text = match self.state {
            GameState::MainMenu => String::from_str("Click/Press Enter to begin!"),
            GameState::Playing => {
                let mut t = String::from_str("Turn ");
                push_decimal(&mut t, self.log.len() as u64);
                t.append(": ");
                t
            },
            GameState::GameOver => String::from_str("That was pog! Let's play again..."),
        };
        match self.selected_cell {
            Some(cell) => {
                push_cell(&mut text, cell);
            },
            None => {
                if self.state == GameState::Playing {
                    text.append("Select a cell");
                }
            },
        }
        assert(text@ =~= entry_line(self.state_spec(), self.guesses().len(), self.selected_spec()));
        proof {
            let n = self.guesses().len();
            let p = prompt(self.state_spec(), n);
            reveal_strlit("Turn ");
            reveal_strlit(": ");
            reveal_strlit(",");
            reveal_strlit("Click/Press Enter to begin!");
            reveal_strlit("That was pog! Let's play again...");
            lemma_decimal_value(n);
            if self.state_spec() == GameState::Playing {
                let d = decimal(n);
                assert(text@.take(("Turn "@.len() + d.len() + ": "@.len()) as int) =~= "Turn "@ + d + ": "@);
                assert(number_follows(text@, "Turn "@, n, ": "@));
            }
            if let Some(c) = self.selected_spec() {
                lemma_decimal_value(c.x as nat);
                lemma_decimal_value(c.y as nat);
                let k = p.len() as int;
                assert(text@.skip(k) =~= cell_text(c));
                assert(","@ =~= seq![',']);
                assert(writes_pair(text@.skip(k), c.x as nat, c.y as nat));
                assert(text@[k - 1] == p.last());
                assert(!is_digit(p.last()));
            }
        }
        text
    }

    /// The closing line of the round (see `final_line`).
    pub fn final_text(&self) -> (text: String)
        requires
            self.well_formed(),
        ensures
            text@ == final_line(all_caught(self.buckos_spec().caught()), self.guesses().len()),
            all_caught(self.buckos_spec().caught()) ==> number_follows(
                text@,
                "You got them all in "@,
                self.guesses().len(),
                " turns!"@,
            ),
            !all_caught(self.buckos_spec().caught()) ==> number_follows(
                text@,
                "Sorry, that's "@,
                TURNS as nat,
                " tries."@,
            ),
    {
        if self.buckos.all_captured() {
            let mut t = String::from_str("You got them all in ");
            push_decimal(&mut t, self.log.len() as u64);
            t.append(" turns!");
            proof {
                let d = decimal(self.guesses().len());
                lemma_decimal_value(self.guesses().len());
                assert(t@.take(("You got them all in "@.len() + d.len() + " turns!"@.len()) as int)
                    =~= "You got them all in "@ + d + " turns!"@);
            }
            t
        } else {
            let mut t = String::from_str("Sorry, that's ");
            push_decimal(&mut t, TURNS as u64);
            t.append(" tries.");
            proof {
                let d = decimal(TURNS as nat);
                lemma_decimal_value(TURNS as nat);
                assert(t@.take(("Sorry, that's "@.len() + d.len() + " tries."@.len()) as int)
                    =~= "Sorry, that's "@ + d + " tries."@);
            }
            t
        }
    }

    /// How many lines of the log are shown: while Ami jumps after a guess,
    /// that guess is not shown yet.
    pub fn rows_shown(&self, ami_jumping: bool) -> (rows: usize)
        ensures
            rows == if ami_jumping && self.guesses().len() > 0 {
                self.guesses().len() - 1
            } else {
                self.guesses().len() as int
            },
    {
        if ami_jumping && self.log.len() > 0 {
            self.log.len() - 1
        } else {
            self.log.len()
        }
    }

    /// Where the game is.
    pub fn state(&self) -> (s: GameState)
        ensures
            s == self.state_spec(),
    {
        self.state
    }

    /// How many buckos a round hides.
    pub fn bucko_amount(&self) -> (a: u8)
        ensures
            a == self.amount_spec(),
    {
        self.bucko_amount
    }

    /// The cell selected for the next guess.
    pub fn selected_cell(&self) -> (c: Option<Cell>)
        ensures
            c == self.selected_spec(),
    {
        self.selected_cell
    }

    /// The buckos of the round.
    pub fn buckos(&self) -> (b: &Buckos)
        ensures
            *b == self.buckos_spec(),
    {
        &self.buckos
    }

    /// The guesses of the round, in order.
    pub fn log(&self) -> (log: &Vec<Turn>)
        ensures
            log@.map_values(|t: Turn| t.target_cell) == self.guesses(),
            log@.map_values(|t: Turn| t.distances.deep_view()) == self.shown(),
    {
        &self.log
    }
}

/// In a round, the player has won exactly when every bucko's cell was
/// guessed.
pub proof fn lemma_won_iff_all_found(game: Game)
    requires
        game.well_formed(),
        game.state_spec() != GameState::MainMenu,
    ensures
        all_caught(game.buckos_spec().caught()) <==> forall|i: int|
            0 <= i < game.buckos_spec().cells().len() ==> game.guesses().contains(
                #[trigger] game.buckos_spec().cells()[i],
            ),
{
    let cells = game.buckos_spec().cells();
    let caught = game.buckos_spec().caught();
    if all_caught(caught) {
        assert forall|i: int| 0 <= i < cells.len() implies game.guesses().contains(
            #[trigger] cells[i],
        ) by {
            assert(caught[i]);
        }
    }
    if forall|i: int| 0 <= i < cells.len() ==> game.guesses().contains(#[trigger] cells[i]) {
        assert forall|i: int| 0 <= i < caught.len() implies #[trigger] caught[i] by {
            assert(game.guesses().contains(cells[i]));
        }
    }
}

/// A round is played on the whole `GRID_SIZE` by `GRID_SIZE` grid: its
/// buckos were hidden on a grid of that side, and every one lies on it.
pub proof fn lemma_round_on_full_grid(game: Game)
    requires
        game.well_formed(),
        game.state_spec() != GameState::MainMenu,
    ensures
        game.buckos_spec().grid_side() == GRID_SIZE,
        on_grid(game.buckos_spec().cells(), GRID_SIZE as nat),
{
}

/// While playing, the entry line counts every guess made: it is `Turn `,
/// the number of guesses in decimal and `: `, whatever that number is, so
/// two different counts never give the same prompt.
pub proof fn lemma_prompt_counts_turns(a: nat, b: nat)
    ensures
        number_follows(prompt(GameState::Playing, a), "Turn "@, a, ": "@),
        prompt(GameState::Playing, a) == prompt(GameState::Playing, b) ==> a == b,
{
    reveal_strlit("Turn ");
    reveal_strlit(": ");
    lemma_decimal_value(a);
    let pa = prompt(GameState::Playing, a);
    let da = decimal(a);
    assert(pa.take(("Turn "@.len() + da.len() + ": "@.len()) as int) =~= "Turn "@ + da + ": "@);
    if pa == prompt(GameState::Playing, b) {
        let pb = prompt(GameState::Playing, b);
        assert(pa.subrange(5, pa.len() - 2) =~= da);
        assert(pb.subrange(5, pb.len() - 2) =~= decimal(b));
        lemma_decimal_injective(a, b);
    }
}

/// The closing line tells how many turns a won round took, and the number
/// of tries a lost round had.
pub proof fn lemma_final_line_counts(turns: nat)
    ensures
        number_follows(final_line(true, turns), "You got them all in "@, turns, " turns!"@),
        number_follows(final_line(false, turns), "Sorry, that's "@, TURNS as nat, " tries."@),
{
    reveal_strlit("You got them all in ");
    reveal_strlit(" turns!");
    reveal_strlit("Sorry, that's ");
    reveal_strlit(" tries.");
    lemma_decimal_value(turns);
    lemma_decimal_value(TURNS as nat);
    let dw = decimal(turns);
    let dl = decimal(TURNS as nat);
    assert(final_line(true, turns).take(
        ("You got them all in "@.len() + dw.len() + " turns!"@.len()) as int,
    ) =~= "You got them all in "@ + dw + " turns!"@);
    assert(final_line(false, turns).take(
        ("Sorry, that's "@.len() + dl.len() + " tries."@.len()) as int,
    ) =~= "Sorry, that's "@ + dl + " tries."@);
}

/// A guess's line in the log starts with its column, a comma and its row,
/// in decimal, and so tells apart any two cells.
pub proof fn lemma_turn_head_names_cell(c: Cell, d: Cell)
    ensures
        writes_pair(turn_head(c).take(turn_head(c).len() - 3), c.x as nat, c.y as nat),
        turn_head(c) == turn_head(d) ==> c == d,
{
    reveal_strlit(" | ");
    reveal_strlit(",");
    lemma_decimal_value(c.x as nat);
    lemma_decimal_value(c.y as nat);
    lemma_decimal_value(d.x as nat);
    lemma_decimal_value(d.y as nat);
    let hc = turn_head(c);
    assert(hc.take(hc.len() - 3) =~= cell_text(c));
    assert(","@ =~= seq![',']);
    if hc == turn_head(d) {
        let hd = turn_head(d);
        let cx = decimal(c.x as nat);
        let dx = decimal(d.x as nat);
        let cy = decimal(c.y as nat);
        let dy = decimal(d.y as nat);
        // The comma is the one character that is not a digit.
        assert(hc[cx.len() as int] == ',');
        assert(hd[dx.len() as int] == ',');
        if cx.len() < dx.len() {
            assert(hd[cx.len() as int] == dx[cx.len() as int]);
            assert(is_digit(dx[cx.len() as int]));
        } else if dx.len() < cx.len() {
            assert(hc[dx.len() as int] == cx[dx.len() as int]);
            assert(is_digit(cx[dx.len() as int]));
        }
        assert(hc.subrange(0, cx.len() as int) =~= cx);
        assert(hd.subrange(0, dx.len() as int) =~= dx);
        assert(hc.subrange((cx.len() + 1) as int, hc.len() - 3) =~= cy);
        assert(hd.subrange((dx.len() + 1) as int, hd.len() - 3) =~= dy);
        lemma_decimal_injective(c.x as nat, d.x as nat);
        lemma_decimal_injective(c.y as nat, d.y as nat);
    }
}

/// The head of a guess's line in the log (see `turn_head`).
pub fn turn_text(turn: &Turn) -> (text: String)
    ensures
        text@ == turn_head(turn.target_cell),
        text@.len() >= 3,
        text@.skip(text@.len() - 3) == " | "@,
        writes_pair(
            text@.take(text@.len() - 3),
            turn.target_cell.x as nat,
            turn.target_cell.y as nat,
        ),
{
    let mut text = String::new();
    push_cell(&mut text, turn.target_cell);
    text.append(" | ");
    proof {
        let c = turn.target_cell;
        reveal_strlit(" | ");
        reveal_strlit(",");
        lemma_decimal_value(c.x as nat);
        lemma_decimal_value(c.y as nat);
        assert(text@.skip(text@.len() - 3) =~= " | "@);
        assert(text@.take(text@.len() - 3) =~= cell_text(c));
        assert(","@ =~= seq![',']);
    }
    text
}

/// Appends the text of `cell` (see `cell_text`).
fn push_cell(s: &mut String, cell: Cell)
    ensures
        final(s)@ == old(s)@ + cell_text(cell),
{
    push_decimal(s, cell.x as u64);
    s.append(",");
    push_decimal(s, cell.y as u64);
}

/// Whether any of `shown` is `GOT` (see `shows_got`).
fn shows_got_exec(shown: &Vec<Option<String>>) -> (b: bool)
    ensures
        b == shows_got(shown.deep_view()),
{
    let got = String::from_str("GOT");
    let mut i: usize = 0;
    while i < shown.len()
        invariant
            i <= shown.len(),
            got@ == "GOT"@,
            forall|k: int| 0 <= k < i ==> shown.deep_view()[k] != Some("GOT"@),
        decreases shown.len() - i,
    {
        match &shown[i] {
            Some(s) => {
                if *s == got {
                    assert(shown.deep_view()[i as int] == Some("GOT"@));
                    return true;
                }
            },
            None => {},
        }
        i = i + 1;
    }
    false
}

} // verus!
