//! Whose turn it is, and one step of a game: a placement attempt and its
//! outcome.
use vstd::prelude::*;
use crate::board::{Board, Field, has_winning_line, is_full, placeable};

verus! {

/// The mark that moves after `player`. From `Field::E`, which never holds
/// the turn in play, the turn goes to `Field::X`.
pub open spec fn next_player(player: Field) -> Field {
    match player {
        Field::E => Field::X,
        Field::X => Field::O,
        Field::O => Field::X,
    }
}

/// The player to move next.
pub struct GameState {
    pub player: Field,
}

impl GameState {
    /// The state at the start of a game: `Field::X` moves first.
    pub fn new() -> (s: GameState)
        ensures
            s.player == Field::X,
    {
        GameState { player: Field::X }
    }

    /// Hands the turn to the other player.
    pub fn flip_player(&mut self)
        ensures
            final(self).player == next_player(old(self).player),
    {
        match self.player {
            Field::E => self.player = Field::X,
            Field::X => self.player = Field::O,
            Field::O => self.player = Field::X,
        }
    }
}

/// Flipping the turn twice gives it back to the same player, and from a
/// player's mark the turn never goes to the empty value.
pub proof fn lemma_flip_twice(player: Field)
    requires
        player != Field::E,
    ensures
        next_player(player) != Field::E,
        next_player(next_player(player)) == player,
{
}

/// What a placement attempt led to.
#[derive(Clone, Copy, Debug, PartialEq, Eq, Structural)]
pub enum Outcome {
    /// The index is off the board or its cell is taken; nothing changed and
    /// the same player tries again.
    Rejected,
    /// The mark just placed completed a line.
    Won(Field),
    /// The board is full with no complete line.
    Draw,
    /// The game goes on with the other player.
    Continue,
}

/// One step of a game: the player to move tries to mark the cell at
/// `index`. A legal placement is made and then the board is checked for a
/// win, then for a draw; only when the game goes on does the turn pass.
pub fn take_turn(board: &mut Board, state: &mut GameState, index: usize) -> (r: Outcome)
    requires
        old(board).wf(),
        old(state).player != Field::E,
    ensures
        final(board).wf(),
        !placeable(old(board).fields@, index as int) ==> {
            &&& r == Outcome::Rejected
            &&& final(board).fields@ == old(board).fields@
            &&& final(state).player == old(state).player
        },
        placeable(old(board).fields@, index as int) ==> {
            let cells = old(board).fields@.update(index as int, old(state).player);
            &&& final(board).fields@ == cells
            &&& has_winning_line(cells) ==> r == Outcome::Won(old(state).player)
                && final(state).player == old(state).player
            &&& !has_winning_line(cells) && is_full(cells) ==> r == Outcome::Draw
                && final(state).player == old(state).player
            &&& !has_winning_line(cells) && !is_full(cells) ==> r == Outcome::Continue
                && final(state).player == next_player(old(state).player)
        },
{
    if !board.can_place(index) {
        return Outcome::Rejected;
    }
    let mark = state.player;
    board.place(index, &mark);
    if board.check_win() {
        return Outcome::Won(mark);
    }
    if board.check_draw() {
        return Outcome::Draw;
    }
    state.flip_player();
    Outcome::Continue
}

} // verus!
