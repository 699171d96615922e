use crate::board::{
    empty_board, empty_cells, has_won, is_full_board, winner_of, claims_line, on_line, Board, Player, Position,
};
use vstd::prelude::*;

verus! {

/// Where a match stands: whose turn it is, who has won, or a draw.
#[derive(Debug, Clone, Copy, PartialEq, Eq, Structural)]
pub enum MatchStatus {
    InProgress { player: Player },
    Won { player: Player },
    Draw,
}

/// Why a move was refused.
#[derive(Debug, Clone, Copy, PartialEq, Eq, Structural)]
pub enum MatchError {
    CellOccupied,
    InvalidMove,
    GameOver,
}

/// The status once `mover` has played and left the board `v`.
pub open spec fn status_after(v: Seq<Option<Player>>, mover: Player) -> MatchStatus {
    match winner_of(v) {
        Some(w) => MatchStatus::Won { player: w },
        None => if is_full_board(v) {
            MatchStatus::Draw
        } else {
            MatchStatus::InProgress { player: mover.other() }
        },
    }
}

/// A move that fills an empty cell leaves the other player's cells as they were,
/// so it cannot make that player win.
proof fn lemma_move_keeps_other(v: Seq<Option<Player>>, k: int, p: Player)
    requires
        v.len() == 9,
        0 <= k < 9,
        v[k] is None,
    ensures
        has_won(v.update(k, Some(p)), p.other()) == has_won(v, p.other()),
{
    let w = v.update(k, Some(p));
    let q = p.other();
    if has_won(w, q) {
        let l = choose|l: int| 0 <= l < 8 && #[trigger] claims_line(w, q, l);
        assert forall|i: int| 0 <= i < 9 implies (#[trigger] v[i] == Some(q)) == on_line(l, i) by {
            assert(w[i] == Some(q) <==> on_line(l, i));
        }
        assert(claims_line(v, q, l));
    }
    if has_won(v, q) {
        let l = choose|l: int| 0 <= l < 8 && #[trigger] claims_line(v, q, l);
        assert forall|i: int| 0 <= i < 9 implies (#[trigger] w[i] == Some(q)) == on_line(l, i) by {
            assert(v[i] == Some(q) <==> on_line(l, i));
        }
        assert(claims_line(w, q, l));
    }
}

/// Nobody has won on the empty board, and it is not full.
pub proof fn lemma_empty_board_open()
    ensures
        !has_won(empty_board(), Player::X),
        !has_won(empty_board(), Player::O),
        winner_of(empty_board()) is None,
        !is_full_board(empty_board()),
{
    let v = empty_board();
    assert(v[0] is None);
    assert forall|p: Player, l: int| 0 <= l < 8 implies !#[trigger] claims_line(v, p, l) by {
        let i = if l < 3 {
            l
        } else if l < 6 {
            (l - 3) * 3
        } else if l == 6 {
            0
        } else {
            2
        };
        assert(on_line(l, i));
        assert(v[i] is None);
    }
}

/// One game: the board, its status, and the player to move (once the game has
/// ended, the player who made the last move).
pub struct Game {
    board: Board,
    status: MatchStatus,
    current_player: Player,
}

impl Game {
    /// The status always follows from the board.
    #[verifier::type_invariant]
    spec fn inv(self) -> bool {
        let v = self.board@;
        &&& !(has_won(v, Player::X) && has_won(v, Player::O))
        &&& match self.status {
            MatchStatus::InProgress { player } => !has_won(v, Player::X) && !has_won(v, Player::O)
                && !is_full_board(v) && self.current_player == player,
            MatchStatus::Won { player } => has_won(v, player) && self.current_player == player,
            MatchStatus::Draw => winner_of(v) is None && is_full_board(v),
        }
    }

    pub closed spec fn cells(self) -> Seq<Option<Player>> {
        self.board@
    }

    pub closed spec fn current_status(self) -> MatchStatus {
        self.status
    }

    pub closed spec fn to_move(self) -> Player {
        self.current_player
    }

    /// A fresh game: empty board, `X` to move.
    pub fn new() -> (r: Game)
        ensures
            r.cells() == empty_board(),
            r.current_status() == (MatchStatus::InProgress { player: Player::X }),
            r.to_move() == Player::X,
    {
        let board = Board::new();
        proof {
            lemma_empty_board_open();
        }
        Game { board, status: MatchStatus::InProgress { player: Player::X }, current_player: Player::X }
    }

    /// Places the mark of the player to move at `position` and updates the status.
    /// Nothing changes when the move is refused.
    pub fn take_turn(&mut self, position: &Position) -> (r: Result<MatchStatus, MatchError>)
        ensures
            !(old(self).current_status() is InProgress) ==> r == Err::<MatchStatus, MatchError>(
                MatchError::GameOver,
            ) && *final(self) == *old(self),
            old(self).current_status() is InProgress && !position.in_range() ==> r == Err::<
                MatchStatus,
                MatchError,
            >(MatchError::InvalidMove) && *final(self) == *old(self),
            old(self).current_status() is InProgress && position.in_range() && old(
                self,
            ).cells()[position.index()] is Some ==> r == Err::<MatchStatus, MatchError>(
                MatchError::CellOccupied,
            ) && *final(self) == *old(self),
            old(self).current_status() is InProgress && position.in_range() && old(
                self,
            ).cells()[position.index()] is None ==> {
                let mover = old(self).to_move();
                &&& final(self).cells() == old(self).cells().update(position.index(), Some(mover))
                &&& final(self).current_status() == status_after(final(self).cells(), mover)
                &&& r == Ok::<MatchStatus, MatchError>(final(self).current_status())
                &&& final(self).to_move() == match final(self).current_status() {
                    MatchStatus::InProgress { player } => player,
                    _ => mover,
                }
            },
    {
        proof {
            use_type_invariant(&*self);
        }
        let current_player = match self.status {
            MatchStatus::InProgress { player } => player,
            _ => return Err(MatchError::GameOver),
        };
        if !position.is_valid() {
            return Err(MatchError::InvalidMove);
        }
        if self.board.get_cell(position).is_some() {
            return Err(MatchError::CellOccupied);
        }
        let mut board = self.board;
        board.set_cell(position, current_player);
        proof {
            lemma_move_keeps_other(self.board@, position.index(), current_player);
            assert(board@ == self.board@.update(position.index(), Some(current_player)));
        }
        let status = match board.winner() {
            Some(winner) => MatchStatus::Won { player: winner },
            None => if board.is_full() {
                MatchStatus::Draw
            } else {
                MatchStatus::InProgress { player: current_player.other_player() }
            },
        };
        let next_player = match status {
            MatchStatus::InProgress { player } => player,
            _ => current_player,
        };
        *self = Game { board, status, current_player: next_player };
        Ok(status)
    }

    pub fn board(&self) -> (r: &Board)
        ensures
            r@ == self.cells(),
            !(has_won(r@, Player::X) && has_won(r@, Player::O)),
    {
        proof {
            use_type_invariant(self);
        }
        &self.board
    }

    pub fn status(&self) -> (r: &MatchStatus)
        ensures
            *r == self.current_status(),
    {
        &self.status
    }

    /// The empty cells in row-major order. This reads the board alone, whatever the
    /// status.
    pub fn valid_moves(&self) -> (r: Vec<Position>)
        ensures
            r@ == empty_cells(self.cells(), 9),
    {
        self.board.valid_moves()
    }

    /// The player to move, or the one who made the last move once the game has ended.
    pub fn current_player(&self) -> (r: Player)
        ensures
            r == self.to_move(),
            self.current_status() matches MatchStatus::InProgress { player } ==> r == player,
            self.current_status() matches MatchStatus::Won { player } ==> r == player,
    {
        proof {
            use_type_invariant(self);
        }
        self.current_player
    }

    /// The status read off the board alone: a winner, else a full board, else the
    /// player to move. It always agrees with the recorded status.
    pub fn state(&self) -> (r: MatchStatus)
        ensures
            r == match winner_of(self.cells()) {
                Some(w) => MatchStatus::Won { player: w },
                None => if is_full_board(self.cells()) {
                    MatchStatus::Draw
                } else {
                    MatchStatus::InProgress { player: self.to_move() }
                },
            },
            r == self.current_status(),
    {
        proof {
            use_type_invariant(self);
        }
        if let Some(winner) = self.board.winner() {
            MatchStatus::Won { player: winner }
        } else if self.board.is_full() {
            MatchStatus::Draw
        } else {
            MatchStatus::InProgress { player: self.current_player }
        }
    }
}

impl Default for Game {
    fn default() -> (r: Game)
        ensures
            r.cells() == empty_board(),
            r.current_status() == (MatchStatus::InProgress { player: Player::X }),
            r.to_move() == Player::X,
    {
        Game::new()
    }
}

impl Default for MatchStatus {
    fn default() -> (r: MatchStatus)
        ensures
            r == (MatchStatus::InProgress { player: Player::X }),
    {
        MatchStatus::InProgress { player: Player::X }
    }
}

} // verus!
