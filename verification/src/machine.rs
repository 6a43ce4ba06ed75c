//! The game state machine: the history of snapshots and the viewed step.

use vstd::prelude::*;
use crate::board::{Board, Cell, board_full, empty_board, evaluate, winner_of};

verus! {

/// The player who moves at a given step: X at even steps, O at odd ones.
pub open spec fn mover_for(step: nat) -> Cell {
    if step % 2 == 0 {
        Cell::X
    } else {
        Cell::O
    }
}

/// One legal move by `m`: `next` is `prev` with a single formerly empty
/// cell now holding `m`'s symbol, every other cell untouched.
pub open spec fn is_move(prev: Seq<Cell>, next: Seq<Cell>, m: Cell) -> bool {
    exists|i: int| 0 <= i < 9 && prev[i] == Cell::Empty && next == prev.update(i, m)
}

/// The game is decided at a snapshot: a player has won, or the board is
/// full with no winner (a draw).
pub open spec fn decided(s: Seq<Cell>) -> bool {
    winner_of(s) != Cell::Empty || board_full(s)
}

/// A well-formed history: it opens with the all-empty board, every
/// snapshot has nine cells, and each later snapshot extends its
/// predecessor by exactly one legal move of the alternating mover.
#[verifier::opaque]
pub open spec fn history_wf(h: Seq<Seq<Cell>>) -> bool {
    &&& h.len() >= 1
    &&& h[0] == empty_board()
    &&& forall|n: int| 0 <= n < h.len() ==> (#[trigger] h[n]).len() == 9
    &&& forall|n: int|
        1 <= n < h.len() ==> is_move(h[n - 1], #[trigger] h[n], mover_for((n - 1) as nat))
}

/// Extending a well-formed history at step `s` with a move of the step's
/// mover at an empty cell `i` — after cutting any future beyond `s` —
/// yields a well-formed history again.
proof fn lemma_extend_history(h: Seq<Seq<Cell>>, h2: Seq<Seq<Cell>>, s: int, i: int)
    requires
        history_wf(h),
        0 <= s < h.len(),
        0 <= i < 9,
        h[s][i] == Cell::Empty,
        h2 == h.subrange(0, s + 1).push(h[s].update(i, mover_for(s as nat))),
    ensures
        history_wf(h2),
        h2.len() == s + 2,
{
    reveal(history_wf);
    let placed = h[s].update(i, mover_for(s as nat));
    assert(h2[0] == h[0]);
    assert(is_move(h[s], placed, mover_for(s as nat)));
    assert forall|n: int| 0 <= n < h2.len() implies (#[trigger] h2[n]).len() == 9 by {
        if n <= s {
            assert(h2[n] == h[n]);
        } else {
            assert(h2[n] == placed);
        }
    }
    assert forall|n: int| 1 <= n < h2.len() implies is_move(
        h2[n - 1],
        #[trigger] h2[n],
        mover_for((n - 1) as nat),
    ) by {
        if n <= s {
            assert(h2[n - 1] == h[n - 1]);
            assert(h2[n] == h[n]);
        } else {
            assert(h2[n - 1] == h[s]);
            assert(h2[n] == placed);
        }
    }
}

/// Owns the ordered history of board snapshots and the currently viewed
/// step. Snapshots are immutable once recorded: a move appends a fresh
/// snapshot (truncating any abandoned future first), and time travel only
/// moves the step cursor.
#[derive(Clone)]
pub struct GameStateMachine {
    history: Vec<Board>,
    step: usize,
}

impl GameStateMachine {
    /// All recorded snapshots, oldest first, each as its nine cells.
    pub closed spec fn history_seq(self) -> Seq<Seq<Cell>> {
        self.history@.map(|i: int, b: Board| b@)
    }

    /// The currently viewed step, an index into the history.
    pub closed spec fn cur_step(self) -> nat {
        self.step as nat
    }

    /// The snapshot at the currently viewed step.
    pub open spec fn cur_snapshot_spec(self) -> Seq<Cell> {
        self.history_seq()[self.cur_step() as int]
    }

    /// Structural invariant: the history is well formed and the cursor
    /// is in range.
    pub open spec fn wf(self) -> bool {
        &&& history_wf(self.history_seq())
        &&& self.cur_step() < self.history_seq().len()
    }

    /// A fresh game: one all-empty snapshot, cursor at step 0.
    pub fn new() -> (m: GameStateMachine)
        ensures
            m.wf(),
            m.history_seq().len() == 1,
            m.cur_step() == 0,
            m.cur_snapshot_spec() == empty_board(),
    {
        let mut history: Vec<Board> = Vec::new();
        history.push(Board::new());
        let m = GameStateMachine { history, step: 0 };
        proof {
            reveal(history_wf);
            assert(m.history_seq() =~= seq![empty_board()]);
            assert(empty_board().len() == 9);
        }
        m
    }

    /// How many snapshots the history holds.
    pub fn history_len(&self) -> (n: usize)
        ensures
            n == self.history_seq().len(),
    {
        self.history.len()
    }

    /// The currently viewed step.
    pub fn current_step(&self) -> (s: usize)
        ensures
            s == self.cur_step(),
    {
        self.step
    }

    /// The snapshot at the currently viewed step.
    pub fn current_snapshot(&self) -> (b: Board)
        requires
            self.wf(),
        ensures
            b@ == self.cur_snapshot_spec(),
    {
        self.history[self.step]
    }

    /// Any recorded snapshot, for replaying the game move by move.
    pub fn snapshot_at(&self, n: usize) -> (b: Board)
        requires
            n < self.history_seq().len(),
        ensures
            b@ == self.history_seq()[n as int],
    {
        self.history[n]
    }

    /// The winner at the currently viewed snapshot; `Empty` if nobody
    /// has won there.
    pub fn winner(&self) -> (w: Cell)
        requires
            self.wf(),
        ensures
            w == winner_of(self.cur_snapshot_spec()),
    {
        let b = self.current_snapshot();
        evaluate(&b)
    }

    /// The player who moves next from the currently viewed step.
    pub fn next_mover(&self) -> (c: Cell)
        ensures
            c == mover_for(self.cur_step()),
    {
        if self.step % 2 == 0 {
            Cell::X
        } else {
            Cell::O
        }
    }

    /// Whether the game is decided at the currently viewed snapshot:
    /// won, or drawn on a full board.
    pub fn is_game_over(&self) -> (r: bool)
        requires
            self.wf(),
        ensures
            r == decided(self.cur_snapshot_spec()),
    {
        let b = self.current_snapshot();
        let w = evaluate(&b);
        if w != Cell::Empty {
            true
        } else {
            b.is_full()
        }
    }

    /// Whether a move at cell `i` takes effect from the current state:
    /// the index is on the board, the game is not yet decided at the
    /// viewed snapshot, and the cell there is still empty.
    pub open spec fn move_allowed(self, i: int) -> bool {
        &&& 0 <= i < 9
        &&& !decided(self.cur_snapshot_spec())
        &&& self.cur_snapshot_spec()[i] == Cell::Empty
    }

    /// Places the next mover's symbol at `cell_index`. A disallowed
    /// request (index off the board, game already decided, or cell
    /// occupied) is a silent no-op. On success the history is first
    /// truncated to end at the viewed snapshot, discarding any future
    /// recorded beyond it, then the new snapshot is appended and the
    /// cursor advances onto it.
    pub fn apply_move(&mut self, cell_index: usize)
        requires
            old(self).wf(),
        ensures
            final(self).wf(),
            !old(self).move_allowed(cell_index as int) ==> {
                &&& final(self).history_seq() == old(self).history_seq()
                &&& final(self).cur_step() == old(self).cur_step()
            },
            old(self).move_allowed(cell_index as int) ==> {
                &&& final(self).history_seq() == old(self).history_seq().subrange(
                    0,
                    old(self).cur_step() as int + 1,
                ).push(
                    old(self).cur_snapshot_spec().update(
                        cell_index as int,
                        mover_for(old(self).cur_step()),
                    ),
                )
                &&& final(self).cur_step() == old(self).cur_step() + 1
                &&& final(self).history_seq().len() == old(self).cur_step() + 2
            },
            old(self).move_allowed(cell_index as int) && old(self).cur_step() + 1 == old(
                self,
            ).history_seq().len() ==> final(self).history_seq().len() == old(
                self,
            ).history_seq().len() + 1,
    {
        if cell_index >= 9 {
            return;
        }
        if self.is_game_over() {
            return;
        }
        let cur = self.current_snapshot();
        if cur.get(cell_index) != Cell::Empty {
            return;
        }
        let mover = self.next_mover();
        let hlen = self.history.len();
        proof {
            assert(self.step < hlen);
        }
        let new_len = self.step + 1;
        self.history.truncate(new_len);
        let mut next = cur;
        next.cells[cell_index] = mover;
        self.history.push(next);
        self.step = new_len;
        proof {
            let pre = *old(self);
            let h = pre.history_seq();
            let s = pre.cur_step() as int;
            let h2 = h.subrange(0, s + 1).push(h[s].update(cell_index as int, mover));
            assert(self.history_seq() =~= h2);
            lemma_extend_history(h, h2, s, cell_index as int);
        }
    }

    /// Moves the view cursor to `target_step` without touching the
    /// history; a target at or beyond the history's end is a silent
    /// no-op.
    pub fn jump_to(&mut self, target_step: usize)
        requires
            old(self).wf(),
        ensures
            final(self).wf(),
            jump_post(*old(self), *final(self), target_step as int),
    {
        if target_step < self.history.len() {
            self.step = target_step;
        }
    }
}

/// What `jump_to(target)` leaves behind, given the state before the
/// call: the history untouched, and the cursor moved to `target` when
/// `target` is in range, else left where it was.
pub open spec fn jump_post(pre: GameStateMachine, post: GameStateMachine, target: int) -> bool {
    &&& post.history_seq() == pre.history_seq()
    &&& post.cur_step() == if 0 <= target < pre.history_seq().len() as int {
        target as nat
    } else {
        pre.cur_step()
    }
}

/// Law: the symbol placed by the k-th recorded move (1-indexed) is X
/// when k is odd and O when k is even, and that move changed exactly
/// one formerly empty cell of its predecessor snapshot.
pub proof fn lemma_move_alternation(m: GameStateMachine, k: int)
    requires
        m.wf(),
        1 <= k < m.history_seq().len(),
    ensures
        is_move(
            m.history_seq()[k - 1],
            m.history_seq()[k],
            if k % 2 == 1 {
                Cell::X
            } else {
                Cell::O
            },
        ),
{
    reveal(history_wf);
    assert(mover_for((k - 1) as nat) == if k % 2 == 1 {
        Cell::X
    } else {
        Cell::O
    });
}

/// Law: jumping to any in-range step and then back to the original step
/// restores both the cursor and the viewed snapshot, and never mutates
/// the history.
pub proof fn lemma_jump_round_trip(
    m0: GameStateMachine,
    m1: GameStateMachine,
    m2: GameStateMachine,
    target: int,
)
    requires
        m0.wf(),
        jump_post(m0, m1, target),
        jump_post(m1, m2, m0.cur_step() as int),
    ensures
        m2.history_seq() == m0.history_seq(),
        m2.cur_step() == m0.cur_step(),
        m2.cur_snapshot_spec() == m0.cur_snapshot_spec(),
{
}

} // verus!
