//! Board replicas and the replication rules.
//!
//! Each side holds a full copy of the puzzle board: a square grid whose
//! cells carry the home position of the tile sitting there, or nothing for
//! the hole. The creator mutates its copy (one random deletion, then
//! scramble and player swaps) and emits one message per mutation; the
//! joiner applies inbound messages verbatim. Both evolutions are the replay
//! of a message sequence over the initial board, which is what ties the two
//! replicas together.

use vstd::prelude::*;

use crate::bridge::ChannelClosed;
use crate::input::InputAction;
use crate::message::{MessageModel, MultiplayerGameMessage};
use crate::player::{duration_millis, spec_duration_millis, PuzzleStatistics};
use crate::random::cells_adjacent;
use crate::tile_multiplayer::TileMultiplayerTransport;

verus! {

/// One board cell: the home position of the tile occupying it, or `None`
/// for the hole.
pub type Cell = Option<(usize, usize)>;

/// Where a session stands, on either side.
#[derive(Clone, Copy, Debug, PartialEq, Eq, Structural)]
pub enum GameStage {
    /// Tiles are still sliding into their scrambled places.
    StartingAnimation,
    /// The board accepts moves.
    Started,
    /// The board is solved; tiles are sliding home.
    FinishingAnimation,
    /// The closing animation is over.
    Finished,
    /// The player abandoned the session.
    Cancelled,
}

impl Default for GameStage {
    /// A fresh session opens with its starting animation.
    fn default() -> (r: GameStage)
        ensures
            r is StartingAnimation,
    {
        GameStage::StartingAnimation
    }
}

/// The mathematical board: a sequence of rows.
pub open spec fn board_view(b: Seq<Vec<Cell>>) -> Seq<Seq<Cell>> {
    b.map_values(|row: Vec<Cell>| row@)
}

/// The solved starting board: every cell holds its own tile.
pub open spec fn spec_init_board(n: int) -> Seq<Seq<Cell>> {
    Seq::new(n as nat, |i: int| Seq::new(n as nat, |j: int| Some((i as usize, j as usize))))
}

/// True when `b` is an `n` x `n` grid.
pub open spec fn board_square(b: Seq<Seq<Cell>>, n: int) -> bool {
    b.len() == n && forall|i: int| 0 <= i < b.len() ==> (#[trigger] b[i]).len() == n
}

/// True when `rc` indexes a cell of `b`.
pub open spec fn board_in_bounds(b: Seq<Seq<Cell>>, rc: (usize, usize)) -> bool {
    rc.0 < b.len() && rc.1 < b[rc.0 as int].len()
}

/// True when no cell of `b` is the hole.
pub open spec fn no_hole(b: Seq<Seq<Cell>>) -> bool {
    forall|i: int, j: int|
        0 <= i < b.len() && 0 <= j < b[i].len() ==> (#[trigger] b[i][j]) is Some
}

/// True when the hole sits at `rc` and nowhere else.
pub open spec fn only_hole_at(b: Seq<Seq<Cell>>, rc: (usize, usize)) -> bool {
    &&& board_in_bounds(b, rc)
    &&& b[rc.0 as int][rc.1 as int] is None
    &&& forall|i: int, j: int|
        0 <= i < b.len() && 0 <= j < b[i].len() && !(i == rc.0 && j == rc.1) ==> (
        #[trigger] b[i][j]) is Some
}

/// A deletion applies to an occupied cell of a board that has no hole yet.
pub open spec fn delete_applicable(b: Seq<Seq<Cell>>, rc: (usize, usize)) -> bool {
    board_in_bounds(b, rc) && no_hole(b)
}

/// The board after clearing the cell at `rc`.
pub open spec fn spec_delete(b: Seq<Seq<Cell>>, rc: (usize, usize)) -> Seq<Seq<Cell>> {
    b.update(rc.0 as int, b[rc.0 as int].update(rc.1 as int, None))
}

/// A swap applies when both cells exist and the tile being moved is real.
pub open spec fn swap_applicable(
    b: Seq<Seq<Cell>>,
    from: (usize, usize),
    to: (usize, usize),
) -> bool {
    board_in_bounds(b, from) && board_in_bounds(b, to) && b[to.0 as int][to.1 as int] is Some
}

/// The board after moving the tile at `to` into `from` (and what was at
/// `from` into `to`).
pub open spec fn spec_swap(
    b: Seq<Seq<Cell>>,
    from: (usize, usize),
    to: (usize, usize),
) -> Seq<Seq<Cell>> {
    let vfrom = b[from.0 as int][from.1 as int];
    let vto = b[to.0 as int][to.1 as int];
    let b1 = b.update(from.0 as int, b[from.0 as int].update(from.1 as int, vto));
    b1.update(to.0 as int, b1[to.0 as int].update(to.1 as int, vfrom))
}

/// How one message transforms a board. Messages that do not touch the
/// board, and board messages that do not apply, leave it unchanged.
pub open spec fn spec_apply_message(b: Seq<Seq<Cell>>, m: MessageModel) -> Seq<Seq<Cell>> {
    match m {
        MessageModel::DeleteRandomTile { row, col } => if delete_applicable(b, (row, col)) {
            spec_delete(b, (row, col))
        } else {
            b
        },
        MessageModel::SwapTiles { from, to, .. } => if swap_applicable(b, from, to) {
            spec_swap(b, from, to)
        } else {
            b
        },
        _ => b,
    }
}

/// The board a message sequence produces from `b`, applied in order.
pub open spec fn spec_replay(b: Seq<Seq<Cell>>, msgs: Seq<MessageModel>) -> Seq<Seq<Cell>>
    decreases msgs.len(),
{
    if msgs.len() == 0 {
        b
    } else {
        spec_replay(spec_apply_message(b, msgs[0]), msgs.drop_first())
    }
}

/// Replaying one more message continues the replay.
pub proof fn lemma_replay_snoc(b: Seq<Seq<Cell>>, msgs: Seq<MessageModel>, m: MessageModel)
    ensures
        spec_replay(b, msgs.push(m)) == spec_apply_message(spec_replay(b, msgs), m),
    decreases msgs.len(),
{
    if msgs.len() == 0 {
        assert(msgs.push(m)[0] == m);
        assert(msgs.push(m).drop_first() =~= Seq::<MessageModel>::empty());
        assert(spec_replay(b, msgs.push(m)) == spec_replay(
            spec_apply_message(b, m),
            msgs.push(m).drop_first(),
        ));
        assert(spec_replay(b, msgs) == b);
    } else {
        assert(msgs.push(m)[0] == msgs[0]);
        assert(msgs.push(m).drop_first() =~= msgs.drop_first().push(m));
        assert(spec_replay(b, msgs.push(m)) == spec_replay(
            spec_apply_message(b, msgs[0]),
            msgs.drop_first().push(m),
        ));
        lemma_replay_snoc(spec_apply_message(b, msgs[0]), msgs.drop_first(), m);
        assert(spec_replay(b, msgs) == spec_replay(
            spec_apply_message(b, msgs[0]),
            msgs.drop_first(),
        ));
    }
}

/// Where the hole sits after one message: a swap of the hole itself moves
/// it to the swap's target, anything else leaves it in place.
pub open spec fn next_hole(
    b: Seq<Seq<Cell>>,
    h: (usize, usize),
    m: MessageModel,
) -> (usize, usize) {
    if m is SwapTiles && swap_applicable(b, m->SwapTiles_from, m->SwapTiles_to)
        && m->SwapTiles_from == h {
        m->SwapTiles_to
    } else {
        h
    }
}

/// Applying any message to a board with exactly one hole leaves exactly one
/// hole: the cell recorded as the hole is never simultaneously occupied.
pub proof fn lemma_apply_keeps_single_hole(b: Seq<Seq<Cell>>, h: (usize, usize), m: MessageModel)
    requires
        only_hole_at(b, h),
    ensures
        only_hole_at(spec_apply_message(b, m), next_hole(b, h, m)),
{
    match m {
        MessageModel::DeleteRandomTile { row, col } => {
            assert(!no_hole(b));
        },
        MessageModel::SwapTiles { from, to, duration_millis } => {
            if swap_applicable(b, from, to) {
                let b2 = spec_swap(b, from, to);
                if from == h {
                    assert(only_hole_at(b2, to));
                } else {
                    assert(b[from.0 as int][from.1 as int] is Some);
                    assert(only_hole_at(b2, h));
                }
            }
        },
        _ => {},
    }
}

/// After a deletion and any run of swap messages, the board still has
/// exactly one hole: no cell is ever both occupied and the hole.
pub proof fn lemma_hole_never_occupied(
    n: usize,
    row: usize,
    col: usize,
    swaps: Seq<MessageModel>,
)
    requires
        2 <= n,
        row < n,
        col < n,
        forall|k: int| 0 <= k < swaps.len() ==> (#[trigger] swaps[k]) is SwapTiles,
    ensures
        exists|h: (usize, usize)|
            only_hole_at(
                spec_replay(
                    spec_apply_message(
                        spec_init_board(n as int),
                        MessageModel::DeleteRandomTile { row, col },
                    ),
                    swaps,
                ),
                h,
            ),
    decreases swaps.len(),
{
    let b0 = spec_init_board(n as int);
    let b1 = spec_apply_message(b0, MessageModel::DeleteRandomTile { row, col });
    assert(delete_applicable(b0, (row, col)));
    assert(only_hole_at(b1, (row, col)));
    lemma_replay_single_hole(b1, (row, col), swaps);
}

/// A board with exactly one hole keeps exactly one hole through any replay
/// of swap messages.
pub proof fn lemma_replay_single_hole(
    b: Seq<Seq<Cell>>,
    h: (usize, usize),
    swaps: Seq<MessageModel>,
)
    requires
        only_hole_at(b, h),
        forall|k: int| 0 <= k < swaps.len() ==> (#[trigger] swaps[k]) is SwapTiles,
    ensures
        exists|h2: (usize, usize)| only_hole_at(spec_replay(b, swaps), h2),
    decreases swaps.len(),
{
    if swaps.len() == 0 {
        assert(only_hole_at(spec_replay(b, swaps), h));
    } else {
        lemma_apply_keeps_single_hole(b, h, swaps[0]);
        let b2 = spec_apply_message(b, swaps[0]);
        let h2 = next_hole(b, h, swaps[0]);
        assert(only_hole_at(b2, h2));
        assert forall|k: int| 0 <= k < swaps.drop_first().len() implies (#[trigger] swaps.drop_first()[k]) is SwapTiles by {
            assert(swaps.drop_first()[k] == swaps[k + 1]);
        }
        lemma_replay_single_hole(b2, h2, swaps.drop_first());
        let hw = choose|hw: (usize, usize)| only_hole_at(spec_replay(b2, swaps.drop_first()), hw);
        assert(spec_replay(b, swaps) == spec_replay(b2, swaps.drop_first()));
        assert(only_hole_at(spec_replay(b, swaps), hw));
    }
}

/// How long one interactive slide animates, in milliseconds.
pub const TILE_SLIDE_DURATION_MILLIS: u32 = 300;

/// How long one scramble slide animates, in milliseconds.
pub const SCRAMBLE_SLIDE_DURATION_MILLIS: u32 = 1200;

/// How many random swaps scramble a fresh board.
pub const TOTAL_SCRAMBLE_SWAPS: u32 = 50;

/// One side's full copy of the puzzle board, together with the message
/// history that produced it.
///
/// On the creator (`peer == false`) every board mutation also queues the
/// matching protocol message; on the joiner (`peer == true`) mutations
/// happen only by applying inbound messages. Either way `history` records
/// the board messages in order, and the board always equals their replay
/// over the solved starting grid — that is the well-formedness invariant
/// [`TileState::wf`].
pub struct TileState {
    /// The grid; `None` marks the hole.
    pub ref_board: Vec<Vec<Cell>>,
    /// Where the hole is, once one was made.
    pub blank_cell: (usize, usize),
    /// The cell deleted at session start, once one was.
    pub tile_blank_cell: (usize, usize),
    /// Whether a cell was deleted yet: the board has a hole at
    /// `blank_cell` exactly when this is set.
    pub hole_made: bool,
    /// The target of the previous scramble swap, which the next scramble
    /// swap avoids.
    pub previous_swap: Option<(usize, usize)>,
    /// Interactive moves made on this board.
    pub total_moves: u32,
    /// Where the session stands on this side.
    pub game_stage: GameStage,
    /// The session bridge, or an inert handle in single-player play.
    pub transport: TileMultiplayerTransport,
    /// True on the mirroring side.
    pub peer: bool,
    /// This side's completion report, or the remote one on the mirroring
    /// side, once known.
    pub puzzle_statistics: Option<PuzzleStatistics>,
    /// Clock reading when the session began, for the duration report.
    pub start_millis: i64,
    /// The board messages emitted (creator) or applied (joiner), in order.
    pub history: Ghost<Seq<MessageModel>>,
}

impl TileState {
    /// The mathematical board this replica holds.
    pub open spec fn board(&self) -> Seq<Seq<Cell>> {
        board_view(self.ref_board@)
    }

    /// The board's side length.
    pub open spec fn side_len(&self) -> int {
        self.ref_board@.len() as int
    }

    /// The replica invariant: a square board of side at least two, whose
    /// hole bookkeeping is accurate and which equals the replay of its
    /// recorded history over the solved starting grid.
    pub open spec fn wf(&self) -> bool {
        &&& 2 <= self.side_len()
        &&& board_square(self.board(), self.side_len())
        &&& if self.hole_made {
            only_hole_at(self.board(), self.blank_cell)
        } else {
            no_hole(self.board())
        }
        &&& self.board() == spec_replay(spec_init_board(self.side_len()), self.history@)
    }

    /// True once the closing animation has run out.
    pub fn finished(&self) -> (r: bool)
        ensures
            r == (self.game_stage is Finished),
    {
        match self.game_stage {
            GameStage::Finished => true,
            _ => false,
        }
    }

    /// This side's measurements at this instant: the wall clock as finish
    /// time, the elapsed session time, and the move count.
    pub fn get_puzzle_statistics(&self) -> (st: PuzzleStatistics)
        ensures
            st.move_count == self.total_moves,
            st.duration == spec_duration_millis(self.start_millis, st.finish_time),
    {
        let now = crate::player::now_millis();
        PuzzleStatistics {
            finish_time: now,
            duration: duration_millis(self.start_millis, now),
            move_count: self.total_moves,
        }
    }

    /// Begins the closing animation.
    pub fn set_finishing_animation(&mut self)
        ensures
            *final(self) == (TileState { game_stage: GameStage::FinishingAnimation, ..*old(self) }),
    {
        self.game_stage = GameStage::FinishingAnimation;
    }

    /// The stage step the renderer takes when its animation queue drains:
    /// the opening animation yields a running board, the closing one a
    /// finished session.
    pub fn on_animation_finished(&mut self)
        ensures
            *final(self) == (TileState {
                game_stage: match old(self).game_stage {
                    GameStage::StartingAnimation => GameStage::Started,
                    GameStage::FinishingAnimation => GameStage::Finished,
                    s => s,
                },
                ..*old(self)
            }),
    {
        match self.game_stage {
            GameStage::StartingAnimation => {
                self.game_stage = GameStage::Started;
            },
            GameStage::FinishingAnimation => {
                self.game_stage = GameStage::Finished;
            },
            _ => {},
        }
    }
}

impl TileState {
    /// Slides the tile at `i2j2` into `i1j1` — exactly what the matching
    /// `SwapTiles` message tells the peer — and on the creator's side
    /// queues that message. When `i1j1` was the hole, the hole moves to
    /// `i2j2`. Errs exactly when the message had to be sent and the
    /// outbound queue is disconnected; the board changes either way.
    pub fn swap_ref_tiles(
        &mut self,
        i1j1: (usize, usize),
        i2j2: (usize, usize),
        duration_millis: u32,
    ) -> (r: Result<(), ChannelClosed>)
        requires
            old(self).wf(),
            swap_applicable(old(self).board(), i1j1, i2j2),
        ensures
            final(self).wf(),
            final(self).board() == spec_swap(old(self).board(), i1j1, i2j2),
            final(self).history@ == old(self).history@.push(
                MessageModel::SwapTiles { from: i1j1, to: i2j2, duration_millis },
            ),
            final(self).blank_cell == (if old(self).board()[i1j1.0 as int][i1j1.1 as int] is None {
                i2j2
            } else {
                old(self).blank_cell
            }),
            final(self).hole_made == old(self).hole_made,
            final(self).previous_swap == old(self).previous_swap,
            final(self).total_moves == old(self).total_moves,
            final(self).game_stage == old(self).game_stage,
            final(self).peer == old(self).peer,
            final(self).puzzle_statistics == old(self).puzzle_statistics,
            final(self).start_millis == old(self).start_millis,
            final(self).tile_blank_cell == old(self).tile_blank_cell,
            final(self).side_len() == old(self).side_len(),
            final(self).transport == old(self).transport,
            old(self).peer ==> r is Ok,
            !old(self).transport.is_attached() ==> r is Ok,
    {
        let ghost b0 = self.board();
        let ghost msg = MessageModel::SwapTiles { from: i1j1, to: i2j2, duration_millis };
        let r = if !self.peer {
            self.transport.swap_tiles(i1j1, i2j2, duration_millis)
        } else {
            Ok(())
        };
        let (i1, j1) = i1j1;
        let (i2, j2) = i2j2;
        let old_tile = self.ref_board[i1][j1];
        if old_tile.is_none() {
            self.blank_cell = i2j2;
        }
        let moving = self.ref_board[i2][j2];
        self.ref_board[i1][j1] = moving;
        self.ref_board[i2][j2] = old_tile;
        self.history = Ghost(self.history@.push(msg));
        proof {
            assert(self.board() =~~= spec_swap(b0, i1j1, i2j2));
            assert(spec_apply_message(b0, msg) == spec_swap(b0, i1j1, i2j2));
            lemma_replay_snoc(spec_init_board(self.side_len()), old(self).history@, msg);
            if old(self).hole_made {
                lemma_apply_keeps_single_hole(b0, old(self).blank_cell, msg);
                if b0[i1j1.0 as int][i1j1.1 as int] is None {
                    assert(i1j1 == old(self).blank_cell);
                    assert(next_hole(b0, old(self).blank_cell, msg) == i2j2);
                } else {
                    assert(next_hole(b0, old(self).blank_cell, msg) == old(self).blank_cell);
                }
            } else {
                assert forall|i: int, j: int|
                    0 <= i < self.board().len() && 0 <= j < self.board()[i].len() implies (
                #[trigger] self.board()[i][j]) is Some by {
                    assert(b0[i][j] is Some);
                }
            }
        }
        r
    }
}

impl TileState {
    /// Clears one cell to form the hole: the given cell when mirroring a
    /// peer's `DeleteRandomTile`, a randomly drawn one on the creator's
    /// side, where the matching message is also queued. Errs exactly when
    /// that send fails; the board changes either way.
    pub fn delete_random_tile(&mut self, peer_tile: Option<(usize, usize)>) -> (r: Result<
        (),
        ChannelClosed,
    >)
        requires
            old(self).wf(),
            !old(self).hole_made,
            peer_tile matches Some(rc) ==> rc.0 < old(self).side_len() && rc.1 < old(
                self,
            ).side_len(),
        ensures
            final(self).wf(),
            final(self).hole_made,
            final(self).blank_cell.0 < old(self).side_len(),
            final(self).blank_cell.1 < old(self).side_len(),
            peer_tile matches Some(rc) ==> final(self).blank_cell == rc,
            final(self).board() == spec_delete(old(self).board(), final(self).blank_cell),
            final(self).history@ == old(self).history@.push(
                MessageModel::DeleteRandomTile {
                    row: final(self).blank_cell.0,
                    col: final(self).blank_cell.1,
                },
            ),
            final(self).tile_blank_cell == final(self).blank_cell,
            final(self).previous_swap == old(self).previous_swap,
            final(self).total_moves == old(self).total_moves,
            final(self).game_stage == old(self).game_stage,
            final(self).peer == old(self).peer,
            final(self).puzzle_statistics == old(self).puzzle_statistics,
            final(self).start_millis == old(self).start_millis,
            final(self).side_len() == old(self).side_len(),
            final(self).transport == old(self).transport,
            old(self).peer ==> r is Ok,
            !old(self).transport.is_attached() ==> r is Ok,
    {
        let ghost b0 = self.board();
        let (i, j) = match peer_tile {
            Some(rc) => rc,
            None => {
                let n = self.ref_board.len();
                (crate::random::rand_below(n), crate::random::rand_below(n))
            },
        };
        let ghost msg = MessageModel::DeleteRandomTile { row: i, col: j };
        proof {
            assert(self.ref_board@[i as int]@ == self.board()[i as int]);
            assert(self.board()[i as int].len() == self.side_len());
        }
        self.ref_board[i][j] = None;
        self.tile_blank_cell = (i, j);
        self.blank_cell = (i, j);
        self.hole_made = true;
        self.history = Ghost(self.history@.push(msg));
        proof {
            assert(self.board() =~~= spec_delete(b0, (i, j)));
            assert(delete_applicable(b0, (i, j)));
            lemma_replay_snoc(spec_init_board(self.side_len()), old(self).history@, msg);
            assert forall|a: int, b: int|
                0 <= a < self.board().len() && 0 <= b < self.board()[a].len() && !(a == i && b
                    == j) implies (#[trigger] self.board()[a][b]) is Some by {
                assert(b0[a][b] is Some);
            }
        }
        if !self.peer {
            self.transport.delete_random_tile(self.blank_cell)
        } else {
            Ok(())
        }
    }
}

/// True when every occupied cell holds its own tile.
pub open spec fn board_solved(b: Seq<Seq<Cell>>) -> bool {
    forall|i: int, j: int|
        0 <= i < b.len() && 0 <= j < b[i].len() ==> ((#[trigger] b[i][j]) is Some ==> b[i][j]->0
            == (i as usize, j as usize))
}

/// True when the candidate differs from the remembered previous target.
fn target_allowed(prev: &Option<(usize, usize)>, c: (usize, usize)) -> (r: bool)
    ensures
        r == (Some(c) != *prev),
{
    match prev {
        Some(p) => p.0 != c.0 || p.1 != c.1,
        None => true,
    }
}

impl TileState {
    /// True when every tile sits at home.
    pub fn is_solved(&self) -> (r: bool)
        requires
            self.wf(),
        ensures
            r == board_solved(self.board()),
    {
        let n = self.ref_board.len();
        let mut i: usize = 0;
        while i < n
            invariant
                i <= n,
                self.wf(),
                n == self.side_len(),
                forall|a: int, b: int|
                    0 <= a < i && 0 <= b < n ==> ((#[trigger] self.board()[a][b]) is Some
                        ==> self.board()[a][b]->0 == (a as usize, b as usize)),
            decreases n - i,
        {
            let mut j: usize = 0;
            while j < n
                invariant
                    i < n,
                    j <= n,
                    self.wf(),
                    n == self.side_len(),
                    forall|b: int|
                        0 <= b < j ==> ((#[trigger] self.board()[i as int][b]) is Some
                            ==> self.board()[i as int][b]->0 == (i, b as usize)),
                decreases n - j,
            {
                if let Some(t) = self.ref_board[i][j] {
                    if t.0 != i || t.1 != j {
                        return false;
                    }
                }
                proof {
                    assert(self.board()[i as int][j as int] == self.ref_board@[i as int]@[j as int]);
                }
                j = j + 1;
            }
            i = i + 1;
        }
        true
    }

    /// Moves the session into the closing animation once the board is
    /// solved; does nothing otherwise.
    pub fn check_completed(&mut self)
        requires
            old(self).wf(),
        ensures
            *final(self) == (TileState {
                game_stage: if board_solved(old(self).board()) {
                    GameStage::FinishingAnimation
                } else {
                    old(self).game_stage
                },
                ..*old(self)
            }),
    {
        if self.is_solved() {
            self.set_finishing_animation();
        }
    }

    /// One scramble step: slides a random neighbour of the hole into it,
    /// never the one slid in the previous step (that would undo it), and
    /// queues the matching `SwapTiles` message. Errs exactly when that
    /// send fails; the board changes either way.
    pub fn swap_random_tile_blank(&mut self) -> (r: Result<(), ChannelClosed>)
        requires
            old(self).wf(),
            old(self).hole_made,
        ensures
            final(self).wf(),
            final(self).hole_made,
            cells_adjacent(final(self).blank_cell, old(self).blank_cell),
            Some(final(self).blank_cell) != old(self).previous_swap,
            final(self).board() == spec_swap(
                old(self).board(),
                old(self).blank_cell,
                final(self).blank_cell,
            ),
            final(self).history@ == old(self).history@.push(
                MessageModel::SwapTiles {
                    from: old(self).blank_cell,
                    to: final(self).blank_cell,
                    duration_millis: SCRAMBLE_SLIDE_DURATION_MILLIS,
                },
            ),
            final(self).previous_swap == Some(old(self).blank_cell),
            final(self).total_moves == old(self).total_moves,
            final(self).game_stage == old(self).game_stage,
            final(self).peer == old(self).peer,
            final(self).puzzle_statistics == old(self).puzzle_statistics,
            final(self).start_millis == old(self).start_millis,
            final(self).side_len() == old(self).side_len(),
            final(self).tile_blank_cell == old(self).tile_blank_cell,
            final(self).transport == old(self).transport,
            !old(self).transport.is_attached() ==> r is Ok,
    {
        let n = self.ref_board.len();
        let (bi, bj) = self.blank_cell;
        let mut candidates: Vec<(usize, usize)> = Vec::new();
        if bi + 1 < n && target_allowed(&self.previous_swap, (bi + 1, bj)) {
            candidates.push((bi + 1, bj));
        }
        if bi > 0 && target_allowed(&self.previous_swap, (bi - 1, bj)) {
            candidates.push((bi - 1, bj));
        }
        if bj + 1 < n && target_allowed(&self.previous_swap, (bi, bj + 1)) {
            candidates.push((bi, bj + 1));
        }
        if bj > 0 && target_allowed(&self.previous_swap, (bi, bj - 1)) {
            candidates.push((bi, bj - 1));
        }
        assert(candidates@.len() >= 1);
        assert(forall|k: int|
            0 <= k < candidates@.len() ==> cells_adjacent(#[trigger] candidates@[k], (bi, bj))
                && candidates@[k].0 < n && candidates@[k].1 < n && Some(candidates@[k])
                != self.previous_swap);
        let idx = crate::random::rand_below(candidates.len());
        let target = candidates[idx];
        self.previous_swap = Some(self.blank_cell);
        proof {
            assert(target != (bi, bj));
            assert(self.board()[target.0 as int][target.1 as int] is Some);
        }
        self.swap_ref_tiles((bi, bj), target, SCRAMBLE_SLIDE_DURATION_MILLIS)
    }
}

/// The cell a movement action slides into the hole at `blank`, if the
/// action moves at all: the arrow names the direction the tile travels, so
/// the tile comes from the opposite side of the hole.
pub open spec fn input_target(n: int, blank: (usize, usize), action: InputAction) -> Option<
    (usize, usize),
> {
    match action {
        InputAction::Up => if blank.0 + 1 < n {
            Some(((blank.0 + 1) as usize, blank.1))
        } else {
            None
        },
        InputAction::Down => if blank.0 != 0 {
            Some(((blank.0 - 1) as usize, blank.1))
        } else {
            None
        },
        InputAction::Left => if blank.1 + 1 < n {
            Some((blank.0, (blank.1 + 1) as usize))
        } else {
            None
        },
        InputAction::Right => if blank.1 != 0 {
            Some((blank.0, (blank.1 - 1) as usize))
        } else {
            None
        },
        _ => None,
    }
}

impl TileState {
    /// Reacts to one player action while the game runs: a movement slides
    /// the matching neighbour into the hole and counts the move, escape
    /// cancels the session. On the creator's side a solved board then
    /// starts the closing animation and reports this side's statistics to
    /// the peer. Outside the running stage nothing happens. Errs exactly
    /// when a message had to be sent and sending failed.
    pub fn handle_input_event(&mut self, key_input: InputAction) -> (r: Result<(), ChannelClosed>)
        requires
            old(self).wf(),
            old(self).total_moves < u32::MAX,
            old(self).game_stage is Started ==> old(self).hole_made,
        ensures
            final(self).wf(),
            !(old(self).game_stage is Started) ==> *final(self) == *old(self) && r is Ok,
            old(self).game_stage is Started ==> ({
                let tgt = input_target(old(self).side_len(), old(self).blank_cell, key_input);
                let stage1 = if key_input is Cancel {
                    GameStage::Cancelled
                } else {
                    old(self).game_stage
                };
                &&& final(self).board() == (match tgt {
                    Some(t) => spec_swap(old(self).board(), old(self).blank_cell, t),
                    None => old(self).board(),
                })
                &&& final(self).total_moves == old(self).total_moves + (if tgt is Some {
                    1int
                } else {
                    0int
                })
                &&& (match tgt {
                    Some(t) => final(self).blank_cell == t,
                    None => final(self).blank_cell == old(self).blank_cell,
                })
                &&& ({
                    let base = match tgt {
                        Some(t) => old(self).history@.push(
                            MessageModel::SwapTiles {
                                from: old(self).blank_cell,
                                to: t,
                                duration_millis: TILE_SLIDE_DURATION_MILLIS,
                            },
                        ),
                        None => old(self).history@,
                    };
                    if !old(self).peer && board_solved(final(self).board()) {
                        final(self).history@ == base.push(
                            MessageModel::GameCompleted {
                                stats: final(self).puzzle_statistics->0,
                            },
                        )
                    } else {
                        final(self).history@ == base
                    }
                })
                &&& (if old(self).peer {
                    final(self).game_stage == stage1 && final(self).puzzle_statistics == old(
                        self,
                    ).puzzle_statistics
                } else {
                    &&& final(self).game_stage == (if board_solved(final(self).board()) {
                        GameStage::FinishingAnimation
                    } else {
                        stage1
                    })
                    &&& (board_solved(final(self).board()) ==> (final(self).puzzle_statistics
                        matches Some(st) && st.move_count == final(self).total_moves && st.duration
                        == spec_duration_millis(old(self).start_millis, st.finish_time)))
                    &&& (!board_solved(final(self).board()) ==> final(self).puzzle_statistics
                        == old(self).puzzle_statistics)
                })
                &&& final(self).hole_made == old(self).hole_made
                &&& final(self).previous_swap == old(self).previous_swap
                &&& final(self).peer == old(self).peer
                &&& final(self).start_millis == old(self).start_millis
                &&& final(self).side_len() == old(self).side_len()
            }),
            final(self).transport == old(self).transport,
            !old(self).transport.is_attached() ==> r is Ok,
    {
        match self.game_stage {
            GameStage::Started => {},
            _ => {
                return Ok(());
            },
        }
        let n = self.ref_board.len();
        let (i, j) = self.blank_cell;
        let target: Option<(usize, usize)> = match key_input {
            InputAction::Up => if i + 1 < n {
                Some((i + 1, j))
            } else {
                None
            },
            InputAction::Down => if i != 0 {
                Some((i - 1, j))
            } else {
                None
            },
            InputAction::Left => if j + 1 < n {
                Some((i, j + 1))
            } else {
                None
            },
            InputAction::Right => if j != 0 {
                Some((i, j - 1))
            } else {
                None
            },
            InputAction::Cancel => {
                self.game_stage = GameStage::Cancelled;
                None
            },
            InputAction::Select => None,
        };
        let mut result: Result<(), ChannelClosed> = Ok(());
        if let Some(t) = target {
            proof {
                assert(t != (i, j));
                assert(self.board()[t.0 as int][t.1 as int] is Some);
            }
            result = self.swap_ref_tiles((i, j), t, TILE_SLIDE_DURATION_MILLIS);
            self.total_moves = self.total_moves + 1;
        }
        if !self.peer {
            self.check_completed();
            let finishing = match self.game_stage {
                GameStage::FinishingAnimation => true,
                _ => false,
            };
            if finishing {
                let stats = self.get_puzzle_statistics();
                self.puzzle_statistics = Some(stats);
                let sent = self.transport.end_game(stats);
                let ghost done = MessageModel::GameCompleted { stats };
                let ghost prev_hist = self.history@;
                self.history = Ghost(self.history@.push(done));
                proof {
                    lemma_replay_snoc(spec_init_board(self.side_len()), prev_hist, done);
                }
                if result.is_ok() {
                    result = sent;
                }
            }
        }
        result
    }
}

impl TileState {
    /// Applies one inbound message verbatim, as the mirroring side does: a
    /// deletion clears that cell, a swap slides that tile, a completion
    /// records the peer's statistics and starts the closing animation, the
    /// scramble notice opens the board for play. A board message that does
    /// not fit the current board (out of range, moving the hole, a second
    /// deletion) is ignored. Never fails and never panics, whatever the
    /// message says.
    pub fn apply_peer_message(&mut self, msg: &MultiplayerGameMessage)
        requires
            old(self).wf(),
            old(self).peer,
        ensures
            final(self).wf(),
            final(self).board() == spec_apply_message(old(self).board(), msg@),
            final(self).history@ == old(self).history@.push(msg@),
            final(self).game_stage == (match msg@ {
                MessageModel::GameCompleted { .. } => GameStage::FinishingAnimation,
                MessageModel::ScramblingFinished => GameStage::Started,
                _ => old(self).game_stage,
            }),
            final(self).puzzle_statistics == (match msg@ {
                MessageModel::GameCompleted { stats } => Some(stats),
                _ => old(self).puzzle_statistics,
            }),
            final(self).total_moves == old(self).total_moves,
            final(self).peer == old(self).peer,
            final(self).start_millis == old(self).start_millis,
            final(self).side_len() == old(self).side_len(),
            final(self).transport == old(self).transport,
    {
        let ghost b0 = self.board();
        let n = self.ref_board.len();
        match msg {
            MultiplayerGameMessage::SwapTiles { i1j1, i2j2, duration_millis } => {
                let (i1, j1) = *i1j1;
                let (i2, j2) = *i2j2;
                let applicable = i1 < n && j1 < self.ref_board[i1].len() && i2 < n && j2
                    < self.ref_board[i2].len() && self.ref_board[i2][j2].is_some();
                if applicable {
                    let _ = self.swap_ref_tiles(*i1j1, *i2j2, *duration_millis);
                } else {
                    let ghost prev_hist = self.history@;
                    self.history = Ghost(self.history@.push(msg@));
                    proof {
                        assert(spec_apply_message(b0, msg@) == b0);
                        lemma_replay_snoc(spec_init_board(self.side_len()), prev_hist, msg@);
                    }
                }
            },
            MultiplayerGameMessage::DeleteRandomTile(rc) => {
                let (i, j) = *rc;
                let applicable = !self.hole_made && i < n && j < self.ref_board[i].len();
                if applicable {
                    proof {
                        assert(self.ref_board@[i as int]@ == self.board()[i as int]);
                    }
                    let _ = self.delete_random_tile(Some(*rc));
                } else {
                    let ghost prev_hist = self.history@;
                    self.history = Ghost(self.history@.push(msg@));
                    proof {
                        assert(spec_apply_message(b0, msg@) == b0);
                        lemma_replay_snoc(spec_init_board(self.side_len()), prev_hist, msg@);
                    }
                }
            },
            MultiplayerGameMessage::GameCompleted(stats) => {
                self.puzzle_statistics = Some(*stats);
                self.set_finishing_animation();
                let ghost prev_hist = self.history@;
                self.history = Ghost(self.history@.push(msg@));
                proof {
                    lemma_replay_snoc(spec_init_board(self.side_len()), prev_hist, msg@);
                }
            },
            MultiplayerGameMessage::ScramblingFinished => {
                self.game_stage = GameStage::Started;
                let ghost prev_hist = self.history@;
                self.history = Ghost(self.history@.push(msg@));
                proof {
                    lemma_replay_snoc(spec_init_board(self.side_len()), prev_hist, msg@);
                }
            },
            _ => {
                let ghost prev_hist = self.history@;
                self.history = Ghost(self.history@.push(msg@));
                proof {
                    lemma_replay_snoc(spec_init_board(self.side_len()), prev_hist, msg@);
                }
            },
        }
    }

    /// One simulation tick on the mirroring side: pulls at most one
    /// inbound message and applies it — the state either stays put (empty
    /// queue) or takes exactly one message step. On the authoritative side
    /// this does nothing — that side is driven by player input instead.
    pub fn update(&mut self)
        requires
            old(self).wf(),
        ensures
            final(self).wf(),
            !old(self).peer ==> *final(self) == *old(self),
            old(self).peer ==> (*final(self) == *old(self) || (exists|m: MessageModel|
                final(self).history@ == old(self).history@.push(m) && final(self).board() == (
                #[trigger] spec_apply_message(old(self).board(), m)))),
            final(self).peer == old(self).peer,
            final(self).side_len() == old(self).side_len(),
            final(self).total_moves == old(self).total_moves,
            final(self).start_millis == old(self).start_millis,
            final(self).transport == old(self).transport,
    {
        if self.peer {
            let received = self.transport.recv_message();
            if let Some(msg) = received {
                self.apply_peer_message(&msg);
                proof {
                    assert(self.board() == spec_apply_message(old(self).board(), msg@));
                }
            }
        }
    }
}

/// The shape of the history a creator's construction records and emits:
/// exactly one deletion, then exactly the fixed number of scramble
/// swaps, and nothing else — in particular no `ScramblingFinished`.
pub open spec fn creator_setup_history(h: Seq<MessageModel>) -> bool {
    &&& h.len() == 1 + TOTAL_SCRAMBLE_SWAPS
    &&& h[0] is DeleteRandomTile
    &&& forall|k: int| 1 <= k < h.len() ==> (#[trigger] h[k]) is SwapTiles
}

/// The solved starting board is square and has no hole.
pub proof fn lemma_init_board_props(n: int)
    requires
        0 <= n,
    ensures
        board_square(spec_init_board(n), n),
        no_hole(spec_init_board(n)),
{
    assert forall|i: int| 0 <= i < spec_init_board(n).len() implies (#[trigger] spec_init_board(
        n,
    )[i]).len() == n by {}
    assert forall|i: int, j: int|
        0 <= i < spec_init_board(n).len() && 0 <= j < spec_init_board(n)[i].len() implies (
    #[trigger] spec_init_board(n)[i][j]) is Some by {}
}

impl TileState {
    /// Builds one side's replica of a fresh `num_rows_cols` square board.
    ///
    /// The mirroring side (`peer == true`) gets the solved board and waits
    /// for messages. The creator's side deletes one random cell and then
    /// scrambles with the fixed number of random swaps, queueing one
    /// message per mutation: its recorded history — and so what the peer
    /// receives — is exactly one deletion followed by the fixed number of
    /// swaps. It errs exactly when one of those sends fails, which a
    /// detached transport never does.
    pub fn new(num_rows_cols: usize, transport: TileMultiplayerTransport, peer: bool) -> (r:
        Result<TileState, ChannelClosed>)
        requires
            2 <= num_rows_cols,
        ensures
            r matches Ok(s) ==> ({
                &&& s.wf()
                &&& s.peer == peer
                &&& s.side_len() == num_rows_cols
                &&& s.game_stage is StartingAnimation
                &&& s.total_moves == 0
                &&& s.puzzle_statistics is None
                &&& s.previous_swap is None == peer
                &&& (peer ==> s.history@ == Seq::<MessageModel>::empty() && !s.hole_made)
                &&& (!peer ==> s.hole_made && creator_setup_history(s.history@))
            }),
            peer ==> r is Ok,
            !transport.is_attached() ==> r is Ok,
    {
        let n = num_rows_cols;
        let mut rows: Vec<Vec<Cell>> = Vec::new();
        let mut i: usize = 0;
        while i < n
            invariant
                i <= n,
                rows@.len() == i,
                forall|a: int| 0 <= a < i ==> (#[trigger] rows@[a])@.len() == n,
                forall|a: int, b: int|
                    0 <= a < i && 0 <= b < n ==> (#[trigger] rows@[a]@[b]) == Some(
                        (a as usize, b as usize),
                    ),
            decreases n - i,
        {
            let mut row: Vec<Cell> = Vec::new();
            let mut j: usize = 0;
            while j < n
                invariant
                    i < n,
                    j <= n,
                    row@.len() == j,
                    forall|b: int| 0 <= b < j ==> (#[trigger] row@[b]) == Some((i, b as usize)),
                decreases n - j,
            {
                row.push(Some((i, j)));
                j = j + 1;
            }
            rows.push(row);
            i = i + 1;
        }
        let start = crate::player::now_millis();
        let ghost attached = transport.is_attached();
        let mut state = TileState {
            ref_board: rows,
            blank_cell: (0, 0),
            tile_blank_cell: (0, 0),
            hole_made: false,
            previous_swap: None,
            total_moves: 0,
            game_stage: GameStage::StartingAnimation,
            transport,
            peer,
            puzzle_statistics: None,
            start_millis: start,
            history: Ghost(Seq::empty()),
        };
        proof {
            lemma_init_board_props(n as int);
            assert(state.board() =~~= spec_init_board(n as int));
            assert(state.wf());
            assert(state.transport.is_attached() == attached);
        }
        if !peer {
            match state.delete_random_tile(None) {
                Ok(()) => {},
                Err(e) => {
                    return Err(e);
                },
            }
            let mut k: u32 = 0;
            while k < TOTAL_SCRAMBLE_SWAPS
                invariant
                    k <= TOTAL_SCRAMBLE_SWAPS,
                    !peer,
                    state.wf(),
                    state.hole_made,
                    !state.peer,
                    state.side_len() == n,
                    state.game_stage is StartingAnimation,
                    state.total_moves == 0,
                    state.puzzle_statistics is None,
                    !(state.previous_swap is None) || k == 0,
                    attached == transport.is_attached(),
                    state.transport.is_attached() == attached,
                    state.history@.len() == 1 + k,
                    state.history@[0] is DeleteRandomTile,
                    forall|t: int|
                        1 <= t < state.history@.len() ==> (#[trigger] state.history@[t])
                            is SwapTiles,
                decreases TOTAL_SCRAMBLE_SWAPS - k,
            {
                match state.swap_random_tile_blank() {
                    Ok(()) => {},
                    Err(e) => {
                        return Err(e);
                    },
                }
                k = k + 1;
            }
        }
        Ok(state)
    }

    /// A board for single-player play: authoritative, with no session
    /// attached — so construction always succeeds.
    pub fn new_singleplayer(num_rows_cols: usize) -> (r: Result<TileState, ChannelClosed>)
        requires
            2 <= num_rows_cols,
        ensures
            r is Ok,
            r matches Ok(s) ==> s.wf() && !s.peer && s.side_len() == num_rows_cols
                && creator_setup_history(s.history@),
    {
        TileState::new(num_rows_cols, TileMultiplayerTransport::new(None), false)
    }
}

/// The replicas agree: two well-formed boards of the same size whose
/// histories hold the same messages in the same order are the same board —
/// in particular, a mirror that has applied everything the authority
/// emitted shows exactly the authority's board.
pub proof fn lemma_mirror_matches_authority(auth: &TileState, mirror: &TileState)
    requires
        auth.wf(),
        mirror.wf(),
        auth.side_len() == mirror.side_len(),
        auth.history@ == mirror.history@,
    ensures
        auth.board() == mirror.board(),
{
}

} // verus!
