use vstd::prelude::*;
use crate::decode::{BoardError, SquareRecord, decode_record, decode_spec};
use crate::square::{
    CELLS, Move, PlayerName, SIZE, Square, SquareContent, cell, cell_index, cells_wf, in_bounds,
    targets_at,
};

verus! {

/// The grid before any record is applied: every cell empty, at its own coordinates.
pub open spec fn empty_cells() -> Seq<Square> {
    Seq::new(
        64,
        |i: int|
            Square {
                x: (i % 8) as usize,
                y: (i / 8) as usize,
                content: SquareContent::EMPTY,
                belongs_to: PlayerName::NEITHER,
            },
    )
}

/// The grid that the records describe, applied in order: a later record for a cell
/// replaces an earlier one.
pub open spec fn board_from(recs: Seq<SquareRecord>) -> Seq<Square>
    decreases recs.len(),
{
    if recs.len() == 0 {
        empty_cells()
    } else {
        let prev = board_from(recs.drop_last());
        match decode_spec(recs.last()) {
            Some(sq) => prev.update(cell_index(sq.x as int, sq.y as int), sq),
            None => prev,
        }
    }
}

pub open spec fn all_decodable(recs: Seq<SquareRecord>) -> bool {
    forall|i: int| 0 <= i < recs.len() ==> (#[trigger] decode_spec(recs[i])).is_some()
}

/// What the side query reports for (f, r): the destinations of the piece there when it
/// belongs to `player`, and nothing otherwise.
pub open spec fn side_targets(cells: Seq<Square>, player: PlayerName, f: int, r: int) -> Seq<Move> {
    if cell(cells, f, r).belongs_to == player {
        targets_at(cells, f, r)
    } else {
        seq![]
    }
}

/// An 8×8 chess board, read-only once built.
pub struct Board {
    board_state: Vec<Square>,
}

impl View for Board {
    type V = Seq<Square>;

    /// The cells in row-major order: rank by rank, file by file within a rank.
    closed spec fn view(&self) -> Seq<Square> {
        self.board_state@
    }
}

proof fn lemma_empty_cells_wf()
    ensures
        cells_wf(empty_cells()),
{
    assert forall|f: int, r: int| #![trigger cell(empty_cells(), f, r)] in_bounds(f, r) implies {
        &&& cell(empty_cells(), f, r).x == f
        &&& cell(empty_cells(), f, r).y == r
        &&& cell(empty_cells(), f, r).wf()
    } by {
        assert((r * 8 + f) % 8 == f && (r * 8 + f) / 8 == r) by (nonlinear_arith)
            requires
                0 <= f < 8,
                0 <= r < 8,
        ;
    }
}

impl Board {
    pub open spec fn wf(&self) -> bool {
        cells_wf(self@)
    }

    /// Builds the board that `board_description` describes. Cells that no record names
    /// stay empty; where two records name one cell, the later one wins. Any malformed
    /// record fails the whole construction.
    pub fn new(board_description: &Vec<SquareRecord>) -> (r: Result<Board, BoardError>)
        ensures
            r is Ok <==> all_decodable(board_description@),
            r matches Ok(b) ==> b.wf() && b@ == board_from(board_description@),
            r matches Err(e) ==> e == BoardError::DecodeError,
    {
        let mut board_state: Vec<Square> = Vec::new();
        let mut i: usize = 0;
        while i < CELLS
            invariant
                i <= CELLS,
                board_state@ == empty_cells().take(i as int),
            decreases CELLS - i,
        {
            board_state.push(
                Square {
                    x: i % SIZE,
                    y: i / SIZE,
                    content: SquareContent::EMPTY,
                    belongs_to: PlayerName::NEITHER,
                },
            );
            i = i + 1;
            assert(board_state@ =~= empty_cells().take(i as int));
        }
        proof {
            assert(board_state@ =~= empty_cells());
            lemma_empty_cells_wf();
        }
        let ghost recs = board_description@;
        let mut j: usize = 0;
        while j < board_description.len()
            invariant
                recs == board_description@,
                j <= recs.len(),
                cells_wf(board_state@),
                board_state@ == board_from(recs.take(j as int)),
                all_decodable(recs.take(j as int)),
            decreases recs.len() - j,
        {
            assert(recs.take(j + 1).drop_last() =~= recs.take(j as int));
            assert(recs.take(j + 1).last() == recs[j as int]);
            match decode_record(&board_description[j]) {
                Ok(sq) => {
                    let ghost before = board_state@;
                    board_state.set(sq.y * SIZE + sq.x, sq);
                    assert forall|f: int, r: int| #![trigger cell(board_state@, f, r)] in_bounds(f, r) implies {
                        &&& cell(board_state@, f, r).x == f
                        &&& cell(board_state@, f, r).y == r
                        &&& cell(board_state@, f, r).wf()
                    } by {
                        if f == sq.x as int && r == sq.y as int {
                            assert(cell(board_state@, f, r) == sq);
                        } else {
                            assert(cell_index(f, r) != cell_index(sq.x as int, sq.y as int));
                            assert(cell(board_state@, f, r) == cell(before, f, r));
                        }
                    }
                    assert(all_decodable(recs.take(j + 1))) by {
                        assert forall|k: int| 0 <= k < j + 1 implies (#[trigger] decode_spec(recs.take(j + 1)[k])).is_some() by {
                            if k < j {
                                assert(recs.take(j + 1)[k] == recs.take(j as int)[k]);
                            }
                        }
                    }
                },
                Err(e) => {
                    assert(!all_decodable(recs)) by {
                        assert(decode_spec(recs[j as int]).is_none());
                    }
                    return Err(e);
                },
            }
            j = j + 1;
        }
        assert(recs.take(j as int) =~= recs);
        Ok(Board { board_state })
    }

    /// The destinations of the piece on file `x`, rank `y`.
    pub fn get_moves(&self, x: usize, y: usize) -> (moves: Vec<Move>)
        requires
            self.wf(),
            x < 8,
            y < 8,
        ensures
            moves@ == targets_at(self@, x as int, y as int),
    {
        let sq = self.board_state[y * SIZE + x];
        assert(sq == cell(self@, x as int, y as int));
        sq.get_moves(&self.board_state)
    }

    /// Like `get_moves`, but refuses a coordinate off the board.
    pub fn moves_at(&self, x: usize, y: usize) -> (r: Result<Vec<Move>, BoardError>)
        requires
            self.wf(),
        ensures
            r is Err <==> !in_bounds(x as int, y as int),
            r matches Err(e) ==> e == BoardError::OutOfBounds,
            r matches Ok(moves) ==> moves@ == targets_at(self@, x as int, y as int),
    {
        if x < SIZE && y < SIZE {
            Ok(self.get_moves(x, y))
        } else {
            Err(BoardError::OutOfBounds)
        }
    }

    /// Every destination of every piece of `player`, indexed by rank then file of the
    /// piece's square; squares without such a piece map to an empty list.
    pub fn get_available_moves(&self, player: PlayerName) -> (r: Vec<Vec<Vec<Move>>>)
        requires
            self.wf(),
        ensures
            r@.len() == 8,
            forall|y: int| 0 <= y < 8 ==> (#[trigger] r@[y])@.len() == 8,
            forall|x: int, y: int|
                in_bounds(x, y) ==> (#[trigger] r@[y]@[x])@ == side_targets(self@, player, x, y),
    {
        let mut rows: Vec<Vec<Vec<Move>>> = Vec::new();
        let mut y: usize = 0;
        while y < SIZE
            invariant
                self.wf(),
                y <= 8,
                rows@.len() == y,
                forall|yy: int| 0 <= yy < y ==> (#[trigger] rows@[yy])@.len() == 8,
                forall|x: int, yy: int|
                    0 <= x < 8 && 0 <= yy < y ==> (#[trigger] rows@[yy]@[x])@ == side_targets(self@, player, x, yy),
            decreases SIZE - y,
        {
            let mut row: Vec<Vec<Move>> = Vec::new();
            let mut x: usize = 0;
            while x < SIZE
                invariant
                    self.wf(),
                    y < 8,
                    x <= 8,
                    row@.len() == x,
                    forall|xx: int| 0 <= xx < x ==> (#[trigger] row@[xx])@ == side_targets(self@, player, xx, y as int),
                decreases SIZE - x,
            {
                let sq = self.board_state[y * SIZE + x];
                assert(sq == cell(self@, x as int, y as int));
                if sq.belongs_to == player {
                    row.push(sq.get_moves(&self.board_state));
                } else {
                    row.push(Vec::new());
                }
                x = x + 1;
            }
            rows.push(row);
            y = y + 1;
        }
        rows
    }
}

} // verus!
