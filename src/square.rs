use vstd::prelude::*;

verus! {

/// The side a square's occupant belongs to; empty squares belong to `NEITHER`.
#[allow(non_camel_case_types)]
#[derive(Copy, Clone, Debug, PartialEq, Eq, Structural)]
pub enum PlayerName {
    WHITE,
    BLACK,
    NEITHER,
}

/// What stands on a square.
#[allow(non_camel_case_types)]
#[derive(Copy, Clone, Debug, PartialEq, Eq, Structural)]
pub enum SquareContent {
    PAWN,
    KNIGHT,
    BISHOP,
    ROOK,
    QUEEN,
    KING,
    EMPTY,
}

/// One cell of the board: its file `x`, its rank `y`, its occupant and the occupant's side.
#[derive(Copy, Clone, Debug, PartialEq, Eq, Structural)]
pub struct Square {
    pub x: usize,
    pub y: usize,
    pub content: SquareContent,
    pub belongs_to: PlayerName,
}

/// A destination: (file, rank).
pub type Move = (usize, usize);

/// Number of files and of ranks.
pub const SIZE: usize = 8;

/// Number of cells on the board.
pub const CELLS: usize = 64;

pub open spec fn in_bounds(f: int, r: int) -> bool {
    0 <= f < 8 && 0 <= r < 8
}

/// Position of the cell (f, r) in the row-major cell sequence.
pub open spec fn cell_index(f: int, r: int) -> int {
    r * 8 + f
}

pub open spec fn cell(cells: Seq<Square>, f: int, r: int) -> Square {
    cells[cell_index(f, r)]
}

impl Square {
    /// Coordinates on the board, and an empty square exactly when it belongs to nobody.
    pub open spec fn wf(self) -> bool {
        &&& self.x < 8
        &&& self.y < 8
        &&& (self.content == SquareContent::EMPTY) == (self.belongs_to == PlayerName::NEITHER)
    }
}

/// A well-formed grid: 64 well-formed cells, each carrying its own coordinates.
pub open spec fn cells_wf(cells: Seq<Square>) -> bool {
    &&& cells.len() == 64
    &&& forall|f: int, r: int|
        #![trigger cell(cells, f, r)]
        in_bounds(f, r) ==> {
            &&& cell(cells, f, r).x == f
            &&& cell(cells, f, r).y == r
            &&& cell(cells, f, r).wf()
        }
}

/// Sides that face each other.
pub open spec fn opposes(a: PlayerName, b: PlayerName) -> bool {
    (a == PlayerName::WHITE && b == PlayerName::BLACK) || (a == PlayerName::BLACK && b
        == PlayerName::WHITE)
}

/// A piece of `side` may capture on `sq`.
pub open spec fn capturable(sq: Square, side: PlayerName) -> bool {
    sq.content != SquareContent::EMPTY && opposes(sq.belongs_to, side)
}

/// A piece of `side` may land on `sq`: it is empty or holds an opposing piece.
pub open spec fn landable(sq: Square, side: PlayerName) -> bool {
    sq.content == SquareContent::EMPTY || capturable(sq, side)
}

pub open spec fn dest(f: int, r: int) -> Move {
    (f as usize, r as usize)
}

/// The squares a sliding piece of `side` standing on (f, r) reaches in direction (df, dr),
/// taking at most `reach` steps: empty squares are passed over, an opposing piece is taken
/// and ends the ray, an own piece ends it untaken.
pub open spec fn ray(
    cells: Seq<Square>,
    side: PlayerName,
    f: int,
    r: int,
    df: int,
    dr: int,
    reach: nat,
) -> Seq<Move>
    decreases reach,
{
    if reach == 0 || !in_bounds(f + df, r + dr) {
        seq![]
    } else {
        let sq = cell(cells, f + df, r + dr);
        if sq.content == SquareContent::EMPTY {
            seq![dest(f + df, r + dr)] + ray(cells, side, f + df, r + dr, df, dr, (reach - 1) as nat)
        } else if opposes(sq.belongs_to, side) {
            seq![dest(f + df, r + dr)]
        } else {
            seq![]
        }
    }
}

/// No ray on an 8×8 board is longer than this.
pub const MAX_REACH: usize = 7;

/// The rays in `dirs`, walked from (f, r) one after another.
pub open spec fn rays(cells: Seq<Square>, side: PlayerName, f: int, r: int, dirs: Seq<(isize, isize)>) -> Seq<Move>
    decreases dirs.len(),
{
    if dirs.len() == 0 {
        seq![]
    } else {
        let d = dirs.last();
        rays(cells, side, f, r, dirs.drop_last()) + ray(cells, side, f, r, d.0 as int, d.1 as int, MAX_REACH as nat)
    }
}

/// The offsets in `offs` that lead from (f, r) to a square on the board that `side` may land on.
pub open spec fn hops(cells: Seq<Square>, side: PlayerName, f: int, r: int, offs: Seq<(isize, isize)>) -> Seq<Move>
    decreases offs.len(),
{
    if offs.len() == 0 {
        seq![]
    } else {
        let o = offs.last();
        let nf = f + o.0;
        let nr = r + o.1;
        hops(cells, side, f, r, offs.drop_last()) + if in_bounds(nf, nr) && landable(cell(cells, nf, nr), side) {
            seq![dest(nf, nr)]
        } else {
            seq![]
        }
    }
}

pub open spec fn bishop_dirs() -> Seq<(isize, isize)> {
    seq![(1isize, 1isize), (1isize, -1isize), (-1isize, 1isize), (-1isize, -1isize)]
}

pub open spec fn rook_dirs() -> Seq<(isize, isize)> {
    seq![(1isize, 0isize), (-1isize, 0isize), (0isize, 1isize), (0isize, -1isize)]
}

pub open spec fn queen_dirs() -> Seq<(isize, isize)> {
    bishop_dirs() + rook_dirs()
}

pub open spec fn knight_offsets() -> Seq<(isize, isize)> {
    seq![
        (2isize, 1isize),
        (2isize, -1isize),
        (-2isize, 1isize),
        (-2isize, -1isize),
        (1isize, 2isize),
        (1isize, -2isize),
        (-1isize, 2isize),
        (-1isize, -2isize),
    ]
}

/// Rank direction of a pawn of `side`: WHITE moves towards rank 0, BLACK towards rank 7.
pub open spec fn pawn_dir(side: PlayerName) -> int {
    if side == PlayerName::WHITE {
        -1
    } else {
        1
    }
}

/// Rank from which a pawn of `side` may advance two squares.
pub open spec fn home_rank(side: PlayerName) -> int {
    if side == PlayerName::WHITE {
        6
    } else {
        1
    }
}

pub open spec fn pawn_single(cells: Seq<Square>, side: PlayerName, f: int, r: int) -> bool {
    in_bounds(f, r + pawn_dir(side)) && cell(cells, f, r + pawn_dir(side)).content
        == SquareContent::EMPTY
}

pub open spec fn pawn_double(cells: Seq<Square>, side: PlayerName, f: int, r: int) -> bool {
    &&& pawn_single(cells, side, f, r)
    &&& r == home_rank(side)
    &&& cell(cells, f, r + 2 * pawn_dir(side)).content == SquareContent::EMPTY
}

pub open spec fn pawn_capture(cells: Seq<Square>, side: PlayerName, nf: int, r: int) -> bool {
    in_bounds(nf, r + pawn_dir(side)) && capturable(cell(cells, nf, r + pawn_dir(side)), side)
}

pub open spec fn only_if(b: bool, m: Move) -> Seq<Move> {
    if b {
        seq![m]
    } else {
        seq![]
    }
}

/// A pawn's destinations, in order: one step ahead, two steps ahead, capture towards the
/// lower file, capture towards the higher file. En passant is not generated.
pub open spec fn pawn_targets(cells: Seq<Square>, side: PlayerName, f: int, r: int) -> Seq<Move> {
    let nr = r + pawn_dir(side);
    only_if(pawn_single(cells, side, f, r), dest(f, nr))
        + only_if(pawn_double(cells, side, f, r), dest(f, r + 2 * pawn_dir(side)))
        + only_if(pawn_capture(cells, side, f - 1, r), dest(f - 1, nr))
        + only_if(pawn_capture(cells, side, f + 1, r), dest(f + 1, nr))
}

/// The destinations of the occupant of `sq` on the grid `cells`. Kings are not moved.
pub open spec fn piece_targets(cells: Seq<Square>, sq: Square) -> Seq<Move> {
    let (f, r, side) = (sq.x as int, sq.y as int, sq.belongs_to);
    match sq.content {
        SquareContent::PAWN => pawn_targets(cells, side, f, r),
        SquareContent::KNIGHT => hops(cells, side, f, r, knight_offsets()),
        SquareContent::BISHOP => rays(cells, side, f, r, bishop_dirs()),
        SquareContent::ROOK => rays(cells, side, f, r, rook_dirs()),
        SquareContent::QUEEN => rays(cells, side, f, r, queen_dirs()),
        SquareContent::KING => seq![],
        SquareContent::EMPTY => seq![],
    }
}

/// The destinations of whatever stands on (f, r).
pub open spec fn targets_at(cells: Seq<Square>, f: int, r: int) -> Seq<Move> {
    piece_targets(cells, cell(cells, f, r))
}

/// Steps a coordinate by `d`, returning the new coordinate when it stays on the board.
fn step(c: usize, d: isize) -> (r: Option<usize>)
    requires
        c < 8,
        -2 <= d <= 2,
    ensures
        r == (if 0 <= c + d < 8 {
            Some((c + d) as usize)
        } else {
            None::<usize>
        }),
{
    let n: isize = c as isize + d;
    if 0 <= n && n < 8 {
        Some(n as usize)
    } else {
        None
    }
}

fn at(cells: &Vec<Square>, f: usize, r: usize) -> (sq: Square)
    requires
        cells_wf(cells@),
        f < 8,
        r < 8,
    ensures
        sq == cell(cells@, f as int, r as int),
{
    cells[r * SIZE + f]
}

impl Square {
    /// Appends to `moves` the ray from this square in direction (df, dr).
    fn walk_ray(&self, cells: &Vec<Square>, df: isize, dr: isize, moves: &mut Vec<Move>)
        requires
            cells_wf(cells@),
            self.wf(),
            self.belongs_to != PlayerName::NEITHER,
            -1 <= df <= 1,
            -1 <= dr <= 1,
        ensures
            final(moves)@ == old(moves)@ + ray(
                cells@,
                self.belongs_to,
                self.x as int,
                self.y as int,
                df as int,
                dr as int,
                MAX_REACH as nat,
            ),
    {
        let ghost start = old(moves)@;
        let mut f: usize = self.x;
        let mut r: usize = self.y;
        let mut reach: usize = MAX_REACH;
        while reach > 0
            invariant
                cells_wf(cells@),
                self.wf(),
                self.belongs_to != PlayerName::NEITHER,
                -1 <= df <= 1,
                -1 <= dr <= 1,
                f < 8,
                r < 8,
                reach <= MAX_REACH,
                start + ray(cells@, self.belongs_to, self.x as int, self.y as int, df as int, dr as int, MAX_REACH as nat)
                    == moves@ + ray(cells@, self.belongs_to, f as int, r as int, df as int, dr as int, reach as nat),
            decreases reach,
        {
            let ghost (pf, pr, preach) = (f as int, r as int, reach as nat);
            let ghost before = moves@;
            match (step(f, df), step(r, dr)) {
                (Some(nf), Some(nr)) => {
                    let sq = at(cells, nf, nr);
                    if sq.content == SquareContent::EMPTY {
                        moves.push((nf, nr));
                        f = nf;
                        r = nr;
                        reach = reach - 1;
                        assert(moves@ == before + seq![dest(nf as int, nr as int)]);
                        assert(ray(cells@, self.belongs_to, pf, pr, df as int, dr as int, preach)
                            == seq![dest(nf as int, nr as int)] + ray(cells@, self.belongs_to, f as int, r as int, df as int, dr as int, reach as nat));
                        assert(before + ray(cells@, self.belongs_to, pf, pr, df as int, dr as int, preach)
                            =~= moves@ + ray(cells@, self.belongs_to, f as int, r as int, df as int, dr as int, reach as nat));
                    } else {
                        if sq.belongs_to != self.belongs_to {
                            moves.push((nf, nr));
                        }
                        reach = 0;
                        assert(before + ray(cells@, self.belongs_to, pf, pr, df as int, dr as int, preach)
                            =~= moves@ + ray(cells@, self.belongs_to, f as int, r as int, df as int, dr as int, reach as nat));
                    }
                },
                _ => {
                    reach = 0;
                    assert(before + ray(cells@, self.belongs_to, pf, pr, df as int, dr as int, preach)
                        =~= moves@ + ray(cells@, self.belongs_to, f as int, r as int, df as int, dr as int, reach as nat));
                },
            }
        }
        assert(ray(cells@, self.belongs_to, f as int, r as int, df as int, dr as int, 0) == Seq::<Move>::empty());
        assert(moves@ =~= moves@ + Seq::<Move>::empty());
    }
}


fn bishop_directions() -> (v: Vec<(isize, isize)>)
    ensures
        v@ == bishop_dirs(),
{
    let mut v: Vec<(isize, isize)> = Vec::new();
    v.push((1, 1));
    v.push((1, -1));
    v.push((-1, 1));
    v.push((-1, -1));
    assert(v@ =~= bishop_dirs());
    v
}

fn rook_directions() -> (v: Vec<(isize, isize)>)
    ensures
        v@ == rook_dirs(),
{
    let mut v: Vec<(isize, isize)> = Vec::new();
    v.push((1, 0));
    v.push((-1, 0));
    v.push((0, 1));
    v.push((0, -1));
    assert(v@ =~= rook_dirs());
    v
}

fn knight_jumps() -> (v: Vec<(isize, isize)>)
    ensures
        v@ == knight_offsets(),
{
    let mut v: Vec<(isize, isize)> = Vec::new();
    v.push((2, 1));
    v.push((2, -1));
    v.push((-2, 1));
    v.push((-2, -1));
    v.push((1, 2));
    v.push((1, -2));
    v.push((-1, 2));
    v.push((-1, -2));
    assert(v@ =~= knight_offsets());
    v
}

impl Square {
    /// Walks every direction of `dirs` in turn, each ray on its own.
    fn slide_moves(&self, cells: &Vec<Square>, dirs: &Vec<(isize, isize)>) -> (moves: Vec<Move>)
        requires
            cells_wf(cells@),
            self.wf(),
            self.belongs_to != PlayerName::NEITHER,
            forall|i: int| 0 <= i < dirs@.len() ==> -1 <= #[trigger] dirs@[i].0 <= 1 && -1 <= dirs@[i].1 <= 1,
        ensures
            moves@ == rays(cells@, self.belongs_to, self.x as int, self.y as int, dirs@),
    {
        let mut moves: Vec<Move> = Vec::new();
        let mut i: usize = 0;
        while i < dirs.len()
            invariant
                cells_wf(cells@),
                self.wf(),
                self.belongs_to != PlayerName::NEITHER,
                forall|i: int| 0 <= i < dirs@.len() ==> -1 <= #[trigger] dirs@[i].0 <= 1 && -1 <= dirs@[i].1 <= 1,
                i <= dirs@.len(),
                moves@ == rays(cells@, self.belongs_to, self.x as int, self.y as int, dirs@.take(i as int)),
            decreases dirs.len() - i,
        {
            let (df, dr) = dirs[i];
            self.walk_ray(cells, df, dr, &mut moves);
            assert(dirs@.take(i + 1).drop_last() =~= dirs@.take(i as int));
            i = i + 1;
        }
        assert(dirs@.take(i as int) =~= dirs@);
        moves
    }

    fn knight_moves(&self, cells: &Vec<Square>) -> (moves: Vec<Move>)
        requires
            cells_wf(cells@),
            self.wf(),
            self.belongs_to != PlayerName::NEITHER,
        ensures
            moves@ == hops(cells@, self.belongs_to, self.x as int, self.y as int, knight_offsets()),
    {
        let offs = knight_jumps();
        let mut moves: Vec<Move> = Vec::new();
        let mut i: usize = 0;
        while i < offs.len()
            invariant
                cells_wf(cells@),
                self.wf(),
                self.belongs_to != PlayerName::NEITHER,
                offs@ == knight_offsets(),
                i <= offs@.len(),
                moves@ == hops(cells@, self.belongs_to, self.x as int, self.y as int, offs@.take(i as int)),
            decreases offs.len() - i,
        {
            let (df, dr) = offs[i];
            assert(offs@.take(i + 1).drop_last() =~= offs@.take(i as int));
            match (step(self.x, df), step(self.y, dr)) {
                (Some(nf), Some(nr)) => {
                    let sq = at(cells, nf, nr);
                    if sq.content == SquareContent::EMPTY || sq.belongs_to != self.belongs_to {
                        moves.push((nf, nr));
                    }
                },
                _ => {},
            }
            i = i + 1;
        }
        assert(offs@.take(i as int) =~= offs@);
        moves
    }

    fn bishop_moves(&self, cells: &Vec<Square>) -> (moves: Vec<Move>)
        requires
            cells_wf(cells@),
            self.wf(),
            self.belongs_to != PlayerName::NEITHER,
        ensures
            moves@ == rays(cells@, self.belongs_to, self.x as int, self.y as int, bishop_dirs()),
    {
        let dirs = bishop_directions();
        self.slide_moves(cells, &dirs)
    }

    fn rook_moves(&self, cells: &Vec<Square>) -> (moves: Vec<Move>)
        requires
            cells_wf(cells@),
            self.wf(),
            self.belongs_to != PlayerName::NEITHER,
        ensures
            moves@ == rays(cells@, self.belongs_to, self.x as int, self.y as int, rook_dirs()),
    {
        let dirs = rook_directions();
        self.slide_moves(cells, &dirs)
    }

    fn queen_moves(&self, cells: &Vec<Square>) -> (moves: Vec<Move>)
        requires
            cells_wf(cells@),
            self.wf(),
            self.belongs_to != PlayerName::NEITHER,
        ensures
            moves@ == rays(cells@, self.belongs_to, self.x as int, self.y as int, queen_dirs()),
    {
        let mut dirs = bishop_directions();
        let mut rook = rook_directions();
        dirs.append(&mut rook);
        self.slide_moves(cells, &dirs)
    }
}

impl Square {
    fn pawn_moves(&self, cells: &Vec<Square>) -> (moves: Vec<Move>)
        requires
            cells_wf(cells@),
            self.wf(),
            self.belongs_to != PlayerName::NEITHER,
        ensures
            moves@ == pawn_targets(cells@, self.belongs_to, self.x as int, self.y as int),
    {
        let ghost (f, r, side) = (self.x as int, self.y as int, self.belongs_to);
        let white = self.belongs_to == PlayerName::WHITE;
        let d: isize = if white { -1 } else { 1 };
        let home: usize = if white { 6 } else { 1 };
        let mut moves: Vec<Move> = Vec::new();
        let ghost m0 = moves@;
        if let Some(nr) = step(self.y, d) {
            if at(cells, self.x, nr).content == SquareContent::EMPTY {
                moves.push((self.x, nr));
                if self.y == home {
                    // on the home rank the square two ahead is on the board
                    let far = step(self.y, 2 * d).unwrap();
                    if at(cells, self.x, far).content == SquareContent::EMPTY {
                        moves.push((self.x, far));
                    }
                }
            }
        }
        let ghost m1 = moves@;
        assert(m1 =~= only_if(pawn_single(cells@, side, f, r), dest(f, r + pawn_dir(side)))
            + only_if(pawn_double(cells@, side, f, r), dest(f, r + 2 * pawn_dir(side))));
        if let Some(nr) = step(self.y, d) {
            if let Some(nf) = step(self.x, -1) {
                let sq = at(cells, nf, nr);
                if sq.content != SquareContent::EMPTY && sq.belongs_to != self.belongs_to {
                    moves.push((nf, nr));
                }
            }
        }
        let ghost m2 = moves@;
        assert(m2 =~= m1 + only_if(pawn_capture(cells@, side, f - 1, r), dest(f - 1, r + pawn_dir(side))));
        if let Some(nr) = step(self.y, d) {
            if let Some(nf) = step(self.x, 1) {
                let sq = at(cells, nf, nr);
                if sq.content != SquareContent::EMPTY && sq.belongs_to != self.belongs_to {
                    moves.push((nf, nr));
                }
            }
        }
        assert(moves@ =~= m2 + only_if(pawn_capture(cells@, side, f + 1, r), dest(f + 1, r + pawn_dir(side))));
        moves
    }

    /// The destinations of this square's occupant on the grid `cells`.
    pub(crate) fn get_moves(&self, cells: &Vec<Square>) -> (moves: Vec<Move>)
        requires
            cells_wf(cells@),
            self.wf(),
        ensures
            moves@ == piece_targets(cells@, *self),
    {
        match self.content {
            SquareContent::PAWN => self.pawn_moves(cells),
            SquareContent::KNIGHT => self.knight_moves(cells),
            SquareContent::BISHOP => self.bishop_moves(cells),
            SquareContent::ROOK => self.rook_moves(cells),
            SquareContent::QUEEN => self.queen_moves(cells),
            SquareContent::KING => Vec::new(),
            SquareContent::EMPTY => Vec::new(),
        }
    }
}

} // verus!
