use vstd::prelude::*;
use crate::board::side_targets;
use crate::square::{
    Move, PlayerName, Square, SquareContent, cell, cells_wf, dest, hops, in_bounds, landable, only_if,
    ray, rays, targets_at,
};

verus! {

/// An empty square has no destinations, wherever it lies.
pub proof fn lemma_empty_square_has_no_moves(cells: Seq<Square>, f: int, r: int)
    requires
        cells_wf(cells),
        in_bounds(f, r),
        cell(cells, f, r).content == SquareContent::EMPTY,
    ensures
        targets_at(cells, f, r) == Seq::<Move>::empty(),
{
}

/// A king has no destinations: king moves are not generated.
pub proof fn lemma_king_has_no_moves(cells: Seq<Square>, f: int, r: int)
    requires
        cells_wf(cells),
        in_bounds(f, r),
        cell(cells, f, r).content == SquareContent::KING,
    ensures
        targets_at(cells, f, r) == Seq::<Move>::empty(),
{
}

/// A knight in the corner (0, 0) can reach only (2, 1) and (1, 2), and reaches each of
/// them exactly when it is empty or holds an opposing piece, whatever stands elsewhere.
pub proof fn lemma_corner_knight(cells: Seq<Square>)
    requires
        cells_wf(cells),
        cell(cells, 0, 0).content == SquareContent::KNIGHT,
    ensures
        targets_at(cells, 0, 0) == only_if(landable(cell(cells, 2, 1), cell(cells, 0, 0).belongs_to), dest(2, 1))
            + only_if(landable(cell(cells, 1, 2), cell(cells, 0, 0).belongs_to), dest(1, 2)),
{
    let side = cell(cells, 0, 0).belongs_to;
    reveal_with_fuel(crate::square::hops, 9);
    let offs = crate::square::knight_offsets();
    assert(offs.drop_last().drop_last().drop_last() =~= offs.take(5));
    assert(offs.take(5).drop_last() =~= offs.take(4));
    assert(offs.take(4).drop_last().drop_last().drop_last().drop_last() =~= Seq::<(isize, isize)>::empty());
    assert(targets_at(cells, 0, 0) =~= only_if(landable(cell(cells, 2, 1), side), dest(2, 1))
        + only_if(landable(cell(cells, 1, 2), side), dest(1, 2)));
}

/// A WHITE pawn on its home rank advances one and two squares when both squares ahead
/// are empty, and advances not at all when the square directly ahead is occupied.
pub proof fn lemma_white_pawn_pushes(cells: Seq<Square>, f: int)
    requires
        cells_wf(cells),
        0 <= f < 8,
        cell(cells, f, 6).content == SquareContent::PAWN,
        cell(cells, f, 6).belongs_to == PlayerName::WHITE,
    ensures
        cell(cells, f, 5).content == SquareContent::EMPTY && cell(cells, f, 4).content
            == SquareContent::EMPTY ==> targets_at(cells, f, 6).contains(dest(f, 5))
            && targets_at(cells, f, 6).contains(dest(f, 4)),
        cell(cells, f, 5).content != SquareContent::EMPTY ==> !targets_at(cells, f, 6).contains(dest(f, 5))
            && !targets_at(cells, f, 6).contains(dest(f, 4)),
{
    let t = targets_at(cells, f, 6);
    if cell(cells, f, 5).content == SquareContent::EMPTY && cell(cells, f, 4).content == SquareContent::EMPTY {
        assert(t[0] == dest(f, 5));
        assert(t[1] == dest(f, 4));
    }
    if cell(cells, f, 5).content != SquareContent::EMPTY {
        assert forall|i: int| 0 <= i < t.len() implies t[i].0 != f as usize by {}
    }
}

/// A WHITE pawn takes diagonally ahead exactly where a BLACK piece stands: never an own
/// piece, never an empty square.
pub proof fn lemma_white_pawn_captures(cells: Seq<Square>, f: int, r: int, nf: int)
    requires
        cells_wf(cells),
        in_bounds(f, r),
        cell(cells, f, r).content == SquareContent::PAWN,
        cell(cells, f, r).belongs_to == PlayerName::WHITE,
        in_bounds(nf, r - 1),
        nf == f - 1 || nf == f + 1,
    ensures
        targets_at(cells, f, r).contains(dest(nf, r - 1)) <==> cell(cells, nf, r - 1).belongs_to
            == PlayerName::BLACK,
{
    let t = targets_at(cells, f, r);
    if cell(cells, nf, r - 1).belongs_to == PlayerName::BLACK {
        let pre = only_if(
            crate::square::pawn_single(cells, PlayerName::WHITE, f, r),
            dest(f, r - 1),
        ) + only_if(crate::square::pawn_double(cells, PlayerName::WHITE, f, r), dest(f, r - 2));
        if nf == f - 1 {
            assert(t[pre.len() as int] == dest(nf, r - 1));
        } else {
            let mid = pre + only_if(crate::square::pawn_capture(cells, PlayerName::WHITE, f - 1, r), dest(f - 1, r - 1));
            assert(t[mid.len() as int] == dest(nf, r - 1));
        }
    } else {
        assert forall|i: int| 0 <= i < t.len() implies t[i] != dest(nf, r - 1) by {}
    }
}

/// The side query and the square query agree: for every square, the side query reports
/// exactly the square's destinations when `player` owns it, and nothing otherwise.
pub proof fn lemma_side_query_matches_square_query(cells: Seq<Square>, player: PlayerName, f: int, r: int)
    requires
        cells_wf(cells),
        in_bounds(f, r),
    ensures
        cell(cells, f, r).belongs_to == player ==> side_targets(cells, player, f, r) == targets_at(cells, f, r),
        cell(cells, f, r).belongs_to != player ==> side_targets(cells, player, f, r) == Seq::<Move>::empty(),
{
}

/// Every move in `ms` lands on the board, on a square that `side` may land on.
pub open spec fn all_landable(cells: Seq<Square>, side: PlayerName, ms: Seq<Move>) -> bool {
    forall|i: int|
        0 <= i < ms.len() ==> in_bounds(#[trigger] ms[i].0 as int, ms[i].1 as int) && landable(
            cell(cells, ms[i].0 as int, ms[i].1 as int),
            side,
        )
}

proof fn lemma_concat_landable(cells: Seq<Square>, side: PlayerName, a: Seq<Move>, b: Seq<Move>)
    requires
        all_landable(cells, side, a),
        all_landable(cells, side, b),
    ensures
        all_landable(cells, side, a + b),
{
    assert forall|i: int| 0 <= i < (a + b).len() implies in_bounds(#[trigger] (a + b)[i].0 as int, (a + b)[i].1 as int)
        && landable(cell(cells, (a + b)[i].0 as int, (a + b)[i].1 as int), side) by {
        if i < a.len() {
            assert((a + b)[i] == a[i]);
        } else {
            assert((a + b)[i] == b[i - a.len()]);
        }
    }
}

proof fn lemma_ray_landable(cells: Seq<Square>, side: PlayerName, f: int, r: int, df: int, dr: int, reach: nat)
    ensures
        all_landable(cells, side, ray(cells, side, f, r, df, dr, reach)),
    decreases reach,
{
    if reach > 0 && in_bounds(f + df, r + dr) {
        let head = seq![dest(f + df, r + dr)];
        assert(all_landable(cells, side, head) || cell(cells, f + df, r + dr).content != SquareContent::EMPTY);
        if cell(cells, f + df, r + dr).content == SquareContent::EMPTY {
            lemma_ray_landable(cells, side, f + df, r + dr, df, dr, (reach - 1) as nat);
            lemma_concat_landable(
                cells,
                side,
                head,
                ray(cells, side, f + df, r + dr, df, dr, (reach - 1) as nat),
            );
        }
    }
}

proof fn lemma_rays_landable(cells: Seq<Square>, side: PlayerName, f: int, r: int, dirs: Seq<(isize, isize)>)
    ensures
        all_landable(cells, side, rays(cells, side, f, r, dirs)),
    decreases dirs.len(),
{
    if dirs.len() > 0 {
        let d = dirs.last();
        lemma_rays_landable(cells, side, f, r, dirs.drop_last());
        lemma_ray_landable(cells, side, f, r, d.0 as int, d.1 as int, crate::square::MAX_REACH as nat);
        lemma_concat_landable(
            cells,
            side,
            rays(cells, side, f, r, dirs.drop_last()),
            ray(cells, side, f, r, d.0 as int, d.1 as int, crate::square::MAX_REACH as nat),
        );
    }
}

proof fn lemma_hops_landable(cells: Seq<Square>, side: PlayerName, f: int, r: int, offs: Seq<(isize, isize)>)
    ensures
        all_landable(cells, side, hops(cells, side, f, r, offs)),
    decreases offs.len(),
{
    if offs.len() > 0 {
        let o = offs.last();
        let (nf, nr) = (f + o.0, r + o.1);
        lemma_hops_landable(cells, side, f, r, offs.drop_last());
        lemma_concat_landable(
            cells,
            side,
            hops(cells, side, f, r, offs.drop_last()),
            only_if(in_bounds(nf, nr) && landable(cell(cells, nf, nr), side), dest(nf, nr)),
        );
    }
}

/// Moves are pseudo-legal: every destination of every piece lies on the board and is
/// either empty or held by the other side.
pub proof fn lemma_moves_land_on_board(cells: Seq<Square>, f: int, r: int)
    requires
        cells_wf(cells),
        in_bounds(f, r),
    ensures
        all_landable(cells, cell(cells, f, r).belongs_to, targets_at(cells, f, r)),
{
    let sq = cell(cells, f, r);
    let side = sq.belongs_to;
    match sq.content {
        SquareContent::PAWN => {
            let t = targets_at(cells, f, r);
            assert forall|i: int| 0 <= i < t.len() implies in_bounds(#[trigger] t[i].0 as int, t[i].1 as int)
                && landable(cell(cells, t[i].0 as int, t[i].1 as int), side) by {}
        },
        SquareContent::KNIGHT => lemma_hops_landable(cells, side, f, r, crate::square::knight_offsets()),
        SquareContent::BISHOP => lemma_rays_landable(cells, side, f, r, crate::square::bishop_dirs()),
        SquareContent::ROOK => lemma_rays_landable(cells, side, f, r, crate::square::rook_dirs()),
        SquareContent::QUEEN => lemma_rays_landable(cells, side, f, r, crate::square::queen_dirs()),
        _ => {},
    }
}

} // verus!
