use plakychess::{Board, BoardError, Move, PlayerName, SquareRecord};

fn rec(x: usize, y: usize, figure: &str, owner: &str) -> SquareRecord {
    SquareRecord {
        x: x.to_string(),
        y: y.to_string(),
        figure: figure.to_string(),
        belongs_to: owner.to_string(),
    }
}

fn build(recs: Vec<SquareRecord>) -> Board {
    match Board::new(&recs) {
        Ok(b) => b,
        Err(e) => panic!("board refused: {:?}", e),
    }
}

fn sorted(mut v: Vec<Move>) -> Vec<Move> {
    v.sort();
    v
}

fn opening() -> Board {
    let back = ["ROOK", "KNIGHT", "BISHOP", "QUEEN", "KING", "BISHOP", "KNIGHT", "ROOK"];
    let mut recs = Vec::new();
    for f in 0..8 {
        recs.push(rec(f, 0, back[f], "BLACK"));
        recs.push(rec(f, 1, "PAWN", "BLACK"));
        recs.push(rec(f, 6, "PAWN", "WHITE"));
        recs.push(rec(f, 7, back[f], "WHITE"));
    }
    build(recs)
}

#[test]
fn empty_squares_have_no_moves() {
    let b = build(vec![rec(3, 3, "ROOK", "WHITE")]);
    for y in 0..8 {
        for x in 0..8 {
            if (x, y) != (3, 3) {
                assert!(b.get_moves(x, y).is_empty());
            }
        }
    }
    let explicit = build(vec![rec(5, 2, "EMPTY", "NEITHER")]);
    assert!(explicit.get_moves(5, 2).is_empty());
}

#[test]
fn king_has_no_moves() {
    let b = build(vec![rec(4, 4, "KING", "WHITE"), rec(4, 0, "KING", "BLACK")]);
    assert!(b.get_moves(4, 4).is_empty());
    assert!(b.get_moves(4, 0).is_empty());
}

#[test]
fn corner_knight_reaches_two_squares() {
    let b = build(vec![rec(0, 0, "KNIGHT", "WHITE")]);
    assert_eq!(sorted(b.get_moves(0, 0)), vec![(1, 2), (2, 1)]);
    // pieces on the way do not block a knight; an enemy on a destination is taken
    let crowded = build(vec![
        rec(0, 0, "KNIGHT", "WHITE"),
        rec(1, 0, "PAWN", "WHITE"),
        rec(0, 1, "PAWN", "WHITE"),
        rec(1, 1, "PAWN", "BLACK"),
        rec(1, 2, "BISHOP", "BLACK"),
        rec(2, 1, "ROOK", "BLACK"),
    ]);
    assert_eq!(crowded.get_moves(0, 0), vec![(2, 1), (1, 2)]);
    let own = build(vec![rec(0, 0, "KNIGHT", "BLACK"), rec(2, 1, "PAWN", "BLACK")]);
    assert_eq!(own.get_moves(0, 0), vec![(1, 2)]);
}

#[test]
fn rook_in_the_middle_has_fourteen_moves() {
    let b = build(vec![rec(3, 3, "ROOK", "WHITE")]);
    let moves = b.get_moves(3, 3);
    assert_eq!(moves.len(), 14);
    let mut expected = Vec::new();
    for i in 0..8 {
        if i != 3 {
            expected.push((i, 3));
            expected.push((3, i));
        }
    }
    assert_eq!(sorted(moves), sorted(expected));
}

#[test]
fn bishop_in_the_middle_reaches_every_diagonal_square() {
    let b = build(vec![rec(3, 3, "BISHOP", "WHITE")]);
    let moves = b.get_moves(3, 3);
    // 4 towards (7, 7) and 3 in each of the other diagonal directions
    assert_eq!(moves.len(), 13);
    assert_eq!(
        moves,
        vec![
            (4, 4), (5, 5), (6, 6), (7, 7),
            (4, 2), (5, 1), (6, 0),
            (2, 4), (1, 5), (0, 6),
            (2, 2), (1, 1), (0, 0),
        ]
    );
}

#[test]
fn queen_joins_bishop_and_rook_rays() {
    let b = build(vec![rec(0, 7, "QUEEN", "WHITE")]);
    let moves = b.get_moves(0, 7);
    assert_eq!(moves.len(), 21);
    assert_eq!(moves[0], (1, 6));
    assert!(moves.contains(&(7, 0)));
    assert!(moves.contains(&(7, 7)));
    assert!(moves.contains(&(0, 0)));
}

#[test]
fn sliding_rays_stop_at_pieces() {
    let b = build(vec![
        rec(3, 3, "ROOK", "WHITE"),
        rec(5, 3, "PAWN", "BLACK"),
        rec(3, 1, "PAWN", "WHITE"),
    ]);
    assert_eq!(
        b.get_moves(3, 3),
        vec![(4, 3), (5, 3), (2, 3), (1, 3), (0, 3), (3, 4), (3, 5), (3, 6), (3, 7), (3, 2)]
    );
}

#[test]
fn white_pawn_pushes_from_home_rank() {
    let b = build(vec![rec(4, 6, "PAWN", "WHITE")]);
    assert_eq!(b.get_moves(4, 6), vec![(4, 5), (4, 4)]);
    let far_blocked = build(vec![rec(4, 6, "PAWN", "WHITE"), rec(4, 4, "PAWN", "BLACK")]);
    assert_eq!(far_blocked.get_moves(4, 6), vec![(4, 5)]);
    let blocked = build(vec![rec(4, 6, "PAWN", "WHITE"), rec(4, 5, "KNIGHT", "BLACK")]);
    assert!(blocked.get_moves(4, 6).is_empty());
    let own_blocked = build(vec![rec(4, 6, "PAWN", "WHITE"), rec(4, 5, "KNIGHT", "WHITE")]);
    assert!(own_blocked.get_moves(4, 6).is_empty());
    let away = build(vec![rec(4, 5, "PAWN", "WHITE")]);
    assert_eq!(away.get_moves(4, 5), vec![(4, 4)]);
}

#[test]
fn black_pawn_pushes_from_home_rank() {
    let b = build(vec![rec(2, 1, "PAWN", "BLACK")]);
    assert_eq!(b.get_moves(2, 1), vec![(2, 2), (2, 3)]);
    let far_blocked = build(vec![rec(2, 1, "PAWN", "BLACK"), rec(2, 3, "PAWN", "WHITE")]);
    assert_eq!(far_blocked.get_moves(2, 1), vec![(2, 2)]);
    let last_rank = build(vec![rec(2, 7, "PAWN", "BLACK")]);
    assert!(last_rank.get_moves(2, 7).is_empty());
}

#[test]
fn white_pawn_captures_only_enemies() {
    let b = build(vec![
        rec(4, 4, "PAWN", "WHITE"),
        rec(3, 3, "PAWN", "BLACK"),
        rec(5, 3, "PAWN", "WHITE"),
    ]);
    assert_eq!(b.get_moves(4, 4), vec![(4, 3), (3, 3)]);
    let both = build(vec![
        rec(4, 4, "PAWN", "WHITE"),
        rec(3, 3, "PAWN", "BLACK"),
        rec(5, 3, "QUEEN", "BLACK"),
        rec(4, 3, "ROOK", "BLACK"),
    ]);
    assert_eq!(both.get_moves(4, 4), vec![(3, 3), (5, 3)]);
    let edge = build(vec![rec(0, 4, "PAWN", "WHITE"), rec(1, 3, "PAWN", "BLACK")]);
    assert_eq!(edge.get_moves(0, 4), vec![(0, 3), (1, 3)]);
}

#[test]
fn opening_moves_of_white() {
    let b = opening();
    let all = b.get_available_moves(PlayerName::WHITE);
    assert_eq!(all.len(), 8);
    for x in 0..8 {
        assert_eq!(all[6][x], vec![(x, 5), (x, 4)]);
        if x == 1 || x == 6 {
            assert_eq!(sorted(all[7][x].clone()), vec![(x - 1, 5), (x + 1, 5)]);
        } else {
            assert!(all[7][x].is_empty());
        }
    }
    for y in 0..6 {
        for x in 0..8 {
            assert!(all[y][x].is_empty());
        }
    }
    let total: usize = all.iter().flatten().map(|m| m.len()).sum();
    assert_eq!(total, 20);
}

#[test]
fn side_query_matches_square_query() {
    let b = build(vec![
        rec(3, 3, "QUEEN", "WHITE"),
        rec(6, 6, "PAWN", "WHITE"),
        rec(0, 0, "KNIGHT", "WHITE"),
        rec(5, 5, "BISHOP", "BLACK"),
        rec(3, 6, "ROOK", "BLACK"),
        rec(7, 7, "KING", "WHITE"),
    ]);
    for side in [PlayerName::WHITE, PlayerName::BLACK] {
        let all = b.get_available_moves(side);
        let mut flat = Vec::new();
        let mut direct = Vec::new();
        for y in 0..8 {
            assert_eq!(all[y].len(), 8);
            for x in 0..8 {
                flat.extend(all[y][x].iter().copied());
                let here = b.get_moves(x, y);
                if matches!(b.moves_at(x, y), Ok(ref m) if *m == here) {
                    let owned = (side == PlayerName::WHITE && [(3, 3), (6, 6), (0, 0), (7, 7)].contains(&(x, y)))
                        || (side == PlayerName::BLACK && [(5, 5), (3, 6)].contains(&(x, y)));
                    if owned {
                        direct.extend(here);
                    } else {
                        assert!(all[y][x].is_empty());
                    }
                } else {
                    panic!("moves_at disagrees with get_moves");
                }
            }
        }
        assert_eq!(flat, direct);
        assert!(!flat.is_empty());
    }
    let opening = opening();
    let all = opening.get_available_moves(PlayerName::BLACK);
    assert_eq!(all[1][0], vec![(0, 2), (0, 3)]);
    assert_eq!(sorted(all[0][1].clone()), vec![(0, 2), (2, 2)]);
}

#[test]
fn out_of_bounds_query_is_refused() {
    let b = opening();
    assert_eq!(b.moves_at(8, 0), Err(BoardError::OutOfBounds));
    assert_eq!(b.moves_at(0, 8), Err(BoardError::OutOfBounds));
    assert_eq!(b.moves_at(1, 7), Ok(vec![(2, 5), (0, 5)]));
}

#[test]
fn malformed_records_are_refused() {
    let bad = [
        rec(1, 1, "DRAGON", "WHITE"),
        rec(1, 1, "PAWN", "RED"),
        rec(1, 8, "PAWN", "WHITE"),
        rec(8, 1, "PAWN", "WHITE"),
        rec(1, 1, "pawn", "WHITE"),
        rec(1, 1, "EMPTY", "WHITE"),
        rec(1, 1, "PAWN", "NEITHER"),
        SquareRecord { x: "".to_string(), y: "1".to_string(), figure: "PAWN".to_string(), belongs_to: "WHITE".to_string() },
        SquareRecord { x: "a".to_string(), y: "1".to_string(), figure: "PAWN".to_string(), belongs_to: "WHITE".to_string() },
        SquareRecord { x: "1".to_string(), y: "-1".to_string(), figure: "PAWN".to_string(), belongs_to: "WHITE".to_string() },
        SquareRecord { x: "1".to_string(), y: "12".to_string(), figure: "PAWN".to_string(), belongs_to: "WHITE".to_string() },
    ];
    for r in bad.iter() {
        let recs = vec![rec(0, 0, "ROOK", "WHITE"), r.clone()];
        assert_eq!(Board::new(&recs).err(), Some(BoardError::DecodeError));
    }
}

#[test]
fn records_are_applied_in_order() {
    let padded = SquareRecord {
        x: "03".to_string(),
        y: "0004".to_string(),
        figure: "ROOK".to_string(),
        belongs_to: "BLACK".to_string(),
    };
    let b = build(vec![rec(3, 4, "KNIGHT", "WHITE"), padded]);
    assert!(b.get_available_moves(PlayerName::WHITE).iter().flatten().all(|m| m.is_empty()));
    assert_eq!(b.get_moves(3, 4).len(), 14);
    let cleared = build(vec![rec(3, 4, "KNIGHT", "WHITE"), rec(3, 4, "EMPTY", "NEITHER")]);
    assert!(cleared.get_moves(3, 4).is_empty());
    let empty = build(Vec::new());
    assert!(empty.get_available_moves(PlayerName::WHITE).iter().flatten().all(|m| m.is_empty()));
}

#[test]
fn destinations_are_empty_or_enemy() {
    let recs = vec![
        rec(3, 3, "QUEEN", "WHITE"),
        rec(3, 5, "PAWN", "WHITE"),
        rec(5, 5, "BISHOP", "BLACK"),
        rec(1, 1, "ROOK", "BLACK"),
        rec(4, 1, "KNIGHT", "WHITE"),
        rec(2, 3, "PAWN", "BLACK"),
        rec(6, 0, "KNIGHT", "BLACK"),
    ];
    let owner = |x: usize, y: usize| -> Option<&str> {
        recs.iter()
            .find(|r| r.x == x.to_string() && r.y == y.to_string())
            .map(|r| r.belongs_to.as_str())
    };
    let b = build(recs.clone());
    for y in 0..8 {
        for x in 0..8 {
            let me = owner(x, y);
            for (tx, ty) in b.get_moves(x, y) {
                assert!(tx < 8 && ty < 8);
                assert_ne!(owner(tx, ty), me);
            }
        }
    }
    // the own queen on (3, 3) is skipped, the enemy knight on (6, 0) is taken
    assert_eq!(b.get_moves(4, 1), vec![(6, 2), (6, 0), (2, 2), (2, 0), (5, 3)]);
}
