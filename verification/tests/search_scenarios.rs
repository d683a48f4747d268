use engine::eval::static_evaluate;
use engine::model::Mv;
use engine::rules::{apply_moves, read_position};
use engine::search::Engine;
use engine::tt::TtFlags;

fn legal_moves(board: &cozy_chess::Board) -> Vec<Mv> {
    let mut out = Vec::new();
    board.generate_moves(|pm| {
        for m in pm {
            out.push(Mv {
                from: m.from as u8,
                to: m.to as u8,
                promo: m.promotion.map(|p| p as u8),
            });
        }
        false
    });
    out
}

fn play_mv(board: &cozy_chess::Board, mv: Mv) -> cozy_chess::Board {
    let mut next = board.clone();
    next.play(cozy_chess::Move {
        from: cozy_chess::Square::index(mv.from as usize),
        to: cozy_chess::Square::index(mv.to as usize),
        promotion: mv.promo.map(|p| cozy_chess::Piece::index(p as usize)),
    });
    next
}

fn play_line(moves: &[&str]) -> (cozy_chess::Board, Vec<u64>) {
    let mut board = cozy_chess::Board::startpos();
    let mut mvs: Vec<Mv> = Vec::new();
    for s in moves {
        let parsed = cozy_chess::util::parse_uci_move(&board, s).unwrap();
        mvs.push(Mv {
            from: parsed.from as u8,
            to: parsed.to as u8,
            promo: parsed.promotion.map(|p| p as u8),
        });
        board.play(parsed);
    }
    apply_moves(cozy_chess::Board::startpos(), &mvs).unwrap()
}

#[test]
fn depth_one_from_startpos_finds_best_development() {
    // At depth 1 the score is the best single-move gain in the tables:
    // a knight to c3 or f3 gains 50 in the middlegame tables.
    let mut engine = Engine::new();
    let board = cozy_chess::Board::startpos();
    let score = engine.evaluate_board(&board, 1, &vec![]);
    assert_eq!(score, 50);
}

#[test]
fn depth_one_reply_after_e4() {
    // After 1. e4 (worth 40 to White), Black's best reply gains 50,
    // leaving Black 10 up from the side-to-move perspective.
    let mut engine = Engine::new();
    let (board, history) = play_line(&["e2e4"]);
    let score = engine.evaluate_board(&board, 1, &history);
    assert_eq!(score, 10);
}

#[test]
fn search_returns_a_legal_move() {
    let mut engine = Engine::new();
    let (board, history) = play_line(&["e2e4", "e7e5", "g1f3"]);
    let mv = engine.generate_move(&board, 3, &history).unwrap();
    assert!(legal_moves(&board).contains(&mv));
}

#[test]
fn fools_mate_is_found() {
    let mut engine = Engine::new();
    let (board, history) = play_line(&["f2f3", "e7e5", "g2g4"]);
    let (mv, score) = engine.evaluate_and_move(&board, 3, &history);
    // Qd8-h4 mate.
    assert_eq!(mv, Mv { from: 59, to: 31, promo: None });
    assert!(score >= 9_999_999);
}

#[test]
fn mate_in_one_scores_at_least_mate() {
    let mut engine = Engine::new();
    let (board, history) = play_line(&["f2f3", "e7e5", "g2g4"]);
    let score = engine.evaluate_board(&board, 2, &history);
    assert!(score >= 9_999_999);
}

#[test]
fn repeated_position_scores_zero_inside_the_tree() {
    // The knight shuffle brings the starting position back twice, so its
    // hash stands twice in the history; any non-root search node at that
    // position (the path is non-empty) scores zero without a move.
    let line = [
        "g1f3", "g8f6", "f3g1", "f6g8", "g1f3", "g8f6", "f3g1", "f6g8",
    ];
    let (board, history) = play_line(&line);
    // The shuffle returns to the same position twice.
    assert_eq!(history[3], history[7]);
    let mut engine = Engine::new();
    let mut path = vec![0xdead_beefu64];
    let (mv, score) = engine.search(&board, 4, -1_000_000_000, 1_000_000_000, &history, &mut path);
    assert_eq!(score, 0);
    assert!(mv.is_none());
    assert_eq!(path, vec![0xdead_beefu64]);
}

#[test]
fn root_search_still_moves_in_repeated_position() {
    // At the root (empty path) the repetition exit is skipped: the search
    // still produces a move and a normal score.
    let line = [
        "g1f3", "g8f6", "f3g1", "f6g8", "g1f3", "g8f6", "f3g1", "f6g8",
    ];
    let (board, history) = play_line(&line);
    let mut engine = Engine::new();
    let (mv, score) = engine.evaluate_and_move(&board, 2, &history);
    assert!(legal_moves(&board).contains(&mv));
    assert!(score.abs() < 9_999_999);
}

#[test]
fn negamax_scores_are_consistent_without_tt() {
    // The root score is the negation of the best child's full-window
    // score one ply shallower (the table is disabled so no stored bounds
    // interfere).
    let (board, history) = play_line(&["e2e4", "e7e5"]);
    let mut engine = Engine::with_tt_enabled(false);
    let mut path: Vec<u64> = Vec::new();
    let (mv, score) = engine.search(&board, 2, -1_000_000_000, 1_000_000_000, &history, &mut path);
    let child = play_mv(&board, mv.unwrap());
    let mut child_path: Vec<u64> = Vec::new();
    let (_, child_score) =
        engine.search(&child, 1, -1_000_000_000, 1_000_000_000, &history, &mut child_path);
    assert_eq!(score, -child_score);
}

#[test]
fn tt_on_and_off_agree_on_the_score() {
    let (board, history) = play_line(&["e2e4", "e7e5", "g1f3", "b8c6"]);
    let mut with_tt = Engine::new();
    let mut without_tt = Engine::with_tt_enabled(false);
    for depth in 1..=3i8 {
        let a = with_tt.evaluate_board(&board, depth, &history);
        let b = without_tt.evaluate_board(&board, depth, &history);
        assert_eq!(a, b);
    }
}

#[test]
fn iterative_deepening_terminates_at_every_depth() {
    let (board, history) = play_line(&["d2d4", "d7d5"]);
    let mut engine = Engine::new();
    for max_depth in 1..=3i8 {
        let (mv, score) = engine.evaluate_and_move(&board, max_depth, &history);
        assert!(mv.from < 64 && mv.to < 64);
        assert!(score.abs() <= 10_000_126);
    }
}

#[test]
fn stalemate_scores_zero_and_mate_is_distance_flagged() {
    // A stalemate: the black king on a8 has no move against queen c7 and
    // king c8, but stands in no check.
    let board: cozy_chess::Board = "k1K5/2Q5/8/8/8/8/8/8 b - - 0 1".parse().unwrap();
    let mut engine = Engine::new();
    let score = engine.evaluate_board(&board, 3, &vec![]);
    assert_eq!(score, 0);
    // A checkmated side sees a mate score adjusted by remaining depth.
    let mated: cozy_chess::Board = "k7/1QK5/8/8/8/8/8/8 b - - 0 1".parse().unwrap();
    let score2 = engine.evaluate_board(&mated, 3, &vec![]);
    assert_eq!(score2, -(9_999_999 + 3));
}

#[test]
fn promotion_to_queen_is_preferred() {
    // A lone pawn one step from promotion: the search promotes, and to a
    // queen rather than a lesser piece.
    let board: cozy_chess::Board = "8/P6k/8/8/8/8/8/K7 w - - 0 1".parse().unwrap();
    let mut engine = Engine::new();
    let mv = engine.generate_move(&board, 2, &vec![]).unwrap();
    assert_eq!(mv.from, 48);
    assert_eq!(mv.to, 56);
    assert_eq!(mv.promo, Some(4));
}

#[test]
fn no_legal_move_yields_null_move() {
    let board: cozy_chess::Board = "k1K5/2Q5/8/8/8/8/8/8 b - - 0 1".parse().unwrap();
    let mut engine = Engine::new();
    let (mv, _) = engine.evaluate_and_move(&board, 2, &vec![]);
    assert_eq!(mv, Mv { from: 0, to: 0, promo: None });
}

#[test]
fn horizon_search_returns_the_static_evaluation() {
    let (board, history) = play_line(&["e2e4", "b8c6"]);
    let mut engine = Engine::new();
    let expected = static_evaluate(&read_position(&board));
    assert_eq!(engine.evaluate_board(&board, 0, &history), expected);
}

#[test]
fn search_stores_a_fail_soft_exact_entry() {
    let board = cozy_chess::Board::startpos();
    let mut engine = Engine::new();
    let mut path: Vec<u64> = Vec::new();
    let (mv, score) =
        engine.search(&board, 1, -1_000_000_000, 1_000_000_000, &vec![], &mut path);
    let entry = engine.transposition_table.probe(board.hash(), 1).unwrap();
    assert_eq!(entry.key, board.hash());
    assert_eq!(entry.depth, 1);
    assert_eq!(entry.score, score);
    assert_eq!(entry.best_move, mv);
    assert!(entry.flag == TtFlags::EXACT);
}

#[test]
fn stored_exact_entry_is_returned_by_a_shallower_search() {
    let board = cozy_chess::Board::startpos();
    let mut engine = Engine::new();
    let planted = Mv { from: 12, to: 28, promo: None };
    engine.transposition_table.store(board.hash(), 5, 777, TtFlags::EXACT, Some(planted));
    assert_eq!(engine.evaluate_board(&board, 3, &vec![]), 777);
    assert_eq!(engine.generate_move(&board, 3, &vec![]), Some(planted));
}

#[test]
fn foreign_table_move_is_discarded_at_the_root() {
    // A stored entry whose move is not legal here (as after a slot
    // overwrite by a colliding key) is caught by the root legality
    // check: generate_move returns nothing, and the driver falls back
    // to a legal move.
    let board = cozy_chess::Board::startpos();
    let mut engine = Engine::new();
    let bogus = Mv { from: 0, to: 56, promo: None };
    engine.transposition_table.store(board.hash(), 5, 123, TtFlags::EXACT, Some(bogus));
    assert_eq!(engine.generate_move(&board, 3, &vec![]), None);
    let (mv, _) = engine.evaluate_and_move(&board, 1, &vec![]);
    assert!(legal_moves(&board).contains(&mv));
}
