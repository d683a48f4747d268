use engine::eval::{calculate_game_phase, static_evaluate};
use engine::model::{mirror, Mv, Pos};
use engine::ordering::{order_moves, sort_moves, ScoredMove};
use engine::repetition::is_repetition;
use engine::rules::{apply_moves, read_position};
use engine::search::{delta_prune_allowed, Engine};
use engine::tt::{Tt, TtFlags};

fn sq(file: u8, rank: u8) -> u8 {
    8 * rank + file
}

fn empty_pos() -> Pos {
    Pos {
        squares: vec![None; 64],
        white_to_move: true,
        ep_file: None,
        in_check: false,
    }
}

fn uci(board: &cozy_chess::Board, s: &str) -> Mv {
    let m = cozy_chess::util::parse_uci_move(board, s).unwrap();
    Mv {
        from: m.from as u8,
        to: m.to as u8,
        promo: m.promotion.map(|p| p as u8),
    }
}

fn legal_moves(board: &cozy_chess::Board) -> Vec<Mv> {
    let mut out = Vec::new();
    board.generate_moves(|pm| {
        for m in pm {
            out.push(Mv {
                from: m.from as u8,
                to: m.to as u8,
                promo: m.promotion.map(|p| p as u8),
            });
        }
        false
    });
    out
}

fn play_line(moves: &[&str]) -> (cozy_chess::Board, Vec<u64>) {
    let mut board = cozy_chess::Board::startpos();
    let mut mvs: Vec<Mv> = Vec::new();
    for s in moves {
        let parsed = cozy_chess::util::parse_uci_move(&board, s).unwrap();
        mvs.push(Mv {
            from: parsed.from as u8,
            to: parsed.to as u8,
            promo: parsed.promotion.map(|p| p as u8),
        });
        board.play(parsed);
    }
    apply_moves(cozy_chess::Board::startpos(), &mvs).unwrap()
}

#[test]
fn startpos_reads_back() {
    let board = cozy_chess::Board::startpos();
    let pos = read_position(&board);
    assert!(pos.check_wf());
    assert!(pos.white_to_move);
    assert!(!pos.in_check);
    assert_eq!(pos.ep_file, None);
    // e1 holds the white king (kind 5), e8 the black king.
    assert_eq!(pos.squares[sq(4, 0) as usize], Some((true, 5)));
    assert_eq!(pos.squares[sq(4, 7) as usize], Some((false, 5)));
    // d1 the white queen, a2 a white pawn, g8 a black knight.
    assert_eq!(pos.squares[sq(3, 0) as usize], Some((true, 4)));
    assert_eq!(pos.squares[sq(0, 1) as usize], Some((true, 0)));
    assert_eq!(pos.squares[sq(6, 7) as usize], Some((false, 1)));
    assert_eq!(pos.squares[sq(4, 3) as usize], None);
}

#[test]
fn position_reads_track_played_moves() {
    let (board, _) = play_line(&["e2e4", "c7c5"]);
    let pos = read_position(&board);
    // The pawns now stand on e4 and c5, and it is White's turn again.
    assert_eq!(pos.squares[sq(4, 3) as usize], Some((true, 0)));
    assert_eq!(pos.squares[sq(4, 1) as usize], None);
    assert_eq!(pos.squares[sq(2, 4) as usize], Some((false, 0)));
    assert!(pos.white_to_move);
    // A double pawn push just happened, so the c-file is the en-passant
    // target; check status is clean.
    assert_eq!(pos.ep_file, Some(2));
    assert!(!pos.in_check);
}

#[test]
fn startpos_is_symmetric_and_full_phase() {
    let board = cozy_chess::Board::startpos();
    let pos = read_position(&board);
    assert_eq!(static_evaluate(&pos), 0);
    assert_eq!(calculate_game_phase(&pos), 24);
}

#[test]
fn phase_stays_within_bounds_as_material_comes_off() {
    let (board, _) = play_line(&["e2e4", "d7d5", "e4d5", "d8d5", "b1c3", "d5d8"]);
    let pos = read_position(&board);
    let ph = calculate_game_phase(&pos);
    assert!((0..=24).contains(&ph));
    assert_eq!(ph, 24);

    let pos2 = empty_pos();
    assert_eq!(calculate_game_phase(&pos2), 0);
}

#[test]
fn two_king_endgame_has_exact_tapered_score() {
    // White king e1, black king a8: pure endgame, so only the endgame
    // tables count: e1 gives -30, a8 mirrors to a1 and gives -50.
    let mut pos = empty_pos();
    pos.squares[sq(4, 0) as usize] = Some((true, 5));
    pos.squares[sq(0, 7) as usize] = Some((false, 5));
    assert_eq!(static_evaluate(&pos), 20);
    pos.white_to_move = false;
    assert_eq!(static_evaluate(&pos), -20);
}

#[test]
fn mirrored_position_evaluates_equally() {
    let (board, _) = play_line(&["e2e4", "g8f6", "d2d4", "d7d6", "b1c3", "g7g6"]);
    let pos = read_position(&board);
    let m = mirror(&pos);
    assert!(m.check_wf());
    assert_eq!(static_evaluate(&m), static_evaluate(&pos));
}

#[test]
fn mirrored_asymmetric_endgame_evaluates_equally() {
    let mut pos = empty_pos();
    pos.squares[sq(4, 0) as usize] = Some((true, 5));
    pos.squares[sq(0, 7) as usize] = Some((false, 5));
    pos.squares[sq(3, 3) as usize] = Some((true, 4));
    pos.squares[sq(6, 5) as usize] = Some((false, 0));
    let m = mirror(&pos);
    assert_eq!(static_evaluate(&m), static_evaluate(&pos));
}

#[test]
fn capture_keys_follow_mvv_lva() {
    // After 1. e4 d5 White's pawn can take the d5 pawn: victim pawn,
    // attacker pawn, full-material phase, so the key is 100*10 - 100.
    let (board, _) = play_line(&["e2e4", "d7d5"]);
    let pos = read_position(&board);
    let phase = calculate_game_phase(&pos);
    let take = uci(&board, "e4d5");
    assert_eq!(order_moves(&pos, take, None, phase), 900);
    // A quiet move scores zero.
    let quiet = uci(&board, "g1f3");
    assert_eq!(order_moves(&pos, quiet, None, phase), 0);
    // The transposition table's move outranks everything.
    assert_eq!(order_moves(&pos, quiet, Some(quiet), phase), 1_000_000);
    assert_eq!(order_moves(&pos, take, Some(quiet), phase), 900);
}

#[test]
fn en_passant_capture_scores_900() {
    let (board, _) = play_line(&["e2e4", "g8f6", "e4e5", "d7d5"]);
    let pos = read_position(&board);
    assert_eq!(pos.ep_file, Some(3));
    let phase = calculate_game_phase(&pos);
    let ep = uci(&board, "e5d6");
    assert_eq!(order_moves(&pos, ep, None, phase), 900);
}

#[test]
fn sorting_is_descending_and_keeps_entries() {
    let mut v = vec![
        ScoredMove { mv: Mv { from: 1, to: 2, promo: None }, score: 5 },
        ScoredMove { mv: Mv { from: 3, to: 4, promo: None }, score: 900 },
        ScoredMove { mv: Mv { from: 5, to: 6, promo: None }, score: -7 },
        ScoredMove { mv: Mv { from: 7, to: 8, promo: None }, score: 900 },
        ScoredMove { mv: Mv { from: 9, to: 10, promo: None }, score: 0 },
    ];
    let before = v.clone();
    sort_moves(&mut v);
    assert_eq!(v.len(), before.len());
    for w in v.windows(2) {
        assert!(w[0].score >= w[1].score);
    }
    for sm in &before {
        assert!(v.contains(sm));
    }
}

#[test]
fn tt_best_move_sorts_first() {
    let (board, _) = play_line(&["e2e4", "d7d5"]);
    let pos = read_position(&board);
    let phase = calculate_game_phase(&pos);
    let tt_best = uci(&board, "b1c3");
    let mut scored: Vec<ScoredMove> = legal_moves(&board)
        .into_iter()
        .map(|m| ScoredMove { mv: m, score: order_moves(&pos, m, Some(tt_best), phase) })
        .collect();
    sort_moves(&mut scored);
    assert_eq!(scored[0].mv, tt_best);
}

#[test]
fn tt_store_probe_roundtrip() {
    let mut tt = Tt::new(8);
    let mv = Some(Mv { from: 12, to: 28, promo: None });
    tt.store(42, 3, 150, TtFlags::EXACT, mv);
    let hit = tt.probe(42, 3).unwrap();
    assert_eq!(hit.key, 42);
    assert_eq!(hit.score, 150);
    assert_eq!(hit.depth, 3);
    assert!(hit.flag == TtFlags::EXACT);
    assert_eq!(hit.best_move, mv);
    // A shallower stored depth is a miss for a deeper request.
    assert!(tt.probe(42, 4).is_none());
    assert!(tt.probe(42, 0).is_some());
}

#[test]
fn tt_collision_is_a_miss_and_replaced() {
    let mut tt = Tt::new(8);
    // 5 and 13 share slot 5 in an 8-entry table.
    tt.store(5, 1, 11, TtFlags::LOWER, None);
    assert!(tt.probe(13, 0).is_none());
    tt.store(13, 1, 22, TtFlags::UPPER, None);
    assert!(tt.probe(5, 0).is_none());
    assert_eq!(tt.probe(13, 1).unwrap().score, 22);
}

#[test]
fn repetition_counts_history_and_path_together() {
    assert!(!is_repetition(&vec![], &vec![], 7));
    assert!(!is_repetition(&vec![7], &vec![], 7));
    assert!(is_repetition(&vec![7, 7], &vec![], 7));
    assert!(is_repetition(&vec![7], &vec![9, 7], 7));
    assert!(is_repetition(&vec![], &vec![7, 8, 7], 7));
    assert!(!is_repetition(&vec![1, 2, 3], &vec![4, 5], 7));
}

#[test]
fn history_hashes_track_position_not_move_order() {
    let (_, h1) = play_line(&["g1f3", "g8f6", "b1c3"]);
    let (_, h2) = play_line(&["b1c3", "g8f6", "g1f3"]);
    assert_eq!(h1.len(), 3);
    assert_eq!(h2.len(), 3);
    // Same final position by transposition: same hash.
    assert_eq!(h1[2], h2[2]);
    // Different positions along the way: different hashes.
    assert_ne!(h1[0], h1[2]);
    assert_ne!(h1[0], h2[0]);
}

#[test]
fn illegal_move_is_rejected() {
    // e1 to e8 is not a legal king move, so the line is refused.
    let bad_line = vec![Mv { from: 4, to: 60, promo: None }];
    assert!(apply_moves(cozy_chess::Board::startpos(), &bad_line).is_none());
    let good_line = vec![Mv { from: 12, to: 28, promo: None }];
    assert!(apply_moves(cozy_chess::Board::startpos(), &good_line).is_some());
}

#[test]
fn delta_prune_needs_margin_and_no_promotion_threat() {
    let pos = empty_pos();
    // Far below alpha with no pawn near promotion: prune allowed.
    assert!(delta_prune_allowed(&pos, -2000, 0));
    // Within the 1100 margin: no prune.
    assert!(!delta_prune_allowed(&pos, -1100, 0));
    // A white pawn on its seventh rank disables the prune entirely.
    let mut promo = empty_pos();
    promo.squares[sq(2, 6) as usize] = Some((true, 0));
    assert!(!delta_prune_allowed(&promo, -2000, 0));
    // A black pawn on rank 2 disables it for Black.
    let mut promo_b = empty_pos();
    promo_b.white_to_move = false;
    promo_b.squares[sq(5, 1) as usize] = Some((false, 0));
    assert!(!delta_prune_allowed(&promo_b, -2000, 0));
    // That same pawn does not disable it for White.
    promo_b.white_to_move = true;
    assert!(delta_prune_allowed(&promo_b, -2000, 0));
}

#[test]
fn quiescence_stays_within_window() {
    let (board, _) = play_line(&["e2e4", "d7d5"]);
    let engine = Engine::new();
    let s = engine.quiescence_search(&board, -200, 200, 32);
    assert!((-200..=200).contains(&s));
    // With an undefended queen en prise, quiescence resolves the capture
    // and scores far above the standing material deficit.
    let hanging: cozy_chess::Board = "k7/8/8/3q4/4P3/8/8/K7 w - - 0 1".parse().unwrap();
    let exact = engine.quiescence_search(&hanging, -1_000_000_000, 1_000_000_000, 32);
    assert!(exact > 0);
}
