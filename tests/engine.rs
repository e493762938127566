use drawback_chess::chess::{CastlingRights, ChessMove, Color, FenError, MoveKind, Piece, Position, Role};
use drawback_chess::config::{ai_vs_ai, easy_ai, human_vs_ai, DrawbackSetting, GameConfig};
use drawback_chess::context::AiGameStateContext;
use drawback_chess::drawbacks::{BlockRandomFile, DrawbackId, DrawbackRegistry, DrawbackRule, NoCastling, PawnPushOneOnly};
use drawback_chess::evaluation::{compute_game_phase, evaluate_position_with_pst};
use drawback_chess::heuristic::{best_indices, choose_from_pass, evaluate_king_safety, find_best_move_mcts, get_capture_value, score_candidate};
use drawback_chess::mcts::{find_best_move_uct, integer_sqrt, playout, simulate, SearchTree};
use drawback_chess::search::{find_best_move, SearchAlgorithm};
use drawback_chess::pleco_ai::{allowed_pick, first_best_score, is_better_score, to_shakmaty_move};
use drawback_chess::state::{apply_move, GameState, GameStatus, MoveRejection, TurnState};
use drawback_chess::zobrist::{calculate_and_update_zobrist_hash, calculate_zobrist_hash, initialize_zobrist_keys, position_hash};

fn sq(name: &str) -> u8 {
    let b = name.as_bytes();
    (b[0] - b'a') + 8 * (b[1] - b'1')
}

fn normal(role: Role, from: &str, to: &str) -> ChessMove {
    ChessMove { kind: MoveKind::Normal, role, from: Some(sq(from)), to: sq(to), capture: None, promotion: None }
}

fn context(board: Position, player: DrawbackId, outcome: Option<u8>, depth: u8, time_limit_ms: u32) -> AiGameStateContext {
    let turn = board.turn;
    AiGameStateContext {
        board,
        player_turn: turn,
        player_drawback: player,
        opponent_drawback: DrawbackId::NoDrawback,
        rng_outcome: outcome,
        current_hash: 0,
        depth,
        check_quietness: true,
        quiescence_depth: 2,
        time_limit_ms,
    }
}

fn allowed(ctx: &AiGameStateContext) -> Vec<ChessMove> {
    ctx.player_drawback.filter_moves(&ctx.board.legal_moves, ctx.rng_outcome)
}

#[test]
fn standard_position_is_read_from_the_engine() {
    let p = Position::standard();
    assert_eq!(p.squares.len(), 64);
    assert_eq!(p.squares[sq("e1") as usize], Some(Piece { role: Role::King, color: Color::White }));
    assert_eq!(p.squares[sq("d8") as usize], Some(Piece { role: Role::Queen, color: Color::Black }));
    assert_eq!(p.squares[sq("e4") as usize], None);
    assert_eq!(p.turn, Color::White);
    assert_eq!(p.legal_moves.len(), 20);
    assert!(!p.in_check);
    assert_eq!(p.outcome, None);
    assert_eq!(p.castling, CastlingRights { white_king_side: true, white_queen_side: true, black_king_side: true, black_queen_side: true });
}

#[test]
fn fen_errors_are_told_apart() {
    assert!(matches!(Position::from_fen("not a fen"), Err(FenError::Syntax)));
    assert!(matches!(Position::from_fen("8/8/8/8/8/8/8/8 w - - 0 1"), Err(FenError::IllegalPosition)));
    let p = Position::from_fen("4k3/8/8/8/8/8/8/4K2R w K - 0 1").ok().unwrap();
    assert_eq!(p.castling.white_king_side, true);
    assert_eq!(p.castling.black_king_side, false);
    assert!(p.legal_moves.iter().any(|m| m.kind == MoveKind::Castle));
}

#[test]
fn en_passant_square_only_when_legal() {
    let p = Position::from_fen("4k3/8/8/3pP3/8/8/8/4K3 w - d6 0 1").ok().unwrap();
    assert_eq!(p.ep_square, Some(sq("d6")));
    let ep = p.legal_moves.iter().find(|m| m.kind == MoveKind::EnPassant).unwrap();
    assert_eq!(get_capture_value(&p, ep), 120);
    let q = Position::from_fen("4k3/8/8/3p4/8/8/8/4K3 w - d6 0 1").ok().unwrap();
    assert_eq!(q.ep_square, None);
}

#[test]
fn playing_a_move_changes_the_position() {
    let p = Position::standard();
    let i = p.legal_moves.iter().position(|m| *m == normal(Role::Pawn, "e2", "e4")).unwrap();
    let q = p.play_nth(i).unwrap();
    assert_eq!(q.turn, Color::Black);
    assert_eq!(q.squares[sq("e4") as usize], Some(Piece { role: Role::Pawn, color: Color::White }));
    assert_eq!(q.squares[sq("e2") as usize], None);
    assert!(p.play_nth(20).is_none());
}

#[test]
fn checkmate_is_reported() {
    let p = Position::from_fen("rnb1kbnr/pppp1ppp/8/4p3/6Pq/5P2/PPPPP2P/RNBQKBNR w KQkq - 1 3").ok().unwrap();
    assert!(p.in_check);
    assert_eq!(p.legal_moves.len(), 0);
    assert!(matches!(p.outcome, Some(drawback_chess::chess::GameOutcome::Decisive { winner: Color::Black })));
}

#[test]
fn no_castling_removes_only_the_castle() {
    let castle = ChessMove { kind: MoveKind::Castle, role: Role::King, from: Some(sq("e1")), to: sq("h1"), capture: None, promotion: None };
    let a = normal(Role::Pawn, "a2", "a3");
    let b = normal(Role::Knight, "g1", "f3");
    let c = normal(Role::King, "e1", "f1");
    let moves = vec![a, castle, b, c];
    let p = Position::standard();
    let out = NoCastling.filter_pseudo_legal_moves(&p, moves, None);
    assert_eq!(out, vec![a, b, c]);
}

#[test]
fn blocked_file_a_removes_moves_to_file_a() {
    let a3 = normal(Role::Pawn, "a2", "a3");
    let a4 = normal(Role::Pawn, "a2", "a4");
    let na3 = normal(Role::Knight, "b1", "a3");
    let c3 = normal(Role::Knight, "b1", "c3");
    let b3 = normal(Role::Pawn, "b2", "b3");
    let p = Position::standard();
    let out = BlockRandomFile.filter_pseudo_legal_moves(&p, vec![a3, c3, a4, b3, na3], Some(0));
    assert_eq!(out, vec![c3, b3]);
    let unfiltered = BlockRandomFile.filter_pseudo_legal_moves(&p, vec![a3, c3], None);
    assert_eq!(unfiltered, vec![a3, c3]);
    let out_of_range = BlockRandomFile.filter_pseudo_legal_moves(&p, vec![a3, c3], Some(8));
    assert_eq!(out_of_range, vec![a3, c3]);
}

#[test]
fn pawn_push_one_removes_double_pushes() {
    let p = Position::standard();
    let out = PawnPushOneOnly.filter_pseudo_legal_moves(&p, p.legal_moves.clone(), None);
    assert_eq!(out.len(), 12);
    assert!(!out.contains(&normal(Role::Pawn, "e2", "e4")));
    assert!(out.contains(&normal(Role::Pawn, "e2", "e3")));
}

#[test]
fn rule_properties() {
    assert_eq!(DrawbackId::NoDrawback.to_key_index(), 0);
    assert_eq!(DrawbackId::BlockRandomFile.to_key_index(), 3);
    assert!(BlockRandomFile.needs_turn_rng());
    assert_eq!(BlockRandomFile.get_rng_outcomes(), 8);
    assert!(!NoCastling.needs_turn_rng());
    assert_eq!(PawnPushOneOnly.get_rng_outcomes(), 1);
    assert_eq!(NoCastling.id(), DrawbackId::NoCastling);
    let p = Position::standard();
    assert!(NoCastling.check_loss_condition(&p, &vec![]));
    assert!(!NoCastling.check_loss_condition(&p, &p.legal_moves));
    assert!(!DrawbackId::NoDrawback.check_loss_condition(&vec![]));
    let registry = DrawbackRegistry::default();
    assert_eq!(registry.get(DrawbackId::PawnPushOneOnly), Some(DrawbackId::PawnPushOneOnly));
    assert_eq!(registry.get(DrawbackId::NoDrawback), None);
    let empty = DrawbackRegistry { rules: vec![] };
    assert_eq!(empty.resolve(DrawbackId::NoCastling), DrawbackId::NoDrawback);
}

#[test]
fn game_phase_start_and_after_a_capture() {
    let p = Position::standard();
    assert_eq!(compute_game_phase(&p), 0);
    let q = Position::from_fen("rnbqkb1r/pppppppp/8/8/8/8/PPPPPPPP/RNBQKBNR w KQkq - 0 1").ok().unwrap();
    assert_eq!(compute_game_phase(&q), 1);
    let kings = Position::from_fen("4k3/8/8/8/8/8/8/4K3 w - - 0 1").ok().unwrap();
    assert_eq!(compute_game_phase(&kings), 24);
}

#[test]
fn evaluation_values() {
    let p = Position::standard();
    assert_eq!(evaluate_position_with_pst(&p), 0);
    let kings = Position::from_fen("4k3/8/8/8/8/8/8/4K3 w - - 0 1").ok().unwrap();
    assert_eq!(evaluate_position_with_pst(&kings), 0);
    let kq = Position::from_fen("4k3/8/8/8/8/8/8/3QK3 w - - 0 1").ok().unwrap();
    assert_eq!(evaluate_position_with_pst(&kq), 940);
    let kq_black = Position::from_fen("4k3/8/8/8/8/8/8/3QK3 b - - 0 1").ok().unwrap();
    assert_eq!(evaluate_position_with_pst(&kq_black), -940);
}

#[test]
fn king_safety_values() {
    let p = Position::standard();
    // e1: edge 20, neighbours d1 queen 5, f1 bishop 8, d2 e2 f2 pawns 45; white counts half again.
    assert_eq!(evaluate_king_safety(&p, Color::White), (20 + 5 + 8 + 45) * 3 / 2);
    assert_eq!(evaluate_king_safety(&p, Color::Black), 20 + 5 + 8 + 45);
    let corner = Position::from_fen("7k/8/8/8/8/8/8/K7 w - - 0 1").ok().unwrap();
    assert_eq!(evaluate_king_safety(&corner, Color::Black), 35);
}

#[test]
fn zobrist_hash_is_stable_and_sees_the_turn() {
    let keys = initialize_zobrist_keys();
    let again = initialize_zobrist_keys();
    assert_eq!(keys.turn, again.turn);
    assert_eq!(keys.pieces[3][17], again.pieces[3][17]);
    let g = GameState::default();
    let h1 = calculate_zobrist_hash(&g, &keys);
    let h2 = calculate_zobrist_hash(&GameState::default(), &keys);
    assert_eq!(h1, h2);
    let white = position_hash(&g.board, Color::White, DrawbackId::NoDrawback, None, &keys);
    let black = position_hash(&g.board, Color::Black, DrawbackId::NoDrawback, None, &keys);
    assert_eq!(white, h1);
    assert_eq!(white ^ black, keys.turn);
    assert_ne!(white, black);
    let with_outcome = position_hash(&g.board, Color::White, DrawbackId::NoDrawback, Some(3), &keys);
    assert_eq!(with_outcome ^ white, keys.rng_outcomes[3] ^ keys.rng_outcomes[256]);
    let mut g2 = GameState::default();
    calculate_and_update_zobrist_hash(&mut g2, &keys);
    assert_eq!(g2.zobrist_hash, h1);
}

#[test]
fn standard_position_search_picks_a_pawn_or_knight_move() {
    for algorithm in [SearchAlgorithm::Heuristic, SearchAlgorithm::MonteCarlo] {
        let ctx = context(Position::standard(), DrawbackId::NoDrawback, None, 4, 50);
        let m = find_best_move(&ctx, algorithm, 1000).unwrap();
        assert!(m.role == Role::Pawn || m.role == Role::Knight);
        assert!(ctx.board.legal_moves.contains(&m));
    }
}

#[test]
fn search_respects_the_handicap() {
    let board = Position::from_fen("4k3/8/8/8/8/8/8/R3K3 w Q - 0 1").ok().unwrap();
    for algorithm in [SearchAlgorithm::Heuristic, SearchAlgorithm::MonteCarlo] {
        let ctx = context(Position::from_fen("4k3/8/8/8/8/8/8/R3K3 w Q - 0 1").ok().unwrap(), DrawbackId::BlockRandomFile, Some(0), 2, 50);
        let m = find_best_move(&ctx, algorithm, 50).unwrap();
        assert_ne!(m.to % 8, 0);
        assert!(allowed(&ctx).contains(&m));
    }
    assert!(board.legal_moves.iter().any(|m| m.to % 8 == 0));
}

#[test]
fn search_returns_none_without_moves() {
    let mated = "rnb1kbnr/pppp1ppp/8/4p3/6Pq/5P2/PPPPP2P/RNBQKBNR w KQkq - 1 3";
    for algorithm in [SearchAlgorithm::Heuristic, SearchAlgorithm::MonteCarlo] {
        let ctx = context(Position::from_fen(mated).ok().unwrap(), DrawbackId::NoDrawback, None, 2, 50);
        assert_eq!(find_best_move(&ctx, algorithm, 10), None);
    }
    // Only file-a moves exist for the king on a1 hemmed in by its own pawns.
    let hemmed = "4k3/8/8/8/8/8/1P6/K7 w - - 0 1";
    let ctx = context(Position::from_fen(hemmed).ok().unwrap(), DrawbackId::BlockRandomFile, Some(0), 2, 50);
    let plain = context(Position::from_fen(hemmed).ok().unwrap(), DrawbackId::NoDrawback, None, 2, 50);
    assert!(find_best_move_mcts(&plain, 5).is_some());
    let remaining = allowed(&ctx);
    assert!(remaining.iter().all(|m| m.to % 8 != 0));
    assert_eq!(find_best_move_uct(&ctx, 5).is_none(), remaining.is_empty());
}

#[test]
fn king_capture_outscores_every_other_move() {
    // A board where white's rook on e1 can take the black king on e8.
    let before = Position::from_fen("4k3/8/8/8/8/8/8/R3K3 w Q - 0 1").ok().unwrap();
    let mut squares = before.squares.clone();
    squares[sq("a1") as usize] = None;
    squares[sq("e1") as usize] = Some(Piece { role: Role::Rook, color: Color::White });
    squares[sq("h1") as usize] = Some(Piece { role: Role::King, color: Color::White });
    let take_king = normal(Role::Rook, "e1", "e8");
    let quiet = normal(Role::Rook, "e1", "e2");
    let before = Position { squares, legal_moves: vec![quiet, take_king], ..before };
    let after = Position::from_fen("4R3/8/8/8/8/8/8/7K b - - 0 1");
    assert!(after.is_err());
    let after_quiet = Position::from_fen("4k3/8/8/8/8/8/4R3/7K b - - 0 1").ok().unwrap();
    let scores = vec![
        score_candidate(&before, &quiet, &after_quiet),
        score_candidate(&before, &take_king, &after_quiet),
    ];
    assert!(scores[1] >= 80000 - 1000);
    let (best, idxs) = best_indices(&scores);
    assert_eq!(best, scores[1]);
    assert_eq!(idxs, vec![1]);
}

#[test]
fn tree_search_visits_root_once_per_iteration() {
    let ctx = context(Position::standard(), DrawbackId::NoDrawback, None, 2, 10_000);
    let mut tree = SearchTree::new(&ctx);
    assert_eq!(tree.nodes[0].unexplored.len(), 20);
    let done = tree.run(&ctx, 25, 10_000);
    assert_eq!(done, 25);
    assert_eq!(tree.nodes[0].visits, 25);
    let child_visits: u64 = tree.nodes[0].children.iter().map(|&c| tree.nodes[c].visits).sum();
    assert_eq!(child_visits, 24);
    assert!(tree.most_visited_child().is_some());
    let m = tree.root_choice().unwrap();
    assert!(tree.nodes[0].children.iter().any(|&c| tree.nodes[c].mv == Some(m)));
}

#[test]
fn integer_square_roots() {
    assert_eq!(integer_sqrt(0), 0);
    assert_eq!(integer_sqrt(15), 3);
    assert_eq!(integer_sqrt(16), 4);
    assert_eq!(integer_sqrt(1_000_000_000_000), 1_000_000);
}

#[test]
fn configuration_resolves_handicaps() {
    let config = GameConfig::default();
    assert!(!config.white_player.is_ai && config.black_player.is_ai);
    assert_eq!(config.ai_settings.depth_limit, 24);
    let by_name = DrawbackSetting { name: Some("Pawns Advance One".to_string()), index: Some(1) };
    assert_eq!(config.resolve_drawback_id(&by_name), DrawbackId::PawnPushOneOnly);
    let by_index = DrawbackSetting { name: None, index: Some(3) };
    assert_eq!(config.resolve_drawback_id(&by_index), DrawbackId::BlockRandomFile);
    let unknown = DrawbackSetting { name: Some("Unknown".to_string()), index: Some(2) };
    assert_eq!(config.resolve_drawback_id(&unknown), DrawbackId::NoDrawback);
    let neither = DrawbackSetting { name: None, index: None };
    assert_eq!(config.resolve_drawback_id(&neither), DrawbackId::NoDrawback);
    assert_eq!(easy_ai().ai_settings.depth_limit, 8);
    assert!(ai_vs_ai().white_player.is_ai);
    assert_eq!(human_vs_ai().ai_settings.quiescence_depth, 16);
}

#[test]
fn context_follows_the_side_to_move() {
    let mut g = GameState::from_fen("4k3/8/8/8/8/8/8/4K3 b - - 0 1").ok().unwrap();
    assert_eq!(g.current_player_turn, Color::Black);
    g.white_drawback = DrawbackId::NoCastling;
    g.black_drawback = DrawbackId::BlockRandomFile;
    g.current_turn_rng_outcome = Some(5);
    assert_eq!(g.get_current_player_drawback_id(), DrawbackId::BlockRandomFile);
    let ctx = AiGameStateContext::from_game_state(&g, &easy_ai());
    assert_eq!(ctx.player_drawback, DrawbackId::BlockRandomFile);
    assert_eq!(ctx.opponent_drawback, DrawbackId::NoCastling);
    assert_eq!(ctx.rng_outcome, Some(5));
    assert_eq!(ctx.time_limit_ms, 1500);
    assert_eq!(ctx.board.legal_moves.len(), 5);
}

#[test]
fn pleco_search_picks_an_allowed_move() {
    let ctx = context(Position::standard(), DrawbackId::PawnPushOneOnly, None, 4, 50);
    let m = find_best_move(&ctx, SearchAlgorithm::Pleco, 10).unwrap();
    assert!(allowed(&ctx).contains(&m));
    let mated = "rnb1kbnr/pppp1ppp/8/4p3/6Pq/5P2/PPPPP2P/RNBQKBNR w KQkq - 1 3";
    let none = context(Position::from_fen(mated).ok().unwrap(), DrawbackId::NoDrawback, None, 2, 50);
    assert_eq!(find_best_move(&none, SearchAlgorithm::Pleco, 10), None);
}

#[test]
fn pleco_scores_and_moves_convert() {
    assert!(is_better_score((10, 0), (5, 100)));
    assert!(is_better_score((5, 7), (5, 6)));
    assert!(!is_better_score((5, 6), (5, 6)));
    let p = Position::from_fen("4k3/8/8/8/8/8/8/4K2R w K - 0 1").ok().unwrap();
    let castle = to_shakmaty_move(sq("e1"), sq("g1"), None, &p).unwrap();
    assert_eq!(castle.kind, MoveKind::Castle);
    assert_eq!(castle.to, sq("h1"));
    assert!(p.legal_moves.contains(&castle));
    let rook = to_shakmaty_move(sq("h1"), sq("h5"), None, &p).unwrap();
    assert_eq!(rook, normal(Role::Rook, "h1", "h5"));
    assert_eq!(to_shakmaty_move(sq("a1"), sq("a2"), None, &p), None);
}

#[test]
fn moves_apply_only_in_turn_and_when_allowed() {
    let mut g = GameState::default();
    g.white_drawback = DrawbackId::PawnPushOneOnly;
    let e4 = normal(Role::Pawn, "e2", "e4");
    assert_eq!(apply_move(&mut g, &e4, TurnState::AiTurn), Err(MoveRejection::WrongTurnState));
    assert_eq!(apply_move(&mut g, &e4, TurnState::PlayerTurn), Err(MoveRejection::NotAllowed));
    assert_eq!(g.current_player_turn, Color::White);
    let e3 = normal(Role::Pawn, "e2", "e3");
    assert_eq!(apply_move(&mut g, &e3, TurnState::PlayerTurn), Ok(TurnState::AiTurn));
    assert_eq!(g.current_player_turn, Color::Black);
    assert_eq!(g.status, GameStatus::Ongoing);
    assert_eq!(g.board.squares[sq("e3") as usize], Some(Piece { role: Role::Pawn, color: Color::White }));
    let e5 = normal(Role::Pawn, "e7", "e5");
    assert_eq!(apply_move(&mut g, &e5, TurnState::AiTurn), Ok(TurnState::PlayerTurn));
}

#[test]
fn mirrored_board_with_colors_swapped_negates_the_evaluation() {
    // White king e1 and queen d1 against the black king e8, and the board
    // mirrored with colors swapped; white to move in both.
    let kq = Position::from_fen("4k3/8/8/8/8/8/8/3QK3 w - - 0 1").ok().unwrap();
    let mirrored = Position::from_fen("3qk3/8/8/8/8/8/8/4K3 w - - 0 1").ok().unwrap();
    assert_eq!(evaluate_position_with_pst(&kq), 940);
    assert_eq!(evaluate_position_with_pst(&mirrored), -940);
}

#[test]
fn castling_captures_nothing() {
    let p = Position::from_fen("4k3/8/8/8/8/8/8/4K2R w K - 0 1").ok().unwrap();
    let castle = p.legal_moves.iter().find(|m| m.kind == MoveKind::Castle).unwrap();
    assert_eq!(castle.to, sq("h1"));
    assert_eq!(get_capture_value(&p, castle), 0);
}

#[test]
fn simulation_of_a_finished_game_scores_its_result() {
    let mated = "rnb1kbnr/pppp1ppp/8/4p3/6Pq/5P2/PPPPP2P/RNBQKBNR w KQkq - 1 3";
    let start = Position::from_fen(mated).ok().unwrap();
    let ctx = context(Position::from_fen(mated).ok().unwrap(), DrawbackId::NoDrawback, None, 4, 50);
    assert_eq!(simulate(&start, &ctx), 0);
    let mut tree = SearchTree::new(&context(Position::standard(), DrawbackId::NoDrawback, None, 0, 50));
    let ctx0 = AiGameStateContext { check_quietness: false, ..context(Position::standard(), DrawbackId::NoDrawback, None, 0, 50) };
    let (path, score) = tree.iterate(&ctx0);
    assert!(path.is_empty());
    assert_eq!(score, 500);
    assert_eq!(tree.nodes[0].visits, 1);
    let (path, _) = tree.iterate(&ctx0);
    assert_eq!(path, vec![1]);
    assert_eq!(tree.nodes[1].visits, 1);
}

#[test]
fn pass_and_pleco_selection_take_the_best() {
    let a = normal(Role::Pawn, "a2", "a3");
    let b = normal(Role::Knight, "g1", "f3");
    let c = normal(Role::Pawn, "e2", "e4");
    assert_eq!(choose_from_pass(&vec![a, b, c], &vec![5, 90, -3]), b);
    assert_eq!(first_best_score(&vec![Some((1, 2)), None, Some((4, 0)), Some((4, 0)), Some((3, 9))]), Some(2));
    assert_eq!(first_best_score(&vec![None, Some((-999999, -999999))]), None);
    assert_eq!(first_best_score(&vec![]), None);
}

#[test]
fn playout_follows_the_picks() {
    // Scholar's mate: white (to move, the root side) mates in four plies.
    let ctx = AiGameStateContext { check_quietness: false, ..context(Position::standard(), DrawbackId::NoDrawback, None, 10, 50) };
    let order = |fen: &str, m: ChessMove| -> usize {
        let p = Position::from_fen(fen).ok().unwrap();
        p.legal_moves.iter().position(|x| *x == m).unwrap()
    };
    let start = Position::standard();
    let picks = vec![
        order("rnbqkbnr/pppppppp/8/8/8/8/PPPPPPPP/RNBQKBNR w KQkq - 0 1", normal(Role::Pawn, "e2", "e4")),
        order("rnbqkbnr/pppppppp/8/8/4P3/8/PPPP1PPP/RNBQKBNR b KQkq - 0 1", normal(Role::Pawn, "e7", "e5")),
        order("rnbqkbnr/pppp1ppp/8/4p3/4P3/8/PPPP1PPP/RNBQKBNR w KQkq - 0 2", normal(Role::Bishop, "f1", "c4")),
        order("rnbqkbnr/pppp1ppp/8/4p3/2B1P3/8/PPPP1PPP/RNBQK1NR b KQkq - 1 2", normal(Role::Knight, "b8", "c6")),
        order("r1bqkbnr/pppp1ppp/2n5/4p3/2B1P3/8/PPPP1PPP/RNBQK1NR w KQkq - 2 3", normal(Role::Queen, "d1", "h5")),
        order("r1bqkbnr/pppp1ppp/2n5/4p2Q/2B1P3/8/PPPP1PPP/RNB1K1NR b KQkq - 3 3", normal(Role::Knight, "g8", "f6")),
        order("r1bqkb1r/pppp1ppp/2n2n2/4p2Q/2B1P3/8/PPPP1PPP/RNB1K1NR w KQkq - 4 4", ChessMove { capture: Some(Role::Pawn), ..normal(Role::Queen, "h5", "f7") }),
    ];
    assert_eq!(playout(&start, &ctx, &picks), 1000);
    assert_eq!(playout(&start, &ctx, &vec![]), 500);
}

#[test]
fn pleco_pick_must_be_allowed() {
    let a = normal(Role::Pawn, "a2", "a3");
    let b = normal(Role::Knight, "g1", "f3");
    assert_eq!(allowed_pick(Some(b), &vec![a, b]), Some(b));
    assert_eq!(allowed_pick(Some(b), &vec![a]), None);
    assert_eq!(allowed_pick(None, &vec![a]), None);
}

#[test]
fn fen_results_are_exact() {
    assert!(GameState::from_fen("4k3/8/8/8/8/8/8/4K3 w - - 0 1").is_ok());
    assert!(matches!(GameState::from_fen("4k3/8/8/8"), Err(FenError::Syntax)));
    assert!(matches!(GameState::from_fen("KKk5/8/8/8/8/8/8/8 w - - 0 1"), Err(FenError::IllegalPosition)));
}
