use vstd::prelude::*;
use crate::chess::ChessMove;
use crate::context::AiGameStateContext;
use crate::drawbacks::filtered;
use crate::heuristic::find_best_move_mcts;
use crate::mcts::find_best_move_uct;
use crate::pleco_ai::find_best_move_pleco;

verus! {

/// The move search to run.
#[derive(Clone, Copy, Debug, PartialEq, Eq, Structural)]
pub enum SearchAlgorithm {
    /// One-ply heuristic scoring of every allowed move.
    Heuristic,
    /// Monte Carlo tree search with UCT selection.
    MonteCarlo,
    /// One-ply search scored by pleco's piece-square evaluation.
    Pleco,
}

/// The computer player's move for the side to move: a move the side's handicap
/// allows, or `None` exactly when it allows none.
pub fn find_best_move(ctx: &AiGameStateContext, algorithm: SearchAlgorithm, iterations: u32) -> (r: Option<ChessMove>)
    requires
        ctx.wf(),
    ensures
        r is None <==> filtered(ctx.player_drawback, ctx.board.legal_moves@, ctx.rng_outcome).len() == 0,
        r matches Some(m) ==> filtered(ctx.player_drawback, ctx.board.legal_moves@, ctx.rng_outcome).contains(m),
{
    match algorithm {
        SearchAlgorithm::Heuristic => find_best_move_mcts(ctx, iterations),
        SearchAlgorithm::MonteCarlo => find_best_move_uct(ctx, iterations),
        SearchAlgorithm::Pleco => find_best_move_pleco(ctx, ctx.time_limit_ms as u64, ctx.depth as u16),
    }
}

} // verus!
