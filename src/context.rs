use vstd::prelude::*;
use crate::chess::{Color, Position};
use crate::config::GameConfig;
use crate::drawbacks::DrawbackId;
use crate::state::{active_drawback, GameState};

verus! {

/// Everything one search reads: the position, each side's handicap, the turn's
/// random outcome and the budgets. Built fresh for each search.
pub struct AiGameStateContext {
    pub board: Position,
    pub player_turn: Color,
    pub player_drawback: DrawbackId,
    pub opponent_drawback: DrawbackId,
    /// Outcome drawn for the side to move this turn, when its rule needs one.
    pub rng_outcome: Option<u8>,
    pub current_hash: u64,
    /// Depth limit of a simulated game.
    pub depth: u8,
    /// Whether a simulation may only stop at the depth limit in a quiet position.
    pub check_quietness: bool,
    /// Extra plies a simulation may play past the depth limit while the position is not quiet.
    pub quiescence_depth: u8,
    pub time_limit_ms: u32,
}

impl AiGameStateContext {
    pub open spec fn wf(&self) -> bool {
        self.board.wf()
    }

    /// The context for the side to move of `game_state`, with the search
    /// settings of `config`.
    pub fn from_game_state(game_state: &GameState, config: &GameConfig) -> (r: AiGameStateContext)
        requires
            game_state.wf(),
        ensures
            r.wf(),
            r.board.squares@ == game_state.board.squares@,
            r.board.turn == game_state.board.turn,
            r.board.castling == game_state.board.castling,
            r.board.ep_square == game_state.board.ep_square,
            r.board.legal_moves@ == game_state.board.legal_moves@,
            r.board.in_check == game_state.board.in_check,
            r.board.outcome == game_state.board.outcome,
            r.player_turn == game_state.current_player_turn,
            r.player_drawback == active_drawback(game_state.current_player_turn, game_state.white_drawback, game_state.black_drawback),
            r.opponent_drawback == active_drawback(crate::chess::opposite(game_state.current_player_turn), game_state.white_drawback, game_state.black_drawback),
            r.rng_outcome == game_state.current_turn_rng_outcome,
            r.current_hash == game_state.zobrist_hash,
            r.depth == config.ai_settings.depth_limit,
            r.check_quietness == config.ai_settings.check_quietness,
            r.quiescence_depth == config.ai_settings.quiescence_depth,
            r.time_limit_ms == config.ai_settings.time_limit_ms,
    {
        AiGameStateContext {
            board: game_state.board.duplicate(),
            player_turn: game_state.current_player_turn,
            player_drawback: game_state.get_current_player_drawback_id(),
            opponent_drawback: match game_state.current_player_turn {
                Color::White => game_state.black_drawback,
                Color::Black => game_state.white_drawback,
            },
            rng_outcome: game_state.current_turn_rng_outcome,
            current_hash: game_state.zobrist_hash,
            depth: config.ai_settings.depth_limit,
            check_quietness: config.ai_settings.check_quietness,
            quiescence_depth: config.ai_settings.quiescence_depth,
            time_limit_ms: config.ai_settings.time_limit_ms,
        }
    }
}

} // verus!
