use vstd::prelude::*;
use vstd::string::StringSliceAdditionalSpecFns;
use crate::chess::{opposite, ChessMove, Color, FenError, Position};
use crate::drawbacks::{filtered, DrawbackId};
use crate::heuristic::{captures_king, contains_move, is_king_capture, position_after};

verus! {

/// Whether the game goes on.
#[derive(Clone, Copy, Debug, PartialEq, Eq, Structural)]
pub enum GameStatus {
    Ongoing,
    GameOver,
}

/// Which phase of a turn the game is in.
#[derive(Clone, Copy, Debug, PartialEq, Eq, Structural, Hash)]
pub enum TurnState {
    PlayerTurn,
    AiTurn,
    ProcessingMove,
    GameOver,
}

/// The authoritative game state: the position, whose turn it is, each side's
/// handicap and the random outcome drawn for the current turn.
pub struct GameState {
    pub board: Position,
    pub current_player_turn: Color,
    pub status: GameStatus,
    pub white_drawback: DrawbackId,
    pub black_drawback: DrawbackId,
    /// Outcome drawn at the start of the current player's turn, when their rule needs one.
    pub current_turn_rng_outcome: Option<u8>,
    pub zobrist_hash: u64,
    /// Whether the board is shown with white at the top.
    pub board_flipped: bool,
}

pub open spec fn active_drawback(turn: Color, white: DrawbackId, black: DrawbackId) -> DrawbackId {
    match turn {
        Color::White => white,
        Color::Black => black,
    }
}

impl GameState {
    pub open spec fn wf(&self) -> bool {
        self.board.wf()
    }

    /// The handicap of the side to move.
    pub fn get_current_player_drawback_id(&self) -> (r: DrawbackId)
        ensures
            r == active_drawback(self.current_player_turn, self.white_drawback, self.black_drawback),
    {
        match self.current_player_turn {
            Color::White => self.white_drawback,
            Color::Black => self.black_drawback,
        }
    }

    /// A fresh game from FEN text: the side to move is the one the text names,
    /// neither side has a handicap and no outcome is drawn.
    pub fn from_fen(fen: &str) -> (r: Result<GameState, FenError>)
        ensures
            r is Ok <==> crate::chess::fen_is_legal(fen.spec_bytes()),
            r == Err::<GameState, FenError>(FenError::Syntax) <==> !crate::chess::fen_parses(fen.spec_bytes()),
            r matches Ok(g) ==> {
                &&& g.wf()
                &&& g.current_player_turn == g.board.turn
                &&& g.status == GameStatus::Ongoing
                &&& g.white_drawback == DrawbackId::NoDrawback
                &&& g.black_drawback == DrawbackId::NoDrawback
                &&& g.current_turn_rng_outcome.is_none()
                &&& g.zobrist_hash == 0
                &&& !g.board_flipped
            },
    {
        match Position::from_fen(fen) {
            Err(e) => Err(e),
            Ok(board) => {
                let current_player_turn = board.turn;
                Ok(GameState {
                    board,
                    current_player_turn,
                    status: GameStatus::Ongoing,
                    white_drawback: DrawbackId::NoDrawback,
                    black_drawback: DrawbackId::NoDrawback,
                    current_turn_rng_outcome: None,
                    zobrist_hash: 0,
                    board_flipped: false,
                })
            },
        }
    }
}

/// A request to play a move.
#[derive(Clone, Copy, Debug, PartialEq, Eq, Structural)]
pub struct MakeMoveEvent(pub ChessMove);

/// Notice that the game ended, with the reason.
pub struct GameOverEvent(pub String);

/// Why a requested move was not applied.
#[derive(Clone, Copy, Debug, PartialEq, Eq, Structural)]
pub enum MoveRejection {
    /// The turn phase does not belong to the side to move (the computer plays black).
    WrongTurnState,
    /// The move is not among the legal moves the side's handicap allows.
    NotAllowed,
    /// The moving piece is missing or belongs to the other side.
    WrongColor,
    /// The engine did not play the move.
    EngineRefused,
}

/// The turn phase in which side `turn` may move: the computer plays black.
pub open spec fn phase_of_side(turn: Color) -> TurnState {
    if turn == Color::Black { TurnState::AiTurn } else { TurnState::PlayerTurn }
}

/// Whether the piece on the move's origin belongs to `turn` (a drop has no origin).
pub open spec fn moves_own_piece(board: Position, m: ChessMove, turn: Color) -> bool {
    match m.from {
        Some(f) => board.squares@[f as int] matches Some(p) && p.color == turn,
        None => true,
    }
}

/// Applies a requested move: it must come in the phase of the side to move, be
/// one of the legal moves that side's handicap allows this turn and move that
/// side's piece. Then the position advances, the turn passes, and capturing a
/// king ends the game; otherwise play goes to the next side's phase.
pub fn apply_move(game_state: &mut GameState, m: &ChessMove, current: TurnState) -> (r: Result<TurnState, MoveRejection>)
    requires
        old(game_state).wf(),
    ensures
        final(game_state).wf(),
        r is Err ==> *final(game_state) == *old(game_state),
        (r == Err::<TurnState, MoveRejection>(MoveRejection::WrongTurnState)) <==> current != phase_of_side(old(game_state).current_player_turn),
        current == phase_of_side(old(game_state).current_player_turn)
            && !filtered(
                active_drawback(old(game_state).current_player_turn, old(game_state).white_drawback, old(game_state).black_drawback),
                old(game_state).board.legal_moves@,
                old(game_state).current_turn_rng_outcome,
            ).contains(*m) ==> r == Err::<TurnState, MoveRejection>(MoveRejection::NotAllowed),
        current == phase_of_side(old(game_state).current_player_turn)
            && filtered(
                active_drawback(old(game_state).current_player_turn, old(game_state).white_drawback, old(game_state).black_drawback),
                old(game_state).board.legal_moves@,
                old(game_state).current_turn_rng_outcome,
            ).contains(*m)
            && moves_own_piece(old(game_state).board, *m, old(game_state).current_player_turn) ==> r is Ok,
        r is Ok ==> {
            &&& filtered(
                active_drawback(old(game_state).current_player_turn, old(game_state).white_drawback, old(game_state).black_drawback),
                old(game_state).board.legal_moves@,
                old(game_state).current_turn_rng_outcome,
            ).contains(*m)
            &&& moves_own_piece(old(game_state).board, *m, old(game_state).current_player_turn)
            &&& final(game_state).current_player_turn == opposite(old(game_state).current_player_turn)
            &&& final(game_state).white_drawback == old(game_state).white_drawback
            &&& final(game_state).black_drawback == old(game_state).black_drawback
            &&& final(game_state).current_turn_rng_outcome == old(game_state).current_turn_rng_outcome
            &&& final(game_state).zobrist_hash == old(game_state).zobrist_hash
            &&& final(game_state).board_flipped == old(game_state).board_flipped
        },
        r matches Ok(next) ==> {
            if captures_king(old(game_state).board.squares@, *m) {
                &&& final(game_state).status == GameStatus::GameOver
                &&& next == TurnState::GameOver
            } else {
                &&& final(game_state).status == old(game_state).status
                &&& next == phase_of_side(opposite(old(game_state).current_player_turn))
            }
        },
{
    let expected = if matches!(game_state.current_player_turn, Color::Black) { TurnState::AiTurn } else { TurnState::PlayerTurn };
    if current != expected {
        return Err(MoveRejection::WrongTurnState);
    }
    let drawback = game_state.get_current_player_drawback_id();
    proof {
        assert forall|i: int| 0 <= i < game_state.board.legal_moves@.len()
            implies (#[trigger] game_state.board.legal_moves@[i]).wf() by {}
    }
    let allowed = drawback.filter_moves(&game_state.board.legal_moves, game_state.current_turn_rng_outcome);
    if !contains_move(&allowed, m) {
        return Err(MoveRejection::NotAllowed);
    }
    proof {
        crate::drawbacks::lemma_filtered_contains_wf(drawback, game_state.board.legal_moves@, game_state.current_turn_rng_outcome, *m);
    }
    if let Some(f) = m.from {
        match game_state.board.squares[f as usize] {
            Some(p) => {
                if p.color != game_state.current_player_turn {
                    return Err(MoveRejection::WrongColor);
                }
            },
            None => {
                return Err(MoveRejection::WrongColor);
            },
        }
    }
    let king_captured = is_king_capture(&game_state.board, m);
    let next_board = match position_after(&game_state.board, m) {
        Some(b) => b,
        None => {
            return Err(MoveRejection::EngineRefused);
        },
    };
    game_state.board = next_board;
    game_state.current_player_turn = crate::chess::opposite_color(game_state.current_player_turn);
    if king_captured {
        game_state.status = GameStatus::GameOver;
        Ok(TurnState::GameOver)
    } else if matches!(game_state.current_player_turn, Color::Black) {
        Ok(TurnState::AiTurn)
    } else {
        Ok(TurnState::PlayerTurn)
    }
}

impl Default for GameState {
    /// The standard starting position, white to move, no handicaps.
    fn default() -> (r: GameState)
        ensures
            r.wf(),
            r.current_player_turn == Color::White,
            r.status == GameStatus::Ongoing,
            r.white_drawback == DrawbackId::NoDrawback,
            r.black_drawback == DrawbackId::NoDrawback,
            r.current_turn_rng_outcome.is_none(),
            r.zobrist_hash == 0,
            !r.board_flipped,
    {
        GameState {
            board: Position::standard(),
            current_player_turn: Color::White,
            status: GameStatus::Ongoing,
            white_drawback: DrawbackId::NoDrawback,
            black_drawback: DrawbackId::NoDrawback,
            current_turn_rng_outcome: None,
            zobrist_hash: 0,
            board_flipped: false,
        }
    }
}

} // verus!
