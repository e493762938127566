use vstd::prelude::*;
use vstd::string::StringSliceAdditionalSpecFns;
use shakmaty::{CastlingMode, CastlingSide, Chess, EnPassantMode, Outcome, Position as _, Square};
use shakmaty::fen::Fen;

verus! {

#[verifier::external_type_specification]
#[verifier::external_body]
pub struct ExChess(shakmaty::Chess);

/// Side of the board.
#[derive(Clone, Copy, Debug, PartialEq, Eq, Structural)]
pub enum Color {
    White,
    Black,
}

/// Kind of a chess piece.
#[derive(Clone, Copy, Debug, PartialEq, Eq, Structural)]
pub enum Role {
    Pawn,
    Knight,
    Bishop,
    Rook,
    Queen,
    King,
}

#[derive(Clone, Copy, Debug, PartialEq, Eq, Structural)]
pub struct Piece {
    pub role: Role,
    pub color: Color,
}

/// How a move is carried out on the board.
#[derive(Clone, Copy, Debug, PartialEq, Eq, Structural)]
pub enum MoveKind {
    Normal,
    EnPassant,
    Castle,
    Put,
}

/// A move as the move generator reports it. Squares are indices `file + 8 * rank`
/// (a1 = 0, h8 = 63). For a castle, `from` is the king's square and `to` the
/// rook's square.
#[derive(Clone, Copy, Debug, PartialEq, Eq, Structural)]
pub struct ChessMove {
    pub kind: MoveKind,
    pub role: Role,
    pub from: Option<u8>,
    pub to: u8,
    pub capture: Option<Role>,
    pub promotion: Option<Role>,
}

/// Result of a finished game.
#[derive(Clone, Copy, Debug, PartialEq, Eq, Structural)]
pub enum GameOutcome {
    Decisive { winner: Color },
    Draw,
}

/// Castling rights still held by each side.
#[derive(Clone, Copy, Debug, PartialEq, Eq, Structural)]
pub struct CastlingRights {
    pub white_king_side: bool,
    pub white_queen_side: bool,
    pub black_king_side: bool,
    pub black_queen_side: bool,
}

/// A snapshot of a position: what the evaluation, the fingerprint, the rules and
/// the searches read, held as plain values, together with the engine position it
/// was read from (used to play moves).
pub struct Position {
    pub engine: Chess,
    /// The piece on each square, indexed `file + 8 * rank`.
    pub squares: Vec<Option<Piece>>,
    pub turn: Color,
    pub castling: CastlingRights,
    /// En-passant target square, only when an en-passant capture is legal.
    pub ep_square: Option<u8>,
    /// The legal moves, in the move generator's order.
    pub legal_moves: Vec<ChessMove>,
    /// The engine position each legal move leads to, in the same order.
    pub successors: Vec<Chess>,
    pub in_check: bool,
    pub outcome: Option<GameOutcome>,
}

/// Ways in which a position cannot be read from FEN text.
#[derive(Clone, Copy, Debug, PartialEq, Eq, Structural)]
pub enum FenError {
    /// The text is not FEN.
    Syntax,
    /// The text is FEN, but the position is not a legal standard chess position.
    IllegalPosition,
}

pub open spec fn file_of(sq: int) -> int {
    sq % 8
}

pub open spec fn rank_of(sq: int) -> int {
    sq / 8
}

pub open spec fn opposite(c: Color) -> Color {
    match c {
        Color::White => Color::Black,
        Color::Black => Color::White,
    }
}

impl ChessMove {
    pub open spec fn wf(self) -> bool {
        &&& self.to < 64
        &&& (self.from matches Some(f) ==> f < 64)
    }
}

impl Position {
    pub open spec fn wf(&self) -> bool {
        &&& self.squares@.len() == 64
        &&& self.successors@.len() == self.legal_moves@.len()
        &&& (self.ep_square matches Some(s) ==> s < 64)
        &&& forall|i: int| 0 <= i < self.legal_moves@.len() ==> (#[trigger] self.legal_moves@[i]).wf()
    }

    /// The piece on square `sq` (an index below 64).
    pub open spec fn piece_at(&self, sq: int) -> Option<Piece> {
        self.squares@[sq]
    }
}

pub fn opposite_color(c: Color) -> (r: Color)
    ensures
        r == opposite(c),
{
    match c {
        Color::White => Color::Black,
        Color::Black => Color::White,
    }
}

/// A piece kind from the move generator's numbering (1 = pawn, ..., 6 = king).
fn role_from_code(code: u8) -> (r: Role)
    requires
        1 <= code <= 6,
{
    if code == 1 {
        Role::Pawn
    } else if code == 2 {
        Role::Knight
    } else if code == 3 {
        Role::Bishop
    } else if code == 4 {
        Role::Rook
    } else if code == 5 {
        Role::Queen
    } else {
        Role::King
    }
}

fn color_from_white(white: bool) -> (r: Color)
    ensures
        r == (if white { Color::White } else { Color::Black }),
{
    if white {
        Color::White
    } else {
        Color::Black
    }
}

/// A move as plain codes: role, from, to, capture, promotion, is castle, is en passant.
type RawMove = (u8, Option<u8>, u8, Option<u8>, Option<u8>, bool, bool);

pub open spec fn raw_move_ok(m: RawMove) -> bool {
    &&& 1 <= m.0 <= 6
    &&& (m.1 matches Some(f) ==> f < 64)
    &&& m.2 < 64
    &&& (m.3 matches Some(c) ==> 1 <= c <= 6)
    &&& (m.4 matches Some(p) ==> 1 <= p <= 6)
}

/// Whether shakmaty reads `text` as FEN.
pub uninterp spec fn fen_parses(text: Seq<u8>) -> bool;

/// Whether shakmaty reads `text` as FEN of a legal standard chess position
/// (one king per side, the side not to move not in check, and so on).
pub uninterp spec fn fen_is_legal(text: Seq<u8>) -> bool;

/// Relies on shakmaty's `Fen::from_ascii` and `Fen::into_position` in
/// `CastlingMode::Standard`: `None` when the text is not FEN, `Some(None)` when
/// the position is not legal standard chess, else the position.
#[verifier::external_body]
fn read_fen(text: &[u8]) -> (r: Option<Option<Chess>>)
    ensures
        r is None <==> !fen_parses(text@),
        (r matches Some(c) && c is Some) <==> fen_is_legal(text@),
{
    match Fen::from_ascii(text) {
        Err(_) => None,
        Ok(fen) => Some(fen.into_position::<Chess>(CastlingMode::Standard).ok()),
    }
}

/// Whether `text` is FEN of a legal standard chess position, per shakmaty.
pub fn fen_legal(text: &[u8]) -> (r: bool)
    ensures
        r == fen_is_legal(text@),
{
    match read_fen(text) {
        Some(Some(_)) => true,
        _ => false,
    }
}

/// Relies on shakmaty's `Chess::default`: the standard starting position.
#[verifier::external_body]
fn starting_chess() -> (r: Chess) {
    Chess::default()
}

/// Relies on shakmaty's `Board::piece_at`: the piece on a square, as its role code
/// (`u8::from(Role)`, 1 to 6) and whether it is white. `Square::new` panics from 64 up.
#[verifier::external_body]
fn raw_piece_at(c: &Chess, sq: u8) -> (r: Option<(u8, bool)>)
    requires
        sq < 64,
    ensures
        r matches Some(p) ==> 1 <= p.0 <= 6,
{
    c.board().piece_at(Square::new(sq as u32)).map(|p| (u8::from(p.role), p.color.is_white()))
}

/// Relies on shakmaty's `Position::turn`: whether white is to move.
#[verifier::external_body]
fn raw_white_to_move(c: &Chess) -> (r: bool) {
    c.turn().is_white()
}

/// Relies on shakmaty's `Castles::has`: whether a side still holds a castling right.
#[verifier::external_body]
fn raw_castling_right(c: &Chess, white: bool, king_side: bool) -> (r: bool) {
    c.castles().has(shakmaty::Color::from_white(white), CastlingSide::from_king_side(king_side))
}

/// Relies on shakmaty's `Position::ep_square` in `EnPassantMode::Legal`: the
/// en-passant target square (an index below 64), only when such a capture is legal.
#[verifier::external_body]
fn raw_legal_ep_square(c: &Chess) -> (r: Option<u8>)
    ensures
        r matches Some(s) ==> s < 64,
{
    c.ep_square(EnPassantMode::Legal).map(u8::from)
}

/// Relies on shakmaty's `Position::legal_moves` and `Position::play_unchecked`:
/// the legal moves in generation order, each read through `Move::role`, `from`,
/// `to`, `capture`, `promotion`, `is_castle` and `is_en_passant` (roles as codes
/// 1 to 6, squares below 64), paired with the position it leads to. Only
/// generated legal moves are played.
#[verifier::external_body]
fn raw_legal_moves(c: &Chess) -> (r: Vec<(RawMove, Chess)>)
    ensures
        forall|i: int| 0 <= i < r@.len() ==> raw_move_ok(#[trigger] r@[i].0),
{
    let mut r = Vec::new();
    for m in c.legal_moves() {
        let mut next = c.clone();
        next.play_unchecked(&m);
        let code = (u8::from(m.role()), m.from().map(u8::from), u8::from(m.to()), m.capture().map(u8::from),
            m.promotion().map(u8::from), m.is_castle(), m.is_en_passant());
        r.push((code, next));
    }
    r
}

/// Relies on shakmaty's `Position::is_check`: whether the side to move is in check.
#[verifier::external_body]
fn raw_is_check(c: &Chess) -> (r: bool) {
    c.is_check()
}

/// Relies on shakmaty's `Position::outcome`: `None` while the game goes on,
/// `Some(Some(white_won))` for a decisive result, `Some(None)` for a draw.
#[verifier::external_body]
fn raw_outcome(c: &Chess) -> (r: Option<Option<bool>>) {
    match c.outcome() {
        None => None,
        Some(Outcome::Decisive { winner }) => Some(Some(winner.is_white())),
        Some(Outcome::Draw) => Some(None),
    }
}

/// Relies on shakmaty's `Chess::clone`: an independent copy of the position.
#[verifier::external_body]
fn raw_clone(c: &Chess) -> (r: Chess) {
    c.clone()
}

fn move_from_raw(m: RawMove) -> (r: ChessMove)
    requires
        raw_move_ok(m),
    ensures
        r.wf(),
        r.to == m.2,
        r.from == m.1,
{
    let kind = if m.5 {
        MoveKind::Castle
    } else if m.6 {
        MoveKind::EnPassant
    } else if m.1.is_none() {
        MoveKind::Put
    } else {
        MoveKind::Normal
    };
    let capture = match m.3 {
        Some(c) => Some(role_from_code(c)),
        None => None,
    };
    let promotion = match m.4 {
        Some(p) => Some(role_from_code(p)),
        None => None,
    };
    ChessMove { kind, role: role_from_code(m.0), from: m.1, to: m.2, capture, promotion }
}

impl Position {
    /// Reads every plain value of an engine position.
    fn from_engine(engine: Chess) -> (r: Position)
        ensures
            r.wf(),
    {
        let mut squares: Vec<Option<Piece>> = Vec::new();
        let mut sq: u8 = 0;
        while sq < 64
            invariant
                sq <= 64,
                squares@.len() == sq as int,
            decreases 64 - sq,
        {
            let piece = match raw_piece_at(&engine, sq) {
                Some(p) => Some(Piece { role: role_from_code(p.0), color: color_from_white(p.1) }),
                None => None,
            };
            squares.push(piece);
            sq = sq + 1;
        }
        let castling = CastlingRights {
            white_king_side: raw_castling_right(&engine, true, true),
            white_queen_side: raw_castling_right(&engine, true, false),
            black_king_side: raw_castling_right(&engine, false, true),
            black_queen_side: raw_castling_right(&engine, false, false),
        };
        let mut raw = raw_legal_moves(&engine);
        let mut legal_moves: Vec<ChessMove> = Vec::new();
        let mut successors: Vec<Chess> = Vec::new();
        while raw.len() > 0
            invariant
                legal_moves@.len() == successors@.len(),
                forall|j: int| 0 <= j < raw@.len() ==> raw_move_ok(#[trigger] raw@[j].0),
                forall|j: int| 0 <= j < legal_moves@.len() ==> (#[trigger] legal_moves@[j]).wf(),
            decreases raw@.len(),
        {
            let (code, next) = raw.remove(0);
            legal_moves.push(move_from_raw(code));
            successors.push(next);
        }
        let outcome = match raw_outcome(&engine) {
            None => None,
            Some(Some(white_won)) => Some(GameOutcome::Decisive { winner: color_from_white(white_won) }),
            Some(None) => Some(GameOutcome::Draw),
        };
        let turn = color_from_white(raw_white_to_move(&engine));
        let ep_square = raw_legal_ep_square(&engine);
        let in_check = raw_is_check(&engine);
        Position { engine, squares, turn, castling, ep_square, legal_moves, successors, in_check, outcome }
    }

    /// The standard starting position.
    pub fn standard() -> (r: Position)
        ensures
            r.wf(),
    {
        Position::from_engine(starting_chess())
    }

    /// Reads a position from FEN text.
    pub fn from_fen(text: &str) -> (r: Result<Position, FenError>)
        ensures
            r matches Ok(p) ==> p.wf(),
            r is Ok <==> fen_is_legal(text.spec_bytes()),
            r == Err::<Position, FenError>(FenError::Syntax) <==> !fen_parses(text.spec_bytes()),
    {
        match read_fen(text.as_bytes()) {
            None => Err(FenError::Syntax),
            Some(None) => Err(FenError::IllegalPosition),
            Some(Some(engine)) => Ok(Position::from_engine(engine)),
        }
    }

    /// An independent copy.
    pub fn duplicate(&self) -> (r: Position)
        requires
            self.wf(),
        ensures
            r.wf(),
            r.squares@ == self.squares@,
            r.turn == self.turn,
            r.castling == self.castling,
            r.ep_square == self.ep_square,
            r.legal_moves@ == self.legal_moves@,
            r.in_check == self.in_check,
            r.outcome == self.outcome,
    {
        let mut squares: Vec<Option<Piece>> = Vec::new();
        let mut i: usize = 0;
        while i < self.squares.len()
            invariant
                i <= self.squares@.len(),
                squares@ == self.squares@.subrange(0, i as int),
            decreases self.squares@.len() - i,
        {
            squares.push(self.squares[i]);
            i = i + 1;
        }
        let mut legal_moves: Vec<ChessMove> = Vec::new();
        let mut successors: Vec<Chess> = Vec::new();
        let mut j: usize = 0;
        while j < self.legal_moves.len()
            invariant
                self.wf(),
                j <= self.legal_moves@.len(),
                legal_moves@ == self.legal_moves@.subrange(0, j as int),
                successors@.len() == j,
            decreases self.legal_moves@.len() - j,
        {
            legal_moves.push(self.legal_moves[j]);
            successors.push(raw_clone(&self.successors[j]));
            j = j + 1;
        }
        assert(squares@ == self.squares@.subrange(0, self.squares@.len() as int));
        assert(legal_moves@ == self.legal_moves@.subrange(0, self.legal_moves@.len() as int));
        Position {
            engine: raw_clone(&self.engine),
            squares,
            turn: self.turn,
            castling: self.castling,
            ep_square: self.ep_square,
            legal_moves,
            successors,
            in_check: self.in_check,
            outcome: self.outcome,
        }
    }

    /// The position after playing the legal move at `index` of `legal_moves`;
    /// `None` exactly past the end of the list.
    pub fn play_nth(&self, index: usize) -> (r: Option<Position>)
        requires
            self.wf(),
        ensures
            r is Some <==> index < self.legal_moves@.len(),
            r matches Some(p) ==> p.wf(),
    {
        if index < self.successors.len() {
            Some(Position::from_engine(raw_clone(&self.successors[index])))
        } else {
            None
        }
    }
}

} // verus!
