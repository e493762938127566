use vstd::prelude::*;
use crate::chess::{file_of, rank_of, ChessMove, Color, MoveKind, Position, Role};
use shakmaty::Position as _;
use crate::context::AiGameStateContext;
use crate::drawbacks::filtered;
use crate::heuristic::{contains_move, random_index};

verus! {

/// Relies on shakmaty's `Board` display: the piece-placement field of FEN
/// (ranks separated by `/`, no spaces), as ASCII bytes.
#[verifier::external_body]
fn placement_bytes(p: &Position) -> (r: Vec<u8>) {
    p.engine.board().to_string().into_bytes()
}

/// What follows the placement in the FEN handed to pleco: the side to move, no
/// castling rights, no en-passant square, no half moves, first full move.
pub open spec fn fen_suffix(turn: Color) -> Seq<u8> {
    seq![32u8, if turn == Color::White { 119u8 } else { 98u8 }, 32u8, 45u8, 32u8, 45u8, 32u8, 48u8, 32u8, 49u8]
}

/// How many times byte `b` occurs in `s`.
pub open spec fn count_byte(s: Seq<u8>, b: u8) -> nat
    decreases s.len(),
{
    if s.len() == 0 {
        0
    } else {
        count_byte(s.drop_last(), b) + (if s.last() == b { 1nat } else { 0nat })
    }
}

/// Text pleco reads and plays on without panicking: FEN that shakmaty accepts
/// as a legal standard position (so the side not to move is not in check),
/// made of a placement with exactly one white and one black king and no space,
/// followed by a suffix whose full-move number is 1.
pub open spec fn pleco_safe(fen: Seq<u8>) -> bool {
    &&& crate::chess::fen_is_legal(fen)
    &&& exists|placement: Seq<u8>, turn: Color| {
        &&& fen == placement + fen_suffix(turn)
        &&& count_byte(placement, 75u8) == 1
        &&& count_byte(placement, 107u8) == 1
        &&& count_byte(placement, 32u8) == 0
    }
}

/// Relies on pleco's `Board::from_fen` (after `str::from_utf8`) and
/// `Board::generate_moves`: the number of legal moves. `from_fen` panics on a
/// full-move number of 0 and on a side without exactly one king, and move
/// generation assumes a legal position; `requires` leaves those out.
#[verifier::external_body]
fn pleco_move_count(fen: &Vec<u8>) -> (r: Option<usize>)
    requires
        pleco_safe(fen@),
{
    let board = pleco::Board::from_fen(std::str::from_utf8(fen).ok()?).ok()?;
    Some(board.generate_moves().len())
}

fn count_of(bytes: &Vec<u8>, b: u8) -> (r: usize)
    ensures
        r as nat == count_byte(bytes@, b),
{
    let mut n: usize = 0;
    let mut i: usize = 0;
    while i < bytes.len()
        invariant
            i <= bytes@.len(),
            n <= i,
            n as nat == count_byte(bytes@.subrange(0, i as int), b),
        decreases bytes@.len() - i,
    {
        assert(bytes@.subrange(0, i as int + 1).drop_last() == bytes@.subrange(0, i as int));
        if bytes[i] == b {
            n = n + 1;
        }
        i = i + 1;
    }
    assert(bytes@.subrange(0, bytes@.len() as int) == bytes@);
    n
}

/// The FEN pleco reads for a placement and a side to move.
pub fn pleco_fen(placement: &Vec<u8>, turn: Color) -> (r: Vec<u8>)
    ensures
        r@ == placement@ + fen_suffix(turn),
{
    let mut r: Vec<u8> = Vec::new();
    let mut i: usize = 0;
    while i < placement.len()
        invariant
            i <= placement@.len(),
            r@ == placement@.subrange(0, i as int),
        decreases placement@.len() - i,
    {
        r.push(placement[i]);
        i = i + 1;
    }
    let side: u8 = if matches!(turn, Color::White) { 119 } else { 98 };
    let suffix = vec![32u8, side, 32u8, 45u8, 32u8, 45u8, 32u8, 48u8, 32u8, 49u8];
    let mut j: usize = 0;
    while j < suffix.len()
        invariant
            j <= suffix@.len(),
            suffix@ == fen_suffix(turn),
            r@ == placement@ + suffix@.subrange(0, j as int),
        decreases suffix@.len() - j,
    {
        r.push(suffix[j]);
        j = j + 1;
    }
    assert(suffix@.subrange(0, 10) == suffix@);
    r
}

/// Relies on pleco's `Board::from_fen`, `Board::generate_moves` and `BitMove`
/// accessors: origin and destination (`get_src_u8`, `get_dest_u8`, below 64),
/// whether a promotion (`is_promo`) and the promotion piece (`promo_piece`, as
/// its `PieceType` code) of the generated move at `index`.
#[verifier::external_body]
fn pleco_move_at(fen: &Vec<u8>, index: usize) -> (r: Option<(u8, u8, bool, u8)>)
    requires
        pleco_safe(fen@),
    ensures
        r matches Some(m) ==> m.0 < 64 && m.1 < 64,
{
    let board = pleco::Board::from_fen(std::str::from_utf8(fen).ok()?).ok()?;
    let m = *board.generate_moves().get(index)?;
    Some((m.get_src_u8(), m.get_dest_u8(), m.is_promo(), m.promo_piece() as u8))
}

/// Relies on pleco's `Board::from_fen`, `Board::generate_moves`,
/// `Board::apply_move` and `Board::psq`: the midgame and endgame piece-square
/// score, in white's favour, after the generated move at `index` (a generated
/// move is legal, so applying it does not panic).
#[verifier::external_body]
fn pleco_score_after(fen: &Vec<u8>, index: usize) -> (r: Option<(i32, i32)>)
    requires
        pleco_safe(fen@),
{
    let mut board = pleco::Board::from_fen(std::str::from_utf8(fen).ok()?).ok()?;
    let m = *board.generate_moves().get(index)?;
    board.apply_move(m);
    let s = board.psq();
    Some((s.0, s.1))
}

/// Whether score `a` beats score `b`: by midgame value, then by endgame value.
pub open spec fn better_score(a: (i32, i32), b: (i32, i32)) -> bool {
    if a.0 == b.0 { a.1 > b.1 } else { a.0 > b.0 }
}

pub fn is_better_score(score: (i32, i32), best_score: (i32, i32)) -> (r: bool)
    ensures
        r == better_score(score, best_score),
{
    if score.0 == best_score.0 {
        score.1 > best_score.1
    } else {
        score.0 > best_score.0
    }
}

/// Score below every score pleco gives.
pub const NO_SCORE: (i32, i32) = (-999999, -999999);

/// Index of the first best score strictly above `NO_SCORE`, skipping missing
/// scores; `None` when there is none.
pub fn first_best_score(scores: &Vec<Option<(i32, i32)>>) -> (r: Option<usize>)
    ensures
        r is None <==> forall|j: int| 0 <= j < scores@.len() ==>
            (#[trigger] scores@[j] matches Some(sj) ==> !better_score(sj, NO_SCORE)),
        r matches Some(k) ==> {
            &&& k < scores@.len()
            &&& scores@[k as int] is Some
            &&& better_score(scores@[k as int]->0, NO_SCORE)
            &&& forall|j: int| 0 <= j < scores@.len() ==>
                (#[trigger] scores@[j] matches Some(sj) ==> !better_score(sj, scores@[k as int]->0))
            &&& forall|j: int| 0 <= j < k ==>
                (#[trigger] scores@[j] matches Some(sj) ==> better_score(scores@[k as int]->0, sj))
        },
{
    let mut best: (i32, i32) = NO_SCORE;
    let mut best_index: Option<usize> = None;
    let mut i: usize = 0;
    while i < scores.len()
        invariant
            i <= scores@.len(),
            best_index is None ==> best == NO_SCORE,
            best_index matches Some(k) ==> k < i && scores@[k as int] == Some(best) && better_score(best, NO_SCORE),
            forall|j: int| 0 <= j < i ==> (#[trigger] scores@[j] matches Some(sj) ==> !better_score(sj, best)),
            best_index matches Some(k) ==> forall|j: int| 0 <= j < k ==>
                (#[trigger] scores@[j] matches Some(sj) ==> better_score(best, sj)),
        decreases scores@.len() - i,
    {
        if let Some(sc) = scores[i] {
            if is_better_score(sc, best) {
                best = sc;
                best_index = Some(i);
            }
        }
        i = i + 1;
    }
    best_index
}

/// The role for pleco's promotion piece code (2 knight, 3 bishop, 4 rook, 5 queen).
pub open spec fn promotion_role(code: u8) -> Option<Role> {
    if code == 2 {
        Some(Role::Knight)
    } else if code == 3 {
        Some(Role::Bishop)
    } else if code == 4 {
        Some(Role::Rook)
    } else if code == 5 {
        Some(Role::Queen)
    } else {
        None
    }
}

/// The move a pleco move from `src` to `dest` stands for on `board`: `None`
/// when no piece stands on `src`; a castle when a king moves more than one file
/// (to the rook in the corner on that side); else a normal move capturing what
/// stands on `dest`.
pub open spec fn converted_move(src: u8, dest: u8, promo: Option<u8>, board: Position) -> Option<ChessMove> {
    match board.squares@[src as int] {
        None => None,
        Some(piece) => {
            let from_file = file_of(src as int);
            let to_file = file_of(dest as int);
            if piece.role == Role::King && (from_file - to_file > 1 || to_file - from_file > 1) {
                let rook_file = if to_file > from_file { 7int } else { 0int };
                Some(ChessMove {
                    kind: MoveKind::Castle,
                    role: Role::King,
                    from: Some(src),
                    to: (rank_of(src as int) * 8 + rook_file) as u8,
                    capture: None,
                    promotion: None,
                })
            } else {
                Some(ChessMove {
                    kind: MoveKind::Normal,
                    role: piece.role,
                    from: Some(src),
                    to: dest,
                    capture: match board.squares@[dest as int] {
                        Some(c) => Some(c.role),
                        None => None,
                    },
                    promotion: match promo {
                        Some(code) => promotion_role(code),
                        None => None,
                    },
                })
            }
        },
    }
}

/// Converts a pleco move, given by origin, destination and promotion piece code, to a move on `board`.
pub fn to_shakmaty_move(src: u8, dest: u8, promo: Option<u8>, board: &Position) -> (r: Option<ChessMove>)
    requires
        board.wf(),
        src < 64,
        dest < 64,
    ensures
        r == converted_move(src, dest, promo, *board),
{
    let piece = match board.squares[src as usize] {
        Some(p) => p,
        None => return None,
    };
    let from_file = src % 8;
    let to_file = dest % 8;
    if matches!(piece.role, Role::King) && (from_file > to_file + 1 || to_file > from_file + 1) {
        let rook_file: u8 = if to_file > from_file { 7 } else { 0 };
        return Some(ChessMove {
            kind: MoveKind::Castle,
            role: Role::King,
            from: Some(src),
            to: (src / 8) * 8 + rook_file,
            capture: None,
            promotion: None,
        });
    }
    let capture = match board.squares[dest as usize] {
        Some(c) => Some(c.role),
        None => None,
    };
    let promotion = match promo {
        Some(2) => Some(Role::Knight),
        Some(3) => Some(Role::Bishop),
        Some(4) => Some(Role::Rook),
        Some(5) => Some(Role::Queen),
        _ => None,
    };
    Some(ChessMove { kind: MoveKind::Normal, role: piece.role, from: Some(src), to: dest, capture, promotion })
}

/// The move pleco picked, converted, when it is one of the allowed moves.
pub fn allowed_pick(converted: Option<ChessMove>, candidates: &Vec<ChessMove>) -> (r: Option<ChessMove>)
    ensures
        r == (match converted {
            Some(m) => if candidates@.contains(m) { Some(m) } else { None::<ChessMove> },
            None => None::<ChessMove>,
        }),
{
    match converted {
        Some(m) => if contains_move(candidates, &m) { Some(m) } else { None },
        None => None,
    }
}

fn random_candidate(candidates: &Vec<ChessMove>) -> (r: ChessMove)
    requires
        candidates@.len() > 0,
    ensures
        candidates@.contains(r),
{
    let i = random_index(candidates.len());
    assert(candidates@.contains(candidates@[i as int]));
    candidates[i]
}

/// Picks the move whose resulting position pleco scores best (midgame value
/// first, in white's favour), searching one ply. A pick the handicap does not
/// allow, or a failure to hand the position to pleco, gives a uniformly random
/// allowed move instead. `None` exactly when the handicap leaves no legal move.
/// The one-ply search is the same whatever the time limit and depth.
pub fn find_best_move_pleco(ctx: &AiGameStateContext, _time_limit_ms: u64, _depth: u16) -> (r: Option<ChessMove>)
    requires
        ctx.board.wf(),
    ensures
        r is None <==> filtered(ctx.player_drawback, ctx.board.legal_moves@, ctx.rng_outcome).len() == 0,
        r matches Some(m) ==> filtered(ctx.player_drawback, ctx.board.legal_moves@, ctx.rng_outcome).contains(m),
{
    let candidates = ctx.player_drawback.filter_moves(&ctx.board.legal_moves, ctx.rng_outcome);
    if candidates.len() == 0 {
        return None;
    }
    let placement = placement_bytes(&ctx.board);
    if count_of(&placement, 75) != 1 || count_of(&placement, 107) != 1 || count_of(&placement, 32) != 0 {
        return Some(random_candidate(&candidates));
    }
    let fen = pleco_fen(&placement, ctx.board.turn);
    if !crate::chess::fen_legal(fen.as_slice()) {
        return Some(random_candidate(&candidates));
    }
    assert(pleco_safe(fen@)) by {
        assert(fen@ == placement@ + fen_suffix(ctx.board.turn));
    }
    let n = match pleco_move_count(&fen) {
        Some(n) => n,
        None => return Some(random_candidate(&candidates)),
    };
    let mut scores: Vec<Option<(i32, i32)>> = Vec::new();
    let mut i: usize = 0;
    while i < n
        invariant
            i <= n,
            pleco_safe(fen@),
        decreases n - i,
    {
        scores.push(pleco_score_after(&fen, i));
        i = i + 1;
    }
    let best_index = first_best_score(&scores);
    let chosen = match best_index {
        Some(k) => match pleco_move_at(&fen, k) {
            Some((src, dest, is_promo, piece)) => {
                let promo = if is_promo { Some(piece) } else { None };
                to_shakmaty_move(src, dest, promo, &ctx.board)
            },
            None => None,
        },
        None => None,
    };
    match allowed_pick(chosen, &candidates) {
        Some(m) => Some(m),
        None => Some(random_candidate(&candidates)),
    }
}

} // verus!
