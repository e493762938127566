use vstd::prelude::*;
use std::time::Instant;
use rand::Rng;
use crate::chess::{file_of, opposite, rank_of, ChessMove, Color, MoveKind, Piece, Position, Role};
use crate::context::AiGameStateContext;
use crate::drawbacks::filtered;
use crate::evaluation::{evaluate_position_with_pst, evaluation};

verus! {

#[verifier::external_type_specification]
#[verifier::external_body]
pub struct ExInstant(std::time::Instant);

/// Relies on `Instant::now`: the current time.
#[verifier::external_body]
pub(crate) fn now() -> (r: Instant) {
    Instant::now()
}

/// Relies on `Instant::elapsed`: milliseconds since `start`, per `Duration::as_millis`.
#[verifier::external_body]
pub(crate) fn elapsed_ms(start: &Instant) -> (r: u128) {
    start.elapsed().as_millis()
}

/// Relies on rand's `Rng::gen_range` on the thread-local generator: a uniform
/// index below `n`. An empty range panics, so `n` is positive.
#[verifier::external_body]
pub(crate) fn random_index(n: usize) -> (r: usize)
    requires
        n > 0,
    ensures
        r < n,
{
    rand::thread_rng().gen_range(0..n)
}

/// Static value of a captured piece.
pub open spec fn role_capture_value(r: Role) -> int {
    match r {
        Role::Pawn => 120,
        Role::Knight => 370,
        Role::Bishop => 380,
        Role::Rook => 550,
        Role::Queen => 1000,
        Role::King => 20000,
    }
}

/// Value of what move `m` captures on `squares`: nothing for a castle (its
/// destination is the own rook), else the piece on its destination, or a pawn
/// for a pawn moving diagonally onto an empty square (en passant).
pub open spec fn capture_value(squares: Seq<Option<Piece>>, m: ChessMove) -> int {
    if m.kind == MoveKind::Castle {
        0
    } else {
        match squares[m.to as int] {
        Some(p) => role_capture_value(p.role),
        None => match m.from {
            Some(f) => match squares[f as int] {
                Some(p) => if p.role == Role::Pawn && file_of(f as int) != file_of(m.to as int) { 120 } else { 0 },
                None => 0,
            },
            None => 0,
        },
        }
    }
}

/// Whether move `m` lands on a king.
pub open spec fn captures_king(squares: Seq<Option<Piece>>, m: ChessMove) -> bool {
    squares[m.to as int] matches Some(p) && p.role == Role::King
}

/// Whether the move captures a king on `board`.
pub fn is_king_capture(board: &Position, m: &ChessMove) -> (r: bool)
    requires
        board.wf(),
        m.wf(),
    ensures
        r == captures_king(board.squares@, *m),
{
    match board.squares[m.to as usize] {
        Some(p) => matches!(p.role, Role::King),
        None => false,
    }
}

/// Value of what the move captures on `board`.
pub fn get_capture_value(board: &Position, m: &ChessMove) -> (r: i32)
    requires
        board.wf(),
        m.wf(),
    ensures
        r as int == capture_value(board.squares@, *m),
        0 <= r <= 20000,
{
    if matches!(m.kind, MoveKind::Castle) {
        return 0;
    }
    match board.squares[m.to as usize] {
        Some(p) => match p.role {
            Role::Pawn => 120,
            Role::Knight => 370,
            Role::Bishop => 380,
            Role::Rook => 550,
            Role::Queen => 1000,
            Role::King => 20000,
        },
        None => match m.from {
            Some(f) => match board.squares[f as usize] {
                Some(p) => {
                    if matches!(p.role, Role::Pawn) && f % 8 != m.to % 8 {
                        120
                    } else {
                        0
                    }
                },
                None => 0,
            },
            None => 0,
        },
    }
}

/// The first square, from `from` on, that holds the king of `color`.
pub open spec fn king_square_from(squares: Seq<Option<Piece>>, color: Color, from: int) -> Option<int>
    decreases 64 - from,
{
    if from >= 64 {
        None
    } else if squares[from] == Some(Piece { role: Role::King, color }) {
        Some(from)
    } else {
        king_square_from(squares, color, from + 1)
    }
}

proof fn lemma_king_square_range(squares: Seq<Option<Piece>>, color: Color, from: int)
    requires
        0 <= from,
    ensures
        king_square_from(squares, color, from) matches Some(s) ==> from <= s < 64,
    decreases 64 - from,
{
    if from < 64 {
        lemma_king_square_range(squares, color, from + 1);
    }
}

/// Square of the king of `color`, the lowest if there are several.
pub fn find_king_square(board: &Position, color: Color) -> (r: Option<u8>)
    requires
        board.wf(),
    ensures
        r matches Some(s) ==> s < 64,
        r == (match king_square_from(board.squares@, color, 0) {
            Some(s) => Some(s as u8),
            None => None::<u8>,
        }),
{
    proof {
        lemma_king_square_range(board.squares@, color, 0);
    }
    let mut sq: u8 = 0;
    while sq < 64
        invariant
            sq <= 64,
            board.wf(),
            king_square_from(board.squares@, color, 0) == king_square_from(board.squares@, color, sq as int),
        decreases 64 - sq,
    {
        if board.squares[sq as usize] == Some(Piece { role: Role::King, color }) {
            return Some(sq);
        }
        sq = sq + 1;
    }
    None
}

pub open spec fn protection_bonus(r: Role) -> int {
    match r {
        Role::Pawn => 15,
        Role::Knight => 10,
        Role::Bishop => 8,
        Role::Rook => 12,
        Role::Queen => 5,
        Role::King => 0,
    }
}

/// Bonus for a piece of `color` on the square at offset (df, dr) from (file, rank).
pub open spec fn neighbour_bonus(squares: Seq<Option<Piece>>, color: Color, file: int, rank: int, df: int, dr: int) -> int {
    let f = file + df;
    let r = rank + dr;
    if 0 <= f <= 7 && 0 <= r <= 7 {
        match squares[r * 8 + f] {
            Some(p) => if p.color == color { protection_bonus(p.role) } else { 0 },
            None => 0,
        }
    } else {
        0
    }
}

/// Bonus for a king on the edge of the board, more in a corner.
pub open spec fn edge_bonus(f: int, r: int) -> int {
    if f == 0 || f == 7 || r == 0 || r == 7 {
        20 + (if (f == 0 || f == 7) && (r == 0 || r == 7) { 15int } else { 0int })
    } else {
        0
    }
}

/// Bonus for the own pieces on the eight squares around (file, rank).
pub open spec fn neighbours_total(squares: Seq<Option<Piece>>, color: Color, f: int, r: int) -> int {
    neighbour_bonus(squares, color, f, r, -1, 1) + neighbour_bonus(squares, color, f, r, 0, 1)
        + neighbour_bonus(squares, color, f, r, 1, 1) + neighbour_bonus(squares, color, f, r, -1, 0)
        + neighbour_bonus(squares, color, f, r, 1, 0) + neighbour_bonus(squares, color, f, r, -1, -1)
        + neighbour_bonus(squares, color, f, r, 0, -1) + neighbour_bonus(squares, color, f, r, 1, -1)
}

/// Safety of the king on square `k`: a bonus on the edge, more in a corner,
/// and a bonus for each own piece next to it.
pub open spec fn king_square_safety(squares: Seq<Option<Piece>>, color: Color, k: int) -> int {
    edge_bonus(file_of(k), rank_of(k)) + neighbours_total(squares, color, file_of(k), rank_of(k))
}

/// King safety of `color`: zero without a king; white's counts half again.
pub open spec fn king_safety(squares: Seq<Option<Piece>>, color: Color) -> int {
    match king_square_from(squares, color, 0) {
        None => 0,
        Some(k) => {
            let s = king_square_safety(squares, color, k);
            if color == Color::White { (s * 3) / 2 } else { s }
        },
    }
}

fn neighbour(board: &Position, color: Color, file: i8, rank: i8, df: i8, dr: i8) -> (r: i32)
    requires
        board.wf(),
        0 <= file <= 7,
        0 <= rank <= 7,
        -1 <= df <= 1,
        -1 <= dr <= 1,
    ensures
        r as int == neighbour_bonus(board.squares@, color, file as int, rank as int, df as int, dr as int),
        0 <= r <= 15,
{
    let f = file + df;
    let r = rank + dr;
    if 0 <= f && f <= 7 && 0 <= r && r <= 7 {
        match board.squares[(r as usize) * 8 + (f as usize)] {
            Some(p) => {
                if p.color == color {
                    match p.role {
                        Role::Pawn => 15,
                        Role::Knight => 10,
                        Role::Bishop => 8,
                        Role::Rook => 12,
                        Role::Queen => 5,
                        Role::King => 0,
                    }
                } else {
                    0
                }
            },
            None => 0,
        }
    } else {
        0
    }
}

fn neighbours(board: &Position, color: Color, file: i8, rank: i8) -> (r: i32)
    requires
        board.wf(),
        0 <= file <= 7,
        0 <= rank <= 7,
    ensures
        r as int == neighbours_total(board.squares@, color, file as int, rank as int),
        0 <= r <= 120,
{
    let a = neighbour(board, color, file, rank, -1, 1);
    let b = neighbour(board, color, file, rank, 0, 1);
    let c = neighbour(board, color, file, rank, 1, 1);
    let d = neighbour(board, color, file, rank, -1, 0);
    let e = neighbour(board, color, file, rank, 1, 0);
    let f = neighbour(board, color, file, rank, -1, -1);
    let g = neighbour(board, color, file, rank, 0, -1);
    let h = neighbour(board, color, file, rank, 1, -1);
    a + b + c + d + e + f + g + h
}

fn edge(file: i8, rank: i8) -> (r: i32)
    ensures
        r as int == edge_bonus(file as int, rank as int),
        0 <= r <= 35,
{
    if file == 0 || file == 7 || rank == 0 || rank == 7 {
        if (file == 0 || file == 7) && (rank == 0 || rank == 7) {
            35
        } else {
            20
        }
    } else {
        0
    }
}

/// King safety of `color` on `board`.
pub fn evaluate_king_safety(board: &Position, color: Color) -> (r: i32)
    requires
        board.wf(),
    ensures
        r as int == king_safety(board.squares@, color),
        0 <= r <= 300,
{
    let king_sq = match find_king_square(board, color) {
        None => return 0,
        Some(k) => k,
    };
    proof {
        lemma_king_square_range(board.squares@, color, 0);
    }
    let file = (king_sq % 8) as i8;
    let rank = (king_sq / 8) as i8;
    assert(king_square_from(board.squares@, color, 0) == Some(king_sq as int));
    assert(file as int == file_of(king_sq as int) && rank as int == rank_of(king_sq as int));
    let safety = edge(file, rank) + neighbours(board, color, file, rank);
    assert(safety as int == king_square_safety(board.squares@, color, king_sq as int));
    if matches!(color, Color::White) {
        safety * 3 / 2
    } else {
        safety
    }
}

/// Scan of the opponent's replies, in order, up to the first that captures a
/// king: whether one does, how many capture something before it, and the
/// largest value so captured.
pub open spec fn reply_scan(squares: Seq<Option<Piece>>, replies: Seq<ChessMove>, n: int) -> (bool, int, int)
    decreases n,
{
    if n <= 0 {
        (false, 0, 0)
    } else {
        let prev = reply_scan(squares, replies, n - 1);
        if prev.0 {
            prev
        } else if captures_king(squares, replies[n - 1]) {
            (true, prev.1, prev.2)
        } else {
            let v = capture_value(squares, replies[n - 1]);
            if v > 0 {
                (false, prev.1 + 1, if v > prev.2 { v } else { prev.2 })
            } else {
                prev
            }
        }
    }
}

/// Heuristic score of playing `m` from `before`, reaching `after`.
pub open spec fn candidate_score(before: Position, m: ChessMove, after: Position) -> int {
    let replies = after.legal_moves@;
    let scan = reply_scan(after.squares@, replies, replies.len() as int);
    let n = replies.len() as int;
    capture_value(before.squares@, m) * 3
        + (if captures_king(before.squares@, m) { 20000int } else { 0int })
        - (if scan.0 { 15000int } else { 0int })
        - (if scan.1 > 0 { scan.2 * 2 } else { 0int })
        + (if after.in_check { 70 + (if n < 20 { 30 * (20 - n) } else { 0int }) } else { 0int })
        + (if before.in_check { 500int } else { 0int })
        + king_safety(after.squares@, opposite(after.turn))
        - evaluation(after.squares@, after.turn)
}

/// Scores playing `m` from `before`, where `after` is the position it reaches:
/// three times the captured value, a large bonus for taking the king, a large
/// penalty if a reply takes our king, a penalty for the most valuable piece a
/// reply can take, a bonus for giving check that grows as the replies get fewer,
/// a bonus for answering a check, our king's safety and the negated evaluation
/// of `after` for the side then to move.
pub fn score_candidate(before: &Position, m: &ChessMove, after: &Position) -> (r: i32)
    requires
        before.wf(),
        after.wf(),
        m.wf(),
    ensures
        r as int == candidate_score(*before, *m, *after),
{
    let capture_value = get_capture_value(before, m);
    let capturing_king = is_king_capture(before, m);
    let mut score: i32 = capture_value * 3;
    if capturing_king {
        score = score + 20000;
    }
    let our_color = crate::chess::opposite_color(after.turn);
    let mut opponent_can_capture_king = false;
    let mut pieces_at_risk: usize = 0;
    let mut max_value_at_risk: i32 = 0;
    let mut i: usize = 0;
    while i < after.legal_moves.len()
        invariant
            i <= after.legal_moves@.len(),
            after.wf(),
            (opponent_can_capture_king, pieces_at_risk as int, max_value_at_risk as int)
                == reply_scan(after.squares@, after.legal_moves@, i as int),
            pieces_at_risk <= i,
            0 <= max_value_at_risk <= 20000,
        decreases after.legal_moves@.len() - i,
    {
        if !opponent_can_capture_king {
            let reply = &after.legal_moves[i];
            if is_king_capture(after, reply) {
                opponent_can_capture_king = true;
            } else {
                let v = get_capture_value(after, reply);
                if v > 0 {
                    pieces_at_risk = pieces_at_risk + 1;
                    if v > max_value_at_risk {
                        max_value_at_risk = v;
                    }
                }
            }
        }
        i = i + 1;
    }
    if opponent_can_capture_king {
        score = score - 15000;
    }
    if pieces_at_risk > 0 {
        score = score - max_value_at_risk * 2;
    }
    if after.in_check {
        let n = after.legal_moves.len();
        let restriction: i32 = if n < 20 { 30 * (20 - n as i32) } else { 0 };
        score = score + 70 + restriction;
    }
    if before.in_check {
        score = score + 500;
    }
    score = score + evaluate_king_safety(after, our_color);
    let pst_score = evaluate_position_with_pst(after);
    score - pst_score
}

/// Whether `m` is one of `moves`.
pub fn contains_move(moves: &Vec<ChessMove>, m: &ChessMove) -> (r: bool)
    ensures
        r == moves@.contains(*m),
{
    match index_of_move(moves, m) {
        Some(_) => true,
        None => false,
    }
}

/// Position of the first occurrence of `m` in `moves`.
pub fn index_of_move(moves: &Vec<ChessMove>, m: &ChessMove) -> (r: Option<usize>)
    ensures
        r matches Some(i) ==> i < moves@.len() && moves@[i as int] == *m,
        r is None ==> !moves@.contains(*m),
{
    let mut i: usize = 0;
    while i < moves.len()
        invariant
            i <= moves@.len(),
            forall|j: int| 0 <= j < i ==> moves@[j] != *m,
        decreases moves@.len() - i,
    {
        if moves[i] == *m {
            return Some(i);
        }
        i = i + 1;
    }
    None
}

/// The position reached by playing `m`; `None` exactly when `m` is not one of
/// the board's legal moves.
pub fn position_after(board: &Position, m: &ChessMove) -> (r: Option<Position>)
    requires
        board.wf(),
    ensures
        r matches Some(p) ==> p.wf(),
        r is Some <==> board.legal_moves@.contains(*m),
{
    match index_of_move(&board.legal_moves, m) {
        Some(i) => board.play_nth(i),
        None => None,
    }
}

/// The highest score and the positions holding it, in order.
pub fn best_indices(scores: &Vec<i32>) -> (r: (i32, Vec<usize>))
    requires
        scores@.len() > 0,
    ensures
        forall|i: int| 0 <= i < scores@.len() ==> scores@[i] <= r.0,
        r.1@.len() > 0,
        forall|k: int| 0 <= k < r.1@.len() ==> {
            &&& (#[trigger] r.1@[k]) < scores@.len()
            &&& scores@[r.1@[k] as int] == r.0
        },
{
    let mut best = scores[0];
    let mut i: usize = 1;
    while i < scores.len()
        invariant
            1 <= i <= scores@.len(),
            forall|j: int| 0 <= j < i ==> scores@[j] <= best,
            exists|j: int| 0 <= j < i && scores@[j] == best,
        decreases scores@.len() - i,
    {
        if scores[i] > best {
            best = scores[i];
        }
        i = i + 1;
    }
    let mut idxs: Vec<usize> = Vec::new();
    let mut j: usize = 0;
    while j < scores.len()
        invariant
            j <= scores@.len(),
            forall|q: int| 0 <= q < scores@.len() ==> scores@[q] <= best,
            exists|q: int| 0 <= q < scores@.len() && scores@[q] == best,
            (exists|q: int| 0 <= q < j && scores@[q] == best) ==> idxs@.len() > 0,
            forall|k: int| 0 <= k < idxs@.len() ==> {
                &&& (#[trigger] idxs@[k]) < scores@.len()
                &&& scores@[idxs@[k] as int] == best
            },
        decreases scores@.len() - j,
    {
        if scores[j] == best {
            idxs.push(j);
            assert(idxs@[idxs@.len() - 1] == j);
        }
        j = j + 1;
    }
    (best, idxs)
}

/// A move of a scored pass with the highest score, ties broken at random.
pub fn choose_from_pass(moves: &Vec<ChessMove>, scores: &Vec<i32>) -> (r: ChessMove)
    requires
        moves@.len() == scores@.len(),
        scores@.len() > 0,
    ensures
        exists|k: int| 0 <= k < moves@.len() && moves@[k] == r
            && forall|j: int| 0 <= j < scores@.len() ==> #[trigger] scores@[j] <= scores@[k],
{
    let (_, idxs) = best_indices(scores);
    let k = random_index(idxs.len());
    let pick = idxs[k];
    assert(scores@[pick as int] == scores@[idxs@[k as int] as int]);
    moves[pick]
}

/// One scoring pass: each candidate the engine can play, with its score.
fn score_pass(board: &Position, candidates: &Vec<ChessMove>) -> (r: (Vec<ChessMove>, Vec<i32>))
    requires
        board.wf(),
        forall|i: int| 0 <= i < candidates@.len() ==> (#[trigger] candidates@[i]).wf(),
    ensures
        r.0@.len() == r.1@.len(),
        forall|k: int| 0 <= k < r.0@.len() ==> candidates@.contains(#[trigger] r.0@[k]),
{
    let mut moves: Vec<ChessMove> = Vec::new();
    let mut scores: Vec<i32> = Vec::new();
    let mut i: usize = 0;
    while i < candidates.len()
        invariant
            i <= candidates@.len(),
            board.wf(),
            forall|j: int| 0 <= j < candidates@.len() ==> (#[trigger] candidates@[j]).wf(),
            moves@.len() == scores@.len(),
            forall|k: int| 0 <= k < moves@.len() ==> candidates@.contains(#[trigger] moves@[k]),
        decreases candidates@.len() - i,
    {
        let m = candidates[i];
        if let Some(after) = position_after(board, &m) {
            let score = score_candidate(board, &m, &after);
            moves.push(m);
            scores.push(score);
            assert(candidates@[i as int] == m);
        }
        i = i + 1;
    }
    (moves, scores)
}

/// Score above which a pass has found a winning move and the search stops.
pub const WINNING_SCORE: i32 = 10000;

/// Picks a move by scoring every move the side's handicap allows and taking
/// one with the best score, ties broken at random. Passes repeat while the
/// iteration and time budgets last, keeping the best pass and stopping early
/// on a winning score. `None` exactly when the handicap leaves no legal move.
pub fn find_best_move_mcts(ctx: &AiGameStateContext, iterations: u32) -> (r: Option<ChessMove>)
    requires
        ctx.board.wf(),
    ensures
        r is None <==> filtered(ctx.player_drawback, ctx.board.legal_moves@, ctx.rng_outcome).len() == 0,
        r matches Some(m) ==> filtered(ctx.player_drawback, ctx.board.legal_moves@, ctx.rng_outcome).contains(m),
{
    let candidates = ctx.player_drawback.filter_moves(&ctx.board.legal_moves, ctx.rng_outcome);
    if candidates.len() == 0 {
        return None;
    }
    proof {
        assert forall|i: int| 0 <= i < candidates@.len() implies (#[trigger] candidates@[i]).wf() by {
            crate::drawbacks::lemma_filtered_moves_wf(ctx.player_drawback, ctx.board.legal_moves@, ctx.rng_outcome, i);
        }
    }
    let start = now();
    let mut best_moves: Vec<ChessMove> = Vec::new();
    let mut best_scores: Vec<i32> = Vec::new();
    let mut best_top: i32 = 0;
    let mut done: u32 = 0;
    while done < iterations && (done == 0 || elapsed_ms(&start) < ctx.time_limit_ms as u128)
        invariant
            ctx.board.wf(),
            candidates@.len() > 0,
            forall|i: int| 0 <= i < candidates@.len() ==> (#[trigger] candidates@[i]).wf(),
            best_moves@.len() == best_scores@.len(),
        decreases iterations - done,
    {
        done = done + 1;
        let (moves, scores) = score_pass(&ctx.board, &candidates);
        if moves.len() > 0 {
            let (top, _) = best_indices(&scores);
            if best_moves.len() == 0 || top > best_top {
                best_moves = moves;
                best_scores = scores;
                best_top = top;
            }
            if top > WINNING_SCORE {
                break;
            }
        }
    }
    if best_moves.len() == 0 {
        let i = random_index(candidates.len());
        assert(candidates@.contains(candidates@[i as int]));
        return Some(candidates[i]);
    }
    let mv = choose_from_pass(&best_moves, &best_scores);
    if !contains_move(&candidates, &mv) {
        let i = random_index(candidates.len());
        assert(candidates@.contains(candidates@[i as int]));
        return Some(candidates[i]);
    }
    Some(mv)
}

} // verus!
