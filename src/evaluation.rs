use vstd::prelude::*;
use crate::chess::{Color, Piece, Position, Role};

verus! {

// Piece-square tables from white's point of view, indexed `file + 8 * rank`.
// Black's tables are these mirrored top to bottom, not negated: the opponent's
// bonus is negated once, by counting it against the side to move. (Negating
// the tables as well would count it twice and keep the evaluation from
// changing sign when the board is mirrored and the colors swapped.)

pub const MG_PAWN_PST: [i32; 64] = [
       0,    0,    0,    0,    0,    0,    0,    0,
      50,   50,   50,   50,   50,   50,   50,   50,
      10,   10,   20,   35,   35,   20,   10,   10,
      10,   15,   30,   70,   70,   30,   15,   10,
       5,   10,   25,   55,   55,   25,   10,    5,
       5,    5,    5,    0,    0,    5,    5,    5,
       0,    0,    0,  -30,  -30,    0,    0,    0,
       0,    0,    0,    0,    0,    0,    0,    0,
];

pub const MG_KNIGHT_PST: [i32; 64] = [
     -80,  -50,  -30,  -30,  -30,  -30,  -50,  -80,
     -50,  -20,    0,    0,    0,    0,  -20,  -50,
     -30,    0,   15,   20,   20,   15,    0,  -30,
     -30,    5,   20,   25,   25,   20,    5,  -30,
     -30,    0,   15,   20,   20,   15,    0,  -30,
     -30,    5,   15,   15,   15,   15,    5,  -30,
     -50,  -20,    0,    5,    5,    0,  -20,  -50,
     -80,  -50,  -30,  -30,  -30,  -30,  -50,  -80,
];

pub const MG_BISHOP_PST: [i32; 64] = [
     -20,  -10,  -10,  -10,  -10,  -10,  -10,  -20,
     -10,    0,    0,    0,    0,    0,    0,  -10,
     -10,    0,    5,   10,   10,    5,    0,  -10,
     -10,    5,    5,   10,   10,    5,    5,  -10,
     -10,    0,   10,   10,   10,   10,    0,  -10,
     -10,   10,   10,   10,   10,   10,   10,  -10,
     -10,   15,    0,    0,    0,    0,   15,  -10,
     -20,  -10,  -10,  -10,  -10,  -10,  -10,  -20,
];

pub const MG_ROOK_PST: [i32; 64] = [
      40,   40,   40,    0,    0,   40,   40,   40,
       5,   15,   15,   50,   50,   15,   50,    5,
       5,    0,    0,    0,    0,    0,    0,    5,
       5,    0,    0,    0,    0,    0,    0,    5,
       5,    0,    0,    0,    0,    0,    0,    5,
       5,    0,    0,    0,    0,    0,    0,    5,
       5,    0,    0,    0,    0,    0,    0,    5,
       0,   -5,    5,    5,    5,   10,   -5,    0,
];

pub const MG_QUEEN_PST: [i32; 64] = [
     -20,  -10,  -10,   -5,   -5,  -10,  -10,  -20,
     -10,    0,    0,    0,    0,    0,    0,  -10,
     -10,    0,    5,    5,    5,    5,    0,  -10,
      -5,    0,    5,    5,    5,    5,    0,   -5,
       0,    0,    5,    5,    5,    5,    0,   -5,
     -10,    5,    5,    5,    5,    5,    0,  -10,
     -10,    0,    5,   -5,   -5,    0,    0,  -10,
     -20,  -10,  -10,   -2,   -5,  -10,  -10,  -20,
];

pub const MG_KING_PST: [i32; 64] = [
    -120, -120, -120, -120, -120, -120, -120, -120,
    -100, -100, -100, -100, -100, -100, -100, -100,
     -80,  -80,  -80,  -80,  -80,  -80,  -80,  -80,
     -70,  -70,  -70,  -70,  -70,  -70,  -70,  -70,
     -60,  -60,  -60,  -60,  -60,  -60,  -60,  -60,
     -40,  -40,  -40,  -40,  -40,  -40,  -40,  -40,
       0,    0,  -10,  -30,  -30,  -10,    0,    0,
      20,   50,   10,    0,    0,   10,   50,   20,
];

pub const EG_PAWN_PST: [i32; 64] = [
       0,    0,    0,    0,    0,    0,    0,    0,
     400,  400,  400,  400,  400,  400,  400,  400,
      50,   55,   50,   50,   50,   50,   55,   50,
      30,   35,   30,   30,   30,   30,   35,   30,
      25,   20,   20,   20,   20,   20,   20,   25,
      15,   10,   10,   10,   10,   10,   10,   15,
      10,   10,   10,   10,   10,   10,   10,   10,
       0,    0,    0,    0,    0,    0,    0,    0,
];

pub const EG_KNIGHT_PST: [i32; 64] = [
     -50,  -40,  -30,  -30,  -30,  -30,  -40,  -50,
     -40,  -20,    0,    0,    0,    0,  -20,  -40,
     -30,    0,   10,   15,   15,   10,    0,  -30,
     -30,   10,   15,   20,   20,   15,   10,  -30,
     -30,    0,   15,   20,   20,   15,    0,  -30,
     -30,    5,   15,   15,   15,   15,    5,  -30,
     -40,  -20,    0,    5,    5,    0,  -20,  -40,
     -50,  -40,  -30,  -30,  -30,  -30,  -40,  -50,
];

pub const EG_BISHOP_PST: [i32; 64] = [
     -20,  -10,  -10,  -10,  -10,  -10,  -10,  -20,
     -10,    0,    0,    0,    0,    0,    0,  -10,
     -10,    0,    5,   10,   10,    5,    0,  -10,
     -10,    5,    5,   10,   10,    5,    5,  -10,
     -10,    0,   10,   10,   10,   10,    0,  -10,
     -10,   10,   10,   10,   10,   10,   10,  -10,
     -10,   10,    0,    0,    0,    0,   10,  -10,
     -20,  -10,  -10,  -10,  -10,  -10,  -10,  -20,
];

pub const EG_ROOK_PST: [i32; 64] = [
      40,   40,   40,    0,    0,   40,   40,   40,
       5,   10,   10,   10,   10,   10,   10,    5,
      -5,    0,    0,    0,    0,    0,    0,   -5,
      -5,    0,    0,    0,    0,    0,    0,   -5,
      -5,    0,    0,    0,    0,    0,    0,   -5,
      -5,    0,    0,    0,    0,    0,    0,   -5,
      -5,    0,    0,    0,    0,    0,    0,   -5,
       0,    0,   10,    5,    5,   10,    0,    0,
];

pub const EG_QUEEN_PST: [i32; 64] = [
     -20,  -10,  -10,   -5,   -5,  -10,  -10,  -20,
     -10,    0,    0,    0,    0,    0,    0,  -10,
     -10,    0,    5,    5,    5,    5,    0,  -10,
      -5,    0,    5,    5,    5,    5,    0,   -5,
       0,    0,    5,    5,    5,    5,    0,   -5,
     -10,    5,    5,    5,    5,    5,    0,  -10,
     -10,    0,    5,    0,    0,    0,    0,  -10,
     -20,  -10,  -10,   -5,   -5,  -10,  -10,  -20,
];

pub const EG_KING_PST: [i32; 64] = [
     -50,  -30,  -30,  -30,  -30,  -30,  -30,  -50,
     -30,  -20,  -20,  -20,  -20,  -20,  -20,  -30,
     -30,  -10,   -5,    0,    0,   -5,  -10,  -30,
     -30,  -10,    0,   10,   10,    0,  -10,  -30,
     -30,  -10,    0,   10,   10,    0,  -10,  -30,
     -30,  -10,   -5,    0,    0,   -5,  -10,  -30,
     -30,  -20,  -20,  -20,  -20,  -20,  -20,  -30,
     -50,  -30,  -30,  -30,  -30,  -30,  -30,  -50,
];

/// Midgame and endgame base values of each role.
pub open spec fn base_values(r: Role) -> (int, int) {
    match r {
        Role::Pawn => (94, 100),
        Role::Knight => (337, 281),
        Role::Bishop => (365, 297),
        Role::Rook => (479, 512),
        Role::Queen => (1025, 929),
        Role::King => (10000, 10000),
    }
}

/// Weight of a role in the game phase.
pub open spec fn phase_weight(r: Role) -> int {
    match r {
        Role::Pawn => 0,
        Role::Knight => 1,
        Role::Bishop => 1,
        Role::Rook => 2,
        Role::Queen => 4,
        Role::King => 0,
    }
}

/// Phase weight at or above which a position counts as pure midgame.
pub const MAX_PHASE: u32 = 24;

pub open spec fn square_weight(sq: Option<Piece>) -> int {
    match sq {
        Some(p) => phase_weight(p.role),
        None => 0,
    }
}

/// Sum of the phase weights of the pieces on `squares`.
pub open spec fn phase_sum(squares: Seq<Option<Piece>>) -> int
    decreases squares.len(),
{
    if squares.len() == 0 {
        0
    } else {
        phase_sum(squares.drop_last()) + square_weight(squares.last())
    }
}

/// How far the game is into the endgame, in 24ths: 0 with all the non-pawn
/// material on the board (a weight of 24 or more), 24 with none of it.
pub open spec fn endgame_phase(squares: Seq<Option<Piece>>) -> int {
    24 - (if phase_sum(squares) < 24 { phase_sum(squares) } else { 24 })
}

/// Division by a positive number, truncating toward zero.
pub open spec fn trunc_div(x: int, d: int) -> int {
    if x >= 0 { x / d } else { -((-x) / d) }
}

/// Blend of a midgame and an endgame value at endgame phase `e` (in 24ths), truncated toward zero.
pub open spec fn blend(mg: int, eg: int, e: int) -> int {
    trunc_div(mg * (24 - e) + eg * e, 24)
}

pub open spec fn mg_table(r: Role) -> [i32; 64] {
    match r {
        Role::Pawn => MG_PAWN_PST,
        Role::Knight => MG_KNIGHT_PST,
        Role::Bishop => MG_BISHOP_PST,
        Role::Rook => MG_ROOK_PST,
        Role::Queen => MG_QUEEN_PST,
        Role::King => MG_KING_PST,
    }
}

pub open spec fn eg_table(r: Role) -> [i32; 64] {
    match r {
        Role::Pawn => EG_PAWN_PST,
        Role::Knight => EG_KNIGHT_PST,
        Role::Bishop => EG_BISHOP_PST,
        Role::Rook => EG_ROOK_PST,
        Role::Queen => EG_QUEEN_PST,
        Role::King => EG_KING_PST,
    }
}

/// The square seen from the other side: same file, rank `7 - rank`.
pub open spec fn mirror(sq: int) -> int {
    (7 - sq / 8) * 8 + sq % 8
}

/// A white table mirrored top to bottom: black's table.
pub open spec fn black_table(t: Seq<i32>) -> Seq<i32> {
    Seq::new(64, |sq: int| t[mirror(sq)])
}

/// Positional bonus of `piece` on `sq` at endgame phase `e`.
pub open spec fn pst_value(piece: Piece, sq: int, e: int) -> int {
    if piece.color == Color::White {
        blend(mg_table(piece.role)@[sq] as int, eg_table(piece.role)@[sq] as int, e)
    } else {
        blend(mg_table(piece.role)@[mirror(sq)] as int, eg_table(piece.role)@[mirror(sq)] as int, e)
    }
}

/// Material value of a piece of role `r` at endgame phase `e`.
pub open spec fn material_value(r: Role, e: int) -> int {
    blend(base_values(r).0, base_values(r).1, e)
}

/// What square `sq` adds to the score of side `turn`.
pub open spec fn square_score(squares: Seq<Option<Piece>>, sq: int, turn: Color, e: int) -> int {
    match squares[sq] {
        Some(p) => {
            let v = material_value(p.role, e) + pst_value(p, sq, e);
            if p.color == turn { v } else { -v }
        },
        None => 0,
    }
}

pub open spec fn score_sum(squares: Seq<Option<Piece>>, turn: Color, e: int, n: int) -> int
    decreases n,
{
    if n <= 0 {
        0
    } else {
        score_sum(squares, turn, e, n - 1) + square_score(squares, n - 1, turn, e)
    }
}

/// The evaluation of a board from the point of view of side `turn`.
pub open spec fn evaluation(squares: Seq<Option<Piece>>, turn: Color) -> int {
    score_sum(squares, turn, endgame_phase(squares), 64)
}

pub open spec fn role_at_index(k: int) -> Role {
    if k == 0 {
        Role::Pawn
    } else if k == 1 {
        Role::Knight
    } else if k == 2 {
        Role::Bishop
    } else if k == 3 {
        Role::Rook
    } else if k == 4 {
        Role::Queen
    } else {
        Role::King
    }
}

pub open spec fn role_index(r: Role) -> int {
    match r {
        Role::Pawn => 0,
        Role::Knight => 1,
        Role::Bishop => 2,
        Role::Rook => 3,
        Role::Queen => 4,
        Role::King => 5,
    }
}

pub open spec fn table_bounded(t: Seq<i32>) -> bool {
    t.len() == 64 && forall|i: int| 0 <= i < 64 ==> -1000 <= #[trigger] t[i] <= 1000
}

pub fn role_to_index(r: Role) -> (k: usize)
    ensures
        k as int == role_index(r),
        role_at_index(k as int) == r,
        k < 6,
{
    match r {
        Role::Pawn => 0,
        Role::Knight => 1,
        Role::Bishop => 2,
        Role::Rook => 3,
        Role::Queen => 4,
        Role::King => 5,
    }
}

fn midgame_table(r: Role) -> (t: [i32; 64])
    ensures
        t == mg_table(r),
        table_bounded(t@),
{
    match r {
        Role::Pawn => MG_PAWN_PST,
        Role::Knight => MG_KNIGHT_PST,
        Role::Bishop => MG_BISHOP_PST,
        Role::Rook => MG_ROOK_PST,
        Role::Queen => MG_QUEEN_PST,
        Role::King => MG_KING_PST,
    }
}

fn endgame_table(r: Role) -> (t: [i32; 64])
    ensures
        t == eg_table(r),
        table_bounded(t@),
{
    match r {
        Role::Pawn => EG_PAWN_PST,
        Role::Knight => EG_KNIGHT_PST,
        Role::Bishop => EG_BISHOP_PST,
        Role::Rook => EG_ROOK_PST,
        Role::Queen => EG_QUEEN_PST,
        Role::King => EG_KING_PST,
    }
}

fn base_value_pair(r: Role) -> (v: (i32, i32))
    ensures
        v.0 as int == base_values(r).0,
        v.1 as int == base_values(r).1,
{
    match r {
        Role::Pawn => (94, 100),
        Role::Knight => (337, 281),
        Role::Bishop => (365, 297),
        Role::Rook => (479, 512),
        Role::Queen => (1025, 929),
        Role::King => (10000, 10000),
    }
}

proof fn lemma_blend_bound(a: int, b: int, e: int, m: int)
    requires
        0 <= m,
        -m <= a <= m,
        -m <= b <= m,
        0 <= e <= 24,
    ensures
        -24 * m <= a * (24 - e) + b * e <= 24 * m,
        -24 * m <= a * (24 - e) <= 24 * m,
        -24 * m <= b * e <= 24 * m,
{
    let u = a * (24 - e);
    let v = b * e;
    assert(u <= m * (24 - e) && u >= (0 - m) * (24 - e)) by (nonlinear_arith)
        requires -m <= a <= m, 0 <= e <= 24, u == a * (24 - e);
    assert(v <= m * e && v >= (0 - m) * e) by (nonlinear_arith)
        requires -m <= b <= m, 0 <= e <= 24, v == b * e;
    assert(m * (24 - e) + m * e == 24 * m) by (nonlinear_arith);
    assert((0 - m) * (24 - e) + (0 - m) * e == -24 * m) by (nonlinear_arith);
    assert(0 <= m * e <= 24 * m && 0 <= m * (24 - e) <= 24 * m) by (nonlinear_arith)
        requires 0 <= e <= 24, 0 <= m;
    assert((0 - m) * e >= -24 * m && (0 - m) * (24 - e) >= -24 * m) by (nonlinear_arith)
        requires 0 <= e <= 24, 0 <= m;
}

/// Blends a midgame and an endgame value at endgame phase `e` (in 24ths).
pub fn blend_values(mg: i32, eg: i32, e: u32) -> (r: i32)
    requires
        -10000 <= mg <= 10000,
        -10000 <= eg <= 10000,
        e <= 24,
    ensures
        r as int == blend(mg as int, eg as int, e as int),
        -10000 <= r <= 10000,
{
    let w: i64 = (24 - e) as i64;
    let ee: i64 = e as i64;
    proof {
        lemma_blend_bound(mg as int, eg as int, e as int, 10000);
    }
    let p1: i64 = (mg as i64) * w;
    let p2: i64 = (eg as i64) * ee;
    let x: i64 = p1 + p2;
    if x >= 0 {
        assert(x / 24 <= 10000) by (nonlinear_arith)
            requires 0 <= x <= 240000;
        (x / 24) as i32
    } else {
        assert((-x) / 24 <= 10000) by (nonlinear_arith)
            requires 0 < -x <= 240000;
        (-((-x) / 24)) as i32
    }
}

/// Midgame and endgame piece-square tables for both colors, by role.
pub struct PieceSquareTables {
    pub white_mg: Vec<Vec<i32>>,
    pub white_eg: Vec<Vec<i32>>,
    pub black_mg: Vec<Vec<i32>>,
    pub black_eg: Vec<Vec<i32>>,
}

fn table_to_vec(t: [i32; 64]) -> (r: Vec<i32>)
    ensures
        r@ == t@,
{
    let mut r: Vec<i32> = Vec::new();
    let mut i: usize = 0;
    while i < 64
        invariant
            i <= 64,
            r@ == t@.subrange(0, i as int),
        decreases 64 - i,
    {
        r.push(t[i]);
        i = i + 1;
    }
    assert(r@ =~= t@);
    r
}

fn mirrored(t: [i32; 64]) -> (r: Vec<i32>)
    requires
        table_bounded(t@),
    ensures
        r@ == black_table(t@),
{
    let mut r: Vec<i32> = Vec::new();
    let mut sq: usize = 0;
    while sq < 64
        invariant
            sq <= 64,
            table_bounded(t@),
            r@.len() == sq,
            forall|i: int| 0 <= i < sq ==> #[trigger] r@[i] == black_table(t@)[i],
        decreases 64 - sq,
    {
        let rank = sq / 8;
        let file = sq % 8;
        let mirror_sq = (7 - rank) * 8 + file;
        r.push(t[mirror_sq]);
        sq = sq + 1;
    }
    assert(r@ =~= black_table(t@));
    r
}

impl PieceSquareTables {
    pub open spec fn wf(&self) -> bool {
        &&& self.white_mg@.len() == 6
        &&& self.white_eg@.len() == 6
        &&& self.black_mg@.len() == 6
        &&& self.black_eg@.len() == 6
        &&& forall|k: int| 0 <= k < 6 ==> {
            &&& (#[trigger] self.white_mg@[k])@ == mg_table(role_at_index(k))@
            &&& self.white_eg@[k]@ == eg_table(role_at_index(k))@
            &&& self.black_mg@[k]@ == black_table(mg_table(role_at_index(k))@)
            &&& self.black_eg@[k]@ == black_table(eg_table(role_at_index(k))@)
        }
    }

    /// Builds the white tables from the constants and black's by mirroring them.
    pub fn new() -> (r: PieceSquareTables)
        ensures
            r.wf(),
    {
        let mut r = PieceSquareTables { white_mg: Vec::new(), white_eg: Vec::new(), black_mg: Vec::new(), black_eg: Vec::new() };
        r.add_role(Role::Pawn);
        r.add_role(Role::Knight);
        r.add_role(Role::Bishop);
        r.add_role(Role::Rook);
        r.add_role(Role::Queen);
        r.add_role(Role::King);
        r
    }

    spec fn holds_roles(&self, n: int) -> bool {
        &&& self.white_mg@.len() == n
        &&& self.white_eg@.len() == n
        &&& self.black_mg@.len() == n
        &&& self.black_eg@.len() == n
        &&& forall|k: int| 0 <= k < n ==> {
            &&& (#[trigger] self.white_mg@[k])@ == mg_table(role_at_index(k))@
            &&& self.white_eg@[k]@ == eg_table(role_at_index(k))@
            &&& self.black_mg@[k]@ == black_table(mg_table(role_at_index(k))@)
            &&& self.black_eg@[k]@ == black_table(eg_table(role_at_index(k))@)
        }
    }

    fn add_role(&mut self, role: Role)
        requires
            old(self).holds_roles(role_index(role)),
        ensures
            final(self).holds_roles(role_index(role) + 1),
    {
        let ghost n = role_index(role);
        let ghost before = *self;
        let mg = midgame_table(role);
        let eg = endgame_table(role);
        self.white_mg.push(table_to_vec(mg));
        self.white_eg.push(table_to_vec(eg));
        self.black_mg.push(mirrored(mg));
        self.black_eg.push(mirrored(eg));
        assert(role_at_index(n) == role);
        assert forall|k: int| 0 <= k < n + 1 implies {
            &&& (#[trigger] self.white_mg@[k])@ == mg_table(role_at_index(k))@
            &&& self.white_eg@[k]@ == eg_table(role_at_index(k))@
            &&& self.black_mg@[k]@ == black_table(mg_table(role_at_index(k))@)
            &&& self.black_eg@[k]@ == black_table(eg_table(role_at_index(k))@)
        } by {
            if k < n {
                assert(self.white_mg@[k] == before.white_mg@[k]);
                assert(self.white_eg@[k] == before.white_eg@[k]);
                assert(self.black_mg@[k] == before.black_mg@[k]);
                assert(self.black_eg@[k] == before.black_eg@[k]);
            }
        }
    }

    /// Positional bonus of `piece` on square `sq` at endgame phase `e` (in 24ths).
    pub fn get_piece_square_value(&self, piece: &Piece, sq: usize, e: u32) -> (r: i32)
        requires
            self.wf(),
            sq < 64,
            e <= 24,
        ensures
            r as int == pst_value(*piece, sq as int, e as int),
            -1000 <= r <= 1000,
    {
        let k = role_to_index(piece.role);
        let mg_t = midgame_table(piece.role);
        let eg_t = endgame_table(piece.role);
        assert(self.white_mg@[k as int]@ == mg_table(piece.role)@);
        let (mg, eg) = if matches!(piece.color, Color::White) {
            (self.white_mg[k][sq], self.white_eg[k][sq])
        } else {
            proof {
                let m = mirror(sq as int);
                assert(0 <= m < 64);
                assert(-1000 <= mg_t@[m] <= 1000);
                assert(-1000 <= eg_t@[m] <= 1000);
            }
            (self.black_mg[k][sq], self.black_eg[k][sq])
        };
        let v = blend_values(mg, eg, e);
        proof {
            let a = mg as int;
            let b = eg as int;
            let ee = e as int;
            assert(-24000 <= a * (24 - ee) + b * ee <= 24000) by (nonlinear_arith)
                requires -1000 <= a <= 1000, -1000 <= b <= 1000, 0 <= ee <= 24;
        }
        v
    }
}

/// How far the game is into the endgame, in 24ths (0 = midgame, 24 = endgame).
pub fn compute_game_phase(board: &Position) -> (r: u32)
    requires
        board.wf(),
    ensures
        r as int == endgame_phase(board.squares@),
        r <= MAX_PHASE,
{
    let mut phase: u32 = 0;
    let mut sq: usize = 0;
    while sq < 64
        invariant
            sq <= 64,
            board.wf(),
            phase as int == phase_sum(board.squares@.subrange(0, sq as int)),
            phase <= 4 * sq,
        decreases 64 - sq,
    {
        proof {
            let s = board.squares@.subrange(0, sq as int + 1);
            assert(s.drop_last() == board.squares@.subrange(0, sq as int));
        }
        match board.squares[sq] {
            Some(p) => {
                let w: u32 = match p.role {
                    Role::Pawn => 0,
                    Role::Knight => 1,
                    Role::Bishop => 1,
                    Role::Rook => 2,
                    Role::Queen => 4,
                    Role::King => 0,
                };
                phase = phase + w;
            },
            None => {},
        }
        sq = sq + 1;
    }
    assert(board.squares@.subrange(0, 64) == board.squares@);
    let capped = if phase < MAX_PHASE { phase } else { MAX_PHASE };
    MAX_PHASE - capped
}

/// Scores a position from the point of view of the side to move: each piece's
/// material and positional value, blended by game phase, counted for its owner.
pub fn evaluate_position_with_pst(board: &Position) -> (r: i32)
    requires
        board.wf(),
    ensures
        r as int == evaluation(board.squares@, board.turn),
        -704000 <= r <= 704000,
{
    let pst = PieceSquareTables::new();
    let e = compute_game_phase(board);
    let mut score: i32 = 0;
    let mut sq: usize = 0;
    while sq < 64
        invariant
            sq <= 64,
            board.wf(),
            pst.wf(),
            e as int == endgame_phase(board.squares@),
            e <= 24,
            score as int == score_sum(board.squares@, board.turn, e as int, sq as int),
            -11000 * sq <= score <= 11000 * sq,
        decreases 64 - sq,
    {
        match board.squares[sq] {
            Some(piece) => {
                let (mg, eg) = base_value_pair(piece.role);
                let piece_value = blend_values(mg, eg, e);
                let position_value = pst.get_piece_square_value(&piece, sq, e);
                let value = piece_value + position_value;
                if piece.color == board.turn {
                    score = score + value;
                } else {
                    score = score - value;
                }
            },
            None => {},
        }
        sq = sq + 1;
    }
    score
}

/// Taking a knight, bishop, rook or queen off the board never moves the game
/// back toward the midgame.
pub proof fn lemma_removal_never_decreases_endgame(board: Position, sq: int)
    requires
        board.wf(),
        0 <= sq < 64,
        board.squares@[sq] matches Some(p) && p.role != Role::Pawn && p.role != Role::King,
    ensures
        endgame_phase(board.squares@.update(sq, None)) >= endgame_phase(board.squares@),
{
    lemma_phase_sum_update(board.squares@, sq);
}

proof fn lemma_phase_sum_update(s: Seq<Option<Piece>>, sq: int)
    requires
        0 <= sq < s.len(),
    ensures
        phase_sum(s.update(sq, None)) == phase_sum(s) - square_weight(s[sq]),
    decreases s.len(),
{
    let t = s.update(sq, None);
    if sq == s.len() - 1 {
        assert(t.drop_last() == s.drop_last());
    } else {
        lemma_phase_sum_update(s.drop_last(), sq);
        assert(t.drop_last() == s.drop_last().update(sq, None));
    }
}

/// Sum of `f(i)` for `i` in `0..n`.
pub open spec fn sum_to(f: spec_fn(int) -> int, n: int) -> int
    decreases n,
{
    if n <= 0 { 0 } else { sum_to(f, n - 1) + f(n - 1) }
}

/// The same piece with the other color.
pub open spec fn swap_color(sq: Option<Piece>) -> Option<Piece> {
    match sq {
        Some(p) => Some(Piece { role: p.role, color: crate::chess::opposite(p.color) }),
        None => None,
    }
}

/// The board mirrored top to bottom with every piece's color swapped.
pub open spec fn mirrored_board(squares: Seq<Option<Piece>>) -> Seq<Option<Piece>> {
    Seq::new(64, |i: int| swap_color(squares[mirror(i)]))
}

/// Material part of what square `sq` adds to the score of `turn`.
pub open spec fn material_term(squares: Seq<Option<Piece>>, sq: int, turn: Color, e: int) -> int {
    match squares[sq] {
        Some(p) => if p.color == turn { material_value(p.role, e) } else { -material_value(p.role, e) },
        None => 0,
    }
}

/// Positional part of what square `sq` adds to the score of `turn`.
pub open spec fn positional_term(squares: Seq<Option<Piece>>, sq: int, turn: Color, e: int) -> int {
    match squares[sq] {
        Some(p) => if p.color == turn { pst_value(p, sq, e) } else { -pst_value(p, sq, e) },
        None => 0,
    }
}

/// The material part of the evaluation.
pub open spec fn material_total(squares: Seq<Option<Piece>>, turn: Color) -> int {
    sum_to(|i: int| material_term(squares, i, turn, endgame_phase(squares)), 64)
}

/// The positional (piece-square) part of the evaluation.
pub open spec fn positional_total(squares: Seq<Option<Piece>>, turn: Color) -> int {
    sum_to(|i: int| positional_term(squares, i, turn, endgame_phase(squares)), 64)
}

proof fn lemma_sum_mirror(f: spec_fn(int) -> int, g: spec_fn(int) -> int)
    requires
        forall|i: int| 0 <= i < 64 ==> #[trigger] g(i) == f(mirror(i)),
    ensures
        sum_to(g, 64) == sum_to(f, 64),
{
    reveal_with_fuel(sum_to, 65);
    assert(g(0) == f(56) && g(1) == f(57) && g(2) == f(58) && g(3) == f(59));
    assert(g(4) == f(60) && g(5) == f(61) && g(6) == f(62) && g(7) == f(63));
    assert(g(8) == f(48) && g(9) == f(49) && g(10) == f(50) && g(11) == f(51));
    assert(g(12) == f(52) && g(13) == f(53) && g(14) == f(54) && g(15) == f(55));
    assert(g(16) == f(40) && g(17) == f(41) && g(18) == f(42) && g(19) == f(43));
    assert(g(20) == f(44) && g(21) == f(45) && g(22) == f(46) && g(23) == f(47));
    assert(g(24) == f(32) && g(25) == f(33) && g(26) == f(34) && g(27) == f(35));
    assert(g(28) == f(36) && g(29) == f(37) && g(30) == f(38) && g(31) == f(39));
    assert(g(32) == f(24) && g(33) == f(25) && g(34) == f(26) && g(35) == f(27));
    assert(g(36) == f(28) && g(37) == f(29) && g(38) == f(30) && g(39) == f(31));
    assert(g(40) == f(16) && g(41) == f(17) && g(42) == f(18) && g(43) == f(19));
    assert(g(44) == f(20) && g(45) == f(21) && g(46) == f(22) && g(47) == f(23));
    assert(g(48) == f(8) && g(49) == f(9) && g(50) == f(10) && g(51) == f(11));
    assert(g(52) == f(12) && g(53) == f(13) && g(54) == f(14) && g(55) == f(15));
    assert(g(56) == f(0) && g(57) == f(1) && g(58) == f(2) && g(59) == f(3));
    assert(g(60) == f(4) && g(61) == f(5) && g(62) == f(6) && g(63) == f(7));
}

proof fn lemma_mirror_involution(i: int)
    requires
        0 <= i < 64,
    ensures
        0 <= mirror(i) < 64,
        mirror(mirror(i)) == i,
{
}

proof fn lemma_phase_sum_as_sum(squares: Seq<Option<Piece>>, n: int)
    requires
        0 <= n <= squares.len(),
    ensures
        phase_sum(squares.subrange(0, n)) == sum_to(|i: int| square_weight(squares[i]), n),
    decreases n,
{
    if n > 0 {
        lemma_phase_sum_as_sum(squares, n - 1);
        assert(squares.subrange(0, n).drop_last() == squares.subrange(0, n - 1));
    }
}

proof fn lemma_score_sum_split(squares: Seq<Option<Piece>>, turn: Color, e: int, n: int)
    ensures
        score_sum(squares, turn, e, n) == sum_to(|i: int| material_term(squares, i, turn, e), n)
            + sum_to(|i: int| positional_term(squares, i, turn, e), n),
    decreases n,
{
    if n > 0 {
        lemma_score_sum_split(squares, turn, e, n - 1);
    }
}

/// Mirroring the board top to bottom and swapping the colors of all pieces,
/// the side to move kept, leaves the game phase and negates both the material
/// and the positional part of the evaluation, so the evaluation changes sign.
pub proof fn lemma_mirror_swap_evaluation(squares: Seq<Option<Piece>>, turn: Color)
    requires
        squares.len() == 64,
    ensures
        evaluation(squares, turn) == material_total(squares, turn) + positional_total(squares, turn),
        endgame_phase(mirrored_board(squares)) == endgame_phase(squares),
        material_total(mirrored_board(squares), turn) == -material_total(squares, turn),
        positional_total(mirrored_board(squares), turn) == -positional_total(squares, turn),
        evaluation(mirrored_board(squares), turn) == -evaluation(squares, turn),
{
    let ms = mirrored_board(squares);
    // Game phase.
    let fw = |i: int| square_weight(squares[i]);
    let gw = |i: int| square_weight(ms[i]);
    assert forall|i: int| 0 <= i < 64 implies #[trigger] gw(i) == fw(mirror(i)) by {
        lemma_mirror_involution(i);
    }
    lemma_sum_mirror(fw, gw);
    lemma_phase_sum_as_sum(squares, 64);
    lemma_phase_sum_as_sum(ms, 64);
    assert(squares.subrange(0, 64) == squares);
    assert(ms.subrange(0, 64) == ms);
    let e = endgame_phase(squares);
    assert(endgame_phase(ms) == e);
    // Material and position, square by square.
    let fm = |i: int| material_term(squares, i, turn, e);
    let gm = |i: int| -material_term(ms, i, turn, e);
    let fp = |i: int| positional_term(squares, i, turn, e);
    let gp = |i: int| -positional_term(ms, i, turn, e);
    assert forall|i: int| 0 <= i < 64 implies #[trigger] gm(i) == fm(mirror(i)) by {
        lemma_mirror_involution(i);
    }
    assert forall|i: int| 0 <= i < 64 implies #[trigger] gp(i) == fp(mirror(i)) by {
        lemma_mirror_involution(i);
    }
    lemma_sum_mirror(fm, gm);
    lemma_sum_mirror(fp, gp);
    let fmm = |i: int| material_term(ms, i, turn, e);
    assert forall|i: int| #[trigger] gm(i) == -fmm(i) by {}
    lemma_sum_negate(fmm, gm, 64);
    let fpp = |i: int| positional_term(ms, i, turn, e);
    assert forall|i: int| #[trigger] gp(i) == -fpp(i) by {}
    lemma_sum_negate(fpp, gp, 64);
    lemma_score_sum_split(squares, turn, e, 64);
    lemma_score_sum_split(ms, turn, e, 64);
}

proof fn lemma_sum_negate(f: spec_fn(int) -> int, g: spec_fn(int) -> int, n: int)
    requires
        forall|i: int| #[trigger] g(i) == -f(i),
    ensures
        sum_to(g, n) == -sum_to(f, n),
    decreases n,
{
    if n > 0 {
        lemma_sum_negate(f, g, n - 1);
    }
}

} // verus!
