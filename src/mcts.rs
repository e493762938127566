use vstd::prelude::*;
use crate::chess::{Color, GameOutcome, Piece, Position, Role};
use crate::context::AiGameStateContext;
use crate::drawbacks::{filtered, DrawbackId};
use crate::heuristic::{contains_move, elapsed_ms, get_capture_value, now, position_after, random_index};

verus! {

/// Score of a won simulation, in thousandths; a draw scores half, a loss zero.
pub const WIN_SCORE: u64 = 1000;
pub const DRAW_SCORE: u64 = 500;

/// One node of the search tree: a position, the move that reached it, its
/// statistics, the indices of its children in the arena and the moves not yet
/// expanded.
pub struct SearchNode {
    pub position: Position,
    pub mv: Option<crate::chess::ChessMove>,
    pub visits: u64,
    /// Sum of the scores of the simulations through this node, in thousandths.
    pub total_score: u64,
    pub children: Vec<usize>,
    pub unexplored: Vec<crate::chess::ChessMove>,
}

/// The search tree as an arena: node 0 is the root, children are indices.
pub struct SearchTree {
    pub nodes: Vec<SearchNode>,
}

impl SearchTree {
    pub open spec fn wf(&self) -> bool {
        &&& self.nodes@.len() >= 1
        &&& forall|i: int| 0 <= i < self.nodes@.len() ==> (#[trigger] self.nodes@[i]).position.wf()
        &&& forall|i: int, k: int| 0 <= i < self.nodes@.len() && 0 <= k < self.nodes@[i].children@.len()
            ==> i < #[trigger] self.nodes@[i].children@[k] < self.nodes@.len()
        &&& forall|i: int, k: int| 0 <= i < self.nodes@.len() && 0 <= k < self.nodes@[i].unexplored@.len()
            ==> (#[trigger] self.nodes@[i].unexplored@[k]).wf()
                && self.nodes@[i].position.legal_moves@.contains(self.nodes@[i].unexplored@[k])
    }
}

/// The floor of the base-2 logarithm of `n` and the power of two it names.
pub open spec fn octave(n: nat) -> (nat, nat)
    decreases n,
{
    if n < 2 {
        (0, 1)
    } else {
        let h = octave(n / 2);
        (h.0 + 1, h.1 * 2)
    }
}

fn octave_of(n: u64) -> (r: (u64, u64))
    requires
        n >= 1,
    ensures
        r.0 as nat == octave(n as nat).0,
        r.1 as nat == octave(n as nat).1,
        1 <= r.1 <= n,
        (n as int) < 2 * r.1,
        r.0 < r.1,
    decreases n,
{
    if n < 2 {
        (0, 1)
    } else {
        let h = octave_of(n / 2);
        (h.0 + 1, h.1 * 2)
    }
}

/// Natural logarithm of `n` in millionths, interpolated linearly between powers of two.
pub open spec fn ln_micro(n: nat) -> int {
    let o = octave(n);
    o.0 * 693147 + ((n - o.1) * 693147) / (o.1 as int)
}

fn ln_micro_of(n: u64) -> (r: u128)
    requires
        n >= 1,
    ensures
        r as int == ln_micro(n as nat),
        r <= (n as int + 1) * 693147,
{
    let (k, p) = octave_of(n);
    proof {
        assert((k as int) * 693147 <= (n as int) * 693147) by (nonlinear_arith)
            requires (k as int) <= (n as int);
        assert(((n - p) as int) * 693147 < (p as int) * 693147) by (nonlinear_arith)
            requires (n as int) - (p as int) < p as int, 0 <= (n as int) - (p as int);
        assert(((n - p) as int * 693147) / (p as int) < 693147) by (nonlinear_arith)
            requires ((n - p) as int) * 693147 < (p as int) * 693147, p >= 1, (n - p) as int >= 0;
    }
    (k as u128) * 693147 + ((n - p) as u128) * 693147 / (p as u128)
}

/// Whether `r` is the floor of the square root of `x`.
pub open spec fn is_sqrt_floor(x: int, r: int) -> bool {
    r >= 0 && r * r <= x && x < (r + 1) * (r + 1)
}

/// Floor of the square root of a non-negative `x`.
pub open spec fn sqrt_floor(x: int) -> int {
    choose|r: int| is_sqrt_floor(x, r)
}

proof fn lemma_sqrt_floor_unique(x: int, r: int)
    requires
        is_sqrt_floor(x, r),
    ensures
        sqrt_floor(x) == r,
{
    let q = sqrt_floor(x);
    assert(is_sqrt_floor(x, q));
    if q < r {
        assert((q + 1) * (q + 1) <= r * r) by (nonlinear_arith)
            requires q >= 0, q + 1 <= r;
    }
    if r < q {
        assert((r + 1) * (r + 1) <= q * q) by (nonlinear_arith)
            requires r >= 0, r + 1 <= q;
    }
}

/// Bound below which `integer_sqrt` takes its argument.
pub const SQRT_LIMIT: u128 = 0x4000_0000_0000_0000_0000_0000_0000;

/// Floor of the square root, by bisection.
pub fn integer_sqrt(x: u128) -> (r: u128)
    requires
        x < SQRT_LIMIT,
    ensures
        is_sqrt_floor(x as int, r as int),
        r as int == sqrt_floor(x as int),
        r < 0x80_0000_0000_0000,
{
    let mut lo: u128 = 0;
    let mut hi: u128 = 0x80_0000_0000_0000;
    assert((hi as int) * (hi as int) == SQRT_LIMIT as int) by (nonlinear_arith)
        requires hi as int == 0x80_0000_0000_0000int;
    while lo + 1 < hi
        invariant
            lo < hi <= 0x80_0000_0000_0000,
            lo * lo <= x,
            (x as int) < (hi as int) * (hi as int),
        decreases hi - lo,
    {
        let mid = lo + (hi - lo) / 2;
        assert((mid as int) * (mid as int) <= 0x80_0000_0000_0000int * 0x80_0000_0000_0000int) by (nonlinear_arith)
            requires 0 <= mid as int <= 0x80_0000_0000_0000int;
        if mid * mid <= x {
            lo = mid;
        } else {
            hi = mid;
        }
    }
    proof {
        lemma_sqrt_floor_unique(x as int, lo as int);
    }
    lo
}

proof fn lemma_div_le(x: int, d: int)
    requires
        x >= 0,
        d >= 1,
    ensures
        x / d <= x,
{
    assert(x / d <= x) by (nonlinear_arith)
        requires x >= 0, d >= 1;
}

/// A visit count after one more visit, saturating.
pub open spec fn add_visit(v: u64) -> u64 {
    if v < u64::MAX { (v + 1) as u64 } else { v }
}

/// A score total after adding `s`, saturating.
pub open spec fn add_score(t: u64, s: u64) -> u64 {
    if t <= u64::MAX - s { (t + s) as u64 } else { u64::MAX }
}

fn add_score_exec(t: u64, s: u64) -> (r: u64)
    ensures
        r == add_score(t, s),
{
    if t <= u64::MAX - s { t + s } else { u64::MAX }
}

/// Exploration weight squared, in hundredths: 1.4 * 1.4 = 1.96.
pub const EXPLORATION_SQUARED: u128 = 196;

/// Value standing for an unvisited child, above every visited one.
pub const UNVISITED_VALUE: u128 = 0xffff_ffff_ffff_ffff_ffff_ffff_ffff_ffff;

/// UCT value in millionths: mean score plus 1.4 * sqrt(ln(parent visits) / visits).
pub open spec fn uct_value(total: u64, visits: u64, parent_visits: u64) -> int {
    if visits == 0 {
        UNVISITED_VALUE as int
    } else {
        let p = if parent_visits == 0 { 1nat } else { parent_visits as nat };
        (total as int * 1000) / (visits as int)
            + sqrt_floor((196 * ln_micro(p) * 10000) / (visits as int))
    }
}

pub fn uct(total: u64, visits: u64, parent_visits: u64) -> (r: u128)
    ensures
        r as int == uct_value(total, visits, parent_visits),
{
    if visits == 0 {
        return UNVISITED_VALUE;
    }
    let p: u64 = if parent_visits == 0 { 1 } else { parent_visits };
    let ln = ln_micro_of(p);
    assert(ln * 196 * 10000 < SQRT_LIMIT) by (nonlinear_arith)
        requires ln <= (p as int + 1) * 693147, p <= u64::MAX;
    let arg = (EXPLORATION_SQUARED * ln * 10000) / (visits as u128);
    proof {
        lemma_div_le(EXPLORATION_SQUARED as int * ln as int * 10000, visits as int);
    }
    let mean = (total as u128) * 1000 / (visits as u128);
    proof {
        lemma_div_le(total as int * 1000, visits as int);
    }
    mean + integer_sqrt(arg)
}

/// Material value of a role for scoring cut-off simulations.
pub open spec fn material_of(r: Role) -> int {
    match r {
        Role::Pawn => 100,
        Role::Knight => 320,
        Role::Bishop => 330,
        Role::Rook => 500,
        Role::Queen => 900,
        Role::King => 0,
    }
}

/// Material of `color` minus material of the other side, over the first `n` squares.
pub open spec fn material_balance(squares: Seq<Option<Piece>>, color: Color, n: int) -> int
    decreases n,
{
    if n <= 0 {
        0
    } else {
        material_balance(squares, color, n - 1) + match squares[n - 1] {
            Some(p) => if p.color == color { material_of(p.role) } else { -material_of(p.role) },
            None => 0,
        }
    }
}

/// Score in thousandths of a position where a simulation stopped without a
/// result: an even material balance scores one half, and every 8 points of
/// material move the score by a thousandth, clamped to 0 ..= 1000.
pub open spec fn cutoff_score(squares: Seq<Option<Piece>>, color: Color) -> int {
    let v = material_balance(squares, color, 64) + 4000;
    if v <= 0 { 0 } else if v / 8 > 1000 { 1000 } else { v / 8 }
}

/// Score in thousandths, for side `root`, of the position where a simulation stopped.
pub open spec fn final_score(pos: Position, root: Color) -> int {
    match pos.outcome {
        Some(GameOutcome::Decisive { winner }) => if winner == root { 1000 } else { 0 },
        Some(GameOutcome::Draw) => 500,
        None => cutoff_score(pos.squares@, root),
    }
}

fn material(r: Role) -> (v: i32)
    ensures
        v as int == material_of(r),
        0 <= v <= 900,
{
    match r {
        Role::Pawn => 100,
        Role::Knight => 320,
        Role::Bishop => 330,
        Role::Rook => 500,
        Role::Queen => 900,
        Role::King => 0,
    }
}

/// Score in thousandths, for side `root`, of the position where a simulation stopped.
pub fn score_final_position(pos: &Position, root: Color) -> (r: u64)
    requires
        pos.wf(),
    ensures
        r as int == final_score(*pos, root),
        r <= WIN_SCORE,
{
    match pos.outcome {
        Some(GameOutcome::Decisive { winner }) => {
            if winner == root { WIN_SCORE } else { 0 }
        },
        Some(GameOutcome::Draw) => DRAW_SCORE,
        None => {
            let mut balance: i32 = 0;
            let mut sq: usize = 0;
            while sq < 64
                invariant
                    sq <= 64,
                    pos.wf(),
                    balance as int == material_balance(pos.squares@, root, sq as int),
                    -900 * sq <= balance <= 900 * sq,
                decreases 64 - sq,
            {
                if let Some(p) = pos.squares[sq] {
                    if p.color == root {
                        balance = balance + material(p.role);
                    } else {
                        balance = balance - material(p.role);
                    }
                }
                sq = sq + 1;
            }
            let v = balance + 4000;
            if v <= 0 {
                0
            } else if v / 8 > 1000 {
                1000
            } else {
                (v / 8) as u64
            }
        },
    }
}

/// Whether the side to move is out of check and has no capture.
pub open spec fn quiet(pos: Position) -> bool {
    &&& !pos.in_check
    &&& forall|i: int| 0 <= i < pos.legal_moves@.len()
        ==> crate::heuristic::capture_value(pos.squares@, #[trigger] pos.legal_moves@[i]) == 0
}

pub fn is_quiet(pos: &Position) -> (r: bool)
    requires
        pos.wf(),
    ensures
        r == quiet(*pos),
{
    if pos.in_check {
        return false;
    }
    let mut i: usize = 0;
    while i < pos.legal_moves.len()
        invariant
            i <= pos.legal_moves@.len(),
            pos.wf(),
            forall|j: int| 0 <= j < i ==> crate::heuristic::capture_value(pos.squares@, #[trigger] pos.legal_moves@[j]) == 0,
        decreases pos.legal_moves@.len() - i,
    {
        if get_capture_value(pos, &pos.legal_moves[i]) > 0 {
            return false;
        }
        i = i + 1;
    }
    true
}

/// The handicap of the side to move in a simulated position.
fn side_drawback(pos: &Position, ctx: &AiGameStateContext) -> (r: DrawbackId) {
    if pos.turn == ctx.board.turn { ctx.player_drawback } else { ctx.opponent_drawback }
}

/// The moves the side to move may play in a simulated position: no outcome is
/// drawn there, so a rule that needs one does not filter.
fn side_moves(pos: &Position, ctx: &AiGameStateContext) -> (r: Vec<crate::chess::ChessMove>)
    requires
        pos.wf(),
    ensures
        forall|i: int| 0 <= i < r@.len() ==> (#[trigger] r@[i]).wf() && pos.legal_moves@.contains(r@[i]),
{
    let d = side_drawback(pos, ctx);
    let moves = d.filter_moves(&pos.legal_moves, None);
    proof {
        assert forall|i: int| 0 <= i < moves@.len() implies (#[trigger] moves@[i]).wf() && pos.legal_moves@.contains(moves@[i]) by {
            crate::drawbacks::lemma_filtered_moves_wf(d, pos.legal_moves@, None, i);
        }
    }
    moves
}

/// Largest random pick drawn per ply; a pick is reduced modulo the number of
/// moves, so the bias is below one in four thousand.
pub const PICK_RANGE: usize = 0x10_0000;

/// Plays from `start`, the move at ply `i` being the allowed move numbered
/// `picks[i]` modulo their number, until the game ends, a side's handicap
/// leaves it no move (it loses), the picks run out, or the depth limit is
/// reached in a quiet position (or in any position without the quietness
/// check); a position that is not quiet may go on for the extra quiescence
/// depth. Returns the score in thousandths for the side to move at the root.
pub fn playout(start: &Position, ctx: &AiGameStateContext, picks: &Vec<usize>) -> (r: u64)
    requires
        start.wf(),
    ensures
        r <= WIN_SCORE,
        start.outcome is Some ==> r as int == final_score(*start, ctx.board.turn),
        ctx.depth == 0 && !ctx.check_quietness ==> r as int == final_score(*start, ctx.board.turn),
{
    let root = ctx.board.turn;
    let mut pos = start.duplicate();
    let limit: u32 = ctx.depth as u32;
    let extra: u32 = if ctx.check_quietness { ctx.quiescence_depth as u32 } else { 0 };
    let max_plies: u32 = limit + extra;
    let mut ply: u32 = 0;
    while ply < max_plies
        invariant
            pos.wf(),
            ply <= max_plies,
            max_plies == limit + extra,
            ctx.depth == 0 && !ctx.check_quietness ==> max_plies == 0,
            ply == 0 ==> pos.squares@ == start.squares@ && pos.outcome == start.outcome,
            start.outcome is Some ==> ply == 0,
        decreases max_plies - ply,
    {
        if pos.outcome.is_some() {
            break;
        }
        if ply >= limit && (!ctx.check_quietness || is_quiet(&pos)) {
            break;
        }
        let moves = side_moves(&pos, ctx);
        if moves.len() == 0 {
            if matches!(side_drawback(&pos, ctx), DrawbackId::NoDrawback) {
                break;
            }
            return if pos.turn == root { 0 } else { WIN_SCORE };
        }
        if ply as usize >= picks.len() {
            break;
        }
        let m = moves[picks[ply as usize] % moves.len()];
        match position_after(&pos, &m) {
            Some(next) => {
                pos = next;
            },
            None => {
                break;
            },
        }
        ply = ply + 1;
    }
    score_final_position(&pos, root)
}

/// A playout from `start` with a uniformly random pick for each ply (see `playout`).
pub fn simulate(start: &Position, ctx: &AiGameStateContext) -> (r: u64)
    requires
        start.wf(),
    ensures
        r <= WIN_SCORE,
        start.outcome is Some ==> r as int == final_score(*start, ctx.board.turn),
        ctx.depth == 0 && !ctx.check_quietness ==> r as int == final_score(*start, ctx.board.turn),
{
    let plies: u32 = ctx.depth as u32 + ctx.quiescence_depth as u32;
    let mut picks: Vec<usize> = Vec::new();
    let mut i: u32 = 0;
    while i < plies
        invariant
            i <= plies,
        decreases plies - i,
    {
        picks.push(random_index(PICK_RANGE));
        i = i + 1;
    }
    playout(start, ctx, &picks)
}

/// The node a selection stopped at: the last node of `path` already in a tree
/// of `n` nodes (a node added by expansion comes last), or the root.
pub open spec fn selected_leaf(path: Seq<usize>, n: int) -> int {
    if path.len() == 0 {
        0
    } else if (path.last() as int) < n {
        path.last() as int
    } else if path.len() >= 2 {
        path[path.len() - 2] as int
    } else {
        0
    }
}

/// Whether `child` is a child of node `parent` of `t` with the highest UCT
/// value among its siblings.
#[verifier::opaque]
pub open spec fn is_best_child(t: SearchTree, parent: int, child: usize) -> bool {
    &&& t.nodes@[parent].children@.contains(child)
    &&& forall|j: int| 0 <= j < t.nodes@[parent].children@.len() ==>
        t.child_value((#[trigger] t.nodes@[parent].children@[j]) as int, t.nodes@[parent].visits)
            <= t.child_value(child as int, t.nodes@[parent].visits)
}

/// The node before position `k` of a path below the root.
pub open spec fn parent_in(path: Seq<usize>, k: int) -> int {
    if k == 0 { 0 } else { path[k - 1] as int }
}

/// Whether `path`, up to nodes of `t`, descends from the root, each node a
/// child of the one before with the highest UCT value among its siblings.
pub open spec fn is_uct_descent(t: SearchTree, path: Seq<usize>) -> bool {
    forall|k: int| 0 <= k < path.len() && (path[k] as int) < t.nodes@.len()
        ==> #[trigger] is_best_child(t, parent_in(path, k), path[k])
}

impl SearchTree {
    /// A tree holding only the root: the context's position, with the moves the
    /// side to move's handicap allows this turn as its unexplored moves.
    pub fn new(ctx: &AiGameStateContext) -> (r: SearchTree)
        requires
            ctx.board.wf(),
        ensures
            r.wf(),
            r.nodes@.len() == 1,
            r.nodes@[0].visits == 0,
            r.nodes@[0].children@.len() == 0,
            r.nodes@[0].unexplored@ == filtered(ctx.player_drawback, ctx.board.legal_moves@, ctx.rng_outcome),
    {
        let unexplored = ctx.player_drawback.filter_moves(&ctx.board.legal_moves, ctx.rng_outcome);
        proof {
            assert forall|i: int| 0 <= i < unexplored@.len() implies (#[trigger] unexplored@[i]).wf()
                && ctx.board.legal_moves@.contains(unexplored@[i]) by {
                crate::drawbacks::lemma_filtered_moves_wf(ctx.player_drawback, ctx.board.legal_moves@, ctx.rng_outcome, i);
            }
        }
        let root = SearchNode {
            position: ctx.board.duplicate(),
            mv: None,
            visits: 0,
            total_score: 0,
            children: Vec::new(),
            unexplored,
        };
        let mut nodes: Vec<SearchNode> = Vec::new();
        nodes.push(root);
        SearchTree { nodes }
    }

    /// The UCT value of node `child` under a parent with `parent_visits` visits.
    pub open spec fn child_value(&self, child: int, parent_visits: u64) -> int {
        uct_value(self.nodes@[child].total_score, self.nodes@[child].visits, parent_visits)
    }

    /// A child of `node` with the highest UCT value, ties broken at random.
    pub fn select_child(&self, node: usize) -> (r: usize)
        requires
            self.wf(),
            node < self.nodes@.len(),
            self.nodes@[node as int].children@.len() > 0,
        ensures
            self.nodes@[node as int].children@.contains(r),
            node < r < self.nodes@.len(),
            forall|k: int| 0 <= k < self.nodes@[node as int].children@.len() ==>
                self.child_value((#[trigger] self.nodes@[node as int].children@[k]) as int, self.nodes@[node as int].visits)
                    <= self.child_value(r as int, self.nodes@[node as int].visits),
    {
        let parent = &self.nodes[node];
        let children = &parent.children;
        let mut values: Vec<u128> = Vec::new();
        let mut best: u128 = 0;
        let mut i: usize = 0;
        while i < children.len()
            invariant
                self.wf(),
                node < self.nodes@.len(),
                *parent == self.nodes@[node as int],
                *children == parent.children,
                i <= children@.len(),
                values@.len() == i,
                forall|k: int| 0 <= k < i ==> (#[trigger] values@[k]) as int
                    == self.child_value(children@[k] as int, parent.visits),
                forall|k: int| 0 <= k < i ==> #[trigger] values@[k] <= best,
                i > 0 ==> exists|k: int| 0 <= k < i && values@[k] == best,
            decreases children@.len() - i,
        {
            let c = children[i];
            let v = uct(self.nodes[c].total_score, self.nodes[c].visits, parent.visits);
            let ghost old_values = values@;
            let ghost old_best = best;
            values.push(v);
            if i == 0 || v > best {
                best = v;
            }
            assert(values@[i as int] == v);
            assert forall|k: int| 0 <= k < i + 1 implies #[trigger] values@[k] <= best by {
                if k < i {
                    assert(values@[k] == old_values[k]);
                    assert(old_values[k] <= old_best);
                }
            }
            proof {
                if best != v {
                    let w = choose|k: int| 0 <= k < i && old_values[k] == old_best;
                    assert(values@[w] == best);
                }
            }
            assert forall|k: int| 0 <= k < i + 1 implies (#[trigger] values@[k]) as int
                == self.child_value(children@[k] as int, parent.visits) by {
                if k < i {
                    assert(values@[k] == old_values[k]);
                }
            }
            i = i + 1;
        }
        let mut ties: Vec<usize> = Vec::new();
        let mut j: usize = 0;
        while j < children.len()
            invariant
                self.wf(),
                node < self.nodes@.len(),
                *children == self.nodes@[node as int].children,
                j <= children@.len(),
                values@.len() == children@.len(),
                forall|k: int| 0 <= k < children@.len() ==> values@[k] <= best,
                forall|k: int| 0 <= k < children@.len() ==> (#[trigger] values@[k]) as int
                    == self.child_value(children@[k] as int, self.nodes@[node as int].visits),
                exists|k: int| 0 <= k < children@.len() && values@[k] == best,
                (exists|k: int| 0 <= k < j && values@[k] == best) ==> ties@.len() > 0,
                forall|q: int| 0 <= q < ties@.len() ==> {
                    &&& (#[trigger] ties@[q]) < children@.len()
                    &&& values@[ties@[q] as int] == best
                },
            decreases children@.len() - j,
        {
            if values[j] == best {
                ties.push(j);
            }
            j = j + 1;
        }
        let pick = ties[random_index(ties.len())];
        let r = children[pick];
        assert(children@.contains(r) && children@[pick as int] == r);
        assert forall|k: int| 0 <= k < children@.len() implies
            self.child_value((#[trigger] children@[k]) as int, self.nodes@[node as int].visits)
                <= self.child_value(r as int, self.nodes@[node as int].visits) by {
            assert(values@[k] <= best);
            assert(values@[pick as int] == best);
        }
        r
    }

    /// Selection: from the root, descend while the node is fully expanded,
    /// has children and no outcome, each time to the child with the highest
    /// UCT value. Returns the nodes below the root on the way and the node reached.
    #[verifier::rlimit(50)]
    pub fn select_path(&self) -> (r: (Vec<usize>, usize))
        requires
            self.wf(),
        ensures
            r.1 < self.nodes@.len(),
            r.0@.len() == 0 ==> r.1 == 0,
            r.0@.len() > 0 ==> r.1 == r.0@.last(),
            forall|k: int| 0 <= k < r.0@.len() ==> 0 < #[trigger] r.0@[k] < self.nodes@.len(),
            forall|a: int, b: int| 0 <= a < b < r.0@.len() ==> r.0@[a] < r.0@[b],
            is_uct_descent(*self, r.0@),
    {
        let ghost t0: SearchTree = *self;
        let mut path: Vec<usize> = Vec::new();
        let mut node: usize = 0;
        let mut steps: usize = 0;
        let n_nodes = self.nodes.len();
        while steps < n_nodes
            invariant
                self.wf(),
                                n_nodes == self.nodes@.len(),
                node < self.nodes@.len(),
                steps <= n_nodes,
                path@.len() == steps,
                steps == 0 ==> node == 0,
                steps > 0 ==> node == path@[steps - 1],
                forall|k: int| 0 <= k < path@.len() ==> 0 < #[trigger] path@[k] < self.nodes@.len(),
                forall|a: int, b: int| 0 <= a < b < path@.len() ==> path@[a] < path@[b],
                self.nodes@ == t0.nodes@,
                is_uct_descent(t0, path@),
            decreases n_nodes - steps,
        {
            let n = &self.nodes[node];
            if n.unexplored.len() > 0 || n.children.len() == 0 || n.position.outcome.is_some() {
                break;
            }
            let ghost parent = node;
            let ghost before_path = path@;
            node = self.select_child(node);
            path.push(node);
            proof {
                reveal(is_best_child);
                assert(is_best_child(t0, parent as int, node));
                assert forall|k: int| 0 <= k < path@.len() && (path@[k] as int) < t0.nodes@.len()
                    implies #[trigger] is_best_child(t0, parent_in(path@, k), path@[k]) by {
                    if k < before_path.len() {
                        assert(path@[k] == before_path[k]);
                        assert(parent_in(path@, k) == parent_in(before_path, k));
                    } else {
                        if k > 0 {
                            assert(path@[k - 1] == before_path[k - 1]);
                        }
                    }
                }
            }
            steps = steps + 1;
        }
        (path, node)
    }

    fn backpropagate(&mut self, path: &Vec<usize>, score: u64)
        requires
            old(self).wf(),
            old(self).nodes@[0].visits < u64::MAX,
            forall|q: int| 0 <= q < path@.len() ==> 0 < #[trigger] path@[q] < old(self).nodes@.len(),
            forall|a: int, b: int| 0 <= a < b < path@.len() ==> path@[a] < path@[b],
        ensures
            final(self).wf(),
            final(self).nodes@.len() == old(self).nodes@.len(),
            final(self).nodes@[0].visits == old(self).nodes@[0].visits + 1,
            final(self).nodes@[0].total_score == add_score(old(self).nodes@[0].total_score, score),
            forall|i: int| 0 <= i < old(self).nodes@.len() ==> {
                &&& (#[trigger] final(self).nodes@[i]).position == old(self).nodes@[i].position
                &&& final(self).nodes@[i].mv == old(self).nodes@[i].mv
                &&& final(self).nodes@[i].children == old(self).nodes@[i].children
                &&& final(self).nodes@[i].unexplored == old(self).nodes@[i].unexplored
            },
            forall|i: int| 0 < i < old(self).nodes@.len() && !path@.contains(i as usize)
                ==> #[trigger] final(self).nodes@[i] == old(self).nodes@[i],
            forall|i: int| 0 < i < old(self).nodes@.len() && path@.contains(i as usize) ==> {
                &&& (#[trigger] final(self).nodes@[i]).visits == add_visit(old(self).nodes@[i].visits)
                &&& final(self).nodes@[i].total_score == add_score(old(self).nodes@[i].total_score, score)
            },
    {
        let ghost mid = self.nodes@;
        let rv = self.nodes[0].visits;
        self.nodes[0].visits = rv + 1;
        let rs = self.nodes[0].total_score;
        self.nodes[0].total_score = add_score_exec(rs, score);
        let mut k: usize = 0;
        let arena_len = self.nodes.len();
        while k < path.len()
            invariant
                self.wf(),
                self.nodes@.len() == mid.len(),
                arena_len == mid.len(),
                k <= path@.len(),
                forall|q: int| 0 <= q < path@.len() ==> 0 < #[trigger] path@[q] < self.nodes@.len(),
                forall|a: int, b: int| 0 <= a < b < path@.len() ==> path@[a] < path@[b],
                self.nodes@[0].visits == mid[0].visits + 1,
                self.nodes@[0].total_score == add_score(mid[0].total_score, score),
                forall|i: int| 0 <= i < mid.len() ==> {
                    &&& (#[trigger] self.nodes@[i]).position == mid[i].position
                    &&& self.nodes@[i].mv == mid[i].mv
                    &&& self.nodes@[i].children == mid[i].children
                    &&& self.nodes@[i].unexplored == mid[i].unexplored
                },
                forall|i: int| 0 < i < mid.len() && !path@.subrange(0, k as int).contains(i as usize)
                    ==> (#[trigger] self.nodes@[i]).visits == mid[i].visits
                        && self.nodes@[i].total_score == mid[i].total_score,
                forall|i: int| 0 < i < mid.len() && path@.subrange(0, k as int).contains(i as usize) ==> {
                    &&& (#[trigger] self.nodes@[i]).visits == add_visit(mid[i].visits)
                    &&& self.nodes@[i].total_score == add_score(mid[i].total_score, score)
                },
            decreases path@.len() - k,
        {
            let i = path[k];
            let ghost pre = self.nodes@;
            let v = self.nodes[i].visits;
            self.nodes[i].visits = if v < u64::MAX { v + 1 } else { v };
            let t = self.nodes[i].total_score;
            self.nodes[i].total_score = add_score_exec(t, score);
            proof {
                assert(!path@.subrange(0, k as int).contains(i)) by {
                    if path@.subrange(0, k as int).contains(i) {
                        let q = choose|q: int| 0 <= q < k && #[trigger] path@.subrange(0, k as int)[q] == i;
                        assert(path@[q] < path@[k as int]);
                    }
                }
                let s0 = path@.subrange(0, k as int);
                let s1 = path@.subrange(0, k as int + 1);
                assert(pre[i as int].visits == mid[i as int].visits && pre[i as int].total_score == mid[i as int].total_score);
                assert(self.nodes@[i as int].visits == add_visit(mid[i as int].visits));
                assert(self.nodes@[i as int].total_score == add_score(mid[i as int].total_score, score));
                assert(s1 == s0.push(i));
                assert forall|x: usize| #[trigger] s1.contains(x) implies (s0.contains(x) || x == i) by {
                    let q = choose|q: int| 0 <= q < s1.len() && #[trigger] s1[q] == x;
                    if q < k {
                        assert(s0[q] == x);
                    }
                }
                assert forall|x: usize| s0.contains(x) || x == i implies #[trigger] s1.contains(x) by {
                    if s0.contains(x) {
                        let q = choose|q: int| 0 <= q < s0.len() && #[trigger] s0[q] == x;
                        assert(s1[q] == x);
                    } else {
                        assert(s1[k as int] == i);
                    }
                }
                assert forall|x: int| 0 <= x < mid.len() && x != i as int implies #[trigger] self.nodes@[x] == pre[x] by {}
                assert forall|x: int| 0 < x < mid.len() && s1.contains(x as usize) implies {
                    &&& (#[trigger] self.nodes@[x]).visits == add_visit(mid[x].visits)
                    &&& self.nodes@[x].total_score == add_score(mid[x].total_score, score)
                } by {
                    if x != i as int {
                        let xu = x as usize;
                        assert(xu as int == x);
                        assert(xu != i);
                        assert(s1.contains(xu));
                        assert(s0.contains(xu) || xu == i);
                        assert(s0.contains(xu));
                        assert(self.nodes@[x] == pre[x]);
                    }
                }
                assert forall|x: int| 0 < x < mid.len() && !s1.contains(x as usize) implies
                    (#[trigger] self.nodes@[x]).visits == mid[x].visits && self.nodes@[x].total_score == mid[x].total_score by {
                    assert(x != i as int);
                    assert(!s0.contains(x as usize));
                    assert(self.nodes@[x] == pre[x]);
                }
            }
            k = k + 1;
        }
        proof {
            assert(path@.subrange(0, path@.len() as int) == path@);
            assert forall|i: int| 0 < i < mid.len() && !path@.contains(i as usize)
                implies #[trigger] self.nodes@[i] == mid[i] by {
                assert(self.nodes@[i].visits == mid[i].visits);
            }
        }
        proof {
            assert(path@.subrange(0, path@.len() as int) == path@);
            assert forall|i: int| 0 < i < mid.len() && !path@.contains(i as usize)
                implies #[trigger] self.nodes@[i] == mid[i] by {
                assert(self.nodes@[i].visits == mid[i].visits);
            }
        }
    }

    /// One iteration: select a leaf by UCT, expand it by one random unexplored
    /// move if it was visited before, simulate from the leaf reached and add the
    /// score and one visit to every node on the path, the root included.
    /// Returns the path below the root and the score (in thousandths).
    #[verifier::rlimit(50)]
    pub fn iterate(&mut self, ctx: &AiGameStateContext) -> (r: (Vec<usize>, u64))
        requires
            old(self).wf(),
            old(self).nodes@[0].visits < u64::MAX,
        ensures
            final(self).wf(),
            r.1 <= WIN_SCORE,
            final(self).nodes@[0].visits == old(self).nodes@[0].visits + 1,
            final(self).nodes@[0].total_score == add_score(old(self).nodes@[0].total_score, r.1),
            is_uct_descent(*old(self), r.0@),
            ({
                let leaf = selected_leaf(r.0@, old(self).nodes@.len() as int);
                &&& 0 <= leaf < old(self).nodes@.len()
                &&& (final(self).nodes@.len() == old(self).nodes@.len() + 1 <==> {
                    &&& old(self).nodes@[leaf].visits > 0
                    &&& old(self).nodes@[leaf].unexplored@.len() > 0
                    &&& old(self).nodes@[leaf].position.outcome is None
                })
            }),
            old(self).nodes@.len() <= final(self).nodes@.len() <= old(self).nodes@.len() + 1,
            forall|k: int| 0 <= k < r.0@.len() ==> 0 < #[trigger] r.0@[k] < final(self).nodes@.len(),
            forall|a: int, b: int| 0 <= a < b < r.0@.len() ==> r.0@[a] < r.0@[b],
            forall|i: int| 0 < i < old(self).nodes@.len() && !r.0@.contains(i as usize)
                ==> #[trigger] final(self).nodes@[i] == old(self).nodes@[i],
            forall|i: int| 0 < i < old(self).nodes@.len() && r.0@.contains(i as usize) ==> {
                &&& (#[trigger] final(self).nodes@[i]).visits == add_visit(old(self).nodes@[i].visits)
                &&& final(self).nodes@[i].total_score == add_score(old(self).nodes@[i].total_score, r.1)
            },
            final(self).nodes@.len() == old(self).nodes@.len() + 1 ==> {
                let c = old(self).nodes@.len() as int;
                &&& r.0@.contains(c as usize)
                &&& final(self).nodes@[c].visits == 1
                &&& final(self).nodes@[c].total_score == r.1
                &&& exists|p: int| 0 <= p < c && (#[trigger] final(self).nodes@[p]).children@.contains(c as usize)
                    && (final(self).nodes@[c].mv matches Some(m) && old(self).nodes@[p].unexplored@.contains(m))
            },
    {
        let ghost start = self.nodes@;
        let ghost t_old: SearchTree = *self;
        let (mut path, mut node) = self.select_path();
        let ghost steps = path@.len();
        let ghost leaf = node as int;
        assert(leaf == 0 || path@.contains(leaf as usize)) by {
            if steps > 0 {
                assert(path@[steps - 1] == node);
            }
        }
        let ghost cond = start[leaf].visits > 0 && start[leaf].unexplored@.len() > 0
            && start[leaf].position.outcome is None;
        if self.nodes[node].visits > 0 && self.nodes[node].unexplored.len() > 0
            && self.nodes[node].position.outcome.is_none() {
            let j = random_index(self.nodes[node].unexplored.len());
            let ghost before = self.nodes@;
            let m = self.nodes[node].unexplored.swap_remove(j);
            assert(m.wf());
            assert(before[node as int].unexplored@.contains(m)) by {
                assert(before[node as int].unexplored@[j as int] == m);
            }
            assert forall|i: int, k: int| 0 <= i < self.nodes@.len() && 0 <= k < self.nodes@[i].unexplored@.len()
                implies (#[trigger] self.nodes@[i].unexplored@[k]).wf() by {
                if i == node as int {
                    if k == j as int {
                        assert(self.nodes@[i].unexplored@[k] == before[i].unexplored@.last());
                    } else {
                        assert(self.nodes@[i].unexplored@[k] == before[i].unexplored@[k]);
                    }
                } else {
                    assert(self.nodes@[i] == before[i]);
                }
            }
            assert(forall|i: int| 0 <= i < self.nodes@.len() && i != node ==> self.nodes@[i] == before[i]);
            assert(before[node as int].position.legal_moves@.contains(before[node as int].unexplored@[j as int]));
            assert(self.nodes@[node as int].position == before[node as int].position);
            if let Some(after) = position_after(&self.nodes[node].position, &m) {
                let unexplored = side_moves(&after, ctx);
                let idx = self.nodes.len();
                let child = SearchNode {
                    position: after,
                    mv: Some(m),
                    visits: 0,
                    total_score: 0,
                    children: Vec::new(),
                    unexplored,
                };
                self.nodes.push(child);
                self.nodes[node].children.push(idx);
                assert(self.nodes@[node as int].children@.contains(idx)) by {
                    assert(self.nodes@[node as int].children@.last() == idx);
                }
                let ghost before_push = path@;
                path.push(idx);
                assert forall|k: int| 0 <= k < path@.len() && (path@[k] as int) < t_old.nodes@.len()
                    implies #[trigger] is_best_child(t_old, parent_in(path@, k), path@[k]) by {
                    assert(k < before_push.len());
                    assert(path@[k] == before_push[k]);
                    assert(parent_in(path@, k) == parent_in(before_push, k));
                }
                assert(path@.contains(idx)) by {
                    assert(path@[path@.len() - 1] == idx);
                }
                assert(leaf == 0 || path@.contains(leaf as usize)) by {
                    if leaf != 0 {
                        let q = choose|q: int| 0 <= q < before_push.len() && #[trigger] before_push[q] == leaf as usize;
                        assert(path@[q] == leaf as usize);
                    }
                }
                assert(self.nodes@[start.len() as int].mv == Some(m));
                node = idx;
            } else {
                assert(self.nodes@[leaf].position.legal_moves@.contains(m));
                assert(false);
            }
            assert(self.nodes@.len() == start.len() + 1);
        }
        assert(cond ==> self.nodes@.len() == start.len() + 1);
        assert(!cond ==> self.nodes@.len() == start.len());
        proof {
            assert(forall|i: int| 0 <= i < start.len() && i != leaf ==> #[trigger] self.nodes@[i] == start[i]);
            assert(forall|i: int| 0 <= i < start.len() ==> (#[trigger] self.nodes@[i]).visits == start[i].visits
                && self.nodes@[i].total_score == start[i].total_score);
            if self.nodes@.len() == start.len() + 1 {
                let c = start.len() as int;
                assert(self.nodes@[c].visits == 0 && self.nodes@[c].total_score == 0);
                assert(path@.contains(c as usize));
                assert(self.nodes@[leaf].children@.contains(c as usize));
                assert(self.nodes@[c].mv matches Some(m) && start[leaf].unexplored@.contains(m));
                assert(leaf < c);
            }
        }
        let ghost grown = self.nodes@.len() == start.len() + 1;
        let score = simulate(&self.nodes[node].position, ctx);
        let ghost mid = self.nodes@;
        self.backpropagate(&path, score);
        proof {
            let n = start.len() as int;
            if grown {
                let c = n;
                assert(path@.contains(c as usize));
                assert(path@.last() == c as usize);
                assert(selected_leaf(path@, n) == leaf);
                assert(self.nodes@[leaf].children == mid[leaf].children);
                assert(self.nodes@[c].mv == mid[c].mv);
                assert(self.nodes@[c].visits == add_visit(mid[c].visits));
                assert(0 <= leaf < c && (#[trigger] self.nodes@[leaf]).children@.contains(c as usize));
            } else {
                assert(selected_leaf(path@, n) == leaf) by {
                    if path@.len() > 0 {
                        assert(path@.last() == node);
                    }
                }
            }
            assert(self.nodes@.len() == mid.len());
            assert(grown <==> cond);
            assert(0 <= leaf < n);
            assert(selected_leaf(path@, n) == leaf);
        }
        (path, score)
    }

    /// Runs iterations while both budgets last: at most `iterations`, and only
    /// while under `time_limit_ms` milliseconds have passed. Returns how many
    /// iterations completed; each adds exactly one visit to the root.
    pub fn run(&mut self, ctx: &AiGameStateContext, iterations: u32, time_limit_ms: u32) -> (completed: u32)
        requires
            old(self).wf(),
            old(self).nodes@[0].visits <= u32::MAX,
        ensures
            final(self).wf(),
            completed <= iterations,
            final(self).nodes@[0].visits == old(self).nodes@[0].visits + completed,
    {
        let start = now();
        let mut completed: u32 = 0;
        while completed < iterations && elapsed_ms(&start) < time_limit_ms as u128
            invariant
                self.wf(),
                completed <= iterations,
                self.nodes@[0].visits == old(self).nodes@[0].visits + completed,
                old(self).nodes@[0].visits <= u32::MAX,
            decreases iterations - completed,
        {
            self.iterate(ctx);
            completed = completed + 1;
        }
        completed
    }

    /// The root child with the most visits, ties broken at random; `None` without children.
    pub fn most_visited_child(&self) -> (r: Option<usize>)
        requires
            self.wf(),
        ensures
            r is None <==> self.nodes@[0].children@.len() == 0,
            r matches Some(c) ==> {
                &&& self.nodes@[0].children@.contains(c)
                &&& 0 < c < self.nodes@.len()
                &&& forall|k: int| 0 <= k < self.nodes@[0].children@.len() ==>
                    self.nodes@[(#[trigger] self.nodes@[0].children@[k]) as int].visits <= self.nodes@[c as int].visits
            },
    {
        let children = &self.nodes[0].children;
        if children.len() == 0 {
            return None;
        }
        let mut best: u64 = self.nodes[children[0]].visits;
        let mut i: usize = 1;
        while i < children.len()
            invariant
                self.wf(),
                *children == self.nodes@[0].children,
                1 <= i <= children@.len(),
                forall|k: int| 0 <= k < i ==> self.nodes@[(#[trigger] children@[k]) as int].visits <= best,
                exists|k: int| 0 <= k < i && self.nodes@[children@[k] as int].visits == best,
            decreases children@.len() - i,
        {
            let v = self.nodes[children[i]].visits;
            if v > best {
                best = v;
            }
            i = i + 1;
        }
        let mut ties: Vec<usize> = Vec::new();
        let mut j: usize = 0;
        while j < children.len()
            invariant
                self.wf(),
                *children == self.nodes@[0].children,
                j <= children@.len(),
                exists|k: int| 0 <= k < children@.len() && self.nodes@[children@[k] as int].visits == best,
                (exists|k: int| 0 <= k < j && self.nodes@[children@[k] as int].visits == best) ==> ties@.len() > 0,
                forall|q: int| 0 <= q < ties@.len() ==> {
                    &&& (#[trigger] ties@[q]) < children@.len()
                    &&& self.nodes@[children@[ties@[q] as int] as int].visits == best
                },
            decreases children@.len() - j,
        {
            if self.nodes[children[j]].visits == best {
                ties.push(j);
            }
            j = j + 1;
        }
        let pick = ties[random_index(ties.len())];
        let c = children[pick];
        assert(children@.contains(c) && children@[pick as int] == c);
        Some(c)
    }
}

impl SearchTree {
    /// The move a finished search picks: the move of a most-visited root child
    /// (robust child), or, without children, a random unexplored root move.
    pub fn root_choice(&self) -> (r: Option<crate::chess::ChessMove>)
        requires
            self.wf(),
        ensures
            self.nodes@[0].children@.len() > 0 ==> exists|c: usize| {
                &&& self.nodes@[0].children@.contains(c)
                &&& (c as int) < self.nodes@.len()
                &&& r == self.nodes@[c as int].mv
                &&& forall|k: int| 0 <= k < self.nodes@[0].children@.len() ==>
                    self.nodes@[(#[trigger] self.nodes@[0].children@[k]) as int].visits <= self.nodes@[c as int].visits
            },
            self.nodes@[0].children@.len() == 0 ==> (r is None <==> self.nodes@[0].unexplored@.len() == 0),
            self.nodes@[0].children@.len() == 0 ==> (r matches Some(m) ==> self.nodes@[0].unexplored@.contains(m)),
    {
        match self.most_visited_child() {
            Some(c) => self.nodes[c].mv,
            None => {
                let unexplored = &self.nodes[0].unexplored;
                if unexplored.len() > 0 {
                    let i = random_index(unexplored.len());
                    assert(unexplored@.contains(unexplored@[i as int]));
                    Some(unexplored[i])
                } else {
                    None
                }
            },
        }
    }
}

/// Picks a move by Monte Carlo tree search within the iteration and time
/// budgets: the most visited child of the root. A move outside the set the
/// handicap allows is never returned; should the tree yield none, a uniformly
/// random allowed move is. `None` exactly when the handicap leaves no legal move.
pub fn find_best_move_uct(ctx: &AiGameStateContext, iterations: u32) -> (r: Option<crate::chess::ChessMove>)
    requires
        ctx.board.wf(),
    ensures
        r is None <==> filtered(ctx.player_drawback, ctx.board.legal_moves@, ctx.rng_outcome).len() == 0,
        r matches Some(m) ==> filtered(ctx.player_drawback, ctx.board.legal_moves@, ctx.rng_outcome).contains(m),
{
    let candidates = ctx.player_drawback.filter_moves(&ctx.board.legal_moves, ctx.rng_outcome);
    if candidates.len() == 0 {
        return None;
    }
    let mut tree = SearchTree::new(ctx);
    tree.run(ctx, iterations, ctx.time_limit_ms);
    let chosen = tree.root_choice();
    if let Some(m) = chosen {
        if contains_move(&candidates, &m) {
            return Some(m);
        }
    }
    let i = random_index(candidates.len());
    assert(candidates@.contains(candidates@[i as int]));
    Some(candidates[i])
}

} // verus!
