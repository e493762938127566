use vstd::prelude::*;
use crate::chess::{file_of, rank_of, ChessMove, MoveKind, Position, Role};

verus! {

/// The handicap rules a side can play under.
#[derive(Clone, Copy, Debug, PartialEq, Eq, Structural, Hash)]
pub enum DrawbackId {
    /// No handicap.
    NoDrawback,
    /// Castling is not allowed.
    NoCastling,
    /// Pawns may not advance two squares.
    PawnPushOneOnly,
    /// Each turn a random file is drawn; no move may land on it.
    BlockRandomFile,
}

/// Number of handicap rules, the "none" rule included.
pub const DRAWBACK_COUNT: u16 = 4;

pub open spec fn key_index(id: DrawbackId) -> u16 {
    match id {
        DrawbackId::NoDrawback => 0,
        DrawbackId::NoCastling => 1,
        DrawbackId::PawnPushOneOnly => 2,
        DrawbackId::BlockRandomFile => 3,
    }
}

/// Whether a two-square pawn advance.
pub open spec fn is_double_pawn_push(m: ChessMove) -> bool {
    &&& m.kind == MoveKind::Normal
    &&& m.role == Role::Pawn
    &&& m.from matches Some(f)
    &&& (rank_of(m.to as int) - rank_of(f as int) == 2 || rank_of(f as int) - rank_of(m.to as int) == 2)
}

/// Whether rule `id` lets move `m` stand, given the turn's random outcome.
pub open spec fn rule_allows(id: DrawbackId, m: ChessMove, rng_outcome: Option<u8>) -> bool {
    match id {
        DrawbackId::NoDrawback => true,
        DrawbackId::NoCastling => m.kind != MoveKind::Castle,
        DrawbackId::PawnPushOneOnly => !is_double_pawn_push(m),
        DrawbackId::BlockRandomFile => match rng_outcome {
            Some(f) => f >= 8 || file_of(m.to as int) != f as int,
            None => true,
        },
    }
}

pub open spec fn filtered(id: DrawbackId, moves: Seq<ChessMove>, rng_outcome: Option<u8>) -> Seq<ChessMove> {
    moves.filter(|m: ChessMove| rule_allows(id, m, rng_outcome))
}

pub open spec fn rule_needs_rng(id: DrawbackId) -> bool {
    id == DrawbackId::BlockRandomFile
}

pub open spec fn rule_rng_outcomes(id: DrawbackId) -> u8 {
    if id == DrawbackId::BlockRandomFile { 8 } else { 1 }
}

/// A side under a handicap loses when the rule leaves it no move at all.
pub open spec fn rule_declares_loss(id: DrawbackId, filtered_moves: Seq<ChessMove>) -> bool {
    id != DrawbackId::NoDrawback && filtered_moves.len() == 0
}

/// Filtering keeps only moves of the list, so well-formed moves stay well formed.
pub proof fn lemma_filtered_moves_wf(id: DrawbackId, moves: Seq<ChessMove>, rng_outcome: Option<u8>, i: int)
    requires
        forall|j: int| 0 <= j < moves.len() ==> (#[trigger] moves[j]).wf(),
        0 <= i < filtered(id, moves, rng_outcome).len(),
    ensures
        filtered(id, moves, rng_outcome)[i].wf(),
        moves.contains(filtered(id, moves, rng_outcome)[i]),
{
    let pred = |m: ChessMove| rule_allows(id, m, rng_outcome);
    let x = moves.filter(pred)[i];
    assert(moves.filter(pred).contains(x));
    moves.lemma_filter_contains_rev(pred, x);
}

/// A move the filter keeps is a move of the list, hence well formed.
pub proof fn lemma_filtered_contains_wf(id: DrawbackId, moves: Seq<ChessMove>, rng_outcome: Option<u8>, m: ChessMove)
    requires
        forall|j: int| 0 <= j < moves.len() ==> (#[trigger] moves[j]).wf(),
        filtered(id, moves, rng_outcome).contains(m),
    ensures
        m.wf(),
        moves.contains(m),
{
    let pred = |x: ChessMove| rule_allows(id, x, rng_outcome);
    moves.lemma_filter_contains_rev(pred, m);
}

impl DrawbackId {
    /// Index of this rule's fingerprint key.
    pub fn to_key_index(&self) -> (r: u16)
        ensures
            r == key_index(*self),
            r < DRAWBACK_COUNT,
    {
        match self {
            DrawbackId::NoDrawback => 0,
            DrawbackId::NoCastling => 1,
            DrawbackId::PawnPushOneOnly => 2,
            DrawbackId::BlockRandomFile => 3,
        }
    }

    /// Whether this rule lets move `m` stand.
    pub fn allows(&self, m: &ChessMove, rng_outcome: Option<u8>) -> (r: bool)
        requires
            m.wf(),
        ensures
            r == rule_allows(*self, *m, rng_outcome),
    {
        match self {
            DrawbackId::NoDrawback => true,
            DrawbackId::NoCastling => !matches!(m.kind, MoveKind::Castle),
            DrawbackId::PawnPushOneOnly => {
                match (m.kind, m.role, m.from) {
                    (MoveKind::Normal, Role::Pawn, Some(f)) => {
                        let from_rank = f / 8;
                        let to_rank = m.to / 8;
                        !(to_rank == from_rank + 2 || from_rank == to_rank + 2)
                    },
                    _ => true,
                }
            },
            DrawbackId::BlockRandomFile => match rng_outcome {
                Some(f) => f >= 8 || m.to % 8 != f,
                None => true,
            },
        }
    }

    /// The moves of `moves` that this rule lets stand, in their order.
    pub fn filter_moves(&self, moves: &Vec<ChessMove>, rng_outcome: Option<u8>) -> (r: Vec<ChessMove>)
        requires
            forall|i: int| 0 <= i < moves@.len() ==> (#[trigger] moves@[i]).wf(),
        ensures
            r@ == filtered(*self, moves@, rng_outcome),
    {
        let mut out: Vec<ChessMove> = Vec::new();
        let mut i: usize = 0;
        while i < moves.len()
            invariant
                i <= moves@.len(),
                forall|j: int| 0 <= j < moves@.len() ==> (#[trigger] moves@[j]).wf(),
                out@ == filtered(*self, moves@.subrange(0, i as int), rng_outcome),
            decreases moves@.len() - i,
        {
            proof {
                let s = moves@.subrange(0, i as int + 1);
                assert(s.drop_last() == moves@.subrange(0, i as int));
                reveal(Seq::filter);
            }
            if self.allows(&moves[i], rng_outcome) {
                out.push(moves[i]);
            }
            i = i + 1;
        }
        assert(moves@.subrange(0, moves@.len() as int) == moves@);
        out
    }

    /// Whether the side to move needs a random outcome drawn at the start of its turn.
    pub fn needs_turn_rng(&self) -> (r: bool)
        ensures
            r == rule_needs_rng(*self),
    {
        matches!(self, DrawbackId::BlockRandomFile)
    }

    /// Number of random outcomes (drawn from `0..n`) this rule uses.
    pub fn get_rng_outcomes(&self) -> (r: u8)
        ensures
            r == rule_rng_outcomes(*self),
    {
        if matches!(self, DrawbackId::BlockRandomFile) { 8 } else { 1 }
    }

    /// Whether the side to move has lost under this rule, given its moves after filtering.
    pub fn check_loss_condition(&self, filtered_moves: &Vec<ChessMove>) -> (r: bool)
        ensures
            r == rule_declares_loss(*self, filtered_moves@),
    {
        !matches!(self, DrawbackId::NoDrawback) && filtered_moves.len() == 0
    }
}

/// A handicap rule as a value: what it is called and how it restricts moves.
/// The rules never change the position they are given.
pub trait DrawbackRule {
    spec fn rule(&self) -> DrawbackId;

    fn id(&self) -> (r: DrawbackId)
        ensures
            r == self.rule();

    fn name(&self) -> (r: &'static str);

    fn description(&self) -> (r: &'static str);

    fn needs_turn_rng(&self) -> (r: bool)
        ensures
            r == rule_needs_rng(self.rule());

    fn get_rng_outcomes(&self) -> (r: u8)
        ensures
            r == rule_rng_outcomes(self.rule());

    /// The moves this rule lets stand, in their order. `position` is the position
    /// before the move.
    fn filter_pseudo_legal_moves(&self, position: &Position, moves: Vec<ChessMove>, rng_outcome: Option<u8>) -> (r: Vec<ChessMove>)
        requires
            forall|i: int| 0 <= i < moves@.len() ==> (#[trigger] moves@[i]).wf(),
        ensures
            r@ == filtered(self.rule(), moves@, rng_outcome);

    fn check_loss_condition(&self, position: &Position, legal_moves: &Vec<ChessMove>) -> (r: bool)
        ensures
            r == rule_declares_loss(self.rule(), legal_moves@);
}

/// Castling (king side or queen side) is not allowed.
#[derive(Clone, Copy, Debug)]
pub struct NoCastling;

/// Pawns may not advance two squares on their first move.
#[derive(Clone, Copy, Debug)]
pub struct PawnPushOneOnly;

/// At the start of each turn a random file (a to h) is drawn; no piece may move to it.
#[derive(Clone, Copy, Debug)]
pub struct BlockRandomFile;

impl DrawbackRule for NoCastling {
    open spec fn rule(&self) -> DrawbackId {
        DrawbackId::NoCastling
    }

    fn id(&self) -> (r: DrawbackId) {
        DrawbackId::NoCastling
    }

    fn name(&self) -> (r: &'static str) {
        "No Castling"
    }

    fn description(&self) -> (r: &'static str) {
        "Castling (Kingside or Queenside) is not allowed."
    }

    fn needs_turn_rng(&self) -> (r: bool) {
        DrawbackId::NoCastling.needs_turn_rng()
    }

    fn get_rng_outcomes(&self) -> (r: u8) {
        DrawbackId::NoCastling.get_rng_outcomes()
    }

    fn filter_pseudo_legal_moves(&self, _position: &Position, moves: Vec<ChessMove>, rng_outcome: Option<u8>) -> (r: Vec<ChessMove>) {
        DrawbackId::NoCastling.filter_moves(&moves, rng_outcome)
    }

    fn check_loss_condition(&self, _position: &Position, legal_moves: &Vec<ChessMove>) -> (r: bool) {
        DrawbackId::NoCastling.check_loss_condition(legal_moves)
    }
}

impl DrawbackRule for PawnPushOneOnly {
    open spec fn rule(&self) -> DrawbackId {
        DrawbackId::PawnPushOneOnly
    }

    fn id(&self) -> (r: DrawbackId) {
        DrawbackId::PawnPushOneOnly
    }

    fn name(&self) -> (r: &'static str) {
        "Pawns Advance One"
    }

    fn description(&self) -> (r: &'static str) {
        "Pawns may not advance two squares on their first move."
    }

    fn needs_turn_rng(&self) -> (r: bool) {
        DrawbackId::PawnPushOneOnly.needs_turn_rng()
    }

    fn get_rng_outcomes(&self) -> (r: u8) {
        DrawbackId::PawnPushOneOnly.get_rng_outcomes()
    }

    fn filter_pseudo_legal_moves(&self, _position: &Position, moves: Vec<ChessMove>, rng_outcome: Option<u8>) -> (r: Vec<ChessMove>) {
        DrawbackId::PawnPushOneOnly.filter_moves(&moves, rng_outcome)
    }

    fn check_loss_condition(&self, _position: &Position, legal_moves: &Vec<ChessMove>) -> (r: bool) {
        DrawbackId::PawnPushOneOnly.check_loss_condition(legal_moves)
    }
}

impl DrawbackRule for BlockRandomFile {
    open spec fn rule(&self) -> DrawbackId {
        DrawbackId::BlockRandomFile
    }

    fn id(&self) -> (r: DrawbackId) {
        DrawbackId::BlockRandomFile
    }

    fn name(&self) -> (r: &'static str) {
        "Random File Blocked"
    }

    fn description(&self) -> (r: &'static str) {
        "At the start of your turn, a random file (A-H) is chosen. You cannot move any piece TO that file this turn."
    }

    fn needs_turn_rng(&self) -> (r: bool) {
        DrawbackId::BlockRandomFile.needs_turn_rng()
    }

    fn get_rng_outcomes(&self) -> (r: u8) {
        DrawbackId::BlockRandomFile.get_rng_outcomes()
    }

    fn filter_pseudo_legal_moves(&self, _position: &Position, moves: Vec<ChessMove>, rng_outcome: Option<u8>) -> (r: Vec<ChessMove>) {
        DrawbackId::BlockRandomFile.filter_moves(&moves, rng_outcome)
    }

    fn check_loss_condition(&self, _position: &Position, legal_moves: &Vec<ChessMove>) -> (r: bool) {
        DrawbackId::BlockRandomFile.check_loss_condition(legal_moves)
    }
}

/// The registered handicap rules, looked up by id.
pub struct DrawbackRegistry {
    pub rules: Vec<DrawbackId>,
}

impl DrawbackRegistry {
    /// Whether `id` names a registered rule.
    pub open spec fn has(&self, id: DrawbackId) -> bool {
        self.rules@.contains(id)
    }

    /// The registered rule for `id`, if any.
    pub fn get(&self, id: DrawbackId) -> (r: Option<DrawbackId>)
        ensures
            r == (if self.has(id) { Some(id) } else { None::<DrawbackId> }),
    {
        let mut i: usize = 0;
        while i < self.rules.len()
            invariant
                i <= self.rules@.len(),
                forall|j: int| 0 <= j < i ==> self.rules@[j] != id,
            decreases self.rules@.len() - i,
        {
            if self.rules[i] == id {
                return Some(id);
            }
            i = i + 1;
        }
        None
    }

    /// The rule a side plays under for `id`; an id that is not registered falls
    /// back to the "none" rule.
    pub fn resolve(&self, id: DrawbackId) -> (r: DrawbackId)
        ensures
            r == (if self.has(id) { id } else { DrawbackId::NoDrawback }),
    {
        match self.get(id) {
            Some(rule) => rule,
            None => DrawbackId::NoDrawback,
        }
    }
}

impl Default for DrawbackRegistry {
    fn default() -> (r: DrawbackRegistry)
        ensures
            r.rules@ == seq![DrawbackId::NoCastling, DrawbackId::PawnPushOneOnly, DrawbackId::BlockRandomFile],
    {
        DrawbackRegistry { rules: vec![DrawbackId::NoCastling, DrawbackId::PawnPushOneOnly, DrawbackId::BlockRandomFile] }
    }
}

} // verus!
