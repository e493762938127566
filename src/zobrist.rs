use vstd::prelude::*;
use rand::rngs::StdRng;
use rand::{Rng, SeedableRng};
use crate::chess::{CastlingRights, Color, Piece, Position};
use crate::drawbacks::{key_index, DrawbackId};
use crate::evaluation::{role_index, role_to_index};
use crate::state::{active_drawback, GameState};

verus! {

/// Number of handicap keys in the table.
pub const MAX_DRAWBACK_INDICES: usize = 1024;

/// Number of random-outcome keys, besides the key for "no outcome".
pub const MAX_RNG_OUTCOMES: usize = 256;

/// Seed of the key table: every instance must derive the same keys.
pub const ZOBRIST_SEED: u64 = 42664;

/// The random keys XOR-ed into a fingerprint.
#[derive(Debug)]
pub struct ZobristKeys {
    /// One key per piece kind (white pawn .. white king, black pawn .. black king) and square.
    pub pieces: Vec<Vec<u64>>,
    /// XOR-ed in when black is to move.
    pub turn: u64,
    /// White king side, white queen side, black king side, black queen side.
    pub castling: Vec<u64>,
    /// One key per file of the en-passant square.
    pub en_passant: Vec<u64>,
    /// One key per handicap rule index.
    pub drawbacks: Vec<u64>,
    /// One key per random outcome; the last one stands for "no outcome".
    pub rng_outcomes: Vec<u64>,
}

impl ZobristKeys {
    pub open spec fn wf(&self) -> bool {
        &&& self.pieces@.len() == 12
        &&& forall|i: int| 0 <= i < 12 ==> (#[trigger] self.pieces@[i])@.len() == 64
        &&& self.castling@.len() == 4
        &&& self.en_passant@.len() == 8
        &&& self.drawbacks@.len() == MAX_DRAWBACK_INDICES
        &&& self.rng_outcomes@.len() == MAX_RNG_OUTCOMES + 1
    }
}

/// The first `n` values the standard generator seeded with `seed` yields.
pub uninterp spec fn seeded_stream(seed: u64, n: nat) -> Seq<u64>;

/// Relies on rand's `StdRng::seed_from_u64` and `Rng::gen::<u64>`: the first `n`
/// values of the generator seeded with `seed`, which depend on the seed alone.
#[verifier::external_body]
fn seeded_values(seed: u64, n: usize) -> (r: Vec<u64>)
    ensures
        r@ == seeded_stream(seed, n as nat),
        r@.len() == n,
{
    let mut rng = StdRng::seed_from_u64(seed);
    (0..n).map(|_| rng.gen::<u64>()).collect()
}

/// Number of keys in the table.
pub const KEY_COUNT: usize = 2062;

/// Where each part of the table starts in the seeded stream.
pub const TURN_KEY_AT: usize = 768;
pub const CASTLING_KEYS_AT: usize = 769;
pub const EN_PASSANT_KEYS_AT: usize = 773;
pub const DRAWBACK_KEYS_AT: usize = 781;
pub const OUTCOME_KEYS_AT: usize = 1805;

fn copy_range(values: &Vec<u64>, start: usize, n: usize) -> (r: Vec<u64>)
    requires
        start + n <= values@.len(),
    ensures
        r@ == values@.subrange(start as int, start + n),
{
    let mut r: Vec<u64> = Vec::new();
    let mut i: usize = 0;
    let len = values.len();
    while i < n
        invariant
            i <= n,
            len == values@.len(),
            start + n <= values@.len(),
            r@ == values@.subrange(start as int, start + i),
        decreases n - i,
    {
        r.push(values[start + i]);
        i = i + 1;
    }
    r
}

impl ZobristKeys {
    /// The table laid out from a stream of keys: piece keys (a row of 64 per
    /// piece kind), the turn key, castling, en passant, handicaps, outcomes.
    pub open spec fn drawn_from(&self, stream: Seq<u64>) -> bool {
        &&& forall|k: int| 0 <= k < 12 ==> (#[trigger] self.pieces@[k])@ == stream.subrange(k * 64, k * 64 + 64)
        &&& self.turn == stream[TURN_KEY_AT as int]
        &&& self.castling@ == stream.subrange(CASTLING_KEYS_AT as int, EN_PASSANT_KEYS_AT as int)
        &&& self.en_passant@ == stream.subrange(EN_PASSANT_KEYS_AT as int, DRAWBACK_KEYS_AT as int)
        &&& self.drawbacks@ == stream.subrange(DRAWBACK_KEYS_AT as int, OUTCOME_KEYS_AT as int)
        &&& self.rng_outcomes@ == stream.subrange(OUTCOME_KEYS_AT as int, KEY_COUNT as int)
    }
}

/// Draws the key table from the fixed seed, so every instance derives the same keys.
pub fn initialize_zobrist_keys() -> (r: ZobristKeys)
    ensures
        r.wf(),
        r.drawn_from(seeded_stream(ZOBRIST_SEED, KEY_COUNT as nat)),
{
    let values = seeded_values(ZOBRIST_SEED, KEY_COUNT);
    let mut pieces: Vec<Vec<u64>> = Vec::new();
    let mut k: usize = 0;
    while k < 12
        invariant
            k <= 12,
            values@.len() == KEY_COUNT,
            pieces@.len() == k,
            forall|i: int| 0 <= i < k ==> (#[trigger] pieces@[i])@ == values@.subrange(i * 64, i * 64 + 64),
        decreases 12 - k,
    {
        let row = copy_range(&values, k * 64, 64);
        let ghost before = pieces@;
        pieces.push(row);
        assert forall|i: int| 0 <= i < k + 1 implies (#[trigger] pieces@[i])@ == values@.subrange(i * 64, i * 64 + 64) by {
            if i < k {
                assert(pieces@[i] == before[i]);
            }
        }
        k = k + 1;
    }
    let turn = values[TURN_KEY_AT];
    let castling = copy_range(&values, CASTLING_KEYS_AT, 4);
    let en_passant = copy_range(&values, EN_PASSANT_KEYS_AT, 8);
    let drawbacks = copy_range(&values, DRAWBACK_KEYS_AT, MAX_DRAWBACK_INDICES);
    let rng_outcomes = copy_range(&values, OUTCOME_KEYS_AT, MAX_RNG_OUTCOMES + 1);
    ZobristKeys { pieces, turn, castling, en_passant, drawbacks, rng_outcomes }
}

/// Row of the piece-key table for a piece: white pieces first, by role.
pub open spec fn piece_index(p: Piece) -> int {
    (if p.color == Color::White { 0int } else { 6int }) + role_index(p.role)
}

pub fn piece_to_index(p: Piece) -> (r: usize)
    ensures
        r as int == piece_index(p),
        r < 12,
{
    let offset: usize = match p.color {
        Color::White => 0,
        Color::Black => 6,
    };
    offset + role_to_index(p.role)
}

/// XOR of the piece keys of the first `n` squares.
pub open spec fn piece_keys(squares: Seq<Option<Piece>>, keys: ZobristKeys, n: int) -> u64
    decreases n,
{
    if n <= 0 {
        0
    } else {
        let h = piece_keys(squares, keys, n - 1);
        match squares[n - 1] {
            Some(p) => h ^ keys.pieces@[piece_index(p)]@[n - 1],
            None => h,
        }
    }
}

/// XOR of the keys for castling rights, en passant, the active handicap and the
/// turn's random outcome.
pub open spec fn aux_keys(
    castling: CastlingRights,
    ep_square: Option<u8>,
    drawback: DrawbackId,
    rng_outcome: Option<u8>,
    keys: ZobristKeys,
) -> u64 {
    let h0: u64 = 0;
    let h1 = if castling.white_king_side { h0 ^ keys.castling@[0] } else { h0 };
    let h2 = if castling.white_queen_side { h1 ^ keys.castling@[1] } else { h1 };
    let h3 = if castling.black_king_side { h2 ^ keys.castling@[2] } else { h2 };
    let h4 = if castling.black_queen_side { h3 ^ keys.castling@[3] } else { h3 };
    let h5 = match ep_square {
        Some(sq) => h4 ^ keys.en_passant@[sq as int % 8],
        None => h4,
    };
    let h6 = h5 ^ keys.drawbacks@[key_index(drawback) as int % MAX_DRAWBACK_INDICES as int];
    match rng_outcome {
        Some(o) => h6 ^ keys.rng_outcomes@[o as int % (MAX_RNG_OUTCOMES + 1) as int],
        None => h6 ^ keys.rng_outcomes@[MAX_RNG_OUTCOMES as int],
    }
}

/// Fingerprint of a position with side `turn` to move, the active handicap and the turn's outcome.
pub open spec fn fingerprint(
    board: Position,
    turn: Color,
    drawback: DrawbackId,
    rng_outcome: Option<u8>,
    keys: ZobristKeys,
) -> u64 {
    let pieces = piece_keys(board.squares@, keys, 64);
    let with_turn = if turn == Color::Black { pieces ^ keys.turn } else { pieces };
    with_turn ^ aux_keys(board.castling, board.ep_square, drawback, rng_outcome, keys)
}

/// Fingerprint of a game state.
pub open spec fn state_fingerprint(game_state: GameState, keys: ZobristKeys) -> u64 {
    fingerprint(
        game_state.board,
        game_state.current_player_turn,
        active_drawback(game_state.current_player_turn, game_state.white_drawback, game_state.black_drawback),
        game_state.current_turn_rng_outcome,
        keys,
    )
}

/// Fingerprint of a position with side `turn` to move, under `drawback`, with the
/// turn's random outcome.
pub fn position_hash(board: &Position, turn: Color, drawback: DrawbackId, rng_outcome: Option<u8>, keys: &ZobristKeys) -> (r: u64)
    requires
        board.wf(),
        keys.wf(),
    ensures
        r == fingerprint(*board, turn, drawback, rng_outcome, *keys),
{
    let mut hash: u64 = 0;
    let mut sq: usize = 0;
    while sq < 64
        invariant
            sq <= 64,
            board.wf(),
            keys.wf(),
            hash == piece_keys(board.squares@, *keys, sq as int),
        decreases 64 - sq,
    {
        match board.squares[sq] {
            Some(piece) => {
                let idx = piece_to_index(piece);
                hash = hash ^ keys.pieces[idx][sq];
            },
            None => {},
        }
        sq = sq + 1;
    }
    if matches!(turn, Color::Black) {
        hash = hash ^ keys.turn;
    }
    let mut aux: u64 = 0;
    if board.castling.white_king_side {
        aux = aux ^ keys.castling[0];
    }
    if board.castling.white_queen_side {
        aux = aux ^ keys.castling[1];
    }
    if board.castling.black_king_side {
        aux = aux ^ keys.castling[2];
    }
    if board.castling.black_queen_side {
        aux = aux ^ keys.castling[3];
    }
    if let Some(ep) = board.ep_square {
        aux = aux ^ keys.en_passant[(ep % 8) as usize];
    }
    let drawback_idx = drawback.to_key_index() as usize % MAX_DRAWBACK_INDICES;
    aux = aux ^ keys.drawbacks[drawback_idx];
    match rng_outcome {
        Some(o) => {
            aux = aux ^ keys.rng_outcomes[o as usize % (MAX_RNG_OUTCOMES + 1)];
        },
        None => {
            aux = aux ^ keys.rng_outcomes[MAX_RNG_OUTCOMES];
        },
    }
    hash ^ aux
}

/// Fingerprint of a game state: its position, the side to move, that side's
/// handicap and the turn's random outcome.
pub fn calculate_zobrist_hash(game_state: &GameState, keys: &ZobristKeys) -> (r: u64)
    requires
        game_state.wf(),
        keys.wf(),
    ensures
        r == state_fingerprint(*game_state, *keys),
{
    let drawback = game_state.get_current_player_drawback_id();
    position_hash(&game_state.board, game_state.current_player_turn, drawback, game_state.current_turn_rng_outcome, keys)
}

/// Stores the game state's fingerprint in it.
pub fn calculate_and_update_zobrist_hash(game_state: &mut GameState, keys: &ZobristKeys)
    requires
        old(game_state).wf(),
        keys.wf(),
    ensures
        final(game_state).zobrist_hash == state_fingerprint(*old(game_state), *keys),
        final(game_state).board == old(game_state).board,
        final(game_state).current_player_turn == old(game_state).current_player_turn,
        final(game_state).status == old(game_state).status,
        final(game_state).white_drawback == old(game_state).white_drawback,
        final(game_state).black_drawback == old(game_state).black_drawback,
        final(game_state).current_turn_rng_outcome == old(game_state).current_turn_rng_outcome,
        final(game_state).board_flipped == old(game_state).board_flipped,
{
    let hash = calculate_zobrist_hash(game_state, keys);
    game_state.zobrist_hash = hash;
}

/// The fingerprint is a function of what it hashes: two states that agree on the
/// position's pieces, castling rights and en-passant square, the side to move,
/// that side's handicap and the turn's outcome get the same fingerprint.
pub proof fn lemma_fingerprint_is_pure(a: GameState, b: GameState, keys: ZobristKeys)
    requires
        a.board.squares@ == b.board.squares@,
        a.board.castling == b.board.castling,
        a.board.ep_square == b.board.ep_square,
        a.current_player_turn == b.current_player_turn,
        active_drawback(a.current_player_turn, a.white_drawback, a.black_drawback)
            == active_drawback(b.current_player_turn, b.white_drawback, b.black_drawback),
        a.current_turn_rng_outcome == b.current_turn_rng_outcome,
    ensures
        state_fingerprint(a, keys) == state_fingerprint(b, keys),
{
}

/// Flipping the side to move, all else kept, XORs the fingerprint with the turn
/// key; so it changes the fingerprint exactly when that key is not zero.
pub proof fn lemma_fingerprint_turn_flip(board: Position, turn: Color, drawback: DrawbackId, rng_outcome: Option<u8>, keys: ZobristKeys)
    ensures
        fingerprint(board, crate::chess::opposite(turn), drawback, rng_outcome, keys)
            == fingerprint(board, turn, drawback, rng_outcome, keys) ^ keys.turn,
        fingerprint(board, crate::chess::opposite(turn), drawback, rng_outcome, keys)
            != fingerprint(board, turn, drawback, rng_outcome, keys) <==> keys.turn != 0,
{
    let p = piece_keys(board.squares@, keys, 64);
    let a = aux_keys(board.castling, board.ep_square, drawback, rng_outcome, keys);
    let t = keys.turn;
    assert((p ^ t) ^ a == (p ^ a) ^ t) by (bit_vector);
    assert(p ^ a == ((p ^ t) ^ a) ^ t) by (bit_vector);
    assert(((p ^ a) ^ t != p ^ a) <==> t != 0) by (bit_vector);
}

} // verus!
