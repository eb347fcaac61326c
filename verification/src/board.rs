//! Position model adapter.
//!
//! The full chess rules — move legality, position update, notation — live in
//! the external rules engine (shakmaty). This module declares the engine's
//! types, wraps the handful of calls the replay needs, and computes the
//! occupancy summary the phase classifier consumes from the raw piece
//! bitboards.

use vstd::prelude::*;
use shakmaty::fen::{Epd, Fen};
use shakmaty::san::San;
use shakmaty::uci::UciMove;
use shakmaty::{CastlingMode, Chess, EnPassantMode, Move, Position};

verus! {

#[verifier::external_type_specification]
#[verifier::external_body]
pub struct ExChess(Chess);

#[verifier::external_type_specification]
#[verifier::external_body]
pub struct ExFen(Fen);

#[verifier::external_type_specification]
#[verifier::external_body]
pub struct ExSan(San);

#[verifier::external_type_specification]
#[verifier::external_body]
pub struct ExMove(Move);

#[verifier::external_type_specification]
#[verifier::external_body]
pub struct ExUciMove(UciMove);

/// Relies on shakmaty's `Chess::default`: the standard starting position.
#[verifier::external_body]
pub(crate) fn starting_position() -> Chess {
    Chess::default()
}

/// Whether a FEN text parses and yields a playable position: the verdict
/// of `Fen::from_ascii` followed by `Fen::into_position`, a function of
/// the text alone.
pub uninterp spec fn fen_playable(text: Seq<char>) -> bool;

/// Relies on shakmaty's `Fen::from_ascii` and `Fen::into_position`: parses
/// a FEN board encoding and validates it as a playable position, failing
/// exactly on the texts that are not playable encodings.
#[verifier::external_body]
pub(crate) fn fen_to_position(text: &str) -> (r: Option<Chess>)
    ensures
        r is Some <==> fen_playable(text@),
{
    match Fen::from_ascii(text.as_bytes()) {
        Ok(fen) => fen.into_position::<Chess>(CastlingMode::Chess960).ok(),
        Err(_) => None,
    }
}

/// Relies on shakmaty's `San::from_ascii`: parses one algebraic move token,
/// failing on malformed text.
#[verifier::external_body]
pub(crate) fn parse_san(token: &str) -> Option<San> {
    San::from_ascii(token.as_bytes()).ok()
}

/// Relies on shakmaty's `San::to_move`: resolves a parsed token against a
/// position, failing when no legal move matches.
#[verifier::external_body]
pub(crate) fn san_move(san: &San, pos: &Chess) -> Option<Move> {
    san.to_move(pos).ok()
}

/// Relies on shakmaty's `UciMove::from_ascii`: parses one coordinate move
/// token, failing on malformed text.
#[verifier::external_body]
pub(crate) fn parse_uci(token: &str) -> Option<UciMove> {
    UciMove::from_ascii(token.as_bytes()).ok()
}

/// Relies on shakmaty's `UciMove::to_move`: resolves a coordinate move
/// against a position, failing when the move is illegal there.
#[verifier::external_body]
pub(crate) fn uci_move(uci: &UciMove, pos: &Chess) -> Option<Move> {
    uci.to_move(pos).ok()
}

/// Relies on shakmaty's `Position::play`: advances the position by the
/// move when it is legal there, reporting whether it was; an illegal move
/// leaves the position unchanged.
#[verifier::external_body]
pub(crate) fn play_move(pos: &mut Chess, m: &Move) -> bool {
    match pos.clone().play(m) {
        Ok(next) => {
            *pos = next;
            true
        },
        Err(_) => false,
    }
}

/// Relies on shakmaty's `Move::to_uci` and `UciMove`'s display form: the
/// coordinate notation of a resolved move.
#[verifier::external_body]
pub(crate) fn move_uci(m: &Move, pos: &Chess) -> String {
    m.to_uci(pos.castles().mode()).to_string()
}

/// Relies on shakmaty's `Epd::from_position` and its display form: the
/// board encoding of the position, without move counters.
#[verifier::external_body]
pub(crate) fn position_epd(pos: &Chess) -> String {
    Epd::from_position(pos.clone(), EnPassantMode::Legal).to_string()
}

/// Relies on shakmaty's `Board::occupied`: the bitboard of all occupied
/// squares, one bit per square from a1 upward.
#[verifier::external_body]
pub(crate) fn occupied_bits(pos: &Chess) -> u64 {
    pos.board().occupied().0
}

/// Relies on shakmaty's `Board::kings`: the bitboard of both kings.
#[verifier::external_body]
pub(crate) fn kings_bits(pos: &Chess) -> u64 {
    pos.board().kings().0
}

/// Relies on shakmaty's `Board::pawns`: the bitboard of all pawns.
#[verifier::external_body]
pub(crate) fn pawns_bits(pos: &Chess) -> u64 {
    pos.board().pawns().0
}

/// The number of set bits among the low `k` bits of `x`.
pub open spec fn count_low_bits(x: int, k: nat) -> int
    decreases k,
{
    if k == 0 {
        0
    } else {
        x % 2 + count_low_bits(x / 2, (k - 1) as nat)
    }
}

/// Counts the set bits of a word.
pub fn popcount64(x: u64) -> (n: u32)
    ensures
        n == count_low_bits(x as int, 64),
        n <= 64,
{
    let mut v = x;
    let mut n: u32 = 0;
    let mut k: usize = 0;
    while k < 64
        invariant
            0 <= k <= 64,
            n <= k,
            n + count_low_bits(v as int, (64 - k) as nat) == count_low_bits(x as int, 64),
        decreases 64 - k,
    {
        n = n + (v % 2) as u32;
        v = v / 2;
        k += 1;
    }
    n
}

/// Counts the set bits of a byte-sized value.
pub fn popcount8(x: u64) -> (n: u32)
    requires
        x < 256,
    ensures
        n == count_low_bits(x as int, 8),
        n <= 8,
{
    let mut v = x;
    let mut n: u32 = 0;
    let mut k: usize = 0;
    while k < 8
        invariant
            0 <= k <= 8,
            n <= k,
            n + count_low_bits(v as int, (8 - k) as nat) == count_low_bits(x as int, 8),
        decreases 8 - k,
    {
        n = n + (v % 2) as u32;
        v = v / 2;
        k += 1;
    }
    n
}

/// What the phase classifier reads off the board: the number of pieces that
/// are neither kings nor pawns, and the number of occupied squares on each
/// side's back rank.
pub struct Occupancy {
    pub minor_major: u32,
    pub white_back: u32,
    pub black_back: u32,
}

/// Summarizes raw piece bitboards: the count of occupied squares that
/// hold neither a king nor a pawn, and the count of occupied squares on
/// each back rank (the low eight bits and the high eight bits).
pub fn occupancy_from_bits(occ: u64, kings: u64, pawns: u64) -> (o: Occupancy)
    ensures
        o.minor_major == count_low_bits((occ & !kings & !pawns) as int, 64),
        o.white_back == count_low_bits((occ % 256) as int, 8),
        o.black_back == count_low_bits((occ / 0x0100_0000_0000_0000) as int, 8),
        o.minor_major <= 64,
        o.white_back <= 8,
        o.black_back <= 8,
{
    let minor_major = popcount64(occ & !kings & !pawns);
    let white_low = occ % 256;
    let black_high = occ / 0x0100_0000_0000_0000;
    assert(black_high < 256) by {
        assert(occ <= 0xFFFF_FFFF_FFFF_FFFF);
    };
    let white_back = popcount8(white_low);
    let black_back = popcount8(black_high);
    Occupancy { minor_major, white_back, black_back }
}

/// Summarizes the occupancy of a position: the counts of
/// `occupancy_from_bits`, whose contract fixes them exactly, applied to
/// the position's bitboards. Which bitboards a position has is the rules
/// engine's; the counting is not.
pub fn occupancy_of(pos: &Chess) -> (o: Occupancy)
    ensures
        o.minor_major <= 64,
        o.white_back <= 8,
        o.black_back <= 8,
{
    let occ = occupied_bits(pos);
    let kings = kings_bits(pos);
    let pawns = pawns_bits(pos);
    occupancy_from_bits(occ, kings, pawns)
}

} // verus!
