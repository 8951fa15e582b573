//! Conveniences on move codes and scramble text: conversions between tokens
//! and codes, and scrambles delivered as text.

use vstd::prelude::*;
use crate::move_code::{
    code_token, invalid_code_message, invalid_move_message, parse_token, MoveCode,
};
use crate::notation::{
    is_first_invalid, is_first_invalid_code, parsed_codes, scramble_text, split_whitespace,
};
use crate::optimized_cube::OptimizedCube;
use crate::scramble::{generated, is_valid_scramble, seed_of};

verus! {

/// Conversions between move tokens, numeric codes and scramble text.
pub struct MoveUtils;

/// Whether a text is a valid scramble: every token denotes a move, and the
/// moves obey the ordering rule.
pub open spec fn is_valid_scramble_text(text: Seq<char>) -> bool {
    parsed_codes(text) matches Some(codes) && is_valid_scramble(codes)
}

impl MoveUtils {
    /// The numeric code of the move that a token denotes.
    pub fn move_to_code(move_str: &str) -> (result: Result<u8, String>)
        ensures
            match result {
                Ok(code) => parse_token(move_str@) matches Some(m) && m.spec_code() == code,
                Err(e) => parse_token(move_str@) is None && e@ == invalid_move_message(
                    move_str@,
                ),
            },
    {
        match MoveCode::from_str(move_str) {
            Ok(move_code) => Ok(move_code.code()),
            Err(e) => Err(e),
        }
    }

    /// The token of the move with numeric code `code`.
    pub fn code_to_move(code: u8) -> (result: Result<String, String>)
        ensures
            match result {
                Ok(token) => code <= 17 && token@ == code_token(code),
                Err(e) => code > 17 && e@ == invalid_code_message(code),
            },
    {
        match MoveCode::from_u8(code) {
            Ok(move_code) => Ok(String::from_str(move_code.as_str())),
            Err(e) => Err(e),
        }
    }

    /// The numeric codes of the moves of a scramble text.
    pub fn parse_scramble_to_codes(scramble: &str) -> (result: Result<Vec<u8>, String>)
        ensures
            match result {
                Ok(codes) => parsed_codes(scramble@) == Some(codes@),
                Err(e) => exists|k: int|
                    is_first_invalid(split_whitespace(scramble@), k) && e@
                        == invalid_move_message(split_whitespace(scramble@)[k]),
            },
    {
        OptimizedCube::parse_scramble(scramble)
    }

    /// Writes a sequence of numeric codes as scramble text, and reports the
    /// first entry that is no numeric code of a move.
    pub fn codes_to_scramble(codes: &[u8]) -> (result: Result<String, String>)
        ensures
            match result {
                Ok(text) => (forall|i: int| 0 <= i < codes@.len() ==> #[trigger] codes@[i] <= 17)
                    && text@ == scramble_text(codes@),
                Err(e) => exists|k: int|
                    is_first_invalid_code(codes@, k) && e@ == invalid_code_message(codes@[k]),
            },
    {
        let n = codes.len();
        let mut i: usize = 0;
        while i < n
            invariant
                n == codes.len(),
                i <= n,
                forall|j: int| 0 <= j < i ==> #[trigger] codes@[j] <= 17,
            decreases n - i,
        {
            match MoveCode::from_u8(codes[i]) {
                Ok(_) => {},
                Err(e) => {
                    assert(is_first_invalid_code(codes@, i as int));
                    return Err(e);
                },
            }
            i += 1;
        }
        Ok(OptimizedCube::moves_to_string(codes))
    }

    /// Whether a text is a valid scramble. A text with a token that denotes no
    /// move is not.
    pub fn validate_scramble_string(scramble: &str) -> (valid: bool)
        ensures
            valid == is_valid_scramble_text(scramble@),
    {
        match OptimizedCube::parse_scramble(scramble) {
            Ok(moves) => OptimizedCube::validate_scramble(moves.as_slice()),
            Err(_) => false,
        }
    }

    /// A competition scramble, as text.
    pub fn generate_competition_scramble_string() -> (text: String)
        ensures
            exists|entropy: u64|
                text@ == scramble_text(#[trigger] generated(seed_of(entropy), 20).1),
    {
        let moves = OptimizedCube::generate_competition_scramble();
        OptimizedCube::moves_to_string(moves.as_slice())
    }

    /// A practice scramble, as text.
    pub fn generate_practice_scramble_string() -> (text: String)
        ensures
            exists|entropy: u64|
                text@ == scramble_text(#[trigger] generated(seed_of(entropy), 15).1),
    {
        let moves = OptimizedCube::generate_practice_scramble();
        OptimizedCube::moves_to_string(moves.as_slice())
    }

    /// A long scramble, as text.
    pub fn generate_long_scramble_string() -> (text: String)
        ensures
            exists|entropy: u64|
                text@ == scramble_text(#[trigger] generated(seed_of(entropy), 25).1),
    {
        let moves = OptimizedCube::generate_long_scramble();
        OptimizedCube::moves_to_string(moves.as_slice())
    }

    /// A scramble of `length` moves, as text.
    pub fn generate_random_scramble_string(length: usize) -> (text: String)
        ensures
            exists|entropy: u64|
                text@ == scramble_text(
                    #[trigger] generated(seed_of(entropy), length as nat).1,
                ),
    {
        let moves = OptimizedCube::generate_random_scramble(length);
        OptimizedCube::moves_to_string(moves.as_slice())
    }
}

} // verus!
