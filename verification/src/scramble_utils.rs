//! Scrambles as text: generation, validation and formatting, and the practice
//! scrambles that wrap a named algorithm in random moves.

use vstd::prelude::*;
use crate::move_utils::is_valid_scramble_text;
use crate::notation::{
    chars_of, join_tokens, same_text, scramble_text, span_tokens, split_whitespace, token_spans,
};
use crate::optimized_cube::OptimizedCube;
use crate::scramble::{clock_entropy, counter_after_seeding, generated, seed_of, ScrambleRng};

verus! {

/// Scramble generation, validation and formatting on text.
pub struct ScrambleUtils;

/// The named algorithms that practice scrambles are built around.
pub struct AlgorithmPatterns;

/// Number of random moves on either side of the algorithm in a practice
/// scramble.
pub const PRACTICE_FILLER_LENGTH: usize = 8;

/// The algorithms for orienting the last layer.
pub open spec fn oll_patterns() -> Seq<Seq<char>> {
    seq![
        "R U R' U R U2 R'"@,
        "R U R' U' R' F R F'"@,
        "F R U R' U' F'"@,
        "R U R' U R U' R' U' R' F R F'"@,
        "F (R U R' U') (R U R' U') (R U R' U') F'"@,
        "F' (L' U' L U) (L' U' L U) (L' U' L U) F"@,
        "R U2 R' U' R U' R'"@,
        "R' U' R U' R' U2 R"@,
        "R U2 R2 U' R2 U' R2 U2 R"@,
    ]
}

/// The algorithms for permuting the last layer.
pub open spec fn pll_patterns() -> Seq<Seq<char>> {
    seq![
        "R U R' F' R U R' U' R' F R2 U' R'"@,
        "R U R' U' R' F R2 U' R' U' R U R' F'"@,
        "R' U R' U' R' U' R' U R U R2"@,
        "R U R' U R U R' F' R U R' U' R' F R2 U' R' U2 R U' R'"@,
        "R2 U R' U R' U' R U' R2 U' D R' U R D'"@,
        "R' U' F' R U R' U' R' F R2 U' R' U' R U R' U R"@,
        "R' U R U' R' F' U' F R U R' F R' F' R U' R"@,
        "R U' L' U R' U' L U R U' L' U R' U' L"@,
    ]
}

/// The algorithms for the first two layers.
pub open spec fn f2l_patterns() -> Seq<Seq<char>> {
    seq![
        "R U' R' U R U R'"@,
        "R U R' U' R U R'"@,
        "R U' R' U2 R U' R'"@,
        "R U2 R' U' R U R'"@,
        "U' R U R' U R U R'"@,
        "U R U' R' U' R U R'"@,
        "R' F R F' U R U' R'"@,
        "U' F' U F U R U' R'"@,
    ]
}

/// The algorithms that a practice scramble of the given kind chooses from:
/// those of `OLL`, `PLL` or `F2L`, and for any other kind the first algorithm
/// of `OLL` alone.
pub open spec fn practice_patterns(kind: Seq<char>) -> Seq<Seq<char>> {
    if kind == "OLL"@ {
        oll_patterns()
    } else if kind == "PLL"@ {
        pll_patterns()
    } else if kind == "F2L"@ {
        f2l_patterns()
    } else {
        seq!["R U R' U R U2 R'"@]
    }
}

/// The position in a list of `count` algorithms that the number `draw` picks:
/// `draw` times `count`, modulo `count`. The product is a multiple of `count`,
/// so this is the first position whatever the draw.
pub open spec fn pattern_index(draw: usize, count: usize) -> int {
    (draw * count) % (count as int)
}

/// A practice scramble: random moves, the algorithm, and random moves again,
/// with single spaces between the three.
pub open spec fn practice_text(prefix: Seq<u8>, pattern: Seq<char>, suffix: Seq<u8>) -> Seq<
    char,
> {
    scramble_text(prefix) + seq![' '] + pattern + seq![' '] + scramble_text(suffix)
}

impl AlgorithmPatterns {
    /// The algorithms for orienting the last layer.
    pub fn oll() -> (patterns: Vec<String>)
        ensures
            patterns.deep_view() == oll_patterns(),
    {
        let mut patterns: Vec<String> = Vec::new();
        patterns.push(String::from_str("R U R' U R U2 R'"));
        patterns.push(String::from_str("R U R' U' R' F R F'"));
        patterns.push(String::from_str("F R U R' U' F'"));
        patterns.push(String::from_str("R U R' U R U' R' U' R' F R F'"));
        patterns.push(String::from_str("F (R U R' U') (R U R' U') (R U R' U') F'"));
        patterns.push(String::from_str("F' (L' U' L U) (L' U' L U) (L' U' L U) F"));
        patterns.push(String::from_str("R U2 R' U' R U' R'"));
        patterns.push(String::from_str("R' U' R U' R' U2 R"));
        patterns.push(String::from_str("R U2 R2 U' R2 U' R2 U2 R"));
        assert(patterns.deep_view() =~= oll_patterns());
        patterns
    }

    /// The algorithms for permuting the last layer.
    pub fn pll() -> (patterns: Vec<String>)
        ensures
            patterns.deep_view() == pll_patterns(),
    {
        let mut patterns: Vec<String> = Vec::new();
        patterns.push(String::from_str("R U R' F' R U R' U' R' F R2 U' R'"));
        patterns.push(String::from_str("R U R' U' R' F R2 U' R' U' R U R' F'"));
        patterns.push(String::from_str("R' U R' U' R' U' R' U R U R2"));
        patterns.push(String::from_str("R U R' U R U R' F' R U R' U' R' F R2 U' R' U2 R U' R'"));
        patterns.push(String::from_str("R2 U R' U R' U' R U' R2 U' D R' U R D'"));
        patterns.push(String::from_str("R' U' F' R U R' U' R' F R2 U' R' U' R U R' U R"));
        patterns.push(String::from_str("R' U R U' R' F' U' F R U R' F R' F' R U' R"));
        patterns.push(String::from_str("R U' L' U R' U' L U R U' L' U R' U' L"));
        assert(patterns.deep_view() =~= pll_patterns());
        patterns
    }

    /// The algorithms for the first two layers.
    pub fn f2l() -> (patterns: Vec<String>)
        ensures
            patterns.deep_view() == f2l_patterns(),
    {
        let mut patterns: Vec<String> = Vec::new();
        patterns.push(String::from_str("R U' R' U R U R'"));
        patterns.push(String::from_str("R U R' U' R U R'"));
        patterns.push(String::from_str("R U' R' U2 R U' R'"));
        patterns.push(String::from_str("R U2 R' U' R U R'"));
        patterns.push(String::from_str("U' R U R' U R U R'"));
        patterns.push(String::from_str("U R U' R' U' R U R'"));
        patterns.push(String::from_str("R' F R F' U R U' R'"));
        patterns.push(String::from_str("U' F' U F U R U' R'"));
        assert(patterns.deep_view() =~= f2l_patterns());
        patterns
    }
}

impl ScrambleUtils {
    /// A scramble of `length` moves, as text.
    pub fn generate_scramble(length: usize) -> (text: String)
        ensures
            exists|entropy: u64|
                text@ == scramble_text(
                    #[trigger] generated(seed_of(entropy), length as nat).1,
                ),
    {
        let moves = OptimizedCube::generate_random_scramble(length);
        OptimizedCube::moves_to_string(moves.as_slice())
    }

    /// A competition scramble, as text.
    pub fn generate_competition_scramble() -> (text: String)
        ensures
            exists|entropy: u64|
                text@ == scramble_text(#[trigger] generated(seed_of(entropy), 20).1),
    {
        let moves = OptimizedCube::generate_competition_scramble();
        OptimizedCube::moves_to_string(moves.as_slice())
    }

    /// A practice scramble, as text.
    pub fn generate_practice_scramble() -> (text: String)
        ensures
            exists|entropy: u64|
                text@ == scramble_text(#[trigger] generated(seed_of(entropy), 15).1),
    {
        let moves = OptimizedCube::generate_practice_scramble();
        OptimizedCube::moves_to_string(moves.as_slice())
    }

    /// A long scramble, as text.
    pub fn generate_long_scramble() -> (text: String)
        ensures
            exists|entropy: u64|
                text@ == scramble_text(#[trigger] generated(seed_of(entropy), 25).1),
    {
        let moves = OptimizedCube::generate_long_scramble();
        OptimizedCube::moves_to_string(moves.as_slice())
    }

    /// Whether a text is a valid scramble. A text with a token that denotes no
    /// move is not.
    pub fn validate_scramble(scramble: &str) -> (valid: bool)
        ensures
            valid == is_valid_scramble_text(scramble@),
    {
        match OptimizedCube::parse_scramble(scramble) {
            Ok(moves) => OptimizedCube::validate_scramble(moves.as_slice()),
            Err(_) => false,
        }
    }

    /// The tokens of a text, whether they denote moves or not.
    pub fn parse_scramble(scramble: &str) -> (tokens: Vec<String>)
        ensures
            tokens.deep_view() == split_whitespace(scramble@),
    {
        let chars = chars_of(scramble);
        let spans = token_spans(&chars);
        let mut tokens: Vec<String> = Vec::new();
        let mut j: usize = 0;
        while j < spans.len()
            invariant
                chars@ == scramble@,
                span_tokens(chars@, spans@) == split_whitespace(scramble@),
                forall|i: int|
                    0 <= i < spans.len() ==> (#[trigger] spans[i]).0 < spans[i].1 <= chars.len(),
                j <= spans.len(),
                tokens.deep_view() == split_whitespace(scramble@).take(j as int),
            decreases spans.len() - j,
        {
            let (start, end) = spans[j];
            let token = String::from_str(scramble.substring_char(start, end));
            proof {
                assert(tokens.deep_view().push(token@) =~= split_whitespace(scramble@).take(
                    j + 1,
                ));
            }
            tokens.push(token);
            proof {
                assert(tokens.deep_view() =~= split_whitespace(scramble@).take(j + 1));
            }
            j += 1;
        }
        proof {
            assert(split_whitespace(scramble@).take(j as int) =~= split_whitespace(scramble@));
        }
        tokens
    }

    /// The text with its spacing normalised: its tokens, joined by single
    /// spaces.
    pub fn format_scramble(scramble: &str) -> (text: String)
        ensures
            text@ == join_tokens(split_whitespace(scramble@)),
    {
        let tokens = Self::parse_scramble(scramble);
        let mut text = String::new();
        let mut j: usize = 0;
        while j < tokens.len()
            invariant
                tokens.deep_view() == split_whitespace(scramble@),
                j <= tokens.len(),
                text@ == join_tokens(split_whitespace(scramble@).take(j as int)),
            decreases tokens.len() - j,
        {
            proof {
                reveal_strlit(" ");
                reveal_with_fuel(join_tokens, 2);
                let before = split_whitespace(scramble@).take(j as int);
                let after = split_whitespace(scramble@).take(j + 1);
                assert(after.drop_last() =~= before);
                assert(after.last() == tokens.deep_view()[j as int]);
                assert(tokens.deep_view()[j as int] == tokens[j as int]@);
            }
            if j > 0 {
                text.append(" ");
            }
            text.append(tokens[j].as_str());
            proof {
                assert(text@ =~= join_tokens(split_whitespace(scramble@).take(j + 1)));
            }
            j += 1;
        }
        proof {
            assert(split_whitespace(scramble@).take(j as int) =~= split_whitespace(scramble@));
        }
        text
    }

    /// The algorithm that the number `draw` picks among those of the given
    /// kind.
    pub fn practice_pattern(algorithm_type: &str, draw: usize) -> (pattern: String)
        ensures
            pattern@ == practice_patterns(algorithm_type@)[pattern_index(
                draw,
                practice_patterns(algorithm_type@).len() as usize,
            )],
    {
        let patterns = if same_text(algorithm_type, "OLL") {
            AlgorithmPatterns::oll()
        } else if same_text(algorithm_type, "PLL") {
            AlgorithmPatterns::pll()
        } else if same_text(algorithm_type, "F2L") {
            AlgorithmPatterns::f2l()
        } else {
            let mut only: Vec<String> = Vec::new();
            only.push(String::from_str("R U R' U R U2 R'"));
            only
        };
        assert(patterns.deep_view() =~= practice_patterns(algorithm_type@));
        let count = patterns.len();
        assert(1 <= count <= 9);
        assert(draw * count <= 9 * usize::MAX && (draw * count) % (count as int) < count)
            by (nonlinear_arith)
            requires
                1 <= count <= 9,
                draw <= usize::MAX,
        ;
        let index = ((draw as u128 * count as u128) % (count as u128)) as usize;
        assert(patterns.deep_view()[index as int] == patterns[index as int]@);
        patterns[index].clone()
    }

    /// A practice scramble around an algorithm of the given kind, with random
    /// moves from a generator of its own, seeded from the system clock: eight
    /// random moves, the algorithm that `draw` picks, and eight random moves
    /// again.
    pub fn generate_algorithm_practice(algorithm_type: &str, draw: usize) -> (text: String)
        ensures
            exists|entropy: u64|
                ({
                    let first = #[trigger] generated(seed_of(entropy), 8);
                    let second = generated(first.0, 8);
                    let patterns = practice_patterns(algorithm_type@);
                    text@ == practice_text(
                        first.1,
                        patterns[pattern_index(draw, patterns.len() as usize)],
                        second.1,
                    )
                }),
    {
        let mut rng = ScrambleRng::new();
        let entropy = clock_entropy();
        let text = Self::generate_algorithm_practice_with(&mut rng, entropy, algorithm_type, draw);
        proof {
            let first = generated(seed_of(entropy), 8);
        }
        text
    }

    /// A practice scramble around an algorithm of the given kind: eight random
    /// moves, the algorithm that `draw` picks, and eight random moves again.
    /// The generator is seeded with `entropy` first if it is not seeded yet.
    pub fn generate_algorithm_practice_with(
        rng: &mut ScrambleRng,
        entropy: u64,
        algorithm_type: &str,
        draw: usize,
    ) -> (text: String)
        ensures
            ({
                let start = counter_after_seeding(old(rng)@, entropy);
                let first = generated(start, 8);
                let second = generated(first.0, 8);
                let patterns = practice_patterns(algorithm_type@);
                &&& final(rng)@ == Some(second.0)
                &&& text@ == practice_text(
                    first.1,
                    patterns[pattern_index(draw, patterns.len() as usize)],
                    second.1,
                )
            }),
    {
        let pattern = Self::practice_pattern(algorithm_type, draw);
        let prefix_moves = rng.generate_with(entropy, PRACTICE_FILLER_LENGTH);
        let suffix_moves = rng.generate_with(entropy, PRACTICE_FILLER_LENGTH);
        let mut text = OptimizedCube::moves_to_string(prefix_moves.as_slice());
        let suffix = OptimizedCube::moves_to_string(suffix_moves.as_slice());
        proof {
            reveal_strlit(" ");
        }
        text.append(" ");
        text.append(pattern.as_str());
        text.append(" ");
        text.append(suffix.as_str());
        proof {
            assert(text@ =~= practice_text(prefix_moves@, pattern@, suffix_moves@));
        }
        text
    }
}

} // verus!
