//! Scrambles: the ordering rule for move sequences, its validator, and the
//! generator that builds sequences obeying it.
//!
//! The rule: no two consecutive moves turn the same face, and no three
//! consecutive moves turn faces of one axis.

use vstd::prelude::*;
use crate::move_code::code_face;
use crate::optimized_cube::OptimizedCube;

verus! {

/// How many candidates the generator draws at most for one scramble.
pub const MAX_ATTEMPTS: usize = 1000;

/// The counter value that stands in for a seed of zero.
pub const DEFAULT_SEED: u64 = 12345;

/// Multiplier of the linear congruential step.
pub const LCG_MULTIPLIER: u64 = 1103515245;

/// Increment of the linear congruential step.
pub const LCG_INCREMENT: u64 = 12345;

/// Length of a competition scramble.
pub const COMPETITION_LENGTH: usize = 20;

/// Length of a practice scramble.
pub const PRACTICE_LENGTH: usize = 15;

/// Length of a long scramble.
pub const LONG_LENGTH: usize = 25;

/// The axis of a face: 0 for U and D, 1 for F and B, 2 for R and L, and 255
/// for a number that is no face.
pub open spec fn face_axis(face: u8) -> u8 {
    if face < 6 {
        face / 2
    } else {
        255
    }
}

/// The axis of the face that the move with numeric code `code` turns.
pub open spec fn code_axis(code: u8) -> u8 {
    face_axis(code_face(code) as u8)
}

/// Whether `code` may follow in a sequence whose last move is `previous` and
/// whose last move but one is `before_previous`: it is a numeric code, it does
/// not turn the face that `previous` turns, and it is not the third move in a
/// row on one axis.
pub open spec fn is_valid_next(
    code: u8,
    previous: Option<u8>,
    before_previous: Option<u8>,
) -> bool {
    &&& code <= 17
    &&& previous matches Some(p) ==> {
        &&& code_face(code) != code_face(p)
        &&& before_previous matches Some(b) ==> !(code_axis(p) == code_axis(b) && code_axis(code)
            == code_axis(p))
    }
}

/// The entry `back` places before position `i`, if there is one.
pub open spec fn entry_before(moves: Seq<u8>, i: int, back: int) -> Option<u8> {
    if 0 <= i - back < moves.len() {
        Some(moves[i - back])
    } else {
        None
    }
}

/// Whether the entry at position `i` may follow the entries before it.
pub open spec fn obeys_rule_at(moves: Seq<u8>, i: int) -> bool {
    is_valid_next(moves[i], entry_before(moves, i, 1), entry_before(moves, i, 2))
}

/// Whether a sequence is a valid scramble: every entry may follow the entries
/// before it, as if the sequence had been built from left to right.
pub open spec fn is_valid_scramble(moves: Seq<u8>) -> bool {
    forall|i: int| 0 <= i < moves.len() ==> #[trigger] obeys_rule_at(moves, i)
}

/// Whether every entry is a numeric code of a move.
pub open spec fn all_codes(moves: Seq<u8>) -> bool {
    forall|i: int| 0 <= i < moves.len() ==> #[trigger] moves[i] <= 17
}

/// Whether no two adjacent entries turn the same face.
pub open spec fn no_face_twice(moves: Seq<u8>) -> bool {
    forall|i: int| 0 < i < moves.len() ==> code_face(#[trigger] moves[i]) != code_face(moves[i - 1])
}

/// Whether no three adjacent entries turn faces of one axis.
pub open spec fn no_axis_thrice(moves: Seq<u8>) -> bool {
    forall|i: int|
        1 < i < moves.len() ==> !(code_axis(#[trigger] moves[i]) == code_axis(moves[i - 1])
            && code_axis(moves[i - 1]) == code_axis(moves[i - 2]))
}

/// The counter after one linear congruential step, in 64-bit wrapping
/// arithmetic.
pub open spec fn lcg_next(counter: u64) -> u64 {
    counter.wrapping_mul(LCG_MULTIPLIER).wrapping_add(LCG_INCREMENT)
}

/// The candidate move that a counter value yields.
pub open spec fn candidate(counter: u64) -> u8 {
    ((counter >> 16) % 18) as u8
}

/// The counter that a generator starts from when it is seeded with `entropy`.
pub open spec fn seed_of(entropy: u64) -> u64 {
    if entropy == 0 {
        DEFAULT_SEED
    } else {
        entropy
    }
}

/// The sequence with the candidate added if it may follow, and the sequence
/// itself if not.
pub open spec fn with_candidate(moves: Seq<u8>, code: u8) -> Seq<u8> {
    if is_valid_next(
        code,
        entry_before(moves, moves.len() as int, 1),
        entry_before(moves, moves.len() as int, 2),
    ) {
        moves.push(code)
    } else {
        moves
    }
}

/// Rejection sampling, from the point where `attempts` candidates have been
/// drawn and `moves` have been accepted: draw candidates until the sequence has
/// `length` entries or 1000 candidates have been drawn in all. The result is the
/// counter and the sequence at the end.
pub open spec fn generate_steps(counter: u64, moves: Seq<u8>, length: nat, attempts: nat) -> (
    u64,
    Seq<u8>,
)
    decreases MAX_ATTEMPTS - attempts,
{
    if moves.len() < length && attempts < MAX_ATTEMPTS {
        let next = lcg_next(counter);
        generate_steps(next, with_candidate(moves, candidate(next)), length, attempts + 1)
    } else {
        (counter, moves)
    }
}

/// The counter and the scramble that a generator at `counter` arrives at when
/// asked for `length` moves.
pub open spec fn generated(counter: u64, length: nat) -> (u64, Seq<u8>) {
    generate_steps(counter, Seq::empty(), length, 0)
}

/// A sequence of numeric codes is a valid scramble exactly when no two
/// adjacent entries share a face and no three adjacent entries share an axis.
pub proof fn lemma_valid_scramble_characterised(moves: Seq<u8>)
    requires
        all_codes(moves),
    ensures
        is_valid_scramble(moves) <==> no_face_twice(moves) && no_axis_thrice(moves),
{
    if is_valid_scramble(moves) {
        assert forall|i: int| 0 < i < moves.len() implies code_face(#[trigger] moves[i])
            != code_face(moves[i - 1]) by {
            assert(obeys_rule_at(moves, i));
        }
        assert forall|i: int| 1 < i < moves.len() implies !(code_axis(#[trigger] moves[i])
            == code_axis(moves[i - 1]) && code_axis(moves[i - 1]) == code_axis(moves[i - 2])) by {
            assert(obeys_rule_at(moves, i));
        }
    }
    if no_face_twice(moves) && no_axis_thrice(moves) {
        assert forall|i: int| 0 <= i < moves.len() implies #[trigger] obeys_rule_at(moves, i) by {
            assert(moves[i] <= 17);
        }
    }
}

/// A valid scramble holds numeric codes only.
pub proof fn lemma_valid_scramble_holds_codes(moves: Seq<u8>)
    requires
        is_valid_scramble(moves),
    ensures
        all_codes(moves),
{
    assert forall|i: int| 0 <= i < moves.len() implies #[trigger] moves[i] <= 17 by {
        assert(obeys_rule_at(moves, i));
    }
}

/// Adding a candidate to a valid scramble, where it may follow, leaves a valid
/// scramble that is longer by one entry at most.
pub proof fn lemma_with_candidate_is_valid(moves: Seq<u8>, code: u8)
    requires
        is_valid_scramble(moves),
    ensures
        is_valid_scramble(with_candidate(moves, code)),
        moves.len() <= with_candidate(moves, code).len() <= moves.len() + 1,
{
    let after = with_candidate(moves, code);
    assert forall|i: int| 0 <= i < after.len() implies #[trigger] obeys_rule_at(after, i) by {
        if i < moves.len() {
            assert(obeys_rule_at(moves, i));
        }
    }
}

/// Rejection sampling that starts from a valid scramble of at most `length`
/// entries ends with one.
pub proof fn lemma_generate_steps_valid(counter: u64, moves: Seq<u8>, length: nat, attempts: nat)
    requires
        is_valid_scramble(moves),
        moves.len() <= length,
    ensures
        is_valid_scramble(generate_steps(counter, moves, length, attempts).1),
        generate_steps(counter, moves, length, attempts).1.len() <= length,
    decreases MAX_ATTEMPTS - attempts,
{
    if moves.len() < length && attempts < MAX_ATTEMPTS {
        let next = lcg_next(counter);
        lemma_with_candidate_is_valid(moves, candidate(next));
        lemma_generate_steps_valid(
            next,
            with_candidate(moves, candidate(next)),
            length,
            attempts + 1,
        );
    }
}

/// Whatever the counter, a generated scramble has at most the requested
/// length, holds numeric codes only, and is a valid scramble.
pub proof fn lemma_generated_is_valid(counter: u64, length: nat)
    ensures
        generated(counter, length).1.len() <= length,
        all_codes(generated(counter, length).1),
        is_valid_scramble(generated(counter, length).1),
{
    assert(is_valid_scramble(Seq::<u8>::empty()));
    lemma_generate_steps_valid(counter, Seq::empty(), length, 0);
    lemma_valid_scramble_holds_codes(generated(counter, length).1);
}

/// The source of candidate moves for scrambles: a counter that a linear
/// congruential step advances. A generator is either not seeded yet or holds
/// its counter; it is seeded on first use and stays seeded.
#[derive(Debug)]
pub struct ScrambleRng {
    counter: u64,
    seeded: bool,
}

impl View for ScrambleRng {
    type V = Option<u64>;

    /// The counter, once the generator is seeded.
    closed spec fn view(&self) -> Option<u64> {
        if self.seeded {
            Some(self.counter)
        } else {
            None
        }
    }
}

/// The counter that a generator in state `state` works from when `entropy` is
/// at hand for seeding: its own if it is seeded, else the one made from
/// `entropy`.
pub open spec fn counter_after_seeding(state: Option<u64>, entropy: u64) -> u64 {
    match state {
        Some(counter) => counter,
        None => seed_of(entropy),
    }
}

/// The counter after one linear congruential step.
pub fn next_counter(counter: u64) -> (next: u64)
    ensures
        next == lcg_next(counter),
{
    counter.wrapping_mul(LCG_MULTIPLIER).wrapping_add(LCG_INCREMENT)
}

/// The candidate move that a counter value yields.
pub fn candidate_move(counter: u64) -> (code: u8)
    ensures
        code == candidate(counter),
        code <= 17,
{
    ((counter >> 16) % 18) as u8
}

impl ScrambleRng {
    /// A generator that is not seeded yet.
    pub fn new() -> (rng: Self)
        ensures
            rng@ is None,
    {
        ScrambleRng { counter: 0, seeded: false }
    }

    /// A generator seeded with `seed`; a seed of zero is replaced by 12345.
    pub fn with_seed(seed: u64) -> (rng: Self)
        ensures
            rng@ == Some(seed_of(seed)),
    {
        let mut rng = ScrambleRng::new();
        rng.seed_once(seed);
        rng
    }

    /// Whether the generator has been seeded.
    pub fn is_seeded(&self) -> (seeded: bool)
        ensures
            seeded == (self@ is Some),
    {
        self.seeded
    }

    /// Seeds the generator with `entropy` if it is not seeded yet, and leaves
    /// it as it is otherwise.
    pub fn seed_once(&mut self, entropy: u64)
        ensures
            final(self)@ == Some(counter_after_seeding(old(self)@, entropy)),
    {
        if !self.seeded {
            self.counter = if entropy == 0 {
                DEFAULT_SEED
            } else {
                entropy
            };
            self.seeded = true;
        }
    }

    /// Generates a scramble of `length` moves, seeding the generator with
    /// `entropy` first if it is not seeded yet. Candidates are drawn from the
    /// counter and kept where they may follow what has been kept so far; after
    /// 1000 candidates the scramble is returned as far as it has come.
    pub fn generate_with(&mut self, entropy: u64, length: usize) -> (moves: Vec<u8>)
        ensures
            (final(self)@, moves@) == (
                Some(generated(counter_after_seeding(old(self)@, entropy), length as nat).0),
                generated(counter_after_seeding(old(self)@, entropy), length as nat).1,
            ),
            moves.len() <= length,
            all_codes(moves@),
            is_valid_scramble(moves@),
    {
        self.seed_once(entropy);
        let ghost start = self.counter;
        let mut counter = self.counter;
        let mut moves: Vec<u8> = Vec::new();
        let mut attempts: usize = 0;
        while moves.len() < length && attempts < MAX_ATTEMPTS
            invariant
                attempts <= MAX_ATTEMPTS,
                generate_steps(counter, moves@, length as nat, attempts as nat) == generated(
                    start,
                    length as nat,
                ),
            decreases MAX_ATTEMPTS - attempts,
        {
            counter = next_counter(counter);
            let code = candidate_move(counter);
            let previous = if moves.len() > 0 {
                Some(moves[moves.len() - 1])
            } else {
                None
            };
            let before_previous = if moves.len() > 1 {
                Some(moves[moves.len() - 2])
            } else {
                None
            };
            if OptimizedCube::is_valid_move(code, previous, before_previous) {
                moves.push(code);
            }
            attempts += 1;
        }
        self.counter = counter;
        proof {
            lemma_generated_is_valid(start, length as nat);
        }
        moves
    }

    /// Generates a scramble of `length` moves. A generator that is not seeded
    /// yet is seeded from the system clock first.
    pub fn generate(&mut self, length: usize) -> (moves: Vec<u8>)
        ensures
            exists|entropy: u64|
                (final(self)@, moves@) == (
                    Some(
                        generated(
                            counter_after_seeding(old(self)@, entropy),
                            length as nat,
                        ).0,
                    ),
                    #[trigger] generated(
                        counter_after_seeding(old(self)@, entropy),
                        length as nat,
                    ).1,
                ),
            moves.len() <= length,
            all_codes(moves@),
            is_valid_scramble(moves@),
    {
        let entropy = if self.seeded {
            0
        } else {
            clock_entropy()
        };
        self.generate_with(entropy, length)
    }
}

/// Asks `std::time::SystemTime::elapsed` how long ago the Unix epoch was and
/// returns the answer in nanoseconds, cut to 64 bits, or zero when the system
/// clock stands before the epoch. The value differs from call to call and
/// nothing is claimed of it. On a platform without a system clock the call
/// panics: there, seed generators with `seed_once` or `generate_with`.
#[verifier::external_body]
pub(crate) fn clock_entropy() -> (nanos: u64) {
    match std::time::UNIX_EPOCH.elapsed() {
        Ok(elapsed) => elapsed.as_nanos() as u64,
        Err(_) => 0,
    }
}

impl OptimizedCube {
    /// The axis of a face: 0 for U and D, 1 for F and B, 2 for R and L, and
    /// 255 for a number that is no face.
    pub fn get_face_axis(face: u8) -> (axis: u8)
        ensures
            axis == face_axis(face),
    {
        match face {
            0 | 1 => 0,
            2 | 3 => 1,
            4 | 5 => 2,
            _ => 255,
        }
    }

    /// Whether `move_code` may follow in a sequence whose last move is
    /// `previous_move` and whose last move but one is `before_previous_move`.
    pub fn is_valid_move(
        move_code: u8,
        previous_move: Option<u8>,
        before_previous_move: Option<u8>,
    ) -> (valid: bool)
        ensures
            valid == is_valid_next(move_code, previous_move, before_previous_move),
    {
        if move_code > 17 {
            return false;
        }
        let current_face = move_code % 6;

        if let Some(prev_move) = previous_move {
            let previous_face = prev_move % 6;

            if current_face == previous_face {
                return false;
            }
            if let Some(before_prev_move) = before_previous_move {
                let before_previous_face = before_prev_move % 6;
                let current_axis = Self::get_face_axis(current_face);
                let previous_axis = Self::get_face_axis(previous_face);
                let before_previous_axis = Self::get_face_axis(before_previous_face);

                if previous_axis == before_previous_axis && current_axis == previous_axis {
                    return false;
                }
            }
        }
        true
    }

    /// Whether a sequence is a valid scramble.
    pub fn validate_scramble(moves: &[u8]) -> (valid: bool)
        ensures
            valid == is_valid_scramble(moves@),
    {
        let n = moves.len();
        let mut i: usize = 0;
        while i < n
            invariant
                n == moves.len(),
                i <= n,
                forall|j: int| 0 <= j < i ==> #[trigger] obeys_rule_at(moves@, j),
            decreases n - i,
        {
            let current_move = moves[i];
            let previous_move = if i > 0 {
                Some(moves[i - 1])
            } else {
                None
            };
            let before_previous_move = if i > 1 {
                Some(moves[i - 2])
            } else {
                None
            };
            if !Self::is_valid_move(current_move, previous_move, before_previous_move) {
                assert(!obeys_rule_at(moves@, i as int));
                return false;
            }
            i += 1;
        }
        true
    }

    /// Generates a scramble of `length` moves from a generator of its own,
    /// seeded from the system clock.
    pub fn generate_random_scramble(length: usize) -> (moves: Vec<u8>)
        ensures
            exists|entropy: u64| moves@ == #[trigger] generated(seed_of(entropy), length as nat).1,
            moves.len() <= length,
            all_codes(moves@),
            is_valid_scramble(moves@),
    {
        let mut rng = ScrambleRng::new();
        rng.generate(length)
    }

    /// Generates a competition scramble: 20 moves.
    pub fn generate_competition_scramble() -> (moves: Vec<u8>)
        ensures
            exists|entropy: u64| moves@ == #[trigger] generated(seed_of(entropy), 20).1,
            moves.len() <= 20,
            all_codes(moves@),
            is_valid_scramble(moves@),
    {
        Self::generate_random_scramble(COMPETITION_LENGTH)
    }

    /// Generates a practice scramble: 15 moves.
    pub fn generate_practice_scramble() -> (moves: Vec<u8>)
        ensures
            exists|entropy: u64| moves@ == #[trigger] generated(seed_of(entropy), 15).1,
            moves.len() <= 15,
            all_codes(moves@),
            is_valid_scramble(moves@),
    {
        Self::generate_random_scramble(PRACTICE_LENGTH)
    }

    /// Generates a long scramble: 25 moves.
    pub fn generate_long_scramble() -> (moves: Vec<u8>)
        ensures
            exists|entropy: u64| moves@ == #[trigger] generated(seed_of(entropy), 25).1,
            moves.len() <= 25,
            all_codes(moves@),
            is_valid_scramble(moves@),
    {
        Self::generate_random_scramble(LONG_LENGTH)
    }
}

} // verus!
