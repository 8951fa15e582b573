//! Move identifiers: the eighteen face moves, their numeric codes and their
//! tokens in move notation.

use vstd::prelude::*;

verus! {

/// One of the eighteen moves. The first six are clockwise quarter turns of the
/// faces U, D, F, B, R, L; the next six (`p` for prime) are the
/// counter-clockwise quarter turns of the same faces; the last six are the half
/// turns.
#[derive(Debug, Clone, Copy, PartialEq, Eq, Structural)]
pub enum MoveCode {
    U,
    D,
    F,
    B,
    R,
    L,
    Up,
    Dp,
    Fp,
    Bp,
    Rp,
    Lp,
    U2,
    D2,
    F2,
    B2,
    R2,
    L2,
}

/// The face that the move with numeric code `code` turns: 0 to 5 for
/// U, D, F, B, R, L.
pub open spec fn code_face(code: u8) -> int {
    code as int % 6
}

/// The number of clockwise quarter turns that the move with numeric code
/// `code` stands for: one for a clockwise move, three for a counter-clockwise
/// move, two for a half turn.
pub open spec fn code_quarter_turns(code: u8) -> nat {
    if code < 6 {
        1
    } else if code < 12 {
        3
    } else {
        2
    }
}

/// The letter that names a face in move notation.
pub open spec fn face_letter(face: int) -> char {
    if face == 0 {
        'U'
    } else if face == 1 {
        'D'
    } else if face == 2 {
        'F'
    } else if face == 3 {
        'B'
    } else if face == 4 {
        'R'
    } else {
        'L'
    }
}

/// The face that a letter names, if it names one. Only the six capital
/// letters do.
pub open spec fn letter_face(c: char) -> Option<u8> {
    if c == 'U' {
        Some(0u8)
    } else if c == 'D' {
        Some(1u8)
    } else if c == 'F' {
        Some(2u8)
    } else if c == 'B' {
        Some(3u8)
    } else if c == 'R' {
        Some(4u8)
    } else if c == 'L' {
        Some(5u8)
    } else {
        None
    }
}

/// The canonical token of the move with numeric code `code`: the face's
/// letter, followed by `'` for a counter-clockwise move or by `2` for a half
/// turn.
pub open spec fn code_token(code: u8) -> Seq<char> {
    let letter = face_letter(code_face(code));
    if code < 6 {
        seq![letter]
    } else if code < 12 {
        seq![letter, '\'']
    } else {
        seq![letter, '2']
    }
}

/// The move that a token denotes, if it denotes one: a face letter alone, or a
/// face letter and one of the suffixes `'` and `2`.
pub open spec fn parse_token(t: Seq<char>) -> Option<MoveCode> {
    if 1 <= t.len() <= 2 && letter_face(t[0]) is Some {
        let face = letter_face(t[0]).unwrap();
        if t.len() == 1 {
            Some(MoveCode::of_code(face))
        } else if t[1] == '\'' {
            Some(MoveCode::of_code((face + 6) as u8))
        } else if t[1] == '2' {
            Some(MoveCode::of_code((face + 12) as u8))
        } else {
            None
        }
    } else {
        None
    }
}

/// The character of a decimal digit.
pub open spec fn digit_char(d: int) -> char {
    if d == 0 {
        '0'
    } else if d == 1 {
        '1'
    } else if d == 2 {
        '2'
    } else if d == 3 {
        '3'
    } else if d == 4 {
        '4'
    } else if d == 5 {
        '5'
    } else if d == 6 {
        '6'
    } else if d == 7 {
        '7'
    } else if d == 8 {
        '8'
    } else {
        '9'
    }
}

/// A number written in decimal, without leading zeros.
pub open spec fn decimal(n: nat) -> Seq<char>
    decreases n,
{
    if n < 10 {
        seq![digit_char(n as int)]
    } else {
        decimal(n / 10).push(digit_char((n % 10) as int))
    }
}

/// The message that reports a token that denotes no move.
pub open spec fn invalid_move_message(token: Seq<char>) -> Seq<char> {
    "Invalid move: "@ + token
}

/// The message that reports a numeric code outside `0..=17`.
pub open spec fn invalid_code_message(code: u8) -> Seq<char> {
    "Invalid move code: "@ + decimal(code as nat)
}

impl MoveCode {
    /// The numeric code of the move, in `0..=17`: the face, plus 6 for a
    /// counter-clockwise move, plus 12 for a half turn.
    pub open spec fn spec_code(&self) -> u8 {
        match self {
            MoveCode::U => 0,
            MoveCode::D => 1,
            MoveCode::F => 2,
            MoveCode::B => 3,
            MoveCode::R => 4,
            MoveCode::L => 5,
            MoveCode::Up => 6,
            MoveCode::Dp => 7,
            MoveCode::Fp => 8,
            MoveCode::Bp => 9,
            MoveCode::Rp => 10,
            MoveCode::Lp => 11,
            MoveCode::U2 => 12,
            MoveCode::D2 => 13,
            MoveCode::F2 => 14,
            MoveCode::B2 => 15,
            MoveCode::R2 => 16,
            MoveCode::L2 => 17,
        }
    }

    /// The move with numeric code `code`, for `code` in `0..=17`.
    pub open spec fn of_code(code: u8) -> MoveCode {
        if code == 0 {
            MoveCode::U
        } else if code == 1 {
            MoveCode::D
        } else if code == 2 {
            MoveCode::F
        } else if code == 3 {
            MoveCode::B
        } else if code == 4 {
            MoveCode::R
        } else if code == 5 {
            MoveCode::L
        } else if code == 6 {
            MoveCode::Up
        } else if code == 7 {
            MoveCode::Dp
        } else if code == 8 {
            MoveCode::Fp
        } else if code == 9 {
            MoveCode::Bp
        } else if code == 10 {
            MoveCode::Rp
        } else if code == 11 {
            MoveCode::Lp
        } else if code == 12 {
            MoveCode::U2
        } else if code == 13 {
            MoveCode::D2
        } else if code == 14 {
            MoveCode::F2
        } else if code == 15 {
            MoveCode::B2
        } else if code == 16 {
            MoveCode::R2
        } else {
            MoveCode::L2
        }
    }

    /// The face that the move turns.
    pub open spec fn face(&self) -> int {
        code_face(self.spec_code())
    }

    /// The number of clockwise quarter turns that the move stands for.
    pub open spec fn quarter_turns(&self) -> nat {
        code_quarter_turns(self.spec_code())
    }

    /// The move that undoes this one: the opposite quarter turn of the same
    /// face, or the same half turn.
    pub open spec fn inverse(&self) -> MoveCode {
        let code = self.spec_code();
        if code < 6 {
            MoveCode::of_code((code + 6) as u8)
        } else if code < 12 {
            MoveCode::of_code((code - 6) as u8)
        } else {
            *self
        }
    }

    /// The canonical token of the move.
    pub open spec fn token(&self) -> Seq<char> {
        code_token(self.spec_code())
    }

    /// Parses a move token. Exactly the eighteen canonical tokens are
    /// accepted: `U D F B R L`, each alone or followed by `'` or by `2`. Any
    /// other text is reported with a message that quotes it.
    pub fn from_str(move_str: &str) -> (result: Result<Self, String>)
        ensures
            match result {
                Ok(m) => parse_token(move_str@) == Some(m),
                Err(e) => parse_token(move_str@) is None && e@ == invalid_move_message(
                    move_str@,
                ),
            },
    {
        let mut chars = move_str.chars();
        let first = chars.next();
        let second = chars.next();
        let third = chars.next();
        match move_of_parts(first, second, third, Ghost(move_str@)) {
            Some(m) => Ok(m),
            None => Err(invalid_move_error(move_str)),
        }
    }

    /// The move with numeric code `code`. Codes above 17 are reported with a
    /// message that quotes the code.
    pub fn from_u8(code: u8) -> (result: Result<Self, String>)
        ensures
            match result {
                Ok(m) => code <= 17 && m == MoveCode::of_code(code) && m.spec_code() == code,
                Err(e) => code > 17 && e@ == invalid_code_message(code),
            },
    {
        if code <= 17 {
            Ok(move_of_code(code))
        } else {
            let mut message = String::from_str("Invalid move code: ");
            append_decimal(&mut message, code);
            Err(message)
        }
    }

    /// The canonical token of the move, as text.
    pub fn as_str(&self) -> (text: &'static str)
        ensures
            text@ == self.token(),
    {
        proof {
            reveal_strlit("U");
            reveal_strlit("D");
            reveal_strlit("F");
            reveal_strlit("B");
            reveal_strlit("R");
            reveal_strlit("L");
            reveal_strlit("U'");
            reveal_strlit("D'");
            reveal_strlit("F'");
            reveal_strlit("B'");
            reveal_strlit("R'");
            reveal_strlit("L'");
            reveal_strlit("U2");
            reveal_strlit("D2");
            reveal_strlit("F2");
            reveal_strlit("B2");
            reveal_strlit("R2");
            reveal_strlit("L2");
        }
        let text = match self {
            MoveCode::U => "U",
            MoveCode::D => "D",
            MoveCode::F => "F",
            MoveCode::B => "B",
            MoveCode::R => "R",
            MoveCode::L => "L",
            MoveCode::Up => "U'",
            MoveCode::Dp => "D'",
            MoveCode::Fp => "F'",
            MoveCode::Bp => "B'",
            MoveCode::Rp => "R'",
            MoveCode::Lp => "L'",
            MoveCode::U2 => "U2",
            MoveCode::D2 => "D2",
            MoveCode::F2 => "F2",
            MoveCode::B2 => "B2",
            MoveCode::R2 => "R2",
            MoveCode::L2 => "L2",
        };
        assert(text@ =~= self.token());
        text
    }

    /// The numeric code of the move.
    #[verifier::when_used_as_spec(spec_code)]
    pub fn code(&self) -> (code: u8)
        ensures
            code == self.spec_code(),
            code <= 17,
    {
        match self {
            MoveCode::U => 0,
            MoveCode::D => 1,
            MoveCode::F => 2,
            MoveCode::B => 3,
            MoveCode::R => 4,
            MoveCode::L => 5,
            MoveCode::Up => 6,
            MoveCode::Dp => 7,
            MoveCode::Fp => 8,
            MoveCode::Bp => 9,
            MoveCode::Rp => 10,
            MoveCode::Lp => 11,
            MoveCode::U2 => 12,
            MoveCode::D2 => 13,
            MoveCode::F2 => 14,
            MoveCode::B2 => 15,
            MoveCode::R2 => 16,
            MoveCode::L2 => 17,
        }
    }
}

/// The eighteen moves and the numeric codes 0 to 17 correspond one to one.
pub proof fn lemma_codes_and_moves_correspond(code: u8, m: MoveCode)
    ensures
        m.spec_code() <= 17,
        MoveCode::of_code(m.spec_code()) == m,
        code <= 17 ==> MoveCode::of_code(code).spec_code() == code,
{
}

/// Character `i` of a text, if the text is that long.
pub open spec fn char_at(t: Seq<char>, i: int) -> Option<char> {
    if 0 <= i < t.len() {
        Some(t[i])
    } else {
        None
    }
}

/// The move that a token denotes, from the token's first three characters as
/// far as it has them.
pub(crate) fn move_of_parts(
    first: Option<char>,
    second: Option<char>,
    third: Option<char>,
    Ghost(t): Ghost<Seq<char>>,
) -> (m: Option<MoveCode>)
    requires
        first == char_at(t, 0),
        second == char_at(t, 1),
        third == char_at(t, 2),
    ensures
        m == parse_token(t),
{
    match (first, second, third) {
        (Some(letter), None, _) => match face_of_letter(letter) {
            Some(face) => Some(move_of_code(face)),
            None => None,
        },
        (Some(letter), Some(suffix), None) => match face_of_letter(letter) {
            Some(face) => if suffix == '\'' {
                Some(move_of_code(face + 6))
            } else if suffix == '2' {
                Some(move_of_code(face + 12))
            } else {
                None
            },
            None => None,
        },
        _ => None,
    }
}

/// The message that reports `token` as denoting no move.
pub(crate) fn invalid_move_error(token: &str) -> (message: String)
    ensures
        message@ == invalid_move_message(token@),
{
    let mut message = String::from_str("Invalid move: ");
    message.append(token);
    message
}

/// The face that a letter names.
fn face_of_letter(c: char) -> (face: Option<u8>)
    ensures
        face == letter_face(c),
{
    if c == 'U' {
        Some(0)
    } else if c == 'D' {
        Some(1)
    } else if c == 'F' {
        Some(2)
    } else if c == 'B' {
        Some(3)
    } else if c == 'R' {
        Some(4)
    } else if c == 'L' {
        Some(5)
    } else {
        None
    }
}

/// The move with a numeric code in `0..=17`.
fn move_of_code(code: u8) -> (m: MoveCode)
    requires
        code <= 17,
    ensures
        m == MoveCode::of_code(code),
        m.spec_code() == code,
{
    match code {
        0 => MoveCode::U,
        1 => MoveCode::D,
        2 => MoveCode::F,
        3 => MoveCode::B,
        4 => MoveCode::R,
        5 => MoveCode::L,
        6 => MoveCode::Up,
        7 => MoveCode::Dp,
        8 => MoveCode::Fp,
        9 => MoveCode::Bp,
        10 => MoveCode::Rp,
        11 => MoveCode::Lp,
        12 => MoveCode::U2,
        13 => MoveCode::D2,
        14 => MoveCode::F2,
        15 => MoveCode::B2,
        16 => MoveCode::R2,
        _ => MoveCode::L2,
    }
}

/// One decimal digit as text.
fn digit_str(d: u8) -> (text: &'static str)
    requires
        d < 10,
    ensures
        text@ == seq![digit_char(d as int)],
{
    proof {
        reveal_strlit("0");
        reveal_strlit("1");
        reveal_strlit("2");
        reveal_strlit("3");
        reveal_strlit("4");
        reveal_strlit("5");
        reveal_strlit("6");
        reveal_strlit("7");
        reveal_strlit("8");
        reveal_strlit("9");
    }
    let text = match d {
        0 => "0",
        1 => "1",
        2 => "2",
        3 => "3",
        4 => "4",
        5 => "5",
        6 => "6",
        7 => "7",
        8 => "8",
        _ => "9",
    };
    assert(text@ =~= seq![digit_char(d as int)]);
    text
}

/// Appends a number in decimal to a text.
fn append_decimal(text: &mut String, n: u8)
    ensures
        final(text)@ == old(text)@ + decimal(n as nat),
{
    proof {
        reveal_with_fuel(decimal, 3);
    }
    if n >= 100 {
        text.append(digit_str(n / 100));
    }
    if n >= 10 {
        text.append(digit_str((n / 10) % 10));
    }
    text.append(digit_str(n % 10));
    assert(text@ =~= old(text)@ + decimal(n as nat));
}

/// A token denotes a move exactly when it is that move's canonical token.
pub proof fn lemma_parse_token_is_exact_match(t: Seq<char>, m: MoveCode)
    ensures
        parse_token(t) == Some(m) <==> t == m.token(),
{
    if parse_token(t) == Some(m) {
        assert(t =~= m.token());
    }
    if t == m.token() {
        assert(parse_token(m.token()) == Some(m));
    }
}

} // verus!
