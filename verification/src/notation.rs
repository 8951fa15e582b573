//! Scramble text: move tokens separated by whitespace.
//!
//! A text is cut into tokens at whitespace; runs of whitespace count as one
//! separator and whitespace at either end is ignored. A sequence of numeric
//! codes is written as the tokens of its moves, joined by single spaces.

use vstd::prelude::*;
use crate::move_code::{
    invalid_move_error, invalid_move_message, lemma_parse_token_is_exact_match, move_of_parts,
    parse_token, MoveCode,
};
use crate::optimized_cube::OptimizedCube;
use crate::permutation::{moved, moved_all};

verus! {

/// Whether a character separates tokens: the characters with the Unicode
/// property `White_Space`.
pub open spec fn is_whitespace(c: char) -> bool {
    let u = c as u32;
    (0x09 <= u <= 0x0D) || u == 0x20 || u == 0x85 || u == 0xA0 || u == 0x1680 || (0x2000 <= u
        <= 0x200A) || u == 0x2028 || u == 0x2029 || u == 0x202F || u == 0x205F || u == 0x3000
}

/// Reads a text from left to right and cuts it at whitespace: the tokens that
/// have been closed by whitespace, and the token that is still open at the end
/// of the text (empty if the text ends in whitespace or is empty).
pub open spec fn scan(text: Seq<char>) -> (Seq<Seq<char>>, Seq<char>)
    decreases text.len(),
{
    if text.len() == 0 {
        (Seq::empty(), Seq::empty())
    } else {
        let (closed, open) = scan(text.drop_last());
        if is_whitespace(text.last()) {
            if open.len() > 0 {
                (closed.push(open), Seq::empty())
            } else {
                (closed, open)
            }
        } else {
            (closed, open.push(text.last()))
        }
    }
}

/// The tokens of a text: its maximal runs of characters that are not
/// whitespace, in order.
pub open spec fn split_whitespace(text: Seq<char>) -> Seq<Seq<char>> {
    let (closed, open) = scan(text);
    if open.len() > 0 {
        closed.push(open)
    } else {
        closed
    }
}

/// Whether a token is a word: it has a character and holds no whitespace.
pub open spec fn is_word(token: Seq<char>) -> bool {
    token.len() > 0 && forall|i: int| 0 <= i < token.len() ==> !is_whitespace(#[trigger] token[i])
}

/// The tokens joined by single spaces.
pub open spec fn join_tokens(tokens: Seq<Seq<char>>) -> Seq<char>
    decreases tokens.len(),
{
    if tokens.len() == 0 {
        Seq::empty()
    } else if tokens.len() == 1 {
        tokens[0]
    } else {
        join_tokens(tokens.drop_last()) + seq![' '] + tokens.last()
    }
}

/// Whether every token denotes a move.
pub open spec fn all_moves(tokens: Seq<Seq<char>>) -> bool {
    forall|j: int| 0 <= j < tokens.len() ==> (#[trigger] parse_token(tokens[j])) is Some
}

/// Whether token `k` is the first that denotes no move.
pub open spec fn is_first_invalid(tokens: Seq<Seq<char>>, k: int) -> bool {
    &&& 0 <= k < tokens.len()
    &&& parse_token(tokens[k]) is None
    &&& all_moves(tokens.take(k))
}

/// The moves that the tokens denote, in order. Meant for tokens that all
/// denote moves.
pub open spec fn token_moves(tokens: Seq<Seq<char>>) -> Seq<MoveCode> {
    Seq::new(tokens.len(), |j: int| parse_token(tokens[j]).unwrap())
}

/// The numeric codes that a text denotes, if every token of the text denotes
/// a move.
pub open spec fn parsed_codes(text: Seq<char>) -> Option<Seq<u8>> {
    let tokens = split_whitespace(text);
    if all_moves(tokens) {
        Some(move_codes(token_moves(tokens)))
    } else {
        None
    }
}

/// Whether entry `k` is the first that is no numeric code of a move.
pub open spec fn is_first_invalid_code(codes: Seq<u8>, k: int) -> bool {
    &&& 0 <= k < codes.len()
    &&& codes[k] > 17
    &&& forall|j: int| 0 <= j < k ==> #[trigger] codes[j] <= 17
}

/// The numeric codes of a sequence of moves.
pub open spec fn move_codes(moves: Seq<MoveCode>) -> Seq<u8> {
    Seq::new(moves.len(), |j: int| moves[j].spec_code())
}

/// The moves that a sequence of numeric codes denotes, in order; codes above
/// 17 denote nothing and are passed over.
pub open spec fn valid_moves(codes: Seq<u8>) -> Seq<MoveCode>
    decreases codes.len(),
{
    if codes.len() == 0 {
        Seq::empty()
    } else if codes.last() <= 17 {
        valid_moves(codes.drop_last()).push(MoveCode::of_code(codes.last()))
    } else {
        valid_moves(codes.drop_last())
    }
}

/// The tokens of a sequence of moves.
pub open spec fn move_tokens(moves: Seq<MoveCode>) -> Seq<Seq<char>> {
    Seq::new(moves.len(), |j: int| moves[j].token())
}

/// A sequence of numeric codes written as text: the tokens of the moves it
/// denotes, joined by single spaces.
pub open spec fn scramble_text(codes: Seq<u8>) -> Seq<char> {
    join_tokens(move_tokens(valid_moves(codes)))
}

/// Whether a character separates tokens.
pub fn is_whitespace_char(c: char) -> (b: bool)
    ensures
        b == is_whitespace(c),
{
    let u = c as u32;
    (0x09 <= u && u <= 0x0D) || u == 0x20 || u == 0x85 || u == 0xA0 || u == 0x1680 || (0x2000 <= u
        && u <= 0x200A) || u == 0x2028 || u == 0x2029 || u == 0x202F || u == 0x205F || u
        == 0x3000
}

/// Whether two texts are the same, character by character.
pub(crate) fn same_text(a: &str, b: &str) -> (same: bool)
    ensures
        same == (a@ == b@),
{
    let left = chars_of(a);
    let right = chars_of(b);
    if left.len() != right.len() {
        return false;
    }
    let mut i: usize = 0;
    while i < left.len()
        invariant
            left@ == a@,
            right@ == b@,
            left.len() == right.len(),
            i <= left.len(),
            forall|j: int| 0 <= j < i ==> left@[j] == right@[j],
        decreases left.len() - i,
    {
        if left[i] != right[i] {
            return false;
        }
        i += 1;
    }
    assert(left@ =~= right@);
    true
}

/// The characters of a text.
pub(crate) fn chars_of(text: &str) -> (chars: Vec<char>)
    ensures
        chars@ == text@,
{
    let mut chars: Vec<char> = Vec::new();
    for c in it: text.chars()
        invariant
            chars@ == it.seq().take(it.index() as int),
            it.seq() == text@,
    {
        chars.push(c);
    }
    chars
}

/// The pieces of `text` that the spans `(start, end)` cut out.
pub open spec fn span_tokens(text: Seq<char>, spans: Seq<(usize, usize)>) -> Seq<Seq<char>> {
    Seq::new(spans.len(), |j: int| text.subrange(spans[j].0 as int, spans[j].1 as int))
}

/// Where the tokens of a text begin and end: one span `(start, end)` for each
/// token, in order, with the token at positions `start..end`.
pub(crate) fn token_spans(chars: &Vec<char>) -> (spans: Vec<(usize, usize)>)
    ensures
        span_tokens(chars@, spans@) == split_whitespace(chars@),
        forall|j: int|
            0 <= j < spans.len() ==> (#[trigger] spans[j]).0 < spans[j].1 <= chars.len(),
{
    let n = chars.len();
    let mut spans: Vec<(usize, usize)> = Vec::new();
    let mut start: usize = 0;
    let mut i: usize = 0;
    while i < n
        invariant
            n == chars.len(),
            start <= i <= n,
            scan(chars@.take(i as int)).0 == span_tokens(chars@, spans@),
            scan(chars@.take(i as int)).1 == chars@.subrange(start as int, i as int),
            forall|j: int| 0 <= j < spans.len() ==> (#[trigger] spans[j]).0 < spans[j].1 <= i,
        decreases n - i,
    {
        let c = chars[i];
        proof {
            let before = chars@.take(i as int);
            let after = chars@.take(i + 1);
            assert(after.drop_last() =~= before);
            assert(after.last() == c);
            if is_whitespace(c) {
                if start < i {
                    assert(span_tokens(chars@, spans@.push((start, i))) =~= span_tokens(
                        chars@,
                        spans@,
                    ).push(chars@.subrange(start as int, i as int)));
                }
                assert(chars@.subrange(i + 1, i + 1) =~= Seq::<char>::empty());
            } else {
                assert(chars@.subrange(start as int, i as int).push(c) =~= chars@.subrange(
                    start as int,
                    i + 1,
                ));
            }
        }
        if is_whitespace_char(c) {
            if start < i {
                spans.push((start, i));
            }
            start = i + 1;
        }
        i += 1;
    }
    proof {
        assert(chars@.take(n as int) =~= chars@);
        if start < n {
            assert(span_tokens(chars@, spans@.push((start, n))) =~= span_tokens(
                chars@,
                spans@,
            ).push(chars@.subrange(start as int, n as int)));
        }
    }
    if start < n {
        spans.push((start, n));
    }
    spans
}

/// The move that the characters at `start..end` denote.
fn parse_span(chars: &Vec<char>, start: usize, end: usize) -> (m: Option<MoveCode>)
    requires
        start < end <= chars.len(),
    ensures
        m == parse_token(chars@.subrange(start as int, end as int)),
{
    let ghost token = chars@.subrange(start as int, end as int);
    let first = Some(chars[start]);
    let second = if end - start > 1 {
        Some(chars[start + 1])
    } else {
        None
    };
    let third = if end - start > 2 {
        Some(chars[start + 2])
    } else {
        None
    };
    move_of_parts(first, second, third, Ghost(token))
}

/// The moves of a longer run of tokens are those of the shorter run and the
/// move of the token that was added.
proof fn lemma_token_moves_step(tokens: Seq<Seq<char>>, j: int)
    requires
        0 <= j < tokens.len(),
    ensures
        token_moves(tokens.take(j + 1)).drop_last() == token_moves(tokens.take(j)),
        token_moves(tokens.take(j + 1)).last() == parse_token(tokens[j]).unwrap(),
        move_codes(token_moves(tokens.take(j + 1))) == move_codes(
            token_moves(tokens.take(j)),
        ).push(parse_token(tokens[j]).unwrap().spec_code()),
        all_moves(tokens.take(j)) && parse_token(tokens[j]) is Some ==> all_moves(
            tokens.take(j + 1),
        ),
{
    assert(token_moves(tokens.take(j + 1)).drop_last() =~= token_moves(tokens.take(j)));
    assert(move_codes(token_moves(tokens.take(j + 1))) =~= move_codes(
        token_moves(tokens.take(j)),
    ).push(parse_token(tokens[j]).unwrap().spec_code()));
    if all_moves(tokens.take(j)) && parse_token(tokens[j]) is Some {
        assert forall|i: int| 0 <= i < tokens.take(j + 1).len() implies (#[trigger] parse_token(
            tokens.take(j + 1)[i],
        )) is Some by {
            if i < j {
                assert(tokens.take(j)[i] == tokens[i]);
            }
        }
    }
}

impl OptimizedCube {
    /// Applies a batch of moves given by their numeric codes, in order. Codes
    /// above 17 denote no move and are passed over.
    pub fn apply_moves(&mut self, moves: &[u8])
        ensures
            final(self)@ == moved_all(old(self)@, valid_moves(moves@)),
    {
        let n = moves.len();
        let mut i: usize = 0;
        while i < n
            invariant
                n == moves.len(),
                i <= n,
                self@ == moved_all(old(self)@, valid_moves(moves@.take(i as int))),
            decreases n - i,
        {
            proof {
                assert(moves@.take(i + 1).drop_last() =~= moves@.take(i as int));
            }
            match MoveCode::from_u8(moves[i]) {
                Ok(move_code) => {
                    proof {
                        let before = valid_moves(moves@.take(i as int));
                        assert(valid_moves(moves@.take(i + 1)) == before.push(move_code));
                        assert(before.push(move_code).drop_last() =~= before);
                    }
                    self.apply_move_code(move_code);
                },
                Err(_) => {},
            }
            i += 1;
        }
        proof {
            assert(moves@.take(n as int) =~= moves@);
        }
    }

    /// Applies one move given by its token. A text that is no move token is
    /// reported and leaves the cube as it was.
    pub fn apply_move(&mut self, move_str: &str) -> (result: Result<(), String>)
        ensures
            match result {
                Ok(_) => parse_token(move_str@) is Some && final(self)@ == moved(
                    old(self)@,
                    parse_token(move_str@).unwrap(),
                ),
                Err(e) => parse_token(move_str@) is None && e@ == invalid_move_message(
                    move_str@,
                ) && final(self)@ == old(self)@,
            },
    {
        match MoveCode::from_str(move_str) {
            Ok(move_code) => {
                self.apply_move_code(move_code);
                Ok(())
            },
            Err(e) => Err(e),
        }
    }

    /// Applies the moves of a scramble text, token by token. The first token
    /// that is no move is reported; the moves before it have been applied by
    /// then, and nothing after it is.
    pub fn apply_scramble(&mut self, scramble: &str) -> (result: Result<(), String>)
        ensures
            match result {
                Ok(_) => all_moves(split_whitespace(scramble@)) && final(self)@ == moved_all(
                    old(self)@,
                    token_moves(split_whitespace(scramble@)),
                ),
                Err(e) => exists|k: int|
                    is_first_invalid(split_whitespace(scramble@), k) && e@
                        == invalid_move_message(split_whitespace(scramble@)[k]) && final(self)@
                        == moved_all(
                        old(self)@,
                        token_moves(split_whitespace(scramble@).take(k)),
                    ),
            },
    {
        let chars = chars_of(scramble);
        let spans = token_spans(&chars);
        let ghost tokens = split_whitespace(scramble@);
        let mut j: usize = 0;
        while j < spans.len()
            invariant
                chars@ == scramble@,
                tokens == split_whitespace(scramble@),
                span_tokens(chars@, spans@) == tokens,
                forall|i: int|
                    0 <= i < spans.len() ==> (#[trigger] spans[i]).0 < spans[i].1 <= chars.len(),
                j <= spans.len(),
                all_moves(tokens.take(j as int)),
                self@ == moved_all(old(self)@, token_moves(tokens.take(j as int))),
            decreases spans.len() - j,
        {
            let (start, end) = spans[j];
            proof {
                assert(tokens[j as int] == chars@.subrange(start as int, end as int));
                lemma_token_moves_step(tokens, j as int);
            }
            match parse_span(&chars, start, end) {
                Some(move_code) => {
                    self.apply_move_code(move_code);
                },
                None => {
                    let token = scramble.substring_char(start, end);
                    proof {
                        assert(is_first_invalid(tokens, j as int));
                    }
                    return Err(invalid_move_error(token));
                },
            }
            j += 1;
        }
        proof {
            assert(tokens.take(j as int) =~= tokens);
        }
        Ok(())
    }

    /// Reads a scramble text into the numeric codes of its moves. The first
    /// token that is no move is reported.
    pub fn parse_scramble(scramble: &str) -> (result: Result<Vec<u8>, String>)
        ensures
            match result {
                Ok(codes) => parsed_codes(scramble@) == Some(codes@),
                Err(e) => exists|k: int|
                    is_first_invalid(split_whitespace(scramble@), k) && e@
                        == invalid_move_message(split_whitespace(scramble@)[k]),
            },
    {
        let chars = chars_of(scramble);
        let spans = token_spans(&chars);
        let ghost tokens = split_whitespace(scramble@);
        let mut codes: Vec<u8> = Vec::new();
        let mut j: usize = 0;
        while j < spans.len()
            invariant
                chars@ == scramble@,
                tokens == split_whitespace(scramble@),
                span_tokens(chars@, spans@) == tokens,
                forall|i: int|
                    0 <= i < spans.len() ==> (#[trigger] spans[i]).0 < spans[i].1 <= chars.len(),
                j <= spans.len(),
                all_moves(tokens.take(j as int)),
                codes@ == move_codes(token_moves(tokens.take(j as int))),
            decreases spans.len() - j,
        {
            let (start, end) = spans[j];
            proof {
                assert(tokens[j as int] == chars@.subrange(start as int, end as int));
                lemma_token_moves_step(tokens, j as int);
            }
            match parse_span(&chars, start, end) {
                Some(move_code) => {
                    codes.push(move_code.code());
                },
                None => {
                    let token = scramble.substring_char(start, end);
                    proof {
                        assert(is_first_invalid(tokens, j as int));
                    }
                    return Err(invalid_move_error(token));
                },
            }
            j += 1;
        }
        proof {
            assert(tokens.take(j as int) =~= tokens);
        }
        Ok(codes)
    }

    /// Writes a sequence of numeric codes as scramble text: the tokens of the
    /// moves, joined by single spaces. Codes above 17 denote no move and are
    /// passed over.
    pub fn moves_to_string(moves: &[u8]) -> (text: String)
        ensures
            text@ == scramble_text(moves@),
    {
        let n = moves.len();
        let mut text = String::new();
        let mut empty = true;
        let mut i: usize = 0;
        while i < n
            invariant
                n == moves.len(),
                i <= n,
                text@ == scramble_text(moves@.take(i as int)),
                empty == (valid_moves(moves@.take(i as int)).len() == 0),
            decreases n - i,
        {
            proof {
                assert(moves@.take(i + 1).drop_last() =~= moves@.take(i as int));
            }
            match MoveCode::from_u8(moves[i]) {
                Ok(move_code) => {
                    proof {
                        reveal_strlit(" ");
                        let before = valid_moves(moves@.take(i as int));
                        let after = valid_moves(moves@.take(i + 1));
                        assert(after == before.push(move_code));
                        assert(move_tokens(after).drop_last() =~= move_tokens(before));
                        assert(move_tokens(after).last() == move_code.token());
                    }
                    if !empty {
                        text.append(" ");
                    }
                    text.append(move_code.as_str());
                    empty = false;
                    proof {
                        reveal_with_fuel(join_tokens, 2);
                        assert(text@ =~= scramble_text(moves@.take(i + 1)));
                    }
                },
                Err(_) => {},
            }
            i += 1;
        }
        proof {
            assert(moves@.take(n as int) =~= moves@);
        }
        text
    }
}

/// While a text is read, every closed token is a word and the open token
/// holds no whitespace.
pub proof fn lemma_scan_gives_words(text: Seq<char>)
    ensures
        forall|j: int| 0 <= j < scan(text).0.len() ==> is_word(#[trigger] scan(text).0[j]),
        forall|i: int| 0 <= i < scan(text).1.len() ==> !is_whitespace(#[trigger] scan(text).1[i]),
    decreases text.len(),
{
    if text.len() > 0 {
        let front = text.drop_last();
        lemma_scan_gives_words(front);
        let closed = scan(front).0;
        let open = scan(front).1;
        let c = text.last();
        if is_whitespace(c) {
            if open.len() > 0 {
                assert(is_word(open)) by {
                    assert forall|i: int| 0 <= i < open.len() implies !is_whitespace(
                        #[trigger] open[i],
                    ) by {
                        assert(!is_whitespace(scan(front).1[i]));
                    }
                }
                assert forall|j: int| 0 <= j < scan(text).0.len() implies is_word(
                    #[trigger] scan(text).0[j],
                ) by {
                    if j < closed.len() {
                        assert(scan(text).0[j] == scan(front).0[j]);
                    } else {
                        assert(scan(text).0[j] == open);
                    }
                }
            }
        } else {
            assert forall|i: int| 0 <= i < scan(text).1.len() implies !is_whitespace(
                #[trigger] scan(text).1[i],
            ) by {
                if i < open.len() {
                    assert(scan(text).1[i] == scan(front).1[i]);
                }
            }
        }
    }
}

/// The tokens of a text are words: none is empty and none holds whitespace.
pub proof fn lemma_tokens_are_words(text: Seq<char>)
    ensures
        forall|j: int|
            0 <= j < split_whitespace(text).len() ==> is_word(#[trigger] split_whitespace(text)[j]),
{
    lemma_scan_gives_words(text);
}

/// Reading on through characters that are no whitespace lengthens the open
/// token and closes none.
pub proof fn lemma_scan_word(text: Seq<char>, word: Seq<char>)
    requires
        forall|i: int| 0 <= i < word.len() ==> !is_whitespace(#[trigger] word[i]),
    ensures
        scan(text + word) == (scan(text).0, scan(text).1 + word),
    decreases word.len(),
{
    if word.len() == 0 {
        assert(text + word =~= text);
        assert(scan(text).1 + word =~= scan(text).1);
    } else {
        let shorter = word.drop_last();
        lemma_scan_word(text, shorter);
        assert((text + word).drop_last() =~= text + shorter);
        assert((text + word).last() == word.last());
        assert(!is_whitespace(word[word.len() - 1]));
        assert((scan(text).1 + shorter).push(word.last()) =~= scan(text).1 + word);
    }
}

/// Reading a space closes the open token.
pub proof fn lemma_scan_space(text: Seq<char>)
    requires
        scan(text).1.len() > 0,
    ensures
        scan(text + seq![' ']) == (scan(text).0.push(scan(text).1), Seq::<char>::empty()),
{
    assert((text + seq![' ']).drop_last() =~= text);
    assert((text + seq![' ']).last() == ' ');
}

/// Reading words joined by single spaces leaves the last word open and has
/// closed the words before it.
pub proof fn lemma_scan_joined(words: Seq<Seq<char>>)
    requires
        words.len() > 0,
        forall|j: int| 0 <= j < words.len() ==> is_word(#[trigger] words[j]),
    ensures
        scan(join_tokens(words)) == (words.drop_last(), words.last()),
    decreases words.len(),
{
    if words.len() == 1 {
        let empty = Seq::<char>::empty();
        lemma_scan_word(empty, words[0]);
        assert(empty + words[0] =~= words[0]);
        assert(words.drop_last() =~= Seq::<Seq<char>>::empty());
    } else {
        let front = words.drop_last();
        assert forall|j: int| 0 <= j < front.len() implies is_word(#[trigger] front[j]) by {
            assert(front[j] == words[j]);
        }
        lemma_scan_joined(front);
        let text = join_tokens(front);
        lemma_scan_space(text);
        lemma_scan_word(text + seq![' '], words.last());
        assert(front.drop_last().push(front.last()) =~= front);
        assert(Seq::<char>::empty() + words.last() =~= words.last());
    }
}

/// Cutting a text of words joined by single spaces gives back the words.
pub proof fn lemma_split_of_joined(words: Seq<Seq<char>>)
    requires
        forall|j: int| 0 <= j < words.len() ==> is_word(#[trigger] words[j]),
    ensures
        split_whitespace(join_tokens(words)) == words,
{
    if words.len() == 0 {
        assert(split_whitespace(join_tokens(words)) =~= words);
    } else {
        lemma_scan_joined(words);
        assert(words.drop_last().push(words.last()) =~= words);
    }
}

/// The token of a move is a word, and it denotes that move.
pub proof fn lemma_token_is_word(m: MoveCode)
    ensures
        is_word(m.token()),
        parse_token(m.token()) == Some(m),
{
}

/// Reading the codes of a sequence of moves gives back the moves.
pub proof fn lemma_moves_of_codes(moves: Seq<MoveCode>)
    ensures
        valid_moves(move_codes(moves)) == moves,
    decreases moves.len(),
{
    if moves.len() == 0 {
        assert(valid_moves(move_codes(moves)) =~= moves);
    } else {
        lemma_moves_of_codes(moves.drop_last());
        assert(move_codes(moves).drop_last() =~= move_codes(moves.drop_last()));
        assert(move_codes(moves).last() == moves.last().spec_code());
        assert(MoveCode::of_code(moves.last().spec_code()) == moves.last());
        assert(moves.drop_last().push(moves.last()) =~= moves);
    }
}

/// Where every entry is a numeric code, none is passed over: the moves that
/// the codes denote have those codes.
pub proof fn lemma_codes_of_moves(codes: Seq<u8>)
    requires
        forall|i: int| 0 <= i < codes.len() ==> #[trigger] codes[i] <= 17,
    ensures
        valid_moves(codes).len() == codes.len(),
        move_codes(valid_moves(codes)) == codes,
    decreases codes.len(),
{
    if codes.len() == 0 {
        assert(move_codes(valid_moves(codes)) =~= codes);
    } else {
        let front = codes.drop_last();
        assert forall|i: int| 0 <= i < front.len() implies #[trigger] front[i] <= 17 by {
            assert(front[i] == codes[i]);
        }
        lemma_codes_of_moves(front);
        assert(codes[codes.len() - 1] <= 17);
        assert(MoveCode::of_code(codes.last()).spec_code() == codes.last());
        assert(valid_moves(codes) == valid_moves(front).push(MoveCode::of_code(codes.last())));
        assert(move_codes(valid_moves(codes)) =~= move_codes(valid_moves(front)).push(
            codes.last(),
        ));
        assert(front.push(codes.last()) =~= codes);
    }
}

/// Token round trip: writing a sequence of numeric codes as text and reading
/// the text gives back the same codes.
pub proof fn lemma_text_round_trip(codes: Seq<u8>)
    requires
        forall|i: int| 0 <= i < codes.len() ==> #[trigger] codes[i] <= 17,
    ensures
        all_moves(split_whitespace(scramble_text(codes))),
        move_codes(token_moves(split_whitespace(scramble_text(codes)))) == codes,
{
    let moves = valid_moves(codes);
    let tokens = move_tokens(moves);
    assert forall|j: int| 0 <= j < tokens.len() implies is_word(#[trigger] tokens[j]) by {
        lemma_token_is_word(moves[j]);
    }
    lemma_split_of_joined(tokens);
    assert forall|j: int| 0 <= j < tokens.len() implies (#[trigger] parse_token(tokens[j]))
        == Some(moves[j]) by {
        lemma_token_is_word(moves[j]);
    }
    assert(token_moves(tokens) =~= moves);
    lemma_codes_of_moves(codes);
}

/// Reading a text of move tokens and writing the codes gives the text's
/// tokens joined by single spaces: the text with its spacing normalised.
pub proof fn lemma_text_is_normalised(text: Seq<char>)
    requires
        all_moves(split_whitespace(text)),
    ensures
        scramble_text(move_codes(token_moves(split_whitespace(text)))) == join_tokens(
            split_whitespace(text),
        ),
{
    let tokens = split_whitespace(text);
    let moves = token_moves(tokens);
    lemma_moves_of_codes(moves);
    assert forall|j: int| 0 <= j < tokens.len() implies moves[j].token() == tokens[j] by {
        assert(parse_token(tokens[j]) is Some);
        lemma_parse_token_is_exact_match(tokens[j], moves[j]);
    }
    assert(move_tokens(moves) =~= tokens);
}

/// Applying the codes of a scramble text as a batch leaves the state that
/// applying its tokens one at a time leaves.
pub proof fn lemma_batch_matches_tokens(s: Seq<u8>, text: Seq<char>)
    requires
        all_moves(split_whitespace(text)),
    ensures
        moved_all(s, valid_moves(move_codes(token_moves(split_whitespace(text))))) == moved_all(
            s,
            token_moves(split_whitespace(text)),
        ),
{
    lemma_moves_of_codes(token_moves(split_whitespace(text)));
}

/// Applying a list of codes as a batch leaves the state that applying the
/// tokens of the codes one at a time leaves.
pub proof fn lemma_batch_matches_tokens_of_codes(s: Seq<u8>, codes: Seq<u8>)
    requires
        forall|i: int| 0 <= i < codes.len() ==> #[trigger] codes[i] <= 17,
    ensures
        all_moves(move_tokens(valid_moves(codes))),
        moved_all(s, valid_moves(codes)) == moved_all(
            s,
            token_moves(move_tokens(valid_moves(codes))),
        ),
{
    let moves = valid_moves(codes);
    let tokens = move_tokens(moves);
    assert forall|j: int| 0 <= j < tokens.len() implies (#[trigger] parse_token(tokens[j]))
        == Some(moves[j]) by {
        lemma_token_is_word(moves[j]);
    }
    assert(token_moves(tokens) =~= moves);
}

} // verus!
