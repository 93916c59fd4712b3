//! The mathematical description of one scan step. The executable lexer
//! in `lexer` is proved to follow `lex_step` exactly; the laws in
//! `laws` are consequences of these definitions.

use vstd::prelude::*;

use crate::lexeme::LexemeModel;

verus! {

/// The whitespace the scanner skips before each token: space, tab,
/// newline, carriage return.
pub open spec fn is_whitespace_char(c: char) -> bool {
    c == ' ' || c == '\t' || c == '\n' || c == '\r'
}

/// The characters an identifier run is made of: ASCII letters and the
/// underscore.
pub open spec fn is_letter_char(c: char) -> bool {
    ||| 'a' as u32 <= c as u32 && c as u32 <= 'z' as u32
    ||| 'A' as u32 <= c as u32 && c as u32 <= 'Z' as u32
    ||| c == '_'
}

/// The decimal digits.
pub open spec fn is_digit_char(c: char) -> bool {
    '0' as u32 <= c as u32 && c as u32 <= '9' as u32
}

/// The numeric value of one decimal digit.
pub open spec fn digit_value(c: char) -> int {
    c as u32 - '0' as u32
}

/// The first offset at or after `i` that does not hold whitespace
/// (`s.len()` when only whitespace remains).
pub open spec fn whitespace_end(s: Seq<char>, i: nat) -> nat
    decreases s.len() - i,
{
    if i < s.len() && is_whitespace_char(s[i as int]) {
        whitespace_end(s, i + 1)
    } else {
        i
    }
}

/// The end of the maximal identifier run that starts at `i`.
pub open spec fn letter_end(s: Seq<char>, i: nat) -> nat
    decreases s.len() - i,
{
    if i < s.len() && is_letter_char(s[i as int]) {
        letter_end(s, i + 1)
    } else {
        i
    }
}

/// The end of the maximal digit run that starts at `i`.
pub open spec fn digit_end(s: Seq<char>, i: nat) -> nat
    decreases s.len() - i,
{
    if i < s.len() && is_digit_char(s[i as int]) {
        digit_end(s, i + 1)
    } else {
        i
    }
}

/// The integer a run of decimal digits denotes, most significant digit
/// first.
pub open spec fn digits_value(s: Seq<char>) -> int
    decreases s.len(),
{
    if s.len() == 0 {
        0
    } else {
        digits_value(s.drop_last()) * 10 + digit_value(s.last())
    }
}

/// The spelling of the reserved word `let`.
pub open spec fn spell_let() -> Seq<char> {
    seq!['l', 'e', 't']
}

/// The spelling of the boolean literal `true`.
pub open spec fn spell_true() -> Seq<char> {
    seq!['t', 'r', 'u', 'e']
}

/// The spelling of the boolean literal `false`.
pub open spec fn spell_false() -> Seq<char> {
    seq!['f', 'a', 'l', 's', 'e']
}

/// Classifies the token that starts at offset `i`, with whitespace
/// already skipped, and gives the offset of the first character after
/// it. At or past the end of input the token is `EndOfFile` at `i` and
/// the offset does not move, so the end of the stream repeats forever.
///
/// One character of lookahead joins `<=`, `>=` and `!=`; `=` is always
/// the single-character `Assign`, so `==` scans as two of them. An
/// identifier run is looked up in the keyword table after the whole run
/// is read; a digit run whose value does not fit an `i32` is reported
/// as `Illegal` at the run's start, with the run consumed.
pub open spec fn token_at(s: Seq<char>, i: nat) -> (LexemeModel, nat) {
    if i >= s.len() {
        (LexemeModel::EndOfFile { pos: i }, i)
    } else {
        let c = s[i as int];
        if c == '=' {
            (LexemeModel::Assign { pos: i }, i + 1)
        } else if c == '+' {
            (LexemeModel::Plus { pos: i }, i + 1)
        } else if c == '-' {
            (LexemeModel::Minus { pos: i }, i + 1)
        } else if c == '*' {
            (LexemeModel::Asterisk { pos: i }, i + 1)
        } else if c == '/' {
            (LexemeModel::Slash { pos: i }, i + 1)
        } else if c == ':' {
            (LexemeModel::Colon { pos: i }, i + 1)
        } else if c == '.' {
            (LexemeModel::Dot { pos: i }, i + 1)
        } else if c == '(' {
            (LexemeModel::LParen { pos: i }, i + 1)
        } else if c == ')' {
            (LexemeModel::RParen { pos: i }, i + 1)
        } else if c == '{' {
            (LexemeModel::LBrace { pos: i }, i + 1)
        } else if c == '}' {
            (LexemeModel::RBrace { pos: i }, i + 1)
        } else if c == '<' {
            if i + 1 < s.len() && s[i as int + 1] == '=' {
                (LexemeModel::LE { pos: i }, i + 2)
            } else {
                (LexemeModel::LT { pos: i }, i + 1)
            }
        } else if c == '>' {
            if i + 1 < s.len() && s[i as int + 1] == '=' {
                (LexemeModel::GE { pos: i }, i + 2)
            } else {
                (LexemeModel::GT { pos: i }, i + 1)
            }
        } else if c == '!' {
            if i + 1 < s.len() && s[i as int + 1] == '=' {
                (LexemeModel::NE { pos: i }, i + 2)
            } else {
                (LexemeModel::Bang { pos: i }, i + 1)
            }
        } else if is_letter_char(c) {
            let j = letter_end(s, i);
            let word = s.subrange(i as int, j as int);
            if word == spell_let() {
                (LexemeModel::Let { pos: i }, j)
            } else if word == spell_true() {
                (LexemeModel::Boolean { pos: i, value: true }, j)
            } else if word == spell_false() {
                (LexemeModel::Boolean { pos: i, value: false }, j)
            } else {
                (LexemeModel::Identifier { pos: i, text: word }, j)
            }
        } else if is_digit_char(c) {
            let j = digit_end(s, i);
            let v = digits_value(s.subrange(i as int, j as int));
            if v <= i32::MAX {
                (LexemeModel::Integer { pos: i, value: v }, j)
            } else {
                (LexemeModel::Illegal { pos: i }, j)
            }
        } else {
            (LexemeModel::Illegal { pos: i }, i + 1)
        }
    }
}

/// Bounds of a whitespace run: it stays inside the input, it ends at
/// the first non-whitespace character, and everything inside it is
/// whitespace.
pub proof fn lemma_whitespace_end(s: Seq<char>, i: nat)
    requires
        i <= s.len(),
    ensures
        i <= whitespace_end(s, i) <= s.len(),
        whitespace_end(s, i) == s.len() || !is_whitespace_char(
            s[whitespace_end(s, i) as int],
        ),
        forall|k: int| i <= k < whitespace_end(s, i) ==> is_whitespace_char(#[trigger] s[k]),
    decreases s.len() - i,
{
    if i < s.len() && is_whitespace_char(s[i as int]) {
        lemma_whitespace_end(s, i + 1);
    }
}

/// Bounds of an identifier run, as `lemma_whitespace_end` for letters.
pub proof fn lemma_letter_end(s: Seq<char>, i: nat)
    requires
        i <= s.len(),
    ensures
        i <= letter_end(s, i) <= s.len(),
        letter_end(s, i) == s.len() || !is_letter_char(s[letter_end(s, i) as int]),
        forall|k: int| i <= k < letter_end(s, i) ==> is_letter_char(#[trigger] s[k]),
    decreases s.len() - i,
{
    if i < s.len() && is_letter_char(s[i as int]) {
        lemma_letter_end(s, i + 1);
    }
}

/// Bounds of a digit run, as `lemma_whitespace_end` for digits.
pub proof fn lemma_digit_end(s: Seq<char>, i: nat)
    requires
        i <= s.len(),
    ensures
        i <= digit_end(s, i) <= s.len(),
        digit_end(s, i) == s.len() || !is_digit_char(s[digit_end(s, i) as int]),
        forall|k: int| i <= k < digit_end(s, i) ==> is_digit_char(#[trigger] s[k]),
    decreases s.len() - i,
{
    if i < s.len() && is_digit_char(s[i as int]) {
        lemma_digit_end(s, i + 1);
    }
}

/// Appending one digit multiplies the value of the run by ten and adds
/// the digit.
pub proof fn lemma_digits_value_push(t: Seq<char>, c: char)
    ensures
        digits_value(t.push(c)) == digits_value(t) * 10 + digit_value(c),
{
    assert(t.push(c).drop_last() =~= t);
    assert(t.push(c).last() == c);
}

/// One full call of the scanner from offset `i`: skip whitespace, then
/// classify. The pair is the token and the offset the cursor rests at
/// afterwards.
pub open spec fn lex_step(s: Seq<char>, i: nat) -> (LexemeModel, nat) {
    token_at(s, whitespace_end(s, i))
}

/// Every token starts where classification began, stays inside the
/// input, and consumes at least one character unless it is the end of
/// the stream.
pub proof fn lemma_token_at_bounds(s: Seq<char>, i: nat)
    requires
        i <= s.len(),
    ensures
        token_at(s, i).0.pos() == i,
        i <= token_at(s, i).1 <= s.len(),
        !(token_at(s, i).0 is EndOfFile) ==> i < token_at(s, i).1,
        token_at(s, i).0 is EndOfFile <==> i == s.len(),
{
    if i < s.len() {
        let c = s[i as int];
        if is_letter_char(c) {
            lemma_letter_end(s, i + 1);
        }
        if is_digit_char(c) {
            lemma_digit_end(s, i + 1);
        }
    }
}

/// As `lemma_token_at_bounds`, for a full step: the token starts at the
/// end of the skipped whitespace, at or after the old offset, and the
/// cursor never moves backwards or past the end.
pub proof fn lemma_step_bounds(s: Seq<char>, i: nat)
    requires
        i <= s.len(),
    ensures
        i <= whitespace_end(s, i),
        lex_step(s, i).0.pos() == whitespace_end(s, i),
        whitespace_end(s, i) <= lex_step(s, i).1 <= s.len(),
        !(lex_step(s, i).0 is EndOfFile) ==> whitespace_end(s, i) < lex_step(s, i).1,
{
    lemma_whitespace_end(s, i);
    lemma_token_at_bounds(s, whitespace_end(s, i));
}

/// The full token stream from offset `i`: every token `lex_step`
/// produces, in order, closed by the one `EndOfFile` that follows them.
pub open spec fn lex_all(s: Seq<char>, i: nat) -> Seq<LexemeModel>
    decreases s.len() - i,
    when i <= s.len()
    via lex_all_decreases
{
    let step = lex_step(s, i);
    if step.0 is EndOfFile {
        seq![step.0]
    } else {
        seq![step.0] + lex_all(s, step.1)
    }
}

#[via_fn]
proof fn lex_all_decreases(s: Seq<char>, i: nat) {
    lemma_step_bounds(s, i);
}

} // verus!
