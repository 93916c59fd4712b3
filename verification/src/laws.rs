//! The behavioural laws of the scanner, each proved once and for all
//! over the spec-level scanner that `Lexer::next` is proved to follow.

use vstd::prelude::*;

use crate::lexeme::LexemeModel;
use crate::scan::digits_value;
use crate::scan::is_digit_char;
use crate::scan::is_letter_char;
use crate::scan::lemma_digit_end;
use crate::scan::lemma_letter_end;
use crate::scan::lemma_step_bounds;
use crate::scan::lemma_whitespace_end;
use crate::scan::letter_end;
use crate::scan::lex_all;
use crate::scan::lex_step;
use crate::scan::spell_false;
use crate::scan::spell_let;
use crate::scan::spell_true;
use crate::scan::whitespace_end;

verus! {

/// Determinism: the full token stream is a function of the input text
/// alone, so any two runs of the scanner over the same input produce
/// the same sequence of tokens.
pub proof fn lemma_deterministic(
    s: Seq<char>,
    first: Seq<LexemeModel>,
    second: Seq<LexemeModel>,
)
    requires
        first == lex_all(s, 0),
        second == lex_all(s, 0),
    ensures
        first == second,
{
}

/// Position monotonicity: a step never moves the cursor backwards, the
/// token it produces starts at or after the old offset and ends at the
/// new one, and the following token starts at or after that end. So
/// across the stream, each token's start is at least the previous
/// token's start plus the previous token's consumed length.
pub proof fn lemma_position_monotonic(s: Seq<char>, i: nat)
    requires
        i <= s.len(),
    ensures
        i <= lex_step(s, i).0.pos() <= lex_step(s, i).1 <= s.len(),
        lex_step(s, i).1 <= lex_step(s, lex_step(s, i).1).0.pos(),
{
    lemma_step_bounds(s, i);
    lemma_step_bounds(s, lex_step(s, i).1);
}

/// Position monotonicity across the whole stream: in the token
/// sequence of any input, each token starts at or after the start of
/// the one before it.
pub proof fn lemma_stream_monotonic(s: Seq<char>, i: nat, k: int)
    requires
        i <= s.len(),
        0 <= k < lex_all(s, i).len() - 1,
    ensures
        lex_all(s, i)[k].pos() <= lex_all(s, i)[k + 1].pos(),
    decreases s.len() - i,
{
    let step = lex_step(s, i);
    lemma_step_bounds(s, i);
    if !(step.0 is EndOfFile) {
        let rest = lex_all(s, step.1);
        assert(lex_all(s, i) == seq![step.0] + rest);
        if k == 0 {
            lemma_step_bounds(s, step.1);
            assert(rest[0] == lex_step(s, step.1).0);
        } else {
            lemma_stream_monotonic(s, step.1, k - 1);
            assert(lex_all(s, i)[k] == rest[k - 1]);
            assert(lex_all(s, i)[k + 1] == rest[k]);
        }
    }
}

/// The token stream of any input is closed by `EndOfFile` exactly
/// once: it is never empty, its last token is `EndOfFile`, and no
/// earlier token is.
pub proof fn lemma_stream_closed_once(s: Seq<char>, i: nat)
    requires
        i <= s.len(),
    ensures
        lex_all(s, i).len() >= 1,
        lex_all(s, i).last() is EndOfFile,
        forall|k: int|
            0 <= k < lex_all(s, i).len() - 1 ==> !(#[trigger] lex_all(s, i)[k] is EndOfFile),
    decreases s.len() - i,
{
    let step = lex_step(s, i);
    lemma_step_bounds(s, i);
    if !(step.0 is EndOfFile) {
        let rest = lex_all(s, step.1);
        lemma_stream_closed_once(s, step.1);
        assert(lex_all(s, i) == seq![step.0] + rest);
        assert(lex_all(s, i).last() == rest.last());
        assert forall|k: int| 0 <= k < lex_all(s, i).len() - 1 implies !(#[trigger] lex_all(
            s,
            i,
        )[k] is EndOfFile) by {
            if k > 0 {
                assert(lex_all(s, i)[k] == rest[k - 1]);
            }
        }
    }
}

/// End-of-file idempotence: once a step produces `EndOfFile` at some
/// offset, every later step produces the same `EndOfFile` at the same
/// offset and leaves the cursor where it was.
pub proof fn lemma_eof_idempotent(s: Seq<char>, i: nat)
    requires
        i <= s.len(),
        lex_step(s, i).0 is EndOfFile,
    ensures
        lex_step(s, lex_step(s, i).1) == lex_step(s, i),
        lex_step(s, i).0.pos() == lex_step(s, i).1,
{
    lemma_step_bounds(s, i);
    assert(whitespace_end(s, i) == s.len());
    assert(whitespace_end(s, s.len() as nat) == s.len());
}

/// Maximal munch: an identifier, keyword or boolean token is never cut
/// short of a letter that could extend it, and an integer token is
/// never cut short of a digit that could extend it.
pub proof fn lemma_maximal_munch(s: Seq<char>, i: nat)
    requires
        i <= s.len(),
    ensures
        ({
            let (t, p) = lex_step(s, i);
            &&& (t is Identifier || t is Let || t is Boolean) && p < s.len()
                ==> !is_letter_char(s[p as int])
            &&& t is Integer && p < s.len() ==> !is_digit_char(s[p as int])
        }),
{
    let j = whitespace_end(s, i);
    lemma_whitespace_end(s, i);
    if j < s.len() {
        lemma_letter_end(s, j);
        lemma_digit_end(s, j);
    }
}

/// Keyword precedence: a maximal identifier run that spells exactly a
/// reserved word or boolean literal becomes that token, and one that
/// spells anything else becomes a plain identifier carrying the whole
/// run. In particular `let` never scans as an identifier, and `letter`
/// never scans as `Let` followed by a remainder.
pub proof fn lemma_keyword_precedence(s: Seq<char>, i: nat)
    requires
        i <= s.len(),
    ensures
        ({
            let j = whitespace_end(s, i);
            let w = s.subrange(j as int, letter_end(s, j) as int);
            let (t, p) = lex_step(s, i);
            &&& j < s.len() && is_letter_char(s[j as int]) ==> p == letter_end(s, j)
            &&& j < s.len() && is_letter_char(s[j as int]) && w == spell_let() ==> t == (
            LexemeModel::Let { pos: j })
            &&& j < s.len() && is_letter_char(s[j as int]) && w == spell_true() ==> t == (
            LexemeModel::Boolean { pos: j, value: true })
            &&& j < s.len() && is_letter_char(s[j as int]) && w == spell_false() ==> t == (
            LexemeModel::Boolean { pos: j, value: false })
            &&& j < s.len() && is_letter_char(s[j as int]) && w != spell_let() && w != spell_true()
                && w != spell_false() ==> t == (LexemeModel::Identifier { pos: j, text: w })
        }),
{
    lemma_whitespace_end(s, i);
}

/// Round-trip position slicing: for every non-sentinel token, the slice
/// of the input that starts at the token's reported position and runs
/// to the cursor's position after the step is exactly the token's own
/// source text: the keyword or boolean spelling, the identifier's text,
/// the symbol's character or character pair, or a non-empty all-digit
/// run denoting the integer's value.
pub proof fn lemma_round_trip(s: Seq<char>, i: nat)
    requires
        i <= s.len(),
    ensures
        ({
            let (t, p) = lex_step(s, i);
            &&& t matches LexemeModel::Identifier { pos, text } ==> s.subrange(
                pos as int,
                p as int,
            ) == text && text.len() > 0
            &&& t is Let ==> s.subrange(t.pos() as int, p as int) == spell_let()
            &&& t matches LexemeModel::Boolean { pos, value } ==> s.subrange(pos as int, p as int)
                == (if value {
                spell_true()
            } else {
                spell_false()
            })
            &&& t matches LexemeModel::Integer { pos, value } ==> digits_value(
                s.subrange(pos as int, p as int),
            ) == value && pos < p && (forall|k: int|
                pos <= k < p ==> is_digit_char(#[trigger] s[k]))
            &&& t is Assign ==> p == t.pos() + 1 && s[t.pos() as int] == '='
            &&& t is Plus ==> p == t.pos() + 1 && s[t.pos() as int] == '+'
            &&& t is Minus ==> p == t.pos() + 1 && s[t.pos() as int] == '-'
            &&& t is Asterisk ==> p == t.pos() + 1 && s[t.pos() as int] == '*'
            &&& t is Slash ==> p == t.pos() + 1 && s[t.pos() as int] == '/'
            &&& t is Colon ==> p == t.pos() + 1 && s[t.pos() as int] == ':'
            &&& t is Dot ==> p == t.pos() + 1 && s[t.pos() as int] == '.'
            &&& t is LParen ==> p == t.pos() + 1 && s[t.pos() as int] == '('
            &&& t is RParen ==> p == t.pos() + 1 && s[t.pos() as int] == ')'
            &&& t is LBrace ==> p == t.pos() + 1 && s[t.pos() as int] == '{'
            &&& t is RBrace ==> p == t.pos() + 1 && s[t.pos() as int] == '}'
            &&& t is LT ==> p == t.pos() + 1 && s[t.pos() as int] == '<'
            &&& t is GT ==> p == t.pos() + 1 && s[t.pos() as int] == '>'
            &&& t is Bang ==> p == t.pos() + 1 && s[t.pos() as int] == '!'
            &&& t is LE ==> p == t.pos() + 2 && s[t.pos() as int] == '<' && s[t.pos() as int + 1]
                == '='
            &&& t is GE ==> p == t.pos() + 2 && s[t.pos() as int] == '>' && s[t.pos() as int + 1]
                == '='
            &&& t is NE ==> p == t.pos() + 2 && s[t.pos() as int] == '!' && s[t.pos() as int + 1]
                == '='
        }),
{
    let j = whitespace_end(s, i);
    lemma_whitespace_end(s, i);
    if j < s.len() {
        lemma_letter_end(s, j + 1);
        lemma_digit_end(s, j + 1);
    }
}

} // verus!
