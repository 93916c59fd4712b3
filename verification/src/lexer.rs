use vstd::prelude::*;
use vstd::string::StrSliceExecFns;

use crate::lexeme::Lexeme;
use crate::lexeme::LexemeModel;
use crate::scan::digit_end;
use crate::scan::digits_value;
use crate::scan::is_digit_char;
use crate::scan::is_letter_char;
use crate::scan::is_whitespace_char;
use crate::scan::lemma_digits_value_push;
use crate::scan::lemma_letter_end;
use crate::scan::letter_end;
use crate::scan::lex_step;
use crate::scan::spell_false;
use crate::scan::spell_let;
use crate::scan::spell_true;
use crate::scan::whitespace_end;

verus! {

/// The scanner: a borrowed view of the whole input and the offset of
/// the next unread character, counted in Unicode scalar values. Tokens
/// come out one per call of `next`, in increasing position order.
pub struct Lexer<'a> {
    input: &'a str,
    position: usize,
}

/// The given character is one the scanner skips between tokens.
pub fn is_whitespace(c: char) -> (r: bool)
    ensures
        r == is_whitespace_char(c),
{
    c == ' ' || c == '\t' || c == '\n' || c == '\r'
}

/// The given character may stand in an identifier run.
pub fn is_letter(c: char) -> (r: bool)
    ensures
        r == is_letter_char(c),
{
    let u: u32 = c as u32;
    ('a' as u32 <= u && u <= 'z' as u32) || ('A' as u32 <= u && u <= 'Z' as u32) || c == '_'
}

/// The given character is a decimal digit.
pub fn is_digit(c: char) -> (r: bool)
    ensures
        r == is_digit_char(c),
{
    let u: u32 = c as u32;
    '0' as u32 <= u && u <= '9' as u32
}

impl<'a> Lexer<'a> {
    /// The input text as a sequence of characters.
    pub closed spec fn text(&self) -> Seq<char> {
        self.input@
    }

    /// The number of characters already consumed; the next token starts
    /// at or after this offset.
    pub closed spec fn pos(&self) -> nat {
        self.position as nat
    }

    /// The cursor never rests past the end of the input.
    pub open spec fn wf(&self) -> bool {
        self.pos() <= self.text().len()
    }

    /// A fresh scanner over the whole of `input`, at offset zero.
    pub fn new(input: &'a str) -> (r: Self)
        ensures
            r.wf(),
            r.text() == input@,
            r.pos() == 0,
    {
        Lexer { input, position: 0 }
    }

    /// The borrowed input the scanner was built over, unchanged.
    pub fn input(&self) -> (r: &'a str)
        ensures
            r@ == self.text(),
    {
        self.input
    }

    /// Consumes the maximal run of whitespace at the cursor.
    fn skip_whitespaces(&mut self)
        requires
            old(self).wf(),
        ensures
            final(self).wf(),
            final(self).text() == old(self).text(),
            final(self).pos() == whitespace_end(old(self).text(), old(self).pos()),
    {
        let n = self.input.unicode_len();
        let mut p = self.position;
        while p < n && is_whitespace(self.input.get_char(p))
            invariant
                n == self.input@.len(),
                self.position <= p <= n,
                whitespace_end(self.input@, self.position as nat) == whitespace_end(
                    self.input@,
                    p as nat,
                ),
            decreases n - p,
        {
            p = p + 1;
        }
        self.position = p;
    }

    /// Reads the maximal identifier run at the cursor and hands back its
    /// text together with the offset of its first character.
    fn read_word(&mut self) -> (r: (String, usize))
        requires
            old(self).wf(),
        ensures
            final(self).wf(),
            final(self).text() == old(self).text(),
            final(self).pos() == letter_end(old(self).text(), old(self).pos()),
            r.1 == old(self).pos(),
            r.0@ == old(self).text().subrange(old(self).pos() as int, final(self).pos() as int),
    {
        let start = self.position;
        let n = self.input.unicode_len();
        let mut p = start;
        while p < n && is_letter(self.input.get_char(p))
            invariant
                n == self.input@.len(),
                start <= p <= n,
                letter_end(self.input@, start as nat) == letter_end(self.input@, p as nat),
            decreases n - p,
        {
            p = p + 1;
        }
        let word = self.input.substring_char(start, p).to_owned();
        self.position = p;
        (word, start)
    }

    /// Reads the maximal digit run at the cursor and classifies it: an
    /// `Integer` token where the value fits an `i32`, else `Illegal` at
    /// the run's start, the run consumed either way.
    fn read_number(&mut self) -> (r: Lexeme)
        requires
            old(self).wf(),
        ensures
            final(self).wf(),
            final(self).text() == old(self).text(),
            final(self).pos() == digit_end(old(self).text(), old(self).pos()),
            r@ == ({
                let s = old(self).text();
                let i = old(self).pos();
                let v = digits_value(s.subrange(i as int, digit_end(s, i) as int));
                if v <= i32::MAX {
                    LexemeModel::Integer { pos: i, value: v }
                } else {
                    LexemeModel::Illegal { pos: i }
                }
            }),
    {
        let ghost s = self.input@;
        let start = self.position;
        let n = self.input.unicode_len();
        let mut p = start;
        let mut acc: u64 = 0;
        let mut over: bool = false;
        while p < n && is_digit(self.input.get_char(p))
            invariant
                n == self.input@.len(),
                s == self.input@,
                start <= p <= n,
                digit_end(s, start as nat) == digit_end(s, p as nat),
                !over ==> acc == digits_value(s.subrange(start as int, p as int)) && acc
                    <= i32::MAX,
                over ==> digits_value(s.subrange(start as int, p as int)) > i32::MAX,
            decreases n - p,
        {
            let c = self.input.get_char(p);
            let d: u64 = (c as u32 - '0' as u32) as u64;
            proof {
                assert(s.subrange(start as int, p as int + 1) =~= s.subrange(
                    start as int,
                    p as int,
                ).push(s[p as int]));
                lemma_digits_value_push(s.subrange(start as int, p as int), s[p as int]);
            }
            if !over {
                let grown: u64 = acc * 10 + d;
                if grown > 2147483647u64 {
                    over = true;
                } else {
                    acc = grown;
                }
            }
            p = p + 1;
        }
        self.position = p;
        if over {
            Lexeme::Illegal(start)
        } else {
            Lexeme::Integer(start, acc as i32)
        }
    }

    /// Produces the next token: skips whitespace, then classifies what
    /// the cursor rests on, exactly as `lex_step` describes. At the end
    /// of input the cursor stays put and `EndOfFile` repeats forever.
    pub fn next(&mut self) -> (r: Lexeme)
        requires
            old(self).wf(),
        ensures
            final(self).wf(),
            final(self).text() == old(self).text(),
            r@ == lex_step(old(self).text(), old(self).pos()).0,
            final(self).pos() == lex_step(old(self).text(), old(self).pos()).1,
    {
        self.skip_whitespaces();
        let ghost s = self.input@;
        let n = self.input.unicode_len();
        let start = self.position;
        if start >= n {
            return Lexeme::EndOfFile(start);
        }
        let c = self.input.get_char(start);
        if c == '=' {
            self.position = start + 1;
            Lexeme::Assign(start)
        } else if c == '+' {
            self.position = start + 1;
            Lexeme::Plus(start)
        } else if c == '-' {
            self.position = start + 1;
            Lexeme::Minus(start)
        } else if c == '*' {
            self.position = start + 1;
            Lexeme::Asterisk(start)
        } else if c == '/' {
            self.position = start + 1;
            Lexeme::Slash(start)
        } else if c == ':' {
            self.position = start + 1;
            Lexeme::Colon(start)
        } else if c == '.' {
            self.position = start + 1;
            Lexeme::Dot(start)
        } else if c == '(' {
            self.position = start + 1;
            Lexeme::LParen(start)
        } else if c == ')' {
            self.position = start + 1;
            Lexeme::RParen(start)
        } else if c == '{' {
            self.position = start + 1;
            Lexeme::LBrace(start)
        } else if c == '}' {
            self.position = start + 1;
            Lexeme::RBrace(start)
        } else if c == '<' {
            if start + 1 < n && self.input.get_char(start + 1) == '=' {
                self.position = start + 2;
                Lexeme::LE(start)
            } else {
                self.position = start + 1;
                Lexeme::LT(start)
            }
        } else if c == '>' {
            if start + 1 < n && self.input.get_char(start + 1) == '=' {
                self.position = start + 2;
                Lexeme::GE(start)
            } else {
                self.position = start + 1;
                Lexeme::GT(start)
            }
        } else if c == '!' {
            if start + 1 < n && self.input.get_char(start + 1) == '=' {
                self.position = start + 2;
                Lexeme::NE(start)
            } else {
                self.position = start + 1;
                Lexeme::Bang(start)
            }
        } else if is_letter(c) {
            // The keyword table, consulted only after the whole run is
            // read: the characters of the run are still at hand in the
            // input, so the spellings are compared in place.
            let (word, wpos) = self.read_word();
            let end = self.position;
            proof {
                lemma_letter_end(s, start as nat);
            }
            if end - start == 3 && self.input.get_char(start) == 'l' && self.input.get_char(
                start + 1,
            ) == 'e' && self.input.get_char(start + 2) == 't' {
                proof {
                    assert(word@ =~= spell_let());
                }
                Lexeme::Let(wpos)
            } else if end - start == 4 && self.input.get_char(start) == 't'
                && self.input.get_char(start + 1) == 'r' && self.input.get_char(start + 2) == 'u'
                && self.input.get_char(start + 3) == 'e' {
                proof {
                    assert(word@ =~= spell_true());
                }
                Lexeme::Boolean(wpos, true)
            } else if end - start == 5 && self.input.get_char(start) == 'f'
                && self.input.get_char(start + 1) == 'a' && self.input.get_char(start + 2) == 'l'
                && self.input.get_char(start + 3) == 's' && self.input.get_char(start + 4) == 'e' {
                proof {
                    assert(word@ =~= spell_false());
                }
                Lexeme::Boolean(wpos, false)
            } else {
                proof {
                    let w = word@;
                    let sl = spell_let();
                    let st = spell_true();
                    let sf = spell_false();
                    assert(sl.len() == 3 && sl[0] == 'l' && sl[1] == 'e' && sl[2] == 't');
                    assert(st.len() == 4 && st[0] == 't' && st[1] == 'r' && st[2] == 'u' && st[3]
                        == 'e');
                    assert(sf.len() == 5 && sf[0] == 'f' && sf[1] == 'a' && sf[2] == 'l' && sf[3]
                        == 's' && sf[4] == 'e');
                    assert(forall|k: int| 0 <= k < w.len() ==> w[k] == s[start as int + k]);
                }
                Lexeme::Identifier(wpos, word)
            }
        } else if is_digit(c) {
            self.read_number()
        } else {
            self.position = start + 1;
            Lexeme::Illegal(start)
        }
    }
}

} // verus!
