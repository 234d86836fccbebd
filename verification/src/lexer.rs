//! The lexer: schema text to tokens.

use crate::chars::{
    char_digit_value, char_is_alphanumeric, char_is_digit, char_is_whitespace, decimal_value,
    is_digit, lemma_decimal_value_push,
};
use crate::error::{LexError, LexFault, StrayChar};
use crate::lex_model::{
    accept, flush, lemma_error_is_final, lex_spec, run, step, LexState, Pending,
};
use crate::text::{push_char, str_eq};
use crate::token::{Keyword, Token};
use vstd::prelude::*;
use vstd::std_specs::iter::IteratorSpec;
use vstd::string::*;

verus! {

/// The tokens of a text, and the characters of it that belong to no token.
#[derive(Debug, PartialEq)]
pub struct Lexed {
    pub tokens: Vec<Token>,
    pub strays: Vec<StrayChar>,
}

/// The lexer's state while it runs. The growing number is kept as its value,
/// with a flag that is raised once the value no longer fits.
struct Scanner {
    tokens: Vec<Token>,
    strays: Vec<StrayChar>,
    word: String,
    digits: Ghost<Seq<char>>,
    has_digits: bool,
    value: u32,
    overflow: bool,
    number_start: usize,
    pending: Pending,
    commented: bool,
}

impl Scanner {
    /// The state of the model that this scanner stands for.
    spec fn model(&self) -> LexState {
        LexState {
            tokens: self.tokens.deep_view(),
            strays: self.strays@,
            word: self.word@,
            number: self.digits@,
            number_start: self.number_start as int,
            pending: self.pending,
            commented: self.commented,
        }
    }

    /// The value and the flags say what the digits say.
    spec fn wf(&self) -> bool {
        &&& self.has_digits == (self.digits@.len() > 0)
        &&& self.overflow ==> decimal_value(self.digits@) > u32::MAX
        &&& !self.overflow ==> decimal_value(self.digits@) == self.value
    }

    fn new() -> (r: Scanner)
        ensures
            r.wf(),
            r.model() == LexState::start(),
    {
        let r = Scanner {
            tokens: Vec::new(),
            strays: Vec::new(),
            word: String::new(),
            digits: Ghost(Seq::empty()),
            has_digits: false,
            value: 0,
            overflow: false,
            number_start: 0,
            pending: Pending::Nothing,
            commented: false,
        };
        assert(r.model().tokens =~= Seq::empty());
        r
    }

    fn emit(&mut self, t: Token)
        requires
            old(self).wf(),
        ensures
            final(self).wf(),
            final(self).model() == old(self).model().emit(t@),
    {
        let ghost before = self.tokens.deep_view();
        self.tokens.push(t);
        assert(self.tokens.deep_view() =~= before.push(t@));
    }

    /// Ends the growing word, or else the growing number.
    fn flush(&mut self) -> (r: Result<(), LexError>)
        requires
            old(self).wf(),
        ensures
            match flush(old(self).model()) {
                Ok(s) => r is Ok && final(self).wf() && final(self).model() == s,
                Err(e) => r matches Err(x) && x == e,
            },
    {
        if !self.word.as_str().is_empty() {
            let mut word = String::new();
            std::mem::swap(&mut self.word, &mut word);
            let token = if str_eq(word.as_str(), "table") {
                Token::Keyword(Keyword::Table)
            } else if str_eq(word.as_str(), "type") {
                Token::Keyword(Keyword::Type)
            } else {
                Token::Word(word)
            };
            self.emit(token);
            Ok(())
        } else if self.has_digits {
            if self.overflow {
                Err(LexError { fault: LexFault::NumberOverflow, position: self.number_start })
            } else {
                let value = self.value;
                self.digits = Ghost(Seq::empty());
                self.has_digits = false;
                self.value = 0;
                self.emit(Token::Number(value));
                Ok(())
            }
        } else {
            Ok(())
        }
    }

    /// Adds the digit `c` to the growing number.
    fn push_digit(&mut self, c: char, position: usize)
        requires
            old(self).wf(),
            is_digit(c),
        ensures
            final(self).wf(),
            final(self).model() == (LexState {
                number: old(self).model().number.push(c),
                number_start: if old(self).model().number.len() == 0 {
                    position as int
                } else {
                    old(self).model().number_start
                },
                ..old(self).model()
            }),
    {
        proof {
            lemma_decimal_value_push(self.digits@, c);
        }
        if !self.has_digits {
            self.number_start = position;
            self.has_digits = true;
        }
        let d = char_digit_value(c);
        if !self.overflow {
            let wide: u64 = (self.value as u64) * 10 + (d as u64);
            if wide > u32::MAX as u64 {
                self.overflow = true;
            } else {
                self.value = wide as u32;
            }
        }
        self.digits = Ghost(self.digits@.push(c));
    }

    /// Takes the character `c` at `position` into a state in which nothing
    /// has to be ended any more.
    fn accept(&mut self, c: char, position: usize) -> (r: Result<(), LexError>)
        requires
            old(self).wf(),
        ensures
            match accept(old(self).model(), c, position as int) {
                Ok(s) => r is Ok && final(self).wf() && final(self).model() == s,
                Err(e) => r matches Err(x) && x == e,
            },
    {
        if self.commented {
            self.commented = c != '\n';
        } else if char_is_digit(c) && self.word.as_str().is_empty() {
            self.push_digit(c, position);
        } else if char_is_alphanumeric(c) {
            push_char(&mut self.word, c);
        } else if c == '#' {
            self.commented = true;
        } else if c == '+' {
            self.emit(Token::PrimaryKey);
        } else if c == '{' {
            self.emit(Token::OpenBrace);
        } else if c == '}' {
            self.emit(Token::CloseBrace);
        } else if c == '(' {
            self.emit(Token::OpenParen);
        } else if c == ')' {
            self.emit(Token::CloseParen);
        } else if c == '=' {
            self.emit(Token::Eq);
        } else if c == '.' {
            match self.pending {
                Pending::Dot => {
                    self.pending = Pending::Nothing;
                    self.emit(Token::RangeDecl);
                },
                Pending::Nothing => {
                    self.pending = Pending::Dot;
                },
                Pending::Minus => {
                    return Err(LexError { fault: LexFault::InvalidSymbolGroup, position });
                },
            }
        } else if c == '-' && self.pending == Pending::Nothing {
            self.pending = Pending::Minus;
        } else if c == '>' && self.pending == Pending::Minus {
            self.pending = Pending::Nothing;
            self.emit(Token::RatioDecl);
        } else if !char_is_whitespace(c) {
            self.strays.push(StrayChar { character: c, position });
        }
        Ok(())
    }
}

/// Turns a schema text into tokens.
///
/// Letters and digits form words; `table` and `type` are keywords. Digits
/// that begin while no word is growing form a number, which has to fit in
/// `u32`. `+ { } ( ) =` are tokens by themselves, `..` is the range marker
/// and `->` the ratio marker. `#` starts a comment that runs to the end of
/// its line. Any other character that is not white space is reported in
/// `strays` and ignored.
///
/// The result is that of the state machine of `lex_model`, so equal texts
/// give equal tokens.
pub fn lex_text(text: &str) -> (r: Result<Lexed, LexError>)
    ensures
        match lex_spec(text@) {
            Ok(v) => r matches Ok(lexed) && lexed.tokens.deep_view() == v.tokens && lexed.strays@
                == v.strays,
            Err(e) => r matches Err(x) && x == e,
        },
{
    let total = text.unicode_len();
    let mut scanner = Scanner::new();
    let mut chars = text.chars();
    let mut position: usize = 0;
    loop
        invariant
            position <= total,
            total == text@.len(),
            chars.remaining() == text@.skip(position as int),
            chars.obeys_prophetic_iter_laws(),
            scanner.wf(),
            run(LexState::start(), text@.take(position as int), 0) == Ok::<LexState, LexError>(
                scanner.model(),
            ),
        decreases total - position,
    {
        match chars.next() {
            None => {
                assert(text@.take(position as int) == text@);
                return Ok(Lexed { tokens: scanner.tokens, strays: scanner.strays });
            },
            Some(c) => {
                proof {
                    let next = text@.take(position + 1);
                    assert(next.drop_last() == text@.take(position as int));
                    assert(next.last() == c);
                    assert(text@.skip(position as int).drop_first() == text@.skip(position + 1));
                    if step(scanner.model(), c, position as int) is Err {
                        lemma_error_is_final(LexState::start(), text@, position + 1, 0);
                    }
                }
                if !char_is_alphanumeric(c) {
                    match scanner.flush() {
                        Ok(()) => {},
                        Err(e) => {
                            return Err(e);
                        },
                    }
                }
                match scanner.accept(c, position) {
                    Ok(()) => {},
                    Err(e) => {
                        return Err(e);
                    },
                }
                position += 1;
            },
        }
    }
}

} // verus!
