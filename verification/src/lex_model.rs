//! The lexer as a state machine over characters.
//!
//! The machine reads one character at a time. It keeps the tokens made so far,
//! a word and a number that are still growing, the first character of a
//! two-character symbol that waits for its second, and whether it is inside a
//! comment. A token is emitted when the character that ends it is read, so a
//! word or a number that runs up to the very end of a text is not emitted.

use crate::chars::{decimal_value, is_alphanumeric, is_digit, is_whitespace};
use crate::error::{LexError, LexFault, StrayChar};
use crate::token::{Keyword, TokenView};
use vstd::prelude::*;

verus! {

/// The first character of a two-character symbol, read and not yet completed.
#[derive(Clone, Copy, Debug, PartialEq, Eq, Structural)]
pub enum Pending {
    Nothing,
    /// A `.` that a second `.` makes a range marker.
    Dot,
    /// A `-` that a `>` makes a ratio marker.
    Minus,
}

/// The state of the lexer between two characters.
pub struct LexState {
    /// The tokens emitted so far.
    pub tokens: Seq<TokenView>,
    /// The stray characters reported so far.
    pub strays: Seq<StrayChar>,
    /// The letters and digits of a word that is still growing.
    pub word: Seq<char>,
    /// The digits of a number that is still growing.
    pub number: Seq<char>,
    /// The position of the first digit of `number`, where it has one.
    pub number_start: int,
    pub pending: Pending,
    /// Whether the characters up to the next line feed are a comment.
    pub commented: bool,
}

/// What lexing a whole text gives.
pub struct LexedView {
    pub tokens: Seq<TokenView>,
    pub strays: Seq<StrayChar>,
}

impl LexState {
    /// The state before the first character.
    pub open spec fn start() -> LexState {
        LexState {
            tokens: Seq::empty(),
            strays: Seq::empty(),
            word: Seq::empty(),
            number: Seq::empty(),
            number_start: 0,
            pending: Pending::Nothing,
            commented: false,
        }
    }

    /// The state with one more token.
    pub open spec fn emit(self, t: TokenView) -> LexState {
        LexState { tokens: self.tokens.push(t), ..self }
    }
}

/// The token that a finished word is: one of the two keywords, or a word.
pub open spec fn word_token(word: Seq<char>) -> TokenView {
    if word == "table"@ {
        TokenView::Keyword(Keyword::Table)
    } else if word == "type"@ {
        TokenView::Keyword(Keyword::Type)
    } else {
        TokenView::Word(word)
    }
}

/// What a character that is no letter and no digit does first: it ends the
/// growing word, if there is one, and else the growing number. A number above
/// `u32::MAX` is an error at the position of its first digit.
pub open spec fn flush(s: LexState) -> Result<LexState, LexError> {
    if s.word.len() > 0 {
        Ok(LexState { word: Seq::empty(), ..s.emit(word_token(s.word)) })
    } else if s.number.len() > 0 {
        if decimal_value(s.number) <= u32::MAX {
            Ok(
                LexState {
                    number: Seq::empty(),
                    ..s.emit(TokenView::Number(decimal_value(s.number) as u32))
                },
            )
        } else {
            Err(LexError { fault: LexFault::NumberOverflow, position: s.number_start as usize })
        }
    } else {
        Ok(s)
    }
}

/// What the character `c` at position `p` does to a state in which nothing
/// has to be ended any more.
pub open spec fn accept(s: LexState, c: char, p: int) -> Result<LexState, LexError> {
    if s.commented {
        Ok(LexState { commented: c != '\n', ..s })
    } else if is_digit(c) && s.word.len() == 0 {
        Ok(
            LexState {
                number: s.number.push(c),
                number_start: if s.number.len() == 0 {
                    p
                } else {
                    s.number_start
                },
                ..s
            },
        )
    } else if is_alphanumeric(c) {
        Ok(LexState { word: s.word.push(c), ..s })
    } else if c == '#' {
        Ok(LexState { commented: true, ..s })
    } else if c == '+' {
        Ok(s.emit(TokenView::PrimaryKey))
    } else if c == '{' {
        Ok(s.emit(TokenView::OpenBrace))
    } else if c == '}' {
        Ok(s.emit(TokenView::CloseBrace))
    } else if c == '(' {
        Ok(s.emit(TokenView::OpenParen))
    } else if c == ')' {
        Ok(s.emit(TokenView::CloseParen))
    } else if c == '=' {
        Ok(s.emit(TokenView::Eq))
    } else if c == '.' {
        match s.pending {
            Pending::Dot => Ok(
                LexState { pending: Pending::Nothing, ..s.emit(TokenView::RangeDecl) },
            ),
            Pending::Nothing => Ok(LexState { pending: Pending::Dot, ..s }),
            Pending::Minus => Err(
                LexError { fault: LexFault::InvalidSymbolGroup, position: p as usize },
            ),
        }
    } else if c == '-' && s.pending == Pending::Nothing {
        Ok(LexState { pending: Pending::Minus, ..s })
    } else if c == '>' && s.pending == Pending::Minus {
        Ok(LexState { pending: Pending::Nothing, ..s.emit(TokenView::RatioDecl) })
    } else if !is_whitespace(c) {
        Ok(LexState { strays: s.strays.push(StrayChar { character: c, position: p as usize }), ..s })
    } else {
        Ok(s)
    }
}

/// The state after the character `c` at position `p`.
pub open spec fn step(s: LexState, c: char, p: int) -> Result<LexState, LexError> {
    if is_alphanumeric(c) {
        accept(s, c, p)
    } else {
        match flush(s) {
            Ok(flushed) => accept(flushed, c, p),
            Err(e) => Err(e),
        }
    }
}

/// The state after the characters of `text`, read from state `s`, where the
/// first of them stands at position `base`.
pub open spec fn run(s: LexState, text: Seq<char>, base: int) -> Result<LexState, LexError>
    decreases text.len(),
{
    if text.len() == 0 {
        Ok(s)
    } else {
        match run(s, text.drop_last(), base) {
            Ok(before) => step(before, text.last(), base + text.len() - 1),
            Err(e) => Err(e),
        }
    }
}

/// The tokens and stray characters of a whole text, or the first error.
pub open spec fn lex_spec(text: Seq<char>) -> Result<LexedView, LexError> {
    match run(LexState::start(), text, 0) {
        Ok(s) => Ok(LexedView { tokens: s.tokens, strays: s.strays }),
        Err(e) => Err(e),
    }
}

/// An error is final: once a prefix of a text has failed, the text fails
/// with the same error.
pub proof fn lemma_error_is_final(s: LexState, text: Seq<char>, n: int, base: int)
    requires
        0 <= n <= text.len(),
        run(s, text.take(n), base) is Err,
    ensures
        run(s, text, base) == run(s, text.take(n), base),
    decreases text.len() - n,
{
    if n < text.len() {
        assert(text.take(n + 1).drop_last() == text.take(n));
        lemma_error_is_final(s, text, n + 1, base);
    } else {
        assert(text.take(n) == text);
    }
}

} // verus!
