//! What holds of the lexer on every text.

use crate::error::{LexError, StrayChar};
use crate::lex_model::{flush, lex_spec, run, step, LexState};
use vstd::prelude::*;

verus! {

/// Reading `first` and then `second` is reading the two texts one after the
/// other, the second from the state that the first has left.
pub proof fn lemma_run_concat(s: LexState, first: Seq<char>, second: Seq<char>, base: int)
    ensures
        run(s, first + second, base) == match run(s, first, base) {
            Ok(middle) => run(middle, second, base + first.len()),
            Err(e) => Err(e),
        },
    decreases second.len(),
{
    if second.len() == 0 {
        assert(first + second == first);
    } else {
        assert((first + second).drop_last() == first + second.drop_last());
        lemma_run_concat(s, first, second.drop_last(), base);
    }
}

/// Two states that differ at most in the positions they remember.
pub open spec fn same_shape(a: LexState, b: LexState) -> bool {
    &&& a.tokens == b.tokens
    &&& a.word == b.word
    &&& a.number == b.number
    &&& a.pending == b.pending
    &&& a.commented == b.commented
    &&& same_characters(a.strays, b.strays)
}

/// Two reports of stray characters that name the same characters in the same
/// order.
pub open spec fn same_characters(a: Seq<StrayChar>, b: Seq<StrayChar>) -> bool {
    &&& a.len() == b.len()
    &&& forall|i: int| 0 <= i < a.len() ==> a[i].character == b[i].character
}

/// Two outcomes that differ at most in positions: the same tokens and stray
/// characters, or the same fault.
pub open spec fn same_outcome(
    a: Result<LexState, LexError>,
    b: Result<LexState, LexError>,
) -> bool {
    match (a, b) {
        (Ok(x), Ok(y)) => same_shape(x, y),
        (Err(e), Err(f)) => e.fault == f.fault,
        _ => false,
    }
}

/// What a character does depends on its position only in the positions that
/// are remembered.
pub proof fn lemma_step_same_shape(a: LexState, b: LexState, c: char, pa: int, pb: int)
    requires
        same_shape(a, b),
    ensures
        same_outcome(step(a, c, pa), step(b, c, pb)),
{
}

/// What a text does depends on where it stands only in the positions that
/// are remembered.
pub proof fn lemma_run_same_shape(a: LexState, b: LexState, text: Seq<char>, pa: int, pb: int)
    requires
        same_shape(a, b),
    ensures
        same_outcome(run(a, text, pa), run(b, text, pb)),
    decreases text.len(),
{
    if text.len() > 0 {
        lemma_run_same_shape(a, b, text.drop_last(), pa, pb);
        if let Ok(x) = run(a, text.drop_last(), pa) {
            let y = run(b, text.drop_last(), pb)->Ok_0;
            lemma_step_same_shape(x, y, text.last(), pa + text.len() - 1, pb + text.len() - 1);
        }
    }
}

/// The state in which the line feed that ends a comment leaves the lexer.
pub open spec fn end_comment(s: LexState) -> Result<LexState, LexError> {
    match flush(s) {
        Ok(flushed) => Ok(LexState { commented: false, ..flushed }),
        Err(e) => Err(e),
    }
}

/// Inside a comment, characters other than the line feed change nothing but
/// to end a number that was still growing.
pub proof fn lemma_comment_body(s: LexState, body: Seq<char>, base: int)
    requires
        s.commented,
        s.word.len() == 0,
        forall|i: int| 0 <= i < body.len() ==> body[i] != '\n',
    ensures
        run(s, body, base) == Ok::<LexState, LexError>(s) || run(s, body, base) == flush(s),
    decreases body.len(),
{
    if body.len() > 0 {
        lemma_comment_body(s, body.drop_last(), base);
        assert(body.last() == body[body.len() - 1]);
    }
}

/// A comment ends in the same state whatever stands in it.
pub proof fn lemma_comment_ends(s: LexState, body: Seq<char>, base: int)
    requires
        s.commented,
        s.word.len() == 0,
        forall|i: int| 0 <= i < body.len() ==> body[i] != '\n',
    ensures
        run(s, body.push('\n'), base) == end_comment(s),
{
    lemma_comment_body(s, body, base);
    assert(body.push('\n').drop_last() == body);
}

/// After a `#` the lexer is inside a comment and no word is growing.
pub proof fn lemma_hash_opens_comment(s: LexState, base: int)
    ensures
        run(s, seq!['#'], base) matches Ok(opened) ==> opened.commented && opened.word.len() == 0,
{
    let text = seq!['#'];
    assert(text.drop_last() == Seq::<char>::empty());
    assert(run(s, text.drop_last(), base) == Ok::<LexState, LexError>(s));
}

/// A comment contributes no token and does not disturb what follows it: a
/// text with a comment from `#` to the next line feed has the tokens, the
/// stray characters and the fault of the same text with nothing between the
/// `#` and the line feed.
pub proof fn lemma_comment_is_skipped(before: Seq<char>, body: Seq<char>, after: Seq<char>)
    requires
        forall|i: int| 0 <= i < body.len() ==> body[i] != '\n',
    ensures
        match (
            lex_spec(before + seq!['#'] + body + seq!['\n'] + after),
            lex_spec(before + seq!['#'] + seq!['\n'] + after),
        ) {
            (Ok(long), Ok(short)) => long.tokens == short.tokens && same_characters(
                long.strays,
                short.strays,
            ),
            (Err(long), Err(short)) => long.fault == short.fault,
            _ => false,
        },
{
    let start = LexState::start();
    let hash = seq!['#'];
    let line_feed = seq!['\n'];
    let empty = Seq::<char>::empty();
    let long = before + hash + body + line_feed + after;
    let short = before + hash + line_feed + after;
    let head = before + hash;
    assert(long == head + (body.push('\n') + after));
    assert(short == head + (empty.push('\n') + after));
    lemma_run_concat(start, head, body.push('\n') + after, 0);
    lemma_run_concat(start, head, empty.push('\n') + after, 0);
    lemma_run_concat(start, before, hash, 0);
    if let Ok(opened) = run(start, head, 0) {
        if let Ok(s) = run(start, before, 0) {
            lemma_hash_opens_comment(s, before.len() as int);
        }
        let base = head.len() as int;
        lemma_run_concat(opened, body.push('\n'), after, base);
        lemma_run_concat(opened, empty.push('\n'), after, base);
        lemma_comment_ends(opened, body, base);
        lemma_comment_ends(opened, empty, base);
        if let Ok(closed) = end_comment(opened) {
            lemma_run_same_shape(
                closed,
                closed,
                after,
                base + body.len() + 1,
                base + 1,
            );
        }
    }
}

} // verus!
