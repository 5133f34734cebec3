//! Properties of the whole scan, proved over the grammar's spec functions.
use crate::model::{make_token, punct_kind, scan_from, scan_model, scan_step};
use crate::token::token_type;
use vstd::prelude::*;

verus! {

/// Input made of single-character punctuation, with no slash followed by a
/// second slash (that pair opens a comment).
pub open spec fn only_punctuation(src: Seq<char>) -> bool {
    &&& forall|i: int| 0 <= i < src.len() ==> (#[trigger] punct_kind(src[i])) is Some
    &&& forall|i: int| 0 <= i < src.len() - 1 ==> !(#[trigger] src[i] == '/' && src[i + 1] == '/')
}

/// From any position of an input made only of single-character punctuation
/// (no slash directly followed by another), scanning to the end gives one token
/// per remaining character, in order, each on the starting line with that
/// character as its lexeme, and no error; `Scanner::scan_tokens` states its
/// result over this same `scan_from`.
pub proof fn lemma_punctuation_from(src: Seq<char>, pos: nat, line: nat)
    requires
        pos <= src.len(),
        only_punctuation(src),
    ensures
        ({
            let m = scan_from(src, pos, line);
            &&& m.tokens.len() == src.len() - pos
            &&& forall|i: int|
                0 <= i < m.tokens.len() ==> #[trigger] m.tokens[i] == make_token(
                    punct_kind(src[pos + i])->0,
                    seq![src[pos + i]],
                    line,
                )
            &&& m.errors.len() == 0
            &&& m.line == line
        }),
    decreases src.len() - pos,
{
    if pos < src.len() {
        let c = src[pos as int];
        assert(punct_kind(src[pos as int]) is Some);
        if pos + 1 < src.len() {
            assert(!(src[pos as int] == '/' && src[pos + 1 as int] == '/'));
        }
        lemma_punctuation_from(src, pos + 1, line);
        assert(src.subrange(pos as int, pos + 1 as int) =~= seq![c]);
        let m = scan_from(src, pos, line);
        let rest = scan_from(src, pos + 1, line);
        assert forall|i: int| 0 <= i < m.tokens.len() implies #[trigger] m.tokens[i] == make_token(
            punct_kind(src[pos + i])->0,
            seq![src[pos + i]],
            line,
        ) by {
            if i > 0 {
                assert(m.tokens[i] == rest.tokens[i - 1]);
                assert(pos + 1 + (i - 1) == pos + i);
            }
        }
    }
}

/// Completeness: in an input made only of single-character punctuation (no
/// slash directly followed by another, which would open a comment), each
/// character becomes exactly one token, in input order, with that character
/// as its lexeme; the end-of-input token follows, and no error is reported.
pub proof fn lemma_punctuation_complete(src: Seq<char>)
    requires
        src.len() > 0,
        only_punctuation(src),
    ensures
        scan_model(src).tokens.len() == src.len() + 1,
        forall|i: int|
            0 <= i < src.len() ==> {
                &&& (#[trigger] scan_model(src).tokens[i]).kind == punct_kind(src[i])->0
                &&& scan_model(src).tokens[i].lexeme == seq![src[i]]
            },
        scan_model(src).errors.len() == 0,
{
    lemma_punctuation_from(src, 0, 1);
    let m = scan_from(src, 0, 1);
    assert forall|i: int| 0 <= i < src.len() implies {
        &&& (#[trigger] scan_model(src).tokens[i]).kind == punct_kind(src[i])->0
        &&& scan_model(src).tokens[i].lexeme == seq![src[i]]
    } by {
        assert(scan_model(src).tokens[i] == m.tokens[i]);
        assert(m.tokens[i] == make_token(punct_kind(src[0 + i])->0, seq![src[0 + i]], 1));
    }
}

proof fn lemma_no_eof_from(src: Seq<char>, pos: nat, line: nat)
    ensures
        forall|i: int|
            0 <= i < scan_from(src, pos, line).tokens.len() ==> (#[trigger] scan_from(
                src,
                pos,
                line,
            ).tokens[i]).kind != token_type::EOF,
    decreases src.len() - pos,
{
    if pos < src.len() {
        let st = scan_step(src, pos, line);
        if pos < st.next <= src.len() {
            lemma_no_eof_from(src, st.next, st.line);
            let m = scan_from(src, pos, line);
            let rest = scan_from(src, st.next, st.line);
            assert forall|i: int| 0 <= i < m.tokens.len() implies (#[trigger] m.tokens[i]).kind
                != token_type::EOF by {
                if st.kind is Some && i > 0 {
                    assert(m.tokens[i] == rest.tokens[i - 1]);
                }
            }
        }
    }
}

/// The scan of any input ends with exactly one end-of-input token, and its
/// line is the line that scanning reached.
pub proof fn lemma_single_eof(src: Seq<char>)
    ensures
        scan_model(src).tokens.len() >= 1,
        scan_model(src).tokens.last().kind == token_type::EOF,
        scan_model(src).tokens.last().line == scan_model(src).line,
        forall|i: int|
            0 <= i < scan_model(src).tokens.len() - 1 ==> (#[trigger] scan_model(
                src,
            ).tokens[i]).kind != token_type::EOF,
{
    lemma_no_eof_from(src, 0, 1);
    let m = scan_from(src, 0, 1);
    assert forall|i: int| 0 <= i < scan_model(src).tokens.len() - 1 implies (
    #[trigger] scan_model(src).tokens[i]).kind != token_type::EOF by {
        assert(scan_model(src).tokens[i] == m.tokens[i]);
    }
}

} // verus!
