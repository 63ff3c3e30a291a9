//! The laws of the lexer, proved about the specification machine.
//!
//! Stated here: inserting a whitespace character at a token boundary
//! never changes the token sequence; a contiguous run of number, symbol
//! or operator characters is emitted as exactly one token whose payload
//! is the run itself, in any context (maximal munch); a whole-input
//! number, symbol, operator or quoted-string lexeme round-trips, the
//! payload equal to the matched text; and a comment standing in the
//! input is deleted outright from what the lexer sees.

use crate::classes::{digit_char, number_char, op_char, symbol_char, symbol_start_char,
    whitespace_char};
use crate::comments::{comment_marker_at, lemma_block_comment_deleted, lemma_strip_marker_free,
    marker_free, strip_comments};
use crate::data::TokenView;
use crate::lexer::{kind_state, kind_stop, kind_token, shift_err, spec_accum, spec_consume,
    spec_lex, spec_lex_next, spec_run, LexemeKind, StateView};
use vstd::prelude::*;

verus! {

/// Running the machine over the concatenation of two streams is
/// running it over the first, then over the second from where the
/// first ended, with error positions re-based.
pub proof fn lemma_run_append(toks: Seq<TokenView>, st: StateView, x: Seq<char>, y: Seq<char>)
    ensures
        spec_run(toks, st, x + y) == (match spec_run(toks, st, x) {
            Ok((t2, s2)) => shift_err(spec_run(t2, s2, y), x.len() as int),
            Err(e) => Err(e),
        }),
    decreases x.len(),
{
    if x.len() == 0 {
        assert(x + y =~= y);
    } else {
        assert((x + y)[0] == x[0]);
        assert((x + y).len() > 0);
        match spec_lex_next((toks, st), x[0]) {
            None => {},
            Some((t2, s2)) => {
                assert((x + y).drop_first() =~= x.drop_first() + y);
                lemma_run_append(t2, s2, x.drop_first(), y);
            },
        }
    }
}

/// The machine on a text ends at a token boundary: no error, and no
/// lexeme left open.
pub open spec fn lexes_to_boundary(a: Seq<char>) -> bool {
    match spec_run(Seq::empty(), StateView::Consume, a) {
        Ok((toks, st)) => st == StateView::Consume,
        Err(_) => false,
    }
}

/// Inserting a whitespace character at a token boundary never changes
/// the emitted token sequence: whitespace between tokens is discarded
/// silently. The text must hold no comment marker — a comment spanning
/// the insertion point could swallow the inserted character, or end at
/// it.
pub proof fn lemma_whitespace_insertion(a: Seq<char>, b: Seq<char>, w: char)
    requires
        whitespace_char(w),
        marker_free(a + b),
        lexes_to_boundary(a),
    ensures
        spec_lex(a + b) is Ok ==> spec_lex(a + seq![w] + b) == spec_lex(a + b),
{
    if spec_lex(a + b) is Ok {
        let ab = a + b;
        let awb = a + seq![w] + b;
        assert(marker_free(awb)) by {
            assert forall|p: int| !comment_marker_at(awb, p) by {
                if 0 <= p && p + 2 <= awb.len() {
                    if p + 1 < a.len() {
                        assert(awb[p] == a[p] && awb[p + 1] == a[p + 1]);
                        assert(ab[p] == a[p] && ab[p + 1] == a[p + 1]);
                        assert(!comment_marker_at(ab, p));
                    } else if p + 1 == a.len() {
                        // the pair ends on the inserted whitespace
                        assert(awb[p + 1] == w);
                    } else if p == a.len() {
                        // the pair starts on the inserted whitespace
                        assert(awb[p] == w);
                    } else {
                        // the pair lies in b
                        let q = p - 1;
                        assert(awb[p] == b[p - a.len() - 1] && awb[p + 1] == b[p - a.len()]);
                        assert(ab[q] == b[q - a.len()] && ab[q + 1] == b[q + 1 - a.len()]);
                        assert(!comment_marker_at(ab, q));
                    }
                }
            }
        }
        lemma_strip_marker_free(ab);
        lemma_strip_marker_free(awb);
        let rest = b.push(' ');
        assert(strip_comments(ab).push(' ') =~= a + rest);
        assert(strip_comments(awb).push(' ') =~= a + (seq![w] + rest));
        lemma_run_append(Seq::empty(), StateView::Consume, a, rest);
        lemma_run_append(Seq::empty(), StateView::Consume, a, seq![w] + rest);
        match spec_run(Seq::empty(), StateView::Consume, a) {
            Ok((t, st)) => {
                assert(st == StateView::Consume);
                assert(!op_char(w));
                assert(spec_consume(w) == Some((Seq::<TokenView>::empty(), StateView::Consume)));
                assert(t + Seq::<TokenView>::empty() =~= t);
                assert(spec_lex_next((t, StateView::Consume), w) == Some(
                    (t, StateView::Consume),
                ));
                let wrest = seq![w] + rest;
                assert(wrest[0] == w && wrest.len() > 0);
                assert(wrest.drop_first() =~= rest);
                assert(spec_run(t, StateView::Consume, wrest) == shift_err(
                    spec_run(t, StateView::Consume, rest),
                    1,
                ));
                match spec_run(t, StateView::Consume, rest) {
                    Ok(v) => {},
                    Err(_) => {
                        assert(spec_lex(ab) is Err);
                    },
                }
            },
            Err(_) => {},
        }
    }
}

/// Maximal munch inside one lexeme: from a buffer already collected,
/// the machine takes every following character of the lexeme's class
/// into that buffer, emits one token from the whole of it on the first
/// stopping character — which is consumed with it — and goes on
/// consuming.
pub proof fn lemma_accum_run(
    toks: Seq<TokenView>,
    k: LexemeKind,
    buf: Seq<char>,
    cont: Seq<char>,
    rest: Seq<char>,
)
    requires
        forall|i: int| 0 <= i < cont.len() ==> !kind_stop(k, #[trigger] cont[i]),
        rest.len() > 0,
        kind_stop(k, rest[0]),
    ensures
        spec_run(toks, kind_state(k, buf), cont + rest) == shift_err(
            spec_run(toks.push(kind_token(k, buf + cont)), StateView::Consume, rest.drop_first()),
            cont.len() + 1int,
        ),
    decreases cont.len(),
{
    if cont.len() == 0 {
        assert(cont + rest =~= rest);
        assert(buf + cont =~= buf);
        assert(spec_lex_next((toks, kind_state(k, buf)), rest[0]) == Some(
            spec_accum(toks, k, buf, rest[0]),
        ));
    } else {
        let c0 = cont[0];
        assert((cont + rest)[0] == c0);
        assert(!kind_stop(k, c0));
        assert(spec_lex_next((toks, kind_state(k, buf)), c0) == Some(
            (toks, kind_state(k, buf.push(c0))),
        ));
        assert((cont + rest).drop_first() =~= cont.drop_first() + rest);
        lemma_accum_run(toks, k, buf.push(c0), cont.drop_first(), rest);
        assert(buf.push(c0) + cont.drop_first() =~= buf + cont);
    }
}

/// Maximal munch for numbers, in any context: a run of digit or `.`
/// characters that opens with a digit is emitted as exactly one
/// `NumberLit` carrying the whole run, never split; the character that
/// ends the run is consumed with it.
pub proof fn lemma_number_munch(toks: Seq<TokenView>, run: Seq<char>, rest: Seq<char>)
    requires
        run.len() > 0,
        digit_char(run[0]),
        forall|i: int| 0 <= i < run.len() ==> number_char(#[trigger] run[i]),
        rest.len() > 0,
        !number_char(rest[0]),
    ensures
        spec_run(toks, StateView::Consume, run + rest) == shift_err(
            spec_run(toks.push(TokenView::NumberLit(run)), StateView::Consume, rest.drop_first()),
            run.len() + 1int,
        ),
{
    let c0 = run[0];
    assert((run + rest)[0] == c0);
    assert(!op_char(c0) && !whitespace_char(c0));
    assert(spec_consume(c0) == Some((Seq::<TokenView>::empty(), StateView::Number(seq![c0]))));
    assert(toks + Seq::<TokenView>::empty() =~= toks);
    assert((run + rest).drop_first() =~= run.drop_first() + rest);
    assert(forall|i: int|
        0 <= i < run.drop_first().len() ==> !kind_stop(
            LexemeKind::Number,
            #[trigger] run.drop_first()[i],
        ));
    lemma_accum_run(toks, LexemeKind::Number, seq![c0], run.drop_first(), rest);
    assert(seq![c0] + run.drop_first() =~= run);
}

/// Maximal munch for symbols, in any context: a run of alphanumeric or
/// `_` characters that opens with a letter or `_` is emitted as exactly
/// one `Symbol` carrying the whole run, never split; the character that
/// ends the run is consumed with it.
pub proof fn lemma_symbol_munch(toks: Seq<TokenView>, run: Seq<char>, rest: Seq<char>)
    requires
        run.len() > 0,
        symbol_start_char(run[0]),
        forall|i: int| 0 <= i < run.len() ==> symbol_char(#[trigger] run[i]),
        rest.len() > 0,
        !symbol_char(rest[0]),
    ensures
        spec_run(toks, StateView::Consume, run + rest) == shift_err(
            spec_run(toks.push(TokenView::Symbol(run)), StateView::Consume, rest.drop_first()),
            run.len() + 1int,
        ),
{
    let c0 = run[0];
    assert((run + rest)[0] == c0);
    assert(!op_char(c0) && !whitespace_char(c0) && !digit_char(c0));
    assert(spec_consume(c0) == Some((Seq::<TokenView>::empty(), StateView::Symbol(seq![c0]))));
    assert(toks + Seq::<TokenView>::empty() =~= toks);
    assert((run + rest).drop_first() =~= run.drop_first() + rest);
    assert(forall|i: int|
        0 <= i < run.drop_first().len() ==> !kind_stop(
            LexemeKind::Symbol,
            #[trigger] run.drop_first()[i],
        ));
    lemma_accum_run(toks, LexemeKind::Symbol, seq![c0], run.drop_first(), rest);
    assert(seq![c0] + run.drop_first() =~= run);
}

/// Maximal munch for operators, in any context: a run of
/// operator-set characters is emitted as exactly one `Op` carrying the
/// whole run, never split; the character that ends the run is consumed
/// with it.
pub proof fn lemma_operator_munch(toks: Seq<TokenView>, run: Seq<char>, rest: Seq<char>)
    requires
        run.len() > 0,
        forall|i: int| 0 <= i < run.len() ==> op_char(#[trigger] run[i]),
        rest.len() > 0,
        !op_char(rest[0]),
    ensures
        spec_run(toks, StateView::Consume, run + rest) == shift_err(
            spec_run(toks.push(TokenView::Op(run)), StateView::Consume, rest.drop_first()),
            run.len() + 1int,
        ),
{
    let c0 = run[0];
    assert((run + rest)[0] == c0);
    assert(spec_consume(c0) == Some((Seq::<TokenView>::empty(), StateView::Op(seq![c0]))));
    assert(toks + Seq::<TokenView>::empty() =~= toks);
    assert((run + rest).drop_first() =~= run.drop_first() + rest);
    assert(forall|i: int|
        0 <= i < run.drop_first().len() ==> !kind_stop(
            LexemeKind::Operator,
            #[trigger] run.drop_first()[i],
        ));
    lemma_accum_run(toks, LexemeKind::Operator, seq![c0], run.drop_first(), rest);
    assert(seq![c0] + run.drop_first() =~= run);
}

/// Round trip of a number literal: a whole input of digit and `.`
/// characters opening with a digit lexes to exactly one `NumberLit`
/// whose payload is the input itself.
pub proof fn lemma_lex_number(run: Seq<char>)
    requires
        run.len() > 0,
        digit_char(run[0]),
        forall|i: int| 0 <= i < run.len() ==> number_char(#[trigger] run[i]),
    ensures
        spec_lex(run) == Ok::<_, (int, char)>(seq![TokenView::NumberLit(run)]),
{
    assert(marker_free(run)) by {
        assert forall|p: int| !comment_marker_at(run, p) by {
            if 0 <= p && p + 2 <= run.len() {
                assert(number_char(run[p]));
            }
        }
    }
    lemma_strip_marker_free(run);
    assert(strip_comments(run).push(' ') =~= run + seq![' ']);
    lemma_number_munch(Seq::empty(), run, seq![' ']);
    assert(seq![' '].drop_first() =~= Seq::<char>::empty());
}

/// Round trip of a symbol: a whole input of alphanumeric and `_`
/// characters opening with a letter or `_` lexes to exactly one
/// `Symbol` whose payload is the input itself.
pub proof fn lemma_lex_symbol(run: Seq<char>)
    requires
        run.len() > 0,
        symbol_start_char(run[0]),
        forall|i: int| 0 <= i < run.len() ==> symbol_char(#[trigger] run[i]),
    ensures
        spec_lex(run) == Ok::<_, (int, char)>(seq![TokenView::Symbol(run)]),
{
    assert(marker_free(run)) by {
        assert forall|p: int| !comment_marker_at(run, p) by {
            if 0 <= p && p + 2 <= run.len() {
                assert(symbol_char(run[p]));
            }
        }
    }
    lemma_strip_marker_free(run);
    assert(strip_comments(run).push(' ') =~= run + seq![' ']);
    lemma_symbol_munch(Seq::empty(), run, seq![' ']);
    assert(seq![' '].drop_first() =~= Seq::<char>::empty());
}

/// Round trip of an operator: a whole input of operator-set characters
/// that spells no comment marker lexes to exactly one `Op` whose
/// payload is the input itself. (An input such as a run holding `//` or
/// `/*` is a comment to the preprocessor, not an operator.)
pub proof fn lemma_lex_operator(run: Seq<char>)
    requires
        run.len() > 0,
        forall|i: int| 0 <= i < run.len() ==> op_char(#[trigger] run[i]),
        marker_free(run),
    ensures
        spec_lex(run) == Ok::<_, (int, char)>(seq![TokenView::Op(run)]),
{
    lemma_strip_marker_free(run);
    assert(strip_comments(run).push(' ') =~= run + seq![' ']);
    assert(!op_char(' '));
    lemma_operator_munch(Seq::empty(), run, seq![' ']);
    assert(seq![' '].drop_first() =~= Seq::<char>::empty());
}

/// Round trip of a string literal: a quote, any characters other than
/// that quote and free of comment markers, and the matching quote lex
/// to exactly one `StringLit` whose payload is the text strictly
/// between the quotes. Escape sequences are not interpreted; newlines
/// and the other quote character pass through verbatim.
pub proof fn lemma_lex_string(q: char, content: Seq<char>)
    requires
        q == '\'' || q == '"',
        forall|i: int| 0 <= i < content.len() ==> #[trigger] content[i] != q,
        marker_free(content),
    ensures
        spec_lex(seq![q] + content + seq![q]) == Ok::<_, (int, char)>(
            seq![TokenView::StringLit(content)],
        ),
{
    let raw = seq![q] + content + seq![q];
    let s = raw.push(' ');
    assert(marker_free(raw)) by {
        assert forall|p: int| !comment_marker_at(raw, p) by {
            if 0 <= p && p + 2 <= raw.len() {
                if p == 0 {
                    // the pair starts on the opening quote, which is not '/'
                    assert(raw[p] == q);
                } else if p + 1 <= content.len() {
                    // the pair lies inside the content
                    assert(raw[p] == content[p - 1] && raw[p + 1] == content[p]);
                    assert(!comment_marker_at(content, p - 1));
                } else {
                    // the pair ends on the closing quote, which is
                    // neither '/' nor '*'
                    assert(p == content.len());
                    assert(raw[p + 1] == q);
                }
            }
        }
    }
    lemma_strip_marker_free(raw);
    assert(strip_comments(raw).push(' ') == s);
    let kind = if q == '\'' {
        LexemeKind::SingleQuote
    } else {
        LexemeKind::DoubleQuote
    };
    let toks = seq![TokenView::StringLit(content)];
    // the sentinel is discarded and the run ends
    assert(spec_run(toks, StateView::Consume, Seq::<char>::empty()) == Ok::<_, (int, char)>(
        (toks, StateView::Consume),
    ));
    assert(!op_char(' ') && whitespace_char(' '));
    assert(spec_lex_next((toks, StateView::Consume), ' ') == Some(
        (toks + Seq::<TokenView>::empty(), StateView::Consume),
    ));
    assert(toks + Seq::<TokenView>::empty() =~= toks);
    assert(seq![' '].drop_first() =~= Seq::<char>::empty());
    assert(spec_run(toks, StateView::Consume, seq![' ']) == Ok::<_, (int, char)>(
        (toks, StateView::Consume),
    ));
    // the content is buffered and the closing quote emits it
    assert(forall|i: int| 0 <= i < content.len() ==> !kind_stop(kind, #[trigger] content[i]));
    assert(kind_stop(kind, seq![q, ' '][0]));
    lemma_accum_run(Seq::empty(), kind, Seq::empty(), content, seq![q, ' ']);
    assert(Seq::<char>::empty() + content =~= content);
    assert(Seq::<TokenView>::empty().push(
        kind_token(kind, Seq::<char>::empty() + content),
    ) =~= toks);
    assert(seq![q, ' '].drop_first() =~= seq![' ']);
    assert(spec_run(Seq::empty(), kind_state(kind, Seq::empty()), content + seq![q, ' '])
        == Ok::<_, (int, char)>((toks, StateView::Consume)));
    // the opening quote starts the string with an empty buffer
    assert(s[0] == q);
    assert(spec_consume(q) == Some(
        (Seq::<TokenView>::empty(), kind_state(kind, Seq::<char>::empty())),
    ));
    assert(Seq::<TokenView>::empty() + Seq::<TokenView>::empty() =~= Seq::<TokenView>::empty());
    assert(s.drop_first() =~= content + seq![q, ' ']);
    assert(spec_run(Seq::empty(), StateView::Consume, s) == Ok::<_, (int, char)>(
        (toks, StateView::Consume),
    ));
}

/// Comment deletion at the level of the lexer: a block comment between
/// two pieces of input is deleted outright, and the input lexes exactly
/// as the two pieces joined with nothing in between — two lexemes
/// separated only by a comment become one.
pub proof fn lemma_lex_block_comment_deleted(a: Seq<char>, inner: Seq<char>, b: Seq<char>)
    requires
        marker_free(a),
        a.len() > 0 ==> a.last() != '/',
        forall|j: int|
            0 <= j && j + 2 <= inner.len() ==> !(#[trigger] inner[j] == '*' && inner[j + 1] == '/'),
    ensures
        spec_lex(a + seq!['/', '*'] + inner + seq!['*', '/'] + b) == spec_lex(a + b),
{
    lemma_block_comment_deleted(a, inner, b);
}

} // verus!
