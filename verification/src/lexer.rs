//! The tokenizer: a small finite-state machine folded over the
//! character stream.
//!
//! The stream is the input text with comments deleted and one
//! sentinel space appended. The machine carries the tokens emitted so far and
//! an accumulation state: either it is consuming (no lexeme pending),
//! or it is inside a string, number, symbol or operator lexeme with the
//! characters collected so far. The sentinel guarantees that a number,
//! symbol or operator lexeme still open at the end of the text is
//! emitted rather than dropped; an unterminated string literal, whose
//! lexeme only the matching quote can close, is dropped.
//!
//! The character that ends a number, symbol or operator lexeme is
//! consumed by that step and is not dispatched again: a punctuation
//! mark standing right after such a lexeme, with no whitespace between,
//! is discarded rather than emitted. This is a deliberate rule of the
//! language, stated as such in the contracts rather than fixed: a
//! lexeme and a following token are expected to be parted by
//! whitespace.
//!
//! [`spec_lex`] is the machine stated over sequences; [`lex`] is the
//! executable pipeline, proved to return exactly what [`spec_lex`]
//! says.

use crate::classes::{
    digit_char,
    is_digit_char,
    is_number_char,
    is_op_char,
    is_symbol_char,
    is_symbol_start_char,
    is_whitespace_char,
    number_char,
    op_char,
    symbol_char,
    symbol_start_char,
    whitespace_char,
};
use crate::comments::{remove_comments, strip_comments};
use crate::data::{LexError, Token, TokenView};
use crate::text::{chars_to_string, string_to_chars};
use vstd::prelude::*;

verus! {

/// The accumulation state of the machine: consuming, or inside one of
/// the four multi-character lexeme forms with the characters buffered
/// so far. Single- and double-quoted strings are tracked apart, since
/// only the quote that opened a string may close it.
#[derive(Debug)]
pub enum AccumState {
    Consume,
    SingleQuoteString(Vec<char>),
    DoubleQuoteString(Vec<char>),
    Number(Vec<char>),
    Symbol(Vec<char>),
    Op(Vec<char>),
}

/// The mathematical model of an [`AccumState`], with each buffer
/// abstracted to its character sequence.
pub enum StateView {
    Consume,
    SingleQuoteString(Seq<char>),
    DoubleQuoteString(Seq<char>),
    Number(Seq<char>),
    Symbol(Seq<char>),
    Op(Seq<char>),
}

impl View for AccumState {
    type V = StateView;

    open spec fn view(&self) -> StateView {
        match self {
            AccumState::Consume => StateView::Consume,
            AccumState::SingleQuoteString(b) => StateView::SingleQuoteString(b@),
            AccumState::DoubleQuoteString(b) => StateView::DoubleQuoteString(b@),
            AccumState::Number(b) => StateView::Number(b@),
            AccumState::Symbol(b) => StateView::Symbol(b@),
            AccumState::Op(b) => StateView::Op(b@),
        }
    }
}

/// The value threaded through the fold: the tokens emitted so far and
/// the current accumulation state.
#[derive(Debug)]
pub struct TokenAccum {
    pub tokens: Vec<Token>,
    pub state: AccumState,
}

impl View for TokenAccum {
    type V = (Seq<TokenView>, StateView);

    open spec fn view(&self) -> (Seq<TokenView>, StateView) {
        (self.tokens.deep_view(), self.state@)
    }
}

impl TokenAccum {
    /// The starting value: no tokens, consuming.
    pub fn new() -> (r: TokenAccum)
        ensures
            r@ == (Seq::<TokenView>::empty(), StateView::Consume),
    {
        let r = TokenAccum { tokens: Vec::new(), state: AccumState::Consume };
        proof {
            assert(r.tokens.deep_view() =~= Seq::<TokenView>::empty());
        }
        r
    }
}

/// One of the four multi-character lexeme forms. It names, for the
/// accumulate-until-stop step, which characters end the lexeme and
/// which token is built from the buffer — one parameterized rule
/// instead of four copies.
#[derive(Clone, Copy)]
pub enum LexemeKind {
    SingleQuote,
    DoubleQuote,
    Number,
    Symbol,
    Operator,
}

/// Whether `c` ends a lexeme of the given kind: the matching quote for
/// a string; for a number, symbol or operator, any character outside
/// the form's own character class.
pub open spec fn kind_stop(k: LexemeKind, c: char) -> bool {
    match k {
        LexemeKind::SingleQuote => c == '\'',
        LexemeKind::DoubleQuote => c == '"',
        LexemeKind::Number => !number_char(c),
        LexemeKind::Symbol => !symbol_char(c),
        LexemeKind::Operator => !op_char(c),
    }
}

/// The token a completed lexeme of the given kind makes of its buffer.
pub open spec fn kind_token(k: LexemeKind, buf: Seq<char>) -> TokenView {
    match k {
        LexemeKind::SingleQuote => TokenView::StringLit(buf),
        LexemeKind::DoubleQuote => TokenView::StringLit(buf),
        LexemeKind::Number => TokenView::NumberLit(buf),
        LexemeKind::Symbol => TokenView::Symbol(buf),
        LexemeKind::Operator => TokenView::Op(buf),
    }
}

/// The accumulation state that holds a buffer of the given kind.
pub open spec fn kind_state(k: LexemeKind, buf: Seq<char>) -> StateView {
    match k {
        LexemeKind::SingleQuote => StateView::SingleQuoteString(buf),
        LexemeKind::DoubleQuote => StateView::DoubleQuoteString(buf),
        LexemeKind::Number => StateView::Number(buf),
        LexemeKind::Symbol => StateView::Symbol(buf),
        LexemeKind::Operator => StateView::Op(buf),
    }
}

/// One step of the classifier, from the consuming state: what the
/// character emits and which state follows, or `None` for a character
/// that belongs to no rule of the language. The rules apply in this
/// order: operator characters open an operator lexeme; whitespace is
/// discarded; a digit opens a number; a letter or `_` opens a symbol;
/// the eight punctuation marks emit their token at once; a quote opens
/// a string with an empty buffer (the quote itself is not buffered).
pub open spec fn spec_consume(c: char) -> Option<(Seq<TokenView>, StateView)> {
    if op_char(c) {
        Some((Seq::empty(), StateView::Op(seq![c])))
    } else if whitespace_char(c) {
        Some((Seq::empty(), StateView::Consume))
    } else if digit_char(c) {
        Some((Seq::empty(), StateView::Number(seq![c])))
    } else if symbol_start_char(c) {
        Some((Seq::empty(), StateView::Symbol(seq![c])))
    } else if c == ',' {
        Some((seq![TokenView::Comma], StateView::Consume))
    } else if c == ';' {
        Some((seq![TokenView::SemiColon], StateView::Consume))
    } else if c == '(' {
        Some((seq![TokenView::LParen], StateView::Consume))
    } else if c == ')' {
        Some((seq![TokenView::RParen], StateView::Consume))
    } else if c == '[' {
        Some((seq![TokenView::LSquare], StateView::Consume))
    } else if c == ']' {
        Some((seq![TokenView::RSquare], StateView::Consume))
    } else if c == '{' {
        Some((seq![TokenView::LCurly], StateView::Consume))
    } else if c == '}' {
        Some((seq![TokenView::RCurly], StateView::Consume))
    } else if c == '\'' {
        Some((Seq::empty(), StateView::SingleQuoteString(Seq::empty())))
    } else if c == '"' {
        Some((Seq::empty(), StateView::DoubleQuoteString(Seq::empty())))
    } else {
        None
    }
}

/// One step of the accumulator: a stopping character emits the token
/// built from the buffer and returns to consuming — the stopping
/// character itself is consumed by this step; any other character is
/// appended to the buffer.
pub open spec fn spec_accum(
    toks: Seq<TokenView>,
    k: LexemeKind,
    buf: Seq<char>,
    c: char,
) -> (Seq<TokenView>, StateView) {
    if kind_stop(k, c) {
        (toks.push(kind_token(k, buf)), StateView::Consume)
    } else {
        (toks, kind_state(k, buf.push(c)))
    }
}

/// One step of the whole machine on one character: the classifier when
/// consuming, the accumulator inside a lexeme. `None` only for an
/// unrecognized character met while consuming.
pub open spec fn spec_lex_next(t: (Seq<TokenView>, StateView), c: char) -> Option<
    (Seq<TokenView>, StateView),
> {
    match t.1 {
        StateView::Consume => match spec_consume(c) {
            Some((emit, st)) => Some((t.0 + emit, st)),
            None => None,
        },
        StateView::SingleQuoteString(buf) => Some(
            spec_accum(t.0, LexemeKind::SingleQuote, buf, c),
        ),
        StateView::DoubleQuoteString(buf) => Some(
            spec_accum(t.0, LexemeKind::DoubleQuote, buf, c),
        ),
        StateView::Number(buf) => Some(spec_accum(t.0, LexemeKind::Number, buf, c)),
        StateView::Symbol(buf) => Some(spec_accum(t.0, LexemeKind::Symbol, buf, c)),
        StateView::Op(buf) => Some(spec_accum(t.0, LexemeKind::Operator, buf, c)),
    }
}

/// The fold of [`spec_lex_next`] over a character sequence, from the
/// given tokens and state. On an unrecognized character it stops with
/// that character and its index into `s`.
pub open spec fn spec_run(toks: Seq<TokenView>, st: StateView, s: Seq<char>) -> Result<
    (Seq<TokenView>, StateView),
    (int, char),
>
    decreases s.len(),
{
    if s.len() == 0 {
        Ok((toks, st))
    } else {
        match spec_lex_next((toks, st), s[0]) {
            None => Err((0, s[0])),
            Some((toks2, st2)) => shift_err(spec_run(toks2, st2, s.drop_first()), 1),
        }
    }
}

/// The same outcome with the error position moved by `d`: positions of
/// a run over a suffix, re-based to the whole stream.
pub open spec fn shift_err(
    r: Result<(Seq<TokenView>, StateView), (int, char)>,
    d: int,
) -> Result<(Seq<TokenView>, StateView), (int, char)> {
    match r {
        Ok(v) => Ok(v),
        Err((p, c)) => Err((p + d, c)),
    }
}

/// What the lexer returns on a text: comments are deleted, one
/// sentinel space is appended to the outcome, and the machine runs over
/// that stream from the start state. The final accumulation state is discarded: with the
/// sentinel, only an unterminated string literal can still hold a
/// buffer there, and its characters are dropped.
pub open spec fn spec_lex(s: Seq<char>) -> Result<Seq<TokenView>, (int, char)> {
    match spec_run(Seq::empty(), StateView::Consume, strip_comments(s).push(' ')) {
        Ok((toks, st)) => Ok(toks),
        Err(e) => Err(e),
    }
}

/// The classifier: one step from the consuming state, as
/// [`spec_consume`] says. `char_index` pairs the character with its
/// index in the stream, which an error reports.
pub fn consume(tokens: Vec<Token>, char_index: (usize, char)) -> (r: Result<TokenAccum, LexError>)
    ensures
        match spec_consume(char_index.1) {
            Some(step) => match r {
                Ok(ta) => ta@ == (tokens.deep_view() + step.0, step.1),
                Err(_) => false,
            },
            None => match r {
                Ok(_) => false,
                Err(e) => e.character == char_index.1 && e.position == char_index.0,
            },
        },
{
    let (position, c) = char_index;
    let ghost toks0 = tokens.deep_view();
    let mut tokens = tokens;
    if is_op_char(c) {
        let mut buf: Vec<char> = Vec::new();
        buf.push(c);
        assert(buf@ =~= seq![c]);
        let r = TokenAccum { tokens, state: AccumState::Op(buf) };
        proof {
            assert(r@.0 =~= toks0 + Seq::<TokenView>::empty());
        }
        Ok(r)
    } else if is_whitespace_char(c) {
        let r = TokenAccum { tokens, state: AccumState::Consume };
        proof {
            assert(r@.0 =~= toks0 + Seq::<TokenView>::empty());
        }
        Ok(r)
    } else if is_digit_char(c) {
        let mut buf: Vec<char> = Vec::new();
        buf.push(c);
        assert(buf@ =~= seq![c]);
        let r = TokenAccum { tokens, state: AccumState::Number(buf) };
        proof {
            assert(r@.0 =~= toks0 + Seq::<TokenView>::empty());
        }
        Ok(r)
    } else if is_symbol_start_char(c) {
        let mut buf: Vec<char> = Vec::new();
        buf.push(c);
        assert(buf@ =~= seq![c]);
        let r = TokenAccum { tokens, state: AccumState::Symbol(buf) };
        proof {
            assert(r@.0 =~= toks0 + Seq::<TokenView>::empty());
        }
        Ok(r)
    } else if c == ',' || c == ';' || c == '(' || c == ')' || c == '[' || c == ']' || c == '{' || c
        == '}' {
        let t = match c {
            ',' => Token::Comma,
            ';' => Token::SemiColon,
            '(' => Token::LParen,
            ')' => Token::RParen,
            '[' => Token::LSquare,
            ']' => Token::RSquare,
            '{' => Token::LCurly,
            _ => Token::RCurly,
        };
        let ghost tv = t@;
        tokens.push(t);
        let r = TokenAccum { tokens, state: AccumState::Consume };
        proof {
            assert(r@.0 =~= toks0 + seq![tv]);
        }
        Ok(r)
    } else if c == '\'' {
        let buf: Vec<char> = Vec::new();
        assert(buf@ =~= Seq::<char>::empty());
        let r = TokenAccum { tokens, state: AccumState::SingleQuoteString(buf) };
        proof {
            assert(r@.0 =~= toks0 + Seq::<TokenView>::empty());
        }
        Ok(r)
    } else if c == '"' {
        let buf: Vec<char> = Vec::new();
        assert(buf@ =~= Seq::<char>::empty());
        let r = TokenAccum { tokens, state: AccumState::DoubleQuoteString(buf) };
        proof {
            assert(r@.0 =~= toks0 + Seq::<TokenView>::empty());
        }
        Ok(r)
    } else {
        Err(LexError { character: c, position })
    }
}

/// The accumulator: one step inside a lexeme of the given kind, as
/// [`spec_accum`] says — the one rule that all four multi-character
/// lexeme forms instantiate.
pub fn consume_until(
    buffer: Vec<char>,
    char_index: (usize, char),
    tokens: Vec<Token>,
    kind: LexemeKind,
) -> (r: TokenAccum)
    ensures
        r@ == spec_accum(tokens.deep_view(), kind, buffer@, char_index.1),
{
    let (_, c) = char_index;
    let ghost toks0 = tokens.deep_view();
    let ghost buf0 = buffer@;
    let stop = match kind {
        LexemeKind::SingleQuote => c == '\'',
        LexemeKind::DoubleQuote => c == '"',
        LexemeKind::Number => !is_number_char(c),
        LexemeKind::Symbol => !is_symbol_char(c),
        LexemeKind::Operator => !is_op_char(c),
    };
    if stop {
        let text = chars_to_string(&buffer);
        let t = match kind {
            LexemeKind::SingleQuote => Token::StringLit(text),
            LexemeKind::DoubleQuote => Token::StringLit(text),
            LexemeKind::Number => Token::NumberLit(text),
            LexemeKind::Symbol => Token::Symbol(text),
            LexemeKind::Operator => Token::Op(text),
        };
        let ghost tv = t@;
        let mut tokens = tokens;
        tokens.push(t);
        let r = TokenAccum { tokens, state: AccumState::Consume };
        proof {
            assert(tv == kind_token(kind, buf0));
            assert(r@.0 =~= toks0.push(tv));
        }
        r
    } else {
        let mut buffer = buffer;
        buffer.push(c);
        let state = match kind {
            LexemeKind::SingleQuote => AccumState::SingleQuoteString(buffer),
            LexemeKind::DoubleQuote => AccumState::DoubleQuoteString(buffer),
            LexemeKind::Number => AccumState::Number(buffer),
            LexemeKind::Symbol => AccumState::Symbol(buffer),
            LexemeKind::Operator => AccumState::Op(buffer),
        };
        TokenAccum { tokens, state }
    }
}

/// One step of the whole machine, as [`spec_lex_next`] says: the
/// classifier when consuming, the accumulator inside a lexeme. Only the
/// classifier can fail, on an unrecognized character.
pub fn lex_next(ta: TokenAccum, char_index: (usize, char)) -> (r: Result<TokenAccum, LexError>)
    ensures
        match spec_lex_next(ta@, char_index.1) {
            Some(t2) => match r {
                Ok(ta2) => ta2@ == t2,
                Err(_) => false,
            },
            None => match r {
                Ok(_) => false,
                Err(e) => e.character == char_index.1 && e.position == char_index.0,
            },
        },
{
    match ta.state {
        AccumState::Consume => consume(ta.tokens, char_index),
        AccumState::SingleQuoteString(buffer) => Ok(
            consume_until(buffer, char_index, ta.tokens, LexemeKind::SingleQuote),
        ),
        AccumState::DoubleQuoteString(buffer) => Ok(
            consume_until(buffer, char_index, ta.tokens, LexemeKind::DoubleQuote),
        ),
        AccumState::Number(buffer) => Ok(
            consume_until(buffer, char_index, ta.tokens, LexemeKind::Number),
        ),
        AccumState::Symbol(buffer) => Ok(
            consume_until(buffer, char_index, ta.tokens, LexemeKind::Symbol),
        ),
        AccumState::Op(buffer) => Ok(
            consume_until(buffer, char_index, ta.tokens, LexemeKind::Operator),
        ),
    }
}

/// Tokenizes a text: deletes comments, appends the sentinel space, and
/// folds the machine over the characters, left to right.
///
/// Returns the tokens in source order, exactly as [`spec_lex`] gives
/// them, or, on the first character that belongs to no rule of the
/// language, an error carrying that character and its index into the
/// comment-stripped, sentinel-padded stream.
pub fn lex(text: String) -> (r: Result<Vec<Token>, LexError>)
    ensures
        match spec_lex(text@) {
            Ok(toks) => match r {
                Ok(v) => v.deep_view() == toks,
                Err(_) => false,
            },
            Err((p, c)) => match r {
                Ok(_) => false,
                Err(e) => e.position == p && e.character == c,
            },
        },
{
    let cs = string_to_chars(text.as_str());
    let mut stream = remove_comments(&cs);
    stream.push(' ');
    let ghost full = stream@;
    let mut ta = TokenAccum::new();
    let mut i: usize = 0;
    proof {
        assert(full.skip(0) =~= full);
    }
    while i < stream.len()
        invariant
            i <= stream@.len(),
            stream@ == full,
            full == strip_comments(text@).push(' '),
            spec_run(Seq::empty(), StateView::Consume, full) == shift_err(
                spec_run(ta@.0, ta@.1, full.skip(i as int)),
                i as int,
            ),
        decreases stream@.len() - i,
    {
        let ghost pre = ta@;
        let c = stream[i];
        assert(full.skip(i as int)[0] == c);
        match lex_next(ta, (i, c)) {
            Ok(ta2) => {
                proof {
                    assert(full.skip(i as int).drop_first() =~= full.skip(i as int + 1));
                }
                ta = ta2;
                i = i + 1;
            },
            Err(e) => {
                proof {
                    assert(spec_run(pre.0, pre.1, full.skip(i as int)) == Err::<
                        (Seq<TokenView>, StateView),
                        _,
                    >((0int, c)));
                }
                return Err(e);
            },
        }
    }
    proof {
        assert(full.skip(i as int) =~= Seq::<char>::empty());
        assert(spec_run(ta@.0, ta@.1, full.skip(i as int)) == Ok::<_, (int, char)>((ta@.0, ta@.1)));
    }
    Ok(ta.tokens)
}

} // verus!
