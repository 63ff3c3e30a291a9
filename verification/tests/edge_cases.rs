use lexer::data::{LexError, Token};
use lexer::lexer::{consume, consume_until, lex, lex_next, AccumState, LexemeKind, TokenAccum};

fn sym(s: &str) -> Token {
    Token::Symbol(String::from(s))
}

fn num(s: &str) -> Token {
    Token::NumberLit(String::from(s))
}

fn op(s: &str) -> Token {
    Token::Op(String::from(s))
}

#[test]
fn empty_input_gives_no_tokens() {
    assert_eq!(lex(String::new()).unwrap(), vec![]);
}

#[test]
fn whitespace_only_input_gives_no_tokens() {
    assert_eq!(lex(String::from(" \t\r\n  \n")).unwrap(), vec![]);
}

#[test]
fn each_punctuation_mark_is_its_own_token() {
    let o = lex(String::from(",;()[]{}")).unwrap();
    assert_eq!(
        o,
        vec![
            Token::Comma,
            Token::SemiColon,
            Token::LParen,
            Token::RParen,
            Token::LSquare,
            Token::RSquare,
            Token::LCurly,
            Token::RCurly,
        ]
    );
}

#[test]
fn block_comment_joins_lexemes() {
    // deletion, not blanking: the comment leaves nothing behind, so the
    // two halves meet and form a single symbol
    let o = lex(String::from("ab/*x*/cd")).unwrap();
    assert_eq!(o, vec![sym("abcd")]);
}

#[test]
fn line_comment_runs_to_end_of_line() {
    let o = lex(String::from("symbol1\n// comment\nsymbol2\n")).unwrap();
    assert_eq!(o, vec![sym("symbol1"), sym("symbol2")]);
}

#[test]
fn block_comment_spans_lines() {
    let o = lex(String::from("symbol1\n/* comment\nspanning lines */\n")).unwrap();
    assert_eq!(o, vec![sym("symbol1")]);
}

#[test]
fn inserted_whitespace_between_tokens_changes_nothing() {
    let plain = lex(String::from("a 1")).unwrap();
    assert_eq!(plain, vec![sym("a"), num("1")]);
    assert_eq!(lex(String::from("a  1")).unwrap(), plain);
    assert_eq!(lex(String::from("a \t 1")).unwrap(), plain);
    assert_eq!(lex(String::from("a \n\n 1\n")).unwrap(), plain);
}

#[test]
fn operator_run_is_one_token() {
    let o = lex(String::from("<=>")).unwrap();
    assert_eq!(o, vec![op("<=>")]);
}

#[test]
fn number_keeps_every_digit_and_dot() {
    // no validation of the shape: two dots stay in one number lexeme
    let o = lex(String::from("1.2.3")).unwrap();
    assert_eq!(o, vec![num("1.2.3")]);
}

#[test]
fn symbol_may_start_with_underscore() {
    let o = lex(String::from("_123")).unwrap();
    assert_eq!(o, vec![sym("_123")]);
}

#[test]
fn stop_character_after_number_is_consumed() {
    // the comma that ends the number is consumed with it, not emitted
    let o = lex(String::from("1234,")).unwrap();
    assert_eq!(o, vec![num("1234")]);
}

#[test]
fn whitespace_after_number_keeps_the_comma() {
    let o = lex(String::from("1234 ,")).unwrap();
    assert_eq!(o, vec![num("1234"), Token::Comma]);
}

#[test]
fn string_buffers_other_quote_verbatim() {
    let o = lex(String::from("\"a ' b\"")).unwrap();
    assert_eq!(o, vec![Token::StringLit(String::from("a ' b"))]);
}

#[test]
fn unterminated_string_is_dropped() {
    let o = lex(String::from("'abc")).unwrap();
    assert_eq!(o, vec![]);
}

#[test]
fn line_comment_may_end_at_end_of_text() {
    // the sentinel space is appended after comments are deleted, so the
    // comment cannot take it along and the number is still emitted
    let o = lex(String::from("123//x")).unwrap();
    assert_eq!(o, vec![num("123")]);
}

#[test]
fn unclosed_block_marker_is_no_comment() {
    let o = lex(String::from("/*bc")).unwrap();
    assert_eq!(o, vec![op("/*"), sym("c")]);
}

#[test]
fn unrecognized_character_reports_itself_and_its_position() {
    let e = lex(String::from("\\")).unwrap_err();
    assert_eq!(e, LexError { character: '\\', position: 0 });
    let e = lex(String::from("ab \\")).unwrap_err();
    assert_eq!(e, LexError { character: '\\', position: 3 });
}

#[test]
fn unrecognized_character_position_counts_in_stripped_text() {
    // "x/*c*/ \\": after deletion the stream is "x \" plus the sentinel
    let e = lex(String::from("x/*c*/ \\")).unwrap_err();
    assert_eq!(e, LexError { character: '\\', position: 2 });
}

#[test]
fn symbols_may_reach_beyond_ascii() {
    let o = lex(String::from("héllo")).unwrap();
    assert_eq!(o, vec![sym("héllo")]);
    let o = lex(String::from("é1_x")).unwrap();
    assert_eq!(o, vec![sym("é1_x")]);
}

#[test]
fn mixed_input_keeps_source_order() {
    let o = lex(String::from("f(x1, 'lit') >= 2.5; // trailing\n")).unwrap();
    // the '(' after `f`, the ',' after `x1` and the ';' after `2.5` are
    // each consumed as the stop character of the lexeme before them
    assert_eq!(
        o,
        vec![
            sym("f"),
            sym("x1"),
            Token::StringLit(String::from("lit")),
            Token::RParen,
            op(">="),
            num("2.5"),
        ]
    );
}

#[test]
fn machine_steps_compose() {
    let mut ta = TokenAccum::new();
    for (i, c) in "12 ,".chars().enumerate() {
        ta = lex_next(ta, (i, c)).unwrap();
    }
    assert_eq!(ta.tokens, vec![num("12"), Token::Comma]);
}

#[test]
fn classifier_reports_unknown_characters() {
    let e = consume(vec![], (7, '\\')).unwrap_err();
    assert_eq!(e, LexError { character: '\\', position: 7 });
}

#[test]
fn accumulator_emits_on_stop_character() {
    let ta = consume_until(vec!['a', 'b'], (5, '!'), vec![], LexemeKind::Symbol);
    assert_eq!(ta.tokens, vec![sym("ab")]);
    assert!(matches!(ta.state, AccumState::Consume));
}

#[test]
fn accumulator_buffers_other_characters() {
    let ta = consume_until(vec!['a'], (1, 'b'), vec![], LexemeKind::Symbol);
    assert_eq!(ta.tokens, vec![]);
    match ta.state {
        AccumState::Symbol(buf) => assert_eq!(buf, vec!['a', 'b']),
        _ => assert!(false, "Not a symbol state."),
    }
}
