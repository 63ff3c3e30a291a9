use lexer::data::Token;
use lexer::lexer::lex;

#[test]
fn should_have_stuff() {
    let text = String::from(
        r#",,;;[](
{}) ))
'blar x " ()'
" blah ' othe 4"
123.4
symbol
blarg ikky
_123
//12 blah /
/* bla
blah*/
*+
+
_blah_13blah
"#,
    );
    let o = lex(text).unwrap();
    assert_eq!(o.len(), 22);
}

#[test]
fn should_handle_multiline_string() {
    let text = String::from(
        r#"'symbol_ 

123'"#,
    );

    let o = lex(text).unwrap();
    assert_eq!(o.len(), 1);
    match &o[0] {
        Token::StringLit(n) => assert_eq!(n, "symbol_ \n\n123"),
        _ => assert!(false, "Not a number."),
    }
}

#[test]
fn should_handle_single_string() {
    let text = String::from(r#"'symbol_ 123'"#);

    let o = lex(text).unwrap();
    assert_eq!(o.len(), 1);
    match &o[0] {
        Token::StringLit(n) => assert_eq!(n, "symbol_ 123"),
        _ => assert!(false, "Not a number."),
    }
}

#[test]
fn should_handle_double_string() {
    let text = String::from(r#""symbol_12 3""#);

    let o = lex(text).unwrap();
    assert_eq!(o.len(), 1);
    match &o[0] {
        Token::StringLit(n) => assert_eq!(n, "symbol_12 3"),
        _ => assert!(false, "Not a number."),
    }
}

#[test]
fn should_handle_symbol() {
    let text = String::from(r#"symbol_123"#);

    let o = lex(text).unwrap();
    assert_eq!(o.len(), 1);
    match &o[0] {
        Token::Symbol(n) => assert_eq!(n, "symbol_123"),
        _ => assert!(false, "Not a number."),
    }
}

#[test]
fn should_handle_number_with_decimal() {
    let text = String::from(r#"1234.5678"#);

    let o = lex(text).unwrap();
    assert_eq!(o.len(), 1);
    match &o[0] {
        Token::NumberLit(n) => assert_eq!(n, "1234.5678"),
        _ => assert!(false, "Not a number."),
    }
}

#[test]
fn should_handle_number() {
    let text = String::from(r#"1234"#);

    let o = lex(text).unwrap();
    assert_eq!(o.len(), 1);
    match &o[0] {
        Token::NumberLit(n) => assert_eq!(n, "1234"),
        _ => assert!(false, "Not a number."),
    }
}

#[test]
fn should_consume_last_item_in_file() {
    let text = String::from(r#"symbol1"#);

    let o = lex(text).unwrap();
    assert_eq!(o.len(), 1);
    match &o[0] {
        Token::Symbol(n) => assert_eq!(n, "symbol1"),
        _ => assert!(false, "Not a symbol."),
    }
}

#[test]
fn should_handle_block_comment_on_multiple_line() {
    let text = String::from(
        r#"symbol1
            /* symbol not present 
            symbol2*/
            "#,
    );

    let o = lex(text).unwrap();
    assert_eq!(o.len(), 1);
}

#[test]
fn should_handle_block_comment() {
    let text = String::from(
        r#"symbol1
            /* symbol not present */
            symbol2
            "#,
    );

    let o = lex(text).unwrap();
    assert_eq!(o.len(), 2);
}

#[test]
fn should_handle_line_comment() {
    let text = String::from(
        r#"symbol1
            // symbol not present
            symbol2
            "#,
    );

    let o = lex(text).unwrap();
    assert_eq!(o.len(), 2);
}
