use monkey_lexer::lexer::{new, tokenize};
use monkey_lexer::token::{lookup_ident, TokenType};

fn kinds_of(input: &str) -> Vec<TokenType> {
    tokenize(input).iter().map(|t| t.t_type).collect()
}

#[test]
fn empty_input_yields_only_eof() {
    let toks = tokenize("");
    assert_eq!(toks.len(), 1);
    assert_eq!(toks[0].t_type, TokenType::Eof);
    assert_eq!(toks[0].literal, "");
}

#[test]
fn whitespace_only_input_yields_only_eof() {
    let toks = tokenize(" \t\r\n  \n");
    assert_eq!(toks.len(), 1);
    assert_eq!(toks[0].t_type, TokenType::Eof);
}

#[test]
fn punctuation_run() {
    assert_eq!(
        kinds_of("=+(){},;"),
        vec![
            TokenType::Assign,
            TokenType::Plus,
            TokenType::Lparen,
            TokenType::Rparen,
            TokenType::Lbrace,
            TokenType::Rbrace,
            TokenType::Comma,
            TokenType::Semicolon,
            TokenType::Eof,
        ]
    );
}

#[test]
fn comparison_operators() {
    let toks = tokenize("10 == 10; 10 != 9;");
    let expected: Vec<(TokenType, &str)> = vec![
        (TokenType::Int, "10"),
        (TokenType::Eq, "=="),
        (TokenType::Int, "10"),
        (TokenType::Semicolon, ";"),
        (TokenType::Int, "10"),
        (TokenType::NotEq, "!="),
        (TokenType::Int, "9"),
        (TokenType::Semicolon, ";"),
        (TokenType::Eof, ""),
    ];
    assert_eq!(toks.len(), expected.len());
    for (tok, (t_type, literal)) in toks.iter().zip(expected) {
        assert_eq!(tok.t_type, t_type);
        assert_eq!(tok.literal, literal);
    }
}

#[test]
fn let_statement() {
    let toks = tokenize("let five = 5;");
    let expected: Vec<(TokenType, &str)> = vec![
        (TokenType::Let, "let"),
        (TokenType::Ident, "five"),
        (TokenType::Assign, "="),
        (TokenType::Int, "5"),
        (TokenType::Semicolon, ";"),
        (TokenType::Eof, ""),
    ];
    assert_eq!(toks.len(), expected.len());
    for (tok, (t_type, literal)) in toks.iter().zip(expected) {
        assert_eq!(tok.t_type, t_type);
        assert_eq!(tok.literal, literal);
    }
}

#[test]
fn digits_do_not_continue_an_identifier() {
    let toks = tokenize("foo1");
    let expected: Vec<(TokenType, &str)> =
        vec![(TokenType::Ident, "foo"), (TokenType::Int, "1"), (TokenType::Eof, "")];
    assert_eq!(toks.len(), expected.len());
    for (tok, (t_type, literal)) in toks.iter().zip(expected) {
        assert_eq!(tok.t_type, t_type);
        assert_eq!(tok.literal, literal);
    }
}

#[test]
fn trailing_assign_and_bang_stay_single() {
    assert_eq!(kinds_of("="), vec![TokenType::Assign, TokenType::Eof]);
    assert_eq!(kinds_of("!"), vec![TokenType::Bang, TokenType::Eof]);
    assert_eq!(kinds_of("a ="), vec![TokenType::Ident, TokenType::Assign, TokenType::Eof]);
    assert_eq!(kinds_of("a !"), vec![TokenType::Ident, TokenType::Bang, TokenType::Eof]);
}

#[test]
fn eof_is_sticky() {
    let mut l = new("+");
    assert_eq!(l.next_token().t_type, TokenType::Plus);
    for _ in 0..5 {
        let tok = l.next_token();
        assert_eq!(tok.t_type, TokenType::Eof);
        assert_eq!(tok.literal, "");
    }
}

#[test]
fn identical_texts_scan_identically() {
    let text = "let add = fn(x,y) { x+y; };";
    let first = tokenize(text);
    let second = tokenize(&String::from(text));
    assert_eq!(first.len(), second.len());
    for (a, b) in first.iter().zip(second.iter()) {
        assert_eq!(a.t_type, b.t_type);
        assert_eq!(a.literal, b.literal);
    }
}

#[test]
fn unrecognized_characters_become_illegal_tokens() {
    let toks = tokenize("a @ b");
    let expected: Vec<(TokenType, &str)> = vec![
        (TokenType::Ident, "a"),
        (TokenType::Illegal, ""),
        (TokenType::Ident, "b"),
        (TokenType::Eof, ""),
    ];
    assert_eq!(toks.len(), expected.len());
    for (tok, (t_type, literal)) in toks.iter().zip(expected) {
        assert_eq!(tok.t_type, t_type);
        assert_eq!(tok.literal, literal);
    }
}

#[test]
fn embedded_null_is_illegal_not_eof() {
    let toks = tokenize("a\u{0}b");
    let expected: Vec<(TokenType, &str)> = vec![
        (TokenType::Ident, "a"),
        (TokenType::Illegal, ""),
        (TokenType::Ident, "b"),
        (TokenType::Eof, ""),
    ];
    assert_eq!(toks.len(), expected.len());
    for (tok, (t_type, literal)) in toks.iter().zip(expected) {
        assert_eq!(tok.t_type, t_type);
        assert_eq!(tok.literal, literal);
    }

    let mut l = new("\u{0}");
    assert_eq!(l.next_token().t_type, TokenType::Illegal);
    for _ in 0..3 {
        assert_eq!(l.next_token().t_type, TokenType::Eof);
    }
}

#[test]
fn underscores_scan_as_identifiers() {
    let toks = tokenize("_foo_bar");
    assert_eq!(toks[0].t_type, TokenType::Ident);
    assert_eq!(toks[0].literal, "_foo_bar");
    assert_eq!(toks[1].t_type, TokenType::Eof);
}

#[test]
fn keyword_lookup_is_exact() {
    assert_eq!(lookup_ident("fn"), TokenType::Function);
    assert_eq!(lookup_ident("let"), TokenType::Let);
    assert_eq!(lookup_ident("true"), TokenType::True);
    assert_eq!(lookup_ident("false"), TokenType::False);
    assert_eq!(lookup_ident("if"), TokenType::If);
    assert_eq!(lookup_ident("else"), TokenType::Else);
    assert_eq!(lookup_ident("return"), TokenType::Return);
    assert_eq!(lookup_ident("lets"), TokenType::Ident);
    assert_eq!(lookup_ident("le"), TokenType::Ident);
    assert_eq!(lookup_ident("Fn"), TokenType::Ident);
    assert_eq!(lookup_ident("LET"), TokenType::Ident);
    assert_eq!(lookup_ident(""), TokenType::Ident);
    assert_eq!(lookup_ident("returns"), TokenType::Ident);
}

#[test]
fn display_strings() {
    assert_eq!(TokenType::Illegal.as_str(), "ILLEGAL");
    assert_eq!(TokenType::Eof.as_str(), "EOF");
    assert_eq!(TokenType::Ident.as_str(), "IDENT");
    assert_eq!(TokenType::Int.as_str(), "INT");
    assert_eq!(TokenType::Assign.as_str(), "=");
    assert_eq!(TokenType::Function.as_str(), "FUNCTION");
    assert_eq!(TokenType::Let.as_str(), "LET");
    assert_eq!(TokenType::Eq.as_str(), "==");
    assert_eq!(TokenType::NotEq.as_str(), "!=");
    assert_eq!(TokenType::Return.as_str(), "RETURN");
}

#[test]
fn adjacent_punctuation_after_identifier_scan() {
    let toks = tokenize("x+y");
    let expected: Vec<(TokenType, &str)> = vec![
        (TokenType::Ident, "x"),
        (TokenType::Plus, "+"),
        (TokenType::Ident, "y"),
        (TokenType::Eof, ""),
    ];
    assert_eq!(toks.len(), expected.len());
    for (tok, (t_type, literal)) in toks.iter().zip(expected) {
        assert_eq!(tok.t_type, t_type);
        assert_eq!(tok.literal, literal);
    }
}
