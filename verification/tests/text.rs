use jane::ast::{new_atom, new_negation, new_succ, new_sum, new_var, new_zero};
use jane::repl::{parse_str_to_formula, parse_str_to_term};
use jane::lexer::Lexer;
use jane::parser::Parser;
use jane::text::{parse_number, split_whitespace, word_is};
use jane::token::{Token, TokenKind};

fn chars(s: &str) -> Vec<char> {
    s.chars().collect()
}

#[test]
fn words_of_a_command_line() {
    let ws = split_whitespace("  intro\tand \u{3000}1\n2  ");
    assert_eq!(ws, vec![chars("intro"), chars("and"), chars("1"), chars("2")]);
    assert!(split_whitespace(" \u{85}\u{a0} ").is_empty());
    let std_words: Vec<Vec<char>> = "a\u{2028}b\u{200b}c".split_whitespace().map(chars).collect();
    assert_eq!(split_whitespace("a\u{2028}b\u{200b}c"), std_words);
}

#[test]
fn white_space_agrees_with_std() {
    for c in (0u32..0x3100).filter_map(char::from_u32) {
        assert_eq!(jane::text::white_space(c), c.is_whitespace(), "{:?}", c);
    }
}

#[test]
fn numbers_read_like_std() {
    for s in ["0", "7", "+12", "007", "18446744073709551615", "18446744073709551616", "", "+", "-1", "1a", "١"] {
        assert_eq!(parse_number(&chars(s)), s.parse::<usize>().ok(), "{:?}", s);
    }
}

#[test]
fn literal_words() {
    assert!(word_is(&chars("quit"), "quit"));
    assert!(!word_is(&chars("quit"), "q"));
    assert!(!word_is(&chars("qu"), "qi"));
}

#[test]
fn lexer_reports_the_character() {
    let mut lexer = Lexer::new("a -b".to_string());
    assert_eq!(lexer.tokenize(), Err("Unrecognized Token: -".to_string()));
    assert_eq!(lexer.tokens().len(), 1);
    let mut lexer = Lexer::new("S0\n= 0 #".to_string());
    assert_eq!(lexer.tokenize(), Err("Unrecognized Token: #".to_string()));
    let kinds: Vec<TokenKind> = lexer.tokens().iter().map(|t| t.kind()).collect();
    assert_eq!(kinds, vec![TokenKind::Successor, TokenKind::Zero, TokenKind::Equals, TokenKind::Zero]);
}

#[test]
fn lexer_reads_brackets_and_quotes() {
    let mut lexer = Lexer::new("[]'~|".to_string());
    assert_eq!(lexer.tokenize(), Ok(()));
    let kinds: Vec<TokenKind> = lexer.tokens().iter().map(|t| t.kind()).collect();
    assert_eq!(
        kinds,
        vec![
            TokenKind::OpenBracket,
            TokenKind::CloseBracket,
            TokenKind::Apostrophe,
            TokenKind::Not,
            TokenKind::Or,
            TokenKind::EOF
        ]
    );
}

#[test]
fn parser_refuses_malformed_input() {
    let toks = |ks: &[TokenKind]| ks.iter().map(|k| Token::new(*k)).collect::<Vec<Token>>();
    let mut p = Parser::new(toks(&[TokenKind::OpenParen, TokenKind::Zero, TokenKind::Equals, TokenKind::Zero, TokenKind::CloseParen]));
    assert_eq!(p.try_parse_term(), None);
    let mut p = Parser::new(toks(&[TokenKind::EOF]));
    assert_eq!(p.try_parse_term(), None);
    let mut p = Parser::new(toks(&[TokenKind::Exists, TokenKind::Zero, TokenKind::Colon, TokenKind::Zero, TokenKind::Equals, TokenKind::Zero]));
    assert_eq!(p.try_parse_formula(), None);
    let mut p = Parser::new(toks(&[TokenKind::Lt, TokenKind::Zero, TokenKind::Equals, TokenKind::Zero, TokenKind::Add, TokenKind::Zero, TokenKind::Equals, TokenKind::Zero, TokenKind::Gt]));
    assert_eq!(p.try_parse_formula(), None);
}

#[test]
fn parser_state() {
    let mut p = Parser::new(vec![
        Token::new(TokenKind::OpenParen),
        Token::new(TokenKind::Variable('x')),
        Token::new(TokenKind::Mult),
        Token::new(TokenKind::Zero),
        Token::new(TokenKind::CloseParen),
        Token::new(TokenKind::EOF),
    ]);
    assert_eq!(p.peek(), TokenKind::OpenParen);
    let t = p.parse_term();
    assert_eq!(t, jane::ast::new_product(jane::ast::new_var('x'), jane::ast::new_zero()));
    assert!(p.is_end());
    assert_eq!(p.peek(), TokenKind::EOF);
    assert_eq!(p.advance(), TokenKind::EOF);
    assert_eq!(p.peek(), TokenKind::EOF);
    assert!(p.terms().is_empty());
    p.push(t.clone());
    assert_eq!(p.terms(), &vec![t]);
}

#[test]
fn reading_texts() {
    assert_eq!(parse_str_to_term("S(a + 0)"), Some(new_succ(new_sum(new_var('a'), new_zero()))));
    assert_eq!(parse_str_to_term("(a = 0)"), None);
    assert_eq!(parse_str_to_term("#"), None);
    assert_eq!(
        parse_str_to_formula("~S0 = 0 #"),
        None
    );
    assert_eq!(
        parse_str_to_formula("~S0 = 0 extra"),
        Some(new_negation(new_atom(new_succ(new_zero()), new_zero())))
    );
}
