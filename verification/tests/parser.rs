use jane::ast::{new_succ, new_sum, new_var, new_zero, Formula, Term};
use jane::lexer::Lexer;
use jane::parser::Parser;
use jane::token::{Token, TokenKind};

#[test]
fn test_parse_zero() {
    let tokens = vec![Token::new(TokenKind::Zero), Token::new(TokenKind::EOF)];
    let mut parser = Parser::new(tokens);
    let term = parser.parse_term();
    assert_eq!(term, Term::Zero);
}

#[test]
fn test_parse_ss0() {
    let tokens = vec![
        Token::new(TokenKind::Successor),
        Token::new(TokenKind::Successor),
        Token::new(TokenKind::Zero),
        Token::new(TokenKind::EOF),
    ];
    let mut parser = Parser::new(tokens);
    let term = parser.parse_term();
    let expected = Term::Succ {
        child: Box::new(Term::Succ {
            child: Box::new(Term::Zero),
        }),
    };
    assert_eq!(term, expected);
}

#[test]
fn test_parse_var() {
    let tokens = vec![
        Token::new(TokenKind::Variable('a')),
        Token::new(TokenKind::EOF),
    ];
    let mut parser = Parser::new(tokens);
    let term = parser.parse_term();
    assert_eq!(term, Term::Var { var: 'a' });
}

#[test]
fn test_parse_atom() {
    // S0 = 0
    let tokens = vec![
        Token::new(TokenKind::Successor),
        Token::new(TokenKind::Zero),
        Token::new(TokenKind::Equals),
        Token::new(TokenKind::Zero),
        Token::new(TokenKind::EOF),
    ];
    let mut parser = Parser::new(tokens);
    let formula = parser.parse_formula();
    let expected = Formula::Atom {
        left: new_succ(new_zero()),
        right: new_zero(),
    };
    assert_eq!(formula, expected);
}

#[test]
fn test_parse_negation() {
    // ~S0 = 0
    let tokens = vec![
        Token::new(TokenKind::Not),
        Token::new(TokenKind::Successor),
        Token::new(TokenKind::Zero),
        Token::new(TokenKind::Equals),
        Token::new(TokenKind::Zero),
        Token::new(TokenKind::EOF),
    ];
    let mut parser = Parser::new(tokens);
    let formula = parser.parse_formula();
    let expected = Formula::Negation {
        child: Box::new(Formula::Atom {
            left: new_succ(new_zero()),
            right: new_zero(),
        }),
    };
    assert_eq!(formula, expected);
}

#[test]
fn test_parse_and() {
    // <S0 = 0 & 0 = 0>
    let tokens = vec![
        Token::new(TokenKind::Lt),
        Token::new(TokenKind::Successor),
        Token::new(TokenKind::Zero),
        Token::new(TokenKind::Equals),
        Token::new(TokenKind::Zero),
        Token::new(TokenKind::And),
        Token::new(TokenKind::Zero),
        Token::new(TokenKind::Equals),
        Token::new(TokenKind::Zero),
        Token::new(TokenKind::Gt),
        Token::new(TokenKind::EOF),
    ];
    let mut parser = Parser::new(tokens);
    let formula = parser.parse_formula();
    let expected = Formula::And {
        left: Box::new(Formula::Atom {
            left: new_succ(new_zero()),
            right: new_zero(),
        }),
        right: Box::new(Formula::Atom {
            left: new_zero(),
            right: new_zero(),
        }),
    };
    assert_eq!(formula, expected);
}

#[test]
fn test_parse_implies() {
    // <0 = 0 -> S0 = 0>
    let tokens = vec![
        Token::new(TokenKind::Lt),
        Token::new(TokenKind::Zero),
        Token::new(TokenKind::Equals),
        Token::new(TokenKind::Zero),
        Token::new(TokenKind::Implies),
        Token::new(TokenKind::Successor),
        Token::new(TokenKind::Zero),
        Token::new(TokenKind::Equals),
        Token::new(TokenKind::Zero),
        Token::new(TokenKind::Gt),
        Token::new(TokenKind::EOF),
    ];
    let mut parser = Parser::new(tokens);
    let formula = parser.parse_formula();
    let expected = Formula::Implies {
        left: Box::new(Formula::Atom {
            left: new_zero(),
            right: new_zero(),
        }),
        right: Box::new(Formula::Atom {
            left: new_succ(new_zero()),
            right: new_zero(),
        }),
    };
    assert_eq!(formula, expected);
}

#[test]
fn test_parse_exists() {
    // Ea: a = 0
    let tokens = vec![
        Token::new(TokenKind::Exists),
        Token::new(TokenKind::Variable('a')),
        Token::new(TokenKind::Colon),
        Token::new(TokenKind::Variable('a')),
        Token::new(TokenKind::Equals),
        Token::new(TokenKind::Zero),
        Token::new(TokenKind::EOF),
    ];
    let mut parser = Parser::new(tokens);
    let formula = parser.parse_formula();
    let expected = Formula::Exists {
        var: 'a',
        body: Box::new(Formula::Atom {
            left: new_var('a'),
            right: new_zero(),
        }),
    };
    assert_eq!(formula, expected);
}

#[test]
fn test_parse_forall() {
    // Aa: a = 0
    let tokens = vec![
        Token::new(TokenKind::ForAll),
        Token::new(TokenKind::Variable('a')),
        Token::new(TokenKind::Colon),
        Token::new(TokenKind::Variable('a')),
        Token::new(TokenKind::Equals),
        Token::new(TokenKind::Zero),
        Token::new(TokenKind::EOF),
    ];
    let mut parser = Parser::new(tokens);
    let formula = parser.parse_formula();
    let expected = Formula::ForAll {
        var: 'a',
        body: Box::new(Formula::Atom {
            left: new_var('a'),
            right: new_zero(),
        }),
    };
    assert_eq!(formula, expected);
}

#[test]
fn printed_terms_lex_and_parse_back() {
    let terms = vec![
        new_zero(),
        new_var('q'),
        new_succ(new_succ(new_zero())),
        new_sum(new_var('a'), new_succ(new_var('b'))),
        new_succ(new_sum(new_sum(new_zero(), new_var('z')), new_succ(new_var('c')))),
    ];
    for t in terms {
        let mut lexer = Lexer::new(t.to_string());
        assert_eq!(lexer.tokenize(), Ok(()));
        let mut parser = Parser::new(lexer.tokens().clone());
        assert_eq!(parser.parse_term(), t);
        assert_eq!(parser.peek(), TokenKind::EOF);
    }
}
