use vstd::prelude::*;

verus! {

/// The kinds of token produced by the lexer.
#[derive(Copy, Clone, Debug, PartialEq, Eq, Structural)]
pub enum TokenKind {
    // Terms
    /// `0`
    Zero,
    /// `S`
    Successor,
    /// A lowercase letter `a` .. `z`
    Variable(char),
    // Syntax
    /// `(`
    OpenParen,
    /// `)`
    CloseParen,
    /// `>`
    Gt,
    /// `<`
    Lt,
    /// `[`
    OpenBracket,
    /// `]`
    CloseBracket,
    /// `'`
    Apostrophe,
    /// `:`
    Colon,
    // Operations
    /// `+`
    Add,
    /// `*`
    Mult,
    // Logical operators
    /// `~`
    Not,
    /// `&`
    And,
    /// `|`
    Or,
    /// `->`
    Implies,
    // Quantifiers
    /// `A`
    ForAll,
    /// `E`
    Exists,
    // Equality
    /// `=`
    Equals,
    // End marker
    EOF,
}

/// A token of the input; it carries its kind.
#[derive(Copy, Clone, Debug, PartialEq, Eq)]
pub struct Token {
    kind: TokenKind,
}

impl View for Token {
    type V = TokenKind;

    closed spec fn view(&self) -> TokenKind {
        self.kind
    }
}

impl Token {
    /// A token of the given kind.
    pub fn new(kind: TokenKind) -> (t: Token)
        ensures
            t@ == kind,
    {
        Token { kind }
    }

    /// The kind of this token.
    pub fn kind(&self) -> (k: TokenKind)
        ensures
            k == self@,
    {
        self.kind
    }
}

/// The kinds of a sequence of tokens.
pub open spec fn kinds(ts: Seq<Token>) -> Seq<TokenKind> {
    ts.map_values(|t: Token| t@)
}

} // verus!
