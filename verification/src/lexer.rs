use vstd::prelude::*;
use vstd::string::StringExecFns;

use crate::text::collect_chars;
use crate::token::{kinds, Token, TokenKind};

verus! {

/// Whether `c` is skipped between tokens: a space, a tab, a carriage return or a newline.
pub open spec fn is_skipped(c: char) -> bool {
    c == ' ' || c == '\t' || c == '\r' || c == '\n'
}

/// The kind of the one-character token `c`, if `c` is one; `-` starts the two-character
/// token `->` and is not one.
pub open spec fn single_char_kind(c: char) -> Option<TokenKind> {
    if c == '0' {
        Some(TokenKind::Zero)
    } else if c == 'S' {
        Some(TokenKind::Successor)
    } else if 'a' <= c && c <= 'z' {
        Some(TokenKind::Variable(c))
    } else if c == '(' {
        Some(TokenKind::OpenParen)
    } else if c == ')' {
        Some(TokenKind::CloseParen)
    } else if c == '[' {
        Some(TokenKind::OpenBracket)
    } else if c == ']' {
        Some(TokenKind::CloseBracket)
    } else if c == '<' {
        Some(TokenKind::Lt)
    } else if c == '>' {
        Some(TokenKind::Gt)
    } else if c == '\'' {
        Some(TokenKind::Apostrophe)
    } else if c == ':' {
        Some(TokenKind::Colon)
    } else if c == '+' {
        Some(TokenKind::Add)
    } else if c == '*' {
        Some(TokenKind::Mult)
    } else if c == '~' {
        Some(TokenKind::Not)
    } else if c == '&' {
        Some(TokenKind::And)
    } else if c == '|' {
        Some(TokenKind::Or)
    } else if c == 'A' {
        Some(TokenKind::ForAll)
    } else if c == 'E' {
        Some(TokenKind::Exists)
    } else if c == '=' {
        Some(TokenKind::Equals)
    } else {
        None
    }
}

/// Lexing `src` from position `i`: the kinds of the tokens found, the position where lexing
/// stopped, and the character that could not be read, if lexing stopped on one.
pub open spec fn lex_from(src: Seq<char>, i: int) -> (Seq<TokenKind>, int, Option<char>)
    decreases src.len() - i,
{
    if i < 0 || i >= src.len() {
        (Seq::empty(), i, None)
    } else {
        let c = src[i];
        if is_skipped(c) {
            lex_from(src, i + 1)
        } else if c == '-' {
            if i + 1 < src.len() && src[i + 1] == '>' {
                let rest = lex_from(src, i + 2);
                (seq![TokenKind::Implies] + rest.0, rest.1, rest.2)
            } else {
                (Seq::empty(), i + 1, Some(c))
            }
        } else {
            match single_char_kind(c) {
                Some(k) => {
                    let rest = lex_from(src, i + 1);
                    (seq![k] + rest.0, rest.1, rest.2)
                },
                None => (Seq::empty(), i + 1, Some(c)),
            }
        }
    }
}

/// The kinds of the tokens of `src`, ended by `EOF`, or the character that cannot be read.
pub open spec fn lex(src: Seq<char>) -> Result<Seq<TokenKind>, char> {
    let r = lex_from(src, 0);
    match r.2 {
        None => Ok(r.0.push(TokenKind::EOF)),
        Some(c) => Err(c),
    }
}

/// The text of the error for an unreadable character.
pub open spec fn unrecognized_text(c: char) -> Seq<char> {
    "Unrecognized Token: "@.push(c)
}

/// Splits a text into tokens.
pub struct Lexer {
    source: Vec<char>,
    tokens: Vec<Token>,
    current: usize,
}

impl Lexer {
    /// The characters to be read.
    pub closed spec fn spec_source(&self) -> Seq<char> {
        self.source@
    }

    /// The tokens read so far.
    pub closed spec fn spec_tokens(&self) -> Seq<Token> {
        self.tokens@
    }

    /// The position of the next character to read.
    pub closed spec fn spec_current(&self) -> int {
        self.current as int
    }

    /// The position of the next character to read is never negative.
    pub proof fn lemma_current_nonnegative(&self)
        ensures
            0 <= self.spec_current(),
    {
    }

    /// A lexer for the text `source`, with no token read yet.
    pub fn new(source: String) -> (l: Lexer)
        ensures
            l.spec_source() == source@,
            l.spec_tokens() == Seq::<Token>::empty(),
            l.spec_current() == 0,
    {
        Lexer { source: collect_chars(source.as_str()), tokens: Vec::new(), current: 0 }
    }

    /// The tokens read so far.
    pub fn tokens(&self) -> (t: &Vec<Token>)
        ensures
            t@ == self.spec_tokens(),
    {
        &self.tokens
    }

    fn advance(&mut self) -> (c: char)
        requires
            old(self).current < old(self).source.len(),
        ensures
            c == old(self).source@[old(self).current as int],
            final(self).current == old(self).current + 1,
            final(self).source == old(self).source,
            final(self).tokens == old(self).tokens,
    {
        let ch = self.source[self.current];
        self.current += 1;
        ch
    }

    fn peek(&self) -> (c: Option<char>)
        ensures
            c == (if self.current < self.source.len() {
                Some(self.source@[self.current as int])
            } else {
                None::<char>
            }),
    {
        if self.current < self.source.len() {
            Some(self.source[self.current])
        } else {
            None
        }
    }

    fn is_at_end(&self) -> (b: bool)
        ensures
            b == (self.current >= self.source.len()),
    {
        self.current >= self.source.len()
    }

    /// Reads the remaining characters into tokens, ending with `EOF`; stops at the first
    /// character that is not part of a token and reports it.
    pub fn tokenize(&mut self) -> (r: Result<(), String>)
        ensures
            ({
                let run = lex_from(old(self).spec_source(), old(self).spec_current());
                &&& final(self).spec_source() == old(self).spec_source()
                &&& final(self).spec_current() == (if old(self).spec_current()
                    >= old(self).spec_source().len() {
                    old(self).spec_current()
                } else {
                    run.1
                })
                &&& match run.2 {
                    None => {
                        &&& r is Ok
                        &&& kinds(final(self).spec_tokens()) == kinds(old(self).spec_tokens())
                            + run.0.push(TokenKind::EOF)
                    },
                    Some(c) => {
                        &&& r matches Err(e) && e@ == unrecognized_text(c)
                        &&& kinds(final(self).spec_tokens()) == kinds(old(self).spec_tokens())
                            + run.0
                    },
                }
            }),
    {
        let ghost src = self.source@;
        let ghost start = self.current as int;
        let ghost toks0 = kinds(self.tokens@);
        let mut failure: Option<String> = None;
        while failure.is_none() && !self.is_at_end()
            invariant
                self.source@ == src,
                start <= self.current,
                start < src.len() ==> self.current <= src.len(),
                failure is None ==> lex_from(src, start) == ({
                    let rest = lex_from(src, self.current as int);
                    (kinds(self.tokens@).subrange(toks0.len() as int, kinds(self.tokens@).len() as int)
                        + rest.0, rest.1, rest.2)
                }),
                failure matches Some(e) ==> {
                    &&& lex_from(src, start).0 == kinds(self.tokens@).subrange(
                        toks0.len() as int,
                        kinds(self.tokens@).len() as int,
                    )
                    &&& lex_from(src, start).1 == self.current
                    &&& lex_from(src, start).2 matches Some(c) && e@ == unrecognized_text(c)
                },
                kinds(self.tokens@).subrange(0, toks0.len() as int) == toks0,
                toks0.len() <= self.tokens@.len(),
            decreases self.source.len() - self.current,
        {
            let r = self.generate_token();
            proof {
                assert(kinds(self.tokens@).subrange(0, toks0.len() as int) =~= toks0);
            }
            if let Err(e) = r {
                failure = Some(e);
            }
        }
        proof {
            let ks = kinds(self.tokens@);
            assert(ks =~= toks0 + ks.subrange(toks0.len() as int, ks.len() as int));
        }
        if let Some(e) = failure {
            return Err(e);
        }
        self.tokens.push(Token::new(TokenKind::EOF));
        Ok(())
    }

    fn generate_token(&mut self) -> (r: Result<(), String>)
        requires
            old(self).current < old(self).source.len(),
        ensures
            final(self).source == old(self).source,
            ({
                let src = old(self).source@;
                let i = old(self).current as int;
                let c = src[i];
                if is_skipped(c) {
                    &&& r is Ok
                    &&& final(self).tokens@ == old(self).tokens@
                    &&& final(self).current == i + 1
                } else if c == '-' && i + 1 < src.len() && src[i + 1] == '>' {
                    &&& r is Ok
                    &&& kinds(final(self).tokens@) == kinds(old(self).tokens@).push(TokenKind::Implies)
                    &&& final(self).current == i + 2
                } else if c != '-' && single_char_kind(c) is Some {
                    &&& r is Ok
                    &&& kinds(final(self).tokens@) == kinds(old(self).tokens@).push(single_char_kind(c)->0)
                    &&& final(self).current == i + 1
                } else {
                    &&& r matches Err(e) && e@ == unrecognized_text(c)
                    &&& final(self).tokens@ == old(self).tokens@
                    &&& final(self).current == i + 1
                }
            }),
    {
        let ch = self.advance();
        if self.is_whitespace(ch) || ch == '\n' {
            return Ok(());
        }
        let kind: Option<TokenKind> = if ch == '0' {
            Some(TokenKind::Zero)
        } else if ch == 'S' {
            Some(TokenKind::Successor)
        } else if 'a' <= ch && ch <= 'z' {
            Some(TokenKind::Variable(ch))
        } else if ch == '(' {
            Some(TokenKind::OpenParen)
        } else if ch == ')' {
            Some(TokenKind::CloseParen)
        } else if ch == '[' {
            Some(TokenKind::OpenBracket)
        } else if ch == ']' {
            Some(TokenKind::CloseBracket)
        } else if ch == '<' {
            Some(TokenKind::Lt)
        } else if ch == '>' {
            Some(TokenKind::Gt)
        } else if ch == '\'' {
            Some(TokenKind::Apostrophe)
        } else if ch == ':' {
            Some(TokenKind::Colon)
        } else if ch == '+' {
            Some(TokenKind::Add)
        } else if ch == '*' {
            Some(TokenKind::Mult)
        } else if ch == '~' {
            Some(TokenKind::Not)
        } else if ch == '&' {
            Some(TokenKind::And)
        } else if ch == '|' {
            Some(TokenKind::Or)
        } else if ch == '-' {
            match self.peek() {
                Some('>') => {
                    self.advance();
                    Some(TokenKind::Implies)
                },
                _ => None,
            }
        } else if ch == 'A' {
            Some(TokenKind::ForAll)
        } else if ch == 'E' {
            Some(TokenKind::Exists)
        } else if ch == '=' {
            Some(TokenKind::Equals)
        } else {
            None
        };
        match kind {
            Some(token_kind) => {
                self.tokens.push(Token::new(token_kind));
                assert(kinds(self.tokens@) =~= kinds(old(self).tokens@).push(token_kind));
                Ok(())
            },
            None => {
                let mut msg = String::from_str("Unrecognized Token: ");
                msg.push(ch);
                Err(msg)
            },
        }
    }

    fn is_whitespace(&self, ch: char) -> (b: bool)
        ensures
            b == (ch == ' ' || ch == '\t' || ch == '\r'),
    {
        ch == ' ' || ch == '\t' || ch == '\r'
    }
}

} // verus!
