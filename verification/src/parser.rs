use vstd::prelude::*;

use crate::ast::{new_product, new_succ, new_sum, new_var, new_zero, Formula, Term};
use crate::token::{kinds, Token, TokenKind};

verus! {

// ---------------------------------------------------------------------------
// The grammar
// ---------------------------------------------------------------------------

/// The kind of the token at `p`, or `EOF` past the end.
pub open spec fn peek_at(ts: Seq<TokenKind>, p: int) -> TokenKind {
    if 0 <= p < ts.len() {
        ts[p]
    } else {
        TokenKind::EOF
    }
}

/// The term that starts at position `p` of `ts`, and the position after it:
/// `term ::= 0 | v | S term | ( term + term ) | ( term * term )`.
/// The checks `p < q1` always hold (`lemma_parse_term_advances`); they let the definition
/// show that it terminates.
pub open spec fn parse_term_at(ts: Seq<TokenKind>, p: int) -> Option<(Term, int)>
    decreases ts.len() - p,
{
    if p < 0 || p >= ts.len() {
        None
    } else {
        match ts[p] {
            TokenKind::Zero => Some((Term::Zero, p + 1)),
            TokenKind::Variable(c) => Some((Term::Var { var: c }, p + 1)),
            TokenKind::Successor => match parse_term_at(ts, p + 1) {
                Some((t, q)) => Some((Term::Succ { child: Box::new(t) }, q)),
                None => None,
            },
            TokenKind::OpenParen => match parse_term_at(ts, p + 1) {
                Some((l, q1)) => if p < q1 < ts.len() {
                    match parse_term_at(ts, q1 + 1) {
                        Some((r, q2)) => if 0 <= q2 < ts.len() && ts[q2] == TokenKind::CloseParen {
                            if ts[q1] == TokenKind::Add {
                                Some((Term::Sum { left: Box::new(l), right: Box::new(r) }, q2 + 1))
                            } else if ts[q1] == TokenKind::Mult {
                                Some(
                                    (
                                        Term::Product { left: Box::new(l), right: Box::new(r) },
                                        q2 + 1,
                                    ),
                                )
                            } else {
                                None
                            }
                        } else {
                            None
                        },
                        None => None,
                    }
                } else {
                    None
                },
                None => None,
            },
            _ => None,
        }
    }
}

/// The formula that starts at position `p` of `ts`, and the position after it:
/// `formula ::= < formula op formula > | ~ formula | E v : formula | A v : formula
/// | term = term`, where `op` is `&`, `|` or `->`. Tokens after the formula are not read.
/// The checks `p < q1` always hold (`lemma_parse_formula_advances`); they let the definition
/// show that it terminates.
pub open spec fn parse_formula_at(ts: Seq<TokenKind>, p: int) -> Option<(Formula, int)>
    decreases ts.len() - p,
{
    if p < 0 {
        None
    } else if p < ts.len() && ts[p] == TokenKind::Lt {
        match parse_formula_at(ts, p + 1) {
            Some((l, q1)) => if p < q1 < ts.len() {
                match parse_formula_at(ts, q1 + 1) {
                    Some((r, q2)) => if 0 <= q2 < ts.len() && ts[q2] == TokenKind::Gt {
                        if ts[q1] == TokenKind::And {
                            Some((Formula::And { left: Box::new(l), right: Box::new(r) }, q2 + 1))
                        } else if ts[q1] == TokenKind::Or {
                            Some((Formula::Or { left: Box::new(l), right: Box::new(r) }, q2 + 1))
                        } else if ts[q1] == TokenKind::Implies {
                            Some(
                                (Formula::Implies { left: Box::new(l), right: Box::new(r) }, q2 + 1),
                            )
                        } else {
                            None
                        }
                    } else {
                        None
                    },
                    None => None,
                }
            } else {
                None
            },
            None => None,
        }
    } else if p < ts.len() && ts[p] == TokenKind::Not {
        match parse_formula_at(ts, p + 1) {
            Some((c, q)) => Some((Formula::Negation { child: Box::new(c) }, q)),
            None => None,
        }
    } else if p < ts.len() && (ts[p] == TokenKind::Exists || ts[p] == TokenKind::ForAll) {
        match parse_term_at(ts, p + 1) {
            Some((Term::Var { var }, q1)) => if p < q1 < ts.len() && ts[q1] == TokenKind::Colon {
                match parse_formula_at(ts, q1 + 1) {
                    Some((body, q2)) => if ts[p] == TokenKind::Exists {
                        Some((Formula::Exists { var, body: Box::new(body) }, q2))
                    } else {
                        Some((Formula::ForAll { var, body: Box::new(body) }, q2))
                    },
                    None => None,
                }
            } else {
                None
            },
            _ => None,
        }
    } else {
        match parse_term_at(ts, p) {
            Some((l, q1)) => if p < q1 < ts.len() && ts[q1] == TokenKind::Equals {
                match parse_term_at(ts, q1 + 1) {
                    Some((r, q2)) => Some((Formula::Atom { left: l, right: r }, q2)),
                    None => None,
                }
            } else {
                None
            },
            None => None,
        }
    }
}

/// A term that is read ends after its first token and no later than the end of the tokens.
pub proof fn lemma_parse_term_advances(ts: Seq<TokenKind>, p: int)
    ensures
        parse_term_at(ts, p) matches Some((_, q)) ==> p < q <= ts.len(),
    decreases ts.len() - p,
{
    if 0 <= p < ts.len() {
        lemma_parse_term_advances(ts, p + 1);
        if let Some((_, q1)) = parse_term_at(ts, p + 1) {
            if p < q1 < ts.len() {
                lemma_parse_term_advances(ts, q1 + 1);
            }
        }
    }
}

/// A formula that is read ends after its first token and no later than the end of the
/// tokens.
pub proof fn lemma_parse_formula_advances(ts: Seq<TokenKind>, p: int)
    ensures
        parse_formula_at(ts, p) matches Some((_, q)) ==> p < q <= ts.len(),
    decreases ts.len() - p,
{
    lemma_parse_term_advances(ts, p);
    if 0 <= p < ts.len() {
        lemma_parse_formula_advances(ts, p + 1);
        lemma_parse_term_advances(ts, p + 1);
        if let Some((_, q1)) = parse_formula_at(ts, p + 1) {
            if p < q1 < ts.len() {
                lemma_parse_formula_advances(ts, q1 + 1);
            }
        }
        if let Some((_, q1)) = parse_term_at(ts, p + 1) {
            if p < q1 < ts.len() {
                lemma_parse_formula_advances(ts, q1 + 1);
            }
        }
        if let Some((_, q1)) = parse_term_at(ts, p) {
            if p < q1 < ts.len() {
                lemma_parse_term_advances(ts, q1 + 1);
            }
        }
    }
}

// ---------------------------------------------------------------------------
// The parser
// ---------------------------------------------------------------------------

/// Reads terms and formulas from a sequence of tokens.
pub struct Parser {
    token: Vec<Token>,
    terms: Vec<Term>,
    pos: usize,
}

impl Parser {
    /// The kinds of the tokens to read.
    pub closed spec fn spec_tokens(&self) -> Seq<TokenKind> {
        kinds(self.token@)
    }

    /// The terms pushed so far.
    pub closed spec fn spec_terms(&self) -> Seq<Term> {
        self.terms@
    }

    /// The position of the next token.
    pub closed spec fn spec_pos(&self) -> int {
        self.pos as int
    }

    /// The position of the next token is never negative.
    pub proof fn lemma_pos_nonnegative(&self)
        ensures
            0 <= self.spec_pos(),
    {
    }

    /// A parser at the start of `token`.
    pub fn new(token: Vec<Token>) -> (p: Parser)
        ensures
            p.spec_tokens() == kinds(token@),
            p.spec_terms() == Seq::<Term>::empty(),
            p.spec_pos() == 0,
    {
        Parser { token, terms: Vec::new(), pos: 0 }
    }

    /// The kind of the next token, `EOF` past the end.
    pub fn peek(&self) -> (k: TokenKind)
        ensures
            k == peek_at(self.spec_tokens(), self.spec_pos()),
    {
        if self.pos >= self.token.len() {
            TokenKind::EOF
        } else {
            self.token[self.pos].kind()
        }
    }

    /// The terms pushed so far.
    pub fn terms(&self) -> (t: &Vec<Term>)
        ensures
            t@ == self.spec_terms(),
    {
        &self.terms
    }

    /// The kind of the next token; moves past it.
    pub fn advance(&mut self) -> (k: TokenKind)
        requires
            old(self).spec_pos() < old(self).spec_tokens().len(),
        ensures
            k == old(self).spec_tokens()[old(self).spec_pos()],
            final(self).spec_pos() == old(self).spec_pos() + 1,
            final(self).spec_tokens() == old(self).spec_tokens(),
            final(self).spec_terms() == old(self).spec_terms(),
    {
        let t = self.token[self.pos].kind();
        assert(self.pos < self.token.len());
        self.pos += 1;
        t
    }

    /// Whether the next token is `EOF`.
    pub fn is_end(&self) -> (b: bool)
        requires
            self.spec_pos() < self.spec_tokens().len(),
        ensures
            b == (self.spec_tokens()[self.spec_pos()] == TokenKind::EOF),
    {
        self.token[self.pos].kind() == TokenKind::EOF
    }

    /// Adds a term to the terms pushed so far.
    pub fn push(&mut self, term: Term)
        ensures
            final(self).spec_terms() == old(self).spec_terms().push(term),
            final(self).spec_tokens() == old(self).spec_tokens(),
            final(self).spec_pos() == old(self).spec_pos(),
    {
        self.terms.push(term);
    }

    /// Moves past the next token, which is `expected`.
    fn expect(&mut self, expected: TokenKind)
        requires
            old(self).spec_pos() < old(self).spec_tokens().len(),
            old(self).spec_tokens()[old(self).spec_pos()] == expected,
        ensures
            final(self).spec_pos() == old(self).spec_pos() + 1,
            final(self).spec_tokens() == old(self).spec_tokens(),
            final(self).spec_terms() == old(self).spec_terms(),
    {
        let _actual = self.advance();
    }

    /// Reads the term at the current position and moves past it, or gives `None` where
    /// no term starts there (the position is then left anywhere).
    pub fn try_parse_term(&mut self) -> (r: Option<Term>)
        ensures
            final(self).spec_tokens() == old(self).spec_tokens(),
            final(self).spec_terms() == old(self).spec_terms(),
            match parse_term_at(old(self).spec_tokens(), old(self).spec_pos()) {
                Some((t, q)) => r == Some(t) && final(self).spec_pos() == q,
                None => r is None,
            },
        decreases old(self).spec_tokens().len() - old(self).spec_pos(),
    {
        let ghost ts = self.spec_tokens();
        let ghost p = self.spec_pos();
        if self.pos >= self.token.len() {
            return None;
        }
        match self.peek() {
            TokenKind::Zero => {
                self.advance();
                Some(new_zero())
            },
            TokenKind::Variable(ch) => {
                self.advance();
                Some(new_var(ch))
            },
            TokenKind::Successor => {
                self.advance();
                match self.try_parse_term() {
                    Some(child) => Some(new_succ(child)),
                    None => None,
                }
            },
            TokenKind::OpenParen => {
                self.advance();
                let left = match self.try_parse_term() {
                    Some(t) => t,
                    None => return None,
                };
                proof {
                    lemma_parse_term_advances(ts, p + 1);
                }
                if self.pos >= self.token.len() {
                    return None;
                }
                let op = self.advance();
                let right = match self.try_parse_term() {
                    Some(t) => t,
                    None => return None,
                };
                if self.pos >= self.token.len() || self.peek() != TokenKind::CloseParen {
                    return None;
                }
                self.expect(TokenKind::CloseParen);
                if op == TokenKind::Add {
                    Some(new_sum(left, right))
                } else if op == TokenKind::Mult {
                    Some(new_product(left, right))
                } else {
                    None
                }
            },
            _ => None,
        }
    }

    /// Reads the term at the current position and moves past it.
    pub fn parse_term(&mut self) -> (t: Term)
        requires
            parse_term_at(old(self).spec_tokens(), old(self).spec_pos()) is Some,
        ensures
            parse_term_at(old(self).spec_tokens(), old(self).spec_pos()) == Some(
                (t, final(self).spec_pos()),
            ),
            final(self).spec_tokens() == old(self).spec_tokens(),
            final(self).spec_terms() == old(self).spec_terms(),
    {
        match self.try_parse_term() {
            Some(t) => t,
            None => {
                proof {
                    assert(false);
                }
                new_zero()
            },
        }
    }

    /// Reads the formula at the current position and moves past it, or gives `None` where
    /// no formula starts there (the position is then left anywhere).
    pub fn try_parse_formula(&mut self) -> (r: Option<Formula>)
        ensures
            final(self).spec_tokens() == old(self).spec_tokens(),
            final(self).spec_terms() == old(self).spec_terms(),
            match parse_formula_at(old(self).spec_tokens(), old(self).spec_pos()) {
                Some((f, q)) => r == Some(f) && final(self).spec_pos() == q,
                None => r is None,
            },
        decreases old(self).spec_tokens().len() - old(self).spec_pos(),
    {
        let ghost ts = self.spec_tokens();
        let ghost p = self.spec_pos();
        match self.peek() {
            TokenKind::Lt => {
                self.advance();
                let left = match self.try_parse_formula() {
                    Some(f) => f,
                    None => return None,
                };
                proof {
                    lemma_parse_formula_advances(ts, p + 1);
                }
                if self.pos >= self.token.len() {
                    return None;
                }
                let op = self.advance();
                let right = match self.try_parse_formula() {
                    Some(f) => f,
                    None => return None,
                };
                if self.pos >= self.token.len() || self.peek() != TokenKind::Gt {
                    return None;
                }
                self.expect(TokenKind::Gt);
                if op == TokenKind::And {
                    Some(Formula::And { left: Box::new(left), right: Box::new(right) })
                } else if op == TokenKind::Or {
                    Some(Formula::Or { left: Box::new(left), right: Box::new(right) })
                } else if op == TokenKind::Implies {
                    Some(Formula::Implies { left: Box::new(left), right: Box::new(right) })
                } else {
                    None
                }
            },
            TokenKind::Not => {
                self.advance();
                match self.try_parse_formula() {
                    Some(child) => Some(Formula::Negation { child: Box::new(child) }),
                    None => None,
                }
            },
            TokenKind::Exists | TokenKind::ForAll => {
                let quantifier = self.advance();
                let var_term = match self.try_parse_term() {
                    Some(t) => t,
                    None => return None,
                };
                proof {
                    lemma_parse_term_advances(ts, p + 1);
                }
                let var = match var_term {
                    Term::Var { var } => var,
                    _ => return None,
                };
                if self.pos >= self.token.len() || self.peek() != TokenKind::Colon {
                    return None;
                }
                self.expect(TokenKind::Colon);
                let body = match self.try_parse_formula() {
                    Some(f) => f,
                    None => return None,
                };
                if quantifier == TokenKind::Exists {
                    Some(Formula::Exists { var, body: Box::new(body) })
                } else {
                    Some(Formula::ForAll { var, body: Box::new(body) })
                }
            },
            _ => {
                let left = match self.try_parse_term() {
                    Some(t) => t,
                    None => return None,
                };
                proof {
                    lemma_parse_term_advances(ts, p);
                }
                match self.peek() {
                    TokenKind::Equals => {
                        self.advance();
                        match self.try_parse_term() {
                            Some(right) => Some(Formula::Atom { left, right }),
                            None => None,
                        }
                    },
                    _ => None,
                }
            },
        }
    }

    /// Reads the formula at the current position and moves past it.
    pub fn parse_formula(&mut self) -> (f: Formula)
        requires
            parse_formula_at(old(self).spec_tokens(), old(self).spec_pos()) is Some,
        ensures
            parse_formula_at(old(self).spec_tokens(), old(self).spec_pos()) == Some(
                (f, final(self).spec_pos()),
            ),
            final(self).spec_tokens() == old(self).spec_tokens(),
            final(self).spec_terms() == old(self).spec_terms(),
    {
        match self.try_parse_formula() {
            Some(f) => f,
            None => {
                proof {
                    assert(false);
                }
                Formula::Atom { left: new_zero(), right: new_zero() }
            },
        }
    }
}

} // verus!

verus! {

// ---------------------------------------------------------------------------
// Reading back what is written
// ---------------------------------------------------------------------------

/// The tokens that write the term `t`.
pub open spec fn term_tokens(t: Term) -> Seq<TokenKind>
    decreases t,
{
    match t {
        Term::Zero => seq![TokenKind::Zero],
        Term::Var { var } => seq![TokenKind::Variable(var)],
        Term::Succ { child } => seq![TokenKind::Successor] + term_tokens(*child),
        Term::Sum { left, right } => seq![TokenKind::OpenParen] + term_tokens(*left) + seq![
            TokenKind::Add,
        ] + term_tokens(*right) + seq![TokenKind::CloseParen],
        Term::Product { left, right } => seq![TokenKind::OpenParen] + term_tokens(*left) + seq![
            TokenKind::Mult,
        ] + term_tokens(*right) + seq![TokenKind::CloseParen],
    }
}

/// The tokens that write the formula `f`.
pub open spec fn formula_tokens(f: Formula) -> Seq<TokenKind>
    decreases f,
{
    match f {
        Formula::Atom { left, right } => term_tokens(left) + seq![TokenKind::Equals] + term_tokens(
            right,
        ),
        Formula::Negation { child } => seq![TokenKind::Not] + formula_tokens(*child),
        Formula::And { left, right } => seq![TokenKind::Lt] + formula_tokens(*left) + seq![
            TokenKind::And,
        ] + formula_tokens(*right) + seq![TokenKind::Gt],
        Formula::Or { left, right } => seq![TokenKind::Lt] + formula_tokens(*left) + seq![
            TokenKind::Or,
        ] + formula_tokens(*right) + seq![TokenKind::Gt],
        Formula::Implies { left, right } => seq![TokenKind::Lt] + formula_tokens(*left) + seq![
            TokenKind::Implies,
        ] + formula_tokens(*right) + seq![TokenKind::Gt],
        Formula::Exists { var, body } => seq![
            TokenKind::Exists,
            TokenKind::Variable(var),
            TokenKind::Colon,
        ] + formula_tokens(*body),
        Formula::ForAll { var, body } => seq![
            TokenKind::ForAll,
            TokenKind::Variable(var),
            TokenKind::Colon,
        ] + formula_tokens(*body),
    }
}

/// The parser reads back every term written in its syntax, wherever it stands.
pub proof fn law_parse_term_reads_back(t: Term, ts: Seq<TokenKind>, p: int)
    requires
        0 <= p,
        p + term_tokens(t).len() <= ts.len(),
        ts.subrange(p, p + term_tokens(t).len()) == term_tokens(t),
    ensures
        parse_term_at(ts, p) == Some((t, p + term_tokens(t).len())),
    decreases t,
{
    let tt = term_tokens(t);
    assert(ts[p] == tt[0]);
    match t {
        Term::Succ { child } => {
            let c = term_tokens(*child);
            assert(ts.subrange(p + 1, p + 1 + c.len()) =~= c) by {
                assert forall|i: int| 0 <= i < c.len() implies ts.subrange(p + 1, p + 1 + c.len())[i]
                    == c[i] by {
                    assert(ts[p + 1 + i] == tt[1 + i]);
                }
            }
            law_parse_term_reads_back(*child, ts, p + 1);
        },
        Term::Sum { left, right } => {
            let l = term_tokens(*left);
            let r = term_tokens(*right);
            assert(ts.subrange(p + 1, p + 1 + l.len()) =~= l) by {
                assert forall|i: int| 0 <= i < l.len() implies ts.subrange(p + 1, p + 1 + l.len())[i]
                    == l[i] by {
                    assert(ts[p + 1 + i] == tt[1 + i]);
                }
            }
            law_parse_term_reads_back(*left, ts, p + 1);
            assert(ts[p + 1 + l.len()] == tt[1 + l.len() as int]);
            let q = p + 2 + l.len();
            assert(ts.subrange(q, q + r.len()) =~= r) by {
                assert forall|i: int| 0 <= i < r.len() implies ts.subrange(q, q + r.len())[i]
                    == r[i] by {
                    assert(ts[q + i] == tt[2 + l.len() + i]);
                }
            }
            law_parse_term_reads_back(*right, ts, q);
            assert(ts[q + r.len()] == tt[2 + l.len() + r.len() as int]);
        },
        Term::Product { left, right } => {
            let l = term_tokens(*left);
            let r = term_tokens(*right);
            assert(ts.subrange(p + 1, p + 1 + l.len()) =~= l) by {
                assert forall|i: int| 0 <= i < l.len() implies ts.subrange(p + 1, p + 1 + l.len())[i]
                    == l[i] by {
                    assert(ts[p + 1 + i] == tt[1 + i]);
                }
            }
            law_parse_term_reads_back(*left, ts, p + 1);
            assert(ts[p + 1 + l.len()] == tt[1 + l.len() as int]);
            let q = p + 2 + l.len();
            assert(ts.subrange(q, q + r.len()) =~= r) by {
                assert forall|i: int| 0 <= i < r.len() implies ts.subrange(q, q + r.len())[i]
                    == r[i] by {
                    assert(ts[q + i] == tt[2 + l.len() + i]);
                }
            }
            law_parse_term_reads_back(*right, ts, q);
            assert(ts[q + r.len()] == tt[2 + l.len() + r.len() as int]);
        },
        _ => {},
    }
}

/// A slice of a slice of `ts` is a slice of `ts`.
proof fn lemma_slice_of_slice(
    ts: Seq<TokenKind>,
    p: int,
    whole: Seq<TokenKind>,
    off: int,
    part: Seq<TokenKind>,
)
    requires
        0 <= p,
        p + whole.len() <= ts.len(),
        ts.subrange(p, p + whole.len()) == whole,
        0 <= off,
        off + part.len() <= whole.len(),
        whole.subrange(off, off + part.len()) == part,
    ensures
        ts.subrange(p + off, p + off + part.len()) == part,
{
    assert forall|i: int| 0 <= i < part.len() implies ts.subrange(p + off, p + off + part.len())[i]
        == part[i] by {
        assert(ts[p + off + i] == whole[off + i]);
        assert(whole[off + i] == whole.subrange(off, off + part.len())[i]);
    }
    assert(ts.subrange(p + off, p + off + part.len()) =~= part);
}

/// The parser reads back every formula written in its syntax, wherever it stands.
pub proof fn law_parse_formula_reads_back(f: Formula, ts: Seq<TokenKind>, p: int)
    requires
        0 <= p,
        p + formula_tokens(f).len() <= ts.len(),
        ts.subrange(p, p + formula_tokens(f).len()) == formula_tokens(f),
    ensures
        parse_formula_at(ts, p) == Some((f, p + formula_tokens(f).len())),
    decreases f, 1int,
{
    match f {
        Formula::Atom { .. } => lemma_atom_reads_back(f, ts, p),
        Formula::Negation { .. } => lemma_negation_reads_back(f, ts, p),
        Formula::Exists { .. } => lemma_quantifier_reads_back(f, ts, p),
        Formula::ForAll { .. } => lemma_quantifier_reads_back(f, ts, p),
        _ => lemma_connective_reads_back(f, ts, p),
    }
}

proof fn lemma_atom_reads_back(f: Formula, ts: Seq<TokenKind>, p: int)
    requires
        f is Atom,
        0 <= p,
        p + formula_tokens(f).len() <= ts.len(),
        ts.subrange(p, p + formula_tokens(f).len()) == formula_tokens(f),
    ensures
        parse_formula_at(ts, p) == Some((f, p + formula_tokens(f).len())),
    decreases f, 0int,
{
    let ft = formula_tokens(f);
    if let Formula::Atom { left, right } = f {
        let l = term_tokens(left);
        let r = term_tokens(right);
        let ln = l.len() as int;
        let rn = r.len() as int;
        assert(ft.subrange(0, ln) =~= l);
        lemma_slice_of_slice(ts, p, ft, 0, l);
        law_parse_term_reads_back(left, ts, p);
        assert(ts[p] == l[0]);
        assert(ts[p + ln] == ft[ln]);
        assert(ft.subrange(ln + 1, ln + 1 + rn) =~= r);
        lemma_slice_of_slice(ts, p, ft, ln + 1, r);
        law_parse_term_reads_back(right, ts, p + ln + 1);
    }
}

proof fn lemma_negation_reads_back(f: Formula, ts: Seq<TokenKind>, p: int)
    requires
        f is Negation,
        0 <= p,
        p + formula_tokens(f).len() <= ts.len(),
        ts.subrange(p, p + formula_tokens(f).len()) == formula_tokens(f),
    ensures
        parse_formula_at(ts, p) == Some((f, p + formula_tokens(f).len())),
    decreases f, 0int,
{
    let ft = formula_tokens(f);
    assert(ts[p] == ft[0]);
    if let Formula::Negation { child } = f {
        let c = formula_tokens(*child);
        let cn = c.len() as int;
        assert(ft.subrange(1, 1 + cn) =~= c);
        lemma_slice_of_slice(ts, p, ft, 1, c);
        law_parse_formula_reads_back(*child, ts, p + 1);
    }
}

proof fn lemma_quantifier_reads_back(f: Formula, ts: Seq<TokenKind>, p: int)
    requires
        f is Exists || f is ForAll,
        0 <= p,
        p + formula_tokens(f).len() <= ts.len(),
        ts.subrange(p, p + formula_tokens(f).len()) == formula_tokens(f),
    ensures
        parse_formula_at(ts, p) == Some((f, p + formula_tokens(f).len())),
    decreases f, 0int,
{
    let ft = formula_tokens(f);
    assert(ts[p] == ft[0]);
    let (var, body) = match f {
        Formula::Exists { var, body } => (var, body),
        Formula::ForAll { var, body } => (var, body),
        _ => ('a', Box::new(f)),
    };
    let b = formula_tokens(*body);
    let bn = b.len() as int;
    assert(ft.subrange(1, 2) =~= seq![TokenKind::Variable(var)]);
    lemma_slice_of_slice(ts, p, ft, 1, seq![TokenKind::Variable(var)]);
    law_parse_term_reads_back(Term::Var { var }, ts, p + 1);
    assert(ts[p + 2] == ft[2]);
    assert(ft.subrange(3, 3 + bn) =~= b);
    lemma_slice_of_slice(ts, p, ft, 3, b);
    law_parse_formula_reads_back(*body, ts, p + 3);
}

proof fn lemma_connective_reads_back(f: Formula, ts: Seq<TokenKind>, p: int)
    requires
        f is And || f is Or || f is Implies,
        0 <= p,
        p + formula_tokens(f).len() <= ts.len(),
        ts.subrange(p, p + formula_tokens(f).len()) == formula_tokens(f),
    ensures
        parse_formula_at(ts, p) == Some((f, p + formula_tokens(f).len())),
    decreases f, 0int,
{
    let ft = formula_tokens(f);
    assert(ts[p] == ft[0]);
    let (left, right) = match f {
        Formula::And { left, right } => (left, right),
        Formula::Or { left, right } => (left, right),
        Formula::Implies { left, right } => (left, right),
        _ => (Box::new(f), Box::new(f)),
    };
    let l = formula_tokens(*left);
    let r = formula_tokens(*right);
    let ln = l.len() as int;
    let rn = r.len() as int;
    assert(ft.subrange(1, 1 + ln) =~= l);
    lemma_slice_of_slice(ts, p, ft, 1, l);
    law_parse_formula_reads_back(*left, ts, p + 1);
    assert(ts[p + 1 + ln] == ft[1 + ln]);
    assert(ft.subrange(2 + ln, 2 + ln + rn) =~= r);
    lemma_slice_of_slice(ts, p, ft, 2 + ln, r);
    law_parse_formula_reads_back(*right, ts, p + 2 + ln);
    assert(ts[p + 2 + ln + rn] == ft[2 + ln + rn]);
}

} // verus!
