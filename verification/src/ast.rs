use vstd::prelude::*;
use vstd::string::StringExecFns;

verus! {

/// A term of Peano arithmetic: zero, a variable, a successor, a sum or a product.
#[derive(Debug, PartialEq)]
pub enum Term {
    Zero,
    Var { var: char },
    Succ { child: Box<Term> },
    Sum { left: Box<Term>, right: Box<Term> },
    Product { left: Box<Term>, right: Box<Term> },
}

/// A formula of Peano arithmetic built from atoms `t = u` with the usual connectives and
/// quantifiers.
#[allow(inconsistent_fields)]
#[derive(Debug, PartialEq)]
pub enum Formula {
    Atom { left: Term, right: Term },
    Negation { child: Box<Formula> },
    And { left: Box<Formula>, right: Box<Formula> },
    Or { left: Box<Formula>, right: Box<Formula> },
    Implies { left: Box<Formula>, right: Box<Formula> },
    Exists { var: char, body: Box<Formula> },
    ForAll { var: char, body: Box<Formula> },
}

/// Which side of a conjunction to keep.
#[derive(Debug, Clone, Copy, PartialEq, Eq, Structural)]
pub enum Choice {
    Left,
    Right,
}

/// The view of a rule's result: a formula, or the text of the error.
pub open spec fn res_view(r: Result<Formula, String>) -> Result<Formula, Seq<char>> {
    match r {
        Ok(f) => Ok(f),
        Err(e) => Err(e@),
    }
}

/// An error result whose text is the given literal.
fn fail(msg: &str) -> (r: Result<Formula, String>)
    ensures
        res_view(r) == Err::<Formula, Seq<char>>(msg@),
{
    Err(String::from_str(msg))
}

// ---------------------------------------------------------------------------
// Constructors
// ---------------------------------------------------------------------------

/// The term `0`.
pub fn new_zero() -> (t: Term)
    ensures
        t == Term::Zero,
{
    Term::Zero
}

/// The variable term `var`.
pub fn new_var(var: char) -> (t: Term)
    ensures
        t == (Term::Var { var }),
{
    Term::Var { var }
}

/// The successor term `S child`.
pub fn new_succ(child: Term) -> (t: Term)
    ensures
        t == (Term::Succ { child: Box::new(child) }),
{
    Term::Succ { child: Box::new(child) }
}

/// The sum term `(left + right)`.
pub fn new_sum(left: Term, right: Term) -> (t: Term)
    ensures
        t == (Term::Sum { left: Box::new(left), right: Box::new(right) }),
{
    Term::Sum { left: Box::new(left), right: Box::new(right) }
}

/// The product term `(left × right)`.
pub fn new_product(left: Term, right: Term) -> (t: Term)
    ensures
        t == (Term::Product { left: Box::new(left), right: Box::new(right) }),
{
    Term::Product { left: Box::new(left), right: Box::new(right) }
}

/// `self + rhs` builds the sum term.
impl core::ops::Add<Term> for Term {
    type Output = Term;

    fn add(self, rhs: Term) -> (t: Term)
        ensures
            t == (Term::Sum { left: Box::new(self), right: Box::new(rhs) }),
    {
        Term::Sum { left: Box::new(self), right: Box::new(rhs) }
    }
}

impl vstd::std_specs::ops::AddSpecImpl<Term> for Term {
    open spec fn obeys_add_spec() -> bool {
        true
    }

    open spec fn add_req(self, rhs: Term) -> bool {
        true
    }

    open spec fn add_spec(self, rhs: Term) -> Term {
        Term::Sum { left: Box::new(self), right: Box::new(rhs) }
    }
}

/// `self * rhs` builds the product term.
impl core::ops::Mul<Term> for Term {
    type Output = Term;

    fn mul(self, rhs: Term) -> (t: Term)
        ensures
            t == (Term::Product { left: Box::new(self), right: Box::new(rhs) }),
    {
        Term::Product { left: Box::new(self), right: Box::new(rhs) }
    }
}

impl vstd::std_specs::ops::MulSpecImpl<Term> for Term {
    open spec fn obeys_mul_spec() -> bool {
        true
    }

    open spec fn mul_req(self, rhs: Term) -> bool {
        true
    }

    open spec fn mul_spec(self, rhs: Term) -> Term {
        Term::Product { left: Box::new(self), right: Box::new(rhs) }
    }
}

/// The atom `(left = right)`.
pub fn new_atom(left: Term, right: Term) -> (f: Formula)
    ensures
        f == (Formula::Atom { left, right }),
{
    Formula::Atom { left, right }
}

/// The negation `¬child`.
pub fn new_negation(child: Formula) -> (f: Formula)
    ensures
        f == (Formula::Negation { child: Box::new(child) }),
{
    Formula::Negation { child: Box::new(child) }
}

/// The conjunction `(left ∧ right)`.
pub fn new_and(left: Formula, right: Formula) -> (f: Formula)
    ensures
        f == (Formula::And { left: Box::new(left), right: Box::new(right) }),
{
    Formula::And { left: Box::new(left), right: Box::new(right) }
}

/// The disjunction `(left ∨ right)`.
pub fn new_or(left: Formula, right: Formula) -> (f: Formula)
    ensures
        f == (Formula::Or { left: Box::new(left), right: Box::new(right) }),
{
    Formula::Or { left: Box::new(left), right: Box::new(right) }
}

/// The implication `(left -> right)`.
pub fn new_implies(left: Formula, right: Formula) -> (f: Formula)
    ensures
        f == (Formula::Implies { left: Box::new(left), right: Box::new(right) }),
{
    Formula::Implies { left: Box::new(left), right: Box::new(right) }
}

/// The existential `∃var: body`.
pub fn new_exists(var: char, body: Formula) -> (f: Formula)
    ensures
        f == (Formula::Exists { var, body: Box::new(body) }),
{
    Formula::Exists { var, body: Box::new(body) }
}

/// The universal `∀var: body`.
pub fn new_forall(var: char, body: Formula) -> (f: Formula)
    ensures
        f == (Formula::ForAll { var, body: Box::new(body) }),
{
    Formula::ForAll { var, body: Box::new(body) }
}

/// The atom `(ch = ch)`.
pub fn new_self_equal_atom(ch: char) -> (f: Formula)
    ensures
        f == (Formula::Atom { left: Term::Var { var: ch }, right: Term::Var { var: ch } }),
{
    new_atom(new_var(ch), new_var(ch))
}

// ---------------------------------------------------------------------------
// Structural equality and copies
// ---------------------------------------------------------------------------

/// Whether two terms are the same term.
pub fn term_equal(a: &Term, b: &Term) -> (r: bool)
    ensures
        r == (*a == *b),
    decreases *a,
{
    match (a, b) {
        (Term::Zero, Term::Zero) => true,
        (Term::Var { var: x }, Term::Var { var: y }) => *x == *y,
        (Term::Succ { child: x }, Term::Succ { child: y }) => term_equal(x, y),
        (Term::Sum { left: l1, right: r1 }, Term::Sum { left: l2, right: r2 }) => {
            term_equal(l1, l2) && term_equal(r1, r2)
        },
        (Term::Product { left: l1, right: r1 }, Term::Product { left: l2, right: r2 }) => {
            term_equal(l1, l2) && term_equal(r1, r2)
        },
        _ => false,
    }
}

/// Whether two formulas are the same formula.
pub fn formula_equal(a: &Formula, b: &Formula) -> (r: bool)
    ensures
        r == (*a == *b),
    decreases *a,
{
    match (a, b) {
        (Formula::Atom { left: l1, right: r1 }, Formula::Atom { left: l2, right: r2 }) => {
            term_equal(l1, l2) && term_equal(r1, r2)
        },
        (Formula::Negation { child: x }, Formula::Negation { child: y }) => formula_equal(x, y),
        (Formula::And { left: l1, right: r1 }, Formula::And { left: l2, right: r2 }) => {
            formula_equal(l1, l2) && formula_equal(r1, r2)
        },
        (Formula::Or { left: l1, right: r1 }, Formula::Or { left: l2, right: r2 }) => {
            formula_equal(l1, l2) && formula_equal(r1, r2)
        },
        (Formula::Implies { left: l1, right: r1 }, Formula::Implies { left: l2, right: r2 }) => {
            formula_equal(l1, l2) && formula_equal(r1, r2)
        },
        (Formula::Exists { var: x, body: b1 }, Formula::Exists { var: y, body: b2 }) => {
            *x == *y && formula_equal(b1, b2)
        },
        (Formula::ForAll { var: x, body: b1 }, Formula::ForAll { var: y, body: b2 }) => {
            *x == *y && formula_equal(b1, b2)
        },
        _ => false,
    }
}

impl Clone for Term {
    /// A copy of this term.
    fn clone(&self) -> (t: Term)
        ensures
            t == *self,
        decreases *self,
    {
        match self {
            Term::Zero => Term::Zero,
            Term::Var { var } => Term::Var { var: *var },
            Term::Succ { child } => Term::Succ { child: Box::new((**child).clone()) },
            Term::Sum { left, right } => Term::Sum {
                left: Box::new((**left).clone()),
                right: Box::new((**right).clone()),
            },
            Term::Product { left, right } => Term::Product {
                left: Box::new((**left).clone()),
                right: Box::new((**right).clone()),
            },
        }
    }
}

impl Formula {
    /// Whether this formula is a universal `∀v: p`.
    pub fn is_forall(&self) -> (b: bool)
        ensures
            b == (*self is ForAll),
    {
        match self {
            Formula::ForAll { .. } => true,
            _ => false,
        }
    }
}

impl Clone for Formula {
    /// A copy of this formula.
    fn clone(&self) -> (f: Formula)
        ensures
            f == *self,
        decreases *self,
    {
        match self {
            Formula::Atom { left, right } => Formula::Atom { left: left.clone(), right: right.clone() },
            Formula::Negation { child } => Formula::Negation { child: Box::new((**child).clone()) },
            Formula::And { left, right } => Formula::And {
                left: Box::new((**left).clone()),
                right: Box::new((**right).clone()),
            },
            Formula::Or { left, right } => Formula::Or {
                left: Box::new((**left).clone()),
                right: Box::new((**right).clone()),
            },
            Formula::Implies { left, right } => Formula::Implies {
                left: Box::new((**left).clone()),
                right: Box::new((**right).clone()),
            },
            Formula::Exists { var, body } => Formula::Exists { var: *var, body: Box::new((**body).clone()) },
            Formula::ForAll { var, body } => Formula::ForAll { var: *var, body: Box::new((**body).clone()) },
        }
    }
}

} // verus!

verus! {

// ---------------------------------------------------------------------------
// Specifications of the inference rules
// ---------------------------------------------------------------------------

/// `¬p` for `p`, and `p` for `¬p`.
pub open spec fn spec_invert(p: Formula) -> Formula {
    match p {
        Formula::Negation { child } => *child,
        _ => Formula::Negation { child: Box::new(p) },
    }
}

/// Whether `f` is a negation of a negation.
pub open spec fn is_double_negation(f: Formula) -> bool {
    f matches Formula::Negation { child } && *child is Negation
}

/// Elimination of conjunction: `(p ∧ q)` gives `p` or `q`.
pub open spec fn spec_elim_conjunction(f: Formula, n: Choice) -> Result<Formula, Seq<char>> {
    match f {
        Formula::And { left, right } => match n {
            Choice::Left => Ok(*left),
            Choice::Right => Ok(*right),
        },
        _ => Err("Elim conjunction: Formula f must be in the form (p ∧ q)"@),
    }
}

/// Elimination of implication (modus ponens): `p` and `(p -> q)` give `q`.
pub open spec fn spec_elim_implication(p: Formula, f: Formula) -> Result<Formula, Seq<char>> {
    match f {
        Formula::Implies { left, right } => if p == *left {
            Ok(*right)
        } else {
            Err("Elim implies: Premise does not match antecedent"@)
        },
        _ => Err("Elim implies: Formula f is not an implication"@),
    }
}

/// Symmetry of equality: `(t = u)` gives `(u = t)`.
pub open spec fn spec_intro_symmetry(p: Formula) -> Result<Formula, Seq<char>> {
    match p {
        Formula::Atom { left, right } => Ok(Formula::Atom { left: right, right: left }),
        _ => Err("Symmetry: Formula must be an atom of the form (p = q)"@),
    }
}

/// Transitivity of equality: `(t = u)` and `(u = v)` give `(t = v)`.
pub open spec fn spec_intro_transitivity(p: Formula, q: Formula) -> Result<Formula, Seq<char>> {
    match (p, q) {
        (Formula::Atom { left: pl, right: pr }, Formula::Atom { left: ql, right: qr }) => {
            if pr == ql {
                Ok(Formula::Atom { left: pl, right: qr })
            } else {
                Err("Transitivity: The RHS of p and the LHS of q are not equal"@)
            }
        },
        _ => Err("Transivity: Formula p and q must be an atom of the form (p = q)"@),
    }
}

/// Adding a successor: `(t = u)` gives `(St = Su)`.
pub open spec fn spec_intro_succ(p: Formula) -> Result<Formula, Seq<char>> {
    match p {
        Formula::Atom { left, right } => Ok(
            Formula::Atom {
                left: Term::Succ { child: Box::new(left) },
                right: Term::Succ { child: Box::new(right) },
            },
        ),
        _ => Err("Fail"@),
    }
}

/// Dropping a successor: `(St = Su)` gives `(t = u)`.
pub open spec fn spec_elim_succ(p: Formula) -> Result<Formula, Seq<char>> {
    match p {
        Formula::Atom { left: Term::Succ { child: l }, right: Term::Succ { child: r } } => Ok(
            Formula::Atom { left: *l, right: *r },
        ),
        _ => Err("Fail"@),
    }
}

/// Contraposition: `(p -> q)` gives `(q' -> p')`, where `'` inverts a negation.
pub open spec fn spec_intro_contrapositive(p: Formula) -> Result<Formula, Seq<char>> {
    match p {
        Formula::Implies { left, right } => Ok(
            Formula::Implies {
                left: Box::new(spec_invert(*right)),
                right: Box::new(spec_invert(*left)),
            },
        ),
        _ => Err("Intro contrapositive: Formula must be an implication"@),
    }
}

/// De Morgan: `(p ∧ q)` and `¬(p' ∨ q')` are exchanged, as are `(p ∨ q)` and `¬(p' ∧ q')`.
pub open spec fn spec_intro_de_morgan(p: Formula) -> Result<Formula, Seq<char>> {
    let inner = match p {
        Formula::Negation { child } => *child,
        _ => p,
    };
    let was_inverted = p is Negation;
    let swapped = match inner {
        Formula::And { left, right } => Some(
            Formula::Or {
                left: Box::new(spec_invert(*left)),
                right: Box::new(spec_invert(*right)),
            },
        ),
        Formula::Or { left, right } => Some(
            Formula::And {
                left: Box::new(spec_invert(*left)),
                right: Box::new(spec_invert(*right)),
            },
        ),
        _ => None,
    };
    match swapped {
        Some(s) => if was_inverted {
            Ok(s)
        } else {
            Ok(Formula::Negation { child: Box::new(s) })
        },
        None => Err("Fail."@),
    }
}

/// Material implication: `(p ∨ q)` gives `(p' -> q)` and `(p -> q)` gives `(p' ∨ q)`.
pub open spec fn spec_intro_material_implication(p: Formula) -> Result<Formula, Seq<char>> {
    match p {
        Formula::Or { left, right } => Ok(
            Formula::Implies { left: Box::new(spec_invert(*left)), right },
        ),
        Formula::Implies { left, right } => Ok(
            Formula::Or { left: Box::new(spec_invert(*left)), right },
        ),
        _ => Err("err"@),
    }
}

/// Induction: from the step `∀v: (p -> q)` it gives `∀v: p`; the base case is not examined.
pub open spec fn spec_intro_induction(p: Formula, q: Formula) -> Result<Formula, Seq<char>> {
    match q {
        Formula::ForAll { var, body } => match *body {
            Formula::Implies { left, right } => Ok(Formula::ForAll { var, body: left }),
            _ => Err("Body must be an implication"@),
        },
        _ => Err("Formula s must be of the form ∀a: ⟨p ⊃ q⟩"@),
    }
}

/// Interchange of quantifiers: `∀v: p` and `¬∃v: p'` are exchanged, as are `∃v: p` and
/// `¬∀v: p'`.
pub open spec fn spec_intro_interchange(p: Formula) -> Result<Formula, Seq<char>> {
    let inner = match p {
        Formula::Negation { child } => *child,
        _ => p,
    };
    let was_inverted = p is Negation;
    let swapped = match inner {
        Formula::ForAll { var, body } => Some(
            Formula::Exists { var, body: Box::new(spec_invert(*body)) },
        ),
        Formula::Exists { var, body } => Some(
            Formula::ForAll { var, body: Box::new(spec_invert(*body)) },
        ),
        _ => None,
    };
    match swapped {
        Some(s) => if was_inverted {
            Ok(s)
        } else {
            Ok(Formula::Negation { child: Box::new(s) })
        },
        None => Err("Fail."@),
    }
}

// ---------------------------------------------------------------------------
// Inference rules
// ---------------------------------------------------------------------------

/// Introduction of conjunction: `p` and `q` give `(p ∧ q)`.
pub fn intro_conjunction(p: Formula, q: Formula) -> (f: Formula)
    ensures
        f == (Formula::And { left: Box::new(p), right: Box::new(q) }),
{
    new_and(p, q)
}

/// Elimination of conjunction: `(p ∧ q)` gives `p` (left) or `q` (right).
pub fn elim_conjunction(f: Formula, n: Choice) -> (r: Result<Formula, String>)
    ensures
        res_view(r) == spec_elim_conjunction(f, n),
{
    if let Formula::And { left, right } = f {
        match n {
            Choice::Left => Ok(*left),
            Choice::Right => Ok(*right),
        }
    } else {
        fail("Elim conjunction: Formula f must be in the form (p ∧ q)")
    }
}

/// Introduction of implication: `p` and `q` give `(p -> q)`.
pub fn intro_implication(p: Formula, q: Formula) -> (f: Formula)
    ensures
        f == (Formula::Implies { left: Box::new(p), right: Box::new(q) }),
{
    new_implies(p, q)
}

/// Elimination of implication: `p` and `(p -> q)` give `q`.
pub fn elim_implication(p: Formula, f: Formula) -> (r: Result<Formula, String>)
    ensures
        res_view(r) == spec_elim_implication(p, f),
{
    if let Formula::Implies { left, right } = f {
        if formula_equal(&p, &left) {
            Ok(*right)
        } else {
            fail("Elim implies: Premise does not match antecedent")
        }
    } else {
        fail("Elim implies: Formula f is not an implication")
    }
}

/// Symmetry: `(t = u)` gives `(u = t)`.
pub fn intro_symmetry(p: Formula) -> (r: Result<Formula, String>)
    ensures
        res_view(r) == spec_intro_symmetry(p),
{
    if let Formula::Atom { left, right } = p {
        Ok(Formula::Atom { left: right, right: left })
    } else {
        fail("Symmetry: Formula must be an atom of the form (p = q)")
    }
}

/// Transitivity: `(t = u)` and `(u = v)` give `(t = v)`.
pub fn intro_transitivity(p: Formula, q: Formula) -> (r: Result<Formula, String>)
    ensures
        res_view(r) == spec_intro_transitivity(p, q),
{
    if let (Formula::Atom { left: p_left, right: p_right }, Formula::Atom {
        left: q_left,
        right: q_right,
    }) = (p, q) {
        if term_equal(&p_right, &q_left) {
            Ok(Formula::Atom { left: p_left, right: q_right })
        } else {
            fail("Transitivity: The RHS of p and the LHS of q are not equal")
        }
    } else {
        fail("Transivity: Formula p and q must be an atom of the form (p = q)")
    }
}

/// Adding a successor to both sides: `(t = u)` gives `(St = Su)`.
pub fn intro_succ(p: Formula) -> (r: Result<Formula, String>)
    ensures
        res_view(r) == spec_intro_succ(p),
{
    if let Formula::Atom { left, right } = p {
        Ok(
            Formula::Atom {
                left: Term::Succ { child: Box::new(left) },
                right: Term::Succ { child: Box::new(right) },
            },
        )
    } else {
        fail("Fail")
    }
}

/// Dropping a successor from both sides: `(St = Su)` gives `(t = u)`.
pub fn elim_succ(p: Formula) -> (r: Result<Formula, String>)
    ensures
        res_view(r) == spec_elim_succ(p),
{
    if let Formula::Atom {
        left: Term::Succ { child: left_child },
        right: Term::Succ { child: right_child },
    } = p {
        Ok(Formula::Atom { left: *left_child, right: *right_child })
    } else {
        fail("Fail")
    }
}

/// Contraposition: `(p -> q)` gives `(q' -> p')`.
pub fn intro_contrapositive(p: Formula) -> (r: Result<Formula, String>)
    ensures
        res_view(r) == spec_intro_contrapositive(p),
{
    if let Formula::Implies { left, right } = p {
        Ok(new_implies(invert(*right), invert(*left)))
    } else {
        fail("Intro contrapositive: Formula must be an implication")
    }
}

/// `¬p` for `p`, and `p` for `¬p`.
fn invert(p: Formula) -> (r: Formula)
    ensures
        r == spec_invert(p),
{
    if let Formula::Negation { child: inner } = p {
        *inner
    } else {
        new_negation(p)
    }
}

/// De Morgan's laws, in either direction.
pub fn intro_de_morgan(p: Formula) -> (r: Result<Formula, String>)
    ensures
        res_view(r) == spec_intro_de_morgan(p),
{
    let mut p = p;
    let mut was_inverted = false;
    if let Formula::Negation { child: inner } = p {
        p = *inner;
        was_inverted = true;
    }
    p = match p {
        Formula::And { left, right } => new_or(invert(*left), invert(*right)),
        Formula::Or { left, right } => new_and(invert(*left), invert(*right)),
        _ => return fail("Fail."),
    };
    if !was_inverted {
        p = new_negation(p)
    }
    Ok(p)
}

/// Material implication, in either direction.
pub fn intro_material_implication(p: Formula) -> (r: Result<Formula, String>)
    ensures
        res_view(r) == spec_intro_material_implication(p),
{
    match p {
        Formula::Or { left, right } => Ok(new_implies(invert(*left), *right)),
        Formula::Implies { left, right } => Ok(new_or(invert(*left), *right)),
        _ => fail("err"),
    }
}

/// Induction: `p` is the base case and `q` the inductive step `∀v: (p -> q)`; the result
/// is `∀v: p`.
pub fn intro_induction(p: Formula, q: Formula) -> (r: Result<Formula, String>)
    ensures
        res_view(r) == spec_intro_induction(p, q),
{
    match q {
        Formula::ForAll { var, body } => match *body {
            Formula::Implies { left, right } => Ok(new_forall(var, *left)),
            _ => fail("Body must be an implication"),
        },
        _ => fail("Formula s must be of the form ∀a: ⟨p ⊃ q⟩"),
    }
}

/// Interchange of quantifiers, in either direction.
pub fn intro_interchange(p: Formula) -> (r: Result<Formula, String>)
    ensures
        res_view(r) == spec_intro_interchange(p),
{
    let mut p = p;
    let mut was_inverted = false;
    if let Formula::Negation { child: inner } = p {
        p = *inner;
        was_inverted = true;
    }
    p = match p {
        Formula::ForAll { var, body } => new_exists(var, invert(*body)),
        Formula::Exists { var, body } => new_forall(var, invert(*body)),
        _ => return fail("Fail."),
    };
    if !was_inverted {
        p = new_negation(p)
    }
    Ok(p)
}

} // verus!

verus! {

// ---------------------------------------------------------------------------
// Variables and substitution
// ---------------------------------------------------------------------------

/// `p` with every occurrence of the term `t` replaced by the variable `v`; an occurrence
/// is replaced as a whole, without looking inside it.
pub open spec fn spec_replace_term_with_var_in_term(t: Term, v: char, p: Term) -> Term
    decreases p,
{
    if t == p {
        Term::Var { var: v }
    } else {
        match p {
            Term::Zero => Term::Zero,
            Term::Var { var } => Term::Var { var },
            Term::Succ { child } => Term::Succ {
                child: Box::new(spec_replace_term_with_var_in_term(t, v, *child)),
            },
            Term::Sum { left, right } => Term::Sum {
                left: Box::new(spec_replace_term_with_var_in_term(t, v, *left)),
                right: Box::new(spec_replace_term_with_var_in_term(t, v, *right)),
            },
            Term::Product { left, right } => Term::Product {
                left: Box::new(spec_replace_term_with_var_in_term(t, v, *left)),
                right: Box::new(spec_replace_term_with_var_in_term(t, v, *right)),
            },
        }
    }
}

/// `p` with every occurrence of the term `t` in its atoms replaced by the variable `v`.
pub open spec fn spec_replace_term_with_var_in_formula(t: Term, v: char, p: Formula) -> Formula
    decreases p,
{
    match p {
        Formula::Atom { left, right } => Formula::Atom {
            left: spec_replace_term_with_var_in_term(t, v, left),
            right: spec_replace_term_with_var_in_term(t, v, right),
        },
        Formula::Negation { child } => Formula::Negation {
            child: Box::new(spec_replace_term_with_var_in_formula(t, v, *child)),
        },
        Formula::And { left, right } => Formula::And {
            left: Box::new(spec_replace_term_with_var_in_formula(t, v, *left)),
            right: Box::new(spec_replace_term_with_var_in_formula(t, v, *right)),
        },
        Formula::Or { left, right } => Formula::Or {
            left: Box::new(spec_replace_term_with_var_in_formula(t, v, *left)),
            right: Box::new(spec_replace_term_with_var_in_formula(t, v, *right)),
        },
        Formula::Implies { left, right } => Formula::Implies {
            left: Box::new(spec_replace_term_with_var_in_formula(t, v, *left)),
            right: Box::new(spec_replace_term_with_var_in_formula(t, v, *right)),
        },
        Formula::Exists { var, body } => Formula::Exists {
            var,
            body: Box::new(spec_replace_term_with_var_in_formula(t, v, *body)),
        },
        Formula::ForAll { var, body } => Formula::ForAll {
            var,
            body: Box::new(spec_replace_term_with_var_in_formula(t, v, *body)),
        },
    }
}

/// Whether no quantifier at the top of `f` (below the connectives, not inside the body of a
/// quantifier) binds `v`.
pub open spec fn spec_is_var_free_in_formula(v: char, f: Formula) -> bool
    decreases f,
{
    match f {
        Formula::Atom { .. } => true,
        Formula::Negation { child } => spec_is_var_free_in_formula(v, *child),
        Formula::And { left, right } => spec_is_var_free_in_formula(v, *left)
            && spec_is_var_free_in_formula(v, *right),
        Formula::Or { left, right } => spec_is_var_free_in_formula(v, *left)
            && spec_is_var_free_in_formula(v, *right),
        Formula::Implies { left, right } => spec_is_var_free_in_formula(v, *left)
            && spec_is_var_free_in_formula(v, *right),
        Formula::Exists { var, .. } => v != var,
        Formula::ForAll { var, .. } => v != var,
    }
}

/// The variables of a term, left to right, with repetitions.
pub open spec fn spec_vars_in_term(t: Term) -> Seq<char>
    decreases t,
{
    match t {
        Term::Zero => Seq::empty(),
        Term::Var { var } => seq![var],
        Term::Succ { child } => spec_vars_in_term(*child),
        Term::Sum { left, right } => spec_vars_in_term(*left) + spec_vars_in_term(*right),
        Term::Product { left, right } => spec_vars_in_term(*left) + spec_vars_in_term(*right),
    }
}

/// Whether the variable `v` occurs in the term `t`.
pub open spec fn spec_is_var_in_term(v: char, t: Term) -> bool
    decreases t,
{
    match t {
        Term::Zero => false,
        Term::Var { var } => var == v,
        Term::Succ { child } => spec_is_var_in_term(v, *child),
        Term::Sum { left, right } => spec_is_var_in_term(v, *left) || spec_is_var_in_term(
            v,
            *right,
        ),
        Term::Product { left, right } => spec_is_var_in_term(v, *left) || spec_is_var_in_term(
            v,
            *right,
        ),
    }
}

/// Whether the variable `v` occurs in `f`, in an atom or bound by a quantifier.
pub open spec fn spec_is_var_in_formula(v: char, f: Formula) -> bool
    decreases f,
{
    match f {
        Formula::Atom { left, right } => spec_is_var_in_term(v, left) || spec_is_var_in_term(
            v,
            right,
        ),
        Formula::Negation { child } => spec_is_var_in_formula(v, *child),
        Formula::And { left, right } => spec_is_var_in_formula(v, *left)
            || spec_is_var_in_formula(v, *right),
        Formula::Or { left, right } => spec_is_var_in_formula(v, *left) || spec_is_var_in_formula(
            v,
            *right,
        ),
        Formula::Implies { left, right } => spec_is_var_in_formula(v, *left)
            || spec_is_var_in_formula(v, *right),
        Formula::Exists { var, body } => var == v || spec_is_var_in_formula(v, *body),
        Formula::ForAll { var, body } => var == v || spec_is_var_in_formula(v, *body),
    }
}

/// `p` with every occurrence of the variable `from` replaced by the term `to`, bound
/// occurrences included.
pub open spec fn spec_replace_var_in_term(p: Term, from: char, to: Term) -> Term
    decreases p,
{
    match p {
        Term::Zero => Term::Zero,
        Term::Var { var } => if var == from {
            to
        } else {
            Term::Var { var }
        },
        Term::Succ { child } => Term::Succ {
            child: Box::new(spec_replace_var_in_term(*child, from, to)),
        },
        Term::Sum { left, right } => Term::Sum {
            left: Box::new(spec_replace_var_in_term(*left, from, to)),
            right: Box::new(spec_replace_var_in_term(*right, from, to)),
        },
        Term::Product { left, right } => Term::Product {
            left: Box::new(spec_replace_var_in_term(*left, from, to)),
            right: Box::new(spec_replace_var_in_term(*right, from, to)),
        },
    }
}

/// `p` with every occurrence of the variable `from` in its atoms replaced by the term `to`;
/// the quantifiers of `p` are kept as they are.
pub open spec fn spec_replace_var_in_formula(p: Formula, from: char, to: Term) -> Formula
    decreases p,
{
    match p {
        Formula::Atom { left, right } => Formula::Atom {
            left: spec_replace_var_in_term(left, from, to),
            right: spec_replace_var_in_term(right, from, to),
        },
        Formula::Negation { child } => Formula::Negation {
            child: Box::new(spec_replace_var_in_formula(*child, from, to)),
        },
        Formula::And { left, right } => Formula::And {
            left: Box::new(spec_replace_var_in_formula(*left, from, to)),
            right: Box::new(spec_replace_var_in_formula(*right, from, to)),
        },
        Formula::Or { left, right } => Formula::Or {
            left: Box::new(spec_replace_var_in_formula(*left, from, to)),
            right: Box::new(spec_replace_var_in_formula(*right, from, to)),
        },
        Formula::Implies { left, right } => Formula::Implies {
            left: Box::new(spec_replace_var_in_formula(*left, from, to)),
            right: Box::new(spec_replace_var_in_formula(*right, from, to)),
        },
        Formula::Exists { var, body } => Formula::Exists {
            var,
            body: Box::new(spec_replace_var_in_formula(*body, from, to)),
        },
        Formula::ForAll { var, body } => Formula::ForAll {
            var,
            body: Box::new(spec_replace_var_in_formula(*body, from, to)),
        },
    }
}

/// The first of `vars[i]`, `vars[i + 1]`, ... that a quantifier at the top of `p` binds.
pub open spec fn spec_first_bound_var_from(vars: Seq<char>, p: Formula, i: int) -> Option<char>
    decreases vars.len() - i,
{
    if i < 0 || i >= vars.len() {
        None
    } else if !spec_is_var_free_in_formula(vars[i], p) {
        Some(vars[i])
    } else {
        spec_first_bound_var_from(vars, p, i + 1)
    }
}

/// The first variable of the term `t`, left to right, that a quantifier at the top of `p`
/// binds.
pub open spec fn spec_first_bound_var(t: Term, p: Formula) -> Option<char> {
    spec_first_bound_var_from(spec_vars_in_term(t), p, 0)
}

/// Introduction of the existential: `∃v: p[v/t]`, refused where a variable of `t` is not
/// free in `p`; the error names the first such variable.
pub open spec fn spec_intro_exists(t: Term, v: char, p: Formula) -> Result<Formula, Seq<char>> {
    match spec_first_bound_var(t, p) {
        Some(x) => Err("Var "@ + seq![x] + " is not free"@),
        None => Ok(
            Formula::Exists {
                var: v,
                body: Box::new(spec_replace_term_with_var_in_formula(t, v, p)),
            },
        ),
    }
}

/// Whether some quantifier of `f`, at any depth, binds `v`.
pub open spec fn spec_is_quantified_in(v: char, f: Formula) -> bool
    decreases f,
{
    match f {
        Formula::Atom { .. } => false,
        Formula::Negation { child } => spec_is_quantified_in(v, *child),
        Formula::And { left, right } => spec_is_quantified_in(v, *left) || spec_is_quantified_in(
            v,
            *right,
        ),
        Formula::Or { left, right } => spec_is_quantified_in(v, *left) || spec_is_quantified_in(
            v,
            *right,
        ),
        Formula::Implies { left, right } => spec_is_quantified_in(v, *left)
            || spec_is_quantified_in(v, *right),
        Formula::Exists { var, body } => var == v || spec_is_quantified_in(v, *body),
        Formula::ForAll { var, body } => var == v || spec_is_quantified_in(v, *body),
    }
}

/// Whether some variable of the term `t` is bound by a quantifier somewhere in `f`.
pub open spec fn spec_term_meets_quantifier(t: Term, f: Formula) -> bool
    decreases t,
{
    match t {
        Term::Zero => false,
        Term::Var { var } => spec_is_quantified_in(var, f),
        Term::Succ { child } => spec_term_meets_quantifier(*child, f),
        Term::Sum { left, right } => spec_term_meets_quantifier(*left, f)
            || spec_term_meets_quantifier(*right, f),
        Term::Product { left, right } => spec_term_meets_quantifier(*left, f)
            || spec_term_meets_quantifier(*right, f),
    }
}

/// Elimination of the universal: `∀v: p` and a term `t` give `p[t/v]`, refused where a
/// variable of `t` is quantified somewhere in `p`.
pub open spec fn spec_elim_forall(p: Formula, t: Term) -> Result<Formula, Seq<char>> {
    match p {
        Formula::ForAll { var, body } => if spec_term_meets_quantifier(t, *body) {
            Err("Elim forall: the term has a variable that is quantified in the formula"@)
        } else {
            Ok(spec_replace_var_in_formula(*body, var, t))
        },
        _ => Err("Error."@),
    }
}

/// `p` with every occurrence of the term `t` replaced by the variable `v`.
fn replace_term_with_var_in_term(t: Term, v: char, p: Term) -> (r: Term)
    ensures
        r == spec_replace_term_with_var_in_term(t, v, p),
    decreases p,
{
    if term_equal(&t, &p) {
        new_var(v)
    } else {
        match p {
            Term::Zero => Term::Zero,
            Term::Var { var } => Term::Var { var },
            Term::Succ { child } => new_succ(replace_term_with_var_in_term(t, v, *child)),
            Term::Sum { left, right } => new_sum(
                replace_term_with_var_in_term(t.clone(), v, *left),
                replace_term_with_var_in_term(t, v, *right),
            ),
            Term::Product { left, right } => new_product(
                replace_term_with_var_in_term(t.clone(), v, *left),
                replace_term_with_var_in_term(t, v, *right),
            ),
        }
    }
}

/// `p` with every occurrence of the term `t` in its atoms replaced by the variable `v`.
fn replace_term_with_var_in_formula(t: Term, v: char, p: Formula) -> (r: Formula)
    ensures
        r == spec_replace_term_with_var_in_formula(t, v, p),
    decreases p,
{
    match p {
        Formula::Atom { left, right } => new_atom(
            replace_term_with_var_in_term(t.clone(), v, left),
            replace_term_with_var_in_term(t.clone(), v, right),
        ),
        Formula::Negation { child } => new_negation(
            replace_term_with_var_in_formula(t, v, *child),
        ),
        Formula::And { left, right } => new_and(
            replace_term_with_var_in_formula(t.clone(), v, *left),
            replace_term_with_var_in_formula(t.clone(), v, *right),
        ),
        Formula::Or { left, right } => new_or(
            replace_term_with_var_in_formula(t.clone(), v, *left),
            replace_term_with_var_in_formula(t.clone(), v, *right),
        ),
        Formula::Implies { left, right } => new_implies(
            replace_term_with_var_in_formula(t.clone(), v, *left),
            replace_term_with_var_in_formula(t.clone(), v, *right),
        ),
        Formula::Exists { var, body } => new_exists(
            var,
            replace_term_with_var_in_formula(t, v, *body),
        ),
        Formula::ForAll { var, body } => new_forall(
            var,
            replace_term_with_var_in_formula(t, v, *body),
        ),
    }
}

/// Whether no quantifier at the top of `f` binds `v`.
fn is_var_free_in_formula(v: char, f: Formula) -> (r: bool)
    ensures
        r == spec_is_var_free_in_formula(v, f),
    decreases f,
{
    match f {
        Formula::Atom { .. } => true,
        Formula::Negation { child } => is_var_free_in_formula(v, *child),
        Formula::And { left, right } => is_var_free_in_formula(v, *left)
            && is_var_free_in_formula(v, *right),
        Formula::Or { left, right } => is_var_free_in_formula(v, *left) && is_var_free_in_formula(
            v,
            *right,
        ),
        Formula::Implies { left, right } => is_var_free_in_formula(v, *left)
            && is_var_free_in_formula(v, *right),
        Formula::Exists { var, .. } => v != var,
        Formula::ForAll { var, .. } => v != var,
    }
}

/// The variables of a term, left to right, with repetitions.
fn get_vars_in_term(t: Term) -> (r: Vec<char>)
    ensures
        r@ == spec_vars_in_term(t),
    decreases t,
{
    match t {
        Term::Zero => Vec::new(),
        Term::Var { var } => vec![var],
        Term::Succ { child } => get_vars_in_term(*child),
        Term::Sum { left, right } => {
            let mut a = get_vars_in_term(*left);
            let mut b = get_vars_in_term(*right);
            a.append(&mut b);
            a
        },
        Term::Product { left, right } => {
            let mut a = get_vars_in_term(*left);
            let mut b = get_vars_in_term(*right);
            a.append(&mut b);
            a
        },
    }
}

/// Whether the variable `v` occurs in the term `t`.
pub fn is_var_in_term(v: char, t: Term) -> (r: bool)
    ensures
        r == spec_is_var_in_term(v, t),
    decreases t,
{
    match t {
        Term::Zero => false,
        Term::Var { var } => var == v,
        Term::Succ { child } => is_var_in_term(v, *child),
        Term::Sum { left, right } => is_var_in_term(v, *left) || is_var_in_term(v, *right),
        Term::Product { left, right } => is_var_in_term(v, *left) || is_var_in_term(v, *right),
    }
}

/// Whether the variable `v` occurs in `f`, in an atom or bound by a quantifier.
pub fn is_var_in_formula(v: char, f: Formula) -> (r: bool)
    ensures
        r == spec_is_var_in_formula(v, f),
    decreases f,
{
    match f {
        Formula::Negation { child } => is_var_in_formula(v, *child),
        Formula::Atom { left, right } => is_var_in_term(v, left) || is_var_in_term(v, right),
        Formula::And { left, right } => is_var_in_formula(v, *left) || is_var_in_formula(
            v,
            *right,
        ),
        Formula::Or { left, right } => is_var_in_formula(v, *left) || is_var_in_formula(v, *right),
        Formula::Implies { left, right } => is_var_in_formula(v, *left) || is_var_in_formula(
            v,
            *right,
        ),
        Formula::Exists { var, body } => {
            if var == v {
                return true;
            }
            is_var_in_formula(v, *body)
        },
        Formula::ForAll { var, body } => {
            if var == v {
                return true;
            }
            is_var_in_formula(v, *body)
        },
    }
}

/// Introduction of the existential: `∃v: p[v/t]`, refused where a variable of `t` is bound
/// at the top of `p`.
pub fn intro_exists(t: Term, v: char, p: Formula) -> (r: Result<Formula, String>)
    ensures
        res_view(r) == spec_intro_exists(t, v, p),
{
    let vars = get_vars_in_term(t.clone());
    let n = vars.len();
    let mut i: usize = 0;
    while i < n
        invariant
            vars@ == spec_vars_in_term(t),
            n == vars.len(),
            i <= n,
            spec_first_bound_var(t, p) == spec_first_bound_var_from(vars@, p, i as int),
        decreases n - i,
    {
        let x = vars[i];
        if !is_var_free_in_formula(x, p.clone()) {
            let mut msg = String::from_str("Var ");
            msg.push(x);
            msg.append(" is not free");
            assert(msg@ =~= "Var "@ + seq![x] + " is not free"@);
            return Err(msg);
        }
        i = i + 1;
    }
    Ok(new_exists(v, replace_term_with_var_in_formula(t, v, p)))
}

/// `p` with every occurrence of the variable `from` replaced by the term `to`.
fn replace_var_in_term(p: Term, from: char, to: Term) -> (r: Term)
    ensures
        r == spec_replace_var_in_term(p, from, to),
    decreases p,
{
    match p {
        Term::Zero => new_zero(),
        Term::Var { var } => {
            if var == from {
                to.clone()
            } else {
                new_var(var)
            }
        },
        Term::Succ { child } => new_succ(replace_var_in_term(*child, from, to)),
        Term::Sum { left, right } => new_sum(
            replace_var_in_term(*left, from, to.clone()),
            replace_var_in_term(*right, from, to),
        ),
        Term::Product { left, right } => new_product(
            replace_var_in_term(*left, from, to.clone()),
            replace_var_in_term(*right, from, to),
        ),
    }
}

/// `p` with every occurrence of the variable `from` in its atoms replaced by the term `to`.
fn replace_var_in_formula(p: Formula, from: char, to: Term) -> (r: Formula)
    ensures
        r == spec_replace_var_in_formula(p, from, to),
    decreases p,
{
    match p {
        Formula::Atom { left, right } => new_atom(
            replace_var_in_term(left, from, to.clone()),
            replace_var_in_term(right, from, to),
        ),
        Formula::Negation { child } => new_negation(replace_var_in_formula(*child, from, to)),
        Formula::And { left, right } => new_and(
            replace_var_in_formula(*left, from, to.clone()),
            replace_var_in_formula(*right, from, to),
        ),
        Formula::Or { left, right } => new_or(
            replace_var_in_formula(*left, from, to.clone()),
            replace_var_in_formula(*right, from, to),
        ),
        Formula::Implies { left, right } => new_implies(
            replace_var_in_formula(*left, from, to.clone()),
            replace_var_in_formula(*right, from, to),
        ),
        Formula::Exists { var, body } => new_exists(var, replace_var_in_formula(*body, from, to)),
        Formula::ForAll { var, body } => new_forall(var, replace_var_in_formula(*body, from, to)),
    }
}

/// Whether some quantifier of `f`, at any depth, binds `v`.
pub fn is_quantified_in(v: char, f: &Formula) -> (r: bool)
    ensures
        r == spec_is_quantified_in(v, *f),
    decreases *f,
{
    match f {
        Formula::Atom { .. } => false,
        Formula::Negation { child } => is_quantified_in(v, &**child),
        Formula::And { left, right } => is_quantified_in(v, &**left) || is_quantified_in(
            v,
            &**right,
        ),
        Formula::Or { left, right } => is_quantified_in(v, &**left) || is_quantified_in(
            v,
            &**right,
        ),
        Formula::Implies { left, right } => is_quantified_in(v, &**left) || is_quantified_in(
            v,
            &**right,
        ),
        Formula::Exists { var, body } => *var == v || is_quantified_in(v, &**body),
        Formula::ForAll { var, body } => *var == v || is_quantified_in(v, &**body),
    }
}

/// Whether some variable of the term `t` is bound by a quantifier somewhere in `f`.
pub fn term_meets_quantifier(t: &Term, f: &Formula) -> (r: bool)
    ensures
        r == spec_term_meets_quantifier(*t, *f),
    decreases *t,
{
    match t {
        Term::Zero => false,
        Term::Var { var } => is_quantified_in(*var, f),
        Term::Succ { child } => term_meets_quantifier(&**child, f),
        Term::Sum { left, right } => term_meets_quantifier(&**left, f) || term_meets_quantifier(
            &**right,
            f,
        ),
        Term::Product { left, right } => term_meets_quantifier(&**left, f)
            || term_meets_quantifier(&**right, f),
    }
}

/// Elimination of the universal: `∀v: p` and `t` give `p` with `t` for `v`, refused where a
/// variable of `t` is quantified somewhere in `p`.
pub fn elim_forall(p: Formula, t: Term) -> (r: Result<Formula, String>)
    ensures
        res_view(r) == spec_elim_forall(p, t),
{
    if let Formula::ForAll { var, body } = p {
        if term_meets_quantifier(&t, &*body) {
            fail("Elim forall: the term has a variable that is quantified in the formula")
        } else {
            Ok(replace_var_in_formula(*body, var, t))
        }
    } else {
        fail("Error.")
    }
}

} // verus!

verus! {

// ---------------------------------------------------------------------------
// Axioms
// ---------------------------------------------------------------------------

/// Axiom 1: `∀a: ¬(Sa = 0)`.
pub open spec fn axiom_one() -> Formula {
    Formula::ForAll {
        var: 'a',
        body: Box::new(
            Formula::Negation {
                child: Box::new(
                    Formula::Atom {
                        left: Term::Succ { child: Box::new(Term::Var { var: 'a' }) },
                        right: Term::Zero,
                    },
                ),
            },
        ),
    }
}

/// Axiom 2: `∀a: (a + 0) = a`.
pub open spec fn axiom_two() -> Formula {
    Formula::ForAll {
        var: 'a',
        body: Box::new(
            Formula::Atom {
                left: Term::Sum {
                    left: Box::new(Term::Var { var: 'a' }),
                    right: Box::new(Term::Zero),
                },
                right: Term::Var { var: 'a' },
            },
        ),
    }
}

/// Axiom 3: `∀a: ∀b: (a + Sb) = S(a + b)`.
pub open spec fn axiom_three() -> Formula {
    Formula::ForAll {
        var: 'a',
        body: Box::new(
            Formula::ForAll {
                var: 'b',
                body: Box::new(
                    Formula::Atom {
                        left: Term::Sum {
                            left: Box::new(Term::Var { var: 'a' }),
                            right: Box::new(Term::Succ { child: Box::new(Term::Var { var: 'b' }) }),
                        },
                        right: Term::Succ {
                            child: Box::new(
                                Term::Sum {
                                    left: Box::new(Term::Var { var: 'a' }),
                                    right: Box::new(Term::Var { var: 'b' }),
                                },
                            ),
                        },
                    },
                ),
            },
        ),
    }
}

/// Axiom 4: `∀a: (a × 0) = 0`.
pub open spec fn axiom_four() -> Formula {
    Formula::ForAll {
        var: 'a',
        body: Box::new(
            Formula::Atom {
                left: Term::Product {
                    left: Box::new(Term::Var { var: 'a' }),
                    right: Box::new(Term::Zero),
                },
                right: Term::Zero,
            },
        ),
    }
}

/// Axiom 5: `∀a: ∀b: (a × Sb) = ((a × b) + a)`.
pub open spec fn axiom_five() -> Formula {
    Formula::ForAll {
        var: 'a',
        body: Box::new(
            Formula::ForAll {
                var: 'b',
                body: Box::new(
                    Formula::Atom {
                        left: Term::Product {
                            left: Box::new(Term::Var { var: 'a' }),
                            right: Box::new(Term::Succ { child: Box::new(Term::Var { var: 'b' }) }),
                        },
                        right: Term::Sum {
                            left: Box::new(
                                Term::Product {
                                    left: Box::new(Term::Var { var: 'a' }),
                                    right: Box::new(Term::Var { var: 'b' }),
                                },
                            ),
                            right: Box::new(Term::Var { var: 'a' }),
                        },
                    },
                ),
            },
        ),
    }
}

/// The axiom numbered `n`, for `n` from 1 to 5.
pub open spec fn spec_intro_axiom(n: usize) -> Result<Formula, Seq<char>> {
    if n == 1 {
        Ok(axiom_one())
    } else if n == 2 {
        Ok(axiom_two())
    } else if n == 3 {
        Ok(axiom_three())
    } else if n == 4 {
        Ok(axiom_four())
    } else if n == 5 {
        Ok(axiom_five())
    } else {
        Err("Intro axiom: n is out of range"@)
    }
}

/// The axiom numbered `n` (1 to 5) of Peano arithmetic.
pub fn intro_axiom(n: usize) -> (r: Result<Formula, String>)
    ensures
        res_view(r) == spec_intro_axiom(n),
{
    // ∀a: ¬(Sa = 0)
    let axiom_one = new_forall('a', new_negation(new_atom(new_succ(new_var('a')), new_zero())));
    // ∀a: (a + 0) = a
    let axiom_two = new_forall('a', new_atom(new_sum(new_var('a'), new_zero()), new_var('a')));
    // ∀a: ∀b: (a + Sb) = S(a + b)
    let axiom_three = new_forall(
        'a',
        new_forall(
            'b',
            new_atom(
                new_sum(new_var('a'), new_succ(new_var('b'))),
                new_succ(new_sum(new_var('a'), new_var('b'))),
            ),
        ),
    );
    // ∀a: (a × 0) = 0
    let axiom_four = new_forall(
        'a',
        new_atom(new_product(new_var('a'), new_zero()), new_zero()),
    );
    // ∀a: ∀b: (a × Sb) = ((a × b) + a)
    let axiom_five = new_forall(
        'a',
        new_forall(
            'b',
            new_atom(
                new_product(new_var('a'), new_succ(new_var('b'))),
                new_sum(new_product(new_var('a'), new_var('b')), new_var('a')),
            ),
        ),
    );
    match n {
        1 => Ok(axiom_one),
        2 => Ok(axiom_two),
        3 => Ok(axiom_three),
        4 => Ok(axiom_four),
        5 => Ok(axiom_five),
        _ => fail("Intro axiom: n is out of range"),
    }
}

} // verus!
