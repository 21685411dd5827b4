use vstd::prelude::*;
use vstd::string::StringExecFns;

use crate::ast::{intro_axiom, spec_intro_axiom, Formula, Term};

verus! {

// ---------------------------------------------------------------------------
// Text of terms and formulas
// ---------------------------------------------------------------------------

/// The printed form of a term: `0`, `v`, `St`, `(t + u)`, `(t × u)`.
pub open spec fn term_text(t: Term) -> Seq<char>
    decreases t,
{
    match t {
        Term::Zero => seq!['0'],
        Term::Var { var } => seq![var],
        Term::Succ { child } => seq!['S'] + term_text(*child),
        Term::Sum { left, right } => seq!['('] + term_text(*left) + seq![' ', '+', ' '] + term_text(
            *right,
        ) + seq![')'],
        Term::Product { left, right } => seq!['('] + term_text(*left) + seq![' ', '×', ' ']
            + term_text(*right) + seq![')'],
    }
}

/// The printed form of a formula: `(t = u)`, `¬p`, `(p ∧ q)`, `(p ∨ q)`, `(p -> q)`,
/// `∀v: p`, `∃v: p`.
pub open spec fn formula_text(f: Formula) -> Seq<char>
    decreases f,
{
    match f {
        Formula::Atom { left, right } => seq!['('] + term_text(left) + seq![' ', '=', ' ']
            + term_text(right) + seq![')'],
        Formula::Negation { child } => seq!['¬'] + formula_text(*child),
        Formula::And { left, right } => seq!['('] + formula_text(*left) + seq![' ', '∧', ' ']
            + formula_text(*right) + seq![')'],
        Formula::Or { left, right } => seq!['('] + formula_text(*left) + seq![' ', '∨', ' ']
            + formula_text(*right) + seq![')'],
        Formula::Implies { left, right } => seq!['('] + formula_text(*left) + seq![
            ' ',
            '-',
            '>',
            ' ',
        ] + formula_text(*right) + seq![')'],
        Formula::ForAll { var, body } => seq!['∀', var, ':', ' '] + formula_text(*body),
        Formula::Exists { var, body } => seq!['∃', var, ':', ' '] + formula_text(*body),
    }
}

/// Appends the printed form of `t` to `out`.
pub fn write_term(t: &Term, out: &mut String)
    ensures
        final(out)@ == old(out)@ + term_text(*t),
    decreases *t,
{
    let ghost s0 = out@;
    match t {
        Term::Zero => {
            out.push('0');
        },
        Term::Var { var } => {
            out.push(*var);
        },
        Term::Succ { child } => {
            out.push('S');
            write_term(child, out);
        },
        Term::Sum { left, right } => {
            out.push('(');
            write_term(left, out);
            out.push(' ');
            out.push('+');
            out.push(' ');
            write_term(right, out);
            out.push(')');
        },
        Term::Product { left, right } => {
            out.push('(');
            write_term(left, out);
            out.push(' ');
            out.push('×');
            out.push(' ');
            write_term(right, out);
            out.push(')');
        },
    }
    assert(out@ =~= s0 + term_text(*t));
}

/// Appends the printed form of `f` to `out`.
pub fn write_formula(f: &Formula, out: &mut String)
    ensures
        final(out)@ == old(out)@ + formula_text(*f),
    decreases *f,
{
    let ghost s0 = out@;
    match f {
        Formula::Atom { left, right } => {
            out.push('(');
            write_term(left, out);
            out.push(' ');
            out.push('=');
            out.push(' ');
            write_term(right, out);
            out.push(')');
        },
        Formula::Negation { child } => {
            out.push('¬');
            write_formula(child, out);
        },
        Formula::And { left, right } => {
            out.push('(');
            write_formula(left, out);
            out.push(' ');
            out.push('∧');
            out.push(' ');
            write_formula(right, out);
            out.push(')');
        },
        Formula::Or { left, right } => {
            out.push('(');
            write_formula(left, out);
            out.push(' ');
            out.push('∨');
            out.push(' ');
            write_formula(right, out);
            out.push(')');
        },
        Formula::Implies { left, right } => {
            out.push('(');
            write_formula(left, out);
            out.push(' ');
            out.push('-');
            out.push('>');
            out.push(' ');
            write_formula(right, out);
            out.push(')');
        },
        Formula::ForAll { var, body } => {
            out.push('∀');
            out.push(*var);
            out.push(':');
            out.push(' ');
            write_formula(body, out);
        },
        Formula::Exists { var, body } => {
            out.push('∃');
            out.push(*var);
            out.push(':');
            out.push(' ');
            write_formula(body, out);
        },
    }
    assert(out@ =~= s0 + formula_text(*f));
}

impl Term {
    /// The printed form of this term.
    pub fn to_string(&self) -> (s: String)
        ensures
            s@ == term_text(*self),
    {
        let mut s = String::new();
        write_term(self, &mut s);
        s
    }
}

impl Formula {
    /// The printed form of this formula.
    pub fn to_string(&self) -> (s: String)
        ensures
            s@ == formula_text(*self),
    {
        let mut s = String::new();
        write_formula(self, &mut s);
        s
    }
}

// ---------------------------------------------------------------------------
// Numbers
// ---------------------------------------------------------------------------

/// The decimal digit character for `d` (from 0 to 9).
pub open spec fn digit_char(d: nat) -> char {
    ((d + 48) as u32) as char
}

/// The decimal form of `n`, without leading zeros.
pub open spec fn decimal(n: nat) -> Seq<char>
    decreases n,
{
    if n < 10 {
        seq![digit_char(n)]
    } else {
        decimal(n / 10).push(digit_char(n % 10))
    }
}

/// Appends the decimal form of `n` to `out`.
pub fn write_decimal(n: usize, out: &mut String)
    ensures
        final(out)@ == old(out)@ + decimal(n as nat),
    decreases n,
{
    let ghost s0 = out@;
    if n >= 10 {
        write_decimal(n / 10, out);
    }
    let d: u8 = (n % 10) as u8;
    let c: char = (d + 48u8) as char;
    out.push(c);
    assert(out@ =~= s0 + decimal(n as nat));
}

// ---------------------------------------------------------------------------
// The list of axioms
// ---------------------------------------------------------------------------

/// The line `n: axiom` of the list of axioms.
pub open spec fn axiom_line(n: usize) -> Seq<char> {
    decimal(n as nat) + seq![':', ' '] + formula_text(spec_intro_axiom(n)->Ok_0)
}

/// The five axioms, each printed after its number: `1: ∀a: ¬(Sa = 0)` and so on.
pub fn list_axioms() -> (v: Vec<String>)
    ensures
        v.len() == 5,
        forall|i: int| 0 <= i < 5 ==> #[trigger] v[i]@ == axiom_line((i + 1) as usize),
{
    let mut vec: Vec<String> = Vec::new();
    let mut i: usize = 1;
    while i <= 5
        invariant
            1 <= i <= 6,
            vec.len() == i - 1,
            forall|j: int| 0 <= j < i - 1 ==> #[trigger] vec[j]@ == axiom_line((j + 1) as usize),
        decreases 6 - i,
    {
        let formula = match intro_axiom(i) {
            Ok(a) => a,
            Err(_) => {
                assert(false);
                return vec;
            },
        };
        let mut line = String::new();
        write_decimal(i, &mut line);
        line.push(':');
        line.push(' ');
        write_formula(&formula, &mut line);
        assert(line@ =~= axiom_line(i));
        vec.push(line);
        i = i + 1;
    }
    vec
}

} // verus!
