use jane::ast::{
    intro_axiom, new_and, new_atom, new_exists, new_forall, new_implies, new_negation, new_or,
    new_product, new_succ, new_sum, new_var, new_zero,
};
use jane::display::list_axioms;

#[test]
fn print_formulas() {
    let a = new_atom(new_var('a'), new_zero());
    assert_eq!(a.to_string(), "(a = 0)");
    assert_eq!(new_negation(a.clone()).to_string(), "¬(a = 0)");
    assert_eq!(new_and(a.clone(), a.clone()).to_string(), "((a = 0) ∧ (a = 0))");
    assert_eq!(new_or(a.clone(), a.clone()).to_string(), "((a = 0) ∨ (a = 0))");
    assert_eq!(new_implies(a.clone(), a.clone()).to_string(), "((a = 0) -> (a = 0))");
    assert_eq!(new_forall('a', a.clone()).to_string(), "∀a: (a = 0)");
    assert_eq!(new_exists('a', a).to_string(), "∃a: (a = 0)");
}

#[test]
fn print_nested_terms() {
    let t = new_succ(new_product(new_sum(new_var('x'), new_zero()), new_succ(new_var('y'))));
    assert_eq!(t.to_string(), "S((x + 0) × Sy)");
}

#[test]
fn print_axioms() {
    assert_eq!(intro_axiom(1).unwrap().to_string(), "∀a: ¬(Sa = 0)");
    assert_eq!(intro_axiom(3).unwrap().to_string(), "∀a: ∀b: ((a + Sb) = S(a + b))");
    assert_eq!(intro_axiom(5).unwrap().to_string(), "∀a: ∀b: ((a × Sb) = ((a × b) + a))");
}

#[test]
fn list_of_axioms() {
    let lines = list_axioms();
    assert_eq!(lines.len(), 5);
    assert_eq!(lines[0], "1: ∀a: ¬(Sa = 0)");
    assert_eq!(lines[1], "2: ∀a: ((a + 0) = a)");
    assert_eq!(lines[3], "4: ∀a: ((a × 0) = 0)");
}
