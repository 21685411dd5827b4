use jane::ast::{
    elim_conjunction, elim_forall, elim_implication, elim_succ, intro_axiom, intro_conjunction,
    intro_contrapositive, intro_de_morgan, intro_exists, intro_implication, intro_induction,
    intro_interchange, intro_material_implication, intro_succ, intro_symmetry,
    intro_transitivity, is_var_in_formula, is_var_in_term, new_and, new_atom, new_exists,
    new_forall, new_implies, new_negation, new_or, new_product, new_self_equal_atom, new_succ,
    new_sum, new_var, new_zero, term_equal, formula_equal, Choice, Formula, Term,
};

#[test]
fn symmetry_twice_gives_the_atom_back() {
    let p = new_atom(new_var('a'), new_succ(new_zero()));
    let once = intro_symmetry(p.clone()).unwrap();
    assert_eq!(once, new_atom(new_succ(new_zero()), new_var('a')));
    assert_eq!(intro_symmetry(once), Ok(p));
}

#[test]
fn symmetry_refuses_a_non_atom() {
    let p = new_negation(new_self_equal_atom('a'));
    assert_eq!(
        intro_symmetry(p),
        Err("Symmetry: Formula must be an atom of the form (p = q)".to_string())
    );
}

#[test]
fn successor_roundtrip() {
    let p = new_atom(new_var('a'), new_sum(new_var('b'), new_zero()));
    let up = intro_succ(p.clone()).unwrap();
    assert_eq!(elim_succ(up.clone()), Ok(p));
    assert_eq!(intro_succ(elim_succ(up.clone()).unwrap()), Ok(up));
    assert_eq!(intro_succ(new_negation(new_self_equal_atom('a'))), Err("Fail".to_string()));
}

#[test]
fn conjunction_roundtrip() {
    let p = new_self_equal_atom('p');
    let q = new_atom(new_zero(), new_zero());
    let both = intro_conjunction(p.clone(), q.clone());
    assert_eq!(both, new_and(p.clone(), q.clone()));
    assert_eq!(elim_conjunction(both.clone(), Choice::Left), Ok(p));
    assert_eq!(elim_conjunction(both, Choice::Right), Ok(q));
}

#[test]
fn conjunction_elimination_refuses_a_non_conjunction() {
    let p = new_or(new_self_equal_atom('p'), new_self_equal_atom('q'));
    assert_eq!(
        elim_conjunction(p, Choice::Left),
        Err("Elim conjunction: Formula f must be in the form (p ∧ q)".to_string())
    );
}

#[test]
fn modus_ponens() {
    let p = new_self_equal_atom('p');
    let q = new_atom(new_succ(new_zero()), new_succ(new_zero()));
    let imp = intro_implication(p.clone(), q.clone());
    assert_eq!(imp, new_implies(p.clone(), q.clone()));
    assert_eq!(elim_implication(p, imp), Ok(q));
}

#[test]
fn modus_ponens_errors() {
    let p = new_self_equal_atom('p');
    let r = new_self_equal_atom('r');
    let q = new_self_equal_atom('q');
    assert_eq!(
        elim_implication(r, new_implies(p.clone(), q.clone())),
        Err("Elim implies: Premise does not match antecedent".to_string())
    );
    assert_eq!(
        elim_implication(p.clone(), new_and(p, q)),
        Err("Elim implies: Formula f is not an implication".to_string())
    );
}

#[test]
fn contrapositive_twice_gives_the_implication_back() {
    let x = new_self_equal_atom('x');
    let y = new_negation(new_self_equal_atom('y'));
    let p = new_implies(x, y);
    let once = intro_contrapositive(p.clone()).unwrap();
    assert_eq!(intro_contrapositive(once), Ok(p));
}

#[test]
fn contrapositive_of_a_double_negation_loses_it() {
    let x = new_negation(new_negation(new_self_equal_atom('x')));
    let y = new_self_equal_atom('y');
    let p = new_implies(x, y.clone());
    let twice = intro_contrapositive(intro_contrapositive(p.clone()).unwrap()).unwrap();
    assert_eq!(twice, new_implies(new_self_equal_atom('x'), y));
    assert_ne!(twice, p);
}

#[test]
fn material_implication_twice_gives_the_formula_back() {
    let p = new_or(new_negation(new_self_equal_atom('x')), new_self_equal_atom('y'));
    let once = intro_material_implication(p.clone()).unwrap();
    assert_eq!(intro_material_implication(once), Ok(p));
}

#[test]
fn de_morgan_twice_gives_the_formula_back() {
    let p = new_or(new_negation(new_self_equal_atom('x')), new_self_equal_atom('y'));
    let once = intro_de_morgan(p.clone()).unwrap();
    assert_eq!(
        once,
        new_negation(new_and(new_self_equal_atom('x'), new_negation(new_self_equal_atom('y'))))
    );
    assert_eq!(intro_de_morgan(once), Ok(p));
    assert_eq!(intro_de_morgan(new_self_equal_atom('x')), Err("Fail.".to_string()));
}

#[test]
fn interchange_twice_gives_the_formula_back() {
    let p = new_exists('a', new_atom(new_var('a'), new_zero()));
    let once = intro_interchange(p.clone()).unwrap();
    assert_eq!(
        once,
        new_negation(new_forall('a', new_negation(new_atom(new_var('a'), new_zero()))))
    );
    assert_eq!(intro_interchange(once), Ok(p));
}

#[test]
fn elim_forall_with_its_own_variable_gives_the_body() {
    let body = new_atom(new_sum(new_var('a'), new_zero()), new_var('a'));
    let p = new_forall('a', body.clone());
    assert_eq!(elim_forall(p, new_var('a')), Ok(body));
}

#[test]
fn elim_forall_refuses_a_non_universal() {
    let p = new_exists('a', new_self_equal_atom('a'));
    assert_eq!(elim_forall(p, new_zero()), Err("Error.".to_string()));
}

#[test]
fn elim_forall_replaces_bound_occurrences_too() {
    // ∀a: ∃a: (a = 0) instantiated with S0 replaces the inner a as well.
    let p = new_forall('a', new_exists('a', new_atom(new_var('a'), new_zero())));
    let expected = new_exists('a', new_atom(new_succ(new_zero()), new_zero()));
    assert_eq!(elim_forall(p, new_succ(new_zero())), Ok(expected));
}

#[test]
fn transitivity_with_the_mirror_gives_a_reflexive_atom() {
    let p = new_atom(new_var('a'), new_succ(new_var('b')));
    let mirror = intro_symmetry(p.clone()).unwrap();
    assert_eq!(intro_transitivity(p, mirror), Ok(new_atom(new_var('a'), new_var('a'))));
}

#[test]
fn transitivity_refuses_non_atoms() {
    let p = new_negation(new_self_equal_atom('a'));
    let q = new_self_equal_atom('a');
    assert_eq!(
        intro_transitivity(p, q),
        Err("Transivity: Formula p and q must be an atom of the form (p = q)".to_string())
    );
    assert_eq!(
        intro_transitivity(new_self_equal_atom('a'), new_self_equal_atom('b')),
        Err("Transitivity: The RHS of p and the LHS of q are not equal".to_string())
    );
}

#[test]
fn axioms_are_numbered_one_to_five() {
    assert_eq!(intro_axiom(0), Err("Intro axiom: n is out of range".to_string()));
    assert_eq!(intro_axiom(6), Err("Intro axiom: n is out of range".to_string()));
    for n in 1..=5 {
        assert!(matches!(intro_axiom(n), Ok(Formula::ForAll { .. })));
    }
    assert_eq!(
        intro_axiom(4),
        Ok(new_forall('a', new_atom(new_product(new_var('a'), new_zero()), new_zero())))
    );
}

#[test]
fn induction_errors() {
    let base = new_self_equal_atom('a');
    assert_eq!(
        intro_induction(base.clone(), new_self_equal_atom('b')),
        Err("Formula s must be of the form ∀a: ⟨p ⊃ q⟩".to_string())
    );
    assert_eq!(
        intro_induction(base, new_forall('d', new_self_equal_atom('d'))),
        Err("Body must be an implication".to_string())
    );
}

#[test]
fn intro_exists_refuses_a_bound_variable() {
    // The variable `a` of the term is bound at the top of axiom 1.
    let axiom_one = intro_axiom(1).unwrap();
    assert_eq!(intro_exists(new_var('a'), 'b', axiom_one), Err("Var a is not free".to_string()));
}

#[test]
fn intro_exists_names_the_first_bound_variable_of_the_term() {
    // `c` is free in the formula, `b` is bound at its top.
    let p = new_forall('b', new_atom(new_var('b'), new_var('c')));
    assert_eq!(
        intro_exists(new_sum(new_var('c'), new_var('b')), 'x', p.clone()),
        Err("Var b is not free".to_string())
    );
    // A term whose variables are all free is accepted, whatever the new variable is.
    assert_eq!(
        intro_exists(new_var('c'), 'b', p.clone()),
        Ok(new_exists('b', new_forall('b', new_atom(new_var('b'), new_var('b')))))
    );
}

#[test]
fn elim_forall_refuses_a_term_that_would_be_captured() {
    // ∀a: ∀b: (a + Sb) = S(a + b) instantiated with b would capture b.
    let axiom_three = intro_axiom(3).unwrap();
    assert_eq!(
        elim_forall(axiom_three.clone(), new_var('b')),
        Err("Elim forall: the term has a variable that is quantified in the formula".to_string())
    );
    assert!(elim_forall(axiom_three.clone(), new_succ(new_var('b'))).is_err());
    // A variable that no quantifier of the body binds is fine.
    assert_eq!(
        elim_forall(axiom_three, new_var('c')),
        Ok(new_forall(
            'b',
            new_atom(
                new_sum(new_var('c'), new_succ(new_var('b'))),
                new_succ(new_sum(new_var('c'), new_var('b')))
            )
        ))
    );
}

#[test]
fn intro_exists_replaces_the_term() {
    let p = new_atom(new_sum(new_var('c'), new_zero()), new_var('c'));
    let expected = new_exists('x', new_atom(new_var('x'), new_var('c')));
    assert_eq!(intro_exists(new_sum(new_var('c'), new_zero()), 'x', p), Ok(expected));
}

#[test]
fn variables_in_terms_and_formulas() {
    let t = new_product(new_succ(new_var('a')), new_zero());
    assert!(is_var_in_term('a', t.clone()));
    assert!(!is_var_in_term('b', t.clone()));
    let f = new_exists('b', new_atom(t.clone(), new_zero()));
    assert!(is_var_in_formula('b', f.clone()));
    assert!(is_var_in_formula('a', f.clone()));
    assert!(!is_var_in_formula('c', f));
}

#[test]
fn operators_build_terms() {
    assert_eq!(new_var('b') + new_var('c'), new_sum(new_var('b'), new_var('c')));
    assert_eq!(new_var('b') * new_zero(), new_product(new_var('b'), new_zero()));
}

#[test]
fn equality_and_copies() {
    let t = new_sum(new_succ(new_var('a')), new_product(new_zero(), new_var('b')));
    let u = t.clone();
    assert!(term_equal(&t, &u));
    assert!(!term_equal(&t, &new_zero()));
    let f = new_forall('a', new_or(new_atom(t.clone(), u), new_negation(new_self_equal_atom('z'))));
    let g = f.clone();
    assert!(formula_equal(&f, &g));
    assert!(!formula_equal(&f, &new_exists('a', new_self_equal_atom('z'))));
    let _ = Term::Zero;
}
