use jane::ast::{
    elim_forall, elim_succ, intro_axiom, intro_contrapositive, intro_de_morgan, intro_exists,
    intro_induction, intro_interchange, intro_material_implication, intro_succ, intro_symmetry,
    intro_transitivity, new_and, new_atom, new_exists, new_forall, new_implies, new_negation,
    new_or, new_product, new_self_equal_atom, new_succ, new_sum, new_var, new_zero, Formula, Term,
};

// Printing

#[test]
fn test_print_zero() {
    let zero_term = Term::Zero;

    let expected = "0".to_string();
    let actual = zero_term.to_string();

    assert_eq!(actual, expected)
}

#[test]
fn test_print_succ_zero() {
    let succ_zero_term = Term::Succ {
        child: Box::new(Term::Zero),
    };

    let expected = "S0".to_string();
    let actual = succ_zero_term.to_string();

    assert_eq!(actual, expected)
}

#[test]
fn test_print_var() {
    let var_term = Term::Var { var: 'j' };

    let expected = "j".to_string();
    let actual = var_term.to_string();

    assert_eq!(actual, expected)
}

#[test]
fn test_print_succ_var() {
    let succ_var_term = Term::Succ {
        child: Box::new(Term::Var { var: 'j' }),
    };

    let expected = "Sj".to_string();
    let actual = succ_var_term.to_string();

    assert_eq!(actual, expected)
}

#[test]
fn test_print_sum() {
    let sum_term = new_sum(new_var('a'), new_var('b'));
    let expected = "(a + b)".to_string();
    let actual = sum_term.to_string();

    assert_eq!(actual, expected);
}

#[test]
fn test_print_product() {
    let product_term = new_product(new_var('a'), new_var('b'));
    let expected = "(a × b)".to_string();
    let actual = product_term.to_string();

    assert_eq!(actual, expected);
}

#[test]
fn test_print_sum_of_zero_and_one() {
    let sum_term = new_sum(new_zero(), new_succ(new_zero()));

    let expected = "(0 + S0)".to_string();
    let actual = sum_term.to_string();

    assert_eq!(actual, expected)
}

#[test]
fn test_print_product_of_one_and_one() {
    let prod_term = new_product(new_succ(new_zero()), new_succ(new_zero()));

    let expected = "(S0 × S0)".to_string();
    let actual = prod_term.to_string();

    assert_eq!(actual, expected)
}

#[test]
fn test_equality_of_formulas() {
    let form_one = Formula::Atom {
        left: Term::Zero,
        right: Term::Succ {
            child: Box::new(Term::Zero),
        },
    };

    let form_two = Formula::Atom {
        left: Term::Zero,
        right: Term::Zero,
    };

    let expected = false;
    let actual = form_one == form_two;

    assert_eq!(actual, expected);
}

// Transitivity

#[test]
fn test_intro_transitivity_success() {
    // (a = Sb)
    let form_one = Formula::Atom {
        left: Term::Var { var: 'a' },
        right: Term::Succ {
            child: Box::new(Term::Var { var: 'b' }),
        },
    };

    // (Sb = c)
    let form_two = Formula::Atom {
        left: Term::Succ {
            child: Box::new(Term::Var { var: 'b' }),
        },
        right: Term::Var { var: 'c' },
    };

    let expected = Ok(Formula::Atom {
        left: Term::Var { var: 'a' },
        right: Term::Var { var: 'c' },
    });

    // (a = c)
    let actual = intro_transitivity(form_one, form_two);

    assert_eq!(actual, expected);
}

#[test]
fn test_intro_transitivity_fail() {
    // (a = Sb)
    let form_one = new_atom(new_var('a'), new_succ(new_var('b')));

    // (b = c)
    let form_two = new_atom(new_var('b'), new_var('c'));

    let actual = intro_transitivity(form_one, form_two);

    assert!(actual.is_err());
}

// Successor

#[test]
fn test_intro_succ_success() {
    // (a = Sb)
    let form_one = new_atom(new_var('a'), new_succ(new_var('b')));

    // (Sa = SSb)
    let expected = Ok(new_atom(
        new_succ(new_var('a')),
        new_succ(new_succ(new_var('b'))),
    ));

    let actual = intro_succ(form_one);

    assert_eq!(actual, expected);
}

#[test]
fn test_elim_succ_success() {
    // (Sa = SSb)
    let form_one = new_atom(new_succ(new_var('a')), new_succ(new_succ(new_var('b'))));

    // (a = Sb)
    let expected = Ok(new_atom(new_var('a'), new_succ(new_var('b'))));

    let actual = elim_succ(form_one);

    assert_eq!(actual, expected);
}

#[test]
fn test_elim_succ_fail() {
    // (a = Sb)
    let form_one = new_atom(new_var('a'), new_succ(new_var('b')));

    let actual = elim_succ(form_one);

    assert!(actual.is_err());
}

// Contrapositive

#[test]
fn test_intro_contrapositive_one() {
    let atom_x = new_self_equal_atom('x');
    let atom_y = new_self_equal_atom('y');
    // x ->  y
    let formula = new_implies(atom_x.clone(), atom_y.clone());

    // ~y -> ~x
    let expected = Ok(new_implies(new_negation(atom_y), new_negation(atom_x)));

    let actual = intro_contrapositive(formula);

    assert_eq!(actual, expected);
}

#[test]
fn test_intro_contrapositive_two() {
    let atom_x = new_self_equal_atom('x');
    let atom_y = new_self_equal_atom('y');
    // ~x ->  y
    let formula = new_implies(new_negation(atom_x.clone()), atom_y.clone());

    // ~y ->  x
    let expected = Ok(new_implies(new_negation(atom_y), atom_x));

    let actual = intro_contrapositive(formula);

    assert_eq!(actual, expected);
}

#[test]
fn test_intro_contrapositive_three() {
    let atom_x = new_self_equal_atom('x');
    let atom_y = new_self_equal_atom('y');
    // x -> ~y
    let formula = new_implies(atom_x.clone(), new_negation(atom_y.clone()));

    // y -> ~x
    let expected = Ok(new_implies(atom_y, new_negation(atom_x)));

    let actual = intro_contrapositive(formula);

    assert_eq!(actual, expected);
}

#[test]
fn test_intro_contrapositive_four() {
    let atom_x = new_self_equal_atom('x');
    let atom_y = new_self_equal_atom('y');
    // ~x -> ~y
    let formula = new_implies(new_negation(atom_x.clone()), new_negation(atom_y.clone()));

    // y ->  x
    let expected = Ok(new_implies(atom_y, atom_x));

    let actual = intro_contrapositive(formula);

    assert_eq!(actual, expected);
}

#[test]
fn test_intro_contrapositive_fail() {
    let atom_a = new_self_equal_atom('a');
    let atom_b = new_self_equal_atom('b');
    let formula = new_and(atom_b, new_negation(atom_a));

    let actual = intro_contrapositive(formula);

    assert!(actual.is_err());
}

#[test]
fn test_intro_contrapositive_one_success() {
    let form_one = new_implies(
        new_atom(new_var('a'), new_var('a')),
        new_atom(new_var('b'), new_var('b')),
    );

    let expected = Ok(new_implies(
        new_negation(new_atom(new_var('b'), new_var('b'))),
        new_negation(new_atom(new_var('a'), new_var('a'))),
    ));

    let actual = intro_contrapositive(form_one);

    assert_eq!(actual, expected);
}

#[test]
fn test_intro_contrapositive_two_success() {
    let form_one = new_implies(
        new_negation(new_atom(new_var('b'), new_var('b'))),
        new_negation(new_atom(new_var('a'), new_var('a'))),
    );

    let expected = Ok(new_implies(
        new_atom(new_var('a'), new_var('a')),
        new_atom(new_var('b'), new_var('b')),
    ));

    let actual = intro_contrapositive(form_one);

    assert_eq!(actual, expected);
}

#[test]
fn test_intro_contrapositive_three_success() {
    let form_one = new_implies(
        new_atom(new_var('b'), new_var('b')),
        new_negation(new_atom(new_var('a'), new_var('a'))),
    );

    let expected = Ok(new_implies(
        new_atom(new_var('a'), new_var('a')),
        new_negation(new_atom(new_var('b'), new_var('b'))),
    ));

    let actual = intro_contrapositive(form_one);

    assert_eq!(actual, expected);
}

#[test]
fn test_intro_contrapositive_four_success() {
    let form_one = new_implies(
        new_negation(new_atom(new_var('b'), new_var('b'))),
        new_atom(new_var('a'), new_var('a')),
    );

    let expected = Ok(new_implies(
        new_negation(new_atom(new_var('a'), new_var('a'))),
        new_atom(new_var('b'), new_var('b')),
    ));

    let actual = intro_contrapositive(form_one);

    assert_eq!(actual, expected);
}

#[test]
fn test_intro_contrapositive_success_fail() {}

// Material implication

#[test]
fn test_material_implication_one() {
    let atom_x = new_self_equal_atom('x');
    let atom_y = new_self_equal_atom('y');
    // x | y
    let formula = new_or(atom_x.clone(), atom_y.clone());
    // ~x -> y
    let expected = Ok(new_implies(new_negation(atom_x), atom_y));
    let actual = intro_material_implication(formula);
    assert_eq!(actual, expected);
}

#[test]
fn test_material_implication_two() {
    let atom_x = new_self_equal_atom('x');
    let atom_y = new_self_equal_atom('y');
    // ~x | y
    let formula = new_or(new_negation(atom_x.clone()), atom_y.clone());
    // x -> y
    let expected = Ok(new_implies(atom_x, atom_y));
    let actual = intro_material_implication(formula);
    assert_eq!(actual, expected);
}

#[test]
fn test_material_implication_three() {
    let atom_x = new_self_equal_atom('x');
    let atom_y = new_self_equal_atom('y');
    // x | ~y
    let formula = new_or(atom_x.clone(), new_negation(atom_y.clone()));
    // ~x -> ~y
    let expected = Ok(new_implies(new_negation(atom_x), new_negation(atom_y)));
    let actual = intro_material_implication(formula);
    assert_eq!(actual, expected);
}

#[test]
fn test_material_implication_four() {
    let atom_x = new_self_equal_atom('x');
    let atom_y = new_self_equal_atom('y');
    // ~x | ~y
    let formula = new_or(new_negation(atom_x.clone()), new_negation(atom_y.clone()));
    // x -> ~y
    let expected = Ok(new_implies(atom_x, new_negation(atom_y)));
    let actual = intro_material_implication(formula);
    assert_eq!(actual, expected);
}

#[test]
fn test_material_implication_reverse_one() {
    let atom_x = new_self_equal_atom('x');
    let atom_y = new_self_equal_atom('y');
    // ~x -> y
    let formula = new_implies(new_negation(atom_x.clone()), atom_y.clone());
    // x | y
    let expected = Ok(new_or(atom_x, atom_y));
    let actual = intro_material_implication(formula);
    assert_eq!(actual, expected);
}

#[test]
fn test_material_implication_reverse_two() {
    let atom_x = new_self_equal_atom('x');
    let atom_y = new_self_equal_atom('y');
    // x -> y
    let formula = new_implies(atom_x.clone(), atom_y.clone());
    // ~x | y
    let expected = Ok(new_or(new_negation(atom_x), atom_y));
    let actual = intro_material_implication(formula);
    assert_eq!(actual, expected);
}

#[test]
fn test_material_implication_reverse_three() {
    let atom_x = new_self_equal_atom('x');
    let atom_y = new_self_equal_atom('y');
    // ~x -> ~y
    let formula = new_implies(new_negation(atom_x.clone()), new_negation(atom_y.clone()));
    // x | ~y
    let expected = Ok(new_or(atom_x, new_negation(atom_y)));
    let actual = intro_material_implication(formula);
    assert_eq!(actual, expected);
}

#[test]
fn test_material_implication_reverse_four() {
    let atom_x = new_self_equal_atom('x');
    let atom_y = new_self_equal_atom('y');
    // x -> ~y
    let formula = new_implies(atom_x.clone(), new_negation(atom_y.clone()));
    // ~x | ~y
    let expected = Ok(new_or(new_negation(atom_x), new_negation(atom_y)));
    let actual = intro_material_implication(formula);
    assert_eq!(actual, expected);
}

#[test]
fn test_material_implication_fail() {
    let formula = new_self_equal_atom('x');
    let actual = intro_material_implication(formula);
    assert!(actual.is_err());
}

// De Morgan

#[test]
fn test_intro_de_morgan_one() {
    let atom_x = new_self_equal_atom('x');
    let atom_y = new_self_equal_atom('y');

    // ~x ∧ ~y
    let formula = new_and(new_negation(atom_x.clone()), new_negation(atom_y.clone()));
    // ~(x ∨ y)
    let expected = Ok(new_negation(new_or(atom_x, atom_y)));

    let actual = intro_de_morgan(formula);

    assert_eq!(actual, expected);
}

#[test]
fn test_intro_de_morgan_two() {
    let atom_x = new_self_equal_atom('x');
    let atom_y = new_self_equal_atom('y');

    // x ∧ ~y
    let formula = new_and(atom_x.clone(), new_negation(atom_y.clone()));
    // ~(~x ∨ y)
    let expected = Ok(new_negation(new_or(new_negation(atom_x), atom_y)));

    let actual = intro_de_morgan(formula);

    assert_eq!(actual, expected);
}

#[test]
fn test_intro_de_morgan_three() {
    let atom_x = new_self_equal_atom('x');
    let atom_y = new_self_equal_atom('y');

    // ~x ∧ y
    let formula = new_and(new_negation(atom_x.clone()), atom_y.clone());
    // ~(x ∨ ~y)
    let expected = Ok(new_negation(new_or(atom_x, new_negation(atom_y))));

    let actual = intro_de_morgan(formula);

    assert_eq!(actual, expected);
}

#[test]
fn test_intro_de_morgan_four() {
    let atom_x = new_self_equal_atom('x');
    let atom_y = new_self_equal_atom('y');

    // x ∧ y
    let formula = new_and(atom_x.clone(), atom_y.clone());
    // ~(~x ∨ ~y)
    let expected = Ok(new_negation(new_or(
        new_negation(atom_x),
        new_negation(atom_y),
    )));

    let actual = intro_de_morgan(formula);

    assert_eq!(actual, expected);
}

#[test]
fn test_intro_de_morgan_reverse_one() {
    let atom_x = new_self_equal_atom('x');
    let atom_y = new_self_equal_atom('y');

    // ~(x ∨ y)
    let formula = new_negation(new_or(atom_x.clone(), atom_y.clone()));
    // ~x ∧ ~y
    let expected = Ok(new_and(
        new_negation(atom_x.clone()),
        new_negation(atom_y.clone()),
    ));

    let actual = intro_de_morgan(formula);

    assert_eq!(actual, expected);
}

#[test]
fn test_intro_de_morgan_reverse_two() {
    let atom_x = new_self_equal_atom('x');
    let atom_y = new_self_equal_atom('y');

    // ~(~x ∨ y)
    let formula = new_negation(new_or(new_negation(atom_x.clone()), atom_y.clone()));
    // x ∧ ~y
    let expected = Ok(new_and(atom_x, new_negation(atom_y)));

    let actual = intro_de_morgan(formula);

    assert_eq!(actual, expected);
}

#[test]
fn test_intro_de_morgan_reverse_three() {
    let atom_x = new_self_equal_atom('x');
    let atom_y = new_self_equal_atom('y');

    // ~(x ∨ ~y)
    let formula = new_negation(new_or(atom_x.clone(), new_negation(atom_y.clone())));
    // ~x ∧ y
    let expected = Ok(new_and(new_negation(atom_x), atom_y));

    let actual = intro_de_morgan(formula);

    assert_eq!(actual, expected);
}

#[test]
fn test_intro_de_morgan_reverse_four() {
    let atom_x = new_self_equal_atom('x');
    let atom_y = new_self_equal_atom('y');

    // ~(~x ∨ ~y)
    let formula = new_negation(new_or(
        new_negation(atom_x.clone()),
        new_negation(atom_y.clone()),
    ));
    // x ∧ y
    let expected = Ok(new_and(atom_x, atom_y));

    let actual = intro_de_morgan(formula);

    assert_eq!(actual, expected);
}

#[test]
fn test_intro_de_morgan_fail() {
    let atom_x = new_self_equal_atom('x');
    let atom_y = new_self_equal_atom('y');
    // x -> y
    let formula = new_implies(atom_x, atom_y);

    let actual = intro_de_morgan(formula);

    assert!(actual.is_err());
}

// Interchange

#[test]
fn test_interchange_not_exists_to_forall_not_success() {
    let formula = new_negation(new_exists('a', new_self_equal_atom('a')));
    let actual = intro_interchange(formula);

    let expected = Ok(new_forall('a', new_negation(new_self_equal_atom('a'))));

    assert_eq!(actual, expected);
}

#[test]
fn test_interchange_not_forall_to_exists_not_success() {
    let formula = new_negation(new_forall('a', new_self_equal_atom('a')));
    let actual = intro_interchange(formula);

    let expected = Ok(new_exists('a', new_negation(new_self_equal_atom('a'))));

    assert_eq!(actual, expected);
}

#[test]
fn test_interchange_exists_not_to_not_forall_success() {
    let formula = new_exists('a', new_negation(new_self_equal_atom('a')));
    let actual = intro_interchange(formula);

    let expected = Ok(new_negation(new_forall('a', new_self_equal_atom('a'))));

    assert_eq!(actual, expected);
}

#[test]
fn test_interchange_forall_not_to_not_exists_success() {
    let formula = new_forall('a', new_negation(new_self_equal_atom('a')));
    let actual = intro_interchange(formula);

    let expected = Ok(new_negation(new_exists('a', new_self_equal_atom('a'))));

    assert_eq!(actual, expected);
}

#[test]
fn test_interchange_fail() {
    let formula = new_self_equal_atom('a');
    let actual = intro_interchange(formula);
    assert!(actual.is_err())
}

// Existential

#[test]
fn test_intro_exists() {
    // Va: -Sa=O
    let axiom_one = intro_axiom(1).unwrap();
    // Eb: Va: -Sa=b
    let expected = Ok(new_exists(
        'b',
        new_forall(
            'a',
            new_negation(new_atom(new_succ(new_var('a')), new_var('b'))),
        ),
    ));
    let actual = intro_exists(Term::Zero, 'b', axiom_one);
    assert_eq!(actual, expected);
}

// Other rules

#[test]
fn test_elim_forall_success() {
    // ∀a:∀b:(a + Sb) = S(a + b)
    let formula = new_forall(
        'a',
        new_forall(
            'b',
            new_atom(
                new_sum(new_var('a'), new_succ(new_var('b'))),
                new_succ(new_sum(new_var('a'), new_var('b'))),
            ),
        ),
    );

    // 0
    let term = Term::Zero;

    // ∀b:(0 + Sb) = S(0 + b)
    let expected = Ok(new_forall(
        'b',
        new_atom(
            new_sum(new_zero(), new_succ(new_var('b'))),
            new_succ(new_sum(new_zero(), new_var('b'))),
        ),
    ));

    let actual = elim_forall(formula, term);

    println!("{}", actual.clone().unwrap().to_string());
    println!("{}", expected.clone().unwrap().to_string());
    assert_eq!(actual, expected);
}

#[test]
fn test_elim_forall_two_success() {
    // ∀b:(0 + Sb) = S(0 + b)
    let formula = new_forall(
        'b',
        new_atom(
            new_sum(new_zero(), new_succ(new_var('b'))),
            new_succ(new_sum(new_zero(), new_var('b'))),
        ),
    );

    // (b + c)
    let term = new_var('b') + new_var('c');

    // (0 + S(b + c)) = S(0 + (b + c))
    let expected = Ok(new_atom(
        new_sum(new_zero(), new_succ(new_sum(new_var('b'), new_var('c')))),
        new_succ(new_sum(new_zero(), new_sum(new_var('b'), new_var('c')))),
    ));

    let actual = elim_forall(formula, term);

    println!("{}", actual.clone().unwrap().to_string());
    println!("{}", expected.clone().unwrap().to_string());
    assert_eq!(actual, expected);
}

#[test]
fn test_specification_restriction() {
    // The term which replaces u must not contain any variable that is quantified in x.
}

#[test]
fn test_generalization_restriction() {
    // Restriction: No generalization is allowed in a subproof on any
    // variable which appeared free in the subproof's premise.
}

#[test]
fn test_intro_symmetry() {
    // 0 = S0
    let formula = new_atom(new_zero(), new_succ(new_zero()));
    // S0 = 0
    let expected = Ok(new_atom(new_succ(new_zero()), new_zero()));

    let actual = intro_symmetry(formula);

    assert_eq!(actual, expected);
}

#[test]
fn test_induction() {
    // Ac: (c + 0) = (0 + c)
    let formula_one = new_forall(
        'c',
        new_atom(
            new_sum(new_var('c'), new_zero()),
            new_sum(new_zero(), new_var('c')),
        ),
    );

    // ∀d: (Vc: (c + d) = (d + c) -> Vc: (c + Sd) = (Sd + c))
    let formula_two = new_forall(
        'd',
        new_implies(
            new_forall(
                'c',
                new_atom(
                    new_sum(new_var('c'), new_var('d')),
                    new_sum(new_var('d'), new_var('c')),
                ),
            ),
            new_forall(
                'c',
                new_atom(
                    new_sum(new_var('c'), new_succ(new_var('d'))),
                    new_sum(new_succ(new_var('d')), new_var('c')),
                ),
            ),
        ),
    );

    // ∀d: (Vc: (c + d) = (d + c))
    let expected = Ok(new_forall(
        'd',
        new_forall(
            'c',
            new_atom(
                new_sum(new_var('c'), new_var('d')),
                new_sum(new_var('d'), new_var('c')),
            ),
        ),
    ));

    let actual = intro_induction(formula_one, formula_two);

    assert_eq!(actual, expected);
}
