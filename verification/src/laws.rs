use vstd::prelude::*;

use crate::display::{decimal, digit_char, term_text};
use crate::lexer::{lex, lex_from};
use crate::parser::{law_parse_term_reads_back, parse_term_at, peek_at, term_tokens};
use crate::token::TokenKind;
use crate::text::{all_digits, digits_value, is_digit, parse_usize, unsigned_part};
use crate::ast::{
    is_double_negation, spec_elim_conjunction, spec_elim_forall, spec_elim_implication,
    spec_elim_succ, spec_first_bound_var_from, spec_intro_axiom, spec_intro_contrapositive,
    spec_intro_de_morgan, spec_intro_exists, spec_intro_induction, spec_intro_interchange,
    spec_intro_material_implication, spec_intro_succ, spec_intro_symmetry,
    spec_intro_transitivity, spec_invert, spec_is_quantified_in, spec_is_var_free_in_formula, spec_is_var_in_term,
    spec_replace_var_in_formula, spec_replace_var_in_term, spec_term_meets_quantifier,
    spec_vars_in_term, Choice, Formula, Term,
};

verus! {

/// Inverting twice gives the formula back, unless it is a double negation.
pub proof fn law_invert_involution(f: Formula)
    requires
        !is_double_negation(f),
    ensures
        spec_invert(spec_invert(f)) == f,
{
}

/// Symmetry applied twice gives the atom back; it refuses anything else.
pub proof fn law_symmetry_involution(p: Formula)
    ensures
        spec_intro_symmetry(p) matches Ok(q) ==> spec_intro_symmetry(q) == Ok::<Formula, Seq<char>>(p),
        spec_intro_symmetry(p) is Ok <==> p is Atom,
{
}

/// Dropping the successors that were just added gives the atom back, and adding back the
/// successors just dropped gives the atom back.
pub proof fn law_succ_roundtrip(p: Formula)
    ensures
        spec_intro_succ(p) matches Ok(q) ==> spec_elim_succ(q) == Ok::<Formula, Seq<char>>(p),
        spec_elim_succ(p) matches Ok(q) ==> spec_intro_succ(q) == Ok::<Formula, Seq<char>>(p),
{
}

/// A conjunction that was just built gives back each of its parts.
pub proof fn law_conjunction_roundtrip(p: Formula, q: Formula)
    ensures
        spec_elim_conjunction(
            Formula::And { left: Box::new(p), right: Box::new(q) },
            Choice::Left,
        ) == Ok::<Formula, Seq<char>>(p),
        spec_elim_conjunction(
            Formula::And { left: Box::new(p), right: Box::new(q) },
            Choice::Right,
        ) == Ok::<Formula, Seq<char>>(q),
{
}

/// Modus ponens: from `p` and the implication `(p -> q)` just built, elimination gives `q`.
pub proof fn law_modus_ponens(p: Formula, q: Formula)
    ensures
        spec_elim_implication(p, Formula::Implies { left: Box::new(p), right: Box::new(q) })
            == Ok::<Formula, Seq<char>>(q),
{
}

/// Contraposition applied twice gives the implication back, unless one of its sides is a
/// double negation.
pub proof fn law_contrapositive_involution(l: Formula, r: Formula)
    requires
        !is_double_negation(l),
        !is_double_negation(r),
    ensures
        ({
            let p = Formula::Implies { left: Box::new(l), right: Box::new(r) };
            spec_intro_contrapositive(spec_intro_contrapositive(p)->Ok_0) == Ok::<
                Formula,
                Seq<char>,
            >(p)
        }),
{
}

/// Material implication applied twice gives the formula back, unless the left side is a
/// double negation.
pub proof fn law_material_implication_involution(p: Formula)
    requires
        p is Or || p is Implies,
        !is_double_negation(
            match p {
                Formula::Or { left, .. } => *left,
                Formula::Implies { left, .. } => *left,
                _ => p,
            },
        ),
    ensures
        spec_intro_material_implication(spec_intro_material_implication(p)->Ok_0) == Ok::<
            Formula,
            Seq<char>,
        >(p),
{
}

/// De Morgan applied twice gives the formula back, unless one of the operands is a double
/// negation.
pub proof fn law_de_morgan_involution(p: Formula)
    requires
        spec_intro_de_morgan(p) is Ok,
        ({
            let inner = match p {
                Formula::Negation { child } => *child,
                _ => p,
            };
            match inner {
                Formula::And { left, right } => !is_double_negation(*left) && !is_double_negation(
                    *right,
                ),
                Formula::Or { left, right } => !is_double_negation(*left) && !is_double_negation(
                    *right,
                ),
                _ => true,
            }
        }),
    ensures
        spec_intro_de_morgan(spec_intro_de_morgan(p)->Ok_0) == Ok::<Formula, Seq<char>>(p),
{
}

/// Interchange applied twice gives the formula back, unless the body of its quantifier is a
/// double negation.
pub proof fn law_interchange_involution(p: Formula)
    requires
        spec_intro_interchange(p) is Ok,
        ({
            let inner = match p {
                Formula::Negation { child } => *child,
                _ => p,
            };
            match inner {
                Formula::ForAll { body, .. } => !is_double_negation(*body),
                Formula::Exists { body, .. } => !is_double_negation(*body),
                _ => true,
            }
        }),
    ensures
        spec_intro_interchange(spec_intro_interchange(p)->Ok_0) == Ok::<Formula, Seq<char>>(p),
{
}

/// Replacing a variable by itself leaves a term unchanged.
pub proof fn law_replace_var_by_itself_in_term(p: Term, v: char)
    ensures
        spec_replace_var_in_term(p, v, Term::Var { var: v }) == p,
    decreases p,
{
    match p {
        Term::Succ { child } => {
            law_replace_var_by_itself_in_term(*child, v);
        },
        Term::Sum { left, right } => {
            law_replace_var_by_itself_in_term(*left, v);
            law_replace_var_by_itself_in_term(*right, v);
        },
        Term::Product { left, right } => {
            law_replace_var_by_itself_in_term(*left, v);
            law_replace_var_by_itself_in_term(*right, v);
        },
        _ => {},
    }
}

/// Replacing a variable by itself leaves a formula unchanged.
pub proof fn law_replace_var_by_itself_in_formula(p: Formula, v: char)
    ensures
        spec_replace_var_in_formula(p, v, Term::Var { var: v }) == p,
    decreases p,
{
    match p {
        Formula::Atom { left, right } => {
            law_replace_var_by_itself_in_term(left, v);
            law_replace_var_by_itself_in_term(right, v);
        },
        Formula::Negation { child } => {
            law_replace_var_by_itself_in_formula(*child, v);
        },
        Formula::And { left, right } => {
            law_replace_var_by_itself_in_formula(*left, v);
            law_replace_var_by_itself_in_formula(*right, v);
        },
        Formula::Or { left, right } => {
            law_replace_var_by_itself_in_formula(*left, v);
            law_replace_var_by_itself_in_formula(*right, v);
        },
        Formula::Implies { left, right } => {
            law_replace_var_by_itself_in_formula(*left, v);
            law_replace_var_by_itself_in_formula(*right, v);
        },
        Formula::Exists { body, .. } => {
            law_replace_var_by_itself_in_formula(*body, v);
        },
        Formula::ForAll { body, .. } => {
            law_replace_var_by_itself_in_formula(*body, v);
        },
    }
}

/// Whether the variable `v` occurs in an atom of `f`; the variables that quantifiers name
/// are not counted.
pub open spec fn occurs_in_atoms(v: char, f: Formula) -> bool
    decreases f,
{
    match f {
        Formula::Atom { left, right } => spec_is_var_in_term(v, left) || spec_is_var_in_term(
            v,
            right,
        ),
        Formula::Negation { child } => occurs_in_atoms(v, *child),
        Formula::And { left, right } => occurs_in_atoms(v, *left) || occurs_in_atoms(v, *right),
        Formula::Or { left, right } => occurs_in_atoms(v, *left) || occurs_in_atoms(v, *right),
        Formula::Implies { left, right } => occurs_in_atoms(v, *left) || occurs_in_atoms(
            v,
            *right,
        ),
        Formula::Exists { body, .. } => occurs_in_atoms(v, *body),
        Formula::ForAll { body, .. } => occurs_in_atoms(v, *body),
    }
}

/// Substituting `t` for `v` in a term reaches every occurrence of `v`: a variable `u` occurs
/// in the result exactly when it is another variable of the term, or `v` occurred and `u`
/// is a variable of `t`.
pub proof fn law_substitution_variables_in_term(p: Term, v: char, t: Term, u: char)
    ensures
        spec_is_var_in_term(u, spec_replace_var_in_term(p, v, t)) <==> ((u != v
            && spec_is_var_in_term(u, p)) || (spec_is_var_in_term(v, p) && spec_is_var_in_term(
            u,
            t,
        ))),
    decreases p,
{
    match p {
        Term::Succ { child } => {
            law_substitution_variables_in_term(*child, v, t, u);
        },
        Term::Sum { left, right } => {
            law_substitution_variables_in_term(*left, v, t, u);
            law_substitution_variables_in_term(*right, v, t, u);
        },
        Term::Product { left, right } => {
            law_substitution_variables_in_term(*left, v, t, u);
            law_substitution_variables_in_term(*right, v, t, u);
        },
        _ => {},
    }
}

/// Substituting `t` for `v` in a formula reaches every atom, under every quantifier: a
/// variable `u` occurs in an atom of the result exactly when it is another variable of the
/// atoms, or `v` occurred in them and `u` is a variable of `t`.
pub proof fn law_substitution_variables_in_formula(p: Formula, v: char, t: Term, u: char)
    ensures
        occurs_in_atoms(u, spec_replace_var_in_formula(p, v, t)) <==> ((u != v && occurs_in_atoms(
            u,
            p,
        )) || (occurs_in_atoms(v, p) && spec_is_var_in_term(u, t))),
    decreases p,
{
    match p {
        Formula::Atom { left, right } => {
            law_substitution_variables_in_term(left, v, t, u);
            law_substitution_variables_in_term(right, v, t, u);
        },
        Formula::Negation { child } => {
            law_substitution_variables_in_formula(*child, v, t, u);
        },
        Formula::And { left, right } => {
            law_substitution_variables_in_formula(*left, v, t, u);
            law_substitution_variables_in_formula(*right, v, t, u);
        },
        Formula::Or { left, right } => {
            law_substitution_variables_in_formula(*left, v, t, u);
            law_substitution_variables_in_formula(*right, v, t, u);
        },
        Formula::Implies { left, right } => {
            law_substitution_variables_in_formula(*left, v, t, u);
            law_substitution_variables_in_formula(*right, v, t, u);
        },
        Formula::Exists { body, .. } => {
            law_substitution_variables_in_formula(*body, v, t, u);
        },
        Formula::ForAll { body, .. } => {
            law_substitution_variables_in_formula(*body, v, t, u);
        },
    }
}

/// Renaming `v` to a variable `w` that does not occur in a term, and then `w` back to `v`,
/// gives the term back.
pub proof fn law_substitution_rename_back_in_term(p: Term, v: char, w: char)
    requires
        !spec_is_var_in_term(w, p),
    ensures
        spec_replace_var_in_term(
            spec_replace_var_in_term(p, v, Term::Var { var: w }),
            w,
            Term::Var { var: v },
        ) == p,
    decreases p,
{
    match p {
        Term::Succ { child } => {
            law_substitution_rename_back_in_term(*child, v, w);
        },
        Term::Sum { left, right } => {
            law_substitution_rename_back_in_term(*left, v, w);
            law_substitution_rename_back_in_term(*right, v, w);
        },
        Term::Product { left, right } => {
            law_substitution_rename_back_in_term(*left, v, w);
            law_substitution_rename_back_in_term(*right, v, w);
        },
        _ => {},
    }
}

/// Renaming `v` to a variable `w` that occurs in no atom of a formula, and then `w` back to
/// `v`, gives the formula back.
pub proof fn law_substitution_rename_back_in_formula(p: Formula, v: char, w: char)
    requires
        !occurs_in_atoms(w, p),
    ensures
        spec_replace_var_in_formula(
            spec_replace_var_in_formula(p, v, Term::Var { var: w }),
            w,
            Term::Var { var: v },
        ) == p,
    decreases p,
{
    match p {
        Formula::Atom { left, right } => {
            law_substitution_rename_back_in_term(left, v, w);
            law_substitution_rename_back_in_term(right, v, w);
        },
        Formula::Negation { child } => {
            law_substitution_rename_back_in_formula(*child, v, w);
        },
        Formula::And { left, right } => {
            law_substitution_rename_back_in_formula(*left, v, w);
            law_substitution_rename_back_in_formula(*right, v, w);
        },
        Formula::Or { left, right } => {
            law_substitution_rename_back_in_formula(*left, v, w);
            law_substitution_rename_back_in_formula(*right, v, w);
        },
        Formula::Implies { left, right } => {
            law_substitution_rename_back_in_formula(*left, v, w);
            law_substitution_rename_back_in_formula(*right, v, w);
        },
        Formula::Exists { body, .. } => {
            law_substitution_rename_back_in_formula(*body, v, w);
        },
        Formula::ForAll { body, .. } => {
            law_substitution_rename_back_in_formula(*body, v, w);
        },
    }
}

/// Eliminating `∀v: p` with a term `t` that it accepts leaves no `v` in the atoms (unless
/// `t` has one): a variable occurs in an atom of the instance exactly when it is another
/// variable of the atoms of `p`, or `v` occurred there and it is a variable of `t`.
pub proof fn law_elim_forall_substitutes_everywhere(v: char, body: Formula, t: Term)
    ensures
        spec_elim_forall(Formula::ForAll { var: v, body: Box::new(body) }, t) matches Ok(f)
            ==> forall|u: char|
            #![trigger occurs_in_atoms(u, f)]
            occurs_in_atoms(u, f) <==> ((u != v && occurs_in_atoms(u, body)) || (occurs_in_atoms(
                v,
                body,
            ) && spec_is_var_in_term(u, t))),
{
    assert forall|u: char|
        #![trigger occurs_in_atoms(u, spec_replace_var_in_formula(body, v, t))]
        occurs_in_atoms(u, spec_replace_var_in_formula(body, v, t)) <==> ((u != v
            && occurs_in_atoms(u, body)) || (occurs_in_atoms(v, body) && spec_is_var_in_term(
            u,
            t,
        ))) by {
        law_substitution_variables_in_formula(body, v, t, u);
    }
}

/// Induction from the step `∀v: (l -> r)` concludes `∀v: l`, whatever the base case.
pub proof fn law_induction_generalizes_the_antecedent(p: Formula, v: char, l: Formula, r: Formula)
    ensures
        spec_intro_induction(
            p,
            Formula::ForAll {
                var: v,
                body: Box::new(Formula::Implies { left: Box::new(l), right: Box::new(r) }),
            },
        ) == Ok::<Formula, Seq<char>>(Formula::ForAll { var: v, body: Box::new(l) }),
{
}

/// Induction applies exactly to a step of the form `∀v: (l -> r)`.
pub proof fn law_induction_needs_a_universal_implication(p: Formula, q: Formula)
    ensures
        spec_intro_induction(p, q) is Ok <==> (q matches Formula::ForAll { body, .. }
            && *body is Implies),
{
}

/// Adding a successor puts an `S` on each side of an atom, and dropping one needs an `S` on
/// each side and takes it off.
pub proof fn law_succ_rules_on_atoms(a: Term, b: Term, p: Formula)
    ensures
        spec_intro_succ(Formula::Atom { left: a, right: b }) == Ok::<Formula, Seq<char>>(
            Formula::Atom {
                left: Term::Succ { child: Box::new(a) },
                right: Term::Succ { child: Box::new(b) },
            },
        ),
        spec_elim_succ(
            Formula::Atom {
                left: Term::Succ { child: Box::new(a) },
                right: Term::Succ { child: Box::new(b) },
            },
        ) == Ok::<Formula, Seq<char>>(Formula::Atom { left: a, right: b }),
        spec_intro_succ(p) is Ok <==> p is Atom,
        spec_elim_succ(p) is Ok <==> (p matches Formula::Atom { left, right } && left is Succ
            && right is Succ),
{
}

/// Transitivity succeeds exactly on two atoms whose middle terms are equal, and then joins
/// the outer terms.
pub proof fn law_transitivity_needs_matching_middle(p: Formula, q: Formula)
    ensures
        spec_intro_transitivity(p, q) is Ok <==> (p is Atom && q is Atom && p->Atom_right
            == q->Atom_left),
        spec_intro_transitivity(p, q) matches Ok(f) ==> f == (Formula::Atom {
            left: p->Atom_left,
            right: q->Atom_right,
        }),
{
}

/// Instantiating a universal with its own variable gives its body, where no quantifier of
/// the body binds that variable again.
pub proof fn law_elim_forall_own_variable(v: char, body: Formula)
    requires
        !spec_is_quantified_in(v, body),
    ensures
        spec_elim_forall(Formula::ForAll { var: v, body: Box::new(body) }, Term::Var { var: v })
            == Ok::<Formula, Seq<char>>(body),
{
    law_replace_var_by_itself_in_formula(body, v);
}

/// Scanning a list of variables from position `i` finds none bound at the top of `p`
/// exactly when every one from `i` on is free there.
proof fn lemma_first_bound_var_from(vars: Seq<char>, p: Formula, i: int)
    requires
        0 <= i <= vars.len(),
    ensures
        spec_first_bound_var_from(vars, p, i) is None <==> (forall|j: int|
            i <= j < vars.len() ==> spec_is_var_free_in_formula(vars[j], p)),
    decreases vars.len() - i,
{
    if i < vars.len() {
        lemma_first_bound_var_from(vars, p, i + 1);
        if spec_is_var_free_in_formula(vars[i], p) {
            assert forall|j: int| i + 1 <= j < vars.len() && spec_is_var_free_in_formula(
                vars[j],
                p,
            ) implies spec_is_var_free_in_formula(vars[j], p) by {}
        }
    }
}

/// Introducing an existential over a term is refused exactly when some variable of the term
/// is not free in the formula.
pub proof fn law_intro_exists_needs_free_variables(t: Term, v: char, p: Formula)
    ensures
        spec_intro_exists(t, v, p) is Err <==> (exists|x: char|
            spec_vars_in_term(t).contains(x) && !spec_is_var_free_in_formula(x, p)),
{
    let vars = spec_vars_in_term(t);
    lemma_first_bound_var_from(vars, p, 0);
    if spec_intro_exists(t, v, p) is Err {
        let j = choose|j: int| 0 <= j < vars.len() && !spec_is_var_free_in_formula(vars[j], p);
        assert(vars.contains(vars[j]));
    }
    if exists|x: char| vars.contains(x) && !spec_is_var_free_in_formula(x, p) {
        let x = choose|x: char| vars.contains(x) && !spec_is_var_free_in_formula(x, p);
        let j = choose|j: int| 0 <= j < vars.len() && vars[j] == x;
        assert(!spec_is_var_free_in_formula(vars[j], p));
    }
}

/// A term meets a quantifier of `f` exactly when one of its variables is quantified in `f`.
proof fn lemma_term_meets_quantifier(t: Term, f: Formula)
    ensures
        spec_term_meets_quantifier(t, f) <==> (exists|x: char|
            spec_vars_in_term(t).contains(x) && spec_is_quantified_in(x, f)),
    decreases t,
{
    match t {
        Term::Zero => {},
        Term::Var { var } => {
            if spec_is_quantified_in(var, f) {
                assert(spec_vars_in_term(t)[0] == var);
            }
        },
        Term::Succ { child } => {
            lemma_term_meets_quantifier(*child, f);
        },
        Term::Sum { left, right } => {
            lemma_term_meets_quantifier(*left, f);
            lemma_term_meets_quantifier(*right, f);
            lemma_vars_of_pair_meet_quantifier(*left, *right, f);
        },
        Term::Product { left, right } => {
            lemma_term_meets_quantifier(*left, f);
            lemma_term_meets_quantifier(*right, f);
            lemma_vars_of_pair_meet_quantifier(*left, *right, f);
        },
    }
}

/// The variables of two terms put together meet a quantifier of `f` exactly when those of
/// one of them do.
proof fn lemma_vars_of_pair_meet_quantifier(a: Term, b: Term, f: Formula)
    requires
        spec_term_meets_quantifier(a, f) <==> (exists|x: char|
            spec_vars_in_term(a).contains(x) && spec_is_quantified_in(x, f)),
        spec_term_meets_quantifier(b, f) <==> (exists|x: char|
            spec_vars_in_term(b).contains(x) && spec_is_quantified_in(x, f)),
    ensures
        (spec_term_meets_quantifier(a, f) || spec_term_meets_quantifier(b, f)) <==> (exists|
            x: char,
        | (spec_vars_in_term(a) + spec_vars_in_term(b)).contains(x) && spec_is_quantified_in(
            x,
            f,
        )),
{
    let va = spec_vars_in_term(a);
    let vb = spec_vars_in_term(b);
    let both = va + vb;
    if exists|x: char| both.contains(x) && spec_is_quantified_in(x, f) {
        let x = choose|x: char| both.contains(x) && spec_is_quantified_in(x, f);
        let j = choose|j: int| 0 <= j < both.len() && both[j] == x;
        if j < va.len() {
            assert(va[j] == x);
            assert(va.contains(x));
        } else {
            assert(vb[j - va.len()] == x);
            assert(vb.contains(x));
        }
    }
    if spec_term_meets_quantifier(a, f) {
        let x = choose|x: char| va.contains(x) && spec_is_quantified_in(x, f);
        let j = choose|j: int| 0 <= j < va.len() && va[j] == x;
        assert(both[j] == x);
        assert(both.contains(x));
    }
    if spec_term_meets_quantifier(b, f) {
        let x = choose|x: char| vb.contains(x) && spec_is_quantified_in(x, f);
        let j = choose|j: int| 0 <= j < vb.len() && vb[j] == x;
        assert(both[va.len() + j] == x);
        assert(both.contains(x));
    }
}

/// Eliminating a universal is refused exactly when the formula is not a universal, or when
/// a variable of the term is quantified somewhere in its body (it would be captured).
pub proof fn law_elim_forall_refuses_captured_terms(p: Formula, t: Term)
    ensures
        spec_elim_forall(p, t) is Err <==> (match p {
            Formula::ForAll { body, .. } => exists|x: char|
                spec_vars_in_term(t).contains(x) && spec_is_quantified_in(x, *body),
            _ => true,
        }),
{
    if let Formula::ForAll { body, .. } = p {
        lemma_term_meets_quantifier(t, *body);
    }
}

/// Transitivity with the mirror image of an atom gives the reflexive atom `(t = t)`.
pub proof fn law_transitivity_with_symmetry(p: Formula)
    requires
        p is Atom,
    ensures
        spec_intro_transitivity(p, spec_intro_symmetry(p)->Ok_0) == Ok::<Formula, Seq<char>>(
            Formula::Atom { left: p->Atom_left, right: p->Atom_left },
        ),
{
}

/// Exactly the numbers 1 to 5 name an axiom, and every axiom is a universal statement.
pub proof fn law_axioms_numbered_one_to_five(n: usize)
    ensures
        spec_intro_axiom(n) is Ok <==> 1 <= n <= 5,
        spec_intro_axiom(n) matches Ok(f) ==> f is ForAll,
{
}

/// The digits of a decimal form are digits, and their value is the number written.
proof fn lemma_decimal_digits(n: nat)
    ensures
        all_digits(decimal(n)),
        digits_value(decimal(n)) == n,
        decimal(n).len() > 0,
    decreases n,
{
    let d = n % 10;
    assert(((digit_char(d) as u32) - 48) as nat == d);
    if n >= 10 {
        lemma_decimal_digits(n / 10);
        let s = decimal(n / 10);
        assert(decimal(n).drop_last() =~= s);
        assert(decimal(n).last() == digit_char(d));
        assert(digits_value(decimal(n)) == digits_value(s) * 10 + d);
        assert(n == (n / 10) * 10 + d);
        assert forall|i: int| 0 <= i < decimal(n).len() implies #[trigger] is_digit(
            decimal(n)[i],
        ) by {
            if i < s.len() {
                assert(decimal(n)[i] == s[i]);
            }
        }
    } else {
        assert(decimal(n).drop_last() =~= Seq::<char>::empty());
        assert(decimal(n).last() == digit_char(d));
        assert(digits_value(decimal(n)) == digits_value(Seq::<char>::empty()) * 10 + d);
    }
}

/// A line number printed in decimal reads back as the same number.
pub proof fn law_decimal_parses_back(n: usize)
    ensures
        parse_usize(decimal(n as nat)) == Some(n),
{
    lemma_decimal_digits(n as nat);
    assert(is_digit(decimal(n as nat)[0]));
    assert(unsigned_part(decimal(n as nat)) == decimal(n as nat));
}

/// A term written with `0`, the variables `a` to `z`, `S` and `+` only: the terms whose
/// printed form the lexer reads (the printed `×` of a product is not one of its tokens).
pub open spec fn is_plain_term(t: Term) -> bool
    decreases t,
{
    match t {
        Term::Zero => true,
        Term::Var { var } => 'a' <= var && var <= 'z',
        Term::Succ { child } => is_plain_term(*child),
        Term::Sum { left, right } => is_plain_term(*left) && is_plain_term(*right),
        Term::Product { .. } => false,
    }
}

/// Where `text` stands at position `i` of `src`, every piece of `text` stands at its own
/// offset from `i`.
proof fn lemma_text_piece(src: Seq<char>, i: int, text: Seq<char>, off: int, piece: Seq<char>)
    requires
        0 <= i,
        i + text.len() <= src.len(),
        src.subrange(i, i + text.len()) == text,
        0 <= off,
        off + piece.len() <= text.len(),
        text.subrange(off, off + piece.len()) == piece,
    ensures
        src.subrange(i + off, i + off + piece.len()) == piece,
        forall|k: int| 0 <= k < piece.len() ==> src[i + off + k] == #[trigger] piece[k],
{
    assert forall|k: int| 0 <= k < piece.len() implies src[i + off + k] == #[trigger] piece[k] by {
        assert(src[i + off + k] == src.subrange(i, i + text.len())[off + k]);
        assert(text[off + k] == text.subrange(off, off + piece.len())[k]);
    }
    assert(src.subrange(i + off, i + off + piece.len()) =~= piece);
}

/// Lexing across the printed form of a plain term gives the term's tokens, then whatever
/// lexing gives after it.
proof fn lemma_lex_term_text(t: Term, src: Seq<char>, i: int)
    requires
        is_plain_term(t),
        0 <= i,
        i + term_text(t).len() <= src.len(),
        src.subrange(i, i + term_text(t).len()) == term_text(t),
    ensures
        ({
            let rest = lex_from(src, i + term_text(t).len());
            lex_from(src, i) == (term_tokens(t) + rest.0, rest.1, rest.2)
        }),
    decreases t,
{
    let text = term_text(t);
    let n = text.len();
    let rest = lex_from(src, i + n);
    match t {
        Term::Zero => {
            assert(text.subrange(0, n as int) =~= text);
            lemma_text_piece(src, i, text, 0, text);
            assert(src[i + 0 + 0] == text[0]);
            assert(term_tokens(t) + rest.0 =~= seq![TokenKind::Zero] + rest.0);
        },
        Term::Var { var } => {
            assert(text.subrange(0, n as int) =~= text);
            lemma_text_piece(src, i, text, 0, text);
            assert(src[i + 0 + 0] == text[0]);
            assert(term_tokens(t) + rest.0 =~= seq![TokenKind::Variable(var)] + rest.0);
        },
        Term::Succ { child } => {
            let tc = term_text(*child);
            assert(text.subrange(0, 1) =~= seq!['S']);
            assert(text.subrange(1, 1 + tc.len() as int) =~= tc);
            lemma_text_piece(src, i, text, 0, seq!['S']);
            lemma_text_piece(src, i, text, 1, tc);
            assert(src[i + 0 + 0] == seq!['S'][0]);
            lemma_lex_term_text(*child, src, i + 1);
            let inner = lex_from(src, i + 1);
            assert(lex_from(src, i) == (seq![TokenKind::Successor] + inner.0, inner.1, inner.2));
            assert(term_tokens(t) + rest.0 =~= seq![TokenKind::Successor] + (term_tokens(*child)
                + rest.0));
        },
        Term::Sum { left, right } => {
            let tl = term_text(*left);
            let tr = term_text(*right);
            let nl = tl.len() as int;
            let nr = tr.len() as int;
            let mid = seq![' ', '+', ' '];
            assert(text == seq!['('] + tl + mid + tr + seq![')']);
            assert(n == nl + nr + 5);
            assert(text.subrange(0, 1) =~= seq!['(']);
            assert(text.subrange(1, 1 + nl) =~= tl);
            assert(text.subrange(1 + nl, 4 + nl) =~= mid);
            assert(text.subrange(4 + nl, 4 + nl + nr) =~= tr);
            assert(text.subrange(4 + nl + nr, 5 + nl + nr) =~= seq![')']);
            lemma_text_piece(src, i, text, 0, seq!['(']);
            lemma_text_piece(src, i, text, 1, tl);
            lemma_text_piece(src, i, text, 1 + nl, mid);
            lemma_text_piece(src, i, text, 4 + nl, tr);
            lemma_text_piece(src, i, text, 4 + nl + nr, seq![')']);
            assert(src[i + 0 + 0] == seq!['('][0]);
            assert(src[i + (1 + nl) + 0] == mid[0]);
            assert(src[i + (1 + nl) + 1] == mid[1]);
            assert(src[i + (1 + nl) + 2] == mid[2]);
            assert(src[i + (4 + nl + nr) + 0] == seq![')'][0]);
            lemma_lex_term_text(*left, src, i + 1);
            lemma_lex_term_text(*right, src, i + 4 + nl);
            let e = i + 1 + nl;
            let after_right = lex_from(src, e + 3 + nr);
            assert(after_right == (seq![TokenKind::CloseParen] + rest.0, rest.1, rest.2));
            let at_right = lex_from(src, e + 3);
            assert(at_right == (term_tokens(*right) + after_right.0, rest.1, rest.2));
            assert(lex_from(src, e + 2) == at_right);
            let at_plus = lex_from(src, e + 1);
            assert(at_plus == (seq![TokenKind::Add] + at_right.0, rest.1, rest.2));
            assert(lex_from(src, e) == at_plus);
            let at_left = lex_from(src, i + 1);
            assert(at_left == (term_tokens(*left) + at_plus.0, rest.1, rest.2));
            assert(lex_from(src, i) == (seq![TokenKind::OpenParen] + at_left.0, rest.1, rest.2));
            assert(term_tokens(t) + rest.0 =~= seq![TokenKind::OpenParen] + (term_tokens(*left) + (
            seq![TokenKind::Add] + (term_tokens(*right) + (seq![TokenKind::CloseParen]
                + rest.0)))));
        },
        Term::Product { .. } => {},
    }
}

/// The printed form of a term written with `0`, variables, `S` and `+` lexes to the term's
/// tokens, and the parser reads the term back from them, up to the final `EOF`.
pub proof fn law_term_text_reads_back(t: Term)
    requires
        is_plain_term(t),
    ensures
        lex(term_text(t)) == Ok::<Seq<TokenKind>, char>(term_tokens(t).push(TokenKind::EOF)),
        parse_term_at(term_tokens(t).push(TokenKind::EOF), 0) == Some(
            (t, term_tokens(t).len() as int),
        ),
        peek_at(term_tokens(t).push(TokenKind::EOF), term_tokens(t).len() as int)
            == TokenKind::EOF,
{
    let text = term_text(t);
    assert(text.subrange(0, text.len() as int) =~= text);
    lemma_lex_term_text(t, text, 0);
    assert(term_tokens(t) + Seq::<TokenKind>::empty() =~= term_tokens(t));
    let ts = term_tokens(t).push(TokenKind::EOF);
    assert(ts.subrange(0, term_tokens(t).len() as int) =~= term_tokens(t));
    law_parse_term_reads_back(t, ts, 0);
}

} // verus!
