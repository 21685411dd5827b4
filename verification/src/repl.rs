use vstd::prelude::*;
use vstd::string::StrSliceExecFns;
use vstd::string::StringExecFns;
use vstd::utf8::encode_utf8;

use crate::ast::{
    axiom_one, axiom_three, axiom_two, elim_conjunction, elim_forall, elim_succ, intro_axiom,
    intro_conjunction, intro_induction, intro_succ, intro_symmetry, intro_transitivity, new_succ,
    new_zero, res_view, spec_elim_conjunction, spec_elim_forall, spec_elim_succ, spec_intro_axiom,
    spec_intro_induction, spec_intro_succ, spec_intro_symmetry, spec_intro_transitivity,
    spec_term_meets_quantifier, Choice, Formula, Term,
};
use crate::display::{
    axiom_line, decimal, formula_text, list_axioms, term_text, write_decimal, write_formula,
    write_term,
};
use crate::lexer::{lex, Lexer};
use crate::parser::{parse_formula_at, parse_term_at, Parser};
use crate::text::{join_words, join_words_from, parse_number, parse_usize, split_whitespace, word_is, words};
use crate::token::kinds;

verus! {

// ---------------------------------------------------------------------------
// Theorems and their justifications
// ---------------------------------------------------------------------------

/// The rule by which a line of a proof was obtained, with the lines it was obtained from.
#[derive(Debug)]
pub enum Justification {
    Axiom,
    Premise,
    IntroConjunction(usize, usize),
    ElimConjunction(usize, Choice),
    IntroImplies(usize, usize),
    ElimImplies(usize, usize),
    IntroForAll,
    ElimForAll(usize, Term),
    IntroExists,
    ElimExists,
    IntroSucc(usize),
    ElimSucc(usize),
    DeMorgan(usize),
    Contrapositive(usize),
    Interchange(usize),
    Induction(usize, usize),
    Symmetry(usize),
    Transivity(usize, usize),
    CarryOver(usize),
}

impl Clone for Justification {
    fn clone(&self) -> (j: Justification)
        ensures
            j == *self,
    {
        match self {
            Justification::Axiom => Justification::Axiom,
            Justification::Premise => Justification::Premise,
            Justification::IntroConjunction(p, q) => Justification::IntroConjunction(*p, *q),
            Justification::ElimConjunction(l, c) => Justification::ElimConjunction(*l, *c),
            Justification::IntroImplies(p, q) => Justification::IntroImplies(*p, *q),
            Justification::ElimImplies(p, q) => Justification::ElimImplies(*p, *q),
            Justification::IntroForAll => Justification::IntroForAll,
            Justification::ElimForAll(l, t) => Justification::ElimForAll(*l, t.clone()),
            Justification::IntroExists => Justification::IntroExists,
            Justification::ElimExists => Justification::ElimExists,
            Justification::IntroSucc(l) => Justification::IntroSucc(*l),
            Justification::ElimSucc(l) => Justification::ElimSucc(*l),
            Justification::DeMorgan(l) => Justification::DeMorgan(*l),
            Justification::Contrapositive(l) => Justification::Contrapositive(*l),
            Justification::Interchange(l) => Justification::Interchange(*l),
            Justification::Induction(p, q) => Justification::Induction(*p, *q),
            Justification::Symmetry(l) => Justification::Symmetry(*l),
            Justification::Transivity(p, q) => Justification::Transivity(*p, *q),
            Justification::CarryOver(l) => Justification::CarryOver(*l),
        }
    }
}

/// Whether a justification has a printed form; the others are never recorded.
pub open spec fn printable(j: Justification) -> bool {
    match j {
        Justification::Axiom | Justification::Premise | Justification::IntroConjunction(..)
        | Justification::ElimConjunction(..) | Justification::ElimForAll(..)
        | Justification::IntroSucc(..) | Justification::ElimSucc(..) | Justification::Symmetry(..)
        | Justification::Transivity(..) | Justification::Induction(..) => true,
        _ => false,
    }
}

/// The printed form of a justification.
pub open spec fn reason_text(j: Justification) -> Seq<char> {
    match j {
        Justification::Axiom => "Axiom"@,
        Justification::Premise => "Premise"@,
        Justification::IntroConjunction(p, q) => "Intro ∧ ("@ + decimal(p as nat) + ", "@
            + decimal(q as nat) + ")"@,
        Justification::ElimConjunction(l, _) => "Elim ∧ ("@ + decimal(l as nat) + ")"@,
        Justification::ElimForAll(l, t) => "Elim ∀ at "@ + decimal(l as nat) + " with "@
            + term_text(t),
        Justification::IntroSucc(l) => "Add S to line "@ + decimal(l as nat),
        Justification::ElimSucc(l) => "Drop S from line "@ + decimal(l as nat),
        Justification::Symmetry(_) => "Symmetry"@,
        Justification::Transivity(_, _) => "Transivity"@,
        Justification::Induction(p, q) => "Induction lines ("@ + decimal(p as nat) + ", "@
            + decimal(q as nat) + ")"@,
        _ => Seq::empty(),
    }
}

/// Appends the printed form of `j` to `out`.
fn write_reason(j: &Justification, out: &mut String)
    requires
        printable(*j),
    ensures
        final(out)@ == old(out)@ + reason_text(*j),
{
    let ghost s0 = out@;
    match j {
        Justification::Axiom => {
            out.append("Axiom");
        },
        Justification::Premise => {
            out.append("Premise");
        },
        Justification::IntroConjunction(p, q) => {
            out.append("Intro ∧ (");
            write_decimal(*p, out);
            out.append(", ");
            write_decimal(*q, out);
            out.append(")");
        },
        Justification::ElimConjunction(l, _) => {
            out.append("Elim ∧ (");
            write_decimal(*l, out);
            out.append(")");
        },
        Justification::ElimForAll(l, t) => {
            out.append("Elim ∀ at ");
            write_decimal(*l, out);
            out.append(" with ");
            write_term(t, out);
        },
        Justification::IntroSucc(l) => {
            out.append("Add S to line ");
            write_decimal(*l, out);
        },
        Justification::ElimSucc(l) => {
            out.append("Drop S from line ");
            write_decimal(*l, out);
        },
        Justification::Symmetry(_) => {
            out.append("Symmetry");
        },
        Justification::Transivity(_, _) => {
            out.append("Transivity");
        },
        Justification::Induction(p, q) => {
            out.append("Induction lines (");
            write_decimal(*p, out);
            out.append(", ");
            write_decimal(*q, out);
            out.append(")");
        },
        _ => {},
    }
    assert(out@ =~= s0 + reason_text(*j));
}

/// A line of a proof: a formula and its justification.
#[derive(Debug)]
pub struct Theorem {
    pub body: Formula,
    pub reason: Justification,
}

impl Clone for Theorem {
    fn clone(&self) -> (t: Theorem)
        ensures
            t == *self,
    {
        Theorem { body: self.body.clone(), reason: self.reason.clone() }
    }
}

impl Theorem {
    fn new(body: Formula, reason: Justification) -> (t: Theorem)
        ensures
            t.body == body,
            t.reason == reason,
    {
        Theorem { body, reason }
    }
}

} // verus!

verus! {

// ---------------------------------------------------------------------------
// The state of a session and its printed forms
// ---------------------------------------------------------------------------

/// The mathematical state of a session: the lines of the proof, the depth of subproofs,
/// whether the user asked to quit, and the width of the widest line label printed so far.
pub struct ReplState {
    pub theorems: Seq<Theorem>,
    pub indentation_level: usize,
    pub should_quit: bool,
    pub max_width: usize,
}

/// The number of bytes of the UTF-8 encoding of `s`.
pub open spec fn byte_len(s: Seq<char>) -> nat {
    encode_utf8(s).len()
}

/// `n` spaces.
pub open spec fn spaces(n: nat) -> Seq<char> {
    Seq::new(n, |i: int| ' ')
}

/// `s` filled with spaces on the right to `w` characters, if it is shorter.
pub open spec fn pad(s: Seq<char>, w: nat) -> Seq<char> {
    if s.len() < w {
        s + spaces((w - s.len()) as nat)
    } else {
        s
    }
}

/// The label `i: formula` of line `i`.
pub open spec fn theorem_left(i: nat, body: Formula) -> Seq<char> {
    decimal(i) + seq![':', ' '] + formula_text(body)
}

/// The printed line `i: formula | reason`, the label filled to width `w`.
pub open spec fn theorem_line(i: nat, t: Theorem, w: nat) -> Seq<char> {
    pad(theorem_left(i, t.body), w) + seq![' ', '|', ' '] + reason_text(t.reason) + seq!['\n']
}

/// The printed lines of a proof, each filled to width `w`.
pub open spec fn lines_text(ts: Seq<Theorem>, w: nat) -> Seq<char>
    decreases ts.len(),
{
    if ts.len() == 0 {
        Seq::empty()
    } else {
        lines_text(ts.drop_last(), w) + theorem_line(ts.len(), ts.last(), w)
    }
}

/// The answer to `list`: all the lines, then an empty line.
pub open spec fn list_text(s: ReplState) -> Seq<char> {
    lines_text(s.theorems, s.max_width as nat) + seq!['\n']
}

/// The printed form of the last line, or nothing where there is none.
pub open spec fn last_text(s: ReplState) -> Seq<char> {
    if s.theorems.len() == 0 {
        Seq::empty()
    } else {
        theorem_line(s.theorems.len(), s.theorems.last(), s.max_width as nat)
    }
}

/// The answer to `help`.
pub open spec fn help_text() -> Seq<char> {
    "Available commands:\n"@ + "  help, commands       Show this help message\n"@
        + "  list, ls             List all theorems in the current proof\n"@
        + "  undo                 Remove the last theorem added\n"@
        + "  axiom, axioms        List all available axioms\n"@
        + "  axiom <n>            Introduce axiom <n> into the proof\n"@
        + "  push                 Start a subproof (increases indentation)\n"@
        + "  pop                  End a subproof (decreases indentation)\n"@
        + "  quit, q              Exit the REPL\n"@ + "\nProof tactics:\n"@
        + "  premise <formula>    Introduce a premise\n"@
        + "  intro and <l1> <l2>  Introduction of conjunction (joining)\n"@
        + "  elim and <l> <c>     Elimination of conjunction (separation). choice is 'l' or 'r'\n"@
        + "  intro succ <l>       Introduction of successor (add succ)\n"@
        + "  elim succ <l>        Elimination of successor (drop succ)\n"@
        + "  symmetry <l>         Symmetry of equality\n"@
        + "  transitivity <l1> <l2> Transitivity of equality\n"@
        + "  induction <l1> <l2>  Mathematical induction\n"@
}

/// The answer to `axioms`: the five numbered axioms, one per line.
pub open spec fn axioms_text() -> Seq<char> {
    axiom_line(1) + seq!['\n'] + axiom_line(2) + seq!['\n'] + axiom_line(3) + seq!['\n']
        + axiom_line(4) + seq!['\n'] + axiom_line(5) + seq!['\n']
}

// ---------------------------------------------------------------------------
// Commands
// ---------------------------------------------------------------------------

/// Whether one more line can be numbered.
pub open spec fn can_push(s: ReplState) -> bool {
    s.theorems.len() < usize::MAX
}

/// The state after appending the line `body` justified by `reason`.
pub open spec fn pushed(s: ReplState, body: Formula, reason: Justification) -> ReplState {
    let i = s.theorems.len() + 1;
    let width = byte_len(theorem_left(i, body)) as usize;
    ReplState {
        theorems: s.theorems.push(Theorem { body, reason }),
        max_width: if s.max_width >= width {
            s.max_width
        } else {
            width
        },
        ..s
    }
}

/// The formula of line `i` (counted from 1).
pub open spec fn body_of(s: ReplState, i: usize) -> Formula {
    s.theorems[i - 1].body
}

/// The line that the word `w` names: a number from 1 to the number of lines.
pub open spec fn line_of(s: ReplState, w: Seq<char>) -> Option<usize> {
    match parse_usize(w) {
        Some(n) => if 1 <= n <= s.theorems.len() {
            Some(n)
        } else {
            None
        },
        None => None,
    }
}

/// The side of a conjunction that the word `w` names.
pub open spec fn choice_of(w: Seq<char>) -> Option<Choice> {
    if w == "l"@ || w == "left"@ || w == "1"@ {
        Some(Choice::Left)
    } else if w == "r"@ || w == "right"@ || w == "2"@ {
        Some(Choice::Right)
    } else {
        None
    }
}

/// The result of a tactic whose rule gave `f`: the new line and its printed form; `None`
/// where the rule failed (the session then stops).
pub open spec fn tactic(s: ReplState, f: Result<Formula, Seq<char>>, reason: Justification) -> Option<
    (ReplState, Result<Seq<char>, Seq<char>>),
> {
    match f {
        Ok(body) => if can_push(s) {
            let s2 = pushed(s, body, reason);
            Some((s2, Ok(last_text(s2))))
        } else {
            None
        },
        Err(_) => None,
    }
}

/// The result of the command made of the words `ws`: the new state and the answer or the
/// error; `None` where the command stops the session (a malformed line number or premise, a
/// rule that does not apply, a command that is not implemented).
pub open spec fn command_words_result(s: ReplState, ws: Seq<Seq<char>>) -> Option<
    (ReplState, Result<Seq<char>, Seq<char>>),
> {
    let n = ws.len();
    if n == 0 {
        Some((s, Ok(Seq::empty())))
    } else if n == 1 && (ws[0] == "quit"@ || ws[0] == "q"@) {
        Some((ReplState { should_quit: true, ..s }, Ok(Seq::empty())))
    } else if n == 1 && (ws[0] == "list"@ || ws[0] == "ls"@) {
        Some((s, Ok(list_text(s))))
    } else if n == 1 && (ws[0] == "help"@ || ws[0] == "commands"@) {
        Some((s, Ok(help_text())))
    } else if n == 1 && ws[0] == "undo"@ {
        Some(
            (
                ReplState {
                    theorems: if s.theorems.len() > 0 {
                        s.theorems.drop_last()
                    } else {
                        s.theorems
                    },
                    ..s
                },
                Ok(Seq::empty()),
            ),
        )
    } else if n == 1 && (ws[0] == "axiom"@ || ws[0] == "axioms"@) {
        Some((s, Ok(axioms_text())))
    } else if n == 1 && ws[0] == "push"@ {
        if s.indentation_level < usize::MAX {
            Some(
                (
                    ReplState { indentation_level: (s.indentation_level + 1) as usize, ..s },
                    Ok(seq!['[']),
                ),
            )
        } else {
            None
        }
    } else if n == 1 && ws[0] == "pop"@ {
        if s.indentation_level > 0 {
            Some(
                (
                    ReplState { indentation_level: (s.indentation_level - 1) as usize, ..s },
                    Ok(seq![']']),
                ),
            )
        } else {
            Some((s, Err("Nothing to pop from"@)))
        }
    } else if ws[0] == "premise"@ {
        if n == 1 {
            Some((s, Err("Usage: premise <formula>"@)))
        } else {
            match lex(join_words(ws.skip(1))) {
                Ok(ts) => match parse_formula_at(ts, 0) {
                    Some((f, _)) => tactic(s, Ok(f), Justification::Premise),
                    None => None,
                },
                Err(_) => None,
            }
        }
    } else if n == 1 && ws[0] == "carryover"@ {
        None
    } else if (n == 4 && ws[0] == "intro"@ && (ws[1] == "and"@ || ws[1] == "conjunction"@)) || (
    n == 3 && ws[0] == "joining"@) {
        match (line_of(s, ws[n - 2]), line_of(s, ws[n - 1])) {
            (Some(a), Some(b)) => tactic(
                s,
                Ok(
                    Formula::And {
                        left: Box::new(body_of(s, a)),
                        right: Box::new(body_of(s, b)),
                    },
                ),
                Justification::IntroConjunction(a, b),
            ),
            _ => None,
        }
    } else if (n == 4 && ws[0] == "elim"@ && (ws[1] == "and"@ || ws[1] == "conjunction"@)) || (
    n == 3 && ws[0] == "seperation"@) {
        match choice_of(ws[n - 1]) {
            None => Some((s, Err("Not a valid choice"@))),
            Some(c) => match line_of(s, ws[n - 2]) {
                Some(a) => tactic(
                    s,
                    spec_elim_conjunction(body_of(s, a), c),
                    Justification::ElimConjunction(a, c),
                ),
                None => None,
            },
        }
    } else if n == 3 && (ws[0] == "intro"@ || ws[0] == "add"@) && ws[1] == "succ"@ {
        match line_of(s, ws[2]) {
            Some(a) => tactic(s, spec_intro_succ(body_of(s, a)), Justification::IntroSucc(a)),
            None => None,
        }
    } else if n == 3 && (ws[0] == "elim"@ || ws[0] == "drop"@) && ws[1] == "succ"@ {
        match line_of(s, ws[2]) {
            Some(a) => tactic(s, spec_elim_succ(body_of(s, a)), Justification::ElimSucc(a)),
            None => None,
        }
    } else if n == 2 && (ws[0] == "intro"@ || ws[0] == "elim"@) && (ws[1] == "not"@ || ws[1]
        == "negation"@ || ws[1] == "implies"@) {
        None
    } else if n == 1 && ws[0] == "demorgan"@ {
        None
    } else if n == 2 && ws[0] == "symmetry"@ {
        match line_of(s, ws[1]) {
            Some(a) => tactic(s, spec_intro_symmetry(body_of(s, a)), Justification::Symmetry(a)),
            None => None,
        }
    } else if n == 3 && ws[0] == "transitivity"@ {
        match (line_of(s, ws[1]), line_of(s, ws[2])) {
            (Some(a), Some(b)) => tactic(
                s,
                spec_intro_transitivity(body_of(s, a), body_of(s, b)),
                Justification::Transivity(a, b),
            ),
            _ => None,
        }
    } else if n == 3 && ws[0] == "induction"@ {
        match (line_of(s, ws[1]), line_of(s, ws[2])) {
            (Some(a), Some(b)) => tactic(
                s,
                spec_intro_induction(body_of(s, a), body_of(s, b)),
                Justification::Induction(a, b),
            ),
            _ => None,
        }
    } else if n == 2 && ws[0] == "axiom"@ {
        match parse_usize(ws[1]) {
            None => Some((s, Err("Expected n to be a integer"@))),
            Some(k) => match spec_intro_axiom(k) {
                Ok(f) => tactic(s, Ok(f), Justification::Axiom),
                Err(e) => Some((s, Err(e))),
            },
        }
    } else {
        Some((s, Err("Unknown command"@)))
    }
}

/// The result of the command line `cmd`.
pub open spec fn command_result(s: ReplState, cmd: Seq<char>) -> Option<
    (ReplState, Result<Seq<char>, Seq<char>>),
> {
    command_words_result(s, words(cmd))
}

/// The view of a command's answer.
pub open spec fn answer_view(r: Result<String, String>) -> Result<Seq<char>, Seq<char>> {
    match r {
        Ok(a) => Ok(a@),
        Err(e) => Err(e@),
    }
}

} // verus!

verus! {

// ---------------------------------------------------------------------------
// The session
// ---------------------------------------------------------------------------

/// An interactive proof session.
pub struct Repl {
    theorems: Vec<Theorem>,
    indentation_level: usize,
    should_quit: bool,
    max_width: usize,
}

impl View for Repl {
    type V = ReplState;

    closed spec fn view(&self) -> ReplState {
        ReplState {
            theorems: self.theorems@,
            indentation_level: self.indentation_level,
            should_quit: self.should_quit,
            max_width: self.max_width,
        }
    }
}

/// Every line of a session has a printable justification.
pub open spec fn session_wf(s: ReplState) -> bool {
    forall|i: int| 0 <= i < s.theorems.len() ==> #[trigger] printable(s.theorems[i].reason)
}

impl Repl {
    #[verifier::type_invariant]
    closed spec fn inv(&self) -> bool {
        session_wf(self@)
    }

    /// An empty session.
    pub fn new() -> (r: Repl)
        ensures
            r@ == (ReplState {
                theorems: Seq::empty(),
                indentation_level: 0,
                should_quit: false,
                max_width: 0,
            }),
    {
        Repl { theorems: Vec::new(), indentation_level: 0, should_quit: false, max_width: 0 }
    }

    /// Whether the user asked to quit.
    pub fn should_quit(&self) -> (b: bool)
        ensures
            b == self@.should_quit,
    {
        self.should_quit
    }

    /// The label `i: formula` of line `i`.
    fn left_text(i: usize, body: &Formula) -> (s: String)
        ensures
            s@ == theorem_left(i as nat, *body),
    {
        let mut left = String::new();
        write_decimal(i, &mut left);
        left.push(':');
        left.push(' ');
        write_formula(body, &mut left);
        assert(left@ =~= theorem_left(i as nat, *body));
        left
    }

    fn push_theorem(&mut self, t: Theorem)
        requires
            can_push(old(self)@),
            printable(t.reason),
        ensures
            final(self)@ == pushed(old(self)@, t.body, t.reason),
    {
        proof {
            use_type_invariant(&*self);
        }
        let theorem_count = self.theorems.len();
        let i = theorem_count + 1;
        let left = Self::left_text(i, &t.body);
        let width = left.as_str().len();
        if width > self.max_width {
            self.max_width = width;
        }
        let ghost t0 = t;
        let mut theorems: Vec<Theorem> = Vec::new();
        std::mem::swap(&mut theorems, &mut self.theorems);
        theorems.push(t);
        self.theorems = theorems;
        proof {
            assert(self.theorems@ =~= old(self)@.theorems.push(t0));
            assert forall|k: int| 0 <= k < self.theorems@.len() implies #[trigger] printable(
                self.theorems@[k].reason,
            ) by {
                if k < old(self)@.theorems.len() {
                    assert(self.theorems@[k] == old(self)@.theorems[k]);
                }
            }
        }
    }

    fn undo(&mut self)
        ensures
            final(self)@ == (ReplState {
                theorems: if old(self)@.theorems.len() > 0 {
                    old(self)@.theorems.drop_last()
                } else {
                    old(self)@.theorems
                },
                ..old(self)@
            }),
    {
        proof {
            use_type_invariant(&*self);
        }
        let mut theorems: Vec<Theorem> = Vec::new();
        std::mem::swap(&mut theorems, &mut self.theorems);
        theorems.pop();
        self.theorems = theorems;
        proof {
            assert forall|k: int| 0 <= k < self.theorems@.len() implies #[trigger] printable(
                self.theorems@[k].reason,
            ) by {
                assert(self.theorems@[k] == old(self)@.theorems[k]);
            }
        }
    }

    /// Appends the line `i: formula | reason` of `t`, its label filled to `width`.
    fn write_line(i: usize, t: &Theorem, width: usize, out: &mut String)
        requires
            printable(t.reason),
        ensures
            final(out)@ == old(out)@ + theorem_line(i as nat, *t, width as nat),
    {
        let ghost s0 = out@;
        let left = Self::left_text(i, &t.body);
        let n = left.as_str().unicode_len();
        out.append(left.as_str());
        let mut k = n;
        while k < width
            invariant
                n == left@.len(),
                n <= k <= (if n < width { width } else { n }),
                out@ == s0 + left@ + spaces((k - n) as nat),
            decreases width - k,
        {
            out.push(' ');
            k = k + 1;
            proof {
                assert(spaces((k - n) as nat) =~= spaces((k - 1 - n) as nat).push(' '));
            }
        }
        assert(s0 + left@ + spaces((k - n) as nat) =~= s0 + pad(theorem_left(i as nat, t.body), width as nat));
        out.push(' ');
        out.push('|');
        out.push(' ');
        write_reason(&t.reason, out);
        out.push('\n');
        assert(out@ =~= s0 + theorem_line(i as nat, *t, width as nat));
    }

    fn list_theorems(&self) -> (s: String)
        ensures
            s@ == list_text(self@),
    {
        proof {
            use_type_invariant(self);
        }
        let mut s = String::new();
        let mut i: usize = 0;
        while i < self.theorems.len()
            invariant
                i <= self.theorems@.len(),
                session_wf(self@),
                s@ == lines_text(self.theorems@.take(i as int), self.max_width as nat),
            decreases self.theorems.len() - i,
        {
            Self::write_line(i + 1, &self.theorems[i], self.max_width, &mut s);
            proof {
                let t = self.theorems@.take(i + 1);
                assert(t.drop_last() =~= self.theorems@.take(i as int));
            }
            i = i + 1;
        }
        s.push('\n');
        assert(self.theorems@.take(i as int) =~= self.theorems@);
        s
    }

    fn list_last_theorem(&self) -> (s: String)
        ensures
            s@ == last_text(self@),
    {
        proof {
            use_type_invariant(self);
        }
        let n = self.theorems.len();
        if n == 0 {
            return String::new();
        }
        let mut s = String::new();
        Self::write_line(n, &self.theorems[n - 1], self.max_width, &mut s);
        s
    }

    fn print_help(&self) -> (s: String)
        ensures
            s@ == help_text(),
    {
        let mut help = String::new();
        help.append("Available commands:\n");
        help.append("  help, commands       Show this help message\n");
        help.append("  list, ls             List all theorems in the current proof\n");
        help.append("  undo                 Remove the last theorem added\n");
        help.append("  axiom, axioms        List all available axioms\n");
        help.append("  axiom <n>            Introduce axiom <n> into the proof\n");
        help.append("  push                 Start a subproof (increases indentation)\n");
        help.append("  pop                  End a subproof (decreases indentation)\n");
        help.append("  quit, q              Exit the REPL\n");
        help.append("\nProof tactics:\n");
        help.append("  premise <formula>    Introduce a premise\n");
        help.append("  intro and <l1> <l2>  Introduction of conjunction (joining)\n");
        help.append(
            "  elim and <l> <c>     Elimination of conjunction (separation). choice is 'l' or 'r'\n",
        );
        help.append("  intro succ <l>       Introduction of successor (add succ)\n");
        help.append("  elim succ <l>        Elimination of successor (drop succ)\n");
        help.append("  symmetry <l>         Symmetry of equality\n");
        help.append("  transitivity <l1> <l2> Transitivity of equality\n");
        help.append("  induction <l1> <l2>  Mathematical induction\n");
        help
    }
}

/// The five numbered axioms, one per line.
fn axioms_listing() -> (s: String)
    ensures
        s@ == axioms_text(),
{
    let lines = list_axioms();
    let mut s = String::new();
    let mut i: usize = 0;
    while i < 5
        invariant
            i <= 5,
            lines.len() == 5,
            forall|k: int| 0 <= k < 5 ==> #[trigger] lines[k]@ == axiom_line((k + 1) as usize),
            s@ == (if i == 0 {
                Seq::<char>::empty()
            } else if i == 1 {
                axiom_line(1)
            } else if i == 2 {
                axiom_line(1) + seq!['\n'] + axiom_line(2)
            } else if i == 3 {
                axiom_line(1) + seq!['\n'] + axiom_line(2) + seq!['\n'] + axiom_line(3)
            } else if i == 4 {
                axiom_line(1) + seq!['\n'] + axiom_line(2) + seq!['\n'] + axiom_line(3) + seq![
                    '\n',
                ] + axiom_line(4)
            } else {
                axiom_line(1) + seq!['\n'] + axiom_line(2) + seq!['\n'] + axiom_line(3) + seq![
                    '\n',
                ] + axiom_line(4) + seq!['\n'] + axiom_line(5)
            }),
        decreases 5 - i,
    {
        if i > 0 {
            s.push('\n');
        }
        s.append(lines[i].as_str());
        i = i + 1;
        proof {
            if i == 1 {
                assert(s@ =~= axiom_line(1));
            }
        }
    }
    s.push('\n');
    s
}

} // verus!

verus! {

/// The characters of each word.
pub open spec fn word_views(ws: Seq<Vec<char>>) -> Seq<Seq<char>> {
    ws.map_values(|w: Vec<char>| w@)
}

/// The tokens of `f`, ended by `EOF`; `None` where `f` does not lex.
fn tokens_of(f: &str) -> (r: Option<Vec<crate::token::Token>>)
    ensures
        match lex(f@) {
            Ok(ts) => r matches Some(v) && kinds(v@) == ts,
            Err(_) => r is None,
        },
{
    let mut lexer = Lexer::new(String::from_str(f));
    match lexer.tokenize() {
        Ok(()) => {},
        Err(_) => {
            return None;
        },
    }
    let tokens = lexer.tokens();
    let mut copy: Vec<crate::token::Token> = Vec::new();
    let mut i: usize = 0;
    while i < tokens.len()
        invariant
            i <= tokens@.len(),
            copy@ == tokens@.take(i as int),
        decreases tokens.len() - i,
    {
        copy.push(tokens[i]);
        i = i + 1;
        proof {
            assert(copy@ =~= tokens@.take(i as int));
        }
    }
    assert(copy@ =~= tokens@);
    proof {
        assert(kinds(Seq::<crate::token::Token>::empty()) =~= Seq::<crate::token::TokenKind>::empty());
    }
    Some(copy)
}

/// The formula at the start of the text `f`; `None` where `f` does not lex or does not start
/// with a formula.
pub fn parse_str_to_formula(f: &str) -> (r: Option<Formula>)
    ensures
        r == (match lex(f@) {
            Ok(ts) => match parse_formula_at(ts, 0) {
                Some((g, _)) => Some(g),
                None => None,
            },
            Err(_) => None,
        }),
{
    let tokens = match tokens_of(f) {
        Some(t) => t,
        None => return None,
    };
    let mut parser = Parser::new(tokens);
    parser.try_parse_formula()
}

/// The term at the start of the text `f`; `None` where `f` does not lex or does not start
/// with a term.
pub fn parse_str_to_term(f: &str) -> (r: Option<Term>)
    ensures
        r == (match lex(f@) {
            Ok(ts) => match parse_term_at(ts, 0) {
                Some((t, _)) => Some(t),
                None => None,
            },
            Err(_) => None,
        }),
{
    let tokens = match tokens_of(f) {
        Some(t) => t,
        None => return None,
    };
    let mut parser = Parser::new(tokens);
    parser.try_parse_term()
}

impl Repl {
    fn line_of(&self, w: &Vec<char>) -> (r: Option<usize>)
        ensures
            r == line_of(self@, w@),
    {
        match parse_number(w) {
            Some(n) => if 1 <= n && n <= self.theorems.len() {
                Some(n)
            } else {
                None
            },
            None => None,
        }
    }

    fn body(&self, i: usize) -> (f: Formula)
        requires
            1 <= i <= self@.theorems.len(),
        ensures
            f == body_of(self@, i),
    {
        self.theorems[i - 1].body.clone()
    }

    fn apply(&mut self, f: Result<Formula, String>, reason: Justification) -> (r: Option<
        Result<String, String>,
    >)
        requires
            printable(reason),
        ensures
            match tactic(old(self)@, res_view(f), reason) {
                Some((s, out)) => r matches Some(a) && final(self)@ == s && answer_view(a) == out,
                None => r is None && final(self)@ == old(self)@,
            },
    {
        match f {
            Ok(body) => {
                if self.theorems.len() < usize::MAX {
                    self.push_theorem(Theorem::new(body, reason));
                    Some(Ok(self.list_last_theorem()))
                } else {
                    None
                }
            },
            Err(_) => None,
        }
    }

    fn run_words(&mut self, ws: &Vec<Vec<char>>) -> (r: Option<Result<String, String>>)
        ensures
            match command_words_result(old(self)@, word_views(ws@)) {
                Some((s, out)) => r matches Some(a) && final(self)@ == s && answer_view(a) == out,
                None => r is None && final(self)@ == old(self)@,
            },
    {
        proof {
            use_type_invariant(&*self);
        }
        let ghost wv = word_views(ws@);
        let n = ws.len();
        if n == 0 {
            return Some(Ok(String::new()));
        }
        if n == 1 && (word_is(&ws[0], "quit") || word_is(&ws[0], "q")) {
            self.should_quit = true;
            return Some(Ok(String::new()));
        }
        if n == 1 && (word_is(&ws[0], "list") || word_is(&ws[0], "ls")) {
            return Some(Ok(self.list_theorems()));
        }
        if n == 1 && (word_is(&ws[0], "help") || word_is(&ws[0], "commands")) {
            return Some(Ok(self.print_help()));
        }
        if n == 1 && word_is(&ws[0], "undo") {
            self.undo();
            return Some(Ok(String::new()));
        }
        if n == 1 && (word_is(&ws[0], "axiom") || word_is(&ws[0], "axioms")) {
            return Some(Ok(axioms_listing()));
        }
        if n == 1 && word_is(&ws[0], "push") {
            if self.indentation_level < usize::MAX {
                self.indentation_level += 1;
                let mut s = String::new();
                s.push('[');
                return Some(Ok(s));
            } else {
                return None;
            }
        }
        if n == 1 && word_is(&ws[0], "pop") {
            if self.indentation_level > 0 {
                self.indentation_level -= 1;
                let mut s = String::new();
                s.push(']');
                return Some(Ok(s));
            } else {
                return Some(Err(String::from_str("Nothing to pop from")));
            }
        }
        if word_is(&ws[0], "premise") {
            if n == 1 {
                return Some(Err(String::from_str("Usage: premise <formula>")));
            }
            let src = join_words_from(ws, 1);
            proof {
                assert(ws@.skip(1).map_values(|w: Vec<char>| w@) =~= wv.skip(1));
            }
            return match parse_str_to_formula(src.as_str()) {
                Some(f) => self.apply(Ok(f), Justification::Premise),
                None => None,
            };
        }
        if n == 1 && word_is(&ws[0], "carryover") {
            return None;
        }
        if (n == 4 && word_is(&ws[0], "intro") && (word_is(&ws[1], "and") || word_is(
            &ws[1],
            "conjunction",
        ))) || (n == 3 && word_is(&ws[0], "joining")) {
            let a = match self.line_of(&ws[n - 2]) {
                Some(a) => a,
                None => return None,
            };
            let b = match self.line_of(&ws[n - 1]) {
                Some(b) => b,
                None => return None,
            };
            let f = intro_conjunction(self.body(a), self.body(b));
            return self.apply(Ok(f), Justification::IntroConjunction(a, b));
        }
        if (n == 4 && word_is(&ws[0], "elim") && (word_is(&ws[1], "and") || word_is(
            &ws[1],
            "conjunction",
        ))) || (n == 3 && word_is(&ws[0], "seperation")) {
            let c = &ws[n - 1];
            let choice = if word_is(c, "l") || word_is(c, "left") || word_is(c, "1") {
                Choice::Left
            } else if word_is(c, "r") || word_is(c, "right") || word_is(c, "2") {
                Choice::Right
            } else {
                return Some(Err(String::from_str("Not a valid choice")));
            };
            let a = match self.line_of(&ws[n - 2]) {
                Some(a) => a,
                None => return None,
            };
            let f = elim_conjunction(self.body(a), choice);
            return self.apply(f, Justification::ElimConjunction(a, choice));
        }
        if n == 3 && (word_is(&ws[0], "intro") || word_is(&ws[0], "add")) && word_is(
            &ws[1],
            "succ",
        ) {
            let a = match self.line_of(&ws[2]) {
                Some(a) => a,
                None => return None,
            };
            let f = intro_succ(self.body(a));
            return self.apply(f, Justification::IntroSucc(a));
        }
        if n == 3 && (word_is(&ws[0], "elim") || word_is(&ws[0], "drop")) && word_is(
            &ws[1],
            "succ",
        ) {
            let a = match self.line_of(&ws[2]) {
                Some(a) => a,
                None => return None,
            };
            let f = elim_succ(self.body(a));
            return self.apply(f, Justification::ElimSucc(a));
        }
        if n == 2 && (word_is(&ws[0], "intro") || word_is(&ws[0], "elim")) && (word_is(
            &ws[1],
            "not",
        ) || word_is(&ws[1], "negation") || word_is(&ws[1], "implies")) {
            return None;
        }
        if n == 1 && word_is(&ws[0], "demorgan") {
            return None;
        }
        if n == 2 && word_is(&ws[0], "symmetry") {
            let a = match self.line_of(&ws[1]) {
                Some(a) => a,
                None => return None,
            };
            let f = intro_symmetry(self.body(a));
            return self.apply(f, Justification::Symmetry(a));
        }
        if n == 3 && word_is(&ws[0], "transitivity") {
            let a = match self.line_of(&ws[1]) {
                Some(a) => a,
                None => return None,
            };
            let b = match self.line_of(&ws[2]) {
                Some(b) => b,
                None => return None,
            };
            let f = intro_transitivity(self.body(a), self.body(b));
            return self.apply(f, Justification::Transivity(a, b));
        }
        if n == 3 && word_is(&ws[0], "induction") {
            let a = match self.line_of(&ws[1]) {
                Some(a) => a,
                None => return None,
            };
            let b = match self.line_of(&ws[2]) {
                Some(b) => b,
                None => return None,
            };
            let f = intro_induction(self.body(a), self.body(b));
            return self.apply(f, Justification::Induction(a, b));
        }
        if n == 2 && word_is(&ws[0], "axiom") {
            let k = match parse_number(&ws[1]) {
                Some(k) => k,
                None => return Some(Err(String::from_str("Expected n to be a integer"))),
            };
            return match intro_axiom(k) {
                Ok(f) => self.apply(Ok(f), Justification::Axiom),
                Err(e) => Some(Err(e)),
            };
        }
        Some(Err(String::from_str("Unknown command")))
    }
}

} // verus!

verus! {

/// The state after `run_examples`: axioms 1 to 3, two instances of axiom 1, their
/// conjunction, and an instance of axiom 2.
pub open spec fn examples_state(s: ReplState) -> ReplState {
    let s1 = pushed(s, axiom_one(), Justification::Axiom);
    let s2 = pushed(s1, axiom_two(), Justification::Axiom);
    let s3 = pushed(s2, axiom_three(), Justification::Axiom);
    let one = Term::Succ { child: Box::new(Term::Zero) };
    let f4 = spec_elim_forall(s3.theorems[0].body, one)->Ok_0;
    let s4 = pushed(s3, f4, Justification::ElimForAll(1, one));
    let f5 = spec_elim_forall(s4.theorems[0].body, Term::Zero)->Ok_0;
    let s5 = pushed(s4, f5, Justification::ElimForAll(1, Term::Zero));
    let s6 = pushed(
        s5,
        Formula::And { left: Box::new(f4), right: Box::new(f5) },
        Justification::IntroConjunction(4, 5),
    );
    let f7 = spec_elim_forall(s6.theorems[1].body, Term::Zero)->Ok_0;
    pushed(s6, f7, Justification::ElimForAll(2, Term::Zero))
}

/// Whether `run_examples` can run: seven more lines can be numbered, and the first two lines,
/// once axioms 1 to 3 are appended, are universals.
pub open spec fn examples_defined(s: ReplState) -> bool {
    let ts = s.theorems + seq![
        Theorem { body: axiom_one(), reason: Justification::Axiom },
        Theorem { body: axiom_two(), reason: Justification::Axiom },
    ];
    &&& s.theorems.len() + 7 <= usize::MAX
    &&& ts[0].body is ForAll
    &&& ts[1].body is ForAll
}

impl Repl {
    /// Fills the session with a short worked example: axioms 1 to 3, axiom 1 instantiated
    /// with `S0` and with `0`, the conjunction of those, and axiom 2 instantiated with `0`.
    pub fn run_examples(&mut self)
        requires
            examples_defined(old(self)@),
        ensures
            final(self)@ == examples_state(old(self)@),
    {
        proof {
            use_type_invariant(&*self);
        }
        let ghost s0 = self@;
        self.push_theorem(Theorem::new(Self::numbered_axiom(1), Justification::Axiom));
        self.push_theorem(Theorem::new(Self::numbered_axiom(2), Justification::Axiom));
        self.push_theorem(Theorem::new(Self::numbered_axiom(3), Justification::Axiom));
        assert(self.theorems@[0] == (s0.theorems + seq![
            Theorem { body: axiom_one(), reason: Justification::Axiom },
            Theorem { body: axiom_two(), reason: Justification::Axiom },
        ])[0]);
        assert(self.theorems@[1] == (s0.theorems + seq![
            Theorem { body: axiom_one(), reason: Justification::Axiom },
            Theorem { body: axiom_two(), reason: Justification::Axiom },
        ])[1]);
        proof {
            reveal_with_fuel(spec_term_meets_quantifier, 2);
        }
        let new_term = new_succ(new_zero());
        let new_theorem = Self::instance(self.theorems[0].body.clone(), new_term.clone());
        self.push_theorem(Theorem::new(new_theorem.clone(), Justification::ElimForAll(1, new_term)));
        let new_term = new_zero();
        let new_new_theorem = Self::instance(self.theorems[0].body.clone(), new_term.clone());
        self.push_theorem(
            Theorem::new(new_new_theorem.clone(), Justification::ElimForAll(1, new_term)),
        );
        let new_theorem = intro_conjunction(new_theorem, new_new_theorem);
        self.push_theorem(Theorem::new(new_theorem, Justification::IntroConjunction(4, 5)));
        let new_theorem = Self::instance(self.theorems[1].body.clone(), Term::Zero);
        self.push_theorem(Theorem::new(new_theorem, Justification::ElimForAll(2, Term::Zero)));
    }

    /// Whether `run_examples` can run on this session (it always can on a new one).
    pub fn can_run_examples(&self) -> (b: bool)
        ensures
            b == examples_defined(self@),
    {
        let n = self.theorems.len();
        if n > usize::MAX - 7 {
            return false;
        }
        let first = if n >= 1 {
            self.theorems[0].body.is_forall()
        } else {
            true
        };
        let second = if n >= 2 {
            self.theorems[1].body.is_forall()
        } else {
            true
        };
        let ghost ts = self@.theorems + seq![
            Theorem { body: axiom_one(), reason: Justification::Axiom },
            Theorem { body: axiom_two(), reason: Justification::Axiom },
        ];
        assert(n >= 1 ==> ts[0] == self@.theorems[0]);
        assert(n >= 2 ==> ts[1] == self@.theorems[1]);
        assert(n == 0 ==> ts[0].body == axiom_one() && ts[1].body == axiom_two());
        assert(n == 1 ==> ts[1].body == axiom_one());
        first && second
    }

    fn numbered_axiom(n: usize) -> (f: Formula)
        requires
            1 <= n <= 5,
        ensures
            f == spec_intro_axiom(n)->Ok_0,
    {
        match intro_axiom(n) {
            Ok(f) => f,
            Err(_) => {
                proof {
                    assert(false);
                }
                Formula::Atom { left: Term::Zero, right: Term::Zero }
            },
        }
    }

    fn instance(p: Formula, t: Term) -> (f: Formula)
        requires
            p is ForAll,
            !spec_term_meets_quantifier(t, *p->ForAll_body),
        ensures
            f == spec_elim_forall(p, t)->Ok_0,
    {
        match elim_forall(p, t) {
            Ok(f) => f,
            Err(_) => {
                proof {
                    assert(false);
                }
                Formula::Atom { left: Term::Zero, right: Term::Zero }
            },
        }
    }

    /// Runs one command line. The result is `None`, and the session unchanged, where the
    /// command would stop the session: see `command_words_result`.
    pub fn try_process_command(&mut self, cmd: &str) -> (r: Option<Result<String, String>>)
        ensures
            match command_result(old(self)@, cmd@) {
                Some((s, out)) => r matches Some(a) && final(self)@ == s && answer_view(a) == out,
                None => r is None && final(self)@ == old(self)@,
            },
    {
        let ws = split_whitespace(cmd);
        assert(word_views(ws@) =~= words(cmd@));
        self.run_words(&ws)
    }

    /// Runs one command line: a session command (`quit`, `list`, `help`, `undo`, `axioms`,
    /// `push`, `pop`) or a tactic that appends a line to the proof, and gives its answer or
    /// its error.
    pub fn process_command(&mut self, cmd: &str) -> (r: Result<String, String>)
        requires
            command_result(old(self)@, cmd@) is Some,
        ensures
            ({
                let (s, out) = command_result(old(self)@, cmd@)->0;
                final(self)@ == s && answer_view(r) == out
            }),
    {
        match self.try_process_command(cmd) {
            Some(r) => r,
            None => {
                proof {
                    assert(false);
                }
                Ok(String::new())
            },
        }
    }
}

} // verus!

verus! {

// ---------------------------------------------------------------------------
// Laws of a session
// ---------------------------------------------------------------------------

/// A command that answers with an error leaves the session as it was.
pub proof fn law_error_keeps_session(s: ReplState, cmd: Seq<char>)
    ensures
        command_result(s, cmd) matches Some((s2, Err(_))) ==> s2 == s,
{
}

/// No command narrows the label width or takes back a request to quit.
pub proof fn law_session_monotone(s: ReplState, cmd: Seq<char>)
    ensures
        command_result(s, cmd) matches Some((s2, _)) ==> {
            &&& s2.max_width >= s.max_width
            &&& s.should_quit ==> s2.should_quit
        },
{
}

/// A command leaves the lines of the proof as they were, removes the last one (`undo`), or
/// appends one line.
pub proof fn law_lines_change_by_one(s: ReplState, cmd: Seq<char>)
    ensures
        command_result(s, cmd) matches Some((s2, _)) ==> {
            ||| s2.theorems == s.theorems
            ||| s.theorems.len() > 0 && s2.theorems == s.theorems.drop_last()
            ||| s2.theorems.len() == s.theorems.len() + 1 && s2.theorems.drop_last() == s.theorems
        },
{
    if let Some((s2, _)) = command_result(s, cmd) {
        let ws = words(cmd);
        if s2.theorems.len() == s.theorems.len() + 1 {
            assert(s2.theorems.drop_last() =~= s.theorems);
        }
    }
}

/// `undo` removes the last line, and changes nothing else.
pub proof fn law_undo(s: ReplState)
    ensures
        command_words_result(s, seq!["undo"@]) == Some((
            ReplState {
                theorems: if s.theorems.len() > 0 {
                    s.theorems.drop_last()
                } else {
                    s.theorems
                },
                ..s
            },
            Ok::<Seq<char>, Seq<char>>(Seq::empty()),
        )),
{
    reveal_strlit("undo");
    reveal_strlit("quit");
    reveal_strlit("q");
    reveal_strlit("list");
    reveal_strlit("ls");
    reveal_strlit("help");
    reveal_strlit("commands");
}

/// A line appended by a command is taken back by `undo`.
pub proof fn law_undo_takes_back(s: ReplState, cmd: Seq<char>)
    requires
        command_result(s, cmd) matches Some((s2, _)) && s2.theorems.len() == s.theorems.len() + 1,
    ensures
        ({
            let (s2, _) = command_result(s, cmd)->0;
            let (s3, _) = command_words_result(s2, seq!["undo"@])->0;
            s3.theorems == s.theorems
        }),
{
    law_lines_change_by_one(s, cmd);
    let (s2, _) = command_result(s, cmd)->0;
    law_undo(s2);
}

/// `axiom <n>`, for `n` from 1 to 5, appends axiom `n` as a new line, and `undo` then
/// gives back the lines as they were.
pub proof fn law_axiom_then_undo(s: ReplState, w: Seq<char>)
    requires
        parse_usize(w) matches Some(k) && 1 <= k <= 5,
        can_push(s),
    ensures
        ({
            let k = parse_usize(w)->0;
            let r = command_words_result(s, seq!["axiom"@, w]);
            let (s2, out) = r->0;
            &&& r is Some
            &&& out is Ok
            &&& s2.theorems == s.theorems.push(
                Theorem { body: spec_intro_axiom(k)->Ok_0, reason: Justification::Axiom },
            )
            &&& command_words_result(s2, seq!["undo"@]) == Some(
                (
                    ReplState { theorems: s.theorems, ..s2 },
                    Ok::<Seq<char>, Seq<char>>(Seq::empty()),
                ),
            )
        }),
{
    reveal_strlit("axiom");
    reveal_strlit("premise");
    reveal_strlit("intro");
    reveal_strlit("elim");
    reveal_strlit("symmetry");
    let k = parse_usize(w)->0;
    assert(spec_intro_axiom(k) is Ok);
    let (s2, _) = command_words_result(s, seq!["axiom"@, w])->0;
    law_undo(s2);
    assert(s2.theorems.drop_last() =~= s.theorems);
}

/// The command words that the tactic laws below compare: their lengths and first letters.
proof fn lemma_tactic_words()
    ensures
        "premise"@.len() == 7 && "premise"@[0] == 'p',
        "intro"@.len() == 5 && "intro"@[0] == 'i',
        "add"@.len() == 3 && "add"@[0] == 'a',
        "joining"@.len() == 7 && "joining"@[0] == 'j',
        "seperation"@.len() == 10 && "seperation"@[0] == 's',
        "elim"@.len() == 4 && "elim"@[0] == 'e',
        "drop"@.len() == 4 && "drop"@[0] == 'd',
        "succ"@.len() == 4 && "succ"@[0] == 's',
        "and"@.len() == 3 && "and"@[0] == 'a',
        "conjunction"@.len() == 11 && "conjunction"@[0] == 'c',
        "l"@.len() == 1 && "l"@[0] == 'l',
        "left"@.len() == 4 && "left"@[0] == 'l',
        "1"@.len() == 1 && "1"@[0] == '1',
        "r"@.len() == 1 && "r"@[0] == 'r',
        "right"@.len() == 5 && "right"@[0] == 'r',
        "2"@.len() == 1 && "2"@[0] == '2',
        "symmetry"@.len() == 8 && "symmetry"@[0] == 's',
        "transitivity"@.len() == 12 && "transitivity"@[0] == 't',
        "induction"@.len() == 9 && "induction"@[0] == 'i',
{
    reveal_strlit("premise");
    reveal_strlit("intro");
    reveal_strlit("add");
    reveal_strlit("joining");
    reveal_strlit("seperation");
    reveal_strlit("elim");
    reveal_strlit("drop");
    reveal_strlit("succ");
    reveal_strlit("and");
    reveal_strlit("conjunction");
    reveal_strlit("l");
    reveal_strlit("left");
    reveal_strlit("1");
    reveal_strlit("r");
    reveal_strlit("right");
    reveal_strlit("2");
    reveal_strlit("symmetry");
    reveal_strlit("transitivity");
    reveal_strlit("induction");
}

/// `elim and k c` on a line `(p ∧ q)` appends `p` when `c` is `l`, `left` or `1`, and `q`
/// when `c` is `r`, `right` or `2`.
#[verifier::spinoff_prover]
#[verifier::rlimit(80)]
pub proof fn law_elim_and_takes_the_named_side(s: ReplState, w: Seq<char>, c: Seq<char>)
    requires
        line_of(s, w) matches Some(k) && s.theorems[k - 1].body is And,
        can_push(s),
        c == "l"@ || c == "left"@ || c == "1"@ || c == "r"@ || c == "right"@ || c == "2"@,
    ensures
        ({
            let k = line_of(s, w)->0;
            let line = s.theorems[k - 1].body;
            let left_side = c == "l"@ || c == "left"@ || c == "1"@;
            let part = if left_side {
                *line->And_left
            } else {
                *line->And_right
            };
            let side = if left_side {
                Choice::Left
            } else {
                Choice::Right
            };
            let r = command_words_result(s, seq!["elim"@, "and"@, w, c]);
            let (s2, _) = r->0;
            &&& r matches Some((_, Ok(_)))
            &&& s2.theorems == s.theorems.push(
                Theorem { body: part, reason: Justification::ElimConjunction(k, side) },
            )
        }),
{
    lemma_tactic_words();
    reveal_strlit("elim");
    reveal_strlit("and");
    reveal_strlit("premise");
    reveal_strlit("intro");
    reveal_strlit("l");
    reveal_strlit("left");
    reveal_strlit("1");
    reveal_strlit("r");
    reveal_strlit("right");
    reveal_strlit("2");
    let k = line_of(s, w)->0;
    let ws = seq!["elim"@, "and"@, w, c];
    assert(ws.len() == 4 && ws[0] == "elim"@ && ws[1] == "and"@ && ws[2] == w && ws[3] == c);
    let side = if c == "l"@ || c == "left"@ || c == "1"@ {
        Choice::Left
    } else {
        Choice::Right
    };
    assert(choice_of(c) == Some(side));
    assert(command_words_result(s, ws) == tactic(
        s,
        spec_elim_conjunction(body_of(s, k), side),
        Justification::ElimConjunction(k, side),
    ));
}

/// `elim succ k` and `drop succ k` are one command, as are `intro succ k` and `add succ k`.
#[verifier::spinoff_prover]
#[verifier::rlimit(80)]
pub proof fn law_succ_commands_have_two_names(s: ReplState, w: Seq<char>)
    ensures
        command_words_result(s, seq!["elim"@, "succ"@, w]) == command_words_result(
            s,
            seq!["drop"@, "succ"@, w],
        ),
        command_words_result(s, seq!["intro"@, "succ"@, w]) == command_words_result(
            s,
            seq!["add"@, "succ"@, w],
        ),
{
    lemma_tactic_words();
    reveal_strlit("elim");
    reveal_strlit("drop");
    reveal_strlit("succ");
    reveal_strlit("premise");
    reveal_strlit("intro");
    reveal_strlit("add");
    reveal_strlit("joining");
    reveal_strlit("seperation");
    let drop_result = match line_of(s, w) {
        Some(a) => tactic(s, spec_elim_succ(body_of(s, a)), Justification::ElimSucc(a)),
        None => None,
    };
    let add_result = match line_of(s, w) {
        Some(a) => tactic(s, spec_intro_succ(body_of(s, a)), Justification::IntroSucc(a)),
        None => None,
    };
    let ws = seq!["elim"@, "succ"@, w];
    assert(ws.len() == 3 && ws[0] == "elim"@ && ws[1] == "succ"@ && ws[2] == w);
    assert(command_words_result(s, ws) == drop_result);
    let ws = seq!["drop"@, "succ"@, w];
    assert(ws.len() == 3 && ws[0] == "drop"@ && ws[1] == "succ"@ && ws[2] == w);
    assert(command_words_result(s, ws) == drop_result);
    let ws = seq!["intro"@, "succ"@, w];
    assert(ws.len() == 3 && ws[0] == "intro"@ && ws[1] == "succ"@ && ws[2] == w);
    assert(command_words_result(s, ws) == add_result);
    let ws = seq!["add"@, "succ"@, w];
    assert(ws.len() == 3 && ws[0] == "add"@ && ws[1] == "succ"@ && ws[2] == w);
    assert(command_words_result(s, ws) == add_result);
}

/// `elim succ k` on a line `(St = Su)` appends `(t = u)`.
#[verifier::spinoff_prover]
#[verifier::rlimit(80)]
pub proof fn law_elim_succ_drops_the_successor(s: ReplState, w: Seq<char>, a: Term, b: Term)
    requires
        line_of(s, w) matches Some(k) && s.theorems[k - 1].body == (Formula::Atom {
            left: Term::Succ { child: Box::new(a) },
            right: Term::Succ { child: Box::new(b) },
        }),
        can_push(s),
    ensures
        ({
            let r = command_words_result(s, seq!["elim"@, "succ"@, w]);
            let (s2, _) = r->0;
            &&& r matches Some((_, Ok(_)))
            &&& s2.theorems == s.theorems.push(
                Theorem {
                    body: Formula::Atom { left: a, right: b },
                    reason: Justification::ElimSucc(line_of(s, w)->0),
                },
            )
        }),
{
    lemma_tactic_words();
    reveal_strlit("elim");
    reveal_strlit("drop");
    reveal_strlit("succ");
    reveal_strlit("premise");
    reveal_strlit("intro");
    reveal_strlit("add");
    reveal_strlit("joining");
    reveal_strlit("seperation");
    let k = line_of(s, w)->0;
    let ws = seq!["elim"@, "succ"@, w];
    assert(ws.len() == 3 && ws[0] == "elim"@ && ws[1] == "succ"@ && ws[2] == w);
    assert(command_words_result(s, ws) == tactic(
        s,
        spec_elim_succ(body_of(s, k)),
        Justification::ElimSucc(k),
    ));
}

/// `intro succ k` on a line `(t = u)` appends `(St = Su)`.
#[verifier::spinoff_prover]
#[verifier::rlimit(80)]
pub proof fn law_intro_succ_adds_a_successor(s: ReplState, w: Seq<char>, a: Term, b: Term)
    requires
        line_of(s, w) matches Some(k) && s.theorems[k - 1].body == (Formula::Atom {
            left: a,
            right: b,
        }),
        can_push(s),
    ensures
        ({
            let r = command_words_result(s, seq!["intro"@, "succ"@, w]);
            let (s2, _) = r->0;
            &&& r matches Some((_, Ok(_)))
            &&& s2.theorems == s.theorems.push(
                Theorem {
                    body: Formula::Atom {
                        left: Term::Succ { child: Box::new(a) },
                        right: Term::Succ { child: Box::new(b) },
                    },
                    reason: Justification::IntroSucc(line_of(s, w)->0),
                },
            )
        }),
{
    lemma_tactic_words();
    reveal_strlit("elim");
    reveal_strlit("drop");
    reveal_strlit("succ");
    reveal_strlit("premise");
    reveal_strlit("intro");
    reveal_strlit("add");
    reveal_strlit("joining");
    reveal_strlit("seperation");
    let k = line_of(s, w)->0;
    let ws = seq!["intro"@, "succ"@, w];
    assert(ws.len() == 3 && ws[0] == "intro"@ && ws[1] == "succ"@ && ws[2] == w);
    assert(command_words_result(s, ws) == tactic(
        s,
        spec_intro_succ(body_of(s, k)),
        Justification::IntroSucc(k),
    ));
}

/// `intro and k1 k2` (also written `joining k1 k2`) appends the conjunction of lines `k1`
/// and `k2`, in that order.
#[verifier::spinoff_prover]
#[verifier::rlimit(80)]
pub proof fn law_intro_and_joins_two_lines(s: ReplState, w1: Seq<char>, w2: Seq<char>)
    requires
        line_of(s, w1) is Some,
        line_of(s, w2) is Some,
        can_push(s),
    ensures
        ({
            let a = line_of(s, w1)->0;
            let b = line_of(s, w2)->0;
            let r = command_words_result(s, seq!["intro"@, "and"@, w1, w2]);
            let (s2, _) = r->0;
            &&& r matches Some((_, Ok(_)))
            &&& s2.theorems == s.theorems.push(
                Theorem {
                    body: Formula::And {
                        left: Box::new(s.theorems[a - 1].body),
                        right: Box::new(s.theorems[b - 1].body),
                    },
                    reason: Justification::IntroConjunction(a, b),
                },
            )
            &&& command_words_result(s, seq!["joining"@, w1, w2]) == r
        }),
{
    lemma_tactic_words();
    let ws = seq!["intro"@, "and"@, w1, w2];
    assert(ws.len() == 4 && ws[0] == "intro"@ && ws[1] == "and"@ && ws[2] == w1 && ws[3] == w2);
    let ws2 = seq!["joining"@, w1, w2];
    assert(ws2.len() == 3 && ws2[0] == "joining"@ && ws2[1] == w1 && ws2[2] == w2);
}

/// `symmetry k` on a line `(x = y)` appends `(y = x)`.
#[verifier::spinoff_prover]
#[verifier::rlimit(80)]
pub proof fn law_symmetry_command_swaps_sides(s: ReplState, w: Seq<char>, x: Term, y: Term)
    requires
        line_of(s, w) matches Some(k) && s.theorems[k - 1].body == (Formula::Atom {
            left: x,
            right: y,
        }),
        can_push(s),
    ensures
        ({
            let r = command_words_result(s, seq!["symmetry"@, w]);
            let (s2, _) = r->0;
            &&& r matches Some((_, Ok(_)))
            &&& s2.theorems == s.theorems.push(
                Theorem {
                    body: Formula::Atom { left: y, right: x },
                    reason: Justification::Symmetry(line_of(s, w)->0),
                },
            )
        }),
{
    lemma_tactic_words();
    let ws = seq!["symmetry"@, w];
    assert(ws.len() == 2 && ws[0] == "symmetry"@ && ws[1] == w);
}

/// `transitivity k1 k2` on lines `(x = y)` and `(y = z)` appends `(x = z)`.
#[verifier::spinoff_prover]
#[verifier::rlimit(80)]
pub proof fn law_transitivity_command_chains(
    s: ReplState,
    w1: Seq<char>,
    w2: Seq<char>,
    x: Term,
    y: Term,
    z: Term,
)
    requires
        line_of(s, w1) matches Some(a) && s.theorems[a - 1].body == (Formula::Atom {
            left: x,
            right: y,
        }),
        line_of(s, w2) matches Some(b) && s.theorems[b - 1].body == (Formula::Atom {
            left: y,
            right: z,
        }),
        can_push(s),
    ensures
        ({
            let r = command_words_result(s, seq!["transitivity"@, w1, w2]);
            let (s2, _) = r->0;
            &&& r matches Some((_, Ok(_)))
            &&& s2.theorems == s.theorems.push(
                Theorem {
                    body: Formula::Atom { left: x, right: z },
                    reason: Justification::Transivity(line_of(s, w1)->0, line_of(s, w2)->0),
                },
            )
        }),
{
    lemma_tactic_words();
    let ws = seq!["transitivity"@, w1, w2];
    assert(ws.len() == 3 && ws[0] == "transitivity"@ && ws[1] == w1 && ws[2] == w2);
}

/// `induction k1 k2`, where line `k2` is `∀v: (l -> r)`, appends `∀v: l`.
#[verifier::spinoff_prover]
#[verifier::rlimit(80)]
pub proof fn law_induction_command_generalizes(
    s: ReplState,
    w1: Seq<char>,
    w2: Seq<char>,
    v: char,
    l: Formula,
    r: Formula,
)
    requires
        line_of(s, w1) is Some,
        line_of(s, w2) matches Some(b) && s.theorems[b - 1].body == (Formula::ForAll {
            var: v,
            body: Box::new(Formula::Implies { left: Box::new(l), right: Box::new(r) }),
        }),
        can_push(s),
    ensures
        ({
            let res = command_words_result(s, seq!["induction"@, w1, w2]);
            let (s2, _) = res->0;
            &&& res matches Some((_, Ok(_)))
            &&& s2.theorems == s.theorems.push(
                Theorem {
                    body: Formula::ForAll { var: v, body: Box::new(l) },
                    reason: Justification::Induction(line_of(s, w1)->0, line_of(s, w2)->0),
                },
            )
        }),
{
    lemma_tactic_words();
    let ws = seq!["induction"@, w1, w2];
    assert(ws.len() == 3 && ws[0] == "induction"@ && ws[1] == w1 && ws[2] == w2);
}

/// `push` and then `pop` give the session back.
pub proof fn law_push_pop(s: ReplState)
    requires
        s.indentation_level < usize::MAX,
    ensures
        ({
            let (s1, out) = command_words_result(s, seq!["push"@])->0;
            &&& out == Ok::<Seq<char>, Seq<char>>(seq!['['])
            &&& command_words_result(s1, seq!["pop"@]) == Some(
                (s, Ok::<Seq<char>, Seq<char>>(seq![']'])),
            )
        }),
{
    reveal_strlit("push");
    reveal_strlit("pop");
    reveal_strlit("quit");
    reveal_strlit("q");
    reveal_strlit("list");
    reveal_strlit("ls");
    reveal_strlit("help");
    reveal_strlit("commands");
    reveal_strlit("undo");
    reveal_strlit("axiom");
    reveal_strlit("axioms");
    assert(command_words_result(s, seq!["push"@]) is Some);
}

/// `pop` outside any subproof is refused.
pub proof fn law_pop_at_top_level(s: ReplState)
    requires
        s.indentation_level == 0,
    ensures
        command_words_result(s, seq!["pop"@]) == Some(
            (s, Err::<Seq<char>, Seq<char>>("Nothing to pop from"@)),
        ),
{
    reveal_strlit("push");
    reveal_strlit("pop");
    reveal_strlit("quit");
    reveal_strlit("q");
    reveal_strlit("list");
    reveal_strlit("ls");
    reveal_strlit("help");
    reveal_strlit("commands");
    reveal_strlit("undo");
    reveal_strlit("axiom");
    reveal_strlit("axioms");
}

/// `quit` asks to quit and changes nothing else.
pub proof fn law_quit(s: ReplState)
    ensures
        command_words_result(s, seq!["quit"@]) == Some(
            (ReplState { should_quit: true, ..s }, Ok::<Seq<char>, Seq<char>>(Seq::empty())),
        ),
{
}

/// `list` answers with every line and changes nothing.
pub proof fn law_list(s: ReplState)
    ensures
        command_words_result(s, seq!["list"@]) == Some(
            (s, Ok::<Seq<char>, Seq<char>>(list_text(s))),
        ),
{
    reveal_strlit("list");
    reveal_strlit("quit");
    reveal_strlit("q");
}

/// The lines that a justification cites.
pub open spec fn cited_lines(j: Justification) -> Seq<usize> {
    match j {
        Justification::IntroConjunction(p, q) => seq![p, q],
        Justification::ElimConjunction(l, _) => seq![l],
        Justification::ElimForAll(l, _) => seq![l],
        Justification::IntroSucc(l) => seq![l],
        Justification::ElimSucc(l) => seq![l],
        Justification::Symmetry(l) => seq![l],
        Justification::Transivity(p, q) => seq![p, q],
        Justification::Induction(p, q) => seq![p, q],
        Justification::IntroImplies(p, q) => seq![p, q],
        Justification::ElimImplies(p, q) => seq![p, q],
        Justification::DeMorgan(l) => seq![l],
        Justification::Contrapositive(l) => seq![l],
        Justification::Interchange(l) => seq![l],
        Justification::CarryOver(l) => seq![l],
        _ => Seq::empty(),
    }
}

/// Every line cites only lines above it (lines are numbered from 1).
pub open spec fn cites_earlier(s: ReplState) -> bool {
    forall|i: int, k: int|
        0 <= i < s.theorems.len() && 0 <= k < cited_lines(s.theorems[i].reason).len() ==> 1
            <= #[trigger] cited_lines(s.theorems[i].reason)[k] <= i
}

/// Commands keep every line citing only lines above it.
#[verifier::spinoff_prover]
#[verifier::rlimit(60)]
pub proof fn law_commands_cite_earlier_lines(s: ReplState, cmd: Seq<char>)
    requires
        cites_earlier(s),
    ensures
        command_result(s, cmd) matches Some((s2, _)) ==> cites_earlier(s2),
{
    if let Some((s2, _)) = command_result(s, cmd) {
        assert forall|i: int, k: int|
            0 <= i < s2.theorems.len() && 0 <= k < cited_lines(s2.theorems[i].reason).len()
                implies 1 <= #[trigger] cited_lines(s2.theorems[i].reason)[k] <= i by {
            if i < s.theorems.len() {
                assert(s2.theorems[i] == s.theorems[i]);
            }
        }
    }
}

/// The worked example cites only lines above each line.
pub proof fn law_examples_cite_earlier_lines(s: ReplState)
    requires
        cites_earlier(s),
        examples_defined(s),
    ensures
        cites_earlier(examples_state(s)),
{
    let e = examples_state(s);
    let n = s.theorems.len();
    assert forall|i: int, k: int|
        0 <= i < e.theorems.len() && 0 <= k < cited_lines(e.theorems[i].reason).len()
            implies 1 <= #[trigger] cited_lines(e.theorems[i].reason)[k] <= i by {
        if i < n {
            assert(e.theorems[i] == s.theorems[i]);
        }
    }
}

} // verus!

