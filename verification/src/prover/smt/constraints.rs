//! Constraint extraction: numeric constraints on variables, rendered as
//! SMT-LIB2 assertions.

use vstd::prelude::*;
use crate::text::{dec_int, push_decimal_i64, str_eq};

verus! {

/// A comparison of a variable with a constant.
#[derive(Debug, Clone)]
pub struct Constraint {
    pub variable: String,
    /// One of ">", "<", ">=", "<=", "==", "!=".
    pub operator: String,
    pub value: i64,
}

/// The operators that a constraint can use.
pub open spec fn known_operator(op: Seq<char>) -> bool {
    op == ">"@ || op == "<"@ || op == ">="@ || op == "<="@ || op == "=="@ || op == "!="@
}

/// The SMT-LIB2 term of a constraint.
pub open spec fn constraint_text(c: Constraint) -> Seq<char> {
    let args = c.variable@ + " "@ + dec_int(c.value as int);
    let op = c.operator@;
    if op == ">"@ {
        "(> "@ + args + ")"@
    } else if op == "<"@ {
        "(< "@ + args + ")"@
    } else if op == ">="@ {
        "(>= "@ + args + ")"@
    } else if op == "<="@ {
        "(<= "@ + args + ")"@
    } else if op == "=="@ {
        "(= "@ + args + ")"@
    } else {
        "(not (= "@ + args + "))"@
    }
}

impl Constraint {
    /// The constraint as an SMT-LIB2 term. An unknown operator is a
    /// programming error, so the operator must be a known one.
    pub fn to_smt_lib2(&self) -> (s: String)
        requires
            known_operator(self.operator@),
        ensures
            s@ == constraint_text(*self),
    {
        let op = self.operator.as_str();
        let (open, close) = if str_eq(op, ">") {
            ("(> ", ")")
        } else if str_eq(op, "<") {
            ("(< ", ")")
        } else if str_eq(op, ">=") {
            ("(>= ", ")")
        } else if str_eq(op, "<=") {
            ("(<= ", ")")
        } else if str_eq(op, "==") {
            ("(= ", ")")
        } else {
            ("(not (= ", "))")
        };
        let mut s = String::from_str(open);
        s.append(self.variable.as_str());
        s.append(" ");
        push_decimal_i64(&mut s, self.value);
        s.append(close);
        assert(s@ =~= constraint_text(*self));
        s
    }
}

/// Constraints and variable declarations ready for the solver. Variable
/// declarations are (name, sort) pairs, in order of first declaration.
pub struct SmtConstraints {
    pub constraints: Vec<Constraint>,
    pub variable_types: Vec<(String, String)>,
}

/// The views of variable declarations.
pub open spec fn decl_views(s: Seq<(String, String)>) -> Seq<(Seq<char>, Seq<char>)> {
    s.map_values(|d: (String, String)| (d.0@, d.1@))
}

/// The index of the first declaration of `name`, or -1.
pub open spec fn decl_index(s: Seq<(Seq<char>, Seq<char>)>, name: Seq<char>, from: int) -> int
    decreases s.len() - from,
{
    if from < 0 || from >= s.len() {
        -1
    } else if s[from].0 == name {
        from
    } else {
        decl_index(s, name, from + 1)
    }
}

/// The declaration lines.
pub open spec fn decl_lines(s: Seq<(Seq<char>, Seq<char>)>) -> Seq<char>
    decreases s.len(),
{
    if s.len() == 0 {
        Seq::empty()
    } else {
        decl_lines(s.drop_last()) + "(declare-const "@ + s.last().0 + " "@ + s.last().1 + ")\n"@
    }
}

/// The assertion lines.
pub open spec fn assert_lines(s: Seq<Constraint>) -> Seq<char>
    decreases s.len(),
{
    if s.len() == 0 {
        Seq::empty()
    } else {
        assert_lines(s.drop_last()) + "(assert "@ + constraint_text(s.last()) + ")\n"@
    }
}

/// The complete SMT-LIB2 script.
pub open spec fn script(decls: Seq<(Seq<char>, Seq<char>)>, cs: Seq<Constraint>) -> Seq<char> {
    "(set-logic QF_LIA)\n\n; Variable declarations\n"@ + decl_lines(decls) + "\n; Constraints\n"@
        + assert_lines(cs) + "\n(check-sat)\n"@
}

/// Whether a constraint has the given variable, operator and value.
pub open spec fn constraint_is(c: Constraint, var: Seq<char>, op: Seq<char>, value: int) -> bool {
    c.variable@ == var && c.operator@ == op && c.value == value
}

impl SmtConstraints {
    /// No constraints and no declarations.
    pub fn new() -> (c: Self)
        ensures
            c.constraints@.len() == 0,
            c.variable_types@.len() == 0,
    {
        SmtConstraints { constraints: Vec::new(), variable_types: Vec::new() }
    }

    /// Adds a numeric constraint.
    pub fn add_constraint(&mut self, constraint: Constraint)
        ensures
            final(self).constraints@ == old(self).constraints@.push(constraint),
            final(self).variable_types == old(self).variable_types,
    {
        self.constraints.push(constraint);
    }

    /// Declares a variable with its sort; declaring it again replaces the sort.
    pub fn declare_variable(&mut self, name: &str, sort: &str)
        ensures
            final(self).constraints == old(self).constraints,
            ({
                let old_d = decl_views(old(self).variable_types@);
                let i = decl_index(old_d, name@, 0);
                if i == -1 {
                    decl_views(final(self).variable_types@) == old_d.push((name@, sort@))
                } else {
                    decl_views(final(self).variable_types@) == old_d.update(i, (name@, sort@))
                }
            }),
    {
        let ghost d = decl_views(self.variable_types@);
        let mut i: usize = 0;
        while i < self.variable_types.len()
            invariant
                i <= self.variable_types.len(),
                d == decl_views(self.variable_types@),
                self.variable_types == old(self).variable_types,
                self.constraints == old(self).constraints,
                decl_index(d, name@, 0) == decl_index(d, name@, i as int),
            decreases self.variable_types.len() - i,
        {
            if str_eq(self.variable_types[i].0.as_str(), name) {
                let ghost old_v = self.variable_types@;
                self.variable_types.set(i, (String::from_str(name), String::from_str(sort)));
                assert(decl_views(self.variable_types@) =~= d.update(i as int, (name@, sort@)));
                return;
            }
            i = i + 1;
        }
        self.variable_types.push((String::from_str(name), String::from_str(sort)));
        assert(decl_views(self.variable_types@) =~= d.push((name@, sort@)));
    }

    /// The SMT-LIB2 script: the logic, the declarations, one assertion per
    /// constraint, and `(check-sat)`.
    pub fn to_smt_lib2(&self) -> (s: String)
        requires
            forall|i: int| 0 <= i < self.constraints@.len() ==> known_operator(#[trigger] self.constraints@[i].operator@),
        ensures
            s@ == script(decl_views(self.variable_types@), self.constraints@),
    {
        let mut output = String::from_str("(set-logic QF_LIA)\n\n; Variable declarations\n");
        let ghost head = output@;
        let ghost d = decl_views(self.variable_types@);
        let mut i: usize = 0;
        while i < self.variable_types.len()
            invariant
                i <= self.variable_types.len(),
                d == decl_views(self.variable_types@),
                output@ == head + decl_lines(d.take(i as int)),
            decreases self.variable_types.len() - i,
        {
            assert(d.take(i + 1).drop_last() =~= d.take(i as int));
            output.append("(declare-const ");
            output.append(self.variable_types[i].0.as_str());
            output.append(" ");
            output.append(self.variable_types[i].1.as_str());
            output.append(")\n");
            assert(output@ =~= head + decl_lines(d.take(i + 1)));
            i = i + 1;
        }
        assert(d.take(self.variable_types.len() as int) =~= d);
        output.append("\n; Constraints\n");
        let ghost mid = output@;
        let mut k: usize = 0;
        while k < self.constraints.len()
            invariant
                k <= self.constraints.len(),
                forall|j: int| 0 <= j < self.constraints@.len() ==> known_operator(#[trigger] self.constraints@[j].operator@),
                output@ == mid + assert_lines(self.constraints@.take(k as int)),
            decreases self.constraints.len() - k,
        {
            assert(self.constraints@.take(k + 1).drop_last() =~= self.constraints@.take(k as int));
            let c = self.constraints[k].to_smt_lib2();
            output.append("(assert ");
            output.append(c.as_str());
            output.append(")\n");
            assert(output@ =~= mid + assert_lines(self.constraints@.take(k + 1)));
            k = k + 1;
        }
        assert(self.constraints@.take(self.constraints.len() as int) =~= self.constraints@);
        output.append("\n(check-sat)\n");
        assert(output@ =~= script(d, self.constraints@));
        output
    }

    /// The constraints of a stack region allocation: a positive size and a
    /// use between 0 and 4096.
    pub fn region_allocation_example() -> (c: Self)
        ensures
            decl_views(c.variable_types@) == seq![("size_stack_0"@, "Int"@), ("used_stack_0"@, "Int"@)],
            c.constraints@.len() == 3,
            constraint_is(c.constraints@[0], "size_stack_0"@, ">"@, 0),
            constraint_is(c.constraints@[1], "used_stack_0"@, ">="@, 0),
            constraint_is(c.constraints@[2], "used_stack_0"@, "<="@, 4096),
    {
        proof {
            reveal_strlit("size_stack_0");
            reveal_strlit("used_stack_0");
        }
        let mut constraints = SmtConstraints::new();
        assert(decl_index(decl_views(constraints.variable_types@), "size_stack_0"@, 0) == -1);
        constraints.declare_variable("size_stack_0", "Int");
        let ghost d1 = decl_views(constraints.variable_types@);
        assert(d1 =~= seq![("size_stack_0"@, "Int"@)]);
        assert(decl_index(d1, "used_stack_0"@, 1) == -1);
        assert("size_stack_0"@[0] != "used_stack_0"@[0]);
        assert(decl_index(d1, "used_stack_0"@, 0) == -1);
        constraints.declare_variable("used_stack_0", "Int");
        constraints.add_constraint(Constraint {
            variable: String::from_str("size_stack_0"),
            operator: String::from_str(">"),
            value: 0,
        });
        constraints.add_constraint(Constraint {
            variable: String::from_str("used_stack_0"),
            operator: String::from_str(">="),
            value: 0,
        });
        constraints.add_constraint(Constraint {
            variable: String::from_str("used_stack_0"),
            operator: String::from_str("<="),
            value: 4096,
        });
        constraints
    }
}

} // verus!

verus! {

/// What a constraint's operator means: whether `x op v` holds.
pub open spec fn operator_holds(op: Seq<char>, x: int, v: int) -> bool {
    if op == ">"@ {
        x > v
    } else if op == "<"@ {
        x < v
    } else if op == ">="@ {
        x >= v
    } else if op == "<="@ {
        x <= v
    } else if op == "=="@ {
        x == v
    } else {
        x != v
    }
}

/// The SMT-LIB2 meaning of a comparison term over `args` (a variable, a
/// space and a numeral standing for `v`), when the variable is `x`: the
/// atoms `<`, `<=`, `>`, `>=`, `=` and the negation of `=`. Any other text
/// is not such a term and holds of nothing.
pub open spec fn smt_term_holds(t: Seq<char>, args: Seq<char>, x: int, v: int) -> bool {
    if t == "(< "@ + args + ")"@ {
        x < v
    } else if t == "(<= "@ + args + ")"@ {
        x <= v
    } else if t == "(> "@ + args + ")"@ {
        x > v
    } else if t == "(>= "@ + args + ")"@ {
        x >= v
    } else if t == "(= "@ + args + ")"@ {
        x == v
    } else if t == "(not (= "@ + args + "))"@ {
        x != v
    } else {
        false
    }
}

/// Law: rendering keeps a constraint's meaning. For every constraint with a
/// known operator and every value `x` of its variable, the SMT-LIB2 term
/// holds exactly when the constraint does.
pub proof fn lemma_smt_term_means_constraint(c: Constraint, x: int)
    requires
        known_operator(c.operator@),
    ensures
        smt_term_holds(constraint_text(c), c.variable@ + " "@ + dec_int(c.value as int), x, c.value as int)
            == operator_holds(c.operator@, x, c.value as int),
{
    let args = c.variable@ + " "@ + dec_int(c.value as int);
    let lt = "(< "@ + args + ")"@;
    let le = "(<= "@ + args + ")"@;
    let gt = "(> "@ + args + ")"@;
    let ge = "(>= "@ + args + ")"@;
    let eq = "(= "@ + args + ")"@;
    let ne = "(not (= "@ + args + "))"@;
    reveal_strlit("(< ");
    reveal_strlit("(<= ");
    reveal_strlit("(> ");
    reveal_strlit("(>= ");
    reveal_strlit("(= ");
    reveal_strlit("(not (= ");
    assert(lt[1] == '<' && lt[2] == ' ');
    assert(le[1] == '<' && le[2] == '=');
    assert(gt[1] == '>' && gt[2] == ' ');
    assert(ge[1] == '>' && ge[2] == '=');
    assert(eq[1] == '=');
    assert(ne[1] == 'n');
    assert(lt != le && lt != gt && lt != ge && lt != eq && lt != ne);
    assert(le != gt && le != ge && le != eq && le != ne);
    assert(gt != ge && gt != eq && gt != ne);
    assert(ge != eq && ge != ne);
    assert(eq != ne);
}

} // verus!
