//! The renamer pass: rewrites a surface expression so that every bound name
//! is globally unique, or reports the first unbound identifier.

use vstd::prelude::*;
use vstd::string::*;
use crate::ast::Expr;
use crate::ast::ExprShape;
use crate::interpreter::eval_expr;
use crate::interpreter::lookup_value;
use crate::namegen::NameGenerator;
use crate::namegen::gen_name;
use crate::namegen::lemma_gen_name_injective;

verus! {

/// The error a pass can report: a reference with no enclosing binding.
#[derive(Debug, Eq, PartialEq, Clone)]
pub enum PassError {
    UnknownIdentifier(String),
}

/// A stack of name bindings, innermost last: each entry maps a source name to
/// its replacement.
pub type ScopeStack = Seq<(Seq<char>, Seq<char>)>;

/// Resolves a name against the stack, innermost binding first.
pub open spec fn lookup_in(stack: ScopeStack, name: Seq<char>) -> Option<Seq<char>>
    decreases stack.len(),
{
    if stack.len() == 0 {
        None
    } else if stack.last().0 == name {
        Some(stack.last().1)
    } else {
        lookup_in(stack.drop_last(), name)
    }
}

/// The number of `let` bindings in an expression: exactly the number of fresh
/// names renaming it consumes.
pub open spec fn count_lets(e: ExprShape) -> nat
    decreases e,
{
    match e {
        ExprShape::UnaryOperation { operand, .. } => count_lets(*operand),
        ExprShape::BinaryOperation { left_operand, right_operand, .. } => count_lets(
            *left_operand,
        ) + count_lets(*right_operand),
        ExprShape::Let { init_expr, body, .. } => 1 + count_lets(*init_expr) + count_lets(*body),
        _ => 0,
    }
}

/// What renaming produces: either the renamed expression or the first unbound
/// name, together with the counter after the walk. The initializer of a `let`
/// is resolved in the enclosing scope; its body in the scope extended with a
/// fresh name for the bound variable.
pub open spec fn rename_expr(e: ExprShape, stack: ScopeStack, ctr: nat) -> (Result<
    ExprShape,
    Seq<char>,
>, nat)
    decreases e,
{
    match e {
        ExprShape::Integer(v) => (Ok(ExprShape::Integer(v)), ctr),
        ExprShape::Read => (Ok(ExprShape::Read), ctr),
        ExprShape::Identifier(name) => match lookup_in(stack, name) {
            Some(unique) => (Ok(ExprShape::Identifier(unique)), ctr),
            None => (Err(name), ctr),
        },
        ExprShape::UnaryOperation { kind, operand } => {
            let (r, c1) = rename_expr(*operand, stack, ctr);
            match r {
                Ok(operand2) => (
                    Ok(ExprShape::UnaryOperation { kind, operand: Box::new(operand2) }),
                    c1,
                ),
                Err(n) => (Err(n), c1),
            }
        },
        ExprShape::BinaryOperation { kind, left_operand, right_operand } => {
            let (rl, c1) = rename_expr(*left_operand, stack, ctr);
            match rl {
                Ok(left2) => {
                    let (rr, c2) = rename_expr(*right_operand, stack, c1);
                    match rr {
                        Ok(right2) => (
                            Ok(
                                ExprShape::BinaryOperation {
                                    kind,
                                    left_operand: Box::new(left2),
                                    right_operand: Box::new(right2),
                                },
                            ),
                            c2,
                        ),
                        Err(n) => (Err(n), c2),
                    }
                },
                Err(n) => (Err(n), c1),
            }
        },
        ExprShape::Let { variable_name, init_expr, body } => {
            let (ri, c1) = rename_expr(*init_expr, stack, ctr);
            match ri {
                Ok(init2) => {
                    let fresh = gen_name("x"@, c1);
                    let (rb, c2) = rename_expr(*body, stack.push((variable_name, fresh)), c1 + 1);
                    match rb {
                        Ok(body2) => (
                            Ok(
                                ExprShape::Let {
                                    variable_name: fresh,
                                    init_expr: Box::new(init2),
                                    body: Box::new(body2),
                                },
                            ),
                            c2,
                        ),
                        Err(n) => (Err(n), c2),
                    }
                },
                Err(n) => (Err(n), c1),
            }
        },
    }
}

/// The counter never moves backwards, and advances by at most one step per
/// `let` binding in the expression.
pub proof fn lemma_rename_ctr(e: ExprShape, stack: ScopeStack, ctr: nat)
    ensures
        ctr <= rename_expr(e, stack, ctr).1 <= ctr + count_lets(e),
    decreases e,
{
    match e {
        ExprShape::UnaryOperation { kind, operand } => {
            lemma_rename_ctr(*operand, stack, ctr);
        },
        ExprShape::BinaryOperation { kind, left_operand, right_operand } => {
            lemma_rename_ctr(*left_operand, stack, ctr);
            let (rl, c1) = rename_expr(*left_operand, stack, ctr);
            if rl is Ok {
                lemma_rename_ctr(*right_operand, stack, c1);
            }
        },
        ExprShape::Let { variable_name, init_expr, body } => {
            lemma_rename_ctr(*init_expr, stack, ctr);
            let (ri, c1) = rename_expr(*init_expr, stack, ctr);
            match ri {
                Ok(init2) => {
                    let fresh = gen_name("x"@, c1);
                    lemma_rename_ctr(*body, stack.push((variable_name, fresh)), c1 + 1);
                },
                Err(_) => {},
            }
        },
        _ => {},
    }
}

/// All `let`-bound names of the expression, in evaluation-encounter order:
/// the initializer's names, then the binding itself, then the body's.
pub open spec fn binding_names(e: ExprShape) -> Seq<Seq<char>>
    decreases e,
{
    match e {
        ExprShape::UnaryOperation { operand, .. } => binding_names(*operand),
        ExprShape::BinaryOperation { left_operand, right_operand, .. } => binding_names(
            *left_operand,
        ) + binding_names(*right_operand),
        ExprShape::Let { variable_name, init_expr, body } => binding_names(*init_expr) + seq![
            variable_name,
        ] + binding_names(*body),
        _ => Seq::empty(),
    }
}

/// No name occurs twice in the sequence.
pub open spec fn no_duplicate_names(names: Seq<Seq<char>>) -> bool {
    forall|i: int, j: int| 0 <= i < j < names.len() ==> names[i] != names[j]
}

/// The name was generated from the renamer's prefix with a counter in
/// `[lo, hi)`.
pub open spec fn generated_in(name: Seq<char>, lo: nat, hi: nat) -> bool {
    exists|k: nat|
        #![trigger gen_name("x"@, k)]
        lo <= k < hi && name == gen_name("x"@, k)
}

/// Every name in the sequence was generated from the renamer's prefix with a
/// counter in `[lo, hi)`.
pub open spec fn names_generated_in(names: Seq<Seq<char>>, lo: nat, hi: nat) -> bool {
    forall|i: int| 0 <= i < names.len() ==> #[trigger] generated_in(names[i], lo, hi)
}

proof fn lemma_generated_widen(name: Seq<char>, lo: nat, hi: nat, lo2: nat, hi2: nat)
    requires
        generated_in(name, lo, hi),
        lo2 <= lo,
        hi <= hi2,
    ensures
        generated_in(name, lo2, hi2),
{
    let k = choose|k: nat|
        #![trigger gen_name("x"@, k)]
        lo <= k < hi && name == gen_name("x"@, k);
    assert(lo2 <= k < hi2 && name == gen_name("x"@, k));
}

proof fn lemma_names_concat(a: Seq<Seq<char>>, b: Seq<Seq<char>>, lo1: nat, mid: nat, hi2: nat)
    requires
        lo1 <= mid <= hi2,
        names_generated_in(a, lo1, mid),
        names_generated_in(b, mid, hi2),
        no_duplicate_names(a),
        no_duplicate_names(b),
    ensures
        names_generated_in(a + b, lo1, hi2),
        no_duplicate_names(a + b),
{
    let c = a + b;
    assert forall|i: int| 0 <= i < c.len() implies #[trigger] generated_in(c[i], lo1, hi2) by {
        if i < a.len() {
            assert(c[i] == a[i]);
            assert(generated_in(a[i], lo1, mid));
            lemma_generated_widen(a[i], lo1, mid, lo1, hi2);
        } else {
            assert(c[i] == b[i - a.len()]);
            assert(generated_in(b[i - a.len()], mid, hi2));
            lemma_generated_widen(b[i - a.len()], mid, hi2, lo1, hi2);
        }
    }
    assert forall|i: int, j: int| 0 <= i < j < c.len() implies c[i] != c[j] by {
        if i < a.len() && j >= a.len() {
            assert(generated_in(a[i], lo1, mid));
            assert(generated_in(b[j - a.len()], mid, hi2));
            let k1 = choose|k: nat|
                #![trigger gen_name("x"@, k)]
                lo1 <= k < mid && a[i] == gen_name("x"@, k);
            let k2 = choose|k: nat|
                #![trigger gen_name("x"@, k)]
                mid <= k < hi2 && b[j - a.len()] == gen_name("x"@, k);
            if c[i] == c[j] {
                assert(gen_name("x"@, k1) == gen_name("x"@, k2));
                lemma_gen_name_injective("x"@, k1, k2);
            }
        } else if i < a.len() {
            assert(c[i] == a[i] && c[j] == a[j]);
        } else {
            assert(c[i] == b[i - a.len()] && c[j] == b[j - a.len()]);
        }
    }
}

/// Renaming only ever emits binding names drawn from fresh counter values,
/// and never the same one twice.
proof fn lemma_rename_distinct(e: ExprShape, stack: ScopeStack, ctr: nat)
    ensures
        ({
            let (r, c2) = rename_expr(e, stack, ctr);
            r matches Ok(renamed) ==> names_generated_in(binding_names(renamed), ctr, c2)
                && no_duplicate_names(binding_names(renamed))
        }),
    decreases e,
{
    let (r, c2) = rename_expr(e, stack, ctr);
    match e {
        ExprShape::UnaryOperation { kind, operand } => {
            lemma_rename_distinct(*operand, stack, ctr);
        },
        ExprShape::BinaryOperation { kind, left_operand, right_operand } => {
            lemma_rename_distinct(*left_operand, stack, ctr);
            let (rl, c1) = rename_expr(*left_operand, stack, ctr);
            match rl {
                Ok(left2) => {
                    lemma_rename_distinct(*right_operand, stack, c1);
                    lemma_rename_ctr(*left_operand, stack, ctr);
                    lemma_rename_ctr(*right_operand, stack, c1);
                    let (rr, cr) = rename_expr(*right_operand, stack, c1);
                    match rr {
                        Ok(right2) => {
                            lemma_names_concat(
                                binding_names(left2),
                                binding_names(right2),
                                ctr,
                                c1,
                                cr,
                            );
                        },
                        Err(_) => {},
                    }
                },
                Err(_) => {},
            }
        },
        ExprShape::Let { variable_name, init_expr, body } => {
            lemma_rename_distinct(*init_expr, stack, ctr);
            let (ri, c1) = rename_expr(*init_expr, stack, ctr);
            match ri {
                Ok(init2) => {
                    let fresh = gen_name("x"@, c1);
                    let inner_stack = stack.push((variable_name, fresh));
                    lemma_rename_distinct(*body, inner_stack, c1 + 1);
                    lemma_rename_ctr(*init_expr, stack, ctr);
                    lemma_rename_ctr(*body, inner_stack, c1 + 1);
                    let (rb, cb) = rename_expr(*body, inner_stack, c1 + 1);
                    match rb {
                        Ok(body2) => {
                            assert(names_generated_in(seq![fresh], c1, c1 + 1)) by {
                                assert(seq![fresh][0] == gen_name("x"@, c1));
                                assert(generated_in(fresh, c1, c1 + 1));
                            }
                            lemma_names_concat(
                                binding_names(init2),
                                seq![fresh],
                                ctr,
                                c1,
                                c1 + 1,
                            );
                            lemma_names_concat(
                                binding_names(init2) + seq![fresh],
                                binding_names(body2),
                                ctr,
                                c1 + 1,
                                cb,
                            );
                        },
                        Err(_) => {},
                    }
                },
                Err(_) => {},
            }
        },
        _ => {},
    }
}

/// LAW: for every input expression, a successful renaming contains no two
/// distinct bindings with the same generated name.
pub proof fn lemma_uniquify_distinct_bindings(e: ExprShape, renamed: ExprShape)
    requires
        rename_expr(e, Seq::empty(), 0).0 == Ok::<ExprShape, Seq<char>>(renamed),
    ensures
        no_duplicate_names(binding_names(renamed)),
{
    lemma_rename_distinct(e, Seq::empty(), 0);
}

/// Every identifier occurrence refers to a name in `bound` or to an
/// enclosing `let` binding of that name: the initializer of a `let` sees only
/// the outer names, its body also the bound one.
pub open spec fn well_scoped(e: ExprShape, bound: Set<Seq<char>>) -> bool
    decreases e,
{
    match e {
        ExprShape::Identifier(name) => bound.contains(name),
        ExprShape::UnaryOperation { operand, .. } => well_scoped(*operand, bound),
        ExprShape::BinaryOperation { left_operand, right_operand, .. } => well_scoped(
            *left_operand,
            bound,
        ) && well_scoped(*right_operand, bound),
        ExprShape::Let { variable_name, init_expr, body } => well_scoped(*init_expr, bound)
            && well_scoped(*body, bound.insert(variable_name)),
        _ => true,
    }
}

/// The source names the stack can resolve.
pub open spec fn stack_names(stack: ScopeStack) -> Set<Seq<char>> {
    Set::new(|n: Seq<char>| lookup_in(stack, n) is Some)
}

proof fn lemma_rename_ok_iff_well_scoped(e: ExprShape, stack: ScopeStack, ctr: nat)
    ensures
        rename_expr(e, stack, ctr).0 is Ok <==> well_scoped(e, stack_names(stack)),
    decreases e,
{
    match e {
        ExprShape::UnaryOperation { kind, operand } => {
            lemma_rename_ok_iff_well_scoped(*operand, stack, ctr);
        },
        ExprShape::BinaryOperation { kind, left_operand, right_operand } => {
            lemma_rename_ok_iff_well_scoped(*left_operand, stack, ctr);
            let (rl, c1) = rename_expr(*left_operand, stack, ctr);
            if rl is Ok {
                lemma_rename_ok_iff_well_scoped(*right_operand, stack, c1);
            }
        },
        ExprShape::Let { variable_name, init_expr, body } => {
            lemma_rename_ok_iff_well_scoped(*init_expr, stack, ctr);
            let (ri, c1) = rename_expr(*init_expr, stack, ctr);
            if ri is Ok {
                let fresh = gen_name("x"@, c1);
                let inner_stack = stack.push((variable_name, fresh));
                assert(stack_names(inner_stack) =~= stack_names(stack).insert(variable_name)) by {
                    assert forall|n: Seq<char>|
                        stack_names(inner_stack).contains(n) == stack_names(stack).insert(
                            variable_name,
                        ).contains(n) by {
                        assert(inner_stack.last() == (variable_name, fresh));
                        assert(inner_stack.drop_last() =~= stack);
                    }
                }
                lemma_rename_ok_iff_well_scoped(*body, inner_stack, c1 + 1);
            }
        },
        _ => {},
    }
}

/// LAW: renaming succeeds exactly on the programs whose every identifier
/// reference has an enclosing binding; on any other it reports an unbound
/// name.
pub proof fn lemma_uniquify_ok_iff_well_scoped(e: ExprShape)
    ensures
        rename_expr(e, Seq::empty(), 0).0 is Ok <==> well_scoped(e, Set::empty()),
{
    assert(stack_names(Seq::empty()) =~= Set::<Seq<char>>::empty());
    lemma_rename_ok_iff_well_scoped(e, Seq::empty(), 0);
}

/// LAW: a name bound more than once resolves to the innermost enclosing
/// binding: the entry nearest the top of the stack wins.
pub proof fn lemma_lookup_innermost(stack: ScopeStack, name: Seq<char>, j: int)
    requires
        0 <= j < stack.len(),
        stack[j].0 == name,
        forall|l: int| j < l < stack.len() ==> stack[l].0 != name,
    ensures
        lookup_in(stack, name) == Some(stack[j].1),
    decreases stack.len(),
{
    if j == stack.len() - 1 {
    } else {
        assert(stack.last().0 != name);
        assert(stack.drop_last()[j] == stack[j]);
        lemma_lookup_innermost(stack.drop_last(), name, j);
    }
}

/// The renaming stack and two value environments walk in step: entry `i`
/// binds one value, to the source name on the source side and to its fresh
/// replacement on the renamed side.
pub open spec fn coupled_envs(
    rs: ScopeStack,
    vs: Seq<(Seq<char>, i64)>,
    vf: Seq<(Seq<char>, i64)>,
) -> bool {
    vs.len() == rs.len() && vf.len() == rs.len() && forall|i: int|
        0 <= i < rs.len() ==> (#[trigger] rs[i]).0 == vs[i].0 && rs[i].1 == vf[i].0 && vs[i].1
            == vf[i].1
}

/// Every replacement on the stack was generated with a counter below `ctr`,
/// and no two entries share a replacement.
pub open spec fn replacements_fresh(rs: ScopeStack, ctr: nat) -> bool {
    (forall|i: int| 0 <= i < rs.len() ==> generated_in((#[trigger] rs[i]).1, 0, ctr)) && (forall|
        i: int,
        j: int,
    |
        0 <= i < j < rs.len() ==> rs[i].1 != rs[j].1)
}

proof fn lemma_fresh_widen(rs: ScopeStack, ctr: nat, ctr2: nat)
    requires
        replacements_fresh(rs, ctr),
        ctr <= ctr2,
    ensures
        replacements_fresh(rs, ctr2),
{
    assert forall|i: int| 0 <= i < rs.len() implies generated_in((#[trigger] rs[i]).1, 0, ctr2) by {
        lemma_generated_widen(rs[i].1, 0, ctr, 0, ctr2);
    }
}

/// A successful lookup names some stack entry.
proof fn lemma_lookup_in_finds(rs: ScopeStack, name: Seq<char>)
    requires
        lookup_in(rs, name) is Some,
    ensures
        exists|i: int|
            0 <= i < rs.len() && (#[trigger] rs[i]).0 == name && rs[i].1 == lookup_in(
                rs,
                name,
            ).unwrap(),
    decreases rs.len(),
{
    if rs.last().0 == name {
        assert(rs[rs.len() - 1].0 == name && rs[rs.len() - 1].1 == lookup_in(rs, name).unwrap());
    } else {
        lemma_lookup_in_finds(rs.drop_last(), name);
        let i = choose|i: int|
            0 <= i < rs.drop_last().len() && (#[trigger] rs.drop_last()[i]).0 == name
                && rs.drop_last()[i].1 == lookup_in(rs.drop_last(), name).unwrap();
        assert(rs[i].0 == name && rs[i].1 == lookup_in(rs, name).unwrap());
    }
}

/// Coupled environments resolve a source name and its replacement to the
/// same value: the source side picks the innermost entry for the name, and
/// the replacement — unique on the stack — picks the very same entry on the
/// renamed side.
proof fn lemma_lookup_coupled(
    rs: ScopeStack,
    vs: Seq<(Seq<char>, i64)>,
    vf: Seq<(Seq<char>, i64)>,
    name: Seq<char>,
    ctr: nat,
)
    requires
        coupled_envs(rs, vs, vf),
        replacements_fresh(rs, ctr),
        lookup_in(rs, name) is Some,
    ensures
        lookup_value(vs, name) is Some,
        lookup_value(vf, lookup_in(rs, name).unwrap()) == lookup_value(vs, name),
    decreases rs.len(),
{
    let fresh = lookup_in(rs, name).unwrap();
    let last = rs.len() - 1;
    assert(rs[last].0 == vs[last].0 && rs[last].1 == vf[last].0 && vs[last].1 == vf[last].1);
    if rs.last().0 == name {
        assert(vs.last().0 == name);
        assert(vf.last().0 == fresh);
        assert(lookup_value(vs, name) == Some(vs.last().1));
        assert(lookup_value(vf, fresh) == Some(vf.last().1));
    } else {
        assert(vs.last().0 != name);
        assert(lookup_in(rs.drop_last(), name) == Some(fresh));
        lemma_lookup_in_finds(rs.drop_last(), name);
        let i = choose|i: int|
            0 <= i < rs.drop_last().len() && (#[trigger] rs.drop_last()[i]).0 == name
                && rs.drop_last()[i].1 == fresh;
        assert(rs[i].1 == fresh);
        assert(rs[last].1 != rs[i].1);
        assert(vf.last().0 != fresh);
        assert(coupled_envs(rs.drop_last(), vs.drop_last(), vf.drop_last())) by {
            assert forall|k: int|
                0 <= k < rs.drop_last().len() implies (#[trigger] rs.drop_last()[k]).0
                == vs.drop_last()[k].0 && rs.drop_last()[k].1 == vf.drop_last()[k].0
                && vs.drop_last()[k].1 == vf.drop_last()[k].1 by {
                assert(rs[k].0 == vs[k].0 && rs[k].1 == vf[k].0 && vs[k].1 == vf[k].1);
            }
        }
        assert(replacements_fresh(rs.drop_last(), ctr)) by {
            assert forall|k: int|
                0 <= k < rs.drop_last().len() implies generated_in(
                (#[trigger] rs.drop_last()[k]).1,
                0,
                ctr,
            ) by {
                assert(generated_in(rs[k].1, 0, ctr));
            }
            assert forall|k: int, l: int|
                0 <= k < l < rs.drop_last().len() implies rs.drop_last()[k].1
                != rs.drop_last()[l].1 by {
                assert(rs[k].1 != rs[l].1);
            }
        }
        lemma_lookup_coupled(rs.drop_last(), vs.drop_last(), vf.drop_last(), name, ctr);
    }
}

proof fn lemma_rename_preserves_eval_rec(
    e: ExprShape,
    rs: ScopeStack,
    vs: Seq<(Seq<char>, i64)>,
    vf: Seq<(Seq<char>, i64)>,
    ctr: nat,
    inputs: Seq<i64>,
    pos: nat,
)
    requires
        coupled_envs(rs, vs, vf),
        replacements_fresh(rs, ctr),
        rename_expr(e, rs, ctr).0 is Ok,
    ensures
        ({
            let (r, c1) = rename_expr(e, rs, ctr);
            r matches Ok(renamed) ==> eval_expr(renamed, vf, inputs, pos) == eval_expr(
                e,
                vs,
                inputs,
                pos,
            )
        }),
    decreases e,
{
    match e {
        ExprShape::Identifier(name) => {
            lemma_lookup_coupled(rs, vs, vf, name, ctr);
        },
        ExprShape::UnaryOperation { kind, operand } => {
            lemma_rename_preserves_eval_rec(*operand, rs, vs, vf, ctr, inputs, pos);
        },
        ExprShape::BinaryOperation { kind, left_operand, right_operand } => {
            lemma_rename_preserves_eval_rec(*left_operand, rs, vs, vf, ctr, inputs, pos);
            let (rl, c1) = rename_expr(*left_operand, rs, ctr);
            let (vl, p1) = eval_expr(*left_operand, vs, inputs, pos);
            lemma_rename_ctr(*left_operand, rs, ctr);
            lemma_fresh_widen(rs, ctr, c1);
            if vl is Ok {
                lemma_rename_preserves_eval_rec(*right_operand, rs, vs, vf, c1, inputs, p1);
            }
        },
        ExprShape::Let { variable_name, init_expr, body } => {
            lemma_rename_preserves_eval_rec(*init_expr, rs, vs, vf, ctr, inputs, pos);
            let (ri, c1) = rename_expr(*init_expr, rs, ctr);
            let (vi, p1) = eval_expr(*init_expr, vs, inputs, pos);
            lemma_rename_ctr(*init_expr, rs, ctr);
            match (ri, vi) {
                (Ok(init2), Ok(v)) => {
                    let fresh = gen_name("x"@, c1);
                    let rs2 = rs.push((variable_name, fresh));
                    let vs2 = vs.push((variable_name, v));
                    let vf2 = vf.push((fresh, v));
                    assert(coupled_envs(rs2, vs2, vf2)) by {
                        assert forall|i: int|
                            0 <= i < rs2.len() implies (#[trigger] rs2[i]).0 == vs2[i].0
                            && rs2[i].1 == vf2[i].0 && vs2[i].1 == vf2[i].1 by {
                            if i < rs.len() {
                                assert(rs[i].0 == vs[i].0 && rs[i].1 == vf[i].0 && vs[i].1
                                    == vf[i].1);
                            }
                        }
                    }
                    assert(replacements_fresh(rs2, c1 + 1)) by {
                        lemma_fresh_widen(rs, ctr, c1 + 1);
                        assert(generated_in(fresh, 0, c1 + 1)) by {
                            assert(0 <= c1 < c1 + 1 && fresh == gen_name("x"@, c1));
                        }
                        assert forall|i: int, j: int|
                            0 <= i < j < rs2.len() implies rs2[i].1 != rs2[j].1 by {
                            if j == rs.len() {
                                assert(generated_in(rs[i].1, 0, ctr));
                                let k = choose|k: nat|
                                    #![trigger gen_name("x"@, k)]
                                    0 <= k < ctr && rs[i].1 == gen_name("x"@, k);
                                if rs2[i].1 == rs2[j].1 {
                                    lemma_gen_name_injective("x"@, k, c1);
                                }
                            } else {
                                assert(rs[i].1 != rs[j].1);
                            }
                        }
                    }
                    lemma_rename_preserves_eval_rec(*body, rs2, vs2, vf2, c1 + 1, inputs, p1);
                },
                _ => {},
            }
        },
        _ => {},
    }
}

/// LAW: renaming preserves meaning: a successfully renamed program evaluates
/// exactly as the original — same value or error, same inputs consumed — on
/// every input sequence.
pub proof fn lemma_uniquify_preserves_eval(e: ExprShape, renamed: ExprShape, inputs: Seq<i64>)
    requires
        rename_expr(e, Seq::empty(), 0).0 == Ok::<ExprShape, Seq<char>>(renamed),
    ensures
        eval_expr(renamed, Seq::empty(), inputs, 0) == eval_expr(e, Seq::empty(), inputs, 0),
{
    lemma_rename_preserves_eval_rec(e, Seq::empty(), Seq::empty(), Seq::empty(), 0, inputs, 0);
}

struct UniquifyImpl {
    name_gen: NameGenerator,
    symbol_table: Vec<(String, String)>,
}

impl UniquifyImpl {
    fn new() -> (pass: Self)
        ensures
            pass.name_gen.prefix@ == "x"@,
            pass.name_gen.index == 0,
            pass.symbol_table@.len() == 0,
    {
        Self { name_gen: NameGenerator::new(String::from_str("x")), symbol_table: Vec::new() }
    }

    fn lookup(&self, name: &String) -> (found: Option<String>)
        ensures
            match found {
                Some(unique) => lookup_in(self.symbol_table.deep_view(), name@) == Some(unique@),
                None => lookup_in(self.symbol_table.deep_view(), name@) is None,
            },
    {
        let ghost full = self.symbol_table.deep_view();
        let mut i: usize = self.symbol_table.len();
        proof {
            assert(full.take(i as int) =~= full);
        }
        while i > 0
            invariant
                i <= self.symbol_table.len(),
                full == self.symbol_table.deep_view(),
                lookup_in(full, name@) == lookup_in(full.take(i as int), name@),
            decreases i,
        {
            let entry = &self.symbol_table[i - 1];
            proof {
                assert(full[i - 1] == (entry.0@, entry.1@));
                assert(full.take(i as int).last() == full[i - 1]);
                assert(full.take(i as int).drop_last() =~= full.take(i - 1));
            }
            if entry.0.eq(name) {
                proof {
                    assert(lookup_in(full.take(i as int), name@) == Some(entry.1@));
                }
                return Some(entry.1.clone());
            }
            i = i - 1;
        }
        proof {
            assert(full.take(0) =~= Seq::<(Seq<char>, Seq<char>)>::empty());
        }
        None
    }

    fn run_on_expr(&mut self, expr: Expr) -> (result: Result<Expr, PassError>)
        requires
            old(self).name_gen.prefix@ == "x"@,
            old(self).name_gen.index + count_lets(expr@) <= u64::MAX,
        ensures
            final(self).name_gen.prefix@ == "x"@,
            final(self).symbol_table.deep_view() == old(self).symbol_table.deep_view(),
            ({
                let (r, c2) = rename_expr(
                    expr@,
                    old(self).symbol_table.deep_view(),
                    old(self).name_gen.index as nat,
                );
                final(self).name_gen.index == c2 && match result {
                    Ok(renamed) => r == Ok::<ExprShape, Seq<char>>(renamed@),
                    Err(PassError::UnknownIdentifier(n)) => r == Err::<ExprShape, Seq<char>>(n@),
                }
            }),
        decreases expr,
    {
        proof {
            lemma_rename_ctr(
                expr@,
                old(self).symbol_table.deep_view(),
                old(self).name_gen.index as nat,
            );
        }
        match expr {
            Expr::Integer(v) => Ok(Expr::Integer(v)),
            Expr::Read => Ok(Expr::Read),
            Expr::Identifier(name) => match self.lookup(&name) {
                Some(unique) => Ok(Expr::Identifier(unique)),
                None => Err(PassError::UnknownIdentifier(name)),
            },
            Expr::UnaryOperation { kind, operand } => {
                match self.run_on_expr(*operand) {
                    Ok(operand2) => Ok(
                        Expr::UnaryOperation { kind, operand: Box::new(operand2) },
                    ),
                    Err(e) => Err(e),
                }
            },
            Expr::BinaryOperation { kind, left_operand, right_operand } => {
                proof {
                    lemma_rename_ctr(
                        (*left_operand)@,
                        old(self).symbol_table.deep_view(),
                        old(self).name_gen.index as nat,
                    );
                }
                match self.run_on_expr(*left_operand) {
                    Ok(left2) => {
                        match self.run_on_expr(*right_operand) {
                            Ok(right2) => Ok(
                                Expr::BinaryOperation {
                                    kind,
                                    left_operand: Box::new(left2),
                                    right_operand: Box::new(right2),
                                },
                            ),
                            Err(e) => Err(e),
                        }
                    },
                    Err(e) => Err(e),
                }
            },
            Expr::Let { variable_name, init_expr, body } => {
                proof {
                    lemma_rename_ctr(
                        (*init_expr)@,
                        old(self).symbol_table.deep_view(),
                        old(self).name_gen.index as nat,
                    );
                }
                match self.run_on_expr(*init_expr) {
                    Ok(init2) => {
                        let fresh = self.name_gen.generate();
                        let ghost stack_before = self.symbol_table.deep_view();
                        self.symbol_table.push((variable_name, fresh.clone()));
                        proof {
                            assert(self.symbol_table.deep_view() =~= stack_before.push(
                                (variable_name@, fresh@),
                            ));
                        }
                        let renamed_body = self.run_on_expr(*body);
                        let ghost table_after_body = self.symbol_table@;
                        let ghost dv_after = self.symbol_table.deep_view();
                        self.symbol_table.pop();
                        proof {
                            assert(self.symbol_table@ =~= table_after_body.drop_last());
                            assert forall|k: int|
                                0 <= k < self.symbol_table@.len() implies #[trigger] self
                                .symbol_table
                                .deep_view()[k] == stack_before[k] by {
                                assert(self.symbol_table@[k] == table_after_body[k]);
                                let table_now = self.symbol_table@;
                                assert(self.symbol_table.deep_view()[k]
                                    == table_now[k].deep_view());
                                assert(dv_after[k] == table_after_body[k].deep_view());
                            }
                            assert(self.symbol_table.deep_view() =~= stack_before);
                        }
                        match renamed_body {
                            Ok(body2) => Ok(
                                Expr::Let {
                                    variable_name: fresh,
                                    init_expr: Box::new(init2),
                                    body: Box::new(body2),
                                },
                            ),
                            Err(e) => Err(e),
                        }
                    },
                    Err(e) => Err(e),
                }
            },
        }
    }
}

/// The renamer: returns an equivalent expression whose bound names are all
/// fresh and globally unique, or reports the first unbound identifier.
pub fn uniquify_expr(expr: Expr) -> (result: Result<Expr, PassError>)
    requires
        count_lets(expr@) <= u64::MAX,
    ensures
        match result {
            Ok(renamed) => rename_expr(expr@, Seq::empty(), 0).0 == Ok::<ExprShape, Seq<char>>(
                renamed@,
            ),
            Err(PassError::UnknownIdentifier(n)) => rename_expr(expr@, Seq::empty(), 0).0
                == Err::<ExprShape, Seq<char>>(n@),
        },
{
    let mut pass = UniquifyImpl::new();
    proof {
        assert(pass.symbol_table.deep_view() =~= Seq::<(Seq<char>, Seq<char>)>::empty());
    }
    pass.run_on_expr(expr)
}

} // verus!
