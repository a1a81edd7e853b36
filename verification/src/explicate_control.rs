//! The explicator pass: lowers a flattened expression into the three-address
//! IR. Every `let` becomes an assignment appended to the straight-line body
//! (with its name declared as a local); the expression in tail position
//! becomes the single final return statement.

use vstd::prelude::*;
use vstd::string::*;
use crate::ast::Expr as LExpr;
use crate::ast::ExprShape as LShape;
use crate::cvar::Atom;
use crate::cvar::AtomShape;
use crate::cvar::Expr as CExpr;
use crate::cvar::ExprShape as CShape;
use crate::cvar::Program as CProgram;
use crate::cvar::ProgramShape;
use crate::cvar::StmtShape;
use crate::uniquify::binding_names;
use crate::uniquify::no_duplicate_names;
use crate::uniquify::well_scoped;

verus! {

/// An operand the explicator can translate directly: a literal or a variable.
pub open spec fn explicable_atom(e: LShape) -> bool {
    e matches LShape::Integer(_) || e matches LShape::Identifier(_)
}

/// Every operator operand is a literal or a variable. This is the explicator's
/// precondition: feeding it anything else would be an upstream pass bug, not a
/// user error.
pub open spec fn explicable(e: LShape) -> bool
    decreases e,
{
    match e {
        LShape::UnaryOperation { operand, .. } => explicable_atom(*operand),
        LShape::BinaryOperation { left_operand, right_operand, .. } => explicable_atom(
            *left_operand,
        ) && explicable_atom(*right_operand),
        LShape::Let { init_expr, body, .. } => explicable(*init_expr) && explicable(*body),
        _ => true,
    }
}

/// The atom a literal or variable operand maps to.
pub open spec fn atom_shape(e: LShape) -> AtomShape
    recommends
        explicable_atom(e),
{
    match e {
        LShape::Integer(v) => AtomShape::Integer(v as i64),
        LShape::Identifier(name) => AtomShape::Variable(name),
        _ => arbitrary(),
    }
}

/// An empty three-address program.
pub open spec fn empty_program() -> ProgramShape {
    ProgramShape { locals: Seq::empty(), body: Seq::empty() }
}

/// Explicates an expression in assignment position: nested `let`s append
/// their assignments to the program, and the value of the expression is the
/// returned right-hand side.
pub open spec fn assign_shape(e: LShape, prog: ProgramShape) -> (CShape, ProgramShape)
    decreases e,
{
    match e {
        LShape::Integer(v) => (CShape::Atom(AtomShape::Integer(v as i64)), prog),
        LShape::Read => (CShape::Read, prog),
        LShape::Identifier(name) => (CShape::Atom(AtomShape::Variable(name)), prog),
        LShape::UnaryOperation { kind, operand } => (
            CShape::UnaryOperation { kind, operand: atom_shape(*operand) },
            prog,
        ),
        LShape::BinaryOperation { kind, left_operand, right_operand } => (
            CShape::BinaryOperation {
                kind,
                left_operand: atom_shape(*left_operand),
                right_operand: atom_shape(*right_operand),
            },
            prog,
        ),
        LShape::Let { variable_name, init_expr, body } => {
            let (rhs, p1) = assign_shape(*init_expr, prog);
            let p2 = ProgramShape {
                locals: p1.locals.push(variable_name),
                body: p1.body.push(StmtShape::Assign { lhs: variable_name, rhs }),
            };
            assign_shape(*body, p2)
        },
    }
}

/// Explicates an expression in tail position: its value becomes the single
/// return statement ending the program.
pub open spec fn tail_shape(e: LShape, prog: ProgramShape) -> ProgramShape
    decreases e,
{
    match e {
        LShape::Let { variable_name, init_expr, body } => {
            let (rhs, p1) = assign_shape(*init_expr, prog);
            let p2 = ProgramShape {
                locals: p1.locals.push(variable_name),
                body: p1.body.push(StmtShape::Assign { lhs: variable_name, rhs }),
            };
            tail_shape(*body, p2)
        },
        _ => {
            let (rhs, p1) = assign_shape(e, prog);
            ProgramShape { locals: p1.locals, body: p1.body.push(StmtShape::Return(rhs)) }
        },
    }
}

/// What assignment-position explication adds to a program: the expression's
/// binding names as locals, and assignment statements only.
proof fn lemma_assign_shape_adds(e: LShape, prog: ProgramShape)
    requires
        explicable(e),
    ensures
        ({
            let (rhs, p1) = assign_shape(e, prog);
            p1.locals == prog.locals + binding_names(e) && p1.body.len() >= prog.body.len()
                && (forall|i: int|
                0 <= i < prog.body.len() ==> p1.body[i] == prog.body[i]) && (forall|i: int|
                prog.body.len() <= i < p1.body.len() ==> p1.body[i] is Assign)
        }),
    decreases e,
{
    let (rhs, p1) = assign_shape(e, prog);
    match e {
        LShape::Let { variable_name, init_expr, body } => {
            lemma_assign_shape_adds(*init_expr, prog);
            let (rhs_i, pi) = assign_shape(*init_expr, prog);
            let p2 = ProgramShape {
                locals: pi.locals.push(variable_name),
                body: pi.body.push(StmtShape::Assign { lhs: variable_name, rhs: rhs_i }),
            };
            lemma_assign_shape_adds(*body, p2);
            assert(p1.locals == p2.locals + binding_names(*body));
            assert(p2.locals =~= prog.locals + (binding_names(*init_expr) + seq![variable_name]));
            assert(binding_names(e) == binding_names(*init_expr) + seq![variable_name]
                + binding_names(*body));
            assert(p1.locals =~= prog.locals + binding_names(e));
        },
        _ => {
            assert(binding_names(e) =~= Seq::<Seq<char>>::empty()) by {
                match e {
                    LShape::UnaryOperation { operand, .. } => {
                        assert(binding_names(e) == binding_names(*operand));
                    },
                    LShape::BinaryOperation { left_operand, right_operand, .. } => {
                        assert(binding_names(*left_operand) =~= Seq::<Seq<char>>::empty());
                        assert(binding_names(*right_operand) =~= Seq::<Seq<char>>::empty());
                    },
                    _ => {},
                }
            }
            assert(p1.locals =~= prog.locals + binding_names(e));
        },
    }
}

/// What tail-position explication builds: the prior body, then assignments
/// only, then exactly one return as the final statement; the locals are the
/// prior locals followed by the expression's binding names.
proof fn lemma_tail_shape_adds(e: LShape, prog: ProgramShape)
    requires
        explicable(e),
    ensures
        ({
            let p = tail_shape(e, prog);
            p.locals == prog.locals + binding_names(e) && p.body.len() > prog.body.len() && (
            forall|i: int| 0 <= i < prog.body.len() ==> p.body[i] == prog.body[i]) && (forall|
                i: int,
            |
                prog.body.len() <= i < p.body.len() - 1 ==> p.body[i] is Assign)
                && p.body.last() is Return
        }),
    decreases e,
{
    let p = tail_shape(e, prog);
    match e {
        LShape::Let { variable_name, init_expr, body } => {
            lemma_assign_shape_adds(*init_expr, prog);
            let (rhs_i, pi) = assign_shape(*init_expr, prog);
            let p2 = ProgramShape {
                locals: pi.locals.push(variable_name),
                body: pi.body.push(StmtShape::Assign { lhs: variable_name, rhs: rhs_i }),
            };
            lemma_tail_shape_adds(*body, p2);
            assert(p.locals =~= prog.locals + binding_names(e));
        },
        _ => {
            lemma_assign_shape_adds(e, prog);
            assert(p.locals =~= prog.locals + binding_names(e));
        },
    }
}

/// LAW: explication always produces exactly one return statement, as the last
/// statement of the body, and declares exactly the expression's `let`-bound
/// names, in first-declaration order.
pub proof fn lemma_explicate_structure(e: LShape)
    requires
        explicable(e),
    ensures
        ({
            let p = tail_shape(e, empty_program());
            p.body.len() >= 1 && p.body.last() is Return && (forall|i: int|
                0 <= i < p.body.len() - 1 ==> p.body[i] is Assign) && p.locals == binding_names(e)
        }),
{
    lemma_tail_shape_adds(e, empty_program());
    let p = tail_shape(e, empty_program());
    assert(p.locals =~= binding_names(e));
}

/// LAW: when the input's binding names are distinct — which the renamer
/// guarantees — the declared locals contain no duplicates.
pub proof fn lemma_explicate_locals_distinct(e: LShape)
    requires
        explicable(e),
        no_duplicate_names(binding_names(e)),
    ensures
        no_duplicate_names(tail_shape(e, empty_program()).locals),
{
    lemma_explicate_structure(e);
}

/// The atom reads only declared names.
pub open spec fn atom_reads_ok(a: AtomShape, declared: Set<Seq<char>>) -> bool {
    a matches AtomShape::Variable(name) ==> declared.contains(name)
}

/// Every variable the right-hand side reads is declared.
pub open spec fn expr_reads_ok(e: CShape, declared: Set<Seq<char>>) -> bool {
    match e {
        CShape::Atom(a) => atom_reads_ok(a, declared),
        CShape::Read => true,
        CShape::UnaryOperation { operand, .. } => atom_reads_ok(operand, declared),
        CShape::BinaryOperation { left_operand, right_operand, .. } => atom_reads_ok(
            left_operand,
            declared,
        ) && atom_reads_ok(right_operand, declared),
    }
}

pub open spec fn stmt_reads_ok(s: StmtShape, declared: Set<Seq<char>>) -> bool {
    match s {
        StmtShape::Assign { rhs, .. } => expr_reads_ok(rhs, declared),
        StmtShape::Return(e) => expr_reads_ok(e, declared),
    }
}

/// The names declared before statement `k`: statement `k` of the body
/// assigns the `k`-th local, so these are the first `k` locals.
pub open spec fn declared_before(locals: Seq<Seq<char>>, k: int) -> Set<Seq<char>> {
    if k <= locals.len() {
        locals.take(k).to_set()
    } else {
        locals.to_set()
    }
}

/// Every statement reads only variables that earlier statements declared.
pub open spec fn reads_follow_declarations(p: ProgramShape) -> bool {
    forall|k: int|
        0 <= k < p.body.len() ==> stmt_reads_ok(#[trigger] p.body[k], declared_before(p.locals, k))
}

proof fn lemma_push_to_set(l: Seq<Seq<char>>, n: Seq<char>)
    ensures
        l.push(n).to_set() =~= l.to_set().insert(n),
{
    assert forall|x: Seq<char>|
        l.push(n).to_set().contains(x) == l.to_set().insert(n).contains(x) by {
        if l.push(n).contains(x) {
            let i = choose|i: int| 0 <= i < l.push(n).len() && l.push(n)[i] == x;
            if i < l.len() {
                assert(l[i] == x);
                assert(l.contains(x));
            } else {
                assert(x == n);
            }
        }
        if l.contains(x) {
            let i = choose|i: int| 0 <= i < l.len() && l[i] == x;
            assert(l.push(n)[i] == x);
            assert(l.push(n).contains(x));
        }
        if x == n {
            assert(l.push(n)[l.len() as int] == n);
            assert(l.push(n).contains(x));
        }
    }
}

proof fn lemma_prefix_subset(a: Seq<Seq<char>>, b: Seq<Seq<char>>)
    ensures
        a.to_set().subset_of((a + b).to_set()),
{
    assert forall|x: Seq<char>|
        a.to_set().contains(x) implies (a + b).to_set().contains(x) by {
        let i = choose|i: int| 0 <= i < a.len() && a[i] == x;
        assert((a + b)[i] == x);
        assert((a + b).contains(x));
    }
}

/// A well-scoped expression stays well scoped under any wider set of bound
/// names.
proof fn lemma_well_scoped_monotone(e: LShape, s: Set<Seq<char>>, t: Set<Seq<char>>)
    requires
        well_scoped(e, s),
        s.subset_of(t),
    ensures
        well_scoped(e, t),
    decreases e,
{
    match e {
        LShape::Identifier(name) => {
            assert(s.contains(name));
        },
        LShape::UnaryOperation { operand, .. } => {
            lemma_well_scoped_monotone(*operand, s, t);
        },
        LShape::BinaryOperation { left_operand, right_operand, .. } => {
            lemma_well_scoped_monotone(*left_operand, s, t);
            lemma_well_scoped_monotone(*right_operand, s, t);
        },
        LShape::Let { variable_name, init_expr, body } => {
            lemma_well_scoped_monotone(*init_expr, s, t);
            assert forall|x: Seq<char>|
                s.insert(variable_name).contains(x) implies t.insert(variable_name).contains(
                x,
            ) by {
                if x != variable_name {
                    assert(s.contains(x));
                }
            }
            lemma_well_scoped_monotone(*body, s.insert(variable_name), t.insert(variable_name));
        },
        _ => {},
    }
}

/// Assignment-position explication preserves the declared-before-read
/// discipline and yields a right-hand side over declared names only.
proof fn lemma_assign_reads(e: LShape, prog: ProgramShape)
    requires
        explicable(e),
        well_scoped(e, prog.locals.to_set()),
        prog.body.len() == prog.locals.len(),
        reads_follow_declarations(prog),
    ensures
        ({
            let (rhs, p1) = assign_shape(e, prog);
            expr_reads_ok(rhs, p1.locals.to_set()) && p1.body.len() == p1.locals.len()
                && reads_follow_declarations(p1)
        }),
    decreases e,
{
    let (rhs, p1) = assign_shape(e, prog);
    match e {
        LShape::Let { variable_name, init_expr, body } => {
            lemma_assign_reads(*init_expr, prog);
            let (rhs_i, pi) = assign_shape(*init_expr, prog);
            let p2 = ProgramShape {
                locals: pi.locals.push(variable_name),
                body: pi.body.push(StmtShape::Assign { lhs: variable_name, rhs: rhs_i }),
            };
            lemma_push_to_set(pi.locals, variable_name);
            assert forall|k: int|
                0 <= k < p2.body.len() implies stmt_reads_ok(
                #[trigger] p2.body[k],
                declared_before(p2.locals, k),
            ) by {
                if k < pi.body.len() {
                    assert(p2.body[k] == pi.body[k]);
                    assert(p2.locals.take(k) =~= pi.locals.take(k));
                } else {
                    assert(p2.body[k] == StmtShape::Assign {
                        lhs: variable_name,
                        rhs: rhs_i,
                    });
                    assert(p2.locals.take(k) =~= pi.locals);
                }
            }
            lemma_assign_shape_adds(*init_expr, prog);
            lemma_prefix_subset(prog.locals, binding_names(*init_expr));
            assert(prog.locals.to_set().subset_of(pi.locals.to_set()));
            assert forall|x: Seq<char>|
                prog.locals.to_set().insert(variable_name).contains(x) implies p2
                .locals
                .to_set()
                .contains(x) by {
                if x != variable_name {
                    assert(prog.locals.to_set().contains(x));
                    assert(pi.locals.to_set().contains(x));
                }
            }
            lemma_well_scoped_monotone(
                *body,
                prog.locals.to_set().insert(variable_name),
                p2.locals.to_set(),
            );
            lemma_assign_reads(*body, p2);
        },
        _ => {
            match e {
                LShape::Identifier(name) => {
                    assert(prog.locals.to_set().contains(name));
                },
                LShape::UnaryOperation { kind, operand } => {
                    assert(well_scoped(*operand, prog.locals.to_set()));
                    match *operand {
                        LShape::Identifier(name) => {
                            assert(prog.locals.to_set().contains(name));
                        },
                        _ => {},
                    }
                },
                LShape::BinaryOperation { kind, left_operand, right_operand } => {
                    assert(well_scoped(*left_operand, prog.locals.to_set()));
                    assert(well_scoped(*right_operand, prog.locals.to_set()));
                    match *left_operand {
                        LShape::Identifier(name) => {
                            assert(prog.locals.to_set().contains(name));
                        },
                        _ => {},
                    }
                    match *right_operand {
                        LShape::Identifier(name) => {
                            assert(prog.locals.to_set().contains(name));
                        },
                        _ => {},
                    }
                },
                _ => {},
            }
            assert(expr_reads_ok(rhs, p1.locals.to_set()));
        },
    }
}

/// Tail-position explication preserves the discipline, the return statement
/// included.
proof fn lemma_tail_reads(e: LShape, prog: ProgramShape)
    requires
        explicable(e),
        well_scoped(e, prog.locals.to_set()),
        prog.body.len() == prog.locals.len(),
        reads_follow_declarations(prog),
    ensures
        ({
            let p = tail_shape(e, prog);
            p.body.len() == p.locals.len() + 1 && reads_follow_declarations(p)
        }),
    decreases e,
{
    let p = tail_shape(e, prog);
    match e {
        LShape::Let { variable_name, init_expr, body } => {
            lemma_assign_reads(*init_expr, prog);
            let (rhs_i, pi) = assign_shape(*init_expr, prog);
            let p2 = ProgramShape {
                locals: pi.locals.push(variable_name),
                body: pi.body.push(StmtShape::Assign { lhs: variable_name, rhs: rhs_i }),
            };
            lemma_push_to_set(pi.locals, variable_name);
            assert forall|k: int|
                0 <= k < p2.body.len() implies stmt_reads_ok(
                #[trigger] p2.body[k],
                declared_before(p2.locals, k),
            ) by {
                if k < pi.body.len() {
                    assert(p2.body[k] == pi.body[k]);
                    assert(p2.locals.take(k) =~= pi.locals.take(k));
                } else {
                    assert(p2.body[k] == StmtShape::Assign {
                        lhs: variable_name,
                        rhs: rhs_i,
                    });
                    assert(p2.locals.take(k) =~= pi.locals);
                }
            }
            lemma_assign_shape_adds(*init_expr, prog);
            lemma_prefix_subset(prog.locals, binding_names(*init_expr));
            assert(prog.locals.to_set().subset_of(pi.locals.to_set()));
            assert forall|x: Seq<char>|
                prog.locals.to_set().insert(variable_name).contains(x) implies p2
                .locals
                .to_set()
                .contains(x) by {
                if x != variable_name {
                    assert(prog.locals.to_set().contains(x));
                    assert(pi.locals.to_set().contains(x));
                }
            }
            lemma_well_scoped_monotone(
                *body,
                prog.locals.to_set().insert(variable_name),
                p2.locals.to_set(),
            );
            lemma_tail_reads(*body, p2);
        },
        _ => {
            lemma_assign_reads(e, prog);
            let (rhs_e, p1) = assign_shape(e, prog);
            assert forall|k: int|
                0 <= k < p.body.len() implies stmt_reads_ok(
                #[trigger] p.body[k],
                declared_before(p.locals, k),
            ) by {
                if k < p1.body.len() {
                    assert(p.body[k] == p1.body[k]);
                } else {
                    assert(p.body[k] == StmtShape::Return(rhs_e));
                    assert(p.locals.take(k) =~= p1.locals);
                }
            }
        },
    }
}

/// LAW: in the explicated program, every variable a statement reads was
/// declared by an earlier statement — references follow their declarations
/// in body order.
pub proof fn lemma_explicate_reads_follow_declarations(e: LShape)
    requires
        explicable(e),
        well_scoped(e, Set::empty()),
    ensures
        reads_follow_declarations(tail_shape(e, empty_program())),
{
    assert(empty_program().locals.to_set() =~= Set::<Seq<char>>::empty());
    lemma_tail_reads(e, empty_program());
}

struct ExplicateImpl {
    result_program: CProgram,
}

impl ExplicateImpl {
    fn new() -> (pass: Self)
        ensures
            pass.result_program@ == empty_program(),
    {
        let pass = Self { result_program: CProgram::new() };
        proof {
            assert(pass.result_program@.locals =~= empty_program().locals);
            assert(pass.result_program@.body =~= empty_program().body);
        }
        pass
    }

    fn gen_atom(expr: LExpr) -> (atom: Atom)
        requires
            explicable_atom(expr@),
        ensures
            atom@ == atom_shape(expr@),
    {
        match expr {
            LExpr::Integer(v) => Atom::Integer(#[verifier::truncate] (v as i64)),
            LExpr::Identifier(name) => Atom::Variable(name),
            _ => {
                proof {
                    assert(false);
                }
                Atom::Integer(0)
            },
        }
    }

    fn explicate_tail(&mut self, expr: LExpr)
        requires
            explicable(expr@),
        ensures
            final(self).result_program@ == tail_shape(expr@, old(self).result_program@),
        decreases expr,
    {
        match expr {
            LExpr::Let { variable_name, init_expr, body } => {
                let rhs = self.explicate_assign(*init_expr);
                self.result_program.create_local_variable(variable_name.clone());
                self.result_program.create_assign(variable_name, rhs);
                self.explicate_tail(*body);
            },
            other => {
                let operand = self.explicate_assign(other);
                self.result_program.create_terminator(operand);
            },
        }
    }

    fn explicate_assign(&mut self, expr: LExpr) -> (rhs: CExpr)
        requires
            explicable(expr@),
        ensures
            assign_shape(expr@, old(self).result_program@) == (
                rhs@,
                final(self).result_program@,
            ),
        decreases expr,
    {
        match expr {
            LExpr::Integer(v) => CExpr::Atom(Atom::Integer(#[verifier::truncate] (v as i64))),
            LExpr::Read => CExpr::Read,
            LExpr::Identifier(name) => CExpr::Atom(Atom::Variable(name)),
            LExpr::UnaryOperation { kind, operand } => CExpr::UnaryOperation {
                kind,
                operand: Self::gen_atom(*operand),
            },
            LExpr::BinaryOperation { kind, left_operand, right_operand } => {
                CExpr::BinaryOperation {
                    kind,
                    left_operand: Self::gen_atom(*left_operand),
                    right_operand: Self::gen_atom(*right_operand),
                }
            },
            LExpr::Let { variable_name, init_expr, body } => {
                let init = self.explicate_assign(*init_expr);
                self.result_program.create_local_variable(variable_name.clone());
                self.result_program.create_assign(variable_name, init);
                self.explicate_assign(*body)
            },
        }
    }
}

/// The explicator: lowers a flattened expression into a three-address
/// program whose body is the sequence of `let` assignments followed by one
/// final return.
pub fn explicate_control(expr: LExpr) -> (program: CProgram)
    requires
        explicable(expr@),
    ensures
        program@ == tail_shape(expr@, empty_program()),
{
    let mut pass = ExplicateImpl::new();
    pass.explicate_tail(expr);
    pass.result_program
}

} // verus!
