//! The flattener pass: rewrites an expression into administrative normal
//! form, where every operand of a unary or binary operator is a literal, a
//! read, or an identifier. Compound operands are hoisted into fresh `let`
//! bindings wrapped around the expression that needs them; a `let` standing
//! in operand position is hoisted bodily, its own binding joining the list,
//! which is capture-safe on renamed input.

use vstd::prelude::*;
use vstd::string::*;
use crate::ast::Expr;
use crate::ast::ExprShape;
use crate::namegen::NameGenerator;
use crate::namegen::gen_name;

verus! {

/// An operand that needs no hoisting: a literal, a read, or an identifier.
pub open spec fn is_atomic(e: ExprShape) -> bool {
    e matches ExprShape::Integer(_) || e matches ExprShape::Read || e matches ExprShape::Identifier(
        _,
    )
}

/// Administrative normal form: every operator operand is atomic, at any
/// depth.
pub open spec fn is_flat(e: ExprShape) -> bool
    decreases e,
{
    match e {
        ExprShape::UnaryOperation { operand, .. } => is_atomic(*operand),
        ExprShape::BinaryOperation { left_operand, right_operand, .. } => is_atomic(*left_operand)
            && is_atomic(*right_operand),
        ExprShape::Let { init_expr, body, .. } => is_flat(*init_expr) && is_flat(*body),
        _ => true,
    }
}

/// The number of operator nodes in the expression: an upper bound on the
/// fresh names flattening it consumes.
pub open spec fn count_ops(e: ExprShape) -> nat
    decreases e,
{
    match e {
        ExprShape::UnaryOperation { operand, .. } => 1 + count_ops(*operand),
        ExprShape::BinaryOperation { left_operand, right_operand, .. } => 1 + count_ops(
            *left_operand,
        ) + count_ops(*right_operand),
        ExprShape::Let { init_expr, body, .. } => count_ops(*init_expr) + count_ops(*body),
        _ => 0,
    }
}

/// Wraps a body in `let` bindings: the first binding becomes the outermost
/// `let`, the last the innermost.
pub open spec fn wrap_bindings(bindings: Seq<(Seq<char>, ExprShape)>, body: ExprShape) -> ExprShape
    decreases bindings.len(),
{
    if bindings.len() == 0 {
        body
    } else {
        wrap_bindings(
            bindings.drop_last(),
            ExprShape::Let {
                variable_name: bindings.last().0,
                init_expr: Box::new(bindings.last().1),
                body: Box::new(body),
            },
        )
    }
}

/// Flattens an expression to an atom, returning the atom, the bindings that
/// must be wrapped above it (in outermost-first order), and the counter after
/// the walk. A `let` is hoisted without a fresh name: its own binding — the
/// initializer flattened in place — joins the list, followed by the body's
/// bindings, and the body's atom stands for the whole.
pub open spec fn flatten_atom(e: ExprShape, ctr: nat) -> (ExprShape, Seq<(Seq<char>, ExprShape)>, nat)
    decreases e,
{
    match e {
        ExprShape::UnaryOperation { kind, operand } => {
            let (operand2, binds, c1) = flatten_atom(*operand, ctr);
            let name = gen_name("tmp"@, c1);
            (
                ExprShape::Identifier(name),
                binds.push((name, ExprShape::UnaryOperation { kind, operand: Box::new(operand2) })),
                c1 + 1,
            )
        },
        ExprShape::BinaryOperation { kind, left_operand, right_operand } => {
            let (left2, bl, c1) = flatten_atom(*left_operand, ctr);
            let (right2, br, c2) = flatten_atom(*right_operand, c1);
            let name = gen_name("tmp"@, c2);
            (
                ExprShape::Identifier(name),
                (bl + br).push(
                    (
                        name,
                        ExprShape::BinaryOperation {
                            kind,
                            left_operand: Box::new(left2),
                            right_operand: Box::new(right2),
                        },
                    ),
                ),
                c2 + 1,
            )
        },
        ExprShape::Let { variable_name, init_expr, body } => {
            let (init2, c1) = flatten_expr(*init_expr, ctr);
            let (body_atom, body_binds, c2) = flatten_atom(*body, c1);
            (body_atom, seq![(variable_name, init2)] + body_binds, c2)
        },
        _ => (e, Seq::empty(), ctr),
    }
}

/// Flattens an expression in place: operands of its operators become atomic,
/// with hoisted bindings wrapped around the operator that needed them. The
/// right operand's bindings end up innermost, preserving left-to-right
/// evaluation order.
pub open spec fn flatten_expr(e: ExprShape, ctr: nat) -> (ExprShape, nat)
    decreases e,
{
    match e {
        ExprShape::UnaryOperation { kind, operand } => {
            let (operand2, binds, c1) = flatten_atom(*operand, ctr);
            (
                wrap_bindings(
                    binds,
                    ExprShape::UnaryOperation { kind, operand: Box::new(operand2) },
                ),
                c1,
            )
        },
        ExprShape::BinaryOperation { kind, left_operand, right_operand } => {
            let (left2, bl, c1) = flatten_atom(*left_operand, ctr);
            let (right2, br, c2) = flatten_atom(*right_operand, c1);
            (
                wrap_bindings(
                    bl + br,
                    ExprShape::BinaryOperation {
                        kind,
                        left_operand: Box::new(left2),
                        right_operand: Box::new(right2),
                    },
                ),
                c2,
            )
        },
        ExprShape::Let { variable_name, init_expr, body } => {
            let (init2, c1) = flatten_expr(*init_expr, ctr);
            let (body2, c2) = flatten_expr(*body, c1);
            (
                ExprShape::Let {
                    variable_name,
                    init_expr: Box::new(init2),
                    body: Box::new(body2),
                },
                c2,
            )
        },
        _ => (e, ctr),
    }
}

/// The counter never moves backwards, and advances by at most one step per
/// operator node.
pub proof fn lemma_flatten_ctr(e: ExprShape, ctr: nat)
    ensures
        ctr <= flatten_atom(e, ctr).2 <= ctr + count_ops(e),
        ctr <= flatten_expr(e, ctr).1 <= ctr + count_ops(e),
    decreases e,
{
    match e {
        ExprShape::UnaryOperation { kind, operand } => {
            lemma_flatten_ctr(*operand, ctr);
        },
        ExprShape::BinaryOperation { kind, left_operand, right_operand } => {
            lemma_flatten_ctr(*left_operand, ctr);
            lemma_flatten_ctr(*right_operand, flatten_atom(*left_operand, ctr).2);
        },
        ExprShape::Let { variable_name, init_expr, body } => {
            lemma_flatten_ctr(*init_expr, ctr);
            lemma_flatten_ctr(*body, flatten_expr(*init_expr, ctr).1);
        },
        _ => {},
    }
}

/// All binding initializers in the sequence are flat.
pub open spec fn bindings_flat(bindings: Seq<(Seq<char>, ExprShape)>) -> bool {
    forall|i: int| 0 <= i < bindings.len() ==> is_flat(#[trigger] bindings[i].1)
}

proof fn lemma_wrap_bindings_flat(bindings: Seq<(Seq<char>, ExprShape)>, body: ExprShape)
    requires
        bindings_flat(bindings),
        is_flat(body),
    ensures
        is_flat(wrap_bindings(bindings, body)),
    decreases bindings.len(),
{
    if bindings.len() > 0 {
        let inner = ExprShape::Let {
            variable_name: bindings.last().0,
            init_expr: Box::new(bindings.last().1),
            body: Box::new(body),
        };
        assert(is_flat(inner));
        assert(bindings_flat(bindings.drop_last()));
        lemma_wrap_bindings_flat(bindings.drop_last(), inner);
    }
}

proof fn lemma_flatten_atom_flat(e: ExprShape, ctr: nat)
    ensures
        is_atomic(flatten_atom(e, ctr).0),
        bindings_flat(flatten_atom(e, ctr).1),
    decreases e,
{
    match e {
        ExprShape::UnaryOperation { kind, operand } => {
            lemma_flatten_atom_flat(*operand, ctr);
            let (operand2, binds, c1) = flatten_atom(*operand, ctr);
            let init = ExprShape::UnaryOperation { kind, operand: Box::new(operand2) };
            assert(is_flat(init));
            assert(bindings_flat(binds.push((gen_name("tmp"@, c1), init))));
        },
        ExprShape::BinaryOperation { kind, left_operand, right_operand } => {
            lemma_flatten_atom_flat(*left_operand, ctr);
            let (left2, bl, c1) = flatten_atom(*left_operand, ctr);
            lemma_flatten_atom_flat(*right_operand, c1);
            let (right2, br, c2) = flatten_atom(*right_operand, c1);
            let init = ExprShape::BinaryOperation {
                kind,
                left_operand: Box::new(left2),
                right_operand: Box::new(right2),
            };
            assert(is_flat(init));
            assert(bindings_flat(bl + br));
            assert(bindings_flat((bl + br).push((gen_name("tmp"@, c2), init))));
        },
        ExprShape::Let { variable_name, init_expr, body } => {
            lemma_flatten_output_flat(*init_expr, ctr);
            let (init2, c1) = flatten_expr(*init_expr, ctr);
            lemma_flatten_atom_flat(*body, c1);
            let (body_atom, body_binds, c2) = flatten_atom(*body, c1);
            let hoisted = seq![(variable_name, init2)] + body_binds;
            assert forall|i: int| 0 <= i < hoisted.len() implies is_flat(
                #[trigger] hoisted[i].1,
            ) by {
                if i == 0 {
                    assert(hoisted[0] == (variable_name, init2));
                } else {
                    assert(hoisted[i] == body_binds[i - 1]);
                }
            }
        },
        _ => {},
    }
}

/// LAW: for every input, flattening yields an expression in which every
/// operator operand is atomic — a compound operand, `let` included, is
/// hoisted above the operator that needed it.
pub proof fn lemma_flatten_output_flat(e: ExprShape, ctr: nat)
    ensures
        is_flat(flatten_expr(e, ctr).0),
    decreases e,
{
    match e {
        ExprShape::UnaryOperation { kind, operand } => {
            lemma_flatten_atom_flat(*operand, ctr);
            let (operand2, binds, c1) = flatten_atom(*operand, ctr);
            let inner = ExprShape::UnaryOperation { kind, operand: Box::new(operand2) };
            assert(is_flat(inner));
            lemma_wrap_bindings_flat(binds, inner);
        },
        ExprShape::BinaryOperation { kind, left_operand, right_operand } => {
            lemma_flatten_atom_flat(*left_operand, ctr);
            let (left2, bl, c1) = flatten_atom(*left_operand, ctr);
            lemma_flatten_atom_flat(*right_operand, c1);
            let (right2, br, c2) = flatten_atom(*right_operand, c1);
            let inner = ExprShape::BinaryOperation {
                kind,
                left_operand: Box::new(left2),
                right_operand: Box::new(right2),
            };
            assert(is_flat(inner));
            assert(bindings_flat(bl + br));
            lemma_wrap_bindings_flat(bl + br, inner);
        },
        ExprShape::Let { variable_name, init_expr, body } => {
            lemma_flatten_output_flat(*init_expr, ctr);
            lemma_flatten_output_flat(*body, flatten_expr(*init_expr, ctr).1);
        },
        _ => {},
    }
}

/// LAW: flattening is closed — an already-flat expression flattens to itself,
/// so running the pass twice changes nothing after the first run.
pub proof fn lemma_flatten_idempotent(e: ExprShape, ctr: nat)
    requires
        is_flat(e),
    ensures
        flatten_expr(e, ctr) == (e, ctr),
    decreases e,
{
    match e {
        ExprShape::UnaryOperation { kind, operand } => {
            assert(flatten_atom(*operand, ctr) == (*operand, Seq::<(Seq<char>, ExprShape)>::empty(), ctr));
            assert(wrap_bindings(Seq::empty(), e) == e);
        },
        ExprShape::BinaryOperation { kind, left_operand, right_operand } => {
            assert(flatten_atom(*left_operand, ctr) == (
                *left_operand,
                Seq::<(Seq<char>, ExprShape)>::empty(),
                ctr,
            ));
            assert(flatten_atom(*right_operand, ctr) == (
                *right_operand,
                Seq::<(Seq<char>, ExprShape)>::empty(),
                ctr,
            ));
            assert(Seq::<(Seq<char>, ExprShape)>::empty() + Seq::empty() =~= Seq::<
                (Seq<char>, ExprShape),
            >::empty());
            assert(wrap_bindings(Seq::empty(), e) == e);
        },
        ExprShape::Let { variable_name, init_expr, body } => {
            lemma_flatten_idempotent(*init_expr, ctr);
            lemma_flatten_idempotent(*body, ctr);
        },
        _ => {},
    }
}

struct RCOImpl {
    name_gen: NameGenerator,
}

impl RCOImpl {
    fn new() -> (pass: Self)
        ensures
            pass.name_gen.prefix@ == "tmp"@,
            pass.name_gen.index == 0,
    {
        Self { name_gen: NameGenerator::new(String::from_str("tmp")) }
    }

    fn rco_atom(&mut self, expr: Expr) -> (result: (Expr, Vec<(String, Expr)>))
        requires
            old(self).name_gen.prefix@ == "tmp"@,
            old(self).name_gen.index + count_ops(expr@) <= u64::MAX,
        ensures
            final(self).name_gen.prefix@ == "tmp"@,
            flatten_atom(expr@, old(self).name_gen.index as nat) == (
                result.0@,
                result.1.deep_view(),
                final(self).name_gen.index as nat,
            ),
        decreases expr,
    {
        proof {
            lemma_flatten_ctr(expr@, old(self).name_gen.index as nat);
        }
        match expr {
            Expr::Integer(v) => {
                let r = (Expr::Integer(v), Vec::new());
                proof {
                    assert(r.1.deep_view() =~= Seq::<(Seq<char>, ExprShape)>::empty());
                }
                r
            },
            Expr::Read => {
                let r = (Expr::Read, Vec::new());
                proof {
                    assert(r.1.deep_view() =~= Seq::<(Seq<char>, ExprShape)>::empty());
                }
                r
            },
            Expr::Identifier(name) => {
                let r = (Expr::Identifier(name), Vec::new());
                proof {
                    assert(r.1.deep_view() =~= Seq::<(Seq<char>, ExprShape)>::empty());
                }
                r
            },
            Expr::UnaryOperation { kind, operand } => {
                let (operand2, mut binds) = self.rco_atom(*operand);
                let ghost binds_before = binds.deep_view();
                let name = self.name_gen.generate();
                let init = Expr::UnaryOperation { kind, operand: Box::new(operand2) };
                let ghost init_shape = init@;
                binds.push((name.clone(), init));
                proof {
                    assert(binds.deep_view() =~= binds_before.push((name@, init_shape)));
                }
                (Expr::Identifier(name), binds)
            },
            Expr::BinaryOperation { kind, left_operand, right_operand } => {
                proof {
                    lemma_flatten_ctr((*left_operand)@, old(self).name_gen.index as nat);
                }
                let (left2, mut bl) = self.rco_atom(*left_operand);
                let (right2, mut br) = self.rco_atom(*right_operand);
                let ghost bl_before = bl.deep_view();
                let ghost br_before = br.deep_view();
                bl.append(&mut br);
                proof {
                    assert(bl.deep_view() =~= bl_before + br_before);
                }
                let ghost binds_before = bl.deep_view();
                let name = self.name_gen.generate();
                let init = Expr::BinaryOperation {
                    kind,
                    left_operand: Box::new(left2),
                    right_operand: Box::new(right2),
                };
                let ghost init_shape = init@;
                bl.push((name.clone(), init));
                proof {
                    assert(bl.deep_view() =~= binds_before.push((name@, init_shape)));
                }
                (Expr::Identifier(name), bl)
            },
            Expr::Let { variable_name, init_expr, body } => {
                proof {
                    lemma_flatten_ctr((*init_expr)@, old(self).name_gen.index as nat);
                }
                let init2 = self.rco_expr(*init_expr);
                let (body_atom, mut body_binds) = self.rco_atom(*body);
                let ghost body_binds_before = body_binds.deep_view();
                let ghost first = (variable_name@, init2@);
                let mut binds: Vec<(String, Expr)> = Vec::new();
                binds.push((variable_name, init2));
                proof {
                    assert(binds.deep_view() =~= seq![first]);
                }
                binds.append(&mut body_binds);
                proof {
                    assert(binds.deep_view() =~= seq![first] + body_binds_before);
                }
                (body_atom, binds)
            },
        }
    }

    fn rco_expr(&mut self, expr: Expr) -> (result: Expr)
        requires
            old(self).name_gen.prefix@ == "tmp"@,
            old(self).name_gen.index + count_ops(expr@) <= u64::MAX,
        ensures
            final(self).name_gen.prefix@ == "tmp"@,
            flatten_expr(expr@, old(self).name_gen.index as nat) == (
                result@,
                final(self).name_gen.index as nat,
            ),
        decreases expr,
    {
        proof {
            lemma_flatten_ctr(expr@, old(self).name_gen.index as nat);
        }
        match expr {
            Expr::Integer(v) => Expr::Integer(v),
            Expr::Read => Expr::Read,
            Expr::Identifier(name) => Expr::Identifier(name),
            Expr::UnaryOperation { kind, operand } => {
                let (operand2, binds) = self.rco_atom(*operand);
                let result = Expr::UnaryOperation { kind, operand: Box::new(operand2) };
                Self::wrap_binding_list(binds, result)
            },
            Expr::BinaryOperation { kind, left_operand, right_operand } => {
                proof {
                    lemma_flatten_ctr((*left_operand)@, old(self).name_gen.index as nat);
                }
                let (left2, mut bl) = self.rco_atom(*left_operand);
                let (right2, mut br) = self.rco_atom(*right_operand);
                let ghost bl_before = bl.deep_view();
                let ghost br_before = br.deep_view();
                bl.append(&mut br);
                proof {
                    assert(bl.deep_view() =~= bl_before + br_before);
                }
                let result = Expr::BinaryOperation {
                    kind,
                    left_operand: Box::new(left2),
                    right_operand: Box::new(right2),
                };
                Self::wrap_binding_list(bl, result)
            },
            Expr::Let { variable_name, init_expr, body } => {
                proof {
                    lemma_flatten_ctr((*init_expr)@, old(self).name_gen.index as nat);
                }
                let init2 = self.rco_expr(*init_expr);
                let body2 = self.rco_expr(*body);
                Expr::Let { variable_name, init_expr: Box::new(init2), body: Box::new(body2) }
            },
        }
    }

    /// Wraps the body in the bindings, last binding innermost.
    fn wrap_binding_list(bindings: Vec<(String, Expr)>, body: Expr) -> (result: Expr)
        ensures
            result@ == wrap_bindings(bindings.deep_view(), body@),
    {
        let mut bindings = bindings;
        let mut result = body;
        let ghost full = bindings.deep_view();
        let ghost goal = wrap_bindings(full, body@);
        while bindings.len() > 0
            invariant
                wrap_bindings(bindings.deep_view(), result@) == goal,
            decreases bindings.len(),
        {
            let ghost dv_before = bindings.deep_view();
            let popped = bindings.pop();
            proof {
                assert(bindings.deep_view() =~= dv_before.drop_last());
            }
            match popped {
                Some((name, init)) => {
                    proof {
                        assert(dv_before.last() == (name@, init@));
                    }
                    result = Expr::Let {
                        variable_name: name,
                        init_expr: Box::new(init),
                        body: Box::new(result),
                    };
                },
                None => {},
            }
        }
        proof {
            assert(bindings.deep_view() =~= Seq::<(Seq<char>, ExprShape)>::empty());
        }
        result
    }
}

/// The flattener: converts an expression into administrative normal form,
/// hoisting every compound operator operand into a fresh `let` binding.
pub fn remove_complex_operands(expr: Expr) -> (result: Expr)
    requires
        count_ops(expr@) <= u64::MAX,
    ensures
        result@ == flatten_expr(expr@, 0).0,
{
    let mut pass = RCOImpl::new();
    pass.rco_expr(expr)
}

} // verus!
