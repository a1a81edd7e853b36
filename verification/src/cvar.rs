//! The three-address imperative IR: an ordered list of local-variable
//! declarations and a straight-line body of assignments ending in a return.
//! Operator operands here are always atoms — an integer or a variable.

use vstd::prelude::*;
use vstd::string::*;
use crate::ast::BinaryOpKind;
use crate::ast::UnaryOpKind;
use crate::numfmt::dec_chars_signed;
use crate::numfmt::i64_to_dec;

verus! {

#[derive(Debug, Eq, PartialEq, Clone)]
pub enum Atom {
    Integer(i64),
    Variable(String),
}

pub enum AtomShape {
    Integer(i64),
    Variable(Seq<char>),
}

impl View for Atom {
    type V = AtomShape;

    open spec fn view(&self) -> AtomShape {
        match self {
            Atom::Integer(v) => AtomShape::Integer(*v),
            Atom::Variable(name) => AtomShape::Variable(name@),
        }
    }
}

impl DeepView for Atom {
    type V = AtomShape;

    open spec fn deep_view(&self) -> AtomShape {
        self.view()
    }
}

/// A non-recursive right-hand side: operands are always atomic.
#[derive(Debug, Eq, PartialEq, Clone)]
pub enum Expr {
    Atom(Atom),
    Read,
    UnaryOperation { kind: UnaryOpKind, operand: Atom },
    BinaryOperation { kind: BinaryOpKind, left_operand: Atom, right_operand: Atom },
}

pub enum ExprShape {
    Atom(AtomShape),
    Read,
    UnaryOperation { kind: UnaryOpKind, operand: AtomShape },
    BinaryOperation { kind: BinaryOpKind, left_operand: AtomShape, right_operand: AtomShape },
}

impl View for Expr {
    type V = ExprShape;

    open spec fn view(&self) -> ExprShape {
        match self {
            Expr::Atom(atom) => ExprShape::Atom(atom@),
            Expr::Read => ExprShape::Read,
            Expr::UnaryOperation { kind, operand } => ExprShape::UnaryOperation {
                kind: *kind,
                operand: operand@,
            },
            Expr::BinaryOperation { kind, left_operand, right_operand } => {
                ExprShape::BinaryOperation {
                    kind: *kind,
                    left_operand: left_operand@,
                    right_operand: right_operand@,
                }
            },
        }
    }
}

impl DeepView for Expr {
    type V = ExprShape;

    open spec fn deep_view(&self) -> ExprShape {
        self.view()
    }
}

#[derive(Debug, Eq, PartialEq, Clone)]
pub enum Stmt {
    Assign { lhs: String, rhs: Expr },
    Return(Expr),
}

pub enum StmtShape {
    Assign { lhs: Seq<char>, rhs: ExprShape },
    Return(ExprShape),
}

impl View for Stmt {
    type V = StmtShape;

    open spec fn view(&self) -> StmtShape {
        match self {
            Stmt::Assign { lhs, rhs } => StmtShape::Assign { lhs: lhs@, rhs: rhs@ },
            Stmt::Return(e) => StmtShape::Return(e@),
        }
    }
}

impl DeepView for Stmt {
    type V = StmtShape;

    open spec fn deep_view(&self) -> StmtShape {
        self.view()
    }
}

/// A three-address program: declaration-ordered locals and a straight-line
/// body.
#[derive(Debug, Eq, PartialEq, Clone)]
pub struct Program {
    pub locals: Vec<String>,
    pub body: Vec<Stmt>,
}

#[verifier::ext_equal]
pub struct ProgramShape {
    pub locals: Seq<Seq<char>>,
    pub body: Seq<StmtShape>,
}

impl View for Program {
    type V = ProgramShape;

    open spec fn view(&self) -> ProgramShape {
        ProgramShape { locals: self.locals.deep_view(), body: self.body.deep_view() }
    }
}

impl DeepView for Program {
    type V = ProgramShape;

    open spec fn deep_view(&self) -> ProgramShape {
        self.view()
    }
}

impl Program {
    pub fn new() -> (program: Self)
        ensures
            program@.locals == Seq::<Seq<char>>::empty(),
            program@.body == Seq::<StmtShape>::empty(),
    {
        let program = Self { locals: Vec::new(), body: Vec::new() };
        proof {
            assert(program@.locals =~= Seq::<Seq<char>>::empty());
            assert(program@.body =~= Seq::<StmtShape>::empty());
        }
        program
    }

    /// Appends the single return statement that ends the body.
    pub fn create_terminator(&mut self, expr: Expr)
        ensures
            final(self)@.locals == old(self)@.locals,
            final(self)@.body == old(self)@.body.push(StmtShape::Return(expr@)),
    {
        let ghost before = self@.body;
        self.body.push(Stmt::Return(expr));
        proof {
            assert(self@.body =~= before.push(StmtShape::Return(expr@)));
            assert(self@.locals =~= old(self)@.locals);
        }
    }

    /// Appends an assignment statement to the body.
    pub fn create_assign(&mut self, lhs: String, rhs: Expr)
        ensures
            final(self)@.locals == old(self)@.locals,
            final(self)@.body == old(self)@.body.push(
                StmtShape::Assign { lhs: lhs@, rhs: rhs@ },
            ),
    {
        let ghost before = self@.body;
        let ghost pushed = StmtShape::Assign { lhs: lhs@, rhs: rhs@ };
        self.body.push(Stmt::Assign { lhs, rhs });
        proof {
            assert(self@.body =~= before.push(pushed));
            assert(self@.locals =~= old(self)@.locals);
        }
    }

    /// Declares a local variable, keeping declaration order.
    pub fn create_local_variable(&mut self, name: String)
        ensures
            final(self)@.locals == old(self)@.locals.push(name@),
            final(self)@.body == old(self)@.body,
    {
        let ghost before = self@.locals;
        self.locals.push(name);
        proof {
            assert(self@.locals =~= before.push(name@));
            assert(self@.body =~= old(self)@.body);
        }
    }
}

pub open spec fn unary_op_text(kind: UnaryOpKind) -> Seq<char> {
    match kind {
        UnaryOpKind::Minus => "-"@,
    }
}

pub open spec fn binary_op_text(kind: BinaryOpKind) -> Seq<char> {
    match kind {
        BinaryOpKind::Add => "+"@,
        BinaryOpKind::Sub => "-"@,
    }
}

pub open spec fn atom_text(a: AtomShape) -> Seq<char> {
    match a {
        AtomShape::Integer(v) => dec_chars_signed(v as int),
        AtomShape::Variable(name) => name,
    }
}

pub open spec fn expr_text(e: ExprShape) -> Seq<char> {
    match e {
        ExprShape::Atom(a) => atom_text(a),
        ExprShape::Read => "read"@,
        ExprShape::UnaryOperation { kind, operand } => "("@ + unary_op_text(kind) + " "@
            + atom_text(operand) + ")"@,
        ExprShape::BinaryOperation { kind, left_operand, right_operand } => "("@ + binary_op_text(
            kind,
        ) + " "@ + atom_text(left_operand) + " "@ + atom_text(right_operand) + ")"@,
    }
}

pub open spec fn stmt_text(s: StmtShape) -> Seq<char> {
    match s {
        StmtShape::Assign { lhs, rhs } => lhs + " = "@ + expr_text(rhs) + ";"@,
        StmtShape::Return(e) => "return "@ + expr_text(e) + ";"@,
    }
}

/// Locals joined with a comma and a space.
pub open spec fn names_joined(names: Seq<Seq<char>>) -> Seq<char>
    decreases names.len(),
{
    if names.len() == 0 {
        Seq::empty()
    } else if names.len() == 1 {
        names[0]
    } else {
        names[0] + ", "@ + names_joined(names.drop_first())
    }
}

/// The statement lines of the body, each indented and newline-terminated.
pub open spec fn body_text(body: Seq<StmtShape>) -> Seq<char>
    decreases body.len(),
{
    if body.len() == 0 {
        Seq::empty()
    } else {
        body_text(body.drop_last()) + "    "@ + stmt_text(body.last()) + "\n"@
    }
}

/// The diagnostic rendering of a whole program: an optional `local:` line,
/// then `start:` and one line per statement.
pub open spec fn program_text(p: ProgramShape) -> Seq<char> {
    if p.locals.len() > 0 {
        "local: ["@ + names_joined(p.locals) + "]\n"@ + "start:\n"@ + body_text(p.body)
    } else {
        "start:\n"@ + body_text(p.body)
    }
}

impl Atom {
    pub fn to_code(&self) -> (s: String)
        ensures
            s@ == atom_text(self@),
    {
        match self {
            Atom::Integer(v) => i64_to_dec(*v),
            Atom::Variable(name) => name.clone(),
        }
    }
}

impl Expr {
    pub fn to_code(&self) -> (s: String)
        ensures
            s@ == expr_text(self@),
    {
        match self {
            Expr::Atom(a) => a.to_code(),
            Expr::Read => String::from_str("read"),
            Expr::UnaryOperation { kind, operand } => {
                let mut s = String::from_str("(");
                match kind {
                    UnaryOpKind::Minus => s.append("-"),
                }
                s.append(" ");
                let operand_code = operand.to_code();
                s.append(operand_code.as_str());
                s.append(")");
                proof {
                    assert(s@ =~= expr_text(self@));
                }
                s
            },
            Expr::BinaryOperation { kind, left_operand, right_operand } => {
                let mut s = String::from_str("(");
                match kind {
                    BinaryOpKind::Add => s.append("+"),
                    BinaryOpKind::Sub => s.append("-"),
                }
                s.append(" ");
                let left_code = left_operand.to_code();
                s.append(left_code.as_str());
                s.append(" ");
                let right_code = right_operand.to_code();
                s.append(right_code.as_str());
                s.append(")");
                proof {
                    assert(s@ =~= expr_text(self@));
                }
                s
            },
        }
    }
}

impl Stmt {
    pub fn to_code(&self) -> (s: String)
        ensures
            s@ == stmt_text(self@),
    {
        match self {
            Stmt::Assign { lhs, rhs } => {
                let mut s = lhs.clone();
                s.append(" = ");
                let rhs_code = rhs.to_code();
                s.append(rhs_code.as_str());
                s.append(";");
                proof {
                    assert(s@ =~= stmt_text(self@));
                }
                s
            },
            Stmt::Return(e) => {
                let mut s = String::from_str("return ");
                let e_code = e.to_code();
                s.append(e_code.as_str());
                s.append(";");
                proof {
                    assert(s@ =~= stmt_text(self@));
                }
                s
            },
        }
    }
}

impl Program {
    pub fn to_code(&self) -> (s: String)
        ensures
            s@ == program_text(self@),
    {
        let mut s = String::new();
        if self.locals.len() > 0 {
            s.append("local: [");
            let joined = join_names(&self.locals);
            s.append(joined.as_str());
            s.append("]\n");
        }
        s.append("start:\n");
        let ghost header = s@;
        let mut i: usize = 0;
        while i < self.body.len()
            invariant
                i <= self.body.len(),
                s@ == header + body_text(self.body.deep_view().take(i as int)),
            decreases self.body.len() - i,
        {
            let ghost prefix = s@;
            s.append("    ");
            let line = self.body[i].to_code();
            s.append(line.as_str());
            s.append("\n");
            proof {
                let dv = self.body.deep_view();
                assert(dv.take(i + 1).drop_last() =~= dv.take(i as int));
                assert(dv.take(i + 1).last() == dv[i as int]);
                assert(dv[i as int] == self.body@[i as int]@);
                assert(s@ =~= header + body_text(dv.take(i + 1)));
            }
            i = i + 1;
        }
        proof {
            assert(self.body.deep_view().take(self.body@.len() as int) =~= self.body.deep_view());
            assert(s@ =~= program_text(self@));
        }
        s
    }
}

/// Joins names with a comma and a space between each pair.
fn join_names(names: &Vec<String>) -> (s: String)
    ensures
        s@ == names_joined(names.deep_view()),
{
    let mut s = String::new();
    let mut i: usize = 0;
    let ghost dv = names.deep_view();
    while i < names.len()
        invariant
            i <= names.len(),
            dv == names.deep_view(),
            i == 0 ==> s@ == Seq::<char>::empty(),
            i > 0 ==> names_joined(dv) == s@ + joined_tail(dv, i as int),
        decreases names.len() - i,
    {
        proof {
            lemma_names_joined_step(dv, i as int);
            assert(dv[i as int] == names@[i as int]@);
        }
        let ghost s_before = s@;
        if i > 0 {
            s.append(", ");
        }
        s.append(names[i].as_str());
        proof {
            if i == 0 {
                assert(dv.skip(0) =~= dv);
                assert(names_joined(dv) == dv[0] + joined_tail(dv, 1));
                assert(names_joined(dv) =~= s@ + joined_tail(dv, 1));
            } else {
                assert(names_joined(dv) == s_before + (", "@ + names_joined(dv.skip(i as int))));
                assert(names_joined(dv.skip(i as int)) == dv[i as int] + joined_tail(
                    dv,
                    i + 1,
                ));
                assert(names_joined(dv) =~= s@ + joined_tail(dv, i + 1));
            }
        }
        i = i + 1;
    }
    proof {
        if dv.len() == 0 {
            assert(names_joined(dv) =~= s@);
        } else {
            assert(names_joined(dv) =~= s@);
        }
    }
    s
}

/// What remains to be appended after position `i`, seen from the join.
pub open spec fn joined_tail(names: Seq<Seq<char>>, i: int) -> Seq<char> {
    if i < names.len() {
        ", "@ + names_joined(names.skip(i))
    } else {
        Seq::empty()
    }
}

proof fn lemma_names_joined_step(names: Seq<Seq<char>>, i: int)
    requires
        0 <= i < names.len(),
    ensures
        names_joined(names.skip(i)) == names[i] + joined_tail(names, i + 1),
{
    let rest = names.skip(i);
    assert(rest[0] == names[i]);
    if rest.len() == 1 {
        assert(names_joined(rest) == names[i]);
        assert(names[i] + joined_tail(names, i + 1) =~= names[i]);
    } else {
        assert(rest.drop_first() =~= names.skip(i + 1));
        assert(names_joined(rest) == rest[0] + ", "@ + names_joined(names.skip(i + 1)));
        assert(names_joined(rest) =~= names[i] + (", "@ + names_joined(names.skip(i + 1))));
    }
}

} // verus!
