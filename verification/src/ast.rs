//! The tree that a script is parsed into.
//!
//! Each type comes twice: as the value that the parser builds and hands to
//! its caller (`Expr`, `Stmt`, `Block`), and as the mathematical tree that
//! the contracts speak of (`ExprTree`, `StmtTree`, `BlockTree`), which is
//! the view of the former.

use vstd::prelude::*;
use crate::key_defs::ParsedKeyAction;

verus! {

/// A literal as the contracts speak of it.
pub enum ValueTree {
    Bool(bool),
    /// The number as it was written: digits, or digits, a point and digits.
    Number(Seq<u8>),
    /// The text between the quotes.
    String(Seq<u8>),
}

/// The operators that take two operands.
#[derive(Clone, Copy, Debug, PartialEq, Eq, Structural)]
pub enum BinaryOp {
    Add,
    Sub,
    Mul,
    Div,
    Eq,
    Neq,
    GT,
    LT,
    And,
    Or,
}

/// An expression as the contracts speak of it.
pub enum ExprTree {
    Value(ValueTree),
    /// An operator with its left and its right operand.
    Binary(BinaryOp, Box<ExprTree>, Box<ExprTree>),
    Neg(Box<ExprTree>),
    VariableInit(Seq<u8>, Box<ExprTree>),
    VariableAssign(Seq<u8>, Box<ExprTree>),
    FunctionCall(Seq<u8>, Seq<ExprTree>),
    /// The key action that is mapped, and the one it is mapped to.
    KeyMappingInline(ParsedKeyAction, ParsedKeyAction),
    Lambda(BlockTree),
    Variable(Seq<u8>),
}

/// A statement as the contracts speak of it.
pub enum StmtTree {
    Expr(ExprTree),
    If(ExprTree, BlockTree),
    Block(BlockTree),
}

/// A block as the contracts speak of it: its statements in source order.
pub struct BlockTree {
    pub statements: Seq<StmtTree>,
}

/// A literal.
#[derive(Debug, PartialEq, Eq)]
pub enum ValueType {
    Bool(bool),
    /// The number as it was written: digits, or digits, a point and digits.
    Number(Vec<u8>),
    /// The text between the quotes.
    String(Vec<u8>),
}

/// An expression. Every node owns its operands.
#[derive(Debug, PartialEq, Eq)]
pub enum Expr {
    Value(ValueType),
    Add(Box<Expr>, Box<Expr>),
    Sub(Box<Expr>, Box<Expr>),
    Mul(Box<Expr>, Box<Expr>),
    Div(Box<Expr>, Box<Expr>),
    Eq(Box<Expr>, Box<Expr>),
    Neq(Box<Expr>, Box<Expr>),
    GT(Box<Expr>, Box<Expr>),
    LT(Box<Expr>, Box<Expr>),
    And(Box<Expr>, Box<Expr>),
    Or(Box<Expr>, Box<Expr>),
    Neg(Box<Expr>),
    VariableInit(Vec<u8>, Box<Expr>),
    VariableAssign(Vec<u8>, Box<Expr>),
    FunctionCall(Vec<u8>, Vec<Expr>),
    /// The key action that is mapped, and the one it is mapped to.
    KeyMappingInline(ParsedKeyAction, ParsedKeyAction),
    Lambda(Block),
    Variable(Vec<u8>),
}

/// A statement.
#[derive(Debug, PartialEq, Eq)]
pub enum Stmt {
    /// An expression, closed by `;` in the source.
    Expr(Expr),
    /// A condition and the block that runs when it holds.
    If(Expr, Block),
    /// A block that stands where a statement may.
    Block(Block),
}

/// A sequence of statements, in the order in which the source has them,
/// which is the order in which they run.
#[derive(Debug, PartialEq, Eq)]
pub struct Block {
    pub statements: Vec<Stmt>,
}

impl ValueType {
    pub open spec fn tree(self) -> ValueTree {
        match self {
            ValueType::Bool(b) => ValueTree::Bool(b),
            ValueType::Number(text) => ValueTree::Number(text@),
            ValueType::String(text) => ValueTree::String(text@),
        }
    }
}

/// The trees of a sequence of expressions.
pub open spec fn expr_trees(list: Seq<Expr>) -> Seq<ExprTree>
    decreases list,
{
    Seq::new(
        list.len(),
        |i: int|
            if 0 <= i < list.len() {
                list[i].tree()
            } else {
                ExprTree::Value(ValueTree::Bool(false))
            },
    )
}

/// The trees of a sequence of statements.
pub open spec fn stmt_trees(list: Seq<Stmt>) -> Seq<StmtTree>
    decreases list,
{
    Seq::new(
        list.len(),
        |i: int|
            if 0 <= i < list.len() {
                list[i].tree()
            } else {
                StmtTree::Block(BlockTree { statements: Seq::empty() })
            },
    )
}

impl Expr {
    pub open spec fn tree(self) -> ExprTree
        decreases self,
    {
        match self {
            Expr::Value(v) => ExprTree::Value(v.tree()),
            Expr::Add(l, r) => ExprTree::Binary(BinaryOp::Add, Box::new(l.tree()), Box::new(r.tree())),
            Expr::Sub(l, r) => ExprTree::Binary(BinaryOp::Sub, Box::new(l.tree()), Box::new(r.tree())),
            Expr::Mul(l, r) => ExprTree::Binary(BinaryOp::Mul, Box::new(l.tree()), Box::new(r.tree())),
            Expr::Div(l, r) => ExprTree::Binary(BinaryOp::Div, Box::new(l.tree()), Box::new(r.tree())),
            Expr::Eq(l, r) => ExprTree::Binary(BinaryOp::Eq, Box::new(l.tree()), Box::new(r.tree())),
            Expr::Neq(l, r) => ExprTree::Binary(BinaryOp::Neq, Box::new(l.tree()), Box::new(r.tree())),
            Expr::GT(l, r) => ExprTree::Binary(BinaryOp::GT, Box::new(l.tree()), Box::new(r.tree())),
            Expr::LT(l, r) => ExprTree::Binary(BinaryOp::LT, Box::new(l.tree()), Box::new(r.tree())),
            Expr::And(l, r) => ExprTree::Binary(BinaryOp::And, Box::new(l.tree()), Box::new(r.tree())),
            Expr::Or(l, r) => ExprTree::Binary(BinaryOp::Or, Box::new(l.tree()), Box::new(r.tree())),
            Expr::Neg(e) => ExprTree::Neg(Box::new(e.tree())),
            Expr::VariableInit(name, e) => ExprTree::VariableInit(name@, Box::new(e.tree())),
            Expr::VariableAssign(name, e) => ExprTree::VariableAssign(name@, Box::new(e.tree())),
            Expr::FunctionCall(name, args) => ExprTree::FunctionCall(name@, expr_trees(args@)),
            Expr::KeyMappingInline(from, to) => ExprTree::KeyMappingInline(from, to),
            Expr::Lambda(body) => ExprTree::Lambda(body.tree()),
            Expr::Variable(name) => ExprTree::Variable(name@),
        }
    }

    /// The node of the operator `op` over two operands.
    pub fn binary(op: BinaryOp, left: Expr, right: Expr) -> (e: Expr)
        ensures
            e@ == ExprTree::Binary(op, Box::new(left@), Box::new(right@)),
    {
        let l = Box::new(left);
        let r = Box::new(right);
        match op {
            BinaryOp::Add => Expr::Add(l, r),
            BinaryOp::Sub => Expr::Sub(l, r),
            BinaryOp::Mul => Expr::Mul(l, r),
            BinaryOp::Div => Expr::Div(l, r),
            BinaryOp::Eq => Expr::Eq(l, r),
            BinaryOp::Neq => Expr::Neq(l, r),
            BinaryOp::GT => Expr::GT(l, r),
            BinaryOp::LT => Expr::LT(l, r),
            BinaryOp::And => Expr::And(l, r),
            BinaryOp::Or => Expr::Or(l, r),
        }
    }
}

impl Stmt {
    pub open spec fn tree(self) -> StmtTree
        decreases self,
    {
        match self {
            Stmt::Expr(e) => StmtTree::Expr(e.tree()),
            Stmt::If(condition, body) => StmtTree::If(condition.tree(), body.tree()),
            Stmt::Block(body) => StmtTree::Block(body.tree()),
        }
    }
}

impl Block {
    pub open spec fn tree(self) -> BlockTree
        decreases self,
    {
        BlockTree { statements: stmt_trees(self.statements@) }
    }

    /// The block without statements.
    pub fn new() -> (block: Block)
        ensures
            block@.statements == Seq::<StmtTree>::empty(),
    {
        let block = Block { statements: Vec::new() };
        assert(block@.statements =~= Seq::<StmtTree>::empty());
        block
    }
}

impl View for ValueType {
    type V = ValueTree;

    open spec fn view(&self) -> ValueTree {
        self.tree()
    }
}

impl View for Expr {
    type V = ExprTree;

    open spec fn view(&self) -> ExprTree {
        self.tree()
    }
}

impl View for Stmt {
    type V = StmtTree;

    open spec fn view(&self) -> StmtTree {
        self.tree()
    }
}

impl View for Block {
    type V = BlockTree;

    open spec fn view(&self) -> BlockTree {
        self.tree()
    }
}

} // verus!
