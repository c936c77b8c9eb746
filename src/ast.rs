use vstd::prelude::*;

use crate::loc::{Annotation, Loc};

verus! {

#[derive(Debug, PartialEq, Eq, Hash)]
pub enum AstKind {
    /// A number literal.
    Num(u64),
    /// A unary operator applied to a single operand.
    UniOp { op: UniOp, e: Box<Ast> },
    /// A binary operator applied to two operands.
    BinOp { op: BinOp, l: Box<Ast>, r: Box<Ast> },
}

/// An expression tree; each node carries the span of its source text.
pub type Ast = Annotation<AstKind>;

impl Annotation<AstKind> {
    pub fn num(n: u64, loc: Loc) -> (r: Self)
        ensures
            r == (Annotation { value: AstKind::Num(n), loc }),
    {
        Self::new(AstKind::Num(n), loc)
    }

    pub fn uni_op(op: UniOp, e: Ast, loc: Loc) -> (r: Self)
        ensures
            r == (Annotation { value: AstKind::UniOp { op, e: Box::new(e) }, loc }),
    {
        Self::new(AstKind::UniOp { op, e: Box::new(e) }, loc)
    }

    pub fn bin_op(op: BinOp, l: Ast, r: Ast, loc: Loc) -> (res: Self)
        ensures
            res == (Annotation {
                value: AstKind::BinOp { op, l: Box::new(l), r: Box::new(r) },
                loc,
            }),
    {
        Self::new(AstKind::BinOp { op, l: Box::new(l), r: Box::new(r) }, loc)
    }
}

#[derive(Debug, Clone, Copy, PartialEq, Eq, Hash)]
pub enum UniOpKind {
    /// Unary plus: the operand unchanged.
    Plus,
    /// Negation.
    Minus,
}

pub type UniOp = Annotation<UniOpKind>;

impl Annotation<UniOpKind> {
    pub fn plus(loc: Loc) -> (r: Self)
        ensures
            r == (Annotation { value: UniOpKind::Plus, loc }),
    {
        Self::new(UniOpKind::Plus, loc)
    }

    pub fn minus(loc: Loc) -> (r: Self)
        ensures
            r == (Annotation { value: UniOpKind::Minus, loc }),
    {
        Self::new(UniOpKind::Minus, loc)
    }
}

#[derive(Debug, Clone, Copy, PartialEq, Eq, Hash)]
pub enum BinOpKind {
    /// Addition.
    Add,
    /// Subtraction.
    Sub,
    /// Multiplication.
    Multi,
    /// Division, truncating toward zero.
    Div,
}

pub type BinOp = Annotation<BinOpKind>;

impl Annotation<BinOpKind> {
    pub fn add(loc: Loc) -> (r: Self)
        ensures
            r == (Annotation { value: BinOpKind::Add, loc }),
    {
        Self::new(BinOpKind::Add, loc)
    }

    pub fn sub(loc: Loc) -> (r: Self)
        ensures
            r == (Annotation { value: BinOpKind::Sub, loc }),
    {
        Self::new(BinOpKind::Sub, loc)
    }

    pub fn multi(loc: Loc) -> (r: Self)
        ensures
            r == (Annotation { value: BinOpKind::Multi, loc }),
    {
        Self::new(BinOpKind::Multi, loc)
    }

    pub fn div(loc: Loc) -> (r: Self)
        ensures
            r == (Annotation { value: BinOpKind::Div, loc }),
    {
        Self::new(BinOpKind::Div, loc)
    }
}

/// The expression contains no division.
pub open spec fn division_free(e: Ast) -> bool
    decreases e,
{
    match e.value {
        AstKind::Num(_) => true,
        AstKind::UniOp { e: sub, .. } => division_free(*sub),
        AstKind::BinOp { op, l, r } => op.value != BinOpKind::Div && division_free(*l)
            && division_free(*r),
    }
}

} // verus!
