use vstd::prelude::*;

use crate::ast::{Ast, AstKind, BinOp, BinOpKind, UniOp, UniOpKind, division_free};
use crate::loc::Annotation;

verus! {

/// Evaluates expression trees to 64-bit signed integers.
///
/// Arithmetic wraps around in two's complement: a number literal above
/// `i64::MAX` reads as its two's-complement value, and `+ - *`, negation and
/// `i64::MIN / -1` wrap. Division truncates toward zero. Division by zero is
/// the one failure.
pub struct Interpreter;

impl Default for Interpreter {
    fn default() -> (r: Self)
        ensures
            r == Interpreter,
    {
        Interpreter
    }
}

#[derive(Debug, Clone, Copy, PartialEq, Eq, Hash)]
pub enum InterpreterErrorKind {
    /// The right operand of a division evaluated to zero.
    DivisionByZero,
}

pub type InterpreterError = Annotation<InterpreterErrorKind>;

pub open spec fn abs(x: int) -> int {
    if x < 0 {
        -x
    } else {
        x
    }
}

/// The quotient of `a` by `b`, truncated toward zero.
pub open spec fn trunc_quot(a: int, b: int) -> int {
    let q = abs(a) / abs(b);
    if (a < 0) == (b < 0) {
        q
    } else {
        -q
    }
}

/// The truncated quotient as an `i64`. The one quotient that does not fit is
/// `2^63` (from `i64::MIN / -1`), which wraps to `i64::MIN`.
pub open spec fn wrapping_quot(a: i64, b: i64) -> i64 {
    let q = trunc_quot(a as int, b as int);
    if q > i64::MAX {
        i64::MIN
    } else {
        q as i64
    }
}

/// The value of a unary operator applied to `n`.
pub open spec fn uni_value(op: UniOpKind, n: i64) -> i64 {
    match op {
        UniOpKind::Plus => n,
        UniOpKind::Minus => vstd::wrapping::i64_specs::wrapping_sub(0, n),
    }
}

/// The value of a binary operator applied to `l` and `r`; `None` for a
/// division by zero.
pub open spec fn bin_value(op: BinOpKind, l: i64, r: i64) -> Option<i64> {
    match op {
        BinOpKind::Add => Some(vstd::wrapping::i64_specs::wrapping_add(l, r)),
        BinOpKind::Sub => Some(vstd::wrapping::i64_specs::wrapping_sub(l, r)),
        BinOpKind::Multi => Some(vstd::wrapping::i64_specs::wrapping_mul(l, r)),
        BinOpKind::Div => if r == 0 {
            None
        } else {
            Some(wrapping_quot(l, r))
        },
    }
}

/// What evaluating `e` gives: operands are evaluated left to right, and the
/// first division by zero fails with the span of its whole division node.
pub open spec fn eval_spec(e: Ast) -> Result<i64, InterpreterError>
    decreases e,
{
    match e.value {
        AstKind::Num(n) => Ok(n as i64),
        AstKind::UniOp { op, e: sub } => match eval_spec(*sub) {
            Ok(v) => Ok(uni_value(op.value, v)),
            Err(err) => Err(err),
        },
        AstKind::BinOp { op, l, r } => match eval_spec(*l) {
            Ok(a) => match eval_spec(*r) {
                Ok(b) => match bin_value(op.value, a, b) {
                    Some(v) => Ok(v),
                    None => Err(Annotation { value: InterpreterErrorKind::DivisionByZero, loc: e.loc }),
                },
                Err(err) => Err(err),
            },
            Err(err) => Err(err),
        },
    }
}

/// Evaluation fails only at a division: an expression without one always
/// has a value.
pub proof fn lemma_division_free_never_fails(e: Ast)
    requires
        division_free(e),
    ensures
        eval_spec(e) is Ok,
    decreases e,
{
    match e.value {
        AstKind::Num(_) => {},
        AstKind::UniOp { e: sub, .. } => {
            lemma_division_free_never_fails(*sub);
        },
        AstKind::BinOp { l, r, .. } => {
            lemma_division_free_never_fails(*l);
            lemma_division_free_never_fails(*r);
        },
    }
}

impl Interpreter {
    pub fn eval(&mut self, expr: &Ast) -> (r: Result<i64, InterpreterError>)
        ensures
            r == eval_spec(*expr),
            *final(self) == *old(self),
        decreases expr,
    {
        match &expr.value {
            AstKind::Num(n) => Ok(*n as i64),
            AstKind::UniOp { op, e } => {
                let v = match self.eval(e) {
                    Ok(v) => v,
                    Err(err) => return Err(err),
                };
                Ok(self.eval_uni_op(op, v))
            },
            AstKind::BinOp { op, l, r } => {
                let a = match self.eval(l) {
                    Ok(v) => v,
                    Err(err) => return Err(err),
                };
                let b = match self.eval(r) {
                    Ok(v) => v,
                    Err(err) => return Err(err),
                };
                match self.eval_bin_op(op, a, b) {
                    Ok(v) => Ok(v),
                    Err(kind) => Err(InterpreterError::new(kind, expr.loc)),
                }
            },
        }
    }

    fn eval_uni_op(&mut self, op: &UniOp, n: i64) -> (r: i64)
        ensures
            r == uni_value(op.value, n),
            *final(self) == *old(self),
    {
        match op.value {
            UniOpKind::Plus => n,
            UniOpKind::Minus => 0i64.wrapping_sub(n),
        }
    }

    fn eval_bin_op(&mut self, op: &BinOp, l: i64, r: i64) -> (res: Result<i64, InterpreterErrorKind>)
        ensures
            match bin_value(op.value, l, r) {
                Some(v) => res == Ok::<i64, InterpreterErrorKind>(v),
                None => res == Err::<i64, InterpreterErrorKind>(
                    InterpreterErrorKind::DivisionByZero,
                ),
            },
            *final(self) == *old(self),
    {
        match op.value {
            BinOpKind::Add => Ok(l.wrapping_add(r)),
            BinOpKind::Sub => Ok(l.wrapping_sub(r)),
            BinOpKind::Multi => Ok(l.wrapping_mul(r)),
            BinOpKind::Div => {
                if r == 0 {
                    Err(InterpreterErrorKind::DivisionByZero)
                } else {
                    proof {
                        let x = abs(l as int);
                        let d = abs(r as int);
                        assert(0 <= x / d <= x) by (nonlinear_arith)
                            requires
                                x >= 0,
                                d >= 1,
                        ;
                    }
                    match l.checked_div(r) {
                        Some(q) => Ok(q),
                        None => Ok(i64::MIN),
                    }
                }
            },
        }
    }
}

} // verus!
