use vstd::prelude::*;

use crate::ast::{Ast, AstKind, BinOp, BinOpKind, UniOp, UniOpKind};

verus! {

/// Renders expression trees in reverse-Polish (postfix) notation.
pub struct RpnCompiler;

impl Default for RpnCompiler {
    fn default() -> (r: Self)
        ensures
            r == RpnCompiler,
    {
        RpnCompiler
    }
}

/// The character of a decimal digit `d < 10`.
pub open spec fn digit_char(d: nat) -> char {
    if d == 0 {
        '0'
    } else if d == 1 {
        '1'
    } else if d == 2 {
        '2'
    } else if d == 3 {
        '3'
    } else if d == 4 {
        '4'
    } else if d == 5 {
        '5'
    } else if d == 6 {
        '6'
    } else if d == 7 {
        '7'
    } else if d == 8 {
        '8'
    } else {
        '9'
    }
}

/// The decimal text of `n`, without leading zeros.
pub open spec fn decimal(n: nat) -> Seq<char>
    decreases n,
{
    if n < 10 {
        seq![digit_char(n)]
    } else {
        decimal(n / 10) + seq![digit_char(n % 10)]
    }
}

pub open spec fn uni_symbol(op: UniOpKind) -> Seq<char> {
    match op {
        UniOpKind::Plus => seq!['+'],
        UniOpKind::Minus => seq!['-'],
    }
}

pub open spec fn bin_symbol(op: BinOpKind) -> Seq<char> {
    match op {
        BinOpKind::Add => seq!['+'],
        BinOpKind::Sub => seq!['-'],
        BinOpKind::Multi => seq!['*'],
        BinOpKind::Div => seq!['/'],
    }
}

/// The postfix text of `e`: a number in decimal; a unary operator's symbol
/// directly before its operand; a binary operation as `left right op`,
/// separated by single spaces.
pub open spec fn rpn_text(e: Ast) -> Seq<char>
    decreases e,
{
    match e.value {
        AstKind::Num(n) => decimal(n as nat),
        AstKind::UniOp { op, e: sub } => uni_symbol(op.value) + rpn_text(*sub),
        AstKind::BinOp { op, l, r } => rpn_text(*l) + seq![' '] + rpn_text(*r) + seq![' ']
            + bin_symbol(op.value),
    }
}

/// Compiling depends on the tree alone: equal trees give equal text, so
/// compiling one tree twice gives the same text both times.
pub proof fn lemma_compile_deterministic(a: Ast, b: Ast)
    requires
        a == b,
    ensures
        rpn_text(a) == rpn_text(b),
{
}

/// The text of the decimal digit `d`.
fn digit_str(d: u64) -> (s: &'static str)
    requires
        d < 10,
    ensures
        s@ == seq![digit_char(d as nat)],
{
    if d == 0 {
        proof { reveal_strlit("0"); }
        "0"
    } else if d == 1 {
        proof { reveal_strlit("1"); }
        "1"
    } else if d == 2 {
        proof { reveal_strlit("2"); }
        "2"
    } else if d == 3 {
        proof { reveal_strlit("3"); }
        "3"
    } else if d == 4 {
        proof { reveal_strlit("4"); }
        "4"
    } else if d == 5 {
        proof { reveal_strlit("5"); }
        "5"
    } else if d == 6 {
        proof { reveal_strlit("6"); }
        "6"
    } else if d == 7 {
        proof { reveal_strlit("7"); }
        "7"
    } else if d == 8 {
        proof { reveal_strlit("8"); }
        "8"
    } else {
        proof { reveal_strlit("9"); }
        "9"
    }
}

/// Appends the decimal text of `n` to `buf`.
fn push_decimal(buf: &mut String, n: u64)
    ensures
        final(buf)@ == old(buf)@ + decimal(n as nat),
    decreases n,
{
    if n >= 10 {
        push_decimal(buf, n / 10);
    }
    buf.append(digit_str(n % 10));
    proof {
        if n >= 10 {
            assert(final(buf)@ =~= old(buf)@ + decimal(n as nat));
        }
    }
}

impl RpnCompiler {
    pub fn compile(&mut self, expr: &Ast) -> (r: String)
        ensures
            r@ == rpn_text(*expr),
            *final(self) == *old(self),
    {
        let mut buf = String::new();
        self.compile_inner(expr, &mut buf);
        proof {
            assert(buf@ =~= rpn_text(*expr));
        }
        buf
    }

    fn compile_inner(&mut self, expr: &Ast, buf: &mut String)
        ensures
            final(buf)@ == old(buf)@ + rpn_text(*expr),
            *final(self) == *old(self),
        decreases expr,
    {
        match &expr.value {
            AstKind::Num(n) => push_decimal(buf, *n),
            AstKind::UniOp { op, e } => {
                self.compile_uni_op(op, buf);
                self.compile_inner(e, buf);
                proof {
                    assert(final(buf)@ =~= old(buf)@ + rpn_text(*expr));
                }
            },
            AstKind::BinOp { op, l, r } => {
                self.compile_inner(l, buf);
                proof { reveal_strlit(" "); }
                buf.append(" ");
                self.compile_inner(r, buf);
                buf.append(" ");
                self.compile_bin_op(op, buf);
                proof {
                    assert(final(buf)@ =~= old(buf)@ + rpn_text(*expr));
                }
            },
        }
    }

    fn compile_uni_op(&mut self, op: &UniOp, buf: &mut String)
        ensures
            final(buf)@ == old(buf)@ + uni_symbol(op.value),
            *final(self) == *old(self),
    {
        match op.value {
            UniOpKind::Plus => {
                proof { reveal_strlit("+"); }
                buf.append("+")
            },
            UniOpKind::Minus => {
                proof { reveal_strlit("-"); }
                buf.append("-")
            },
        }
    }

    fn compile_bin_op(&mut self, op: &BinOp, buf: &mut String)
        ensures
            final(buf)@ == old(buf)@ + bin_symbol(op.value),
            *final(self) == *old(self),
    {
        match op.value {
            BinOpKind::Add => {
                proof { reveal_strlit("+"); }
                buf.append("+")
            },
            BinOpKind::Sub => {
                proof { reveal_strlit("-"); }
                buf.append("-")
            },
            BinOpKind::Multi => {
                proof { reveal_strlit("*"); }
                buf.append("*")
            },
            BinOpKind::Div => {
                proof { reveal_strlit("/"); }
                buf.append("/")
            },
        }
    }
}

} // verus!
