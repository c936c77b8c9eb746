use vstd::prelude::*;

use crate::ast::{Ast, AstKind, BinOp, BinOpKind, UniOp, UniOpKind};
use crate::lexer::{Token, TokenKind};
use crate::loc::Annotation;

verus! {

#[derive(Debug, Clone, Copy, PartialEq, Eq, Hash)]
pub enum ParseError {
    /// A token that is not expected here.
    UnexpectedToken(Token),
    /// A token that cannot start an expression.
    NotExpression(Token),
    /// A token that is not an operator where one was expected.
    NotOperator(Token),
    /// An opening parenthesis whose closing one never came.
    UnclosedOpenParen(Token),
    /// A token left over where the expression (or group) should have ended.
    RedundantExpression(Token),
    /// The tokens ran out in the middle of an expression.
    Eof,
}

/// The two levels of left-associative binary operators.
#[derive(Debug, Clone, Copy, PartialEq, Eq)]
pub enum Prec {
    /// `+` and `-`, which bind loosest.
    Additive,
    /// `*` and `/`, which bind tighter.
    Multiplicative,
}

// ---------------------------------------------------------------------------
// The grammar, as spec functions over the token sequence.
//
//   Expr  := Term (('+' | '-') Term)*
//   Term  := Unary (('*' | '/') Unary)*
//   Unary := ('+' | '-')? Atom
//   Atom  := Number | '(' Expr ')'
//
// Each function parses from position `pos` and returns the tree with the
// position after it. On success the position always advances; the guards
// `pos < p <= toks.len()` below only make that visible to the termination
// check.

/// A parse result with the position where parsing stopped.
pub type Parsed = Result<(Ast, int), ParseError>;

pub open spec fn chain_rank(level: Prec) -> int {
    match level {
        Prec::Additive => 4,
        Prec::Multiplicative => 2,
    }
}

/// The binary operator of `level` that token `pos` stands for, if any.
pub open spec fn binop_at(toks: Seq<Token>, level: Prec, pos: int) -> Option<BinOp> {
    if 0 <= pos < toks.len() {
        let loc = toks[pos].loc;
        match (level, toks[pos].value) {
            (Prec::Additive, TokenKind::Plus) => Some(Annotation { value: BinOpKind::Add, loc }),
            (Prec::Additive, TokenKind::Minus) => Some(Annotation { value: BinOpKind::Sub, loc }),
            (Prec::Multiplicative, TokenKind::Asterisk) => Some(
                Annotation { value: BinOpKind::Multi, loc },
            ),
            (Prec::Multiplicative, TokenKind::Slash) => Some(
                Annotation { value: BinOpKind::Div, loc },
            ),
            _ => None,
        }
    } else {
        None
    }
}

/// The unary operator that token `pos` stands for, if any.
pub open spec fn uniop_at(toks: Seq<Token>, pos: int) -> Option<UniOp> {
    if 0 <= pos < toks.len() {
        let loc = toks[pos].loc;
        match toks[pos].value {
            TokenKind::Plus => Some(Annotation { value: UniOpKind::Plus, loc }),
            TokenKind::Minus => Some(Annotation { value: UniOpKind::Minus, loc }),
            _ => None,
        }
    } else {
        None
    }
}

/// A binary node, spanning both of its operands.
pub open spec fn bin_node(op: BinOp, l: Ast, r: Ast) -> Ast {
    Annotation {
        value: AstKind::BinOp { op, l: Box::new(l), r: Box::new(r) },
        loc: l.loc.spec_merge(r.loc),
    }
}

/// A unary node, spanning its operator and its operand.
pub open spec fn uni_node(op: UniOp, e: Ast) -> Ast {
    Annotation { value: AstKind::UniOp { op, e: Box::new(e) }, loc: op.loc.spec_merge(e.loc) }
}

/// A chain of `level` operators: one operand, then its tail.
pub open spec fn chain_at(toks: Seq<Token>, level: Prec, pos: int) -> Parsed
    decreases toks.len() - pos, chain_rank(level) + 1,
{
    match operand_at(toks, level, pos) {
        Ok((e, p)) => if pos < p <= toks.len() {
            tail_at(toks, level, e, p)
        } else {
            Ok((e, p))
        },
        Err(err) => Err(err),
    }
}

/// The operands of a `level` chain: the next tighter level.
pub open spec fn operand_at(toks: Seq<Token>, level: Prec, pos: int) -> Parsed
    decreases toks.len() - pos, chain_rank(level),
{
    match level {
        Prec::Additive => chain_at(toks, Prec::Multiplicative, pos),
        Prec::Multiplicative => unary_at(toks, pos),
    }
}

/// The rest of a `level` chain after the tree `acc` built so far: each
/// operator and operand wraps `acc` from the left.
pub open spec fn tail_at(toks: Seq<Token>, level: Prec, acc: Ast, pos: int) -> Parsed
    decreases toks.len() - pos, 0int,
{
    match binop_at(toks, level, pos) {
        Some(op) => match operand_at(toks, level, pos + 1) {
            Ok((r, p)) => {
                let e = bin_node(op, acc, r);
                if pos < p <= toks.len() {
                    tail_at(toks, level, e, p)
                } else {
                    Ok((e, p))
                }
            },
            Err(err) => Err(err),
        },
        None => Ok((acc, pos)),
    }
}

/// An optional sign, then an atom.
pub open spec fn unary_at(toks: Seq<Token>, pos: int) -> Parsed
    decreases toks.len() - pos, 1int,
{
    match uniop_at(toks, pos) {
        Some(op) => match atom_at(toks, pos + 1) {
            Ok((e, p)) => Ok((uni_node(op, e), p)),
            Err(err) => Err(err),
        },
        None => atom_at(toks, pos),
    }
}

/// A number, or an expression in parentheses.
pub open spec fn atom_at(toks: Seq<Token>, pos: int) -> Parsed
    decreases toks.len() - pos, 0int,
{
    if 0 <= pos < toks.len() {
        let tok = toks[pos];
        match tok.value {
            TokenKind::Number(n) => Ok((Annotation { value: AstKind::Num(n), loc: tok.loc }, pos + 1)),
            TokenKind::LParen => match chain_at(toks, Prec::Additive, pos + 1) {
                Ok((e, p)) => if 0 <= p < toks.len() {
                    if toks[p].value == TokenKind::RParen {
                        Ok((e, p + 1))
                    } else {
                        Err(ParseError::RedundantExpression(toks[p]))
                    }
                } else {
                    Err(ParseError::UnclosedOpenParen(tok))
                },
                Err(err) => Err(err),
            },
            _ => Err(ParseError::NotExpression(tok)),
        }
    } else {
        Err(ParseError::Eof)
    }
}

/// What `parse` returns for the tokens `toks`: one expression that uses
/// them all.
pub open spec fn parse_spec(toks: Seq<Token>) -> Result<Ast, ParseError> {
    match chain_at(toks, Prec::Additive, 0) {
        Ok((e, p)) => if 0 <= p < toks.len() {
            Err(ParseError::RedundantExpression(toks[p]))
        } else {
            Ok(e)
        },
        Err(err) => Err(err),
    }
}

/// An executable parse result seen as a `Parsed`.
pub open spec fn lifted(r: Result<(Ast, usize), ParseError>) -> Parsed {
    match r {
        Ok((e, p)) => Ok((e, p as int)),
        Err(err) => Err(err),
    }
}

/// On success, parsing from `pos` consumed at least one token.
pub open spec fn advances(r: Result<(Ast, usize), ParseError>, pos: usize, len: int) -> bool {
    match r {
        Ok((_, p)) => pos < p <= len,
        Err(_) => true,
    }
}

// ---------------------------------------------------------------------------
// The executable parser.

/// Parses all of `tokens` as one expression.
pub fn parse(tokens: Vec<Token>) -> (r: Result<Ast, ParseError>)
    ensures
        r == parse_spec(tokens@),
{
    let (ret, p) = match parse_expr(&tokens, 0) {
        Ok(x) => x,
        Err(err) => return Err(err),
    };
    if p < tokens.len() {
        Err(ParseError::RedundantExpression(token_at(&tokens, p)))
    } else {
        Ok(ret)
    }
}

fn token_at(tokens: &Vec<Token>, i: usize) -> (t: Token)
    requires
        i < tokens@.len(),
    ensures
        t == tokens@[i as int],
{
    Annotation { value: tokens[i].value, loc: tokens[i].loc }
}

fn parse_expr(tokens: &Vec<Token>, pos: usize) -> (r: Result<(Ast, usize), ParseError>)
    requires
        pos <= tokens@.len(),
    ensures
        lifted(r) == chain_at(tokens@, Prec::Additive, pos as int),
        advances(r, pos, tokens@.len() as int),
    decreases tokens@.len() - pos, 9int,
{
    parse_expr3(tokens, pos)
}

/// Sums and differences.
fn parse_expr3(tokens: &Vec<Token>, pos: usize) -> (r: Result<(Ast, usize), ParseError>)
    requires
        pos <= tokens@.len(),
    ensures
        lifted(r) == chain_at(tokens@, Prec::Additive, pos as int),
        advances(r, pos, tokens@.len() as int),
    decreases tokens@.len() - pos, 8int,
{
    parse_left_binop(tokens, Prec::Additive, pos)
}

/// Products and quotients.
fn parse_expr2(tokens: &Vec<Token>, pos: usize) -> (r: Result<(Ast, usize), ParseError>)
    requires
        pos <= tokens@.len(),
    ensures
        lifted(r) == chain_at(tokens@, Prec::Multiplicative, pos as int),
        advances(r, pos, tokens@.len() as int),
    decreases tokens@.len() - pos, 5int,
{
    parse_left_binop(tokens, Prec::Multiplicative, pos)
}

/// An optional sign, then an atom.
fn parse_expr1(tokens: &Vec<Token>, pos: usize) -> (r: Result<(Ast, usize), ParseError>)
    requires
        pos <= tokens@.len(),
    ensures
        lifted(r) == unary_at(tokens@, pos as int),
        advances(r, pos, tokens@.len() as int),
    decreases tokens@.len() - pos, 2int,
{
    let op = if pos < tokens.len() {
        match tokens[pos].value {
            TokenKind::Plus => Some(UniOp::plus(tokens[pos].loc)),
            TokenKind::Minus => Some(UniOp::minus(tokens[pos].loc)),
            _ => None,
        }
    } else {
        None
    };
    match op {
        Some(op) => {
            let (e, p) = match parse_atom(tokens, pos + 1) {
                Ok(x) => x,
                Err(err) => return Err(err),
            };
            let loc = op.loc.merge(&e.loc);
            Ok((Ast::uni_op(op, e, loc), p))
        },
        None => parse_atom(tokens, pos),
    }
}

fn parse_atom(tokens: &Vec<Token>, pos: usize) -> (r: Result<(Ast, usize), ParseError>)
    requires
        pos <= tokens@.len(),
    ensures
        lifted(r) == atom_at(tokens@, pos as int),
        advances(r, pos, tokens@.len() as int),
    decreases tokens@.len() - pos, 1int,
{
    if pos >= tokens.len() {
        return Err(ParseError::Eof);
    }
    let tok = token_at(tokens, pos);
    match tok.value {
        TokenKind::Number(n) => Ok((Ast::num(n, tok.loc), pos + 1)),
        TokenKind::LParen => {
            let (e, p) = match parse_expr(tokens, pos + 1) {
                Ok(x) => x,
                Err(err) => return Err(err),
            };
            if p < tokens.len() {
                match tokens[p].value {
                    TokenKind::RParen => Ok((e, p + 1)),
                    _ => Err(ParseError::RedundantExpression(token_at(tokens, p))),
                }
            } else {
                Err(ParseError::UnclosedOpenParen(tok))
            }
        },
        _ => Err(ParseError::NotExpression(tok)),
    }
}

/// The operator of `level` at `pos`, if the token there is one.
fn parse_binop(tokens: &Vec<Token>, level: Prec, pos: usize) -> (r: Option<BinOp>)
    requires
        pos < tokens@.len(),
    ensures
        r == binop_at(tokens@, level, pos as int),
{
    let loc = tokens[pos].loc;
    match (level, tokens[pos].value) {
        (Prec::Additive, TokenKind::Plus) => Some(BinOp::add(loc)),
        (Prec::Additive, TokenKind::Minus) => Some(BinOp::sub(loc)),
        (Prec::Multiplicative, TokenKind::Asterisk) => Some(BinOp::multi(loc)),
        (Prec::Multiplicative, TokenKind::Slash) => Some(BinOp::div(loc)),
        _ => None,
    }
}

/// One operand of a `level` chain.
fn parse_operand(tokens: &Vec<Token>, level: Prec, pos: usize) -> (r: Result<
    (Ast, usize),
    ParseError,
>)
    requires
        pos <= tokens@.len(),
    ensures
        lifted(r) == operand_at(tokens@, level, pos as int),
        advances(r, pos, tokens@.len() as int),
    decreases tokens@.len() - pos, if level == Prec::Additive { 6int } else { 3int },
{
    match level {
        Prec::Additive => parse_expr2(tokens, pos),
        Prec::Multiplicative => parse_expr1(tokens, pos),
    }
}

/// Parses a left-associative chain of `level` operators: each operator met
/// wraps the tree built so far as its left operand.
fn parse_left_binop(tokens: &Vec<Token>, level: Prec, pos: usize) -> (r: Result<
    (Ast, usize),
    ParseError,
>)
    requires
        pos <= tokens@.len(),
    ensures
        lifted(r) == chain_at(tokens@, level, pos as int),
        advances(r, pos, tokens@.len() as int),
    decreases tokens@.len() - pos, if level == Prec::Additive { 7int } else { 4int },
{
    let ghost toks = tokens@;
    let (mut e, mut p) = match parse_operand(tokens, level, pos) {
        Ok(x) => x,
        Err(err) => return Err(err),
    };
    loop
        invariant
            toks == tokens@,
            pos < p <= toks.len(),
            tail_at(toks, level, e, p as int) == chain_at(toks, level, pos as int),
        decreases toks.len() - p,
    {
        if p >= tokens.len() {
            return Ok((e, p));
        }
        let op = match parse_binop(tokens, level, p) {
            Some(op) => op,
            None => return Ok((e, p)),
        };
        let (r, q) = match parse_operand(tokens, level, p + 1) {
            Ok(x) => x,
            Err(err) => return Err(err),
        };
        let loc = e.loc.merge(&r.loc);
        e = Ast::bin_op(op, e, r, loc);
        p = q;
    }
}

} // verus!
