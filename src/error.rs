use vstd::prelude::*;
use vstd::string::StringSliceAdditionalSpecFns;

use crate::ast::{Ast, AstKind};
use crate::lexer::{
    LexError, Token, digits_end, lemma_digits_end, lemma_spaces_end, lex, lex_from, lex_spec,
    spaces_end, number_token,
};
use crate::loc::{Annotation, Loc};
use crate::parser::{
    ParseError, Parsed, Prec, atom_at, chain_at, chain_rank, operand_at, parse, parse_spec,
    tail_at, unary_at,
};

verus! {

/// A failure of either stage of reading source text.
#[derive(Debug, Clone, Copy, PartialEq, Eq, Hash)]
pub enum Error {
    Lexer(LexError),
    Parser(ParseError),
}

/// What `parse_source` returns for the source bytes `s`.
pub open spec fn parse_source_spec(s: Seq<u8>) -> Result<Ast, Error> {
    match lex_spec(s) {
        Ok(toks) => match parse_spec(toks) {
            Ok(e) => Ok(e),
            Err(err) => Err(Error::Parser(err)),
        },
        Err(err) => Err(Error::Lexer(err)),
    }
}

/// Lexes and parses `input` as one expression.
pub fn parse_source(input: &str) -> (r: Result<Ast, Error>)
    ensures
        r == parse_source_spec(input.spec_bytes()),
{
    let tokens = match lex(input) {
        Ok(tokens) => tokens,
        Err(err) => return Err(Error::Lexer(err)),
    };
    match parse(tokens) {
        Ok(e) => Ok(e),
        Err(err) => Err(Error::Parser(err)),
    }
}

impl std::str::FromStr for Annotation<AstKind> {
    type Err = Error;

    fn from_str(s: &str) -> Result<Self, Self::Err> {
        parse_source(s)
    }
}

impl Error {
    /// The span a diagnostic highlights in a source of `len` bytes: the
    /// offending token, everything from a redundant token on, or the one
    /// position past the end for a premature end of input.
    pub open spec fn spec_diagnostic_loc(self, len: int) -> Loc {
        match self {
            Error::Lexer(e) => e.loc,
            Error::Parser(ParseError::UnexpectedToken(t)) => t.loc,
            Error::Parser(ParseError::NotExpression(t)) => t.loc,
            Error::Parser(ParseError::NotOperator(t)) => t.loc,
            Error::Parser(ParseError::UnclosedOpenParen(t)) => t.loc,
            Error::Parser(ParseError::RedundantExpression(t)) => Loc(t.loc.0, len as usize),
            Error::Parser(ParseError::Eof) => Loc(len as usize, (len + 1) as usize),
        }
    }

    pub fn diagnostic_loc(&self, input: &str) -> (r: Loc)
        requires
            input.spec_bytes().len() < usize::MAX,
        ensures
            r == self.spec_diagnostic_loc(input.spec_bytes().len() as int),
    {
        let len = input.len();
        match self {
            Error::Lexer(e) => e.loc,
            Error::Parser(ParseError::UnexpectedToken(t)) => t.loc,
            Error::Parser(ParseError::NotExpression(t)) => t.loc,
            Error::Parser(ParseError::NotOperator(t)) => t.loc,
            Error::Parser(ParseError::UnclosedOpenParen(t)) => t.loc,
            Error::Parser(ParseError::RedundantExpression(t)) => Loc(t.loc.0, len),
            Error::Parser(ParseError::Eof) => Loc(len, len + 1),
        }
    }
}

/// The line under the source text that marks `loc`: a space for each byte
/// before it, then a caret for each byte in it.
pub open spec fn caret_text(loc: Loc) -> Seq<char> {
    Seq::new(loc.0 as nat, |i: int| ' ') + Seq::new((loc.1 - loc.0) as nat, |i: int| '^')
}

pub fn caret_line(loc: &Loc) -> (r: String)
    requires
        loc.0 <= loc.1,
    ensures
        r@ == caret_text(*loc),
{
    let mut buf = String::new();
    let mut i: usize = 0;
    while i < loc.0
        invariant
            i <= loc.0,
            buf@ =~= Seq::new(i as nat, |k: int| ' '),
        decreases loc.0 - i,
    {
        proof {
            reveal_strlit(" ");
        }
        buf.append(" ");
        i += 1;
    }
    let mut j: usize = 0;
    while j < loc.1 - loc.0
        invariant
            loc.0 <= loc.1,
            j <= loc.1 - loc.0,
            buf@ =~= Seq::new(loc.0 as nat, |k: int| ' ') + Seq::new(j as nat, |k: int| '^'),
        decreases loc.1 - loc.0 - j,
    {
        proof {
            reveal_strlit("^");
        }
        buf.append("^");
        j += 1;
    }
    buf
}

// ---------------------------------------------------------------------------
// Every span an error carries lies inside the source.

/// The span carried by a parse error, if it carries one, lies in `[0, len]`.
pub open spec fn parse_error_within(err: ParseError, len: int) -> bool {
    match err {
        ParseError::UnexpectedToken(t) => t.loc.within(len),
        ParseError::NotExpression(t) => t.loc.within(len),
        ParseError::NotOperator(t) => t.loc.within(len),
        ParseError::UnclosedOpenParen(t) => t.loc.within(len),
        ParseError::RedundantExpression(t) => t.loc.within(len),
        ParseError::Eof => true,
    }
}

/// The span carried by an error, if it carries one, lies in `[0, len]`.
pub open spec fn error_within(err: Error, len: int) -> bool {
    match err {
        Error::Lexer(e) => e.loc.within(len),
        Error::Parser(e) => parse_error_within(e, len),
    }
}

pub open spec fn tokens_within(toks: Seq<Token>, len: int) -> bool {
    forall|i: int| 0 <= i < toks.len() ==> (#[trigger] toks[i]).loc.within(len)
}

pub open spec fn parsed_within(r: Parsed, len: int) -> bool {
    match r {
        Ok(_) => true,
        Err(err) => parse_error_within(err, len),
    }
}

proof fn lemma_lex_from_within(s: Seq<u8>, pos: int)
    requires
        0 <= pos <= s.len(),
        s.len() <= usize::MAX,
    ensures
        match lex_from(s, pos) {
            Ok(toks) => tokens_within(toks, s.len() as int),
            Err(e) => e.loc.within(s.len() as int),
        },
    decreases s.len() - pos,
{
    if pos < s.len() {
        lemma_digits_end(s, pos);
        lemma_spaces_end(s, pos);
        let end = digits_end(s, pos);
        if crate::lexer::is_digit(s[pos]) {
            lemma_lex_from_within(s, end);
            if let Ok(t) = number_token(s, pos) {
                if let Ok(rest) = lex_from(s, end) {
                    assert(tokens_within(seq![t] + rest, s.len() as int)) by {
                        assert forall|i: int| 0 <= i < (seq![t] + rest).len() implies (#[trigger] (
                        seq![t] + rest)[i]).loc.within(s.len() as int) by {
                            if i > 0 {
                                assert((seq![t] + rest)[i] == rest[i - 1]);
                            }
                        }
                    }
                }
            }
        } else if crate::lexer::symbol_kind(s[pos]) is Some {
            lemma_lex_from_within(s, pos + 1);
            if let Ok(rest) = lex_from(s, pos + 1) {
                let t = Annotation {
                    value: crate::lexer::symbol_kind(s[pos])->Some_0,
                    loc: Loc(pos as usize, (pos + 1) as usize),
                };
                assert(tokens_within(seq![t] + rest, s.len() as int)) by {
                    assert forall|i: int| 0 <= i < (seq![t] + rest).len() implies (#[trigger] (seq![t]
                        + rest)[i]).loc.within(s.len() as int) by {
                        if i > 0 {
                            assert((seq![t] + rest)[i] == rest[i - 1]);
                        }
                    }
                }
            }
        } else if crate::lexer::is_space(s[pos]) {
            lemma_lex_from_within(s, spaces_end(s, pos));
        }
    }
}

proof fn lemma_chain_within(toks: Seq<Token>, level: Prec, pos: int, len: int)
    requires
        tokens_within(toks, len),
    ensures
        parsed_within(chain_at(toks, level, pos), len),
    decreases toks.len() - pos, chain_rank(level) + 1,
{
    lemma_operand_within(toks, level, pos, len);
    if let Ok((e, p)) = operand_at(toks, level, pos) {
        if pos < p <= toks.len() {
            lemma_tail_within(toks, level, e, p, len);
        }
    }
}

proof fn lemma_operand_within(toks: Seq<Token>, level: Prec, pos: int, len: int)
    requires
        tokens_within(toks, len),
    ensures
        parsed_within(operand_at(toks, level, pos), len),
    decreases toks.len() - pos, chain_rank(level),
{
    match level {
        Prec::Additive => lemma_chain_within(toks, Prec::Multiplicative, pos, len),
        Prec::Multiplicative => lemma_unary_within(toks, pos, len),
    }
}

proof fn lemma_tail_within(toks: Seq<Token>, level: Prec, acc: Ast, pos: int, len: int)
    requires
        tokens_within(toks, len),
    ensures
        parsed_within(tail_at(toks, level, acc, pos), len),
    decreases toks.len() - pos, 0int,
{
    if crate::parser::binop_at(toks, level, pos) is Some {
        let op = crate::parser::binop_at(toks, level, pos)->Some_0;
        lemma_operand_within(toks, level, pos + 1, len);
        if let Ok((r, p)) = operand_at(toks, level, pos + 1) {
            if pos < p <= toks.len() {
                lemma_tail_within(toks, level, crate::parser::bin_node(op, acc, r), p, len);
            }
        }
    }
}

proof fn lemma_unary_within(toks: Seq<Token>, pos: int, len: int)
    requires
        tokens_within(toks, len),
    ensures
        parsed_within(unary_at(toks, pos), len),
    decreases toks.len() - pos, 1int,
{
    if crate::parser::uniop_at(toks, pos) is Some {
        lemma_atom_within(toks, pos + 1, len);
    } else {
        lemma_atom_within(toks, pos, len);
    }
}

proof fn lemma_atom_within(toks: Seq<Token>, pos: int, len: int)
    requires
        tokens_within(toks, len),
    ensures
        parsed_within(atom_at(toks, pos), len),
    decreases toks.len() - pos, 0int,
{
    if 0 <= pos < toks.len() {
        assert(toks[pos].loc.within(len));
        lemma_chain_within(toks, Prec::Additive, pos + 1, len);
        if let Ok((e, p)) = chain_at(toks, Prec::Additive, pos + 1) {
            if 0 <= p < toks.len() {
                assert(toks[p].loc.within(len));
            }
        }
    }
}

/// Reading any source either succeeds or fails with an error whose spans all
/// lie inside the source: the span an error carries is within `[0, len]`, and
/// so is the span its diagnostic highlights, except that a premature end of
/// input highlights the one position `[len, len + 1)` just past the end.
pub proof fn lemma_error_spans_within(s: Seq<u8>)
    requires
        s.len() < usize::MAX,
    ensures
        match parse_source_spec(s) {
            Ok(_) => true,
            Err(e) => error_within(e, s.len() as int) && if e == Error::Parser(ParseError::Eof) {
                e.spec_diagnostic_loc(s.len() as int) == Loc(s.len() as usize, (s.len() + 1) as usize)
            } else {
                e.spec_diagnostic_loc(s.len() as int).within(s.len() as int)
            },
        },
{
    let len = s.len() as int;
    lemma_lex_from_within(s, 0);
    if let Ok(toks) = lex_spec(s) {
        lemma_chain_within(toks, Prec::Additive, 0, len);
        if let Ok((e, p)) = chain_at(toks, Prec::Additive, 0) {
            if 0 <= p < toks.len() {
                assert(toks[p].loc.within(len));
            }
        }
    }
}

} // verus!
