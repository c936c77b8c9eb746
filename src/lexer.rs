use vstd::prelude::*;

use vstd::string::StringSliceAdditionalSpecFns;

use crate::loc::{Annotation, Loc};

verus! {

#[derive(Debug, Clone, Copy, PartialEq, Eq, Hash)]
pub enum TokenKind {
    Number(u64),
    Plus,
    Minus,
    Asterisk,
    Slash,
    LParen,
    RParen,
}

/// A token together with the bytes it was read from.
pub type Token = Annotation<TokenKind>;

impl Annotation<TokenKind> {
    pub fn number(n: u64, loc: Loc) -> (r: Self)
        ensures
            r == (Annotation { value: TokenKind::Number(n), loc }),
    {
        Self::new(TokenKind::Number(n), loc)
    }

    pub fn plus(loc: Loc) -> (r: Self)
        ensures
            r == (Annotation { value: TokenKind::Plus, loc }),
    {
        Self::new(TokenKind::Plus, loc)
    }

    pub fn minus(loc: Loc) -> (r: Self)
        ensures
            r == (Annotation { value: TokenKind::Minus, loc }),
    {
        Self::new(TokenKind::Minus, loc)
    }

    pub fn asterisk(loc: Loc) -> (r: Self)
        ensures
            r == (Annotation { value: TokenKind::Asterisk, loc }),
    {
        Self::new(TokenKind::Asterisk, loc)
    }

    pub fn slash(loc: Loc) -> (r: Self)
        ensures
            r == (Annotation { value: TokenKind::Slash, loc }),
    {
        Self::new(TokenKind::Slash, loc)
    }

    pub fn lparen(loc: Loc) -> (r: Self)
        ensures
            r == (Annotation { value: TokenKind::LParen, loc }),
    {
        Self::new(TokenKind::LParen, loc)
    }

    pub fn rparen(loc: Loc) -> (r: Self)
        ensures
            r == (Annotation { value: TokenKind::RParen, loc }),
    {
        Self::new(TokenKind::RParen, loc)
    }
}

#[derive(Debug, Clone, Copy, PartialEq, Eq, Hash)]
pub enum LexErrorKind {
    /// A byte that cannot start any token.
    InvalidChar(char),
    /// The input ended where a byte was expected.
    Eof,
    /// A run of digits whose value does not fit in 64 bits.
    LiteralOverflow,
}

pub type LexError = Annotation<LexErrorKind>;

impl Annotation<LexErrorKind> {
    pub fn invalid_char(c: char, loc: Loc) -> (r: Self)
        ensures
            r == (Annotation { value: LexErrorKind::InvalidChar(c), loc }),
    {
        Self::new(LexErrorKind::InvalidChar(c), loc)
    }

    pub fn eof(loc: Loc) -> (r: Self)
        ensures
            r == (Annotation { value: LexErrorKind::Eof, loc }),
    {
        Self::new(LexErrorKind::Eof, loc)
    }

    pub fn literal_overflow(loc: Loc) -> (r: Self)
        ensures
            r == (Annotation { value: LexErrorKind::LiteralOverflow, loc }),
    {
        Self::new(LexErrorKind::LiteralOverflow, loc)
    }
}

/// The ASCII bytes the lexer dispatches on.
pub const BYTE_ZERO: u8 = 48;
pub const BYTE_NINE: u8 = 57;
pub const BYTE_PLUS: u8 = 43;
pub const BYTE_MINUS: u8 = 45;
pub const BYTE_ASTERISK: u8 = 42;
pub const BYTE_SLASH: u8 = 47;
pub const BYTE_LPAREN: u8 = 40;
pub const BYTE_RPAREN: u8 = 41;
pub const BYTE_SPACE: u8 = 32;
pub const BYTE_NEWLINE: u8 = 10;
pub const BYTE_TAB: u8 = 9;

// ---------------------------------------------------------------------------
// The lexical grammar, as spec functions over the source bytes.

pub open spec fn is_digit(b: u8) -> bool {
    BYTE_ZERO <= b <= BYTE_NINE
}

pub open spec fn is_space(b: u8) -> bool {
    b == BYTE_SPACE || b == BYTE_NEWLINE || b == BYTE_TAB
}

/// The token that a single punctuation byte stands for.
pub open spec fn symbol_kind(b: u8) -> Option<TokenKind> {
    if b == BYTE_PLUS {
        Some(TokenKind::Plus)
    } else if b == BYTE_MINUS {
        Some(TokenKind::Minus)
    } else if b == BYTE_ASTERISK {
        Some(TokenKind::Asterisk)
    } else if b == BYTE_SLASH {
        Some(TokenKind::Slash)
    } else if b == BYTE_LPAREN {
        Some(TokenKind::LParen)
    } else if b == BYTE_RPAREN {
        Some(TokenKind::RParen)
    } else {
        None
    }
}

/// The end of the maximal run of digits that starts at `pos`.
pub open spec fn digits_end(s: Seq<u8>, pos: int) -> int
    decreases s.len() - pos,
{
    if 0 <= pos < s.len() && is_digit(s[pos]) {
        digits_end(s, pos + 1)
    } else {
        pos
    }
}

/// The end of the maximal run of whitespace that starts at `pos`.
pub open spec fn spaces_end(s: Seq<u8>, pos: int) -> int
    decreases s.len() - pos,
{
    if 0 <= pos < s.len() && is_space(s[pos]) {
        spaces_end(s, pos + 1)
    } else {
        pos
    }
}

/// The value of a sequence of decimal digits, most significant first.
pub open spec fn digits_value(d: Seq<u8>) -> nat
    decreases d.len(),
{
    if d.len() == 0 {
        0
    } else {
        digits_value(d.drop_last()) * 10 + (d.last() - BYTE_ZERO) as nat
    }
}

/// Puts `t` in front of the tokens of a lexing result.
pub open spec fn cons_token(t: Token, r: Result<Seq<Token>, LexError>) -> Result<Seq<Token>, LexError> {
    match r {
        Ok(ts) => Ok(seq![t] + ts),
        Err(e) => Err(e),
    }
}

/// The number token for the run of digits that starts at `pos`, or the
/// error for a value that does not fit in 64 bits.
pub open spec fn number_token(s: Seq<u8>, pos: int) -> Result<Token, LexError> {
    let end = digits_end(s, pos);
    let v = digits_value(s.subrange(pos, end));
    let loc = Loc(pos as usize, end as usize);
    if v > u64::MAX {
        Err(Annotation { value: LexErrorKind::LiteralOverflow, loc })
    } else {
        Ok(Annotation { value: TokenKind::Number(v as u64), loc })
    }
}

/// Lexes `s` from byte `pos` to its end.
pub open spec fn lex_from(s: Seq<u8>, pos: int) -> Result<Seq<Token>, LexError>
    decreases s.len() - pos,
    via lex_from_decreases
{
    if pos < 0 || pos >= s.len() {
        Ok(seq![])
    } else if is_digit(s[pos]) {
        match number_token(s, pos) {
            Ok(t) => cons_token(t, lex_from(s, digits_end(s, pos))),
            Err(e) => Err(e),
        }
    } else if symbol_kind(s[pos]) is Some {
        let t = Annotation {
            value: symbol_kind(s[pos])->Some_0,
            loc: Loc(pos as usize, (pos + 1) as usize),
        };
        cons_token(t, lex_from(s, pos + 1))
    } else if is_space(s[pos]) {
        lex_from(s, spaces_end(s, pos))
    } else {
        Err(
            Annotation {
                value: LexErrorKind::InvalidChar(s[pos] as char),
                loc: Loc(pos as usize, (pos + 1) as usize),
            },
        )
    }
}

#[via_fn]
proof fn lex_from_decreases(s: Seq<u8>, pos: int) {
    if 0 <= pos < s.len() {
        lemma_digits_end(s, pos);
        lemma_spaces_end(s, pos);
    }
}

/// What `lex` returns for the bytes `s`.
pub open spec fn lex_spec(s: Seq<u8>) -> Result<Seq<Token>, LexError> {
    lex_from(s, 0)
}

pub proof fn lemma_digits_end(s: Seq<u8>, pos: int)
    requires
        0 <= pos <= s.len(),
    ensures
        pos <= digits_end(s, pos) <= s.len(),
        pos < s.len() && is_digit(s[pos]) ==> pos < digits_end(s, pos),
        forall|i: int| pos <= i < digits_end(s, pos) ==> is_digit(#[trigger] s[i]),
        digits_end(s, pos) < s.len() ==> !is_digit(s[digits_end(s, pos)]),
    decreases s.len() - pos,
{
    if pos < s.len() && is_digit(s[pos]) {
        lemma_digits_end(s, pos + 1);
    }
}

pub proof fn lemma_spaces_end(s: Seq<u8>, pos: int)
    requires
        0 <= pos <= s.len(),
    ensures
        pos <= spaces_end(s, pos) <= s.len(),
        pos < s.len() && is_space(s[pos]) ==> pos < spaces_end(s, pos),
        forall|i: int| pos <= i < spaces_end(s, pos) ==> is_space(#[trigger] s[i]),
        spaces_end(s, pos) < s.len() ==> !is_space(s[spaces_end(s, pos)]),
    decreases s.len() - pos,
{
    if pos < s.len() && is_space(s[pos]) {
        lemma_spaces_end(s, pos + 1);
    }
}

pub proof fn lemma_digits_end_at(s: Seq<u8>, pos: int, end: int)
    requires
        0 <= pos <= end <= s.len(),
        forall|i: int| pos <= i < end ==> is_digit(#[trigger] s[i]),
        end < s.len() ==> !is_digit(s[end]),
    ensures
        digits_end(s, pos) == end,
    decreases end - pos,
{
    if pos < end {
        lemma_digits_end_at(s, pos + 1, end);
    }
}

pub proof fn lemma_spaces_end_at(s: Seq<u8>, pos: int, end: int)
    requires
        0 <= pos <= end <= s.len(),
        forall|i: int| pos <= i < end ==> is_space(#[trigger] s[i]),
        end < s.len() ==> !is_space(s[end]),
    ensures
        spaces_end(s, pos) == end,
    decreases end - pos,
{
    if pos < end {
        lemma_spaces_end_at(s, pos + 1, end);
    }
}

/// Extending a run of digits never lowers its value.
pub proof fn lemma_digits_value_grows(s: Seq<u8>, start: int, i: int, j: int)
    requires
        0 <= start <= i <= j <= s.len(),
    ensures
        digits_value(s.subrange(start, i)) <= digits_value(s.subrange(start, j)),
    decreases j - i,
{
    if i < j {
        lemma_digits_value_grows(s, start, i, j - 1);
        assert(s.subrange(start, j).drop_last() =~= s.subrange(start, j - 1));
    }
}

/// What `consume_byte` returns: the byte `b` at `pos` and the position after it.
pub open spec fn consume_spec(s: Seq<u8>, pos: int, b: u8) -> Result<(u8, usize), LexError> {
    if pos >= s.len() {
        Err(Annotation { value: LexErrorKind::Eof, loc: Loc(pos as usize, pos as usize) })
    } else if s[pos] != b {
        Err(
            Annotation {
                value: LexErrorKind::InvalidChar(s[pos] as char),
                loc: Loc(pos as usize, (pos + 1) as usize),
            },
        )
    } else {
        Ok((b, (pos + 1) as usize))
    }
}

/// The single-byte token of kind `kind` read as byte `b` at `start`.
pub open spec fn symbol_spec(s: Seq<u8>, start: int, b: u8, kind: TokenKind) -> Result<
    (Token, usize),
    LexError,
> {
    match consume_spec(s, start, b) {
        Ok((_, end)) => Ok((Annotation { value: kind, loc: Loc(start as usize, end) }, end)),
        Err(e) => Err(e),
    }
}

/// Splices the tokens `ts` already read in front of the result of lexing the rest.
pub open spec fn after_tokens(ts: Seq<Token>, r: Result<Seq<Token>, LexError>) -> Result<
    Seq<Token>,
    LexError,
> {
    match r {
        Ok(rest) => Ok(ts + rest),
        Err(e) => Err(e),
    }
}

/// Splits `input` into tokens, or reports the first byte that no token can
/// start (or a literal too large for 64 bits).
pub fn lex(input: &str) -> (r: Result<Vec<Token>, LexError>)
    ensures
        match r {
            Ok(ts) => lex_spec(input.spec_bytes()) == Ok::<Seq<Token>, LexError>(ts@),
            Err(e) => lex_spec(input.spec_bytes()) == Err::<Seq<Token>, LexError>(e),
        },
{
    let mut tokens: Vec<Token> = Vec::new();
    let bytes = input.as_bytes();
    let ghost s = bytes@;
    assert(s == input.spec_bytes());
    let mut pos: usize = 0;
    while pos < bytes.len()
        invariant
            s == bytes@,
            s == input.spec_bytes(),
            pos <= bytes.len(),
            lex_spec(s) == after_tokens(tokens@, lex_from(s, pos as int)),
        decreases bytes.len() - pos,
    {
        let b = bytes[pos];
        proof {
            lemma_digits_end(s, pos as int);
            lemma_spaces_end(s, pos as int);
        }
        let step = if BYTE_ZERO <= b && b <= BYTE_NINE {
            lex_number(bytes, pos)
        } else if b == BYTE_PLUS {
            lex_plus(bytes, pos)
        } else if b == BYTE_MINUS {
            lex_minus(bytes, pos)
        } else if b == BYTE_ASTERISK {
            lex_asterisk(bytes, pos)
        } else if b == BYTE_SLASH {
            lex_slash(bytes, pos)
        } else if b == BYTE_LPAREN {
            lex_lparen(bytes, pos)
        } else if b == BYTE_RPAREN {
            lex_rparen(bytes, pos)
        } else if b == BYTE_SPACE || b == BYTE_NEWLINE || b == BYTE_TAB {
            let ((), p) = match skip_spaces(bytes, pos) {
                Ok(x) => x,
                Err(e) => return Err(e),
            };
            pos = p;
            continue;
        } else {
            let e = LexError::invalid_char(b as char, Loc(pos, pos + 1));
            assert(lex_from(s, pos as int) == Err::<Seq<Token>, LexError>(e));
            return Err(e);
        };
        match step {
            Ok((tok, p)) => {
                proof {
                    assert(tokens@.push(tok) + lex_from(s, p as int)->Ok_0 =~= tokens@ + (seq![tok]
                        + lex_from(s, p as int)->Ok_0));
                }
                tokens.push(tok);
                pos = p;
            },
            Err(e) => return Err(e),
        }
    }
    assert(tokens@ + seq![] =~= tokens@);
    Ok(tokens)
}

fn consume_byte(input: &[u8], pos: usize, b: u8) -> (r: Result<(u8, usize), LexError>)
    ensures
        r == consume_spec(input@, pos as int, b),
{
    if input.len() <= pos {
        return Err(LexError::eof(Loc(pos, pos)));
    }
    if input[pos] != b {
        return Err(LexError::invalid_char(input[pos] as char, Loc(pos, pos + 1)));
    }
    Ok((b, pos + 1))
}

fn lex_plus(input: &[u8], start: usize) -> (r: Result<(Token, usize), LexError>)
    ensures
        r == symbol_spec(input@, start as int, BYTE_PLUS, TokenKind::Plus),
{
    match consume_byte(input, start, BYTE_PLUS) {
        Ok((_, end)) => Ok((Token::plus(Loc(start, end)), end)),
        Err(e) => Err(e),
    }
}

fn lex_minus(input: &[u8], start: usize) -> (r: Result<(Token, usize), LexError>)
    ensures
        r == symbol_spec(input@, start as int, BYTE_MINUS, TokenKind::Minus),
{
    match consume_byte(input, start, BYTE_MINUS) {
        Ok((_, end)) => Ok((Token::minus(Loc(start, end)), end)),
        Err(e) => Err(e),
    }
}

fn lex_asterisk(input: &[u8], start: usize) -> (r: Result<(Token, usize), LexError>)
    ensures
        r == symbol_spec(input@, start as int, BYTE_ASTERISK, TokenKind::Asterisk),
{
    match consume_byte(input, start, BYTE_ASTERISK) {
        Ok((_, end)) => Ok((Token::asterisk(Loc(start, end)), end)),
        Err(e) => Err(e),
    }
}

fn lex_slash(input: &[u8], start: usize) -> (r: Result<(Token, usize), LexError>)
    ensures
        r == symbol_spec(input@, start as int, BYTE_SLASH, TokenKind::Slash),
{
    match consume_byte(input, start, BYTE_SLASH) {
        Ok((_, end)) => Ok((Token::slash(Loc(start, end)), end)),
        Err(e) => Err(e),
    }
}

fn lex_lparen(input: &[u8], start: usize) -> (r: Result<(Token, usize), LexError>)
    ensures
        r == symbol_spec(input@, start as int, BYTE_LPAREN, TokenKind::LParen),
{
    match consume_byte(input, start, BYTE_LPAREN) {
        Ok((_, end)) => Ok((Token::lparen(Loc(start, end)), end)),
        Err(e) => Err(e),
    }
}

fn lex_rparen(input: &[u8], start: usize) -> (r: Result<(Token, usize), LexError>)
    ensures
        r == symbol_spec(input@, start as int, BYTE_RPAREN, TokenKind::RParen),
{
    match consume_byte(input, start, BYTE_RPAREN) {
        Ok((_, end)) => Ok((Token::rparen(Loc(start, end)), end)),
        Err(e) => Err(e),
    }
}

/// Reads the maximal run of digits at `pos` as a 64-bit number.
fn lex_number(input: &[u8], pos: usize) -> (r: Result<(Token, usize), LexError>)
    requires
        pos < input@.len(),
        is_digit(input@[pos as int]),
    ensures
        match r {
            Ok((t, p)) => number_token(input@, pos as int) == Ok::<Token, LexError>(t) && p
                == digits_end(input@, pos as int),
            Err(e) => number_token(input@, pos as int) == Err::<Token, LexError>(e),
        },
{
    let start = pos;
    let digit = |b: u8| -> (r: bool)
        ensures
            r == is_digit(b),
        { BYTE_ZERO <= b && b <= BYTE_NINE };
    let end = recognize_many(input, start, digit);
    let ghost s = input@;
    proof {
        lemma_digits_end_at(s, start as int, end as int);
    }
    let mut n: u64 = 0;
    let mut i: usize = start;
    while i < end
        invariant
            s == input@,
            start == pos,
            start <= i <= end <= s.len(),
            end == digits_end(s, start as int),
            forall|j: int| start <= j < end ==> is_digit(#[trigger] s[j]),
            n == digits_value(s.subrange(start as int, i as int)),
        decreases end - i,
    {
        let d = (input[i] - BYTE_ZERO) as u64;
        proof {
            assert(s.subrange(start as int, i + 1).drop_last() =~= s.subrange(start as int, i as int));
            lemma_digits_value_grows(s, start as int, i + 1, end as int);
        }
        let next = match n.checked_mul(10) {
            Some(m) => m.checked_add(d),
            None => None,
        };
        match next {
            Some(v) => {
                n = v;
            },
            None => {
                assert(digits_value(s.subrange(start as int, i + 1)) == n * 10 + d);
                assert(digits_value(s.subrange(start as int, end as int)) > u64::MAX);
                return Err(LexError::literal_overflow(Loc(start, end)));
            },
        }
        i = i + 1;
    }
    proof {
        assert(s.subrange(start as int, i as int) =~= s.subrange(start as int, end as int));
    }
    Ok((Token::number(n, Loc(start, end)), end))
}

fn skip_spaces(input: &[u8], pos: usize) -> (r: Result<((), usize), LexError>)
    requires
        pos <= input@.len(),
    ensures
        r == Ok::<((), usize), LexError>(((), spaces_end(input@, pos as int) as usize)),
        spaces_end(input@, pos as int) <= input@.len(),
{
    let space = |b: u8| -> (r: bool)
        ensures
            r == is_space(b),
        { b == BYTE_SPACE || b == BYTE_NEWLINE || b == BYTE_TAB };
    let pos2 = recognize_many(input, pos, space);
    proof {
        lemma_spaces_end_at(input@, pos as int, pos2 as int);
    }
    Ok(((), pos2))
}

/// The end of the maximal run, from `pos`, of bytes on which `f` holds.
fn recognize_many(input: &[u8], pos: usize, f: impl Fn(u8) -> bool) -> (r: usize)
    requires
        pos <= input@.len(),
        forall|b: u8| f.requires((b,)),
    ensures
        pos <= r <= input@.len(),
        forall|i: int| pos <= i < r ==> f.ensures((#[trigger] input@[i],), true),
        r < input@.len() ==> f.ensures((input@[r as int],), false),
{
    let mut pos = pos;
    let ghost start = pos;
    loop
        invariant
            start <= pos <= input@.len(),
            forall|b: u8| f.requires((b,)),
            forall|i: int| start <= i < pos ==> f.ensures((#[trigger] input@[i],), true),
        ensures
            start <= pos <= input@.len(),
            forall|i: int| start <= i < pos ==> f.ensures((#[trigger] input@[i],), true),
            pos < input@.len() ==> f.ensures((input@[pos as int],), false),
        decreases input@.len() - pos,
    {
        if pos >= input.len() {
            break;
        }
        if !f(input[pos]) {
            break;
        }
        pos += 1;
    }
    pos
}

} // verus!
