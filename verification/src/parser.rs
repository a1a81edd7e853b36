//! The recursive-descent parser: turns source text into a surface
//! expression, or reports the first syntax error with its character
//! position. Its meaning is pinned by a specification-level parser over the
//! token stream, which the executable parser is proved to follow exactly.

use vstd::prelude::*;
use vstd::string::*;
use crate::ast::BinaryOpKind;
use crate::ast::Expr;
use crate::ast::ExprShape;
use crate::ast::UnaryOpKind;
use crate::lexer::Lexer;
use crate::lexer::is_digit_char;
use crate::lexer::tokens_from;
use crate::token::Token;
use crate::token::TokenKind;
use crate::token::TokenShape;

verus! {

#[derive(Debug, Eq, PartialEq)]
pub enum ParseErrorKind {
    /// An integer literal that does not fit an unsigned 64-bit value; holds
    /// the offending spelling.
    ParseIntegerError(String),
    /// An operator applied to the wrong number of operands; holds the count.
    InvalidOperandCount(usize),
    /// An opening `(` or `[` whose matching closer is missing.
    MismatchedOpenParen,
    /// A token that cannot start or continue the expected construct.
    UnexpectedToken(String),
}

#[derive(Debug, Eq, PartialEq)]
pub struct ParseError {
    pub kind: ParseErrorKind,
    pub location: usize,
}

pub enum ParseErrorKindShape {
    ParseIntegerError(Seq<char>),
    InvalidOperandCount(nat),
    MismatchedOpenParen,
    UnexpectedToken(Seq<char>),
}

#[verifier::ext_equal]
pub struct ParseErrorShape {
    pub kind: ParseErrorKindShape,
    pub location: nat,
}

impl View for ParseErrorKind {
    type V = ParseErrorKindShape;

    open spec fn view(&self) -> ParseErrorKindShape {
        match self {
            ParseErrorKind::ParseIntegerError(s) => ParseErrorKindShape::ParseIntegerError(s@),
            ParseErrorKind::InvalidOperandCount(n) => ParseErrorKindShape::InvalidOperandCount(
                *n as nat,
            ),
            ParseErrorKind::MismatchedOpenParen => ParseErrorKindShape::MismatchedOpenParen,
            ParseErrorKind::UnexpectedToken(s) => ParseErrorKindShape::UnexpectedToken(s@),
        }
    }
}

impl View for ParseError {
    type V = ParseErrorShape;

    open spec fn view(&self) -> ParseErrorShape {
        ParseErrorShape { kind: self.kind@, location: self.location as nat }
    }
}

/// The token at a position: past the end of the stream it is `EOF`, located
/// at the end of the source text.
pub open spec fn tok_at(toks: Seq<TokenShape>, eof_loc: nat, pos: nat) -> TokenShape {
    if pos < toks.len() {
        toks[pos as int]
    } else {
        TokenShape { kind: TokenKind::EOF, spelling: Seq::empty(), location: eof_loc }
    }
}

pub open spec fn digit_char_val(c: char) -> nat {
    (c as u32 - 48) as nat
}

pub open spec fn all_digits(s: Seq<char>) -> bool {
    forall|i: int| 0 <= i < s.len() ==> is_digit_char(#[trigger] s[i])
}

/// The numeric value of a digit string, most significant digit first.
pub open spec fn dec_value(s: Seq<char>) -> nat
    decreases s.len(),
{
    if s.len() == 0 {
        0
    } else {
        10 * dec_value(s.drop_last()) + digit_char_val(s.last())
    }
}

/// What parsing an integer token yields: its value, or an error at the
/// token's location when the spelling is not a number that fits 64 bits.
pub open spec fn parse_integer_spec(t: TokenShape) -> Result<u64, ParseErrorShape> {
    if t.spelling.len() >= 1 && all_digits(t.spelling) && dec_value(t.spelling) <= u64::MAX {
        Ok(dec_value(t.spelling) as u64)
    } else {
        Err(
            ParseErrorShape {
                kind: ParseErrorKindShape::ParseIntegerError(t.spelling),
                location: t.location,
            },
        )
    }
}

/// Demanding a token of one kind: consumed when present, otherwise an
/// `UnexpectedToken` error at the offending token, which stays unconsumed.
pub open spec fn expect_spec(toks: Seq<TokenShape>, eof_loc: nat, pos: nat, kind: TokenKind) -> (
    Result<TokenShape, ParseErrorShape>,
    nat,
) {
    let t = tok_at(toks, eof_loc, pos);
    if t.kind == kind {
        (Ok(t), pos + 1)
    } else {
        (
            Err(
                ParseErrorShape {
                    kind: ParseErrorKindShape::UnexpectedToken(t.spelling),
                    location: t.location,
                },
            ),
            pos,
        )
    }
}

/// Demanding the closer of a bracket opened at `open_loc`: a missing closer
/// is reported at the opener.
pub open spec fn expect_closing_spec(
    toks: Seq<TokenShape>,
    eof_loc: nat,
    pos: nat,
    kind: TokenKind,
    open_loc: nat,
) -> (Result<TokenShape, ParseErrorShape>, nat) {
    let t = tok_at(toks, eof_loc, pos);
    if t.kind == kind {
        (Ok(t), pos + 1)
    } else {
        (
            Err(
                ParseErrorShape {
                    kind: ParseErrorKindShape::MismatchedOpenParen,
                    location: open_loc,
                },
            ),
            pos,
        )
    }
}

/// The specification-level parser: the parse of the expression starting at
/// `pos`, and the position where parsing stopped. An operator collects
/// operands greedily; a parenthesis checks its closer before reporting what
/// its body did; `let` reads the declaration and then its body.
pub open spec fn parse_expr_spec(toks: Seq<TokenShape>, eof_loc: nat, pos: nat) -> (Result<
    ExprShape,
    ParseErrorShape,
>, nat)
    decreases toks.len() - pos, 0int,
{
    let t = tok_at(toks, eof_loc, pos);
    match t.kind {
        TokenKind::Integer => (
            match parse_integer_spec(t) {
                Ok(v) => Ok(ExprShape::Integer(v)),
                Err(e) => Err(e),
            },
            pos + 1,
        ),
        TokenKind::Read => (Ok(ExprShape::Read), pos + 1),
        TokenKind::Identifier => (Ok(ExprShape::Identifier(t.spelling)), pos + 1),
        TokenKind::Plus => {
            let (operands, p1) = parse_operands_spec(toks, eof_loc, pos + 1);
            if operands.len() == 2 {
                (
                    Ok(
                        ExprShape::BinaryOperation {
                            kind: BinaryOpKind::Add,
                            left_operand: Box::new(operands[0]),
                            right_operand: Box::new(operands[1]),
                        },
                    ),
                    p1,
                )
            } else {
                (
                    Err(
                        ParseErrorShape {
                            kind: ParseErrorKindShape::InvalidOperandCount(operands.len()),
                            location: t.location,
                        },
                    ),
                    p1,
                )
            }
        },
        TokenKind::Minus => {
            let (operands, p1) = parse_operands_spec(toks, eof_loc, pos + 1);
            if operands.len() == 2 {
                (
                    Ok(
                        ExprShape::BinaryOperation {
                            kind: BinaryOpKind::Sub,
                            left_operand: Box::new(operands[0]),
                            right_operand: Box::new(operands[1]),
                        },
                    ),
                    p1,
                )
            } else if operands.len() == 1 {
                (
                    Ok(
                        ExprShape::UnaryOperation {
                            kind: UnaryOpKind::Minus,
                            operand: Box::new(operands[0]),
                        },
                    ),
                    p1,
                )
            } else {
                (
                    Err(
                        ParseErrorShape {
                            kind: ParseErrorKindShape::InvalidOperandCount(operands.len()),
                            location: t.location,
                        },
                    ),
                    p1,
                )
            }
        },
        TokenKind::LParen => {
            let (body, p1) = parse_expr_spec(toks, eof_loc, pos + 1);
            let (closer, p2) = expect_closing_spec(
                toks,
                eof_loc,
                p1,
                TokenKind::RParen,
                t.location,
            );
            match closer {
                Ok(_) => (body, p2),
                Err(e) => (Err(e), p2),
            }
        },
        TokenKind::Let => {
            let (decl, p1) = parse_vardecl_spec(toks, eof_loc, pos + 1);
            match decl {
                Ok((name, init)) => if pos < p1 <= toks.len() {
                    let (body, p2) = parse_expr_spec(toks, eof_loc, p1);
                    match body {
                        Ok(b) => (
                            Ok(
                                ExprShape::Let {
                                    variable_name: name,
                                    init_expr: Box::new(init),
                                    body: Box::new(b),
                                },
                            ),
                            p2,
                        ),
                        Err(e) => (Err(e), p2),
                    }
                } else {
                    (arbitrary(), p1)
                },
                Err(e) => (Err(e), p1),
            }
        },
        _ => (
            Err(
                ParseErrorShape {
                    kind: ParseErrorKindShape::UnexpectedToken(t.spelling),
                    location: t.location,
                },
            ),
            pos,
        ),
    }
}

/// The `([name init])` declaration head of a `let`, entered at the `(`.
pub open spec fn parse_vardecl_spec(toks: Seq<TokenShape>, eof_loc: nat, pos: nat) -> (Result<
    (Seq<char>, ExprShape),
    ParseErrorShape,
>, nat)
    decreases toks.len() - pos, 1int,
{
    let (lparen, p1) = expect_spec(toks, eof_loc, pos, TokenKind::LParen);
    match lparen {
        Ok(lparen_tok) => {
            let (lsquare, p2) = expect_spec(toks, eof_loc, p1, TokenKind::LSquare);
            match lsquare {
                Ok(lsquare_tok) => {
                    let (name, p3) = expect_spec(toks, eof_loc, p2, TokenKind::Identifier);
                    match name {
                        Ok(name_tok) => {
                            let (init, p4) = parse_expr_spec(toks, eof_loc, p3);
                            match init {
                                Ok(init_e) => {
                                    let (rsquare, p5) = expect_closing_spec(
                                        toks,
                                        eof_loc,
                                        p4,
                                        TokenKind::RSquare,
                                        lsquare_tok.location,
                                    );
                                    match rsquare {
                                        Ok(_) => {
                                            let (rparen, p6) = expect_closing_spec(
                                                toks,
                                                eof_loc,
                                                p5,
                                                TokenKind::RParen,
                                                lparen_tok.location,
                                            );
                                            match rparen {
                                                Ok(_) => (Ok((name_tok.spelling, init_e)), p6),
                                                Err(e) => (Err(e), p6),
                                            }
                                        },
                                        Err(e) => (Err(e), p5),
                                    }
                                },
                                Err(e) => (Err(e), p4),
                            }
                        },
                        Err(e) => (Err(e), p3),
                    }
                },
                Err(e) => (Err(e), p2),
            }
        },
        Err(e) => (Err(e), p1),
    }
}

/// The greedy operand list of an operator: expressions parsed one after
/// another until one fails; the failed attempt's consumption stands.
pub open spec fn parse_operands_spec(toks: Seq<TokenShape>, eof_loc: nat, pos: nat) -> (Seq<
    ExprShape,
>, nat)
    decreases toks.len() - pos, 2int,
{
    let (r, p1) = parse_expr_spec(toks, eof_loc, pos);
    match r {
        Ok(e) => if pos < p1 <= toks.len() {
            let (rest, p2) = parse_operands_spec(toks, eof_loc, p1);
            (seq![e] + rest, p2)
        } else {
            (seq![e], p1)
        },
        Err(_) => (Seq::empty(), p1),
    }
}

/// Parsing never moves backwards, stays within the token stream, and a
/// successful expression parse consumes at least one token.
pub proof fn lemma_parse_expr_bounds(toks: Seq<TokenShape>, eof_loc: nat, pos: nat)
    requires
        pos <= toks.len(),
    ensures
        ({
            let (r, p1) = parse_expr_spec(toks, eof_loc, pos);
            pos <= p1 <= toks.len() && (r is Ok ==> p1 > pos)
        }),
    decreases toks.len() - pos, 0int,
{
    let t = tok_at(toks, eof_loc, pos);
    match t.kind {
        TokenKind::Plus => {
            lemma_parse_operands_bounds(toks, eof_loc, pos + 1);
        },
        TokenKind::Minus => {
            lemma_parse_operands_bounds(toks, eof_loc, pos + 1);
        },
        TokenKind::LParen => {
            lemma_parse_expr_bounds(toks, eof_loc, pos + 1);
        },
        TokenKind::Let => {
            lemma_parse_vardecl_bounds(toks, eof_loc, pos + 1);
            let (decl, p1) = parse_vardecl_spec(toks, eof_loc, pos + 1);
            if decl is Ok {
                lemma_parse_expr_bounds(toks, eof_loc, p1);
            }
        },
        _ => {},
    }
}

pub proof fn lemma_parse_vardecl_bounds(toks: Seq<TokenShape>, eof_loc: nat, pos: nat)
    requires
        pos <= toks.len(),
    ensures
        ({
            let (r, p1) = parse_vardecl_spec(toks, eof_loc, pos);
            pos <= p1 <= toks.len() && (r is Ok ==> p1 > pos)
        }),
    decreases toks.len() - pos, 1int,
{
    let (lparen, p1) = expect_spec(toks, eof_loc, pos, TokenKind::LParen);
    if lparen is Ok {
        let (lsquare, p2) = expect_spec(toks, eof_loc, p1, TokenKind::LSquare);
        if lsquare is Ok {
            let (name, p3) = expect_spec(toks, eof_loc, p2, TokenKind::Identifier);
            if name is Ok {
                lemma_parse_expr_bounds(toks, eof_loc, p3);
            }
        }
    }
}

pub proof fn lemma_parse_operands_bounds(toks: Seq<TokenShape>, eof_loc: nat, pos: nat)
    requires
        pos <= toks.len(),
    ensures
        ({
            let (operands, p1) = parse_operands_spec(toks, eof_loc, pos);
            pos <= p1 <= toks.len()
        }),
    decreases toks.len() - pos, 2int,
{
    lemma_parse_expr_bounds(toks, eof_loc, pos);
    let (r, p1) = parse_expr_spec(toks, eof_loc, pos);
    if r is Ok && pos < p1 <= toks.len() {
        lemma_parse_operands_bounds(toks, eof_loc, p1);
    }
}

/// What parsing a whole source's token stream yields: the expression, when
/// it is followed by nothing but the end of input; the leftover token is an
/// error otherwise.
pub open spec fn parse_program_spec(toks: Seq<TokenShape>, eof_loc: nat) -> Result<
    ExprShape,
    ParseErrorShape,
> {
    let (r, p1) = parse_expr_spec(toks, eof_loc, 0);
    match r {
        Ok(e) => {
            let t = tok_at(toks, eof_loc, p1);
            if t.kind == TokenKind::EOF {
                Ok(e)
            } else {
                Err(
                    ParseErrorShape {
                        kind: ParseErrorKindShape::UnexpectedToken(t.spelling),
                        location: t.location,
                    },
                )
            }
        },
        Err(e) => Err(e),
    }
}

/// The shapes of the tokens the lexer produces for a source text.
pub open spec fn token_shapes(s: Seq<char>) -> Seq<TokenShape> {
    tokens_from(s, 0).map_values(
        |entry: (TokenKind, nat, nat)|
            TokenShape {
                kind: entry.0,
                spelling: s.subrange(entry.1 as int, (entry.1 + entry.2) as int),
                location: entry.1,
            },
    )
}

/// What parsing a source text yields.
pub open spec fn parse_code(s: Seq<char>) -> Result<ExprShape, ParseErrorShape> {
    parse_program_spec(token_shapes(s), s.len())
}

/// The numeric value of a whole digit string never shrinks as the string
/// grows.
proof fn lemma_dec_value_monotone(s: Seq<char>, i: int)
    requires
        0 <= i <= s.len(),
    ensures
        dec_value(s.take(i)) <= dec_value(s),
    decreases s.len() - i,
{
    if i < s.len() {
        assert(s.take(i + 1).drop_last() =~= s.take(i));
        assert(dec_value(s.take(i + 1)) == 10 * dec_value(s.take(i)) + digit_char_val(
            s.take(i + 1).last(),
        ));
        lemma_dec_value_monotone(s, i + 1);
        assert(s.take(s.len() as int) =~= s);
    } else {
        assert(s.take(i) =~= s);
    }
}

/// Reads a digit string as an unsigned 64-bit value; `None` on a non-digit
/// or when the value does not fit.
fn parse_u64_digits(spelling: &str) -> (parsed: Option<u64>)
    ensures
        match parsed {
            Some(v) => spelling@.len() >= 1 && all_digits(spelling@) && dec_value(spelling@)
                <= u64::MAX && v == dec_value(spelling@),
            None => !(spelling@.len() >= 1 && all_digits(spelling@) && dec_value(spelling@)
                <= u64::MAX),
        },
{
    let length = spelling.unicode_len();
    if length == 0 {
        return None;
    }
    let mut acc: u64 = 0;
    let mut i: usize = 0;
    while i < length
        invariant
            i <= length,
            length == spelling@.len(),
            all_digits(spelling@.take(i as int)),
            acc == dec_value(spelling@.take(i as int)),
        decreases length - i,
    {
        let c = spelling.get_char(i);
        let u = c as u32;
        if !(48 <= u && u <= 57) {
            proof {
                assert(!all_digits(spelling@));
            }
            return None;
        }
        let d: u64 = (u - 48) as u64;
        if acc > (u64::MAX - d) / 10 {
            proof {
                let prefix = spelling@.take(i + 1);
                assert(prefix.drop_last() =~= spelling@.take(i as int));
                assert(prefix.last() == spelling@[i as int]);
                assert(dec_value(prefix) == 10 * acc + d);
                assert(10 * acc + d > u64::MAX) by (nonlinear_arith)
                    requires
                        acc > (u64::MAX - d) / 10,
                        d <= 9,
                ;
                lemma_dec_value_monotone(spelling@, i + 1);
            }
            return None;
        }
        proof {
            let prefix = spelling@.take(i + 1);
            assert(prefix.drop_last() =~= spelling@.take(i as int));
            assert(prefix.last() == spelling@[i as int]);
            assert(10 * acc + d <= u64::MAX) by (nonlinear_arith)
                requires
                    acc <= (u64::MAX - d) / 10,
                    d <= 9,
            ;
            assert(dec_value(prefix) == 10 * acc + d);
        }
        acc = acc * 10 + d;
        i = i + 1;
    }
    proof {
        assert(spelling@.take(length as int) =~= spelling@);
    }
    Some(acc)
}

struct Parser {
    tokens: Vec<Token>,
    position: usize,
    eof_location: usize,
}

impl Parser {
    spec fn toks(&self) -> Seq<TokenShape> {
        self.tokens.deep_view()
    }

    spec fn eof(&self) -> nat {
        self.eof_location as nat
    }

    spec fn wf(&self) -> bool {
        self.position <= self.tokens@.len()
    }

    /// A copy of the token under the cursor; past the end it is `EOF`.
    fn current_token(&self) -> (t: Token)
        requires
            self.wf(),
        ensures
            t@ == tok_at(self.toks(), self.eof(), self.position as nat),
    {
        if self.position < self.tokens.len() {
            let under = &self.tokens[self.position];
            let t = Token {
                kind: under.kind,
                spelling: under.spelling.clone(),
                location: under.location,
            };
            proof {
                assert(self.toks()[self.position as int] == self.tokens@[self.position as int]@);
                assert(t@ =~= tok_at(self.toks(), self.eof(), self.position as nat));
            }
            t
        } else {
            let t = Token {
                kind: TokenKind::EOF,
                spelling: String::new(),
                location: self.eof_location,
            };
            proof {
                assert(t@ =~= tok_at(self.toks(), self.eof(), self.position as nat));
            }
            t
        }
    }

    fn consume_token(&mut self)
        requires
            old(self).wf(),
            old(self).position < old(self).tokens@.len(),
        ensures
            final(self).wf(),
            final(self).tokens == old(self).tokens,
            final(self).eof_location == old(self).eof_location,
            final(self).position == old(self).position + 1,
    {
        proof {
            broadcast use vstd::std_specs::vec::axiom_spec_len;

            assert(vstd::std_specs::vec::spec_vec_len(&self.tokens) == self.tokens@.len());
        }
        self.position = self.position + 1;
    }

    fn current_token_and_consume(&mut self) -> (t: Token)
        requires
            old(self).wf(),
            tok_at(old(self).toks(), old(self).eof(), old(self).position as nat).kind
                != TokenKind::EOF,
        ensures
            final(self).wf(),
            final(self).tokens == old(self).tokens,
            final(self).eof_location == old(self).eof_location,
            final(self).position == old(self).position + 1,
            t@ == tok_at(old(self).toks(), old(self).eof(), old(self).position as nat),
    {
        let t = self.current_token();
        proof {
            assert(self.position < self.tokens@.len());
        }
        self.consume_token();
        t
    }

    fn expect_and_consume(&mut self, kind: TokenKind) -> (r: Result<Token, ParseError>)
        requires
            old(self).wf(),
            kind != TokenKind::EOF,
        ensures
            final(self).wf(),
            final(self).tokens == old(self).tokens,
            final(self).eof_location == old(self).eof_location,
            ({
                let (sr, p1) = expect_spec(
                    old(self).toks(),
                    old(self).eof(),
                    old(self).position as nat,
                    kind,
                );
                final(self).position == p1 && match r {
                    Ok(t) => sr == Ok::<TokenShape, ParseErrorShape>(t@),
                    Err(e) => sr == Err::<TokenShape, ParseErrorShape>(e@),
                }
            }),
    {
        let current = self.current_token();
        if current.kind == kind {
            self.consume_token();
            Ok(current)
        } else {
            Err(
                ParseError {
                    kind: ParseErrorKind::UnexpectedToken(current.spelling),
                    location: current.location,
                },
            )
        }
    }

    fn expect_closing_paren_and_consume(&mut self, kind: TokenKind, open_token: &Token) -> (r:
        Result<Token, ParseError>)
        requires
            old(self).wf(),
            kind != TokenKind::EOF,
        ensures
            final(self).wf(),
            final(self).tokens == old(self).tokens,
            final(self).eof_location == old(self).eof_location,
            ({
                let (sr, p1) = expect_closing_spec(
                    old(self).toks(),
                    old(self).eof(),
                    old(self).position as nat,
                    kind,
                    open_token@.location,
                );
                final(self).position == p1 && match r {
                    Ok(t) => sr == Ok::<TokenShape, ParseErrorShape>(t@),
                    Err(e) => sr == Err::<TokenShape, ParseErrorShape>(e@),
                }
            }),
    {
        let current = self.current_token();
        if current.kind == kind {
            self.consume_token();
            Ok(current)
        } else {
            Err(
                ParseError {
                    kind: ParseErrorKind::MismatchedOpenParen,
                    location: open_token.location,
                },
            )
        }
    }

    fn parse_integer(&mut self) -> (r: Result<u64, ParseError>)
        requires
            old(self).wf(),
            tok_at(old(self).toks(), old(self).eof(), old(self).position as nat).kind
                != TokenKind::EOF,
        ensures
            final(self).wf(),
            final(self).tokens == old(self).tokens,
            final(self).eof_location == old(self).eof_location,
            final(self).position == old(self).position + 1,
            ({
                let sr = parse_integer_spec(
                    tok_at(old(self).toks(), old(self).eof(), old(self).position as nat),
                );
                match r {
                    Ok(v) => sr == Ok::<u64, ParseErrorShape>(v),
                    Err(e) => sr == Err::<u64, ParseErrorShape>(e@),
                }
            }),
    {
        let token = self.current_token_and_consume();
        match parse_u64_digits(token.spelling.as_str()) {
            Some(v) => Ok(v),
            None => Err(
                ParseError {
                    kind: ParseErrorKind::ParseIntegerError(token.spelling),
                    location: token.location,
                },
            ),
        }
    }

    fn parse_multi_operands_expr(&mut self) -> (r: Result<Expr, ParseError>)
        requires
            old(self).wf(),
            tok_at(old(self).toks(), old(self).eof(), old(self).position as nat).kind
                == TokenKind::Plus || tok_at(
                old(self).toks(),
                old(self).eof(),
                old(self).position as nat,
            ).kind == TokenKind::Minus,
        ensures
            final(self).wf(),
            final(self).tokens == old(self).tokens,
            final(self).eof_location == old(self).eof_location,
            ({
                let (sr, p1) = parse_expr_spec(
                    old(self).toks(),
                    old(self).eof(),
                    old(self).position as nat,
                );
                final(self).position == p1 && match r {
                    Ok(e) => sr == Ok::<ExprShape, ParseErrorShape>(e@),
                    Err(e) => sr == Err::<ExprShape, ParseErrorShape>(e@),
                }
            }),
        decreases old(self).tokens@.len() - old(self).position, 0int,
    {
        let ghost toks = self.toks();
        let ghost eof_loc = self.eof();
        let ghost pos0 = self.position as nat;
        let operator_token = self.current_token_and_consume();
        let ghost ops_start = self.position as nat;

        let mut operands: Vec<Expr> = Vec::new();
        proof {
            assert(operands.deep_view() =~= Seq::<ExprShape>::empty());
        }
        loop
            invariant_except_break
                self.wf(),
                self.toks() == toks,
                self.eof() == eof_loc,
                self.tokens == old(self).tokens,
                self.eof_location == old(self).eof_location,
                pos0 == old(self).position as nat,
                pos0 < ops_start <= self.position as nat,
                parse_operands_spec(toks, eof_loc, ops_start).0 == operands.deep_view()
                    + parse_operands_spec(toks, eof_loc, self.position as nat).0,
                parse_operands_spec(toks, eof_loc, ops_start).1 == parse_operands_spec(
                    toks,
                    eof_loc,
                    self.position as nat,
                ).1,
            ensures
                self.wf(),
                self.tokens == old(self).tokens,
                self.eof_location == old(self).eof_location,
                operands.deep_view() == parse_operands_spec(toks, eof_loc, ops_start).0,
                self.position as nat == parse_operands_spec(toks, eof_loc, ops_start).1,
            decreases self.tokens@.len() - self.position,
        {
            let ghost pos_here = self.position as nat;
            let attempt = self.parse_expr();
            proof {
                lemma_parse_expr_bounds(toks, eof_loc, pos_here);
            }
            match attempt {
                Ok(e) => {
                    let ghost dv_before = operands.deep_view();
                    let ghost pushed = e@;
                    operands.push(e);
                    proof {
                        assert(operands.deep_view() =~= dv_before.push(pushed));
                        let (rest, p2) = parse_operands_spec(
                            toks,
                            eof_loc,
                            self.position as nat,
                        );
                        assert(parse_operands_spec(toks, eof_loc, pos_here).0 == seq![pushed]
                            + rest);
                        assert(dv_before.push(pushed) + rest =~= dv_before + (seq![pushed]
                            + rest));
                    }
                },
                Err(_) => {
                    proof {
                        assert(parse_operands_spec(toks, eof_loc, pos_here).0
                            =~= Seq::<ExprShape>::empty());
                        assert(operands.deep_view() + Seq::<ExprShape>::empty()
                            =~= operands.deep_view());
                    }
                    break;
                },
            }
        }

        let count = operands.len();
        let is_plus = matches!(operator_token.kind, TokenKind::Plus);
        if is_plus && count == 2 {
            let right = match operands.pop() {
                Some(e) => e,
                None => {
                    proof {
                        assert(false);
                    }
                    Expr::Read
                },
            };
            let left = match operands.pop() {
                Some(e) => e,
                None => {
                    proof {
                        assert(false);
                    }
                    Expr::Read
                },
            };
            proof {
                let ops = parse_operands_spec(toks, eof_loc, ops_start).0;
                assert(left@ == ops[0] && right@ == ops[1]);
            }
            Ok(
                Expr::BinaryOperation {
                    kind: BinaryOpKind::Add,
                    left_operand: Box::new(left),
                    right_operand: Box::new(right),
                },
            )
        } else if !is_plus && count == 2 {
            let right = match operands.pop() {
                Some(e) => e,
                None => {
                    proof {
                        assert(false);
                    }
                    Expr::Read
                },
            };
            let left = match operands.pop() {
                Some(e) => e,
                None => {
                    proof {
                        assert(false);
                    }
                    Expr::Read
                },
            };
            proof {
                let ops = parse_operands_spec(toks, eof_loc, ops_start).0;
                assert(left@ == ops[0] && right@ == ops[1]);
            }
            Ok(
                Expr::BinaryOperation {
                    kind: BinaryOpKind::Sub,
                    left_operand: Box::new(left),
                    right_operand: Box::new(right),
                },
            )
        } else if !is_plus && count == 1 {
            let operand = match operands.pop() {
                Some(e) => e,
                None => {
                    proof {
                        assert(false);
                    }
                    Expr::Read
                },
            };
            proof {
                let ops = parse_operands_spec(toks, eof_loc, ops_start).0;
                assert(operand@ == ops[0]);
            }
            Ok(Expr::UnaryOperation { kind: UnaryOpKind::Minus, operand: Box::new(operand) })
        } else {
            Err(
                ParseError {
                    kind: ParseErrorKind::InvalidOperandCount(count),
                    location: operator_token.location,
                },
            )
        }
    }

    fn parse_paren_expr(&mut self) -> (r: Result<Expr, ParseError>)
        requires
            old(self).wf(),
            tok_at(old(self).toks(), old(self).eof(), old(self).position as nat).kind
                == TokenKind::LParen,
        ensures
            final(self).wf(),
            final(self).tokens == old(self).tokens,
            final(self).eof_location == old(self).eof_location,
            ({
                let (sr, p1) = parse_expr_spec(
                    old(self).toks(),
                    old(self).eof(),
                    old(self).position as nat,
                );
                final(self).position == p1 && match r {
                    Ok(e) => sr == Ok::<ExprShape, ParseErrorShape>(e@),
                    Err(e) => sr == Err::<ExprShape, ParseErrorShape>(e@),
                }
            }),
        decreases old(self).tokens@.len() - old(self).position, 0int,
    {
        let lparen_token = self.current_token_and_consume();
        let body = self.parse_expr();
        let closer = self.expect_closing_paren_and_consume(TokenKind::RParen, &lparen_token);
        match closer {
            Ok(_) => body,
            Err(e) => Err(e),
        }
    }

    fn parse_variable_declaration(&mut self) -> (r: Result<(String, Expr), ParseError>)
        requires
            old(self).wf(),
        ensures
            final(self).wf(),
            final(self).tokens == old(self).tokens,
            final(self).eof_location == old(self).eof_location,
            ({
                let (sr, p1) = parse_vardecl_spec(
                    old(self).toks(),
                    old(self).eof(),
                    old(self).position as nat,
                );
                final(self).position == p1 && match r {
                    Ok((name, init)) => sr == Ok::<(Seq<char>, ExprShape), ParseErrorShape>(
                        (name@, init@),
                    ),
                    Err(e) => sr == Err::<(Seq<char>, ExprShape), ParseErrorShape>(e@),
                }
            }),
        decreases old(self).tokens@.len() - old(self).position, 0int,
    {
        let lparen_token = match self.expect_and_consume(TokenKind::LParen) {
            Ok(t) => t,
            Err(e) => {
                return Err(e);
            },
        };
        let lsquare_token = match self.expect_and_consume(TokenKind::LSquare) {
            Ok(t) => t,
            Err(e) => {
                return Err(e);
            },
        };
        let variable_token = match self.expect_and_consume(TokenKind::Identifier) {
            Ok(t) => t,
            Err(e) => {
                return Err(e);
            },
        };
        let init_expr = match self.parse_expr() {
            Ok(e) => e,
            Err(e) => {
                return Err(e);
            },
        };
        match self.expect_closing_paren_and_consume(TokenKind::RSquare, &lsquare_token) {
            Ok(_) => {},
            Err(e) => {
                return Err(e);
            },
        }
        match self.expect_closing_paren_and_consume(TokenKind::RParen, &lparen_token) {
            Ok(_) => {},
            Err(e) => {
                return Err(e);
            },
        }
        Ok((variable_token.spelling, init_expr))
    }

    fn parse_let_expr(&mut self) -> (r: Result<Expr, ParseError>)
        requires
            old(self).wf(),
            tok_at(old(self).toks(), old(self).eof(), old(self).position as nat).kind
                == TokenKind::Let,
        ensures
            final(self).wf(),
            final(self).tokens == old(self).tokens,
            final(self).eof_location == old(self).eof_location,
            ({
                let (sr, p1) = parse_expr_spec(
                    old(self).toks(),
                    old(self).eof(),
                    old(self).position as nat,
                );
                final(self).position == p1 && match r {
                    Ok(e) => sr == Ok::<ExprShape, ParseErrorShape>(e@),
                    Err(e) => sr == Err::<ExprShape, ParseErrorShape>(e@),
                }
            }),
        decreases old(self).tokens@.len() - old(self).position, 0int,
    {
        let ghost toks = self.toks();
        let ghost eof_loc = self.eof();
        let ghost pos0 = self.position as nat;
        let _ = self.current_token_and_consume();
        let ghost decl_pos = self.position as nat;
        let (variable_name, init_expr) = match self.parse_variable_declaration() {
            Ok(decl) => decl,
            Err(e) => {
                return Err(e);
            },
        };
        proof {
            lemma_parse_vardecl_bounds(toks, eof_loc, decl_pos);
        }
        let body = match self.parse_expr() {
            Ok(e) => e,
            Err(e) => {
                return Err(e);
            },
        };
        Ok(
            Expr::Let {
                variable_name,
                init_expr: Box::new(init_expr),
                body: Box::new(body),
            },
        )
    }

    fn parse_expr(&mut self) -> (r: Result<Expr, ParseError>)
        requires
            old(self).wf(),
        ensures
            final(self).wf(),
            final(self).tokens == old(self).tokens,
            final(self).eof_location == old(self).eof_location,
            ({
                let (sr, p1) = parse_expr_spec(
                    old(self).toks(),
                    old(self).eof(),
                    old(self).position as nat,
                );
                final(self).position == p1 && match r {
                    Ok(e) => sr == Ok::<ExprShape, ParseErrorShape>(e@),
                    Err(e) => sr == Err::<ExprShape, ParseErrorShape>(e@),
                }
            }),
        decreases old(self).tokens@.len() - old(self).position, 1int,
    {
        let token = self.current_token();
        match token.kind {
            TokenKind::Integer => match self.parse_integer() {
                Ok(v) => Ok(Expr::Integer(v)),
                Err(e) => Err(e),
            },
            TokenKind::Read => {
                self.consume_token();
                Ok(Expr::Read)
            },
            TokenKind::Identifier => {
                let t = self.current_token_and_consume();
                Ok(Expr::Identifier(t.spelling))
            },
            TokenKind::Plus => self.parse_multi_operands_expr(),
            TokenKind::Minus => self.parse_multi_operands_expr(),
            TokenKind::LParen => self.parse_paren_expr(),
            TokenKind::Let => self.parse_let_expr(),
            _ => Err(
                ParseError {
                    kind: ParseErrorKind::UnexpectedToken(token.spelling),
                    location: token.location,
                },
            ),
        }
    }

    fn parse_finished(&self) -> (done: bool)
        requires
            self.wf(),
        ensures
            done == (tok_at(self.toks(), self.eof(), self.position as nat).kind == TokenKind::EOF),
    {
        self.position >= self.tokens.len() || {
            let is_eof = matches!(self.tokens[self.position].kind, TokenKind::EOF);
            proof {
                assert(self.toks()[self.position as int] == self.tokens@[self.position as int]@);
            }
            is_eof
        }
    }
}

/// Parses a whole source text into a surface expression, or reports the
/// first syntax error with its character position. The entire input must be
/// one expression: a leftover token is an error.
pub fn parse_expr(code: &str) -> (result: Result<Expr, ParseError>)
    ensures
        match result {
            Ok(e) => parse_code(code@) == Ok::<ExprShape, ParseErrorShape>(e@),
            Err(e) => parse_code(code@) == Err::<ExprShape, ParseErrorShape>(e@),
        },
{
    let eof_location = code.unicode_len();
    let lexer = Lexer::new(code);
    let tokens = lexer.into_tokens();
    proof {
        assert(tokens.deep_view() =~~= token_shapes(code@)) by {
            let stream = tokens_from(code@, 0);
            assert(tokens.deep_view().len() == token_shapes(code@).len());
            assert forall|i: int|
                0 <= i < stream.len() implies tokens.deep_view()[i] =~= token_shapes(code@)[i] by {
                assert(tokens.deep_view()[i] == tokens@[i]@);
                assert(token_shapes(code@)[i] == TokenShape {
                    kind: stream[i].0,
                    spelling: code@.subrange(
                        stream[i].1 as int,
                        (stream[i].1 + stream[i].2) as int,
                    ),
                    location: stream[i].1,
                });
            }
        }
    }
    let mut parser = Parser { tokens, position: 0, eof_location };
    let result = match parser.parse_expr() {
        Ok(e) => e,
        Err(e) => {
            return Err(e);
        },
    };
    if parser.parse_finished() {
        Ok(result)
    } else {
        let leftover = parser.current_token();
        Err(
            ParseError {
                kind: ParseErrorKind::UnexpectedToken(leftover.spelling),
                location: leftover.location,
            },
        )
    }
}

} // verus!
