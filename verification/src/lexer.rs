//! The lexer: splits source text into tokens, skipping whitespace and taking
//! the longest possible run for numbers and words. A word is a keyword, an
//! identifier — a single letter, or a letter-led alphanumeric run containing
//! a digit — or `Unknown`: longer digit-free words are reserved as keyword
//! candidates and never name variables.

use vstd::prelude::*;
use vstd::string::*;
use crate::token::Token;
use crate::token::TokenKind;

verus! {

pub open spec fn is_ws_char(c: char) -> bool {
    c == ' ' || c == '\t' || c == '\n' || c == '\r' || c == '\x0c'
}

pub open spec fn is_digit_char(c: char) -> bool {
    48 <= c as u32 <= 57
}

pub open spec fn is_alpha_char(c: char) -> bool {
    (65 <= c as u32 <= 90) || (97 <= c as u32 <= 122)
}

pub open spec fn is_alnum_char(c: char) -> bool {
    is_digit_char(c) || is_alpha_char(c)
}

/// The first position at or after `pos` holding a non-whitespace character.
pub open spec fn skip_ws(s: Seq<char>, pos: nat) -> nat
    decreases s.len() - pos,
{
    if pos < s.len() && is_ws_char(s[pos as int]) {
        skip_ws(s, pos + 1)
    } else {
        pos
    }
}

/// The end of the maximal digit run starting at `pos`.
pub open spec fn digit_scan_end(s: Seq<char>, pos: nat) -> nat
    decreases s.len() - pos,
{
    if pos < s.len() && is_digit_char(s[pos as int]) {
        digit_scan_end(s, pos + 1)
    } else {
        pos
    }
}

/// The end of the maximal alphanumeric run starting at `pos`.
pub open spec fn alnum_scan_end(s: Seq<char>, pos: nat) -> nat
    decreases s.len() - pos,
{
    if pos < s.len() && is_alnum_char(s[pos as int]) {
        alnum_scan_end(s, pos + 1)
    } else {
        pos
    }
}

pub open spec fn has_digit(w: Seq<char>) -> bool {
    exists|i: int| 0 <= i < w.len() && is_digit_char(#[trigger] w[i])
}

/// How a letter-led word lexes: one of the three keywords, an identifier if
/// it is a single letter or contains a digit, and `Unknown` otherwise.
pub open spec fn word_kind(w: Seq<char>) -> TokenKind {
    if w == "program"@ {
        TokenKind::Program
    } else if w == "read"@ {
        TokenKind::Read
    } else if w == "let"@ {
        TokenKind::Let
    } else if w.len() == 1 || has_digit(w) {
        TokenKind::Identifier
    } else {
        TokenKind::Unknown
    }
}

/// The next token of `s` at or after `pos`: its kind, start, and length.
/// At the end of input the token is `EOF`, located at the length of `s`,
/// with an empty spelling.
pub open spec fn next_token_at(s: Seq<char>, pos: nat) -> (TokenKind, nat, nat) {
    let start = skip_ws(s, pos);
    if start >= s.len() {
        (TokenKind::EOF, s.len(), 0)
    } else {
        let c = s[start as int];
        if c == '(' {
            (TokenKind::LParen, start, 1)
        } else if c == ')' {
            (TokenKind::RParen, start, 1)
        } else if c == '+' {
            (TokenKind::Plus, start, 1)
        } else if c == '-' {
            (TokenKind::Minus, start, 1)
        } else if c == '[' {
            (TokenKind::LSquare, start, 1)
        } else if c == ']' {
            (TokenKind::RSquare, start, 1)
        } else if is_digit_char(c) {
            (TokenKind::Integer, start, (digit_scan_end(s, start) - start) as nat)
        } else if is_alpha_char(c) {
            let end = alnum_scan_end(s, start);
            (word_kind(s.subrange(start as int, end as int)), start, (end - start) as nat)
        } else {
            (TokenKind::Unknown, start, 1)
        }
    }
}

/// Whitespace skipping stays within the text and lands on the first
/// non-whitespace character.
pub proof fn lemma_skip_ws_bounds(s: Seq<char>, pos: nat)
    requires
        pos <= s.len(),
    ensures
        pos <= skip_ws(s, pos) <= s.len(),
    decreases s.len() - pos,
{
    if pos < s.len() && is_ws_char(s[pos as int]) {
        lemma_skip_ws_bounds(s, pos + 1);
    }
}

/// Digit scanning stays within the text.
pub proof fn lemma_digit_scan_bounds(s: Seq<char>, pos: nat)
    requires
        pos <= s.len(),
    ensures
        pos <= digit_scan_end(s, pos) <= s.len(),
    decreases s.len() - pos,
{
    if pos < s.len() && is_digit_char(s[pos as int]) {
        lemma_digit_scan_bounds(s, pos + 1);
    }
}

/// Alphanumeric scanning stays within the text.
pub proof fn lemma_alnum_scan_bounds(s: Seq<char>, pos: nat)
    requires
        pos <= s.len(),
    ensures
        pos <= alnum_scan_end(s, pos) <= s.len(),
    decreases s.len() - pos,
{
    if pos < s.len() && is_alnum_char(s[pos as int]) {
        lemma_alnum_scan_bounds(s, pos + 1);
    }
}

/// Every token lies within the text, and every token but `EOF` is nonempty
/// and starts at or after the scan position.
pub proof fn lemma_next_token_bounds(s: Seq<char>, pos: nat)
    requires
        pos <= s.len(),
    ensures
        ({
            let (kind, start, length) = next_token_at(s, pos);
            pos <= start && start + length <= s.len() && (kind != TokenKind::EOF ==> length >= 1)
                && (kind == TokenKind::EOF ==> start == s.len() && length == 0)
        }),
{
    lemma_skip_ws_bounds(s, pos);
    let start = skip_ws(s, pos);
    if start < s.len() {
        let c = s[start as int];
        if is_digit_char(c) {
            lemma_digit_scan_bounds(s, start);
            assert(digit_scan_end(s, start) == digit_scan_end(s, start + 1));
            lemma_digit_scan_bounds(s, start + 1);
        } else if is_alpha_char(c) {
            lemma_alnum_scan_bounds(s, start);
            assert(alnum_scan_end(s, start) == alnum_scan_end(s, start + 1));
            lemma_alnum_scan_bounds(s, start + 1);
        }
    }
}

/// The token stream of `s` from `pos` to the end of input, `EOF` excluded.
pub open spec fn tokens_from(s: Seq<char>, pos: nat) -> Seq<(TokenKind, nat, nat)>
    decreases s.len() - pos + 1,
        when pos <= s.len()
    via tokens_from_decreases
{
    let (kind, start, length) = next_token_at(s, pos);
    if kind == TokenKind::EOF {
        Seq::empty()
    } else {
        seq![(kind, start, length)] + tokens_from(s, start + length)
    }
}

#[via_fn]
proof fn tokens_from_decreases(s: Seq<char>, pos: nat) {
    lemma_next_token_bounds(s, pos);
}

fn is_ws(c: char) -> (r: bool)
    ensures
        r == is_ws_char(c),
{
    c == ' ' || c == '\t' || c == '\n' || c == '\r' || c == '\x0c'
}

fn is_digit(c: char) -> (r: bool)
    ensures
        r == is_digit_char(c),
{
    let u = c as u32;
    48 <= u && u <= 57
}

fn is_alpha(c: char) -> (r: bool)
    ensures
        r == is_alpha_char(c),
{
    let u = c as u32;
    (65 <= u && u <= 90) || (97 <= u && u <= 122)
}

fn is_alnum(c: char) -> (r: bool)
    ensures
        r == is_alnum_char(c),
{
    is_digit(c) || is_alpha(c)
}

/// Whether the word contains a decimal digit.
fn word_has_digit(w: &str) -> (r: bool)
    ensures
        r == has_digit(w@),
{
    let length = w.unicode_len();
    let mut i: usize = 0;
    while i < length
        invariant
            i <= length,
            length == w@.len(),
            forall|k: int| 0 <= k < i ==> !is_digit_char(#[trigger] w@[k]),
        decreases length - i,
    {
        if is_digit(w.get_char(i)) {
            return true;
        }
        i = i + 1;
    }
    false
}

/// Classifies a letter-led word.
fn word_token_kind(w: &str) -> (kind: TokenKind)
    ensures
        kind == word_kind(w@),
{
    let word = String::from_str(w);
    if word.eq(&String::from_str("program")) {
        TokenKind::Program
    } else if word.eq(&String::from_str("read")) {
        TokenKind::Read
    } else if word.eq(&String::from_str("let")) {
        TokenKind::Let
    } else if w.unicode_len() == 1 || word_has_digit(w) {
        TokenKind::Identifier
    } else {
        TokenKind::Unknown
    }
}

/// A cursor over the source text; `position` is a character index.
pub struct Lexer<'a> {
    pub code: &'a str,
    pub length: usize,
    pub position: usize,
}

impl<'a> Lexer<'a> {
    pub open spec fn wf(&self) -> bool {
        self.length == self.code@.len() && self.position <= self.length
    }

    pub open spec fn text(&self) -> Seq<char> {
        self.code@
    }

    pub open spec fn pos(&self) -> nat {
        self.position as nat
    }

    pub fn new(code: &'a str) -> (lexer: Self)
        ensures
            lexer.wf(),
            lexer.text() == code@,
            lexer.pos() == 0,
    {
        Self { code, length: code.unicode_len(), position: 0 }
    }

    /// Advances past whitespace.
    fn consume_whitespace(&mut self)
        requires
            old(self).wf(),
        ensures
            final(self).wf(),
            final(self).code == old(self).code,
            final(self).length == old(self).length,
            final(self).pos() == skip_ws(old(self).text(), old(self).pos()),
    {
        while self.position < self.length && is_ws(self.code.get_char(self.position))
            invariant
                self.wf(),
                self.code == old(self).code,
                self.length == old(self).length,
                skip_ws(self.text(), old(self).pos()) == skip_ws(self.text(), self.pos()),
            decreases self.length - self.position,
        {
            self.position = self.position + 1;
        }
    }

    /// Advances to the end of the maximal digit run.
    fn consume_digits(&mut self)
        requires
            old(self).wf(),
        ensures
            final(self).wf(),
            final(self).code == old(self).code,
            final(self).length == old(self).length,
            final(self).pos() == digit_scan_end(old(self).text(), old(self).pos()),
    {
        while self.position < self.length && is_digit(self.code.get_char(self.position))
            invariant
                self.wf(),
                self.code == old(self).code,
                self.length == old(self).length,
                digit_scan_end(self.text(), old(self).pos()) == digit_scan_end(
                    self.text(),
                    self.pos(),
                ),
            decreases self.length - self.position,
        {
            self.position = self.position + 1;
        }
    }

    /// Advances to the end of the maximal alphanumeric run.
    fn consume_alnum(&mut self)
        requires
            old(self).wf(),
        ensures
            final(self).wf(),
            final(self).code == old(self).code,
            final(self).length == old(self).length,
            final(self).pos() == alnum_scan_end(old(self).text(), old(self).pos()),
    {
        while self.position < self.length && is_alnum(self.code.get_char(self.position))
            invariant
                self.wf(),
                self.code == old(self).code,
                self.length == old(self).length,
                alnum_scan_end(self.text(), old(self).pos()) == alnum_scan_end(
                    self.text(),
                    self.pos(),
                ),
            decreases self.length - self.position,
        {
            self.position = self.position + 1;
        }
    }

    /// Produces the next token and advances past it.
    pub fn next_token(&mut self) -> (token: Token)
        requires
            old(self).wf(),
        ensures
            final(self).wf(),
            final(self).code == old(self).code,
            final(self).length == old(self).length,
            ({
                let (kind, start, length) = next_token_at(old(self).text(), old(self).pos());
                token.kind == kind && token.location == start && token.spelling@ == old(
                    self,
                ).text().subrange(start as int, (start + length) as int) && final(self).pos()
                    == start + length
            }),
            final(self).pos() >= old(self).pos(),
            token.kind != TokenKind::EOF ==> final(self).pos() > old(self).pos(),
    {
        proof {
            lemma_next_token_bounds(old(self).text(), old(self).pos());
        }
        self.consume_whitespace();
        let start = self.position;
        if start >= self.length {
            let token = Token {
                kind: TokenKind::EOF,
                spelling: String::new(),
                location: self.length,
            };
            self.position = self.length;
            proof {
                assert(token.spelling@ =~= old(self).text().subrange(
                    self.length as int,
                    self.length as int,
                ));
            }
            return token;
        }
        let c = self.code.get_char(start);
        let kind: TokenKind;
        if c == '(' {
            kind = TokenKind::LParen;
            self.position = start + 1;
        } else if c == ')' {
            kind = TokenKind::RParen;
            self.position = start + 1;
        } else if c == '+' {
            kind = TokenKind::Plus;
            self.position = start + 1;
        } else if c == '-' {
            kind = TokenKind::Minus;
            self.position = start + 1;
        } else if c == '[' {
            kind = TokenKind::LSquare;
            self.position = start + 1;
        } else if c == ']' {
            kind = TokenKind::RSquare;
            self.position = start + 1;
        } else if is_digit(c) {
            proof {
                lemma_digit_scan_bounds(self.text(), start as nat);
            }
            self.consume_digits();
            kind = TokenKind::Integer;
        } else if is_alpha(c) {
            proof {
                lemma_alnum_scan_bounds(self.text(), start as nat);
            }
            self.consume_alnum();
            kind = word_token_kind(self.code.substring_char(start, self.position));
        } else {
            kind = TokenKind::Unknown;
            self.position = start + 1;
        }
        let spelling_str = self.code.substring_char(start, self.position);
        let token = Token { kind, spelling: String::from_str(spelling_str), location: start };
        token
    }

    /// Lexes the rest of the input: every token up to, and not including,
    /// the end-of-input marker.
    pub fn into_tokens(self) -> (tokens: Vec<Token>)
        requires
            self.wf(),
        ensures
            ({
                let stream = tokens_from(self.text(), self.pos());
                tokens@.len() == stream.len() && forall|i: int|
                    0 <= i < stream.len() ==> {
                        let (kind, start, length) = #[trigger] stream[i];
                        tokens@[i].kind == kind && tokens@[i].location == start
                            && tokens@[i].spelling@ == self.text().subrange(
                            start as int,
                            (start + length) as int,
                        )
                    }
            }),
    {
        let mut lexer = self;
        let ghost text = lexer.text();
        let ghost full_stream = tokens_from(text, lexer.pos());
        let mut tokens: Vec<Token> = Vec::new();
        loop
            invariant_except_break
                lexer.wf(),
                lexer.text() == text,
                tokens@.len() <= full_stream.len(),
                forall|i: int|
                    0 <= i < tokens@.len() ==> {
                        let (kind, start, length) = #[trigger] full_stream[i];
                        tokens@[i].kind == kind && tokens@[i].location == start
                            && tokens@[i].spelling@ == text.subrange(
                            start as int,
                            (start + length) as int,
                        )
                    },
                tokens_from(text, lexer.pos()) =~= full_stream.skip(tokens@.len() as int),
            ensures
                tokens@.len() == full_stream.len(),
                forall|i: int|
                    0 <= i < tokens@.len() ==> {
                        let (kind, start, length) = #[trigger] full_stream[i];
                        tokens@[i].kind == kind && tokens@[i].location == start
                            && tokens@[i].spelling@ == text.subrange(
                            start as int,
                            (start + length) as int,
                        )
                    },
            decreases lexer.length - lexer.position,
        {
            let ghost pos_before = lexer.pos();
            let ghost rest = tokens_from(text, pos_before);
            let token = lexer.next_token();
            if matches!(token.kind, TokenKind::EOF) {
                proof {
                    assert(tokens_from(text, pos_before) =~= Seq::<
                        (TokenKind, nat, nat),
                    >::empty());
                    assert(full_stream.skip(tokens@.len() as int).len() == 0);
                }
                break;
            }
            proof {
                lemma_next_token_bounds(text, pos_before);
                assert(rest == seq![next_token_at(text, pos_before)] + tokens_from(
                    text,
                    lexer.pos(),
                ));
            }
            tokens.push(token);
            proof {
                assert(rest[0] == next_token_at(text, pos_before));
                assert(full_stream.skip(tokens@.len() - 1) =~= rest);
                assert(full_stream[tokens@.len() - 1] == rest[0]);
                assert(rest.skip(1) =~= tokens_from(text, lexer.pos()));
                assert(full_stream.skip(tokens@.len() as int) =~= (full_stream.skip(
                    tokens@.len() - 1,
                )).skip(1));
                assert(tokens_from(text, lexer.pos()) =~= full_stream.skip(tokens@.len() as int));
            }
        }
        tokens
    }
}

} // verus!
