//! The recursive-descent parser, one routine per precedence level:
//!
//! ```text
//! expression  → equality
//! equality    → comparison ( ( "!=" | "==" ) comparison )*
//! comparison  → term ( ( ">" | ">=" | "<" | "<=" ) term )*
//! term        → factor ( ( "-" | "+" ) factor )*
//! factor      → unary ( ( "/" | "*" ) unary )*
//! unary       → ( "!" | "-" ) unary | primary
//! primary     → NUMBER | STRING | "true" | "false" | "nil" | "(" expression ")"
//! ```

use vstd::prelude::*;

use crate::ast::{binary, grouping, literal, unary, Expr};
use crate::token::{Literal, Token, TokenType};

verus! {

#[derive(Debug)]
pub enum ParserError {
    ParseError(String),
}

/// What parsing yields in the model: the expression and the position after
/// it, or the error message.
pub type Parsed = Result<(Expr, int), Seq<char>>;

/// A token sequence the parser can walk: it ends with the end-of-input
/// token, and every string token carries its literal.
pub open spec fn tokens_wf(ts: Seq<Token>) -> bool {
    &&& ts.len() > 0
    &&& ts.last().token_type == TokenType::Eof
    &&& forall|i: int|
        0 <= i < ts.len() && #[trigger] ts[i].token_type == TokenType::String
            ==> ts[i].literal is Some
}

/// The kind of the token at `pos`; the end-of-input kind past the end.
pub open spec fn kind_at(ts: Seq<Token>, pos: int) -> TokenType {
    if 0 <= pos < ts.len() {
        ts[pos].token_type
    } else {
        TokenType::Eof
    }
}

/// The operators of each binary precedence level: 4 equality, 3 comparison,
/// 2 term, 1 factor.
pub open spec fn level_op(level: nat, k: TokenType) -> bool {
    if level == 4 {
        k == TokenType::BangEqual || k == TokenType::EqualEqual
    } else if level == 3 {
        k == TokenType::Greater || k == TokenType::GreaterEqual || k == TokenType::Less || k
            == TokenType::LessEqual
    } else if level == 2 {
        k == TokenType::Minus || k == TokenType::Plus
    } else if level == 1 {
        k == TokenType::Slash || k == TokenType::Star
    } else {
        false
    }
}

/// The prefix operators.
pub open spec fn unary_op(k: TokenType) -> bool {
    k == TokenType::Bang || k == TokenType::Minus
}

/// An expression at `pos`.
pub open spec fn parse_expression(ts: Seq<Token>, pos: int) -> Parsed
    decreases ts.len() - pos, 11nat,
{
    parse_level(ts, pos, 4)
}

/// An operand of binary precedence `level` at `pos` (level 0 is `unary`):
/// one operand of the next level, then the operators of this level, each
/// folded onto what came before as its left operand.
pub open spec fn parse_level(ts: Seq<Token>, pos: int, level: nat) -> Parsed
    decreases ts.len() - pos, 2 * level + 2,
{
    if level == 0 {
        parse_unary(ts, pos)
    } else {
        match parse_level(ts, pos, (level - 1) as nat) {
            Ok((left, p)) => if pos <= p <= ts.len() {
                level_rest(ts, p, level, left)
            } else {
                // Unreachable on a walkable token sequence: see
                // `lemma_parse_level_advances`.
                Ok((left, p))
            },
            Err(m) => Err(m),
        }
    }
}

/// The operators of `level` and their right operands from `pos` on, with
/// `left` built so far.
pub open spec fn level_rest(ts: Seq<Token>, pos: int, level: nat, left: Expr) -> Parsed
    decreases ts.len() - pos, 2 * level + 1,
{
    if level > 0 && level_op(level, kind_at(ts, pos)) {
        match parse_level(ts, pos + 1, (level - 1) as nat) {
            Ok((right, p)) => {
                let folded = Expr::Binary(Box::new(left), ts[pos], Box::new(right));
                if pos < p <= ts.len() {
                    level_rest(ts, p, level, folded)
                } else {
                    // Unreachable on a walkable token sequence: see
                    // `lemma_parse_level_advances`.
                    Ok((folded, p))
                }
            },
            Err(m) => Err(m),
        }
    } else {
        Ok((left, pos))
    }
}

/// A prefix operator applied to a unary expression, or a primary one.
pub open spec fn parse_unary(ts: Seq<Token>, pos: int) -> Parsed
    decreases ts.len() - pos, 1nat,
{
    if unary_op(kind_at(ts, pos)) {
        match parse_unary(ts, pos + 1) {
            Ok((right, p)) => Ok((Expr::Unary(ts[pos], Box::new(right)), p)),
            Err(m) => Err(m),
        }
    } else {
        parse_primary(ts, pos)
    }
}

/// A literal, or a parenthesised expression.
pub open spec fn parse_primary(ts: Seq<Token>, pos: int) -> Parsed
    decreases ts.len() - pos, 0nat,
{
    let k = kind_at(ts, pos);
    if k == TokenType::Number {
        Ok((Expr::Literal(Literal::Number(ts[pos].lexeme)), pos + 1))
    } else if k == TokenType::String {
        Ok((Expr::Literal(ts[pos].literal->Some_0), pos + 1))
    } else if k == TokenType::True {
        Ok((Expr::Literal(Literal::True), pos + 1))
    } else if k == TokenType::False {
        Ok((Expr::Literal(Literal::False), pos + 1))
    } else if k == TokenType::Nil {
        Ok((Expr::Literal(Literal::Nil), pos + 1))
    } else if k == TokenType::LeftParen {
        match parse_expression(ts, pos + 1) {
            Ok((inner, p)) => if kind_at(ts, p) == TokenType::RightParen {
                Ok((Expr::Grouping(Box::new(inner)), p + 1))
            } else {
                Err("Expect ')' after expression."@)
            },
            Err(m) => Err(m),
        }
    } else {
        Err("Expect expression."@)
    }
}

/// On a token sequence the parser can walk, every parse that succeeds from a
/// position inside it ends further on and still inside it (it never consumes
/// the end-of-input token): the progress tests in the model always hold.
pub proof fn lemma_parse_level_advances(ts: Seq<Token>, pos: int, level: nat)
    requires
        tokens_wf(ts),
        0 <= pos < ts.len(),
    ensures
        parse_level(ts, pos, level) matches Ok((_, p)) ==> pos < p < ts.len(),
    decreases ts.len() - pos, 2 * level + 2,
{
    if level == 0 {
        lemma_parse_unary_advances(ts, pos);
    } else {
        lemma_parse_level_advances(ts, pos, (level - 1) as nat);
        if let Ok((left, p)) = parse_level(ts, pos, (level - 1) as nat) {
            lemma_level_rest_advances(ts, p, level, left);
        }
    }
}

proof fn lemma_level_rest_advances(ts: Seq<Token>, pos: int, level: nat, left: Expr)
    requires
        tokens_wf(ts),
        0 <= pos < ts.len(),
    ensures
        level_rest(ts, pos, level, left) matches Ok((_, p)) ==> pos <= p < ts.len(),
    decreases ts.len() - pos, 2 * level + 1,
{
    if level > 0 && level_op(level, kind_at(ts, pos)) {
        assert(pos + 1 < ts.len());
        lemma_parse_level_advances(ts, pos + 1, (level - 1) as nat);
        if let Ok((right, p)) = parse_level(ts, pos + 1, (level - 1) as nat) {
            let folded = Expr::Binary(Box::new(left), ts[pos], Box::new(right));
            lemma_level_rest_advances(ts, p, level, folded);
        }
    }
}

proof fn lemma_parse_unary_advances(ts: Seq<Token>, pos: int)
    requires
        tokens_wf(ts),
        0 <= pos < ts.len(),
    ensures
        parse_unary(ts, pos) matches Ok((_, p)) ==> pos < p < ts.len(),
    decreases ts.len() - pos, 1nat,
{
    if unary_op(kind_at(ts, pos)) {
        assert(pos + 1 < ts.len());
        lemma_parse_unary_advances(ts, pos + 1);
    } else {
        lemma_parse_primary_advances(ts, pos);
    }
}

proof fn lemma_parse_primary_advances(ts: Seq<Token>, pos: int)
    requires
        tokens_wf(ts),
        0 <= pos < ts.len(),
    ensures
        parse_primary(ts, pos) matches Ok((_, p)) ==> pos < p < ts.len(),
    decreases ts.len() - pos, 0nat,
{
    if kind_at(ts, pos) != TokenType::Eof {
        assert(pos + 1 < ts.len());
        if kind_at(ts, pos) == TokenType::LeftParen {
            lemma_parse_level_advances(ts, pos + 1, 4);
        }
    }
}

/// Whether `r` is what the model `expected` says, with the parser left at
/// `current`.
pub open spec fn parsed_as(r: Result<Expr, ParserError>, current: usize, expected: Parsed) -> bool {
    match expected {
        Ok((e, p)) => r == Ok::<Expr, ParserError>(e) && current == p,
        Err(m) => r matches Err(ParserError::ParseError(msg)) && msg@ == m,
    }
}

pub struct Parser<'a> {
    pub tokens: &'a Vec<Token>,
    pub current: usize,
}

impl<'a> Parser<'a> {
    /// The parser stands on a token of a sequence it can walk.
    pub open spec fn wf(&self) -> bool {
        tokens_wf(self.tokens@) && self.current < self.tokens@.len()
    }

    pub fn new(tokens: &'a Vec<Token>) -> (r: Self)
        requires
            tokens_wf(tokens@),
        ensures
            r.wf(),
            r.tokens == tokens,
            r.current == 0,
    {
        Self { tokens, current: 0 }
    }

    /// `expression` → `equality`
    pub fn expression(&mut self) -> (r: Result<Expr, ParserError>)
        requires
            old(self).wf(),
        ensures
            final(self).wf(),
            final(self).tokens == old(self).tokens,
            old(self).current <= final(self).current,
            parsed_as(r, final(self).current, parse_expression(old(self).tokens@, old(self).current as int)),
        decreases old(self).tokens@.len() - old(self).current, 11nat,
    {
        self.equality()
    }

    /// `equality` → `comparison ( ( "!=" | "==" ) comparison )*`
    fn equality(&mut self) -> (r: Result<Expr, ParserError>)
        requires
            old(self).wf(),
        ensures
            final(self).wf(),
            final(self).tokens == old(self).tokens,
            old(self).current <= final(self).current,
            parsed_as(r, final(self).current, parse_level(old(self).tokens@, old(self).current as int, 4)),
        decreases old(self).tokens@.len() - old(self).current, 10nat,
    {
        let ghost ts = self.tokens@;
        let ghost start = self.current as int;
        let mut left = match self.comparison() {
            Ok(e) => e,
            Err(e) => return Err(e),
        };
        loop
            invariant
                self.wf(),
                self.tokens@ == ts,
                self.tokens == old(self).tokens,
                start == old(self).current,
                start <= self.current,
                parse_level(ts, start, 4) == level_rest(ts, self.current as int, 4, left),
            decreases ts.len() - self.current,
        {
            match self.match_tokens(&[TokenType::BangEqual, TokenType::EqualEqual]) {
                Some(operator) => {
                    match self.comparison() {
                        Ok(right) => left = binary(left, operator, right),
                        Err(e) => return Err(e),
                    }
                },
                None => return Ok(left),
            }
        }
    }

    /// `comparison` → `term ( ( ">" | ">=" | "<" | "<=" ) term )*`
    fn comparison(&mut self) -> (r: Result<Expr, ParserError>)
        requires
            old(self).wf(),
        ensures
            final(self).wf(),
            final(self).tokens == old(self).tokens,
            old(self).current <= final(self).current,
            parsed_as(r, final(self).current, parse_level(old(self).tokens@, old(self).current as int, 3)),
        decreases old(self).tokens@.len() - old(self).current, 8nat,
    {
        let ghost ts = self.tokens@;
        let ghost start = self.current as int;
        let mut left = match self.term() {
            Ok(e) => e,
            Err(e) => return Err(e),
        };
        loop
            invariant
                self.wf(),
                self.tokens@ == ts,
                self.tokens == old(self).tokens,
                start == old(self).current,
                start <= self.current,
                parse_level(ts, start, 3) == level_rest(ts, self.current as int, 3, left),
            decreases ts.len() - self.current,
        {
            match self.match_tokens(
                &[TokenType::Greater, TokenType::GreaterEqual, TokenType::Less, TokenType::LessEqual],
            ) {
                Some(operator) => {
                    match self.term() {
                        Ok(right) => left = binary(left, operator, right),
                        Err(e) => return Err(e),
                    }
                },
                None => return Ok(left),
            }
        }
    }

    /// `term` → `factor ( ( "-" | "+" ) factor )*`
    fn term(&mut self) -> (r: Result<Expr, ParserError>)
        requires
            old(self).wf(),
        ensures
            final(self).wf(),
            final(self).tokens == old(self).tokens,
            old(self).current <= final(self).current,
            parsed_as(r, final(self).current, parse_level(old(self).tokens@, old(self).current as int, 2)),
        decreases old(self).tokens@.len() - old(self).current, 6nat,
    {
        let ghost ts = self.tokens@;
        let ghost start = self.current as int;
        let mut left = match self.factor() {
            Ok(e) => e,
            Err(e) => return Err(e),
        };
        loop
            invariant
                self.wf(),
                self.tokens@ == ts,
                self.tokens == old(self).tokens,
                start == old(self).current,
                start <= self.current,
                parse_level(ts, start, 2) == level_rest(ts, self.current as int, 2, left),
            decreases ts.len() - self.current,
        {
            match self.match_tokens(&[TokenType::Minus, TokenType::Plus]) {
                Some(operator) => {
                    match self.factor() {
                        Ok(right) => left = binary(left, operator, right),
                        Err(e) => return Err(e),
                    }
                },
                None => return Ok(left),
            }
        }
    }

    /// `factor` → `unary ( ( "/" | "*" ) unary )*`
    fn factor(&mut self) -> (r: Result<Expr, ParserError>)
        requires
            old(self).wf(),
        ensures
            final(self).wf(),
            final(self).tokens == old(self).tokens,
            old(self).current <= final(self).current,
            parsed_as(r, final(self).current, parse_level(old(self).tokens@, old(self).current as int, 1)),
        decreases old(self).tokens@.len() - old(self).current, 4nat,
    {
        let ghost ts = self.tokens@;
        let ghost start = self.current as int;
        assert(parse_level(ts, start, 0) == parse_unary(ts, start));
        let mut left = match self.unary() {
            Ok(e) => e,
            Err(e) => return Err(e),
        };
        loop
            invariant
                self.wf(),
                self.tokens@ == ts,
                self.tokens == old(self).tokens,
                start == old(self).current,
                start <= self.current,
                parse_level(ts, start, 1) == level_rest(ts, self.current as int, 1, left),
            decreases ts.len() - self.current,
        {
            match self.match_tokens(&[TokenType::Slash, TokenType::Star]) {
                Some(operator) => {
                    assert(parse_level(ts, self.current as int, 0) == parse_unary(
                        ts,
                        self.current as int,
                    ));
                    match self.unary() {
                        Ok(right) => left = binary(left, operator, right),
                        Err(e) => return Err(e),
                    }
                },
                None => return Ok(left),
            }
        }
    }

    /// `unary` → `( "!" | "-" ) unary | primary`
    fn unary(&mut self) -> (r: Result<Expr, ParserError>)
        requires
            old(self).wf(),
        ensures
            final(self).wf(),
            final(self).tokens == old(self).tokens,
            old(self).current <= final(self).current,
            parsed_as(r, final(self).current, parse_unary(old(self).tokens@, old(self).current as int)),
        decreases old(self).tokens@.len() - old(self).current, 1nat,
    {
        if let Some(operator) = self.match_tokens(&[TokenType::Bang, TokenType::Minus]) {
            return match self.unary() {
                Ok(right) => Ok(unary(operator, right)),
                Err(e) => Err(e),
            };
        }
        self.primary()
    }

    /// `primary` → `NUMBER | STRING | "true" | "false" | "nil" | "(" expression ")"`
    fn primary(&mut self) -> (r: Result<Expr, ParserError>)
        requires
            old(self).wf(),
        ensures
            final(self).wf(),
            final(self).tokens == old(self).tokens,
            old(self).current <= final(self).current,
            parsed_as(r, final(self).current, parse_primary(old(self).tokens@, old(self).current as int)),
        decreases old(self).tokens@.len() - old(self).current, 0nat,
    {
        if let Some(token) = self.match_token(TokenType::Number) {
            return Ok(literal(Literal::Number(token.lexeme)));
        }
        if let Some(token) = self.match_token(TokenType::String) {
            return match token.literal {
                Some(value) => Ok(literal(value)),
                None => Err(ParserError::ParseError("Expect expression.".to_owned())),
            };
        }
        if let Some(_) = self.match_token(TokenType::True) {
            return Ok(literal(Literal::True));
        }
        if let Some(_) = self.match_token(TokenType::False) {
            return Ok(literal(Literal::False));
        }
        if let Some(_) = self.match_token(TokenType::Nil) {
            return Ok(literal(Literal::Nil));
        }
        if let Some(_) = self.match_token(TokenType::LeftParen) {
            let expr = match self.expression() {
                Ok(e) => e,
                Err(e) => return Err(e),
            };
            return match self.consume(TokenType::RightParen, "Expect ')' after expression.") {
                Ok(_) => Ok(grouping(expr)),
                Err(e) => Err(e),
            };
        }
        Err(ParserError::ParseError("Expect expression.".to_owned()))
    }

    /// Consumes a token of `token_type`, or fails with `message`.
    fn consume(&mut self, token_type: TokenType, message: &str) -> (r: Result<Token, ParserError>)
        requires
            old(self).wf(),
            token_type != TokenType::Eof,
        ensures
            final(self).wf(),
            final(self).tokens == old(self).tokens,
            kind_at(old(self).tokens@, old(self).current as int) == token_type ==> r == Ok::<
                Token,
                ParserError,
            >(old(self).tokens@[old(self).current as int]) && final(self).current == old(self).current
                + 1,
            kind_at(old(self).tokens@, old(self).current as int) != token_type ==> (r matches Err(
                ParserError::ParseError(msg),
            ) && msg@ == message@) && final(self).current == old(self).current,
    {
        if self.check(token_type) {
            return Ok(self.advance());
        }
        Err(ParserError::ParseError(message.to_owned()))
    }

    /// Consumes the current token where its kind is one of `token_types`.
    fn match_tokens(&mut self, token_types: &[TokenType]) -> (r: Option<Token>)
        requires
            old(self).wf(),
            !token_types@.contains(TokenType::Eof),
        ensures
            final(self).wf(),
            final(self).tokens == old(self).tokens,
            token_types@.contains(kind_at(old(self).tokens@, old(self).current as int)) ==> r
                == Some(old(self).tokens@[old(self).current as int]) && final(self).current
                == old(self).current + 1,
            !token_types@.contains(kind_at(old(self).tokens@, old(self).current as int)) ==> r
                is None && final(self).current == old(self).current,
    {
        let mut i: usize = 0;
        while i < token_types.len()
            invariant
                self.wf(),
                self.tokens == old(self).tokens,
                self.current == old(self).current,
                i <= token_types@.len(),
                !token_types@.contains(TokenType::Eof),
                forall|j: int|
                    0 <= j < i ==> token_types@[j] != kind_at(self.tokens@, self.current as int),
            decreases token_types@.len() - i,
        {
            assert(token_types@.contains(token_types@[i as int]));
            if self.check(token_types[i]) {
                return Some(self.advance());
            }
            i = i + 1;
        }
        None
    }

    /// Consumes the current token where its kind is `token_type`.
    fn match_token(&mut self, token_type: TokenType) -> (r: Option<Token>)
        requires
            old(self).wf(),
            token_type != TokenType::Eof,
        ensures
            final(self).wf(),
            final(self).tokens == old(self).tokens,
            kind_at(old(self).tokens@, old(self).current as int) == token_type ==> r == Some(
                old(self).tokens@[old(self).current as int],
            ) && final(self).current == old(self).current + 1,
            kind_at(old(self).tokens@, old(self).current as int) != token_type ==> r is None
                && final(self).current == old(self).current,
    {
        if self.check(token_type) {
            return Some(self.advance());
        }
        None
    }

    /// Whether the current token, not the end of input, is of `token_type`.
    fn check(&self, token_type: TokenType) -> (r: bool)
        requires
            self.wf(),
        ensures
            r == (kind_at(self.tokens@, self.current as int) != TokenType::Eof && kind_at(
                self.tokens@,
                self.current as int,
            ) == token_type),
    {
        if self.is_at_end() {
            return false;
        }
        self.peek().token_type == token_type
    }

    /// Returns the current token and moves past it, unless it ends the input.
    fn advance(&mut self) -> (r: Token)
        requires
            old(self).wf(),
        ensures
            final(self).wf(),
            final(self).tokens == old(self).tokens,
            r == old(self).tokens@[old(self).current as int],
            final(self).current == old(self).current + if r.token_type == TokenType::Eof {
                0usize
            } else {
                1usize
            },
    {
        let token = self.tokens[self.current].clone();
        let count = self.tokens.len();
        assert(self.tokens@.last() == self.tokens@[count - 1]);
        if !self.is_at_end() {
            self.current = self.current + 1;
        }
        token
    }

    fn is_at_end(&self) -> (r: bool)
        requires
            self.wf(),
        ensures
            r == (self.tokens@[self.current as int].token_type == TokenType::Eof),
    {
        self.peek().token_type == TokenType::Eof
    }

    fn peek(&self) -> (r: Token)
        requires
            self.wf(),
        ensures
            r == self.tokens@[self.current as int],
    {
        self.tokens[self.current].clone()
    }
}

} // verus!
