//! The parser: consumes the scanner's token sequence through a two-token
//! lookahead window and builds syntax-tree nodes, using recursive descent for
//! statements and precedence climbing for expressions. Malformed constructs
//! are skipped with a human-readable error recorded; parsing never panics and
//! is never fatal, so one run can surface several independent errors.

use crate::ast::{
    lemma_view_arguments_push, lemma_view_block_push, view_arguments, view_block, Block,
    Expression, Statement,
};
use crate::grammar::{
    can_start_expression, literal_at, next_pos, peek_type_at, spec_arguments_loop, spec_block_loop,
    spec_expect, spec_parameters_exit, spec_parameters_loop, spec_parse_block_statement,
    spec_parse_call_arguments, spec_parse_expression, spec_parse_expression_statement,
    spec_parse_function_declaration, spec_parse_function_literal, spec_parse_function_parameters,
    spec_infix_loop, spec_parse_if_parts, spec_parse_if_statement, spec_parse_let_statement,
    spec_parse_prefix_position, spec_parse_program, spec_parse_return_statement,
    spec_parse_statement, spec_precedence, token_type_at, PREFIX_PRECEDENCE,
};
use crate::lexer::Lexer;
use crate::scan::{lemma_scan_at_bounds, lemma_scan_at_end_is_eof, lemma_scan_at_eof_end, scan_at};
use crate::token::{SpecTokenType, Token, TokenType};
use vstd::prelude::*;
use vstd::seq_lib::*;
use vstd::string::*;

verus! {

/// Whether two token categories are the same, payloads included.
fn token_type_eq(a: &TokenType, b: &TokenType) -> (r: bool)
    ensures
        r == (a@ == b@),
{
    match (a, b) {
        (TokenType::EOF, TokenType::EOF) => true,
        (TokenType::Ident(x), TokenType::Ident(y)) => *x == *y,
        (TokenType::Int(x), TokenType::Int(y)) => *x == *y,
        (TokenType::Plus, TokenType::Plus) => true,
        (TokenType::Minus, TokenType::Minus) => true,
        (TokenType::Asterisk, TokenType::Asterisk) => true,
        (TokenType::Slash, TokenType::Slash) => true,
        (TokenType::Equal, TokenType::Equal) => true,
        (TokenType::NotEqual, TokenType::NotEqual) => true,
        (TokenType::LessThan, TokenType::LessThan) => true,
        (TokenType::GreaterThan, TokenType::GreaterThan) => true,
        (TokenType::Illegal, TokenType::Illegal) => true,
        (TokenType::Let, TokenType::Let) => true,
        (TokenType::If, TokenType::If) => true,
        (TokenType::Else, TokenType::Else) => true,
        (TokenType::Fn, TokenType::Fn) => true,
        (TokenType::Return, TokenType::Return) => true,
        (TokenType::True, TokenType::True) => true,
        (TokenType::False, TokenType::False) => true,
        (TokenType::LParen, TokenType::LParen) => true,
        (TokenType::RParen, TokenType::RParen) => true,
        (TokenType::LBrace, TokenType::LBrace) => true,
        (TokenType::RBrace, TokenType::RBrace) => true,
        (TokenType::Comma, TokenType::Comma) => true,
        (TokenType::Semicolon, TokenType::Semicolon) => true,
        (TokenType::Str(x), TokenType::Str(y)) => *x == *y,
        _ => false,
    }
}

/// A short display name for a token category, for error messages.
fn token_type_name(t: &TokenType) -> (r: &'static str) {
    match t {
        TokenType::EOF => "end of input",
        TokenType::Ident(_) => "an identifier",
        TokenType::Int(_) => "an integer literal",
        TokenType::Plus => "'+'",
        TokenType::Minus => "'-'",
        TokenType::Asterisk => "'*'",
        TokenType::Slash => "'/'",
        TokenType::Equal => "'='",
        TokenType::NotEqual => "'!'",
        TokenType::LessThan => "'<'",
        TokenType::GreaterThan => "'>'",
        TokenType::Illegal => "an illegal character",
        TokenType::Let => "'let'",
        TokenType::If => "'if'",
        TokenType::Else => "'else'",
        TokenType::Fn => "'fn'",
        TokenType::Return => "'return'",
        TokenType::True => "'true'",
        TokenType::False => "'false'",
        TokenType::LParen => "'('",
        TokenType::RParen => "')'",
        TokenType::LBrace => "'{'",
        TokenType::RBrace => "'}'",
        TokenType::Comma => "','",
        TokenType::Semicolon => "';'",
        TokenType::Str(_) => "a string literal",
    }
}

fn precedence_of(t: &TokenType) -> (r: u8)
    ensures
        r == spec_precedence(t@),
{
    match t {
        TokenType::Equal | TokenType::NotEqual => 1,
        TokenType::LessThan | TokenType::GreaterThan => 2,
        TokenType::Plus | TokenType::Minus => 3,
        TokenType::Asterisk | TokenType::Slash => 4,
        TokenType::LParen => 6,
        _ => 0,
    }
}

/// The parser: the scanner it owns, the two-token lookahead window, and the
/// errors collected so far.
pub struct Parser {
    pub lexer: Lexer,
    pub current_token: Token,
    pub peek_token: Token,
    pub errors: Vec<String>,
    /// The position, in the `scan` model's token stream, of the token under
    /// the cursor: the parse model in `grammar` is stated over it.
    pub cursor: Ghost<int>,
}

impl Parser {
    /// The lookahead window is consistent with the scanner: the current token
    /// is the one the `scan` model yields at `cursor`, the peek token is the
    /// one after it, and the scanner has consumed the input up to the end of
    /// the peek token. Once the current token is end-of-input so is the peek
    /// token, and a peek token of end-of-input means the scanner stands at
    /// the end of the source.
    pub closed spec fn wf(self) -> bool {
        &&& self.lexer.wf()
        &&& 0 <= self.cursor@ <= self.lexer.src().len()
        &&& self.current_token@.token_type == token_type_at(self.lexer.src(), self.cursor@)
        &&& self.current_token@.literal == literal_at(self.lexer.src(), self.cursor@)
        &&& self.peek_token@.token_type == peek_type_at(self.lexer.src(), self.cursor@)
        &&& self.peek_token@.literal == literal_at(
            self.lexer.src(),
            next_pos(self.lexer.src(), self.cursor@),
        )
        &&& self.lexer.pos() == next_pos(
            self.lexer.src(),
            next_pos(self.lexer.src(), self.cursor@),
        )
        &&& (self.current_token@.token_type == SpecTokenType::EOF
            ==> self.peek_token@.token_type == SpecTokenType::EOF)
        &&& (self.peek_token@.token_type == SpecTokenType::EOF ==> self.lexer.pos()
            == self.lexer.src().len())
    }

    /// The source text being parsed.
    pub closed spec fn source(self) -> Seq<char> {
        self.lexer.src()
    }

    /// How much input is still in front of the parser: unconsumed characters
    /// plus the not-yet-end-of-input tokens of the lookahead window. Every
    /// parsing step leaves it no larger, and consuming a token shrinks it.
    pub closed spec fn measure(self) -> int {
        (if self.lexer.pos() <= self.lexer.src().len() {
            self.lexer.src().len() - self.lexer.pos()
        } else {
            0int
        }) + (
        if self.current_token@.token_type == SpecTokenType::EOF {
            0int
        } else {
            1int
        }) + (
        if self.peek_token@.token_type == SpecTokenType::EOF {
            0int
        } else {
            1int
        })
    }

    pub fn new(lexer: Lexer) -> (parser: Parser)
        requires
            lexer.wf(),
        ensures
            parser.wf(),
            parser.source() == lexer.src(),
            parser.errors@.len() == 0,
            parser.cursor@ == lexer.pos(),
            parser.lexer.pos() == next_pos(lexer.src(), next_pos(lexer.src(), lexer.pos())),
            ({
                let first = scan_at(lexer.src(), lexer.pos());
                &&& parser.current_token@.token_type == first.token_type
                &&& parser.current_token@.literal == first.literal
                &&& parser.peek_token@.token_type == scan_at(lexer.src(), first.end).token_type
                &&& parser.peek_token@.literal == scan_at(lexer.src(), first.end).literal
            }),
    {
        let mut lexer = lexer;
        let ghost s = lexer.src();
        let ghost p0 = lexer.pos();
        let ghost l0 = lexer;
        let current_token = lexer.next_token();
        let ghost p1 = lexer.pos();
        let ghost l1 = lexer;
        let peek_token = lexer.next_token();
        proof {
            l0.lemma_wf_bounds();
            l1.lemma_wf_bounds();
            lemma_scan_at_bounds(s, p0);
            lemma_scan_at_eof_end(s, p0);
            lemma_scan_at_bounds(s, p1);
            lemma_scan_at_eof_end(s, p1);
            if current_token@.token_type == SpecTokenType::EOF {
                lemma_scan_at_end_is_eof(s, p1);
            }
        }
        Parser { lexer, current_token, peek_token, errors: Vec::new(), cursor: Ghost(p0) }
    }

    /// The errors collected so far, in the order they occurred. A non-empty
    /// list means the produced syntax tree is partial and unreliable.
    pub fn errors(&self) -> (r: &Vec<String>)
        ensures
            r == self.errors,
    {
        &self.errors
    }

    /// Shift the lookahead window: the peek token becomes current, the
    /// scanner supplies as the fresh peek token exactly the next token of the
    /// token stream, and the cursor moves one token forward.
    fn next_token(&mut self)
        requires
            old(self).wf(),
        ensures
            final(self).wf(),
            final(self).source() == old(self).source(),
            final(self).errors@ == old(self).errors@,
            final(self).current_token == old(self).peek_token,
            final(self).cursor@ == next_pos(old(self).source(), old(self).cursor@),
            old(self).cursor@ <= final(self).cursor@,
            final(self).peek_token@.token_type == peek_type_at(
                old(self).source(),
                final(self).cursor@,
            ),
            final(self).measure() <= old(self).measure(),
            old(self).current_token@.token_type != SpecTokenType::EOF ==> final(self).measure()
                < old(self).measure(),
    {
        let ghost s = self.lexer.src();
        let ghost p0 = self.lexer.pos();
        let ghost l0 = self.lexer;
        let ghost c0 = self.cursor@;
        core::mem::swap(&mut self.current_token, &mut self.peek_token);
        self.peek_token = self.lexer.next_token();
        self.cursor = Ghost(next_pos(s, c0));
        proof {
            l0.lemma_wf_bounds();
            crate::scan::lemma_scan_progress(s, c0);
            crate::scan::lemma_scan_progress(s, next_pos(s, c0));
            lemma_scan_at_bounds(s, p0);
            lemma_scan_at_eof_end(s, p0);
            if self.current_token@.token_type == SpecTokenType::EOF {
                lemma_scan_at_end_is_eof(s, p0);
            }
        }
    }

    /// Whether the peek token has the given category.
    fn peek_token_is(&self, t: &TokenType) -> (r: bool)
        ensures
            r == (self.peek_token@.token_type == t@),
    {
        token_type_eq(&self.peek_token.token_type, t)
    }

    /// Whether the current token has the given category.
    fn current_token_is(&self, t: &TokenType) -> (r: bool)
        ensures
            r == (self.current_token@.token_type == t@),
    {
        token_type_eq(&self.current_token.token_type, t)
    }

    /// Record an error that the parser expected one kind of token and saw
    /// another.
    fn push_error_expected(&mut self, expected: &TokenType)
        ensures
            final(self).lexer == old(self).lexer,
            final(self).current_token == old(self).current_token,
            final(self).peek_token == old(self).peek_token,
            final(self).cursor@ == old(self).cursor@,
            final(self).errors@.len() == old(self).errors@.len() + 1,
            old(self).errors@.is_prefix_of(final(self).errors@),
    {
        let mut message = String::from_str("expected next token to be ");
        message.append(token_type_name(expected));
        message.append(", got ");
        message.append(token_type_name(&self.peek_token.token_type));
        message.append(" instead");
        self.errors.push(message);
    }

    /// Record an error under the current token, from a fixed description.
    fn push_error_at_current(&mut self, description: &str)
        ensures
            final(self).lexer == old(self).lexer,
            final(self).current_token == old(self).current_token,
            final(self).peek_token == old(self).peek_token,
            final(self).cursor@ == old(self).cursor@,
            final(self).errors@.len() == old(self).errors@.len() + 1,
            old(self).errors@.is_prefix_of(final(self).errors@),
    {
        let mut message = String::from_str(description);
        message.append(", got ");
        message.append(token_type_name(&self.current_token.token_type));
        self.errors.push(message);
    }

    /// If the peek token has the expected category, advance onto it and
    /// succeed; otherwise record an expected-versus-actual error and fail
    /// without advancing.
    fn expect_peek(&mut self, expected: TokenType) -> (r: bool)
        requires
            old(self).wf(),
            expected@ != SpecTokenType::EOF,
        ensures
            final(self).wf(),
            final(self).source() == old(self).source(),
            final(self).measure() <= old(self).measure(),
            old(self).errors@.is_prefix_of(final(self).errors@),
            ({
                let (ok, after, recorded) = spec_expect(
                    old(self).source(),
                    old(self).cursor@,
                    expected@,
                );
                &&& r == ok
                &&& final(self).cursor@ == after
                &&& final(self).errors@.len() == old(self).errors@.len() + recorded
            }),
            old(self).cursor@ <= final(self).cursor@,
            r ==> {
                &&& final(self).measure() < old(self).measure()
                &&& final(self).current_token == old(self).peek_token
                &&& final(self).current_token@.token_type == expected@
                &&& final(self).errors@ == old(self).errors@
            },
            !r ==> {
                &&& final(self).measure() == old(self).measure()
                &&& final(self).current_token == old(self).current_token
                &&& final(self).peek_token == old(self).peek_token
                &&& final(self).errors@.len() == old(self).errors@.len() + 1
            },
    {
        if self.peek_token_is(&expected) {
            self.next_token();
            true
        } else {
            self.push_error_expected(&expected);
            false
        }
    }

    /// Record an error that something particular was expected at the peek
    /// token.
    fn push_error_expected_peek(&mut self, what: &str)
        ensures
            final(self).lexer == old(self).lexer,
            final(self).current_token == old(self).current_token,
            final(self).peek_token == old(self).peek_token,
            final(self).cursor@ == old(self).cursor@,
            final(self).errors@.len() == old(self).errors@.len() + 1,
            old(self).errors@.is_prefix_of(final(self).errors@),
    {
        let mut message = String::from_str("expected ");
        message.append(what);
        message.append(", got ");
        message.append(token_type_name(&self.peek_token.token_type));
        message.append(" instead");
        self.errors.push(message);
    }

    /// Record an error from a fixed description.
    fn push_error_plain(&mut self, description: &str)
        ensures
            final(self).lexer == old(self).lexer,
            final(self).current_token == old(self).current_token,
            final(self).peek_token == old(self).peek_token,
            final(self).cursor@ == old(self).cursor@,
            final(self).errors@.len() == old(self).errors@.len() + 1,
            old(self).errors@.is_prefix_of(final(self).errors@),
    {
        self.errors.push(String::from_str(description));
    }

    /// Parse one statement, dispatched on the current token: `let`, `return`,
    /// `fn` and `if` have their own forms, and anything else is attempted as
    /// an expression statement. On failure the failing construct is abandoned
    /// with an error recorded and no node is produced.
    #[verifier::rlimit(100)]
    #[verifier::spinoff_prover]
    pub fn parse_statement(&mut self) -> (r: Option<Statement>)
        requires
            old(self).wf(),
        ensures
            final(self).wf(),
            final(self).source() == old(self).source(),
            final(self).measure() <= old(self).measure(),
            old(self).errors@.is_prefix_of(final(self).errors@),
            old(self).current_token@.token_type != SpecTokenType::EOF ==> (final(self).measure()
                < old(self).measure() || final(self).current_token@ == old(self).current_token@),
            old(self).cursor@ <= final(self).cursor@,
            ({
                let (node, after, recorded) = spec_parse_statement(
                    old(self).source(),
                    old(self).cursor@,
                );
                &&& (match r {
                    Some(v) => node == Some(v@),
                    None => node is None,
                })
                &&& final(self).cursor@ == after
                &&& final(self).errors@.len() == old(self).errors@.len() + recorded
            }),
            r is None ==> final(self).errors@.len() > old(self).errors@.len(),
            !(old(self).current_token@.token_type == SpecTokenType::Let
                || old(self).current_token@.token_type == SpecTokenType::Return
                || old(self).current_token@.token_type == SpecTokenType::Fn
                || old(self).current_token@.token_type == SpecTokenType::If
                || can_start_expression(old(self).current_token@.token_type)) ==> r is None,
            match r {
                Some(s) => match old(self).current_token@.token_type {
                    SpecTokenType::Let => s is Let,
                    SpecTokenType::Return => s is Return,
                    SpecTokenType::Fn => s is Function,
                    SpecTokenType::If => s is If,
                    _ => s is Expression,
                },
                None => true,
            },
        decreases old(self).measure(), 5int,
    {
        reveal(crate::grammar::spec_parse_statement);
        reveal(crate::grammar::spec_parse_let_statement);
        reveal(crate::grammar::spec_parse_expression);
        reveal(crate::grammar::spec_parse_return_statement);
        reveal(crate::grammar::spec_parse_expression);
        reveal(crate::grammar::spec_parse_function_declaration);
        reveal(crate::grammar::spec_parse_function_parameters);
        reveal(crate::grammar::spec_parse_block_statement);
        reveal(crate::grammar::spec_parse_if_statement);
        reveal(crate::grammar::spec_parse_expression_statement);
        reveal(crate::grammar::spec_parse_expression);
        if self.current_token_is(&TokenType::Let) {
            self.parse_let_statement()
        } else if self.current_token_is(&TokenType::Return) {
            self.parse_return_statement()
        } else if self.current_token_is(&TokenType::Fn) {
            self.parse_function_declaration()
        } else if self.current_token_is(&TokenType::If) {
            self.parse_if_statement()
        } else {
            let r = self.parse_expression_statement();
            if r.is_none() {
                self.push_error_at_current("unhandled statement");
            }
            r
        }
    }

    /// Parse `let <identifier> = <expression> ;`. Each missing piece fails
    /// the statement with an error recorded and no node produced.
    #[verifier::rlimit(100)]
    #[verifier::spinoff_prover]
    pub fn parse_let_statement(&mut self) -> (r: Option<Statement>)
        requires
            old(self).wf(),
        ensures
            final(self).wf(),
            final(self).source() == old(self).source(),
            final(self).measure() <= old(self).measure(),
            old(self).errors@.is_prefix_of(final(self).errors@),
            old(self).current_token@.token_type != SpecTokenType::EOF ==> (final(self).measure()
                < old(self).measure() || final(self).current_token@ == old(self).current_token@),
            old(self).cursor@ <= final(self).cursor@,
            ({
                let (node, after, recorded) = spec_parse_let_statement(
                    old(self).source(),
                    old(self).cursor@,
                );
                &&& (match r {
                    Some(v) => node == Some(v@),
                    None => node is None,
                })
                &&& final(self).cursor@ == after
                &&& final(self).errors@.len() == old(self).errors@.len() + recorded
            }),
            r is None ==> final(self).errors@.len() > old(self).errors@.len(),
            !(old(self).peek_token@.token_type matches SpecTokenType::Ident(_)) ==> r is None,
            match r {
                Some(s) => match s {
                    Statement::Let(name, _) => old(self).peek_token@.token_type
                        == SpecTokenType::Ident(name@),
                    _ => false,
                },
                None => true,
            },
        decreases old(self).measure(), 4int,
    {
        reveal(crate::grammar::spec_parse_let_statement);
        let name_opt: Option<String> = match &self.peek_token.token_type {
            TokenType::Ident(n) => Some(n.clone()),
            _ => None,
        };
        let name = match name_opt {
            Some(n) => n,
            None => {
                self.push_error_expected_peek("an identifier after 'let'");
                return None;
            },
        };
        self.next_token();
        if !self.expect_peek(TokenType::Equal) {
            return None;
        }
        self.next_token();
        let value = match self.parse_expression(0) {
            Some(e) => e,
            None => return None,
        };
        if !self.expect_peek(TokenType::Semicolon) {
            return None;
        }
        Some(Statement::Let(name, value))
    }

    /// Parse `return <expression> ;`.
    #[verifier::rlimit(100)]
    #[verifier::spinoff_prover]
    pub fn parse_return_statement(&mut self) -> (r: Option<Statement>)
        requires
            old(self).wf(),
        ensures
            final(self).wf(),
            final(self).source() == old(self).source(),
            final(self).measure() <= old(self).measure(),
            old(self).errors@.is_prefix_of(final(self).errors@),
            old(self).current_token@.token_type != SpecTokenType::EOF ==> (final(self).measure()
                < old(self).measure() || final(self).current_token@ == old(self).current_token@),
            old(self).cursor@ <= final(self).cursor@,
            ({
                let (node, after, recorded) = spec_parse_return_statement(
                    old(self).source(),
                    old(self).cursor@,
                );
                &&& (match r {
                    Some(v) => node == Some(v@),
                    None => node is None,
                })
                &&& final(self).cursor@ == after
                &&& final(self).errors@.len() == old(self).errors@.len() + recorded
            }),
            r is None ==> final(self).errors@.len() > old(self).errors@.len(),
            match r {
                Some(s) => s is Return,
                None => true,
            },
        decreases old(self).measure(), 4int,
    {
        reveal(crate::grammar::spec_parse_return_statement);
        self.next_token();
        let value = match self.parse_expression(0) {
            Some(e) => e,
            None => return None,
        };
        if !self.expect_peek(TokenType::Semicolon) {
            return None;
        }
        Some(Statement::Return(value))
    }

    /// Parse `<expression> ;`.
    #[verifier::rlimit(100)]
    #[verifier::spinoff_prover]
    pub fn parse_expression_statement(&mut self) -> (r: Option<Statement>)
        requires
            old(self).wf(),
        ensures
            final(self).wf(),
            final(self).source() == old(self).source(),
            final(self).measure() <= old(self).measure(),
            old(self).errors@.is_prefix_of(final(self).errors@),
            old(self).current_token@.token_type != SpecTokenType::EOF ==> (final(self).measure()
                < old(self).measure() || final(self).current_token@ == old(self).current_token@),
            old(self).cursor@ <= final(self).cursor@,
            ({
                let (node, after, recorded) = spec_parse_expression_statement(
                    old(self).source(),
                    old(self).cursor@,
                );
                &&& (match r {
                    Some(v) => node == Some(v@),
                    None => node is None,
                })
                &&& final(self).cursor@ == after
                &&& final(self).errors@.len() == old(self).errors@.len() + recorded
            }),
            r is None ==> final(self).errors@.len() > old(self).errors@.len(),
            !can_start_expression(old(self).current_token@.token_type) ==> r is None,
            match r {
                Some(s) => s is Expression,
                None => true,
            },
        decreases old(self).measure(), 4int,
    {
        reveal(crate::grammar::spec_parse_expression_statement);
        let expression = match self.parse_expression(0) {
            Some(e) => e,
            None => return None,
        };
        if !self.expect_peek(TokenType::Semicolon) {
            return None;
        }
        Some(Statement::Expression(expression))
    }

    /// Parse `fn <identifier> ( <parameters> ) { <block> }`. A malformed
    /// parameter list is recorded as an error, but parsing still attempts to
    /// continue into the block.
    #[verifier::rlimit(100)]
    #[verifier::spinoff_prover]
    pub fn parse_function_declaration(&mut self) -> (r: Option<Statement>)
        requires
            old(self).wf(),
        ensures
            final(self).wf(),
            final(self).source() == old(self).source(),
            final(self).measure() <= old(self).measure(),
            old(self).errors@.is_prefix_of(final(self).errors@),
            old(self).current_token@.token_type != SpecTokenType::EOF ==> (final(self).measure()
                < old(self).measure() || final(self).current_token@ == old(self).current_token@),
            old(self).cursor@ <= final(self).cursor@,
            ({
                let (node, after, recorded) = spec_parse_function_declaration(
                    old(self).source(),
                    old(self).cursor@,
                );
                &&& (match r {
                    Some(v) => node == Some(v@),
                    None => node is None,
                })
                &&& final(self).cursor@ == after
                &&& final(self).errors@.len() == old(self).errors@.len() + recorded
            }),
            r is None ==> final(self).errors@.len() > old(self).errors@.len(),
            !(old(self).peek_token@.token_type matches SpecTokenType::Ident(_)) ==> r is None,
            match r {
                Some(s) => match s {
                    Statement::Function(name, _, _) => old(self).peek_token@.token_type
                        == SpecTokenType::Ident(name@),
                    _ => false,
                },
                None => true,
            },
        decreases old(self).measure(), 4int,
    {
        reveal(crate::grammar::spec_parse_function_declaration);
        let name_opt: Option<String> = match &self.peek_token.token_type {
            TokenType::Ident(n) => Some(n.clone()),
            _ => None,
        };
        let name = match name_opt {
            Some(n) => n,
            None => {
                self.push_error_expected_peek("a function name");
                return None;
            },
        };
        self.next_token();
        if !self.expect_peek(TokenType::LParen) {
            return None;
        }
        let parameters = self.parse_function_parameters();
        if !self.expect_peek(TokenType::LBrace) {
            return None;
        }
        let body = match self.parse_block_statement() {
            Some(b) => b,
            None => return None,
        };
        Some(Statement::Function(name, parameters, body))
    }

    /// Parse the statement form of `if`.
    fn parse_if_statement(&mut self) -> (r: Option<Statement>)
        requires
            old(self).wf(),
        ensures
            final(self).wf(),
            final(self).source() == old(self).source(),
            final(self).measure() <= old(self).measure(),
            old(self).errors@.is_prefix_of(final(self).errors@),
            old(self).current_token@.token_type != SpecTokenType::EOF ==> (final(self).measure()
                < old(self).measure() || final(self).current_token@ == old(self).current_token@),
            old(self).cursor@ <= final(self).cursor@,
            ({
                let (node, after, recorded) = spec_parse_if_statement(
                    old(self).source(),
                    old(self).cursor@,
                );
                &&& (match r {
                    Some(v) => node == Some(v@),
                    None => node is None,
                })
                &&& final(self).cursor@ == after
                &&& final(self).errors@.len() == old(self).errors@.len() + recorded
            }),
            r is None ==> final(self).errors@.len() > old(self).errors@.len(),
            match r {
                Some(s) => s is If,
                None => true,
            },
        decreases old(self).measure(), 4int,
    {
        reveal(crate::grammar::spec_parse_if_statement);
        reveal(crate::grammar::spec_parse_if_parts);
        reveal(crate::grammar::spec_parse_expression);
        reveal(crate::grammar::spec_parse_block_statement);
        let parts = match self.parse_if_parts() {
            Some(p) => p,
            None => return None,
        };
        Some(Statement::If(parts.0, parts.1, parts.2))
    }

    /// Parse `if ( <expression> ) { <block> } [ else { <block> } ]`, the form
    /// shared by the statement and the expression variants.
    #[verifier::rlimit(100)]
    #[verifier::spinoff_prover]
    fn parse_if_parts(&mut self) -> (r: Option<(Expression, Block, Option<Block>)>)
        requires
            old(self).wf(),
        ensures
            final(self).wf(),
            final(self).source() == old(self).source(),
            final(self).measure() <= old(self).measure(),
            old(self).errors@.is_prefix_of(final(self).errors@),
            old(self).current_token@.token_type != SpecTokenType::EOF ==> (final(self).measure()
                < old(self).measure() || final(self).current_token@ == old(self).current_token@),
            r is None ==> final(self).errors@.len() > old(self).errors@.len(),
            old(self).cursor@ <= final(self).cursor@,
            ({
                let (node, after, recorded) = spec_parse_if_parts(
                    old(self).source(),
                    old(self).cursor@,
                );
                &&& (match r {
                    Some(parts) => node == Some(
                        (
                            parts.0@,
                            view_block(parts.1@),
                            match parts.2 {
                                Some(b) => Some(view_block(b@)),
                                None => None,
                            },
                        ),
                    ),
                    None => node is None,
                })
                &&& final(self).cursor@ == after
                &&& final(self).errors@.len() == old(self).errors@.len() + recorded
            }),
        decreases old(self).measure(), 0int,
    {
        reveal(crate::grammar::spec_parse_if_parts);
        if !self.expect_peek(TokenType::LParen) {
            return None;
        }
        self.next_token();
        let condition = match self.parse_expression(0) {
            Some(e) => e,
            None => return None,
        };
        if !self.expect_peek(TokenType::RParen) {
            return None;
        }
        if !self.expect_peek(TokenType::LBrace) {
            return None;
        }
        let consequence = match self.parse_block_statement() {
            Some(b) => b,
            None => return None,
        };
        let alternative: Option<Block> = if self.peek_token_is(&TokenType::Else) {
            self.next_token();
            if !self.expect_peek(TokenType::LBrace) {
                return None;
            }
            match self.parse_block_statement() {
                Some(b) => Some(b),
                None => return None,
            }
        } else {
            None
        };
        Some((condition, consequence, alternative))
    }

    /// Parse the expression form of `fn`: an anonymous function literal,
    /// `fn ( <parameters> ) { <block> }`.
    fn parse_function_literal(&mut self) -> (r: Option<Expression>)
        requires
            old(self).wf(),
        ensures
            final(self).wf(),
            final(self).source() == old(self).source(),
            final(self).measure() <= old(self).measure(),
            old(self).errors@.is_prefix_of(final(self).errors@),
            old(self).current_token@.token_type != SpecTokenType::EOF ==> (final(self).measure()
                < old(self).measure() || final(self).current_token@ == old(self).current_token@),
            old(self).cursor@ <= final(self).cursor@,
            ({
                let (node, after, recorded) = spec_parse_function_literal(
                    old(self).source(),
                    old(self).cursor@,
                );
                &&& (match r {
                    Some(v) => node == Some(v@),
                    None => node is None,
                })
                &&& final(self).cursor@ == after
                &&& final(self).errors@.len() == old(self).errors@.len() + recorded
            }),
            r is None ==> final(self).errors@.len() > old(self).errors@.len(),
            match r {
                Some(e) => e is Function,
                None => true,
            },
        decreases old(self).measure(), 0int,
    {
        reveal(crate::grammar::spec_parse_function_literal);
        reveal(crate::grammar::spec_parse_function_parameters);
        reveal(crate::grammar::spec_parse_block_statement);
        if !self.expect_peek(TokenType::LParen) {
            return None;
        }
        let parameters = self.parse_function_parameters();
        if !self.expect_peek(TokenType::LBrace) {
            return None;
        }
        let body = match self.parse_block_statement() {
            Some(b) => b,
            None => return None,
        };
        Some(Expression::Function(parameters, body))
    }

    /// Parse a comma-separated parameter list after `(`, up to the closing
    /// `)`. Anything other than an identifier where a parameter is expected,
    /// or a missing `)`, records an error; the names read so far are returned
    /// either way.
    pub fn parse_function_parameters(&mut self) -> (parameters: Vec<String>)
        requires
            old(self).wf(),
        ensures
            final(self).wf(),
            final(self).source() == old(self).source(),
            final(self).measure() <= old(self).measure(),
            old(self).errors@.is_prefix_of(final(self).errors@),
            old(self).cursor@ <= final(self).cursor@,
            ({
                let (names, after, recorded) = spec_parse_function_parameters(
                    old(self).source(),
                    old(self).cursor@,
                );
                &&& crate::ast::view_names(parameters@) == names
                &&& final(self).cursor@ == after
                &&& final(self).errors@.len() == old(self).errors@.len() + recorded
            }),
    {
        reveal(crate::grammar::spec_parse_function_parameters);
        reveal(crate::grammar::spec_parameters_loop);
        let mut parameters: Vec<String> = Vec::new();
        proof {
            assert(crate::ast::view_names(parameters@) =~= Seq::<Seq<char>>::empty());
        }
        if self.peek_token_is(&TokenType::RParen) {
            self.next_token();
            return parameters;
        }
        self.next_token();
        let first_is_name = match &self.current_token.token_type {
            TokenType::Ident(n) => {
                proof {
                    assert(crate::ast::view_names(parameters@.push(*n)) =~= seq![n@]);
                }
                parameters.push(n.clone());
                true
            },
            _ => false,
        };
        if !first_is_name {
            self.push_error_at_current("expected a parameter name");
            if !self.expect_peek(TokenType::RParen) {
                self.push_error_plain("expected ')' after parameters");
            }
            return parameters;
        }
        let mut more = true;
        while more && self.peek_token_is(&TokenType::Comma)
            invariant
                self.wf(),
                self.source() == old(self).source(),
                self.measure() <= old(self).measure(),
                old(self).errors@.is_prefix_of(self.errors@),
                old(self).cursor@ <= self.cursor@,
                more ==> ({
                    let (names, after, recorded) = spec_parameters_loop(
                        self.source(),
                        self.cursor@,
                        crate::ast::view_names(parameters@),
                    );
                    let (whole_names, whole_after, whole_recorded) = spec_parse_function_parameters(
                        old(self).source(),
                        old(self).cursor@,
                    );
                    &&& whole_names == names
                    &&& whole_after == after
                    &&& old(self).errors@.len() + whole_recorded == self.errors@.len() + recorded
                }),
                !more ==> ({
                    let (names, after, recorded) = spec_parameters_exit(
                        self.source(),
                        self.cursor@,
                        crate::ast::view_names(parameters@),
                    );
                    let (whole_names, whole_after, whole_recorded) = spec_parse_function_parameters(
                        old(self).source(),
                        old(self).cursor@,
                    );
                    &&& whole_names == names
                    &&& whole_after == after
                    &&& old(self).errors@.len() + whole_recorded == self.errors@.len() + recorded
                }),
            decreases self.measure(),
        {
            reveal(crate::grammar::spec_parameters_loop);
            reveal(crate::grammar::spec_parse_function_parameters);
            self.next_token();
            self.next_token();
            let got_name = match &self.current_token.token_type {
                TokenType::Ident(n) => {
                    proof {
                        assert(crate::ast::view_names(parameters@.push(*n))
                            =~= crate::ast::view_names(parameters@).push(n@));
                    }
                    parameters.push(n.clone());
                    true
                },
                _ => false,
            };
            if !got_name {
                self.push_error_at_current("expected a parameter name");
                more = false;
            }
        }
        proof {
            reveal(crate::grammar::spec_parameters_loop);
        }
        if !self.expect_peek(TokenType::RParen) {
            self.push_error_plain("expected ')' after parameters");
        }
        parameters
    }

    /// Parse the statements between `{` and `}` into a block. A block is
    /// never partially constructed: either the closing `}` is reached and the
    /// block is returned, or the input ends first, an error is recorded, and
    /// no block is returned.
    pub fn parse_block_statement(&mut self) -> (r: Option<Block>)
        requires
            old(self).wf(),
            old(self).current_token@.token_type == SpecTokenType::LBrace,
        ensures
            final(self).wf(),
            final(self).source() == old(self).source(),
            final(self).measure() < old(self).measure(),
            old(self).errors@.is_prefix_of(final(self).errors@),
            r is None ==> final(self).errors@.len() > old(self).errors@.len(),
            r is Some ==> final(self).current_token@.token_type == SpecTokenType::RBrace,
            old(self).cursor@ <= final(self).cursor@,
            ({
                let (node, after, recorded) = spec_parse_block_statement(
                    old(self).source(),
                    old(self).cursor@,
                );
                &&& (match r {
                    Some(v) => node == Some(view_block(v@)),
                    None => node is None,
                })
                &&& final(self).cursor@ == after
                &&& final(self).errors@.len() == old(self).errors@.len() + recorded
            }),
        decreases old(self).measure(), 0int,
    {
        reveal(crate::grammar::spec_parse_block_statement);
        reveal(crate::grammar::spec_block_loop);
        reveal(crate::grammar::spec_parse_statement);
        self.next_token();
        let mut statements: Vec<Statement> = Vec::new();
        proof {
            assert(view_block(statements@) =~= Seq::<crate::ast::SpecStatement>::empty());
        }
        while !self.current_token_is(&TokenType::RBrace) && !self.current_token_is(&TokenType::EOF)
            invariant
                self.wf(),
                self.source() == old(self).source(),
                self.measure() < old(self).measure(),
                old(self).errors@.is_prefix_of(self.errors@),
                old(self).cursor@ <= self.cursor@,
                ({
                    let (inner, after, recorded) = spec_block_loop(
                        self.source(),
                        self.cursor@,
                        view_block(statements@),
                    );
                    let (entry, entry_after, entry_recorded) = spec_block_loop(
                        old(self).source(),
                        next_pos(old(self).source(), old(self).cursor@),
                        Seq::<crate::ast::SpecStatement>::empty(),
                    );
                    &&& entry == inner
                    &&& entry_after == after
                    &&& old(self).errors@.len() + entry_recorded == self.errors@.len() + recorded
                }),
            decreases self.measure(),
        {
            reveal(crate::grammar::spec_block_loop);
            reveal(crate::grammar::spec_parse_statement);
            match self.parse_statement() {
                Some(s) => {
                    proof {
                        lemma_view_block_push(statements@, s);
                    }
                    statements.push(s);
                },
                None => (),
            }
            self.next_token();
        }
        if self.current_token_is(&TokenType::RBrace) {
            Some(statements)
        } else {
            self.push_error_at_current("expected '}' to close a block");
            None
        }
    }

    /// Parse the comma-separated argument list of a call, from the `(` under
    /// the cursor up to the matching `)`.
    fn parse_call_arguments(&mut self) -> (r: Option<Vec<Expression>>)
        requires
            old(self).wf(),
            old(self).current_token@.token_type == SpecTokenType::LParen,
        ensures
            final(self).wf(),
            final(self).source() == old(self).source(),
            final(self).measure() < old(self).measure(),
            old(self).errors@.is_prefix_of(final(self).errors@),
            r is None ==> final(self).errors@.len() > old(self).errors@.len(),
            old(self).cursor@ <= final(self).cursor@,
            ({
                let (node, after, recorded) = spec_parse_call_arguments(
                    old(self).source(),
                    old(self).cursor@,
                );
                &&& (match r {
                    Some(v) => node == Some(view_arguments(v@)),
                    None => node is None,
                })
                &&& final(self).cursor@ == after
                &&& final(self).errors@.len() == old(self).errors@.len() + recorded
            }),
        decreases old(self).measure(), 0int,
    {
        reveal(crate::grammar::spec_parse_call_arguments);
        reveal(crate::grammar::spec_arguments_loop);
        reveal(crate::grammar::spec_parse_expression);
        let mut arguments: Vec<Expression> = Vec::new();
        if self.peek_token_is(&TokenType::RParen) {
            self.next_token();
            return Some(arguments);
        }
        self.next_token();
        match self.parse_expression(0) {
            Some(e) => {
                proof {
                    assert(view_arguments(arguments@) =~= Seq::<
                        crate::ast::SpecExpression,
                    >::empty());
                    lemma_view_arguments_push(arguments@, e);
                    assert(view_arguments(arguments@.push(e)) =~= seq![e@]);
                }
                arguments.push(e);
            },
            None => return None,
        }
        while self.peek_token_is(&TokenType::Comma)
            invariant
                self.wf(),
                self.source() == old(self).source(),
                self.measure() < old(self).measure(),
                old(self).errors@.is_prefix_of(self.errors@),
                old(self).cursor@ <= self.cursor@,
                ({
                    let (node, after, recorded) = spec_arguments_loop(
                        self.source(),
                        self.cursor@,
                        view_arguments(arguments@),
                    );
                    let (whole_node, whole_after, whole_recorded) = spec_parse_call_arguments(
                        old(self).source(),
                        old(self).cursor@,
                    );
                    &&& whole_node == node
                    &&& whole_after == after
                    &&& old(self).errors@.len() + whole_recorded == self.errors@.len() + recorded
                }),
            decreases self.measure(),
        {
            reveal(crate::grammar::spec_arguments_loop);
            reveal(crate::grammar::spec_parse_expression);
            self.next_token();
            self.next_token();
            match self.parse_expression(0) {
                Some(e) => {
                    proof {
                        lemma_view_arguments_push(arguments@, e);
                    }
                    arguments.push(e);
                },
                None => return None,
            }
        }
        if !self.expect_peek(TokenType::RParen) {
            return None;
        }
        Some(arguments)
    }

    /// Parse the expression rule for the current token in prefix position:
    /// an identifier, a literal, a boolean keyword, a prefix operator, a
    /// parenthesized group, an `if` expression, or a function literal.
    fn parse_prefix_position(&mut self) -> (r: Option<Expression>)
        requires
            old(self).wf(),
        ensures
            final(self).wf(),
            final(self).source() == old(self).source(),
            final(self).measure() <= old(self).measure(),
            old(self).errors@.is_prefix_of(final(self).errors@),
            old(self).current_token@.token_type != SpecTokenType::EOF ==> (final(self).measure()
                < old(self).measure() || final(self).current_token@ == old(self).current_token@),
            old(self).cursor@ <= final(self).cursor@,
            ({
                let (node, after, recorded) = spec_parse_prefix_position(
                    old(self).source(),
                    old(self).cursor@,
                );
                &&& (match r {
                    Some(v) => node == Some(v@),
                    None => node is None,
                })
                &&& final(self).cursor@ == after
                &&& final(self).errors@.len() == old(self).errors@.len() + recorded
            }),
            r is None ==> final(self).errors@.len() > old(self).errors@.len(),
            r is Some ==> can_start_expression(old(self).current_token@.token_type),
            !can_start_expression(old(self).current_token@.token_type) ==> r is None,
        decreases old(self).measure(), 1int,
    {
        reveal(crate::grammar::spec_parse_prefix_position);
        reveal(crate::grammar::spec_parse_expression);
        reveal(crate::grammar::spec_parse_if_parts);
        reveal(crate::grammar::spec_parse_function_literal);
        let name_opt: Option<String> = match &self.current_token.token_type {
            TokenType::Ident(n) => Some(n.clone()),
            _ => None,
        };
        if let Some(name) = name_opt {
            return Some(Expression::Identifier(name));
        }
        let int_opt: Option<i64> = match &self.current_token.token_type {
            TokenType::Int(v) => Some(*v),
            _ => None,
        };
        if let Some(value) = int_opt {
            return Some(Expression::IntegerLiteral(value));
        }
        if self.current_token_is(&TokenType::True) {
            return Some(Expression::Boolean(true));
        }
        if self.current_token_is(&TokenType::False) {
            return Some(Expression::Boolean(false));
        }
        if self.current_token_is(&TokenType::Minus) || self.current_token_is(
            &TokenType::NotEqual,
        ) {
            let operator = self.current_token.literal.clone();
            self.next_token();
            let operand = match self.parse_expression(PREFIX_PRECEDENCE) {
                Some(e) => e,
                None => return None,
            };
            return Some(Expression::Prefix(operator, Box::new(operand)));
        }
        if self.current_token_is(&TokenType::LParen) {
            self.next_token();
            let inner = match self.parse_expression(0) {
                Some(e) => e,
                None => return None,
            };
            if !self.expect_peek(TokenType::RParen) {
                return None;
            }
            return Some(inner);
        }
        if self.current_token_is(&TokenType::If) {
            let parts = match self.parse_if_parts() {
                Some(p) => p,
                None => return None,
            };
            return Some(Expression::If(Box::new(parts.0), parts.1, parts.2));
        }
        if self.current_token_is(&TokenType::Fn) {
            return self.parse_function_literal();
        }
        self.push_error_at_current("unexpected token in expression position");
        None
    }

    /// Parse an expression by precedence climbing: a prefix-position rule for
    /// the current token, then a loop folding in every following binary
    /// operator that binds tighter than `precedence`, left-associatively; a
    /// `(` after an expression starts a call at the highest precedence.
    pub fn parse_expression(&mut self, precedence: u8) -> (r: Option<Expression>)
        requires
            old(self).wf(),
        ensures
            final(self).wf(),
            final(self).source() == old(self).source(),
            final(self).measure() <= old(self).measure(),
            old(self).errors@.is_prefix_of(final(self).errors@),
            old(self).current_token@.token_type != SpecTokenType::EOF ==> (final(self).measure()
                < old(self).measure() || final(self).current_token@ == old(self).current_token@),
            r is None ==> final(self).errors@.len() > old(self).errors@.len(),
            r is Some ==> can_start_expression(old(self).current_token@.token_type),
            !can_start_expression(old(self).current_token@.token_type) ==> r is None,
            old(self).cursor@ <= final(self).cursor@,
            ({
                let (node, after, recorded) = spec_parse_expression(
                    old(self).source(),
                    old(self).cursor@,
                    precedence,
                );
                &&& (match r {
                    Some(v) => node == Some(v@),
                    None => node is None,
                })
                &&& final(self).cursor@ == after
                &&& final(self).errors@.len() == old(self).errors@.len() + recorded
            }),
        decreases old(self).measure(), 2int,
    {
        reveal(crate::grammar::spec_parse_expression);
        reveal(crate::grammar::spec_infix_loop);
        reveal(crate::grammar::spec_parse_prefix_position);
        reveal(crate::grammar::spec_parse_call_arguments);
        let mut left = match self.parse_prefix_position() {
            Some(e) => e,
            None => return None,
        };
        while precedence_of(&self.peek_token.token_type) > precedence
            invariant
                self.wf(),
                self.source() == old(self).source(),
                self.measure() <= old(self).measure(),
                old(self).errors@.is_prefix_of(self.errors@),
                old(self).current_token@.token_type != SpecTokenType::EOF ==> (self.measure()
                    < old(self).measure() || self.current_token@ == old(self).current_token@),
                can_start_expression(old(self).current_token@.token_type),
                old(self).cursor@ <= self.cursor@,
                ({
                    let (node, after, recorded) = spec_infix_loop(
                        self.source(),
                        self.cursor@,
                        left@,
                        precedence,
                    );
                    let (whole_node, whole_after, whole_recorded) = spec_parse_expression(
                        old(self).source(),
                        old(self).cursor@,
                        precedence,
                    );
                    &&& whole_node == node
                    &&& whole_after == after
                    &&& old(self).errors@.len() + whole_recorded == self.errors@.len() + recorded
                }),
            decreases self.measure(),
        {
            reveal(crate::grammar::spec_parse_expression);
            reveal(crate::grammar::spec_infix_loop);
            reveal(crate::grammar::spec_parse_call_arguments);
            if self.peek_token_is(&TokenType::LParen) {
                self.next_token();
                let arguments = match self.parse_call_arguments() {
                    Some(a) => a,
                    None => return None,
                };
                left = Expression::Call(Box::new(left), arguments);
            } else {
                let operator_precedence = precedence_of(&self.peek_token.token_type);
                self.next_token();
                let operator = self.current_token.literal.clone();
                self.next_token();
                let right = match self.parse_expression(operator_precedence) {
                    Some(e) => e,
                    None => return None,
                };
                left = Expression::Infix(operator, Box::new(left), Box::new(right));
            }
        }
        Some(left)
    }

    /// Parse the whole input as a sequence of statements: the program. After
    /// a failed statement the parser advances past the failing point and
    /// keeps attempting subsequent statements, so one run can surface several
    /// independent errors; the statements that did parse are returned, and
    /// the error list says whether they are reliable.
    #[verifier::rlimit(100)]
    #[verifier::spinoff_prover]
    pub fn parse_program(&mut self) -> (program: Block)
        requires
            old(self).wf(),
        ensures
            final(self).wf(),
            final(self).source() == old(self).source(),
            final(self).measure() <= old(self).measure(),
            old(self).errors@.is_prefix_of(final(self).errors@),
            final(self).current_token@.token_type == SpecTokenType::EOF,
            old(self).current_token@.token_type == SpecTokenType::EOF ==> program@.len() == 0
                && final(self).errors@ == old(self).errors@,
            old(self).cursor@ <= final(self).cursor@,
            ({
                let (nodes, after, recorded) = spec_parse_program(
                    old(self).source(),
                    old(self).cursor@,
                );
                &&& view_block(program@) == nodes
                &&& final(self).cursor@ == after
                &&& final(self).errors@.len() == old(self).errors@.len() + recorded
            }),
    {
        reveal(crate::grammar::spec_parse_program);
        reveal(crate::grammar::spec_parse_statement);
        let mut program: Vec<Statement> = Vec::new();
        proof {
            assert(view_block(program@) =~= Seq::<crate::ast::SpecStatement>::empty());
        }
        while !self.current_token_is(&TokenType::EOF)
            invariant
                self.wf(),
                self.source() == old(self).source(),
                self.measure() <= old(self).measure(),
                old(self).errors@.is_prefix_of(self.errors@),
                old(self).current_token@.token_type == SpecTokenType::EOF ==> (
                self.current_token@.token_type == SpecTokenType::EOF && program@.len() == 0
                    && self.errors@ == old(self).errors@),
                old(self).cursor@ <= self.cursor@,
                ({
                    let (rest, after, recorded) = spec_parse_program(
                        self.source(),
                        self.cursor@,
                    );
                    let (whole, whole_after, whole_recorded) = spec_parse_program(
                        old(self).source(),
                        old(self).cursor@,
                    );
                    &&& whole == view_block(program@) + rest
                    &&& whole_after == after
                    &&& old(self).errors@.len() + whole_recorded == self.errors@.len() + recorded
                }),
            decreases self.measure(),
        {
            reveal(crate::grammar::spec_parse_program);
            reveal(crate::grammar::spec_parse_statement);
            let ghost before = *self;
            let ghost program_before = program@;
            match self.parse_statement() {
                Some(s) => {
                    proof {
                        lemma_view_block_push(program@, s);
                    }
                    program.push(s);
                },
                None => (),
            }
            self.next_token();
            proof {
                let (st_node, st_after, st_recorded) = spec_parse_statement(
                    before.source(),
                    before.cursor@,
                );
                let (rest2, after2, recorded2) = spec_parse_program(self.source(), self.cursor@);
                match st_node {
                    Some(st) => {
                        assert(view_block(program@) =~= view_block(program_before).push(st));
                        assert(view_block(program_before) + (seq![st] + rest2) =~= view_block(
                            program@,
                        ) + rest2);
                    },
                    None => {},
                }
            }
        }
        program
    }
}

} // verus!
