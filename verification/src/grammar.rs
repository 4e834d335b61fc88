//! The mathematical model of parsing: given the source text and the position
//! of the token under the parser's cursor, which syntax-tree node a construct
//! yields, where the cursor stands afterwards, and how many errors are
//! recorded. Positions are positions in the `scan` model's token stream: the
//! token under the cursor at `p` is `scan_at(s, p)`, and the token after it
//! begins at `scan_at(s, p).end`. The executable parser is proved to follow
//! this model exactly.

use crate::ast::{SpecExpression, SpecStatement};
use crate::scan::{lemma_scan_progress, scan_at};
use crate::token::SpecTokenType;
use vstd::prelude::*;

verus! {

/// The precedence an operator binds its right operand with; zero for any
/// token that is no binary operator. Lowest to highest: equality, relational,
/// additive, multiplicative, then prefix operators, then calls.
pub open spec fn spec_precedence(t: SpecTokenType) -> u8 {
    match t {
        SpecTokenType::Equal | SpecTokenType::NotEqual => 1,
        SpecTokenType::LessThan | SpecTokenType::GreaterThan => 2,
        SpecTokenType::Plus | SpecTokenType::Minus => 3,
        SpecTokenType::Asterisk | SpecTokenType::Slash => 4,
        SpecTokenType::LParen => 6,
        _ => 0,
    }
}

/// The precedence at which a prefix operator takes its operand: above every
/// binary operator, below a call.
pub const PREFIX_PRECEDENCE: u8 = 5;

/// The tokens that may begin an expression: the prefix-position parse rules.
pub open spec fn can_start_expression(t: SpecTokenType) -> bool {
    match t {
        SpecTokenType::Ident(_) => true,
        SpecTokenType::Int(_) => true,
        SpecTokenType::True | SpecTokenType::False => true,
        SpecTokenType::Minus | SpecTokenType::NotEqual => true,
        SpecTokenType::LParen => true,
        SpecTokenType::If => true,
        SpecTokenType::Fn => true,
        _ => false,
    }
}

/// The category of the token under the cursor at `p`.
pub open spec fn token_type_at(s: Seq<char>, p: int) -> SpecTokenType {
    scan_at(s, p).token_type
}

/// The literal of the token under the cursor at `p`.
pub open spec fn literal_at(s: Seq<char>, p: int) -> Seq<char> {
    scan_at(s, p).literal
}

/// The position of the token after the one under the cursor at `p`.
pub open spec fn next_pos(s: Seq<char>, p: int) -> int {
    scan_at(s, p).end
}

/// The category of the peek token: the one after the token at `p`.
pub open spec fn peek_type_at(s: Seq<char>, p: int) -> SpecTokenType {
    token_type_at(s, next_pos(s, p))
}

/// How much input lies in front of the cursor; the parse functions' measure.
pub open spec fn measure_at(s: Seq<char>, p: int) -> int {
    if 0 <= p <= s.len() {
        s.len() - p
    } else {
        0int
    }
}

/// A position clamped to lie between `lo` and the end of the input. The
/// parser's cursor only moves forward and stays inside the input, so on every
/// position the executable parser produces this is the identity; it only
/// keeps the model's recursion well-founded on positions no run produces.
pub open spec fn clip_pos(s: Seq<char>, lo: int, p: int) -> int {
    if 0 <= lo <= p <= s.len() {
        p
    } else {
        lo
    }
}

/// The lookahead step: if the peek token has the expected category the cursor
/// advances onto it, otherwise it stays and one error is recorded.
pub open spec fn spec_expect(s: Seq<char>, p: int, expected: SpecTokenType) -> (bool, int, int) {
    if peek_type_at(s, p) == expected {
        (true, next_pos(s, p), 0int)
    } else {
        (false, p, 1int)
    }
}

/// One statement, dispatched on the token under the cursor.
#[verifier::opaque]
pub open spec fn spec_parse_statement(s: Seq<char>, p: int) -> (Option<SpecStatement>, int, int)
    decreases measure_at(s, p), 5int,
{
    if token_type_at(s, p) == SpecTokenType::Let {
        spec_parse_let_statement(s, p)
    } else if token_type_at(s, p) == SpecTokenType::Return {
        spec_parse_return_statement(s, p)
    } else if token_type_at(s, p) == SpecTokenType::Fn {
        spec_parse_function_declaration(s, p)
    } else if token_type_at(s, p) == SpecTokenType::If {
        spec_parse_if_statement(s, p)
    } else {
        let (r, p1, e1) = spec_parse_expression_statement(s, p);
        if r is None {
            (None, p1, e1 + 1)
        } else {
            (r, p1, e1)
        }
    }
}

/// `let <identifier> = <expression> ;`.
#[verifier::opaque]
pub open spec fn spec_parse_let_statement(s: Seq<char>, p: int) -> (
    Option<SpecStatement>,
    int,
    int,
)
    decreases measure_at(s, p), 4int,
{
    if !(peek_type_at(s, p) matches SpecTokenType::Ident(_)) {
        (None, p, 1int)
    } else {
        let name = peek_type_at(s, p)->Ident_0;
        let p1 = next_pos(s, p);
        let (ok2, p2, e2) = spec_expect(s, p1, SpecTokenType::Equal);
        if !ok2 {
            (None, p2, e2)
        } else {
            let p3 = next_pos(s, p2);
            proof {
                lemma_scan_progress(s, p);
                lemma_scan_progress(s, p1);
                lemma_scan_progress(s, p2);
            }
            let (r, p4, e4) = spec_parse_expression(s, p3, 0);
            match r {
                None => (None, p4, e4),
                Some(value) => {
                    let p4c = clip_pos(s, p3, p4);
                    let (ok5, p5, e5) = spec_expect(s, p4c, SpecTokenType::Semicolon);
                    if ok5 {
                        (Some(SpecStatement::Let(name, value)), p5, e4 + e5)
                    } else {
                        (None, p5, e4 + e5)
                    }
                },
            }
        }
    }
}

/// `return <expression> ;`.
#[verifier::opaque]
pub open spec fn spec_parse_return_statement(s: Seq<char>, p: int) -> (
    Option<SpecStatement>,
    int,
    int,
)
    decreases measure_at(s, p), 4int,
{
    let p1 = next_pos(s, p);
    proof {
        lemma_scan_progress(s, p);
    }
    let (r, p2, e2) = spec_parse_expression(s, p1, 0);
    match r {
        None => (None, p2, e2),
        Some(value) => {
            let p2c = clip_pos(s, p1, p2);
            let (ok3, p3, e3) = spec_expect(s, p2c, SpecTokenType::Semicolon);
            if ok3 {
                (Some(SpecStatement::Return(value)), p3, e2 + e3)
            } else {
                (None, p3, e2 + e3)
            }
        },
    }
}

/// `<expression> ;`.
#[verifier::opaque]
pub open spec fn spec_parse_expression_statement(s: Seq<char>, p: int) -> (
    Option<SpecStatement>,
    int,
    int,
)
    decreases measure_at(s, p), 4int,
{
    let (r, p1, e1) = spec_parse_expression(s, p, 0);
    match r {
        None => (None, p1, e1),
        Some(value) => {
            let p1c = clip_pos(s, p, p1);
            let (ok2, p2, e2) = spec_expect(s, p1c, SpecTokenType::Semicolon);
            if ok2 {
                (Some(SpecStatement::Expression(value)), p2, e1 + e2)
            } else {
                (None, p2, e1 + e2)
            }
        },
    }
}

/// The statement form of `if`.
#[verifier::opaque]
pub open spec fn spec_parse_if_statement(s: Seq<char>, p: int) -> (Option<SpecStatement>, int, int)
    decreases measure_at(s, p), 4int,
{
    let (r, p1, e1) = spec_parse_if_parts(s, p);
    match r {
        None => (None, p1, e1),
        Some(parts) => (Some(SpecStatement::If(parts.0, parts.1, parts.2)), p1, e1),
    }
}

/// `fn <identifier> ( <parameters> ) { <block> }`.
#[verifier::opaque]
pub open spec fn spec_parse_function_declaration(s: Seq<char>, p: int) -> (
    Option<SpecStatement>,
    int,
    int,
)
    decreases measure_at(s, p), 4int,
{
    if !(peek_type_at(s, p) matches SpecTokenType::Ident(_)) {
        (None, p, 1int)
    } else {
        let name = peek_type_at(s, p)->Ident_0;
        let p1 = next_pos(s, p);
        let (ok2, p2, e2) = spec_expect(s, p1, SpecTokenType::LParen);
        if !ok2 {
            (None, p2, e2)
        } else {
            let (params, p3, e3) = spec_parse_function_parameters(s, p2);
            let p3c = clip_pos(s, p2, p3);
            let (ok4, p4, e4) = spec_expect(s, p3c, SpecTokenType::LBrace);
            if !ok4 {
                (None, p4, e3 + e4)
            } else {
                proof {
                    lemma_scan_progress(s, p);
                    lemma_scan_progress(s, p1);
                    lemma_scan_progress(s, p2);
                    lemma_scan_progress(s, p3c);
                }
                let (rb, p5, e5) = spec_parse_block_statement(s, p4);
                match rb {
                    None => (None, p5, e3 + e4 + e5),
                    Some(body) => (
                        Some(SpecStatement::Function(name, params, body)),
                        p5,
                        e3 + e4 + e5,
                    ),
                }
            }
        }
    }
}

/// `if ( <expression> ) { <block> } [ else { <block> } ]`, the form shared by
/// the statement and the expression variants.
#[verifier::opaque]
pub open spec fn spec_parse_if_parts(s: Seq<char>, p: int) -> (
    Option<(SpecExpression, Seq<SpecStatement>, Option<Seq<SpecStatement>>)>,
    int,
    int,
)
    decreases measure_at(s, p), 0int,
{
    let (ok1, p1, e1) = spec_expect(s, p, SpecTokenType::LParen);
    if !ok1 {
        (None, p1, e1)
    } else {
        let p2 = next_pos(s, p1);
        proof {
            lemma_scan_progress(s, p);
            lemma_scan_progress(s, p1);
        }
        let (rc, p3, e3) = spec_parse_expression(s, p2, 0);
        match rc {
            None => (None, p3, e3),
            Some(condition) => {
                let p3c = clip_pos(s, p2, p3);
                let (ok4, p4, e4) = spec_expect(s, p3c, SpecTokenType::RParen);
                if !ok4 {
                    (None, p4, e3 + e4)
                } else {
                    let (ok5, p5, e5) = spec_expect(s, p4, SpecTokenType::LBrace);
                    if !ok5 {
                        (None, p5, e3 + e4 + e5)
                    } else {
                        proof {
                            lemma_scan_progress(s, p3c);
                            lemma_scan_progress(s, p4);
                        }
                        let (rb, p6, e6) = spec_parse_block_statement(s, p5);
                        match rb {
                            None => (None, p6, e3 + e4 + e5 + e6),
                            Some(consequence) => {
                                let p6c = clip_pos(s, p5, p6);
                                if peek_type_at(s, p6c) == SpecTokenType::Else {
                                    let p7 = next_pos(s, p6c);
                                    let (ok8, p8, e8) = spec_expect(s, p7, SpecTokenType::LBrace);
                                    if !ok8 {
                                        (None, p8, e3 + e4 + e5 + e6 + e8)
                                    } else {
                                        proof {
                                            lemma_scan_progress(s, p6c);
                                            lemma_scan_progress(s, p7);
                                        }
                                        let (rb2, p9, e9) = spec_parse_block_statement(s, p8);
                                        match rb2 {
                                            None => (None, p9, e3 + e4 + e5 + e6 + e8 + e9),
                                            Some(alt) => (
                                                Some((condition, consequence, Some(alt))),
                                                p9,
                                                e3 + e4 + e5 + e6 + e8 + e9,
                                            ),
                                        }
                                    }
                                } else {
                                    (Some((condition, consequence, None)), p6c, e3 + e4 + e5 + e6)
                                }
                            },
                        }
                    }
                }
            },
        }
    }
}

/// The expression form of `fn`: an anonymous function literal.
#[verifier::opaque]
pub open spec fn spec_parse_function_literal(s: Seq<char>, p: int) -> (
    Option<SpecExpression>,
    int,
    int,
)
    decreases measure_at(s, p), 0int,
{
    let (ok1, p1, e1) = spec_expect(s, p, SpecTokenType::LParen);
    if !ok1 {
        (None, p1, e1)
    } else {
        let (params, p2, e2) = spec_parse_function_parameters(s, p1);
        let p2c = clip_pos(s, p1, p2);
        let (ok3, p3, e3) = spec_expect(s, p2c, SpecTokenType::LBrace);
        if !ok3 {
            (None, p3, e2 + e3)
        } else {
            proof {
                lemma_scan_progress(s, p);
                lemma_scan_progress(s, p1);
                lemma_scan_progress(s, p2c);
            }
            let (rb, p4, e4) = spec_parse_block_statement(s, p3);
            match rb {
                None => (None, p4, e2 + e3 + e4),
                Some(body) => (Some(SpecExpression::Function(params, body)), p4, e2 + e3 + e4),
            }
        }
    }
}

/// The closing step of a parameter list: the expected `)`, with its two
/// recorded messages when it is missing.
pub open spec fn spec_parameters_exit(s: Seq<char>, p: int, params: Seq<Seq<char>>) -> (
    Seq<Seq<char>>,
    int,
    int,
) {
    let (ok, p1, e1) = spec_expect(s, p, SpecTokenType::RParen);
    if ok {
        (params, p1, e1)
    } else {
        (params, p1, e1 + 1)
    }
}

/// The comma-separated tail of a parameter list.
#[verifier::opaque]
pub open spec fn spec_parameters_loop(s: Seq<char>, p: int, params: Seq<Seq<char>>) -> (
    Seq<Seq<char>>,
    int,
    int,
)
    decreases measure_at(s, p),
{
    if peek_type_at(s, p) == SpecTokenType::Comma {
        let p1 = next_pos(s, p);
        let p2 = next_pos(s, p1);
        proof {
            lemma_scan_progress(s, p);
            lemma_scan_progress(s, p1);
        }
        match token_type_at(s, p2) {
            SpecTokenType::Ident(n) => spec_parameters_loop(s, p2, params.push(n)),
            _ => {
                let (ps, p3, e3) = spec_parameters_exit(s, p2, params);
                (ps, p3, 1 + e3)
            },
        }
    } else {
        spec_parameters_exit(s, p, params)
    }
}

/// A parameter list after `(`, up to the closing `)`: the names read, in
/// order, with the recorded errors.
#[verifier::opaque]
pub open spec fn spec_parse_function_parameters(s: Seq<char>, p: int) -> (Seq<Seq<char>>, int, int)
{
    if peek_type_at(s, p) == SpecTokenType::RParen {
        (Seq::empty(), next_pos(s, p), 0int)
    } else {
        let p1 = next_pos(s, p);
        match token_type_at(s, p1) {
            SpecTokenType::Ident(n) => spec_parameters_loop(s, p1, seq![n]),
            _ => {
                let (ps, p2, e2) = spec_parameters_exit(s, p1, Seq::empty());
                (ps, p2, 1 + e2)
            },
        }
    }
}

/// The statements between `{` and `}`, collected until the closing brace or
/// the end of the input.
#[verifier::opaque]
pub open spec fn spec_block_loop(s: Seq<char>, p: int, statements: Seq<SpecStatement>) -> (
    Seq<SpecStatement>,
    int,
    int,
)
    decreases measure_at(s, p), 6int,
{
    if token_type_at(s, p) != SpecTokenType::RBrace && token_type_at(s, p) != SpecTokenType::EOF {
        let (r, p1, e1) = spec_parse_statement(s, p);
        let p1c = clip_pos(s, p, p1);
        let p2 = next_pos(s, p1c);
        proof {
            lemma_scan_progress(s, p);
            lemma_scan_progress(s, p1c);
        }
        let (rest, p3, e3) = spec_block_loop(
            s,
            p2,
            match r {
                Some(st) => statements.push(st),
                None => statements,
            },
        );
        (rest, p3, e1 + e3)
    } else {
        (statements, p, 0int)
    }
}

/// A block: `{`, its statements, `}`. Either the closing brace is reached and
/// the block is returned, or the input ends first, one error is recorded, and
/// no block is returned.
#[verifier::opaque]
pub open spec fn spec_parse_block_statement(s: Seq<char>, p: int) -> (
    Option<Seq<SpecStatement>>,
    int,
    int,
)
    decreases measure_at(s, p), 7int,
{
    let p1 = next_pos(s, p);
    proof {
        lemma_scan_progress(s, p);
    }
    let (statements, p2, e2) = spec_block_loop(s, p1, Seq::empty());
    if token_type_at(s, p2) == SpecTokenType::RBrace {
        (Some(statements), p2, e2)
    } else {
        (None, p2, e2 + 1)
    }
}

/// The comma-separated argument list of a call, from the `(` under the cursor
/// up to the matching `)`.
#[verifier::opaque]
pub open spec fn spec_parse_call_arguments(s: Seq<char>, p: int) -> (
    Option<Seq<SpecExpression>>,
    int,
    int,
)
    decreases measure_at(s, p), 4int,
{
    if peek_type_at(s, p) == SpecTokenType::RParen {
        (Some(Seq::empty()), next_pos(s, p), 0int)
    } else {
        let p1 = next_pos(s, p);
        proof {
            lemma_scan_progress(s, p);
        }
        let (r, p2, e2) = spec_parse_expression(s, p1, 0);
        match r {
            None => (None, p2, e2),
            Some(first) => {
                let p2c = clip_pos(s, p1, p2);
                let (rest, p3, e3) = spec_arguments_loop(s, p2c, seq![first]);
                (rest, p3, e2 + e3)
            },
        }
    }
}

/// The comma-separated tail of an argument list, with the closing `)`.
#[verifier::opaque]
pub open spec fn spec_arguments_loop(s: Seq<char>, p: int, arguments: Seq<SpecExpression>) -> (
    Option<Seq<SpecExpression>>,
    int,
    int,
)
    decreases measure_at(s, p), 0int,
{
    if peek_type_at(s, p) == SpecTokenType::Comma {
        let p1 = next_pos(s, p);
        let p2 = next_pos(s, p1);
        proof {
            lemma_scan_progress(s, p);
            lemma_scan_progress(s, p1);
        }
        let (r, p3, e3) = spec_parse_expression(s, p2, 0);
        match r {
            None => (None, p3, e3),
            Some(a) => {
                let p3c = clip_pos(s, p2, p3);
                let (rest, p4, e4) = spec_arguments_loop(s, p3c, arguments.push(a));
                (rest, p4, e3 + e4)
            },
        }
    } else {
        let (ok, p1, e1) = spec_expect(s, p, SpecTokenType::RParen);
        if ok {
            (Some(arguments), p1, e1)
        } else {
            (None, p1, e1)
        }
    }
}

/// The expression rule for the token under the cursor in prefix position.
#[verifier::opaque]
pub open spec fn spec_parse_prefix_position(s: Seq<char>, p: int) -> (
    Option<SpecExpression>,
    int,
    int,
)
    decreases measure_at(s, p), 1int,
{
    match token_type_at(s, p) {
        SpecTokenType::Ident(n) => (Some(SpecExpression::Identifier(n)), p, 0int),
        SpecTokenType::Int(v) => (Some(SpecExpression::IntegerLiteral(v)), p, 0int),
        SpecTokenType::True => (Some(SpecExpression::Boolean(true)), p, 0int),
        SpecTokenType::False => (Some(SpecExpression::Boolean(false)), p, 0int),
        SpecTokenType::Minus | SpecTokenType::NotEqual => {
            let operator = literal_at(s, p);
            let p1 = next_pos(s, p);
            proof {
                lemma_scan_progress(s, p);
            }
            let (r, p2, e2) = spec_parse_expression(s, p1, PREFIX_PRECEDENCE);
            match r {
                None => (None, p2, e2),
                Some(operand) => (
                    Some(SpecExpression::Prefix(operator, Box::new(operand))),
                    p2,
                    e2,
                ),
            }
        },
        SpecTokenType::LParen => {
            let p1 = next_pos(s, p);
            proof {
                lemma_scan_progress(s, p);
            }
            let (r, p2, e2) = spec_parse_expression(s, p1, 0);
            match r {
                None => (None, p2, e2),
                Some(inner) => {
                    let p2c = clip_pos(s, p1, p2);
                    let (ok3, p3, e3) = spec_expect(s, p2c, SpecTokenType::RParen);
                    if ok3 {
                        (Some(inner), p3, e2 + e3)
                    } else {
                        (None, p3, e2 + e3)
                    }
                },
            }
        },
        SpecTokenType::If => {
            let (r, p1, e1) = spec_parse_if_parts(s, p);
            match r {
                None => (None, p1, e1),
                Some(parts) => (
                    Some(SpecExpression::If(Box::new(parts.0), parts.1, parts.2)),
                    p1,
                    e1,
                ),
            }
        },
        SpecTokenType::Fn => spec_parse_function_literal(s, p),
        _ => (None, p, 1int),
    }
}

/// The precedence-climbing loop: fold in every following binary operator that
/// binds tighter than `precedence`, left-associatively; a `(` starts a call.
#[verifier::opaque]
pub open spec fn spec_infix_loop(s: Seq<char>, p: int, left: SpecExpression, precedence: u8) -> (
    Option<SpecExpression>,
    int,
    int,
)
    decreases measure_at(s, p), 2int,
{
    if spec_precedence(peek_type_at(s, p)) > precedence {
        if peek_type_at(s, p) == SpecTokenType::LParen {
            let p1 = next_pos(s, p);
            proof {
                lemma_scan_progress(s, p);
                lemma_scan_progress(s, next_pos(s, p));
            }
            let (r, p2, e2) = spec_parse_call_arguments(s, p1);
            match r {
                None => (None, p2, e2),
                Some(arguments) => {
                    let p2c = clip_pos(s, p1, p2);
                    let (r3, p3, e3) = spec_infix_loop(
                        s,
                        p2c,
                        SpecExpression::Call(Box::new(left), arguments),
                        precedence,
                    );
                    (r3, p3, e2 + e3)
                },
            }
        } else {
            let operator_precedence = spec_precedence(peek_type_at(s, p));
            let p1 = next_pos(s, p);
            let operator = literal_at(s, p1);
            let p2 = next_pos(s, p1);
            proof {
                lemma_scan_progress(s, p);
                lemma_scan_progress(s, next_pos(s, p));
                lemma_scan_progress(s, p1);
            }
            let (r, p3, e3) = spec_parse_expression(s, p2, operator_precedence);
            match r {
                None => (None, p3, e3),
                Some(right) => {
                    let p3c = clip_pos(s, p2, p3);
                    let (r4, p4, e4) = spec_infix_loop(
                        s,
                        p3c,
                        SpecExpression::Infix(operator, Box::new(left), Box::new(right)),
                        precedence,
                    );
                    (r4, p4, e3 + e4)
                },
            }
        }
    } else {
        (Some(left), p, 0int)
    }
}

/// An expression: a prefix-position rule, then the precedence-climbing loop.
#[verifier::opaque]
pub open spec fn spec_parse_expression(s: Seq<char>, p: int, precedence: u8) -> (
    Option<SpecExpression>,
    int,
    int,
)
    decreases measure_at(s, p), 3int,
{
    let (r, p1, e1) = spec_parse_prefix_position(s, p);
    match r {
        None => (None, p1, e1),
        Some(left) => {
            let p1c = clip_pos(s, p, p1);
            let (r2, p2, e2) = spec_infix_loop(s, p1c, left, precedence);
            (r2, p2, e1 + e2)
        },
    }
}

/// The whole input as a sequence of statements: after a failed statement the
/// cursor advances past the failing point and parsing continues, so one run
/// can surface several independent errors.
#[verifier::opaque]
pub open spec fn spec_parse_program(s: Seq<char>, p: int) -> (Seq<SpecStatement>, int, int)
    decreases measure_at(s, p), 8int,
{
    if token_type_at(s, p) != SpecTokenType::EOF {
        let (r, p1, e1) = spec_parse_statement(s, p);
        let p1c = clip_pos(s, p, p1);
        let p2 = next_pos(s, p1c);
        proof {
            lemma_scan_progress(s, p);
            lemma_scan_progress(s, p1c);
        }
        let (rest, p3, e3) = spec_parse_program(s, p2);
        (
            match r {
                Some(st) => seq![st] + rest,
                None => rest,
            },
            p3,
            e1 + e3,
        )
    } else {
        (Seq::empty(), p, 0int)
    }
}

} // verus!
