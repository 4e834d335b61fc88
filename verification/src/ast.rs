//! The abstract syntax tree the parser produces: a closed set of statement
//! and expression shapes. A block — the body of a function or of an `if`
//! branch — is an ordered sequence of statements, and both the statement and
//! the expression form of `if` share that one representation.

use vstd::prelude::*;

verus! {

/// An ordered sequence of statements forming a lexical scope body.
pub type Block = Vec<Statement>;

/// A statement. Each node owns its children exclusively; there is no sharing
/// and no cycle.
#[derive(Debug, PartialEq)]
pub enum Statement {
    /// `let <name> = <expr> ;`
    Let(String, Expression),
    /// `return <expr> ;`
    Return(Expression),
    /// `<expr> ;`
    Expression(Expression),
    /// `if ( <cond> ) { <consequence> } [ else { <alternative> } ]`
    If(Expression, Block, Option<Block>),
    /// `fn <name> ( <parameters> ) { <body> }`
    Function(String, Vec<String>, Block),
}

/// An expression.
#[derive(Debug, PartialEq)]
pub enum Expression {
    Identifier(String),
    IntegerLiteral(i64),
    Boolean(bool),
    /// A prefix operator applied to an operand: `-x`, `!x`.
    Prefix(String, Box<Expression>),
    /// A binary operator between two operands, left-associative.
    Infix(String, Box<Expression>, Box<Expression>),
    /// The expression form of `if`, sharing the statement form's blocks.
    If(Box<Expression>, Block, Option<Block>),
    /// An anonymous function literal: `fn ( <parameters> ) { <body> }`.
    Function(Vec<String>, Block),
    /// A call: a callee expression applied to argument expressions.
    Call(Box<Expression>, Vec<Expression>),
}

/// The mathematical image of a statement: names become character sequences
/// and blocks become statement sequences.
#[verifier::ext_equal]
pub enum SpecStatement {
    Let(Seq<char>, SpecExpression),
    Return(SpecExpression),
    Expression(SpecExpression),
    If(SpecExpression, Seq<SpecStatement>, Option<Seq<SpecStatement>>),
    Function(Seq<char>, Seq<Seq<char>>, Seq<SpecStatement>),
}

/// The mathematical image of an expression.
#[verifier::ext_equal]
pub enum SpecExpression {
    Identifier(Seq<char>),
    IntegerLiteral(i64),
    Boolean(bool),
    Prefix(Seq<char>, Box<SpecExpression>),
    Infix(Seq<char>, Box<SpecExpression>, Box<SpecExpression>),
    If(Box<SpecExpression>, Seq<SpecStatement>, Option<Seq<SpecStatement>>),
    Function(Seq<Seq<char>>, Seq<SpecStatement>),
    Call(Box<SpecExpression>, Seq<SpecExpression>),
}

/// The image of a parameter list: its names, in order.
pub open spec fn view_names(names: Seq<String>) -> Seq<Seq<char>> {
    names.map_values(|p: String| p@)
}

/// The image of a statement.
pub open spec fn view_statement(s: Statement) -> SpecStatement
    decreases s,
{
    match s {
        Statement::Let(name, value) => SpecStatement::Let(name@, view_expression(value)),
        Statement::Return(value) => SpecStatement::Return(view_expression(value)),
        Statement::Expression(value) => SpecStatement::Expression(view_expression(value)),
        Statement::If(condition, consequence, alternative) => SpecStatement::If(
            view_expression(condition),
            view_block(consequence@),
            match alternative {
                Some(b) => Some(view_block(b@)),
                None => None,
            },
        ),
        Statement::Function(name, parameters, body) => SpecStatement::Function(
            name@,
            view_names(parameters@),
            view_block(body@),
        ),
    }
}

/// The image of an expression.
pub open spec fn view_expression(e: Expression) -> SpecExpression
    decreases e,
{
    match e {
        Expression::Identifier(name) => SpecExpression::Identifier(name@),
        Expression::IntegerLiteral(value) => SpecExpression::IntegerLiteral(value),
        Expression::Boolean(value) => SpecExpression::Boolean(value),
        Expression::Prefix(operator, operand) => SpecExpression::Prefix(
            operator@,
            Box::new(view_expression(*operand)),
        ),
        Expression::Infix(operator, left, right) => SpecExpression::Infix(
            operator@,
            Box::new(view_expression(*left)),
            Box::new(view_expression(*right)),
        ),
        Expression::If(condition, consequence, alternative) => SpecExpression::If(
            Box::new(view_expression(*condition)),
            view_block(consequence@),
            match alternative {
                Some(b) => Some(view_block(b@)),
                None => None,
            },
        ),
        Expression::Function(parameters, body) => SpecExpression::Function(
            view_names(parameters@),
            view_block(body@),
        ),
        Expression::Call(callee, arguments) => SpecExpression::Call(
            Box::new(view_expression(*callee)),
            view_arguments(arguments@),
        ),
    }
}

/// The image of a block: its statements, in order.
pub open spec fn view_block(b: Seq<Statement>) -> Seq<SpecStatement>
    decreases b,
{
    if b.len() == 0 {
        Seq::empty()
    } else {
        seq![view_statement(b.first())] + view_block(b.drop_first())
    }
}

/// The image of an argument list: its expressions, in order.
pub open spec fn view_arguments(a: Seq<Expression>) -> Seq<SpecExpression>
    decreases a,
{
    if a.len() == 0 {
        Seq::empty()
    } else {
        seq![view_expression(a.first())] + view_arguments(a.drop_first())
    }
}

/// Appending a statement to a block appends its image to the block's image.
pub proof fn lemma_view_block_push(b: Seq<Statement>, x: Statement)
    ensures
        view_block(b.push(x)) == view_block(b).push(view_statement(x)),
    decreases b.len(),
{
    reveal_with_fuel(view_block, 3);
    if b.len() == 0 {
        assert(b.push(x).drop_first() =~= Seq::<Statement>::empty());
        assert(view_block(b.push(x)) =~= view_block(b).push(view_statement(x)));
    } else {
        assert(b.push(x).first() == b.first());
        assert(b.push(x).drop_first() =~= b.drop_first().push(x));
        lemma_view_block_push(b.drop_first(), x);
        assert(view_block(b.push(x)) == seq![view_statement(b.first())] + view_block(
            b.drop_first(),
        ).push(view_statement(x)));
        assert(view_block(b.push(x)) =~~= view_block(b).push(view_statement(x)));
    }
}

/// Appending an expression to an argument list appends its image.
pub proof fn lemma_view_arguments_push(a: Seq<Expression>, x: Expression)
    ensures
        view_arguments(a.push(x)) == view_arguments(a).push(view_expression(x)),
    decreases a.len(),
{
    reveal_with_fuel(view_arguments, 3);
    if a.len() == 0 {
        assert(a.push(x).drop_first() =~= Seq::<Expression>::empty());
        assert(view_arguments(a.push(x)) =~= view_arguments(a).push(view_expression(x)));
    } else {
        assert(a.push(x).first() == a.first());
        assert(a.push(x).drop_first() =~= a.drop_first().push(x));
        lemma_view_arguments_push(a.drop_first(), x);
        assert(view_arguments(a.push(x)) == seq![view_expression(a.first())] + view_arguments(
            a.drop_first(),
        ).push(view_expression(x)));
        assert(view_arguments(a.push(x)) =~~= view_arguments(a).push(view_expression(x)));
    }
}

impl View for Statement {
    type V = SpecStatement;

    open spec fn view(&self) -> SpecStatement {
        view_statement(*self)
    }
}

impl View for Expression {
    type V = SpecExpression;

    open spec fn view(&self) -> SpecExpression {
        view_expression(*self)
    }
}

} // verus!
