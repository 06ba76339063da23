//! The syntax tree that the analysis consumes.
//!
//! The tree is plain data: every node owns its children, nothing is shared and
//! nothing points back. Positions are opaque integers; a smaller position is
//! earlier in the source.

use vstd::prelude::*;

verus! {

/// A whole program: the statements of the root scope, in source order.
#[derive(Debug)]
pub struct Program {
    pub statements: Vec<Statement>,
}

/// One statement of a scope's body.
#[derive(Debug)]
pub enum Statement {
    AssignmentStmt(Assignment),
    FunctionDefStmt(FunctionDefinition),
}

/// `let identifier [: type] = rhs`, found at `start_pos`.
#[derive(Debug)]
pub struct Assignment {
    pub identifier: String,
    pub type_annotation: Option<TypeLiteral>,
    pub rhs: ExpressionTerm,
    pub start_pos: usize,
}

/// A function with its ordered parameters, its return type and its body.
#[derive(Debug)]
pub struct FunctionDefinition {
    pub function_name: String,
    pub function_parameters: Vec<FunctionParameter>,
    pub function_return_type: TypeLiteral,
    pub function_body: FunctionBody,
}

/// One declared parameter of a function.
#[derive(Debug)]
pub struct FunctionParameter {
    pub parameter_name: String,
    pub parameter_type: TypeLiteral,
}

/// The statements of a function and the expression it returns, if any.
#[derive(Debug)]
pub struct FunctionBody {
    pub statements: Vec<Statement>,
    pub return_expression_term: Option<ExpressionTerm>,
}

/// A type annotation as it is written in the source.
#[derive(Debug, Clone, Copy, PartialEq, Eq, Hash, Structural)]
pub enum TypeLiteral {
    Number,
    Boolean,
    String,
    Unit,
}

/// An expression in statement position: a right-hand side or a returned value.
#[derive(Debug)]
pub struct ExpressionTerm {
    pub expression: Expression,
}

/// An expression tree.
#[derive(Debug)]
pub enum Expression {
    /// A numeric literal, held as the bit pattern of its IEEE 754 double.
    Number(u64),
    Negative(Box<Expression>),
    Plus(Box<Expression>, Box<Expression>),
    Minus(Box<Expression>, Box<Expression>),
    Times(Box<Expression>, Box<Expression>),
    Divide(Box<Expression>, Box<Expression>),
    IsEqual(Box<Expression>, Box<Expression>),
    NotEqual(Box<Expression>, Box<Expression>),
    LessThan(Box<Expression>, Box<Expression>),
    LessThanOrEqual(Box<Expression>, Box<Expression>),
    GreaterThan(Box<Expression>, Box<Expression>),
    GreaterThanOrEqual(Box<Expression>, Box<Expression>),
    Boolean(bool),
    Not(Box<Expression>),
    Or(Box<Expression>, Box<Expression>),
    And(Box<Expression>, Box<Expression>),
    Ident(Identifier),
    FunctionCall(FunctionCall),
    IfElseExpression(IfElseExpression),
    StringLiteral(String),
}

/// A name that is read, and where it is read.
#[derive(Debug)]
pub struct Identifier {
    pub identifier_name: String,
    pub start_pos: usize,
}

/// A call of a function by name.
#[derive(Debug)]
pub struct FunctionCall {
    pub function_name: String,
    pub function_arguments: Vec<Expression>,
}

/// `if predicate then true_branch else false_branch`, as an expression.
#[derive(Debug)]
pub struct IfElseExpression {
    pub predicate: Box<Expression>,
    pub true_branch: Box<Expression>,
    pub false_branch: Box<Expression>,
}

/// The type that a type name stands for, where `name` is a type name.
pub open spec fn type_literal_of(name: Seq<char>) -> TypeLiteral {
    if name == "Number"@ {
        TypeLiteral::Number
    } else if name == "Boolean"@ {
        TypeLiteral::Boolean
    } else if name == "String"@ {
        TypeLiteral::String
    } else {
        TypeLiteral::Unit
    }
}

/// Whether `name` is one of the four type names.
pub open spec fn is_type_name(name: Seq<char>) -> bool {
    name == "Number"@ || name == "Boolean"@ || name == "String"@ || name == "Unit"@
}

/// Whether `text` reads exactly as `word`.
fn text_is(text: &str, word: &str) -> (same: bool)
    ensures
        same == (text@ == word@),
{
    let text = text.to_owned();
    let word = word.to_owned();
    text == word
}

/// Tells whether `type_literal` is the name of a type.
pub fn is_type_literal(type_literal: &str) -> (known: bool)
    ensures
        known == is_type_name(type_literal@),
{
    text_is(type_literal, "Number") || text_is(type_literal, "Boolean") || text_is(
        type_literal,
        "String",
    ) || text_is(type_literal, "Unit")
}

/// Reads a type name.
pub fn parse_type_literal(type_literal: &str) -> (parsed: TypeLiteral)
    requires
        is_type_name(type_literal@),
    ensures
        parsed == type_literal_of(type_literal@),
{
    if text_is(type_literal, "Number") {
        TypeLiteral::Number
    } else if text_is(type_literal, "Boolean") {
        TypeLiteral::Boolean
    } else if text_is(type_literal, "String") {
        TypeLiteral::String
    } else {
        TypeLiteral::Unit
    }
}

} // verus!
