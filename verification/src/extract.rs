//! What one scope declares and what it reads.
//!
//! A scope's body is a list of statements, for a function preceded by its
//! parameters and followed by an optional returned expression. The body of a
//! nested function belongs to that function's own scope: it adds nothing here.

use vstd::prelude::*;
use crate::ast::{Expression, ExpressionTerm, FunctionDefinition, FunctionParameter, Statement};
use crate::ast::TypeLiteral;
use crate::model::{Symbol, SymbolKind, SymbolKindView, SymbolView, Usage, UsageKind, UsageView};

verus! {

/// The names that `expression` reads, in source order. An identifier is a
/// variable reference at its position; a call reads the callee and then what
/// its arguments read; every other node reads what its operands read.
pub open spec fn expression_usages(expression: Expression) -> Seq<UsageView>
    decreases expression,
{
    match expression {
        Expression::Ident(identifier) => seq![
            UsageView {
                name: identifier.identifier_name@,
                kind: UsageKind::VariableReference(identifier.start_pos),
            },
        ],
        Expression::FunctionCall(call) => seq![
            UsageView { name: call.function_name@, kind: UsageKind::FunctionCall },
        ] + arguments_usages(call.function_arguments@),
        Expression::Negative(a) | Expression::Not(a) => expression_usages(*a),
        Expression::Plus(a, b)
        | Expression::Minus(a, b)
        | Expression::Times(a, b)
        | Expression::Divide(a, b)
        | Expression::IsEqual(a, b)
        | Expression::NotEqual(a, b)
        | Expression::LessThan(a, b)
        | Expression::LessThanOrEqual(a, b)
        | Expression::GreaterThan(a, b)
        | Expression::GreaterThanOrEqual(a, b)
        | Expression::Or(a, b)
        | Expression::And(a, b) => expression_usages(*a) + expression_usages(*b),
        Expression::IfElseExpression(choice) => expression_usages(*choice.predicate)
            + expression_usages(*choice.true_branch) + expression_usages(*choice.false_branch),
        Expression::Number(_) | Expression::Boolean(_) | Expression::StringLiteral(_) => Seq::empty(),
    }
}

/// The names that a list of call arguments reads, argument by argument.
pub open spec fn arguments_usages(arguments: Seq<Expression>) -> Seq<UsageView>
    decreases arguments,
{
    if arguments.len() == 0 {
        Seq::empty()
    } else {
        arguments_usages(arguments.drop_last()) + expression_usages(arguments.last())
    }
}

/// The names that one statement reads in the scope that holds it: the
/// right-hand side of an assignment, nothing for a function definition.
pub open spec fn statement_usages(statement: Statement) -> Seq<UsageView> {
    match statement {
        Statement::AssignmentStmt(assignment) => expression_usages(assignment.rhs.expression),
        Statement::FunctionDefStmt(_) => Seq::empty(),
    }
}

/// The names that a list of statements reads, statement by statement.
pub open spec fn statements_usages(statements: Seq<Statement>) -> Seq<UsageView>
    decreases statements.len(),
{
    if statements.len() == 0 {
        Seq::empty()
    } else {
        statements_usages(statements.drop_last()) + statement_usages(statements.last())
    }
}

/// The usages of one scope: those of its statements, then those of the
/// returned expression where there is one.
pub open spec fn level_usages(
    statements: Seq<Statement>,
    return_expression: Option<ExpressionTerm>,
) -> Seq<UsageView> {
    statements_usages(statements) + match return_expression {
        Some(term) => expression_usages(term.expression),
        None => Seq::empty(),
    }
}

/// The signature of a function: its parameter types in order, then its
/// return type.
pub open spec fn signature(definition: FunctionDefinition) -> Seq<TypeLiteral> {
    definition.function_parameters@.map_values(
        |parameter: FunctionParameter| parameter.parameter_type,
    ).push(definition.function_return_type)
}

/// The symbol that a parameter declares in the scope `scope_name`.
pub open spec fn parameter_symbol(parameter: FunctionParameter, scope_name: Seq<char>) -> SymbolView {
    SymbolView {
        name: parameter.parameter_name@,
        scope_name,
        kind: SymbolKindView::FunctionParameter(parameter.parameter_type),
    }
}

/// The symbol that a statement declares in the scope `scope_name`.
pub open spec fn statement_symbol(statement: Statement, scope_name: Seq<char>) -> SymbolView {
    match statement {
        Statement::AssignmentStmt(assignment) => SymbolView {
            name: assignment.identifier@,
            scope_name,
            kind: SymbolKindView::VariableDeclaration(assignment.start_pos),
        },
        Statement::FunctionDefStmt(definition) => SymbolView {
            name: definition.function_name@,
            scope_name,
            kind: SymbolKindView::FunctionDefinition(signature(definition)),
        },
    }
}

/// The symbols of one scope, in declaration order: one for each parameter,
/// then one for each statement.
pub open spec fn level_symbols(
    scope_name: Seq<char>,
    parameters: Seq<FunctionParameter>,
    statements: Seq<Statement>,
) -> Seq<SymbolView> {
    parameters.map_values(|parameter: FunctionParameter| parameter_symbol(parameter, scope_name))
        + statements.map_values(|statement: Statement| statement_symbol(statement, scope_name))
}

/// Collects the names that an expression reads.
pub fn extract_usages(expression_node: &Expression) -> (usages: Vec<Usage>)
    ensures
        usages.deep_view() == expression_usages(*expression_node),
    decreases expression_node,
{
    let mut usages: Vec<Usage> = Vec::new();
    match expression_node {
        Expression::Ident(identifier) => {
            usages.push(
                Usage {
                    symbol: identifier.identifier_name.clone(),
                    kind: UsageKind::VariableReference(identifier.start_pos),
                },
            );
            assert(usages.deep_view() =~= expression_usages(*expression_node));
        },
        Expression::FunctionCall(call) => {
            usages.push(Usage { symbol: call.function_name.clone(), kind: UsageKind::FunctionCall });
            let ghost callee = usages.deep_view();
            let arguments = &call.function_arguments;
            let mut i: usize = 0;
            while i < arguments.len()
                invariant
                    i <= arguments.len(),
                    arguments == &call.function_arguments,
                    *expression_node == Expression::FunctionCall(*call),
                    usages.deep_view() == callee + arguments_usages(arguments@.take(i as int)),
                decreases arguments.len() - i,
            {
                proof {
                    assert(decreases_to!(*expression_node => expression_node->FunctionCall_0));
                    assert(decreases_to!(*call => call.function_arguments));
                    assert(decreases_to!(call.function_arguments => arguments@[i as int]));
                }
                let mut found = extract_usages(&arguments[i]);
                let ghost before = usages.deep_view();
                let ghost part = found.deep_view();
                usages.append(&mut found);
                proof {
                    assert(usages.deep_view() =~= before + part);
                    assert(arguments@.take(i + 1).drop_last() =~= arguments@.take(i as int));
                    assert(arguments@.take(i + 1).last() == arguments@[i as int]);
                }
                i += 1;
            }
            proof {
                assert(arguments@.take(i as int) =~= arguments@);
                assert(callee =~= seq![
                    UsageView { name: call.function_name@, kind: UsageKind::FunctionCall },
                ]);
            }
        },
        Expression::Negative(a) | Expression::Not(a) => {
            usages = extract_usages(a);
        },
        Expression::Plus(a, b)
        | Expression::Minus(a, b)
        | Expression::Times(a, b)
        | Expression::Divide(a, b)
        | Expression::IsEqual(a, b)
        | Expression::NotEqual(a, b)
        | Expression::LessThan(a, b)
        | Expression::LessThanOrEqual(a, b)
        | Expression::GreaterThan(a, b)
        | Expression::GreaterThanOrEqual(a, b)
        | Expression::Or(a, b)
        | Expression::And(a, b) => {
            usages = extract_usages(a);
            let mut right = extract_usages(b);
            let ghost left_view = usages.deep_view();
            let ghost right_view = right.deep_view();
            usages.append(&mut right);
            assert(usages.deep_view() =~= left_view + right_view);
        },
        Expression::IfElseExpression(choice) => {
            usages = extract_usages(&choice.predicate);
            let mut on_true = extract_usages(&choice.true_branch);
            let mut on_false = extract_usages(&choice.false_branch);
            let ghost first = usages.deep_view();
            let ghost second = on_true.deep_view();
            let ghost third = on_false.deep_view();
            usages.append(&mut on_true);
            usages.append(&mut on_false);
            assert(usages.deep_view() =~= first + second + third);
        },
        Expression::Number(_) | Expression::Boolean(_) | Expression::StringLiteral(_) => {
            assert(usages.deep_view() =~= Seq::<UsageView>::empty());
        },
    }
    usages
}

/// Collects the usages of one scope: what the right-hand sides of its
/// assignments read, in order, then what the returned expression reads.
pub fn get_level_usages(
    statements: &Vec<Statement>,
    return_expression: &Option<ExpressionTerm>,
) -> (usages: Vec<Usage>)
    ensures
        usages.deep_view() == level_usages(statements@, *return_expression),
{
    let mut usages: Vec<Usage> = Vec::new();
    assert(usages.deep_view() =~= statements_usages(statements@.take(0)));
    let mut i: usize = 0;
    while i < statements.len()
        invariant
            i <= statements.len(),
            usages.deep_view() == statements_usages(statements@.take(i as int)),
        decreases statements.len() - i,
    {
        let ghost before = usages.deep_view();
        proof {
            assert(statements@.take(i + 1).drop_last() =~= statements@.take(i as int));
            assert(statements@.take(i + 1).last() == statements@[i as int]);
        }
        match &statements[i] {
            Statement::AssignmentStmt(assignment) => {
                let mut found = extract_usages(&assignment.rhs.expression);
                let ghost part = found.deep_view();
                usages.append(&mut found);
                assert(usages.deep_view() =~= before + part);
            },
            Statement::FunctionDefStmt(_) => {
                assert(usages.deep_view() =~= before + Seq::<UsageView>::empty());
            },
        }
        i += 1;
    }
    assert(statements@.take(i as int) =~= statements@);
    let ghost body = usages.deep_view();
    match return_expression {
        Some(term) => {
            let mut found = extract_usages(&term.expression);
            let ghost part = found.deep_view();
            usages.append(&mut found);
            assert(usages.deep_view() =~= body + part);
        },
        None => {
            assert(usages.deep_view() =~= body + Seq::<UsageView>::empty());
        },
    }
    usages
}

/// Builds the signature of a function: its parameter types in order, then
/// its return type.
pub fn function_signature(definition: &FunctionDefinition) -> (types: Vec<TypeLiteral>)
    ensures
        types@ == signature(*definition),
{
    let parameters = &definition.function_parameters;
    let mut types: Vec<TypeLiteral> = Vec::new();
    let mut i: usize = 0;
    while i < parameters.len()
        invariant
            i <= parameters.len(),
            types@ == parameters@.take(i as int).map_values(
                |parameter: FunctionParameter| parameter.parameter_type,
            ),
        decreases parameters.len() - i,
    {
        types.push(parameters[i].parameter_type);
        i += 1;
    }
    assert(parameters@.take(i as int) =~= parameters@);
    types.push(definition.function_return_type);
    types
}

/// Collects the symbols that one scope declares, in declaration order: the
/// parameters, then the assignments and function definitions of the body.
/// Every symbol records `scope_name` as the scope that declares it.
pub fn get_level_symbol_table(
    scope_name: &String,
    parameters: &Vec<FunctionParameter>,
    statements: &Vec<Statement>,
) -> (symbols: Vec<Symbol>)
    ensures
        symbols.deep_view() == level_symbols(scope_name@, parameters@, statements@),
{
    let mut symbols: Vec<Symbol> = Vec::new();
    let mut i: usize = 0;
    while i < parameters.len()
        invariant
            i <= parameters.len(),
            symbols.deep_view() == parameters@.take(i as int).map_values(
                |parameter: FunctionParameter| parameter_symbol(parameter, scope_name@),
            ),
        decreases parameters.len() - i,
    {
        let ghost before = symbols.deep_view();
        symbols.push(
            Symbol {
                symbol: parameters[i].parameter_name.clone(),
                scope_name: scope_name.clone(),
                kind: SymbolKind::FunctionParameter(parameters[i].parameter_type),
            },
        );
        proof {
            assert(symbols.deep_view() =~= before.push(
                parameter_symbol(parameters@[i as int], scope_name@),
            ));
            assert(parameters@.take(i + 1) =~= parameters@.take(i as int).push(
                parameters@[i as int],
            ));
        }
        i += 1;
    }
    assert(parameters@.take(i as int) =~= parameters@);
    let ghost declared = symbols.deep_view();
    let mut j: usize = 0;
    while j < statements.len()
        invariant
            j <= statements.len(),
            symbols.deep_view() == declared + statements@.take(j as int).map_values(
                |statement: Statement| statement_symbol(statement, scope_name@),
            ),
        decreases statements.len() - j,
    {
        let ghost before = symbols.deep_view();
        match &statements[j] {
            Statement::AssignmentStmt(assignment) => {
                symbols.push(
                    Symbol {
                        symbol: assignment.identifier.clone(),
                        scope_name: scope_name.clone(),
                        kind: SymbolKind::VariableDeclaration(assignment.start_pos),
                    },
                );
            },
            Statement::FunctionDefStmt(definition) => {
                symbols.push(
                    Symbol {
                        symbol: definition.function_name.clone(),
                        scope_name: scope_name.clone(),
                        kind: SymbolKind::FunctionDefinition(function_signature(definition)),
                    },
                );
            },
        }
        proof {
            assert(symbols.deep_view() =~= before.push(
                statement_symbol(statements@[j as int], scope_name@),
            ));
            assert(statements@.take(j + 1) =~= statements@.take(j as int).push(
                statements@[j as int],
            ));
        }
        j += 1;
    }
    assert(statements@.take(j as int) =~= statements@);
    symbols
}

} // verus!
