use scope_analysis::ast::{
    Assignment, Expression, ExpressionTerm, FunctionBody, FunctionCall, FunctionDefinition,
    FunctionParameter, Identifier, IfElseExpression, Statement, TypeLiteral,
};
use scope_analysis::extract::{
    extract_usages, function_signature, get_level_symbol_table, get_level_usages,
};
use scope_analysis::model::{Symbol, SymbolKind, Usage, UsageKind};

fn number(value: f64) -> Expression {
    Expression::Number(value.to_bits())
}

fn ident(name: &str, position: usize) -> Expression {
    Expression::Ident(Identifier { identifier_name: name.to_string(), start_pos: position })
}

fn boxed(name: &str, position: usize) -> Box<Expression> {
    Box::new(ident(name, position))
}

fn call(name: &str, arguments: Vec<Expression>) -> Expression {
    Expression::FunctionCall(FunctionCall {
        function_name: name.to_string(),
        function_arguments: arguments,
    })
}

fn reference(name: &str, position: usize) -> Usage {
    Usage { symbol: name.to_string(), kind: UsageKind::VariableReference(position) }
}

fn called(name: &str) -> Usage {
    Usage { symbol: name.to_string(), kind: UsageKind::FunctionCall }
}

fn assign(name: &str, position: usize, rhs: Expression) -> Statement {
    Statement::AssignmentStmt(Assignment {
        identifier: name.to_string(),
        type_annotation: None,
        rhs: ExpressionTerm { expression: rhs },
        start_pos: position,
    })
}

fn definition(
    name: &str,
    parameters: Vec<(&str, TypeLiteral)>,
    return_type: TypeLiteral,
    statements: Vec<Statement>,
    returned: Option<Expression>,
) -> FunctionDefinition {
    FunctionDefinition {
        function_name: name.to_string(),
        function_parameters: parameters
            .into_iter()
            .map(|(parameter_name, parameter_type)| FunctionParameter {
                parameter_name: parameter_name.to_string(),
                parameter_type,
            })
            .collect(),
        function_return_type: return_type,
        function_body: FunctionBody {
            statements,
            return_expression_term: returned.map(|expression| ExpressionTerm { expression }),
        },
    }
}

#[test]
fn literals_read_nothing() {
    assert_eq!(extract_usages(&number(1.5)), vec![]);
    assert_eq!(extract_usages(&Expression::Boolean(true)), vec![]);
    assert_eq!(extract_usages(&Expression::StringLiteral("x".to_string())), vec![]);
}

#[test]
fn identifier_is_a_variable_reference_at_its_position() {
    assert_eq!(extract_usages(&ident("total", 42)), vec![reference("total", 42)]);
}

#[test]
fn unary_operators_read_their_operand() {
    assert_eq!(extract_usages(&Expression::Negative(boxed("a", 1))), vec![reference("a", 1)]);
    assert_eq!(extract_usages(&Expression::Not(boxed("b", 2))), vec![reference("b", 2)]);
    assert_eq!(extract_usages(&Expression::Not(Box::new(Expression::Boolean(false)))), vec![]);
}

#[test]
fn binary_operators_read_left_then_right() {
    let expected = vec![reference("l", 3), reference("r", 7)];
    assert_eq!(extract_usages(&Expression::Plus(boxed("l", 3), boxed("r", 7))), expected);
    assert_eq!(extract_usages(&Expression::Minus(boxed("l", 3), boxed("r", 7))), expected);
    assert_eq!(extract_usages(&Expression::Times(boxed("l", 3), boxed("r", 7))), expected);
    assert_eq!(extract_usages(&Expression::Divide(boxed("l", 3), boxed("r", 7))), expected);
    assert_eq!(extract_usages(&Expression::IsEqual(boxed("l", 3), boxed("r", 7))), expected);
    assert_eq!(extract_usages(&Expression::NotEqual(boxed("l", 3), boxed("r", 7))), expected);
    assert_eq!(extract_usages(&Expression::LessThan(boxed("l", 3), boxed("r", 7))), expected);
    assert_eq!(
        extract_usages(&Expression::LessThanOrEqual(boxed("l", 3), boxed("r", 7))),
        expected
    );
    assert_eq!(extract_usages(&Expression::GreaterThan(boxed("l", 3), boxed("r", 7))), expected);
    assert_eq!(
        extract_usages(&Expression::GreaterThanOrEqual(boxed("l", 3), boxed("r", 7))),
        expected
    );
    assert_eq!(extract_usages(&Expression::Or(boxed("l", 3), boxed("r", 7))), expected);
    assert_eq!(extract_usages(&Expression::And(boxed("l", 3), boxed("r", 7))), expected);
}

#[test]
fn conditional_reads_predicate_then_branches() {
    let expression = Expression::IfElseExpression(IfElseExpression {
        predicate: boxed("p", 3),
        true_branch: Box::new(call("f", vec![ident("t", 9)])),
        false_branch: boxed("e", 20),
    });
    assert_eq!(extract_usages(&expression), vec![
        reference("p", 3),
        called("f"),
        reference("t", 9),
        reference("e", 20),
    ]);
}

#[test]
fn call_reads_callee_then_arguments_in_order() {
    let expression = call("f", vec![
        ident("a", 2),
        call("g", vec![ident("b", 6), number(1.0)]),
        Expression::Plus(boxed("c", 12), boxed("a", 14)),
    ]);
    assert_eq!(extract_usages(&expression), vec![
        called("f"),
        reference("a", 2),
        called("g"),
        reference("b", 6),
        reference("c", 12),
        reference("a", 14),
    ]);
}

#[test]
fn call_without_arguments_reads_the_callee_only() {
    assert_eq!(extract_usages(&call("now", vec![])), vec![called("now")]);
}

#[test]
fn the_same_name_read_twice_is_two_usages() {
    let expression = Expression::Times(boxed("x", 4), boxed("x", 8));
    assert_eq!(extract_usages(&expression), vec![reference("x", 4), reference("x", 8)]);
}

#[test]
fn level_usages_skip_nested_function_bodies() {
    let statements = vec![
        assign("a", 0, ident("b", 8)),
        Statement::FunctionDefStmt(definition(
            "f",
            vec![],
            TypeLiteral::Number,
            vec![assign("hidden", 30, ident("inner", 43))],
            Some(ident("also_inner", 60)),
        )),
        assign("c", 80, call("f", vec![ident("a", 90)])),
    ];
    assert_eq!(get_level_usages(&statements, &None), vec![
        reference("b", 8),
        called("f"),
        reference("a", 90),
    ]);
}

#[test]
fn level_usages_end_with_the_returned_expression() {
    let statements = vec![assign("a", 5, ident("p", 13))];
    let returned = Some(ExpressionTerm { expression: Expression::Plus(boxed("a", 25), boxed("q", 27)) });
    assert_eq!(get_level_usages(&statements, &returned), vec![
        reference("p", 13),
        reference("a", 25),
        reference("q", 27),
    ]);
}

#[test]
fn level_usages_of_an_empty_body_are_empty() {
    assert_eq!(get_level_usages(&vec![], &None), vec![]);
}

#[test]
fn signature_is_parameter_types_then_return_type() {
    let function = definition(
        "f",
        vec![("a", TypeLiteral::Number), ("b", TypeLiteral::String), ("c", TypeLiteral::Boolean)],
        TypeLiteral::Unit,
        vec![],
        None,
    );
    assert_eq!(function_signature(&function), vec![
        TypeLiteral::Number,
        TypeLiteral::String,
        TypeLiteral::Boolean,
        TypeLiteral::Unit,
    ]);
    let constant = definition("k", vec![], TypeLiteral::Number, vec![], None);
    assert_eq!(function_signature(&constant), vec![TypeLiteral::Number]);
}

#[test]
fn level_symbols_are_parameters_then_statements() {
    let parameters = vec![
        FunctionParameter { parameter_name: "p".to_string(), parameter_type: TypeLiteral::Number },
        FunctionParameter { parameter_name: "q".to_string(), parameter_type: TypeLiteral::Boolean },
    ];
    let statements = vec![
        assign("a", 30, number(1.0)),
        Statement::FunctionDefStmt(definition(
            "g",
            vec![("z", TypeLiteral::String)],
            TypeLiteral::Unit,
            vec![assign("hidden", 60, number(2.0))],
            None,
        )),
        assign("b", 90, number(3.0)),
    ];
    let symbols = get_level_symbol_table(&"f".to_string(), &parameters, &statements);
    assert_eq!(symbols, vec![
        Symbol {
            symbol: "p".to_string(),
            scope_name: "f".to_string(),
            kind: SymbolKind::FunctionParameter(TypeLiteral::Number),
        },
        Symbol {
            symbol: "q".to_string(),
            scope_name: "f".to_string(),
            kind: SymbolKind::FunctionParameter(TypeLiteral::Boolean),
        },
        Symbol {
            symbol: "a".to_string(),
            scope_name: "f".to_string(),
            kind: SymbolKind::VariableDeclaration(30),
        },
        Symbol {
            symbol: "g".to_string(),
            scope_name: "f".to_string(),
            kind: SymbolKind::FunctionDefinition(vec![TypeLiteral::String, TypeLiteral::Unit]),
        },
        Symbol {
            symbol: "b".to_string(),
            scope_name: "f".to_string(),
            kind: SymbolKind::VariableDeclaration(90),
        },
    ]);
}

#[test]
fn level_symbols_keep_duplicates() {
    let statements = vec![assign("a", 0, number(1.0)), assign("a", 10, number(2.0))];
    let symbols = get_level_symbol_table(&"(program)".to_string(), &vec![], &statements);
    assert_eq!(symbols.len(), 2);
    assert_eq!(symbols[0].kind, SymbolKind::VariableDeclaration(0));
    assert_eq!(symbols[1].kind, SymbolKind::VariableDeclaration(10));
}
