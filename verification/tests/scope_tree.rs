use scope_analysis::ast::{
    Assignment, Expression, ExpressionTerm, FunctionBody, FunctionCall, FunctionDefinition,
    FunctionParameter, Identifier, Program, Statement, TypeLiteral,
};
use scope_analysis::model::{Symbol, SymbolKind, Usage, UsageKind};
use scope_analysis::scope::{build_function_scope, build_program_scope, get_scope_name, Scope};

fn number(value: f64) -> Expression {
    Expression::Number(value.to_bits())
}

fn ident(name: &str, position: usize) -> Expression {
    Expression::Ident(Identifier { identifier_name: name.to_string(), start_pos: position })
}

fn call(name: &str, arguments: Vec<Expression>) -> Expression {
    Expression::FunctionCall(FunctionCall {
        function_name: name.to_string(),
        function_arguments: arguments,
    })
}

fn assign(name: &str, position: usize, rhs: Expression) -> Statement {
    Statement::AssignmentStmt(Assignment {
        identifier: name.to_string(),
        type_annotation: None,
        rhs: ExpressionTerm { expression: rhs },
        start_pos: position,
    })
}

fn definition(
    name: &str,
    parameters: Vec<(&str, TypeLiteral)>,
    return_type: TypeLiteral,
    statements: Vec<Statement>,
    returned: Option<Expression>,
) -> FunctionDefinition {
    FunctionDefinition {
        function_name: name.to_string(),
        function_parameters: parameters
            .into_iter()
            .map(|(parameter_name, parameter_type)| FunctionParameter {
                parameter_name: parameter_name.to_string(),
                parameter_type,
            })
            .collect(),
        function_return_type: return_type,
        function_body: FunctionBody {
            statements,
            return_expression_term: returned.map(|expression| ExpressionTerm { expression }),
        },
    }
}

fn variable(name: &str, scope: &str, position: usize) -> Symbol {
    Symbol {
        symbol: name.to_string(),
        scope_name: scope.to_string(),
        kind: SymbolKind::VariableDeclaration(position),
    }
}

fn parameter(name: &str, scope: &str, parameter_type: TypeLiteral) -> Symbol {
    Symbol {
        symbol: name.to_string(),
        scope_name: scope.to_string(),
        kind: SymbolKind::FunctionParameter(parameter_type),
    }
}

fn function(name: &str, scope: &str, signature: Vec<TypeLiteral>) -> Symbol {
    Symbol {
        symbol: name.to_string(),
        scope_name: scope.to_string(),
        kind: SymbolKind::FunctionDefinition(signature),
    }
}

fn reference(name: &str, position: usize) -> Usage {
    Usage { symbol: name.to_string(), kind: UsageKind::VariableReference(position) }
}

fn called(name: &str) -> Usage {
    Usage { symbol: name.to_string(), kind: UsageKind::FunctionCall }
}

#[test]
fn empty_program_has_an_empty_root_scope() {
    let scope = build_program_scope(&Program { statements: vec![] });
    assert_eq!(scope, Scope {
        name: "(program)".to_string(),
        symbols: vec![],
        usages: vec![],
        children: vec![],
    });
    assert_eq!(get_scope_name(&scope), "(program)");
}

#[test]
fn root_scope_has_one_child_for_each_function_in_order() {
    let program = Program {
        statements: vec![
            assign("a", 0, number(1.0)),
            Statement::FunctionDefStmt(definition(
                "first",
                vec![("p", TypeLiteral::Number)],
                TypeLiteral::Number,
                vec![assign("local", 40, ident("p", 52))],
                Some(ident("local", 70)),
            )),
            assign("b", 90, call("first", vec![ident("a", 104)])),
            Statement::FunctionDefStmt(definition("second", vec![], TypeLiteral::Unit, vec![], None)),
        ],
    };
    let scope = build_program_scope(&program);
    assert_eq!(scope, Scope {
        name: "(program)".to_string(),
        symbols: vec![
            variable("a", "(program)", 0),
            function("first", "(program)", vec![TypeLiteral::Number, TypeLiteral::Number]),
            variable("b", "(program)", 90),
            function("second", "(program)", vec![TypeLiteral::Unit]),
        ],
        usages: vec![called("first"), reference("a", 104)],
        children: vec![
            Scope {
                name: "first".to_string(),
                symbols: vec![
                    parameter("p", "first", TypeLiteral::Number),
                    variable("local", "first", 40),
                ],
                usages: vec![reference("p", 52), reference("local", 70)],
                children: vec![],
            },
            Scope { name: "second".to_string(), symbols: vec![], usages: vec![], children: vec![] },
        ],
    });
}

#[test]
fn function_scope_nests_the_functions_of_its_body() {
    let outer = definition(
        "outer",
        vec![("x", TypeLiteral::Number), ("y", TypeLiteral::String)],
        TypeLiteral::Boolean,
        vec![
            Statement::FunctionDefStmt(definition(
                "inner",
                vec![("x", TypeLiteral::Boolean)],
                TypeLiteral::Unit,
                vec![Statement::FunctionDefStmt(definition(
                    "innermost",
                    vec![],
                    TypeLiteral::Number,
                    vec![],
                    Some(ident("y", 200)),
                ))],
                None,
            )),
            assign("z", 300, call("inner", vec![ident("x", 310)])),
        ],
        Some(ident("z", 400)),
    );
    let scope = build_function_scope(&outer);
    assert_eq!(get_scope_name(&scope), "outer");
    assert_eq!(scope, Scope {
        name: "outer".to_string(),
        symbols: vec![
            parameter("x", "outer", TypeLiteral::Number),
            parameter("y", "outer", TypeLiteral::String),
            function("inner", "outer", vec![TypeLiteral::Boolean, TypeLiteral::Unit]),
            variable("z", "outer", 300),
        ],
        usages: vec![called("inner"), reference("x", 310), reference("z", 400)],
        children: vec![Scope {
            name: "inner".to_string(),
            symbols: vec![
                parameter("x", "inner", TypeLiteral::Boolean),
                function("innermost", "inner", vec![TypeLiteral::Number]),
            ],
            usages: vec![],
            children: vec![Scope {
                name: "innermost".to_string(),
                symbols: vec![],
                usages: vec![reference("y", 200)],
                children: vec![],
            }],
        }],
    });
}

#[test]
fn functions_of_the_same_name_have_a_scope_each() {
    let program = Program {
        statements: vec![
            Statement::FunctionDefStmt(definition(
                "f",
                vec![],
                TypeLiteral::Unit,
                vec![],
                Some(ident("a", 10)),
            )),
            Statement::FunctionDefStmt(definition(
                "f",
                vec![],
                TypeLiteral::Unit,
                vec![],
                Some(ident("b", 50)),
            )),
        ],
    };
    let scope = build_program_scope(&program);
    assert_eq!(scope.children.len(), 2);
    assert_eq!(scope.children[0].name, "f");
    assert_eq!(scope.children[0].usages, vec![reference("a", 10)]);
    assert_eq!(scope.children[1].name, "f");
    assert_eq!(scope.children[1].usages, vec![reference("b", 50)]);
}

#[test]
fn every_symbol_records_the_scope_that_holds_it() {
    let program = Program {
        statements: vec![
            assign("a", 0, number(1.0)),
            Statement::FunctionDefStmt(definition(
                "f",
                vec![("p", TypeLiteral::Number)],
                TypeLiteral::Unit,
                vec![assign("b", 40, number(2.0))],
                None,
            )),
        ],
    };
    let scope = build_program_scope(&program);
    assert!(scope.symbols.iter().all(|symbol| symbol.scope_name == "(program)"));
    assert!(scope.children[0].symbols.iter().all(|symbol| symbol.scope_name == "f"));
}
