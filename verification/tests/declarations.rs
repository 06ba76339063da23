use scope_analysis::ast::TypeLiteral;
use scope_analysis::model::{NameResolutionError, NameResolutionErrorKind, Symbol, SymbolKind};
use scope_analysis::resolution::check_for_redeclarations;
use scope_analysis::scope::Scope;

fn variable(name: &str, scope: &str, position: usize) -> Symbol {
    Symbol {
        symbol: name.to_string(),
        scope_name: scope.to_string(),
        kind: SymbolKind::VariableDeclaration(position),
    }
}

fn parameter(name: &str, scope: &str) -> Symbol {
    Symbol {
        symbol: name.to_string(),
        scope_name: scope.to_string(),
        kind: SymbolKind::FunctionParameter(TypeLiteral::Number),
    }
}

fn function(name: &str, scope: &str) -> Symbol {
    Symbol {
        symbol: name.to_string(),
        scope_name: scope.to_string(),
        kind: SymbolKind::FunctionDefinition(vec![TypeLiteral::Unit]),
    }
}

fn scope_of(name: &str, symbols: Vec<Symbol>) -> Scope {
    Scope { name: name.to_string(), symbols, usages: vec![], children: vec![] }
}

fn redeclared(scope: &str, symbol: Symbol) -> NameResolutionError {
    NameResolutionError {
        scope_name: scope.to_string(),
        error_kind: NameResolutionErrorKind::Redeclaration(symbol),
    }
}

fn clash(scope: &str, symbol: Symbol) -> NameResolutionError {
    NameResolutionError {
        scope_name: scope.to_string(),
        error_kind: NameResolutionErrorKind::ReservedKeywordClash(symbol),
    }
}

#[test]
fn empty_scope_has_no_declaration_error() {
    assert_eq!(check_for_redeclarations(&scope_of("(program)", vec![])), vec![]);
}

#[test]
fn distinct_names_give_no_error() {
    let scope = scope_of("(program)", vec![
        variable("a", "(program)", 0),
        function("b", "(program)"),
        variable("c", "(program)", 20),
    ]);
    assert_eq!(check_for_redeclarations(&scope), vec![]);
}

#[test]
fn a_name_declared_three_times_gives_two_redeclarations() {
    let scope = scope_of("(program)", vec![
        variable("x", "(program)", 0),
        variable("y", "(program)", 10),
        variable("x", "(program)", 20),
        variable("x", "(program)", 30),
    ]);
    assert_eq!(check_for_redeclarations(&scope), vec![
        redeclared("(program)", variable("x", "(program)", 20)),
        redeclared("(program)", variable("x", "(program)", 30)),
    ]);
}

#[test]
fn a_name_declared_once_gives_no_redeclaration() {
    let scope = scope_of("(program)", vec![variable("x", "(program)", 0)]);
    assert_eq!(check_for_redeclarations(&scope), vec![]);
}

#[test]
fn variable_and_function_share_one_namespace() {
    let scope = scope_of("(program)", vec![
        variable("f", "(program)", 0),
        function("f", "(program)"),
    ]);
    assert_eq!(check_for_redeclarations(&scope), vec![redeclared(
        "(program)",
        function("f", "(program)"),
    )]);

    let scope = scope_of("(program)", vec![
        function("f", "(program)"),
        variable("f", "(program)", 30),
    ]);
    assert_eq!(check_for_redeclarations(&scope), vec![redeclared(
        "(program)",
        variable("f", "(program)", 30),
    )]);
}

#[test]
fn body_variable_named_like_a_parameter_is_a_redeclaration() {
    let scope = scope_of("f", vec![parameter("p", "f"), variable("p", "f", 40)]);
    assert_eq!(check_for_redeclarations(&scope), vec![redeclared("f", variable("p", "f", 40))]);
}

#[test]
fn two_parameters_of_one_name_are_a_redeclaration() {
    let scope = scope_of("f", vec![parameter("p", "f"), parameter("p", "f")]);
    assert_eq!(check_for_redeclarations(&scope), vec![redeclared("f", parameter("p", "f"))]);
}

#[test]
fn only_the_scope_itself_is_checked() {
    let mut scope = scope_of("(program)", vec![variable("x", "(program)", 0)]);
    scope.children.push(scope_of("f", vec![variable("x", "f", 50), variable("x", "f", 60)]));
    assert_eq!(check_for_redeclarations(&scope), vec![]);
    assert_eq!(check_for_redeclarations(&scope.children[0]), vec![redeclared(
        "f",
        variable("x", "f", 60),
    )]);
}

#[test]
fn every_declaration_of_a_reserved_name_is_a_clash() {
    let scope = scope_of("(program)", vec![
        variable("true", "(program)", 0),
        variable("true", "(program)", 14),
    ]);
    assert_eq!(check_for_redeclarations(&scope), vec![
        clash("(program)", variable("true", "(program)", 0)),
        clash("(program)", variable("true", "(program)", 14)),
    ]);
}

#[test]
fn every_reserved_word_clashes_whatever_the_kind() {
    let words = [
        "let", "fun", "return", "if", "else", "true", "false", "Number", "Boolean", "String",
        "Unit",
    ];
    for word in words {
        let scope = scope_of("f", vec![
            parameter(word, "f"),
            function(word, "f"),
            variable(word, "f", 9),
        ]);
        assert_eq!(check_for_redeclarations(&scope), vec![
            clash("f", parameter(word, "f")),
            clash("f", function(word, "f")),
            clash("f", variable(word, "f", 9)),
        ]);
    }
}

#[test]
fn errors_come_in_declaration_order() {
    let scope = scope_of("(program)", vec![
        variable("a", "(program)", 0),
        variable("if", "(program)", 10),
        variable("a", "(program)", 20),
        function("b", "(program)"),
        variable("else", "(program)", 40),
        variable("b", "(program)", 50),
    ]);
    assert_eq!(check_for_redeclarations(&scope), vec![
        clash("(program)", variable("if", "(program)", 10)),
        redeclared("(program)", variable("a", "(program)", 20)),
        clash("(program)", variable("else", "(program)", 40)),
        redeclared("(program)", variable("b", "(program)", 50)),
    ]);
}

#[test]
fn the_error_carries_the_name_of_the_checked_scope() {
    let scope = scope_of("here", vec![variable("x", "elsewhere", 0), variable("x", "elsewhere", 5)]);
    assert_eq!(check_for_redeclarations(&scope), vec![redeclared(
        "here",
        variable("x", "elsewhere", 5),
    )]);
}
