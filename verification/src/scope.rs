//! The tree of lexical scopes.

use vstd::prelude::*;
use crate::ast::{FunctionDefinition, FunctionParameter, Program, Statement};
use crate::extract::{get_level_symbol_table, get_level_usages, level_symbols, level_usages};
use crate::extract::{parameter_symbol, statement_symbol};
use crate::model::{Symbol, SymbolView, Usage, UsageView};

verus! {

/// One lexical region: the program root or the body of one function.
#[derive(Debug, PartialEq, Eq)]
pub struct Scope {
    pub name: String,
    pub symbols: Vec<Symbol>,
    pub usages: Vec<Usage>,
    pub children: Vec<Scope>,
}

/// The view of a [`Scope`].
pub struct ScopeView {
    pub name: Seq<char>,
    pub symbols: Seq<SymbolView>,
    pub usages: Seq<UsageView>,
    pub children: Seq<ScopeView>,
}

/// The view of a scope: the views of its parts, child by child.
pub open spec fn scope_view(scope: Scope) -> ScopeView
    decreases scope,
{
    ScopeView {
        name: scope.name@,
        symbols: scope.symbols.deep_view(),
        usages: scope.usages.deep_view(),
        children: Seq::new(
            scope.children@.len(),
            |i: int|
                if 0 <= i < scope.children@.len() {
                    scope_view(scope.children@[i])
                } else {
                    arbitrary()
                },
        ),
    }
}

impl DeepView for Scope {
    type V = ScopeView;

    open spec fn deep_view(&self) -> ScopeView {
        scope_view(*self)
    }
}

/// The name of the root scope.
pub open spec fn root_scope_name() -> Seq<char> {
    "(program)"@
}

/// The scope of a function. It is named after the function. It declares the
/// parameters and then what the body's statements declare, it reads what the
/// body's assignments and the returned expression read, and it has one child
/// for each function that the body defines, in order.
pub open spec fn function_scope(definition: FunctionDefinition) -> ScopeView
    decreases definition,
{
    ScopeView {
        name: definition.function_name@,
        symbols: level_symbols(
            definition.function_name@,
            definition.function_parameters@,
            definition.function_body.statements@,
        ),
        usages: level_usages(
            definition.function_body.statements@,
            definition.function_body.return_expression_term,
        ),
        children: child_scopes(definition.function_body.statements@),
    }
}

/// The scopes of the functions that a list of statements defines, in order.
pub open spec fn child_scopes(statements: Seq<Statement>) -> Seq<ScopeView>
    decreases statements,
{
    if statements.len() == 0 {
        Seq::empty()
    } else {
        let earlier = child_scopes(statements.drop_last());
        match statements.last() {
            Statement::FunctionDefStmt(definition) => earlier.push(function_scope(definition)),
            Statement::AssignmentStmt(_) => earlier,
        }
    }
}

/// The root scope of a program. It declares what the top-level statements
/// declare, reads what the top-level assignments read, and has one child for
/// each top-level function.
pub open spec fn program_scope(program: Program) -> ScopeView {
    ScopeView {
        name: root_scope_name(),
        symbols: level_symbols(
            root_scope_name(),
            Seq::<FunctionParameter>::empty(),
            program.statements@,
        ),
        usages: level_usages(program.statements@, None),
        children: child_scopes(program.statements@),
    }
}

/// The names of the functions among `symbols`, in declaration order.
pub open spec fn function_names(symbols: Seq<SymbolView>) -> Seq<Seq<char>>
    decreases symbols.len(),
{
    if symbols.len() == 0 {
        Seq::empty()
    } else {
        let earlier = function_names(symbols.drop_last());
        if symbols.last().kind is FunctionDefinition {
            earlier.push(symbols.last().name)
        } else {
            earlier
        }
    }
}

/// Whether a scope tree hangs together: every symbol records the scope that
/// holds it, the children are the scopes of the functions that the scope
/// defines, in declaration order, and every child hangs together too.
pub open spec fn well_formed(scope: ScopeView) -> bool
    decreases scope,
{
    &&& forall|i: int|
        0 <= i < scope.symbols.len() ==> (#[trigger] scope.symbols[i]).scope_name == scope.name
    &&& function_names(scope.symbols) == scope.children.map_values(|child: ScopeView| child.name)
    &&& forall|i: int|
        0 <= i < scope.children.len() ==> well_formed(#[trigger] scope.children[i])
}

proof fn lemma_function_names_add(left: Seq<SymbolView>, right: Seq<SymbolView>)
    ensures
        function_names(left + right) == function_names(left) + function_names(right),
    decreases right.len(),
{
    if right.len() == 0 {
        assert(left + right =~= left);
        assert(function_names(left) + function_names(right) =~= function_names(left));
    } else {
        lemma_function_names_add(left, right.drop_last());
        assert((left + right).drop_last() =~= left + right.drop_last());
        assert((left + right).last() == right.last());
        assert(function_names(left + right) =~= function_names(left) + function_names(right));
    }
}

proof fn lemma_parameters_name_no_function(parameters: Seq<FunctionParameter>, scope_name: Seq<char>)
    ensures
        function_names(
            parameters.map_values(
                |parameter: FunctionParameter| parameter_symbol(parameter, scope_name),
            ),
        ) == Seq::<Seq<char>>::empty(),
    decreases parameters.len(),
{
    let symbols = parameters.map_values(
        |parameter: FunctionParameter| parameter_symbol(parameter, scope_name),
    );
    if parameters.len() > 0 {
        lemma_parameters_name_no_function(parameters.drop_last(), scope_name);
        assert(symbols.drop_last() =~= parameters.drop_last().map_values(
            |parameter: FunctionParameter| parameter_symbol(parameter, scope_name),
        ));
    }
}

proof fn lemma_child_scopes_well_formed(statements: Seq<Statement>, scope_name: Seq<char>)
    ensures
        function_names(
            statements.map_values(|statement: Statement| statement_symbol(statement, scope_name)),
        ) == child_scopes(statements).map_values(|child: ScopeView| child.name),
        forall|i: int|
            0 <= i < child_scopes(statements).len() ==> well_formed(
                #[trigger] child_scopes(statements)[i],
            ),
    decreases statements,
{
    let symbols = statements.map_values(
        |statement: Statement| statement_symbol(statement, scope_name),
    );
    if statements.len() > 0 {
        let earlier = statements.drop_last();
        lemma_child_scopes_well_formed(earlier, scope_name);
        assert(symbols.drop_last() =~= earlier.map_values(
            |statement: Statement| statement_symbol(statement, scope_name),
        ));
        match statements.last() {
            Statement::FunctionDefStmt(definition) => {
                lemma_function_scope_well_formed(definition);
                assert(function_names(symbols) =~= child_scopes(statements).map_values(
                    |child: ScopeView| child.name,
                ));
            },
            Statement::AssignmentStmt(_) => {},
        }
    } else {
        assert(function_names(symbols) =~= child_scopes(statements).map_values(
            |child: ScopeView| child.name,
        ));
    }
}

/// The scope of a function hangs together.
pub proof fn lemma_function_scope_well_formed(definition: FunctionDefinition)
    ensures
        well_formed(function_scope(definition)),
    decreases definition,
{
    let name = definition.function_name@;
    let statements = definition.function_body.statements@;
    lemma_child_scopes_well_formed(statements, name);
    lemma_parameters_name_no_function(definition.function_parameters@, name);
    lemma_function_names_add(
        definition.function_parameters@.map_values(
            |parameter: FunctionParameter| parameter_symbol(parameter, name),
        ),
        statements.map_values(|statement: Statement| statement_symbol(statement, name)),
    );
}

/// The root scope of a program hangs together.
pub proof fn lemma_program_scope_well_formed(program: Program)
    ensures
        well_formed(program_scope(program)),
{
    let name = root_scope_name();
    let statements = program.statements@;
    lemma_child_scopes_well_formed(statements, name);
    lemma_parameters_name_no_function(Seq::<FunctionParameter>::empty(), name);
    lemma_function_names_add(
        Seq::<FunctionParameter>::empty().map_values(
            |parameter: FunctionParameter| parameter_symbol(parameter, name),
        ),
        statements.map_values(|statement: Statement| statement_symbol(statement, name)),
    );
}

/// Returns the name of a scope.
pub fn get_scope_name(scope: &Scope) -> (name: String)
    ensures
        name@ == scope.deep_view().name,
{
    scope.name.clone()
}

/// Builds the scopes of the functions that `statements` defines.
fn build_child_scopes(statements: &Vec<Statement>) -> (children: Vec<Scope>)
    ensures
        children.deep_view() == child_scopes(statements@),
    decreases statements,
{
    let mut children: Vec<Scope> = Vec::new();
    assert(children.deep_view() =~= child_scopes(statements@.take(0)));
    let mut i: usize = 0;
    while i < statements.len()
        invariant
            i <= statements.len(),
            children.deep_view() == child_scopes(statements@.take(i as int)),
        decreases statements.len() - i,
    {
        let ghost before = children.deep_view();
        proof {
            assert(statements@.take(i + 1).drop_last() =~= statements@.take(i as int));
            assert(statements@.take(i + 1).last() == statements@[i as int]);
        }
        match &statements[i] {
            Statement::FunctionDefStmt(definition) => {
                proof {
                    assert(decreases_to!(*statements => statements@[i as int]));
                    assert(decreases_to!(statements@[i as int] => statements@[i as int]->FunctionDefStmt_0));
                }
                let child = build_function_scope(definition);
                children.push(child);
                assert(children.deep_view() =~= before.push(function_scope(*definition)));
            },
            Statement::AssignmentStmt(_) => {},
        }
        i += 1;
    }
    assert(statements@.take(i as int) =~= statements@);
    children
}

/// Builds the scope of a function, with the scopes of the functions nested
/// in it.
pub fn build_function_scope(definition: &FunctionDefinition) -> (scope: Scope)
    ensures
        scope.deep_view() == function_scope(*definition),
        well_formed(scope.deep_view()),
    decreases definition,
{
    proof {
        lemma_function_scope_well_formed(*definition);
    }
    let body = &definition.function_body;
    let symbols = get_level_symbol_table(
        &definition.function_name,
        &definition.function_parameters,
        &body.statements,
    );
    let usages = get_level_usages(&body.statements, &body.return_expression_term);
    proof {
        assert(decreases_to!(*definition => definition.function_body));
        assert(decreases_to!(definition.function_body => definition.function_body.statements));
    }
    let children = build_child_scopes(&body.statements);
    let scope = Scope { name: definition.function_name.clone(), symbols, usages, children };
    assert(scope.deep_view().children =~= scope.children.deep_view());
    scope
}

/// Builds the root scope of a program, with the scope of every function in
/// it.
pub fn build_program_scope(program: &Program) -> (scope: Scope)
    ensures
        scope.deep_view() == program_scope(*program),
        well_formed(scope.deep_view()),
{
    proof {
        lemma_program_scope_well_formed(*program);
    }
    let name = "(program)".to_owned();
    let parameters: Vec<FunctionParameter> = Vec::new();
    let symbols = get_level_symbol_table(&name, &parameters, &program.statements);
    let usages = get_level_usages(&program.statements, &None);
    let children = build_child_scopes(&program.statements);
    let scope = Scope { name, symbols, usages, children };
    assert(scope.deep_view().children =~= scope.children.deep_view());
    assert(parameters@ =~= Seq::<FunctionParameter>::empty());
    scope
}

} // verus!
