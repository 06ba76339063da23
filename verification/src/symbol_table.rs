//! The nested symbol table: the declarations of a program, scope inside scope.
//!
//! A table lists the declarations of one scope in declaration order, and the
//! entry of a function carries the table of the function's own scope. Entries
//! are kept as a list and not keyed by name, so that a name declared twice
//! stays twice in the table, where the resolver can find and report it.

use vstd::prelude::*;
use crate::ast::{Assignment, FunctionDefinition, FunctionParameter, Program, Statement};
use crate::ast::TypeLiteral;
use crate::extract::{function_signature, parameter_symbol, signature, statement_symbol};
use crate::model::SymbolView;
use crate::scope::{child_scopes, function_scope, program_scope, root_scope_name, ScopeView};

verus! {

/// What kind of declaration an entry is.
#[derive(Debug, PartialEq, Eq)]
pub enum SymbolKind {
    /// A `let`, with its type annotation if it has one, and its position.
    VariableDeclaration(Option<TypeLiteral>, usize),
    /// A function: the types of its parameters in order, then its return
    /// type. The length of the list is the function's arity plus one.
    FunctionDefinition(Vec<TypeLiteral>),
    /// A parameter of the enclosing function, with its type.
    FunctionParameter(TypeLiteral),
}

/// One entry of a symbol table.
#[derive(Debug, PartialEq, Eq)]
pub struct SymbolInfo {
    /// The declared name.
    pub symbol: String,
    /// The name of the scope that declares it directly.
    pub scope_address: String,
    pub kind: SymbolKind,
    /// For a function, the table of its own scope.
    pub inner: Option<SymbolTable>,
}

/// The declarations of one scope, in declaration order.
#[derive(Debug, PartialEq, Eq)]
pub struct SymbolTable {
    pub symbol_table: Vec<SymbolInfo>,
}

/// The view of a [`SymbolKind`].
pub enum SymbolKindView {
    VariableDeclaration(Option<TypeLiteral>, usize),
    FunctionDefinition(Seq<TypeLiteral>),
    FunctionParameter(TypeLiteral),
}

/// The view of a [`SymbolInfo`].
pub struct SymbolInfoView {
    pub name: Seq<char>,
    pub scope_address: Seq<char>,
    pub kind: SymbolKindView,
    pub inner: Option<SymbolTableView>,
}

/// The view of a [`SymbolTable`].
pub struct SymbolTableView {
    pub entries: Seq<SymbolInfoView>,
}

impl DeepView for SymbolKind {
    type V = SymbolKindView;

    open spec fn deep_view(&self) -> SymbolKindView {
        match self {
            SymbolKind::VariableDeclaration(annotation, position) => {
                SymbolKindView::VariableDeclaration(*annotation, *position)
            },
            SymbolKind::FunctionDefinition(types) => SymbolKindView::FunctionDefinition(types@),
            SymbolKind::FunctionParameter(parameter_type) => SymbolKindView::FunctionParameter(
                *parameter_type,
            ),
        }
    }
}

/// The view of a table: the views of its entries, entry by entry.
pub open spec fn table_view(table: SymbolTable) -> SymbolTableView
    decreases table,
{
    SymbolTableView {
        entries: Seq::new(
            table.symbol_table@.len(),
            |i: int|
                if 0 <= i < table.symbol_table@.len() {
                    info_view(table.symbol_table@[i])
                } else {
                    arbitrary()
                },
        ),
    }
}

/// The view of an entry, with the view of the table that it carries.
pub open spec fn info_view(info: SymbolInfo) -> SymbolInfoView
    decreases info,
{
    SymbolInfoView {
        name: info.symbol@,
        scope_address: info.scope_address@,
        kind: info.kind.deep_view(),
        inner: match info.inner {
            Some(table) => Some(table_view(table)),
            None => None,
        },
    }
}

impl DeepView for SymbolInfo {
    type V = SymbolInfoView;

    open spec fn deep_view(&self) -> SymbolInfoView {
        info_view(*self)
    }
}

impl DeepView for SymbolTable {
    type V = SymbolTableView;

    open spec fn deep_view(&self) -> SymbolTableView {
        table_view(*self)
    }
}

/// The entry of an assignment in the scope `scope_address`.
pub open spec fn assignment_entry(assignment: Assignment, scope_address: Seq<char>) -> SymbolInfoView {
    SymbolInfoView {
        name: assignment.identifier@,
        scope_address,
        kind: SymbolKindView::VariableDeclaration(
            assignment.type_annotation,
            assignment.start_pos,
        ),
        inner: None,
    }
}

/// The entry of a parameter of the function `scope_address`.
pub open spec fn parameter_entry(
    parameter: FunctionParameter,
    scope_address: Seq<char>,
) -> SymbolInfoView {
    SymbolInfoView {
        name: parameter.parameter_name@,
        scope_address,
        kind: SymbolKindView::FunctionParameter(parameter.parameter_type),
        inner: None,
    }
}

/// The entry of a statement in the scope `scope_address`. The entry of a
/// function carries the table of the function.
pub open spec fn statement_entry(statement: Statement, scope_address: Seq<char>) -> SymbolInfoView
    decreases statement,
{
    match statement {
        Statement::AssignmentStmt(assignment) => assignment_entry(assignment, scope_address),
        Statement::FunctionDefStmt(definition) => SymbolInfoView {
            name: definition.function_name@,
            scope_address,
            kind: SymbolKindView::FunctionDefinition(signature(definition)),
            inner: Some(function_table(definition)),
        },
    }
}

/// The entries of a list of statements in the scope `scope_address`.
pub open spec fn statement_entries(
    statements: Seq<Statement>,
    scope_address: Seq<char>,
) -> Seq<SymbolInfoView>
    decreases statements,
{
    if statements.len() == 0 {
        Seq::empty()
    } else {
        statement_entries(statements.drop_last(), scope_address).push(
            statement_entry(statements.last(), scope_address),
        )
    }
}

/// The table of a function's own scope: its parameters, then what its body
/// declares.
pub open spec fn function_table(definition: FunctionDefinition) -> SymbolTableView
    decreases definition,
{
    SymbolTableView {
        entries: definition.function_parameters@.map_values(
            |parameter: FunctionParameter| parameter_entry(parameter, definition.function_name@),
        ) + statement_entries(definition.function_body.statements@, definition.function_name@),
    }
}

/// The table of a program: what its top-level statements declare.
pub open spec fn program_table(program: Program) -> SymbolTableView {
    SymbolTableView { entries: statement_entries(program.statements@, root_scope_name()) }
}

/// Builds the table that holds the one entry of an assignment.
pub fn build_assignment_symbol_table(assignment: &Assignment, scope_address: &String) -> (table:
    SymbolTable)
    ensures
        table.deep_view().entries == seq![assignment_entry(*assignment, scope_address@)],
{
    let mut entries: Vec<SymbolInfo> = Vec::new();
    entries.push(
        SymbolInfo {
            symbol: assignment.identifier.clone(),
            scope_address: scope_address.clone(),
            kind: SymbolKind::VariableDeclaration(
                assignment.type_annotation,
                assignment.start_pos,
            ),
            inner: None,
        },
    );
    let table = SymbolTable { symbol_table: entries };
    assert(table.deep_view().entries =~= seq![assignment_entry(*assignment, scope_address@)]);
    table
}

/// Builds the table that holds the one entry of a statement.
pub fn build_statement_symbol_table(statement: &Statement, scope_address: &String) -> (table:
    SymbolTable)
    ensures
        table.deep_view().entries == seq![statement_entry(*statement, scope_address@)],
    decreases statement,
{
    match statement {
        Statement::AssignmentStmt(assignment) => build_assignment_symbol_table(
            assignment,
            scope_address,
        ),
        Statement::FunctionDefStmt(definition) => {
            let inner = build_function_def_symbol_table(definition);
            let mut entries: Vec<SymbolInfo> = Vec::new();
            entries.push(
                SymbolInfo {
                    symbol: definition.function_name.clone(),
                    scope_address: scope_address.clone(),
                    kind: SymbolKind::FunctionDefinition(function_signature(definition)),
                    inner: Some(inner),
                },
            );
            let table = SymbolTable { symbol_table: entries };
            assert(table.deep_view().entries =~= seq![
                statement_entry(*statement, scope_address@),
            ]);
            table
        },
    }
}

/// Appends the entries of `statements` to `entries`.
fn append_statement_entries(
    entries: &mut Vec<SymbolInfo>,
    statements: &Vec<Statement>,
    scope_address: &String,
)
    ensures
        final(entries).deep_view() == old(entries).deep_view() + statement_entries(
            statements@,
            scope_address@,
        ),
    decreases statements,
{
    let ghost given = entries.deep_view();
    assert(entries.deep_view() =~= given + statement_entries(
        statements@.take(0),
        scope_address@,
    ));
    let mut i: usize = 0;
    while i < statements.len()
        invariant
            i <= statements.len(),
            entries.deep_view() == given + statement_entries(
                statements@.take(i as int),
                scope_address@,
            ),
        decreases statements.len() - i,
    {
        let ghost before = entries.deep_view();
        proof {
            assert(decreases_to!(*statements => statements@[i as int]));
            assert(statements@.take(i + 1).drop_last() =~= statements@.take(i as int));
            assert(statements@.take(i + 1).last() == statements@[i as int]);
        }
        let mut table = build_statement_symbol_table(&statements[i], scope_address);
        let ghost added = table.symbol_table.deep_view();
        assert(added =~= table.deep_view().entries);
        entries.append(&mut table.symbol_table);
        assert(entries.deep_view() =~= before + added);
        i += 1;
    }
    assert(statements@.take(i as int) =~= statements@);
}

/// Builds the table of a function's own scope: an entry for each parameter,
/// then the entries of the body's statements.
pub fn build_function_def_symbol_table(function_definition: &FunctionDefinition) -> (table:
    SymbolTable)
    ensures
        table.deep_view() == function_table(*function_definition),
    decreases function_definition,
{
    let name = &function_definition.function_name;
    let parameters = &function_definition.function_parameters;
    let mut entries: Vec<SymbolInfo> = Vec::new();
    let mut i: usize = 0;
    while i < parameters.len()
        invariant
            i <= parameters.len(),
            entries.deep_view() == parameters@.take(i as int).map_values(
                |parameter: FunctionParameter| parameter_entry(parameter, name@),
            ),
        decreases parameters.len() - i,
    {
        let ghost before = entries.deep_view();
        entries.push(
            SymbolInfo {
                symbol: parameters[i].parameter_name.clone(),
                scope_address: name.clone(),
                kind: SymbolKind::FunctionParameter(parameters[i].parameter_type),
                inner: None,
            },
        );
        proof {
            assert(entries.deep_view() =~= before.push(parameter_entry(parameters@[i as int], name@)));
            assert(parameters@.take(i + 1) =~= parameters@.take(i as int).push(
                parameters@[i as int],
            ));
        }
        i += 1;
    }
    assert(parameters@.take(i as int) =~= parameters@);
    proof {
        assert(decreases_to!(*function_definition => function_definition.function_body));
        assert(decreases_to!(function_definition.function_body
            => function_definition.function_body.statements));
    }
    append_statement_entries(&mut entries, &function_definition.function_body.statements, name);
    let table = SymbolTable { symbol_table: entries };
    assert(table.deep_view().entries =~= table.symbol_table.deep_view());
    table
}

/// Builds the table of a program: the entries of its top-level statements.
pub fn build_program_symbol_table(program: &Program) -> (table: SymbolTable)
    ensures
        table.deep_view() == program_table(*program),
{
    let name = "(program)".to_owned();
    let mut entries: Vec<SymbolInfo> = Vec::new();
    append_statement_entries(&mut entries, &program.statements, &name);
    let table = SymbolTable { symbol_table: entries };
    assert(table.deep_view().entries =~= table.symbol_table.deep_view());
    table
}

/// The symbol that an entry stands for in the scope tree: the entry without
/// the type annotation and without the table that it carries.
pub open spec fn entry_symbol(entry: SymbolInfoView) -> SymbolView {
    SymbolView {
        name: entry.name,
        scope_name: entry.scope_address,
        kind: match entry.kind {
            SymbolKindView::VariableDeclaration(_, position) => {
                crate::model::SymbolKindView::VariableDeclaration(position)
            },
            SymbolKindView::FunctionDefinition(types) => {
                crate::model::SymbolKindView::FunctionDefinition(types)
            },
            SymbolKindView::FunctionParameter(parameter_type) => {
                crate::model::SymbolKindView::FunctionParameter(parameter_type)
            },
        },
    }
}

/// The tables that the entries carry, in order.
pub open spec fn inner_tables(entries: Seq<SymbolInfoView>) -> Seq<SymbolTableView>
    decreases entries.len(),
{
    if entries.len() == 0 {
        Seq::empty()
    } else {
        let earlier = inner_tables(entries.drop_last());
        match entries.last().inner {
            Some(table) => earlier.push(table),
            None => earlier,
        }
    }
}

/// Whether a table and a scope tree declare the same: the entries of the
/// table stand for the symbols of the scope, in order, and the tables that
/// the entries carry agree with the children of the scope, one by one.
pub open spec fn agrees(table: SymbolTableView, scope: ScopeView) -> bool
    decreases scope,
{
    &&& table.entries.map_values(|entry: SymbolInfoView| entry_symbol(entry)) == scope.symbols
    &&& inner_tables(table.entries).len() == scope.children.len()
    &&& forall|i: int|
        0 <= i < scope.children.len() ==> agrees(
            inner_tables(table.entries)[i],
            #[trigger] scope.children[i],
        )
}

proof fn lemma_inner_tables_add(left: Seq<SymbolInfoView>, right: Seq<SymbolInfoView>)
    ensures
        inner_tables(left + right) == inner_tables(left) + inner_tables(right),
    decreases right.len(),
{
    if right.len() == 0 {
        assert(left + right =~= left);
        assert(inner_tables(left) + inner_tables(right) =~= inner_tables(left));
    } else {
        lemma_inner_tables_add(left, right.drop_last());
        assert((left + right).drop_last() =~= left + right.drop_last());
        assert((left + right).last() == right.last());
        assert(inner_tables(left + right) =~= inner_tables(left) + inner_tables(right));
    }
}

proof fn lemma_parameters_carry_no_table(parameters: Seq<FunctionParameter>, name: Seq<char>)
    ensures
        inner_tables(
            parameters.map_values(|parameter: FunctionParameter| parameter_entry(parameter, name)),
        ) == Seq::<SymbolTableView>::empty(),
    decreases parameters.len(),
{
    let entries = parameters.map_values(
        |parameter: FunctionParameter| parameter_entry(parameter, name),
    );
    if parameters.len() > 0 {
        lemma_parameters_carry_no_table(parameters.drop_last(), name);
        assert(entries.drop_last() =~= parameters.drop_last().map_values(
            |parameter: FunctionParameter| parameter_entry(parameter, name),
        ));
    }
}

/// The entries of a list of statements are the entries of its statements,
/// one for one.
pub proof fn lemma_statement_entries_index(statements: Seq<Statement>, name: Seq<char>)
    ensures
        statement_entries(statements, name).len() == statements.len(),
        forall|i: int|
            0 <= i < statements.len() ==> #[trigger] statement_entries(statements, name)[i]
                == statement_entry(statements[i], name),
    decreases statements.len(),
{
    if statements.len() > 0 {
        lemma_statement_entries_index(statements.drop_last(), name);
    }
}

proof fn lemma_statement_entries_agree(statements: Seq<Statement>, name: Seq<char>)
    ensures
        statement_entries(statements, name).map_values(
            |entry: SymbolInfoView| entry_symbol(entry),
        ) == statements.map_values(|statement: Statement| statement_symbol(statement, name)),
        inner_tables(statement_entries(statements, name)).len() == child_scopes(statements).len(),
        forall|i: int|
            0 <= i < child_scopes(statements).len() ==> agrees(
                inner_tables(statement_entries(statements, name))[i],
                #[trigger] child_scopes(statements)[i],
            ),
    decreases statements,
{
    let entries = statement_entries(statements, name);
    lemma_statement_entries_index(statements, name);
    assert(entries.map_values(|entry: SymbolInfoView| entry_symbol(entry))
        =~= statements.map_values(|statement: Statement| statement_symbol(statement, name)));
    if statements.len() > 0 {
        let earlier = statements.drop_last();
        lemma_statement_entries_agree(earlier, name);
        assert(entries.drop_last() =~= statement_entries(earlier, name));
        match statements.last() {
            Statement::FunctionDefStmt(definition) => {
                lemma_function_table_agrees(definition);
            },
            Statement::AssignmentStmt(_) => {},
        }
    }
}

/// The table of a function and the scope of that function declare the same.
pub proof fn lemma_function_table_agrees(definition: FunctionDefinition)
    ensures
        agrees(function_table(definition), function_scope(definition)),
    decreases definition,
{
    let name = definition.function_name@;
    let parameters = definition.function_parameters@;
    let statements = definition.function_body.statements@;
    let declared = parameters.map_values(
        |parameter: FunctionParameter| parameter_entry(parameter, name),
    );
    let body = statement_entries(statements, name);
    lemma_statement_entries_agree(statements, name);
    lemma_parameters_carry_no_table(parameters, name);
    lemma_inner_tables_add(declared, body);
    assert(inner_tables(declared + body) =~= inner_tables(body));
    assert((declared + body).map_values(|entry: SymbolInfoView| entry_symbol(entry))
        =~= parameters.map_values(
        |parameter: FunctionParameter| parameter_symbol(parameter, name),
    ) + body.map_values(|entry: SymbolInfoView| entry_symbol(entry)));
}

/// The table of a program and the scope tree of that program declare the
/// same.
pub proof fn lemma_program_table_agrees(program: Program)
    ensures
        agrees(program_table(program), program_scope(program)),
{
    let name = root_scope_name();
    let statements = program.statements@;
    lemma_statement_entries_agree(statements, name);
    assert(Seq::<FunctionParameter>::empty().map_values(
        |parameter: FunctionParameter| parameter_symbol(parameter, name),
    ) + statements.map_values(|statement: Statement| statement_symbol(statement, name))
        =~= statements.map_values(|statement: Statement| statement_symbol(statement, name)));
}

} // verus!
