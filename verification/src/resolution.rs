//! Resolution of the usages of a scope tree against the enclosing scopes.
//!
//! The scope chain is a stack of symbol lists, the outermost scope first and
//! the scope of the usage last. A usage is searched from the last level to the
//! first, and the first level that declares it resolves it.

use vstd::hash_set::StringHashSet;
use vstd::prelude::*;
use crate::keywords::{is_reserved, is_reserved_keyword};
use crate::model::{Binding, NameResolutionError, NameResolutionErrorKind};
use crate::model::{NameResolutionErrorKindView, NameResolutionErrorView};
use crate::model::{Symbol, SymbolKind, SymbolKindView, SymbolView, Usage, UsageKind, UsageView};
use crate::scope::{Scope, ScopeView};

verus! {

/// Whether `symbol` declares what `usage` reads. The names are equal and not
/// reserved, and the kinds agree: a variable reference is declared by a
/// variable declared at a strictly smaller position or by a parameter, a call
/// by a function definition wherever it stands.
pub open spec fn symbol_matches(usage: UsageView, symbol: SymbolView) -> bool {
    &&& symbol.name == usage.name
    &&& !is_reserved(symbol.name)
    &&& match usage.kind {
        UsageKind::VariableReference(used_at) => match symbol.kind {
            SymbolKindView::VariableDeclaration(declared_at) => declared_at < used_at,
            SymbolKindView::FunctionParameter(_) => true,
            SymbolKindView::FunctionDefinition(_) => false,
        },
        UsageKind::FunctionCall => symbol.kind is FunctionDefinition,
    }
}

/// Whether one level of the scope chain declares what `usage` reads.
pub open spec fn level_matches(usage: UsageView, level: Seq<SymbolView>) -> bool {
    exists|i: int| 0 <= i < level.len() && symbol_matches(usage, #[trigger] level[i])
}

/// Whether some level of the scope chain declares what `usage` reads.
pub open spec fn resolves(usage: UsageView, stack: Seq<Seq<SymbolView>>) -> bool {
    exists|level: int| 0 <= level < stack.len() && level_matches(usage, #[trigger] stack[level])
}

/// Whether `binding` is the declaration that `usage` resolves to: the first
/// matching symbol of the innermost level that matches.
pub open spec fn is_binding_of(
    usage: UsageView,
    stack: Seq<Seq<SymbolView>>,
    binding: Binding,
) -> bool {
    &&& binding.level < stack.len()
    &&& binding.index < stack[binding.level as int].len()
    &&& symbol_matches(usage, stack[binding.level as int][binding.index as int])
    &&& forall|i: int|
        0 <= i < binding.index ==> !symbol_matches(usage, #[trigger] stack[binding.level as int][i])
    &&& forall|level: int|
        binding.level < level < stack.len() ==> !level_matches(usage, #[trigger] stack[level])
}

/// Tells whether `symbol` declares what `usage` reads, for a usage whose name
/// is not reserved.
fn symbol_declares(usage: &Usage, symbol: &Symbol) -> (declares: bool)
    requires
        !is_reserved(usage.deep_view().name),
    ensures
        declares == symbol_matches(usage.deep_view(), symbol.deep_view()),
{
    if usage.symbol != symbol.symbol {
        return false;
    }
    match usage.kind {
        UsageKind::VariableReference(used_at) => match &symbol.kind {
            SymbolKind::VariableDeclaration(declared_at) => *declared_at < used_at,
            SymbolKind::FunctionParameter(_) => true,
            SymbolKind::FunctionDefinition(_) => false,
        },
        UsageKind::FunctionCall => match &symbol.kind {
            SymbolKind::FunctionDefinition(_) => true,
            _ => false,
        },
    }
}

/// Finds the first symbol of one level that declares what `usage` reads.
pub fn find_declaration(usage: &Usage, symbol_table: &Vec<Symbol>) -> (found: Option<usize>)
    ensures
        match found {
            Some(index) => {
                &&& index < symbol_table.len()
                &&& symbol_matches(usage.deep_view(), symbol_table.deep_view()[index as int])
                &&& forall|i: int|
                    0 <= i < index ==> !symbol_matches(
                        usage.deep_view(),
                        #[trigger] symbol_table.deep_view()[i],
                    )
            },
            None => !level_matches(usage.deep_view(), symbol_table.deep_view()),
        },
{
    if is_reserved_keyword(&usage.symbol) {
        return None;
    }
    let mut i: usize = 0;
    while i < symbol_table.len()
        invariant
            i <= symbol_table.len(),
            !is_reserved(usage.deep_view().name),
            forall|k: int|
                0 <= k < i ==> !symbol_matches(
                    usage.deep_view(),
                    #[trigger] symbol_table.deep_view()[k],
                ),
        decreases symbol_table.len() - i,
    {
        if symbol_declares(usage, &symbol_table[i]) {
            return Some(i);
        }
        i += 1;
    }
    None
}

/// Tells whether one level of the scope chain declares what `usage` reads.
pub fn usage_is_defined(usage: &Usage, symbol_table: &Vec<Symbol>) -> (defined: bool)
    ensures
        defined == level_matches(usage.deep_view(), symbol_table.deep_view()),
{
    find_declaration(usage, symbol_table).is_some()
}

/// Resolves a usage against the scope chain, searching from the innermost
/// level outward. The chain is only read.
pub fn resolve_usage(usage: &Usage, symbol_table_stack: &Vec<Vec<Symbol>>) -> (found: Option<
    Binding,
>)
    ensures
        found is Some <==> resolves(usage.deep_view(), symbol_table_stack.deep_view()),
        found matches Some(binding) ==> is_binding_of(
            usage.deep_view(),
            symbol_table_stack.deep_view(),
            binding,
        ),
{
    let mut level: usize = symbol_table_stack.len();
    while level > 0
        invariant
            level <= symbol_table_stack.len(),
            forall|l: int|
                level <= l < symbol_table_stack.len() ==> !level_matches(
                    usage.deep_view(),
                    #[trigger] symbol_table_stack.deep_view()[l],
                ),
        decreases level,
    {
        level -= 1;
        match find_declaration(usage, &symbol_table_stack[level]) {
            Some(index) => {
                proof {
                    let chain = symbol_table_stack.deep_view();
                    assert(chain[level as int] == symbol_table_stack@[level as int].deep_view());
                    assert(symbol_matches(usage.deep_view(), chain[level as int][index as int]));
                    assert(level_matches(usage.deep_view(), chain[level as int]));
                }
                return Some(Binding { level, index });
            },
            None => {},
        }
    }
    None
}

/// Whether one of `symbols` declares `name`, whatever its kind.
pub open spec fn declared_in(name: Seq<char>, symbols: Seq<SymbolView>) -> bool {
    exists|i: int| 0 <= i < symbols.len() && (#[trigger] symbols[i]).name == name
}

/// The error that a declaration gives after the declarations `earlier` of the
/// same scope. A reserved name is a clash and counts as no declaration;
/// another name is a redeclaration where an earlier symbol has it.
pub open spec fn declaration_error(
    earlier: Seq<SymbolView>,
    symbol: SymbolView,
    scope_name: Seq<char>,
) -> Option<NameResolutionErrorView> {
    if is_reserved(symbol.name) {
        Some(
            NameResolutionErrorView {
                scope_name,
                error_kind: NameResolutionErrorKindView::ReservedKeywordClash(symbol),
            },
        )
    } else if declared_in(symbol.name, earlier) {
        Some(
            NameResolutionErrorView {
                scope_name,
                error_kind: NameResolutionErrorKindView::Redeclaration(symbol),
            },
        )
    } else {
        None
    }
}

/// The errors in the declarations of one scope, in declaration order.
pub open spec fn declaration_errors(
    symbols: Seq<SymbolView>,
    scope_name: Seq<char>,
) -> Seq<NameResolutionErrorView>
    decreases symbols.len(),
{
    if symbols.len() == 0 {
        Seq::empty()
    } else {
        let earlier = symbols.drop_last();
        declaration_errors(earlier, scope_name) + match declaration_error(
            earlier,
            symbols.last(),
            scope_name,
        ) {
            Some(error) => seq![error],
            None => Seq::empty(),
        }
    }
}

/// Checks the declarations of one scope in order. A reserved name is
/// reported as a clash. Of the other names the first occurrence is accepted
/// and every later one is reported as a redeclaration, whatever the kinds of
/// the symbols that share the name.
pub fn check_for_redeclarations(scope: &Scope) -> (errors: Vec<NameResolutionError>)
    ensures
        errors.deep_view() == declaration_errors(
            scope.deep_view().symbols,
            scope.deep_view().name,
        ),
{
    let symbols = &scope.symbols;
    let mut errors: Vec<NameResolutionError> = Vec::new();
    let mut seen = StringHashSet::new();
    let mut i: usize = 0;
    assert(errors.deep_view() =~= declaration_errors(symbols.deep_view().take(0), scope.name@));
    while i < symbols.len()
        invariant
            i <= symbols.len(),
            symbols == &scope.symbols,
            errors.deep_view() == declaration_errors(
                symbols.deep_view().take(i as int),
                scope.name@,
            ),
            forall|name: Seq<char>| #[trigger]
                seen@.contains(name) <==> !is_reserved(name) && declared_in(
                    name,
                    symbols.deep_view().take(i as int),
                ),
        decreases symbols.len() - i,
    {
        let symbol = &symbols[i];
        let ghost before = errors.deep_view();
        let ghost earlier = symbols.deep_view().take(i as int);
        let ghost current = symbols.deep_view().take(i + 1);
        let ghost seen_before = seen@;
        proof {
            assert(current.drop_last() =~= earlier);
            assert(current.last() == symbol.deep_view());
            assert forall|name: Seq<char>| declared_in(name, current) <==> declared_in(
                name,
                earlier,
            ) || name == symbol.deep_view().name by {
                if declared_in(name, current) {
                    let k = choose|k: int| 0 <= k < current.len() && current[k].name == name;
                    if k < i {
                        assert(earlier[k].name == name);
                    }
                }
                if declared_in(name, earlier) {
                    let k = choose|k: int| 0 <= k < earlier.len() && earlier[k].name == name;
                    assert(current[k].name == name);
                }
                if name == symbol.deep_view().name {
                    assert(current[i as int].name == name);
                }
            }
        }
        if is_reserved_keyword(&symbol.symbol) {
            errors.push(
                NameResolutionError {
                    scope_name: scope.name.clone(),
                    error_kind: NameResolutionErrorKind::ReservedKeywordClash(symbol.clone()),
                },
            );
            assert(errors.deep_view() =~= before + seq![
                declaration_error(earlier, symbol.deep_view(), scope.name@).unwrap(),
            ]);
        } else if !seen.insert(symbol.symbol.clone()) {
            errors.push(
                NameResolutionError {
                    scope_name: scope.name.clone(),
                    error_kind: NameResolutionErrorKind::Redeclaration(symbol.clone()),
                },
            );
            assert(errors.deep_view() =~= before + seq![
                declaration_error(earlier, symbol.deep_view(), scope.name@).unwrap(),
            ]);
        } else {
            assert(errors.deep_view() =~= before + Seq::<NameResolutionErrorView>::empty());
        }
        proof {
            assert forall|name: Seq<char>| #[trigger]
                seen@.contains(name) <==> !is_reserved(name) && declared_in(name, current) by {
                assert(seen_before.contains(name) <==> !is_reserved(name) && declared_in(
                    name,
                    earlier,
                ));
                assert(declared_in(name, current) <==> declared_in(name, earlier) || name
                    == symbol.deep_view().name);
            }
        }
        i += 1;
    }
    assert(symbols.deep_view().take(i as int) =~= symbols.deep_view());
    errors
}

/// The error for a usage that no level of the scope chain declares.
pub open spec fn undefined_error(usage: UsageView, scope_name: Seq<char>) -> NameResolutionErrorView {
    NameResolutionErrorView {
        scope_name,
        error_kind: NameResolutionErrorKindView::Undefined(usage),
    }
}

/// The errors in the usages of one scope, in order: one for each usage that
/// does not resolve against `stack`, the scope chain with the scope's own
/// symbols as its last level.
pub open spec fn undefined_errors(
    usages: Seq<UsageView>,
    scope_name: Seq<char>,
    stack: Seq<Seq<SymbolView>>,
) -> Seq<NameResolutionErrorView>
    decreases usages.len(),
{
    if usages.len() == 0 {
        Seq::empty()
    } else {
        undefined_errors(usages.drop_last(), scope_name, stack) + if resolves(
            usages.last(),
            stack,
        ) {
            Seq::empty()
        } else {
            seq![undefined_error(usages.last(), scope_name)]
        }
    }
}

/// The errors of a scope tree under the chain `stack` of its ancestors'
/// symbol lists: the errors in the scope's declarations, then those in its
/// usages, then those of its children in order. The scope's usages and its
/// children see `stack` extended by the scope's own symbols.
pub open spec fn resolution_errors(
    scope: ScopeView,
    stack: Seq<Seq<SymbolView>>,
) -> Seq<NameResolutionErrorView>
    decreases scope,
{
    let extended = stack.push(scope.symbols);
    declaration_errors(scope.symbols, scope.name) + undefined_errors(
        scope.usages,
        scope.name,
        extended,
    ) + children_errors(scope.children, extended)
}

/// The errors of sibling scopes, scope by scope. Every sibling is resolved
/// under the same chain: none sees the symbols of another.
pub open spec fn children_errors(
    children: Seq<ScopeView>,
    stack: Seq<Seq<SymbolView>>,
) -> Seq<NameResolutionErrorView>
    decreases children,
{
    if children.len() == 0 {
        Seq::empty()
    } else {
        children_errors(children.drop_last(), stack) + resolution_errors(children.last(), stack)
    }
}

/// Whether a run of the resolver on `scope`, started with the scope chain
/// `before`, may end with the chain `after` and the errors `errors`.
pub open spec fn is_outcome(
    scope: ScopeView,
    before: Seq<Seq<SymbolView>>,
    after: Seq<Seq<SymbolView>>,
    errors: Seq<NameResolutionErrorView>,
) -> bool {
    errors == resolution_errors(scope, before) && after == before
}

/// Copies a symbol list.
fn clone_symbols(symbols: &Vec<Symbol>) -> (copy: Vec<Symbol>)
    ensures
        copy.deep_view() == symbols.deep_view(),
{
    let mut copy: Vec<Symbol> = Vec::new();
    let mut i: usize = 0;
    while i < symbols.len()
        invariant
            i <= symbols.len(),
            copy.deep_view() == symbols.deep_view().take(i as int),
        decreases symbols.len() - i,
    {
        let ghost before = copy.deep_view();
        let symbol = symbols[i].clone();
        copy.push(symbol);
        proof {
            assert(copy.deep_view() =~= before.push(symbol.deep_view()));
            assert(symbols.deep_view().take(i + 1) =~= before.push(symbols.deep_view()[i as int]));
        }
        i += 1;
    }
    assert(symbols.deep_view().take(i as int) =~= symbols.deep_view());
    copy
}

/// Reports the usages of `scope` that no level of the scope chain declares.
/// The chain already holds the scope's own symbols as its last level.
fn check_usages(scope: &Scope, symbol_table_stack: &Vec<Vec<Symbol>>) -> (errors: Vec<
    NameResolutionError,
>)
    ensures
        errors.deep_view() == undefined_errors(
            scope.deep_view().usages,
            scope.deep_view().name,
            symbol_table_stack.deep_view(),
        ),
{
    let usages = &scope.usages;
    let mut errors: Vec<NameResolutionError> = Vec::new();
    let ghost chain = symbol_table_stack.deep_view();
    let mut i: usize = 0;
    assert(errors.deep_view() =~= undefined_errors(usages.deep_view().take(0), scope.name@, chain));
    while i < usages.len()
        invariant
            i <= usages.len(),
            usages == &scope.usages,
            chain == symbol_table_stack.deep_view(),
            errors.deep_view() == undefined_errors(
                usages.deep_view().take(i as int),
                scope.name@,
                chain,
            ),
        decreases usages.len() - i,
    {
        let usage = &usages[i];
        let ghost before = errors.deep_view();
        proof {
            assert(usages.deep_view().take(i + 1).drop_last() =~= usages.deep_view().take(
                i as int,
            ));
            assert(usages.deep_view().take(i + 1).last() == usage.deep_view());
        }
        if resolve_usage(usage, symbol_table_stack).is_none() {
            errors.push(
                NameResolutionError {
                    scope_name: scope.name.clone(),
                    error_kind: NameResolutionErrorKind::Undefined(usage.clone()),
                },
            );
            assert(errors.deep_view() =~= before + seq![
                undefined_error(usage.deep_view(), scope.name@),
            ]);
        } else {
            assert(errors.deep_view() =~= before + Seq::<NameResolutionErrorView>::empty());
        }
        i += 1;
    }
    assert(usages.deep_view().take(i as int) =~= usages.deep_view());
    errors
}

/// Resolves a scope tree. `symbol_table_stack` holds the symbol lists of the
/// scopes that enclose `scope`, the outermost first; for the root scope it is
/// empty. The scope's own symbols are pushed for the time of the traversal
/// and popped before the return, so the stack comes back as it was given.
pub fn name_resolution(scope: &Scope, symbol_table_stack: &mut Vec<Vec<Symbol>>) -> (errors: Vec<
    NameResolutionError,
>)
    ensures
        errors.deep_view() == resolution_errors(
            scope.deep_view(),
            old(symbol_table_stack).deep_view(),
        ),
        final(symbol_table_stack)@ == old(symbol_table_stack)@,
        is_outcome(
            scope.deep_view(),
            old(symbol_table_stack).deep_view(),
            final(symbol_table_stack).deep_view(),
            errors.deep_view(),
        ),
    decreases scope,
{
    let ghost enclosing = symbol_table_stack.deep_view();
    let ghost extended = enclosing.push(scope.deep_view().symbols);
    let mut errors = check_for_redeclarations(scope);
    let ghost declared = errors.deep_view();

    symbol_table_stack.push(clone_symbols(&scope.symbols));
    let ghost pushed = symbol_table_stack@;
    assert(symbol_table_stack.deep_view() =~= extended);

    let mut unresolved = check_usages(scope, symbol_table_stack);
    let ghost undefined = unresolved.deep_view();
    errors.append(&mut unresolved);
    assert(errors.deep_view() =~= declared + undefined);

    let children = &scope.children;
    let mut i: usize = 0;
    assert(scope.deep_view().children.take(0) =~= Seq::<ScopeView>::empty());
    assert(errors.deep_view() =~= declared + undefined + children_errors(
        scope.deep_view().children.take(0),
        extended,
    ));
    while i < children.len()
        invariant
            i <= children.len(),
            children == &scope.children,
            symbol_table_stack@ == pushed,
            symbol_table_stack.deep_view() == extended,
            errors.deep_view() == declared + undefined + children_errors(
                scope.deep_view().children.take(i as int),
                extended,
            ),
        decreases children.len() - i,
    {
        let ghost before = errors.deep_view();
        proof {
            assert(decreases_to!(*scope => scope.children));
            assert(decreases_to!(scope.children => scope.children@[i as int]));
            let views = scope.deep_view().children;
            assert(views.take(i + 1).drop_last() =~= views.take(i as int));
            assert(views.take(i + 1).last() == children@[i as int].deep_view());
        }
        let mut found = name_resolution(&children[i], symbol_table_stack);
        let ghost part = found.deep_view();
        errors.append(&mut found);
        assert(errors.deep_view() =~= before + part);
        i += 1;
    }
    assert(scope.deep_view().children.take(i as int) =~= scope.deep_view().children);

    symbol_table_stack.pop();
    assert(symbol_table_stack@ =~= old(symbol_table_stack)@);
    errors
}

} // verus!
