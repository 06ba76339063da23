//! Laws of resolution, stated over the views and proved.

use vstd::prelude::*;
use crate::keywords::is_reserved;
use crate::model::{Binding, NameResolutionErrorKindView, NameResolutionErrorView};
use crate::model::{SymbolKindView, SymbolView, UsageKind, UsageView};
use crate::resolution::{declaration_error, declaration_errors, declared_in, is_binding_of};
use crate::resolution::{level_matches, resolves, symbol_matches, undefined_error};
use crate::resolution::{children_errors, is_outcome, resolution_errors, undefined_errors};
use crate::scope::ScopeView;

verus! {

/// How many of `symbols` declare `name`.
pub open spec fn occurrences(symbols: Seq<SymbolView>, name: Seq<char>) -> nat
    decreases symbols.len(),
{
    if symbols.len() == 0 {
        0
    } else {
        occurrences(symbols.drop_last(), name) + if symbols.last().name == name {
            1nat
        } else {
            0nat
        }
    }
}

/// Whether `error` reports a redeclaration of `name`.
pub open spec fn is_redeclaration_of(error: NameResolutionErrorView, name: Seq<char>) -> bool {
    error.error_kind matches NameResolutionErrorKindView::Redeclaration(symbol) && symbol.name
        == name
}

/// Whether `error` reports a clash of `name` with a reserved word.
pub open spec fn is_clash_of(error: NameResolutionErrorView, name: Seq<char>) -> bool {
    error.error_kind matches NameResolutionErrorKindView::ReservedKeywordClash(symbol)
        && symbol.name == name
}

/// How many of `errors` report a redeclaration of `name`.
pub open spec fn redeclarations(errors: Seq<NameResolutionErrorView>, name: Seq<char>) -> nat
    decreases errors.len(),
{
    if errors.len() == 0 {
        0
    } else {
        redeclarations(errors.drop_last(), name) + if is_redeclaration_of(errors.last(), name) {
            1nat
        } else {
            0nat
        }
    }
}

/// How many of `errors` report a clash of `name` with a reserved word.
pub open spec fn clashes(errors: Seq<NameResolutionErrorView>, name: Seq<char>) -> nat
    decreases errors.len(),
{
    if errors.len() == 0 {
        0
    } else {
        clashes(errors.drop_last(), name) + if is_clash_of(errors.last(), name) {
            1nat
        } else {
            0nat
        }
    }
}

proof fn lemma_occurrences_declared(symbols: Seq<SymbolView>, name: Seq<char>)
    ensures
        occurrences(symbols, name) > 0 <==> declared_in(name, symbols),
    decreases symbols.len(),
{
    if symbols.len() > 0 {
        let earlier = symbols.drop_last();
        lemma_occurrences_declared(earlier, name);
        if declared_in(name, earlier) {
            let i = choose|i: int| 0 <= i < earlier.len() && earlier[i].name == name;
            assert(symbols[i].name == name);
        }
        if symbols.last().name == name {
            assert(symbols[symbols.len() - 1].name == name);
        }
        if declared_in(name, symbols) {
            let i = choose|i: int| 0 <= i < symbols.len() && symbols[i].name == name;
            if i < symbols.len() - 1 {
                assert(earlier[i].name == name);
            }
        }
    }
}

proof fn lemma_counts_push(
    errors: Seq<NameResolutionErrorView>,
    error: NameResolutionErrorView,
    name: Seq<char>,
)
    ensures
        redeclarations(errors + seq![error], name) == redeclarations(errors, name) + if is_redeclaration_of(
            error,
            name,
        ) {
            1nat
        } else {
            0nat
        },
        clashes(errors + seq![error], name) == clashes(errors, name) + if is_clash_of(error, name) {
            1nat
        } else {
            0nat
        },
{
    let extended = errors + seq![error];
    assert(extended.drop_last() =~= errors);
    assert(extended.last() == error);
}

/// In one scope, a name that is not reserved and is declared `k` times gives
/// `k - 1` redeclaration errors, and none when it is not declared; it gives
/// no clash.
pub proof fn lemma_redeclaration_count(
    symbols: Seq<SymbolView>,
    scope_name: Seq<char>,
    name: Seq<char>,
)
    requires
        !is_reserved(name),
    ensures
        redeclarations(declaration_errors(symbols, scope_name), name) == if occurrences(
            symbols,
            name,
        ) == 0 {
            0
        } else {
            occurrences(symbols, name) - 1
        },
        clashes(declaration_errors(symbols, scope_name), name) == 0,
    decreases symbols.len(),
{
    if symbols.len() > 0 {
        let earlier = symbols.drop_last();
        let last = symbols.last();
        lemma_redeclaration_count(earlier, scope_name, name);
        lemma_occurrences_declared(earlier, name);
        let before = declaration_errors(earlier, scope_name);
        match declaration_error(earlier, last, scope_name) {
            Some(error) => {
                lemma_counts_push(before, error, name);
            },
            None => {
                assert(before + Seq::<NameResolutionErrorView>::empty() =~= before);
            },
        }
    }
}

/// In one scope, a reserved name that is declared `k` times gives `k` clash
/// errors and no redeclaration error.
pub proof fn lemma_reserved_name_count(
    symbols: Seq<SymbolView>,
    scope_name: Seq<char>,
    name: Seq<char>,
)
    requires
        is_reserved(name),
    ensures
        clashes(declaration_errors(symbols, scope_name), name) == occurrences(symbols, name),
        redeclarations(declaration_errors(symbols, scope_name), name) == 0,
    decreases symbols.len(),
{
    if symbols.len() > 0 {
        let earlier = symbols.drop_last();
        let last = symbols.last();
        lemma_reserved_name_count(earlier, scope_name, name);
        let before = declaration_errors(earlier, scope_name);
        match declaration_error(earlier, last, scope_name) {
            Some(error) => {
                lemma_counts_push(before, error, name);
            },
            None => {
                assert(before + Seq::<NameResolutionErrorView>::empty() =~= before);
            },
        }
    }
}

/// Whether `symbol` declares the variable `name` for a reference at
/// `position`: as a variable declared at a smaller position, or as a
/// parameter.
pub open spec fn declares_variable(symbol: SymbolView, name: Seq<char>, position: usize) -> bool {
    symbol.name == name && match symbol.kind {
        SymbolKindView::VariableDeclaration(declared_at) => declared_at < position,
        SymbolKindView::FunctionParameter(_) => true,
        SymbolKindView::FunctionDefinition(_) => false,
    }
}

/// Whether `symbol` declares the function `name`.
pub open spec fn declares_function(symbol: SymbolView, name: Seq<char>) -> bool {
    symbol.name == name && symbol.kind is FunctionDefinition
}

/// A reference to a variable at a position resolves exactly when its name is
/// not reserved and some level of the scope chain declares it as a variable
/// at a strictly smaller position, or as a parameter.
pub proof fn lemma_variable_reference_resolves(
    name: Seq<char>,
    position: usize,
    stack: Seq<Seq<SymbolView>>,
)
    ensures
        resolves(UsageView { name, kind: UsageKind::VariableReference(position) }, stack) <==> (
        !is_reserved(name) && exists|level: int, i: int|
            0 <= level < stack.len() && 0 <= i < stack[level].len() && declares_variable(
                #[trigger] stack[level][i],
                name,
                position,
            )),
{
    let usage = UsageView { name, kind: UsageKind::VariableReference(position) };
    if resolves(usage, stack) {
        let level = choose|level: int| 0 <= level < stack.len() && level_matches(usage, stack[level]);
        let i = choose|i: int| 0 <= i < stack[level].len() && symbol_matches(usage, stack[level][i]);
        assert(declares_variable(stack[level][i], name, position));
    }
    if !is_reserved(name) && exists|level: int, i: int|
        0 <= level < stack.len() && 0 <= i < stack[level].len() && declares_variable(
            #[trigger] stack[level][i],
            name,
            position,
        ) {
        let (level, i) = choose|level: int, i: int|
            0 <= level < stack.len() && 0 <= i < stack[level].len() && declares_variable(
                #[trigger] stack[level][i],
                name,
                position,
            );
        assert(symbol_matches(usage, stack[level][i]));
        assert(level_matches(usage, stack[level]));
    }
}

/// A call resolves exactly when the callee's name is not reserved and some
/// level of the scope chain defines a function of that name. Positions play
/// no part: a function may be called before the place where it is defined.
pub proof fn lemma_function_call_resolves(name: Seq<char>, stack: Seq<Seq<SymbolView>>)
    ensures
        resolves(UsageView { name, kind: UsageKind::FunctionCall }, stack) <==> (!is_reserved(name)
            && exists|level: int, i: int|
            0 <= level < stack.len() && 0 <= i < stack[level].len() && declares_function(
                #[trigger] stack[level][i],
                name,
            )),
{
    let usage = UsageView { name, kind: UsageKind::FunctionCall };
    if resolves(usage, stack) {
        let level = choose|level: int| 0 <= level < stack.len() && level_matches(usage, stack[level]);
        let i = choose|i: int| 0 <= i < stack[level].len() && symbol_matches(usage, stack[level][i]);
        assert(declares_function(stack[level][i], name));
    }
    if !is_reserved(name) && exists|level: int, i: int|
        0 <= level < stack.len() && 0 <= i < stack[level].len() && declares_function(
            #[trigger] stack[level][i],
            name,
        ) {
        let (level, i) = choose|level: int, i: int|
            0 <= level < stack.len() && 0 <= i < stack[level].len() && declares_function(
                #[trigger] stack[level][i],
                name,
            );
        assert(symbol_matches(usage, stack[level][i]));
        assert(level_matches(usage, stack[level]));
    }
}

proof fn lemma_contains_add<A>(left: Seq<A>, right: Seq<A>, item: A)
    ensures
        (left + right).contains(item) <==> left.contains(item) || right.contains(item),
{
    let both = left + right;
    if both.contains(item) {
        let i = choose|i: int| 0 <= i < both.len() && both[i] == item;
        if i < left.len() {
            assert(left[i] == item);
        } else {
            assert(right[i - left.len()] == item);
        }
    }
    if left.contains(item) {
        let i = choose|i: int| 0 <= i < left.len() && left[i] == item;
        assert(both[i] == item);
    }
    if right.contains(item) {
        let i = choose|i: int| 0 <= i < right.len() && right[i] == item;
        assert(both[left.len() + i] == item);
    }
}

/// In one scope, an undefined-symbol error is reported for a usage exactly
/// when the scope reads it and it does not resolve against the scope chain.
pub proof fn lemma_undefined_iff_unresolved(
    usages: Seq<UsageView>,
    scope_name: Seq<char>,
    stack: Seq<Seq<SymbolView>>,
    usage: UsageView,
)
    ensures
        undefined_errors(usages, scope_name, stack).contains(undefined_error(usage, scope_name))
            <==> usages.contains(usage) && !resolves(usage, stack),
    decreases usages.len(),
{
    let error = undefined_error(usage, scope_name);
    if usages.len() > 0 {
        let earlier = usages.drop_last();
        let last = usages.last();
        lemma_undefined_iff_unresolved(earlier, scope_name, stack, usage);
        let before = undefined_errors(earlier, scope_name, stack);
        let added = if resolves(last, stack) {
            Seq::<NameResolutionErrorView>::empty()
        } else {
            seq![undefined_error(last, scope_name)]
        };
        lemma_contains_add(before, added, error);
        if added.contains(error) {
            assert(added[0] == error);
            assert(last == usage);
        }
        if last == usage && !resolves(last, stack) {
            assert(added[0] == error);
        }
        if earlier.contains(usage) {
            let i = choose|i: int| 0 <= i < earlier.len() && earlier[i] == usage;
            assert(usages[i] == usage);
        }
        if usages.contains(usage) {
            let i = choose|i: int| 0 <= i < usages.len() && usages[i] == usage;
            if i < usages.len() - 1 {
                assert(earlier[i] == usage);
            }
        }
        assert(usages[usages.len() - 1] == last);
    }
}

/// Every error in the usages of one scope is an undefined-symbol error for
/// one of the scope's usages, under the scope's name.
pub proof fn lemma_undefined_errors_are_usages(
    usages: Seq<UsageView>,
    scope_name: Seq<char>,
    stack: Seq<Seq<SymbolView>>,
    error: NameResolutionErrorView,
) -> (usage: UsageView)
    requires
        undefined_errors(usages, scope_name, stack).contains(error),
    ensures
        error == undefined_error(usage, scope_name),
        usages.contains(usage),
        !resolves(usage, stack),
    decreases usages.len(),
{
    let earlier = usages.drop_last();
    let last = usages.last();
    let before = undefined_errors(earlier, scope_name, stack);
    let added = if resolves(last, stack) {
        Seq::<NameResolutionErrorView>::empty()
    } else {
        seq![undefined_error(last, scope_name)]
    };
    lemma_contains_add(before, added, error);
    if before.contains(error) {
        let usage = lemma_undefined_errors_are_usages(earlier, scope_name, stack, error);
        let i = choose|i: int| 0 <= i < earlier.len() && earlier[i] == usage;
        assert(usages[i] == usage);
        usage
    } else {
        assert(added[0] == error);
        assert(usages[usages.len() - 1] == last);
        last
    }
}

/// Whether `path` leads from `scope` down to one of its descendants: each
/// entry is the index of a child.
pub open spec fn valid_path(scope: ScopeView, path: Seq<int>) -> bool
    decreases path.len(),
{
    path.len() == 0 || (0 <= path[0] < scope.children.len() && valid_path(
        scope.children[path[0]],
        path.drop_first(),
    ))
}

/// The scope that `path` leads to.
pub open spec fn scope_at(scope: ScopeView, path: Seq<int>) -> ScopeView
    decreases path.len(),
{
    if path.len() == 0 {
        scope
    } else {
        scope_at(scope.children[path[0]], path.drop_first())
    }
}

/// The scope chain of the scope that `path` leads to: `stack`, then the
/// symbols of every scope on the path, that scope's own symbols last.
pub open spec fn chain_at(
    scope: ScopeView,
    stack: Seq<Seq<SymbolView>>,
    path: Seq<int>,
) -> Seq<Seq<SymbolView>>
    decreases path.len(),
{
    if path.len() == 0 {
        stack.push(scope.symbols)
    } else {
        chain_at(scope.children[path[0]], stack.push(scope.symbols), path.drop_first())
    }
}

/// The errors of one scope without those of its children, under the scope's
/// own chain.
pub open spec fn local_errors(
    scope: ScopeView,
    chain: Seq<Seq<SymbolView>>,
) -> Seq<NameResolutionErrorView> {
    declaration_errors(scope.symbols, scope.name) + undefined_errors(
        scope.usages,
        scope.name,
        chain,
    )
}

proof fn lemma_child_errors_reported(
    children: Seq<ScopeView>,
    stack: Seq<Seq<SymbolView>>,
    index: int,
    error: NameResolutionErrorView,
)
    requires
        0 <= index < children.len(),
        resolution_errors(children[index], stack).contains(error),
    ensures
        children_errors(children, stack).contains(error),
    decreases children.len(),
{
    let earlier = children.drop_last();
    lemma_contains_add(
        children_errors(earlier, stack),
        resolution_errors(children.last(), stack),
        error,
    );
    if index < children.len() - 1 {
        assert(earlier[index] == children[index]);
        lemma_child_errors_reported(earlier, stack, index, error);
    }
}

proof fn lemma_reported_child(
    children: Seq<ScopeView>,
    stack: Seq<Seq<SymbolView>>,
    error: NameResolutionErrorView,
) -> (index: int)
    requires
        children_errors(children, stack).contains(error),
    ensures
        0 <= index < children.len(),
        resolution_errors(children[index], stack).contains(error),
    decreases children.len(),
{
    let earlier = children.drop_last();
    lemma_contains_add(
        children_errors(earlier, stack),
        resolution_errors(children.last(), stack),
        error,
    );
    if children_errors(earlier, stack).contains(error) {
        let index = lemma_reported_child(earlier, stack, error);
        assert(earlier[index] == children[index]);
        index
    } else {
        children.len() - 1
    }
}

/// Nothing is lost: whatever is wrong in a scope of the tree, under that
/// scope's own chain, is among the errors of the whole tree.
pub proof fn lemma_local_errors_are_reported(
    scope: ScopeView,
    stack: Seq<Seq<SymbolView>>,
    path: Seq<int>,
    error: NameResolutionErrorView,
)
    requires
        valid_path(scope, path),
        local_errors(scope_at(scope, path), chain_at(scope, stack, path)).contains(error),
    ensures
        resolution_errors(scope, stack).contains(error),
    decreases path.len(),
{
    let extended = stack.push(scope.symbols);
    let local = local_errors(scope, extended);
    let below = children_errors(scope.children, extended);
    assert(resolution_errors(scope, stack) == local + below);
    lemma_contains_add(local, below, error);
    if path.len() > 0 {
        let child = scope.children[path[0]];
        lemma_local_errors_are_reported(child, extended, path.drop_first(), error);
        lemma_child_errors_reported(scope.children, extended, path[0], error);
    }
}

/// Nothing is invented: every error of the whole tree is wrong in some scope
/// of the tree, under that scope's own chain. The path to that scope is
/// returned.
pub proof fn lemma_reported_errors_are_local(
    scope: ScopeView,
    stack: Seq<Seq<SymbolView>>,
    error: NameResolutionErrorView,
) -> (path: Seq<int>)
    requires
        resolution_errors(scope, stack).contains(error),
    ensures
        valid_path(scope, path),
        local_errors(scope_at(scope, path), chain_at(scope, stack, path)).contains(error),
    decreases scope,
{
    let extended = stack.push(scope.symbols);
    let local = local_errors(scope, extended);
    let below = children_errors(scope.children, extended);
    assert(resolution_errors(scope, stack) == local + below);
    lemma_contains_add(local, below, error);
    if local.contains(error) {
        Seq::empty()
    } else {
        let index = lemma_reported_child(scope.children, extended, error);
        let rest = lemma_reported_errors_are_local(scope.children[index], extended, error);
        let path = seq![index] + rest;
        assert(path.drop_first() =~= rest);
        assert(path[0] == index);
        path
    }
}

/// A usage has at most one binding.
pub proof fn lemma_binding_is_unique(
    usage: UsageView,
    stack: Seq<Seq<SymbolView>>,
    first: Binding,
    second: Binding,
)
    requires
        is_binding_of(usage, stack, first),
        is_binding_of(usage, stack, second),
    ensures
        first == second,
{
    if first.level < second.level {
        assert(level_matches(usage, stack[second.level as int]));
    }
    if second.level < first.level {
        assert(level_matches(usage, stack[first.level as int]));
    }
}

/// Shadowing: a usage that the innermost scope declares is bound in the
/// innermost scope, whatever the enclosing scopes declare.
pub proof fn lemma_inner_declaration_shadows(
    usage: UsageView,
    outer: Seq<Seq<SymbolView>>,
    inner: Seq<SymbolView>,
    binding: Binding,
)
    requires
        level_matches(usage, inner),
        is_binding_of(usage, outer.push(inner), binding),
    ensures
        binding.level == outer.len(),
{
    let stack = outer.push(inner);
    if binding.level < outer.len() {
        assert(stack[outer.len() as int] == inner);
    }
}

/// Shadowing: a name that a scope declares once, and that is not reserved,
/// gives no redeclaration error in that scope, whatever the enclosing scopes
/// declare. The declarations of one scope are checked against that scope
/// alone.
pub proof fn lemma_shadowing_is_no_redeclaration(
    scope: ScopeView,
    outer: Seq<Seq<SymbolView>>,
    name: Seq<char>,
)
    requires
        !is_reserved(name),
        occurrences(scope.symbols, name) == 1,
    ensures
        redeclarations(local_errors(scope, outer.push(scope.symbols)), name) == 0,
{
    lemma_redeclaration_count(scope.symbols, scope.name, name);
    lemma_no_redeclaration_among_undefined(scope.usages, scope.name, outer.push(scope.symbols), name);
    lemma_redeclarations_add(
        declaration_errors(scope.symbols, scope.name),
        undefined_errors(scope.usages, scope.name, outer.push(scope.symbols)),
        name,
    );
}

proof fn lemma_redeclarations_add(
    left: Seq<NameResolutionErrorView>,
    right: Seq<NameResolutionErrorView>,
    name: Seq<char>,
)
    ensures
        redeclarations(left + right, name) == redeclarations(left, name) + redeclarations(
            right,
            name,
        ),
    decreases right.len(),
{
    if right.len() == 0 {
        assert(left + right =~= left);
    } else {
        lemma_redeclarations_add(left, right.drop_last(), name);
        assert((left + right).drop_last() =~= left + right.drop_last());
        assert((left + right).last() == right.last());
    }
}

proof fn lemma_no_redeclaration_among_undefined(
    usages: Seq<UsageView>,
    scope_name: Seq<char>,
    stack: Seq<Seq<SymbolView>>,
    name: Seq<char>,
)
    ensures
        redeclarations(undefined_errors(usages, scope_name, stack), name) == 0,
    decreases usages.len(),
{
    if usages.len() > 0 {
        let earlier = usages.drop_last();
        lemma_no_redeclaration_among_undefined(earlier, scope_name, stack, name);
        let before = undefined_errors(earlier, scope_name, stack);
        if resolves(usages.last(), stack) {
            assert(before + Seq::<NameResolutionErrorView>::empty() =~= before);
        } else {
            lemma_counts_push(before, undefined_error(usages.last(), scope_name), name);
        }
    }
}

/// Idempotence: a second run on the same tree, started with the chain that
/// the first run left, reports the same errors in the same order, and leaves
/// the chain as the first run found it.
pub proof fn lemma_resolution_is_idempotent(
    scope: ScopeView,
    given: Seq<Seq<SymbolView>>,
    between: Seq<Seq<SymbolView>>,
    left: Seq<Seq<SymbolView>>,
    first: Seq<NameResolutionErrorView>,
    second: Seq<NameResolutionErrorView>,
)
    requires
        is_outcome(scope, given, between, first),
        is_outcome(scope, between, left, second),
    ensures
        second == first,
        second.to_set() == first.to_set(),
        left == given,
{
}

/// In one scope, a declaration that is in error is reported: the symbol at
/// `index` gives the error that its name and the symbols before it call for.
pub proof fn lemma_declaration_error_is_reported(
    symbols: Seq<SymbolView>,
    scope_name: Seq<char>,
    index: int,
)
    requires
        0 <= index < symbols.len(),
        declaration_error(symbols.take(index), symbols[index], scope_name) is Some,
    ensures
        declaration_errors(symbols, scope_name).contains(
            declaration_error(symbols.take(index), symbols[index], scope_name).unwrap(),
        ),
    decreases symbols.len(),
{
    let earlier = symbols.drop_last();
    let error = declaration_error(symbols.take(index), symbols[index], scope_name).unwrap();
    let before = declaration_errors(earlier, scope_name);
    let added = match declaration_error(earlier, symbols.last(), scope_name) {
        Some(error) => seq![error],
        None => Seq::empty(),
    };
    lemma_contains_add(before, added, error);
    if index < symbols.len() - 1 {
        assert(earlier.take(index) =~= symbols.take(index));
        lemma_declaration_error_is_reported(earlier, scope_name, index);
    } else {
        assert(symbols.take(index) =~= earlier);
        assert(added[0] == error);
    }
}

/// In one scope, every error in the declarations is the error of one of the
/// scope's symbols, whose index is returned: its name is reserved, or a
/// symbol before it has the same name.
pub proof fn lemma_declaration_errors_are_declarations(
    symbols: Seq<SymbolView>,
    scope_name: Seq<char>,
    error: NameResolutionErrorView,
) -> (index: int)
    requires
        declaration_errors(symbols, scope_name).contains(error),
    ensures
        0 <= index < symbols.len(),
        declaration_error(symbols.take(index), symbols[index], scope_name) == Some(error),
    decreases symbols.len(),
{
    let earlier = symbols.drop_last();
    let before = declaration_errors(earlier, scope_name);
    let added = match declaration_error(earlier, symbols.last(), scope_name) {
        Some(error) => seq![error],
        None => Seq::empty(),
    };
    lemma_contains_add(before, added, error);
    if before.contains(error) {
        let index = lemma_declaration_errors_are_declarations(earlier, scope_name, error);
        assert(earlier.take(index) =~= symbols.take(index));
        index
    } else {
        assert(added[0] == error);
        assert(symbols.take(symbols.len() - 1) =~= earlier);
        symbols.len() - 1
    }
}

/// Across the tree, a usage that does not resolve in its scope is reported:
/// for the scope that `path` leads to and a usage that it reads, if no level
/// of that scope's chain declares the usage, the errors of the whole tree
/// hold an undefined-symbol error for it under that scope's name.
pub proof fn lemma_unresolved_usage_is_reported(
    scope: ScopeView,
    stack: Seq<Seq<SymbolView>>,
    path: Seq<int>,
    usage: UsageView,
)
    requires
        valid_path(scope, path),
        scope_at(scope, path).usages.contains(usage),
        !resolves(usage, chain_at(scope, stack, path)),
    ensures
        resolution_errors(scope, stack).contains(
            undefined_error(usage, scope_at(scope, path).name),
        ),
{
    let here = scope_at(scope, path);
    let chain = chain_at(scope, stack, path);
    let error = undefined_error(usage, here.name);
    lemma_undefined_iff_unresolved(here.usages, here.name, chain, usage);
    lemma_contains_add(
        declaration_errors(here.symbols, here.name),
        undefined_errors(here.usages, here.name, chain),
        error,
    );
    lemma_local_errors_are_reported(scope, stack, path, error);
}

/// Across the tree, an undefined-symbol error is reported for unresolved
/// usages only: for every such error of the whole tree there is a scope, whose
/// path is returned, that reads the usage under the error's scope name, and
/// no level of that scope's chain declares it.
pub proof fn lemma_reported_undefined_is_unresolved(
    scope: ScopeView,
    stack: Seq<Seq<SymbolView>>,
    error: NameResolutionErrorView,
) -> (path: Seq<int>)
    requires
        resolution_errors(scope, stack).contains(error),
        error.error_kind is Undefined,
    ensures
        valid_path(scope, path),
        error.scope_name == scope_at(scope, path).name,
        scope_at(scope, path).usages.contains(error.error_kind->Undefined_0),
        !resolves(error.error_kind->Undefined_0, chain_at(scope, stack, path)),
{
    let path = lemma_reported_errors_are_local(scope, stack, error);
    let here = scope_at(scope, path);
    let chain = chain_at(scope, stack, path);
    let declared = declaration_errors(here.symbols, here.name);
    let unresolved = undefined_errors(here.usages, here.name, chain);
    lemma_contains_add(declared, unresolved, error);
    assert(!declared.contains(error)) by {
        if declared.contains(error) {
            let index = lemma_declaration_errors_are_declarations(here.symbols, here.name, error);
        }
    }
    let usage = lemma_undefined_errors_are_usages(here.usages, here.name, chain, error);
    path
}

} // verus!
