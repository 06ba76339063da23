//! Declarations, usages, scopes and errors, each with its mathematical view.
//!
//! Names are compared as sequences of characters, so every type that holds a
//! `String` has a view in which the name is a `Seq<char>`. Contracts speak of
//! the views.

use vstd::prelude::*;
use crate::ast::TypeLiteral;

verus! {

/// What kind of declaration a symbol is.
#[derive(Debug, PartialEq, Eq)]
pub enum SymbolKind {
    /// A `let`, declared at this position.
    VariableDeclaration(usize),
    /// A function: the types of its parameters in order, then its return type.
    FunctionDefinition(Vec<TypeLiteral>),
    /// A parameter of the enclosing function, with its type.
    FunctionParameter(TypeLiteral),
}

/// One declared name.
#[derive(Debug, PartialEq, Eq)]
pub struct Symbol {
    /// The declared name.
    pub symbol: String,
    /// The name of the scope that declares it directly.
    pub scope_name: String,
    pub kind: SymbolKind,
}

/// How a name is read.
#[derive(Debug, Clone, Copy, PartialEq, Eq, Structural)]
pub enum UsageKind {
    /// A variable is read at this position.
    VariableReference(usize),
    /// A function is called.
    FunctionCall,
}

/// One occurrence of a name being read.
#[derive(Debug, PartialEq, Eq)]
pub struct Usage {
    /// The name that is read.
    pub symbol: String,
    pub kind: UsageKind,
}

/// The view of a [`SymbolKind`].
pub enum SymbolKindView {
    VariableDeclaration(usize),
    FunctionDefinition(Seq<TypeLiteral>),
    FunctionParameter(TypeLiteral),
}

/// The view of a [`Symbol`].
pub struct SymbolView {
    pub name: Seq<char>,
    pub scope_name: Seq<char>,
    pub kind: SymbolKindView,
}

/// The view of a [`Usage`].
pub struct UsageView {
    pub name: Seq<char>,
    pub kind: UsageKind,
}

impl DeepView for SymbolKind {
    type V = SymbolKindView;

    open spec fn deep_view(&self) -> SymbolKindView {
        match self {
            SymbolKind::VariableDeclaration(position) => SymbolKindView::VariableDeclaration(
                *position,
            ),
            SymbolKind::FunctionDefinition(signature) => SymbolKindView::FunctionDefinition(
                signature@,
            ),
            SymbolKind::FunctionParameter(parameter_type) => SymbolKindView::FunctionParameter(
                *parameter_type,
            ),
        }
    }
}

impl DeepView for Symbol {
    type V = SymbolView;

    open spec fn deep_view(&self) -> SymbolView {
        SymbolView {
            name: self.symbol@,
            scope_name: self.scope_name@,
            kind: self.kind.deep_view(),
        }
    }
}

impl DeepView for Usage {
    type V = UsageView;

    open spec fn deep_view(&self) -> UsageView {
        UsageView { name: self.symbol@, kind: self.kind }
    }
}

impl Clone for SymbolKind {
    fn clone(&self) -> (copy: Self)
        ensures
            copy.deep_view() == self.deep_view(),
    {
        match self {
            SymbolKind::VariableDeclaration(position) => SymbolKind::VariableDeclaration(*position),
            SymbolKind::FunctionDefinition(signature) => {
                let copy = signature.clone();
                assert(copy@ =~= signature@);
                SymbolKind::FunctionDefinition(copy)
            },
            SymbolKind::FunctionParameter(parameter_type) => SymbolKind::FunctionParameter(
                *parameter_type,
            ),
        }
    }
}

impl Clone for Symbol {
    fn clone(&self) -> (copy: Self)
        ensures
            copy.deep_view() == self.deep_view(),
    {
        Symbol {
            symbol: self.symbol.clone(),
            scope_name: self.scope_name.clone(),
            kind: self.kind.clone(),
        }
    }
}

impl Clone for Usage {
    fn clone(&self) -> (copy: Self)
        ensures
            copy.deep_view() == self.deep_view(),
    {
        Usage { symbol: self.symbol.clone(), kind: self.kind }
    }
}

/// What is wrong with a declaration or a usage.
#[derive(Debug, PartialEq, Eq)]
pub enum NameResolutionErrorKind {
    /// The symbol's name was already declared in the same scope.
    Redeclaration(Symbol),
    /// No enclosing scope declares what the usage reads.
    Undefined(Usage),
    /// The symbol's name is a reserved word.
    ReservedKeywordClash(Symbol),
}

/// One semantic error, with the name of the scope in which it was found.
#[derive(Debug, PartialEq, Eq)]
pub struct NameResolutionError {
    pub scope_name: String,
    pub error_kind: NameResolutionErrorKind,
}

/// The view of a [`NameResolutionErrorKind`].
pub enum NameResolutionErrorKindView {
    Redeclaration(SymbolView),
    Undefined(UsageView),
    ReservedKeywordClash(SymbolView),
}

/// The view of a [`NameResolutionError`].
pub struct NameResolutionErrorView {
    pub scope_name: Seq<char>,
    pub error_kind: NameResolutionErrorKindView,
}

impl DeepView for NameResolutionErrorKind {
    type V = NameResolutionErrorKindView;

    open spec fn deep_view(&self) -> NameResolutionErrorKindView {
        match self {
            NameResolutionErrorKind::Redeclaration(symbol) => {
                NameResolutionErrorKindView::Redeclaration(symbol.deep_view())
            },
            NameResolutionErrorKind::Undefined(usage) => NameResolutionErrorKindView::Undefined(
                usage.deep_view(),
            ),
            NameResolutionErrorKind::ReservedKeywordClash(symbol) => {
                NameResolutionErrorKindView::ReservedKeywordClash(symbol.deep_view())
            },
        }
    }
}

impl DeepView for NameResolutionError {
    type V = NameResolutionErrorView;

    open spec fn deep_view(&self) -> NameResolutionErrorView {
        NameResolutionErrorView {
            scope_name: self.scope_name@,
            error_kind: self.error_kind.deep_view(),
        }
    }
}

/// The declaration that a usage resolves to: the level of the scope chain
/// that holds it, counted from the outermost scope, and its index in that
/// scope's symbol list.
#[derive(Debug, Clone, Copy, PartialEq, Eq, Structural)]
pub struct Binding {
    pub level: usize,
    pub index: usize,
}

} // verus!
