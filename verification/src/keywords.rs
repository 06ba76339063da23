//! The reserved words of the language.

use vstd::prelude::*;

verus! {

/// Whether `name` is a reserved word: a statement keyword, a type name or a
/// boolean literal.
pub open spec fn is_reserved(name: Seq<char>) -> bool {
    ||| name == "let"@
    ||| name == "fun"@
    ||| name == "return"@
    ||| name == "if"@
    ||| name == "else"@
    ||| name == "true"@
    ||| name == "false"@
    ||| name == "Number"@
    ||| name == "Boolean"@
    ||| name == "String"@
    ||| name == "Unit"@
}

/// Whether `name` reads exactly as `word`.
fn name_is(name: &String, word: &str) -> (same: bool)
    ensures
        same == (name@ == word@),
{
    let word = word.to_owned();
    *name == word
}

/// Tells whether a declared name clashes with a reserved word.
pub fn is_reserved_keyword(name: &String) -> (reserved: bool)
    ensures
        reserved == is_reserved(name@),
{
    name_is(name, "let") || name_is(name, "fun") || name_is(name, "return") || name_is(name, "if")
        || name_is(name, "else") || name_is(name, "true") || name_is(name, "false") || name_is(
        name,
        "Number",
    ) || name_is(name, "Boolean") || name_is(name, "String") || name_is(name, "Unit")
}

} // verus!
