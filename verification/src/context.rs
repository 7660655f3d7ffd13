//! The ambient translation environment: the context descriptor threaded
//! through every recursive call, the opaque options bundle, and the
//! visibility convention inferred from a definition's name.

use vstd::prelude::*;
use vstd::string::StrSliceExecFns;
use crate::tokens::TokenView;

verus! {

/// The environment a node is generated in: module level, inside a
/// synchronous function, or inside an asynchronous function.
#[derive(Clone, Copy, Debug, PartialEq, Eq, Structural)]
pub enum CodeGenContext {
    Module,
    Synchronous,
    Asynchronous,
}

/// Configuration toggles controlling emission style. Treated as an opaque
/// pass-through by every translator in this crate.
#[derive(Clone, Debug)]
pub struct PythonOptions {}

impl PythonOptions {
    pub fn new() -> PythonOptions {
        PythonOptions {}
    }
}

/// The visibility the target-language function is emitted with.
#[derive(Clone, Copy, Debug, PartialEq, Eq, Structural)]
pub enum Visibility {
    /// No qualifier: module-private by the single-underscore convention.
    Private,
    /// `pub(crate)`: the dunder-name protocol-hook convention.
    Internal,
    /// `pub`: the default.
    Public,
}

/// The name begins with exactly one underscore (and not with two).
pub open spec fn starts_single_underscore(name: Seq<char>) -> bool {
    name.len() >= 1 && name[0] == '_' && !(name.len() >= 2 && name[1] == '_')
}

/// The name begins and ends with a double underscore.
pub open spec fn is_dunder(name: Seq<char>) -> bool {
    &&& name.len() >= 2
    &&& name[0] == '_'
    &&& name[1] == '_'
    &&& name[name.len() - 1] == '_'
    &&& name[name.len() - 2] == '_'
}

/// Visibility inferred from the source naming convention, in precedence
/// order: exactly one leading underscore is private, a dunder name is
/// crate-internal, anything else is public.
pub open spec fn visibility_of(name: Seq<char>) -> Visibility {
    if starts_single_underscore(name) {
        Visibility::Private
    } else if is_dunder(name) {
        Visibility::Internal
    } else {
        Visibility::Public
    }
}

/// Visibility convention law: a name with exactly one leading underscore is
/// private; a name that begins and ends with a double underscore is
/// crate-internal; every other name is public.
pub proof fn lemma_visibility_convention(name: Seq<char>)
    ensures
        starts_single_underscore(name) ==> visibility_of(name) == Visibility::Private,
        is_dunder(name) ==> visibility_of(name) == Visibility::Internal,
        !starts_single_underscore(name) && !is_dunder(name) ==> visibility_of(name)
            == Visibility::Public,
{
    if is_dunder(name) {
        assert(!starts_single_underscore(name));
    }
}

/// Computes the visibility of a definition's name.
pub fn visibility(name: &str) -> (v: Visibility)
    ensures
        v == visibility_of(name@),
{
    let n = name.unicode_len();
    let starts_one = n >= 1 && name.get_char(0) == '_' && !(n >= 2 && name.get_char(1) == '_');
    if starts_one {
        Visibility::Private
    } else if n >= 2 && name.get_char(0) == '_' && name.get_char(1) == '_' && name.get_char(
        n - 1,
    ) == '_' && name.get_char(n - 2) == '_' {
        Visibility::Internal
    } else {
        Visibility::Public
    }
}

/// The token rendering of a visibility qualifier.
pub open spec fn visibility_token_views(v: Visibility) -> Seq<TokenView> {
    match v {
        Visibility::Private => seq![],
        Visibility::Internal => seq![
            TokenView::Ident("pub"@),
            TokenView::Punct('('),
            TokenView::Ident("crate"@),
            TokenView::Punct(')'),
        ],
        Visibility::Public => seq![TokenView::Ident("pub"@)],
    }
}

/// The async qualifier is purely a function of the ambient context.
pub open spec fn async_token_views(ctx: CodeGenContext) -> Seq<TokenView> {
    if ctx is Asynchronous {
        seq![TokenView::Ident("async"@)]
    } else {
        seq![]
    }
}

} // verus!
