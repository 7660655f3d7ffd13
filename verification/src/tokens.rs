//! The emitted intermediate form: a flat sequence of target-language tokens,
//! ready for a separate rendering collaborator to pretty-print.

use vstd::prelude::*;

verus! {

/// One token of emitted target-language code.
///
/// A documentation token carries the text of the function's documentation
/// comment; the renderer decides how to surface it (for Rust, a `#[doc]`
/// attribute).
#[derive(Clone, Debug, PartialEq, Eq)]
pub enum Token {
    Ident(String),
    Punct(char),
    Literal(String),
    Doc(String),
}

/// The mathematical form of a [`Token`]: the same tags over `Seq<char>`.
pub enum TokenView {
    Ident(Seq<char>),
    Punct(char),
    Literal(Seq<char>),
    Doc(Seq<char>),
}

impl View for Token {
    type V = TokenView;

    open spec fn view(&self) -> TokenView {
        match self {
            Token::Ident(s) => TokenView::Ident(s@),
            Token::Punct(c) => TokenView::Punct(*c),
            Token::Literal(s) => TokenView::Literal(s@),
            Token::Doc(s) => TokenView::Doc(s@),
        }
    }
}

/// The view of a whole emitted token sequence.
pub open spec fn token_views(ts: Seq<Token>) -> Seq<TokenView> {
    ts.map_values(|t: Token| t@)
}

/// `token_views` distributes over concatenation.
pub proof fn lemma_token_views_concat(a: Seq<Token>, b: Seq<Token>)
    ensures
        token_views(a + b) == token_views(a) + token_views(b),
{
    assert(token_views(a + b) =~= token_views(a) + token_views(b));
}

/// `token_views` maps a pushed token to its view.
pub proof fn lemma_token_views_push(a: Seq<Token>, t: Token)
    ensures
        token_views(a.push(t)) == token_views(a).push(t@),
{
    assert(token_views(a.push(t)) =~= token_views(a).push(t@));
}

} // verus!
