//! The parameter list translator: formal parameters to the target
//! language's parameter clause.

use vstd::prelude::*;
use vstd::pervasive::arbitrary;
use crate::context::CodeGenContext;
use crate::context::PythonOptions;
use crate::errors::TranslationError;
use crate::errors::TranslationErrorView;
use crate::symbol_table::SymbolTableScopes;
use crate::tokens::token_views;
use crate::tokens::Token;
use crate::tokens::TokenView;

verus! {

/// One formal parameter: a name, an optional type annotation, and an
/// optional default value carried as its textual form.
#[derive(Clone, Debug, PartialEq, Eq)]
pub struct Parameter {
    pub name: String,
    pub annotation: Option<String>,
    pub default: Option<String>,
}

/// The ordered formal parameter list of a function definition.
#[derive(Clone, Debug, PartialEq, Eq)]
pub struct ParameterList {
    pub args: Vec<Parameter>,
}

/// The target language has no default parameter values, so a parameter is
/// translatable exactly when it carries none.
pub open spec fn param_supported(p: Parameter) -> bool {
    p.default is None
}

pub open spec fn params_supported(ps: Seq<Parameter>) -> bool {
    forall|i: int| 0 <= i < ps.len() ==> param_supported(#[trigger] ps[i])
}

/// The token rendering of one parameter: its name, and its annotation after
/// a colon where one is given.
pub open spec fn param_token_views(p: Parameter) -> Seq<TokenView> {
    match p.annotation {
        Some(t) => seq![TokenView::Ident(p.name@), TokenView::Punct(':'), TokenView::Ident(t@)],
        None => seq![TokenView::Ident(p.name@)],
    }
}

/// The token rendering of a parameter list: each parameter in order,
/// comma-separated.
pub open spec fn params_token_views(ps: Seq<Parameter>) -> Seq<TokenView>
    decreases ps.len(),
{
    if ps.len() == 0 {
        seq![]
    } else if ps.len() == 1 {
        param_token_views(ps[0])
    } else {
        param_token_views(ps[0]) + seq![TokenView::Punct(',')] + params_token_views(
            ps.drop_first(),
        )
    }
}

/// The first parameter the target language cannot express, where one exists.
pub open spec fn first_unsupported_param(ps: Seq<Parameter>) -> Parameter
    decreases ps.len(),
{
    if ps.len() == 0 {
        arbitrary()
    } else if !param_supported(ps.first()) {
        ps.first()
    } else {
        first_unsupported_param(ps.drop_first())
    }
}

/// Appending one more parameter extends the comma-separated rendering.
pub proof fn lemma_params_token_views_push(ps: Seq<Parameter>, p: Parameter)
    ensures
        params_token_views(ps.push(p)) == if ps.len() == 0 {
            param_token_views(p)
        } else {
            params_token_views(ps) + seq![TokenView::Punct(',')] + param_token_views(p)
        },
    decreases ps.len(),
{
    let whole = ps.push(p);
    if ps.len() == 0 {
        assert(whole.len() == 1);
        assert(whole[0] == p);
    } else if ps.len() == 1 {
        assert(whole[0] == ps[0]);
        assert(whole.drop_first() =~= seq![p]);
        assert(params_token_views(whole.drop_first()) == param_token_views(p));
    } else {
        assert(whole[0] == ps[0]);
        assert(whole.drop_first() =~= ps.drop_first().push(p));
        lemma_params_token_views_push(ps.drop_first(), p);
        assert(params_token_views(whole) =~= params_token_views(ps) + seq![
            TokenView::Punct(','),
        ] + param_token_views(p));
    }
}

/// Where the first `i` parameters are supported and parameter `i` is not,
/// parameter `i` is the first unsupported one.
pub proof fn lemma_first_unsupported_param(ps: Seq<Parameter>, i: int)
    requires
        0 <= i < ps.len(),
        !param_supported(ps[i]),
        forall|k: int| 0 <= k < i ==> param_supported(#[trigger] ps[k]),
    ensures
        first_unsupported_param(ps) == ps[i],
    decreases i,
{
    if i == 0 {
    } else {
        assert(param_supported(ps.first()));
        assert(ps.drop_first()[i - 1] == ps[i]);
        assert forall|k: int| 0 <= k < i - 1 implies param_supported(
            #[trigger] ps.drop_first()[k],
        ) by {
            assert(ps.drop_first()[k] == ps[k + 1]);
        }
        lemma_first_unsupported_param(ps.drop_first(), i - 1);
    }
}

impl ParameterList {
    /// Translates the formal parameter list into the target language's
    /// parameter clause: every parameter in source order, comma-separated.
    /// Fails on the first parameter carrying a default value, with that
    /// parameter's name as the description.
    pub fn to_rust(
        &self,
        ctx: CodeGenContext,
        options: &PythonOptions,
        symbols: &SymbolTableScopes,
    ) -> (r: Result<Vec<Token>, TranslationError>)
        ensures
            match r {
                Ok(ts) => params_supported(self.args@) && token_views(ts@) == params_token_views(
                    self.args@,
                ),
                Err(e) => !params_supported(self.args@) && e@
                    == TranslationErrorView::UnsupportedParameter(
                    first_unsupported_param(self.args@).name@,
                ),
            },
    {
        let mut out: Vec<Token> = Vec::new();
        let n = self.args.len();
        let mut i: usize = 0;
        while i < n
            invariant
                n == self.args@.len(),
                i <= n,
                forall|k: int| 0 <= k < i ==> param_supported(#[trigger] self.args@[k]),
                token_views(out@) == params_token_views(self.args@.take(i as int)),
            decreases n - i,
        {
            let p = &self.args[i];
            if p.default.is_some() {
                proof {
                    lemma_first_unsupported_param(self.args@, i as int);
                }
                return Err(TranslationError::UnsupportedParameter(p.name.clone()));
            }
            let ghost sofar = out@;
            if i > 0 {
                out.push(Token::Punct(','));
            }
            out.push(Token::Ident(p.name.clone()));
            match &p.annotation {
                Some(t) => {
                    out.push(Token::Punct(':'));
                    out.push(Token::Ident(t.clone()));
                },
                None => {},
            }
            proof {
                let taken = self.args@.take(i as int);
                assert(self.args@.take(i as int + 1) =~= taken.push(self.args@[i as int]));
                lemma_params_token_views_push(taken, self.args@[i as int]);
                assert(token_views(out@) =~= params_token_views(
                    self.args@.take(i as int + 1),
                ));
            }
            i = i + 1;
        }
        proof {
            assert(self.args@.take(n as int) =~= self.args@);
        }
        Ok(out)
    }
}

} // verus!
