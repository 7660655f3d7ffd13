//! The statement translator: one statement node to its target-language
//! token rendering.

use vstd::prelude::*;
use crate::context::CodeGenContext;
use crate::context::PythonOptions;
use crate::errors::TranslationError;
use crate::errors::TranslationErrorView;
use crate::expr::expr_token_views;
use crate::expr::Expr;
use crate::expr::ExprType;
use crate::symbol_table::SymbolTableScopes;
use crate::tokens::lemma_token_views_concat;
use crate::tokens::token_views;
use crate::tokens::Token;
use crate::tokens::TokenView;

verus! {

/// The statement kinds the translator dispatches over. The `Unsupported`
/// variant stands for every source construct outside this closed set; it
/// carries the construct's description for diagnostics.
#[derive(Debug, PartialEq, Eq)]
pub enum StatementType {
    /// An expression evaluated for effect; a leading constant is the
    /// docstring convention.
    Expr(Expr),
    /// A single-target assignment.
    Assign { target: String, value: ExprType },
    /// A return, with or without a value.
    Return(Option<ExprType>),
    /// The explicit no-op.
    Pass,
    /// A statement kind the translator does not handle.
    Unsupported(String),
}

/// One statement node of a function body.
#[derive(Debug, PartialEq, Eq)]
pub struct Statement {
    pub statement: StatementType,
}

/// Whether the statement translator handles this statement kind.
pub open spec fn stmt_supported(s: StatementType) -> bool {
    !(s is Unsupported)
}

/// The description of a statement, used in translation errors.
pub open spec fn stmt_description(s: StatementType) -> Seq<char> {
    match s {
        StatementType::Unsupported(d) => d@,
        _ => Seq::<char>::empty(),
    }
}

/// The token rendering of one supported statement, without the trailing
/// statement terminator.
pub open spec fn stmt_token_views(s: StatementType) -> Seq<TokenView> {
    match s {
        StatementType::Expr(e) => expr_token_views(e.value),
        StatementType::Assign { target, value } => seq![
            TokenView::Ident("let"@),
            TokenView::Ident(target@),
            TokenView::Punct('='),
        ] + expr_token_views(value),
        StatementType::Return(Some(e)) => seq![TokenView::Ident("return"@)] + expr_token_views(e),
        StatementType::Return(None) => seq![TokenView::Ident("return"@)],
        StatementType::Pass => seq![],
        StatementType::Unsupported(_) => seq![],
    }
}

impl Statement {
    /// Translates this statement into target-language tokens, or fails with
    /// the statement's description where its kind is unsupported.
    pub fn to_rust(
        &self,
        ctx: CodeGenContext,
        options: &PythonOptions,
        symbols: &SymbolTableScopes,
    ) -> (r: Result<Vec<Token>, TranslationError>)
        ensures
            match r {
                Ok(ts) => stmt_supported(self.statement) && token_views(ts@) == stmt_token_views(
                    self.statement,
                ),
                Err(e) => !stmt_supported(self.statement) && e@
                    == TranslationErrorView::UnsupportedStatement(
                    stmt_description(self.statement),
                ),
            },
    {
        match &self.statement {
            StatementType::Expr(e) => Ok(e.value.to_rust(ctx, options, symbols)),
            StatementType::Assign { target, value } => {
                let mut out: Vec<Token> = Vec::new();
                out.push(Token::Ident(String::from_str("let")));
                out.push(Token::Ident(target.clone()));
                out.push(Token::Punct('='));
                let ghost head = out@;
                let mut rhs = value.to_rust(ctx, options, symbols);
                let ghost rhs_part = rhs@;
                out.append(&mut rhs);
                proof {
                    lemma_token_views_concat(head, rhs_part);
                    assert(token_views(head) =~= seq![
                        TokenView::Ident("let"@),
                        TokenView::Ident(target@),
                        TokenView::Punct('='),
                    ]);
                    assert(token_views(out@) == stmt_token_views(self.statement));
                }
                Ok(out)
            },
            StatementType::Return(v) => {
                let mut out: Vec<Token> = Vec::new();
                out.push(Token::Ident(String::from_str("return")));
                let ghost head = out@;
                match v {
                    Some(e) => {
                        let mut val = e.to_rust(ctx, options, symbols);
                        let ghost val_part = val@;
                        out.append(&mut val);
                        proof {
                            lemma_token_views_concat(head, val_part);
                            assert(token_views(head) =~= seq![TokenView::Ident("return"@)]);
                            assert(token_views(out@) == stmt_token_views(self.statement));
                        }
                    },
                    None => {
                        proof {
                            assert(token_views(out@) =~= seq![TokenView::Ident("return"@)]);
                        }
                    },
                }
                Ok(out)
            },
            StatementType::Pass => {
                let out: Vec<Token> = Vec::new();
                proof {
                    assert(token_views(out@) =~= stmt_token_views(self.statement));
                }
                Ok(out)
            },
            StatementType::Unsupported(d) => Err(
                TranslationError::UnsupportedStatement(d.clone()),
            ),
        }
    }
}

} // verus!
