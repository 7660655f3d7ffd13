//! The function definition translator: orchestrates visibility inference,
//! async qualification, parameter and body translation, and docstring
//! extraction into one emitted target-language function.

use vstd::prelude::*;
use crate::context::async_token_views;
use crate::context::visibility;
use crate::context::visibility_of;
use crate::context::visibility_token_views;
use crate::context::CodeGenContext;
use crate::context::PythonOptions;
use crate::context::Visibility;
use crate::errors::TranslationError;
use crate::errors::TranslationErrorView;
use crate::expr::ExprType;
use crate::parameters::first_unsupported_param;
use crate::parameters::params_supported;
use crate::parameters::params_token_views;
use crate::parameters::ParameterList;
use crate::statement::stmt_description;
use crate::statement::stmt_supported;
use crate::statement::stmt_token_views;
use crate::statement::Statement;
use crate::statement::StatementType;
use crate::symbol_table::scope_insert;
use crate::symbol_table::Binding;
use crate::symbol_table::SymbolTableNode;
use crate::symbol_table::SymbolTableScopes;
use crate::tokens::lemma_token_views_concat;
use crate::tokens::lemma_token_views_push;
use crate::tokens::token_views;
use crate::tokens::Token;
use crate::tokens::TokenView;

verus! {

/// A parsed source-language function definition. Translation only reads it;
/// a body must hold at least one statement (the docstring scan inspects the
/// first statement unconditionally).
#[derive(Debug, PartialEq)]
pub struct FunctionDef {
    pub name: String,
    pub args: ParameterList,
    pub body: Vec<Statement>,
    pub decorator_list: Vec<String>,
}

/// The extracted documentation: the constant of a leading constant
/// expression statement, or nothing.
pub open spec fn spec_docstring(body: Seq<Statement>) -> Option<Seq<char>>
    recommends
        body.len() >= 1,
{
    match body[0].statement {
        StatementType::Expr(e) => match e.value {
            ExprType::Constant(c) => Some(c@),
            _ => None,
        },
        _ => None,
    }
}

/// The emitted documentation text: the extracted docstring, or empty where
/// no leading statement qualifies. Best effort, never an error.
pub open spec fn doc_text(body: Seq<Statement>) -> Seq<char>
    recommends
        body.len() >= 1,
{
    match spec_docstring(body) {
        Some(d) => d,
        None => Seq::<char>::empty(),
    }
}

/// Whether every statement of the body is translatable.
pub open spec fn body_supported(body: Seq<Statement>) -> bool {
    forall|i: int| 0 <= i < body.len() ==> stmt_supported(#[trigger] body[i].statement)
}

/// The token rendering of a body: each statement's tokens in source order,
/// each followed by the statement terminator.
pub open spec fn body_token_views(body: Seq<Statement>) -> Seq<TokenView>
    decreases body.len(),
{
    if body.len() == 0 {
        seq![]
    } else {
        stmt_token_views(body.first().statement) + seq![TokenView::Punct(';')]
            + body_token_views(body.drop_first())
    }
}

/// The first untranslatable statement of a body, where one exists.
pub open spec fn first_unsupported_stmt(body: Seq<Statement>) -> StatementType
    decreases body.len(),
{
    if body.len() == 0 {
        StatementType::Pass
    } else if !stmt_supported(body.first().statement) {
        body.first().statement
    } else {
        first_unsupported_stmt(body.drop_first())
    }
}

/// Everything of the emitted function after the async qualifier: name,
/// parameter clause, and braced body.
pub open spec fn fn_tail_views(def: FunctionDef) -> Seq<TokenView> {
    seq![TokenView::Ident("fn"@), TokenView::Ident(def.name@), TokenView::Punct('(')]
        + params_token_views(def.args.args@) + seq![TokenView::Punct(')'), TokenView::Punct('{')]
        + body_token_views(def.body@) + seq![TokenView::Punct('}')]
}

/// The whole emitted function: documentation, visibility, async qualifier,
/// name, parameter clause and body, in that fixed order.
pub open spec fn fn_token_views(def: FunctionDef, ctx: CodeGenContext) -> Seq<TokenView>
    recommends
        def.body@.len() >= 1,
{
    seq![TokenView::Doc(doc_text(def.body@))] + visibility_token_views(visibility_of(def.name@))
        + async_token_views(ctx) + fn_tail_views(def)
}

/// The error a failed translation reports: the parameter clause is
/// translated first, so an untranslatable parameter wins over an
/// untranslatable statement.
pub open spec fn translate_error_view(def: FunctionDef) -> TranslationErrorView {
    if !params_supported(def.args.args@) {
        TranslationErrorView::UnsupportedParameter(first_unsupported_param(def.args.args@).name@)
    } else {
        TranslationErrorView::UnsupportedStatement(
            stmt_description(first_unsupported_stmt(def.body@)),
        )
    }
}

/// Splitting a body anywhere splits its rendering at the matching token:
/// emitted statement renderings stand in source order, each one contiguous.
pub proof fn lemma_statement_order(body: Seq<Statement>, i: int)
    requires
        0 <= i <= body.len(),
    ensures
        body_token_views(body) == body_token_views(body.subrange(0, i)) + body_token_views(
            body.subrange(i, body.len() as int),
        ),
    decreases i,
{
    if i == 0 {
        assert(body.subrange(0, 0) =~= Seq::<Statement>::empty());
        assert(body.subrange(0, body.len() as int) =~= body);
    } else {
        let head = body.first();
        let rest = body.drop_first();
        lemma_statement_order(rest, i - 1);
        assert(body.subrange(0, i).first() == head);
        assert(body.subrange(0, i).drop_first() =~= rest.subrange(0, i - 1));
        assert(body.subrange(i, body.len() as int) =~= rest.subrange(i - 1, rest.len() as int));
        assert(body_token_views(body) =~= body_token_views(body.subrange(0, i))
            + body_token_views(body.subrange(i, body.len() as int)));
    }
}

/// Appending one more statement extends the body rendering at its end.
pub proof fn lemma_body_token_views_push(body: Seq<Statement>, s: Statement)
    ensures
        body_token_views(body.push(s)) == body_token_views(body) + stmt_token_views(s.statement)
            + seq![TokenView::Punct(';')],
    decreases body.len(),
{
    let whole = body.push(s);
    if body.len() == 0 {
        assert(whole.first() == s);
        assert(whole.drop_first() =~= Seq::<Statement>::empty());
        assert(body_token_views(Seq::<Statement>::empty()) == Seq::<TokenView>::empty());
        assert(body_token_views(whole) =~= body_token_views(body) + stmt_token_views(s.statement)
            + seq![TokenView::Punct(';')]);
    } else {
        assert(whole.first() == body.first());
        assert(whole.drop_first() =~= body.drop_first().push(s));
        lemma_body_token_views_push(body.drop_first(), s);
        assert(body_token_views(whole) =~= body_token_views(body) + stmt_token_views(s.statement)
            + seq![TokenView::Punct(';')]);
    }
}

/// Where the first `i` statements are supported and statement `i` is not,
/// statement `i` is the first unsupported one.
pub proof fn lemma_first_unsupported_stmt(body: Seq<Statement>, i: int)
    requires
        0 <= i < body.len(),
        !stmt_supported(body[i].statement),
        forall|k: int| 0 <= k < i ==> stmt_supported(#[trigger] body[k].statement),
    ensures
        first_unsupported_stmt(body) == body[i].statement,
    decreases i,
{
    if i == 0 {
    } else {
        assert(body.drop_first()[i - 1] == body[i]);
        assert forall|k: int| 0 <= k < i - 1 implies stmt_supported(
            #[trigger] body.drop_first()[k].statement,
        ) by {
            assert(body.drop_first()[k] == body[k + 1]);
        }
        lemma_first_unsupported_stmt(body.drop_first(), i - 1);
    }
}

/// Async qualification law: the same definition emits the async qualifier
/// exactly when the ambient context is asynchronous — the emitted tokens
/// under any two contexts differ only by that qualifier, so translation is
/// a pure function of the pair (definition, context), never of the
/// definition alone.
pub proof fn lemma_async_qualifier(def: FunctionDef, actx: CodeGenContext, sctx: CodeGenContext)
    requires
        actx is Asynchronous,
        !(sctx is Asynchronous),
    ensures
        fn_token_views(def, actx) == seq![TokenView::Doc(doc_text(def.body@))]
            + visibility_token_views(visibility_of(def.name@)) + seq![TokenView::Ident("async"@)]
            + fn_tail_views(def),
        fn_token_views(def, sctx) == seq![TokenView::Doc(doc_text(def.body@))]
            + visibility_token_views(visibility_of(def.name@)) + fn_tail_views(def),
{
    assert(fn_token_views(def, sctx) =~= seq![TokenView::Doc(doc_text(def.body@))]
        + visibility_token_views(visibility_of(def.name@)) + fn_tail_views(def));
}

/// Determinism law: the emitted tokens are a function of the definition and
/// the ambient context alone, so any two successful translations of the
/// same pair are identical.
pub proof fn lemma_translation_deterministic(
    def: FunctionDef,
    ctx: CodeGenContext,
    r1: Seq<TokenView>,
    r2: Seq<TokenView>,
)
    requires
        r1 == fn_token_views(def, ctx),
        r2 == fn_token_views(def, ctx),
    ensures
        r1 == r2,
{
}

impl FunctionDef {
    /// Registers this definition under its name in the innermost scope, for
    /// forward visibility. Redefinition overwrites; it is never an error.
    pub fn find_symbols(self, symbols: SymbolTableScopes) -> (r: SymbolTableScopes)
        requires
            symbols.wf(),
        ensures
            r.wf(),
            r.scopes@.len() == symbols.scopes@.len(),
            forall|k: int|
                0 <= k < symbols.scopes@.len() - 1 ==> r.scopes@[k] == symbols.scopes@[k],
            r.scopes@.last().entries@ == scope_insert(
                symbols.scopes@.last().entries@,
                Binding { name: self.name, node: SymbolTableNode::FunctionDef(self) },
            ),
            r.spec_lookup(self.name@) == Some(SymbolTableNode::FunctionDef(self)),
            forall|other: Seq<char>|
                other != self.name@ ==> r.spec_lookup(other) == symbols.spec_lookup(other),
    {
        let mut symbols = symbols;
        let name = self.name.clone();
        symbols.insert(name, SymbolTableNode::FunctionDef(self));
        symbols
    }

    /// Extracts the docstring: the constant of a leading constant expression
    /// statement, or nothing where the first statement does not qualify.
    pub fn get_docstring(&self) -> (r: Option<String>)
        requires
            self.body@.len() >= 1,
        ensures
            match r {
                Some(d) => spec_docstring(self.body@) == Some(d@),
                None => spec_docstring(self.body@) is None,
            },
    {
        match &self.body[0].statement {
            StatementType::Expr(e) => match &e.value {
                ExprType::Constant(c) => Some(c.clone()),
                _ => None,
            },
            _ => None,
        }
    }

    /// Translates this definition into one emitted target-language
    /// function: documentation, inferred visibility, async qualifier where
    /// the ambient context is asynchronous, name, parameter clause, and the
    /// body statements in source order, each terminated. All-or-nothing: an
    /// untranslatable parameter or statement aborts with its description
    /// and no partial output.
    #[verifier::rlimit(100)]
    pub fn to_rust(
        &self,
        ctx: CodeGenContext,
        options: &PythonOptions,
        symbols: &SymbolTableScopes,
    ) -> (r: Result<Vec<Token>, TranslationError>)
        requires
            self.body@.len() >= 1,
        ensures
            match r {
                Ok(ts) => params_supported(self.args.args@) && body_supported(self.body@)
                    && token_views(ts@) == fn_token_views(*self, ctx),
                Err(e) => !(params_supported(self.args.args@) && body_supported(self.body@))
                    && e@ == translate_error_view(*self),
            },
    {
        let mut tokens: Vec<Token> = Vec::new();

        let docstring = match self.get_docstring() {
            Some(d) => d,
            None => String::new(),
        };
        tokens.push(Token::Doc(docstring));
        proof {
            assert(token_views(tokens@) =~= seq![TokenView::Doc(doc_text(self.body@))]);
        }

        match visibility(self.name.as_str()) {
            Visibility::Private => {},
            Visibility::Internal => {
                tokens.push(Token::Ident(String::from_str("pub")));
                tokens.push(Token::Punct('('));
                tokens.push(Token::Ident(String::from_str("crate")));
                tokens.push(Token::Punct(')'));
            },
            Visibility::Public => {
                tokens.push(Token::Ident(String::from_str("pub")));
            },
        }
        let ghost after_vis = seq![TokenView::Doc(doc_text(self.body@))]
            + visibility_token_views(visibility_of(self.name@));
        proof {
            assert(token_views(tokens@) =~= after_vis);
        }

        if ctx == CodeGenContext::Asynchronous {
            tokens.push(Token::Ident(String::from_str("async")));
        }
        let ghost after_async = after_vis + async_token_views(ctx);
        proof {
            assert(token_views(tokens@) =~= after_async);
        }

        tokens.push(Token::Ident(String::from_str("fn")));
        tokens.push(Token::Ident(self.name.clone()));
        tokens.push(Token::Punct('('));

        let mut parameters = match self.args.to_rust(ctx, options, symbols) {
            Ok(p) => p,
            Err(e) => {
                return Err(e);
            },
        };
        let ghost params_part = parameters@;
        let ghost before_params = tokens@;
        tokens.append(&mut parameters);
        tokens.push(Token::Punct(')'));
        tokens.push(Token::Punct('{'));
        let ghost header = after_async + seq![
            TokenView::Ident("fn"@),
            TokenView::Ident(self.name@),
            TokenView::Punct('('),
        ] + params_token_views(self.args.args@) + seq![
            TokenView::Punct(')'),
            TokenView::Punct('{'),
        ];
        proof {
            lemma_token_views_concat(before_params, params_part);
            assert(token_views(tokens@) =~= header);
        }

        let n = self.body.len();
        let mut i: usize = 0;
        while i < n
            invariant
                n == self.body@.len(),
                i <= n,
                self.body@.len() >= 1,
                params_supported(self.args.args@),
                forall|k: int| 0 <= k < i ==> stmt_supported(#[trigger] self.body@[k].statement),
                token_views(tokens@) == header + body_token_views(self.body@.take(i as int)),
                header == after_async + seq![
                    TokenView::Ident("fn"@),
                    TokenView::Ident(self.name@),
                    TokenView::Punct('('),
                ] + params_token_views(self.args.args@) + seq![
                    TokenView::Punct(')'),
                    TokenView::Punct('{'),
                ],
                after_async == seq![TokenView::Doc(doc_text(self.body@))]
                    + visibility_token_views(visibility_of(self.name@)) + async_token_views(ctx),
            decreases n - i,
        {
            let mut stmt_tokens = match self.body[i].to_rust(ctx, options, symbols) {
                Ok(ts) => ts,
                Err(e) => {
                    proof {
                        lemma_first_unsupported_stmt(self.body@, i as int);
                    }
                    return Err(e);
                },
            };
            let ghost stmt_part = stmt_tokens@;
            let ghost sofar = tokens@;
            tokens.append(&mut stmt_tokens);
            tokens.push(Token::Punct(';'));
            proof {
                lemma_token_views_concat(sofar, stmt_part);
                lemma_token_views_push(sofar + stmt_part, Token::Punct(';'));
                let taken = self.body@.take(i as int);
                assert(self.body@.take(i as int + 1) =~= taken.push(self.body@[i as int]));
                lemma_body_token_views_push(taken, self.body@[i as int]);
                assert(token_views(tokens@) =~= header + body_token_views(
                    self.body@.take(i as int + 1),
                ));
            }
            i = i + 1;
        }

        let ghost before_close = tokens@;
        tokens.push(Token::Punct('}'));
        proof {
            lemma_token_views_push(before_close, Token::Punct('}'));
            assert(self.body@.take(n as int) =~= self.body@);
            assert(token_views(tokens@) =~= fn_token_views(*self, ctx));
        }
        Ok(tokens)
    }
}

} // verus!

