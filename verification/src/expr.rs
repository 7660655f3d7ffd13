//! Expressions and their token rendering.

use vstd::prelude::*;
use crate::context::CodeGenContext;
use crate::context::PythonOptions;
use crate::symbol_table::SymbolTableScopes;
use crate::tokens::lemma_token_views_concat;
use crate::tokens::lemma_token_views_push;
use crate::tokens::token_views;
use crate::tokens::Token;
use crate::tokens::TokenView;

verus! {

/// A binary operator.
#[derive(Clone, Copy, Debug, PartialEq, Eq, Structural)]
pub enum Op {
    Add,
    Sub,
    Mult,
}

/// An expression node.
#[derive(Debug, PartialEq, Eq)]
pub enum ExprType {
    /// A literal constant, carried as its textual form.
    Constant(String),
    /// A reference to a name.
    Name(String),
    /// A binary operation.
    BinOp(Box<ExprType>, Op, Box<ExprType>),
}

/// An expression statement's payload: the expression it evaluates.
#[derive(Debug, PartialEq, Eq)]
pub struct Expr {
    pub value: ExprType,
}

/// The target-language spelling of a binary operator.
pub open spec fn op_char(op: Op) -> char {
    match op {
        Op::Add => '+',
        Op::Sub => '-',
        Op::Mult => '*',
    }
}

/// The token rendering of an expression, in evaluation order.
pub open spec fn expr_token_views(e: ExprType) -> Seq<TokenView>
    decreases e,
{
    match e {
        ExprType::Constant(c) => seq![TokenView::Literal(c@)],
        ExprType::Name(n) => seq![TokenView::Ident(n@)],
        ExprType::BinOp(l, op, r) => expr_token_views(*l) + seq![TokenView::Punct(op_char(op))]
            + expr_token_views(*r),
    }
}

impl Op {
    /// The target-language spelling of this operator.
    pub fn to_char(&self) -> (c: char)
        ensures
            c == op_char(*self),
    {
        match self {
            Op::Add => '+',
            Op::Sub => '-',
            Op::Mult => '*',
        }
    }
}

impl ExprType {
    /// Renders this expression as target-language tokens. Every expression
    /// variant is supported, so expression translation never fails.
    pub fn to_rust(
        &self,
        ctx: CodeGenContext,
        options: &PythonOptions,
        symbols: &SymbolTableScopes,
    ) -> (r: Vec<Token>)
        ensures
            token_views(r@) == expr_token_views(*self),
        decreases *self,
    {
        match self {
            ExprType::Constant(c) => {
                let mut out: Vec<Token> = Vec::new();
                out.push(Token::Literal(c.clone()));
                proof {
                    assert(token_views(out@) =~= expr_token_views(*self));
                }
                out
            },
            ExprType::Name(n) => {
                let mut out: Vec<Token> = Vec::new();
                out.push(Token::Ident(n.clone()));
                proof {
                    assert(token_views(out@) =~= expr_token_views(*self));
                }
                out
            },
            ExprType::BinOp(l, op, r) => {
                let mut out = l.to_rust(ctx, options, symbols);
                let ghost left_part = out@;
                out.push(Token::Punct(op.to_char()));
                let mut right = r.to_rust(ctx, options, symbols);
                let ghost mid_part = out@;
                let ghost right_part = right@;
                out.append(&mut right);
                proof {
                    lemma_token_views_push(left_part, Token::Punct(op_char(*op)));
                    lemma_token_views_concat(mid_part, right_part);
                    assert(token_views(out@) =~= expr_token_views(*self));
                }
                out
            },
        }
    }
}

} // verus!
