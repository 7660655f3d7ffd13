//! Code-generation core of a Python-to-Rust translator.
//!
//! The library consumes an already-parsed abstract syntax tree and emits a
//! token sequence for the target language. Visibility is inferred from the
//! source naming convention, the async qualifier from the ambient context,
//! and a leading string-constant expression statement becomes the emitted
//! documentation. A scoped symbol table records each definition for forward
//! references.

mod context;
mod errors;
mod expr;
mod function_def;
mod parameters;
mod statement;
mod symbol_table;
mod tokens;

pub use context::async_token_views;
pub use context::is_dunder;
pub use context::lemma_visibility_convention;
pub use context::starts_single_underscore;
pub use context::visibility;
pub use context::visibility_of;
pub use context::visibility_token_views;
pub use context::CodeGenContext;
pub use context::PythonOptions;
pub use context::Visibility;
pub use errors::TranslationError;
pub use errors::TranslationErrorView;
pub use expr::expr_token_views;
pub use expr::op_char;
pub use expr::Expr;
pub use expr::ExprType;
pub use expr::Op;
pub use function_def::body_supported;
pub use function_def::body_token_views;
pub use function_def::doc_text;
pub use function_def::first_unsupported_stmt;
pub use function_def::fn_tail_views;
pub use function_def::fn_token_views;
pub use function_def::lemma_async_qualifier;
pub use function_def::lemma_statement_order;
pub use function_def::lemma_translation_deterministic;
pub use function_def::spec_docstring;
pub use function_def::translate_error_view;
pub use function_def::FunctionDef;
pub use parameters::first_unsupported_param;
pub use parameters::param_supported;
pub use parameters::param_token_views;
pub use parameters::params_supported;
pub use parameters::params_token_views;
pub use parameters::Parameter;
pub use parameters::ParameterList;
pub use statement::stmt_description;
pub use statement::stmt_supported;
pub use statement::stmt_token_views;
pub use statement::Statement;
pub use statement::StatementType;
pub use symbol_table::lemma_register_overwrite;
pub use symbol_table::scope_insert;
pub use symbol_table::scope_lookup;
pub use symbol_table::scope_unique;
pub use symbol_table::scopes_lookup;
pub use symbol_table::Binding;
pub use symbol_table::SymbolTable;
pub use symbol_table::SymbolTableNode;
pub use symbol_table::SymbolTableScopes;
pub use tokens::token_views;
pub use tokens::Token;
pub use tokens::TokenView;
