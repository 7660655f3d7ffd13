use py_codegen::CodeGenContext;
use py_codegen::Expr;
use py_codegen::ExprType;
use py_codegen::FunctionDef;
use py_codegen::Op;
use py_codegen::Parameter;
use py_codegen::ParameterList;
use py_codegen::PythonOptions;
use py_codegen::Statement;
use py_codegen::StatementType;
use py_codegen::SymbolTableScopes;
use py_codegen::Token;
use py_codegen::TranslationError;
use py_codegen::Visibility;

fn ident(s: &str) -> Token {
    Token::Ident(s.to_string())
}

fn named(s: &str) -> Parameter {
    Parameter { name: s.to_string(), annotation: None, default: None }
}

fn expr_stmt(e: ExprType) -> Statement {
    Statement { statement: StatementType::Expr(Expr { value: e }) }
}

fn pass_def(name: &str) -> FunctionDef {
    FunctionDef {
        name: name.to_string(),
        args: ParameterList { args: vec![] },
        body: vec![Statement { statement: StatementType::Pass }],
        decorator_list: vec![],
    }
}

fn translate(def: &FunctionDef, ctx: CodeGenContext) -> Result<Vec<Token>, TranslationError> {
    let options = PythonOptions::new();
    let symbols = SymbolTableScopes::new();
    def.to_rust(ctx, &options, &symbols)
}

#[test]
fn visibility_of_names() {
    assert_eq!(py_codegen::visibility("_helper"), Visibility::Private);
    assert_eq!(py_codegen::visibility("__init__"), Visibility::Internal);
    assert_eq!(py_codegen::visibility("run"), Visibility::Public);
    assert_eq!(py_codegen::visibility("_"), Visibility::Private);
    assert_eq!(py_codegen::visibility("__"), Visibility::Internal);
    assert_eq!(py_codegen::visibility("__helper"), Visibility::Public);
    assert_eq!(py_codegen::visibility(""), Visibility::Public);
}

#[test]
fn private_name_emits_no_qualifier() {
    let tokens = translate(&pass_def("_helper"), CodeGenContext::Module).unwrap();
    assert_eq!(
        tokens,
        vec![
            Token::Doc(String::new()),
            ident("fn"),
            ident("_helper"),
            Token::Punct('('),
            Token::Punct(')'),
            Token::Punct('{'),
            Token::Punct(';'),
            Token::Punct('}'),
        ]
    );
}

#[test]
fn dunder_name_emits_crate_visibility() {
    let tokens = translate(&pass_def("__init__"), CodeGenContext::Module).unwrap();
    assert_eq!(
        &tokens[..5],
        &[
            Token::Doc(String::new()),
            ident("pub"),
            Token::Punct('('),
            ident("crate"),
            Token::Punct(')'),
        ]
    );
}

#[test]
fn plain_name_emits_pub() {
    let tokens = translate(&pass_def("run"), CodeGenContext::Module).unwrap();
    assert_eq!(&tokens[..3], &[Token::Doc(String::new()), ident("pub"), ident("fn")]);
}

#[test]
fn async_context_adds_qualifier() {
    let sync_tokens = translate(&pass_def("run"), CodeGenContext::Synchronous).unwrap();
    let async_tokens = translate(&pass_def("run"), CodeGenContext::Asynchronous).unwrap();
    assert!(!sync_tokens.contains(&ident("async")));
    assert_eq!(async_tokens[2], ident("async"));
    // The two renderings differ only by the async qualifier.
    let mut spliced = async_tokens.clone();
    spliced.remove(2);
    assert_eq!(spliced, sync_tokens);
}

#[test]
fn module_context_is_not_async() {
    let tokens = translate(&pass_def("run"), CodeGenContext::Module).unwrap();
    assert!(!tokens.contains(&ident("async")));
}

#[test]
fn statement_order_is_source_order() {
    let def = FunctionDef {
        name: "f".to_string(),
        args: ParameterList { args: vec![] },
        body: vec![
            Statement {
                statement: StatementType::Assign {
                    target: "x".to_string(),
                    value: ExprType::Constant("1".to_string()),
                },
            },
            Statement {
                statement: StatementType::Assign {
                    target: "y".to_string(),
                    value: ExprType::Constant("2".to_string()),
                },
            },
            Statement {
                statement: StatementType::Return(Some(ExprType::Name("x".to_string()))),
            },
        ],
        decorator_list: vec![],
    };
    let tokens = translate(&def, CodeGenContext::Module).unwrap();
    let p1 = tokens.iter().position(|t| *t == Token::Literal("1".to_string())).unwrap();
    let p2 = tokens.iter().position(|t| *t == Token::Literal("2".to_string())).unwrap();
    let p3 = tokens.iter().position(|t| *t == ident("return")).unwrap();
    assert!(p1 < p2);
    assert!(p2 < p3);
}

#[test]
fn docstring_extracted_from_leading_constant() {
    let def = FunctionDef {
        name: "f".to_string(),
        args: ParameterList { args: vec![] },
        body: vec![
            expr_stmt(ExprType::Constant("hello".to_string())),
            Statement { statement: StatementType::Pass },
        ],
        decorator_list: vec![],
    };
    assert_eq!(def.get_docstring(), Some("hello".to_string()));
    let tokens = translate(&def, CodeGenContext::Module).unwrap();
    assert_eq!(tokens[0], Token::Doc("hello".to_string()));
}

#[test]
fn docstring_empty_without_leading_constant() {
    let def = FunctionDef {
        name: "f".to_string(),
        args: ParameterList { args: vec![] },
        body: vec![
            Statement {
                statement: StatementType::Assign {
                    target: "x".to_string(),
                    value: ExprType::Constant("1".to_string()),
                },
            },
            Statement { statement: StatementType::Pass },
        ],
        decorator_list: vec![],
    };
    assert_eq!(def.get_docstring(), None);
    let tokens = translate(&def, CodeGenContext::Module).unwrap();
    assert_eq!(tokens[0], Token::Doc(String::new()));
}

#[test]
fn docstring_absent_for_name_expression() {
    let def = FunctionDef {
        name: "f".to_string(),
        args: ParameterList { args: vec![] },
        body: vec![expr_stmt(ExprType::Name("x".to_string()))],
        decorator_list: vec![],
    };
    assert_eq!(def.get_docstring(), None);
}

fn make_twice() -> FunctionDef {
    FunctionDef {
        name: "twice".to_string(),
        args: ParameterList {
            args: vec![named("a")],
        },
        body: vec![
            expr_stmt(ExprType::Constant("doc".to_string())),
            Statement {
                statement: StatementType::Return(Some(ExprType::Name("a".to_string()))),
            },
        ],
        decorator_list: vec![],
    }
}

#[test]
fn translation_is_idempotent() {
    let first = translate(&make_twice(), CodeGenContext::Asynchronous).unwrap();
    let second = translate(&make_twice(), CodeGenContext::Asynchronous).unwrap();
    assert_eq!(first, second);
}

#[test]
fn unsupported_statement_fails_whole_function() {
    let def = FunctionDef {
        name: "f".to_string(),
        args: ParameterList { args: vec![] },
        body: vec![
            expr_stmt(ExprType::Constant("doc".to_string())),
            Statement { statement: StatementType::Unsupported("with block".to_string()) },
            Statement { statement: StatementType::Pass },
        ],
        decorator_list: vec![],
    };
    let err = translate(&def, CodeGenContext::Module).unwrap_err();
    assert_eq!(err, TranslationError::UnsupportedStatement("with block".to_string()));
    assert_eq!(err.description().as_str(), "with block");
}

#[test]
fn parameter_with_default_fails() {
    let def = FunctionDef {
        name: "f".to_string(),
        args: ParameterList {
            args: vec![
                named("a"),
                Parameter {
                    name: "b".to_string(),
                    annotation: None,
                    default: Some("0".to_string()),
                },
            ],
        },
        body: vec![Statement { statement: StatementType::Pass }],
        decorator_list: vec![],
    };
    let err = translate(&def, CodeGenContext::Module).unwrap_err();
    assert_eq!(err, TranslationError::UnsupportedParameter("b".to_string()));
}

#[test]
fn parameter_error_wins_over_statement_error() {
    let def = FunctionDef {
        name: "f".to_string(),
        args: ParameterList {
            args: vec![Parameter {
                name: "a".to_string(),
                annotation: None,
                default: Some("1".to_string()),
            }],
        },
        body: vec![Statement { statement: StatementType::Unsupported("import".to_string()) }],
        decorator_list: vec![],
    };
    let err = translate(&def, CodeGenContext::Module).unwrap_err();
    assert_eq!(err, TranslationError::UnsupportedParameter("a".to_string()));
}

#[test]
fn annotated_parameter_renders_with_colon() {
    let def = FunctionDef {
        name: "f".to_string(),
        args: ParameterList {
            args: vec![Parameter {
                name: "a".to_string(),
                annotation: Some("i64".to_string()),
                default: None,
            }],
        },
        body: vec![Statement { statement: StatementType::Pass }],
        decorator_list: vec![],
    };
    let tokens = translate(&def, CodeGenContext::Module).unwrap();
    let open = tokens.iter().position(|t| *t == Token::Punct('(')).unwrap();
    assert_eq!(
        &tokens[open + 1..open + 4],
        &[ident("a"), Token::Punct(':'), ident("i64")]
    );
}

#[test]
fn nested_binop_renders_in_evaluation_order() {
    let sum = ExprType::BinOp(
        Box::new(ExprType::BinOp(
            Box::new(ExprType::Name("a".to_string())),
            Op::Add,
            Box::new(ExprType::Name("b".to_string())),
        )),
        Op::Mult,
        Box::new(ExprType::Name("c".to_string())),
    );
    let def = FunctionDef {
        name: "f".to_string(),
        args: ParameterList { args: vec![] },
        body: vec![expr_stmt(sum)],
        decorator_list: vec![],
    };
    let tokens = translate(&def, CodeGenContext::Module).unwrap();
    let open = tokens.iter().position(|t| *t == Token::Punct('{')).unwrap();
    assert_eq!(
        &tokens[open + 1..open + 7],
        &[
            ident("a"),
            Token::Punct('+'),
            ident("b"),
            Token::Punct('*'),
            ident("c"),
            Token::Punct(';'),
        ]
    );
}

#[test]
fn end_to_end_add() {
    let def = FunctionDef {
        name: "add".to_string(),
        args: ParameterList {
            args: vec![named("a"), named("b")],
        },
        body: vec![Statement {
            statement: StatementType::Return(Some(ExprType::BinOp(
                Box::new(ExprType::Name("a".to_string())),
                Op::Add,
                Box::new(ExprType::Name("b".to_string())),
            ))),
        }],
        decorator_list: vec![],
    };
    let tokens = translate(&def, CodeGenContext::Synchronous).unwrap();
    assert_eq!(
        tokens,
        vec![
            Token::Doc(String::new()),
            ident("pub"),
            ident("fn"),
            ident("add"),
            Token::Punct('('),
            ident("a"),
            Token::Punct(','),
            ident("b"),
            Token::Punct(')'),
            Token::Punct('{'),
            ident("return"),
            ident("a"),
            Token::Punct('+'),
            ident("b"),
            Token::Punct(';'),
            Token::Punct('}'),
        ]
    );
}
