use py_codegen::ExprType;
use py_codegen::FunctionDef;
use py_codegen::ParameterList;
use py_codegen::Statement;
use py_codegen::StatementType;
use py_codegen::SymbolTableNode;
use py_codegen::SymbolTableScopes;

fn def_returning(name: &str, constant: &str) -> FunctionDef {
    FunctionDef {
        name: name.to_string(),
        args: ParameterList { args: vec![] },
        body: vec![Statement {
            statement: StatementType::Return(Some(ExprType::Constant(constant.to_string()))),
        }],
        decorator_list: vec![],
    }
}

fn resolved_constant(table: &SymbolTableScopes, name: &str) -> Option<String> {
    match table.lookup(&name.to_string()) {
        Some(SymbolTableNode::FunctionDef(d)) => match &d.body[0].statement {
            StatementType::Return(Some(ExprType::Constant(c))) => Some(c.clone()),
            _ => None,
        },
        None => None,
    }
}

#[test]
fn registered_name_resolves() {
    let table = SymbolTableScopes::new();
    let table = def_returning("f", "1").find_symbols(table);
    assert_eq!(resolved_constant(&table, "f"), Some("1".to_string()));
    assert!(table.lookup(&"g".to_string()).is_none());
}

#[test]
fn registration_overwrites_previous_binding() {
    let table = SymbolTableScopes::new();
    let table = def_returning("f", "1").find_symbols(table);
    let table = def_returning("f", "2").find_symbols(table);
    // Only the second body is resolvable; the first is gone.
    assert_eq!(resolved_constant(&table, "f"), Some("2".to_string()));
}

#[test]
fn registration_keeps_other_names() {
    let table = SymbolTableScopes::new();
    let table = def_returning("f", "1").find_symbols(table);
    let table = def_returning("g", "2").find_symbols(table);
    assert_eq!(resolved_constant(&table, "f"), Some("1".to_string()));
    assert_eq!(resolved_constant(&table, "g"), Some("2".to_string()));
}

#[test]
fn inner_scope_shadows_and_pops() {
    let mut table = SymbolTableScopes::new();
    table.insert(
        "f".to_string(),
        SymbolTableNode::FunctionDef(def_returning("f", "outer")),
    );
    table.new_scope();
    table.insert(
        "f".to_string(),
        SymbolTableNode::FunctionDef(def_returning("f", "inner")),
    );
    assert_eq!(resolved_constant(&table, "f"), Some("inner".to_string()));
    table.pop_scope();
    assert_eq!(resolved_constant(&table, "f"), Some("outer".to_string()));
}

#[test]
fn outer_binding_visible_from_inner_scope() {
    let mut table = SymbolTableScopes::new();
    table.insert(
        "f".to_string(),
        SymbolTableNode::FunctionDef(def_returning("f", "outer")),
    );
    table.new_scope();
    assert_eq!(resolved_constant(&table, "f"), Some("outer".to_string()));
}
