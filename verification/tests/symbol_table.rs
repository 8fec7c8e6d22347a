use minic::frontend::ast::Expr;
use minic::middle::semantic_analysis::{semantic_analysis, SymbolInfo, SymbolTable};

fn table_text(s: &str) -> String {
    s.to_string()
}

/// A table with one scope above the global one, which holds the variable
/// `inner_name` of the type `integer`: what is left when the analysis of a
/// function fails after its parameters were declared.
fn table_with_open_scope(table: &mut SymbolTable, inner_name: &str) {
    let broken = Expr::FuncDef(
        table_text("f"),
        table_text("void"),
        vec![(table_text(inner_name), table_text("integer"))],
        Box::new(Expr::Number(1)),
    );
    assert_eq!(
        semantic_analysis(&broken, table),
        Err(table_text("Function 'f' body must be a block of statements"))
    );
}

#[test]
fn new_table_resolves_nothing() {
    let table = SymbolTable::new();
    assert!(table.lookup("x").is_none());
    assert!(table.lookup_current_scope("x").is_none());
    assert_eq!(
        table.get_type("x"),
        Err(table_text("Variable 'x' not found in any scope"))
    );
    assert_eq!(
        table.get_bool_value("x"),
        Err(table_text("Boolean 'x' not found in any scope"))
    );
}

#[test]
fn declared_variable_is_found_with_its_type() {
    let mut table = SymbolTable::new();
    table.declare_variable(table_text("x"), table_text("integer"));
    assert!(matches!(
        table.lookup("x"),
        Some(SymbolInfo::Variable { typ }) if typ == "integer"
    ));
    assert!(matches!(
        table.lookup_current_scope("x"),
        Some(SymbolInfo::Variable { typ }) if typ == "integer"
    ));
    assert_eq!(table.get_type("x"), Ok(table_text("integer")));
    assert!(table.lookup("y").is_none());
}

#[test]
fn later_declaration_replaces_the_earlier_one() {
    let mut table = SymbolTable::new();
    table.declare_variable(table_text("x"), table_text("integer"));
    table.declare_variable(table_text("y"), table_text("string"));
    table.declare_variable(table_text("x"), table_text("bool"));
    assert_eq!(table.get_type("x"), Ok(table_text("bool")));
    assert_eq!(table.get_type("y"), Ok(table_text("string")));
}

#[test]
fn declared_function_has_its_return_type_and_parameters() {
    let mut table = SymbolTable::new();
    table.declare_function(
        table_text("add"),
        table_text("integer"),
        vec![(table_text("a"), table_text("integer"))],
    );
    assert_eq!(table.get_type("add"), Ok(table_text("integer")));
    match table.lookup("add") {
        Some(SymbolInfo::Function {
            ret_type,
            param_types,
        }) => {
            assert_eq!(ret_type, "integer");
            assert_eq!(
                param_types,
                &vec![(table_text("a"), table_text("integer"))]
            );
        }
        _ => panic!("add should be a function"),
    }
}

#[test]
fn declared_boolean_has_its_value_and_the_type_of_a_constant() {
    let mut table = SymbolTable::new();
    table.declare_boolean(table_text("on"), true);
    table.declare_boolean(table_text("off"), false);
    assert_eq!(table.get_bool_value("on"), Ok(true));
    assert_eq!(table.get_bool_value("off"), Ok(false));
    assert_eq!(table.get_type("on"), Ok(table_text("{}")));
    assert!(matches!(
        table.lookup("off"),
        Some(SymbolInfo::Boolean { value: false })
    ));
}

#[test]
fn variable_is_no_boolean_constant() {
    let mut table = SymbolTable::new();
    table.declare_variable(table_text("x"), table_text("bool"));
    assert_eq!(
        table.get_bool_value("x"),
        Err(table_text("Boolean 'x' not found in any scope"))
    );
}

#[test]
fn inner_scope_hides_the_outer_binding() {
    let mut table = SymbolTable::new();
    table.declare_variable(table_text("p"), table_text("string"));
    table_with_open_scope(&mut table, "p");
    assert_eq!(table.get_type("p"), Ok(table_text("integer")));
    assert!(matches!(
        table.lookup_current_scope("p"),
        Some(SymbolInfo::Variable { typ }) if typ == "integer"
    ));
    // the function itself was declared in the global scope, below the current one
    assert!(table.lookup_current_scope("f").is_none());
    assert_eq!(table.get_type("f"), Ok(table_text("void")));
}

#[test]
fn boolean_lookup_passes_over_scopes_that_bind_something_else() {
    let mut table = SymbolTable::new();
    table.declare_boolean(table_text("flag"), true);
    table_with_open_scope(&mut table, "flag");
    assert_eq!(table.get_type("flag"), Ok(table_text("integer")));
    assert_eq!(table.get_bool_value("flag"), Ok(true));
}

#[test]
fn declaration_goes_to_the_current_scope() {
    let mut table = SymbolTable::new();
    table_with_open_scope(&mut table, "p");
    table.declare_variable(table_text("local"), table_text("integer"));
    assert!(table.lookup_current_scope("local").is_some());
    assert!(table.lookup_current_scope("p").is_some());
}

#[test]
fn importing_globals_into_the_global_scope_changes_nothing() {
    let mut table = SymbolTable::new();
    table.declare_variable(table_text("g"), table_text("integer"));
    table.add_fncs_g_variables();
    assert_eq!(table.get_type("g"), Ok(table_text("integer")));
    assert!(table.lookup("h").is_none());
}

#[test]
fn importing_globals_copies_them_over_the_current_scope() {
    let mut table = SymbolTable::new();
    table.declare_variable(table_text("g"), table_text("integer"));
    table.declare_variable(table_text("p"), table_text("string"));
    table_with_open_scope(&mut table, "p");
    assert!(table.lookup_current_scope("g").is_none());
    table.add_fncs_g_variables();
    assert!(matches!(
        table.lookup_current_scope("g"),
        Some(SymbolInfo::Variable { typ }) if typ == "integer"
    ));
    // the global binding of `p` replaces the parameter of the same name
    assert!(matches!(
        table.lookup_current_scope("p"),
        Some(SymbolInfo::Variable { typ }) if typ == "string"
    ));
    assert!(table.lookup_current_scope("f").is_some());
}
