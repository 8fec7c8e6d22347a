use minic::frontend::ast::{Expr, Operator};
use minic::middle::semantic_analysis::{semantic_analysis, SymbolInfo, SymbolTable};

fn sem_text(s: &str) -> String {
    s.to_string()
}

fn sem_ok(s: &str) -> Result<String, String> {
    Ok(s.to_string())
}

fn sem_err(s: &str) -> Result<String, String> {
    Err(s.to_string())
}

fn sem_var(name: &str) -> Box<Expr> {
    Box::new(Expr::Variable(sem_text(name)))
}

fn sem_num(n: i32) -> Box<Expr> {
    Box::new(Expr::Number(n))
}

fn sem_declare(name: &str, typ: &str) -> Expr {
    Expr::VarDeclaration(sem_text(name), sem_text(typ))
}

fn sem_check(ast: &Expr) -> Result<String, String> {
    let mut table = SymbolTable::new();
    semantic_analysis(ast, &mut table)
}

fn sem_binary(l: Expr, op: Operator, r: Expr) -> Expr {
    Expr::Binary(Box::new(l), op, Box::new(r))
}

const ARITHMETIC: [Operator; 4] = [
    Operator::Add,
    Operator::Subtract,
    Operator::Multiply,
    Operator::Divide,
];

const COMPARISONS: [Operator; 6] = [
    Operator::GreaterThan,
    Operator::LessThan,
    Operator::LessThanEqual,
    Operator::Equal,
    Operator::GreaterThanEqual,
    Operator::NotEqual,
];

#[test]
fn literals_have_their_types() {
    assert_eq!(sem_check(&Expr::Number(7)), sem_ok("integer"));
    assert_eq!(sem_check(&Expr::Boolean(false)), sem_ok("bool"));
    assert_eq!(sem_check(&Expr::String(sem_text("hi"))), sem_ok("string"));
    assert_eq!(sem_check(&Expr::Semicolon(sem_text(";"))), sem_ok("void"));
    assert_eq!(sem_check(&Expr::PrintStr(sem_text("hi"))), sem_ok("void"));
}

#[test]
fn print_is_void_and_does_not_look_at_its_operand() {
    assert_eq!(sem_check(&Expr::Print(sem_var("nowhere"))), sem_ok("void"));
}

#[test]
fn variable_has_its_declared_type() {
    let mut table = SymbolTable::new();
    table.declare_variable(sem_text("x"), sem_text("point"));
    assert_eq!(
        semantic_analysis(&Expr::Variable(sem_text("x")), &mut table),
        sem_ok("point")
    );
}

#[test]
fn unknown_variable_is_an_error() {
    assert_eq!(
        sem_check(&Expr::Variable(sem_text("x"))),
        sem_err("Undefined variable 'x'")
    );
}

#[test]
fn declaration_yields_its_type_and_binds_the_name() {
    let mut table = SymbolTable::new();
    assert_eq!(
        semantic_analysis(&sem_declare("x", "integer"), &mut table),
        sem_ok("integer")
    );
    assert!(matches!(
        table.lookup_current_scope("x"),
        Some(SymbolInfo::Variable { typ }) if typ == "integer"
    ));
}

#[test]
fn second_declaration_in_one_scope_fails_whatever_its_type() {
    let ast = Expr::Statements(vec![sem_declare("x", "integer"), sem_declare("x", "bool")]);
    let mut table = SymbolTable::new();
    assert_eq!(
        semantic_analysis(&ast, &mut table),
        sem_err("Variable 'x' already declared")
    );
    assert_eq!(table.get_type("x"), sem_ok("integer"));
}

#[test]
fn initialized_declaration_of_a_bound_name_fails() {
    let ast = Expr::Statements(vec![
        sem_declare("x", "integer"),
        Expr::VarDeclarationWithAssignment(sem_text("x"), sem_text("integer"), sem_num(1)),
    ]);
    assert_eq!(sem_check(&ast), sem_err("Variable 'x' already declared"));
}

#[test]
fn function_may_shadow_a_global_name() {
    let ast = Expr::Program(vec![
        sem_declare("x", "integer"),
        Expr::FuncDef(
            sem_text("f"),
            sem_text("void"),
            vec![],
            Box::new(Expr::Statements(vec![
                sem_declare("x", "bool"),
                Expr::Variable(sem_text("x")),
            ])),
        ),
    ]);
    let mut table = SymbolTable::new();
    assert_eq!(semantic_analysis(&ast, &mut table), sem_ok("void"));
    // the scope of the function is gone, and the global binding is as it was
    assert_eq!(table.get_type("x"), sem_ok("integer"));
}

#[test]
fn parameter_may_shadow_a_global_name() {
    let ast = Expr::Program(vec![
        sem_declare("x", "integer"),
        Expr::FuncDef(
            sem_text("f"),
            sem_text("bool"),
            vec![(sem_text("x"), sem_text("bool"))],
            Box::new(Expr::Statements(vec![Expr::Return(sem_var("x"))])),
        ),
    ]);
    assert_eq!(sem_check(&ast), sem_ok("bool"));
}

#[test]
fn entry_function_starts_with_the_global_names_in_its_own_scope() {
    let uses_global = Expr::Program(vec![
        sem_declare("x", "integer"),
        Expr::MainFuncDef(Box::new(Expr::Statements(vec![Expr::Assign(
            sem_var("x"),
            sem_num(3),
        )]))),
    ]);
    assert_eq!(sem_check(&uses_global), sem_ok("void"));
    let redeclares_global = Expr::Program(vec![
        sem_declare("x", "integer"),
        Expr::MainFuncDef(Box::new(Expr::Statements(vec![sem_declare("x", "integer")]))),
    ]);
    assert_eq!(
        sem_check(&redeclares_global),
        sem_err("Variable 'x' already declared")
    );
}

#[test]
fn arithmetic_on_integers_is_an_integer() {
    for op in ARITHMETIC {
        let ast = sem_binary(Expr::Number(1), op, Expr::Number(2));
        assert_eq!(sem_check(&ast), sem_ok("integer"));
    }
}

#[test]
fn arithmetic_on_anything_else_is_refused() {
    for op in ARITHMETIC {
        let ast = sem_binary(Expr::Boolean(true), op, Expr::Boolean(false));
        assert_eq!(sem_check(&ast), sem_err("Not supported operation"));
        let ast = sem_binary(Expr::String(sem_text("a")), op, Expr::String(sem_text("b")));
        assert_eq!(sem_check(&ast), sem_err("Not supported operation"));
    }
}

#[test]
fn comparison_of_operands_of_one_type_is_a_boolean() {
    for op in COMPARISONS {
        let ast = sem_binary(Expr::Number(1), op, Expr::Number(2));
        assert_eq!(sem_check(&ast), sem_ok("bool"));
        let ast = sem_binary(Expr::Boolean(true), op, Expr::Boolean(true));
        assert_eq!(sem_check(&ast), sem_ok("bool"));
    }
}

#[test]
fn operands_of_different_types_are_refused() {
    for op in ARITHMETIC.iter().chain(COMPARISONS.iter()) {
        let ast = sem_binary(Expr::Number(1), *op, Expr::Boolean(true));
        assert_eq!(sem_check(&ast), sem_err("Type mismatch in binary operation"));
    }
}

#[test]
fn error_in_an_operand_is_the_error_of_the_operation() {
    let ast = sem_binary(Expr::Variable(sem_text("a")), Operator::Add, Expr::Number(1));
    assert_eq!(sem_check(&ast), sem_err("Undefined variable 'a'"));
    let ast = sem_binary(Expr::Number(1), Operator::Add, Expr::Variable(sem_text("b")));
    assert_eq!(sem_check(&ast), sem_err("Undefined variable 'b'"));
}

#[test]
fn assignment_has_the_type_of_its_target() {
    let ast = Expr::Statements(vec![
        sem_declare("x", "integer"),
        Expr::Assign(sem_var("x"), sem_num(4)),
    ]);
    assert_eq!(sem_check(&ast), sem_ok("integer"));
}

#[test]
fn assignment_of_another_type_is_refused() {
    let ast = Expr::Statements(vec![
        sem_declare("x", "integer"),
        Expr::Assign(sem_var("x"), Box::new(Expr::Boolean(true))),
    ]);
    assert_eq!(
        sem_check(&ast),
        sem_err("Type mismatch in assignment: bool to integer")
    );
}

#[test]
fn assignment_to_an_unknown_variable_is_refused() {
    let ast = Expr::Assign(sem_var("x"), sem_num(4));
    assert_eq!(
        sem_check(&ast),
        sem_err("Variable 'x' not found in any scope")
    );
}

#[test]
fn assignment_to_something_else_than_a_variable_is_refused() {
    let ast = Expr::Assign(sem_num(1), sem_num(4));
    assert_eq!(sem_check(&ast), sem_err("Left-hand side must be a variable"));
}

#[test]
fn initialized_declaration_checks_the_value_and_then_declares() {
    let ast = Expr::VarDeclarationWithAssignment(sem_text("x"), sem_text("integer"), sem_num(5));
    let mut table = SymbolTable::new();
    assert_eq!(semantic_analysis(&ast, &mut table), sem_ok("integer"));
    assert_eq!(table.get_type("x"), sem_ok("integer"));
    let uses_itself = Expr::VarDeclarationWithAssignment(
        sem_text("y"),
        sem_text("integer"),
        sem_var("y"),
    );
    assert_eq!(sem_check(&uses_itself), sem_err("Undefined variable 'y'"));
}

#[test]
fn user_types_are_labels_that_must_match_exactly() {
    let ast = Expr::Statements(vec![
        sem_declare("a", "point"),
        sem_declare("b", "Point"),
        Expr::Assign(sem_var("a"), sem_var("b")),
    ]);
    assert_eq!(
        sem_check(&ast),
        sem_err("Type mismatch in assignment: Point to point")
    );
}

#[test]
fn function_with_a_trailing_return_of_its_type_is_accepted() {
    let ast = Expr::FuncDef(
        sem_text("one"),
        sem_text("integer"),
        vec![],
        Box::new(Expr::Statements(vec![Expr::Return(sem_num(1))])),
    );
    let mut table = SymbolTable::new();
    assert_eq!(semantic_analysis(&ast, &mut table), sem_ok("integer"));
    assert_eq!(table.get_type("one"), sem_ok("integer"));
}

#[test]
fn function_with_a_trailing_return_of_another_type_is_refused() {
    let ast = Expr::FuncDef(
        sem_text("one"),
        sem_text("integer"),
        vec![],
        Box::new(Expr::Statements(vec![Expr::Return(Box::new(Expr::Boolean(true)))])),
    );
    assert_eq!(
        sem_check(&ast),
        sem_err("Return type mismatch in function 'one': expected 'integer', found 'bool'")
    );
}

#[test]
fn function_without_a_trailing_return_must_be_void() {
    let body = || Box::new(Expr::Statements(vec![Expr::PrintStr(sem_text("hi"))]));
    let void = Expr::FuncDef(sem_text("f"), sem_text("void"), vec![], body());
    assert_eq!(sem_check(&void), sem_ok("void"));
    let integer = Expr::FuncDef(sem_text("f"), sem_text("integer"), vec![], body());
    assert_eq!(
        sem_check(&integer),
        sem_err("Return in function 'f' not specified : expected 'integer', found 'void'")
    );
    let empty = Expr::FuncDef(
        sem_text("g"),
        sem_text("integer"),
        vec![],
        Box::new(Expr::Statements(vec![])),
    );
    assert_eq!(
        sem_check(&empty),
        sem_err("Return in function 'g' not specified : expected 'integer', found ''")
    );
}

#[test]
fn function_body_must_be_a_block() {
    let ast = Expr::FuncDef(sem_text("f"), sem_text("integer"), vec![], sem_num(1));
    assert_eq!(
        sem_check(&ast),
        sem_err("Function 'f' body must be a block of statements")
    );
}

#[test]
fn function_is_declared_once_in_a_scope() {
    let define = || {
        Expr::FuncDef(
            sem_text("f"),
            sem_text("void"),
            vec![],
            Box::new(Expr::Statements(vec![])),
        )
    };
    let ast = Expr::Program(vec![define(), define()]);
    assert_eq!(sem_check(&ast), sem_err("Function 'f' already declared"));
    let after_variable = Expr::Program(vec![sem_declare("f", "integer"), define()]);
    assert_eq!(
        sem_check(&after_variable),
        sem_err("Function 'f' already declared")
    );
}

#[test]
fn function_may_call_itself() {
    let ast = Expr::FuncDef(
        sem_text("f"),
        sem_text("integer"),
        vec![(sem_text("n"), sem_text("integer"))],
        Box::new(Expr::Statements(vec![Expr::Return(Box::new(Expr::FuncCall(
            sem_text("f"),
            vec![Expr::Variable(sem_text("n"))],
        )))])),
    );
    assert_eq!(sem_check(&ast), sem_ok("integer"));
}

#[test]
fn entry_function_is_void_and_declared_once() {
    let main = || Expr::MainFuncDef(Box::new(Expr::Statements(vec![Expr::Return(sem_num(1))])));
    let mut table = SymbolTable::new();
    assert_eq!(semantic_analysis(&main(), &mut table), sem_ok("void"));
    assert_eq!(table.get_type("main"), sem_ok("void"));
    assert_eq!(
        semantic_analysis(&main(), &mut table),
        sem_err("Main function already declared")
    );
}

#[test]
fn call_of_a_declared_function_is_an_integer() {
    let mut table = SymbolTable::new();
    table.declare_function(sem_text("f"), sem_text("bool"), vec![]);
    let call = Expr::FuncCall(sem_text("f"), vec![Expr::Variable(sem_text("unknown"))]);
    assert_eq!(semantic_analysis(&call, &mut table), sem_ok("integer"));
}

#[test]
fn call_of_an_unknown_function_is_refused() {
    let call = Expr::FuncCall(sem_text("f"), vec![]);
    assert_eq!(sem_check(&call), sem_err("Function 'f' isn't declared"));
}

#[test]
fn return_has_the_type_of_its_value() {
    assert_eq!(
        sem_check(&Expr::Return(Box::new(Expr::Boolean(true)))),
        sem_ok("bool")
    );
}

#[test]
fn conditional_needs_a_boolean_condition() {
    let ast = Expr::If(sem_num(1), sem_num(2), None);
    assert_eq!(
        sem_check(&ast),
        sem_err("Expected condition to be bool, found integer")
    );
}

#[test]
fn conditional_has_the_type_of_its_first_branch() {
    let ast = Expr::If(
        Box::new(Expr::Boolean(true)),
        sem_num(2),
        Some(Box::new(Expr::String(sem_text("other")))),
    );
    assert_eq!(sem_check(&ast), sem_ok("integer"));
    let without_else = Expr::If(
        Box::new(Expr::Boolean(true)),
        Box::new(Expr::PrintStr(sem_text("x"))),
        None,
    );
    assert_eq!(sem_check(&without_else), sem_ok("void"));
}

#[test]
fn error_in_a_branch_is_the_error_of_the_conditional() {
    let ast = Expr::If(
        Box::new(Expr::Boolean(true)),
        sem_num(2),
        Some(sem_var("missing")),
    );
    assert_eq!(sem_check(&ast), sem_err("Undefined variable 'missing'"));
}

#[test]
fn loop_needs_a_boolean_condition_and_is_void() {
    let ast = Expr::While(sem_num(1), sem_num(2));
    assert_eq!(
        sem_check(&ast),
        sem_err("Expected condition to be bool, found integer")
    );
    let ast = Expr::While(
        Box::new(sem_binary(Expr::Number(1), Operator::LessThan, Expr::Number(2))),
        sem_num(2),
    );
    assert_eq!(sem_check(&ast), sem_ok("void"));
}

#[test]
fn block_has_the_type_of_its_last_statement() {
    assert_eq!(sem_check(&Expr::Statements(vec![])), sem_ok(""));
    assert_eq!(sem_check(&Expr::Program(vec![])), sem_ok(""));
    let ast = Expr::Program(vec![Expr::Number(1), Expr::Boolean(true)]);
    assert_eq!(sem_check(&ast), sem_ok("bool"));
}

#[test]
fn first_error_ends_the_analysis() {
    let ast = Expr::Program(vec![
        Expr::Variable(sem_text("a")),
        sem_declare("late", "integer"),
        Expr::Variable(sem_text("b")),
    ]);
    let mut table = SymbolTable::new();
    assert_eq!(
        semantic_analysis(&ast, &mut table),
        sem_err("Undefined variable 'a'")
    );
    assert!(table.lookup("late").is_none());
}

#[test]
fn failed_function_leaves_its_scope_on_the_table() {
    let ast = Expr::FuncDef(
        sem_text("f"),
        sem_text("integer"),
        vec![(sem_text("p"), sem_text("integer"))],
        Box::new(Expr::Statements(vec![Expr::Variable(sem_text("missing"))])),
    );
    let mut table = SymbolTable::new();
    assert_eq!(
        semantic_analysis(&ast, &mut table),
        sem_err("Undefined variable 'missing'")
    );
    assert!(table.lookup_current_scope("p").is_some());
    assert!(table.lookup_current_scope("f").is_none());
    assert!(table.lookup("f").is_some());
}
