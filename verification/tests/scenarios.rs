use minic::backend::x86_assembler_generator::{generate_assembly, try_generate_assembly};
use minic::frontend::ast::{Expr, Operator};
use minic::middle::ir::{generate_ir, try_generate_ir, IRInstruction, IRValue, Opcode};
use minic::middle::semantic_analysis::{semantic_analysis, SymbolTable};
use minic::middle::tac_printer::print_ir;

fn scenario_text(s: &str) -> String {
    s.to_string()
}

fn scenario_number(n: i32) -> Box<Expr> {
    Box::new(Expr::Number(n))
}

fn scenario_variable(name: &str) -> Box<Expr> {
    Box::new(Expr::Variable(scenario_text(name)))
}

fn scenario_instr(opcode: Opcode, operands: Vec<IRValue>) -> IRInstruction {
    IRInstruction { opcode, operands }
}

fn scenario_main(body: Vec<Expr>) -> Expr {
    Expr::Program(vec![Expr::MainFuncDef(Box::new(Expr::Statements(body)))])
}

/// `main { print(1+2); }`
fn scenario_print_sum() -> Expr {
    scenario_main(vec![Expr::Print(Box::new(Expr::Binary(
        scenario_number(1),
        Operator::Add,
        scenario_number(2),
    )))])
}

/// `main { let x: integer = 5; while (x > 0) { print(x); x = x - 1; } }`
fn scenario_countdown() -> Expr {
    scenario_main(vec![
        Expr::VarDeclarationWithAssignment(
            scenario_text("x"),
            scenario_text("integer"),
            scenario_number(5),
        ),
        Expr::While(
            Box::new(Expr::Binary(
                scenario_variable("x"),
                Operator::GreaterThan,
                scenario_number(0),
            )),
            Box::new(Expr::Statements(vec![
                Expr::Print(scenario_variable("x")),
                Expr::Assign(
                    scenario_variable("x"),
                    Box::new(Expr::Binary(
                        scenario_variable("x"),
                        Operator::Subtract,
                        scenario_number(1),
                    )),
                ),
            ])),
        ),
    ])
}

/// `func add(a:integer,b:integer):integer { return a+b; } main { print(add(7,8)); }`
fn scenario_call() -> Expr {
    Expr::Program(vec![
        Expr::FuncDef(
            scenario_text("add"),
            scenario_text("integer"),
            vec![
                (scenario_text("a"), scenario_text("integer")),
                (scenario_text("b"), scenario_text("integer")),
            ],
            Box::new(Expr::Statements(vec![Expr::Return(Box::new(Expr::Binary(
                scenario_variable("a"),
                Operator::Add,
                scenario_variable("b"),
            )))])),
        ),
        Expr::MainFuncDef(Box::new(Expr::Statements(vec![Expr::Print(Box::new(
            Expr::FuncCall(
                scenario_text("add"),
                vec![Expr::Number(7), Expr::Number(8)],
            ),
        ))]))),
    ])
}

/// `main { if (2 == 2) printstr("ok"); else printstr("no"); }`
fn scenario_branch() -> Expr {
    scenario_main(vec![Expr::If(
        Box::new(Expr::Binary(
            scenario_number(2),
            Operator::Equal,
            scenario_number(2),
        )),
        Box::new(Expr::PrintStr(scenario_text("ok"))),
        Some(Box::new(Expr::PrintStr(scenario_text("no")))),
    )])
}

const TRAMPOLINE: &str =
    "_start:\n    call main\n    mov rdi, rax\n    mov rax, 60\n    syscall\n";

#[test]
fn print_of_a_sum_is_accepted_and_compiled() {
    let ast = scenario_print_sum();
    let mut table = SymbolTable::new();
    assert_eq!(semantic_analysis(&ast, &mut table), Ok(scenario_text("void")));
    let ir = generate_ir(&ast);
    assert_eq!(
        ir,
        vec![
            scenario_instr(Opcode::FuncDef, vec![IRValue::FuncName(scenario_text("main"))]),
            scenario_instr(
                Opcode::LoadConst,
                vec![IRValue::Number(1), IRValue::TempReg(0)]
            ),
            scenario_instr(
                Opcode::Add,
                vec![IRValue::TempReg(0), IRValue::Number(2), IRValue::TempReg(1)]
            ),
            scenario_instr(Opcode::PrintVar, vec![IRValue::TempReg(1)]),
            scenario_instr(Opcode::Return, vec![IRValue::Number(0)]),
        ]
    );
    let expected = format!(
        "{}{}{}{}",
        "section .data\nformat db \"%d\", 10, 0\nstr_format db \"%s\", 10, 0\n",
        "\nsection .text\nglobal _start\nextern printf\n",
        "main:\n    push rbp\n    mov rbp, rsp\n    sub rsp, 0\n    mov rax, 1\n    mov rbx, rax\n    add rbx, 2\n    mov rdi, format\n    mov rsi, rbx\n    xor rax, rax\n    call printf\n    mov rax, 0\n    leave\n    ret\n",
        TRAMPOLINE
    );
    assert_eq!(generate_assembly(&ir), expected);
}

#[test]
fn countdown_loop_is_accepted_and_compiled() {
    let ast = scenario_countdown();
    let mut table = SymbolTable::new();
    assert_eq!(semantic_analysis(&ast, &mut table), Ok(scenario_text("void")));
    let ir = generate_ir(&ast);
    let x = || IRValue::Variable(scenario_text("x"));
    assert_eq!(
        ir,
        vec![
            scenario_instr(Opcode::FuncDef, vec![IRValue::FuncName(scenario_text("main"))]),
            scenario_instr(
                Opcode::DeclareVar,
                vec![x(), IRValue::Variable(scenario_text("integer"))]
            ),
            scenario_instr(
                Opcode::LoadConst,
                vec![IRValue::Number(5), IRValue::TempReg(0)]
            ),
            scenario_instr(Opcode::StoreVar, vec![IRValue::TempReg(0), x()]),
            scenario_instr(Opcode::Label, vec![IRValue::Label(0)]),
            scenario_instr(Opcode::LoadVar, vec![x(), IRValue::TempReg(1)]),
            scenario_instr(
                Opcode::GreaterThan,
                vec![IRValue::TempReg(1), IRValue::Number(0), IRValue::TempReg(2)]
            ),
            scenario_instr(
                Opcode::JumpGreaterThan,
                vec![IRValue::TempReg(2), IRValue::Label(1)]
            ),
            scenario_instr(Opcode::LoadVar, vec![x(), IRValue::TempReg(3)]),
            scenario_instr(Opcode::PrintVar, vec![IRValue::TempReg(3)]),
            scenario_instr(Opcode::LoadVar, vec![x(), IRValue::TempReg(4)]),
            scenario_instr(
                Opcode::Sub,
                vec![IRValue::TempReg(4), IRValue::Number(1), IRValue::TempReg(5)]
            ),
            scenario_instr(Opcode::StoreVar, vec![IRValue::TempReg(5), x()]),
            scenario_instr(Opcode::Jump, vec![IRValue::Label(0)]),
            scenario_instr(Opcode::Label, vec![IRValue::Label(1)]),
            scenario_instr(Opcode::Return, vec![IRValue::Number(0)]),
        ]
    );
    let expected = format!(
        "{}{}{}{}",
        "section .data\nformat db \"%d\", 10, 0\nstr_format db \"%s\", 10, 0\n",
        "\nsection .text\nglobal _start\nextern printf\n",
        "main:\n    push rbp\n    mov rbp, rsp\n    sub rsp, 16\n    mov rax, 5\n    mov [rbp-8], rax\nlabel_0:\n    mov rbx, [rbp-8]\n    cmp rbx, 0\n    jle label_1\n    mov rdx, [rbp-8]\n    mov rdi, format\n    mov rsi, rdx\n    xor rax, rax\n    call printf\n    mov rsi, [rbp-8]\n    mov rdi, rsi\n    sub rdi, 1\n    mov [rbp-8], rdi\n    jmp label_0\nlabel_1:\n    mov rax, 0\n    leave\n    ret\n",
        TRAMPOLINE
    );
    assert_eq!(generate_assembly(&ir), expected);
}

#[test]
fn call_of_a_function_is_accepted_and_compiled() {
    let ast = scenario_call();
    let mut table = SymbolTable::new();
    assert_eq!(semantic_analysis(&ast, &mut table), Ok(scenario_text("void")));
    assert_eq!(table.get_type("add"), Ok(scenario_text("integer")));
    let ir = generate_ir(&ast);
    let var = |name: &str| IRValue::Variable(scenario_text(name));
    assert_eq!(
        ir,
        vec![
            scenario_instr(Opcode::FuncDef, vec![IRValue::FuncName(scenario_text("add"))]),
            scenario_instr(Opcode::DeclareVar, vec![var("a"), var("integer")]),
            scenario_instr(Opcode::Param, vec![IRValue::Number(0), var("a")]),
            scenario_instr(Opcode::DeclareVar, vec![var("b"), var("integer")]),
            scenario_instr(Opcode::Param, vec![IRValue::Number(1), var("b")]),
            scenario_instr(Opcode::LoadVar, vec![var("a"), IRValue::TempReg(0)]),
            scenario_instr(Opcode::LoadVar, vec![var("b"), IRValue::TempReg(1)]),
            scenario_instr(
                Opcode::Add,
                vec![IRValue::TempReg(0), IRValue::TempReg(1), IRValue::TempReg(2)]
            ),
            scenario_instr(Opcode::Return, vec![IRValue::TempReg(2)]),
            scenario_instr(Opcode::FuncDef, vec![IRValue::FuncName(scenario_text("main"))]),
            scenario_instr(
                Opcode::LoadConst,
                vec![IRValue::Number(7), IRValue::TempReg(3)]
            ),
            scenario_instr(Opcode::Param, vec![IRValue::Number(0), IRValue::TempReg(3)]),
            scenario_instr(
                Opcode::LoadConst,
                vec![IRValue::Number(8), IRValue::TempReg(4)]
            ),
            scenario_instr(Opcode::Param, vec![IRValue::Number(1), IRValue::TempReg(4)]),
            scenario_instr(
                Opcode::FuncCall,
                vec![IRValue::FuncName(scenario_text("add")), IRValue::TempReg(5)]
            ),
            scenario_instr(Opcode::PrintVar, vec![IRValue::TempReg(5)]),
            scenario_instr(Opcode::Return, vec![IRValue::Number(0)]),
        ]
    );
    let expected = format!(
        "{}{}{}{}{}",
        "section .data\nformat db \"%d\", 10, 0\nstr_format db \"%s\", 10, 0\n",
        "\nsection .text\nglobal _start\nextern printf\n",
        "add:\n    push rbp\n    mov rbp, rsp\n    sub rsp, 16\n    mov [rbp-8], rdi\n    mov [rbp-16], rsi\n    mov rax, [rbp-8]\n    mov rbx, [rbp-16]\n    mov rcx, rax\n    add rcx, rbx\n    mov rax, rcx\n    leave\n    ret\n",
        "main:\n    push rbp\n    mov rbp, rsp\n    sub rsp, 16\n    mov rdx, 7\n    mov rdi, rdx\n    mov rsi, 8\n    mov rsi, rsi\n    call add\n    mov rdi, rax\n    mov rdi, format\n    mov rsi, rdi\n    xor rax, rax\n    call printf\n    mov rax, 0\n    leave\n    ret\n",
        TRAMPOLINE
    );
    assert_eq!(generate_assembly(&ir), expected);
}

#[test]
fn branch_on_an_equality_is_accepted_and_compiled() {
    let ast = scenario_branch();
    let mut table = SymbolTable::new();
    assert_eq!(semantic_analysis(&ast, &mut table), Ok(scenario_text("void")));
    let ir = generate_ir(&ast);
    assert_eq!(
        ir,
        vec![
            scenario_instr(Opcode::FuncDef, vec![IRValue::FuncName(scenario_text("main"))]),
            scenario_instr(
                Opcode::LoadConst,
                vec![IRValue::Number(2), IRValue::TempReg(0)]
            ),
            scenario_instr(
                Opcode::Equal,
                vec![IRValue::TempReg(0), IRValue::Number(2), IRValue::TempReg(1)]
            ),
            scenario_instr(
                Opcode::JumpEqual,
                vec![IRValue::TempReg(1), IRValue::Label(0)]
            ),
            scenario_instr(Opcode::PrintStr, vec![IRValue::Str(scenario_text("ok"))]),
            scenario_instr(Opcode::Jump, vec![IRValue::Label(1)]),
            scenario_instr(Opcode::Label, vec![IRValue::Label(0)]),
            scenario_instr(Opcode::PrintStr, vec![IRValue::Str(scenario_text("no"))]),
            scenario_instr(Opcode::Label, vec![IRValue::Label(1)]),
            scenario_instr(Opcode::Return, vec![IRValue::Number(0)]),
        ]
    );
    let expected = format!(
        "{}{}{}{}",
        "section .data\nstr_0 db \"ok\", 0\nstr_1 db \"no\", 0\nformat db \"%d\", 10, 0\nstr_format db \"%s\", 10, 0\n",
        "\nsection .text\nglobal _start\nextern printf\n",
        "main:\n    push rbp\n    mov rbp, rsp\n    sub rsp, 0\n    mov rax, 2\n    cmp rax, 2\n    jne label_0\n    mov rdi, str_format\n    lea rsi, [str_0]\n    xor rax, rax\n    call printf\n    jmp label_1\nlabel_0:\n    mov rdi, str_format\n    lea rsi, [str_1]\n    xor rax, rax\n    call printf\nlabel_1:\n    mov rax, 0\n    leave\n    ret\n",
        TRAMPOLINE
    );
    assert_eq!(try_generate_assembly(&ir), Some(expected));
}

#[test]
fn redeclaration_is_a_semantic_error_that_names_the_variable() {
    let ast = Expr::Program(vec![
        Expr::VarDeclaration(scenario_text("x"), scenario_text("integer")),
        Expr::VarDeclaration(scenario_text("x"), scenario_text("integer")),
    ]);
    let mut table = SymbolTable::new();
    let found = semantic_analysis(&ast, &mut table);
    assert_eq!(found, Err(scenario_text("Variable 'x' already declared")));
    assert!(found.unwrap_err().contains("x"));
}

#[test]
fn boolean_initial_value_of_an_integer_is_a_type_mismatch() {
    let ast = Expr::VarDeclarationWithAssignment(
        scenario_text("x"),
        scenario_text("integer"),
        Box::new(Expr::Boolean(true)),
    );
    let mut table = SymbolTable::new();
    assert_eq!(
        semantic_analysis(&ast, &mut table),
        Err(scenario_text(
            "Type mismatch in variable declaration with assignment: expected 'integer', found 'bool'"
        ))
    );
    assert!(table.lookup("x").is_none());
}

#[test]
fn same_tree_gives_the_same_instructions() {
    let first = generate_ir(&scenario_countdown());
    let second = generate_ir(&scenario_countdown().clone());
    assert_eq!(first, second);
    assert_eq!(try_generate_ir(&scenario_countdown()), Some(first));
}

#[test]
fn listing_of_the_countdown_loop() {
    let ir = generate_ir(&scenario_countdown());
    let expected = "main:\n DeclareVar x;\n _t0 = 5;\n x = _t0;\nL0:\n _t1 = x;\n _t2 = _t1 > _t0;\n JumpGreaterThan _t2 L1;\n _t3 = x;\n PrintVar _t3;\n _t4 = x;\n _t5 = _t4 - _t1;\n x = _t5;\n Jump L0;\nL1:\n Return 0;\n";
    assert_eq!(print_ir(&ir), expected);
}
