use minic::middle::ir::{IRInstruction, IRValue, Opcode};
use minic::middle::tac_printer::{print_ir, render_instruction, try_print_ir};

fn tac_text(s: &str) -> String {
    s.to_string()
}

fn tac_line(opcode: Opcode, operands: Vec<IRValue>) -> Option<String> {
    render_instruction(&IRInstruction { opcode, operands })
}

fn tac_some(s: &str) -> Option<String> {
    Some(s.to_string())
}

fn tac_t(n: u32) -> IRValue {
    IRValue::TempReg(n)
}

fn tac_var(name: &str) -> IRValue {
    IRValue::Variable(tac_text(name))
}

#[test]
fn listing_has_one_line_for_each_instruction() {
    let ir = vec![
        IRInstruction {
            opcode: Opcode::FuncDef,
            operands: vec![IRValue::FuncName(tac_text("main"))],
        },
        IRInstruction {
            opcode: Opcode::LoadConst,
            operands: vec![IRValue::Number(1), tac_t(0)],
        },
        IRInstruction {
            opcode: Opcode::Return,
            operands: vec![IRValue::Number(0)],
        },
    ];
    assert_eq!(print_ir(&ir), "main:\n _t0 = 1;\n Return 0;\n");
    assert_eq!(try_print_ir(&ir), tac_some("main:\n _t0 = 1;\n Return 0;\n"));
    assert_eq!(print_ir(&vec![]), "");
}

#[test]
fn lines_of_headers_and_declarations() {
    assert_eq!(
        tac_line(Opcode::FuncDef, vec![IRValue::FuncName(tac_text("add"))]),
        tac_some("add:")
    );
    assert_eq!(
        tac_line(Opcode::FuncDef, vec![tac_t(0)]),
        tac_some("Expected FuncName for FuncDef")
    );
    assert_eq!(
        tac_line(Opcode::DeclareVar, vec![tac_var("x"), tac_var("integer")]),
        tac_some(" DeclareVar x;")
    );
    assert_eq!(
        tac_line(Opcode::DeclareVar, vec![tac_t(0)]),
        tac_some("Expected Variable for DeclareVar")
    );
}

#[test]
fn lines_of_loads_and_stores() {
    assert_eq!(
        tac_line(Opcode::LoadConst, vec![IRValue::Number(-12), tac_t(3)]),
        tac_some(" _t3 = -12;")
    );
    assert_eq!(
        tac_line(Opcode::LoadConst, vec![IRValue::Bool(tac_text("true")), tac_t(3)]),
        tac_some("Expected Number and TempReg for LoadConst")
    );
    assert_eq!(
        tac_line(Opcode::LoadVar, vec![tac_var("x"), tac_t(4)]),
        tac_some(" _t4 = x;")
    );
    assert_eq!(
        tac_line(Opcode::LoadVar, vec![tac_var("x"), tac_var("y")]),
        tac_some("Expected Variable and TempReg for LoadVar")
    );
    assert_eq!(
        tac_line(Opcode::StoreVar, vec![tac_t(5), tac_var("x")]),
        tac_some(" x = _t5;")
    );
    assert_eq!(
        tac_line(Opcode::StoreVar, vec![tac_var("x"), tac_t(5)]),
        tac_some("Expected TempReg and Variable for StoreVar")
    );
}

#[test]
fn lines_of_arithmetic() {
    let symbols = [
        (Opcode::Add, "+", "Add"),
        (Opcode::Sub, "-", "Sub"),
        (Opcode::Mul, "*", "Mul"),
        (Opcode::Div, "/", "Div"),
    ];
    for (opcode, symbol, name) in symbols {
        assert_eq!(
            tac_line(opcode, vec![tac_t(1), tac_t(2), tac_t(3)]),
            Some(format!(" _t3 = _t1 {} _t2;", symbol))
        );
        // a number on the right is written like a temporary
        assert_eq!(
            tac_line(opcode, vec![tac_t(1), IRValue::Number(7), tac_t(3)]),
            Some(format!(" _t3 = _t1 {} _t7;", symbol))
        );
        assert_eq!(
            tac_line(opcode, vec![IRValue::Number(7), tac_t(1), tac_t(3)]),
            Some(format!("Expected three TempRegs for {}", name))
        );
    }
}

#[test]
fn lines_of_comparisons() {
    assert_eq!(
        tac_line(Opcode::GreaterThan, vec![tac_t(1), tac_t(2), tac_t(3)]),
        tac_some(" _t3 = _t1 > _t2;")
    );
    assert_eq!(
        tac_line(Opcode::GreaterThan, vec![tac_t(1), IRValue::Number(0), tac_t(3)]),
        tac_some(" _t3 = _t1 > _t0;")
    );
    assert_eq!(
        tac_line(Opcode::GreaterThan, vec![tac_t(1), tac_var("x"), tac_t(3)]),
        tac_some("Expected Number and TempReg or Variable for Param")
    );
    assert_eq!(
        tac_line(Opcode::LessThan, vec![tac_t(1), tac_t(2), tac_t(3)]),
        tac_some(" _t3 = _t1 < _t2;")
    );
    assert_eq!(
        tac_line(Opcode::LessThan, vec![tac_t(1), IRValue::Number(2), tac_t(3)]),
        tac_some("Expected three TempRegs for LessThan")
    );
    assert_eq!(
        tac_line(Opcode::LessThanEqual, vec![tac_t(1), tac_t(2), tac_t(3)]),
        tac_some(" _t3 = _t1 <= _t2;")
    );
    assert_eq!(
        tac_line(Opcode::LessThanEqual, vec![tac_t(1), IRValue::Number(-2), tac_t(3)]),
        tac_some(" _t3 = _t1 <= -2;")
    );
    assert_eq!(
        tac_line(Opcode::NotEqual, vec![tac_t(1), tac_t(2), tac_t(3)]),
        tac_some(" _t3 = _t1 != _t2;")
    );
    assert_eq!(
        tac_line(Opcode::NotEqual, vec![tac_t(1), IRValue::Number(2), tac_t(3)]),
        tac_some(" _t3 = _t1 != 2;")
    );
    assert_eq!(
        tac_line(Opcode::NotEqual, vec![tac_var("x"), tac_t(2), tac_t(3)]),
        tac_some("Expected TempRegs or TempReg, Number and TempReg for NotEqual")
    );
}

#[test]
fn lines_of_calls_and_returns() {
    assert_eq!(
        tac_line(Opcode::FuncCall, vec![IRValue::FuncName(tac_text("f")), tac_t(2)]),
        tac_some(" LCall f;\n _t2 = rax;")
    );
    assert_eq!(
        tac_line(Opcode::FuncCall, vec![tac_t(2), tac_t(2)]),
        tac_some("Expected FuncName and TempReg for FuncCall")
    );
    assert_eq!(
        tac_line(Opcode::Return, vec![IRValue::Number(0)]),
        tac_some(" Return 0;")
    );
    assert_eq!(tac_line(Opcode::Return, vec![tac_t(8)]), tac_some(" Return _t8;"));
    assert_eq!(
        tac_line(Opcode::Return, vec![tac_var("x")]),
        tac_some("Expected Number or TempReg for Return")
    );
    assert_eq!(
        tac_line(Opcode::Param, vec![IRValue::Number(1), tac_t(4)]),
        tac_some(" Param 1 = _t4;")
    );
    assert_eq!(
        tac_line(Opcode::Param, vec![IRValue::Number(0), tac_var("a")]),
        tac_some(" Param 0 = a;")
    );
    assert_eq!(
        tac_line(Opcode::Param, vec![tac_t(0), tac_var("a")]),
        tac_some("Expected Number and TempReg or Variable for Param")
    );
}

#[test]
fn lines_of_branches() {
    let branches = [
        (Opcode::BranchIfTrue, "BranchIfTrue", "BranchIfTrue"),
        (Opcode::BranchIfFalse, "BranchIfFasle", "BranchIfTrue"),
        (Opcode::JumpIfZero, "JumpIfZero", "JumpIfZero"),
        (Opcode::BranchWhile, "BranchWhile", "BranchWhile"),
        (Opcode::JumpGreaterThan, "JumpGreaterThan", "JumpGreaterThan"),
        (Opcode::JumpNotEqual, "JumpNotEqual", "JumpNotEqual"),
    ];
    for (opcode, word, expected) in branches {
        assert_eq!(
            tac_line(opcode, vec![tac_t(2), IRValue::Label(9)]),
            Some(format!(" {} _t2 L9;", word))
        );
        assert_eq!(
            tac_line(opcode, vec![IRValue::Label(9), tac_t(2)]),
            Some(format!("Expected TempReg and Label for {}", expected))
        );
    }
    assert_eq!(
        tac_line(Opcode::JumpLessThanEqual, vec![tac_t(2), IRValue::Label(9)]),
        tac_some(" JumpLessThanEqual _t2 L9;")
    );
}

#[test]
fn lines_of_labels_and_jumps() {
    assert_eq!(tac_line(Opcode::Label, vec![IRValue::Label(3)]), tac_some("L3:"));
    assert_eq!(
        tac_line(Opcode::Label, vec![tac_t(3)]),
        tac_some("Expected Label for Label")
    );
    assert_eq!(
        tac_line(Opcode::Jump, vec![IRValue::Label(3)]),
        tac_some(" Jump L3;")
    );
    assert_eq!(
        tac_line(Opcode::Jump, vec![tac_t(3)]),
        tac_some("Expected Label for Jump")
    );
    assert_eq!(
        tac_line(Opcode::Goto, vec![IRValue::Label(4294967295)]),
        tac_some(" Goto L4294967295;")
    );
    assert_eq!(
        tac_line(Opcode::Goto, vec![tac_t(3)]),
        tac_some("Expected Label for Goto")
    );
    assert_eq!(
        tac_line(
            Opcode::While,
            vec![IRValue::Label(1), tac_t(2), IRValue::Label(3)]
        ),
        tac_some(" While L1 _t2 L3;")
    );
    assert_eq!(
        tac_line(Opcode::While, vec![tac_t(1), tac_t(2), tac_t(3)]),
        tac_some("Expected Label, TempReg, and Label for While")
    );
}

#[test]
fn lines_of_prints() {
    assert_eq!(
        tac_line(Opcode::PrintStr, vec![IRValue::Str(tac_text("a \"b\""))]),
        tac_some(" PrintStr \"a \"b\"\";")
    );
    assert_eq!(
        tac_line(Opcode::PrintStr, vec![tac_t(0)]),
        tac_some("Expected Str for PrintStr")
    );
    assert_eq!(
        tac_line(Opcode::PrintVar, vec![tac_t(11)]),
        tac_some(" PrintVar _t11;")
    );
    assert_eq!(
        tac_line(Opcode::PrintVar, vec![IRValue::Number(1)]),
        tac_some("Expected TempReg for PrintVar")
    );
}

#[test]
fn operations_without_a_line_are_named() {
    let unsupported = [
        (Opcode::Store, "Store"),
        (Opcode::Default, "Default"),
        (Opcode::GreaterThanEqual, "GreaterThanEqual"),
        (Opcode::Equal, "Equal"),
        (Opcode::JumpLessThan, "JumpLessThan"),
        (Opcode::JumpGreaterThanEqual, "JumpGreaterThanEqual"),
        (Opcode::JumpEqual, "JumpEqual"),
        (Opcode::Bool, "Bool"),
        (Opcode::JumpBool, "JumpBool"),
        (Opcode::ReadFile, "ReadFile"),
    ];
    for (opcode, name) in unsupported {
        assert_eq!(format!("{:?}", opcode), name);
        assert_eq!(
            tac_line(opcode, vec![]),
            Some(format!(" Unsupported opcode: {}", name))
        );
    }
}

#[test]
fn printer_gives_up_on_too_few_operands() {
    assert_eq!(tac_line(Opcode::FuncDef, vec![]), None);
    assert_eq!(tac_line(Opcode::LoadConst, vec![IRValue::Number(1)]), None);
    assert_eq!(tac_line(Opcode::Add, vec![tac_t(1), tac_t(2)]), None);
    assert_eq!(tac_line(Opcode::Goto, vec![]), None);
    let ir = vec![
        IRInstruction {
            opcode: Opcode::Label,
            operands: vec![IRValue::Label(0)],
        },
        IRInstruction {
            opcode: Opcode::Jump,
            operands: vec![],
        },
    ];
    assert_eq!(try_print_ir(&ir), None);
}

#[test]
fn printer_gives_up_on_shapes_that_it_takes_to_be_impossible() {
    assert_eq!(
        tac_line(Opcode::LessThanEqual, vec![IRValue::Number(1), tac_t(2), tac_t(3)]),
        None
    );
    assert_eq!(
        tac_line(Opcode::JumpLessThanEqual, vec![IRValue::Label(1), tac_t(2)]),
        None
    );
}
