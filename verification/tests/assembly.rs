use minic::backend::x86_assembler_generator::{
    assemble, data_section, declared_variables, encode_instruction, generate_assembly,
    get_register, needs_printf, string_literals, try_generate_assembly,
};
use minic::middle::ir::{IRInstruction, IRValue, Opcode};

fn asm_text(s: &str) -> String {
    s.to_string()
}

fn asm_instr(opcode: Opcode, operands: Vec<IRValue>) -> IRInstruction {
    IRInstruction { opcode, operands }
}

fn asm_t(n: u32) -> IRValue {
    IRValue::TempReg(n)
}

fn asm_var(name: &str) -> IRValue {
    IRValue::Variable(asm_text(name))
}

fn asm_declare(name: &str) -> IRInstruction {
    asm_instr(Opcode::DeclareVar, vec![asm_var(name), asm_var("integer")])
}

fn asm_print(text: &str) -> IRInstruction {
    asm_instr(Opcode::PrintStr, vec![IRValue::Str(asm_text(text))])
}

/// The code of one instruction where `a` and `b` are the declared
/// variables, `s` is the only string literal and the frame has 16 bytes.
fn asm_code(opcode: Opcode, operands: Vec<IRValue>) -> Option<String> {
    encode_instruction(
        &asm_instr(opcode, operands),
        &vec![asm_text("a"), asm_text("b")],
        &vec![asm_text("s")],
        16,
    )
}

fn asm_some(s: &str) -> Option<String> {
    Some(s.to_string())
}

const ASM_HEADER: &str = "\nsection .text\nglobal _start\n";
const ASM_ENTRY: &str = "_start:\n    call main\n    mov rdi, rax\n    mov rax, 60\n    syscall\n";

#[test]
fn registers_are_handed_out_round_robin() {
    let names = [
        "rax", "rbx", "rcx", "rdx", "rsi", "rdi", "r8", "r9", "r10", "r11", "r12", "r13", "r14",
        "r15",
    ];
    for (i, name) in names.iter().enumerate() {
        assert_eq!(get_register(i as u32), *name);
        assert_eq!(get_register(i as u32 + 14), *name);
        assert_eq!(get_register(i as u32 + 14 * 1000), *name);
    }
    assert_eq!(get_register(u32::MAX), names[(u32::MAX % 14) as usize]);
}

#[test]
fn empty_program_is_the_two_sections_and_the_entry() {
    let expected = format!("section .data\n{}{}", ASM_HEADER, ASM_ENTRY);
    assert_eq!(generate_assembly(&vec![]), expected);
}

#[test]
fn variables_get_slots_in_the_order_of_their_first_declaration() {
    let ir = vec![
        asm_declare("a"),
        asm_declare("b"),
        asm_declare("a"),
        asm_declare("c"),
        asm_instr(Opcode::LoadVar, vec![asm_var("c"), asm_t(0)]),
        asm_instr(Opcode::LoadVar, vec![asm_var("a"), asm_t(1)]),
        asm_instr(Opcode::StoreVar, vec![asm_t(1), asm_var("b")]),
    ];
    assert_eq!(
        declared_variables(&ir),
        vec![asm_text("a"), asm_text("b"), asm_text("c")]
    );
    let expected = format!(
        "section .data\n{}    mov rax, [rbp-24]\n    mov rbx, [rbp-8]\n    mov [rbp-16], rbx\n{}",
        ASM_HEADER, ASM_ENTRY
    );
    assert_eq!(generate_assembly(&ir), expected);
}

#[test]
fn frame_is_the_least_multiple_of_sixteen_that_holds_the_variables() {
    let sizes = [(0, 0), (1, 16), (2, 16), (3, 32), (4, 32), (5, 48), (9, 80)];
    for (count, frame) in sizes {
        let mut ir: Vec<IRInstruction> = (0..count).map(|i| asm_declare(&format!("v{}", i))).collect();
        ir.push(asm_instr(
            Opcode::FuncDef,
            vec![IRValue::FuncName(asm_text("f"))],
        ));
        let text = generate_assembly(&ir);
        let expected = format!("f:\n    push rbp\n    mov rbp, rsp\n    sub rsp, {}\n", frame);
        assert!(text.contains(&expected), "{} variables: {}", count, text);
        assert_eq!(text.matches("sub rsp, ").count(), 1);
        assert_eq!(frame % 16, 0);
    }
}

#[test]
fn every_function_reserves_the_frame_of_the_whole_program() {
    let ir = vec![
        asm_instr(Opcode::FuncDef, vec![IRValue::FuncName(asm_text("f"))]),
        asm_declare("a"),
        asm_instr(Opcode::FuncDef, vec![IRValue::FuncName(asm_text("g"))]),
        asm_declare("b"),
        asm_declare("c"),
    ];
    let text = generate_assembly(&ir);
    assert!(text.contains("f:\n    push rbp\n    mov rbp, rsp\n    sub rsp, 32\n"));
    assert!(text.contains("g:\n    push rbp\n    mov rbp, rsp\n    sub rsp, 32\n"));
}

#[test]
fn string_literal_is_defined_once_however_often_it_is_printed() {
    let ir = vec![
        asm_print("hello"),
        asm_print("world"),
        asm_print("hello"),
        asm_print("hello"),
    ];
    assert_eq!(
        string_literals(&ir),
        vec![asm_text("hello"), asm_text("world")]
    );
    let text = generate_assembly(&ir);
    assert_eq!(text.matches("str_0 db \"hello\", 0\n").count(), 1);
    assert_eq!(text.matches("str_1 db \"world\", 0\n").count(), 1);
    assert_eq!(text.matches(" db \"hello\"").count(), 1);
    assert_eq!(text.matches("str_2").count(), 0);
    assert_eq!(text.matches("    lea rsi, [str_0]\n").count(), 3);
    assert_eq!(text.matches("    lea rsi, [str_1]\n").count(), 1);
}

#[test]
fn string_literals_stand_in_the_data_section_as_quoted_text() {
    let ir = vec![asm_print("say \"hi\"\n"), asm_print("back\\slash")];
    let text = generate_assembly(&ir);
    assert!(text.starts_with(
        "section .data\nstr_0 db \"say \\\"hi\\\"\\n\", 0\nstr_1 db \"back\\\\slash\", 0\nformat db"
    ));
}

#[test]
fn data_section_defines_the_literals_it_is_given() {
    assert_eq!(data_section(&vec![], false), "section .data\n");
    assert_eq!(
        data_section(&vec![], true),
        "section .data\nformat db \"%d\", 10, 0\nstr_format db \"%s\", 10, 0\n"
    );
    assert_eq!(
        data_section(&vec![asm_text("'a'"), asm_text("'b'")], false),
        "section .data\nstr_0 db 'a', 0\nstr_1 db 'b', 0\n"
    );
}

#[test]
fn assembly_uses_the_quoted_literals_it_is_given() {
    let ir = vec![asm_print("x")];
    let text = assemble(&ir, &vec![asm_text("<x>")]).unwrap();
    assert!(text.starts_with("section .data\nstr_0 db <x>, 0\nformat db"));
    assert!(text.contains("    lea rsi, [str_0]\n"));
}

#[test]
fn printf_is_declared_only_where_something_is_printed() {
    let quiet = vec![asm_instr(Opcode::Return, vec![IRValue::Number(0)])];
    assert!(!needs_printf(&quiet));
    let text = generate_assembly(&quiet);
    assert!(!text.contains("extern printf"));
    assert!(!text.contains("format db"));
    for printing in [
        asm_instr(Opcode::PrintVar, vec![asm_t(0)]),
        asm_print("s"),
    ] {
        let ir = vec![printing];
        assert!(needs_printf(&ir));
        let text = generate_assembly(&ir);
        assert!(text.contains("\nsection .text\nglobal _start\nextern printf\n"));
        assert!(text.contains("format db \"%d\", 10, 0\nstr_format db \"%s\", 10, 0\n"));
    }
}

#[test]
fn code_of_parameters_and_arguments() {
    let registers = ["rdi", "rsi", "rdx", "rcx", "r8", "r9"];
    for (i, register) in registers.iter().enumerate() {
        assert_eq!(
            asm_code(Opcode::Param, vec![IRValue::Number(i as i32), asm_var("b")]),
            Some(format!("    mov [rbp-16], {}\n", register))
        );
        assert_eq!(
            asm_code(Opcode::Param, vec![IRValue::Number(i as i32), asm_t(1)]),
            Some(format!("    mov {}, rbx\n", register))
        );
    }
    assert_eq!(asm_code(Opcode::Param, vec![asm_t(0), asm_t(1)]), asm_some(""));
}

#[test]
fn generator_gives_up_on_a_seventh_argument() {
    assert_eq!(
        asm_code(Opcode::Param, vec![IRValue::Number(6), asm_var("a")]),
        None
    );
    assert_eq!(
        asm_code(Opcode::Param, vec![IRValue::Number(6), asm_t(0)]),
        None
    );
    assert_eq!(
        asm_code(Opcode::Param, vec![IRValue::Number(-1), asm_t(0)]),
        None
    );
}

#[test]
fn generator_gives_up_on_an_undeclared_variable() {
    assert_eq!(asm_code(Opcode::LoadVar, vec![asm_var("z"), asm_t(0)]), None);
    assert_eq!(asm_code(Opcode::StoreVar, vec![asm_t(0), asm_var("z")]), None);
    assert_eq!(
        asm_code(Opcode::Param, vec![IRValue::Number(0), asm_var("z")]),
        None
    );
    let ir = vec![
        asm_instr(Opcode::LoadConst, vec![IRValue::Number(1), asm_t(0)]),
        asm_instr(Opcode::StoreVar, vec![asm_t(0), asm_var("x")]),
    ];
    assert_eq!(try_generate_assembly(&ir), None);
}

#[test]
fn generator_gives_up_on_operations_without_code() {
    for opcode in [
        Opcode::Store,
        Opcode::JumpIfZero,
        Opcode::While,
        Opcode::BranchWhile,
        Opcode::Goto,
        Opcode::Default,
        Opcode::ReadFile,
    ] {
        assert_eq!(
            asm_code(opcode, vec![asm_t(0), IRValue::Label(1), asm_t(2)]),
            None
        );
        let ir = vec![asm_instr(opcode, vec![asm_t(0), IRValue::Label(1), asm_t(2)])];
        assert_eq!(try_generate_assembly(&ir), None);
    }
}

#[test]
fn generator_gives_up_on_too_few_operands() {
    assert_eq!(asm_code(Opcode::FuncDef, vec![]), None);
    assert_eq!(asm_code(Opcode::DeclareVar, vec![]), None);
    assert_eq!(asm_code(Opcode::PrintStr, vec![]), None);
    assert_eq!(asm_code(Opcode::LoadConst, vec![IRValue::Number(1)]), None);
    assert_eq!(asm_code(Opcode::Add, vec![asm_t(0), asm_t(1)]), None);
    assert_eq!(asm_code(Opcode::JumpEqual, vec![asm_t(0)]), None);
    assert_eq!(asm_code(Opcode::Div, vec![]), asm_some(""));
}

#[test]
fn code_of_loads() {
    assert_eq!(
        asm_code(Opcode::LoadConst, vec![IRValue::Number(-7), asm_t(2)]),
        asm_some("    mov rcx, -7\n")
    );
    assert_eq!(
        asm_code(
            Opcode::LoadConst,
            vec![IRValue::Bool(asm_text("true")), asm_t(2)]
        ),
        asm_some("")
    );
    assert_eq!(
        asm_code(Opcode::LoadVar, vec![asm_var("a"), asm_t(13)]),
        asm_some("    mov r15, [rbp-8]\n")
    );
    assert_eq!(
        asm_code(Opcode::StoreVar, vec![asm_t(14), asm_var("b")]),
        asm_some("    mov [rbp-16], rax\n")
    );
}

#[test]
fn code_of_arithmetic() {
    for (opcode, mnemonic) in [
        (Opcode::Add, "add"),
        (Opcode::Sub, "sub"),
        (Opcode::Mul, "imul"),
    ] {
        assert_eq!(
            asm_code(opcode, vec![asm_t(0), asm_t(1), asm_t(2)]),
            Some(format!("    mov rcx, rax\n    {} rcx, rbx\n", mnemonic))
        );
        assert_eq!(
            asm_code(opcode, vec![asm_t(0), IRValue::Number(5), asm_t(2)]),
            Some(format!("    mov rcx, rax\n    {} rcx, 5\n", mnemonic))
        );
        assert_eq!(
            asm_code(opcode, vec![IRValue::Number(5), asm_t(0), asm_t(2)]),
            asm_some("")
        );
    }
}

#[test]
fn division_has_no_code() {
    assert_eq!(
        asm_code(Opcode::Div, vec![asm_t(0), asm_t(1), asm_t(2)]),
        asm_some("")
    );
    let ir = vec![asm_instr(Opcode::Div, vec![asm_t(0), asm_t(1), asm_t(2)])];
    let expected = format!("section .data\n{}{}", ASM_HEADER, ASM_ENTRY);
    assert_eq!(generate_assembly(&ir), expected);
}

#[test]
fn code_of_calls_and_returns() {
    assert_eq!(
        asm_code(
            Opcode::FuncCall,
            vec![IRValue::FuncName(asm_text("add")), asm_t(5)]
        ),
        asm_some("    call add\n    mov rdi, rax\n")
    );
    assert_eq!(
        asm_code(Opcode::Return, vec![asm_t(3)]),
        asm_some("    mov rax, rdx\n    leave\n    ret\n")
    );
    assert_eq!(
        asm_code(Opcode::Return, vec![IRValue::Number(0)]),
        asm_some("    mov rax, 0\n    leave\n    ret\n")
    );
    assert_eq!(asm_code(Opcode::Return, vec![asm_var("a")]), asm_some(""));
    assert_eq!(
        asm_code(Opcode::FuncDef, vec![IRValue::FuncName(asm_text("f"))]),
        asm_some("f:\n    push rbp\n    mov rbp, rsp\n    sub rsp, 16\n")
    );
}

#[test]
fn code_of_prints() {
    assert_eq!(
        asm_code(Opcode::PrintVar, vec![asm_t(1)]),
        asm_some("    mov rdi, format\n    mov rsi, rbx\n    xor rax, rax\n    call printf\n")
    );
    assert_eq!(
        asm_code(Opcode::PrintStr, vec![IRValue::Str(asm_text("s"))]),
        asm_some(
            "    mov rdi, str_format\n    lea rsi, [str_0]\n    xor rax, rax\n    call printf\n"
        )
    );
    assert_eq!(
        asm_code(Opcode::PrintStr, vec![IRValue::Str(asm_text("other"))]),
        None
    );
}

#[test]
fn code_of_labels_and_jumps() {
    assert_eq!(
        asm_code(Opcode::Label, vec![IRValue::Label(12)]),
        asm_some("label_12:\n")
    );
    assert_eq!(
        asm_code(Opcode::Jump, vec![IRValue::Label(12)]),
        asm_some("    jmp label_12\n")
    );
    assert_eq!(asm_code(Opcode::Jump, vec![asm_t(1)]), asm_some(""));
}

#[test]
fn comparisons_only_set_the_flags() {
    for opcode in [
        Opcode::NotEqual,
        Opcode::Equal,
        Opcode::GreaterThan,
        Opcode::LessThan,
        Opcode::LessThanEqual,
        Opcode::GreaterThanEqual,
    ] {
        assert_eq!(
            asm_code(opcode, vec![asm_t(0), asm_t(1), asm_t(2)]),
            asm_some("    cmp rax, rbx\n")
        );
        assert_eq!(
            asm_code(opcode, vec![asm_t(0), IRValue::Number(10), asm_t(2)]),
            asm_some("    cmp rax, 10\n")
        );
        assert_eq!(
            asm_code(opcode, vec![IRValue::Number(10), asm_t(1), asm_t(2)]),
            asm_some("    cmp rbx, 10\n")
        );
    }
}

#[test]
fn each_fused_jump_branches_when_its_comparison_does_not_hold() {
    let jumps = [
        (Opcode::JumpGreaterThan, "jle"),
        (Opcode::JumpGreaterThanEqual, "jl"),
        (Opcode::JumpLessThan, "jge"),
        (Opcode::JumpLessThanEqual, "jg"),
        (Opcode::JumpEqual, "jne"),
        (Opcode::JumpNotEqual, "je"),
        (Opcode::JumpBool, "je"),
        (Opcode::BranchIfTrue, "jle"),
        (Opcode::BranchIfFalse, "jns"),
    ];
    for (opcode, mnemonic) in jumps {
        assert_eq!(
            asm_code(opcode, vec![asm_t(0), IRValue::Label(4)]),
            Some(format!("    {} label_4\n", mnemonic))
        );
        assert_eq!(
            asm_code(opcode, vec![IRValue::Label(4), asm_t(0)]),
            asm_some("")
        );
    }
}

#[test]
fn truth_test_compares_the_temporary_before_its_own() {
    assert_eq!(
        asm_code(
            Opcode::Bool,
            vec![IRValue::Bool(asm_text("true")), asm_t(1)]
        ),
        asm_some("    cmp byte rax, 1\n")
    );
    assert_eq!(
        asm_code(
            Opcode::Bool,
            vec![IRValue::Bool(asm_text("false")), asm_t(14)]
        ),
        asm_some("    cmp byte r15, 0\n")
    );
    assert_eq!(
        asm_code(
            Opcode::Bool,
            vec![IRValue::Bool(asm_text("true")), asm_t(0)]
        ),
        None
    );
    assert_eq!(
        asm_code(
            Opcode::Bool,
            vec![IRValue::Bool(asm_text("maybe")), asm_t(1)]
        ),
        None
    );
    assert_eq!(
        asm_code(Opcode::Bool, vec![asm_t(1), asm_t(1)]),
        asm_some("")
    );
}

#[test]
fn variable_may_be_used_before_the_instruction_that_declares_it() {
    let ir = vec![
        asm_instr(Opcode::StoreVar, vec![asm_t(0), asm_var("late")]),
        asm_declare("late"),
    ];
    let expected = format!(
        "section .data\n{}    mov [rbp-8], rax\n{}",
        ASM_HEADER, ASM_ENTRY
    );
    assert_eq!(try_generate_assembly(&ir), Some(expected));
}

#[test]
fn text_of_a_lowered_conditional_on_a_variable() {
    let ir = vec![
        asm_declare("flag"),
        asm_instr(Opcode::LoadVar, vec![asm_var("flag"), asm_t(0)]),
        asm_instr(
            Opcode::Bool,
            vec![IRValue::Bool(asm_text("true")), asm_t(1)],
        ),
        asm_instr(Opcode::JumpBool, vec![asm_t(0), IRValue::Label(0)]),
        asm_instr(Opcode::Jump, vec![IRValue::Label(1)]),
        asm_instr(Opcode::Label, vec![IRValue::Label(0)]),
        asm_instr(Opcode::Label, vec![IRValue::Label(1)]),
    ];
    let expected = format!(
        "section .data\n{}    mov rax, [rbp-8]\n    cmp byte rax, 1\n    je label_0\n    jmp label_1\nlabel_0:\nlabel_1:\n{}",
        ASM_HEADER, ASM_ENTRY
    );
    assert_eq!(generate_assembly(&ir), expected);
}
