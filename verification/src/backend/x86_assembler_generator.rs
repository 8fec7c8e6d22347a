use crate::frontend::ast::{ExprView, Operator};
use crate::middle::ir::{
    fused_jump, instr, lower, program_view, IRInstruction, IRInstructionView, IRValue, IRValueView,
    Opcode,
};
use crate::text::{
    debug_quoted, debug_text, decimal, decimal_string, option_text, same_text, signed_decimal,
    signed_decimal_string, texts,
};
use vstd::pervasive::unreached;
use vstd::prelude::*;

verus! {

/// The machine register that holds temporary `temp`: the registers are handed
/// out round robin, so temporaries fourteen apart share one.
pub open spec fn register_name(temp: u32) -> Seq<char> {
    let slot = temp % 14;
    if slot == 0 {
        "rax"@
    } else if slot == 1 {
        "rbx"@
    } else if slot == 2 {
        "rcx"@
    } else if slot == 3 {
        "rdx"@
    } else if slot == 4 {
        "rsi"@
    } else if slot == 5 {
        "rdi"@
    } else if slot == 6 {
        "r8"@
    } else if slot == 7 {
        "r9"@
    } else if slot == 8 {
        "r10"@
    } else if slot == 9 {
        "r11"@
    } else if slot == 10 {
        "r12"@
    } else if slot == 11 {
        "r13"@
    } else if slot == 12 {
        "r14"@
    } else {
        "r15"@
    }
}

/// The register that carries the argument at place `index` of a call, for
/// the six places that the calling convention has.
pub open spec fn argument_register(index: i32) -> Option<Seq<char>> {
    if index == 0 {
        Some("rdi"@)
    } else if index == 1 {
        Some("rsi"@)
    } else if index == 2 {
        Some("rdx"@)
    } else if index == 3 {
        Some("rcx"@)
    } else if index == 4 {
        Some("r8"@)
    } else if index == 5 {
        Some("r9"@)
    } else {
        None
    }
}

/// The first place at which `name` stands in `names`.
pub open spec fn position(names: Seq<Seq<char>>, name: Seq<char>) -> Option<nat>
    decreases names.len(),
{
    if names.len() == 0 {
        None
    } else if names.drop_last().contains(name) {
        position(names.drop_last(), name)
    } else if names.last() == name {
        Some((names.len() - 1) as nat)
    } else {
        None
    }
}

/// The name that an instruction declares, if it declares one.
pub open spec fn declared_name(i: IRInstructionView) -> Option<Seq<char>> {
    if i.opcode == Opcode::DeclareVar && i.operands.len() >= 1 {
        match i.operands[0] {
            IRValueView::Variable(name) => Some(name),
            _ => None,
        }
    } else {
        None
    }
}

/// The text that an instruction prints, if it prints a literal.
pub open spec fn printed_literal(i: IRInstructionView) -> Option<Seq<char>> {
    if i.opcode == Opcode::PrintStr && i.operands.len() >= 1 {
        match i.operands[0] {
            IRValueView::Str(text) => Some(text),
            _ => None,
        }
    } else {
        None
    }
}

/// `names` with `found` added at the end, unless it is `None` or already there.
pub open spec fn interned(names: Seq<Seq<char>>, found: Option<Seq<char>>) -> Seq<Seq<char>> {
    match found {
        Some(name) => if names.contains(name) {
            names
        } else {
            names.push(name)
        },
        None => names,
    }
}

/// The variables that the first `n` instructions declare, each once, in the
/// order of their first declaration.
pub open spec fn declared_vars(ir: Seq<IRInstructionView>, n: nat) -> Seq<Seq<char>>
    decreases n,
{
    if n == 0 || n > ir.len() {
        seq![]
    } else {
        interned(declared_vars(ir, (n - 1) as nat), declared_name(ir[n - 1]))
    }
}

/// The string literals that the first `n` instructions print, each once, in
/// the order of their first use.
pub open spec fn string_pool(ir: Seq<IRInstructionView>, n: nat) -> Seq<Seq<char>>
    decreases n,
{
    if n == 0 || n > ir.len() {
        seq![]
    } else {
        interned(string_pool(ir, (n - 1) as nat), printed_literal(ir[n - 1]))
    }
}

/// Whether an instruction prints.
pub open spec fn prints(i: IRInstructionView) -> bool {
    i.opcode == Opcode::PrintVar || i.opcode == Opcode::PrintStr
}

/// Whether any instruction prints, so that `printf` is needed.
pub open spec fn uses_printf(ir: Seq<IRInstructionView>) -> bool {
    exists|k: int| 0 <= k < ir.len() && prints(#[trigger] ir[k])
}

/// The bytes that a function reserves for `count` variables of eight bytes
/// each: the least multiple of sixteen that holds them.
pub open spec fn frame_size(count: nat) -> nat {
    16 * ((count + 1) / 2)
}

/// The stack slot of the variable at place `place` in declaration order.
pub open spec fn slot_offset(place: nat) -> nat {
    8 * (place + 1)
}

/// The operand that addresses the stack slot at `offset` below the frame base.
pub open spec fn slot(offset: nat) -> Seq<char> {
    "[rbp-"@ + decimal(offset) + "]"@
}

/// One instruction line with a destination and a source.
pub open spec fn two_operand_line(mnemonic: Seq<char>, dst: Seq<char>, src: Seq<char>) -> Seq<char> {
    "    "@ + mnemonic + " "@ + dst + ", "@ + src + "\n"@
}

/// A move of `src` into `dst`.
pub open spec fn mov(dst: Seq<char>, src: Seq<char>) -> Seq<char> {
    two_operand_line("mov"@, dst, src)
}

/// A jump, conditional or not, to the label numbered `label`.
pub open spec fn jump_line(mnemonic: Seq<char>, label: u32) -> Seq<char> {
    "    "@ + mnemonic + " label_"@ + decimal(label as nat) + "\n"@
}

/// The entry of a function: its label, the saved frame base, and a frame of
/// `frame` bytes.
pub open spec fn prologue(name: Seq<char>, frame: nat) -> Seq<char> {
    name + ":\n"@ + "    push rbp\n"@ + "    mov rbp, rsp\n"@ + "    sub rsp, "@ + decimal(frame)
        + "\n"@
}

/// The return of `value` from a function.
pub open spec fn epilogue(value: Seq<char>) -> Seq<char> {
    mov("rax"@, value) + "    leave\n"@ + "    ret\n"@
}

/// A call of `printf` with the format at `format` and one argument, loaded
/// by the line `load`.
pub open spec fn printf_call(format: Seq<char>, load: Seq<char>) -> Seq<char> {
    mov("rdi"@, format) + load + "    xor rax, rax\n"@ + "    call printf\n"@
}

/// The label of the string literal at place `place` of the pool.
pub open spec fn literal_label(place: nat) -> Seq<char> {
    "str_"@ + decimal(place)
}

/// The conditional jump that an operation stands for. Each fused jump
/// branches when its comparison does not hold.
pub open spec fn branch_mnemonic(opcode: Opcode) -> Option<Seq<char>> {
    match opcode {
        Opcode::BranchIfTrue => Some("jle"@),
        Opcode::JumpGreaterThan => Some("jle"@),
        Opcode::JumpGreaterThanEqual => Some("jl"@),
        Opcode::JumpLessThan => Some("jge"@),
        Opcode::JumpLessThanEqual => Some("jg"@),
        Opcode::JumpEqual => Some("jne"@),
        Opcode::JumpNotEqual => Some("je"@),
        Opcode::BranchIfFalse => Some("jns"@),
        Opcode::JumpBool => Some("je"@),
        _ => None,
    }
}

/// The mnemonic of an arithmetic operation that has code.
pub open spec fn arithmetic_mnemonic(opcode: Opcode) -> Option<Seq<char>> {
    match opcode {
        Opcode::Add => Some("add"@),
        Opcode::Sub => Some("sub"@),
        Opcode::Mul => Some("imul"@),
        _ => None,
    }
}

/// Whether an operation only compares, setting the flags.
pub open spec fn compares(opcode: Opcode) -> bool {
    opcode == Opcode::NotEqual || opcode == Opcode::Equal || opcode == Opcode::GreaterThan
        || opcode == Opcode::LessThan || opcode == Opcode::LessThanEqual || opcode
        == Opcode::GreaterThanEqual
}

/// How many operands the code generator reads of an instruction, or `None`
/// for an operation that it has no code for.
pub open spec fn operands_read(opcode: Opcode) -> Option<nat> {
    match opcode {
        Opcode::Div => Some(0),
        Opcode::FuncDef | Opcode::DeclareVar | Opcode::Return | Opcode::PrintVar | Opcode::PrintStr
        | Opcode::Label | Opcode::Jump => Some(1),
        Opcode::Param | Opcode::LoadConst | Opcode::LoadVar | Opcode::StoreVar | Opcode::FuncCall
        | Opcode::Bool | Opcode::BranchIfTrue | Opcode::BranchIfFalse | Opcode::JumpGreaterThan
        | Opcode::JumpGreaterThanEqual | Opcode::JumpLessThan | Opcode::JumpLessThanEqual
        | Opcode::JumpEqual | Opcode::JumpNotEqual | Opcode::JumpBool => Some(2),
        Opcode::Add | Opcode::Sub | Opcode::Mul | Opcode::NotEqual | Opcode::Equal
        | Opcode::GreaterThan | Opcode::LessThan | Opcode::LessThanEqual
        | Opcode::GreaterThanEqual => Some(3),
        Opcode::Store | Opcode::JumpIfZero | Opcode::While | Opcode::BranchWhile | Opcode::Goto
        | Opcode::Default | Opcode::ReadFile => None,
    }
}

/// The temporary numbered one below `temp`.
pub open spec fn previous_temp(temp: u32) -> u32 {
    (temp - 1) as u32
}

/// A comparison of `left` with `right` that sets the flags.
pub open spec fn compare_line(left: Seq<char>, right: Seq<char>) -> Seq<char> {
    two_operand_line("cmp"@, left, right)
}

/// A comparison of the low byte of `register` with the bit `bit`.
pub open spec fn test_byte_line(register: Seq<char>, bit: Seq<char>) -> Seq<char> {
    "    cmp byte "@ + register + ", "@ + bit + "\n"@
}

/// The code of a function header.
pub open spec fn encode_func_def(a: IRValueView, frame: nat) -> Option<Seq<char>> {
    match a {
        IRValueView::FuncName(name) => Some(prologue(name, frame)),
        _ => Some(Seq::empty()),
    }
}

/// The code that binds a parameter to its stack slot, or that passes an
/// argument. `None` for a place beyond the sixth and for a parameter that
/// was not declared.
pub open spec fn encode_param(a: IRValueView, b: IRValueView, vars: Seq<Seq<char>>) -> Option<
    Seq<char>,
> {
    match (a, b) {
        (IRValueView::Number(index), IRValueView::Variable(name)) => match (
            argument_register(index),
            position(vars, name),
        ) {
            (Some(register), Some(place)) => Some(mov(slot(slot_offset(place)), register)),
            _ => None,
        },
        (IRValueView::Number(index), IRValueView::TempReg(temp)) => match argument_register(index) {
            Some(register) => Some(mov(register, register_name(temp))),
            None => None,
        },
        _ => Some(Seq::empty()),
    }
}

/// The code that loads a number into a temporary.
pub open spec fn encode_load_const(a: IRValueView, b: IRValueView) -> Option<Seq<char>> {
    match (a, b) {
        (IRValueView::Number(n), IRValueView::TempReg(temp)) => Some(
            mov(register_name(temp), signed_decimal(n as int)),
        ),
        _ => Some(Seq::empty()),
    }
}

/// The code that loads a variable into a temporary. `None` for a variable
/// that was not declared.
pub open spec fn encode_load_var(a: IRValueView, b: IRValueView, vars: Seq<Seq<char>>) -> Option<
    Seq<char>,
> {
    match (a, b) {
        (IRValueView::Variable(name), IRValueView::TempReg(temp)) => match position(vars, name) {
            Some(place) => Some(mov(register_name(temp), slot(slot_offset(place)))),
            None => None,
        },
        _ => Some(Seq::empty()),
    }
}

/// The code that stores a temporary in a variable. `None` for a variable
/// that was not declared.
pub open spec fn encode_store_var(a: IRValueView, b: IRValueView, vars: Seq<Seq<char>>) -> Option<
    Seq<char>,
> {
    match (a, b) {
        (IRValueView::TempReg(temp), IRValueView::Variable(name)) => match position(vars, name) {
            Some(place) => Some(mov(slot(slot_offset(place)), register_name(temp))),
            None => None,
        },
        _ => Some(Seq::empty()),
    }
}

/// The code of an addition, subtraction or multiplication: the left operand
/// is moved to the result, and the right operand, a temporary or a number,
/// is applied to it.
pub open spec fn encode_arithmetic(
    mnemonic: Seq<char>,
    a: IRValueView,
    b: IRValueView,
    c: IRValueView,
) -> Option<Seq<char>> {
    match (a, b, c) {
        (
            IRValueView::TempReg(left),
            IRValueView::TempReg(right),
            IRValueView::TempReg(result),
        ) => Some(
            mov(register_name(result), register_name(left)) + two_operand_line(
                mnemonic,
                register_name(result),
                register_name(right),
            ),
        ),
        (IRValueView::TempReg(left), IRValueView::Number(n), IRValueView::TempReg(result)) => Some(
            mov(register_name(result), register_name(left)) + two_operand_line(
                mnemonic,
                register_name(result),
                signed_decimal(n as int),
            ),
        ),
        _ => Some(Seq::empty()),
    }
}

/// The code of a call, whose result is taken from `rax`.
pub open spec fn encode_call(a: IRValueView, b: IRValueView) -> Option<Seq<char>> {
    match (a, b) {
        (IRValueView::FuncName(name), IRValueView::TempReg(temp)) => Some(
            "    call "@ + name + "\n"@ + mov(register_name(temp), "rax"@),
        ),
        _ => Some(Seq::empty()),
    }
}

/// The code of a return of a temporary or of a number.
pub open spec fn encode_return(a: IRValueView) -> Option<Seq<char>> {
    match a {
        IRValueView::TempReg(temp) => Some(epilogue(register_name(temp))),
        IRValueView::Number(n) => Some(epilogue(signed_decimal(n as int))),
        _ => Some(Seq::empty()),
    }
}

/// The code that prints a temporary as an integer.
pub open spec fn encode_print_var(a: IRValueView) -> Option<Seq<char>> {
    match a {
        IRValueView::TempReg(temp) => Some(
            printf_call("format"@, mov("rsi"@, register_name(temp))),
        ),
        _ => Some(Seq::empty()),
    }
}

/// The code that prints a string literal of the pool. `None` for a literal
/// that the pool does not hold.
pub open spec fn encode_print_str(a: IRValueView, pool: Seq<Seq<char>>) -> Option<Seq<char>> {
    match a {
        IRValueView::Str(text) => match position(pool, text) {
            Some(place) => Some(
                printf_call(
                    "str_format"@,
                    "    lea rsi, ["@ + literal_label(place) + "]\n"@,
                ),
            ),
            None => None,
        },
        _ => Some(Seq::empty()),
    }
}

/// The definition of a label.
pub open spec fn encode_label(a: IRValueView) -> Option<Seq<char>> {
    match a {
        IRValueView::Label(label) => Some("label_"@ + decimal(label as nat) + ":\n"@),
        _ => Some(Seq::empty()),
    }
}

/// An unconditional jump.
pub open spec fn encode_jump(a: IRValueView) -> Option<Seq<char>> {
    match a {
        IRValueView::Label(label) => Some(jump_line("jmp"@, label)),
        _ => Some(Seq::empty()),
    }
}

/// The code of a comparison: it sets the flags and stores nothing. With a
/// number on either side the register comes first.
pub open spec fn encode_compare(a: IRValueView, b: IRValueView, c: IRValueView) -> Option<
    Seq<char>,
> {
    match (a, b, c) {
        (IRValueView::TempReg(left), IRValueView::TempReg(right), IRValueView::TempReg(_)) => Some(
            compare_line(register_name(left), register_name(right)),
        ),
        (IRValueView::TempReg(left), IRValueView::Number(n), IRValueView::TempReg(_)) => Some(
            compare_line(register_name(left), signed_decimal(n as int)),
        ),
        (IRValueView::Number(n), IRValueView::TempReg(right), IRValueView::TempReg(_)) => Some(
            compare_line(register_name(right), signed_decimal(n as int)),
        ),
        _ => Some(Seq::empty()),
    }
}

/// The bit that the text of a boolean constant stands for.
pub open spec fn truth_bit(text: Seq<char>) -> Option<Seq<char>> {
    if text == "true"@ {
        Some("1"@)
    } else if text == "false"@ {
        Some("0"@)
    } else {
        None
    }
}

/// The code that tests the temporary before `b` against a boolean constant.
/// `None` for a text that is no boolean constant and for temporary 0, which
/// has none before it.
pub open spec fn encode_bool(a: IRValueView, b: IRValueView) -> Option<Seq<char>> {
    match (a, b) {
        (IRValueView::Bool(text), IRValueView::TempReg(temp)) => match truth_bit(text) {
            Some(bit) => if temp >= 1 {
                Some(test_byte_line(register_name(previous_temp(temp)), bit))
            } else {
                None
            },
            None => None,
        },
        _ => Some(Seq::empty()),
    }
}

/// A conditional jump on the flags that a comparison left.
pub open spec fn encode_branch(mnemonic: Seq<char>, a: IRValueView, b: IRValueView) -> Option<
    Seq<char>,
> {
    match (a, b) {
        (IRValueView::TempReg(_), IRValueView::Label(label)) => Some(jump_line(mnemonic, label)),
        _ => Some(Seq::empty()),
    }
}

/// The code of one instruction, given the declared variables, the pool of
/// string literals and the frame size. `None` where the generator gives up:
/// an operation without code, too few operands, an undeclared variable, a
/// seventh argument, or a malformed boolean test.
pub open spec fn encode(
    i: IRInstructionView,
    vars: Seq<Seq<char>>,
    pool: Seq<Seq<char>>,
    frame: nat,
) -> Option<Seq<char>> {
    let ops = i.operands;
    match operands_read(i.opcode) {
        None => None,
        Some(n) => if ops.len() < n {
            None
        } else if i.opcode == Opcode::FuncDef {
            encode_func_def(ops[0], frame)
        } else if i.opcode == Opcode::Param {
            encode_param(ops[0], ops[1], vars)
        } else if i.opcode == Opcode::LoadConst {
            encode_load_const(ops[0], ops[1])
        } else if i.opcode == Opcode::LoadVar {
            encode_load_var(ops[0], ops[1], vars)
        } else if i.opcode == Opcode::StoreVar {
            encode_store_var(ops[0], ops[1], vars)
        } else if i.opcode == Opcode::FuncCall {
            encode_call(ops[0], ops[1])
        } else if i.opcode == Opcode::Return {
            encode_return(ops[0])
        } else if i.opcode == Opcode::PrintVar {
            encode_print_var(ops[0])
        } else if i.opcode == Opcode::PrintStr {
            encode_print_str(ops[0], pool)
        } else if i.opcode == Opcode::Label {
            encode_label(ops[0])
        } else if i.opcode == Opcode::Jump {
            encode_jump(ops[0])
        } else if i.opcode == Opcode::Bool {
            encode_bool(ops[0], ops[1])
        } else if compares(i.opcode) {
            encode_compare(ops[0], ops[1], ops[2])
        } else {
            match (arithmetic_mnemonic(i.opcode), branch_mnemonic(i.opcode)) {
                (Some(mnemonic), _) => encode_arithmetic(mnemonic, ops[0], ops[1], ops[2]),
                (_, Some(mnemonic)) => encode_branch(mnemonic, ops[0], ops[1]),
                _ => Some(Seq::empty()),
            }
        },
    }
}

/// The code of the first `n` instructions, in order.
pub open spec fn body_text(
    ir: Seq<IRInstructionView>,
    n: nat,
    vars: Seq<Seq<char>>,
    pool: Seq<Seq<char>>,
    frame: nat,
) -> Option<Seq<char>>
    decreases n,
{
    if n == 0 || n > ir.len() {
        Some(Seq::empty())
    } else {
        match (body_text(ir, (n - 1) as nat, vars, pool, frame), encode(ir[n - 1], vars, pool, frame)) {
            (Some(before), Some(code)) => Some(before + code),
            _ => None,
        }
    }
}

/// The definition of the string literal at place `place`, written as `quoted`.
pub open spec fn literal_line(place: nat, quoted: Seq<char>) -> Seq<char> {
    literal_label(place) + " db "@ + quoted + ", 0\n"@
}

/// The start of the data section and the definitions of the first `n` literals.
pub open spec fn literal_lines(quoted: Seq<Seq<char>>, n: nat) -> Seq<char>
    decreases n,
{
    if n == 0 || n > quoted.len() {
        "section .data\n"@
    } else {
        literal_lines(quoted, (n - 1) as nat) + literal_line((n - 1) as nat, quoted[n - 1])
    }
}

/// The two format strings for `printf`.
pub open spec fn format_lines() -> Seq<char> {
    "format db \"%d\", 10, 0\n"@ + "str_format db \"%s\", 10, 0\n"@
}

/// The data section: one definition for each literal of the pool, and the
/// format strings when anything is printed.
pub open spec fn data_text(quoted: Seq<Seq<char>>, with_printf: bool) -> Seq<char> {
    if with_printf {
        literal_lines(quoted, quoted.len()) + format_lines()
    } else {
        literal_lines(quoted, quoted.len())
    }
}

/// The start of the text section.
pub open spec fn text_header(with_printf: bool) -> Seq<char> {
    if with_printf {
        "\nsection .text\n"@ + "global _start\n"@ + "extern printf\n"@
    } else {
        "\nsection .text\n"@ + "global _start\n"@
    }
}

/// The entry point: it calls `main` and leaves with what `main` returned.
pub open spec fn trampoline() -> Seq<char> {
    "_start:\n"@ + "    call main\n"@ + "    mov rdi, rax\n"@ + "    mov rax, 60\n"@
        + "    syscall\n"@
}

/// Whether the generator has code for every instruction of a list.
pub open spec fn has_code(ir: Seq<IRInstructionView>) -> bool {
    let vars = declared_vars(ir, ir.len());
    body_text(ir, ir.len(), vars, string_pool(ir, ir.len()), frame_size(vars.len())).is_some()
}

/// The whole assembly text for a list of instructions, with the string
/// literals of its pool written as `quoted`. `None` where some instruction
/// has no code.
pub open spec fn assembly_text(ir: Seq<IRInstructionView>, quoted: Seq<Seq<char>>) -> Option<Seq<char>> {
    let vars = declared_vars(ir, ir.len());
    match body_text(ir, ir.len(), vars, string_pool(ir, ir.len()), frame_size(vars.len())) {
        Some(body) => Some(
            data_text(quoted, uses_printf(ir)) + text_header(uses_printf(ir)) + body + trampoline(),
        ),
        None => None,
    }
}

/// A name that stands at `i`, and at no earlier place, has its first place at `i`.
proof fn lemma_position_found(names: Seq<Seq<char>>, name: Seq<char>, i: int)
    requires
        0 <= i < names.len(),
        names[i] == name,
        forall|j: int| 0 <= j < i ==> names[j] != name,
    ensures
        position(names, name) == Some(i as nat),
    decreases names.len(),
{
    let front = names.drop_last();
    if i == names.len() - 1 {
        assert(!front.contains(name)) by {
            if front.contains(name) {
                let j = choose|j: int| 0 <= j < front.len() && front[j] == name;
                assert(names[j] == name);
            }
        }
    } else {
        assert(front[i] == name);
        lemma_position_found(front, name, i);
    }
}

/// A name has a place exactly if the list holds it, and stands at its place.
pub proof fn lemma_position(names: Seq<Seq<char>>, name: Seq<char>)
    ensures
        position(names, name).is_some() <==> names.contains(name),
        position(names, name) matches Some(place) ==> place < names.len() && names[place as int]
            == name,
    decreases names.len(),
{
    if names.len() > 0 {
        let front = names.drop_last();
        lemma_position(front, name);
        if !front.contains(name) && names.last() != name {
            assert(!names.contains(name)) by {
                if names.contains(name) {
                    let j = choose|j: int| 0 <= j < names.len() && names[j] == name;
                    if j < names.len() - 1 {
                        assert(front[j] == name);
                    }
                }
            }
        } else if front.contains(name) {
            let j = choose|j: int| 0 <= j < front.len() && front[j] == name;
            assert(names[j] == name);
        } else {
            assert(names[names.len() - 1] == name);
        }
    }
}

/// The first place of `name` in `names`.
fn find_name(names: &Vec<String>, name: &str) -> (place: Option<usize>)
    ensures
        match place {
            Some(i) => position(texts(names@), name@) == Some(i as nat) && i < names.len(),
            None => position(texts(names@), name@).is_none(),
        },
{
    let mut i: usize = 0;
    while i < names.len()
        invariant
            i <= names.len(),
            forall|j: int| 0 <= j < i ==> texts(names@)[j] != name@,
        decreases names.len() - i,
    {
        if same_text(names[i].as_str(), name) {
            proof {
                lemma_position_found(texts(names@), name@, i as int);
            }
            return Some(i);
        }
        i += 1;
    }
    proof {
        lemma_position(texts(names@), name@);
    }
    None
}

/// Adds a copy of `name` at the end of `names`, unless it is there already.
fn intern(names: &mut Vec<String>, name: &String)
    ensures
        texts(final(names)@) == interned(texts(old(names)@), Some(name@)),
{
    let ghost before = texts(names@);
    proof {
        lemma_position(before, name@);
    }
    if find_name(names, name.as_str()).is_none() {
        names.push(name.clone());
        assert(texts(names@) =~= before.push(name@));
    }
}

/// The variables that a list of instructions declares, each once, in the
/// order of their first declaration.
pub fn declared_variables(ir: &Vec<IRInstruction>) -> (vars: Vec<String>)
    ensures
        texts(vars@) == declared_vars(program_view(ir@), ir@.len()),
{
    let mut vars: Vec<String> = Vec::new();
    let mut i: usize = 0;
    assert(texts(vars@) =~= declared_vars(program_view(ir@), 0));
    while i < ir.len()
        invariant
            i <= ir.len(),
            texts(vars@) == declared_vars(program_view(ir@), i as nat),
        decreases ir.len() - i,
    {
        let instruction = &ir[i];
        assert(program_view(ir@)[i as int] == instruction@);
        if let Opcode::DeclareVar = instruction.opcode {
            if instruction.operands.len() >= 1 {
                if let IRValue::Variable(name) = &instruction.operands[0] {
                    intern(&mut vars, name);
                }
            }
        }
        i += 1;
    }
    vars
}

/// The string literals that a list of instructions prints, each once, in
/// the order of their first use.
pub fn string_literals(ir: &Vec<IRInstruction>) -> (pool: Vec<String>)
    ensures
        texts(pool@) == string_pool(program_view(ir@), ir@.len()),
{
    let mut pool: Vec<String> = Vec::new();
    let mut i: usize = 0;
    assert(texts(pool@) =~= string_pool(program_view(ir@), 0));
    while i < ir.len()
        invariant
            i <= ir.len(),
            texts(pool@) == string_pool(program_view(ir@), i as nat),
        decreases ir.len() - i,
    {
        let instruction = &ir[i];
        assert(program_view(ir@)[i as int] == instruction@);
        if let Opcode::PrintStr = instruction.opcode {
            if instruction.operands.len() >= 1 {
                if let IRValue::Str(text) = &instruction.operands[0] {
                    intern(&mut pool, text);
                }
            }
        }
        i += 1;
    }
    pool
}

/// Whether any instruction prints.
pub fn needs_printf(ir: &Vec<IRInstruction>) -> (needed: bool)
    ensures
        needed == uses_printf(program_view(ir@)),
{
    let mut i: usize = 0;
    while i < ir.len()
        invariant
            i <= ir.len(),
            forall|k: int| 0 <= k < i ==> !prints(#[trigger] program_view(ir@)[k]),
        decreases ir.len() - i,
    {
        let instruction = &ir[i];
        assert(program_view(ir@)[i as int] == instruction@);
        match instruction.opcode {
            Opcode::PrintVar | Opcode::PrintStr => {
                return true;
            },
            _ => {},
        }
        i += 1;
    }
    false
}

/// The frame size for `count` variables.
fn frame_bytes(count: usize) -> (bytes: u128)
    ensures
        bytes == frame_size(count as nat),
        bytes % 16 == 0,
{
    let mut current_offset: u128 = 8 * (count as u128);
    if current_offset % 16 != 0 {
        current_offset = (current_offset + 15) / 16 * 16;
    }
    current_offset
}

/// The machine register that holds temporary `temp`.
pub fn get_register(temp: u32) -> (name: &'static str)
    ensures
        name@ == register_name(temp),
{
    let slot = temp % 14;
    if slot == 0 {
        "rax"
    } else if slot == 1 {
        "rbx"
    } else if slot == 2 {
        "rcx"
    } else if slot == 3 {
        "rdx"
    } else if slot == 4 {
        "rsi"
    } else if slot == 5 {
        "rdi"
    } else if slot == 6 {
        "r8"
    } else if slot == 7 {
        "r9"
    } else if slot == 8 {
        "r10"
    } else if slot == 9 {
        "r11"
    } else if slot == 10 {
        "r12"
    } else if slot == 11 {
        "r13"
    } else if slot == 12 {
        "r14"
    } else {
        "r15"
    }
}

/// The register of the argument at place `index`, for the six places there are.
fn argument_register_name(index: i32) -> (name: Option<&'static str>)
    ensures
        match name {
            Some(register) => argument_register(index) == Some(register@),
            None => argument_register(index).is_none(),
        },
{
    if index == 0 {
        Some("rdi")
    } else if index == 1 {
        Some("rsi")
    } else if index == 2 {
        Some("rdx")
    } else if index == 3 {
        Some("rcx")
    } else if index == 4 {
        Some("r8")
    } else if index == 5 {
        Some("r9")
    } else {
        None
    }
}

fn two_operand(mnemonic: &str, dst: &str, src: &str) -> (line: String)
    ensures
        line@ == two_operand_line(mnemonic@, dst@, src@),
{
    let mut line = String::from_str("    ");
    line.append(mnemonic);
    line.append(" ");
    line.append(dst);
    line.append(", ");
    line.append(src);
    line.append("\n");
    line
}

fn mov_line(dst: &str, src: &str) -> (line: String)
    ensures
        line@ == mov(dst@, src@),
{
    two_operand("mov", dst, src)
}

fn jump_to(mnemonic: &str, label: u32) -> (line: String)
    ensures
        line@ == jump_line(mnemonic@, label),
{
    let mut line = String::from_str("    ");
    line.append(mnemonic);
    line.append(" label_");
    line.append(decimal_string(label as u128).as_str());
    line.append("\n");
    line
}

/// The operand for the stack slot of the variable at place `place`.
fn slot_operand(place: usize) -> (operand: String)
    ensures
        operand@ == slot(slot_offset(place as nat)),
{
    let offset: u128 = 8 * (place as u128 + 1);
    let mut operand = String::from_str("[rbp-");
    operand.append(decimal_string(offset).as_str());
    operand.append("]");
    operand
}

fn return_of(value: &str) -> (code: String)
    ensures
        code@ == epilogue(value@),
{
    let mut code = mov_line("rax", value);
    code.append("    leave\n");
    code.append("    ret\n");
    code
}

fn call_printf(format: &str, load: &str) -> (code: String)
    ensures
        code@ == printf_call(format@, load@),
{
    let mut code = mov_line("rdi", format);
    code.append(load);
    code.append("    xor rax, rax\n");
    code.append("    call printf\n");
    code
}

fn label_of_literal(place: usize) -> (label: String)
    ensures
        label@ == literal_label(place as nat),
{
    let mut label = String::from_str("str_");
    label.append(decimal_string(place as u128).as_str());
    label
}

fn branch_for(opcode: Opcode) -> (mnemonic: Option<&'static str>)
    ensures
        match mnemonic {
            Some(m) => branch_mnemonic(opcode) == Some(m@),
            None => branch_mnemonic(opcode).is_none(),
        },
{
    match opcode {
        Opcode::BranchIfTrue => Some("jle"),
        Opcode::JumpGreaterThan => Some("jle"),
        Opcode::JumpGreaterThanEqual => Some("jl"),
        Opcode::JumpLessThan => Some("jge"),
        Opcode::JumpLessThanEqual => Some("jg"),
        Opcode::JumpEqual => Some("jne"),
        Opcode::JumpNotEqual => Some("je"),
        Opcode::BranchIfFalse => Some("jns"),
        Opcode::JumpBool => Some("je"),
        _ => None,
    }
}

fn empty_code() -> (code: Option<String>)
    ensures
        option_text(code) == Some(Seq::<char>::empty()),
{
    Some(String::new())
}

fn param_code_for(a: &IRValue, b: &IRValue, vars: &Vec<String>) -> (code: Option<String>)
    ensures
        option_text(code) == encode_param(a@, b@, texts(vars@)),
{
    match (a, b) {
        (IRValue::Number(index), IRValue::Variable(name)) => {
            let Some(register) = argument_register_name(*index) else {
                return None;
            };
            let Some(place) = find_name(vars, name.as_str()) else {
                return None;
            };
            Some(mov_line(slot_operand(place).as_str(), register))
        },
        (IRValue::Number(index), IRValue::TempReg(temp)) => {
            let Some(register) = argument_register_name(*index) else {
                return None;
            };
            Some(mov_line(register, get_register(*temp)))
        },
        _ => empty_code(),
    }
}

fn load_const_code(a: &IRValue, b: &IRValue) -> (code: Option<String>)
    ensures
        option_text(code) == encode_load_const(a@, b@),
{
    match (a, b) {
        (IRValue::Number(n), IRValue::TempReg(temp)) => Some(
            mov_line(get_register(*temp), signed_decimal_string(*n).as_str()),
        ),
        _ => empty_code(),
    }
}

fn load_var_code(a: &IRValue, b: &IRValue, vars: &Vec<String>) -> (code: Option<String>)
    ensures
        option_text(code) == encode_load_var(a@, b@, texts(vars@)),
{
    match (a, b) {
        (IRValue::Variable(name), IRValue::TempReg(temp)) => {
            let Some(place) = find_name(vars, name.as_str()) else {
                return None;
            };
            Some(mov_line(get_register(*temp), slot_operand(place).as_str()))
        },
        _ => empty_code(),
    }
}

fn store_var_code(a: &IRValue, b: &IRValue, vars: &Vec<String>) -> (code: Option<String>)
    ensures
        option_text(code) == encode_store_var(a@, b@, texts(vars@)),
{
    match (a, b) {
        (IRValue::TempReg(temp), IRValue::Variable(name)) => {
            let Some(place) = find_name(vars, name.as_str()) else {
                return None;
            };
            Some(mov_line(slot_operand(place).as_str(), get_register(*temp)))
        },
        _ => empty_code(),
    }
}

fn arithmetic_code(mnemonic: &str, a: &IRValue, b: &IRValue, c: &IRValue) -> (code: Option<String>)
    ensures
        option_text(code) == encode_arithmetic(mnemonic@, a@, b@, c@),
{
    match (a, b, c) {
        (IRValue::TempReg(left), IRValue::TempReg(right), IRValue::TempReg(result)) => {
            let mut code = mov_line(get_register(*result), get_register(*left));
            code.append(two_operand(mnemonic, get_register(*result), get_register(*right)).as_str());
            Some(code)
        },
        (IRValue::TempReg(left), IRValue::Number(n), IRValue::TempReg(result)) => {
            let mut code = mov_line(get_register(*result), get_register(*left));
            code.append(
                two_operand(
                    mnemonic,
                    get_register(*result),
                    signed_decimal_string(*n).as_str(),
                ).as_str(),
            );
            Some(code)
        },
        _ => empty_code(),
    }
}

fn call_code(a: &IRValue, b: &IRValue) -> (code: Option<String>)
    ensures
        option_text(code) == encode_call(a@, b@),
{
    match (a, b) {
        (IRValue::FuncName(name), IRValue::TempReg(temp)) => {
            let mut code = String::from_str("    call ");
            code.append(name.as_str());
            code.append("\n");
            code.append(mov_line(get_register(*temp), "rax").as_str());
            Some(code)
        },
        _ => empty_code(),
    }
}

fn return_code(a: &IRValue) -> (code: Option<String>)
    ensures
        option_text(code) == encode_return(a@),
{
    match a {
        IRValue::TempReg(temp) => Some(return_of(get_register(*temp))),
        IRValue::Number(n) => Some(return_of(signed_decimal_string(*n).as_str())),
        _ => empty_code(),
    }
}

fn print_var_code(a: &IRValue) -> (code: Option<String>)
    ensures
        option_text(code) == encode_print_var(a@),
{
    match a {
        IRValue::TempReg(temp) => Some(
            call_printf("format", mov_line("rsi", get_register(*temp)).as_str()),
        ),
        _ => empty_code(),
    }
}

fn print_str_code(a: &IRValue, pool: &Vec<String>) -> (code: Option<String>)
    ensures
        option_text(code) == encode_print_str(a@, texts(pool@)),
{
    match a {
        IRValue::Str(text) => {
            let Some(place) = find_name(pool, text.as_str()) else {
                return None;
            };
            let mut load = String::from_str("    lea rsi, [");
            load.append(label_of_literal(place).as_str());
            load.append("]\n");
            Some(call_printf("str_format", load.as_str()))
        },
        _ => empty_code(),
    }
}

fn label_code(a: &IRValue) -> (code: Option<String>)
    ensures
        option_text(code) == encode_label(a@),
{
    match a {
        IRValue::Label(label) => {
            let mut code = String::from_str("label_");
            code.append(decimal_string(*label as u128).as_str());
            code.append(":\n");
            Some(code)
        },
        _ => empty_code(),
    }
}

fn jump_code(a: &IRValue) -> (code: Option<String>)
    ensures
        option_text(code) == encode_jump(a@),
{
    match a {
        IRValue::Label(label) => Some(jump_to("jmp", *label)),
        _ => empty_code(),
    }
}

fn compare(left: &str, right: &str) -> (line: String)
    ensures
        line@ == compare_line(left@, right@),
{
    two_operand("cmp", left, right)
}

fn compare_code(a: &IRValue, b: &IRValue, c: &IRValue) -> (code: Option<String>)
    ensures
        option_text(code) == encode_compare(a@, b@, c@),
{
    match (a, b, c) {
        (IRValue::TempReg(left), IRValue::TempReg(right), IRValue::TempReg(_)) => Some(
            compare(get_register(*left), get_register(*right)),
        ),
        (IRValue::TempReg(left), IRValue::Number(n), IRValue::TempReg(_)) => Some(
            compare(get_register(*left), signed_decimal_string(*n).as_str()),
        ),
        (IRValue::Number(n), IRValue::TempReg(right), IRValue::TempReg(_)) => Some(
            compare(get_register(*right), signed_decimal_string(*n).as_str()),
        ),
        _ => empty_code(),
    }
}

fn bit_of(text: &str) -> (bit: Option<&'static str>)
    ensures
        match bit {
            Some(b) => truth_bit(text@) == Some(b@),
            None => truth_bit(text@).is_none(),
        },
{
    if same_text(text, "true") {
        Some("1")
    } else if same_text(text, "false") {
        Some("0")
    } else {
        None
    }
}

fn test_byte(register: &str, bit: &str) -> (line: String)
    ensures
        line@ == test_byte_line(register@, bit@),
{
    let mut line = String::from_str("    cmp byte ");
    line.append(register);
    line.append(", ");
    line.append(bit);
    line.append("\n");
    line
}

fn bool_code(a: &IRValue, b: &IRValue) -> (code: Option<String>)
    ensures
        option_text(code) == encode_bool(a@, b@),
{
    match (a, b) {
        (IRValue::Bool(text), IRValue::TempReg(temp)) => {
            let Some(bit) = bit_of(text.as_str()) else {
                return None;
            };
            if *temp == 0 {
                return None;
            }
            Some(test_byte(get_register(*temp - 1), bit))
        },
        _ => empty_code(),
    }
}

fn branch_code(mnemonic: &str, a: &IRValue, b: &IRValue) -> (code: Option<String>)
    ensures
        option_text(code) == encode_branch(mnemonic@, a@, b@),
{
    match (a, b) {
        (IRValue::TempReg(_), IRValue::Label(label)) => Some(jump_to(mnemonic, *label)),
        _ => empty_code(),
    }
}

fn func_def_code(a: &IRValue, frame: u128) -> (code: Option<String>)
    ensures
        option_text(code) == encode_func_def(a@, frame as nat),
{
    match a {
        IRValue::FuncName(name) => {
            let mut code = name.clone();
            code.append(":\n");
            code.append("    push rbp\n");
            code.append("    mov rbp, rsp\n");
            code.append("    sub rsp, ");
            code.append(decimal_string(frame).as_str());
            code.append("\n");
            Some(code)
        },
        _ => empty_code(),
    }
}

/// How many operands the generator reads of an instruction, or `None` for
/// an operation that it has no code for.
fn operands_needed(opcode: Opcode) -> (n: Option<usize>)
    ensures
        match n {
            Some(k) => operands_read(opcode) == Some(k as nat) && k <= 3,
            None => operands_read(opcode).is_none(),
        },
{
    match opcode {
        Opcode::Div => Some(0),
        Opcode::FuncDef | Opcode::DeclareVar | Opcode::Return | Opcode::PrintVar | Opcode::PrintStr
        | Opcode::Label | Opcode::Jump => Some(1),
        Opcode::Param | Opcode::LoadConst | Opcode::LoadVar | Opcode::StoreVar | Opcode::FuncCall
        | Opcode::Bool | Opcode::BranchIfTrue | Opcode::BranchIfFalse | Opcode::JumpGreaterThan
        | Opcode::JumpGreaterThanEqual | Opcode::JumpLessThan | Opcode::JumpLessThanEqual
        | Opcode::JumpEqual | Opcode::JumpNotEqual | Opcode::JumpBool => Some(2),
        Opcode::Add | Opcode::Sub | Opcode::Mul | Opcode::NotEqual | Opcode::Equal
        | Opcode::GreaterThan | Opcode::LessThan | Opcode::LessThanEqual
        | Opcode::GreaterThanEqual => Some(3),
        Opcode::Store | Opcode::JumpIfZero | Opcode::While | Opcode::BranchWhile | Opcode::Goto
        | Opcode::Default | Opcode::ReadFile => None,
    }
}

/// The code of one instruction, or `None` where the generator gives up.
pub fn encode_instruction(
    instruction: &IRInstruction,
    vars: &Vec<String>,
    pool: &Vec<String>,
    frame: u128,
) -> (code: Option<String>)
    ensures
        option_text(code) == encode(instruction@, texts(vars@), texts(pool@), frame as nat),
{
    let Some(needed) = operands_needed(instruction.opcode) else {
        return None;
    };
    let ops = &instruction.operands;
    if ops.len() < needed {
        return None;
    }
    match instruction.opcode {
        Opcode::FuncDef => func_def_code(&ops[0], frame),
        Opcode::Param => param_code_for(&ops[0], &ops[1], vars),
        Opcode::LoadConst => load_const_code(&ops[0], &ops[1]),
        Opcode::LoadVar => load_var_code(&ops[0], &ops[1], vars),
        Opcode::StoreVar => store_var_code(&ops[0], &ops[1], vars),
        Opcode::FuncCall => call_code(&ops[0], &ops[1]),
        Opcode::Return => return_code(&ops[0]),
        Opcode::PrintVar => print_var_code(&ops[0]),
        Opcode::PrintStr => print_str_code(&ops[0], pool),
        Opcode::Label => label_code(&ops[0]),
        Opcode::Jump => jump_code(&ops[0]),
        Opcode::Bool => bool_code(&ops[0], &ops[1]),
        Opcode::NotEqual | Opcode::Equal | Opcode::GreaterThan | Opcode::LessThan
        | Opcode::LessThanEqual | Opcode::GreaterThanEqual => compare_code(
            &ops[0],
            &ops[1],
            &ops[2],
        ),
        Opcode::Add => arithmetic_code("add", &ops[0], &ops[1], &ops[2]),
        Opcode::Sub => arithmetic_code("sub", &ops[0], &ops[1], &ops[2]),
        Opcode::Mul => arithmetic_code("imul", &ops[0], &ops[1], &ops[2]),
        Opcode::DeclareVar | Opcode::Div => empty_code(),
        _ => {
            let Some(mnemonic) = branch_for(instruction.opcode) else {
                return None;
            };
            branch_code(mnemonic, &ops[0], &ops[1])
        },
    }
}

/// The data section for a pool of string literals, each written as it is to
/// stand in its definition.
pub fn data_section(quoted: &Vec<String>, with_printf: bool) -> (text: String)
    ensures
        text@ == data_text(texts(quoted@), with_printf),
{
    let mut text = String::from_str("section .data\n");
    let mut i: usize = 0;
    while i < quoted.len()
        invariant
            i <= quoted.len(),
            text@ == literal_lines(texts(quoted@), i as nat),
        decreases quoted.len() - i,
    {
        let mut line = label_of_literal(i);
        line.append(" db ");
        line.append(quoted[i].as_str());
        line.append(", 0\n");
        text.append(line.as_str());
        i += 1;
    }
    if with_printf {
        let mut formats = String::from_str("format db \"%d\", 10, 0\n");
        formats.append("str_format db \"%s\", 10, 0\n");
        text.append(formats.as_str());
    }
    text
}

/// The assembly text for a list of instructions, with the string literals of
/// its pool written as `quoted`; `None` where some instruction has no code.
pub fn assemble(ir: &Vec<IRInstruction>, quoted: &Vec<String>) -> (assembly: Option<String>)
    ensures
        option_text(assembly) == assembly_text(program_view(ir@), texts(quoted@)),
        assembly is Some <==> has_code(program_view(ir@)),
{
    let vars = declared_variables(ir);
    let pool = string_literals(ir);
    let with_printf = needs_printf(ir);
    let frame = frame_bytes(vars.len());
    let mut body = String::new();
    let mut i: usize = 0;
    while i < ir.len()
        invariant
            i <= ir.len(),
            texts(vars@) == declared_vars(program_view(ir@), ir@.len()),
            texts(pool@) == string_pool(program_view(ir@), ir@.len()),
            frame == frame_size(texts(vars@).len()),
            Some(body@) == body_text(
                program_view(ir@),
                i as nat,
                texts(vars@),
                texts(pool@),
                frame as nat,
            ),
        decreases ir.len() - i,
    {
        assert(program_view(ir@)[i as int] == ir[i as int]@);
        let Some(code) = encode_instruction(&ir[i], &vars, &pool, frame) else {
            proof {
                assert(body_text(
                    program_view(ir@),
                    (i + 1) as nat,
                    texts(vars@),
                    texts(pool@),
                    frame as nat,
                ).is_none());
                lemma_body_fails(
                    program_view(ir@),
                    (i + 1) as nat,
                    ir@.len(),
                    texts(vars@),
                    texts(pool@),
                    frame as nat,
                );
            }
            return None;
        };
        body.append(code.as_str());
        i += 1;
    }
    let mut assembly = data_section(quoted, with_printf);
    if with_printf {
        let mut header = String::from_str("\nsection .text\n");
        header.append("global _start\n");
        header.append("extern printf\n");
        assembly.append(header.as_str());
    } else {
        let mut header = String::from_str("\nsection .text\n");
        header.append("global _start\n");
        assembly.append(header.as_str());
    }
    assembly.append(body.as_str());
    let mut entry = String::from_str("_start:\n");
    entry.append("    call main\n");
    entry.append("    mov rdi, rax\n");
    entry.append("    mov rax, 60\n");
    entry.append("    syscall\n");
    assembly.append(entry.as_str());
    Some(assembly)
}

/// Instructions without code up to some place have none beyond it.
proof fn lemma_body_fails(
    ir: Seq<IRInstructionView>,
    i: nat,
    n: nat,
    vars: Seq<Seq<char>>,
    pool: Seq<Seq<char>>,
    frame: nat,
)
    requires
        i <= n <= ir.len(),
        body_text(ir, i, vars, pool, frame).is_none(),
    ensures
        body_text(ir, n, vars, pool, frame).is_none(),
    decreases n,
{
    if i < n {
        lemma_body_fails(ir, i, (n - 1) as nat, vars, pool, frame);
    }
}

/// The string literals of a pool, each as it is to stand in its definition.
fn quote_literals(pool: &Vec<String>) -> (quoted: Vec<String>)
    ensures
        texts(quoted@) == texts(pool@).map_values(|text: Seq<char>| debug_text(text)),
{
    let mut quoted: Vec<String> = Vec::new();
    let mut i: usize = 0;
    while i < pool.len()
        invariant
            i <= pool.len(),
            quoted.len() == i,
            forall|k: int| 0 <= k < i ==> quoted[k]@ == debug_text(pool[k]@),
        decreases pool.len() - i,
    {
        quoted.push(debug_quoted(pool[i].as_str()));
        i += 1;
    }
    assert(texts(quoted@) =~= texts(pool@).map_values(|text: Seq<char>| debug_text(text)));
    quoted
}

/// The assembly text of a list of instructions: the string literals of its
/// pool stand in the data section as `{:?}` writes them.
pub open spec fn assembly_of(ir: Seq<IRInstructionView>) -> Option<Seq<char>> {
    assembly_text(ir, string_pool(ir, ir.len()).map_values(|text: Seq<char>| debug_text(text)))
}

/// The assembly text of a list of instructions, or `None` where some
/// instruction has no code.
pub fn try_generate_assembly(ir: &Vec<IRInstruction>) -> (assembly: Option<String>)
    ensures
        option_text(assembly) == assembly_of(program_view(ir@)),
        assembly is Some <==> has_code(program_view(ir@)),
{
    let pool = string_literals(ir);
    let quoted = quote_literals(&pool);
    assemble(ir, &quoted)
}

/// The assembly text of a list of instructions that all have code.
pub fn generate_assembly(ir: &Vec<IRInstruction>) -> (assembly: String)
    requires
        has_code(program_view(ir@)),
    ensures
        Some(assembly@) == assembly_of(program_view(ir@)),
{
    match try_generate_assembly(ir) {
        Some(assembly) => assembly,
        None => unreached(),
    }
}

/// Frame alignment: the frame is a multiple of sixteen bytes that holds all
/// the variables and wastes at most eight bytes.
pub proof fn lemma_frame_aligned(count: nat)
    ensures
        frame_size(count) % 16 == 0,
        8 * count <= frame_size(count) <= 8 * count + 8,
{
}

/// Frame alignment in the text: the code of every function header is the
/// prologue that reserves the frame of the program, whose size is a multiple
/// of sixteen.
pub proof fn lemma_prologue_reserves_aligned_frame(ir: Seq<IRInstructionView>, k: int, name: Seq<char>)
    requires
        0 <= k < ir.len(),
        ir[k].opcode == Opcode::FuncDef,
        ir[k].operands.len() >= 1,
        ir[k].operands[0] == IRValueView::FuncName(name),
    ensures
        ({
            let vars = declared_vars(ir, ir.len());
            let frame = frame_size(vars.len());
            &&& encode(ir[k], vars, string_pool(ir, ir.len()), frame) == Some(prologue(name, frame))
            &&& frame % 16 == 0
        }),
{
}

/// Interning keeps a list free of duplicates and never shortens it.
proof fn lemma_interned_distinct(names: Seq<Seq<char>>, found: Option<Seq<char>>)
    requires
        names.no_duplicates(),
    ensures
        interned(names, found).no_duplicates(),
        forall|text: Seq<char>| names.contains(text) ==> interned(names, found).contains(text),
        found matches Some(text) ==> interned(names, found).contains(text),
{
    let after = interned(names, found);
    if let Some(text) = found {
        if !names.contains(text) {
            assert(after[names.len() as int] == text);
            assert forall|other: Seq<char>| names.contains(other) implies after.contains(other) by {
                let j = choose|j: int| 0 <= j < names.len() && names[j] == other;
                assert(after[j] == other);
            }
        }
    }
}

/// String pooling: the pool holds every string literal that the
/// instructions print, and each exactly once, however often it is printed.
/// So the data section, which has one definition for each place of the
/// pool, defines each literal once.
pub proof fn lemma_pool_holds_each_literal_once(ir: Seq<IRInstructionView>, n: nat)
    requires
        n <= ir.len(),
    ensures
        string_pool(ir, n).no_duplicates(),
        forall|k: int|
            0 <= k < n ==> (#[trigger] printed_literal(ir[k]) matches Some(text) ==> string_pool(
                ir,
                n,
            ).contains(text)),
    decreases n,
{
    if n > 0 {
        let before = string_pool(ir, (n - 1) as nat);
        lemma_pool_holds_each_literal_once(ir, (n - 1) as nat);
        lemma_interned_distinct(before, printed_literal(ir[n - 1]));
    }
}

/// The variables of a program are held once each as well, so no two of
/// them share a stack slot.
pub proof fn lemma_vars_held_once(ir: Seq<IRInstructionView>, n: nat)
    requires
        n <= ir.len(),
    ensures
        declared_vars(ir, n).no_duplicates(),
        forall|k: int|
            0 <= k < n ==> (#[trigger] declared_name(ir[k]) matches Some(name) ==> declared_vars(
                ir,
                n,
            ).contains(name)),
    decreases n,
{
    if n > 0 {
        let before = declared_vars(ir, (n - 1) as nat);
        lemma_vars_held_once(ir, (n - 1) as nat);
        lemma_interned_distinct(before, declared_name(ir[n - 1]));
    }
}

/// Whether a comparison holds of two integers.
pub open spec fn holds(op: Operator, a: int, b: int) -> bool {
    match op {
        Operator::GreaterThan => a > b,
        Operator::GreaterThanEqual => a >= b,
        Operator::LessThan => a < b,
        Operator::LessThanEqual => a <= b,
        Operator::Equal => a == b,
        Operator::NotEqual => a != b,
        _ => false,
    }
}

/// Whether a conditional jump is taken after a comparison of `a` with `b`.
pub open spec fn taken(mnemonic: Seq<char>, a: int, b: int) -> bool {
    if mnemonic == "jle"@ {
        a <= b
    } else if mnemonic == "jl"@ {
        a < b
    } else if mnemonic == "jge"@ {
        a >= b
    } else if mnemonic == "jg"@ {
        a > b
    } else if mnemonic == "jne"@ {
        a != b
    } else if mnemonic == "je"@ {
        a == b
    } else {
        false
    }
}

/// Branch sense: the jump that is fused with a comparison is taken exactly
/// when the comparison does not hold.
pub proof fn lemma_fused_jump_is_inverse(op: Operator, a: int, b: int)
    requires
        op.is_comparison(),
    ensures
        branch_mnemonic(fused_jump(op)) matches Some(mnemonic) && taken(mnemonic, a, b) == !holds(
            op,
            a,
            b,
        ),
{
    reveal_strlit("jle");
    reveal_strlit("jl");
    reveal_strlit("jge");
    reveal_strlit("jg");
    reveal_strlit("jne");
    reveal_strlit("je");
    let mnemonic = branch_mnemonic(fused_jump(op)).unwrap();
    assert("jle"@.len() == 3 && "jl"@.len() == 2 && "jge"@.len() == 3 && "jg"@.len() == 2);
    assert("jne"@.len() == 3 && "je"@.len() == 2);
    assert("jle"@[1] == 'l' && "jge"@[1] == 'g' && "jne"@[1] == 'n');
    assert("jl"@[1] == 'l' && "jg"@[1] == 'g' && "je"@[1] == 'e');
}

/// Branch sense, from source to text: a loop on a comparison is lowered to
/// the condition followed by the jump fused with the comparison, aimed at
/// the exit label of the loop; and the code of that jump is the conditional
/// jump that is taken when the comparison does not hold.
pub proof fn lemma_loop_exit_jump(
    l: ExprView,
    op: Operator,
    r: ExprView,
    body: ExprView,
    reg: nat,
    label: nat,
    vars: Seq<Seq<char>>,
    pool: Seq<Seq<char>>,
    frame: nat,
)
    requires
        lower(
            ExprView::While(
                Box::new(ExprView::Binary(Box::new(l), op, Box::new(r))),
                Box::new(body),
            ),
            reg,
            label,
        ) is Some,
    ensures
        ({
            let cond = ExprView::Binary(Box::new(l), op, Box::new(r));
            let out = lower(ExprView::While(Box::new(cond), Box::new(body)), reg, label).unwrap();
            let c = lower(cond, reg, label + 2).unwrap();
            let exit = (label + 1) as u32;
            let jump = out.code[c.code.len() as int + 1];
            &&& op.is_comparison()
            &&& 1 + c.code.len() < out.code.len()
            &&& jump == instr(
                fused_jump(op),
                seq![IRValueView::TempReg((c.reg - 1) as u32), IRValueView::Label(exit)],
            )
            &&& out.code.last() == instr(Opcode::Label, seq![IRValueView::Label(exit)])
            &&& branch_mnemonic(fused_jump(op)) matches Some(mnemonic) && encode(
                jump,
                vars,
                pool,
                frame,
            ) == Some(jump_line(mnemonic, exit))
            &&& forall|a: int, b: int|
                taken(branch_mnemonic(fused_jump(op)).unwrap(), a, b) == !#[trigger] holds(op, a, b)
        }),
{
    assert forall|a: int, b: int|
        taken(branch_mnemonic(fused_jump(op)).unwrap(), a, b) == !#[trigger] holds(op, a, b) by {
        lemma_fused_jump_is_inverse(op, a, b);
    }
}

} // verus!
