use crate::middle::ir::{program_view, IRInstruction, IRInstructionView, IRValue, IRValueView, Opcode};
use crate::text::{decimal, decimal_string, option_text, signed_decimal, signed_decimal_string};
use vstd::pervasive::unreached;
use vstd::prelude::*;

verus! {

/// The name of an operation.
pub open spec fn opcode_name(opcode: Opcode) -> Seq<char> {
    match opcode {
        Opcode::Add => "Add"@,
        Opcode::Sub => "Sub"@,
        Opcode::Mul => "Mul"@,
        Opcode::Div => "Div"@,
        Opcode::Store => "Store"@,
        Opcode::LoadConst => "LoadConst"@,
        Opcode::LoadVar => "LoadVar"@,
        Opcode::StoreVar => "StoreVar"@,
        Opcode::FuncCall => "FuncCall"@,
        Opcode::FuncDef => "FuncDef"@,
        Opcode::Return => "Return"@,
        Opcode::DeclareVar => "DeclareVar"@,
        Opcode::BranchIfFalse => "BranchIfFalse"@,
        Opcode::JumpIfZero => "JumpIfZero"@,
        Opcode::Jump => "Jump"@,
        Opcode::Label => "Label"@,
        Opcode::Param => "Param"@,
        Opcode::PrintStr => "PrintStr"@,
        Opcode::PrintVar => "PrintVar"@,
        Opcode::While => "While"@,
        Opcode::BranchWhile => "BranchWhile"@,
        Opcode::Goto => "Goto"@,
        Opcode::BranchIfTrue => "BranchIfTrue"@,
        Opcode::Default => "Default"@,
        Opcode::GreaterThan => "GreaterThan"@,
        Opcode::LessThan => "LessThan"@,
        Opcode::JumpGreaterThan => "JumpGreaterThan"@,
        Opcode::JumpLessThan => "JumpLessThan"@,
        Opcode::JumpGreaterThanEqual => "JumpGreaterThanEqual"@,
        Opcode::JumpLessThanEqual => "JumpLessThanEqual"@,
        Opcode::GreaterThanEqual => "GreaterThanEqual"@,
        Opcode::LessThanEqual => "LessThanEqual"@,
        Opcode::Equal => "Equal"@,
        Opcode::NotEqual => "NotEqual"@,
        Opcode::JumpEqual => "JumpEqual"@,
        Opcode::JumpNotEqual => "JumpNotEqual"@,
        Opcode::Bool => "Bool"@,
        Opcode::JumpBool => "JumpBool"@,
        Opcode::ReadFile => "ReadFile"@,
    }
}

/// How a temporary is written.
pub open spec fn temp_text(temp: u32) -> Seq<char> {
    "_t"@ + decimal(temp as nat)
}

/// How a label is written.
pub open spec fn label_text(label: u32) -> Seq<char> {
    "L"@ + decimal(label as nat)
}

/// How the printer treats a number as the right operand of a binary operation.
#[derive(Clone, Copy)]
pub enum Immediate {
    /// The operation is not printed with a number.
    Refused,
    /// The number is written like a temporary.
    AsTemp,
    /// The number is written as it is.
    AsNumber,
}

/// An assignment of a binary operation to a temporary.
pub open spec fn assignment(result: u32, left: u32, symbol: Seq<char>, right: Seq<char>) -> Seq<char> {
    " "@ + temp_text(result) + " = "@ + temp_text(left) + " "@ + symbol + " "@ + right + ";"@
}

/// The line of a binary operation, or `otherwise` for operands of another shape.
pub open spec fn render_binary(
    symbol: Seq<char>,
    a: IRValueView,
    b: IRValueView,
    c: IRValueView,
    immediate: Immediate,
    otherwise: Option<Seq<char>>,
) -> Option<Seq<char>> {
    match (a, b, c) {
        (
            IRValueView::TempReg(left),
            IRValueView::TempReg(right),
            IRValueView::TempReg(result),
        ) => Some(assignment(result, left, symbol, temp_text(right))),
        (
            IRValueView::TempReg(left),
            IRValueView::Number(n),
            IRValueView::TempReg(result),
        ) => match immediate {
            Immediate::Refused => otherwise,
            Immediate::AsTemp => Some(
                assignment(result, left, symbol, "_t"@ + signed_decimal(n as int)),
            ),
            Immediate::AsNumber => Some(assignment(result, left, symbol, signed_decimal(n as int))),
        },
        _ => otherwise,
    }
}

/// The line of a branch on a temporary to a label, or `otherwise` for
/// operands of another shape.
pub open spec fn render_branch(
    word: Seq<char>,
    a: IRValueView,
    b: IRValueView,
    otherwise: Option<Seq<char>>,
) -> Option<Seq<char>> {
    match (a, b) {
        (IRValueView::TempReg(cond), IRValueView::Label(label)) => Some(
            " "@ + word + " "@ + temp_text(cond) + " "@ + label_text(label) + ";"@,
        ),
        _ => otherwise,
    }
}

/// The line of a jump to a label, or `otherwise` for another operand.
pub open spec fn render_goto(word: Seq<char>, a: IRValueView, otherwise: Seq<char>) -> Option<
    Seq<char>,
> {
    match a {
        IRValueView::Label(label) => Some(" "@ + word + " "@ + label_text(label) + ";"@),
        _ => Some(otherwise),
    }
}

/// The line of a load into a temporary, or `otherwise` for operands of
/// another shape.
pub open spec fn render_load(source: Option<Seq<char>>, b: IRValueView, otherwise: Seq<char>) -> Option<
    Seq<char>,
> {
    match (source, b) {
        (Some(text), IRValueView::TempReg(temp)) => Some(
            " "@ + temp_text(temp) + " = "@ + text + ";"@,
        ),
        _ => Some(otherwise),
    }
}

/// The number that an operand holds, written in decimal.
pub open spec fn number_text(a: IRValueView) -> Option<Seq<char>> {
    match a {
        IRValueView::Number(n) => Some(signed_decimal(n as int)),
        _ => None,
    }
}

/// The name of the variable that an operand holds.
pub open spec fn variable_text(a: IRValueView) -> Option<Seq<char>> {
    match a {
        IRValueView::Variable(name) => Some(name),
        _ => None,
    }
}

/// How many operands the printer reads of an instruction.
pub open spec fn operands_printed(opcode: Opcode) -> nat {
    match opcode {
        Opcode::FuncDef | Opcode::DeclareVar | Opcode::Return | Opcode::Jump | Opcode::Label
        | Opcode::PrintStr | Opcode::PrintVar | Opcode::Goto => 1,
        Opcode::LoadConst | Opcode::LoadVar | Opcode::StoreVar | Opcode::FuncCall
        | Opcode::BranchIfTrue | Opcode::BranchIfFalse | Opcode::JumpIfZero | Opcode::Param
        | Opcode::BranchWhile | Opcode::JumpLessThanEqual | Opcode::JumpGreaterThan
        | Opcode::JumpNotEqual => 2,
        Opcode::Add | Opcode::Sub | Opcode::Mul | Opcode::Div | Opcode::GreaterThan
        | Opcode::LessThan | Opcode::While | Opcode::LessThanEqual | Opcode::NotEqual => 3,
        _ => 0,
    }
}

/// The line for a function header.
pub open spec fn render_func_def(a: IRValueView) -> Option<Seq<char>> {
    match a {
        IRValueView::FuncName(name) => Some(name + ":"@),
        _ => Some("Expected FuncName for FuncDef"@),
    }
}

/// The line for a declaration.
pub open spec fn render_declare(a: IRValueView) -> Option<Seq<char>> {
    match a {
        IRValueView::Variable(name) => Some(" DeclareVar "@ + name + ";"@),
        _ => Some("Expected Variable for DeclareVar"@),
    }
}

/// The line for a store of a temporary in a variable.
pub open spec fn render_store(a: IRValueView, b: IRValueView) -> Option<Seq<char>> {
    match (a, b) {
        (IRValueView::TempReg(temp), IRValueView::Variable(name)) => Some(
            " "@ + name + " = "@ + temp_text(temp) + ";"@,
        ),
        _ => Some("Expected TempReg and Variable for StoreVar"@),
    }
}

/// The two lines for a call: the call, and the move of its result.
pub open spec fn render_call(a: IRValueView, b: IRValueView) -> Option<Seq<char>> {
    match (a, b) {
        (IRValueView::FuncName(name), IRValueView::TempReg(result)) => Some(
            " LCall "@ + name + ";\n "@ + temp_text(result) + " = rax;"@,
        ),
        _ => Some("Expected FuncName and TempReg for FuncCall"@),
    }
}

/// The line for a return.
pub open spec fn render_return(a: IRValueView) -> Option<Seq<char>> {
    match a {
        IRValueView::Number(n) => Some(" Return "@ + signed_decimal(n as int) + ";"@),
        IRValueView::TempReg(temp) => Some(" Return "@ + temp_text(temp) + ";"@),
        _ => Some("Expected Number or TempReg for Return"@),
    }
}

/// The line for a label.
pub open spec fn render_label(a: IRValueView) -> Option<Seq<char>> {
    match a {
        IRValueView::Label(label) => Some(label_text(label) + ":"@),
        _ => Some("Expected Label for Label"@),
    }
}

/// The line for the print of a string literal.
pub open spec fn render_print_str(a: IRValueView) -> Option<Seq<char>> {
    match a {
        IRValueView::Str(text) => Some(" PrintStr \""@ + text + "\";"@),
        _ => Some("Expected Str for PrintStr"@),
    }
}

/// The line for the print of a temporary.
pub open spec fn render_print_var(a: IRValueView) -> Option<Seq<char>> {
    match a {
        IRValueView::TempReg(temp) => Some(" PrintVar "@ + temp_text(temp) + ";"@),
        _ => Some("Expected TempReg for PrintVar"@),
    }
}

/// The line for a parameter or an argument.
pub open spec fn render_param(a: IRValueView, b: IRValueView) -> Option<Seq<char>> {
    match (a, b) {
        (IRValueView::Number(index), IRValueView::TempReg(temp)) => Some(
            " Param "@ + signed_decimal(index as int) + " = "@ + temp_text(temp) + ";"@,
        ),
        (IRValueView::Number(index), IRValueView::Variable(name)) => Some(
            " Param "@ + signed_decimal(index as int) + " = "@ + name + ";"@,
        ),
        _ => Some("Expected Number and TempReg or Variable for Param"@),
    }
}

/// The line for a loop header.
pub open spec fn render_while(a: IRValueView, b: IRValueView, c: IRValueView) -> Option<Seq<char>> {
    match (a, b, c) {
        (IRValueView::Label(start), IRValueView::TempReg(cond), IRValueView::Label(end)) => Some(
            " While "@ + label_text(start) + " "@ + temp_text(cond) + " "@ + label_text(end)
                + ";"@,
        ),
        _ => Some("Expected Label, TempReg, and Label for While"@),
    }
}

/// The line, without its line break, that the printer writes for an
/// instruction. `None` where it gives up: too few operands, or operands of
/// a shape that it takes to be impossible.
pub open spec fn render(i: IRInstructionView) -> Option<Seq<char>> {
    let ops = i.operands;
    if ops.len() < operands_printed(i.opcode) {
        None
    } else {
        match i.opcode {
            Opcode::FuncDef => render_func_def(ops[0]),
            Opcode::DeclareVar => render_declare(ops[0]),
            Opcode::LoadConst => render_load(
                number_text(ops[0]),
                ops[1],
                "Expected Number and TempReg for LoadConst"@,
            ),
            Opcode::LoadVar => render_load(
                variable_text(ops[0]),
                ops[1],
                "Expected Variable and TempReg for LoadVar"@,
            ),
            Opcode::StoreVar => render_store(ops[0], ops[1]),
            Opcode::Add => render_binary(
                "+"@,
                ops[0],
                ops[1],
                ops[2],
                Immediate::AsTemp,
                Some("Expected three TempRegs for Add"@),
            ),
            Opcode::Sub => render_binary(
                "-"@,
                ops[0],
                ops[1],
                ops[2],
                Immediate::AsTemp,
                Some("Expected three TempRegs for Sub"@),
            ),
            Opcode::Mul => render_binary(
                "*"@,
                ops[0],
                ops[1],
                ops[2],
                Immediate::AsTemp,
                Some("Expected three TempRegs for Mul"@),
            ),
            Opcode::Div => render_binary(
                "/"@,
                ops[0],
                ops[1],
                ops[2],
                Immediate::AsTemp,
                Some("Expected three TempRegs for Div"@),
            ),
            Opcode::FuncCall => render_call(ops[0], ops[1]),
            Opcode::Return => render_return(ops[0]),
            Opcode::BranchIfTrue => render_branch(
                "BranchIfTrue"@,
                ops[0],
                ops[1],
                Some("Expected TempReg and Label for BranchIfTrue"@),
            ),
            Opcode::BranchIfFalse => render_branch(
                "BranchIfFasle"@,
                ops[0],
                ops[1],
                Some("Expected TempReg and Label for BranchIfTrue"@),
            ),
            Opcode::JumpIfZero => render_branch(
                "JumpIfZero"@,
                ops[0],
                ops[1],
                Some("Expected TempReg and Label for JumpIfZero"@),
            ),
            Opcode::Jump => render_goto("Jump"@, ops[0], "Expected Label for Jump"@),
            Opcode::Label => render_label(ops[0]),
            Opcode::PrintStr => render_print_str(ops[0]),
            Opcode::PrintVar => render_print_var(ops[0]),
            Opcode::Param => render_param(ops[0], ops[1]),
            Opcode::GreaterThan => render_binary(
                ">"@,
                ops[0],
                ops[1],
                ops[2],
                Immediate::AsTemp,
                Some("Expected Number and TempReg or Variable for Param"@),
            ),
            Opcode::LessThan => render_binary(
                "<"@,
                ops[0],
                ops[1],
                ops[2],
                Immediate::Refused,
                Some("Expected three TempRegs for LessThan"@),
            ),
            Opcode::While => render_while(ops[0], ops[1], ops[2]),
            Opcode::BranchWhile => render_branch(
                "BranchWhile"@,
                ops[0],
                ops[1],
                Some("Expected TempReg and Label for BranchWhile"@),
            ),
            Opcode::LessThanEqual => render_binary(
                "<="@,
                ops[0],
                ops[1],
                ops[2],
                Immediate::AsNumber,
                None,
            ),
            Opcode::JumpLessThanEqual => render_branch("JumpLessThanEqual"@, ops[0], ops[1], None),
            Opcode::JumpGreaterThan => render_branch(
                "JumpGreaterThan"@,
                ops[0],
                ops[1],
                Some("Expected TempReg and Label for JumpGreaterThan"@),
            ),
            Opcode::JumpNotEqual => render_branch(
                "JumpNotEqual"@,
                ops[0],
                ops[1],
                Some("Expected TempReg and Label for JumpNotEqual"@),
            ),
            Opcode::NotEqual => render_binary(
                "!="@,
                ops[0],
                ops[1],
                ops[2],
                Immediate::AsNumber,
                Some("Expected TempRegs or TempReg, Number and TempReg for NotEqual"@),
            ),
            Opcode::Goto => render_goto("Goto"@, ops[0], "Expected Label for Goto"@),
            _ => Some(" Unsupported opcode: "@ + opcode_name(i.opcode)),
        }
    }
}

/// The listing of the first `n` instructions: one line for each, and each
/// line ended by a line break.
pub open spec fn listing(ir: Seq<IRInstructionView>, n: nat) -> Option<Seq<char>>
    decreases n,
{
    if n == 0 || n > ir.len() {
        Some(Seq::empty())
    } else {
        match (listing(ir, (n - 1) as nat), render(ir[n - 1])) {
            (Some(before), Some(line)) => Some(before + line + "\n"@),
            _ => None,
        }
    }
}

/// The view of an optional piece of text.
pub open spec fn option_str(found: Option<&str>) -> Option<Seq<char>> {
    match found {
        Some(text) => Some(text@),
        None => None,
    }
}

fn name_of(opcode: Opcode) -> (name: &'static str)
    ensures
        name@ == opcode_name(opcode),
{
    match opcode {
        Opcode::Add => "Add",
        Opcode::Sub => "Sub",
        Opcode::Mul => "Mul",
        Opcode::Div => "Div",
        Opcode::Store => "Store",
        Opcode::LoadConst => "LoadConst",
        Opcode::LoadVar => "LoadVar",
        Opcode::StoreVar => "StoreVar",
        Opcode::FuncCall => "FuncCall",
        Opcode::FuncDef => "FuncDef",
        Opcode::Return => "Return",
        Opcode::DeclareVar => "DeclareVar",
        Opcode::BranchIfFalse => "BranchIfFalse",
        Opcode::JumpIfZero => "JumpIfZero",
        Opcode::Jump => "Jump",
        Opcode::Label => "Label",
        Opcode::Param => "Param",
        Opcode::PrintStr => "PrintStr",
        Opcode::PrintVar => "PrintVar",
        Opcode::While => "While",
        Opcode::BranchWhile => "BranchWhile",
        Opcode::Goto => "Goto",
        Opcode::BranchIfTrue => "BranchIfTrue",
        Opcode::Default => "Default",
        Opcode::GreaterThan => "GreaterThan",
        Opcode::LessThan => "LessThan",
        Opcode::JumpGreaterThan => "JumpGreaterThan",
        Opcode::JumpLessThan => "JumpLessThan",
        Opcode::JumpGreaterThanEqual => "JumpGreaterThanEqual",
        Opcode::JumpLessThanEqual => "JumpLessThanEqual",
        Opcode::GreaterThanEqual => "GreaterThanEqual",
        Opcode::LessThanEqual => "LessThanEqual",
        Opcode::Equal => "Equal",
        Opcode::NotEqual => "NotEqual",
        Opcode::JumpEqual => "JumpEqual",
        Opcode::JumpNotEqual => "JumpNotEqual",
        Opcode::Bool => "Bool",
        Opcode::JumpBool => "JumpBool",
        Opcode::ReadFile => "ReadFile",
    }
}

fn temp_string(temp: u32) -> (text: String)
    ensures
        text@ == temp_text(temp),
{
    let mut text = String::from_str("_t");
    text.append(decimal_string(temp as u128).as_str());
    text
}

fn label_string(label: u32) -> (text: String)
    ensures
        text@ == label_text(label),
{
    let mut text = String::from_str("L");
    text.append(decimal_string(label as u128).as_str());
    text
}

fn fallback(otherwise: Option<&str>) -> (line: Option<String>)
    ensures
        option_text(line) == option_str(otherwise),
{
    match otherwise {
        Some(text) => Some(String::from_str(text)),
        None => None,
    }
}

fn assignment_line(result: u32, left: u32, symbol: &str, right: &str) -> (line: String)
    ensures
        line@ == assignment(result, left, symbol@, right@),
{
    let mut line = String::from_str(" ");
    line.append(temp_string(result).as_str());
    line.append(" = ");
    line.append(temp_string(left).as_str());
    line.append(" ");
    line.append(symbol);
    line.append(" ");
    line.append(right);
    line.append(";");
    line
}

fn binary_line(
    symbol: &str,
    a: &IRValue,
    b: &IRValue,
    c: &IRValue,
    immediate: Immediate,
    otherwise: Option<&str>,
) -> (line: Option<String>)
    ensures
        option_text(line) == render_binary(symbol@, a@, b@, c@, immediate, option_str(otherwise)),
{
    match (a, b, c) {
        (IRValue::TempReg(left), IRValue::TempReg(right), IRValue::TempReg(result)) => Some(
            assignment_line(*result, *left, symbol, temp_string(*right).as_str()),
        ),
        (IRValue::TempReg(left), IRValue::Number(n), IRValue::TempReg(result)) => match immediate {
            Immediate::Refused => fallback(otherwise),
            Immediate::AsTemp => {
                let mut right = String::from_str("_t");
                right.append(signed_decimal_string(*n).as_str());
                Some(assignment_line(*result, *left, symbol, right.as_str()))
            },
            Immediate::AsNumber => Some(
                assignment_line(*result, *left, symbol, signed_decimal_string(*n).as_str()),
            ),
        },
        _ => fallback(otherwise),
    }
}

fn branch_line(word: &str, a: &IRValue, b: &IRValue, otherwise: Option<&str>) -> (line: Option<
    String,
>)
    ensures
        option_text(line) == render_branch(word@, a@, b@, option_str(otherwise)),
{
    match (a, b) {
        (IRValue::TempReg(cond), IRValue::Label(label)) => {
            let mut line = String::from_str(" ");
            line.append(word);
            line.append(" ");
            line.append(temp_string(*cond).as_str());
            line.append(" ");
            line.append(label_string(*label).as_str());
            line.append(";");
            Some(line)
        },
        _ => fallback(otherwise),
    }
}

fn goto_line(word: &str, a: &IRValue, otherwise: &str) -> (line: Option<String>)
    ensures
        option_text(line) == render_goto(word@, a@, otherwise@),
{
    match a {
        IRValue::Label(label) => {
            let mut line = String::from_str(" ");
            line.append(word);
            line.append(" ");
            line.append(label_string(*label).as_str());
            line.append(";");
            Some(line)
        },
        _ => Some(String::from_str(otherwise)),
    }
}

fn load_line(source: Option<String>, b: &IRValue, otherwise: &str) -> (line: Option<String>)
    ensures
        option_text(line) == render_load(option_text(source), b@, otherwise@),
{
    match (source, b) {
        (Some(text), IRValue::TempReg(temp)) => {
            let mut line = String::from_str(" ");
            line.append(temp_string(*temp).as_str());
            line.append(" = ");
            line.append(text.as_str());
            line.append(";");
            Some(line)
        },
        _ => Some(String::from_str(otherwise)),
    }
}

fn number_of(a: &IRValue) -> (text: Option<String>)
    ensures
        option_text(text) == number_text(a@),
{
    match a {
        IRValue::Number(n) => Some(signed_decimal_string(*n)),
        _ => None,
    }
}

fn variable_of(a: &IRValue) -> (text: Option<String>)
    ensures
        option_text(text) == variable_text(a@),
{
    match a {
        IRValue::Variable(name) => Some(name.clone()),
        _ => None,
    }
}

fn func_def_line(a: &IRValue) -> (line: Option<String>)
    ensures
        option_text(line) == render_func_def(a@),
{
    match a {
        IRValue::FuncName(name) => {
            let mut line = name.clone();
            line.append(":");
            Some(line)
        },
        _ => Some(String::from_str("Expected FuncName for FuncDef")),
    }
}

fn declare_line(a: &IRValue) -> (line: Option<String>)
    ensures
        option_text(line) == render_declare(a@),
{
    match a {
        IRValue::Variable(name) => {
            let mut line = String::from_str(" DeclareVar ");
            line.append(name.as_str());
            line.append(";");
            Some(line)
        },
        _ => Some(String::from_str("Expected Variable for DeclareVar")),
    }
}

fn store_line(a: &IRValue, b: &IRValue) -> (line: Option<String>)
    ensures
        option_text(line) == render_store(a@, b@),
{
    match (a, b) {
        (IRValue::TempReg(temp), IRValue::Variable(name)) => {
            let mut line = String::from_str(" ");
            line.append(name.as_str());
            line.append(" = ");
            line.append(temp_string(*temp).as_str());
            line.append(";");
            Some(line)
        },
        _ => Some(String::from_str("Expected TempReg and Variable for StoreVar")),
    }
}

fn call_line(a: &IRValue, b: &IRValue) -> (line: Option<String>)
    ensures
        option_text(line) == render_call(a@, b@),
{
    match (a, b) {
        (IRValue::FuncName(name), IRValue::TempReg(result)) => {
            let mut line = String::from_str(" LCall ");
            line.append(name.as_str());
            line.append(";\n ");
            line.append(temp_string(*result).as_str());
            line.append(" = rax;");
            Some(line)
        },
        _ => Some(String::from_str("Expected FuncName and TempReg for FuncCall")),
    }
}

fn return_line(a: &IRValue) -> (line: Option<String>)
    ensures
        option_text(line) == render_return(a@),
{
    match a {
        IRValue::Number(n) => {
            let mut line = String::from_str(" Return ");
            line.append(signed_decimal_string(*n).as_str());
            line.append(";");
            Some(line)
        },
        IRValue::TempReg(temp) => {
            let mut line = String::from_str(" Return ");
            line.append(temp_string(*temp).as_str());
            line.append(";");
            Some(line)
        },
        _ => Some(String::from_str("Expected Number or TempReg for Return")),
    }
}

fn label_line(a: &IRValue) -> (line: Option<String>)
    ensures
        option_text(line) == render_label(a@),
{
    match a {
        IRValue::Label(label) => {
            let mut line = label_string(*label);
            line.append(":");
            Some(line)
        },
        _ => Some(String::from_str("Expected Label for Label")),
    }
}

fn print_str_line(a: &IRValue) -> (line: Option<String>)
    ensures
        option_text(line) == render_print_str(a@),
{
    match a {
        IRValue::Str(text) => {
            let mut line = String::from_str(" PrintStr \"");
            line.append(text.as_str());
            line.append("\";");
            Some(line)
        },
        _ => Some(String::from_str("Expected Str for PrintStr")),
    }
}

fn print_var_line(a: &IRValue) -> (line: Option<String>)
    ensures
        option_text(line) == render_print_var(a@),
{
    match a {
        IRValue::TempReg(temp) => {
            let mut line = String::from_str(" PrintVar ");
            line.append(temp_string(*temp).as_str());
            line.append(";");
            Some(line)
        },
        _ => Some(String::from_str("Expected TempReg for PrintVar")),
    }
}

fn param_line(a: &IRValue, b: &IRValue) -> (line: Option<String>)
    ensures
        option_text(line) == render_param(a@, b@),
{
    match (a, b) {
        (IRValue::Number(index), IRValue::TempReg(temp)) => {
            let mut line = String::from_str(" Param ");
            line.append(signed_decimal_string(*index).as_str());
            line.append(" = ");
            line.append(temp_string(*temp).as_str());
            line.append(";");
            Some(line)
        },
        (IRValue::Number(index), IRValue::Variable(name)) => {
            let mut line = String::from_str(" Param ");
            line.append(signed_decimal_string(*index).as_str());
            line.append(" = ");
            line.append(name.as_str());
            line.append(";");
            Some(line)
        },
        _ => Some(String::from_str("Expected Number and TempReg or Variable for Param")),
    }
}

fn while_line(a: &IRValue, b: &IRValue, c: &IRValue) -> (line: Option<String>)
    ensures
        option_text(line) == render_while(a@, b@, c@),
{
    match (a, b, c) {
        (IRValue::Label(start), IRValue::TempReg(cond), IRValue::Label(end)) => {
            let mut line = String::from_str(" While ");
            line.append(label_string(*start).as_str());
            line.append(" ");
            line.append(temp_string(*cond).as_str());
            line.append(" ");
            line.append(label_string(*end).as_str());
            line.append(";");
            Some(line)
        },
        _ => Some(String::from_str("Expected Label, TempReg, and Label for While")),
    }
}

fn operands_wanted(opcode: Opcode) -> (n: usize)
    ensures
        n == operands_printed(opcode),
        n <= 3,
{
    match opcode {
        Opcode::FuncDef | Opcode::DeclareVar | Opcode::Return | Opcode::Jump | Opcode::Label
        | Opcode::PrintStr | Opcode::PrintVar | Opcode::Goto => 1,
        Opcode::LoadConst | Opcode::LoadVar | Opcode::StoreVar | Opcode::FuncCall
        | Opcode::BranchIfTrue | Opcode::BranchIfFalse | Opcode::JumpIfZero | Opcode::Param
        | Opcode::BranchWhile | Opcode::JumpLessThanEqual | Opcode::JumpGreaterThan
        | Opcode::JumpNotEqual => 2,
        Opcode::Add | Opcode::Sub | Opcode::Mul | Opcode::Div | Opcode::GreaterThan
        | Opcode::LessThan | Opcode::While | Opcode::LessThanEqual | Opcode::NotEqual => 3,
        _ => 0,
    }
}

/// The line for one instruction, without its line break; `None` where the
/// printer gives up.
pub fn render_instruction(instr: &IRInstruction) -> (line: Option<String>)
    ensures
        option_text(line) == render(instr@),
{
    let ops = &instr.operands;
    if ops.len() < operands_wanted(instr.opcode) {
        return None;
    }
    match instr.opcode {
        Opcode::FuncDef => func_def_line(&ops[0]),
        Opcode::DeclareVar => declare_line(&ops[0]),
        Opcode::LoadConst => load_line(
            number_of(&ops[0]),
            &ops[1],
            "Expected Number and TempReg for LoadConst",
        ),
        Opcode::LoadVar => load_line(
            variable_of(&ops[0]),
            &ops[1],
            "Expected Variable and TempReg for LoadVar",
        ),
        Opcode::StoreVar => store_line(&ops[0], &ops[1]),
        Opcode::Add => binary_line(
            "+",
            &ops[0],
            &ops[1],
            &ops[2],
            Immediate::AsTemp,
            Some("Expected three TempRegs for Add"),
        ),
        Opcode::Sub => binary_line(
            "-",
            &ops[0],
            &ops[1],
            &ops[2],
            Immediate::AsTemp,
            Some("Expected three TempRegs for Sub"),
        ),
        Opcode::Mul => binary_line(
            "*",
            &ops[0],
            &ops[1],
            &ops[2],
            Immediate::AsTemp,
            Some("Expected three TempRegs for Mul"),
        ),
        Opcode::Div => binary_line(
            "/",
            &ops[0],
            &ops[1],
            &ops[2],
            Immediate::AsTemp,
            Some("Expected three TempRegs for Div"),
        ),
        Opcode::FuncCall => call_line(&ops[0], &ops[1]),
        Opcode::Return => return_line(&ops[0]),
        Opcode::BranchIfTrue => branch_line(
            "BranchIfTrue",
            &ops[0],
            &ops[1],
            Some("Expected TempReg and Label for BranchIfTrue"),
        ),
        Opcode::BranchIfFalse => branch_line(
            "BranchIfFasle",
            &ops[0],
            &ops[1],
            Some("Expected TempReg and Label for BranchIfTrue"),
        ),
        Opcode::JumpIfZero => branch_line(
            "JumpIfZero",
            &ops[0],
            &ops[1],
            Some("Expected TempReg and Label for JumpIfZero"),
        ),
        Opcode::Jump => goto_line("Jump", &ops[0], "Expected Label for Jump"),
        Opcode::Label => label_line(&ops[0]),
        Opcode::PrintStr => print_str_line(&ops[0]),
        Opcode::PrintVar => print_var_line(&ops[0]),
        Opcode::Param => param_line(&ops[0], &ops[1]),
        Opcode::GreaterThan => binary_line(
            ">",
            &ops[0],
            &ops[1],
            &ops[2],
            Immediate::AsTemp,
            Some("Expected Number and TempReg or Variable for Param"),
        ),
        Opcode::LessThan => binary_line(
            "<",
            &ops[0],
            &ops[1],
            &ops[2],
            Immediate::Refused,
            Some("Expected three TempRegs for LessThan"),
        ),
        Opcode::While => while_line(&ops[0], &ops[1], &ops[2]),
        Opcode::BranchWhile => branch_line(
            "BranchWhile",
            &ops[0],
            &ops[1],
            Some("Expected TempReg and Label for BranchWhile"),
        ),
        Opcode::LessThanEqual => binary_line(
            "<=",
            &ops[0],
            &ops[1],
            &ops[2],
            Immediate::AsNumber,
            None,
        ),
        Opcode::JumpLessThanEqual => branch_line("JumpLessThanEqual", &ops[0], &ops[1], None),
        Opcode::JumpGreaterThan => branch_line(
            "JumpGreaterThan",
            &ops[0],
            &ops[1],
            Some("Expected TempReg and Label for JumpGreaterThan"),
        ),
        Opcode::JumpNotEqual => branch_line(
            "JumpNotEqual",
            &ops[0],
            &ops[1],
            Some("Expected TempReg and Label for JumpNotEqual"),
        ),
        Opcode::NotEqual => binary_line(
            "!=",
            &ops[0],
            &ops[1],
            &ops[2],
            Immediate::AsNumber,
            Some("Expected TempRegs or TempReg, Number and TempReg for NotEqual"),
        ),
        Opcode::Goto => goto_line("Goto", &ops[0], "Expected Label for Goto"),
        _ => {
            let mut line = String::from_str(" Unsupported opcode: ");
            line.append(name_of(instr.opcode));
            Some(line)
        },
    }
}

/// A listing that fails up to some instruction fails beyond it.
proof fn lemma_listing_fails(ir: Seq<IRInstructionView>, i: nat, n: nat)
    requires
        i <= n <= ir.len(),
        listing(ir, i).is_none(),
    ensures
        listing(ir, n).is_none(),
    decreases n,
{
    if i < n {
        lemma_listing_fails(ir, i, (n - 1) as nat);
    }
}

/// The listing of the instructions, or `None` where the printer gives up on one.
pub fn try_print_ir(instructions: &Vec<IRInstruction>) -> (output: Option<String>)
    ensures
        option_text(output) == listing(program_view(instructions@), instructions@.len()),
{
    let mut output = String::new();
    let mut i: usize = 0;
    while i < instructions.len()
        invariant
            i <= instructions.len(),
            Some(output@) == listing(program_view(instructions@), i as nat),
        decreases instructions.len() - i,
    {
        assert(program_view(instructions@)[i as int] == instructions[i as int]@);
        let Some(line) = render_instruction(&instructions[i]) else {
            proof {
                assert(listing(program_view(instructions@), (i + 1) as nat).is_none());
                lemma_listing_fails(
                    program_view(instructions@),
                    (i + 1) as nat,
                    instructions@.len(),
                );
            }
            return None;
        };
        output.append(line.as_str());
        output.append("\n");
        i += 1;
    }
    Some(output)
}

/// The listing of instructions that the printer can all write.
pub fn print_ir(instructions: &Vec<IRInstruction>) -> (output: String)
    requires
        listing(program_view(instructions@), instructions@.len()).is_some(),
    ensures
        Some(output@) == listing(program_view(instructions@), instructions@.len()),
{
    match try_print_ir(instructions) {
        Some(output) => output,
        None => unreached(),
    }
}

} // verus!
