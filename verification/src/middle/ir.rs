use crate::frontend::ast::{lemma_view_kind, view_all, view_params, Expr, ExprView, Operator};
use crate::middle::shapes::{all_well_formed, lemma_ir_well_formed};
use vstd::pervasive::unreached;
use vstd::prelude::*;

verus! {

/// The operations of the intermediate representation.
#[derive(Debug, Clone, Copy, PartialEq, Eq)]
pub enum Opcode {
    Add,
    Sub,
    Mul,
    Div,
    Store,
    LoadConst,
    LoadVar,
    StoreVar,
    FuncCall,
    FuncDef,
    Return,
    DeclareVar,
    BranchIfFalse,
    JumpIfZero,
    Jump,
    Label,
    Param,
    PrintStr,
    PrintVar,
    While,
    BranchWhile,
    Goto,
    BranchIfTrue,
    Default,
    GreaterThan,
    LessThan,
    JumpGreaterThan,
    JumpLessThan,
    JumpGreaterThanEqual,
    JumpLessThanEqual,
    GreaterThanEqual,
    LessThanEqual,
    Equal,
    NotEqual,
    JumpEqual,
    JumpNotEqual,
    Bool,
    JumpBool,
    ReadFile,
}

/// An operand of an instruction.
#[derive(Debug, Clone, PartialEq, Eq)]
pub enum IRValue {
    Number(i32),
    TempReg(u32),
    Variable(String),
    FuncName(String),
    Label(u32),
    Str(String),
    Bool(String),
}

/// One instruction: an operation and its operands.
#[derive(Debug, Clone, PartialEq, Eq)]
pub struct IRInstruction {
    pub opcode: Opcode,
    pub operands: Vec<IRValue>,
}

/// The mathematical value of an operand.
pub enum IRValueView {
    Number(i32),
    TempReg(u32),
    Variable(Seq<char>),
    FuncName(Seq<char>),
    Label(u32),
    Str(Seq<char>),
    Bool(Seq<char>),
}

/// The mathematical value of an instruction.
pub struct IRInstructionView {
    pub opcode: Opcode,
    pub operands: Seq<IRValueView>,
}

impl View for IRValue {
    type V = IRValueView;

    open spec fn view(&self) -> IRValueView {
        match self {
            IRValue::Number(n) => IRValueView::Number(*n),
            IRValue::TempReg(t) => IRValueView::TempReg(*t),
            IRValue::Variable(name) => IRValueView::Variable(name@),
            IRValue::FuncName(name) => IRValueView::FuncName(name@),
            IRValue::Label(l) => IRValueView::Label(*l),
            IRValue::Str(text) => IRValueView::Str(text@),
            IRValue::Bool(text) => IRValueView::Bool(text@),
        }
    }
}

impl View for IRInstruction {
    type V = IRInstructionView;

    open spec fn view(&self) -> IRInstructionView {
        IRInstructionView {
            opcode: self.opcode,
            operands: self.operands@.map_values(|v: IRValue| v@),
        }
    }
}

/// The views of a list of instructions, in order.
pub open spec fn program_view(ir: Seq<IRInstruction>) -> Seq<IRInstructionView> {
    ir.map_values(|i: IRInstruction| i@)
}

/// An instruction view from its operation and operands.
pub open spec fn instr(opcode: Opcode, operands: Seq<IRValueView>) -> IRInstructionView {
    IRInstructionView { opcode, operands }
}

/// The operation that computes or compares for a source operator.
pub open spec fn binary_opcode(op: Operator) -> Opcode {
    match op {
        Operator::Add => Opcode::Add,
        Operator::Subtract => Opcode::Sub,
        Operator::Multiply => Opcode::Mul,
        Operator::Divide => Opcode::Div,
        Operator::GreaterThan => Opcode::GreaterThan,
        Operator::LessThan => Opcode::LessThan,
        Operator::GreaterThanEqual => Opcode::GreaterThanEqual,
        Operator::LessThanEqual => Opcode::LessThanEqual,
        Operator::Equal => Opcode::Equal,
        Operator::NotEqual => Opcode::NotEqual,
    }
}

/// The jump that is fused with a comparison in a condition. An arithmetic
/// operator has none and gets the placeholder operation.
pub open spec fn fused_jump(op: Operator) -> Opcode {
    match op {
        Operator::GreaterThan => Opcode::JumpGreaterThan,
        Operator::GreaterThanEqual => Opcode::JumpGreaterThanEqual,
        Operator::LessThan => Opcode::JumpLessThan,
        Operator::LessThanEqual => Opcode::JumpLessThanEqual,
        Operator::Equal => Opcode::JumpEqual,
        Operator::NotEqual => Opcode::JumpNotEqual,
        _ => Opcode::Default,
    }
}

/// The text that stands for a boolean constant in an operand.
pub open spec fn bool_text(b: bool) -> Seq<char> {
    if b {
        "true"@
    } else {
        "false"@
    }
}

/// The most arguments or parameters that a call can pass.
pub const MAX_PARAMS: usize = 6;

/// What lowering a piece of syntax yields: the instructions it emits, and the
/// next free temporary and label afterwards.
pub struct Lowered {
    pub code: Seq<IRInstructionView>,
    pub reg: nat,
    pub label: nat,
}

/// One instruction that defines the next free temporary from `source`. There
/// is none when the temporaries are used up.
pub open spec fn define_temp(opcode: Opcode, source: IRValueView, reg: nat, label: nat) -> Option<
    Lowered,
> {
    if reg < u32::MAX {
        Some(
            Lowered {
                code: seq![instr(opcode, seq![source, IRValueView::TempReg(reg as u32)])],
                reg: reg + 1,
                label,
            },
        )
    } else {
        None
    }
}

/// `code`, then one instruction whose only operand is the most recent
/// temporary. There is none when no temporary was defined yet.
pub open spec fn read_temp(code: Seq<IRInstructionView>, reg: nat, label: nat, opcode: Opcode) -> Option<
    Lowered,
> {
    if reg >= 1 {
        Some(
            Lowered {
                code: code.push(instr(opcode, seq![IRValueView::TempReg((reg - 1) as u32)])),
                reg,
                label,
            },
        )
    } else {
        None
    }
}

/// `code`, then one instruction that stores the most recent temporary in the
/// variable `name`. There is none when no temporary was defined yet.
pub open spec fn store_temp(code: Seq<IRInstructionView>, reg: nat, label: nat, name: Seq<char>) -> Option<
    Lowered,
> {
    if reg >= 1 {
        Some(
            Lowered {
                code: code.push(
                    instr(
                        Opcode::StoreVar,
                        seq![IRValueView::TempReg((reg - 1) as u32), IRValueView::Variable(name)],
                    ),
                ),
                reg,
                label,
            },
        )
    } else {
        None
    }
}

/// `code`, then one instruction that passes the most recent temporary as the
/// argument at place `index`. There is none when no temporary was defined yet.
pub open spec fn pass_temp(code: Seq<IRInstructionView>, reg: nat, label: nat, index: nat) -> Option<
    Lowered,
> {
    if reg >= 1 {
        Some(
            Lowered {
                code: code.push(
                    instr(
                        Opcode::Param,
                        seq![
                            IRValueView::Number(index as i32),
                            IRValueView::TempReg((reg - 1) as u32),
                        ],
                    ),
                ),
                reg,
                label,
            },
        )
    } else {
        None
    }
}

/// The declarations of the first `n` parameters of a function: each is
/// declared and then bound to the argument at its place.
pub open spec fn param_code(params: Seq<(Seq<char>, Seq<char>)>, n: nat) -> Seq<IRInstructionView>
    decreases n,
{
    if n == 0 {
        seq![]
    } else {
        let p = params[n - 1];
        param_code(params, (n - 1) as nat).push(
            instr(Opcode::DeclareVar, seq![IRValueView::Variable(p.0), IRValueView::Variable(p.1)]),
        ).push(
            instr(
                Opcode::Param,
                seq![IRValueView::Number((n - 1) as i32), IRValueView::Variable(p.0)],
            ),
        )
    }
}

/// The branch that follows the condition of an `if`: the jump fused with a
/// comparison; for a variable, a test of its truth and a jump; for anything
/// else the placeholder operation. The jump leads to `target` when the
/// condition does not hold.
pub open spec fn if_branch(cond: ExprView, reg: nat, label: nat, target: u32) -> Option<Lowered> {
    if reg >= 1 {
        let cond_reg = IRValueView::TempReg((reg - 1) as u32);
        let goal = IRValueView::Label(target);
        match cond {
            ExprView::Binary(_, op, _) => Some(
                Lowered { code: seq![instr(fused_jump(op), seq![cond_reg, goal])], reg, label },
            ),
            ExprView::Variable(_) => if reg < u32::MAX {
                Some(
                    Lowered {
                        code: seq![
                            instr(
                                Opcode::Bool,
                                seq![IRValueView::Bool("true"@), IRValueView::TempReg(reg as u32)],
                            ),
                            instr(Opcode::JumpBool, seq![cond_reg, goal]),
                        ],
                        reg: reg + 1,
                        label,
                    },
                )
            } else {
                None
            },
            _ => Some(
                Lowered { code: seq![instr(Opcode::Default, seq![cond_reg, goal])], reg, label },
            ),
        }
    } else {
        None
    }
}

/// The instructions for a syntax tree, with `reg` the next free temporary and
/// `label` the next free label. `None` where the tree cannot be lowered: a
/// shape without a lowering, an assignment whose target is no variable, a
/// `while` whose condition is no comparison, more than six parameters or
/// arguments, a use of a temporary before any was defined, or a counter that
/// would leave 32 bits.
pub open spec fn lower(e: ExprView, reg: nat, label: nat) -> Option<Lowered>
    decreases e, 0nat,
{
    match e {
        ExprView::Program(stmts) => lower_upto(stmts, stmts.len(), reg, label),
        ExprView::Statements(stmts) => lower_upto(stmts, stmts.len(), reg, label),
        ExprView::MainFuncDef(body) => match lower(*body, reg, label) {
            Some(b) => Some(
                Lowered {
                    code: seq![instr(Opcode::FuncDef, seq![IRValueView::FuncName("main"@)])]
                        + b.code + seq![instr(Opcode::Return, seq![IRValueView::Number(0)])],
                    reg: b.reg,
                    label: b.label,
                },
            ),
            None => None,
        },
        ExprView::Number(n) => define_temp(Opcode::LoadConst, IRValueView::Number(n), reg, label),
        ExprView::Variable(name) => define_temp(
            Opcode::LoadVar,
            IRValueView::Variable(name),
            reg,
            label,
        ),
        ExprView::Boolean(b) => define_temp(
            Opcode::LoadConst,
            IRValueView::Bool(bool_text(b)),
            reg,
            label,
        ),
        ExprView::Binary(l, op, r) => match lower(*l, reg, label) {
            Some(a) => if a.reg >= 1 {
                let left = IRValueView::TempReg((a.reg - 1) as u32);
                match *r {
                    ExprView::Number(n) => if a.reg < u32::MAX {
                        Some(
                            Lowered {
                                code: a.code.push(
                                    instr(
                                        binary_opcode(op),
                                        seq![
                                            left,
                                            IRValueView::Number(n),
                                            IRValueView::TempReg(a.reg as u32),
                                        ],
                                    ),
                                ),
                                reg: a.reg + 1,
                                label: a.label,
                            },
                        )
                    } else {
                        None
                    },
                    _ => match lower(*r, a.reg, a.label) {
                        Some(b) => if 1 <= b.reg < u32::MAX {
                            Some(
                                Lowered {
                                    code: (a.code + b.code).push(
                                        instr(
                                            binary_opcode(op),
                                            seq![
                                                left,
                                                IRValueView::TempReg((b.reg - 1) as u32),
                                                IRValueView::TempReg(b.reg as u32),
                                            ],
                                        ),
                                    ),
                                    reg: b.reg + 1,
                                    label: b.label,
                                },
                            )
                        } else {
                            None
                        },
                        None => None,
                    },
                }
            } else {
                None
            },
            None => None,
        },
        ExprView::Assign(target, value) => match lower(*value, reg, label) {
            Some(v) => match *target {
                ExprView::Variable(name) => store_temp(v.code, v.reg, v.label, name),
                _ => None,
            },
            None => None,
        },
        ExprView::VarDeclaration(name, typ) => Some(
            Lowered {
                code: seq![
                    instr(
                        Opcode::DeclareVar,
                        seq![IRValueView::Variable(name), IRValueView::Variable(typ)],
                    ),
                ],
                reg,
                label,
            },
        ),
        ExprView::VarDeclarationWithAssignment(name, typ, init) => match lower(*init, reg, label) {
            Some(v) => store_temp(
                seq![
                    instr(
                        Opcode::DeclareVar,
                        seq![IRValueView::Variable(name), IRValueView::Variable(typ)],
                    ),
                ] + v.code,
                v.reg,
                v.label,
                name,
            ),
            None => None,
        },
        ExprView::FuncDef(name, _, params, body) => if params.len() <= MAX_PARAMS {
            match lower(*body, reg, label) {
                Some(b) => Some(
                    Lowered {
                        code: seq![instr(Opcode::FuncDef, seq![IRValueView::FuncName(name)])]
                            + param_code(params, params.len()) + b.code,
                        reg: b.reg,
                        label: b.label,
                    },
                ),
                None => None,
            }
        } else {
            None
        },
        ExprView::FuncCall(name, args) => if args.len() <= MAX_PARAMS {
            match lower_args(args, args.len(), reg, label) {
                Some(a) => if a.reg < u32::MAX {
                    Some(
                        Lowered {
                            code: a.code.push(
                                instr(
                                    Opcode::FuncCall,
                                    seq![
                                        IRValueView::FuncName(name),
                                        IRValueView::TempReg(a.reg as u32),
                                    ],
                                ),
                            ),
                            reg: a.reg + 1,
                            label: a.label,
                        },
                    )
                } else {
                    None
                },
                None => None,
            }
        } else {
            None
        },
        ExprView::Return(value) => match lower(*value, reg, label) {
            Some(v) => read_temp(v.code, v.reg, v.label, Opcode::Return),
            None => None,
        },
        ExprView::If(cond, then_branch, els) => if label + 2 <= u32::MAX {
            let else_label = label as u32;
            let end_label = (label + 1) as u32;
            match lower(*cond, reg, label + 2) {
                Some(c) => match if_branch(*cond, c.reg, c.label, else_label) {
                    Some(j) => match lower(*then_branch, j.reg, j.label) {
                        Some(t) => {
                            let taken = c.code + j.code + t.code + seq![
                                instr(Opcode::Jump, seq![IRValueView::Label(end_label)]),
                                instr(Opcode::Label, seq![IRValueView::Label(else_label)]),
                            ];
                            let end = instr(Opcode::Label, seq![IRValueView::Label(end_label)]);
                            match els {
                                Some(branch) => match lower(*branch, t.reg, t.label) {
                                    Some(f) => Some(
                                        Lowered {
                                            code: (taken + f.code).push(end),
                                            reg: f.reg,
                                            label: f.label,
                                        },
                                    ),
                                    None => None,
                                },
                                None => Some(
                                    Lowered { code: taken.push(end), reg: t.reg, label: t.label },
                                ),
                            }
                        },
                        None => None,
                    },
                    None => None,
                },
                None => None,
            }
        } else {
            None
        },
        ExprView::While(cond, body) => if label + 2 <= u32::MAX {
            let start_label = label as u32;
            let end_label = (label + 1) as u32;
            match *cond {
                ExprView::Binary(_, op, _) => if op.is_comparison() {
                    match lower(*cond, reg, label + 2) {
                        Some(c) => if c.reg >= 1 {
                            match lower(*body, c.reg, c.label) {
                                Some(b) => Some(
                                    Lowered {
                                        code: seq![
                                            instr(
                                                Opcode::Label,
                                                seq![IRValueView::Label(start_label)],
                                            ),
                                        ] + c.code + seq![
                                            instr(
                                                fused_jump(op),
                                                seq![
                                                    IRValueView::TempReg((c.reg - 1) as u32),
                                                    IRValueView::Label(end_label),
                                                ],
                                            ),
                                        ] + b.code + seq![
                                            instr(
                                                Opcode::Jump,
                                                seq![IRValueView::Label(start_label)],
                                            ),
                                            instr(
                                                Opcode::Label,
                                                seq![IRValueView::Label(end_label)],
                                            ),
                                        ],
                                        reg: b.reg,
                                        label: b.label,
                                    },
                                ),
                                None => None,
                            }
                        } else {
                            None
                        },
                        None => None,
                    }
                } else {
                    None
                },
                _ => None,
            }
        } else {
            None
        },
        ExprView::PrintStr(text) => Some(
            Lowered {
                code: seq![instr(Opcode::PrintStr, seq![IRValueView::Str(text)])],
                reg,
                label,
            },
        ),
        ExprView::Print(value) => match lower(*value, reg, label) {
            Some(v) => read_temp(v.code, v.reg, v.label, Opcode::PrintVar),
            None => None,
        },
        ExprView::String(_) => None,
        ExprView::Semicolon(_) => None,
    }
}

/// The instructions for the first `n` statements of a list, in order.
pub open spec fn lower_upto(stmts: Seq<ExprView>, n: nat, reg: nat, label: nat) -> Option<Lowered>
    decreases stmts, n,
{
    if n == 0 || n > stmts.len() {
        Some(Lowered { code: seq![], reg, label })
    } else {
        match lower_upto(stmts, (n - 1) as nat, reg, label) {
            Some(before) => match lower(stmts[n - 1], before.reg, before.label) {
                Some(s) => Some(
                    Lowered { code: before.code + s.code, reg: s.reg, label: s.label },
                ),
                None => None,
            },
            None => None,
        }
    }
}

/// The instructions that evaluate the first `n` arguments of a call and pass
/// each at its place.
pub open spec fn lower_args(args: Seq<ExprView>, n: nat, reg: nat, label: nat) -> Option<Lowered>
    decreases args, n,
{
    if n == 0 || n > args.len() {
        Some(Lowered { code: seq![], reg, label })
    } else {
        match lower_args(args, (n - 1) as nat, reg, label) {
            Some(before) => match lower(args[n - 1], before.reg, before.label) {
                Some(a) => pass_temp(before.code + a.code, a.reg, a.label, (n - 1) as nat),
                None => None,
            },
            None => None,
        }
    }
}

/// An instruction with one operand.
fn instr1(opcode: Opcode, a: IRValue) -> (i: IRInstruction)
    ensures
        i@ == instr(opcode, seq![a@]),
{
    let i = IRInstruction { opcode, operands: vec![a] };
    assert(i@.operands =~= seq![a@]);
    i
}

/// An instruction with two operands.
fn instr2(opcode: Opcode, a: IRValue, b: IRValue) -> (i: IRInstruction)
    ensures
        i@ == instr(opcode, seq![a@, b@]),
{
    let i = IRInstruction { opcode, operands: vec![a, b] };
    assert(i@.operands =~= seq![a@, b@]);
    i
}

/// An instruction with three operands.
fn instr3(opcode: Opcode, a: IRValue, b: IRValue, c: IRValue) -> (i: IRInstruction)
    ensures
        i@ == instr(opcode, seq![a@, b@, c@]),
{
    let i = IRInstruction { opcode, operands: vec![a, b, c] };
    assert(i@.operands =~= seq![a@, b@, c@]);
    i
}

/// Appends one instruction.
fn emit(instructions: &mut Vec<IRInstruction>, i: IRInstruction)
    ensures
        program_view(final(instructions)@) == program_view(old(instructions)@).push(i@),
{
    instructions.push(i);
    assert(program_view(instructions@) =~= program_view(old(instructions)@).push(i@));
}

fn opcode_for(op: Operator) -> (opcode: Opcode)
    ensures
        opcode == binary_opcode(op),
{
    match op {
        Operator::Add => Opcode::Add,
        Operator::Subtract => Opcode::Sub,
        Operator::Multiply => Opcode::Mul,
        Operator::Divide => Opcode::Div,
        Operator::GreaterThan => Opcode::GreaterThan,
        Operator::LessThan => Opcode::LessThan,
        Operator::GreaterThanEqual => Opcode::GreaterThanEqual,
        Operator::LessThanEqual => Opcode::LessThanEqual,
        Operator::Equal => Opcode::Equal,
        Operator::NotEqual => Opcode::NotEqual,
    }
}

fn jump_for(op: Operator) -> (opcode: Opcode)
    ensures
        opcode == fused_jump(op),
        (opcode != Opcode::Default) == op.is_comparison(),
{
    match op {
        Operator::GreaterThan => Opcode::JumpGreaterThan,
        Operator::GreaterThanEqual => Opcode::JumpGreaterThanEqual,
        Operator::LessThan => Opcode::JumpLessThan,
        Operator::LessThanEqual => Opcode::JumpLessThanEqual,
        Operator::Equal => Opcode::JumpEqual,
        Operator::NotEqual => Opcode::JumpNotEqual,
        _ => Opcode::Default,
    }
}

/// A list that cannot be lowered up to some statement cannot be lowered
/// beyond it.
proof fn lemma_upto_fails(stmts: Seq<ExprView>, i: nat, n: nat, reg: nat, label: nat)
    requires
        i <= n <= stmts.len(),
        lower_upto(stmts, i, reg, label).is_none(),
    ensures
        lower_upto(stmts, n, reg, label).is_none(),
    decreases n,
{
    if i < n {
        lemma_upto_fails(stmts, i, (n - 1) as nat, reg, label);
    }
}

/// Arguments that cannot be lowered up to some place cannot be lowered
/// beyond it.
proof fn lemma_args_fail(args: Seq<ExprView>, i: nat, n: nat, reg: nat, label: nat)
    requires
        i <= n <= args.len(),
        lower_args(args, i, reg, label).is_none(),
    ensures
        lower_args(args, n, reg, label).is_none(),
    decreases n,
{
    if i < n {
        lemma_args_fail(args, i, (n - 1) as nat, reg, label);
    }
}

/// Whether the state after a call is what `expected` says of the state before.
pub open spec fn lowered_to(
    expected: Option<Lowered>,
    done: bool,
    before: Seq<IRInstruction>,
    after: Seq<IRInstruction>,
    reg: u32,
    label: u32,
) -> bool {
    &&& done == expected.is_some()
    &&& done ==> {
        &&& program_view(after) == program_view(before) + expected.unwrap().code
        &&& reg == expected.unwrap().reg
        &&& label == expected.unwrap().label
    }
}

/// Lowers a list of statements in order. Returns `false`, with the output
/// in an unspecified state, where the list cannot be lowered.
fn lower_statements(
    stmts: &Vec<Expr>,
    instructions: &mut Vec<IRInstruction>,
    reg_counter: &mut u32,
    label_counter: &mut u32,
) -> (done: bool)
    ensures
        lowered_to(
            lower_upto(
                view_all(stmts@),
                stmts@.len(),
                *old(reg_counter) as nat,
                *old(label_counter) as nat,
            ),
            done,
            old(instructions)@,
            final(instructions)@,
            *final(reg_counter),
            *final(label_counter),
        ),
    decreases stmts, 0nat,
{
    let ghost vs = view_all(stmts@);
    let ghost reg0 = *reg_counter as nat;
    let ghost label0 = *label_counter as nat;
    let ghost code0 = program_view(instructions@);
    let mut i: usize = 0;
    assert(code0 =~= code0 + Seq::<IRInstructionView>::empty());
    while i < stmts.len()
        invariant
            i <= stmts.len(),
            vs == view_all(stmts@),
            reg0 == *old(reg_counter),
            label0 == *old(label_counter),
            lowered_to(
                lower_upto(vs, i as nat, reg0, label0),
                true,
                old(instructions)@,
                instructions@,
                *reg_counter,
                *label_counter,
            ),
        decreases stmts.len() - i,
    {
        let ghost before = lower_upto(vs, i as nat, reg0, label0).unwrap();
        let done = generate_ir_recursive(&stmts[i], instructions, reg_counter, label_counter);
        assert(vs[i as int] == stmts[i as int]@);
        if !done {
            proof {
                assert(lower_upto(vs, (i + 1) as nat, reg0, label0).is_none());
                lemma_upto_fails(vs, (i + 1) as nat, stmts@.len(), reg0, label0);
            }
            return false;
        }
        proof {
            let s = lower(vs[i as int], before.reg, before.label).unwrap();
            assert(program_view(instructions@) =~= program_view(old(instructions)@) + (before.code
                + s.code));
        }
        i += 1;
    }
    true
}

/// Lowers the arguments of a call in order, passing each at its place.
/// Returns `false` where they cannot be lowered.
fn lower_arguments(
    args: &Vec<Expr>,
    instructions: &mut Vec<IRInstruction>,
    reg_counter: &mut u32,
    label_counter: &mut u32,
) -> (done: bool)
    requires
        args@.len() <= MAX_PARAMS,
    ensures
        lowered_to(
            lower_args(
                view_all(args@),
                args@.len(),
                *old(reg_counter) as nat,
                *old(label_counter) as nat,
            ),
            done,
            old(instructions)@,
            final(instructions)@,
            *final(reg_counter),
            *final(label_counter),
        ),
    decreases args, 0nat,
{
    let ghost vs = view_all(args@);
    let ghost reg0 = *reg_counter as nat;
    let ghost label0 = *label_counter as nat;
    let mut i: usize = 0;
    assert(program_view(instructions@) =~= program_view(instructions@) + Seq::<
        IRInstructionView,
    >::empty());
    while i < args.len()
        invariant
            i <= args.len() <= MAX_PARAMS,
            vs == view_all(args@),
            reg0 == *old(reg_counter),
            label0 == *old(label_counter),
            lowered_to(
                lower_args(vs, i as nat, reg0, label0),
                true,
                old(instructions)@,
                instructions@,
                *reg_counter,
                *label_counter,
            ),
        decreases args.len() - i,
    {
        let ghost before = lower_args(vs, i as nat, reg0, label0).unwrap();
        let done = generate_ir_recursive(&args[i], instructions, reg_counter, label_counter);
        assert(vs[i as int] == args[i as int]@);
        if !done || *reg_counter == 0 {
            proof {
                assert(lower_args(vs, (i + 1) as nat, reg0, label0).is_none());
                lemma_args_fail(vs, (i + 1) as nat, args@.len(), reg0, label0);
            }
            return false;
        }
        let ghost a = lower(vs[i as int], before.reg, before.label).unwrap();
        emit(
            instructions,
            instr2(Opcode::Param, IRValue::Number(i as i32), IRValue::TempReg(*reg_counter - 1)),
        );
        proof {
            assert(program_view(instructions@) =~= program_view(old(instructions)@) + (before.code
                + a.code).push(
                instr(
                    Opcode::Param,
                    seq![
                        IRValueView::Number(i as i32),
                        IRValueView::TempReg((a.reg - 1) as u32),
                    ],
                ),
            ));
        }
        i += 1;
    }
    true
}

/// Lowers the entry function: its body between the function header and an
/// implicit `return 0`.
fn lower_main(
    ast: &Expr,
    instructions: &mut Vec<IRInstruction>,
    reg_counter: &mut u32,
    label_counter: &mut u32,
) -> (done: bool)
    requires
        ast is MainFuncDef,
    ensures
        lowered_to(
            lower(ast@, *old(reg_counter) as nat, *old(label_counter) as nat),
            done,
            old(instructions)@,
            final(instructions)@,
            *final(reg_counter),
            *final(label_counter),
        ),
    decreases ast, 0nat,
{
    let ghost code0 = program_view(instructions@);
    let ghost reg0 = *reg_counter as nat;
    let ghost label0 = *label_counter as nat;
    let Expr::MainFuncDef(statements) = ast else {
        return unreached();
    };
    emit(instructions, instr1(Opcode::FuncDef, IRValue::FuncName(String::from_str("main"))));
    if !generate_ir_recursive(statements, instructions, reg_counter, label_counter) {
        return false;
    }
    emit(instructions, instr1(Opcode::Return, IRValue::Number(0)));
    proof {
        let l = lower(ast@, reg0, label0).unwrap();
        assert(program_view(instructions@) =~= code0 + l.code);
    }
    true
}

/// Lowers a binary operation. A number on the right is used as it stands;
/// anything else is lowered to a temporary first.
fn lower_binary(
    ast: &Expr,
    instructions: &mut Vec<IRInstruction>,
    reg_counter: &mut u32,
    label_counter: &mut u32,
) -> (done: bool)
    requires
        ast is Binary,
    ensures
        lowered_to(
            lower(ast@, *old(reg_counter) as nat, *old(label_counter) as nat),
            done,
            old(instructions)@,
            final(instructions)@,
            *final(reg_counter),
            *final(label_counter),
        ),
    decreases ast, 0nat,
{
    let ghost code0 = program_view(instructions@);
    let ghost reg0 = *reg_counter as nat;
    let ghost label0 = *label_counter as nat;
    let Expr::Binary(left, op, right) = ast else {
        return unreached();
    };
    proof {
        lemma_view_kind(**right);
    }
    if !generate_ir_recursive(left, instructions, reg_counter, label_counter) {
        return false;
    }
    if *reg_counter == 0 {
        return false;
    }
    let left_reg = *reg_counter - 1;
    let right_operand = if let Expr::Number(value) = &**right {
        IRValue::Number(*value)
    } else {
        if !generate_ir_recursive(right, instructions, reg_counter, label_counter) {
            return false;
        }
        if *reg_counter == 0 {
            return false;
        }
        IRValue::TempReg(*reg_counter - 1)
    };
    if *reg_counter == u32::MAX {
        return false;
    }
    let result_reg = *reg_counter;
    emit(
        instructions,
        instr3(
            opcode_for(*op),
            IRValue::TempReg(left_reg),
            right_operand,
            IRValue::TempReg(result_reg),
        ),
    );
    *reg_counter += 1;
    proof {
        let l = lower(ast@, reg0, label0).unwrap();
        assert(program_view(instructions@) =~= code0 + l.code);
    }
    true
}

/// Lowers an assignment: the value, then a store into the target variable.
fn lower_assign(
    ast: &Expr,
    instructions: &mut Vec<IRInstruction>,
    reg_counter: &mut u32,
    label_counter: &mut u32,
) -> (done: bool)
    requires
        ast is Assign,
    ensures
        lowered_to(
            lower(ast@, *old(reg_counter) as nat, *old(label_counter) as nat),
            done,
            old(instructions)@,
            final(instructions)@,
            *final(reg_counter),
            *final(label_counter),
        ),
    decreases ast, 0nat,
{
    let ghost code0 = program_view(instructions@);
    let ghost reg0 = *reg_counter as nat;
    let ghost label0 = *label_counter as nat;
    let Expr::Assign(lhs, rhs) = ast else {
        return unreached();
    };
    proof {
        lemma_view_kind(**lhs);
    }
    if !generate_ir_recursive(rhs, instructions, reg_counter, label_counter) {
        return false;
    }
    let Expr::Variable(var_name) = &**lhs else {
        return false;
    };
    if *reg_counter == 0 {
        return false;
    }
    emit(
        instructions,
        instr2(
            Opcode::StoreVar,
            IRValue::TempReg(*reg_counter - 1),
            IRValue::Variable(var_name.clone()),
        ),
    );
    proof {
        let l = lower(ast@, reg0, label0).unwrap();
        assert(program_view(instructions@) =~= code0 + l.code);
    }
    true
}

/// Lowers a declaration with an initial value: the declaration, the value,
/// then a store into the new variable.
fn lower_initialized(
    ast: &Expr,
    instructions: &mut Vec<IRInstruction>,
    reg_counter: &mut u32,
    label_counter: &mut u32,
) -> (done: bool)
    requires
        ast is VarDeclarationWithAssignment,
    ensures
        lowered_to(
            lower(ast@, *old(reg_counter) as nat, *old(label_counter) as nat),
            done,
            old(instructions)@,
            final(instructions)@,
            *final(reg_counter),
            *final(label_counter),
        ),
    decreases ast, 0nat,
{
    let ghost code0 = program_view(instructions@);
    let ghost reg0 = *reg_counter as nat;
    let ghost label0 = *label_counter as nat;
    let Expr::VarDeclarationWithAssignment(name, typ, expr) = ast else {
        return unreached();
    };
    emit(
        instructions,
        instr2(Opcode::DeclareVar, IRValue::Variable(name.clone()), IRValue::Variable(typ.clone())),
    );
    if !generate_ir_recursive(expr, instructions, reg_counter, label_counter) {
        return false;
    }
    if *reg_counter == 0 {
        return false;
    }
    emit(
        instructions,
        instr2(
            Opcode::StoreVar,
            IRValue::TempReg(*reg_counter - 1),
            IRValue::Variable(name.clone()),
        ),
    );
    proof {
        let l = lower(ast@, reg0, label0).unwrap();
        assert(program_view(instructions@) =~= code0 + l.code);
    }
    true
}

/// Lowers a function definition: the header, the parameters in order, then
/// the body.
fn lower_func_def(
    ast: &Expr,
    instructions: &mut Vec<IRInstruction>,
    reg_counter: &mut u32,
    label_counter: &mut u32,
) -> (done: bool)
    requires
        ast is FuncDef,
    ensures
        lowered_to(
            lower(ast@, *old(reg_counter) as nat, *old(label_counter) as nat),
            done,
            old(instructions)@,
            final(instructions)@,
            *final(reg_counter),
            *final(label_counter),
        ),
    decreases ast, 0nat,
{
    let ghost code0 = program_view(instructions@);
    let ghost reg0 = *reg_counter as nat;
    let ghost label0 = *label_counter as nat;
    let Expr::FuncDef(name, _ret_type, params, body) = ast else {
        return unreached();
    };
    if params.len() > MAX_PARAMS {
        return false;
    }
    emit(instructions, instr1(Opcode::FuncDef, IRValue::FuncName(name.clone())));
    let ghost ps = view_params(params@);
    let ghost header = seq![instr(Opcode::FuncDef, seq![IRValueView::FuncName(name@)])];
    let mut i: usize = 0;
    assert(program_view(instructions@) =~= code0 + (header + param_code(ps, 0)));
    while i < params.len()
        invariant
            i <= params.len() <= MAX_PARAMS,
            ps == view_params(params@),
            program_view(instructions@) == code0 + (header + param_code(ps, i as nat)),
        decreases params.len() - i,
    {
        emit(
            instructions,
            instr2(
                Opcode::DeclareVar,
                IRValue::Variable(params[i].0.clone()),
                IRValue::Variable(params[i].1.clone()),
            ),
        );
        emit(
            instructions,
            instr2(Opcode::Param, IRValue::Number(i as i32), IRValue::Variable(params[i].0.clone())),
        );
        i += 1;
        assert(program_view(instructions@) =~= code0 + (header + param_code(ps, i as nat)));
    }
    if !generate_ir_recursive(body, instructions, reg_counter, label_counter) {
        return false;
    }
    proof {
        let l = lower(ast@, reg0, label0).unwrap();
        assert(program_view(instructions@) =~= code0 + l.code);
    }
    true
}

/// Lowers a call: the arguments, then the call itself, whose result defines
/// a new temporary.
fn lower_call(
    ast: &Expr,
    instructions: &mut Vec<IRInstruction>,
    reg_counter: &mut u32,
    label_counter: &mut u32,
) -> (done: bool)
    requires
        ast is FuncCall,
    ensures
        lowered_to(
            lower(ast@, *old(reg_counter) as nat, *old(label_counter) as nat),
            done,
            old(instructions)@,
            final(instructions)@,
            *final(reg_counter),
            *final(label_counter),
        ),
    decreases ast, 0nat,
{
    let ghost code0 = program_view(instructions@);
    let ghost reg0 = *reg_counter as nat;
    let ghost label0 = *label_counter as nat;
    let Expr::FuncCall(name, args) = ast else {
        return unreached();
    };
    if args.len() > MAX_PARAMS {
        return false;
    }
    if !lower_arguments(args, instructions, reg_counter, label_counter) {
        return false;
    }
    if *reg_counter == u32::MAX {
        return false;
    }
    let call_reg = *reg_counter;
    emit(
        instructions,
        instr2(Opcode::FuncCall, IRValue::FuncName(name.clone()), IRValue::TempReg(call_reg)),
    );
    *reg_counter += 1;
    proof {
        let l = lower(ast@, reg0, label0).unwrap();
        assert(program_view(instructions@) =~= code0 + l.code);
    }
    true
}

/// Emits the branch that follows the condition of an `if`. Returns `false`
/// where no temporary holds the condition or none is left for the test.
fn emit_if_branch(
    cond: &Expr,
    target: u32,
    instructions: &mut Vec<IRInstruction>,
    reg_counter: &mut u32,
    Ghost(label): Ghost<u32>,
) -> (done: bool)
    ensures
        lowered_to(
            if_branch(cond@, *old(reg_counter) as nat, label as nat, target),
            done,
            old(instructions)@,
            final(instructions)@,
            *final(reg_counter),
            label,
        ),
{
    let ghost code0 = program_view(instructions@);
    let ghost reg0 = *reg_counter as nat;
    proof {
        lemma_view_kind(*cond);
    }
    if *reg_counter == 0 {
        return false;
    }
    let cond_reg = *reg_counter - 1;
    let opcode = match cond {
        Expr::Binary(_, op, _) => jump_for(*op),
        Expr::Variable(_) => {
            if *reg_counter == u32::MAX {
                return false;
            }
            emit(
                instructions,
                instr2(
                    Opcode::Bool,
                    IRValue::Bool(String::from_str("true")),
                    IRValue::TempReg(*reg_counter),
                ),
            );
            *reg_counter += 1;
            Opcode::JumpBool
        },
        _ => Opcode::Default,
    };
    emit(instructions, instr2(opcode, IRValue::TempReg(cond_reg), IRValue::Label(target)));
    proof {
        let j = if_branch(cond@, reg0, label as nat, target).unwrap();
        assert(program_view(instructions@) =~= code0 + j.code);
    }
    true
}

/// Lowers a conditional. The condition is fused with a jump to the else
/// label, which is taken when the condition does not hold.
fn lower_if(
    ast: &Expr,
    instructions: &mut Vec<IRInstruction>,
    reg_counter: &mut u32,
    label_counter: &mut u32,
) -> (done: bool)
    requires
        ast is If,
    ensures
        lowered_to(
            lower(ast@, *old(reg_counter) as nat, *old(label_counter) as nat),
            done,
            old(instructions)@,
            final(instructions)@,
            *final(reg_counter),
            *final(label_counter),
        ),
    decreases ast, 0nat,
{
    let ghost code0 = program_view(instructions@);
    let ghost reg0 = *reg_counter as nat;
    let ghost label0 = *label_counter as nat;
    let Expr::If(cond, then_branch, els) = ast else {
        return unreached();
    };
    if *label_counter > u32::MAX - 2 {
        return false;
    }
    let first_label = *label_counter;
    let end_label = *label_counter + 1;
    *label_counter += 2;
    if !generate_ir_recursive(cond, instructions, reg_counter, label_counter) {
        return false;
    }
    let ghost c = lower(cond@, reg0, label0 + 2).unwrap();
    if !emit_if_branch(cond, first_label, instructions, reg_counter, Ghost(*label_counter)) {
        return false;
    }
    let ghost j = if_branch(cond@, c.reg, c.label, first_label).unwrap();
    assert(program_view(instructions@) =~= code0 + (c.code + j.code));
    if !generate_ir_recursive(then_branch, instructions, reg_counter, label_counter) {
        return false;
    }
    emit(instructions, instr1(Opcode::Jump, IRValue::Label(end_label)));
    emit(instructions, instr1(Opcode::Label, IRValue::Label(first_label)));
    let ghost t = lower(then_branch@, j.reg, j.label).unwrap();
    let ghost taken = c.code + j.code + t.code + seq![
        instr(Opcode::Jump, seq![IRValueView::Label(end_label)]),
        instr(Opcode::Label, seq![IRValueView::Label(first_label)]),
    ];
    assert(program_view(instructions@) =~= code0 + taken);
    if let Some(els_exp) = els {
        if !generate_ir_recursive(els_exp, instructions, reg_counter, label_counter) {
            return false;
        }
    }
    emit(instructions, instr1(Opcode::Label, IRValue::Label(end_label)));
    proof {
        let l = lower(ast@, reg0, label0).unwrap();
        assert(program_view(instructions@) =~= code0 + l.code);
    }
    true
}

/// Lowers a loop. The condition must be a comparison; it is fused with a
/// jump to the end label, which is taken when the condition does not hold.
fn lower_while(
    ast: &Expr,
    instructions: &mut Vec<IRInstruction>,
    reg_counter: &mut u32,
    label_counter: &mut u32,
) -> (done: bool)
    requires
        ast is While,
    ensures
        lowered_to(
            lower(ast@, *old(reg_counter) as nat, *old(label_counter) as nat),
            done,
            old(instructions)@,
            final(instructions)@,
            *final(reg_counter),
            *final(label_counter),
        ),
    decreases ast, 0nat,
{
    let ghost code0 = program_view(instructions@);
    let ghost reg0 = *reg_counter as nat;
    let ghost label0 = *label_counter as nat;
    let Expr::While(condition, body) = ast else {
        return unreached();
    };
    proof {
        lemma_view_kind(**condition);
    }
    if *label_counter > u32::MAX - 2 {
        return false;
    }
    let start_label = *label_counter;
    let end_label = *label_counter + 1;
    *label_counter += 2;
    let opcode = match &**condition {
        Expr::Binary(_, op, _) => jump_for(*op),
        _ => Opcode::Default,
    };
    if let Opcode::Default = opcode {
        return false;
    }
    emit(instructions, instr1(Opcode::Label, IRValue::Label(start_label)));
    if !generate_ir_recursive(condition, instructions, reg_counter, label_counter) {
        return false;
    }
    if *reg_counter == 0 {
        return false;
    }
    emit(
        instructions,
        instr2(opcode, IRValue::TempReg(*reg_counter - 1), IRValue::Label(end_label)),
    );
    if !generate_ir_recursive(body, instructions, reg_counter, label_counter) {
        return false;
    }
    emit(instructions, instr1(Opcode::Jump, IRValue::Label(start_label)));
    emit(instructions, instr1(Opcode::Label, IRValue::Label(end_label)));
    proof {
        let l = lower(ast@, reg0, label0).unwrap();
        assert(program_view(instructions@) =~= code0 + l.code);
    }
    true
}

/// Lowers a `return` or a `print`: the value, then `opcode` on the temporary
/// that holds it.
fn lower_then_read(
    ast: &Expr,
    opcode: Opcode,
    instructions: &mut Vec<IRInstruction>,
    reg_counter: &mut u32,
    label_counter: &mut u32,
) -> (done: bool)
    requires
        (ast is Return && opcode == Opcode::Return) || (ast is Print && opcode == Opcode::PrintVar),
    ensures
        lowered_to(
            lower(ast@, *old(reg_counter) as nat, *old(label_counter) as nat),
            done,
            old(instructions)@,
            final(instructions)@,
            *final(reg_counter),
            *final(label_counter),
        ),
    decreases ast, 0nat,
{
    let ghost code0 = program_view(instructions@);
    let ghost reg0 = *reg_counter as nat;
    let ghost label0 = *label_counter as nat;
    let value = match ast {
        Expr::Return(value) => value,
        Expr::Print(value) => value,
        _ => {
            return unreached();
        },
    };
    if !generate_ir_recursive(value, instructions, reg_counter, label_counter) {
        return false;
    }
    if *reg_counter == 0 {
        return false;
    }
    emit(instructions, instr1(opcode, IRValue::TempReg(*reg_counter - 1)));
    proof {
        let l = lower(ast@, reg0, label0).unwrap();
        assert(program_view(instructions@) =~= code0 + l.code);
    }
    true
}

/// Lowers one syntax tree, appending its instructions and advancing the two
/// counters. Returns `false`, with the output and the counters in an
/// unspecified state, where the tree cannot be lowered.
fn generate_ir_recursive(
    ast: &Expr,
    instructions: &mut Vec<IRInstruction>,
    reg_counter: &mut u32,
    label_counter: &mut u32,
) -> (done: bool)
    ensures
        lowered_to(
            lower(ast@, *old(reg_counter) as nat, *old(label_counter) as nat),
            done,
            old(instructions)@,
            final(instructions)@,
            *final(reg_counter),
            *final(label_counter),
        ),
    decreases ast, 1nat,
{
    let ghost code0 = program_view(instructions@);
    let ghost reg0 = *reg_counter as nat;
    let ghost label0 = *label_counter as nat;
    match ast {
        Expr::Program(statements) => lower_statements(
            statements,
            instructions,
            reg_counter,
            label_counter,
        ),
        Expr::Statements(body) => lower_statements(body, instructions, reg_counter, label_counter),
        Expr::MainFuncDef(_) => lower_main(ast, instructions, reg_counter, label_counter),
        Expr::Number(value) => {
            if *reg_counter == u32::MAX {
                return false;
            }
            emit(
                instructions,
                instr2(Opcode::LoadConst, IRValue::Number(*value), IRValue::TempReg(*reg_counter)),
            );
            *reg_counter += 1;
            proof {
                let l = lower(ast@, reg0, label0).unwrap();
                assert(program_view(instructions@) =~= code0 + l.code);
            }
            true
        },
        Expr::Variable(name) => {
            if *reg_counter == u32::MAX {
                return false;
            }
            emit(
                instructions,
                instr2(
                    Opcode::LoadVar,
                    IRValue::Variable(name.clone()),
                    IRValue::TempReg(*reg_counter),
                ),
            );
            *reg_counter += 1;
            proof {
                let l = lower(ast@, reg0, label0).unwrap();
                assert(program_view(instructions@) =~= code0 + l.code);
            }
            true
        },
        Expr::Boolean(value) => {
            if *reg_counter == u32::MAX {
                return false;
            }
            let text = if *value {
                String::from_str("true")
            } else {
                String::from_str("false")
            };
            emit(
                instructions,
                instr2(Opcode::LoadConst, IRValue::Bool(text), IRValue::TempReg(*reg_counter)),
            );
            *reg_counter += 1;
            proof {
                let l = lower(ast@, reg0, label0).unwrap();
                assert(program_view(instructions@) =~= code0 + l.code);
            }
            true
        },
        Expr::Binary(_, _, _) => lower_binary(ast, instructions, reg_counter, label_counter),
        Expr::Assign(_, _) => lower_assign(ast, instructions, reg_counter, label_counter),
        Expr::VarDeclaration(name, typ) => {
            emit(
                instructions,
                instr2(
                    Opcode::DeclareVar,
                    IRValue::Variable(name.clone()),
                    IRValue::Variable(typ.clone()),
                ),
            );
            proof {
                let l = lower(ast@, reg0, label0).unwrap();
                assert(program_view(instructions@) =~= code0 + l.code);
            }
            true
        },
        Expr::VarDeclarationWithAssignment(_, _, _) => lower_initialized(
            ast,
            instructions,
            reg_counter,
            label_counter,
        ),
        Expr::FuncDef(_, _, _, _) => lower_func_def(ast, instructions, reg_counter, label_counter),
        Expr::FuncCall(_, _) => lower_call(ast, instructions, reg_counter, label_counter),
        Expr::Return(_) => lower_then_read(
            ast,
            Opcode::Return,
            instructions,
            reg_counter,
            label_counter,
        ),
        Expr::If(_, _, _) => lower_if(ast, instructions, reg_counter, label_counter),
        Expr::While(_, _) => lower_while(ast, instructions, reg_counter, label_counter),
        Expr::PrintStr(text) => {
            emit(instructions, instr1(Opcode::PrintStr, IRValue::Str(text.clone())));
            proof {
                let l = lower(ast@, reg0, label0).unwrap();
                assert(program_view(instructions@) =~= code0 + l.code);
            }
            true
        },
        Expr::Print(_) => lower_then_read(
            ast,
            Opcode::PrintVar,
            instructions,
            reg_counter,
            label_counter,
        ),
        Expr::String(_) => false,
        Expr::Semicolon(_) => false,
    }
}

/// The instructions of a whole tree, numbered from temporary 0 and label 0.
pub open spec fn ir_of(ast: ExprView) -> Option<Seq<IRInstructionView>> {
    match lower(ast, 0, 0) {
        Some(l) => Some(l.code),
        None => None,
    }
}

/// The instructions of a tree, or `None` where the tree cannot be lowered.
/// The instructions are well formed.
pub fn try_generate_ir(ast: &Expr) -> (ir: Option<Vec<IRInstruction>>)
    ensures
        match ir {
            Some(instructions) => ir_of(ast@) == Some(program_view(instructions@))
                && all_well_formed(program_view(instructions@)),
            None => ir_of(ast@).is_none(),
        },
{
    let mut instructions: Vec<IRInstruction> = Vec::new();
    let mut reg_counter: u32 = 0;
    let mut label_counter: u32 = 0;
    if generate_ir_recursive(ast, &mut instructions, &mut reg_counter, &mut label_counter) {
        proof {
            assert(program_view(instructions@) =~= lower(ast@, 0, 0).unwrap().code);
            lemma_ir_well_formed(ast@);
        }
        Some(instructions)
    } else {
        None
    }
}

/// The instructions of a tree that can be lowered. They are well formed.
pub fn generate_ir(ast: &Expr) -> (instructions: Vec<IRInstruction>)
    requires
        ir_of(ast@).is_some(),
    ensures
        ir_of(ast@) == Some(program_view(instructions@)),
        all_well_formed(program_view(instructions@)),
{
    match try_generate_ir(ast) {
        Some(instructions) => instructions,
        None => unreached(),
    }
}

/// Determinism: the instructions depend on the view of the tree alone, so
/// two trees with one view have the same instructions, numbered alike.
pub proof fn lemma_ir_deterministic(a: Expr, b: Expr)
    requires
        a@ == b@,
    ensures
        ir_of(a@) == ir_of(b@),
{
}

} // verus!
