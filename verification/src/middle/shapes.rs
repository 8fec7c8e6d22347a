use crate::frontend::ast::ExprView;
use crate::middle::ir::{
    if_branch, ir_of, lower, lower_args, lower_upto, param_code, IRInstructionView, IRValueView,
    Opcode, MAX_PARAMS,
};
use crate::middle::tac_printer::{listing, render};
use vstd::prelude::*;

verus! {

/// Whether an operand names a place at which a call passes a value: one of
/// the six places from 0 to 5.
pub open spec fn is_place(v: IRValueView) -> bool {
    v matches IRValueView::Number(index) && 0 <= index < MAX_PARAMS
}

/// Whether an instruction has one of the shapes that lowering emits: the
/// operands that its operation takes, of the kinds that it takes them in.
pub open spec fn well_formed(i: IRInstructionView) -> bool {
    let ops = i.operands;
    match i.opcode {
        Opcode::FuncDef => ops.len() == 1 && ops[0] is FuncName,
        Opcode::DeclareVar => ops.len() == 2 && ops[0] is Variable && ops[1] is Variable,
        Opcode::Param => ops.len() == 2 && is_place(ops[0]) && (ops[1] is Variable
            || ops[1] is TempReg),
        Opcode::LoadConst => ops.len() == 2 && (ops[0] is Number || ops[0] is Bool)
            && ops[1] is TempReg,
        Opcode::LoadVar => ops.len() == 2 && ops[0] is Variable && ops[1] is TempReg,
        Opcode::StoreVar => ops.len() == 2 && ops[0] is TempReg && ops[1] is Variable,
        Opcode::FuncCall => ops.len() == 2 && ops[0] is FuncName && ops[1] is TempReg,
        Opcode::Return => ops.len() == 1 && (ops[0] is TempReg || ops[0] is Number),
        Opcode::PrintVar => ops.len() == 1 && ops[0] is TempReg,
        Opcode::PrintStr => ops.len() == 1 && ops[0] is Str,
        Opcode::Label | Opcode::Jump => ops.len() == 1 && ops[0] is Label,
        Opcode::Add | Opcode::Sub | Opcode::Mul | Opcode::Div | Opcode::GreaterThan
        | Opcode::LessThan | Opcode::GreaterThanEqual | Opcode::LessThanEqual | Opcode::Equal
        | Opcode::NotEqual => ops.len() == 3 && ops[0] is TempReg && (ops[1] is TempReg
            || ops[1] is Number) && ops[2] is TempReg,
        Opcode::JumpGreaterThan | Opcode::JumpGreaterThanEqual | Opcode::JumpLessThan
        | Opcode::JumpLessThanEqual | Opcode::JumpEqual | Opcode::JumpNotEqual | Opcode::JumpBool
        | Opcode::Default => ops.len() == 2 && ops[0] is TempReg && ops[1] is Label,
        Opcode::Bool => ops.len() == 2 && ops[0] is Bool && (ops[1] matches IRValueView::TempReg(
            temp,
        ) && temp >= 1),
        _ => false,
    }
}

/// Whether every instruction of a list is well formed.
pub open spec fn all_well_formed(code: Seq<IRInstructionView>) -> bool {
    forall|k: int| 0 <= k < code.len() ==> well_formed(#[trigger] code[k])
}

/// Lists of well-formed instructions stay so one after the other.
proof fn lemma_well_formed_concat(a: Seq<IRInstructionView>, b: Seq<IRInstructionView>)
    requires
        all_well_formed(a),
        all_well_formed(b),
    ensures
        all_well_formed(a + b),
{
    let whole = a + b;
    assert forall|k: int| 0 <= k < whole.len() implies well_formed(#[trigger] whole[k]) by {
        if k < a.len() {
            assert(whole[k] == a[k]);
        } else {
            assert(whole[k] == b[k - a.len()]);
        }
    }
}

/// A list of well-formed instructions stays so with one more.
proof fn lemma_well_formed_push(code: Seq<IRInstructionView>, x: IRInstructionView)
    requires
        all_well_formed(code),
        well_formed(x),
    ensures
        all_well_formed(code.push(x)),
{
    assert(all_well_formed(seq![x]));
    lemma_well_formed_concat(code, seq![x]);
    assert(code + seq![x] =~= code.push(x));
}

/// The declarations of at most six parameters are well formed.
proof fn lemma_params_well_formed(params: Seq<(Seq<char>, Seq<char>)>, n: nat)
    requires
        n <= params.len() <= MAX_PARAMS,
    ensures
        all_well_formed(param_code(params, n)),
    decreases n,
{
    if n > 0 {
        lemma_params_well_formed(params, (n - 1) as nat);
        let before = param_code(params, (n - 1) as nat);
        let code = param_code(params, n);
        lemma_well_formed_push(before, code[code.len() - 2]);
        lemma_well_formed_push(before.push(code[code.len() - 2]), code.last());
        assert(code =~= before.push(code[code.len() - 2]).push(code.last()));
    }
}

/// Shape discipline for a binary operation.
proof fn lemma_binary_well_formed(e: ExprView, reg: nat, label: nat)
    requires
        lower(e, reg, label) is Some,
        e is Binary,
    ensures
        all_well_formed(lower(e, reg, label).unwrap().code),
    decreases e, 0nat,
{
    let out = lower(e, reg, label).unwrap();
    match e {
        ExprView::Binary(l, _, r) => {
            lemma_lower_well_formed(*l, reg, label);
            let a = lower(*l, reg, label).unwrap();
            match *r {
                ExprView::Number(_) => {
                    lemma_well_formed_push(a.code, out.code.last());
                    assert(out.code =~= a.code.push(out.code.last()));
                },
                _ => {
                    lemma_lower_well_formed(*r, a.reg, a.label);
                    let b = lower(*r, a.reg, a.label).unwrap();
                    lemma_well_formed_concat(a.code, b.code);
                    lemma_well_formed_push(a.code + b.code, out.code.last());
                    assert(out.code =~= (a.code + b.code).push(out.code.last()));
                },
            }
        },
        _ => {},
    }
}

/// Shape discipline for a function definition and for the entry function.
proof fn lemma_function_well_formed(e: ExprView, reg: nat, label: nat)
    requires
        lower(e, reg, label) is Some,
        e is FuncDef || e is MainFuncDef,
    ensures
        all_well_formed(lower(e, reg, label).unwrap().code),
    decreases e, 0nat,
{
    let out = lower(e, reg, label).unwrap();
    match e {
        ExprView::FuncDef(_, _, params, body) => {
            lemma_lower_well_formed(*body, reg, label);
            let b = lower(*body, reg, label).unwrap();
            lemma_params_well_formed(params, params.len());
            let header = seq![out.code[0]];
            assert(all_well_formed(header));
            lemma_well_formed_concat(header, param_code(params, params.len()));
            lemma_well_formed_concat(header + param_code(params, params.len()), b.code);
            assert(out.code =~= header + param_code(params, params.len()) + b.code);
        },
        ExprView::MainFuncDef(body) => {
            lemma_lower_well_formed(*body, reg, label);
            let b = lower(*body, reg, label).unwrap();
            let header = seq![out.code[0]];
            assert(all_well_formed(header));
            lemma_well_formed_concat(header, b.code);
            lemma_well_formed_push(header + b.code, out.code.last());
            assert(out.code =~= (header + b.code).push(out.code.last()));
        },
        _ => {},
    }
}

/// Shape discipline for what lowers a value and then reads its temporary.
proof fn lemma_reader_well_formed(e: ExprView, reg: nat, label: nat)
    requires
        lower(e, reg, label) is Some,
        e is Assign || e is Return || e is Print || e is VarDeclarationWithAssignment || e is FuncCall,
    ensures
        all_well_formed(lower(e, reg, label).unwrap().code),
    decreases e, 0nat,
{
    let out = lower(e, reg, label).unwrap();
    match e {
        ExprView::Assign(_, value) => {
            lemma_lower_well_formed(*value, reg, label);
            let v = lower(*value, reg, label).unwrap();
            lemma_well_formed_push(v.code, out.code.last());
            assert(out.code =~= v.code.push(out.code.last()));
        },
        ExprView::Return(value) => {
            lemma_lower_well_formed(*value, reg, label);
            let v = lower(*value, reg, label).unwrap();
            lemma_well_formed_push(v.code, out.code.last());
            assert(out.code =~= v.code.push(out.code.last()));
        },
        ExprView::Print(value) => {
            lemma_lower_well_formed(*value, reg, label);
            let v = lower(*value, reg, label).unwrap();
            lemma_well_formed_push(v.code, out.code.last());
            assert(out.code =~= v.code.push(out.code.last()));
        },
        ExprView::VarDeclarationWithAssignment(_, _, init) => {
            lemma_lower_well_formed(*init, reg, label);
            let v = lower(*init, reg, label).unwrap();
            let declaration = seq![out.code[0]];
            assert(all_well_formed(declaration));
            lemma_well_formed_concat(declaration, v.code);
            lemma_well_formed_push(declaration + v.code, out.code.last());
            assert(out.code =~= (declaration + v.code).push(out.code.last()));
        },
        ExprView::FuncCall(_, args) => {
            lemma_args_well_formed(args, args.len(), reg, label);
            let a = lower_args(args, args.len(), reg, label).unwrap();
            lemma_well_formed_push(a.code, out.code.last());
            assert(out.code =~= a.code.push(out.code.last()));
        },
        _ => {},
    }
}

/// Shape discipline for a conditional.
proof fn lemma_if_well_formed(e: ExprView, reg: nat, label: nat)
    requires
        lower(e, reg, label) is Some,
        e is If,
    ensures
        all_well_formed(lower(e, reg, label).unwrap().code),
    decreases e, 0nat,
{
    let out = lower(e, reg, label).unwrap();
    match e {
        ExprView::If(cond, then_branch, els) => {
            lemma_lower_well_formed(*cond, reg, label + 2);
            let c = lower(*cond, reg, label + 2).unwrap();
            let j = if_branch(*cond, c.reg, c.label, label as u32).unwrap();
            assert(all_well_formed(j.code));
            lemma_lower_well_formed(*then_branch, j.reg, j.label);
            let t = lower(*then_branch, j.reg, j.label).unwrap();
            let at = (c.code.len() + j.code.len() + t.code.len()) as int;
            let tail = seq![out.code[at], out.code[at + 1]];
            assert(all_well_formed(tail));
            lemma_well_formed_concat(c.code, j.code);
            lemma_well_formed_concat(c.code + j.code, t.code);
            lemma_well_formed_concat(c.code + j.code + t.code, tail);
            let taken = c.code + j.code + t.code + tail;
            match els {
                Some(branch) => {
                    lemma_lower_well_formed(*branch, t.reg, t.label);
                    let f = lower(*branch, t.reg, t.label).unwrap();
                    lemma_well_formed_concat(taken, f.code);
                    lemma_well_formed_push(taken + f.code, out.code.last());
                    assert(out.code =~= (taken + f.code).push(out.code.last()));
                },
                None => {
                    lemma_well_formed_push(taken, out.code.last());
                    assert(out.code =~= taken.push(out.code.last()));
                },
            }
        },
        _ => {},
    }
}

/// Shape discipline for a loop.
proof fn lemma_while_well_formed(e: ExprView, reg: nat, label: nat)
    requires
        lower(e, reg, label) is Some,
        e is While,
    ensures
        all_well_formed(lower(e, reg, label).unwrap().code),
    decreases e, 0nat,
{
    let out = lower(e, reg, label).unwrap();
    match e {
        ExprView::While(cond, body) => {
            lemma_lower_well_formed(*cond, reg, label + 2);
            let c = lower(*cond, reg, label + 2).unwrap();
            lemma_lower_well_formed(*body, c.reg, c.label);
            let b = lower(*body, c.reg, c.label).unwrap();
            let start = seq![out.code[0]];
            let at = c.code.len() as int + 1;
            let branch = seq![out.code[at]];
            let tail = seq![out.code[out.code.len() - 2], out.code.last()];
            assert(all_well_formed(start));
            assert(all_well_formed(branch));
            assert(all_well_formed(tail));
            lemma_well_formed_concat(start, c.code);
            lemma_well_formed_concat(start + c.code, branch);
            lemma_well_formed_concat(start + c.code + branch, b.code);
            lemma_well_formed_concat(start + c.code + branch + b.code, tail);
            assert(out.code =~= start + c.code + branch + b.code + tail);
        },
        _ => {},
    }
}

/// Shape discipline: lowering emits well-formed instructions only.
pub proof fn lemma_lower_well_formed(e: ExprView, reg: nat, label: nat)
    requires
        lower(e, reg, label) is Some,
    ensures
        all_well_formed(lower(e, reg, label).unwrap().code),
    decreases e, 1nat,
{
    match e {
        ExprView::Program(stmts) => {
            lemma_upto_well_formed(stmts, stmts.len(), reg, label);
        },
        ExprView::Statements(stmts) => {
            lemma_upto_well_formed(stmts, stmts.len(), reg, label);
        },
        ExprView::Binary(..) => {
            lemma_binary_well_formed(e, reg, label);
        },
        ExprView::FuncDef(..) => {
            lemma_function_well_formed(e, reg, label);
        },
        ExprView::MainFuncDef(..) => {
            lemma_function_well_formed(e, reg, label);
        },
        ExprView::If(..) => {
            lemma_if_well_formed(e, reg, label);
        },
        ExprView::While(..) => {
            lemma_while_well_formed(e, reg, label);
        },
        ExprView::Assign(..) => {
            lemma_reader_well_formed(e, reg, label);
        },
        ExprView::Return(..) => {
            lemma_reader_well_formed(e, reg, label);
        },
        ExprView::Print(..) => {
            lemma_reader_well_formed(e, reg, label);
        },
        ExprView::VarDeclarationWithAssignment(..) => {
            lemma_reader_well_formed(e, reg, label);
        },
        ExprView::FuncCall(..) => {
            lemma_reader_well_formed(e, reg, label);
        },
        _ => {},
    }
}

/// Shape discipline for the first `n` statements of a list.
pub proof fn lemma_upto_well_formed(stmts: Seq<ExprView>, n: nat, reg: nat, label: nat)
    requires
        lower_upto(stmts, n, reg, label) is Some,
    ensures
        all_well_formed(lower_upto(stmts, n, reg, label).unwrap().code),
    decreases stmts, n,
{
    if n > 0 && n <= stmts.len() {
        lemma_upto_well_formed(stmts, (n - 1) as nat, reg, label);
        let before = lower_upto(stmts, (n - 1) as nat, reg, label).unwrap();
        lemma_lower_well_formed(stmts[n - 1], before.reg, before.label);
        lemma_well_formed_concat(
            before.code,
            lower(stmts[n - 1], before.reg, before.label).unwrap().code,
        );
    }
}

/// Shape discipline for the first `n` of at most six arguments.
pub proof fn lemma_args_well_formed(args: Seq<ExprView>, n: nat, reg: nat, label: nat)
    requires
        lower_args(args, n, reg, label) is Some,
        n <= args.len() <= MAX_PARAMS,
    ensures
        all_well_formed(lower_args(args, n, reg, label).unwrap().code),
    decreases args, n,
{
    if n > 0 {
        lemma_args_well_formed(args, (n - 1) as nat, reg, label);
        let before = lower_args(args, (n - 1) as nat, reg, label).unwrap();
        lemma_lower_well_formed(args[n - 1], before.reg, before.label);
        let a = lower(args[n - 1], before.reg, before.label).unwrap();
        lemma_well_formed_concat(before.code, a.code);
        let out = lower_args(args, n, reg, label).unwrap();
        lemma_well_formed_push(before.code + a.code, out.code.last());
        assert(out.code =~= (before.code + a.code).push(out.code.last()));
    }
}

/// The printer has a line for every well-formed instruction.
pub proof fn lemma_well_formed_has_line(i: IRInstructionView)
    requires
        well_formed(i),
    ensures
        render(i) is Some,
{
}

/// The printer has a listing for every list of well-formed instructions.
pub proof fn lemma_well_formed_has_listing(code: Seq<IRInstructionView>, n: nat)
    requires
        all_well_formed(code),
        n <= code.len(),
    ensures
        listing(code, n) is Some,
    decreases n,
{
    if n > 0 {
        lemma_well_formed_has_listing(code, (n - 1) as nat);
        lemma_well_formed_has_line(code[n - 1]);
    }
}

/// What lowering promises of the instructions of a whole tree: each is
/// well formed, so a parameter or an argument is passed at one of the six
/// places from 0 to 5, and the printer has a listing of them.
pub proof fn lemma_ir_well_formed(ast: ExprView)
    requires
        ir_of(ast) is Some,
    ensures
        all_well_formed(ir_of(ast).unwrap()),
        forall|k: int|
            0 <= k < ir_of(ast).unwrap().len() && (#[trigger] ir_of(ast).unwrap()[k]).opcode
                == Opcode::Param ==> is_place(ir_of(ast).unwrap()[k].operands[0]),
        listing(ir_of(ast).unwrap(), ir_of(ast).unwrap().len()) is Some,
{
    lemma_lower_well_formed(ast, 0, 0);
    lemma_well_formed_has_listing(ir_of(ast).unwrap(), ir_of(ast).unwrap().len());
}

} // verus!
