use crate::frontend::ast::ExprView;
use crate::middle::ir::{
    if_branch, ir_of, lower, lower_args, lower_upto, param_code, IRInstructionView, IRValueView,
    Opcode,
};
use vstd::prelude::*;

verus! {

/// The place among its operands at which an instruction names the
/// temporary that it defines, if it defines one: the last operand of a
/// load, of a call, of a truth test and of a binary operation.
pub open spec fn defining_place(i: IRInstructionView) -> Option<int> {
    match i.opcode {
        Opcode::LoadConst | Opcode::LoadVar | Opcode::FuncCall | Opcode::Bool => if i.operands.len()
            == 2 && i.operands[1] is TempReg {
            Some(1)
        } else {
            None
        },
        Opcode::Add | Opcode::Sub | Opcode::Mul | Opcode::Div | Opcode::GreaterThan
        | Opcode::LessThan | Opcode::GreaterThanEqual | Opcode::LessThanEqual | Opcode::Equal
        | Opcode::NotEqual => if i.operands.len() == 3 && i.operands[2] is TempReg {
            Some(2)
        } else {
            None
        },
        _ => None,
    }
}

/// Whether an instruction defines the temporary `t`.
pub open spec fn defines_temp(i: IRInstructionView, t: u32) -> bool {
    defining_place(i) matches Some(place) && i.operands[place] == IRValueView::TempReg(t)
}

/// Whether an instruction reads the temporary `t`: it names `t` at a place
/// other than the one at which it defines a temporary.
pub open spec fn reads_temp(i: IRInstructionView, t: u32) -> bool {
    exists|k: int|
        0 <= k < i.operands.len() && #[trigger] i.operands[k] == IRValueView::TempReg(t)
            && defining_place(i) != Some(k)
}

/// How many instructions of a list define a temporary.
pub open spec fn temps_defined(code: Seq<IRInstructionView>) -> nat
    decreases code.len(),
{
    if code.len() == 0 {
        0
    } else if defining_place(code.last()) is Some {
        temps_defined(code.drop_last()) + 1
    } else {
        temps_defined(code.drop_last())
    }
}

/// Whether an instruction fits where `next` is the next free temporary: it
/// defines no temporary but `next`, and reads only temporaries below `next`.
pub open spec fn fits(i: IRInstructionView, next: nat) -> bool {
    &&& forall|t: u32| #[trigger] defines_temp(i, t) ==> t == next
    &&& forall|t: u32| #[trigger] reads_temp(i, t) ==> t < next
}

/// Whether a list numbers its temporaries in order from `first` up to
/// `after`: each instruction fits where the next free temporary is `first`
/// and the number of temporaries defined before it.
pub open spec fn numbered(code: Seq<IRInstructionView>, first: nat, after: nat) -> bool {
    &&& after == first + temps_defined(code)
    &&& forall|k: int|
        0 <= k < code.len() ==> fits(#[trigger] code[k], first + temps_defined(code.take(k)))
}

/// The temporaries defined by a concatenation are those of its parts.
proof fn lemma_temps_concat(a: Seq<IRInstructionView>, b: Seq<IRInstructionView>)
    ensures
        temps_defined(a + b) == temps_defined(a) + temps_defined(b),
    decreases b.len(),
{
    if b.len() == 0 {
        assert(a + b =~= a);
    } else {
        assert((a + b).drop_last() =~= a + b.drop_last());
        lemma_temps_concat(a, b.drop_last());
    }
}

/// Lists that number adjoining ranges number, one after the other, the
/// whole range.
proof fn lemma_numbered_concat(
    a: Seq<IRInstructionView>,
    b: Seq<IRInstructionView>,
    first: nat,
    mid: nat,
    after: nat,
)
    requires
        numbered(a, first, mid),
        numbered(b, mid, after),
    ensures
        numbered(a + b, first, after),
{
    let whole = a + b;
    lemma_temps_concat(a, b);
    assert forall|k: int| 0 <= k < whole.len() implies fits(
        #[trigger] whole[k],
        first + temps_defined(whole.take(k)),
    ) by {
        if k < a.len() {
            assert(whole[k] == a[k]);
            assert(whole.take(k) =~= a.take(k));
        } else {
            assert(whole[k] == b[k - a.len()]);
            assert(whole.take(k) =~= a + b.take(k - a.len()));
            lemma_temps_concat(a, b.take(k - a.len()));
        }
    }
}

/// A single instruction that fits numbers the range that it defines.
proof fn lemma_numbered_single(x: IRInstructionView, first: nat)
    requires
        fits(x, first),
    ensures
        numbered(seq![x], first, first + if defining_place(x) is Some { 1nat } else { 0nat }),
{
    let code = seq![x];
    assert(code.drop_last() =~= Seq::<IRInstructionView>::empty());
    assert(code.last() == x);
    assert forall|k: int| 0 <= k < code.len() implies fits(
        #[trigger] code[k],
        first + temps_defined(code.take(k)),
    ) by {
        assert(code.take(k) =~= Seq::<IRInstructionView>::empty());
    }
}

/// A numbered list stays so with one more instruction that fits at its end.
proof fn lemma_numbered_push(code: Seq<IRInstructionView>, x: IRInstructionView, first: nat, mid: nat)
    requires
        numbered(code, first, mid),
        fits(x, mid),
    ensures
        numbered(code.push(x), first, mid + if defining_place(x) is Some { 1nat } else { 0nat }),
{
    lemma_numbered_single(x, mid);
    lemma_numbered_concat(
        code,
        seq![x],
        first,
        mid,
        mid + if defining_place(x) is Some { 1nat } else { 0nat },
    );
    assert(code + seq![x] =~= code.push(x));
}

/// The empty list numbers nothing.
proof fn lemma_numbered_empty(first: nat)
    ensures
        numbered(Seq::empty(), first, first),
{
}

/// An instruction that names no temporary fits everywhere.
proof fn lemma_fits_without_temps(x: IRInstructionView, next: nat)
    requires
        forall|k: int| 0 <= k < x.operands.len() ==> !(#[trigger] x.operands[k] is TempReg),
    ensures
        fits(x, next),
        defining_place(x) is None,
{
    assert forall|t: u32| #[trigger] reads_temp(x, t) implies t < next by {
        let k = choose|k: int|
            0 <= k < x.operands.len() && #[trigger] x.operands[k] == IRValueView::TempReg(t)
                && defining_place(x) != Some(k);
        assert(x.operands[k] is TempReg);
    }
}

/// An instruction that defines no temporary and names, of the temporaries,
/// only `temp` fits wherever `temp` is below the next free temporary.
proof fn lemma_fits_reader(x: IRInstructionView, temp: u32, next: nat)
    requires
        defining_place(x) is None,
        forall|k: int|
            0 <= k < x.operands.len() && (#[trigger] x.operands[k]) is TempReg ==> x.operands[k]
                == IRValueView::TempReg(temp),
        temp < next,
    ensures
        fits(x, next),
{
    assert forall|t: u32| #[trigger] reads_temp(x, t) implies t < next by {
        let k = choose|k: int|
            0 <= k < x.operands.len() && #[trigger] x.operands[k] == IRValueView::TempReg(t)
                && defining_place(x) != Some(k);
    }
}

/// An instruction that defines the next free temporary at its last place
/// and names, before it, only temporaries below fits.
proof fn lemma_fits_definer(x: IRInstructionView, next: nat)
    requires
        defining_place(x) == Some(x.operands.len() - 1),
        next <= u32::MAX,
        x.operands.last() == IRValueView::TempReg(next as u32),
        forall|k: int|
            0 <= k < x.operands.len() - 1 && (#[trigger] x.operands[k]) is TempReg
                ==> x.operands[k]->TempReg_0 < next,
    ensures
        fits(x, next),
{
    assert forall|t: u32| #[trigger] reads_temp(x, t) implies t < next by {
        let k = choose|k: int|
            0 <= k < x.operands.len() && #[trigger] x.operands[k] == IRValueView::TempReg(t)
                && defining_place(x) != Some(k);
    }
}

/// The declarations of parameters name no temporary.
proof fn lemma_params_numbered(params: Seq<(Seq<char>, Seq<char>)>, n: nat, first: nat)
    ensures
        numbered(param_code(params, n), first, first),
    decreases n,
{
    if n > 0 {
        lemma_params_numbered(params, (n - 1) as nat, first);
        let before = param_code(params, (n - 1) as nat);
        let code = param_code(params, n);
        let declare = code[code.len() - 2];
        let pass = code.last();
        lemma_fits_without_temps(declare, first);
        lemma_fits_without_temps(pass, first);
        lemma_numbered_push(before, declare, first, first);
        lemma_numbered_push(before.push(declare), pass, first, first);
        assert(code =~= before.push(declare).push(pass));
    }
}

/// The branch after the condition of an `if` numbers its temporaries in
/// order: the truth test of a variable defines one, and nothing else does.
proof fn lemma_if_branch_numbered(cond: ExprView, reg: nat, label: nat, target: u32)
    requires
        if_branch(cond, reg, label, target) is Some,
    ensures
        numbered(
            if_branch(cond, reg, label, target).unwrap().code,
            reg,
            if_branch(cond, reg, label, target).unwrap().reg,
        ),
{
    let j = if_branch(cond, reg, label, target).unwrap();
    let temp = (reg - 1) as u32;
    match cond {
        ExprView::Variable(_) => {
            let test = j.code[0];
            let jump = j.code[1];
            lemma_fits_definer(test, reg);
            lemma_fits_reader(jump, temp, reg + 1);
            lemma_numbered_single(test, reg);
            lemma_numbered_push(seq![test], jump, reg, reg + 1);
            assert(j.code =~= seq![test].push(jump));
        },
        _ => {
            let jump = j.code[0];
            lemma_fits_reader(jump, temp, reg);
            lemma_numbered_single(jump, reg);
            assert(j.code =~= seq![jump]);
        },
    }
}

/// Temporaries in order, for what is one instruction by itself.
proof fn lemma_leaf_numbered(e: ExprView, reg: nat, label: nat)
    requires
        lower(e, reg, label) is Some,
        e is Number || e is Variable || e is Boolean || e is VarDeclaration || e is PrintStr,
    ensures
        numbered(lower(e, reg, label).unwrap().code, reg, lower(e, reg, label).unwrap().reg),
    decreases e, 0nat,
{
    let out = lower(e, reg, label).unwrap();
    let x = out.code[0];
    assert(out.code =~= seq![x]);
    match e {
        ExprView::VarDeclaration(..) => {
            lemma_fits_without_temps(x, reg);
        },
        ExprView::PrintStr(_) => {
            lemma_fits_without_temps(x, reg);
        },
        _ => {
            lemma_fits_definer(x, reg);
        },
    }
    lemma_numbered_single(x, reg);
}

/// Temporaries in order, for a binary operation.
proof fn lemma_binary_numbered(e: ExprView, reg: nat, label: nat)
    requires
        lower(e, reg, label) is Some,
        e is Binary,
    ensures
        numbered(lower(e, reg, label).unwrap().code, reg, lower(e, reg, label).unwrap().reg),
    decreases e, 0nat,
{
    let out = lower(e, reg, label).unwrap();
    match e {
        ExprView::Binary(l, _, r) => {
            lemma_lower_numbered(*l, reg, label);
            let a = lower(*l, reg, label).unwrap();
            let x = out.code.last();
            match *r {
                ExprView::Number(_) => {
                    lemma_fits_definer(x, a.reg);
                    lemma_numbered_push(a.code, x, reg, a.reg);
                    assert(out.code =~= a.code.push(x));
                },
                _ => {
                    lemma_lower_numbered(*r, a.reg, a.label);
                    let b = lower(*r, a.reg, a.label).unwrap();
                    lemma_numbered_concat(a.code, b.code, reg, a.reg, b.reg);
                    lemma_fits_definer(x, b.reg);
                    lemma_numbered_push(a.code + b.code, x, reg, b.reg);
                    assert(out.code =~= (a.code + b.code).push(x));
                },
            }
        },
        _ => {},
    }
}

/// Temporaries in order, for what lowers a value and then reads its temporary.
proof fn lemma_reader_numbered(e: ExprView, reg: nat, label: nat)
    requires
        lower(e, reg, label) is Some,
        e is Assign || e is Return || e is Print || e is VarDeclarationWithAssignment,
    ensures
        numbered(lower(e, reg, label).unwrap().code, reg, lower(e, reg, label).unwrap().reg),
    decreases e, 0nat,
{
    let out = lower(e, reg, label).unwrap();
    let x = out.code.last();
    match e {
        ExprView::Assign(_, value) => {
            lemma_lower_numbered(*value, reg, label);
            let v = lower(*value, reg, label).unwrap();
            lemma_fits_reader(x, (v.reg - 1) as u32, v.reg);
            lemma_numbered_push(v.code, x, reg, v.reg);
            assert(out.code =~= v.code.push(x));
        },
        ExprView::Return(value) => {
            lemma_lower_numbered(*value, reg, label);
            let v = lower(*value, reg, label).unwrap();
            lemma_fits_reader(x, (v.reg - 1) as u32, v.reg);
            lemma_numbered_push(v.code, x, reg, v.reg);
            assert(out.code =~= v.code.push(x));
        },
        ExprView::Print(value) => {
            lemma_lower_numbered(*value, reg, label);
            let v = lower(*value, reg, label).unwrap();
            lemma_fits_reader(x, (v.reg - 1) as u32, v.reg);
            lemma_numbered_push(v.code, x, reg, v.reg);
            assert(out.code =~= v.code.push(x));
        },
        ExprView::VarDeclarationWithAssignment(_, _, init) => {
            lemma_lower_numbered(*init, reg, label);
            let v = lower(*init, reg, label).unwrap();
            let declaration = out.code[0];
            lemma_fits_without_temps(declaration, reg);
            lemma_numbered_single(declaration, reg);
            lemma_numbered_concat(seq![declaration], v.code, reg, reg, v.reg);
            lemma_fits_reader(x, (v.reg - 1) as u32, v.reg);
            lemma_numbered_push(seq![declaration] + v.code, x, reg, v.reg);
            assert(out.code =~= (seq![declaration] + v.code).push(x));
        },
        _ => {},
    }
}

/// Temporaries in order, for a function definition, the entry function and
/// a call.
proof fn lemma_function_numbered(e: ExprView, reg: nat, label: nat)
    requires
        lower(e, reg, label) is Some,
        e is FuncDef || e is MainFuncDef || e is FuncCall,
    ensures
        numbered(lower(e, reg, label).unwrap().code, reg, lower(e, reg, label).unwrap().reg),
    decreases e, 0nat,
{
    let out = lower(e, reg, label).unwrap();
    match e {
        ExprView::FuncDef(_, _, params, body) => {
            lemma_lower_numbered(*body, reg, label);
            let b = lower(*body, reg, label).unwrap();
            let header = out.code[0];
            lemma_fits_without_temps(header, reg);
            lemma_numbered_single(header, reg);
            lemma_params_numbered(params, params.len(), reg);
            lemma_numbered_concat(seq![header], param_code(params, params.len()), reg, reg, reg);
            lemma_numbered_concat(
                seq![header] + param_code(params, params.len()),
                b.code,
                reg,
                reg,
                b.reg,
            );
            assert(out.code =~= seq![header] + param_code(params, params.len()) + b.code);
        },
        ExprView::MainFuncDef(body) => {
            lemma_lower_numbered(*body, reg, label);
            let b = lower(*body, reg, label).unwrap();
            let header = out.code[0];
            let leave = out.code.last();
            lemma_fits_without_temps(header, reg);
            lemma_fits_without_temps(leave, b.reg);
            lemma_numbered_single(header, reg);
            lemma_numbered_concat(seq![header], b.code, reg, reg, b.reg);
            lemma_numbered_push(seq![header] + b.code, leave, reg, b.reg);
            assert(out.code =~= (seq![header] + b.code).push(leave));
        },
        ExprView::FuncCall(_, args) => {
            lemma_args_numbered(args, args.len(), reg, label);
            let a = lower_args(args, args.len(), reg, label).unwrap();
            let call = out.code.last();
            lemma_fits_definer(call, a.reg);
            lemma_numbered_push(a.code, call, reg, a.reg);
            assert(out.code =~= a.code.push(call));
        },
        _ => {},
    }
}

/// Temporaries in order, for a conditional.
proof fn lemma_if_numbered(e: ExprView, reg: nat, label: nat)
    requires
        lower(e, reg, label) is Some,
        e is If,
    ensures
        numbered(lower(e, reg, label).unwrap().code, reg, lower(e, reg, label).unwrap().reg),
    decreases e, 0nat,
{
    let out = lower(e, reg, label).unwrap();
    match e {
        ExprView::If(cond, then_branch, els) => {
            lemma_lower_numbered(*cond, reg, label + 2);
            let c = lower(*cond, reg, label + 2).unwrap();
            lemma_if_branch_numbered(*cond, c.reg, c.label, label as u32);
            let j = if_branch(*cond, c.reg, c.label, label as u32).unwrap();
            lemma_lower_numbered(*then_branch, j.reg, j.label);
            let t = lower(*then_branch, j.reg, j.label).unwrap();
            let at = (c.code.len() + j.code.len() + t.code.len()) as int;
            let skip = out.code[at];
            let otherwise = out.code[at + 1];
            let end = out.code.last();
            lemma_fits_without_temps(skip, t.reg);
            lemma_fits_without_temps(otherwise, t.reg);
            lemma_numbered_concat(c.code, j.code, reg, c.reg, j.reg);
            lemma_numbered_concat(c.code + j.code, t.code, reg, j.reg, t.reg);
            lemma_numbered_push(c.code + j.code + t.code, skip, reg, t.reg);
            lemma_numbered_push((c.code + j.code + t.code).push(skip), otherwise, reg, t.reg);
            let taken = (c.code + j.code + t.code).push(skip).push(otherwise);
            match els {
                Some(branch) => {
                    lemma_lower_numbered(*branch, t.reg, t.label);
                    let f = lower(*branch, t.reg, t.label).unwrap();
                    lemma_fits_without_temps(end, f.reg);
                    lemma_numbered_concat(taken, f.code, reg, t.reg, f.reg);
                    lemma_numbered_push(taken + f.code, end, reg, f.reg);
                    assert(out.code =~= (taken + f.code).push(end));
                },
                None => {
                    lemma_fits_without_temps(end, t.reg);
                    lemma_numbered_push(taken, end, reg, t.reg);
                    assert(out.code =~= taken.push(end));
                },
            }
        },
        _ => {},
    }
}

/// Temporaries in order, for a loop.
proof fn lemma_while_numbered(e: ExprView, reg: nat, label: nat)
    requires
        lower(e, reg, label) is Some,
        e is While,
    ensures
        numbered(lower(e, reg, label).unwrap().code, reg, lower(e, reg, label).unwrap().reg),
    decreases e, 0nat,
{
    let out = lower(e, reg, label).unwrap();
    match e {
        ExprView::While(cond, body) => {
            lemma_lower_numbered(*cond, reg, label + 2);
            let c = lower(*cond, reg, label + 2).unwrap();
            lemma_lower_numbered(*body, c.reg, c.label);
            let b = lower(*body, c.reg, c.label).unwrap();
            let start = out.code[0];
            let exit = out.code[c.code.len() as int + 1];
            let again = out.code[out.code.len() - 2];
            let end = out.code.last();
            lemma_fits_without_temps(start, reg);
            lemma_fits_reader(exit, (c.reg - 1) as u32, c.reg);
            lemma_fits_without_temps(again, b.reg);
            lemma_fits_without_temps(end, b.reg);
            lemma_numbered_single(start, reg);
            lemma_numbered_concat(seq![start], c.code, reg, reg, c.reg);
            lemma_numbered_push(seq![start] + c.code, exit, reg, c.reg);
            lemma_numbered_concat((seq![start] + c.code).push(exit), b.code, reg, c.reg, b.reg);
            let looped = (seq![start] + c.code).push(exit) + b.code;
            lemma_numbered_push(looped, again, reg, b.reg);
            lemma_numbered_push(looped.push(again), end, reg, b.reg);
            assert(out.code =~= looped.push(again).push(end));
        },
        _ => {},
    }
}

/// The instructions of a tree number their temporaries in order: each
/// instruction that defines a temporary defines the next free one, and
/// each instruction reads only temporaries defined before it or below the
/// first free one.
pub proof fn lemma_lower_numbered(e: ExprView, reg: nat, label: nat)
    requires
        lower(e, reg, label) is Some,
    ensures
        numbered(lower(e, reg, label).unwrap().code, reg, lower(e, reg, label).unwrap().reg),
    decreases e, 1nat,
{
    match e {
        ExprView::Program(stmts) => {
            lemma_upto_numbered(stmts, stmts.len(), reg, label);
        },
        ExprView::Statements(stmts) => {
            lemma_upto_numbered(stmts, stmts.len(), reg, label);
        },
        ExprView::Binary(..) => {
            lemma_binary_numbered(e, reg, label);
        },
        ExprView::FuncDef(..) => {
            lemma_function_numbered(e, reg, label);
        },
        ExprView::MainFuncDef(..) => {
            lemma_function_numbered(e, reg, label);
        },
        ExprView::FuncCall(..) => {
            lemma_function_numbered(e, reg, label);
        },
        ExprView::If(..) => {
            lemma_if_numbered(e, reg, label);
        },
        ExprView::While(..) => {
            lemma_while_numbered(e, reg, label);
        },
        ExprView::Assign(..) => {
            lemma_reader_numbered(e, reg, label);
        },
        ExprView::Return(..) => {
            lemma_reader_numbered(e, reg, label);
        },
        ExprView::Print(..) => {
            lemma_reader_numbered(e, reg, label);
        },
        ExprView::VarDeclarationWithAssignment(..) => {
            lemma_reader_numbered(e, reg, label);
        },
        ExprView::String(_) => {},
        ExprView::Semicolon(_) => {},
        _ => {
            lemma_leaf_numbered(e, reg, label);
        },
    }
}

/// Temporaries in order, for the first `n` statements of a list.
pub proof fn lemma_upto_numbered(stmts: Seq<ExprView>, n: nat, reg: nat, label: nat)
    requires
        lower_upto(stmts, n, reg, label) is Some,
    ensures
        numbered(
            lower_upto(stmts, n, reg, label).unwrap().code,
            reg,
            lower_upto(stmts, n, reg, label).unwrap().reg,
        ),
    decreases stmts, n,
{
    if n == 0 || n > stmts.len() {
        lemma_numbered_empty(reg);
    } else {
        lemma_upto_numbered(stmts, (n - 1) as nat, reg, label);
        let before = lower_upto(stmts, (n - 1) as nat, reg, label).unwrap();
        lemma_lower_numbered(stmts[n - 1], before.reg, before.label);
        let s = lower(stmts[n - 1], before.reg, before.label).unwrap();
        lemma_numbered_concat(before.code, s.code, reg, before.reg, s.reg);
    }
}

/// Temporaries in order, for the first `n` arguments of a call.
pub proof fn lemma_args_numbered(args: Seq<ExprView>, n: nat, reg: nat, label: nat)
    requires
        lower_args(args, n, reg, label) is Some,
    ensures
        numbered(
            lower_args(args, n, reg, label).unwrap().code,
            reg,
            lower_args(args, n, reg, label).unwrap().reg,
        ),
    decreases args, n,
{
    if n == 0 || n > args.len() {
        lemma_numbered_empty(reg);
    } else {
        lemma_args_numbered(args, (n - 1) as nat, reg, label);
        let before = lower_args(args, (n - 1) as nat, reg, label).unwrap();
        lemma_lower_numbered(args[n - 1], before.reg, before.label);
        let a = lower(args[n - 1], before.reg, before.label).unwrap();
        lemma_numbered_concat(before.code, a.code, reg, before.reg, a.reg);
        let out = lower_args(args, n, reg, label).unwrap();
        let pass = out.code.last();
        lemma_fits_reader(pass, (a.reg - 1) as u32, a.reg);
        lemma_numbered_push(before.code + a.code, pass, reg, a.reg);
        assert(out.code =~= (before.code + a.code).push(pass));
    }
}

/// In a list numbered from `first`, every temporary from `first` up to the
/// next free one at `k` is defined by an instruction before `k`.
proof fn lemma_definer_before(code: Seq<IRInstructionView>, first: nat, after: nat, k: int, t: u32) -> (j:
    int)
    requires
        numbered(code, first, after),
        0 <= k <= code.len(),
        first <= t < first + temps_defined(code.take(k)),
    ensures
        0 <= j < k,
        defines_temp(code[j], t),
    decreases k,
{
    let upto = code.take(k);
    assert(upto.drop_last() =~= code.take(k - 1));
    assert(upto.last() == code[k - 1]);
    if defining_place(code[k - 1]) is Some && t == first + temps_defined(code.take(k - 1)) {
        let place = defining_place(code[k - 1]).unwrap();
        let defined = code[k - 1].operands[place]->TempReg_0;
        assert(defines_temp(code[k - 1], defined));
        k - 1
    } else {
        lemma_definer_before(code, first, after, k - 1, t)
    }
}

/// Temporaries are defined before they are read: in the instructions of a
/// whole tree, every temporary that an instruction reads is defined by an
/// earlier instruction, and no temporary is defined twice.
pub proof fn lemma_temps_defined_before_use(ast: ExprView)
    requires
        ir_of(ast) is Some,
    ensures
        ({
            let code = ir_of(ast).unwrap();
            &&& forall|k: int, t: u32|
                0 <= k < code.len() && #[trigger] reads_temp(code[k], t) ==> exists|j: int|
                    0 <= j < k && #[trigger] defines_temp(code[j], t)
            &&& forall|i: int, j: int, t: u32|
                0 <= i < j < code.len() && #[trigger] defines_temp(code[i], t) ==> !#[trigger] defines_temp(
                    code[j],
                    t,
                )
        }),
{
    let out = lower(ast, 0, 0).unwrap();
    let code = out.code;
    lemma_lower_numbered(ast, 0, 0);
    assert forall|k: int, t: u32| 0 <= k < code.len() && #[trigger] reads_temp(code[k], t) implies exists|
        j: int,
    |
        0 <= j < k && #[trigger] defines_temp(code[j], t) by {
        assert(fits(code[k], temps_defined(code.take(k))));
        let j = lemma_definer_before(code, 0, out.reg, k, t);
        assert(defines_temp(code[j], t));
    }
    assert forall|i: int, j: int, t: u32|
        0 <= i < j < code.len() && #[trigger] defines_temp(code[i], t) implies !#[trigger] defines_temp(
        code[j],
        t,
    ) by {
        assert(fits(code[i], temps_defined(code.take(i))));
        assert(fits(code[j], temps_defined(code.take(j))));
        lemma_temps_grow(code, i, j);
    }
}

/// After an instruction that defines a temporary, more temporaries are
/// defined than before it.
proof fn lemma_temps_grow(code: Seq<IRInstructionView>, i: int, j: int)
    requires
        0 <= i < j <= code.len(),
        defining_place(code[i]) is Some,
    ensures
        temps_defined(code.take(i)) < temps_defined(code.take(j)),
    decreases j,
{
    let upto = code.take(j);
    assert(upto.drop_last() =~= code.take(j - 1));
    assert(upto.last() == code[j - 1]);
    if i < j - 1 {
        lemma_temps_grow(code, i, j - 1);
    }
}

} // verus!
