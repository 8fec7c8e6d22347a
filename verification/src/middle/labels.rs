use crate::frontend::ast::ExprView;
use crate::middle::ir::{
    fused_jump, if_branch, instr, ir_of, lower, lower_args, lower_upto, param_code,
    IRInstructionView, IRValueView, Opcode,
};
use vstd::prelude::*;

verus! {

/// Whether an instruction defines the label `n`.
pub open spec fn defines(i: IRInstructionView, n: u32) -> bool {
    i.opcode == Opcode::Label && i.operands == seq![IRValueView::Label(n)]
}

/// Whether an instruction has the label `n` among its operands.
pub open spec fn mentions(i: IRInstructionView, n: u32) -> bool {
    exists|k: int| 0 <= k < i.operands.len() && #[trigger] i.operands[k] == IRValueView::Label(n)
}

/// How many instructions of a list define the label `n`.
pub open spec fn definitions(code: Seq<IRInstructionView>, n: u32) -> nat
    decreases code.len(),
{
    if code.len() == 0 {
        0
    } else if defines(code.last(), n) {
        definitions(code.drop_last(), n) + 1
    } else {
        definitions(code.drop_last(), n)
    }
}

/// Whether every label among the operands of a list lies in `lo..hi`, and
/// every instruction with the operation `Label` defines a label.
pub open spec fn labels_within(code: Seq<IRInstructionView>, lo: nat, hi: nat) -> bool {
    &&& forall|i: int, n: u32|
        0 <= i < code.len() && #[trigger] mentions(code[i], n) ==> lo <= n < hi
    &&& forall|i: int|
        0 <= i < code.len() && (#[trigger] code[i]).opcode == Opcode::Label ==> code[i].operands.len()
            == 1 && code[i].operands[0] is Label
}

/// Whether a list defines each label of `lo..hi` once, defines no other,
/// and mentions none outside `lo..hi`.
pub open spec fn allocates(code: Seq<IRInstructionView>, lo: nat, hi: nat) -> bool {
    &&& lo <= hi
    &&& labels_within(code, lo, hi)
    &&& forall|n: u32| #[trigger] definitions(code, n) == if lo <= n < hi { 1nat } else { 0nat }
}

/// The definitions of a concatenation are those of its parts.
pub proof fn lemma_definitions_concat(a: Seq<IRInstructionView>, b: Seq<IRInstructionView>, n: u32)
    ensures
        definitions(a + b, n) == definitions(a, n) + definitions(b, n),
    decreases b.len(),
{
    if b.len() == 0 {
        assert(a + b =~= a);
    } else {
        assert((a + b).drop_last() =~= a + b.drop_last());
        lemma_definitions_concat(a, b.drop_last(), n);
    }
}

/// The definitions of a list with one instruction more.
pub proof fn lemma_definitions_push(code: Seq<IRInstructionView>, x: IRInstructionView, n: u32)
    ensures
        definitions(code.push(x), n) == definitions(code, n) + if defines(x, n) { 1nat } else { 0nat },
{
    assert(code.push(x).drop_last() =~= code);
}

/// A list that holds a definition of `n` at `i` has at least one; and a
/// list with two definitions of `n` at different places has at least two.
proof fn lemma_definitions_counted(code: Seq<IRInstructionView>, n: u32, i: int, j: int)
    requires
        0 <= i <= j < code.len(),
        defines(code[i], n),
        defines(code[j], n),
    ensures
        definitions(code, n) >= 1,
        i < j ==> definitions(code, n) >= 2,
    decreases code.len(),
{
    let front = code.drop_last();
    if j < code.len() - 1 {
        lemma_definitions_counted(front, n, i, j);
    } else if i < j {
        lemma_definitions_counted(front, n, i, i);
    }
}

/// A list with a definition of `n` holds it at some place.
proof fn lemma_definition_exists(code: Seq<IRInstructionView>, n: u32) -> (place: int)
    requires
        definitions(code, n) >= 1,
    ensures
        0 <= place < code.len(),
        defines(code[place], n),
    decreases code.len(),
{
    if defines(code.last(), n) {
        code.len() - 1
    } else {
        lemma_definition_exists(code.drop_last(), n)
    }
}

/// A list without labels allocates none.
pub open spec fn label_free(code: Seq<IRInstructionView>) -> bool {
    forall|i: int|
        0 <= i < code.len() ==> (#[trigger] code[i]).opcode != Opcode::Label && forall|k: int|
            0 <= k < code[i].operands.len() ==> !(#[trigger] code[i].operands[k] is Label)
}

proof fn lemma_label_free(code: Seq<IRInstructionView>, at: nat)
    requires
        label_free(code),
    ensures
        allocates(code, at, at),
    decreases code.len(),
{
    assert forall|n: u32| #[trigger] definitions(code, n) == 0 by {
        lemma_no_definitions(code, n);
    }
    assert forall|i: int, n: u32| 0 <= i < code.len() && #[trigger] mentions(code[i], n) implies at
        <= n < at by {
        let k = choose|k: int|
            0 <= k < code[i].operands.len() && #[trigger] code[i].operands[k] == IRValueView::Label(
                n,
            );
        assert(code[i].operands[k] is Label);
    }
}

proof fn lemma_no_definitions(code: Seq<IRInstructionView>, n: u32)
    requires
        forall|i: int| 0 <= i < code.len() ==> (#[trigger] code[i]).opcode != Opcode::Label,
    ensures
        definitions(code, n) == 0,
    decreases code.len(),
{
    if code.len() > 0 {
        assert(code.last() == code[code.len() - 1]);
        lemma_no_definitions(code.drop_last(), n);
    }
}

/// Two lists that allocate adjoining ranges allocate, one after the other,
/// the whole range.
proof fn lemma_allocates_concat(
    a: Seq<IRInstructionView>,
    b: Seq<IRInstructionView>,
    lo: nat,
    mid: nat,
    hi: nat,
)
    requires
        allocates(a, lo, mid),
        allocates(b, mid, hi),
    ensures
        allocates(a + b, lo, hi),
{
    let whole = a + b;
    assert forall|n: u32| #[trigger] definitions(whole, n) == if lo <= n < hi {
        1nat
    } else {
        0nat
    } by {
        lemma_definitions_concat(a, b, n);
        assert(definitions(a, n) == if lo <= n < mid { 1nat } else { 0nat });
        assert(definitions(b, n) == if mid <= n < hi { 1nat } else { 0nat });
    }
    assert forall|i: int, n: u32| 0 <= i < whole.len() && #[trigger] mentions(whole[i], n) implies lo
        <= n < hi by {
        if i < a.len() {
            assert(whole[i] == a[i]);
        } else {
            assert(whole[i] == b[i - a.len()]);
        }
    }
    assert forall|i: int| 0 <= i < whole.len() && (#[trigger] whole[i]).opcode
        == Opcode::Label implies whole[i].operands.len() == 1 && whole[i].operands[0] is Label by {
        if i < a.len() {
            assert(whole[i] == a[i]);
        } else {
            assert(whole[i] == b[i - a.len()]);
        }
    }
}

/// A list that allocates a range still does so with instructions without
/// labels before it and after it.
proof fn lemma_allocates_framed(
    before: Seq<IRInstructionView>,
    code: Seq<IRInstructionView>,
    after: Seq<IRInstructionView>,
    lo: nat,
    hi: nat,
)
    requires
        label_free(before),
        label_free(after),
        allocates(code, lo, hi),
    ensures
        allocates(before + code + after, lo, hi),
{
    lemma_label_free(before, lo);
    lemma_label_free(after, hi);
    lemma_allocates_concat(before, code, lo, lo, hi);
    lemma_allocates_concat(before + code, after, lo, hi, hi);
}

/// Whether a list defines no label and mentions no label but `target`.
pub open spec fn jumps_only_to(code: Seq<IRInstructionView>, target: u32) -> bool {
    &&& forall|i: int| 0 <= i < code.len() ==> (#[trigger] code[i]).opcode != Opcode::Label
    &&& forall|i: int, n: u32| 0 <= i < code.len() && #[trigger] mentions(code[i], n) ==> n == target
}

/// Labels within a range are within every wider range.
proof fn lemma_within_wider(code: Seq<IRInstructionView>, lo: nat, hi: nat, wide_lo: nat, wide_hi: nat)
    requires
        labels_within(code, lo, hi),
        wide_lo <= lo,
        hi <= wide_hi,
    ensures
        labels_within(code, wide_lo, wide_hi),
{
    assert forall|i: int, n: u32| 0 <= i < code.len() && #[trigger] mentions(code[i], n) implies wide_lo
        <= n < wide_hi by {
        assert(lo <= n < hi);
    }
}

/// Two lists with their labels within a range have them there one after
/// the other.
proof fn lemma_within_concat(a: Seq<IRInstructionView>, b: Seq<IRInstructionView>, lo: nat, hi: nat)
    requires
        labels_within(a, lo, hi),
        labels_within(b, lo, hi),
    ensures
        labels_within(a + b, lo, hi),
{
    let whole = a + b;
    assert forall|i: int, n: u32| 0 <= i < whole.len() && #[trigger] mentions(whole[i], n) implies lo
        <= n < hi by {
        if i < a.len() {
            assert(whole[i] == a[i]);
        } else {
            assert(whole[i] == b[i - a.len()]);
        }
    }
    assert forall|i: int| 0 <= i < whole.len() && (#[trigger] whole[i]).opcode
        == Opcode::Label implies whole[i].operands.len() == 1 && whole[i].operands[0] is Label by {
        if i < a.len() {
            assert(whole[i] == a[i]);
        } else {
            assert(whole[i] == b[i - a.len()]);
        }
    }
}

/// A list that jumps only to `target` has its labels within every range
/// that holds `target`.
proof fn lemma_jumps_within(code: Seq<IRInstructionView>, target: u32, lo: nat, hi: nat)
    requires
        jumps_only_to(code, target),
        lo <= target < hi,
    ensures
        labels_within(code, lo, hi),
{
}

/// The definition of the label `n`, alone.
pub open spec fn label_definition(n: u32) -> IRInstructionView {
    instr(Opcode::Label, seq![IRValueView::Label(n)])
}

/// The jump to the label `n`, alone.
pub open spec fn jump_to(n: u32) -> IRInstructionView {
    instr(Opcode::Jump, seq![IRValueView::Label(n)])
}

/// What a single definition or jump mentions and defines.
proof fn lemma_single(n: u32)
    ensures
        forall|m: u32| #[trigger] mentions(label_definition(n), m) ==> m == n,
        forall|m: u32| #[trigger] mentions(jump_to(n), m) ==> m == n,
        forall|m: u32| #[trigger] defines(label_definition(n), m) <==> m == n,
        forall|m: u32| !#[trigger] defines(jump_to(n), m),
{
    assert forall|m: u32| #[trigger] defines(label_definition(n), m) <==> m == n by {
        if defines(label_definition(n), m) {
            assert(label_definition(n).operands[0] == IRValueView::Label(m));
        }
    }
}

/// A list of single instructions that are definitions of, or jumps to, labels
/// of a range has its labels within that range.
proof fn lemma_within_single(x: IRInstructionView, n: u32, lo: nat, hi: nat)
    requires
        x == label_definition(n) || x == jump_to(n),
        lo <= n < hi,
    ensures
        labels_within(seq![x], lo, hi),
        forall|m: u32|
            #[trigger] definitions(seq![x], m) == if x == label_definition(n) && m == n {
                1nat
            } else {
                0nat
            },
{
    lemma_single(n);
    assert forall|m: u32|
        #[trigger] definitions(seq![x], m) == if x == label_definition(n) && m == n {
            1nat
        } else {
            0nat
        } by {
        lemma_definitions_push(Seq::empty(), x, m);
        assert(Seq::<IRInstructionView>::empty().push(x) =~= seq![x]);
    }
}

/// The instructions of a conditional allocate the two labels of the
/// conditional and, after them, the labels of its parts.
proof fn lemma_if_allocates(
    cond: Seq<IRInstructionView>,
    branch: Seq<IRInstructionView>,
    taken: Seq<IRInstructionView>,
    other: Seq<IRInstructionView>,
    first: nat,
    after_cond: nat,
    after_taken: nat,
    after_other: nat,
)
    requires
        first + 2 <= u32::MAX,
        allocates(cond, first + 2, after_cond),
        jumps_only_to(branch, first as u32),
        allocates(taken, after_cond, after_taken),
        allocates(other, after_taken, after_other),
    ensures
        allocates(
            cond + branch + taken + seq![
                jump_to((first + 1) as u32),
                label_definition(first as u32),
            ] + other + seq![label_definition((first + 1) as u32)],
            first,
            after_other,
        ),
{
    let else_label = first as u32;
    let end_label = (first + 1) as u32;
    let lo = first;
    let hi = after_other;
    let jump = seq![jump_to(end_label)];
    let else_def = seq![label_definition(else_label)];
    let end_def = seq![label_definition(end_label)];
    let with_branch = cond + branch;
    let with_taken = with_branch + taken;
    let with_jump = with_taken + jump;
    let with_else = with_jump + else_def;
    let with_other = with_else + other;
    let whole = with_other + end_def;
    assert(whole =~= cond + branch + taken + seq![jump_to(end_label), label_definition(else_label)]
        + other + seq![label_definition(end_label)]);
    lemma_within_single(jump_to(end_label), end_label, lo, hi);
    lemma_within_single(label_definition(else_label), else_label, lo, hi);
    lemma_within_single(label_definition(end_label), end_label, lo, hi);
    lemma_within_wider(cond, first + 2, after_cond, lo, hi);
    lemma_jumps_within(branch, else_label, lo, hi);
    lemma_within_wider(taken, after_cond, after_taken, lo, hi);
    lemma_within_wider(other, after_taken, after_other, lo, hi);
    lemma_within_concat(cond, branch, lo, hi);
    lemma_within_concat(with_branch, taken, lo, hi);
    lemma_within_concat(with_taken, jump, lo, hi);
    lemma_within_concat(with_jump, else_def, lo, hi);
    lemma_within_concat(with_else, other, lo, hi);
    lemma_within_concat(with_other, end_def, lo, hi);
    assert forall|n: u32| #[trigger] definitions(whole, n) == if lo <= n < hi {
        1nat
    } else {
        0nat
    } by {
        lemma_no_definitions(branch, n);
        lemma_definitions_concat(cond, branch, n);
        lemma_definitions_concat(with_branch, taken, n);
        lemma_definitions_concat(with_taken, jump, n);
        lemma_definitions_concat(with_jump, else_def, n);
        lemma_definitions_concat(with_else, other, n);
        lemma_definitions_concat(with_other, end_def, n);
        assert(definitions(cond, n) == if first + 2 <= n < after_cond { 1nat } else { 0nat });
        assert(definitions(taken, n) == if after_cond <= n < after_taken { 1nat } else { 0nat });
        assert(definitions(other, n) == if after_taken <= n < after_other { 1nat } else { 0nat });
        assert(definitions(jump, n) == 0);
        assert(definitions(else_def, n) == if n == else_label { 1nat } else { 0nat });
        assert(definitions(end_def, n) == if n == end_label { 1nat } else { 0nat });
    }
}

/// The instructions of a loop allocate the two labels of the loop and,
/// after them, the labels of its parts.
proof fn lemma_while_allocates(
    cond: Seq<IRInstructionView>,
    branch: Seq<IRInstructionView>,
    body: Seq<IRInstructionView>,
    first: nat,
    after_cond: nat,
    after_body: nat,
)
    requires
        first + 2 <= u32::MAX,
        allocates(cond, first + 2, after_cond),
        jumps_only_to(branch, (first + 1) as u32),
        allocates(body, after_cond, after_body),
    ensures
        allocates(
            seq![label_definition(first as u32)] + cond + branch + body + seq![
                jump_to(first as u32),
                label_definition((first + 1) as u32),
            ],
            first,
            after_body,
        ),
{
    let start_label = first as u32;
    let end_label = (first + 1) as u32;
    let lo = first;
    let hi = after_body;
    let start_def = seq![label_definition(start_label)];
    let jump = seq![jump_to(start_label)];
    let end_def = seq![label_definition(end_label)];
    let with_cond = start_def + cond;
    let with_branch = with_cond + branch;
    let with_body = with_branch + body;
    let with_jump = with_body + jump;
    let whole = with_jump + end_def;
    assert(whole =~= seq![label_definition(start_label)] + cond + branch + body + seq![
        jump_to(start_label),
        label_definition(end_label),
    ]);
    lemma_within_single(jump_to(start_label), start_label, lo, hi);
    lemma_within_single(label_definition(start_label), start_label, lo, hi);
    lemma_within_single(label_definition(end_label), end_label, lo, hi);
    lemma_within_wider(cond, first + 2, after_cond, lo, hi);
    lemma_jumps_within(branch, end_label, lo, hi);
    lemma_within_wider(body, after_cond, after_body, lo, hi);
    lemma_within_concat(start_def, cond, lo, hi);
    lemma_within_concat(with_cond, branch, lo, hi);
    lemma_within_concat(with_branch, body, lo, hi);
    lemma_within_concat(with_body, jump, lo, hi);
    lemma_within_concat(with_jump, end_def, lo, hi);
    assert forall|n: u32| #[trigger] definitions(whole, n) == if lo <= n < hi {
        1nat
    } else {
        0nat
    } by {
        lemma_no_definitions(branch, n);
        lemma_definitions_concat(start_def, cond, n);
        lemma_definitions_concat(with_cond, branch, n);
        lemma_definitions_concat(with_branch, body, n);
        lemma_definitions_concat(with_body, jump, n);
        lemma_definitions_concat(with_jump, end_def, n);
        assert(definitions(cond, n) == if first + 2 <= n < after_cond { 1nat } else { 0nat });
        assert(definitions(body, n) == if after_cond <= n < after_body { 1nat } else { 0nat });
        assert(definitions(jump, n) == 0);
        assert(definitions(start_def, n) == if n == start_label { 1nat } else { 0nat });
        assert(definitions(end_def, n) == if n == end_label { 1nat } else { 0nat });
    }
}

/// A list that allocates a range still does so with one instruction
/// without labels after it.
proof fn lemma_allocates_push(code: Seq<IRInstructionView>, x: IRInstructionView, lo: nat, hi: nat)
    requires
        allocates(code, lo, hi),
        label_free(seq![x]),
    ensures
        allocates(code.push(x), lo, hi),
{
    lemma_allocates_framed(Seq::empty(), code, seq![x], lo, hi);
    assert(Seq::<IRInstructionView>::empty() + code + seq![x] =~= code.push(x));
}

/// The declarations of parameters hold no label.
proof fn lemma_params_label_free(params: Seq<(Seq<char>, Seq<char>)>, n: nat)
    ensures
        label_free(param_code(params, n)),
    decreases n,
{
    if n > 0 {
        lemma_params_label_free(params, (n - 1) as nat);
    }
}

/// The branch after the condition of an `if` defines no label and jumps
/// only to its target.
proof fn lemma_if_branch_jumps(cond: ExprView, reg: nat, label: nat, target: u32)
    requires
        if_branch(cond, reg, label, target) is Some,
    ensures
        jumps_only_to(if_branch(cond, reg, label, target).unwrap().code, target),
        if_branch(cond, reg, label, target).unwrap().label == label,
{
    let code = if_branch(cond, reg, label, target).unwrap().code;
    assert forall|i: int, n: u32| 0 <= i < code.len() && #[trigger] mentions(code[i], n) implies n
        == target by {
        let k = choose|k: int|
            0 <= k < code[i].operands.len() && #[trigger] code[i].operands[k] == IRValueView::Label(
                n,
            );
    }
}

/// The label law for the entry function.
proof fn lemma_main_allocates(e: ExprView, reg: nat, label: nat)
    requires
        lower(e, reg, label) is Some,
        e is MainFuncDef,
    ensures
        allocates(lower(e, reg, label).unwrap().code, label, lower(e, reg, label).unwrap().label),
    decreases e, 0nat,
{
    match e {
        ExprView::MainFuncDef(body) => {
            lemma_lower_allocates(*body, reg, label);
            let b = lower(*body, reg, label).unwrap();
            lemma_allocates_framed(
                seq![instr(Opcode::FuncDef, seq![IRValueView::FuncName("main"@)])],
                b.code,
                seq![instr(Opcode::Return, seq![IRValueView::Number(0)])],
                label,
                b.label,
            );
        },
        _ => {},
    }
}

/// The label law for a binary operation.
proof fn lemma_binary_allocates(e: ExprView, reg: nat, label: nat)
    requires
        lower(e, reg, label) is Some,
        e is Binary,
    ensures
        allocates(lower(e, reg, label).unwrap().code, label, lower(e, reg, label).unwrap().label),
    decreases e, 0nat,
{
    let out = lower(e, reg, label).unwrap();
    match e {
        ExprView::Binary(l, op, r) => {
            lemma_lower_allocates(*l, reg, label);
            let a = lower(*l, reg, label).unwrap();
            match *r {
                ExprView::Number(_) => {
                    lemma_allocates_push(a.code, out.code.last(), label, a.label);
                    assert(out.code =~= a.code.push(out.code.last()));
                },
                _ => {
                    lemma_lower_allocates(*r, a.reg, a.label);
                    let b = lower(*r, a.reg, a.label).unwrap();
                    lemma_allocates_concat(a.code, b.code, label, a.label, b.label);
                    lemma_allocates_push(a.code + b.code, out.code.last(), label, b.label);
                    assert(out.code =~= (a.code + b.code).push(out.code.last()));
                },
            }
        },
        _ => {},
    }
}

/// The label law for an assignment.
proof fn lemma_assign_allocates(e: ExprView, reg: nat, label: nat)
    requires
        lower(e, reg, label) is Some,
        e is Assign,
    ensures
        allocates(lower(e, reg, label).unwrap().code, label, lower(e, reg, label).unwrap().label),
    decreases e, 0nat,
{
    let out = lower(e, reg, label).unwrap();
    match e {
        ExprView::Assign(_, value) => {
            lemma_lower_allocates(*value, reg, label);
            let v = lower(*value, reg, label).unwrap();
            lemma_allocates_push(v.code, out.code.last(), label, v.label);
            assert(out.code =~= v.code.push(out.code.last()));
        },
        _ => {},
    }
}

/// The label law for a declaration with an initial value.
proof fn lemma_initialized_allocates(e: ExprView, reg: nat, label: nat)
    requires
        lower(e, reg, label) is Some,
        e is VarDeclarationWithAssignment,
    ensures
        allocates(lower(e, reg, label).unwrap().code, label, lower(e, reg, label).unwrap().label),
    decreases e, 0nat,
{
    let out = lower(e, reg, label).unwrap();
    match e {
        ExprView::VarDeclarationWithAssignment(name, typ, init) => {
            lemma_lower_allocates(*init, reg, label);
            let v = lower(*init, reg, label).unwrap();
            let declaration = seq![
                instr(
                    Opcode::DeclareVar,
                    seq![IRValueView::Variable(name), IRValueView::Variable(typ)],
                ),
            ];
            lemma_allocates_framed(declaration, v.code, seq![out.code.last()], label, v.label);
            assert(out.code =~= declaration + v.code + seq![out.code.last()]);
        },
        _ => {},
    }
}

/// The label law for a function definition.
proof fn lemma_func_def_allocates(e: ExprView, reg: nat, label: nat)
    requires
        lower(e, reg, label) is Some,
        e is FuncDef,
    ensures
        allocates(lower(e, reg, label).unwrap().code, label, lower(e, reg, label).unwrap().label),
    decreases e, 0nat,
{
    let out = lower(e, reg, label).unwrap();
    match e {
        ExprView::FuncDef(name, _, params, body) => {
            lemma_lower_allocates(*body, reg, label);
            let b = lower(*body, reg, label).unwrap();
            lemma_params_label_free(params, params.len());
            let header = seq![instr(Opcode::FuncDef, seq![IRValueView::FuncName(name)])]
                + param_code(params, params.len());
            lemma_allocates_framed(header, b.code, Seq::empty(), label, b.label);
            assert(out.code =~= header + b.code + Seq::<IRInstructionView>::empty());
        },
        _ => {},
    }
}

/// The label law for a call.
proof fn lemma_call_allocates(e: ExprView, reg: nat, label: nat)
    requires
        lower(e, reg, label) is Some,
        e is FuncCall,
    ensures
        allocates(lower(e, reg, label).unwrap().code, label, lower(e, reg, label).unwrap().label),
    decreases e, 0nat,
{
    let out = lower(e, reg, label).unwrap();
    match e {
        ExprView::FuncCall(_, args) => {
            lemma_args_allocate(args, args.len(), reg, label);
            let a = lower_args(args, args.len(), reg, label).unwrap();
            lemma_allocates_push(a.code, out.code.last(), label, a.label);
            assert(out.code =~= a.code.push(out.code.last()));
        },
        _ => {},
    }
}

/// The label law for a `return`.
proof fn lemma_return_allocates(e: ExprView, reg: nat, label: nat)
    requires
        lower(e, reg, label) is Some,
        e is Return,
    ensures
        allocates(lower(e, reg, label).unwrap().code, label, lower(e, reg, label).unwrap().label),
    decreases e, 0nat,
{
    let out = lower(e, reg, label).unwrap();
    match e {
        ExprView::Return(value) => {
            lemma_lower_allocates(*value, reg, label);
            let v = lower(*value, reg, label).unwrap();
            lemma_allocates_push(v.code, out.code.last(), label, v.label);
            assert(out.code =~= v.code.push(out.code.last()));
        },
        _ => {},
    }
}

/// The label law for a `print`.
proof fn lemma_print_allocates(e: ExprView, reg: nat, label: nat)
    requires
        lower(e, reg, label) is Some,
        e is Print,
    ensures
        allocates(lower(e, reg, label).unwrap().code, label, lower(e, reg, label).unwrap().label),
    decreases e, 0nat,
{
    let out = lower(e, reg, label).unwrap();
    match e {
        ExprView::Print(value) => {
            lemma_lower_allocates(*value, reg, label);
            let v = lower(*value, reg, label).unwrap();
            lemma_allocates_push(v.code, out.code.last(), label, v.label);
            assert(out.code =~= v.code.push(out.code.last()));
        },
        _ => {},
    }
}

/// The label law for a conditional.
proof fn lemma_if_lowered(e: ExprView, reg: nat, label: nat)
    requires
        lower(e, reg, label) is Some,
        e is If,
    ensures
        allocates(lower(e, reg, label).unwrap().code, label, lower(e, reg, label).unwrap().label),
    decreases e, 0nat,
{
    let out = lower(e, reg, label).unwrap();
    match e {
        ExprView::If(cond, then_branch, els) => {
            lemma_lower_allocates(*cond, reg, label + 2);
            let c = lower(*cond, reg, label + 2).unwrap();
            lemma_if_branch_jumps(*cond, c.reg, c.label, label as u32);
            let j = if_branch(*cond, c.reg, c.label, label as u32).unwrap();
            lemma_lower_allocates(*then_branch, j.reg, j.label);
            let t = lower(*then_branch, j.reg, j.label).unwrap();
            match els {
                Some(branch) => {
                    lemma_lower_allocates(*branch, t.reg, t.label);
                    let f = lower(*branch, t.reg, t.label).unwrap();
                    lemma_if_allocates(
                        c.code,
                        j.code,
                        t.code,
                        f.code,
                        label,
                        c.label,
                        t.label,
                        f.label,
                    );
                    assert(out.code =~= c.code + j.code + t.code + seq![
                        jump_to((label + 1) as u32),
                        label_definition(label as u32),
                    ] + f.code + seq![label_definition((label + 1) as u32)]);
                },
                None => {
                    lemma_label_free(Seq::empty(), t.label);
                    lemma_if_allocates(
                        c.code,
                        j.code,
                        t.code,
                        Seq::empty(),
                        label,
                        c.label,
                        t.label,
                        t.label,
                    );
                    assert(out.code =~= c.code + j.code + t.code + seq![
                        jump_to((label + 1) as u32),
                        label_definition(label as u32),
                    ] + Seq::<IRInstructionView>::empty() + seq![
                        label_definition((label + 1) as u32),
                    ]);
                },
            }
        },
        _ => {},
    }
}

/// The label law for a loop.
proof fn lemma_while_lowered(e: ExprView, reg: nat, label: nat)
    requires
        lower(e, reg, label) is Some,
        e is While,
    ensures
        allocates(lower(e, reg, label).unwrap().code, label, lower(e, reg, label).unwrap().label),
    decreases e, 0nat,
{
    let out = lower(e, reg, label).unwrap();
    match e {
        ExprView::While(cond, body) => {
            lemma_lower_allocates(*cond, reg, label + 2);
            let c = lower(*cond, reg, label + 2).unwrap();
            lemma_lower_allocates(*body, c.reg, c.label);
            let b = lower(*body, c.reg, c.label).unwrap();
            let op = cond->Binary_1;
            let branch = seq![
                instr(
                    fused_jump(op),
                    seq![
                        IRValueView::TempReg((c.reg - 1) as u32),
                        IRValueView::Label((label + 1) as u32),
                    ],
                ),
            ];
            assert forall|i: int, n: u32| 0 <= i < branch.len() && #[trigger] mentions(
                branch[i],
                n,
            ) implies n == (label + 1) as u32 by {
                let k = choose|k: int|
                    0 <= k < branch[i].operands.len() && #[trigger] branch[i].operands[k]
                        == IRValueView::Label(n);
            }
            lemma_while_allocates(c.code, branch, b.code, label, c.label, b.label);
            assert(out.code =~= seq![label_definition(label as u32)] + c.code + branch + b.code
                + seq![jump_to(label as u32), label_definition((label + 1) as u32)]);
        },
        _ => {},
    }
}

/// The instructions of a tree define each label that the tree takes from
/// the counter once, define no other label, and mention no other.
pub proof fn lemma_lower_allocates(e: ExprView, reg: nat, label: nat)
    requires
        lower(e, reg, label) is Some,
    ensures
        allocates(lower(e, reg, label).unwrap().code, label, lower(e, reg, label).unwrap().label),
    decreases e, 1nat,
{
    let out = lower(e, reg, label).unwrap();
    match e {
        ExprView::Program(stmts) => {
            lemma_upto_allocates(stmts, stmts.len(), reg, label);
        },
        ExprView::Statements(stmts) => {
            lemma_upto_allocates(stmts, stmts.len(), reg, label);
        },
        ExprView::MainFuncDef(..) => {
            lemma_main_allocates(e, reg, label);
        },
        ExprView::Binary(..) => {
            lemma_binary_allocates(e, reg, label);
        },
        ExprView::Assign(..) => {
            lemma_assign_allocates(e, reg, label);
        },
        ExprView::VarDeclarationWithAssignment(..) => {
            lemma_initialized_allocates(e, reg, label);
        },
        ExprView::FuncDef(..) => {
            lemma_func_def_allocates(e, reg, label);
        },
        ExprView::FuncCall(..) => {
            lemma_call_allocates(e, reg, label);
        },
        ExprView::Return(..) => {
            lemma_return_allocates(e, reg, label);
        },
        ExprView::Print(..) => {
            lemma_print_allocates(e, reg, label);
        },
        ExprView::If(..) => {
            lemma_if_lowered(e, reg, label);
        },
        ExprView::While(..) => {
            lemma_while_lowered(e, reg, label);
        },
        ExprView::String(_) => {},
        ExprView::Semicolon(_) => {},
        _ => {
            lemma_label_free(out.code, label);
        },
    }
}

/// The instructions of the first `n` statements of a list allocate the
/// labels that they take from the counter.
pub proof fn lemma_upto_allocates(stmts: Seq<ExprView>, n: nat, reg: nat, label: nat)
    requires
        lower_upto(stmts, n, reg, label) is Some,
    ensures
        allocates(
            lower_upto(stmts, n, reg, label).unwrap().code,
            label,
            lower_upto(stmts, n, reg, label).unwrap().label,
        ),
    decreases stmts, n,
{
    if n == 0 || n > stmts.len() {
        lemma_label_free(Seq::empty(), label);
    } else {
        lemma_upto_allocates(stmts, (n - 1) as nat, reg, label);
        let before = lower_upto(stmts, (n - 1) as nat, reg, label).unwrap();
        lemma_lower_allocates(stmts[n - 1], before.reg, before.label);
        let s = lower(stmts[n - 1], before.reg, before.label).unwrap();
        lemma_allocates_concat(before.code, s.code, label, before.label, s.label);
    }
}

/// The instructions of the first `n` arguments of a call allocate the
/// labels that they take from the counter.
pub proof fn lemma_args_allocate(args: Seq<ExprView>, n: nat, reg: nat, label: nat)
    requires
        lower_args(args, n, reg, label) is Some,
    ensures
        allocates(
            lower_args(args, n, reg, label).unwrap().code,
            label,
            lower_args(args, n, reg, label).unwrap().label,
        ),
    decreases args, n,
{
    if n == 0 || n > args.len() {
        lemma_label_free(Seq::empty(), label);
    } else {
        lemma_args_allocate(args, (n - 1) as nat, reg, label);
        let before = lower_args(args, (n - 1) as nat, reg, label).unwrap();
        lemma_lower_allocates(args[n - 1], before.reg, before.label);
        let a = lower(args[n - 1], before.reg, before.label).unwrap();
        lemma_allocates_concat(before.code, a.code, label, before.label, a.label);
        let out = lower_args(args, n, reg, label).unwrap();
        lemma_allocates_push(before.code + a.code, out.code.last(), label, a.label);
        assert(out.code =~= (before.code + a.code).push(out.code.last()));
    }
}

/// Label uniqueness: in the instructions of a tree no label is defined
/// twice, every label that an instruction mentions is defined, and every
/// instruction with the operation `Label` defines one.
pub proof fn lemma_labels_unique(ast: ExprView)
    requires
        ir_of(ast) is Some,
    ensures
        ({
            let code = ir_of(ast).unwrap();
            &&& forall|i: int, j: int, n: u32|
                0 <= i < code.len() && 0 <= j < code.len() && #[trigger] defines(code[i], n)
                    && #[trigger] defines(code[j], n) ==> i == j
            &&& forall|i: int, n: u32|
                0 <= i < code.len() && #[trigger] mentions(code[i], n) ==> exists|j: int|
                    0 <= j < code.len() && #[trigger] defines(code[j], n)
            &&& forall|i: int|
                0 <= i < code.len() && (#[trigger] code[i]).opcode == Opcode::Label ==> exists|
                    n: u32,
                | defines(code[i], n)
        }),
{
    let out = lower(ast, 0, 0).unwrap();
    let code = out.code;
    lemma_lower_allocates(ast, 0, 0);
    assert forall|i: int, j: int, n: u32|
        0 <= i < code.len() && 0 <= j < code.len() && #[trigger] defines(code[i], n)
            && #[trigger] defines(code[j], n) implies i == j by {
        assert(definitions(code, n) <= 1);
        if i < j {
            lemma_definitions_counted(code, n, i, j);
        } else if j < i {
            lemma_definitions_counted(code, n, j, i);
        }
    }
    assert forall|i: int, n: u32| 0 <= i < code.len() && #[trigger] mentions(code[i], n) implies exists|
        j: int,
    |
        0 <= j < code.len() && #[trigger] defines(code[j], n) by {
        assert(0 <= n < out.label);
        assert(definitions(code, n) == 1);
        let place = lemma_definition_exists(code, n);
        assert(defines(code[place], n));
    }
    assert forall|i: int| 0 <= i < code.len() && (#[trigger] code[i]).opcode
        == Opcode::Label implies exists|n: u32| defines(code[i], n) by {
        let n = code[i].operands[0]->Label_0;
        assert(code[i].operands =~= seq![IRValueView::Label(n)]);
        assert(defines(code[i], n));
    }
}

} // verus!
