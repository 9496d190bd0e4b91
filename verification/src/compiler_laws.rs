use vstd::prelude::*;
use crate::bytecode::Instruction;
use crate::compiler::{
    EmitState,
    ModuleContextView,
    compile_function_spec,
    compile_functions_spec,
    compile_spec,
    emit_op_spec,
    emit_spec,
    then_arm,
};
use crate::interpreter::RunFunctionView;
use crate::ir::{IrFunctionView, IrModuleView, IrView};
use crate::lower_laws::all_end;
use crate::optimize::laws::{lemma_optimize_keeps_ends, paths_end};
use crate::optimize::tail_laws::{direct_calls, is_call};
use crate::optimize::passes::optimize_spec;
use crate::support::{lemma_index_of, Table};

verus! {

/// Whether every path through `code` that starts at `pc` comes to a return
/// or an error without leaving the code. A call goes on behind itself; a
/// jump must lead forward.
pub open spec fn halts(code: Seq<Instruction>, pc: int) -> bool
    decreases code.len() - pc,
{
    if pc < 0 || pc >= code.len() {
        false
    } else {
        match code[pc] {
            Instruction::Return => true,
            Instruction::Error => true,
            Instruction::Jump { jump } => if jump >= 0 && pc + jump + 1 < code.len() {
                halts(code, pc + jump + 1)
            } else {
                false
            },
            Instruction::Branch { jump } => if jump >= 0 && pc + jump + 1 < code.len() {
                halts(code, pc + 1) && halts(code, pc + jump + 1)
            } else {
                false
            },
            _ => halts(code, pc + 1),
        }
    }
}

/// Whether the operation by itself ends every path through it.
pub open spec fn ends(op: IrView) -> bool {
    match op {
        IrView::Return => true,
        IrView::Error => true,
        IrView::Branch { then_block, else_block } => paths_end(then_block) && paths_end(else_block),
        _ => false,
    }
}

/// The code that `body` is emitted to, wherever it stands: every path from
/// its start comes to a return or an error inside it, or to its end; and to
/// one of the first two where every path through `body` ends.
pub proof fn lemma_emit_flows(
    st: EmitState,
    body: Seq<IrView>,
    before: Seq<Instruction>,
    after: Seq<Instruction>,
)
    requires
        emit_spec(st, body) is Ok,
    ensures
        ({
            let code = emit_spec(st, body)->Ok_0.0;
            let whole = before + code + after;
            &&& halts(whole, (before.len() + code.len()) as int) ==> halts(whole, before.len() as int)
            &&& paths_end(body) ==> halts(whole, before.len() as int)
        }),
    decreases body, 0nat,
{
    let code = emit_spec(st, body)->Ok_0.0;
    let whole = before + code + after;
    if body.len() == 0 {
        assert(code.len() == 0);
    } else {
        let (first, st1) = emit_spec(st, body.drop_last())->Ok_0;
        let (last, st2) = emit_op_spec(st1, body.last())->Ok_0;
        assert(code == first + last);
        assert((before + first) + last + after =~= whole);
        assert(before + first + (last + after) =~= whole);
        lemma_emit_op_flows(st1, body.last(), before + first, after);
        lemma_emit_flows(st, body.drop_last(), before, last + after);
    }
}

/// The code that one operation is emitted to, wherever it stands: as
/// `lemma_emit_flows` says of a body.
pub proof fn lemma_emit_op_flows(
    st: EmitState,
    op: IrView,
    before: Seq<Instruction>,
    after: Seq<Instruction>,
)
    requires
        emit_op_spec(st, op) is Ok,
    ensures
        ({
            let code = emit_op_spec(st, op)->Ok_0.0;
            let whole = before + code + after;
            &&& halts(whole, (before.len() + code.len()) as int) ==> halts(whole, before.len() as int)
            &&& ends(op) ==> halts(whole, before.len() as int)
        }),
    decreases op, 1nat,
{
    let code = emit_op_spec(st, op)->Ok_0.0;
    let whole = before + code + after;
    let at = before.len() as int;
    match op {
        IrView::Branch { then_block, else_block } => {
            let (then_code, st1) = emit_spec(st, then_block)->Ok_0;
            let (else_code, st2) = emit_spec(st1, else_block)->Ok_0;
            let then_full = then_arm(then_code, else_code.len() as int);
            let jump = then_full.len() as i32;
            let head = seq![Instruction::Branch { jump }];
            assert(code == head + then_full + else_code);
            assert(jump == then_full.len());
            assert(whole[at] == Instruction::Branch { jump });
            assert((before + head + then_full) + else_code + after =~= whole);
            lemma_emit_flows(st1, else_block, before + head + then_full, after);
            if then_code.len() > 0 && then_code.last() == Instruction::Return {
                assert((before + head) + then_code + (else_code + after) =~= whole);
                lemma_emit_flows(st, then_block, before + head, else_code + after);
            } else {
                let over = seq![Instruction::Jump { jump: else_code.len() as i32 }];
                assert(then_full =~= then_code + over);
                assert((before + head) + then_code + (over + else_code + after) =~= whole);
                lemma_emit_flows(st, then_block, before + head, over + else_code + after);
                assert(whole[at + 1 + then_code.len()] == Instruction::Jump {
                    jump: else_code.len() as i32,
                });
            }
        },
        IrView::FreeLocal { .. } => {
            assert(code.len() == 0);
        },
        _ => {
            assert(code.len() == 1);
            assert(whole[at] == code[0]);
        },
    }
}

/// Whether every function of `functions` that is compiled code comes to a
/// return or an error on every path from its first instruction.
pub open spec fn all_halt(functions: Table<RunFunctionView>) -> bool {
    &&& functions.wf()
    &&& forall|i: int|
        0 <= i < functions.values.len() ==> match #[trigger] functions.values[i] {
            RunFunctionView::BitFunction(f) => halts(f.body, 0),
            RunFunctionView::NativeFunction(_) => true,
        }
}

/// A function of which every path ends is compiled to code of which every
/// path from the first instruction comes to a return or an error.
pub proof fn lemma_function_halts(
    ctx: ModuleContextView,
    package: Seq<char>,
    module: Seq<char>,
    name: Seq<char>,
    f: IrFunctionView,
)
    requires
        paths_end(f.body),
        compile_function_spec(ctx, package, module, name, f) is Ok,
    ensures
        halts(compile_function_spec(ctx, package, module, name, f)->Ok_0.0.body, 0),
{
    lemma_optimize_keeps_ends(f.body);
    let st = EmitState { module: ctx, func: crate::compiler::FuncContextView::start(f.args) };
    lemma_emit_flows(st, optimize_spec(f.body), Seq::empty(), Seq::empty());
    let code = emit_spec(st, optimize_spec(f.body))->Ok_0.0;
    assert(Seq::<Instruction>::empty() + code + Seq::<Instruction>::empty() =~= code);
}

/// The first `n` functions of a module of which every path ends are
/// compiled to code of which every path comes to a return or an error.
pub proof fn lemma_functions_halt(m: IrModuleView, n: int)
    requires
        all_end(m.functions),
        n <= m.functions.names.len(),
        compile_functions_spec(m, n) is Ok,
    ensures
        all_halt(compile_functions_spec(m, n)->Ok_0.0),
    decreases n,
{
    if n > 0 {
        lemma_functions_halt(m, n - 1);
        let (done, ctx) = compile_functions_spec(m, n - 1)->Ok_0;
        let name = m.functions.names[n - 1];
        let f = m.functions.values[n - 1];
        lemma_function_halts(ctx, m.package, m.name, name, f);
        lemma_index_of(done.names, name);
    }
}

/// Every control path through the body of every function of a compiled
/// module comes to a return or an error, where that holds of the module it
/// was compiled from; and it holds of every module that lowering gives.
pub proof fn lemma_module_halts(m: IrModuleView)
    requires
        all_end(m.functions),
        compile_spec(m) is Ok,
    ensures
        all_halt(compile_spec(m)->Ok_0.functions),
{
    lemma_functions_halt(m, m.functions.names.len() as int);
}

/// Whether the instruction is a call.
pub open spec fn call_instruction(instr: Instruction) -> bool {
    instr is CallStatic || instr is CallDynamic
}

/// How many calls of `code` have a return directly behind them.
pub open spec fn returned_calls(code: Seq<Instruction>) -> nat
    decreases code.len(),
{
    if code.len() < 2 {
        0
    } else {
        returned_calls(code.drop_last()) + if call_instruction(code[code.len() - 2])
            && code[code.len() - 1] == Instruction::Return {
            1nat
        } else {
            0nat
        }
    }
}

/// Code put together has at least the calls with returns of its parts.
pub proof fn lemma_returned_calls_add(front: Seq<Instruction>, back: Seq<Instruction>)
    ensures
        returned_calls(front + back) >= returned_calls(front) + returned_calls(back),
    decreases back.len(),
{
    let whole = front + back;
    if back.len() == 0 {
        assert(whole =~= front);
    } else {
        assert(whole.drop_last() =~= front + back.drop_last());
        lemma_returned_calls_add(front, back.drop_last());
        if back.len() >= 2 {
            assert(whole[whole.len() - 2] == back[back.len() - 2]);
            assert(whole[whole.len() - 1] == back[back.len() - 1]);
        }
    }
}

/// Emitting code keeps every call with its return: each call at the end of a
/// path through `body` that has a return directly behind it is a call
/// instruction with a return instruction directly behind it.
pub proof fn lemma_emit_keeps_direct(st: EmitState, body: Seq<IrView>)
    requires
        emit_spec(st, body) is Ok,
    ensures
        returned_calls(emit_spec(st, body)->Ok_0.0) >= direct_calls(body),
    decreases body, 0nat,
{
    if body.len() > 0 {
        let init = body.drop_last();
        let (first, st1) = emit_spec(st, init)->Ok_0;
        let (last, st2) = emit_op_spec(st1, body.last())->Ok_0;
        let code = first + last;
        match body.last() {
            IrView::Return => {
                if body.len() >= 2 && is_call(body[body.len() - 2]) {
                    assert(init.last() == body[body.len() - 2]);
                    let (before, st0) = emit_spec(st, init.drop_last())->Ok_0;
                    let (call, _) = emit_op_spec(st0, init.last())->Ok_0;
                    assert(first == before + call);
                    assert(call.len() == 1 && call_instruction(call[0]));
                    assert(code[code.len() - 2] == call[0]);
                    assert(code[code.len() - 1] == Instruction::Return);
                }
            },
            IrView::Branch { then_block, else_block } => {
                let (then_code, sa) = emit_spec(st1, then_block)->Ok_0;
                let (else_code, sb) = emit_spec(sa, else_block)->Ok_0;
                lemma_emit_keeps_direct(st1, then_block);
                lemma_emit_keeps_direct(sa, else_block);
                let then_full = then_arm(then_code, else_code.len() as int);
                let head = seq![Instruction::Branch { jump: then_full.len() as i32 }];
                assert(last == head + then_full + else_code);
                if then_full != then_code {
                    assert(then_full.drop_last() =~= then_code);
                }
                lemma_returned_calls_add(head, then_full);
                lemma_returned_calls_add(head + then_full, else_code);
                lemma_returned_calls_add(first, last);
            },
            _ => {},
        }
    }
}

} // verus!
