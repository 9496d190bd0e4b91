use vstd::prelude::*;
use crate::ast::{ExprView, ModuleView};
use crate::ir::{IrFunctionView, IrView};
use crate::lower::{
    LowerEnv,
    LowerState,
    capture_spec,
    lower_call_spec,
    lower_declaration_spec,
    lower_function_spec,
    lower_functions_spec,
    lower_items_spec,
    lower_module_spec,
    lower_spec,
    module_env,
};
use crate::compiler::{EmitState, ModuleContextView, compile_function_spec};
use crate::compiler_laws::{lemma_emit_keeps_direct, returned_calls};
use crate::optimize::laws::paths_end;
use crate::optimize::passes::optimize_spec;
use crate::optimize::tail_laws::{lemma_optimize_makes_direct, no_returns, tail_calls};
use crate::support::{index_of, lemma_index_of, Table};

verus! {

/// Whether every path through the body of every function of `functions`
/// ends with a return or an error.
pub open spec fn all_end(functions: Table<IrFunctionView>) -> bool {
    &&& functions.wf()
    &&& forall|i: int|
        0 <= i < functions.values.len() ==> paths_end((#[trigger] functions.values[i]).body)
}

/// A function whose paths end can join functions whose paths end.
pub proof fn lemma_insert_keeps_ends(functions: Table<IrFunctionView>, name: Seq<char>, f: IrFunctionView)
    requires
        all_end(functions),
        paths_end(f.body),
    ensures
        all_end(functions.insert(name, f)),
{
    lemma_index_of(functions.names, name);
}

/// Lowering an expression adds only functions whose paths end.
pub proof fn lemma_lower_keeps_ends(env: LowerEnv, st: LowerState, e: ExprView)
    requires
        all_end(st.functions),
        lower_spec(env, st, e) is Ok,
    ensures
        all_end(lower_spec(env, st, e)->Ok_0.1.functions),
    decreases e, 2nat,
{
    match e {
        ExprView::FunctionDeclaration { .. } => {
            lemma_declaration_keeps_ends(env, st, e);
        },
        ExprView::Assignment { body, .. } => {
            lemma_lower_keeps_ends(env, st, *body);
        },
        ExprView::BinaryOp { left, right, .. } => {
            lemma_lower_keeps_ends(env, st, *left);
            lemma_lower_keeps_ends(env, lower_spec(env, st, *left)->Ok_0.1, *right);
        },
        ExprView::Call { .. } => {
            lemma_call_keeps_ends(env, st, e);
        },
        ExprView::If { condition, then_block, else_block, .. } => {
            lemma_lower_keeps_ends(env, st, *condition);
            let st1 = lower_spec(env, st, *condition)->Ok_0.1;
            lemma_lower_keeps_ends(env, st1, *then_block);
            let st2 = lower_spec(env, st1, *then_block)->Ok_0.1;
            lemma_lower_keeps_ends(env, st2, *else_block);
        },
        ExprView::Block { items, .. } => {
            lemma_items_keep_ends(env, st, items);
        },
        _ => {},
    }
}

/// Lowering several expressions adds only functions whose paths end.
pub proof fn lemma_items_keep_ends(env: LowerEnv, st: LowerState, items: Seq<ExprView>)
    requires
        all_end(st.functions),
        lower_items_spec(env, st, items) is Ok,
    ensures
        all_end(lower_items_spec(env, st, items)->Ok_0.1.functions),
    decreases items, 0nat,
{
    if items.len() > 0 {
        lemma_items_keep_ends(env, st, items.drop_last());
        let st1 = lower_items_spec(env, st, items.drop_last())->Ok_0.1;
        lemma_lower_keeps_ends(env, st1, items.last());
    }
}

/// Lowering a call adds only functions whose paths end.
pub proof fn lemma_call_keeps_ends(env: LowerEnv, st: LowerState, e: ExprView)
    requires
        all_end(st.functions),
        lower_call_spec(env, st, e) is Ok,
    ensures
        all_end(lower_call_spec(env, st, e)->Ok_0.1.functions),
    decreases e, 0nat,
{
    match e {
        ExprView::Call { func, args, .. } => {
            if crate::lower::static_target(env, st.scopes, *func) is Some {
                lemma_items_keep_ends(env, st, args);
            } else {
                lemma_lower_keeps_ends(env, st, *func);
                let st1 = lower_spec(env, st, *func)->Ok_0.1;
                lemma_items_keep_ends(env, st1, args);
            }
        },
        _ => {},
    }
}

/// Lowering a function gives a function whose paths end, and adds no other
/// to those that are done.
pub proof fn lemma_function_keeps_ends(env: LowerEnv, st: LowerState, e: ExprView)
    requires
        all_end(st.functions),
        lower_function_spec(env, st, e) is Ok,
    ensures
        all_end(lower_function_spec(env, st, e)->Ok_0.1.functions),
    decreases e, 0nat,
{
    match e {
        ExprView::FunctionDeclaration { id, body, .. } => {
            let inner = LowerState { scopes: st.scopes.push(crate::lower::first_locals(e)), ..st };
            lemma_lower_keeps_ends(env, inner, *body);
            let (code, after) = lower_spec(env, inner, *body)->Ok_0;
            let func = IrFunctionView {
                func_ref: crate::lower::declared_ref(env, e),
                args: crate::lower::first_parameters(e),
                body: code.push(IrView::Return),
                shape: e.shape(),
            };
            lemma_insert_keeps_ends(after.functions, id, func);
        },
        _ => {},
    }
}

/// Lowering a declaration inside a function adds only functions whose paths
/// end.
pub proof fn lemma_declaration_keeps_ends(env: LowerEnv, st: LowerState, e: ExprView)
    requires
        all_end(st.functions),
        lower_declaration_spec(env, st, e) is Ok,
    ensures
        all_end(lower_declaration_spec(env, st, e)->Ok_0.1.functions),
    decreases e, 1nat,
{
    match e {
        ExprView::FunctionDeclaration { .. } => {
            lemma_function_keeps_ends(env, st, e);
        },
        _ => {},
    }
}

/// The functions of a module are lowered to functions whose paths end.
pub proof fn lemma_functions_end(env: LowerEnv, functions: Seq<ExprView>, n: int)
    requires
        lower_functions_spec(env, functions, n) is Ok,
    ensures
        all_end(lower_functions_spec(env, functions, n)->Ok_0.functions),
    decreases n,
{
    if n > 0 {
        lemma_functions_end(env, functions, n - 1);
        let st = lower_functions_spec(env, functions, n - 1)->Ok_0;
        lemma_function_keeps_ends(env, st, functions[n - 1]);
    }
}

/// In a lowered module every path through the body of every function ends
/// with a return or an error.
pub proof fn lemma_module_paths_end(m: ModuleView)
    requires
        lower_module_spec(m) is Ok,
    ensures
        all_end(lower_module_spec(m)->Ok_0.functions),
{
    lemma_functions_end(module_env(m), m.functions, m.functions.len() as int);
}

/// Code without returns stays so when code without returns comes behind it.
pub proof fn lemma_no_returns_add(front: Seq<IrView>, back: Seq<IrView>)
    requires
        no_returns(front),
        no_returns(back),
    ensures
        no_returns(front + back),
    decreases back.len(),
{
    if back.len() == 0 {
        assert(front + back =~= front);
    } else {
        assert((front + back).drop_last() =~= front + back.drop_last());
        lemma_no_returns_add(front, back.drop_last());
    }
}

/// One operation behind code without returns.
pub proof fn lemma_no_returns_push(code: Seq<IrView>, op: IrView)
    requires
        no_returns(code),
        !(op is Return),
        match op {
            IrView::Branch { then_block, else_block } => no_returns(then_block) && no_returns(
                else_block,
            ),
            _ => true,
        },
    ensures
        no_returns(code.push(op)),
{
    assert(code.push(op).drop_last() =~= code);
}

/// The code for what a function captures holds no return.
pub proof fn lemma_capture_no_returns(
    env: LowerEnv,
    scopes: Seq<Seq<Seq<char>>>,
    closures: Seq<crate::ast::ParameterView>,
    loc: crate::ast::LocationView,
)
    requires
        capture_spec(env, scopes, closures, loc) is Ok,
    ensures
        no_returns(capture_spec(env, scopes, closures, loc)->Ok_0),
    decreases closures.len(),
{
    if closures.len() > 0 {
        lemma_capture_no_returns(env, scopes, closures.drop_last(), loc);
        let code = capture_spec(env, scopes, closures.drop_last(), loc)->Ok_0;
        let all = capture_spec(env, scopes, closures, loc)->Ok_0;
        assert(all.drop_last() =~= code);
    }
}

/// The code that builds the handle of a declared function holds no return.
pub proof fn lemma_declaration_no_returns(env: LowerEnv, st: LowerState, e: ExprView)
    requires
        lower_declaration_spec(env, st, e) is Ok,
    ensures
        no_returns(lower_declaration_spec(env, st, e)->Ok_0.0),
{
    let code = lower_declaration_spec(env, st, e)->Ok_0.0;
    let none = Seq::<IrView>::empty();
    match e {
        ExprView::FunctionDeclaration { loc, id, context, .. } => {
            lemma_capture_no_returns(env, st.scopes, context.closures, loc);
            let captures = capture_spec(env, st.scopes, context.closures, loc)->Ok_0;
            let func_ref = lower_function_spec(env, st, e)->Ok_0.0;
            let build = if context.closures.len() == 0 {
                seq![IrView::LoadConstFunction { func: func_ref }]
            } else {
                captures.push(
                    IrView::BuildClosure {
                        param_count: context.closures.len() as u16,
                        func: func_ref,
                    },
                )
            };
            if context.closures.len() == 0 {
                lemma_no_returns_push(none, IrView::LoadConstFunction { func: func_ref });
                assert(none.push(IrView::LoadConstFunction { func: func_ref }) =~= build);
            } else {
                lemma_no_returns_push(
                    captures,
                    IrView::BuildClosure {
                        param_count: context.closures.len() as u16,
                        func: func_ref,
                    },
                );
            }
            let wrapped = if context.is_recursive {
                build.push(IrView::BuildRecursiveFunction)
            } else {
                build
            };
            if context.is_recursive {
                lemma_no_returns_push(build, IrView::BuildRecursiveFunction);
            }
            if !context.is_lambda {
                lemma_no_returns_push(wrapped, IrView::StoreValue { local: id });
            }
        },
        _ => {},
    }
}

/// The code for a call holds no return.
pub proof fn lemma_call_no_returns(env: LowerEnv, st: LowerState, e: ExprView)
    requires
        lower_call_spec(env, st, e) is Ok,
    ensures
        no_returns(lower_call_spec(env, st, e)->Ok_0.0),
    decreases e, 0nat,
{
    match e {
        ExprView::Call { func, args, .. } => {
            match crate::lower::static_target(env, st.scopes, *func) {
                Some(target) => {
                    lemma_items_no_returns(env, st, args);
                    lemma_no_returns_push(
                        lower_items_spec(env, st, args)->Ok_0.0,
                        IrView::CallStatic { func: target },
                    );
                },
                None => {
                    lemma_lower_no_returns(env, st, *func);
                    let (callee, st1) = lower_spec(env, st, *func)->Ok_0;
                    lemma_items_no_returns(env, st1, args);
                    let rest = lower_items_spec(env, st1, args)->Ok_0.0;
                    lemma_no_returns_add(callee, rest);
                    lemma_no_returns_push(
                        callee + rest,
                        IrView::CallDynamic { param_count: args.len() as u16 },
                    );
                },
            }
        },
        _ => {},
    }
}

/// The code for an expression holds no return: only a function's body gets
/// one, at its end.
pub proof fn lemma_lower_no_returns(env: LowerEnv, st: LowerState, e: ExprView)
    requires
        lower_spec(env, st, e) is Ok,
    ensures
        no_returns(lower_spec(env, st, e)->Ok_0.0),
    decreases e, 2nat,
{
    let code = lower_spec(env, st, e)->Ok_0.0;
    let none = Seq::<IrView>::empty();
    assert(no_returns(none));
    match e {
        ExprView::FunctionDeclaration { .. } => {
            lemma_declaration_no_returns(env, st, e);
        },
        ExprView::Assignment { id, body, .. } => {
            lemma_lower_no_returns(env, st, *body);
            lemma_no_returns_push(lower_spec(env, st, *body)->Ok_0.0, IrView::StoreValue { local: id });
        },
        ExprView::Variable { .. } => {
            assert(code.drop_last() =~= none);
        },
        ExprView::BinaryOp { op, left, right, .. } => {
            lemma_lower_no_returns(env, st, *left);
            let (first, st1) = lower_spec(env, st, *left)->Ok_0;
            lemma_lower_no_returns(env, st1, *right);
            let second = lower_spec(env, st1, *right)->Ok_0.0;
            lemma_no_returns_add(first, second);
            lemma_no_returns_push(first + second, IrView::CallStatic { func: env.core.get(op)->Some_0 });
        },
        ExprView::Call { .. } => {
            lemma_call_no_returns(env, st, e);
        },
        ExprView::If { condition, then_block, else_block, .. } => {
            lemma_lower_no_returns(env, st, *condition);
            let (test, st1) = lower_spec(env, st, *condition)->Ok_0;
            lemma_lower_no_returns(env, st1, *then_block);
            let (then_code, st2) = lower_spec(env, st1, *then_block)->Ok_0;
            lemma_lower_no_returns(env, st2, *else_block);
            let else_code = lower_spec(env, st2, *else_block)->Ok_0.0;
            lemma_no_returns_push(
                test,
                IrView::Branch { then_block: then_code, else_block: else_code },
            );
        },
        ExprView::Block { items, .. } => {
            lemma_items_no_returns(env, st, items);
        },
        ExprView::NoOp { .. } => {},
        ExprView::StringLiteral { .. } => {
            assert(code.drop_last() =~= none);
        },
        ExprView::NumberLiteral { .. } => {
            assert(code.drop_last() =~= none);
        },
        ExprView::BooleanLiteral { .. } => {
            assert(code.drop_last() =~= none);
        },
    }
}

/// The code for several expressions holds no return.
pub proof fn lemma_items_no_returns(env: LowerEnv, st: LowerState, items: Seq<ExprView>)
    requires
        lower_items_spec(env, st, items) is Ok,
    ensures
        no_returns(lower_items_spec(env, st, items)->Ok_0.0),
    decreases items, 0nat,
{
    if items.len() > 0 {
        lemma_items_no_returns(env, st, items.drop_last());
        let (code, st1) = lower_items_spec(env, st, items.drop_last())->Ok_0;
        lemma_lower_no_returns(env, st1, items.last());
        lemma_no_returns_add(code, lower_spec(env, st1, items.last())->Ok_0.0);
    }
}

/// How many calls the expression holds in tail position: itself where it is
/// a call, those of both arms where it is a condition, and those of its last
/// expression where it is a block.
pub open spec fn source_tail_calls(e: ExprView) -> nat
    decreases e,
{
    match e {
        ExprView::Call { .. } => 1,
        ExprView::If { then_block, else_block, .. } => source_tail_calls(*then_block)
            + source_tail_calls(*else_block),
        ExprView::Block { items, .. } => if items.len() > 0 {
            source_tail_calls(items.last())
        } else {
            0
        },
        _ => 0,
    }
}

/// The calls in tail position of code are those of its end, where that
/// holds no return.
pub proof fn lemma_tail_calls_suffix(front: Seq<IrView>, back: Seq<IrView>)
    requires
        back.len() > 0,
        !(back.last() is Return),
    ensures
        tail_calls(front + back, true) == tail_calls(back, true),
{
    assert((front + back).last() == back.last());
}

/// The code for a call ends with the call.
pub proof fn lemma_call_ends_with_call(env: LowerEnv, st: LowerState, e: ExprView)
    requires
        e is Call,
        lower_call_spec(env, st, e) is Ok,
    ensures
        tail_calls(lower_call_spec(env, st, e)->Ok_0.0, true) == 1,
{
}

/// The calls in tail position of the last of several expressions are calls
/// in tail position in the code for all of them.
pub proof fn lemma_items_tail_calls(env: LowerEnv, st: LowerState, items: Seq<ExprView>)
    requires
        lower_items_spec(env, st, items) is Ok,
    ensures
        items.len() > 0 ==> tail_calls(lower_items_spec(env, st, items)->Ok_0.0, true)
            >= source_tail_calls(items.last()),
    decreases items, 0nat,
{
    if items.len() > 0 {
        let (code, st1) = lower_items_spec(env, st, items.drop_last())->Ok_0;
        lemma_lower_tail_calls(env, st1, items.last());
        let last = lower_spec(env, st1, items.last())->Ok_0.0;
        if last.len() > 0 {
            lemma_lower_no_returns(env, st1, items.last());
            lemma_tail_calls_suffix(code, last);
        }
    }
}

/// Every call in tail position in an expression is a call in tail position
/// in its code.
pub proof fn lemma_lower_tail_calls(env: LowerEnv, st: LowerState, e: ExprView)
    requires
        lower_spec(env, st, e) is Ok,
    ensures
        tail_calls(lower_spec(env, st, e)->Ok_0.0, true) >= source_tail_calls(e),
    decreases e, 1nat,
{
    match e {
        ExprView::Call { .. } => {
            lemma_call_ends_with_call(env, st, e);
        },
        ExprView::If { condition, then_block, else_block, .. } => {
            let (test, st1) = lower_spec(env, st, *condition)->Ok_0;
            lemma_lower_tail_calls(env, st1, *then_block);
            let (then_code, st2) = lower_spec(env, st1, *then_block)->Ok_0;
            lemma_lower_tail_calls(env, st2, *else_block);
        },
        ExprView::Block { items, .. } => {
            lemma_items_tail_calls(env, st, items);
        },
        _ => {},
    }
}

/// The function that a declaration is lowered to.
pub open spec fn lowered_function(env: LowerEnv, st: LowerState, e: ExprView) -> IrFunctionView {
    match e {
        ExprView::FunctionDeclaration { body, .. } => {
            let inner = LowerState { scopes: st.scopes.push(crate::lower::first_locals(e)), ..st };
            IrFunctionView {
                func_ref: crate::lower::declared_ref(env, e),
                args: crate::lower::first_parameters(e),
                body: lower_spec(env, inner, *body)->Ok_0.0.push(IrView::Return),
                shape: e.shape(),
            }
        },
        _ => arbitrary(),
    }
}

/// The function that a declaration is lowered to stands under the
/// declaration's name among the functions that are done.
pub proof fn lemma_lowered_function_stored(env: LowerEnv, st: LowerState, e: ExprView)
    requires
        all_end(st.functions),
        lower_function_spec(env, st, e) is Ok,
    ensures
        lower_function_spec(env, st, e)->Ok_0.1.functions.get(crate::lower::id_of(e)) == Some(
            lowered_function(env, st, e),
        ),
{
    match e {
        ExprView::FunctionDeclaration { id, body, .. } => {
            let inner = LowerState { scopes: st.scopes.push(crate::lower::first_locals(e)), ..st };
            lemma_lower_keeps_ends(env, inner, *body);
            let after = lower_spec(env, inner, *body)->Ok_0.1;
            lemma_index_of(after.functions.names, id);
            if index_of(after.functions.names, id) is None {
                crate::support::lemma_index_of_found(
                    after.functions.names.push(id),
                    id,
                    after.functions.names.len() as int,
                );
            }
        },
        _ => {},
    }
}

/// The tail-call property. Of every function, of the module or declared
/// inside another: as many call instructions of its compiled code have a
/// return instruction directly behind them as its body holds calls in tail
/// position, at the least. The optimizer lifts the one return of the lowered
/// body into the arms of the conditions in tail position, and neither the
/// other passes nor the emitter part a call from its return.
pub proof fn lemma_tail_calls_return(
    env: LowerEnv,
    st: LowerState,
    e: ExprView,
    ctx: ModuleContextView,
    package: Seq<char>,
    module: Seq<char>,
    name: Seq<char>,
)
    requires
        e is FunctionDeclaration,
        lower_function_spec(env, st, e) is Ok,
        compile_function_spec(ctx, package, module, name, lowered_function(env, st, e)) is Ok,
    ensures
        returned_calls(
            compile_function_spec(ctx, package, module, name, lowered_function(env, st, e))->Ok_0.0.body,
        ) >= source_tail_calls(*e->FunctionDeclaration_body),
{
    let body = *e->FunctionDeclaration_body;
    let inner = LowerState { scopes: st.scopes.push(crate::lower::first_locals(e)), ..st };
    let code = lower_spec(env, inner, body)->Ok_0.0;
    let f = lowered_function(env, st, e);
    lemma_lower_no_returns(env, inner, body);
    lemma_lower_tail_calls(env, inner, body);
    lemma_optimize_makes_direct(code);
    let start = EmitState { module: ctx, func: crate::compiler::FuncContextView::start(f.args) };
    lemma_emit_keeps_direct(start, optimize_spec(f.body));
}

} // verus!
