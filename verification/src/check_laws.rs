use vstd::prelude::*;
use crate::ast::{ExprView, ModuleView, ParameterView, shapes_of};
use crate::shape_laws::{declarable, known, lemma_fill_resolves, lemma_resolved_known, resolved};
use crate::shapes::{BaseShapeKind, ShapeView, base, fill_spec};
use crate::support::{lemma_index_of, Table};
use crate::typechecker::{
    ScopeView,
    bind_params_spec,
    check_args_spec,
    check_assignment_spec,
    check_binary_spec,
    check_block_spec,
    check_call_spec,
    check_each_spec,
    check_function_spec,
    check_functions_spec,
    check_if_spec,
    check_module_spec,
    check_spec,
    expected_args,
    find_in_blocks,
    find_in_functions,
    prefill_spec,
    shorter,
    verify_params_spec,
    verify_spec,
    without,
};

verus! {

/// Whether the shape of every parameter is fully filled.
pub open spec fn params_ok(params: Seq<ParameterView>) -> bool {
    forall|i: int| 0 <= i < params.len() ==> resolved((#[trigger] params[i]).shape)
}

/// Whether every shape in the expression is fully filled: that of every
/// expression in it, of every parameter and result, and of everything that a
/// function in it captured.
pub open spec fn typed(e: ExprView) -> bool
    decreases e,
{
    match e {
        ExprView::NoOp { .. } => true,
        ExprView::FunctionDeclaration { result, params, body, context, .. } => resolved(result)
            && params_ok(params) && params_ok(context.closures) && typed(*body),
        ExprView::Assignment { shape, body, .. } => resolved(shape) && typed(*body),
        ExprView::Variable { shape, .. } => resolved(shape),
        ExprView::BinaryOp { shape, left, right, .. } => resolved(shape) && typed(*left) && typed(
            *right,
        ),
        ExprView::Call { shape, func, args, .. } => resolved(shape) && typed(*func) && forall|
            i: int,
        |
            0 <= i < args.len() ==> typed(#[trigger] args[i]),
        ExprView::If { shape, condition, then_block, else_block, .. } => resolved(shape) && typed(
            *condition,
        ) && typed(*then_block) && typed(*else_block),
        ExprView::Block { shape, items, .. } => resolved(shape) && forall|i: int|
            0 <= i < items.len() ==> typed(#[trigger] items[i]),
        ExprView::StringLiteral { shape, .. } => resolved(shape),
        ExprView::NumberLiteral { shape, .. } => resolved(shape),
        ExprView::BooleanLiteral { .. } => true,
    }
}

/// Whether each of the expressions is typed.
pub open spec fn all_typed(items: Seq<ExprView>) -> bool {
    forall|i: int| 0 <= i < items.len() ==> typed(#[trigger] items[i])
}

/// Whether every shape that the expression declares can stand in a
/// declaration: each is left open as a whole, or no part of it is; and
/// nothing is left open in what a function declares that is no lambda.
pub open spec fn well_declared(e: ExprView) -> bool
    decreases e,
{
    match e {
        ExprView::FunctionDeclaration { result, params, body, context, .. } => well_declared(*body)
            && if context.is_lambda {
            declarable(result) && forall|i: int|
                0 <= i < params.len() ==> declarable((#[trigger] params[i]).shape)
        } else {
            known(result) && forall|i: int|
                0 <= i < params.len() ==> known((#[trigger] params[i]).shape)
        },
        ExprView::Assignment { shape, body, .. } => declarable(shape) && well_declared(*body),
        ExprView::BinaryOp { left, right, .. } => well_declared(*left) && well_declared(*right),
        ExprView::Call { func, args, .. } => well_declared(*func) && forall|i: int|
            0 <= i < args.len() ==> well_declared(#[trigger] args[i]),
        ExprView::If { condition, then_block, else_block, .. } => well_declared(*condition)
            && well_declared(*then_block) && well_declared(*else_block),
        ExprView::Block { items, .. } => forall|i: int|
            0 <= i < items.len() ==> well_declared(#[trigger] items[i]),
        _ => true,
    }
}

/// Whether each of the expressions is well declared.
pub open spec fn all_declared(items: Seq<ExprView>) -> bool {
    forall|i: int| 0 <= i < items.len() ==> well_declared(#[trigger] items[i])
}

/// Whether the table holds fully filled shapes only.
pub open spec fn table_ok(t: Table<ShapeView>) -> bool {
    &&& t.wf()
    &&& forall|i: int| 0 <= i < t.values.len() ==> resolved(#[trigger] t.values[i])
}

/// Whether every block's table holds fully filled shapes only.
pub open spec fn blocks_ok(blocks: Seq<Table<ShapeView>>) -> bool {
    forall|i: int| 0 <= i < blocks.len() ==> table_ok(#[trigger] blocks[i])
}

/// Whether every table in the scope holds fully filled shapes only, and so
/// does every list of what a function captured.
pub open spec fn scope_ok(s: ScopeView) -> bool {
    &&& table_ok(s.static_scope)
    &&& forall|i: int| 0 <= i < s.function_stack.len() ==> blocks_ok(#[trigger] s.function_stack[i])
    &&& forall|i: int| 0 <= i < s.closures_stack.len() ==> params_ok(#[trigger] s.closures_stack[i])
}

/// The shape of a typed expression is fully filled.
pub proof fn lemma_typed_shape(e: ExprView)
    requires
        typed(e),
    ensures
        resolved(e.shape()),
{
    match e {
        ExprView::FunctionDeclaration { result, params, .. } => {
            assert forall|i: int| 0 <= i < params.len() implies resolved(
                #[trigger] shapes_of(params)[i],
            ) by {
                assert(resolved(params[i].shape));
            }
        },
        _ => {},
    }
}

/// What a table holds under a name is one of its values.
pub proof fn lemma_table_get(t: Table<ShapeView>, id: Seq<char>)
    requires
        table_ok(t),
        t.get(id) is Some,
    ensures
        resolved(t.get(id).unwrap()),
{
    lemma_index_of(t.names, id);
}

/// A table of fully filled shapes stays one when such a shape is put in.
pub proof fn lemma_table_insert(t: Table<ShapeView>, id: Seq<char>, shape: ShapeView)
    requires
        table_ok(t),
        resolved(shape),
    ensures
        table_ok(t.insert(id, shape)),
{
    lemma_index_of(t.names, id);
}

/// What is found in blocks of fully filled shapes is fully filled.
pub proof fn lemma_find_in_blocks(blocks: Seq<Table<ShapeView>>, id: Seq<char>)
    requires
        blocks_ok(blocks),
        find_in_blocks(blocks, id) is Some,
    ensures
        resolved(find_in_blocks(blocks, id).unwrap()),
    decreases blocks.len(),
{
    if blocks.len() > 0 {
        assert(table_ok(blocks.last()));
        if blocks.last().get(id) is Some {
            lemma_table_get(blocks.last(), id);
        } else {
            assert forall|i: int| 0 <= i < blocks.drop_last().len() implies table_ok(
                #[trigger] blocks.drop_last()[i],
            ) by {
                assert(blocks.drop_last()[i] == blocks[i]);
            }
            lemma_find_in_blocks(blocks.drop_last(), id);
        }
    }
}

/// What is found in functions of fully filled shapes is fully filled.
pub proof fn lemma_find_in_functions(functions: Seq<Seq<Table<ShapeView>>>, id: Seq<char>)
    requires
        forall|i: int| 0 <= i < functions.len() ==> blocks_ok(#[trigger] functions[i]),
        find_in_functions(functions, id) is Some,
    ensures
        resolved(find_in_functions(functions, id).unwrap().1),
    decreases functions.len(),
{
    if functions.len() > 0 {
        assert(blocks_ok(functions.last()));
        if find_in_blocks(functions.last(), id) is Some {
            lemma_find_in_blocks(functions.last(), id);
        } else {
            assert forall|i: int| 0 <= i < functions.drop_last().len() implies blocks_ok(
                #[trigger] functions.drop_last()[i],
            ) by {
                assert(functions.drop_last()[i] == functions[i]);
            }
            lemma_find_in_functions(functions.drop_last(), id);
        }
    }
}

/// Declaring a fully filled shape keeps the scope in order.
pub proof fn lemma_set_scope(s: ScopeView, id: Seq<char>, shape: ShapeView)
    requires
        scope_ok(s),
        resolved(shape),
        s.set_scope(id, shape) is Ok,
    ensures
        scope_ok(s.set_scope(id, shape)->Ok_0),
{
    let blocks = s.function_stack.last();
    assert(blocks_ok(blocks));
    assert(table_ok(blocks.last()));
    lemma_table_insert(blocks.last(), id, shape);
    let new_blocks = blocks.update(blocks.len() - 1, blocks.last().insert(id, shape));
    assert forall|i: int| 0 <= i < new_blocks.len() implies table_ok(#[trigger] new_blocks[i]) by {
        if i < blocks.len() - 1 {
            assert(new_blocks[i] == blocks[i]);
        }
    }
    let after = s.set_scope(id, shape)->Ok_0;
    assert forall|i: int| 0 <= i < after.function_stack.len() implies blocks_ok(
        #[trigger] after.function_stack[i],
    ) by {
        if i < s.function_stack.len() - 1 {
            assert(after.function_stack[i] == s.function_stack[i]);
        }
    }
}

/// Looking up a variable gives a fully filled shape and keeps the scope in
/// order.
pub proof fn lemma_check_scope(s: ScopeView, id: Seq<char>)
    requires
        scope_ok(s),
        s.check_scope(id) is Some,
    ensures
        resolved(s.check_scope(id).unwrap().0),
        scope_ok(s.check_scope(id).unwrap().1),
{
    let (shape, after) = s.check_scope(id).unwrap();
    if find_in_functions(s.function_stack, id) is Some {
        lemma_find_in_functions(s.function_stack, id);
        assert forall|i: int| 0 <= i < after.closures_stack.len() implies params_ok(
            #[trigger] after.closures_stack[i],
        ) by {
            if after.closures_stack != s.closures_stack {
                if i < s.closures_stack.len() - 1 {
                    assert(after.closures_stack[i] == s.closures_stack[i]);
                } else {
                    assert(params_ok(s.closures_stack.last()));
                    let grown = after.closures_stack[i];
                    assert forall|j: int| 0 <= j < grown.len() implies resolved(
                        (#[trigger] grown[j]).shape,
                    ) by {
                        if j < s.closures_stack.last().len() {
                            assert(grown[j] == s.closures_stack.last()[j]);
                        }
                    }
                }
            }
        }
    } else {
        lemma_table_get(s.static_scope, id);
    }
}

/// Opening a block keeps the scope in order.
pub proof fn lemma_create_block(s: ScopeView)
    requires
        scope_ok(s),
    ensures
        scope_ok(s.create_block_scope()),
{
    let after = s.create_block_scope();
    if s.function_stack.len() > 0 {
        let blocks = s.function_stack.last();
        assert(blocks_ok(blocks));
        let grown = blocks.push(Table::empty());
        assert forall|i: int| 0 <= i < grown.len() implies table_ok(#[trigger] grown[i]) by {
            if i < blocks.len() {
                assert(grown[i] == blocks[i]);
            }
        }
        assert forall|i: int| 0 <= i < after.function_stack.len() implies blocks_ok(
            #[trigger] after.function_stack[i],
        ) by {
            if i < s.function_stack.len() - 1 {
                assert(after.function_stack[i] == s.function_stack[i]);
            }
        }
    }
}

/// Closing a block keeps the scope in order.
pub proof fn lemma_destroy_block(s: ScopeView)
    requires
        scope_ok(s),
    ensures
        scope_ok(s.destroy_block_scope()),
{
    let after = s.destroy_block_scope();
    if s.function_stack.len() > 0 && s.function_stack.last().len() > 0 {
        let blocks = s.function_stack.last();
        assert(blocks_ok(blocks));
        let cut = blocks.drop_last();
        assert forall|i: int| 0 <= i < cut.len() implies table_ok(#[trigger] cut[i]) by {
            assert(cut[i] == blocks[i]);
        }
        assert forall|i: int| 0 <= i < after.function_stack.len() implies blocks_ok(
            #[trigger] after.function_stack[i],
        ) by {
            if i < s.function_stack.len() - 1 {
                assert(after.function_stack[i] == s.function_stack[i]);
            }
        }
    }
}

/// Entering a function keeps the scope in order.
pub proof fn lemma_create_function(s: ScopeView)
    requires
        scope_ok(s),
    ensures
        scope_ok(s.create_function_scope()),
{
    let after = s.create_function_scope();
    let fresh = seq![Table::<ShapeView>::empty()];
    assert forall|i: int| 0 <= i < fresh.len() implies table_ok(#[trigger] fresh[i]) by {}
    assert forall|i: int| 0 <= i < after.function_stack.len() implies blocks_ok(
        #[trigger] after.function_stack[i],
    ) by {
        if i < s.function_stack.len() {
            assert(after.function_stack[i] == s.function_stack[i]);
        }
    }
    assert forall|i: int| 0 <= i < after.closures_stack.len() implies params_ok(
        #[trigger] after.closures_stack[i],
    ) by {
        if i < s.closures_stack.len() {
            assert(after.closures_stack[i] == s.closures_stack[i]);
        }
    }
}

/// Leaving a function keeps the scope in order, and what the function
/// captured has fully filled shapes.
pub proof fn lemma_destroy_function(s: ScopeView)
    requires
        scope_ok(s),
    ensures
        scope_ok(s.destroy_function_scope()),
        params_ok(s.captured()),
{
    let after = s.destroy_function_scope();
    assert forall|i: int| 0 <= i < after.function_stack.len() implies blocks_ok(
        #[trigger] after.function_stack[i],
    ) by {
        assert(after.function_stack[i] == s.function_stack[i]);
    }
    assert forall|i: int| 0 <= i < after.closures_stack.len() implies params_ok(
        #[trigger] after.closures_stack[i],
    ) by {
        assert(after.closures_stack[i] == s.closures_stack[i]);
    }
    if s.closures_stack.len() > 0 {
        assert(params_ok(s.closures_stack.last()));
    }
}

/// Where what was declared and what was found can each stand in a
/// declaration, the shape on which they agree is fully filled.
pub proof fn lemma_verify_resolves(defined: ShapeView, found: ShapeView)
    requires
        declarable(defined),
        declarable(found),
        verify_spec(defined, found) is Ok,
    ensures
        resolved(verify_spec(defined, found)->Ok_0),
{
    if defined is Unknown {
        lemma_fill_resolves(found);
    } else if found is Unknown {
        lemma_fill_resolves(defined);
    } else {
        lemma_fill_resolves(found);
    }
}

/// Parameters that are verified have fully filled shapes.
pub proof fn lemma_verify_params(params: Seq<ParameterView>, expected: Seq<ShapeView>, n: int)
    requires
        0 <= n <= params.len(),
        n <= expected.len(),
        forall|i: int| 0 <= i < params.len() ==> declarable((#[trigger] params[i]).shape),
        forall|i: int| 0 <= i < expected.len() ==> declarable(#[trigger] expected[i]),
        verify_params_spec(params, expected, n) is Ok,
    ensures
        params_ok(verify_params_spec(params, expected, n)->Ok_0),
        verify_params_spec(params, expected, n)->Ok_0.len() == n,
    decreases n,
{
    if n > 0 {
        lemma_verify_params(params, expected, n - 1);
        let done = verify_params_spec(params, expected, n - 1)->Ok_0;
        assert(declarable(params[n - 1].shape));
        lemma_verify_resolves(expected[n - 1], params[n - 1].shape);
        let all = verify_params_spec(params, expected, n)->Ok_0;
        assert forall|i: int| 0 <= i < all.len() implies resolved((#[trigger] all[i]).shape) by {
            if i < done.len() {
                assert(all[i] == done[i]);
            }
        }
    }
}

/// Declaring parameters with fully filled shapes keeps the scope in order.
pub proof fn lemma_bind_params(s: ScopeView, params: Seq<ParameterView>)
    requires
        scope_ok(s),
        params_ok(params),
        bind_params_spec(s, params) is Ok,
    ensures
        scope_ok(bind_params_spec(s, params)->Ok_0),
    decreases params.len(),
{
    if params.len() > 0 {
        assert forall|i: int| 0 <= i < params.drop_last().len() implies resolved(
            (#[trigger] params.drop_last()[i]).shape,
        ) by {
            assert(params.drop_last()[i] == params[i]);
        }
        lemma_bind_params(s, params.drop_last());
        let s1 = bind_params_spec(s, params.drop_last())->Ok_0;
        assert(resolved(params.last().shape));
        lemma_set_scope(s1, params.last().id, params.last().shape);
    }
}

/// What is left of fully filled parameters is fully filled.
pub proof fn lemma_without(closures: Seq<ParameterView>, id: Seq<char>)
    requires
        params_ok(closures),
    ensures
        params_ok(without(closures, id)),
    decreases closures.len(),
{
    if closures.len() > 0 {
        assert forall|i: int| 0 <= i < closures.drop_last().len() implies resolved(
            (#[trigger] closures.drop_last()[i]).shape,
        ) by {
            assert(closures.drop_last()[i] == closures[i]);
        }
        lemma_without(closures.drop_last(), id);
        let rest = without(closures.drop_last(), id);
        if closures.last().id != id {
            assert(resolved(closures.last().shape));
            let all = rest.push(closures.last());
            assert forall|i: int| 0 <= i < all.len() implies resolved((#[trigger] all[i]).shape) by {
                if i < rest.len() {
                    assert(all[i] == rest[i]);
                }
            }
        }
    }
}

/// What a checked expression is and leaves behind: it is typed, and the
/// scope is in order.
pub open spec fn well_checked(r: crate::typechecker::Checked) -> bool {
    match r {
        Ok((e, s)) => typed(e) && scope_ok(s),
        Err(_) => true,
    }
}

/// The same of several expressions.
pub open spec fn all_checked(r: crate::typechecker::CheckedAll) -> bool {
    match r {
        Ok((items, s)) => all_typed(items) && scope_ok(s),
        Err(_) => true,
    }
}

/// The shapes that a function's parameters are held against can each stand
/// in a declaration where the expected shape can.
pub proof fn lemma_expected_args(expected: ShapeView, count: nat)
    requires
        declarable(expected),
    ensures
        forall|i: int|
            0 <= i < expected_args(expected, count).len() ==> declarable(
                #[trigger] expected_args(expected, count)[i],
            ),
{
    let wanted = expected_args(expected, count);
    assert forall|i: int| 0 <= i < wanted.len() implies declarable(#[trigger] wanted[i]) by {
        match expected {
            ShapeView::Function { args, result } => {
                assert(known(args[i]));
            },
            _ => {},
        }
    }
}

/// After type checking every shape in an expression is fully filled; and the
/// scope holds fully filled shapes only, as it did before.
pub proof fn lemma_check_typed(s: ScopeView, e: ExprView, expected: ShapeView)
    requires
        scope_ok(s),
        well_declared(e),
        declarable(expected),
    ensures
        well_checked(check_spec(s, e, expected)),
    decreases e, 2nat,
{
    match e {
        ExprView::FunctionDeclaration { context, .. } => {
            lemma_function_typed(s, e, expected, !context.is_lambda);
        },
        ExprView::Assignment { .. } => {
            lemma_assignment_typed(s, e);
        },
        ExprView::Variable { id, .. } => {
            if s.check_scope(id) is Some {
                lemma_check_scope(s, id);
            }
        },
        ExprView::BinaryOp { .. } => {
            lemma_binary_typed(s, e);
        },
        ExprView::Call { .. } => {
            lemma_call_typed(s, e);
        },
        ExprView::If { .. } => {
            lemma_if_typed(s, e);
        },
        ExprView::Block { .. } => {
            lemma_block_typed(s, e, expected);
        },
        _ => {},
    }
}

/// Checking several expressions, each with nothing expected, gives typed
/// expressions.
pub proof fn lemma_each_typed(s: ScopeView, items: Seq<ExprView>)
    requires
        scope_ok(s),
        all_declared(items),
    ensures
        all_checked(check_each_spec(s, items)),
    decreases items, 0nat,
{
    if items.len() > 0 {
        assert forall|i: int| 0 <= i < items.drop_last().len() implies well_declared(
            #[trigger] items.drop_last()[i],
        ) by {
            assert(items.drop_last()[i] == items[i]);
        }
        lemma_each_typed(s, items.drop_last());
        match check_each_spec(s, items.drop_last()) {
            Ok((done, s1)) => {
                assert(well_declared(items.last()));
                lemma_check_typed(s1, items.last(), ShapeView::Unknown);
                match check_spec(s1, items.last(), ShapeView::Unknown) {
                    Ok((item, s2)) => {
                        let all = done.push(item);
                        assert forall|i: int| 0 <= i < all.len() implies typed(#[trigger] all[i]) by {
                            if i < done.len() {
                                assert(all[i] == done[i]);
                            }
                        }
                    },
                    Err(_) => {},
                }
            },
            Err(_) => {},
        }
    }
}

/// Checking the arguments of a call gives typed expressions.
pub proof fn lemma_args_typed(
    s: ScopeView,
    args: Seq<ExprView>,
    expected: Seq<ShapeView>,
    loc: crate::ast::LocationView,
)
    requires
        scope_ok(s),
        all_declared(args),
        forall|i: int| 0 <= i < expected.len() ==> declarable(#[trigger] expected[i]),
    ensures
        all_checked(check_args_spec(s, args, expected, loc)),
    decreases args, 0nat,
{
    if args.len() > 0 {
        assert forall|i: int| 0 <= i < args.drop_last().len() implies well_declared(
            #[trigger] args.drop_last()[i],
        ) by {
            assert(args.drop_last()[i] == args[i]);
        }
        lemma_args_typed(s, args.drop_last(), expected, loc);
        match check_args_spec(s, args.drop_last(), expected, loc) {
            Ok((done, s1)) => {
                if args.len() <= expected.len() {
                    assert(well_declared(args.last()));
                    assert(declarable(expected[args.len() - 1]));
                    lemma_check_typed(s1, args.last(), expected[args.len() - 1]);
                    match check_spec(s1, args.last(), expected[args.len() - 1]) {
                        Ok((arg, s2)) => {
                            let all = done.push(arg);
                            assert forall|i: int| 0 <= i < all.len() implies typed(
                                #[trigger] all[i],
                            ) by {
                                if i < done.len() {
                                    assert(all[i] == done[i]);
                                }
                            }
                        },
                        Err(_) => {},
                    }
                }
            },
            Err(_) => {},
        }
    }
}

/// Checking a function gives a typed function. Where its name is declared
/// around it, nothing may be left open in what it declares.
pub proof fn lemma_function_typed(s: ScopeView, e: ExprView, expected: ShapeView, bind: bool)
    requires
        scope_ok(s),
        well_declared(e),
        declarable(expected),
        bind ==> known(e.shape()),
    ensures
        well_checked(check_function_spec(s, e, expected, bind)),
    decreases e, 0nat,
{
    match e {
        ExprView::FunctionDeclaration { result, loc, id, params, body, context } => {
            let wanted = expected_args(expected, params.len());
            let count = shorter(params.len(), wanted.len());
            lemma_expected_args(expected, params.len());
            assert forall|i: int| 0 <= i < params.len() implies declarable(
                (#[trigger] params[i]).shape,
            ) by {
                if !context.is_lambda {
                    assert(known(params[i].shape));
                }
            }
            match verify_params_spec(params, wanted, count) {
                Err(_) => {},
                Ok(args) => {
                    lemma_verify_params(params, wanted, count);
                    let around = if bind {
                        match fill_spec(e.shape()) {
                            None => Err(crate::error::ErrorKind::UnresolvedNamedShape),
                            Some(shape) => s.set_scope(id, shape),
                        }
                    } else {
                        Ok(s)
                    };
                    match around {
                        Err(_) => {},
                        Ok(s0) => {
                            if bind {
                                lemma_fill_resolves(e.shape());
                                lemma_set_scope(s, id, fill_spec(e.shape()).unwrap());
                            }
                            lemma_create_function(s0);
                            match bind_params_spec(s0.create_function_scope(), args) {
                                Err(_) => {},
                                Ok(s1) => {
                                    lemma_bind_params(s0.create_function_scope(), args);
                                    lemma_check_typed(s1, *body, result);
                                    match check_spec(s1, *body, result) {
                                        Err(_) => {},
                                        Ok((checked_body, s2)) => {
                                            lemma_typed_shape(checked_body);
                                            lemma_resolved_known(checked_body.shape());
                                            match verify_spec(result, checked_body.shape()) {
                                                Err(_) => {},
                                                Ok(returned) => {
                                                    lemma_verify_resolves(
                                                        result,
                                                        checked_body.shape(),
                                                    );
                                                    lemma_destroy_function(s2);
                                                    lemma_without(s2.captured(), id);
                                                },
                                            }
                                        },
                                    }
                                },
                            }
                        },
                    }
                },
            }
        },
        _ => {},
    }
}

/// Checking a block gives a typed block.
pub proof fn lemma_block_typed(s: ScopeView, e: ExprView, expected: ShapeView)
    requires
        scope_ok(s),
        well_declared(e),
        declarable(expected),
    ensures
        well_checked(check_block_spec(s, e, expected)),
    decreases e, 1nat,
{
    match e {
        ExprView::Block { loc, items, .. } => {
            if items.len() > 0 {
                lemma_create_block(s);
                assert forall|i: int| 0 <= i < items.drop_last().len() implies well_declared(
                    #[trigger] items.drop_last()[i],
                ) by {
                    assert(items.drop_last()[i] == items[i]);
                }
                lemma_each_typed(s.create_block_scope(), items.drop_last());
                match check_each_spec(s.create_block_scope(), items.drop_last()) {
                    Err(_) => {},
                    Ok((done, s1)) => {
                        assert(well_declared(items.last()));
                        lemma_check_typed(s1, items.last(), expected);
                        match check_spec(s1, items.last(), expected) {
                            Err(_) => {},
                            Ok((last, s2)) => {
                                lemma_typed_shape(last);
                                lemma_destroy_block(s2);
                                let all = done.push(last);
                                assert forall|i: int| 0 <= i < all.len() implies typed(
                                    #[trigger] all[i],
                                ) by {
                                    if i < done.len() {
                                        assert(all[i] == done[i]);
                                    }
                                }
                            },
                        }
                    },
                }
            }
        },
        _ => {},
    }
}

/// Checking a call gives a typed call.
pub proof fn lemma_call_typed(s: ScopeView, e: ExprView)
    requires
        scope_ok(s),
        well_declared(e),
    ensures
        well_checked(check_call_spec(s, e)),
    decreases e, 1nat,
{
    match e {
        ExprView::Call { loc, func, args, .. } => {
            lemma_check_typed(s, *func, ShapeView::Unknown);
            match check_spec(s, *func, ShapeView::Unknown) {
                Err(_) => {},
                Ok((callee, s1)) => {
                    lemma_typed_shape(callee);
                    match callee.shape() {
                        ShapeView::Function { args: wanted, result } => {
                            assert forall|i: int| 0 <= i < wanted.len() implies declarable(
                                #[trigger] wanted[i],
                            ) by {
                                assert(resolved(wanted[i]));
                                lemma_resolved_known(wanted[i]);
                            }
                            lemma_args_typed(s1, args, wanted, loc);
                        },
                        _ => {},
                    }
                },
            }
        },
        _ => {},
    }
}

/// Checking a condition gives a typed condition.
pub proof fn lemma_if_typed(s: ScopeView, e: ExprView)
    requires
        scope_ok(s),
        well_declared(e),
    ensures
        well_checked(check_if_spec(s, e)),
    decreases e, 1nat,
{
    match e {
        ExprView::If { loc, condition, then_block, else_block, .. } => {
            lemma_check_typed(s, *condition, base(BaseShapeKind::Boolean));
            match check_spec(s, *condition, base(BaseShapeKind::Boolean)) {
                Err(_) => {},
                Ok((test, s1)) => {
                    lemma_check_typed(s1, *then_block, ShapeView::Unknown);
                    match check_spec(s1, *then_block, ShapeView::Unknown) {
                        Err(_) => {},
                        Ok((first, s2)) => {
                            lemma_check_typed(s2, *else_block, ShapeView::Unknown);
                            match check_spec(s2, *else_block, ShapeView::Unknown) {
                                Err(_) => {},
                                Ok((second, s3)) => {
                                    lemma_typed_shape(first);
                                    lemma_typed_shape(second);
                                    lemma_resolved_known(first.shape());
                                    lemma_resolved_known(second.shape());
                                    if verify_spec(first.shape(), second.shape()) is Ok {
                                        lemma_verify_resolves(first.shape(), second.shape());
                                    }
                                },
                            }
                        },
                    }
                },
            }
        },
        _ => {},
    }
}

/// Checking an operation on two numbers gives a typed operation.
pub proof fn lemma_binary_typed(s: ScopeView, e: ExprView)
    requires
        scope_ok(s),
        well_declared(e),
    ensures
        well_checked(check_binary_spec(s, e)),
    decreases e, 1nat,
{
    match e {
        ExprView::BinaryOp { loc, op, left, right, .. } => {
            lemma_check_typed(s, *left, base(BaseShapeKind::Float));
            match check_spec(s, *left, base(BaseShapeKind::Float)) {
                Err(_) => {},
                Ok((first, s1)) => {
                    lemma_check_typed(s1, *right, base(BaseShapeKind::Float));
                },
            }
        },
        _ => {},
    }
}

/// Checking an assignment gives a typed assignment.
pub proof fn lemma_assignment_typed(s: ScopeView, e: ExprView)
    requires
        scope_ok(s),
        well_declared(e),
    ensures
        well_checked(check_assignment_spec(s, e)),
    decreases e, 1nat,
{
    match e {
        ExprView::Assignment { shape, loc, id, body } => {
            lemma_check_typed(s, *body, shape);
            match check_spec(s, *body, shape) {
                Err(_) => {},
                Ok((checked_body, s1)) => {
                    lemma_typed_shape(checked_body);
                    lemma_resolved_known(checked_body.shape());
                    match verify_spec(shape, checked_body.shape()) {
                        Err(_) => {},
                        Ok(agreed) => {
                            lemma_verify_resolves(shape, checked_body.shape());
                            if s1.set_scope(id, agreed) is Ok {
                                lemma_set_scope(s1, id, agreed);
                            }
                        },
                    }
                },
            }
        },
        _ => {},
    }
}

/// Whether a module can be checked for fully filled shapes: every function
/// of it is well declared and leaves nothing open in what it declares
/// itself.
pub open spec fn module_declared(m: ModuleView) -> bool {
    forall|i: int|
        0 <= i < m.functions.len() ==> well_declared(#[trigger] m.functions[i]) && known(
            m.functions[i].shape(),
        )
}

/// The static scope of such a module holds fully filled shapes only.
pub proof fn lemma_prefill_ok(functions: Seq<ExprView>, n: int)
    requires
        0 <= n <= functions.len(),
        forall|i: int| 0 <= i < functions.len() ==> known((#[trigger] functions[i]).shape()),
        prefill_spec(functions, n) is Ok,
    ensures
        table_ok(prefill_spec(functions, n)->Ok_0),
    decreases n,
{
    if n > 0 {
        lemma_prefill_ok(functions, n - 1);
        let table = prefill_spec(functions, n - 1)->Ok_0;
        assert(known(functions[n - 1].shape()));
        lemma_fill_resolves(functions[n - 1].shape());
        lemma_table_insert(
            table,
            crate::lower::id_of(functions[n - 1]),
            fill_spec(functions[n - 1].shape()).unwrap(),
        );
    }
}

/// The functions of such a module are typed once they are checked.
pub proof fn lemma_functions_typed(s: ScopeView, functions: Seq<ExprView>, n: int)
    requires
        0 <= n <= functions.len(),
        scope_ok(s),
        forall|i: int| 0 <= i < functions.len() ==> well_declared(#[trigger] functions[i]),
    ensures
        all_checked(check_functions_spec(s, functions, n)),
    decreases n,
{
    if n > 0 {
        lemma_functions_typed(s, functions, n - 1);
        match check_functions_spec(s, functions, n - 1) {
            Err(_) => {},
            Ok((done, s1)) => {
                assert(well_declared(functions[n - 1]));
                lemma_function_typed(s1, functions[n - 1], ShapeView::Unknown, false);
                match check_function_spec(s1, functions[n - 1], ShapeView::Unknown, false) {
                    Err(_) => {},
                    Ok((f, s2)) => {
                        let all = done.push(f);
                        assert forall|i: int| 0 <= i < all.len() implies typed(#[trigger] all[i]) by {
                            if i < done.len() {
                                assert(all[i] == done[i]);
                            }
                        }
                    },
                }
            },
        }
    }
}

/// After type checking, the shape of every expression of the module is
/// fully filled: none is unknown, none a name. This holds of every module
/// whose declarations leave a shape open only as a whole, and leave nothing
/// open in what a function declares that is no lambda.
pub proof fn lemma_module_typed(m: ModuleView)
    requires
        module_declared(m),
        check_module_spec(m) is Ok,
    ensures
        all_typed(check_module_spec(m)->Ok_0.functions),
{
    let count = m.functions.len() as int;
    lemma_prefill_ok(m.functions, count);
    let table = prefill_spec(m.functions, count)->Ok_0;
    let s = ScopeView { static_scope: table, ..ScopeView::empty() };
    lemma_functions_typed(s, m.functions, count);
}

} // verus!
