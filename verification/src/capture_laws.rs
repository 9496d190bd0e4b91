use vstd::prelude::*;
use crate::ast::{ExprView, ParameterView};
use crate::ast::ModuleView;
use crate::shapes::{ShapeView, fill_spec};
use crate::support::{index_of, lemma_index_of, lemma_index_of_found, Table};
use crate::typechecker::{
    Checked,
    CheckedAll,
    ScopeView,
    bind_params_spec,
    check_args_spec,
    check_assignment_spec,
    check_binary_spec,
    check_block_spec,
    check_call_spec,
    check_each_spec,
    check_function_spec,
    check_functions_spec,
    check_if_spec,
    check_module_spec,
    check_spec,
    expected_args,
    prefill_spec,
    shorter,
    verify_params_spec,
    verify_spec,
    find_in_blocks,
    find_in_functions,
    mentions,
    without,
};

verus! {

/// The names that a table declares.
pub open spec fn names_set(t: Table<ShapeView>) -> Set<Seq<char>> {
    Set::new(|id: Seq<char>| t.has(id))
}

/// The names that each of the blocks declares.
pub open spec fn own_of_blocks(blocks: Seq<Table<ShapeView>>) -> Seq<Set<Seq<char>>> {
    Seq::new(blocks.len(), |i: int| names_set(blocks[i]))
}

/// The names that the innermost function declares, block by block.
pub open spec fn own_of(s: ScopeView) -> Seq<Set<Seq<char>>> {
    if s.function_stack.len() == 0 {
        Seq::empty()
    } else {
        own_of_blocks(s.function_stack.last())
    }
}

/// Whether one of the functions declares `id`.
pub open spec fn declared_in(functions: Seq<Seq<Table<ShapeView>>>, id: Seq<char>) -> bool {
    exists|f: int| 0 <= f < functions.len() && find_in_blocks(#[trigger] functions[f], id) is Some
}

/// The names that the functions declare.
pub open spec fn outer_names(functions: Seq<Seq<Table<ShapeView>>>) -> Set<Seq<char>> {
    Set::new(|id: Seq<char>| declared_in(functions, id))
}

/// The names that the functions around the innermost one declare: the locals
/// of its enclosing functions.
pub open spec fn outer_of(s: ScopeView) -> Set<Seq<char>> {
    outer_names(s.function_stack.drop_last())
}

/// Whether one of the blocks declares `id`.
pub open spec fn in_blocks(own: Seq<Set<Seq<char>>>, id: Seq<char>) -> bool {
    exists|i: int| 0 <= i < own.len() && (#[trigger] own[i]).contains(id)
}

/// All names that the blocks declare.
pub open spec fn flatten(own: Seq<Set<Seq<char>>>) -> Set<Seq<char>> {
    Set::new(|id: Seq<char>| in_blocks(own, id))
}

/// The blocks with `id` declared in the innermost.
pub open spec fn declare(own: Seq<Set<Seq<char>>>, id: Seq<char>) -> Seq<Set<Seq<char>>> {
    if own.len() == 0 {
        own
    } else {
        own.update(own.len() - 1, own.last().insert(id))
    }
}

/// The names of the parameters, as a set.
pub open spec fn ids_set(params: Seq<ParameterView>) -> Set<Seq<char>> {
    Set::new(|id: Seq<char>| mentions(params, id))
}

/// What a walk through an expression finds: the variables that the function
/// it belongs to takes from the functions around it, the names that the
/// function declares after it, and whether every function declared in the
/// expression has noted exactly what it takes itself.
pub struct Scan {
    pub caps: Set<Seq<char>>,
    pub own: Seq<Set<Seq<char>>>,
    pub exact: bool,
}

/// Two walks one after the other.
pub open spec fn then(first: Scan, second: Scan) -> Scan {
    Scan { caps: first.caps.union(second.caps), own: second.own, exact: first.exact && second.exact }
}

/// The walk through nothing.
pub open spec fn nothing(own: Seq<Set<Seq<char>>>) -> Scan {
    Scan { caps: Set::empty(), own, exact: true }
}

/// Whether no function in the expression is marked recursive, as in what a
/// parser hands over.
pub open spec fn fresh(e: ExprView) -> bool
    decreases e,
{
    match e {
        ExprView::FunctionDeclaration { body, context, .. } => !context.is_recursive && fresh(*body),
        ExprView::Assignment { body, .. } => fresh(*body),
        ExprView::BinaryOp { left, right, .. } => fresh(*left) && fresh(*right),
        ExprView::Call { func, args, .. } => fresh(*func) && forall|i: int|
            0 <= i < args.len() ==> fresh(#[trigger] args[i]),
        ExprView::If { condition, then_block, else_block, .. } => fresh(*condition) && fresh(
            *then_block,
        ) && fresh(*else_block),
        ExprView::Block { items, .. } => forall|i: int|
            0 <= i < items.len() ==> fresh(#[trigger] items[i]),
        _ => true,
    }
}

/// Whether each of the expressions is fresh.
pub open spec fn all_fresh(items: Seq<ExprView>) -> bool {
    forall|i: int| 0 <= i < items.len() ==> fresh(#[trigger] items[i])
}

/// Whether a function has noted exactly what it takes from the functions
/// around it, whose locals are `outer`: its closures are the variables that
/// its body uses, outside the functions declared in it, and that none of its
/// own blocks but one of the functions around it declares; but for its own
/// name, which makes it recursive instead, and nothing else does. The same
/// must hold of every function declared in it.
pub open spec fn function_exact(e: ExprView, outer: Set<Seq<char>>) -> bool
    decreases e, 0nat,
{
    match e {
        ExprView::FunctionDeclaration { id, params, body, context, .. } => {
            let inner = scan(*body, seq![ids_set(params)], outer);
            &&& inner.exact
            &&& ids_set(context.closures) == inner.caps.remove(id)
            &&& context.is_recursive <==> inner.caps.contains(id)
        },
        _ => true,
    }
}

/// The walk through several expressions, one after the other.
pub open spec fn scan_items(items: Seq<ExprView>, own: Seq<Set<Seq<char>>>, outer: Set<Seq<char>>) -> Scan
    decreases items, 0nat,
{
    if items.len() == 0 {
        nothing(own)
    } else {
        let first = scan_items(items.drop_last(), own, outer);
        then(first, scan(items.last(), first.own, outer))
    }
}

/// The walk through an expression of a function that has declared `own`, in
/// functions that have declared `outer`.
pub open spec fn scan(e: ExprView, own: Seq<Set<Seq<char>>>, outer: Set<Seq<char>>) -> Scan
    decreases e, 1nat,
{
    match e {
        ExprView::Variable { id, .. } => Scan {
            caps: if !in_blocks(own, id) && outer.contains(id) {
                Set::empty().insert(id)
            } else {
                Set::empty()
            },
            own,
            exact: true,
        },
        ExprView::Assignment { id, body, .. } => {
            let inner = scan(*body, own, outer);
            Scan { own: declare(inner.own, id), ..inner }
        },
        ExprView::BinaryOp { left, right, .. } => {
            let first = scan(*left, own, outer);
            then(first, scan(*right, first.own, outer))
        },
        ExprView::Call { func, args, .. } => {
            let first = scan(*func, own, outer);
            then(first, scan_items(args, first.own, outer))
        },
        ExprView::If { condition, then_block, else_block, .. } => {
            let first = scan(*condition, own, outer);
            let second = then(first, scan(*then_block, first.own, outer));
            then(second, scan(*else_block, second.own, outer))
        },
        ExprView::Block { items, .. } => if items.len() == 0 {
            nothing(own)
        } else {
            let inner = scan_items(items, own.push(Set::empty()), outer);
            Scan { own: inner.own.drop_last(), ..inner }
        },
        ExprView::FunctionDeclaration { id, context, .. } => {
            let around = if context.is_lambda {
                own
            } else {
                declare(own, id)
            };
            Scan {
                caps: Set::empty(),
                own: around,
                exact: function_exact(e, outer.union(flatten(around))),
            }
        },
        _ => nothing(own),
    }
}

/// Whether the type checker stands inside a function: a function is in progress
/// with a block open, and every function in progress has its list of what it
/// took.
pub open spec fn inside(s: ScopeView) -> bool {
    &&& aligned(s)
    &&& s.function_stack.len() >= 1
    &&& s.function_stack.last().len() >= 1
}

/// Whether every function in progress has its list of what it took, and
/// every table is well formed.
pub open spec fn aligned(s: ScopeView) -> bool {
    &&& s.closures_stack.len() == s.function_stack.len()
    &&& forall|f: int, b: int|
        0 <= f < s.function_stack.len() && 0 <= b < s.function_stack[f].len() ==> (
        #[trigger] s.function_stack[f][b]).wf()
}

/// Whether the scope `after` is what the walk `r` makes of the scope `s`:
/// the functions around are as they were, the innermost function declares
/// what the walk says, and has taken in addition what the walk says.
pub open spec fn follows(s: ScopeView, after: ScopeView, r: Scan) -> bool {
    &&& inside(after)
    &&& after.static_scope == s.static_scope
    &&& after.function_stack.len() == s.function_stack.len()
    &&& after.function_stack.drop_last() == s.function_stack.drop_last()
    &&& after.closures_stack.drop_last() == s.closures_stack.drop_last()
    &&& own_of(after) == r.own
    &&& ids_set(after.closures_stack.last()) == ids_set(s.closures_stack.last()).union(r.caps)
    &&& r.exact
}

/// A name is found in blocks exactly where one of them declares it.
pub proof fn lemma_find_in_blocks_own(blocks: Seq<Table<ShapeView>>, id: Seq<char>)
    ensures
        find_in_blocks(blocks, id) is Some <==> in_blocks(own_of_blocks(blocks), id),
    decreases blocks.len(),
{
    let own = own_of_blocks(blocks);
    if blocks.len() > 0 {
        let rest = blocks.drop_last();
        lemma_find_in_blocks_own(rest, id);
        let rest_own = own_of_blocks(rest);
        if blocks.last().get(id) is Some {
            assert(own[blocks.len() - 1].contains(id));
        } else {
            if in_blocks(rest_own, id) {
                let i = choose|i: int| 0 <= i < rest_own.len() && (#[trigger] rest_own[i]).contains(id);
                assert(own[i].contains(id));
            }
            if in_blocks(own, id) {
                let i = choose|i: int| 0 <= i < own.len() && (#[trigger] own[i]).contains(id);
                assert(i < blocks.len() - 1);
                assert(rest_own[i].contains(id));
            }
        }
    }
}

/// A name is found in functions exactly where one of them declares it, and
/// in the innermost exactly where that one declares it.
pub proof fn lemma_find_in_functions(functions: Seq<Seq<Table<ShapeView>>>, id: Seq<char>)
    ensures
        find_in_functions(functions, id) is Some <==> declared_in(functions, id),
        match find_in_functions(functions, id) {
            Some((place, _)) => 0 <= place < functions.len() && (place == functions.len() - 1
                <==> find_in_blocks(functions.last(), id) is Some),
            None => true,
        },
    decreases functions.len(),
{
    if functions.len() > 0 {
        let rest = functions.drop_last();
        lemma_find_in_functions(rest, id);
        if find_in_blocks(functions.last(), id) is Some {
            assert(find_in_blocks(functions[functions.len() - 1], id) is Some);
        } else {
            if declared_in(rest, id) {
                let f = choose|f: int|
                    0 <= f < rest.len() && find_in_blocks(#[trigger] rest[f], id) is Some;
                assert(find_in_blocks(functions[f], id) is Some);
            }
            if declared_in(functions, id) {
                let f = choose|f: int|
                    0 <= f < functions.len() && find_in_blocks(#[trigger] functions[f], id) is Some;
                assert(f < functions.len() - 1);
                assert(find_in_blocks(rest[f], id) is Some);
            }
        }
    }
}

/// The names of a table after one more was put in.
pub proof fn lemma_names_insert(t: Table<ShapeView>, id: Seq<char>, shape: ShapeView)
    requires
        t.wf(),
    ensures
        names_set(t.insert(id, shape)) =~= names_set(t).insert(id),
        t.insert(id, shape).wf(),
{
    lemma_index_of(t.names, id);
    let after = t.insert(id, shape);
    assert forall|x: Seq<char>| names_set(after).contains(x) <==> names_set(t).insert(id).contains(
        x,
    ) by {
        lemma_index_of(t.names, x);
        lemma_index_of(after.names, x);
        if index_of(t.names, id) is None {
            if x == id {
                lemma_index_of_found(after.names, id, t.names.len() as int);
            } else if index_of(t.names, x) is Some {
                let i = index_of(t.names, x).unwrap();
                assert(after.names[i] == x);
            } else if index_of(after.names, x) is Some {
                let i = index_of(after.names, x).unwrap();
                assert(t.names[i] == x);
            }
        }
    }
}

/// The names of what is left of the parameters.
pub proof fn lemma_ids_without(closures: Seq<ParameterView>, id: Seq<char>)
    ensures
        ids_set(without(closures, id)) =~= ids_set(closures).remove(id),
    decreases closures.len(),
{
    if closures.len() == 0 {
    } else {
        let rest = closures.drop_last();
        lemma_ids_without(rest, id);
        let kept = without(closures, id);
        let kept_rest = without(rest, id);
        assert forall|x: Seq<char>| ids_set(kept).contains(x) <==> ids_set(closures).remove(
            id,
        ).contains(x) by {
            if mentions(kept, x) {
                let i = choose|i: int| 0 <= i < kept.len() && (#[trigger] kept[i]).id == x;
                if closures.last().id != id && i == kept.len() - 1 {
                    assert(closures[closures.len() - 1].id == x);
                } else {
                    assert(kept_rest[i].id == x);
                    assert(ids_set(kept_rest).contains(x));
                    assert(mentions(rest, x));
                    let j = choose|j: int| 0 <= j < rest.len() && (#[trigger] rest[j]).id == x;
                    assert(closures[j].id == x);
                }
            }
            if mentions(closures, x) && x != id {
                let j = choose|j: int| 0 <= j < closures.len() && (#[trigger] closures[j]).id == x;
                if j == closures.len() - 1 {
                    assert(kept[kept.len() - 1].id == x);
                } else {
                    assert(rest[j].id == x);
                    assert(ids_set(rest).remove(id).contains(x));
                    assert(mentions(kept_rest, x));
                    let i = choose|i: int| 0 <= i < kept_rest.len() && (#[trigger] kept_rest[i]).id == x;
                    assert(kept[i].id == x);
                }
            }
        }
    }
}

/// The names of parameters with one more behind them.
pub proof fn lemma_ids_push(params: Seq<ParameterView>, p: ParameterView)
    ensures
        ids_set(params.push(p)) =~= ids_set(params).insert(p.id),
{
    let all = params.push(p);
    assert forall|x: Seq<char>| ids_set(all).contains(x) <==> ids_set(params).insert(p.id).contains(
        x,
    ) by {
        if mentions(all, x) {
            let i = choose|i: int| 0 <= i < all.len() && (#[trigger] all[i]).id == x;
            if i < params.len() {
                assert(params[i].id == x);
            }
        }
        if mentions(params, x) {
            let i = choose|i: int| 0 <= i < params.len() && (#[trigger] params[i]).id == x;
            assert(all[i].id == x);
        }
        if x == p.id {
            assert(all[params.len() as int].id == x);
        }
    }
}

/// A walk that finds nothing leaves the scope as it is.
pub proof fn lemma_follows_nothing(s: ScopeView)
    requires
        inside(s),
    ensures
        follows(s, s, nothing(own_of(s))),
{
    assert(ids_set(s.closures_stack.last()).union(Set::empty()) =~= ids_set(s.closures_stack.last()));
}

/// One walk after the other.
pub proof fn lemma_follows_then(s: ScopeView, s1: ScopeView, s2: ScopeView, first: Scan, second: Scan)
    requires
        follows(s, s1, first),
        follows(s1, s2, second),
    ensures
        follows(s, s2, then(first, second)),
        outer_of(s1) == outer_of(s),
{
    assert(ids_set(s.closures_stack.last()).union(first.caps).union(second.caps) =~= ids_set(
        s.closures_stack.last(),
    ).union(first.caps.union(second.caps)));
}

/// Looking up a variable: the innermost function takes it where none of its
/// blocks but one of the functions around it declares it.
pub proof fn lemma_check_scope_follows(s: ScopeView, id: Seq<char>)
    requires
        inside(s),
        s.check_scope(id) is Some,
    ensures
        follows(
            s,
            s.check_scope(id).unwrap().1,
            Scan {
                caps: if !in_blocks(own_of(s), id) && outer_of(s).contains(id) {
                    Set::empty().insert(id)
                } else {
                    Set::empty()
                },
                own: own_of(s),
                exact: true,
            },
        ),
{
    let functions = s.function_stack;
    let after = s.check_scope(id).unwrap().1;
    let taken = ids_set(s.closures_stack.last());
    lemma_find_in_functions(functions, id);
    lemma_find_in_blocks_own(functions.last(), id);
    match find_in_functions(functions, id) {
        Some((place, shape)) => {
            if place == functions.len() - 1 {
                assert(taken.union(Set::empty()) =~= taken);
            } else {
                let f = choose|f: int|
                    0 <= f < functions.len() && find_in_blocks(#[trigger] functions[f], id) is Some;
                assert(f < functions.len() - 1);
                assert(find_in_blocks(functions.drop_last()[f], id) is Some);
                assert(outer_of(s).contains(id));
                lemma_ids_push(s.closures_stack.last(), ParameterView { id, shape });
                assert(taken.insert(id) =~= taken.union(Set::empty().insert(id)));
                assert(after.closures_stack.drop_last() =~= s.closures_stack.drop_last());
            }
        },
        None => {
            if outer_of(s).contains(id) {
                let f = choose|f: int|
                    0 <= f < functions.drop_last().len() && find_in_blocks(
                        #[trigger] functions.drop_last()[f],
                        id,
                    ) is Some;
                assert(find_in_blocks(functions[f], id) is Some);
            }
            assert(taken.union(Set::empty()) =~= taken);
        },
    }
}

/// Declaring a name changes nothing but the innermost block of the
/// innermost function.
pub proof fn lemma_set_scope_own(s: ScopeView, id: Seq<char>, shape: ShapeView)
    requires
        inside(s),
        s.set_scope(id, shape) is Ok,
    ensures
        ({
            let after = s.set_scope(id, shape)->Ok_0;
            &&& inside(after)
            &&& after.static_scope == s.static_scope
            &&& after.closures_stack == s.closures_stack
            &&& after.function_stack.len() == s.function_stack.len()
            &&& after.function_stack.drop_last() == s.function_stack.drop_last()
            &&& own_of(after) == declare(own_of(s), id)
        }),
{
    let after = s.set_scope(id, shape)->Ok_0;
    let blocks = s.function_stack.last();
    let depth = s.function_stack.len() - 1;
    assert(s.function_stack[depth][blocks.len() - 1].wf());
    lemma_names_insert(blocks.last(), id, shape);
    assert(after.function_stack.drop_last() =~= s.function_stack.drop_last());
    assert(own_of(after) =~~= declare(own_of(s), id));
    assert forall|f: int, b: int|
        0 <= f < after.function_stack.len() && 0 <= b < after.function_stack[f].len() implies (
    #[trigger] after.function_stack[f][b]).wf() by {
        if f < depth {
            assert(after.function_stack[f][b] == s.function_stack[f][b]);
        } else if b < blocks.len() - 1 {
            assert(after.function_stack[f][b] == s.function_stack[f][b]);
        }
    }
}

/// Opening a block.
pub proof fn lemma_create_block_own(s: ScopeView)
    requires
        inside(s),
    ensures
        ({
            let after = s.create_block_scope();
            &&& inside(after)
            &&& after.static_scope == s.static_scope
            &&& after.closures_stack == s.closures_stack
            &&& after.function_stack.len() == s.function_stack.len()
            &&& after.function_stack.drop_last() == s.function_stack.drop_last()
            &&& own_of(after) == own_of(s).push(Set::empty())
        }),
{
    let after = s.create_block_scope();
    let blocks = s.function_stack.last();
    let depth = s.function_stack.len() - 1;
    assert(after.function_stack.drop_last() =~= s.function_stack.drop_last());
    assert(names_set(Table::<ShapeView>::empty()) =~= Set::<Seq<char>>::empty());
    assert(own_of(after) =~~= own_of(s).push(Set::empty()));
    assert forall|f: int, b: int|
        0 <= f < after.function_stack.len() && 0 <= b < after.function_stack[f].len() implies (
    #[trigger] after.function_stack[f][b]).wf() by {
        if f < depth {
            assert(after.function_stack[f][b] == s.function_stack[f][b]);
        } else if b < blocks.len() {
            assert(after.function_stack[f][b] == s.function_stack[f][b]);
        }
    }
}

/// Closing a block.
pub proof fn lemma_destroy_block_own(s: ScopeView)
    requires
        inside(s),
        s.function_stack.last().len() >= 2,
    ensures
        ({
            let after = s.destroy_block_scope();
            &&& inside(after)
            &&& after.static_scope == s.static_scope
            &&& after.closures_stack == s.closures_stack
            &&& after.function_stack.len() == s.function_stack.len()
            &&& after.function_stack.drop_last() == s.function_stack.drop_last()
            &&& own_of(after) == own_of(s).drop_last()
        }),
{
    let after = s.destroy_block_scope();
    assert(after.function_stack.drop_last() =~= s.function_stack.drop_last());
    assert(own_of(after) =~~= own_of(s).drop_last());
    assert forall|f: int, b: int|
        0 <= f < after.function_stack.len() && 0 <= b < after.function_stack[f].len() implies (
    #[trigger] after.function_stack[f][b]).wf() by {
        assert(after.function_stack[f][b] == s.function_stack[f][b]);
    }
}

/// The blocks with all of `ids` declared in the innermost.
pub open spec fn declare_all(own: Seq<Set<Seq<char>>>, ids: Set<Seq<char>>) -> Seq<Set<Seq<char>>> {
    if own.len() == 0 {
        own
    } else {
        own.update(own.len() - 1, own.last().union(ids))
    }
}

/// Declaring parameters changes nothing but the innermost block of the
/// innermost function, which declares their names in addition.
pub proof fn lemma_bind_params_own(s: ScopeView, params: Seq<ParameterView>)
    requires
        inside(s),
        bind_params_spec(s, params) is Ok,
    ensures
        ({
            let after = bind_params_spec(s, params)->Ok_0;
            &&& inside(after)
            &&& after.static_scope == s.static_scope
            &&& after.closures_stack == s.closures_stack
            &&& after.function_stack.len() == s.function_stack.len()
            &&& after.function_stack.drop_last() == s.function_stack.drop_last()
            &&& own_of(after) == declare_all(own_of(s), ids_set(params))
        }),
    decreases params.len(),
{
    let own = own_of(s);
    if params.len() == 0 {
        assert(ids_set(params) =~= Set::<Seq<char>>::empty());
        assert(own.last().union(Set::empty()) =~= own.last());
        assert(declare_all(own, ids_set(params)) =~~= own);
    } else {
        let rest = params.drop_last();
        lemma_bind_params_own(s, rest);
        let mid = bind_params_spec(s, rest)->Ok_0;
        lemma_set_scope_own(mid, params.last().id, params.last().shape);
        assert(rest.push(params.last()) =~= params);
        lemma_ids_push(rest, params.last());
        assert(own.last().union(ids_set(rest)).insert(params.last().id) =~= own.last().union(
            ids_set(params),
        ));
        assert(declare(declare_all(own, ids_set(rest)), params.last().id) =~~= declare_all(
            own,
            ids_set(params),
        ));
    }
}

/// Entering a function: its one block declares nothing, it has taken
/// nothing, and the functions around it are those that were in progress.
pub proof fn lemma_create_function_own(s: ScopeView)
    requires
        aligned(s),
    ensures
        ({
            let after = s.create_function_scope();
            &&& inside(after)
            &&& after.static_scope == s.static_scope
            &&& after.function_stack.drop_last() == s.function_stack
            &&& after.closures_stack.drop_last() == s.closures_stack
            &&& after.closures_stack.last() == Seq::<ParameterView>::empty()
            &&& own_of(after) == seq![Set::<Seq<char>>::empty()]
        }),
{
    let after = s.create_function_scope();
    assert(after.function_stack.drop_last() =~= s.function_stack);
    assert(after.closures_stack.drop_last() =~= s.closures_stack);
    assert(names_set(Table::<ShapeView>::empty()) =~= Set::<Seq<char>>::empty());
    assert(own_of(after) =~~= seq![Set::<Seq<char>>::empty()]);
    assert forall|f: int, b: int|
        0 <= f < after.function_stack.len() && 0 <= b < after.function_stack[f].len() implies (
    #[trigger] after.function_stack[f][b]).wf() by {
        if f < s.function_stack.len() {
            assert(after.function_stack[f][b] == s.function_stack[f][b]);
        }
    }
}

/// The names that functions declare are those that the functions around the
/// innermost declare, and those that the innermost declares.
pub proof fn lemma_outer_split(functions: Seq<Seq<Table<ShapeView>>>)
    requires
        functions.len() >= 1,
    ensures
        outer_names(functions) == outer_names(functions.drop_last()).union(
            flatten(own_of_blocks(functions.last())),
        ),
{
    let rest = functions.drop_last();
    let own = own_of_blocks(functions.last());
    assert forall|id: Seq<char>| outer_names(functions).contains(id) <==> outer_names(rest).union(
        flatten(own),
    ).contains(id) by {
        lemma_find_in_blocks_own(functions.last(), id);
        if declared_in(functions, id) {
            let f = choose|f: int|
                0 <= f < functions.len() && find_in_blocks(#[trigger] functions[f], id) is Some;
            if f < functions.len() - 1 {
                assert(find_in_blocks(rest[f], id) is Some);
            }
        }
        if declared_in(rest, id) {
            let f = choose|f: int| 0 <= f < rest.len() && find_in_blocks(#[trigger] rest[f], id) is Some;
            assert(find_in_blocks(functions[f], id) is Some);
        }
        if in_blocks(own, id) {
            assert(find_in_blocks(functions[functions.len() - 1], id) is Some);
        }
    }
    assert(outer_names(functions) =~= outer_names(rest).union(flatten(own)));
}

/// The walk through expressions with one more behind them.
pub proof fn lemma_scan_items_push(
    items: Seq<ExprView>,
    last: ExprView,
    own: Seq<Set<Seq<char>>>,
    outer: Set<Seq<char>>,
)
    ensures
        scan_items(items.push(last), own, outer) == then(
            scan_items(items, own, outer),
            scan(last, scan_items(items, own, outer).own, outer),
        ),
{
    assert(items.push(last).drop_last() =~= items);
}

/// A walk keeps the number of open blocks.
pub proof fn lemma_scan_depth(e: ExprView, own: Seq<Set<Seq<char>>>, outer: Set<Seq<char>>)
    ensures
        scan(e, own, outer).own.len() == own.len(),
    decreases e, 1nat,
{
    match e {
        ExprView::Assignment { body, .. } => {
            lemma_scan_depth(*body, own, outer);
        },
        ExprView::BinaryOp { left, right, .. } => {
            lemma_scan_depth(*left, own, outer);
            lemma_scan_depth(*right, scan(*left, own, outer).own, outer);
        },
        ExprView::Call { func, args, .. } => {
            lemma_scan_depth(*func, own, outer);
            lemma_scan_items_depth(args, scan(*func, own, outer).own, outer);
        },
        ExprView::If { condition, then_block, else_block, .. } => {
            lemma_scan_depth(*condition, own, outer);
            let first = scan(*condition, own, outer);
            lemma_scan_depth(*then_block, first.own, outer);
            let second = then(first, scan(*then_block, first.own, outer));
            lemma_scan_depth(*else_block, second.own, outer);
        },
        ExprView::Block { items, .. } => {
            if items.len() > 0 {
                lemma_scan_items_depth(items, own.push(Set::empty()), outer);
            }
        },
        _ => {},
    }
}

/// A walk through several expressions keeps the number of open blocks.
pub proof fn lemma_scan_items_depth(
    items: Seq<ExprView>,
    own: Seq<Set<Seq<char>>>,
    outer: Set<Seq<char>>,
)
    ensures
        scan_items(items, own, outer).own.len() == own.len(),
    decreases items, 0nat,
{
    if items.len() > 0 {
        lemma_scan_items_depth(items.drop_last(), own, outer);
        lemma_scan_depth(items.last(), scan_items(items.drop_last(), own, outer).own, outer);
    }
}

/// What the type checker makes of the scope is what the walk through the checked
/// expression says.
pub open spec fn walked(s: ScopeView, r: Checked) -> bool {
    match r {
        Ok((e, after)) => follows(s, after, scan(e, own_of(s), outer_of(s))),
        Err(_) => true,
    }
}

/// The same of several expressions.
pub open spec fn walked_all(s: ScopeView, r: CheckedAll) -> bool {
    match r {
        Ok((items, after)) => follows(s, after, scan_items(items, own_of(s), outer_of(s))),
        Err(_) => true,
    }
}

/// Checking an expression inside a function: the function takes from the
/// functions around it exactly what the walk through the checked expression
/// finds, and every function declared in the expression has noted exactly
/// what it takes itself.
pub proof fn lemma_check_follows(s: ScopeView, e: ExprView, expected: ShapeView)
    requires
        fresh(e),
        inside(s),
    ensures
        walked(s, check_spec(s, e, expected)),
    decreases e, 2nat,
{
    match e {
        ExprView::FunctionDeclaration { context, .. } => {
            lemma_function_follows(s, e, expected);
        },
        ExprView::Assignment { .. } => {
            lemma_assignment_follows(s, e);
        },
        ExprView::Variable { id, .. } => {
            if s.check_scope(id) is Some {
                lemma_check_scope_follows(s, id);
            }
        },
        ExprView::BinaryOp { .. } => {
            lemma_binary_follows(s, e);
        },
        ExprView::Call { .. } => {
            lemma_call_follows(s, e);
        },
        ExprView::If { .. } => {
            lemma_if_follows(s, e);
        },
        ExprView::Block { .. } => {
            lemma_block_follows(s, e, expected);
        },
        _ => {
            lemma_follows_nothing(s);
        },
    }
}

/// Checking several expressions, each with nothing expected.
pub proof fn lemma_each_follows(s: ScopeView, items: Seq<ExprView>)
    requires
        all_fresh(items),
        inside(s),
    ensures
        walked_all(s, check_each_spec(s, items)),
    decreases items, 0nat,
{
    if items.len() == 0 {
        lemma_follows_nothing(s);
    } else {
        assert forall|i: int| 0 <= i < items.drop_last().len() implies fresh(
            #[trigger] items.drop_last()[i],
        ) by {
            assert(items.drop_last()[i] == items[i]);
        }
        assert(fresh(items.last()));
        lemma_each_follows(s, items.drop_last());
        match check_each_spec(s, items.drop_last()) {
            Ok((done, s1)) => {
                lemma_check_follows(s1, items.last(), ShapeView::Unknown);
                match check_spec(s1, items.last(), ShapeView::Unknown) {
                    Ok((item, s2)) => {
                        let first = scan_items(done, own_of(s), outer_of(s));
                        let second = scan(item, own_of(s1), outer_of(s1));
                        lemma_follows_then(s, s1, s2, first, second);
                        lemma_scan_items_push(done, item, own_of(s), outer_of(s));
                    },
                    Err(_) => {},
                }
            },
            Err(_) => {},
        }
    }
}

/// Checking the arguments of a call.
pub proof fn lemma_args_follows(
    s: ScopeView,
    args: Seq<ExprView>,
    expected: Seq<ShapeView>,
    loc: crate::ast::LocationView,
)
    requires
        all_fresh(args),
        inside(s),
    ensures
        walked_all(s, check_args_spec(s, args, expected, loc)),
    decreases args, 0nat,
{
    if args.len() == 0 {
        lemma_follows_nothing(s);
    } else {
        assert forall|i: int| 0 <= i < args.drop_last().len() implies fresh(
            #[trigger] args.drop_last()[i],
        ) by {
            assert(args.drop_last()[i] == args[i]);
        }
        assert(fresh(args.last()));
        lemma_args_follows(s, args.drop_last(), expected, loc);
        match check_args_spec(s, args.drop_last(), expected, loc) {
            Ok((done, s1)) => {
                if args.len() <= expected.len() {
                    lemma_check_follows(s1, args.last(), expected[args.len() - 1]);
                    match check_spec(s1, args.last(), expected[args.len() - 1]) {
                        Ok((arg, s2)) => {
                            let first = scan_items(done, own_of(s), outer_of(s));
                            let second = scan(arg, own_of(s1), outer_of(s1));
                            lemma_follows_then(s, s1, s2, first, second);
                            lemma_scan_items_push(done, arg, own_of(s), outer_of(s));
                        },
                        Err(_) => {},
                    }
                }
            },
            Err(_) => {},
        }
    }
}

/// Checking a function whose name is not declared around it: it notes
/// exactly what it takes from the functions in progress, and leaves the
/// scope as it was.
pub proof fn lemma_function_exact(s: ScopeView, e: ExprView, expected: ShapeView)
    requires
        aligned(s),
        fresh(e),
    ensures
        match check_function_spec(s, e, expected, false) {
            Ok((f, after)) => after == s && function_exact(f, outer_names(s.function_stack))
                && f is FunctionDeclaration && f->FunctionDeclaration_id == e->FunctionDeclaration_id
                && f->FunctionDeclaration_context.is_lambda == e->FunctionDeclaration_context.is_lambda,
            Err(_) => true,
        },
    decreases e, 0nat,
{
    match e {
        ExprView::FunctionDeclaration { result, loc, id, params, body, context } => {
            let wanted = expected_args(expected, params.len());
            match verify_params_spec(params, wanted, shorter(params.len(), wanted.len())) {
                Err(_) => {},
                Ok(args) => {
                    let entered = s.create_function_scope();
                    lemma_create_function_own(s);
                    match bind_params_spec(entered, args) {
                        Err(_) => {},
                        Ok(s1) => {
                            lemma_bind_params_own(entered, args);
                            assert(Set::<Seq<char>>::empty().union(ids_set(args)) =~= ids_set(args));
                            assert(own_of(s1) =~~= seq![ids_set(args)]);
                            lemma_check_follows(s1, *body, result);
                            match check_spec(s1, *body, result) {
                                Err(_) => {},
                                Ok((checked_body, s2)) => {
                                    match verify_spec(result, checked_body.shape()) {
                                        Err(_) => {},
                                        Ok(returned) => {
                                            let inner = scan(
                                                checked_body,
                                                seq![ids_set(args)],
                                                outer_names(s.function_stack),
                                            );
                                            let taken = s2.captured();
                                            assert(taken == s2.closures_stack.last());
                                            assert(ids_set(Seq::<ParameterView>::empty())
                                                =~= Set::<Seq<char>>::empty());
                                            assert(Set::<Seq<char>>::empty().union(inner.caps)
                                                =~= inner.caps);
                                            assert(ids_set(taken) == inner.caps);
                                            lemma_ids_without(taken, id);
                                            let after = s2.destroy_function_scope();
                                            assert(after.function_stack == s.function_stack);
                                            assert(after.closures_stack == s.closures_stack);
                                        },
                                    }
                                },
                            }
                        },
                    }
                },
            }
        },
        _ => {},
    }
}

/// A function whose name is declared around it is checked as one whose name
/// is not, in the scope that declares the name.
pub proof fn lemma_function_bound(s: ScopeView, e: ExprView, expected: ShapeView)
    requires
        e is FunctionDeclaration,
        check_function_spec(s, e, expected, true) is Ok,
    ensures
        fill_spec(e.shape()) is Some,
        s.set_scope(e->FunctionDeclaration_id, fill_spec(e.shape()).unwrap()) is Ok,
        check_function_spec(s, e, expected, true) == check_function_spec(
            s.set_scope(e->FunctionDeclaration_id, fill_spec(e.shape()).unwrap())->Ok_0,
            e,
            expected,
            false,
        ),
{
}

/// Checking a function that is declared inside another.
pub proof fn lemma_function_follows(s: ScopeView, e: ExprView, expected: ShapeView)
    requires
        fresh(e),
        inside(s),
        e is FunctionDeclaration,
    ensures
        walked(s, check_function_spec(s, e, expected, !e->FunctionDeclaration_context.is_lambda)),
    decreases e, 1nat,
{
    let bind = !e->FunctionDeclaration_context.is_lambda;
    let id = e->FunctionDeclaration_id;
    if check_function_spec(s, e, expected, bind) is Ok {
        let around = if bind {
            lemma_function_bound(s, e, expected);
            let shape = fill_spec(e.shape()).unwrap();
            lemma_set_scope_own(s, id, shape);
            s.set_scope(id, shape)->Ok_0
        } else {
            s
        };
        lemma_function_exact(around, e, expected);
        let (f, after) = check_function_spec(around, e, expected, false)->Ok_0;
        assert(after == around);
        lemma_outer_split(around.function_stack);
        let taken = ids_set(s.closures_stack.last());
        assert(taken.union(Set::empty()) =~= taken);
    }
}

/// Checking a block.
pub proof fn lemma_block_follows(s: ScopeView, e: ExprView, expected: ShapeView)
    requires
        fresh(e),
        inside(s),
    ensures
        walked(s, check_block_spec(s, e, expected)),
    decreases e, 1nat,
{
    match e {
        ExprView::Block { loc, items, .. } => {
            if items.len() == 0 {
                lemma_follows_nothing(s);
            } else {
                let opened = s.create_block_scope();
                lemma_create_block_own(s);
                assert forall|i: int| 0 <= i < items.drop_last().len() implies fresh(
                    #[trigger] items.drop_last()[i],
                ) by {
                    assert(items.drop_last()[i] == items[i]);
                }
                assert(fresh(items.last()));
                lemma_each_follows(opened, items.drop_last());
                match check_each_spec(opened, items.drop_last()) {
                    Err(_) => {},
                    Ok((done, s1)) => {
                        lemma_check_follows(s1, items.last(), expected);
                        match check_spec(s1, items.last(), expected) {
                            Err(_) => {},
                            Ok((last, s2)) => {
                                let own = own_of(s).push(Set::empty());
                                let outer = outer_of(s);
                                let first = scan_items(done, own, outer);
                                let second = scan(last, own_of(s1), outer_of(s1));
                                lemma_follows_then(opened, s1, s2, first, second);
                                lemma_scan_items_push(done, last, own, outer);
                                lemma_scan_items_depth(done.push(last), own, outer);
                                assert(own_of(s2).len() == own.len());
                                lemma_destroy_block_own(s2);
                            },
                        }
                    },
                }
            }
        },
        _ => {},
    }
}

/// Checking a call.
pub proof fn lemma_call_follows(s: ScopeView, e: ExprView)
    requires
        fresh(e),
        inside(s),
    ensures
        walked(s, check_call_spec(s, e)),
    decreases e, 1nat,
{
    match e {
        ExprView::Call { loc, func, args, .. } => {
            lemma_check_follows(s, *func, ShapeView::Unknown);
            match check_spec(s, *func, ShapeView::Unknown) {
                Err(_) => {},
                Ok((callee, s1)) => {
                    match callee.shape() {
                        ShapeView::Function { args: wanted, result } => {
                            lemma_args_follows(s1, args, wanted, loc);
                            match check_args_spec(s1, args, wanted, loc) {
                                Err(_) => {},
                                Ok((checked_args, s2)) => {
                                    lemma_follows_then(
                                        s,
                                        s1,
                                        s2,
                                        scan(callee, own_of(s), outer_of(s)),
                                        scan_items(checked_args, own_of(s1), outer_of(s1)),
                                    );
                                },
                            }
                        },
                        _ => {},
                    }
                },
            }
        },
        _ => {},
    }
}

/// Checking a condition.
pub proof fn lemma_if_follows(s: ScopeView, e: ExprView)
    requires
        fresh(e),
        inside(s),
    ensures
        walked(s, check_if_spec(s, e)),
    decreases e, 1nat,
{
    match e {
        ExprView::If { loc, condition, then_block, else_block, .. } => {
            lemma_check_follows(s, *condition, crate::shapes::base(crate::shapes::BaseShapeKind::Boolean));
            match check_spec(s, *condition, crate::shapes::base(crate::shapes::BaseShapeKind::Boolean)) {
                Err(_) => {},
                Ok((test, s1)) => {
                    lemma_check_follows(s1, *then_block, ShapeView::Unknown);
                    match check_spec(s1, *then_block, ShapeView::Unknown) {
                        Err(_) => {},
                        Ok((first, s2)) => {
                            lemma_check_follows(s2, *else_block, ShapeView::Unknown);
                            match check_spec(s2, *else_block, ShapeView::Unknown) {
                                Err(_) => {},
                                Ok((second, s3)) => {
                                    let a = scan(test, own_of(s), outer_of(s));
                                    let b = scan(first, own_of(s1), outer_of(s1));
                                    let c = scan(second, own_of(s2), outer_of(s2));
                                    lemma_follows_then(s, s1, s2, a, b);
                                    lemma_follows_then(s, s2, s3, then(a, b), c);
                                    lemma_follows_then(s1, s2, s3, b, c);
                                },
                            }
                        },
                    }
                },
            }
        },
        _ => {},
    }
}

/// Checking an operation on two numbers.
pub proof fn lemma_binary_follows(s: ScopeView, e: ExprView)
    requires
        fresh(e),
        inside(s),
    ensures
        walked(s, check_binary_spec(s, e)),
    decreases e, 1nat,
{
    match e {
        ExprView::BinaryOp { loc, op, left, right, .. } => {
            let number = crate::shapes::base(crate::shapes::BaseShapeKind::Float);
            lemma_check_follows(s, *left, number);
            match check_spec(s, *left, number) {
                Err(_) => {},
                Ok((first, s1)) => {
                    lemma_check_follows(s1, *right, number);
                    match check_spec(s1, *right, number) {
                        Err(_) => {},
                        Ok((second, s2)) => {
                            lemma_follows_then(
                                s,
                                s1,
                                s2,
                                scan(first, own_of(s), outer_of(s)),
                                scan(second, own_of(s1), outer_of(s1)),
                            );
                        },
                    }
                },
            }
        },
        _ => {},
    }
}

/// Checking an assignment.
pub proof fn lemma_assignment_follows(s: ScopeView, e: ExprView)
    requires
        fresh(e),
        inside(s),
    ensures
        walked(s, check_assignment_spec(s, e)),
    decreases e, 1nat,
{
    match e {
        ExprView::Assignment { shape, loc, id, body } => {
            lemma_check_follows(s, *body, shape);
            match check_spec(s, *body, shape) {
                Err(_) => {},
                Ok((checked_body, s1)) => {
                    match verify_spec(shape, checked_body.shape()) {
                        Err(_) => {},
                        Ok(agreed) => {
                            if s1.set_scope(id, agreed) is Ok {
                                lemma_set_scope_own(s1, id, agreed);
                            }
                        },
                    }
                },
            }
        },
        _ => {},
    }
}

/// Whether every function of the sequence has noted exactly what it takes.
/// A function of a module has no function around it.
pub open spec fn all_exact(functions: Seq<ExprView>) -> bool {
    forall|i: int| 0 <= i < functions.len() ==> function_exact(#[trigger] functions[i], Set::empty())
}

/// No function declares anything where none is in progress.
pub proof fn lemma_outer_none()
    ensures
        outer_names(Seq::empty()) == Set::<Seq<char>>::empty(),
{
    assert(outer_names(Seq::empty()) =~= Set::<Seq<char>>::empty());
}

/// The functions of a module are checked one by one, each from the scope
/// that holds the module's functions and nothing else.
pub proof fn lemma_functions_exact(s: ScopeView, functions: Seq<ExprView>, n: int)
    requires
        0 <= n <= functions.len(),
        s.function_stack.len() == 0,
        s.closures_stack.len() == 0,
        all_fresh(functions),
    ensures
        match check_functions_spec(s, functions, n) {
            Ok((done, after)) => after == s && all_exact(done),
            Err(_) => true,
        },
    decreases n,
{
    if n > 0 {
        lemma_functions_exact(s, functions, n - 1);
        match check_functions_spec(s, functions, n - 1) {
            Err(_) => {},
            Ok((done, s1)) => {
                assert(fresh(functions[n - 1]));
                lemma_function_exact(s, functions[n - 1], ShapeView::Unknown);
                lemma_outer_none();
                assert(s.function_stack =~= Seq::<Seq<Table<ShapeView>>>::empty());
                match check_function_spec(s, functions[n - 1], ShapeView::Unknown, false) {
                    Err(_) => {},
                    Ok((f, s2)) => {
                        let all = done.push(f);
                        assert forall|i: int| 0 <= i < all.len() implies function_exact(
                            #[trigger] all[i],
                            Set::empty(),
                        ) by {
                            if i < done.len() {
                                assert(all[i] == done[i]);
                            } else {
                                assert(all[i] == f);
                            }
                        }
                    },
                }
            },
        }
    }
}

/// After type checking, every function of the module, and every function
/// declared inside one, has as its closures exactly the variables that its
/// body uses, outside the functions declared in it, and that are locals of a
/// function around it, but for its own name; and it is marked recursive
/// exactly where its own name is among them. This holds of every module in
/// which no function is marked recursive beforehand.
pub proof fn lemma_module_captures(m: ModuleView)
    requires
        all_fresh(m.functions),
        check_module_spec(m) is Ok,
    ensures
        all_exact(check_module_spec(m)->Ok_0.functions),
{
    let count = m.functions.len() as int;
    let table = prefill_spec(m.functions, count)->Ok_0;
    let s = ScopeView { static_scope: table, ..ScopeView::empty() };
    lemma_functions_exact(s, m.functions, count);
}

} // verus!
