use vstd::prelude::*;
use crate::ir::IrView;
use crate::optimize::free_local_optimizer::{free_local_spec, free_spec};
use crate::optimize::laws::behind;
use crate::optimize::lift_return_optimizer::{lift_return_spec, lift_spec};
use crate::optimize::load_store_optimizer::fold_spec;
use crate::optimize::passes::optimize_spec;

verus! {

/// Whether the operation is a call.
pub open spec fn is_call(op: IrView) -> bool {
    op is CallStatic || op is CallDynamic
}

/// Whether no operation of `body` is a return, inside the arms of its
/// branches either.
pub open spec fn no_returns(body: Seq<IrView>) -> bool
    decreases body,
{
    if body.len() == 0 {
        true
    } else {
        no_returns(body.drop_last()) && match body.last() {
            IrView::Return => false,
            IrView::Branch { then_block, else_block } => no_returns(then_block) && no_returns(
                else_block,
            ),
            _ => true,
        }
    }
}

/// How many calls stand in tail position in `body`, where `ret` says whether
/// a return directly follows it: a call that is the last operation before
/// the return, or in tail position in an arm of a branch that is.
pub open spec fn tail_calls(body: Seq<IrView>, ret: bool) -> nat
    decreases body,
{
    if body.len() == 0 {
        0
    } else {
        match body.last() {
            IrView::Return => tail_calls(body.drop_last(), true),
            IrView::Branch { then_block, else_block } => if ret {
                tail_calls(then_block, true) + tail_calls(else_block, true)
            } else {
                0
            },
            op => if ret && is_call(op) {
                1
            } else {
                0
            },
        }
    }
}

/// How many calls at the end of a path through `body` have a return directly
/// behind them: a call before the last return of `body`, or one in an arm of
/// a last branch.
pub open spec fn direct_calls(body: Seq<IrView>) -> nat
    decreases body,
{
    if body.len() == 0 {
        0
    } else {
        match body.last() {
            IrView::Return => if body.len() >= 2 && is_call(body[body.len() - 2]) {
                1
            } else {
                0
            },
            IrView::Branch { then_block, else_block } => direct_calls(then_block) + direct_calls(
                else_block,
            ),
            _ => 0,
        }
    }
}

/// Lifting returns gives every call in tail position a return of its own
/// directly behind it.
pub proof fn lemma_lift_makes_direct(body: Seq<IrView>)
    requires
        no_returns(body),
    ensures
        direct_calls(lift_spec(body, true)) == tail_calls(body, true),
    decreases body,
{
    if body.len() > 0 {
        let init = body.drop_last();
        match body.last() {
            IrView::Branch { then_block, else_block } => {
                lemma_lift_makes_direct(then_block);
                lemma_lift_makes_direct(else_block);
            },
            op => {
                let lifted = lift_spec(init, false).push(op).push(IrView::Return);
                assert(lifted[lifted.len() - 2] == op);
            },
        }
    }
}

/// What marking free locals leaves at the end of a body: the same operation,
/// or a marker behind a load.
pub proof fn lemma_free_last(body: Seq<IrView>, known: Seq<Seq<char>>)
    requires
        body.len() > 0,
    ensures
        free_spec(body, known).len() > 0,
        is_call(body.last()) ==> free_spec(body, known).last() == body.last(),
        !is_call(body.last()) ==> !is_call(free_spec(body, known).last()),
        body.last() is Return ==> free_spec(body, known).last() is Return && free_spec(
            body,
            known,
        ).drop_last() == free_spec(body.drop_last(), known),
{
    match body.last() {
        IrView::Return => {
            assert(free_spec(body.drop_last(), known).push(IrView::Return).drop_last()
                =~= free_spec(body.drop_last(), known));
        },
        _ => {},
    }
}

/// Marking free locals keeps every call with its return.
pub proof fn lemma_free_keeps_direct(body: Seq<IrView>, known: Seq<Seq<char>>)
    ensures
        direct_calls(free_spec(body, known)) == direct_calls(body),
    decreases body,
{
    if body.len() > 0 {
        let init = body.drop_last();
        match body.last() {
            IrView::Return => {
                lemma_free_last(body, known);
                let marked = free_spec(body, known);
                if init.len() > 0 {
                    lemma_free_last(init, known);
                    assert(marked[marked.len() - 2] == free_spec(init, known).last());
                    assert(body[body.len() - 2] == init.last());
                } else {
                    assert(free_spec(init, known).len() == 0);
                }
            },
            IrView::Branch { then_block, else_block } => {
                lemma_free_keeps_direct(then_block, known);
                lemma_free_keeps_direct(else_block, known);
            },
            _ => {},
        }
    }
}

/// The calls with their returns at the end of a body are those at the end
/// of its last two operations.
pub proof fn lemma_direct_suffix(front: Seq<IrView>, back: Seq<IrView>)
    ensures
        back.len() >= 2 ==> direct_calls(front + back) == direct_calls(back),
        direct_calls(front + back) >= direct_calls(back),
        back.len() == 1 && !(back[0] is Return) ==> direct_calls(front + back) == direct_calls(back),
{
    if back.len() > 0 {
        let whole = front + back;
        assert(whole.last() == back.last());
        if back.len() >= 2 {
            assert(whole[whole.len() - 2] == back[back.len() - 2]);
        }
    } else {
        assert(front + back =~= front);
    }
}

/// Folding loads into stores keeps every call with its return.
pub proof fn lemma_fold_keeps_direct(pending: Option<Seq<char>>, body: Seq<IrView>)
    ensures
        direct_calls(fold_spec(pending, body)) >= direct_calls(behind(pending, body)),
    decreases body, (if pending is Some {
            1nat
        } else {
            0nat
        }),
{
    match pending {
        Some(local) => {
            let store = seq![IrView::StoreValue { local }];
            if body.len() >= 2 && body[0] == (IrView::LoadValue { local }) {
                if body[1] == (IrView::FreeLocal { local }) {
                    let rest = body.skip(2);
                    lemma_fold_keeps_direct(None, rest);
                    assert(store + body =~= (store + body.take(2)) + rest);
                    lemma_direct_suffix(store + body.take(2), rest);
                    if rest.len() == 1 && rest[0] is Return {
                        let whole = store + body;
                        assert(whole[whole.len() - 2] == body[1]);
                    }
                    if rest.len() == 0 {
                        assert((store + body).last() == body[1]);
                    }
                } else {
                    let rest = body.skip(1);
                    lemma_fold_keeps_direct(Some(local), rest);
                    lemma_direct_suffix(seq![IrView::Duplicate], fold_spec(Some(local), rest));
                    assert(store + body =~= (store + body.take(1)) + rest);
                    lemma_direct_suffix(store + body.take(1), rest);
                    lemma_direct_suffix(store, rest);
                    if rest.len() == 1 && rest[0] is Return {
                        let long = store + body;
                        let short = store + rest;
                        assert(long[long.len() - 2] == body[0]);
                        assert(short[short.len() - 2] == store[0]);
                    }
                }
            } else {
                lemma_fold_keeps_direct(None, body);
                lemma_direct_suffix(store, fold_spec(None, body));
                lemma_direct_suffix(store, body);
                if body.len() == 1 && body[0] is Return {
                    let whole = store + body;
                    assert(whole[whole.len() - 2] == store[0]);
                }
            }
        },
        None => {
            if body.len() > 0 {
                let rest = body.skip(1);
                let head = seq![body[0]];
                assert(head + rest =~= body);
                match body[0] {
                    IrView::StoreValue { local } => {
                        lemma_fold_keeps_direct(Some(local), rest);
                    },
                    IrView::Branch { then_block, else_block } => {
                        lemma_fold_keeps_direct(None, then_block);
                        lemma_fold_keeps_direct(None, else_block);
                        lemma_fold_keeps_direct(None, rest);
                        let folded = seq![
                            IrView::Branch {
                                then_block: fold_spec(None, then_block),
                                else_block: fold_spec(None, else_block),
                            },
                        ];
                        lemma_direct_suffix(folded, fold_spec(None, rest));
                        lemma_direct_suffix(head, rest);
                        if rest.len() == 0 {
                            assert(fold_spec(None, rest) =~= Seq::<IrView>::empty());
                            assert(folded + fold_spec(None, rest) =~= folded);
                            assert(head + rest =~= head);
                        } else if rest.len() == 1 && rest[0] is Return {
                            assert(body[body.len() - 2] == body[0]);
                        }
                    },
                    other => {
                        lemma_fold_keeps_direct(None, rest);
                        lemma_direct_suffix(head, fold_spec(None, rest));
                        lemma_direct_suffix(head, rest);
                        if rest.len() == 1 && rest[0] is Return {
                            assert(body[body.len() - 2] == other);
                            let folded = head + fold_spec(None, rest);
                            assert(fold_spec(None, rest) =~= seq![IrView::Return]) by {
                                assert(rest.skip(1) =~= Seq::<IrView>::empty());
                                assert(fold_spec(None, rest.skip(1)) =~= Seq::<IrView>::empty());
                            }
                            assert(folded[folded.len() - 2] == other);
                        }
                    },
                }
            }
        },
    }
}

/// After the three passes every call that stood in tail position has a
/// return directly behind it: of a body without returns of its own, followed
/// by one return, as lowering gives it.
pub proof fn lemma_optimize_makes_direct(code: Seq<IrView>)
    requires
        no_returns(code),
    ensures
        direct_calls(optimize_spec(code.push(IrView::Return))) >= tail_calls(code, true),
        tail_calls(code.push(IrView::Return), false) == tail_calls(code, true),
{
    let body = code.push(IrView::Return);
    assert(body.drop_last() =~= code);
    lemma_lift_makes_direct(code);
    let lifted = lift_return_spec(body);
    assert(lifted == lift_spec(code, true));
    lemma_free_keeps_direct(lifted, Seq::empty());
    lemma_fold_keeps_direct(None, free_local_spec(lifted));
}

} // verus!
