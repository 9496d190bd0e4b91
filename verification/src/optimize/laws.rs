use vstd::prelude::*;
use crate::ir::IrView;
use crate::optimize::free_local_optimizer::{free_local_spec, free_spec};
use crate::optimize::lift_return_optimizer::{lift_return_spec, lift_spec, with_return};
use crate::optimize::load_store_optimizer::{fold_spec, load_store_spec};
use crate::optimize::passes::optimize_spec;

verus! {

/// Whether no operation of `body` loads a local, inside the arms of its
/// branches either.
pub open spec fn no_loads(body: Seq<IrView>) -> bool
    decreases body,
{
    if body.len() == 0 {
        true
    } else {
        no_loads(body.drop_last()) && match body.last() {
            IrView::LoadValue { .. } => false,
            IrView::Branch { then_block, else_block } => no_loads(then_block) && no_loads(
                else_block,
            ),
            _ => true,
        }
    }
}

/// Whether a return directly follows a branch somewhere in `body` itself.
pub open spec fn return_after_branch(body: Seq<IrView>) -> bool {
    exists|i: int|
        0 <= i < body.len() - 1 && (#[trigger] body[i]) is Branch && body[i + 1] is Return
}

/// Whether the optimizer has nothing left to do on `body`: it loads no
/// local, and no return of it directly follows a branch.
pub open spec fn settled(body: Seq<IrView>) -> bool {
    no_loads(body) && !return_after_branch(body)
}

/// Where no return directly follows a branch, and none is asked for behind a
/// last branch, lifting returns changes nothing.
pub proof fn lemma_lift_identity(body: Seq<IrView>, ret: bool)
    requires
        !return_after_branch(body),
        !(ret && body.len() > 0 && body.last() is Branch),
    ensures
        lift_spec(body, ret) == with_return(body, ret),
    decreases body.len(),
{
    if body.len() > 0 {
        let init = body.drop_last();
        assert(body =~= init.push(body.last()));
        assert(!return_after_branch(init)) by {
            if return_after_branch(init) {
                let i = choose|i: int|
                    0 <= i < init.len() - 1 && (#[trigger] init[i]) is Branch && init[i + 1] is Return;
                assert(body[i] is Branch && body[i + 1] is Return);
            }
        }
        match body.last() {
            IrView::Branch { .. } => {
                lemma_lift_identity(init, false);
            },
            IrView::Return => {
                if init.len() > 0 && init.last() is Branch {
                    assert(body[init.len() - 1] is Branch && body[init.len() - 1 + 1] is Return);
                }
                lemma_lift_identity(init, true);
            },
            _ => {
                lemma_lift_identity(init, false);
            },
        }
    }
}

/// Where nothing is loaded, marking free locals changes nothing.
pub proof fn lemma_free_identity(body: Seq<IrView>, known: Seq<Seq<char>>)
    requires
        no_loads(body),
    ensures
        free_spec(body, known) == body,
    decreases body,
{
    if body.len() > 0 {
        let init = body.drop_last();
        assert(body =~= init.push(body.last()));
        lemma_free_identity(init, known);
        match body.last() {
            IrView::Branch { then_block, else_block } => {
                lemma_free_identity(then_block, known);
                lemma_free_identity(else_block, known);
            },
            _ => {},
        }
    }
}

/// What holds of the first operation and of the rest where nothing is
/// loaded.
pub proof fn lemma_no_loads_front(body: Seq<IrView>)
    requires
        no_loads(body),
        body.len() > 0,
    ensures
        no_loads(body.skip(1)),
        !(body[0] is LoadValue),
        match body[0] {
            IrView::Branch { then_block, else_block } => no_loads(then_block) && no_loads(
                else_block,
            ),
            _ => true,
        },
    decreases body.len(),
{
    if body.len() == 1 {
        assert(body.drop_last() =~= Seq::<IrView>::empty());
        assert(body.skip(1) =~= Seq::<IrView>::empty());
    } else {
        let init = body.drop_last();
        lemma_no_loads_front(init);
        assert(body.skip(1).drop_last() =~= init.skip(1));
        assert(body.skip(1).last() == body.last());
        assert(init[0] == body[0]);
    }
}

/// Where nothing is loaded, folding loads into stores changes nothing.
pub proof fn lemma_fold_identity(pending: Option<Seq<char>>, body: Seq<IrView>)
    requires
        no_loads(body),
    ensures
        fold_spec(pending, body) == match pending {
            Some(local) => seq![IrView::StoreValue { local }] + body,
            None => body,
        },
    decreases body, (if pending is Some {
            1nat
        } else {
            0nat
        }),
{
    match pending {
        Some(local) => {
            if body.len() > 0 {
                lemma_no_loads_front(body);
            }
            lemma_fold_identity(None, body);
        },
        None => {
            if body.len() > 0 {
                lemma_no_loads_front(body);
                let rest = body.skip(1);
                match body[0] {
                    IrView::StoreValue { local } => {
                        lemma_fold_identity(Some(local), rest);
                        assert(seq![IrView::StoreValue { local }] + rest =~= body);
                    },
                    IrView::Branch { then_block, else_block } => {
                        lemma_fold_identity(None, then_block);
                        lemma_fold_identity(None, else_block);
                        lemma_fold_identity(None, rest);
                        assert(seq![body[0]] + rest =~= body);
                    },
                    _ => {
                        lemma_fold_identity(None, rest);
                        assert(seq![body[0]] + rest =~= body);
                    },
                }
            } else {
                assert(body =~= Seq::<IrView>::empty());
            }
        },
    }
}

/// A body on which the optimizer has nothing left to do stays as it is under
/// each of the three passes, and so under all of them.
pub proof fn lemma_optimize_settled(body: Seq<IrView>)
    requires
        settled(body),
    ensures
        lift_return_spec(body) == body,
        free_local_spec(body) == body,
        load_store_spec(body) == body,
        optimize_spec(body) == body,
{
    lemma_lift_identity(body, false);
    lemma_free_identity(body, Seq::empty());
    lemma_fold_identity(None, body);
}

/// Optimizing twice gives what optimizing once gives, for every body that
/// the optimizer settles: one that, once optimized, loads no local and has no
/// return directly behind a branch. On other bodies the second run goes on:
/// it marks the loads that are left once more, and lifts a return that the
/// folding brought behind a branch.
pub proof fn lemma_optimize_twice(body: Seq<IrView>)
    requires
        settled(optimize_spec(body)),
    ensures
        optimize_spec(optimize_spec(body)) == optimize_spec(body),
{
    lemma_optimize_settled(optimize_spec(body));
}

/// Whether every path through `body` ends with a return or an error: its
/// last operation is one of the two, or a branch of which every path through
/// either arm ends so.
pub open spec fn paths_end(body: Seq<IrView>) -> bool
    decreases body,
{
    body.len() > 0 && match body.last() {
        IrView::Return => true,
        IrView::Error => true,
        IrView::Branch { then_block, else_block } => paths_end(then_block) && paths_end(else_block),
        _ => false,
    }
}

/// Whether the paths of a body end is decided by its last operation.
pub proof fn lemma_paths_end_suffix(front: Seq<IrView>, back: Seq<IrView>)
    requires
        back.len() > 0,
    ensures
        paths_end(front + back) == paths_end(back),
{
    assert((front + back).last() == back.last());
}

/// With a return behind it, every path through a body ends once the returns
/// are lifted.
pub proof fn lemma_lift_returns(body: Seq<IrView>)
    ensures
        paths_end(lift_spec(body, true)),
    decreases body,
{
    if body.len() > 0 {
        match body.last() {
            IrView::Branch { then_block, else_block } => {
                lemma_lift_returns(then_block);
                lemma_lift_returns(else_block);
            },
            _ => {},
        }
    }
}

/// Lifting returns keeps the paths ending.
pub proof fn lemma_lift_keeps_ends(body: Seq<IrView>)
    requires
        paths_end(body),
    ensures
        paths_end(lift_return_spec(body)),
{
    match body.last() {
        IrView::Return => {
            lemma_lift_returns(body.drop_last());
        },
        _ => {},
    }
}

/// Marking free locals keeps the paths ending.
pub proof fn lemma_free_keeps_ends(body: Seq<IrView>, known: Seq<Seq<char>>)
    requires
        paths_end(body),
    ensures
        paths_end(free_spec(body, known)),
    decreases body,
{
    match body.last() {
        IrView::Branch { then_block, else_block } => {
            lemma_free_keeps_ends(then_block, known);
            lemma_free_keeps_ends(else_block, known);
        },
        _ => {},
    }
}

/// `body` behind the store that waits, where one does.
pub open spec fn behind(pending: Option<Seq<char>>, body: Seq<IrView>) -> Seq<IrView> {
    match pending {
        Some(local) => seq![IrView::StoreValue { local }] + body,
        None => body,
    }
}

/// Folding loads into stores keeps the paths ending.
pub proof fn lemma_fold_keeps_ends(pending: Option<Seq<char>>, body: Seq<IrView>)
    requires
        paths_end(behind(pending, body)),
    ensures
        paths_end(fold_spec(pending, body)),
    decreases body, (if pending is Some {
            1nat
        } else {
            0nat
        }),
{
    match pending {
        Some(local) => {
            let store = seq![IrView::StoreValue { local }];
            if body.len() == 0 {
                assert(store + body =~= store);
            } else {
                lemma_paths_end_suffix(store, body);
                if body.len() >= 2 && body[0] == (IrView::LoadValue { local }) {
                    if body[1] == (IrView::FreeLocal { local }) {
                        assert(body.len() >= 3);
                        assert(body.skip(2).last() == body.last());
                        lemma_fold_keeps_ends(None, body.skip(2));
                    } else {
                        assert(body.skip(1).last() == body.last());
                        lemma_paths_end_suffix(store, body.skip(1));
                        lemma_fold_keeps_ends(Some(local), body.skip(1));
                        lemma_paths_end_suffix(
                            seq![IrView::Duplicate],
                            fold_spec(Some(local), body.skip(1)),
                        );
                    }
                } else {
                    lemma_fold_keeps_ends(None, body);
                    lemma_paths_end_suffix(store, fold_spec(None, body));
                }
            }
        },
        None => {
            let rest = body.skip(1);
            match body[0] {
                IrView::StoreValue { local } => {
                    assert(seq![IrView::StoreValue { local }] + rest =~= body);
                    lemma_fold_keeps_ends(Some(local), rest);
                },
                IrView::Branch { then_block, else_block } => {
                    if rest.len() == 0 {
                        lemma_fold_keeps_ends(None, then_block);
                        lemma_fold_keeps_ends(None, else_block);
                        assert(fold_spec(None, rest) =~= Seq::<IrView>::empty());
                        let folded = IrView::Branch {
                            then_block: fold_spec(None, then_block),
                            else_block: fold_spec(None, else_block),
                        };
                        assert(seq![folded] + Seq::<IrView>::empty() =~= seq![folded]);
                    } else {
                        assert(rest.last() == body.last());
                        lemma_fold_keeps_ends(None, rest);
                        lemma_paths_end_suffix(
                            seq![
                                IrView::Branch {
                                    then_block: fold_spec(None, then_block),
                                    else_block: fold_spec(None, else_block),
                                },
                            ],
                            fold_spec(None, rest),
                        );
                    }
                },
                other => {
                    if rest.len() == 0 {
                        assert(fold_spec(None, rest) =~= Seq::<IrView>::empty());
                        assert(seq![other] + Seq::<IrView>::empty() =~= seq![other]);
                    } else {
                        assert(rest.last() == body.last());
                        lemma_fold_keeps_ends(None, rest);
                        lemma_paths_end_suffix(seq![other], fold_spec(None, rest));
                    }
                },
            }
        },
    }
}

/// Where every path through a body ends with a return or an error, the same
/// holds of the body after the three passes.
pub proof fn lemma_optimize_keeps_ends(body: Seq<IrView>)
    requires
        paths_end(body),
    ensures
        paths_end(optimize_spec(body)),
{
    lemma_lift_keeps_ends(body);
    lemma_free_keeps_ends(lift_return_spec(body), Seq::empty());
    lemma_fold_keeps_ends(None, free_local_spec(lift_return_spec(body)));
}

} // verus!
