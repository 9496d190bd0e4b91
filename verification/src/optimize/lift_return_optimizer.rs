use vstd::prelude::*;
use crate::ir::{Ir, IrFunction, IrFunctionView, IrView, branch, reversed};
use crate::support::{
    views,
    backwards,
    lemma_backwards_push,
    lemma_push_add,
    lemma_take_all,
    lemma_take_last,
    lemma_views_push,
};

verus! {

/// `items` behind one another, and a return behind them where `ret` says so.
pub open spec fn with_return(items: Seq<IrView>, ret: bool) -> Seq<IrView> {
    if ret {
        items.push(IrView::Return)
    } else {
        items
    }
}

/// `body`, followed by a return where `ret` says so, with every return that
/// directly follows a branch moved into both arms of that branch, and so on
/// inside the arms that got one.
pub open spec fn lift_spec(body: Seq<IrView>, ret: bool) -> Seq<IrView>
    decreases body,
{
    if body.len() == 0 {
        with_return(Seq::empty(), ret)
    } else {
        let init = body.drop_last();
        match body.last() {
            IrView::Branch { then_block, else_block } => if ret {
                lift_spec(init, false).push(
                    IrView::Branch {
                        then_block: lift_spec(then_block, true),
                        else_block: lift_spec(else_block, true),
                    },
                )
            } else {
                lift_spec(init, false).push(body.last())
            },
            IrView::Return => with_return(lift_spec(init, true), ret),
            other => with_return(lift_spec(init, false).push(other), ret),
        }
    }
}

/// The body after the pass that lifts returns into branches.
pub open spec fn lift_return_spec(body: Seq<IrView>) -> Seq<IrView> {
    lift_spec(body, false)
}

/// `body`, followed by a return where `ret` says so, with the returns lifted.
pub fn lift_return(body: &Vec<Ir>, ret: bool) -> (r: Vec<Ir>)
    ensures
        views(r@) == lift_spec(views(body@), ret),
    decreases body,
{
    let ghost whole = views(body@);
    let mut rev: Vec<Ir> = Vec::new();
    let mut pending = ret;
    let mut i: usize = body.len();
    proof {
        assert(views(rev@) =~= Seq::<IrView>::empty());
        assert(backwards(views(rev@)) =~= Seq::<IrView>::empty());
        lemma_take_all(whole);
        lemma_take_all(lift_spec(whole, ret));
    }
    while i > 0
        invariant
            i <= body.len(),
            whole == views(body@),
            lift_spec(whole, ret) == lift_spec(whole.take(i as int), pending) + backwards(
                views(rev@),
            ),
        decreases i,
    {
        let ghost done = backwards(views(rev@));
        let ghost before = rev@;
        let ghost init = lift_spec(whole.take(i - 1), false);
        proof {
            broadcast use vstd::std_specs::vec::axiom_vec_index_decreases;

            body@[i - 1].lemma_model();
            lemma_take_last(whole, i as int);
        }
        match &body[i - 1] {
            Ir::Branch { then_block, else_block } => {
                let item = if pending {
                    branch(lift_return(then_block, true), lift_return(else_block, true))
                } else {
                    body[i - 1].clone()
                };
                rev.push(item);
                proof {
                    lemma_views_push(before, item);
                    lemma_backwards_push(views(before), item@);
                    lemma_push_add(init, item@, done);
                }
                pending = false;
            },
            Ir::Return => {
                if pending {
                    rev.push(Ir::Return);
                    proof {
                        lemma_views_push(before, Ir::Return);
                        lemma_backwards_push(views(before), IrView::Return);
                        lemma_push_add(lift_spec(whole.take(i - 1), true), IrView::Return, done);
                    }
                }
                pending = true;
            },
            other => {
                if pending {
                    rev.push(Ir::Return);
                    proof {
                        lemma_views_push(before, Ir::Return);
                        lemma_backwards_push(views(before), IrView::Return);
                    }
                }
                let ghost middle = rev@;
                let item = other.clone();
                rev.push(item);
                proof {
                    lemma_views_push(middle, item);
                    lemma_backwards_push(views(middle), item@);
                    if pending {
                        lemma_push_add(init.push(item@), IrView::Return, done);
                        lemma_push_add(init, item@, seq![IrView::Return] + done);
                    } else {
                        lemma_push_add(init, item@, done);
                    }
                }
                pending = false;
            },
        }
        i -= 1;
    }
    proof {
        lemma_take_all(whole);
    }
    if pending {
        let ghost done = backwards(views(rev@));
        let ghost before = rev@;
        rev.push(Ir::Return);
        proof {
            lemma_views_push(before, Ir::Return);
            lemma_backwards_push(views(before), IrView::Return);
            lemma_push_add(Seq::<IrView>::empty(), IrView::Return, done);
            lemma_take_all(seq![IrView::Return] + done);
        }
    } else {
        proof {
            lemma_take_all(backwards(views(rev@)));
        }
    }
    reversed(rev)
}

/// Moves every return that directly follows a branch into both arms of that
/// branch, so that each arm ends with a return of its own.
pub fn lift_return_opt(func: &mut IrFunction)
    ensures
        final(func)@ == (IrFunctionView {
            body: lift_return_spec(old(func)@.body),
            ..old(func)@
        }),
{
    let body = lift_return(&func.body, false);
    func.body = body;
}

} // verus!
