use vstd::prelude::*;
use crate::ir::{Ir, IrFunction, IrFunctionView, IrView, branch, reversed};
use crate::support::{
    views,
    backwards,
    find_name,
    index_of,
    lemma_backwards_push,
    lemma_push_add,
    lemma_take_all,
    lemma_take_last,
    lemma_views_push,
};

verus! {

/// `body` with a marker behind the last load of each local that is not among
/// `known`: the local is free from there on. The arms of a branch are marked
/// each by itself, with what is known where the branch stands; what they load
/// is not known outside them.
pub open spec fn free_spec(body: Seq<IrView>, known: Seq<Seq<char>>) -> Seq<IrView>
    decreases body,
{
    if body.len() == 0 {
        Seq::empty()
    } else {
        let init = body.drop_last();
        match body.last() {
            IrView::LoadValue { local } => if index_of(known, local) is None {
                free_spec(init, known.push(local)).push(body.last()).push(
                    IrView::FreeLocal { local },
                )
            } else {
                free_spec(init, known).push(body.last())
            },
            IrView::Branch { then_block, else_block } => free_spec(init, known).push(
                IrView::Branch {
                    then_block: free_spec(then_block, known),
                    else_block: free_spec(else_block, known),
                },
            ),
            other => free_spec(init, known).push(other),
        }
    }
}

/// The body after the pass that marks where locals become free.
pub open spec fn free_local_spec(body: Seq<IrView>) -> Seq<IrView> {
    free_spec(body, Seq::empty())
}

/// A copy of each name of `names`, in order.
fn clone_names(names: &Vec<String>) -> (r: Vec<String>)
    ensures
        views(r@) == views(names@),
{
    let mut out: Vec<String> = Vec::new();
    let mut i: usize = 0;
    while i < names.len()
        invariant
            i <= names.len(),
            out@.len() == i,
            forall|j: int| 0 <= j < i ==> out@[j]@ == names@[j]@,
        decreases names.len() - i,
    {
        out.push(names[i].clone());
        i += 1;
    }
    assert(views(out@) =~= views(names@));
    out
}

/// `body` with the markers put in, for the locals not among `prev_locals`.
pub fn free_local(body: &Vec<Ir>, prev_locals: &Vec<String>) -> (r: Vec<Ir>)
    ensures
        views(r@) == free_spec(views(body@), views(prev_locals@)),
    decreases body,
{
    let ghost whole = views(body@);
    let ghost start = views(prev_locals@);
    let mut known = clone_names(prev_locals);
    let mut rev: Vec<Ir> = Vec::new();
    let mut i: usize = body.len();
    proof {
        assert(views(rev@) =~= Seq::<IrView>::empty());
        assert(backwards(views(rev@)) =~= Seq::<IrView>::empty());
        lemma_take_all(whole);
        lemma_take_all(free_spec(whole, start));
    }
    while i > 0
        invariant
            i <= body.len(),
            whole == views(body@),
            free_spec(whole, start) == free_spec(whole.take(i as int), views(known@)) + backwards(
                views(rev@),
            ),
        decreases i,
    {
        let ghost done = backwards(views(rev@));
        let ghost before = rev@;
        let ghost seen = views(known@);
        let ghost init = free_spec(whole.take(i - 1), seen);
        proof {
            broadcast use vstd::std_specs::vec::axiom_vec_index_decreases;

            body@[i - 1].lemma_model();
            lemma_take_last(whole, i as int);
        }
        match &body[i - 1] {
            Ir::LoadValue { local } => {
                if find_name(&known, local).is_none() {
                    let ghost names = known@;
                    let name = local.clone();
                    let ghost pushed = name;
                    known.push(name);
                    let free = Ir::FreeLocal { local: local.clone() };
                    rev.push(free);
                    let ghost middle = rev@;
                    let load = Ir::LoadValue { local: local.clone() };
                    rev.push(load);
                    proof {
                        lemma_views_push(names, pushed);
                        lemma_views_push(before, free);
                        lemma_backwards_push(views(before), free@);
                        lemma_views_push(middle, load);
                        lemma_backwards_push(views(middle), load@);
                        let grown = free_spec(whole.take(i - 1), seen.push(local@));
                        lemma_push_add(grown.push(load@), free@, done);
                        lemma_push_add(grown, load@, seq![free@] + done);
                    }
                } else {
                    let load = Ir::LoadValue { local: local.clone() };
                    rev.push(load);
                    proof {
                        lemma_views_push(before, load);
                        lemma_backwards_push(views(before), load@);
                        lemma_push_add(init, load@, done);
                    }
                }
            },
            Ir::Branch { then_block, else_block } => {
                let item = branch(free_local(then_block, &known), free_local(else_block, &known));
                rev.push(item);
                proof {
                    lemma_views_push(before, item);
                    lemma_backwards_push(views(before), item@);
                    lemma_push_add(init, item@, done);
                }
            },
            other => {
                let item = other.clone();
                rev.push(item);
                proof {
                    lemma_views_push(before, item);
                    lemma_backwards_push(views(before), item@);
                    lemma_push_add(init, item@, done);
                }
            },
        }
        i -= 1;
    }
    proof {
        lemma_take_all(whole);
        lemma_take_all(backwards(views(rev@)));
    }
    reversed(rev)
}

/// Puts a marker behind the last load of each local: the emitter gives the
/// local's slot to another name from there on.
pub fn free_local_opt(func: &mut IrFunction)
    ensures
        final(func)@ == (IrFunctionView { body: free_local_spec(old(func)@.body), ..old(func)@ }),
{
    let none: Vec<String> = Vec::new();
    assert(views(none@) =~= Seq::<Seq<char>>::empty());
    let body = free_local(&func.body, &none);
    func.body = body;
}

} // verus!
