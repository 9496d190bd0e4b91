use vstd::prelude::*;
use crate::ir::{Ir, IrFunction, IrFunctionView, IrView, branch};
use crate::support::{views, lemma_push_add, lemma_take_all, lemma_views_push};

verus! {

/// `body`, behind a store to `pending` where there is one, with the loads
/// that directly follow a store to the same local folded away. Where the
/// marker that the local is free follows such a load, store, load and marker
/// all go: nothing reads the local again. Where anything else follows it, the
/// load goes and a duplicate comes before the store. Where fewer than two
/// operations follow a store, it stays as it is. The arms of a branch are
/// folded each by itself.
pub open spec fn fold_spec(pending: Option<Seq<char>>, body: Seq<IrView>) -> Seq<IrView>
    decreases body, (if pending is Some {
            1nat
        } else {
            0nat
        }),
{
    match pending {
        Some(local) => if body.len() >= 2 && body[0] == (IrView::LoadValue { local }) {
            if body[1] == (IrView::FreeLocal { local }) {
                fold_spec(None, body.skip(2))
            } else {
                seq![IrView::Duplicate] + fold_spec(Some(local), body.skip(1))
            }
        } else {
            seq![IrView::StoreValue { local }] + fold_spec(None, body)
        },
        None => if body.len() == 0 {
            Seq::empty()
        } else {
            match body[0] {
                IrView::StoreValue { local } => fold_spec(Some(local), body.skip(1)),
                IrView::Branch { then_block, else_block } => seq![
                    IrView::Branch {
                        then_block: fold_spec(None, then_block),
                        else_block: fold_spec(None, else_block),
                    },
                ] + fold_spec(None, body.skip(1)),
                other => seq![other] + fold_spec(None, body.skip(1)),
            }
        },
    }
}

/// The body after the pass that folds a load into the store before it.
pub open spec fn load_store_spec(body: Seq<IrView>) -> Seq<IrView> {
    fold_spec(None, body)
}

/// The name that waits for its store, if one does.
pub open spec fn name_of(pending: Option<String>) -> Option<Seq<char>> {
    match pending {
        Some(name) => Some(name@),
        None => None,
    }
}

/// Whether `op` loads the local `name`.
fn loads(op: &Ir, name: &String) -> (r: bool)
    ensures
        r == (op@ == (IrView::LoadValue { local: name@ })),
{
    match op {
        Ir::LoadValue { local } => *local == *name,
        _ => false,
    }
}

/// Whether `op` marks the local `name` as free.
fn frees(op: &Ir, name: &String) -> (r: bool)
    ensures
        r == (op@ == (IrView::FreeLocal { local: name@ })),
{
    match op {
        Ir::FreeLocal { local } => *local == *name,
        _ => false,
    }
}

/// `body` with the loads after stores folded away.
pub fn load_store(body: &Vec<Ir>) -> (r: Vec<Ir>)
    ensures
        views(r@) == load_store_spec(views(body@)),
    decreases body,
{
    let ghost whole = views(body@);
    let len = body.len();
    let mut out: Vec<Ir> = Vec::new();
    let mut pending: Option<String> = None;
    let mut i: usize = 0;
    proof {
        assert(views(out@) =~= Seq::<IrView>::empty());
        assert(whole.skip(0) =~= whole);
        lemma_take_all(fold_spec(None, whole));
    }
    while i < len || pending.is_some()
        invariant
            i <= len,
            len == body@.len(),
            whole == views(body@),
            fold_spec(None, whole) == views(out@) + fold_spec(name_of(pending), whole.skip(i as int)),
        decreases len - i, (if pending is Some {
                1nat
            } else {
                0nat
            }),
    {
        let ghost before = out@;
        let ghost rest = whole.skip(i as int);
        proof {
            if i < len {
                assert(rest[0] == body@[i as int]@);
                assert(rest.skip(1) =~= whole.skip(i + 1));
            }
            if i + 1 < len {
                assert(rest[1] == body@[i + 1]@);
                assert(rest.skip(2) =~= whole.skip(i + 2));
            }
        }
        match pending {
            Some(name) => {
                if len - i >= 2 && loads(&body[i], &name) {
                    if frees(&body[i + 1], &name) {
                        pending = None;
                        i += 2;
                    } else {
                        out.push(Ir::Duplicate);
                        proof {
                            lemma_views_push(before, Ir::Duplicate);
                            lemma_push_add(
                                views(before),
                                IrView::Duplicate,
                                fold_spec(Some(name@), whole.skip(i + 1)),
                            );
                        }
                        pending = Some(name);
                        i += 1;
                    }
                } else {
                    let store = Ir::StoreValue { local: name };
                    out.push(store);
                    proof {
                        lemma_views_push(before, store);
                        lemma_push_add(views(before), store@, fold_spec(None, rest));
                    }
                    pending = None;
                }
            },
            None => {
                proof {
                    broadcast use vstd::std_specs::vec::axiom_vec_index_decreases;

                    body@[i as int].lemma_model();
                }
                match &body[i] {
                    Ir::StoreValue { local } => {
                        pending = Some(local.clone());
                    },
                    Ir::Branch { then_block, else_block } => {
                        let item = branch(load_store(then_block), load_store(else_block));
                        out.push(item);
                        proof {
                            lemma_views_push(before, item);
                            lemma_push_add(
                                views(before),
                                item@,
                                fold_spec(None, whole.skip(i + 1)),
                            );
                        }
                    },
                    other => {
                        let item = other.clone();
                        out.push(item);
                        proof {
                            lemma_views_push(before, item);
                            lemma_push_add(
                                views(before),
                                item@,
                                fold_spec(None, whole.skip(i + 1)),
                            );
                        }
                    },
                }
                i += 1;
            },
        }
    }
    proof {
        assert(whole.skip(len as int) =~= Seq::<IrView>::empty());
        lemma_take_all(views(out@));
    }
    out
}

/// Folds away the load of a local that was stored just before: the value is
/// duplicated before the store, or, where the local is free at once, neither
/// stored nor loaded.
pub fn load_store_opt(func: &mut IrFunction)
    ensures
        final(func)@ == (IrFunctionView { body: load_store_spec(old(func)@.body), ..old(func)@ }),
{
    let body = load_store(&func.body);
    func.body = body;
}

} // verus!
