use vstd::prelude::*;
use std::rc::Rc;
use crate::bytecode::{FunctionRef, FunctionRefView};
use crate::shapes::{Shape, ShapeView};
use crate::support::views;

verus! {

/// A value that a program computes. A number is held as the 64 bits of its
/// binary representation. Strings, functions and lists are shared, never
/// changed in place.
#[derive(Debug)]
pub enum Value {
    Null,
    True,
    False,
    String(Rc<String>),
    Float(u64),
    Function(Rc<FunctionHandle>),
    List(Rc<ListValue>),
}

/// A list: its items and the shape of each of them.
#[derive(Debug)]
pub struct ListValue {
    pub contents: Vec<Value>,
    pub shape: Shape,
}

/// A function as a value: a bare reference, a reference with the values it
/// captured, or a handle that passes itself to the function it wraps.
#[derive(Debug)]
pub enum FunctionHandle {
    Plain(FunctionRef),
    Closure { func: FunctionRef, captured: Vec<Value> },
    Recursive { inner: Rc<FunctionHandle> },
}

/// The mathematical value of a [`Value`].
pub enum ValueView {
    Null,
    True,
    False,
    String(Seq<char>),
    Float(u64),
    Function(HandleView),
    List(ListView),
}

/// The mathematical value of a [`ListValue`].
pub struct ListView {
    pub contents: Seq<ValueView>,
    pub shape: ShapeView,
}

/// The mathematical value of a [`FunctionHandle`].
pub enum HandleView {
    Plain(FunctionRefView),
    Closure { func: FunctionRefView, captured: Seq<ValueView> },
    Recursive { inner: Box<HandleView> },
}

impl Value {
    /// The value with every sequence and string in it taken by its view.
    pub open spec fn model(self) -> ValueView
        decreases self,
    {
        match self {
            Value::Null => ValueView::Null,
            Value::True => ValueView::True,
            Value::False => ValueView::False,
            Value::String(s) => ValueView::String(s@),
            Value::Float(bits) => ValueView::Float(bits),
            Value::Function(h) => ValueView::Function(h.model()),
            Value::List(l) => ValueView::List(
                ListView {
                    contents: Seq::new(
                        l.contents@.len(),
                        |i: int|
                            if 0 <= i < l.contents@.len() {
                                l.contents@[i].model()
                            } else {
                                ValueView::Null
                            },
                    ),
                    shape: l.shape@,
                },
            ),
        }
    }

    /// A list value is seen item by item.
    pub proof fn lemma_model(self)
        ensures
            match self {
                Value::List(l) => self@ == ValueView::List(l@),
                Value::Function(h) => self@ == ValueView::Function(h@),
                _ => true,
            },
    {
        match self {
            Value::List(l) => {
                assert(self@->List_0.contents =~= views(l.contents@));
            },
            _ => {},
        }
    }
}

impl FunctionHandle {
    /// The handle with every sequence and string in it taken by its view.
    pub open spec fn model(self) -> HandleView
        decreases self,
    {
        match self {
            FunctionHandle::Plain(f) => HandleView::Plain(f@),
            FunctionHandle::Closure { func, captured } => HandleView::Closure {
                func: func@,
                captured: Seq::new(
                    captured@.len(),
                    |i: int|
                        if 0 <= i < captured@.len() {
                            captured@[i].model()
                        } else {
                            ValueView::Null
                        },
                ),
            },
            FunctionHandle::Recursive { inner } => HandleView::Recursive {
                inner: Box::new(inner.model()),
            },
        }
    }

    /// A closure's captured values are seen one by one.
    pub proof fn lemma_model(self)
        ensures
            match self {
                FunctionHandle::Closure { func, captured } => self@ == (HandleView::Closure {
                    func: func@,
                    captured: views(captured@),
                }),
                FunctionHandle::Recursive { inner } => self@ == (HandleView::Recursive {
                    inner: Box::new(inner@),
                }),
                FunctionHandle::Plain(f) => self@ == HandleView::Plain(f@),
            },
    {
        match self {
            FunctionHandle::Closure { func, captured } => {
                assert(self@->Closure_captured =~= views(captured@));
            },
            _ => {},
        }
    }
}

impl View for Value {
    type V = ValueView;

    open spec fn view(&self) -> ValueView {
        self.model()
    }
}

impl View for FunctionHandle {
    type V = HandleView;

    open spec fn view(&self) -> HandleView {
        self.model()
    }
}

impl View for ListValue {
    type V = ListView;

    open spec fn view(&self) -> ListView {
        ListView { contents: views(self.contents@), shape: self.shape@ }
    }
}

impl Clone for Value {
    fn clone(&self) -> (r: Self)
        ensures
            r == *self,
    {
        match self {
            Value::Null => Value::Null,
            Value::True => Value::True,
            Value::False => Value::False,
            Value::String(s) => Value::String(s.clone()),
            Value::Float(bits) => Value::Float(*bits),
            Value::Function(h) => Value::Function(h.clone()),
            Value::List(l) => Value::List(l.clone()),
        }
    }
}

/// A copy of each value of `values`, in order.
pub fn clone_values(values: &Vec<Value>) -> (r: Vec<Value>)
    ensures
        r@ == values@,
{
    let mut out: Vec<Value> = Vec::new();
    let mut i: usize = 0;
    while i < values.len()
        invariant
            i <= values.len(),
            out@ == values@.take(i as int),
        decreases values.len() - i,
    {
        out.push(values[i].clone());
        assert(values@.take(i as int).push(values@[i as int]) =~= values@.take(i + 1));
        i += 1;
    }
    assert(values@.take(values@.len() as int) =~= values@);
    out
}

impl ListValue {
    pub fn new(shape: Shape) -> (r: ListValue)
        ensures
            r@ == (ListView { contents: Seq::empty(), shape: shape@ }),
    {
        let r = ListValue { contents: Vec::new(), shape };
        assert(views(r.contents@) =~= Seq::<ValueView>::empty());
        r
    }

    pub fn copy_contents(&self) -> (r: Vec<Value>)
        ensures
            r@ == self.contents@,
    {
        clone_values(&self.contents)
    }
}

} // verus!
