use vstd::prelude::*;
use crate::ast::Location;
use crate::error::{ErrorKind, LangError, error_at};
use crate::support::{views, text_is};
use crate::text::{join_spec, lemma_join_next};

verus! {

/// The primitive shapes that the language knows by name.
#[derive(Debug, Clone, Copy, PartialEq, Eq, Structural)]
pub enum BaseShapeKind {
    Boolean,
    Float,
    String,
    Unit,
    List,
}

/// A structural type.
#[derive(Debug)]
#[allow(inconsistent_fields)]
pub enum Shape {
    GenericShapeConstructor { base: Box<Shape>, args: u8 },
    GenericShape { base: Box<Shape>, args: Vec<Shape> },
    SimpleFunctionShape { args: Vec<Shape>, result: Box<Shape> },
    BaseShape { kind: BaseShapeKind },
    NamedShape { name: String },
    UnknownShape,
}

/// The mathematical value of a [`Shape`].
pub enum ShapeView {
    GenericCtor { base: Box<ShapeView>, arity: u8 },
    Generic { base: Box<ShapeView>, args: Seq<ShapeView> },
    Function { args: Seq<ShapeView>, result: Box<ShapeView> },
    Base { kind: BaseShapeKind },
    Named { name: Seq<char> },
    Unknown,
}

/// A generic shape taken apart: what is applied, and to what.
#[derive(Debug)]
pub struct GenericShape {
    pub base: Shape,
    pub args: Vec<Shape>,
}

impl Shape {
    /// The value of a shape, with every sequence and string taken by its view.
    pub open spec fn model(self) -> ShapeView
        decreases self,
    {
        match self {
            Shape::GenericShapeConstructor { base, args } => ShapeView::GenericCtor {
                base: Box::new(base.model()),
                arity: args,
            },
            Shape::GenericShape { base, args } => ShapeView::Generic {
                base: Box::new(base.model()),
                args: Seq::new(
                    args@.len(),
                    |i: int|
                        if 0 <= i < args@.len() {
                            args@[i].model()
                        } else {
                            ShapeView::Unknown
                        },
                ),
            },
            Shape::SimpleFunctionShape { args, result } => ShapeView::Function {
                args: Seq::new(
                    args@.len(),
                    |i: int|
                        if 0 <= i < args@.len() {
                            args@[i].model()
                        } else {
                            ShapeView::Unknown
                        },
                ),
                result: Box::new(result.model()),
            },
            Shape::BaseShape { kind } => ShapeView::Base { kind },
            Shape::NamedShape { name } => ShapeView::Named { name: name@ },
            Shape::UnknownShape => ShapeView::Unknown,
        }
    }

    /// The arguments of a generic or function shape are seen one by one.
    pub proof fn lemma_model(self)
        ensures
            match self {
                Shape::GenericShape { base, args } => self@ == (ShapeView::Generic {
                    base: Box::new(base@),
                    args: views(args@),
                }),
                Shape::SimpleFunctionShape { args, result } => self@ == (ShapeView::Function {
                    args: views(args@),
                    result: Box::new(result@),
                }),
                _ => true,
            },
    {
        match self {
            Shape::GenericShape { base, args } => {
                assert(self@->Generic_args =~= views(args@));
            },
            Shape::SimpleFunctionShape { args, result } => {
                assert(self@->Function_args =~= views(args@));
            },
            _ => {},
        }
    }
}

impl View for Shape {
    type V = ShapeView;

    open spec fn view(&self) -> ShapeView {
        self.model()
    }
}

/// A copy of each shape of `shapes`, in order.
pub fn clone_shapes(shapes: &Vec<Shape>) -> (r: Vec<Shape>)
    ensures
        views(r@) == views(shapes@),
{
    let mut out: Vec<Shape> = Vec::new();
    let mut i: usize = 0;
    while i < shapes.len()
        invariant
            i <= shapes.len(),
            out@.len() == i,
            forall|j: int| 0 <= j < i ==> out@[j]@ == shapes@[j]@,
        decreases shapes.len() - i,
    {
        out.push(shapes[i].clone());
        i += 1;
    }
    assert(views(out@) =~= views(shapes@));
    out
}

impl Clone for Shape {
    #[verifier::loop_isolation(false)]
    fn clone(&self) -> (r: Self)
        ensures
            r@ == self@,
        decreases self,
    {
        match self {
            Shape::GenericShapeConstructor { base, args } => Shape::GenericShapeConstructor {
                base: Box::new((**base).clone()),
                args: *args,
            },
            Shape::GenericShape { base, args } => {
                let mut out: Vec<Shape> = Vec::new();
                let mut i: usize = 0;
                while i < args.len()
                    invariant
                        i <= args.len(),
                        out@.len() == i,
                        forall|j: int| 0 <= j < i ==> out@[j]@ == args@[j]@,
                    decreases args.len() - i,
                {
                    proof {
                        broadcast use vstd::std_specs::vec::axiom_vec_index_decreases;

                    }
                    out.push(args[i].clone());
                    i += 1;
                }
                let r = Shape::GenericShape { base: Box::new((**base).clone()), args: out };
                assert(r@->Generic_args =~= self@->Generic_args);
                r
            },
            Shape::SimpleFunctionShape { args, result } => {
                let mut out: Vec<Shape> = Vec::new();
                let mut i: usize = 0;
                while i < args.len()
                    invariant
                        i <= args.len(),
                        out@.len() == i,
                        forall|j: int| 0 <= j < i ==> out@[j]@ == args@[j]@,
                    decreases args.len() - i,
                {
                    proof {
                        broadcast use vstd::std_specs::vec::axiom_vec_index_decreases;

                    }
                    out.push(args[i].clone());
                    i += 1;
                }
                let r = Shape::SimpleFunctionShape {
                    args: out,
                    result: Box::new((**result).clone()),
                };
                assert(r@->Function_args =~= self@->Function_args);
                r
            },
            Shape::BaseShape { kind } => Shape::BaseShape { kind: *kind },
            Shape::NamedShape { name } => Shape::NamedShape { name: name.clone() },
            Shape::UnknownShape => Shape::UnknownShape,
        }
    }
}

impl Shape {
    /// Whether two shapes are structurally the same.
    #[verifier::loop_isolation(false)]
    pub fn same(&self, other: &Shape) -> (r: bool)
        ensures
            r == (self@ == other@),
        decreases self,
    {
        proof {
            self.lemma_model();
            other.lemma_model();
        }
        match (self, other) {
            (
                Shape::GenericShapeConstructor { base: b1, args: a1 },
                Shape::GenericShapeConstructor { base: b2, args: a2 },
            ) => *a1 == *a2 && (**b1).same(&**b2),
            (
                Shape::GenericShape { base: b1, args: a1 },
                Shape::GenericShape { base: b2, args: a2 },
            ) => {
                if a1.len() != a2.len() {
                    assert(views(a1@).len() != views(a2@).len());
                    return false;
                }
                let mut i: usize = 0;
                while i < a1.len()
                    invariant
                        i <= a1.len(),
                        a1.len() == a2.len(),
                        forall|j: int| 0 <= j < i ==> a1@[j]@ == a2@[j]@,
                    decreases a1.len() - i,
                {
                    proof {
                        broadcast use vstd::std_specs::vec::axiom_vec_index_decreases;

                    }
                    if !a1[i].same(&a2[i]) {
                        assert(views(a1@)[i as int] != views(a2@)[i as int]);
                        return false;
                    }
                    i += 1;
                }
                assert(views(a1@) =~= views(a2@));
                (**b1).same(&**b2)
            },
            (
                Shape::SimpleFunctionShape { args: a1, result: r1 },
                Shape::SimpleFunctionShape { args: a2, result: r2 },
            ) => {
                if a1.len() != a2.len() {
                    assert(views(a1@).len() != views(a2@).len());
                    return false;
                }
                let mut i: usize = 0;
                while i < a1.len()
                    invariant
                        i <= a1.len(),
                        a1.len() == a2.len(),
                        forall|j: int| 0 <= j < i ==> a1@[j]@ == a2@[j]@,
                    decreases a1.len() - i,
                {
                    proof {
                        broadcast use vstd::std_specs::vec::axiom_vec_index_decreases;

                    }
                    if !a1[i].same(&a2[i]) {
                        assert(views(a1@)[i as int] != views(a2@)[i as int]);
                        return false;
                    }
                    i += 1;
                }
                assert(views(a1@) =~= views(a2@));
                (**r1).same(&**r2)
            },
            (Shape::BaseShape { kind: k1 }, Shape::BaseShape { kind: k2 }) => *k1 == *k2,
            (Shape::NamedShape { name: n1 }, Shape::NamedShape { name: n2 }) => *n1 == *n2,
            (Shape::UnknownShape, Shape::UnknownShape) => true,
            _ => false,
        }
    }
}

impl PartialEq for Shape {
    fn eq(&self, other: &Shape) -> (r: bool) {
        self.same(other)
    }
}

impl vstd::std_specs::cmp::PartialEqSpecImpl for Shape {
    open spec fn obeys_eq_spec() -> bool {
        true
    }

    open spec fn eq_spec(&self, other: &Shape) -> bool {
        self@ == other@
    }
}

impl Eq for Shape {

}

/// The shape of one of the five primitives.
pub open spec fn base(kind: BaseShapeKind) -> ShapeView {
    ShapeView::Base { kind }
}

/// The shape of a list of `arg`.
pub open spec fn list_of(arg: ShapeView) -> ShapeView {
    ShapeView::Generic { base: Box::new(base(BaseShapeKind::List)), args: seq![arg] }
}

/// The shape of a function from `args` to `result`.
pub open spec fn function_of(args: Seq<ShapeView>, result: ShapeView) -> ShapeView {
    ShapeView::Function { args, result: Box::new(result) }
}

pub fn shape_named(name: String) -> (r: Shape)
    ensures
        r@ == (ShapeView::Named { name: name@ }),
{
    Shape::NamedShape { name }
}

pub fn shape_float() -> (r: Shape)
    ensures
        r@ == base(BaseShapeKind::Float),
{
    Shape::BaseShape { kind: BaseShapeKind::Float }
}

pub fn shape_string() -> (r: Shape)
    ensures
        r@ == base(BaseShapeKind::String),
{
    Shape::BaseShape { kind: BaseShapeKind::String }
}

pub fn shape_boolean() -> (r: Shape)
    ensures
        r@ == base(BaseShapeKind::Boolean),
{
    Shape::BaseShape { kind: BaseShapeKind::Boolean }
}

pub fn shape_unit() -> (r: Shape)
    ensures
        r@ == base(BaseShapeKind::Unit),
{
    Shape::BaseShape { kind: BaseShapeKind::Unit }
}

pub fn shape_list(arg: Shape) -> (r: Shape)
    ensures
        r@ == list_of(arg@),
{
    let mut args: Vec<Shape> = Vec::new();
    args.push(arg);
    let r = Shape::GenericShape {
        base: Box::new(Shape::BaseShape { kind: BaseShapeKind::List }),
        args,
    };
    proof {
        r.lemma_model();
        assert(views(args@) =~= seq![arg@]);
    }
    r
}

pub fn shape_unknown() -> (r: Shape)
    ensures
        r@ == ShapeView::Unknown,
{
    Shape::UnknownShape
}

/// The shape of a function from `args` to `result`.
pub fn shape_function(args: Vec<Shape>, result: Shape) -> (r: Shape)
    ensures
        r@ == function_of(views(args@), result@),
{
    let r = Shape::SimpleFunctionShape { args, result: Box::new(result) };
    proof {
        r.lemma_model();
    }
    r
}

/// The primitive shape that `name` stands for, if it names one.
pub open spec fn builtin_shape(name: Seq<char>) -> Option<ShapeView> {
    if name == "String"@ {
        Some(base(BaseShapeKind::String))
    } else if name == "Float"@ {
        Some(base(BaseShapeKind::Float))
    } else if name == "Unit"@ {
        Some(base(BaseShapeKind::Unit))
    } else if name == "Boolean"@ {
        Some(base(BaseShapeKind::Boolean))
    } else {
        None
    }
}

/// Whether every item is there.
pub open spec fn all_some<T>(s: Seq<Option<T>>) -> bool {
    forall|i: int| 0 <= i < s.len() ==> (#[trigger] s[i]) is Some
}

/// The items themselves, where all are there.
pub open spec fn unwrap_all<T>(s: Seq<Option<T>>) -> Seq<T> {
    Seq::new(s.len(), |i: int| s[i].unwrap())
}

/// Each shape of `args` filled, or `None` in its place.
pub open spec fn fill_each(args: Seq<ShapeView>) -> Seq<Option<ShapeView>>
    decreases args, 0nat,
{
    Seq::new(
        args.len(),
        |i: int|
            if 0 <= i < args.len() {
                fill_spec(args[i])
            } else {
                None
            },
    )
}

/// The shape with every name in it replaced by the primitive shape that it
/// names; `None` where a name in it names none.
pub open spec fn fill_spec(s: ShapeView) -> Option<ShapeView>
    decreases s, 1nat,
{
    match s {
        ShapeView::GenericCtor { base, arity } => match fill_spec(*base) {
            Some(b) => Some(ShapeView::GenericCtor { base: Box::new(b), arity }),
            None => None,
        },
        ShapeView::Generic { base, args } => match fill_spec(*base) {
            Some(b) => if all_some(fill_each(args)) {
                Some(ShapeView::Generic { base: Box::new(b), args: unwrap_all(fill_each(args)) })
            } else {
                None
            },
            None => None,
        },
        ShapeView::Function { args, result } => match fill_spec(*result) {
            Some(r) => if all_some(fill_each(args)) {
                Some(
                    ShapeView::Function { args: unwrap_all(fill_each(args)), result: Box::new(r) },
                )
            } else {
                None
            },
            None => None,
        },
        ShapeView::Named { name } => builtin_shape(name),
        ShapeView::Base { kind } => Some(s),
        ShapeView::Unknown => Some(s),
    }
}

/// Fills each shape of `shapes`; fails where one of them holds a name that
/// names no primitive.
pub fn fill_shapes(shapes: &Vec<Shape>, loc: &Location) -> (r: Result<Vec<Shape>, LangError>)
    ensures
        match r {
            Ok(v) => v@.len() == shapes@.len() && forall|j: int|
                0 <= j < shapes@.len() ==> fill_spec(shapes@[j]@) == Some(#[trigger] v@[j]@),
            Err(e) => e@ == error_at(ErrorKind::UnresolvedNamedShape, loc@) && exists|j: int|
                0 <= j < shapes@.len() && fill_spec(#[trigger] shapes@[j]@) is None,
        },
    decreases shapes, 0nat,
{
    let mut out: Vec<Shape> = Vec::new();
    let mut i: usize = 0;
    while i < shapes.len()
        invariant
            i <= shapes.len(),
            out@.len() == i,
            forall|j: int| 0 <= j < i ==> fill_spec(shapes@[j]@) == Some(#[trigger] out@[j]@),
        decreases shapes.len() - i,
    {
        proof {
            broadcast use vstd::std_specs::vec::axiom_vec_index_decreases;

        }
        match fill_shape(&shapes[i], loc) {
            Ok(s) => out.push(s),
            Err(e) => {
                assert(fill_spec(shapes@[i as int]@) is None);
                return Err(e);
            },
        }
        i += 1;
    }
    Ok(out)
}

/// Replaces every name in `shape` by the primitive shape that it names. Fails,
/// with the place `loc`, where a name names none.
pub fn fill_shape(shape: &Shape, loc: &Location) -> (r: Result<Shape, LangError>)
    ensures
        match r {
            Ok(s) => fill_spec(shape@) == Some(s@),
            Err(e) => fill_spec(shape@) is None && e@ == error_at(
                ErrorKind::UnresolvedNamedShape,
                loc@,
            ),
        },
    decreases shape, 1nat,
{
    proof {
        shape.lemma_model();
    }
    match shape {
        Shape::GenericShapeConstructor { base, args } => {
            let b = fill_shape(&**base, loc)?;
            Ok(Shape::GenericShapeConstructor { base: Box::new(b), args: *args })
        },
        Shape::GenericShape { base, args } => {
            let ghost filled = fill_each(views(args@));
            match fill_shapes(args, loc) {
                Ok(v) => {
                    let b = fill_shape(&**base, loc)?;
                    let r = Shape::GenericShape { base: Box::new(b), args: v };
                    proof {
                        r.lemma_model();
                        assert forall|i: int| 0 <= i < filled.len() implies (#[trigger] filled[i])
                            == Some(v@[i]@) by {
                            assert(fill_spec(args@[i]@) == Some(v@[i]@));
                        }
                        assert(views(v@) =~= unwrap_all(filled));
                    }
                    Ok(r)
                },
                Err(e) => {
                    let ghost j = choose|j: int|
                        0 <= j < args@.len() && fill_spec(#[trigger] args@[j]@) is None;
                    assert(filled[j] is None);
                    Err(e)
                },
            }
        },
        Shape::SimpleFunctionShape { args, result } => {
            let ghost filled = fill_each(views(args@));
            match fill_shapes(args, loc) {
                Ok(v) => {
                    let b = fill_shape(&**result, loc)?;
                    let r = Shape::SimpleFunctionShape { args: v, result: Box::new(b) };
                    proof {
                        r.lemma_model();
                        assert forall|i: int| 0 <= i < filled.len() implies (#[trigger] filled[i])
                            == Some(v@[i]@) by {
                            assert(fill_spec(args@[i]@) == Some(v@[i]@));
                        }
                        assert(views(v@) =~= unwrap_all(filled));
                    }
                    Ok(r)
                },
                Err(e) => {
                    let ghost j = choose|j: int|
                        0 <= j < args@.len() && fill_spec(#[trigger] args@[j]@) is None;
                    assert(filled[j] is None);
                    Err(e)
                },
            }
        },
        Shape::NamedShape { name } => {
            if text_is(name, "String") {
                Ok(shape_string())
            } else if text_is(name, "Float") {
                Ok(shape_float())
            } else if text_is(name, "Unit") {
                Ok(shape_unit())
            } else if text_is(name, "Boolean") {
                Ok(shape_boolean())
            } else {
                Err(LangError::at(ErrorKind::UnresolvedNamedShape, loc))
            }
        },
        Shape::BaseShape { kind } => Ok(Shape::BaseShape { kind: *kind }),
        Shape::UnknownShape => Ok(Shape::UnknownShape),
    }
}

/// The name under which a primitive shape is written.
pub open spec fn kind_name(kind: BaseShapeKind) -> Seq<char> {
    match kind {
        BaseShapeKind::Boolean => "Boolean"@,
        BaseShapeKind::Float => "Float"@,
        BaseShapeKind::String => "String"@,
        BaseShapeKind::Unit => "Unit"@,
        BaseShapeKind::List => "List"@,
    }
}

/// Each shape of `args` as it is written.
pub open spec fn pretty_each(args: Seq<ShapeView>) -> Seq<Seq<char>>
    decreases args, 0nat,
{
    Seq::new(
        args.len(),
        |i: int|
            if 0 <= i < args.len() {
                pretty_spec(args[i])
            } else {
                Seq::empty()
            },
    )
}

/// A shape as it is written: a primitive by its name, a generic shape as its
/// base with the arguments in square brackets (an underscore for each where
/// only their number is known), a function shape as its arguments, an arrow
/// and its result in curly brackets.
pub open spec fn pretty_spec(s: ShapeView) -> Seq<char>
    decreases s, 1nat,
{
    match s {
        ShapeView::GenericCtor { base, arity } => pretty_spec(*base) + "["@ + join_spec(
            Seq::new(arity as nat, |i: int| "_"@),
            ", "@,
        ) + "]"@,
        ShapeView::Generic { base, args } => pretty_spec(*base) + "["@ + join_spec(
            pretty_each(args),
            ", "@,
        ) + "]"@,
        ShapeView::Function { args, result } => "{ "@ + join_spec(pretty_each(args), ", "@) + " -> "@
            + pretty_spec(*result) + " }"@,
        ShapeView::Base { kind } => kind_name(kind),
        ShapeView::Named { name } => name,
        ShapeView::Unknown => "Unknown"@,
    }
}

/// Puts the shapes `args`, as they are written, at the end of `out`, with a
/// comma and a blank between each two.
fn append_shapes(out: &mut String, args: &Vec<Shape>)
    ensures
        final(out)@ == old(out)@ + join_spec(pretty_each(views(args@)), ", "@),
    decreases args, 0nat,
{
    let ghost start = out@;
    let ghost parts = pretty_each(views(args@));
    let mut i: usize = 0;
    proof {
        assert(parts.take(0) =~= Seq::<Seq<char>>::empty());
        assert(start + Seq::<char>::empty() =~= start);
    }
    while i < args.len()
        invariant
            i <= args@.len(),
            parts == pretty_each(views(args@)),
            out@ == start + join_spec(parts.take(i as int), ", "@),
        decreases args@.len() - i,
    {
        proof {
            broadcast use vstd::std_specs::vec::axiom_vec_index_decreases;

            lemma_join_next(parts, ", "@, i as int);
        }
        if i > 0 {
            out.append(", ");
        }
        let part = args[i].pretty();
        out.append(part.as_str());
        proof {
            assert(parts[i as int] == part@);
            if i > 0 {
                assert(out@ =~= start + (join_spec(parts.take(i as int), ", "@) + ", "@ + part@));
            } else {
                assert(join_spec(parts.take(0), ", "@) =~= Seq::<char>::empty());
                assert(out@ =~= start + part@);
            }
        }
        i += 1;
    }
    proof {
        assert(parts.take(args@.len() as int) =~= parts);
    }
}

/// Puts `count` underscores at the end of `out`, with a comma and a blank
/// between each two.
fn append_blanks(out: &mut String, count: u8)
    ensures
        final(out)@ == old(out)@ + join_spec(Seq::new(count as nat, |i: int| "_"@), ", "@),
{
    let ghost start = out@;
    let ghost parts = Seq::new(count as nat, |i: int| "_"@);
    let mut i: u8 = 0;
    proof {
        assert(parts.take(0) =~= Seq::<Seq<char>>::empty());
        assert(start + Seq::<char>::empty() =~= start);
    }
    while i < count
        invariant
            i <= count,
            parts == Seq::new(count as nat, |i: int| "_"@),
            out@ == start + join_spec(parts.take(i as int), ", "@),
        decreases count - i,
    {
        proof {
            lemma_join_next(parts, ", "@, i as int);
        }
        if i > 0 {
            out.append(", ");
        }
        out.append("_");
        proof {
            if i > 0 {
                assert(out@ =~= start + (join_spec(parts.take(i as int), ", "@) + ", "@ + "_"@));
            } else {
                assert(join_spec(parts.take(0), ", "@) =~= Seq::<char>::empty());
                assert(out@ =~= start + "_"@);
            }
        }
        i += 1;
    }
    proof {
        assert(parts.take(count as int) =~= parts);
    }
}

impl Shape {
    /// The shape as it is written.
    pub fn pretty(&self) -> (r: String)
        ensures
            r@ == pretty_spec(self@),
        decreases self, 1nat,
    {
        proof {
            self.lemma_model();
        }
        match self {
            Shape::GenericShapeConstructor { base, args } => {
                let mut out = (**base).pretty();
                out.append("[");
                append_blanks(&mut out, *args);
                out.append("]");
                out
            },
            Shape::GenericShape { base, args } => {
                let mut out = (**base).pretty();
                out.append("[");
                append_shapes(&mut out, args);
                out.append("]");
                out
            },
            Shape::SimpleFunctionShape { args, result } => {
                let mut out = String::from_str("{ ");
                append_shapes(&mut out, args);
                out.append(" -> ");
                let result_name = (**result).pretty();
                out.append(result_name.as_str());
                out.append(" }");
                out
            },
            Shape::BaseShape { kind } => match kind {
                BaseShapeKind::Boolean => String::from_str("Boolean"),
                BaseShapeKind::Float => String::from_str("Float"),
                BaseShapeKind::String => String::from_str("String"),
                BaseShapeKind::Unit => String::from_str("Unit"),
                BaseShapeKind::List => String::from_str("List"),
            },
            Shape::NamedShape { name } => name.clone(),
            Shape::UnknownShape => String::from_str("Unknown"),
        }
    }

    /// The shape with every name in it replaced by the primitive shape that
    /// it names. Every name in the shape must name one.
    pub fn fill_shape_native(self) -> (r: Shape)
        requires
            fill_spec(self@) is Some,
        ensures
            fill_spec(self@) == Some(r@),
    {
        let loc = Location { src: String::from_str("<native>"), x: 0, y: 0 };
        match fill_shape(&self, &loc) {
            Ok(shape) => shape,
            Err(_) => self,
        }
    }
}

} // verus!
