use vstd::prelude::*;
use crate::shapes::{
    BaseShapeKind,
    Shape,
    ShapeView,
    base,
    function_of,
    shape_boolean,
    shape_function,
    shape_unit,
};
use crate::error::{ErrorKind, LangError, error_at};
use crate::shapes::pretty_spec;
use crate::support::{views, group_views};
use crate::text::{append_decimal, decimal_spec};

verus! {

/// A place in a source file.
#[derive(Debug)]
pub struct Location {
    pub src: String,
    pub x: usize,
    pub y: usize,
}

/// The mathematical value of a [`Location`].
pub struct LocationView {
    pub src: Seq<char>,
    pub x: usize,
    pub y: usize,
}

impl View for Location {
    type V = LocationView;

    open spec fn view(&self) -> LocationView {
        LocationView { src: self.src@, x: self.x, y: self.y }
    }
}

impl Clone for Location {
    fn clone(&self) -> (r: Self)
        ensures
            r@ == self@,
    {
        Location { src: self.src.clone(), x: self.x, y: self.y }
    }
}

impl LocationView {
    /// The place as it is written in messages.
    pub open spec fn pretty(self) -> Seq<char> {
        "at file: "@ + self.src + ", line: "@ + decimal_spec(self.y as nat) + ", column: "@
            + decimal_spec(self.x as nat)
    }
}

impl Location {
    /// The place as it is written in messages: file, line and column.
    pub fn pretty(&self) -> (r: String)
        ensures
            r@ == self@.pretty(),
    {
        let mut out = String::from_str("at file: ");
        out.append(self.src.as_str());
        out.append(", line: ");
        append_decimal(&mut out, self.y as u64);
        out.append(", column: ");
        append_decimal(&mut out, self.x as u64);
        out
    }

    /// The failure of kind `kind` at this place.
    pub fn fail<T>(&self, kind: ErrorKind) -> (r: Result<T, LangError>)
        ensures
            match r {
                Err(e) => e@ == error_at(kind, self@),
                Ok(_) => false,
            },
    {
        Err(LangError::at(kind, self))
    }

    /// The error of kind `kind` at this place.
    pub fn error(&self, kind: ErrorKind) -> (r: LangError)
        ensures
            r@ == error_at(kind, self@),
    {
        LangError::at(kind, self)
    }
}

/// A name with its shape: an argument of a function, or a captured variable.
#[derive(Debug)]
pub struct Parameter {
    pub id: String,
    pub shape: Shape,
}

/// The mathematical value of a [`Parameter`].
pub struct ParameterView {
    pub id: Seq<char>,
    pub shape: ShapeView,
}

impl View for Parameter {
    type V = ParameterView;

    open spec fn view(&self) -> ParameterView {
        ParameterView { id: self.id@, shape: self.shape@ }
    }
}

impl Clone for Parameter {
    fn clone(&self) -> (r: Self)
        ensures
            r@ == self@,
    {
        Parameter { id: self.id.clone(), shape: self.shape.clone() }
    }
}

impl ParameterView {
    /// The parameter as it is written: name, colon, shape.
    pub open spec fn pretty(self) -> Seq<char> {
        self.id + ": "@ + pretty_spec(self.shape)
    }
}

impl Parameter {
    /// The parameter as it is written.
    pub fn pretty(&self) -> (r: String)
        ensures
            r@ == self@.pretty(),
    {
        let mut out = self.id.clone();
        out.append(": ");
        let shape = self.shape.pretty();
        out.append(shape.as_str());
        out
    }
}

/// A copy of each parameter of `params`, in order.
pub fn clone_parameters(params: &Vec<Parameter>) -> (r: Vec<Parameter>)
    ensures
        views(r@) == views(params@),
{
    let mut out: Vec<Parameter> = Vec::new();
    let mut i: usize = 0;
    while i < params.len()
        invariant
            i <= params.len(),
            out@.len() == i,
            forall|j: int| 0 <= j < i ==> out@[j]@ == params@[j]@,
        decreases params.len() - i,
    {
        out.push(params[i].clone());
        i += 1;
    }
    assert(views(out@) =~= views(params@));
    out
}

/// The shapes of `params`, in order.
pub open spec fn shapes_of(params: Seq<ParameterView>) -> Seq<ShapeView> {
    Seq::new(params.len(), |i: int| params[i].shape)
}

/// The names of `params`, in order.
pub open spec fn ids_of(params: Seq<ParameterView>) -> Seq<Seq<char>> {
    Seq::new(params.len(), |i: int| params[i].id)
}

/// What the type checker finds out about a function: how it was written, whether
/// it calls itself, and which variables of enclosing functions it uses.
#[derive(Debug)]
pub struct FunctionContext {
    pub is_lambda: bool,
    pub is_local: bool,
    pub is_recursive: bool,
    pub closures: Vec<Parameter>,
}

/// The mathematical value of a [`FunctionContext`].
pub struct FunctionContextView {
    pub is_lambda: bool,
    pub is_local: bool,
    pub is_recursive: bool,
    pub closures: Seq<ParameterView>,
}

impl View for FunctionContext {
    type V = FunctionContextView;

    open spec fn view(&self) -> FunctionContextView {
        FunctionContextView {
            is_lambda: self.is_lambda,
            is_local: self.is_local,
            is_recursive: self.is_recursive,
            closures: views(self.closures@),
        }
    }
}

impl FunctionContext {
    pub fn new(is_local: bool, is_lambda: bool) -> (r: FunctionContext)
        ensures
            r@ == (FunctionContextView {
                is_lambda,
                is_local,
                is_recursive: false,
                closures: Seq::empty(),
            }),
    {
        proof {
            broadcast use group_views;

        }
        FunctionContext { is_local, is_lambda, is_recursive: false, closures: Vec::new() }
    }

    pub fn set_closures(&self, closures: Vec<Parameter>) -> (r: FunctionContext)
        ensures
            r@ == (FunctionContextView { closures: views(closures@), ..self@ }),
    {
        FunctionContext {
            is_local: self.is_local,
            is_lambda: self.is_lambda,
            is_recursive: self.is_recursive,
            closures,
        }
    }

    pub fn set_is_recursive(&self, is_recursive: bool) -> (r: FunctionContext)
        ensures
            r@ == (FunctionContextView { is_recursive, ..self@ }),
    {
        FunctionContext {
            is_local: self.is_local,
            is_lambda: self.is_lambda,
            is_recursive,
            closures: clone_parameters(&self.closures),
        }
    }
}

/// An expression of the language.
#[derive(Debug)]
pub enum Expression {
    NoOp(Location),
    FunctionDeclaration(Box<FunctionDeclarationEx>),
    Assignment(Box<AssignmentEx>),
    Variable(Box<VariableEx>),
    BinaryOp(Box<BinaryOpEx>),
    Call(Box<CallEx>),
    If(Box<IfEx>),
    Block(Box<BlockEx>),
    StringLiteral(Box<StringLiteralEx>),
    NumberLiteral(Box<NumberLiteralEx>),
    BooleanLiteral(Location, bool),
}

#[derive(Debug)]
pub struct FunctionDeclarationEx {
    pub result: Shape,
    pub loc: Location,
    pub id: String,
    pub args: Vec<Parameter>,
    pub body: Expression,
    pub context: FunctionContext,
}

#[derive(Debug)]
pub struct AssignmentEx {
    pub shape: Shape,
    pub loc: Location,
    pub id: String,
    pub body: Expression,
}

#[derive(Debug)]
pub struct VariableEx {
    pub shape: Shape,
    pub loc: Location,
    pub id: String,
}

#[derive(Debug)]
pub struct BinaryOpEx {
    pub shape: Shape,
    pub loc: Location,
    pub op: String,
    pub left: Expression,
    pub right: Expression,
}

#[derive(Debug)]
pub struct CallEx {
    pub shape: Shape,
    pub loc: Location,
    pub func: Expression,
    pub args: Vec<Expression>,
}

#[derive(Debug)]
pub struct IfEx {
    pub shape: Shape,
    pub loc: Location,
    pub condition: Expression,
    pub then_block: Expression,
    pub else_block: Expression,
}

#[derive(Debug)]
pub struct BlockEx {
    pub shape: Shape,
    pub loc: Location,
    pub body: Vec<Expression>,
}

#[derive(Debug)]
pub struct StringLiteralEx {
    pub shape: Shape,
    pub loc: Location,
    pub value: String,
}

/// A number literal; `value` holds the 64 bits of its binary representation.
#[derive(Debug)]
pub struct NumberLiteralEx {
    pub shape: Shape,
    pub loc: Location,
    pub value: u64,
}

/// The mathematical value of an [`Expression`].
#[allow(inconsistent_fields)]
pub enum ExprView {
    NoOp { loc: LocationView },
    FunctionDeclaration {
        result: ShapeView,
        loc: LocationView,
        id: Seq<char>,
        params: Seq<ParameterView>,
        body: Box<ExprView>,
        context: FunctionContextView,
    },
    Assignment { shape: ShapeView, loc: LocationView, id: Seq<char>, body: Box<ExprView> },
    Variable { shape: ShapeView, loc: LocationView, id: Seq<char> },
    BinaryOp {
        shape: ShapeView,
        loc: LocationView,
        op: Seq<char>,
        left: Box<ExprView>,
        right: Box<ExprView>,
    },
    Call { shape: ShapeView, loc: LocationView, func: Box<ExprView>, args: Seq<ExprView> },
    If {
        shape: ShapeView,
        loc: LocationView,
        condition: Box<ExprView>,
        then_block: Box<ExprView>,
        else_block: Box<ExprView>,
    },
    Block { shape: ShapeView, loc: LocationView, items: Seq<ExprView> },
    StringLiteral { shape: ShapeView, loc: LocationView, value: Seq<char> },
    NumberLiteral { shape: ShapeView, loc: LocationView, value: u64 },
    BooleanLiteral { loc: LocationView, value: bool },
}

impl Expression {
    /// The expression with every sequence and string in it taken by its view.
    pub open spec fn model(self) -> ExprView
        decreases self,
    {
        match self {
            Expression::NoOp(loc) => ExprView::NoOp { loc: loc@ },
            Expression::FunctionDeclaration(ex) => ExprView::FunctionDeclaration {
                result: ex.result@,
                loc: ex.loc@,
                id: ex.id@,
                params: views(ex.args@),
                body: Box::new(ex.body.model()),
                context: ex.context@,
            },
            Expression::Assignment(ex) => ExprView::Assignment {
                shape: ex.shape@,
                loc: ex.loc@,
                id: ex.id@,
                body: Box::new(ex.body.model()),
            },
            Expression::Variable(ex) => ExprView::Variable {
                shape: ex.shape@,
                loc: ex.loc@,
                id: ex.id@,
            },
            Expression::BinaryOp(ex) => ExprView::BinaryOp {
                shape: ex.shape@,
                loc: ex.loc@,
                op: ex.op@,
                left: Box::new(ex.left.model()),
                right: Box::new(ex.right.model()),
            },
            Expression::Call(ex) => ExprView::Call {
                shape: ex.shape@,
                loc: ex.loc@,
                func: Box::new(ex.func.model()),
                args: Seq::new(
                    ex.args@.len(),
                    |i: int|
                        if 0 <= i < ex.args@.len() {
                            ex.args@[i].model()
                        } else {
                            ExprView::NoOp { loc: ex.loc@ }
                        },
                ),
            },
            Expression::If(ex) => ExprView::If {
                shape: ex.shape@,
                loc: ex.loc@,
                condition: Box::new(ex.condition.model()),
                then_block: Box::new(ex.then_block.model()),
                else_block: Box::new(ex.else_block.model()),
            },
            Expression::Block(ex) => ExprView::Block {
                shape: ex.shape@,
                loc: ex.loc@,
                items: Seq::new(
                    ex.body@.len(),
                    |i: int|
                        if 0 <= i < ex.body@.len() {
                            ex.body@[i].model()
                        } else {
                            ExprView::NoOp { loc: ex.loc@ }
                        },
                ),
            },
            Expression::StringLiteral(ex) => ExprView::StringLiteral {
                shape: ex.shape@,
                loc: ex.loc@,
                value: ex.value@,
            },
            Expression::NumberLiteral(ex) => ExprView::NumberLiteral {
                shape: ex.shape@,
                loc: ex.loc@,
                value: ex.value,
            },
            Expression::BooleanLiteral(loc, value) => ExprView::BooleanLiteral { loc: loc@, value },
        }
    }

    /// An expression is seen as what it wraps.
    pub proof fn lemma_model(self)
        ensures
            match self {
                Expression::NoOp(loc) => self@ == (ExprView::NoOp { loc: loc@ }),
                Expression::FunctionDeclaration(ex) => self@ == ex@,
                Expression::Assignment(ex) => self@ == ex@,
                Expression::Variable(ex) => self@ == ex@,
                Expression::BinaryOp(ex) => self@ == ex@,
                Expression::Call(ex) => self@ == ex@,
                Expression::If(ex) => self@ == ex@,
                Expression::Block(ex) => self@ == ex@,
                Expression::StringLiteral(ex) => self@ == ex@,
                Expression::NumberLiteral(ex) => self@ == ex@,
                Expression::BooleanLiteral(loc, value) => self@ == (ExprView::BooleanLiteral {
                    loc: loc@,
                    value,
                }),
            },
    {
        match self {
            Expression::Call(ex) => {
                assert(self@->Call_args =~= views(ex.args@));
            },
            Expression::Block(ex) => {
                assert(self@->Block_items =~= views(ex.body@));
            },
            _ => {},
        }
    }
}

impl View for Expression {
    type V = ExprView;

    open spec fn view(&self) -> ExprView {
        self.model()
    }
}

impl ExprView {
    /// The place in the source that the expression came from.
    pub open spec fn loc(self) -> LocationView {
        match self {
            ExprView::NoOp { loc } => loc,
            ExprView::FunctionDeclaration { loc, .. } => loc,
            ExprView::Assignment { loc, .. } => loc,
            ExprView::Variable { loc, .. } => loc,
            ExprView::BinaryOp { loc, .. } => loc,
            ExprView::Call { loc, .. } => loc,
            ExprView::If { loc, .. } => loc,
            ExprView::Block { loc, .. } => loc,
            ExprView::StringLiteral { loc, .. } => loc,
            ExprView::NumberLiteral { loc, .. } => loc,
            ExprView::BooleanLiteral { loc, .. } => loc,
        }
    }

    /// The shape of the expression: the one it carries, that of a function
    /// from its arguments to its result for a declaration, unit for a no-op
    /// and boolean for a truth literal.
    pub open spec fn shape(self) -> ShapeView {
        match self {
            ExprView::NoOp { .. } => base(BaseShapeKind::Unit),
            ExprView::FunctionDeclaration { result, params, .. } => function_of(
                shapes_of(params),
                result,
            ),
            ExprView::Assignment { shape, .. } => shape,
            ExprView::Variable { shape, .. } => shape,
            ExprView::BinaryOp { shape, .. } => shape,
            ExprView::Call { shape, .. } => shape,
            ExprView::If { shape, .. } => shape,
            ExprView::Block { shape, .. } => shape,
            ExprView::StringLiteral { shape, .. } => shape,
            ExprView::NumberLiteral { shape, .. } => shape,
            ExprView::BooleanLiteral { .. } => base(BaseShapeKind::Boolean),
        }
    }
}

/// The shapes of `params`, in order.
pub fn parameter_shapes(params: &Vec<Parameter>) -> (r: Vec<Shape>)
    ensures
        views(r@) == shapes_of(views(params@)),
{
    let mut out: Vec<Shape> = Vec::new();
    let mut i: usize = 0;
    while i < params.len()
        invariant
            i <= params.len(),
            out@.len() == i,
            forall|j: int| 0 <= j < i ==> out@[j]@ == params@[j].shape@,
        decreases params.len() - i,
    {
        out.push(params[i].shape.clone());
        i += 1;
    }
    assert(views(out@) =~= shapes_of(views(params@)));
    out
}

impl Expression {
    pub fn loc(&self) -> (r: &Location)
        ensures
            r@ == self@.loc(),
    {
        match self {
            Expression::NoOp(loc) => loc,
            Expression::FunctionDeclaration(ex) => &ex.loc,
            Expression::Assignment(ex) => &ex.loc,
            Expression::Variable(ex) => &ex.loc,
            Expression::BinaryOp(ex) => &ex.loc,
            Expression::Call(ex) => &ex.loc,
            Expression::If(ex) => &ex.loc,
            Expression::Block(ex) => &ex.loc,
            Expression::StringLiteral(ex) => &ex.loc,
            Expression::NumberLiteral(ex) => &ex.loc,
            Expression::BooleanLiteral(loc, _) => loc,
        }
    }

    pub fn shape(&self) -> (r: Shape)
        ensures
            r@ == self@.shape(),
    {
        match self {
            Expression::NoOp(_) => shape_unit(),
            Expression::FunctionDeclaration(ex) => ex.shape(),
            Expression::Assignment(ex) => ex.shape.clone(),
            Expression::Variable(ex) => ex.shape.clone(),
            Expression::BinaryOp(ex) => ex.shape.clone(),
            Expression::Call(ex) => ex.shape.clone(),
            Expression::If(ex) => ex.shape.clone(),
            Expression::Block(ex) => ex.shape.clone(),
            Expression::StringLiteral(ex) => ex.shape.clone(),
            Expression::NumberLiteral(ex) => ex.shape.clone(),
            Expression::BooleanLiteral(_, _) => shape_boolean(),
        }
    }
}

/// A source module: its functions, in the order in which they were written.
#[derive(Debug)]
pub struct Module {
    pub package: String,
    pub name: String,
    pub functions: Vec<FunctionDeclaration>,
}

/// A function at the top level of a module.
#[derive(Debug)]
pub struct FunctionDeclaration {
    pub visibility: Visibility,
    pub ex: FunctionDeclarationEx,
}

/// Who may use a function. Nothing in the pipeline reads it.
#[derive(Debug, Clone, Copy, PartialEq, Eq, Structural)]
pub enum Visibility {
    Private,
    Protected,
    Internal,
    Public,
}

/// The mathematical value of a [`Module`]: each function as the expression
/// that declares it.
pub struct ModuleView {
    pub package: Seq<char>,
    pub name: Seq<char>,
    pub functions: Seq<ExprView>,
}

impl View for FunctionDeclarationEx {
    type V = ExprView;

    open spec fn view(&self) -> ExprView {
        ExprView::FunctionDeclaration {
            result: self.result@,
            loc: self.loc@,
            id: self.id@,
            params: views(self.args@),
            body: Box::new(self.body@),
            context: self.context@,
        }
    }
}

impl View for AssignmentEx {
    type V = ExprView;

    open spec fn view(&self) -> ExprView {
        ExprView::Assignment {
            shape: self.shape@,
            loc: self.loc@,
            id: self.id@,
            body: Box::new(self.body@),
        }
    }
}

impl View for VariableEx {
    type V = ExprView;

    open spec fn view(&self) -> ExprView {
        ExprView::Variable { shape: self.shape@, loc: self.loc@, id: self.id@ }
    }
}

impl View for BinaryOpEx {
    type V = ExprView;

    open spec fn view(&self) -> ExprView {
        ExprView::BinaryOp {
            shape: self.shape@,
            loc: self.loc@,
            op: self.op@,
            left: Box::new(self.left@),
            right: Box::new(self.right@),
        }
    }
}

impl View for CallEx {
    type V = ExprView;

    open spec fn view(&self) -> ExprView {
        ExprView::Call {
            shape: self.shape@,
            loc: self.loc@,
            func: Box::new(self.func@),
            args: views(self.args@),
        }
    }
}

impl View for IfEx {
    type V = ExprView;

    open spec fn view(&self) -> ExprView {
        ExprView::If {
            shape: self.shape@,
            loc: self.loc@,
            condition: Box::new(self.condition@),
            then_block: Box::new(self.then_block@),
            else_block: Box::new(self.else_block@),
        }
    }
}

impl View for BlockEx {
    type V = ExprView;

    open spec fn view(&self) -> ExprView {
        ExprView::Block { shape: self.shape@, loc: self.loc@, items: views(self.body@) }
    }
}

impl View for StringLiteralEx {
    type V = ExprView;

    open spec fn view(&self) -> ExprView {
        ExprView::StringLiteral { shape: self.shape@, loc: self.loc@, value: self.value@ }
    }
}

impl View for NumberLiteralEx {
    type V = ExprView;

    open spec fn view(&self) -> ExprView {
        ExprView::NumberLiteral { shape: self.shape@, loc: self.loc@, value: self.value }
    }
}

impl View for FunctionDeclaration {
    type V = ExprView;

    open spec fn view(&self) -> ExprView {
        self.ex@
    }
}

impl View for Module {
    type V = ModuleView;

    open spec fn view(&self) -> ModuleView {
        ModuleView { package: self.package@, name: self.name@, functions: views(self.functions@) }
    }
}

impl FunctionDeclarationEx {
    pub fn wrap(self) -> (r: Expression)
        ensures
            r@ == self@,
    {
        Expression::FunctionDeclaration(Box::new(self))
    }

    pub fn shape(&self) -> (r: Shape)
        ensures
            r@ == self@.shape(),
    {
        shape_function(parameter_shapes(&self.args), self.result.clone())
    }
}

impl AssignmentEx {
    pub fn wrap(self) -> (r: Expression)
        ensures
            r@ == self@,
    {
        Expression::Assignment(Box::new(self))
    }
}

impl VariableEx {
    pub fn wrap(self) -> (r: Expression)
        ensures
            r@ == self@,
    {
        Expression::Variable(Box::new(self))
    }
}

impl BinaryOpEx {
    pub fn wrap(self) -> (r: Expression)
        ensures
            r@ == self@,
    {
        Expression::BinaryOp(Box::new(self))
    }
}

impl CallEx {
    pub fn wrap(self) -> (r: Expression)
        ensures
            r@ == self@,
    {
        let r = Expression::Call(Box::new(self));
        proof {
            r.lemma_model();
        }
        r
    }
}

impl IfEx {
    pub fn wrap(self) -> (r: Expression)
        ensures
            r@ == self@,
    {
        Expression::If(Box::new(self))
    }
}

impl BlockEx {
    pub fn wrap(self) -> (r: Expression)
        ensures
            r@ == self@,
    {
        let r = Expression::Block(Box::new(self));
        proof {
            r.lemma_model();
        }
        r
    }
}

impl StringLiteralEx {
    pub fn wrap(self) -> (r: Expression)
        ensures
            r@ == self@,
    {
        Expression::StringLiteral(Box::new(self))
    }
}

impl NumberLiteralEx {
    pub fn wrap(self) -> (r: Expression)
        ensures
            r@ == self@,
    {
        Expression::NumberLiteral(Box::new(self))
    }
}

} // verus!
