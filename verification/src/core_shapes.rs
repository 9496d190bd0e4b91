use vstd::prelude::*;
use crate::lib_core::{core_functions, float_compare_shape, float_list, float_op_shape, list_functions};
use crate::interpreter::RunFunctionView;
use crate::shapes::{
    BaseShapeKind,
    Shape,
    ShapeView,
    base,
    function_of,
    shape_boolean,
    shape_float,
    shape_function,
    shape_list,
};
use crate::support::{index_of, lemma_index_of, views, NameMap, Table};

verus! {

/// The shapes of the functions of one module of the core, by name.
#[derive(Debug)]
pub struct CoreModuleShapes {
    pub functions: NameMap<Shape>,
}

impl View for CoreModuleShapes {
    type V = Table<ShapeView>;

    open spec fn view(&self) -> Table<ShapeView> {
        self.functions@
    }
}

impl CoreModuleShapes {
    /// The shape of the function `name`.
    pub fn lookup(&self, name: &String) -> (r: Option<Shape>)
        requires
            self.functions.wf(),
        ensures
            match r {
                Some(shape) => self@.get(name@) == Some(shape@),
                None => self@.get(name@) is None,
            },
    {
        match self.functions.get(name) {
            Some(shape) => Some(shape.clone()),
            None => None,
        }
    }

    /// The names of the functions, in order.
    pub fn list_values(&self) -> (r: Vec<String>)
        ensures
            views(r@) == self@.names,
    {
        let mut out: Vec<String> = Vec::new();
        let mut i: usize = 0;
        while i < self.functions.names.len()
            invariant
                i <= self.functions.names@.len(),
                out@.len() == i,
                forall|j: int| 0 <= j < i ==> out@[j]@ == self.functions.names@[j]@,
            decreases self.functions.names@.len() - i,
        {
            out.push(self.functions.names[i].clone());
            i += 1;
        }
        assert(views(out@) =~= self@.names);
        out
    }
}

/// The shapes of the modules of one package, by name.
#[derive(Debug)]
pub struct PackageShapesBundle {
    pub modules: NameMap<CoreModuleShapes>,
}

impl View for PackageShapesBundle {
    type V = Table<Table<ShapeView>>;

    open spec fn view(&self) -> Table<Table<ShapeView>> {
        self.modules@
    }
}

impl PackageShapesBundle {
    /// Every table is well formed.
    pub open spec fn wf(&self) -> bool {
        &&& self.modules.wf()
        &&& forall|i: int|
            0 <= i < self.modules.values@.len() ==> (#[trigger] self.modules.values@[i]).functions.wf()
    }

    /// The shapes of the module `module`.
    pub fn lookup_module(&self, module: &String) -> (r: Option<&CoreModuleShapes>)
        requires
            self.wf(),
        ensures
            match r {
                Some(shapes) => self@.get(module@) == Some(shapes@) && shapes.functions.wf(),
                None => self@.get(module@) is None,
            },
    {
        match self.modules.find(module) {
            Some(i) => Some(&self.modules.values[i]),
            None => None,
        }
    }

    /// The shape of the function `name` of the module `module`.
    pub fn lookup(&self, module: &String, name: &String) -> (r: Option<Shape>)
        requires
            self.wf(),
        ensures
            match r {
                Some(shape) => shape_in(self@, module@, name@) == Some(shape@),
                None => shape_in(self@, module@, name@) is None,
            },
    {
        match self.lookup_module(module) {
            Some(shapes) => shapes.lookup(name),
            None => None,
        }
    }
}

/// The shape of the function `name` of the module `module`, where the
/// package has it.
pub open spec fn shape_in(package: Table<Table<ShapeView>>, module: Seq<char>, name: Seq<char>) -> Option<
    ShapeView,
> {
    match package.get(module) {
        Some(shapes) => shapes.get(name),
        None => None,
    }
}

/// The shapes of the operators of the core.
pub open spec fn core_module_shapes() -> Table<ShapeView> {
    let t0 = Table::<ShapeView>::empty();
    let t1 = t0.insert("+"@, float_op_shape());
    let t2 = t1.insert("-"@, float_op_shape());
    let t3 = t2.insert("*"@, float_op_shape());
    let t4 = t3.insert("/"@, float_op_shape());
    let t5 = t4.insert("=="@, float_compare_shape());
    let t6 = t5.insert("!="@, float_compare_shape());
    let t7 = t6.insert(">"@, float_compare_shape());
    let t8 = t7.insert(">="@, float_compare_shape());
    let t9 = t8.insert("<"@, float_compare_shape());
    t9.insert("<="@, float_compare_shape())
}

/// The shapes of the list functions of the core.
pub open spec fn list_module_shapes() -> Table<ShapeView> {
    let number = base(BaseShapeKind::Float);
    let t0 = Table::<ShapeView>::empty();
    let t1 = t0.insert("new"@, function_of(Seq::empty(), float_list()));
    let t2 = t1.insert("append"@, function_of(seq![float_list(), number], float_list()));
    let t3 = t2.insert(
        "map"@,
        function_of(seq![float_list(), function_of(seq![number], number)], float_list()),
    );
    t3.insert(
        "fold"@,
        function_of(seq![float_list(), number, function_of(seq![number, number], number)], number),
    )
}

/// The shapes of the package `Core`.
pub open spec fn core_package_shapes() -> Table<Table<ShapeView>> {
    Table::<Table<ShapeView>>::empty().insert("Core"@, core_module_shapes()).insert(
        "List"@,
        list_module_shapes(),
    )
}

/// Two shapes as a sequence.
fn pair(a: Shape, b: Shape) -> (r: Vec<Shape>)
    ensures
        views(r@) == seq![a@, b@],
{
    let mut v: Vec<Shape> = Vec::new();
    v.push(a);
    v.push(b);
    assert(views(v@) =~= seq![a@, b@]);
    v
}

/// The shapes of the operators of the core.
fn core_module() -> (r: CoreModuleShapes)
    ensures
        r.functions.wf(),
        r@ == core_module_shapes(),
{
    let mut functions: NameMap<Shape> = NameMap::new();
    functions.insert(String::from_str("+"), shape_function(pair(shape_float(), shape_float()), shape_float()));
    functions.insert(String::from_str("-"), shape_function(pair(shape_float(), shape_float()), shape_float()));
    functions.insert(String::from_str("*"), shape_function(pair(shape_float(), shape_float()), shape_float()));
    functions.insert(String::from_str("/"), shape_function(pair(shape_float(), shape_float()), shape_float()));
    functions.insert(String::from_str("=="), shape_function(pair(shape_float(), shape_float()), shape_boolean()));
    functions.insert(String::from_str("!="), shape_function(pair(shape_float(), shape_float()), shape_boolean()));
    functions.insert(String::from_str(">"), shape_function(pair(shape_float(), shape_float()), shape_boolean()));
    functions.insert(String::from_str(">="), shape_function(pair(shape_float(), shape_float()), shape_boolean()));
    functions.insert(String::from_str("<"), shape_function(pair(shape_float(), shape_float()), shape_boolean()));
    functions.insert(String::from_str("<="), shape_function(pair(shape_float(), shape_float()), shape_boolean()));
    CoreModuleShapes { functions }
}

/// The shapes of the list functions of the core.
fn list_module() -> (r: CoreModuleShapes)
    ensures
        r.functions.wf(),
        r@ == list_module_shapes(),
{
    let mut functions: NameMap<Shape> = NameMap::new();
    let none: Vec<Shape> = Vec::new();
    assert(views(none@) =~= Seq::<ShapeView>::empty());
    functions.insert(String::from_str("new"), shape_function(none, shape_list(shape_float())));
    functions.insert(
        String::from_str("append"),
        shape_function(pair(shape_list(shape_float()), shape_float()), shape_list(shape_float())),
    );
    let mut one: Vec<Shape> = Vec::new();
    one.push(shape_float());
    assert(views(one@) =~= seq![base(BaseShapeKind::Float)]);
    let mapper_shape = shape_function(one, shape_float());
    functions.insert(
        String::from_str("map"),
        shape_function(pair(shape_list(shape_float()), mapper_shape), shape_list(shape_float())),
    );
    let reducer_shape = shape_function(pair(shape_float(), shape_float()), shape_float());
    let mut three = pair(shape_list(shape_float()), shape_float());
    let ghost two = three@;
    three.push(reducer_shape);
    proof {
        crate::support::lemma_views_push(two, reducer_shape);
    }
    assert(views(three@) =~= seq![
        float_list(),
        base(BaseShapeKind::Float),
        function_of(
            seq![base(BaseShapeKind::Float), base(BaseShapeKind::Float)],
            base(BaseShapeKind::Float),
        ),
    ]);
    functions.insert(String::from_str("fold"), shape_function(three, shape_float()));
    CoreModuleShapes { functions }
}

/// The shapes of the package `Core`.
pub fn core_package() -> (r: PackageShapesBundle)
    ensures
        r.wf(),
        r@ == core_package_shapes(),
{
    let mut modules: NameMap<CoreModuleShapes> = NameMap::new();
    modules.insert(String::from_str("Core"), core_module());
    modules.insert(String::from_str("List"), list_module());
    PackageShapesBundle { modules }
}

/// The shapes of the functions that every application has: those of the
/// package `Core`.
#[derive(Debug)]
pub struct AppShapes {
    pub packages: NameMap<PackageShapesBundle>,
}

impl View for AppShapes {
    type V = Table<Table<Table<ShapeView>>>;

    open spec fn view(&self) -> Table<Table<Table<ShapeView>>> {
        self.packages@
    }
}

impl AppShapes {
    /// Every table is well formed.
    pub open spec fn wf(&self) -> bool {
        &&& self.packages.wf()
        &&& forall|i: int|
            0 <= i < self.packages.values@.len() ==> (#[trigger] self.packages.values@[i]).wf()
    }

    pub fn new() -> (r: AppShapes)
        ensures
            r.wf(),
            r@ == Table::<Table<Table<ShapeView>>>::empty().insert("Core"@, core_package_shapes()),
    {
        let mut packages: NameMap<PackageShapesBundle> = NameMap::new();
        packages.insert(String::from_str("Core"), core_package());
        AppShapes { packages }
    }

    /// The shapes of the module `module` of `package`.
    pub fn lookup_module(&self, package: &String, module: &String) -> (r: Option<&CoreModuleShapes>)
        requires
            self.wf(),
        ensures
            match r {
                Some(shapes) => self@.get(package@) is Some && self@.get(package@).unwrap().get(
                    module@,
                ) == Some(shapes@) && shapes.functions.wf(),
                None => self@.get(package@) is None || self@.get(package@).unwrap().get(module@) is None,
            },
    {
        match self.packages.find(package) {
            Some(i) => self.packages.values[i].lookup_module(module),
            None => None,
        }
    }

    /// The shape of the function `name` of the module `module` of `package`.
    pub fn lookup(&self, package: &String, module: &String, name: &String) -> (r: Option<Shape>)
        requires
            self.wf(),
        ensures
            match r {
                Some(shape) => self@.get(package@) is Some && shape_in(
                    self@.get(package@).unwrap(),
                    module@,
                    name@,
                ) == Some(shape@),
                None => self@.get(package@) is None || shape_in(
                    self@.get(package@).unwrap(),
                    module@,
                    name@,
                ) is None,
            },
    {
        match self.packages.find(package) {
            Some(i) => self.packages.values[i].lookup(module, name),
            None => None,
        }
    }
}

/// The shape under which a function is called, where it is built in.
pub open spec fn shape_of_function(f: RunFunctionView) -> ShapeView {
    match f {
        RunFunctionView::NativeFunction(native) => native.func_ref.shape,
        RunFunctionView::BitFunction(code) => code.func_ref.shape,
    }
}

/// Whether the shapes are those of the functions, name by name.
pub open spec fn shapes_match(shapes: Table<ShapeView>, functions: Table<RunFunctionView>) -> bool {
    &&& shapes.names == functions.names
    &&& shapes.values.len() == functions.values.len()
    &&& forall|i: int|
        0 <= i < shapes.values.len() ==> (#[trigger] shapes.values[i]) == shape_of_function(
            functions.values[i],
        )
}

/// Shapes and functions stay matched when a function comes in with its
/// shape.
pub proof fn lemma_shapes_match_insert(
    shapes: Table<ShapeView>,
    functions: Table<RunFunctionView>,
    name: Seq<char>,
    f: RunFunctionView,
)
    requires
        shapes_match(shapes, functions),
        shapes.wf(),
    ensures
        shapes_match(shapes.insert(name, shape_of_function(f)), functions.insert(name, f)),
        shapes.insert(name, shape_of_function(f)).wf(),
{
    lemma_index_of(shapes.names, name);
}

/// The shapes that the type checker knows of the core are the shapes of the
/// functions that the machine has built in: of every operator and of every
/// list function, name by name.
pub proof fn lemma_core_shapes_match()
    ensures
        shapes_match(core_module_shapes(), core_functions()),
        shapes_match(list_module_shapes(), list_functions()),
{
    use_float_ops();
    use_list_functions();
}

/// The operators, one by one.
proof fn use_float_ops()
    ensures
        shapes_match(core_module_shapes(), core_functions()),
{
    let s0 = Table::<ShapeView>::empty();
    let f0 = Table::<RunFunctionView>::empty();
    assert(shapes_match(s0, f0));
    let n1 = crate::lib_core::native_entry("Core"@, "+"@, crate::interpreter::NativeOp::Arithmetic(crate::interpreter::FloatOp::Add), float_op_shape());
    lemma_shapes_match_insert(s0, f0, "+"@, n1);
    let (s1, f1) = (s0.insert("+"@, float_op_shape()), f0.insert("+"@, n1));
    let n2 = crate::lib_core::native_entry("Core"@, "-"@, crate::interpreter::NativeOp::Arithmetic(crate::interpreter::FloatOp::Subtract), float_op_shape());
    lemma_shapes_match_insert(s1, f1, "-"@, n2);
    let (s2, f2) = (s1.insert("-"@, float_op_shape()), f1.insert("-"@, n2));
    let n3 = crate::lib_core::native_entry("Core"@, "*"@, crate::interpreter::NativeOp::Arithmetic(crate::interpreter::FloatOp::Multiply), float_op_shape());
    lemma_shapes_match_insert(s2, f2, "*"@, n3);
    let (s3, f3) = (s2.insert("*"@, float_op_shape()), f2.insert("*"@, n3));
    let n4 = crate::lib_core::native_entry("Core"@, "/"@, crate::interpreter::NativeOp::Arithmetic(crate::interpreter::FloatOp::Divide), float_op_shape());
    lemma_shapes_match_insert(s3, f3, "/"@, n4);
    let (s4, f4) = (s3.insert("/"@, float_op_shape()), f3.insert("/"@, n4));
    let n5 = crate::lib_core::native_entry("Core"@, "=="@, crate::interpreter::NativeOp::Arithmetic(crate::interpreter::FloatOp::Equal), float_compare_shape());
    lemma_shapes_match_insert(s4, f4, "=="@, n5);
    let (s5, f5) = (s4.insert("=="@, float_compare_shape()), f4.insert("=="@, n5));
    let n6 = crate::lib_core::native_entry("Core"@, "!="@, crate::interpreter::NativeOp::Arithmetic(crate::interpreter::FloatOp::NotEqual), float_compare_shape());
    lemma_shapes_match_insert(s5, f5, "!="@, n6);
    let (s6, f6) = (s5.insert("!="@, float_compare_shape()), f5.insert("!="@, n6));
    let n7 = crate::lib_core::native_entry("Core"@, ">"@, crate::interpreter::NativeOp::Arithmetic(crate::interpreter::FloatOp::Greater), float_compare_shape());
    lemma_shapes_match_insert(s6, f6, ">"@, n7);
    let (s7, f7) = (s6.insert(">"@, float_compare_shape()), f6.insert(">"@, n7));
    let n8 = crate::lib_core::native_entry("Core"@, ">="@, crate::interpreter::NativeOp::Arithmetic(crate::interpreter::FloatOp::GreaterEqual), float_compare_shape());
    lemma_shapes_match_insert(s7, f7, ">="@, n8);
    let (s8, f8) = (s7.insert(">="@, float_compare_shape()), f7.insert(">="@, n8));
    let n9 = crate::lib_core::native_entry("Core"@, "<"@, crate::interpreter::NativeOp::Arithmetic(crate::interpreter::FloatOp::Less), float_compare_shape());
    lemma_shapes_match_insert(s8, f8, "<"@, n9);
    let (s9, f9) = (s8.insert("<"@, float_compare_shape()), f8.insert("<"@, n9));
    let n10 = crate::lib_core::native_entry("Core"@, "<="@, crate::interpreter::NativeOp::Arithmetic(crate::interpreter::FloatOp::LessEqual), float_compare_shape());
    lemma_shapes_match_insert(s9, f9, "<="@, n10);
}

/// The list functions, one by one.
proof fn use_list_functions()
    ensures
        shapes_match(list_module_shapes(), list_functions()),
{
    let number = base(BaseShapeKind::Float);
    let s0 = Table::<ShapeView>::empty();
    let f0 = Table::<RunFunctionView>::empty();
    assert(shapes_match(s0, f0));
    let h1 = function_of(Seq::empty(), float_list());
    let n1 = crate::lib_core::native_entry("List"@, "new"@, crate::interpreter::NativeOp::ListNew, h1);
    lemma_shapes_match_insert(s0, f0, "new"@, n1);
    let (s1, f1) = (s0.insert("new"@, h1), f0.insert("new"@, n1));
    let h2 = function_of(seq![float_list(), number], float_list());
    let n2 = crate::lib_core::native_entry("List"@, "append"@, crate::interpreter::NativeOp::ListAppend, h2);
    lemma_shapes_match_insert(s1, f1, "append"@, n2);
    let (s2, f2) = (s1.insert("append"@, h2), f1.insert("append"@, n2));
    let h3 = function_of(seq![float_list(), function_of(seq![number], number)], float_list());
    let n3 = crate::lib_core::native_entry("List"@, "map"@, crate::interpreter::NativeOp::ListMap, h3);
    lemma_shapes_match_insert(s2, f2, "map"@, n3);
    let (s3, f3) = (s2.insert("map"@, h3), f2.insert("map"@, n3));
    let h4 = function_of(seq![float_list(), number, function_of(seq![number, number], number)], number);
    let n4 = crate::lib_core::native_entry("List"@, "fold"@, crate::interpreter::NativeOp::ListFold, h4);
    lemma_shapes_match_insert(s3, f3, "fold"@, n4);
}

} // verus!
