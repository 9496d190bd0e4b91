use vstd::prelude::*;
use crate::error::{ErrorKind, LangError, error_of};
use crate::interpreter::{RunFunction, RunFunctionView};
use crate::shapes::{Shape, ShapeView};
use crate::support::{views, NameMap, Table};

verus! {

/// The number of a local slot.
pub type LocalId = u16;

/// The number of a constant in one of a module's tables.
pub type ConstantId = u32;

/// A function by package, module and name. The shape says how to call it and
/// plays no part in telling two references apart.
#[derive(Debug)]
pub struct FunctionRef {
    pub package: String,
    pub module: String,
    pub name: String,
    pub shape: Shape,
}

/// The mathematical value of a [`FunctionRef`].
pub struct FunctionRefView {
    pub package: Seq<char>,
    pub module: Seq<char>,
    pub name: Seq<char>,
    pub shape: ShapeView,
}

impl FunctionRefView {
    /// What tells one function from another: package, module and name.
    pub open spec fn key(self) -> (Seq<char>, Seq<char>, Seq<char>) {
        (self.package, self.module, self.name)
    }

    /// The reference as it is written: package, two colons, module, a dot,
    /// name.
    pub open spec fn pretty(self) -> Seq<char> {
        self.package + "::"@ + self.module + "."@ + self.name
    }

    /// The shape of what a call returns: the result of a function shape, and
    /// any other shape itself.
    pub open spec fn result(self) -> ShapeView {
        match self.shape {
            ShapeView::Function { args, result } => *result,
            _ => self.shape,
        }
    }
}

impl View for FunctionRef {
    type V = FunctionRefView;

    open spec fn view(&self) -> FunctionRefView {
        FunctionRefView {
            package: self.package@,
            module: self.module@,
            name: self.name@,
            shape: self.shape@,
        }
    }
}

impl Clone for FunctionRef {
    fn clone(&self) -> (r: Self)
        ensures
            r@ == self@,
    {
        FunctionRef {
            package: self.package.clone(),
            module: self.module.clone(),
            name: self.name.clone(),
            shape: self.shape.clone(),
        }
    }
}

impl FunctionRef {
    /// Whether both name the same function.
    pub fn same(&self, other: &FunctionRef) -> (r: bool)
        ensures
            r == (self@.key() == other@.key()),
    {
        self.module == other.module && self.name == other.name && self.package == other.package
    }

    /// The reference as it is written.
    pub fn pretty(&self) -> (r: String)
        ensures
            r@ == self@.pretty(),
    {
        let mut out = self.package.clone();
        out.append("::");
        out.append(self.module.as_str());
        out.append(".");
        out.append(self.name.as_str());
        out
    }

    pub fn result(&self) -> (r: Shape)
        ensures
            r@ == self@.result(),
    {
        match &self.shape {
            Shape::SimpleFunctionShape { args, result } => (**result).clone(),
            _ => self.shape.clone(),
        }
    }
}

impl PartialEq for FunctionRef {
    fn eq(&self, other: &FunctionRef) -> (r: bool) {
        self.same(other)
    }
}

impl vstd::std_specs::cmp::PartialEqSpecImpl for FunctionRef {
    open spec fn obeys_eq_spec() -> bool {
        true
    }

    open spec fn eq_spec(&self, other: &FunctionRef) -> bool {
        self@.key() == other@.key()
    }
}

impl Eq for FunctionRef {

}

/// One operation of the stack machine. A number constant is held as the 64
/// bits of its binary representation.
#[derive(Debug, Clone, Copy, PartialEq, Eq, Structural)]
pub enum Instruction {
    NoOp,
    Duplicate,
    Pop,
    Swap,
    LoadConstNull,
    LoadConstTrue,
    LoadConstFalse,
    LoadConstString { const_id: ConstantId },
    LoadConstFunction { const_id: ConstantId },
    LoadConstFloat { value: u64 },
    LoadValue { local: LocalId },
    StoreValue { local: LocalId },
    CallStatic { func_id: ConstantId },
    CallDynamic { param_count: LocalId },
    BuildClosure { param_count: LocalId, func_id: ConstantId },
    BuildRecursiveFunction,
    Return,
    Branch { jump: i32 },
    Jump { jump: i32 },
    Debug,
    Error,
}

/// The place in the source that an instruction came from.
#[derive(Debug, Clone, Copy, PartialEq, Eq, Structural)]
pub struct SourcePoint {
    pub line: u32,
    pub column: u32,
}

/// A function as flat code.
#[derive(Debug)]
pub struct BitFunction {
    pub func_ref: FunctionRef,
    pub max_locals: LocalId,
    pub body: Vec<Instruction>,
    pub source: Vec<SourcePoint>,
}

/// The mathematical value of a [`BitFunction`].
pub struct BitFunctionView {
    pub func_ref: FunctionRefView,
    pub max_locals: LocalId,
    pub body: Seq<Instruction>,
    pub source: Seq<SourcePoint>,
}

impl View for BitFunction {
    type V = BitFunctionView;

    open spec fn view(&self) -> BitFunctionView {
        BitFunctionView {
            func_ref: self.func_ref@,
            max_locals: self.max_locals,
            body: self.body@,
            source: self.source@,
        }
    }
}

/// A compiled module: three tables of constants, and the functions by name.
#[derive(Debug)]
pub struct BitModule {
    pub string_constants: Vec<String>,
    pub function_refs: Vec<FunctionRef>,
    pub functions: NameMap<RunFunction>,
    pub shape_refs: Vec<Shape>,
}

/// The mathematical value of a [`BitModule`].
pub struct BitModuleView {
    pub string_constants: Seq<Seq<char>>,
    pub function_refs: Seq<FunctionRefView>,
    pub functions: Table<RunFunctionView>,
    pub shape_refs: Seq<ShapeView>,
}

impl View for BitModule {
    type V = BitModuleView;

    open spec fn view(&self) -> BitModuleView {
        BitModuleView {
            string_constants: views(self.string_constants@),
            function_refs: views(self.function_refs@),
            functions: self.functions@,
            shape_refs: views(self.shape_refs@),
        }
    }
}

impl BitModule {
    /// Every function has its name.
    pub open spec fn wf(&self) -> bool {
        self.functions.wf()
    }

    pub fn lookup_string(&self, id: ConstantId) -> (r: Result<String, LangError>)
        ensures
            match r {
                Ok(s) => id < self@.string_constants.len() && s@ == self@.string_constants[id as int],
                Err(e) => id >= self@.string_constants.len() && e@ == error_of(ErrorKind::BadIndex),
            },
    {
        let i = id as usize;
        if i < self.string_constants.len() {
            Ok(self.string_constants[i].clone())
        } else {
            Err(LangError::of(ErrorKind::BadIndex))
        }
    }

    pub fn lookup_function(&self, id: ConstantId) -> (r: Result<FunctionRef, LangError>)
        ensures
            match r {
                Ok(f) => id < self@.function_refs.len() && f@ == self@.function_refs[id as int],
                Err(e) => id >= self@.function_refs.len() && e@ == error_of(ErrorKind::BadIndex),
            },
    {
        let i = id as usize;
        if i < self.function_refs.len() {
            Ok(self.function_refs[i].clone())
        } else {
            Err(LangError::of(ErrorKind::BadIndex))
        }
    }

    pub fn lookup_shape(&self, id: ConstantId) -> (r: Result<Shape, LangError>)
        ensures
            match r {
                Ok(s) => id < self@.shape_refs.len() && s@ == self@.shape_refs[id as int],
                Err(e) => id >= self@.shape_refs.len() && e@ == error_of(ErrorKind::BadIndex),
            },
    {
        let i = id as usize;
        if i < self.shape_refs.len() {
            Ok(self.shape_refs[i].clone())
        } else {
            Err(LangError::of(ErrorKind::BadIndex))
        }
    }
}

/// The modules of one package, by name.
#[derive(Debug)]
pub struct BitPackage {
    pub modules: NameMap<BitModule>,
}

impl View for BitPackage {
    type V = Table<BitModuleView>;

    open spec fn view(&self) -> Table<BitModuleView> {
        self.modules@
    }
}

impl BitPackage {
    /// Every module has its name, and is itself well formed.
    pub open spec fn wf(&self) -> bool {
        &&& self.modules.wf()
        &&& forall|i: int| 0 <= i < self.modules.values@.len() ==> (#[trigger] self.modules.values@[i]).wf()
    }

    pub fn new() -> (r: BitPackage)
        ensures
            r.wf(),
            r@ == Table::<BitModuleView>::empty(),
    {
        BitPackage { modules: NameMap::new() }
    }
}

/// A whole program: its packages by name, and the function to start with.
#[derive(Debug)]
pub struct BitApplication {
    pub packages: NameMap<BitPackage>,
    pub main: FunctionRef,
}

/// The mathematical value of a [`BitApplication`].
pub struct BitApplicationView {
    pub packages: Table<Table<BitModuleView>>,
    pub main: FunctionRefView,
}

impl View for BitApplication {
    type V = BitApplicationView;

    open spec fn view(&self) -> BitApplicationView {
        BitApplicationView { packages: self.packages@, main: self.main@ }
    }
}

impl BitApplicationView {
    /// The module that holds `func`, if the application has it.
    pub open spec fn module_of(self, func: FunctionRefView) -> Option<BitModuleView> {
        match self.packages.get(func.package) {
            Some(package) => package.get(func.module),
            None => None,
        }
    }

    /// The function that `func` names, if the application has it.
    pub open spec fn function_of(self, func: FunctionRefView) -> Option<RunFunctionView> {
        match self.module_of(func) {
            Some(module) => module.functions.get(func.name),
            None => None,
        }
    }
}

impl BitApplication {
    /// Every package has its name, and is itself well formed.
    pub open spec fn wf(&self) -> bool {
        &&& self.packages.wf()
        &&& forall|i: int| 0 <= i < self.packages.values@.len() ==> (#[trigger] self.packages.values@[i]).wf()
    }

    pub fn new(main: FunctionRef) -> (r: BitApplication)
        ensures
            r.wf(),
            r@ == (BitApplicationView { packages: Table::empty(), main: main@ }),
    {
        BitApplication { packages: NameMap::new(), main }
    }

    pub fn lookup_module(&self, func: &FunctionRef) -> (r: Result<&BitModule, LangError>)
        requires
            self.wf(),
        ensures
            match r {
                Ok(m) => self@.module_of(func@) == Some(m@) && m.wf(),
                Err(e) => self@.module_of(func@) is None && e@ == error_of(
                    ErrorKind::UnknownFunction,
                ),
            },
    {
        match self.packages.find(&func.package) {
            Some(i) => {
                let package = &self.packages.values[i];
                match package.modules.find(&func.module) {
                    Some(j) => Ok(&package.modules.values[j]),
                    None => Err(LangError::of(ErrorKind::UnknownFunction)),
                }
            },
            None => Err(LangError::of(ErrorKind::UnknownFunction)),
        }
    }

    pub fn lookup_function(&self, func: &FunctionRef) -> (r: Result<&RunFunction, LangError>)
        requires
            self.wf(),
        ensures
            match r {
                Ok(f) => self@.function_of(func@) == Some(f@),
                Err(e) => self@.function_of(func@) is None && e@ == error_of(
                    ErrorKind::UnknownFunction,
                ),
            },
    {
        let module = self.lookup_module(func)?;
        match module.functions.get(&func.name) {
            Some(f) => Ok(f),
            None => Err(LangError::of(ErrorKind::UnknownFunction)),
        }
    }
}

} // verus!
