use vstd::prelude::*;
use crate::bytecode::{BitFunction, BitFunctionView, BitModule, BitModuleView, Instruction};
use crate::error::{ErrorKind, LangError, error_of};
use crate::interpreter::{RunFunction, RunFunctionView};
use crate::ir::{Ir, IrFunction, IrFunctionView, IrModule, IrModuleView, IrView};
use crate::ast::ParameterView;
use crate::shapes::pretty_spec;
use crate::support::views;
use crate::text::{append_decimal, decimal_spec, join_spec, lemma_join_next};

verus! {

/// A whole number as text: a minus sign before the digits where it is below
/// zero.
pub open spec fn signed_spec(n: int) -> Seq<char> {
    if n < 0 {
        "-"@ + decimal_spec((-n) as nat)
    } else {
        decimal_spec(n as nat)
    }
}

/// Puts the whole number `n` at the end of `out`.
fn append_signed(out: &mut String, n: i32)
    ensures
        final(out)@ == old(out)@ + signed_spec(n as int),
{
    if n < 0 {
        let wide: i64 = -(n as i64);
        out.append("-");
        append_decimal(out, wide as u64);
        assert(out@ =~= old(out)@ + ("-"@ + decimal_spec((-n) as nat)));
    } else {
        append_decimal(out, n as u64);
    }
}

/// The name of an operation, and in round brackets what it carries, where
/// that is a number.
pub open spec fn counted(name: Seq<char>, n: nat) -> Seq<char> {
    name + "("@ + decimal_spec(n) + ")"@
}

/// An instruction as text: its name, with the constant that it names
/// spelled out. A number constant is written as its 64 bits. `Err` where it
/// names a constant that the module does not have.
pub open spec fn instruction_text(module: BitModuleView, instr: Instruction) -> Result<
    Seq<char>,
    ErrorKind,
> {
    match instr {
        Instruction::NoOp => Ok("NoOp"@),
        Instruction::Duplicate => Ok("Duplicate"@),
        Instruction::Pop => Ok("Pop"@),
        Instruction::Swap => Ok("Swap"@),
        Instruction::LoadConstNull => Ok("LoadConstNull"@),
        Instruction::LoadConstTrue => Ok("LoadConstTrue"@),
        Instruction::LoadConstFalse => Ok("LoadConstFalse"@),
        Instruction::LoadConstString { const_id } => if const_id < module.string_constants.len() {
            Ok("LoadConstString('"@ + module.string_constants[const_id as int] + "')"@)
        } else {
            Err(ErrorKind::BadIndex)
        },
        Instruction::LoadConstFunction { const_id } => if const_id < module.function_refs.len() {
            Ok("LoadConstFunction('"@ + module.function_refs[const_id as int].pretty() + "')"@)
        } else {
            Err(ErrorKind::BadIndex)
        },
        Instruction::LoadConstFloat { value } => Ok(counted("LoadConstFloat"@, value as nat)),
        Instruction::LoadValue { local } => Ok(counted("LoadValue"@, local as nat)),
        Instruction::StoreValue { local } => Ok(counted("StoreValue"@, local as nat)),
        Instruction::CallStatic { func_id } => if func_id < module.function_refs.len() {
            Ok("CallStatic('"@ + module.function_refs[func_id as int].pretty() + "')"@)
        } else {
            Err(ErrorKind::BadIndex)
        },
        Instruction::CallDynamic { param_count } => Ok(counted("CallDynamic"@, param_count as nat)),
        Instruction::BuildClosure { param_count, func_id } => if func_id
            < module.function_refs.len() {
            Ok(
                "BuildClosure("@ + decimal_spec(param_count as nat) + ", '"@
                    + module.function_refs[func_id as int].pretty() + "')"@,
            )
        } else {
            Err(ErrorKind::BadIndex)
        },
        Instruction::BuildRecursiveFunction => Ok("BuildRecursiveFunction"@),
        Instruction::Return => Ok("Return"@),
        Instruction::Branch { jump } => Ok("Branch("@ + signed_spec(jump as int) + ")"@),
        Instruction::Jump { jump } => Ok("Jump("@ + signed_spec(jump as int) + ")"@),
        Instruction::Debug => Ok("Debug"@),
        Instruction::Error => Ok("Error"@),
    }
}

/// The first `n` instructions as text, each on a line of its own behind its
/// number.
pub open spec fn instructions_text(module: BitModuleView, block: Seq<Instruction>, n: int) -> Result<
    Seq<char>,
    ErrorKind,
>
    decreases n,
{
    if n <= 0 {
        Ok(Seq::empty())
    } else {
        match instructions_text(module, block, n - 1) {
            Err(kind) => Err(kind),
            Ok(done) => match instruction_text(module, block[n - 1]) {
                Err(kind) => Err(kind),
                Ok(text) => Ok(done + "  "@ + decimal_spec((n - 1) as nat) + ": "@ + text + "\n"@),
            },
        }
    }
}

/// Where the first `n` instructions cannot be written, neither can the
/// first `k`, for `k` from `n` on.
pub proof fn lemma_instructions_text_error(
    module: BitModuleView,
    block: Seq<Instruction>,
    n: int,
    k: int,
)
    requires
        n <= k,
        instructions_text(module, block, n) is Err,
    ensures
        instructions_text(module, block, k) == instructions_text(module, block, n),
    decreases k - n,
{
    if n < k {
        lemma_instructions_text_error(module, block, n, k - 1);
    }
}

impl Instruction {
    /// The instruction as text, of a function of `module`.
    pub fn pretty(&self, module: &BitModule) -> (r: Result<String, LangError>)
        ensures
            match r {
                Ok(text) => instruction_text(module@, *self) == Ok::<_, ErrorKind>(text@),
                Err(e) => instruction_text(module@, *self) == Err::<Seq<char>, _>(ErrorKind::BadIndex)
                    && e@ == error_of(ErrorKind::BadIndex),
            },
    {
        match self {
            Instruction::NoOp => Ok(String::from_str("NoOp")),
            Instruction::Duplicate => Ok(String::from_str("Duplicate")),
            Instruction::Pop => Ok(String::from_str("Pop")),
            Instruction::Swap => Ok(String::from_str("Swap")),
            Instruction::LoadConstNull => Ok(String::from_str("LoadConstNull")),
            Instruction::LoadConstTrue => Ok(String::from_str("LoadConstTrue")),
            Instruction::LoadConstFalse => Ok(String::from_str("LoadConstFalse")),
            Instruction::LoadConstString { const_id } => {
                let value = module.lookup_string(*const_id)?;
                let mut out = String::from_str("LoadConstString('");
                out.append(value.as_str());
                out.append("')");
                Ok(out)
            },
            Instruction::LoadConstFunction { const_id } => {
                let value = module.lookup_function(*const_id)?;
                let mut out = String::from_str("LoadConstFunction('");
                out.append(value.pretty().as_str());
                out.append("')");
                Ok(out)
            },
            Instruction::LoadConstFloat { value } => Ok(with_count("LoadConstFloat", *value)),
            Instruction::LoadValue { local } => Ok(with_count("LoadValue", *local as u64)),
            Instruction::StoreValue { local } => Ok(with_count("StoreValue", *local as u64)),
            Instruction::CallStatic { func_id } => {
                let value = module.lookup_function(*func_id)?;
                let mut out = String::from_str("CallStatic('");
                out.append(value.pretty().as_str());
                out.append("')");
                Ok(out)
            },
            Instruction::CallDynamic { param_count } => Ok(
                with_count("CallDynamic", *param_count as u64),
            ),
            Instruction::BuildClosure { param_count, func_id } => {
                let value = module.lookup_function(*func_id)?;
                let mut out = String::from_str("BuildClosure(");
                append_decimal(&mut out, *param_count as u64);
                out.append(", '");
                out.append(value.pretty().as_str());
                out.append("')");
                Ok(out)
            },
            Instruction::BuildRecursiveFunction => Ok(String::from_str("BuildRecursiveFunction")),
            Instruction::Return => Ok(String::from_str("Return")),
            Instruction::Branch { jump } => {
                let mut out = String::from_str("Branch(");
                append_signed(&mut out, *jump);
                out.append(")");
                Ok(out)
            },
            Instruction::Jump { jump } => {
                let mut out = String::from_str("Jump(");
                append_signed(&mut out, *jump);
                out.append(")");
                Ok(out)
            },
            Instruction::Debug => Ok(String::from_str("Debug")),
            Instruction::Error => Ok(String::from_str("Error")),
        }
    }

    /// The instructions of `block` as text, each on a line of its own behind
    /// its number.
    pub fn pretty_print(module: &BitModule, block: &Vec<Instruction>) -> (r: Result<
        String,
        LangError,
    >)
        ensures
            match r {
                Ok(text) => instructions_text(module@, block@, block@.len() as int) == Ok::<
                    _,
                    ErrorKind,
                >(text@),
                Err(e) => instructions_text(module@, block@, block@.len() as int) == Err::<
                    Seq<char>,
                    _,
                >(ErrorKind::BadIndex) && e@ == error_of(ErrorKind::BadIndex),
            },
    {
        let mut out = String::new();
        let mut i: usize = 0;
        while i < block.len()
            invariant
                i <= block@.len(),
                instructions_text(module@, block@, i as int) == Ok::<_, ErrorKind>(out@),
            decreases block@.len() - i,
        {
            let ghost done = out@;
            match block[i].pretty(module) {
                Ok(text) => {
                    out.append("  ");
                    append_decimal(&mut out, i as u64);
                    out.append(": ");
                    out.append(text.as_str());
                    out.append("\n");
                    assert(out@ =~= done + "  "@ + decimal_spec(i as nat) + ": "@ + text@ + "\n"@);
                },
                Err(e) => {
                    proof {
                        lemma_instructions_text_error(module@, block@, i + 1, block@.len() as int);
                    }
                    return Err(e);
                },
            }
            i += 1;
        }
        Ok(out)
    }
}

/// The text `name`, and `n` in round brackets behind it.
fn with_count(name: &str, n: u64) -> (r: String)
    ensures
        r@ == counted(name@, n as nat),
{
    let mut out = String::from_str(name);
    out.append("(");
    append_decimal(&mut out, n);
    out.append(")");
    out
}

/// A compiled function as text: its reference and its shape on one line,
/// then its instructions, then an empty line.
pub open spec fn function_text(module: BitModuleView, f: BitFunctionView) -> Result<
    Seq<char>,
    ErrorKind,
> {
    match instructions_text(module, f.body, f.body.len() as int) {
        Err(kind) => Err(kind),
        Ok(body) => Ok(
            f.func_ref.pretty() + ": "@ + pretty_spec(f.func_ref.shape) + "\n"@ + body + "\n"@,
        ),
    }
}

/// A function of a module as text: a compiled one with its code, a native
/// one with a note in place of it.
pub open spec fn run_function_text(module: BitModuleView, f: RunFunctionView) -> Result<
    Seq<char>,
    ErrorKind,
> {
    match f {
        RunFunctionView::BitFunction(code) => function_text(module, code),
        RunFunctionView::NativeFunction(native) => Ok(
            native.func_ref.pretty() + ": "@ + pretty_spec(native.func_ref.shape)
                + "\n  <native code>\n"@,
        ),
    }
}

/// The first `n` functions of the module as text.
pub open spec fn module_text(module: BitModuleView, n: int) -> Result<Seq<char>, ErrorKind>
    decreases n,
{
    if n <= 0 {
        Ok(Seq::empty())
    } else {
        match module_text(module, n - 1) {
            Err(kind) => Err(kind),
            Ok(done) => match run_function_text(module, module.functions.values[n - 1]) {
                Err(kind) => Err(kind),
                Ok(text) => Ok(done + text),
            },
        }
    }
}

/// Where the first `n` functions cannot be written, neither can the first
/// `k`, for `k` from `n` on.
pub proof fn lemma_module_text_error(module: BitModuleView, n: int, k: int)
    requires
        n <= k,
        module_text(module, n) is Err,
    ensures
        module_text(module, k) == module_text(module, n),
    decreases k - n,
{
    if n < k {
        lemma_module_text_error(module, n, k - 1);
    }
}

impl BitFunction {
    /// The function as text, for a reader who looks for an error.
    pub fn debug(&self, module: &BitModule) -> (r: Result<String, LangError>)
        ensures
            match r {
                Ok(text) => function_text(module@, self@) == Ok::<_, ErrorKind>(text@),
                Err(e) => function_text(module@, self@) == Err::<Seq<char>, _>(ErrorKind::BadIndex)
                    && e@ == error_of(ErrorKind::BadIndex),
            },
    {
        let body = Instruction::pretty_print(module, &self.body)?;
        let mut out = self.func_ref.pretty();
        out.append(": ");
        out.append(self.func_ref.shape.pretty().as_str());
        out.append("\n");
        out.append(body.as_str());
        out.append("\n");
        Ok(out)
    }
}

impl BitModule {
    /// Every function of the module as text.
    pub fn debug(&self) -> (r: Result<String, LangError>)
        requires
            self.wf(),
        ensures
            match r {
                Ok(text) => module_text(self@, self@.functions.values.len() as int) == Ok::<
                    _,
                    ErrorKind,
                >(text@),
                Err(e) => module_text(self@, self@.functions.values.len() as int) == Err::<
                    Seq<char>,
                    _,
                >(ErrorKind::BadIndex) && e@ == error_of(ErrorKind::BadIndex),
            },
    {
        let mut out = String::new();
        let count = self.functions.values.len();
        let mut i: usize = 0;
        while i < count
            invariant
                i <= count,
                count == self.functions.values@.len(),
                module_text(self@, i as int) == Ok::<_, ErrorKind>(out@),
            decreases count - i,
        {
            let ghost done = out@;
            let text = match &self.functions.values[i] {
                RunFunction::BitFunction(func) => {
                    match func.debug(self) {
                        Ok(text) => text,
                        Err(e) => {
                            proof {
                                lemma_module_text_error(self@, i + 1, count as int);
                            }
                            return Err(e);
                        },
                    }
                },
                RunFunction::NativeFunction(func) => {
                    let mut text = func.func_ref.pretty();
                    text.append(": ");
                    text.append(func.func_ref.shape.pretty().as_str());
                    text.append("\n  <native code>\n");
                    text
                },
            };
            out.append(text.as_str());
            i += 1;
        }
        Ok(out)
    }
}

/// An operation as text, behind `indent` where its arms start new lines: its
/// name, with what it carries in round brackets. A number constant is
/// written as its 64 bits. A branch writes its arms below it, each operation
/// on a line of its own, indented by four more blanks.
pub open spec fn ir_text(op: IrView, indent: Seq<char>) -> Seq<char>
    decreases op, 1nat,
{
    match op {
        IrView::NoOp => "NoOp"@,
        IrView::Duplicate => "Duplicate"@,
        IrView::Pop => "Pop"@,
        IrView::Swap => "Swap"@,
        IrView::LoadConstNull => "LoadConstNull"@,
        IrView::LoadConstTrue => "LoadConstTrue"@,
        IrView::LoadConstFalse => "LoadConstFalse"@,
        IrView::LoadConstString { value } => "LoadConstString('"@ + value + "')"@,
        IrView::LoadConstFunction { func } => "LoadConstFunction("@ + func.pretty() + ")"@,
        IrView::LoadConstFloat { bits } => counted("LoadConstFloat"@, bits as nat),
        IrView::LoadValue { local } => "LoadValue("@ + local + ")"@,
        IrView::StoreValue { local } => "StoreValue("@ + local + ")"@,
        IrView::CallStatic { func } => "CallStatic("@ + func.pretty() + ")"@,
        IrView::CallDynamic { param_count } => counted("CallDynamic"@, param_count as nat),
        IrView::BuildClosure { param_count, func } => "BuildClosure("@ + decimal_spec(
            param_count as nat,
        ) + ", '"@ + func.pretty() + "')"@,
        IrView::BuildRecursiveFunction => "BuildRecursiveFunction"@,
        IrView::Return => "Return"@,
        IrView::Branch { then_block, else_block } => "Branch\n"@ + indent + "  then_block:\n"@
            + block_text(then_block, indent + "    "@, then_block.len() as int) + indent
            + "  else_block:\n"@ + block_text(else_block, indent + "    "@, else_block.len() as int),
        IrView::Debug => "Debug"@,
        IrView::Error => "Error"@,
        IrView::FreeLocal { local } => "FreeLocal("@ + local + ")"@,
    }
}

/// The first `n` operations of `block` as text, each behind `indent` and its
/// number, on a line of its own.
pub open spec fn block_text(block: Seq<IrView>, indent: Seq<char>, n: int) -> Seq<char>
    decreases block, 0nat, n,
{
    if n <= 0 || n > block.len() {
        Seq::empty()
    } else {
        block_text(block, indent, n - 1) + indent + decimal_spec((n - 1) as nat) + ": "@ + ir_text(
            block[n - 1],
            indent,
        ) + "\n"@
    }
}

impl Ir {
    /// The operation as text.
    pub fn pretty(&self, indent: &str) -> (r: String)
        ensures
            r@ == ir_text(self@, indent@),
        decreases self, 1nat,
    {
        proof {
            self.lemma_model();
        }
        match self {
            Ir::NoOp => String::from_str("NoOp"),
            Ir::Duplicate => String::from_str("Duplicate"),
            Ir::Pop => String::from_str("Pop"),
            Ir::Swap => String::from_str("Swap"),
            Ir::LoadConstNull => String::from_str("LoadConstNull"),
            Ir::LoadConstTrue => String::from_str("LoadConstTrue"),
            Ir::LoadConstFalse => String::from_str("LoadConstFalse"),
            Ir::LoadConstString { value } => wrapped("LoadConstString('", value.as_str(), "')"),
            Ir::LoadConstFunction { value } => wrapped(
                "LoadConstFunction(",
                value.pretty().as_str(),
                ")",
            ),
            Ir::LoadConstFloat { value } => with_count("LoadConstFloat", *value),
            Ir::LoadValue { local } => wrapped("LoadValue(", local.as_str(), ")"),
            Ir::StoreValue { local } => wrapped("StoreValue(", local.as_str(), ")"),
            Ir::CallStatic { func } => wrapped("CallStatic(", func.pretty().as_str(), ")"),
            Ir::CallDynamic { param_count } => with_count("CallDynamic", *param_count as u64),
            Ir::BuildClosure { param_count, func } => {
                let mut out = String::from_str("BuildClosure(");
                append_decimal(&mut out, *param_count as u64);
                out.append(", '");
                out.append(func.pretty().as_str());
                out.append("')");
                out
            },
            Ir::BuildRecursiveFunction => String::from_str("BuildRecursiveFunction"),
            Ir::Return => String::from_str("Return"),
            Ir::Branch { then_block, else_block } => {
                let mut inner_indent = String::from_str(indent);
                inner_indent.append("    ");
                let mut out = String::from_str("Branch\n");
                out.append(indent);
                out.append("  then_block:\n");
                out.append(Ir::pretty_print(then_block, inner_indent.as_str()).as_str());
                out.append(indent);
                out.append("  else_block:\n");
                out.append(Ir::pretty_print(else_block, inner_indent.as_str()).as_str());
                out
            },
            Ir::Debug => String::from_str("Debug"),
            Ir::Error => String::from_str("Error"),
            Ir::FreeLocal { local } => wrapped("FreeLocal(", local.as_str(), ")"),
        }
    }

    /// The operations of `block` as text, each behind `indent` and its
    /// number, on a line of its own.
    pub fn pretty_print(block: &Vec<Ir>, indent: &str) -> (r: String)
        ensures
            r@ == block_text(views(block@), indent@, block@.len() as int),
        decreases block, 0nat,
    {
        let mut out = String::new();
        let mut i: usize = 0;
        while i < block.len()
            invariant
                i <= block@.len(),
                out@ == block_text(views(block@), indent@, i as int),
            decreases block@.len() - i,
        {
            proof {
                broadcast use vstd::std_specs::vec::axiom_vec_index_decreases;

            }
            let ghost done = out@;
            let text = block[i].pretty(indent);
            out.append(indent);
            append_decimal(&mut out, i as u64);
            out.append(": ");
            out.append(text.as_str());
            out.append("\n");
            assert(out@ =~= done + indent@ + decimal_spec(i as nat) + ": "@ + text@ + "\n"@);
            i += 1;
        }
        out
    }
}

/// The text `middle` between `before` and `after`.
fn wrapped(before: &str, middle: &str, after: &str) -> (r: String)
    ensures
        r@ == before@ + middle@ + after@,
{
    let mut out = String::from_str(before);
    out.append(middle);
    out.append(after);
    out
}

/// Each parameter as it is written.
pub open spec fn parameter_texts(params: Seq<ParameterView>) -> Seq<Seq<char>> {
    Seq::new(params.len(), |i: int| params[i].pretty())
}

/// A function in the intermediate representation as text: its name, its
/// first locals and its result on one line, then its operations, then an
/// empty line.
pub open spec fn ir_function_text(f: IrFunctionView) -> Seq<char> {
    "  "@ + f.func_ref.name + "("@ + join_spec(parameter_texts(f.args), ", "@) + "): "@
        + pretty_spec(f.func_ref.result()) + "\n"@ + block_text(f.body, "    "@, f.body.len() as int)
        + "\n"@
}

/// The first `n` functions of the module as text.
pub open spec fn ir_functions_text(m: IrModuleView, n: int) -> Seq<char>
    decreases n,
{
    if n <= 0 {
        Seq::empty()
    } else {
        ir_functions_text(m, n - 1) + ir_function_text(m.functions.values[n - 1])
    }
}

/// A module in the intermediate representation as text: package and name on
/// one line, then every function.
pub open spec fn ir_module_text(m: IrModuleView) -> Seq<char> {
    m.package + "::"@ + m.name + " \n"@ + ir_functions_text(m, m.functions.values.len() as int)
}

impl IrFunction {
    /// The function as text.
    pub fn pretty_print(&self) -> (r: String)
        ensures
            r@ == ir_function_text(self@),
    {
        let mut out = String::from_str("  ");
        out.append(self.func_ref.name.as_str());
        out.append("(");
        let ghost start = out@;
        let ghost parts = parameter_texts(views(self.args@));
        let mut i: usize = 0;
        proof {
            assert(parts.take(0) =~= Seq::<Seq<char>>::empty());
            assert(start + Seq::<char>::empty() =~= start);
        }
        while i < self.args.len()
            invariant
                i <= self.args@.len(),
                parts == parameter_texts(views(self.args@)),
                out@ == start + join_spec(parts.take(i as int), ", "@),
            decreases self.args@.len() - i,
        {
            proof {
                lemma_join_next(parts, ", "@, i as int);
            }
            if i > 0 {
                out.append(", ");
            }
            let part = self.args[i].pretty();
            out.append(part.as_str());
            proof {
                assert(parts[i as int] == part@);
                if i > 0 {
                    assert(out@ =~= start + (join_spec(parts.take(i as int), ", "@) + ", "@
                        + part@));
                } else {
                    assert(join_spec(parts.take(0), ", "@) =~= Seq::<char>::empty());
                    assert(out@ =~= start + part@);
                }
            }
            i += 1;
        }
        proof {
            assert(parts.take(self.args@.len() as int) =~= parts);
        }
        out.append("): ");
        out.append(self.func_ref.result().pretty().as_str());
        out.append("\n");
        out.append(Ir::pretty_print(&self.body, "    ").as_str());
        out.append("\n");
        out
    }

    /// The function as text, for a reader who looks for an error.
    pub fn debug(&self) -> (r: String)
        ensures
            r@ == ir_function_text(self@),
    {
        self.pretty_print()
    }
}

impl IrModule {
    /// The module as text, for a reader who looks for an error.
    pub fn debug(&self) -> (r: String)
        requires
            self.functions.wf(),
        ensures
            r@ == ir_module_text(self@),
    {
        let mut out = self.package.clone();
        out.append("::");
        out.append(self.name.as_str());
        out.append(" \n");
        let ghost start = out@;
        let count = self.functions.values.len();
        let mut i: usize = 0;
        proof {
            assert(start + Seq::<char>::empty() =~= start);
        }
        while i < count
            invariant
                i <= count,
                count == self.functions.values@.len(),
                out@ == start + ir_functions_text(self@, i as int),
            decreases count - i,
        {
            let ghost done = ir_functions_text(self@, i as int);
            let text = self.functions.values[i].pretty_print();
            out.append(text.as_str());
            assert(out@ =~= start + (done + text@));
            i += 1;
        }
        out
    }
}

} // verus!
