pub mod support;
pub mod text;
pub mod error;
pub mod shapes;
pub mod shape_laws;
pub mod ast;
pub mod lexer;
pub mod parser;
pub mod typechecker;
pub mod check_laws;
pub mod capture_laws;
pub mod core_shapes;
pub mod ir;
pub mod lower;
pub mod lower_laws;
pub mod optimize;
pub mod bytecode;
pub mod compiler;
pub mod compiler_laws;
pub mod runtime;
pub mod interpreter;
pub mod lib_core;
pub mod printing;
