//! C++17 code generation for shader modules.
//!
//! The generated code is meant to run on the CPU against a small runtime
//! header (`wgsl_runtime.hpp`) that supplies vector and matrix types. Only
//! compute entry points are supported, with a basic set of expressions and
//! statements.
use vstd::prelude::*;

pub mod conv;
pub mod forms;
pub mod ir;
pub mod laws;
pub mod names;
pub mod render;
pub mod text;
pub mod valid;
pub mod writer;

use crate::ir::{Module, ModuleInfo, ShaderStage};
use crate::render::{fresh_calls, module_text};
use crate::valid::module_ok;
use crate::writer::Writer;

verus! {

/// Why the backend could not write a module.
#[derive(Debug)]
pub enum Error {
    /// A write to the output failed (writing into a `String` never does).
    Format,
    /// The module uses something that this backend cannot express.
    Unsupported(String),
    /// An entry point is not a compute shader.
    InvalidStage(ShaderStage),
}

/// An `Error` with its message as a sequence of characters.
pub enum Failure {
    Format,
    Unsupported(Seq<char>),
    InvalidStage(ShaderStage),
}

impl View for Error {
    type V = Failure;

    open spec fn view(&self) -> Failure {
        match self {
            Error::Format => Failure::Format,
            Error::Unsupported(message) => Failure::Unsupported(message@),
            Error::InvalidStage(stage) => Failure::InvalidStage(*stage),
        }
    }
}

/// Options for the C++ backend (there are none yet).
#[derive(Clone, Debug)]
pub struct Options {}

impl Default for Options {
    fn default() -> (res: Options)
        ensures
            res == (Options {}),
    {
        Options {}
    }
}

/// The C++ text of `module`, or the first thing in it that the backend
/// refuses.
pub fn write_string(module: &Module, info: &ModuleInfo, options: &Options) -> (res: Result<String, Error>)
    requires
        module_ok(*module, *info),
    ensures
        match module_text(*module, *info, fresh_calls()) {
            Ok((text, _)) => res matches Ok(out) && out@ == text,
            Err(e) => res matches Err(err) && err@ == e.refusal.failure(),
        },
        res matches Err(err) ==> !(err is Format),
{
    let mut writer = Writer::new(String::new(), options);
    let r = writer.write(module, info);
    match r {
        Ok(()) => Ok(writer.finish()),
        Err(e) => Err(e),
    }
}

} // verus!
