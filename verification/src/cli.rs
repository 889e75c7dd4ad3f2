use vstd::prelude::*;

use crate::config::Compiler;

verus! {

/// The compilers that can be named on the command line of the ELF disassembler.
#[derive(Debug, Copy, Clone, Hash, PartialEq, Eq, Structural, PartialOrd, Ord)]
#[allow(non_camel_case_types)]
pub enum ArgCompiler {
    IDO,
}

impl From<ArgCompiler> for Compiler {
    fn from(value: ArgCompiler) -> (r: Self) {
        match value {
            ArgCompiler::IDO => Compiler::IDO,
        }
    }
}

impl vstd::std_specs::convert::FromSpecImpl<ArgCompiler> for Compiler {
    open spec fn obeys_from_spec() -> bool {
        true
    }

    open spec fn from_spec(value: ArgCompiler) -> Self {
        match value {
            ArgCompiler::IDO => Compiler::IDO,
        }
    }
}

} // verus!
