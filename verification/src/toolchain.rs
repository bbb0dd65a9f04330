//! The toolchain of one invocation: compiler, archiver, linker, standard library.

use vstd::prelude::*;
use vstd::string::*;
use crate::compiler::{probe_verdict, Compiler, CompilerError, CompilerErrorView, ProbeOutcome};

verus! {

/// The linker that the compiler is told to use.
#[derive(Debug, PartialEq, Eq, Structural, Clone, Copy)]
pub enum Linker {
    /// Whatever the compiler uses unasked.
    SystemDefault,
    Gold,
    Ld,
    LLD,
}

/// The implementation of the C++ standard library.
#[derive(Debug, PartialEq, Eq, Structural, Clone, Copy)]
pub enum StdLibCXX {
    LibStdCXX,
    LibCXX,
}

/// The archiver that makes static libraries.
#[derive(Debug, PartialEq, Eq, Clone)]
pub struct Archiver {
    pub path: String,
}

/// A validated toolchain.
#[derive(Debug, PartialEq, Eq, Clone)]
pub struct Toolchain {
    pub cxx_compiler: Compiler,
    pub archiver: Archiver,
    pub linker: Linker,
    pub stdlib: StdLibCXX,
}

impl Toolchain {
    /// The toolchain of `compiler`, once the probe compilation has validated it.
    /// A probe that failed gives the error that carries what the probe reported.
    pub fn resolve(
        compiler: Compiler,
        outcome: ProbeOutcome,
        archiver: Archiver,
        linker: Linker,
        stdlib: StdLibCXX,
    ) -> (r: Result<Toolchain, CompilerError>)
        ensures
            match r {
                Ok(toolchain) => {
                    &&& probe_verdict(outcome) is Ok
                    &&& toolchain.cxx_compiler == compiler
                    &&& toolchain.archiver == archiver
                    &&& toolchain.linker == linker
                    &&& toolchain.stdlib == stdlib
                },
                Err(e) => probe_verdict(outcome) == Err::<(), CompilerErrorView>(e@),
            },
    {
        match compiler.evaluate(outcome) {
            Ok(()) => Ok(Toolchain { cxx_compiler: compiler, archiver, linker, stdlib }),
            Err(e) => Err(e),
        }
    }
}

} // verus!
