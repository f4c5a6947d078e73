//! The model of a compiled and linked shader program.
//!
//! Compiling and linking happen in the rendering backend; the library only
//! tracks the resulting program identifier.

use vstd::prelude::*;

verus! {

/// A linked shader program, known by its backend identifier.
#[derive(Clone, Debug)]
pub struct Shader {
    program: u32,
}

impl Shader {
    /// The backend identifier of the linked program.
    pub closed spec fn program_spec(&self) -> u32 {
        self.program
    }

    /// Wraps a backend program identifier.
    pub fn from_raw(program: u32) -> (r: Shader)
        ensures
            r.program_spec() == program,
    {
        Shader { program }
    }

    /// The backend identifier of the linked program.
    pub fn program(&self) -> (r: u32)
        ensures
            r == self.program_spec(),
    {
        self.program
    }
}

} // verus!
