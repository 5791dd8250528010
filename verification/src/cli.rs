//! The choices a command line offers, as plain values.

use vstd::prelude::*;

verus! {

/// A native code generation target.
#[derive(Clone, Copy, Debug, PartialEq, Eq, Structural)]
pub enum Target {
    /// 64-bit ARM.
    A64,
    /// 64-bit x86, System V calling convention.
    X64,
    /// 64-bit ARM without the optional floating-point features.
    A64NF,
    /// 64-bit x86, Microsoft calling convention.
    X64MS,
}

impl Target {
    /// The spelling of this target on the command line.
    pub fn name(self) -> (s: &'static str)
        ensures
            s@ == match self {
                Target::A64 => "a64"@,
                Target::X64 => "x64"@,
                Target::A64NF => "a64_nf"@,
                Target::X64MS => "x64_ms"@,
            },
    {
        match self {
            Target::A64 => "a64",
            Target::X64 => "x64",
            Target::A64NF => "a64_nf",
            Target::X64MS => "x64_ms",
        }
    }
}

/// The direction in which a container is processed.
#[derive(Clone, Copy, Debug, PartialEq, Eq, Structural)]
pub enum Mode {
    /// Plain bytecode in, container out.
    Encrypt,
    /// Container in, plain bytecode out.
    Decrypt,
}

impl Mode {
    /// The spelling of this mode on the command line.
    pub fn name(self) -> (s: &'static str)
        ensures
            s@ == match self {
                Mode::Encrypt => "encrypt"@,
                Mode::Decrypt => "decrypt"@,
            },
    {
        match self {
            Mode::Encrypt => "encrypt",
            Mode::Decrypt => "decrypt",
        }
    }
}

/// The highest optimization or debug level the compiler knows.
pub const MAX_LEVEL: u8 = 2;

/// The levels a compilation runs at.
#[derive(Clone, Copy, Debug, PartialEq, Eq, Structural)]
pub struct CompileLevels {
    /// How hard the compiler optimizes, 0 to 2.
    pub optimization: u8,
    /// How much debug information the bytecode keeps, 0 to 2.
    pub debug: u8,
    /// How much type information the bytecode keeps.
    pub type_info: u8,
    /// How much coverage instrumentation the bytecode carries.
    pub coverage: u8,
}

impl CompileLevels {
    /// Both levels that the command line sets are within range.
    pub open spec fn valid(self) -> bool {
        self.optimization <= MAX_LEVEL && self.debug <= MAX_LEVEL
    }

    /// The levels used where the command line names none: optimization and
    /// debug at 1, type information and coverage off.
    pub open spec fn standard() -> CompileLevels {
        CompileLevels { optimization: 1, debug: 1, type_info: 0, coverage: 0 }
    }

    /// The standard levels with optimization and debug replaced, or `None`
    /// where either is above `MAX_LEVEL`.
    pub fn new(optimization: u8, debug: u8) -> (levels: Option<CompileLevels>)
        ensures
            levels == if optimization <= MAX_LEVEL && debug <= MAX_LEVEL {
                Some(CompileLevels { optimization, debug, ..Self::standard() })
            } else {
                None
            },
            levels matches Some(l) ==> l.valid(),
    {
        if optimization <= MAX_LEVEL && debug <= MAX_LEVEL {
            Some(CompileLevels { optimization, debug, type_info: 0, coverage: 0 })
        } else {
            None
        }
    }
}

impl Default for CompileLevels {
    fn default() -> (levels: CompileLevels)
        ensures
            levels == CompileLevels::standard(),
            levels.valid(),
    {
        CompileLevels { optimization: 1, debug: 1, type_info: 0, coverage: 0 }
    }
}

} // verus!
