//! An interpreting virtual machine for class files: a decoder of the class
//! file format, a heap of classes, instances and arrays behind handles, a
//! resolver of symbolic references, and an interpreter of stack bytecode.

pub mod bridge;
pub mod buffer;
pub mod class;
pub mod jar;
pub mod vastatrick;
pub mod vastatrix;

use crate::class::classfile::DecodeFailure;
use vstd::prelude::*;

verus! {

/// How a program is handed to the machine.
#[derive(Debug)]
pub enum HowLaunch {
    /// The path of an archive whose manifest names the main class.
    JarFile(String),
}

/// What the machine is started with.
#[derive(Debug)]
pub struct LaunchOptions {
    how: HowLaunch,
}

impl LaunchOptions {
    /// How the program is handed over.
    pub closed spec fn how_spec(&self) -> HowLaunch {
        self.how
    }

    /// The options to launch the program that `how` names.
    pub fn new(how: HowLaunch) -> (r: Self)
        ensures
            r.how_spec() == how,
    {
        LaunchOptions { how }
    }

    /// How the program is handed over.
    pub fn how(&self) -> (r: &HowLaunch)
        ensures
            *r == self.how_spec(),
    {
        &self.how
    }
}

/// Why the machine stopped. Every error is fatal to the run.
#[derive(Debug, Clone, Copy, PartialEq, Eq, Structural)]
pub enum VastatrixError {
    /// A class file could not be decoded: why and where in the file, and the
    /// index of the class file in the class source, which leads to the name of
    /// the class.
    Class(DecodeFailure, usize),
    /// No class of the wanted name is loaded or can be loaded.
    ClasspathIncomplete,
    /// No method of the wanted name and descriptor in the class or above it.
    NoSuchMethod,
    /// The instance has no field of the wanted name.
    NoSuchField,
    /// A pool index that is out of range or leads to an entry of another
    /// variant than the instruction needs.
    BadConstant(u16),
    /// A text that is no method descriptor.
    BadDescriptor,
    /// A handle that names no class, or no object of the wanted sort.
    BadHandle(u32),
    /// The heap has handed out every handle it has.
    OutOfHandles,
    /// A slot of another kind than the instruction needs.
    TypeMismatch,
    /// An integer division by zero.
    DivisionByZero,
    /// An instruction that the interpreter does not know.
    UnknownOpcode(u8),
    /// The instruction needs more slots than the operand stack holds.
    StackUnderflow,
    /// The operand stack would grow beyond the limit that the method declares.
    StackOverflow,
    /// The index of a local variable that the frame does not have.
    LocalOutOfRange,
    /// The instruction pointer, or an operand of the instruction, lies outside
    /// the code.
    CodeOutOfRange,
    /// An array index outside the array, or a negative array length.
    ArrayOutOfRange,
    /// There is no frame to run.
    NoFrame,
    /// A method of the host was handed fewer arguments than it takes.
    MissingArgument,
    /// An array type that `newarray` does not know.
    BadArrayType(u8),
    /// A text that is no integer of 32 bits in decimal digits.
    NumberFormat,
}

} // verus!
