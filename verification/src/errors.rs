//! The failures that the machine reports.
//!
//! Every failure carries a reason in words. `Chip8Error` says which kind of failure
//! it is; its view, `Fault`, is what the contracts of the crate speak of.

use vstd::prelude::*;

verus! {

/// An access that does not lie inside the address space.
#[derive(Debug, PartialEq, Eq)]
pub struct InvalidAccessError {
    reason: String,
}

impl View for InvalidAccessError {
    type V = Seq<char>;

    closed spec fn view(&self) -> Seq<char> {
        self.reason@
    }
}

impl InvalidAccessError {
    pub fn new(reason: &str) -> (e: Self)
        ensures
            e@ == reason@,
    {
        Self { reason: String::from_str(reason) }
    }

    /// The reason alone.
    pub fn reason(&self) -> (r: &str)
        ensures
            r@ == self@,
    {
        self.reason.as_str()
    }

    /// The reason behind the name of the failure.
    pub fn message(&self) -> (m: String)
        ensures
            m@ == "InvalidAccessError : "@ + self@,
    {
        let mut m: String = String::from_str("InvalidAccessError : ");
        m.append(self.reason.as_str());
        m
    }
}

/// An instruction that cannot be carried out.
#[derive(Debug, PartialEq, Eq)]
pub struct InvalidInstructionError {
    reason: String,
}

impl View for InvalidInstructionError {
    type V = Seq<char>;

    closed spec fn view(&self) -> Seq<char> {
        self.reason@
    }
}

impl InvalidInstructionError {
    pub fn new(reason: &str) -> (e: Self)
        ensures
            e@ == reason@,
    {
        Self { reason: String::from_str(reason) }
    }

    /// The reason alone.
    pub fn reason(&self) -> (r: &str)
        ensures
            r@ == self@,
    {
        self.reason.as_str()
    }

    /// The reason behind the name of the failure.
    pub fn message(&self) -> (m: String)
        ensures
            m@ == "InvalidInstructionError : "@ + self@,
    {
        let mut m: String = String::from_str("InvalidInstructionError : ");
        m.append(self.reason.as_str());
        m
    }
}

/// A program image that cannot be loaded.
#[derive(Debug, PartialEq, Eq)]
pub struct ProgramLoadingError {
    reason: String,
}

impl View for ProgramLoadingError {
    type V = Seq<char>;

    closed spec fn view(&self) -> Seq<char> {
        self.reason@
    }
}

impl ProgramLoadingError {
    pub fn new(reason: &str) -> (e: Self)
        ensures
            e@ == reason@,
    {
        Self { reason: String::from_str(reason) }
    }

    /// The reason alone.
    pub fn reason(&self) -> (r: &str)
        ensures
            r@ == self@,
    {
        self.reason.as_str()
    }

    /// The reason behind the name of the failure.
    pub fn message(&self) -> (m: String)
        ensures
            m@ == "ProgramLoadingError : "@ + self@,
    {
        let mut m: String = String::from_str("ProgramLoadingError : ");
        m.append(self.reason.as_str());
        m
    }
}

/// Why an operation of the machine failed.
#[derive(Debug, PartialEq, Eq)]
pub enum Chip8Error {
    /// An address, or an address and a length, outside the address space.
    OutOfRange(InvalidAccessError),
    /// Two bytes that encode no instruction.
    InvalidInstruction(InvalidInstructionError),
    /// A call with the call stack full.
    StackOverflow(InvalidInstructionError),
    /// A return with the call stack empty.
    StackUnderflow(InvalidInstructionError),
    /// A program image longer than the program region.
    ProgramTooLarge(ProgramLoadingError),
}

/// The kind of a failure and its reason, as a mathematical value.
pub enum Fault {
    OutOfRange(Seq<char>),
    InvalidInstruction(Seq<char>),
    StackOverflow(Seq<char>),
    StackUnderflow(Seq<char>),
    ProgramTooLarge(Seq<char>),
}

impl View for Chip8Error {
    type V = Fault;

    open spec fn view(&self) -> Fault {
        match self {
            Chip8Error::OutOfRange(e) => Fault::OutOfRange(e@),
            Chip8Error::InvalidInstruction(e) => Fault::InvalidInstruction(e@),
            Chip8Error::StackOverflow(e) => Fault::StackOverflow(e@),
            Chip8Error::StackUnderflow(e) => Fault::StackUnderflow(e@),
            Chip8Error::ProgramTooLarge(e) => Fault::ProgramTooLarge(e@),
        }
    }
}

impl Fault {
    /// The message of the failure: the name of the error that carries the reason, then
    /// the reason.
    pub open spec fn message(self) -> Seq<char> {
        match self {
            Fault::OutOfRange(r) => "InvalidAccessError : "@ + r,
            Fault::InvalidInstruction(r) => "InvalidInstructionError : "@ + r,
            Fault::StackOverflow(r) => "InvalidInstructionError : "@ + r,
            Fault::StackUnderflow(r) => "InvalidInstructionError : "@ + r,
            Fault::ProgramTooLarge(r) => "ProgramLoadingError : "@ + r,
        }
    }
}

impl Chip8Error {
    /// The message of the failure, as the error that it carries words it.
    pub fn message(&self) -> (m: String)
        ensures
            m@ == self@.message(),
    {
        match self {
            Chip8Error::OutOfRange(e) => e.message(),
            Chip8Error::InvalidInstruction(e) => e.message(),
            Chip8Error::StackOverflow(e) => e.message(),
            Chip8Error::StackUnderflow(e) => e.message(),
            Chip8Error::ProgramTooLarge(e) => e.message(),
        }
    }
}

} // verus!
