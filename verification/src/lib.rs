//! Bootstrap application-loading and system-call dispatch core.
//!
//! The crate ingests a packed multi-app image or a segment-structured
//! executable container, stages application bytes into an executable run
//! window, exposes a small set of kernel capabilities through an indexable
//! handler table, and models the transfer of control to the staged code.
use vstd::prelude::*;

pub mod abi;
pub mod addr;
pub mod early;
pub mod early_byte;
pub mod early_page;
pub mod hosted;
pub mod image;
pub mod region;
pub mod segment;
pub mod stage;

verus! {

/// Errors of the loading and dispatch core.
#[derive(Clone, Copy, PartialEq, Eq, Structural, Debug)]
pub enum LoaderError {
    /// A header or container failed structural validation.
    MalformedImage,
    /// The page allocator could not satisfy a request.
    OutOfMemory,
    /// A copy or stage exceeds a declared capacity, or a syscall number
    /// exceeds the table capacity.
    OutOfBounds,
    /// Dispatch reached an empty slot.
    UnknownSyscall,
}

/// Errors of the early allocators.
#[derive(Clone, Copy, PartialEq, Eq, Structural, Debug)]
pub enum AllocError {
    /// An argument (alignment, page count) is unacceptable.
    InvalidParam,
    /// The allocator is exhausted.
    NoMemory,
}

/// Allocation results.
pub type AllocResult<T> = Result<T, AllocError>;

} // verus!
