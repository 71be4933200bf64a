//! The ABI registration table and syscall dispatch.
//!
//! The table is the sole sanctioned path from hosted code to the kernel
//! capabilities.  It is populated before any app runs and is read-only
//! while one runs; slot 0 is reserved and stays unset.
use vstd::prelude::*;

use crate::LoaderError;

verus! {

/// The syscall number of the diagnostic greeting.
pub const SYSCALL_HELLO: usize = 1;

/// The syscall number of character output.
pub const SYSCALL_PUTCHAR: usize = 2;

/// The syscall number of app termination.
pub const SYSCALL_TERMINATE: usize = 3;

/// The hosted-mode handlers: the kernel capabilities the loader exposes.
#[derive(Clone, Copy, PartialEq, Eq, Structural, Debug)]
pub enum SyscallHandler {
    /// Emits the fixed diagnostic greeting; cannot fail.
    Hello,
    /// Emits the low eight bits of its argument as a character.
    Putchar,
    /// Unconditionally ends the current app, carrying its argument as the
    /// exit code; the only handler that does not return to its caller.
    Terminate,
}

/// What one handler invocation does.
#[derive(Clone, Copy, PartialEq, Eq, Structural, Debug)]
pub enum SyscallEffect {
    /// The diagnostic greeting.
    Hello,
    /// One character of output.
    EmitChar(u8),
    /// The app ends with this exit code.
    Exit(i64),
}

/// The effect of invoking handler `h` exactly once with argument `arg`.
pub open spec fn spec_invoke(h: SyscallHandler, arg: i64) -> SyscallEffect {
    match h {
        SyscallHandler::Hello => SyscallEffect::Hello,
        SyscallHandler::Putchar => SyscallEffect::EmitChar((arg & 0xff) as u8),
        SyscallHandler::Terminate => SyscallEffect::Exit(arg),
    }
}

/// Invokes a handler once: computes what the invocation does.
pub fn invoke_handler(h: &SyscallHandler, arg: i64) -> (r: SyscallEffect)
    ensures
        r == spec_invoke(*h, arg),
{
    match h {
        SyscallHandler::Hello => SyscallEffect::Hello,
        SyscallHandler::Putchar => {
            proof {
                assert(0 <= (arg & 0xff) < 256) by (bit_vector);
            }
            SyscallEffect::EmitChar((arg & 0xff) as u8)
        },
        SyscallHandler::Terminate => SyscallEffect::Exit(arg),
    }
}

/// What dispatching syscall `number` with `arg` through the slots yields: a
/// number past the capacity is a bounds violation, an unset slot an unknown
/// syscall; both are fatal, never a silent no-op.
pub open spec fn spec_dispatch(
    slots: Seq<Option<SyscallHandler>>,
    number: int,
    arg: i64,
) -> Result<SyscallEffect, LoaderError> {
    if number < 0 || number >= slots.len() {
        Err(LoaderError::OutOfBounds)
    } else {
        match slots[number] {
            Some(h) => Ok(spec_invoke(h, arg)),
            None => Err(LoaderError::UnknownSyscall),
        }
    }
}

/// The ABI registration table: a fixed-capacity map from syscall number to
/// handler, every slot unset until registered.
pub struct AbiTable {
    slots: Vec<Option<SyscallHandler>>,
}

impl AbiTable {
    /// The slot assignment; the capacity is its length.
    pub closed spec fn spec_slots(self) -> Seq<Option<SyscallHandler>> {
        self.slots@
    }

    /// Slot 0 is reserved and stays unset.
    pub open spec fn wf(self) -> bool {
        self.spec_slots().len() > 0 ==> self.spec_slots()[0] is None
    }

    /// A table of `capacity` slots, all unset.
    pub fn new(capacity: usize) -> (r: Self)
        ensures
            r.spec_slots().len() == capacity,
            forall|k: int| 0 <= k < capacity ==> r.spec_slots()[k] is None,
            r.wf(),
    {
        let mut slots: Vec<Option<SyscallHandler>> = Vec::new();
        while slots.len() < capacity
            invariant
                slots@.len() <= capacity,
                forall|k: int| 0 <= k < slots@.len() ==> slots@[k] is None,
            decreases capacity - slots@.len(),
        {
            slots.push(None);
        }
        AbiTable { slots }
    }

    /// The number of slots.
    pub fn capacity(&self) -> (r: usize)
        ensures
            r == self.spec_slots().len(),
    {
        self.slots.len()
    }

    /// Installs `handler` at slot `number`; re-registration overwrites,
    /// last write wins.  A number at or past the capacity is a bounds
    /// violation, rejected, never wrapped; so is the reserved slot 0.
    pub fn register(&mut self, number: usize, handler: SyscallHandler) -> (r: Result<
        (),
        LoaderError,
    >)
        ensures
            (number == 0 || number >= old(self).spec_slots().len()) ==> ({
                &&& r matches Err(e)
                &&& e == LoaderError::OutOfBounds
                &&& *final(self) == *old(self)
            }),
            (1 <= number < old(self).spec_slots().len()) ==> ({
                &&& r is Ok
                &&& final(self).spec_slots() == old(self).spec_slots().update(
                    number as int,
                    Some(handler),
                )
            }),
            old(self).wf() ==> final(self).wf(),
    {
        if number == 0 || number >= self.slots.len() {
            return Err(LoaderError::OutOfBounds);
        }
        self.slots[number] = Some(handler);
        Ok(())
    }

    /// Looks the number up and invokes the registered handler exactly once,
    /// the argument passed through unmodified; fatal on an out-of-range
    /// number or an unset slot.
    pub fn dispatch(&self, number: usize, arg: i64) -> (r: Result<SyscallEffect, LoaderError>)
        ensures
            r == spec_dispatch(self.spec_slots(), number as int, arg),
    {
        if number >= self.slots.len() {
            return Err(LoaderError::OutOfBounds);
        }
        match self.slots[number] {
            Some(h) => Ok(invoke_handler(&h, arg)),
            None => Err(LoaderError::UnknownSyscall),
        }
    }
}

/// Installs the fixed handler set at its ABI numbers before any app runs;
/// slot 0 stays reserved.
pub fn install_default_handlers(table: &mut AbiTable) -> (r: Result<(), LoaderError>)
    requires
        old(table).spec_slots().len() > SYSCALL_TERMINATE,
    ensures
        r is Ok,
        final(table).spec_slots() == old(table).spec_slots().update(
            SYSCALL_HELLO as int,
            Some(SyscallHandler::Hello),
        ).update(SYSCALL_PUTCHAR as int, Some(SyscallHandler::Putchar)).update(
            SYSCALL_TERMINATE as int,
            Some(SyscallHandler::Terminate),
        ),
        old(table).wf() ==> final(table).wf(),
{
    let r1 = table.register(SYSCALL_HELLO, SyscallHandler::Hello);
    let r2 = table.register(SYSCALL_PUTCHAR, SyscallHandler::Putchar);
    let r3 = table.register(SYSCALL_TERMINATE, SyscallHandler::Terminate);
    proof {
        assert(r1 is Ok && r2 is Ok && r3 is Ok);
    }
    Ok(())
}

/// Registering a handler at a registrable slot and then dispatching that
/// slot's number invokes exactly that handler once, the argument passed
/// through unmodified.
pub proof fn lemma_register_then_dispatch(
    slots: Seq<Option<SyscallHandler>>,
    number: int,
    h: SyscallHandler,
    arg: i64,
)
    requires
        1 <= number < slots.len(),
    ensures
        spec_dispatch(slots.update(number, Some(h)), number, arg) == Ok::<
            SyscallEffect,
            LoaderError,
        >(spec_invoke(h, arg)),
{
}

/// Dispatch to the reserved, unregistered slot 0 is rejected as fatal,
/// never treated as a silent no-op: an empty table reports the bounds
/// violation, any other well-formed table the unknown syscall.
pub proof fn lemma_dispatch_reserved_slot(t: AbiTable, arg: i64)
    requires
        t.wf(),
    ensures
        spec_dispatch(t.spec_slots(), 0, arg) == if t.spec_slots().len() == 0 {
            Err::<SyscallEffect, LoaderError>(LoaderError::OutOfBounds)
        } else {
            Err::<SyscallEffect, LoaderError>(LoaderError::UnknownSyscall)
        },
{
}

} // verus!
