//! Hosted-mode control transfer.
//!
//! On bare metal the loader jumps to the staged code and the only sanctioned
//! way back is the terminate syscall.  In hosted mode the loaded code is a
//! sequence of syscall requests handed to the loader, which dispatches each
//! through the ABI table: the app runs until it invokes terminate or a
//! dispatch faults; a request sequence that ends without terminate leaves
//! the app running (a hung app hangs the system; there is no watchdog).
use vstd::prelude::*;

use crate::abi::spec_dispatch;
use crate::abi::AbiTable;
use crate::abi::SyscallEffect;
use crate::abi::SyscallHandler;

verus! {

/// One syscall invocation a hosted app makes: slot number and argument.
#[derive(Clone, Copy, PartialEq, Eq, Structural, Debug)]
pub struct SyscallRequest {
    /// The slot the app asks for.
    pub number: usize,
    /// The argument handed through the calling convention.
    pub arg: i64,
}

/// The per-app execution state after a run.
#[derive(Clone, Copy, PartialEq, Eq, Structural, Debug)]
pub enum RunState {
    /// The requests ran out without terminate: the app never ended.
    Running,
    /// The app invoked terminate with this exit code.
    Terminated(i64),
    /// A dispatch was rejected: out-of-range number or unset slot.
    Faulted,
}

/// The outcome of one hosted run: the final state, the effects of the
/// dispatched syscalls in order, and how many requests were dispatched.
pub struct RunOutcome {
    /// The final per-app state.
    pub state: RunState,
    /// The effects of the successfully dispatched syscalls, in order.
    pub effects: Vec<SyscallEffect>,
    /// The number of requests dispatched; none after terminate or a fault.
    pub steps: usize,
}

/// What a hosted run yields: state, effects and dispatched-request count.
pub open spec fn spec_run(slots: Seq<Option<SyscallHandler>>, prog: Seq<SyscallRequest>) -> (
    RunState,
    Seq<SyscallEffect>,
    int,
)
    decreases prog.len(),
{
    if prog.len() == 0 {
        (RunState::Running, Seq::empty(), 0)
    } else {
        match spec_dispatch(slots, prog.first().number as int, prog.first().arg) {
            Err(_) => (RunState::Faulted, Seq::empty(), 1),
            Ok(eff) => match eff {
                SyscallEffect::Exit(code) => (RunState::Terminated(code), seq![eff], 1),
                _ => {
                    let rest = spec_run(slots, prog.drop_first());
                    (rest.0, seq![eff] + rest.1, 1 + rest.2)
                },
            },
        }
    }
}

/// Transfers control to the staged app in hosted mode: dispatches its
/// requests in order until it terminates, faults, or runs out.
pub fn run_hosted(table: &AbiTable, program: &Vec<SyscallRequest>) -> (r: RunOutcome)
    ensures
        (r.state, r.effects@, r.steps as int) == spec_run(table.spec_slots(), program@),
{
    let ghost slots = table.spec_slots();
    let mut effects: Vec<SyscallEffect> = Vec::new();
    let mut i: usize = 0;
    proof {
        assert(program@.skip(0) =~= program@);
        let rest = spec_run(slots, program@);
        assert(Seq::<SyscallEffect>::empty() + rest.1 =~= rest.1);
    }
    while i < program.len()
        invariant
            i <= program@.len(),
            slots == table.spec_slots(),
            spec_run(slots, program@) == ({
                let rest = spec_run(slots, program@.skip(i as int));
                (rest.0, effects@ + rest.1, i + rest.2)
            }),
        decreases program@.len() - i,
    {
        let req = program[i];
        proof {
            let tail = program@.skip(i as int);
            assert(tail.first() == program@[i as int]);
            assert(tail.drop_first() =~= program@.skip(i as int + 1));
        }
        match table.dispatch(req.number, req.arg) {
            Err(_) => {
                proof {
                    let rest = spec_run(slots, program@.skip(i as int));
                    assert(effects@ + rest.1 =~= effects@);
                }
                return RunOutcome { state: RunState::Faulted, effects, steps: i + 1 };
            },
            Ok(eff) => {
                match eff {
                    SyscallEffect::Exit(code) => {
                        proof {
                            let rest = spec_run(slots, program@.skip(i as int));
                            assert(effects@ + rest.1 =~= effects@.push(eff));
                        }
                        effects.push(eff);
                        return RunOutcome {
                            state: RunState::Terminated(code),
                            effects,
                            steps: i + 1,
                        };
                    },
                    _ => {
                        proof {
                            let rest = spec_run(slots, program@.skip(i as int));
                            let next = spec_run(slots, program@.skip(i as int + 1));
                            assert(effects@ + rest.1 =~= effects@.push(eff) + next.1);
                        }
                        effects.push(eff);
                    },
                }
            },
        }
        i = i + 1;
    }
    proof {
        let rest = spec_run(slots, program@.skip(program@.len() as int));
        assert(program@.skip(program@.len() as int) =~= Seq::<SyscallRequest>::empty());
        assert(effects@ + rest.1 =~= effects@);
    }
    RunOutcome { state: RunState::Running, effects, steps: i }
}

/// A running app that invokes terminate ends with exactly that exit code,
/// and none of its subsequent requests is dispatched.
pub proof fn lemma_terminate_stops(
    slots: Seq<Option<SyscallHandler>>,
    prog: Seq<SyscallRequest>,
    i: int,
    code: i64,
)
    requires
        0 <= i < prog.len(),
        forall|j: int|
            0 <= j < i ==> ({
                let d = #[trigger] spec_dispatch(slots, prog[j].number as int, prog[j].arg);
                d is Ok && !(d->Ok_0 is Exit)
            }),
        spec_dispatch(slots, prog[i].number as int, prog[i].arg) == Ok::<
            SyscallEffect,
            crate::LoaderError,
        >(SyscallEffect::Exit(code)),
    ensures
        spec_run(slots, prog).0 == RunState::Terminated(code),
        spec_run(slots, prog).2 == i + 1,
    decreases i,
{
    if i == 0 {
    } else {
        assert forall|j: int| 0 <= j < i - 1 implies ({
            let d = #[trigger] spec_dispatch(
                slots,
                prog.drop_first()[j].number as int,
                prog.drop_first()[j].arg,
            );
            d is Ok && !(d->Ok_0 is Exit)
        }) by {
            assert(prog.drop_first()[j] == prog[j + 1]);
            assert(spec_dispatch(slots, prog[j + 1].number as int, prog[j + 1].arg) is Ok && !(
            spec_dispatch(slots, prog[j + 1].number as int, prog[j + 1].arg)->Ok_0 is Exit));
        }
        assert(prog.drop_first()[i - 1] == prog[i]);
        lemma_terminate_stops(slots, prog.drop_first(), i - 1, code);
        let d0 = spec_dispatch(slots, prog[0].number as int, prog[0].arg);
        assert(d0 is Ok && !(d0->Ok_0 is Exit));
    }
}

} // verus!
