use loader::abi::install_default_handlers;
use loader::abi::invoke_handler;
use loader::abi::AbiTable;
use loader::abi::SyscallEffect;
use loader::abi::SyscallHandler;
use loader::abi::SYSCALL_HELLO;
use loader::abi::SYSCALL_PUTCHAR;
use loader::abi::SYSCALL_TERMINATE;
use loader::hosted::run_hosted;
use loader::hosted::RunState;
use loader::hosted::SyscallRequest;
use loader::LoaderError;

#[test]
fn register_then_dispatch_invokes_the_handler() {
    // registering H at slot S, then dispatching syscall S, invokes H once
    // with the argument passed through unmodified
    let mut t = AbiTable::new(8);
    t.register(5, SyscallHandler::Putchar).unwrap();
    assert_eq!(t.dispatch(5, 0x41).unwrap(), SyscallEffect::EmitChar(0x41));
    // the low eight bits of the code are emitted
    assert_eq!(t.dispatch(5, 0x341).unwrap(), SyscallEffect::EmitChar(0x41));
}

#[test]
fn reregistration_last_write_wins() {
    let mut t = AbiTable::new(8);
    t.register(2, SyscallHandler::Hello).unwrap();
    t.register(2, SyscallHandler::Terminate).unwrap();
    assert_eq!(t.dispatch(2, 9).unwrap(), SyscallEffect::Exit(9));
}

#[test]
fn slot_zero_dispatch_is_fatal() {
    // slot 0 is reserved and unregistered: dispatch is rejected, never a
    // silent no-op
    let mut t = AbiTable::new(8);
    install_default_handlers(&mut t).unwrap();
    assert_eq!(t.dispatch(0, 0).unwrap_err(), LoaderError::UnknownSyscall);
    // the reserved slot cannot even be registered
    assert_eq!(t.register(0, SyscallHandler::Hello).unwrap_err(), LoaderError::OutOfBounds);
}

#[test]
fn out_of_range_numbers_are_bounds_violations() {
    let mut t = AbiTable::new(4);
    assert_eq!(t.register(4, SyscallHandler::Hello).unwrap_err(), LoaderError::OutOfBounds);
    assert_eq!(t.dispatch(4, 0).unwrap_err(), LoaderError::OutOfBounds);
    assert_eq!(t.dispatch(9999, 0).unwrap_err(), LoaderError::OutOfBounds);
}

#[test]
fn unregistered_slot_is_unknown_syscall() {
    let t = AbiTable::new(8);
    assert_eq!(t.dispatch(3, 0).unwrap_err(), LoaderError::UnknownSyscall);
}

#[test]
fn default_handler_set() {
    let mut t = AbiTable::new(8);
    install_default_handlers(&mut t).unwrap();
    assert_eq!(t.dispatch(SYSCALL_HELLO, 0).unwrap(), SyscallEffect::Hello);
    assert_eq!(t.dispatch(SYSCALL_PUTCHAR, b'A' as i64).unwrap(), SyscallEffect::EmitChar(b'A'));
    assert_eq!(t.dispatch(SYSCALL_TERMINATE, -7).unwrap(), SyscallEffect::Exit(-7));
}

#[test]
fn invoke_handler_effects() {
    assert_eq!(invoke_handler(&SyscallHandler::Hello, 123), SyscallEffect::Hello);
    assert_eq!(invoke_handler(&SyscallHandler::Putchar, 0x1ff), SyscallEffect::EmitChar(0xff));
    assert_eq!(invoke_handler(&SyscallHandler::Terminate, 42), SyscallEffect::Exit(42));
}

#[test]
fn terminate_ends_the_run_and_skips_the_rest() {
    // a running app calls terminate(42): the loader reports exit code 42
    // and dispatches none of the app's subsequent requests
    let mut t = AbiTable::new(8);
    install_default_handlers(&mut t).unwrap();
    let program = vec![
        SyscallRequest { number: SYSCALL_HELLO, arg: 0 },
        SyscallRequest { number: SYSCALL_PUTCHAR, arg: b'H' as i64 },
        SyscallRequest { number: SYSCALL_TERMINATE, arg: 42 },
        SyscallRequest { number: SYSCALL_PUTCHAR, arg: b'X' as i64 },
    ];
    let outcome = run_hosted(&t, &program);
    assert_eq!(outcome.state, RunState::Terminated(42));
    assert_eq!(outcome.steps, 3);
    assert_eq!(
        outcome.effects,
        vec![
            SyscallEffect::Hello,
            SyscallEffect::EmitChar(b'H'),
            SyscallEffect::Exit(42),
        ]
    );
}

#[test]
fn hosted_run_faults_on_unknown_syscall() {
    let mut t = AbiTable::new(8);
    install_default_handlers(&mut t).unwrap();
    let program = vec![
        SyscallRequest { number: SYSCALL_PUTCHAR, arg: b'a' as i64 },
        SyscallRequest { number: 7, arg: 0 },
        SyscallRequest { number: SYSCALL_TERMINATE, arg: 0 },
    ];
    let outcome = run_hosted(&t, &program);
    assert_eq!(outcome.state, RunState::Faulted);
    assert_eq!(outcome.steps, 2);
    assert_eq!(outcome.effects, vec![SyscallEffect::EmitChar(b'a')]);
}

#[test]
fn hosted_run_without_terminate_stays_running() {
    let mut t = AbiTable::new(8);
    install_default_handlers(&mut t).unwrap();
    let program = vec![SyscallRequest { number: SYSCALL_HELLO, arg: 0 }];
    let outcome = run_hosted(&t, &program);
    assert_eq!(outcome.state, RunState::Running);
    assert_eq!(outcome.steps, 1);
}
