//! Command-line assembly, the bounded loop, and error messages.

use uow_core::command_exec::dispatch_order_command;
use uow_core::error::Error;
use uow_core::orders::{divide, handle_division};
use uow_core::products::{handle_iteration, process_items, run_loop, LoopState};

#[test]
fn dispatch_command_is_the_segments_in_order() {
    let cmd = dispatch_order_command(
        b"ship order".to_vec(),
        b" [DIR:/srv][USER:ops]".to_vec(),
        b" [ORDER:9][STATUS:processed]".to_vec(),
        b" [REQ:42]".to_vec(),
    );
    assert_eq!(
        cmd,
        b"ship order [DIR:/srv][USER:ops] [ORDER:9][STATUS:processed] [REQ:42]".to_vec()
    );
}

#[test]
fn dispatch_command_with_empty_segments_is_the_payload() {
    let cmd = dispatch_order_command(b"noop".to_vec(), Vec::new(), Vec::new(), Vec::new());
    assert_eq!(cmd, b"noop".to_vec());
}

#[test]
fn iteration_renders_decimal_digits() {
    assert_eq!(handle_iteration(0), b"0".to_vec());
    assert_eq!(handle_iteration(7), b"7".to_vec());
    assert_eq!(handle_iteration(10), b"10".to_vec());
    assert_eq!(handle_iteration(90817), b"90817".to_vec());
    assert_eq!(handle_iteration(u64::MAX), b"18446744073709551615".to_vec());
}

#[test]
fn loop_processes_up_to_the_limit() {
    let state = LoopState::new(5);
    assert!(state.should_run());
    assert_eq!(process_items(state), 5);

    let empty = LoopState::new(0);
    assert!(!empty.should_run());

    run_loop(0);
    run_loop(3);
}

#[test]
fn division_accepts_nonzero_divisors() {
    divide(4);
    divide(-1);
    handle_division(25);
}

#[test]
fn error_messages_name_the_failure() {
    assert_eq!(Error::TransactionInUse.message(), "transaction is still in use");
    assert_eq!(Error::AlreadyExists.message(), "already exists");
    assert_eq!(Error::NotFound.message(), "not found");
    assert_eq!(Error::BadInput.message(), "bad input");
}
