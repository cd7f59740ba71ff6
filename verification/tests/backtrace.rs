use ku::backtrace::{Backtrace, StackFrame, STACK_SIZE};
use ku::error::Error;
use ku::memory::{Block, Virt};
use ku::process::MiniContext;

fn virt(address: usize) -> Virt {
    Virt::new(address).unwrap()
}

#[test]
fn stack_frames_hold_valid_addresses() {
    let frame = StackFrame::validate(0x10_0100, 0x40_1234).unwrap();
    assert_eq!(frame.outer(), 0x10_0100);
    assert_eq!(frame.return_address(), virt(0x40_1234));
    assert_eq!(StackFrame::validate(0x0000_8000_0000_0000, 0).unwrap_err(), Error::InvalidArgument);
    assert_eq!(StackFrame::validate(0, 0xFFFF_0000_0000_0000).unwrap_err(), Error::InvalidArgument);
    assert_eq!(StackFrame::outermost().outer(), 0);
}

#[test]
fn backtrace_walks_up_the_stack() {
    let rbp = 0x10_0000;
    let frame = StackFrame::validate(0x10_0100, 0x40_1234).unwrap();
    let mut backtrace = Backtrace::new(rbp, 0x0F_F000, frame).unwrap();
    assert!(!backtrace.is_over());

    let block = backtrace.outer_block().unwrap();
    assert_eq!(block, Block::<Virt>::from_index(0x10_0100, 0x10_0110).unwrap());
    let outer = StackFrame::validate(0x10_0200, 0x40_5678).unwrap();
    let stepped = backtrace.advance(Some(outer));
    assert_eq!(stepped.return_address(), virt(0x40_1234));
    assert_eq!(backtrace.stack_frame().outer(), 0x10_0200);

    let below = StackFrame::validate(0x10_0000, 0x40_0000).unwrap();
    backtrace.advance(Some(below));
    assert_eq!(backtrace.outer_block(), None);
    backtrace.advance(None);
    assert!(backtrace.is_over());
}

#[test]
fn backtrace_stays_within_its_stack() {
    let rbp = 0x10_0000;
    let far = StackFrame::validate(rbp + STACK_SIZE + 0x1000, 0x40_0000).unwrap();
    let mut backtrace = Backtrace::new(rbp, rbp, far).unwrap();
    assert_eq!(backtrace.outer_block(), None);

    let stack = Block::<Virt>::from_index(rbp, rbp + 2 * STACK_SIZE).unwrap();
    let mut wide = Backtrace::with_stack(Backtrace::new(rbp, rbp, far).unwrap(), stack);
    assert!(wide.outer_block().is_some());

    assert_eq!(Backtrace::new(rbp, 0x0000_8000_0000_0000, far).unwrap_err(), Error::InvalidArgument);
}

#[test]
fn backtrace_of_a_context() {
    let context = MiniContext::new(virt(0x40_1000), virt(0x0F_F000));
    let backtrace = Backtrace::with_context(0x10_0000, context).unwrap();
    assert_eq!(backtrace.stack_frame().outer(), 0x10_0000);
    assert_eq!(backtrace.stack_frame().return_address(), virt(0x40_1000));
}
