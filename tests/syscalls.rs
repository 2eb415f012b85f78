use std::cell::Cell;

use libtock::callback::{dispatch, SubscribableCallback};
use libtock::platform::{MockKernel, RawSyscalls, Trap, Upcall, EBUSY};
use libtock::syscalls::{command, command1_insecure, subscribe, subscribe_fn, yieldk};

struct Counter {
    calls: Cell<usize>,
    last: Cell<(usize, usize, usize)>,
}

impl Counter {
    fn new() -> Counter {
        Counter { calls: Cell::new(0), last: Cell::new((0, 0, 0)) }
    }
}

impl SubscribableCallback for Counter {
    fn call_rust(&self, arg1: usize, arg2: usize, arg3: usize) {
        self.calls.set(self.calls.get() + 1);
        self.last.set((arg1, arg2, arg3));
    }
}

/// Re-enters itself through the trampoline while an earlier call is still running, as a
/// callback that yields would when the kernel has another upcall pending.
struct Reentrant {
    depth: Cell<usize>,
    deepest: Cell<usize>,
    total: Cell<usize>,
    finished: Cell<usize>,
}

impl SubscribableCallback for Reentrant {
    fn call_rust(&self, arg1: usize, _arg2: usize, _arg3: usize) {
        self.depth.set(self.depth.get() + 1);
        if self.depth.get() > self.deepest.get() {
            self.deepest.set(self.depth.get());
        }
        if arg1 > 0 {
            dispatch(self, arg1 - 1, 0, 0);
        }
        self.total.set(self.total.get() + arg1);
        self.depth.set(self.depth.get() - 1);
        self.finished.set(self.finished.get() + 1);
    }
}

#[test]
fn subscribe_then_release_clears_the_slot() {
    let mut kernel = MockKernel::new();
    let cb = Counter::new();
    let handle = subscribe(&mut kernel, 1, 0, &cb).expect("kernel answered 0");
    assert_eq!(handle.driver_number(), 1);
    assert_eq!(handle.subscribe_number(), 0);
    assert!(kernel.is_subscribed(1, 0));
    assert_eq!(kernel.trap_count(), 1);
    match kernel.trap(0) {
        Trap::Subscribe { driver, subscribe, upcall, userdata: _ } => {
            assert_eq!((driver, subscribe), (1, 0));
            assert_ne!(upcall, Upcall::Null);
        }
        other => panic!("unexpected trap {:?}", other),
    }
    assert_eq!(handle.unsubscribe(&mut kernel), Ok(()));
    assert_eq!(kernel.trap_count(), 2);
    assert_eq!(
        kernel.trap(1),
        Trap::Subscribe { driver: 1, subscribe: 0, upcall: Upcall::Null, userdata: 0 }
    );
    assert!(!kernel.is_subscribed(1, 0));
}

#[test]
fn subscribe_failure_returns_the_code_and_no_handle() {
    let mut kernel = MockKernel::new();
    kernel.set_reply(-4);
    let cb = Counter::new();
    assert!(matches!(subscribe(&mut kernel, 5, 2, &cb), Err(-4)));
    assert!(!kernel.is_subscribed(5, 2));
    assert_eq!(kernel.trap_count(), 1);
    assert_eq!(kernel.answer(0), -4);
}

#[test]
fn failed_unsubscribe_is_reported() {
    let mut kernel = MockKernel::new();
    let cb = Counter::new();
    let handle = subscribe(&mut kernel, 3, 1, &cb).unwrap();
    kernel.set_reply(-7);
    assert_eq!(handle.unsubscribe(&mut kernel), Err(-7));
    assert_eq!(
        kernel.trap(1),
        Trap::Subscribe { driver: 3, subscribe: 1, upcall: Upcall::Null, userdata: 0 }
    );
    assert_eq!(kernel.trap_count(), 2);
}

#[test]
fn failed_allow_leaves_the_buffer_usable() {
    let mut kernel = MockKernel::new();
    kernel.set_reply(-1);
    let mut buf = [0u8; 10];
    assert!(matches!(libtock::syscalls::allow(&mut kernel, 2, 3, &mut buf), Err(-1)));
    buf[0] = 7;
    assert_eq!(buf[0], 7);
    assert!(!kernel.is_allowed(2, 3));
    assert_eq!(kernel.trap_count(), 1);
    assert_eq!(kernel.trap(0), Trap::Allow { driver: 2, allow: 3, len: 10 });
}

#[test]
fn reclaim_issues_one_zero_length_allow() {
    let mut kernel = MockKernel::new();
    let mut buf = [9u8; 4];
    let shared = libtock::syscalls::allow(&mut kernel, 4, 1, &mut buf).unwrap();
    assert_eq!(shared.len(), 4);
    assert_eq!((shared.driver_number(), shared.allow_number()), (4, 1));
    assert!(kernel.is_allowed(4, 1));
    let (back, status) = shared.reclaim(&mut kernel);
    assert_eq!(status, Ok(()));
    assert_eq!(back, &[9u8, 9, 9, 9][..]);
    assert_eq!(kernel.trap_count(), 2);
    assert_eq!(kernel.trap(0), Trap::Allow { driver: 4, allow: 1, len: 4 });
    assert_eq!(kernel.trap(1), Trap::Allow { driver: 4, allow: 1, len: 0 });
    assert!(!kernel.is_allowed(4, 1));
}

#[test]
fn reclaimed_buffer_can_be_allowed_again() {
    let mut kernel = MockKernel::new();
    let mut first = [1u8; 8];
    let mut second = [2u8; 3];
    let shared = libtock::syscalls::allow(&mut kernel, 2, 3, &mut first).unwrap();
    let (back, status) = shared.reclaim(&mut kernel);
    assert_eq!(status, Ok(()));
    back[0] = 5;
    let again = libtock::syscalls::allow(&mut kernel, 2, 3, back).unwrap();
    assert_eq!(again.len(), 8);
    let (_, status) = again.reclaim(&mut kernel);
    assert_eq!(status, Ok(()));
    assert_eq!(first[0], 5);
    let other = libtock::syscalls::allow(&mut kernel, 2, 3, &mut second).unwrap();
    assert_eq!(other.len(), 3);
    assert_eq!(kernel.trap_count(), 5);
    assert_eq!(kernel.trap(1), Trap::Allow { driver: 2, allow: 3, len: 0 });
}

#[test]
fn failed_reclaim_is_reported_and_returns_the_buffer() {
    let mut kernel = MockKernel::new();
    let mut buf = [3u8; 2];
    let shared = libtock::syscalls::allow(&mut kernel, 6, 0, &mut buf).unwrap();
    kernel.set_reply(-3);
    let (back, status) = shared.reclaim(&mut kernel);
    assert_eq!(status, Err(-3));
    assert_eq!(back.len(), 2);
    assert_eq!(kernel.trap(1), Trap::Allow { driver: 6, allow: 0, len: 0 });
}

#[test]
fn nested_dispatch_completes_both_calls() {
    let cb = Reentrant {
        depth: Cell::new(0),
        deepest: Cell::new(0),
        total: Cell::new(0),
        finished: Cell::new(0),
    };
    dispatch(&cb, 1, 0, 0);
    assert_eq!(cb.deepest.get(), 2);
    assert_eq!(cb.finished.get(), 2);
    assert_eq!(cb.total.get(), 1);
    assert_eq!(cb.depth.get(), 0);
}

#[test]
fn dispatch_hands_over_the_three_words() {
    let cb = Counter::new();
    dispatch(&cb, 10, 20, 30);
    assert_eq!(cb.calls.get(), 1);
    assert_eq!(cb.last.get(), (10, 20, 30));
}

#[test]
fn commands_return_the_answer_as_is() {
    let mut kernel = MockKernel::new();
    assert_eq!(command(&mut kernel, 8, 1, 100, 200), 0);
    kernel.set_reply(42);
    assert_eq!(command(&mut kernel, 8, 2, 0, 0), 42);
    assert_eq!(command1_insecure(&mut kernel, 9, 3, 77), 42);
    assert_eq!(kernel.trap(0), Trap::Command { driver: 8, command: 1, arg1: 100, arg2: 200 });
    assert_eq!(kernel.trap(2), Trap::Command1 { driver: 9, command: 3, arg: 77 });
}

#[test]
fn subscribe_fn_passes_the_raw_words() {
    let mut kernel = MockKernel::new();
    assert_eq!(subscribe_fn(&mut kernel, 1, 2, Upcall::Function(0x40), 0x99), 0);
    assert_eq!(
        kernel.trap(0),
        Trap::Subscribe { driver: 1, subscribe: 2, upcall: Upcall::Function(0x40), userdata: 0x99 }
    );
    assert!(kernel.is_subscribed(1, 2));
    assert_eq!(subscribe_fn(&mut kernel, 1, 2, Upcall::Null, 0), 0);
    assert!(!kernel.is_subscribed(1, 2));
}

#[test]
fn yield_is_recorded() {
    let mut kernel = MockKernel::new();
    yieldk(&mut kernel);
    assert_eq!(kernel.trap_count(), 1);
    assert_eq!(kernel.trap(0), Trap::Yield);
    assert_eq!(kernel.answer(0), 0);
}

#[test]
fn distinct_callbacks_get_distinct_entries() {
    let mut kernel = MockKernel::new();
    let a = Counter::new();
    let b = Counter::new();
    let _ha = subscribe(&mut kernel, 1, 0, &a).unwrap();
    let _hb = subscribe(&mut kernel, 1, 1, &b).unwrap();
    assert_ne!(kernel.trap(0), kernel.trap(1));
}

#[test]
fn mock_refuses_a_second_region_until_revoked() {
    let mut kernel = MockKernel::new();
    let mut big = [0u8; 16];
    let mut small = [0u8; 4];
    let mut none: [u8; 0] = [];
    assert_eq!(RawSyscalls::allow(&mut kernel, 1, 1, &mut big), 0);
    assert_eq!(RawSyscalls::allow(&mut kernel, 1, 1, &mut small), EBUSY);
    assert_eq!(RawSyscalls::allow(&mut kernel, 1, 1, &mut none), 0);
    assert_eq!(RawSyscalls::allow(&mut kernel, 1, 1, &mut small), 0);
    assert!(kernel.is_allowed(1, 1));
}

#[test]
fn empty_allow_still_gives_a_handle_that_reclaims() {
    let mut kernel = MockKernel::new();
    let mut none: [u8; 0] = [];
    let shared = libtock::syscalls::allow(&mut kernel, 7, 2, &mut none).unwrap();
    assert_eq!(shared.len(), 0);
    let (_, status) = shared.reclaim(&mut kernel);
    assert_eq!(status, Ok(()));
    assert_eq!(kernel.trap(1), Trap::Allow { driver: 7, allow: 2, len: 0 });
    assert_eq!(kernel.trap_count(), 2);
}
