use vstd::prelude::*;

use crate::callback::{CallbackSubscription, SubscribableCallback};
use crate::platform::{Bridge, RawSyscalls, Trap, Upcall};
use crate::shared_memory::SharedMemory;

verus! {

/// `after` is `before` with exactly one more trap, `trap`, whatever its answer.
pub open spec fn issued_one(before: Seq<(Trap, isize)>, after: Seq<(Trap, isize)>, trap: Trap) -> bool {
    &&& after.len() == before.len() + 1
    &&& after.drop_last() == before
    &&& after.last().0 == trap
}

/// The status the kernel answered to the latest trap.
pub open spec fn answer_to(history: Seq<(Trap, isize)>) -> isize {
    history.last().1
}

/// The zero-is-success convention of subscribe and allow.
pub open spec fn status(code: isize) -> Result<(), isize> {
    if code == 0 {
        Ok(())
    } else {
        Err(code)
    }
}

/// Appending one answered trap is issuing exactly that trap.
pub proof fn lemma_push_issues(before: Seq<(Trap, isize)>, trap: Trap, code: isize)
    ensures
        issued_one(before, before.push((trap, code)), trap),
        answer_to(before.push((trap, code))) == code,
{
    assert(before.push((trap, code)).drop_last() =~= before);
}

/// How many entries of `history` issued `trap`.
pub open spec fn count_traps(history: Seq<(Trap, isize)>, trap: Trap) -> nat
    decreases history.len(),
{
    if history.len() == 0 {
        0
    } else {
        count_traps(history.drop_last(), trap) + if history.last().0 == trap {
            1nat
        } else {
            0nat
        }
    }
}

/// `trap` registers a callback entry on `(driver, subscribe)`.
pub open spec fn registers(trap: Trap, driver: usize, subscribe: usize) -> bool {
    match trap {
        Trap::Subscribe { driver: d, subscribe: s, upcall, userdata: _ } => d == driver && s == subscribe
            && upcall != Upcall::Null,
        _ => false,
    }
}

/// `trap` registers, on `(driver, subscribe)`, the trampoline entry and context word that
/// platform `P` bridges for `callback`.
pub open spec fn registers_callback<P: Bridge<CB>, CB: SubscribableCallback>(
    trap: Trap,
    driver: usize,
    subscribe: usize,
    callback: &CB,
) -> bool {
    match trap {
        Trap::Subscribe { driver: d, subscribe: s, upcall, userdata } => d == driver && s == subscribe
            && upcall != Upcall::Null && P::bridges(upcall, userdata, callback),
        _ => false,
    }
}

/// Suspends until the kernel has delivered pending upcalls, which run the subscribed
/// callbacks, possibly nested.
pub fn yieldk<P: RawSyscalls>(platform: &mut P)
    ensures
        final(platform).history() == old(platform).history().push((Trap::Yield, 0)),
        final(platform).owned_subscriptions() == old(platform).owned_subscriptions(),
        final(platform).owned_allows() == old(platform).owned_allows(),
{
    platform.yieldk();
}

/// Registers `callback` on `(driver_number, subscribe_number)` with one trap that carries
/// its trampoline entry and context word.
///
/// A zero answer yields the handle that owns the slot; any other answer is returned as is
/// and no handle exists. The callback must stay where it is for as long as the handle lives.
pub fn subscribe<P: Bridge<CB>, CB: SubscribableCallback>(
    platform: &mut P,
    driver_number: usize,
    subscribe_number: usize,
    callback: &CB,
) -> (r: Result<CallbackSubscription, isize>)
    requires
        !old(platform).owned_subscriptions().contains((driver_number, subscribe_number)),
    ensures
        final(platform).history().len() == old(platform).history().len() + 1,
        final(platform).history().drop_last() == old(platform).history(),
        registers_callback::<P, CB>(final(platform).history().last().0, driver_number, subscribe_number, callback),
        match r {
            Ok(handle) => answer_to(final(platform).history()) == 0 && handle@ == (driver_number, subscribe_number),
            Err(code) => answer_to(final(platform).history()) != 0 && code == answer_to(final(platform).history()),
        },
        final(platform).owned_subscriptions() == if r is Ok {
            old(platform).owned_subscriptions().insert((driver_number, subscribe_number))
        } else {
            old(platform).owned_subscriptions()
        },
        final(platform).owned_allows() == old(platform).owned_allows(),
{
    let (upcall, userdata) = platform.upcall_for(callback);
    let ghost before = platform.history();
    let code = platform.subscribe_owned(driver_number, subscribe_number, upcall, userdata);
    proof {
        lemma_push_issues(
            before,
            Trap::Subscribe { driver: driver_number, subscribe: subscribe_number, upcall, userdata },
            code,
        );
    }
    if code == 0 {
        Ok(CallbackSubscription::new(driver_number, subscribe_number))
    } else {
        Err(code)
    }
}

/// Registers a raw entry point and context word on `(driver_number, subscribe_number)`,
/// returning the kernel's answer as is.
pub fn subscribe_fn<P: RawSyscalls>(
    platform: &mut P,
    driver_number: usize,
    subscribe_number: usize,
    callback: Upcall,
    userdata: usize,
) -> (r: isize)
    requires
        !old(platform).owned_subscriptions().contains((driver_number, subscribe_number)),
    ensures
        final(platform).history() == old(platform).history().push(
            (Trap::Subscribe { driver: driver_number, subscribe: subscribe_number, upcall: callback, userdata }, r),
        ),
        final(platform).owned_subscriptions() == old(platform).owned_subscriptions(),
        final(platform).owned_allows() == old(platform).owned_allows(),
{
    platform.subscribe(driver_number, subscribe_number, callback, userdata)
}

/// Issues a command with two arguments; the answer is returned uninterpreted, since what it
/// means depends on the command.
pub fn command<P: RawSyscalls>(
    platform: &mut P,
    driver_number: usize,
    command_number: usize,
    arg1: usize,
    arg2: usize,
) -> (r: isize)
    ensures
        final(platform).history() == old(platform).history().push(
            (Trap::Command { driver: driver_number, command: command_number, arg1, arg2 }, r),
        ),
        final(platform).owned_subscriptions() == old(platform).owned_subscriptions(),
        final(platform).owned_allows() == old(platform).owned_allows(),
{
    platform.command(driver_number, command_number, arg1, arg2)
}

/// Issues a command that sets only its first argument. The second argument register keeps
/// whatever it held and so leaks to the driver: meant for the low-level debug interface only.
pub fn command1_insecure<P: RawSyscalls>(
    platform: &mut P,
    driver_number: usize,
    command_number: usize,
    arg: usize,
) -> (r: isize)
    ensures
        final(platform).history() == old(platform).history().push(
            (Trap::Command1 { driver: driver_number, command: command_number, arg }, r),
        ),
        final(platform).owned_subscriptions() == old(platform).owned_subscriptions(),
        final(platform).owned_allows() == old(platform).owned_allows(),
{
    platform.command1(driver_number, command_number, arg)
}

/// Hands the region of `buffer_to_share` to the kernel on `(driver_number, allow_number)`
/// with one trap.
///
/// A zero answer yields the handle that holds the buffer until it is reclaimed; any other
/// answer is returned as is, no transfer took place and the buffer is the caller's again.
pub fn allow<'a, P: RawSyscalls>(
    platform: &mut P,
    driver_number: usize,
    allow_number: usize,
    buffer_to_share: &'a mut [u8],
) -> (r: Result<SharedMemory<'a>, isize>)
    requires
        !old(platform).owned_allows().contains((driver_number, allow_number)),
    ensures
        issued_one(
            old(platform).history(),
            final(platform).history(),
            Trap::Allow { driver: driver_number, allow: allow_number, len: old(buffer_to_share)@.len() as usize },
        ),
        match r {
            Ok(shared) => answer_to(final(platform).history()) == 0
                && shared.slot() == (driver_number, allow_number)
                && shared.size() == old(buffer_to_share)@.len(),
            Err(code) => answer_to(final(platform).history()) != 0
                && code == answer_to(final(platform).history())
                && final(buffer_to_share)@ == old(buffer_to_share)@,
        },
        final(platform).owned_allows() == if r is Ok {
            old(platform).owned_allows().insert((driver_number, allow_number))
        } else {
            old(platform).owned_allows()
        },
        final(platform).owned_subscriptions() == old(platform).owned_subscriptions(),
{
    let ghost before = platform.history();
    let len = buffer_to_share.len();
    let code = platform.allow_owned(driver_number, allow_number, buffer_to_share);
    proof {
        lemma_push_issues(before, Trap::Allow { driver: driver_number, allow: allow_number, len }, code);
    }
    if code == 0 {
        Ok(SharedMemory::new(driver_number, allow_number, buffer_to_share))
    } else {
        Err(code)
    }
}

} // verus!
