use vstd::prelude::*;

use crate::platform::{RawSyscalls, Trap, Upcall};
use crate::syscalls::{answer_to, count_traps, issued_one, lemma_push_issues, registers, status};

verus! {

/// Process-side logic that the kernel calls back through a trampoline.
///
/// The kernel delivers upcalls only while the process is inside a yield, but a callback
/// body that yields itself can be entered again before it returns. Implementations must
/// therefore keep any state they change in re-entry-safe cells, never rely on exclusive
/// access.
pub trait SubscribableCallback {
    fn call_rust(&self, arg1: usize, arg2: usize, arg3: usize);
}

/// The trampoline's body: hands the three words of an upcall to the callback that the
/// kernel's context word designates.
pub fn dispatch<CB: SubscribableCallback>(callback: &CB, arg1: usize, arg2: usize, arg3: usize) {
    callback.call_rust(arg1, arg2, arg3);
}

/// The trap that clears a subscription slot: the no-op entry and a null context.
pub open spec fn clear_slot(slot: (usize, usize)) -> Trap {
    Trap::Subscribe { driver: slot.0, subscribe: slot.1, upcall: Upcall::Null, userdata: 0 }
}

/// Ownership of a registered upcall on one `(driver, subscribe)` slot.
///
/// Only a successful subscribe creates one. It cannot be copied or cloned, and releasing
/// it consumes it, so at most one owner can clear the slot, and only once.
///
/// Release is explicit: dropping the handle issues no trap and leaves the upcall
/// registered. Call `unsubscribe` before the callback goes away.
#[must_use]
pub struct CallbackSubscription {
    driver_number: usize,
    subscribe_number: usize,
}

impl View for CallbackSubscription {
    type V = (usize, usize);

    /// The `(driver, subscribe)` slot this handle owns.
    closed spec fn view(&self) -> (usize, usize) {
        (self.driver_number, self.subscribe_number)
    }
}

impl CallbackSubscription {
    pub(crate) fn new(driver_number: usize, subscribe_number: usize) -> (r: CallbackSubscription)
        ensures
            r@ == (driver_number, subscribe_number),
    {
        CallbackSubscription { driver_number, subscribe_number }
    }

    pub fn driver_number(&self) -> (r: usize)
        ensures
            r == self@.0,
    {
        self.driver_number
    }

    pub fn subscribe_number(&self) -> (r: usize)
        ensures
            r == self@.1,
    {
        self.subscribe_number
    }

    /// Clears the slot with exactly one trap and consumes the handle, whatever the kernel
    /// answers; a non-zero answer is handed back for inspection.
    pub fn unsubscribe<P: RawSyscalls>(self, platform: &mut P) -> (r: Result<(), isize>)
        ensures
            issued_one(old(platform).history(), final(platform).history(), clear_slot(self@)),
            r == status(answer_to(final(platform).history())),
            final(platform).owned_subscriptions() == old(platform).owned_subscriptions().remove(self@),
            final(platform).owned_allows() == old(platform).owned_allows(),
    {
        let ghost before = platform.history();
        let ghost slot = self@;
        let code = platform.release_subscription(self);
        proof {
            lemma_push_issues(before, clear_slot(slot), code);
        }
        status_of(code)
    }
}

/// A successful subscribe on `(driver, subscribe)` followed by the release of the handle it
/// returned issues two traps: the registration, then exactly one trap that clears that same
/// slot with the no-op entry and a null context.
pub proof fn lemma_release_clears_slot_once(
    before: Seq<(Trap, isize)>,
    subscribed: Seq<(Trap, isize)>,
    after: Seq<(Trap, isize)>,
    driver: usize,
    subscribe: usize,
    handle: CallbackSubscription,
)
    requires
        subscribed.len() == before.len() + 1,
        subscribed.drop_last() == before,
        registers(subscribed.last().0, driver, subscribe),
        answer_to(subscribed) == 0,
        handle@ == (driver, subscribe),
        issued_one(subscribed, after, clear_slot(handle@)),
    ensures
        after == before.push((subscribed.last().0, 0)).push((clear_slot((driver, subscribe)), answer_to(after))),
        clear_slot((driver, subscribe)) == (Trap::Subscribe {
            driver,
            subscribe,
            upcall: Upcall::Null,
            userdata: 0,
        }),
        count_traps(after.subrange(before.len() as int, after.len() as int), clear_slot((driver, subscribe))) == 1,
{
    assert(subscribed =~= before.push((subscribed.last().0, 0)));
    assert(after =~= subscribed.push((clear_slot((driver, subscribe)), answer_to(after))));
    let tail = after.subrange(before.len() as int, after.len() as int);
    assert(tail.drop_last() =~= seq![(subscribed.last().0, 0isize)]);
    assert(tail.drop_last().drop_last() =~= Seq::<(Trap, isize)>::empty());
    assert(count_traps(tail.drop_last().drop_last(), clear_slot((driver, subscribe))) == 0);
    assert(subscribed.last().0 != clear_slot((driver, subscribe)));
    assert(count_traps(tail.drop_last(), clear_slot((driver, subscribe))) == 0);
}

pub(crate) fn status_of(code: isize) -> (r: Result<(), isize>)
    ensures
        r == status(code),
{
    if code == 0 {
        Ok(())
    } else {
        Err(code)
    }
}

} // verus!
