use vstd::prelude::*;

use crate::callback::status_of;
use crate::platform::{RawSyscalls, Trap};
use crate::syscalls::{answer_to, count_traps, issued_one, lemma_push_issues, status};

verus! {

/// The trap that revokes the kernel's access to an allow slot: a region of length zero.
pub open spec fn revoke_slot(slot: (usize, usize)) -> Trap {
    Trap::Allow { driver: slot.0, allow: slot.1, len: 0 }
}

/// Ownership of a buffer whose region the kernel may access through one
/// `(driver, allow)` slot.
///
/// Only a successful allow creates one. It holds the only usable reference to the
/// buffer, cannot be copied or cloned, and reclaiming consumes it.
///
/// Release is explicit: dropping the handle issues no trap and leaves the kernel with
/// access to the region. Call `reclaim` before the buffer is used for anything else.
#[must_use]
pub struct SharedMemory<'a> {
    driver_number: usize,
    allow_number: usize,
    buffer: &'a mut [u8],
}

/// A successful allow of `len` bytes on `(driver, allow)` followed by the reclaim of the
/// handle it returned issues two traps: the allow, then exactly one zero-length allow on that
/// same slot. For a non-empty buffer, that is the only revoking trap of the two.
pub proof fn lemma_reclaim_revokes_slot_once(
    before: Seq<(Trap, isize)>,
    allowed: Seq<(Trap, isize)>,
    after: Seq<(Trap, isize)>,
    driver: usize,
    allow: usize,
    len: usize,
    shared: SharedMemory,
)
    requires
        issued_one(before, allowed, Trap::Allow { driver, allow, len }),
        answer_to(allowed) == 0,
        shared.slot() == (driver, allow),
        issued_one(allowed, after, revoke_slot(shared.slot())),
    ensures
        after == before.push((Trap::Allow { driver, allow, len }, 0)).push(
            (Trap::Allow { driver, allow, len: 0 }, answer_to(after)),
        ),
        len > 0 ==> count_traps(after.subrange(before.len() as int, after.len() as int), revoke_slot((driver, allow))) == 1,
{
    assert(allowed =~= before.push((Trap::Allow { driver, allow, len }, 0)));
    assert(after =~= allowed.push((revoke_slot((driver, allow)), answer_to(after))));
    let tail = after.subrange(before.len() as int, after.len() as int);
    assert(tail.drop_last() =~= seq![(Trap::Allow { driver, allow, len }, 0isize)]);
    assert(tail.drop_last().drop_last() =~= Seq::<(Trap, isize)>::empty());
    assert(count_traps(tail.drop_last().drop_last(), revoke_slot((driver, allow))) == 0);
    assert(count_traps(tail.drop_last(), revoke_slot((driver, allow))) == if len > 0 {
        0nat
    } else {
        1nat
    });
}

/// A successful allow followed by the reclaim of its handle leaves no ownership behind:
/// `allow` adds the slot to the owned allow slots and `reclaim` removes it, so the owned slots
/// are what they were before, and the slot (with the buffer given back) can be allowed again.
pub proof fn lemma_reclaim_frees_slot(owned: Set<(usize, usize)>, driver: usize, allow: usize)
    requires
        !owned.contains((driver, allow)),
    ensures
        owned.insert((driver, allow)).remove((driver, allow)) == owned,
        !owned.insert((driver, allow)).remove((driver, allow)).contains((driver, allow)),
{
    assert(owned.insert((driver, allow)).remove((driver, allow)) =~= owned);
}

impl<'a> SharedMemory<'a> {
    /// The `(driver, allow)` slot this handle owns.
    pub closed spec fn slot(&self) -> (usize, usize) {
        (self.driver_number, self.allow_number)
    }

    /// The length of the shared region. Its contents are not known here: the kernel may
    /// write the region at any time while the handle lives.
    pub closed spec fn size(&self) -> nat {
        self.buffer@.len()
    }

    pub(crate) fn new(driver_number: usize, allow_number: usize, buffer: &'a mut [u8]) -> (r: SharedMemory<'a>)
        ensures
            r.slot() == (driver_number, allow_number),
            r.size() == old(buffer)@.len(),
    {
        SharedMemory { driver_number, allow_number, buffer }
    }

    pub fn driver_number(&self) -> (r: usize)
        ensures
            r == self.slot().0,
    {
        self.driver_number
    }

    pub fn allow_number(&self) -> (r: usize)
        ensures
            r == self.slot().1,
    {
        self.allow_number
    }

    pub fn len(&self) -> (r: usize)
        ensures
            r == self.size(),
    {
        self.buffer.len()
    }

    /// Revokes the kernel's access with exactly one zero-length allow, consumes the
    /// handle whatever the kernel answers, and gives the buffer back; a non-zero answer is
    /// handed back for inspection.
    pub fn reclaim<P: RawSyscalls>(self, platform: &mut P) -> (r: (&'a mut [u8], Result<(), isize>))
        ensures
            issued_one(old(platform).history(), final(platform).history(), revoke_slot(self.slot())),
            r.1 == status(answer_to(final(platform).history())),
            r.0@.len() == self.size(),
            final(platform).owned_allows() == old(platform).owned_allows().remove(self.slot()),
            final(platform).owned_subscriptions() == old(platform).owned_subscriptions(),
    {
        let ghost before = platform.history();
        let ghost slot = self.slot();
        let (buffer, code) = platform.release_shared(self);
        proof {
            lemma_push_issues(before, revoke_slot(slot), code);
        }
        (buffer, status_of(code))
    }

    /// Takes the handle apart. Crate-private: only the release of the handle may do this.
    pub(crate) fn into_parts(self) -> (r: (usize, usize, &'a mut [u8]))
        ensures
            (r.0, r.1) == self.slot(),
            r.2@.len() == self.size(),
    {
        (self.driver_number, self.allow_number, self.buffer)
    }
}

} // verus!
