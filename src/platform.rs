use vstd::prelude::*;

use crate::callback::{clear_slot, CallbackSubscription, SubscribableCallback};
use crate::shared_memory::{revoke_slot, SharedMemory};

verus! {

/// Entry point that the kernel calls back into for a subscription slot.
#[derive(Clone, Copy, Debug, PartialEq, Eq, Structural)]
pub enum Upcall {
    /// The no-op sentinel: the slot holds no callback.
    Null,
    /// A trampoline entry, identified by its address word.
    Function(usize),
}

/// One trap into the kernel, with its arguments as the kernel sees them.
#[derive(Clone, Copy, Debug, PartialEq, Eq, Structural)]
pub enum Trap {
    Yield,
    Command { driver: usize, command: usize, arg1: usize, arg2: usize },
    Command1 { driver: usize, command: usize, arg: usize },
    Subscribe { driver: usize, subscribe: usize, upcall: Upcall, userdata: usize },
    Allow { driver: usize, allow: usize, len: usize },
}

/// The raw trap interface: one trap per call, answered by the kernel with a status word.
///
/// `history` is the record of every trap issued through this value together with the
/// status the kernel answered (a yield answers `0`). Each method appends exactly its own
/// trap and nothing else, so callers can state which traps they issue.
///
/// `owned_subscriptions` and `owned_allows` are the slots that a live handle owns. Only the
/// methods that issue a handle's first trap add a slot, and only the methods that consume
/// the handle remove it. The raw `subscribe` and `allow` refuse an owned slot, so no trap
/// can reach a slot behind its owner's back, and no second handle can be made for it.
/// A handle is to be released on the platform value that made it: a process has one kernel.
pub trait RawSyscalls {
    spec fn history(&self) -> Seq<(Trap, isize)>;

    spec fn owned_subscriptions(&self) -> Set<(usize, usize)>;

    spec fn owned_allows(&self) -> Set<(usize, usize)>;

    /// Suspends until the kernel has delivered pending upcalls.
    fn yieldk(&mut self)
        ensures
            final(self).history() == old(self).history().push((Trap::Yield, 0)),
            final(self).owned_subscriptions() == old(self).owned_subscriptions(),
            final(self).owned_allows() == old(self).owned_allows(),
    ;

    fn command(&mut self, driver: usize, command: usize, arg1: usize, arg2: usize) -> (r: isize)
        ensures
            final(self).history() == old(self).history().push(
                (Trap::Command { driver, command, arg1, arg2 }, r),
            ),
            final(self).owned_subscriptions() == old(self).owned_subscriptions(),
            final(self).owned_allows() == old(self).owned_allows(),
    ;

    /// Sets only the first argument register; the second keeps whatever it held.
    fn command1(&mut self, driver: usize, command: usize, arg: usize) -> (r: isize)
        ensures
            final(self).history() == old(self).history().push(
                (Trap::Command1 { driver, command, arg }, r),
            ),
            final(self).owned_subscriptions() == old(self).owned_subscriptions(),
            final(self).owned_allows() == old(self).owned_allows(),
    ;

    /// A subscribe trap on a slot that no handle owns.
    fn subscribe(&mut self, driver: usize, subscribe: usize, upcall: Upcall, userdata: usize) -> (r: isize)
        requires
            !old(self).owned_subscriptions().contains((driver, subscribe)),
        ensures
            final(self).history() == old(self).history().push(
                (Trap::Subscribe { driver, subscribe, upcall, userdata }, r),
            ),
            final(self).owned_subscriptions() == old(self).owned_subscriptions(),
            final(self).owned_allows() == old(self).owned_allows(),
    ;

    /// An allow trap on a slot that no handle owns; an empty buffer revokes the slot.
    fn allow(&mut self, driver: usize, allow: usize, buffer: &mut [u8]) -> (r: isize)
        requires
            !old(self).owned_allows().contains((driver, allow)),
        ensures
            final(self).history() == old(self).history().push(
                (Trap::Allow { driver, allow, len: old(buffer)@.len() as usize }, r),
            ),
            final(buffer)@ == old(buffer)@,
            final(self).owned_subscriptions() == old(self).owned_subscriptions(),
            final(self).owned_allows() == old(self).owned_allows(),
    ;

    /// The registration trap of a new subscription handle: a zero answer makes the slot owned.
    fn subscribe_owned(&mut self, driver: usize, subscribe: usize, upcall: Upcall, userdata: usize) -> (r: isize)
        requires
            !old(self).owned_subscriptions().contains((driver, subscribe)),
        ensures
            final(self).history() == old(self).history().push(
                (Trap::Subscribe { driver, subscribe, upcall, userdata }, r),
            ),
            final(self).owned_subscriptions() == if r == 0 {
                old(self).owned_subscriptions().insert((driver, subscribe))
            } else {
                old(self).owned_subscriptions()
            },
            final(self).owned_allows() == old(self).owned_allows(),
    ;

    /// Consumes `handle` and clears its slot: the no-op entry and a null context. The slot is
    /// no longer owned, whatever the kernel answers.
    fn release_subscription(&mut self, handle: CallbackSubscription) -> (r: isize)
        ensures
            final(self).history() == old(self).history().push((clear_slot(handle@), r)),
            final(self).owned_subscriptions() == old(self).owned_subscriptions().remove(handle@),
            final(self).owned_allows() == old(self).owned_allows(),
    ;

    /// The allow trap of a new shared-memory handle: a zero answer makes the slot owned,
    /// whatever the buffer's length.
    fn allow_owned(&mut self, driver: usize, allow: usize, buffer: &mut [u8]) -> (r: isize)
        requires
            !old(self).owned_allows().contains((driver, allow)),
        ensures
            final(self).history() == old(self).history().push(
                (Trap::Allow { driver, allow, len: old(buffer)@.len() as usize }, r),
            ),
            final(buffer)@ == old(buffer)@,
            final(self).owned_allows() == if r == 0 {
                old(self).owned_allows().insert((driver, allow))
            } else {
                old(self).owned_allows()
            },
            final(self).owned_subscriptions() == old(self).owned_subscriptions(),
    ;

    /// Consumes `shared`, revokes its slot with a zero-length allow and gives the buffer back.
    /// The slot is no longer owned, whatever the kernel answers.
    fn release_shared<'a>(&mut self, shared: SharedMemory<'a>) -> (r: (&'a mut [u8], isize))
        ensures
            final(self).history() == old(self).history().push((revoke_slot(shared.slot()), r.1)),
            r.0@.len() == shared.size(),
            final(self).owned_allows() == old(self).owned_allows().remove(shared.slot()),
            final(self).owned_subscriptions() == old(self).owned_subscriptions(),
    ;
}

/// Type erasure of callbacks of type `CB` into the two words that a subscribe trap carries.
pub trait Bridge<CB: SubscribableCallback>: RawSyscalls {
    /// `upcall` is a trampoline entry that dispatches to callbacks of type `CB`, and
    /// `userdata` is the context word from which it finds `callback` again.
    spec fn bridges(upcall: Upcall, userdata: usize, callback: &CB) -> bool;

    /// The trampoline entry that dispatches upcalls to `callback`, and the context word that
    /// the kernel stores and hands back to it. Issues no trap.
    fn upcall_for(&mut self, callback: &CB) -> (r: (Upcall, usize))
        ensures
            r.0 != Upcall::Null,
            Self::bridges(r.0, r.1, callback),
            final(self).history() == old(self).history(),
            final(self).owned_subscriptions() == old(self).owned_subscriptions(),
            final(self).owned_allows() == old(self).owned_allows(),
    ;
}

/// Status that the mock kernel answers to a non-empty allow on a slot that already
/// holds a region.
pub const EBUSY: isize = -2;

/// What a kernel that tracks slots answers to an allow, and the slots it holds afterwards.
///
/// A configured non-zero `reply` fails every trap without touching the slots. Otherwise an
/// empty region revokes the slot, and a non-empty one is refused while the slot is taken.
pub open spec fn allow_step(
    slots: Set<(usize, usize)>,
    reply: isize,
    driver: usize,
    allow: usize,
    len: usize,
) -> (Set<(usize, usize)>, isize) {
    if reply != 0 {
        (slots, reply)
    } else if len == 0 {
        (slots.remove((driver, allow)), 0)
    } else if slots.contains((driver, allow)) {
        (slots, EBUSY)
    } else {
        (slots.insert((driver, allow)), 0)
    }
}

/// Reclaiming a region frees its slot for the next allow without any access left over:
/// while the slot holds a region, another non-empty allow on it is refused; once the empty
/// allow revoked it, the next one is accepted and leaves the slots as the first one did.
pub proof fn lemma_allow_round_trip(
    slots: Set<(usize, usize)>,
    driver: usize,
    allow: usize,
    len: usize,
    next_len: usize,
)
    requires
        !slots.contains((driver, allow)),
        len > 0,
        next_len > 0,
    ensures
        allow_step(slots, 0, driver, allow, len) == (slots.insert((driver, allow)), 0isize),
        allow_step(slots.insert((driver, allow)), 0, driver, allow, next_len).1 == EBUSY,
        allow_step(slots.insert((driver, allow)), 0, driver, allow, 0) == (slots, 0isize),
        allow_step(slots, 0, driver, allow, next_len) == (slots.insert((driver, allow)), 0isize),
{
    assert(slots.insert((driver, allow)).remove((driver, allow)) =~= slots);
}

/// What a kernel that tracks slots answers to a subscribe, and the slots it holds afterwards.
pub open spec fn subscribe_step(
    slots: Set<(usize, usize)>,
    reply: isize,
    driver: usize,
    subscribe: usize,
    upcall: Upcall,
) -> (Set<(usize, usize)>, isize) {
    if reply != 0 {
        (slots, reply)
    } else if upcall == Upcall::Null {
        (slots.remove((driver, subscribe)), 0)
    } else {
        (slots.insert((driver, subscribe)), 0)
    }
}

/// A kernel simulated in memory: it records every trap, answers with a configurable
/// status, and tracks which slots hold an upcall and which hold a shared region.
pub struct MockKernel {
    log: Vec<(Trap, isize)>,
    reply: isize,
    subscribed: Vec<(usize, usize)>,
    allowed: Vec<(usize, usize)>,
    bridged: usize,
    owned_subscriptions: Ghost<Set<(usize, usize)>>,
    owned_allows: Ghost<Set<(usize, usize)>>,
}

fn position(slots: &Vec<(usize, usize)>, slot: (usize, usize)) -> (r: Option<usize>)
    ensures
        match r {
            Some(i) => i < slots@.len() && slots@[i as int] == slot,
            None => !slots@.contains(slot),
        },
{
    let mut i: usize = 0;
    while i < slots.len()
        invariant
            i <= slots@.len(),
            forall|j: int| 0 <= j < i ==> slots@[j] != slot,
        decreases slots@.len() - i,
    {
        let (d, n) = slots[i];
        if d == slot.0 && n == slot.1 {
            return Some(i);
        }
        i = i + 1;
    }
    None
}

fn take_slot(slots: &mut Vec<(usize, usize)>, slot: (usize, usize))
    ensures
        final(slots)@.to_set() == old(slots)@.to_set().remove(slot),
{
    let mut kept: Vec<(usize, usize)> = Vec::new();
    let mut i: usize = 0;
    while i < slots.len()
        invariant
            i <= slots@.len(),
            forall|x: (usize, usize)| #[trigger] kept@.contains(x) <==> x != slot && exists|j: int| 0 <= j < i && slots@[j] == x,
        decreases slots@.len() - i,
    {
        let (d, n) = slots[i];
        if d != slot.0 || n != slot.1 {
            let ghost before = kept@;
            kept.push((d, n));
            assert forall|x: (usize, usize)| #[trigger] kept@.contains(x) <==> before.contains(x) || x == (d, n) by {
                if kept@.contains(x) {
                    let k = choose|k: int| 0 <= k < kept@.len() && kept@[k] == x;
                    if k < before.len() {
                        assert(before[k] == x);
                    }
                }
                if before.contains(x) {
                    let k = choose|k: int| 0 <= k < before.len() && before[k] == x;
                    assert(kept@[k] == x);
                }
                assert(kept@[kept@.len() - 1] == (d, n));
            }
        }
        assert forall|x: (usize, usize)| #[trigger] kept@.contains(x) <==> x != slot && exists|j: int| 0 <= j < i + 1 && slots@[j] == x by {
            if x != slot && (exists|j: int| 0 <= j < i + 1 && slots@[j] == x) {
                let j = choose|j: int| 0 <= j < i + 1 && slots@[j] == x;
                if j < i {
                    assert(exists|j2: int| 0 <= j2 < i && slots@[j2] == x);
                }
            }
        }
        i = i + 1;
    }
    assert(kept@.to_set() =~= slots@.to_set().remove(slot)) by {
        assert forall|x: (usize, usize)| slots@.contains(x) && x != slot implies #[trigger] kept@.contains(x) by {
            let k = choose|k: int| 0 <= k < slots@.len() && slots@[k] == x;
            assert(exists|j: int| 0 <= j < i && slots@[j] == x);
        }
        assert forall|x: (usize, usize)| #[trigger] kept@.contains(x) implies slots@.contains(x) && x != slot by {
            let j = choose|j: int| 0 <= j < i && slots@[j] == x;
            assert(slots@[j] == x);
        }
    }
    *slots = kept;
}

fn put_slot(slots: &mut Vec<(usize, usize)>, slot: (usize, usize))
    ensures
        final(slots)@.to_set() == old(slots)@.to_set().insert(slot),
{
    match position(slots, slot) {
        Some(_) => {
            assert(slots@.to_set() =~= old(slots)@.to_set().insert(slot));
        },
        None => {
            slots.push(slot);
            assert forall|x: (usize, usize)| #[trigger] slots@.contains(x) implies old(slots)@.contains(x) || x == slot by {
                let k = choose|k: int| 0 <= k < slots@.len() && slots@[k] == x;
                if k < old(slots)@.len() {
                    assert(old(slots)@[k] == x);
                }
            }
            assert forall|x: (usize, usize)| old(slots)@.contains(x) implies #[trigger] slots@.contains(x) by {
                let k = choose|k: int| 0 <= k < old(slots)@.len() && old(slots)@[k] == x;
                assert(slots@[k] == x);
            }
            assert(slots@[slots@.len() - 1] == slot);
            assert(slots@.to_set() =~= old(slots)@.to_set().insert(slot));
        },
    }
}

impl MockKernel {
    /// The slots that currently hold an upcall.
    pub closed spec fn subscribed_slots(&self) -> Set<(usize, usize)> {
        self.subscribed@.to_set()
    }

    /// The slots that currently hold a shared region.
    pub closed spec fn allowed_slots(&self) -> Set<(usize, usize)> {
        self.allowed@.to_set()
    }

    /// The status answered to the next trap.
    pub closed spec fn configured_reply(&self) -> isize {
        self.reply
    }

    /// A kernel with no trap issued, no slot taken, that answers success.
    pub fn new() -> (r: MockKernel)
        ensures
            r.history() == Seq::<(Trap, isize)>::empty(),
            r.owned_subscriptions() == Set::<(usize, usize)>::empty(),
            r.owned_allows() == Set::<(usize, usize)>::empty(),
            r.subscribed_slots() == Set::<(usize, usize)>::empty(),
            r.allowed_slots() == Set::<(usize, usize)>::empty(),
            r.configured_reply() == 0,
    {
        let r = MockKernel { log: Vec::new(), reply: 0, subscribed: Vec::new(),
            allowed: Vec::new(),
            bridged: 0,
            owned_subscriptions: Ghost(Set::empty()),
            owned_allows: Ghost(Set::empty()),
        };
        assert(r.subscribed@.to_set() =~= Set::empty());
        assert(r.allowed@.to_set() =~= Set::empty());
        r
    }

    /// Makes every following trap answer `reply` (`0` restores normal answers).
    pub fn set_reply(&mut self, reply: isize)
        ensures
            final(self).configured_reply() == reply,
            final(self).history() == old(self).history(),
            final(self).owned_subscriptions() == old(self).owned_subscriptions(),
            final(self).owned_allows() == old(self).owned_allows(),
            final(self).subscribed_slots() == old(self).subscribed_slots(),
            final(self).allowed_slots() == old(self).allowed_slots(),
    {
        self.reply = reply;
    }

    pub fn trap_count(&self) -> (r: usize)
        ensures
            r == self.history().len(),
    {
        self.log.len()
    }

    /// The `i`-th trap issued, oldest first.
    pub fn trap(&self, i: usize) -> (r: Trap)
        requires
            i < self.history().len(),
        ensures
            r == self.history()[i as int].0,
    {
        self.log[i].0
    }

    /// The status answered to the `i`-th trap.
    pub fn answer(&self, i: usize) -> (r: isize)
        requires
            i < self.history().len(),
        ensures
            r == self.history()[i as int].1,
    {
        self.log[i].1
    }

    pub fn is_subscribed(&self, driver: usize, subscribe: usize) -> (r: bool)
        ensures
            r == self.subscribed_slots().contains((driver, subscribe)),
    {
        position(&self.subscribed, (driver, subscribe)).is_some()
    }

    pub fn is_allowed(&self, driver: usize, allow: usize) -> (r: bool)
        ensures
            r == self.allowed_slots().contains((driver, allow)),
    {
        position(&self.allowed, (driver, allow)).is_some()
    }

    /// Answers an allow of `len` bytes as `allow_step` describes.
    fn kernel_allow(&mut self, driver: usize, allow: usize, len: usize) -> (r: isize)
        ensures
            (final(self).allowed_slots(), r) == allow_step(
                old(self).allowed_slots(),
                old(self).configured_reply(),
                driver,
                allow,
                len,
            ),
            final(self).history() == old(self).history().push((Trap::Allow { driver, allow, len }, r)),
            final(self).owned_subscriptions() == old(self).owned_subscriptions(),
            final(self).owned_allows() == old(self).owned_allows(),
            final(self).subscribed_slots() == old(self).subscribed_slots(),
            final(self).configured_reply() == old(self).configured_reply(),
    {
        let r: isize = if self.reply != 0 {
            self.reply
        } else if len == 0 {
            take_slot(&mut self.allowed, (driver, allow));
            0
        } else if position(&self.allowed, (driver, allow)).is_some() {
            EBUSY
        } else {
            put_slot(&mut self.allowed, (driver, allow));
            0
        };
        self.log.push((Trap::Allow { driver, allow, len }, r));
        r
    }

    /// Answers a subscribe as `subscribe_step` describes.
    fn kernel_subscribe(&mut self, driver: usize, subscribe: usize, upcall: Upcall, userdata: usize) -> (r: isize)
        ensures
            (final(self).subscribed_slots(), r) == subscribe_step(
                old(self).subscribed_slots(),
                old(self).configured_reply(),
                driver,
                subscribe,
                upcall,
            ),
            final(self).history() == old(self).history().push(
                (Trap::Subscribe { driver, subscribe, upcall, userdata }, r),
            ),
            final(self).owned_subscriptions() == old(self).owned_subscriptions(),
            final(self).owned_allows() == old(self).owned_allows(),
            final(self).allowed_slots() == old(self).allowed_slots(),
            final(self).configured_reply() == old(self).configured_reply(),
    {
        let r: isize = if self.reply != 0 {
            self.reply
        } else {
            match upcall {
                Upcall::Null => take_slot(&mut self.subscribed, (driver, subscribe)),
                Upcall::Function(_) => put_slot(&mut self.subscribed, (driver, subscribe)),
            }
            0
        };
        self.log.push((Trap::Subscribe { driver, subscribe, upcall, userdata }, r));
        r
    }
}

impl RawSyscalls for MockKernel {
    closed spec fn history(&self) -> Seq<(Trap, isize)> {
        self.log@
    }

    closed spec fn owned_subscriptions(&self) -> Set<(usize, usize)> {
        self.owned_subscriptions@
    }

    closed spec fn owned_allows(&self) -> Set<(usize, usize)> {
        self.owned_allows@
    }

    fn yieldk(&mut self) {
        self.log.push((Trap::Yield, 0));
    }

    fn command(&mut self, driver: usize, command: usize, arg1: usize, arg2: usize) -> (r: isize) {
        let r = self.reply;
        self.log.push((Trap::Command { driver, command, arg1, arg2 }, r));
        r
    }

    fn command1(&mut self, driver: usize, command: usize, arg: usize) -> (r: isize) {
        let r = self.reply;
        self.log.push((Trap::Command1 { driver, command, arg }, r));
        r
    }

    fn subscribe(&mut self, driver: usize, subscribe: usize, upcall: Upcall, userdata: usize) -> (r: isize) {
        self.kernel_subscribe(driver, subscribe, upcall, userdata)
    }

    fn allow(&mut self, driver: usize, allow: usize, buffer: &mut [u8]) -> (r: isize) {
        self.kernel_allow(driver, allow, buffer.len())
    }

    fn subscribe_owned(&mut self, driver: usize, subscribe: usize, upcall: Upcall, userdata: usize) -> (r: isize) {
        let r = self.kernel_subscribe(driver, subscribe, upcall, userdata);
        if r == 0 {
            self.owned_subscriptions = Ghost(self.owned_subscriptions@.insert((driver, subscribe)));
        }
        r
    }

    fn release_subscription(&mut self, handle: CallbackSubscription) -> (r: isize) {
        let slot = (handle.driver_number(), handle.subscribe_number());
        let r = self.kernel_subscribe(slot.0, slot.1, Upcall::Null, 0);
        self.owned_subscriptions = Ghost(self.owned_subscriptions@.remove(slot));
        r
    }

    fn allow_owned(&mut self, driver: usize, allow: usize, buffer: &mut [u8]) -> (r: isize) {
        let r = self.kernel_allow(driver, allow, buffer.len());
        if r == 0 {
            self.owned_allows = Ghost(self.owned_allows@.insert((driver, allow)));
        }
        r
    }

    fn release_shared<'a>(&mut self, shared: SharedMemory<'a>) -> (r: (&'a mut [u8], isize)) {
        let (driver, allow, buffer) = shared.into_parts();
        let r = self.kernel_allow(driver, allow, 0);
        self.owned_allows = Ghost(self.owned_allows@.remove((driver, allow)));
        (buffer, r)
    }
}

impl<CB: SubscribableCallback> Bridge<CB> for MockKernel {
    /// The mock has no addresses: an entry number stands for the callback, and the context
    /// word repeats it.
    open spec fn bridges(upcall: Upcall, userdata: usize, callback: &CB) -> bool {
        upcall == Upcall::Function(userdata)
    }

    /// Each bridged callback gets its own entry number, also used as its context word.
    fn upcall_for(&mut self, callback: &CB) -> (r: (Upcall, usize)) {
        if self.bridged < usize::MAX {
            self.bridged = self.bridged + 1;
        }
        (Upcall::Function(self.bridged), self.bridged)
    }
}

} // verus!
