//! Thread-local storage keyed to the logical thread that is running.
//!
//! A [`LocalKey`] carries no per-thread state. The values live in the
//! execution's [`ThreadTable`], one slot for each pair of logical thread and
//! key, created on the first access by that thread.

use std::marker::PhantomData;
use vstd::prelude::*;

verus! {

/// The identity of a logical thread.
#[derive(Debug, Clone, Copy, PartialEq, Eq, Hash, Structural)]
pub struct ThreadId(pub u64);

/// The identity of a [`LocalKey`], stable for the key's lifetime.
#[derive(Debug, Clone, Copy, PartialEq, Eq, Hash, Structural)]
pub struct KeyId(pub u64);

/// The slots of a thread table: the value that each pair of logical thread
/// and key holds.
pub type Slots<T> = Map<(ThreadId, KeyId), T>;

/// The slots after the logical thread `thread` has accessed the key `key`:
/// a slot that exists stays as it is, a missing one is created with `fresh`.
pub open spec fn access<T>(slots: Slots<T>, thread: ThreadId, key: KeyId, fresh: T) -> Slots<T> {
    if slots.contains_key((thread, key)) {
        slots
    } else {
        slots.insert((thread, key), fresh)
    }
}

/// The logical threads that hold a value for `key`.
pub open spec fn holders<T>(slots: Slots<T>, key: KeyId) -> Set<ThreadId> {
    Set::new(|thread: ThreadId| slots.contains_key((thread, key)))
}

/// The logical threads that occur in a history of accesses. Each entry of a
/// history is the thread that made the access and the value that the
/// initializer constructs if it runs.
pub open spec fn accessors<T>(history: Seq<(ThreadId, T)>) -> Set<ThreadId> {
    history.map_values(|entry: (ThreadId, T)| entry.0).to_set()
}

/// The slots after the accesses of `history` to `key`, in order.
pub open spec fn replay<T>(slots: Slots<T>, key: KeyId, history: Seq<(ThreadId, T)>) -> Slots<T>
    decreases history.len(),
{
    if history.len() == 0 {
        slots
    } else {
        let last = history.last();
        access(replay(slots, key, history.drop_last()), last.0, key, last.1)
    }
}

/// How many of the accesses of `history` to `key` ran the initializer: those
/// that found no slot for their thread.
pub open spec fn initializer_runs<T>(
    slots: Slots<T>,
    key: KeyId,
    history: Seq<(ThreadId, T)>,
) -> nat
    decreases history.len(),
{
    if history.len() == 0 {
        0
    } else {
        let earlier = history.drop_last();
        let found = replay(slots, key, earlier).contains_key((history.last().0, key));
        initializer_runs(slots, key, earlier) + if found {
            0nat
        } else {
            1nat
        }
    }
}

/// On an empty table, however the accesses of the logical threads to a key
/// interleave, the initializer runs once for each thread that accesses the
/// key: as many times as there are distinct threads in the history. The
/// threads that hold a value afterwards are those threads.
pub proof fn lemma_initializer_runs_once_per_thread<T>(key: KeyId, history: Seq<(ThreadId, T)>)
    ensures
        accessors(history).finite(),
        initializer_runs(Slots::<T>::empty(), key, history) == accessors(history).len(),
        holders(replay(Slots::<T>::empty(), key, history), key) == accessors(history),
    decreases history.len(),
{
    let empty = Slots::<T>::empty();
    let thread_of = |entry: (ThreadId, T)| entry.0;
    if history.len() == 0 {
        assert(accessors(history) =~= Set::<ThreadId>::empty());
        assert(holders(replay(empty, key, history), key) =~= Set::<ThreadId>::empty());
    } else {
        let earlier = history.drop_last();
        let last = history.last();
        lemma_initializer_runs_once_per_thread(key, earlier);
        assert(history.map_values(thread_of) =~= earlier.map_values(thread_of).push(last.0));
        earlier.map_values(thread_of).lemma_push_to_set_commute(last.0);
        assert(accessors(history) =~= accessors(earlier).insert(last.0));
        assert(holders(replay(empty, key, history), key) =~= holders(
            replay(empty, key, earlier),
            key,
        ).insert(last.0));
    }
}

/// A second access by the same logical thread finds the value of the first:
/// it does not run the initializer and changes nothing.
pub proof fn lemma_repeated_access_reuses<T>(
    slots: Slots<T>,
    thread: ThreadId,
    key: KeyId,
    first: T,
    second: T,
)
    ensures
        access(slots, thread, key, first).contains_key((thread, key)),
        access(access(slots, thread, key, first), thread, key, second) == access(
            slots,
            thread,
            key,
            first,
        ),
{
}

/// An access by one logical thread leaves the slot of every other thread as
/// it was: present or missing, and with the same value.
pub proof fn lemma_access_isolated<T>(
    slots: Slots<T>,
    thread: ThreadId,
    key: KeyId,
    fresh: T,
    other: ThreadId,
    other_key: KeyId,
)
    requires
        other != thread,
    ensures
        access(slots, thread, key, fresh).contains_key((other, other_key)) == slots.contains_key(
            (other, other_key),
        ),
        access(slots, thread, key, fresh)[(other, other_key)] == slots[(other, other_key)],
{
}

/// Accesses by two different logical threads do not see each other: in
/// either order they leave the same slots.
pub proof fn lemma_accesses_commute<T>(
    slots: Slots<T>,
    key: KeyId,
    one: ThreadId,
    fresh_one: T,
    other: ThreadId,
    fresh_other: T,
)
    requires
        one != other,
    ensures
        access(access(slots, one, key, fresh_one), other, key, fresh_other) == access(
            access(slots, other, key, fresh_other),
            one,
            key,
            fresh_one,
        ),
{
    assert(access(access(slots, one, key, fresh_one), other, key, fresh_other) =~= access(
        access(slots, other, key, fresh_other),
        one,
        key,
        fresh_one,
    ));
}

struct Slot<T> {
    thread: ThreadId,
    key: KeyId,
    value: T,
}

/// The per-thread storage of one execution, for values of type `T`, together
/// with the logical thread that is running now.
pub struct ThreadTable<T> {
    active: Option<ThreadId>,
    slots: Vec<Slot<T>>,
}

/// Entry `i` of `slots` is the slot of `thread` for `key`.
spec fn holds_at<T>(slots: Seq<Slot<T>>, i: int, thread: ThreadId, key: KeyId) -> bool {
    0 <= i < slots.len() && slots[i].thread == thread && slots[i].key == key
}

spec fn has_slot<T>(slots: Seq<Slot<T>>, thread: ThreadId, key: KeyId) -> bool {
    exists|i: int| holds_at(slots, i, thread, key)
}

spec fn index_of<T>(slots: Seq<Slot<T>>, thread: ThreadId, key: KeyId) -> int {
    choose|i: int| holds_at(slots, i, thread, key)
}

/// No pair of logical thread and key has two entries.
spec fn distinct<T>(slots: Seq<Slot<T>>) -> bool {
    forall|i: int, j: int|
        0 <= i < j < slots.len() ==> !(#[trigger] slots[i].thread == #[trigger] slots[j].thread
            && slots[i].key == slots[j].key)
}

spec fn slots_of<T>(slots: Seq<Slot<T>>) -> Slots<T> {
    Map::new(
        |slot: (ThreadId, KeyId)| has_slot(slots, slot.0, slot.1),
        |slot: (ThreadId, KeyId)| slots[index_of(slots, slot.0, slot.1)].value,
    )
}

proof fn lemma_slot_value<T>(slots: Seq<Slot<T>>, i: int, thread: ThreadId, key: KeyId)
    requires
        distinct(slots),
        holds_at(slots, i, thread, key),
    ensures
        slots_of(slots).contains_key((thread, key)),
        slots_of(slots)[(thread, key)] == slots[i].value,
{
    let j = index_of(slots, thread, key);
    assert(has_slot(slots, thread, key));
    assert(holds_at(slots, j, thread, key));
    if i < j {
        assert(slots[i].thread == slots[j].thread);
    } else if j < i {
        assert(slots[j].thread == slots[i].thread);
    }
}

proof fn lemma_slot_added<T>(slots: Seq<Slot<T>>, slot: Slot<T>)
    requires
        distinct(slots),
        !has_slot(slots, slot.thread, slot.key),
    ensures
        distinct(slots.push(slot)),
        slots_of(slots.push(slot)) == slots_of(slots).insert((slot.thread, slot.key), slot.value),
{
    let grown = slots.push(slot);
    assert forall|i: int, j: int| 0 <= i < j < grown.len() implies !(#[trigger] grown[i].thread
        == #[trigger] grown[j].thread && grown[i].key == grown[j].key) by {
        if j == slots.len() {
            assert(!holds_at(slots, i, slot.thread, slot.key));
        }
    }
    assert(holds_at(grown, slots.len() as int, slot.thread, slot.key));
    assert forall|thread: ThreadId, key: KeyId|
        has_slot(grown, thread, key) <==> has_slot(slots, thread, key) || (thread, key) == (
            slot.thread,
            slot.key,
        ) by {
        if has_slot(grown, thread, key) {
            let i = index_of(grown, thread, key);
            if i < slots.len() {
                assert(holds_at(slots, i, thread, key));
            }
        }
        if has_slot(slots, thread, key) {
            assert(holds_at(grown, index_of(slots, thread, key), thread, key));
        }
    }
    assert forall|thread: ThreadId, key: KeyId| has_slot(slots, thread, key) implies slots_of(
        grown,
    )[(thread, key)] == slots_of(slots)[(thread, key)] by {
        let i = index_of(slots, thread, key);
        assert(holds_at(grown, i, thread, key));
        lemma_slot_value(grown, i, thread, key);
        lemma_slot_value(slots, i, thread, key);
    }
    lemma_slot_value(grown, slots.len() as int, slot.thread, slot.key);
    assert(slots_of(grown) =~= slots_of(slots).insert((slot.thread, slot.key), slot.value));
}

impl<T> View for ThreadTable<T> {
    type V = Slots<T>;

    closed spec fn view(&self) -> Slots<T> {
        slots_of(self.slots@)
    }
}

impl<T> ThreadTable<T> {
    /// The logical thread that is running, if a managed execution is under way.
    pub closed spec fn active(&self) -> Option<ThreadId> {
        self.active
    }

    /// No pair of logical thread and key has two slots.
    pub closed spec fn wf(&self) -> bool {
        distinct(self.slots@)
    }

    /// An empty table with no logical thread running.
    pub fn new() -> (table: Self)
        ensures
            table.wf(),
            table.active() is None,
            table@ == Slots::<T>::empty(),
    {
        let table = ThreadTable { active: None, slots: Vec::new() };
        assert(table@ =~= Slots::<T>::empty());
        table
    }

    /// Makes `thread` the running logical thread. The slots stay as they are.
    pub fn switch_to(&mut self, thread: ThreadId)
        ensures
            final(self).active() == Some(thread),
            final(self)@ == old(self)@,
            final(self).wf() == old(self).wf(),
    {
        self.active = Some(thread);
    }

    /// The logical thread that is running, if any.
    pub fn current(&self) -> (thread: Option<ThreadId>)
        ensures
            thread == self.active(),
    {
        self.active
    }

    /// The value that the running logical thread holds for `key`. On the
    /// thread's first access the key's initializer constructs the value,
    /// which is cached for every later access by that thread.
    pub fn local<I: Fn() -> T>(&mut self, key: &LocalKey<T, I>) -> (value: &T)
        requires
            old(self).wf(),
            old(self).active() is Some,
            key.initializes(old(self)) ==> key.initializer().requires(()),
        ensures
            final(self).wf(),
            final(self).active() == old(self).active(),
            final(self)@ == access(old(self)@, old(self).active().unwrap(), key.id(), *value),
            final(self)@[key.slot(old(self))] == *value,
            key.initializes(old(self)) ==> key.initializer().ensures((), *value),
    {
        let thread = self.active.unwrap();
        let index = match self.position(thread, key.id) {
            Some(index) => {
                proof {
                    lemma_slot_value(self.slots@, index as int, thread, key.id);
                }
                index
            },
            None => {
                let value = (key.init)();
                let ghost before = self.slots@;
                self.slots.push(Slot { thread, key: key.id, value });
                proof {
                    lemma_slot_added(before, self.slots@[before.len() as int]);
                }
                self.slots.len() - 1
            },
        };
        &self.slots[index].value
    }

    fn position(&self, thread: ThreadId, key: KeyId) -> (found: Option<usize>)
        ensures
            match found {
                Some(i) => holds_at(self.slots@, i as int, thread, key),
                None => !has_slot(self.slots@, thread, key),
            },
    {
        let mut i: usize = 0;
        while i < self.slots.len()
            invariant
                i <= self.slots@.len(),
                forall|j: int| 0 <= j < i ==> !holds_at(self.slots@, j, thread, key),
            decreases self.slots@.len() - i,
        {
            if self.slots[i].thread == thread && self.slots[i].key == key {
                return Some(i);
            }
            i += 1;
        }
        None
    }
}

/// The error of an access to a thread-local value that the state of the
/// running thread forbids.
#[derive(Debug, Clone, Copy, PartialEq, Eq)]
pub struct AccessError;

/// A handle on thread-local storage. It holds the initializer and the key's
/// identity; each logical thread gets its own value, constructed on that
/// thread's first access.
pub struct LocalKey<T, I> {
    id: KeyId,
    init: I,
    _value: PhantomData<T>,
}

impl<T, I: Fn() -> T> LocalKey<T, I> {
    /// The identity under which the thread table files this key's values.
    pub closed spec fn id(&self) -> KeyId {
        self.id
    }

    /// The function that constructs each logical thread's value.
    pub closed spec fn initializer(&self) -> I {
        self.init
    }

    /// The slot of this key for the logical thread that is running.
    pub open spec fn slot(&self, table: &ThreadTable<T>) -> (ThreadId, KeyId) {
        (table.active().unwrap(), self.id())
    }

    /// An access now runs the initializer: the running logical thread holds
    /// no value for this key yet.
    pub open spec fn initializes(&self, table: &ThreadTable<T>) -> bool {
        !table@.contains_key(self.slot(table))
    }

    /// `value` can be what an access now hands to the caller: the cached
    /// value, or on a first access what the initializer returns.
    pub open spec fn yields(&self, table: &ThreadTable<T>, value: T) -> bool {
        if self.initializes(table) {
            self.initializer().ensures((), value)
        } else {
            value == table@[self.slot(table)]
        }
    }

    /// A key with the identity `id`, whose values `init` constructs.
    pub fn new(id: KeyId, init: I) -> (key: Self)
        ensures
            key.id() == id,
            key.initializer() == init,
    {
        LocalKey { id, init, _value: PhantomData }
    }

    /// The debug rendering: the name of the type and nothing of its state.
    pub fn fmt(&self) -> (text: String)
        ensures
            text@ == "LocalKey { .. }"@,
    {
        "LocalKey { .. }".to_owned()
    }

    /// Calls `f` on the value that the running logical thread holds for this
    /// key, and returns what `f` returns. The value is constructed first if
    /// this is the thread's first access.
    pub fn with<F, R>(&self, table: &mut ThreadTable<T>, f: F) -> (result: R) where
        F: FnOnce(&T) -> R,

        requires
            old(table).wf(),
            old(table).active() is Some,
            self.initializes(old(table)) ==> self.initializer().requires(()),
            forall|value: T| self.yields(old(table), value) ==> f.requires((&value,)),
        ensures
            final(table).wf(),
            final(table).active() == old(table).active(),
            final(table)@ == access(
                old(table)@,
                old(table).active().unwrap(),
                self.id(),
                final(table)@[self.slot(old(table))],
            ),
            self.yields(old(table), final(table)@[self.slot(old(table))]),
            f.ensures((&final(table)@[self.slot(old(table))],), result),
    {
        let value = table.local(self);
        assert(self.yields(old(table), *value));
        f(value)
    }

    /// As [`with`](Self::with), with a recoverable error where the state of
    /// the running thread forbids the access. No state does so: the access
    /// always succeeds.
    pub fn try_with<F, R>(&self, table: &mut ThreadTable<T>, f: F) -> (result: Result<
        R,
        AccessError,
    >) where F: FnOnce(&T) -> R
        requires
            old(table).wf(),
            old(table).active() is Some,
            self.initializes(old(table)) ==> self.initializer().requires(()),
            forall|value: T| self.yields(old(table), value) ==> f.requires((&value,)),
        ensures
            final(table).wf(),
            final(table).active() == old(table).active(),
            final(table)@ == access(
                old(table)@,
                old(table).active().unwrap(),
                self.id(),
                final(table)@[self.slot(old(table))],
            ),
            self.yields(old(table), final(table)@[self.slot(old(table))]),
            result matches Ok(returned) && f.ensures(
                (&final(table)@[self.slot(old(table))],),
                returned,
            ),
    {
        Ok(self.with(table, f))
    }
}

} // verus!
