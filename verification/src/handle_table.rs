//! Maps opaque 64-bit guest handles to open host file descriptors.
//!
//! Each OPEN request gets a new handle.  Handles are never reused, so a stale handle of a crashed
//! guest cannot stand for a descriptor that was opened later.

use std::collections::HashMap;

use vstd::prelude::*;

use crate::error::DeviceError;

verus! {

broadcast use vstd::std_specs::hash::group_hash_axioms;

/// Guest handles and the host descriptors behind them.
pub struct HandleTable {
    /// Next handle value to issue.
    next: u64,
    /// Guest handle to host descriptor.
    table: HashMap<u64, i32>,
}

impl HandleTable {
    /// The handle that the next insertion issues.
    pub closed spec fn next_handle(&self) -> u64 {
        self.next
    }

    /// The open handles and their host descriptors.
    pub closed spec fn fds(&self) -> Map<u64, i32> {
        self.table@
    }

    /// Zero is never a handle, every open handle was issued before the next one, and there are
    /// finitely many.
    pub open spec fn wf(&self) -> bool {
        &&& self.next_handle() >= 1
        &&& self.fds().dom().finite()
        &&& forall|h: u64| #[trigger]
            self.fds().contains_key(h) ==> 1 <= h < self.next_handle()
    }

    /// A table without handles.
    pub fn new() -> (r: Self)
        ensures
            r.wf(),
            r.next_handle() == 1,
            r.fds() == Map::<u64, i32>::empty(),
    {
        HandleTable { next: 1, table: HashMap::new() }
    }

    /// Whether there is a handle left to issue.
    pub fn can_insert(&self) -> (r: bool)
        ensures
            r == (self.next_handle() < u64::MAX),
    {
        self.next < u64::MAX
    }

    /// Enters an open host descriptor and returns its new guest handle.
    pub fn insert(&mut self, fd: i32) -> (handle: u64)
        requires
            old(self).wf(),
            old(self).next_handle() < u64::MAX,
        ensures
            final(self).wf(),
            handle == old(self).next_handle(),
            final(self).next_handle() == old(self).next_handle() + 1,
            final(self).fds() == old(self).fds().insert(handle, fd),
            !old(self).fds().contains_key(handle),
            handle > 0,
            final(self).fds().len() == old(self).fds().len() + 1,
            steps_to(*old(self), *final(self)),
    {
        let handle = self.next;
        self.next = self.next + 1;
        self.table.insert(handle, fd);
        proof {
            assert forall|h: u64| #[trigger] self.fds().contains_key(h) implies 1 <= h
                < self.next by {
                assert(h == handle || old(self).fds().contains_key(h));
            }
        }
        handle
    }

    /// The host descriptor behind `handle`.
    pub fn get_raw(&self, handle: u64) -> (r: Result<i32, DeviceError>)
        ensures
            r == looked_up(self.fds(), handle),
    {
        match self.table.get(&handle) {
            Some(fd) => Ok(*fd),
            None => Err(DeviceError::BadHandle(handle)),
        }
    }

    /// Takes `handle` out of the table and returns its host descriptor, which is to be closed.
    pub fn remove(&mut self, handle: u64) -> (r: Result<i32, DeviceError>)
        requires
            old(self).wf(),
        ensures
            final(self).wf(),
            final(self).next_handle() == old(self).next_handle(),
            final(self).fds() == old(self).fds().remove(handle),
            final(self).fds().len() == old(self).fds().len() - if old(self).fds().contains_key(
                handle,
            ) {
                1int
            } else {
                0
            },
            steps_to(*old(self), *final(self)),
            r == looked_up(old(self).fds(), handle),
    {
        let taken = self.table.remove(&handle);
        proof {
            assert(self.fds() =~= old(self).fds().remove(handle));
            assert forall|h: u64| #[trigger] self.fds().contains_key(h) implies 1 <= h
                < self.next by {
                assert(old(self).fds().contains_key(h));
            }
        }
        match taken {
            Some(fd) => Ok(fd),
            None => Err(DeviceError::BadHandle(handle)),
        }
    }

    /// Number of open handles.
    pub fn len(&self) -> (n: usize)
        ensures
            n == self.fds().len(),
    {
        self.table.len()
    }

    /// Whether no handle is open.
    pub fn is_empty(&self) -> (b: bool)
        ensures
            b == (self.fds().len() == 0),
    {
        self.table.len() == 0
    }

    /// Takes every handle out of the table and returns the host descriptors, which are to be
    /// closed.  Handles that are issued later are still new ones.
    pub fn drain_all(&mut self) -> (closed: Vec<i32>)
        requires
            old(self).wf(),
        ensures
            final(self).wf(),
            final(self).next_handle() == old(self).next_handle(),
            final(self).fds() == Map::<u64, i32>::empty(),
            lists_all(old(self).fds(), closed@),
            steps_to(*old(self), *final(self)),
    {
        let mut closed: Vec<i32> = Vec::new();
        let keys = self.table.keys();
        let ghost handles = vstd::std_specs::hash::into_iter_keys(keys);
        proof {
            let refs = vstd::std_specs::iter::IteratorSpec::remaining(&keys);
            assert(handles.no_duplicates()) by {
                assert forall|i: int, j: int|
                    0 <= i < handles.len() && 0 <= j < handles.len() && i != j implies handles[i]
                    != handles[j] by {
                    assert(refs[i] != refs[j]);
                }
            }
            assert forall|i: int| 0 <= i < handles.len() implies self.table@.contains_key(
                #[trigger] handles[i],
            ) by {
                assert(handles.to_set().contains(handles[i]));
            }
        }
        for handle in it: keys
            invariant
                it.seq().unref() == handles,
                closed@ =~= handles.take(it.index()).map_values(|h: u64| self.table@[h]),
                forall|i: int|
                    0 <= i < handles.len() ==> self.table@.contains_key(#[trigger] handles[i]),
        {
            assert(*handle == handles[it.index()]);
            match self.table.get(handle) {
                Some(fd) => closed.push(*fd),
                None => (),
            }
        }
        assert(handles.take(handles.len() as int) =~= handles);
        self.table.clear();
        closed
    }
}

/// `closed` holds the descriptor of every handle of `fds`, each handle's once.
pub open spec fn lists_all(fds: Map<u64, i32>, closed: Seq<i32>) -> bool {
    exists|handles: Seq<u64>|
        #![trigger handles.to_set()]
        {
            &&& handles.no_duplicates()
            &&& handles.to_set() == fds.dom()
            &&& closed == handles.map_values(|h: u64| fds[h])
        }
}

impl Default for HandleTable {
    fn default() -> (r: Self)
        ensures
            r.wf(),
            r.next_handle() == 1,
            r.fds() == Map::<u64, i32>::empty(),
    {
        HandleTable::new()
    }
}

/// `after` is what one operation can make of `before`: a new handle is issued, a handle is
/// removed, or all are.
pub open spec fn steps_to(before: HandleTable, after: HandleTable) -> bool {
    ||| {
        &&& after.next_handle() == before.next_handle() + 1
        &&& exists|fd: i32| after.fds() == #[trigger] before.fds().insert(before.next_handle(), fd)
    }
    ||| {
        &&& after.next_handle() == before.next_handle()
        &&& exists|handle: u64| after.fds() == #[trigger] before.fds().remove(handle)
    }
    ||| {
        &&& after.next_handle() == before.next_handle()
        &&& after.fds() == Map::<u64, i32>::empty()
    }
}

/// What looking up `handle` gives.
pub open spec fn looked_up(fds: Map<u64, i32>, handle: u64) -> Result<i32, DeviceError> {
    if fds.contains_key(handle) {
        Ok(fds[handle])
    } else {
        Err(DeviceError::BadHandle(handle))
    }
}

/// Removing a handle takes it away, and it alone: it is not found afterwards, every other handle
/// gives what it did, and there is one less.  Removing a handle that is not open changes nothing.
pub proof fn removal_takes_one_handle(t: HandleTable, handle: u64, other: u64)
    requires
        t.wf(),
        other != handle,
    ensures
        ({
            let after = t.fds().remove(handle);
            &&& looked_up(after, handle) == Err::<i32, DeviceError>(DeviceError::BadHandle(handle))
            &&& looked_up(after, other) == looked_up(t.fds(), other)
            &&& looked_up(t.fds(), handle) is Ok ==> after.len() == t.fds().len() - 1
            &&& looked_up(t.fds(), handle) is Err ==> after == t.fds()
        }),
{
    if !t.fds().contains_key(handle) {
        assert(t.fds().remove(handle) =~= t.fds());
    }
}

/// A handle that was just issued is found and gives its descriptor, every other handle gives what
/// it did, and there is one more.
pub proof fn insertion_adds_one_handle(t: HandleTable, fd: i32, other: u64)
    requires
        t.wf(),
        other != t.next_handle(),
    ensures
        ({
            let after = t.fds().insert(t.next_handle(), fd);
            &&& looked_up(after, t.next_handle()) == Ok::<i32, DeviceError>(fd)
            &&& looked_up(after, other) == looked_up(t.fds(), other)
            &&& after.len() == t.fds().len() + 1
        }),
{
    assert(!t.fds().contains_key(t.next_handle()));
}

/// Handles are never reused: through any sequence of operations, a handle that was issued and is
/// no longer open stays so, and one that is still open leads to the same descriptor.
pub proof fn handles_are_never_reused(history: Seq<HandleTable>, handle: u64)
    requires
        history.len() > 0,
        forall|i: int|
            0 <= i && i + 1 < history.len() ==> #[trigger] steps_to(history[i], history[i + 1]),
        handle < history[0].next_handle(),
    ensures
        history.last().next_handle() >= history[0].next_handle(),
        history.last().fds().contains_key(handle) ==> history[0].fds().contains_key(handle)
            && history.last().fds()[handle] == history[0].fds()[handle],
    decreases history.len(),
{
    if history.len() > 1 {
        let shorter = history.drop_last();
        assert forall|i: int| 0 <= i && i + 1 < shorter.len() implies #[trigger] steps_to(
            shorter[i],
            shorter[i + 1],
        ) by {
            assert(steps_to(history[i], history[i + 1]));
        }
        handles_are_never_reused(shorter, handle);
        let n = history.len() - 2;
        assert(steps_to(history[n], history[n + 1]));
        assert(shorter.last() == history[n]);
    }
}

/// A list of all descriptors has one for each handle: every descriptor of an open handle is in it,
/// nothing else is, and it is as long as there are handles.
pub proof fn lists_are_complete(fds: Map<u64, i32>, list: Seq<i32>, handle: u64, i: int)
    requires
        lists_all(fds, list),
    ensures
        list.len() == fds.len(),
        fds.contains_key(handle) ==> list.contains(fds[handle]),
        0 <= i < list.len() ==> exists|h: u64|
            fds.contains_key(h) && #[trigger] fds[h] == list[i],
{
    let handles = choose|handles: Seq<u64>|
        #![trigger handles.to_set()]
        {
            &&& handles.no_duplicates()
            &&& handles.to_set() == fds.dom()
            &&& list == handles.map_values(|h: u64| fds[h])
        };
    handles.unique_seq_to_set();
    if 0 <= i < list.len() {
        assert(list[i] == fds[handles[i]]);
        assert(handles.to_set().contains(handles[i]));
        assert(fds.contains_key(handles[i]));
    }
    if fds.contains_key(handle) {
        assert(handles.to_set().contains(handle));
        let j = choose|j: int| 0 <= j < handles.len() && handles[j] == handle;
        assert(list[j] == fds[handle]);
    }
}

} // verus!
