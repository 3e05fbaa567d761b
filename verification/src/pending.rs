//! The asynchronous calls that were issued and are not resolved yet.
use crate::errors::InvocationError;
use std::collections::HashMap;
use vstd::prelude::*;

verus! {

broadcast use vstd::std_specs::hash::group_hash_axioms;

/// The table of pending asynchronous calls: for each handle that a call
/// returned and that was not resolved yet, what wakes the continuation of
/// the caller. The table is a plain value: who shares it between threads
/// puts it behind a lock.
pub struct PendingCalls<W> {
    waiting: HashMap<u64, W>,
}

impl<W> View for PendingCalls<W> {
    type V = Map<u64, W>;

    closed spec fn view(&self) -> Map<u64, W> {
        self.waiting@
    }
}

impl<W> PendingCalls<W> {
    /// The table without a pending call.
    pub fn new() -> (r: Self)
        ensures
            r@ == Map::<u64, W>::empty(),
    {
        PendingCalls { waiting: HashMap::new() }
    }

    /// The number of pending calls.
    pub fn len(&self) -> (r: usize)
        ensures
            r == self@.len(),
            self@.dom().finite(),
    {
        self.waiting.len()
    }

    /// Whether the call with this handle is pending.
    pub fn is_pending(&self, handle: u64) -> (r: bool)
        ensures
            r == self@.contains_key(handle),
    {
        self.waiting.contains_key(&handle)
    }

    /// Enters the call with this handle as pending, to wake `waiter` when
    /// it is resolved. A handle that is pending already is refused, and the
    /// waiter handed back.
    pub fn register(&mut self, handle: u64, waiter: W) -> (r: Result<(), W>)
        ensures
            r is Ok <==> !old(self)@.contains_key(handle),
            r is Ok ==> final(self)@ == old(self)@.insert(handle, waiter),
            r matches Err(w) ==> w == waiter && final(self)@ == old(self)@,
    {
        if self.waiting.contains_key(&handle) {
            return Err(waiter);
        }
        self.waiting.insert(handle, waiter);
        Ok(())
    }

    /// Resolves the call with this handle: takes it out of the table and
    /// hands out what wakes its caller. A handle that is not pending,
    /// because it is unknown or was resolved before, is an error.
    pub fn resolve(&mut self, handle: u64) -> (r: Result<W, InvocationError>)
        ensures
            r is Ok <==> old(self)@.contains_key(handle),
            r matches Ok(w) ==> w == old(self)@[handle] && final(self)@ == old(self)@.remove(
                handle,
            ),
            r matches Err(e) ==> e == InvocationError::UnknownHandle && final(self)@ == old(
                self,
            )@,
    {
        match self.waiting.remove(&handle) {
            Some(waiter) => Ok(waiter),
            None => {
                assert(self.waiting@ =~= old(self).waiting@);
                Err(InvocationError::UnknownHandle)
            },
        }
    }
}

/// The table after the calls with the handles `handles` were entered, in
/// order, each with the waiter at its place in `waiters`.
pub open spec fn register_all<W>(pending: Map<u64, W>, handles: Seq<u64>, waiters: Seq<W>) -> Map<
    u64,
    W,
>
    recommends
        handles.len() == waiters.len(),
    decreases handles.len(),
{
    if handles.len() == 0 {
        pending
    } else {
        register_all(pending, handles.drop_last(), waiters.drop_last()).insert(
            handles.last(),
            waiters.last(),
        )
    }
}

/// The waiters that resolving the handles `handles`, in order, hands out,
/// if each of them is pending when its turn comes.
pub open spec fn resolve_all<W>(pending: Map<u64, W>, handles: Seq<u64>) -> Option<Seq<W>>
    decreases handles.len(),
{
    if handles.len() == 0 {
        Some(Seq::empty())
    } else if !pending.contains_key(handles[0]) {
        None
    } else {
        match resolve_all(pending.remove(handles[0]), handles.skip(1)) {
            Some(rest) => Some(seq![pending[handles[0]]] + rest),
            None => None,
        }
    }
}

/// The table after the handles `handles` were resolved.
pub open spec fn after_resolving<W>(pending: Map<u64, W>, handles: Seq<u64>) -> Map<u64, W> {
    pending.remove_keys(handles.to_set())
}

/// No handle occurs twice.
pub open spec fn distinct(handles: Seq<u64>) -> bool {
    forall|i: int, j: int| 0 <= i < j < handles.len() ==> handles[i] != handles[j]
}

/// A handle is resolved at most once: after it was resolved it is not
/// pending, so that resolving it again is an error.
pub proof fn lemma_resolved_once<W>(pending: Map<u64, W>, handle: u64)
    ensures
        !pending.remove(handle).contains_key(handle),
        resolve_all(pending, seq![handle, handle]) is None,
{
    let twice = seq![handle, handle];
    assert(twice.skip(1)[0] == handle);
    if pending.contains_key(handle) {
        assert(resolve_all(pending.remove(handle), twice.skip(1)) is None);
    }
}

/// Resolving one call leaves every other call as it is: it stays pending,
/// with its own waiter.
pub proof fn lemma_resolve_keeps_others<W>(pending: Map<u64, W>, resolved: u64, other: u64)
    requires
        pending.contains_key(other),
        other != resolved,
    ensures
        pending.remove(resolved).contains_key(other),
        pending.remove(resolved)[other] == pending[other],
{
}

/// Whatever the order in which pending calls are resolved, each hands out
/// the waiter that was entered with it, and none stays pending: the
/// handles of calls that were entered together, resolved in any order
/// `order` that holds each of them once, hand out the waiters in that
/// order.
pub proof fn lemma_resolve_in_any_order<W>(pending: Map<u64, W>, order: Seq<u64>)
    requires
        distinct(order),
        forall|i: int| 0 <= i < order.len() ==> pending.contains_key(order[i]),
    ensures
        resolve_all(pending, order) == Some(Seq::new(order.len(), |i: int| pending[order[i]])),
    decreases order.len(),
{
    let expected = Seq::new(order.len(), |i: int| pending[order[i]]);
    if order.len() == 0 {
        assert(expected =~= Seq::<W>::empty());
    } else {
        let rest = order.skip(1);
        let smaller = pending.remove(order[0]);
        assert forall|i: int| 0 <= i < rest.len() implies smaller.contains_key(rest[i]) by {
            assert(rest[i] == order[i + 1]);
        }
        assert(distinct(rest)) by {
            assert forall|i: int, j: int| 0 <= i < j < rest.len() implies rest[i] != rest[j] by {
                assert(rest[i] == order[i + 1]);
                assert(rest[j] == order[j + 1]);
            }
        }
        lemma_resolve_in_any_order(smaller, rest);
        let tail = Seq::new(rest.len(), |i: int| smaller[rest[i]]);
        assert(seq![pending[order[0]]] + tail =~= expected) by {
            assert forall|i: int| 0 <= i < expected.len() implies (seq![pending[order[0]]]
                + tail)[i] == expected[i] by {
                if i > 0 {
                    assert(rest[i - 1] == order[i]);
                }
            }
        }
    }
}

/// Calls that were entered in one order and are resolved in the reverse
/// order each wake their own caller, and the table is left as it was.
pub proof fn lemma_resolve_in_reverse<W>(pending: Map<u64, W>, handles: Seq<u64>, waiters: Seq<W>)
    requires
        distinct(handles),
        handles.len() == waiters.len(),
        forall|i: int| 0 <= i < handles.len() ==> !pending.contains_key(handles[i]),
    ensures
        resolve_all(register_all(pending, handles, waiters), handles.reverse()) == Some(
            waiters.reverse(),
        ),
        after_resolving(register_all(pending, handles, waiters), handles.reverse()) == pending,
{
    let full = register_all(pending, handles, waiters);
    lemma_register_all(pending, handles, waiters);
    let order = handles.reverse();
    assert(distinct(order));
    assert forall|i: int| 0 <= i < order.len() implies full.contains_key(order[i]) by {
        assert(order[i] == handles[handles.len() - 1 - i]);
    }
    lemma_resolve_in_any_order(full, order);
    assert(Seq::new(order.len(), |i: int| full[order[i]]) =~= waiters.reverse());
    assert forall|k: u64| order.contains(k) <==> handles.contains(k) by {
        if order.contains(k) {
            let i = choose|i: int| 0 <= i < order.len() && order[i] == k;
            assert(handles[handles.len() - 1 - i] == k);
        }
        if handles.contains(k) {
            let i = choose|i: int| 0 <= i < handles.len() && handles[i] == k;
            assert(order[handles.len() - 1 - i] == k);
        }
    }
    assert forall|k: u64| pending.contains_key(k) implies !handles.contains(k) by {
        if handles.contains(k) {
            let i = choose|i: int| 0 <= i < handles.len() && handles[i] == k;
            assert(!pending.contains_key(handles[i]));
        }
    }
    assert(after_resolving(full, order) =~= pending);
}

/// What the table holds after distinct handles were entered: each of them
/// with its waiter, and beside them what it held before.
pub proof fn lemma_register_all<W>(pending: Map<u64, W>, handles: Seq<u64>, waiters: Seq<W>)
    requires
        distinct(handles),
        handles.len() == waiters.len(),
    ensures
        register_all(pending, handles, waiters).dom() == pending.dom().union(handles.to_set()),
        forall|i: int|
            0 <= i < handles.len() ==> register_all(pending, handles, waiters)[#[trigger] handles[i]]
                == waiters[i],
        forall|k: u64|
            pending.contains_key(k) && !handles.contains(k) ==> #[trigger] register_all(
                pending,
                handles,
                waiters,
            )[k] == pending[k],
    decreases handles.len(),
{
    let full = register_all(pending, handles, waiters);
    if handles.len() == 0 {
        assert(handles.to_set() =~= Set::<u64>::empty());
        assert(full.dom() =~= pending.dom().union(handles.to_set()));
    } else {
        let init = handles.drop_last();
        let last = handles.last();
        assert(distinct(init));
        lemma_register_all(pending, init, waiters.drop_last());
        let before = register_all(pending, init, waiters.drop_last());
        assert(full == before.insert(last, waiters.last()));
        assert(handles.to_set() =~= init.to_set().insert(last)) by {
            assert forall|k: u64| handles.contains(k) <==> init.contains(k) || k == last by {
                if init.contains(k) {
                    let i = choose|i: int| 0 <= i < init.len() && init[i] == k;
                    assert(handles[i] == k);
                }
                if handles.contains(k) && k != last {
                    let i = choose|i: int| 0 <= i < handles.len() && handles[i] == k;
                    assert(init[i] == k);
                }
                if k == last {
                    assert(handles[handles.len() - 1] == k);
                }
            }
        }
        assert(full.dom() =~= pending.dom().union(handles.to_set()));
        assert forall|i: int| 0 <= i < handles.len() implies full[#[trigger] handles[i]]
            == waiters[i] by {
            if i < init.len() {
                assert(init[i] == handles[i]);
                assert(handles[i] != handles[handles.len() - 1]);
            }
        }
        assert forall|k: u64| pending.contains_key(k) && !handles.contains(k) implies full[k]
            == pending[k] by {
            if init.contains(k) {
                let i = choose|i: int| 0 <= i < init.len() && init[i] == k;
                assert(handles[i] == k);
            }
            assert(handles[handles.len() - 1] == last);
        }
    }
}

} // verus!
