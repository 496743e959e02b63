use std::collections::VecDeque;
use vstd::prelude::*;

use crate::error::ServerError;

verus! {

/// The abstract state of a mailbox: the queued payloads, oldest first, and
/// whether the store has been degraded.
pub struct StoreState<T> {
    pub queue: Seq<T>,
    pub degraded: bool,
}

/// The state of a new mailbox.
pub open spec fn fresh_state<T>() -> StoreState<T> {
    StoreState { queue: Seq::empty(), degraded: false }
}

/// Appending `m` to the tail: the new state and the outcome.
pub open spec fn publish_step<T>(s: StoreState<T>, m: T) -> (StoreState<T>, Result<(), ServerError>) {
    if s.degraded {
        (s, Err(ServerError::LockError))
    } else {
        (StoreState { queue: s.queue.push(m), degraded: false }, Ok(()))
    }
}

/// Removing the head, if any: the new state and the outcome.
pub open spec fn retrieve_step<T>(s: StoreState<T>) -> (StoreState<T>, Result<Option<T>, ServerError>) {
    if s.degraded {
        (s, Err(ServerError::LockError))
    } else if s.queue.len() == 0 {
        (s, Ok(None))
    } else {
        (StoreState { queue: s.queue.drop_first(), degraded: false }, Ok(Some(s.queue[0])))
    }
}

/// A FIFO queue of payloads with an explicit degraded state.
///
/// Each operation takes the store by `&mut`, so it is atomic with respect to
/// every other one; sharing between connections goes through one lock that
/// owns the store. Once degraded (the lock around it was found unusable),
/// every operation fails with `LockError`.
pub struct SyncedMailbox<T> {
    inner: VecDeque<T>,
    degraded: bool,
}

impl<T> View for SyncedMailbox<T> {
    type V = StoreState<T>;

    closed spec fn view(&self) -> StoreState<T> {
        StoreState { queue: self.inner@, degraded: self.degraded }
    }
}

impl<T> SyncedMailbox<T> {
    /// An empty, healthy mailbox.
    pub fn new() -> (r: Self)
        ensures
            r@ == fresh_state::<T>(),
    {
        SyncedMailbox { inner: VecDeque::new(), degraded: false }
    }

    /// Appends `message` to the tail, or fails with `LockError` when degraded.
    pub fn add_message(&mut self, message: T) -> (r: Result<(), ServerError>)
        ensures
            (final(self)@, r) == publish_step(old(self)@, message),
    {
        if self.degraded {
            return Err(ServerError::LockError);
        }
        self.inner.push_back(message);
        Ok(())
    }

    /// Removes and returns the head, `None` when the queue is empty, or fails
    /// with `LockError` when degraded.
    pub fn retrieve_message(&mut self) -> (r: Result<Option<T>, ServerError>)
        ensures
            (final(self)@, r) == retrieve_step(old(self)@),
    {
        if self.degraded {
            return Err(ServerError::LockError);
        }
        let head = self.inner.pop_front();
        proof {
            if old(self)@.queue.len() > 0 {
                assert(self.inner@ =~= old(self)@.queue.drop_first());
            }
        }
        Ok(head)
    }

    /// Marks the store as degraded: every later operation fails.
    pub fn degrade(&mut self)
        ensures
            final(self)@ == (StoreState { queue: old(self)@.queue, degraded: true }),
    {
        self.degraded = true;
    }

    /// Whether the store has been degraded.
    pub fn is_degraded(&self) -> (r: bool)
        ensures
            r == self@.degraded,
    {
        self.degraded
    }

    /// The number of queued payloads.
    pub fn len(&self) -> (r: usize)
        ensures
            r == self@.queue.len(),
    {
        self.inner.len()
    }
}

} // verus!
