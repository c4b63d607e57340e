//! The queue of work handed to a renderer

use vstd::prelude::*;

use std::sync::{Arc, RwLock};

verus! {

#[verifier::external_type_specification]
#[verifier::external_body]
#[verifier::reject_recursive_types(T)]
pub struct ExRwLock<T: ?Sized>(RwLock<T>);

/// The items that a queue's lock guards.
pub uninterp spec fn queued_items(lock: RwLock<Vec<()>>) -> Seq<()>;

/// `RwLock::default`: a lock, not poisoned, around `Vec::default()`, the empty vector.
#[verifier::external_body]
fn empty_lock() -> (r: RwLock<Vec<()>>)
    ensures
        queued_items(r) == Seq::<()>::empty(),
{
    RwLock::default()
}

/// Work queued for a renderer, shared between threads
pub struct RenderQueue {
    queue: RwLock<Vec<()>>,
}

impl RenderQueue {
    /// The items queued
    pub closed spec fn items(self) -> Seq<()> {
        queued_items(self.queue)
    }

    /// Creates an empty queue, shared through an `Arc`
    pub fn new() -> (r: Arc<RenderQueue>)
        ensures
            r.items() == Seq::<()>::empty(),
    {
        Arc::new(RenderQueue { queue: empty_lock() })
    }
}

} // verus!
