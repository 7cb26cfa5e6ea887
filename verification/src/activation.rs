//! Queues between widget callbacks and the runtime loop. Every clone of a
//! queue is a handle on the same queue: callbacks push through their
//! handle, the loop pops through its own, in arrival order.
//!
//! Because any handle may push at any time, what one handle pops depends
//! on pushes through the others; the queues therefore state no contents in
//! their contracts.
use std::collections::VecDeque;
use std::rc::Rc;
use vstd::prelude::*;
use vstd::cell::invcell::InvCell;
use vstd::predicate::Predicate;
use crate::ir::FunctionId;

verus! {

/// Admits any contents.
pub struct AnyContents;

impl<V> Predicate<V> for AnyContents {
    open spec fn predicate(&self, v: V) -> bool {
        true
    }
}

/// `Rc::clone`: another handle on the same allocation.
#[verifier::external_body]
fn share<T>(shared: &Rc<T>) -> (handle: Rc<T>)
    ensures
        handle == *shared,
{
    Rc::clone(shared)
}

/// Handlers whose widgets were activated, oldest first.
pub struct ActivationQueue(Rc<InvCell<VecDeque<FunctionId>, AnyContents>>);

impl Clone for ActivationQueue {
    fn clone(&self) -> (handle: ActivationQueue)
        ensures
            handle == *self,
    {
        ActivationQueue(share(&self.0))
    }
}

impl Default for ActivationQueue {
    fn default() -> (queue: ActivationQueue)
        ensures
            queue.admits_any(),
    {
        ActivationQueue(Rc::new(InvCell::new(VecDeque::new(), Ghost(AnyContents))))
    }
}

impl ActivationQueue {
    /// The queue's cell accepts any contents.
    pub closed spec fn admits_any(&self) -> bool {
        self.0.predicate() == AnyContents
    }

    /// Appends `handler` behind everything already queued on any handle.
    pub fn push(&self, handler: FunctionId) {
        let cell: &InvCell<VecDeque<FunctionId>, AnyContents> = &self.0;
        let mut items = cell.replace(VecDeque::new());
        items.push_back(handler);
        let _ = cell.replace(items);
    }

    /// Removes and returns the oldest queued handler, if any.
    pub fn pop(&mut self) -> Option<FunctionId> {
        let cell: &InvCell<VecDeque<FunctionId>, AnyContents> = &self.0;
        let mut items = cell.replace(VecDeque::new());
        let head = items.pop_front();
        let _ = cell.replace(items);
        head
    }
}

/// Text-field changes: the handler and the new text, oldest first.
pub struct InputChangeQueue(Rc<InvCell<VecDeque<(FunctionId, String)>, AnyContents>>);

impl Clone for InputChangeQueue {
    fn clone(&self) -> (handle: InputChangeQueue)
        ensures
            handle == *self,
    {
        InputChangeQueue(share(&self.0))
    }
}

impl Default for InputChangeQueue {
    fn default() -> (queue: InputChangeQueue)
        ensures
            queue.admits_any(),
    {
        InputChangeQueue(Rc::new(InvCell::new(VecDeque::new(), Ghost(AnyContents))))
    }
}

impl InputChangeQueue {
    /// The queue's cell accepts any contents.
    pub closed spec fn admits_any(&self) -> bool {
        self.0.predicate() == AnyContents
    }

    /// Appends a change behind everything already queued on any handle.
    pub fn push(&self, handler: FunctionId, text: String) {
        let cell: &InvCell<VecDeque<(FunctionId, String)>, AnyContents> = &self.0;
        let mut items = cell.replace(VecDeque::new());
        items.push_back((handler, text));
        let _ = cell.replace(items);
    }

    /// Removes and returns the oldest queued change, if any.
    pub fn pop(&mut self) -> Option<(FunctionId, String)> {
        let cell: &InvCell<VecDeque<(FunctionId, String)>, AnyContents> = &self.0;
        let mut items = cell.replace(VecDeque::new());
        let head = items.pop_front();
        let _ = cell.replace(items);
        head
    }
}

} // verus!
