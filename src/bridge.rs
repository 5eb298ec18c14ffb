use vstd::prelude::*;
use std::sync::mpsc::Receiver;
use crate::fanin::Item;

verus! {

#[verifier::external_type_specification]
#[verifier::external_body]
#[verifier::reject_recursive_types(T)]
pub struct ExReceiver<T>(Receiver<T>);

/// Relies on `Receiver::recv`: it waits for the next value and gives `None`
/// once every sender is gone and the channel is empty. What comes depends on
/// the producing side, so nothing is stated of it.
#[verifier::external_body]
fn receive(rx: &Receiver<Item>) -> (r: Option<Item>) {
    rx.recv().ok()
}

/// The answers of one query, pulled one at a time from the worker that
/// produces them, in link order.
pub struct Answers {
    inner: Receiver<Item>,
    finished: bool,
}

impl Answers {
    /// Whether production has been seen to end.
    pub closed spec fn is_finished(&self) -> bool {
        self.finished
    }

    /// Pulls from the receiving end of a channel that a worker fills.
    pub fn new(inner: Receiver<Item>) -> (r: Answers)
        ensures
            !r.is_finished(),
    {
        Answers { inner, finished: false }
    }

    /// Waits for the next answer; `None` once production has finished. After
    /// the first `None` every call returns `None` at once, without waiting on
    /// the channel.
    pub fn next(&mut self) -> (r: Option<Item>)
        ensures
            old(self).is_finished() ==> r is None,
            r is None <==> final(self).is_finished(),
    {
        if self.finished {
            return None;
        }
        match receive(&self.inner) {
            Some(item) => Some(item),
            None => {
                self.finished = true;
                None
            },
        }
    }
}

} // verus!
