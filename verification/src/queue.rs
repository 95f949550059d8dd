//! The job queue: an unbounded first-in, first-out channel of work items
//! with two states, open and closed.
//!
//! The queue is the state that a sending handle and a receiving handle share.
//! It never blocks: where a receiver would have to wait, `recv` says so and
//! the caller does the waiting.

use std::collections::VecDeque;
use vstd::prelude::*;

verus! {

/// The error of a `send` on a closed queue. It hands the item back.
#[derive(Debug, PartialEq, Eq)]
pub struct SendError<T>(pub T);

/// Why a `recv` handed out no item.
#[derive(Clone, Copy, Debug, PartialEq, Eq, Structural)]
pub enum RecvError {
    /// The queue is open and holds nothing: an item may still come.
    Empty,
    /// The queue is closed and drained: no item will ever come.
    Closed,
}

/// An unbounded queue of items of type `T`.
pub struct JobQueue<T> {
    items: VecDeque<T>,
    open: bool,
}

impl<T> View for JobQueue<T> {
    type V = Seq<T>;

    /// The items in the queue, oldest first.
    closed spec fn view(&self) -> Seq<T> {
        self.items@
    }
}

impl<T> JobQueue<T> {
    /// Whether the queue accepts items.
    pub closed spec fn is_open(&self) -> bool {
        self.open
    }

    /// A fresh queue: open and empty.
    pub fn open() -> (q: Self)
        ensures
            q@ == Seq::<T>::empty(),
            q.is_open(),
    {
        JobQueue { items: VecDeque::new(), open: true }
    }

    /// Puts `item` at the end of an open queue. A closed queue takes nothing
    /// and hands the item back.
    pub fn send(&mut self, item: T) -> (r: Result<(), SendError<T>>)
        ensures
            final(self).is_open() == old(self).is_open(),
            old(self).is_open() ==> r is Ok && final(self)@ == old(self)@.push(item),
            !old(self).is_open() ==> r == Err::<(), SendError<T>>(SendError(item)) && final(self)@
                == old(self)@,
    {
        if self.open {
            self.items.push_back(item);
            Ok(())
        } else {
            Err(SendError(item))
        }
    }

    /// Takes the oldest item. A closed queue still hands out what it holds;
    /// only once it is drained does `recv` report the closure.
    pub fn recv(&mut self) -> (r: Result<T, RecvError>)
        ensures
            final(self).is_open() == old(self).is_open(),
            old(self)@.len() > 0 ==> r == Ok::<T, RecvError>(old(self)@[0]) && final(self)@ == old(
                self,
            )@.skip(1),
            old(self)@.len() == 0 ==> final(self)@ == old(self)@,
            old(self)@.len() == 0 && old(self).is_open() ==> r == Err::<T, RecvError>(
                RecvError::Empty,
            ),
            old(self)@.len() == 0 && !old(self).is_open() ==> r == Err::<T, RecvError>(
                RecvError::Closed,
            ),
    {
        match self.items.pop_front() {
            Some(item) => Ok(item),
            None => if self.open {
                Err(RecvError::Empty)
            } else {
                Err(RecvError::Closed)
            },
        }
    }

    /// Closes the queue to new items. What it holds stays. Closing a closed
    /// queue changes nothing.
    pub fn close(&mut self)
        ensures
            !final(self).is_open(),
            final(self)@ == old(self)@,
    {
        self.open = false;
    }

    /// Whether the queue accepts items.
    pub fn accepts(&self) -> (b: bool)
        ensures
            b == self.is_open(),
    {
        self.open
    }

    /// The number of items in the queue.
    pub fn len(&self) -> (n: usize)
        ensures
            n == self@.len(),
    {
        self.items.len()
    }

    /// Whether the queue holds no item.
    pub fn is_empty(&self) -> (b: bool)
        ensures
            b == (self@.len() == 0),
    {
        self.items.len() == 0
    }
}

} // verus!
