//! Handing the records of a file to a callback, each of them once.
//!
//! Whoever holds a callback can call it at will. A [`Handout`] takes the callback over, numbers the
//! records, and lets go of each of them in one call, so that no record is passed over and none is
//! handed over twice.

use vstd::prelude::*;
use vstd::slice::slice_to_vec;

use crate::rdw::Error;

verus! {

/// A logical record on its way to a callback: which it is, and its bytes.
///
/// A record says which it is so that two equal records stay two: a callback that has taken one of
/// them has not thereby taken the other.
#[derive(Debug)]
pub struct LogicalRecord {
    number: u64,
    bytes: Vec<u8>,
}

impl View for LogicalRecord {
    type V = Seq<u8>;

    closed spec fn view(&self) -> Seq<u8> {
        self.bytes@
    }
}

impl LogicalRecord {
    /// How many records come before it.
    pub closed spec fn place(self) -> int {
        self.number as int
    }

    /// How many records come before it.
    pub fn number(&self) -> (number: u64)
        ensures
            number == self.place(),
    {
        self.number
    }

    /// The bytes of the record.
    pub fn as_slice(&self) -> (bytes: &[u8])
        ensures
            bytes@ == self@,
    {
        self.bytes.as_slice()
    }

    /// A copy of the bytes of the record.
    pub fn to_vec(&self) -> (bytes: Vec<u8>)
        ensures
            bytes@ == self@,
    {
        slice_to_vec(self.bytes.as_slice())
    }
}

/// A callback, and how many records it has been handed.
pub struct Handout<F> {
    emit: F,
    next: u64,
}

impl<F: FnMut(LogicalRecord) -> Result<(), Error>> Handout<F> {
    /// The callback.
    pub closed spec fn emit(self) -> F {
        self.emit
    }

    /// How many records the callback has been handed.
    pub closed spec fn handed(self) -> int {
        self.next as int
    }

    /// A callback that has been handed nothing yet.
    pub fn new(emit: F) -> (handout: Self)
        ensures
            handout.emit() == emit,
            handout.handed() == 0,
    {
        Handout { emit, next: 0 }
    }

    /// The record that is handed over next.
    pub fn record(&self, bytes: Vec<u8>) -> (record: LogicalRecord)
        ensures
            record.place() == self.handed(),
            record@ == bytes@,
    {
        LogicalRecord { number: self.next, bytes }
    }

    /// Hands a record over. There is leave for one call, with this very record.
    pub fn hand(&mut self, record: LogicalRecord) -> (result: Result<(), Error>)
        requires
            record.place() == old(self).handed(),
            old(self).handed() < u64::MAX,
            call_requires(old(self).emit(), (record,)),
        ensures
            call_ensures(old(self).emit(), (record,), result),
            final(self).emit() == old(self).emit(),
            final(self).handed() == old(self).handed() + 1,
    {
        self.next = self.next + 1;
        (self.emit)(record)
    }
}

} // verus!
