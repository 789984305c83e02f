//! One interrupt line, seen as a count of notifications that nobody has consumed yet.
//!
//! The library does not block. Whoever owns the kernel's notification channel blocks on it and
//! reports what happened with [`Interrupt::notify`] or [`Interrupt::fail`]; a wait that finds
//! nothing to consume says so and changes nothing.

use vstd::prelude::*;

verus! {

/// Why a wait did not consume a notification.
#[derive(Debug, Clone, Copy, PartialEq, Eq, Structural)]
pub enum Error {
    /// Nothing has fired since the last wait: the caller has to block on the line and report.
    WouldBlock { index: usize },
    /// The kernel's channel reported the error `errno`.
    Channel { index: usize, errno: i32 },
}

/// What is known of an interrupt line.
#[derive(Debug, Clone, Copy, PartialEq, Eq, Structural)]
pub struct Line {
    pub index: usize,
    pub pending: u64,
    pub failure: Option<i32>,
}

/// An interrupt line of the device.
#[derive(Debug)]
pub struct Interrupt {
    index: usize,
    pending: u64,
    failure: Option<i32>,
}

impl View for Interrupt {
    type V = Line;

    closed spec fn view(&self) -> Line {
        Line { index: self.index, pending: self.pending, failure: self.failure }
    }
}

impl Line {
    /// The line after one more notification has fired.
    pub open spec fn fired(self) -> Line {
        Line {
            pending: if self.pending < u64::MAX { (self.pending + 1) as u64 } else { self.pending },
            ..self
        }
    }

    /// The line after one notification has been consumed.
    pub open spec fn consumed(self) -> Line {
        Line { pending: (self.pending - 1) as u64, ..self }
    }

    /// What a wait on the line answers.
    pub open spec fn wait_outcome(self) -> Result<(), Error> {
        if self.pending > 0 {
            Ok(())
        } else if let Some(errno) = self.failure {
            Err(Error::Channel { index: self.index, errno })
        } else {
            Err(Error::WouldBlock { index: self.index })
        }
    }
}

impl Interrupt {
    /// The line with the given index, on which nothing has fired.
    pub fn new(index: usize) -> (r: Interrupt)
        ensures
            r@ == (Line { index, pending: 0, failure: None }),
    {
        Interrupt { index, pending: 0, failure: None }
    }

    pub fn index(&self) -> (r: usize)
        ensures
            r == self@.index,
    {
        self.index
    }

    /// The number of notifications that have fired and were not consumed.
    pub fn pending(&self) -> (r: u64)
        ensures
            r == self@.pending,
    {
        self.pending
    }

    /// The error number with which the kernel's channel has failed, where it has.
    pub fn failure(&self) -> (r: Option<i32>)
        ensures
            r == self@.failure,
    {
        self.failure
    }

    /// Records that the line has fired once more. The count stops at its largest value.
    pub fn notify(&mut self)
        ensures
            final(self)@ == old(self)@.fired(),
    {
        if self.pending < u64::MAX {
            self.pending = self.pending + 1;
        }
    }

    /// Records that the kernel's channel has failed with `errno`.
    pub fn fail(&mut self, errno: i32)
        ensures
            final(self)@ == (Line { failure: Some(errno), ..old(self)@ }),
    {
        self.failure = Some(errno);
    }

    /// Consumes one notification. Where none is pending, the line is left as it was and the
    /// answer says whether the channel has failed or the caller has to block.
    pub fn wait_for_interrupt(&mut self) -> (r: Result<(), Error>)
        ensures
            r == old(self)@.wait_outcome(),
            r is Ok ==> final(self)@ == old(self)@.consumed(),
            r is Err ==> final(self)@ == old(self)@,
    {
        if self.pending > 0 {
            self.pending = self.pending - 1;
            Ok(())
        } else {
            match self.failure {
                Some(errno) => Err(Error::Channel { index: self.index, errno }),
                None => Err(Error::WouldBlock { index: self.index }),
            }
        }
    }
}

} // verus!
