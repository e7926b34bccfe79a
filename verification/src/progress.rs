//! Model of one progress-display line.
//!
//! Each in-flight download owns one independent line; the pool writes into
//! it through this handle and nothing else, so lines never cross-talk.  The
//! terminal rendering itself sits outside; this model carries exactly the
//! state the sink interface exposes: a total, a position, a status message,
//! and a terminal "finished" flag.

use vstd::prelude::*;

verus! {

/// State of one progress line.
pub struct ProgressLine {
    /// Declared total, in bytes; 0 when the length is unknown.
    pub total: u64,
    /// Bytes reported so far.
    pub position: u64,
    /// Last status message set.
    pub message: String,
    /// The line has reached its terminal display state.
    pub finished: bool,
}

impl ProgressLine {
    pub fn new() -> (r: ProgressLine)
        ensures
            r.total == 0,
            r.position == 0,
            r.message@ =~= Seq::<char>::empty(),
            !r.finished,
    {
        ProgressLine { total: 0, position: 0, message: String::new(), finished: false }
    }

    pub fn set_total(&mut self, n: u64)
        ensures
            *final(self) == (ProgressLine { total: n, ..*old(self) }),
    {
        self.total = n;
    }

    pub fn set_position(&mut self, n: u64)
        ensures
            *final(self) == (ProgressLine { position: n, ..*old(self) }),
    {
        self.position = n;
    }

    /// Moves the position forward by `n` bytes.
    pub fn advance(&mut self, n: u64)
        requires
            old(self).position + n <= u64::MAX,
        ensures
            *final(self) == (ProgressLine {
                position: (old(self).position + n) as u64,
                ..*old(self)
            }),
    {
        self.position = self.position + n;
    }

    pub fn set_message(&mut self, m: String)
        ensures
            *final(self) == (ProgressLine { message: m, ..*old(self) }),
    {
        self.message = m;
    }

    /// Terminal state: the line keeps its counters and shows `m` for good.
    pub fn finish(&mut self, m: String)
        ensures
            *final(self) == (ProgressLine { message: m, finished: true, ..*old(self) }),
    {
        self.message = m;
        self.finished = true;
    }
}

} // verus!
