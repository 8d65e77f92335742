//! Messages from the reader of the child process's output.

use vstd::prelude::*;

verus! {

/// What the reader of the child's output reports.
pub enum PtyEvent {
    /// A chunk of output.
    Output(Vec<u8>),
    /// The output ended: 0 when the child closed it, 1 on a read error.
    Exit(i32),
}

impl PtyEvent {
    /// The event for one read into `buf`: `Some(n)` when `n` bytes were
    /// read, `None` on a read error. A read of no bytes means the child
    /// closed its output.
    pub fn from_read(buf: &[u8], read: Option<usize>) -> (e: PtyEvent)
        requires
            read matches Some(n) ==> n <= buf@.len(),
        ensures
            match read {
                Some(n) => if n == 0 {
                    e matches PtyEvent::Exit(0)
                } else {
                    e matches PtyEvent::Output(v) && v@ == buf@.subrange(0, n as int)
                },
                None => e matches PtyEvent::Exit(1),
            },
    {
        match read {
            Some(n) => {
                if n == 0 {
                    PtyEvent::Exit(0)
                } else {
                    let mut v: Vec<u8> = Vec::with_capacity(n);
                    let mut i: usize = 0;
                    while i < n
                        invariant
                            i <= n,
                            n <= buf@.len(),
                            v@ == buf@.subrange(0, i as int),
                        decreases n - i,
                    {
                        v.push(buf[i]);
                        i = i + 1;
                        assert(v@ =~= buf@.subrange(0, i as int));
                    }
                    PtyEvent::Output(v)
                }
            },
            None => PtyEvent::Exit(1),
        }
    }

    /// Whether the reader stops after sending this event.
    pub fn is_exit(&self) -> (r: bool)
        ensures
            r == (self matches PtyEvent::Exit(_)),
    {
        match self {
            PtyEvent::Exit(_) => true,
            PtyEvent::Output(_) => false,
        }
    }
}

} // verus!
