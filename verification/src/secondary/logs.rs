//! The last lines that containers wrote.
use std::collections::VecDeque;

use crate::config::LogLine;
use vstd::prelude::*;

verus! {

/// How many lines are kept for a container.
pub const MAX_LINES: usize = 10_000;

/// The last lines that a container wrote. Where there are too many, the oldest
/// ones go.
#[derive(Debug)]
pub struct LogBuffer {
    pub lines: VecDeque<LogLine>,
}

/// The last `n` elements, or all where there are fewer.
pub open spec fn last_n<T>(s: Seq<T>, n: nat) -> Seq<T> {
    if s.len() <= n {
        s
    } else {
        s.subrange(s.len() - n, s.len() as int)
    }
}

impl View for LogBuffer {
    type V = Seq<LogLine>;

    open spec fn view(&self) -> Seq<LogLine> {
        self.lines@
    }
}

impl LogBuffer {
    /// Whether no more lines are kept than there is room for.
    pub open spec fn wf(&self) -> bool {
        self@.len() <= MAX_LINES
    }

    /// A buffer without lines.
    pub fn new() -> (res: LogBuffer)
        ensures
            res.wf(),
            res@ == Seq::<LogLine>::empty(),
    {
        LogBuffer { lines: VecDeque::with_capacity(MAX_LINES) }
    }

    /// Appends a line; the oldest one goes where there is no room.
    pub fn push(&mut self, line: LogLine)
        ensures
            final(self).wf(),
            final(self)@ == last_n(old(self)@.push(line), MAX_LINES as nat),
    {
        while self.lines.len() >= MAX_LINES
            invariant
                self@ == last_n(old(self)@, self@.len()),
                self@.len() == old(self)@.len() || MAX_LINES - 1 <= self@.len() < old(self)@.len(),
            decreases self@.len(),
        {
            let _ = self.lines.pop_front();
            assert(self@ =~= last_n(old(self)@, self@.len()));
        }
        self.lines.push_back(line);
        assert(self@ =~= last_n(old(self)@.push(line), MAX_LINES as nat));
    }

    /// The last `n` lines.
    pub fn tail(&self, n: usize) -> (res: Vec<LogLine>)
        ensures
            res@ == last_n(self@, n as nat),
    {
        let len: usize = self.lines.len();
        let start: usize = if len <= n {
            0
        } else {
            len - n
        };
        let mut out: Vec<LogLine> = Vec::new();
        let mut i: usize = start;
        while i < len
            invariant
                start <= i <= len == self@.len(),
                out@ == self@.subrange(start as int, i as int),
            decreases len - i,
        {
            out.push(self.lines[i].clone());
            i = i + 1;
            assert(out@ =~= self@.subrange(start as int, i as int));
        }
        assert(out@ =~= last_n(self@, n as nat));
        out
    }
}

/// A buffer holds the last lines of all that were ever pushed: where it holds
/// those of some lines, it holds those of one line more when that is pushed.
pub proof fn buffer_holds_the_last_lines(pushed: Seq<LogLine>, line: LogLine)
    ensures
        last_n(last_n(pushed, MAX_LINES as nat).push(line), MAX_LINES as nat) == last_n(
            pushed.push(line),
            MAX_LINES as nat,
        ),
{
    let kept = last_n(pushed, MAX_LINES as nat);
    assert(last_n(kept.push(line), MAX_LINES as nat) =~= last_n(
        pushed.push(line),
        MAX_LINES as nat,
    ));
}

/// The last lines are as many as asked for or as there are, and they are the newest
/// ones, in the order in which they came.
pub proof fn last_lines_are_the_newest<T>(s: Seq<T>, n: nat)
    ensures
        last_n(s, n).len() == if s.len() < n {
            s.len()
        } else {
            n
        },
        forall|i: int|
            0 <= i < last_n(s, n).len() ==> #[trigger] last_n(s, n)[i] == s[s.len() - last_n(
                s,
                n,
            ).len() + i],
{
}

} // verus!
