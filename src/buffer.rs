//! The bounded buffer that holds the most recent output lines of a process.

use std::collections::VecDeque;
use vstd::prelude::*;

verus! {

/// How many output lines a buffer keeps.
pub const OUTPUT_CAPACITY: usize = 10;

/// The last `n` elements of `s`, or all of `s` when it is shorter.
pub open spec fn last_n<T>(s: Seq<T>, n: nat) -> Seq<T> {
    if s.len() <= n {
        s
    } else {
        s.subrange(s.len() - n, s.len() as int)
    }
}

/// What a buffer holding `start` holds after `lines` have been pushed, one at a time.
pub open spec fn after_pushes(start: Seq<String>, lines: Seq<String>) -> Seq<String>
    decreases lines.len(),
{
    if lines.len() == 0 {
        start
    } else {
        last_n(after_pushes(start, lines.drop_last()).push(lines.last()), OUTPUT_CAPACITY as nat)
    }
}

/// The most recent lines of a process's output, oldest first, never more
/// than `OUTPUT_CAPACITY` of them.
pub struct OutputBuffer {
    lines: VecDeque<String>,
}

impl OutputBuffer {
    /// The lines held, oldest first.
    pub closed spec fn view(&self) -> Seq<String> {
        self.lines@
    }

    pub open spec fn wf(&self) -> bool {
        self.view().len() <= OUTPUT_CAPACITY
    }

    pub fn new() -> (r: OutputBuffer)
        ensures
            r.wf(),
            r.view() == Seq::<String>::empty(),
    {
        OutputBuffer { lines: VecDeque::new() }
    }

    /// Appends `line`, first dropping the oldest line when the buffer is full.
    pub fn push(&mut self, line: String)
        requires
            old(self).wf(),
        ensures
            final(self).wf(),
            final(self).view() == last_n(old(self).view().push(line), OUTPUT_CAPACITY as nat),
    {
        let ghost before = self.lines@;
        if self.lines.len() >= OUTPUT_CAPACITY {
            self.lines.pop_front();
        }
        self.lines.push_back(line);
        assert(self.lines@ =~= last_n(before.push(line), OUTPUT_CAPACITY as nat));
    }

    /// A copy of the lines held, oldest first.
    pub fn snapshot(&self) -> (r: Vec<String>)
        ensures
            r@ == self.view(),
    {
        let mut out: Vec<String> = Vec::new();
        let mut i: usize = 0;
        while i < self.lines.len()
            invariant
                i <= self.lines@.len(),
                out@ == self.lines@.subrange(0, i as int),
            decreases self.lines@.len() - i,
        {
            out.push(self.lines[i].clone());
            i += 1;
        }
        assert(out@ =~= self.lines@);
        out
    }

    pub fn len(&self) -> (r: usize)
        ensures
            r == self.view().len(),
    {
        self.lines.len()
    }
}

proof fn lemma_last_n_push(s: Seq<String>, x: String)
    ensures
        last_n(last_n(s, OUTPUT_CAPACITY as nat).push(x), OUTPUT_CAPACITY as nat)
            == last_n(s.push(x), OUTPUT_CAPACITY as nat),
{
    let n = OUTPUT_CAPACITY as nat;
    assert(last_n(last_n(s, n).push(x), n) =~= last_n(s.push(x), n));
}

/// Whatever sequence of lines is pushed into an empty buffer, one at a time,
/// the buffer then holds the last `OUTPUT_CAPACITY` of them in the order they
/// came; so after more than `OUTPUT_CAPACITY` pushes it holds exactly that many.
pub proof fn lemma_keeps_most_recent(lines: Seq<String>)
    ensures
        after_pushes(Seq::empty(), lines) == last_n(lines, OUTPUT_CAPACITY as nat),
        lines.len() > OUTPUT_CAPACITY ==> after_pushes(Seq::empty(), lines).len()
            == OUTPUT_CAPACITY,
        lines.len() > OUTPUT_CAPACITY ==> after_pushes(Seq::empty(), lines) == lines.subrange(
            lines.len() - OUTPUT_CAPACITY,
            lines.len() as int,
        ),
    decreases lines.len(),
{
    if lines.len() > 0 {
        let init = lines.drop_last();
        lemma_keeps_most_recent(init);
        lemma_last_n_push(init, lines.last());
        assert(init.push(lines.last()) =~= lines);
    }
}

} // verus!
