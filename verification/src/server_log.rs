//! The retained tail of the launched server's output.

use std::collections::VecDeque;
use vstd::prelude::*;
use crate::text::{trim_end, trim_end_spec, views};

verus! {

/// Cap on retained server output lines.
pub const MAX_LOG_LINES: usize = 100;

/// The lines a log keeps of `history`, the lines pushed to it oldest first:
/// the latest [`MAX_LOG_LINES`] of them, in order.
pub open spec fn retained(history: Seq<Seq<char>>) -> Seq<Seq<char>> {
    if history.len() > MAX_LOG_LINES {
        history.skip(history.len() - MAX_LOG_LINES)
    } else {
        history
    }
}

/// Capture of the launched server's stdout and stderr: keeps the latest
/// lines for error messages.
pub struct ServerLog {
    lines: VecDeque<String>,
}

impl View for ServerLog {
    type V = Seq<Seq<char>>;

    closed spec fn view(&self) -> Seq<Seq<char>> {
        self.lines@.map_values(|s: String| s@)
    }
}

impl ServerLog {
    #[verifier::type_invariant]
    spec fn bounded(&self) -> bool {
        self.lines@.len() <= MAX_LOG_LINES
    }

    /// An empty log.
    pub fn new() -> (log: ServerLog)
        ensures
            log@ == Seq::<Seq<char>>::empty(),
    {
        let log = ServerLog { lines: VecDeque::new() };
        assert(log@ =~= Seq::<Seq<char>>::empty());
        log
    }

    /// The number of retained lines, at most [`MAX_LOG_LINES`].
    pub fn len(&self) -> (n: usize)
        ensures
            n == self@.len(),
            n <= MAX_LOG_LINES,
    {
        proof {
            use_type_invariant(self);
        }
        self.lines.len()
    }

    /// Appends a line, dropping the oldest one when the log is full.
    pub fn push(&mut self, line: String)
        ensures
            final(self)@ == retained(old(self)@.push(line@)),
    {
        proof {
            use_type_invariant(&*self);
        }
        let ghost before = self@;
        let mut lines = VecDeque::new();
        std::mem::swap(&mut lines, &mut self.lines);
        let ghost raw = lines@;
        if lines.len() >= MAX_LOG_LINES {
            lines.pop_front();
        }
        let ghost mid = lines@;
        lines.push_back(line);
        self.lines = lines;
        proof {
            let h = before.push(line@);
            if raw.len() >= MAX_LOG_LINES {
                assert(mid =~= raw.subrange(1, raw.len() as int));
                assert(self@ =~= h.skip(h.len() - MAX_LOG_LINES));
            } else {
                assert(mid == raw);
                assert(self@ =~= h);
            }
        }
    }

    /// The retained lines, oldest first.
    pub fn tail(&self) -> (t: Vec<String>)
        ensures
            views(t@) == self@,
    {
        let mut out: Vec<String> = Vec::new();
        let n = self.lines.len();
        for i in 0..n
            invariant
                n == self.lines@.len(),
                views(out@) == self@.take(i as int),
        {
            let line = self.lines[i].clone();
            let ghost before = out@;
            out.push(line);
            assert(views(out@) =~= views(before).push(self.lines@[i as int]@));
            assert(self@.take(i + 1) =~= self@.take(i as int).push(self.lines@[i as int]@));
        }
        assert(self@.take(n as int) =~= self@);
        out
    }
}

/// What a raw line of server output contributes to the log: the line
/// without trailing whitespace, nothing when that leaves it empty.
pub open spec fn kept_output_line(raw: Seq<char>) -> Option<Seq<char>> {
    if trim_end_spec(raw).len() == 0 {
        None
    } else {
        Some(trim_end_spec(raw))
    }
}

/// Prepares a raw line of server output for the log.
pub fn trimmed_output_line(raw: &str) -> (r: Option<String>)
    ensures
        match r {
            Some(s) => kept_output_line(raw@) == Some(s@),
            None => kept_output_line(raw@) is None,
        },
{
    let t = trim_end(raw);
    if t.as_str().is_empty() {
        None
    } else {
        Some(t)
    }
}

/// A log never holds more than [`MAX_LOG_LINES`] lines, and pushing onto what
/// it retained keeps exactly what pushing onto the whole history would: the
/// log is always the latest lines of everything pushed, in order.
pub proof fn law_retained_push(history: Seq<Seq<char>>, line: Seq<char>)
    ensures
        retained(retained(history).push(line)) =~= retained(history.push(line)),
        retained(history).len() <= MAX_LOG_LINES,
{
    let r = retained(history);
    let h = history.push(line);
    if history.len() > MAX_LOG_LINES {
        assert(r.push(line) =~= history.skip(history.len() - MAX_LOG_LINES).push(line));
        assert(retained(r.push(line)) =~= h.skip(h.len() - MAX_LOG_LINES));
    }
}

/// A line that fits is never dropped: until [`MAX_LOG_LINES`] lines have been
/// pushed, the log holds every one of them.
pub proof fn law_short_history_kept_whole(history: Seq<Seq<char>>)
    requires
        history.len() <= MAX_LOG_LINES,
    ensures
        retained(history) == history,
{
}

} // verus!

verus! {

/// What a log created empty holds after `history` was pushed onto it, line
/// by line, as [`ServerLog::push`] states each step.
pub open spec fn after_pushes(history: Seq<Seq<char>>) -> Seq<Seq<char>>
    decreases history.len(),
{
    if history.len() == 0 {
        Seq::<Seq<char>>::empty()
    } else {
        retained(after_pushes(history.drop_last()).push(history.last()))
    }
}

/// However many lines were pushed, a new log holds the latest
/// [`MAX_LOG_LINES`] of them, in the order they were pushed.
pub proof fn law_log_is_latest_lines(history: Seq<Seq<char>>)
    ensures
        after_pushes(history) == retained(history),
    decreases history.len(),
{
    if history.len() > 0 {
        let h = history.drop_last();
        law_log_is_latest_lines(h);
        law_retained_push(h, history.last());
        assert(h.push(history.last()) =~= history);
    }
}

} // verus!
