//! The rule of the status log: it holds the most recent lines, up to a fixed
//! number, and the oldest line is the first to go.

use vstd::prelude::*;

verus! {

/// The number of status lines that the log keeps.
pub const LOG_CAPACITY: usize = 200;

/// The last `LOG_CAPACITY` lines of `lines`, or all of them where there are
/// fewer.
pub open spec fn keep_recent(lines: Seq<Seq<char>>) -> Seq<Seq<char>> {
    if lines.len() <= LOG_CAPACITY {
        lines
    } else {
        lines.skip(lines.len() - LOG_CAPACITY)
    }
}

/// The log after `line` was written to it.
pub open spec fn push_line(lines: Seq<Seq<char>>, line: Seq<char>) -> Seq<Seq<char>> {
    keep_recent(lines.push(line))
}

/// The log after each line of `added` was written to it, in order.
pub open spec fn push_lines(lines: Seq<Seq<char>>, added: Seq<Seq<char>>) -> Seq<Seq<char>>
    decreases added.len(),
{
    if added.len() == 0 {
        lines
    } else {
        push_line(push_lines(lines, added.drop_last()), added.last())
    }
}

/// Writing to a log within its capacity keeps it there: a full log loses
/// its oldest line, and a line is never lost before the log is full.
pub proof fn lemma_push_line(lines: Seq<Seq<char>>, line: Seq<char>)
    requires
        lines.len() <= LOG_CAPACITY,
    ensures
        push_line(lines, line).len() <= LOG_CAPACITY,
        push_line(lines, line).last() == line,
        lines.len() < LOG_CAPACITY ==> push_line(lines, line) == lines.push(line),
        lines.len() == LOG_CAPACITY ==> push_line(lines, line) == lines.drop_first().push(line),
{
    if lines.len() == LOG_CAPACITY {
        assert(lines.push(line).skip(1) =~= lines.drop_first().push(line));
    }
}

/// Whatever is written, the log holds exactly the most recent lines of all
/// that it ever held, oldest first: after more than `LOG_CAPACITY` lines,
/// the last `LOG_CAPACITY` of them.
pub proof fn lemma_log_keeps_most_recent(lines: Seq<Seq<char>>, added: Seq<Seq<char>>)
    requires
        lines.len() <= LOG_CAPACITY,
    ensures
        push_lines(lines, added) == keep_recent(lines + added),
        push_lines(lines, added).len() <= LOG_CAPACITY,
        added.len() >= LOG_CAPACITY ==> push_lines(lines, added) == added.skip(
            added.len() - LOG_CAPACITY,
        ),
    decreases added.len(),
{
    if added.len() == 0 {
        assert(lines + added =~= lines);
    } else {
        let front = added.drop_last();
        lemma_log_keeps_most_recent(lines, front);
        let all = lines + added;
        assert((lines + front).push(added.last()) =~= all);
        assert(keep_recent(keep_recent(lines + front).push(added.last())) =~= keep_recent(all));
    }
    if added.len() >= LOG_CAPACITY {
        assert(keep_recent(lines + added) =~= added.skip(added.len() - LOG_CAPACITY));
    }
}

} // verus!
