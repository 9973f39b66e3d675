//! The log of a child process: its most recent output and messages, by stream.
use std::collections::VecDeque;
use vstd::prelude::*;

use crate::text::trim_line_ends;

verus! {

/// How many lines of each stream a log keeps unless its owner says otherwise.
pub const STDIO_LOG_CAPACITY: usize = 50;

/// What a log holds: the kept lines of each stream, oldest first.
pub struct LogView {
    pub stdout: Seq<Seq<char>>,
    pub stderr: Seq<Seq<char>>,
    pub capacity: nat,
}

/// `queue` after `line` has been added. A queue that holds exactly `capacity`
/// lines gives up its oldest one first. A queue of capacity zero has none to give
/// up when it is empty, and never holds exactly zero lines again.
pub open spec fn pushed(queue: Seq<Seq<char>>, capacity: nat, line: Seq<char>) -> Seq<Seq<char>> {
    if queue.len() == capacity && queue.len() > 0 {
        queue.drop_first().push(line)
    } else {
        queue.push(line)
    }
}

/// `queue` after the raw text `raw` has been recorded: line ends at its end do
/// not count, and a line of nothing else is not recorded.
pub open spec fn recorded(queue: Seq<Seq<char>>, capacity: nat, raw: Seq<char>) -> Seq<Seq<char>> {
    let line = crate::text::trimmed(raw);
    if line.len() == 0 {
        queue
    } else {
        pushed(queue, capacity, line)
    }
}

/// One stream's part of the formatted log.
pub open spec fn section(title: Seq<char>, lines: Seq<Seq<char>>) -> Seq<char> {
    title + crate::text::joined(lines, "\n"@)
}

impl LogView {
    /// The log after `raw` has been recorded as standard output.
    pub open spec fn with_stdout(self, raw: Seq<char>) -> LogView {
        LogView { stdout: recorded(self.stdout, self.capacity, raw), ..self }
    }

    /// The log after `raw` has been recorded as standard error.
    pub open spec fn with_stderr(self, raw: Seq<char>) -> LogView {
        LogView { stderr: recorded(self.stderr, self.capacity, raw), ..self }
    }

    /// The log after a message has been recorded under `prefix`. A message that
    /// has no JSON text is not recorded.
    pub open spec fn with_serialized(self, prefix: Seq<char>, json: Option<Seq<char>>) -> LogView {
        match json {
            Some(text) => self.with_stdout(prefix + " "@ + text),
            None => self,
        }
    }

    /// The log after the line of a message, `text` as it is under `prefix`, has
    /// been added to standard output.
    pub open spec fn with_message_line(self, prefix: Seq<char>, text: Seq<char>) -> LogView {
        LogView { stdout: pushed(self.stdout, self.capacity, prefix + " "@ + text), ..self }
    }

    /// The log as one text: standard error first, and a fixed sentence for an
    /// empty log.
    pub open spec fn formatted(self) -> Seq<char> {
        if self.stdout.len() == 0 && self.stderr.len() == 0 {
            "no stdout/stderr captured yet"@
        } else if self.stdout.len() == 0 {
            section("stderr:\n"@, self.stderr)
        } else if self.stderr.len() == 0 {
            section("stdout:\n"@, self.stdout)
        } else {
            section("stderr:\n"@, self.stderr) + "\n"@ + section("stdout:\n"@, self.stdout)
        }
    }

    /// No stream holds more lines than the capacity allows, and each line is one
    /// that recording can leave behind. A capacity of zero sets no limit.
    pub open spec fn well_formed(self) -> bool {
        &&& self.capacity > 0 ==> self.stdout.len() <= self.capacity && self.stderr.len()
            <= self.capacity
        &&& forall|i: int| 0 <= i < self.stdout.len() ==> is_recordable(#[trigger] self.stdout[i])
        &&& forall|i: int| 0 <= i < self.stderr.len() ==> is_recordable(#[trigger] self.stderr[i])
    }
}

/// A line that is not empty and does not end in a line end.
pub open spec fn is_recordable(line: Seq<char>) -> bool {
    line.len() > 0 && !crate::text::is_line_end(line.last())
}

/// A queue of `capacity` lines can be allocated. A `String` is three machine
/// words, and no allocation holds more than `isize::MAX` bytes.
pub open spec fn allocatable(capacity: usize) -> bool {
    capacity * 3 * (usize::BITS / 8) <= isize::MAX
}

/// A capacity up to this limit is allocatable whether machine words have 32 or 64
/// bits.
pub proof fn lemma_allocatable(capacity: usize)
    requires
        capacity <= 0x7fff_ffffint / 24,
    ensures
        allocatable(capacity),
{
    assert(usize::BITS == 32 || usize::BITS == 64);
    if usize::BITS == 32 {
        assert(capacity * 3 * 4 <= isize::MAX);
    } else {
        assert(capacity * 3 * 8 <= isize::MAX);
    }
}

/// A message whose text does not end in a line end is recorded whole, in one new
/// line.
pub proof fn lemma_message_recorded_whole(log: LogView, prefix: Seq<char>, text: Seq<char>)
    requires
        text.len() > 0,
        !crate::text::is_line_end(text.last()),
    ensures
        log.with_serialized(prefix, Some(text)) == log.with_message_line(prefix, text),
{
    let line = prefix + " "@ + text;
    assert(line.last() == text.last());
    assert(crate::text::trimmed(line) == line);
}

/// The texts of some strings.
pub open spec fn texts(lines: Seq<String>) -> Seq<Seq<char>> {
    lines.map_values(|line: String| line@)
}

/// The text of a string, if there is one.
pub open spec fn text_of(string: Option<String>) -> Option<Seq<char>> {
    match string {
        Some(text) => Some(text@),
        None => None,
    }
}

/// A well-formed queue takes another raw line and stays within its limit.
pub proof fn lemma_recorded_well_formed(queue: Seq<Seq<char>>, capacity: nat, raw: Seq<char>)
    requires
        capacity > 0 ==> queue.len() <= capacity,
        forall|i: int| 0 <= i < queue.len() ==> is_recordable(#[trigger] queue[i]),
    ensures
        capacity > 0 ==> recorded(queue, capacity, raw).len() <= capacity,
        forall|i: int|
            0 <= i < recorded(queue, capacity, raw).len() ==> is_recordable(
                #[trigger] recorded(queue, capacity, raw)[i],
            ),
{
    crate::text::lemma_trimmed_shape(raw);
}

/// The lines of both streams and how many of each are kept.
#[derive(Debug)]
pub struct ProcessLogInner {
    stdout: VecDeque<String>,
    stderr: VecDeque<String>,
    capacity: usize,
}

impl View for ProcessLogInner {
    type V = LogView;

    closed spec fn view(&self) -> LogView {
        LogView {
            stdout: texts(self.stdout@),
            stderr: texts(self.stderr@),
            capacity: self.capacity as nat,
        }
    }
}

impl ProcessLogInner {
    /// An empty pair of queues.
    pub fn new(capacity: usize) -> (result: Self)
        requires
            allocatable(capacity),
        ensures
            result@ == (LogView {
                stdout: Seq::empty(),
                stderr: Seq::empty(),
                capacity: capacity as nat,
            }),
    {
        let result = Self {
            stdout: VecDeque::with_capacity(capacity),
            stderr: VecDeque::with_capacity(capacity),
            capacity,
        };
        assert(result@.stdout =~= Seq::empty());
        assert(result@.stderr =~= Seq::empty());
        result
    }

    /// Adds `line` to `queue`, in place of its oldest line when it is full.
    pub fn push(queue: &mut VecDeque<String>, capacity: usize, line: String)
        ensures
            texts(final(queue)@) == pushed(texts(old(queue)@), capacity as nat, line@),
    {
        if queue.len() == capacity {
            queue.pop_front();
        }
        queue.push_back(line);
        assert(texts(queue@) =~= pushed(texts(old(queue)@), capacity as nat, line@));
    }
}

/// The log of one child process.
#[derive(Debug)]
pub struct ProcessLogs {
    inner: ProcessLogInner,
}

impl View for ProcessLogs {
    type V = LogView;

    closed spec fn view(&self) -> LogView {
        self.inner@
    }
}

/// Reading from a stream failed.
#[derive(Debug)]
pub struct ReadFailed;

impl ProcessLogs {
    /// An empty log that keeps `capacity` lines of each stream.
    pub fn new(capacity: usize) -> (result: Self)
        requires
            allocatable(capacity),
        ensures
            result@ == (LogView {
                stdout: Seq::empty(),
                stderr: Seq::empty(),
                capacity: capacity as nat,
            }),
            result@.well_formed(),
    {
        Self { inner: ProcessLogInner::new(capacity) }
    }

    /// Records `line` as standard output.
    pub fn record_stdout_line(&mut self, line: &str)
        ensures
            final(self)@ == old(self)@.with_stdout(line@),
            old(self)@.well_formed() ==> final(self)@.well_formed(),
    {
        proof {
            if self@.well_formed() {
                lemma_recorded_well_formed(self@.stdout, self@.capacity, line@);
            }
        }
        let sanitized = Self::sanitize_line(line);
        if sanitized.as_str().is_empty() {
            return ;
        }
        let capacity: usize = self.inner.capacity;
        ProcessLogInner::push(&mut self.inner.stdout, capacity, sanitized);
    }

    /// Records `line` as standard error.
    pub fn record_stderr_line(&mut self, line: &str)
        ensures
            final(self)@ == old(self)@.with_stderr(line@),
            old(self)@.well_formed() ==> final(self)@.well_formed(),
    {
        proof {
            if self@.well_formed() {
                lemma_recorded_well_formed(self@.stderr, self@.capacity, line@);
            }
        }
        let sanitized = Self::sanitize_line(line);
        if sanitized.as_str().is_empty() {
            return ;
        }
        let capacity: usize = self.inner.capacity;
        ProcessLogInner::push(&mut self.inner.stderr, capacity, sanitized);
    }

    /// Records what serializing a message gave: under `prefix` if there is a
    /// text, and not at all if serializing failed.
    pub fn record_serialized(&mut self, prefix: &str, serialized: Option<String>)
        ensures
            final(self)@ == old(self)@.with_serialized(prefix@, text_of(serialized)),
            old(self)@.well_formed() ==> final(self)@.well_formed(),
    {
        match serialized {
            Some(text) => {
                let line = prefix.to_owned().concat(" ").concat(text.as_str());
                self.record_stdout_line(line.as_str());
            },
            None => {},
        }
    }

    /// Takes the outcome of reading one line of standard error and says whether
    /// to go on reading. A read of no bytes is the end of the stream.
    pub fn record_stderr_read(&mut self, read: Result<usize, ReadFailed>, line: &str) -> (go_on:
        bool)
        ensures
            go_on == (read is Ok && read->Ok_0 != 0),
            final(self)@ == if go_on {
                old(self)@.with_stderr(line@)
            } else {
                old(self)@
            },
            old(self)@.well_formed() ==> final(self)@.well_formed(),
    {
        match read {
            Ok(count) => {
                if count == 0 {
                    false
                } else {
                    self.record_stderr_line(line);
                    true
                }
            },
            Err(_) => false,
        }
    }

    /// The log as one text.
    pub fn formatted(&self) -> (result: String)
        ensures
            result@ == self@.formatted(),
    {
        let no_stdout = self.inner.stdout.len() == 0;
        let no_stderr = self.inner.stderr.len() == 0;
        if no_stdout && no_stderr {
            return "no stdout/stderr captured yet".to_owned();
        }
        let mut result = String::new();
        if !no_stderr {
            result = "stderr:\n".to_owned().concat(join_lines(&self.inner.stderr).as_str());
        }
        if !no_stdout {
            if !no_stderr {
                result = result.concat("\n");
            }
            result = result.concat("stdout:\n").concat(join_lines(&self.inner.stdout).as_str());
        }
        assert(result@ =~= self@.formatted());
        result
    }

    /// Cuts the line ends off the end of `line`.
    fn sanitize_line(line: &str) -> (result: String)
        ensures
            result@ == crate::text::trimmed(line@),
    {
        trim_line_ends(line)
    }
}

/// The lines of `queue` with a line feed between neighbours.
fn join_lines(queue: &VecDeque<String>) -> (result: String)
    ensures
        result@ == crate::text::joined(texts(queue@), "\n"@),
{
    let mut result = String::new();
    let mut index: usize = 0;
    while index < queue.len()
        invariant
            index <= queue@.len(),
            result@ == crate::text::joined(texts(queue@).take(index as int), "\n"@),
        decreases queue@.len() - index,
    {
        let ghost seen = texts(queue@).take(index as int);
        let ghost extended = texts(queue@).take(index + 1);
        assert(extended.drop_last() =~= seen);
        assert(extended.last() == queue@[index as int]@);
        if index > 0 {
            result.append("\n");
        }
        result.append(queue[index].as_str());
        assert(result@ =~= crate::text::joined(extended, "\n"@));
        index = index + 1;
    }
    assert(texts(queue@).take(index as int) =~= texts(queue@));
    result
}

} // verus!
