//! The tail of the system log: the query for the latest lines of high
//! severity, and the reading of what the log facility printed.

use crate::command::{Invocation, InvocationView};
use crate::text::{chars_of, decimal, is_digit, lines, lines_of, push_decimal, string_of};
use vstd::prelude::*;

verus! {

/// The number of lines that are asked for where the caller names none.
pub const JOURNAL_LIMIT: u32 = 10;

/// The run of the log facility that prints the latest `limit` lines of
/// severity "error" or worse, each behind its time in ISO form.
pub open spec fn journal_command_of(limit: u32) -> InvocationView {
    InvocationView {
        program: "journalctl"@,
        args: seq![
            "-p"@,
            "3"@,
            "-n"@,
            decimal(limit as nat),
            "--output=short-iso"@,
            "--no-pager"@,
        ],
    }
}

/// The query for the latest `limit` lines of high severity: see
/// [`journal_command_of`].
pub fn journal_command(limit: u32) -> (run: Invocation)
    ensures
        run@ == journal_command_of(limit),
{
    let mut count = String::new();
    push_decimal(&mut count, limit as u64);
    assert(count@ =~= decimal(limit as nat));
    let mut args: Vec<String> = Vec::new();
    args.push("-p".to_owned());
    args.push("3".to_owned());
    args.push("-n".to_owned());
    args.push(count);
    args.push("--output=short-iso".to_owned());
    args.push("--no-pager".to_owned());
    assert(args.deep_view() =~= journal_command_of(limit).args);
    Invocation { program: "journalctl".to_owned(), args }
}

/// A line of the log.
#[derive(Clone, Debug, PartialEq, Eq)]
pub struct LogEntry {
    /// The time at the head of the line, or the whole line where no time
    /// stands out.
    pub time: String,
    /// The line as it was printed.
    pub msg: String,
}

pub struct LogEntryView {
    pub time: Seq<char>,
    pub msg: Seq<char>,
}

impl View for LogEntry {
    type V = LogEntryView;

    open spec fn view(&self) -> LogEntryView {
        LogEntryView { time: self.time@, msg: self.msg@ }
    }
}

impl DeepView for LogEntry {
    type V = LogEntryView;

    open spec fn deep_view(&self) -> LogEntryView {
        self@
    }
}

/// The number of characters of `line` before its first space, or the length
/// of `line` where it has none.
pub open spec fn word_end(line: Seq<char>) -> nat
    decreases line.len(),
{
    if line.len() == 0 || line.first() == ' ' {
        0
    } else {
        1 + word_end(line.drop_first())
    }
}

/// The time of a line: its first word, where the line begins with a digit and
/// a space ends the word. Of any other line no time stands out, and the whole
/// line takes its place.
pub open spec fn time_of(line: Seq<char>) -> Seq<char> {
    if line.len() > 0 && is_digit(line.first()) && word_end(line) < line.len() {
        line.take(word_end(line) as int)
    } else {
        line
    }
}

/// The entry that a line of the log gives. The message is the line as it
/// stands: it is not taken apart any further.
pub open spec fn entry_of(line: Seq<char>) -> LogEntryView {
    LogEntryView { time: time_of(line), msg: line }
}

proof fn lemma_word_end(line: Seq<char>, k: int)
    requires
        0 <= k <= line.len(),
        forall|j: int| 0 <= j < k ==> line[j] != ' ',
        k < line.len() ==> line[k] == ' ',
    ensures
        word_end(line) == k,
    decreases k,
{
    if k > 0 {
        let rest = line.drop_first();
        assert forall|j: int| 0 <= j < k - 1 implies rest[j] != ' ' by {
            assert(rest[j] == line[j + 1]);
        }
        lemma_word_end(rest, k - 1);
    }
}

/// Reads a line of the log: see [`entry_of`].
pub fn read_line(line: &str) -> (entry: LogEntry)
    ensures
        entry@ == entry_of(line@),
{
    let chars = chars_of(line);
    let mut end: usize = 0;
    while end < chars.len() && chars[end] != ' '
        invariant
            end <= chars.len(),
            forall|j: int| 0 <= j < end ==> chars@[j] != ' ',
        decreases chars.len() - end,
    {
        end += 1;
    }
    proof {
        lemma_word_end(chars@, end as int);
    }
    let timed = chars.len() > 0 && '0' <= chars[0] && chars[0] <= '9' && end < chars.len();
    let time = if timed {
        string_of(&chars, 0, end)
    } else {
        line.to_owned()
    };
    LogEntry { time, msg: line.to_owned() }
}

/// The entries that the output of the log facility gives: one for each line,
/// in the order in which the facility printed them. Output that is missing,
/// because the log could not be read, gives no entries.
pub open spec fn entries_of(output: Option<Seq<char>>) -> Seq<LogEntryView> {
    match output {
        Some(text) => Seq::new(lines_of(text).len(), |i: int| entry_of(lines_of(text)[i])),
        None => Seq::empty(),
    }
}

/// Reads the output of the log facility: see [`entries_of`]. The lines are
/// not sorted anew. A log that could not be read is no fault: it gives no
/// entries.
pub fn recent_errors(output: Option<&str>) -> (entries: Vec<LogEntry>)
    ensures
        entries.deep_view() == entries_of(output.deep_view()),
{
    let mut entries: Vec<LogEntry> = Vec::new();
    match output {
        None => {
            assert(entries.deep_view() =~= Seq::empty());
        },
        Some(text) => {
            let all = lines(text);
            let mut i: usize = 0;
            while i < all.len()
                invariant
                    i <= all.len(),
                    entries.len() == i,
                    all.deep_view() == lines_of(text@),
                    forall|j: int|
                        0 <= j < i ==> entries.deep_view()[j] == entry_of(lines_of(text@)[j]),
                decreases all.len() - i,
            {
                assert(all.deep_view()[i as int] == all[i as int]@);
                let entry = read_line(all[i].as_str());
                let ghost before = entries.deep_view();
                entries.push(entry);
                assert(entries.deep_view() =~= before.push(entry@));
                i += 1;
            }
            assert(entries.deep_view() =~= entries_of(Some(text@)));
        },
    }
    entries
}

} // verus!
