//! A whole listing: what to do with each thing that reading a directory
//! reports, and how the program ends.

use crate::calendar::MonthNames;
use crate::line::{entry_line, render_line, EntryView};
use crate::style::texts;
use vstd::prelude::*;

verus! {

/// The exit code of a listing that reached the end of its directory.
pub const EXIT_OK: i32 = 0;

/// The exit code of a listing that stopped at a failure.
pub const EXIT_FAILURE: i32 = 1;

/// What reading a directory can report.
#[derive(Clone, Debug, PartialEq, Eq)]
pub enum Event {
    /// The working directory could not be determined.
    NoWorkingDir,
    /// The directory could not be opened for reading.
    DirUnreadable,
    /// An entry, or its metadata, could not be read.
    EntryUnreadable,
    /// An entry was read.
    Entry(EntryView),
}

/// What the program does about an event.
#[derive(Clone, Debug, PartialEq, Eq)]
pub enum Action {
    /// Print the line and go on.
    Print(String),
    /// Print the message and exit with `EXIT_FAILURE`.
    Fail(String),
}

/// An action with its text as chars.
pub enum ActionView {
    Print(Seq<char>),
    Fail(Seq<char>),
}

impl View for Action {
    type V = ActionView;

    open spec fn view(&self) -> ActionView {
        match self {
            Action::Print(line) => ActionView::Print(line@),
            Action::Fail(message) => ActionView::Fail(message@),
        }
    }
}

/// The message for a working directory that cannot be determined.
pub open spec fn no_working_dir_message() -> Seq<char> {
    "Error: cannot get current directory"@
}

/// The message for a directory or an entry that cannot be read.
pub open spec fn unreadable_message() -> Seq<char> {
    "Error: cannot read current directory"@
}

/// The action that an event calls for. An entry is printed; a failure to
/// read stops the listing, and so does an entry whose modification time has
/// no date.
pub open spec fn reaction(event: Event, months: Seq<Seq<char>>) -> ActionView {
    match event {
        Event::NoWorkingDir => ActionView::Fail(no_working_dir_message()),
        Event::DirUnreadable => ActionView::Fail(unreadable_message()),
        Event::EntryUnreadable => ActionView::Fail(unreadable_message()),
        Event::Entry(entry) => match entry_line(entry, months) {
            Some(line) => ActionView::Print(line),
            None => ActionView::Fail(unreadable_message()),
        },
    }
}

/// Decides what to do about one event.
pub fn react(event: &Event, months: &MonthNames) -> (action: Action)
    ensures
        action@ == reaction(*event, months@),
{
    match event {
        Event::NoWorkingDir => Action::Fail(
            String::from_str("Error: cannot get current directory"),
        ),
        Event::DirUnreadable => Action::Fail(
            String::from_str("Error: cannot read current directory"),
        ),
        Event::EntryUnreadable => Action::Fail(
            String::from_str("Error: cannot read current directory"),
        ),
        Event::Entry(entry) => match render_line(entry, months) {
            Some(line) => Action::Print(line),
            None => Action::Fail(String::from_str("Error: cannot read current directory")),
        },
    }
}

/// What a listing wrote to its output and how it ended.
#[derive(Clone, Debug, PartialEq, Eq)]
pub struct Report {
    pub lines: Vec<String>,
    pub exit_code: i32,
}

/// A report with its lines as chars.
pub struct Outcome {
    pub lines: Seq<Seq<char>>,
    pub exit_code: int,
}

impl View for Report {
    type V = Outcome;

    open spec fn view(&self) -> Outcome {
        Outcome { lines: texts(self.lines@), exit_code: self.exit_code as int }
    }
}

/// The outcome of a listing that met `events` in this order and then the
/// end of the directory. Each event adds what its action prints; after the
/// first failure nothing more happens.
pub open spec fn outcome(events: Seq<Event>, months: Seq<Seq<char>>) -> Outcome
    decreases events.len(),
{
    if events.len() == 0 {
        Outcome { lines: seq![], exit_code: EXIT_OK as int }
    } else {
        let before = outcome(events.drop_last(), months);
        if before.exit_code != EXIT_OK {
            before
        } else {
            match reaction(events.last(), months) {
                ActionView::Print(line) => Outcome {
                    lines: before.lines.push(line),
                    exit_code: EXIT_OK as int,
                },
                ActionView::Fail(message) => Outcome {
                    lines: before.lines.push(message),
                    exit_code: EXIT_FAILURE as int,
                },
            }
        }
    }
}

/// Once the first `n` events have ended in failure, the events after them
/// change nothing.
pub proof fn lemma_failure_is_final(events: Seq<Event>, months: Seq<Seq<char>>, n: int)
    requires
        0 <= n <= events.len(),
        outcome(events.take(n), months).exit_code != EXIT_OK,
    ensures
        outcome(events, months) == outcome(events.take(n), months),
    decreases events.len(),
{
    if n == events.len() {
        assert(events.take(n) =~= events);
    } else {
        assert(events.drop_last().take(n) =~= events.take(n));
        lemma_failure_is_final(events.drop_last(), months, n);
    }
}

/// Runs a whole listing over the events that reading the directory gave.
pub fn run(events: &Vec<Event>, months: &MonthNames) -> (report: Report)
    ensures
        report@ == outcome(events@, months@),
{
    let mut lines: Vec<String> = Vec::new();
    let mut seen: usize = 0;
    assert(texts(lines@) =~= outcome(events@.take(0), months@).lines);
    while seen < events.len()
        invariant
            seen <= events.len(),
            texts(lines@) == outcome(events@.take(seen as int), months@).lines,
            outcome(events@.take(seen as int), months@).exit_code == EXIT_OK,
        decreases events.len() - seen,
    {
        let ghost before = lines@;
        let ghost next = events@.take(seen + 1);
        assert(next.drop_last() =~= events@.take(seen as int));
        assert(next.last() == events@[seen as int]);
        match react(&events[seen], months) {
            Action::Print(line) => {
                lines.push(line);
                assert(texts(lines@) =~= texts(before).push(line@));
            },
            Action::Fail(message) => {
                lines.push(message);
                assert(texts(lines@) =~= texts(before).push(message@));
                proof {
                    lemma_failure_is_final(events@, months@, seen + 1);
                }
                return Report { lines, exit_code: EXIT_FAILURE };
            },
        }
        seen += 1;
    }
    assert(events@.take(seen as int) =~= events@);
    Report { lines, exit_code: EXIT_OK }
}

/// Whether an event stops the listing.
pub open spec fn fails(event: Event, months: Seq<Seq<char>>) -> bool {
    reaction(event, months) is Fail
}

/// What the action for an event prints.
pub open spec fn printed(event: Event, months: Seq<Seq<char>>) -> Seq<char> {
    match reaction(event, months) {
        ActionView::Print(line) => line,
        ActionView::Fail(message) => message,
    }
}

/// A listing without a failure prints one line for each event, in their
/// order, and exits with zero.
pub proof fn lemma_clean_listing(events: Seq<Event>, months: Seq<Seq<char>>)
    requires
        forall|i: int| 0 <= i < events.len() ==> !fails(#[trigger] events[i], months),
    ensures
        outcome(events, months).exit_code == EXIT_OK,
        outcome(events, months).lines.len() == events.len(),
        forall|i: int|
            0 <= i < events.len() ==> #[trigger] outcome(events, months).lines[i] == printed(
                events[i],
                months,
            ),
    decreases events.len(),
{
    if events.len() > 0 {
        let before = events.drop_last();
        assert forall|i: int| 0 <= i < before.len() implies !fails(
            #[trigger] before[i],
            months,
        ) by {
            assert(before[i] == events[i]);
        }
        lemma_clean_listing(before, months);
        assert(!fails(events[events.len() - 1], months));
        assert forall|i: int| 0 <= i < events.len() implies #[trigger] outcome(
            events,
            months,
        ).lines[i] == printed(events[i], months) by {
            if i < before.len() {
                assert(outcome(before, months).lines[i] == printed(before[i], months));
            }
        }
    }
}

/// A listing whose first failure is event `at` prints the lines of the
/// events before it, then the message of the failure and nothing more, and
/// exits with one.
pub proof fn lemma_failed_listing(events: Seq<Event>, months: Seq<Seq<char>>, at: int)
    requires
        0 <= at < events.len(),
        fails(events[at], months),
        forall|i: int| 0 <= i < at ==> !fails(#[trigger] events[i], months),
    ensures
        outcome(events, months).exit_code == EXIT_FAILURE,
        outcome(events, months).lines.len() == at + 1,
        forall|i: int|
            0 <= i <= at ==> #[trigger] outcome(events, months).lines[i] == printed(
                events[i],
                months,
            ),
{
    let before = events.take(at);
    let upto = events.take(at + 1);
    assert forall|i: int| 0 <= i < before.len() implies !fails(#[trigger] before[i], months) by {
        assert(before[i] == events[i]);
    }
    lemma_clean_listing(before, months);
    assert(upto.drop_last() =~= before);
    assert(upto.last() == events[at]);
    lemma_failure_is_final(events, months, at + 1);
    assert forall|i: int| 0 <= i <= at implies #[trigger] outcome(events, months).lines[i]
        == printed(events[i], months) by {
        if i < at {
            assert(outcome(before, months).lines[i] == printed(before[i], months));
        }
    }
}

/// A listing exits with zero or with one: with one exactly where an event
/// fails. It never prints more lines than there are events.
pub proof fn lemma_exit_code(events: Seq<Event>, months: Seq<Seq<char>>)
    ensures
        outcome(events, months).exit_code == EXIT_OK || outcome(events, months).exit_code
            == EXIT_FAILURE,
        outcome(events, months).exit_code == EXIT_FAILURE <==> exists|i: int|
            0 <= i < events.len() && fails(#[trigger] events[i], months),
        outcome(events, months).lines.len() <= events.len(),
    decreases events.len(),
{
    if events.len() > 0 {
        let before = events.drop_last();
        lemma_exit_code(before, months);
        let last = events.len() - 1;
        if exists|i: int| 0 <= i < before.len() && fails(#[trigger] before[i], months) {
            let i = choose|i: int| 0 <= i < before.len() && fails(#[trigger] before[i], months);
            assert(fails(events[i], months));
        } else if fails(events[last], months) {
        } else {
            assert forall|i: int| 0 <= i < events.len() implies !fails(
                #[trigger] events[i],
                months,
            ) by {
                if i < before.len() {
                    assert(before[i] == events[i]);
                }
            }
        }
    }
}

} // verus!
