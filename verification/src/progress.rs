//! Progress reporting: the observer that a run notifies, the notifications
//! themselves, and the counters of a reporter that keeps score.

use vstd::prelude::*;
use crate::decimal::{append_decimal, decimal_text};

verus! {

/// An observer of a run. A caller implements it to follow the progress; the
/// run only writes to it and asks once whether totals were set beforehand.
pub trait Logger {
    /// Whether the total number of operations is already known to the
    /// observer, so that the run need not announce it.
    fn is_initialized(&self) -> bool;

    /// Announces how many operations the run consists of.
    fn set_total_operations(&self, amount: u64);

    /// Announces that one more operation is complete.
    fn increment_progression(&self);

    /// Passes a message for the user.
    fn log_message(&self, msg: &str);
}

/// The observer that ignores everything; it reports itself initialized.
#[derive(Debug)]
pub struct NoOpLogger {}

impl Logger for NoOpLogger {
    fn is_initialized(&self) -> (initialized: bool)
        ensures
            initialized,
    {
        true
    }

    fn set_total_operations(&self, _amount: u64) {
    }

    fn increment_progression(&self) {
    }

    fn log_message(&self, _msg: &str) {
    }
}

/// One notification for the observer.
#[derive(Debug, Clone, PartialEq, Eq)]
pub enum Report {
    /// A message for the user.
    Message(String),
    /// The total number of operations of the run.
    TotalOperations(u64),
    /// One more operation is complete.
    Increment,
}

/// The mathematical content of a `Report`.
pub enum ReportView {
    Message(Seq<char>),
    TotalOperations(u64),
    Increment,
}

impl View for Report {
    type V = ReportView;

    open spec fn view(&self) -> ReportView {
        match self {
            Report::Message(text) => ReportView::Message(text@),
            Report::TotalOperations(amount) => ReportView::TotalOperations(*amount),
            Report::Increment => ReportView::Increment,
        }
    }
}

/// The contents of a list of reports, in order.
pub open spec fn report_views(reports: Seq<Report>) -> Seq<ReportView> {
    reports.map_values(|report: Report| report@)
}

/// The number of operations of a full run over `pages` pages: one per page
/// fetched, one per page assembled, one for saving.
pub open spec fn total_operations_of(pages: nat) -> nat {
    2 * pages + 1
}

/// The number of operations of a full run over `pages` pages.
pub fn total_operations(pages: usize) -> (total: u64)
    requires
        total_operations_of(pages as nat) <= u64::MAX,
    ensures
        total == total_operations_of(pages as nat),
{
    2 * (pages as u64) + 1
}

/// The number of operations of a full run over `pages` pages, or `None`
/// where that number does not fit in 64 bits.
pub fn checked_total_operations(pages: usize) -> (total: Option<u64>)
    ensures
        total == if total_operations_of(pages as nat) <= u64::MAX {
            Some(total_operations_of(pages as nat) as u64)
        } else {
            None::<u64>
        },
{
    if pages as u64 <= (u64::MAX - 1) / 2 {
        Some(total_operations(pages))
    } else {
        None
    }
}

impl Report {
    /// Hands this notification to `log` through the matching operation.
    pub fn deliver(&self, log: &dyn Logger) {
        match self {
            Report::Message(text) => log.log_message(text.as_str()),
            Report::TotalOperations(amount) => log.set_total_operations(*amount),
            Report::Increment => log.increment_progression(),
        }
    }
}

/// Hands `reports` to `log`, first to last.
pub fn deliver_all(log: &dyn Logger, reports: &Vec<Report>) {
    let mut i: usize = 0;
    while i < reports.len()
        invariant
            i <= reports.len(),
        decreases reports.len() - i,
    {
        reports[i].deliver(log);
        i += 1;
    }
}

/// The counters of a reporter that keeps score: operations completed and
/// operations expected.
#[derive(Debug, Clone, Copy, PartialEq, Eq, Structural)]
pub struct ProgressState {
    completed: u64,
    operations: u64,
}

/// The mathematical content of a `ProgressState`. The count of completed
/// operations is unbounded here.
pub struct ProgressView {
    pub completed: nat,
    pub operations: nat,
}

impl View for ProgressState {
    type V = ProgressView;

    closed spec fn view(&self) -> ProgressView {
        ProgressView { completed: self.completed as nat, operations: self.operations as nat }
    }
}

/// The counters after one more notification.
pub open spec fn progress_step(progress: ProgressView, report: ReportView) -> ProgressView {
    match report {
        ReportView::Message(_) => progress,
        ReportView::TotalOperations(amount) => ProgressView {
            operations: amount as nat,
            ..progress
        },
        ReportView::Increment => ProgressView { completed: progress.completed + 1, ..progress },
    }
}

/// The counters after the notifications `reports`, first to last.
pub open spec fn progress_after(progress: ProgressView, reports: Seq<ReportView>) -> ProgressView
    decreases reports.len(),
{
    if reports.len() == 0 {
        progress
    } else {
        progress_step(progress_after(progress, reports.drop_last()), reports.last())
    }
}

/// The line that a console reporter prints for a completed operation.
pub open spec fn progress_line_text(progress: ProgressView) -> Seq<char> {
    "Progress: ["@ + decimal_text(progress.completed) + "/"@ + decimal_text(progress.operations)
        + "]"@
}

/// The line that a console reporter prints for a message.
pub open spec fn message_line_text(msg: Seq<char>) -> Seq<char> {
    "Message: "@ + msg
}

/// The line that a console reporter prints for a message.
pub fn message_line(msg: &str) -> (line: String)
    ensures
        line@ == message_line_text(msg@),
{
    let mut line = String::from_str("Message: ");
    line.append(msg);
    line
}

impl ProgressState {
    /// Counters of a run that has not begun and whose total is unknown.
    pub fn new() -> (state: ProgressState)
        ensures
            state@ == no_progress(),
    {
        ProgressState { completed: 0, operations: 0 }
    }

    /// The number of operations completed so far.
    pub fn completed(&self) -> (completed: u64)
        ensures
            completed == self@.completed,
    {
        self.completed
    }

    /// The number of operations expected.
    pub fn operations(&self) -> (operations: u64)
        ensures
            operations == self@.operations,
    {
        self.operations
    }

    /// Whether a total was set: a total of zero counts as not set.
    pub fn is_initialized(&self) -> (initialized: bool)
        ensures
            initialized == (self@.operations > 0),
    {
        self.operations > 0
    }

    /// Sets the number of operations expected.
    pub fn set_total_operations(&mut self, ops: u64)
        ensures
            final(self)@ == progress_step(old(self)@, ReportView::TotalOperations(ops)),
    {
        self.operations = ops;
    }

    /// Counts one more completed operation and returns the line to print.
    pub fn increment_progression(&mut self) -> (line: String)
        requires
            old(self)@.completed < u64::MAX,
        ensures
            final(self)@ == progress_step(old(self)@, ReportView::Increment),
            line@ == progress_line_text(final(self)@),
    {
        self.completed = self.completed + 1;
        let mut line = String::from_str("Progress: [");
        append_decimal(&mut line, self.completed);
        line.append("/");
        append_decimal(&mut line, self.operations);
        line.append("]");
        line
    }
}

/// Counting over two lists of notifications in a row is counting over the
/// first and then, from there, over the second.
pub proof fn lemma_progress_after_concat(
    progress: ProgressView,
    first: Seq<ReportView>,
    second: Seq<ReportView>,
)
    ensures
        progress_after(progress, first + second) == progress_after(
            progress_after(progress, first),
            second,
        ),
    decreases second.len(),
{
    if second.len() == 0 {
        assert(first + second =~= first);
    } else {
        lemma_progress_after_concat(progress, first, second.drop_last());
        assert((first + second).drop_last() =~= first + second.drop_last());
        assert((first + second).last() == second.last());
    }
}

/// Counters on which nothing was counted and no total set.
pub open spec fn no_progress() -> ProgressView {
    ProgressView { completed: 0, operations: 0 }
}

/// Whether every notification in `reports` is a message.
pub open spec fn only_messages(reports: Seq<ReportView>) -> bool {
    forall|i: int| 0 <= i < reports.len() ==> (#[trigger] reports[i]) is Message
}

/// The counters after a single notification.
pub proof fn lemma_progress_one(progress: ProgressView, report: ReportView)
    ensures
        progress_after(progress, seq![report]) == progress_step(progress, report),
{
    let reports = seq![report];
    assert(reports.drop_last() =~= Seq::<ReportView>::empty());
    assert(progress_after(progress, reports.drop_last()) == progress);
}

/// Messages move no counter.
pub proof fn lemma_messages_count_nothing(progress: ProgressView, reports: Seq<ReportView>)
    requires
        only_messages(reports),
    ensures
        progress_after(progress, reports) == progress,
    decreases reports.len(),
{
    if reports.len() > 0 {
        assert(reports.last() is Message);
        assert(only_messages(reports.drop_last())) by {
            assert forall|i: int| 0 <= i < reports.drop_last().len() implies (
            #[trigger] reports.drop_last()[i]) is Message by {
                assert(reports.drop_last()[i] == reports[i]);
            }
        }
        lemma_messages_count_nothing(progress, reports.drop_last());
    }
}

/// The counters after an announcement: a message and a total.
pub proof fn lemma_progress_announcement(progress: ProgressView, text: Seq<char>, total: u64)
    ensures
        progress_after(
            progress,
            seq![ReportView::Message(text), ReportView::TotalOperations(total)],
        ) == (ProgressView { operations: total as nat, ..progress }),
{
    let reports = seq![ReportView::Message(text), ReportView::TotalOperations(total)];
    assert(reports.drop_last() =~= seq![ReportView::Message(text)]);
    lemma_progress_one(progress, ReportView::Message(text));
}

} // verus!
