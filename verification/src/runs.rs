//! Whole runs: what the state machine does over a sequence of events, and
//! the laws that hold of every run.

use vstd::prelude::*;
use crate::error::{error_of, Error, Fault};
use crate::messages::{document_text, images_text, page_text};
use crate::metadata::{densely_numbered, page_file_text, page_image_text, DocumentView};
use crate::pipeline::{
    admissible, after_pages, after_pages_reports, begin_reports, begun, folder_reports,
    next, pending, reports_on, terminal, valid, ActionView, EventView, Goal, PipelineView, Stage,
};
use crate::progress::{
    lemma_messages_count_nothing, lemma_progress_after_concat, lemma_progress_announcement,
    lemma_progress_one, no_progress, only_messages, progress_after, progress_step,
    total_operations_of, ProgressView, ReportView,
};

verus! {

/// The state after the events `events`, first to last, from `p`.
pub open spec fn run(p: PipelineView, events: Seq<EventView>) -> PipelineView
    decreases events.len(),
{
    if events.len() == 0 {
        p
    } else {
        next(run(p, events.drop_last()), events.last())
    }
}

/// The notifications owed over the events `events` from `p`, in order.
pub open spec fn run_reports(p: PipelineView, events: Seq<EventView>) -> Seq<ReportView>
    decreases events.len(),
{
    if events.len() == 0 {
        Seq::empty()
    } else {
        run_reports(p, events.drop_last()) + reports_on(
            run(p, events.drop_last()),
            events.last(),
        )
    }
}

/// `count` completions in a row.
pub open spec fn completions(count: nat) -> Seq<EventView> {
    Seq::new(count, |i: int| EventView::Completed)
}

/// The events of a run in which every action succeeds: the metadata
/// arrives, the directories are made, each of the document's pages is
/// stored, `files` files are found and composed, the output is saved and
/// the scratch area removed.
pub open spec fn successful_events(
    document: DocumentView,
    reporter_initialized: bool,
    files: nat,
) -> Seq<EventView> {
    seq![EventView::MetadataLoaded { document, reporter_initialized }, EventView::Completed]
        + completions(document.pages.len()) + seq![EventView::FilesCounted(files)] + completions(
        files,
    ) + seq![EventView::Completed, EventView::Completed]
}

/// The events of a run for the page images alone in which every action
/// succeeds.
pub open spec fn successful_page_events(
    document: DocumentView,
    reporter_initialized: bool,
) -> Seq<EventView> {
    seq![EventView::MetadataLoaded { document, reporter_initialized }, EventView::Completed]
        + completions(document.pages.len())
}

/// The place of a stage in the order of a run.
pub open spec fn stage_rank(stage: Stage) -> nat {
    match stage {
        Stage::FetchMetadata => 0,
        Stage::EnsureDirectories => 1,
        Stage::FetchPages => 2,
        Stage::StartAssembly => 3,
        Stage::ComposePages => 4,
        Stage::SaveOutput => 5,
        Stage::RemoveScratch => 6,
        Stage::Done => 7,
        Stage::Failed(_) => 7,
    }
}

/// A run begins in a valid state.
pub proof fn lemma_begun_valid(goal: Goal, resolved: Result<u64, Error>)
    ensures
        valid(begun(goal, resolved)),
{
}

/// Every step keeps the state valid.
pub proof fn lemma_next_valid(p: PipelineView, e: EventView)
    requires
        valid(p),
        admissible(p, e),
    ensures
        valid(next(p, e)),
{
}

/// Transitions are one-way: a step never moves to an earlier stage, never
/// changes the goal or the identifier, and a run that is over stays as it is
/// and owes the observer nothing more.
pub proof fn lemma_steps_move_forward(p: PipelineView, e: EventView)
    ensures
        stage_rank(next(p, e).stage) >= stage_rank(p.stage),
        next(p, e).goal == p.goal,
        next(p, e).id == p.id,
        terminal(p.stage) ==> next(p, e) == p && reports_on(p, e) == Seq::<ReportView>::empty(),
{
}

/// Whole runs are one-way too: whatever events arrive, the run never stands
/// at an earlier stage than before and keeps its goal and identifier. So no
/// page is fetched once assembly has begun, and none is composed before all
/// are stored.
pub proof fn lemma_runs_move_forward(p: PipelineView, events: Seq<EventView>)
    ensures
        stage_rank(run(p, events).stage) >= stage_rank(p.stage),
        run(p, events).goal == p.goal,
        run(p, events).id == p.id,
    decreases events.len(),
{
    if events.len() > 0 {
        lemma_runs_move_forward(p, events.drop_last());
        lemma_steps_move_forward(run(p, events.drop_last()), events.last());
    }
}

/// The first failure ends the run: from any stage at which the run is
/// under way, a failure leads to the failed stage with the error kind of the
/// fault, nothing is reported, and the pending action is to abort.
pub proof fn lemma_failure_ends_run(p: PipelineView, fault: Fault)
    requires
        !terminal(p.stage),
    ensures
        next(p, EventView::Failed(fault)).stage == Stage::Failed(error_of(fault)),
        pending(next(p, EventView::Failed(fault))) == ActionView::Abort(error_of(fault)),
        reports_on(p, EventView::Failed(fault)) == Seq::<ReportView>::empty(),
{
}

/// Running over one event is one step.
pub proof fn lemma_run_one(p: PipelineView, e: EventView)
    ensures
        run(p, seq![e]) == next(p, e),
        run_reports(p, seq![e]) == reports_on(p, e),
{
    let events = seq![e];
    assert(events.drop_last() =~= Seq::<EventView>::empty());
    assert(run(p, events.drop_last()) == p);
    assert(run_reports(p, events.drop_last()) =~= Seq::<ReportView>::empty());
    assert(run_reports(p, events) =~= reports_on(p, e));
}

/// Running over two lists of events in a row is running over the first and
/// then, from where that ended, over the second.
pub proof fn lemma_run_concat(p: PipelineView, first: Seq<EventView>, second: Seq<EventView>)
    ensures
        run(p, first + second) == run(run(p, first), second),
        run_reports(p, first + second) == run_reports(p, first) + run_reports(
            run(p, first),
            second,
        ),
    decreases second.len(),
{
    if second.len() == 0 {
        assert(first + second =~= first);
        assert(run_reports(p, first) + run_reports(run(p, first), second) =~= run_reports(
            p,
            first,
        ));
    } else {
        lemma_run_concat(p, first, second.drop_last());
        assert((first + second).drop_last() =~= first + second.drop_last());
        assert((first + second).last() == second.last());
        assert(run_reports(p, first + second) =~= run_reports(p, first) + run_reports(
            run(p, first),
            second,
        ));
    }
}

/// A run that is over stays over: whatever events follow, the state does
/// not change and nothing is reported.
pub proof fn lemma_terminal_run(p: PipelineView, events: Seq<EventView>)
    requires
        terminal(p.stage),
    ensures
        run(p, events) == p,
        run_reports(p, events) == Seq::<ReportView>::empty(),
    decreases events.len(),
{
    if events.len() > 0 {
        lemma_terminal_run(p, events.drop_last());
        assert(run_reports(p, events) =~= Seq::<ReportView>::empty());
    }
}

/// A URL that does not resolve fails the run before anything is requested:
/// whatever events follow, the only action ever pending is to abort with
/// the resolver's error.
pub proof fn lemma_unresolved_url_requests_nothing(
    goal: Goal,
    error: Error,
    events: Seq<EventView>,
)
    ensures
        pending(run(begun(goal, Err(error)), events)) == ActionView::Abort(error),
        run_reports(begun(goal, Err(error)), events) == Seq::<ReportView>::empty(),
        begin_reports(goal, Err(error)) == Seq::<ReportView>::empty(),
{
    lemma_terminal_run(begun(goal, Err(error)), events);
}

/// Metadata that cannot be had fails the run with an HTTP error before any
/// directory is asked for: whether the transport failed or the response did
/// not decode, the only action pending from then on is to abort.
pub proof fn lemma_failed_metadata_creates_nothing(
    goal: Goal,
    id: u64,
    fault: Fault,
    events: Seq<EventView>,
)
    requires
        fault == Fault::Transport || fault == Fault::Decode,
    ensures
        pending(run(next(begun(goal, Ok(id)), EventView::Failed(fault)), events))
            == ActionView::Abort(Error::HttpError),
{
    lemma_terminal_run(next(begun(goal, Ok(id)), EventView::Failed(fault)), events);
}

/// Pages are fetched in the order of the metadata, one action each.
///
/// From the stage at which the first page is pending, after `k` of the
/// document's `N` pages are stored the page with index `k` is pending, under
/// its own locator and file name; after all `N`, fetching is over. Each page
/// stored counts as one completed operation.
pub proof fn lemma_fetch_order(p: PipelineView, k: nat, progress: ProgressView)
    requires
        valid(p),
        p.stage == Stage::FetchPages,
        p.cursor == 0,
        k <= p.document.pages.len(),
    ensures
        k < p.document.pages.len() ==> run(p, completions(k)) == (PipelineView { cursor: k, ..p }),
        k < p.document.pages.len() ==> pending(run(p, completions(k))) == (ActionView::FetchPage {
            url: page_image_text(p.document.base_path, p.document.pages[k as int]),
            file_name: page_file_text(p.document.pages[k as int].nr),
        }),
        k == p.document.pages.len() ==> run(p, completions(k)) == after_pages(p),
        progress_after(progress, run_reports(p, completions(k))) == (ProgressView {
            completed: progress.completed + k,
            ..progress
        }),
    decreases k,
{
    if k == 0 {
        assert(completions(0) =~= Seq::<EventView>::empty());
    } else {
        let before = (k - 1) as nat;
        lemma_fetch_order(p, before, progress);
        let events = completions(k);
        assert(events.drop_last() =~= completions(before));
        assert(events.last() == EventView::Completed);
        let q = run(p, completions(before));
        assert(q == (PipelineView { cursor: before, ..p }));
        let owed = reports_on(q, EventView::Completed);
        let rest = if q.cursor + 1 < q.document.pages.len() {
            seq![ReportView::Message(page_text(q.document.pages[q.cursor as int + 1].nr))]
        } else {
            after_pages_reports(q)
        };
        assert(owed == seq![ReportView::Increment] + rest);
        assert(only_messages(rest));
        let counted = progress_after(progress, run_reports(p, completions(before)));
        lemma_progress_after_concat(progress, run_reports(p, completions(before)), owed);
        lemma_progress_after_concat(counted, seq![ReportView::Increment], rest);
        lemma_progress_one(counted, ReportView::Increment);
        lemma_messages_count_nothing(progress_step(counted, ReportView::Increment), rest);
    }
}

/// Where the pages carry the numbers 1 to `N` in order, the files that the
/// fetch actions name are `1.jpg` to `N.jpg`, in this order.
pub proof fn lemma_fetch_names(p: PipelineView, k: nat)
    requires
        valid(p),
        p.stage == Stage::FetchPages,
        p.cursor == 0,
        densely_numbered(p.document),
        k < p.document.pages.len(),
    ensures
        pending(run(p, completions(k))) matches ActionView::FetchPage { file_name, .. }
            && file_name == page_file_text((k + 1) as u64),
{
    lemma_fetch_order(p, k, no_progress());
    assert(p.document.pages[k as int].nr == k + 1);
}

/// Pages are composed by number, whatever the files in the scratch area are
/// called and in whatever order they were found: only their count matters.
///
/// From the stage at which the first page is pending, after `k` of the
/// `files` pages are composed page `k + 1` is pending, read from the file
/// named by that number, on the document's first page for `k == 0` and on a
/// fresh page otherwise, each sized as the metadata says. After `files`
/// pages the output is ready to be saved. Composing counts no operation.
pub proof fn lemma_compose_order(p: PipelineView, k: nat, progress: ProgressView)
    requires
        valid(p),
        p.stage == Stage::ComposePages,
        p.cursor == 0,
        k <= p.files,
    ensures
        k < p.files ==> run(p, completions(k)) == (PipelineView { cursor: k, ..p }),
        k < p.files ==> pending(run(p, completions(k))) == (ActionView::ComposePage {
            file_name: page_file_text((k + 1) as u64),
            number: (k + 1) as u64,
            fresh_page: k != 0,
            width: p.document.width,
            height: p.document.height,
        }),
        k == p.files ==> run(p, completions(k)) == (PipelineView {
            stage: Stage::SaveOutput,
            cursor: (k - 1) as nat,
            ..p
        }),
        progress_after(progress, run_reports(p, completions(k))) == progress,
    decreases k,
{
    if k == 0 {
        assert(completions(0) =~= Seq::<EventView>::empty());
    } else {
        let before = (k - 1) as nat;
        lemma_compose_order(p, before, progress);
        let events = completions(k);
        assert(events.drop_last() =~= completions(before));
        assert(events.last() == EventView::Completed);
        let q = run(p, completions(before));
        assert(q == (PipelineView { cursor: before, ..p }));
        let owed = reports_on(q, EventView::Completed);
        assert(only_messages(owed));
        lemma_progress_after_concat(progress, run_reports(p, completions(before)), owed);
        lemma_messages_count_nothing(progress, owed);
    }
}

/// All pages are fetched before any is composed, and each counts once.
///
/// From the stage at which the directories are pending, once they are made
/// and each of the document's `N` pages is stored, fetching is over; the
/// counters have moved by `N` completed operations. A run for the page
/// images whose observer was not initialized has announced a total of `N`
/// meanwhile; no other run announces a total here.
pub proof fn lemma_pages_phase(p: PipelineView, progress: ProgressView)
    requires
        valid(p),
        p.stage == Stage::EnsureDirectories,
    ensures
        run(p, seq![EventView::Completed] + completions(p.document.pages.len())) == after_pages(p),
        progress_after(
            progress,
            run_reports(p, seq![EventView::Completed] + completions(p.document.pages.len())),
        ) == (ProgressView {
            completed: progress.completed + p.document.pages.len(),
            operations: if p.goal == Goal::Pages && !p.reporter_initialized {
                p.document.pages.len()
            } else {
                progress.operations
            },
        }),
{
    let pages = p.document.pages.len();
    let first = seq![EventView::Completed];
    lemma_run_concat(p, first, completions(pages));
    lemma_run_one(p, EventView::Completed);
    let q = next(p, EventView::Completed);
    let owed = reports_on(p, EventView::Completed);
    let rest = if pages == 0 {
        after_pages_reports(p)
    } else {
        seq![ReportView::Message(page_text(p.document.pages[0].nr))]
    };
    assert(owed == folder_reports(p) + rest);
    assert(only_messages(rest));
    let announced = progress_after(progress, folder_reports(p));
    if p.goal == Goal::Pages && !p.reporter_initialized {
        lemma_progress_announcement(
            progress,
            images_text(p.document.title, p.document.id),
            pages as u64,
        );
    }
    lemma_progress_after_concat(progress, folder_reports(p), rest);
    lemma_messages_count_nothing(announced, rest);
    lemma_progress_after_concat(progress, owed, run_reports(q, completions(pages)));
    if pages == 0 {
        assert(completions(0) =~= Seq::<EventView>::empty());
    } else {
        lemma_fetch_order(q, pages, announced);
    }
}

/// One page is composed for each file that the scratch area holds, and
/// saving the output counts once.
///
/// From the stage at which assembly begins, once `files` files are counted,
/// each of the pages 1 to `files` is composed, the output is saved and the
/// scratch area is removed, the run is done; the counters have moved by one
/// completed operation. Where no file is found nothing is composed, and the
/// output keeps the one empty page it was opened with.
pub proof fn lemma_assembly_phase(p: PipelineView, files: nat, progress: ProgressView)
    requires
        valid(p),
        p.stage == Stage::StartAssembly,
        files <= usize::MAX,
    ensures
        run(
            p,
            seq![EventView::FilesCounted(files)] + completions(files) + seq![
                EventView::Completed,
                EventView::Completed,
            ],
        ).stage == Stage::Done,
        progress_after(
            progress,
            run_reports(
                p,
                seq![EventView::FilesCounted(files)] + completions(files) + seq![
                    EventView::Completed,
                    EventView::Completed,
                ],
            ),
        ) == (ProgressView { completed: progress.completed + 1, ..progress }),
{
    let counted = seq![EventView::FilesCounted(files)];
    let closing = seq![EventView::Completed, EventView::Completed];
    let head = counted + completions(files);
    // counting
    lemma_run_one(p, EventView::FilesCounted(files));
    let q = next(p, EventView::FilesCounted(files));
    let owed = reports_on(p, EventView::FilesCounted(files));
    assert(only_messages(owed));
    lemma_messages_count_nothing(progress, owed);
    // composing
    lemma_run_concat(p, counted, completions(files));
    lemma_progress_after_concat(progress, owed, run_reports(q, completions(files)));
    if files == 0 {
        assert(completions(0) =~= Seq::<EventView>::empty());
    } else {
        lemma_compose_order(q, files, progress);
    }
    let r = run(p, head);
    assert(r.stage == Stage::SaveOutput);
    assert(progress_after(progress, run_reports(p, head)) == progress);
    // saving and cleaning up
    lemma_run_concat(p, head, closing);
    assert(closing.drop_last() =~= seq![EventView::Completed]);
    lemma_run_one(r, EventView::Completed);
    let saved = next(r, EventView::Completed);
    assert(run(r, closing) == next(saved, EventView::Completed));
    let last = reports_on(r, EventView::Completed) + reports_on(saved, EventView::Completed);
    assert(run_reports(r, closing) =~= last);
    assert(last =~= seq![ReportView::Increment]);
    lemma_progress_after_concat(progress, run_reports(p, head), run_reports(r, closing));
    lemma_progress_one(progress, ReportView::Increment);
}

/// Progress accounting of a full run.
///
/// A run for the output document in which every action succeeds ends done.
/// To an observer that was not initialized it announces a total of `2N + 1`
/// operations for a document of `N` pages, and to one that was it announces
/// none. It counts `N + 1` operations as completed: one for each page
/// stored and one for saving, none for composing.
pub proof fn lemma_successful_run(
    id: u64,
    document: DocumentView,
    reporter_initialized: bool,
    files: nat,
)
    requires
        admissible(
            begun(Goal::Document, Ok(id)),
            EventView::MetadataLoaded { document, reporter_initialized },
        ),
        files <= usize::MAX,
    ensures
        run(
            begun(Goal::Document, Ok(id)),
            successful_events(document, reporter_initialized, files),
        ).stage == Stage::Done,
        progress_after(
            no_progress(),
            begin_reports(Goal::Document, Ok(id)) + run_reports(
                begun(Goal::Document, Ok(id)),
                successful_events(document, reporter_initialized, files),
            ),
        ) == (ProgressView {
            completed: document.pages.len() + 1,
            operations: if reporter_initialized {
                0
            } else {
                total_operations_of(document.pages.len())
            },
        }),
{
    let pages = document.pages.len();
    let start = begun(Goal::Document, Ok(id));
    let greeting = begin_reports(Goal::Document, Ok(id));
    let loaded = EventView::MetadataLoaded { document, reporter_initialized };
    let fetching = seq![EventView::Completed] + completions(pages);
    let assembling = seq![EventView::FilesCounted(files)] + completions(files) + seq![
        EventView::Completed,
        EventView::Completed,
    ];
    let events = successful_events(document, reporter_initialized, files);
    assert(events =~= seq![loaded] + fetching + assembling);

    // the announcement that the metadata is being loaded
    assert(only_messages(greeting));
    lemma_messages_count_nothing(no_progress(), greeting);

    // the metadata
    lemma_run_one(start, loaded);
    let prepared = next(start, loaded);
    let announced = reports_on(start, loaded);
    let known = progress_after(no_progress(), announced);
    if !reporter_initialized {
        lemma_progress_announcement(
            no_progress(),
            document_text(document.title, document.id),
            total_operations_of(pages) as u64,
        );
    }

    // the pages
    lemma_pages_phase(prepared, known);
    let stored = run(prepared, fetching);

    // the output
    lemma_assembly_phase(stored, files, progress_after(known, run_reports(prepared, fetching)));

    // all together
    lemma_run_concat(start, seq![loaded], fetching);
    lemma_run_concat(start, seq![loaded] + fetching, assembling);
    let all = greeting + run_reports(start, events);
    assert(all =~= greeting + announced + run_reports(prepared, fetching) + run_reports(
        stored,
        assembling,
    ));
    lemma_progress_after_concat(
        no_progress(),
        greeting + announced + run_reports(prepared, fetching),
        run_reports(stored, assembling),
    );
    lemma_progress_after_concat(
        no_progress(),
        greeting + announced,
        run_reports(prepared, fetching),
    );
    lemma_progress_after_concat(no_progress(), greeting, announced);
}

/// For a document without pages, the operations completed by a full
/// successful run are as many as the total announced.
pub proof fn lemma_completed_meets_total_without_pages(id: u64, document: DocumentView, files: nat)
    requires
        document.pages.len() == 0,
        files <= usize::MAX,
    ensures
        ({
            let counters = progress_after(
                no_progress(),
                begin_reports(Goal::Document, Ok(id)) + run_reports(
                    begun(Goal::Document, Ok(id)),
                    successful_events(document, false, files),
                ),
            );
            counters.completed == counters.operations
        }),
{
    lemma_successful_run(id, document, false, files);
}

/// Progress accounting of a run for the page images alone.
///
/// Such a run ends done once the last page is stored. To an observer that
/// was not initialized it announces a total of `N` operations for a document
/// of `N` pages, and it counts `N` operations as completed: as many as it
/// announced.
pub proof fn lemma_successful_page_run(id: u64, document: DocumentView, reporter_initialized: bool)
    requires
        document.pages.len() <= usize::MAX,
    ensures
        run(
            begun(Goal::Pages, Ok(id)),
            successful_page_events(document, reporter_initialized),
        ).stage == Stage::Done,
        progress_after(
            no_progress(),
            begin_reports(Goal::Pages, Ok(id)) + run_reports(
                begun(Goal::Pages, Ok(id)),
                successful_page_events(document, reporter_initialized),
            ),
        ) == (ProgressView {
            completed: document.pages.len(),
            operations: if reporter_initialized {
                0
            } else {
                document.pages.len()
            },
        }),
{
    let pages = document.pages.len();
    let start = begun(Goal::Pages, Ok(id));
    let greeting = begin_reports(Goal::Pages, Ok(id));
    let loaded = EventView::MetadataLoaded { document, reporter_initialized };
    let fetching = seq![EventView::Completed] + completions(pages);
    let events = successful_page_events(document, reporter_initialized);
    assert(events =~= seq![loaded] + fetching);

    lemma_run_one(start, loaded);
    let prepared = next(start, loaded);
    let announced = reports_on(start, loaded);
    assert(greeting + announced =~= Seq::<ReportView>::empty());

    lemma_pages_phase(prepared, no_progress());
    lemma_run_concat(start, seq![loaded], fetching);
    let all = greeting + run_reports(start, events);
    assert(all =~= run_reports(prepared, fetching));
}

/// The pages of the output depend on nothing but the page size and the
/// number of files found: two runs that agree on these compose the same
/// pages, from the same files, at the same size, and end with the same
/// number of pages, whatever else differs between them.
pub proof fn lemma_assembly_is_repeatable(p: PipelineView, q: PipelineView, files: nat, k: nat)
    requires
        valid(p),
        valid(q),
        p.stage == Stage::StartAssembly,
        q.stage == Stage::StartAssembly,
        p.document.width == q.document.width,
        p.document.height == q.document.height,
        files <= usize::MAX,
        k <= files,
    ensures
        pending(run(p, seq![EventView::FilesCounted(files)] + completions(k))) == pending(
            run(q, seq![EventView::FilesCounted(files)] + completions(k)),
        ),
        k < files ==> pending(run(p, seq![EventView::FilesCounted(files)] + completions(k)))
            is ComposePage,
        k == files ==> pending(run(p, seq![EventView::FilesCounted(files)] + completions(k)))
            == ActionView::SaveOutput,
{
    let counted = seq![EventView::FilesCounted(files)];
    lemma_run_concat(p, counted, completions(k));
    lemma_run_concat(q, counted, completions(k));
    lemma_run_one(p, EventView::FilesCounted(files));
    lemma_run_one(q, EventView::FilesCounted(files));
    if files == 0 {
        assert(completions(0) =~= Seq::<EventView>::empty());
    } else {
        lemma_compose_order(next(p, EventView::FilesCounted(files)), k, no_progress());
        lemma_compose_order(next(q, EventView::FilesCounted(files)), k, no_progress());
    }
}

} // verus!
