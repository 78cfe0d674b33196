//! The run as a state machine.
//!
//! A `Pipeline` holds where a run stands. `Pipeline::action` names the one
//! thing to do next outside the library; `Pipeline::advance` takes what came
//! of it and moves on, handing back the notifications for the observer. The
//! machine only moves forward, and the first failure ends the run.

use vstd::prelude::*;
use crate::error::{error_of, Error, Fault};
use crate::messages::{
    adding_message, adding_text, creating_message, creating_text, document_message,
    document_text, images_message, images_text, loading_message, loading_text, page_message,
    page_text, saving_message, saving_text,
};
use crate::metadata::{
    metadata_url, metadata_url_text, page_file_name, page_file_text, page_image_text,
    scratch_dir_name, scratch_dir_text, DocumentData, DocumentView,
};
use crate::progress::{report_views, total_operations, total_operations_of, Report, ReportView};
use crate::resolver::{document_id_of, has_digit, parse_document_id};

verus! {

/// What a run is to produce.
#[derive(Debug, Clone, Copy, PartialEq, Eq, Structural)]
pub enum Goal {
    /// The assembled output document; the page images are scratch files.
    Document,
    /// The page images alone, left in a folder of the caller's.
    Pages,
}

/// Where a run stands.
#[derive(Debug, Clone, Copy, PartialEq, Eq, Structural)]
pub enum Stage {
    /// The identifier is resolved; the metadata is to be loaded.
    FetchMetadata,
    /// The metadata is loaded; the directories are to be made.
    EnsureDirectories,
    /// The page under the cursor is to be fetched and stored.
    FetchPages,
    /// All pages are stored; the output document is to be opened and the
    /// stored files counted.
    StartAssembly,
    /// The page under the cursor is to be composed.
    ComposePages,
    /// All pages are composed; the output document is to be written.
    SaveOutput,
    /// The output is written; the scratch area is to be removed.
    RemoveScratch,
    /// The run succeeded.
    Done,
    /// The run failed with this error.
    Failed(Error),
}

/// What the driver is to do next.
#[derive(Debug, Clone, PartialEq, Eq)]
pub enum Action {
    /// Request `url` once, declaring the client identification, and decode
    /// the body as document metadata.
    LoadMetadata { url: String },
    /// Create the scratch directory `scratch` in the temporary-files area,
    /// and the parent directory of the target file.
    EnsureDirectories { scratch: String },
    /// Create the folder that is to receive the page images.
    EnsureFolder,
    /// Request `url` and store the body as `file_name` in the scratch area.
    FetchPage { url: String, file_name: String },
    /// Open an output document named `title` whose first page measures
    /// `width` by `height`, and count the files in the scratch area.
    StartAssembly { title: String, width: u64, height: u64 },
    /// Decode the scratch file `file_name` and place it as the only content
    /// of page `number`: on a page added for it where `fresh_page` holds, on
    /// the page that the document began with otherwise.
    ComposePage { file_name: String, number: u64, fresh_page: bool, width: u64, height: u64 },
    /// Write the output document to the target file.
    SaveOutput,
    /// Remove the scratch directory `scratch` with all it holds.
    RemoveScratch { scratch: String },
    /// Nothing is left to do: the run succeeded.
    Finish,
    /// Nothing is left to do: the run failed.
    Abort(Error),
}

/// What came of the action that was pending.
#[derive(Debug, Clone, PartialEq, Eq)]
pub enum Event {
    /// The metadata arrived. `reporter_initialized` tells whether the
    /// observer already knows the total number of operations.
    MetadataLoaded { document: DocumentData, reporter_initialized: bool },
    /// The action was carried out.
    Completed,
    /// The output document is open and the scratch area holds this many files.
    FilesCounted(usize),
    /// The action could not be carried out.
    Failed(Fault),
}

/// The mathematical content of an `Action`.
pub enum ActionView {
    LoadMetadata { url: Seq<char> },
    EnsureDirectories { scratch: Seq<char> },
    EnsureFolder,
    FetchPage { url: Seq<char>, file_name: Seq<char> },
    StartAssembly { title: Seq<char>, width: u64, height: u64 },
    ComposePage { file_name: Seq<char>, number: u64, fresh_page: bool, width: u64, height: u64 },
    SaveOutput,
    RemoveScratch { scratch: Seq<char> },
    Finish,
    Abort(Error),
}

/// The mathematical content of an `Event`.
pub enum EventView {
    MetadataLoaded { document: DocumentView, reporter_initialized: bool },
    Completed,
    FilesCounted(nat),
    Failed(Fault),
}

/// The mathematical content of a `Pipeline`.
pub struct PipelineView {
    pub goal: Goal,
    pub stage: Stage,
    /// The identifier resolved from the URL.
    pub id: u64,
    /// The metadata, once loaded.
    pub document: DocumentView,
    /// Whether the observer knew the total when the metadata arrived.
    pub reporter_initialized: bool,
    /// The index of the page that is being fetched or composed.
    pub cursor: nat,
    /// The number of files found in the scratch area.
    pub files: nat,
}

impl View for Action {
    type V = ActionView;

    open spec fn view(&self) -> ActionView {
        match self {
            Action::LoadMetadata { url } => ActionView::LoadMetadata { url: url@ },
            Action::EnsureDirectories { scratch } => ActionView::EnsureDirectories {
                scratch: scratch@,
            },
            Action::EnsureFolder => ActionView::EnsureFolder,
            Action::FetchPage { url, file_name } => ActionView::FetchPage {
                url: url@,
                file_name: file_name@,
            },
            Action::StartAssembly { title, width, height } => ActionView::StartAssembly {
                title: title@,
                width: *width,
                height: *height,
            },
            Action::ComposePage {
                file_name,
                number,
                fresh_page,
                width,
                height,
            } => ActionView::ComposePage {
                file_name: file_name@,
                number: *number,
                fresh_page: *fresh_page,
                width: *width,
                height: *height,
            },
            Action::SaveOutput => ActionView::SaveOutput,
            Action::RemoveScratch { scratch } => ActionView::RemoveScratch { scratch: scratch@ },
            Action::Finish => ActionView::Finish,
            Action::Abort(error) => ActionView::Abort(*error),
        }
    }
}

impl View for Event {
    type V = EventView;

    open spec fn view(&self) -> EventView {
        match self {
            Event::MetadataLoaded { document, reporter_initialized } => EventView::MetadataLoaded {
                document: document@,
                reporter_initialized: *reporter_initialized,
            },
            Event::Completed => EventView::Completed,
            Event::FilesCounted(files) => EventView::FilesCounted(*files as nat),
            Event::Failed(fault) => EventView::Failed(*fault),
        }
    }
}

/// The metadata of a run that has loaded none yet.
pub open spec fn no_document() -> DocumentView {
    DocumentView {
        id: 0,
        title: Seq::empty(),
        url_title: Seq::empty(),
        width: 0,
        height: 0,
        url: Seq::empty(),
        base_path: Seq::empty(),
        pages: Seq::empty(),
    }
}

/// Whether the run is over.
pub open spec fn terminal(stage: Stage) -> bool {
    stage is Done || stage is Failed
}

/// What a stage needs of the rest of the state: a page under the cursor
/// while pages are fetched or composed, counts within the machine's range,
/// and assembly only where a document is the goal.
pub open spec fn valid(p: PipelineView) -> bool {
    &&& p.document.pages.len() <= usize::MAX
    &&& p.files <= usize::MAX
    &&& p.stage == Stage::FetchPages ==> p.cursor < p.document.pages.len()
    &&& p.stage == Stage::ComposePages ==> p.cursor < p.files
    &&& (p.stage == Stage::StartAssembly || p.stage == Stage::ComposePages || p.stage
        == Stage::SaveOutput || p.stage == Stage::RemoveScratch) ==> p.goal == Goal::Document
}

/// What an event needs to be taken in by `p`: counts within the machine's
/// range, and, where the step is to announce the total of a run for the
/// output document, a total that fits in 64 bits.
pub open spec fn admissible(p: PipelineView, e: EventView) -> bool {
    match e {
        EventView::MetadataLoaded { document, reporter_initialized } => {
            &&& document.pages.len() <= usize::MAX
            &&& p.goal == Goal::Document && !reporter_initialized ==> total_operations_of(
                document.pages.len(),
            ) <= u64::MAX
        },
        EventView::FilesCounted(files) => files <= usize::MAX,
        _ => true,
    }
}

/// The state in which a run begins, given how the URL resolved.
pub open spec fn begun(goal: Goal, resolved: Result<u64, Error>) -> PipelineView {
    PipelineView {
        goal,
        stage: match resolved {
            Ok(_) => Stage::FetchMetadata,
            Err(error) => Stage::Failed(error),
        },
        id: match resolved {
            Ok(id) => id,
            Err(_) => 0,
        },
        document: no_document(),
        reporter_initialized: false,
        cursor: 0,
        files: 0,
    }
}

/// The notifications with which a run begins: a run for the output
/// document announces that it loads the metadata.
pub open spec fn begin_reports(goal: Goal, resolved: Result<u64, Error>) -> Seq<ReportView> {
    match resolved {
        Ok(id) => if goal == Goal::Document {
            seq![ReportView::Message(loading_text(id))]
        } else {
            Seq::empty()
        },
        Err(_) => Seq::empty(),
    }
}

/// Whether `e` answers the action that is pending in `p`. A run that is
/// over accepts nothing.
pub open spec fn accepts(p: PipelineView, e: EventView) -> bool {
    match p.stage {
        Stage::Done | Stage::Failed(_) => false,
        Stage::FetchMetadata => e is MetadataLoaded || e is Failed,
        Stage::StartAssembly => e is FilesCounted || e is Failed,
        _ => e is Completed || e is Failed,
    }
}

/// The state once all pages are stored: assembly where a document is the
/// goal, the end of the run otherwise.
pub open spec fn after_pages(p: PipelineView) -> PipelineView {
    PipelineView {
        stage: if p.goal == Goal::Document {
            Stage::StartAssembly
        } else {
            Stage::Done
        },
        cursor: 0,
        ..p
    }
}

/// The notifications once all pages are stored.
pub open spec fn after_pages_reports(p: PipelineView) -> Seq<ReportView> {
    if p.goal == Goal::Document {
        seq![ReportView::Message(creating_text())]
    } else {
        Seq::empty()
    }
}

/// The notifications once the folder of a run for the page images is made:
/// where the observer was not initialized, the run and its total of one
/// operation per page.
pub open spec fn folder_reports(p: PipelineView) -> Seq<ReportView> {
    if p.goal == Goal::Pages && !p.reporter_initialized {
        seq![
            ReportView::Message(images_text(p.document.title, p.document.id)),
            ReportView::TotalOperations(p.document.pages.len() as u64),
        ]
    } else {
        Seq::empty()
    }
}

/// The state that follows `p` on `e`. An event that `p` does not accept
/// changes nothing; a failure ends the run with the error kind of its fault.
pub open spec fn next(p: PipelineView, e: EventView) -> PipelineView {
    if !accepts(p, e) {
        p
    } else {
        match e {
            EventView::Failed(fault) => PipelineView { stage: Stage::Failed(error_of(fault)), ..p },
            EventView::MetadataLoaded { document, reporter_initialized } => PipelineView {
                stage: Stage::EnsureDirectories,
                document,
                reporter_initialized,
                ..p
            },
            EventView::FilesCounted(files) => PipelineView {
                stage: if files == 0 {
                    Stage::SaveOutput
                } else {
                    Stage::ComposePages
                },
                cursor: 0,
                files,
                ..p
            },
            EventView::Completed => match p.stage {
                Stage::EnsureDirectories => if p.document.pages.len() == 0 {
                    after_pages(p)
                } else {
                    PipelineView { stage: Stage::FetchPages, cursor: 0, ..p }
                },
                Stage::FetchPages => if p.cursor + 1 < p.document.pages.len() {
                    PipelineView { cursor: p.cursor + 1, ..p }
                } else {
                    after_pages(p)
                },
                Stage::ComposePages => if p.cursor + 1 < p.files {
                    PipelineView { cursor: p.cursor + 1, ..p }
                } else {
                    PipelineView { stage: Stage::SaveOutput, ..p }
                },
                Stage::SaveOutput => PipelineView { stage: Stage::RemoveScratch, ..p },
                Stage::RemoveScratch => PipelineView { stage: Stage::Done, ..p },
                _ => p,
            },
        }
    }
}

/// The notifications that the step from `p` on `e` owes the observer.
///
/// Where the observer is not initialized, a run for the output document
/// announces itself and its total when the metadata arrives, a run for the
/// page images when its folder is made. Each page stored counts as one
/// operation; composing a page counts as none; saving the output counts as
/// one.
pub open spec fn reports_on(p: PipelineView, e: EventView) -> Seq<ReportView> {
    if !accepts(p, e) {
        Seq::empty()
    } else {
        match e {
            EventView::Failed(_) => Seq::empty(),
            EventView::MetadataLoaded { document, reporter_initialized } => if p.goal
                == Goal::Document && !reporter_initialized {
                seq![
                    ReportView::Message(document_text(document.title, document.id)),
                    ReportView::TotalOperations(total_operations_of(document.pages.len()) as u64),
                ]
            } else {
                Seq::empty()
            },
            EventView::FilesCounted(files) => if files == 0 {
                seq![ReportView::Message(saving_text())]
            } else {
                seq![ReportView::Message(adding_text(1))]
            },
            EventView::Completed => match p.stage {
                Stage::EnsureDirectories => folder_reports(p) + (if p.document.pages.len() == 0 {
                    after_pages_reports(p)
                } else {
                    seq![ReportView::Message(page_text(p.document.pages[0].nr))]
                }),
                Stage::FetchPages => seq![ReportView::Increment] + (if p.cursor + 1
                    < p.document.pages.len() {
                    seq![ReportView::Message(page_text(p.document.pages[p.cursor as int + 1].nr))]
                } else {
                    after_pages_reports(p)
                }),
                Stage::ComposePages => if p.cursor + 1 < p.files {
                    seq![ReportView::Message(adding_text((p.cursor + 2) as u64))]
                } else {
                    seq![ReportView::Message(saving_text())]
                },
                Stage::SaveOutput => seq![ReportView::Increment],
                _ => Seq::empty(),
            },
        }
    }
}

/// The action that is pending in `p`.
pub open spec fn pending(p: PipelineView) -> ActionView {
    match p.stage {
        Stage::FetchMetadata => ActionView::LoadMetadata { url: metadata_url_text(p.id) },
        Stage::EnsureDirectories => if p.goal == Goal::Document {
            ActionView::EnsureDirectories { scratch: scratch_dir_text(p.id) }
        } else {
            ActionView::EnsureFolder
        },
        Stage::FetchPages => ActionView::FetchPage {
            url: page_image_text(p.document.base_path, p.document.pages[p.cursor as int]),
            file_name: page_file_text(p.document.pages[p.cursor as int].nr),
        },
        Stage::StartAssembly => ActionView::StartAssembly {
            title: p.document.title,
            width: p.document.width,
            height: p.document.height,
        },
        Stage::ComposePages => ActionView::ComposePage {
            file_name: page_file_text((p.cursor + 1) as u64),
            number: (p.cursor + 1) as u64,
            fresh_page: p.cursor != 0,
            width: p.document.width,
            height: p.document.height,
        },
        Stage::SaveOutput => ActionView::SaveOutput,
        Stage::RemoveScratch => ActionView::RemoveScratch { scratch: scratch_dir_text(p.id) },
        Stage::Done => ActionView::Finish,
        Stage::Failed(error) => ActionView::Abort(error),
    }
}

/// How a run ended, if it has.
pub open spec fn outcome_of(stage: Stage) -> Option<Result<(), Error>> {
    match stage {
        Stage::Done => Some(Ok(())),
        Stage::Failed(error) => Some(Err(error)),
        _ => None,
    }
}

/// A run: its goal, its stage and what it has learnt so far.
#[derive(Debug)]
pub struct Pipeline {
    goal: Goal,
    stage: Stage,
    id: u64,
    document: DocumentData,
    reporter_initialized: bool,
    cursor: usize,
    files: usize,
}

/// A pipeline after a step, with the notifications that the step owes the
/// observer, in order.
#[derive(Debug)]
pub struct Step {
    pub pipeline: Pipeline,
    pub reports: Vec<Report>,
}

impl View for Pipeline {
    type V = PipelineView;

    closed spec fn view(&self) -> PipelineView {
        PipelineView {
            goal: self.goal,
            stage: self.stage,
            id: self.id,
            document: self.document@,
            reporter_initialized: self.reporter_initialized,
            cursor: self.cursor as nat,
            files: self.files as nat,
        }
    }
}

fn one_report(report: Report) -> (reports: Vec<Report>)
    ensures
        report_views(reports@) == seq![report@],
{
    let mut reports = Vec::new();
    reports.push(report);
    assert(report_views(reports@) =~= seq![report@]);
    reports
}

fn no_reports() -> (reports: Vec<Report>)
    ensures
        report_views(reports@) == Seq::<ReportView>::empty(),
{
    let reports = Vec::new();
    assert(report_views(reports@) =~= Seq::<ReportView>::empty());
    reports
}

impl Pipeline {
    #[verifier::type_invariant]
    spec fn well_formed(self) -> bool {
        valid(self@)
    }

    /// Begins a run for `goal`, given how the URL resolved: a run whose URL
    /// did not resolve has failed before anything is requested.
    pub fn begin(goal: Goal, resolved: Result<u64, Error>) -> (step: Step)
        ensures
            step.pipeline@ == begun(goal, resolved),
            report_views(step.reports@) == begin_reports(goal, resolved),
            valid(step.pipeline@),
    {
        let document = DocumentData {
            id: 0,
            title: String::new(),
            url_title: String::new(),
            width: 0,
            height: 0,
            url: String::new(),
            base_path: String::new(),
            pages: Vec::new(),
        };
        assert(document@ =~= no_document()) by {
            assert(document@.pages =~= Seq::empty());
        }
        let (stage, id, reports) = match resolved {
            Ok(id) => {
                let reports = match goal {
                    Goal::Document => one_report(Report::Message(loading_message(id))),
                    Goal::Pages => no_reports(),
                };
                (Stage::FetchMetadata, id, reports)
            },
            Err(error) => (Stage::Failed(error), 0, no_reports()),
        };
        Step {
            pipeline: Pipeline {
                goal,
                stage,
                id,
                document,
                reporter_initialized: false,
                cursor: 0,
                files: 0,
            },
            reports,
        }
    }

    /// Begins a run for `goal` on the document that `url` names. A URL
    /// without any digit names none: the run has failed before anything is
    /// requested.
    pub fn start(goal: Goal, url: &str) -> (step: Step)
        ensures
            step.pipeline@ == begun(goal, document_id_of(url@)),
            report_views(step.reports@) == begin_reports(goal, document_id_of(url@)),
            valid(step.pipeline@),
            !has_digit(url@) ==> pending(step.pipeline@) == ActionView::Abort(Error::InvalidUrl),
    {
        Pipeline::begin(goal, parse_document_id(url))
    }

    /// The stage at which the run stands.
    pub fn stage(&self) -> (stage: Stage)
        ensures
            stage == self@.stage,
    {
        self.stage
    }

    /// What the run is to produce.
    pub fn goal(&self) -> (goal: Goal)
        ensures
            goal == self@.goal,
    {
        self.goal
    }

    /// The identifier resolved from the URL.
    pub fn document_id(&self) -> (id: u64)
        ensures
            id == self@.id,
    {
        self.id
    }

    /// How the run ended, or `None` while it is under way.
    pub fn outcome(&self) -> (outcome: Option<Result<(), Error>>)
        ensures
            outcome == outcome_of(self@.stage),
    {
        match self.stage {
            Stage::Done => Some(Ok(())),
            Stage::Failed(error) => Some(Err(error)),
            _ => None,
        }
    }

    /// The action that the driver is to perform next.
    pub fn action(&self) -> (action: Action)
        ensures
            action@ == pending(self@),
    {
        proof {
            use_type_invariant(self);
        }
        match self.stage {
            Stage::FetchMetadata => Action::LoadMetadata { url: metadata_url(self.id) },
            Stage::EnsureDirectories => match self.goal {
                Goal::Document => Action::EnsureDirectories { scratch: scratch_dir_name(self.id) },
                Goal::Pages => Action::EnsureFolder,
            },
            Stage::FetchPages => {
                let page = &self.document.pages[self.cursor];
                Action::FetchPage {
                    url: page.image_url(self.document.base_path.as_str()),
                    file_name: page.file_name(),
                }
            },
            Stage::StartAssembly => Action::StartAssembly {
                title: self.document.title.clone(),
                width: self.document.width,
                height: self.document.height,
            },
            Stage::ComposePages => {
                let number: u64 = (self.cursor + 1) as u64;
                Action::ComposePage {
                    file_name: page_file_name(number),
                    number,
                    fresh_page: self.cursor != 0,
                    width: self.document.width,
                    height: self.document.height,
                }
            },
            Stage::SaveOutput => Action::SaveOutput,
            Stage::RemoveScratch => Action::RemoveScratch { scratch: scratch_dir_name(self.id) },
            Stage::Done => Action::Finish,
            Stage::Failed(error) => Action::Abort(error),
        }
    }

    /// Takes in what came of the pending action and moves on.
    ///
    /// An event that does not answer the pending action leaves the run as it
    /// is and owes the observer nothing.
    pub fn advance(self, event: Event) -> (step: Step)
        requires
            admissible(self@, event@),
        ensures
            step.pipeline@ == next(self@, event@),
            report_views(step.reports@) == reports_on(self@, event@),
            valid(step.pipeline@),
    {
        let step = match event {
            Event::Failed(fault) => match self.stage {
                Stage::Done | Stage::Failed(_) => self.stay(),
                _ => self.fail(fault),
            },
            Event::MetadataLoaded { document, reporter_initialized } => match self.stage {
                Stage::FetchMetadata => self.load(document, reporter_initialized),
                _ => self.stay(),
            },
            Event::FilesCounted(files) => match self.stage {
                Stage::StartAssembly => self.count(files),
                _ => self.stay(),
            },
            Event::Completed => match self.stage {
                Stage::EnsureDirectories => self.enter_pages(),
                Stage::FetchPages => self.next_page(),
                Stage::ComposePages => self.next_composition(),
                Stage::SaveOutput => self.saved(),
                Stage::RemoveScratch => self.removed(),
                _ => self.stay(),
            },
        };
        proof {
            use_type_invariant(&step.pipeline);
        }
        step
    }

    /// The step that changes nothing.
    fn stay(self) -> (step: Step)
        ensures
            step.pipeline == self,
            report_views(step.reports@) == Seq::<ReportView>::empty(),
    {
        Step { pipeline: self, reports: no_reports() }
    }

    /// The step that ends the run with the error kind of `fault`.
    fn fail(self, fault: Fault) -> (step: Step)
        requires
            !terminal(self@.stage),
        ensures
            step.pipeline@ == next(self@, EventView::Failed(fault)),
            report_views(step.reports@) == Seq::<ReportView>::empty(),
    {
        proof {
            use_type_invariant(&self);
        }
        Step {
            pipeline: Pipeline { stage: Stage::Failed(fault.error()), ..self },
            reports: no_reports(),
        }
    }

    /// The step that takes in the metadata. A run for the output document
    /// announces itself and its total to an observer that is not
    /// initialized.
    fn load(self, loaded: DocumentData, reporter_initialized: bool) -> (step: Step)
        requires
            self@.stage == Stage::FetchMetadata,
            admissible(
                self@,
                EventView::MetadataLoaded { document: loaded@, reporter_initialized },
            ),
        ensures
            step.pipeline@ == next(
                self@,
                EventView::MetadataLoaded { document: loaded@, reporter_initialized },
            ),
            report_views(step.reports@) == reports_on(
                self@,
                EventView::MetadataLoaded { document: loaded@, reporter_initialized },
            ),
    {
        proof {
            use_type_invariant(&self);
        }
        let mut reports = Vec::new();
        match self.goal {
            Goal::Document => {
                if !reporter_initialized {
                    reports.push(
                        Report::Message(document_message(loaded.title.as_str(), loaded.id)),
                    );
                    reports.push(Report::TotalOperations(total_operations(loaded.pages.len())));
                }
            },
            Goal::Pages => {},
        }
        assert(report_views(reports@) =~= reports_on(
            self@,
            EventView::MetadataLoaded { document: loaded@, reporter_initialized },
        ));
        Step {
            pipeline: Pipeline {
                stage: Stage::EnsureDirectories,
                document: loaded,
                reporter_initialized,
                ..self
            },
            reports,
        }
    }

    /// The step that takes in the number of files found: on to the first
    /// page where there is one, on to saving where there is none.
    fn count(self, found: usize) -> (step: Step)
        requires
            self@.stage == Stage::StartAssembly,
        ensures
            step.pipeline@ == next(self@, EventView::FilesCounted(found as nat)),
            report_views(step.reports@) == reports_on(
                self@,
                EventView::FilesCounted(found as nat),
            ),
    {
        proof {
            use_type_invariant(&self);
        }
        if found == 0 {
            Step {
                pipeline: Pipeline { stage: Stage::SaveOutput, cursor: 0, files: found, ..self },
                reports: one_report(Report::Message(saving_message())),
            }
        } else {
            Step {
                pipeline: Pipeline { stage: Stage::ComposePages, cursor: 0, files: found, ..self },
                reports: one_report(Report::Message(adding_message(1))),
            }
        }
    }

    /// The step once the directories are made: a run for the page images
    /// announces itself and its total to an observer that was not
    /// initialized; then on to the first page, or past the pages where the
    /// document has none.
    fn enter_pages(self) -> (step: Step)
        requires
            self@.stage == Stage::EnsureDirectories,
        ensures
            step.pipeline@ == next(self@, EventView::Completed),
            report_views(step.reports@) == reports_on(self@, EventView::Completed),
    {
        proof {
            use_type_invariant(&self);
        }
        let mut reports = Vec::new();
        match self.goal {
            Goal::Pages => {
                if !self.reporter_initialized {
                    reports.push(
                        Report::Message(
                            images_message(self.document.title.as_str(), self.document.id),
                        ),
                    );
                    reports.push(Report::TotalOperations(self.document.pages.len() as u64));
                }
            },
            Goal::Document => {},
        }
        assert(report_views(reports@) =~= folder_reports(self@));
        if self.document.pages.len() == 0 {
            self.leave_pages(reports)
        } else {
            reports.push(Report::Message(page_message(self.document.pages[0].nr)));
            assert(report_views(reports@) =~= reports_on(self@, EventView::Completed));
            Step { pipeline: Pipeline { stage: Stage::FetchPages, cursor: 0, ..self }, reports }
        }
    }

    /// The step once a page is stored: it counts as one operation; then on
    /// to the next page, or past the pages after the last.
    fn next_page(self) -> (step: Step)
        requires
            self@.stage == Stage::FetchPages,
        ensures
            step.pipeline@ == next(self@, EventView::Completed),
            report_views(step.reports@) == reports_on(self@, EventView::Completed),
    {
        proof {
            use_type_invariant(&self);
        }
        let mut reports = one_report(Report::Increment);
        if self.cursor + 1 < self.document.pages.len() {
            let following = self.cursor + 1;
            reports.push(Report::Message(page_message(self.document.pages[following].nr)));
            assert(report_views(reports@) =~= reports_on(self@, EventView::Completed));
            Step { pipeline: Pipeline { cursor: following, ..self }, reports }
        } else {
            self.leave_pages(reports)
        }
    }

    /// The step that ends the fetching of pages, after the notifications
    /// `reports` that the step already owes: on to assembly where a document
    /// is the goal, to the end of the run otherwise.
    fn leave_pages(self, reports: Vec<Report>) -> (step: Step)
        requires
            self@.stage == Stage::EnsureDirectories || self@.stage == Stage::FetchPages,
        ensures
            step.pipeline@ == after_pages(self@),
            report_views(step.reports@) == report_views(reports@) + after_pages_reports(self@),
    {
        proof {
            use_type_invariant(&self);
        }
        let ghost owed = report_views(reports@);
        match self.goal {
            Goal::Document => {
                let mut reports = reports;
                reports.push(Report::Message(creating_message()));
                assert(report_views(reports@) =~= owed + after_pages_reports(self@));
                Step {
                    pipeline: Pipeline { stage: Stage::StartAssembly, cursor: 0, ..self },
                    reports,
                }
            },
            Goal::Pages => {
                assert(owed =~= owed + after_pages_reports(self@));
                Step { pipeline: Pipeline { stage: Stage::Done, cursor: 0, ..self }, reports }
            },
        }
    }

    /// The step once a page is composed: on to the next page, or to saving
    /// after the last. Composing counts as no operation.
    fn next_composition(self) -> (step: Step)
        requires
            self@.stage == Stage::ComposePages,
        ensures
            step.pipeline@ == next(self@, EventView::Completed),
            report_views(step.reports@) == reports_on(self@, EventView::Completed),
    {
        proof {
            use_type_invariant(&self);
        }
        if self.cursor + 1 < self.files {
            let number: u64 = (self.cursor + 2) as u64;
            Step {
                pipeline: Pipeline { cursor: self.cursor + 1, ..self },
                reports: one_report(Report::Message(adding_message(number))),
            }
        } else {
            Step {
                pipeline: Pipeline { stage: Stage::SaveOutput, ..self },
                reports: one_report(Report::Message(saving_message())),
            }
        }
    }

    /// The step once the output is saved: it counts as one operation.
    fn saved(self) -> (step: Step)
        requires
            self@.stage == Stage::SaveOutput,
        ensures
            step.pipeline@ == next(self@, EventView::Completed),
            report_views(step.reports@) == reports_on(self@, EventView::Completed),
    {
        proof {
            use_type_invariant(&self);
        }
        Step {
            pipeline: Pipeline { stage: Stage::RemoveScratch, ..self },
            reports: one_report(Report::Increment),
        }
    }

    /// The step once the scratch area is removed: the run is done.
    fn removed(self) -> (step: Step)
        requires
            self@.stage == Stage::RemoveScratch,
        ensures
            step.pipeline@ == next(self@, EventView::Completed),
            report_views(step.reports@) == reports_on(self@, EventView::Completed),
    {
        proof {
            use_type_invariant(&self);
        }
        Step { pipeline: Pipeline { stage: Stage::Done, ..self }, reports: no_reports() }
    }
}

} // verus!
