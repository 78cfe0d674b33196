//! Planning and bookkeeping for downloading a paginated online document and
//! assembling its page images into one output document.
//!
//! The crate performs no I/O itself. It resolves the document identifier from
//! a URL, names the remote resources and the scratch files, and sequences the
//! run as a state machine that a driver feeds with the outcome of each action.

pub mod decimal;
pub mod error;
pub mod messages;
pub mod metadata;
pub mod pipeline;
pub mod progress;
pub mod resolver;
pub mod runs;

pub use crate::error::{Error, Fault};
pub use crate::metadata::{DocumentData, JsonResponse, PageData, PageSubData};
pub use crate::pipeline::{Action, Event, Goal, Pipeline, Stage, Step};
pub use crate::progress::{Logger, NoOpLogger, ProgressState, Report};
pub use crate::resolver::parse_document_id;
