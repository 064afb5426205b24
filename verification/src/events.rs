//! The structured events a job emits while it runs, and the per-file summary
//! record parsed from the script's final report lines.
use vstd::prelude::*;

verus! {

/// Which output stream of the child process a raw line came from.
#[derive(Debug, Clone, Copy, PartialEq, Eq, Structural)]
pub enum StreamKind {
    Stdout,
    Stderr,
}

/// Terminal success record for one converted file; all five fields are kept
/// verbatim as they appeared in the log.
#[derive(Debug, PartialEq)]
pub struct Summary {
    pub source: String,
    pub source_size: String,
    pub target: String,
    pub target_size: String,
    pub reduce_size: String,
}

/// The mathematical content of a `Summary`.
pub struct SummaryModel {
    pub source: Seq<char>,
    pub source_size: Seq<char>,
    pub target: Seq<char>,
    pub target_size: Seq<char>,
    pub reduce_size: Seq<char>,
}

impl View for Summary {
    type V = SummaryModel;

    open spec fn view(&self) -> SummaryModel {
        SummaryModel {
            source: self.source@,
            source_size: self.source_size@,
            target: self.target@,
            target_size: self.target_size@,
            reduce_size: self.reduce_size@,
        }
    }
}

impl DeepView for Summary {
    type V = SummaryModel;

    open spec fn deep_view(&self) -> SummaryModel {
        self.view()
    }
}

/// The job id and file pair attached to a per-file status event.
#[derive(Debug, PartialEq)]
pub struct ParseFileEventPayload {
    pub id: String,
    pub source: String,
    pub target: String,
}

/// The mathematical content of a `ParseFileEventPayload`.
pub struct ParseFilePayloadModel {
    pub id: Seq<char>,
    pub source: Seq<char>,
    pub target: Seq<char>,
}

impl View for ParseFileEventPayload {
    type V = ParseFilePayloadModel;

    open spec fn view(&self) -> ParseFilePayloadModel {
        ParseFilePayloadModel { id: self.id@, source: self.source@, target: self.target@ }
    }
}

/// One structured event of a running job, in the order the supervisor emits
/// them: `Started` first, then progress and per-file events as log lines
/// arrive, then exactly one `Finished`.
#[derive(Debug, PartialEq)]
pub enum ParseEvent {
    Started { id: String },
    StdOutput { id: String, kind: StreamKind, content: String },
    PercentProgress { id: String, percent: u8 },
    StartParseFile(ParseFileEventPayload),
    ParseFileSuccess(ParseFileEventPayload),
    ParseFileFailed(ParseFileEventPayload),
    Finished { id: String, success: bool, summaries: Vec<Summary> },
}

/// The mathematical content of a `ParseEvent`.
pub enum ParseEventModel {
    Started { id: Seq<char> },
    StdOutput { id: Seq<char>, kind: StreamKind, content: Seq<char> },
    PercentProgress { id: Seq<char>, percent: u8 },
    StartParseFile(ParseFilePayloadModel),
    ParseFileSuccess(ParseFilePayloadModel),
    ParseFileFailed(ParseFilePayloadModel),
    Finished { id: Seq<char>, success: bool, summaries: Seq<SummaryModel> },
}

impl View for ParseEvent {
    type V = ParseEventModel;

    open spec fn view(&self) -> ParseEventModel {
        match self {
            ParseEvent::Started { id } => ParseEventModel::Started { id: id@ },
            ParseEvent::StdOutput { id, kind, content } => ParseEventModel::StdOutput {
                id: id@,
                kind: *kind,
                content: content@,
            },
            ParseEvent::PercentProgress { id, percent } => ParseEventModel::PercentProgress {
                id: id@,
                percent: *percent,
            },
            ParseEvent::StartParseFile(p) => ParseEventModel::StartParseFile(p@),
            ParseEvent::ParseFileSuccess(p) => ParseEventModel::ParseFileSuccess(p@),
            ParseEvent::ParseFileFailed(p) => ParseEventModel::ParseFileFailed(p@),
            ParseEvent::Finished { id, success, summaries } => ParseEventModel::Finished {
                id: id@,
                success: *success,
                summaries: summaries.deep_view(),
            },
        }
    }
}

impl DeepView for ParseEvent {
    type V = ParseEventModel;

    open spec fn deep_view(&self) -> ParseEventModel {
        self.view()
    }
}

} // verus!
