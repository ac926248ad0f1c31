//! Getting one record into the log: open, append, done.
//!
//! A `LogTask` is told what the file did and answers with what is to be done
//! next. Nothing is tried twice: a record that cannot be written is lost, and
//! the loss is reported.

use crate::error::HoneypotError;
use crate::logger::log_entry;
use crate::record::{ConnectionLog, ConnectionLogView};
use vstd::prelude::*;

verus! {

/// How far the writing of a record has come.
#[derive(Debug, Clone, Copy, PartialEq, Eq, Structural)]
pub enum SinkStage {
    /// The log is being opened.
    Opening,
    /// The entry is being appended.
    Writing,
    /// The entry was written or lost.
    Closed,
}

/// What the file did.
#[derive(Debug, Clone, Copy, PartialEq, Eq, Structural)]
pub enum SinkEvent {
    /// The log was opened.
    Opened,
    /// The log could not be opened.
    OpenFailed,
    /// The entry was appended.
    Written,
    /// Appending failed.
    WriteFailed,
}

/// What is to be done for a record next.
#[derive(Debug, Clone, PartialEq, Eq)]
pub enum SinkAction {
    /// Open the log for appending, and create it where it is missing.
    Open,
    /// Append this text and release the file.
    Append(String),
    /// Nothing more: the entry is in the log.
    Finish,
    /// Report this failure; the record is lost.
    Report(HoneypotError),
    /// Nothing: the event does not belong to the stage the task is in.
    Ignore,
}

/// What a `SinkAction` is in contracts.
pub enum SinkActionView {
    Open,
    Append(Seq<char>),
    Finish,
    Report(HoneypotError),
    Ignore,
}

impl View for SinkAction {
    type V = SinkActionView;

    open spec fn view(&self) -> SinkActionView {
        match self {
            SinkAction::Open => SinkActionView::Open,
            SinkAction::Append(entry) => SinkActionView::Append(entry@),
            SinkAction::Finish => SinkActionView::Finish,
            SinkAction::Report(error) => SinkActionView::Report(*error),
            SinkAction::Ignore => SinkActionView::Ignore,
        }
    }
}

/// The writing of one record.
#[derive(Debug)]
pub struct LogTask {
    pub entry: String,
    pub stage: SinkStage,
}

/// What a `LogTask` is in contracts.
pub struct LogTaskView {
    pub entry: Seq<char>,
    pub stage: SinkStage,
}

impl View for LogTask {
    type V = LogTaskView;

    open spec fn view(&self) -> LogTaskView {
        LogTaskView { entry: self.entry@, stage: self.stage }
    }
}

/// The stage that `event` takes a task in `stage` to.
pub open spec fn next_sink_stage(stage: SinkStage, event: SinkEvent) -> SinkStage {
    match (stage, event) {
        (SinkStage::Opening, SinkEvent::Opened) => SinkStage::Writing,
        (SinkStage::Opening, SinkEvent::OpenFailed) => SinkStage::Closed,
        (SinkStage::Writing, SinkEvent::Written) => SinkStage::Closed,
        (SinkStage::Writing, SinkEvent::WriteFailed) => SinkStage::Closed,
        _ => stage,
    }
}

/// What is to be done when `event` happens to `task`.
pub open spec fn sink_response(task: LogTaskView, event: SinkEvent) -> SinkActionView {
    match (task.stage, event) {
        (SinkStage::Opening, SinkEvent::Opened) => SinkActionView::Append(task.entry),
        (SinkStage::Opening, SinkEvent::OpenFailed) => SinkActionView::Report(
            HoneypotError::Sink,
        ),
        (SinkStage::Writing, SinkEvent::Written) => SinkActionView::Finish,
        (SinkStage::Writing, SinkEvent::WriteFailed) => SinkActionView::Report(
            HoneypotError::Sink,
        ),
        _ => SinkActionView::Ignore,
    }
}

impl LogTask {
    /// Begins the writing of a record whose entry is `entry`: with an entry
    /// the log is to be opened; without one the record is dropped and the
    /// failure handed on to be reported.
    pub fn begin_with(entry: Result<String, HoneypotError>) -> (begun: (LogTask, SinkAction))
        ensures
            match entry {
                Ok(text) => begun.0@ == (LogTaskView { entry: text@, stage: SinkStage::Opening })
                    && begun.1 == SinkAction::Open,
                Err(error) => begun.0@ == (LogTaskView {
                    entry: Seq::empty(),
                    stage: SinkStage::Closed,
                }) && begun.1 == SinkAction::Report(error),
            },
    {
        match entry {
            Ok(text) => (LogTask { entry: text, stage: SinkStage::Opening }, SinkAction::Open),
            Err(error) => (
                LogTask { entry: String::new(), stage: SinkStage::Closed },
                SinkAction::Report(error),
            ),
        }
    }

    /// Begins the writing of `record`: the task holds the entry of the record,
    /// and the log is to be opened.
    pub fn begin(record: &ConnectionLog) -> (begun: (LogTask, SinkAction))
        ensures
            begun.0@ == (LogTaskView { entry: log_entry(record@), stage: SinkStage::Opening }),
            begun.1 == SinkAction::Open,
    {
        LogTask::begin_with(record.to_entry())
    }

    /// Whether the writing is over.
    pub fn is_closed(&self) -> (closed: bool)
        ensures
            closed == (self@.stage == SinkStage::Closed),
    {
        match self.stage {
            SinkStage::Closed => true,
            _ => false,
        }
    }

    /// Takes the task through `event` and returns what is to be done. The
    /// entry stays as it is.
    pub fn step(&mut self, event: SinkEvent) -> (action: SinkAction)
        ensures
            final(self)@.entry == old(self)@.entry,
            final(self)@.stage == next_sink_stage(old(self)@.stage, event),
            action@ == sink_response(old(self)@, event),
    {
        match (self.stage, event) {
            (SinkStage::Opening, SinkEvent::Opened) => {
                self.stage = SinkStage::Writing;
                SinkAction::Append(self.entry.clone())
            },
            (SinkStage::Opening, SinkEvent::OpenFailed) => {
                self.stage = SinkStage::Closed;
                SinkAction::Report(HoneypotError::Sink)
            },
            (SinkStage::Writing, SinkEvent::Written) => {
                self.stage = SinkStage::Closed;
                SinkAction::Finish
            },
            (SinkStage::Writing, SinkEvent::WriteFailed) => {
                self.stage = SinkStage::Closed;
                SinkAction::Report(HoneypotError::Sink)
            },
            _ => SinkAction::Ignore,
        }
    }
}

} // verus!
