//! The life of an asset: its statuses, the messages its service loop receives and the
//! notifications it sends, and the decisions taken on each of them. The loop itself, the
//! locks and the store calls are driven by the host; every decision they follow is here.
use vstd::prelude::*;
use crate::error::{Error, ErrorType};
use crate::text::{owned, push_str, chars_of, is_whitespace, char_is_whitespace, ascii_lower_char, decimal, decimal_string_u64};

verus! {

/// Where an asset stands in its life.
#[derive(Debug, Clone, Copy, PartialEq, Eq, Structural)]
pub enum Status {
    /// Nothing is known about the asset yet.
    Nothing,
    Directory,
    Recipe,
    Submitted,
    Dependencies,
    Processing,
    Partial,
    Error,
    Storing,
    Ready,
    Expired,
    Cancelled,
    Source,
    Override,
    Volatile,
}

/// Whether an asset in this status is done: no evaluation runs for it any more.
pub open spec fn spec_is_finished(s: Status) -> bool {
    match s {
        Status::Directory | Status::Error | Status::Ready | Status::Expired | Status::Cancelled
        | Status::Source | Status::Override | Status::Volatile => true,
        _ => false,
    }
}

impl Status {
    pub fn is_finished(&self) -> (r: bool)
        ensures
            r == spec_is_finished(*self),
    {
        match self {
            Status::Directory | Status::Error | Status::Ready | Status::Expired
            | Status::Cancelled | Status::Source | Status::Override | Status::Volatile => true,
            _ => false,
        }
    }

    /// The status's name, as `{:?}` writes it.
    pub fn name(&self) -> (r: &'static str)
        ensures
            r@ == status_name(*self),
            r@.len() > 0,
    {
        proof {
            reveal_strlit("None");
            reveal_strlit("Directory");
            reveal_strlit("Recipe");
            reveal_strlit("Submitted");
            reveal_strlit("Dependencies");
            reveal_strlit("Processing");
            reveal_strlit("Partial");
            reveal_strlit("Error");
            reveal_strlit("Storing");
            reveal_strlit("Ready");
            reveal_strlit("Expired");
            reveal_strlit("Cancelled");
            reveal_strlit("Source");
            reveal_strlit("Override");
            reveal_strlit("Volatile");
        }
        match self {
            Status::Nothing => "None",
            Status::Directory => "Directory",
            Status::Recipe => "Recipe",
            Status::Submitted => "Submitted",
            Status::Dependencies => "Dependencies",
            Status::Processing => "Processing",
            Status::Partial => "Partial",
            Status::Error => "Error",
            Status::Storing => "Storing",
            Status::Ready => "Ready",
            Status::Expired => "Expired",
            Status::Cancelled => "Cancelled",
            Status::Source => "Source",
            Status::Override => "Override",
            Status::Volatile => "Volatile",
        }
    }
}

/// The name of a status, as `{:?}` writes it.
pub open spec fn status_name(s: Status) -> Seq<char> {
    match s {
        Status::Nothing => "None"@,
        Status::Directory => "Directory"@,
        Status::Recipe => "Recipe"@,
        Status::Submitted => "Submitted"@,
        Status::Dependencies => "Dependencies"@,
        Status::Processing => "Processing"@,
        Status::Partial => "Partial"@,
        Status::Error => "Error"@,
        Status::Storing => "Storing"@,
        Status::Ready => "Ready"@,
        Status::Expired => "Expired"@,
        Status::Cancelled => "Cancelled"@,
        Status::Source => "Source"@,
        Status::Override => "Override"@,
        Status::Volatile => "Volatile"@,
    }
}

/// Outcome of the most recent attempt to persist an asset's value.
#[derive(Debug, Clone, Copy, PartialEq, Eq, Structural)]
pub enum PersistenceStatus {
    /// No attempt has been made yet.
    Nothing,
    Persisted,
    NonSerializable,
    NotPersisted,
}

/// How a manager runs ordinary evaluations: queued on a job queue, or inline in the caller.
#[derive(Debug, Clone, Copy, PartialEq, Eq, Structural)]
pub enum EvalMode {
    Queued,
    Inline,
}

/// The kind of a log entry.
#[derive(Debug, Clone, Copy, PartialEq, Eq, Structural)]
pub enum LogEntryKind {
    Debug,
    Info,
    Warning,
    Error,
}

/// One entry of an asset's log.
#[derive(Debug, Clone, PartialEq)]
pub struct LogEntry {
    pub kind: LogEntryKind,
    pub message: String,
}

/// Progress of a job: a message, how much is done of how much, and whether it is complete.
#[derive(Debug, Clone, PartialEq)]
pub struct ProgressEntry {
    pub message: String,
    pub done: u64,
    pub total: u64,
    pub finished: bool,
}

impl ProgressEntry {
    /// Progress that is complete, with a message.
    pub fn done(message: String) -> (r: Self)
        ensures
            r.message@ == message@,
            r.finished,
            r.done == 0,
            r.total == 0,
    {
        ProgressEntry { message, done: 0, total: 0, finished: true }
    }
}

/// A message to an asset's service loop.
#[derive(Debug, Clone)]
pub enum AssetServiceMessage {
    JobSubmitted,
    JobStarted,
    LogMessage(LogEntry),
    UpdatePrimaryProgress(ProgressEntry),
    UpdateSecondaryProgress(ProgressEntry),
    Cancel,
    ErrorOccurred(Error),
    /// Only housekeeping remains.
    JobFinishing,
    JobFinished,
}

/// A notification that an asset may have changed.
#[derive(Debug, Clone)]
pub enum AssetNotificationMessage {
    Initial,
    JobSubmitted,
    JobStarted,
    StatusChanged(Status),
    ValueProduced,
    ErrorOccurred(Error),
    LogMessage,
    PrimaryProgressUpdated(ProgressEntry),
    SecondaryProgressUpdated(ProgressEntry),
    JobFinished,
    Expired,
}

/// What the service loop does with one message.
#[derive(Debug, Clone, Copy, PartialEq, Eq, Structural)]
pub enum ServiceAction {
    /// A late message for a finished asset: dropped.
    Ignore,
    /// Append the entry to the log, save the metadata, notify `LogMessage`.
    AppendLog,
    /// Set `Cancelled`, mark the primary progress done, notify `StatusChanged(Cancelled)` and
    /// `JobFinished`, save the metadata, and stop.
    Cancel,
    /// Record the primary progress, save, notify `PrimaryProgressUpdated`.
    PrimaryProgress,
    /// Record the secondary progress, save, notify `SecondaryProgressUpdated`.
    SecondaryProgress,
    /// Set the status, save, notify `StatusChanged` and the matching job notification.
    SetStatus(Status),
    /// Fail the asset with the error and stop.
    Fail,
    /// Stop the loop.
    Stop,
}

/// Whether a message is dropped once the asset is finished: progress, submission, start,
/// cancellation and errors are; logs and the end of the job are not.
pub open spec fn dropped_when_finished(msg: AssetServiceMessage) -> bool {
    match msg {
        AssetServiceMessage::UpdatePrimaryProgress(_) | AssetServiceMessage::UpdateSecondaryProgress(_)
        | AssetServiceMessage::JobSubmitted | AssetServiceMessage::JobStarted
        | AssetServiceMessage::Cancel | AssetServiceMessage::ErrorOccurred(_) => true,
        _ => false,
    }
}

/// The action for a message to an asset that is finished, or not.
pub open spec fn spec_service_action(finished: bool, msg: AssetServiceMessage) -> ServiceAction {
    if finished && dropped_when_finished(msg) {
        ServiceAction::Ignore
    } else {
        match msg {
            AssetServiceMessage::LogMessage(_) => ServiceAction::AppendLog,
            AssetServiceMessage::Cancel => ServiceAction::Cancel,
            AssetServiceMessage::UpdatePrimaryProgress(_) => ServiceAction::PrimaryProgress,
            AssetServiceMessage::UpdateSecondaryProgress(_) => ServiceAction::SecondaryProgress,
            AssetServiceMessage::JobSubmitted => ServiceAction::SetStatus(Status::Submitted),
            AssetServiceMessage::JobStarted => ServiceAction::SetStatus(Status::Processing),
            AssetServiceMessage::ErrorOccurred(_) => ServiceAction::Fail,
            AssetServiceMessage::JobFinishing | AssetServiceMessage::JobFinished => ServiceAction::Stop,
        }
    }
}

/// Whether the loop ends after this action.
pub open spec fn spec_stops(a: ServiceAction) -> bool {
    a is Cancel || a is Fail || a is Stop
}

/// Decides what the service loop of an asset in `status` does with `msg`.
pub fn service_action(status: Status, msg: &AssetServiceMessage) -> (r: ServiceAction)
    ensures
        r == spec_service_action(spec_is_finished(status), *msg),
{
    let finished = status.is_finished();
    let dropped = match msg {
        AssetServiceMessage::UpdatePrimaryProgress(_) | AssetServiceMessage::UpdateSecondaryProgress(_)
        | AssetServiceMessage::JobSubmitted | AssetServiceMessage::JobStarted
        | AssetServiceMessage::Cancel | AssetServiceMessage::ErrorOccurred(_) => true,
        _ => false,
    };
    if finished && dropped {
        return ServiceAction::Ignore;
    }
    match msg {
        AssetServiceMessage::LogMessage(_) => ServiceAction::AppendLog,
        AssetServiceMessage::Cancel => ServiceAction::Cancel,
        AssetServiceMessage::UpdatePrimaryProgress(_) => ServiceAction::PrimaryProgress,
        AssetServiceMessage::UpdateSecondaryProgress(_) => ServiceAction::SecondaryProgress,
        AssetServiceMessage::JobSubmitted => ServiceAction::SetStatus(Status::Submitted),
        AssetServiceMessage::JobStarted => ServiceAction::SetStatus(Status::Processing),
        AssetServiceMessage::ErrorOccurred(_) => ServiceAction::Fail,
        AssetServiceMessage::JobFinishing | AssetServiceMessage::JobFinished => ServiceAction::Stop,
    }
}

/// Whether the service loop stops after this action.
pub fn stops(a: ServiceAction) -> (r: bool)
    ensures
        r == spec_stops(a),
{
    match a {
        ServiceAction::Cancel | ServiceAction::Fail | ServiceAction::Stop => true,
        _ => false,
    }
}

/// The status an asset has after the loop took this action.
pub open spec fn spec_status_after(status: Status, a: ServiceAction) -> Status {
    match a {
        ServiceAction::Cancel => Status::Cancelled,
        ServiceAction::SetStatus(s) => s,
        ServiceAction::Fail => Status::Error,
        _ => status,
    }
}

/// A finished asset keeps its status through any message: late messages cannot resurrect it,
/// only a log entry or the end of the job reach it, and neither changes the status.
pub proof fn law_finished_status_is_kept(status: Status, msg: AssetServiceMessage)
    requires
        spec_is_finished(status),
    ensures
        spec_status_after(status, spec_service_action(true, msg)) == status,
{
}

/// The status an asset has after the loop took this action.
pub fn status_after(status: Status, a: ServiceAction) -> (r: Status)
    ensures
        r == spec_status_after(status, a),
{
    match a {
        ServiceAction::Cancel => Status::Cancelled,
        ServiceAction::SetStatus(s) => s,
        ServiceAction::Fail => Status::Error,
        _ => status,
    }
}

/// The progress a cancelled job shows: complete, with the message `Cancelled`.
pub open spec fn is_cancelled_progress(p: ProgressEntry) -> bool {
    p.message@ == "Cancelled"@ && p.finished && p.done == 0 && p.total == 0
}

/// The progress a failed job shows: complete, with the message `Error`.
pub open spec fn is_failed_progress(p: ProgressEntry) -> bool {
    p.message@ == "Error"@ && p.finished && p.done == 0 && p.total == 0
}

/// What the service loop records of an asset: its status, its log, its progress and the error
/// it failed with.
pub struct AssetRecord {
    pub status: Status,
    pub log: Vec<LogEntry>,
    pub primary_progress: Option<ProgressEntry>,
    pub secondary_progress: Option<ProgressEntry>,
    pub error: Option<Error>,
}

impl AssetRecord {
    /// A record of an asset in `status`, with nothing logged.
    pub fn new(status: Status) -> (r: Self)
        ensures
            r.status == status,
            r.log@.len() == 0,
            r.primary_progress is None,
            r.secondary_progress is None,
            r.error is None,
    {
        AssetRecord { status, log: Vec::new(), primary_progress: None, secondary_progress: None, error: None }
    }

    /// Takes the action the loop decided for `message`: sets the status it leads to, appends a
    /// log entry, records progress (complete, as `Cancelled`, on cancellation) or the error.
    pub fn apply(&mut self, action: ServiceAction, message: AssetServiceMessage)
        ensures
            final(self).status == spec_status_after(old(self).status, action),
            final(self).log@ == (if action is AppendLog && message is LogMessage {
                old(self).log@.push(message->LogMessage_0)
            } else {
                old(self).log@
            }),
            action is Cancel ==> (final(self).primary_progress matches Some(p) && is_cancelled_progress(p)),
            action is Fail ==> (final(self).primary_progress matches Some(p) && is_failed_progress(p)),
            !(action is Cancel) && !(action is Fail) ==> final(self).primary_progress == (if action is PrimaryProgress
                && message is UpdatePrimaryProgress {
                Some(message->UpdatePrimaryProgress_0)
            } else {
                old(self).primary_progress
            }),
            final(self).secondary_progress == (if action is SecondaryProgress && message is UpdateSecondaryProgress {
                Some(message->UpdateSecondaryProgress_0)
            } else {
                old(self).secondary_progress
            }),
            final(self).error == (if action is Fail && message is ErrorOccurred {
                Some(message->ErrorOccurred_0)
            } else {
                old(self).error
            }),
    {
        self.status = status_after(self.status, action);
        match action {
            ServiceAction::Cancel => {
                let done = ProgressEntry::done(owned("Cancelled"));
                self.primary_progress = Some(done);
            },
            ServiceAction::Fail => {
                let done = ProgressEntry::done(owned("Error"));
                self.primary_progress = Some(done);
            },
            _ => {},
        }
        match message {
            AssetServiceMessage::LogMessage(entry) => {
                if action == ServiceAction::AppendLog {
                    self.log.push(entry);
                }
            },
            AssetServiceMessage::UpdatePrimaryProgress(p) => {
                if action == ServiceAction::PrimaryProgress {
                    self.primary_progress = Some(p);
                }
            },
            AssetServiceMessage::UpdateSecondaryProgress(p) => {
                if action == ServiceAction::SecondaryProgress {
                    self.secondary_progress = Some(p);
                }
            },
            AssetServiceMessage::ErrorOccurred(e) => {
                if action == ServiceAction::Fail {
                    self.error = Some(e);
                }
            },
            _ => {},
        }
    }
}

/// The notifications the loop sends for an action.
pub open spec fn spec_notifications(a: ServiceAction) -> Seq<NotificationKind> {
    match a {
        ServiceAction::AppendLog => seq![NotificationKind::LogMessage],
        ServiceAction::Cancel => seq![
            NotificationKind::StatusChanged(Status::Cancelled),
            NotificationKind::JobFinished,
        ],
        ServiceAction::PrimaryProgress => seq![NotificationKind::PrimaryProgressUpdated],
        ServiceAction::SecondaryProgress => seq![NotificationKind::SecondaryProgressUpdated],
        ServiceAction::SetStatus(Status::Submitted) => seq![
            NotificationKind::StatusChanged(Status::Submitted),
            NotificationKind::JobSubmitted,
        ],
        ServiceAction::SetStatus(s) => seq![
            NotificationKind::StatusChanged(s),
            NotificationKind::JobStarted,
        ],
        ServiceAction::Fail => seq![NotificationKind::ErrorOccurred, NotificationKind::JobFinished],
        _ => Seq::empty(),
    }
}

/// A notification, without what it carries.
#[derive(Debug, Clone, Copy, PartialEq, Eq, Structural)]
pub enum NotificationKind {
    Initial,
    JobSubmitted,
    JobStarted,
    StatusChanged(Status),
    ValueProduced,
    ErrorOccurred,
    LogMessage,
    PrimaryProgressUpdated,
    SecondaryProgressUpdated,
    JobFinished,
    Expired,
}

/// The notifications the service loop sends, in order, when it takes `a`.
pub fn notifications(a: ServiceAction) -> (r: Vec<NotificationKind>)
    ensures
        r@ == spec_notifications(a),
{
    let mut v: Vec<NotificationKind> = Vec::new();
    match a {
        ServiceAction::AppendLog => {
            v.push(NotificationKind::LogMessage);
        },
        ServiceAction::Cancel => {
            v.push(NotificationKind::StatusChanged(Status::Cancelled));
            v.push(NotificationKind::JobFinished);
        },
        ServiceAction::PrimaryProgress => {
            v.push(NotificationKind::PrimaryProgressUpdated);
        },
        ServiceAction::SecondaryProgress => {
            v.push(NotificationKind::SecondaryProgressUpdated);
        },
        ServiceAction::SetStatus(s) => {
            v.push(NotificationKind::StatusChanged(s));
            match s {
                Status::Submitted => {
                    v.push(NotificationKind::JobSubmitted);
                },
                _ => {
                    v.push(NotificationKind::JobStarted);
                },
            }
        },
        ServiceAction::Fail => {
            v.push(NotificationKind::ErrorOccurred);
            v.push(NotificationKind::JobFinished);
        },
        _ => {},
    }
    proof {
        assert(v@ =~= spec_notifications(a));
    }
    v
}

/// What the end of a run does to an asset whose evaluation succeeded.
#[derive(Debug, Clone, Copy, PartialEq, Eq, Structural)]
pub enum Finish {
    /// Mark it ready or volatile, as [`ready_status`] decides.
    SetReady,
    /// It ended in error: drop the value and log that.
    ClearError,
    /// It ended while storing: log a warning.
    WarnStoring,
    /// Another path already finished it: leave it.
    Keep,
}

pub open spec fn spec_finish(s: Status) -> Finish {
    match s {
        Status::Nothing | Status::Recipe | Status::Submitted | Status::Dependencies
        | Status::Processing | Status::Partial => Finish::SetReady,
        Status::Error => Finish::ClearError,
        Status::Storing => Finish::WarnStoring,
        _ => Finish::Keep,
    }
}

/// What finishing a successful run does to an asset in status `s`. A cancellation or an error
/// that came first is kept.
pub fn finish_action(s: Status) -> (r: Finish)
    ensures
        r == spec_finish(s),
{
    match s {
        Status::Nothing | Status::Recipe | Status::Submitted | Status::Dependencies
        | Status::Processing | Status::Partial => Finish::SetReady,
        Status::Error => Finish::ClearError,
        Status::Storing => Finish::WarnStoring,
        _ => Finish::Keep,
    }
}

/// The status of an asset whose evaluation ended with or without a value: `Error` without
/// one; with one, `Volatile` when the asset or its metadata's expiry make it volatile, else
/// `Ready`.
pub open spec fn spec_ready_status(has_data: bool, volatile: bool, expires_volatile: bool) -> Status {
    if !has_data {
        Status::Error
    } else if volatile || expires_volatile {
        Status::Volatile
    } else {
        Status::Ready
    }
}

pub fn ready_status(has_data: bool, volatile: bool, expires_volatile: bool) -> (r: Status)
    ensures
        r == spec_ready_status(has_data, volatile, expires_volatile),
{
    if !has_data {
        Status::Error
    } else if volatile || expires_volatile {
        Status::Volatile
    } else {
        Status::Ready
    }
}

/// A result computed from a dependency that expired while it ran is not cached as fresh: a
/// `Ready` asset becomes `Expired`; any other status stays.
pub open spec fn spec_after_stale_check(s: Status, stale_dependency: bool) -> Status {
    if stale_dependency && s == Status::Ready {
        Status::Expired
    } else {
        s
    }
}

pub fn after_stale_check(s: Status, stale_dependency: bool) -> (r: Status)
    ensures
        r == spec_after_stale_check(s, stale_dependency),
{
    if stale_dependency && s == Status::Ready {
        Status::Expired
    } else {
        s
    }
}

/// The status after a successful run ends: `s` is the status when it ended.
pub open spec fn spec_finished_status(s: Status, has_data: bool, volatile: bool, expires_volatile: bool, stale: bool) -> Status {
    let t = match spec_finish(s) {
        Finish::SetReady => spec_ready_status(has_data, volatile, expires_volatile),
        _ => s,
    };
    spec_after_stale_check(t, stale)
}

/// The status an asset has when a successful run ends.
pub fn finished_status(s: Status, has_data: bool, volatile: bool, expires_volatile: bool, stale: bool) -> (r: Status)
    ensures
        r == spec_finished_status(s, has_data, volatile, expires_volatile, stale),
{
    let t = match finish_action(s) {
        Finish::SetReady => ready_status(has_data, volatile, expires_volatile),
        _ => s,
    };
    after_stale_check(t, stale)
}

/// `Failed to join process_service_messages task: <reason>`.
pub open spec fn join_failure_message(reason: Seq<char>) -> Seq<char> {
    "Failed to join process_service_messages task: "@ + reason
}

/// The outcome of a run once its service loop has ended: the result, and an error to log.
#[derive(Debug)]
pub struct RunOutcome {
    pub result: Result<(), Error>,
    pub log_error: Option<String>,
}

/// How a run's own result and the end of its service loop combine. An error of the loop
/// replaces the result. A loop that could not be joined (`Err(reason)`) fails a run that
/// succeeded; a run that failed keeps its error, and the failed join is logged instead.
pub fn combine_run_outcome(result: Result<(), Error>, loop_end: Result<Result<(), Error>, String>) -> (r: RunOutcome)
    ensures
        match loop_end {
            Ok(Ok(())) => r.result == result && r.log_error is None,
            Ok(Err(e)) => r.result == Err::<(), Error>(e) && r.log_error is None,
            Err(reason) => if result is Ok {
                &&& r.result matches Err(e) && e.error_type == ErrorType::General && e.message@ == join_failure_message(reason@)
                &&& r.log_error is None
            } else {
                &&& r.result == result
                &&& r.log_error matches Some(m) && m@ == join_failure_message(reason@)
            },
        },
{
    match loop_end {
        Ok(Ok(())) => RunOutcome { result, log_error: None },
        Ok(Err(e)) => RunOutcome { result: Err(e), log_error: None },
        Err(reason) => {
            let mut m = owned("Failed to join process_service_messages task: ");
            push_str(&mut m, reason.as_str());
            match result {
                Ok(()) => RunOutcome { result: Err(Error::general_error(m)), log_error: None },
                Err(e) => RunOutcome { result: Err(e), log_error: Some(m) },
            }
        },
    }
}

/// Everything the end of a run does: its result and the error to log (as
/// [`combine_run_outcome`] gives them), the status the asset ends in, whether its value and
/// bytes are dropped, whether the error is recorded as the asset's, and the notifications sent,
/// in order.
#[derive(Debug)]
pub struct RunFinish {
    pub result: Result<(), Error>,
    pub log_error: Option<String>,
    pub status: Status,
    pub drop_value: bool,
    pub record_error: bool,
    pub notifications: Vec<NotificationKind>,
}

/// The notifications the end of a run sends: a failure not yet recorded announces the error
/// and the end of the job; every run then announces the end of the job, to wake whoever waits.
pub open spec fn spec_finish_notifications(fails_now: bool) -> Seq<NotificationKind> {
    if fails_now {
        seq![NotificationKind::ErrorOccurred, NotificationKind::JobFinished, NotificationKind::JobFinished]
    } else {
        seq![NotificationKind::JobFinished]
    }
}

/// Finishes a run whose own result is `result` and whose service loop ended with `loop_end`,
/// for an asset in status `s` (with `has_data` a value, `volatile` and `expires_volatile` its
/// volatility, `stale` whether a dependency expired meanwhile). A failed run fails the asset
/// (`Error`, value and bytes dropped) unless it already failed, which keeps its first error; a
/// successful one ends as [`finished_status`] says, dropping the value when it ended in
/// error. Either way the end of the job is announced.
pub fn finish_run(
    result: Result<(), Error>,
    loop_end: Result<Result<(), Error>, String>,
    s: Status,
    has_data: bool,
    volatile: bool,
    expires_volatile: bool,
    stale: bool,
) -> (r: RunFinish)
    ensures
        ({
            let o = r;
            match loop_end {
                Ok(Ok(())) => o.result == result && o.log_error is None,
                Ok(Err(e)) => o.result == Err::<(), Error>(e) && o.log_error is None,
                Err(reason) => if result is Ok {
                    &&& o.result matches Err(e) && e.error_type == ErrorType::General && e.message@ == join_failure_message(reason@)
                    &&& o.log_error is None
                } else {
                    &&& o.result == result
                    &&& o.log_error matches Some(m) && m@ == join_failure_message(reason@)
                },
            }
        }),
        r.result is Err ==> {
            &&& r.status == Status::Error
            &&& r.drop_value == (s != Status::Error)
            &&& r.record_error == (s != Status::Error)
            &&& r.notifications@ == spec_finish_notifications(s != Status::Error)
        },
        r.result is Ok ==> {
            &&& r.status == spec_finished_status(s, has_data, volatile, expires_volatile, stale)
            &&& r.drop_value == (s == Status::Error)
            &&& !r.record_error
            &&& r.notifications@ == spec_finish_notifications(false)
        },
{
    let outcome = combine_run_outcome(result, loop_end);
    let mut notes: Vec<NotificationKind> = Vec::new();
    let failed = outcome.result.is_err();
    let (status, drop_value, record_error) = if failed {
        if s != Status::Error {
            notes.push(NotificationKind::ErrorOccurred);
            notes.push(NotificationKind::JobFinished);
            (Status::Error, true, true)
        } else {
            (Status::Error, false, false)
        }
    } else {
        (finished_status(s, has_data, volatile, expires_volatile, stale), s == Status::Error, false)
    };
    notes.push(NotificationKind::JobFinished);
    proof {
        if failed {
            assert(notes@ =~= spec_finish_notifications(s != Status::Error));
        } else {
            assert(notes@ =~= spec_finish_notifications(false));
        }
    }
    RunFinish {
        result: outcome.result,
        log_error: outcome.log_error,
        status,
        drop_value,
        record_error,
        notifications: notes,
    }
}

/// Every run announces the end of its job last, whatever its outcome: nobody waiting on the
/// asset is left waiting.
pub proof fn law_run_end_announces_job_finished(fails_now: bool)
    ensures
        spec_finish_notifications(fails_now).last() == NotificationKind::JobFinished,
{
}

/// A failure or a cancellation taken by the service loop announces the end of the job last.
pub proof fn law_failure_announces_job_finished(a: ServiceAction)
    requires
        a is Fail || a is Cancel,
    ensures
        spec_notifications(a).len() > 0,
        spec_notifications(a).last() == NotificationKind::JobFinished,
{
}

/// Every run ends finished: whatever status a successful run ends in, the asset is then done.
pub proof fn law_run_ends_finished(s: Status, has_data: bool, volatile: bool, expires_volatile: bool, stale: bool)
    requires
        s != Status::Storing,
    ensures
        spec_is_finished(spec_finished_status(s, has_data, volatile, expires_volatile, stale)),
{
}

/// Whether an asset in this status has an evaluation that a cancellation can stop.
pub open spec fn spec_cancellable(s: Status) -> bool {
    s is Submitted || s is Dependencies || s is Processing || s is Partial
}

pub fn cancellable(s: Status) -> (r: bool)
    ensures
        r == spec_cancellable(s),
{
    match s {
        Status::Submitted | Status::Dependencies | Status::Processing | Status::Partial => true,
        _ => false,
    }
}

/// What turning an asset into an override does.
#[derive(Debug, Clone, Copy, PartialEq, Eq, Structural)]
pub enum OverrideAction {
    /// Directory and source assets are left alone, as is one already overridden.
    NoChange,
    /// An asset without a usable value: cancel any evaluation, take the empty value, and mark
    /// it `Override`.
    CancelAndClear,
    /// An asset with a value: keep it and mark it `Override`.
    KeepValue,
}

pub open spec fn spec_override_action(s: Status) -> OverrideAction {
    match s {
        Status::Directory | Status::Source | Status::Override => OverrideAction::NoChange,
        Status::Nothing | Status::Recipe | Status::Submitted | Status::Dependencies
        | Status::Processing | Status::Error | Status::Cancelled => OverrideAction::CancelAndClear,
        _ => OverrideAction::KeepValue,
    }
}

pub fn override_action(s: Status) -> (r: OverrideAction)
    ensures
        r == spec_override_action(s),
{
    match s {
        Status::Directory | Status::Source | Status::Override => OverrideAction::NoChange,
        Status::Nothing | Status::Recipe | Status::Submitted | Status::Dependencies
        | Status::Processing | Status::Error | Status::Cancelled => OverrideAction::CancelAndClear,
        _ => OverrideAction::KeepValue,
    }
}

/// The status after turning an asset in status `s` into an override.
pub open spec fn spec_status_after_override(s: Status) -> Status {
    match spec_override_action(s) {
        OverrideAction::NoChange => s,
        _ => Status::Override,
    }
}

/// Turning into an override twice is turning into it once.
pub proof fn law_override_is_idempotent(s: Status)
    ensures
        spec_status_after_override(spec_status_after_override(s)) == spec_status_after_override(s),
{
}

/// An asset can be cancelled exactly while an evaluation is in flight for it: queued
/// (`Submitted`), waiting for dependencies, processing, or partly done. So a submitted job, an
/// unfinished asset that starts waiting for a dependency, and one that resumes are all
/// cancellable; nothing finished, nothing not yet queued and nothing being stored is.
pub proof fn law_in_flight_is_cancellable(s: Status)
    ensures
        spec_cancellable(s) <==> (s == Status::Submitted || s == Status::Dependencies || s
            == Status::Processing || s == Status::Partial),
        spec_cancellable(spec_status_after(s, spec_service_action(false, AssetServiceMessage::JobSubmitted))),
        !spec_is_finished(s) ==> spec_cancellable(spec_enter_dependencies(s)),
        spec_cancellable(spec_resume(Status::Dependencies)),
        spec_is_finished(s) ==> !spec_cancellable(s),
        (s == Status::Nothing || s == Status::Recipe || s == Status::Storing) ==> !spec_cancellable(s),
{
}

/// Turning an asset into an override leaves it `Override` from every status but `Directory`
/// and `Source`, which are left alone. An asset whose value a read exposes (ready, volatile,
/// expired) or that is partly done or storing keeps its value; every other (not started, in
/// flight, failed or cancelled) has its evaluation cancelled and takes the empty value.
pub proof fn law_override_makes_override(s: Status)
    ensures
        (s != Status::Directory && s != Status::Source) ==> spec_status_after_override(s) == Status::Override,
        (s == Status::Directory || s == Status::Source) ==> spec_status_after_override(s) == s,
        spec_override_action(s) == OverrideAction::CancelAndClear <==> (s == Status::Nothing || s
            == Status::Recipe || s == Status::Submitted || s == Status::Dependencies || s
            == Status::Processing || s == Status::Error || s == Status::Cancelled),
        (s != Status::Source && s != Status::Override && (spec_read_exposure(s) is Value
            || spec_read_exposure(s) is Expired)) ==> spec_override_action(s) == OverrideAction::KeepValue,
        spec_cancellable(s) ==> spec_override_action(s) == OverrideAction::CancelAndClear
            || s == Status::Partial,
        (s == Status::Error || s == Status::Cancelled) ==> spec_override_action(s) == OverrideAction::CancelAndClear,
{
}

/// Expiring an asset in status `s`: a `Ready` or `Override` asset becomes `Expired`
/// (`true`: it changed), an `Expired` one stays (`false`), a `Source` cannot expire, and nothing
/// else can either.
pub open spec fn spec_expire(s: Status) -> Result<(Status, bool), ErrorType> {
    match s {
        Status::Ready | Status::Override => Ok((Status::Expired, true)),
        Status::Expired => Ok((Status::Expired, false)),
        _ => Err(ErrorType::General),
    }
}

pub fn expire_status(s: Status) -> (r: Result<(Status, bool), Error>)
    ensures
        match spec_expire(s) {
            Ok(x) => r == Ok::<(Status, bool), Error>(x),
            Err(t) => r matches Err(e) && e.error_type == t,
        },
{
    match s {
        Status::Ready | Status::Override => Ok((Status::Expired, true)),
        Status::Expired => Ok((Status::Expired, false)),
        Status::Source => Err(Error::general_error(owned("Cannot expire Source asset (no recipe to recover)"))),
        _ => {
            let mut m = owned("Cannot expire asset in state ");
            push_str(&mut m, s.name());
            Err(Error::general_error(m))
        },
    }
}

/// Expiring is idempotent: an expired asset expires again without change.
pub proof fn law_expire_is_idempotent(s: Status)
    requires
        spec_expire(s) is Ok,
    ensures
        spec_expire(s) matches Ok((t, _)) && spec_expire(t) == Ok::<(Status, bool), ErrorType>((t, false)),
{
}

/// Whether an asset whose expiry failed is still removed from the manager's maps: it is when
/// no evaluation may be writing to it.
pub open spec fn spec_evict_on_failure(s: Status) -> bool {
    match s {
        Status::Nothing | Status::Directory | Status::Recipe | Status::Error | Status::Cancelled
        | Status::Source | Status::Volatile => true,
        _ => false,
    }
}

pub fn evict_on_failure(s: Status) -> (r: bool)
    ensures
        r == spec_evict_on_failure(s),
{
    match s {
        Status::Nothing | Status::Directory | Status::Recipe | Status::Error | Status::Cancelled
        | Status::Source | Status::Volatile => true,
        _ => false,
    }
}

/// An in-flight asset is never evicted after a failed expiry.
pub proof fn law_in_flight_is_preserved(s: Status)
    requires
        spec_cancellable(s),
    ensures
        !spec_evict_on_failure(s),
{
}

/// The status a value written from outside gets: an expired or failed value keeps its
/// status; any other becomes an `Override` where a recipe could compute the key, else a
/// `Source`.
pub open spec fn spec_external_status(input: Status, has_recipe: bool) -> Status {
    match input {
        Status::Expired => Status::Expired,
        Status::Error => Status::Error,
        _ => if has_recipe {
            Status::Override
        } else {
            Status::Source
        },
    }
}

pub fn external_status(input: Status, has_recipe: bool) -> (r: Status)
    ensures
        r == spec_external_status(input, has_recipe),
{
    match input {
        Status::Expired => Status::Expired,
        Status::Error => Status::Error,
        _ => if has_recipe {
            Status::Override
        } else {
            Status::Source
        },
    }
}

/// How a value written from outside is recorded.
#[derive(Debug)]
pub struct ExternalWrite {
    /// The status it is stored under.
    pub status: Status,
    /// Whether it gets a version from its bytes.
    pub versioned: bool,
    /// Whether empty bytes are stored in place of the value.
    pub store_empty: bool,
    /// Whether its version is registered for dependants.
    pub registers_version: bool,
}

/// Plans the recording of a value written from outside with status `input`.
pub fn plan_external_write(input: Status, has_recipe: bool) -> (r: ExternalWrite)
    ensures
        r.status == spec_external_status(input, has_recipe),
        r.versioned == (r.status != Status::Volatile && r.status != Status::Error),
        r.store_empty == (r.status == Status::Error),
        r.registers_version == (r.status == Status::Ready || r.status == Status::Source || r.status
            == Status::Override),
{
    let status = external_status(input, has_recipe);
    ExternalWrite {
        status,
        versioned: status != Status::Volatile && status != Status::Error,
        store_empty: status == Status::Error,
        registers_version: status == Status::Ready || status == Status::Source || status == Status::Override,
    }
}

/// Whether a text is empty once trimmed: every character is white space.
pub open spec fn spec_blank(s: Seq<char>) -> bool {
    forall|i: int| 0 <= i < s.len() ==> char_is_whitespace(#[trigger] s[i])
}

pub fn is_blank(s: &str) -> (r: bool)
    ensures
        r == spec_blank(s@),
{
    let cs = chars_of(s);
    let mut i: usize = 0;
    while i < cs.len()
        invariant
            0 <= i <= cs.len(),
            cs@ == s@,
            forall|j: int| 0 <= j < i ==> char_is_whitespace(#[trigger] s@[j]),
        decreases cs.len() - i,
    {
        if !is_whitespace(cs[i]) {
            return false;
        }
        i = i + 1;
    }
    true
}

/// Checks the fields a value written from outside must describe itself with: a type
/// identifier and a type name, neither blank. The identifier is checked first.
pub fn check_required_metadata(type_identifier: &str, described_type: &str) -> (r: Result<(), Error>)
    ensures
        r is Ok <==> (!spec_blank(type_identifier@) && !spec_blank(described_type@)),
        spec_blank(type_identifier@) ==> (r matches Err(e) && e.error_type == ErrorType::General
            && e.message@ == "Metadata type_identifier must not be empty"@),
        !spec_blank(type_identifier@) && spec_blank(described_type@) ==> (r matches Err(e) && e.error_type
            == ErrorType::General && e.message@ == "Metadata type_name must not be empty"@),
{
    if is_blank(type_identifier) {
        return Err(Error::general_error(owned("Metadata type_identifier must not be empty")));
    }
    if is_blank(described_type) {
        return Err(Error::general_error(owned("Metadata type_name must not be empty")));
    }
    Ok(())
}

/// `Filename extension '<extension>' differs from data_format '<data_format>'`.
pub open spec fn extension_warning(extension: Seq<char>, data_format: Seq<char>) -> Seq<char> {
    "Filename extension '"@ + extension + "' differs from data_format '"@ + data_format + "'"@
}

/// `media_type '<media_type>' differs from expected '<expected>' for data_format '<data_format>'`.
pub open spec fn media_type_warning(media_type: Seq<char>, expected: Seq<char>, data_format: Seq<char>) -> Seq<char> {
    "media_type '"@ + media_type + "' differs from expected '"@ + expected + "' for data_format '"@
        + data_format + "'"@
}

/// The warnings a value written from outside is logged with where its description disagrees
/// with itself, in order: a file extension other than the data format, and a media type, when
/// one is given, other than the one the data format calls for.
pub open spec fn spec_consistency_warnings(
    extension: Option<Seq<char>>,
    data_format: Seq<char>,
    media_type: Seq<char>,
    expected_media_type: Seq<char>,
) -> Seq<Seq<char>> {
    let first: Seq<Seq<char>> = match extension {
        Some(x) => if x != data_format {
            seq![extension_warning(x, data_format)]
        } else {
            Seq::empty()
        },
        None => Seq::empty(),
    };
    if !spec_blank(media_type) && media_type != expected_media_type {
        first.push(media_type_warning(media_type, expected_media_type, data_format))
    } else {
        first
    }
}

pub fn consistency_warnings(
    extension: Option<&str>,
    data_format: &str,
    media_type: &str,
    expected_media_type: &str,
) -> (r: Vec<String>)
    ensures
        r@.map_values(|w: String| w@) == spec_consistency_warnings(
            match extension {
                Some(x) => Some(x@),
                None => None,
            },
            data_format@,
            media_type@,
            expected_media_type@,
        ),
{
    let mut out: Vec<String> = Vec::new();
    match extension {
        Some(x) => {
            if !crate::json::str_eq(x, data_format) {
                let mut m = owned("Filename extension '");
                push_str(&mut m, x);
                push_str(&mut m, "' differs from data_format '");
                push_str(&mut m, data_format);
                push_str(&mut m, "'");
                proof {
                    assert(m@ =~= extension_warning(x@, data_format@));
                }
                out.push(m);
            }
        },
        None => {},
    }
    let ghost before = out@;
    if !is_blank(media_type) && !crate::json::str_eq(media_type, expected_media_type) {
        let mut m = owned("media_type '");
        push_str(&mut m, media_type);
        push_str(&mut m, "' differs from expected '");
        push_str(&mut m, expected_media_type);
        push_str(&mut m, "' for data_format '");
        push_str(&mut m, data_format);
        push_str(&mut m, "'");
        proof {
            assert(m@ =~= media_type_warning(media_type@, expected_media_type@, data_format@));
        }
        out.push(m);
        proof {
            assert(out@.map_values(|w: String| w@) =~= before.map_values(|w: String| w@).push(m@));
        }
    }
    proof {
        let ext = match extension {
            Some(x) => Some(x@),
            None => None,
        };
        assert(out@.map_values(|w: String| w@) =~= spec_consistency_warnings(ext, data_format@, media_type@, expected_media_type@));
    }
    out
}

/// The media type a binary written from outside is recorded with: the one it gives, or, when
/// that is blank, the one its data format calls for.
pub fn media_type_to_record(media_type: &str, expected_media_type: &str) -> (r: String)
    ensures
        r@ == if spec_blank(media_type@) { expected_media_type@ } else { media_type@ },
{
    if is_blank(media_type) {
        owned(expected_media_type)
    } else {
        owned(media_type)
    }
}

/// A value written from outside is never left in flight: it is stored as finished.
pub proof fn law_external_write_is_finished(input: Status, has_recipe: bool)
    ensures
        spec_is_finished(spec_external_status(input, has_recipe)),
{
}


/// What a normal read of an asset exposes, by status.
#[derive(Debug, Clone, Copy, PartialEq, Eq, Structural)]
pub enum ReadExposure {
    /// The value, when there is one.
    Value,
    /// No value, but metadata worth showing: a directory, an error, a cancellation.
    MetadataOnly,
    /// An expired value: a cache miss for normal reads.
    Expired,
    /// Nothing yet.
    Pending,
}

pub open spec fn spec_read_exposure(s: Status) -> ReadExposure {
    match s {
        Status::Ready | Status::Source | Status::Override | Status::Volatile => ReadExposure::Value,
        Status::Directory | Status::Error | Status::Cancelled => ReadExposure::MetadataOnly,
        Status::Expired => ReadExposure::Expired,
        _ => ReadExposure::Pending,
    }
}

impl Status {
    pub fn read_exposure(&self) -> (r: ReadExposure)
        ensures
            r == spec_read_exposure(*self),
    {
        match self {
            Status::Ready | Status::Source | Status::Override | Status::Volatile => ReadExposure::Value,
            Status::Directory | Status::Error | Status::Cancelled => ReadExposure::MetadataOnly,
            Status::Expired => ReadExposure::Expired,
            _ => ReadExposure::Pending,
        }
    }
}

/// What polling an asset gives.
#[derive(Debug, Clone, Copy, PartialEq, Eq, Structural)]
pub enum Poll {
    /// Its value with its metadata.
    Value,
    /// The empty value with its metadata, stamped as a directory when `dir` holds.
    MetadataOnly { dir: bool },
    /// Nothing.
    Nothing,
}

pub open spec fn spec_poll(s: Status, has_data: bool, any_status: bool) -> Poll {
    match spec_read_exposure(s) {
        ReadExposure::Value => if has_data {
            Poll::Value
        } else {
            Poll::Nothing
        },
        ReadExposure::MetadataOnly => Poll::MetadataOnly { dir: s == Status::Directory },
        ReadExposure::Expired => if any_status && has_data {
            Poll::Value
        } else {
            Poll::Nothing
        },
        ReadExposure::Pending => Poll::Nothing,
    }
}

/// What polling an asset in status `s` gives, holding a value or not; `any_status` asks for an
/// expired value too.
pub fn poll(s: Status, has_data: bool, any_status: bool) -> (r: Poll)
    ensures
        r == spec_poll(s, has_data, any_status),
{
    match s.read_exposure() {
        ReadExposure::Value => if has_data {
            Poll::Value
        } else {
            Poll::Nothing
        },
        ReadExposure::MetadataOnly => Poll::MetadataOnly { dir: s == Status::Directory },
        ReadExposure::Expired => if any_status && has_data {
            Poll::Value
        } else {
            Poll::Nothing
        },
        ReadExposure::Pending => Poll::Nothing,
    }
}

/// The recovery read differs from the normal read only on an expired value.
pub proof fn law_any_status_read(s: Status, has_data: bool)
    ensures
        s != Status::Expired ==> spec_poll(s, has_data, true) == spec_poll(s, has_data, false),
        s == Status::Expired ==> spec_poll(s, has_data, false) == Poll::Nothing,
{
}

/// A finished asset always answers a read: with its value, its metadata, or, when expired, a
/// cache miss.
pub proof fn law_finished_is_not_pending(s: Status)
    requires
        spec_is_finished(s),
    ensures
        spec_read_exposure(s) != ReadExposure::Pending,
{
}

/// The status an asset takes when it starts waiting for a dependency: `Dependencies`, unless
/// it is finished already.
pub open spec fn spec_enter_dependencies(s: Status) -> Status {
    if spec_is_finished(s) {
        s
    } else {
        Status::Dependencies
    }
}

/// The status an asset takes when it stops waiting and resumes: `Processing` from
/// `Dependencies`; any other status stays.
pub open spec fn spec_resume(s: Status) -> Status {
    if s == Status::Dependencies {
        Status::Processing
    } else {
        s
    }
}

/// The status an asset takes when it stops waiting to be run again later: `Submitted` from
/// `Dependencies`; any other status stays.
pub open spec fn spec_resubmit(s: Status) -> Status {
    if s == Status::Dependencies {
        Status::Submitted
    } else {
        s
    }
}

pub fn enter_dependencies(s: Status) -> (r: Status)
    ensures
        r == spec_enter_dependencies(s),
{
    if s.is_finished() {
        s
    } else {
        Status::Dependencies
    }
}

pub fn resume_after_dependencies(s: Status) -> (r: Status)
    ensures
        r == spec_resume(s),
{
    if s == Status::Dependencies {
        Status::Processing
    } else {
        s
    }
}

pub fn resubmit_after_dependencies(s: Status) -> (r: Status)
    ensures
        r == spec_resubmit(s),
{
    if s == Status::Dependencies {
        Status::Submitted
    } else {
        s
    }
}

/// Waiting for a dependency and then resuming leaves an evaluation that was running
/// `Processing` again, and one re-parked `Submitted`; a finished asset is not touched by either.
pub proof fn law_dependency_wait_round_trip(s: Status)
    ensures
        !spec_is_finished(s) ==> spec_resume(spec_enter_dependencies(s)) == Status::Processing,
        !spec_is_finished(s) ==> spec_resubmit(spec_enter_dependencies(s)) == Status::Submitted,
        spec_is_finished(s) ==> spec_resume(spec_enter_dependencies(s)) == s && spec_resubmit(
            spec_enter_dependencies(s),
        ) == s,
{
}

/// The version a dependency is recorded at: its own when it has one, else the one the
/// dependency manager knows, else the unknown version `0`.
pub fn dependency_version(own: Option<u64>, known: Option<u64>) -> (r: u64)
    ensures
        r == match own {
            Some(v) => v,
            None => match known {
                Some(v) => v,
                None => 0,
            },
        },
{
    match own {
        Some(v) => v,
        None => match known {
            Some(v) => v,
            None => 0,
        },
    }
}

/// Whether a dependency is (re)recorded at `version`: always when it is not recorded yet;
/// otherwise unless that would replace a known version by the unknown one.
pub open spec fn spec_records_dependency(existing: Option<u64>, version: u64) -> bool {
    match existing {
        None => true,
        Some(v) => v == 0 || version != 0,
    }
}

pub fn records_dependency(existing: Option<u64>, version: u64) -> (r: bool)
    ensures
        r == spec_records_dependency(existing, version),
{
    match existing {
        None => true,
        Some(v) => v == 0 || version != 0,
    }
}

/// A recorded dependency never loses a known version to the unknown one.
pub proof fn law_known_version_is_kept(existing: u64, version: u64)
    requires
        existing != 0,
        version == 0,
    ensures
        !spec_records_dependency(Some(existing), version),
{
}

/// What an evaluation waiting for one of its dependencies does, by the dependency's status and
/// whether it holds a value.
#[derive(Debug)]
pub enum DependencyStep {
    /// Fail the dependent evaluation with this error.
    Fail(Error),
    /// Take the dependency's value; `stale` when it had expired, so that the dependent is
    /// labelled expired once it finishes.
    Use { stale: bool },
    /// Not resolved yet: run what is parked, claim the dependency or wait, then look again.
    Wait,
}

/// `Dependency asset <id> did not produce a value (status <status>)`.
pub open spec fn no_value_message(id: u64, s: Status) -> Seq<char> {
    "Dependency asset "@ + decimal(id as nat) + " did not produce a value (status "@ + status_name(s) + ")"@
}

/// `Dependency asset <id> expired and was evicted before its value could be used`.
pub open spec fn evicted_message(id: u64) -> Seq<char> {
    "Dependency asset "@ + decimal(id as nat) + " expired and was evicted before its value could be used"@
}

/// The step for a dependency, as a message-free summary: `Some(true)` to fail with the
/// no-value error, `Some(false)` to fail as evicted; `None` when it does not fail.
pub open spec fn spec_dependency_failure(s: Status, has_value: bool) -> Option<bool> {
    match s {
        Status::Error | Status::Cancelled => Some(true),
        Status::Expired => if has_value {
            None
        } else {
            Some(false)
        },
        _ => None,
    }
}

/// Decides what an evaluation does about dependency `id` in status `s`. A failed or cancelled
/// dependency fails it; a finished one with a value gives its value; an expired one gives its
/// stale value, or fails it when the value was evicted; any other is waited for.
pub fn dependency_step(id: u64, s: Status, has_value: bool) -> (r: DependencyStep)
    ensures
        match spec_dependency_failure(s, has_value) {
            Some(true) => r matches DependencyStep::Fail(e) && e.error_type == ErrorType::General
                && e.message@ == no_value_message(id, s),
            Some(false) => r matches DependencyStep::Fail(e) && e.error_type == ErrorType::General
                && e.message@ == evicted_message(id),
            None => match s {
                Status::Ready | Status::Source | Status::Override | Status::Volatile | Status::Directory =>
                    if has_value { r == (DependencyStep::Use { stale: false }) } else { r is Wait },
                Status::Expired => r == (DependencyStep::Use { stale: true }),
                _ => r is Wait,
            },
        },
{
    match s {
        Status::Error | Status::Cancelled => {
            let mut m = owned("Dependency asset ");
            let d = decimal_string_u64(id);
            push_str(&mut m, d.as_str());
            push_str(&mut m, " did not produce a value (status ");
            push_str(&mut m, s.name());
            push_str(&mut m, ")");
            proof {
                assert(m@ =~= no_value_message(id, s));
            }
            DependencyStep::Fail(Error::general_error(m))
        },
        Status::Ready | Status::Source | Status::Override | Status::Volatile | Status::Directory => {
            if has_value {
                DependencyStep::Use { stale: false }
            } else {
                DependencyStep::Wait
            }
        },
        Status::Expired => {
            if has_value {
                DependencyStep::Use { stale: true }
            } else {
                let mut m = owned("Dependency asset ");
                let d = decimal_string_u64(id);
                push_str(&mut m, d.as_str());
                push_str(&mut m, " expired and was evicted before its value could be used");
                proof {
                    assert(m@ =~= evicted_message(id));
                }
                DependencyStep::Fail(Error::general_error(m))
            }
        },
        _ => DependencyStep::Wait,
    }
}

/// What a reader waiting for an asset does on a notification, when polling gave nothing.
#[derive(Debug, Clone, Copy, PartialEq, Eq, Structural)]
pub enum WaitStep {
    /// Poll again and keep waiting.
    Continue,
    /// The job finished without a value to read: an unexpected error.
    NoData,
    /// The asset expired while waiting: an error.
    ExpiredWhileWaiting,
}

pub open spec fn spec_wait_step(n: NotificationKind) -> WaitStep {
    match n {
        NotificationKind::JobFinished => WaitStep::NoData,
        NotificationKind::Expired => WaitStep::ExpiredWhileWaiting,
        _ => WaitStep::Continue,
    }
}

pub fn wait_step(n: NotificationKind) -> (r: WaitStep)
    ensures
        r == spec_wait_step(n),
{
    match n {
        NotificationKind::JobFinished => WaitStep::NoData,
        NotificationKind::Expired => WaitStep::ExpiredWhileWaiting,
        _ => WaitStep::Continue,
    }
}

/// The error a waiting reader ends with: the job finished without a value, or the asset
/// expired while it waited; none while it keeps waiting.
pub fn wait_error(step: WaitStep) -> (r: Option<Error>)
    ensures
        match step {
            WaitStep::Continue => r is None,
            WaitStep::NoData => r matches Some(e) && e.error_type == ErrorType::UnexpectedError
                && e.message@ == "Asset finished but no data available"@,
            WaitStep::ExpiredWhileWaiting => r matches Some(e) && e.error_type == ErrorType::General
                && e.message@ == "Asset expired while waiting for data"@,
        },
{
    match step {
        WaitStep::Continue => None,
        WaitStep::NoData => Some(Error::unexpected_error(owned("Asset finished but no data available"))),
        WaitStep::ExpiredWhileWaiting => Some(Error::general_error(owned("Asset expired while waiting for data"))),
    }
}

/// Whether a notification ends the wait for a cancellation to take effect: the end of the
/// job, or the status turning `Cancelled`.
pub fn ends_cancel_wait(n: NotificationKind) -> (r: bool)
    ensures
        r == (n == NotificationKind::JobFinished || n == NotificationKind::StatusChanged(Status::Cancelled)),
{
    match n {
        NotificationKind::JobFinished => true,
        NotificationKind::StatusChanged(Status::Cancelled) => true,
        _ => false,
    }
}

/// Whether a stored value may be served without evaluation: its stored status is `Ready`,
/// `Source` or `Override`, it deserializes, and every dependency whose current version is
/// known was recorded at that version.
pub open spec fn spec_fast_track(stored: Status, deserialized: bool, dependencies: Seq<(u64, Option<u64>)>) -> bool {
    &&& (stored == Status::Ready || stored == Status::Source || stored == Status::Override)
    &&& deserialized
    &&& forall|i: int| 0 <= i < dependencies.len() ==> match (#[trigger] dependencies[i]).1 {
        Some(current) => current == dependencies[i].0,
        None => true,
    }
}

/// Whether every dependency whose current version is known is at its recorded version.
pub open spec fn dependencies_current(dependencies: Seq<(u64, Option<u64>)>) -> bool {
    forall|i: int| 0 <= i < dependencies.len() ==> (#[trigger] dependencies[i]).1 is None
        || dependencies[i].1 == Some(dependencies[i].0)
}

/// A stored value is served without evaluation exactly when it deserializes, every known
/// dependency is current, and its stored status is one whose value a read exposes and that is
/// not volatile: `Ready`, `Source` (a value set from outside, with no recipe to evaluate) or
/// `Override`. Nothing is served that failed to deserialize or that a dependency outdated.
pub proof fn law_stored_value_is_served(stored: Status, deserialized: bool, dependencies: Seq<(u64, Option<u64>)>)
    ensures
        (deserialized && dependencies_current(dependencies)) ==> (spec_fast_track(stored, deserialized, dependencies)
            <==> (spec_read_exposure(stored) is Value && stored != Status::Volatile)),
        (deserialized && dependencies_current(dependencies)) ==> (spec_fast_track(stored, deserialized, dependencies)
            <==> (stored == Status::Ready || stored == Status::Source || stored == Status::Override)),
        !deserialized ==> !spec_fast_track(stored, deserialized, dependencies),
        !dependencies_current(dependencies) ==> !spec_fast_track(stored, deserialized, dependencies),
        spec_fast_track(stored, deserialized, dependencies) ==> spec_is_finished(stored),
{
    if !dependencies_current(dependencies) {
        let i = choose|i: int| 0 <= i < dependencies.len() && !((#[trigger] dependencies[i]).1 is None
            || dependencies[i].1 == Some(dependencies[i].0));
        assert(!(match dependencies[i].1 {
            Some(current) => current == dependencies[i].0,
            None => true,
        }));
    }
    if deserialized && dependencies_current(dependencies) {
        assert forall|i: int| 0 <= i < dependencies.len() implies match (#[trigger] dependencies[i]).1 {
            Some(current) => current == dependencies[i].0,
            None => true,
        } by {
            assert(dependencies[i].1 is None || dependencies[i].1 == Some(dependencies[i].0));
        }
    }
}

/// Decides whether a stored value is served: `dependencies` holds, for each recorded
/// dependency, the version it was recorded at and its current version when known.
pub fn fast_track(stored: Status, deserialized: bool, dependencies: &Vec<(u64, Option<u64>)>) -> (r: bool)
    ensures
        r == spec_fast_track(stored, deserialized, dependencies@),
{
    if !(stored == Status::Ready || stored == Status::Source || stored == Status::Override) {
        return false;
    }
    if !deserialized {
        return false;
    }
    let mut i: usize = 0;
    while i < dependencies.len()
        invariant
            0 <= i <= dependencies.len(),
            forall|j: int| 0 <= j < i ==> match (#[trigger] dependencies@[j]).1 {
                Some(current) => current == dependencies@[j].0,
                None => true,
            },
        decreases dependencies.len() - i,
    {
        match dependencies[i].1 {
            Some(current) => {
                if current != dependencies[i].0 {
                    return false;
                }
            },
            None => {},
        }
        i = i + 1;
    }
    true
}

// --- expiration -------------------------------------------------------------------------------

/// The assets waiting to expire: for each asset id, the one deadline (milliseconds since the
/// epoch) at which it expires. An asset tracked twice keeps the earlier deadline.
pub struct ExpirationSchedule {
    entries: Vec<(u64, i64)>,
}

/// Whether no asset id occurs twice.
pub open spec fn unique_ids(entries: Seq<(u64, i64)>) -> bool {
    forall|i: int, j: int|
        0 <= i < entries.len() && 0 <= j < entries.len() && i != j ==> (#[trigger] entries[i]).0
            != (#[trigger] entries[j]).0
}

/// The deadlines as a map from asset id.
pub open spec fn deadlines(entries: Seq<(u64, i64)>) -> Map<u64, i64>
    decreases entries.len(),
{
    if entries.len() == 0 {
        Map::empty()
    } else {
        deadlines(entries.drop_last()).insert(entries.last().0, entries.last().1)
    }
}

pub proof fn lemma_deadlines(entries: Seq<(u64, i64)>)
    requires
        unique_ids(entries),
    ensures
        forall|id: u64| #[trigger] deadlines(entries).contains_key(id) <==> exists|i: int| 0 <= i < entries.len() && (#[trigger] entries[i]).0 == id,
        forall|i: int| 0 <= i < entries.len() ==> #[trigger] deadlines(entries)[entries[i].0] == entries[i].1,
    decreases entries.len(),
{
    if entries.len() > 0 {
        let rest = entries.drop_last();
        assert(unique_ids(rest)) by {
            assert forall|i: int, j: int| 0 <= i < rest.len() && 0 <= j < rest.len() && i != j implies (#[trigger] rest[i]).0 != (#[trigger] rest[j]).0 by {
                assert(rest[i] == entries[i] && rest[j] == entries[j]);
            }
        }
        lemma_deadlines(rest);
        assert forall|id: u64| #[trigger] deadlines(entries).contains_key(id) <==> exists|i: int| 0 <= i < entries.len() && (#[trigger] entries[i]).0 == id by {
            if deadlines(rest).contains_key(id) {
                let i = choose|i: int| 0 <= i < rest.len() && (#[trigger] rest[i]).0 == id;
                assert(entries[i] == rest[i]);
            }
            if exists|i: int| 0 <= i < entries.len() && (#[trigger] entries[i]).0 == id {
                let i = choose|i: int| 0 <= i < entries.len() && (#[trigger] entries[i]).0 == id;
                if i < entries.len() - 1 {
                    assert(rest[i] == entries[i]);
                }
            }
        }
        assert forall|i: int| 0 <= i < entries.len() implies #[trigger] deadlines(entries)[entries[i].0] == entries[i].1 by {
            if i < entries.len() - 1 {
                assert(rest[i] == entries[i]);
                assert(entries[i].0 != entries[entries.len() - 1].0);
                assert(deadlines(rest)[rest[i].0] == rest[i].1);
            }
        }
    }
}

impl ExpirationSchedule {
    pub closed spec fn view(&self) -> Map<u64, i64> {
        deadlines(self.entries@)
    }

    /// No asset is tracked twice.
    #[verifier::type_invariant]
    pub closed spec fn wf(&self) -> bool {
        unique_ids(self.entries@)
    }

    /// An empty schedule.
    pub fn new() -> (r: Self)
        ensures
            r.view() == Map::<u64, i64>::empty(),
    {
        ExpirationSchedule { entries: Vec::new() }
    }

    fn index_of(&self, id: u64) -> (r: Option<usize>)
        ensures
            self.wf(),
            match r {
                Some(i) => i < self.entries@.len() && self.entries@[i as int].0 == id,
                None => forall|j: int| 0 <= j < self.entries@.len() ==> (#[trigger] self.entries@[j]).0 != id,
            },
    {
        let mut i: usize = 0;
        while i < self.entries.len()
            invariant
                0 <= i <= self.entries.len(),
                forall|j: int| 0 <= j < i ==> (#[trigger] self.entries@[j]).0 != id,
            decreases self.entries.len() - i,
        {
            if self.entries[i].0 == id {
                proof {
                    use_type_invariant(self);
                }
                return Some(i);
            }
            i = i + 1;
        }
        proof {
            use_type_invariant(self);
        }
        None
    }

    /// Tracks asset `id` to expire at `deadline`, unless it is already tracked to expire no
    /// later: the earliest deadline wins.
    pub fn track(&mut self, id: u64, deadline: i64)
        ensures
            final(self).view() == if old(self).view().contains_key(id) && old(self).view()[id] <= deadline {
                old(self).view()
            } else {
                old(self).view().insert(id, deadline)
            },
    {
        proof {
            use_type_invariant(&*self);
            lemma_deadlines(self.entries@);
        }
        let found = self.index_of(id);
        match found {
            Some(i) => {
                if deadline >= self.entries[i].1 {
                    return;
                }
                self.untrack(id);
            },
            None => {},
        }
        let ghost mid = self.view();
        proof {
            use_type_invariant(&*self);
            lemma_deadlines(self.entries@);
            assert(!mid.contains_key(id));
            assert(forall|j: int| 0 <= j < self.entries@.len() ==> (#[trigger] self.entries@[j]).0 != id);
        }
        let ghost before = self.entries@;
        let mut entries: Vec<(u64, i64)> = Vec::new();
        std::mem::swap(&mut entries, &mut self.entries);
        entries.push((id, deadline));
        proof {
            assert(entries@.drop_last() =~= before);
            assert(unique_ids(entries@)) by {
                assert forall|a: int, b: int| 0 <= a < entries@.len() && 0 <= b < entries@.len() && a != b implies (#[trigger] entries@[a]).0 != (#[trigger] entries@[b]).0 by {
                    if a < before.len() && b < before.len() {
                        assert(before[a].0 != before[b].0);
                    } else if a < before.len() {
                        assert(before[a] == entries@[a]);
                    } else {
                        assert(before[b] == entries@[b]);
                    }
                }
            }
        }
        self.entries = entries;
        proof {
            assert(self.view() == mid.insert(id, deadline));
            assert(mid == old(self).view().remove(id) || mid == old(self).view());
            if old(self).view().contains_key(id) {
                assert(mid.insert(id, deadline) =~= old(self).view().insert(id, deadline));
            }
        }
    }

    /// Stops tracking asset `id`.
    pub fn untrack(&mut self, id: u64)
        ensures
            final(self).view() == old(self).view().remove(id),
    {
        proof {
            use_type_invariant(&*self);
            lemma_deadlines(self.entries@);
        }
        match self.index_of(id) {
            Some(i) => {
                let ghost before = self.entries@;
                let mut entries: Vec<(u64, i64)> = Vec::new();
                std::mem::swap(&mut entries, &mut self.entries);
                entries.remove(i);
                proof {
                    assert(unique_ids(entries@)) by {
                        assert forall|a: int, b: int| 0 <= a < entries@.len() && 0 <= b < entries@.len() && a != b implies (#[trigger] entries@[a]).0 != (#[trigger] entries@[b]).0 by {
                            let a2 = if a < i { a } else { a + 1 };
                            let b2 = if b < i { b } else { b + 1 };
                            assert(entries@[a] == before[a2] && entries@[b] == before[b2]);
                        }
                    }
                }
                self.entries = entries;
                proof {
                    lemma_deadlines(self.entries@);
                    assert forall|k: u64| #[trigger] self.view().contains_key(k) <==> deadlines(before).remove(id).contains_key(k) by {
                        if self.view().contains_key(k) {
                            let j = choose|j: int| 0 <= j < self.entries@.len() && (#[trigger] self.entries@[j]).0 == k;
                            let j2 = if j < i { j } else { j + 1 };
                            assert(self.entries@[j] == before[j2]);
                        }
                        if deadlines(before).contains_key(k) && k != id {
                            let j = choose|j: int| 0 <= j < before.len() && (#[trigger] before[j]).0 == k;
                            if j < i {
                                assert(self.entries@[j] == before[j]);
                            } else {
                                assert(self.entries@[j - 1] == before[j]);
                            }
                        }
                    }
                    assert forall|k: u64| #[trigger] self.view().contains_key(k) implies self.view()[k] == deadlines(before)[k] by {
                        let j = choose|j: int| 0 <= j < self.entries@.len() && (#[trigger] self.entries@[j]).0 == k;
                        let j2 = if j < i { j } else { j + 1 };
                        assert(self.entries@[j] == before[j2]);
                    }
                    assert(self.view() =~= deadlines(before).remove(id));
                }
            },
            None => {
                proof {
                    assert(!self.view().contains_key(id));
                    assert(self.view().remove(id) =~= self.view());
                }
            },
        }
    }

    /// The earliest deadline, when any asset is tracked.
    pub fn next_deadline(&self) -> (r: Option<i64>)
        ensures
            r is None <==> self.view().dom().len() == 0,
            r matches Some(d) ==> (exists|id: u64| #[trigger] self.view().contains_key(id) && self.view()[id] == d)
                && forall|id: u64| #[trigger] self.view().contains_key(id) ==> d <= self.view()[id],
    {
        proof {
            use_type_invariant(self);
            lemma_deadlines(self.entries@);
            lemma_deadlines_len(self.entries@);
        }
        if self.entries.len() == 0 {
            return None;
        }
        let mut best: i64 = self.entries[0].1;
        let mut i: usize = 1;
        while i < self.entries.len()
            invariant
                1 <= i <= self.entries.len(),
                exists|j: int| 0 <= j < i && (#[trigger] self.entries@[j]).1 == best,
                forall|j: int| 0 <= j < i ==> best <= (#[trigger] self.entries@[j]).1,
            decreases self.entries.len() - i,
        {
            if self.entries[i].1 < best {
                best = self.entries[i].1;
            }
            i = i + 1;
        }
        proof {
            let j = choose|j: int| 0 <= j < self.entries@.len() && (#[trigger] self.entries@[j]).1 == best;
            assert(self.view().contains_key(self.entries@[j].0));
            assert forall|id: u64| #[trigger] self.view().contains_key(id) implies best <= self.view()[id] by {
                let k = choose|k: int| 0 <= k < self.entries@.len() && (#[trigger] self.entries@[k]).0 == id;
                assert(self.view()[self.entries@[k].0] == self.entries@[k].1);
            }
        }
        Some(best)
    }

    /// The position of the entry that expires first: the earliest deadline, and among equal
    /// deadlines the smallest asset id.
    fn index_of_earliest(&self) -> (r: usize)
        requires
            self.entries@.len() > 0,
        ensures
            r < self.entries@.len(),
            forall|j: int| 0 <= j < self.entries@.len() ==> expires_no_later(
                self.entries@[r as int].1,
                self.entries@[r as int].0,
                #[trigger] self.entries@[j].1,
                self.entries@[j].0,
            ),
    {
        let mut best: usize = 0;
        let mut i: usize = 1;
        while i < self.entries.len()
            invariant
                1 <= i <= self.entries.len(),
                best < i,
                forall|j: int| 0 <= j < i ==> expires_no_later(
                    self.entries@[best as int].1,
                    self.entries@[best as int].0,
                    #[trigger] self.entries@[j].1,
                    self.entries@[j].0,
                ),
            decreases self.entries.len() - i,
        {
            let (id, d) = self.entries[i];
            let (bid, bd) = self.entries[best];
            if d < bd || (d == bd && id < bid) {
                best = i;
            }
            i = i + 1;
        }
        best
    }

    /// Fires every asset due at `now`: returns their ids, earliest deadline first (and among
    /// equal deadlines the smallest id first), each once, and stops tracking them.
    pub fn fire_due(&mut self, now: i64) -> (r: Vec<u64>)
        ensures
            final(self).view() == old(self).view().restrict(Set::new(|id: u64| old(self).view().contains_key(id) && old(self).view()[id] > now)),
            forall|id: u64| r@.contains(id) <==> (old(self).view().contains_key(id) && old(self).view()[id] <= now),
            forall|a: int, b: int| 0 <= a < b < r@.len() ==> old(self).view()[#[trigger] r@[a]] <= old(self).view()[#[trigger] r@[b]],
            forall|a: int, b: int| 0 <= a < b < r@.len() ==> expires_no_later(
                old(self).view()[#[trigger] r@[a]],
                r@[a],
                old(self).view()[#[trigger] r@[b]],
                r@[b],
            ),
            r@.no_duplicates(),
    {
        proof {
            use_type_invariant(&*self);
        }
        let ghost initial = self.view();
        let mut fired: Vec<u64> = Vec::new();
        loop
            invariant
                self.wf(),
                forall|id: u64| #[trigger] self.view().contains_key(id) ==> initial.contains_key(id) && self.view()[id] == initial[id],
                forall|id: u64| initial.contains_key(id) && initial[id] > now ==> #[trigger] self.view().contains_key(id),
                forall|id: u64| fired@.contains(id) <==> (initial.contains_key(id) && !self.view().contains_key(id)),
                forall|id: u64| #[trigger] fired@.contains(id) ==> initial[id] <= now,
                forall|a: int, b: int| 0 <= a < b < fired@.len() ==> expires_no_later(
                    initial[#[trigger] fired@[a]],
                    fired@[a],
                    initial[#[trigger] fired@[b]],
                    fired@[b],
                ),
                forall|a: int, id: u64| 0 <= a < fired@.len() && #[trigger] self.view().contains_key(id) ==> expires_no_later(
                    initial[#[trigger] fired@[a]],
                    fired@[a],
                    self.view()[id],
                    id,
                ),
                fired@.no_duplicates(),
            ensures
                self.wf(),
                forall|id: u64| #[trigger] self.view().contains_key(id) ==> initial.contains_key(id) && self.view()[id] == initial[id] && initial[id] > now,
                forall|id: u64| initial.contains_key(id) && initial[id] > now ==> #[trigger] self.view().contains_key(id),
                forall|id: u64| fired@.contains(id) <==> (initial.contains_key(id) && !self.view().contains_key(id)),
                forall|id: u64| #[trigger] fired@.contains(id) ==> initial[id] <= now,
                forall|a: int, b: int| 0 <= a < b < fired@.len() ==> expires_no_later(
                    initial[#[trigger] fired@[a]],
                    fired@[a],
                    initial[#[trigger] fired@[b]],
                    fired@[b],
                ),
                fired@.no_duplicates(),
            decreases self.entries@.len(),
        {
            proof {
                lemma_deadlines(self.entries@);
                lemma_deadlines_len(self.entries@);
            }
            if self.entries.len() == 0 {
                proof {
                    assert forall|x: u64| #[trigger] self.view().contains_key(x) implies false by {
                        let k = choose|k: int| 0 <= k < self.entries@.len() && (#[trigger] self.entries@[k]).0 == x;
                    }
                }
                break;
            }
            let i = self.index_of_earliest();
            let (id, d) = self.entries[i];
            if d > now {
                proof {
                    assert forall|x: u64| #[trigger] self.view().contains_key(x) implies initial[x] > now by {
                        let k = choose|k: int| 0 <= k < self.entries@.len() && (#[trigger] self.entries@[k]).0 == x;
                        assert(self.view()[self.entries@[k].0] == self.entries@[k].1);
                        assert(expires_no_later(d, id, self.entries@[k].1, self.entries@[k].0));
                    }
                }
                break;
            }
            let ghost before = self.view();
            let ghost len_before = self.entries@.len();
            let ghost fired_before = fired@;
            proof {
                assert(self.view()[self.entries@[i as int].0] == self.entries@[i as int].1);
                assert(before.contains_key(id) && before[id] == d);
                assert forall|x: u64| #[trigger] before.contains_key(x) implies expires_no_later(d, id, before[x], x) by {
                    let k = choose|k: int| 0 <= k < self.entries@.len() && (#[trigger] self.entries@[k]).0 == x;
                    assert(self.view()[self.entries@[k].0] == self.entries@[k].1);
                    assert(expires_no_later(d, id, self.entries@[k].1, self.entries@[k].0));
                }
                assert(!fired_before.contains(id));
            }
            self.untrack(id);
            proof {
                use_type_invariant(&*self);
                lemma_deadlines_len(self.entries@);
                assert(self.view().dom() =~= before.dom().remove(id));
                assert(self.entries@.len() < len_before);
            }
            fired.push(id);
            proof {
                assert forall|a: int, b: int| 0 <= a < fired@.len() && 0 <= b < fired@.len() && a != b implies fired@[a] != fired@[b] by {
                    if a < fired_before.len() && b < fired_before.len() {
                        assert(fired@[a] == fired_before[a] && fired@[b] == fired_before[b]);
                    } else if a < fired_before.len() {
                        assert(fired@[a] == fired_before[a]);
                        assert(fired_before.contains(fired@[a]));
                    } else {
                        assert(fired@[b] == fired_before[b]);
                        assert(fired_before.contains(fired@[b]));
                    }
                }
                assert forall|x: u64| fired@.contains(x) <==> (initial.contains_key(x) && !self.view().contains_key(x)) by {
                    if x == id {
                        assert(fired@[fired@.len() - 1] == id);
                    } else if fired@.contains(x) {
                        let k = choose|k: int| 0 <= k < fired@.len() && fired@[k] == x;
                        assert(k < fired@.len() - 1);
                        assert(fired_before[k] == x);
                        assert(fired_before.contains(x));
                    } else {
                        if initial.contains_key(x) && !self.view().contains_key(x) {
                            assert(!before.contains_key(x));
                            assert(fired_before.contains(x));
                            let k = choose|k: int| 0 <= k < fired_before.len() && fired_before[k] == x;
                            assert(fired@[k] == x);
                        }
                    }
                }
                assert forall|x: u64| #[trigger] fired@.contains(x) implies initial[x] <= now by {
                    if x != id {
                        let k = choose|k: int| 0 <= k < fired@.len() && fired@[k] == x;
                        assert(fired_before[k] == x);
                        assert(fired_before.contains(x));
                    }
                }
                assert forall|a: int, b: int| 0 <= a < b < fired@.len() implies expires_no_later(
                    initial[#[trigger] fired@[a]],
                    fired@[a],
                    initial[#[trigger] fired@[b]],
                    fired@[b],
                ) by {
                    if b == fired@.len() - 1 {
                        assert(fired@[a] == fired_before[a]);
                        assert(before.contains_key(id));
                    } else {
                        assert(fired@[a] == fired_before[a] && fired@[b] == fired_before[b]);
                    }
                }
                assert forall|a: int, x: u64| 0 <= a < fired@.len() && #[trigger] self.view().contains_key(x) implies expires_no_later(
                    initial[#[trigger] fired@[a]],
                    fired@[a],
                    self.view()[x],
                    x,
                ) by {
                    assert(before.contains_key(x));
                    if a < fired_before.len() {
                        assert(fired@[a] == fired_before[a]);
                    } else {
                        assert(fired@[a] == id);
                    }
                }
            }
        }
        proof {
            assert(self.view() =~= initial.restrict(Set::new(|id: u64| initial.contains_key(id) && initial[id] > now)));
            assert forall|a: int, b: int| 0 <= a < b < fired@.len() implies initial[#[trigger] fired@[a]] <= initial[#[trigger] fired@[b]] by {
                assert(expires_no_later(initial[fired@[a]], fired@[a], initial[fired@[b]], fired@[b]));
            }
        }
        fired
    }
}

/// Whether an asset expiring at `d1` with id `id1` expires no later than one at `d2` with
/// `id2`: an earlier deadline first, and among equal deadlines the smaller id.
pub open spec fn expires_no_later(d1: i64, id1: u64, d2: i64, id2: u64) -> bool {
    d1 < d2 || (d1 == d2 && id1 <= id2)
}

pub proof fn lemma_deadlines_len(entries: Seq<(u64, i64)>)
    requires
        unique_ids(entries),
    ensures
        deadlines(entries).dom().finite(),
        deadlines(entries).dom().len() == entries.len(),
    decreases entries.len(),
{
    if entries.len() > 0 {
        let rest = entries.drop_last();
        assert(unique_ids(rest)) by {
            assert forall|i: int, j: int| 0 <= i < rest.len() && 0 <= j < rest.len() && i != j implies (#[trigger] rest[i]).0 != (#[trigger] rest[j]).0 by {
                assert(rest[i] == entries[i] && rest[j] == entries[j]);
            }
        }
        lemma_deadlines_len(rest);
        lemma_deadlines(rest);
        assert(!deadlines(rest).contains_key(entries.last().0)) by {
            if deadlines(rest).contains_key(entries.last().0) {
                let i = choose|i: int| 0 <= i < rest.len() && (#[trigger] rest[i]).0 == entries.last().0;
                assert(rest[i] == entries[i]);
            }
        }
    }
}

// --- stored values -----------------------------------------------------------------------------

/// Index of the first non-whitespace character at or after `from`; the length when none is.
pub open spec fn first_non_space(s: Seq<char>, from: int) -> int
    decreases s.len() - from,
{
    if from < 0 || from >= s.len() {
        s.len() as int
    } else if !char_is_whitespace(s[from]) {
        from
    } else {
        first_non_space(s, from + 1)
    }
}

/// One past the last non-whitespace character before `to`; 0 when none is.
pub open spec fn end_non_space(s: Seq<char>, to: int) -> int
    decreases to,
{
    if to <= 0 || to > s.len() {
        0
    } else if !char_is_whitespace(s[to - 1]) {
        to
    } else {
        end_non_space(s, to - 1)
    }
}

/// `s` without leading and trailing whitespace, as `str::trim` gives it.
pub open spec fn trimmed(s: Seq<char>) -> Seq<char> {
    let lo = first_non_space(s, 0);
    if lo >= s.len() {
        Seq::empty()
    } else {
        s.subrange(lo, end_non_space(s, s.len() as int))
    }
}

/// Whether a type identifier names raw bytes: after trimming and ASCII lowercasing it is
/// `bytes`, `binary`, `bin` or `b`.
pub open spec fn spec_is_bytes_identifier(t: Seq<char>) -> bool {
    let l = trimmed(t).map_values(|c: char| ascii_lower_char(c));
    l == "bytes"@ || l == "binary"@ || l == "bin"@ || l == "b"@
}

pub proof fn lemma_first_non_space(s: Seq<char>, from: int)
    requires
        0 <= from <= s.len(),
    ensures
        from <= first_non_space(s, from) <= s.len(),
        first_non_space(s, from) < s.len() ==> !char_is_whitespace(s[first_non_space(s, from)]),
    decreases s.len() - from,
{
    if from < s.len() && char_is_whitespace(s[from]) {
        lemma_first_non_space(s, from + 1);
    }
}

pub proof fn lemma_end_non_space(s: Seq<char>, to: int, lo: int)
    requires
        0 <= lo < to <= s.len(),
        !char_is_whitespace(s[lo]),
    ensures
        lo < end_non_space(s, to) <= to,
    decreases to,
{
    if char_is_whitespace(s[to - 1]) {
        lemma_end_non_space(s, to - 1, lo);
    }
}

/// Whether a stored type identifier names raw bytes, which are then kept as bytes rather than
/// deserialized.
pub fn is_bytes_identifier(type_identifier: &str) -> (r: bool)
    ensures
        r == spec_is_bytes_identifier(type_identifier@),
{
    let cs = chars_of(type_identifier);
    let ghost s = cs@;
    let mut lo: usize = 0;
    while lo < cs.len() && is_whitespace(cs[lo])
        invariant
            0 <= lo <= cs.len(),
            s == cs@,
            first_non_space(s, 0) == first_non_space(s, lo as int),
        decreases cs.len() - lo,
    {
        lo = lo + 1;
    }
    proof {
        lemma_first_non_space(s, 0);
        reveal_strlit("bytes");
        reveal_strlit("binary");
        reveal_strlit("bin");
        reveal_strlit("b");
    }
    if lo >= cs.len() {
        proof {
            assert(trimmed(s).map_values(|c: char| ascii_lower_char(c)) =~= Seq::<char>::empty());
        }
        return false;
    }
    let mut hi: usize = cs.len();
    proof {
        lemma_end_non_space(s, s.len() as int, lo as int);
    }
    while hi > lo && is_whitespace(cs[hi - 1])
        invariant
            lo < cs.len(),
            lo < hi <= cs.len(),
            s == cs@,
            !char_is_whitespace(s[lo as int]),
            end_non_space(s, s.len() as int) == end_non_space(s, hi as int),
            end_non_space(s, s.len() as int) > lo,
        decreases hi,
    {
        hi = hi - 1;
    }
    let mut l: Vec<char> = Vec::new();
    let mut i: usize = lo;
    while i < hi
        invariant
            lo <= i <= hi,
            hi <= cs.len(),
            s == cs@,
            l@ == s.subrange(lo as int, i as int).map_values(|c: char| ascii_lower_char(c)),
        decreases hi - i,
    {
        let c = cs[i];
        let lc = if 'A' <= c && c <= 'Z' {
            ((c as u8) + 32) as char
        } else {
            c
        };
        l.push(lc);
        proof {
            assert(s.subrange(lo as int, i + 1) =~= s.subrange(lo as int, i as int).push(c));
            assert(l@ =~= s.subrange(lo as int, i + 1).map_values(|c: char| ascii_lower_char(c)));
        }
        i = i + 1;
    }
    proof {
        assert(!char_is_whitespace(s[hi - 1]));
        assert(end_non_space(s, hi as int) == hi);
        assert(first_non_space(s, lo as int) == lo);
        assert(trimmed(s) =~= s.subrange(lo as int, hi as int));
    }
    let w = crate::text::string_of(&l);
    str_eq_any(w.as_str())
}

fn str_eq_any(w: &str) -> (r: bool)
    ensures
        r == (w@ == "bytes"@ || w@ == "binary"@ || w@ == "bin"@ || w@ == "b"@),
{
    crate::json::str_eq(w, "bytes") || crate::json::str_eq(w, "binary") || crate::json::str_eq(w, "bin")
        || crate::json::str_eq(w, "b")
}

/// Building a command's value from stored bytes: implemented by each value type.
pub trait StoredValue: Sized {
    /// The value holding the bytes themselves.
    fn from_bytes(bytes: Vec<u8>) -> Self;

    /// The value the bytes serialize, in the given type and data format.
    fn deserialize_from_bytes(bytes: &[u8], type_identifier: &str, data_format: &str) -> Result<Self, Error>;
}

/// Whether the value type may build `x` as the value holding `bytes`.
pub open spec fn holds_bytes<V: StoredValue>(bytes: Seq<u8>, x: V) -> bool {
    exists|b: Vec<u8>| b@ == bytes && #[trigger] call_ensures(V::from_bytes, (b,), x)
}

/// Whether the value type may answer `r` when deserializing `bytes` in a type and format.
pub open spec fn deserializes_to<V: StoredValue>(bytes: Seq<u8>, type_identifier: &str, data_format: &str, r: Result<V, Error>) -> bool {
    exists|b: &[u8]| b@ == bytes && #[trigger] call_ensures(V::deserialize_from_bytes, (b, type_identifier, data_format), r)
}

/// Builds the value of stored bytes: bytes-like type identifiers keep the bytes as they are,
/// any other is deserialized by the value type.
pub fn deserialize_stored_value<V: StoredValue>(binary: &Vec<u8>, type_identifier: &str, data_format: &str) -> (r: Result<V, Error>)
    ensures
        spec_is_bytes_identifier(type_identifier@) ==> (r matches Ok(x) && holds_bytes::<V>(binary@, x)),
        !spec_is_bytes_identifier(type_identifier@) ==> deserializes_to::<V>(binary@, type_identifier, data_format, r),
{
    if is_bytes_identifier(type_identifier) {
        let build = V::from_bytes;
        let copy = binary.clone();
        let ghost bytes = copy;
        proof {
            assert(copy@ =~= binary@);
        }
        let x = build(copy);
        proof {
            assert(call_ensures(V::from_bytes, (bytes,), x));
        }
        Ok(x)
    } else {
        let deserialize = V::deserialize_from_bytes;
        let slice = binary.as_slice();
        let r = deserialize(slice, type_identifier, data_format);
        proof {
            assert(call_ensures(V::deserialize_from_bytes, (slice, type_identifier, data_format), r));
        }
        r
    }
}

// --- persistence -------------------------------------------------------------------------------

/// The persistence status a failed save leaves: a value that cannot be serialized, or one that
/// was not persisted for any other reason.
pub open spec fn spec_classify_persistence(t: ErrorType) -> PersistenceStatus {
    match t {
        ErrorType::SerializationError => PersistenceStatus::NonSerializable,
        _ => PersistenceStatus::NotPersisted,
    }
}

pub fn classify_persistence_error(error: &Error) -> (r: PersistenceStatus)
    ensures
        r == spec_classify_persistence(error.error_type),
{
    match error.error_type {
        ErrorType::SerializationError => PersistenceStatus::NonSerializable,
        _ => PersistenceStatus::NotPersisted,
    }
}

/// The persistence status a save leaves: `Persisted` when it succeeded.
pub fn persistence_outcome(result: &Result<(), Error>) -> (r: PersistenceStatus)
    ensures
        r == match result {
            Ok(()) => PersistenceStatus::Persisted,
            Err(e) => spec_classify_persistence(e.error_type),
        },
{
    match result {
        Ok(()) => PersistenceStatus::Persisted,
        Err(e) => classify_persistence_error(e),
    }
}

/// Whether recording a persistence status logs a warning: it does for every failure.
pub fn persistence_warns(status: PersistenceStatus) -> (r: bool)
    ensures
        r == (status is NonSerializable || status is NotPersisted),
{
    match status {
        PersistenceStatus::NonSerializable | PersistenceStatus::NotPersisted => true,
        _ => false,
    }
}

/// The name of a persistence status, as `{:?}` writes it.
pub open spec fn persistence_name(status: PersistenceStatus) -> Seq<char> {
    match status {
        PersistenceStatus::Nothing => "None"@,
        PersistenceStatus::Persisted => "Persisted"@,
        PersistenceStatus::NonSerializable => "NonSerializable"@,
        PersistenceStatus::NotPersisted => "NotPersisted"@,
    }
}

/// `Persistence status <status> for <reference>`, then `: <error>` when the failure has an
/// error.
pub open spec fn persistence_message(status: PersistenceStatus, reference: Seq<char>, error: Option<Seq<char>>) -> Seq<char> {
    "Persistence status "@ + persistence_name(status) + " for "@ + reference + match error {
        Some(e) => ": "@ + e,
        None => Seq::empty(),
    }
}

/// The warning recording a persistence status logs, for the asset `reference`: one for every
/// failure, naming the error's text when there is one; none for a success.
pub fn persistence_warning(status: PersistenceStatus, reference: &str, error: Option<&str>) -> (r: Option<String>)
    ensures
        (status is NonSerializable || status is NotPersisted) ==> (r matches Some(m) && m@ == persistence_message(
            status,
            reference@,
            match error {
                Some(e) => Some(e@),
                None => None,
            },
        )),
        !(status is NonSerializable || status is NotPersisted) ==> r is None,
{
    let name = match status {
        PersistenceStatus::NonSerializable => "NonSerializable",
        PersistenceStatus::NotPersisted => "NotPersisted",
        _ => {
            return None;
        },
    };
    proof {
        reveal_strlit("NonSerializable");
        reveal_strlit("NotPersisted");
    }
    let mut m = owned("Persistence status ");
    push_str(&mut m, name);
    push_str(&mut m, " for ");
    push_str(&mut m, reference);
    match error {
        Some(e) => {
            push_str(&mut m, ": ");
            push_str(&mut m, e);
        },
        None => {},
    }
    proof {
        let ev = match error {
            Some(e) => Some(e@),
            None => None,
        };
        assert(m@ =~= persistence_message(status, reference@, ev));
    }
    Some(m)
}

/// A save never leaves the persistence status at "not attempted".
pub proof fn law_save_is_recorded(result: Result<(), Error>)
    ensures
        match result {
            Ok(()) => PersistenceStatus::Persisted,
            Err(e) => spec_classify_persistence(e.error_type),
        } != PersistenceStatus::Nothing,
{
}

/// Why a binary read found no binary.
#[derive(Debug, Clone, Copy, PartialEq, Eq, Structural)]
pub enum NoBinary {
    /// The asset failed: its own error is reported when it has one.
    Failed,
    Cancelled,
    Directory,
    /// The status has a binary form: the read should not have come here.
    Unexpected,
}

pub open spec fn spec_no_binary(s: Status) -> NoBinary {
    match s {
        Status::Error => NoBinary::Failed,
        Status::Cancelled => NoBinary::Cancelled,
        Status::Directory => NoBinary::Directory,
        _ => NoBinary::Unexpected,
    }
}

pub fn no_binary_reason(s: Status) -> (r: NoBinary)
    ensures
        r == spec_no_binary(s),
{
    match s {
        Status::Error => NoBinary::Failed,
        Status::Cancelled => NoBinary::Cancelled,
        Status::Directory => NoBinary::Directory,
        _ => NoBinary::Unexpected,
    }
}

/// `Asset <reference> is expired; use get_any_status or get_binary_any_status to read retained
/// data, or to_override to accept it`.
pub open spec fn expired_read_message(reference: Seq<char>) -> Seq<char> {
    "Asset "@ + reference
        + " is expired; use get_any_status or get_binary_any_status to read retained data, or to_override to accept it"@
}

/// The error a normal read of an expired asset gives, naming the asset by its reference.
pub fn expired_read_error(reference: &str) -> (r: Error)
    ensures
        r.error_type == ErrorType::General,
        r.message@ == expired_read_message(reference@),
{
    let mut m = owned("Asset ");
    push_str(&mut m, reference);
    push_str(
        &mut m,
        " is expired; use get_any_status or get_binary_any_status to read retained data, or to_override to accept it",
    );
    proof {
        assert(m@ =~= expired_read_message(reference@));
    }
    Error::general_error(m)
}

/// The message of a binary read that found no binary, by status.
pub open spec fn no_binary_message(reference: Seq<char>, s: Status) -> Seq<char> {
    match s {
        Status::Error => "Asset "@ + reference + " failed; no binary representation"@,
        Status::Cancelled => "Asset "@ + reference + " was cancelled; no binary representation"@,
        Status::Directory => "Asset "@ + reference + " is a directory; no binary representation"@,
        _ => "Asset "@ + reference + " has status "@ + status_name(s)
            + ", which has a binary representation; no_binary_error should not have been called"@,
    }
}

/// The error a binary read gives for an asset in status `s` that has no binary. A failed
/// asset reports its own recorded error when it has one.
pub fn no_binary_error(reference: &str, s: Status, recorded: Option<Error>) -> (r: Error)
    ensures
        s == Status::Error && recorded is Some ==> r == recorded->0,
        !(s == Status::Error && recorded is Some) ==> {
            &&& r.message@ == no_binary_message(reference@, s)
            &&& r.error_type == if spec_no_binary(s) == NoBinary::Unexpected {
                ErrorType::UnexpectedError
            } else {
                ErrorType::General
            }
        },
{
    let mut m = owned("Asset ");
    push_str(&mut m, reference);
    match s {
        Status::Error => {
            match recorded {
                Some(e) => {
                    return e;
                },
                None => {},
            }
            push_str(&mut m, " failed; no binary representation");
            proof {
                assert(m@ =~= no_binary_message(reference@, s));
            }
            Error::general_error(m)
        },
        Status::Cancelled => {
            push_str(&mut m, " was cancelled; no binary representation");
            proof {
                assert(m@ =~= no_binary_message(reference@, s));
            }
            Error::general_error(m)
        },
        Status::Directory => {
            push_str(&mut m, " is a directory; no binary representation");
            proof {
                assert(m@ =~= no_binary_message(reference@, s));
            }
            Error::general_error(m)
        },
        _ => {
            push_str(&mut m, " has status ");
            push_str(&mut m, s.name());
            push_str(&mut m, ", which has a binary representation; no_binary_error should not have been called");
            proof {
                assert(m@ =~= no_binary_message(reference@, s));
            }
            Error::unexpected_error(m)
        },
    }
}

/// The statuses a read exposes only as metadata are exactly those without a binary form.
pub proof fn law_metadata_only_has_no_binary(s: Status)
    ensures
        (spec_read_exposure(s) == ReadExposure::MetadataOnly) <==> (spec_no_binary(s) != NoBinary::Unexpected),
{
}

// --- what each status decision is for ---------------------------------------------------------

/// An asset is finished exactly when no evaluation is pending for it: a read then answers with
/// its value, its metadata or an expiry. The finished statuses are the directory, the failed,
/// ready, expired, cancelled, source, override and volatile ones.
pub proof fn law_finished_means_answered(s: Status)
    ensures
        spec_is_finished(s) <==> spec_read_exposure(s) != ReadExposure::Pending,
        spec_is_finished(s) <==> (s == Status::Directory || s == Status::Error || s == Status::Ready
            || s == Status::Expired || s == Status::Cancelled || s == Status::Source || s == Status::Override
            || s == Status::Volatile),
        spec_cancellable(s) ==> !spec_is_finished(s),
{
}

/// A read exposes the value of a ready, source, override or volatile asset; only the metadata
/// of a directory, a failed or a cancelled one; an expiry for an expired one; and nothing yet
/// for any other.
pub proof fn law_read_exposure(s: Status)
    ensures
        spec_read_exposure(s) == ReadExposure::Value <==> (s == Status::Ready || s == Status::Source
            || s == Status::Override || s == Status::Volatile),
        spec_read_exposure(s) == ReadExposure::MetadataOnly <==> (s == Status::Directory || s == Status::Error
            || s == Status::Cancelled),
        spec_read_exposure(s) == ReadExposure::Expired <==> s == Status::Expired,
{
}

/// Polling gives a value only when the asset holds one and its status exposes it (or it is
/// expired and the recovery read asks for it); metadata exactly for a directory, a failed or a
/// cancelled asset, stamped as a directory only for a directory; and nothing while pending.
pub proof fn law_poll_answers(s: Status, has_data: bool, any_status: bool)
    ensures
        spec_poll(s, has_data, any_status) == Poll::Value <==> (has_data && (spec_read_exposure(s)
            == ReadExposure::Value || (s == Status::Expired && any_status))),
        spec_poll(s, has_data, any_status) is MetadataOnly <==> spec_read_exposure(s) == ReadExposure::MetadataOnly,
        spec_poll(s, has_data, any_status) matches Poll::MetadataOnly { dir } ==> (dir <==> s == Status::Directory),
        !spec_is_finished(s) ==> spec_poll(s, has_data, any_status) == Poll::Nothing,
{
}

/// Expiring succeeds exactly for a ready, override or already expired asset, and leaves it
/// `Expired`, reporting a change unless it was expired already; a source, having no recipe to
/// recompute it, and any other asset cannot expire.
pub proof fn law_expire_ends_expired(s: Status)
    ensures
        spec_expire(s) is Ok <==> (s == Status::Ready || s == Status::Override || s == Status::Expired),
        spec_expire(s) matches Ok((t, changed)) ==> t == Status::Expired && (changed <==> s != Status::Expired),
        spec_expire(Status::Source) is Err,
        spec_cancellable(s) ==> spec_expire(s) is Err,
{
}

/// After a failed expiry an asset is still dropped from the maps exactly when nothing may
/// still write to it and it holds no live value: not started, a directory, failed, cancelled,
/// a source or volatile. In-flight, storing, ready, expired and overridden assets stay.
pub proof fn law_evicted_after_failed_expiry(s: Status)
    ensures
        spec_evict_on_failure(s) <==> (s == Status::Nothing || s == Status::Directory || s == Status::Recipe
            || s == Status::Error || s == Status::Cancelled || s == Status::Source || s == Status::Volatile),
        spec_cancellable(s) || s == Status::Storing ==> !spec_evict_on_failure(s),
{
}

/// A value written from outside ends finished: expired or failed values keep their status;
/// any other becomes an override when a recipe could compute the key, a source otherwise.
pub proof fn law_external_write_status(input: Status, has_recipe: bool)
    ensures
        spec_is_finished(spec_external_status(input, has_recipe)),
        (input == Status::Expired || input == Status::Error) ==> spec_external_status(input, has_recipe) == input,
        (input != Status::Expired && input != Status::Error) ==> spec_external_status(input, has_recipe) == (if has_recipe {
            Status::Override
        } else {
            Status::Source
        }),
{
}

/// Waiting for a dependency moves an unfinished asset to `Dependencies`; resuming moves it on
/// to `Processing`, and giving it back to the queue to `Submitted`; neither touches any other
/// status.
pub proof fn law_dependency_wait_statuses(s: Status)
    ensures
        spec_enter_dependencies(s) == (if spec_is_finished(s) { s } else { Status::Dependencies }),
        spec_resume(s) == (if s == Status::Dependencies { Status::Processing } else { s }),
        spec_resubmit(s) == (if s == Status::Dependencies { Status::Submitted } else { s }),
        spec_cancellable(spec_resume(Status::Dependencies)) && spec_cancellable(spec_resubmit(Status::Dependencies)),
{
}

/// A dependency fails its dependent exactly when it failed or was cancelled, or expired with
/// its value already evicted; an expired dependency that still holds its value is used, marked
/// stale.
pub proof fn law_dependency_failure(s: Status, has_value: bool)
    ensures
        spec_dependency_failure(s, has_value) is Some <==> (s == Status::Error || s == Status::Cancelled
            || (s == Status::Expired && !has_value)),
        spec_dependency_failure(s, has_value) == Some(true) <==> (s == Status::Error || s == Status::Cancelled),
{
}

/// A waiting reader stops with "no data" exactly on the end of the job, with "expired" exactly
/// on an expiry, and keeps waiting on any other notification.
pub proof fn law_wait_steps(n: NotificationKind)
    ensures
        spec_wait_step(n) == WaitStep::NoData <==> n == NotificationKind::JobFinished,
        spec_wait_step(n) == WaitStep::ExpiredWhileWaiting <==> n == NotificationKind::Expired,
{
}

/// A failed save is "not serializable" exactly when serializing failed; every other failure
/// leaves the value "not persisted".
pub proof fn law_persistence_classes(t: ErrorType)
    ensures
        spec_classify_persistence(t) == PersistenceStatus::NonSerializable <==> t == ErrorType::SerializationError,
        spec_classify_persistence(t) == PersistenceStatus::NotPersisted <==> t != ErrorType::SerializationError,
{
}

/// A read without a binary blames the failure for a failed asset, the cancellation for a
/// cancelled one, the directory for a directory, and is unexpected for every status that has a
/// binary form.
pub proof fn law_no_binary_reasons(s: Status)
    ensures
        spec_no_binary(s) == NoBinary::Failed <==> s == Status::Error,
        spec_no_binary(s) == NoBinary::Cancelled <==> s == Status::Cancelled,
        spec_no_binary(s) == NoBinary::Directory <==> s == Status::Directory,
{
}

/// Ending a successful evaluation: an asset still in its run (not started, queued, waiting,
/// processing or partly done) is set ready; a failed one drops its value; one being stored is
/// warned about; any other finished one is left as it is. A set-ready asset is `Error` without
/// a value, `Volatile` when it or its expiry is volatile, `Ready` otherwise; a stale
/// dependency turns only a `Ready` result into `Expired`.
pub proof fn law_finishing_a_run(s: Status, has_data: bool, volatile: bool, expires_volatile: bool, stale: bool)
    ensures
        spec_finish(s) == Finish::SetReady <==> (!spec_is_finished(s) && s != Status::Storing),
        spec_finish(s) == Finish::ClearError <==> s == Status::Error,
        spec_finish(s) == Finish::WarnStoring <==> s == Status::Storing,
        spec_finish(s) == Finish::Keep <==> (spec_is_finished(s) && s != Status::Error),
        spec_ready_status(has_data, volatile, expires_volatile) == Status::Error <==> !has_data,
        spec_ready_status(has_data, volatile, expires_volatile) == Status::Volatile <==> (has_data && (volatile
            || expires_volatile)),
        spec_after_stale_check(s, stale) != s <==> (stale && s == Status::Ready),
        spec_after_stale_check(s, stale) != s ==> spec_after_stale_check(s, stale) == Status::Expired,
        (spec_finish(s) == Finish::SetReady && has_data && !volatile && !expires_volatile && !stale)
            ==> spec_finished_status(s, has_data, volatile, expires_volatile, stale) == Status::Ready,
{
}

/// A dependency is recorded at a version unless that would replace a known version by the
/// unknown one.
pub proof fn law_dependency_recording(existing: Option<u64>, version: u64)
    ensures
        !spec_records_dependency(existing, version) <==> (existing matches Some(v) && v != 0 && version == 0),
{
}

/// The service loop of an unfinished asset: a log entry is appended, a cancellation cancels,
/// progress is recorded, submission and start set `Submitted` and `Processing`, an error fails
/// the asset, and the end of the job stops the loop. Exactly cancellation, failure and the end
/// of the job stop it, and cancellation and failure leave the asset finished.
pub proof fn law_service_actions(msg: AssetServiceMessage, s: Status)
    ensures
        msg is LogMessage ==> spec_service_action(false, msg) == ServiceAction::AppendLog,
        msg is Cancel ==> spec_service_action(false, msg) == ServiceAction::Cancel,
        msg is JobSubmitted ==> spec_service_action(false, msg) == ServiceAction::SetStatus(Status::Submitted),
        msg is JobStarted ==> spec_service_action(false, msg) == ServiceAction::SetStatus(Status::Processing),
        msg is ErrorOccurred ==> spec_service_action(false, msg) == ServiceAction::Fail,
        msg is UpdatePrimaryProgress ==> spec_service_action(false, msg) == ServiceAction::PrimaryProgress,
        msg is UpdateSecondaryProgress ==> spec_service_action(false, msg) == ServiceAction::SecondaryProgress,
        (msg is JobFinishing || msg is JobFinished) ==> spec_service_action(false, msg) == ServiceAction::Stop,
        spec_stops(spec_service_action(false, msg)) <==> (msg is Cancel || msg is ErrorOccurred || msg is JobFinishing
            || msg is JobFinished),
        (msg is Cancel || msg is ErrorOccurred) ==> spec_is_finished(spec_status_after(s, spec_service_action(false, msg))),
{
}

} // verus!
