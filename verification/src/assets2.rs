//! The earlier asset service: its messages, its notifications, and what its service loop does
//! with each message. Unlike the current service it has no end-of-job housekeeping message and
//! does not filter messages that arrive after the asset finished.
use vstd::prelude::*;
use crate::error::Error;
use crate::assets::{LogEntry, NotificationKind, ProgressEntry, Status};

verus! {

/// A message to an asset's service loop.
#[derive(Debug, Clone)]
pub enum AssetServiceMessage {
    JobSubmitted,
    JobStarted,
    LogMessage(LogEntry),
    UpdatePrimaryProgress(ProgressEntry),
    UpdateSecondaryProgress(ProgressEntry),
    Cancel,
    ErrorOccurred(Error),
    JobFinished,
}

/// A notification that an asset may have changed.
#[derive(Debug, Clone)]
pub enum AssetNotificationMessage {
    Initial,
    JobSubmitted,
    JobStarted,
    StatusChanged(Status),
    ValueProduced,
    ErrorOccurred(Error),
    LogMessage,
    PrimaryProgressUpdated(ProgressEntry),
    SecondaryProgressUpdated(ProgressEntry),
    JobFinished,
}

/// What the loop does with one message: the status it sets, the notifications it sends in
/// order, and whether it stops.
pub struct ServiceStep {
    pub status: Option<Status>,
    pub notifications: Vec<NotificationKind>,
    pub stop: bool,
}

pub open spec fn spec_step_status(msg: AssetServiceMessage) -> Option<Status> {
    match msg {
        AssetServiceMessage::Cancel => Some(Status::Cancelled),
        AssetServiceMessage::JobSubmitted => Some(Status::Submitted),
        AssetServiceMessage::JobStarted => Some(Status::Processing),
        AssetServiceMessage::ErrorOccurred(_) => Some(Status::Error),
        _ => None,
    }
}

pub open spec fn spec_step_notifications(msg: AssetServiceMessage) -> Seq<NotificationKind> {
    match msg {
        AssetServiceMessage::LogMessage(_) => seq![NotificationKind::LogMessage],
        AssetServiceMessage::Cancel => seq![
            NotificationKind::StatusChanged(Status::Cancelled),
            NotificationKind::JobFinished,
        ],
        AssetServiceMessage::UpdatePrimaryProgress(_) => seq![NotificationKind::PrimaryProgressUpdated],
        AssetServiceMessage::UpdateSecondaryProgress(_) => seq![NotificationKind::SecondaryProgressUpdated],
        AssetServiceMessage::JobSubmitted => seq![
            NotificationKind::StatusChanged(Status::Submitted),
            NotificationKind::JobSubmitted,
        ],
        AssetServiceMessage::JobStarted => seq![
            NotificationKind::StatusChanged(Status::Processing),
            NotificationKind::JobStarted,
        ],
        AssetServiceMessage::JobFinished => seq![NotificationKind::JobFinished],
        AssetServiceMessage::ErrorOccurred(_) => seq![
            NotificationKind::ErrorOccurred,
            NotificationKind::JobFinished,
        ],
    }
}

pub open spec fn spec_step_stops(msg: AssetServiceMessage) -> bool {
    msg is Cancel || msg is JobFinished || msg is ErrorOccurred
}

/// Decides what the service loop does with `msg`.
pub fn service_step(msg: &AssetServiceMessage) -> (r: ServiceStep)
    ensures
        r.status == spec_step_status(*msg),
        r.notifications@ == spec_step_notifications(*msg),
        r.stop == spec_step_stops(*msg),
{
    let mut n: Vec<NotificationKind> = Vec::new();
    let r = match msg {
        AssetServiceMessage::LogMessage(_) => {
            n.push(NotificationKind::LogMessage);
            ServiceStep { status: None, notifications: n, stop: false }
        },
        AssetServiceMessage::Cancel => {
            n.push(NotificationKind::StatusChanged(Status::Cancelled));
            n.push(NotificationKind::JobFinished);
            ServiceStep { status: Some(Status::Cancelled), notifications: n, stop: true }
        },
        AssetServiceMessage::UpdatePrimaryProgress(_) => {
            n.push(NotificationKind::PrimaryProgressUpdated);
            ServiceStep { status: None, notifications: n, stop: false }
        },
        AssetServiceMessage::UpdateSecondaryProgress(_) => {
            n.push(NotificationKind::SecondaryProgressUpdated);
            ServiceStep { status: None, notifications: n, stop: false }
        },
        AssetServiceMessage::JobSubmitted => {
            n.push(NotificationKind::StatusChanged(Status::Submitted));
            n.push(NotificationKind::JobSubmitted);
            ServiceStep { status: Some(Status::Submitted), notifications: n, stop: false }
        },
        AssetServiceMessage::JobStarted => {
            n.push(NotificationKind::StatusChanged(Status::Processing));
            n.push(NotificationKind::JobStarted);
            ServiceStep { status: Some(Status::Processing), notifications: n, stop: false }
        },
        AssetServiceMessage::JobFinished => {
            n.push(NotificationKind::JobFinished);
            ServiceStep { status: None, notifications: n, stop: true }
        },
        AssetServiceMessage::ErrorOccurred(_) => {
            n.push(NotificationKind::ErrorOccurred);
            n.push(NotificationKind::JobFinished);
            ServiceStep { status: Some(Status::Error), notifications: n, stop: true }
        },
    };
    proof {
        assert(r.notifications@ =~= spec_step_notifications(*msg));
    }
    r
}

/// Every message that ends the loop announces the end of the job last.
pub proof fn law_stop_announces_job_finished(msg: AssetServiceMessage)
    requires
        spec_step_stops(msg),
    ensures
        spec_step_notifications(msg).last() == NotificationKind::JobFinished,
{
}

/// The earlier service loop: submission, start, cancellation and an error set `Submitted`,
/// `Processing`, `Cancelled` and `Error`; every other message leaves the status. The loop stops
/// exactly on cancellation, an error or the end of the job, and each of those leaves the asset
/// finished or announces the end of the job.
pub proof fn law_earlier_service_steps(msg: AssetServiceMessage)
    ensures
        msg is JobSubmitted ==> spec_step_status(msg) == Some(Status::Submitted),
        msg is JobStarted ==> spec_step_status(msg) == Some(Status::Processing),
        msg is Cancel ==> spec_step_status(msg) == Some(Status::Cancelled),
        msg is ErrorOccurred ==> spec_step_status(msg) == Some(Status::Error),
        spec_step_status(msg) is None <==> !(msg is JobSubmitted || msg is JobStarted || msg is Cancel
            || msg is ErrorOccurred),
        spec_step_stops(msg) <==> (msg is Cancel || msg is ErrorOccurred || msg is JobFinished),
        spec_step_notifications(msg).len() > 0,
        spec_step_stops(msg) ==> spec_step_notifications(msg).last() == NotificationKind::JobFinished,
        spec_step_status(msg) matches Some(t) ==> spec_step_notifications(msg)[0] == (if t == Status::Error {
            NotificationKind::ErrorOccurred
        } else {
            NotificationKind::StatusChanged(t)
        }),
{
}

} // verus!
