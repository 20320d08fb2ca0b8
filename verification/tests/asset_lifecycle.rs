use liquers_core::assets::{
    check_required_metadata, combine_run_outcome, enter_dependencies, resubmit_after_dependencies, resume_after_dependencies, persistence_warning, dependency_version, records_dependency, ends_cancel_wait, expired_read_error, no_binary_error, wait_error, consistency_warnings, dependency_step, DependencyStep, is_blank, media_type_to_record,
    after_stale_check, cancellable, classify_persistence_error, evict_on_failure, expire_status,
    external_status, fast_track, finish_action, finished_status, is_bytes_identifier,
    no_binary_reason, notifications, override_action, persistence_outcome, persistence_warns,
    plan_external_write, poll, ready_status, service_action, stops, wait_step,
    AssetServiceMessage, ExpirationSchedule, Finish, LogEntry, LogEntryKind, NoBinary,
    NotificationKind, OverrideAction, PersistenceStatus, Poll, ProgressEntry, ReadExposure,
    ServiceAction, Status, WaitStep,
};
use liquers_core::assets2;
use liquers_core::error::{Error, ErrorType};
use liquers_core::job_queue::{claim_for_run, requeue_abandoned, JobBook};
use liquers_core::validate_cli::{
    choose_level, input_source, registry_source, InputSource, RegistrySource, ValidationLevel,
};

const ALL: [Status; 15] = [
    Status::Nothing,
    Status::Directory,
    Status::Recipe,
    Status::Submitted,
    Status::Dependencies,
    Status::Processing,
    Status::Partial,
    Status::Error,
    Status::Storing,
    Status::Ready,
    Status::Expired,
    Status::Cancelled,
    Status::Source,
    Status::Override,
    Status::Volatile,
];

fn messages() -> Vec<AssetServiceMessage> {
    vec![
        AssetServiceMessage::JobSubmitted,
        AssetServiceMessage::JobStarted,
        AssetServiceMessage::LogMessage(LogEntry { kind: LogEntryKind::Info, message: "hi".to_string() }),
        AssetServiceMessage::UpdatePrimaryProgress(ProgressEntry::done("p".to_string())),
        AssetServiceMessage::UpdateSecondaryProgress(ProgressEntry::done("s".to_string())),
        AssetServiceMessage::Cancel,
        AssetServiceMessage::ErrorOccurred(Error::general_error("boom".to_string())),
        AssetServiceMessage::JobFinishing,
        AssetServiceMessage::JobFinished,
    ]
}

fn status_after(status: Status, a: ServiceAction) -> Status {
    match a {
        ServiceAction::Cancel => Status::Cancelled,
        ServiceAction::SetStatus(s) => s,
        ServiceAction::Fail => Status::Error,
        _ => status,
    }
}

#[test]
fn finished_asset_keeps_its_status_through_any_message() {
    for s in ALL {
        if !s.is_finished() {
            continue;
        }
        for m in messages() {
            let a = service_action(s, &m);
            assert_eq!(status_after(s, a), s, "{:?} after {:?}", s, m);
        }
    }
}

#[test]
fn late_progress_for_a_ready_asset_is_ignored() {
    let m = AssetServiceMessage::UpdatePrimaryProgress(ProgressEntry::done("late".to_string()));
    assert_eq!(service_action(Status::Ready, &m), ServiceAction::Ignore);
    assert_eq!(service_action(Status::Processing, &m), ServiceAction::PrimaryProgress);
}

#[test]
fn log_and_end_of_job_reach_a_finished_asset() {
    let log = AssetServiceMessage::LogMessage(LogEntry { kind: LogEntryKind::Warning, message: "w".to_string() });
    assert_eq!(service_action(Status::Ready, &log), ServiceAction::AppendLog);
    assert_eq!(service_action(Status::Ready, &AssetServiceMessage::JobFinishing), ServiceAction::Stop);
    assert_eq!(service_action(Status::Error, &AssetServiceMessage::JobFinished), ServiceAction::Stop);
}

#[test]
fn start_and_submit_set_the_status() {
    assert_eq!(service_action(Status::Recipe, &AssetServiceMessage::JobSubmitted), ServiceAction::SetStatus(Status::Submitted));
    assert_eq!(service_action(Status::Submitted, &AssetServiceMessage::JobStarted), ServiceAction::SetStatus(Status::Processing));
    let e = AssetServiceMessage::ErrorOccurred(Error::general_error("x".to_string()));
    assert_eq!(service_action(Status::Processing, &e), ServiceAction::Fail);
    assert_eq!(service_action(Status::Processing, &AssetServiceMessage::Cancel), ServiceAction::Cancel);
}

#[test]
fn loop_stops_only_on_cancel_failure_or_end() {
    assert!(stops(ServiceAction::Cancel));
    assert!(stops(ServiceAction::Fail));
    assert!(stops(ServiceAction::Stop));
    assert!(!stops(ServiceAction::Ignore));
    assert!(!stops(ServiceAction::AppendLog));
    assert!(!stops(ServiceAction::SetStatus(Status::Processing)));
}

#[test]
fn notifications_follow_the_action() {
    assert_eq!(notifications(ServiceAction::AppendLog), vec![NotificationKind::LogMessage]);
    assert_eq!(
        notifications(ServiceAction::Cancel),
        vec![NotificationKind::StatusChanged(Status::Cancelled), NotificationKind::JobFinished]
    );
    assert_eq!(
        notifications(ServiceAction::SetStatus(Status::Submitted)),
        vec![NotificationKind::StatusChanged(Status::Submitted), NotificationKind::JobSubmitted]
    );
    assert_eq!(
        notifications(ServiceAction::SetStatus(Status::Processing)),
        vec![NotificationKind::StatusChanged(Status::Processing), NotificationKind::JobStarted]
    );
    assert!(notifications(ServiceAction::Ignore).is_empty());
    assert!(notifications(ServiceAction::Stop).is_empty());
}

#[test]
fn every_run_ends_finished() {
    for s in ALL {
        if s == Status::Storing {
            continue;
        }
        for bits in 0..16u8 {
            let r = finished_status(s, bits & 1 != 0, bits & 2 != 0, bits & 4 != 0, bits & 8 != 0);
            assert!(r.is_finished(), "{:?} with {:b} gave {:?}", s, bits, r);
        }
    }
}

#[test]
fn finishing_a_run_sets_ready_volatile_or_error() {
    assert_eq!(finish_action(Status::Processing), Finish::SetReady);
    assert_eq!(finish_action(Status::Error), Finish::ClearError);
    assert_eq!(finish_action(Status::Storing), Finish::WarnStoring);
    assert_eq!(finish_action(Status::Ready), Finish::Keep);
    assert_eq!(ready_status(true, false, false), Status::Ready);
    assert_eq!(ready_status(true, true, false), Status::Volatile);
    assert_eq!(ready_status(true, false, true), Status::Volatile);
    assert_eq!(ready_status(false, false, false), Status::Error);
    assert_eq!(after_stale_check(Status::Ready, true), Status::Expired);
    assert_eq!(after_stale_check(Status::Volatile, true), Status::Volatile);
    assert_eq!(after_stale_check(Status::Ready, false), Status::Ready);
    assert_eq!(finished_status(Status::Processing, true, false, false, true), Status::Expired);
    assert_eq!(finished_status(Status::Processing, true, false, false, false), Status::Ready);
}

#[test]
fn override_twice_is_override_once() {
    for s in ALL {
        let once = match override_action(s) {
            OverrideAction::NoChange => s,
            _ => Status::Override,
        };
        let twice = match override_action(once) {
            OverrideAction::NoChange => once,
            _ => Status::Override,
        };
        assert_eq!(once, twice, "{:?}", s);
    }
    assert_eq!(override_action(Status::Processing), OverrideAction::CancelAndClear);
    assert_eq!(override_action(Status::Ready), OverrideAction::KeepValue);
    assert_eq!(override_action(Status::Source), OverrideAction::NoChange);
}

#[test]
fn expiring_is_idempotent() {
    assert_eq!(expire_status(Status::Ready), Ok((Status::Expired, true)));
    assert_eq!(expire_status(Status::Override), Ok((Status::Expired, true)));
    assert_eq!(expire_status(Status::Expired), Ok((Status::Expired, false)));
}

#[test]
fn source_and_in_flight_assets_cannot_expire() {
    let e = expire_status(Status::Source).unwrap_err();
    assert_eq!(e.error_type, ErrorType::General);
    assert_eq!(e.message, "Cannot expire Source asset (no recipe to recover)");
    let e = expire_status(Status::Processing).unwrap_err();
    assert_eq!(e.error_type, ErrorType::General);
    assert_eq!(e.message, "Cannot expire asset in state Processing");
    let e = expire_status(Status::Nothing).unwrap_err();
    assert_eq!(e.message, "Cannot expire asset in state None");
}

#[test]
fn in_flight_assets_are_not_evicted() {
    for s in ALL {
        if cancellable(s) {
            assert!(!evict_on_failure(s), "{:?}", s);
        }
    }
    assert!(evict_on_failure(Status::Error));
    assert!(!evict_on_failure(Status::Ready));
}

#[test]
fn external_writes_are_finished() {
    for s in ALL {
        assert!(external_status(s, true).is_finished());
        assert!(external_status(s, false).is_finished());
    }
    assert_eq!(external_status(Status::Ready, true), Status::Override);
    assert_eq!(external_status(Status::Ready, false), Status::Source);
    assert_eq!(external_status(Status::Expired, true), Status::Expired);
    let w = plan_external_write(Status::Error, true);
    assert_eq!(w.status, Status::Error);
    assert!(w.store_empty && !w.versioned && !w.registers_version);
    let w = plan_external_write(Status::Nothing, false);
    assert_eq!(w.status, Status::Source);
    assert!(!w.store_empty && w.versioned && w.registers_version);
}

#[test]
fn any_status_read_differs_only_on_expired() {
    for s in ALL {
        for d in [true, false] {
            if s != Status::Expired {
                assert_eq!(poll(s, d, true), poll(s, d, false));
            }
        }
    }
    assert_eq!(poll(Status::Expired, true, false), Poll::Nothing);
    assert_eq!(poll(Status::Expired, true, true), Poll::Value);
    assert_eq!(poll(Status::Directory, false, false), Poll::MetadataOnly { dir: true });
    assert_eq!(poll(Status::Error, false, false), Poll::MetadataOnly { dir: false });
    assert_eq!(poll(Status::Ready, false, false), Poll::Nothing);
}

#[test]
fn finished_assets_are_never_pending() {
    for s in ALL {
        if s.is_finished() {
            assert_ne!(s.read_exposure(), ReadExposure::Pending, "{:?}", s);
        }
    }
    assert_eq!(Status::Processing.read_exposure(), ReadExposure::Pending);
}

#[test]
fn metadata_only_reads_have_no_binary() {
    for s in ALL {
        let meta = s.read_exposure() == ReadExposure::MetadataOnly;
        assert_eq!(meta, no_binary_reason(s) != NoBinary::Unexpected, "{:?}", s);
    }
    assert_eq!(no_binary_reason(Status::Error), NoBinary::Failed);
    assert_eq!(no_binary_reason(Status::Cancelled), NoBinary::Cancelled);
    assert_eq!(no_binary_reason(Status::Directory), NoBinary::Directory);
}

#[test]
fn waiting_readers_stop_at_the_end_of_the_job() {
    assert_eq!(wait_step(NotificationKind::JobFinished), WaitStep::NoData);
    assert_eq!(wait_step(NotificationKind::Expired), WaitStep::ExpiredWhileWaiting);
    assert_eq!(wait_step(NotificationKind::LogMessage), WaitStep::Continue);
}

#[test]
fn fast_track_needs_current_dependencies() {
    assert!(fast_track(Status::Ready, true, &vec![(1, Some(1)), (2, None)]));
    assert!(!fast_track(Status::Ready, true, &vec![(1, Some(2))]));
    assert!(!fast_track(Status::Ready, false, &vec![]));
    assert!(!fast_track(Status::Expired, true, &vec![]));
    assert!(fast_track(Status::Override, true, &vec![]));
}

#[test]
fn bytes_identifiers_are_trimmed_and_case_blind() {
    assert!(is_bytes_identifier("bytes"));
    assert!(is_bytes_identifier("  Binary\t"));
    assert!(is_bytes_identifier("BIN"));
    assert!(is_bytes_identifier("b"));
    assert!(!is_bytes_identifier("text"));
    assert!(!is_bytes_identifier(""));
    assert!(!is_bytes_identifier("   "));
    assert!(!is_bytes_identifier("by tes"));
}

#[test]
fn saves_are_always_recorded() {
    assert_eq!(persistence_outcome(&Ok(())), PersistenceStatus::Persisted);
    let ser = Error::new(ErrorType::SerializationError, "no".to_string());
    assert_eq!(persistence_outcome(&Err(ser.clone())), PersistenceStatus::NonSerializable);
    assert_eq!(classify_persistence_error(&ser), PersistenceStatus::NonSerializable);
    let other = Error::new(ErrorType::KeyWriteError, "disk".to_string());
    assert_eq!(persistence_outcome(&Err(other)), PersistenceStatus::NotPersisted);
    assert!(persistence_warns(PersistenceStatus::NotPersisted));
    assert!(persistence_warns(PersistenceStatus::NonSerializable));
    assert!(!persistence_warns(PersistenceStatus::Persisted));
    assert!(!persistence_warns(PersistenceStatus::Nothing));
}

#[test]
fn earlier_service_announces_the_end_of_the_job_last() {
    let msgs = vec![
        assets2::AssetServiceMessage::Cancel,
        assets2::AssetServiceMessage::JobFinished,
        assets2::AssetServiceMessage::ErrorOccurred(Error::general_error("e".to_string())),
    ];
    for m in &msgs {
        let step = assets2::service_step(m);
        assert!(step.stop);
        assert_eq!(step.notifications.last(), Some(&NotificationKind::JobFinished));
    }
    let step = assets2::service_step(&assets2::AssetServiceMessage::JobStarted);
    assert!(!step.stop);
    assert_eq!(step.status, Some(Status::Processing));
    let step = assets2::service_step(&msgs[2]);
    assert_eq!(step.status, Some(Status::Error));
    assert_eq!(step.notifications, vec![NotificationKind::ErrorOccurred, NotificationKind::JobFinished]);
}

#[test]
fn earliest_deadline_wins() {
    let mut s = ExpirationSchedule::new();
    assert_eq!(s.next_deadline(), None);
    s.track(1, 100);
    s.track(2, 50);
    s.track(1, 200);
    assert_eq!(s.next_deadline(), Some(50));
    s.track(1, 10);
    assert_eq!(s.next_deadline(), Some(10));
    s.untrack(1);
    assert_eq!(s.next_deadline(), Some(50));
}

#[test]
fn due_assets_fire_in_deadline_order() {
    let mut s = ExpirationSchedule::new();
    s.track(7, 30);
    s.track(8, 10);
    s.track(9, 99);
    s.track(10, 20);
    let fired = s.fire_due(30);
    assert_eq!(fired, vec![8, 10, 7]);
    assert_eq!(s.next_deadline(), Some(99));
    assert!(s.fire_due(50).is_empty());
    assert_eq!(s.fire_due(100), vec![9]);
    assert_eq!(s.next_deadline(), None);
}

#[test]
fn running_jobs_stay_within_capacity() {
    let mut b = JobBook::new(2);
    assert!(b.try_reserve_slot());
    assert!(b.try_reserve_slot());
    assert!(!b.try_reserve_slot());
    assert_eq!(b.running_count(), 2);
    b.release_slot();
    assert_eq!(b.running_count(), 1);
    assert!(b.try_reserve_slot());
    assert!(!b.try_reserve_slot());
}

#[test]
fn jobs_are_recorded_once_and_cleaned_when_finished() {
    let mut b = JobBook::new(1);
    b.enqueue(5);
    b.enqueue(6);
    b.enqueue(5);
    b.enqueue(7);
    assert_eq!(b.queued_jobs_count(), 3);
    let dropped = b.cleanup_completed(&vec![Status::Ready, Status::Processing, Status::Error]);
    assert_eq!(dropped, 2);
    assert_eq!(b.queued_jobs_count(), 1);
}

#[test]
fn local_dependencies_come_back_oldest_first() {
    let mut b = JobBook::new(1);
    b.push_local_dependency(1, 10);
    b.push_local_dependency(1, 11);
    b.push_local_dependency(2, 20);
    b.push_local_dependency(1, 10);
    b.push_local_dependency(1, 12);
    assert_eq!(b.pop_local_dependency(1), Some(10));
    assert_eq!(b.take_local_dependencies(1), vec![11, 12]);
    assert_eq!(b.pop_local_dependency(1), None);
    assert_eq!(b.pop_local_dependency(2), Some(20));
    assert_eq!(b.pop_local_dependency(2), None);
}

#[test]
fn abandoned_runs_can_be_claimed_again() {
    for s in [Status::Processing, Status::Dependencies] {
        let back = requeue_abandoned(s).unwrap();
        assert_eq!(back, Status::Submitted);
        assert_eq!(claim_for_run(back), Some(Status::Processing));
    }
    assert_eq!(requeue_abandoned(Status::Ready), None);
    assert_eq!(claim_for_run(Status::Ready), None);
    assert_eq!(claim_for_run(Status::Nothing), Some(Status::Processing));
}

#[test]
fn validation_level_and_registry_source() {
    assert_eq!(choose_level(None, 0), ValidationLevel::Parse);
    assert_eq!(choose_level(None, 3), ValidationLevel::Plan);
    assert_eq!(choose_level(Some(ValidationLevel::Parse), 3), ValidationLevel::Parse);
    assert_eq!(registry_source(true, 2, Some("x.yaml")), RegistrySource::Nothing);
    assert_eq!(registry_source(false, 2, Some("x.yaml")), RegistrySource::Files);
    assert_eq!(registry_source(false, 0, Some("x.yaml")), RegistrySource::Environment);
    assert_eq!(registry_source(false, 0, Some("")), RegistrySource::Committed);
    assert_eq!(registry_source(false, 0, None), RegistrySource::Committed);
}

#[test]
fn external_values_must_name_their_type() {
    assert!(check_required_metadata("text", "String").is_ok());
    let e = check_required_metadata("  ", "String").unwrap_err();
    assert_eq!(e.error_type, ErrorType::General);
    assert_eq!(e.message, "Metadata type_identifier must not be empty");
    let e = check_required_metadata("", "").unwrap_err();
    assert_eq!(e.message, "Metadata type_identifier must not be empty");
    let e = check_required_metadata("text", "\t\n").unwrap_err();
    assert_eq!(e.message, "Metadata type_name must not be empty");
    assert!(is_blank(""));
    assert!(is_blank(" \u{3000}"));
    assert!(!is_blank(" x "));
}

#[test]
fn external_values_are_checked_for_consistency() {
    assert!(consistency_warnings(Some("csv"), "csv", "text/csv", "text/csv").is_empty());
    assert!(consistency_warnings(None, "csv", "", "text/csv").is_empty());
    assert_eq!(
        consistency_warnings(Some("txt"), "csv", "text/plain", "text/csv"),
        vec![
            "Filename extension 'txt' differs from data_format 'csv'".to_string(),
            "media_type 'text/plain' differs from expected 'text/csv' for data_format 'csv'".to_string(),
        ]
    );
    assert_eq!(
        consistency_warnings(None, "json", "text/plain", "application/json"),
        vec!["media_type 'text/plain' differs from expected 'application/json' for data_format 'json'".to_string()]
    );
    assert_eq!(media_type_to_record("  ", "text/csv"), "text/csv");
    assert_eq!(media_type_to_record("text/plain", "text/csv"), "text/plain");
}

#[test]
fn service_loop_outcome_joins_the_run_result() {
    let r = combine_run_outcome(Ok(()), Ok(Ok(())));
    assert!(r.result.is_ok() && r.log_error.is_none());
    let loop_err = Error::new(ErrorType::ExecutionError, "loop".to_string());
    let r = combine_run_outcome(Ok(()), Ok(Err(loop_err.clone())));
    assert_eq!(r.result, Err(loop_err));
    let r = combine_run_outcome(Ok(()), Err("panicked".to_string()));
    let e = r.result.unwrap_err();
    assert_eq!(e.error_type, ErrorType::General);
    assert_eq!(e.message, "Failed to join process_service_messages task: panicked");
    assert!(r.log_error.is_none());
    let run_err = Error::general_error("run".to_string());
    let r = combine_run_outcome(Err(run_err.clone()), Err("panicked".to_string()));
    assert_eq!(r.result, Err(run_err));
    assert_eq!(r.log_error.as_deref(), Some("Failed to join process_service_messages task: panicked"));
}

#[test]
fn waiting_for_a_dependency() {
    match dependency_step(17, Status::Error, false) {
        DependencyStep::Fail(e) => {
            assert_eq!(e.error_type, ErrorType::General);
            assert_eq!(e.message, "Dependency asset 17 did not produce a value (status Error)");
        }
        other => panic!("unexpected {:?}", other),
    }
    match dependency_step(3, Status::Cancelled, true) {
        DependencyStep::Fail(e) => assert_eq!(e.message, "Dependency asset 3 did not produce a value (status Cancelled)"),
        other => panic!("unexpected {:?}", other),
    }
    match dependency_step(42, Status::Expired, false) {
        DependencyStep::Fail(e) => {
            assert_eq!(e.message, "Dependency asset 42 expired and was evicted before its value could be used")
        }
        other => panic!("unexpected {:?}", other),
    }
    assert!(matches!(dependency_step(1, Status::Expired, true), DependencyStep::Use { stale: true }));
    assert!(matches!(dependency_step(1, Status::Ready, true), DependencyStep::Use { stale: false }));
    assert!(matches!(dependency_step(1, Status::Directory, true), DependencyStep::Use { stale: false }));
    assert!(matches!(dependency_step(1, Status::Ready, false), DependencyStep::Wait));
    assert!(matches!(dependency_step(1, Status::Processing, true), DependencyStep::Wait));
    assert!(matches!(dependency_step(1, Status::Storing, false), DependencyStep::Wait));
}

#[test]
fn status_names_follow_debug() {
    for s in ALL {
        let expected = match s {
            Status::Nothing => "None".to_string(),
            other => format!("{:?}", other),
        };
        assert_eq!(s.name(), expected);
    }
}

#[test]
fn read_errors_name_the_asset() {
    let e = expired_read_error("-R/data.csv");
    assert_eq!(e.error_type, ErrorType::General);
    assert_eq!(
        e.message,
        "Asset -R/data.csv is expired; use get_any_status or get_binary_any_status to read retained data, or to_override to accept it"
    );
    let e = no_binary_error("q", Status::Cancelled, None);
    assert_eq!(e.message, "Asset q was cancelled; no binary representation");
    let e = no_binary_error("q", Status::Directory, None);
    assert_eq!(e.message, "Asset q is a directory; no binary representation");
    let e = no_binary_error("q", Status::Error, None);
    assert_eq!(e.error_type, ErrorType::General);
    assert_eq!(e.message, "Asset q failed; no binary representation");
    let own = Error::new(ErrorType::ExecutionError, "division by zero".to_string());
    assert_eq!(no_binary_error("q", Status::Error, Some(own.clone())), own);
    let e = no_binary_error("q", Status::Ready, None);
    assert_eq!(e.error_type, ErrorType::UnexpectedError);
    assert_eq!(
        e.message,
        "Asset q has status Ready, which has a binary representation; no_binary_error should not have been called"
    );
}

#[test]
fn waiting_readers_end_with_an_error_or_keep_waiting() {
    assert!(wait_error(WaitStep::Continue).is_none());
    let e = wait_error(WaitStep::NoData).unwrap();
    assert_eq!(e.error_type, ErrorType::UnexpectedError);
    assert_eq!(e.message, "Asset finished but no data available");
    let e = wait_error(WaitStep::ExpiredWhileWaiting).unwrap();
    assert_eq!(e.error_type, ErrorType::General);
    assert_eq!(e.message, "Asset expired while waiting for data");
    assert!(ends_cancel_wait(NotificationKind::JobFinished));
    assert!(ends_cancel_wait(NotificationKind::StatusChanged(Status::Cancelled)));
    assert!(!ends_cancel_wait(NotificationKind::StatusChanged(Status::Error)));
    assert!(!ends_cancel_wait(NotificationKind::LogMessage));
}

#[test]
fn dependency_versions_are_recorded_without_losing_known_ones() {
    assert_eq!(dependency_version(Some(5), Some(7)), 5);
    assert_eq!(dependency_version(None, Some(7)), 7);
    assert_eq!(dependency_version(None, None), 0);
    assert!(records_dependency(None, 0));
    assert!(records_dependency(Some(0), 3));
    assert!(records_dependency(Some(4), 3));
    assert!(!records_dependency(Some(4), 0));
}

#[test]
fn validator_input_source() {
    assert_eq!(input_source(true, true, 3).unwrap(), InputSource::Recipes);
    assert_eq!(input_source(false, true, 3).unwrap(), InputSource::QueryFile);
    assert_eq!(input_source(false, false, 1).unwrap(), InputSource::Queries);
    let e = input_source(false, false, 0).unwrap_err();
    assert_eq!(e.error_type, ErrorType::General);
    assert_eq!(e.message, "No input. Pass a query after `--`, or use --query-file or --recipes.");
}

#[test]
fn waiting_jobs_are_the_submitted_ones() {
    let mut b = JobBook::new(2);
    b.enqueue(1);
    b.enqueue(2);
    b.enqueue(3);
    assert_eq!(b.waiting_jobs_count(&vec![Status::Submitted, Status::Processing, Status::Submitted]), 2);
    assert_eq!(b.waiting_jobs_count(&vec![Status::Ready, Status::Processing, Status::Error]), 0);
}

#[test]
fn failed_saves_are_logged() {
    assert_eq!(
        persistence_warning(PersistenceStatus::NonSerializable, "-R/x", Some("cannot serialize")).as_deref(),
        Some("Persistence status NonSerializable for -R/x: cannot serialize")
    );
    assert_eq!(
        persistence_warning(PersistenceStatus::NotPersisted, "q", None).as_deref(),
        Some("Persistence status NotPersisted for q")
    );
    assert!(persistence_warning(PersistenceStatus::Persisted, "q", None).is_none());
    assert!(persistence_warning(PersistenceStatus::Nothing, "q", Some("e")).is_none());
}

#[test]
fn waiting_for_dependencies_and_coming_back() {
    for s in ALL {
        let waiting = enter_dependencies(s);
        if s.is_finished() {
            assert_eq!(waiting, s);
            assert_eq!(resume_after_dependencies(waiting), s);
            assert_eq!(resubmit_after_dependencies(waiting), s);
        } else {
            assert_eq!(waiting, Status::Dependencies);
            assert_eq!(resume_after_dependencies(waiting), Status::Processing);
            assert_eq!(resubmit_after_dependencies(waiting), Status::Submitted);
        }
    }
    assert_eq!(resume_after_dependencies(Status::Processing), Status::Processing);
}
