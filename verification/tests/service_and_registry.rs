use liquers_core::asset_maps::AssetMaps;
use liquers_core::asset_value::HeldValue;
use liquers_core::assets::{
    finish_run, notifications, status_after, AssetRecord, AssetServiceMessage, ExpirationSchedule,
    LogEntry, LogEntryKind, NotificationKind, PersistenceStatus, ProgressEntry, ServiceAction,
    Status,
};
use liquers_core::command_metadata::{
    ArgumentInfo, CommandKey, CommandMetadata, CommandRegistryIssue,
};
use liquers_core::commands::CommandRegistry;
use liquers_core::declaration::validate;
use liquers_core::error::{Error, ErrorType};

#[test]
fn issue_constructors_keep_each_field() {
    let w = CommandRegistryIssue::warning("r", "ns1", "cmd", "m".to_string());
    assert_eq!((w.realm.as_str(), w.namespace.as_str(), w.name.as_str()), ("r", "ns1", "cmd"));
    assert!(!w.is_error);
    assert_eq!(w.message, "m");
    let e = CommandRegistryIssue::error("r", "ns1", "cmd", "m".to_string());
    assert_eq!((e.realm.as_str(), e.namespace.as_str(), e.name.as_str()), ("r", "ns1", "cmd"));
    assert!(e.is_error);
}

#[test]
fn check_issues_identify_the_command() {
    let mut m = CommandMetadata::new("ns");
    m.realm = "realm".to_string();
    m.namespace = "space".to_string();
    let issues = m.check();
    assert_eq!(issues.len(), 1);
    assert_eq!(issues[0].realm, "realm");
    assert_eq!(issues[0].namespace, "space");
    assert_eq!(issues[0].name, "ns");
    assert_eq!(issues[0].message, "Command name 'ns' is reserved");
}

#[test]
fn validation_names_the_misplaced_multiple_argument() {
    let mut m = CommandMetadata::new("f");
    let mut xs = ArgumentInfo::any_argument("xs");
    xs.multiple = true;
    m.arguments = vec![xs, ArgumentInfo::any_argument("y")];
    let e = validate(&m).unwrap_err();
    assert_eq!(e.error_type, ErrorType::ParameterError);
    assert_eq!(
        e.message,
        "command \"f\": the `multiple` argument \"xs\" must be the last argument, but \"y\" follows it"
    );
}

#[test]
fn validation_names_the_argument_without_a_name() {
    let mut m = CommandMetadata::new("f");
    m.arguments = vec![ArgumentInfo::any_argument("a"), ArgumentInfo::any_argument("")];
    let e = validate(&m).unwrap_err();
    assert_eq!(e.message, "command \"f\": argument 1 must have a non-empty `name`");
    let m = CommandMetadata::new("");
    assert_eq!(
        validate(&m).unwrap_err().message,
        "a command declaration must have a non-empty `name`"
    );
}

#[test]
fn an_asset_tracked_twice_fires_once() {
    let mut s = ExpirationSchedule::new();
    s.track(7, 500);
    s.track(7, 100);
    assert_eq!(s.fire_due(200), vec![7]);
    assert!(s.fire_due(1000).is_empty());
}

#[test]
fn status_after_each_action() {
    assert_eq!(status_after(Status::Processing, ServiceAction::Cancel), Status::Cancelled);
    assert_eq!(status_after(Status::Processing, ServiceAction::Fail), Status::Error);
    assert_eq!(
        status_after(Status::Recipe, ServiceAction::SetStatus(Status::Submitted)),
        Status::Submitted
    );
    assert_eq!(status_after(Status::Ready, ServiceAction::AppendLog), Status::Ready);
    assert_eq!(status_after(Status::Ready, ServiceAction::Ignore), Status::Ready);
}

#[test]
fn record_applies_each_action() {
    let mut r = AssetRecord::new(Status::Submitted);
    let entry = LogEntry { kind: LogEntryKind::Info, message: "hello".to_string() };
    r.apply(ServiceAction::AppendLog, AssetServiceMessage::LogMessage(entry.clone()));
    assert_eq!(r.log, vec![entry]);
    let p = ProgressEntry { message: "half".to_string(), done: 1, total: 2, finished: false };
    r.apply(ServiceAction::PrimaryProgress, AssetServiceMessage::UpdatePrimaryProgress(p.clone()));
    assert_eq!(r.primary_progress, Some(p));
    r.apply(ServiceAction::SetStatus(Status::Processing), AssetServiceMessage::JobStarted);
    assert_eq!(r.status, Status::Processing);
    r.apply(ServiceAction::Cancel, AssetServiceMessage::Cancel);
    assert_eq!(r.status, Status::Cancelled);
    assert_eq!(r.primary_progress, Some(ProgressEntry::done("Cancelled".to_string())));
    let mut f = AssetRecord::new(Status::Processing);
    f.apply(ServiceAction::Fail, AssetServiceMessage::ErrorOccurred(Error::general_error("boom".to_string())));
    assert_eq!(f.status, Status::Error);
    assert_eq!(f.error.as_ref().map(|e| e.message.as_str()), Some("boom"));
}

#[test]
fn nonvolatile_resource_asset_is_created_once() {
    let mut maps = AssetMaps::new();
    assert_eq!(maps.get_nonvolatile_resource_asset("a.txt"), 1000);
    assert_eq!(maps.get_nonvolatile_resource_asset("a.txt"), 1000);
    assert_eq!(maps.lookup_key_asset("a.txt"), Some(1000));
    assert_eq!(maps.get_nonvolatile_resource_asset("b.txt"), 1001);
}

#[test]
fn failure_announces_the_end_of_the_job() {
    assert_eq!(
        notifications(ServiceAction::Fail),
        vec![NotificationKind::ErrorOccurred, NotificationKind::JobFinished]
    );
    let mut r = AssetRecord::new(Status::Processing);
    r.apply(ServiceAction::Fail, AssetServiceMessage::ErrorOccurred(Error::general_error("x".to_string())));
    assert_eq!(r.primary_progress, Some(ProgressEntry::done("Error".to_string())));
}

#[test]
fn finishing_a_run() {
    let ok = finish_run(Ok(()), Ok(Ok(())), Status::Processing, true, false, false, false);
    assert!(ok.result.is_ok());
    assert_eq!(ok.status, Status::Ready);
    assert!(!ok.drop_value);
    assert_eq!(ok.notifications, vec![NotificationKind::JobFinished]);

    let failed = finish_run(Err(Error::general_error("boom".to_string())), Ok(Ok(())), Status::Processing, true, false, false, false);
    assert_eq!(failed.status, Status::Error);
    assert!(failed.drop_value && failed.record_error);
    assert_eq!(
        failed.notifications,
        vec![NotificationKind::ErrorOccurred, NotificationKind::JobFinished, NotificationKind::JobFinished]
    );

    let again = finish_run(Err(Error::general_error("boom".to_string())), Ok(Ok(())), Status::Error, false, false, false, false);
    assert!(!again.record_error);
    assert_eq!(again.notifications, vec![NotificationKind::JobFinished]);

    let stale = finish_run(Ok(()), Ok(Ok(())), Status::Processing, true, false, false, true);
    assert_eq!(stale.status, Status::Expired);

    let join = finish_run(Ok(()), Err("gone".to_string()), Status::Processing, true, false, false, false);
    assert_eq!(join.status, Status::Error);
    assert_eq!(join.result.unwrap_err().message, "Failed to join process_service_messages task: gone");
}

#[test]
fn equal_deadlines_fire_smallest_id_first() {
    let mut s = ExpirationSchedule::new();
    s.track(9, 100);
    s.track(3, 100);
    s.track(5, 50);
    assert_eq!(s.fire_due(100), vec![5, 3, 9]);
}

#[test]
fn setting_a_value_registers_a_new_asset() {
    let mut maps = AssetMaps::new();
    let old = maps.get_nonvolatile_resource_asset("a.txt");
    let (previous, outcome) = maps.prepare_set_state("a.txt", Status::Ready, false, "text", "String");
    assert_eq!(previous, Some(old));
    let (id, plan) = outcome.unwrap();
    assert_ne!(id, old);
    assert_eq!(plan.status, Status::Source);
    assert_eq!(maps.lookup_key_asset("a.txt"), Some(id));

    let (previous, outcome) = maps.prepare_set_state("a.txt", Status::Ready, true, " ", "String");
    assert_eq!(previous, Some(id));
    assert_eq!(outcome.unwrap_err().message, "Metadata type_identifier must not be empty");
    assert_eq!(maps.lookup_key_asset("a.txt"), None);
}

#[test]
fn setting_bytes_leaves_no_asset() {
    let mut maps = AssetMaps::new();
    let old = maps.get_nonvolatile_resource_asset("b.bin");
    let (previous, outcome) = maps.prepare_set_binary("b.bin", Status::Error, true, "bytes", "Vec<u8>");
    assert_eq!(previous, Some(old));
    let plan = outcome.unwrap();
    assert_eq!(plan.status, Status::Error);
    assert!(plan.store_empty);
    assert_eq!(maps.lookup_key_asset("b.bin"), None);
}

#[test]
fn registered_command_gets_metadata_under_its_key() {
    let mut reg: CommandRegistry<fn(i64) -> i64, ()> = CommandRegistry::new();
    let key = CommandKey::new_name("hello_world");
    reg.register_command(key.clone(), |x| x);
    let m = reg.command_metadata_registry.get(key.clone()).expect("metadata");
    assert_eq!(m.name, "hello_world");
    assert_eq!(m.label, "hello world");
    assert!(reg.unregister(key.clone()));
    assert!(!reg.unregister(key));
}

#[test]
fn held_value_fast_track_and_evaluation() {
    let mut h: HeldValue<String> = HeldValue::new();
    assert!(h.try_fast_track_with(Status::Ready, b"hi".to_vec(), Ok("hi".to_string()), &vec![(1, Some(1))]));
    assert_eq!(h.status, Status::Ready);
    assert_eq!(h.data.as_deref(), Some("hi"));
    assert!(!h.try_fast_track_with(Status::Ready, b"hi".to_vec(), Err(Error::general_error("corrupt".to_string())), &vec![]));
    assert_eq!(h.status, Status::Nothing);
    assert!(h.data.is_none() && h.binary.is_none());
    assert!(!h.try_fast_track_with(Status::Ready, b"hi".to_vec(), Ok("hi".to_string()), &vec![(1, Some(2))]));
    assert!(h.data.is_none());

    let r = h.store_evaluation("v".to_string(), Status::Ready, false, Err(Error::general_error("disk".to_string())), "a.txt");
    assert!(r.is_ok());
    assert_eq!(h.data.as_deref(), Some("v"));
    assert_eq!(h.persistence, PersistenceStatus::NotPersisted);
    assert_eq!(h.warnings.len(), 1);
    assert!(h.warnings[0].contains("Persistence status NotPersisted"), "{}", h.warnings[0]);
    assert!(h.warnings[0].contains("disk"));

    let bytes = h.binary_any_status(|v: &String| Ok(v.as_bytes().to_vec())).unwrap();
    assert_eq!(bytes, Some(b"v".to_vec()));
    assert_eq!(h.binary, Some(b"v".to_vec()));

    let e = h.fail_evaluation(Error::general_error("bad".to_string()));
    assert!(e.is_err());
    assert_eq!(h.status, Status::Error);
    assert_eq!(h.binary_any_status(|v: &String| Ok(v.as_bytes().to_vec())).unwrap(), None);
}

#[test]
fn white_space_is_the_unicode_property() {
    for c in ['\t', '\n', '\u{b}', '\u{c}', '\r', ' ', '\u{85}', '\u{a0}', '\u{1680}', '\u{2000}', '\u{200a}', '\u{2028}', '\u{2029}', '\u{202f}', '\u{205f}', '\u{3000}'] {
        assert!(liquers_core::text::is_whitespace(c), "{:?}", c);
        assert_eq!(liquers_core::text::is_whitespace(c), c.is_whitespace());
    }
    for c in ['a', '\u{8}', '\u{e}', '\u{200b}', '\u{feff}', '\u{180e}'] {
        assert_eq!(liquers_core::text::is_whitespace(c), c.is_whitespace(), "{:?}", c);
    }
}

#[test]
fn starting_at_once_gives_the_slot_back_when_claimed_elsewhere() {
    let mut book = liquers_core::job_queue::JobBook::new(1);
    assert_eq!(
        book.start_immediately(1, Status::Processing),
        liquers_core::job_queue::StartNow::AlreadyClaimed
    );
    assert_eq!(book.running_count(), 0);
    assert_eq!(
        book.start_immediately(2, Status::Submitted),
        liquers_core::job_queue::StartNow::Started(Status::Processing)
    );
    assert_eq!(book.running_count(), 1);
    assert_eq!(
        book.start_immediately(3, Status::Submitted),
        liquers_core::job_queue::StartNow::NoSlot
    );
    assert_eq!(book.queued_jobs_count(), 3);
}
