use chrono::{DateTime, Utc};
use mutex_agent::thread_id::ThreadId;
use mutex_agent::thread_metadata::{
    AgentThreadPathList, PathList, RemoteConnectionOptions, SerializedPathList, ThreadLandingState,
    ThreadMetadata, ThreadMetadataError, WorktreePaths, DEFAULT_THREAD_TITLE,
};
use mutex_agent::thread_registry::{
    read_thread_message, PersistedThreadMetadata, RegistryError, StoredThread, StoredThreads,
    ThreadMessageError, ThreadRegistry, ThreadRegistryEvent,
};
use mutex_agent::timestamp::Timestamp;
use std::convert::Infallible;

fn timestamp(datetime: DateTime<Utc>) -> Timestamp {
    Timestamp::from_parts(datetime.timestamp(), datetime.timestamp_subsec_nanos())
        .expect("valid timestamp")
}

fn test_timestamp() -> Timestamp {
    timestamp(
        DateTime::parse_from_rfc3339("2026-01-02T03:04:05.123Z")
            .expect("valid timestamp")
            .with_timezone(&Utc),
    )
}

fn path_list(paths: &[&str]) -> PathList {
    let ordered_paths: Vec<String> = paths.iter().map(|path| path.to_string()).collect();
    let mut sorted = ordered_paths.clone();
    sorted.sort();
    PathList {
        serialized: SerializedPathList {
            paths: sorted.join("\n"),
            order: "0,1".to_string(),
        },
        paths: sorted,
        ordered_paths,
    }
}

fn worktree_paths() -> WorktreePaths {
    WorktreePaths {
        folder_paths: path_list(&["/project/worktree-a", "/project/worktree-b"]),
        main_worktree_paths: path_list(&["/project/worktree-a", "/project/worktree-b"]),
    }
}

fn test_metadata() -> ThreadMetadata {
    ThreadMetadata {
        thread_id: ThreadId::new(),
        session_id: Some("session-1".to_string()),
        agent_id: "test-agent".to_string(),
        title: Some("Generated title".to_string()),
        title_override: Some("User title".to_string()),
        parallel_attempt_group: Some("attempt-group".to_string()),
        landed: Some(ThreadLandingState::Merged),
        updated_at: test_timestamp(),
        created_at: Some(test_timestamp()),
        interacted_at: Some(test_timestamp()),
        worktree_paths: worktree_paths(),
        remote_connection: None,
        archived: false,
        server_hosted: false,
    }
}

fn updated_at(millis: i64) -> ThreadMetadata {
    ThreadMetadata {
        updated_at: Timestamp::from_timestamp_millis(millis).expect("valid timestamp"),
        ..test_metadata()
    }
}

fn nothing_stored() -> StoredThreads<Infallible> {
    StoredThreads::Missing
}

fn stored(records: Vec<PersistedThreadMetadata>) -> StoredThreads<Infallible> {
    StoredThreads::Records(
        records
            .into_iter()
            .map(|record| StoredThread {
                record,
                worktree_paths: Some(worktree_paths()),
                options_read: Ok(()),
            })
            .collect(),
    )
}

#[test]
fn test_agent_thread_metadata_proto_round_trip() {
    let metadata = test_metadata();
    let proto = metadata.to_proto().expect("metadata to proto");
    let decoded = ThreadMetadata::from_proto(proto, Some(worktree_paths()), Ok(()))
        .expect("metadata from proto");

    assert_eq!(decoded, metadata);
}

#[test]
fn test_agent_thread_metadata_proto_tolerates_unknown_landing_state() {
    let metadata = test_metadata();
    let mut proto = metadata.to_proto().expect("metadata to proto");
    proto.landed = Some("unknown-state".to_string());
    let decoded = ThreadMetadata::from_proto(proto, Some(worktree_paths()), Ok(()))
        .expect("metadata from proto");

    assert_eq!(decoded.landed, None);
}

#[test]
fn test_thread_registry_upsert_list_remove() {
    let mut registry = ThreadRegistry::local(nothing_stored());
    let metadata = test_metadata();
    let thread_id = metadata.thread_id;

    let records = registry
        .upsert(metadata.clone(), nothing_stored())
        .expect("upsert metadata")
        .expect("a local registry is stored");
    assert_eq!(registry.list(), vec![metadata]);

    let records = registry
        .remove(thread_id, stored(records))
        .expect("remove metadata")
        .expect("a local registry is stored");
    assert!(records.is_empty());
    assert!(registry.list().is_empty());
}

#[test]
fn test_thread_registry_persists_across_recreation() {
    let metadata = test_metadata();
    let mut registry = ThreadRegistry::local(nothing_stored());
    let records = registry
        .upsert(metadata.clone(), nothing_stored())
        .expect("upsert metadata")
        .expect("a local registry is stored");

    let list = ThreadRegistry::local(stored(records)).list();
    assert_eq!(list, vec![metadata]);
}

#[test]
fn test_thread_registry_tolerates_unknown_landing_state() {
    let metadata = test_metadata();
    let mut registry = ThreadRegistry::local(nothing_stored());
    let mut records = registry
        .upsert(metadata, nothing_stored())
        .expect("upsert metadata")
        .expect("a local registry is stored");
    assert_eq!(records[0].landed, Some("merged".to_string()));
    records[0].landed = Some("unknown-state".to_string());

    let list = ThreadRegistry::local(stored(records)).list();
    assert_eq!(list.len(), 1);
    assert_eq!(list[0].landed, None);
}

#[test]
fn thread_ids_are_written_and_read() {
    let id = ThreadId {
        bits: 0x67e5504410b1426f9247bb680e5fe0c8,
    };
    assert_eq!(id.to_key_string(), "67e55044-10b1-426f-9247-bb680e5fe0c8");
    for text in [
        "67e55044-10b1-426f-9247-bb680e5fe0c8",
        "67E55044-10B1-426F-9247-BB680E5FE0C8",
        "67e5504410b1426f9247bb680e5fe0c8",
        "{67e55044-10b1-426f-9247-bb680e5fe0c8}",
        "Urn:Uuid:67e55044-10b1-426f-9247-bb680e5fe0c8",
    ] {
        assert_eq!(ThreadId::parse(text), Ok(id));
        assert_eq!(text.parse::<ThreadId>(), Ok(id));
    }
    for text in [
        "",
        "not-an-id",
        "67e55044-10b1-426f-9247-bb680e5fe0cg",
        "67e55044x10b1-426f-9247-bb680e5fe0c8",
        "{67e55044-10b1-426f-9247-bb680e5fe0c8",
        "urn_uuid:67e55044-10b1-426f-9247-bb680e5fe0c8",
        "67e5504410b1426f9247bb680e5fe0é",
    ] {
        assert!(ThreadId::parse(text).is_err());
        assert!(text.parse::<ThreadId>().is_err());
    }
    assert_eq!(
        ThreadId { bits: 0 }.to_key_string(),
        "00000000-0000-0000-0000-000000000000"
    );
}

#[test]
fn thread_ids_stand_for_uuids() {
    let uuid = uuid::Uuid::from_u128(0x0102030405060708090a0b0c0d0e0f10);
    let id = ThreadId::from_uuid(uuid);
    assert_eq!(id.bits, 0x0102030405060708090a0b0c0d0e0f10);
    assert_eq!(id.as_uuid(), uuid);

    let new = ThreadId::new();
    assert_eq!(new.as_uuid().get_version_num(), 4);
    assert_eq!((new.bits >> 62) & 3, 2);
    assert_ne!(new, ThreadId::new());
    assert_eq!(ThreadId::parse(&new.to_key_string()), Ok(new));
}

#[test]
fn timestamps_keep_milliseconds() {
    let at = Timestamp::from_timestamp_millis(947638923004).expect("valid timestamp");
    assert_eq!(at.seconds(), 947638923);
    assert_eq!(at.nanos(), 4_000_000);
    assert_eq!(at.timestamp_millis(), 947638923004);

    let before = Timestamp::from_timestamp_millis(-1).expect("valid timestamp");
    assert_eq!(before.seconds(), -1);
    assert_eq!(before.nanos(), 999_000_000);
    assert_eq!(before.timestamp_millis(), -1);

    let fine = Timestamp::from_parts(5, 123_456_789).expect("valid timestamp");
    assert_eq!(fine.timestamp_millis(), 5123);
}

#[test]
fn timestamps_end_where_dates_end() {
    for millis in [-8334601228800000, 8210266876799999, 0] {
        let at = Timestamp::from_timestamp_millis(millis).expect("valid timestamp");
        assert_eq!(at.timestamp_millis(), millis);
    }
    for millis in [-8334601228800001, 8210266876800000, i64::MIN, i64::MAX] {
        assert_eq!(Timestamp::from_timestamp_millis(millis), None);
    }
    assert_eq!(
        DateTime::<Utc>::MIN_UTC.timestamp_millis(),
        -8334601228800000
    );
    assert_eq!(DateTime::<Utc>::MAX_UTC.timestamp(), 8210266876799);
    assert_eq!(Timestamp::from_parts(0, 2_000_000_000), None);
    assert_eq!(Timestamp::from_parts(8210266876800, 0), None);
    for seconds in [59, 58, 0, -1, -2, -61, -62, 119, -8334601228800, 8210266876799] {
        for nanos in [0, 999_999_999, 1_000_000_000, 1_999_999_999, 2_000_000_000] {
            assert_eq!(
                Timestamp::from_parts(seconds, nanos).is_some(),
                DateTime::<Utc>::from_timestamp(seconds, nanos).is_some(),
                "{seconds} {nanos}"
            );
        }
    }
    assert!(Timestamp::from_parts(-1, 1_500_000_000).is_some());
    assert_eq!(Timestamp::from_parts(0, 1_500_000_000), None);
}

#[test]
fn timestamps_are_ordered() {
    let early = Timestamp::from_parts(1, 5).expect("valid timestamp");
    let late = Timestamp::from_parts(1, 6).expect("valid timestamp");
    let later = Timestamp::from_parts(2, 0).expect("valid timestamp");
    assert!(late.is_after(&early));
    assert!(later.is_after(&late));
    assert!(!early.is_after(&late));
    assert!(!early.is_after(&early));
}

#[test]
fn landing_states_are_words() {
    for state in [ThreadLandingState::Merged, ThreadLandingState::PullRequested] {
        assert_eq!(
            ThreadLandingState::from_db_value(state.as_db_value()),
            Some(state)
        );
    }
    assert_eq!(ThreadLandingState::Merged.as_db_value(), "merged");
    assert_eq!(
        ThreadLandingState::PullRequested.as_db_value(),
        "pull_requested"
    );
    assert_eq!(ThreadLandingState::from_db_value("Merged"), None);
    assert_eq!(ThreadLandingState::from_db_value(""), None);
}

#[test]
fn titles() {
    let mut metadata = test_metadata();
    assert_eq!(metadata.display_title(), "User title");
    metadata.title_override = None;
    assert_eq!(metadata.display_title(), "Generated title");
    assert_eq!(metadata.title(), Some("Generated title".to_string()));
    metadata.title = None;
    assert_eq!(metadata.title(), None);
    assert_eq!(metadata.display_title(), DEFAULT_THREAD_TITLE);
    assert_eq!(metadata.display_title(), "New Agent Thread");
    assert!(!metadata.is_draft());
    metadata.session_id = None;
    assert!(metadata.is_draft());
}

#[test]
fn folders() {
    let metadata = test_metadata();
    assert!(metadata.references_folder_path("/project/worktree-b"));
    for path in [
        "/project/worktree-b/",
        "/project//worktree-b",
        "/project/./worktree-b/.",
        "//project/worktree-b//",
    ] {
        assert!(metadata.references_folder_path(path));
    }
    for path in [
        "/project",
        "project/worktree-b",
        "./project/worktree-b",
        "/project/worktree-b/..",
        "/project/../project/worktree-b",
        "",
    ] {
        assert!(!metadata.references_folder_path(path));
    }
    assert_eq!(metadata.folder_paths().paths.len(), 2);
    assert_eq!(
        metadata.main_worktree_paths().ordered_paths[0],
        "/project/worktree-a"
    );
}

#[test]
fn paths_are_compared_by_their_components() {
    let paths = [
        "", ".", "/", "//", "/.", "./", "a", "./a", "a/", "a/.", "a/b", "a//b", "a/./b", "/a",
        "/a/", "//a", "/./a", "..", "../a", ".a", "a.", "a/..", "...", "./.", "é/ü", "é//ü/",
    ];
    for a in paths {
        let mut metadata = test_metadata();
        metadata.worktree_paths.folder_paths.paths = vec![a.to_string()];
        for b in paths {
            assert_eq!(
                metadata.references_folder_path(b),
                std::path::Path::new(a) == std::path::Path::new(b),
                "{a} {b}"
            );
        }
    }
}

#[test]
fn a_thread_that_comes_and_goes_leaves_no_trace() {
    let mut registry = ThreadRegistry::remote();
    let metadata = test_metadata();
    let other = ThreadMetadata {
        thread_id: ThreadId { bits: 77 },
        ..test_metadata()
    };
    registry.upsert(other, nothing_stored()).expect("upserted");
    let before = registry.list();
    registry
        .upsert(metadata.clone(), nothing_stored())
        .expect("upserted");
    assert_eq!(registry.list().len(), 2);
    registry
        .remove(metadata.thread_id, nothing_stored())
        .expect("removed");
    assert_eq!(registry.list(), before);
}

#[test]
fn messages_hold_the_metadata() {
    let mut metadata = test_metadata();
    metadata.thread_id = ThreadId { bits: 1 };
    metadata.remote_connection = Some(RemoteConnectionOptions {
        options: serde_json::from_str("{\"host\": \"h\"}").expect("valid JSON"),
    });
    let proto = metadata.to_proto().expect("metadata to proto");
    assert_eq!(proto.thread_id, "00000000-0000-0000-0000-000000000001");
    assert_eq!(proto.session_id, Some("session-1".to_string()));
    assert_eq!(proto.landed, Some("merged".to_string()));
    assert_eq!(proto.updated_at_millis, 1767323045123);
    assert_eq!(proto.created_at_millis, Some(1767323045123));
    assert_eq!(
        proto.folder_paths,
        Some(AgentThreadPathList {
            paths: "/project/worktree-a\n/project/worktree-b".to_string(),
            order: "0,1".to_string(),
        })
    );
    assert_eq!(
        proto.remote_connection_json,
        Some("{\"host\":\"h\"}".to_string())
    );
    let decoded = ThreadMetadata::from_proto(proto, Some(worktree_paths()), Ok(()))
        .expect("metadata from proto");
    assert_eq!(decoded, metadata);
}

#[test]
fn empty_texts_and_paths_that_do_not_fit_are_dropped() {
    let mut proto = test_metadata().to_proto().expect("metadata to proto");
    proto.title = Some(String::new());
    proto.title_override = Some(String::new());
    proto.parallel_attempt_group = Some(String::new());
    let decoded = ThreadMetadata::from_proto(proto, None, Ok(())).expect("metadata from proto");
    assert_eq!(decoded.title, None);
    assert_eq!(decoded.title_override, None);
    assert_eq!(decoded.parallel_attempt_group, None);
    assert_eq!(decoded.worktree_paths, WorktreePaths::default());
}

#[test]
fn messages_are_refused_for_the_first_fault() {
    let mut proto = test_metadata().to_proto().expect("metadata to proto");
    proto.interacted_at_millis = Some(i64::MAX);
    let message = |proto| {
        ThreadMetadata::from_proto(proto, None, Ok(()))
            .err()
            .map(|error: ThreadMetadataError| error.message())
    };
    let copy = |proto: &mutex_agent::thread_metadata::AgentThreadMetadata| {
        PersistedThreadMetadata {
            thread_id: proto.thread_id.clone(),
            session_id: proto.session_id.clone(),
            agent_id: proto.agent_id.clone(),
            title: proto.title.clone(),
            title_override: proto.title_override.clone(),
            parallel_attempt_group: proto.parallel_attempt_group.clone(),
            landed: proto.landed.clone(),
            updated_at_millis: proto.updated_at_millis,
            created_at_millis: proto.created_at_millis,
            interacted_at_millis: proto.interacted_at_millis,
            folder_paths: SerializedPathList {
                paths: String::new(),
                order: String::new(),
            },
            main_worktree_paths: SerializedPathList {
                paths: String::new(),
                order: String::new(),
            },
            remote_connection_json: proto.remote_connection_json.clone(),
            archived: proto.archived,
        }
        .into_message()
    };
    assert_eq!(message(copy(&proto)), Some("invalid interacted_at timestamp"));
    proto.created_at_millis = Some(i64::MIN);
    assert_eq!(message(copy(&proto)), Some("invalid created_at timestamp"));
    proto.updated_at_millis = i64::MAX;
    assert_eq!(message(copy(&proto)), Some("invalid updated_at timestamp"));
    proto.thread_id = "nonsense".to_string();
    assert_eq!(message(copy(&proto)), Some("invalid thread id"));
    proto.remote_connection_json = Some("{".to_string());
    assert_eq!(
        message(copy(&proto)),
        Some("deserialize thread metadata remote connection")
    );
}

#[test]
fn connections_that_are_no_options_are_refused() {
    let not_options = || serde_json::from_str::<u8>("{}").map(|_| ());
    let mut proto = test_metadata().to_proto().expect("metadata to proto");
    proto.remote_connection_json = None;
    assert!(ThreadMetadata::from_proto(proto, None, not_options()).is_ok());
    let mut proto = test_metadata().to_proto().expect("metadata to proto");
    proto.remote_connection_json = Some("{}".to_string());
    let error = ThreadMetadata::from_proto(proto, None, not_options()).expect_err("no options");
    assert_eq!(
        error.message(),
        "deserialize thread metadata remote connection"
    );
    let cause = not_options().expect_err("no number").to_string();
    assert!(matches!(
        error,
        ThreadMetadataError::DeserializeRemoteConnection(held) if held.to_string() == cause
    ));

    let mut metadata = test_metadata();
    metadata.remote_connection = Some(RemoteConnectionOptions {
        options: serde_json::from_str("{}").expect("JSON"),
    });
    let record = PersistedThreadMetadata::from_metadata(&metadata).expect("record");
    let mut registry = ThreadRegistry::local(nothing_stored());
    let broken: StoredThreads<Infallible> = StoredThreads::Records(vec![StoredThread {
        record,
        worktree_paths: None,
        options_read: not_options(),
    }]);
    let refused = registry.upsert(test_metadata(), broken).expect_err("no options");
    assert!(matches!(
        refused,
        RegistryError::Metadata(ThreadMetadataError::DeserializeRemoteConnection(held))
            if held.to_string() == cause
    ));
}

#[test]
fn records_stand_for_messages() {
    let metadata = test_metadata();
    let record = PersistedThreadMetadata::from_metadata(&metadata).expect("record");
    assert_eq!(
        record.folder_paths.paths,
        "/project/worktree-a\n/project/worktree-b"
    );
    assert_eq!(record.into_message(), metadata.to_proto().expect("message"));

    let mut proto = metadata.to_proto().expect("message");
    proto.folder_paths = None;
    let record = PersistedThreadMetadata::from_message(proto);
    assert_eq!(record.folder_paths.paths, "");
    assert_eq!(record.folder_paths.order, "");
}

#[test]
fn the_newest_thread_is_listed_first() {
    let mut registry = ThreadRegistry::remote();
    for millis in [20, 50, 10, 50, 40] {
        let records = registry
            .upsert(updated_at(millis), nothing_stored())
            .expect("upsert metadata");
        assert!(records.is_none());
    }
    let millis: Vec<i64> = registry
        .list()
        .iter()
        .map(|thread| thread.updated_at.timestamp_millis())
        .collect();
    assert_eq!(millis, vec![50, 50, 40, 20, 10]);
}

#[test]
fn upsert_replaces_the_thread_with_the_same_id() {
    let mut registry = ThreadRegistry::remote();
    let first = updated_at(1);
    let mut second = updated_at(2);
    second.thread_id = first.thread_id;
    let other = updated_at(3);
    for thread in [&first, &other, &second] {
        registry
            .upsert(thread.clone(), nothing_stored())
            .expect("upsert metadata");
    }
    assert_eq!(registry.list(), vec![other.clone(), second.clone()]);
    registry
        .remove(ThreadId { bits: 7 }, nothing_stored())
        .expect("remove metadata");
    assert_eq!(registry.list().len(), 2);
    registry
        .remove(second.thread_id, nothing_stored())
        .expect("remove metadata");
    assert_eq!(registry.list(), vec![other]);
}

#[test]
fn a_store_that_cannot_be_read_stops_changes() {
    let mut registry = ThreadRegistry::local(StoredThreads::Unreadable("locked"));
    assert!(registry.list().is_empty());
    let res = registry.upsert(test_metadata(), StoredThreads::Unreadable("locked"));
    assert!(matches!(res, Err(RegistryError::Storage("locked"))));
    assert!(registry.list().is_empty());

    let mut record = PersistedThreadMetadata::from_metadata(&test_metadata()).expect("record");
    record.updated_at_millis = i64::MAX;
    let res = registry.remove(ThreadId { bits: 7 }, stored(vec![record]));
    assert!(matches!(
        res,
        Err(RegistryError::Metadata(ThreadMetadataError::InvalidUpdatedAt))
    ));
}

#[test]
fn a_changed_store_is_read_before_each_change() {
    let mut registry = ThreadRegistry::local(nothing_stored());
    let elsewhere = updated_at(5);
    let record = PersistedThreadMetadata::from_metadata(&elsewhere).expect("record");
    let here = updated_at(6);
    let records = registry
        .upsert(here.clone(), stored(vec![record]))
        .expect("upsert metadata")
        .expect("a local registry is stored");
    assert_eq!(records.len(), 2);
    assert_eq!(records[0].updated_at_millis, 6);
    assert_eq!(registry.list(), vec![here, elsewhere]);
}

#[test]
fn the_other_side_is_told() {
    let mut registry = ThreadRegistry::remote();
    let metadata = test_metadata();
    let (update, event) = registry.upserted(metadata.clone());
    assert_eq!(update, None);
    assert!(matches!(event, ThreadRegistryEvent::ThreadUpdated(thread) if thread == metadata));
    assert_eq!(registry.removed(metadata.thread_id).0, None);

    registry
        .upsert(metadata.clone(), nothing_stored())
        .expect("upsert metadata");
    let updates = registry.shared(9);
    assert_eq!(updates.len(), 1);
    assert_eq!(updates[0].project_id, 9);
    assert_eq!(updates[0].thread, metadata.to_proto().expect("message"));

    let (update, _) = registry.upserted(metadata.clone());
    assert_eq!(update.expect("a message").project_id, 9);
    let (removed, event) = registry.removed(metadata.thread_id);
    let removed = removed.expect("a message");
    assert_eq!(removed.project_id, 9);
    assert_eq!(removed.thread_id, metadata.thread_id.to_key_string());
    assert!(
        matches!(event, ThreadRegistryEvent::ThreadRemoved(id) if id == metadata.thread_id)
    );

    let messages = registry
        .list_agent_threads(nothing_stored())
        .expect("threads");
    assert_eq!(messages, vec![metadata.to_proto().expect("message")]);
}

#[test]
fn the_other_side_tells() {
    let mut registry = ThreadRegistry::remote();
    let metadata = test_metadata();
    let message = metadata.to_proto().expect("message");
    let event = registry
        .agent_thread_updated(Some(message), Some(worktree_paths()), Ok(()))
        .expect("updated");
    assert!(matches!(event, ThreadRegistryEvent::ThreadUpdated(thread) if thread == metadata));
    assert_eq!(registry.list(), vec![metadata.clone()]);

    let error = registry
        .agent_thread_updated(None, None, Ok(()))
        .expect_err("no thread");
    assert_eq!(error.message(), "missing thread metadata");
    assert!(matches!(error, ThreadMessageError::MissingThread));
    assert!(registry.agent_thread_removed("nonsense").is_err());
    assert_eq!(registry.list().len(), 1);

    registry
        .agent_thread_removed(&metadata.thread_id.to_key_string())
        .expect("removed");
    assert!(registry.list().is_empty());

    let mut message = metadata.to_proto().expect("message");
    message.thread_id = "nonsense".to_string();
    let error = read_thread_message(Some(message), None, Ok(())).expect_err("no id");
    assert_eq!(error.message(), "invalid thread id");
}
