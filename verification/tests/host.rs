use futures::channel::oneshot;
use mutex_agent::agent_credentials::{
    auth_status, fault_message, new_temp_file_name, temp_file_name, AtomicWrite, CredentialsWrite,
    FileBackedAgentCredentialsProvider, FileRead, FileRemoval, StoredCredentials, WriteFault,
    WriteStep, AGENT_CREDENTIALS_USERNAME,
};
use mutex_agent::agent_session_host::{
    session_root_paths, snapshot_to_proto, worktree_error_message, AgentSessionHost,
    AgentTurnActivity, HostError,
};
use mutex_agent::event_buffer::AGENT_EVENT_BUFFER_LIMIT;
use mutex_agent::session_event::{SerializableThreadEvent, SerializedAgentThreadEvent};
use mutex_agent::sign_in::{
    begin_agent_sign_in, take_pending_sign_in_verifier, OAuthFlow, PendingAgentSignIn, SignInError,
};
use mutex_agent::thread_id::ThreadId;
use mutex_agent::thread_metadata::{PathList, SerializedPathList, ThreadMetadata, WorktreePaths};
use mutex_agent::timestamp::Timestamp;
use mutex_agent::tool_authorization::{
    resolution, PermissionOptionKind, SelectedPermissionOutcome, ToolAuthorizationResolveError,
    ToolAuthorizationStore, ToolCallAuthorization, ToolCallUpdate,
    AGENT_TOOL_AUTHORIZATION_REQUEST_EVENT, AGENT_TOOL_AUTHORIZATION_RESOLVED_EVENT,
};
use serde_json::Value;

const KEY: &str = "https://example.com/credentials";

fn flow(number: u32) -> Result<OAuthFlow, String> {
    Ok(OAuthFlow {
        authorize_url: format!("https://example.com/authorize?state={number}"),
        state: format!("state-{number}"),
        verifier: format!("verifier-{number}"),
    })
}

fn event(variant: &str) -> SerializableThreadEvent {
    SerializableThreadEvent {
        variant: variant.to_string(),
        payload: None,
        debug: None,
    }
}

fn json(text: &str) -> Value {
    serde_json::from_str(text).expect("valid JSON")
}

fn authorization(
    response: oneshot::Sender<SelectedPermissionOutcome>,
) -> ToolCallAuthorization {
    ToolCallAuthorization {
        tool_call: ToolCallUpdate {
            tool_call_id: "tool-1".to_string(),
            fields: json("{\"title\":\"Needs approval\"}"),
        },
        options: json("[{\"id\":\"allow\",\"name\":\"Allow\",\"kind\":\"allow_once\"}]"),
        kind: json("\"permission_grant\""),
        response,
    }
}

fn allow() -> SelectedPermissionOutcome {
    SelectedPermissionOutcome::new("allow".to_string(), PermissionOptionKind::AllowOnce)
}

fn paths(paths: &[&str]) -> PathList {
    PathList {
        paths: vec![],
        ordered_paths: paths.iter().map(|path| path.to_string()).collect(),
        serialized: SerializedPathList {
            paths: String::new(),
            order: String::new(),
        },
    }
}

fn metadata() -> ThreadMetadata {
    ThreadMetadata {
        thread_id: ThreadId { bits: 1 },
        session_id: None,
        agent_id: "agent".to_string(),
        title: None,
        title_override: None,
        parallel_attempt_group: None,
        landed: None,
        updated_at: Timestamp::from_timestamp_millis(0).expect("valid timestamp"),
        created_at: None,
        interacted_at: None,
        worktree_paths: WorktreePaths::default(),
        remote_connection: None,
        archived: false,
        server_hosted: false,
    }
}

#[test]
fn pending_agent_sign_in_validates_state_expiration_and_replacement() {
    let mut pending: Option<PendingAgentSignIn> = None;
    let flow_response = begin_agent_sign_in(&mut pending, flow(1), 5_000).expect("flow");
    let mismatch = take_pending_sign_in_verifier(&mut pending, "wrong-state", 5_000);
    assert!(mismatch.is_err());
    assert!(pending.is_none());

    let expired_flow = begin_agent_sign_in(&mut pending, flow(2), 5_000).expect("flow");
    pending
        .as_mut()
        .expect("missing pending sign-in")
        .expires_at_ms = 5_000 - 1_000;
    let expired = take_pending_sign_in_verifier(&mut pending, &expired_flow.state, 5_000);
    assert!(expired.is_err());
    assert!(pending.is_none());

    let first = begin_agent_sign_in(&mut pending, flow(3), 5_000).expect("flow");
    let second = begin_agent_sign_in(&mut pending, flow(4), 5_000).expect("flow");
    assert_ne!(first.state, second.state);
    let expected_verifier = pending
        .as_ref()
        .expect("missing replacement sign-in")
        .verifier
        .clone();
    let verifier =
        take_pending_sign_in_verifier(&mut pending, &second.state, 5_000).expect("verifier");
    assert_eq!(verifier, expected_verifier);
    assert!(pending.is_none());
    assert!(!flow_response.authorize_url.is_empty());
}

#[test]
fn sign_in_errors() {
    let mut pending: Option<PendingAgentSignIn> = None;
    assert_eq!(
        take_pending_sign_in_verifier(&mut pending, "state-1", 0),
        Err(SignInError::NoPendingFlow)
    );
    begin_agent_sign_in(&mut pending, flow(1), 1_000).expect("flow");
    assert_eq!(
        begin_agent_sign_in(&mut pending, Err("no flow".to_string()), 2_000),
        Err("no flow".to_string())
    );
    assert_eq!(
        take_pending_sign_in_verifier(&mut pending, "state-1", 601_000),
        Ok("verifier-1".to_string())
    );
    begin_agent_sign_in(&mut pending, flow(1), 1_000).expect("flow");
    assert_eq!(
        take_pending_sign_in_verifier(&mut pending, "wrong", 601_001),
        Err(SignInError::Expired)
    );
    begin_agent_sign_in(&mut pending, flow(1), 1_000).expect("flow");
    assert_eq!(
        take_pending_sign_in_verifier(&mut pending, "wrong", 1_000),
        Err(SignInError::StateMismatch)
    );
    assert_eq!(
        SignInError::NoPendingFlow.message(),
        "no pending agent sign-in flow"
    );
    assert_eq!(SignInError::Expired.message(), "agent sign-in flow expired");
    assert_eq!(
        SignInError::StateMismatch.message(),
        "agent sign-in state mismatch"
    );
}

#[test]
fn tool_authorization_store_first_response_wins() {
    let mut store = ToolAuthorizationStore::default();
    let (response, receiver) = oneshot::channel();

    let request_event = store.request("session".to_string(), authorization(response));
    assert_eq!(
        request_event.variant(),
        AGENT_TOOL_AUTHORIZATION_REQUEST_EVENT
    );
    assert_eq!(store.pending_events().len(), 1);

    let outcome = allow();
    let resolved_event = store.resolve("0", outcome.clone()).unwrap();
    assert_eq!(
        resolved_event.variant(),
        AGENT_TOOL_AUTHORIZATION_RESOLVED_EVENT
    );
    assert_eq!(store.pending_events().len(), 0);
    assert_eq!(futures::executor::block_on(receiver).unwrap(), outcome);

    let second = store.resolve("0", outcome).unwrap_err();
    assert_eq!(second, ToolAuthorizationResolveError::AlreadyResolved);
}

#[test]
fn answers_go_to_the_one_who_asked() {
    let mut store = ToolAuthorizationStore::default();
    let (first, first_receiver) = oneshot::channel();
    let (second, mut second_receiver) = oneshot::channel();
    store.request("s".to_string(), authorization(first));
    store.request("s".to_string(), authorization(second));
    let deny = SelectedPermissionOutcome::new("deny".to_string(), PermissionOptionKind::RejectOnce);
    store.resolve("0", deny.clone()).expect("resolved");
    assert_eq!(futures::executor::block_on(first_receiver), Ok(deny));
    assert_eq!(second_receiver.try_recv(), Ok(None));
    assert_eq!(store.pending_events().len(), 1);
    store.resolve("1", allow()).expect("resolved");
    assert_eq!(futures::executor::block_on(second_receiver), Ok(allow()));
    assert_eq!(store.pending_events().len(), 0);
}

#[test]
fn authorizations_are_numbered() {
    let mut store = ToolAuthorizationStore::default();
    let mut receivers = Vec::new();
    for number in 0..12 {
        let (response, receiver) = oneshot::channel();
        receivers.push(receiver);
        let request = store.request("s".to_string(), authorization(response));
        assert_eq!(request.approval_id, number.to_string());
        assert_eq!(request.session_id, "s");
        assert_eq!(request.tool_call.tool_call_id, "tool-1");
    }
    assert_eq!(store.pending_events().len(), 12);
    let resolved = store.resolve("11", allow()).expect("resolved");
    assert_eq!(resolved.approval_id, "11");
    assert_eq!(resolved.session_id, "s");
    assert_eq!(resolved.tool_call_id, "tool-1");
    assert_eq!(resolved.outcome, allow());
    assert_eq!(store.pending_events().len(), 11);
    assert_eq!(
        store.resolve("12", allow()),
        Err(ToolAuthorizationResolveError::NotFound)
    );
}

#[test]
fn an_answer_that_nobody_awaits_is_not_told() {
    let mut store = ToolAuthorizationStore::default();
    let (response, receiver) = oneshot::channel();
    let request = store.request("s".to_string(), authorization(response));
    drop(receiver);
    assert_eq!(
        store.resolve("0", allow()),
        Err(ToolAuthorizationResolveError::ReceiverDropped)
    );
    assert_eq!(
        store.resolve("0", allow()),
        Err(ToolAuthorizationResolveError::AlreadyResolved)
    );
    assert_eq!(store.pending_events().len(), 0);
    assert!(resolution(&request, allow(), true).is_ok());
    assert_eq!(
        resolution(&request, allow(), false),
        Err(ToolAuthorizationResolveError::ReceiverDropped)
    );
    assert_eq!(
        ToolAuthorizationResolveError::ReceiverDropped.message(),
        "agent tool authorization receiver was dropped"
    );
}

fn test_credentials(access_token: &str, refresh_token: &str, email: &str) -> Vec<u8> {
    format!(
        "{{\"access_token\":\"{access_token}\",\"refresh_token\":\"{refresh_token}\",\
         \"expires_at_ms\":3600000,\"account_id\":\"account-id\",\"email\":\"{email}\"}}"
    )
    .into_bytes()
}

fn stored_credentials(bytes: &[u8]) -> StoredCredentials {
    let json: Value = serde_json::from_slice(bytes).expect("valid JSON");
    StoredCredentials {
        refresh_token: json["refresh_token"].as_str().expect("token").to_string(),
        email: json["email"].as_str().map(str::to_string),
    }
}

#[test]
fn file_backed_agent_credentials_persist_status_rotation_and_delete() {
    let mut provider = FileBackedAgentCredentialsProvider::with_path(
        KEY.to_string(),
        "/state/agent/openai_codex.json".to_string(),
    );
    assert_eq!(provider.path(), "/state/agent/openai_codex.json");
    let credentials = test_credentials("access-token", "refresh-token", "agent@example.com");
    assert_eq!(
        provider.begin_write::<String>(KEY, AGENT_CREDENTIALS_USERNAME, Ok(())),
        CredentialsWrite::ReplaceFile
    );
    provider.finish_write(&credentials);
    let (username, stored_bytes) = provider
        .read_credentials::<String>(KEY, FileRead::NotFound)
        .expect("read")
        .expect("missing stored credentials");
    assert_eq!(username, AGENT_CREDENTIALS_USERNAME);
    assert_eq!(stored_bytes, credentials);

    let status = auth_status(Some(stored_credentials(&stored_bytes)));
    assert!(status.authenticated);
    assert_eq!(status.email.as_deref(), Some("agent@example.com"));

    let rotated = test_credentials(
        "rotated-access-token",
        "rotated-refresh-token",
        "rotated@example.com",
    );
    provider.finish_write(&rotated);
    let rotated_bytes = provider
        .read_bytes::<String>(FileRead::Bytes(credentials))
        .expect("read")
        .expect("missing rotated credentials json");
    let rotated_json: Value = serde_json::from_slice(&rotated_bytes).expect("valid JSON");
    assert_eq!(
        rotated_json["access_token"].as_str(),
        Some("rotated-access-token")
    );
    assert_eq!(
        rotated_json["refresh_token"].as_str(),
        Some("rotated-refresh-token")
    );
    let status = auth_status(Some(stored_credentials(&rotated_bytes)));
    assert!(status.authenticated);
    assert_eq!(status.email.as_deref(), Some("rotated@example.com"));

    provider
        .delete_file::<String>(FileRemoval::Removed)
        .expect("deleted");
    let bytes = provider
        .read_bytes::<String>(FileRead::NotFound)
        .expect("read");
    let status = auth_status(bytes.map(|bytes| stored_credentials(&bytes)));
    assert!(!status.authenticated);
    assert_eq!(status.email, None);
    let read_after_delete = provider
        .read_credentials::<String>(KEY, FileRead::NotFound)
        .expect("read");
    assert!(read_after_delete.is_none());
}

#[test]
fn the_file_is_read_once() {
    let mut provider =
        FileBackedAgentCredentialsProvider::with_path(KEY.to_string(), "/p".to_string());
    assert!(provider.needs_file());
    assert_eq!(
        provider.read_bytes(FileRead::Failed("denied")),
        Err("denied")
    );
    assert!(provider.needs_file());
    assert_eq!(
        provider.read_bytes::<&str>(FileRead::Bytes(vec![1, 2])),
        Ok(Some(vec![1, 2]))
    );
    assert!(!provider.needs_file());
    assert_eq!(
        provider.read_bytes(FileRead::Failed("denied")),
        Ok(Some(vec![1, 2]))
    );
    assert_eq!(
        provider.delete_file(FileRemoval::Failed("denied")),
        Err("denied")
    );
    assert_eq!(
        provider.read_bytes::<&str>(FileRead::NotFound),
        Ok(Some(vec![1, 2]))
    );
    assert_eq!(provider.delete_file::<&str>(FileRemoval::NotFound), Ok(()));
    assert_eq!(
        provider.read_bytes::<&str>(FileRead::Bytes(vec![3])),
        Ok(None)
    );
}

#[test]
fn credentials_answer_to_one_address() {
    let mut provider =
        FileBackedAgentCredentialsProvider::with_path(KEY.to_string(), "/p".to_string());
    assert!(provider.answers_to(KEY));
    assert_eq!(
        provider.read_credentials("https://other", FileRead::Failed("unread")),
        Ok(None)
    );
    assert!(provider.needs_file());
    assert_eq!(
        provider.begin_write::<&str>("https://other", "someone", Err("invalid")),
        CredentialsWrite::Skip
    );
    assert_eq!(
        provider.begin_write::<&str>(KEY, "someone", Ok(())),
        CredentialsWrite::UnsupportedUsername("someone".to_string())
    );
    assert_eq!(
        provider.begin_write(KEY, "Bearer", Err("invalid")),
        CredentialsWrite::Invalid("invalid")
    );
    let status = auth_status(Some(StoredCredentials {
        refresh_token: String::new(),
        email: None,
    }));
    assert!(!status.authenticated);
}

#[test]
fn the_file_is_replaced_step_by_step() {
    let mut write = AtomicWrite::begin(true, true);
    let mut steps = Vec::new();
    while write.step != WriteStep::Done {
        steps.push(write.step);
        write.advance(true);
    }
    assert_eq!(
        steps,
        vec![
            WriteStep::CreateDirectory,
            WriteStep::CreateTempFile,
            WriteStep::WriteTempFile,
            WriteStep::SyncTempFile,
            WriteStep::SetPermissions,
            WriteStep::RenameTempFile,
        ]
    );
    assert_eq!(write.fault, None);
    for (number, step) in steps.into_iter().enumerate() {
        let mut write = AtomicWrite::begin(true, true);
        for _ in 0..number {
            write.advance(true);
        }
        write.advance(false);
        assert_eq!(write.fault, Some(WriteFault::Step(step)));
        if step == WriteStep::CreateDirectory {
            assert_eq!(write.step, WriteStep::Fail);
        } else {
            assert_eq!(write.step, WriteStep::RemoveTempFile);
            write.advance(false);
            assert_eq!(write.step, WriteStep::Fail);
        }
    }
    let write = AtomicWrite::begin(false, true);
    assert_eq!(write.step, WriteStep::Fail);
    assert_eq!(write.fault, Some(WriteFault::NoParent));
    let mut write = AtomicWrite::begin(true, false);
    write.advance(true);
    assert_eq!(write.step, WriteStep::Fail);
    assert_eq!(write.fault, Some(WriteFault::NoFileName));
}

#[test]
fn faults_are_told() {
    let told = |fault| fault_message(fault, "/d", "/d/t", "/d/f");
    assert_eq!(
        told(WriteFault::NoParent),
        "agent credentials path has no parent"
    );
    assert_eq!(
        told(WriteFault::NoFileName),
        "agent credentials path has no file name"
    );
    assert_eq!(
        told(WriteFault::Step(WriteStep::CreateDirectory)),
        "create agent credentials directory /d"
    );
    assert_eq!(
        told(WriteFault::Step(WriteStep::SetPermissions)),
        "set permissions on /d/t"
    );
    assert_eq!(
        told(WriteFault::Step(WriteStep::RenameTempFile)),
        "rename temp credentials file /d/t to /d/f"
    );
}

#[test]
fn temporary_files_have_names_of_their_own() {
    let id = uuid::Uuid::from_u128(0x67e5504410b1426f9247bb680e5fe0c8);
    assert_eq!(
        temp_file_name("openai_codex.json", &id),
        ".openai_codex.json.67e55044-10b1-426f-9247-bb680e5fe0c8.tmp"
    );
    let name = new_temp_file_name("f");
    assert!(name.starts_with(".f."));
    assert!(name.ends_with(".tmp"));
    assert_eq!(name.len(), 43);
    assert_ne!(name, new_temp_file_name("f"));
}

#[test]
fn turns_are_counted() {
    let mut activity = AgentTurnActivity::default();
    assert_eq!(activity.active_turn_count(), 0);
    activity.start_turn();
    activity.start_turn();
    assert_eq!(activity.active_turn_count(), 2);
    activity.finish_turn();
    assert_eq!(activity.active_turn_count(), 1);
    let mut full = AgentTurnActivity {
        active_turns: usize::MAX,
    };
    full.start_turn();
    assert_eq!(full.active_turn_count(), 0);
    full.finish_turn();
    assert_eq!(full.active_turn_count(), usize::MAX);
}

#[test]
fn sessions_run_one_turn_at_a_time() {
    let mut host = AgentSessionHost::new(AgentTurnActivity::default());
    assert!(!host.has_lazy_project());
    assert!(host.ensure_project());
    assert!(!host.ensure_project());
    assert!(host.has_lazy_project());
    let error = host.prompt_session("s").expect_err("no session");
    assert_eq!(error.message(), "agent session not found");
    assert!(host.cancel_session("s").is_err());

    let registered = host.register_session("s", metadata());
    assert_eq!(registered.session_id, Some("s".to_string()));
    assert!(registered.server_hosted);
    assert!(host.cancel_session("s").is_ok());

    host.prompt_session("s").expect("started");
    assert_eq!(host.running_turn_count(), 1);
    assert_eq!(host.turn_activity().active_turn_count(), 1);
    let error = host.prompt_session("s").expect_err("running");
    assert_eq!(error.message(), "agent session already has a running turn");
    assert_eq!(host.running_turn_count(), 1);
    host.finish_turn("s");
    assert_eq!(host.running_turn_count(), 0);
    assert_eq!(host.turn_activity().active_turn_count(), 0);
    host.prompt_session("s").expect("started");
}

#[test]
fn root_paths() {
    let mut thread = metadata();
    assert!(session_root_paths(&thread).is_empty());
    thread.worktree_paths.main_worktree_paths = paths(&["/m"]);
    assert_eq!(session_root_paths(&thread), vec!["/m".to_string()]);
    thread.worktree_paths.folder_paths = paths(&["/b", "/a"]);
    assert_eq!(
        session_root_paths(&thread),
        vec!["/b".to_string(), "/a".to_string()]
    );
    assert_eq!(worktree_error_message("/b"), "create agent worktree for /b");
}

#[test]
fn subscribers_are_told_of_events() {
    let mut host = AgentSessionHost::new(AgentTurnActivity::default());
    assert_eq!(host.push_buffered_event("s", event("a")), None);
    assert!(host.begin_subscription("s", 0).is_err());
    host.register_session("s", metadata());
    assert_eq!(host.push_buffered_event("s", event("a")), None);
    host.push_test_event("s", event("b"));
    assert_eq!(host.buffered_events("s").len(), 2);
    assert!(host.buffered_events("t").is_empty());

    let start = host.begin_subscription("s", 1).expect("known");
    assert_eq!(start.snapshot_sequence, 2);
    assert!(!start.gap);
    let live = host.push_buffered_event("s", event("c")).expect("told");
    assert_eq!(live.session_id, "s");
    assert_eq!(live.sequence, 2);
    assert_eq!(live.event.expect("an event").variant, "c");

    let snapshot = snapshot_to_proto(&vec![event("replayed")]).expect("written");
    let response = host
        .finish_subscription("s", 1, start, snapshot, &vec![event("asked")])
        .expect("response");
    assert_eq!(response.snapshot_sequence, 2);
    assert!(!response.gap);
    let variants: Vec<String> = response
        .snapshot
        .into_iter()
        .map(|event: SerializedAgentThreadEvent| event.variant)
        .collect();
    assert_eq!(variants, vec!["replayed".to_string(), "asked".to_string()]);
    let sequences: Vec<u64> = response.events.iter().map(|event| event.sequence).collect();
    assert_eq!(sequences, vec![1, 2]);

    let missing = host.finish_subscription("t", 0, start, vec![], &vec![]);
    assert!(matches!(missing, Err(HostError::SessionNotFound)));
}

#[test]
fn old_events_are_dropped() {
    let mut host = AgentSessionHost::new(AgentTurnActivity::default());
    host.register_session("s", metadata());
    for _ in 0..AGENT_EVENT_BUFFER_LIMIT + 5 {
        host.push_test_event("s", event("x"));
    }
    let events = host.buffered_events("s");
    assert_eq!(events.len(), 1024);
    assert_eq!(events[0].sequence, 5);
    let start = host.begin_subscription("s", 4).expect("known");
    assert!(start.gap);
    assert!(!host.begin_subscription("s", 5).expect("known").gap);
}

#[test]
fn the_host_answers_permissions() {
    let mut host = AgentSessionHost::new(AgentTurnActivity::default());
    let (response, _receiver) = oneshot::channel();
    assert!(host
        .request_tool_authorization("s", authorization(response))
        .is_err());
    assert_eq!(host.pending_authorization_count("s"), 0);
    host.register_session("s", metadata());
    let (response, receiver) = oneshot::channel();
    let request = host
        .request_tool_authorization("s", authorization(response))
        .expect("known");
    assert_eq!(host.pending_authorization_count("s"), 1);
    assert_eq!(host.pending_authorizations("s"), vec![request]);
    let error = host
        .respond_tool_authorization("t", "0", allow())
        .expect_err("no session");
    assert_eq!(error.message(), "agent session not found");
    let error = host
        .respond_tool_authorization("s", "1", allow())
        .expect_err("no request");
    assert_eq!(error.message(), "agent tool authorization not found");
    let resolved = host
        .respond_tool_authorization("s", "0", allow())
        .expect("resolved");
    assert_eq!(resolved.approval_id, "0");
    assert_eq!(futures::executor::block_on(receiver), Ok(allow()));
    assert_eq!(host.pending_authorization_count("s"), 0);
    let error = host
        .respond_tool_authorization("s", "0", allow())
        .expect_err("answered");
    assert_eq!(error.message(), "agent tool authorization already resolved");
}

#[test]
fn the_host_signs_in() {
    let mut host = AgentSessionHost::new(AgentTurnActivity::default());
    assert_eq!(
        host.take_pending_sign_in_verifier("state-1", 0),
        Err(SignInError::NoPendingFlow)
    );
    let response = host.begin_agent_sign_in(flow(1), 10_000).expect("flow");
    assert_eq!(response.state, "state-1");
    assert_eq!(
        response.authorize_url,
        "https://example.com/authorize?state=1"
    );
    assert_eq!(
        host.take_pending_sign_in_verifier("state-1", 20_000),
        Ok("verifier-1".to_string())
    );
    host.begin_agent_sign_in(flow(2), 10_000).expect("flow");
    host.set_pending_sign_in_expired(10_000);
    assert_eq!(
        host.take_pending_sign_in_verifier("state-2", 10_000),
        Err(SignInError::Expired)
    );
}
