use mutex_agent::profile_selector::{
    action_approval_menu, action_approval_modes, choose_mode, current_action_approval_mode,
    set_action_approval_mode, ActionApprovalMode, AgentSettings, AgentSettingsContent,
    ApprovalIcon, MenuAction, ProfileSelector, SandboxPermissions, SandboxPermissionsContent,
    SelectorContent, ToolPermissionMode, ToolPermissions, ToolPermissionsContent,
};
use mutex_agent::quick_task::{
    failed_outcome, project_display_name, QuickTaskEligibility, QuickTaskModal, QuickTaskQueue,
    TaskOutcome,
};
use mutex_agent::thread_landing::{
    create_pull_request_failed_message, merge_failed_message, merge_thread_changes_button_label,
    summarize_create_thread_pull_request_error, summarize_create_thread_pull_request_result,
    summarize_merge_thread_changes_error, summarize_merge_thread_changes_result,
    MergeThreadChangesSummary, MergeWorktreeIntoBaseResult, MergeWorktreeIntoBaseResultKind,
    ThreadWorktreeMergeTarget, ThreadWorktreePullRequest,
};
use serde_json::Value;

fn merge_result(
    kind: MergeWorktreeIntoBaseResultKind,
    target_branch_name: &str,
    auto_committed: bool,
) -> MergeWorktreeIntoBaseResult {
    MergeWorktreeIntoBaseResult {
        kind,
        target_branch_name: target_branch_name.to_string(),
        source_branch_name: None,
        auto_committed,
    }
}

#[test]
fn summarize_merge_thread_changes_result_matches_thread_view_messages() {
    assert_eq!(
        summarize_merge_thread_changes_result(Vec::new()),
        MergeThreadChangesSummary {
            message: "No linked git worktree found for this thread".to_string(),
            offer_archive: false,
        }
    );
    assert_eq!(
        summarize_merge_thread_changes_result(vec![merge_result(
            MergeWorktreeIntoBaseResultKind::FastForward,
            "main",
            false,
        )]),
        MergeThreadChangesSummary {
            message: "Merged thread changes into main with a fast-forward".to_string(),
            offer_archive: true,
        }
    );
    assert_eq!(
        summarize_merge_thread_changes_result(vec![merge_result(
            MergeWorktreeIntoBaseResultKind::MergeCommit,
            "develop",
            true,
        )]),
        MergeThreadChangesSummary {
            message: "Merged thread changes into develop after checkpointing uncommitted changes"
                .to_string(),
            offer_archive: true,
        }
    );
    assert_eq!(
        summarize_merge_thread_changes_result(vec![merge_result(
            MergeWorktreeIntoBaseResultKind::AlreadyUpToDate,
            "main",
            false,
        )]),
        MergeThreadChangesSummary {
            message: "Nothing to merge into main".to_string(),
            offer_archive: false,
        }
    );
    assert_eq!(
        summarize_merge_thread_changes_result(vec![
            merge_result(
                MergeWorktreeIntoBaseResultKind::AlreadyUpToDate,
                "main",
                false
            ),
            merge_result(MergeWorktreeIntoBaseResultKind::FastForward, "main", false),
            merge_result(MergeWorktreeIntoBaseResultKind::MergeCommit, "main", false),
        ]),
        MergeThreadChangesSummary {
            message: "Merged thread changes in 2/3 repositories".to_string(),
            offer_archive: true,
        }
    );
    assert_eq!(
        summarize_merge_thread_changes_result(vec![
            merge_result(
                MergeWorktreeIntoBaseResultKind::AlreadyUpToDate,
                "main",
                false
            ),
            merge_result(
                MergeWorktreeIntoBaseResultKind::AlreadyUpToDate,
                "develop",
                false
            ),
        ]),
        MergeThreadChangesSummary {
            message: "Nothing to merge in 2 repositories".to_string(),
            offer_archive: false,
        }
    );
}

#[test]
fn summarize_create_thread_pull_request_result_matches_thread_view_message() {
    assert_eq!(
        summarize_create_thread_pull_request_result(&ThreadWorktreePullRequest {
            branch_name: "feature-a".to_string(),
            url: "https://example.com/pr".to_string(),
            checkpoint_created: false,
        }),
        "Pushed feature-a — opening pull request page"
    );
    assert_eq!(
        summarize_create_thread_pull_request_result(&ThreadWorktreePullRequest {
            branch_name: "feature-a".to_string(),
            url: "https://example.com/pr".to_string(),
            checkpoint_created: true,
        }),
        "Pushed feature-a after checkpointing uncommitted changes — opening pull request page"
    );
}

#[test]
fn errors_are_told_with_their_causes() {
    let error = anyhow::Error::msg("conflict").context("merge main");
    assert_eq!(
        summarize_merge_thread_changes_error(&error),
        "Merge failed: merge main: conflict"
    );
    assert_eq!(
        summarize_create_thread_pull_request_error(&error),
        "Create PR failed: merge main: conflict"
    );
    assert_eq!(merge_failed_message("x"), "Merge failed: x");
    assert_eq!(
        create_pull_request_failed_message("x"),
        "Create PR failed: x"
    );
    let outcome = failed_outcome(&error);
    assert!(
        matches!(outcome, TaskOutcome::Failed { error_chain } if error_chain == "merge main: conflict")
    );
}

#[test]
fn merge_buttons_name_the_branch() {
    let label = |names: &[Option<&str>]| {
        let targets: Vec<ThreadWorktreeMergeTarget> = names
            .iter()
            .map(|name| ThreadWorktreeMergeTarget {
                target_branch_name: name.map(str::to_string),
            })
            .collect();
        merge_thread_changes_button_label(&targets)
    };
    assert_eq!(label(&[]), None);
    assert_eq!(label(&[Some("main")]).as_deref(), Some("Merge into main"));
    assert_eq!(label(&[None]).as_deref(), Some("Merge into base branch"));
    assert_eq!(
        label(&[Some("main"), Some("main")]).as_deref(),
        Some("Merge into main")
    );
    assert_eq!(
        label(&[Some("main"), Some("develop")]).as_deref(),
        Some("Merge into base branches")
    );
    assert_eq!(
        label(&[Some("main"), None]).as_deref(),
        Some("Merge into base branches")
    );
    assert_eq!(
        label(&[None, None]).as_deref(),
        Some("Merge into base branches")
    );
}

#[test]
fn test_quick_task_eligibility_requires_git_and_host() {
    assert_eq!(
        QuickTaskEligibility::from_parts(true, false, true, true),
        QuickTaskEligibility::Eligible
    );
    assert_eq!(
        QuickTaskEligibility::from_parts(false, false, true, true),
        QuickTaskEligibility::NoGitRepository
    );
    assert_eq!(
        QuickTaskEligibility::from_parts(true, true, true, true),
        QuickTaskEligibility::CollaborativeProject
    );
    assert_eq!(
        QuickTaskEligibility::from_parts(true, false, false, true),
        QuickTaskEligibility::NoAgentPanel
    );
    assert_eq!(
        QuickTaskEligibility::from_parts(true, false, true, false),
        QuickTaskEligibility::NoNativeSiblingHost
    );
}

#[test]
fn projects_are_named_by_their_folders() {
    let name = |names: &[&str]| {
        let names: Vec<String> = names.iter().map(|name| name.to_string()).collect();
        project_display_name(&names)
    };
    assert_eq!(name(&[]), "empty project");
    assert_eq!(name(&["a"]), "a");
    assert_eq!(name(&["a", "b", "c"]), "a, b, c");
    assert_eq!(name(&["a", "b", "c", "d"]), "a, b, c, +1 more");
    assert_eq!(name(&["a", "b", "c", "d", "e"]), "a, b, c, +2 more");
}

#[test]
fn quick_tasks_start_one_at_a_time() {
    let mut queue: QuickTaskQueue<u32> = QuickTaskQueue::new();
    assert_eq!(queue.state_text(), None);
    assert_eq!(queue.enqueue(1, "one".to_string()), Some(1));
    assert_eq!(queue.enqueue(2, "two".to_string()), None);
    assert_eq!(queue.enqueue(3, "three".to_string()), None);
    assert_eq!(queue.pending_count(), 2);
    assert_eq!(queue.state_text().as_deref(), Some("Starting: one"));
    let started = TaskOutcome::Started {
        title: "One".to_string(),
    };
    assert_eq!(queue.finish(started), Some(2));
    let failed = TaskOutcome::Failed {
        error_chain: "no disk: full".to_string(),
    };
    assert_eq!(queue.finish(failed), Some(3));
    assert_eq!(
        queue.finish(TaskOutcome::Started {
            title: "Three".to_string()
        }),
        None
    );
    assert_eq!(
        queue.status_lines(),
        vec![
            "Started: One".to_string(),
            "Failed: two: no disk: full".to_string(),
            "Started: Three".to_string(),
        ]
    );
    assert_eq!(queue.state_text(), None);
    assert_eq!(queue.enqueue(4, "four".to_string()), Some(4));
    queue.finish(TaskOutcome::Started {
        title: "Four".to_string(),
    });
    let lines = queue.status_lines();
    assert_eq!(lines.len(), 3);
    assert_eq!(lines[2], "Started: Four");
    assert_eq!(lines[0], "Failed: two: no disk: full");
}

#[test]
fn quick_tasks_are_submitted() {
    let mut modal = QuickTaskModal::new("p".to_string(), QuickTaskEligibility::Eligible, true);
    assert_eq!(modal.submit("  \n"), None);
    assert_eq!(modal.last_error.as_deref(), Some("Enter a task prompt."));
    assert_eq!(modal.submit("\tfix it \n"), Some("fix it"));
    assert_eq!(modal.last_error, None);

    let mut modal = QuickTaskModal::new("p".to_string(), QuickTaskEligibility::Eligible, false);
    assert_eq!(modal.submit("fix it"), None);
    assert_eq!(
        modal.last_error.as_deref(),
        Some("Quick Task needs native sibling-thread support.")
    );

    let mut modal = QuickTaskModal::new("p".to_string(), QuickTaskEligibility::NoAgentPanel, true);
    assert_eq!(modal.submit("fix it"), None);
    assert_eq!(
        modal.last_error.as_deref(),
        Some("Quick Task needs the agent panel in this workspace.")
    );
    let content = modal.content(Some("1 queued".to_string()), vec!["Started: a".to_string()]);
    assert_eq!(content.headline, "Quick Task");
    assert_eq!(
        content.description,
        "Project: p. Tasks run in a fresh worktree."
    );
    assert!(!content.shows_editor);
    assert!(content.start_is_disabled);
    assert_eq!(
        content.reason,
        Some("Quick Task needs the agent panel in this workspace.")
    );
    assert_eq!(content.footer.as_deref(), Some("1 queued"));
    assert_eq!(content.status_lines, vec!["Started: a".to_string()]);
}

fn settings(default: ToolPermissionMode, unsandboxed: bool) -> AgentSettings {
    AgentSettings {
        tool_permissions: ToolPermissions {
            default,
            tools: vec![],
        },
        sandbox_permissions: SandboxPermissions {
            allow_unsandboxed: unsandboxed,
            allow_all_hosts: unsandboxed,
            allow_fs_write_all: unsandboxed,
            network_hosts: vec![],
            write_paths: vec![],
        },
    }
}

#[test]
fn settings_amount_to_modes() {
    let mode = |settings: &AgentSettings| current_action_approval_mode(settings);
    assert_eq!(
        mode(&settings(ToolPermissionMode::Confirm, false)),
        ActionApprovalMode::Ask
    );
    assert_eq!(
        mode(&settings(ToolPermissionMode::Allow, false)),
        ActionApprovalMode::Approve
    );
    assert_eq!(
        mode(&settings(ToolPermissionMode::Allow, true)),
        ActionApprovalMode::FullAccess
    );
    assert_eq!(
        mode(&settings(ToolPermissionMode::Confirm, true)),
        ActionApprovalMode::Custom
    );
    assert_eq!(
        mode(&settings(ToolPermissionMode::Deny, false)),
        ActionApprovalMode::Custom
    );
    let mut with_host = settings(ToolPermissionMode::Allow, false);
    with_host
        .sandbox_permissions
        .network_hosts
        .push("example.com".to_string());
    assert_eq!(mode(&with_host), ActionApprovalMode::Custom);
    let mut with_tool = settings(ToolPermissionMode::Allow, true);
    with_tool
        .tool_permissions
        .tools
        .push(("terminal".to_string(), Value::Null));
    assert_eq!(mode(&with_tool), ActionApprovalMode::Custom);
}

fn applied(content: &AgentSettingsContent) -> AgentSettings {
    let tools = content.tool_permissions.as_ref().expect("tools");
    let sandbox = content.sandbox_permissions.as_ref().expect("sandbox");
    AgentSettings {
        tool_permissions: ToolPermissions {
            default: tools.default.expect("default"),
            tools: tools.tools.clone(),
        },
        sandbox_permissions: SandboxPermissions {
            allow_unsandboxed: sandbox.allow_unsandboxed.expect("flag"),
            allow_all_hosts: sandbox.allow_all_hosts.expect("flag"),
            allow_fs_write_all: sandbox.allow_fs_write_all.expect("flag"),
            network_hosts: sandbox.network_hosts.clone().unwrap_or_default(),
            write_paths: sandbox.write_paths.clone().unwrap_or_default(),
        },
    }
}

#[test]
fn modes_are_set() {
    for mode in [
        ActionApprovalMode::Ask,
        ActionApprovalMode::Approve,
        ActionApprovalMode::FullAccess,
    ] {
        let mut content = Some(AgentSettingsContent {
            default_profile: None,
            tool_permissions: Some(ToolPermissionsContent {
                default: None,
                tools: vec![("terminal".to_string(), Value::Null)],
            }),
            sandbox_permissions: Some(SandboxPermissionsContent {
                allow_unsandboxed: None,
                allow_all_hosts: None,
                allow_fs_write_all: None,
                network_hosts: Some(vec!["example.com".to_string()]),
                write_paths: Some(vec![]),
            }),
        });
        set_action_approval_mode(&mut content, mode, "write");
        let content = content.expect("content");
        assert_eq!(content.default_profile.as_deref(), Some("write"));
        assert_eq!(current_action_approval_mode(&applied(&content)), mode);
    }
    let mut content = None;
    set_action_approval_mode(&mut content, ActionApprovalMode::Custom, "write");
    assert!(content.is_none());
}

#[test]
fn modes_are_cycled() {
    let mut selector = ProfileSelector::new();
    let ask = settings(ToolPermissionMode::Confirm, false);
    let approve = settings(ToolPermissionMode::Allow, false);
    let full = settings(ToolPermissionMode::Allow, true);
    let custom = settings(ToolPermissionMode::Deny, false);
    assert_eq!(
        selector.cycle_profile(true, &ask),
        Some(ActionApprovalMode::Approve)
    );
    assert_eq!(
        selector.cycle_profile(true, &approve),
        Some(ActionApprovalMode::FullAccess)
    );
    assert_eq!(
        selector.cycle_profile(true, &full),
        Some(ActionApprovalMode::Custom)
    );
    assert_eq!(
        selector.cycle_profile(true, &custom),
        Some(ActionApprovalMode::Ask)
    );
    assert_eq!(selector.cycle_profile(false, &ask), None);

    assert_eq!(selector.content(false, true, &ask), SelectorContent::Nothing);
    assert_eq!(
        selector.content(true, false, &ask),
        SelectorContent::ToolsUnsupported {
            label: "Tools Unsupported",
            tooltip: "This model does not support tools.",
        }
    );
    selector.menu_is_deployed = true;
    assert_eq!(
        selector.content(true, true, &full),
        SelectorContent::Selector {
            label: "Full access",
            points_up: true,
        }
    );
}

#[test]
fn the_menu_offers_all_modes() {
    let rows = action_approval_menu(ActionApprovalMode::Approve);
    let shown: Vec<(&str, bool)> = rows.iter().map(|row| (row.title, row.selected)).collect();
    assert_eq!(
        shown,
        vec![
            ("Ask for approval", false),
            ("Approve for me", true),
            ("Full access", false),
            ("Custom (settings.json)", false),
        ]
    );
    assert_eq!(rows[0].icon, ApprovalIcon::LockOutlined);
    assert_eq!(
        rows[3].description,
        "Uses permissions defined in settings.json."
    );
    let modes: Vec<ActionApprovalMode> = rows.iter().map(|row| row.mode).collect();
    assert_eq!(modes, action_approval_modes());
    assert_eq!(
        choose_mode(ActionApprovalMode::Custom),
        MenuAction::OpenSettings("agent.tool_permissions")
    );
    assert_eq!(
        choose_mode(ActionApprovalMode::Ask),
        MenuAction::SetMode(ActionApprovalMode::Ask)
    );
}
