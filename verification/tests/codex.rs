use mutex_agent::codex_model::{
    codex_headers, effort_levels, prepare_codex_request, ChatGptModel, CODEX_BASE_URL,
    MAX_CONCURRENT_REQUESTS,
};
use mutex_agent::openai_subscribed::{
    configuration_content, oauth_state_matches, Authentication, CodexCredentials,
    ConfigurationContent, FreshCredentials, OpenAiSubscribedProvider, SignInOutcome, State,
    AUTHENTICATION_ERROR, NOT_SIGNED_IN, SIGN_OUT_DURING_REFRESH, TOKEN_REFRESH_BUFFER_MS,
};
use mutex_agent::response_stream::responses_endpoint;
use mutex_agent::responses::{
    ReasoningEffort, Request, ResponseInputContent, ResponseInputItem, ResponseFunctionCallItem,
    ResponseMessageItem, Role,
};

fn make_expired_credentials() -> CodexCredentials {
    CodexCredentials {
        access_token: "old_access".to_string(),
        refresh_token: "old_refresh".to_string(),
        expires_at_ms: 0,
        account_id: None,
        email: None,
    }
}

fn make_fresh_credentials() -> CodexCredentials {
    CodexCredentials {
        access_token: "fresh_access".to_string(),
        refresh_token: "fresh_refresh".to_string(),
        expires_at_ms: 3_600_000,
        account_id: None,
        email: None,
    }
}

fn state(credentials: Option<CodexCredentials>) -> State {
    State {
        credentials,
        is_signing_in: false,
        is_refreshing: false,
        is_loading: false,
        auth_generation: 0,
        last_auth_error: None,
    }
}

#[test]
fn test_concurrent_refresh_deduplicates() {
    let mut state = state(Some(make_expired_credentials()));
    let mut refresh_count = 0;
    let mut generation = None;
    for _ in 0..2 {
        match state.get_fresh_credentials(true) {
            FreshCredentials::Refresh {
                refresh_token,
                generation: started,
            } => {
                assert_eq!(refresh_token, "old_refresh");
                refresh_count += 1;
                generation = Some(started);
            }
            other => assert_eq!(other, FreshCredentials::Join),
        }
    }
    assert!(state.refresh_succeeded(generation.expect("a refresh")));
    let refreshed = state.refresh_saved(make_fresh_credentials(), true);
    assert_eq!(refreshed.expect("refreshed").access_token, "fresh_access");
    assert_eq!(
        state.credentials.as_ref().expect("kept").access_token,
        "fresh_access"
    );
    assert_eq!(
        refresh_count, 1,
        "refresh_token should only be called once despite two concurrent callers"
    );
}

#[test]
fn test_fresh_credentials_skip_refresh() {
    let mut state = state(Some(make_fresh_credentials()));
    assert_eq!(
        state.get_fresh_credentials(false),
        FreshCredentials::Use(make_fresh_credentials())
    );
    assert!(
        !state.is_refreshing,
        "no refresh should happen when credentials are fresh"
    );
}

#[test]
fn test_no_credentials_returns_no_api_key() {
    let mut state = state(None);
    assert_eq!(state.get_fresh_credentials(true), FreshCredentials::NoApiKey);
    assert_eq!(
        state.get_fresh_credentials(false),
        FreshCredentials::NoApiKey
    );
    assert!(!state.is_refreshing);
}

#[test]
fn test_fatal_refresh_clears_auth_state() {
    let mut state = state(Some(make_expired_credentials()));
    state.get_fresh_credentials(true);
    assert!(state.refresh_failed(true));
    assert!(
        state.credentials.is_none(),
        "credentials should be cleared on fatal refresh failure"
    );
    assert_eq!(
        state.last_auth_error.as_deref(),
        Some("Your session has expired. Please sign in again.")
    );
}

#[test]
fn test_transient_refresh_keeps_credentials() {
    let mut state = state(Some(make_expired_credentials()));
    state.get_fresh_credentials(true);
    assert!(!state.refresh_failed(false));
    assert!(
        state.credentials.is_some(),
        "credentials should be kept on transient refresh failure"
    );
    assert!(
        state.last_auth_error.is_none(),
        "last_auth_error should not be set on transient refresh failure"
    );
    assert!(!state.is_refreshing);
}

#[test]
fn test_sign_out_during_refresh_discards_result() {
    let mut state = state(Some(make_expired_credentials()));
    let generation = match state.get_fresh_credentials(true) {
        FreshCredentials::Refresh { generation, .. } => generation,
        other => panic!("{other:?}"),
    };
    state.sign_out();
    assert!(
        !state.refresh_succeeded(generation),
        "refresh should fail after sign-out"
    );
    assert!(
        state.credentials.is_none(),
        "sign-out should have cleared credentials"
    );
    assert_eq!(
        SIGN_OUT_DURING_REFRESH,
        "Sign-out occurred during token refresh"
    );
}

#[test]
fn test_sign_out_completes_fully() {
    let mut state = state(Some(make_fresh_credentials()));
    state.last_auth_error = Some("old".to_string());
    state.is_signing_in = true;
    state.sign_out();
    assert!(
        !state.is_authenticated(),
        "state should show not authenticated"
    );
    assert_eq!(state.auth_generation, 1);
    assert!(!state.is_signing_in);
    assert_eq!(state.last_auth_error, None);
}

#[test]
fn test_authenticate_awaits_initial_load() {
    let mut provider = OpenAiSubscribedProvider::new();
    assert_eq!(provider.state.authenticate(), Authentication::AwaitLoad);
    provider.state.finish_load(Some(make_fresh_credentials()));
    assert_eq!(provider.state.authenticate(), Authentication::Authenticated);
    provider.reload_credentials();
    provider.state.finish_load(None);
    assert_eq!(provider.state.authenticate(), Authentication::Authenticated);
    provider.state.sign_out();
    assert_eq!(
        provider.state.authenticate(),
        Authentication::Unauthenticated
    );
    assert!(NOT_SIGNED_IN.starts_with("Sign in with your ChatGPT Plus or Pro subscription"));
}

#[test]
fn a_saved_sign_in_authenticates() {
    let mut state = state(None);
    assert!(oauth_state_matches("state", "state"));
    assert!(!oauth_state_matches("state", "other"));
    assert_eq!(state.begin_sign_in(), Some(0));
    assert_eq!(state.begin_sign_in(), None);
    assert!(state.sign_in_counts(0));
    state.finish_sign_in(0, SignInOutcome::Saved(make_fresh_credentials()));
    assert!(state.is_authenticated());
    assert!(!state.is_signing_in);
}

#[test]
fn a_sign_in_is_given_up_on_sign_out() {
    let mut state = state(None);
    let first = state.begin_sign_in().expect("begun");
    state.sign_out();
    assert!(!state.sign_in_counts(first));
    state.finish_sign_in(first, SignInOutcome::Saved(make_fresh_credentials()));
    assert!(!state.is_authenticated());

    let second = state.begin_sign_in().expect("begun again");
    state.finish_sign_in(first, SignInOutcome::Failed);
    assert!(state.is_signing_in);
    assert_eq!(state.last_auth_error, None);
    state.finish_sign_in(second, SignInOutcome::Saved(make_fresh_credentials()));
    assert!(state.is_authenticated());
}

#[test]
fn failed_sign_ins_are_told() {
    let mut state = state(None);
    state.begin_sign_in();
    state.finish_sign_in(0, SignInOutcome::Failed);
    assert_eq!(
        state.last_auth_error.as_deref(),
        Some("Sign-in failed. Please try again.")
    );
    state.begin_sign_in();
    assert_eq!(state.last_auth_error, None);
    state.finish_sign_in(0, SignInOutcome::NotSaved);
    assert_eq!(
        state.last_auth_error.as_deref(),
        Some("Failed to save credentials. Please try again.")
    );
    assert!(!state.is_authenticated());
}

#[test]
fn renewed_credentials_that_were_not_saved_are_not_used() {
    let mut state = state(Some(make_expired_credentials()));
    state.get_fresh_credentials(true);
    assert_eq!(state.refresh_saved(make_fresh_credentials(), false), None);
    assert_eq!(state.credentials, Some(make_expired_credentials()));
    assert!(!state.is_refreshing);
    assert_eq!(TOKEN_REFRESH_BUFFER_MS, 5 * 60 * 1000);
}

#[test]
fn the_settings_show_who_is_signed_in() {
    let mut state = state(None);
    let shown = |state: &State| configuration_content(state);
    assert_eq!(
        shown(&state),
        ConfigurationContent::SignedOut {
            label: "Sign in with your ChatGPT Plus or Pro subscription to use Codex in the agent.",
            button_label: "Sign in to use Codex",
            is_signing_in: false,
            error: None,
        }
    );
    state.begin_sign_in();
    state.last_auth_error = Some("no".to_string());
    assert_eq!(
        shown(&state),
        ConfigurationContent::SignedOut {
            label: "Sign in with your ChatGPT Plus or Pro subscription to use Codex in the agent.",
            button_label: "Signing in…",
            is_signing_in: true,
            error: Some("no".to_string()),
        }
    );
    let mut credentials = make_fresh_credentials();
    state.credentials = Some(credentials.clone());
    assert_eq!(
        shown(&state),
        ConfigurationContent::SignedIn {
            label: "Signed in".to_string(),
            button_label: "Sign Out",
        }
    );
    credentials.email = Some("me@example.com".to_string());
    state.credentials = Some(credentials);
    assert_eq!(state.email(), Some("me@example.com"));
    assert_eq!(
        shown(&state),
        ConfigurationContent::SignedIn {
            label: "Signed in as me@example.com".to_string(),
            button_label: "Sign Out",
        }
    );
}

#[test]
fn models() {
    let provider = OpenAiSubscribedProvider::new();
    assert_eq!(provider.id(), "openai-subscribed");
    assert_eq!(provider.name(), "Codex");
    assert_eq!(provider.default_model(), ChatGptModel::Gpt55);
    assert_eq!(provider.default_fast_model(), ChatGptModel::Gpt54Mini);
    let models = provider.provided_models();
    let ids: Vec<&str> = models.iter().map(|model| model.id()).collect();
    assert_eq!(ids, vec!["gpt-5.5", "gpt-5.4", "gpt-5.4-mini"]);
    let names: Vec<&str> = models.iter().map(|model| model.display_name()).collect();
    assert_eq!(names, vec!["GPT-5.5", "GPT-5.4", "GPT-5.4 Mini"]);
    for model in models {
        assert_eq!(model.max_token_count(), 272_000);
        assert_eq!(model.max_output_tokens(), None);
        assert!(model.supports_images());
        assert!(model.supports_parallel_tool_calls());
        assert!(model.supports_prompt_cache_key());
        assert_eq!(model.supports_priority(), model != ChatGptModel::Gpt54Mini);
        assert!(!model.supports_disabled_reasoning());
        let levels: Vec<(&str, &str, bool)> = model
            .supported_effort_levels()
            .iter()
            .map(|level| (level.name, level.value, level.is_default))
            .collect();
        assert_eq!(
            levels,
            vec![
                ("Low", "low", false),
                ("Medium", "medium", true),
                ("High", "high", false),
                ("Extra High", "xhigh", false),
            ]
        );
    }
    assert_eq!(
        ChatGptModel::Gpt54Mini.telemetry_id(),
        "openai-subscribed/gpt-5.4-mini"
    );
    assert!(AUTHENTICATION_ERROR.ends_with("Sign in again via the Agent Panel settings to continue."));
    assert_eq!(
        responses_endpoint(CODEX_BASE_URL),
        "https://chatgpt.com/backend-api/codex/responses"
    );
}

#[test]
fn speed_is_dropped_where_priority_is_not_offered() {
    assert_eq!(ChatGptModel::Gpt55.request_speed(Some("fast")), Some("fast"));
    assert_eq!(ChatGptModel::Gpt54.request_speed(Some("fast")), Some("fast"));
    assert_eq!(ChatGptModel::Gpt54Mini.request_speed(Some("fast")), None);
    assert_eq!(ChatGptModel::Gpt55.request_speed::<&str>(None), None);
}

#[test]
fn requests_are_made_with_settings() {
    let settings = ChatGptModel::Gpt54Mini.completion_settings(Some("fast"));
    assert_eq!(settings.model, "gpt-5.4-mini");
    assert!(settings.supports_parallel_tool_calls);
    assert!(settings.supports_prompt_cache_key);
    assert_eq!(settings.max_output_tokens, None);
    assert_eq!(
        settings.default_reasoning_effort,
        Some(ReasoningEffort::Medium)
    );
    assert!(!settings.supports_disabled_reasoning);
    assert_eq!(settings.speed, None);
    let settings = ChatGptModel::Gpt55.completion_settings(Some("fast"));
    assert_eq!(settings.model, "gpt-5.5");
    assert_eq!(settings.speed, Some("fast"));
    assert_eq!(MAX_CONCURRENT_REQUESTS, 4);
}

#[test]
fn no_effort_is_no_choice() {
    let levels = effort_levels(
        &vec![ReasoningEffort::Disabled, ReasoningEffort::Minimal],
        None,
    );
    assert_eq!(levels.len(), 1);
    assert_eq!(levels[0].value, "minimal");
    assert!(!levels[0].is_default);
}

fn text(text: &str) -> ResponseInputContent {
    ResponseInputContent::Text {
        text: text.to_string(),
    }
}

fn message(role: Role, content: Vec<ResponseInputContent>) -> ResponseInputItem {
    ResponseInputItem::Message(ResponseMessageItem {
        role,
        content,
        phase: None,
    })
}

fn request(input: Vec<ResponseInputItem>) -> Request {
    Request {
        model: "gpt-5.5".to_string(),
        instructions: None,
        input,
        include_fields: vec![],
        stream: true,
        temperature: None,
        top_p: None,
        max_output_tokens: None,
        parallel_tool_calls: Some(true),
        tool_choice: None,
        tools: vec![],
        prompt_cache_key: Some("key".to_string()),
        reasoning: None,
        store: None,
        service_tier: None,
        context_management: None,
    }
}

#[test]
fn system_messages_become_instructions() {
    let prepared = prepare_codex_request(request(vec![
        message(
            Role::System,
            vec![
                text("one"),
                ResponseInputContent::Image {
                    image_url: "i".to_string(),
                },
                text("two"),
            ],
        ),
        message(Role::User, vec![text("question")]),
        ResponseInputItem::FunctionCall(ResponseFunctionCallItem {
            call_id: "c".to_string(),
            name: "n".to_string(),
            arguments: "{}".to_string(),
        }),
        message(Role::System, vec![text("three")]),
    ]));
    assert_eq!(prepared.instructions.as_deref(), Some("one\n\ntwo\n\nthree"));
    assert_eq!(prepared.store, Some(false));
    assert_eq!(prepared.input.len(), 2);
    assert!(
        matches!(&prepared.input[0], ResponseInputItem::Message(message) if message.role == Role::User)
    );
    assert!(matches!(
        &prepared.input[1],
        ResponseInputItem::FunctionCall(_)
    ));
    assert_eq!(prepared.prompt_cache_key.as_deref(), Some("key"));

    let prepared = prepare_codex_request(request(vec![]));
    assert_eq!(prepared.instructions.as_deref(), Some(""));
}

#[test]
fn headers_name_the_account() {
    let pairs = |account: Option<&str>| -> Vec<(String, String)> {
        codex_headers(&account.map(str::to_string))
            .into_iter()
            .map(|header| (header.name.to_string(), header.value))
            .collect()
    };
    let always = vec![
        ("originator".to_string(), "zed".to_string()),
        (
            "openai-beta".to_string(),
            "responses=experimental".to_string(),
        ),
    ];
    assert_eq!(pairs(None), always);
    assert_eq!(pairs(Some("")), always);
    for refused in ["a\nb", "a\x7f", "\x00", "\x1f"] {
        assert_eq!(pairs(Some(refused)), always);
    }
    for accepted in ["account-id", "a\tb", "caf\u{e9}", " "] {
        let mut expected = always.clone();
        expected.push(("chatgpt-account-id".to_string(), accepted.to_string()));
        assert_eq!(pairs(Some(accepted)), expected);
    }
}
