//! The Codex provider: who is signed in with a ChatGPT subscription, when the tokens are
//! renewed, and what becomes of a renewal that fails or comes too late.
use vstd::prelude::*;
use vstd::string::StringExecFns;

use crate::codex_model;
use crate::codex_model::ChatGptModel;
use crate::text;

verus! {

pub const PROVIDER_ID: &'static str = "openai-subscribed";

pub const PROVIDER_NAME: &'static str = "Codex";

/// Tokens that expire within this time are renewed before they are used.
pub const TOKEN_REFRESH_BUFFER_MS: u64 = 300_000;

/// The name under which the credentials are kept.
pub const CREDENTIALS_USERNAME: &'static str = "Bearer";

pub const SIGN_OUT_DURING_REFRESH: &'static str = "Sign-out occurred during token refresh";

pub const SESSION_EXPIRED: &'static str = "Your session has expired. Please sign in again.";

pub const NOT_SAVED: &'static str = "Failed to save credentials. Please try again.";

pub const SIGN_IN_FAILED: &'static str = "Sign-in failed. Please try again.";

pub const NOT_SIGNED_IN: &'static str =
    "Sign in with your ChatGPT Plus or Pro subscription to use this provider.";

pub const AUTHENTICATION_ERROR: &'static str =
    "Your Codex subscription session is invalid or has expired. Sign in again via the Agent Panel settings to continue.";

pub const MISSING_CREDENTIALS_ERROR: &'static str =
    "You are not signed in to your ChatGPT account for Codex. Sign in via the Agent Panel settings to continue.";

pub const FAST_MODE_TITLE: &'static str = "Enable Fast Mode for OpenAI?";

pub const FAST_MODE_MESSAGE: &'static str =
    "Fast mode sends requests using OpenAI's Priority processing tier, which targets significantly lower latency than the standard tier and is billed at a premium per-token rate.";

/// The tokens of a subscription.
#[derive(Debug, PartialEq, Eq)]
pub struct CodexCredentials {
    pub access_token: String,
    pub refresh_token: String,
    pub expires_at_ms: u64,
    pub account_id: Option<String>,
    pub email: Option<String>,
}

/// The model of [`CodexCredentials`].
pub struct CodexCredentialsView {
    pub access_token: Seq<char>,
    pub refresh_token: Seq<char>,
    pub expires_at_ms: u64,
    pub account_id: Option<Seq<char>>,
    pub email: Option<Seq<char>>,
}

impl View for CodexCredentials {
    type V = CodexCredentialsView;

    open spec fn view(&self) -> CodexCredentialsView {
        CodexCredentialsView {
            access_token: self.access_token@,
            refresh_token: self.refresh_token@,
            expires_at_ms: self.expires_at_ms,
            account_id: text::optional_text(self.account_id),
            email: text::optional_text(self.email),
        }
    }
}

impl Clone for CodexCredentials {
    fn clone(&self) -> (copy: Self)
        ensures
            copy@ == self@,
    {
        CodexCredentials {
            access_token: self.access_token.clone(),
            refresh_token: self.refresh_token.clone(),
            expires_at_ms: self.expires_at_ms,
            account_id: self.account_id.clone(),
            email: self.email.clone(),
        }
    }
}

/// The model of credentials that may be there.
pub open spec fn optional_credentials(credentials: Option<CodexCredentials>) -> Option<
    CodexCredentialsView,
> {
    match credentials {
        Some(credentials) => Some(credentials@),
        None => None,
    }
}

/// Who is signed in, and what is under way.
#[derive(Debug, PartialEq, Eq)]
pub struct State {
    pub credentials: Option<CodexCredentials>,
    pub is_signing_in: bool,
    pub is_refreshing: bool,
    pub is_loading: bool,
    /// How often the user has signed out.
    pub auth_generation: u64,
    pub last_auth_error: Option<String>,
}

/// The model of a [`State`].
pub struct StateView {
    pub credentials: Option<CodexCredentialsView>,
    pub is_signing_in: bool,
    pub is_refreshing: bool,
    pub is_loading: bool,
    pub auth_generation: u64,
    pub last_auth_error: Option<Seq<char>>,
}

impl View for State {
    type V = StateView;

    open spec fn view(&self) -> StateView {
        StateView {
            credentials: optional_credentials(self.credentials),
            is_signing_in: self.is_signing_in,
            is_refreshing: self.is_refreshing,
            is_loading: self.is_loading,
            auth_generation: self.auth_generation,
            last_auth_error: text::optional_text(self.last_auth_error),
        }
    }
}

/// How credentials for a request are come by.
#[derive(Debug, PartialEq, Eq)]
pub enum FreshCredentials {
    /// Nobody is signed in.
    NoApiKey,
    /// These can be used.
    Use(CodexCredentials),
    /// They are being renewed already; the outcome of that is to be awaited.
    Join,
    /// They are to be renewed.
    Refresh { refresh_token: String, generation: u64 },
}

/// The model of [`FreshCredentials`].
pub enum FreshCredentialsView {
    NoApiKey,
    Use(CodexCredentialsView),
    Join,
    Refresh { refresh_token: Seq<char>, generation: u64 },
}

impl View for FreshCredentials {
    type V = FreshCredentialsView;

    open spec fn view(&self) -> FreshCredentialsView {
        match *self {
            FreshCredentials::NoApiKey => FreshCredentialsView::NoApiKey,
            FreshCredentials::Use(credentials) => FreshCredentialsView::Use(credentials@),
            FreshCredentials::Join => FreshCredentialsView::Join,
            FreshCredentials::Refresh { refresh_token, generation } =>
                FreshCredentialsView::Refresh { refresh_token: refresh_token@, generation },
        }
    }
}

/// What a sign-in came to.
#[derive(Debug, PartialEq, Eq)]
pub enum SignInOutcome {
    /// The flow failed.
    Failed,
    /// There are credentials, but they could not be saved.
    NotSaved,
    Saved(CodexCredentials),
}

/// Whether the provider can be used.
#[derive(Debug, Clone, Copy, PartialEq, Eq, Structural)]
pub enum Authentication {
    Authenticated,
    /// It shows once the saved credentials are loaded.
    AwaitLoad,
    Unauthenticated,
}

impl StateView {
    /// The state at the start.
    pub open spec fn initial() -> Self {
        StateView {
            credentials: None,
            is_signing_in: false,
            is_refreshing: false,
            is_loading: false,
            auth_generation: 0,
            last_auth_error: None,
        }
    }

    /// How credentials are come by, where it is known whether they expire soon.
    pub open spec fn fresh_credentials(self, expires_soon: bool) -> FreshCredentialsView {
        match self.credentials {
            None => FreshCredentialsView::NoApiKey,
            Some(credentials) => if !expires_soon {
                FreshCredentialsView::Use(credentials)
            } else if self.is_refreshing {
                FreshCredentialsView::Join
            } else {
                FreshCredentialsView::Refresh {
                    refresh_token: credentials.refresh_token,
                    generation: self.auth_generation,
                }
            },
        }
    }

    /// The state after credentials were asked for.
    pub open spec fn asked(self, expires_soon: bool) -> Self {
        StateView {
            is_refreshing: self.is_refreshing || (self.credentials is Some && expires_soon),
            ..self
        }
    }

    /// The state once a renewal is over that changed nothing.
    pub open spec fn refresh_over(self) -> Self {
        StateView { is_refreshing: false, ..self }
    }

    /// The state once renewed credentials were saved.
    pub open spec fn refreshed(self, credentials: CodexCredentialsView) -> Self {
        StateView { credentials: Some(credentials), is_refreshing: false, ..self }
    }

    /// The state once the service refused to renew the credentials.
    pub open spec fn expired(self) -> Self {
        StateView {
            credentials: None,
            is_refreshing: false,
            last_auth_error: Some(SESSION_EXPIRED@),
            ..self
        }
    }

    /// The state once the user has signed out.
    pub open spec fn signed_out(self) -> Self {
        StateView {
            credentials: None,
            is_signing_in: false,
            is_refreshing: false,
            auth_generation: (self.auth_generation + 1) as u64,
            last_auth_error: None,
            ..self
        }
    }

    /// The state once a sign-in has started, where none was under way.
    pub open spec fn signing_in(self) -> Self {
        if self.is_signing_in {
            self
        } else {
            StateView { is_signing_in: true, last_auth_error: None, ..self }
        }
    }

    /// Whether a sign-in that was started in a generation is still under way.
    pub open spec fn sign_in_counts(self, generation: u64) -> bool {
        self.is_signing_in && self.auth_generation == generation
    }

    /// The state once a sign-in is over.
    pub open spec fn signed_in(self, outcome: SignInOutcome) -> Self {
        match outcome {
            SignInOutcome::Failed => StateView {
                is_signing_in: false,
                last_auth_error: Some(SIGN_IN_FAILED@),
                ..self
            },
            SignInOutcome::NotSaved => StateView {
                is_signing_in: false,
                last_auth_error: Some(NOT_SAVED@),
                ..self
            },
            SignInOutcome::Saved(credentials) => StateView {
                credentials: Some(credentials@),
                is_signing_in: false,
                last_auth_error: None,
                ..self
            },
        }
    }

    /// The state once saved credentials were looked for. Where none were found it keeps
    /// those that it has.
    pub open spec fn loaded(self, credentials: Option<CodexCredentialsView>) -> Self {
        StateView {
            credentials: match credentials {
                Some(credentials) => Some(credentials),
                None => self.credentials,
            },
            is_loading: false,
            ..self
        }
    }
}

impl State {
    pub fn new() -> (state: Self)
        ensures
            state@ == StateView::initial(),
    {
        State {
            credentials: None,
            is_signing_in: false,
            is_refreshing: false,
            is_loading: false,
            auth_generation: 0,
            last_auth_error: None,
        }
    }

    pub fn is_authenticated(&self) -> (authenticated: bool)
        ensures
            authenticated == (self@.credentials is Some),
    {
        self.credentials.is_some()
    }

    pub fn email(&self) -> (email: Option<&str>)
        ensures
            match email {
                Some(email) => self@.credentials matches Some(credentials) && credentials.email
                    == Some(email@),
                None => self@.credentials matches Some(credentials) ==> credentials.email is None,
            },
    {
        match &self.credentials {
            Some(credentials) => match &credentials.email {
                Some(email) => Some(email.as_str()),
                None => None,
            },
            None => None,
        }
    }

    /// Decides how credentials for a request are come by. Whether those that are there
    /// expire within [`TOKEN_REFRESH_BUFFER_MS`] is handed in.
    pub fn get_fresh_credentials(&mut self, expires_soon: bool) -> (fresh: FreshCredentials)
        ensures
            fresh@ == old(self)@.fresh_credentials(expires_soon),
            final(self)@ == old(self)@.asked(expires_soon),
    {
        let credentials = match &self.credentials {
            Some(credentials) => credentials,
            None => {
                return FreshCredentials::NoApiKey;
            },
        };
        if !expires_soon {
            return FreshCredentials::Use(credentials.clone());
        }
        if self.is_refreshing {
            return FreshCredentials::Join;
        }
        let refresh_token = credentials.refresh_token.clone();
        self.is_refreshing = true;
        FreshCredentials::Refresh { refresh_token, generation: self.auth_generation }
    }

    /// Takes in that credentials were renewed: whether they are to be saved. They are not
    /// where the user has signed out since the renewal began; then the renewal is over.
    pub fn refresh_succeeded(&mut self, generation: u64) -> (save: bool)
        ensures
            save == (old(self)@.auth_generation == generation),
            final(self)@ == (if save {
                old(self)@
            } else {
                old(self)@.refresh_over()
            }),
    {
        if self.auth_generation != generation {
            self.is_refreshing = false;
            return false;
        }
        true
    }

    /// Takes in whether renewed credentials were saved. Only saved ones are used.
    pub fn refresh_saved(&mut self, refreshed: CodexCredentials, saved: bool) -> (credentials: Option<
        CodexCredentials,
    >)
        ensures
            final(self)@ == (if saved {
                old(self)@.refreshed(refreshed@)
            } else {
                old(self)@.refresh_over()
            }),
            optional_credentials(credentials) == (if saved {
                Some(refreshed@)
            } else {
                None
            }),
    {
        self.is_refreshing = false;
        if saved {
            self.credentials = Some(refreshed.clone());
            Some(refreshed)
        } else {
            None
        }
    }

    /// Takes in that credentials could not be renewed: whether the saved ones are to be
    /// deleted. That is so where the service refused them for good.
    pub fn refresh_failed(&mut self, is_fatal: bool) -> (delete: bool)
        ensures
            delete == is_fatal,
            final(self)@ == (if is_fatal {
                old(self)@.expired()
            } else {
                old(self)@.refresh_over()
            }),
    {
        self.is_refreshing = false;
        if is_fatal {
            self.credentials = None;
            self.last_auth_error = Some(SESSION_EXPIRED.to_string());
        }
        is_fatal
    }

    /// Starts a sign-in, unless one is under way. The generation in which it counts is
    /// handed back.
    pub fn begin_sign_in(&mut self) -> (generation: Option<u64>)
        ensures
            generation == (if old(self)@.is_signing_in {
                None
            } else {
                Some(old(self)@.auth_generation)
            }),
            final(self)@ == old(self)@.signing_in(),
    {
        if self.is_signing_in {
            return None;
        }
        self.last_auth_error = None;
        self.is_signing_in = true;
        Some(self.auth_generation)
    }

    /// Whether a sign-in that was started in a generation is still under way. It is given
    /// up when the user signs out.
    pub fn sign_in_counts(&self, generation: u64) -> (counts: bool)
        ensures
            counts == self@.sign_in_counts(generation),
    {
        self.is_signing_in && self.auth_generation == generation
    }

    /// Takes in what a sign-in came to, unless it was given up.
    pub fn finish_sign_in(&mut self, generation: u64, outcome: SignInOutcome)
        ensures
            final(self)@ == (if old(self)@.sign_in_counts(generation) {
                old(self)@.signed_in(outcome)
            } else {
                old(self)@
            }),
    {
        if !self.sign_in_counts(generation) {
            return;
        }
        self.is_signing_in = false;
        match outcome {
            SignInOutcome::Failed => {
                self.last_auth_error = Some(SIGN_IN_FAILED.to_string());
            },
            SignInOutcome::NotSaved => {
                self.last_auth_error = Some(NOT_SAVED.to_string());
            },
            SignInOutcome::Saved(credentials) => {
                self.credentials = Some(credentials);
                self.last_auth_error = None;
            },
        }
    }

    /// Signs the user out, at once. A sign-in that is under way is given up, and a renewal
    /// whose credentials have not come yet will not count. The saved credentials are to be
    /// deleted.
    pub fn sign_out(&mut self)
        requires
            old(self)@.auth_generation < u64::MAX,
        ensures
            final(self)@ == old(self)@.signed_out(),
    {
        self.auth_generation = self.auth_generation + 1;
        self.credentials = None;
        self.is_signing_in = false;
        self.is_refreshing = false;
        self.last_auth_error = None;
    }

    /// Takes in that saved credentials are looked for.
    pub fn load_credentials(&mut self)
        ensures
            final(self)@ == (StateView { is_loading: true, ..old(self)@ }),
    {
        self.is_loading = true;
    }

    /// Takes in the saved credentials, where some were found that can be read.
    pub fn finish_load(&mut self, found: Option<CodexCredentials>)
        ensures
            final(self)@ == old(self)@.loaded(optional_credentials(found)),
    {
        match found {
            Some(credentials) => {
                self.credentials = Some(credentials);
            },
            None => {},
        }
        self.is_loading = false;
    }

    /// Whether the provider can be used.
    pub fn authenticate(&self) -> (authentication: Authentication)
        ensures
            authentication == (if self@.credentials is Some {
                Authentication::Authenticated
            } else if self@.is_loading {
                Authentication::AwaitLoad
            } else {
                Authentication::Unauthenticated
            }),
    {
        if self.is_authenticated() {
            Authentication::Authenticated
        } else if self.is_loading {
            Authentication::AwaitLoad
        } else {
            Authentication::Unauthenticated
        }
    }
}

/// The provider of the models that a subscription gives access to.
#[derive(Debug, PartialEq, Eq)]
pub struct OpenAiSubscribedProvider {
    pub state: State,
}

impl OpenAiSubscribedProvider {
    /// A provider that looks for saved credentials.
    pub fn new() -> (provider: Self)
        ensures
            provider.state@ == (StateView { is_loading: true, ..StateView::initial() }),
    {
        let mut provider = OpenAiSubscribedProvider { state: State::new() };
        provider.state.load_credentials();
        provider
    }

    /// Looks for saved credentials again.
    pub fn reload_credentials(&mut self)
        ensures
            final(self).state@ == (StateView { is_loading: true, ..old(self).state@ }),
    {
        self.state.load_credentials();
    }

    pub fn id(&self) -> (id: &'static str)
        ensures
            id@ == PROVIDER_ID@,
    {
        PROVIDER_ID
    }

    pub fn name(&self) -> (name: &'static str)
        ensures
            name@ == PROVIDER_NAME@,
    {
        PROVIDER_NAME
    }

    pub fn default_model(&self) -> (model: ChatGptModel)
        ensures
            model == ChatGptModel::Gpt55,
    {
        ChatGptModel::Gpt55
    }

    pub fn default_fast_model(&self) -> (model: ChatGptModel)
        ensures
            model == ChatGptModel::Gpt54Mini,
    {
        ChatGptModel::Gpt54Mini
    }

    pub fn provided_models(&self) -> (models: Vec<ChatGptModel>)
        ensures
            models@ == codex_model::all_models(),
    {
        ChatGptModel::all()
    }
}

/// Whether the answer of the browser belongs to the flow that was started.
pub fn oauth_state_matches(callback_state: &str, flow_state: &str) -> (matches: bool)
    ensures
        matches == (callback_state@ == flow_state@),
{
    text::same_text(callback_state, flow_state)
}

/// What the settings show of the provider.
#[derive(Debug, PartialEq, Eq)]
pub enum ConfigurationContent {
    /// Someone is signed in; the button signs out.
    SignedIn { label: String, button_label: &'static str },
    /// Nobody is signed in; the button signs in.
    SignedOut {
        label: &'static str,
        button_label: &'static str,
        /// The button shows that it is at work, has no icon and cannot be pressed.
        is_signing_in: bool,
        error: Option<String>,
    },
}

/// Writes what the settings show.
pub fn configuration_content(state: &State) -> (content: ConfigurationContent)
    ensures
        match state@.credentials {
            Some(credentials) => {
                &&& content matches ConfigurationContent::SignedIn { label, button_label }
                &&& label@ == (match credentials.email {
                    Some(email) => "Signed in as "@ + email,
                    None => "Signed in"@,
                })
                &&& button_label@ == "Sign Out"@
            },
            None => {
                &&& content matches ConfigurationContent::SignedOut {
                    label,
                    button_label,
                    is_signing_in,
                    error,
                }
                &&& label@
                    == "Sign in with your ChatGPT Plus or Pro subscription to use Codex in the agent."@
                &&& button_label@ == (if state@.is_signing_in {
                    "Signing in…"@
                } else {
                    "Sign in to use Codex"@
                })
                &&& is_signing_in == state@.is_signing_in
                &&& text::optional_text(error) == state@.last_auth_error
            },
        },
{
    if state.is_authenticated() {
        let label = match state.email() {
            Some(email) => {
                let mut label = "Signed in as ".to_string();
                label.append(email);
                label
            },
            None => "Signed in".to_string(),
        };
        return ConfigurationContent::SignedIn { label, button_label: "Sign Out" };
    }
    ConfigurationContent::SignedOut {
        label: "Sign in with your ChatGPT Plus or Pro subscription to use Codex in the agent.",
        button_label: if state.is_signing_in {
            "Signing in…"
        } else {
            "Sign in to use Codex"
        },
        is_signing_in: state.is_signing_in,
        error: state.last_auth_error.clone(),
    }
}

/// Of many requests that find the credentials about to expire, one renews them and the
/// others wait for it.
pub proof fn one_refresh_at_a_time(state: StateView)
    requires
        state.credentials is Some,
    ensures
        state.fresh_credentials(true) is Refresh <==> !state.is_refreshing,
        state.asked(true).fresh_credentials(true) == FreshCredentialsView::Join,
        state.asked(true).asked(true) == state.asked(true),
{
}

/// Credentials that do not expire soon are used as they are.
pub proof fn fresh_credentials_are_used(state: StateView, credentials: CodexCredentialsView)
    requires
        state.credentials == Some(credentials),
    ensures
        state.fresh_credentials(false) == FreshCredentialsView::Use(credentials),
        state.asked(false) == state,
{
}

/// A renewal whose credentials come after the user signed out does not count: its
/// generation is not the current one any more, and the user stays signed out.
pub proof fn sign_out_discards_refresh(state: StateView)
    requires
        state.fresh_credentials(true) is Refresh,
        state.auth_generation < u64::MAX,
    ensures
        ({
            let out = state.asked(true).signed_out();
            &&& state.fresh_credentials(true)->generation != out.auth_generation
            &&& out.refresh_over().credentials is None
            &&& !out.is_refreshing
        }),
{
}

/// A sign-in that was under way when the user signed out does not count, not even where the
/// user has started another one since; while it is under way, it counts.
pub proof fn sign_out_discards_sign_in(state: StateView)
    requires
        !state.is_signing_in,
        state.auth_generation < u64::MAX,
    ensures
        state.signing_in().sign_in_counts(state.auth_generation),
        !state.signing_in().signed_out().sign_in_counts(state.auth_generation),
        !state.signing_in().signed_out().signing_in().sign_in_counts(state.auth_generation),
        state.signing_in().signed_out().credentials is None,
        state.signing_in().signed_out().signing_in().credentials is None,
{
}

/// A refusal for good signs the user out and says so; any other failure keeps the
/// credentials and says nothing.
pub proof fn refresh_failures(state: StateView)
    ensures
        state.expired().credentials is None,
        state.expired().last_auth_error is Some,
        state.refresh_over().credentials == state.credentials,
        state.refresh_over().last_auth_error == state.last_auth_error,
        !state.expired().is_refreshing,
        !state.refresh_over().is_refreshing,
{
}

/// Whoever waits for the saved credentials is signed in once they are found.
pub proof fn found_credentials_authenticate(state: StateView, found: CodexCredentialsView)
    ensures
        state.loaded(Some(found)).credentials == Some(found),
        state.loaded(None).credentials == state.credentials,
{
}

/// Credentials are seen whole.
pub proof fn credentials_are_seen_whole(credentials: CodexCredentials)
    ensures
        credentials@.access_token == credentials.access_token@,
        credentials@.refresh_token == credentials.refresh_token@,
        credentials@.expires_at_ms == credentials.expires_at_ms,
        credentials.account_id is None ==> credentials@.account_id is None,
        credentials.account_id matches Some(id) ==> credentials@.account_id == Some(id@),
        credentials.email is None ==> credentials@.email is None,
        credentials.email matches Some(email) ==> credentials@.email == Some(email@),
        optional_credentials(Some(credentials)) == Some(credentials@),
        optional_credentials(None) is None,
{
}

/// A state is seen whole.
pub proof fn states_are_seen_whole(state: State)
    ensures
        state.credentials is None ==> state@.credentials is None,
        state.credentials matches Some(credentials) ==> state@.credentials == Some(credentials@),
        state@.is_signing_in == state.is_signing_in,
        state@.is_refreshing == state.is_refreshing,
        state@.is_loading == state.is_loading,
        state@.auth_generation == state.auth_generation,
        state.last_auth_error is None ==> state@.last_auth_error is None,
        state.last_auth_error matches Some(error) ==> state@.last_auth_error == Some(error@),
{
}

/// How credentials are come by is seen with what comes along.
pub proof fn ways_are_seen_whole(fresh: FreshCredentials)
    ensures
        fresh is NoApiKey <==> fresh@ is NoApiKey,
        fresh is Join <==> fresh@ is Join,
        fresh is Use <==> fresh@ is Use,
        fresh is Refresh <==> fresh@ is Refresh,
        fresh matches FreshCredentials::Use(credentials) ==> fresh@ == FreshCredentialsView::Use(
            credentials@,
        ),
        fresh matches FreshCredentials::Refresh { refresh_token, generation } ==> fresh@ == (
        FreshCredentialsView::Refresh { refresh_token: refresh_token@, generation }),
{
}

/// At the start nobody is signed in and nothing is under way.
pub proof fn nothing_is_under_way_at_the_start()
    ensures
        StateView::initial().credentials is None,
        !StateView::initial().is_signing_in,
        !StateView::initial().is_refreshing,
        !StateView::initial().is_loading,
        StateView::initial().auth_generation == 0,
        StateView::initial().last_auth_error is None,
{
}

/// Credentials for a request are those that the state holds: used as they are, or renewed
/// with their own refresh token in the current generation. Without credentials there is
/// nothing to use, whatever else is under way.
pub proof fn requests_use_the_held_credentials(state: StateView, expires_soon: bool)
    ensures
        state.fresh_credentials(expires_soon) is NoApiKey <==> state.credentials is None,
        state.fresh_credentials(expires_soon) is Join <==> (state.credentials is Some
            && expires_soon && state.is_refreshing),
        state.fresh_credentials(expires_soon) matches FreshCredentialsView::Use(used) ==> {
            &&& !expires_soon
            &&& state.credentials == Some(used)
        },
        state.fresh_credentials(expires_soon) matches FreshCredentialsView::Refresh {
            refresh_token,
            generation,
        } ==> {
            &&& expires_soon
            &&& !state.is_refreshing
            &&& state.credentials matches Some(held) && refresh_token == held.refresh_token
            &&& generation == state.auth_generation
        },
        state.credentials is Some && !expires_soon ==> state.fresh_credentials(expires_soon) is Use,
        state.credentials is Some && expires_soon && !state.is_refreshing
            ==> state.fresh_credentials(expires_soon) is Refresh,
{
}

/// Asking for credentials changes nothing but that a renewal is under way once one is
/// called for.
pub proof fn asking_only_starts_a_renewal(state: StateView, expires_soon: bool)
    ensures
        state.asked(expires_soon).is_refreshing <==> (state.is_refreshing
            || state.fresh_credentials(expires_soon) is Refresh),
        state.asked(expires_soon).credentials == state.credentials,
        state.asked(expires_soon).is_signing_in == state.is_signing_in,
        state.asked(expires_soon).is_loading == state.is_loading,
        state.asked(expires_soon).auth_generation == state.auth_generation,
        state.asked(expires_soon).last_auth_error == state.last_auth_error,
{
}

/// Once renewed credentials were saved they are the ones that are held, in every field: the
/// next request uses them, and the next renewal is made with their refresh token. Nothing
/// else changes but that the renewal is over.
pub proof fn renewed_credentials_are_held(state: StateView, renewed: CodexCredentialsView)
    ensures
        ({
            let after = state.refreshed(renewed);
            &&& after.credentials == Some(renewed)
            &&& after.fresh_credentials(false) == FreshCredentialsView::Use(renewed)
            &&& after.fresh_credentials(true) == (FreshCredentialsView::Refresh {
                refresh_token: renewed.refresh_token,
                generation: state.auth_generation,
            })
            &&& !after.is_refreshing
            &&& after.is_signing_in == state.is_signing_in
            &&& after.is_loading == state.is_loading
            &&& after.auth_generation == state.auth_generation
            &&& after.last_auth_error == state.last_auth_error
        }),
{
}

/// A renewal that came to nothing changes nothing but that it is over; one that the service
/// refused for good takes the credentials with it and says that the session has expired.
pub proof fn failed_renewals_change_little(state: StateView)
    ensures
        ({
            let after = state.refresh_over();
            &&& !after.is_refreshing
            &&& after.credentials == state.credentials
            &&& after.is_signing_in == state.is_signing_in
            &&& after.is_loading == state.is_loading
            &&& after.auth_generation == state.auth_generation
            &&& after.last_auth_error == state.last_auth_error
        }),
        ({
            let after = state.expired();
            &&& !after.is_refreshing
            &&& after.credentials is None
            &&& after.fresh_credentials(true) is NoApiKey
            &&& after.fresh_credentials(false) is NoApiKey
            &&& after.is_signing_in == state.is_signing_in
            &&& after.is_loading == state.is_loading
            &&& after.auth_generation == state.auth_generation
            &&& after.last_auth_error == Some(
                "Your session has expired. Please sign in again."@,
            )
        }),
{
}

/// Signing out leaves no credentials to use, nothing under way that began before, and no
/// error; the generation is a new one.
pub proof fn sign_out_leaves_nothing(state: StateView, expires_soon: bool)
    requires
        state.auth_generation < u64::MAX,
    ensures
        ({
            let after = state.signed_out();
            &&& after.credentials is None
            &&& after.fresh_credentials(expires_soon) is NoApiKey
            &&& !after.is_signing_in
            &&& !after.is_refreshing
            &&& after.is_loading == state.is_loading
            &&& after.auth_generation == state.auth_generation + 1
            &&& after.last_auth_error is None
        }),
{
}

/// Starting a sign-in forgets the last error and changes nothing else; while one is under
/// way another changes nothing at all.
pub proof fn sign_in_starts_afresh(state: StateView)
    ensures
        state.is_signing_in ==> state.signing_in() == state,
        state.signing_in().is_signing_in,
        !state.is_signing_in ==> state.signing_in().last_auth_error is None,
        state.signing_in().credentials == state.credentials,
        state.signing_in().is_refreshing == state.is_refreshing,
        state.signing_in().is_loading == state.is_loading,
        state.signing_in().auth_generation == state.auth_generation,
        forall|generation: u64| #[trigger]
            state.sign_in_counts(generation) <==> (state.is_signing_in && generation
                == state.auth_generation),
{
}

/// A sign-in whose credentials were saved leaves exactly these; one that failed leaves the
/// credentials as they were and says what went wrong. Nothing else changes but that it is
/// over.
pub proof fn sign_ins_end_as_told(state: StateView, outcome: SignInOutcome)
    ensures
        ({
            let after = state.signed_in(outcome);
            &&& !after.is_signing_in
            &&& after.is_refreshing == state.is_refreshing
            &&& after.is_loading == state.is_loading
            &&& after.auth_generation == state.auth_generation
            &&& outcome matches SignInOutcome::Saved(credentials) ==> after.credentials == Some(
                credentials@,
            ) && after.last_auth_error is None
            &&& outcome is Failed ==> after.credentials == state.credentials
                && after.last_auth_error == Some("Sign-in failed. Please try again."@)
            &&& outcome is NotSaved ==> after.credentials == state.credentials
                && after.last_auth_error == Some("Failed to save credentials. Please try again."@)
        }),
{
}

/// Loading takes in the credentials that were found, and keeps those that are there where
/// none were; nothing else changes but that it is over.
pub proof fn loading_changes_only_credentials(
    state: StateView,
    found: Option<CodexCredentialsView>,
)
    ensures
        ({
            let after = state.loaded(found);
            &&& found is Some ==> after.credentials == found
            &&& found is None ==> after.credentials == state.credentials
            &&& !after.is_loading
            &&& after.is_signing_in == state.is_signing_in
            &&& after.is_refreshing == state.is_refreshing
            &&& after.auth_generation == state.auth_generation
            &&& after.last_auth_error == state.last_auth_error
        }),
{
}

} // verus!
