//! The sign-in flow of the agent: one flow at a time, bound to a state and to a time.
use vstd::prelude::*;

use crate::text;

verus! {

/// How long a sign-in flow may take, in milliseconds.
pub const AGENT_SIGN_IN_EXPIRATION_MS: u64 = 600_000;

/// A flow that was set up with the authorization server.
#[derive(Debug, PartialEq, Eq)]
pub struct OAuthFlow {
    pub authorize_url: String,
    pub state: String,
    pub verifier: String,
}

/// A flow that waits for its completion.
#[derive(Debug, PartialEq, Eq)]
pub struct PendingAgentSignIn {
    pub verifier: String,
    pub state: String,
    /// The time after which the flow is void, on a clock that never goes back.
    pub expires_at_ms: u64,
}

/// The model of a [`PendingAgentSignIn`].
pub struct PendingView {
    pub verifier: Seq<char>,
    pub state: Seq<char>,
    pub expires_at_ms: u64,
}

impl View for PendingAgentSignIn {
    type V = PendingView;

    open spec fn view(&self) -> PendingView {
        PendingView {
            verifier: self.verifier@,
            state: self.state@,
            expires_at_ms: self.expires_at_ms,
        }
    }
}

/// The model of a flow that may be there.
pub open spec fn pending_view(pending: Option<PendingAgentSignIn>) -> Option<PendingView> {
    match pending {
        Some(pending) => Some(pending@),
        None => None,
    }
}

/// The answer to a request to sign in.
#[derive(Debug, PartialEq, Eq)]
pub struct BeginAgentSignInResponse {
    pub authorize_url: String,
    pub state: String,
}

/// Why a flow could not be completed.
#[derive(Debug, Clone, Copy, PartialEq, Eq, Structural)]
pub enum SignInError {
    NoPendingFlow,
    Expired,
    StateMismatch,
}

impl SignInError {
    pub open spec fn text(self) -> Seq<char> {
        match self {
            SignInError::NoPendingFlow => "no pending agent sign-in flow"@,
            SignInError::Expired => "agent sign-in flow expired"@,
            SignInError::StateMismatch => "agent sign-in state mismatch"@,
        }
    }

    pub fn message(&self) -> (message: &'static str)
        ensures
            message@ == self.text(),
    {
        match self {
            SignInError::NoPendingFlow => "no pending agent sign-in flow",
            SignInError::Expired => "agent sign-in flow expired",
            SignInError::StateMismatch => "agent sign-in state mismatch",
        }
    }
}

/// Starts a flow in the place of the one that may be there. The flow that was set up, or
/// why it was not, is handed in, with the time.
pub fn begin_agent_sign_in<E>(
    pending_sign_in: &mut Option<PendingAgentSignIn>,
    flow: Result<OAuthFlow, E>,
    now_ms: u64,
) -> (res: Result<BeginAgentSignInResponse, E>)
    requires
        now_ms + AGENT_SIGN_IN_EXPIRATION_MS <= u64::MAX,
    ensures
        match flow {
            Ok(flow) => {
                &&& res matches Ok(response)
                &&& response.authorize_url@ == flow.authorize_url@
                &&& response.state@ == flow.state@
                &&& pending_view(*final(pending_sign_in)) == Some(
                    PendingView {
                        verifier: flow.verifier@,
                        state: flow.state@,
                        expires_at_ms: (now_ms + AGENT_SIGN_IN_EXPIRATION_MS) as u64,
                    },
                )
            },
            Err(error) => {
                &&& res == Err::<BeginAgentSignInResponse, E>(error)
                &&& *final(pending_sign_in) == *old(pending_sign_in)
            },
        },
{
    match flow {
        Ok(flow) => {
            *pending_sign_in = Some(
                PendingAgentSignIn {
                    verifier: flow.verifier,
                    state: flow.state.clone(),
                    expires_at_ms: now_ms + AGENT_SIGN_IN_EXPIRATION_MS,
                },
            );
            Ok(BeginAgentSignInResponse { authorize_url: flow.authorize_url, state: flow.state })
        },
        Err(error) => Err(error),
    }
}

/// What completing a flow gives: its verifier, or what is wrong.
pub open spec fn completed(pending: Option<PendingView>, state: Seq<char>, now_ms: u64) -> Result<
    Seq<char>,
    SignInError,
> {
    match pending {
        None => Err(SignInError::NoPendingFlow),
        Some(pending) => if now_ms > pending.expires_at_ms {
            Err(SignInError::Expired)
        } else if pending.state != state {
            Err(SignInError::StateMismatch)
        } else {
            Ok(pending.verifier)
        },
    }
}

/// Ends the flow that may be there, whatever comes of it, and gives its verifier where
/// the state is right and the time has not run out.
pub fn take_pending_sign_in_verifier(
    pending_sign_in: &mut Option<PendingAgentSignIn>,
    state: &str,
    now_ms: u64,
) -> (res: Result<String, SignInError>)
    ensures
        *final(pending_sign_in) is None,
        match res {
            Ok(verifier) => completed(pending_view(*old(pending_sign_in)), state@, now_ms) == Ok::<
                Seq<char>,
                SignInError,
            >(verifier@),
            Err(error) => completed(pending_view(*old(pending_sign_in)), state@, now_ms) == Err::<
                Seq<char>,
                SignInError,
            >(error),
        },
{
    match pending_sign_in.take() {
        None => Err(SignInError::NoPendingFlow),
        Some(pending) => {
            if now_ms > pending.expires_at_ms {
                Err(SignInError::Expired)
            } else if !text::same_text(&pending.state, state) {
                Err(SignInError::StateMismatch)
            } else {
                Ok(pending.verifier)
            }
        },
    }
}

/// A flow is completed by its own state within its time, and by nothing else.
pub proof fn only_the_flow_completes(pending: PendingView, state: Seq<char>, now_ms: u64)
    ensures
        completed(Some(pending), state, now_ms) is Ok <==> (state == pending.state && now_ms
            <= pending.expires_at_ms),
        completed(Some(pending), state, now_ms) matches Ok(verifier) ==> verifier
            == pending.verifier,
        completed(None, state, now_ms) is Err,
{
}

/// A flow that takes the place of another completes in its stead: the state of the first
/// one is refused, where the second has another.
pub proof fn a_new_flow_replaces_the_old(first: PendingView, second: PendingView, now_ms: u64)
    requires
        first.state != second.state,
    ensures
        completed(Some(second), first.state, now_ms) is Err,
        now_ms <= second.expires_at_ms ==> completed(Some(second), first.state, now_ms) == Err::<
            Seq<char>,
            SignInError,
        >(SignInError::StateMismatch),
        now_ms <= second.expires_at_ms ==> completed(Some(second), second.state, now_ms) == Ok::<
            Seq<char>,
            SignInError,
        >(second.verifier),
{
}

/// A flow is seen whole.
pub proof fn flows_are_seen_whole(pending: PendingAgentSignIn)
    ensures
        pending@.verifier == pending.verifier@,
        pending@.state == pending.state@,
        pending@.expires_at_ms == pending.expires_at_ms,
        pending_view(Some(pending)) == Some(pending@),
        pending_view(None) is None,
{
}

/// Why a flow is not completed: there is none, its time has run out, or the state is that of
/// another. A flow whose time has run out is told so even with its own state.
pub proof fn refusals_tell_why(pending: PendingView, state: Seq<char>, now_ms: u64)
    ensures
        completed(None, state, now_ms) == Err::<Seq<char>, SignInError>(SignInError::NoPendingFlow),
        now_ms > pending.expires_at_ms ==> completed(Some(pending), state, now_ms) == Err::<
            Seq<char>,
            SignInError,
        >(SignInError::Expired),
        now_ms <= pending.expires_at_ms && state != pending.state ==> completed(
            Some(pending),
            state,
            now_ms,
        ) == Err::<Seq<char>, SignInError>(SignInError::StateMismatch),
        now_ms <= pending.expires_at_ms ==> completed(Some(pending), pending.state, now_ms) == Ok::<
            Seq<char>,
            SignInError,
        >(pending.verifier),
{
}

/// Each reason that a flow could not be completed is told in words of its own.
pub proof fn refusals_are_told_apart(told: SignInError)
    ensures
        told.text() == "no pending agent sign-in flow"@ <==> told is NoPendingFlow,
        told.text() == "agent sign-in flow expired"@ <==> told is Expired,
        told.text() == "agent sign-in state mismatch"@ <==> told is StateMismatch,
{
    reveal_strlit("no pending agent sign-in flow");
    reveal_strlit("agent sign-in flow expired");
    reveal_strlit("agent sign-in state mismatch");
    assert("no pending agent sign-in flow"@.len() == 29);
    assert("agent sign-in flow expired"@.len() == 26);
    assert("agent sign-in state mismatch"@.len() == 28);
}

} // verus!
