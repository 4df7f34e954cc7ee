//! The cycle of one token request: the client asks synchronously, the
//! credentials are fetched and signed elsewhere under a deadline, and the
//! request ends with a token, a timeout or the provider's failure.

use crate::error::KafkaError;
use vstd::prelude::*;
use vstd::string::*;

verus! {

/// Seconds allowed for one operation against the cluster or the provider.
pub const TIMEOUT_SECS: u64 = 10;

/// A bearer token and the time at which it expires, in milliseconds since the epoch.
#[derive(Debug, Clone, PartialEq, Eq)]
pub struct AuthToken {
    pub token: String,
    pub expires_at_epoch_ms: i64,
}

/// Where a token request stands.
#[derive(Debug, Clone, Copy, PartialEq, Eq)]
pub enum TokenState {
    Idle,
    Requesting,
    Fulfilled,
    TimedOut,
    Failed,
}

/// What happens to a token request.
#[derive(Debug, Clone, PartialEq, Eq)]
pub enum TokenEvent {
    /// The client asks for a token.
    Invoked,
    /// The provider signed: the token and its expiry.
    Signed(String, i64),
    /// The deadline passed before the provider answered.
    Elapsed,
    /// The provider or the signing failed, with this cause.
    Refused(String),
}

/// What the caller does next for a token request.
#[derive(Debug, Clone, PartialEq, Eq)]
pub enum TokenAction {
    /// Tell the user that authorization is under way, then fetch and sign for
    /// this region away from the calling context, and wait for the outcome no
    /// longer than this many seconds.
    Dispatch { region: String, timeout_secs: u64 },
    /// Hand the token to the client.
    Deliver(AuthToken),
    /// Fail the request with this error.
    Abort(KafkaError),
}

impl TokenState {
    /// Holds for the states in which a request is over.
    pub open spec fn is_final(&self) -> bool {
        *self == TokenState::Fulfilled || *self == TokenState::TimedOut || *self
            == TokenState::Failed
    }

    /// Holds when `event` can happen in this state: a request is invoked once,
    /// and then gets exactly one outcome.
    pub open spec fn accepts(&self, event: TokenEvent) -> bool {
        match self {
            TokenState::Idle => event == TokenEvent::Invoked,
            TokenState::Requesting => event != TokenEvent::Invoked,
            _ => false,
        }
    }

    /// Tells whether `event` can happen in this state.
    pub fn admits(&self, event: &TokenEvent) -> (ok: bool)
        ensures
            ok == self.accepts(*event),
    {
        match self {
            TokenState::Idle => match event {
                TokenEvent::Invoked => true,
                _ => false,
            },
            TokenState::Requesting => match event {
                TokenEvent::Invoked => false,
                _ => true,
            },
            _ => false,
        }
    }

    /// The state that follows this one on `event`.
    pub open spec fn after(&self, event: TokenEvent) -> TokenState {
        match (*self, event) {
            (TokenState::Idle, TokenEvent::Invoked) => TokenState::Requesting,
            (TokenState::Requesting, TokenEvent::Signed(_, _)) => TokenState::Fulfilled,
            (TokenState::Requesting, TokenEvent::Elapsed) => TokenState::TimedOut,
            (TokenState::Requesting, TokenEvent::Refused(_)) => TokenState::Failed,
            (state, _) => state,
        }
    }
}

/// What generates tokens for the cluster: the region to sign for and the
/// deadline of a request. Both are set once, when the context is made.
#[derive(Debug, Clone, PartialEq, Eq)]
pub struct IamContext {
    region: String,
    timeout_secs: u64,
}

impl IamContext {
    /// The region that tokens are signed for.
    pub closed spec fn region_name(&self) -> Seq<char> {
        self.region@
    }

    /// The seconds that one request may take.
    pub closed spec fn deadline(&self) -> u64 {
        self.timeout_secs
    }

    /// A context for a region, with the deadline of a request in seconds.
    pub fn new(region: &str, timeout_secs: u64) -> (context: IamContext)
        ensures
            context.region_name() == region@,
            context.deadline() == timeout_secs,
    {
        IamContext { region: String::from_str(region), timeout_secs }
    }

    /// The region that tokens are signed for.
    pub fn region(&self) -> (region: &str)
        ensures
            region@ == self.region_name(),
    {
        self.region.as_str()
    }

    /// The seconds that one request may take.
    pub fn timeout_secs(&self) -> (seconds: u64)
        ensures
            seconds == self.deadline(),
    {
        self.timeout_secs
    }

    /// One step of a token request: what to do on `event` in `state`, and the
    /// state that follows.
    ///
    /// The invocation has the fetch dispatched under this context's deadline.
    /// A signed token is delivered as it came; a passed deadline ends the
    /// request with a timeout; a failure ends it with the provider's cause.
    pub fn generate_oauth_token(&self, state: TokenState, event: TokenEvent) -> (step: (
        TokenState,
        TokenAction,
    ))
        requires
            state.accepts(event),
        ensures
            step.0 == state.after(event),
            match event {
                TokenEvent::Invoked => step.1 matches TokenAction::Dispatch { region, timeout_secs }
                    && region@ == self.region_name() && timeout_secs == self.deadline(),
                TokenEvent::Signed(token, expiry) => step.1 matches TokenAction::Deliver(auth)
                    && auth.token@ == token@ && auth.expires_at_epoch_ms == expiry,
                TokenEvent::Elapsed => step.1 == TokenAction::Abort(
                    KafkaError::TokenGenerationTimeout,
                ),
                TokenEvent::Refused(cause) => step.1 matches TokenAction::Abort(
                    KafkaError::TokenGenerationFailed(kept),
                ) && kept@ == cause@,
            },
    {
        match event {
            TokenEvent::Invoked => (
                TokenState::Requesting,
                TokenAction::Dispatch {
                    region: self.region.clone(),
                    timeout_secs: self.timeout_secs,
                },
            ),
            TokenEvent::Signed(token, expiry) => (
                TokenState::Fulfilled,
                TokenAction::Deliver(AuthToken { token, expires_at_epoch_ms: expiry }),
            ),
            TokenEvent::Elapsed => (
                TokenState::TimedOut,
                TokenAction::Abort(KafkaError::TokenGenerationTimeout),
            ),
            TokenEvent::Refused(cause) => (
                TokenState::Failed,
                TokenAction::Abort(KafkaError::TokenGenerationFailed(cause)),
            ),
        }
    }
}

/// A request runs through exactly two events: its invocation and one outcome.
/// Whatever the outcome, the request is then over and accepts nothing more.
pub proof fn lemma_token_cycle(first: TokenEvent, second: TokenEvent)
    requires
        TokenState::Idle.accepts(first),
        TokenState::Idle.after(first).accepts(second),
    ensures
        TokenState::Idle.after(first) == TokenState::Requesting,
        TokenState::Idle.after(first).after(second).is_final(),
        forall|third: TokenEvent| !TokenState::Idle.after(first).after(second).accepts(third),
        second == TokenEvent::Elapsed <==> TokenState::Idle.after(first).after(second)
            == TokenState::TimedOut,
{
}

} // verus!
