//! The credentials of a user and the handshake that obtains a session key.
//!
//! The handshake asks the service for a request token, has the user grant
//! access at an address that holds the token, and then exchanges the token
//! for a session key. It is a machine of states: the caller sends what it is
//! asked to send, waits where it is asked to wait, and hands back what
//! happened.

use crate::lastfmapi::{
    failure_message, session_params, session_reply, signed, token_reply, ApiError, Failure,
    HttpReply, HttpRequest, LastfmApi, LastfmApiBuilder, RequestBody, AUDIOSCROBBLER_HOST,
};
use vstd::prelude::*;
use vstd::string::*;

verus! {

/// The credentials that requests are made with. The session key is empty
/// until a handshake has completed.
#[derive(Debug)]
pub struct AuthConfig {
    pub api_key: String,
    pub secret_key: String,
    pub session_key: String,
}

/// Where a handshake stands.
#[derive(Debug)]
pub enum Handshake {
    /// The request token was asked for.
    AwaitingToken,
    /// The user was asked to grant access with this request token.
    AwaitingConfirmation { request_token: String },
    /// The session key was asked for.
    AwaitingSession,
    /// The handshake is over.
    Finished,
}

/// What happened since the last step of a handshake.
#[derive(Debug)]
pub enum HandshakeEvent {
    /// The exchange that was asked for ended with this reply.
    Reply(HttpReply),
    /// The user has confirmed.
    Confirmed,
}

/// Why a handshake failed.
#[derive(Debug)]
pub enum HandshakeError {
    /// No request token was obtained.
    RequestToken(ApiError),
    /// No session key was obtained.
    SessionToken(ApiError),
    /// An event came that the state does not wait for.
    Unexpected,
}

/// The model of a [`HandshakeError`].
pub enum HandshakeFailure {
    RequestToken(Failure),
    SessionToken(Failure),
    Unexpected,
}

impl View for HandshakeError {
    type V = HandshakeFailure;

    open spec fn view(&self) -> HandshakeFailure {
        match self {
            HandshakeError::RequestToken(error) => HandshakeFailure::RequestToken(error@),
            HandshakeError::SessionToken(error) => HandshakeFailure::SessionToken(error@),
            HandshakeError::Unexpected => HandshakeFailure::Unexpected,
        }
    }
}

/// The words of the failure of a handshake.
pub open spec fn handshake_failure_message(failure: HandshakeFailure) -> Seq<char> {
    match failure {
        HandshakeFailure::RequestToken(inner) => failure_message(inner),
        HandshakeFailure::SessionToken(inner) => "cannot get session token: "@ + failure_message(
            inner,
        ),
        HandshakeFailure::Unexpected => "unexpected event"@,
    }
}

impl HandshakeError {
    /// The error in words.
    pub fn message(&self) -> (words: String)
        ensures
            words@ == handshake_failure_message(self@),
    {
        match self {
            HandshakeError::RequestToken(inner) => inner.message(),
            HandshakeError::SessionToken(inner) => String::from_str(
                "cannot get session token: ",
            ).concat(inner.message().as_str()),
            HandshakeError::Unexpected => String::from_str("unexpected event"),
        }
    }
}

/// What the caller of a handshake does next.
#[derive(Debug)]
pub enum HandshakeAction {
    /// Send the request and hand back the reply.
    Send(HttpRequest),
    /// Show the user this address, wait until the user confirms, and hand
    /// back the confirmation.
    Confirm(String),
    /// The handshake succeeded: keep these credentials.
    Save(AuthConfig),
    /// The handshake failed.
    Fail(HandshakeError),
}

/// The address at which the user grants access for a request token.
pub open spec fn authorization_url(api_key: Seq<char>, token: Seq<char>) -> Seq<char> {
    "http://www.last.fm/api/auth/?api_key="@ + api_key + "&token="@ + token
}

/// Whether `request` is the token request of `api`.
pub open spec fn asks_token(request: HttpRequest, api: LastfmApi) -> bool {
    &&& request.url@ == api.api_host@ + "/2.0/?method=auth.gettoken&api_key="@
        + api.auth_config.api_key@ + "&format=json"@
    &&& request.body is Empty
}

/// Whether `request` is the signed session request of `api` for a token.
pub open spec fn asks_session(request: HttpRequest, api: LastfmApi, token: Seq<char>) -> bool {
    &&& request.url@ == api.api_host@ + "/2.0"@
    &&& request.body matches RequestBody::Form(params) && params@ == signed(
        session_params(api.auth_config.api_key@, token),
        api.auth_config.secret_key@,
    )
}

/// Whether a step of the handshake is right: the state and the action that
/// follow a state and an event.
pub open spec fn handshake_follows(
    api: LastfmApi,
    state: Handshake,
    event: HandshakeEvent,
    next: (Handshake, HandshakeAction),
) -> bool {
    match (state, event) {
        (Handshake::AwaitingToken, HandshakeEvent::Reply(reply)) => match token_reply(reply) {
            Ok(token) => {
                &&& next.0 matches Handshake::AwaitingConfirmation { request_token }
                    && request_token@ == token
                &&& next.1 matches HandshakeAction::Confirm(url) && url@ == authorization_url(
                    api.auth_config.api_key@,
                    token,
                )
            },
            Err(failure) => {
                &&& next.0 is Finished
                &&& next.1 matches HandshakeAction::Fail(error) && error@
                    == HandshakeFailure::RequestToken(failure)
            },
        },
        (Handshake::AwaitingConfirmation { request_token }, HandshakeEvent::Confirmed) => {
            &&& next.0 is AwaitingSession
            &&& next.1 matches HandshakeAction::Send(request) && asks_session(
                request,
                api,
                request_token@,
            )
        },
        (Handshake::AwaitingSession, HandshakeEvent::Reply(reply)) => match session_reply(reply) {
            Ok(key) => {
                &&& next.0 is Finished
                &&& next.1 matches HandshakeAction::Save(config) && config.api_key@
                    == api.auth_config.api_key@ && config.secret_key@ == api.auth_config.secret_key@
                    && config.session_key@ == key
            },
            Err(failure) => {
                &&& next.0 is Finished
                &&& next.1 matches HandshakeAction::Fail(error) && error@
                    == HandshakeFailure::SessionToken(failure)
            },
        },
        _ => {
            &&& next.0 is Finished
            &&& next.1 matches HandshakeAction::Fail(error) && error@
                == HandshakeFailure::Unexpected
        },
    }
}

/// Starts the handshake for an API key and its secret: the client that the
/// handshake talks through, which has no session key yet, and the request
/// for a request token as the first thing to send.
pub fn authenticate(api_key: String, secret_key: String) -> (start: (
    LastfmApi,
    Handshake,
    HandshakeAction,
))
    ensures
        start.0.auth_config.api_key == api_key,
        start.0.auth_config.secret_key == secret_key,
        start.0.auth_config.session_key@ == Seq::<char>::empty(),
        start.0.api_host@ == AUDIOSCROBBLER_HOST@,
        start.1 is AwaitingToken,
        start.2 matches HandshakeAction::Send(request) && asks_token(request, start.0),
{
    let auth_config = AuthConfig { api_key, secret_key, session_key: String::new() };
    let api = LastfmApiBuilder::new(auth_config).build();
    let request = api.token_request();
    (api, Handshake::AwaitingToken, HandshakeAction::Send(request))
}

/// Takes what happened since the last step of a handshake, and says what
/// the handshake asks for next. The handshake fails where either call of the
/// service fails; it waits for the user as long as the caller does.
pub fn continue_handshake(api: &LastfmApi, state: Handshake, event: HandshakeEvent) -> (next: (
    Handshake,
    HandshakeAction,
))
    ensures
        handshake_follows(*api, state, event, next),
{
    match (state, event) {
        (Handshake::AwaitingToken, HandshakeEvent::Reply(reply)) => {
            match api.get_request_token(&reply) {
                Ok(request_token) => {
                    let mut url = String::from_str("http://www.last.fm/api/auth/?api_key=");
                    url.append(api.auth_config.api_key.as_str());
                    url.append("&token=");
                    url.append(request_token.as_str());
                    (
                        Handshake::AwaitingConfirmation { request_token },
                        HandshakeAction::Confirm(url),
                    )
                },
                Err(error) => (
                    Handshake::Finished,
                    HandshakeAction::Fail(HandshakeError::RequestToken(error)),
                ),
            }
        },
        (Handshake::AwaitingConfirmation { request_token }, HandshakeEvent::Confirmed) => (
            Handshake::AwaitingSession,
            HandshakeAction::Send(api.session_request(request_token)),
        ),
        (Handshake::AwaitingSession, HandshakeEvent::Reply(reply)) => {
            match api.get_session_token(&reply) {
                Ok(session_key) => (
                    Handshake::Finished,
                    HandshakeAction::Save(
                        AuthConfig {
                            api_key: api.auth_config.api_key.clone(),
                            secret_key: api.auth_config.secret_key.clone(),
                            session_key,
                        },
                    ),
                ),
                Err(error) => (
                    Handshake::Finished,
                    HandshakeAction::Fail(HandshakeError::SessionToken(error)),
                ),
            }
        },
        _ => (Handshake::Finished, HandshakeAction::Fail(HandshakeError::Unexpected)),
    }
}

} // verus!
