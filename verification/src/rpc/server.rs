//! The side of a connection that takes commands.
use crate::error::NodeError;
use crate::primary::api::auth::token_matches;
use crate::rpc::protocol::{AuthRequest, AuthResponse};
use vstd::prelude::*;
use vstd::string::*;

verus! {

/// The server that the primary connects to. It serves one connection at a
/// time: where a new one arrives, the old one is dropped.
#[derive(Debug, PartialEq, Eq)]
pub struct RpcServer {
    pub current: Option<u64>,
}

impl RpcServer {
    /// A server without a connection.
    pub fn new() -> (res: RpcServer)
        ensures
            res.current is None,
    {
        RpcServer { current: None }
    }

    /// Takes a new connection, and gives the one to drop.
    pub fn accept(&mut self, connection: u64) -> (res: Option<u64>)
        ensures
            res == old(self).current,
            final(self).current == Some(connection),
    {
        let old = self.current;
        self.current = Some(connection);
        old
    }

    /// Takes that a connection has ended. A connection that was dropped
    /// before does not end the one that took its place.
    pub fn closed(&mut self, connection: u64)
        ensures
            final(self).current == if old(self).current == Some(connection) {
                None
            } else {
                old(self).current
            },
    {
        if let Some(current) = self.current {
            if current == connection {
                self.current = None;
            }
        }
    }
}

/// What came of reading the first message of a connection: the message, the
/// end of the stream, or the words of an error.
#[derive(Debug, PartialEq, Eq)]
pub enum FirstMessage {
    Request(AuthRequest),
    Closed,
    Failed(String),
}

/// What a server does with the first message of a connection.
#[derive(Debug, PartialEq, Eq)]
pub enum Handshake {
    /// Send the answer, then go on.
    Accept(AuthResponse),
    /// Send the answer, then give the connection up.
    Reject(AuthResponse, NodeError),
    /// Give the connection up.
    Abort(NodeError),
}

/// Whether an error is a bad request with the given words.
pub open spec fn is_bad_request(error: NodeError, words: Seq<char>) -> bool {
    error matches NodeError::BadRequest(w) && w@ == words
}

pub(crate) fn bad_request(what: &str, why: &String) -> (res: NodeError)
    ensures
        is_bad_request(res, what@ + why@),
{
    let mut words = what.to_owned();
    words.append(why.as_str());
    NodeError::BadRequest(words)
}

/// Decides about a connection by its first message: it must carry the
/// expected token.
pub fn authenticate(first: FirstMessage, auth_token: &String) -> (res: Handshake)
    ensures
        match first {
            FirstMessage::Failed(why) => res matches Handshake::Abort(e) && is_bad_request(
                e,
                "auth read: "@ + why@,
            ),
            FirstMessage::Closed => res matches Handshake::Abort(e) && is_bad_request(
                e,
                "connection closed before auth"@,
            ),
            FirstMessage::Request(request) => if request.token@ == auth_token@ {
                res == Handshake::Accept(AuthResponse { ok: true })
            } else {
                res matches Handshake::Reject(answer, e) && !answer.ok && is_bad_request(
                    e,
                    "invalid auth token"@,
                )
            },
        },
{
    match first {
        FirstMessage::Failed(why) => Handshake::Abort(bad_request("auth read: ", &why)),
        FirstMessage::Closed => Handshake::Abort(
            NodeError::BadRequest("connection closed before auth".to_owned()),
        ),
        FirstMessage::Request(request) => if token_matches(
            request.token.as_str(),
            auth_token.as_str(),
        ) {
            Handshake::Accept(AuthResponse { ok: true })
        } else {
            Handshake::Reject(
                AuthResponse { ok: false },
                NodeError::BadRequest("invalid auth token".to_owned()),
            )
        },
    }
}

/// The error where the answer to the first message could not be sent.
pub fn answer_failed(why: &String) -> (res: NodeError)
    ensures
        is_bad_request(res, "auth write: "@ + why@),
{
    bad_request("auth write: ", why)
}

/// A bad request carries its own words and is no other error.
pub proof fn bad_requests_carry_their_words(error: NodeError, words: Seq<char>)
    ensures
        is_bad_request(error, words) ==> error is BadRequest && error->BadRequest_0@ == words,
        error is BadRequest ==> is_bad_request(error, error->BadRequest_0@),
{
}

} // verus!
