//! What is sent to the server and how its answer is classified.
//!
//! The library does not perform the exchange. [`prepare`] says what to send:
//! an HTTP `POST` with basic authentication and a fixed time limit. The caller
//! performs it and reports what happened as a [`Reply`], which [`accept`]
//! turns into the response body or the failure.

use crate::decimal::{decimal, push_decimal};
use crate::error::{outcome, Missing, RelayError, RelayFault};
use crate::model::{ConnectionDescriptor, ConnectionModel};
use crate::text::{is_blank, is_blank_text, trim, trimmed};
use vstd::prelude::*;

verus! {

/// The time allowed for one exchange, in seconds.
pub const REQUEST_TIMEOUT_SECS: u64 = 10;

/// The body reported for a failed exchange whose body could not be read.
pub open spec fn unread_body_text() -> Seq<char> {
    "Unable to read error body"@
}

/// An HTTP `POST` to perform: `body` is sent to `url` with basic
/// authentication, and the exchange is given up after `timeout_secs`.
#[derive(Debug, Clone, PartialEq, Eq)]
pub struct PostRequest {
    pub url: String,
    pub username: String,
    pub password: String,
    pub body: String,
    pub timeout_secs: u64,
}

/// The mathematical value of a [`PostRequest`].
pub struct PostRequestModel {
    pub url: Seq<char>,
    pub username: Seq<char>,
    pub password: Seq<char>,
    pub body: Seq<char>,
    pub timeout_secs: u64,
}

impl View for PostRequest {
    type V = PostRequestModel;

    open spec fn view(&self) -> PostRequestModel {
        PostRequestModel {
            url: self.url@,
            username: self.username@,
            password: self.password@,
            body: self.body@,
            timeout_secs: self.timeout_secs,
        }
    }
}

/// A response body as the caller got it: its text, or why it could not be
/// read.
#[derive(Debug, Clone, PartialEq, Eq)]
pub enum Body {
    Text(String),
    Unreadable(String),
}

/// The mathematical value of a [`Body`].
pub enum BodyModel {
    Text(Seq<char>),
    Unreadable(Seq<char>),
}

impl View for Body {
    type V = BodyModel;

    open spec fn view(&self) -> BodyModel {
        match self {
            Body::Text(text) => BodyModel::Text(text@),
            Body::Unreadable(cause) => BodyModel::Unreadable(cause@),
        }
    }
}

/// What became of an exchange.
#[derive(Debug, Clone, PartialEq, Eq)]
pub enum Reply {
    /// The transport client could not be set up; holds the cause.
    ClientFailed(String),
    /// No response arrived; holds the cause.
    SendFailed(String),
    /// The server answered with the status code `status`, whose standard
    /// phrase is `reason`.
    Answered { status: u16, reason: String, body: Body },
}

/// The mathematical value of a [`Reply`].
pub enum ReplyModel {
    ClientFailed(Seq<char>),
    SendFailed(Seq<char>),
    Answered { status: u16, reason: Seq<char>, body: BodyModel },
}

impl View for Reply {
    type V = ReplyModel;

    open spec fn view(&self) -> ReplyModel {
        match self {
            Reply::ClientFailed(cause) => ReplyModel::ClientFailed(cause@),
            Reply::SendFailed(cause) => ReplyModel::SendFailed(cause@),
            Reply::Answered { status, reason, body } => ReplyModel::Answered {
                status: *status,
                reason: reason@,
                body: body@,
            },
        }
    }
}

/// What a connection lacks: the host, else the user name, where it is blank.
pub open spec fn connection_fault(connection: ConnectionModel) -> Option<Missing> {
    if is_blank(connection.host) {
        Some(Missing::Host)
    } else if is_blank(connection.username) {
        Some(Missing::Username)
    } else {
        None
    }
}

/// The address of an endpoint: `scheme://host:port/`, with `https` for a
/// secure connection and `http` otherwise.
pub open spec fn endpoint(secure: bool, host: Seq<char>, port: u16) -> Seq<char> {
    (if secure {
        "https"@
    } else {
        "http"@
    }) + "://"@ + host + ":"@ + decimal(port as nat) + "/"@
}

/// What to send to run `statement` over `connection`, or the input that the
/// connection lacks.
pub open spec fn prepared(connection: ConnectionModel, statement: Seq<char>) -> Result<
    PostRequestModel,
    RelayFault,
> {
    match connection_fault(connection) {
        Some(missing) => Err(RelayFault::Validation(missing)),
        None => Ok(
            PostRequestModel {
                url: endpoint(connection.secure, trimmed(connection.host), connection.port),
                username: trimmed(connection.username),
                password: connection.password,
                body: statement,
                timeout_secs: REQUEST_TIMEOUT_SECS,
            },
        ),
    }
}

/// Whether a status code reports success: 200 to 299.
pub open spec fn is_success(status: u16) -> bool {
    200 <= status < 300
}

/// The body of a successful exchange, or the failure that the reply reports.
pub open spec fn accepted(reply: ReplyModel) -> Result<BodyModel, RelayFault> {
    match reply {
        ReplyModel::ClientFailed(cause) => Err(RelayFault::Configuration(cause)),
        ReplyModel::SendFailed(cause) => Err(RelayFault::Connectivity(cause)),
        ReplyModel::Answered { status, reason, body } => if is_success(status) {
            Ok(body)
        } else {
            Err(
                RelayFault::Server {
                    status,
                    reason,
                    body: match body {
                        BodyModel::Text(text) => text,
                        BodyModel::Unreadable(_) => unread_body_text(),
                    },
                },
            )
        },
    }
}

/// The address of an endpoint: `scheme://host:port/`, with `https` for a
/// secure connection and `http` otherwise.
pub fn endpoint_url(secure: bool, host: &str, port: u16) -> (url: String)
    ensures
        url@ == endpoint(secure, host@, port),
{
    let mut url = String::new();
    if secure {
        url.append("https");
    } else {
        url.append("http");
    }
    url.append("://");
    url.append(host);
    url.append(":");
    push_decimal(&mut url, port as u64);
    url.append("/");
    assert(url@ =~= endpoint(secure, host@, port));
    url
}

/// What to send to run `statement` over `connection`: a `POST` of the
/// statement to the connection's endpoint, with the user name taken without
/// the white space around it and the password as it is. Fails, before
/// anything is sent, where the host or the user name is blank.
pub fn prepare(connection: &ConnectionDescriptor, statement: String) -> (r: Result<
    PostRequest,
    RelayError,
>)
    ensures
        outcome(r) == prepared(connection@, statement@),
{
    if is_blank_text(connection.host.as_str()) {
        return Err(RelayError::Validation(Missing::Host));
    }
    if is_blank_text(connection.username.as_str()) {
        return Err(RelayError::Validation(Missing::Username));
    }
    Ok(
        PostRequest {
            url: endpoint_url(connection.secure, trim(connection.host.as_str()), connection.port),
            username: trim(connection.username.as_str()).to_owned(),
            password: connection.password.clone(),
            body: statement,
            timeout_secs: REQUEST_TIMEOUT_SECS,
        },
    )
}

/// The body of a successful exchange, or the failure that the reply reports:
/// a configuration error where the client could not be set up, a connectivity
/// error where no response arrived, a server error for a status outside 200
/// to 299.
pub fn accept(reply: Reply) -> (r: Result<Body, RelayError>)
    ensures
        outcome(r) == accepted(reply@),
{
    match reply {
        Reply::ClientFailed(cause) => Err(RelayError::Configuration(cause)),
        Reply::SendFailed(cause) => Err(RelayError::Connectivity(cause)),
        Reply::Answered { status, reason, body } => {
            if 200 <= status && status < 300 {
                Ok(body)
            } else {
                let text = match body {
                    Body::Text(text) => text,
                    Body::Unreadable(_) => "Unable to read error body".to_owned(),
                };
                Err(RelayError::Server { status, reason, body: text })
            }
        },
    }
}

} // verus!
