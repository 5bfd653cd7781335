//! The failures that an operation can report, and the text shown for each.

use vstd::prelude::*;

verus! {

/// A required input that was blank.
#[derive(Debug, Clone, Copy, PartialEq, Eq, Structural)]
pub enum Missing {
    Host,
    Username,
    Schema,
    Table,
    Query,
}

/// The step at which a response body was lost: while it was read from the
/// connection, or while it was decoded.
#[derive(Debug, Clone, Copy, PartialEq, Eq, Structural)]
pub enum DecodeStage {
    Read,
    Parse,
}

/// Why an operation failed.
#[derive(Debug, Clone, PartialEq, Eq)]
pub enum RelayError {
    /// A required input was blank; nothing was sent.
    Validation(Missing),
    /// The transport client could not be set up; holds the cause.
    Configuration(String),
    /// The server could not be reached; holds the cause.
    Connectivity(String),
    /// The server answered with a status outside 200 to 299.
    Server { status: u16, reason: String, body: String },
    /// The response body could not be read or did not have the expected shape.
    Decoding { stage: DecodeStage, cause: String },
    /// The status probe returned no row.
    Protocol,
}

/// The mathematical value of a [`RelayError`].
pub enum RelayFault {
    Validation(Missing),
    Configuration(Seq<char>),
    Connectivity(Seq<char>),
    Server { status: u16, reason: Seq<char>, body: Seq<char> },
    Decoding { stage: DecodeStage, cause: Seq<char> },
    Protocol,
}

impl View for RelayError {
    type V = RelayFault;

    open spec fn view(&self) -> RelayFault {
        match self {
            RelayError::Validation(missing) => RelayFault::Validation(*missing),
            RelayError::Configuration(cause) => RelayFault::Configuration(cause@),
            RelayError::Connectivity(cause) => RelayFault::Connectivity(cause@),
            RelayError::Server { status, reason, body } => RelayFault::Server {
                status: *status,
                reason: reason@,
                body: body@,
            },
            RelayError::Decoding { stage, cause } => RelayFault::Decoding {
                stage: *stage,
                cause: cause@,
            },
            RelayError::Protocol => RelayFault::Protocol,
        }
    }
}

/// The views of both sides of a result.
pub open spec fn outcome<T: View, E: View>(r: Result<T, E>) -> Result<T::V, E::V> {
    match r {
        Ok(value) => Ok(value@),
        Err(error) => Err(error@),
    }
}

impl Missing {
    /// The name of the input, as it is written in messages.
    pub open spec fn label(self) -> Seq<char> {
        match self {
            Missing::Host => "Host"@,
            Missing::Username => "Username"@,
            Missing::Schema => "Schema"@,
            Missing::Table => "Table"@,
            Missing::Query => "Query"@,
        }
    }

    /// The name of the input, as it is written in messages.
    pub fn label_text(&self) -> (text: &'static str)
        ensures
            text@ == self.label(),
    {
        match self {
            Missing::Host => "Host",
            Missing::Username => "Username",
            Missing::Schema => "Schema",
            Missing::Table => "Table",
            Missing::Query => "Query",
        }
    }
}

impl RelayFault {
    /// Whether the failure is a validation error.
    pub open spec fn is_validation(self) -> bool {
        self is Validation
    }

    /// The text shown for the failure.
    pub open spec fn message(self) -> Seq<char> {
        match self {
            RelayFault::Validation(missing) => missing.label() + " is required"@,
            RelayFault::Configuration(cause) => "Could not initialize ClickHouse client: "@ + cause,
            RelayFault::Connectivity(cause) => "Could not connect to ClickHouse: "@ + cause,
            RelayFault::Server { status, reason, body } => "ClickHouse returned "@
                + crate::decimal::decimal(status as nat) + " "@ + reason + ": "@ + body,
            RelayFault::Decoding { stage: DecodeStage::Read, cause } =>
                "Could not read ClickHouse response: "@ + cause,
            RelayFault::Decoding { stage: DecodeStage::Parse, cause } =>
                "Could not parse ClickHouse response: "@ + cause,
            RelayFault::Protocol => "Could not read ClickHouse status"@,
        }
    }
}

impl RelayError {
    /// The text shown for the failure.
    pub fn message(&self) -> (text: String)
        ensures
            text@ == self@.message(),
    {
        let mut text = String::new();
        match self {
            RelayError::Validation(missing) => {
                text.append(missing.label_text());
                text.append(" is required");
            },
            RelayError::Configuration(cause) => {
                text.append("Could not initialize ClickHouse client: ");
                text.append(cause.as_str());
            },
            RelayError::Connectivity(cause) => {
                text.append("Could not connect to ClickHouse: ");
                text.append(cause.as_str());
            },
            RelayError::Server { status, reason, body } => {
                text.append("ClickHouse returned ");
                crate::decimal::push_decimal(&mut text, *status as u64);
                text.append(" ");
                text.append(reason.as_str());
                text.append(": ");
                text.append(body.as_str());
            },
            RelayError::Decoding { stage, cause } => {
                match stage {
                    DecodeStage::Read => text.append("Could not read ClickHouse response: "),
                    DecodeStage::Parse => text.append("Could not parse ClickHouse response: "),
                }
                text.append(cause.as_str());
            },
            RelayError::Protocol => {
                text.append("Could not read ClickHouse status");
            },
        }
        assert(text@ =~= self@.message());
        text
    }
}

} // verus!
