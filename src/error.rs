//! Errors surfaced to the caller of the agent's operations.
use vstd::prelude::*;
use vstd::string::*;

verus! {

/// What can go wrong while talking to the server or acting on its answers.
#[derive(Debug, Clone, PartialEq, Eq)]
pub enum ClientError {
    /// The stream failed; holds the transport's own description.
    IoError(String),
    InvalidResponse(String),
    NoSlotsAvailable,
    ConnectionError(String),
    CommandError(String),
    ResourceError(String),
    InventoryError(String),
    IncantationError(String),
    BroadcastError(String),
}

impl ClientError {
    pub fn invalid_response<M: Into<String>>(msg: M) -> (r: Self)
        ensures
            r matches ClientError::InvalidResponse(m) && call_ensures(M::into, (msg,), m),
    {
        ClientError::InvalidResponse(msg.into())
    }

    pub fn connection_error<M: Into<String>>(msg: M) -> (r: Self)
        ensures
            r matches ClientError::ConnectionError(m) && call_ensures(M::into, (msg,), m),
    {
        ClientError::ConnectionError(msg.into())
    }

    pub fn command_error<M: Into<String>>(msg: M) -> (r: Self)
        ensures
            r matches ClientError::CommandError(m) && call_ensures(M::into, (msg,), m),
    {
        ClientError::CommandError(msg.into())
    }

    pub fn resource_error<M: Into<String>>(msg: M) -> (r: Self)
        ensures
            r matches ClientError::ResourceError(m) && call_ensures(M::into, (msg,), m),
    {
        ClientError::ResourceError(msg.into())
    }

    pub fn inventory_error<M: Into<String>>(msg: M) -> (r: Self)
        ensures
            r matches ClientError::InventoryError(m) && call_ensures(M::into, (msg,), m),
    {
        ClientError::InventoryError(msg.into())
    }

    pub fn incantation_error<M: Into<String>>(msg: M) -> (r: Self)
        ensures
            r matches ClientError::IncantationError(m) && call_ensures(M::into, (msg,), m),
    {
        ClientError::IncantationError(msg.into())
    }

    pub fn broadcast_error<M: Into<String>>(msg: M) -> (r: Self)
        ensures
            r matches ClientError::BroadcastError(m) && call_ensures(M::into, (msg,), m),
    {
        ClientError::BroadcastError(msg.into())
    }

    /// The human-readable form of the error: a fixed label, then the detail.
    pub fn describe(&self) -> (r: String)
        ensures
            r@ == error_text(*self),
    {
        match self {
            ClientError::IoError(m) => String::from_str("IO error: ").concat(m.as_str()),
            ClientError::InvalidResponse(m) => String::from_str("Invalid response: ").concat(
                m.as_str(),
            ),
            ClientError::NoSlotsAvailable => String::from_str("No slots available for team"),
            ClientError::ConnectionError(m) => String::from_str("Connection error: ").concat(
                m.as_str(),
            ),
            ClientError::CommandError(m) => String::from_str("Command error: ").concat(m.as_str()),
            ClientError::ResourceError(m) => String::from_str("Resource error: ").concat(
                m.as_str(),
            ),
            ClientError::InventoryError(m) => String::from_str("Inventory error: ").concat(
                m.as_str(),
            ),
            ClientError::IncantationError(m) => String::from_str("Incantation error: ").concat(
                m.as_str(),
            ),
            ClientError::BroadcastError(m) => String::from_str("Broadcast error: ").concat(
                m.as_str(),
            ),
        }
    }
}

/// The text that `describe` gives for `e`.
pub open spec fn error_text(e: ClientError) -> Seq<char> {
    match e {
        ClientError::IoError(m) => "IO error: "@ + m@,
        ClientError::InvalidResponse(m) => "Invalid response: "@ + m@,
        ClientError::NoSlotsAvailable => "No slots available for team"@,
        ClientError::ConnectionError(m) => "Connection error: "@ + m@,
        ClientError::CommandError(m) => "Command error: "@ + m@,
        ClientError::ResourceError(m) => "Resource error: "@ + m@,
        ClientError::InventoryError(m) => "Inventory error: "@ + m@,
        ClientError::IncantationError(m) => "Incantation error: "@ + m@,
        ClientError::BroadcastError(m) => "Broadcast error: "@ + m@,
    }
}

} // verus!
