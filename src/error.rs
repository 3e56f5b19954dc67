use crate::permission::{ChannelPermission, HubPermission};
use vstd::prelude::*;

verus! {

/// Errors that can occur when using the server's operations.
#[derive(Clone, Debug, PartialEq, Eq)]
pub enum Error {
    Muted,
    Banned,
    HubNotFound,
    ChannelNotFound,
    MissingHubPermission(HubPermission),
    MissingChannelPermission(ChannelPermission),
    NotInHub,
    MemberNotFound,
    MessageNotFound,
    GroupNotFound,
    InvalidName,
    UnexpectedServerArg,
    TooBig,
    InvalidText,
    InvalidMessage,
    InvalidFingerprint,
    PublicKeyNotFound,
    AlreadyTyping,
    NotTyping,
    InternalMessageFailed,
    ServerStartFailed,
    GetIndexWriter,
    GetIndexReader,
    Io,
    Serialize,
    Bincode,
    Index,
    QueryParse,
    PGP,
    Net,
    Other(String),
}

/// The HTTP status code that an error is reported with.
pub open spec fn spec_status_code(e: Error) -> u16 {
    match e {
        Error::InvalidName | Error::TooBig | Error::InvalidText => 400,
        Error::Banned | Error::Muted | Error::MissingChannelPermission(_)
        | Error::MissingHubPermission(_) => 403,
        Error::ChannelNotFound | Error::GroupNotFound | Error::HubNotFound | Error::MemberNotFound
        | Error::MessageNotFound | Error::NotInHub => 404,
        Error::AlreadyTyping | Error::NotTyping => 409,
        _ => 500,
    }
}

impl Error {
    /// HTTP status code for this error: 400 for bad input, 403 for refusals, 404 for lookup
    /// misses, 409 for typing conflicts, 500 otherwise.
    pub fn status_code(&self) -> (r: u16)
        ensures
            r == spec_status_code(*self),
    {
        match self {
            Error::InvalidName => 400,
            Error::TooBig => 400,
            Error::InvalidText => 400,
            Error::Banned => 403,
            Error::Muted => 403,
            Error::MissingChannelPermission(_) => 403,
            Error::MissingHubPermission(_) => 403,
            Error::ChannelNotFound => 404,
            Error::GroupNotFound => 404,
            Error::HubNotFound => 404,
            Error::MemberNotFound => 404,
            Error::MessageNotFound => 404,
            Error::NotInHub => 404,
            Error::AlreadyTyping => 409,
            Error::NotTyping => 409,
            _ => 500,
        }
    }
}

/// Result type of the server's operations, the error type defaults to [`Error`].
pub type Result<T = (), E = Error> = core::result::Result<T, E>;

} // verus!
