//! What can go wrong, by the place where it went wrong.

use vstd::prelude::*;
use crate::text::join;

verus! {

/// A failure of the directory API.
#[derive(Clone, Debug, PartialEq, Eq)]
pub enum SlackErrors {
    /// A listing could not be fetched, or what came back could not be read.
    UnableToFetch,
}

/// A failure of the cache, with the key or address concerned and the text of
/// the cause.
#[derive(Clone, Debug, PartialEq, Eq)]
pub enum RedisErrors {
    /// No connection to the backend could be had.
    UnableToConnect { address: String, source: String },
    /// A value could not be written.
    UnableToSet { key: String, source: String },
    /// A value, or a list of keys, could not be read.
    UnableToGet { key: String, source: String },
    /// The time to live of a key could not be set.
    UnableToExpire { key: String, source: String },
    /// The backend answered with a value of an unexpected shape.
    UnableToReadValue { key: String, source: String },
    /// A stored value is not the JSON of the entity asked for.
    UnableToDeserialize { input: String, source: String },
}

/// The place where a cache failure arose.
#[derive(Clone, Copy, Debug, PartialEq, Eq)]
pub enum ErrorKind {
    /// No connection to the backend.
    Connect,
    /// A write failed.
    Write,
    /// A read or an enumeration failed.
    Read,
    /// A time to live could not be set.
    Expire,
    /// The backend's value has an unexpected shape.
    ValueDecode,
    /// A stored text holds no entity.
    Deserialize,
}

/// A failure of a whole run.
#[derive(Clone, Debug, PartialEq, Eq)]
pub enum CliErrors {
    Redis(RedisErrors),
    Slack(SlackErrors),
}

impl SlackErrors {
    /// The text shown for this failure.
    pub open spec fn message_text(self) -> Seq<char> {
        "Unable to fetch from Slack"@
    }

    /// The text shown for this failure.
    pub fn message(&self) -> (text: String)
        ensures
            text@ == self.message_text(),
    {
        String::from_str("Unable to fetch from Slack")
    }
}

impl RedisErrors {
    /// The text shown for this failure.
    pub open spec fn message_text(self) -> Seq<char> {
        match self {
            RedisErrors::UnableToConnect { address, .. } => "Unable to connect to "@ + address@,
            RedisErrors::UnableToSet { key, .. } => "Unable to write "@ + key@ + " to redis"@,
            RedisErrors::UnableToGet { key, .. } => "Unable to read "@ + key@ + " from redis"@,
            RedisErrors::UnableToExpire { key, .. } => "Unable to set "@ + key@ + " to expire"@,
            RedisErrors::UnableToReadValue { key, .. } => "Unable to read "@ + key@ + " value"@,
            RedisErrors::UnableToDeserialize { input, .. } => "Unable to deserialize "@ + input@,
        }
    }

    /// The place where this failure arose.
    pub open spec fn kind_of(self) -> ErrorKind {
        match self {
            RedisErrors::UnableToConnect { .. } => ErrorKind::Connect,
            RedisErrors::UnableToSet { .. } => ErrorKind::Write,
            RedisErrors::UnableToGet { .. } => ErrorKind::Read,
            RedisErrors::UnableToExpire { .. } => ErrorKind::Expire,
            RedisErrors::UnableToReadValue { .. } => ErrorKind::ValueDecode,
            RedisErrors::UnableToDeserialize { .. } => ErrorKind::Deserialize,
        }
    }

    /// What the failure is about: the address, the key or pattern, or the
    /// text that could not be read.
    pub open spec fn subject_text(self) -> Seq<char> {
        match self {
            RedisErrors::UnableToConnect { address, .. } => address@,
            RedisErrors::UnableToSet { key, .. } => key@,
            RedisErrors::UnableToGet { key, .. } => key@,
            RedisErrors::UnableToExpire { key, .. } => key@,
            RedisErrors::UnableToReadValue { key, .. } => key@,
            RedisErrors::UnableToDeserialize { input, .. } => input@,
        }
    }

    /// This is the failure of the given kind, about `subject`, caused by `source`.
    pub open spec fn is_of(self, kind: ErrorKind, subject: Seq<char>, source: Seq<char>) -> bool {
        self.kind_of() == kind && self.subject_text() == subject && self.source_text() == source
    }

    /// The text of the cause.
    pub open spec fn source_text(self) -> Seq<char> {
        match self {
            RedisErrors::UnableToConnect { source, .. } => source@,
            RedisErrors::UnableToSet { source, .. } => source@,
            RedisErrors::UnableToGet { source, .. } => source@,
            RedisErrors::UnableToExpire { source, .. } => source@,
            RedisErrors::UnableToReadValue { source, .. } => source@,
            RedisErrors::UnableToDeserialize { source, .. } => source@,
        }
    }

    /// The text shown for this failure.
    pub fn message(&self) -> (text: String)
        ensures
            text@ == self.message_text(),
    {
        match self {
            RedisErrors::UnableToConnect { address, .. } => join(
                "Unable to connect to ",
                address.as_str(),
            ),
            RedisErrors::UnableToSet { key, .. } => join("Unable to write ", key.as_str()).concat(
                " to redis",
            ),
            RedisErrors::UnableToGet { key, .. } => join("Unable to read ", key.as_str()).concat(
                " from redis",
            ),
            RedisErrors::UnableToExpire { key, .. } => join("Unable to set ", key.as_str()).concat(
                " to expire",
            ),
            RedisErrors::UnableToReadValue { key, .. } => join(
                "Unable to read ",
                key.as_str(),
            ).concat(" value"),
            RedisErrors::UnableToDeserialize { input, .. } => join(
                "Unable to deserialize ",
                input.as_str(),
            ),
        }
    }

    /// The place where this failure arose.
    pub fn kind(&self) -> (kind: ErrorKind)
        ensures
            kind == self.kind_of(),
    {
        match self {
            RedisErrors::UnableToConnect { .. } => ErrorKind::Connect,
            RedisErrors::UnableToSet { .. } => ErrorKind::Write,
            RedisErrors::UnableToGet { .. } => ErrorKind::Read,
            RedisErrors::UnableToExpire { .. } => ErrorKind::Expire,
            RedisErrors::UnableToReadValue { .. } => ErrorKind::ValueDecode,
            RedisErrors::UnableToDeserialize { .. } => ErrorKind::Deserialize,
        }
    }

    /// What the failure is about: the address, the key or pattern, or the
    /// text that could not be read.
    pub fn subject(&self) -> (text: &str)
        ensures
            text@ == self.subject_text(),
    {
        match self {
            RedisErrors::UnableToConnect { address, .. } => address.as_str(),
            RedisErrors::UnableToSet { key, .. } => key.as_str(),
            RedisErrors::UnableToGet { key, .. } => key.as_str(),
            RedisErrors::UnableToExpire { key, .. } => key.as_str(),
            RedisErrors::UnableToReadValue { key, .. } => key.as_str(),
            RedisErrors::UnableToDeserialize { input, .. } => input.as_str(),
        }
    }

    /// The text of the cause.
    pub fn source(&self) -> (text: &str)
        ensures
            text@ == self.source_text(),
    {
        match self {
            RedisErrors::UnableToConnect { source, .. } => source.as_str(),
            RedisErrors::UnableToSet { source, .. } => source.as_str(),
            RedisErrors::UnableToGet { source, .. } => source.as_str(),
            RedisErrors::UnableToExpire { source, .. } => source.as_str(),
            RedisErrors::UnableToReadValue { source, .. } => source.as_str(),
            RedisErrors::UnableToDeserialize { source, .. } => source.as_str(),
        }
    }
}

impl CliErrors {
    /// The text shown for this failure: that of the failure it wraps.
    pub open spec fn message_text(self) -> Seq<char> {
        match self {
            CliErrors::Redis(e) => e.message_text(),
            CliErrors::Slack(e) => e.message_text(),
        }
    }

    /// The text shown for this failure: that of the failure it wraps.
    pub fn message(&self) -> (text: String)
        ensures
            text@ == self.message_text(),
    {
        match self {
            CliErrors::Redis(e) => e.message(),
            CliErrors::Slack(e) => e.message(),
        }
    }
}

} // verus!
