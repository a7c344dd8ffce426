//! The cache store: what is written to the backend and read from it, under
//! which keys, and how its answers are understood.
//!
//! Every operation is a state machine. It names a [`Command`] for the caller
//! to carry out, is handed the [`Reply`], and goes on until it is done.

pub mod lock;
pub mod model;
pub mod read;
pub mod reconcile;
pub mod server;
pub mod value;
pub mod write;

use vstd::prelude::*;
use crate::cache::value::RedisValue;
use crate::ordered::key_texts;
use crate::text::join;

verus! {

/// The most connections that the pool opens.
pub const CACHE_POOL_MAX_OPEN: u64 = 16;

/// The most idle connections that the pool keeps.
pub const CACHE_POOL_MAX_IDLE: u64 = 8;

/// How long a caller waits for a connection, in seconds.
pub const CACHE_POOL_TIMEOUT_SECONDS: u64 = 1;

/// After how many seconds a connection is replaced.
pub const CACHE_POOL_EXPIRE_SECONDS: u64 = 60;

/// Time to live of a stored entity, in seconds: half a day.
pub const REDIS_ENTITY_TIMEOUT: usize = 12 * 60 * 60;

/// Lease of the write lock, in seconds.
pub const REDIS_LOCK_TIMEOUT: usize = 2 * 60;

/// The key of the write lock.
pub open spec fn write_lock_key() -> Seq<char> {
    "write_lock"@
}

/// The key under which a user is stored by id.
pub open spec fn user_id_key(id: Seq<char>) -> Seq<char> {
    "user:id:"@ + id
}

/// The key under which a user is stored by email address.
pub open spec fn user_email_key(email: Seq<char>) -> Seq<char> {
    "user:email:"@ + email
}

/// The key under which a user group is stored by id.
pub open spec fn group_id_key(id: Seq<char>) -> Seq<char> {
    "user_group:id:"@ + id
}

/// The key under which a user group is stored by name.
pub open spec fn group_name_key(name: Seq<char>) -> Seq<char> {
    "user_group:name:"@ + name
}

/// The pattern that the keys of all users by id match.
pub open spec fn users_pattern() -> Seq<char> {
    "user:id:*"@
}

/// The pattern that the keys of all user groups by id match.
pub open spec fn groups_pattern() -> Seq<char> {
    "user_group:id:*"@
}

/// The key under which a user is stored by id.
pub fn key_of_user_id(id: &str) -> (key: String)
    ensures
        key@ == user_id_key(id@),
{
    join("user:id:", id)
}

/// The key under which a user is stored by email address.
pub fn key_of_user_email(email: &str) -> (key: String)
    ensures
        key@ == user_email_key(email@),
{
    join("user:email:", email)
}

/// The key under which a user group is stored by id.
pub fn key_of_group_id(id: &str) -> (key: String)
    ensures
        key@ == group_id_key(id@),
{
    join("user_group:id:", id)
}

/// The key under which a user group is stored by name.
pub fn key_of_group_name(name: &str) -> (key: String)
    ensures
        key@ == group_name_key(name@),
{
    join("user_group:name:", name)
}

/// What an operation asks its caller to do next.
#[derive(Debug, PartialEq, Eq)]
pub enum Command<T> {
    /// Take a connection from the pool.
    Connect,
    /// Create `key` with `value` unless the key exists.
    SetNx { key: String, value: String },
    /// Store `value` under `key` and answer with the value held before.
    GetSet { key: String, value: String },
    /// Let `key` expire after `seconds`.
    Expire { key: String, seconds: usize },
    /// Answer with the value under `key`.
    Get { key: String },
    /// Enumerate the keys that match `pattern`; the answer is a
    /// [`RedisValue::Bulk`] of what the enumeration gave.
    ScanMatch { pattern: String },
    /// Answer with the values under all of `keys`, in one request.
    GetAll { keys: Vec<String> },
    /// Write `entity` as JSON; the answer is a [`Reply::Text`].
    Encode { entity: T },
    /// Read an entity from the JSON `input`; the answer is a [`Reply::Entity`].
    Decode { input: String },
}

/// A command as the contracts see it.
pub enum CommandView<T> {
    Connect,
    SetNx { key: Seq<char>, value: Seq<char> },
    GetSet { key: Seq<char>, value: Seq<char> },
    Expire { key: Seq<char>, seconds: usize },
    Get { key: Seq<char> },
    ScanMatch { pattern: Seq<char> },
    GetAll { keys: Seq<Seq<char>> },
    Encode { entity: T },
    Decode { input: Seq<char> },
}

impl<T> View for Command<T> {
    type V = CommandView<T>;

    open spec fn view(&self) -> CommandView<T> {
        match *self {
            Command::Connect => CommandView::Connect,
            Command::SetNx { key, value } => CommandView::SetNx { key: key@, value: value@ },
            Command::GetSet { key, value } => CommandView::GetSet { key: key@, value: value@ },
            Command::Expire { key, seconds } => CommandView::Expire { key: key@, seconds },
            Command::Get { key } => CommandView::Get { key: key@ },
            Command::ScanMatch { pattern } => CommandView::ScanMatch { pattern: pattern@ },
            Command::GetAll { keys } => CommandView::GetAll { keys: key_texts(keys@) },
            Command::Encode { entity } => CommandView::Encode { entity },
            Command::Decode { input } => CommandView::Decode { input: input@ },
        }
    }
}

/// What came of a [`Command`].
#[derive(Debug, PartialEq, Eq)]
pub enum Reply<T> {
    /// The backend's answer. After [`Command::Connect`] and
    /// [`Command::Expire`] only its presence counts.
    Value(RedisValue),
    /// The JSON of an entity.
    Text(String),
    /// The entity that a JSON text holds.
    Entity(T),
    /// The command failed; the text says why.
    Failed(String),
}

/// One step of an operation `S` that ends with an `R`.
#[derive(Debug, PartialEq, Eq)]
pub enum Step<S, T, R> {
    /// Carry out the command and hand the reply to the operation.
    Issue(S, Command<T>),
    /// The operation is over.
    Done(R),
}

/// An operation on the store, for callers that run every operation alike:
/// carry out the command of a step, hand the reply to the operation, and go
/// on until the step is [`Step::Done`].
pub trait Operation<T>: Sized {
    /// What the operation ends with.
    type Output;

    /// Takes the reply to the command issued last and says what to do next.
    fn advance(self, reply: Reply<T>) -> Step<Self, T, Self::Output>;
}

/// What the backend holds under a key, as text.
#[derive(Clone, Debug, PartialEq, Eq)]
pub enum RedisResult {
    String(String),
    Nil,
}

/// The three ways in which a read ends.
#[derive(Clone, Debug, PartialEq, Eq)]
pub enum RedisResponse<T, E> {
    /// The read failed.
    Failed(E),
    /// Nothing is stored under the key.
    Missing,
    /// The entity found.
    Found(T),
}

} // verus!
