//! The cache store as a whole: the backend's address, and the operations on it.

use vstd::prelude::*;
use mobc_redis::redis::{Client, RedisError};
use crate::cache::lock::{LockOp, LockStage, LockView};
use crate::cache::read::{
    ObjectRead, ReadProgress, ReadView, ScanProgress, ScanRead, ScanView,
};
use crate::cache::value::error_text;
use crate::cache::write::{batch_begins, batch_step_is, BatchStep, WriteBatch};
use crate::cache::{
    groups_pattern, key_of_user_email, key_of_user_id, user_email_key, user_id_key, users_pattern,
    Command, RedisResponse, Step, REDIS_ENTITY_TIMEOUT, REDIS_LOCK_TIMEOUT,
};
use crate::directory::{SlackUser, SlackUserGroup};
use crate::error::{ErrorKind, RedisErrors};
use crate::ordered::Snapshot;

verus! {

/// The type `Client` of the crate `redis`: a handle on a server.
#[verifier::external_type_specification]
#[verifier::external_body]
pub struct ExClient(Client);

/// Whether `Client::open` of the crate `redis` takes an address. That
/// function parses the address and opens no connection, so the address
/// alone decides; which forms of address the client knows is settled when
/// the client is built.
pub uninterp spec fn client_takes(address: Seq<char>) -> bool;

/// Calls `Client::open` of the crate `redis` with an address. That function
/// parses the address and opens no connection. The contract claims that it
/// succeeds just on the addresses that the client takes, which gives that
/// set its name and claims nothing of what is in it.
#[verifier::external_body]
fn open_client(redis_address: &str) -> (r: Result<Client, RedisError>)
    ensures
        r is Ok <==> client_takes(redis_address@),
{
    Client::open(redis_address)
}

/// The cache store: a backend at an address that the backend client accepts.
pub struct RedisServer {
    redis_client: Client,
    redis_address: String,
}

/// The listing of all entities of one kind.
pub type ScanStep<T> = Step<ScanRead<T>, T, Result<Vec<T>, RedisErrors>>;

/// The read of one entity.
pub type ReadStep<T> = Step<ObjectRead, T, RedisResponse<T, RedisErrors>>;

/// The taking of the write lock.
pub type LockStep<T> = Step<LockOp, T, Result<bool, RedisErrors>>;

impl RedisServer {
    /// The address of the backend.
    pub closed spec fn address_text(&self) -> Seq<char> {
        self.redis_address@
    }

    /// The handle of the backend client that the store holds: the one that
    /// it was opened with.
    pub closed spec fn client_handle(&self) -> Client {
        self.redis_client
    }

    /// The store at `redis_address` where the backend client took the
    /// address, holding the handle that the client gave, and else the
    /// failure to connect to it, with the client's reason.
    pub fn opened(redis_address: &str, client: Result<Client, String>) -> (r: Result<
        RedisServer,
        RedisErrors,
    >)
        ensures
            match client {
                Ok(handle) => r matches Ok(server) && server.address_text() == redis_address@
                    && server.client_handle() == handle,
                Err(reason) => r matches Err(e) && e.is_of(
                    ErrorKind::Connect,
                    redis_address@,
                    reason@,
                ),
            },
    {
        match client {
            Ok(redis_client) => Ok(
                RedisServer { redis_client, redis_address: redis_address.to_owned() },
            ),
            Err(source) => Err(
                RedisErrors::UnableToConnect { address: redis_address.to_owned(), source },
            ),
        }
    }

    /// The store at `redis_address`, where the backend client takes the
    /// address, and else the failure to connect to it; no connection is made.
    pub fn new(redis_address: &str) -> (r: Result<RedisServer, RedisErrors>)
        ensures
            r is Ok <==> client_takes(redis_address@),
            match r {
                Ok(server) => server.address_text() == redis_address@,
                Err(e) => e.kind_of() == ErrorKind::Connect && e.subject_text() == redis_address@,
            },
    {
        let client = match open_client(redis_address) {
            Ok(client) => Ok(client),
            Err(e) => Err(error_text(&e)),
        };
        Self::opened(redis_address, client)
    }

    /// The address of the backend.
    pub fn address(&self) -> (address: &str)
        ensures
            address@ == self.address_text(),
    {
        self.redis_address.as_str()
    }

    /// The backend client's handle, from which connections are made: the
    /// one that the store was opened with.
    pub fn client(&self) -> (client: &Client)
        ensures
            *client == self.client_handle(),
    {
        &self.redis_client
    }

    /// The first step of the listing of all users.
    pub fn get_all_users(&self) -> (step: ScanStep<SlackUser>)
        ensures
            step matches Step::Issue(scan, Command::Connect) && scan@ == (ScanView::<SlackUser> {
                address: self.address_text(),
                pattern: users_pattern(),
                progress: ScanProgress::Connecting,
            }),
    {
        Step::Issue(ScanRead::new(self.redis_address.as_str(), "user:id:*"), Command::Connect)
    }

    /// The first step of the listing of all user groups.
    pub fn get_all_user_groups(&self) -> (step: ScanStep<SlackUserGroup>)
        ensures
            step matches Step::Issue(scan, Command::Connect) && scan@ == (ScanView::<
                SlackUserGroup,
            > {
                address: self.address_text(),
                pattern: groups_pattern(),
                progress: ScanProgress::Connecting,
            }),
    {
        Step::Issue(
            ScanRead::new(self.redis_address.as_str(), "user_group:id:*"),
            Command::Connect,
        )
    }

    /// The first step of the read of the user with the given id.
    pub fn get_user_by_id(&self, id: String) -> (step: ReadStep<SlackUser>)
        ensures
            step matches Step::Issue(read, Command::Connect) && read@ == (ReadView {
                address: self.address_text(),
                key: user_id_key(id@),
                progress: ReadProgress::Connecting,
            }),
    {
        Step::Issue(
            ObjectRead::new(self.redis_address.as_str(), key_of_user_id(id.as_str())),
            Command::Connect,
        )
    }

    /// The first step of the read of the user with the given email address.
    pub fn get_user_by_email(&self, id: String) -> (step: ReadStep<SlackUser>)
        ensures
            step matches Step::Issue(read, Command::Connect) && read@ == (ReadView {
                address: self.address_text(),
                key: user_email_key(id@),
                progress: ReadProgress::Connecting,
            }),
    {
        Step::Issue(
            ObjectRead::new(self.redis_address.as_str(), key_of_user_email(id.as_str())),
            Command::Connect,
        )
    }

    /// The first step of the writing of all users of a snapshot, in the
    /// order of their ids, each by email address and by id, to live for
    /// half a day.
    pub fn insert_users(&self, slack_users: Snapshot<SlackUser>) -> (step: BatchStep<SlackUser>)
        ensures
            batch_step_is(
                step,
                batch_begins(self.address_text(), REDIS_ENTITY_TIMEOUT, slack_users@),
            ),
    {
        WriteBatch::start(
            self.redis_address.as_str(),
            slack_users.into_vec(),
            REDIS_ENTITY_TIMEOUT,
        )
    }

    /// The first step of the writing of all user groups of a snapshot, in
    /// the order of their ids, each by id and by name, to live for half a day.
    pub fn insert_user_groups(&self, slack_users: Snapshot<SlackUserGroup>) -> (step: BatchStep<
        SlackUserGroup,
    >)
        ensures
            batch_step_is(
                step,
                batch_begins(self.address_text(), REDIS_ENTITY_TIMEOUT, slack_users@),
            ),
    {
        WriteBatch::start(
            self.redis_address.as_str(),
            slack_users.into_vec(),
            REDIS_ENTITY_TIMEOUT,
        )
    }

    /// The first step of the taking of the write lock by `id`, with a lease
    /// of two minutes.
    pub fn acquire_lock<T>(&self, id: &str) -> (step: LockStep<T>)
        ensures
            step matches Step::Issue(op, Command::Connect) && op@ == (LockView {
                address: self.address_text(),
                holder: id@,
                lease_seconds: REDIS_LOCK_TIMEOUT,
                stage: LockStage::Connecting,
            }),
    {
        Step::Issue(LockOp::new(self.redis_address.as_str(), id, REDIS_LOCK_TIMEOUT), Command::Connect)
    }
}

impl<T, E> RedisResponse<T, E> {
    /// A result as the outcome of a read: found, or failed.
    pub fn of(result: Result<T, E>) -> (response: RedisResponse<T, E>)
        ensures
            match result {
                Ok(value) => response == RedisResponse::<T, E>::Found(value),
                Err(e) => response == RedisResponse::<T, E>::Failed(e),
            },
    {
        match result {
            Ok(value) => RedisResponse::Found(value),
            Err(e) => RedisResponse::Failed(e),
        }
    }
}

} // verus!
