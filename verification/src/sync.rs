//! The synchronizer: takes the write lock, fetches both snapshots, and
//! writes what was fetched.
//!
//! A run passes through its stages in this order: lock, users, groups,
//! writing of users, writing of groups. Each stage is a value that takes
//! the outcome of what it asked for and names the next stage.

use vstd::prelude::*;
use crate::cache::lock::{LockStage, LockView};
use crate::cache::server::{client_takes, LockStep, RedisServer};
use crate::cache::write::{batch_begins, batch_step_is, BatchStep, Entry, WriteSummary};
use crate::cache::{Command, Step, REDIS_ENTITY_TIMEOUT, REDIS_LOCK_TIMEOUT};
use crate::directory::groups::{groups_request, GroupsRequest};
use crate::directory::users::{PagerStep, UserPager, USERS_PAGE_LIMIT};
use crate::directory::{SlackUser, SlackUserGroup};
use crate::error::{CliErrors, ErrorKind, RedisErrors, SlackErrors};
use crate::options::UpdateRedisArgs;
use crate::ordered::Snapshot;

verus! {

/// The stage at which the answer of the lock is awaited.
pub struct LockCheck {
    server: RedisServer,
    ignore_lock: bool,
}

/// The stage at which the snapshot of the users is awaited.
pub struct UsersWait {
    server: RedisServer,
}

/// The stage at which the snapshot of the user groups is awaited.
pub struct GroupsWait {
    server: RedisServer,
    users: Option<Snapshot<SlackUser>>,
}

/// The stage at which the end of the writing of the users is awaited.
pub struct UsersWrite {
    server: RedisServer,
    groups: Option<Snapshot<SlackUserGroup>>,
}

/// The stage at which the end of the writing of the user groups is awaited.
pub struct GroupsWrite {
    users_fetched: bool,
}

/// One step of a run.
pub enum SyncStep {
    /// Take the write lock and hand the outcome to the stage.
    AcquireLock(LockCheck, LockStep<()>),
    /// Fetch all users and hand the snapshot, or its absence, to the stage.
    FetchUsers(UsersWait, PagerStep),
    /// Fetch all user groups and hand the snapshot, or its absence, to the stage.
    FetchGroups(GroupsWait, GroupsRequest),
    /// Write the users and hand the summary to the stage.
    WriteUsers(UsersWrite, BatchStep<SlackUser>),
    /// Write the user groups and hand the summary to the stage.
    WriteGroups(GroupsWrite, BatchStep<SlackUserGroup>),
    /// The run is over.
    Finish(Result<(), CliErrors>),
}

/// `step` begins the writing of the entities `pending` at the backend at `address`.
pub open spec fn begins_writing<T: Entry>(
    step: BatchStep<T>,
    address: Seq<char>,
    pending: Seq<T>,
) -> bool {
    batch_step_is(step, batch_begins(address, REDIS_ENTITY_TIMEOUT, pending))
}

/// `step` ends the run because a snapshot could not be fetched.
pub open spec fn fetch_failed(step: SyncStep) -> bool {
    step matches SyncStep::Finish(Err(CliErrors::Slack(SlackErrors::UnableToFetch)))
}

/// `step` ends the run with the failure `e` of the cache.
pub open spec fn cache_failed(step: SyncStep, e: RedisErrors) -> bool {
    step matches SyncStep::Finish(Err(CliErrors::Redis(err))) && err == e
}

/// `step` begins the writing of the user groups `groups`, after users that
/// were fetched or not.
pub open spec fn writes_groups(
    step: SyncStep,
    address: Seq<char>,
    groups: Snapshot<SlackUserGroup>,
    users_fetched: bool,
) -> bool {
    step matches SyncStep::WriteGroups(stage, batch) && stage.users_fetched_before()
        == users_fetched && begins_writing(batch, address, groups@)
}

impl LockCheck {
    /// The store that the run writes to.
    pub closed spec fn store(&self) -> RedisServer {
        self.server
    }

    /// The address of the backend.
    pub closed spec fn address_text(&self) -> Seq<char> {
        self.server.address_text()
    }

    /// Whether the run writes even where another holds the lock.
    pub closed spec fn ignores_lock(&self) -> bool {
        self.ignore_lock
    }

    /// The store that the run writes to: the one that the run was begun
    /// with, holding the client handle that it was opened with.
    pub fn server(&self) -> (server: &RedisServer)
        ensures
            *server == self.store(),
            server.address_text() == self.address_text(),
    {
        &self.server
    }

    /// Takes the outcome of the taking of the lock.
    ///
    /// A failure ends the run with that failure. The run goes on to fetch
    /// the users where the lock was taken, or where it is to be ignored; and
    /// where another holds it the run ends, quietly and without a write.
    pub fn resume(self, lock: Result<bool, RedisErrors>) -> (step: SyncStep)
        ensures
            match lock {
                Err(e) => cache_failed(step, e),
                Ok(taken) => if taken || self.ignores_lock() {
                    step matches SyncStep::FetchUsers(stage, PagerStep::Fetch(pager, request))
                        && stage.store() == self.store() && stage.address_text()
                        == self.address_text() && pager@ == Seq::<
                        SlackUser,
                    >::empty() && request.cursor is None && request.limit == Some(
                        USERS_PAGE_LIMIT,
                    )
                } else {
                    step matches SyncStep::Finish(Ok(_))
                },
            },
    {
        match lock {
            Err(e) => SyncStep::Finish(Err(CliErrors::Redis(e))),
            Ok(taken) => if taken || self.ignore_lock {
                SyncStep::FetchUsers(UsersWait { server: self.server }, UserPager::start())
            } else {
                SyncStep::Finish(Ok(()))
            },
        }
    }
}

impl UsersWait {
    /// The store that the run writes to.
    pub closed spec fn store(&self) -> RedisServer {
        self.server
    }

    /// The address of the backend.
    pub closed spec fn address_text(&self) -> Seq<char> {
        self.server.address_text()
    }

    /// Takes the snapshot of the users, or its absence, and goes on to fetch
    /// the user groups whichever came.
    pub fn resume(self, users: Option<Snapshot<SlackUser>>) -> (step: SyncStep)
        ensures
            step matches SyncStep::FetchGroups(stage, request) && stage.store() == self.store()
                && stage.address_text() == self.address_text() && stage.users() == users
                && request == (GroupsRequest {
                include_disabled: Some(false),
                include_count: Some(false),
                include_users: Some(true),
            }),
    {
        SyncStep::FetchGroups(GroupsWait { server: self.server, users }, groups_request())
    }
}

impl GroupsWait {
    /// The store that the run writes to.
    pub closed spec fn store(&self) -> RedisServer {
        self.server
    }

    /// The address of the backend.
    pub closed spec fn address_text(&self) -> Seq<char> {
        self.server.address_text()
    }

    /// The snapshot of the users, where it was fetched.
    pub closed spec fn users(&self) -> Option<Snapshot<SlackUser>> {
        self.users
    }

    /// Takes the snapshot of the user groups, or its absence.
    ///
    /// The users are written where they were fetched, else the user groups
    /// where they were; a kind that was not fetched is not written. Where
    /// neither was fetched the run ends with that failure.
    pub fn resume(self, groups: Option<Snapshot<SlackUserGroup>>) -> (step: SyncStep)
        ensures
            match (self.users(), groups) {
                (Some(users), _) => step matches SyncStep::WriteUsers(stage, batch)
                    && stage.store() == self.store() && stage.address_text()
                    == self.address_text() && stage.groups() == groups
                    && begins_writing(batch, self.address_text(), users@),
                (None, Some(fetched)) => writes_groups(step, self.address_text(), fetched, false),
                (None, None) => fetch_failed(step),
            },
    {
        let GroupsWait { server, users } = self;
        match users {
            Some(users) => {
                let batch = server.insert_users(users);
                SyncStep::WriteUsers(UsersWrite { server, groups }, batch)
            },
            None => match groups {
                Some(groups) => {
                    let batch = server.insert_user_groups(groups);
                    SyncStep::WriteGroups(GroupsWrite { users_fetched: false }, batch)
                },
                None => SyncStep::Finish(Err(CliErrors::Slack(SlackErrors::UnableToFetch))),
            },
        }
    }
}

impl UsersWrite {
    /// The store that the run writes to.
    pub closed spec fn store(&self) -> RedisServer {
        self.server
    }

    /// The address of the backend.
    pub closed spec fn address_text(&self) -> Seq<char> {
        self.server.address_text()
    }

    /// The snapshot of the user groups, where it was fetched.
    pub closed spec fn groups(&self) -> Option<Snapshot<SlackUserGroup>> {
        self.groups
    }

    /// Takes the outcome of the writing of the users.
    ///
    /// A failure ends the run with that failure. Else the user groups are
    /// written where they were fetched, and the run ends with the failure to
    /// fetch them where they were not.
    pub fn resume(self, written: Result<WriteSummary, RedisErrors>) -> (step: SyncStep)
        ensures
            match written {
                Err(e) => cache_failed(step, e),
                Ok(_) => match self.groups() {
                    Some(groups) => writes_groups(step, self.address_text(), groups, true),
                    None => fetch_failed(step),
                },
            },
    {
        let UsersWrite { server, groups } = self;
        match written {
            Err(e) => SyncStep::Finish(Err(CliErrors::Redis(e))),
            Ok(_) => match groups {
                Some(groups) => {
                    let batch = server.insert_user_groups(groups);
                    SyncStep::WriteGroups(GroupsWrite { users_fetched: true }, batch)
                },
                None => SyncStep::Finish(Err(CliErrors::Slack(SlackErrors::UnableToFetch))),
            },
        }
    }
}

impl GroupsWrite {
    /// Whether the users were fetched, and so written, before.
    pub closed spec fn users_fetched_before(&self) -> bool {
        self.users_fetched
    }

    /// Takes the outcome of the writing of the user groups and ends the run:
    /// with that failure, with the failure to fetch the users where they
    /// were not fetched, and else well.
    pub fn resume(self, written: Result<WriteSummary, RedisErrors>) -> (step: SyncStep)
        ensures
            match written {
                Err(e) => cache_failed(step, e),
                Ok(_) => if self.users_fetched_before() {
                    step matches SyncStep::Finish(Ok(_))
                } else {
                    fetch_failed(step)
                },
            },
    {
        match written {
            Err(e) => SyncStep::Finish(Err(CliErrors::Redis(e))),
            Ok(_) => if self.users_fetched {
                SyncStep::Finish(Ok(()))
            } else {
                SyncStep::Finish(Err(CliErrors::Slack(SlackErrors::UnableToFetch)))
            },
        }
    }
}

/// The first step of a run at the store `opened`, or the end of the run
/// where no store could be had: the lock is asked for in the name of the
/// server's identity.
pub fn begin_update(args: &UpdateRedisArgs, opened: Result<RedisServer, RedisErrors>) -> (step:
    SyncStep)
    ensures
        match opened {
            Err(e) => cache_failed(step, e),
            Ok(server) => step matches SyncStep::AcquireLock(stage, Step::Issue(op, Command::Connect))
                && stage.store() == server && stage.address_text() == server.address_text()
                && stage.ignores_lock() == args.ignore_lock && op@ == (LockView {
                address: server.address_text(),
                holder: args.server_id@,
                lease_seconds: REDIS_LOCK_TIMEOUT,
                stage: LockStage::Connecting,
            }),
        },
{
    match opened {
        Err(e) => SyncStep::Finish(Err(CliErrors::Redis(e))),
        Ok(server) => {
            let lock = server.acquire_lock(args.server_id.as_str());
            SyncStep::AcquireLock(LockCheck { server, ignore_lock: args.ignore_lock }, lock)
        },
    }
}

/// The first step of a run: the store at the address given is opened, and
/// the lock is asked for. Where the backend client does not take the
/// address the run ends with the failure to connect.
pub fn redis_update(args: &UpdateRedisArgs) -> (step: SyncStep)
    ensures
        client_takes(args.redis_address@) ==> step is AcquireLock,
        !client_takes(args.redis_address@) ==> step is Finish,
        match step {
            SyncStep::AcquireLock(stage, Step::Issue(op, Command::Connect)) => stage.address_text()
                == args.redis_address@ && stage.ignores_lock() == args.ignore_lock && op@ == (
            LockView {
                address: args.redis_address@,
                holder: args.server_id@,
                lease_seconds: REDIS_LOCK_TIMEOUT,
                stage: LockStage::Connecting,
            }),
            SyncStep::Finish(Err(CliErrors::Redis(e))) => e.kind_of() == ErrorKind::Connect
                && e.subject_text() == args.redis_address@,
            _ => false,
        },
{
    begin_update(args, RedisServer::new(args.redis_address.as_str()))
}

} // verus!
