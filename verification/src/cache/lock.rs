//! The write lock: one key that a synchronizer creates, if it is absent, to
//! be the only one that writes.

use vstd::prelude::*;
use crate::cache::read::{backend_answer, failure_of};
use crate::cache::value::{read_small_number, small_number_of_value};
use crate::cache::{write_lock_key, Command, CommandView, Operation, Reply, Step};
use crate::error::{ErrorKind, RedisErrors};

verus! {

/// Where the taking of the lock stands.
#[derive(Clone, Copy, Debug, PartialEq, Eq)]
pub enum LockStage {
    /// Waiting for a connection.
    Connecting,
    /// Waiting for the answer to the creation of the key.
    Creating,
    /// The key was created; waiting for its lease to be set.
    Leasing,
}

/// The taking of the lock as the contracts see it.
pub struct LockView {
    pub address: Seq<char>,
    /// The identity of the one who takes the lock.
    pub holder: Seq<char>,
    pub lease_seconds: usize,
    pub stage: LockStage,
}

/// The taking of the lock: the key is created with the holder's identity
/// unless it exists, and only a key that was created is given a lease.
#[derive(Debug, PartialEq, Eq)]
pub struct LockOp {
    address: String,
    holder: String,
    lease_seconds: usize,
    stage: LockStage,
}

/// The course that the taking of the lock takes on a reply.
pub enum LockCourse<T> {
    /// It goes on at the given stage with the given command.
    Issue(LockStage, CommandView<T>),
    /// It ends: the lock was taken by the holder, or is held by another.
    Ends(bool),
    /// The answer to the creation of the key is no number.
    Unreadable,
    /// It fails in the given way for the given cause.
    Fails(ErrorKind, Seq<char>),
}

/// The course that the taking of the lock `op` takes on `reply`.
///
/// The answer to the creation is read as a number: 1 says that the key was
/// created, and then its lease is set; any other number says that the key
/// exists, and then nothing more is done to it.
pub open spec fn lock_course<T>(op: LockView, reply: Reply<T>) -> LockCourse<T> {
    match op.stage {
        LockStage::Connecting => match reply {
            Reply::Failed(e) => LockCourse::Fails(ErrorKind::Connect, e@),
            _ => LockCourse::Issue(
                LockStage::Creating,
                CommandView::SetNx { key: write_lock_key(), value: op.holder },
            ),
        },
        LockStage::Creating => match reply {
            Reply::Value(answer) => match small_number_of_value(answer) {
                None => LockCourse::Unreadable,
                Some(n) => if n == 1 {
                    LockCourse::Issue(
                        LockStage::Leasing,
                        CommandView::Expire { key: write_lock_key(), seconds: op.lease_seconds },
                    )
                } else {
                    LockCourse::Ends(false)
                },
            },
            _ => LockCourse::Fails(ErrorKind::Write, failure_of(reply).unwrap()),
        },
        LockStage::Leasing => match failure_of(reply) {
            Some(source) => LockCourse::Fails(ErrorKind::Expire, source),
            None => LockCourse::Ends(true),
        },
    }
}

impl LockOp {
    /// The taking of the lock as the contracts see it.
    pub closed spec fn view(&self) -> LockView {
        LockView {
            address: self.address@,
            holder: self.holder@,
            lease_seconds: self.lease_seconds,
            stage: self.stage,
        }
    }

    /// The taking of the lock by `holder` for `lease_seconds`, at the
    /// backend at `address`, waiting for a connection.
    pub fn new(address: &str, holder: &str, lease_seconds: usize) -> (op: LockOp)
        ensures
            op@ == (LockView {
                address: address@,
                holder: holder@,
                lease_seconds,
                stage: LockStage::Connecting,
            }),
    {
        LockOp {
            address: address.to_owned(),
            holder: holder.to_owned(),
            lease_seconds,
            stage: LockStage::Connecting,
        }
    }

    /// What may follow `reply`: the step that the course asks for. The
    /// result `true` says that the lock was taken by this holder, `false`
    /// that another holds it.
    pub open spec fn allows<T>(self, reply: Reply<T>, step: Step<LockOp, T, Result<bool, RedisErrors>>) -> bool {
        match lock_course(self@, reply) {
            LockCourse::Issue(stage, command) => step matches Step::Issue(op, issued) && op@
                == (LockView { stage, ..self@ }) && issued@ == command,
            LockCourse::Ends(taken) => step == Step::<LockOp, T, Result<bool, RedisErrors>>::Done(
                Ok(taken),
            ),
            LockCourse::Unreadable => step matches Step::Done(Err(err)) && err.kind_of()
                == ErrorKind::ValueDecode && err.subject_text() == write_lock_key(),
            LockCourse::Fails(kind, source) => step matches Step::Done(Err(err)) && err.is_of(
                kind,
                if kind == ErrorKind::Connect {
                    self@.address
                } else {
                    write_lock_key()
                },
                source,
            ),
        }
    }

    /// Takes the reply to the command issued last (the first is
    /// [`Command::Connect`]) and says what to do next.
    pub fn resume<T>(self, reply: Reply<T>) -> (step: Step<LockOp, T, Result<bool, RedisErrors>>)
        ensures
            self.allows(reply, step),
    {
        let LockOp { address, holder, lease_seconds, stage } = self;
        match stage {
            LockStage::Connecting => match reply {
                Reply::Failed(e) => Step::Done(
                    Err(RedisErrors::UnableToConnect { address, source: e }),
                ),
                _ => {
                    let command = Command::SetNx {
                        key: String::from_str("write_lock"),
                        value: holder.clone(),
                    };
                    Step::Issue(
                        LockOp { address, holder, lease_seconds, stage: LockStage::Creating },
                        command,
                    )
                },
            },
            LockStage::Creating => match backend_answer(reply) {
                Err(e) => Step::Done(
                    Err(RedisErrors::UnableToSet { key: String::from_str("write_lock"), source: e }),
                ),
                Ok(answer) => match read_small_number(&answer) {
                    Err(e) => Step::Done(
                        Err(
                            RedisErrors::UnableToReadValue {
                                key: String::from_str("write_lock"),
                                source: e,
                            },
                        ),
                    ),
                    Ok(n) => if n == 1 {
                        let command = Command::Expire {
                            key: String::from_str("write_lock"),
                            seconds: lease_seconds,
                        };
                        Step::Issue(
                            LockOp { address, holder, lease_seconds, stage: LockStage::Leasing },
                            command,
                        )
                    } else {
                        Step::Done(Ok(false))
                    },
                },
            },
            LockStage::Leasing => match backend_answer(reply) {
                Err(e) => Step::Done(
                    Err(
                        RedisErrors::UnableToExpire {
                            key: String::from_str("write_lock"),
                            source: e,
                        },
                    ),
                ),
                Ok(_) => Step::Done(Ok(true)),
            },
        }
    }
}

impl<T> Operation<T> for LockOp {
    type Output = Result<bool, RedisErrors>;

    fn advance(self, reply: Reply<T>) -> (step: Step<LockOp, T, Result<bool, RedisErrors>>)
        ensures
            self.allows(reply, step),
    {
        self.resume(reply)
    }
}

} // verus!
