//! Writing to the cache: one value under one key, and the entities of a
//! snapshot under two keys each.

use vstd::prelude::*;
use crate::cache::read::{
    backend_answer, failure_of, stored_text, stored_text_is, unexpected_reply,
};
use crate::cache::value::{text_of_value, RedisValue};
use crate::cache::{
    group_id_key, group_name_key, key_of_group_id, key_of_group_name, key_of_user_email,
    key_of_user_id, user_email_key, user_id_key, Command, CommandView, Operation, RedisResult,
    Reply, Step,
};
use crate::directory::{SlackUser, SlackUserGroup};
use crate::error::{ErrorKind, RedisErrors};

verus! {

/// Where a write stands, as the contracts see it.
pub enum SetProgress {
    /// Waiting for a connection.
    Connecting,
    /// Waiting for the value that the key held before.
    Setting,
    /// Waiting for the time to live to be set; `previous` is the value that
    /// the key held before.
    Expiring { previous: RedisValue },
}

/// A write as the contracts see it.
pub struct SetView {
    pub address: Seq<char>,
    pub key: Seq<char>,
    pub value: Seq<char>,
    pub ttl_seconds: usize,
    pub progress: SetProgress,
}

/// The course that a write takes on a reply.
pub enum SetCourse<T> {
    /// It goes on at the given place with the given command.
    Issue(SetProgress, CommandView<T>),
    /// It ends with the reading of the value that the key held before.
    Ends(RedisValue),
    /// It fails in the given way for the given cause.
    Fails(ErrorKind, Seq<char>),
}

/// The course that the write `op` takes on `reply`.
pub open spec fn set_course<T>(op: SetView, reply: Reply<T>) -> SetCourse<T> {
    match op.progress {
        SetProgress::Connecting => match reply {
            Reply::Failed(e) => SetCourse::Fails(ErrorKind::Connect, e@),
            _ => SetCourse::Issue(
                SetProgress::Setting,
                CommandView::GetSet { key: op.key, value: op.value },
            ),
        },
        SetProgress::Setting => match reply {
            Reply::Value(previous) => if op.ttl_seconds > 0 {
                SetCourse::Issue(
                    SetProgress::Expiring { previous },
                    CommandView::Expire { key: op.key, seconds: op.ttl_seconds },
                )
            } else {
                SetCourse::Ends(previous)
            },
            _ => SetCourse::Fails(ErrorKind::Write, failure_of(reply).unwrap()),
        },
        SetProgress::Expiring { previous } => match failure_of(reply) {
            Some(source) => SetCourse::Fails(ErrorKind::Expire, source),
            None => SetCourse::Ends(previous),
        },
    }
}

/// Where a write stands.
#[derive(Debug, PartialEq, Eq)]
pub enum SetStage {
    Connecting,
    Setting,
    Expiring { previous: RedisValue },
}

/// The write of one value under one key: the value is swapped in, the key is
/// given its time to live where that is not zero, and the value held before
/// is read.
#[derive(Debug, PartialEq, Eq)]
pub struct SetOp {
    address: String,
    key: String,
    value: String,
    ttl_seconds: usize,
    stage: SetStage,
}

impl SetOp {
    /// The write as the contracts see it.
    pub closed spec fn view(&self) -> SetView {
        SetView {
            address: self.address@,
            key: self.key@,
            value: self.value@,
            ttl_seconds: self.ttl_seconds,
            progress: match self.stage {
                SetStage::Connecting => SetProgress::Connecting,
                SetStage::Setting => SetProgress::Setting,
                SetStage::Expiring { previous } => SetProgress::Expiring { previous },
            },
        }
    }

    /// A write of `value` under `key` at the backend at `address`, waiting
    /// for a connection.
    pub fn new(address: &str, key: String, value: String, ttl_seconds: usize) -> (op: SetOp)
        ensures
            op@ == (SetView {
                address: address@,
                key: key@,
                value: value@,
                ttl_seconds,
                progress: SetProgress::Connecting,
            }),
    {
        SetOp { address: address.to_owned(), key, value, ttl_seconds, stage: SetStage::Connecting }
    }

    /// What may follow `reply`.
    ///
    /// Without a connection the write fails. With one the value is swapped
    /// in; a failed swap is a failure. Where the time to live is not zero it
    /// is set next, and a failure to set it is a failure of the write. Then
    /// the write ends with what the key held before: nothing, a text, or the
    /// failure to read it as one.
    pub open spec fn allows<T>(
        self,
        reply: Reply<T>,
        step: Step<SetOp, T, Result<RedisResult, RedisErrors>>,
    ) -> bool {
        match set_course(self@, reply) {
            SetCourse::Issue(progress, command) => step matches Step::Issue(op, issued) && op@
                == (SetView { progress, ..self@ }) && issued@ == command,
            SetCourse::Ends(previous) => step matches Step::Done(r) && stored_text_is(
                self@.key,
                previous,
                r,
            ),
            SetCourse::Fails(kind, source) => step matches Step::Done(Err(err)) && err.is_of(
                kind,
                if kind == ErrorKind::Connect {
                    self@.address
                } else {
                    self@.key
                },
                source,
            ),
        }
    }

    /// Takes the reply to the command issued last (the first is
    /// [`Command::Connect`]) and says what to do next.
    pub fn resume<T>(self, reply: Reply<T>) -> (step: Step<
        SetOp,
        T,
        Result<RedisResult, RedisErrors>,
    >)
        ensures
            self.allows(reply, step),
    {
        let SetOp { address, key, value, ttl_seconds, stage } = self;
        match stage {
            SetStage::Connecting => match reply {
                Reply::Failed(e) => Step::Done(
                    Err(RedisErrors::UnableToConnect { address, source: e }),
                ),
                _ => {
                    let command = Command::GetSet { key: key.clone(), value: value.clone() };
                    Step::Issue(
                        SetOp { address, key, value, ttl_seconds, stage: SetStage::Setting },
                        command,
                    )
                },
            },
            SetStage::Setting => match backend_answer(reply) {
                Err(e) => Step::Done(Err(RedisErrors::UnableToSet { key, source: e })),
                Ok(previous) => if ttl_seconds > 0 {
                    let command = Command::Expire { key: key.clone(), seconds: ttl_seconds };
                    Step::Issue(
                        SetOp {
                            address,
                            key,
                            value,
                            ttl_seconds,
                            stage: SetStage::Expiring { previous },
                        },
                        command,
                    )
                } else {
                    Step::Done(stored_text(key.as_str(), &previous))
                },
            },
            SetStage::Expiring { previous } => match backend_answer(reply) {
                Err(e) => Step::Done(Err(RedisErrors::UnableToExpire { key, source: e })),
                Ok(_) => Step::Done(stored_text(key.as_str(), &previous)),
            },
        }
    }
}

/// An entity that is stored under two keys.
pub trait Entry: Sized {
    /// The two keys, in the order in which they are written.
    spec fn write_keys_text(&self) -> (Seq<char>, Seq<char>);

    /// The two keys, in the order in which they are written.
    fn write_keys(&self) -> (keys: (String, String))
        ensures
            keys.0@ == self.write_keys_text().0,
            keys.1@ == self.write_keys_text().1,
    ;
}

/// A user is stored by email address, then by id.
impl Entry for SlackUser {
    open spec fn write_keys_text(&self) -> (Seq<char>, Seq<char>) {
        (user_email_key(self.email@), user_id_key(self.id@))
    }

    fn write_keys(&self) -> (keys: (String, String)) {
        (key_of_user_email(self.email.as_str()), key_of_user_id(self.id.as_str()))
    }
}

/// A user group is stored by id, then by name.
impl Entry for SlackUserGroup {
    open spec fn write_keys_text(&self) -> (Seq<char>, Seq<char>) {
        (group_id_key(self.id@), group_name_key(self.name@))
    }

    fn write_keys(&self) -> (keys: (String, String)) {
        (key_of_group_id(self.id.as_str()), key_of_group_name(self.name.as_str()))
    }
}

/// What came of the writing of a snapshot.
#[derive(Debug, PartialEq, Eq)]
pub struct WriteSummary {
    /// How many entities were to be written.
    pub entities: usize,
    /// The writes that failed, in their order.
    pub failures: Vec<RedisErrors>,
}

/// A failed write as the contracts see it.
pub struct NotedFailure {
    pub kind: ErrorKind,
    /// The key, or the address where no connection could be had.
    pub subject: Seq<char>,
    /// The text of the cause. It is left open where the backend's client
    /// words it: where a value was no text.
    pub source: Option<Seq<char>>,
}

/// A failure as the contracts see it.
pub open spec fn failure_view(e: RedisErrors) -> NotedFailure {
    NotedFailure {
        kind: e.kind_of(),
        subject: e.subject_text(),
        source: if e.kind_of() == ErrorKind::ValueDecode {
            None
        } else {
            Some(e.source_text())
        },
    }
}

/// The failures as the contracts see them.
pub open spec fn failure_views(failures: Seq<RedisErrors>) -> Seq<NotedFailure> {
    failures.map_values(|e: RedisErrors| failure_view(e))
}

/// Where the writing of a snapshot stands, as the contracts see it.
pub enum BatchProgress {
    /// Waiting for the JSON of an entity that is stored under `keys`.
    Encoding { keys: (Seq<char>, Seq<char>) },
    /// Writing the JSON under one key; `second` is the key that is written
    /// after it, where there is one.
    Writing { op: SetView, second: Option<Seq<char>> },
}

/// The writing of a snapshot as the contracts see it.
pub struct BatchView<T> {
    pub address: Seq<char>,
    pub ttl_seconds: usize,
    /// The entities not yet begun, in their order.
    pub pending: Seq<T>,
    /// How many entities there were to be written.
    pub total: usize,
    /// The writes that failed so far.
    pub failures: Seq<NotedFailure>,
    pub progress: BatchProgress,
}

/// The course that the writing of a snapshot takes on a reply.
pub enum BatchCourse<T> {
    /// It goes on as given with the given command.
    Issue(BatchView<T>, CommandView<T>),
    /// It ends, with so many entities and these failures.
    Ends(usize, Seq<NotedFailure>),
}

/// The writing goes on with the first of the entities not yet begun, or
/// ends where there is none.
pub open spec fn begin_next<T: Entry>(batch: BatchView<T>) -> BatchCourse<T> {
    if batch.pending.len() == 0 {
        BatchCourse::Ends(batch.total, batch.failures)
    } else {
        BatchCourse::Issue(
            BatchView {
                pending: batch.pending.skip(1),
                progress: BatchProgress::Encoding { keys: batch.pending[0].write_keys_text() },
                ..batch
            },
            CommandView::Encode { entity: batch.pending[0] },
        )
    }
}

/// The course with which the writing of `entities` begins: with the first
/// of them, and with no failure noted.
pub open spec fn batch_begins<T: Entry>(
    address: Seq<char>,
    ttl_seconds: usize,
    entities: Seq<T>,
) -> BatchCourse<T> {
    begin_next(
        BatchView {
            address,
            ttl_seconds,
            pending: entities,
            total: entities.len() as usize,
            failures: Seq::empty(),
            progress: BatchProgress::Encoding { keys: (Seq::empty(), Seq::empty()) },
        },
    )
}

/// The writing goes on with the write of `value` under `key`.
pub open spec fn begin_write<T>(
    batch: BatchView<T>,
    key: Seq<char>,
    value: Seq<char>,
    second: Option<Seq<char>>,
) -> BatchCourse<T> {
    BatchCourse::Issue(
        BatchView {
            progress: BatchProgress::Writing {
                op: SetView {
                    address: batch.address,
                    key,
                    value,
                    ttl_seconds: batch.ttl_seconds,
                    progress: SetProgress::Connecting,
                },
                second,
            },
            ..batch
        },
        CommandView::Connect,
    )
}

/// The writing goes on after the write `op` ended, with or without a failure.
pub open spec fn after_write<T: Entry>(
    batch: BatchView<T>,
    op: SetView,
    second: Option<Seq<char>>,
    failure: Option<(ErrorKind, Option<Seq<char>>)>,
) -> BatchCourse<T> {
    let noted = BatchView {
        failures: match failure {
            Some((kind, source)) => batch.failures.push(
                NotedFailure {
                    kind,
                    subject: if kind == ErrorKind::Connect {
                        op.address
                    } else {
                        op.key
                    },
                    source,
                },
            ),
            None => batch.failures,
        },
        ..batch
    };
    match second {
        Some(key) => begin_write(noted, key, op.value, None),
        None => begin_next(noted),
    }
}

/// The write under `key` that could not be made because `reply` came where
/// the JSON of the entity was called for.
pub open spec fn unwritten<T>(key: Seq<char>, reply: Reply<T>) -> NotedFailure {
    NotedFailure {
        kind: ErrorKind::Write,
        subject: key,
        source: Some(
            match reply {
                Reply::Failed(e) => e@,
                _ => unexpected_reply(),
            },
        ),
    }
}

/// The course that the writing `batch` takes on `reply`.
///
/// Each entity is written as JSON under its two keys, with the same value
/// and the same time to live, one write after the other. A write that fails
/// is noted, and the writing goes on with the next key or entity. An entity
/// for which no JSON comes is noted as two failed writes.
pub open spec fn batch_course<T: Entry>(batch: BatchView<T>, reply: Reply<T>) -> BatchCourse<T> {
    match batch.progress {
        BatchProgress::Encoding { keys } => match reply {
            Reply::Text(json) => begin_write(batch, keys.0, json@, Some(keys.1)),
            _ => begin_next(
                BatchView {
                    failures: batch.failures.push(unwritten(keys.0, reply)).push(
                        unwritten(keys.1, reply),
                    ),
                    ..batch
                },
            ),
        },
        BatchProgress::Writing { op, second } => match set_course(op, reply) {
            SetCourse::Issue(progress, command) => BatchCourse::Issue(
                BatchView {
                    progress: BatchProgress::Writing {
                        op: SetView { progress, ..op },
                        second,
                    },
                    ..batch
                },
                command,
            ),
            SetCourse::Ends(previous) => after_write(
                batch,
                op,
                second,
                if previous is Nil || text_of_value(previous) is Some {
                    None
                } else {
                    Some((ErrorKind::ValueDecode, None))
                },
            ),
            SetCourse::Fails(kind, source) => after_write(
                batch,
                op,
                second,
                Some((kind, Some(source))),
            ),
        },
    }
}

/// Where the writing of a snapshot stands.
#[derive(Debug, PartialEq, Eq)]
pub enum BatchStage {
    Encoding { keys: (String, String) },
    Writing { op: SetOp, second: Option<String> },
}

/// The writing of the entities of a snapshot, each under its two keys.
#[derive(Debug, PartialEq, Eq)]
pub struct WriteBatch<T> {
    address: String,
    ttl_seconds: usize,
    pending: Vec<T>,
    total: usize,
    failures: Vec<RedisErrors>,
    stage: BatchStage,
}

/// One step of the writing of a snapshot. It never ends in a failure: the
/// failures of single writes are told in the summary.
pub type BatchStep<T> = Step<WriteBatch<T>, T, Result<WriteSummary, RedisErrors>>;

/// `step` is what `course` asks for.
pub open spec fn batch_step_is<T: Entry>(step: BatchStep<T>, course: BatchCourse<T>) -> bool {
    match course {
        BatchCourse::Issue(batch, command) => step matches Step::Issue(next, issued) && next@
            == batch && issued@ == command,
        BatchCourse::Ends(total, failures) => step matches Step::Done(Ok(summary))
            && summary.entities == total && failure_views(summary.failures@) == failures,
    }
}

impl<T: Entry> WriteBatch<T> {
    /// The writing as the contracts see it.
    pub closed spec fn view(&self) -> BatchView<T> {
        BatchView {
            address: self.address@,
            ttl_seconds: self.ttl_seconds,
            pending: self.pending@,
            total: self.total,
            failures: failure_views(self.failures@),
            progress: match self.stage {
                BatchStage::Encoding { keys } => BatchProgress::Encoding {
                    keys: (keys.0@, keys.1@),
                },
                BatchStage::Writing { op, second } => BatchProgress::Writing {
                    op: op@,
                    second: match second {
                        Some(key) => Some(key@),
                        None => None,
                    },
                },
            },
        }
    }

    /// Goes on with the first of the entities not yet begun.
    fn next_entity(
        address: String,
        ttl_seconds: usize,
        pending: Vec<T>,
        total: usize,
        failures: Vec<RedisErrors>,
    ) -> (step: BatchStep<T>)
        ensures
            batch_step_is(
                step,
                begin_next(
                    BatchView {
                        address: address@,
                        ttl_seconds,
                        pending: pending@,
                        total,
                        failures: failure_views(failures@),
                        progress: BatchProgress::Encoding { keys: (Seq::empty(), Seq::empty()) },
                    },
                ),
            ),
    {
        let mut pending = pending;
        if pending.len() == 0 {
            Step::Done(Ok(WriteSummary { entities: total, failures }))
        } else {
            let ghost before = pending@;
            let entity = pending.remove(0);
            proof {
                assert(pending@ =~= before.skip(1));
            }
            let keys = entity.write_keys();
            Step::Issue(
                WriteBatch {
                    address,
                    ttl_seconds,
                    pending,
                    total,
                    failures,
                    stage: BatchStage::Encoding { keys },
                },
                Command::Encode { entity },
            )
        }
    }

    /// The first step of the writing of `entities`, in their order, each
    /// with the time to live `ttl_seconds`, at the backend at `address`.
    pub fn start(address: &str, entities: Vec<T>, ttl_seconds: usize) -> (step: BatchStep<T>)
        ensures
            batch_step_is(step, batch_begins(address@, ttl_seconds, entities@)),
    {
        let total = entities.len();
        let failures: Vec<RedisErrors> = Vec::new();
        proof {
            assert(failure_views(failures@) =~= Seq::empty());
        }
        Self::next_entity(address.to_owned(), ttl_seconds, entities, total, failures)
    }

    /// Takes the reply to the command issued last and says what to do next.
    pub fn resume(self, reply: Reply<T>) -> (step: BatchStep<T>)
        ensures
            batch_step_is(step, batch_course(self@, reply)),
    {
        let WriteBatch { address, ttl_seconds, pending, total, failures, stage } = self;
        let mut failures = failures;
        let ghost noted = failure_views(failures@);
        match stage {
            BatchStage::Encoding { keys } => match reply {
                Reply::Text(json) => {
                    let op = SetOp::new(address.as_str(), keys.0, json, ttl_seconds);
                    Step::Issue(
                        WriteBatch {
                            address,
                            ttl_seconds,
                            pending,
                            total,
                            failures,
                            stage: BatchStage::Writing { op, second: Some(keys.1) },
                        },
                        Command::Connect,
                    )
                },
                other => {
                    let source = match other {
                        Reply::Failed(e) => e,
                        _ => String::from_str("unexpected reply"),
                    };
                    let first = RedisErrors::UnableToSet { key: keys.0, source: source.clone() };
                    let second = RedisErrors::UnableToSet { key: keys.1, source };
                    failures.push(first);
                    failures.push(second);
                    proof {
                        assert(failure_views(failures@) =~= noted.push(failure_view(first)).push(
                            failure_view(second),
                        ));
                    }
                    Self::next_entity(address, ttl_seconds, pending, total, failures)
                },
            },
            BatchStage::Writing { op, second } => {
                let ghost writing = op@;
                let value = op.value.clone();
                match op.resume(reply) {
                    Step::Issue(op, command) => Step::Issue(
                        WriteBatch {
                            address,
                            ttl_seconds,
                            pending,
                            total,
                            failures,
                            stage: BatchStage::Writing { op, second },
                        },
                        command,
                    ),
                    Step::Done(result) => {
                        match result {
                            Ok(_) => {},
                            Err(e) => {
                                failures.push(e);
                                proof {
                                    assert(failure_views(failures@) =~= noted.push(
                                        failure_view(e),
                                    ));
                                }
                            },
                        }
                        match second {
                            Some(key) => {
                                let op = SetOp::new(address.as_str(), key, value, ttl_seconds);
                                Step::Issue(
                                    WriteBatch {
                                        address,
                                        ttl_seconds,
                                        pending,
                                        total,
                                        failures,
                                        stage: BatchStage::Writing { op, second: None },
                                    },
                                    Command::Connect,
                                )
                            },
                            None => Self::next_entity(
                                address,
                                ttl_seconds,
                                pending,
                                total,
                                failures,
                            ),
                        }
                    },
                }
            },
        }
    }
}

impl<T> Operation<T> for SetOp {
    type Output = Result<RedisResult, RedisErrors>;

    fn advance(self, reply: Reply<T>) -> (step: Step<SetOp, T, Result<RedisResult, RedisErrors>>)
        ensures
            self.allows(reply, step),
    {
        self.resume(reply)
    }
}

impl<T: Entry> Operation<T> for WriteBatch<T> {
    type Output = Result<WriteSummary, RedisErrors>;

    fn advance(self, reply: Reply<T>) -> (step: BatchStep<T>)
        ensures
            batch_step_is(step, batch_course(self@, reply)),
    {
        self.resume(reply)
    }
}

} // verus!
