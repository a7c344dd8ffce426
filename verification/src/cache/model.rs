//! A model of the backend, and what the operations of the store come to
//! when their commands are answered as the model answers.
//!
//! The model is a map from keys to texts, each with the time at which it
//! expires, if it does. It answers a command as a key-value backend with
//! times to live does: a swap stores the value and forgets the key's time to
//! live, a conditional creation leaves a key that exists alone, and a key
//! whose time has come is gone.

use vstd::prelude::*;
use vstd::utf8::{encode_utf8, encode_utf8_decode_utf8, encode_utf8_valid_utf8};
use crate::cache::lock::{lock_course, LockCourse, LockStage, LockView};
use crate::cache::read::{
    element_texts, failure_of, read_course, scan_course, ReadCourse, ReadProgress, ReadView,
    ScanCourse, ScanProgress, ScanRead, ScanView,
};
use crate::cache::value::{text_of_value, RedisValue};
use crate::cache::write::{
    batch_course, batch_step_is, begin_next, set_course, BatchCourse, BatchProgress, BatchStep,
    BatchView, Entry, NotedFailure, SetCourse, SetProgress, SetView,
};
use crate::cache::{write_lock_key, CommandView, Reply, Step};
use crate::error::{ErrorKind, RedisErrors};

verus! {

/// What the model holds under a key.
pub struct Stored {
    pub value: Seq<char>,
    /// The time from which the key is gone; `None` where it stays.
    pub expires_at: Option<int>,
}

/// The model of the backend at one moment.
pub struct Backend {
    pub entries: Map<Seq<char>, Stored>,
    /// The time, in seconds.
    pub now: int,
}

impl Backend {
    /// There is a value under `key` whose time has not come.
    pub open spec fn live(self, key: Seq<char>) -> bool {
        self.entries.contains_key(key) && match self.entries[key].expires_at {
            Some(end) => self.now < end,
            None => true,
        }
    }

    /// The same backend at the time `now`.
    pub open spec fn at(self, now: int) -> Backend {
        Backend { now, ..self }
    }

    /// `reply` tells what is under `key`: its text as data, or no value.
    pub open spec fn tells<T>(self, key: Seq<char>, reply: Reply<T>) -> bool {
        if self.live(key) {
            reply matches Reply::Value(RedisValue::Data(bytes)) && bytes@ == encode_utf8(
                self.entries[key].value,
            )
        } else {
            reply == Reply::<T>::Value(RedisValue::Nil)
        }
    }

    /// `reply` is how the backend answers `command`. Of a command that the
    /// model does not know, every reply is taken.
    pub open spec fn answers<T>(self, command: CommandView<T>, reply: Reply<T>) -> bool {
        match command {
            CommandView::Connect => reply is Value,
            CommandView::Get { key } => self.tells(key, reply),
            CommandView::GetSet { key, .. } => self.tells(key, reply),
            CommandView::Expire { key, .. } => reply == Reply::<T>::Value(
                RedisValue::Int(
                    if self.live(key) {
                        1
                    } else {
                        0
                    },
                ),
            ),
            CommandView::SetNx { key, .. } => reply == Reply::<T>::Value(
                RedisValue::Int(
                    if self.live(key) {
                        0
                    } else {
                        1
                    },
                ),
            ),
            _ => true,
        }
    }

    /// The backend after it carried out `command`.
    pub open spec fn after<T>(self, command: CommandView<T>) -> Backend {
        match command {
            CommandView::GetSet { key, value } => Backend {
                entries: self.entries.insert(key, Stored { value, expires_at: None }),
                ..self
            },
            CommandView::Expire { key, seconds } => if self.live(key) {
                Backend {
                    entries: self.entries.insert(
                        key,
                        Stored {
                            value: self.entries[key].value,
                            expires_at: Some(self.now + seconds),
                        },
                    ),
                    ..self
                }
            } else {
                self
            },
            CommandView::SetNx { key, value } => if self.live(key) {
                self
            } else {
                Backend {
                    entries: self.entries.insert(key, Stored { value, expires_at: None }),
                    ..self
                }
            },
            _ => self,
        }
    }
}

/// The write `op`, waiting for a connection.
pub open spec fn fresh_write(op: SetView) -> bool {
    op.progress is Connecting
}

/// A write that is answered by the backend stores its value under its key,
/// to live for the time given: it swaps the value in, sets the time to live
/// and ends without a failure.
pub proof fn lemma_write_stores<T>(
    op: SetView,
    backend: Backend,
    connected: Reply<T>,
    swapped: Reply<T>,
    expired: Reply<T>,
)
    requires
        fresh_write(op),
        op.ttl_seconds > 0,
        backend.answers(CommandView::<T>::Connect, connected),
        backend.answers(CommandView::<T>::GetSet { key: op.key, value: op.value }, swapped),
        backend.after(CommandView::<T>::GetSet { key: op.key, value: op.value }).answers(
            CommandView::<T>::Expire { key: op.key, seconds: op.ttl_seconds },
            expired,
        ),
    ensures
        set_course(op, connected) == SetCourse::<T>::Issue(
            SetProgress::Setting,
            CommandView::GetSet { key: op.key, value: op.value },
        ),
        set_course(SetView { progress: SetProgress::Setting, ..op }, swapped)
            == SetCourse::<T>::Issue(
            SetProgress::Expiring { previous: swapped->Value_0 },
            CommandView::Expire { key: op.key, seconds: op.ttl_seconds },
        ),
        set_course(
            SetView { progress: SetProgress::Expiring { previous: swapped->Value_0 }, ..op },
            expired,
        ) == SetCourse::<T>::Ends(swapped->Value_0),
        swapped->Value_0 is Nil || text_of_value(swapped->Value_0) is Some,
        written(backend, op) == backend.after(
            CommandView::<T>::GetSet { key: op.key, value: op.value },
        ).after(CommandView::<T>::Expire { key: op.key, seconds: op.ttl_seconds }),
{
    if backend.live(op.key) {
        encode_utf8_valid_utf8(backend.entries[op.key].value);
    }
    let swapped_in = backend.after(CommandView::<T>::GetSet { key: op.key, value: op.value });
    assert(swapped_in.live(op.key));
    assert(written(backend, op).entries =~= swapped_in.after(
        CommandView::<T>::Expire { key: op.key, seconds: op.ttl_seconds },
    ).entries);
}

/// The backend after the write `op` was carried out in it: the value stands
/// under the key, to be gone when the time to live has passed.
pub open spec fn written(backend: Backend, op: SetView) -> Backend {
    Backend {
        entries: backend.entries.insert(
            op.key,
            Stored { value: op.value, expires_at: Some(backend.now + op.ttl_seconds) },
        ),
        ..backend
    }
}

/// The read `read`, waiting for a connection.
pub open spec fn fresh_read(read: ReadView) -> bool {
    read.progress is Connecting
}

/// A read that is answered by the backend asks for the entity that the text
/// under the key holds, and finds the entity that comes back; and it finds
/// the entity missing where there is no text under the key, or its time has
/// come.
pub proof fn lemma_read_tells_what_is_stored<T>(
    read: ReadView,
    backend: Backend,
    connected: Reply<T>,
    got: Reply<T>,
    entity: T,
)
    requires
        fresh_read(read),
        backend.answers(CommandView::<T>::Connect, connected),
        backend.answers(CommandView::<T>::Get { key: read.key }, got),
    ensures
        read_course(read, connected) == ReadCourse::<T>::Issue(
            ReadProgress::Getting,
            CommandView::Get { key: read.key },
        ),
        backend.live(read.key) ==> read_course(
            ReadView { progress: ReadProgress::Getting, ..read },
            got,
        ) == ReadCourse::<T>::Issue(
            ReadProgress::Decoding { input: backend.entries[read.key].value },
            CommandView::Decode { input: backend.entries[read.key].value },
        ),
        !backend.live(read.key) ==> read_course(
            ReadView { progress: ReadProgress::Getting, ..read },
            got,
        ) == ReadCourse::<T>::Missing,
        forall|input: Seq<char>|
            read_course(
                ReadView { progress: ReadProgress::Decoding { input }, ..read },
                Reply::Entity(entity),
            ) == ReadCourse::Found(entity),
{
    if backend.live(read.key) {
        encode_utf8_valid_utf8(backend.entries[read.key].value);
        encode_utf8_decode_utf8(backend.entries[read.key].value);
    }
}

/// What was written is read back until its time has come: after a write
/// that the backend answered, a read of the same key before the time to
/// live has passed asks for the entity of the very text written, and a read
/// at or after that time finds the entity missing.
pub proof fn lemma_round_trip<T>(
    op: SetView,
    backend: Backend,
    read: ReadView,
    now: int,
    connected: Reply<T>,
    got: Reply<T>,
)
    requires
        fresh_read(read),
        read.key == op.key,
        written(backend, op).at(now).answers(CommandView::<T>::Connect, connected),
        written(backend, op).at(now).answers(CommandView::<T>::Get { key: read.key }, got),
    ensures
        now < backend.now + op.ttl_seconds ==> read_course(
            ReadView { progress: ReadProgress::Getting, ..read },
            got,
        ) == ReadCourse::<T>::Issue(
            ReadProgress::Decoding { input: op.value },
            CommandView::Decode { input: op.value },
        ),
        now >= backend.now + op.ttl_seconds ==> read_course(
            ReadView { progress: ReadProgress::Getting, ..read },
            got,
        ) == ReadCourse::<T>::Missing,
{
    let later = written(backend, op).at(now);
    if later.live(read.key) {
        encode_utf8_valid_utf8(op.value);
        encode_utf8_decode_utf8(op.value);
    }
}

/// The course of the writing `batch` after the replies `replies` came, one
/// after the other. A writing that has ended stays ended.
pub open spec fn batch_after<T: Entry>(batch: BatchView<T>, replies: Seq<Reply<T>>) -> BatchCourse<T>
    recommends
        replies.len() > 0,
    decreases replies.len(),
{
    if replies.len() <= 1 {
        batch_course(batch, replies[0])
    } else {
        match batch_course(batch, replies[0]) {
            BatchCourse::Issue(next, _) => batch_after(next, replies.skip(1)),
            BatchCourse::Ends(total, failures) => BatchCourse::Ends(total, failures),
        }
    }
}

/// The write of `value` under `key` that the writing `batch` makes.
pub open spec fn write_of<T>(batch: BatchView<T>, key: Seq<char>, value: Seq<char>) -> SetView {
    SetView {
        address: batch.address,
        key,
        value,
        ttl_seconds: batch.ttl_seconds,
        progress: SetProgress::Connecting,
    }
}

/// An entity whose writes the backend answers is stored under both of its
/// keys, with the same value and the same time to live, and the writing
/// goes on to the next entity with no failure noted.
pub proof fn lemma_entity_is_stored_under_both_keys<T: Entry>(
    batch: BatchView<T>,
    backend: Backend,
    json: String,
    first: (Reply<T>, Reply<T>, Reply<T>),
    second: (Reply<T>, Reply<T>, Reply<T>),
)
    requires
        batch.progress is Encoding,
        batch.ttl_seconds > 0,
        backend.answers(CommandView::<T>::Connect, first.0),
        backend.answers(
            CommandView::<T>::GetSet { key: batch.progress->keys.0, value: json@ },
            first.1,
        ),
        first.2 is Value,
        written(backend, write_of(batch, batch.progress->keys.0, json@)).answers(
            CommandView::<T>::Connect,
            second.0,
        ),
        written(backend, write_of(batch, batch.progress->keys.0, json@)).answers(
            CommandView::<T>::GetSet { key: batch.progress->keys.1, value: json@ },
            second.1,
        ),
        second.2 is Value,
    ensures
        batch_after(
            batch,
            seq![Reply::Text(json), first.0, first.1, first.2, second.0, second.1, second.2],
        ) == begin_next(batch),
        ({
            let keys = batch.progress->keys;
            let stored = written(
                written(backend, write_of(batch, keys.0, json@)),
                write_of(batch, keys.1, json@),
            );
            let entry = Stored { value: json@, expires_at: Some(backend.now + batch.ttl_seconds) };
            stored.entries[keys.0] == entry && stored.entries[keys.1] == entry && stored.live(
                keys.0,
            ) && stored.live(keys.1)
        }),
{
    let keys = batch.progress->keys;
    let replies =
        seq![Reply::Text(json), first.0, first.1, first.2, second.0, second.1, second.2];
    let once = written(backend, write_of(batch, keys.0, json@));
    if backend.live(keys.0) {
        encode_utf8_valid_utf8(backend.entries[keys.0].value);
    }
    if once.live(keys.1) {
        encode_utf8_valid_utf8(once.entries[keys.1].value);
    }
    reveal_with_fuel(batch_after, 8);
    let r1 = replies.skip(1);
    let r2 = r1.skip(1);
    let r3 = r2.skip(1);
    let r4 = r3.skip(1);
    let r5 = r4.skip(1);
    let r6 = r5.skip(1);
    assert(r1[0] == first.0 && r2[0] == first.1 && r3[0] == first.2 && r4[0] == second.0 && r5[0]
        == second.1 && r6[0] == second.2);
    assert(r1.len() == 6 && r2.len() == 5 && r3.len() == 4 && r4.len() == 3 && r5.len() == 2
        && r6.len() == 1);
    let c0 = batch_course(batch, replies[0]);
    let b1 = c0->Issue_0;
    let c1 = batch_course(b1, first.0);
    let b2 = c1->Issue_0;
    let c2 = batch_course(b2, first.1);
    let b3 = c2->Issue_0;
    let c3 = batch_course(b3, first.2);
    let b4 = c3->Issue_0;
    assert(first.1->Value_0 is Nil || text_of_value(first.1->Value_0) is Some);
    assert(b4 == (BatchView {
        progress: BatchProgress::Writing { op: write_of(batch, keys.1, json@), second: None },
        ..batch
    }));
    let c4 = batch_course(b4, second.0);
    let b5 = c4->Issue_0;
    let c5 = batch_course(b5, second.1);
    let b6 = c5->Issue_0;
    let c6 = batch_course(b6, second.2);
    assert(second.1->Value_0 is Nil || text_of_value(second.1->Value_0) is Some);
    assert(c6 == begin_next(batch));
}

/// A write that fails costs the writing that write and nothing else: where
/// the swap under the first key of an entity fails and the writes under the
/// second key are answered, the value is stored under the second key, the
/// failure is noted, and the writing goes on.
pub proof fn lemma_failed_write_is_passed_over<T: Entry>(
    batch: BatchView<T>,
    backend: Backend,
    json: String,
    first: (Reply<T>, Reply<T>),
    second: (Reply<T>, Reply<T>, Reply<T>),
)
    requires
        batch.progress is Encoding,
        batch.ttl_seconds > 0,
        first.0 is Value,
        !(first.1 is Value),
        backend.answers(CommandView::<T>::Connect, second.0),
        backend.answers(
            CommandView::<T>::GetSet { key: batch.progress->keys.1, value: json@ },
            second.1,
        ),
        second.2 is Value,
    ensures
        batch_after(
            batch,
            seq![Reply::Text(json), first.0, first.1, second.0, second.1, second.2],
        ) == begin_next(
            BatchView {
                failures: batch.failures.push(
                    NotedFailure {
                        kind: ErrorKind::Write,
                        subject: batch.progress->keys.0,
                        source: failure_of(first.1),
                    },
                ),
                ..batch
            },
        ),
        ({
            let stored = written(backend, write_of(batch, batch.progress->keys.1, json@));
            stored.live(batch.progress->keys.1) && stored.entries[batch.progress->keys.1].value
                == json@
        }),
{
    let keys = batch.progress->keys;
    let replies = seq![Reply::Text(json), first.0, first.1, second.0, second.1, second.2];
    if backend.live(keys.1) {
        encode_utf8_valid_utf8(backend.entries[keys.1].value);
    }
    reveal_with_fuel(batch_after, 7);
    let r1 = replies.skip(1);
    let r2 = r1.skip(1);
    let r3 = r2.skip(1);
    let r4 = r3.skip(1);
    let r5 = r4.skip(1);
    assert(r1[0] == first.0 && r2[0] == first.1 && r3[0] == second.0 && r4[0] == second.1 && r5[0]
        == second.2);
    assert(r1.len() == 5 && r2.len() == 4 && r3.len() == 3 && r4.len() == 2 && r5.len() == 1);
    let noted = BatchView {
        failures: batch.failures.push(
            NotedFailure {
                kind: ErrorKind::Write,
                subject: keys.0,
                source: failure_of(first.1),
            },
        ),
        ..batch
    };
    let b1 = batch_course(batch, replies[0])->Issue_0;
    let b2 = batch_course(b1, first.0)->Issue_0;
    let b3 = batch_course(b2, first.1)->Issue_0;
    assert(b3 == (BatchView {
        progress: BatchProgress::Writing { op: write_of(batch, keys.1, json@), second: None },
        ..noted
    }));
    let b4 = batch_course(b3, second.0)->Issue_0;
    let b5 = batch_course(b4, second.1)->Issue_0;
    assert(second.1->Value_0 is Nil || text_of_value(second.1->Value_0) is Some);
    assert(batch_course(b5, second.2) == begin_next(noted));
}

/// The writing of a snapshot never ends in a failure, whatever the replies.
pub proof fn lemma_batch_ends_well<T: Entry>(
    batch: BatchView<T>,
    reply: Reply<T>,
    step: BatchStep<T>,
)
    requires
        batch_step_is(step, batch_course(batch, reply)),
        step is Done,
    ensures
        step matches Step::Done(Ok(_)),
{
}

/// The taking of the lock `op`, waiting for the answer to the creation of the key.
pub open spec fn creating(op: LockView) -> bool {
    op.stage == LockStage::Creating
}

/// Of two that try to take a lock that nobody holds, exactly one takes it:
/// the one whose creation of the key reaches the backend first. The other,
/// trying while the lease of the first has not run out, learns that the lock
/// is held; the key holds the identity of the first, and the lease of the
/// first is left as it is. This holds whether or not the first has set its
/// lease by the time the second tries.
pub proof fn lemma_lock_is_exclusive<T>(
    winner: LockView,
    loser: LockView,
    backend: Backend,
    lease_is_set: bool,
    now: int,
    won: Reply<T>,
    leased: Reply<T>,
    lost: Reply<T>,
)
    requires
        creating(winner),
        creating(loser),
        !backend.live(write_lock_key()),
        backend.now <= now < backend.now + winner.lease_seconds,
        backend.answers(
            CommandView::<T>::SetNx { key: write_lock_key(), value: winner.holder },
            won,
        ),
        leased is Value,
        held_by(backend, winner, lease_is_set).at(now).answers(
            CommandView::<T>::SetNx { key: write_lock_key(), value: loser.holder },
            lost,
        ),
    ensures
        lock_course(winner, won) == LockCourse::<T>::Issue(
            LockStage::Leasing,
            CommandView::Expire { key: write_lock_key(), seconds: winner.lease_seconds },
        ),
        lock_course(LockView { stage: LockStage::Leasing, ..winner }, leased) == LockCourse::<
            T,
        >::Ends(true),
        lock_course(loser, lost) == LockCourse::<T>::Ends(false),
        held_by(backend, winner, lease_is_set).at(now).after(
            CommandView::<T>::SetNx { key: write_lock_key(), value: loser.holder },
        ) == held_by(backend, winner, lease_is_set).at(now),
        held_by(backend, winner, lease_is_set).entries[write_lock_key()].value == winner.holder,
{
    assert(held_by(backend, winner, lease_is_set).at(now).live(write_lock_key()));
}

/// The backend after `winner` created the lock in it, with or without the
/// lease set.
pub open spec fn held_by(backend: Backend, winner: LockView, lease_is_set: bool) -> Backend {
    Backend {
        entries: backend.entries.insert(
            write_lock_key(),
            Stored {
                value: winner.holder,
                expires_at: if lease_is_set {
                    Some(backend.now + winner.lease_seconds)
                } else {
                    None
                },
            },
        ),
        ..backend
    }
}

/// What the backend's own steps come to: the creation of the lock and the
/// setting of its lease lead to the backend in which the winner holds it.
pub proof fn lemma_held_by<T>(backend: Backend, winner: LockView)
    requires
        !backend.live(write_lock_key()),
    ensures
        backend.after(CommandView::<T>::SetNx { key: write_lock_key(), value: winner.holder })
            == held_by(backend, winner, false),
        held_by(backend, winner, false).after(
            CommandView::<T>::Expire { key: write_lock_key(), seconds: winner.lease_seconds },
        ) == held_by(backend, winner, true),
{
    let created = backend.after(
        CommandView::<T>::SetNx { key: write_lock_key(), value: winner.holder },
    );
    assert(created.live(write_lock_key()));
    assert(created.after(
        CommandView::<T>::Expire { key: write_lock_key(), seconds: winner.lease_seconds },
    ).entries =~= held_by(backend, winner, true).entries);
}

/// A listing of a kind of which the backend holds no key ends with no
/// entity, and not with a failure.
pub proof fn lemma_listing_of_nothing<T>(
    scan: ScanRead<T>,
    elements: Vec<RedisValue>,
    step: Step<ScanRead<T>, T, Result<Vec<T>, RedisErrors>>,
)
    requires
        scan@.progress is Scanning,
        elements@.len() == 0,
        scan.allows(Reply::Value(RedisValue::Bulk(elements)), step),
    ensures
        scan_course(scan@, Reply::Value(RedisValue::Bulk(elements))) == ScanCourse::<T>::Ends(
            Seq::empty(),
        ),
        step matches Step::Done(Ok(found)) && found@.len() == 0,
{
    assert(element_texts(elements@) =~= Seq::<Seq<char>>::empty());
}

/// A way to write entities as JSON and to read them back.
#[verifier::reject_recursive_types(T)]
pub struct Codec<T> {
    pub encode: spec_fn(T) -> Seq<char>,
    pub decode: spec_fn(Seq<char>) -> Option<T>,
}

impl<T> Codec<T> {
    /// What was written is read back as it was.
    pub open spec fn round_trips(self) -> bool {
        forall|entity: T| (self.decode)(#[trigger] (self.encode)(entity)) == Some(entity)
    }

    /// `reply` is how this codec answers `command`: with the JSON of an
    /// entity, or with the entity that a JSON text holds, if it holds one.
    pub open spec fn answers(self, command: CommandView<T>, reply: Reply<T>) -> bool {
        match command {
            CommandView::Encode { entity } => reply matches Reply::Text(json) && json@ == (
            self.encode)(entity),
            CommandView::Decode { input } => match (self.decode)(input) {
                Some(entity) => reply == Reply::Entity(entity),
                None => reply is Failed,
            },
            _ => true,
        }
    }
}

/// An entity that was written is found again, as it was, under each of its
/// two keys, for as long as its time to live has not passed: where the
/// commands of the writing are answered by the backend and those of a later
/// read by the backend at that later time, and the JSON is written and read
/// by a codec that reads back what it wrote, the read ends with the entity.
pub proof fn lemma_cache_round_trip<T: Entry>(
    codec: Codec<T>,
    entity: T,
    batch: BatchView<T>,
    backend: Backend,
    json: String,
    first: (Reply<T>, Reply<T>, Reply<T>),
    second: (Reply<T>, Reply<T>, Reply<T>),
    read: ReadView,
    now: int,
    got: Reply<T>,
    decoded: Reply<T>,
)
    requires
        codec.round_trips(),
        batch.progress == (BatchProgress::Encoding { keys: entity.write_keys_text() }),
        batch.ttl_seconds > 0,
        codec.answers(CommandView::Encode { entity }, Reply::Text(json)),
        backend.answers(CommandView::<T>::Connect, first.0),
        backend.answers(
            CommandView::<T>::GetSet { key: entity.write_keys_text().0, value: json@ },
            first.1,
        ),
        first.2 is Value,
        written(backend, write_of(batch, entity.write_keys_text().0, json@)).answers(
            CommandView::<T>::Connect,
            second.0,
        ),
        written(backend, write_of(batch, entity.write_keys_text().0, json@)).answers(
            CommandView::<T>::GetSet { key: entity.write_keys_text().1, value: json@ },
            second.1,
        ),
        second.2 is Value,
        read.key == entity.write_keys_text().0 || read.key == entity.write_keys_text().1,
        backend.now <= now < backend.now + batch.ttl_seconds,
        entity_stored(backend, batch, entity, json@).at(now).answers(
            CommandView::<T>::Get { key: read.key },
            got,
        ),
        codec.answers(CommandView::Decode { input: json@ }, decoded),
    ensures
        batch_after(
            batch,
            seq![Reply::Text(json), first.0, first.1, first.2, second.0, second.1, second.2],
        ) == begin_next(batch),
        read_course(ReadView { progress: ReadProgress::Getting, ..read }, got) == ReadCourse::<
            T,
        >::Issue(ReadProgress::Decoding { input: json@ }, CommandView::Decode { input: json@ }),
        read_course(ReadView { progress: ReadProgress::Decoding { input: json@ }, ..read }, decoded)
            == ReadCourse::Found(entity),
{
    lemma_entity_is_stored_under_both_keys(batch, backend, json, first, second);
    let later = entity_stored(backend, batch, entity, json@).at(now);
    assert(later.live(read.key));
    encode_utf8_valid_utf8(json@);
    encode_utf8_decode_utf8(json@);
}

/// The backend after the two writes of `entity` were carried out in it.
pub open spec fn entity_stored<T: Entry>(
    backend: Backend,
    batch: BatchView<T>,
    entity: T,
    json: Seq<char>,
) -> Backend {
    written(
        written(backend, write_of(batch, entity.write_keys_text().0, json)),
        write_of(batch, entity.write_keys_text().1, json),
    )
}

/// An entity that was written is missing, under each of its two keys, once
/// its time to live has passed.
pub proof fn lemma_cache_expiry<T: Entry>(
    entity: T,
    batch: BatchView<T>,
    backend: Backend,
    json: Seq<char>,
    read: ReadView,
    now: int,
    got: Reply<T>,
)
    requires
        read.key == entity.write_keys_text().0 || read.key == entity.write_keys_text().1,
        now >= backend.now + batch.ttl_seconds,
        entity_stored(backend, batch, entity, json).at(now).answers(
            CommandView::<T>::Get { key: read.key },
            got,
        ),
    ensures
        read_course(ReadView { progress: ReadProgress::Getting, ..read }, got) == ReadCourse::<
            T,
        >::Missing,
{
}

/// The entities that the texts `payloads` hold, in their order. A text that
/// holds no entity gives none.
pub open spec fn entities_in<T>(codec: Codec<T>, payloads: Seq<Seq<char>>) -> Seq<T>
    decreases payloads.len(),
{
    if payloads.len() == 0 {
        Seq::empty()
    } else {
        let rest = entities_in(codec, payloads.skip(1));
        match (codec.decode)(payloads[0]) {
            Some(entity) => seq![entity] + rest,
            None => rest,
        }
    }
}

/// The course of the listing `scan` after the replies `replies` came, one
/// after the other. A listing that has ended stays ended.
pub open spec fn scan_after<T>(scan: ScanView<T>, replies: Seq<Reply<T>>) -> ScanCourse<T>
    recommends
        replies.len() > 0,
    decreases replies.len(),
{
    if replies.len() <= 1 {
        scan_course(scan, replies[0])
    } else {
        match scan_course(scan, replies[0]) {
            ScanCourse::Issue(progress, _) => scan_after(
                ScanView { progress, ..scan },
                replies.skip(1),
            ),
            ScanCourse::Ends(found) => ScanCourse::Ends(found),
            ScanCourse::Fails(kind, source) => ScanCourse::Fails(kind, source),
        }
    }
}

/// A listing ends with the entities that the texts under its keys hold, in
/// the order of the keys: a text that holds no entity costs the listing that
/// entity and nothing else.
pub proof fn lemma_listing_keeps_what_decodes<T>(
    codec: Codec<T>,
    scan: ScanView<T>,
    replies: Seq<Reply<T>>,
)
    requires
        scan.progress is Decoding,
        0 <= scan.progress->next < scan.progress->payloads.len(),
        replies.len() == scan.progress->payloads.len() - scan.progress->next,
        forall|i: int|
            0 <= i < replies.len() ==> codec.answers(
                CommandView::Decode { input: scan.progress->payloads[scan.progress->next + i] },
                #[trigger] replies[i],
            ),
    ensures
        scan_after(scan, replies) == ScanCourse::Ends(
            scan.progress->found + entities_in(
                codec,
                scan.progress->payloads.skip(scan.progress->next),
            ),
        ),
    decreases replies.len(),
{
    let payloads = scan.progress->payloads;
    let next = scan.progress->next;
    let found = scan.progress->found;
    let rest = payloads.skip(next);
    assert(rest[0] == payloads[next]);
    assert(rest.skip(1) =~= payloads.skip(next + 1));
    assert(codec.answers(CommandView::Decode { input: payloads[next + 0] }, replies[0]));
    let kept = match (codec.decode)(payloads[next]) {
        Some(entity) => found.push(entity),
        None => found,
    };
    if next + 1 < payloads.len() {
        let onward = ScanView {
            progress: ScanProgress::Decoding { payloads, next: next + 1, found: kept },
            ..scan
        };
        assert forall|i: int| 0 <= i < replies.skip(1).len() implies codec.answers(
            CommandView::Decode { input: payloads[next + 1 + i] },
            #[trigger] replies.skip(1)[i],
        ) by {
            assert(replies.skip(1)[i] == replies[i + 1]);
        }
        lemma_listing_keeps_what_decodes(codec, onward, replies.skip(1));
        assert(kept + entities_in(codec, payloads.skip(next + 1)) =~= found + entities_in(
            codec,
            rest,
        ));
    } else {
        assert(entities_in(codec, payloads.skip(next + 1)) =~= Seq::<T>::empty());
        assert(kept =~= found + entities_in(codec, rest));
    }
}

} // verus!
