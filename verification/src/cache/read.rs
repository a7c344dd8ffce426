//! Reading from the cache: one entity by its key, or all entities of a kind.

use vstd::prelude::*;
use crate::cache::value::{read_text, text_of_value, RedisValue};
use crate::cache::{
    Command, CommandView, Operation, RedisResponse, RedisResult, Reply, Step,
};
use crate::error::{ErrorKind, RedisErrors};
use crate::ordered::{key_texts, lemma_with_item_by_keys, with_all, Snapshot};

verus! {

/// What stands for the cause where a reply is of a kind that the command
/// does not call for.
pub open spec fn unexpected_reply() -> Seq<char> {
    "unexpected reply"@
}

/// What stands for the cause where a listing is answered by a single value.
pub open spec fn not_a_list() -> Seq<char> {
    "fetch failed"@
}

/// The cause of failure that a reply to a backend command holds, if it holds one.
pub open spec fn failure_of<T>(reply: Reply<T>) -> Option<Seq<char>> {
    match reply {
        Reply::Value(_) => None,
        Reply::Failed(e) => Some(e@),
        _ => Some(unexpected_reply()),
    }
}

/// The backend's answer in a reply to a backend command, or the cause of failure.
pub fn backend_answer<T>(reply: Reply<T>) -> (r: Result<RedisValue, String>)
    ensures
        match reply {
            Reply::Value(v) => r == Ok::<RedisValue, String>(v),
            _ => r matches Err(e) && Some(e@) == failure_of(reply),
        },
{
    match reply {
        Reply::Value(v) => Ok(v),
        Reply::Failed(e) => Err(e),
        _ => Err(String::from_str("unexpected reply")),
    }
}

/// What the answer `value` to a read or a swap of `key` means: nothing stored,
/// the text stored, or a value that is no text.
pub open spec fn stored_text_is(
    key: Seq<char>,
    value: RedisValue,
    r: Result<RedisResult, RedisErrors>,
) -> bool {
    if value is Nil {
        r == Ok::<RedisResult, RedisErrors>(RedisResult::Nil)
    } else {
        match text_of_value(value) {
            Some(text) => r matches Ok(RedisResult::String(s)) && s@ == text,
            None => r matches Err(e) && e.kind_of() == ErrorKind::ValueDecode && e.subject_text()
                == key,
        }
    }
}

/// Reads the answer `value` to a read or a swap of `key`.
pub fn stored_text(key: &str, value: &RedisValue) -> (r: Result<RedisResult, RedisErrors>)
    ensures
        stored_text_is(key@, *value, r),
{
    match value {
        RedisValue::Nil => Ok(RedisResult::Nil),
        _ => match read_text(value) {
            Ok(s) => Ok(RedisResult::String(s)),
            Err(e) => Err(RedisErrors::UnableToReadValue { key: key.to_owned(), source: e }),
        },
    }
}

/// Where a read of one entity stands.
#[derive(Debug, PartialEq, Eq)]
pub enum ReadStage {
    /// Waiting for a connection.
    Connecting,
    /// Waiting for the value under the key.
    Getting,
    /// Waiting for the entity that the stored text holds.
    Decoding { input: String },
}

/// Where a read of one entity stands, as the contracts see it.
pub enum ReadProgress {
    /// Waiting for a connection.
    Connecting,
    /// Waiting for the value under the key.
    Getting,
    /// Waiting for the entity that the stored text `input` holds.
    Decoding { input: Seq<char> },
}

/// A read of one entity as the contracts see it.
pub struct ReadView {
    pub address: Seq<char>,
    pub key: Seq<char>,
    pub progress: ReadProgress,
}

/// The course that a read takes on a reply.
pub enum ReadCourse<T> {
    /// It goes on at the given place with the given command.
    Issue(ReadProgress, CommandView<T>),
    /// It ends: the entity was found.
    Found(T),
    /// It ends: nothing is stored under the key.
    Missing,
    /// It fails: the value under the key is no text.
    Unreadable,
    /// It fails in the given way, about the given subject, for the given cause.
    Fails(ErrorKind, Seq<char>, Seq<char>),
}

/// The course that the read `read` takes on `reply`.
///
/// Without a connection the read fails. With one it asks for the value. No
/// value means that the entity is missing; a value that is no text, a failed
/// read and a text that holds no entity are failures; else the entity that
/// the text holds is found.
pub open spec fn read_course<T>(read: ReadView, reply: Reply<T>) -> ReadCourse<T> {
    match read.progress {
        ReadProgress::Connecting => match reply {
            Reply::Failed(e) => ReadCourse::Fails(ErrorKind::Connect, read.address, e@),
            _ => ReadCourse::Issue(ReadProgress::Getting, CommandView::Get { key: read.key }),
        },
        ReadProgress::Getting => match reply {
            Reply::Value(value) => if value is Nil {
                ReadCourse::Missing
            } else {
                match text_of_value(value) {
                    Some(text) => ReadCourse::Issue(
                        ReadProgress::Decoding { input: text },
                        CommandView::Decode { input: text },
                    ),
                    None => ReadCourse::Unreadable,
                }
            },
            _ => ReadCourse::Fails(ErrorKind::Read, read.key, failure_of(reply).unwrap()),
        },
        ReadProgress::Decoding { input } => match reply {
            Reply::Entity(entity) => ReadCourse::Found(entity),
            Reply::Failed(e) => ReadCourse::Fails(ErrorKind::Deserialize, input, e@),
            _ => ReadCourse::Fails(ErrorKind::Deserialize, input, unexpected_reply()),
        },
    }
}

/// The read of one entity by its key.
#[derive(Debug, PartialEq, Eq)]
pub struct ObjectRead {
    address: String,
    key: String,
    stage: ReadStage,
}

impl ObjectRead {
    /// The read as the contracts see it.
    pub closed spec fn view(&self) -> ReadView {
        ReadView {
            address: self.address@,
            key: self.key@,
            progress: match self.stage {
                ReadStage::Connecting => ReadProgress::Connecting,
                ReadStage::Getting => ReadProgress::Getting,
                ReadStage::Decoding { input } => ReadProgress::Decoding { input: input@ },
            },
        }
    }

    /// A read of `key` at the backend at `address`, waiting for a connection.
    pub fn new(address: &str, key: String) -> (read: ObjectRead)
        ensures
            read@ == (ReadView { address: address@, key: key@, progress: ReadProgress::Connecting }),
    {
        ObjectRead { address: address.to_owned(), key, stage: ReadStage::Connecting }
    }

    /// What may follow `reply`: the step that the course asks for.
    pub open spec fn allows<T>(
        self,
        reply: Reply<T>,
        step: Step<ObjectRead, T, RedisResponse<T, RedisErrors>>,
    ) -> bool {
        match read_course(self@, reply) {
            ReadCourse::Issue(progress, command) => step matches Step::Issue(next, issued)
                && next@ == (ReadView { progress, ..self@ }) && issued@ == command,
            ReadCourse::Found(entity) => step == Step::<
                ObjectRead,
                T,
                RedisResponse<T, RedisErrors>,
            >::Done(RedisResponse::Found(entity)),
            ReadCourse::Missing => step == Step::<
                ObjectRead,
                T,
                RedisResponse<T, RedisErrors>,
            >::Done(RedisResponse::Missing),
            ReadCourse::Unreadable => step matches Step::Done(RedisResponse::Failed(err))
                && err.kind_of() == ErrorKind::ValueDecode && err.subject_text() == self@.key,
            ReadCourse::Fails(kind, subject, source) => step matches Step::Done(
                RedisResponse::Failed(err),
            ) && err.is_of(kind, subject, source),
        }
    }

    /// Takes the reply to the command issued last (the first is
    /// [`Command::Connect`]) and says what to do next.
    pub fn resume<T>(self, reply: Reply<T>) -> (step: Step<
        ObjectRead,
        T,
        RedisResponse<T, RedisErrors>,
    >)
        ensures
            self.allows(reply, step),
    {
        let ObjectRead { address, key, stage } = self;
        match stage {
            ReadStage::Connecting => match reply {
                Reply::Failed(e) => Step::Done(
                    RedisResponse::Failed(RedisErrors::UnableToConnect { address, source: e }),
                ),
                _ => {
                    let command = Command::Get { key: key.clone() };
                    Step::Issue(ObjectRead { address, key, stage: ReadStage::Getting }, command)
                },
            },
            ReadStage::Getting => match backend_answer(reply) {
                Err(e) => Step::Done(
                    RedisResponse::Failed(RedisErrors::UnableToGet { key, source: e }),
                ),
                Ok(value) => match stored_text(key.as_str(), &value) {
                    Err(e) => Step::Done(RedisResponse::Failed(e)),
                    Ok(RedisResult::Nil) => Step::Done(RedisResponse::Missing),
                    Ok(RedisResult::String(input)) => {
                        let command = Command::Decode { input: input.clone() };
                        Step::Issue(
                            ObjectRead { address, key, stage: ReadStage::Decoding { input } },
                            command,
                        )
                    },
                },
            },
            ReadStage::Decoding { input } => match reply {
                Reply::Entity(entity) => Step::Done(RedisResponse::Found(entity)),
                Reply::Failed(e) => Step::Done(
                    RedisResponse::Failed(RedisErrors::UnableToDeserialize { input, source: e }),
                ),
                _ => Step::Done(
                    RedisResponse::Failed(
                        RedisErrors::UnableToDeserialize {
                            input,
                            source: String::from_str("unexpected reply"),
                        },
                    ),
                ),
            },
        }
    }
}

/// The texts that the values of a listing stand for, in their order. A
/// value that stands for no text is passed over.
pub open spec fn element_texts(elements: Seq<RedisValue>) -> Seq<Seq<char>>
    decreases elements.len(),
{
    if elements.len() == 0 {
        Seq::empty()
    } else {
        let front = element_texts(elements.drop_last());
        match text_of_value(elements.last()) {
            Some(text) => front.push(text),
            None => front,
        }
    }
}

/// The keys that an enumeration gave: each once, in the order of keys.
pub open spec fn scan_keys(elements: Seq<RedisValue>) -> Seq<Seq<char>> {
    with_all(Seq::<Seq<char>>::empty(), element_texts(elements))
}

/// The texts that the values of a listing stand for, in their order.
pub fn collect_texts(elements: &Vec<RedisValue>) -> (texts: Vec<String>)
    ensures
        key_texts(texts@) == element_texts(elements@),
{
    let mut texts: Vec<String> = Vec::new();
    let mut i: usize = 0;
    while i < elements.len()
        invariant
            i <= elements@.len(),
            key_texts(texts@) == element_texts(elements@.take(i as int)),
        decreases elements@.len() - i,
    {
        let ghost before = texts@;
        proof {
            assert(elements@.take(i + 1).drop_last() =~= elements@.take(i as int));
            assert(elements@.take(i + 1).last() == elements@[i as int]);
        }
        match read_text(&elements[i]) {
            Ok(s) => {
                texts.push(s);
                proof {
                    assert(key_texts(texts@) =~= key_texts(before).push(s@));
                }
            },
            Err(_) => {},
        }
        i += 1;
    }
    proof {
        assert(elements@.take(elements@.len() as int) =~= elements@);
    }
    texts
}

/// The keys that an enumeration gave: each once, in the order of keys.
pub fn collect_keys(elements: &Vec<RedisValue>) -> (keys: Snapshot<String>)
    ensures
        key_texts(keys@) == scan_keys(elements@),
        keys.wf(),
{
    let mut keys: Snapshot<String> = Snapshot::new();
    let mut i: usize = 0;
    proof {
        assert(key_texts(keys@) =~= Seq::<Seq<char>>::empty());
    }
    while i < elements.len()
        invariant
            i <= elements@.len(),
            keys.wf(),
            key_texts(keys@) == scan_keys(elements@.take(i as int)),
        decreases elements@.len() - i,
    {
        let ghost before = keys@;
        let ghost done = element_texts(elements@.take(i as int));
        proof {
            assert(elements@.take(i + 1).drop_last() =~= elements@.take(i as int));
            assert(elements@.take(i + 1).last() == elements@[i as int]);
        }
        match read_text(&elements[i]) {
            Ok(s) => {
                proof {
                    lemma_with_item_by_keys(before, s);
                    assert(done.push(s@).drop_last() =~= done);
                }
                keys.insert(s);
            },
            Err(_) => {},
        }
        i += 1;
    }
    proof {
        assert(elements@.take(elements@.len() as int) =~= elements@);
    }
    keys
}

/// Where a listing stands, as the contracts see it.
pub enum ScanProgress<T> {
    /// Waiting for a connection.
    Connecting,
    /// Waiting for the keys that match the pattern.
    Scanning,
    /// Waiting for the values under the keys.
    Fetching,
    /// Waiting for the entity that `payloads[next]` holds, after `found`.
    Decoding { payloads: Seq<Seq<char>>, next: int, found: Seq<T> },
}

/// A listing as the contracts see it.
pub struct ScanView<T> {
    pub address: Seq<char>,
    pub pattern: Seq<char>,
    pub progress: ScanProgress<T>,
}

/// Where a listing stands.
#[derive(Debug, PartialEq, Eq)]
pub enum ScanStage<T> {
    Connecting,
    Scanning,
    Fetching,
    Decoding { payloads: Vec<String>, next: usize, found: Vec<T> },
}

/// The listing of all entities whose keys match a pattern: the keys are
/// enumerated, each taken once, their values fetched in one request, and
/// each value that holds an entity kept.
#[derive(Debug, PartialEq, Eq)]
pub struct ScanRead<T> {
    address: String,
    pattern: String,
    stage: ScanStage<T>,
}

/// The entities found after `reply` came for one more payload.
pub open spec fn found_after<T>(found: Seq<T>, reply: Reply<T>) -> Seq<T> {
    match reply {
        Reply::Entity(entity) => found.push(entity),
        _ => found,
    }
}

/// The course that a listing takes on a reply.
pub enum ScanCourse<T> {
    /// It goes on at the given place with the given command.
    Issue(ScanProgress<T>, CommandView<T>),
    /// It ends with these entities.
    Ends(Seq<T>),
    /// It fails in the given way for the given cause.
    Fails(ErrorKind, Seq<char>),
}

/// The listing goes on with the entity that `payloads[next]` holds, or ends
/// with the entities `found` where there is no such payload.
pub open spec fn decode_from<T>(payloads: Seq<Seq<char>>, next: int, found: Seq<T>) -> ScanCourse<
    T,
> {
    if 0 <= next < payloads.len() {
        ScanCourse::Issue(
            ScanProgress::Decoding { payloads, next, found },
            CommandView::Decode { input: payloads[next] },
        )
    } else {
        ScanCourse::Ends(found)
    }
}

/// The course that the listing `scan` takes on `reply`.
///
/// Without a connection the listing fails. With one it enumerates the keys;
/// a failed enumeration is a failure, no key ends the listing with no
/// entity, else the values under the keys, each key once, are asked for at
/// once. A failed request, or an answer that is no list, is a failure. Of
/// the values, those that stand for a text are decoded one by one, and each
/// entity that comes back is kept, in that order; a text that holds no
/// entity is passed over.
pub open spec fn scan_course<T>(scan: ScanView<T>, reply: Reply<T>) -> ScanCourse<T> {
    match scan.progress {
        ScanProgress::Connecting => match reply {
            Reply::Failed(e) => ScanCourse::Fails(ErrorKind::Connect, e@),
            _ => ScanCourse::Issue(
                ScanProgress::Scanning,
                CommandView::ScanMatch { pattern: scan.pattern },
            ),
        },
        ScanProgress::Scanning => match reply {
            Reply::Value(RedisValue::Bulk(elements)) => if scan_keys(elements@).len() == 0 {
                ScanCourse::Ends(Seq::empty())
            } else {
                ScanCourse::Issue(
                    ScanProgress::Fetching,
                    CommandView::GetAll { keys: scan_keys(elements@) },
                )
            },
            Reply::Value(_) => ScanCourse::Fails(ErrorKind::Read, not_a_list()),
            _ => ScanCourse::Fails(ErrorKind::Read, failure_of(reply).unwrap()),
        },
        ScanProgress::Fetching => match reply {
            Reply::Value(RedisValue::Bulk(values)) => decode_from(
                element_texts(values@),
                0,
                Seq::empty(),
            ),
            Reply::Value(_) => ScanCourse::Fails(ErrorKind::Read, not_a_list()),
            _ => ScanCourse::Fails(ErrorKind::Read, failure_of(reply).unwrap()),
        },
        ScanProgress::Decoding { payloads, next, found } => if next < 0 {
            ScanCourse::Ends(found_after(found, reply))
        } else {
            decode_from(payloads, next + 1, found_after(found, reply))
        },
    }
}

impl<T> ScanRead<T> {
    /// The listing as the contracts see it.
    pub closed spec fn view(&self) -> ScanView<T> {
        ScanView {
            address: self.address@,
            pattern: self.pattern@,
            progress: match self.stage {
                ScanStage::Connecting => ScanProgress::Connecting,
                ScanStage::Scanning => ScanProgress::Scanning,
                ScanStage::Fetching => ScanProgress::Fetching,
                ScanStage::Decoding { payloads, next, found } => ScanProgress::Decoding {
                    payloads: key_texts(payloads@),
                    next: next as int,
                    found: found@,
                },
            },
        }
    }

    /// A listing of what matches `pattern` at the backend at `address`,
    /// waiting for a connection.
    pub fn new(address: &str, pattern: &str) -> (scan: ScanRead<T>)
        ensures
            scan@ == (ScanView::<T> {
                address: address@,
                pattern: pattern@,
                progress: ScanProgress::Connecting,
            }),
    {
        ScanRead {
            address: address.to_owned(),
            pattern: pattern.to_owned(),
            stage: ScanStage::Connecting,
        }
    }

    /// What may follow `reply`: the step that the course asks for.
    pub open spec fn allows(
        self,
        reply: Reply<T>,
        step: Step<ScanRead<T>, T, Result<Vec<T>, RedisErrors>>,
    ) -> bool {
        match scan_course(self@, reply) {
            ScanCourse::Issue(progress, command) => step matches Step::Issue(scan, issued)
                && scan@ == (ScanView { progress, ..self@ }) && issued@ == command,
            ScanCourse::Ends(found) => step matches Step::Done(Ok(entities)) && entities@ == found,
            ScanCourse::Fails(kind, source) => step matches Step::Done(Err(err)) && err.is_of(
                kind,
                if kind == ErrorKind::Connect {
                    self@.address
                } else {
                    self@.pattern
                },
                source,
            ),
        }
    }

    /// Takes the reply to the command issued last (the first is
    /// [`Command::Connect`]) and says what to do next.
    pub fn resume(self, reply: Reply<T>) -> (step: Step<
        ScanRead<T>,
        T,
        Result<Vec<T>, RedisErrors>,
    >)
        ensures
            self.allows(reply, step),
    {
        let ScanRead { address, pattern, stage } = self;
        match stage {
            ScanStage::Connecting => match reply {
                Reply::Failed(e) => Step::Done(
                    Err(RedisErrors::UnableToConnect { address, source: e }),
                ),
                _ => {
                    let command = Command::ScanMatch { pattern: pattern.clone() };
                    Step::Issue(ScanRead { address, pattern, stage: ScanStage::Scanning }, command)
                },
            },
            ScanStage::Scanning => match backend_answer(reply) {
                Err(e) => Step::Done(Err(RedisErrors::UnableToGet { key: pattern, source: e })),
                Ok(RedisValue::Bulk(elements)) => {
                    let keys = collect_keys(&elements);
                    if keys.is_empty() {
                        Step::Done(Ok(Vec::new()))
                    } else {
                        Step::Issue(
                            ScanRead { address, pattern, stage: ScanStage::Fetching },
                            Command::GetAll { keys: keys.into_vec() },
                        )
                    }
                },
                Ok(_) => Step::Done(
                    Err(
                        RedisErrors::UnableToGet {
                            key: pattern,
                            source: String::from_str("fetch failed"),
                        },
                    ),
                ),
            },
            ScanStage::Fetching => match backend_answer(reply) {
                Err(e) => Step::Done(Err(RedisErrors::UnableToGet { key: pattern, source: e })),
                Ok(RedisValue::Bulk(values)) => {
                    let payloads = collect_texts(&values);
                    if payloads.len() == 0 {
                        Step::Done(Ok(Vec::new()))
                    } else {
                        let command = Command::Decode { input: payloads[0].clone() };
                        Step::Issue(
                            ScanRead {
                                address,
                                pattern,
                                stage: ScanStage::Decoding {
                                    payloads,
                                    next: 0,
                                    found: Vec::new(),
                                },
                            },
                            command,
                        )
                    }
                },
                Ok(_) => Step::Done(
                    Err(
                        RedisErrors::UnableToGet {
                            key: pattern,
                            source: String::from_str("fetch failed"),
                        },
                    ),
                ),
            },
            ScanStage::Decoding { payloads, next, found } => {
                let mut found = found;
                match reply {
                    Reply::Entity(entity) => {
                        found.push(entity);
                    },
                    _ => {},
                }
                if payloads.len() > 0 && next < payloads.len() - 1 {
                    let command = Command::Decode { input: payloads[next + 1].clone() };
                    Step::Issue(
                        ScanRead {
                            address,
                            pattern,
                            stage: ScanStage::Decoding { payloads, next: next + 1, found },
                        },
                        command,
                    )
                } else {
                    Step::Done(Ok(found))
                }
            },
        }
    }
}

impl<T> Operation<T> for ObjectRead {
    type Output = RedisResponse<T, RedisErrors>;

    fn advance(self, reply: Reply<T>) -> (step: Step<
        ObjectRead,
        T,
        RedisResponse<T, RedisErrors>,
    >)
        ensures
            self.allows(reply, step),
    {
        self.resume(reply)
    }
}

impl<T> Operation<T> for ScanRead<T> {
    type Output = Result<Vec<T>, RedisErrors>;

    fn advance(self, reply: Reply<T>) -> (step: Step<ScanRead<T>, T, Result<Vec<T>, RedisErrors>>)
        ensures
            self.allows(reply, step),
    {
        self.resume(reply)
    }
}

} // verus!
