use std::collections::BTreeMap;

use slack_directory::cache::lock::LockOp;
use slack_directory::cache::read::{ObjectRead, ScanRead};
use slack_directory::cache::reconcile::{keys_missing_from, reconcile, Indexed};
use slack_directory::cache::server::RedisServer;
use slack_directory::cache::value::RedisValue;
use slack_directory::cache::write::{SetOp, WriteBatch, WriteSummary};
use slack_directory::cache::{
    Command, Operation, RedisResponse, RedisResult, Reply, Step, REDIS_ENTITY_TIMEOUT,
    REDIS_LOCK_TIMEOUT,
};
use slack_directory::directory::groups::{GroupFetch, GroupStep};
use slack_directory::directory::users::{
    ListResponse, PagerStep, ResponseMetadata, UserPager,
};
use slack_directory::directory::{
    RawProfile, RawUser, RawUserGroup, SlackUser, SlackUserGroup, SlackUserId,
};
use slack_directory::error::{ErrorKind, RedisErrors};
use slack_directory::ordered::Snapshot;

const ADDRESS: &str = "redis://127.0.0.1/";

/// Turns entities into JSON and back, as the caller of the library does.
trait Codec: Sized {
    fn to_json(&self) -> String;
    fn from_json(input: &str) -> Result<Self, String>;
}

fn text_field(value: &serde_json::Value, name: &str) -> Result<String, String> {
    match value.get(name).and_then(|field| field.as_str()) {
        Some(text) => Ok(text.to_string()),
        None => Err(format!("missing field `{}`", name)),
    }
}

impl Codec for SlackUser {
    fn to_json(&self) -> String {
        let mut object = serde_json::Map::new();
        object.insert("id".to_string(), serde_json::Value::String(self.id.clone()));
        object.insert("name".to_string(), serde_json::Value::String(self.name.clone()));
        object.insert("email".to_string(), serde_json::Value::String(self.email.clone()));
        serde_json::Value::Object(object).to_string()
    }

    fn from_json(input: &str) -> Result<Self, String> {
        let value: serde_json::Value = serde_json::from_str(input).map_err(|e| e.to_string())?;
        Ok(SlackUser {
            id: text_field(&value, "id")?,
            name: text_field(&value, "name")?,
            email: text_field(&value, "email")?,
        })
    }
}

impl Codec for SlackUserGroup {
    fn to_json(&self) -> String {
        let members: Vec<serde_json::Value> = self
            .users
            .as_slice()
            .iter()
            .map(|member| serde_json::Value::String(member.id().to_string()))
            .collect();
        let mut object = serde_json::Map::new();
        object.insert("id".to_string(), serde_json::Value::String(self.id.clone()));
        object.insert("name".to_string(), serde_json::Value::String(self.name.clone()));
        object.insert("users".to_string(), serde_json::Value::Array(members));
        serde_json::Value::Object(object).to_string()
    }

    fn from_json(input: &str) -> Result<Self, String> {
        let value: serde_json::Value = serde_json::from_str(input).map_err(|e| e.to_string())?;
        let mut users = Snapshot::new();
        let listed = value.get("users").and_then(|field| field.as_array());
        for member in listed.ok_or("missing field `users`".to_string())? {
            let id = member.as_str().ok_or("member is no text".to_string())?;
            users.insert(SlackUserId::new(id.to_string()));
        }
        Ok(SlackUserGroup { id: text_field(&value, "id")?, name: text_field(&value, "name")?, users })
    }
}

impl Codec for () {
    fn to_json(&self) -> String {
        "null".to_string()
    }

    fn from_json(_: &str) -> Result<Self, String> {
        Ok(())
    }
}

/// A backend in memory, with a clock that the test moves.
struct Fake {
    entries: BTreeMap<String, (String, Option<u64>)>,
    now: u64,
    down: bool,
    refused_keys: Vec<String>,
    commands: Vec<String>,
}

impl Fake {
    fn new() -> Fake {
        Fake {
            entries: BTreeMap::new(),
            now: 1_000,
            down: false,
            refused_keys: Vec::new(),
            commands: Vec::new(),
        }
    }

    fn live(&self, key: &str) -> bool {
        match self.entries.get(key) {
            Some((_, Some(end))) => self.now < *end,
            Some((_, None)) => true,
            None => false,
        }
    }

    fn value(&self, key: &str) -> RedisValue {
        if self.live(key) {
            RedisValue::Data(self.entries[key].0.clone().into_bytes())
        } else {
            RedisValue::Nil
        }
    }

    fn live_keys(&self) -> Vec<String> {
        self.entries.keys().filter(|key| self.live(key)).cloned().collect()
    }

    fn perform<T: Codec>(&mut self, command: Command<T>) -> Reply<T> {
        match command {
            Command::Connect => {
                self.commands.push("CONNECT".to_string());
                if self.down {
                    Reply::Failed("timed out waiting for a connection".to_string())
                } else {
                    Reply::Value(RedisValue::Okay)
                }
            }
            Command::Get { key } => {
                self.commands.push(format!("GET {}", key));
                Reply::Value(self.value(&key))
            }
            Command::GetSet { key, value } => {
                self.commands.push(format!("GETSET {}", key));
                if self.refused_keys.contains(&key) {
                    return Reply::Failed("READONLY".to_string());
                }
                let previous = self.value(&key);
                self.entries.insert(key, (value, None));
                Reply::Value(previous)
            }
            Command::Expire { key, seconds } => {
                self.commands.push(format!("EXPIRE {} {}", key, seconds));
                if self.live(&key) {
                    let value = self.entries[&key].0.clone();
                    self.entries.insert(key, (value, Some(self.now + seconds as u64)));
                    Reply::Value(RedisValue::Int(1))
                } else {
                    Reply::Value(RedisValue::Int(0))
                }
            }
            Command::SetNx { key, value } => {
                self.commands.push(format!("SETNX {}", key));
                if self.live(&key) {
                    Reply::Value(RedisValue::Int(0))
                } else {
                    self.entries.insert(key, (value, None));
                    Reply::Value(RedisValue::Int(1))
                }
            }
            Command::ScanMatch { pattern } => {
                self.commands.push(format!("SCAN {}", pattern));
                let prefix = pattern.trim_end_matches('*').to_string();
                let found = self
                    .live_keys()
                    .into_iter()
                    .filter(|key| key.starts_with(&prefix))
                    .map(|key| RedisValue::Data(key.into_bytes()))
                    .collect();
                Reply::Value(RedisValue::Bulk(found))
            }
            Command::GetAll { keys } => {
                self.commands.push(format!("MGET {}", keys.join(" ")));
                Reply::Value(RedisValue::Bulk(keys.iter().map(|key| self.value(key)).collect()))
            }
            Command::Encode { entity } => Reply::Text(entity.to_json()),
            Command::Decode { input } => match T::from_json(&input) {
                Ok(entity) => Reply::Entity(entity),
                Err(e) => Reply::Failed(e),
            },
        }
    }

    fn run<T: Codec, O: Operation<T>>(&mut self, first: Step<O, T, O::Output>) -> O::Output {
        let mut step = first;
        loop {
            match step {
                Step::Issue(operation, command) => {
                    let reply = self.perform(command);
                    step = operation.advance(reply);
                }
                Step::Done(output) => return output,
            }
        }
    }
}

fn server() -> RedisServer {
    RedisServer::new(ADDRESS).expect("the address is a redis URL")
}

fn user(id: &str, name: &str, email: &str) -> SlackUser {
    SlackUser { id: id.to_string(), name: name.to_string(), email: email.to_string() }
}

fn users(list: Vec<SlackUser>) -> Snapshot<SlackUser> {
    let mut snapshot = Snapshot::new();
    snapshot.extend(list);
    snapshot
}

type Fields = (String, String, String);

fn fields(user: &SlackUser) -> Fields {
    (user.id.clone(), user.name.clone(), user.email.clone())
}

/// Id, name and email address of the user that a read found.
fn found(response: RedisResponse<SlackUser, RedisErrors>) -> Option<Fields> {
    match response {
        RedisResponse::Found(user) => Some(fields(&user)),
        RedisResponse::Missing => None,
        RedisResponse::Failed(e) => panic!("the read failed: {}", e.message()),
    }
}

fn listed(result: Result<Vec<SlackUser>, RedisErrors>) -> Vec<Fields> {
    result.expect("the listing is had").iter().map(fields).collect()
}

fn summary(result: Result<WriteSummary, RedisErrors>) -> WriteSummary {
    result.expect("a batch never fails")
}

#[test]
fn written_user_is_read_back_by_id_and_by_email() {
    let mut backend = Fake::new();
    let ada = user("U1", "Ada Lovelace", "ada@example.org");
    let written = summary(backend.run(server().insert_users(users(vec![ada.clone()]))));
    assert_eq!(written.entities, 1);
    assert!(written.failures.is_empty());

    let by_id = backend.run(server().get_user_by_id("U1".to_string()));
    assert_eq!(found(by_id), Some(fields(&ada)));
    let by_email = backend.run(server().get_user_by_email("ada@example.org".to_string()));
    assert_eq!(found(by_email), Some(fields(&ada)));
}

#[test]
fn both_keys_of_an_entity_hold_the_same_value_and_time_to_live() {
    let mut backend = Fake::new();
    let ada = user("U1", "Ada \"the first\" Lovelace", "ada@example.org");
    summary(backend.run(server().insert_users(users(vec![ada.clone()]))));
    let by_id = backend.entries["user:id:U1"].clone();
    let by_email = backend.entries["user:email:ada@example.org"].clone();
    assert_eq!(by_id, by_email);
    assert_eq!(by_id.0, ada.to_json());
    assert_eq!(by_id.1, Some(1_000 + 43_200));
    assert_eq!(REDIS_ENTITY_TIMEOUT, 43_200);
}

#[test]
fn users_are_written_by_email_first_and_groups_by_id_first() {
    let mut backend = Fake::new();
    summary(backend.run(server().insert_users(users(vec![user("U1", "Ada", "a@x")]))));
    assert_eq!(
        backend.commands,
        vec![
            "CONNECT",
            "GETSET user:email:a@x",
            "EXPIRE user:email:a@x 43200",
            "CONNECT",
            "GETSET user:id:U1",
            "EXPIRE user:id:U1 43200",
        ]
    );
    let mut backend = Fake::new();
    let mut groups = Snapshot::new();
    groups.insert(SlackUserGroup {
        id: "G1".to_string(),
        name: "admins".to_string(),
        users: Snapshot::new(),
    });
    summary(backend.run(server().insert_user_groups(groups)));
    assert_eq!(
        backend.commands,
        vec![
            "CONNECT",
            "GETSET user_group:id:G1",
            "EXPIRE user_group:id:G1 43200",
            "CONNECT",
            "GETSET user_group:name:admins",
            "EXPIRE user_group:name:admins 43200",
        ]
    );
}

#[test]
fn entity_is_found_before_its_time_to_live_and_missing_after() {
    let mut backend = Fake::new();
    let ada = user("U1", "Ada", "ada@example.org");
    summary(backend.run(server().insert_users(users(vec![ada.clone()]))));
    let written_at = backend.now;

    backend.now = written_at + 43_200 - 1;
    assert_eq!(found(backend.run(server().get_user_by_id("U1".to_string()))), Some(fields(&ada)));
    backend.now = written_at + 43_200;
    assert_eq!(
        backend.run::<SlackUser, ObjectRead>(server().get_user_by_id("U1".to_string())),
        RedisResponse::Missing
    );
    backend.now = written_at + 43_200 + 1;
    assert_eq!(
        backend.run::<SlackUser, ObjectRead>(server().get_user_by_email("ada@example.org".to_string())),
        RedisResponse::Missing
    );
}

#[test]
fn write_with_any_time_to_live_expires_at_that_time() {
    let mut backend = Fake::new();
    let write = SetOp::new(ADDRESS, "k".to_string(), "v".to_string(), 7);
    let previous = backend.run::<(), SetOp>(Step::Issue(write, Command::Connect));
    assert_eq!(previous, Ok(RedisResult::Nil));
    backend.now += 6;
    let read = ObjectRead::new(ADDRESS, "k".to_string());
    assert_eq!(
        backend.run::<(), ObjectRead>(Step::Issue(read, Command::Connect)),
        RedisResponse::Found(())
    );
    backend.now += 2;
    let read = ObjectRead::new(ADDRESS, "k".to_string());
    assert_eq!(
        backend.run::<(), ObjectRead>(Step::Issue(read, Command::Connect)),
        RedisResponse::Missing
    );
}

#[test]
fn write_without_time_to_live_sets_none() {
    let mut backend = Fake::new();
    let write = SetOp::new(ADDRESS, "k".to_string(), "v1".to_string(), 0);
    assert_eq!(
        backend.run::<(), SetOp>(Step::Issue(write, Command::Connect)),
        Ok(RedisResult::Nil)
    );
    assert_eq!(backend.commands, vec!["CONNECT", "GETSET k"]);
    let write = SetOp::new(ADDRESS, "k".to_string(), "v2".to_string(), 0);
    assert_eq!(
        backend.run::<(), SetOp>(Step::Issue(write, Command::Connect)),
        Ok(RedisResult::String("v1".to_string()))
    );
    assert_eq!(backend.entries["k"], ("v2".to_string(), None));
}

#[test]
fn lock_is_taken_by_exactly_one_of_two() {
    let mut backend = Fake::new();
    let a = backend.run::<(), LockOp>(server().acquire_lock("A"));
    let b = backend.run::<(), LockOp>(server().acquire_lock("B"));
    assert_eq!(a, Ok(true));
    assert_eq!(b, Ok(false));
    assert_eq!(backend.entries["write_lock"].0, "A");

    let mut backend = Fake::new();
    let b = backend.run::<(), LockOp>(server().acquire_lock("B"));
    let a = backend.run::<(), LockOp>(server().acquire_lock("A"));
    assert_eq!((a, b), (Ok(false), Ok(true)));
    assert_eq!(backend.entries["write_lock"].0, "B");
}

#[test]
fn lock_is_contested_while_the_winner_has_not_set_its_lease() {
    let mut backend = Fake::new();
    // A connects and creates the key; B does the same before A sets its lease.
    let a = match server().acquire_lock::<()>("A") {
        Step::Issue(op, command) => op.resume(backend.perform(command)),
        Step::Done(_) => unreachable!(),
    };
    let (a, create) = match a {
        Step::Issue(op, command) => (op, command),
        Step::Done(_) => unreachable!(),
    };
    let a = a.resume(backend.perform::<()>(create));
    let b = backend.run::<(), LockOp>(server().acquire_lock("B"));
    let a = backend.run::<(), LockOp>(a);
    assert_eq!((a, b), (Ok(true), Ok(false)));
    assert_eq!(backend.entries["write_lock"], ("A".to_string(), Some(1_000 + 120)));
}

#[test]
fn lease_of_the_holder_is_not_extended_by_a_loser() {
    let mut backend = Fake::new();
    assert_eq!(backend.run::<(), LockOp>(server().acquire_lock("A")), Ok(true));
    assert_eq!(backend.entries["write_lock"].1, Some(1_000 + 120));
    assert_eq!(REDIS_LOCK_TIMEOUT, 120);
    backend.now += 60;
    backend.commands.clear();
    assert_eq!(backend.run::<(), LockOp>(server().acquire_lock("B")), Ok(false));
    assert_eq!(backend.commands, vec!["CONNECT", "SETNX write_lock"]);
    assert_eq!(backend.entries["write_lock"], ("A".to_string(), Some(1_000 + 120)));
    backend.now += 60;
    assert_eq!(backend.run::<(), LockOp>(server().acquire_lock("B")), Ok(true));
    assert_eq!(backend.entries["write_lock"].0, "B");
}

#[test]
fn failed_write_of_one_key_leaves_the_other_key_readable() {
    let mut backend = Fake::new();
    backend.refused_keys.push("user:email:ada@example.org".to_string());
    let ada = user("U1", "Ada", "ada@example.org");
    let bob = user("U2", "Bob", "bob@example.org");
    let written = summary(backend.run(server().insert_users(users(vec![ada.clone(), bob.clone()]))));
    assert_eq!(written.entities, 2);
    assert_eq!(written.failures.len(), 1);
    assert_eq!(written.failures[0].kind(), ErrorKind::Write);
    assert_eq!(written.failures[0].subject(), "user:email:ada@example.org");
    assert_eq!(written.failures[0].source(), "READONLY");

    assert_eq!(found(backend.run(server().get_user_by_id("U1".to_string()))), Some(fields(&ada)));
    assert_eq!(
        backend.run::<SlackUser, ObjectRead>(server().get_user_by_email("ada@example.org".to_string())),
        RedisResponse::Missing
    );
    assert_eq!(
        found(backend.run(server().get_user_by_email("bob@example.org".to_string()))),
        Some(fields(&bob))
    );
}

#[test]
fn batch_goes_on_when_no_connection_can_be_had() {
    let mut backend = Fake::new();
    backend.down = true;
    let written = summary(backend.run(server().insert_users(users(vec![user("U1", "Ada", "a@x")]))));
    assert_eq!(written.entities, 1);
    assert_eq!(written.failures.len(), 2);
    for failure in &written.failures {
        assert_eq!(failure.kind(), ErrorKind::Connect);
        assert_eq!(failure.subject(), ADDRESS);
    }
    assert!(backend.entries.is_empty());
}

#[test]
fn entity_without_json_is_noted_as_two_failed_writes() {
    let first = server().insert_users(users(vec![user("U1", "Ada", "a@x"), user("U2", "Bob", "b@x")]));
    let batch = match first {
        Step::Issue(batch, Command::Encode { entity }) => {
            assert_eq!(entity.id, "U1");
            batch
        }
        _ => unreachable!(),
    };
    let next = batch.resume(Reply::Failed("no JSON".to_string()));
    let batch = match next {
        Step::Issue(batch, Command::Encode { entity }) => {
            assert_eq!(entity.id, "U2");
            batch
        }
        _ => unreachable!(),
    };
    let mut backend = Fake::new();
    let written = summary(backend.run(batch.resume(Reply::Text("{}".to_string()))));
    assert_eq!(written.entities, 2);
    assert_eq!(written.failures.len(), 2);
    assert_eq!(written.failures[0].kind(), ErrorKind::Write);
    assert_eq!(written.failures[0].subject(), "user:email:a@x");
    assert_eq!(written.failures[0].source(), "no JSON");
    assert_eq!(written.failures[1].subject(), "user:id:U1");
    assert_eq!(written.failures[1].source(), "no JSON");
    assert_eq!(backend.entries["user:id:U2"].0, "{}");
}

#[test]
fn batch_of_nothing_ends_at_once() {
    match server().insert_users(Snapshot::new()) {
        Step::Done(Ok(written)) => {
            assert_eq!(written.entities, 0);
            assert!(written.failures.is_empty());
        }
        _ => unreachable!(),
    }
}

#[test]
fn listing_of_an_empty_namespace_is_empty() {
    let mut backend = Fake::new();
    let users: Result<Vec<SlackUser>, RedisErrors> = backend.run(server().get_all_users());
    assert_eq!(users, Ok(Vec::new()));
    assert_eq!(backend.commands, vec!["CONNECT", "SCAN user:id:*"]);
    let groups: Result<Vec<SlackUserGroup>, RedisErrors> =
        backend.run(server().get_all_user_groups());
    assert_eq!(groups, Ok(Vec::new()));
}

#[test]
fn listing_returns_each_user_once_in_the_order_of_the_keys() {
    let mut backend = Fake::new();
    let ada = user("U1", "Ada", "ada@example.org");
    let bob = user("U2", "Bob", "bob@example.org");
    summary(backend.run(server().insert_users(users(vec![bob.clone(), ada.clone()]))));
    backend.commands.clear();
    let all = listed(backend.run(server().get_all_users()));
    assert_eq!(all, vec![fields(&ada), fields(&bob)]);
    assert_eq!(backend.commands, vec!["CONNECT", "SCAN user:id:*", "MGET user:id:U1 user:id:U2"]);
}

#[test]
fn listing_takes_each_key_once_and_passes_over_what_is_no_key() {
    let scan: ScanRead<SlackUser> = ScanRead::new(ADDRESS, "user:id:*");
    let scan = match scan.resume(Reply::Value(RedisValue::Okay)) {
        Step::Issue(scan, Command::ScanMatch { pattern }) => {
            assert_eq!(pattern, "user:id:*");
            scan
        }
        _ => unreachable!(),
    };
    let enumerated = RedisValue::Bulk(vec![
        RedisValue::Data(b"user:id:U2".to_vec()),
        RedisValue::Nil,
        RedisValue::Data(b"user:id:U1".to_vec()),
        RedisValue::Int(4),
        RedisValue::Data(vec![0xff]),
        RedisValue::Data(b"user:id:U2".to_vec()),
        RedisValue::Status("user:id:U10".to_string()),
    ]);
    match scan.resume(Reply::Value(enumerated)) {
        Step::Issue(_, Command::GetAll { keys }) => {
            assert_eq!(keys, vec!["user:id:U1", "user:id:U10", "user:id:U2"]);
        }
        _ => unreachable!(),
    }
}

#[test]
fn listing_passes_over_values_that_hold_no_entity() {
    let mut backend = Fake::new();
    let ada = user("U1", "Ada", "ada@example.org");
    summary(backend.run(server().insert_users(users(vec![ada.clone()]))));
    backend.entries.insert("user:id:U0".to_string(), ("not json".to_string(), None));
    backend.entries.insert("user:id:U3".to_string(), ("{\"id\":\"U3\"}".to_string(), None));
    assert_eq!(listed(backend.run(server().get_all_users())), vec![fields(&ada)]);
}

#[test]
fn listing_passes_over_keys_that_went_away() {
    let scan: ScanRead<SlackUser> = ScanRead::new(ADDRESS, "user:id:*");
    let scan = match scan.resume(Reply::Value(RedisValue::Okay)) {
        Step::Issue(scan, _) => scan,
        _ => unreachable!(),
    };
    let keys = RedisValue::Bulk(vec![
        RedisValue::Data(b"user:id:U1".to_vec()),
        RedisValue::Data(b"user:id:U2".to_vec()),
    ]);
    let scan = match scan.resume(Reply::Value(keys)) {
        Step::Issue(scan, _) => scan,
        _ => unreachable!(),
    };
    let values = RedisValue::Bulk(vec![RedisValue::Nil, RedisValue::Nil]);
    match scan.resume(Reply::Value(values)) {
        Step::Done(listed) => assert_eq!(listed, Ok(Vec::new())),
        _ => unreachable!(),
    }
}

#[test]
fn listing_fails_where_the_values_come_as_no_list() {
    let scan: ScanRead<SlackUser> = ScanRead::new(ADDRESS, "user:id:*");
    let scan = match scan.resume(Reply::Value(RedisValue::Okay)) {
        Step::Issue(scan, _) => scan,
        _ => unreachable!(),
    };
    let keys = RedisValue::Bulk(vec![RedisValue::Data(b"user:id:U1".to_vec())]);
    let scan = match scan.resume(Reply::Value(keys)) {
        Step::Issue(scan, _) => scan,
        _ => unreachable!(),
    };
    match scan.resume(Reply::Value(RedisValue::Data(b"{}".to_vec()))) {
        Step::Done(Err(e)) => {
            assert_eq!(e.kind(), ErrorKind::Read);
            assert_eq!(e.subject(), "user:id:*");
            assert_eq!(e.source(), "fetch failed");
            assert_eq!(e.message(), "Unable to read user:id:* from redis");
        }
        _ => unreachable!(),
    }
}

#[test]
fn listing_fails_where_the_enumeration_fails() {
    let scan: ScanRead<SlackUser> = ScanRead::new(ADDRESS, "user:id:*");
    let scan = match scan.resume(Reply::Value(RedisValue::Okay)) {
        Step::Issue(scan, _) => scan,
        _ => unreachable!(),
    };
    match scan.resume(Reply::Failed("connection reset".to_string())) {
        Step::Done(Err(e)) => {
            assert_eq!(
                e,
                RedisErrors::UnableToGet {
                    key: "user:id:*".to_string(),
                    source: "connection reset".to_string()
                }
            );
        }
        _ => unreachable!(),
    }
}

#[test]
fn read_fails_without_a_connection() {
    let mut backend = Fake::new();
    backend.down = true;
    let read = backend.run::<SlackUser, ObjectRead>(server().get_user_by_id("U1".to_string()));
    assert_eq!(
        read,
        RedisResponse::Failed(RedisErrors::UnableToConnect {
            address: ADDRESS.to_string(),
            source: "timed out waiting for a connection".to_string()
        })
    );
    let users: Result<Vec<SlackUser>, RedisErrors> = backend.run(server().get_all_users());
    assert_eq!(users.unwrap_err().kind(), ErrorKind::Connect);
    assert_eq!(
        backend.run::<(), LockOp>(server().acquire_lock("A")).unwrap_err().kind(),
        ErrorKind::Connect
    );
}

#[test]
fn read_fails_where_the_value_is_no_text_or_no_entity() {
    let connected = |key: &str| match ObjectRead::new(ADDRESS, key.to_string())
        .resume::<SlackUser>(Reply::Value(RedisValue::Okay))
    {
        Step::Issue(read, Command::Get { key: asked }) => {
            assert_eq!(asked, key);
            read
        }
        _ => unreachable!(),
    };
    match connected("user:id:U1").resume::<SlackUser>(Reply::Value(RedisValue::Int(5))) {
        Step::Done(RedisResponse::Failed(e)) => {
            assert_eq!(e.kind(), ErrorKind::ValueDecode);
            assert_eq!(e.subject(), "user:id:U1");
            assert_eq!(e.message(), "Unable to read user:id:U1 value");
        }
        _ => unreachable!(),
    }
    match connected("user:id:U1").resume::<SlackUser>(Reply::Failed("broken pipe".to_string())) {
        Step::Done(RedisResponse::Failed(e)) => {
            assert_eq!(e.kind(), ErrorKind::Read);
            assert_eq!(e.source(), "broken pipe");
        }
        _ => unreachable!(),
    }
    let decoding = match connected("user:id:U1")
        .resume::<SlackUser>(Reply::Value(RedisValue::Data(b"[1]".to_vec())))
    {
        Step::Issue(read, Command::Decode { input }) => {
            assert_eq!(input, "[1]");
            read
        }
        _ => unreachable!(),
    };
    match decoding.resume::<SlackUser>(Reply::Failed("expected an object".to_string())) {
        Step::Done(RedisResponse::Failed(e)) => {
            assert_eq!(
                e,
                RedisErrors::UnableToDeserialize {
                    input: "[1]".to_string(),
                    source: "expected an object".to_string()
                }
            );
            assert_eq!(e.message(), "Unable to deserialize [1]");
        }
        _ => unreachable!(),
    }
}

#[test]
fn lock_fails_where_the_backend_fails() {
    let creating = || match LockOp::new(ADDRESS, "A", 120).resume::<()>(Reply::Value(RedisValue::Okay)) {
        Step::Issue(op, Command::SetNx { key, value }) => {
            assert_eq!((key.as_str(), value.as_str()), ("write_lock", "A"));
            op
        }
        _ => unreachable!(),
    };
    match creating().resume::<()>(Reply::Failed("READONLY".to_string())) {
        Step::Done(Err(e)) => {
            assert_eq!(e.kind(), ErrorKind::Write);
            assert_eq!(e.message(), "Unable to write write_lock to redis");
        }
        _ => unreachable!(),
    }
    match creating().resume::<()>(Reply::Value(RedisValue::Nil)) {
        Step::Done(Err(e)) => assert_eq!(e.kind(), ErrorKind::ValueDecode),
        _ => unreachable!(),
    }
    let leasing = match creating().resume::<()>(Reply::Value(RedisValue::Int(1))) {
        Step::Issue(op, Command::Expire { key, seconds }) => {
            assert_eq!((key.as_str(), seconds), ("write_lock", 120));
            op
        }
        _ => unreachable!(),
    };
    match leasing.resume::<()>(Reply::Failed("gone".to_string())) {
        Step::Done(Err(e)) => {
            assert_eq!(e.kind(), ErrorKind::Expire);
            assert_eq!(e.message(), "Unable to set write_lock to expire");
        }
        _ => unreachable!(),
    }
    match creating().resume::<()>(Reply::Value(RedisValue::Data(b"1".to_vec()))) {
        Step::Issue(_, Command::Expire { .. }) => {}
        _ => unreachable!(),
    }
    match creating().resume::<()>(Reply::Value(RedisValue::Int(2))) {
        Step::Done(taken) => assert_eq!(taken, Ok(false)),
        _ => unreachable!(),
    }
}

#[test]
fn write_fails_where_the_time_to_live_cannot_be_set() {
    let mut backend = Fake::new();
    let write = SetOp::new(ADDRESS, "k".to_string(), "v".to_string(), 5);
    let write = match write.resume::<()>(backend.perform(Command::Connect)) {
        Step::Issue(write, command) => match write.resume::<()>(backend.perform(command)) {
            Step::Issue(write, Command::Expire { key, seconds }) => {
                assert_eq!((key.as_str(), seconds), ("k", 5));
                write
            }
            _ => unreachable!(),
        },
        _ => unreachable!(),
    };
    match write.resume::<()>(Reply::Failed("gone".to_string())) {
        Step::Done(Err(e)) => {
            assert_eq!(
                e,
                RedisErrors::UnableToExpire { key: "k".to_string(), source: "gone".to_string() }
            );
        }
        _ => unreachable!(),
    }
}

#[test]
fn server_is_had_for_a_redis_address_only() {
    assert_eq!(server().address(), ADDRESS);
    match RedisServer::new("http://127.0.0.1/") {
        Err(e) => {
            assert_eq!(e.kind(), ErrorKind::Connect);
            assert_eq!(e.subject(), "http://127.0.0.1/");
            assert_eq!(e.message(), "Unable to connect to http://127.0.0.1/");
        }
        Ok(_) => unreachable!(),
    }
    match RedisServer::opened("anywhere", Err("refused".to_string())) {
        Err(e) => assert_eq!(
            e,
            RedisErrors::UnableToConnect {
                address: "anywhere".to_string(),
                source: "refused".to_string()
            }
        ),
        Ok(_) => unreachable!(),
    }
}

fn raw_user(id: &str, name: &str, email: Option<&str>) -> RawUser {
    RawUser {
        id: Some(id.to_string()),
        deleted: Some(false),
        is_bot: Some(false),
        profile: Some(RawProfile {
            real_name: Some(name.to_string()),
            email: email.map(|e| e.to_string()),
        }),
    }
}

fn raw_group(id: &str, name: &str) -> RawUserGroup {
    RawUserGroup {
        id: Some(id.to_string()),
        name: Some(name.to_string()),
        deleted_by: Some("U9".to_string()),
        date_delete: Some(1_600_000_000),
    }
}

#[test]
fn three_users_and_two_groups_end_to_end() {
    // Ingest: 3 users, one without an email address.
    let page = ListResponse {
        error: None,
        ok: true,
        members: Some(vec![
            raw_user("U1", "Ada", Some("ada@example.org")),
            raw_user("U2", "Bob", None),
            raw_user("U3", "Cy", Some("cy@example.org")),
        ]),
        response_metadata: ResponseMetadata { next_cursor: None },
    };
    let pager = match UserPager::start() {
        PagerStep::Fetch(pager, _) => pager,
        PagerStep::Done(_) => unreachable!(),
    };
    let fetched_users = match pager.resume(Ok(page)) {
        PagerStep::Done(Some(snapshot)) => snapshot,
        _ => unreachable!(),
    };
    assert_eq!(fetched_users.len(), 2);

    // Ingest: 2 groups, the members of one cannot be fetched.
    let listing = Ok(Some(vec![raw_group("G1", "admins"), raw_group("G2", "staff")]));
    let fetch = match GroupFetch::begin(listing) {
        GroupStep::ListMembers(fetch, request) => {
            assert_eq!(request.usergroup, "G1");
            fetch
        }
        GroupStep::Done(_) => unreachable!(),
    };
    let fetch = match fetch.resume(Err("rate limited".to_string())) {
        GroupStep::ListMembers(fetch, request) => {
            assert_eq!(request.usergroup, "G2");
            fetch
        }
        GroupStep::Done(_) => unreachable!(),
    };
    let fetched_groups = match fetch.resume(Ok(Some(vec!["U3".to_string(), "U1".to_string()]))) {
        GroupStep::Done(Some(snapshot)) => snapshot,
        _ => unreachable!(),
    };
    assert_eq!(fetched_groups.len(), 1);

    // Write both, then read the users back.
    let mut backend = Fake::new();
    summary(backend.run(server().insert_users(fetched_users.clone())));
    summary(backend.run(server().insert_user_groups(fetched_groups.clone())));
    assert_eq!(
        backend.live_keys(),
        vec![
            "user:email:ada@example.org",
            "user:email:cy@example.org",
            "user:id:U1",
            "user:id:U3",
            "user_group:id:G2",
            "user_group:name:staff",
        ]
    );
    assert_eq!(
        listed(backend.run(server().get_all_users())),
        vec![
            fields(&user("U1", "Ada", "ada@example.org")),
            fields(&user("U3", "Cy", "cy@example.org"))
        ]
    );
    let groups = backend.run(server().get_all_user_groups());
    assert_eq!(groups, Ok(fetched_groups.into_vec()));
}

#[test]
fn result_becomes_found_or_failed() {
    let found: RedisResponse<u8, String> = RedisResponse::of(Ok(3));
    assert_eq!(found, RedisResponse::Found(3));
    let failed: RedisResponse<u8, String> = RedisResponse::of(Err("e".to_string()));
    assert_eq!(failed, RedisResponse::Failed("e".to_string()));
}

#[test]
fn batch_started_by_hand_writes_with_the_time_to_live_given() {
    let mut backend = Fake::new();
    let first = WriteBatch::start(ADDRESS, vec![user("U1", "Ada", "a@x")], 9);
    summary(backend.run(first));
    assert_eq!(backend.entries["user:id:U1"].1, Some(1_009));
}

#[test]
fn indexes_that_differ_are_told_apart() {
    let mut backend = Fake::new();
    backend.refused_keys.push("user:email:ada@example.org".to_string());
    let ada = user("U1", "Ada", "ada@example.org");
    let bob = user("U2", "Bob", "bob@example.org");
    summary(backend.run(server().insert_users(users(vec![ada, bob]))));
    backend.entries.insert("user:email:gone@example.org".to_string(), ("{}".to_string(), None));

    let primary = backend.run(server().get_all_users()).expect("the listing is had");
    let mut secondary = Snapshot::new();
    secondary.extend(
        backend.live_keys().into_iter().filter(|key| key.starts_with("user:email:")).collect(),
    );
    let compared = reconcile(&primary, &secondary);
    assert_eq!(compared.missing, vec!["user:email:ada@example.org"]);
    assert_eq!(compared.stray, vec!["user:email:gone@example.org"]);
    assert!(!compared.is_consistent());
}

#[test]
fn indexes_that_agree_are_consistent() {
    let mut backend = Fake::new();
    let mut groups = Snapshot::new();
    groups.insert(SlackUserGroup {
        id: "G1".to_string(),
        name: "admins".to_string(),
        users: Snapshot::new(),
    });
    groups.insert(SlackUserGroup {
        id: "G2".to_string(),
        name: "staff".to_string(),
        users: Snapshot::new(),
    });
    summary(backend.run(server().insert_user_groups(groups)));
    let primary = backend.run(server().get_all_user_groups()).expect("the listing is had");
    assert_eq!(primary[0].secondary_key(), "user_group:name:admins");
    let mut secondary = Snapshot::new();
    secondary.extend(
        backend.live_keys().into_iter().filter(|key| key.starts_with("user_group:name:")).collect(),
    );
    let compared = reconcile(&primary, &secondary);
    assert!(compared.is_consistent());
    assert!(compared.missing.is_empty() && compared.stray.is_empty());

    let nothing: Vec<SlackUser> = Vec::new();
    assert!(reconcile(&nothing, &Snapshot::new()).is_consistent());
    let keys = vec!["b".to_string(), "a".to_string(), "b".to_string(), "c".to_string()];
    let mut held = Snapshot::new();
    held.insert("a".to_string());
    assert_eq!(keys_missing_from(&keys, &held), vec!["b", "b", "c"]);
}
