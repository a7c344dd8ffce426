use slack_directory::cache::read::{backend_answer, collect_keys, collect_texts, stored_text};
use slack_directory::cache::value::{read_small_number, read_text, RedisValue};
use slack_directory::cache::{
    key_of_group_id, key_of_group_name, key_of_user_email, key_of_user_id, RedisResult, Reply,
    CACHE_POOL_EXPIRE_SECONDS, CACHE_POOL_MAX_IDLE, CACHE_POOL_MAX_OPEN,
    CACHE_POOL_TIMEOUT_SECONDS,
};
use slack_directory::error::{CliErrors, ErrorKind, RedisErrors, SlackErrors};

#[test]
fn text_is_read_from_data_status_and_ok() {
    assert_eq!(read_text(&RedisValue::Data(b"abc".to_vec())), Ok("abc".to_string()));
    assert_eq!(read_text(&RedisValue::Status("PONG".to_string())), Ok("PONG".to_string()));
    assert_eq!(read_text(&RedisValue::Okay), Ok("OK".to_string()));
    assert!(read_text(&RedisValue::Nil).is_err());
    assert!(read_text(&RedisValue::Int(3)).is_err());
    assert!(read_text(&RedisValue::Bulk(vec![RedisValue::Okay])).is_err());
    assert!(read_text(&RedisValue::Data(vec![0xff, 0xfe])).is_err());
}

#[test]
fn small_numbers_are_read_from_integers_and_text() {
    assert_eq!(read_small_number(&RedisValue::Int(1)), Ok(1));
    assert_eq!(read_small_number(&RedisValue::Int(0)), Ok(0));
    assert_eq!(read_small_number(&RedisValue::Int(257)), Ok(1));
    assert_eq!(read_small_number(&RedisValue::Int(-1)), Ok(255));
    assert_eq!(read_small_number(&RedisValue::Status("+7".to_string())), Ok(7));
    assert_eq!(read_small_number(&RedisValue::Data(b"007".to_vec())), Ok(7));
    assert!(read_small_number(&RedisValue::Status("256".to_string())).is_err());
    assert!(read_small_number(&RedisValue::Status("".to_string())).is_err());
    assert!(read_small_number(&RedisValue::Status("+".to_string())).is_err());
    assert!(read_small_number(&RedisValue::Status("-1".to_string())).is_err());
    assert!(read_small_number(&RedisValue::Status(" 1".to_string())).is_err());
    assert!(read_small_number(&RedisValue::Nil).is_err());
    assert!(read_small_number(&RedisValue::Okay).is_err());
}

#[test]
fn data_is_decoded_as_utf8() {
    assert_eq!(
        read_text(&RedisValue::Data("gr\u{fc}\u{df}e \u{1f600}".as_bytes().to_vec())),
        Ok("gr\u{fc}\u{df}e \u{1f600}".to_string())
    );
    assert_eq!(read_text(&RedisValue::Data(Vec::new())), Ok(String::new()));
}

#[test]
fn stored_text_is_nothing_a_text_or_unreadable() {
    assert_eq!(stored_text("k", &RedisValue::Nil), Ok(RedisResult::Nil));
    assert_eq!(
        stored_text("k", &RedisValue::Data(b"v".to_vec())),
        Ok(RedisResult::String("v".to_string()))
    );
    assert_eq!(stored_text("k", &RedisValue::Okay), Ok(RedisResult::String("OK".to_string())));
    let unreadable = stored_text("k", &RedisValue::Int(1)).unwrap_err();
    assert_eq!(unreadable.kind(), ErrorKind::ValueDecode);
    assert_eq!(unreadable.subject(), "k");
    assert!(unreadable.source().contains("not string compatible"));
}

#[test]
fn keys_are_collected_once_each_in_order() {
    let elements = vec![
        RedisValue::Data(b"b".to_vec()),
        RedisValue::Data(b"a".to_vec()),
        RedisValue::Nil,
        RedisValue::Data(b"b".to_vec()),
        RedisValue::Bulk(vec![]),
        RedisValue::Data(b"ab".to_vec()),
        RedisValue::Data(b"B".to_vec()),
    ];
    assert_eq!(collect_keys(&elements).into_vec(), vec!["B", "a", "ab", "b"]);
    assert!(collect_keys(&Vec::new()).is_empty());
}

#[test]
fn texts_are_collected_in_their_order_with_repeats() {
    let elements = vec![
        RedisValue::Data(b"b".to_vec()),
        RedisValue::Nil,
        RedisValue::Data(b"a".to_vec()),
        RedisValue::Int(0),
        RedisValue::Data(b"b".to_vec()),
    ];
    assert_eq!(collect_texts(&elements), vec!["b", "a", "b"]);
}

#[test]
fn reply_of_another_kind_counts_as_a_failure() {
    assert_eq!(backend_answer::<u8>(Reply::Value(RedisValue::Int(3))), Ok(RedisValue::Int(3)));
    assert_eq!(backend_answer::<u8>(Reply::Failed("down".to_string())), Err("down".to_string()));
    assert_eq!(
        backend_answer::<u8>(Reply::Text("{}".to_string())),
        Err("unexpected reply".to_string())
    );
    assert_eq!(backend_answer::<u8>(Reply::Entity(3)), Err("unexpected reply".to_string()));
}

#[test]
fn keys_follow_the_namespace() {
    assert_eq!(key_of_user_id("U1"), "user:id:U1");
    assert_eq!(key_of_user_email("a@b.c"), "user:email:a@b.c");
    assert_eq!(key_of_group_id("G1"), "user_group:id:G1");
    assert_eq!(key_of_group_name("all hands"), "user_group:name:all hands");
}

#[test]
fn pool_is_bounded() {
    assert_eq!(CACHE_POOL_MAX_OPEN, 16);
    assert_eq!(CACHE_POOL_MAX_IDLE, 8);
    assert_eq!(CACHE_POOL_TIMEOUT_SECONDS, 1);
    assert_eq!(CACHE_POOL_EXPIRE_SECONDS, 60);
}

#[test]
fn failures_show_their_subject() {
    let source = "cause".to_string();
    let connect = RedisErrors::UnableToConnect { address: "redis://h/".to_string(), source: source.clone() };
    assert_eq!(connect.message(), "Unable to connect to redis://h/");
    assert_eq!((connect.kind(), connect.subject(), connect.source()), (ErrorKind::Connect, "redis://h/", "cause"));
    let set = RedisErrors::UnableToSet { key: "k".to_string(), source: source.clone() };
    assert_eq!(set.message(), "Unable to write k to redis");
    assert_eq!(set.kind(), ErrorKind::Write);
    let get = RedisErrors::UnableToGet { key: "k".to_string(), source: source.clone() };
    assert_eq!(get.message(), "Unable to read k from redis");
    assert_eq!(get.kind(), ErrorKind::Read);
    let expire = RedisErrors::UnableToExpire { key: "k".to_string(), source: source.clone() };
    assert_eq!(expire.message(), "Unable to set k to expire");
    assert_eq!(expire.kind(), ErrorKind::Expire);
    let read = RedisErrors::UnableToReadValue { key: "k".to_string(), source: source.clone() };
    assert_eq!(read.message(), "Unable to read k value");
    assert_eq!(read.kind(), ErrorKind::ValueDecode);
    let parse = RedisErrors::UnableToDeserialize { input: "{".to_string(), source };
    assert_eq!(parse.message(), "Unable to deserialize {");
    assert_eq!((parse.kind(), parse.subject()), (ErrorKind::Deserialize, "{"));
    assert_eq!(SlackErrors::UnableToFetch.message(), "Unable to fetch from Slack");
    assert_eq!(CliErrors::Redis(parse).message(), "Unable to deserialize {");
    assert_eq!(CliErrors::Slack(SlackErrors::UnableToFetch).message(), "Unable to fetch from Slack");
}
