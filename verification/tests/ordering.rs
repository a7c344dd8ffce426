use slack_directory::directory::{SlackUser, SlackUserId};
use slack_directory::ordered::{compare_keys, HasKey, Snapshot};
use slack_directory::text::{compare_bytes, compare_text, decimal_text, join, ByteOrder};

fn user(id: &str, name: &str) -> SlackUser {
    SlackUser { id: id.to_string(), name: name.to_string(), email: format!("{}@example.org", name) }
}

#[test]
fn bytes_are_compared_lexicographically() {
    assert_eq!(compare_bytes(b"", b""), ByteOrder::Equal);
    assert_eq!(compare_bytes(b"", b"a"), ByteOrder::Less);
    assert_eq!(compare_bytes(b"a", b""), ByteOrder::Greater);
    assert_eq!(compare_bytes(b"abc", b"abd"), ByteOrder::Less);
    assert_eq!(compare_bytes(b"abd", b"abc"), ByteOrder::Greater);
    assert_eq!(compare_bytes(b"ab", b"abc"), ByteOrder::Less);
    assert_eq!(compare_bytes(b"abc", b"abc"), ByteOrder::Equal);
    assert_eq!(compare_bytes(&[0xff], &[0x00, 0xff]), ByteOrder::Greater);
}

#[test]
fn texts_are_compared_as_str_orders_them() {
    let samples = ["", "a", "B", "ab", "U1", "U10", "U2", "z", "\u{e9}", "\u{1f600}", "zz"];
    for a in samples {
        for b in samples {
            let expected = match a.cmp(b) {
                std::cmp::Ordering::Less => ByteOrder::Less,
                std::cmp::Ordering::Equal => ByteOrder::Equal,
                std::cmp::Ordering::Greater => ByteOrder::Greater,
            };
            assert_eq!(compare_text(a, b), expected);
        }
    }
}

#[test]
fn numbers_are_written_in_decimal() {
    assert_eq!(decimal_text(0), "0");
    assert_eq!(decimal_text(7), "7");
    assert_eq!(decimal_text(10), "10");
    assert_eq!(decimal_text(200), "200");
    assert_eq!(decimal_text(65535), "65535");
    for n in [1u16, 9, 11, 99, 100, 101, 1000, 4096, 60000] {
        assert_eq!(decimal_text(n), n.to_string());
    }
}

#[test]
fn texts_are_joined() {
    assert_eq!(join("user:id:", "U1"), "user:id:U1");
    assert_eq!(join("", ""), "");
}

#[test]
fn snapshot_keeps_one_item_per_key_in_key_order() {
    let mut snapshot = Snapshot::new();
    assert!(snapshot.is_empty());
    assert!(snapshot.insert(user("U2", "bob")));
    assert!(snapshot.insert(user("U1", "ada")));
    assert!(snapshot.insert(user("U3", "cy")));
    assert!(!snapshot.insert(user("U2", "impostor")));
    assert_eq!(snapshot.len(), 3);
    let ids: Vec<&str> = snapshot.as_slice().iter().map(|u| u.id.as_str()).collect();
    assert_eq!(ids, vec!["U1", "U2", "U3"]);
    assert_eq!(snapshot.get(1).map(|u| u.name.as_str()), Some("bob"));
    assert_eq!(snapshot.get(3), None);
}

#[test]
fn snapshot_finds_by_key() {
    let mut snapshot = Snapshot::new();
    snapshot.extend(vec![user("b", "b"), user("d", "d"), user("a", "a")]);
    assert_eq!(snapshot.find("a"), Some(0));
    assert_eq!(snapshot.find("b"), Some(1));
    assert_eq!(snapshot.find("d"), Some(2));
    assert_eq!(snapshot.find("c"), None);
    assert_eq!(snapshot.find(""), None);
    assert_eq!(snapshot.find("e"), None);
}

#[test]
fn snapshot_extends_in_turn_so_the_first_of_a_key_stays() {
    let mut snapshot = Snapshot::new();
    snapshot.extend(vec![user("U1", "first"), user("U0", "zero"), user("U1", "second")]);
    snapshot.extend(vec![user("U1", "third"), user("U9", "nine")]);
    let names: Vec<&str> = snapshot.as_slice().iter().map(|u| u.name.as_str()).collect();
    assert_eq!(names, vec!["zero", "first", "nine"]);
}

#[test]
fn snapshot_is_copied_item_by_item() {
    let mut snapshot = Snapshot::new();
    snapshot.extend(vec![SlackUserId::new("U2".to_string()), SlackUserId::new("U1".to_string())]);
    let copy = snapshot.clone();
    assert_eq!(copy, snapshot);
    assert_eq!(copy.into_vec(), vec![SlackUserId::new("U1".to_string()), SlackUserId::new("U2".to_string())]);
}

#[test]
fn items_hand_out_their_keys() {
    assert_eq!(user("U1", "ada").key(), "U1");
    assert_eq!(SlackUserId::new("U7".to_string()).key(), "U7");
    assert_eq!(SlackUserId::new("U7".to_string()).id(), "U7");
    assert_eq!("plain".to_string().key(), "plain");
}

#[test]
fn items_are_ordered_by_their_keys() {
    assert_eq!(compare_keys(&user("U1", "z"), &user("U2", "a")), ByteOrder::Less);
    assert_eq!(compare_keys(&user("U2", "a"), &user("U10", "a")), ByteOrder::Greater);
    assert_eq!(compare_keys(&user("U1", "a"), &user("U1", "b")), ByteOrder::Equal);
}
