use slack_directory::directory::groups::{
    groups_request, members_of, passed_over, why_dropped, why_passed_over, GroupFetch, GroupStep,
};
use slack_directory::directory::users::{
    list, list_params, page_users, ListRequest, ListResponse, PagerStep, ResponseMetadata,
    UserPager, REQUESTS_PER_MINUTE, REQUEST_JITTER_SECONDS, USERS_PAGE_LIMIT,
};
use slack_directory::directory::{RawProfile, RawUser, RawUserGroup, SlackUser};
use slack_directory::get_slack_url_for_method;

fn raw(id: &str) -> RawUser {
    RawUser {
        id: Some(id.to_string()),
        deleted: Some(false),
        is_bot: Some(false),
        profile: Some(RawProfile {
            real_name: Some(format!("name of {}", id)),
            email: Some(format!("{}@example.org", id)),
        }),
    }
}

type Fields = (String, String, String);

/// Id, name and email address of the user that `raw(id)` gives.
fn entity(id: &str) -> Fields {
    (id.to_string(), format!("name of {}", id), format!("{}@example.org", id))
}

fn fields(user: SlackUser) -> Fields {
    (user.id, user.name, user.email)
}

fn all_fields(users: Vec<SlackUser>) -> Vec<Fields> {
    users.into_iter().map(fields).collect()
}

fn page(members: Vec<RawUser>, cursor: Option<&str>) -> Result<ListResponse, String> {
    Ok(ListResponse {
        error: None,
        ok: true,
        members: Some(members),
        response_metadata: ResponseMetadata { next_cursor: cursor.map(|c| c.to_string()) },
    })
}

/// Feeds the answers to a fetch and tells the cursors asked for and the end.
fn fetch(pages: Vec<Result<ListResponse, String>>) -> (Vec<Option<String>>, Option<Option<Vec<Fields>>>) {
    let mut asked = Vec::new();
    let mut step = UserPager::start();
    let mut pages = pages.into_iter();
    loop {
        match step {
            PagerStep::Fetch(pager, request) => {
                assert_eq!(request.limit, Some(200));
                asked.push(request.cursor);
                match pages.next() {
                    Some(answer) => step = pager.resume(answer),
                    None => return (asked, None),
                }
            }
            PagerStep::Done(snapshot) => {
                return (asked, Some(snapshot.map(|s| all_fields(s.into_vec()))))
            }
        }
    }
}

#[test]
fn url_for_method_appends_the_method() {
    assert_eq!(get_slack_url_for_method("users.list"), "https://slack.com/api/users.list");
    assert_eq!(get_slack_url_for_method(""), "https://slack.com/api/");
}

#[test]
fn request_for_a_page_names_token_cursor_and_limit() {
    let pair = |name: &str, value: &str| (name.to_string(), value.to_string());
    let first = ListRequest { cursor: None, limit: Some(200) };
    assert_eq!(list_params("xoxb", &first), vec![pair("token", "xoxb"), pair("limit", "200")]);
    let next = ListRequest { cursor: Some("dXNlcjpV".to_string()), limit: Some(200) };
    assert_eq!(
        list_params("xoxb", &next),
        vec![pair("token", "xoxb"), pair("cursor", "dXNlcjpV"), pair("limit", "200")]
    );
    let bare = ListRequest { cursor: None, limit: None };
    assert_eq!(list_params("t", &bare), vec![pair("token", "t")]);
    let call = list("xoxb", &next);
    assert_eq!(call.url, "https://slack.com/api/users.list");
    assert_eq!(call.params, list_params("xoxb", &next));
}

#[test]
fn rate_of_requests_is_fixed() {
    assert_eq!(USERS_PAGE_LIMIT, 200);
    assert_eq!(REQUESTS_PER_MINUTE, 10);
    assert_eq!(REQUEST_JITTER_SECONDS, 1);
}

#[test]
fn user_needs_id_profile_name_and_email() {
    assert_eq!(SlackUser::new(raw("U1")).map(fields), Ok(entity("U1")));
    let mut no_id = raw("U1");
    no_id.id = None;
    assert_eq!(SlackUser::new(no_id), Err("no user id".to_string()));
    let mut no_profile = raw("U1");
    no_profile.profile = None;
    assert_eq!(SlackUser::new(no_profile), Err("U1: no profile".to_string()));
    let mut no_name = raw("U1");
    no_name.profile = Some(RawProfile { real_name: None, email: Some("e".to_string()) });
    assert_eq!(SlackUser::new(no_name), Err("U1: no name".to_string()));
    let mut no_email = raw("U1");
    no_email.profile = Some(RawProfile { real_name: Some("Ada".to_string()), email: None });
    assert_eq!(SlackUser::new(no_email), Err("U1 - Ada: no email".to_string()));
}

#[test]
fn user_with_empty_fields_is_still_a_user() {
    let blank = RawUser {
        id: Some(String::new()),
        deleted: Some(false),
        is_bot: Some(false),
        profile: Some(RawProfile { real_name: Some(String::new()), email: Some(String::new()) }),
    };
    assert_eq!(
        SlackUser::new(blank).map(fields),
        Ok((String::new(), String::new(), String::new()))
    );
}

#[test]
fn page_keeps_valid_records_one_for_one_in_order() {
    let mut deleted = raw("U2");
    deleted.deleted = Some(true);
    let mut bot = raw("U3");
    bot.is_bot = Some(true);
    let mut unmarked = raw("U4");
    unmarked.deleted = None;
    let mut unmarked_bot = raw("U5");
    unmarked_bot.is_bot = None;
    let mut no_email = raw("U6");
    no_email.profile = Some(RawProfile { real_name: Some("x".to_string()), email: None });
    let members = vec![raw("U9"), deleted, bot, raw("U1"), unmarked, unmarked_bot, no_email, raw("U9")];
    assert_eq!(
        all_fields(page_users(members)),
        vec![entity("U9"), entity("U1"), entity("U4"), entity("U5"), entity("U9")]
    );
    assert!(page_users(Vec::new()).is_empty());
}

#[test]
fn record_without_any_mark_gives_a_user() {
    let mut plain = raw("U1");
    plain.deleted = None;
    plain.is_bot = None;
    assert_eq!(all_fields(page_users(vec![plain.clone()])), vec![entity("U1")]);
    let (_, end) = fetch(vec![page(vec![plain], None)]);
    assert_eq!(end, Some(Some(vec![entity("U1")])));

    let mut deleted_only = raw("U2");
    deleted_only.is_bot = None;
    deleted_only.deleted = Some(true);
    let mut bot_only = raw("U3");
    bot_only.deleted = None;
    bot_only.is_bot = Some(true);
    assert!(page_users(vec![deleted_only, bot_only]).is_empty());
}

#[test]
fn fetch_makes_one_request_per_cursor_after_the_first() {
    let (asked, end) = fetch(vec![
        page(vec![raw("U3")], Some("c1")),
        page(vec![raw("U1")], Some("c2")),
        page(vec![raw("U2")], None),
    ]);
    assert_eq!(asked, vec![None, Some("c1".to_string()), Some("c2".to_string())]);
    assert_eq!(end, Some(Some(vec![entity("U1"), entity("U2"), entity("U3")])));
}

#[test]
fn fetch_ends_on_an_empty_cursor_whatever_follows() {
    let (asked, end) = fetch(vec![
        page(vec![raw("U1")], Some("")),
        page(vec![raw("U2")], Some("c2")),
    ]);
    assert_eq!(asked, vec![None]);
    assert_eq!(end, Some(Some(vec![entity("U1")])));
}

#[test]
fn fetch_goes_on_while_cursors_come() {
    let (asked, end) = fetch(vec![page(vec![raw("U1")], Some("c1"))]);
    assert_eq!(asked, vec![None, Some("c1".to_string())]);
    assert_eq!(end, None);
}

#[test]
fn fetch_keeps_the_first_record_of_an_id_across_pages() {
    let mut again = raw("U1");
    again.profile = Some(RawProfile {
        real_name: Some("someone else".to_string()),
        email: Some("else@example.org".to_string()),
    });
    let (_, end) = fetch(vec![page(vec![raw("U1")], Some("c1")), page(vec![again, raw("U0")], None)]);
    assert_eq!(end, Some(Some(vec![entity("U0"), entity("U1")])));
}

#[test]
fn fetch_never_yields_deleted_users_or_bots_in_any_order_of_pages() {
    let mut deleted = raw("U2");
    deleted.deleted = Some(true);
    let mut bot = raw("U3");
    bot.is_bot = Some(true);
    let one = vec![raw("U1"), deleted.clone()];
    let two = vec![bot.clone(), raw("U4")];
    let (_, forward) = fetch(vec![page(one.clone(), Some("c")), page(two.clone(), None)]);
    let (_, backward) = fetch(vec![page(two, Some("c")), page(one, None)]);
    assert_eq!(forward, Some(Some(vec![entity("U1"), entity("U4")])));
    assert_eq!(backward, forward);
}

#[test]
fn invalid_record_does_not_end_the_fetch() {
    let mut no_profile = raw("U2");
    no_profile.profile = None;
    let mut no_id = raw("U3");
    no_id.id = None;
    let (asked, end) = fetch(vec![
        page(vec![no_profile, raw("U1")], Some("c1")),
        page(vec![no_id], None),
    ]);
    assert_eq!(asked.len(), 2);
    assert_eq!(end, Some(Some(vec![entity("U1")])));
}

#[test]
fn failed_page_ends_the_fetch_without_a_snapshot() {
    let (asked, end) = fetch(vec![
        page(vec![raw("U1")], Some("c1")),
        Err("connection reset".to_string()),
        page(vec![raw("U2")], None),
    ]);
    assert_eq!(asked.len(), 2);
    assert_eq!(end, Some(None));

    let refused = Ok(ListResponse {
        error: Some("invalid_auth".to_string()),
        ok: false,
        members: Some(vec![raw("U1")]),
        response_metadata: ResponseMetadata { next_cursor: None },
    });
    assert_eq!(fetch(vec![refused]).1, Some(None));

    let no_list = Ok(ListResponse {
        error: None,
        ok: true,
        members: None,
        response_metadata: ResponseMetadata { next_cursor: None },
    });
    assert_eq!(fetch(vec![no_list]).1, Some(None));
}

#[test]
fn answer_is_itself_or_the_word_of_the_api() {
    let taken = ListResponse {
        error: None,
        ok: true,
        members: None,
        response_metadata: ResponseMetadata { next_cursor: None },
    };
    assert_eq!(taken.clone().into_result(), Ok(taken.clone()));
    let refused = ListResponse { ok: false, error: Some("not_authed".to_string()), ..taken.clone() };
    assert_eq!(refused.into_result(), Err("not_authed".to_string()));
    let silent = ListResponse { ok: false, ..taken };
    assert_eq!(silent.into_result(), Err(String::new()));
}

fn group(id: Option<&str>, name: Option<&str>, deleted_by: Option<&str>, date_delete: Option<i32>) -> RawUserGroup {
    RawUserGroup {
        id: id.map(|s| s.to_string()),
        name: name.map(|s| s.to_string()),
        deleted_by: deleted_by.map(|s| s.to_string()),
        date_delete,
    }
}

#[test]
fn groups_are_asked_for_without_disabled_and_counts() {
    let request = groups_request();
    assert_eq!(request.include_disabled, Some(false));
    assert_eq!(request.include_count, Some(false));
    assert_eq!(request.include_users, Some(true));
}

#[test]
fn only_groups_with_a_deletion_on_record_are_kept() {
    let listed = vec![
        group(Some("G1"), Some("active"), None, None),
        group(Some("G4"), Some("deleted"), Some("U1"), Some(5)),
    ];
    let fetch = match GroupFetch::begin(Ok(Some(listed))) {
        GroupStep::ListMembers(fetch, request) => {
            assert_eq!(request.usergroup, "G4");
            assert_eq!(request.include_disabled, Some(false));
            fetch
        }
        GroupStep::Done(_) => unreachable!(),
    };
    match fetch.resume(Ok(Some(vec!["U2".to_string(), "U1".to_string(), "U2".to_string()]))) {
        GroupStep::Done(Some(snapshot)) => {
            let groups = snapshot.into_vec();
            assert_eq!(groups.len(), 1);
            assert_eq!((groups[0].id.as_str(), groups[0].name.as_str()), ("G4", "deleted"));
            let members: Vec<&str> = groups[0].users.as_slice().iter().map(|m| m.id()).collect();
            assert_eq!(members, vec!["U1", "U2"]);
        }
        _ => unreachable!(),
    }
    match GroupFetch::begin(Ok(Some(vec![group(Some("G1"), Some("active"), None, None)]))) {
        GroupStep::Done(Some(snapshot)) => assert!(snapshot.is_empty()),
        _ => unreachable!(),
    }
}

#[test]
fn group_with_one_deletion_field_is_kept() {
    let listed = vec![
        group(Some("G2"), Some("by whom"), Some("U1"), None),
        group(Some("G3"), Some("when"), None, Some(5)),
    ];
    let mut step = GroupFetch::begin(Ok(Some(listed)));
    let mut asked = Vec::new();
    let snapshot = loop {
        match step {
            GroupStep::ListMembers(fetch, request) => {
                asked.push(request.usergroup);
                step = fetch.resume(Ok(Some(vec!["U1".to_string()])));
            }
            GroupStep::Done(snapshot) => break snapshot.expect("the listing was had"),
        }
    };
    assert_eq!(asked, vec!["G2", "G3"]);
    let names: Vec<String> = snapshot.into_vec().into_iter().map(|g| g.name).collect();
    assert_eq!(names, vec!["by whom", "when"]);
}

#[test]
fn dropped_groups_have_their_reasons() {
    let listed = vec![
        group(None, Some("nameless id"), Some("U1"), Some(5)),
        group(Some("G1"), Some("fine"), Some("U1"), None),
        group(Some("G2"), None, None, Some(5)),
        group(None, None, None, None),
        group(Some("G3"), None, None, None),
    ];
    assert_eq!(why_passed_over(&listed[0]), Some("no group id".to_string()));
    assert_eq!(why_passed_over(&listed[1]), None);
    assert_eq!(why_passed_over(&listed[2]), Some("No name for group G2".to_string()));
    assert_eq!(why_passed_over(&listed[3]), None);
    assert_eq!(why_passed_over(&listed[4]), None);
    assert_eq!(passed_over(&listed), vec!["no group id", "No name for group G2"]);
    assert!(passed_over(&Vec::new()).is_empty());
    assert_eq!(
        why_dropped("G7", "rate limited"),
        "Error getting users from group G7. Error: rate limited"
    );
}

#[test]
fn group_without_id_or_name_is_passed_over_without_a_request() {
    let listed = vec![
        group(None, Some("nameless id"), Some("U1"), Some(5)),
        group(Some("G2"), None, Some("U1"), Some(5)),
    ];
    match GroupFetch::begin(Ok(Some(listed))) {
        GroupStep::Done(Some(snapshot)) => assert!(snapshot.is_empty()),
        _ => unreachable!(),
    }
}

#[test]
fn group_whose_members_cannot_be_listed_is_dropped_alone() {
    let listed = vec![
        group(Some("G2"), Some("two"), Some("U1"), Some(5)),
        group(Some("G1"), Some("one"), Some("U1"), Some(5)),
        group(Some("G3"), Some("three"), Some("U1"), Some(5)),
    ];
    let mut step = GroupFetch::begin(Ok(Some(listed)));
    let mut asked = Vec::new();
    let snapshot = loop {
        match step {
            GroupStep::ListMembers(fetch, request) => {
                let answer = if request.usergroup == "G1" {
                    Err("rate limited".to_string())
                } else if request.usergroup == "G2" {
                    Ok(None)
                } else {
                    Ok(Some(vec!["U5".to_string()]))
                };
                asked.push(request.usergroup);
                step = fetch.resume(answer);
            }
            GroupStep::Done(snapshot) => break snapshot.expect("the listing was had"),
        }
    };
    assert_eq!(asked, vec!["G2", "G1", "G3"]);
    let groups = snapshot.into_vec();
    let ids: Vec<&str> = groups.iter().map(|g| g.id.as_str()).collect();
    assert_eq!(ids, vec!["G2", "G3"]);
    assert!(groups[0].users.is_empty());
    assert_eq!(groups[1].users.len(), 1);
}

#[test]
fn listing_of_groups_that_fails_or_holds_no_list_gives_no_snapshot() {
    assert_eq!(GroupFetch::begin(Err("down".to_string())), GroupStep::Done(None));
    assert_eq!(GroupFetch::begin(Ok(None)), GroupStep::Done(None));
    match GroupFetch::begin(Ok(Some(Vec::new()))) {
        GroupStep::Done(Some(snapshot)) => assert!(snapshot.is_empty()),
        _ => unreachable!(),
    }
}

#[test]
fn members_are_held_once_each_in_order() {
    let members = members_of(Some(vec!["U3".to_string(), "U1".to_string(), "U3".to_string()]));
    let ids: Vec<&str> = members.as_slice().iter().map(|m| m.id()).collect();
    assert_eq!(ids, vec!["U1", "U3"]);
    assert!(members_of(None).is_empty());
}

#[test]
fn users_are_equal_by_id() {
    let ada = SlackUser { id: "U1".to_string(), name: "Ada".to_string(), email: "a@x".to_string() };
    let renamed = SlackUser { id: "U1".to_string(), name: "A.".to_string(), email: "b@x".to_string() };
    let other = SlackUser { id: "U2".to_string(), name: "Ada".to_string(), email: "a@x".to_string() };
    assert!(ada == renamed);
    assert!(ada != other);
}
