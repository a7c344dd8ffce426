//! Fetching the snapshot of all users, page by page.

use vstd::prelude::*;
use crate::directory::{user_of, RawUser, SlackUser};
use crate::text::{decimal_digits, decimal_text, join};
use crate::ordered::{
    has_key, lemma_with_all_keys, lemma_with_all_members, lemma_with_all_sorted, sorted_by_key,
    with_all, Keyed, Snapshot,
};

verus! {

/// How many users a page holds at most.
pub const USERS_PAGE_LIMIT: u16 = 200;

/// How many requests are made per minute at most.
pub const REQUESTS_PER_MINUTE: u32 = 10;

/// Up to how many seconds are added, at random, to each wait for a request.
pub const REQUEST_JITTER_SECONDS: u64 = 1;

/// The request for one page of users.
#[derive(Clone, Debug, PartialEq, Eq)]
pub struct ListRequest {
    /// Where the page starts: the cursor that came with the page before.
    pub cursor: Option<String>,
    /// How many users the page holds at most.
    pub limit: Option<u16>,
}

/// What comes with a page besides the users.
#[derive(Clone, Debug, PartialEq, Eq)]
pub struct ResponseMetadata {
    /// Where the next page starts; absent or empty after the last page.
    pub next_cursor: Option<String>,
}

/// One page of users as the upstream API answers.
#[derive(Clone, Debug, PartialEq, Eq)]
pub struct ListResponse {
    /// What went wrong, where the API says so.
    pub error: Option<String>,
    /// The users of the page.
    pub members: Option<Vec<RawUser>>,
    /// Whether the API took the request.
    pub ok: bool,
    pub response_metadata: ResponseMetadata,
}

/// A parameter of a request as the contracts see it: name and value.
pub open spec fn pairs_view(pairs: Seq<(String, String)>) -> Seq<(Seq<char>, Seq<char>)> {
    pairs.map_values(|pair: (String, String)| (pair.0@, pair.1@))
}

/// The parameters of the request for a page: the token, then the cursor
/// where there is one, then the limit where there is one, in decimal.
pub open spec fn list_params_of(token: Seq<char>, request: ListRequest) -> Seq<
    (Seq<char>, Seq<char>),
> {
    seq![("token"@, token)] + match request.cursor {
        Some(cursor) => seq![("cursor"@, cursor@)],
        None => Seq::empty(),
    } + match request.limit {
        Some(limit) => seq![("limit"@, decimal_digits(limit as nat))],
        None => Seq::empty(),
    }
}

/// The parameters of the request for a page of users.
pub fn list_params(token: &str, request: &ListRequest) -> (params: Vec<(String, String)>)
    ensures
        pairs_view(params@) == list_params_of(token@, *request),
{
    let mut params: Vec<(String, String)> = Vec::new();
    params.push((String::from_str("token"), token.to_owned()));
    match &request.cursor {
        Some(cursor) => {
            params.push((String::from_str("cursor"), cursor.clone()));
        },
        None => {},
    }
    match request.limit {
        Some(limit) => {
            params.push((String::from_str("limit"), decimal_text(limit)));
        },
        None => {},
    }
    proof {
        assert(pairs_view(params@) =~= list_params_of(token@, *request));
    }
    params
}

/// Address of the upstream endpoint that serves `method`.
pub fn get_slack_url_for_method(method: &str) -> (url: String)
    ensures
        url@ == "https://slack.com/api/"@ + method@,
{
    join("https://slack.com/api/", method)
}

/// What is sent for a page of users: the address and the parameters.
#[derive(Clone, Debug, PartialEq, Eq)]
pub struct ListCall {
    pub url: String,
    pub params: Vec<(String, String)>,
}

/// What is sent for a page of users. The answer, once it is read, goes to
/// the pager.
pub fn list(token: &str, request: &ListRequest) -> (call: ListCall)
    ensures
        call.url@ == "https://slack.com/api/"@ + "users.list"@,
        pairs_view(call.params@) == list_params_of(token@, *request),
{
    ListCall { url: get_slack_url_for_method("users.list"), params: list_params(token, request) }
}

/// A listed user is kept unless the record marks the user as deleted or as
/// a bot. A record without such a mark is kept.
pub open spec fn retained(raw: RawUser) -> bool {
    raw.deleted != Some(true) && raw.is_bot != Some(true)
}

/// The users of a page: of the records that are kept, those that name an
/// id, a profile, a name and an email address, in the order of the page.
pub open spec fn users_of_page(members: Seq<RawUser>) -> Seq<SlackUser>
    decreases members.len(),
{
    if members.len() == 0 {
        Seq::empty()
    } else {
        let front = users_of_page(members.drop_last());
        let last = members.last();
        if retained(last) && user_of(last) is Ok {
            front.push(user_of(last)->Ok_0)
        } else {
            front
        }
    }
}

/// The users of a page.
pub fn page_users(members: Vec<RawUser>) -> (users: Vec<SlackUser>)
    ensures
        users@ == users_of_page(members@),
{
    let ghost all = members@;
    let mut users: Vec<SlackUser> = Vec::new();
    for raw in it: members
        invariant
            it.seq() == all,
            users@ == users_of_page(all.take(it.index() as int)),
    {
        proof {
            assert(all.take(it.index() + 1).drop_last() =~= all.take(it.index() as int));
            assert(all.take(it.index() + 1).last() == raw);
        }
        let keep = match raw.deleted {
            Some(deleted) => !deleted,
            None => true,
        } && match raw.is_bot {
            Some(is_bot) => !is_bot,
            None => true,
        };
        if keep {
            match SlackUser::new(raw) {
                Ok(user) => {
                    users.push(user);
                },
                Err(_) => {},
            }
        }
    }
    proof {
        assert(all.take(all.len() as int) =~= all);
    }
    users
}

/// A listed user that is kept and names all that an entity needs.
pub open spec fn valid_record(raw: RawUser) -> bool {
    retained(raw) && user_of(raw) is Ok
}

/// Every user of a page is the entity of a valid record of the page, and the
/// entity of every valid record of the page is among the users of the page.
pub proof fn lemma_users_of_page(members: Seq<RawUser>)
    ensures
        forall|i: int|
            0 <= i < users_of_page(members).len() ==> exists|j: int|
                0 <= j < members.len() && valid_record(#[trigger] members[j]) && user_of(
                    members[j],
                ) == Ok::<SlackUser, Seq<char>>(#[trigger] users_of_page(members)[i]),
        forall|j: int|
            0 <= j < members.len() && valid_record(#[trigger] members[j]) ==> users_of_page(
                members,
            ).contains(user_of(members[j])->Ok_0),
    decreases members.len(),
{
    if members.len() > 0 {
        let front = members.drop_last();
        let last = members.last();
        lemma_users_of_page(front);
        let users = users_of_page(members);
        assert forall|i: int| 0 <= i < users.len() implies exists|j: int|
            0 <= j < members.len() && valid_record(#[trigger] members[j]) && user_of(members[j])
                == Ok::<SlackUser, Seq<char>>(#[trigger] users[i]) by {
            if i < users_of_page(front).len() {
                assert(users[i] == users_of_page(front)[i]);
                let j = choose|j: int|
                    0 <= j < front.len() && valid_record(#[trigger] front[j]) && user_of(front[j])
                        == Ok::<SlackUser, Seq<char>>(users_of_page(front)[i]);
                assert(members[j] == front[j]);
            } else {
                assert(members[members.len() - 1] == last);
            }
        }
        assert forall|j: int|
            0 <= j < members.len() && valid_record(#[trigger] members[j]) implies users.contains(
            user_of(members[j])->Ok_0,
        ) by {
            if j < front.len() {
                assert(front[j] == members[j]);
                let u = user_of(members[j])->Ok_0;
                assert(users_of_page(front).contains(u));
                let i = choose|i: int|
                    0 <= i < users_of_page(front).len() && users_of_page(front)[i] == u;
                assert(users[i] == u);
            } else {
                assert(users[users.len() - 1] == user_of(last)->Ok_0);
            }
        }
    }
}

/// The users of a page are the entities of its valid records, one for one
/// and in their order.
pub proof fn lemma_users_of_page_one_to_one(members: Seq<RawUser>)
    ensures
        users_of_page(members) == members.filter(|raw: RawUser| valid_record(raw)).map_values(
            |raw: RawUser| user_of(raw)->Ok_0,
        ),
    decreases members.len(),
{
    reveal(Seq::filter);
    let valid = |raw: RawUser| valid_record(raw);
    let entity = |raw: RawUser| user_of(raw)->Ok_0;
    if members.len() == 0 {
        assert(users_of_page(members) =~= members.filter(valid).map_values(entity));
    } else {
        lemma_users_of_page_one_to_one(members.drop_last());
        let front = members.drop_last().filter(valid);
        if valid_record(members.last()) {
            assert(members.filter(valid) == front.push(members.last()));
            assert(front.push(members.last()).map_values(entity) =~= front.map_values(
                entity,
            ).push(entity(members.last())));
        }
    }
}

/// Whether a cursor says that no page follows: it is absent or empty.
pub open spec fn terminal(cursor: Option<String>) -> bool {
    match cursor {
        None => true,
        Some(c) => c@.len() == 0,
    }
}

/// What follows a page, given the users gathered before it.
pub enum PagerNext {
    /// The page could not be had or read: there is no snapshot.
    Failed,
    /// That was the last page: the snapshot is complete.
    Finished(Seq<SlackUser>),
    /// Another page follows at `cursor`.
    Fetch { users: Seq<SlackUser>, cursor: String },
}

/// What follows `page`, given the `users` gathered before it.
///
/// An answer that could not be had or read, that the API marks as failed or
/// that holds no list of users ends the fetch without a snapshot. Else the
/// users of the page are offered to those gathered, and the cursor decides
/// whether another page is asked for.
pub open spec fn pager_next(users: Seq<SlackUser>, page: Result<ListResponse, String>) -> PagerNext {
    match page {
        Err(_) => PagerNext::Failed,
        Ok(response) => if !response.ok {
            PagerNext::Failed
        } else {
            match response.members {
                None => PagerNext::Failed,
                Some(members) => {
                    let all = with_all(users, users_of_page(members@));
                    if terminal(response.response_metadata.next_cursor) {
                        PagerNext::Finished(all)
                    } else {
                        PagerNext::Fetch {
                            users: all,
                            cursor: response.response_metadata.next_cursor->0,
                        }
                    }
                },
            }
        },
    }
}

/// The fetch of all users: holds the users gathered while a page is awaited.
#[derive(Debug, PartialEq, Eq)]
pub struct UserPager {
    users: Snapshot<SlackUser>,
}

/// One step of the fetch of all users.
#[derive(Debug, PartialEq, Eq)]
pub enum PagerStep {
    /// Wait for the rate limit, make the request and hand the answer to the pager.
    Fetch(UserPager, ListRequest),
    /// The fetch is over: with the snapshot, or without one.
    Done(Option<Snapshot<SlackUser>>),
}

impl ListResponse {
    /// The answer itself where the API took the request, else the API's word
    /// for what went wrong, empty where it gave none.
    pub fn into_result(self) -> (r: Result<ListResponse, String>)
        ensures
            self.ok ==> r == Ok::<ListResponse, String>(self),
            !self.ok ==> match self.error {
                Some(e) => r == Err::<ListResponse, String>(e),
                None => r matches Err(e) && e@.len() == 0,
            },
    {
        if self.ok {
            Ok(self)
        } else {
            match self.error {
                Some(e) => Err(e),
                None => Err(String::new()),
            }
        }
    }
}

impl UserPager {
    /// The users gathered so far, in the order of their ids.
    pub closed spec fn view(&self) -> Seq<SlackUser> {
        self.users@
    }

    /// The first step: the request for the first page, with no user gathered.
    pub fn start() -> (step: PagerStep)
        ensures
            step matches PagerStep::Fetch(pager, request) && pager@ == Seq::<SlackUser>::empty()
                && request.cursor is None && request.limit == Some(USERS_PAGE_LIMIT),
    {
        PagerStep::Fetch(
            UserPager { users: Snapshot::new() },
            ListRequest { cursor: None, limit: Some(USERS_PAGE_LIMIT) },
        )
    }

    /// `step` is what `next` asks for.
    pub open spec fn step_is(step: PagerStep, next: PagerNext) -> bool {
        match next {
            PagerNext::Failed => step matches PagerStep::Done(None),
            PagerNext::Finished(all) => step matches PagerStep::Done(Some(snapshot)) && snapshot@
                == all && snapshot.wf(),
            PagerNext::Fetch { users, cursor } => step matches PagerStep::Fetch(pager, request)
                && pager@ == users && request.cursor == Some(cursor) && request.limit == Some(
                USERS_PAGE_LIMIT,
            ),
        }
    }

    /// Takes the answer to the request made last and says what to do next.
    pub fn resume(self, page: Result<ListResponse, String>) -> (step: PagerStep)
        ensures
            Self::step_is(step, pager_next(self@, page)),
            sorted_by_key(self@),
    {
        proof {
            use_type_invariant(&self.users);
        }
        let response = match page {
            Ok(response) => response,
            Err(_) => {
                return PagerStep::Done(None);
            },
        };
        let response = match response.into_result() {
            Ok(response) => response,
            Err(_) => {
                return PagerStep::Done(None);
            },
        };
        let cursor = response.response_metadata.next_cursor;
        let members = match response.members {
            Some(members) => members,
            None => {
                return PagerStep::Done(None);
            },
        };
        let mut users = self.users;
        users.extend(page_users(members));
        match cursor {
            None => PagerStep::Done(Some(users)),
            Some(c) => if c.as_str().is_empty() {
                PagerStep::Done(Some(users))
            } else {
                PagerStep::Fetch(
                    UserPager { users },
                    ListRequest { cursor: Some(c), limit: Some(USERS_PAGE_LIMIT) },
                )
            },
        }
    }
}

/// The course of a fetch.
pub struct PagerRun {
    /// The cursors of the requests that followed the first one, in their order.
    pub cursors: Seq<String>,
    /// How the fetch ended, if it did: with a snapshot or without one.
    pub outcome: Option<Option<Seq<SlackUser>>>,
}

/// The course that a fetch takes from `users` where the requests are answered
/// by `pages`, one after the other. The fetch has not ended where the
/// answers run out before the last page.
pub open spec fn run_pages(users: Seq<SlackUser>, pages: Seq<Result<ListResponse, String>>) -> PagerRun
    decreases pages.len(),
{
    if pages.len() == 0 {
        PagerRun { cursors: Seq::empty(), outcome: None }
    } else {
        match pager_next(users, pages[0]) {
            PagerNext::Failed => PagerRun { cursors: Seq::empty(), outcome: Some(None) },
            PagerNext::Finished(all) => PagerRun {
                cursors: Seq::empty(),
                outcome: Some(Some(all)),
            },
            PagerNext::Fetch { users: gathered, cursor } => {
                let rest = run_pages(gathered, pages.skip(1));
                PagerRun { cursors: seq![cursor] + rest.cursors, outcome: rest.outcome }
            },
        }
    }
}

/// An answer that holds a page: it was had and read, the API took the
/// request, and there is a list of users.
pub open spec fn is_page(page: Result<ListResponse, String>) -> bool {
    page matches Ok(response) && response.ok && response.members is Some
}

/// The cursor that came with a page.
pub open spec fn cursor_of(page: Result<ListResponse, String>) -> Option<String> {
    page->Ok_0.response_metadata.next_cursor
}

/// The records of a page.
pub open spec fn records_of(page: Result<ListResponse, String>) -> Seq<RawUser> {
    page->Ok_0.members->0@
}

/// Pagination ends with the first page whose cursor is absent or empty: the
/// fetch makes the first request and one more for each cursor before that
/// page, each with the cursor that came last, and ends there with a
/// snapshot, whatever answers might follow.
pub proof fn lemma_one_request_per_cursor(
    users: Seq<SlackUser>,
    pages: Seq<Result<ListResponse, String>>,
    last: int,
)
    requires
        0 <= last < pages.len(),
        forall|i: int| 0 <= i <= last ==> is_page(#[trigger] pages[i]),
        forall|i: int| 0 <= i < last ==> !terminal(cursor_of(#[trigger] pages[i])),
        terminal(cursor_of(pages[last])),
    ensures
        run_pages(users, pages).outcome matches Some(Some(_)),
        run_pages(users, pages).cursors.len() == last,
        forall|i: int|
            0 <= i < last ==> Some(#[trigger] run_pages(users, pages).cursors[i]) == cursor_of(
                pages[i],
            ),
        run_pages(users, pages) == run_pages(users, pages.take(last + 1)),
    decreases last,
{
    let first = pages[0];
    assert(is_page(first));
    assert(pages.take(last + 1)[0] == first);
    if last > 0 {
        assert(!terminal(cursor_of(pages[0])));
        let gathered = pager_next(users, first)->Fetch_users;
        let rest = pages.skip(1);
        assert forall|i: int| 0 <= i <= last - 1 implies is_page(#[trigger] rest[i]) by {
            assert(rest[i] == pages[i + 1]);
        }
        assert forall|i: int| 0 <= i < last - 1 implies !terminal(
            cursor_of(#[trigger] rest[i]),
        ) by {
            assert(rest[i] == pages[i + 1]);
        }
        assert(rest[last - 1] == pages[last]);
        lemma_one_request_per_cursor(gathered, rest, last - 1);
        assert(pages.take(last + 1).skip(1) =~= rest.take(last));
        let run = run_pages(users, pages);
        assert forall|i: int| 0 <= i < last implies Some(#[trigger] run.cursors[i]) == cursor_of(
            pages[i],
        ) by {
            if i > 0 {
                assert(run.cursors[i] == run_pages(gathered, rest).cursors[i - 1]);
                assert(rest[i - 1] == pages[i]);
            }
        }
    }
}

/// No record ends a fetch: an answer that holds a page is taken, whatever its
/// records lack, and the fetch ends with a snapshot or goes on.
pub proof fn lemma_records_never_fail(users: Seq<SlackUser>, page: Result<ListResponse, String>)
    requires
        is_page(page),
    ensures
        !(pager_next(users, page) is Failed),
        terminal(cursor_of(page)) ==> pager_next(users, page) is Finished,
        !terminal(cursor_of(page)) ==> pager_next(users, page) is Fetch,
{
}

/// `(p, j)` is the place of a record: answer `p` holds a list of users, and
/// `j` is a position in it.
pub open spec fn is_record(pages: Seq<Result<ListResponse, String>>, p: int, j: int) -> bool {
    0 <= p < pages.len() && pages[p] is Ok && pages[p]->Ok_0.members is Some && 0 <= j
        < records_of(pages[p]).len()
}

/// `user` is the entity of a valid record among the answers.
pub open spec fn comes_from(pages: Seq<Result<ListResponse, String>>, user: SlackUser) -> bool {
    exists|p: int, j: int|
        #![trigger records_of(pages[p])[j]]
        is_record(pages, p, j) && valid_record(records_of(pages[p])[j]) && user_of(
            records_of(pages[p])[j],
        ) == Ok::<SlackUser, Seq<char>>(user)
}

/// Every user of the snapshot that a fetch ends with was gathered before or
/// is the entity of a valid record: no record that is marked as deleted or
/// as a bot, and no record without id, profile, name or email address gives
/// a user, in whatever order the pages come.
pub proof fn lemma_snapshot_sources(
    users: Seq<SlackUser>,
    pages: Seq<Result<ListResponse, String>>,
)
    requires
        run_pages(users, pages).outcome matches Some(Some(_)),
    ensures
        forall|i: int|
            0 <= i < run_pages(users, pages).outcome->0->0.len() ==> users.contains(
                #[trigger] run_pages(users, pages).outcome->0->0[i],
            ) || comes_from(pages, run_pages(users, pages).outcome->0->0[i]),
    decreases pages.len(),
{
    let all = run_pages(users, pages).outcome->0->0;
    let first = pages[0];
    let members = records_of(first);
    let gathered = with_all(users, users_of_page(members));
    lemma_with_all_members(users, users_of_page(members));
    lemma_users_of_page(members);
    let rest = pages.skip(1);
    if pager_next(users, first) is Fetch {
        lemma_snapshot_sources(gathered, rest);
    }
    assert forall|i: int| 0 <= i < all.len() implies users.contains(#[trigger] all[i])
        || comes_from(pages, all[i]) by {
        let u = all[i];
        if pager_next(users, first) is Fetch && !gathered.contains(u) {
            let (p, j) = choose|p: int, j: int|
                #![trigger records_of(rest[p])[j]]
                is_record(rest, p, j) && valid_record(records_of(rest[p])[j]) && user_of(
                    records_of(rest[p])[j],
                ) == Ok::<SlackUser, Seq<char>>(u);
            assert(rest[p] == pages[p + 1]);
            assert(is_record(pages, p + 1, j) && valid_record(records_of(pages[p + 1])[j]));
        } else if !users.contains(u) {
            assert(gathered.contains(u));
            let k = choose|k: int| 0 <= k < gathered.len() && gathered[k] == u;
            assert(users_of_page(members).contains(gathered[k]));
            let m = choose|m: int|
                0 <= m < users_of_page(members).len() && users_of_page(members)[m] == u;
            let j = choose|j: int|
                0 <= j < members.len() && valid_record(#[trigger] members[j]) && user_of(
                    members[j],
                ) == Ok::<SlackUser, Seq<char>>(#[trigger] users_of_page(members)[m]);
            assert(is_record(pages, 0, j) && valid_record(records_of(pages[0])[j]));
        }
    }
}

/// A fetch that ends with a snapshot keeps every id that it held on the way.
pub proof fn lemma_run_keeps_ids(
    users: Seq<SlackUser>,
    pages: Seq<Result<ListResponse, String>>,
    id: Seq<char>,
)
    requires
        run_pages(users, pages).outcome matches Some(Some(_)),
        has_key(users, id),
    ensures
        has_key(run_pages(users, pages).outcome->0->0, id),
    decreases pages.len(),
{
    let first = pages[0];
    let members = records_of(first);
    lemma_with_all_keys(users, users_of_page(members), id);
    if pager_next(users, first) is Fetch {
        lemma_run_keeps_ids(with_all(users, users_of_page(members)), pages.skip(1), id);
    }
}

/// Every valid record of a page that the fetch took has its user in the
/// snapshot that the fetch ends with: a user with the id of the record. A
/// record that is not valid costs the fetch nothing but that record.
pub proof fn lemma_snapshot_holds_valid_records(
    users: Seq<SlackUser>,
    pages: Seq<Result<ListResponse, String>>,
    p: int,
    j: int,
)
    requires
        run_pages(users, pages).outcome matches Some(Some(_)),
        is_record(pages, p, j),
        p <= run_pages(users, pages).cursors.len(),
        valid_record(records_of(pages[p])[j]),
    ensures
        has_key(
            run_pages(users, pages).outcome->0->0,
            user_of(records_of(pages[p])[j])->Ok_0.id@,
        ),
    decreases pages.len(),
{
    let first = pages[0];
    let members = records_of(first);
    let gathered = with_all(users, users_of_page(members));
    let id = user_of(records_of(pages[p])[j])->Ok_0.id@;
    if p == 0 {
        lemma_users_of_page(members);
        let u = user_of(members[j])->Ok_0;
        assert(users_of_page(members).contains(u));
        let m = choose|m: int|
            0 <= m < users_of_page(members).len() && users_of_page(members)[m] == u;
        assert(users_of_page(members)[m].key_text() == id);
        lemma_with_all_keys(users, users_of_page(members), id);
        if pager_next(users, first) is Fetch {
            lemma_run_keeps_ids(gathered, pages.skip(1), id);
        }
    } else {
        let rest = pages.skip(1);
        assert(rest[p - 1] == pages[p]);
        lemma_snapshot_holds_valid_records(gathered, rest, p - 1, j);
    }
}

/// A fetch that starts from users in the order of their ids ends with a
/// snapshot in that order, so with no id twice.
pub proof fn lemma_run_sorted(users: Seq<SlackUser>, pages: Seq<Result<ListResponse, String>>)
    requires
        run_pages(users, pages).outcome matches Some(Some(_)),
        sorted_by_key(users),
    ensures
        sorted_by_key(run_pages(users, pages).outcome->0->0),
    decreases pages.len(),
{
    let first = pages[0];
    let members = records_of(first);
    lemma_with_all_sorted(users, users_of_page(members));
    if pager_next(users, first) is Fetch {
        lemma_run_sorted(with_all(users, users_of_page(members)), pages.skip(1));
    }
}

} // verus!
