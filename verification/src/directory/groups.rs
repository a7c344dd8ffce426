//! Fetching the snapshot of all user groups: one listing of the groups, then
//! one listing of the members for each group that is kept.

use vstd::prelude::*;
use crate::directory::{group_views, GroupView, RawUserGroup, SlackUserGroup, SlackUserId};
use crate::ordered::{
    key_texts, lemma_with_all_by_keys, lemma_with_item_mapped, with_all, with_item, Snapshot,
};
use crate::text::join;

verus! {

/// The request for the list of all user groups.
#[derive(Clone, Debug, PartialEq, Eq)]
pub struct GroupsRequest {
    pub include_disabled: Option<bool>,
    pub include_count: Option<bool>,
    pub include_users: Option<bool>,
}

/// The request for the members of one user group.
#[derive(Clone, Debug, PartialEq, Eq)]
pub struct MembersRequest {
    /// The id of the group.
    pub usergroup: String,
    pub include_disabled: Option<bool>,
}

/// The request for the list of all user groups: without disabled groups,
/// without counts, with users.
pub fn groups_request() -> (request: GroupsRequest)
    ensures
        request == (GroupsRequest {
            include_disabled: Some(false),
            include_count: Some(false),
            include_users: Some(true),
        }),
{
    GroupsRequest {
        include_disabled: Some(false),
        include_count: Some(false),
        include_users: Some(true),
    }
}

/// A listed group is kept only where the record names who deleted it or
/// when it was deleted. Mind that this keeps the groups that were deleted
/// and passes over those in use; whether the reverse was meant is an open
/// question.
pub open spec fn kept(raw: RawUserGroup) -> bool {
    raw.deleted_by is Some || raw.date_delete is Some
}

/// A listed group whose members are asked for: it is kept and names an id
/// and a name.
pub open spec fn candidate(raw: RawUserGroup) -> bool {
    kept(raw) && raw.id is Some && raw.name is Some
}

/// The first position at or after `from` of a group whose members are asked
/// for; the length of the list where there is none.
pub open spec fn next_candidate(listed: Seq<RawUserGroup>, from: int) -> int
    decreases listed.len() - from,
{
    if from < 0 || from >= listed.len() {
        listed.len() as int
    } else if candidate(listed[from]) {
        from
    } else {
        next_candidate(listed, from + 1)
    }
}

/// The ids of the members that a listing names, each once, in their order.
/// A listing without a list names none.
pub open spec fn member_ids(members: Option<Vec<String>>) -> Seq<Seq<char>> {
    match members {
        None => Seq::empty(),
        Some(ids) => with_all(Seq::<Seq<char>>::empty(), key_texts(ids@)),
    }
}

/// The groups gathered after the members of `raw` were asked for: with the
/// group, where the listing of its members came, and unchanged where it
/// failed.
pub open spec fn gathered_after(
    gathered: Seq<GroupView>,
    raw: RawUserGroup,
    members: Result<Option<Vec<String>>, String>,
) -> Seq<GroupView> {
    match members {
        Err(_) => gathered,
        Ok(listing) => with_item(
            gathered,
            GroupView { id: raw.id->0@, name: raw.name->0@, users: member_ids(listing) },
        ),
    }
}

/// Why a listed group is passed over without a request for its members,
/// where that is for something that its record lacks: the id, or the name.
/// A group that is not kept has no such reason.
pub open spec fn passed_over_reason(raw: RawUserGroup) -> Option<Seq<char>> {
    if !kept(raw) {
        None
    } else {
        match raw.id {
            None => Some("no group id"@),
            Some(id) => match raw.name {
                None => Some("No name for group "@ + id@),
                Some(_) => None,
            },
        }
    }
}

/// Why the group with the given id is dropped where the listing of its
/// members failed for `cause`.
pub open spec fn dropped_reason(id: Seq<char>, cause: Seq<char>) -> Seq<char> {
    "Error getting users from group "@ + id + ". Error: "@ + cause
}

/// The reasons for which the groups of a listing are passed over, in the
/// order of the listing.
pub open spec fn passed_over_reasons(listed: Seq<RawUserGroup>) -> Seq<Seq<char>>
    decreases listed.len(),
{
    if listed.len() == 0 {
        Seq::empty()
    } else {
        let front = passed_over_reasons(listed.drop_last());
        match passed_over_reason(listed.last()) {
            Some(reason) => front.push(reason),
            None => front,
        }
    }
}

/// Why a listed group is passed over without a request for its members,
/// where that is for something that its record lacks.
pub fn why_passed_over(raw: &RawUserGroup) -> (reason: Option<String>)
    ensures
        match passed_over_reason(*raw) {
            Some(text) => reason matches Some(r) && r@ == text,
            None => reason is None,
        },
{
    if !(raw.deleted_by.is_some() || raw.date_delete.is_some()) {
        return None;
    }
    match &raw.id {
        None => Some(String::from_str("no group id")),
        Some(id) => match &raw.name {
            None => Some(join("No name for group ", id.as_str())),
            Some(_) => None,
        },
    }
}

/// The reasons for which the groups of a listing are passed over, in the
/// order of the listing.
pub fn passed_over(listed: &Vec<RawUserGroup>) -> (reasons: Vec<String>)
    ensures
        key_texts(reasons@) == passed_over_reasons(listed@),
{
    let mut reasons: Vec<String> = Vec::new();
    let mut i: usize = 0;
    proof {
        assert(key_texts(reasons@) =~= passed_over_reasons(listed@.take(0)));
    }
    while i < listed.len()
        invariant
            i <= listed@.len(),
            key_texts(reasons@) == passed_over_reasons(listed@.take(i as int)),
        decreases listed@.len() - i,
    {
        let ghost before = reasons@;
        proof {
            assert(listed@.take(i + 1).drop_last() =~= listed@.take(i as int));
            assert(listed@.take(i + 1).last() == listed@[i as int]);
        }
        match why_passed_over(&listed[i]) {
            Some(reason) => {
                reasons.push(reason);
                proof {
                    assert(key_texts(reasons@) =~= key_texts(before).push(reason@));
                }
            },
            None => {},
        }
        i += 1;
    }
    proof {
        assert(listed@.take(listed@.len() as int) =~= listed@);
    }
    reasons
}

/// Why the group with the given id is dropped where the listing of its
/// members failed for `cause`.
pub fn why_dropped(id: &str, cause: &str) -> (reason: String)
    ensures
        reason@ == dropped_reason(id@, cause@),
{
    let reason = join("Error getting users from group ", id).concat(". Error: ").concat(cause);
    proof {
        assert(reason@ =~= dropped_reason(id@, cause@));
    }
    reason
}

/// The fetch of all user groups, while the members of one group are awaited.
#[derive(Debug, PartialEq, Eq)]
pub struct GroupFetch {
    listed: Vec<RawUserGroup>,
    at: usize,
    groups: Snapshot<SlackUserGroup>,
}

/// The fetch of all user groups as the contracts see it.
pub struct GroupFetchView {
    /// The groups as they were listed.
    pub listed: Seq<RawUserGroup>,
    /// The position of the group whose members are awaited.
    pub at: int,
    /// The groups gathered so far.
    pub groups: Seq<GroupView>,
}

impl GroupFetchView {
    /// The fetch awaits the members of a group whose members are asked for.
    pub open spec fn awaits(self) -> bool {
        0 <= self.at < self.listed.len() && candidate(self.listed[self.at])
    }
}

/// One step of the fetch of all user groups.
#[derive(Debug, PartialEq, Eq)]
pub enum GroupStep {
    /// Make the request and hand the answer to the fetch.
    ListMembers(GroupFetch, MembersRequest),
    /// The fetch is over: with the snapshot, or without one.
    Done(Option<Snapshot<SlackUserGroup>>),
}

/// `step` goes on from position `from` of the groups `listed`, with the
/// groups `gathered`: it asks for the members of the next group whose
/// members are asked for, or ends the fetch where there is none.
pub open spec fn goes_on(
    step: GroupStep,
    listed: Seq<RawUserGroup>,
    from: int,
    gathered: Seq<GroupView>,
) -> bool {
    let at = next_candidate(listed, from);
    if at < listed.len() {
        step matches GroupStep::ListMembers(fetch, request) && fetch@ == (GroupFetchView {
            listed,
            at,
            groups: gathered,
        }) && request.usergroup@ == listed[at].id->0@ && request.include_disabled == Some(false)
    } else {
        step matches GroupStep::Done(Some(snapshot)) && group_views(snapshot@) == gathered
            && snapshot.wf()
    }
}

/// The members of a group, each once, in the order of their ids.
pub fn members_of(listing: Option<Vec<String>>) -> (members: Snapshot<SlackUserId>)
    ensures
        key_texts(members@) == member_ids(listing),
        members.wf(),
{
    let mut members: Snapshot<SlackUserId> = Snapshot::new();
    proof {
        assert(key_texts(members@) =~= Seq::<Seq<char>>::empty());
    }
    match listing {
        None => {},
        Some(ids) => {
            let ghost all = ids@;
            let mut references: Vec<SlackUserId> = Vec::new();
            for id in it: ids
                invariant
                    it.seq() == all,
                    key_texts(references@) == key_texts(all.take(it.index() as int)),
            {
                let ghost before = references@;
                references.push(SlackUserId::new(id));
                proof {
                    assert(key_texts(references@) =~= key_texts(before).push(id@));
                    assert(key_texts(all.take(it.index() + 1)) =~= key_texts(
                        all.take(it.index() as int),
                    ).push(id@));
                }
            }
            proof {
                assert(all.take(all.len() as int) =~= all);
                lemma_with_all_by_keys(members@, references@);
            }
            members.extend(references);
        },
    }
    members
}

impl GroupFetch {
    /// The fetch as the contracts see it.
    pub closed spec fn view(&self) -> GroupFetchView {
        GroupFetchView {
            listed: self.listed@,
            at: self.at as int,
            groups: group_views(self.groups@),
        }
    }

    /// Goes on from position `from`.
    fn advance(listed: Vec<RawUserGroup>, from: usize, groups: Snapshot<SlackUserGroup>) -> (step:
        GroupStep)
        ensures
            goes_on(step, listed@, from as int, group_views(groups@)),
    {
        proof {
            use_type_invariant(&groups);
        }
        let mut at = from;
        while at < listed.len()
            invariant
                from <= at,
                groups.wf(),
                next_candidate(listed@, from as int) == next_candidate(listed@, at as int),
            decreases listed@.len() - at,
        {
            let raw = &listed[at];
            if raw.deleted_by.is_some() || raw.date_delete.is_some() {
                match (&raw.id, &raw.name) {
                    (Some(id), Some(_)) => {
                        let request = MembersRequest {
                            usergroup: id.clone(),
                            include_disabled: Some(false),
                        };
                        return GroupStep::ListMembers(GroupFetch { listed, at, groups }, request);
                    },
                    _ => {},
                }
            }
            at += 1;
        }
        GroupStep::Done(Some(groups))
    }

    /// Takes the answer to the listing of all groups and says what to do
    /// next. Without an answer, or with one that holds no list, the fetch
    /// ends without a snapshot.
    pub fn begin(listing: Result<Option<Vec<RawUserGroup>>, String>) -> (step: GroupStep)
        ensures
            match listing {
                Ok(Some(listed)) => goes_on(step, listed@, 0, Seq::empty()),
                _ => step matches GroupStep::Done(None),
            },
    {
        match listing {
            Ok(Some(listed)) => {
                let groups: Snapshot<SlackUserGroup> = Snapshot::new();
                proof {
                    assert(group_views(groups@) =~= Seq::<GroupView>::empty());
                }
                Self::advance(listed, 0, groups)
            },
            _ => GroupStep::Done(None),
        }
    }

    /// Takes the answer to the listing of the members asked for last and
    /// says what to do next. A listing that failed costs the fetch that
    /// group and nothing else.
    pub fn resume(self, members: Result<Option<Vec<String>>, String>) -> (step: GroupStep)
        ensures
            if self@.awaits() {
                goes_on(
                    step,
                    self@.listed,
                    self@.at + 1,
                    gathered_after(self@.groups, self@.listed[self@.at], members),
                )
            } else {
                step matches GroupStep::Done(Some(snapshot)) && group_views(snapshot@)
                    == self@.groups && snapshot.wf()
            },
    {
        proof {
            use_type_invariant(&self.groups);
        }
        let GroupFetch { listed, at, groups } = self;
        if at >= listed.len() {
            return GroupStep::Done(Some(groups));
        }
        let (id, name) = match (&listed[at].id, &listed[at].name) {
            (Some(id), Some(name)) => (id.clone(), name.clone()),
            _ => {
                return GroupStep::Done(Some(groups));
            },
        };
        if !(listed[at].deleted_by.is_some() || listed[at].date_delete.is_some()) {
            return GroupStep::Done(Some(groups));
        }
        let mut groups = groups;
        match members {
            Err(_) => {},
            Ok(listing) => {
                let group = SlackUserGroup { id, name, users: members_of(listing) };
                proof {
                    lemma_with_item_mapped(groups@, group, |g: SlackUserGroup| g@);
                }
                groups.insert(group);
            },
        }
        Self::advance(listed, at + 1, groups)
    }
}

/// The position of the next group whose members are asked for lies at or
/// after `from`, no such group lies between, and there is one at that
/// position unless it is the end.
pub proof fn lemma_next_candidate(listed: Seq<RawUserGroup>, from: int)
    requires
        0 <= from <= listed.len(),
    ensures
        from <= next_candidate(listed, from) <= listed.len(),
        forall|i: int| from <= i < next_candidate(listed, from) ==> !candidate(#[trigger] listed[i]),
        next_candidate(listed, from) < listed.len() ==> candidate(
            listed[next_candidate(listed, from)],
        ),
    decreases listed.len() - from,
{
    if from < listed.len() && !candidate(listed[from]) {
        lemma_next_candidate(listed, from + 1);
    }
}

/// The snapshot that a fetch ends with, as the contracts see it, where it
/// goes on from position `from` of the groups `listed` with the groups
/// `gathered` and its requests are answered by `answers`, one after the
/// other; `None` where the answers run out before the fetch ends.
pub open spec fn run_groups(
    listed: Seq<RawUserGroup>,
    from: int,
    gathered: Seq<GroupView>,
    answers: Seq<Result<Option<Vec<String>>, String>>,
) -> Option<Seq<GroupView>>
    decreases answers.len(),
{
    let at = next_candidate(listed, from);
    if at >= listed.len() {
        Some(gathered)
    } else if answers.len() == 0 {
        None
    } else {
        run_groups(listed, at + 1, gathered_after(gathered, listed[at], answers[0]), answers.skip(1))
    }
}

/// `group` is the group of a listed record whose members are asked for,
/// with the members that some listing named.
pub open spec fn comes_from_listing(listed: Seq<RawUserGroup>, group: GroupView) -> bool {
    exists|k: int, members: Option<Vec<String>>|
        0 <= k < listed.len() && candidate(#[trigger] listed[k]) && group == (GroupView {
            id: listed[k].id->0@,
            name: listed[k].name->0@,
            users: #[trigger] member_ids(members),
        })
}

/// Every group of the snapshot that a fetch ends with was gathered before or
/// is the group of a listed record that is kept and names an id and a name,
/// with the members that a listing named: a group that is not kept, or
/// whose members could not be listed, gives no group.
pub proof fn lemma_groups_sources(
    listed: Seq<RawUserGroup>,
    from: int,
    gathered: Seq<GroupView>,
    answers: Seq<Result<Option<Vec<String>>, String>>,
)
    requires
        0 <= from <= listed.len(),
        run_groups(listed, from, gathered, answers) is Some,
    ensures
        forall|i: int|
            0 <= i < run_groups(listed, from, gathered, answers)->0.len() ==> gathered.contains(
                #[trigger] run_groups(listed, from, gathered, answers)->0[i],
            ) || comes_from_listing(listed, run_groups(listed, from, gathered, answers)->0[i]),
    decreases answers.len(),
{
    let at = next_candidate(listed, from);
    lemma_next_candidate(listed, from);
    if at < listed.len() {
        let next = gathered_after(gathered, listed[at], answers[0]);
        lemma_groups_sources(listed, at + 1, next, answers.skip(1));
        let all = run_groups(listed, from, gathered, answers)->0;
        assert forall|i: int| 0 <= i < all.len() implies gathered.contains(#[trigger] all[i])
            || comes_from_listing(listed, all[i]) by {
            if next.contains(all[i]) && !gathered.contains(all[i]) {
                let members = answers[0]->Ok_0;
                let group = GroupView {
                    id: listed[at].id->0@,
                    name: listed[at].name->0@,
                    users: member_ids(members),
                };
                crate::ordered::lemma_with_item_members(gathered, group);
                assert(all[i] == group);
            }
        }
    }
}

/// A listing of members that fails costs the fetch that group and nothing
/// else: the fetch goes on as if the group had not been listed for members.
pub proof fn lemma_failed_members_cost_one_group(
    listed: Seq<RawUserGroup>,
    from: int,
    gathered: Seq<GroupView>,
    answers: Seq<Result<Option<Vec<String>>, String>>,
)
    requires
        0 <= from <= listed.len(),
        next_candidate(listed, from) < listed.len(),
        answers.len() > 0,
        answers[0] is Err,
    ensures
        run_groups(listed, from, gathered, answers) == run_groups(
            listed,
            next_candidate(listed, from) + 1,
            gathered,
            answers.skip(1),
        ),
{
}

} // verus!
