//! The directory: users and user groups as the upstream API lists them, and
//! the entities that are kept of them.

pub mod groups;
pub mod users;

use vstd::prelude::*;
use crate::ordered::{key_texts, HasKey, Keyed, Snapshot};
use crate::text::join;

verus! {

/// A reference to a user by id.
#[derive(Clone, Debug, PartialEq, Eq)]
pub struct SlackUserId {
    id: String,
}

/// A user of the directory. Users are equal, found and ordered by `id`.
#[derive(Clone, Debug, Eq)]
pub struct SlackUser {
    pub id: String,
    pub name: String,
    pub email: String,
}

/// A group of users. Groups are found and ordered by `id`; the members are
/// held once each, in the order of their ids.
#[derive(Clone, Debug, PartialEq, Eq)]
pub struct SlackUserGroup {
    pub name: String,
    pub id: String,
    pub users: Snapshot<SlackUserId>,
}

/// The profile of a user as the upstream API lists it.
#[derive(Clone, Debug, PartialEq, Eq)]
pub struct RawProfile {
    pub real_name: Option<String>,
    pub email: Option<String>,
}

/// A user as the upstream API lists it: what is read of the record.
#[derive(Clone, Debug, PartialEq, Eq)]
pub struct RawUser {
    pub id: Option<String>,
    pub deleted: Option<bool>,
    pub is_bot: Option<bool>,
    pub profile: Option<RawProfile>,
}

/// A user group as the upstream API lists it: what is read of the record.
#[derive(Clone, Debug, PartialEq, Eq)]
pub struct RawUserGroup {
    pub id: Option<String>,
    pub name: Option<String>,
    pub deleted_by: Option<String>,
    pub date_delete: Option<i32>,
}

impl PartialEq for SlackUser {
    fn eq(&self, other: &Self) -> (equal: bool) {
        self.id == other.id
    }
}

impl vstd::std_specs::cmp::PartialEqSpecImpl for SlackUser {
    open spec fn obeys_eq_spec() -> bool {
        true
    }

    /// Two users are equal where their ids are.
    open spec fn eq_spec(&self, other: &Self) -> bool {
        self.id@ == other.id@
    }
}

impl Keyed for SlackUserId {
    open spec fn key_text(&self) -> Seq<char> {
        self.id_text()
    }
}

impl HasKey for SlackUserId {
    fn key(&self) -> (k: &str) {
        self.id.as_str()
    }
}

impl Keyed for SlackUser {
    open spec fn key_text(&self) -> Seq<char> {
        self.id@
    }
}

impl HasKey for SlackUser {
    fn key(&self) -> (k: &str) {
        self.id.as_str()
    }
}

impl Keyed for SlackUserGroup {
    open spec fn key_text(&self) -> Seq<char> {
        self.id@
    }
}

impl HasKey for SlackUserGroup {
    fn key(&self) -> (k: &str) {
        self.id.as_str()
    }
}

/// A user group as the contracts see it.
pub struct GroupView {
    pub id: Seq<char>,
    pub name: Seq<char>,
    /// The ids of the members, each once, in their order.
    pub users: Seq<Seq<char>>,
}

impl Keyed for GroupView {
    open spec fn key_text(&self) -> Seq<char> {
        self.id
    }
}

impl View for SlackUserGroup {
    type V = GroupView;

    open spec fn view(&self) -> GroupView {
        GroupView { id: self.id@, name: self.name@, users: key_texts(self.users@) }
    }
}

/// The groups as the contracts see them.
pub open spec fn group_views(groups: Seq<SlackUserGroup>) -> Seq<GroupView> {
    groups.map_values(|group: SlackUserGroup| group@)
}

impl SlackUserId {
    /// The id referred to.
    pub closed spec fn id_text(&self) -> Seq<char> {
        self.id@
    }

    /// A reference to the user with the given id.
    pub fn new(id: String) -> (member: SlackUserId)
        ensures
            member.id_text() == id@,
    {
        SlackUserId { id }
    }

    /// The id referred to.
    pub fn id(&self) -> (id: &str)
        ensures
            id@ == self.id_text(),
    {
        self.id.as_str()
    }
}

/// What becomes of a listed user: the entity, where the record names an id,
/// a profile, a name and an email address, and else the text that says what
/// is missing.
pub open spec fn user_of(raw: RawUser) -> Result<SlackUser, Seq<char>> {
    match raw.id {
        None => Err("no user id"@),
        Some(id) => match raw.profile {
            None => Err(id@ + ": no profile"@),
            Some(profile) => match profile.real_name {
                None => Err(id@ + ": no name"@),
                Some(name) => match profile.email {
                    None => Err(id@ + " - "@ + name@ + ": no email"@),
                    Some(email) => Ok(SlackUser { id, name, email }),
                },
            },
        },
    }
}

impl SlackUser {
    /// The entity for a listed user, or the text that says what the record lacks.
    pub fn new(user: RawUser) -> (r: Result<SlackUser, String>)
        ensures
            match user_of(user) {
                Ok(entity) => r == Ok::<SlackUser, String>(entity),
                Err(text) => r matches Err(e) && e@ == text,
            },
    {
        let id = match user.id {
            Some(id) => id,
            None => {
                return Err(String::from_str("no user id"));
            },
        };
        let profile = match user.profile {
            Some(profile) => profile,
            None => {
                return Err(id.concat(": no profile"));
            },
        };
        let name = match profile.real_name {
            Some(name) => name,
            None => {
                return Err(id.concat(": no name"));
            },
        };
        let email = match profile.email {
            Some(email) => email,
            None => {
                return Err(join(id.as_str(), " - ").concat(name.as_str()).concat(": no email"));
            },
        };
        Ok(SlackUser { id, name, email })
    }
}

} // verus!
