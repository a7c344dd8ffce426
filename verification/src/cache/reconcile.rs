//! A check of the two indexes of a kind against each other.
//!
//! An entity is stored under two keys that nothing ties together: where one
//! of the two writes fails, or one key expires before the other, one index
//! holds what the other lacks. The check tells where the secondary index
//! and the entities of the primary index differ.

use vstd::prelude::*;
use crate::cache::{
    group_name_key, key_of_group_name, key_of_user_email, user_email_key,
};
use crate::directory::{SlackUser, SlackUserGroup};
use crate::ordered::{
    has_key, key_texts, lemma_with_all_by_keys, lemma_with_all_keys, Keyed, Snapshot,
};

verus! {

/// An entity with a key in the secondary index.
pub trait Indexed {
    /// The key of the entity in the secondary index.
    spec fn secondary_key_text(&self) -> Seq<char>;

    /// The key of the entity in the secondary index.
    fn secondary_key(&self) -> (key: String)
        ensures
            key@ == self.secondary_key_text(),
    ;
}

/// The secondary index of the users is by email address.
impl Indexed for SlackUser {
    open spec fn secondary_key_text(&self) -> Seq<char> {
        user_email_key(self.email@)
    }

    fn secondary_key(&self) -> (key: String) {
        key_of_user_email(self.email.as_str())
    }
}

/// The secondary index of the user groups is by name.
impl Indexed for SlackUserGroup {
    open spec fn secondary_key_text(&self) -> Seq<char> {
        group_name_key(self.name@)
    }

    fn secondary_key(&self) -> (key: String) {
        key_of_group_name(self.name.as_str())
    }
}

/// The keys of the entities in the secondary index, in the order of the entities.
pub open spec fn secondary_keys<T: Indexed>(entities: Seq<T>) -> Seq<Seq<char>> {
    Seq::new(entities.len(), |i: int| entities[i].secondary_key_text())
}

/// Those of `keys` that are not among `held`, in their order.
pub open spec fn keys_not_in(keys: Seq<Seq<char>>, held: Seq<Seq<char>>) -> Seq<Seq<char>>
    decreases keys.len(),
{
    if keys.len() == 0 {
        Seq::empty()
    } else {
        let front = keys_not_in(keys.drop_last(), held);
        if held.contains(keys.last()) {
            front
        } else {
            front.push(keys.last())
        }
    }
}

/// A key is among those that are not held just when it is among the keys
/// and not held.
pub proof fn lemma_keys_not_in(keys: Seq<Seq<char>>, held: Seq<Seq<char>>, key: Seq<char>)
    ensures
        keys_not_in(keys, held).contains(key) <==> keys.contains(key) && !held.contains(key),
    decreases keys.len(),
{
    if keys.len() > 0 {
        let front = keys.drop_last();
        lemma_keys_not_in(front, held, key);
        let kept = keys_not_in(keys, held);
        if keys.contains(key) {
            let i = choose|i: int| 0 <= i < keys.len() && keys[i] == key;
            if i < front.len() {
                assert(front[i] == key);
            }
        }
        if front.contains(key) {
            let i = choose|i: int| 0 <= i < front.len() && front[i] == key;
            assert(keys[i] == key);
        }
        if keys.last() == key {
            assert(keys[keys.len() - 1] == key);
        }
        if !held.contains(keys.last()) {
            assert(kept.last() == keys.last());
            assert(kept.drop_last() =~= keys_not_in(front, held));
            if kept.contains(key) {
                let i = choose|i: int| 0 <= i < kept.len() && kept[i] == key;
                if i < kept.len() - 1 {
                    assert(keys_not_in(front, held)[i] == key);
                }
            }
            if keys_not_in(front, held).contains(key) {
                let i = choose|i: int|
                    0 <= i < keys_not_in(front, held).len() && keys_not_in(front, held)[i] == key;
                assert(kept[i] == key);
            }
            if key == keys.last() {
                assert(kept[kept.len() - 1] == key);
            }
        }
    }
}

/// What a comparison of the two indexes of a kind found.
#[derive(Clone, Debug, PartialEq, Eq)]
pub struct Reconciliation {
    /// The secondary keys of entities that the secondary index lacks.
    pub missing: Vec<String>,
    /// The keys of the secondary index that belong to no entity.
    pub stray: Vec<String>,
}

impl Reconciliation {
    /// Whether the two indexes agree.
    pub fn is_consistent(&self) -> (consistent: bool)
        ensures
            consistent == (self.missing@.len() == 0 && self.stray@.len() == 0),
    {
        self.missing.len() == 0 && self.stray.len() == 0
    }
}

/// Those of `keys` that `held` does not hold, in their order.
pub fn keys_missing_from(keys: &[String], held: &Snapshot<String>) -> (missing: Vec<String>)
    ensures
        key_texts(missing@) == keys_not_in(key_texts(keys@), key_texts(held@)),
{
    let mut missing: Vec<String> = Vec::new();
    let mut i: usize = 0;
    proof {
        assert(key_texts(keys@).take(0) =~= Seq::<Seq<char>>::empty());
        assert(key_texts(missing@) =~= Seq::<Seq<char>>::empty());
    }
    while i < keys.len()
        invariant
            i <= keys@.len(),
            key_texts(missing@) == keys_not_in(key_texts(keys@).take(i as int), key_texts(held@)),
        decreases keys@.len() - i,
    {
        let ghost before = missing@;
        proof {
            let upto = key_texts(keys@).take(i + 1);
            assert(upto.drop_last() =~= key_texts(keys@).take(i as int));
            assert(upto.last() == keys@[i as int]@);
            let texts = key_texts(held@);
            if has_key(held@, keys@[i as int]@) {
                let j = choose|j: int|
                    0 <= j < held@.len() && (#[trigger] held@[j]).key_text() == keys@[i as int]@;
                assert(texts[j] == keys@[i as int]@);
            }
            if texts.contains(keys@[i as int]@) {
                let j = choose|j: int| 0 <= j < texts.len() && texts[j] == keys@[i as int]@;
                assert(held@[j].key_text() == keys@[i as int]@);
            }
        }
        if held.find(keys[i].as_str()).is_none() {
            missing.push(keys[i].clone());
            proof {
                assert(key_texts(missing@) =~= key_texts(before).push(keys@[i as int]@));
            }
        }
        i += 1;
    }
    proof {
        assert(key_texts(keys@).take(keys@.len() as int) =~= key_texts(keys@));
    }
    missing
}

/// Which keys are held does not depend on how often or in which order a key
/// is among those held.
pub proof fn lemma_keys_not_in_same_members(
    keys: Seq<Seq<char>>,
    held: Seq<Seq<char>>,
    other: Seq<Seq<char>>,
)
    requires
        forall|key: Seq<char>| held.contains(key) <==> other.contains(key),
    ensures
        keys_not_in(keys, held) == keys_not_in(keys, other),
    decreases keys.len(),
{
    if keys.len() > 0 {
        lemma_keys_not_in_same_members(keys.drop_last(), held, other);
    }
}

/// Compares the entities that the primary index of a kind holds with the
/// keys that its secondary index holds: tells the secondary keys of the
/// entities that the index lacks, in the order of the entities, and the
/// keys of the index that belong to none of the entities, in their order.
pub fn reconcile<T: Indexed>(entities: &Vec<T>, secondary: &Snapshot<String>) -> (found:
    Reconciliation)
    ensures
        key_texts(found.missing@) == keys_not_in(
            secondary_keys(entities@),
            key_texts(secondary@),
        ),
        key_texts(found.stray@) == keys_not_in(key_texts(secondary@), secondary_keys(entities@)),
{
    let mut expected: Vec<String> = Vec::new();
    let mut i: usize = 0;
    proof {
        assert(key_texts(expected@) =~= secondary_keys(entities@).take(0));
    }
    while i < entities.len()
        invariant
            i <= entities@.len(),
            key_texts(expected@) == secondary_keys(entities@).take(i as int),
        decreases entities@.len() - i,
    {
        let ghost before = expected@;
        let key = entities[i].secondary_key();
        expected.push(key);
        proof {
            assert(key_texts(expected@) =~= key_texts(before).push(key@));
            assert(secondary_keys(entities@).take(i + 1) =~= secondary_keys(entities@).take(
                i as int,
            ).push(key@));
        }
        i += 1;
    }
    proof {
        assert(secondary_keys(entities@).take(entities@.len() as int) =~= secondary_keys(
            entities@,
        ));
    }
    let missing = keys_missing_from(expected.as_slice(), secondary);
    let mut index: Snapshot<String> = Snapshot::new();
    proof {
        assert(key_texts(index@) =~= Seq::<Seq<char>>::empty());
        lemma_with_all_by_keys(index@, expected@);
    }
    index.extend(expected);
    proof {
        let wanted = secondary_keys(entities@);
        let indexed = key_texts(index@);
        assert forall|key: Seq<char>| indexed.contains(key) <==> wanted.contains(key) by {
            lemma_with_all_keys(Seq::<Seq<char>>::empty(), wanted, key);
            lemma_contains_is_has_key(indexed, key);
            lemma_contains_is_has_key(wanted, key);
        }
        lemma_keys_not_in_same_members(key_texts(secondary@), indexed, wanted);
    }
    let stray = keys_missing_from(secondary.as_slice(), &index);
    Reconciliation { missing, stray }
}

/// A text is among some texts just when they have it as a key.
pub proof fn lemma_contains_is_has_key(texts: Seq<Seq<char>>, key: Seq<char>)
    ensures
        texts.contains(key) <==> has_key(texts, key),
{
    if has_key(texts, key) {
        let i = choose|i: int| 0 <= i < texts.len() && (#[trigger] texts[i]).key_text() == key;
        assert(texts[i] == key);
    }
    if texts.contains(key) {
        let i = choose|i: int| 0 <= i < texts.len() && texts[i] == key;
        assert(texts[i].key_text() == key);
    }
}

/// Nothing is found missing just when every entity has its key in the
/// secondary index, and nothing is found stray just when every key of the
/// secondary index is that of an entity.
pub proof fn lemma_reconciled<T: Indexed>(entities: Seq<T>, secondary: Seq<Seq<char>>)
    ensures
        keys_not_in(secondary_keys(entities), secondary).len() == 0 <==> forall|i: int|
            0 <= i < entities.len() ==> secondary.contains(
                #[trigger] entities[i].secondary_key_text(),
            ),
        keys_not_in(secondary, secondary_keys(entities)).len() == 0 <==> forall|j: int|
            0 <= j < secondary.len() ==> secondary_keys(entities).contains(#[trigger] secondary[j]),
{
    let wanted = secondary_keys(entities);
    let missing = keys_not_in(wanted, secondary);
    assert forall|key: Seq<char>| missing.contains(key) <==> wanted.contains(key)
        && !secondary.contains(key) by {
        lemma_keys_not_in(wanted, secondary, key);
    }
    if missing.len() == 0 {
        assert forall|i: int| 0 <= i < entities.len() implies secondary.contains(
            #[trigger] entities[i].secondary_key_text(),
        ) by {
            assert(wanted[i] == entities[i].secondary_key_text());
            assert(!missing.contains(wanted[i]));
        }
    } else {
        assert(missing.contains(missing[0]));
        let i = choose|i: int| 0 <= i < wanted.len() && wanted[i] == missing[0];
        assert(!secondary.contains(entities[i].secondary_key_text()));
    }
    let stray = keys_not_in(secondary, wanted);
    assert forall|key: Seq<char>| stray.contains(key) <==> secondary.contains(key)
        && !wanted.contains(key) by {
        lemma_keys_not_in(secondary, wanted, key);
    }
    if stray.len() == 0 {
        assert forall|j: int| 0 <= j < secondary.len() implies wanted.contains(
            #[trigger] secondary[j],
        ) by {
            assert(secondary.contains(secondary[j]));
        }
    } else {
        assert(stray.contains(stray[0]));
        let j = choose|j: int| 0 <= j < secondary.len() && secondary[j] == stray[0];
        assert(!wanted.contains(secondary[j]));
    }
}

} // verus!
