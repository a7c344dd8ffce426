//! Collections that hold at most one item per key, in the order of their keys.

use vstd::prelude::*;
use crate::text::{
    bytes_lt, compare_text, lemma_bytes_lt_asymmetric, lemma_bytes_lt_irreflexive,
    lemma_bytes_lt_total, lemma_bytes_lt_transitive, lemma_text_key_injective, text_key, ByteOrder,
};

verus! {

/// An item that is found and ordered by a textual key.
pub trait Keyed {
    /// The key of this item.
    spec fn key_text(&self) -> Seq<char>;
}

/// An item that can hand out its key.
pub trait HasKey: Keyed {
    /// The key of this item.
    fn key(&self) -> (k: &str)
        ensures
            k@ == self.key_text(),
    ;
}

impl Keyed for String {
    open spec fn key_text(&self) -> Seq<char> {
        self@
    }
}

impl HasKey for String {
    fn key(&self) -> (k: &str) {
        self.as_str()
    }
}

/// A text is its own key.
impl Keyed for Seq<char> {
    open spec fn key_text(&self) -> Seq<char> {
        *self
    }
}

/// Compares two items by their keys.
pub fn compare_keys<T: HasKey>(a: &T, b: &T) -> (order: ByteOrder)
    ensures
        order == ByteOrder::Less <==> bytes_lt(key_bytes(*a), key_bytes(*b)),
        order == ByteOrder::Equal <==> a.key_text() == b.key_text(),
        order == ByteOrder::Greater <==> bytes_lt(key_bytes(*b), key_bytes(*a)),
{
    compare_text(a.key(), b.key())
}

/// The bytes by which `item` is ordered.
pub open spec fn key_bytes<T: Keyed>(item: T) -> Seq<u8> {
    text_key(item.key_text())
}

/// Every item precedes, by its key, all the items after it.
pub open spec fn sorted_by_key<T: Keyed>(s: Seq<T>) -> bool {
    forall|i: int, j: int| 0 <= i < j < s.len() ==> bytes_lt(key_bytes(s[i]), key_bytes(s[j]))
}

/// Some item of `s` has the key `k`.
pub open spec fn has_key<T: Keyed>(s: Seq<T>, k: Seq<char>) -> bool {
    exists|i: int| 0 <= i < s.len() && (#[trigger] s[i]).key_text() == k
}

/// The first position at or after `from` whose item does not precede `k`.
pub open spec fn position_from<T: Keyed>(s: Seq<T>, k: Seq<u8>, from: int) -> int
    decreases s.len() - from,
{
    if from < 0 || from >= s.len() {
        s.len() as int
    } else if bytes_lt(key_bytes(s[from]), k) {
        position_from(s, k, from + 1)
    } else {
        from
    }
}

/// The position at which an item with key bytes `k` stands or would stand.
pub open spec fn position<T: Keyed>(s: Seq<T>, k: Seq<u8>) -> int {
    position_from(s, k, 0)
}

/// `s` after `item` was offered to it: unchanged where the item at the key's
/// position already has that key, else with `item` put in at that position.
pub open spec fn with_item<T: Keyed>(s: Seq<T>, item: T) -> Seq<T> {
    let p = position(s, key_bytes(item));
    if p < s.len() && s[p].key_text() == item.key_text() {
        s
    } else {
        s.insert(p, item)
    }
}

/// `s` after each of `items` was offered to it, in turn.
pub open spec fn with_all<T: Keyed>(s: Seq<T>, items: Seq<T>) -> Seq<T>
    decreases items.len(),
{
    if items.len() == 0 {
        s
    } else {
        with_item(with_all(s, items.drop_last()), items.last())
    }
}

/// What `position_from` returns lies between `from` and the end, every item
/// passed over precedes `k`, and the item found, if any, does not.
pub proof fn lemma_position_from<T: Keyed>(s: Seq<T>, k: Seq<u8>, from: int)
    requires
        0 <= from <= s.len(),
    ensures
        from <= position_from(s, k, from) <= s.len(),
        forall|i: int| from <= i < position_from(s, k, from) ==> bytes_lt(key_bytes(s[i]), k),
        position_from(s, k, from) < s.len() ==> !bytes_lt(
            key_bytes(s[position_from(s, k, from)]),
            k,
        ),
    decreases s.len() - from,
{
    if from < s.len() && bytes_lt(key_bytes(s[from]), k) {
        lemma_position_from(s, k, from + 1);
    }
}

/// In a sorted sequence an item's key leads to the item itself.
pub proof fn lemma_position_of_member<T: Keyed>(s: Seq<T>, i: int)
    requires
        sorted_by_key(s),
        0 <= i < s.len(),
    ensures
        position(s, key_bytes(s[i])) == i,
{
    let k = key_bytes(s[i]);
    let p = position(s, k);
    lemma_position_from(s, k, 0);
    lemma_bytes_lt_irreflexive(k);
    if p < i {
        assert(bytes_lt(key_bytes(s[p]), key_bytes(s[i])));
    } else if p > i {
        assert(bytes_lt(key_bytes(s[i]), k));
    }
}

/// Offering an item keeps a sorted sequence sorted.
pub proof fn lemma_with_item_sorted<T: Keyed>(s: Seq<T>, item: T)
    requires
        sorted_by_key(s),
    ensures
        sorted_by_key(with_item(s, item)),
{
    let k = key_bytes(item);
    let p = position(s, k);
    lemma_position_from(s, k, 0);
    let r = with_item(s, item);
    if !(p < s.len() && s[p].key_text() == item.key_text()) {
        assert forall|i: int, j: int| 0 <= i < j < r.len() implies bytes_lt(
            key_bytes(r[i]),
            key_bytes(r[j]),
        ) by {
            if j < p {
                assert(r[i] == s[i] && r[j] == s[j]);
            } else if j == p {
                assert(r[i] == s[i]);
            } else if i == p {
                // r[j] == s[j - 1] with j - 1 >= p
                assert(r[j] == s[j - 1]);
                lemma_bytes_lt_total(key_bytes(s[p]), k);
                if key_bytes(s[p]) == k {
                    lemma_text_key_injective(s[p].key_text(), item.key_text());
                }
                assert(bytes_lt(k, key_bytes(s[p])));
                if j - 1 > p {
                    assert(bytes_lt(key_bytes(s[p]), key_bytes(s[j - 1])));
                    lemma_bytes_lt_transitive(k, key_bytes(s[p]), key_bytes(s[j - 1]));
                }
            } else if i < p {
                assert(r[i] == s[i] && r[j] == s[j - 1]);
            } else {
                assert(r[i] == s[i - 1] && r[j] == s[j - 1]);
            }
        }
    }
}

/// The keys after an offer are the keys before it and the key offered.
pub proof fn lemma_with_item_keys<T: Keyed>(s: Seq<T>, item: T, k: Seq<char>)
    ensures
        has_key(with_item(s, item), k) <==> has_key(s, k) || k == item.key_text(),
{
    let kb = key_bytes(item);
    let p = position(s, kb);
    lemma_position_from(s, kb, 0);
    let r = with_item(s, item);
    if p < s.len() && s[p].key_text() == item.key_text() {
        assert(has_key(s, item.key_text()));
    } else {
        assert(r[p] == item);
        if has_key(s, k) {
            let i = choose|i: int| 0 <= i < s.len() && (#[trigger] s[i]).key_text() == k;
            if i < p {
                assert(r[i] == s[i]);
            } else {
                assert(r[i + 1] == s[i]);
            }
        }
        if has_key(r, k) {
            let i = choose|i: int| 0 <= i < r.len() && (#[trigger] r[i]).key_text() == k;
            if i < p {
                assert(r[i] == s[i]);
            } else if i > p {
                assert(r[i] == s[i - 1]);
            }
        }
    }
}

/// An offer changes nothing where the key is already held: the item that
/// came first stays.
pub proof fn lemma_with_item_first_stays<T: Keyed>(s: Seq<T>, item: T)
    requires
        sorted_by_key(s),
        has_key(s, item.key_text()),
    ensures
        with_item(s, item) == s,
{
    let i = choose|i: int| 0 <= i < s.len() && (#[trigger] s[i]).key_text() == item.key_text();
    lemma_position_of_member(s, i);
}

/// Every item after an offer was there before or is the item offered, and
/// every item that was there before still is.
pub proof fn lemma_with_item_members<T: Keyed>(s: Seq<T>, item: T)
    ensures
        forall|i: int|
            0 <= i < with_item(s, item).len() ==> s.contains(#[trigger] with_item(s, item)[i])
                || with_item(s, item)[i] == item,
        forall|i: int| 0 <= i < s.len() ==> with_item(s, item).contains(#[trigger] s[i]),
{
    let kb = key_bytes(item);
    let p = position(s, kb);
    lemma_position_from(s, kb, 0);
    let r = with_item(s, item);
    if !(p < s.len() && s[p].key_text() == item.key_text()) {
        assert forall|i: int| 0 <= i < r.len() implies s.contains(#[trigger] r[i]) || r[i]
            == item by {
            if i < p {
                assert(r[i] == s[i]);
            } else if i > p {
                assert(r[i] == s[i - 1]);
            }
        }
        assert forall|i: int| 0 <= i < s.len() implies r.contains(#[trigger] s[i]) by {
            if i < p {
                assert(r[i] == s[i]);
            } else {
                assert(r[i + 1] == s[i]);
            }
        }
    }
}

/// Offering several items keeps a sorted sequence sorted.
pub proof fn lemma_with_all_sorted<T: Keyed>(s: Seq<T>, items: Seq<T>)
    requires
        sorted_by_key(s),
    ensures
        sorted_by_key(with_all(s, items)),
    decreases items.len(),
{
    if items.len() > 0 {
        lemma_with_all_sorted(s, items.drop_last());
        lemma_with_item_sorted(with_all(s, items.drop_last()), items.last());
    }
}

/// Every item after several offers was there before or was among those offered.
pub proof fn lemma_with_all_members<T: Keyed>(s: Seq<T>, items: Seq<T>)
    ensures
        forall|i: int|
            0 <= i < with_all(s, items).len() ==> s.contains(#[trigger] with_all(s, items)[i])
                || items.contains(with_all(s, items)[i]),
    decreases items.len(),
{
    if items.len() > 0 {
        let before = with_all(s, items.drop_last());
        lemma_with_all_members(s, items.drop_last());
        lemma_with_item_members(before, items.last());
        let r = with_all(s, items);
        assert forall|i: int| 0 <= i < r.len() implies s.contains(#[trigger] r[i])
            || items.contains(r[i]) by {
            if r[i] == items.last() {
                assert(items[items.len() - 1] == r[i]);
            } else {
                assert(before.contains(r[i]));
                let j = choose|j: int| 0 <= j < before.len() && before[j] == r[i];
                if !s.contains(before[j]) {
                    assert(items.drop_last().contains(before[j]));
                    let m = choose|m: int|
                        0 <= m < items.drop_last().len() && items.drop_last()[m] == before[j];
                    assert(items[m] == r[i]);
                }
            }
        }
    }
}

/// The keys after several offers are the keys before them and the keys offered.
pub proof fn lemma_with_all_keys<T: Keyed>(s: Seq<T>, items: Seq<T>, k: Seq<char>)
    ensures
        has_key(with_all(s, items), k) <==> has_key(s, k) || has_key(items, k),
    decreases items.len(),
{
    if items.len() > 0 {
        let front = items.drop_last();
        lemma_with_all_keys(s, front, k);
        lemma_with_item_keys(with_all(s, front), items.last(), k);
        if has_key(front, k) {
            let i = choose|i: int| 0 <= i < front.len() && (#[trigger] front[i]).key_text() == k;
            assert(items[i].key_text() == k);
        }
        if k == items.last().key_text() {
            assert(items[items.len() - 1].key_text() == k);
        }
        if has_key(items, k) {
            let i = choose|i: int| 0 <= i < items.len() && (#[trigger] items[i]).key_text() == k;
            if i < items.len() - 1 {
                assert(front[i].key_text() == k);
            }
        }
    }
}

/// The keys of the items, in their order.
pub open spec fn key_texts<T: Keyed>(s: Seq<T>) -> Seq<Seq<char>> {
    Seq::new(s.len(), |i: int| s[i].key_text())
}

/// Where an item stands depends on the keys alone.
pub proof fn lemma_position_by_keys<T: Keyed>(s: Seq<T>, k: Seq<u8>, from: int)
    requires
        0 <= from <= s.len(),
    ensures
        position_from(s, k, from) == position_from(key_texts(s), k, from),
    decreases s.len() - from,
{
    if from < s.len() {
        assert(key_texts(s)[from] == s[from].key_text());
        if bytes_lt(key_bytes(s[from]), k) {
            lemma_position_by_keys(s, k, from + 1);
        }
    }
}

/// The keys after an offer are the keys before it after the offer of the key.
pub proof fn lemma_with_item_by_keys<T: Keyed>(s: Seq<T>, item: T)
    ensures
        key_texts(with_item(s, item)) == with_item(key_texts(s), item.key_text()),
{
    let k = key_bytes(item);
    let p = position(s, k);
    lemma_position_from(s, k, 0);
    lemma_position_by_keys(s, k, 0);
    if p < s.len() {
        assert(key_texts(s)[p] == s[p].key_text());
    }
    assert(key_texts(with_item(s, item)) =~= with_item(key_texts(s), item.key_text()));
}

/// The keys after several offers are the keys before them after the offers
/// of the keys.
pub proof fn lemma_with_all_by_keys<T: Keyed>(s: Seq<T>, items: Seq<T>)
    ensures
        key_texts(with_all(s, items)) == with_all(key_texts(s), key_texts(items)),
    decreases items.len(),
{
    if items.len() > 0 {
        lemma_with_all_by_keys(s, items.drop_last());
        lemma_with_item_by_keys(with_all(s, items.drop_last()), items.last());
        assert(key_texts(items).drop_last() =~= key_texts(items.drop_last()));
        assert(key_texts(items).last() == items.last().key_text());
    }
}

/// An offer commutes with every change of the items that keeps their keys.
pub proof fn lemma_with_item_mapped<T: Keyed, U: Keyed>(s: Seq<T>, item: T, f: spec_fn(T) -> U)
    requires
        forall|t: T| (#[trigger] f(t)).key_text() == t.key_text(),
    ensures
        with_item(s, item).map_values(f) == with_item(s.map_values(f), f(item)),
{
    let k = key_bytes(item);
    let p = position(s, k);
    lemma_position_from(s, k, 0);
    lemma_position_by_keys(s, k, 0);
    lemma_position_by_keys(s.map_values(f), k, 0);
    assert(key_texts(s.map_values(f)) =~= key_texts(s)) by {
        assert forall|i: int| 0 <= i < s.len() implies key_texts(s.map_values(f))[i]
            == key_texts(s)[i] by {
            assert(f(s[i]).key_text() == s[i].key_text());
        }
    }
    assert(f(item).key_text() == item.key_text());
    if p < s.len() {
        assert(f(s[p]).key_text() == s[p].key_text());
    }
    assert(with_item(s, item).map_values(f) =~= with_item(s.map_values(f), f(item)));
}

/// A set of items, one per key, kept in the order of the keys.
#[derive(Debug, PartialEq, Eq)]
pub struct Snapshot<T: HasKey> {
    items: Vec<T>,
}

impl<T: HasKey> Snapshot<T> {
    /// The items, in the order of their keys.
    pub closed spec fn view(&self) -> Seq<T> {
        self.items@
    }

    /// The items stand in the strict order of their keys, so no key occurs
    /// twice. This holds of every snapshot.
    #[verifier::type_invariant]
    pub open spec fn wf(&self) -> bool {
        sorted_by_key(self@)
    }

    /// The empty snapshot.
    pub fn new() -> (snapshot: Self)
        ensures
            snapshot@ == Seq::<T>::empty(),
            snapshot.wf(),
    {
        Snapshot { items: Vec::new() }
    }

    /// The number of items.
    pub fn len(&self) -> (n: usize)
        ensures
            n == self@.len(),
    {
        self.items.len()
    }

    /// Whether there is no item.
    pub fn is_empty(&self) -> (empty: bool)
        ensures
            empty == (self@.len() == 0),
    {
        self.items.len() == 0
    }

    /// The item at position `i` in the order of the keys.
    pub fn get(&self, i: usize) -> (item: Option<&T>)
        ensures
            i < self@.len() ==> item == Some(&self@[i as int]),
            i >= self@.len() ==> item is None,
    {
        if i < self.items.len() {
            Some(&self.items[i])
        } else {
            None
        }
    }

    /// The items as a slice, in the strict order of the keys.
    pub fn as_slice(&self) -> (items: &[T])
        ensures
            items@ == self@,
            self.wf(),
    {
        proof {
            use_type_invariant(self);
        }
        self.items.as_slice()
    }

    /// The items, in the strict order of the keys.
    pub fn into_vec(self) -> (items: Vec<T>)
        ensures
            items@ == self@,
            self.wf(),
    {
        proof {
            use_type_invariant(&self);
        }
        self.items
    }

    /// The position of the item with key `k`, if there is one.
    pub fn find(&self, k: &str) -> (found: Option<usize>)
        ensures
            found matches Some(i) ==> i < self@.len() && self@[i as int].key_text() == k@ && i
                == position(self@, text_key(k@)),
            found is Some <==> has_key(self@, k@),
            self.wf(),
    {
        proof {
            use_type_invariant(self);
        }
        let mut i: usize = 0;
        while i < self.items.len()
            invariant
                i <= self.items@.len(),
                sorted_by_key(self.items@),
                position_from(self.items@, text_key(k@), 0) == position_from(
                    self.items@,
                    text_key(k@),
                    i as int,
                ),
            decreases self.items@.len() - i,
        {
            match compare_text(self.items[i].key(), k) {
                ByteOrder::Less => {
                    i += 1;
                },
                ByteOrder::Equal => {
                    proof {
                        lemma_bytes_lt_irreflexive(text_key(k@));
                    }
                    return Some(i);
                },
                ByteOrder::Greater => {
                    proof {
                        lemma_bytes_lt_asymmetric(text_key(k@), key_bytes(self.items@[i as int]));
                        if self.wf() && has_key(self@, k@) {
                            let j = choose|j: int|
                                0 <= j < self@.len() && (#[trigger] self@[j]).key_text() == k@;
                            lemma_position_of_member(self@, j);
                        }
                    }
                    return None;
                },
            }
        }
        proof {
            if self.wf() && has_key(self@, k@) {
                let j = choose|j: int|
                    0 <= j < self@.len() && (#[trigger] self@[j]).key_text() == k@;
                lemma_position_of_member(self@, j);
            }
        }
        None
    }

    /// Offers `item`: it is put in at its key's position unless an item with
    /// that key is already there, which then stays. Tells whether it was put in.
    pub fn insert(&mut self, item: T) -> (added: bool)
        ensures
            final(self)@ == with_item(old(self)@, item),
            added == !has_key(old(self)@, item.key_text()),
            final(self).wf(),
    {
        proof {
            use_type_invariant(&*self);
        }
        let ghost before = self.items@;
        let ghost kb = key_bytes(item);
        let mut i: usize = 0;
        let mut held = false;
        while i < self.items.len()
            invariant_except_break
                !held,
            invariant
                self.items@ == before,
                kb == key_bytes(item),
                i <= before.len(),
                position_from(before, kb, 0) == position_from(before, kb, i as int),
            ensures
                self.items@ == before,
                i <= before.len(),
                position(before, kb) == i,
                held == (i < before.len() && before[i as int].key_text() == item.key_text()),
            decreases before.len() - i,
        {
            match compare_text(self.items[i].key(), item.key()) {
                ByteOrder::Less => {
                    i += 1;
                },
                ByteOrder::Equal => {
                    proof {
                        lemma_bytes_lt_irreflexive(kb);
                    }
                    held = true;
                    break ;
                },
                ByteOrder::Greater => {
                    proof {
                        lemma_bytes_lt_asymmetric(kb, key_bytes(before[i as int]));
                    }
                    break ;
                },
            }
        }
        proof {
            lemma_with_item_sorted(before, item);
            if has_key(before, item.key_text()) {
                lemma_with_item_first_stays(before, item);
            }
        }
        if held {
            false
        } else {
            let mut items: Vec<T> = Vec::new();
            core::mem::swap(&mut self.items, &mut items);
            items.insert(i, item);
            core::mem::swap(&mut self.items, &mut items);
            true
        }
    }

    /// Offers each of `items` in turn.
    pub fn extend(&mut self, items: Vec<T>)
        ensures
            final(self)@ == with_all(old(self)@, items@),
            final(self).wf(),
    {
        proof {
            use_type_invariant(&*self);
        }
        let ghost all = items@;
        let ghost start = self@;
        for item in it: items
            invariant
                it.seq() == all,
                start == old(self)@,
                self@ == with_all(start, all.take(it.index() as int)),
                self.wf(),
        {
            proof {
                let done = all.take(it.index() + 1);
                assert(done.drop_last() =~= all.take(it.index() as int));
                assert(done.last() == item);
            }
            self.insert(item);
        }
        proof {
            assert(all.take(all.len() as int) =~= all);
        }
    }
}

impl<T: HasKey + Clone> Clone for Snapshot<T> {
    /// A snapshot of copies of the items. Each copy is offered in turn, so
    /// the copy is in the order of its own keys whatever `T` makes of a copy.
    fn clone(&self) -> (copy: Self) {
        let mut copy: Snapshot<T> = Snapshot::new();
        let mut i: usize = 0;
        while i < self.items.len()
            invariant
                i <= self.items@.len(),
            decreases self.items@.len() - i,
        {
            copy.insert(self.items[i].clone());
            i += 1;
        }
        copy
    }
}

} // verus!
