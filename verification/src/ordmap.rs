//! A map with text keys that keeps its keys in order.
use crate::text;
use vstd::prelude::*;
use vstd::string::*;

verus! {

/// `a` stands before `b` in dictionary order, character by character.
pub open spec fn text_lt(a: Seq<char>, b: Seq<char>) -> bool
    decreases a.len(),
{
    if b.len() == 0 {
        false
    } else if a.len() == 0 {
        true
    } else if a[0] != b[0] {
        a[0] < b[0]
    } else {
        text_lt(a.skip(1), b.skip(1))
    }
}

/// No text stands before itself.
pub proof fn lemma_text_lt_irreflexive(a: Seq<char>)
    ensures
        !text_lt(a, a),
    decreases a.len(),
{
    if a.len() > 0 {
        lemma_text_lt_irreflexive(a.skip(1));
    }
}

/// The order of texts is transitive.
pub proof fn lemma_text_lt_transitive(a: Seq<char>, b: Seq<char>, c: Seq<char>)
    requires
        text_lt(a, b),
        text_lt(b, c),
    ensures
        text_lt(a, c),
    decreases a.len(),
{
    if a.len() > 0 && a[0] == b[0] && b[0] == c[0] {
        lemma_text_lt_transitive(a.skip(1), b.skip(1), c.skip(1));
    }
}

/// Of two different texts one stands before the other.
pub proof fn lemma_text_lt_total(a: Seq<char>, b: Seq<char>)
    ensures
        text_lt(a, b) || a == b || text_lt(b, a),
    decreases a.len(),
{
    if a.len() > 0 && b.len() > 0 && a[0] == b[0] {
        lemma_text_lt_total(a.skip(1), b.skip(1));
        if a.skip(1) == b.skip(1) {
            assert(a =~= seq![a[0]] + a.skip(1));
            assert(b =~= seq![b[0]] + b.skip(1));
        }
    } else if a.len() == 0 && b.len() == 0 {
        assert(a =~= b);
    }
}

/// Tells whether `a` stands before `b`.
pub fn text_less(a: &str, b: &str) -> (r: bool)
    ensures
        r == text_lt(a@, b@),
{
    let u = text::chars_of(a);
    let v = text::chars_of(b);
    let mut i: usize = 0;
    assert(u@.skip(0) =~= u@ && v@.skip(0) =~= v@);
    while i < u.len() && i < v.len() && u[i] == v[i]
        invariant
            i <= u@.len(),
            i <= v@.len(),
            text_lt(u@, v@) == text_lt(u@.skip(i as int), v@.skip(i as int)),
        decreases u@.len() - i,
    {
        assert(u@.skip(i as int).skip(1) =~= u@.skip(i + 1));
        assert(v@.skip(i as int).skip(1) =~= v@.skip(i + 1));
        i = i + 1;
    }
    if i >= v.len() {
        false
    } else if i >= u.len() {
        true
    } else {
        u[i] < v[i]
    }
}

/// The keys stand in strictly increasing order.
pub open spec fn keys_sorted(keys: Seq<Seq<char>>) -> bool {
    forall|i: int, j: int| 0 <= i < j < keys.len() ==> text_lt(#[trigger] keys[i], #[trigger] keys[j])
}

/// The keys of a list of entries.
pub open spec fn entry_keys<V>(entries: Seq<(String, V)>) -> Seq<Seq<char>> {
    Seq::new(entries.len(), |i: int| entries[i].0@)
}

/// The map that a list of entries stands for; a later entry replaces an
/// earlier one with the same key.
pub open spec fn entry_map<V>(entries: Seq<(String, V)>) -> Map<Seq<char>, V>
    decreases entries.len(),
{
    if entries.len() == 0 {
        Map::empty()
    } else {
        entry_map(entries.drop_last()).insert(entries.last().0@, entries.last().1)
    }
}

/// The domain of the map is the set of the keys.
pub proof fn lemma_entry_map_dom<V>(entries: Seq<(String, V)>, k: Seq<char>)
    ensures
        entry_map(entries).dom().contains(k) <==> entry_keys(entries).contains(k),
    decreases entries.len(),
{
    if entries.len() > 0 {
        let init = entries.drop_last();
        lemma_entry_map_dom(init, k);
        assert(entry_keys(entries) =~= entry_keys(init).push(entries.last().0@));
        if entry_keys(init).contains(k) {
            let i = choose|i: int| 0 <= i < entry_keys(init).len() && entry_keys(init)[i] == k;
            assert(entry_keys(entries)[i] == k);
        }
        if entries.last().0@ == k {
            assert(entry_keys(entries)[entries.len() - 1] == k);
        }
        if entry_keys(entries).contains(k) && entries.last().0@ != k {
            let i = choose|i: int|
                0 <= i < entry_keys(entries).len() && entry_keys(entries)[i] == k;
            assert(entry_keys(init)[i] == k);
        }
    }
}

/// With sorted keys each entry gives the value of its key.
pub proof fn lemma_entry_map_value<V>(entries: Seq<(String, V)>, i: int)
    requires
        keys_sorted(entry_keys(entries)),
        0 <= i < entries.len(),
    ensures
        entry_map(entries).dom().contains(entries[i].0@),
        entry_map(entries)[entries[i].0@] == entries[i].1,
    decreases entries.len(),
{
    let init = entries.drop_last();
    assert(forall|a: int| 0 <= a < init.len() ==> entry_keys(init)[a] == entry_keys(entries)[a]);
    if i < init.len() {
        lemma_entry_map_value(init, i);
        assert(text_lt(entry_keys(entries)[i], entry_keys(entries)[entries.len() - 1]));
        lemma_text_lt_irreflexive(entries[i].0@);
    }
}

/// A list of entries has finitely many keys.
pub(crate) proof fn lemma_entry_map_finite<V>(entries: Seq<(String, V)>)
    ensures
        entry_map(entries).dom().finite(),
    decreases entries.len(),
{
    if entries.len() > 0 {
        lemma_entry_map_finite(entries.drop_last());
    }
}

/// Without one of its entries, a sorted list is the map without that key.
proof fn lemma_entry_map_remove<V>(entries: Seq<(String, V)>, i: int)
    requires
        keys_sorted(entry_keys(entries)),
        0 <= i < entries.len(),
    ensures
        entry_map(entries.remove(i)) =~= entry_map(entries).remove(entries[i].0@),
    decreases entries.len(),
{
    let init = entries.drop_last();
    assert(forall|a: int| 0 <= a < init.len() ==> entry_keys(init)[a] == entry_keys(entries)[a]);
    if i == entries.len() - 1 {
        assert(entries.remove(i) =~= init);
        lemma_entry_map_dom(init, entries[i].0@);
        if entry_keys(init).contains(entries[i].0@) {
            let j = choose|j: int| 0 <= j < init.len() && entry_keys(init)[j] == entries[i].0@;
            assert(text_lt(entry_keys(entries)[j], entry_keys(entries)[i]));
            lemma_text_lt_irreflexive(entries[i].0@);
        }
    } else {
        lemma_entry_map_remove(init, i);
        assert(entries.remove(i).drop_last() =~= init.remove(i));
        assert(entries.remove(i).last() == entries.last());
        assert(text_lt(entry_keys(entries)[i], entry_keys(entries)[entries.len() - 1]));
        lemma_text_lt_irreflexive(entries[i].0@);
    }
}

/// A map from text to `V`, in the order of its keys.
pub struct StringMap<V> {
    pub(crate) entries: Vec<(String, V)>,
}

impl<V> View for StringMap<V> {
    type V = Map<Seq<char>, V>;

    closed spec fn view(&self) -> Map<Seq<char>, V> {
        entry_map(self.entries@)
    }
}

/// `order` lists the keys of `m`, each once and in increasing order.
pub open spec fn is_key_order<V>(order: Seq<Seq<char>>, m: Map<Seq<char>, V>) -> bool {
    &&& keys_sorted(order)
    &&& forall|k: Seq<char>| #[trigger] order.contains(k) <==> m.dom().contains(k)
    &&& forall|i: int| 0 <= i < order.len() ==> m.dom().contains(#[trigger] order[i])
}

/// A key before the last one of an increasing list.
proof fn lemma_before_last(keys: Seq<Seq<char>>, k: Seq<char>)
    requires
        keys_sorted(keys),
        keys.len() > 0,
    ensures
        keys.drop_last().contains(k) <==> keys.contains(k) && k != keys.last(),
        keys.contains(k) && k != keys.last() ==> text_lt(k, keys.last()),
        keys_sorted(keys.drop_last()),
{
    let init = keys.drop_last();
    if init.contains(k) {
        let i = choose|i: int| 0 <= i < init.len() && init[i] == k;
        assert(keys[i] == k);
        assert(text_lt(keys[i], keys[keys.len() - 1]));
        lemma_text_lt_irreflexive(k);
    }
    if keys.contains(k) && k != keys.last() {
        let i = choose|i: int| 0 <= i < keys.len() && keys[i] == k;
        assert(init[i] == k);
        assert(text_lt(keys[i], keys[keys.len() - 1]));
    }
}

/// Two increasing lists of the same keys are the same.
proof fn lemma_sorted_unique(a: Seq<Seq<char>>, b: Seq<Seq<char>>)
    requires
        keys_sorted(a),
        keys_sorted(b),
        forall|k: Seq<char>| #[trigger] a.contains(k) <==> b.contains(k),
    ensures
        a =~= b,
    decreases a.len(),
{
    if a.len() == 0 {
        if b.len() > 0 {
            assert(b.contains(b[0]));
            assert(a.contains(b[0]));
        }
    } else {
        assert(a.contains(a[a.len() - 1]));
        assert(b.contains(a.last()));
        assert(b.contains(b[b.len() - 1]));
        assert(a.contains(b.last()));
        lemma_before_last(a, b.last());
        lemma_before_last(b, a.last());
        if a.last() != b.last() {
            lemma_text_lt_transitive(a.last(), b.last(), a.last());
            lemma_text_lt_irreflexive(a.last());
        }
        assert forall|k: Seq<char>| #[trigger] a.drop_last().contains(k) <==> b.drop_last().contains(
            k,
        ) by {
            lemma_before_last(a, k);
            lemma_before_last(b, k);
            assert(a.contains(k) <==> b.contains(k));
        }
        lemma_sorted_unique(a.drop_last(), b.drop_last());
        assert(a =~= a.drop_last().push(a.last()));
        assert(b =~= b.drop_last().push(b.last()));
    }
}

/// The keys of a map come in one increasing order only.
pub proof fn lemma_key_order_unique<V>(
    a: Seq<Seq<char>>,
    b: Seq<Seq<char>>,
    m: Map<Seq<char>, V>,
)
    requires
        is_key_order(a, m),
        is_key_order(b, m),
    ensures
        a == b,
{
    assert forall|k: Seq<char>| #[trigger] a.contains(k) <==> b.contains(k) by {
        assert(b.contains(k) <==> m.dom().contains(k));
    }
    lemma_sorted_unique(a, b);
}

/// The map is that of its entries.
pub(crate) proof fn lemma_view<V>(m: StringMap<V>)
    ensures
        m@ == entry_map(m.entries@),
        m.order() == entry_keys(m.entries@),
{
}

impl<V> StringMap<V> {
    #[verifier::type_invariant]
    spec fn sorted(self) -> bool {
        keys_sorted(entry_keys(self.entries@))
    }

    /// The keys of the map in increasing order.
    pub closed spec fn order(&self) -> Seq<Seq<char>> {
        entry_keys(self.entries@)
    }

    /// The map without entries.
    pub fn new() -> (r: Self)
        ensures
            r@ == Map::<Seq<char>, V>::empty(),
            r.order().len() == 0,
    {
        StringMap { entries: Vec::new() }
    }

    /// The map of entries that stand in the order of their keys.
    pub(crate) fn from_sorted(entries: Vec<(String, V)>) -> (r: Self)
        requires
            keys_sorted(entry_keys(entries@)),
        ensures
            r.entries == entries,
    {
        StringMap { entries }
    }

    /// Takes `key` out of the map.
    pub fn remove(&mut self, key: &str)
        ensures
            final(self)@ =~= old(self)@.remove(key@),
    {
        let i: usize = self.lower_bound(key);
        let ghost before = self.entries@;
        proof {
            use_type_invariant(&*self);
            lemma_entry_map_dom(before, key@);
        }
        if i < self.entries.len() && text::str_eq(self.entries[i].0.as_str(), key) {
            let mut entries: Vec<(String, V)> = Vec::new();
            std::mem::swap(&mut entries, &mut self.entries);
            let _ = entries.remove(i);
            proof {
                let after = entries@;
                assert(after =~= before.remove(i as int));
                assert forall|a: int, b: int| 0 <= a < b < after.len() implies text_lt(
                    #[trigger] entry_keys(after)[a],
                    #[trigger] entry_keys(after)[b],
                ) by {
                    let x = if a < i { a } else { a + 1 };
                    let y = if b < i { b } else { b + 1 };
                    assert(entry_keys(after)[a] == entry_keys(before)[x]);
                    assert(entry_keys(after)[b] == entry_keys(before)[y]);
                }
                lemma_entry_map_remove(before, i as int);
            }
            self.entries = entries;
        } else {
            proof {
                if entry_keys(before).contains(key@) {
                    let j = choose|j: int| 0 <= j < before.len() && entry_keys(before)[j] == key@;
                    if j < i {
                        lemma_text_lt_irreflexive(key@);
                    } else if j > i {
                        assert(text_lt(entry_keys(before)[i as int], entry_keys(before)[j]));
                    }
                }
                assert(entry_map(before).remove(key@) =~= entry_map(before));
            }
        }
    }

    /// The number of entries.
    pub fn len(&self) -> (n: usize)
        ensures
            n == self.order().len(),
            is_key_order(self.order(), self@),
    {
        proof {
            use_type_invariant(self);
            assert forall|k: Seq<char>| #[trigger] self.order().contains(k) <==> self@.dom().contains(k) by {
                lemma_entry_map_dom(self.entries@, k);
            }
            assert forall|i: int| 0 <= i < self.order().len() implies self@.dom().contains(
                #[trigger] self.order()[i],
            ) by {
                lemma_entry_map_value(self.entries@, i);
            }
        }
        self.entries.len()
    }

    /// Tells whether there is no entry.
    pub fn is_empty(&self) -> (r: bool)
        ensures
            r == (self.order().len() == 0),
            r == (self@.dom() =~= Set::<Seq<char>>::empty()),
    {
        let n: usize = self.len();
        proof {
            if n == 0 {
                assert forall|k: Seq<char>| !self@.dom().contains(k) by {
                    assert(!self.order().contains(k));
                }
            } else {
                assert(self@.dom().contains(self.order()[0]));
            }
        }
        n == 0
    }

    /// The key at the place `i` of the order.
    pub fn key_at(&self, i: usize) -> (k: &String)
        requires
            i < self.order().len(),
        ensures
            k@ == self.order()[i as int],
            self@.dom().contains(k@),
    {
        proof {
            use_type_invariant(self);
            lemma_entry_map_value(self.entries@, i as int);
        }
        &self.entries[i].0
    }

    /// The value of the key at the place `i` of the order.
    pub fn value_at(&self, i: usize) -> (v: &V)
        requires
            i < self.order().len(),
        ensures
            *v == self@[self.order()[i as int]],
            self@.dom().contains(self.order()[i as int]),
    {
        proof {
            use_type_invariant(self);
            lemma_entry_map_value(self.entries@, i as int);
        }
        &self.entries[i].1
    }

    /// The place of the first key that is not before `key`.
    fn lower_bound(&self, key: &str) -> (i: usize)
        ensures
            i <= self.entries@.len(),
            forall|j: int| 0 <= j < i ==> text_lt(#[trigger] entry_keys(self.entries@)[j], key@),
            forall|j: int|
                i <= j < self.entries@.len() ==> !text_lt(
                    #[trigger] entry_keys(self.entries@)[j],
                    key@,
                ),
    {
        proof {
            use_type_invariant(self);
        }
        let mut i: usize = 0;
        while i < self.entries.len() && text_less(self.entries[i].0.as_str(), key)
            invariant
                keys_sorted(entry_keys(self.entries@)),
                i <= self.entries@.len(),
                forall|j: int|
                    0 <= j < i ==> text_lt(#[trigger] entry_keys(self.entries@)[j], key@),
            decreases self.entries@.len() - i,
        {
            i = i + 1;
        }
        proof {
            let keys = entry_keys(self.entries@);
            assert forall|j: int| i <= j < keys.len() implies !text_lt(#[trigger] keys[j], key@) by {
                if j > i && text_lt(keys[j], key@) {
                    lemma_text_lt_transitive(keys[i as int], keys[j], key@);
                }
            }
        }
        i
    }

    /// The value of `key`, if the map has it.
    pub fn get(&self, key: &str) -> (r: Option<&V>)
        ensures
            match r {
                Some(v) => self@.dom().contains(key@) && *v == self@[key@],
                None => !self@.dom().contains(key@),
            },
    {
        let i: usize = self.lower_bound(key);
        let ghost keys = entry_keys(self.entries@);
        proof {
            use_type_invariant(self);
            lemma_entry_map_dom(self.entries@, key@);
        }
        if i < self.entries.len() && text::str_eq(self.entries[i].0.as_str(), key) {
            proof {
                lemma_entry_map_value(self.entries@, i as int);
            }
            return Some(&self.entries[i].1);
        }
        proof {
            if keys.contains(key@) {
                let j = choose|j: int| 0 <= j < keys.len() && keys[j] == key@;
                lemma_text_lt_irreflexive(key@);
                if j > i {
                    assert(text_lt(keys[i as int], keys[j]));
                }
            }
        }
        None
    }

    /// Tells whether the map has `key`.
    pub fn contains_key(&self, key: &str) -> (r: bool)
        ensures
            r == self@.dom().contains(key@),
    {
        match self.get(key) {
            Some(_) => true,
            None => false,
        }
    }

    /// Sets the value of `key`.
    pub fn insert(&mut self, key: String, value: V)
        ensures
            final(self)@ == old(self)@.insert(key@, value),
    {
        let i: usize = self.lower_bound(key.as_str());
        proof {
            use_type_invariant(&*self);
        }
        let mut entries: Vec<(String, V)> = Vec::new();
        std::mem::swap(&mut entries, &mut self.entries);
        let ghost before = entries@;
        let ghost keys = entry_keys(before);
        let ghost k = key@;
        if i < entries.len() && text::str_eq(entries[i].0.as_str(), key.as_str()) {
            entries[i] = (key, value);
            proof {
                assert(entry_keys(entries@) =~= keys);
            }
        } else {
            proof {
                assert forall|j: int| i <= j < before.len() implies text_lt(k, #[trigger] keys[j]) by {
                    lemma_text_lt_total(k, keys[j]);
                    if keys[j] == k {
                        if j > i {
                            assert(text_lt(keys[i as int], keys[j]));
                        }
                    }
                }
            }
            entries.insert(i, (key, value));
            proof {
                assert(entry_keys(entries@) =~= keys.insert(i as int, k));
                let now = entry_keys(entries@);
                assert forall|a: int, b: int| 0 <= a < b < now.len() implies text_lt(
                    #[trigger] now[a],
                    #[trigger] now[b],
                ) by {
                    let a0 = if a < i { a } else { a - 1 };
                    let b0 = if b < i { b } else { b - 1 };
                    if a != i && b != i {
                        assert(text_lt(keys[a0], keys[b0]));
                    } else if a == i {
                        assert(text_lt(k, keys[b0]));
                    } else {
                        assert(text_lt(keys[a0], k));
                    }
                }
            }
        }
        proof {
            let old_map = entry_map(before);
            let new_map = entry_map(entries@);
            assert forall|x: Seq<char>| new_map.dom().contains(x) == old_map.insert(k, value).dom().contains(x) by {
                lemma_entry_map_dom(before, x);
                lemma_entry_map_dom(entries@, x);
                let now = entry_keys(entries@);
                if keys.contains(x) {
                    let j = choose|j: int| 0 <= j < keys.len() && keys[j] == x;
                    if now.len() == keys.len() {
                        assert(now[j] == x);
                    } else {
                        assert(now[if j < i { j } else { j + 1 }] == x);
                    }
                }
                if x == k {
                    assert(now[i as int] == k);
                }
                if now.contains(x) && x != k {
                    let j = choose|j: int| 0 <= j < now.len() && now[j] == x;
                    if now.len() == keys.len() {
                        assert(keys[j] == x);
                    } else {
                        assert(j != i);
                        assert(keys[if j < i { j } else { j - 1 }] == x);
                    }
                }
            }
            assert forall|x: Seq<char>| new_map.dom().contains(x) implies new_map[x] == old_map.insert(k, value)[x] by {
                lemma_entry_map_dom(entries@, x);
                let now = entry_keys(entries@);
                let j = choose|j: int| 0 <= j < now.len() && now[j] == x;
                lemma_entry_map_value(entries@, j);
                if j != i {
                    let j0 = if now.len() == keys.len() || j < i { j } else { j - 1 };
                    lemma_entry_map_value(before, j0);
                    assert(keys[j0] == x);
                    lemma_text_lt_irreflexive(x);
                    if now.len() == keys.len() {
                        if j < i {
                            assert(text_lt(keys[j], keys[i as int]));
                        } else {
                            assert(text_lt(keys[i as int], keys[j]));
                        }
                    }
                }
            }
            assert(new_map =~= old_map.insert(k, value));
        }
        self.entries = entries;
    }

    /// The keys in increasing order.
    pub fn keys(&self) -> (r: Vec<String>)
        ensures
            text::texts(r@) == self.order(),
            is_key_order(self.order(), self@),
    {
        let n: usize = self.len();
        let mut r: Vec<String> = Vec::new();
        let mut i: usize = 0;
        while i < n
            invariant
                n == self.order().len(),
                i <= n,
                text::texts(r@) == self.order().take(i as int),
            decreases n - i,
        {
            let k = self.key_at(i).clone();
            r.push(k);
            i = i + 1;
            assert(text::texts(r@) =~= self.order().take(i - 1).push(k@));
            assert(self.order().take(i as int) =~= self.order().take(i - 1).push(k@));
        }
        assert(self.order().take(n as int) =~= self.order());
        r
    }
}

/// A value that can be copied, up to what it says.
pub trait Duplicate: Sized {
    /// The two values say the same.
    spec fn says_same(self, other: Self) -> bool;

    /// Copies the value.
    fn duplicate(&self) -> (r: Self)
        ensures
            self.says_same(r),
    ;
}

impl<V: Duplicate> StringMap<V> {
    /// Puts copies of the entries of `other` into the map, in place of those
    /// with the same keys.
    pub fn extend(&mut self, other: &Self)
        ensures
            final(self)@.dom() =~= old(self)@.dom().union(other@.dom()),
            forall|k: Seq<char>| #[trigger]
                final(self)@.dom().contains(k) ==> if other@.dom().contains(k) {
                    other@[k].says_same(final(self)@[k])
                } else {
                    final(self)@[k] == old(self)@[k]
                },
    {
        let n: usize = other.len();
        let mut i: usize = 0;
        while i < n
            invariant
                i <= n == other.order().len(),
                is_key_order(other.order(), other@),
                forall|k: Seq<char>| #[trigger]
                    self@.dom().contains(k) <==> old(self)@.dom().contains(k)
                        || other.order().take(i as int).contains(k),
                forall|k: Seq<char>| #[trigger]
                    self@.dom().contains(k) ==> if other.order().take(i as int).contains(k) {
                        other@[k].says_same(self@[k])
                    } else {
                        self@[k] == old(self)@[k]
                    },
            decreases n - i,
        {
            let key = other.key_at(i).clone();
            let value = other.value_at(i).duplicate();
            let ghost before = self@;
            self.insert(key, value);
            proof {
                let seen = other.order().take(i as int);
                let next = other.order().take(i + 1);
                assert(next =~= seen.push(key@));
                assert forall|k: Seq<char>| next.contains(k) <==> (seen.contains(k) || k == key@) by {
                    if seen.contains(k) {
                        let j = choose|j: int| 0 <= j < seen.len() && seen[j] == k;
                        assert(next[j] == k);
                    }
                    if k == key@ {
                        assert(next[i as int] == k);
                    }
                }
                assert forall|k: Seq<char>| #[trigger] self@.dom().contains(k) implies if next.contains(
                    k,
                ) {
                    other@[k].says_same(self@[k])
                } else {
                    self@[k] == old(self)@[k]
                } by {
                    if k != key@ {
                        assert(before.dom().contains(k));
                    }
                }
                assert forall|k: Seq<char>| #[trigger] self@.dom().contains(k) <==> old(
                    self,
                )@.dom().contains(k) || next.contains(k) by {
                    assert(before.dom().contains(k) <==> old(self)@.dom().contains(k)
                        || seen.contains(k));
                }
            }
            i = i + 1;
        }
        proof {
            assert(other.order().take(n as int) =~= other.order());
            assert forall|k: Seq<char>| #[trigger] self@.dom().contains(k) <==> old(
                self,
            )@.dom().union(other@.dom()).contains(k) by {
                assert(other.order().contains(k) <==> other@.dom().contains(k));
            }
        }
    }

    /// Copies the map.
    pub fn duplicate(&self) -> (r: Self)
        ensures
            r.order() == self.order(),
            r@.dom() == self@.dom(),
            forall|k: Seq<char>| #[trigger]
                self@.dom().contains(k) ==> self@[k].says_same(r@[k]),
    {
        proof {
            use_type_invariant(self);
        }
        let mut entries: Vec<(String, V)> = Vec::new();
        let mut i: usize = 0;
        while i < self.entries.len()
            invariant
                i <= self.entries@.len(),
                entries@.len() == i,
                forall|k: int|
                    0 <= k < i ==> (#[trigger] entries@[k]).0@ == self.entries@[k].0@
                        && self.entries@[k].1.says_same(entries@[k].1),
            decreases self.entries@.len() - i,
        {
            let key = self.entries[i].0.clone();
            let value = self.entries[i].1.duplicate();
            entries.push((key, value));
            i = i + 1;
        }
        proof {
            assert(entry_keys(entries@) =~= entry_keys(self.entries@));
            assert forall|k: Seq<char>|
                entry_map(entries@).dom().contains(k) == self@.dom().contains(k) by {
                lemma_entry_map_dom(entries@, k);
                lemma_entry_map_dom(self.entries@, k);
            }
            assert(entry_map(entries@).dom() =~= self@.dom());
            assert forall|k: Seq<char>| #[trigger] self@.dom().contains(k) implies self@[k].says_same(
                entry_map(entries@)[k],
            ) by {
                lemma_entry_map_dom(self.entries@, k);
                let keys = entry_keys(self.entries@);
                let j = choose|j: int| 0 <= j < keys.len() && keys[j] == k;
                lemma_entry_map_value(self.entries@, j);
                lemma_entry_map_value(entries@, j);
            }
        }
        StringMap { entries }
    }
}

/// A set of texts in increasing order.
pub struct TextSet {
    members: StringMap<()>,
}

impl View for TextSet {
    type V = Set<Seq<char>>;

    closed spec fn view(&self) -> Set<Seq<char>> {
        self.members@.dom()
    }
}

impl TextSet {
    /// The empty set.
    pub fn new() -> (r: Self)
        ensures
            r@ == Set::<Seq<char>>::empty(),
    {
        TextSet { members: StringMap::new() }
    }

    /// Puts `member` into the set.
    pub fn insert(&mut self, member: String)
        ensures
            final(self)@ == old(self)@.insert(member@),
    {
        self.members.insert(member, ());
        assert(self@ =~= old(self)@.insert(member@));
    }

    /// Tells whether `member` is in the set.
    pub fn contains(&self, member: &str) -> (r: bool)
        ensures
            r == self@.contains(member@),
    {
        self.members.contains_key(member)
    }

    /// The members in increasing order.
    pub fn to_list(&self) -> (r: Vec<String>)
        ensures
            keys_sorted(text::texts(r@)),
            forall|k: Seq<char>| #[trigger] text::texts(r@).contains(k) <==> self@.contains(k),
    {
        self.members.keys()
    }
}

/// The order is that of a dictionary: the first character that differs decides,
/// and a text comes before every longer one that begins with it.
pub proof fn law_dictionary_order(
    common: Seq<char>,
    a: char,
    b: char,
    rest: Seq<char>,
    other: Seq<char>,
)
    ensures
        a < b ==> text_lt(common + seq![a] + rest, common + seq![b] + other),
        text_lt(common, common + seq![a] + rest),
    decreases common.len(),
{
    let x = common + seq![a] + rest;
    let y = common + seq![b] + other;
    if common.len() == 0 {
        assert(x[0] == a && y[0] == b);
    } else {
        let tail = common.skip(1);
        law_dictionary_order(tail, a, b, rest, other);
        assert(x[0] == common[0] && y[0] == common[0]);
        assert(x.skip(1) =~= tail + seq![a] + rest);
        assert(y.skip(1) =~= tail + seq![b] + other);
    }
}

} // verus!
