//! A map from strings to values that is walked in the order of its keys.
use crate::text::starts_with;
use vstd::prelude::*;
use vstd::utf8::*;

verus! {

/// `a` comes before `b` in the lexicographic order of bytes.
pub open spec fn bytes_lt(a: Seq<u8>, b: Seq<u8>) -> bool
    decreases a.len(),
{
    if b.len() == 0 {
        false
    } else if a.len() == 0 {
        true
    } else if a[0] != b[0] {
        a[0] < b[0]
    } else {
        bytes_lt(a.drop_first(), b.drop_first())
    }
}

/// `a` comes before `b` in the order of strings: lexicographic by their bytes.
pub open spec fn text_lt(a: Seq<char>, b: Seq<char>) -> bool {
    bytes_lt(encode_utf8(a), encode_utf8(b))
}

proof fn lemma_bytes_lt_irreflexive(a: Seq<u8>)
    ensures
        !bytes_lt(a, a),
    decreases a.len(),
{
    if a.len() > 0 {
        lemma_bytes_lt_irreflexive(a.drop_first());
    }
}

proof fn lemma_bytes_lt_transitive(a: Seq<u8>, b: Seq<u8>, c: Seq<u8>)
    requires
        bytes_lt(a, b),
        bytes_lt(b, c),
    ensures
        bytes_lt(a, c),
    decreases a.len(),
{
    if a.len() > 0 && a[0] == b[0] && b[0] == c[0] {
        lemma_bytes_lt_transitive(a.drop_first(), b.drop_first(), c.drop_first());
    }
}

proof fn lemma_bytes_lt_total(a: Seq<u8>, b: Seq<u8>)
    ensures
        bytes_lt(a, b) || a == b || bytes_lt(b, a),
    decreases a.len(),
{
    if a.len() > 0 && b.len() > 0 {
        if a[0] == b[0] {
            lemma_bytes_lt_total(a.drop_first(), b.drop_first());
            if a.drop_first() == b.drop_first() {
                assert(a =~= seq![a[0]] + a.drop_first());
                assert(b =~= seq![b[0]] + b.drop_first());
            }
        }
    } else if a.len() == 0 && b.len() == 0 {
        assert(a =~= b);
    }
}

/// The order of strings is a strict total order.
pub proof fn lemma_text_lt_order()
    ensures
        forall|a: Seq<char>| !#[trigger] text_lt(a, a),
        forall|a: Seq<char>, b: Seq<char>, c: Seq<char>|
            #[trigger] text_lt(a, b) && #[trigger] text_lt(b, c) ==> text_lt(a, c),
        forall|a: Seq<char>, b: Seq<char>|
            #![trigger text_lt(a, b)]
            text_lt(a, b) || a == b || text_lt(b, a),
{
    assert forall|a: Seq<char>| !#[trigger] text_lt(a, a) by {
        lemma_bytes_lt_irreflexive(encode_utf8(a));
    }
    assert forall|a: Seq<char>, b: Seq<char>, c: Seq<char>| #[trigger]
        text_lt(a, b) && #[trigger] text_lt(b, c) implies text_lt(a, c) by {
        lemma_bytes_lt_transitive(encode_utf8(a), encode_utf8(b), encode_utf8(c));
    }
    assert forall|a: Seq<char>, b: Seq<char>|
        #![trigger text_lt(a, b)]
        text_lt(a, b) || a == b || text_lt(b, a) by {
        lemma_bytes_lt_total(encode_utf8(a), encode_utf8(b));
        encode_utf8_decode_utf8(a);
        encode_utf8_decode_utf8(b);
    }
}

/// Whether `a` comes before `b` in the order of strings.
fn text_less(a: &str, b: &str) -> (r: bool)
    ensures
        r == text_lt(a@, b@),
{
    let x = a.as_bytes();
    let y = b.as_bytes();
    let mut i: usize = 0;
    assert(x@.skip(0) =~= x@);
    assert(y@.skip(0) =~= y@);
    while i < x.len() && i < y.len() && x[i] == y[i]
        invariant
            i <= x@.len(),
            i <= y@.len(),
            bytes_lt(x@, y@) == bytes_lt(x@.skip(i as int), y@.skip(i as int)),
        ensures
            i <= x@.len(),
            i <= y@.len(),
            bytes_lt(x@, y@) == bytes_lt(x@.skip(i as int), y@.skip(i as int)),
            i == x@.len() || i == y@.len() || x@[i as int] != y@[i as int],
        decreases x@.len() - i,
    {
        assert(x@.skip(i as int).drop_first() =~= x@.skip(i + 1));
        assert(y@.skip(i as int).drop_first() =~= y@.skip(i + 1));
        i = i + 1;
    }
    if i == y.len() {
        false
    } else if i == x.len() {
        true
    } else {
        x[i] < y[i]
    }
}

/// `keys` is in strictly increasing order.
pub open spec fn increasing(keys: Seq<Seq<char>>) -> bool {
    forall|i: int, j: int| 0 <= i < j < keys.len() ==> #[trigger] text_lt(keys[i], keys[j])
}

/// `keys` lists the members of `dom`, each once, in increasing order.
pub open spec fn lists(keys: Seq<Seq<char>>, dom: Set<Seq<char>>) -> bool {
    increasing(keys) && keys.to_set() == dom
}

/// The members of the finite set `dom` in increasing order.
pub open spec fn sorted_keys(dom: Set<Seq<char>>) -> Seq<Seq<char>> {
    choose|keys: Seq<Seq<char>>| lists(keys, dom)
}

/// A set of strings has one increasing listing at most.
pub proof fn lemma_lists_unique(a: Seq<Seq<char>>, b: Seq<Seq<char>>, dom: Set<Seq<char>>)
    requires
        lists(a, dom),
        lists(b, dom),
    ensures
        a == b,
    decreases a.len(),
{
    lemma_text_lt_order();
    if a.len() == 0 {
        if b.len() > 0 {
            assert(b.to_set().contains(b[0]));
            assert(a.to_set().contains(b[0]));
        }
        assert(a =~= b);
    } else {
        assert(a.to_set().contains(a[0]));
        assert(b.to_set().contains(a[0]));
        let i = choose|i: int| 0 <= i < b.len() && b[i] == a[0];
        assert(b.to_set().contains(b[0]));
        assert(a.to_set().contains(b[0]));
        let j = choose|j: int| 0 <= j < a.len() && a[j] == b[0];
        if i > 0 {
            assert(text_lt(b[0], b[i]));
            if j > 0 {
                assert(text_lt(a[0], a[j]));
            }
            assert(false);
        }
        let a1 = a.drop_first();
        let b1 = b.drop_first();
        let rest = dom.remove(a[0]);
        lemma_tail_lists(a, dom);
        lemma_tail_lists(b, dom);
        lemma_lists_unique(a1, b1, rest);
        assert(a =~= seq![a[0]] + a1);
        assert(b =~= seq![b[0]] + b1);
    }
}

proof fn lemma_tail_lists(a: Seq<Seq<char>>, dom: Set<Seq<char>>)
    requires
        lists(a, dom),
        a.len() > 0,
    ensures
        lists(a.drop_first(), dom.remove(a[0])),
{
    lemma_text_lt_order();
    let t = a.drop_first();
    assert forall|i: int, j: int| 0 <= i < j < t.len() implies #[trigger] text_lt(t[i], t[j]) by {
        assert(text_lt(a[i + 1], a[j + 1]));
    }
    assert forall|k: Seq<char>| t.to_set().contains(k) <==> dom.remove(a[0]).contains(k) by {
        if t.to_set().contains(k) {
            let i = choose|i: int| 0 <= i < t.len() && t[i] == k;
            assert(a[i + 1] == k);
            assert(a.to_set().contains(k));
            assert(text_lt(a[0], a[i + 1]));
        }
        if dom.remove(a[0]).contains(k) {
            assert(a.to_set().contains(k));
            let i = choose|i: int| 0 <= i < a.len() && a[i] == k;
            assert(t[i - 1] == k);
        }
    }
    assert(t.to_set() =~= dom.remove(a[0]));
}

/// An increasing listing of a set is the sorted one.
pub proof fn lemma_sorted_keys(keys: Seq<Seq<char>>, dom: Set<Seq<char>>)
    requires
        lists(keys, dom),
    ensures
        sorted_keys(dom) == keys,
{
    lemma_lists_unique(sorted_keys(dom), keys, dom);
}

/// A finite set of strings that is not empty has a greatest member.
proof fn lemma_greatest(dom: Set<Seq<char>>) -> (m: Seq<char>)
    requires
        dom.finite(),
        dom.len() > 0,
    ensures
        dom.contains(m),
        forall|k: Seq<char>| #[trigger] dom.contains(k) && k != m ==> text_lt(k, m),
    decreases dom.len(),
{
    lemma_text_lt_order();
    let a = dom.choose();
    let rest = dom.remove(a);
    if rest.len() == 0 {
        assert forall|k: Seq<char>| #[trigger] dom.contains(k) && k != a implies text_lt(k, a) by {
            assert(rest.contains(k));
        }
        a
    } else {
        let b = lemma_greatest(rest);
        let m = if text_lt(a, b) { b } else { a };
        assert forall|k: Seq<char>| #[trigger] dom.contains(k) && k != m implies text_lt(k, m) by {
            if k != a {
                assert(rest.contains(k));
            }
        }
        m
    }
}

/// Every finite set of strings can be listed in increasing order.
pub proof fn lemma_sorted_keys_exist(dom: Set<Seq<char>>)
    requires
        dom.finite(),
    ensures
        lists(sorted_keys(dom), dom),
    decreases dom.len(),
{
    if dom.len() == 0 {
        let keys = Seq::<Seq<char>>::empty();
        assert(keys.to_set() =~= dom);
        assert(lists(keys, dom));
    } else {
        let m = lemma_greatest(dom);
        let rest = dom.remove(m);
        lemma_sorted_keys_exist(rest);
        let init = sorted_keys(rest);
        let keys = init.push(m);
        assert forall|i: int, j: int| 0 <= i < j < keys.len() implies #[trigger] text_lt(
            keys[i],
            keys[j],
        ) by {
            if j == init.len() {
                assert(init.to_set().contains(init[i]));
                assert(dom.contains(keys[i]));
            } else {
                assert(text_lt(init[i], init[j]));
            }
        }
        assert(keys.to_set() =~= dom) by {
            assert forall|k: Seq<char>| dom.contains(k) implies keys.to_set().contains(k) by {
                if k == m {
                    assert(keys[init.len() as int] == m);
                } else {
                    assert(rest.contains(k));
                    assert(init.to_set().contains(k));
                    let i = choose|i: int| 0 <= i < init.len() && init[i] == k;
                    assert(keys[i] == k);
                }
            }
            assert forall|k: Seq<char>| keys.to_set().contains(k) implies dom.contains(k) by {
                let i = choose|i: int| 0 <= i < keys.len() && keys[i] == k;
                if i < init.len() {
                    assert(init[i] == k);
                    assert(init.to_set().contains(k));
                }
            }
        }
        assert(lists(keys, dom));
    }
}

/// A map from strings to values. It holds each key once and is walked in the
/// order of its keys.
#[derive(Debug, PartialEq)]
pub struct StringMap<V> {
    entries: Vec<(String, V)>,
}

/// The keys of a list of entries.
spec fn entry_keys<V>(entries: Seq<(String, V)>) -> Seq<Seq<char>> {
    Seq::new(entries.len(), |i: int| entries[i].0@)
}

/// The map that a list of entries stands for.
spec fn entry_map<V>(entries: Seq<(String, V)>) -> Map<Seq<char>, V>
    decreases entries.len(),
{
    if entries.len() == 0 {
        Map::empty()
    } else {
        entry_map(entries.drop_last()).insert(entries.last().0@, entries.last().1)
    }
}

proof fn lemma_entry_map<V>(entries: Seq<(String, V)>)
    requires
        increasing(entry_keys(entries)),
    ensures
        entry_map(entries).dom().finite(),
        entry_map(entries).dom() == entry_keys(entries).to_set(),
        entry_map(entries).len() == entries.len(),
        forall|i: int|
            #![trigger entries[i]]
            0 <= i < entries.len() ==> entry_map(entries).contains_key(entries[i].0@) && entry_map(
                entries,
            )[entries[i].0@] == entries[i].1,
    decreases entries.len(),
{
    lemma_text_lt_order();
    let keys = entry_keys(entries);
    if entries.len() == 0 {
        assert(keys.to_set() =~= Set::empty());
    } else {
        let init = entries.drop_last();
        let last = entries.last().0@;
        assert forall|i: int, j: int| 0 <= i < j < entry_keys(init).len() implies #[trigger] text_lt(
            entry_keys(init)[i],
            entry_keys(init)[j],
        ) by {
            assert(text_lt(keys[i], keys[j]));
        }
        lemma_entry_map(init);
        assert(!entry_keys(init).contains(last)) by {
            if entry_keys(init).contains(last) {
                let i = choose|i: int| 0 <= i < init.len() && entry_keys(init)[i] == last;
                assert(text_lt(keys[i], keys[entries.len() - 1]));
            }
        }
        assert(keys =~= entry_keys(init).push(last));
        assert forall|k: Seq<char>| keys.to_set().contains(k) <==> entry_keys(init).to_set().insert(
            last,
        ).contains(k) by {
            if keys.contains(k) {
                let i = choose|i: int| 0 <= i < keys.len() && keys[i] == k;
                if i < init.len() {
                    assert(entry_keys(init)[i] == k);
                }
            }
            if entry_keys(init).contains(k) {
                let i = choose|i: int| 0 <= i < init.len() && entry_keys(init)[i] == k;
                assert(keys[i] == k);
            }
            assert(keys[init.len() as int] == last);
        }
        assert(keys.to_set() =~= entry_keys(init).to_set().insert(last));
        assert(entry_map(entries).dom() =~= entry_map(init).dom().insert(last));
        assert forall|i: int|
            #![trigger entries[i]]
            0 <= i < entries.len() implies entry_map(entries).contains_key(entries[i].0@)
            && entry_map(entries)[entries[i].0@] == entries[i].1 by {
            if i < init.len() {
                assert(init[i] == entries[i]);
                assert(entry_keys(init)[i] == entries[i].0@);
                assert(entry_keys(init).contains(entries[i].0@));
            }
        }
    }
}

impl<V> View for StringMap<V> {
    type V = Map<Seq<char>, V>;

    closed spec fn view(&self) -> Map<Seq<char>, V> {
        entry_map(self.entries@)
    }
}

impl<V: DeepView> DeepView for StringMap<V> {
    type V = Map<Seq<char>, V::V>;

    open spec fn deep_view(&self) -> Map<Seq<char>, V::V> {
        self@.map_values(|v: V| v.deep_view())
    }
}

impl<V> StringMap<V> {
    #[verifier::type_invariant]
    spec fn in_order(self) -> bool {
        increasing(entry_keys(self.entries@))
    }

    /// The map without entries.
    pub fn new() -> (r: Self)
        ensures
            r@ == Map::<Seq<char>, V>::empty(),
    {
        StringMap { entries: Vec::new() }
    }

    /// The number of entries.
    pub fn len(&self) -> (r: usize)
        ensures
            self@.dom().finite(),
            r == self@.len(),
            r == sorted_keys(self@.dom()).len(),
    {
        proof {
            use_type_invariant(self);
            lemma_entry_map(self.entries@);
            lemma_sorted_keys(entry_keys(self.entries@), self@.dom());
        }
        self.entries.len()
    }

    /// Whether there is no entry.
    pub fn is_empty(&self) -> (r: bool)
        ensures
            r == (self@ == Map::<Seq<char>, V>::empty()),
    {
        proof {
            use_type_invariant(self);
            lemma_entry_map(self.entries@);
        }
        let r = self.entries.len() == 0;
        proof {
            if !r {
                assert(self@.contains_key(self.entries@[0].0@));
            }
        }
        r
    }

    /// The key in place `i` of the order.
    pub fn key_at(&self, i: usize) -> (r: &String)
        requires
            i < sorted_keys(self@.dom()).len(),
        ensures
            r@ == sorted_keys(self@.dom())[i as int],
            self@.contains_key(r@),
    {
        proof {
            use_type_invariant(self);
            lemma_entry_map(self.entries@);
            lemma_sorted_keys(entry_keys(self.entries@), self@.dom());
        }
        &self.entries[i].0
    }

    /// The value of the key in place `i` of the order.
    pub fn value_at(&self, i: usize) -> (r: &V)
        requires
            i < sorted_keys(self@.dom()).len(),
        ensures
            self@.contains_key(sorted_keys(self@.dom())[i as int]),
            *r == self@[sorted_keys(self@.dom())[i as int]],
    {
        proof {
            use_type_invariant(self);
            lemma_entry_map(self.entries@);
            lemma_sorted_keys(entry_keys(self.entries@), self@.dom());
        }
        &self.entries[i].1
    }

    /// How many keys come before `key`.
    fn place(&self, key: &str) -> (r: usize)
        ensures
            r <= self.entries@.len(),
            forall|i: int| 0 <= i < r ==> #[trigger] text_lt(self.entries@[i].0@, key@),
            forall|i: int|
                r <= i < self.entries@.len() ==> !#[trigger] text_lt(self.entries@[i].0@, key@),
    {
        proof {
            use_type_invariant(self);
            lemma_text_lt_order();
        }
        let mut r: usize = 0;
        while r < self.entries.len() && text_less(self.entries[r].0.as_str(), key)
            invariant
                r <= self.entries@.len(),
                forall|i: int| 0 <= i < r ==> #[trigger] text_lt(self.entries@[i].0@, key@),
            ensures
                r <= self.entries@.len(),
                forall|i: int| 0 <= i < r ==> #[trigger] text_lt(self.entries@[i].0@, key@),
                r < self.entries@.len() ==> !text_lt(self.entries@[r as int].0@, key@),
            decreases self.entries@.len() - r,
        {
            r = r + 1;
        }
        assert forall|i: int| r <= i < self.entries@.len() implies !#[trigger] text_lt(
            self.entries@[i].0@,
            key@,
        ) by {
            if r < i {
                let keys = entry_keys(self.entries@);
                assert(text_lt(keys[r as int], keys[i]));
                assert(text_lt(keys[r as int], key@) || !text_lt(keys[i], key@));
            }
        }
        r
    }

    /// The value of `key`, if the map holds that key.
    pub fn get(&self, key: &str) -> (r: Option<&V>)
        ensures
            r is Some <==> self@.contains_key(key@),
            r matches Some(v) ==> *v == self@[key@],
    {
        let p = self.place(key);
        proof {
            use_type_invariant(self);
            lemma_entry_map(self.entries@);
            lemma_text_lt_order();
        }
        if p < self.entries.len() && !text_less(key, self.entries[p].0.as_str()) {
            assert(!text_lt(self.entries@[p as int].0@, key@));
            Some(&self.entries[p].1)
        } else {
            proof {
                let keys = entry_keys(self.entries@);
                if keys.contains(key@) {
                    let i = choose|i: int| 0 <= i < keys.len() && keys[i] == key@;
                    if i < p {
                        assert(text_lt(self.entries@[i].0@, key@));
                    } else if i > p {
                        assert(text_lt(keys[p as int], keys[i]));
                        assert(!text_lt(self.entries@[p as int].0@, key@));
                    }
                    assert(false);
                }
            }
            None
        }
    }

    /// Whether the map holds `key`.
    pub fn contains_key(&self, key: &str) -> (r: bool)
        ensures
            r == self@.contains_key(key@),
    {
        self.get(key).is_some()
    }

    /// Gives `key` the value `value`, in place of the one it had.
    pub fn insert(&mut self, key: String, value: V)
        ensures
            final(self)@ == old(self)@.insert(key@, value),
    {
        let p = self.place(key.as_str());
        let ghost before = self.entries@;
        let ghost k = key@;
        proof {
            use_type_invariant(&*self);
            lemma_entry_map(before);
            lemma_text_lt_order();
        }
        let mut entries: Vec<(String, V)> = Vec::new();
        std::mem::swap(&mut entries, &mut self.entries);
        let held = p < entries.len() && !text_less(key.as_str(), entries[p].0.as_str());
        if held {
            assert(!text_lt(entries@[p as int].0@, k));
            entries.remove(p);
        }
        let ghost rest = entries@;
        entries.insert(p, (key, value));
        proof {
            let after = entries@;
            let keys = entry_keys(after);
            assert forall|i: int| 0 <= i < rest.len() implies (i < p ==> text_lt(
                #[trigger] rest[i].0@,
                k,
            )) && (i >= p ==> text_lt(k, rest[i].0@)) by {
                let old_keys = entry_keys(before);
                if i < p {
                    assert(rest[i] == before[i]);
                    assert(text_lt(before[i].0@, k));
                } else if held {
                    assert(rest[i] == before[i + 1]);
                    assert(text_lt(old_keys[p as int], old_keys[i + 1]));
                } else {
                    assert(rest[i] == before[i]);
                    assert(!text_lt(before[i].0@, k));
                    if i > p {
                        assert(text_lt(old_keys[p as int], old_keys[i]));
                    }
                    assert(!text_lt(before[p as int].0@, k));
                    assert(text_lt(k, before[p as int].0@));
                }
            }
            assert forall|i: int, j: int| 0 <= i < j < keys.len() implies #[trigger] text_lt(
                keys[i],
                keys[j],
            ) by {
                let oi = if i < p { i } else { i - 1 };
                let oj = if j < p { j } else { j - 1 };
                if i != p && j != p {
                    let old_keys = entry_keys(before);
                    assert(after[i] == rest[oi] && after[j] == rest[oj]);
                    let bi = if held && oi >= p { oi + 1 } else { oi };
                    let bj = if held && oj >= p { oj + 1 } else { oj };
                    assert(rest[oi] == before[bi] && rest[oj] == before[bj]);
                    assert(text_lt(old_keys[bi], old_keys[bj]));
                } else if i == p {
                    assert(after[j] == rest[oj]);
                    assert(text_lt(k, rest[oj].0@));
                } else {
                    assert(after[i] == rest[oi]);
                    assert(text_lt(rest[oi].0@, k));
                }
            }
            lemma_entry_map(after);
            let expected = entry_map(before).insert(k, value);
            assert forall|x: Seq<char>| entry_map(after).contains_key(x) <==> expected.contains_key(
                x,
            ) by {
                if keys.contains(x) {
                    let i = choose|i: int| 0 <= i < keys.len() && keys[i] == x;
                    if i != p {
                        let oi = if i < p { i } else { i - 1 };
                        let bi = if held && oi >= p { oi + 1 } else { oi };
                        assert(after[i] == rest[oi] && rest[oi] == before[bi]);
                        assert(entry_map(before).contains_key(before[bi].0@));
                    }
                }
                if entry_keys(before).contains(x) {
                    let b = choose|b: int| 0 <= b < before.len() && entry_keys(before)[b] == x;
                    if held && b == p {
                        assert(x == k);
                        assert(keys[p as int] == x);
                    } else {
                        let i = if b < p || held { b } else { b + 1 };
                        assert(after[i] == before[b]);
                        assert(keys[i] == x);
                    }
                }
                assert(keys[p as int] == k);
            }
            assert forall|x: Seq<char>| expected.contains_key(x) implies entry_map(after)[x]
                == expected[x] by {
                assert(keys.contains(x));
                let i = choose|i: int| 0 <= i < keys.len() && keys[i] == x;
                assert(entry_map(after)[after[i].0@] == after[i].1);
                if i != p {
                    let oi = if i < p { i } else { i - 1 };
                    let bi = if held && oi >= p { oi + 1 } else { oi };
                    assert(after[i] == rest[oi] && rest[oi] == before[bi]);
                    assert(entry_map(before)[before[bi].0@] == before[bi].1);
                    if x == k {
                        assert(text_lt(keys[i], keys[p as int]) || text_lt(keys[p as int], keys[i]));
                        assert(false);
                    }
                } else {
                    assert(after[i].1 == value);
                }
            }
            assert(entry_map(after) =~= expected);
        }
        self.entries = entries;
    }

    /// Drops every entry whose key begins with `prefix`.
    pub fn remove_prefix(&mut self, prefix: &str)
        ensures
            final(self)@ == old(self)@.restrict(
                Set::new(|key: Seq<char>| !prefix@.is_prefix_of(key)),
            ),
    {
        let ghost before = self.entries@;
        proof {
            use_type_invariant(&*self);
            lemma_entry_map(before);
            lemma_text_lt_order();
        }
        let mut entries: Vec<(String, V)> = Vec::new();
        std::mem::swap(&mut entries, &mut self.entries);
        let mut kept: Vec<(String, V)> = Vec::new();
        let ghost mut origin: Seq<int> = Seq::empty();
        for entry in it: entries
            invariant
                it.seq() == before,
                increasing(entry_keys(before)),
                origin.len() == kept@.len(),
                forall|i: int|
                    #![trigger origin[i]]
                    #![trigger kept@[i]]
                    0 <= i < kept@.len() ==> 0 <= origin[i] < it.index() && kept@[i]
                        == before[origin[i]] && !prefix@.is_prefix_of(kept@[i].0@),
                forall|i: int, j: int|
                    0 <= i < j < origin.len() ==> #[trigger] origin[i] < #[trigger] origin[j],
                forall|b: int|
                    0 <= b < it.index() && !prefix@.is_prefix_of(#[trigger] before[b].0@)
                        ==> origin.contains(b),
        {
            let ghost at = it.index() as int;
            let ghost earlier = origin;
            assert(entry == before[at]);
            if !starts_with(entry.0.as_str(), prefix) {
                kept.push(entry);
                proof {
                    origin = origin.push(at);
                    assert(origin[origin.len() - 1] == at);
                }
            }
            assert forall|b: int| 0 <= b < at + 1 && !prefix@.is_prefix_of(
                #[trigger] before[b].0@,
            ) implies origin.contains(b) by {
                if b < at {
                    assert(earlier.contains(b));
                    let i = choose|i: int| 0 <= i < earlier.len() && earlier[i] == b;
                    assert(origin[i] == b);
                }
            }
        }
        proof {
            let after = kept@;
            let keys = entry_keys(after);
            let old_keys = entry_keys(before);
            assert forall|i: int, j: int| 0 <= i < j < keys.len() implies #[trigger] text_lt(
                keys[i],
                keys[j],
            ) by {
                assert(origin[i] < origin[j]);
                assert(text_lt(old_keys[origin[i]], old_keys[origin[j]]));
            }
            lemma_entry_map(after);
            let expected = entry_map(before).restrict(
                Set::new(|key: Seq<char>| !prefix@.is_prefix_of(key)),
            );
            assert forall|x: Seq<char>| entry_map(after).contains_key(x) <==> expected.contains_key(
                x,
            ) by {
                if keys.contains(x) {
                    let i = choose|i: int| 0 <= i < keys.len() && keys[i] == x;
                    assert(entry_map(before).contains_key(before[origin[i]].0@));
                }
                if expected.contains_key(x) {
                    assert(old_keys.contains(x));
                    let b = choose|b: int| 0 <= b < before.len() && old_keys[b] == x;
                    assert(!prefix@.is_prefix_of(before[b].0@));
                    assert(origin.contains(b));
                    let i = choose|i: int| 0 <= i < origin.len() && origin[i] == b;
                    assert(kept@[i] == before[b]);
                    assert(keys[i] == x);
                }
            }
            assert forall|x: Seq<char>| expected.contains_key(x) implies entry_map(after)[x]
                == expected[x] by {
                assert(keys.contains(x));
                let i = choose|i: int| 0 <= i < keys.len() && keys[i] == x;
                assert(after[i] == before[origin[i]]);
                assert(entry_map(after)[after[i].0@] == after[i].1);
                assert(entry_map(before)[before[origin[i]].0@] == before[origin[i]].1);
            }
            assert(entry_map(after) =~= expected);
        }
        self.entries = kept;
    }
}

impl<V: Clone> Clone for StringMap<V> {
    fn clone(&self) -> (r: Self)
        ensures
            r@.dom() == self@.dom(),
            forall|k: Seq<char>| #[trigger] self@.contains_key(k) ==> cloned(self@[k], r@[k]),
    {
        proof {
            use_type_invariant(self);
            lemma_entry_map(self.entries@);
        }
        let mut entries: Vec<(String, V)> = Vec::new();
        for i in 0..self.entries.len()
            invariant
                entries@.len() == i,
                forall|j: int|
                    #![trigger entries@[j]]
                    0 <= j < i ==> entries@[j].0@ == self.entries@[j].0@ && cloned(
                        self.entries@[j].1,
                        entries@[j].1,
                    ),
        {
            entries.push((self.entries[i].0.clone(), self.entries[i].1.clone()));
        }
        proof {
            assert(entry_keys(entries@) =~= entry_keys(self.entries@));
            lemma_entry_map(entries@);
            assert forall|k: Seq<char>| #[trigger] self@.contains_key(k) implies cloned(
                self@[k],
                entry_map(entries@)[k],
            ) by {
                let keys = entry_keys(self.entries@);
                assert(keys.contains(k));
                let i = choose|i: int| 0 <= i < keys.len() && keys[i] == k;
                assert(self.entries@[i].0@ == k && entries@[i].0@ == k);
            }
        }
        StringMap { entries }
    }
}

impl<V> Default for StringMap<V> {
    fn default() -> (r: Self)
        ensures
            r@ == Map::<Seq<char>, V>::empty(),
    {
        StringMap::new()
    }
}

} // verus!
