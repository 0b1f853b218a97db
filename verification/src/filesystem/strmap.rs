use vstd::prelude::*;

verus! {

/// The map that a run of entries stands for: each entry binds its key to its
/// value, a later entry overriding an earlier one with the same key.
pub open spec fn entries_map<V>(entries: Seq<(String, V)>) -> Map<Seq<char>, V>
    decreases entries.len(),
{
    if entries.len() == 0 {
        Map::empty()
    } else {
        entries_map(entries.drop_last()).insert(entries.last().0@, entries.last().1)
    }
}

/// A map from strings (file ids, disk ids) to values, kept as the run of its
/// insertions; it stands for the map of `std::collections::HashMap` that the
/// service fills with `insert`.
#[derive(Debug)]
pub struct StrMap<V> {
    entries: Vec<(String, V)>,
}

impl<V> View for StrMap<V> {
    type V = Map<Seq<char>, V>;

    closed spec fn view(&self) -> Map<Seq<char>, V> {
        entries_map(self.entries@)
    }
}

/// Whether no entry after position `j` has key `k`.
pub open spec fn last_with_key<V>(entries: Seq<(String, V)>, j: int, k: Seq<char>) -> bool {
    &&& 0 <= j < entries.len()
    &&& entries[j].0@ == k
    &&& forall|i: int| j < i < entries.len() ==> (#[trigger] entries[i]).0@ != k
}

pub proof fn lemma_entries_map_absent<V>(entries: Seq<(String, V)>, k: Seq<char>)
    requires
        forall|i: int| 0 <= i < entries.len() ==> (#[trigger] entries[i]).0@ != k,
    ensures
        !entries_map(entries).contains_key(k),
    decreases entries.len(),
{
    if entries.len() > 0 {
        let e0 = entries.drop_last();
        assert forall|i: int| 0 <= i < e0.len() implies (#[trigger] e0[i]).0@ != k by {
            assert(e0[i] == entries[i]);
        }
        lemma_entries_map_absent(e0, k);
        assert(entries[entries.len() - 1] == entries.last());
    }
}

pub proof fn lemma_entries_map_last<V>(entries: Seq<(String, V)>, j: int, k: Seq<char>)
    requires
        last_with_key(entries, j, k),
    ensures
        entries_map(entries).contains_key(k),
        entries_map(entries)[k] == entries[j].1,
    decreases entries.len(),
{
    if j < entries.len() - 1 {
        let e0 = entries.drop_last();
        assert(entries[entries.len() - 1] == entries.last());
        assert forall|i: int| j < i < e0.len() implies (#[trigger] e0[i]).0@ != k by {
            assert(e0[i] == entries[i]);
        }
        assert(e0[j] == entries[j]);
        lemma_entries_map_last(e0, j, k);
    }
}

impl<V> StrMap<V> {
    pub fn new() -> (m: StrMap<V>)
        ensures
            m@ == Map::<Seq<char>, V>::empty(),
    {
        StrMap { entries: Vec::new() }
    }

    /// Binds `key` to `value`, replacing what `key` was bound to.
    pub fn insert(&mut self, key: String, value: V)
        ensures
            final(self)@ == old(self)@.insert(key@, value),
    {
        self.entries.push((key, value));
        assert(self.entries@.drop_last() =~= old(self).entries@);
    }

    /// Whether the map binds no key.
    pub fn is_empty(&self) -> (b: bool)
        ensures
            b == (self@.dom().len() == 0),
            b == (self@ == Map::<Seq<char>, V>::empty()),
    {
        proof {
            if self.entries@.len() > 0 {
                let s = self.entries@;
                assert(s[s.len() - 1] == s.last());
                assert(self@.contains_key(s.last().0@));
                assert(self@.dom().contains(s.last().0@));
                self.lemma_dom_finite();
                vstd::set_lib::lemma_set_empty_equivalency_len(self@.dom());
            } else {
                assert(self@.dom() =~= Set::<Seq<char>>::empty());
            }
        }
        self.entries.len() == 0
    }

    proof fn lemma_dom_finite(&self)
        ensures
            self@.dom().finite(),
    {
        lemma_entries_map_finite(self.entries@);
    }

    /// What `key` is bound to.
    pub fn get(&self, key: &str) -> (r: Option<&V>)
        ensures
            r is Some <==> self@.contains_key(key@),
            r matches Some(v) ==> *v == self@[key@],
    {
        let n = self.entries.len();
        let mut i: usize = n;
        while i > 0
            invariant
                i <= n,
                n == self.entries@.len(),
                forall|j: int| i <= j < n ==> (#[trigger] self.entries@[j]).0@ != key@,
            decreases i,
        {
            if str_equal(self.entries[i - 1].0.as_str(), key) {
                proof {
                    lemma_entries_map_last(self.entries@, i - 1, key@);
                }
                return Some(&self.entries[i - 1].1);
            }
            i = i - 1;
        }
        proof {
            lemma_entries_map_absent(self.entries@, key@);
        }
        None
    }

    /// The keys of the map, each once, in the order of their first
    /// insertion.
    pub fn keys(&self) -> (r: Vec<String>)
        ensures
            r@.map_values(|s: String| s@).to_set() == self@.dom(),
            r@.map_values(|s: String| s@).no_duplicates(),
    {
        proof {
            lemma_entries_map_dom(self.entries@);
        }
        let ghost keys = self.entries@.map_values(|e: (String, V)| e.0@);
        let mut ids: Vec<String> = Vec::new();
        let mut i: usize = 0;
        while i < self.entries.len()
            invariant
                i <= self.entries@.len(),
                keys == self.entries@.map_values(|e: (String, V)| e.0@),
                ids@.map_values(|s: String| s@).to_set() == keys.take(i as int).to_set(),
                ids@.map_values(|s: String| s@).no_duplicates(),
            decreases self.entries.len() - i,
        {
            let ghost before = ids@.map_values(|s: String| s@);
            let ghost k = self.entries@[i as int].0@;
            assert(keys.take(i + 1) =~= keys.take(i as int).push(k));
            if !contains_text(&ids, self.entries[i].0.as_str()) {
                ids.push(self.entries[i].0.clone());
                assert(ids@.map_values(|s: String| s@) =~= before.push(k));
                proof {
                    before.lemma_push_to_set_commute(k);
                    keys.take(i as int).lemma_push_to_set_commute(k);
                }
            } else {
                assert(keys.take(i + 1).to_set() =~= keys.take(i as int).to_set());
            }
            i = i + 1;
        }
        assert(keys.take(self.entries@.len() as int) =~= keys);
        ids
    }

    /// The run of insertions that the map stands for, in their order (a
    /// later binding of a key overriding an earlier one).
    pub fn into_entries(self) -> (r: Vec<(String, V)>)
        ensures
            entries_map(r@) == self@,
    {
        self.entries
    }
}

pub proof fn lemma_entries_map_finite<V>(entries: Seq<(String, V)>)
    ensures
        entries_map(entries).dom().finite(),
    decreases entries.len(),
{
    if entries.len() > 0 {
        lemma_entries_map_finite(entries.drop_last());
    }
}

/// The keys of a map are the keys of the run of entries it stands for.
pub proof fn lemma_entries_map_dom<V>(entries: Seq<(String, V)>)
    ensures
        entries_map(entries).dom() == entries.map_values(|e: (String, V)| e.0@).to_set(),
    decreases entries.len(),
{
    let keys = entries.map_values(|e: (String, V)| e.0@);
    if entries.len() == 0 {
        assert(keys.to_set() =~= Set::<Seq<char>>::empty());
    } else {
        let front = entries.drop_last();
        lemma_entries_map_dom(front);
        let front_keys = front.map_values(|e: (String, V)| e.0@);
        assert(keys =~= front_keys.push(entries.last().0@));
        assert forall|k: Seq<char>| keys.to_set().contains(k) <==> entries_map(entries).dom().contains(k) by {
            if keys.contains(k) {
                let i = choose|i: int| 0 <= i < keys.len() && keys[i] == k;
                if i < front_keys.len() {
                    assert(front_keys[i] == k);
                    assert(front_keys.to_set().contains(k));
                }
            }
            if front_keys.contains(k) {
                let i = choose|i: int| 0 <= i < front_keys.len() && front_keys[i] == k;
                assert(keys[i] == k);
            }
            if k == entries.last().0@ {
                assert(keys[keys.len() - 1] == k);
            }
        }
        assert(keys.to_set() =~= entries_map(entries).dom());
    }
}

/// Whether a list of texts holds `s`.
pub fn contains_text(v: &Vec<String>, s: &str) -> (b: bool)
    ensures
        b == v@.map_values(|x: String| x@).contains(s@),
{
    let ghost vs = v@.map_values(|x: String| x@);
    let mut i: usize = 0;
    while i < v.len()
        invariant
            i <= v@.len(),
            vs == v@.map_values(|x: String| x@),
            forall|j: int| 0 <= j < i ==> vs[j] != s@,
        decreases v.len() - i,
    {
        if str_equal(v[i].as_str(), s) {
            assert(vs[i as int] == s@);
            return true;
        }
        i = i + 1;
    }
    false
}

/// Whether two texts are equal.
pub fn str_equal(a: &str, b: &str) -> (r: bool)
    ensures
        r == (a@ == b@),
{
    let n = a.unicode_len();
    if n != b.unicode_len() {
        return false;
    }
    let mut i: usize = 0;
    while i < n
        invariant
            i <= n,
            n == a@.len(),
            n == b@.len(),
            forall|j: int| 0 <= j < i ==> a@[j] == b@[j],
        decreases n - i,
    {
        if a.get_char(i) != b.get_char(i) {
            return false;
        }
        i = i + 1;
    }
    assert(a@ =~= b@);
    true
}

} // verus!
