//! A map with string keys, kept as a list of entries in insertion order.
use vstd::prelude::*;
use crate::text::string_is;
use crate::json::{JsonValue, JsonView, json_view, Float64Bits};

verus! {

impl DeepView for JsonValue {
    type V = JsonView;

    open spec fn deep_view(&self) -> JsonView {
        json_view(*self)
    }
}

impl DeepView for Float64Bits {
    type V = Float64Bits;

    open spec fn deep_view(&self) -> Float64Bits {
        *self
    }
}

/// A map from strings to values.  A key is bound to the value of its last
/// entry.
#[derive(Debug)]
pub struct StrMap<V> {
    pub entries: Vec<(String, V)>,
}

/// The map that a list of entries stands for: later entries win.
pub open spec fn entries_map<V: DeepView>(s: Seq<(String, V)>) -> Map<Seq<char>, V::V>
    decreases s.len(),
{
    if s.len() == 0 {
        Map::empty()
    } else {
        entries_map(s.drop_last()).insert(s.last().0@, s.last().1.deep_view())
    }
}

impl<V: DeepView> View for StrMap<V> {
    type V = Map<Seq<char>, V::V>;

    open spec fn view(&self) -> Map<Seq<char>, V::V> {
        entries_map(self.entries@)
    }
}

impl<V: DeepView> StrMap<V> {
    /// An empty map.
    pub fn new() -> (r: Self)
        ensures
            r@ == Map::<Seq<char>, V::V>::empty(),
    {
        StrMap { entries: Vec::new() }
    }

    /// Binds `key` to `value`.
    pub fn insert(&mut self, key: String, value: V)
        ensures
            final(self)@ == old(self)@.insert(key@, value.deep_view()),
    {
        let ghost k = key@;
        let ghost d = value.deep_view();
        self.entries.push((key, value));
        proof {
            assert(self.entries@.drop_last() =~= old(self).entries@);
        }
    }

    /// The value bound to `key`, if any.
    pub fn get(&self, key: &str) -> (r: Option<&V>)
        ensures
            match r {
                Some(v) => self@.contains_key(key@) && self@[key@] == v.deep_view(),
                None => !self@.contains_key(key@),
            },
    {
        let mut i = self.entries.len();
        assert(self.entries@.take(i as int) =~= self.entries@);
        while i > 0
            invariant
                i <= self.entries.len(),
                entries_map(self.entries@).contains_key(key@) == entries_map(self.entries@.take(i as int)).contains_key(key@),
                entries_map(self.entries@.take(i as int)).contains_key(key@) ==> entries_map(self.entries@)[key@] == entries_map(self.entries@.take(i as int))[key@],
            decreases i,
        {
            let ghost t = self.entries@.take(i as int);
            assert(t.drop_last() =~= self.entries@.take(i - 1));
            assert(t.last() == self.entries@[i - 1]);
            if string_is(&self.entries[i - 1].0, key) {
                return Some(&self.entries[i - 1].1);
            }
            i = i - 1;
        }
        proof {
            assert(self.entries@.take(0) =~= Seq::<(String, V)>::empty());
        }
        None
    }
}

/// Entry lists whose keys and values look alike stand for the same map.
pub proof fn lemma_entries_map_eq<V: DeepView>(s1: Seq<(String, V)>, s2: Seq<(String, V)>)
    requires
        s1.len() == s2.len(),
        forall|k: int| 0 <= k < s1.len() ==> #[trigger] s1[k].0@ == s2[k].0@ && s1[k].1.deep_view() == s2[k].1.deep_view(),
    ensures
        entries_map(s1) == entries_map(s2),
    decreases s1.len(),
{
    if s1.len() > 0 {
        let a = s1.drop_last();
        let b = s2.drop_last();
        assert forall|k: int| 0 <= k < a.len() implies #[trigger] a[k].0@ == b[k].0@ && a[k].1.deep_view() == b[k].1.deep_view() by {
            assert(a[k] == s1[k]);
            assert(b[k] == s2[k]);
        }
        lemma_entries_map_eq(a, b);
        assert(s1.last() == s1[s1.len() - 1]);
        assert(s2.last() == s2[s2.len() - 1]);
    }
}

/// A copy of a map of JSON values.
pub fn clone_json_map(m: &StrMap<JsonValue>) -> (r: StrMap<JsonValue>)
    ensures
        r@ == m@,
{
    let mut entries: Vec<(String, JsonValue)> = Vec::new();
    let mut i: usize = 0;
    while i < m.entries.len()
        invariant
            i <= m.entries.len(),
            entries@.len() == i,
            forall|k: int| 0 <= k < i ==> #[trigger] entries@[k].0@ == m.entries@[k].0@ && entries@[k].1.deep_view() == m.entries@[k].1.deep_view(),
        decreases m.entries.len() - i,
    {
        let v = crate::json::json_clone(&m.entries[i].1);
        entries.push((m.entries[i].0.clone(), v));
        i = i + 1;
    }
    proof {
        lemma_entries_map_eq(entries@, m.entries@);
    }
    StrMap { entries }
}

} // verus!
