//! The tag block of a chat line: a map from tag names to values.
use vstd::prelude::*;

verus! {

/// The map that a sequence of key/value pairs describes when applied in order:
/// a later pair overrides an earlier one with the same key.
pub open spec fn tags_map(ps: Seq<(Seq<char>, Seq<char>)>) -> Map<Seq<char>, Seq<char>>
    decreases ps.len(),
{
    if ps.len() == 0 {
        Map::empty()
    } else {
        tags_map(ps.drop_last()).insert(ps.last().0, ps.last().1)
    }
}

/// The views of a sequence of string pairs.
pub open spec fn pair_views(es: Seq<(String, String)>) -> Seq<(Seq<char>, Seq<char>)> {
    es.map_values(|e: (String, String)| (e.0@, e.1@))
}

/// A pair whose key no later pair repeats gives the value stored under that key.
pub proof fn lemma_tags_map_last(ps: Seq<(Seq<char>, Seq<char>)>, i: int)
    requires
        0 <= i < ps.len(),
        forall|j: int| i < j < ps.len() ==> ps[j].0 != ps[i].0,
    ensures
        tags_map(ps).contains_key(ps[i].0),
        tags_map(ps)[ps[i].0] == ps[i].1,
    decreases ps.len(),
{
    if i < ps.len() - 1 {
        lemma_tags_map_last(ps.drop_last(), i);
    }
}

/// A key that no pair carries is absent from the map.
pub proof fn lemma_tags_map_absent(ps: Seq<(Seq<char>, Seq<char>)>, k: Seq<char>)
    requires
        forall|j: int| 0 <= j < ps.len() ==> ps[j].0 != k,
    ensures
        !tags_map(ps).contains_key(k),
    decreases ps.len(),
{
    if ps.len() > 0 {
        lemma_tags_map_absent(ps.drop_last(), k);
    }
}

/// Replacing the value of a pair whose key is unique is inserting into the map.
proof fn lemma_tags_map_update(ps: Seq<(Seq<char>, Seq<char>)>, i: int, v: Seq<char>)
    requires
        0 <= i < ps.len(),
        forall|j: int| 0 <= j < ps.len() && j != i ==> ps[j].0 != ps[i].0,
    ensures
        tags_map(ps.update(i, (ps[i].0, v))) == tags_map(ps).insert(ps[i].0, v),
    decreases ps.len(),
{
    let qs = ps.update(i, (ps[i].0, v));
    if i == ps.len() - 1 {
        assert(qs.drop_last() =~= ps.drop_last());
        assert(tags_map(qs) =~= tags_map(ps).insert(ps[i].0, v));
    } else {
        assert(qs.drop_last() =~= ps.drop_last().update(i, (ps[i].0, v)));
        lemma_tags_map_update(ps.drop_last(), i, v);
        assert(tags_map(qs) =~= tags_map(ps).insert(ps[i].0, v));
    }
}

/// The tags of a chat line. No two entries share a key. Two values compare equal
/// with `==` when they hold the same entries in the same order.
#[derive(Debug, Clone, PartialEq, Eq)]
pub struct Tags {
    entries: Vec<(String, String)>,
}

impl View for Tags {
    type V = Map<Seq<char>, Seq<char>>;

    closed spec fn view(&self) -> Map<Seq<char>, Seq<char>> {
        tags_map(pair_views(self.entries@))
    }
}

impl Tags {
    /// No two entries share a key.
    pub closed spec fn wf(&self) -> bool {
        forall|i: int, j: int|
            0 <= i < j < self.entries@.len() ==> self.entries@[i].0@ != self.entries@[j].0@
    }

    /// The entries, each key once, in the order in which their keys first came.
    pub closed spec fn spec_entries(&self) -> Seq<(String, String)> {
        self.entries@
    }

    /// No tags.
    pub fn new() -> (r: Tags)
        ensures
            r.wf(),
            r@ == Map::<Seq<char>, Seq<char>>::empty(),
            r.spec_entries().len() == 0,
    {
        let r = Tags { entries: Vec::new() };
        assert(pair_views(r.entries@) =~= Seq::empty());
        r
    }

    /// Sets `key` to `value`, replacing the value it had.
    pub fn insert(&mut self, key: String, value: String)
        requires
            old(self).wf(),
        ensures
            final(self).wf(),
            final(self)@ == old(self)@.insert(key@, value@),
    {
        let ghost ps = pair_views(self.entries@);
        let mut i: usize = 0;
        while i < self.entries.len()
            invariant
                i <= self.entries.len(),
                self.wf(),
                old(self)@ == tags_map(ps),
                ps == pair_views(self.entries@),
                forall|j: int| 0 <= j < i ==> self.entries@[j].0@ != key@,
            decreases self.entries.len() - i,
        {
            if self.entries[i].0 == key {
                let ghost qs = ps.update(i as int, (ps[i as int].0, value@));
                proof {
                    lemma_tags_map_update(ps, i as int, value@);
                }
                let k = self.entries[i].0.clone();
                self.entries.set(i, (k, value));
                assert(pair_views(self.entries@) =~= qs);
                assert(ps[i as int].0 == key@);
                return;
            }
            i = i + 1;
        }
        self.entries.push((key, value));
        assert(pair_views(self.entries@) =~= ps.push((key@, value@)));
        assert(pair_views(self.entries@).drop_last() =~= ps);
    }

    /// The value stored under `key`.
    pub fn get(&self, key: &str) -> (r: Option<&String>)
        requires
            self.wf(),
        ensures
            match r {
                Some(v) => self@.contains_key(key@) && self@[key@] == v@,
                None => !self@.contains_key(key@),
            },
    {
        let ghost ps = pair_views(self.entries@);
        let wanted = key.to_owned();
        let mut i: usize = 0;
        while i < self.entries.len()
            invariant
                i <= self.entries.len(),
                self.wf(),
                wanted@ == key@,
                ps == pair_views(self.entries@),
                forall|j: int| 0 <= j < i ==> self.entries@[j].0@ != key@,
            decreases self.entries.len() - i,
        {
            if self.entries[i].0 == wanted {
                proof {
                    lemma_tags_map_last(ps, i as int);
                }
                return Some(&self.entries[i].1);
            }
            i = i + 1;
        }
        proof {
            lemma_tags_map_absent(ps, key@);
        }
        None
    }

    /// How many keys hold a value.
    pub fn len(&self) -> (r: usize)
        ensures
            r == self.spec_entries().len(),
    {
        self.entries.len()
    }

    /// The entries, each key once.
    pub fn entries(&self) -> (r: &Vec<(String, String)>)
        ensures
            r@ == self.spec_entries(),
    {
        &self.entries
    }
}

} // verus!
