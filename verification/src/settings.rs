//! A small text-keyed map: the engines' settings.

use vstd::prelude::*;
use crate::text::string_of;

verus! {

/// Map from the entries, later entries overriding earlier ones.
pub open spec fn map_of(entries: Seq<(String, String)>) -> Map<Seq<char>, Seq<char>>
    decreases entries.len(),
{
    if entries.len() == 0 {
        Map::empty()
    } else {
        map_of(entries.drop_last()).insert(entries.last().0@, entries.last().1@)
    }
}

/// The entries whose key is not `k`, in order.
pub open spec fn without_key(entries: Seq<(String, String)>, k: Seq<char>) -> Seq<(String, String)>
    decreases entries.len(),
{
    if entries.len() == 0 {
        entries
    } else if entries.last().0@ == k {
        without_key(entries.drop_last(), k)
    } else {
        without_key(entries.drop_last(), k).push(entries.last())
    }
}

proof fn lemma_without_key(entries: Seq<(String, String)>, k: Seq<char>)
    ensures
        map_of(without_key(entries, k)) == map_of(entries).remove(k),
    decreases entries.len(),
{
    if entries.len() == 0 {
        assert(map_of(entries).remove(k) =~= Map::empty());
    } else {
        lemma_without_key(entries.drop_last(), k);
        let rest = without_key(entries.drop_last(), k);
        if entries.last().0@ == k {
            assert(map_of(entries).remove(k) =~= map_of(entries.drop_last()).remove(k));
        } else {
            assert(rest.push(entries.last()).drop_last() =~= rest);
            assert(map_of(entries).remove(k) =~= map_of(entries.drop_last()).remove(k).insert(
                entries.last().0@,
                entries.last().1@,
            ));
        }
    }
}

/// Settings: text keys to text values.
#[derive(Debug, Clone)]
pub struct Settings {
    entries: Vec<(String, String)>,
}

impl View for Settings {
    type V = Map<Seq<char>, Seq<char>>;

    closed spec fn view(&self) -> Map<Seq<char>, Seq<char>> {
        map_of(self.entries@)
    }
}

impl Settings {
    /// No settings.
    pub fn new() -> (r: Settings)
        ensures
            r@ == Map::<Seq<char>, Seq<char>>::empty(),
    {
        Settings { entries: Vec::new() }
    }

    /// Value of `key`, if set.
    pub fn get(&self, key: &str) -> (r: Option<String>)
        ensures
            match r {
                Some(v) => self@.contains_key(key@) && self@[key@] == v@,
                None => !self@.contains_key(key@),
            },
    {
        let k = string_of(key);
        let mut j: usize = self.entries.len();
        assert(self.entries@.take(j as int) =~= self.entries@);
        while j > 0
            invariant
                j <= self.entries@.len(),
                k@ == key@,
                forall|i: int|
                    j <= i < self.entries@.len() ==> #[trigger] self.entries@[i].0@ != key@,
                self@.contains_key(key@) == map_of(self.entries@.take(j as int)).contains_key(key@),
                self@.contains_key(key@) ==> self@[key@] == map_of(self.entries@.take(j as int))[key@],
            decreases j,
        {
            assert(self.entries@.take(j as int).drop_last() =~= self.entries@.take(j - 1));
            if self.entries[j - 1].0 == k {
                return Some(self.entries[j - 1].1.clone());
            }
            j = j - 1;
        }
        assert(self.entries@.take(0) =~= Seq::<(String, String)>::empty());
        None
    }

    /// Remove `key`.
    pub fn remove(&mut self, key: &str)
        ensures
            final(self)@ == old(self)@.remove(key@),
    {
        let k = string_of(key);
        let mut kept: Vec<(String, String)> = Vec::new();
        let mut i: usize = 0;
        while i < self.entries.len()
            invariant
                i <= self.entries@.len(),
                k@ == key@,
                kept@ == without_key(self.entries@.take(i as int), key@),
            decreases self.entries@.len() - i,
        {
            assert(self.entries@.take(i + 1).drop_last() =~= self.entries@.take(i as int));
            if self.entries[i].0 != k {
                let key_copy = self.entries[i].0.clone();
                let value_copy = self.entries[i].1.clone();
                kept.push((key_copy, value_copy));
            }
            i = i + 1;
        }
        assert(self.entries@.take(self.entries@.len() as int) =~= self.entries@);
        proof {
            lemma_without_key(self.entries@, key@);
        }
        self.entries = kept;
    }

    /// Set `key` to `value`.
    pub fn insert(&mut self, key: &str, value: &str)
        ensures
            final(self)@ == old(self)@.insert(key@, value@),
    {
        self.remove(key);
        let ghost before = self.entries@;
        self.entries.push((string_of(key), string_of(value)));
        assert(self.entries@.drop_last() =~= before);
        assert(self@ =~= old(self)@.remove(key@).insert(key@, value@));
    }
}

} // verus!
