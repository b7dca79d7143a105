//! The side collection that receives every key no field claims.

use vstd::prelude::*;
use crate::merge::DeserializeBestEffortTypes;

verus! {

/// What a sequence of insertions leaves in a map: a later entry for a key
/// replaces an earlier one.
pub open spec fn map_of(entries: Seq<(String, String)>) -> Map<Seq<char>, Seq<char>>
    decreases entries.len(),
{
    if entries.len() == 0 {
        Map::empty()
    } else {
        let last = entries.last();
        map_of(entries.drop_last()).insert(last.0@, last.1@)
    }
}

/// Entries after position `i` do not mention `key`, so the map's answer for
/// `key` is the one of the first `i` entries.
proof fn lemma_map_of_prefix(entries: Seq<(String, String)>, i: int, key: Seq<char>)
    requires
        0 <= i <= entries.len(),
        forall|j: int| i <= j < entries.len() ==> entries[j].0@ != key,
    ensures
        map_of(entries).contains_key(key) == map_of(entries.take(i)).contains_key(key),
        map_of(entries).contains_key(key) ==> map_of(entries)[key] == map_of(entries.take(i))[key],
    decreases entries.len(),
{
    if entries.len() == i {
        assert(entries.take(i) =~= entries);
    } else {
        let prev = entries.drop_last();
        assert(prev.take(i) =~= entries.take(i));
        lemma_map_of_prefix(prev, i, key);
    }
}

/// Keys that no field claimed, each with its last decoded value.
#[derive(Debug)]
pub struct UnknownBucket {
    entries: Vec<(String, String)>,
}

impl View for UnknownBucket {
    type V = Map<Seq<char>, Seq<char>>;

    closed spec fn view(&self) -> Map<Seq<char>, Seq<char>> {
        map_of(self.entries@)
    }
}

impl UnknownBucket {
    /// An empty bucket.
    pub fn new() -> (r: UnknownBucket)
        ensures
            r@ == Map::<Seq<char>, Seq<char>>::empty(),
    {
        UnknownBucket { entries: Vec::new() }
    }

    /// Whether no key has been captured.
    pub fn is_empty(&self) -> (r: bool)
        ensures
            r == (self@ == Map::<Seq<char>, Seq<char>>::empty()),
    {
        if self.entries.len() == 0 {
            true
        } else {
            let ghost last = self.entries@.last();
            assert(self@.contains_key(last.0@));
            false
        }
    }

    /// Records `value` under `key`, replacing what the key held.
    pub fn insert(&mut self, key: String, value: String)
        ensures
            final(self)@ == old(self)@.insert(key@, value@),
    {
        let ghost before = self.entries@;
        self.entries.push((key, value));
        assert(self.entries@.drop_last() =~= before);
    }

    /// The value held under `key`, if any.
    pub fn get(&self, key: &String) -> (r: Option<&String>)
        ensures
            r is Some == self@.contains_key(key@),
            r is Some ==> r.unwrap()@ == self@[key@],
    {
        let n = self.entries.len();
        let mut i: usize = n;
        while i > 0
            invariant
                i <= n,
                n == self.entries@.len(),
                forall|j: int| i <= j < n ==> self.entries@[j].0@ != key@,
            decreases i,
        {
            let e = &self.entries[i - 1];
            if e.0.eq(key) {
                proof {
                    lemma_map_of_prefix(self.entries@, i as int, key@);
                    let pre = self.entries@.take(i as int);
                    assert(pre.last() == self.entries@[i - 1]);
                    assert(map_of(pre) == map_of(pre.drop_last()).insert(pre.last().0@, pre.last().1@));
                    assert(map_of(pre).contains_key(key@));
                }
                return Some(&e.1);
            }
            i = i - 1;
        }
        proof {
            lemma_map_of_prefix(self.entries@, 0, key@);
            assert(self.entries@.take(0) =~= Seq::<(String, String)>::empty());
        }
        None
    }
}

/// Insert: the value is stored under the key it arrived with.
impl DeserializeBestEffortTypes<String> for UnknownBucket {
    open spec fn add_data_ensures(prev: UnknownBucket, key: Seq<char>, next_value: String, next: UnknownBucket) -> bool {
        next@ == prev@.insert(key, next_value@)
    }

    fn add_data(&mut self, key: &str, next_value: String) {
        self.insert(key.to_owned(), next_value);
    }
}

} // verus!
