//! A lookup table from Notion object ids to display titles, where a later
//! entry for an id replaces an earlier one.

use vstd::prelude::*;
use crate::text::str_eq;

verus! {

/// One id with its title.
pub struct TitleEntry {
    pub id: String,
    pub title: String,
}

/// Titles of Notion pages and databases, keyed by id.
pub struct TitleIndex {
    entries: Vec<TitleEntry>,
}

/// The table that a list of entries stands for: each entry sets its id,
/// later entries over earlier ones.
pub open spec fn entries_map(s: Seq<TitleEntry>) -> Map<Seq<char>, Seq<char>>
    decreases s.len(),
{
    if s.len() == 0 {
        Map::empty()
    } else {
        entries_map(s.drop_last()).insert(s.last().id@, s.last().title@)
    }
}

/// Entries after the first `n` do not touch `key`, so the first `n` decide it.
proof fn lemma_entries_map_prefix(s: Seq<TitleEntry>, key: Seq<char>, n: int)
    requires
        0 <= n <= s.len(),
        forall|j: int| n <= j < s.len() ==> (#[trigger] s[j]).id@ != key,
    ensures
        entries_map(s).contains_key(key) == entries_map(s.take(n)).contains_key(key),
        entries_map(s).contains_key(key) ==> entries_map(s)[key] == entries_map(s.take(n))[key],
    decreases s.len() - n,
{
    if n < s.len() {
        lemma_entries_map_prefix(s, key, n + 1);
        assert(s.take(n + 1).drop_last() =~= s.take(n));
        assert(s.take(n + 1).last() == s[n]);
    } else {
        assert(s.take(n) =~= s);
    }
}

impl View for TitleIndex {
    type V = Map<Seq<char>, Seq<char>>;

    closed spec fn view(&self) -> Map<Seq<char>, Seq<char>> {
        entries_map(self.entries@)
    }
}

impl TitleIndex {
    /// An empty table.
    pub fn new() -> (r: TitleIndex)
        ensures
            r@ == Map::<Seq<char>, Seq<char>>::empty(),
    {
        TitleIndex { entries: Vec::new() }
    }

    /// Sets the title of `id`, replacing any earlier one.
    pub fn insert(&mut self, id: String, title: String)
        ensures
            final(self)@ == old(self)@.insert(id@, title@),
    {
        let ghost before = self.entries@;
        self.entries.push(TitleEntry { id, title });
        assert(self.entries@.drop_last() =~= before);
    }

    /// The title of `id`, if the table has one.
    pub fn get(&self, id: &str) -> (r: Option<&String>)
        ensures
            r matches Some(t) ==> self@.contains_key(id@) && self@[id@] == t@,
            r is None ==> !self@.contains_key(id@),
    {
        let mut i: usize = self.entries.len();
        while i > 0
            invariant
                i <= self.entries@.len(),
                forall|j: int| i <= j < self.entries@.len() ==> (#[trigger] self.entries@[j]).id@
                    != id@,
            decreases i,
        {
            let k = i - 1;
            if str_eq(self.entries[k].id.as_str(), id) {
                proof {
                    let s = self.entries@;
                    lemma_entries_map_prefix(s, id@, i as int);
                    assert(s.take(i as int).drop_last() =~= s.take(k as int));
                    assert(s.take(i as int).last() == s[k as int]);
                }
                return Some(&self.entries[k].title);
            }
            i = k;
        }
        proof {
            lemma_entries_map_prefix(self.entries@, id@, 0);
            assert(self.entries@.take(0) =~= Seq::<TitleEntry>::empty());
        }
        None
    }
}

} // verus!
