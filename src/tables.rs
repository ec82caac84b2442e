//! The two inputs of the preprocessor besides the source: the active feature
//! names and the table of shared modules that `#import` draws from.

use vstd::prelude::*;
use crate::text::chars_of;
use crate::text::same_chars;

verus! {

/// A set of feature names; names are case-sensitive.
pub struct FeatureSet {
    names: Vec<Vec<char>>,
}

impl View for FeatureSet {
    type V = Set<Seq<char>>;

    closed spec fn view(&self) -> Set<Seq<char>> {
        Set::new(|k: Seq<char>| exists|i: int| 0 <= i < self.names@.len() && self.names@[i]@ == k)
    }
}

impl FeatureSet {
    /// The empty set.
    pub fn new() -> (r: FeatureSet)
        ensures
            r@ == Set::<Seq<char>>::empty(),
    {
        let r = FeatureSet { names: Vec::new() };
        assert(r@ =~= Set::<Seq<char>>::empty());
        r
    }

    /// Adds `name` to the set.
    pub fn insert(&mut self, name: &str)
        ensures
            final(self)@ == old(self)@.insert(name@),
    {
        let c = chars_of(name);
        self.names.push(c);
        assert(final(self)@ =~= old(self)@.insert(name@)) by {
            assert(self.names@[self.names@.len() - 1]@ == name@);
            assert forall|k: Seq<char>| old(self)@.contains(k) implies final(self)@.contains(k) by {
                let i = choose|i: int| 0 <= i < old(self).names@.len() && old(self).names@[i]@ == k;
                assert(self.names@[i]@ == k);
            }
            assert forall|k: Seq<char>| final(self)@.contains(k) && k != name@ implies old(self)@.contains(k) by {
                let i = choose|i: int| 0 <= i < self.names@.len() && self.names@[i]@ == k;
                assert(old(self).names@[i]@ == k);
            }
        }
    }

    /// Whether `name` is in the set.
    pub fn contains(&self, name: &Vec<char>) -> (r: bool)
        ensures
            r == self@.contains(name@),
    {
        let mut i: usize = 0;
        while i < self.names.len()
            invariant
                i <= self.names@.len(),
                forall|j: int| 0 <= j < i ==> self.names@[j]@ != name@,
            decreases self.names@.len() - i,
        {
            if same_chars(&self.names[i], name) {
                return true;
            }
            i = i + 1;
        }
        false
    }
}

struct ImportEntry {
    name: Vec<char>,
    text: String,
}

/// The map that a list of entries stands for: a later entry for a name
/// overrides an earlier one.
closed spec fn map_of(s: Seq<ImportEntry>) -> Map<Seq<char>, Seq<char>>
    decreases s.len(),
{
    if s.len() == 0 {
        Map::empty()
    } else {
        map_of(s.drop_last()).insert(s.last().name@, s.last().text@)
    }
}

proof fn lemma_map_of_prefix(s: Seq<ImportEntry>, k: Seq<char>, i: int)
    requires
        0 <= i <= s.len(),
        forall|j: int| i <= j < s.len() ==> s[j].name@ != k,
    ensures
        map_of(s).contains_key(k) == map_of(s.take(i)).contains_key(k),
        map_of(s).contains_key(k) ==> map_of(s)[k] == map_of(s.take(i))[k],
    decreases s.len(),
{
    if s.len() > i {
        lemma_map_of_prefix(s.drop_last(), k, i);
        assert(s.drop_last().take(i) =~= s.take(i));
    } else {
        assert(s.take(i) =~= s);
    }
}

proof fn lemma_map_of_has(s: Seq<ImportEntry>, i: int)
    requires
        0 <= i < s.len(),
    ensures
        map_of(s).contains_key(s[i].name@),
    decreases s.len(),
{
    if i < s.len() - 1 {
        lemma_map_of_has(s.drop_last(), i);
    }
}

proof fn lemma_map_of_keys(s: Seq<ImportEntry>, k: Seq<char>)
    requires
        map_of(s).contains_key(k),
    ensures
        exists|i: int| 0 <= i < s.len() && s[i].name@ == k,
    decreases s.len(),
{
    if s.last().name@ != k {
        lemma_map_of_keys(s.drop_last(), k);
        let i = choose|i: int| 0 <= i < s.drop_last().len() && s.drop_last()[i].name@ == k;
        assert(s[i].name@ == k);
    }
}

/// Shared modules by name, each with the text that replaces an `#import`
/// of that name.
pub struct ImportTable {
    entries: Vec<ImportEntry>,
}

impl View for ImportTable {
    type V = Map<Seq<char>, Seq<char>>;

    closed spec fn view(&self) -> Map<Seq<char>, Seq<char>> {
        map_of(self.entries@)
    }
}

impl ImportTable {
    /// The number of entries, counting a name once for each time it was set.
    pub closed spec fn size(&self) -> nat {
        self.entries@.len()
    }

    pub(crate) fn len(&self) -> (r: usize)
        ensures
            r == self.size(),
    {
        self.entries.len()
    }

    /// The name that entry `i` sets.
    pub closed spec fn entry_name(&self, i: int) -> Seq<char> {
        self.entries@[i].name@
    }

    /// Every name in the table is set by some entry.
    pub proof fn lemma_key_listed(&self, k: Seq<char>)
        requires
            self@.contains_key(k),
        ensures
            exists|i: int| 0 <= i < self.size() && self.entry_name(i) == k,
    {
        lemma_map_of_keys(self.entries@, k);
        let i = choose|i: int| 0 <= i < self.entries@.len() && self.entries@[i].name@ == k;
        assert(self.entry_name(i) == k);
    }

    pub(crate) fn name_at(&self, i: usize) -> (r: &Vec<char>)
        requires
            i < self.size(),
        ensures
            self@.contains_key(r@),
            r@ == self.entry_name(i as int),
    {
        proof {
            lemma_map_of_has(self.entries@, i as int);
        }
        &self.entries[i].name
    }

    /// The empty table.
    pub fn new() -> (r: ImportTable)
        ensures
            r@ == Map::<Seq<char>, Seq<char>>::empty(),
    {
        ImportTable { entries: Vec::new() }
    }

    /// Sets the text of module `name`, replacing any earlier text for it.
    pub fn insert(&mut self, name: &str, text: &str)
        ensures
            final(self)@ == old(self)@.insert(name@, text@),
    {
        let e = ImportEntry { name: chars_of(name), text: String::from_str(text) };
        self.entries.push(e);
        assert(self.entries@.drop_last() =~= old(self).entries@);
    }

    pub(crate) fn insert_chars(&mut self, name: Vec<char>, text: String)
        ensures
            final(self)@ == old(self)@.insert(name@, text@),
    {
        let ghost n = name@;
        let ghost t = text@;
        self.entries.push(ImportEntry { name, text });
        assert(self.entries@.drop_last() =~= old(self).entries@);
    }

    /// The text of module `name`, if the table holds one.
    pub fn get(&self, name: &Vec<char>) -> (r: Option<&String>)
        ensures
            r is Some == self@.contains_key(name@),
            r is Some ==> r->0@ == self@[name@],
    {
        let mut i: usize = self.entries.len();
        while i > 0
            invariant
                i <= self.entries@.len(),
                forall|j: int| i <= j < self.entries@.len() ==> self.entries@[j].name@ != name@,
            decreases i,
        {
            if same_chars(&self.entries[i - 1].name, name) {
                proof {
                    lemma_map_of_prefix(self.entries@, name@, i as int);
                    assert(self.entries@.take(i as int).drop_last() =~= self.entries@.take(i - 1));
                }
                return Some(&self.entries[i - 1].text);
            }
            i = i - 1;
        }
        proof {
            lemma_map_of_prefix(self.entries@, name@, 0);
        }
        None
    }
}

} // verus!
