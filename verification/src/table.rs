//! Name-keyed association tables, used for the label table and for the
//! literal table that the encoder builds.  Entries keep their insertion
//! order, which fixes the order in which the encoder lays literals out in
//! memory; a lookup finds the first entry with the given name.

use vstd::prelude::*;

use crate::text::str_eq;

verus! {

/// The entries of a name-keyed vector, with each name as its characters.
pub open spec fn assoc_view<V>(entries: Seq<(String, V)>) -> Seq<(Seq<char>, V)> {
    entries.map_values(|e: (String, V)| (e.0@, e.1))
}

/// The index of the first entry with the given name, if any.
pub open spec fn find_key<V>(entries: Seq<(Seq<char>, V)>, name: Seq<char>) -> Option<int>
    decreases entries.len(),
{
    if entries.len() == 0 {
        None
    } else if entries[0].0 == name {
        Some(0)
    } else {
        match find_key(entries.drop_first(), name) {
            Some(k) => Some(k + 1),
            None => None,
        }
    }
}

/// The value of the first entry with the given name, if any.
pub open spec fn assoc_lookup<V>(entries: Seq<(Seq<char>, V)>, name: Seq<char>) -> Option<V> {
    match find_key(entries, name) {
        Some(k) => Some(entries[k].1),
        None => None,
    }
}

/// What `find_key` finds: a valid index of an entry with the given name and
/// no earlier one, or nothing when no entry has the name.
pub proof fn lemma_find_key<V>(entries: Seq<(Seq<char>, V)>, name: Seq<char>)
    ensures
        match find_key(entries, name) {
            Some(k) => 0 <= k < entries.len() && entries[k].0 == name && (forall|j: int|
                0 <= j < k ==> entries[j].0 != name),
            None => forall|j: int| 0 <= j < entries.len() ==> entries[j].0 != name,
        },
    decreases entries.len(),
{
    if entries.len() > 0 && entries[0].0 != name {
        lemma_find_key(entries.drop_first(), name);
        assert forall|j: int| 1 <= j < entries.len() implies entries.drop_first()[j - 1]
            == entries[j] by {}
    }
}

/// A first match at `i` pins `find_key` to `i`.
pub(crate) proof fn lemma_find_key_at<V>(entries: Seq<(Seq<char>, V)>, name: Seq<char>, i: int)
    requires
        0 <= i < entries.len(),
        entries[i].0 == name,
        forall|j: int| 0 <= j < i ==> entries[j].0 != name,
    ensures
        find_key(entries, name) == Some(i),
{
    lemma_find_key(entries, name);
    match find_key(entries, name) {
        Some(k) => {
            if k < i {
            } else if k > i {
                assert(entries[i].0 != name);
            }
        },
        None => {
            assert(entries[i].0 != name);
        },
    }
}

/// Two entry sequences with the same names in the same places agree on
/// where a name is first found.
pub proof fn lemma_find_key_same_names<V, W>(
    a: Seq<(Seq<char>, V)>,
    b: Seq<(Seq<char>, W)>,
    name: Seq<char>,
)
    requires
        a.len() == b.len(),
        forall|j: int| 0 <= j < a.len() ==> a[j].0 == #[trigger] b[j].0,
    ensures
        find_key(a, name) == find_key(b, name),
    decreases a.len(),
{
    if a.len() > 0 {
        assert(a[0].0 == b[0].0);
        assert forall|j: int| 0 <= j < a.drop_first().len() implies a.drop_first()[j].0
            == #[trigger] b.drop_first()[j].0 by {
            assert(a.drop_first()[j] == a[j + 1]);
            assert(b.drop_first()[j] == b[j + 1]);
        }
        lemma_find_key_same_names(a.drop_first(), b.drop_first(), name);
    }
}

/// The index of the first entry whose name matches, as `find_key` gives it.
pub(crate) fn assoc_index<V>(entries: &Vec<(String, V)>, name: &str) -> (r: Option<usize>)
    ensures
        match r {
            Some(i) => i < entries@.len() && find_key(assoc_view(entries@), name@) == Some(
                i as int,
            ),
            None => find_key(assoc_view(entries@), name@) is None,
        },
{
    let ghost view = assoc_view(entries@);
    let mut i: usize = 0;
    while i < entries.len()
        invariant
            i <= entries@.len(),
            view == assoc_view(entries@),
            view.len() == entries@.len(),
            forall|j: int| 0 <= j < i ==> #[trigger] view[j].0 != name@,
        decreases entries@.len() - i,
    {
        if str_eq(entries[i].0.as_str(), name) {
            proof {
                lemma_find_key_at(view, name@, i as int);
            }
            return Some(i);
        }
        i = i + 1;
    }
    proof {
        lemma_find_key(view, name@);
    }
    None
}

/// The table that the encoder's literal-allocation pass builds: each name
/// (a label with a string literal, or a plugin opcode name) mapped to the
/// byte offset in memory where its bytes were placed.
#[derive(Debug, Clone, PartialEq)]
pub struct LiteralTable {
    pub entries: Vec<(String, usize)>,
}

impl View for LiteralTable {
    type V = Seq<(Seq<char>, usize)>;

    open spec fn view(&self) -> Seq<(Seq<char>, usize)> {
        assoc_view(self.entries@)
    }
}

impl LiteralTable {
    /// The byte offset recorded for a name, if any.
    pub open spec fn spec_get(self, name: Seq<char>) -> Option<usize> {
        assoc_lookup(self@, name)
    }

    /// Whether the table has an entry for the name.
    pub open spec fn spec_contains(self, name: Seq<char>) -> bool {
        self.spec_get(name) is Some
    }

    pub fn new() -> (r: LiteralTable)
        ensures
            r@ == Seq::<(Seq<char>, usize)>::empty(),
    {
        let r = LiteralTable { entries: Vec::new() };
        proof {
            assert(r@ =~= Seq::<(Seq<char>, usize)>::empty());
        }
        r
    }

    pub fn get(&self, name: &str) -> (r: Option<usize>)
        ensures
            r == self.spec_get(name@),
    {
        match assoc_index(&self.entries, name) {
            Some(i) => Some(self.entries[i].1),
            None => None,
        }
    }

    pub fn contains(&self, name: &str) -> (r: bool)
        ensures
            r == self.spec_contains(name@),
    {
        self.get(name).is_some()
    }

    /// Records a name at a byte offset.  The encoder checks `contains`
    /// before inserting, so a name is never recorded twice.
    pub fn insert(&mut self, name: String, address: usize)
        ensures
            final(self)@ == old(self)@.push((name@, address)),
    {
        let ghost before = self@;
        self.entries.push((name, address));
        proof {
            assert(self@ =~= before.push((self.entries@.last().0@, address)));
        }
    }
}

} // verus!
