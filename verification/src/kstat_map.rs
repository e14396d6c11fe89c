//! The decoded mapping from counter name to typed value.  Keys are unique;
//! inserting under an existing key overwrites the earlier value, so that a
//! record listing the same counter name twice keeps the later entry.

use vstd::prelude::*;

use crate::kstat_named::{KstatNamedData, ValueView};

verus! {

/// The mapping a list of (name, value) entries denotes; a later entry for
/// the same name overrides an earlier one.
pub open spec fn spec_entries_view(
    entries: Seq<(String, KstatNamedData)>,
) -> Map<Seq<char>, ValueView>
    decreases entries.len(),
{
    if entries.len() == 0 {
        Map::empty()
    } else {
        spec_entries_view(entries.drop_last()).insert(
            entries.last().0@,
            entries.last().1@,
        )
    }
}

/// A name is in the denoted mapping exactly when some entry carries it.
proof fn lemma_entries_contains(entries: Seq<(String, KstatNamedData)>, k: Seq<char>)
    ensures
        spec_entries_view(entries).contains_key(k) <==> exists|i: int|
            0 <= i < entries.len() && entries[i].0@ == k,
    decreases entries.len(),
{
    if entries.len() > 0 {
        lemma_entries_contains(entries.drop_last(), k);
        if entries.last().0@ == k {
            assert(entries[entries.len() - 1].0@ == k);
        } else if spec_entries_view(entries).contains_key(k) {
            let i = choose|i: int| 0 <= i < entries.drop_last().len()
                && entries.drop_last()[i].0@ == k;
            assert(entries[i].0@ == k);
        } else {
            assert(forall|i: int|
                0 <= i < entries.len() - 1 ==> entries.drop_last()[i] == entries[i]);
        }
    }
}

/// Entries have pairwise distinct names.
pub open spec fn spec_entries_unique(entries: Seq<(String, KstatNamedData)>) -> bool {
    forall|i: int, j: int|
        0 <= i < j < entries.len() ==> entries[i].0@ != entries[j].0@
}

/// With distinct names, the denoted mapping has one key per entry.
proof fn lemma_entries_dom_len(entries: Seq<(String, KstatNamedData)>)
    requires
        spec_entries_unique(entries),
    ensures
        spec_entries_view(entries).dom().finite(),
        spec_entries_view(entries).dom().len() == entries.len(),
    decreases entries.len(),
{
    if entries.len() > 0 {
        let prefix = entries.drop_last();
        assert(forall|i: int, j: int|
            0 <= i < j < prefix.len() ==> prefix[i].0@ != prefix[j].0@);
        lemma_entries_dom_len(prefix);
        lemma_entries_contains(prefix, entries.last().0@);
        assert(forall|i: int|
            0 <= i < prefix.len() ==> #[trigger] entries[i].0@ != entries[entries.len() - 1].0@);
        assert(!spec_entries_view(prefix).contains_key(entries.last().0@));
    }
}

/// Replacing the entry that already carries a name denotes the same mapping
/// as inserting under that name.
proof fn lemma_entries_update(
    entries: Seq<(String, KstatNamedData)>,
    j: int,
    p: (String, KstatNamedData),
)
    requires
        spec_entries_unique(entries),
        0 <= j < entries.len(),
        entries[j].0@ == p.0@,
    ensures
        spec_entries_view(entries.update(j, p)) == spec_entries_view(entries).insert(p.0@, p.1@),
    decreases entries.len(),
{
    let updated = entries.update(j, p);
    if j == entries.len() - 1 {
        assert(updated.drop_last() =~= entries.drop_last());
        assert(updated.last() == p);
        assert(spec_entries_view(entries.drop_last()).insert(p.0@, p.1@) =~= spec_entries_view(
            entries.drop_last(),
        ).insert(entries.last().0@, entries.last().1@).insert(p.0@, p.1@));
    } else {
        let prefix = entries.drop_last();
        assert(forall|a: int, b: int|
            0 <= a < b < prefix.len() ==> prefix[a].0@ != prefix[b].0@);
        lemma_entries_update(prefix, j, p);
        assert(updated.drop_last() =~= prefix.update(j, p));
        assert(updated.last() == entries.last());
        assert(entries.last().0@ != p.0@) by {
            assert(entries[j].0@ != entries[entries.len() - 1].0@);
        }
        assert(spec_entries_view(prefix).insert(p.0@, p.1@).insert(
            entries.last().0@,
            entries.last().1@,
        ) =~= spec_entries_view(prefix).insert(entries.last().0@, entries.last().1@).insert(
            p.0@,
            p.1@,
        ));
    }
}

/// The decoded mapping of one record: counter name to typed value.
#[derive(Debug)]
pub struct KstatMap {
    entries: Vec<(String, KstatNamedData)>,
}

impl View for KstatMap {
    type V = Map<Seq<char>, ValueView>;

    closed spec fn view(&self) -> Map<Seq<char>, ValueView> {
        spec_entries_view(self.entries@)
    }
}

impl KstatMap {
    /// The names the mapping holds are pairwise distinct.
    pub closed spec fn wf(&self) -> bool {
        spec_entries_unique(self.entries@)
    }

    /// An empty mapping.
    pub fn new() -> (r: KstatMap)
        ensures
            r@ == Map::<Seq<char>, ValueView>::empty(),
            r.wf(),
    {
        KstatMap { entries: Vec::new() }
    }

    /// How many counters the mapping holds.
    pub fn len(&self) -> (r: usize)
        requires
            self.wf(),
        ensures
            r == self@.dom().len(),
    {
        proof {
            lemma_entries_dom_len(self.entries@);
        }
        self.entries.len()
    }

    /// Inserts a (name, value) pair; a pair inserted later under the same
    /// name overwrites the earlier one.
    pub fn insert(&mut self, name: String, value: KstatNamedData)
        requires
            old(self).wf(),
        ensures
            final(self)@ == old(self)@.insert(name@, value@),
            final(self).wf(),
    {
        let n = self.entries.len();
        let mut i: usize = 0;
        while i < n
            invariant
                i <= n,
                n == self.entries@.len(),
                self.entries@ == old(self).entries@,
                spec_entries_unique(self.entries@),
                forall|j: int| 0 <= j < i ==> self.entries@[j].0@ != name@,
            decreases n - i,
        {
            if self.entries[i].0 == name {
                proof {
                    lemma_entries_update(self.entries@, i as int, (name, value));
                }
                self.entries.set(i, (name, value));
                return ;
            }
            i = i + 1;
        }
        proof {
            lemma_entries_contains(self.entries@, name@);
            assert(!spec_entries_view(self.entries@).contains_key(name@));
        }
        self.entries.push((name, value));
        proof {
            assert(self.entries@.drop_last() =~= old(self).entries@);
        }
    }

    /// The value stored under `name`, or `None` when the mapping does not
    /// hold that counter.
    pub fn get(&self, name: &String) -> (r: Option<&KstatNamedData>)
        ensures
            match r {
                Some(v) => self@.contains_key(name@) && v@ == self@[name@],
                None => !self@.contains_key(name@),
            },
    {
        let n = self.entries.len();
        let mut i: usize = n;
        proof {
            assert(self.entries@.take(n as int) =~= self.entries@);
        }
        while i > 0
            invariant
                i <= n,
                n == self.entries@.len(),
                spec_entries_view(self.entries@).contains_key(name@) == spec_entries_view(
                    self.entries@.take(i as int),
                ).contains_key(name@),
                spec_entries_view(self.entries@).contains_key(name@) ==> spec_entries_view(
                    self.entries@,
                )[name@] == spec_entries_view(self.entries@.take(i as int))[name@],
            decreases i,
        {
            i = i - 1;
            proof {
                assert(self.entries@.take(i + 1).drop_last() =~= self.entries@.take(i as int));
                assert(self.entries@.take(i + 1).last() == self.entries@[i as int]);
            }
            if self.entries[i].0 == *name {
                return Some(&self.entries[i].1);
            }
        }
        proof {
            assert(self.entries@.take(0) =~= Seq::<(String, KstatNamedData)>::empty());
        }
        None
    }
}

} // verus!
