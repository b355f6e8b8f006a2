//! The public identities of a user: a mapping from label to value.

use vstd::prelude::*;

verus! {

/// The mapping that a list of label/value entries amounts to when they are
/// entered one after the other: a later entry replaces an earlier one with
/// the same label.
pub open spec fn collect_entries(entries: Seq<(Seq<char>, Seq<char>)>) -> Map<
    Seq<char>,
    Seq<char>,
>
    decreases entries.len(),
{
    if entries.len() == 0 {
        Map::empty()
    } else {
        collect_entries(entries.drop_last()).insert(entries.last().0, entries.last().1)
    }
}

/// No label occurs twice in the list.
pub open spec fn distinct_labels(entries: Seq<(Seq<char>, Seq<char>)>) -> bool {
    forall|i: int, j: int| 0 <= i < j < entries.len() ==> entries[i].0 != entries[j].0
}

/// The entries of a stored list as pairs of character sequences.
pub open spec fn entry_views(stored: Seq<(String, String)>) -> Seq<(Seq<char>, Seq<char>)> {
    Seq::new(stored.len(), |i: int| (stored[i].0@, stored[i].1@))
}

/// A label is in the collected mapping exactly if some entry carries it.
pub proof fn lemma_collect_domain(entries: Seq<(Seq<char>, Seq<char>)>, label: Seq<char>)
    ensures
        collect_entries(entries).contains_key(label) <==> exists|i: int|
            0 <= i < entries.len() && entries[i].0 == label,
    decreases entries.len(),
{
    if entries.len() > 0 {
        let front = entries.drop_last();
        lemma_collect_domain(front, label);
        if collect_entries(entries).contains_key(label) {
            if entries.last().0 == label {
                assert(entries[entries.len() - 1].0 == label);
            } else {
                let i = choose|i: int| 0 <= i < front.len() && front[i].0 == label;
                assert(entries[i].0 == label);
            }
        }
        if exists|i: int| 0 <= i < entries.len() && entries[i].0 == label {
            let i = choose|i: int| 0 <= i < entries.len() && entries[i].0 == label;
            if i < front.len() {
                assert(front[i].0 == label);
            }
        }
    }
}

/// The collected mapping gives each label the value of the last entry that
/// carries it.
pub proof fn lemma_collect_last_wins(entries: Seq<(Seq<char>, Seq<char>)>, at: int)
    requires
        0 <= at < entries.len(),
        forall|j: int| at < j < entries.len() ==> entries[j].0 != entries[at].0,
    ensures
        collect_entries(entries).contains_key(entries[at].0),
        collect_entries(entries)[entries[at].0] == entries[at].1,
    decreases entries.len(),
{
    if at < entries.len() - 1 {
        let front = entries.drop_last();
        assert(front[at] == entries[at]);
        assert forall|j: int| at < j < front.len() implies front[j].0 != front[at].0 by {
            assert(front[j] == entries[j]);
        }
        lemma_collect_last_wins(front, at);
    }
}

/// Replacing the value of an entry in a list of distinct labels is an insert
/// into the collected mapping.
proof fn lemma_collect_update(entries: Seq<(Seq<char>, Seq<char>)>, at: int, value: Seq<char>)
    requires
        0 <= at < entries.len(),
        distinct_labels(entries),
    ensures
        collect_entries(entries.update(at, (entries[at].0, value))) == collect_entries(
            entries,
        ).insert(entries[at].0, value),
    decreases entries.len(),
{
    let label = entries[at].0;
    let changed = entries.update(at, (label, value));
    let front = entries.drop_last();
    if at == entries.len() - 1 {
        assert(changed.drop_last() == front);
        assert(collect_entries(changed) == collect_entries(entries).insert(label, value));
    } else {
        lemma_collect_update(front, at, value);
        assert(changed.drop_last() == front.update(at, (label, value)));
        assert(changed.last() == entries.last());
        assert(entries.last().0 != label);
        assert(collect_entries(changed) == collect_entries(entries).insert(label, value));
    }
}

/// With distinct labels the collected mapping has one key for each entry.
proof fn lemma_collect_len(entries: Seq<(Seq<char>, Seq<char>)>)
    requires
        distinct_labels(entries),
    ensures
        collect_entries(entries).dom().finite(),
        collect_entries(entries).dom().len() == entries.len(),
    decreases entries.len(),
{
    if entries.len() > 0 {
        let front = entries.drop_last();
        lemma_collect_len(front);
        lemma_collect_domain(front, entries.last().0);
        assert(!collect_entries(front).contains_key(entries.last().0));
    }
}

/// The identities of a user, each label held once.
#[derive(Debug)]
pub struct Identities {
    entries: Vec<(String, String)>,
}

impl View for Identities {
    type V = Map<Seq<char>, Seq<char>>;

    closed spec fn view(&self) -> Map<Seq<char>, Seq<char>> {
        collect_entries(entry_views(self.entries@))
    }
}

impl Identities {
    #[verifier::type_invariant]
    spec fn well_formed(self) -> bool {
        distinct_labels(entry_views(self.entries@))
    }

    /// A collection without entries.
    pub fn new() -> (ids: Identities)
        ensures
            ids@ == Map::<Seq<char>, Seq<char>>::empty(),
    {
        Identities { entries: Vec::new() }
    }

    /// Adds an identity, or replaces the value that the label had.
    pub fn insert(&mut self, label: String, value: String)
        ensures
            final(self)@ == old(self)@.insert(label@, value@),
    {
        proof {
            use_type_invariant(&*self);
        }
        let ghost before = entry_views(self.entries@);
        let mut at: usize = 0;
        while at < self.entries.len() && !(self.entries[at].0 == label)
            invariant
                at <= self.entries.len(),
                forall|j: int| 0 <= j < at ==> self.entries@[j].0@ != label@,
            decreases self.entries.len() - at,
        {
            at += 1;
        }
        let mut taken = Identities { entries: Vec::new() };
        core::mem::swap(self, &mut taken);
        let mut entries = taken.entries;
        if at < entries.len() {
            proof {
                lemma_collect_update(before, at as int, value@);
            }
            entries.set(at, (label, value));
            assert(entry_views(entries@) == before.update(at as int, (before[at as int].0, value@)));
        } else {
            entries.push((label, value));
            assert(entry_views(entries@) == before.push((label@, value@)));
            assert(before.push((label@, value@)).drop_last() == before);
            assert forall|i: int, j: int| 0 <= i < j < entries@.len() implies entry_views(
                entries@,
            )[i].0 != entry_views(entries@)[j].0 by {
                if j < before.len() {
                    assert(before[i].0 != before[j].0);
                }
            }
        }
        *self = Identities { entries };
    }

    /// The value entered for a label, if there is one.
    pub fn get(&self, label: &String) -> (found: Option<&String>)
        ensures
            match found {
                Some(value) => self@.contains_key(label@) && self@[label@] == value@,
                None => !self@.contains_key(label@),
            },
    {
        proof {
            use_type_invariant(self);
        }
        let ghost all = entry_views(self.entries@);
        let mut i: usize = 0;
        while i < self.entries.len()
            invariant
                i <= self.entries.len(),
                all == entry_views(self.entries@),
                distinct_labels(all),
                forall|j: int| 0 <= j < i ==> all[j].0 != label@,
            decreases self.entries.len() - i,
        {
            if self.entries[i].0 == *label {
                proof {
                    lemma_collect_last_wins(all, i as int);
                }
                return Some(&self.entries[i].1);
            }
            i += 1;
        }
        proof {
            lemma_collect_domain(all, label@);
        }
        None
    }

    /// The number of identities.
    pub fn len(&self) -> (n: usize)
        ensures
            self@.dom().finite(),
            n == self@.dom().len(),
    {
        proof {
            use_type_invariant(self);
            lemma_collect_len(entry_views(self.entries@));
        }
        self.entries.len()
    }

    /// The identities as a list of label/value pairs, each label once.
    pub fn to_pairs(&self) -> (pairs: Vec<(String, String)>)
        ensures
            distinct_labels(entry_views(pairs@)),
            collect_entries(entry_views(pairs@)) == self@,
    {
        proof {
            use_type_invariant(self);
        }
        let mut pairs: Vec<(String, String)> = Vec::new();
        let mut i: usize = 0;
        while i < self.entries.len()
            invariant
                i <= self.entries.len(),
                entry_views(pairs@) == entry_views(self.entries@).subrange(0, i as int),
            decreases self.entries.len() - i,
        {
            let ghost front = entry_views(pairs@);
            pairs.push((self.entries[i].0.clone(), self.entries[i].1.clone()));
            assert(entry_views(pairs@) =~= front.push(entry_views(self.entries@)[i as int]));
            i += 1;
            assert(entry_views(pairs@) =~= entry_views(self.entries@).subrange(0, i as int));
        }
        assert(entry_views(pairs@) == entry_views(self.entries@));
        pairs
    }
}

} // verus!
