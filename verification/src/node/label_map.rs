//! Maps from labels of peers.
use vstd::prelude::*;

use crate::node::label::NodeLabel;

verus! {

/// Whether one of the entries is for this label.
spec fn has_label<V>(entries: Seq<(NodeLabel, V)>, label: Seq<char>) -> bool {
    exists|i: int| 0 <= i < entries.len() && (#[trigger] entries[i]).0@ == label
}

/// The position of an entry for this label.
spec fn position_of<V>(entries: Seq<(NodeLabel, V)>, label: Seq<char>) -> int {
    choose|i: int| 0 <= i < entries.len() && (#[trigger] entries[i]).0@ == label
}

/// Whether no two entries are for the same label.
spec fn unique_labels<V>(entries: Seq<(NodeLabel, V)>) -> bool {
    forall|i: int, j: int| #![trigger entries[i], entries[j]]
        0 <= i < j < entries.len() ==> entries[i].0@ != entries[j].0@
}

/// The labels of the entries.
spec fn labels_of<V>(entries: Seq<(NodeLabel, V)>) -> Seq<Seq<char>> {
    Seq::new(entries.len(), |i: int| entries[i].0@)
}

/// The map that the entries make.
spec fn map_of<V>(entries: Seq<(NodeLabel, V)>) -> Map<Seq<char>, V> {
    Map::new(
        |label: Seq<char>| has_label(entries, label),
        |label: Seq<char>| entries[position_of(entries, label)].1,
    )
}

/// A map from labels to values.
pub struct LabelMap<V> {
    entries: Vec<(NodeLabel, V)>,
}

impl<V> View for LabelMap<V> {
    type V = Map<Seq<char>, V>;

    closed spec fn view(&self) -> Map<Seq<char>, V> {
        map_of(self.entries@)
    }
}

proof fn lemma_entry<V>(entries: Seq<(NodeLabel, V)>, i: int)
    requires
        unique_labels(entries),
        0 <= i < entries.len(),
    ensures
        map_of(entries).contains_key(entries[i].0@),
        map_of(entries)[entries[i].0@] == entries[i].1,
{
    let label = entries[i].0@;
    assert(has_label(entries, label));
    let k = position_of(entries, label);
    assert(0 <= k < entries.len() && entries[k].0@ == label);
    assert(k == i);
}

proof fn lemma_size<V>(entries: Seq<(NodeLabel, V)>)
    requires
        unique_labels(entries),
    ensures
        map_of(entries).dom().finite(),
        map_of(entries).dom().len() == entries.len(),
{
    let labels = labels_of(entries);
    assert(labels.no_duplicates());
    labels.unique_seq_to_set();
    vstd::seq_lib::seq_to_set_is_finite(labels);
    assert forall|label: Seq<char>| map_of(entries).dom().contains(label) <==> #[trigger]
        labels.to_set().contains(label) by {
        if has_label(entries, label) {
            let i = position_of(entries, label);
            assert(labels[i] == label);
        }
        if labels.contains(label) {
            let i = choose|i: int| 0 <= i < labels.len() && labels[i] == label;
            assert(entries[i].0@ == label);
        }
    }
    assert(map_of(entries).dom() =~= labels.to_set());
}

impl<V> LabelMap<V> {
    #[verifier::type_invariant]
    spec fn inv(self) -> bool {
        unique_labels(self.entries@)
    }

    /// A map without entries.
    pub fn new() -> (r: Self)
        ensures
            r@ == Map::<Seq<char>, V>::empty(),
    {
        let r = LabelMap { entries: Vec::new() };
        assert(r@ =~= Map::<Seq<char>, V>::empty());
        r
    }

    /// How many labels have a value.
    pub fn len(&self) -> (r: usize)
        ensures
            self@.dom().finite(),
            r == self@.dom().len(),
    {
        proof {
            use_type_invariant(self);
            lemma_size(self.entries@);
        }
        self.entries.len()
    }

    /// The value of a label.
    pub fn get(&self, label: &NodeLabel) -> (r: Option<&V>)
        ensures
            match r {
                Some(value) => self@.contains_key(label@) && *value == self@[label@],
                None => !self@.contains_key(label@),
            },
    {
        proof {
            use_type_invariant(self);
        }
        for i in 0..self.entries.len()
            invariant
                unique_labels(self.entries@),
                forall|k: int| 0 <= k < i ==> (#[trigger] self.entries@[k]).0@ != label@,
        {
            if self.entries[i].0 == *label {
                proof {
                    lemma_entry(self.entries@, i as int);
                }
                return Some(&self.entries[i].1);
            }
        }
        None
    }

    /// Gives a label a value, in place of the one that it had.
    pub fn insert(&mut self, label: NodeLabel, value: V)
        ensures
            final(self)@ == old(self)@.insert(label@, value),
    {
        proof {
            use_type_invariant(&*self);
        }
        let ghost before = self.entries@;
        let ghost text = label@;
        let mut entries: Vec<(NodeLabel, V)> = Vec::new();
        std::mem::swap(&mut entries, &mut self.entries);
        let mut i: usize = 0;
        while i < entries.len() && entries[i].0 != label
            invariant
                i <= entries@.len(),
                entries@ == before,
                text == label@,
                forall|k: int| 0 <= k < i ==> (#[trigger] before[k]).0@ != text,
            decreases entries@.len() - i,
        {
            i = i + 1;
        }
        if i < entries.len() {
            entries.set(i, (label, value));
        } else {
            entries.push((label, value));
        }
        proof {
            lemma_replaced(before, entries@, i as int, text, value);
        }
        self.entries = entries;
    }
}

proof fn lemma_replaced<V>(
    before: Seq<(NodeLabel, V)>,
    after: Seq<(NodeLabel, V)>,
    at: int,
    label: Seq<char>,
    value: V,
)
    requires
        unique_labels(before),
        0 <= at <= before.len(),
        at < before.len() ==> before[at].0@ == label,
        at == before.len() ==> !has_label(before, label),
        after.len() == if at < before.len() {
            before.len()
        } else {
            before.len() + 1
        },
        forall|i: int| 0 <= i < before.len() && i != at ==> after[i] == #[trigger] before[i],
        after[at].0@ == label,
        after[at].1 == value,
    ensures
        unique_labels(after),
        map_of(after) == map_of(before).insert(label, value),
{
    assert forall|i: int, j: int| #![trigger after[i], after[j]]
        0 <= i < j < after.len() implies after[i].0@ != after[j].0@ by {
        if i != at {
            assert(after[i] == before[i]);
        }
        if j != at {
            assert(after[j] == before[j]);
        }
        if at < before.len() {
            assert(before[i].0@ != before[j].0@);
        }
    }
    let expected = map_of(before).insert(label, value);
    assert forall|t: Seq<char>| map_of(after).dom().contains(t) <==> #[trigger]
        expected.dom().contains(t) by {
        if t == label {
            assert(has_label(after, t));
        } else {
            if has_label(after, t) {
                let i = position_of(after, t);
                assert(after[i] == before[i]);
            }
            if has_label(before, t) {
                let i = position_of(before, t);
                assert(after[i] == before[i]);
            }
        }
    }
    assert forall|t: Seq<char>| #[trigger] expected.dom().contains(t) implies map_of(after)[t]
        == expected[t] by {
        assert(map_of(after).contains_key(t));
        let i = position_of(after, t);
        lemma_entry(after, i);
        if t != label {
            assert(after[i] == before[i]);
            lemma_entry(before, i);
        } else {
            assert(after[at].0@ == t);
            lemma_entry(after, at);
        }
    }
    assert(map_of(after).dom() =~= expected.dom());
    assert(map_of(after) =~= expected);
}

} // verus!
