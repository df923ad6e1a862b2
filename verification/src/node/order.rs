//! Lists of labelled things in the order of their labels.
use vstd::prelude::*;

use crate::node::label::NodeLabel;

verus! {

use crate::text::lemma_text_antisymmetric;
use crate::text::lemma_text_reflexive;
use crate::text::lemma_text_total;
use crate::text::lemma_text_transitive;
use crate::text::text_le;

/// Whether the labels are in order.
pub open spec fn is_sorted<T>(s: Seq<(NodeLabel, T)>) -> bool {
    forall|i: int, j: int| #![trigger s[i], s[j]]
        0 <= i <= j < s.len() ==> text_le(s[i].0@, s[j].0@)
}

/// Those with this label.
pub open spec fn labelled<T>(label: Seq<char>) -> spec_fn((NodeLabel, T)) -> bool {
    |e: (NodeLabel, T)| e.0@ == label
}

/// Whether `sorted` holds what `s` holds in the order of the labels, where things with the same
/// label stay in the order in which they came.
pub open spec fn is_stable_sort<T>(s: Seq<(NodeLabel, T)>, sorted: Seq<(NodeLabel, T)>) -> bool {
    &&& is_sorted(sorted)
    &&& sorted.len() == s.len()
    &&& forall|label: Seq<char>|
        #![trigger sorted.filter(labelled(label))]
        #![trigger s.filter(labelled(label))]
        sorted.filter(labelled(label)) == s.filter(labelled(label))
}

/// Inserting one item into a sequence, filtered.
proof fn lemma_filter_insert<A>(s: Seq<A>, pos: int, x: A, pred: spec_fn(A) -> bool)
    requires
        0 <= pos <= s.len(),
    ensures
        s.insert(pos, x).filter(pred) == s.take(pos).filter(pred) + seq![x].filter(pred) + s.skip(
            pos,
        ).filter(pred),
        s.filter(pred) == s.take(pos).filter(pred) + s.skip(pos).filter(pred),
{
    assert(s.insert(pos, x) =~= s.take(pos) + seq![x] + s.skip(pos));
    assert(s =~= s.take(pos) + s.skip(pos));
    Seq::filter_distributes_over_add(s.take(pos) + seq![x], s.skip(pos), pred);
    Seq::filter_distributes_over_add(s.take(pos), seq![x], pred);
    Seq::filter_distributes_over_add(s.take(pos), s.skip(pos), pred);
}

proof fn lemma_filter_one<A>(x: A, pred: spec_fn(A) -> bool)
    ensures
        seq![x].filter(pred) == if pred(x) {
            seq![x]
        } else {
            Seq::<A>::empty()
        },
{
    reveal_with_fuel(Seq::filter, 2);
    assert(seq![x].drop_last() =~= Seq::<A>::empty());
    assert(seq![x].last() == x);
    assert(seq![x].filter(pred) =~= if pred(x) {
        seq![x]
    } else {
        Seq::<A>::empty()
    });
}

proof fn lemma_filter_none<A>(s: Seq<A>, pred: spec_fn(A) -> bool)
    requires
        forall|i: int| 0 <= i < s.len() ==> !pred(#[trigger] s[i]),
    ensures
        s.filter(pred) == Seq::<A>::empty(),
    decreases s.len(),
{
    reveal(Seq::filter);
    if s.len() > 0 {
        assert forall|i: int| 0 <= i < s.drop_last().len() implies !pred(
            #[trigger] s.drop_last()[i],
        ) by {
            assert(s.drop_last()[i] == s[i]);
        }
        lemma_filter_none(s.drop_last(), pred);
        assert(!pred(s[s.len() - 1]));
    }
}

/// Putting an item in front of a list and inserting it into the sorted list before everything
/// that is not less keep the one a stable sort of the other.
proof fn lemma_stable_insert<T>(
    s: Seq<(NodeLabel, T)>,
    sorted: Seq<(NodeLabel, T)>,
    pos: int,
    x: (NodeLabel, T),
)
    requires
        is_stable_sort(s, sorted),
        0 <= pos <= sorted.len(),
        forall|i: int| 0 <= i < pos ==> !text_le(x.0@, (#[trigger] sorted[i]).0@),
        pos < sorted.len() ==> text_le(x.0@, sorted[pos].0@),
    ensures
        is_stable_sort(seq![x] + s, sorted.insert(pos, x)),
{
    let out = sorted.insert(pos, x);
    assert forall|i: int, j: int| #![trigger out[i], out[j]]
        0 <= i <= j < out.len() implies text_le(out[i].0@, out[j].0@) by {
        lemma_text_reflexive(x.0@);
        if i == j {
            lemma_text_reflexive(out[i].0@);
        } else if i < pos && j == pos {
            lemma_text_total(x.0@, sorted[i].0@);
        } else if i == pos && j > pos {
            assert(out[j] == sorted[j - 1]);
            lemma_text_transitive(x.0@, sorted[pos].0@, sorted[j - 1].0@);
        } else if i < pos && j < pos {
            assert(out[i] == sorted[i] && out[j] == sorted[j]);
        } else if i < pos {
            assert(out[i] == sorted[i] && out[j] == sorted[j - 1]);
        } else {
            assert(out[i] == sorted[i - 1] && out[j] == sorted[j - 1]);
        }
    }
    assert forall|label: Seq<char>|
        #![trigger out.filter(labelled(label))]
        #![trigger (seq![x] + s).filter(labelled(label))]
        out.filter(labelled(label)) == (seq![x] + s).filter(labelled(label)) by {
        let pred = labelled::<T>(label);
        lemma_filter_insert(sorted, pos, x, pred);
        lemma_filter_one(x, pred);
        Seq::filter_distributes_over_add(seq![x], s, pred);
        assert(sorted.filter(pred) == s.filter(pred));
        let front = sorted.take(pos);
        if pred(x) {
            assert forall|i: int| 0 <= i < front.len() implies !pred(#[trigger] front[i]) by {
                assert(front[i] == sorted[i]);
                lemma_text_reflexive(x.0@);
            }
            lemma_filter_none(front, pred);
            assert(out.filter(pred) =~= seq![x] + s.filter(pred));
        } else {
            assert(out.filter(pred) =~= s.filter(pred));
            assert((seq![x] + s).filter(pred) =~= s.filter(pred));
        }
    }
}

/// Sorts a list by its labels. Things with the same label keep their order.
pub fn sort_by_label<T>(items: Vec<(NodeLabel, T)>) -> (r: Vec<(NodeLabel, T)>)
    ensures
        is_stable_sort(items@, r@),
{
    let ghost all = items@;
    let mut rest: Vec<(NodeLabel, T)> = items;
    let mut sorted: Vec<(NodeLabel, T)> = Vec::new();
    assert(all.skip(rest@.len() as int) =~= sorted@);
    while rest.len() > 0
        invariant
            rest@.len() <= all.len(),
            rest@ == all.take(rest@.len() as int),
            is_stable_sort(all.skip(rest@.len() as int), sorted@),
        decreases rest@.len(),
    {
        let ghost n = rest@.len() as int;
        let last: Option<(NodeLabel, T)> = rest.pop();
        if let Some(x) = last {
            let mut pos: usize = 0;
            while pos < sorted.len() && !x.0.no_later(&sorted[pos].0)
                invariant
                    pos <= sorted@.len(),
                    forall|i: int| 0 <= i < pos ==> !text_le(x.0@, (#[trigger] sorted@[i]).0@),
                decreases sorted@.len() - pos,
            {
                pos = pos + 1;
            }
            proof {
                lemma_stable_insert(all.skip(n), sorted@, pos as int, x);
                assert(x == all[n - 1]);
                assert(all.skip(n - 1) =~= seq![x] + all.skip(n));
                assert(rest@ =~= all.take(n - 1));
            }
            sorted.insert(pos, x);
        }
    }
    assert(all.skip(0) =~= all);
    sorted
}

/// The position of something with this label in a list that is in the order of its labels, `None`
/// where there is none.
pub fn find_label<T>(items: &Vec<(NodeLabel, T)>, label: &NodeLabel) -> (r: Option<usize>)
    requires
        is_sorted(items@),
    ensures
        match r {
            Some(i) => i < items@.len() && items@[i as int].0@ == label@,
            None => forall|i: int| 0 <= i < items@.len() ==> (#[trigger] items@[i]).0@ != label@,
        },
{
    let mut low: usize = 0;
    let mut high: usize = items.len();
    while low < high
        invariant
            low <= high <= items@.len(),
            is_sorted(items@),
            forall|i: int| 0 <= i < low ==> (#[trigger] items@[i]).0@ != label@,
            forall|i: int| high <= i < items@.len() ==> (#[trigger] items@[i]).0@ != label@,
        decreases high - low,
    {
        let mid: usize = low + (high - low) / 2;
        let at: &NodeLabel = &items[mid].0;
        let ghost m = items@[mid as int].0@;
        if *at == *label {
            return Some(mid);
        }
        if at.no_later(label) {
            assert forall|i: int| 0 <= i < mid + 1 implies (#[trigger] items@[i]).0@ != label@ by {
                assert(text_le(items@[i].0@, items@[mid as int].0@));
                if items@[i].0@ == label@ {
                    lemma_text_antisymmetric(label@, m);
                }
            }
            low = mid + 1;
        } else {
            assert forall|i: int| mid <= i < items@.len() implies (#[trigger] items@[i]).0@
                != label@ by {
                assert(text_le(items@[mid as int].0@, items@[i].0@));
            }
            high = mid;
        }
    }
    None
}

/// What a list holds of a label is in its stable sort as well, and nothing else is.
pub proof fn law_sorting_keeps_everything<T>(
    s: Seq<(NodeLabel, T)>,
    sorted: Seq<(NodeLabel, T)>,
    e: (NodeLabel, T),
)
    requires
        is_stable_sort(s, sorted),
    ensures
        s.contains(e) <==> sorted.contains(e),
{
    let pred = labelled::<T>(e.0@);
    assert(sorted.filter(pred) == s.filter(pred));
    lemma_filter_contains(s, pred, e);
    lemma_filter_contains(sorted, pred, e);
}

proof fn lemma_filter_contains<A>(s: Seq<A>, pred: spec_fn(A) -> bool, x: A)
    requires
        pred(x),
    ensures
        s.filter(pred).contains(x) <==> s.contains(x),
    decreases s.len(),
{
    reveal(Seq::filter);
    if s.len() > 0 {
        let front = s.drop_last();
        lemma_filter_contains(front, pred, x);
        assert(s =~= front.push(s.last()));
        if s.contains(x) && x != s.last() {
            let i = choose|i: int| 0 <= i < s.len() && s[i] == x;
            assert(front[i] == x);
        }
        if front.contains(x) {
            let i = choose|i: int| 0 <= i < front.len() && front[i] == x;
            assert(s[i] == x);
        }
        if pred(s.last()) {
            let f = front.filter(pred);
            assert(s.filter(pred) == f.push(s.last()));
            if f.contains(x) {
                let i = choose|i: int| 0 <= i < f.len() && f[i] == x;
                assert(f.push(s.last())[i] == x);
            }
            if x == s.last() {
                assert(f.push(s.last())[f.len() as int] == x);
                assert(s[s.len() - 1] == x);
            }
            if s.filter(pred).contains(x) && x != s.last() {
                let i = choose|i: int|
                    0 <= i < s.filter(pred).len() && s.filter(pred)[i] == x;
                assert(f[i] == x);
            }
        }
    }
}

/// A sorted list is in the order of its labels, has as many things as the list that it was made
/// from, each as often, and keeps things with the same label in the order in which they came.
pub proof fn law_sorting_is_stable_and_keeps_numbers<T>(
    s: Seq<(NodeLabel, T)>,
    sorted: Seq<(NodeLabel, T)>,
    label: Seq<char>,
)
    requires
        is_stable_sort(s, sorted),
    ensures
        forall|i: int, j: int| #![trigger sorted[i], sorted[j]]
            0 <= i <= j < sorted.len() ==> text_le(sorted[i].0@, sorted[j].0@),
        sorted.len() == s.len(),
        sorted.to_multiset() == s.to_multiset(),
        sorted.filter(|e: (NodeLabel, T)| e.0@ == label) == s.filter(
            |e: (NodeLabel, T)| e.0@ == label,
        ),
{
    assert forall|e: (NodeLabel, T)| #[trigger]
        sorted.to_multiset().count(e) == s.to_multiset().count(e) by {
        let pred = labelled::<T>(e.0@);
        assert(sorted.filter(pred) == s.filter(pred));
        lemma_filter_count(s, pred, e);
        lemma_filter_count(sorted, pred, e);
    }
    assert(sorted.to_multiset() =~= s.to_multiset());
    let pred = labelled::<T>(label);
    assert(sorted.filter(pred) == s.filter(pred));
    assert(pred =~= (|e: (NodeLabel, T)| e.0@ == label));
}

proof fn lemma_filter_count<A>(s: Seq<A>, pred: spec_fn(A) -> bool, x: A)
    requires
        pred(x),
    ensures
        s.filter(pred).to_multiset().count(x) == s.to_multiset().count(x),
    decreases s.len(),
{
    broadcast use vstd::seq_lib::group_to_multiset_ensures;

    reveal(Seq::filter);
    if s.len() > 0 {
        let front = s.drop_last();
        lemma_filter_count(front, pred, x);
        assert(s =~= front.push(s.last()));
    }
}

} // verus!
