//! The code pane's segment selector: the segments in order of their ids, and the
//! one shown.

use vstd::prelude::*;

use crate::ea::SegId;
use crate::ui::SegmentData;

verus! {

broadcast use vstd::seq_lib::group_to_multiset_ensures;

/// The segments are in order of their ids.
pub open spec fn sorted_by_id(s: Seq<SegmentData>) -> bool {
    forall|i: int, j: int| 0 <= i < j < s.len() ==> s[i].segid.0 <= s[j].segid.0
}

/// Whether a segment has the id `k`.
pub open spec fn has_id(k: u16) -> spec_fn(SegmentData) -> bool {
    |d: SegmentData| d.segid.0 == k
}

/// The segments with each id come in the same order in both sequences.
pub open spec fn same_order_per_id(a: Seq<SegmentData>, b: Seq<SegmentData>) -> bool {
    forall|k: u16| #[trigger] a.filter(has_id(k)) == b.filter(has_id(k))
}

proof fn lemma_filter_none(s: Seq<SegmentData>, pred: spec_fn(SegmentData) -> bool)
    requires
        forall|i: int| 0 <= i < s.len() ==> !pred(#[trigger] s[i]),
    ensures
        s.filter(pred) == Seq::<SegmentData>::empty(),
    decreases s.len(),
{
    reveal(Seq::filter);
    if s.len() > 0 {
        lemma_filter_none(s.drop_last(), pred);
        assert(!pred(s[s.len() - 1]));
    }
}

proof fn lemma_filter_push(s: Seq<SegmentData>, x: SegmentData, pred: spec_fn(SegmentData) -> bool)
    ensures
        s.push(x).filter(pred) == if pred(x) {
            s.filter(pred).push(x)
        } else {
            s.filter(pred)
        },
{
    reveal(Seq::filter);
    assert(s.push(x).drop_last() =~= s);
}

/// Inserting `x` after every element whose id is at most its own, and before the
/// others, puts it last among the elements with its id and changes nothing else
/// about the order of elements with the same id.
proof fn lemma_insert_keeps_id_order(before: Seq<SegmentData>, p: int, x: SegmentData, k: u16)
    requires
        0 <= p <= before.len(),
        forall|j: int| 0 <= j < p ==> (#[trigger] before[j]).segid.0 <= x.segid.0,
        forall|j: int| p <= j < before.len() ==> (#[trigger] before[j]).segid.0 > x.segid.0,
    ensures
        before.insert(p, x).filter(has_id(k)) == if x.segid.0 == k {
            before.filter(has_id(k)).push(x)
        } else {
            before.filter(has_id(k))
        },
{
    let pred = has_id(k);
    let a = before.take(p);
    let b = before.skip(p);
    assert(before.insert(p, x) =~= a + seq![x] + b);
    assert(before =~= a + b);
    Seq::filter_distributes_over_add(a + seq![x], b, pred);
    Seq::filter_distributes_over_add(a, seq![x], pred);
    Seq::filter_distributes_over_add(a, b, pred);
    lemma_filter_push(Seq::<SegmentData>::empty(), x, pred);
    assert(Seq::<SegmentData>::empty().push(x) =~= seq![x]);
    lemma_filter_none(Seq::<SegmentData>::empty(), pred);
    if x.segid.0 == k {
        assert forall|i: int| 0 <= i < b.len() implies !pred(#[trigger] b[i]) by {
            assert(b[i] == before[p + i]);
        }
        lemma_filter_none(b, pred);
        assert(a.filter(pred) + seq![x] + Seq::<SegmentData>::empty() =~= (a.filter(pred)
            + Seq::<SegmentData>::empty()).push(x));
        assert(a.filter(pred) + Seq::<SegmentData>::empty() =~= a.filter(pred));
    } else {
        assert(a.filter(pred) + Seq::<SegmentData>::empty() =~= a.filter(pred));
    }
}

/// A copy of a segment's data.
pub fn copy_segment(d: &SegmentData) -> (r: SegmentData)
    ensures
        r.segid == d.segid,
        r.name@ == d.name@,
        r.is_image == d.is_image,
{
    SegmentData { segid: d.segid, name: d.name.clone(), is_image: d.is_image }
}

/// The segments in order of their ids; segments with the same id keep their order.
pub fn sort_segments(all: Vec<SegmentData>) -> (r: Vec<SegmentData>)
    ensures
        sorted_by_id(r@),
        r@.to_multiset() == all@.to_multiset(),
        same_order_per_id(r@, all@),
{
    let ghost all0 = all@;
    let mut rest = all;
    let mut out: Vec<SegmentData> = Vec::new();
    let n = rest.len();
    let mut i: usize = 0;
    proof {
        assert(all0.take(0) =~= Seq::<SegmentData>::empty());
        assert(out@ =~= Seq::<SegmentData>::empty());
        assert forall|k: u16| #[trigger] out@.filter(has_id(k)) == all0.take(0).filter(has_id(k)) by {
            lemma_filter_none(Seq::<SegmentData>::empty(), has_id(k));
        }
    }
    while i < n
        invariant
            n == all0.len(),
            i <= n,
            rest@ == all0.skip(i as int),
            sorted_by_id(out@),
            out@.to_multiset() == all0.take(i as int).to_multiset(),
            same_order_per_id(out@, all0.take(i as int)),
        decreases n - i,
    {
        let x = rest.remove(0);
        assert(x == all0[i as int]);
        let key = x.segid.0;
        let mut p: usize = 0;
        while p < out.len() && out[p].segid.0 <= key
            invariant
                p <= out@.len(),
                sorted_by_id(out@),
                forall|j: int| 0 <= j < p ==> out@[j].segid.0 <= key,
            decreases out@.len() - p,
        {
            p = p + 1;
        }
        let ghost before = out@;
        out.insert(p, x);
        proof {
            assert(out@ == before.insert(p as int, x));
            assert forall|a: int, b: int| 0 <= a < b < out@.len() implies out@[a].segid.0 <= out@[b].segid.0 by {
                if p < before.len() {
                    assert(before[p as int].segid.0 > key);
                }
            }
            assert(all0.take(i as int + 1) =~= all0.take(i as int).push(all0[i as int]));
            vstd::seq_lib::to_multiset_insert(before, p as int, x);
            assert forall|j: int| p <= j < before.len() implies (#[trigger] before[j]).segid.0 > key by {
                assert(before[p as int].segid.0 > key);
            }
            assert forall|k: u16| #[trigger] out@.filter(has_id(k)) == all0.take(i as int + 1).filter(has_id(k)) by {
                lemma_insert_keeps_id_order(before, p as int, x, k);
                lemma_filter_push(all0.take(i as int), x, has_id(k));
            }
        }
        assert(rest@ =~= all0.skip(i as int + 1));
        i = i + 1;
    }
    assert(all0.take(n as int) =~= all0);
    out
}

/// The entries of the segment selector: all segments in order of their ids (as
/// [`sort_segments`] orders them), and a copy of the first one with the given id,
/// which must be among them.
#[verifier::loop_isolation(false)]
pub fn segment_choices(all: Vec<SegmentData>, current: SegId) -> (r: (Vec<SegmentData>, SegmentData))
    requires
        exists|k: int| 0 <= k < all@.len() && all@[k].segid == current,
    ensures
        sorted_by_id(r.0@),
        r.0@.to_multiset() == all@.to_multiset(),
        same_order_per_id(r.0@, all@),
        exists|k: int|
            #![trigger r.0@[k]]
            0 <= k < r.0@.len() && r.0@[k].segid == current && r.1.segid == current && r.1.name@
                == r.0@[k].name@ && r.1.is_image == r.0@[k].is_image && forall|j: int|
                0 <= j < k ==> r.0@[j].segid != current,
{
    let ghost k0 = choose|k: int| 0 <= k < all@.len() && all@[k].segid == current;
    let ghost all0 = all@;
    let sorted = sort_segments(all);
    proof {
        let x = all@[k0];
        assert(all@.to_multiset().count(x) > 0);
        assert(sorted@.to_multiset().count(x) > 0);
        assert(sorted@.contains(x));
    }
    let mut i: usize = 0;
    while i < sorted.len()
        invariant
            i <= sorted@.len(),
            sorted_by_id(sorted@),
            sorted@.to_multiset() == all0.to_multiset(),
            forall|j: int| 0 <= j < i ==> sorted@[j].segid != current,
            exists|k: int| 0 <= k < sorted@.len() && sorted@[k].segid == current,
        decreases sorted@.len() - i,
    {
        if sorted[i].segid == current {
            let this = copy_segment(&sorted[i]);
            let r = (sorted, this);
            assert(r.0@[i as int].segid == current);
            return r;
        }
        i = i + 1;
    }
    assert(false);
    let this = copy_segment(&sorted[0]);
    (sorted, this)
}

} // verus!
