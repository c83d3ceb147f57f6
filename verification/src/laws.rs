use vstd::prelude::*;
use crate::blob_item::{BlobItem, ObjectId};
use crate::cleaner::{apply_event_spec, empty_view, reset_spec, run_events, EngineView, ObjectEvent};
use crate::ranking::{key_seq, lemma_sorted_keys_wf, ranking_seq, sorted_keys};

verus! {

/// The sum of the raw byte lengths of the blob outcomes in `evs`, counting
/// every blob whether or not its typed read succeeded.
pub open spec fn blob_bytes_of(evs: Seq<(ObjectId, ObjectEvent)>) -> int
    decreases evs.len(),
{
    if evs.len() == 0 {
        0
    } else {
        (match evs[0].1 {
            ObjectEvent::BlobFound { raw_len, typed: _ } => raw_len as int,
            _ => 0,
        }) + blob_bytes_of(evs.drop_first())
    }
}

/// How many outcomes in `evs` failed a read: either the raw read or, for a
/// blob whose raw read succeeded, the typed read.
pub open spec fn unreadable_count_of(evs: Seq<(ObjectId, ObjectEvent)>) -> int
    decreases evs.len(),
{
    if evs.len() == 0 {
        0
    } else {
        (match evs[0].1 {
            ObjectEvent::Unreadable => 1int,
            ObjectEvent::BlobFound { raw_len: _, typed } => if typed is None {
                1int
            } else {
                0int
            },
            _ => 0int,
        }) + unreadable_count_of(evs.drop_first())
    }
}

/// How many outcomes in `evs` are blobs.
pub open spec fn blob_count_of(evs: Seq<(ObjectId, ObjectEvent)>) -> int
    decreases evs.len(),
{
    if evs.len() == 0 {
        0
    } else {
        (if evs[0].1 is BlobFound {
            1int
        } else {
            0int
        }) + blob_count_of(evs.drop_first())
    }
}

/// How many outcomes in `evs` are trees.
pub open spec fn tree_count_of(evs: Seq<(ObjectId, ObjectEvent)>) -> int
    decreases evs.len(),
{
    if evs.len() == 0 {
        0
    } else {
        (if evs[0].1 is TreeFound {
            1int
        } else {
            0int
        }) + tree_count_of(evs.drop_first())
    }
}

/// Folding a pass adds exactly the outcomes' accounting to the start state.
pub proof fn lemma_run_events_accounting(s: EngineView, evs: Seq<(ObjectId, ObjectEvent)>)
    ensures
        run_events(s, evs).blob_bytes == s.blob_bytes + blob_bytes_of(evs),
        run_events(s, evs).unreadable == s.unreadable + unreadable_count_of(evs),
        run_events(s, evs).blobs.len() == s.blobs.len() + blob_count_of(evs),
        run_events(s, evs).trees.len() == s.trees.len() + tree_count_of(evs),
    decreases evs.len(),
{
    if evs.len() == 0 {
    } else {
        lemma_run_events_accounting(apply_event_spec(s, evs[0].0, evs[0].1), evs.drop_first());
    }
}

/// A pass's total blob byte count equals the sum of the raw byte lengths of
/// every object classified as a blob — including blobs whose typed read
/// failed, which appear in no ranked record.
pub proof fn lemma_total_blob_bytes(evs: Seq<(ObjectId, ObjectEvent)>)
    ensures
        run_events(empty_view(), evs).blob_bytes == blob_bytes_of(evs),
        run_events(empty_view(), evs).blobs.len() == blob_count_of(evs),
{
    lemma_run_events_accounting(empty_view(), evs);
}

/// A pass's unreadable count equals the number of objects for which either
/// the raw read or the typed blob read failed.
pub proof fn lemma_unreadable_count(evs: Seq<(ObjectId, ObjectEvent)>)
    ensures
        run_events(empty_view(), evs).unreadable == unreadable_count_of(evs),
{
    lemma_run_events_accounting(empty_view(), evs);
}

/// The blob records a pass yields, in the order the store handed the blobs
/// back: exactly one record per blob whose typed read succeeded, carrying
/// that read's size and content class.
pub open spec fn records_of(evs: Seq<(ObjectId, ObjectEvent)>) -> Seq<BlobItem>
    decreases evs.len(),
{
    if evs.len() == 0 {
        Seq::empty()
    } else {
        (match evs[0].1 {
            ObjectEvent::BlobFound { raw_len: _, typed } => match typed {
                Some((size, format)) => seq![BlobItem { id: evs[0].0, size, format }],
                None => Seq::empty(),
            },
            _ => Seq::empty(),
        }) + records_of(evs.drop_first())
    }
}

proof fn lemma_run_events_records_from(s: EngineView, evs: Seq<(ObjectId, ObjectEvent)>)
    ensures
        run_events(s, evs).records == s.records + records_of(evs),
    decreases evs.len(),
{
    if evs.len() == 0 {
        assert(s.records + records_of(evs) =~= s.records);
    } else {
        let s1 = apply_event_spec(s, evs[0].0, evs[0].1);
        lemma_run_events_records_from(s1, evs.drop_first());
        assert(s1.records + records_of(evs.drop_first()) =~= s.records + records_of(evs));
    }
}

/// A pass ranks exactly the blobs whose typed read succeeded, each under the
/// size and content class that read reported, in the order the store handed
/// them back.
pub proof fn lemma_pass_records(evs: Seq<(ObjectId, ObjectEvent)>)
    ensures
        run_events(empty_view(), evs).records == records_of(evs),
{
    lemma_run_events_records_from(empty_view(), evs);
    assert(empty_view().records + records_of(evs) =~= records_of(evs));
}

/// A reset erases all trace of earlier passes: from any two prior states,
/// folding the same outcomes after a reset ends in the same state, hence
/// with the same statistics and the same ranking at every depth.
pub proof fn lemma_rerun_identical(
    s1: EngineView,
    s2: EngineView,
    evs: Seq<(ObjectId, ObjectEvent)>,
    k: int,
)
    ensures
        run_events(reset_spec(s1), evs) == run_events(reset_spec(s2), evs),
        ranking_seq(run_events(reset_spec(s1), evs).records, k) == ranking_seq(
            run_events(reset_spec(s2), evs).records,
            k,
        ),
{
}

/// Mapping two sequences with equal multisets through one function yields
/// sequences with equal multisets.
proof fn lemma_map_multiset<A, B>(x: Seq<A>, y: Seq<A>, f: spec_fn(A) -> B)
    requires
        x.to_multiset() == y.to_multiset(),
    ensures
        x.map_values(f).to_multiset() == y.map_values(f).to_multiset(),
    decreases x.len(),
{
    broadcast use vstd::seq_lib::group_to_multiset_ensures;
    broadcast use vstd::multiset::group_multiset_axioms;

    if x.len() == 0 {
        assert(x.to_multiset().len() == 0);
        assert(y.len() == 0);
        assert(x.map_values(f) =~= Seq::<B>::empty());
        assert(y.map_values(f) =~= Seq::<B>::empty());
    } else {
        let a = x.last();
        let x1 = x.drop_last();
        assert(x =~= x1.push(a));
        assert(x.to_multiset() =~= x1.push(a).to_multiset());
        assert(x.to_multiset().count(a) > 0);
        assert(y.to_multiset().count(a) > 0);
        assert(y.contains(a));
        let j = choose|j: int| 0 <= j < y.len() && y[j] == a;
        let y1 = y.remove(j);
        assert(y1.to_multiset() =~= y.to_multiset().remove(a));
        assert(x1.to_multiset() =~= x.to_multiset().remove(a));
        lemma_map_multiset(x1, y1, f);
        assert(x.map_values(f) =~= x1.map_values(f).push(f(a)));
        assert(y1.map_values(f) =~= y.map_values(f).remove(j));
        assert(x.map_values(f).to_multiset() =~= x1.map_values(f).to_multiset().insert(f(a)));
        assert(y.map_values(f)[j] == f(a));
        assert(y.map_values(f).remove(j).to_multiset() =~= y.map_values(f).to_multiset().remove(
            f(a),
        ));
        assert(y.map_values(f).to_multiset().count(f(a)) > 0);
        assert(y1.map_values(f).to_multiset().insert(f(a)) =~= y.map_values(f).to_multiset());
    }
}

/// Requesting at least as many entries as there are records yields them all:
/// the ranking is then a permutation of the whole record list, still in
/// descending size order.
pub proof fn lemma_ranking_complete(recs: Seq<BlobItem>, k: int)
    requires
        recs.len() <= k,
        recs.len() <= u64::MAX,
    ensures
        ranking_seq(recs, k).len() == recs.len(),
        ranking_seq(recs, k).to_multiset() == recs.to_multiset(),
{
    lemma_sorted_keys_wf(recs);
    let keys = sorted_keys(recs);
    let out = ranking_seq(recs, k);
    let f = |t: (u64, u64)| recs[t.1 as int];
    assert(out =~= keys.map_values(f).reverse());
    keys.map_values(f).lemma_reverse_to_multiset();
    assert(key_seq(recs).map_values(f) =~= recs);
    lemma_map_multiset(keys, key_seq(recs), f);
}

} // verus!
