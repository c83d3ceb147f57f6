use vstd::prelude::*;
use vstd::relations::{sorted_by, total_ordering};
use vstd::multiset::Multiset;
use crate::blob_item::BlobItem;

verus! {

// The ranking keeps blob records in descending size order. The ordered
// container comes from an outside crate; it holds plain `(size, index)`
// keys, where the index points back into the engine's record list and
// breaks ties between equal sizes. Distinct indices make the sorted key
// sequence unique, so the ranking a caller sees is a function of the
// records alone.

#[verifier::external_type_specification]
#[verifier::external_body]
#[verifier::reject_recursive_types(T)]
pub struct ExSortedVec<T: Ord>(sorted_vec::SortedVec<T>);

/// What the sorted container holds, as a multiset of its keys.
pub uninterp spec fn sv_model(v: sorted_vec::SortedVec<(u64, u64)>) -> Multiset<(u64, u64)>;

/// The (total) lexicographic order on ranking keys: by size first, then by
/// record index.
pub open spec fn key_le(a: (u64, u64), b: (u64, u64)) -> bool {
    a.0 < b.0 || (a.0 == b.0 && a.1 <= b.1)
}

/// `key_le` as a relation value, shared by every contract and lemma here.
pub open spec fn key_order() -> spec_fn((u64, u64), (u64, u64)) -> bool {
    |a: (u64, u64), b: (u64, u64)| key_le(a, b)
}

pub proof fn lemma_key_order_total()
    ensures
        total_ordering(key_order()),
{
}

/// Relies on sorted_vec::SortedVec::new: the new container is empty.
#[verifier::external_body]
pub(crate) fn sv_new() -> (r: sorted_vec::SortedVec<(u64, u64)>)
    ensures
        sv_model(r) == Multiset::<(u64, u64)>::empty(),
{
    sorted_vec::SortedVec::new()
}

/// Relies on sorted_vec::SortedVec::insert: places the key at its sorted
/// position and keeps every key already present.
#[verifier::external_body]
pub(crate) fn sv_insert(v: &mut sorted_vec::SortedVec<(u64, u64)>, key: (u64, u64))
    ensures
        sv_model(*final(v)) == sv_model(*old(v)).insert(key),
{
    v.insert(key);
}

/// Relies on sorted_vec::SortedVec::into_vec: hands back the inner vector,
/// which `insert` keeps sorted in ascending order; tuples of integers order
/// lexicographically.
#[verifier::external_body]
pub(crate) fn sv_into_vec(v: sorted_vec::SortedVec<(u64, u64)>) -> (r: Vec<(u64, u64)>)
    ensures
        r@.to_multiset() == sv_model(v),
        sorted_by(r@, key_order()),
{
    v.into_vec()
}

/// The ranking key of each record: its size paired with its index.
pub open spec fn key_seq(recs: Seq<BlobItem>) -> Seq<(u64, u64)> {
    recs.map(|i: int, r: BlobItem| (r.size, i as u64))
}

/// The records' ranking keys in ascending `key_order`.
pub open spec fn sorted_keys(recs: Seq<BlobItem>) -> Seq<(u64, u64)> {
    key_seq(recs).sort_by(key_order())
}

/// The first `k` records in descending size order (all of them if there are
/// fewer than `k`), ties between equal sizes broken by record index.
pub open spec fn ranking_seq(recs: Seq<BlobItem>, k: int) -> Seq<BlobItem> {
    let n = vstd::math::min(k, recs.len() as int);
    let keys = sorted_keys(recs);
    Seq::new(n as nat, |j: int| recs[keys[keys.len() - 1 - j].1 as int])
}

/// Every sorted key names a record: its index component is in range and its
/// size component is that record's size.
pub proof fn lemma_sorted_keys_wf(recs: Seq<BlobItem>)
    requires
        recs.len() <= u64::MAX,
    ensures
        sorted_keys(recs).len() == recs.len(),
        sorted_by(sorted_keys(recs), key_order()),
        sorted_keys(recs).to_multiset() == key_seq(recs).to_multiset(),
        forall|p: int|
            0 <= p < sorted_keys(recs).len() ==> (#[trigger] sorted_keys(recs)[p]).1
                < recs.len() && sorted_keys(recs)[p].0 == recs[sorted_keys(recs)[p].1 as int].size,
{
    lemma_key_order_total();
    key_seq(recs).lemma_sort_by_ensures(key_order());
    broadcast use vstd::seq_lib::group_to_multiset_ensures;

    assert(key_seq(recs).len() == recs.len());
    assert(sorted_keys(recs).to_multiset() =~= key_seq(recs).to_multiset());
    assert(sorted_keys(recs).len() == sorted_keys(recs).to_multiset().len());
    assert(key_seq(recs).len() == key_seq(recs).to_multiset().len());
    assert forall|p: int| 0 <= p < sorted_keys(recs).len() implies (
    #[trigger] sorted_keys(recs)[p]).1 < recs.len() && sorted_keys(recs)[p].0 == recs[sorted_keys(
        recs,
    )[p].1 as int].size by {
        let key = sorted_keys(recs)[p];
        assert(sorted_keys(recs).contains(key));
        assert(sorted_keys(recs).to_multiset().count(key) > 0);
        assert(key_seq(recs).contains(key));
        let i0 = choose|i0: int| 0 <= i0 < key_seq(recs).len() && key_seq(recs)[i0] == key;
        assert(key_seq(recs)[i0] == (recs[i0].size, i0 as u64));
    }
}

/// For every record list, the ranking holds min(k, number of records)
/// entries and its sizes never increase from one entry to the next.
pub proof fn lemma_ranking_sorted(recs: Seq<BlobItem>, k: int)
    requires
        0 <= k,
        recs.len() <= u64::MAX,
    ensures
        ranking_seq(recs, k).len() == vstd::math::min(k, recs.len() as int),
        forall|a: int, b: int|
            0 <= a <= b < ranking_seq(recs, k).len() ==> (#[trigger] ranking_seq(recs, k)[a]).size
                >= (#[trigger] ranking_seq(recs, k)[b]).size,
{
    lemma_sorted_keys_wf(recs);
    let keys = sorted_keys(recs);
    let out = ranking_seq(recs, k);
    assert forall|a: int, b: int| 0 <= a <= b < out.len() implies (#[trigger] out[a]).size >= (
    #[trigger] out[b]).size by {
        let pa = keys.len() - 1 - a;
        let pb = keys.len() - 1 - b;
        if a < b {
            assert(key_order()(keys[pb], keys[pa]));
            assert(key_le(keys[pb], keys[pa]));
        }
        assert(out[a] == recs[keys[pa].1 as int]);
        assert(out[b] == recs[keys[pb].1 as int]);
        assert(out[a].size == keys[pa].0);
        assert(out[b].size == keys[pb].0);
    }
}

} // verus!
