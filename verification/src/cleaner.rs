use vstd::prelude::*;
use vstd::multiset::Multiset;
use crate::blob_item::{BlobFormat, BlobItem, ObjectId};
use crate::errors::CleanerError;
use crate::ranking::{
    key_order, key_seq, lemma_key_order_total, lemma_ranking_sorted, lemma_sorted_keys_wf,
    ranking_seq, sorted_keys, sv_insert, sv_into_vec, sv_model, sv_new,
};
use crate::store::{
    human_size, human_size_of, odb_read_header, repo_find_blob, repo_object_ids, repo_open,
    blob_size, ObjectKind,
};

verus! {

/// What one pass over the store established about a single object.
///
/// The store decides which of these happens for each identifier; the engine
/// only folds the outcome into its state.
#[derive(Clone, Copy, Debug)]
pub enum ObjectEvent {
    /// The raw read failed: the object is counted as unreadable and skipped.
    Unreadable,
    /// A commit, tag or other uninteresting kind: discarded entirely.
    Skipped,
    /// A tree object: its identifier is retained, nothing is sized.
    TreeFound,
    /// A blob object: `raw_len` is the raw object's byte length, and `typed`
    /// is the typed read's outcome — the blob's size and content class, or
    /// `None` if the typed read failed even though the raw read succeeded.
    BlobFound { raw_len: u64, typed: Option<(u64, BlobFormat)> },
}

/// The mathematical state of one enumeration pass.
#[verifier::ext_equal]
pub struct EngineView {
    pub trees: Seq<ObjectId>,
    pub blobs: Seq<ObjectId>,
    pub records: Seq<BlobItem>,
    pub blob_bytes: int,
    pub unreadable: int,
}

/// The state every pass starts from.
pub open spec fn empty_view() -> EngineView {
    EngineView {
        trees: Seq::empty(),
        blobs: Seq::empty(),
        records: Seq::empty(),
        blob_bytes: 0,
        unreadable: 0,
    }
}

/// What a reset makes of any engine state: the empty state, whatever was
/// accumulated before.
pub open spec fn reset_spec(s: EngineView) -> EngineView {
    empty_view()
}

/// How one object's outcome changes the engine state.
///
/// A blob always contributes its identifier and raw byte length, whether or
/// not the typed read succeeded; only a successful typed read yields a
/// ranked record, and a failed one counts as unreadable instead.
pub open spec fn apply_event_spec(s: EngineView, id: ObjectId, ev: ObjectEvent) -> EngineView {
    match ev {
        ObjectEvent::Unreadable => EngineView { unreadable: s.unreadable + 1, ..s },
        ObjectEvent::Skipped => s,
        ObjectEvent::TreeFound => EngineView { trees: s.trees.push(id), ..s },
        ObjectEvent::BlobFound { raw_len, typed } => {
            let s1 = EngineView {
                blobs: s.blobs.push(id),
                blob_bytes: s.blob_bytes + raw_len,
                ..s
            };
            match typed {
                Some((size, format)) => EngineView {
                    records: s1.records.push(BlobItem { id, size, format }),
                    ..s1
                },
                None => EngineView { unreadable: s1.unreadable + 1, ..s1 },
            }
        },
    }
}

/// The state after folding a whole sequence of object outcomes.
pub open spec fn run_events(s: EngineView, evs: Seq<(ObjectId, ObjectEvent)>) -> EngineView
    decreases evs.len(),
{
    if evs.len() == 0 {
        s
    } else {
        run_events(apply_event_spec(s, evs[0].0, evs[0].1), evs.drop_first())
    }
}

pub proof fn lemma_run_events_push(
    s: EngineView,
    evs: Seq<(ObjectId, ObjectEvent)>,
    id: ObjectId,
    ev: ObjectEvent,
)
    ensures
        run_events(s, evs.push((id, ev))) == apply_event_spec(run_events(s, evs), id, ev),
    decreases evs.len(),
{
    let all = evs.push((id, ev));
    if evs.len() == 0 {
        assert(all.drop_first() =~= Seq::<(ObjectId, ObjectEvent)>::empty());
        assert(all[0] == (id, ev));
        assert(run_events(s, all) == run_events(apply_event_spec(s, id, ev), all.drop_first()));
        assert(run_events(s, all) == apply_event_spec(s, id, ev));
        assert(run_events(s, evs) == s);
    } else {
        assert(all.drop_first() =~= evs.drop_first().push((id, ev)));
        assert(all[0] == evs[0]);
        lemma_run_events_push(apply_event_spec(s, evs[0].0, evs[0].1), evs.drop_first(), id, ev);
        assert(run_events(s, all) == run_events(
            apply_event_spec(s, evs[0].0, evs[0].1),
            evs.drop_first().push((id, ev)),
        ));
        assert(run_events(s, evs) == run_events(
            apply_event_spec(s, evs[0].0, evs[0].1),
            evs.drop_first(),
        ));
    }
}

/// A read-only snapshot of the counters accumulated by one pass.
#[derive(Clone, Copy, Debug, PartialEq, Eq, Structural)]
pub struct AggregateStats {
    pub total_blob_count: usize,
    pub total_tree_count: usize,
    pub total_blob_bytes: u128,
    pub unreadable_count: usize,
}

/// The accumulating state of one enumeration pass: retained tree and blob
/// identifiers, the blob records available for ranking, the total blob byte
/// count, and the number of unreadable objects.
///
/// The state is instance-scoped: several engines can run in one process
/// without interference.
pub struct EngineState {
    trees: Vec<ObjectId>,
    blobs: Vec<ObjectId>,
    records: Vec<BlobItem>,
    blob_bytes: u128,
    unreadable: usize,
}

impl View for EngineState {
    type V = EngineView;

    closed spec fn view(&self) -> EngineView {
        EngineView {
            trees: self.trees@,
            blobs: self.blobs@,
            records: self.records@,
            blob_bytes: self.blob_bytes as int,
            unreadable: self.unreadable as int,
        }
    }
}

impl EngineState {
    /// An empty state, as at the start of a pass.
    pub fn new() -> (r: EngineState)
        ensures
            r@ == empty_view(),
    {
        let r = EngineState {
            trees: Vec::new(),
            blobs: Vec::new(),
            records: Vec::new(),
            blob_bytes: 0,
            unreadable: 0,
        };
        proof {
            assert(r@ =~= empty_view());
        }
        r
    }

    /// Clears everything accumulated so far; idempotent, and a no-op before
    /// the first pass.
    pub fn clear(&mut self)
        ensures
            final (self)@ == reset_spec(old(self)@),
            final (self)@ == empty_view(),
    {
        self.trees.clear();
        self.blobs.clear();
        self.records.clear();
        self.blob_bytes = 0;
        self.unreadable = 0;
        proof {
            assert(self@ =~= empty_view());
        }
    }

    /// Folds one object's outcome into the state.
    pub fn apply_event(&mut self, id: ObjectId, ev: ObjectEvent)
        requires
            (ev is Unreadable || ev matches ObjectEvent::BlobFound { raw_len: _, typed: None })
                ==> old(self)@.unreadable < usize::MAX,
            (ev matches ObjectEvent::BlobFound { raw_len, typed } ==> old(self)@.blob_bytes
                + raw_len <= u128::MAX),
        ensures
            final (self)@ == apply_event_spec(old(self)@, id, ev),
    {
        match ev {
            ObjectEvent::Unreadable => {
                self.unreadable = self.unreadable + 1;
            },
            ObjectEvent::Skipped => {},
            ObjectEvent::TreeFound => {
                self.trees.push(id);
            },
            ObjectEvent::BlobFound { raw_len, typed } => {
                self.blobs.push(id);
                self.blob_bytes = self.blob_bytes + raw_len as u128;
                match typed {
                    Some((size, format)) => {
                        self.records.push(BlobItem { id, size, format });
                    },
                    None => {
                        self.unreadable = self.unreadable + 1;
                    },
                }
            },
        }
        proof {
            assert(self@ =~= apply_event_spec(old(self)@, id, ev));
        }
    }

    /// The counters as they stand now; meaningful once a pass has completed.
    pub fn stats(&self) -> (r: AggregateStats)
        ensures
            r.total_blob_count == self@.blobs.len(),
            r.total_tree_count == self@.trees.len(),
            r.total_blob_bytes == self@.blob_bytes,
            r.unreadable_count == self@.unreadable,
    {
        AggregateStats {
            total_blob_count: self.blobs.len(),
            total_tree_count: self.trees.len(),
            total_blob_bytes: self.blob_bytes,
            unreadable_count: self.unreadable,
        }
    }

    /// The first `show` blob records in descending size order — all of them
    /// if fewer exist. Each call reads the records as they stand now.
    pub fn ranked(&self, show: usize) -> (r: Vec<BlobItem>)
        ensures
            r@ == ranking_seq(self@.records, show as int),
            r@.len() == vstd::math::min(show as int, self@.records.len() as int),
            forall|a: int, b: int|
                0 <= a <= b < r@.len() ==> (#[trigger] r@[a]).size >= (#[trigger] r@[b]).size,
    {
        let ghost recs = self.records@;
        let mut sv = sv_new();
        proof {
            broadcast use vstd::multiset::group_multiset_axioms;
            broadcast use vstd::seq_lib::group_to_multiset_ensures;

            assert(self.records.len() <= usize::MAX);
            assert(recs.len() <= u64::MAX);
            assert forall|x: (u64, u64)|
                key_seq(recs).take(0).to_multiset().count(x) == 0 by {
                assert(!key_seq(recs).take(0).contains(x));
            }
            assert(key_seq(recs).take(0).to_multiset() =~= Multiset::<(u64, u64)>::empty());
        }
        let mut i: usize = 0;
        while i < self.records.len()
            invariant
                0 <= i <= self.records.len(),
                self.records@ == recs,
                recs.len() <= u64::MAX,
                sv_model(sv) == key_seq(recs).take(i as int).to_multiset(),
            decreases self.records.len() - i,
        {
            let size: u64 = self.records[i].size;
            sv_insert(&mut sv, (size, i as u64));
            proof {
                broadcast use vstd::seq_lib::group_to_multiset_ensures;

                assert(key_seq(recs)[i as int] == (recs[i as int].size, i as u64));
                assert(key_seq(recs).take(i + 1) =~= key_seq(recs).take(i as int).push(
                    key_seq(recs)[i as int],
                ));
            }
            i = i + 1;
        }
        let rv = sv_into_vec(sv);
        proof {
            assert(key_seq(recs).take(recs.len() as int) =~= key_seq(recs));
            lemma_key_order_total();
            lemma_sorted_keys_wf(recs);
            vstd::seq_lib::lemma_sorted_unique(rv@, sorted_keys(recs), key_order());
            assert(rv@ =~= sorted_keys(recs));
        }
        let n: usize = if show < self.records.len() {
            show
        } else {
            self.records.len()
        };
        let ghost rseq = ranking_seq(recs, show as int);
        let mut out: Vec<BlobItem> = Vec::new();
        let mut j: usize = 0;
        while j < n
            invariant
                0 <= j <= n,
                n == vstd::math::min(show as int, recs.len() as int),
                self.records@ == recs,
                recs.len() <= u64::MAX,
                rv@ == sorted_keys(recs),
                rv@.len() == recs.len(),
                rseq == ranking_seq(recs, show as int),
                rseq.len() == n,
                out@ == rseq.take(j as int),
            decreases n - j,
        {
            proof {
                lemma_sorted_keys_wf(recs);
            }
            let key = rv[rv.len() - 1 - j];
            let idx = key.1 as usize;
            out.push(self.records[idx]);
            proof {
                assert(out@ =~= rseq.take(j + 1));
            }
            j = j + 1;
        }
        proof {
            lemma_ranking_sorted(recs, show as int);
            assert(rseq.take(n as int) =~= rseq);
        }
        out
    }

    /// The total blob byte count as human-readable text.
    pub fn size_text(&self) -> (r: String)
        ensures
            r@ == human_size_of(self@.blob_bytes as u128),
    {
        human_size(self.blob_bytes)
    }
}

/// The object ranking engine: a scoped handle to one repository's object
/// store together with the state of the current enumeration pass. The store
/// handle is released when the engine is dropped, on every exit path.
///
/// One full pass (`collect_info`) classifies every object in the store's
/// low-level object database; `largest_objects` then reports the biggest
/// blob records, and `stats` the aggregate counters. `clear` re-initializes
/// the state so the same store can be enumerated again.
pub struct Cleaner {
    repository: git2::Repository,
    state: EngineState,
}

impl View for Cleaner {
    type V = EngineView;

    closed spec fn view(&self) -> EngineView {
        self.state@
    }
}

impl Cleaner {
    /// Opens the object store at `root`. No report can come from a handle
    /// that was not successfully opened.
    pub fn new(root: &str) -> (r: Result<Cleaner, CleanerError>)
        ensures
            (r matches Ok(c) ==> c@ == empty_view()),
            (r matches Err(e) ==> e is GitError),
    {
        match repo_open(root) {
            Ok(repository) => Ok(Cleaner { repository, state: EngineState::new() }),
            Err(e) => Err(CleanerError::from(e)),
        }
    }

    /// Clears all accumulated state; idempotent, safe before the first pass
    /// and between repeated passes.
    pub fn clear(&mut self)
        ensures
            final (self)@ == reset_spec(old(self)@),
            final (self)@ == empty_view(),
    {
        self.state.clear();
    }

    /// Performs exactly one full pass over every object identifier in the
    /// store's object database, reachable or not. The pass owns the engine
    /// exclusively: no other use of the handle can run concurrently. For each identifier the
    /// raw object is read once; on failure the object only counts as
    /// unreadable and the pass goes on. Blobs get a second, typed read for
    /// content classification; if that fails, the blob still contributes its
    /// raw byte length but yields no ranked record and counts as unreadable.
    ///
    /// The final state is the fold of the outcomes the store handed back,
    /// starting from the empty state.
    pub fn collect_info(&mut self) -> (r: Result<(), CleanerError>)
        ensures
            exists|evs: Seq<(ObjectId, ObjectEvent)>|
                final (self)@ == run_events(empty_view(), evs),
            (r matches Err(e) ==> e is GitError),
    {
        self.state.clear();
        let ids = match repo_object_ids(&self.repository) {
            Ok(ids) => ids,
            Err(e) => {
                proof {
                    let evs0 = Seq::<(ObjectId, ObjectEvent)>::empty();
                    assert(run_events(empty_view(), evs0) == self@);
                }
                return Err(CleanerError::from(e));
            },
        };
        let ghost mut evs: Seq<(ObjectId, ObjectEvent)> = Seq::empty();
        let mut i: usize = 0;
        while i < ids.len()
            invariant
                0 <= i <= ids.len(),
                evs.len() == i,
                self@ == run_events(empty_view(), evs),
                self@.unreadable <= i,
                self@.blob_bytes <= (i as int) * (u64::MAX as int),
            decreases ids.len() - i,
        {
            let id = ids[i];
            let ev: ObjectEvent = match odb_read_header(&self.repository, &id) {
                Err(_) => ObjectEvent::Unreadable,
                Ok((kind, raw_len)) => match kind {
                    ObjectKind::Tree => ObjectEvent::TreeFound,
                    ObjectKind::Blob => {
                        let typed = match repo_find_blob(&self.repository, &id) {
                            Ok(blob) => Some(
                                (blob_size(&blob), BlobFormat::from_blob(&blob)),
                            ),
                            Err(_) => None,
                        };
                        ObjectEvent::BlobFound { raw_len, typed }
                    },
                    ObjectKind::Commit => ObjectEvent::Skipped,
                    ObjectKind::Tag => ObjectEvent::Skipped,
                    ObjectKind::Other => ObjectEvent::Skipped,
                },
            };
            proof {
                assert((i as int + 1) * (u64::MAX as int) <= u128::MAX as int) by (nonlinear_arith)
                    requires
                        0 <= i as int + 1 <= u64::MAX as int,
                ;
                assert(self@.blob_bytes + u64::MAX <= (i as int + 1) * (u64::MAX as int));
            }
            self.state.apply_event(id, ev);
            proof {
                lemma_run_events_push(empty_view(), evs, id, ev);
                evs = evs.push((id, ev));
            }
            i = i + 1;
        }
        Ok(())
    }

    /// The first `show` blob records of the current pass in descending size
    /// order — all of them if fewer exist. Each call produces a fresh vector
    /// reflecting the records at call time. Ties between records of equal
    /// size keep the order in which the records were created.
    pub fn largest_objects(&self, show: usize) -> (r: Vec<BlobItem>)
        ensures
            r@ == ranking_seq(self@.records, show as int),
            r@.len() == vstd::math::min(show as int, self@.records.len() as int),
            forall|a: int, b: int|
                0 <= a <= b < r@.len() ==> (#[trigger] r@[a]).size >= (#[trigger] r@[b]).size,
    {
        self.state.ranked(show)
    }

    /// A read-only snapshot of the counters accumulated so far.
    pub fn stats(&self) -> (r: AggregateStats)
        ensures
            r.total_blob_count == self@.blobs.len(),
            r.total_tree_count == self@.trees.len(),
            r.total_blob_bytes == self@.blob_bytes,
            r.unreadable_count == self@.unreadable,
    {
        self.state.stats()
    }

    /// The total blob byte count as human-readable text.
    pub fn all_size(&self) -> (r: String)
        ensures
            r@ == human_size_of(self@.blob_bytes as u128),
    {
        self.state.size_text()
    }
}

} // verus!
