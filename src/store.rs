use vstd::prelude::*;
use crate::digest::{copy_bytes, digest_of, Digest, DigestView};
use crate::error::{FailureView, StoreError};
use crate::materialize::{assembled, load_view, materialized, ResultView};
use crate::outcome::OutcomeView;

verus! {

pub open spec fn blob_entries(s: Seq<(Digest, Vec<u8>)>) -> Seq<(DigestView, Seq<u8>)> {
    s.map_values(|p: (Digest, Vec<u8>)| (p.0@, p.1@))
}

pub open spec fn blob_table(e: Seq<(DigestView, Seq<u8>)>) -> Map<DigestView, Seq<u8>>
    decreases e.len(),
{
    if e.len() == 0 {
        Map::empty()
    } else {
        blob_table(e.drop_last()).insert(e.last().0, e.last().1)
    }
}

/// Every stored blob is keyed by its own digest.
pub open spec fn content_addressed(m: Map<DigestView, Seq<u8>>) -> bool {
    forall|d: DigestView| #[trigger] m.contains_key(d) ==> d == digest_of(m[d])
}

/// What loading `d` from a store holding `m` gives.
pub open spec fn load_of(m: Map<DigestView, Seq<u8>>, d: DigestView) -> Result<Seq<u8>, StoreError> {
    if m.contains_key(d) {
        Ok(m[d])
    } else {
        Err(StoreError::NotFound)
    }
}

proof fn lemma_blob_find(e: Seq<(DigestView, Seq<u8>)>, i: int)
    requires
        forall|a: int, b: int| 0 <= a < e.len() && 0 <= b < e.len() && a != b ==> e[a].0 != e[b].0,
        0 <= i < e.len(),
    ensures
        blob_table(e).contains_key(e[i].0),
        blob_table(e)[e[i].0] == e[i].1,
    decreases e.len(),
{
    if i < e.len() - 1 {
        lemma_blob_find(e.drop_last(), i);
        assert(e.last().0 != e[i].0);
    }
}

proof fn lemma_blob_absent(e: Seq<(DigestView, Seq<u8>)>, k: DigestView)
    requires
        forall|i: int| 0 <= i < e.len() ==> e[i].0 != k,
    ensures
        !blob_table(e).contains_key(k),
    decreases e.len(),
{
    if e.len() > 0 {
        lemma_blob_absent(e.drop_last(), k);
    }
}

proof fn lemma_blob_addressed(e: Seq<(DigestView, Seq<u8>)>)
    requires
        forall|i: int| 0 <= i < e.len() ==> #[trigger] e[i].0 == digest_of(e[i].1),
    ensures
        content_addressed(blob_table(e)),
    decreases e.len(),
{
    if e.len() > 0 {
        lemma_blob_addressed(e.drop_last());
        assert(e.last().0 == digest_of(e[e.len() - 1].1));
    }
}

/// A content-addressed store of byte blobs held in memory.
pub struct MemoryStore {
    blobs: Vec<(Digest, Vec<u8>)>,
}

impl View for MemoryStore {
    type V = Map<DigestView, Seq<u8>>;

    closed spec fn view(&self) -> Map<DigestView, Seq<u8>> {
        blob_table(blob_entries(self.blobs@))
    }
}

impl MemoryStore {
    pub closed spec fn wf(&self) -> bool {
        let e = blob_entries(self.blobs@);
        &&& forall|a: int, b: int|
            0 <= a < e.len() && 0 <= b < e.len() && a != b ==> e[a].0 != e[b].0
        &&& forall|i: int| 0 <= i < e.len() ==> #[trigger] e[i].0 == digest_of(e[i].1)
    }

    /// Every blob in a well-formed store is keyed by its own digest.
    pub proof fn lemma_content_addressed(&self)
        requires
            self.wf(),
        ensures
            content_addressed(self@),
    {
        lemma_blob_addressed(blob_entries(self.blobs@));
    }

    /// An empty store.
    pub fn new() -> (r: MemoryStore)
        ensures
            r.wf(),
            r@ == Map::<DigestView, Seq<u8>>::empty(),
    {
        MemoryStore { blobs: Vec::new() }
    }

    fn find(&self, d: &Digest) -> (r: Option<usize>)
        requires
            self.wf(),
        ensures
            r is Some ==> r->Some_0 < self.blobs@.len() && self@.contains_key(d@) && self@[d@]
                == self.blobs@[r->Some_0 as int].1@,
            r is None ==> !self@.contains_key(d@) && forall|i: int|
                0 <= i < self.blobs@.len() ==> blob_entries(self.blobs@)[i].0 != d@,
    {
        let ghost e = blob_entries(self.blobs@);
        let mut i: usize = 0;
        while i < self.blobs.len()
            invariant
                0 <= i <= self.blobs@.len(),
                e == blob_entries(self.blobs@),
                self.wf(),
                forall|j: int| 0 <= j < i ==> e[j].0 != d@,
            decreases self.blobs@.len() - i,
        {
            if self.blobs[i].0.same_as(d) {
                proof {
                    lemma_blob_find(e, i as int);
                }
                return Some(i);
            }
            i = i + 1;
        }
        proof {
            lemma_blob_absent(e, d@);
        }
        None
    }

    /// Stores `bytes` under their digest, which is returned. Storing content
    /// that is already there changes nothing.
    pub fn put(&mut self, bytes: &[u8]) -> (r: Digest)
        requires
            old(self).wf(),
        ensures
            final(self).wf(),
            r@ == digest_of(bytes@),
            old(self)@.contains_key(r@) ==> final(self)@ == old(self)@,
            !old(self)@.contains_key(r@) ==> final(self)@ == old(self)@.insert(r@, bytes@),
    {
        let d = Digest::of_bytes(bytes);
        match self.find(&d) {
            Some(_) => {},
            None => {
                let ghost e = blob_entries(self.blobs@);
                self.blobs.push((d.duplicate(), copy_bytes(bytes)));
                let ghost e2 = blob_entries(self.blobs@);
                assert(e2.drop_last() =~= e);
                assert(forall|i: int| 0 <= i < e.len() ==> e[i] == e2[i]);
                assert(e2.last() == (d@, bytes@));
            },
        }
        d
    }

    /// Loads the bytes stored under `d`: they are returned only when `d` is
    /// their digest, and a digest with nothing under it is `NotFound`.
    pub fn load(&self, d: &Digest) -> (r: Result<Vec<u8>, StoreError>)
        requires
            self.wf(),
        ensures
            load_view(r) == load_of(self@, d@),
            r is Ok ==> digest_of(r->Ok_0@) == d@,
    {
        proof {
            self.lemma_content_addressed();
        }
        match self.find(d) {
            Some(i) => Ok(copy_bytes(self.blobs[i].1.as_slice())),
            None => Err(StoreError::NotFound),
        }
    }
}

/// Loads from a content-addressed store give bytes that have exactly the
/// digest they were asked for by, and a digest with nothing stored under it
/// is not found.
pub proof fn lemma_load_integrity(m: Map<DigestView, Seq<u8>>, d: DigestView)
    requires
        content_addressed(m),
    ensures
        load_of(m, d) is Ok ==> digest_of(load_of(m, d)->Ok_0) == d,
        !m.contains_key(d) ==> load_of(m, d) == Err::<Seq<u8>, StoreError>(StoreError::NotFound),
{
}

/// Round trip: materializing an outcome whose stream digests name bytes
/// held in a content-addressed store yields exactly those bytes.
pub proof fn lemma_store_round_trip(m: Map<DigestView, Seq<u8>>, o: OutcomeView, out: Seq<u8>, err: Seq<u8>)
    requires
        content_addressed(m),
        m.contains_key(o.stdout_digest),
        m[o.stdout_digest] == out,
        m.contains_key(o.stderr_digest),
        m[o.stderr_digest] == err,
    ensures
        materialized(o, load_of(m, o.stdout_digest), load_of(m, o.stderr_digest)) == Ok::<
            ResultView,
            FailureView,
        >(assembled(o, out, err)),
{
}

} // verus!
