//! Durable content bookkeeping: the provided-content registry, the chunk
//! lock ("pin") table, the known-node registry and the chunk digest log,
//! together with file splitting and round-robin chunk-to-peer assignment.
//!
//! The registries live behind the store's uniqueness keys: one row per
//! content hash in the provided table, one row per `(hash, chunk index)`
//! slot in the lock table. Registration and locking are upserts — last
//! write wins; they never duplicate a row.

use vstd::prelude::*;
use crate::CoreError;
use crate::chunking::{
    split_spec, ceil_div, split_bytes, lemma_split_count, lemma_split_sizes, lemma_split_last_mod,
    lemma_split_flatten,
};
use crate::hashing::{chunk_digest, chunk_digest_of};
use crate::ident::{chunk_id, chunk_id_spec};
use crate::table::{
    find_first, count_matching, project_matching, id_fn, lemma_find_first_bounds,
    lemma_find_first_none, lemma_find_first_some, lemma_find_first_at, lemma_count_matching_zero,
    lemma_count_matching_one, lemma_project_matching_all,
    lemma_project_matching_subset, lemma_project_matching_pairwise,
};

verus! {

/// Abstract view of one provided-content row.
pub ghost struct ProvidedRec {
    pub hash: Seq<char>,
    pub name: Seq<char>,
    pub size: u64,
    pub chunk_count: u64,
    pub peer: Seq<char>,
}

/// Abstract view of one chunk lock row: `peer` currently serves chunk
/// `index` of the content with hash `hash`.
pub ghost struct LockRec {
    pub hash: Seq<char>,
    pub index: u64,
    pub size: u64,
    pub peer: Seq<char>,
}

/// Matches a provided row by content hash.
pub open spec fn provided_hash_is(h: Seq<char>) -> spec_fn(ProvidedRec) -> bool {
    |r: ProvidedRec| r.hash == h
}

/// Matches a provided row by owning peer.
pub open spec fn provided_peer_is(p: Seq<char>) -> spec_fn(ProvidedRec) -> bool {
    |r: ProvidedRec| r.peer == p
}

/// Matches a lock row by its `(hash, chunk index)` slot.
pub open spec fn lock_slot_is(h: Seq<char>, index: u64) -> spec_fn(LockRec) -> bool {
    |l: LockRec| l.hash == h && l.index == index
}

/// Matches a lock row by content hash.
pub open spec fn lock_hash_is(h: Seq<char>) -> spec_fn(LockRec) -> bool {
    |l: LockRec| l.hash == h
}

/// Matches a lock row by serving peer.
pub open spec fn lock_peer_is(p: Seq<char>) -> spec_fn(LockRec) -> bool {
    |l: LockRec| l.peer == p
}

/// Matches a lock row scoped to a `(hash, peer)` pair, as unlocking does.
pub open spec fn lock_hash_peer_is(h: Seq<char>, p: Seq<char>) -> spec_fn(LockRec) -> bool {
    |l: LockRec| l.hash == h && l.peer == p
}

/// The content hash of a provided row.
pub open spec fn provided_hash_of() -> spec_fn(ProvidedRec) -> Seq<char> {
    |r: ProvidedRec| r.hash
}

/// The `(hash, peer, size)` detail triple of a provided row.
pub open spec fn provided_detail_of() -> spec_fn(ProvidedRec) -> (Seq<char>, Seq<char>, u64) {
    |r: ProvidedRec| (r.hash, r.peer, r.size)
}

/// The content hash of a lock row.
pub open spec fn lock_hash_of() -> spec_fn(LockRec) -> Seq<char> {
    |l: LockRec| l.hash
}

/// The `(index, peer, size)` detail triple of a lock row.
pub open spec fn lock_detail_of() -> spec_fn(LockRec) -> (u64, Seq<char>, u64) {
    |l: LockRec| (l.index, l.peer, l.size)
}

/// Registration upsert: replace the row with the same hash, or append one.
pub open spec fn register_spec(s: Seq<ProvidedRec>, r: ProvidedRec) -> Seq<ProvidedRec> {
    let i = find_first(s, provided_hash_is(r.hash));
    if i >= 0 {
        s.update(i, r)
    } else {
        s.push(r)
    }
}

/// Lock upsert: replace the row for the same `(hash, index)` slot, or
/// append one.
pub open spec fn lock_spec(s: Seq<LockRec>, l: LockRec) -> Seq<LockRec> {
    let i = find_first(s, lock_slot_is(l.hash, l.index));
    if i >= 0 {
        s.update(i, l)
    } else {
        s.push(l)
    }
}

/// Keeps the lock rows an unlock of `(hash, peer)` retains.
pub open spec fn lock_keep_pred(h: Seq<char>, p: Seq<char>) -> spec_fn(LockRec) -> bool {
    |l: LockRec| !(l.hash == h && l.peer == p)
}

/// Unlock: drop every lock row for the `(hash, peer)` pair, keeping order.
pub open spec fn unlock_spec(s: Seq<LockRec>, h: Seq<char>, p: Seq<char>) -> Seq<LockRec> {
    project_matching(s, lock_keep_pred(h, p), id_fn::<LockRec>())
}

/// Two lock rows conflict when they claim the same `(hash, index)` slot.
pub open spec fn lock_conflict() -> spec_fn(LockRec, LockRec) -> bool {
    |a: LockRec, b: LockRec| a.hash == b.hash && a.index == b.index
}

/// At most one provided row per content hash.
pub open spec fn provided_wf(s: Seq<ProvidedRec>) -> bool {
    forall|i: int, j: int|
        0 <= i < j < s.len() ==> (#[trigger] s[i]).hash != (#[trigger] s[j]).hash
}

/// At most one lock row per `(hash, chunk index)` slot.
pub open spec fn locked_wf(s: Seq<LockRec>) -> bool {
    forall|i: int, j: int|
        0 <= i < j < s.len() ==> !((#[trigger] s[i]).hash == (#[trigger] s[j]).hash && s[i].index
            == s[j].index)
}

/// The provided row for `h`, when one exists.
pub open spec fn provided_lookup(s: Seq<ProvidedRec>, h: Seq<char>) -> Option<ProvidedRec> {
    let i = find_first(s, provided_hash_is(h));
    if i >= 0 {
        Some(s[i])
    } else {
        None
    }
}

/// The lock row for slot `(h, index)`, when one exists.
pub open spec fn slot_lookup(s: Seq<LockRec>, h: Seq<char>, index: u64) -> Option<LockRec> {
    let i = find_first(s, lock_slot_is(h, index));
    if i >= 0 {
        Some(s[i])
    } else {
        None
    }
}

/// Registration keeps the registry's uniqueness key intact.
pub proof fn lemma_register_preserves_wf(s: Seq<ProvidedRec>, r: ProvidedRec)
    requires
        provided_wf(s),
    ensures
        provided_wf(register_spec(s, r)),
{
    let p = provided_hash_is(r.hash);
    let i = find_first(s, p);
    lemma_find_first_bounds(s, p);
    let s2 = register_spec(s, r);
    if i >= 0 {
        lemma_find_first_some(s, p);
        assert forall|a: int, b: int| 0 <= a < b < s2.len() implies (#[trigger] s2[a]).hash != (
        #[trigger] s2[b]).hash by {
            assert(s[a].hash != s[b].hash);
            assert(s[i].hash == r.hash);
        }
    } else {
        lemma_find_first_none(s, p);
        assert forall|a: int, b: int| 0 <= a < b < s2.len() implies (#[trigger] s2[a]).hash != (
        #[trigger] s2[b]).hash by {
            if b < s.len() {
                assert(s[a].hash != s[b].hash);
            } else {
                assert(!p(s[a]));
            }
        }
    }
}

/// After a registration, exactly one row carries the registered hash, and
/// it is the registered row.
pub proof fn lemma_register_establishes(s: Seq<ProvidedRec>, r: ProvidedRec)
    requires
        provided_wf(s),
    ensures
        count_matching(register_spec(s, r), provided_hash_is(r.hash)) == 1,
        provided_lookup(register_spec(s, r), r.hash) == Some(r),
{
    let p = provided_hash_is(r.hash);
    let i = find_first(s, p);
    lemma_find_first_bounds(s, p);
    let s2 = register_spec(s, r);
    if i >= 0 {
        lemma_find_first_some(s, p);
        assert(p(s2[i]));
        assert forall|j: int| 0 <= j < s2.len() && j != i implies !p(#[trigger] s2[j]) by {
            if p(s2[j]) {
                assert(s[j].hash == r.hash);
                assert(s[i].hash == r.hash);
                if j < i {
                    assert(s[j].hash != s[i].hash);
                } else {
                    assert(s[i].hash != s[j].hash);
                }
            }
        }
        lemma_count_matching_one(s2, p, i);
        lemma_find_first_at(s2, p, i);
    } else {
        lemma_find_first_none(s, p);
        let k = s.len() as int;
        assert(p(s2[k]));
        assert forall|j: int| 0 <= j < s2.len() && j != k implies !p(#[trigger] s2[j]) by {
            assert(s2[j] == s[j]);
        }
        lemma_count_matching_one(s2, p, k);
        lemma_find_first_at(s2, p, k);
    }
}

/// Locking keeps the lock table's uniqueness key intact.
pub proof fn lemma_lock_preserves_wf(s: Seq<LockRec>, l: LockRec)
    requires
        locked_wf(s),
    ensures
        locked_wf(lock_spec(s, l)),
{
    let p = lock_slot_is(l.hash, l.index);
    let i = find_first(s, p);
    lemma_find_first_bounds(s, p);
    let s2 = lock_spec(s, l);
    if i >= 0 {
        lemma_find_first_some(s, p);
        assert forall|a: int, b: int|
            0 <= a < b < s2.len() implies !((#[trigger] s2[a]).hash == (#[trigger] s2[b]).hash
                && s2[a].index == s2[b].index) by {
            assert(!(s[a].hash == s[b].hash && s[a].index == s[b].index));
            assert(s[i].hash == l.hash && s[i].index == l.index);
        }
    } else {
        lemma_find_first_none(s, p);
        assert forall|a: int, b: int|
            0 <= a < b < s2.len() implies !((#[trigger] s2[a]).hash == (#[trigger] s2[b]).hash
                && s2[a].index == s2[b].index) by {
            if b < s.len() {
                assert(!(s[a].hash == s[b].hash && s[a].index == s[b].index));
            } else {
                assert(!p(s[a]));
            }
        }
    }
}

/// After a lock, exactly one row claims the locked slot, and it is the
/// registered lock row.
pub proof fn lemma_lock_establishes(s: Seq<LockRec>, l: LockRec)
    requires
        locked_wf(s),
    ensures
        count_matching(lock_spec(s, l), lock_slot_is(l.hash, l.index)) == 1,
        slot_lookup(lock_spec(s, l), l.hash, l.index) == Some(l),
{
    let p = lock_slot_is(l.hash, l.index);
    let i = find_first(s, p);
    lemma_find_first_bounds(s, p);
    let s2 = lock_spec(s, l);
    if i >= 0 {
        lemma_find_first_some(s, p);
        assert(p(s2[i]));
        assert forall|j: int| 0 <= j < s2.len() && j != i implies !p(#[trigger] s2[j]) by {
            if p(s2[j]) {
                if j < i {
                    assert(!(s[j].hash == s[i].hash && s[j].index == s[i].index));
                } else {
                    assert(!(s[i].hash == s[j].hash && s[i].index == s[j].index));
                }
            }
        }
        lemma_count_matching_one(s2, p, i);
        lemma_find_first_at(s2, p, i);
    } else {
        lemma_find_first_none(s, p);
        let k = s.len() as int;
        assert(p(s2[k]));
        assert forall|j: int| 0 <= j < s2.len() && j != k implies !p(#[trigger] s2[j]) by {
            assert(s2[j] == s[j]);
        }
        lemma_count_matching_one(s2, p, k);
        lemma_find_first_at(s2, p, k);
    }
}

/// Unlocking keeps the lock table's uniqueness key intact, and no retained
/// row belongs to the unlocked `(hash, peer)` pair.
pub proof fn lemma_unlock_preserves_wf(s: Seq<LockRec>, h: Seq<char>, p: Seq<char>)
    requires
        locked_wf(s),
    ensures
        locked_wf(unlock_spec(s, h, p)),
        forall|k: int|
            0 <= k < unlock_spec(s, h, p).len() ==> !((#[trigger] unlock_spec(s, h, p)[k]).hash
                == h && unlock_spec(s, h, p)[k].peer == p),
{
    let keep = lock_keep_pred(h, p);
    let s2 = unlock_spec(s, h, p);
    assert(forall|i: int, j: int|
        0 <= i < j < s.len() ==> !(lock_conflict()(#[trigger] s[i], #[trigger] s[j])));
    lemma_project_matching_pairwise(s, keep, lock_conflict());
    assert forall|a: int, b: int|
        0 <= a < b < s2.len() implies !((#[trigger] s2[a]).hash == (#[trigger] s2[b]).hash && s2[a].index
            == s2[b].index) by {
        assert(!(lock_conflict()(s2[a], s2[b])));
    }
    lemma_project_matching_all(s, keep);
    assert forall|k: int| 0 <= k < s2.len() implies !((#[trigger] s2[k]).hash == h && s2[k].peer
        == p) by {
        assert(keep(s2[k]));
    }
}

struct ProvidedRow {
    content_hash: String,
    file_name: String,
    file_size: u64,
    chunk_count: u64,
    peer_id: String,
}

impl ProvidedRow {
    spec fn model(&self) -> ProvidedRec {
        ProvidedRec {
            hash: self.content_hash@,
            name: self.file_name@,
            size: self.file_size,
            chunk_count: self.chunk_count,
            peer: self.peer_id@,
        }
    }
}

struct LockRow {
    content_hash: String,
    chunk_index: u64,
    chunk_size: u64,
    peer_id: String,
}

impl LockRow {
    spec fn model(&self) -> LockRec {
        LockRec {
            hash: self.content_hash@,
            index: self.chunk_index,
            size: self.chunk_size,
            peer: self.peer_id@,
        }
    }

    /// A fresh row with the same contents.
    fn duplicate(&self) -> (r: LockRow)
        ensures
            r.model() == self.model(),
    {
        LockRow {
            content_hash: self.content_hash.clone(),
            chunk_index: self.chunk_index,
            chunk_size: self.chunk_size,
            peer_id: self.peer_id.clone(),
        }
    }
}

/// The lock rows of `rows`, abstracted.
spec fn lock_rows_model(rows: Seq<LockRow>) -> Seq<LockRec> {
    rows.map_values(|r: LockRow| r.model())
}

/// Metadata for a file as the hosting application sees it.
pub struct FileMetadata {
    pub content_hash: String,
    pub file_name: String,
    pub file_size: u64,
    pub chunk_count: i64,
    pub peers: Vec<String>,
}

/// Manages content metadata: who provides what, who holds which
/// chunk-serving pin, which peers are known, and which chunk digests were
/// recorded at split time.
pub struct ContentManager {
    provided: Vec<ProvidedRow>,
    locked: Vec<LockRow>,
    nodes: Vec<String>,
    chunk_digests: Vec<String>,
}

impl ContentManager {
    /// The provided-content registry, one abstract row per entry.
    pub closed spec fn provided_model(&self) -> Seq<ProvidedRec> {
        self.provided@.map_values(|r: ProvidedRow| r.model())
    }

    /// The chunk lock table, one abstract row per entry.
    pub closed spec fn locked_model(&self) -> Seq<LockRec> {
        lock_rows_model(self.locked@)
    }

    /// The known-node registry, in insertion order.
    pub closed spec fn nodes_model(&self) -> Seq<Seq<char>> {
        self.nodes@.map_values(|s: String| s@)
    }

    /// The chunk digests recorded at split time, in the order recorded.
    pub closed spec fn digests_model(&self) -> Seq<Seq<char>> {
        self.chunk_digests@.map_values(|s: String| s@)
    }

    /// The store's uniqueness keys hold: one provided row per hash, one
    /// lock row per slot.
    pub open spec fn wf(&self) -> bool {
        provided_wf(self.provided_model()) && locked_wf(self.locked_model())
    }

    /// Creates a manager with all registries empty.
    pub fn new() -> (m: ContentManager)
        ensures
            m.wf(),
            m.provided_model() == Seq::<ProvidedRec>::empty(),
            m.locked_model() == Seq::<LockRec>::empty(),
            m.nodes_model() == Seq::<Seq<char>>::empty(),
            m.digests_model() == Seq::<Seq<char>>::empty(),
    {
        let m = ContentManager {
            provided: Vec::new(),
            locked: Vec::new(),
            nodes: Vec::new(),
            chunk_digests: Vec::new(),
        };
        proof {
            assert(m.provided_model() =~= Seq::<ProvidedRec>::empty());
            assert(m.locked_model() =~= Seq::<LockRec>::empty());
            assert(m.nodes_model() =~= Seq::<Seq<char>>::empty());
            assert(m.digests_model() =~= Seq::<Seq<char>>::empty());
        }
        m
    }

    /// Upserts a provided-content row, keyed by content hash: repeated
    /// registration of the same hash updates the row in place — last write
    /// wins — and never duplicates it.
    #[verifier::loop_isolation(false)]
    pub fn add_provided_content(
        &mut self,
        content_hash: String,
        peer_id: String,
        file_size: u64,
        file_name: String,
    )
        requires
            old(self).wf(),
        ensures
            final(self).wf(),
            final(self).provided_model() == register_spec(
                old(self).provided_model(),
                ProvidedRec {
                    hash: content_hash@,
                    name: file_name@,
                    size: file_size,
                    chunk_count: 0,
                    peer: peer_id@,
                },
            ),
            final(self).locked_model() == old(self).locked_model(),
            final(self).nodes_model() == old(self).nodes_model(),
            final(self).digests_model() == old(self).digests_model(),
    {
        let ghost rec = ProvidedRec {
            hash: content_hash@,
            name: file_name@,
            size: file_size,
            chunk_count: 0,
            peer: peer_id@,
        };
        let ghost s0 = self.provided_model();
        let ghost p = provided_hash_is(rec.hash);
        let n = self.provided.len();
        let mut i: usize = 0;
        while i < n
            invariant
                i <= n,
                n == self.provided@.len(),
                self.provided == old(self).provided,
                self.locked == old(self).locked,
                self.nodes == old(self).nodes,
                self.chunk_digests == old(self).chunk_digests,
                s0 == self.provided_model(),
                provided_wf(s0),
                rec == (ProvidedRec {
                    hash: content_hash@,
                    name: file_name@,
                    size: file_size,
                    chunk_count: 0,
                    peer: peer_id@,
                }),
                p == provided_hash_is(rec.hash),
                forall|j: int| 0 <= j < i ==> !p(#[trigger] s0[j]),
            decreases n - i,
        {
            if self.provided[i].content_hash == content_hash {
                proof {
                    assert(p(s0[i as int]));
                    lemma_find_first_at(s0, p, i as int);
                }
                let row = ProvidedRow {
                    content_hash,
                    file_name,
                    file_size,
                    chunk_count: 0,
                    peer_id,
                };
                proof {
                    assert(row.model() == rec);
                }
                self.provided[i] = row;
                proof {
                    assert(self.provided_model() =~= s0.update(i as int, rec));
                    assert forall|a: int, b: int|
                        0 <= a < b < self.provided_model().len() implies (
                    #[trigger] self.provided_model()[a]).hash != (
                    #[trigger] self.provided_model()[b]).hash by {
                        assert(s0[a].hash != s0[b].hash);
                        assert(s0[i as int].hash == rec.hash);
                    }
                }
                return ;
            }
            proof {
                assert(!p(s0[i as int]));
            }
            i = i + 1;
        }
        proof {
            if find_first(s0, p) >= 0 {
                lemma_find_first_some(s0, p);
                assert(false);
            }
            crate::table::lemma_find_first_bounds(s0, p);
            assert(find_first(s0, p) == -1);
        }
        let row = ProvidedRow { content_hash, file_name, file_size, chunk_count: 0, peer_id };
        proof {
            assert(row.model() == rec);
        }
        self.provided.push(row);
        proof {
            assert(self.provided_model() =~= s0.push(rec));
            assert forall|a: int, b: int|
                0 <= a < b < self.provided_model().len() implies (
            #[trigger] self.provided_model()[a]).hash != (#[trigger] self.provided_model()[b]).hash
                by {
                if b < s0.len() {
                    assert(s0[a].hash != s0[b].hash);
                } else {
                    assert(!p(s0[a]));
                }
            }
        }
    }

    /// Appends a peer to the known-node registry. The registry is
    /// append-only; duplicates are kept as encountered.
    pub fn add_node(&mut self, peer_id: String)
        requires
            old(self).wf(),
        ensures
            final(self).wf(),
            final(self).nodes_model() == old(self).nodes_model().push(peer_id@),
            final(self).provided_model() == old(self).provided_model(),
            final(self).locked_model() == old(self).locked_model(),
            final(self).digests_model() == old(self).digests_model(),
    {
        let ghost n0 = self.nodes_model();
        self.nodes.push(peer_id);
        proof {
            assert(self.nodes_model() =~= n0.push(self.nodes@.last()@));
        }
    }

    /// Upserts a chunk lock ("pin"), keyed by `(content hash, chunk index)`:
    /// this peer now serves this chunk slot. Re-locking the same slot
    /// replaces the previous peer and size; it never duplicates the row.
    #[verifier::loop_isolation(false)]
    pub fn lock_content(
        &mut self,
        content_hash: String,
        chunk_index: u64,
        chunk_size: u64,
        peer_id: String,
    )
        requires
            old(self).wf(),
        ensures
            final(self).wf(),
            final(self).locked_model() == lock_spec(
                old(self).locked_model(),
                LockRec { hash: content_hash@, index: chunk_index, size: chunk_size, peer: peer_id@ },
            ),
            final(self).provided_model() == old(self).provided_model(),
            final(self).nodes_model() == old(self).nodes_model(),
            final(self).digests_model() == old(self).digests_model(),
    {
        let ghost rec = LockRec {
            hash: content_hash@,
            index: chunk_index,
            size: chunk_size,
            peer: peer_id@,
        };
        let ghost s0 = self.locked_model();
        let ghost p = lock_slot_is(rec.hash, rec.index);
        proof {
            lemma_lock_preserves_wf(s0, rec);
        }
        let n = self.locked.len();
        let mut i: usize = 0;
        while i < n
            invariant
                i <= n,
                n == self.locked@.len(),
                self.provided == old(self).provided,
                self.locked == old(self).locked,
                self.nodes == old(self).nodes,
                self.chunk_digests == old(self).chunk_digests,
                forall|j: int| 0 <= j < i ==> !p(#[trigger] s0[j]),
            decreases n - i,
        {
            if self.locked[i].content_hash == content_hash && self.locked[i].chunk_index
                == chunk_index {
                proof {
                    assert(p(s0[i as int]));
                    lemma_find_first_at(s0, p, i as int);
                }
                let row = LockRow { content_hash, chunk_index, chunk_size, peer_id };
                proof {
                    assert(row.model() == rec);
                }
                self.locked[i] = row;
                proof {
                    assert(self.locked_model() =~= s0.update(i as int, rec));
                }
                return ;
            }
            proof {
                assert(!p(s0[i as int]));
            }
            i = i + 1;
        }
        proof {
            if find_first(s0, p) >= 0 {
                lemma_find_first_some(s0, p);
                assert(false);
            }
            lemma_find_first_bounds(s0, p);
            assert(find_first(s0, p) == -1);
        }
        let row = LockRow { content_hash, chunk_index, chunk_size, peer_id };
        proof {
            assert(row.model() == rec);
        }
        self.locked.push(row);
        proof {
            assert(self.locked_model() =~= s0.push(rec));
        }
    }

    /// Deletes every lock row for the `(content hash, peer)` pair: the peer
    /// withdraws from serving that content.
    #[verifier::loop_isolation(false)]
    pub fn unlock_content(&mut self, content_hash: String, peer_id: String)
        requires
            old(self).wf(),
        ensures
            final(self).wf(),
            final(self).locked_model() == unlock_spec(
                old(self).locked_model(),
                content_hash@,
                peer_id@,
            ),
            final(self).provided_model() == old(self).provided_model(),
            final(self).nodes_model() == old(self).nodes_model(),
            final(self).digests_model() == old(self).digests_model(),
    {
        let ghost s0 = self.locked_model();
        let ghost keep = lock_keep_pred(content_hash@, peer_id@);
        proof {
            lemma_unlock_preserves_wf(s0, content_hash@, peer_id@);
        }
        let mut kept: Vec<LockRow> = Vec::new();
        let n = self.locked.len();
        let mut i: usize = 0;
        proof {
            assert(s0.take(0) =~= Seq::<LockRec>::empty());
            assert(lock_rows_model(kept@) =~= project_matching(
                s0.take(0),
                keep,
                id_fn::<LockRec>(),
            ));
        }
        while i < n
            invariant
                i <= n,
                n == self.locked@.len(),
                self.provided == old(self).provided,
                self.locked == old(self).locked,
                self.nodes == old(self).nodes,
                self.chunk_digests == old(self).chunk_digests,
                lock_rows_model(kept@) == project_matching(
                    s0.take(i as int),
                    keep,
                    id_fn::<LockRec>(),
                ),
            decreases n - i,
        {
            let ghost before = lock_rows_model(kept@);
            let drop_row = self.locked[i].content_hash == content_hash && self.locked[i].peer_id
                == peer_id;
            if !drop_row {
                let row = self.locked[i].duplicate();
                kept.push(row);
            }
            proof {
                assert(s0.take(i + 1 as int).drop_last() =~= s0.take(i as int));
                assert(s0.take(i + 1 as int).last() == s0[i as int]);
                assert(keep(s0[i as int]) == !drop_row);
                if !drop_row {
                    assert(lock_rows_model(kept@) =~= before.push(s0[i as int]));
                    assert(id_fn::<LockRec>()(s0[i as int]) == s0[i as int]);
                }
                assert(lock_rows_model(kept@) =~= project_matching(
                    s0.take(i + 1 as int),
                    keep,
                    id_fn::<LockRec>(),
                ));
            }
            i = i + 1;
        }
        proof {
            assert(s0.take(n as int) =~= s0);
        }
        self.locked = kept;
    }

    /// The content hashes locked by `peer_id`: a filtered projection of the
    /// lock table, in table order.
    #[verifier::loop_isolation(false)]
    pub fn get_peerid_locked_content(&self, peer_id: String) -> (r: Vec<String>)
        ensures
            r.deep_view() == project_matching(
                self.locked_model(),
                lock_peer_is(peer_id@),
                lock_hash_of(),
            ),
    {
        let ghost s = self.locked_model();
        let ghost p = lock_peer_is(peer_id@);
        let ghost f = lock_hash_of();
        let mut out: Vec<String> = Vec::new();
        let n = self.locked.len();
        let mut i: usize = 0;
        proof {
            assert(s.take(0) =~= Seq::<LockRec>::empty());
            assert(out.deep_view() =~= project_matching(s.take(0), p, f));
        }
        while i < n
            invariant
                i <= n,
                n == self.locked@.len(),
                out.deep_view() == project_matching(s.take(i as int), p, f),
            decreases n - i,
        {
            let ghost before = out.deep_view();
            if self.locked[i].peer_id == peer_id {
                out.push(self.locked[i].content_hash.clone());
            }
            proof {
                assert(s.take(i + 1 as int).drop_last() =~= s.take(i as int));
                assert(s.take(i + 1 as int).last() == s[i as int]);
                if p(s[i as int]) {
                    assert(out.deep_view() =~= before.push(f(s[i as int])));
                }
                assert(out.deep_view() =~= project_matching(s.take(i + 1 as int), p, f));
            }
            i = i + 1;
        }
        proof {
            assert(s.take(n as int) =~= s);
        }
        out
    }

    /// The content hashes provided by `peer_id`: a filtered projection of
    /// the provided-content registry, in table order.
    #[verifier::loop_isolation(false)]
    pub fn get_peerid_provided_content(&self, peer_id: String) -> (r: Vec<String>)
        ensures
            r.deep_view() == project_matching(
                self.provided_model(),
                provided_peer_is(peer_id@),
                provided_hash_of(),
            ),
    {
        let ghost s = self.provided_model();
        let ghost p = provided_peer_is(peer_id@);
        let ghost f = provided_hash_of();
        let mut out: Vec<String> = Vec::new();
        let n = self.provided.len();
        let mut i: usize = 0;
        proof {
            assert(s.take(0) =~= Seq::<ProvidedRec>::empty());
            assert(out.deep_view() =~= project_matching(s.take(0), p, f));
        }
        while i < n
            invariant
                i <= n,
                n == self.provided@.len(),
                out.deep_view() == project_matching(s.take(i as int), p, f),
            decreases n - i,
        {
            let ghost before = out.deep_view();
            if self.provided[i].peer_id == peer_id {
                out.push(self.provided[i].content_hash.clone());
            }
            proof {
                assert(s.take(i + 1 as int).drop_last() =~= s.take(i as int));
                assert(s.take(i + 1 as int).last() == s[i as int]);
                if p(s[i as int]) {
                    assert(out.deep_view() =~= before.push(f(s[i as int])));
                }
                assert(out.deep_view() =~= project_matching(s.take(i + 1 as int), p, f));
            }
            i = i + 1;
        }
        proof {
            assert(s.take(n as int) =~= s);
        }
        out
    }

    /// The `(hash, peer, size)` detail of the provided content registered
    /// under `content_hash` — at most one row, by the registry's key.
    #[verifier::loop_isolation(false)]
    pub fn get_provided_content(&self, content_hash: &String) -> (r: Vec<(String, String, u64)>)
        ensures
            r@.len() == project_matching(
                self.provided_model(),
                provided_hash_is(content_hash@),
                provided_detail_of(),
            ).len(),
            forall|k: int|
                0 <= k < r@.len() ==> ((#[trigger] r@[k]).0@, r@[k].1@, r@[k].2)
                    == project_matching(
                    self.provided_model(),
                    provided_hash_is(content_hash@),
                    provided_detail_of(),
                )[k],
    {
        let ghost s = self.provided_model();
        let ghost p = provided_hash_is(content_hash@);
        let ghost f = provided_detail_of();
        let mut out: Vec<(String, String, u64)> = Vec::new();
        let n = self.provided.len();
        let mut i: usize = 0;
        proof {
            assert(s.take(0) =~= Seq::<ProvidedRec>::empty());
        }
        while i < n
            invariant
                i <= n,
                n == self.provided@.len(),
                out@.len() == project_matching(s.take(i as int), p, f).len(),
                forall|k: int|
                    0 <= k < out@.len() ==> ((#[trigger] out@[k]).0@, out@[k].1@, out@[k].2)
                        == project_matching(s.take(i as int), p, f)[k],
            decreases n - i,
        {
            if self.provided[i].content_hash == *content_hash {
                out.push(
                    (
                        self.provided[i].content_hash.clone(),
                        self.provided[i].peer_id.clone(),
                        self.provided[i].file_size,
                    ),
                );
            }
            proof {
                assert(s.take(i + 1 as int).drop_last() =~= s.take(i as int));
                assert(s.take(i + 1 as int).last() == s[i as int]);
            }
            i = i + 1;
        }
        proof {
            assert(s.take(n as int) =~= s);
        }
        out
    }

    /// Every known peer, in the order encountered.
    #[verifier::loop_isolation(false)]
    pub fn get_nodes(&self) -> (r: Vec<String>)
        ensures
            r.deep_view() == self.nodes_model(),
    {
        let mut out: Vec<String> = Vec::new();
        let n = self.nodes.len();
        let mut i: usize = 0;
        while i < n
            invariant
                i <= n,
                n == self.nodes@.len(),
                out.deep_view() == self.nodes_model().take(i as int),
            decreases n - i,
        {
            let ghost before = out.deep_view();
            out.push(self.nodes[i].clone());
            proof {
                assert(out.deep_view() =~= before.push(self.nodes@[i as int]@));
                assert(out.deep_view() =~= self.nodes_model().take(i + 1 as int));
            }
            i = i + 1;
        }
        proof {
            assert(self.nodes_model().take(n as int) =~= self.nodes_model());
        }
        out
    }

    /// The content hash of every lock row, in table order.
    #[verifier::loop_isolation(false)]
    pub fn get_locked_content(&self) -> (r: Vec<String>)
        ensures
            r.deep_view() == self.locked_model().map_values(lock_hash_of()),
    {
        let mut out: Vec<String> = Vec::new();
        let n = self.locked.len();
        let mut i: usize = 0;
        while i < n
            invariant
                i <= n,
                n == self.locked@.len(),
                out.deep_view() == self.locked_model().map_values(lock_hash_of()).take(i as int),
            decreases n - i,
        {
            let ghost before = out.deep_view();
            out.push(self.locked[i].content_hash.clone());
            proof {
                assert(out.deep_view() =~= before.push(self.locked_model()[i as int].hash));
                assert(out.deep_view() =~= self.locked_model().map_values(lock_hash_of()).take(
                    i + 1 as int,
                ));
            }
            i = i + 1;
        }
        proof {
            assert(self.locked_model().map_values(lock_hash_of()).take(n as int)
                =~= self.locked_model().map_values(lock_hash_of()));
        }
        out
    }

    /// The `(chunk index, peer, size)` triples recorded for `content_hash`:
    /// which peer serves which chunk slot, and at what size.
    pub fn get_chunks_for_file(&self, content_hash: String) -> (r: Vec<(u64, String, u64)>)
        ensures
            r@.len() == project_matching(
                self.locked_model(),
                lock_hash_is(content_hash@),
                lock_detail_of(),
            ).len(),
            forall|k: int|
                0 <= k < r@.len() ==> ((#[trigger] r@[k]).0, r@[k].1@, r@[k].2) == project_matching(
                    self.locked_model(),
                    lock_hash_is(content_hash@),
                    lock_detail_of(),
                )[k],
    {
        self.get_chunks_for_content(content_hash)
    }

    /// The lock-table rows for one content hash, projected to their detail
    /// triples.
    #[verifier::loop_isolation(false)]
    fn get_chunks_for_content(&self, content_hash: String) -> (r: Vec<(u64, String, u64)>)
        ensures
            r@.len() == project_matching(
                self.locked_model(),
                lock_hash_is(content_hash@),
                lock_detail_of(),
            ).len(),
            forall|k: int|
                0 <= k < r@.len() ==> ((#[trigger] r@[k]).0, r@[k].1@, r@[k].2) == project_matching(
                    self.locked_model(),
                    lock_hash_is(content_hash@),
                    lock_detail_of(),
                )[k],
    {
        let ghost s = self.locked_model();
        let ghost p = lock_hash_is(content_hash@);
        let ghost f = lock_detail_of();
        let mut out: Vec<(u64, String, u64)> = Vec::new();
        let n = self.locked.len();
        let mut i: usize = 0;
        proof {
            assert(s.take(0) =~= Seq::<LockRec>::empty());
        }
        while i < n
            invariant
                i <= n,
                n == self.locked@.len(),
                out@.len() == project_matching(s.take(i as int), p, f).len(),
                forall|k: int|
                    0 <= k < out@.len() ==> ((#[trigger] out@[k]).0, out@[k].1@, out@[k].2)
                        == project_matching(s.take(i as int), p, f)[k],
            decreases n - i,
        {
            if self.locked[i].content_hash == content_hash {
                out.push(
                    (
                        self.locked[i].chunk_index,
                        self.locked[i].peer_id.clone(),
                        self.locked[i].chunk_size,
                    ),
                );
            }
            proof {
                assert(s.take(i + 1 as int).drop_last() =~= s.take(i as int));
                assert(s.take(i + 1 as int).last() == s[i as int]);
            }
            i = i + 1;
        }
        proof {
            assert(s.take(n as int) =~= s);
        }
        out
    }

    /// Assigns chunk `i` to `peers[i mod k]` — deterministic round robin,
    /// tie-broken by index, never by peer load or chunk content — and pairs
    /// it with the chunk's identifier. Fails exactly when no peer is
    /// connected.
    #[verifier::loop_isolation(false)]
    pub fn distribute_file_chunks(
        &self,
        content_hash: String,
        peers: Vec<String>,
        file_chunks: Vec<Vec<u8>>,
    ) -> (r: Result<Vec<(String, String)>, CoreError>)
        ensures
            r is Err <==> peers@.len() == 0,
            r matches Err(e) ==> e is NoPeers,
            r matches Ok(out) ==> out@.len() == file_chunks@.len() && forall|i: int|
                0 <= i < out@.len() ==> ((#[trigger] out@[i]).0@, out@[i].1@) == assignment_spec(
                    content_hash@,
                    peers.deep_view(),
                    file_chunks@.len() as nat,
                )[i],
    {
        if peers.len() == 0 {
            return Err(CoreError::NoPeers);
        }
        let ghost asg = assignment_spec(content_hash@, peers.deep_view(), file_chunks@.len() as nat);
        let mut out: Vec<(String, String)> = Vec::new();
        let n = file_chunks.len();
        let k = peers.len();
        let mut i: usize = 0;
        while i < n
            invariant
                i <= n,
                out@.len() == i,
                forall|j: int|
                    0 <= j < i ==> ((#[trigger] out@[j]).0@, out@[j].1@) == asg[j],
            decreases n - i,
        {
            let peer_index = i % k;
            let assigned_peer = peers[peer_index].clone();
            let id = chunk_id(content_hash.as_str(), i as u64);
            out.push((assigned_peer, id));
            proof {
                assert(peers.deep_view()[peer_index as int] == peers@[peer_index as int]@);
                assert(asg[i as int] == (
                    peers.deep_view()[i as int % peers.deep_view().len() as int],
                    chunk_id_spec(content_hash@, i as nat),
                ));
            }
            i = i + 1;
        }
        Ok(out)
    }

    /// Splits `data` into `chunk_size`-byte chunks and records each chunk's
    /// digest, in order, in the chunk digest log. Splitting yields
    /// `ceil(len / chunk_size)` chunks; every chunk but the last holds
    /// exactly `chunk_size` bytes, the last holds the remainder; and the
    /// chunks concatenate back to `data`. A zero chunk size reads nothing
    /// and yields no chunks.
    #[verifier::loop_isolation(false)]
    pub fn split_file_into_chunks(&mut self, data: &Vec<u8>, chunk_size: usize) -> (chunks: Vec<
        Vec<u8>,
    >)
        requires
            old(self).wf(),
        ensures
            final(self).wf(),
            final(self).provided_model() == old(self).provided_model(),
            final(self).locked_model() == old(self).locked_model(),
            final(self).nodes_model() == old(self).nodes_model(),
            chunk_size == 0 ==> chunks@.len() == 0 && *final(self) == *old(self),
            chunk_size > 0 ==> chunks.deep_view() == split_spec(data@, chunk_size as nat),
            chunk_size > 0 ==> chunks.deep_view().flatten() == data@,
            chunk_size > 0 ==> chunks@.len() == ceil_div(data@.len(), chunk_size as nat),
            chunk_size > 0 ==> forall|i: int|
                0 <= i < chunks@.len() - 1 ==> #[trigger] chunks.deep_view()[i].len()
                    == chunk_size,
            chunk_size > 0 && chunks@.len() > 0 ==> chunks.deep_view().last().len() == (
            if data@.len() % (chunk_size as nat) == 0 {
                chunk_size as int
            } else {
                (data@.len() % (chunk_size as nat)) as int
            }),
            final(self).digests_model().len() == old(self).digests_model().len() + chunks@.len(),
            forall|k: int|
                0 <= k < old(self).digests_model().len()
                    ==> #[trigger] final(self).digests_model()[k] == old(self).digests_model()[k],
            forall|j: int|
                0 <= j < chunks@.len()
                    ==> #[trigger] final(self).digests_model()[old(self).digests_model().len() + j]
                    == chunk_digest_of(chunks.deep_view()[j]),
    {
        if chunk_size == 0 {
            return Vec::new();
        }
        let chunks = split_bytes(data, chunk_size);
        proof {
            lemma_split_count(data@, chunk_size as nat);
            lemma_split_sizes(data@, chunk_size as nat);
            lemma_split_flatten(data@, chunk_size as nat);
            if chunks@.len() > 0 {
                lemma_split_last_mod(data@, chunk_size as nat);
            }
        }
        let ghost d0 = self.digests_model();
        let n = chunks.len();
        let mut i: usize = 0;
        while i < n
            invariant
                i <= n,
                n == chunks@.len(),
                self.provided == old(self).provided,
                self.locked == old(self).locked,
                self.nodes == old(self).nodes,
                self.digests_model().len() == d0.len() + i,
                forall|k: int| 0 <= k < d0.len() ==> #[trigger] self.digests_model()[k] == d0[k],
                forall|j: int|
                    0 <= j < i ==> #[trigger] self.digests_model()[d0.len() + j]
                        == chunk_digest_of(chunks.deep_view()[j]),
            decreases n - i,
        {
            let ghost before = self.digests_model();
            let d = chunk_digest(&chunks[i]);
            proof {
                assert(chunks@[i as int]@ =~= chunks.deep_view()[i as int]);
            }
            self.chunk_digests.push(d);
            proof {
                assert(self.digests_model() =~= before.push(
                    chunk_digest_of(chunks.deep_view()[i as int]),
                ));
            }
            i = i + 1;
        }
        chunks
    }
}

/// The round-robin peer and chunk identifier for each of `n` chunks of the
/// content with hash `hash`.
pub open spec fn assignment_spec(hash: Seq<char>, peers: Seq<Seq<char>>, n: nat) -> Seq<
    (Seq<char>, Seq<char>),
>
    recommends
        peers.len() > 0,
{
    Seq::new(n, |i: int| (peers[i % peers.len() as int], chunk_id_spec(hash, i as nat)))
}

/// Round-robin law: chunk `i` goes to `peers[i mod k]`; the assignment is a
/// pure function of the chunk index and the peer list, independent of the
/// chunk contents — two files with equally many chunks get the identical
/// assignment.
pub proof fn lemma_round_robin(
    hash: Seq<char>,
    peers: Seq<Seq<char>>,
    chunks_a: Seq<Seq<u8>>,
    chunks_b: Seq<Seq<u8>>,
)
    requires
        peers.len() > 0,
        chunks_a.len() == chunks_b.len(),
    ensures
        assignment_spec(hash, peers, chunks_a.len()) == assignment_spec(
            hash,
            peers,
            chunks_b.len(),
        ),
        forall|i: int|
            0 <= i < chunks_a.len() ==> (#[trigger] assignment_spec(
                hash,
                peers,
                chunks_a.len(),
            )[i]).0 == peers[i % peers.len() as int],
{
}

/// Registering the same content hash twice keeps exactly one row for it,
/// and that row carries the second registration's values; rows for other
/// hashes are untouched.
pub proof fn lemma_register_last_write_wins(s: Seq<ProvidedRec>, r1: ProvidedRec, r2: ProvidedRec)
    requires
        provided_wf(s),
        r1.hash == r2.hash,
    ensures
        provided_wf(register_spec(register_spec(s, r1), r2)),
        count_matching(register_spec(register_spec(s, r1), r2), provided_hash_is(r2.hash)) == 1,
        provided_lookup(register_spec(register_spec(s, r1), r2), r2.hash) == Some(r2),
{
    lemma_register_preserves_wf(s, r1);
    let s1 = register_spec(s, r1);
    lemma_register_preserves_wf(s1, r2);
    lemma_register_establishes(s1, r2);
}

/// Locking the same `(hash, index)` slot twice keeps exactly one row for
/// it, carrying the second lock's peer and size; unlocking by the second
/// peer then removes it.
pub proof fn lemma_relock_then_unlock(
    s: Seq<LockRec>,
    h: Seq<char>,
    idx: u64,
    size1: u64,
    peer_a: Seq<char>,
    size2: u64,
    peer_b: Seq<char>,
)
    requires
        locked_wf(s),
    ensures
        ({
            let l1 = LockRec { hash: h, index: idx, size: size1, peer: peer_a };
            let l2 = LockRec { hash: h, index: idx, size: size2, peer: peer_b };
            let s2 = lock_spec(lock_spec(s, l1), l2);
            &&& locked_wf(s2)
            &&& count_matching(s2, lock_slot_is(h, idx)) == 1
            &&& slot_lookup(s2, h, idx) == Some(l2)
            &&& count_matching(unlock_spec(s2, h, peer_b), lock_slot_is(h, idx)) == 0
        }),
{
    let l1 = LockRec { hash: h, index: idx, size: size1, peer: peer_a };
    let l2 = LockRec { hash: h, index: idx, size: size2, peer: peer_b };
    lemma_lock_preserves_wf(s, l1);
    let s1 = lock_spec(s, l1);
    lemma_lock_preserves_wf(s1, l2);
    lemma_lock_establishes(s1, l2);
    let s2 = lock_spec(s1, l2);
    let s3 = unlock_spec(s2, h, peer_b);
    lemma_unlock_preserves_wf(s2, h, peer_b);
    lemma_project_matching_subset(s2, lock_keep_pred(h, peer_b));
    let p = lock_slot_is(h, idx);
    let fi = find_first(s2, p);
    lemma_find_first_some(s2, p);
    assert forall|k: int| 0 <= k < s3.len() implies !p(#[trigger] s3[k]) by {
        if p(s3[k]) {
            let i = choose|i: int| 0 <= i < s2.len() && s3[k] == s2[i];
            assert(p(s2[i]));
            if i < fi {
                assert(!(s2[i].hash == s2[fi].hash && s2[i].index == s2[fi].index));
            } else if fi < i {
                assert(!(s2[fi].hash == s2[i].hash && s2[fi].index == s2[i].index));
            }
            assert(i == fi);
            assert(s3[k] == l2);
            assert(!(s3[k].hash == h && s3[k].peer == peer_b));
        }
    }
    lemma_count_matching_zero(s3, p);
}

} // verus!
