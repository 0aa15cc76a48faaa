//! Upload serving and retrieval orchestration.
//!
//! Whole-file retrieval races every advertised provider and takes the
//! first successful response; an empty provider set fails fast with
//! NotFound, before any network request. Chunked reassembly walks chunk
//! indices from zero, fetches one provider per chunk, and concatenates the
//! chunk bytes in index order; the first index with no advertised provider
//! ends the walk — a temporarily unreachable chunk therefore truncates the
//! result, a known limitation kept as it stands.

use vstd::prelude::*;
use crate::CoreError;
use crate::ident::{chunk_id, chunk_id_spec, valid_content_hash};

verus! {

/// Whether an inbound request is for the content this provide call
/// serves: the serve loop answers exactly the requests whose key equals
/// the provided content hash.
pub fn serve_decision(request_key: &String, content_hash: &String) -> (r: bool)
    ensures
        r == (request_key@ == content_hash@),
{
    *request_key == *content_hash
}

/// Plans a whole-file retrieval: one fetch of `content_hash` per
/// advertised provider, all raced. An empty provider set is NotFound at
/// once — no network request is issued for it.
#[verifier::loop_isolation(false)]
pub fn plan_get_file(content_hash: &String, providers: &Vec<String>) -> (r: Result<
    Vec<(String, String)>,
    CoreError,
>)
    ensures
        r is Err <==> providers@.len() == 0,
        r matches Err(e) ==> e is NotFound,
        r matches Ok(plan) ==> plan@.len() == providers@.len() && forall|i: int|
            0 <= i < plan@.len() ==> ((#[trigger] plan@[i]).0@, plan@[i].1@) == (
            providers@[i]@,
            content_hash@,
            ),
{
    if providers.len() == 0 {
        return Err(CoreError::NotFound);
    }
    let mut plan: Vec<(String, String)> = Vec::new();
    let n = providers.len();
    let mut i: usize = 0;
    while i < n
        invariant
            i <= n,
            n == providers@.len(),
            plan@.len() == i,
            forall|j: int|
                0 <= j < i ==> ((#[trigger] plan@[j]).0@, plan@[j].1@) == (
                providers@[j]@,
                content_hash@,
                ),
        decreases n - i,
    {
        plan.push((providers[i].clone(), content_hash.clone()));
        i = i + 1;
    }
    Ok(plan)
}

/// One step of a race-to-first-success fetch.
pub enum RaceStep {
    /// The first successful response: the caller takes these bytes and
    /// discards everything that still arrives.
    Won { payload: Vec<u8> },
    /// Every provider failed.
    Exhausted,
    /// Still waiting on outstanding responses.
    Pending,
}

/// The state of one whole-file retrieval racing several providers: how
/// many responses are still outstanding and whether one already won.
pub struct FetchRace {
    outstanding: u64,
    decided: bool,
}

impl FetchRace {
    /// How many responses are still outstanding.
    pub closed spec fn outstanding_count(&self) -> u64 {
        self.outstanding
    }

    /// Whether a winning response was already accepted.
    pub closed spec fn is_decided(&self) -> bool {
        self.decided
    }

    /// Starts a race against `count` providers.
    pub fn start(count: u64) -> (r: FetchRace)
        ensures
            r.outstanding_count() == count,
            !r.is_decided(),
    {
        FetchRace { outstanding: count, decided: false }
    }

    /// Feeds one provider's response into the race, in arrival order. The
    /// first success wins; later responses are discarded; the race is
    /// exhausted when every provider failed.
    pub fn on_response(&mut self, response: Result<Vec<u8>, CoreError>) -> (step: RaceStep)
        requires
            old(self).outstanding_count() > 0,
        ensures
            final(self).outstanding_count() == old(self).outstanding_count() - 1,
            match response {
                Ok(payload) => {
                    if old(self).is_decided() {
                        step is Pending && final(self).is_decided()
                    } else {
                        step == (RaceStep::Won { payload }) && final(self).is_decided()
                    }
                },
                Err(_) => {
                    &&& final(self).is_decided() == old(self).is_decided()
                    &&& if !old(self).is_decided() && old(self).outstanding_count() == 1 {
                        step is Exhausted
                    } else {
                        step is Pending
                    }
                },
            },
    {
        self.outstanding = self.outstanding - 1;
        match response {
            Ok(payload) => {
                if self.decided {
                    RaceStep::Pending
                } else {
                    self.decided = true;
                    RaceStep::Won { payload }
                }
            },
            Err(_) => {
                if !self.decided && self.outstanding == 0 {
                    RaceStep::Exhausted
                } else {
                    RaceStep::Pending
                }
            },
        }
    }
}

/// The state of one chunked reassembly: the validated content hash being
/// reassembled, the next chunk index to ask for, and the bytes collected
/// so far, in index order.
pub struct Reassembly {
    content_hash: String,
    next_index: u64,
    data: Vec<u8>,
    chunks_taken: Ghost<Seq<Seq<u8>>>,
}

impl Reassembly {
    /// The content hash being reassembled.
    pub closed spec fn hash(&self) -> Seq<char> {
        self.content_hash@
    }

    /// The next chunk index to ask providers for.
    pub closed spec fn next_index(&self) -> u64 {
        self.next_index
    }

    /// The bytes assembled so far.
    pub closed spec fn assembled(&self) -> Seq<u8> {
        self.data@
    }

    /// The chunks taken so far, in index order.
    pub closed spec fn chunks(&self) -> Seq<Seq<u8>> {
        self.chunks_taken@
    }

    /// The assembled bytes are exactly the taken chunks, concatenated in
    /// index order, and as many chunks were taken as indices walked.
    pub closed spec fn wf(&self) -> bool {
        self.data@ == self.chunks_taken@.flatten_alt() && self.chunks_taken@.len()
            == self.next_index
    }

    /// Starts reassembling the content with the given validated hash.
    pub fn new(content_hash: String) -> (r: Reassembly)
        requires
            valid_content_hash(content_hash@),
        ensures
            r.wf(),
            r.hash() == content_hash@,
            r.next_index() == 0,
            r.assembled() == Seq::<u8>::empty(),
            r.chunks() == Seq::<Seq<u8>>::empty(),
    {
        let r = Reassembly {
            content_hash,
            next_index: 0,
            data: Vec::new(),
            chunks_taken: Ghost(Seq::empty()),
        };
        proof {
            assert(r.chunks_taken@.flatten_alt() =~= Seq::<u8>::empty());
        }
        r
    }

    /// The DHT key for the chunk asked for next.
    pub fn next_chunk_key(&self) -> (r: String)
        ensures
            r@ == chunk_id_spec(self.hash(), self.next_index() as nat),
    {
        chunk_id(self.content_hash.as_str(), self.next_index)
    }

    /// Appends the fetched chunk for the current index and moves to the
    /// next one.
    pub fn append_chunk(&mut self, mut bytes: Vec<u8>)
        requires
            old(self).wf(),
            old(self).next_index() < u64::MAX,
        ensures
            final(self).wf(),
            final(self).hash() == old(self).hash(),
            final(self).next_index() == old(self).next_index() + 1,
            final(self).chunks() == old(self).chunks().push(bytes@),
            final(self).assembled() == old(self).assembled() + bytes@,
    {
        let ghost chunk = bytes@;
        self.data.append(&mut bytes);
        self.next_index = self.next_index + 1;
        proof {
            self.chunks_taken@ = old(self).chunks_taken@.push(chunk);
            assert(self.chunks_taken@.drop_last() =~= old(self).chunks_taken@);
        }
    }

    /// Hands out the assembled bytes: the concatenation, in index order,
    /// of every chunk taken.
    pub fn finish(self) -> (r: Vec<u8>)
        ensures
            r@ == self.assembled(),
    {
        self.data
    }
}

/// Picks the provider asked for a chunk: the first advertised one — no
/// racing at chunk granularity. `None` means no provider is advertised,
/// which ends the reassembly walk: the result stays truncated at the
/// chunks taken so far.
pub fn pick_chunk_provider(providers: &Vec<String>) -> (r: Option<String>)
    ensures
        r is Some <==> providers@.len() > 0,
        r matches Some(p) ==> p@ == providers@[0]@,
{
    if providers.len() == 0 {
        None
    } else {
        Some(providers[0].clone())
    }
}

/// What a finished reassembly returns: the flattened chunk list, chunk
/// bytes concatenated in index order.
pub proof fn lemma_reassembly_is_concat(r: Reassembly)
    requires
        r.wf(),
    ensures
        r.assembled() == r.chunks().flatten(),
{
    r.chunks().lemma_flatten_and_flatten_alt_are_equivalent();
}

} // verus!
