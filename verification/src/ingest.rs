//! The ingestion coordinator: one message through the whole pipeline.
//!
//! Processing one message is a short dialogue with the embedding service:
//! classify, chunk, then ask for one embedding per chunk. The driver carries
//! each request to the service and hands the outcome back; every decision —
//! retry, skip, record — is made here. A transient fault is retried up to
//! the attempt ceiling, then the chunk is skipped; a protocol fault skips
//! the chunk at once; a failed chunk never aborts its siblings.

use crate::chunk::Chunk;
use crate::chunk::TARGET_TOKENS;
use crate::chunk::chunk_body;
use crate::chunk::chunk_seq_ok;
use crate::embed::EmbedError;
use crate::embed::MAX_EMBED_ATTEMPTS;
use crate::embed::embed_prompt;
use crate::embed::newlines_to_spaces;
use crate::message::Classification;
use crate::message::ProcessedMessage;
use crate::message::body_view;
use crate::message::classify;
use crate::message::direction_text;
use crate::message::spec_classify;
use crate::words::views_of;
use vstd::prelude::*;

verus! {

/// One persisted row: a chunk's text and token count, the message's
/// metadata, and the embedding vector, each element the bit pattern of one
/// 32-bit float. `(message_id, chunk_index)` is the row's natural key.
pub struct SignalMessageWithEmbedding {
    pub message_id: u64,
    pub chunk_index: usize,
    pub body: String,
    pub direction: String,
    pub receiver: Option<String>,
    pub sender: Option<String>,
    pub group_name: Option<String>,
    pub attachments: Option<Vec<String>>,
    pub tokens: usize,
    pub embedding: Vec<u32>,
}

/// One embedding call the driver should make next.
pub struct EmbedRequest {
    /// Which chunk the call is for.
    pub chunk_index: usize,
    /// How many attempts on this chunk have already failed.
    pub attempts_made: usize,
    /// The request text: the chunk's text with newlines replaced by spaces.
    pub prompt: String,
}

/// A chunk given up on, and why.
pub struct SkippedChunk {
    pub chunk_index: usize,
    pub reason: EmbedError,
}

/// The view of an optional text.
pub open spec fn opt_text(o: Option<String>) -> Option<Seq<char>> {
    match o {
        Some(s) => Some(s@),
        None => None,
    }
}

/// The view of an optional list of texts.
pub open spec fn opt_texts(o: Option<Vec<String>>) -> Option<Seq<Seq<char>>> {
    match o {
        Some(v) => Some(views_of(v@)),
        None => None,
    }
}

/// The in-flight state of one message's pass through the pipeline.
pub struct Ingestion {
    pub message_id: u64,
    pub direction: String,
    pub receiver: Option<String>,
    pub sender: Option<String>,
    pub group_name: Option<String>,
    pub attachments: Option<Vec<String>>,
    pub chunks: Vec<Chunk>,
    /// The first chunk not yet resolved.
    pub pos: usize,
    /// Failed attempts on the chunk at `pos`.
    pub attempts: usize,
    pub records: Vec<SignalMessageWithEmbedding>,
    pub skipped: Vec<SkippedChunk>,
}

/// What one record must hold for chunk `j` of an ingestion, embedded as
/// `bits`: the chunk's own text and token count, and the message's metadata
/// unchanged.
pub open spec fn record_matches(
    r: SignalMessageWithEmbedding,
    ing: Ingestion,
    j: int,
    bits: Seq<u32>,
) -> bool {
    &&& r.message_id == ing.message_id
    &&& r.chunk_index == j
    &&& r.body@ == ing.chunks@[j].text@
    &&& r.tokens == ing.chunks@[j].tokens
    &&& r.direction@ == ing.direction@
    &&& opt_text(r.receiver) == opt_text(ing.receiver)
    &&& opt_text(r.sender) == opt_text(ing.sender)
    &&& opt_text(r.group_name) == opt_text(ing.group_name)
    &&& opt_texts(r.attachments) == opt_texts(ing.attachments)
    &&& r.embedding@ == bits
}

impl Ingestion {
    /// The state invariant: the cursor is within the chunk list, the attempt
    /// counter is below the ceiling, records and skips together account for
    /// every resolved chunk, and each list is in chunk order, below the
    /// cursor.
    pub open spec fn wf(self) -> bool {
        &&& self.pos <= self.chunks@.len()
        &&& self.attempts < MAX_EMBED_ATTEMPTS
        &&& self.records@.len() + self.skipped@.len() == self.pos
        &&& forall|a: int, b: int|
            #![trigger self.records@[a], self.records@[b]]
            0 <= a < b < self.records@.len()
                ==> self.records@[a].chunk_index < self.records@[b].chunk_index
        &&& forall|a: int|
            0 <= a < self.records@.len() ==> (#[trigger] self.records@[a]).chunk_index < self.pos
        &&& forall|a: int, b: int|
            #![trigger self.skipped@[a], self.skipped@[b]]
            0 <= a < b < self.skipped@.len()
                ==> self.skipped@[a].chunk_index < self.skipped@[b].chunk_index
        &&& forall|a: int|
            0 <= a < self.skipped@.len() ==> (#[trigger] self.skipped@[a]).chunk_index < self.pos
    }

    /// Begin processing one message. Noise is refused outright: no state, no
    /// requests, no records. Content is chunked under the fixed token
    /// budget, with the metadata carried over for every later record.
    pub fn start(msg: &ProcessedMessage, message_id: u64) -> (r: Option<Ingestion>)
        ensures
            (r is Some) <==> (spec_classify(msg.kind, body_view(*msg)) is Content),
            r is Some ==> {
                let ing = r->0;
                &&& ing.wf()
                &&& ing.message_id == message_id
                &&& ing.pos == 0
                &&& ing.attempts == 0
                &&& ing.records@.len() == 0
                &&& ing.skipped@.len() == 0
                &&& chunk_seq_ok(msg.body->0@, TARGET_TOKENS as int, ing.chunks@)
                &&& ing.direction@ == (match msg.direction {
                    Some(d) => direction_text(d),
                    None => Seq::<char>::empty(),
                })
                &&& opt_text(ing.receiver) == opt_text(msg.contact)
                &&& opt_text(ing.sender) == opt_text(msg.sender)
                &&& opt_text(ing.group_name) == opt_text(msg.group)
                &&& opt_texts(ing.attachments) == opt_texts(msg.attachments)
            },
    {
        match classify(msg) {
            Classification::Noise(_) => None,
            Classification::Content => {
                let chunks = match &msg.body {
                    Some(b) => chunk_body(b.as_str()),
                    None => unreached(),
                };
                let direction = match &msg.direction {
                    Some(d) => d.to_string(),
                    None => String::new(),
                };
                Some(
                    Ingestion {
                        message_id,
                        direction,
                        receiver: clone_opt_string(&msg.contact),
                        sender: clone_opt_string(&msg.sender),
                        group_name: clone_opt_string(&msg.group),
                        attachments: clone_opt_strings(&msg.attachments),
                        chunks,
                        pos: 0,
                        attempts: 0,
                        records: Vec::new(),
                        skipped: Vec::new(),
                    },
                )
            },
        }
    }

    /// The next embedding call to make, while any chunk is unresolved: the
    /// chunk at the cursor, with its prompt and the attempts already failed
    /// on it.
    pub fn next_request(&self) -> (r: Option<EmbedRequest>)
        requires
            self.wf(),
        ensures
            (r is Some) <==> self.pos < self.chunks@.len(),
            r is Some ==> {
                let req = r->0;
                &&& req.chunk_index == self.pos
                &&& req.attempts_made == self.attempts
                &&& req.prompt@ == newlines_to_spaces(self.chunks@[self.pos as int].text@)
            },
    {
        if self.pos < self.chunks.len() {
            let c = &self.chunks[self.pos];
            Some(
                EmbedRequest {
                    chunk_index: self.pos,
                    attempts_made: self.attempts,
                    prompt: embed_prompt(c.text.as_str()),
                },
            )
        } else {
            None
        }
    }

    /// Resolve the outcome the driver got for the chunk at the cursor. A
    /// vector yields one record for exactly this chunk and moves on; a
    /// transient fault below the attempt ceiling retries the same chunk;
    /// the ceiling, or a protocol fault, skips the chunk and moves on.
    pub fn on_outcome(&mut self, outcome: Result<Vec<u32>, EmbedError>)
        requires
            old(self).wf(),
            old(self).pos < old(self).chunks@.len(),
        ensures
            final(self).wf(),
            final(self).message_id == old(self).message_id,
            final(self).direction == old(self).direction,
            final(self).receiver == old(self).receiver,
            final(self).sender == old(self).sender,
            final(self).group_name == old(self).group_name,
            final(self).attachments == old(self).attachments,
            final(self).chunks == old(self).chunks,
            (match outcome {
                Ok(bits) => {
                    &&& final(self).pos == old(self).pos + 1
                    &&& final(self).attempts == 0
                    &&& final(self).skipped == old(self).skipped
                    &&& final(self).records@ == old(self).records@.push(
                        final(self).records@.last(),
                    )
                    &&& record_matches(
                        final(self).records@.last(),
                        *old(self),
                        old(self).pos as int,
                        bits@,
                    )
                },
                Err(e) => {
                    if e is Transient && old(self).attempts + 1 < MAX_EMBED_ATTEMPTS {
                        &&& final(self).pos == old(self).pos
                        &&& final(self).attempts == old(self).attempts + 1
                        &&& final(self).records == old(self).records
                        &&& final(self).skipped == old(self).skipped
                    } else {
                        &&& final(self).pos == old(self).pos + 1
                        &&& final(self).attempts == 0
                        &&& final(self).records == old(self).records
                        &&& final(self).skipped@ == old(self).skipped@.push(
                            (SkippedChunk { chunk_index: old(self).pos, reason: e }),
                        )
                    }
                },
            }),
    {
        proof {
            assert(self.chunks.len() == self.chunks@.len());
        }
        match outcome {
            Ok(bits) => {
                let c = &self.chunks[self.pos];
                let rec = SignalMessageWithEmbedding {
                    message_id: self.message_id,
                    chunk_index: self.pos,
                    body: c.text.clone(),
                    direction: self.direction.clone(),
                    receiver: clone_opt_string(&self.receiver),
                    sender: clone_opt_string(&self.sender),
                    group_name: clone_opt_string(&self.group_name),
                    attachments: clone_opt_strings(&self.attachments),
                    tokens: c.tokens,
                    embedding: bits,
                };
                self.records.push(rec);
                self.pos = self.pos + 1;
                self.attempts = 0;
            },
            Err(e) => {
                let transient = match e {
                    EmbedError::Transient => true,
                    EmbedError::Protocol => false,
                };
                if transient && self.attempts + 1 < MAX_EMBED_ATTEMPTS {
                    self.attempts = self.attempts + 1;
                } else {
                    self.skipped.push(SkippedChunk { chunk_index: self.pos, reason: e });
                    self.pos = self.pos + 1;
                    self.attempts = 0;
                }
            },
        }
    }

    /// Whether every chunk of the message has been resolved.
    pub fn is_done(&self) -> (r: bool)
        ensures
            r <==> self.pos == self.chunks@.len(),
    {
        self.pos == self.chunks.len()
    }

    /// Hand out the pass's results: the records to store and the chunks
    /// given up on.
    pub fn finish(self) -> (r: (Vec<SignalMessageWithEmbedding>, Vec<SkippedChunk>))
        requires
            self.pos == self.chunks@.len(),
        ensures
            r.0 == self.records,
            r.1 == self.skipped,
    {
        (self.records, self.skipped)
    }
}

/// Copy an optional text; the copy reads the same.
fn clone_opt_string(o: &Option<String>) -> (r: Option<String>)
    ensures
        opt_text(r) == opt_text(*o),
{
    match o {
        Some(s) => Some(s.clone()),
        None => None,
    }
}

/// Copy a list of texts; the copies read the same.
fn clone_strings(v: &Vec<String>) -> (r: Vec<String>)
    ensures
        views_of(r@) == views_of(v@),
{
    let mut r: Vec<String> = Vec::new();
    let mut i: usize = 0;
    proof {
        assert(views_of(r@) =~= views_of(v@).take(0));
    }
    while i < v.len()
        invariant
            i <= v@.len(),
            views_of(r@) == views_of(v@).take(i as int),
        decreases v@.len() - i,
    {
        let c = v[i].clone();
        let ghost prev = r@;
        let ghost cv = c;
        r.push(c);
        proof {
            assert(prev.len() == views_of(prev).len());
            assert(views_of(prev).len() == i as int);
            assert(r@ == prev.push(cv));
            assert forall|k: int| 0 <= k < i + 1 implies #[trigger] views_of(r@)[k] == views_of(
                v@,
            ).take(i + 1)[k] by {
                assert(views_of(r@)[k] == r@[k]@);
                if k < i as int {
                    assert(r@[k] == prev[k]);
                    assert(prev[k]@ == views_of(prev)[k]);
                    assert(views_of(prev)[k] == views_of(v@).take(i as int)[k]);
                } else {
                    assert(r@[k] == cv);
                    assert(cv@ == v@[k]@);
                }
            }
            assert(views_of(r@) =~= views_of(v@).take(i + 1));
        }
        i = i + 1;
    }
    proof {
        assert(views_of(v@).take(v@.len() as int) =~= views_of(v@));
    }
    r
}

/// Copy an optional list of texts; the copies read the same.
fn clone_opt_strings(o: &Option<Vec<String>>) -> (r: Option<Vec<String>>)
    ensures
        opt_texts(r) == opt_texts(*o),
{
    match o {
        Some(v) => Some(clone_strings(v)),
        None => None,
    }
}

} // verus!
