//! The vector store, modelled as the append-only relation the rows land in.
//!
//! Each record is one row; a batch is written row by row, and one row
//! failing never stops the rest. The store enforces the schema's fixed
//! vector dimensionality and an idempotent natural key, `(message_id,
//! chunk_index)`: a duplicate insert is refused, so redelivered upstream
//! events cannot double a row.

use crate::ingest::SignalMessageWithEmbedding;
use vstd::prelude::*;

verus! {

/// The fixed dimensionality of the vectors the store accepts.
pub const EMBEDDING_DIM: usize = 768;

/// Why one record was refused.
#[derive(Clone, Copy, Debug)]
pub enum WriteError {
    /// A row with the same `(message_id, chunk_index)` key already exists.
    DuplicateKey,
    /// The record's vector is not of the schema's dimensionality.
    DimensionMismatch,
}

/// One refused record: its position in the batch, and why.
#[derive(Clone, Copy, Debug)]
pub struct WriteFailure {
    pub record_position: usize,
    pub reason: WriteError,
}

/// What a batch write did: how many rows went in, and every refusal.
pub struct WriteReport {
    pub inserted: usize,
    pub failures: Vec<WriteFailure>,
}

/// The store: its rows, in insertion order.
pub struct VectorStore {
    pub rows: Vec<SignalMessageWithEmbedding>,
}

/// The natural key of a record.
pub open spec fn key_of(r: SignalMessageWithEmbedding) -> (u64, usize) {
    (r.message_id, r.chunk_index)
}

/// Whether some row of `rows` already carries `key`.
pub open spec fn contains_key(rows: Seq<SignalMessageWithEmbedding>, key: (u64, usize)) -> bool {
    exists|i: int| 0 <= i < rows.len() && key_of(#[trigger] rows[i]) == key
}

/// How the store answers one record offered against the rows present.
pub open spec fn write_error_of(
    rows: Seq<SignalMessageWithEmbedding>,
    rec: SignalMessageWithEmbedding,
) -> Option<WriteError> {
    if rec.embedding@.len() != EMBEDDING_DIM {
        Some(WriteError::DimensionMismatch)
    } else if contains_key(rows, key_of(rec)) {
        Some(WriteError::DuplicateKey)
    } else {
        None
    }
}

/// The rows after offering `recs` to a store holding `rows`, one record at
/// a time, in order; refused records leave the rows unchanged.
pub open spec fn rows_after(
    rows: Seq<SignalMessageWithEmbedding>,
    recs: Seq<SignalMessageWithEmbedding>,
) -> Seq<SignalMessageWithEmbedding>
    decreases recs.len(),
{
    if recs.len() == 0 {
        rows
    } else {
        let prev = rows_after(rows, recs.drop_last());
        if write_error_of(prev, recs.last()) is None {
            prev.push(recs.last())
        } else {
            prev
        }
    }
}

/// The refusals collected while offering `recs` to a store holding `rows`,
/// each with its position in the batch.
pub open spec fn failures_after(
    rows: Seq<SignalMessageWithEmbedding>,
    recs: Seq<SignalMessageWithEmbedding>,
) -> Seq<WriteFailure>
    decreases recs.len(),
{
    if recs.len() == 0 {
        Seq::empty()
    } else {
        let prev_rows = rows_after(rows, recs.drop_last());
        let fs = failures_after(rows, recs.drop_last());
        match write_error_of(prev_rows, recs.last()) {
            Some(e) => fs.push(
                (WriteFailure { record_position: (recs.len() - 1) as usize, reason: e }),
            ),
            None => fs,
        }
    }
}

impl VectorStore {
    /// The schema invariant: keys are unique and every vector has the fixed
    /// dimensionality.
    pub open spec fn wf(self) -> bool {
        &&& forall|i: int, j: int|
            #![trigger self.rows@[i], self.rows@[j]]
            0 <= i < j < self.rows@.len() ==> key_of(self.rows@[i]) != key_of(self.rows@[j])
        &&& forall|i: int|
            0 <= i < self.rows@.len() ==> (#[trigger] self.rows@[i]).embedding@.len()
                == EMBEDDING_DIM
    }

    /// An empty store.
    pub fn new() -> (r: VectorStore)
        ensures
            r.wf(),
            r.rows@.len() == 0,
    {
        VectorStore { rows: Vec::new() }
    }

    /// Whether a row with this key exists.
    pub fn has_key(&self, message_id: u64, chunk_index: usize) -> (r: bool)
        ensures
            r == contains_key(self.rows@, (message_id, chunk_index)),
    {
        let mut i: usize = 0;
        while i < self.rows.len()
            invariant
                i <= self.rows@.len(),
                forall|k: int|
                    0 <= k < i ==> key_of(#[trigger] self.rows@[k]) != (message_id, chunk_index),
            decreases self.rows@.len() - i,
        {
            let row = &self.rows[i];
            if row.message_id == message_id && row.chunk_index == chunk_index {
                proof {
                    assert(key_of(self.rows@[i as int]) == (message_id, chunk_index));
                }
                return true;
            }
            i = i + 1;
        }
        false
    }
}

/// Write a batch of records. Each record is offered on its own: a wrong
/// dimensionality or a duplicate key refuses that record and that record
/// only, and the refusals come back with their positions; everything else
/// is appended in order.
pub fn insert_embeddings_into_db(
    db: &mut VectorStore,
    msg_to_encode: Vec<SignalMessageWithEmbedding>,
) -> (r: WriteReport)
    requires
        old(db).wf(),
    ensures
        final(db).wf(),
        final(db).rows@ == rows_after(old(db).rows@, msg_to_encode@),
        r.failures@ == failures_after(old(db).rows@, msg_to_encode@),
        r.inserted + r.failures@.len() == msg_to_encode@.len(),
{
    let ghost orig = msg_to_encode@;
    let ghost old_rows = db.rows@;
    let mut todo = msg_to_encode;
    let n = todo.len();
    let mut failures: Vec<WriteFailure> = Vec::new();
    let mut inserted: usize = 0;
    let mut pos: usize = 0;
    proof {
        assert(todo@ =~= orig.skip(0));
        assert(orig.take(0) =~= Seq::<SignalMessageWithEmbedding>::empty());
    }
    while todo.len() > 0
        invariant
            orig.len() == n,
            pos <= n,
            todo@ == orig.skip(pos as int),
            db.wf(),
            db.rows@ == rows_after(old_rows, orig.take(pos as int)),
            failures@ == failures_after(old_rows, orig.take(pos as int)),
            inserted + failures@.len() == pos,
        decreases todo@.len(),
    {
        let rec = todo.remove(0);
        proof {
            assert(rec == orig[pos as int]);
            assert(todo@ =~= orig.skip(pos + 1));
            assert(orig.take(pos + 1).drop_last() =~= orig.take(pos as int));
            assert(orig.take(pos + 1).last() == orig[pos as int]);
        }
        let ghost rows_before = db.rows@;
        if rec.embedding.len() != EMBEDDING_DIM {
            failures.push(
                WriteFailure { record_position: pos, reason: WriteError::DimensionMismatch },
            );
        } else if db.has_key(rec.message_id, rec.chunk_index) {
            failures.push(WriteFailure { record_position: pos, reason: WriteError::DuplicateKey });
        } else {
            proof {
                assert forall|i: int| 0 <= i < rows_before.len() implies key_of(
                    #[trigger] rows_before[i],
                ) != key_of(rec) by {
                    if key_of(rows_before[i]) == key_of(rec) {
                        assert(contains_key(rows_before, key_of(rec)));
                    }
                }
            }
            db.rows.push(rec);
            inserted = inserted + 1;
        }
        pos = pos + 1;
    }
    proof {
        assert(orig.take(n as int) =~= orig);
    }
    WriteReport { inserted, failures }
}

/// All stored rows, in insertion order.
pub fn get_all_embeddings_from_db(db: &VectorStore) -> (r: &Vec<SignalMessageWithEmbedding>)
    ensures
        r@ == db.rows@,
{
    &db.rows
}

/// Offering the same natural key twice stores exactly one row: the first
/// record goes in, the second is refused as a duplicate, and the rows end
/// as the old rows plus that one record.
pub proof fn law_idempotent_insert(
    rows: Seq<SignalMessageWithEmbedding>,
    first: SignalMessageWithEmbedding,
    second: SignalMessageWithEmbedding,
)
    requires
        key_of(first) == key_of(second),
        !contains_key(rows, key_of(first)),
        first.embedding@.len() == EMBEDDING_DIM,
        second.embedding@.len() == EMBEDDING_DIM,
    ensures
        rows_after(rows, seq![first, second]) == rows.push(first),
        failures_after(rows, seq![first, second]) == seq![
            (WriteFailure { record_position: 1, reason: WriteError::DuplicateKey }),
        ],
{
    let recs = seq![first, second];
    assert(recs.drop_last() =~= seq![first]);
    assert(seq![first].drop_last() =~= Seq::<SignalMessageWithEmbedding>::empty());
    assert(rows_after(rows, Seq::<SignalMessageWithEmbedding>::empty()) == rows);
    assert(failures_after(rows, Seq::<SignalMessageWithEmbedding>::empty())
        == Seq::<WriteFailure>::empty());
    assert(rows_after(rows, seq![first]) == rows.push(first));
    assert(contains_key(rows.push(first), key_of(second))) by {
        assert(key_of(rows.push(first)[rows.len() as int]) == key_of(second));
    }
    assert(rows_after(rows, recs) == rows.push(first));
    assert(failures_after(rows, seq![first]) =~= Seq::<WriteFailure>::empty());
    assert(failures_after(rows, recs) =~= seq![
        (WriteFailure { record_position: 1, reason: WriteError::DuplicateKey }),
    ]);
}

} // verus!
