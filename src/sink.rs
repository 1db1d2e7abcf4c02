use vstd::prelude::*;
use crate::records::MatchRecord;

verus! {

/// The bytes of one CSV row holding the given fields, as the csv crate
/// writes it.
pub uninterp spec fn csv_row_of(fields: Seq<Seq<char>>) -> Seq<u8>;

/// The fields of a stored record, in column order.
pub open spec fn record_fields(r: MatchRecord) -> Seq<Seq<char>> {
    seq![r.public_key@, r.private_key_encoded@, r.note@]
}

/// The header fields, written once before any record.
pub open spec fn header_fields() -> Seq<Seq<char>> {
    seq!["Public Key"@, "Private Key"@, "Note"@]
}

/// The bytes of a sequence of records, one row after another.
pub open spec fn rows_of(records: Seq<MatchRecord>) -> Seq<u8>
    decreases records.len(),
{
    if records.len() == 0 {
        seq![]
    } else {
        rows_of(records.drop_last()) + csv_row_of(record_fields(records.last()))
    }
}

/// Relies on csv's `Writer::write_record` and `Writer::into_inner`, writing
/// one record into memory with a fresh writer: the first record of a writer is
/// accepted whatever its length, and writing to a `Vec` cannot fail, so the
/// result is the one row of the fields given.
#[verifier::external_body]
fn encode_row(fields: &[&str]) -> (r: Option<Vec<u8>>)
    ensures
        r is Some,
        r matches Some(bytes) ==> bytes@ == csv_row_of(fields@.map_values(|f: &str| f@)),
{
    let mut writer = csv::WriterBuilder::new().from_writer(Vec::new());
    match writer.write_record(fields) {
        Ok(()) => writer.into_inner().ok(),
        Err(_) => None,
    }
}

/// The header row of the output.
pub fn header_bytes() -> (r: Vec<u8>)
    ensures
        r@ == csv_row_of(header_fields()),
{
    let fields: [&str; 3] = ["Public Key", "Private Key", "Note"];
    let row = encode_row(&fields);
    assert(fields@.map_values(|f: &str| f@) =~= header_fields());
    match row {
        Some(bytes) => bytes,
        None => Vec::new(),
    }
}

/// The rows of a batch of records, in order, ready to be written at once.
pub fn encode_batch(batch: &Vec<MatchRecord>) -> (r: Vec<u8>)
    ensures
        r@ == rows_of(batch@),
{
    let mut out: Vec<u8> = Vec::new();
    let mut i: usize = 0;
    while i < batch.len()
        invariant
            i <= batch@.len(),
            out@ == rows_of(batch@.take(i as int)),
        decreases batch@.len() - i,
    {
        let rec = &batch[i];
        let fields: [&str; 3] = [
            rec.public_key.as_str(),
            rec.private_key_encoded.as_str(),
            rec.note.as_str(),
        ];
        assert(fields@.map_values(|f: &str| f@) =~= record_fields(*rec));
        let row = match encode_row(&fields) {
            Some(bytes) => bytes,
            None => Vec::new(),
        };
        assert(batch@.take(i + 1).drop_last() =~= batch@.take(i as int));
        let mut row = row;
        out.append(&mut row);
        i = i + 1;
    }
    assert(batch@.take(batch@.len() as int) =~= batch@);
    out
}

/// Collects the records that reach the sink and releases them in batches,
/// so that each write to storage carries many rows. Every record received is
/// released exactly once, in the order received.
pub struct RecordBatcher {
    pending: Vec<MatchRecord>,
    capacity: usize,
    received: Ghost<Seq<MatchRecord>>,
    released: Ghost<Seq<MatchRecord>>,
}

impl RecordBatcher {
    /// Records taken in so far.
    pub closed spec fn received(&self) -> Seq<MatchRecord> {
        self.received@
    }

    /// Records handed out so far, in order.
    pub closed spec fn released(&self) -> Seq<MatchRecord> {
        self.released@
    }

    /// Records held back until the batch fills or the sink closes; with a
    /// capacity of at least one, fewer than the capacity.
    pub closed spec fn pending(&self) -> Seq<MatchRecord> {
        self.pending@
    }

    pub closed spec fn capacity(&self) -> int {
        self.capacity as int
    }

    pub closed spec fn wf(&self) -> bool {
        &&& self.released@ + self.pending@ == self.received@
        &&& self.capacity >= 1 ==> self.pending@.len() < self.capacity
    }

    /// An empty batcher that releases a batch once it holds `capacity` records.
    pub fn new(capacity: usize) -> (b: RecordBatcher)
        ensures
            b.wf(),
            b.capacity() == capacity,
            b.received().len() == 0,
            b.released().len() == 0,
            b.pending().len() == 0,
    {
        let b = RecordBatcher {
            pending: Vec::new(),
            capacity,
            received: Ghost(Seq::empty()),
            released: Ghost(Seq::empty()),
        };
        assert(b.released@ + b.pending@ =~= b.received@);
        b
    }

    pub fn pending_len(&self) -> (r: usize)
        ensures
            r == self.pending().len(),
    {
        self.pending.len()
    }

    /// Takes in one record. When the batch is full it is released whole and
    /// returned; otherwise the record is held and nothing is returned.
    pub fn push(&mut self, record: MatchRecord) -> (out: Vec<MatchRecord>)
        requires
            old(self).wf(),
        ensures
            final(self).wf(),
            final(self).capacity() == old(self).capacity(),
            final(self).received() == old(self).received().push(record),
            old(self).pending().len() + 1 >= old(self).capacity() ==> {
                &&& out@ == old(self).pending().push(record)
                &&& final(self).pending().len() == 0
                &&& final(self).released() == old(self).released() + out@
            },
            old(self).pending().len() + 1 < old(self).capacity() ==> {
                &&& out@.len() == 0
                &&& final(self).pending() == old(self).pending().push(record)
                &&& final(self).released() == old(self).released()
            },
    {
        self.pending.push(record);
        self.received = Ghost(self.received@.push(record));
        if self.pending.len() >= self.capacity {
            let mut out: Vec<MatchRecord> = Vec::new();
            std::mem::swap(&mut out, &mut self.pending);
            self.released = Ghost(self.released@ + out@);
            assert(self.released@ + self.pending@ =~= self.received@);
            out
        } else {
            assert(self.released@ + self.pending@ =~= self.received@);
            Vec::new()
        }
    }

    /// Closes the sink: releases whatever is held. Afterwards every record
    /// received has been released, in order.
    pub fn finish(&mut self) -> (out: Vec<MatchRecord>)
        requires
            old(self).wf(),
        ensures
            final(self).wf(),
            out@ == old(self).pending(),
            final(self).pending().len() == 0,
            final(self).received() == old(self).received(),
            final(self).released() == old(self).received(),
    {
        let mut out: Vec<MatchRecord> = Vec::new();
        std::mem::swap(&mut out, &mut self.pending);
        self.released = Ghost(self.released@ + out@);
        assert(self.released@ + self.pending@ =~= self.received@);
        out
    }
}

/// No record is lost: once nothing is held back, the records released are
/// exactly the records received, as many and in the same order.
pub proof fn lemma_no_record_lost(b: RecordBatcher)
    requires
        b.wf(),
        b.pending().len() == 0,
    ensures
        b.released() == b.received(),
        b.released().len() == b.received().len(),
{
    assert(b.released() + b.pending() =~= b.released());
}

/// Writing batches one after another gives the same bytes as writing all
/// their records at once.
pub proof fn lemma_rows_concat(a: Seq<MatchRecord>, b: Seq<MatchRecord>)
    ensures
        rows_of(a + b) == rows_of(a) + rows_of(b),
    decreases b.len(),
{
    if b.len() == 0 {
        assert(a + b =~= a);
        assert(rows_of(a) + rows_of(b) =~= rows_of(a));
    } else {
        lemma_rows_concat(a, b.drop_last());
        assert((a + b).drop_last() =~= a + b.drop_last());
        assert((a + b).last() == b.last());
        assert(rows_of(a + b) =~= rows_of(a) + rows_of(b));
    }
}

} // verus!
