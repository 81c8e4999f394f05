//! The worker-side pipeline stages: batching decoded lines, parsing
//! and normalizing a batch, counting records for milestone logs, and
//! the backpressure accounting of the bounded work queue.
//!
//! The surrounding program runs one producer thread that feeds a
//! bounded channel of line batches and one worker pool that drains
//! it; everything each thread decides is a function here.

use vstd::prelude::*;
use crate::json::{LineV, parse_line, spec_parse_line};
use crate::records::{
    ParsedRecord, ParsedRecordV, RawRecord, bytes_views, normalize_holdings, normalize_title,
    spec_normalize_title,
};
use crate::store::{Database, apply_records, record_views, store_to_db};
use crate::laws::lemma_store_idempotent;

verus! {

/// Lines per batch handed to the work queue.
pub const CHANNEL_BATCH_SIZE: usize = 10000;

/// A milestone log is due every this many records.
pub const MILESTONE_INTERVAL: u64 = 1000000;

/// The normalized records one input line contributes: one title
/// record when the line is a title whose catalog identifier parses,
/// one holdings record when it is a holdings summary, nothing for an
/// unrecognized or malformed line or a title whose identifier does
/// not parse.
pub open spec fn spec_line_records(s: Seq<u8>) -> Seq<ParsedRecordV> {
    match spec_parse_line(s) {
        LineV::Title(tv) => match spec_normalize_title(tv) {
            Option::Some(p) => seq![p],
            Option::None => Seq::empty(),
        },
        LineV::Holdings(h) => seq![
            ParsedRecordV::Holdings {
                oclc_num: h.oclc_number,
                holdings: (h.total_holding_count, h.total_editions),
            },
        ],
        LineV::Other => Seq::empty(),
        LineV::Malformed => Seq::empty(),
    }
}

/// The normalized records of a batch, in line order.
pub open spec fn spec_batch_records(lines: Seq<Seq<u8>>) -> Seq<ParsedRecordV>
    decreases lines.len(),
{
    if lines.len() == 0 {
        Seq::empty()
    } else {
        spec_batch_records(lines.drop_last()) + spec_line_records(lines.last())
    }
}

/// How many lines of a batch are malformed.
pub open spec fn spec_batch_failures(lines: Seq<Seq<u8>>) -> int
    decreases lines.len(),
{
    if lines.len() == 0 {
        0
    } else {
        spec_batch_failures(lines.drop_last()) + if spec_parse_line(lines.last())
            is Malformed {
            1int
        } else {
            0int
        }
    }
}

/// Parse and normalize one batch of lines: every line is classified,
/// malformed lines are counted and skipped, and the records of the
/// remaining lines are collected in line order. A malformed line
/// never fails the batch.
pub fn process_batch(lines: &Vec<Vec<u8>>) -> (r: (Vec<ParsedRecord>, u64))
    ensures
        record_views(r.0@) == spec_batch_records(bytes_views(lines@)),
        r.1 as int == spec_batch_failures(bytes_views(lines@)),
        r.1 <= lines@.len(),
{
    let mut out: Vec<ParsedRecord> = Vec::new();
    let mut failures: u64 = 0;
    let mut i: usize = 0;
    while i < lines.len()
        invariant
            0 <= i <= lines@.len(),
            record_views(out@) == spec_batch_records(bytes_views(lines@).subrange(0, i as int)),
            failures as int == spec_batch_failures(bytes_views(lines@).subrange(0, i as int)),
            failures <= i,
        decreases lines@.len() - i,
    {
        proof {
            let views = bytes_views(lines@);
            assert(views.subrange(0, i as int + 1).drop_last() =~= views.subrange(0, i as int));
            assert(views.subrange(0, i as int + 1).last() == lines@[i as int]@);
        }
        let ghost out_before = record_views(out@);
        match parse_line(lines[i].as_slice()) {
            None => {
                failures = failures + 1;
            },
            Some(rec) => {
                match rec.metadata {
                    RawRecord::TitleJson { record } => {
                        match normalize_title(record) {
                            Some(p) => {
                                out.push(p);
                                proof {
                                    assert(record_views(out@) =~= out_before + seq![
                                        out@[out@.len() - 1]@,
                                    ]);
                                }
                            },
                            None => (),
                        }
                    },
                    RawRecord::SearchHoldings { record } => {
                        let p = normalize_holdings(record);
                        out.push(p);
                        proof {
                            assert(record_views(out@) =~= out_before + seq![
                                out@[out@.len() - 1]@,
                            ]);
                        }
                    },
                    RawRecord::Other => (),
                }
            },
        }
        proof {
            assert(record_views(out@) =~= record_views(out@) + Seq::<ParsedRecordV>::empty());
        }
        i = i + 1;
    }
    proof {
        assert(bytes_views(lines@).subrange(0, lines@.len() as int) =~= bytes_views(lines@));
    }
    (out, failures)
}

/// Parse, normalize and persist one batch of lines as one unit: the
/// store afterwards holds exactly the upserts of the batch's records,
/// applied in line order to the store as it was.
pub fn run_batch(db: &mut Database, lines: &Vec<Vec<u8>>) -> (failures: u64)
    requires
        old(db).wf(),
    ensures
        final(db).wf(),
        (final(db).title_map(), final(db).holdings_map()) == apply_records(
            old(db).title_map(),
            old(db).holdings_map(),
            spec_batch_records(bytes_views(lines@)),
        ),
        failures as int == spec_batch_failures(bytes_views(lines@)),
{
    let (records, failures) = process_batch(lines);
    store_to_db(db, records);
    failures
}

/// Idempotence of the pipeline: running the same lines against the
/// store a second time leaves both tables exactly as the first run
/// left them.
pub proof fn lemma_pipeline_idempotent(
    mt: Map<crate::store::TitleKey, crate::store::TitleRowV>,
    mh: Map<u64, crate::store::HoldingsRow>,
    lines: Seq<Seq<u8>>,
)
    ensures
        ({
            let once = apply_records(mt, mh, spec_batch_records(lines));
            apply_records(once.0, once.1, spec_batch_records(lines)) == once
        }),
{
    lemma_store_idempotent(mt, mh, spec_batch_records(lines));
}

/// The producer's batching state: lines accumulate until a batch
/// reaches capacity and is handed off whole.
pub struct LineBatcher {
    pub batch: Vec<Vec<u8>>,
    pub capacity: usize,
}

impl LineBatcher {
    /// The batcher never holds a full batch between calls.
    pub open spec fn wf(&self) -> bool {
        self.capacity > 0 && self.batch@.len() < self.capacity
    }

    /// An empty batcher for batches of `capacity` lines.
    pub fn new(capacity: usize) -> (b: Self)
        requires
            capacity > 0,
        ensures
            b.wf(),
            b.capacity == capacity,
            b.batch@.len() == 0,
    {
        LineBatcher { batch: Vec::new(), capacity }
    }

    /// Add one line. When that fills the batch, the full batch of
    /// exactly `capacity` lines is handed back, in arrival order, and
    /// the batcher is empty again; otherwise the line is held.
    pub fn push(&mut self, line: Vec<u8>) -> (r: Option<Vec<Vec<u8>>>)
        requires
            old(self).wf(),
        ensures
            final(self).wf(),
            final(self).capacity == old(self).capacity,
            match r {
                Option::Some(full) => {
                    &&& bytes_views(full@) == bytes_views(old(self).batch@).push(line@)
                    &&& full@.len() == old(self).capacity
                    &&& final(self).batch@.len() == 0
                },
                Option::None => {
                    &&& bytes_views(final(self).batch@) == bytes_views(old(self).batch@).push(
                        line@,
                    )
                    &&& final(self).batch@.len() == old(self).batch@.len() + 1
                },
            },
    {
        let ghost before = bytes_views(self.batch@);
        self.batch.push(line);
        proof {
            assert(bytes_views(self.batch@) =~= before.push(
                self.batch@[self.batch@.len() - 1]@,
            ));
        }
        if self.batch.len() == self.capacity {
            let mut full: Vec<Vec<u8>> = Vec::new();
            core::mem::swap(&mut full, &mut self.batch);
            Some(full)
        } else {
            None
        }
    }

    /// Hand back the final partial batch, if any line is held.
    pub fn finish(&mut self) -> (r: Option<Vec<Vec<u8>>>)
        requires
            old(self).wf(),
        ensures
            final(self).wf(),
            final(self).capacity == old(self).capacity,
            final(self).batch@.len() == 0,
            match r {
                Option::Some(rest) => bytes_views(rest@) == bytes_views(old(self).batch@)
                    && rest@.len() > 0,
                Option::None => old(self).batch@.len() == 0,
            },
    {
        if self.batch.len() > 0 {
            let mut rest: Vec<Vec<u8>> = Vec::new();
            core::mem::swap(&mut rest, &mut self.batch);
            Some(rest)
        } else {
            None
        }
    }
}

/// The shared running total of records seen, used to throttle
/// milestone logging.
pub struct RecordCounter {
    pub count: u64,
}

impl RecordCounter {
    /// A counter at zero.
    pub fn new() -> (c: Self)
        ensures
            c.count == 0,
    {
        RecordCounter { count: 0 }
    }

    /// Add a batch's line count and hand back the new total.
    pub fn add_batch(&mut self, n: u64) -> (total: u64)
        requires
            old(self).count + n <= u64::MAX,
        ensures
            final(self).count == old(self).count + n,
            total == final(self).count,
    {
        self.count = self.count + n;
        self.count
    }
}

/// Whether a new total has just crossed a milestone boundary: a
/// milestone log is due when the total modulo the interval is below
/// the batch size.
pub fn milestone_reached(total: u64, batch_size: u64) -> (r: bool)
    ensures
        r == (total % MILESTONE_INTERVAL < batch_size),
{
    total % MILESTONE_INTERVAL < batch_size
}

/// Backpressure accounting of the bounded work queue: how many
/// batches sit in the queue and how many are held by workers. The
/// producer blocks rather than enqueue past capacity, so these
/// transitions are the only moves the pipeline makes.
pub struct QueueFlow {
    /// Queue capacity, in batches.
    pub capacity: u64,
    /// Number of workers.
    pub workers: u64,
    /// Lines per batch.
    pub batch_size: u64,
    /// Batches currently in the queue.
    pub queued: u64,
    /// Batches currently held by workers.
    pub in_worker: u64,
}

impl QueueFlow {
    /// The queue never exceeds its capacity and each worker holds at
    /// most one batch.
    pub open spec fn wf(&self) -> bool {
        self.queued <= self.capacity && self.in_worker <= self.workers
    }

    /// Lines in flight: every queued or in-work batch counts in full.
    pub open spec fn lines_in_flight(&self) -> int {
        (self.queued + self.in_worker) * self.batch_size
    }

    /// An idle pipeline.
    pub fn new(capacity: u64, workers: u64, batch_size: u64) -> (q: Self)
        ensures
            q.wf(),
            q.capacity == capacity,
            q.workers == workers,
            q.batch_size == batch_size,
            q.queued == 0,
            q.in_worker == 0,
    {
        QueueFlow { capacity, workers, batch_size, queued: 0, in_worker: 0 }
    }

    /// The producer enqueues a full batch; it blocks first unless the
    /// queue has room.
    pub fn enqueue(&mut self)
        requires
            old(self).wf(),
            old(self).queued < old(self).capacity,
        ensures
            final(self).wf(),
            *final(self) == (QueueFlow { queued: (old(self).queued + 1) as u64, ..*old(self) }),
    {
        self.queued = self.queued + 1;
    }

    /// An idle worker takes a batch off the queue.
    pub fn begin_batch(&mut self)
        requires
            old(self).wf(),
            old(self).queued > 0,
            old(self).in_worker < old(self).workers,
        ensures
            final(self).wf(),
            *final(self) == (QueueFlow {
                queued: (old(self).queued - 1) as u64,
                in_worker: (old(self).in_worker + 1) as u64,
                ..*old(self)
            }),
    {
        self.queued = self.queued - 1;
        self.in_worker = self.in_worker + 1;
    }

    /// A worker finishes persisting its batch.
    pub fn finish_batch(&mut self)
        requires
            old(self).wf(),
            old(self).in_worker > 0,
        ensures
            final(self).wf(),
            *final(self) == (QueueFlow {
                in_worker: (old(self).in_worker - 1) as u64,
                ..*old(self)
            }),
    {
        self.in_worker = self.in_worker - 1;
    }

    /// Backpressure bound: in every reachable state — the transitions
    /// above preserve well-formedness — the lines in flight never
    /// exceed (capacity + workers) × batch size.
    pub proof fn lemma_backpressure(&self)
        requires
            self.wf(),
        ensures
            self.lines_in_flight() <= (self.capacity + self.workers) * self.batch_size,
    {
        assert((self.queued + self.in_worker) * self.batch_size <= (self.capacity + self.workers)
            * self.batch_size) by (nonlinear_arith)
            requires
                self.queued + self.in_worker <= self.capacity + self.workers,
                self.batch_size >= 0,
        ;
    }
}

} // verus!
