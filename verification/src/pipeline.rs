//! The upload pipeline's decision core.
//!
//! The surrounding process walks the archive tree, looks localities up in
//! the geographic index, uploads batches through the storage node and
//! persists mapping rows; this module decides what happens to each file and
//! keeps the run's accounting straight: every item accepted into the queue
//! is eventually counted as uploaded or failed, and items skipped or dropped
//! are counted as neither.

use crate::storage::{CompletedUpload, PendingUpload, UploadQueue, UploadStats};
use crate::text::{spec_parse_u32, parse_u32};
use vstd::prelude::*;

verus! {

/// Why the pipeline gave up on a run or an item.
#[derive(Debug)]
pub enum NodeOpsError {
    DatabaseError(String),
    NodeManagerError(String),
    FileError(String),
    QueueError(String),
}

/// What became of one scanned archive file.
#[derive(Debug, PartialEq, Eq, Structural)]
pub enum ItemOutcome {
    /// A mapping row already exists: idempotent re-run, nothing to do.
    AlreadyMapped,
    /// The item was accepted into the upload queue.
    Accepted,
    /// The queue was full; the item was dropped for this run.
    DroppedQueueFull,
}

/// The locality id embedded in an archive file name: the characters before
/// the `.pmtiles` suffix, read as a decimal number.
pub open spec fn spec_parse_locality_filename(n: Seq<char>) -> Option<u32> {
    if n.len() > 8 && n.subrange(n.len() - 8, n.len() as int) == ".pmtiles"@ {
        spec_parse_u32(n.take(n.len() - 8))
    } else {
        None
    }
}

/// Read the locality id out of an archive file name such as `5391959.pmtiles`.
pub fn parse_locality_filename(name: &str) -> (r: Option<u32>)
    ensures
        r == spec_parse_locality_filename(name@),
{
    proof {
        reveal_strlit(".pmtiles");
    }
    let len = name.unicode_len();
    if len <= 8 {
        return None;
    }
    let suffix = name.substring_char(len - 8, len);
    if !crate::text::str_eq(suffix, ".pmtiles") {
        return None;
    }
    let stem = name.substring_char(0, len - 8);
    proof {
        assert(stem@ =~= name@.take(name@.len() - 8));
    }
    parse_u32(stem)
}

/// The `Ok` payloads of a batch's upload results, in order.
pub open spec fn spec_successes(s: Seq<Result<CompletedUpload, NodeOpsError>>) -> Seq<
    CompletedUpload,
>
    decreases s.len(),
{
    if s.len() == 0 {
        Seq::empty()
    } else {
        let rest = spec_successes(s.drop_last());
        match s.last() {
            Ok(u) => rest.push(u),
            Err(_) => rest,
        }
    }
}

/// How many of a batch's upload results failed.
pub open spec fn spec_failure_count(s: Seq<Result<CompletedUpload, NodeOpsError>>) -> nat
    decreases s.len(),
{
    if s.len() == 0 {
        0
    } else {
        spec_failure_count(s.drop_last()) + (if s.last() is Err {
            1nat
        } else {
            0nat
        })
    }
}

/// Split a batch's results into the completed uploads, in order, and the
/// number of failures; no result is lost and none is counted twice.
pub fn partition_results(results: &Vec<Result<CompletedUpload, NodeOpsError>>) -> (r: (
    Vec<CompletedUpload>,
    u64,
))
    requires
        results@.len() <= u64::MAX,
    ensures
        r.0@ == spec_successes(results@),
        r.1 == spec_failure_count(results@),
        r.0@.len() + r.1 == results@.len(),
{
    let n = results.len();
    let mut successes: Vec<CompletedUpload> = Vec::new();
    let mut failed: u64 = 0;
    let mut i: usize = 0;
    proof {
        assert(results@.take(0) =~= Seq::<Result<CompletedUpload, NodeOpsError>>::empty());
    }
    while i < n
        invariant
            n == results@.len() <= u64::MAX,
            i <= n,
            successes@ == spec_successes(results@.take(i as int)),
            failed == spec_failure_count(results@.take(i as int)),
            successes@.len() + failed == i,
        decreases n - i,
    {
        proof {
            assert(results@.take(i + 1).drop_last() =~= results@.take(i as int));
            assert(results@.take(i + 1).last() == results@[i as int]);
        }
        match &results[i] {
            Ok(u) => {
                let copy = CompletedUpload {
                    country_code: u.country_code.clone(),
                    locality_id: u.locality_id,
                    cid: u.cid.clone(),
                    file_size: u.file_size,
                };
                proof {
                    assert(copy == results@[i as int]->Ok_0);
                }
                successes.push(copy);
            },
            Err(_) => {
                failed = failed + 1;
            },
        }
        i = i + 1;
    }
    proof {
        assert(results@.take(n as int) =~= results@);
    }
    (successes, failed)
}

/// The bytes of a batch of completed uploads, summed.
pub open spec fn spec_total_size(s: Seq<CompletedUpload>) -> int
    decreases s.len(),
{
    if s.len() == 0 {
        0
    } else {
        spec_total_size(s.drop_last()) + s.last().file_size
    }
}

/// The queue, the counters and the accounting of one pipeline run.
#[derive(Debug)]
pub struct UploadPipeline {
    queue: UploadQueue,
    stats: UploadStats,
    accepted: u64,
    in_flight: u64,
}

impl UploadPipeline {
    pub closed spec fn queue(&self) -> UploadQueue {
        self.queue
    }

    pub closed spec fn stats(&self) -> UploadStats {
        self.stats
    }

    /// Items accepted into the queue during this run.
    pub closed spec fn accepted(&self) -> u64 {
        self.accepted
    }

    /// Items taken in the current batch whose results are not yet recorded.
    pub closed spec fn in_flight(&self) -> u64 {
        self.in_flight
    }

    /// Every accepted item is queued, in flight, or counted exactly once.
    pub open spec fn wf(&self) -> bool {
        &&& self.queue().wf()
        &&& self.stats().total_uploaded + self.stats().total_failed + self.queue().pending().len()
            + self.in_flight() == self.accepted()
    }

    pub fn new(batch_size: usize, max_queue_size: usize) -> (r: Self)
        ensures
            r.wf(),
            r.queue().pending() == Seq::<PendingUpload>::empty(),
            r.queue().spec_batch_size() == batch_size,
            r.queue().spec_max_queue_size() == max_queue_size,
            r.stats().total_uploaded == 0,
            r.stats().total_failed == 0,
            r.stats().total_bytes_uploaded == 0,
            r.accepted() == 0,
            r.in_flight() == 0,
    {
        Self {
            queue: UploadQueue::new(batch_size, max_queue_size),
            stats: UploadStats::new(),
            accepted: 0,
            in_flight: 0,
        }
    }

    /// Decide one scanned file's fate. A file whose locality already has a
    /// mapping row is skipped (idempotent re-run); otherwise the item is
    /// queued, unless the queue is full, in which case it is dropped for
    /// this run and counted neither as uploaded nor as failed.
    pub fn process_file_for_upload(&mut self, pending: PendingUpload, already_mapped: bool) -> (r:
        ItemOutcome)
        requires
            old(self).wf(),
            old(self).accepted() < u64::MAX,
        ensures
            final(self).wf(),
            final(self).stats() == old(self).stats(),
            final(self).in_flight() == old(self).in_flight(),
            final(self).queue().spec_batch_size() == old(self).queue().spec_batch_size(),
            final(self).queue().spec_max_queue_size() == old(self).queue().spec_max_queue_size(),
            already_mapped ==> r == ItemOutcome::AlreadyMapped && *final(self) == *old(self),
            (!already_mapped && old(self).queue().pending().len()
                >= old(self).queue().spec_max_queue_size()) ==> (r
                == ItemOutcome::DroppedQueueFull && *final(self) == *old(self)),
            (!already_mapped && old(self).queue().pending().len()
                < old(self).queue().spec_max_queue_size()) ==> (r == ItemOutcome::Accepted
                && final(self).queue().pending() == old(self).queue().pending().push(pending)
                && final(self).accepted() == old(self).accepted() + 1),
    {
        if already_mapped {
            return ItemOutcome::AlreadyMapped;
        }
        match self.queue.add_upload(pending) {
            Ok(()) => {
                self.accepted = self.accepted + 1;
                ItemOutcome::Accepted
            },
            Err(_) => ItemOutcome::DroppedQueueFull,
        }
    }

    /// Whether a full batch is waiting and a drain is due.
    pub fn needs_drain(&self) -> (r: bool)
        ensures
            r == (self.queue().pending().len() >= self.queue().spec_batch_size()),
    {
        self.queue.is_full()
    }

    /// Whether anything is still queued.
    pub fn queue_is_empty(&self) -> (r: bool)
        ensures
            r == (self.queue().pending().len() == 0),
    {
        self.queue.is_empty()
    }

    /// Take the next batch off the queue; its items are in flight until
    /// their results are recorded. Batches are strictly sequential: a new
    /// one starts only after the previous one is fully recorded.
    pub fn take_batch(&mut self) -> (batch: Vec<PendingUpload>)
        requires
            old(self).wf(),
            old(self).in_flight() == 0,
        ensures
            final(self).wf(),
            final(self).stats() == old(self).stats(),
            final(self).accepted() == old(self).accepted(),
            batch@.len() == vstd::math::min(
                old(self).queue().spec_batch_size() as int,
                old(self).queue().pending().len() as int,
            ),
            batch@ == old(self).queue().pending().take(batch@.len() as int),
            final(self).queue().pending() == old(self).queue().pending().skip(
                batch@.len() as int,
            ),
            final(self).queue().spec_batch_size() == old(self).queue().spec_batch_size(),
            final(self).queue().spec_max_queue_size() == old(self).queue().spec_max_queue_size(),
            final(self).in_flight() == batch@.len(),
    {
        let batch = self.queue.take_batch();
        self.in_flight = batch.len() as u64;
        batch
    }

    /// Record a drained batch's outcome: one count per completed upload,
    /// with its bytes, and one failure count per failed item. Nothing else
    /// moves, so the accounting invariant is restored exactly.
    pub fn record_batch_results(&mut self, completed: &Vec<CompletedUpload>, failed_count: u64)
        requires
            old(self).wf(),
            completed@.len() + failed_count == old(self).in_flight(),
            old(self).stats().total_bytes_uploaded + spec_total_size(completed@) <= u64::MAX,
        ensures
            final(self).wf(),
            final(self).in_flight() == 0,
            final(self).queue() == old(self).queue(),
            final(self).accepted() == old(self).accepted(),
            final(self).stats().total_uploaded == old(self).stats().total_uploaded
                + completed@.len(),
            final(self).stats().total_failed == old(self).stats().total_failed + failed_count,
            final(self).stats().total_bytes_uploaded == old(self).stats().total_bytes_uploaded
                + spec_total_size(completed@),
    {
        let n = completed.len();
        let mut i: usize = 0;
        proof {
            assert(completed@.take(0) =~= Seq::<CompletedUpload>::empty());
        }
        while i < n
            invariant
                n == completed@.len(),
                i <= n,
                old(self).wf(),
                completed@.len() + failed_count == old(self).in_flight(),
                old(self).stats().total_bytes_uploaded + spec_total_size(completed@) <= u64::MAX,
                self.queue == old(self).queue,
                self.accepted == old(self).accepted,
                self.in_flight == old(self).in_flight,
                self.stats.total_uploaded == old(self).stats.total_uploaded + i,
                self.stats.total_failed == old(self).stats.total_failed,
                self.stats.total_bytes_uploaded == old(self).stats.total_bytes_uploaded
                    + spec_total_size(completed@.take(i as int)),
            decreases n - i,
        {
            proof {
                assert(completed@.take(i + 1).drop_last() =~= completed@.take(i as int));
                assert(completed@.take(i + 1).last() == completed@[i as int]);
                lemma_total_size_prefix_le(completed@, i + 1);
            }
            let bytes = completed[i].file_size;
            self.stats.increment_uploaded(bytes);
            i = i + 1;
        }
        proof {
            assert(completed@.take(n as int) =~= completed@);
        }
        let mut f: u64 = 0;
        while f < failed_count
            invariant
                f <= failed_count,
                old(self).wf(),
                completed@.len() + failed_count == old(self).in_flight(),
                self.queue == old(self).queue,
                self.accepted == old(self).accepted,
                self.in_flight == old(self).in_flight,
                self.stats.total_uploaded == old(self).stats.total_uploaded + completed@.len(),
                self.stats.total_failed == old(self).stats.total_failed + f,
                self.stats.total_bytes_uploaded == old(self).stats.total_bytes_uploaded
                    + spec_total_size(completed@),
            decreases failed_count - f,
        {
            self.stats.increment_failed();
            f = f + 1;
        }
        self.in_flight = 0;
    }

    /// A copy of the current counters.
    pub fn get_stats(&self) -> (r: UploadStats)
        ensures
            r == self.stats(),
    {
        UploadStats {
            total_uploaded: self.stats.total_uploaded,
            total_failed: self.stats.total_failed,
            total_bytes_uploaded: self.stats.total_bytes_uploaded,
        }
    }
}

/// A prefix of a batch never weighs more than the whole batch.
proof fn lemma_total_size_prefix_le(s: Seq<CompletedUpload>, i: int)
    requires
        0 <= i <= s.len(),
    ensures
        spec_total_size(s.take(i)) <= spec_total_size(s),
    decreases s.len() - i,
{
    if i < s.len() {
        lemma_total_size_prefix_le(s, i + 1);
        assert(s.take(i + 1).drop_last() =~= s.take(i));
    } else {
        assert(s.take(i) =~= s);
    }
}

/// After a full run — the queue drained and the last batch recorded — the
/// uploaded and failed counts together equal exactly the number of items
/// that were accepted into the queue during the run; items skipped as
/// already mapped and items dropped for a full queue count as neither.
pub proof fn lemma_full_run_accounting(p: &UploadPipeline)
    requires
        p.wf(),
        p.queue().pending().len() == 0,
        p.in_flight() == 0,
    ensures
        p.stats().total_uploaded + p.stats().total_failed == p.accepted(),
{
}

} // verus!
