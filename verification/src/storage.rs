//! The upload queue and the upload counters.
//!
//! `UploadQueue` is a bounded FIFO of `PendingUpload` items: enqueueing past
//! `max_queue_size` is rejected (never blocks, never grows the queue), and
//! batches of at most `batch_size` items leave from the front in arrival
//! order. `UploadStats` holds the monotonically increasing counters of a run.

use std::collections::VecDeque;
use vstd::prelude::*;

verus! {

/// An archive waiting to be uploaded: where it lies and which locality it is.
#[derive(Debug, Clone)]
pub struct PendingUpload {
    pub country_code: String,
    pub locality_id: u32,
    pub file_path: String,
}

impl PendingUpload {
    pub fn new(country_code: String, locality_id: u32, file_path: String) -> (r: Self)
        ensures
            r.country_code == country_code,
            r.locality_id == locality_id,
            r.file_path == file_path,
    {
        Self { country_code, locality_id, file_path }
    }
}

/// A finished upload: the locality, the content id the storage network
/// assigned, and how many bytes went up.
#[derive(Debug, Clone)]
pub struct CompletedUpload {
    pub country_code: String,
    pub locality_id: u32,
    pub cid: String,
    pub file_size: u64,
}

impl CompletedUpload {
    pub fn new(country_code: String, locality_id: u32, cid: String, file_size: u64) -> (r: Self)
        ensures
            r.country_code == country_code,
            r.locality_id == locality_id,
            r.cid == cid,
            r.file_size == file_size,
    {
        Self { country_code, locality_id, cid, file_size }
    }
}

/// The one way an enqueue can fail: the queue is at capacity.
#[derive(Debug)]
pub enum QueueError {
    QueueFull,
}

/// A bounded FIFO of uploads not yet attempted.
#[derive(Debug)]
pub struct UploadQueue {
    pending_uploads: VecDeque<PendingUpload>,
    batch_size: usize,
    max_queue_size: usize,
}

impl UploadQueue {
    /// The queued items, oldest first.
    pub closed spec fn pending(&self) -> Seq<PendingUpload> {
        self.pending_uploads@
    }

    /// How many items leave in one batch.
    pub closed spec fn spec_batch_size(&self) -> usize {
        self.batch_size
    }

    /// The capacity past which enqueues are rejected.
    pub closed spec fn spec_max_queue_size(&self) -> usize {
        self.max_queue_size
    }

    /// The queue never holds more than its capacity.
    pub open spec fn wf(&self) -> bool {
        self.pending().len() <= self.spec_max_queue_size()
    }

    pub fn new(batch_size: usize, max_queue_size: usize) -> (r: Self)
        ensures
            r.pending() == Seq::<PendingUpload>::empty(),
            r.spec_batch_size() == batch_size,
            r.spec_max_queue_size() == max_queue_size,
            r.wf(),
    {
        Self { pending_uploads: VecDeque::new(), batch_size, max_queue_size }
    }

    /// Enqueue one item. At capacity this fails closed: the item is rejected
    /// and the queue is left exactly as it was, so the queue can never grow
    /// past `max_queue_size`.
    pub fn add_upload(&mut self, upload: PendingUpload) -> (r: Result<(), QueueError>)
        ensures
            final(self).spec_batch_size() == old(self).spec_batch_size(),
            final(self).spec_max_queue_size() == old(self).spec_max_queue_size(),
            old(self).pending().len() >= old(self).spec_max_queue_size() ==> {
                &&& r matches Err(QueueError::QueueFull)
                &&& *final(self) == *old(self)
            },
            old(self).pending().len() < old(self).spec_max_queue_size() ==> {
                &&& r matches Ok(())
                &&& final(self).pending() == old(self).pending().push(upload)
            },
            old(self).wf() ==> final(self).wf(),
    {
        if self.pending_uploads.len() >= self.max_queue_size {
            return Err(QueueError::QueueFull);
        }
        self.pending_uploads.push_back(upload);
        Ok(())
    }

    /// Remove and return the oldest `min(batch_size, len)` items, in arrival
    /// order; the rest stay queued, order kept.
    pub fn take_batch(&mut self) -> (batch: Vec<PendingUpload>)
        ensures
            final(self).spec_batch_size() == old(self).spec_batch_size(),
            final(self).spec_max_queue_size() == old(self).spec_max_queue_size(),
            batch@.len() == vstd::math::min(
                old(self).spec_batch_size() as int,
                old(self).pending().len() as int,
            ),
            batch@ == old(self).pending().take(batch@.len() as int),
            final(self).pending() == old(self).pending().skip(batch@.len() as int),
            old(self).wf() ==> final(self).wf(),
    {
        let n = if self.batch_size <= self.pending_uploads.len() {
            self.batch_size
        } else {
            self.pending_uploads.len()
        };
        let mut batch: Vec<PendingUpload> = Vec::new();
        let ghost initial = self.pending_uploads@;
        for i in 0..n
            invariant
                n <= initial.len(),
                batch@.len() == i,
                batch@ == initial.take(i as int),
                self.pending_uploads@ == initial.skip(i as int),
                self.batch_size == old(self).batch_size,
                self.max_queue_size == old(self).max_queue_size,
        {
            let item = self.pending_uploads.pop_front();
            match item {
                Some(it) => {
                    proof {
                        assert(initial.take(i + 1) =~= initial.take(i as int).push(
                            initial[i as int],
                        ));
                        assert(initial.skip(i as int).skip(1) =~= initial.skip(i + 1));
                    }
                    batch.push(it);
                },
                None => {
                    proof {
                        assert(false);
                    }
                },
            }
        }
        batch
    }

    /// Whether a drain is due: one full batch is waiting.
    pub fn is_full(&self) -> (r: bool)
        ensures
            r == (self.pending().len() >= self.spec_batch_size()),
    {
        self.pending_uploads.len() >= self.batch_size
    }

    pub fn is_empty(&self) -> (r: bool)
        ensures
            r == (self.pending().len() == 0),
    {
        self.pending_uploads.len() == 0
    }
}

/// Counters of a pipeline run; they only ever go up.
#[derive(Debug, Clone)]
pub struct UploadStats {
    pub total_uploaded: u64,
    pub total_failed: u64,
    pub total_bytes_uploaded: u64,
}

impl UploadStats {
    pub fn new() -> (r: Self)
        ensures
            r.total_uploaded == 0,
            r.total_failed == 0,
            r.total_bytes_uploaded == 0,
    {
        Self { total_uploaded: 0, total_failed: 0, total_bytes_uploaded: 0 }
    }

    /// Record one successful upload of `bytes` bytes.
    pub fn increment_uploaded(&mut self, bytes: u64)
        requires
            old(self).total_uploaded < u64::MAX,
            old(self).total_bytes_uploaded + bytes <= u64::MAX,
        ensures
            final(self).total_uploaded == old(self).total_uploaded + 1,
            final(self).total_bytes_uploaded == old(self).total_bytes_uploaded + bytes,
            final(self).total_failed == old(self).total_failed,
    {
        self.total_uploaded = self.total_uploaded + 1;
        self.total_bytes_uploaded = self.total_bytes_uploaded + bytes;
    }

    /// Record one failed upload.
    pub fn increment_failed(&mut self)
        requires
            old(self).total_failed < u64::MAX,
        ensures
            final(self).total_failed == old(self).total_failed + 1,
            final(self).total_uploaded == old(self).total_uploaded,
            final(self).total_bytes_uploaded == old(self).total_bytes_uploaded,
    {
        self.total_failed = self.total_failed + 1;
    }
}

impl Default for UploadStats {
    fn default() -> (r: Self)
        ensures
            r.total_uploaded == 0,
            r.total_failed == 0,
            r.total_bytes_uploaded == 0,
    {
        Self::new()
    }
}

} // verus!
