//! The job queue and its statistics: a strict FIFO model of the
//! multi-producer / single-consumer channel, and the shared counters that
//! producers and the worker keep consistent.

use vstd::prelude::*;

use crate::textfmt::{decimal_digits, u64_to_string};

verus! {

/// One unit of submitted media awaiting transcription. Immutable once
/// created; the delivery context is carried as plain chat and message
/// identifiers.
#[derive(Clone)]
pub struct QueueItem {
    pub id: String,
    pub chat_id: i64,
    pub message_id: i32,
    pub reply_to_message_id: i32,
    pub file_data: Vec<u8>,
    pub original_filename: String,
    pub user_info: String,
    pub user_id: u64,
    pub username: Option<String>,
}

/// Relies on uuid's `Uuid::new_v4` and its hyphenated `Display` form: a
/// fresh random identifier rendered as 36 characters of lowercase hex
/// digits and hyphens. Nothing else can be promised of a random value.
#[verifier::external_body]
fn new_job_id() -> (r: String)
    ensures
        r@.len() == 36,
        forall|i: int|
            0 <= i < 36 ==> (r@[i] == '-' || ('0' <= r@[i] && r@[i] <= '9') || ('a' <= r@[i]
                && r@[i] <= 'f')),
{
    uuid::Uuid::new_v4().to_string()
}

impl QueueItem {
    /// Builds a job with a fresh unique identifier; every other field is
    /// taken unchanged from the producer.
    pub fn new(
        chat_id: i64,
        message_id: i32,
        reply_to_message_id: i32,
        file_data: Vec<u8>,
        original_filename: String,
        user_info: String,
        user_id: u64,
        username: Option<String>,
    ) -> (r: Self)
        ensures
            r.id@.len() == 36,
            forall|i: int|
                0 <= i < 36 ==> (r.id@[i] == '-' || ('0' <= r.id@[i] && r.id@[i] <= '9') || ('a'
                    <= r.id@[i] && r.id@[i] <= 'f')),
            r.chat_id == chat_id,
            r.message_id == message_id,
            r.reply_to_message_id == reply_to_message_id,
            r.file_data == file_data,
            r.original_filename == original_filename,
            r.user_info == user_info,
            r.user_id == user_id,
            r.username == username,
    {
        QueueItem {
            id: new_job_id(),
            chat_id,
            message_id,
            reply_to_message_id,
            file_data,
            original_filename,
            user_info,
            user_id,
            username,
        }
    }
}

/// The error a producer sees when the consumer side of the queue is gone.
/// Closure is the only way `enqueue` can fail: the queue is unbounded and
/// never rejects a job for being full.
#[derive(Debug, Clone, Copy, PartialEq, Eq, Structural)]
pub struct QueueClosed;

/// The ordered multi-producer / single-consumer job queue. `jobs()` is the
/// sequence still awaiting the worker, oldest first.
pub struct JobQueue {
    items: Vec<QueueItem>,
    closed: bool,
}

impl JobQueue {
    /// The jobs accepted and not yet taken by the worker, in acceptance order.
    pub closed spec fn jobs(&self) -> Seq<QueueItem> {
        self.items@
    }

    /// Whether the consumer side has gone away.
    pub closed spec fn is_closed(&self) -> bool {
        self.closed
    }

    pub fn new() -> (q: Self)
        ensures
            q.jobs() == Seq::<QueueItem>::empty(),
            !q.is_closed(),
    {
        JobQueue { items: Vec::new(), closed: false }
    }

    /// Accepts a job at the tail, returning the queue size immediately
    /// after acceptance (the user-visible position). Fails exactly when the
    /// queue has been closed, leaving the queue unchanged.
    pub fn enqueue(&mut self, item: QueueItem) -> (r: Result<u64, QueueClosed>)
        requires
            old(self).jobs().len() < usize::MAX,
        ensures
            old(self).is_closed() ==> r == Err::<u64, QueueClosed>(QueueClosed) && final(self).jobs()
                == old(self).jobs() && final(self).is_closed(),
            !old(self).is_closed() ==> r == Ok::<u64, QueueClosed>(
                (old(self).jobs().len() + 1) as u64,
            ) && final(self).jobs() == old(self).jobs().push(item) && !final(self).is_closed(),
    {
        if self.closed {
            Err(QueueClosed)
        } else {
            self.items.push(item);
            Ok(self.items.len() as u64)
        }
    }

    /// Hands the worker the oldest waiting job, or nothing when the queue
    /// is empty. Jobs leave in exactly the order `enqueue` accepted them.
    pub fn dequeue(&mut self) -> (r: Option<QueueItem>)
        ensures
            old(self).jobs().len() == 0 ==> r is None && final(self).jobs() == old(self).jobs(),
            old(self).jobs().len() > 0 ==> r == Some(old(self).jobs()[0]) && final(self).jobs() == old(
                self,
            ).jobs().drop_first(),
            final(self).is_closed() == old(self).is_closed(),
    {
        if self.items.len() == 0 {
            None
        } else {
            let item = self.items.remove(0);
            assert(self.items@ =~= old(self).items@.drop_first());
            Some(item)
        }
    }

    /// Marks the consumer side gone; every later `enqueue` fails.
    pub fn close(&mut self)
        ensures
            final(self).jobs() == old(self).jobs(),
            final(self).is_closed(),
    {
        self.closed = true;
    }

    pub fn len(&self) -> (n: usize)
        ensures
            n == self.jobs().len(),
    {
        self.items.len()
    }
}

/// What a worker that always takes the head of the queue observes, given
/// the jobs in acceptance order.
pub open spec fn worker_observation(jobs: Seq<QueueItem>) -> Seq<QueueItem>
    decreases jobs.len(),
{
    if jobs.len() == 0 {
        Seq::empty()
    } else {
        seq![jobs[0]] + worker_observation(jobs.drop_first())
    }
}

/// FIFO under concurrency: however many producers interleaved their calls,
/// the worker observes the jobs in exactly the order their `enqueue` calls
/// accepted them — taking heads one at a time yields the acceptance order
/// itself.
pub proof fn lemma_fifo_observation(jobs: Seq<QueueItem>)
    ensures
        worker_observation(jobs) == jobs,
    decreases jobs.len(),
{
    if jobs.len() == 0 {
        assert(worker_observation(jobs) =~= jobs);
    } else {
        lemma_fifo_observation(jobs.drop_first());
        assert(worker_observation(jobs) =~= jobs);
    }
}

/// Shared counters kept by producers and the worker: totals for the life
/// of the process, the live queue size, and the identifier of the job in
/// flight, if any.
pub struct QueueStatistics {
    pub total_queued: u64,
    pub total_processed: u64,
    pub total_failed: u64,
    pub current_queue_size: u64,
    pub processing_item_id: Option<String>,
}

/// The consistency invariant of the statistics: the live size is exactly
/// the accepted total minus the completed totals, and so can never go
/// negative.
pub open spec fn stats_consistent(s: QueueStatistics) -> bool {
    &&& s.total_processed + s.total_failed <= s.total_queued
    &&& s.current_queue_size == s.total_queued - s.total_processed - s.total_failed
}

impl QueueStatistics {
    /// The in-flight identifier as an abstract value, for contracts.
    pub open spec fn processing_view(&self) -> Option<Seq<char>> {
        match self.processing_item_id {
            Some(s) => Some(s@),
            None => None,
        }
    }

    pub fn new() -> (s: Self)
        ensures
            s.total_queued == 0,
            s.total_processed == 0,
            s.total_failed == 0,
            s.current_queue_size == 0,
            s.processing_view() is None,
            stats_consistent(s),
    {
        QueueStatistics {
            total_queued: 0,
            total_processed: 0,
            total_failed: 0,
            current_queue_size: 0,
            processing_item_id: None,
        }
    }

    /// A producer accepted one job into the queue.
    pub fn increment_queued(&mut self)
        requires
            old(self).total_queued < u64::MAX,
            old(self).current_queue_size < u64::MAX,
        ensures
            final(self).total_queued == old(self).total_queued + 1,
            final(self).current_queue_size == old(self).current_queue_size + 1,
            final(self).total_processed == old(self).total_processed,
            final(self).total_failed == old(self).total_failed,
            final(self).processing_view() == old(self).processing_view(),
            stats_consistent(*old(self)) ==> stats_consistent(*final(self)),
    {
        self.total_queued = self.total_queued + 1;
        self.current_queue_size = self.current_queue_size + 1;
    }

    /// The worker completed the in-flight job successfully: exactly the
    /// processed total rises, the live size falls by one (saturating), and
    /// no job is in flight afterwards.
    pub fn increment_processed(&mut self)
        requires
            old(self).total_processed < u64::MAX,
        ensures
            final(self).total_processed == old(self).total_processed + 1,
            final(self).current_queue_size == if old(self).current_queue_size > 0 {
                (old(self).current_queue_size - 1) as u64
            } else {
                0u64
            },
            final(self).total_queued == old(self).total_queued,
            final(self).total_failed == old(self).total_failed,
            final(self).processing_view() is None,
            stats_consistent(*old(self)) && old(self).current_queue_size > 0 ==> stats_consistent(
                *final(self),
            ),
    {
        self.total_processed = self.total_processed + 1;
        self.current_queue_size = if self.current_queue_size > 0 {
            self.current_queue_size - 1
        } else {
            0
        };
        self.processing_item_id = None;
    }

    /// The worker completed the in-flight job with a failure: exactly the
    /// failed total rises, the live size falls by one (saturating), and no
    /// job is in flight afterwards.
    pub fn increment_failed(&mut self)
        requires
            old(self).total_failed < u64::MAX,
        ensures
            final(self).total_failed == old(self).total_failed + 1,
            final(self).current_queue_size == if old(self).current_queue_size > 0 {
                (old(self).current_queue_size - 1) as u64
            } else {
                0u64
            },
            final(self).total_queued == old(self).total_queued,
            final(self).total_processed == old(self).total_processed,
            final(self).processing_view() is None,
            stats_consistent(*old(self)) && old(self).current_queue_size > 0 ==> stats_consistent(
                *final(self),
            ),
    {
        self.total_failed = self.total_failed + 1;
        self.current_queue_size = if self.current_queue_size > 0 {
            self.current_queue_size - 1
        } else {
            0
        };
        self.processing_item_id = None;
    }

    /// The worker began a job: its identifier is in flight from here until
    /// the matching completion increment clears it.
    pub fn set_processing(&mut self, item_id: String)
        ensures
            final(self).processing_view() == Some(item_id@),
            final(self).total_queued == old(self).total_queued,
            final(self).total_processed == old(self).total_processed,
            final(self).total_failed == old(self).total_failed,
            final(self).current_queue_size == old(self).current_queue_size,
            stats_consistent(*old(self)) ==> stats_consistent(*final(self)),
    {
        self.processing_item_id = Some(item_id);
    }

    /// A producer's compensation when an accepted job never reached the
    /// queue (it closed between acceptance and send): the live size is
    /// taken back down, saturating at zero.
    pub fn decrement_queue_size(&mut self)
        ensures
            final(self).current_queue_size == if old(self).current_queue_size > 0 {
                (old(self).current_queue_size - 1) as u64
            } else {
                0u64
            },
            final(self).total_queued == old(self).total_queued,
            final(self).total_processed == old(self).total_processed,
            final(self).total_failed == old(self).total_failed,
            final(self).processing_view() == old(self).processing_view(),
    {
        self.current_queue_size = if self.current_queue_size > 0 {
            self.current_queue_size - 1
        } else {
            0
        };
    }

    /// A consistent point-in-time copy of every field.
    pub fn snapshot(&self) -> (r: QueueStatistics)
        ensures
            r.total_queued == self.total_queued,
            r.total_processed == self.total_processed,
            r.total_failed == self.total_failed,
            r.current_queue_size == self.current_queue_size,
            r.processing_view() == self.processing_view(),
    {
        QueueStatistics {
            total_queued: self.total_queued,
            total_processed: self.total_processed,
            total_failed: self.total_failed,
            current_queue_size: self.current_queue_size,
            processing_item_id: match &self.processing_item_id {
                Some(id) => Some(id.clone()),
                None => None,
            },
        }
    }
}

impl Default for QueueStatistics {
    fn default() -> (s: Self)
        ensures
            s.total_queued == 0,
            s.total_processed == 0,
            s.total_failed == 0,
            s.current_queue_size == 0,
            s.processing_view() is None,
    {
        QueueStatistics::new()
    }
}

/// The status line for the in-flight indicator: the first eight characters
/// of the identifier of the job being worked on, or an idle marker.
pub open spec fn processing_info_text(processing: Option<Seq<char>>) -> Seq<char> {
    match processing {
        Some(id) => "Currently processing: "@ + if id.len() >= 8 {
            id.take(8)
        } else {
            id
        },
        None => "Idle"@,
    }
}

/// The full status report for a statistics snapshot. A pure function of
/// the snapshot: rendering the same snapshot twice yields identical text.
pub open spec fn status_text(s: QueueStatistics) -> Seq<char> {
    "\u{1F504} *Queue Status:*\n\u{1F4CA} Current queue size: "@ + decimal_digits(
        s.current_queue_size as nat,
    ) + "\n\u{2699}\u{FE0F} Status: "@ + processing_info_text(s.processing_view())
        + "\n\u{2705} Total processed: "@ + decimal_digits(s.total_processed as nat)
        + "\n\u{274C} Total failed: "@ + decimal_digits(s.total_failed as nat)
        + "\n\u{1F4E5} Total queued: "@ + decimal_digits(s.total_queued as nat)
}

/// Renders the read-only status report from a statistics snapshot, exactly
/// as `status_text` describes. No side effects: the caller takes a snapshot
/// under the lock and renders it afterwards.
pub fn get_queue_status(stats: &QueueStatistics) -> (r: String)
    ensures
        r@ == status_text(*stats),
{
    let mut out = String::from_str("\u{1F504} *Queue Status:*\n\u{1F4CA} Current queue size: ");
    let size = u64_to_string(stats.current_queue_size);
    out.append(size.as_str());
    out.append("\n\u{2699}\u{FE0F} Status: ");
    match &stats.processing_item_id {
        Some(id) => {
            out.append("Currently processing: ");
            if id.as_str().unicode_len() >= 8 {
                let prefix = id.as_str().substring_char(0, 8);
                proof {
                    assert(id@.subrange(0, 8) =~= id@.take(8));
                }
                out.append(prefix);
            } else {
                out.append(id.as_str());
            }
        },
        None => {
            out.append("Idle");
        },
    }
    out.append("\n\u{2705} Total processed: ");
    let processed = u64_to_string(stats.total_processed);
    out.append(processed.as_str());
    out.append("\n\u{274C} Total failed: ");
    let failed = u64_to_string(stats.total_failed);
    out.append(failed.as_str());
    out.append("\n\u{1F4E5} Total queued: ");
    let queued = u64_to_string(stats.total_queued);
    out.append(queued.as_str());
    out
}

/// Idempotence of status rendering: two snapshots that agree field for
/// field render to identical status text.
pub proof fn lemma_status_render_idempotent(a: QueueStatistics, b: QueueStatistics)
    requires
        a.total_queued == b.total_queued,
        a.total_processed == b.total_processed,
        a.total_failed == b.total_failed,
        a.current_queue_size == b.current_queue_size,
        a.processing_view() == b.processing_view(),
    ensures
        status_text(a) == status_text(b),
{
}

} // verus!
