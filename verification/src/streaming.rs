//! Decisions of the streaming pipeline: which pages to fetch, when a
//! download resumes, and what a producer does with each task.
use crate::flags::{bits_contain, XvcRegionFlags};
use crate::xvd::XvcRegion;
use vstd::prelude::*;
use vstd::std_specs::convert::FromSpecImpl;

verus! {

/// Bytes per page in the streaming pipeline.
pub const STREAM_PAGE_SIZE: usize = 4096;
/// Pages carried by one pipeline buffer.
pub const STREAM_PAGES_PER_BUFFER: usize = 128;
/// Bytes in one pipeline buffer.
pub const STREAM_RESULT_BUFFER_SIZE: usize = 524288;
/// A failed production is handed back for another try while its retry
/// count is below this bound.
pub const PRODUCER_MAX_RETRIES: u8 = 10;

/// A unit of work for a producer.
#[derive(Debug)]
pub enum ProducerTask {
    Download { page_number: u64, number_of_pages: u64, skip_progress: bool },
    Retry(ProducerResult),
    End,
}

/// A range of pages together with the buffer that holds (or will hold) them.
#[derive(Debug)]
pub struct ProducerResult {
    pub page_number: u64,
    pub number_of_pages: u64,
    pub retry_number: u8,
    pub buffer: Vec<u8>,
}

/// A range of pages handed on to decryption.
pub struct DecryptionResult {
    pub page_number: u64,
    pub number_of_pages: u64,
    pub buffer: Vec<u8>,
}

impl From<ProducerResult> for DecryptionResult {
    fn from(value: ProducerResult) -> (r: DecryptionResult) {
        DecryptionResult {
            page_number: value.page_number,
            number_of_pages: value.number_of_pages,
            buffer: value.buffer,
        }
    }
}

impl FromSpecImpl<ProducerResult> for DecryptionResult {
    open spec fn obeys_from_spec() -> bool {
        true
    }

    open spec fn from_spec(v: ProducerResult) -> DecryptionResult {
        DecryptionResult {
            page_number: v.page_number,
            number_of_pages: v.number_of_pages,
            buffer: v.buffer,
        }
    }
}

/// Where a package is streamed from.
pub enum StreamSource {
    File(String),
    Url(Vec<String>),
}

/// Progress reported by the pipeline, in bytes.
#[derive(Clone, Copy, PartialEq, Eq, Structural, Debug)]
pub enum StreamProgress {
    Download(u64),
    Write(u64),
    Resume(u64),
}

/// How many pipeline buffers fit in a memory budget of `max_memory_use` bytes.
pub fn memory_chunk_capacity(max_memory_use: u32) -> (n: usize)
    ensures
        n == max_memory_use / 524288,
{
    (max_memory_use / 524288) as usize
}

// ---------------------------------------------------------------------------
// Resident regions

/// Why the resident part of a package cannot be laid out.
#[derive(Clone, Copy, PartialEq, Eq, Structural, Debug)]
pub enum ResidentLayoutError {
    /// A resident region does not start where the previous one ended.
    Gap,
}

/// A region is resident when its flags contain `RESIDENT`.
pub open spec fn is_resident(r: XvcRegion) -> bool {
    bits_contain(r.flags.bits, 1)
}

/// Folds the resident regions of `regions` in order, starting at offset 0:
/// each one must start where the previous one ended; the result is the
/// end of the last one, or `None` at the first gap.
pub open spec fn resident_extent(regions: Seq<XvcRegion>) -> Option<int>
    decreases regions.len(),
{
    if regions.len() == 0 {
        Some(0)
    } else {
        match resident_extent(regions.drop_last()) {
            None => None,
            Some(o) => {
                let h = regions.last();
                if !is_resident(h) {
                    Some(o)
                } else if o != h.offset {
                    None
                } else {
                    Some(h.offset + h.length)
                }
            },
        }
    }
}

/// Every extent reached while folding the resident regions fits in a `u64`.
pub open spec fn resident_extents_fit(regions: Seq<XvcRegion>) -> bool {
    forall|k: int|
        0 <= k <= regions.len() ==> (#[trigger] resident_extent(regions.take(k)) matches Some(o)
            ==> o <= u64::MAX)
}

/// The length of the resident part of a package: its resident regions must
/// follow each other without gaps from offset 0.
pub fn resident_length(regions: &[XvcRegion]) -> (r: Result<u64, ResidentLayoutError>)
    requires
        resident_extents_fit(regions@),
    ensures
        match resident_extent(regions@) {
            Some(o) => r == Ok::<u64, ResidentLayoutError>(o as u64),
            None => r == Err::<u64, ResidentLayoutError>(ResidentLayoutError::Gap),
        },
{
    let mut o: u64 = 0;
    let mut i: usize = 0;
    assert(regions@.take(0) =~= Seq::<XvcRegion>::empty());
    while i < regions.len()
        invariant
            i <= regions@.len(),
            resident_extents_fit(regions@),
            resident_extent(regions@.take(i as int)) == Some(o as int),
        decreases regions@.len() - i,
    {
        let h = regions[i];
        proof {
            assert(regions@.take(i + 1).drop_last() =~= regions@.take(i as int));
            assert(regions@.take(i + 1).last() == h);
            assert(resident_extent(regions@.take(i + 1)) matches Some(x) ==> x <= u64::MAX);
        }
        if h.flags.contains(XvcRegionFlags::from_bits_retain(XvcRegionFlags::RESIDENT)) {
            if o != h.offset {
                proof {
                    lemma_resident_extent_gap_sticks(regions@, i as int + 1);
                    assert(regions@.take(regions@.len() as int) =~= regions@);
                }
                return Err(ResidentLayoutError::Gap);
            }
            o = h.offset + h.length;
        }
        i = i + 1;
    }
    assert(regions@.take(regions@.len() as int) =~= regions@);
    Ok(o)
}

/// Once the fold has hit a gap, every longer prefix has one too.
proof fn lemma_resident_extent_gap_sticks(s: Seq<XvcRegion>, k: int)
    requires
        0 <= k <= s.len(),
        resident_extent(s.take(k)) is None,
    ensures
        resident_extent(s) is None,
    decreases s.len() - k,
{
    if k < s.len() {
        assert(s.take(k + 1).drop_last() =~= s.take(k));
        lemma_resident_extent_gap_sticks(s, k + 1);
    } else {
        assert(s.take(k) =~= s);
    }
}

/// The total length of the resident regions of `regions`.
pub open spec fn resident_total(regions: Seq<XvcRegion>) -> int
    decreases regions.len(),
{
    if regions.len() == 0 {
        0
    } else if is_resident(regions.last()) {
        resident_total(regions.drop_last()) + regions.last().length
    } else {
        resident_total(regions.drop_last())
    }
}

/// When the resident regions follow each other without gaps, the resident
/// part is exactly as long as all resident regions together: they tile it
/// from offset 0.
pub proof fn lemma_resident_extent_is_total(regions: Seq<XvcRegion>)
    ensures
        resident_extent(regions) matches Some(o) ==> o == resident_total(regions),
    decreases regions.len(),
{
    if regions.len() > 0 {
        lemma_resident_extent_is_total(regions.drop_last());
    }
}

// ---------------------------------------------------------------------------
// Resuming

/// What to do with a resident file that may already exist on disk.
#[derive(Clone, Copy, PartialEq, Eq, Structural, Debug)]
pub enum ResumeDecision {
    /// The file already has the full resident length: nothing to download.
    Complete,
    /// The file is shorter than the resident length: continue from its size.
    ContinueFrom(u64),
    /// No usable file: download everything.
    Fresh,
}

impl ResumeDecision {
    /// The progress to report for this decision, if any.
    pub fn progress(&self, resident_length: u64) -> (p: Option<StreamProgress>)
        ensures
            match *self {
                ResumeDecision::Complete => p == Some(StreamProgress::Resume(resident_length)),
                ResumeDecision::ContinueFrom(n) => p == Some(StreamProgress::Resume(n)),
                ResumeDecision::Fresh => p is None,
            },
    {
        match *self {
            ResumeDecision::Complete => Some(StreamProgress::Resume(resident_length)),
            ResumeDecision::ContinueFrom(n) => Some(StreamProgress::Resume(n)),
            ResumeDecision::Fresh => None,
        }
    }

    /// The offset from which the download continues.
    pub fn continue_from(&self) -> (n: u64)
        ensures
            n == match *self {
                ResumeDecision::ContinueFrom(m) => m,
                _ => 0,
            },
    {
        match *self {
            ResumeDecision::ContinueFrom(m) => m,
            _ => 0,
        }
    }
}

/// Decides how to treat an existing resident file of size `existing_size`
/// (`None` when there is none): equal to the resident length means
/// complete, shorter means continue from its end, longer means start over.
pub fn plan_resume(existing_size: Option<u64>, resident_length: u64) -> (d: ResumeDecision)
    ensures
        match existing_size {
            Some(s) => if s == resident_length {
                d == ResumeDecision::Complete
            } else if s < resident_length {
                d == ResumeDecision::ContinueFrom(s)
            } else {
                d == ResumeDecision::Fresh
            },
            None => d == ResumeDecision::Fresh,
        },
        d matches ResumeDecision::ContinueFrom(n) ==> n < resident_length,
{
    match existing_size {
        Some(s) => {
            if s == resident_length {
                ResumeDecision::Complete
            } else if s < resident_length {
                ResumeDecision::ContinueFrom(s)
            } else {
                ResumeDecision::Fresh
            }
        },
        None => ResumeDecision::Fresh,
    }
}

// ---------------------------------------------------------------------------
// Scheduling the resident download

/// The first buffer to fetch when continuing from byte `continue_from`.
pub open spec fn first_buffer(continue_from: int) -> int {
    continue_from / 524288
}

/// The number of buffers that cover `resident_length` bytes.
pub open spec fn buffer_count(resident_length: int) -> int {
    (resident_length + 524287) / 524288
}

/// The pages still to fetch: whole pages of the resident part minus the
/// whole pages already saved.
pub open spec fn pages_to_fetch(continue_from: int, resident_length: int) -> int {
    resident_length / 4096 - continue_from / 4096
}

/// The pages that task `k` of the schedule asks for, when `left` pages
/// remained at the start: each task takes up to one buffer of the rest.
pub open spec fn scheduled_pages(left: int, k: int) -> int {
    if left - 128 * k >= 128 {
        128
    } else if left - 128 * k > 0 {
        left - 128 * k
    } else {
        0
    }
}

/// Task `k` of the resident download schedule.
pub open spec fn scheduled_task_matches(
    t: ProducerTask,
    continue_from: int,
    resident_length: int,
    k: int,
) -> bool {
    t matches ProducerTask::Download { page_number, number_of_pages, skip_progress }
        && page_number == (first_buffer(continue_from) + k) * 128
        && number_of_pages == scheduled_pages(pages_to_fetch(continue_from, resident_length), k)
        && !skip_progress
}

/// The download tasks for the resident part of a package, from the buffer
/// that holds byte `continue_from` up to the last buffer: one task per
/// buffer, each asking for the pages still missing, at most a buffer's worth.
pub fn resident_download_tasks(continue_from: u64, resident_length: u64) -> (tasks: Vec<
    ProducerTask,
>)
    requires
        continue_from <= resident_length,
    ensures
        tasks@.len() == buffer_count(resident_length as int) - first_buffer(continue_from as int),
        forall|k: int|
            0 <= k < tasks@.len() ==> #[trigger] scheduled_task_matches(
                tasks@[k],
                continue_from as int,
                resident_length as int,
                k,
            ),
{
    let start_buffer = continue_from / 524288;
    let n_buffers = resident_length / 524288 + if resident_length % 524288 == 0 {
        0
    } else {
        1
    };
    proof {
        assert(n_buffers == (resident_length + 524287) / 524288) by (nonlinear_arith)
            requires
                n_buffers == resident_length / 524288 + if resident_length % 524288 == 0 {
                    0int
                } else {
                    1int
                },
        ;
        assert(start_buffer <= n_buffers) by (nonlinear_arith)
            requires
                start_buffer == continue_from / 524288,
                n_buffers == (resident_length + 524287) / 524288,
                continue_from <= resident_length,
        ;
        assert(continue_from / 4096 <= resident_length / 4096) by (nonlinear_arith)
            requires
                continue_from <= resident_length,
        ;
        assert(n_buffers * 128 <= u64::MAX) by (nonlinear_arith)
            requires
                n_buffers == (resident_length + 524287) / 524288,
                resident_length <= u64::MAX,
        ;
    }
    let saved_pages = continue_from / 4096;
    let total_pages = resident_length / 4096;
    let ghost left0 = total_pages - saved_pages;
    let mut pages_left = total_pages - saved_pages;
    let mut tasks: Vec<ProducerTask> = Vec::new();
    let mut i = start_buffer;
    while i < n_buffers
        invariant
            start_buffer <= i <= n_buffers,
            n_buffers * 128 <= u64::MAX,
            start_buffer == first_buffer(continue_from as int),
            n_buffers == buffer_count(resident_length as int),
            left0 == pages_to_fetch(continue_from as int, resident_length as int),
            left0 >= 0,
            tasks@.len() == i - start_buffer,
            pages_left == if left0 - 128 * (i - start_buffer) > 0 {
                left0 - 128 * (i - start_buffer)
            } else {
                0
            },
            forall|k: int|
                0 <= k < tasks@.len() ==> #[trigger] scheduled_task_matches(
                    tasks@[k],
                    continue_from as int,
                    resident_length as int,
                    k,
                ),
        decreases n_buffers - i,
    {
        let number_of_pages = if pages_left < 128 {
            pages_left
        } else {
            128
        };
        let message = ProducerTask::Download {
            page_number: i * 128,
            number_of_pages,
            skip_progress: false,
        };
        pages_left = pages_left - number_of_pages;
        let ghost k = tasks@.len() as int;
        tasks.push(message);
        assert(scheduled_task_matches(tasks@[k], continue_from as int, resident_length as int, k));
        i = i + 1;
    }
    tasks
}

/// The total number of pages that the first `n` tasks of a schedule ask
/// for, when `left` pages remained at the start.
pub open spec fn scheduled_total(left: int, n: int) -> int
    decreases n,
{
    if n <= 0 {
        0
    } else {
        scheduled_total(left, n - 1) + scheduled_pages(left, n - 1)
    }
}

proof fn lemma_scheduled_total(left: int, n: int)
    requires
        left >= 0,
        n >= 0,
    ensures
        scheduled_total(left, n) == if left < 128 * n {
            left
        } else {
            128 * n
        },
    decreases n,
{
    if n > 0 {
        lemma_scheduled_total(left, n - 1);
    }
}

/// The number of pages that the resident download schedule asks for: when
/// the resident length is a whole number of pages, the pages of its tasks
/// add up to the pages still to fetch. (Which pages they are is another
/// matter: when the download resumes from a point inside a buffer, the
/// tasks start at the beginning of that buffer, so they fetch its first
/// pages again and leave as many pages at the end unfetched.)
pub proof fn lemma_schedule_covers_missing_pages(continue_from: u64, resident_length: u64)
    requires
        continue_from <= resident_length,
        resident_length % 4096 == 0,
    ensures
        scheduled_total(
            pages_to_fetch(continue_from as int, resident_length as int),
            buffer_count(resident_length as int) - first_buffer(continue_from as int),
        ) == pages_to_fetch(continue_from as int, resident_length as int),
{
    let left = pages_to_fetch(continue_from as int, resident_length as int);
    let n = buffer_count(resident_length as int) - first_buffer(continue_from as int);
    assert(left >= 0) by (nonlinear_arith)
        requires
            continue_from <= resident_length,
            left == resident_length / 4096 - continue_from / 4096,
    ;
    assert(n >= 0 && left <= 128 * n) by (nonlinear_arith)
        requires
            continue_from <= resident_length,
            resident_length % 4096 == 0,
            left == resident_length / 4096 - continue_from / 4096,
            n == (resident_length + 524287) / 524288 - continue_from / 524288,
    ;
    lemma_scheduled_total(left, n);
}

// ---------------------------------------------------------------------------
// The producer loop

/// What a producer does after taking a task from its pools.
#[derive(Debug)]
pub enum TaskStep {
    /// The pools asked the producer to stop.
    Stop,
    /// A new download: the producer takes a buffer from the memory pool and
    /// then produces these pages into it.
    FetchMemory { page_number: u64, number_of_pages: u64 },
    /// A result to produce again.
    Produce(ProducerResult),
}

/// What a producer does after producing a result.
#[derive(Debug)]
pub enum ProduceStep {
    /// Deliver the result, with its progress in bytes if any.
    Deliver { result: ProducerResult, progress: Option<u64> },
    /// Another attempt at the result, to be queued for retrying.
    Retry(ProducerTask),
}

/// The state that a producer keeps between tasks.
#[derive(Clone, Copy, PartialEq, Eq, Structural, Debug)]
pub struct ProducerLoop {
    /// Whether finished downloads are reported as progress; set by the
    /// most recent download task.
    pub report_progress: bool,
}

impl ProducerLoop {
    /// A producer reports progress until a task says otherwise.
    pub fn new() -> (l: ProducerLoop)
        ensures
            l.report_progress,
    {
        ProducerLoop { report_progress: true }
    }

    /// Takes a task: `End` stops the producer, a retry comes back with its
    /// retry count one higher, and a download sets whether progress is
    /// reported and asks for a buffer.
    pub fn begin_task(&mut self, task: ProducerTask) -> (step: TaskStep)
        requires
            task matches ProducerTask::Retry(r) ==> r.retry_number < u8::MAX,
        ensures
            (final(self).report_progress, step) == task_step(old(self).report_progress, task),
            task matches ProducerTask::Download { skip_progress, .. } ==> final(self).report_progress
                == !skip_progress,
    {
        match task {
            ProducerTask::End => TaskStep::Stop,
            ProducerTask::Retry(mut retry) => {
                retry.retry_number = retry.retry_number + 1;
                TaskStep::Produce(retry)
            },
            ProducerTask::Download { page_number, number_of_pages, skip_progress } => {
                self.report_progress = !skip_progress;
                TaskStep::FetchMemory { page_number, number_of_pages }
            },
        }
    }

    /// Decides what becomes of a result once production has succeeded
    /// (`produced`) or failed; a failed result must have been tried fewer
    /// than `PRODUCER_MAX_RETRIES` times.
    pub fn after_produce(&self, result: ProducerResult, produced: bool) -> (step: ProduceStep)
        requires
            produced ==> result.number_of_pages * 4096 <= u64::MAX,
            !produced ==> result.retry_number < 10,
        ensures
            step == produce_step(self.report_progress, result, produced),
    {
        if produced {
            let length = result.number_of_pages * 4096;
            let progress = if self.report_progress {
                Some(length)
            } else {
                None
            };
            ProduceStep::Deliver { result, progress }
        } else {
            ProduceStep::Retry(ProducerTask::Retry(result))
        }
    }
}

/// The new `report_progress` flag and the step for `task`: `End` stops and
/// keeps the flag; a retry keeps the flag and comes back with its retry
/// count one higher; a download sets the flag to `!skip_progress` and asks
/// for a buffer for its pages.
pub open spec fn task_step(report_progress: bool, task: ProducerTask) -> (bool, TaskStep) {
    match task {
        ProducerTask::End => (report_progress, TaskStep::Stop),
        ProducerTask::Retry(r) => (
            report_progress,
            TaskStep::Produce(
                ProducerResult {
                    page_number: r.page_number,
                    number_of_pages: r.number_of_pages,
                    retry_number: (r.retry_number + 1) as u8,
                    buffer: r.buffer,
                },
            ),
        ),
        ProducerTask::Download { page_number, number_of_pages, skip_progress } => (
            !skip_progress,
            TaskStep::FetchMemory { page_number, number_of_pages },
        ),
    }
}

/// A produced result is delivered, with its size in bytes as progress when
/// progress is reported; a failed one goes back for another try.
pub open spec fn produce_step(report_progress: bool, result: ProducerResult, produced: bool) -> ProduceStep {
    if produced {
        ProduceStep::Deliver {
            result,
            progress: if report_progress {
                Some((result.number_of_pages * 4096) as u64)
            } else {
                None
            },
        }
    } else {
        ProduceStep::Retry(ProducerTask::Retry(result))
    }
}

/// A download task sets whether progress is reported from its own
/// `skip_progress` alone, whatever earlier tasks said: after a skipped
/// download, a download that does not skip reports its pages' bytes when
/// delivered.
pub proof fn lemma_download_sets_progress_flag(
    flag: bool,
    page_number: u64,
    number_of_pages: u64,
    skip_progress: bool,
    r: ProducerResult,
)
    requires
        r.number_of_pages * 4096 <= u64::MAX,
    ensures
        task_step(
            flag,
            ProducerTask::Download { page_number, number_of_pages, skip_progress },
        ).0 == !skip_progress,
        produce_step(
            task_step(
                flag,
                ProducerTask::Download { page_number, number_of_pages, skip_progress },
            ).0,
            r,
            true,
        ) matches ProduceStep::Deliver { progress, .. } && progress == if skip_progress {
            None
        } else {
            Some((r.number_of_pages * 4096) as u64)
        },
{
}

impl ProducerResult {
    /// A fresh result for a download, holding the buffer it will be
    /// produced into.
    pub fn fresh(page_number: u64, number_of_pages: u64, buffer: Vec<u8>) -> (r: ProducerResult)
        ensures
            r.page_number == page_number,
            r.number_of_pages == number_of_pages,
            r.retry_number == 0,
            r.buffer == buffer,
    {
        ProducerResult { page_number, number_of_pages, retry_number: 0, buffer }
    }
}

/// A failed result can be retried only while its count is below the bound
/// (`after_produce` requires it), and taking the retry raises the count by
/// exactly one and keeps the rest of the result and the producer's progress
/// flag: a retried result carries a count of at most `PRODUCER_MAX_RETRIES`
/// when it is produced again.
pub proof fn lemma_retry_is_bounded(report_progress: bool, r: ProducerResult)
    requires
        r.retry_number < 10,
    ensures
        produce_step(report_progress, r, false) == ProduceStep::Retry(ProducerTask::Retry(r)),
        task_step(report_progress, ProducerTask::Retry(r)).0 == report_progress,
        task_step(report_progress, ProducerTask::Retry(r)).1 matches TaskStep::Produce(p) && (
        p.retry_number == r.retry_number + 1 && p.retry_number <= 10 && p.page_number
            == r.page_number && p.number_of_pages == r.number_of_pages && p.buffer == r.buffer),
{
}

/// What polling one of a producer's task pools gave.
#[derive(Debug)]
pub enum PoolPoll {
    Ready(ProducerTask),
    Empty,
    Disconnected,
}

/// What a waiting producer does after polling its pools.
#[derive(Debug)]
pub enum WaitOutcome {
    /// Work on the task taken.
    Take(ProducerTask),
    /// Poll again later.
    KeepWaiting,
    /// The pools are closed: stop.
    Stop,
}

/// A task waiting in the retry pool is taken before any other; when the
/// retry pool has none (`None`), the ordinary pool is polled next.
pub fn take_retry_first(retry: PoolPoll) -> (r: Option<ProducerTask>)
    ensures
        match retry {
            PoolPoll::Ready(t) => r == Some(t),
            _ => r is None,
        },
{
    match retry {
        PoolPoll::Ready(t) => Some(t),
        _ => None,
    }
}

/// Decides on the poll of the ordinary pool: a task is taken, an empty pool
/// means waiting, a closed pool means stopping.
pub fn wait_outcome(ordinary: PoolPoll) -> (r: WaitOutcome)
    ensures
        match ordinary {
            PoolPoll::Ready(t) => r == WaitOutcome::Take(t),
            PoolPoll::Empty => r is KeepWaiting,
            PoolPoll::Disconnected => r is Stop,
        },
{
    match ordinary {
        PoolPoll::Ready(t) => WaitOutcome::Take(t),
        PoolPoll::Empty => WaitOutcome::KeepWaiting,
        PoolPoll::Disconnected => WaitOutcome::Stop,
    }
}

/// The kind of source a producer reads from.
#[derive(Clone, Copy, PartialEq, Eq, Structural, Debug)]
pub enum SourceKind {
    File,
    Network,
}

/// What the producer scaler holds: whether it still has a producer to
/// start loops from, the kind of that producer, and how many loops run.
#[derive(Clone, Copy, PartialEq, Eq, Structural, Debug)]
pub struct ScalerState {
    pub holds_producer: bool,
    pub kind: SourceKind,
    pub running_tasks: u16,
}

/// One call of the scaler's `start`, given whether the retry and progress
/// senders could still be upgraded: with no producer nothing happens; the
/// producer is taken out first, so when a sender cannot be upgraded it is
/// lost and no loop starts; otherwise a loop starts, and a network producer
/// (which can be cloned) is kept for further loops while a file producer
/// is not.
pub open spec fn scaler_step(s: ScalerState, senders_upgrade: bool) -> (ScalerState, bool) {
    if !s.holds_producer {
        (s, false)
    } else if !senders_upgrade {
        (ScalerState { holds_producer: false, ..s }, false)
    } else {
        (
            ScalerState {
                holds_producer: s.kind == SourceKind::Network,
                running_tasks: (s.running_tasks + 1) as u16,
                ..s
            },
            true,
        )
    }
}

/// The scaler after `k` calls of `start` with upgradable senders.
pub open spec fn scaler_after_starts(s: ScalerState, k: nat) -> ScalerState
    decreases k,
{
    if k == 0 {
        s
    } else {
        scaler_step(scaler_after_starts(s, (k - 1) as nat), true).0
    }
}

impl ScalerState {
    /// A scaler holding a producer of the given kind, with no loop running.
    pub fn new(kind: SourceKind) -> (s: ScalerState)
        ensures
            s == (ScalerState { holds_producer: true, kind, running_tasks: 0 }),
    {
        ScalerState { holds_producer: true, kind, running_tasks: 0 }
    }

    /// Decides one call of `start`; returns whether a loop is started.
    pub fn start(&mut self, senders_upgrade: bool) -> (spawn: bool)
        requires
            old(self).holds_producer && senders_upgrade ==> old(self).running_tasks < u16::MAX,
        ensures
            (*final(self), spawn) == scaler_step(*old(self), senders_upgrade),
    {
        if !self.holds_producer {
            return false;
        }
        if !senders_upgrade {
            self.holds_producer = false;
            return false;
        }
        self.holds_producer = match self.kind {
            SourceKind::Network => true,
            SourceKind::File => false,
        };
        self.running_tasks = self.running_tasks + 1;
        true
    }
}

/// Starting a scaler `k >= 1` times runs one loop for a file producer and
/// `k` loops for a network producer.
pub proof fn lemma_scaler_loop_count(kind: SourceKind, k: nat)
    requires
        k <= u16::MAX,
    ensures
        scaler_after_starts(ScalerState { holds_producer: true, kind, running_tasks: 0 }, k).running_tasks
            == if kind == SourceKind::Network {
            k
        } else if k >= 1 {
            1
        } else {
            0
        },
        scaler_after_starts(ScalerState { holds_producer: true, kind, running_tasks: 0 }, k).kind
            == kind,
        scaler_after_starts(
            ScalerState { holds_producer: true, kind, running_tasks: 0 },
            k,
        ).holds_producer == (kind == SourceKind::Network || k == 0),
    decreases k,
{
    if k > 0 {
        lemma_scaler_loop_count(kind, (k - 1) as nat);
    }
}

/// A scaler whose senders cannot be upgraded starts no loop, ever.
pub proof fn lemma_scaler_needs_senders(s: ScalerState)
    ensures
        !scaler_step(s, false).1,
        !scaler_step(scaler_step(s, false).0, true).1,
{
}

/// The first request of a bootstrap: the image's first page, the header,
/// without progress.
pub fn header_request() -> (t: ProducerTask)
    ensures
        t == (ProducerTask::Download { page_number: 0, number_of_pages: 1, skip_progress: true }),
{
    ProducerTask::Download { page_number: 0, number_of_pages: 1, skip_progress: true }
}

/// The request for the XVC info of an image: when its offset is above 0,
/// the two pages from the page that holds it, without progress.
pub fn xvc_info_request(xvc_info_offset: u64) -> (t: Option<ProducerTask>)
    ensures
        xvc_info_offset > 0 ==> t == Some(
            ProducerTask::Download {
                page_number: xvc_info_offset / 4096,
                number_of_pages: 2,
                skip_progress: true,
            },
        ),
        xvc_info_offset == 0 ==> t is None,
{
    if xvc_info_offset > 0 {
        Some(
            ProducerTask::Download {
                page_number: xvc_info_offset / 4096,
                number_of_pages: 2,
                skip_progress: true,
            },
        )
    } else {
        None
    }
}

// ---------------------------------------------------------------------------
// Progress display

/// Running totals shown to the user while a package streams.
#[derive(Clone, Copy, PartialEq, Eq, Structural, Debug)]
pub struct ProgressTotals {
    pub downloaded: u64,
    pub written: u64,
}

impl ProgressTotals {
    /// Nothing downloaded or written yet.
    pub fn new() -> (t: ProgressTotals)
        ensures
            t.downloaded == 0 && t.written == 0,
    {
        ProgressTotals { downloaded: 0, written: 0 }
    }

    /// Applies one progress report: downloads and writes advance their
    /// counter (wrapping like the counters of a progress bar), a resume
    /// sets both counters to the resumed position.
    pub fn apply(&mut self, p: StreamProgress)
        ensures
            match p {
                StreamProgress::Download(d) => final(self).downloaded == (old(self).downloaded + d)
                    % 0x1_0000_0000_0000_0000 && final(self).written == old(self).written,
                StreamProgress::Write(w) => final(self).written == (old(self).written + w)
                    % 0x1_0000_0000_0000_0000 && final(self).downloaded == old(self).downloaded,
                StreamProgress::Resume(r) => final(self).downloaded == r && final(self).written == r,
            },
    {
        match p {
            StreamProgress::Download(d) => {
                self.downloaded = self.downloaded.wrapping_add(d);
            },
            StreamProgress::Write(w) => {
                self.written = self.written.wrapping_add(w);
            },
            StreamProgress::Resume(r) => {
                self.downloaded = r;
                self.written = r;
            },
        }
    }
}

// ---------------------------------------------------------------------------
// Producing pages

/// The first and last byte (inclusive) of a download of `number_of_pages`
/// pages from page `page_number`, as asked of a server in a range request.
pub fn page_byte_range(page_number: u64, number_of_pages: u64) -> (r: (u64, u64))
    requires
        1 <= page_number * 4096 + number_of_pages * 4096 <= u64::MAX,
    ensures
        r.0 == page_number * 4096,
        r.1 == page_number * 4096 + number_of_pages * 4096 - 1,
{
    let range_start = page_number * 4096;
    let size = number_of_pages * 4096;
    (range_start, range_start + size - 1)
}

/// What a producer does after one read from its source.
#[derive(Clone, Copy, PartialEq, Eq, Structural, Debug)]
pub enum ReadStep {
    /// Keep reading; this many bytes are now in the buffer.
    Continue(usize),
    /// The source has ended: zero the buffer from `from` to `to` and stop.
    ZeroFill { from: usize, to: usize },
}

/// The distance between `a` and `b`.
pub open spec fn abs_diff(a: int, b: int) -> int {
    if a >= b {
        a - b
    } else {
        b - a
    }
}

/// The part of the buffer to zero when a download of `size` bytes ended
/// after `read_total` bytes: from `read_total`, as many bytes as the two
/// differ by.
pub fn zero_fill_span(read_total: usize, size: usize) -> (r: (usize, usize))
    requires
        read_total + abs_diff(read_total as int, size as int) <= usize::MAX,
    ensures
        r.0 == read_total,
        r.1 == read_total + abs_diff(read_total as int, size as int),
{
    let difference = if read_total >= size {
        read_total - size
    } else {
        size - read_total
    };
    (read_total, read_total + difference)
}

/// After a read of `read` bytes, with `read_total < size` bytes read
/// before, of a download of `size` bytes: a read of nothing means the
/// source has ended, and the rest of the download, `[read_total, size)`,
/// is zeroed; otherwise reading goes on.
pub fn after_read(read_total: usize, size: usize, read: usize) -> (r: ReadStep)
    requires
        read_total < size,
        read_total + read <= usize::MAX,
    ensures
        read == 0 ==> r == (ReadStep::ZeroFill { from: read_total, to: size }),
        read != 0 ==> r == ReadStep::Continue((read_total + read) as usize),
{
    if read == 0 {
        ReadStep::ZeroFill { from: read_total, to: size }
    } else {
        ReadStep::Continue(read_total + read)
    }
}

} // verus!
