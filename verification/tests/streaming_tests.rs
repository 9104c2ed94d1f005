use msixvc::flags::XvcRegionFlags;
use msixvc::streaming::{
    after_read, memory_chunk_capacity, page_byte_range, plan_resume, resident_download_tasks,
    resident_length, zero_fill_span, DecryptionResult, ProduceStep, ProducerLoop, ProducerResult,
    ProducerTask, ProgressTotals, ReadStep, ResidentLayoutError, ResumeDecision, StreamProgress,
    TaskStep, take_retry_first, wait_outcome, header_request, xvc_info_request, PoolPoll, ScalerState, SourceKind,
    WaitOutcome,
};
use msixvc::xvd::XvcRegion;

fn region(flags: u32, offset: u64, length: u64) -> XvcRegion {
    XvcRegion {
        flags: XvcRegionFlags::from_bits_retain(flags),
        encrypted: false,
        offset,
        length,
        first_segment_index: 0,
    }
}

#[test]
fn memory_budget_in_buffers() {
    assert_eq!(memory_chunk_capacity(256 * 1024 * 1024), 512);
    assert_eq!(memory_chunk_capacity(524_287), 0);
}

#[test]
fn resident_regions_must_be_contiguous() {
    let ok = [region(1, 0, 8192), region(0, 100, 5), region(1, 8192, 4096)];
    assert_eq!(resident_length(&ok), Ok(12288));
    let gap = [region(1, 0, 8192), region(1, 12288, 4096)];
    assert_eq!(resident_length(&gap), Err(ResidentLayoutError::Gap));
    let late_start = [region(1, 4096, 4096)];
    assert_eq!(resident_length(&late_start), Err(ResidentLayoutError::Gap));
    assert_eq!(resident_length(&[]), Ok(0));
}

#[test]
fn resume_decisions() {
    assert_eq!(plan_resume(Some(100), 100), ResumeDecision::Complete);
    assert_eq!(plan_resume(Some(40), 100), ResumeDecision::ContinueFrom(40));
    assert_eq!(plan_resume(Some(400), 100), ResumeDecision::Fresh);
    assert_eq!(plan_resume(None, 100), ResumeDecision::Fresh);
    assert_eq!(ResumeDecision::Complete.progress(100), Some(StreamProgress::Resume(100)));
    assert_eq!(ResumeDecision::ContinueFrom(40).progress(100), Some(StreamProgress::Resume(40)));
    assert_eq!(ResumeDecision::Fresh.progress(100), None);
    assert_eq!(ResumeDecision::ContinueFrom(40).continue_from(), 40);
    assert_eq!(ResumeDecision::Fresh.continue_from(), 0);
}

fn downloads(tasks: &[ProducerTask]) -> Vec<(u64, u64)> {
    tasks
        .iter()
        .map(|t| match t {
            ProducerTask::Download { page_number, number_of_pages, skip_progress } => {
                assert!(!skip_progress);
                (*page_number, *number_of_pages)
            }
            _ => panic!("not a download"),
        })
        .collect()
}

#[test]
fn resident_schedule_from_start() {
    // three full buffers and two more pages
    let rl = 3 * 524_288 + 8192;
    let t = resident_download_tasks(0, rl);
    assert_eq!(downloads(&t), vec![(0, 128), (128, 128), (256, 128), (384, 2)]);
    let total: u64 = downloads(&t).iter().map(|d| d.1).sum();
    assert_eq!(total, rl / 4096);
}

#[test]
fn resident_schedule_when_resuming() {
    let rl = 2 * 524_288;
    // one buffer and one page already saved
    let t = resident_download_tasks(524_288 + 4096, rl);
    assert_eq!(downloads(&t), vec![(128, 127)]);
    assert!(resident_download_tasks(rl, rl).is_empty());
}

#[test]
fn producer_task_steps() {
    let mut l = ProducerLoop::new();
    assert!(l.report_progress);
    match l.begin_task(ProducerTask::Download { page_number: 5, number_of_pages: 2, skip_progress: true }) {
        TaskStep::FetchMemory { page_number, number_of_pages } => {
            assert_eq!((page_number, number_of_pages), (5, 2))
        }
        other => panic!("unexpected {:?}", other),
    }
    assert!(!l.report_progress);
    let r = ProducerResult { page_number: 5, number_of_pages: 2, retry_number: 3, buffer: vec![1] };
    match l.begin_task(ProducerTask::Retry(r)) {
        TaskStep::Produce(p) => {
            assert_eq!(p.retry_number, 4);
            assert_eq!(p.buffer, vec![1]);
        }
        other => panic!("unexpected {:?}", other),
    }
    assert!(matches!(l.begin_task(ProducerTask::End), TaskStep::Stop));
}

#[test]
fn producer_after_produce() {
    let l = ProducerLoop { report_progress: true };
    let fresh = ProducerResult::fresh(1, 3, vec![0; 4]);
    assert_eq!(fresh.retry_number, 0);
    match l.after_produce(fresh, true) {
        ProduceStep::Deliver { result, progress } => {
            assert_eq!(progress, Some(3 * 4096));
            assert_eq!(result.page_number, 1);
        }
        other => panic!("unexpected {:?}", other),
    }
    let quiet = ProducerLoop { report_progress: false };
    match quiet.after_produce(ProducerResult::fresh(1, 3, vec![]), true) {
        ProduceStep::Deliver { progress, .. } => assert_eq!(progress, None),
        other => panic!("unexpected {:?}", other),
    }
    let failed = ProducerResult { page_number: 1, number_of_pages: 3, retry_number: 9, buffer: vec![] };
    assert!(matches!(
        l.after_produce(failed, false),
        ProduceStep::Retry(ProducerTask::Retry(ProducerResult { retry_number: 9, .. }))
    ));
}

#[test]
fn decryption_result_keeps_fields() {
    let p = ProducerResult { page_number: 7, number_of_pages: 8, retry_number: 2, buffer: vec![9] };
    let d: DecryptionResult = p.into();
    assert_eq!((d.page_number, d.number_of_pages, d.buffer), (7, 8, vec![9]));
}

#[test]
fn progress_totals() {
    let mut t = ProgressTotals::new();
    t.apply(StreamProgress::Download(10));
    t.apply(StreamProgress::Write(4));
    t.apply(StreamProgress::Download(5));
    assert_eq!((t.downloaded, t.written), (15, 4));
    t.apply(StreamProgress::Resume(100));
    assert_eq!((t.downloaded, t.written), (100, 100));
    t.apply(StreamProgress::Write(1));
    assert_eq!((t.downloaded, t.written), (100, 101));
}

#[test]
fn producing_pages() {
    assert_eq!(page_byte_range(2, 3), (8192, 8192 + 12288 - 1));
    assert_eq!(page_byte_range(0, 1), (0, 4095));
    assert_eq!(zero_fill_span(100, 4096), (100, 4096));
    assert_eq!(zero_fill_span(4096, 4096), (4096, 4096));
    assert_eq!(after_read(100, 4096, 0), ReadStep::ZeroFill { from: 100, to: 4096 });
    assert_eq!(after_read(100, 4096, 50), ReadStep::Continue(150));
    assert_eq!(after_read(4000, 4096, 96), ReadStep::Continue(4096));
}

#[test]
fn resident_length_is_sum_of_resident_regions() {
    let regions = [
        region(1, 0, 4096),
        region(2, 0, 999),
        region(1, 4096, 12288),
        region(0, 5, 5),
        region(3, 16384, 8192),
    ];
    let resident_sum: u64 = regions.iter().filter(|r| r.flags.bits & 1 == 1).map(|r| r.length).sum();
    assert_eq!(resident_length(&regions), Ok(resident_sum));
    assert_eq!(resident_sum, 24576);
}

#[test]
fn retry_pool_comes_first() {
    let retry = ProducerResult { page_number: 1, number_of_pages: 1, retry_number: 2, buffer: vec![] };
    match take_retry_first(PoolPoll::Ready(ProducerTask::Retry(retry))) {
        Some(ProducerTask::Retry(r)) => assert_eq!(r.retry_number, 2),
        other => panic!("unexpected {:?}", other),
    }
    assert!(take_retry_first(PoolPoll::Empty).is_none());
    assert!(take_retry_first(PoolPoll::Disconnected).is_none());
    assert!(matches!(wait_outcome(PoolPoll::Ready(ProducerTask::End)), WaitOutcome::Take(ProducerTask::End)));
    assert!(matches!(wait_outcome(PoolPoll::Empty), WaitOutcome::KeepWaiting));
    assert!(matches!(wait_outcome(PoolPoll::Disconnected), WaitOutcome::Stop));
}

#[test]
fn scaler_loop_counts() {
    let mut net = ScalerState::new(SourceKind::Network);
    assert!(net.start(true));
    assert!(net.start(true));
    assert!(net.start(true));
    assert_eq!(net.running_tasks, 3);
    let mut file = ScalerState::new(SourceKind::File);
    assert!(file.start(true));
    assert!(!file.start(true));
    assert_eq!(file.running_tasks, 1);
    let mut lost = ScalerState::new(SourceKind::Network);
    assert!(!lost.start(false));
    assert!(!lost.start(true));
    assert_eq!(lost.running_tasks, 0);
}

#[test]
fn bootstrap_requests() {
    assert!(matches!(
        header_request(),
        ProducerTask::Download { page_number: 0, number_of_pages: 1, skip_progress: true }
    ));
    assert!(matches!(
        xvc_info_request(3 * 4096 + 10),
        Some(ProducerTask::Download { page_number: 3, number_of_pages: 2, skip_progress: true })
    ));
    assert!(xvc_info_request(0).is_none());
}
