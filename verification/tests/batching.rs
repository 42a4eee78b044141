//! Flushes and reads that are done together.

use slatefs::error::{Error, Result};
use slatefs::error_struct::{ErrorStatus, ErrorStruct};
use slatefs::flush_batcher::{FlushBatcher, Turn};
use slatefs::read_coalescer::{
    merge_read_requests, BatchOutcome, MergedRead, ReadCoalescer, ReadRequest, MAX_BATCH_REQUESTS,
    MAX_MERGED_READ_BYTES,
};
use slatefs::request_record::{ends_listing, ends_stream, RequestRecord};

#[test]
fn merges_adjacent_overlapping_and_out_of_order_requests() {
    let requests = [
        ReadRequest { offset: 16, len: 8 },
        ReadRequest { offset: 0, len: 8 },
        ReadRequest { offset: 8, len: 8 },
        ReadRequest { offset: 40, len: 4 },
        ReadRequest { offset: 14, len: 4 },
    ];

    assert_eq!(
        merge_read_requests(&requests).unwrap(),
        vec![
            MergedRead {
                offset: 0,
                len: 24,
                request_indices: vec![1, 2, 4, 0],
            },
            MergedRead {
                offset: 40,
                len: 4,
                request_indices: vec![3],
            },
        ]
    );
}

#[test]
fn does_not_merge_across_a_gap_or_the_size_limit() {
    let requests = [
        ReadRequest {
            offset: 0,
            len: MAX_MERGED_READ_BYTES,
        },
        ReadRequest {
            offset: MAX_MERGED_READ_BYTES as u64,
            len: 1,
        },
        ReadRequest {
            offset: (MAX_MERGED_READ_BYTES + 2) as u64,
            len: 1,
        },
    ];

    assert_eq!(merge_read_requests(&requests).unwrap().len(), 3);
}

#[test]
fn merges_duckdb_blocks_despite_the_twelve_kib_file_header() {
    const DUCKDB_BLOCK_START: u64 = 3 * 4096;
    const DUCKDB_BLOCK_SIZE: usize = 256 * 1024;
    let requests = (0..4)
        .map(|block| ReadRequest {
            offset: DUCKDB_BLOCK_START + block * DUCKDB_BLOCK_SIZE as u64,
            len: DUCKDB_BLOCK_SIZE,
        })
        .collect::<Vec<_>>();

    assert_eq!(
        merge_read_requests(&requests).unwrap(),
        vec![MergedRead {
            offset: DUCKDB_BLOCK_START,
            len: 4 * DUCKDB_BLOCK_SIZE,
            request_indices: vec![0, 1, 2, 3],
        }]
    );
}

#[test]
fn requests_at_one_offset_are_served_as_they_came() {
    let requests = [
        ReadRequest { offset: 5, len: 1 },
        ReadRequest { offset: 5, len: 9 },
        ReadRequest { offset: 5, len: 3 },
    ];
    assert_eq!(
        merge_read_requests(&requests).unwrap(),
        vec![MergedRead {
            offset: 5,
            len: 9,
            request_indices: vec![0, 1, 2],
        }]
    );
    assert!(merge_read_requests(&[]).unwrap().is_empty());
}

#[test]
fn a_request_past_the_largest_offset_is_refused() {
    let requests = [
        ReadRequest { offset: 0, len: 1 },
        ReadRequest {
            offset: u64::MAX,
            len: 1,
        },
    ];
    let error = merge_read_requests(&requests).unwrap_err();
    assert_eq!(
        error.to_string(),
        "coalesced read offset overflow (permanent) at src/read_coalescer.rs"
    );
}

/// Reads through a coalescer that nobody else uses.
fn read(
    coalescer: &mut ReadCoalescer<usize>,
    request: ReadRequest,
    execute: impl Fn(&[ReadRequest]) -> Vec<Result<Vec<u8>>>,
) -> Result<Vec<u8>> {
    assert!(coalescer.enqueue(request, 0));
    let batch = coalescer.take_batch();
    let results = execute(&ReadCoalescer::requests_of(&batch));
    let mut end = coalescer.complete_batch(batch, BatchOutcome::Returned(results));
    assert!(!end.leads_on);
    let (waiter, result) = end.completions.remove(0);
    assert_eq!(waiter, 0);
    assert!(end.completions.is_empty());
    result
}

#[test]
fn rejects_executor_result_count_mismatch() {
    let mut coalescer = ReadCoalescer::new();
    let error = read(&mut coalescer, ReadRequest { offset: 0, len: 1 }, |_| Vec::new()).unwrap_err();
    assert!(error
        .to_string()
        .contains("returned 0 results for 1 requests"));
}

#[test]
fn batches_concurrent_callers_and_returns_their_own_data() {
    let mut coalescer = ReadCoalescer::new();
    for index in 0..8usize {
        let request = ReadRequest {
            offset: index as u64 * 8,
            len: 8,
        };
        // The first caller leads; the others wait.
        assert_eq!(coalescer.enqueue(request, index), index == 0);
    }
    assert!(!coalescer.batch_is_full());

    let mut executions = 0;
    let mut answers: Vec<Option<Vec<u8>>> = vec![None; 8];
    loop {
        let batch = coalescer.take_batch();
        let requests = ReadCoalescer::requests_of(&batch);
        executions += 1;
        let results = requests
            .iter()
            .map(|request| Ok(vec![request.offset as u8; request.len]))
            .collect();
        let end = coalescer.complete_batch(batch, BatchOutcome::Returned(results));
        for (waiter, result) in end.completions {
            answers[waiter] = Some(result.unwrap());
        }
        if !end.leads_on {
            break;
        }
    }
    for (index, answer) in answers.into_iter().enumerate() {
        assert_eq!(answer.unwrap(), vec![(index * 8) as u8; 8]);
    }
    assert_eq!(executions, 1);
}

#[test]
fn a_leader_goes_on_while_reads_are_queued() {
    let mut coalescer = ReadCoalescer::new();
    let request = ReadRequest { offset: 0, len: 0 };
    for index in 0..MAX_BATCH_REQUESTS + 3 {
        coalescer.enqueue(request, index);
    }
    assert!(coalescer.batch_is_full());

    let batch = coalescer.take_batch();
    assert_eq!(batch.len(), MAX_BATCH_REQUESTS);
    let results = batch.iter().map(|_| Ok(Vec::new())).collect();
    let end = coalescer.complete_batch(batch, BatchOutcome::Returned(results));
    assert!(end.leads_on);
    // Somebody leads, so a new caller does not.
    assert!(!coalescer.enqueue(request, 99));

    let batch = coalescer.take_batch();
    assert_eq!(batch.len(), 4);
    let end = coalescer.complete_batch(batch, BatchOutcome::Returned(Vec::new()));
    assert!(!end.leads_on);
    assert_eq!(end.completions.len(), 4);
    for (_, result) in end.completions {
        assert!(result
            .unwrap_err()
            .to_string()
            .contains("coalesced read returned 0 results for 4 requests"));
    }
    assert!(coalescer.enqueue(request, 100));
}

#[test]
fn a_panic_fails_everything_that_is_queued() {
    let mut coalescer = ReadCoalescer::new();
    let request = ReadRequest { offset: 0, len: 1 };
    for index in 0..MAX_BATCH_REQUESTS + 2 {
        coalescer.enqueue(request, index);
    }
    let batch = coalescer.take_batch();
    let end = coalescer.complete_batch(batch, BatchOutcome::Panicked);
    assert!(!end.leads_on);
    let waiters: Vec<usize> = end.completions.iter().map(|(waiter, _)| *waiter).collect();
    assert_eq!(waiters, (0..MAX_BATCH_REQUESTS + 2).collect::<Vec<_>>());
    for (_, result) in end.completions {
        assert!(result
            .unwrap_err()
            .to_string()
            .contains("coalesced read executor panicked"));
    }
    assert!(coalescer.enqueue(request, 0));
}

#[test]
fn a_lone_read_after_a_panic_gets_its_own_result() {
    let mut coalescer = ReadCoalescer::new();
    assert!(!coalescer.is_led());
    assert!(coalescer.enqueue(ReadRequest { offset: 0, len: 1 }, "first"));
    assert!(coalescer.is_led());
    let batch = coalescer.take_batch();
    let end = coalescer.complete_batch(batch, BatchOutcome::Panicked);
    assert!(!coalescer.is_led());
    assert_eq!(end.completions.len(), 1);
    assert!(matches!(end.completions[0].1, Err(Error::InvalidArgument(_))));

    let request = ReadRequest { offset: 5, len: 2 };
    assert!(coalescer.enqueue(request, "second"));
    let batch = coalescer.take_batch();
    assert_eq!(ReadCoalescer::requests_of(&batch), vec![request]);
    let end = coalescer.complete_batch(batch, BatchOutcome::Returned(vec![Ok(vec![1, 2])]));
    assert!(!end.leads_on);
    assert_eq!(end.completions.len(), 1);
    let (waiter, result) = end.completions.into_iter().next().unwrap();
    assert_eq!(waiter, "second");
    assert_eq!(result.unwrap(), vec![1, 2]);
}

#[test]
fn a_lead_answers_every_queued_read() {
    let mut coalescer = ReadCoalescer::new();
    let total = 2 * MAX_BATCH_REQUESTS + 1;
    for index in 0..total {
        let request = ReadRequest {
            offset: index as u64,
            len: 1,
        };
        assert_eq!(coalescer.enqueue(request, index), index == 0);
    }
    let mut answers = Vec::new();
    loop {
        let batch = coalescer.take_batch();
        let results = ReadCoalescer::requests_of(&batch)
            .iter()
            .map(|request| Ok(vec![request.offset as u8]))
            .collect();
        let end = coalescer.complete_batch(batch, BatchOutcome::Returned(results));
        for (waiter, result) in end.completions {
            answers.push((waiter, result.unwrap()));
        }
        if !end.leads_on {
            break;
        }
    }
    let expected: Vec<_> = (0..total).map(|index| (index, vec![index as u8])).collect();
    assert_eq!(answers, expected);
}

/// A database whose flushes can be made to fail, and the callers' one turn.
struct TestFlush {
    batcher: FlushBatcher,
    started: u64,
    fails: bool,
}

impl TestFlush {
    fn new() -> Self {
        TestFlush {
            batcher: FlushBatcher::new(),
            started: 0,
            fails: false,
        }
    }

    fn result(&self) -> Result<()> {
        if self.fails {
            return Err(Error::SlateDb(ErrorStruct::new(
                "injected flush failure".to_string(),
                ErrorStatus::Temporary,
                "here".to_string(),
            )));
        }
        Ok(())
    }

    /// Starts the flush of a caller on its turn, unless it is covered.
    fn start(&mut self, arrival: u64) -> std::result::Result<u64, Result<()>> {
        match self.batcher.take_turn(arrival) {
            Turn::Covered(result) => Err(result),
            Turn::Flush(index) => {
                self.started += 1;
                Ok(index)
            }
        }
    }

    fn finish(&mut self, index: u64) -> Result<()> {
        let result = self.result();
        self.batcher.finish(index, &result);
        result
    }

    /// The whole turn of a caller.
    fn turn(&mut self, arrival: u64) -> Result<()> {
        match self.start(arrival) {
            Ok(index) => self.finish(index),
            Err(result) => result,
        }
    }
}

#[test]
fn callers_queued_before_a_flush_share_its_result() {
    let mut target = TestFlush::new();
    let queued: Vec<u64> = (0..4).map(|_| target.batcher.arrive()).collect();

    for arrival in queued {
        target.turn(arrival).expect("shared flush");
    }
    assert_eq!(target.started, 1);
}

#[test]
fn each_lone_caller_gets_its_own_flush() {
    let mut target = TestFlush::new();

    let arrival = target.batcher.arrive();
    target.turn(arrival).expect("first flush");
    assert_eq!(target.started, 1);

    let arrival = target.batcher.arrive();
    target.turn(arrival).expect("second flush");
    assert_eq!(target.started, 2);
}

#[test]
fn callers_queued_behind_a_flush_share_one_follow_up() {
    let mut target = TestFlush::new();

    let leader = target.batcher.arrive();
    let index = target.start(leader).expect("leader flushes");
    assert_eq!(target.started, 1);

    let queued: Vec<u64> = (0..3).map(|_| target.batcher.arrive()).collect();

    target.finish(index).expect("leader flush succeeds");
    for arrival in queued {
        target.turn(arrival).expect("queued flush succeeds");
    }

    assert_eq!(target.started, 2);
}

#[test]
fn a_failed_flush_is_reported_to_every_caller_it_serves() {
    let mut target = TestFlush::new();
    target.fails = true;

    let leader = target.batcher.arrive();
    let index = target.start(leader).expect("leader flushes");
    let queued: Vec<u64> = (0..2).map(|_| target.batcher.arrive()).collect();

    assert!(matches!(target.finish(index), Err(Error::SlateDb(_))));
    for arrival in queued {
        assert!(matches!(target.turn(arrival), Err(Error::SlateDb(_))));
    }

    assert_eq!(target.started, 2);
}

#[test]
fn a_failure_does_not_poison_later_flushes() {
    let mut target = TestFlush::new();
    target.fails = true;

    let arrival = target.batcher.arrive();
    assert!(matches!(target.turn(arrival), Err(Error::SlateDb(_))));

    target.fails = false;
    let arrival = target.batcher.arrive();
    target.turn(arrival).expect("retry after a failed flush");
    assert_eq!(target.started, 2);
}

#[test]
fn a_request_is_counted_once() {
    let mut record = RequestRecord::new();
    assert!(record.record_once());
    assert!(!record.record_once());
    assert!(!record.record_once());
}

#[test]
fn requests_end_where_nothing_is_left() {
    assert!(ends_stream(None));
    assert!(ends_stream(Some(0)));
    assert!(!ends_stream(Some(1)));
    assert!(ends_listing(None));
    assert!(ends_listing(Some(false)));
    assert!(!ends_listing(Some(true)));
}
