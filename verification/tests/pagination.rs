use std::cell::Cell;
use std::time::Duration;

use infra_hex_rs::error::InfraHexError;
use infra_hex_rs::fetch::fetch_all_pages;
use infra_hex_rs::pagination::{
    compute_page_offsets, FetchAction, FetchPlan, PageQuery, PaginationConfig,
};
use infra_hex_rs::types::InfraResult;

fn no_pause(_delay: Duration) {}

#[test]
fn test_fetch_all_pages_empty() {
    let result: InfraResult<i32> = fetch_all_pages(
        0,
        PaginationConfig::default(),
        |_offset, _limit| Ok(vec![]),
        no_pause,
    );

    assert!(result.records.is_empty());
    assert!(result.errors.is_empty());
}

#[test]
fn test_fetch_all_pages_single_page() {
    let result = fetch_all_pages(
        50,
        PaginationConfig::default().with_page_size(100),
        |_offset, _limit| Ok(vec![1, 2, 3]),
        no_pause,
    );

    assert_eq!(result.records, vec![1, 2, 3]);
    assert!(result.errors.is_empty());
}

#[test]
fn test_fetch_all_pages_multiple_pages() {
    let call_count = Cell::new(0usize);

    let result = fetch_all_pages(
        250,
        PaginationConfig::default()
            .with_page_size(100)
            .with_batch_delay(Duration::from_millis(1)),
        |offset, _limit| {
            call_count.set(call_count.get() + 1);
            Ok(vec![offset as i32])
        },
        no_pause,
    );

    assert_eq!(call_count.get(), 3);
    assert_eq!(result.records.len(), 3);
    assert!(result.errors.is_empty());
}

#[test]
fn test_fetch_all_pages_with_max_offset() {
    let call_count = Cell::new(0usize);

    let result = fetch_all_pages(
        1000,
        PaginationConfig::default()
            .with_page_size(100)
            .with_max_offset(300)
            .with_batch_delay(Duration::from_millis(1)),
        |offset, _limit| {
            call_count.set(call_count.get() + 1);
            Ok(vec![offset as i32])
        },
        no_pause,
    );

    // Only offsets below the ceiling of 300 are fetched: 3 pages.
    assert_eq!(call_count.get(), 3);
    assert!(result.errors.is_empty());
}

#[test]
fn test_fetch_all_pages_handles_errors() {
    let result = fetch_all_pages(
        200,
        PaginationConfig::default()
            .with_page_size(100)
            .with_batch_delay(Duration::from_millis(1)),
        |offset, _limit| {
            if offset == 0 {
                Ok(vec![1, 2, 3])
            } else {
                Err(InfraHexError::Api("Test error".to_string()))
            }
        },
        no_pause,
    );

    assert_eq!(result.records, vec![1, 2, 3]);
    assert_eq!(result.errors.len(), 1);
}

#[test]
fn fetch_order_follows_offsets() {
    let seen = std::cell::RefCell::new(Vec::new());
    let result: InfraResult<usize> = fetch_all_pages(
        95,
        PaginationConfig::default().with_page_size(10).with_batch_size(4),
        |offset, limit| {
            seen.borrow_mut().push((offset, limit));
            Ok(vec![offset])
        },
        no_pause,
    );
    let expected: Vec<(usize, usize)> = (0..10).map(|i| (i * 10, 10)).collect();
    assert_eq!(*seen.borrow(), expected);
    assert_eq!(result.records, vec![0, 10, 20, 30, 40, 50, 60, 70, 80, 90]);
    assert!(result.is_complete());
    assert!(!result.has_errors());
}

#[test]
fn pauses_stand_between_waves_only() {
    let pauses = Cell::new(0usize);
    let result: InfraResult<usize> = fetch_all_pages(
        1000,
        PaginationConfig::default()
            .with_page_size(100)
            .with_batch_size(3)
            .with_batch_delay(Duration::from_millis(7)),
        |offset, _limit| Ok(vec![offset]),
        |delay| {
            assert_eq!(delay, Duration::from_millis(7));
            pauses.set(pauses.get() + 1);
        },
    );
    // 10 pages in waves of 3: 4 waves, 3 pauses.
    assert_eq!(result.records.len(), 10);
    assert_eq!(pauses.get(), 3);
}

#[test]
fn one_failed_page_among_many() {
    let result: InfraResult<usize> = fetch_all_pages(
        500,
        PaginationConfig::default().with_page_size(100),
        |offset, _limit| {
            if offset == 200 {
                Err(InfraHexError::Http("connection reset".to_string()))
            } else {
                Ok(vec![offset, offset + 1])
            }
        },
        no_pause,
    );
    assert_eq!(result.records, vec![0, 1, 100, 101, 300, 301, 400, 401]);
    assert_eq!(result.errors.len(), 1);
    assert_eq!(
        result.errors[0].message(),
        "HTTP request failed: connection reset"
    );
    assert!(result.has_errors());
    assert!(!result.is_complete());
}

#[test]
fn page_offsets_cover_the_records() {
    assert_eq!(compute_page_offsets(0, 100), Vec::<usize>::new());
    assert_eq!(compute_page_offsets(1, 100), vec![0]);
    assert_eq!(compute_page_offsets(100, 100), vec![0]);
    assert_eq!(compute_page_offsets(101, 100), vec![0, 100]);
    assert_eq!(compute_page_offsets(250, 100), vec![0, 100, 200]);
    assert_eq!(compute_page_offsets(usize::MAX, usize::MAX), vec![0]);
    assert_eq!(
        compute_page_offsets(usize::MAX, usize::MAX / 2),
        vec![0, usize::MAX / 2, usize::MAX - 1]
    );
}

#[test]
fn ceiling_below_page_size_gives_one_page() {
    let mut plan = FetchPlan::new(
        1000,
        PaginationConfig::default().with_page_size(100).with_max_offset(50),
    );
    match plan.next_action() {
        FetchAction::FetchWave(wave) => {
            assert_eq!(wave, vec![PageQuery { offset: 0, limit: 100 }]);
        }
        other => panic!("expected a wave, got {:?}", other),
    }
    assert!(matches!(plan.next_action(), FetchAction::Done));
}

#[test]
fn ceiling_of_zero_gives_no_page() {
    let mut plan = FetchPlan::new(1000, PaginationConfig::default().with_max_offset(0));
    assert!(plan.is_done());
    assert!(matches!(plan.next_action(), FetchAction::Done));
}

#[test]
fn plan_alternates_waves_and_pauses() {
    let config = PaginationConfig::default()
        .with_page_size(10)
        .with_batch_size(2)
        .with_batch_delay(Duration::from_millis(5));
    let mut plan = FetchPlan::new(45, config);
    assert_eq!(plan.pages_left(), 5);
    let mut trace = Vec::new();
    loop {
        match plan.next_action() {
            FetchAction::FetchWave(wave) => {
                trace.push(format!(
                    "wave {:?}",
                    wave.iter().map(|q| q.offset).collect::<Vec<_>>()
                ));
            }
            FetchAction::Pause(delay) => trace.push(format!("pause {}", delay.as_millis())),
            FetchAction::Done => break,
        }
    }
    assert_eq!(
        trace,
        vec![
            "wave [0, 10]",
            "pause 5",
            "wave [20, 30]",
            "pause 5",
            "wave [40]"
        ]
    );
    assert!(plan.is_done());
    assert!(matches!(plan.next_action(), FetchAction::Done));
}

#[test]
fn nothing_to_fetch_is_done_at_once() {
    let mut plan = FetchPlan::new(
        0,
        PaginationConfig::default().with_page_size(0).with_batch_size(0),
    );
    assert!(plan.is_done());
    assert!(matches!(plan.next_action(), FetchAction::Done));
}

#[test]
fn config_defaults_and_builders() {
    let config = PaginationConfig::default();
    assert_eq!(config.page_size, 100);
    assert_eq!(config.batch_size, 100);
    assert_eq!(config.batch_delay, Duration::from_millis(100));
    assert_eq!(config.max_offset, None);

    let ods = PaginationConfig::opendatasoft();
    assert_eq!(ods.page_size, 100);
    assert_eq!(ods.batch_size, 100);
    assert_eq!(ods.batch_delay, Duration::from_millis(100));
    assert_eq!(ods.max_offset, Some(10_000));

    let built = PaginationConfig::default()
        .with_page_size(7)
        .with_batch_size(3)
        .with_batch_delay(Duration::from_secs(2))
        .with_max_offset(21);
    assert_eq!(built.page_size, 7);
    assert_eq!(built.batch_size, 3);
    assert_eq!(built.batch_delay, Duration::from_secs(2));
    assert_eq!(built.max_offset, Some(21));
}
