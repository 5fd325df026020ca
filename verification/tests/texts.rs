use infra_hex_rs::error::InfraHexError;
use infra_hex_rs::fetch::{fetch_all_counted, plan_fetch_all};
use infra_hex_rs::pagination::FetchAction;
use infra_hex_rs::types::{ApiResponse, InfraResult};
use infra_hex_rs::url::{
    bbox_query, object_url, page_url, push_decimal, push_signed_decimal, records_url,
};

#[test]
fn error_messages() {
    assert_eq!(
        InfraHexError::Http("timed out".to_string()).message(),
        "HTTP request failed: timed out"
    );
    assert_eq!(
        InfraHexError::Json("EOF while parsing".to_string()).message(),
        "JSON parsing failed: EOF while parsing"
    );
    assert_eq!(
        InfraHexError::Api("API returned status 500".to_string()).message(),
        "API error: API returned status 500"
    );
    assert_eq!(
        InfraHexError::Config("CADENT_API_KEY not set".to_string()).message(),
        "Config error: CADENT_API_KEY not set"
    );
    assert_eq!(
        InfraHexError::Geometry("Feature has no geometry".to_string()).message(),
        "Geometry error: Feature has no geometry"
    );
    assert_eq!(
        InfraHexError::HexGrid("Invalid zoom level: 20".to_string()).message(),
        "Hex grid error: Invalid zoom level: 20"
    );
}

#[test]
fn outcome_starts_empty_and_folds_pages() {
    let mut result: InfraResult<u8> = InfraResult::new();
    assert!(result.is_complete());
    assert!(!result.has_errors());
    result.record_page(Ok(vec![1, 2]));
    result.record_page(Err(InfraHexError::Api("boom".to_string())));
    result.record_page(Ok(vec![]));
    result.record_page(Ok(vec![3]));
    assert_eq!(result.records, vec![1, 2, 3]);
    assert_eq!(result.errors.len(), 1);
    assert!(result.has_errors());
    assert!(!result.is_complete());

    let fresh: InfraResult<u8> = InfraResult::default();
    assert!(fresh.records.is_empty());
    assert!(fresh.errors.is_empty());
}

#[test]
fn failed_count_request_fetches_nothing() {
    let first: Result<ApiResponse<u8>, InfraHexError> =
        Err(InfraHexError::Http("no route".to_string()));
    let result = fetch_all_counted(
        first,
        |_offset, _limit| -> Result<Vec<u8>, InfraHexError> { panic!("no page is fetched") },
        |_delay| panic!("no pause is made"),
    );
    assert!(result.records.is_empty());
    assert_eq!(result.errors.len(), 1);
    assert_eq!(result.errors[0].message(), "HTTP request failed: no route");

    let again: Result<ApiResponse<u8>, InfraHexError> =
        Err(InfraHexError::Api("API returned status 403".to_string()));
    match plan_fetch_all(again) {
        Err(outcome) => {
            assert!(outcome.records.is_empty());
            assert_eq!(outcome.errors.len(), 1);
        }
        Ok(_) => panic!("expected no plan"),
    }
}

#[test]
fn counted_fetch_stops_at_the_offset_ceiling() {
    let first = Ok(ApiResponse { total_count: 25_000, results: vec![0usize] });
    let result = fetch_all_counted(first, |offset, limit| Ok(vec![offset + limit]), |_delay| ());
    // 10,000 fetchable records in pages of 100.
    assert_eq!(result.records.len(), 100);
    assert_eq!(result.records[0], 100);
    assert_eq!(result.records[99], 10_000);
    assert!(result.is_complete());

    let small = Ok(ApiResponse { total_count: 250, results: Vec::<usize>::new() });
    let mut plan = plan_fetch_all(small).ok().unwrap();
    assert_eq!(plan.pages_left(), 3);
    match plan.next_action() {
        FetchAction::FetchWave(wave) => {
            let offsets: Vec<usize> = wave.iter().map(|q| q.offset).collect();
            assert_eq!(offsets, vec![0, 100, 200]);
            assert!(wave.iter().all(|q| q.limit == 100));
        }
        other => panic!("expected a wave, got {:?}", other),
    }
    assert!(matches!(plan.next_action(), FetchAction::Done));
}

#[test]
fn decimal_digits() {
    let cases: [(u64, &str); 7] = [
        (0, "0"),
        (7, "7"),
        (10, "10"),
        (99, "99"),
        (100, "100"),
        (10_000, "10000"),
        (u64::MAX, "18446744073709551615"),
    ];
    for (n, expected) in cases {
        let mut text = String::from("n=");
        push_decimal(&mut text, n);
        assert_eq!(text, format!("n={}", expected));
    }
    let signed: [(i64, &str); 5] = [
        (0, "0"),
        (-1, "-1"),
        (1310, "1310"),
        (i64::MIN, "-9223372036854775808"),
        (i64::MAX, "9223372036854775807"),
    ];
    for (n, expected) in signed {
        let mut text = String::new();
        push_signed_decimal(&mut text, n);
        assert_eq!(text, expected);
    }
}

#[test]
fn bbox_filter_text() {
    assert_eq!(
        bbox_query("53.47", "-2.26", "53.49", "-2.22"),
        "in_bbox(geo_point_2d,53.47,-2.26,53.49,-2.22)"
    );
}

#[test]
fn record_addresses_are_percent_encoded() {
    let filter = bbox_query("53.47", "-2.26", "53.49", "-2.22");
    assert_eq!(
        records_url("https://example.org/records", &filter, 1),
        "https://example.org/records?where=in_bbox%28geo_point_2d%2C53.47%2C-2.26%2C53.49%2C-2.22%29&limit=1"
    );
    assert_eq!(
        page_url("https://example.org/records", &filter, 100, 9900),
        "https://example.org/records?where=in_bbox%28geo_point_2d%2C53.47%2C-2.26%2C53.49%2C-2.22%29&limit=100&offset=9900"
    );
    assert_eq!(
        records_url("base", "a b/ç~_.-", 5),
        "base?where=a%20b%2F%C3%A7~_.-&limit=5"
    );
}

#[test]
fn object_address() {
    assert_eq!(
        object_url("https://example.org/query", 1310),
        "https://example.org/query?where=OBJECTID%3D1310&outFields=*&f=geojson"
    );
    assert_eq!(
        object_url("q", -5),
        "q?where=OBJECTID%3D-5&outFields=*&f=geojson"
    );
}
