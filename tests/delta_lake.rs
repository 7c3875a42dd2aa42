use historical_backfill::dates::CalendarDate;
use historical_backfill::delta_lake::{
    DeltaLakeClient, Listing, ListingStep, MetadataError, INDEX_FILES_FOLDER, MAX_S3_LIST_REQUESTS,
};

#[test]
fn fetches_metadata_from_s3() {
    let delta_lake_client = DeltaLakeClient::new(());
    let content = "{ \"last_indexed_block\": \"106309326\", \"first_indexed_block\": \"106164983\", \"last_indexed_block_date\": \"2023-11-22\", \"first_indexed_block_date\": \"2023-11-21\", \"processed_at_utc\": \"2023-11-22 23:06:24.358000\" }";
    let latest_block_metadata = delta_lake_client.parse_latest_block_metadata(content).unwrap();
    assert_eq!(latest_block_metadata.last_indexed_block, "106309326".to_string());
    assert_eq!(latest_block_metadata.first_indexed_block, "106164983".to_string());
    assert_eq!(latest_block_metadata.last_indexed_block_date, "2023-11-22".to_string());
    assert_eq!(latest_block_metadata.first_indexed_block_date, "2023-11-21".to_string());
    assert_eq!(latest_block_metadata.processed_at_utc, "2023-11-22 23:06:24.358000".to_string());
}

#[test]
fn metadata_errors() {
    let client = DeltaLakeClient::new(());
    assert_eq!(client.parse_latest_block_metadata("not json").unwrap_err(), MetadataError::NotAnObject);
    assert_eq!(
        client.parse_latest_block_metadata("{\"last_indexed_block\": \"1\"}").unwrap_err(),
        MetadataError::MissingField
    );
    let with_number = "{\"last_indexed_block\":\"5\",\"first_indexed_block\":\"1\",\"last_indexed_block_date\":\"2023-11-22\",\"first_indexed_block_date\":\"2023-11-21\",\"processed_at_utc\":\"t\",\"rows\":12}";
    assert_eq!(client.parse_latest_block_metadata(with_number).unwrap().last_indexed_block, "5");
    assert_eq!(
        client.parse_latest_block_metadata("{\"last_indexed_block\":5,\"first_indexed_block\":\"1\",\"last_indexed_block_date\":\"a\",\"first_indexed_block_date\":\"b\",\"processed_at_utc\":\"t\"}").unwrap_err(),
        MetadataError::MissingField
    );
}

#[test]
fn last_indexed_block_is_read_as_a_number() {
    let client = DeltaLakeClient::new(());
    assert_eq!(
        client.last_indexed_block_from_metadata("{\"last_indexed_block\":\"106309326\",\"first_indexed_block\":\"106164983\"}"),
        Ok(106309326)
    );
    assert_eq!(client.last_indexed_block_from_metadata("{\"last_indexed_block\":\" 42 \"}"), Ok(42));
    assert_eq!(
        client.last_indexed_block_from_metadata("{\"last_indexed_block\":\"+42\"}"),
        Err(MetadataError::NotANumber)
    );
    assert_eq!(
        client.last_indexed_block_from_metadata("{\"last_indexed_block\":\"0042\"}"),
        Err(MetadataError::NotANumber)
    );
    assert_eq!(
        client.last_indexed_block_from_metadata("{\"last_indexed_block\":\"12a\"}"),
        Err(MetadataError::NotANumber)
    );
    assert_eq!(
        client.last_indexed_block_from_metadata("{\"last_indexed_block\":\"18446744073709551616\"}"),
        Err(MetadataError::NotANumber)
    );
    assert_eq!(client.last_indexed_block_from_metadata("{\"other\":\"1\"}"), Err(MetadataError::MissingField));
    assert_eq!(client.last_indexed_block_from_metadata("[1, 2]"), Err(MetadataError::NotAnObject));
}

#[test]
fn storage_path_reverses_account_parts() {
    let client = DeltaLakeClient::new(());
    assert_eq!(client.storage_path_for_account("a.b.c"), "c/b/a");
    assert_eq!(client.storage_path_for_account("queryapi.dataplatform.near"), "near/dataplatform/queryapi");
    assert_eq!(client.storage_path_for_account("near"), "near");
}

#[test]
fn exact_pattern_lists_one_account() {
    let client = DeltaLakeClient::new(());
    let targets = client.find_index_files_by_pattern(INDEX_FILES_FOLDER, "a.b.near");
    assert_eq!(targets.len(), 1);
    assert_eq!(targets[0].prefix, "silver/accounts/action_receipt_actions/near/b/a/");
    assert!(!targets[0].wildcard);
}

#[test]
fn wildcard_pattern_lists_sub_trees() {
    let client = DeltaLakeClient::new(());
    let targets = client.find_index_files_by_pattern("f", "*.b.near");
    assert_eq!(targets.len(), 1);
    assert_eq!(targets[0].prefix, "f/near/b/");
    assert!(targets[0].wildcard);
}

#[test]
fn comma_pattern_lists_each_trimmed_account_in_order() {
    let client = DeltaLakeClient::new(());
    let targets = client.find_index_files_by_pattern("f", "a.x, b.y");
    assert_eq!(targets.len(), 2);
    assert_eq!(targets[0].prefix, "f/x/a/");
    assert_eq!(targets[1].prefix, "f/y/b/");
    let mixed = client.find_index_files_by_pattern("f", " *.x.near ,a.b");
    assert_eq!(mixed[0].prefix, "f/near/x/");
    assert!(mixed[0].wildcard);
    assert_eq!(mixed[1].prefix, "f/b/a/");
    assert!(!mixed[1].wildcard);
}

#[test]
fn date_filter_keeps_dates_on_or_after_start() {
    let client = DeltaLakeClient::new(());
    let start = CalendarDate { year: 2023, month: 11, day: 21 };
    assert!(client.file_name_date_after(&start, "f/x/a/2023-11-21.json"));
    assert!(client.file_name_date_after(&start, "f/x/a/2024-01-01.json"));
    assert!(!client.file_name_date_after(&start, "f/x/a/2023-11-20.json"));
    assert!(!client.file_name_date_after(&start, "f/x/a/metadata.json"));
    assert!(!client.file_name_date_after(&start, "f/x/a/"));
}

#[test]
fn pattern_keys_are_filtered_by_date_in_order() {
    let client = DeltaLakeClient::new(());
    let start = CalendarDate { year: 2023, month: 11, day: 21 };
    let keys = vec![
        "f/x/a/2023-11-22.json".to_string(),
        "f/x/a/not-a-date.json".to_string(),
        "f/y/b/2023-11-20.json".to_string(),
        "f/y/b/2023-11-23.json".to_string(),
    ];
    let kept = client.select_index_files(&start, &keys);
    assert_eq!(kept, vec!["f/x/a/2023-11-22.json".to_string(), "f/y/b/2023-11-23.json".to_string()]);
}

#[test]
fn listing_follows_continuation_tokens() {
    let mut listing = Listing::new();
    let step = listing.receive_page(vec!["p/".to_string()], vec!["k1".to_string()], Some("t".to_string()));
    assert!(matches!(step, ListingStep::Next(ref t) if t == "t"));
    let step = listing.receive_page(vec![], vec!["k2".to_string()], None);
    assert!(matches!(step, ListingStep::Done));
    assert_eq!(listing.keys, vec!["p/".to_string(), "k1".to_string(), "k2".to_string()]);
    assert_eq!(listing.requests, 2);
}

#[test]
fn listing_stops_past_the_request_limit() {
    let mut listing = Listing::new();
    for _ in 0..MAX_S3_LIST_REQUESTS - 1 {
        let step = listing.receive_page(vec![], vec![], Some("t".to_string()));
        assert!(matches!(step, ListingStep::Next(_)));
    }
    assert_eq!(listing.requests, MAX_S3_LIST_REQUESTS - 1);
    let step = listing.receive_page(vec![], vec![], Some("t".to_string()));
    assert!(matches!(step, ListingStep::LimitExceeded));
    assert_eq!(listing.requests, MAX_S3_LIST_REQUESTS);
}

#[test]
fn listing_may_finish_on_its_last_allowed_request() {
    let mut listing = Listing::resume(MAX_S3_LIST_REQUESTS - 1).unwrap();
    let step = listing.receive_page(vec![], vec!["k".to_string()], None);
    assert!(matches!(step, ListingStep::Done));
    assert!(Listing::resume(listing.requests).is_none());
}

#[test]
fn listings_of_one_pattern_share_the_request_budget() {
    let mut listing = Listing::resume(MAX_S3_LIST_REQUESTS - 2).unwrap();
    let step = listing.receive_page(vec![], vec!["k".to_string()], Some("t".to_string()));
    assert!(matches!(step, ListingStep::Next(_)));
    let step = listing.receive_page(vec![], vec![], Some("t".to_string()));
    assert!(matches!(step, ListingStep::LimitExceeded));
}

#[test]
fn decoded_fields_give_metadata() {
    let client = DeltaLakeClient::new(());
    let fields: Vec<(String, Option<String>)> = [
        ("first_indexed_block", "106164983"),
        ("first_indexed_block_date", "2023-11-21"),
        ("last_indexed_block", "106309326"),
        ("last_indexed_block_date", "2023-11-22"),
        ("processed_at_utc", "2023-11-22 23:06:24.358000"),
    ]
    .iter()
    .map(|(k, v)| (k.to_string(), Some(v.to_string())))
    .collect();
    let m = client.metadata_from_fields(&fields).unwrap();
    assert_eq!(m.last_indexed_block, "106309326");
    assert_eq!(m.first_indexed_block_date, "2023-11-21");
    assert_eq!(client.last_indexed_block_from_fields(&fields), Ok(106309326));
    assert_eq!(client.metadata_from_fields(&fields[..4].to_vec()).unwrap_err(), MetadataError::MissingField);
    assert_eq!(client.last_indexed_block_from_fields(&vec![]), Err(MetadataError::MissingField));
}
