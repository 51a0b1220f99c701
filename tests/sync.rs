use gosibang::sync::{
    begin_retry, get_pending_count, init_sync, is_sync_enabled, pending_items, queue_for_sync, record_delivery,
    retry_pending_sync, set_sync_enabled, should_retry, sync_survey_response, SubmitStep,
    SupabaseConfig, SyncItemType, MAX_RETRIES,
};

fn config() -> Option<SupabaseConfig> {
    Some(SupabaseConfig { url: "https://example.invalid".to_string(), anon_key: "key".to_string() })
}

fn s(text: &str) -> String {
    text.to_string()
}

#[test]
fn sync_enqueue_uniqueness() {
    let mut state = init_sync();
    let first = sync_survey_response(&mut state, &None, &s("r1"), &s("{}"), &s("t1"));
    let second = sync_survey_response(&mut state, &None, &s("r1"), &s("{}"), &s("t2"));
    assert_eq!(first, SubmitStep::Queued);
    assert_eq!(second, SubmitStep::Queued);
    assert_eq!(get_pending_count(&state), 1);
    assert_eq!(pending_items(&state)[0].created_at, "t1");
}

#[test]
fn failed_delivery_queues_once() {
    let mut state = init_sync();
    assert_eq!(sync_survey_response(&mut state, &config(), &s("r1"), &s("{}"), &s("t1")), SubmitStep::Deliver);
    assert_eq!(get_pending_count(&state), 0);
    assert!(queue_for_sync(&mut state, SyncItemType::SurveyResponse, &s("r1"), &s("{}"), &s("t1")));
    assert!(!queue_for_sync(&mut state, SyncItemType::SurveyResponse, &s("r1"), &s("{}"), &s("t2")));
    assert!(queue_for_sync(&mut state, SyncItemType::SurveyResponse, &s("r2"), &s("{}"), &s("t3")));
    assert_eq!(get_pending_count(&state), 2);
}

#[test]
fn immediate_send_outcome() {
    let mut state = init_sync();
    assert!(!record_delivery(&mut state, &s("r1"), &s("{}"), &s("t1"), true));
    assert_eq!(get_pending_count(&state), 0);
    assert!(record_delivery(&mut state, &s("r1"), &s("{}"), &s("t1"), false));
    assert!(!record_delivery(&mut state, &s("r1"), &s("{}"), &s("t2"), false));
    assert_eq!(get_pending_count(&state), 1);
    assert_eq!(pending_items(&state)[0].item_type, SyncItemType::SurveyResponse);
}

#[test]
fn disabled_sync_skips() {
    let mut state = init_sync();
    assert!(is_sync_enabled(&state));
    set_sync_enabled(&mut state, false);
    assert!(!is_sync_enabled(&state));
    assert_eq!(sync_survey_response(&mut state, &None, &s("r1"), &s("{}"), &s("t1")), SubmitStep::Skipped);
    assert_eq!(get_pending_count(&state), 0);
    assert!(begin_retry(&state, true).is_none());
}

#[test]
fn retry_needs_authentication() {
    let mut state = init_sync();
    queue_for_sync(&mut state, SyncItemType::SurveyResponse, &s("r1"), &s("{}"), &s("t1"));
    assert!(begin_retry(&state, false).is_none());
    assert!(begin_retry(&state, true).is_some());
}

#[test]
fn sync_retry_bound() {
    let mut state = init_sync();
    queue_for_sync(&mut state, SyncItemType::SurveyResponse, &s("r1"), &s("{}"), &s("t1"));
    let mut attempts = 0;
    for pass_no in 1..=6u32 {
        let pass = begin_retry(&state, true).unwrap();
        let mut outcomes = Vec::new();
        for item in pass.items() {
            if should_retry(item) {
                attempts += 1;
            }
            outcomes.push(false);
        }
        assert_eq!(retry_pending_sync(&mut state, &pass, &outcomes), 0);
        if pass_no <= MAX_RETRIES {
            let items = pending_items(&state);
            assert_eq!(items.len(), 1);
            assert_eq!(items[0].retry_count, pass_no);
        }
    }
    assert_eq!(attempts, 5);
    assert_eq!(get_pending_count(&state), 0);
}

#[test]
fn retry_success_removes_and_counts() {
    let mut state = init_sync();
    queue_for_sync(&mut state, SyncItemType::SurveyResponse, &s("a"), &s("{}"), &s("t1"));
    queue_for_sync(&mut state, SyncItemType::SurveyResponse, &s("b"), &s("{}"), &s("t2"));
    queue_for_sync(&mut state, SyncItemType::SurveyResponse, &s("c"), &s("{}"), &s("t3"));
    let pass = begin_retry(&state, true).unwrap();
    let delivered = retry_pending_sync(&mut state, &pass, &vec![true, false, true]);
    assert_eq!(delivered, 2);
    let items = pending_items(&state);
    assert_eq!(items.len(), 1);
    assert_eq!(items[0].id, "b");
    assert_eq!(items[0].retry_count, 1);
}

#[test]
fn missing_outcome_counts_as_failure() {
    let mut state = init_sync();
    queue_for_sync(&mut state, SyncItemType::SurveyResponse, &s("a"), &s("{}"), &s("t1"));
    let pass = begin_retry(&state, true).unwrap();
    assert_eq!(retry_pending_sync(&mut state, &pass, &vec![]), 0);
    assert_eq!(pending_items(&state)[0].retry_count, 1);
}

#[test]
fn items_queued_during_a_pass_are_kept() {
    let mut state = init_sync();
    queue_for_sync(&mut state, SyncItemType::SurveyResponse, &s("a"), &s("{}"), &s("t1"));
    let pass = begin_retry(&state, true).unwrap();
    queue_for_sync(&mut state, SyncItemType::SurveyResponse, &s("late"), &s("{}"), &s("t2"));
    assert_eq!(retry_pending_sync(&mut state, &pass, &vec![true]), 1);
    let items = pending_items(&state);
    assert_eq!(items.len(), 1);
    assert_eq!(items[0].id, "late");
    assert_eq!(items[0].retry_count, 0);
}
