use itch_fetch::catalog::{Game, OwnedKey, User};
use itch_fetch::errors::{check_response, resolve_credential, ApiFailure, MissingCredential};
use itch_fetch::paginate::{collect_pages, OwnedKeysPage, Paginator};
use itch_fetch::retry::{
    classify_status, retry_delay_ms, run_call, AttemptResult, CallOutcome, RetryDecision,
    RetryState, StatusClass,
};

fn key(id: u64) -> OwnedKey {
    OwnedKey {
        id,
        game_id: id + 100,
        purchase_id: None,
        downloads: 0,
        created_at: String::new(),
        updated_at: String::new(),
        game: Game {
            id: id + 100,
            title: format!("game {}", id),
            short_text: None,
            url: String::new(),
            game_type: "default".to_string(),
            classification: "game".to_string(),
            created_at: String::new(),
            published_at: None,
            cover_url: None,
            still_cover_url: None,
            min_price: None,
            user: User {
                id: 7,
                username: "u".to_string(),
                display_name: None,
                url: String::new(),
                cover_url: None,
            },
        },
    }
}

fn page(ids: &[u64], per_page: u64) -> OwnedKeysPage {
    OwnedKeysPage {
        owned_keys: ids.iter().map(|i| key(*i)).collect(),
        page: 1,
        per_page,
    }
}

#[test]
fn status_classification() {
    assert_eq!(classify_status(200), StatusClass::Success);
    assert_eq!(classify_status(204), StatusClass::Success);
    assert_eq!(classify_status(429), StatusClass::RateLimited);
    assert_eq!(classify_status(404), StatusClass::HardFailure);
    assert_eq!(classify_status(500), StatusClass::HardFailure);
}

#[test]
fn backoff_formula_exact_values() {
    assert_eq!(retry_delay_ms(1), 1500);
    assert_eq!(retry_delay_ms(2), 2000);
    assert_eq!(retry_delay_ms(3), 2500);
}

#[test]
fn retry_state_counts_and_gives_up_after_ceiling() {
    let mut st = RetryState::new(3);
    assert_eq!(st.on_rate_limited(), RetryDecision::Wait { delay_ms: 1500 });
    assert_eq!(st.on_rate_limited(), RetryDecision::Wait { delay_ms: 2000 });
    assert_eq!(st.on_rate_limited(), RetryDecision::Wait { delay_ms: 2500 });
    assert_eq!(st.on_rate_limited(), RetryDecision::GiveUp);
}

#[test]
fn three_rate_limits_then_success_succeeds_on_fourth_attempt() {
    let attempts = vec![
        AttemptResult::Status(429),
        AttemptResult::Status(429),
        AttemptResult::Status(429),
        AttemptResult::Status(200),
    ];
    match run_call(&attempts, 3) {
        CallOutcome::Responded { status, attempts, delays_ms } => {
            assert_eq!(status, 200);
            assert_eq!(attempts, 4);
            assert_eq!(delays_ms, vec![1500, 2000, 2500]);
            for w in delays_ms.windows(2) {
                assert!(w[0] < w[1]);
            }
        },
        _ => panic!("expected a settled response"),
    }
}

#[test]
fn four_rate_limits_fail_after_exactly_three_retries() {
    let attempts = vec![
        AttemptResult::Status(429),
        AttemptResult::Status(429),
        AttemptResult::Status(429),
        AttemptResult::Status(429),
    ];
    match run_call(&attempts, 3) {
        CallOutcome::TooManyRetries { delays_ms } => {
            assert_eq!(delays_ms, vec![1500, 2000, 2500]);
        },
        _ => panic!("expected the retry ceiling to be hit"),
    }
}

#[test]
fn hard_failure_is_not_retried() {
    let attempts = vec![AttemptResult::Status(500), AttemptResult::Status(200)];
    match run_call(&attempts, 1) {
        CallOutcome::Responded { status, attempts, .. } => {
            assert_eq!(status, 500);
            assert_eq!(attempts, 1);
        },
        _ => panic!("expected the first response to settle the call"),
    }
}

#[test]
fn transport_failure_surfaces_at_once() {
    let attempts = vec![AttemptResult::NoResponse, AttemptResult::Status(200)];
    match run_call(&attempts, 1) {
        CallOutcome::Transport { attempts } => assert_eq!(attempts, 1),
        _ => panic!("expected a transport failure"),
    }
}

#[test]
fn check_response_accepts_success_and_keeps_error_body() {
    assert!(check_response(200, String::new()).is_ok());
    match check_response(404, "not found".to_string()) {
        Err(ApiFailure::Api { status, body }) => {
            assert_eq!(status, 404);
            assert_eq!(body, "not found");
        },
        _ => panic!("expected an api failure"),
    }
}

#[test]
fn pagination_concatenates_until_short_page() {
    let pages = vec![
        page(&[1, 2, 3], 3),
        page(&[4, 5, 6], 3),
        page(&[7, 8], 3),
    ];
    let (keys, fetched) = collect_pages(pages).expect("a short page ends the listing");
    assert_eq!(fetched, 3);
    let ids: Vec<u64> = keys.iter().map(|k| k.id).collect();
    assert_eq!(ids, vec![1, 2, 3, 4, 5, 6, 7, 8]);
}

#[test]
fn exactly_full_last_page_costs_one_extra_request() {
    let pages = vec![page(&[1, 2, 3], 3), page(&[], 3)];
    let (keys, fetched) = collect_pages(pages).expect("the empty trailing page is short");
    assert_eq!(fetched, 2);
    assert_eq!(keys.len(), 3);
}

#[test]
fn all_full_pages_keep_the_listing_going() {
    let pages = vec![page(&[1, 2], 2), page(&[3, 4], 2)];
    assert!(collect_pages(pages).is_none());
}

#[test]
fn paginator_advances_and_stops_on_short_count() {
    let mut pg = Paginator::new();
    assert_eq!(pg.next_page, 1);
    let done = pg.apply_page(page(&[1, 2], 2));
    assert!(!done);
    assert_eq!(pg.next_page, 2);
    let done = pg.apply_page(page(&[3], 2));
    assert!(done);
    assert_eq!(pg.collected.len(), 3);
}

#[test]
fn credential_resolution_order() {
    assert_eq!(
        resolve_credential(Some("flag".to_string()), Some("env".to_string())),
        Ok("flag".to_string())
    );
    assert_eq!(
        resolve_credential(None, Some("env".to_string())),
        Ok("env".to_string())
    );
    assert_eq!(resolve_credential(None, None), Err(MissingCredential));
}
