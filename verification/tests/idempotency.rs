use zero2prod::idempotency::{
    get_saved_response, rollback, save_response, try_processing, IdempotencyError, IdempotencyKey,
    IdempotencyKeyError, IdempotencyStore, NextAction,
};
use zero2prod::response::{
    redirect, response_from_row, row_from_response, HeaderPairRecord, HttpResponse, InvalidStatusCode,
    SavedResponseError, SavedResponseRow,
};

fn key(s: &str) -> IdempotencyKey {
    IdempotencyKey::parse(s.to_string()).unwrap()
}

fn sample_response() -> HttpResponse {
    HttpResponse::build(
        202,
        vec![
            HeaderPairRecord { name: "x-first".to_string(), value: vec![1, 2, 3] },
            HeaderPairRecord { name: "x-second".to_string(), value: vec![0xff] },
        ],
        b"accepted".to_vec(),
    )
    .unwrap()
}

#[test]
fn a_key_of_one_to_fifty_printable_characters_is_valid() {
    assert_eq!(key("abc123").as_str(), "abc123");
    assert_eq!(key("a").as_str(), "a");
    assert!(IdempotencyKey::parse("k".repeat(50)).is_ok());
    assert!(IdempotencyKey::parse(" ~!".to_string()).is_ok());
}

#[test]
fn an_empty_key_is_rejected() {
    assert_eq!(IdempotencyKey::parse(String::new()), Err(IdempotencyKeyError::Empty));
}

#[test]
fn a_key_of_fifty_one_characters_is_rejected() {
    assert_eq!(IdempotencyKey::parse("k".repeat(51)), Err(IdempotencyKeyError::TooLong));
}

#[test]
fn a_key_with_an_unprintable_character_is_rejected() {
    for bad in ["a\tb", "a\nb", "caf\u{e9}", "\u{7f}", "a\u{0}"] {
        assert_eq!(IdempotencyKey::parse(bad.to_string()), Err(IdempotencyKeyError::NotPrintable), "{:?}", bad);
    }
}

#[test]
fn a_long_key_is_too_long_whatever_it_holds() {
    assert_eq!(IdempotencyKey::parse("\n".repeat(51)), Err(IdempotencyKeyError::TooLong));
}

#[test]
fn the_first_claim_makes_an_owner_and_the_second_is_refused_while_it_is_in_flight() {
    let mut store = IdempotencyStore::new();
    let first = try_processing(&mut store, &key("abc123"), 7, 100);
    assert!(matches!(first, Ok(NextAction::StartProcessing(_))));
    assert_eq!(store.len(), 1);
    let second = try_processing(&mut store, &key("abc123"), 7, 101);
    assert_eq!(second, Err(IdempotencyError::ResponseNotSaved));
    assert_eq!(store.len(), 1);
    assert_eq!(get_saved_response(&store, &key("abc123"), 7), None);
}

#[test]
fn a_saved_response_is_replayed_byte_for_byte() {
    let mut store = IdempotencyStore::new();
    let transaction = match try_processing(&mut store, &key("abc123"), 7, 100) {
        Ok(NextAction::StartProcessing(t)) => t,
        other => panic!("{:?}", other),
    };
    let returned = save_response(&mut store, transaction, sample_response()).unwrap();
    assert_eq!(returned, sample_response());
    assert_eq!(get_saved_response(&store, &key("abc123"), 7), Some(sample_response()));
    match try_processing(&mut store, &key("abc123"), 7, 200) {
        Ok(NextAction::ReturnedHttpResponse(r)) => assert_eq!(r, sample_response()),
        other => panic!("{:?}", other),
    }
    assert_eq!(store.len(), 1);
}

#[test]
fn keys_are_kept_apart_by_user_and_by_text() {
    let mut store = IdempotencyStore::new();
    assert!(matches!(try_processing(&mut store, &key("k"), 1, 0), Ok(NextAction::StartProcessing(_))));
    assert!(matches!(try_processing(&mut store, &key("k"), 2, 0), Ok(NextAction::StartProcessing(_))));
    assert!(matches!(try_processing(&mut store, &key("K"), 1, 0), Ok(NextAction::StartProcessing(_))));
    assert_eq!(store.len(), 3);
}

#[test]
fn a_claim_that_is_given_up_can_be_made_again() {
    let mut store = IdempotencyStore::new();
    let transaction = match try_processing(&mut store, &key("abc123"), 7, 100) {
        Ok(NextAction::StartProcessing(t)) => t,
        other => panic!("{:?}", other),
    };
    rollback(&mut store, transaction);
    assert_eq!(store.len(), 0);
    assert!(matches!(try_processing(&mut store, &key("abc123"), 7, 100), Ok(NextAction::StartProcessing(_))));
}

#[test]
fn saving_twice_fails_and_keeps_the_first_response() {
    let mut store = IdempotencyStore::new();
    let first = match try_processing(&mut store, &key("k"), 1, 0) {
        Ok(NextAction::StartProcessing(t)) => t,
        other => panic!("{:?}", other),
    };
    save_response(&mut store, first, sample_response()).unwrap();
    // a second claim on another store gives a transaction for the same slot
    let mut other = IdempotencyStore::new();
    let stray = match try_processing(&mut other, &key("k"), 1, 0) {
        Ok(NextAction::StartProcessing(t)) => t,
        other => panic!("{:?}", other),
    };
    let again = save_response(&mut store, stray, redirect("/elsewhere"));
    assert_eq!(again, Err(IdempotencyError::NoClaimInFlight));
    assert_eq!(get_saved_response(&store, &key("k"), 1), Some(sample_response()));
}

#[test]
fn saving_without_a_record_fails() {
    let mut other = IdempotencyStore::new();
    let stray = match try_processing(&mut other, &key("k"), 1, 0) {
        Ok(NextAction::StartProcessing(t)) => t,
        other => panic!("{:?}", other),
    };
    let mut store = IdempotencyStore::new();
    assert_eq!(save_response(&mut store, stray, sample_response()), Err(IdempotencyError::NoClaimInFlight));
    assert_eq!(store.len(), 0);
}

#[test]
fn rolling_back_a_finished_claim_changes_nothing() {
    let mut store = IdempotencyStore::new();
    let first = match try_processing(&mut store, &key("k"), 1, 0) {
        Ok(NextAction::StartProcessing(t)) => t,
        other => panic!("{:?}", other),
    };
    save_response(&mut store, first, sample_response()).unwrap();
    let mut other = IdempotencyStore::new();
    let stray = match try_processing(&mut other, &key("k"), 1, 0) {
        Ok(NextAction::StartProcessing(t)) => t,
        other => panic!("{:?}", other),
    };
    rollback(&mut store, stray);
    assert_eq!(get_saved_response(&store, &key("k"), 1), Some(sample_response()));
}

#[test]
fn a_response_needs_a_status_of_three_digits() {
    assert!(HttpResponse::build(100, vec![], vec![]).is_ok());
    assert!(HttpResponse::build(999, vec![], vec![]).is_ok());
    assert_eq!(HttpResponse::build(99, vec![], vec![]), Err(InvalidStatusCode));
    assert_eq!(HttpResponse::build(1000, vec![], vec![]), Err(InvalidStatusCode));
    assert_eq!(HttpResponse::build(0, vec![], vec![]), Err(InvalidStatusCode));
    assert_eq!(HttpResponse::build(u16::MAX, vec![], vec![]), Err(InvalidStatusCode));
}

#[test]
fn a_response_gives_back_what_it_was_built_from() {
    let response = sample_response();
    assert_eq!(response.status(), 202);
    assert_eq!(response.headers().len(), 2);
    assert_eq!(response.headers()[0], HeaderPairRecord { name: "x-first".to_string(), value: vec![1, 2, 3] });
    assert_eq!(response.headers()[1], HeaderPairRecord { name: "x-second".to_string(), value: vec![0xff] });
    assert_eq!(response.body(), &b"accepted".to_vec());
    assert_eq!(response.duplicate(), response);
    assert_eq!(response.clone(), response);
}

#[test]
fn a_redirect_is_a_303_with_the_location() {
    let response = redirect("/admin/newsletters");
    assert_eq!(response.status(), 303);
    assert_eq!(
        response.headers(),
        &vec![HeaderPairRecord { name: "location".to_string(), value: b"/admin/newsletters".to_vec() }]
    );
    assert!(response.body().is_empty());
}

#[test]
fn a_row_reads_back_as_the_response_it_was_written_from() {
    let response = sample_response();
    let row = row_from_response(&response);
    assert_eq!(row.response_status_code, 202);
    assert_eq!(row.response_headers, response.headers().clone());
    assert_eq!(row.response_body, b"accepted".to_vec());
    assert_eq!(response_from_row(row), Ok(response));
}

#[test]
fn a_row_with_a_bad_status_is_no_response() {
    let row = |code: i16| SavedResponseRow { response_status_code: code, response_headers: vec![], response_body: vec![] };
    assert_eq!(response_from_row(row(-1)), Err(SavedResponseError::NegativeStatusCode));
    assert_eq!(response_from_row(row(i16::MIN)), Err(SavedResponseError::NegativeStatusCode));
    assert_eq!(response_from_row(row(0)), Err(SavedResponseError::InvalidStatusCode));
    assert_eq!(response_from_row(row(99)), Err(SavedResponseError::InvalidStatusCode));
    assert_eq!(response_from_row(row(1000)), Err(SavedResponseError::InvalidStatusCode));
    assert_eq!(response_from_row(row(200)).unwrap().status(), 200);
}

#[test]
fn copies_hold_the_same_bytes() {
    assert_eq!(zero2prod::response::copy_bytes(&vec![9, 8, 7]), vec![9, 8, 7]);
    let headers = vec![HeaderPairRecord { name: "n".to_string(), value: vec![1] }];
    assert_eq!(zero2prod::response::copy_headers(&headers), headers);
}
