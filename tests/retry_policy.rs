use good_days_to_bike::retry::{next_fetch_step, FetchOutcome, FetchStep};

#[test]
fn decoded_is_accepted() {
    assert_eq!(next_fetch_step(0, FetchOutcome::Decoded), FetchStep::Accept);
    assert_eq!(next_fetch_step(3, FetchOutcome::Decoded), FetchStep::Accept);
}

#[test]
fn decode_failures_back_off_exponentially() {
    assert_eq!(next_fetch_step(0, FetchOutcome::DecodeFailed), FetchStep::RetryAfter { seconds: 1 });
    assert_eq!(next_fetch_step(1, FetchOutcome::DecodeFailed), FetchStep::RetryAfter { seconds: 2 });
    assert_eq!(next_fetch_step(2, FetchOutcome::DecodeFailed), FetchStep::RetryAfter { seconds: 4 });
}

#[test]
fn decode_failure_after_three_retries_fails() {
    assert_eq!(next_fetch_step(3, FetchOutcome::DecodeFailed), FetchStep::Fail);
}

#[test]
fn transport_failure_is_not_retried() {
    assert_eq!(next_fetch_step(0, FetchOutcome::TransportFailed), FetchStep::Fail);
}
