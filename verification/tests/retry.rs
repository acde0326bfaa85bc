use crypto_tracker::healthcheck::{
    healthcheck_action, judge_healthcheck, HealthcheckAction, HealthcheckError,
};
use crypto_tracker::number::Number;
use crypto_tracker::ordering::sorted;
use crypto_tracker::retry::{
    failure_message, Backoff, Outcome, Retries, RetryAction, RetryFailure,
};
use crypto_tracker::status::HttpStatus;
use crypto_tracker::time_utils::{
    format_epoch_ms, format_with_offset, FIRST_DATED_MS, LAST_DATED_MS,
};

fn num(value: f64) -> Number {
    Number::from_bits(value.to_bits())
}

fn status(code: u16) -> HttpStatus {
    HttpStatus::from_u16(code).unwrap()
}

fn response(code: u16, retry_after: Option<&str>) -> Outcome {
    Outcome::Response(status(code), retry_after.map(str::to_string))
}

#[test]
fn waits_double_up_to_a_minute() {
    let mut backoff = Backoff::new();
    let mut waits = Vec::new();
    for _ in 0..8 {
        waits.push(backoff.secs());
        backoff.grow();
    }
    assert_eq!(waits, vec![1, 2, 4, 8, 16, 32, 60, 60]);
    backoff.reset();
    assert_eq!(backoff.secs(), 1);
}

#[test]
fn success_is_accepted() {
    assert_eq!(Retries::new().next(&response(200, None)), RetryAction::Accept);
    assert_eq!(Retries::new().next(&response(299, Some("5"))), RetryAction::Accept);
}

#[test]
fn server_errors_are_repeated_five_times() {
    let mut retries = Retries::new();
    for wait in [1, 2, 4, 8, 16] {
        assert_eq!(retries.next(&response(503, Some("9"))), RetryAction::Wait(wait));
    }
    assert_eq!(
        retries.next(&response(503, None)),
        RetryAction::GiveUp(RetryFailure::ServerError(status(503)))
    );
}

#[test]
fn missing_responses_are_repeated_five_times() {
    let mut retries = Retries::new();
    for wait in [1, 2, 4, 8, 16] {
        assert_eq!(retries.next(&Outcome::Failed), RetryAction::Wait(wait));
    }
    assert_eq!(
        retries.next(&Outcome::Failed),
        RetryAction::GiveUp(RetryFailure::Unreachable)
    );
}

#[test]
fn rate_limits_are_waited_for_as_asked() {
    let mut retries = Retries::new();
    assert_eq!(retries.next(&response(429, Some("7"))), RetryAction::Wait(7));
    assert_eq!(retries.next(&response(418, Some("0"))), RetryAction::Wait(1));
    assert_eq!(retries.next(&response(429, Some("soon"))), RetryAction::Wait(4));
    assert_eq!(retries.next(&response(429, None)), RetryAction::Wait(8));
    assert_eq!(retries.next(&response(418, Some("3600"))), RetryAction::Wait(3_600));
    assert_eq!(
        retries.next(&response(429, Some("1"))),
        RetryAction::GiveUp(RetryFailure::RateLimited)
    );
}

#[test]
fn other_responses_are_final() {
    assert_eq!(
        Retries::new().next(&response(404, None)),
        RetryAction::GiveUp(RetryFailure::Rejected(status(404)))
    );
    assert_eq!(
        Retries::new().next(&response(301, None)),
        RetryAction::GiveUp(RetryFailure::Rejected(status(301)))
    );
}

#[test]
fn failures_speak() {
    assert_eq!(
        failure_message(RetryFailure::RateLimited, "").unwrap(),
        "Binance rate limit persisted after 5 retries"
    );
    assert_eq!(
        failure_message(RetryFailure::ServerError(status(502)), "x").unwrap(),
        "Binance server error persisted: 502 Bad Gateway"
    );
    assert_eq!(
        failure_message(RetryFailure::Rejected(status(400)), "bad symbol").unwrap(),
        "Binance request failed: 400 Bad Request bad symbol"
    );
    assert_eq!(failure_message(RetryFailure::Unreachable, "x"), None);
}

#[test]
fn status_codes_are_limited_and_speak() {
    assert!(HttpStatus::from_u16(99).is_none());
    assert!(HttpStatus::from_u16(1000).is_none());
    for code in [100, 200, 204, 404, 418, 429, 500, 599, 799, 999] {
        assert_eq!(
            status(code).message(),
            reqwest::StatusCode::from_u16(code).unwrap().to_string()
        );
        assert_eq!(status(code).as_u16(), code);
    }
}

#[test]
fn healthchecks_are_judged_by_status() {
    assert_eq!(judge_healthcheck(Some(status(204))), Ok(status(204)));
    assert_eq!(judge_healthcheck(None), Err(HealthcheckError::RequestFailed));
    let error = judge_healthcheck(Some(status(500))).unwrap_err();
    assert_eq!(error, HealthcheckError::HttpStatus(status(500)));
    assert_eq!(error.message(), "endpoint returned HTTP 500 Internal Server Error");
    assert_eq!(HealthcheckError::RequestFailed.message(), "request failed");
}

#[test]
fn healthchecks_need_a_url_and_no_dry_run() {
    assert_eq!(healthcheck_action("", false), HealthcheckAction::Nothing);
    assert_eq!(healthcheck_action("", true), HealthcheckAction::Nothing);
    assert_eq!(healthcheck_action("https://x", true), HealthcheckAction::Skip);
    assert_eq!(healthcheck_action("https://x", false), HealthcheckAction::Call);
}

#[test]
fn dates_reach_from_the_first_to_the_last_day() {
    assert_eq!(
        FIRST_DATED_MS,
        chrono::DateTime::<chrono::Utc>::MIN_UTC.timestamp_millis()
    );
    assert_eq!(
        LAST_DATED_MS,
        chrono::DateTime::<chrono::Utc>::MAX_UTC.timestamp_millis()
    );
    assert!(chrono::DateTime::from_timestamp_millis(FIRST_DATED_MS).is_some());
    assert!(chrono::DateTime::from_timestamp_millis(FIRST_DATED_MS - 1).is_none());
    assert!(chrono::DateTime::from_timestamp_millis(LAST_DATED_MS).is_some());
    assert!(chrono::DateTime::from_timestamp_millis(LAST_DATED_MS + 1).is_none());
    assert_eq!(format_epoch_ms(LAST_DATED_MS + 1), (LAST_DATED_MS + 1).to_string());
    assert_eq!(format_epoch_ms(FIRST_DATED_MS - 1), (FIRST_DATED_MS - 1).to_string());
}

#[test]
fn dates_are_written_for_an_offset() {
    assert_eq!(format_with_offset(0, 0), "01.01.1970 00:00");
    assert_eq!(format_with_offset(1_740_000_000_000, 0), "19.02.2025 21:20");
    assert_eq!(format_with_offset(1_740_000_000_000, 3 * 3_600), "20.02.2025 00:20");
    assert_eq!(format_with_offset(0, -60), "31.12.1969 23:59");
    assert_eq!(format_with_offset(i64::MIN, 60), i64::MIN.to_string());
    assert!(format_with_offset(FIRST_DATED_MS, -86_399).contains('.'));
    assert!(format_with_offset(LAST_DATED_MS, 86_399).contains('.'));
}

#[test]
fn local_times_are_written_as_chrono_does() {
    for ms in [0, 1_740_000_000_000, 1_720_000_000_000, FIRST_DATED_MS, LAST_DATED_MS] {
        let local = chrono::DateTime::from_timestamp_millis(ms)
            .unwrap()
            .with_timezone(&chrono::Local)
            .format("%d.%m.%Y %H:%M")
            .to_string();
        assert_eq!(format_epoch_ms(ms), local);
    }
}

#[test]
fn numbers_compare_as_floats_do() {
    let values = [
        0.0,
        -0.0,
        1.0,
        -1.0,
        1.5,
        f64::MIN_POSITIVE,
        f64::MAX,
        f64::MIN,
        f64::INFINITY,
        f64::NEG_INFINITY,
        f64::NAN,
        -f64::NAN,
        5e-324,
    ];
    for a in values {
        assert_eq!(num(a).is_nan(), a.is_nan());
        assert_eq!(num(a).is_finite(), a.is_finite());
        for b in values {
            assert_eq!(num(a).is_at_most(num(b)), a <= b);
            assert_eq!(num(a).is_below(num(b)), a < b);
            assert_eq!(num(a).is_equal(num(b)), a == b);
            assert_eq!(num(a) == num(b), a == b);
            assert_eq!(num(a).is_ordered_before(num(b)), a.total_cmp(&b).is_le());
        }
    }
}

#[test]
fn sorting_puts_numbers_and_texts_in_order() {
    let values = vec![3.0, -0.0, 0.0, f64::NAN, -5.0, 3.0, f64::INFINITY];
    let mut wanted = values.clone();
    wanted.sort_by(f64::total_cmp);
    let wanted: Vec<u64> = wanted.into_iter().map(f64::to_bits).collect();
    let found: Vec<u64> = sorted(values.into_iter().map(num).collect::<Vec<Number>>())
        .iter()
        .map(|number| number.bits)
        .collect();
    assert_eq!(found, wanted);

    let texts: Vec<String> =
        ["b", "a", "ab", "", "ä", "z", "b"].iter().map(|text| text.to_string()).collect();
    let mut wanted = texts.clone();
    wanted.sort();
    assert_eq!(sorted(texts), wanted);
}

#[test]
fn constants_are_the_numbers_they_name() {
    assert_eq!(crypto_tracker::number::ONE_BITS, 1.0f64.to_bits());
    assert_eq!(crypto_tracker::number::TWO_BITS, 2.0f64.to_bits());
    assert_eq!(crypto_tracker::number::HUNDRED_BITS, 100.0f64.to_bits());
    assert_eq!(crypto_tracker::number::EPSILON_BITS, f64::EPSILON.to_bits());
    assert_eq!(crypto_tracker::number::INFINITY_BITS, f64::INFINITY.to_bits());
    assert_eq!(crypto_tracker::number::SIGN_BITS, (-0.0f64).to_bits());
    assert_eq!(crypto_tracker::telegram::HOUR_MS_BITS, 3_600_000.0f64.to_bits());
}
