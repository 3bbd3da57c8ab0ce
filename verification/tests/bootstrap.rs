//! The login bootstrap's bounded retry, and the local time rendering.

use xtb::errors::XtbError;
use xtb::session::{LoginDecision, RetryPolicy, SessionBootstrap};
use xtb::time::civil_from_days;
use xtb::timestamp_to_datetime;
use xtb::xapi_definitions::commands_main::LoginResponse;

fn policy() -> RetryPolicy {
    RetryPolicy { max_attempts: 3, retry_delay_ms: 200 }
}

#[test]
fn always_failing_transport_attempts_exactly_three_times() {
    let mut boot = SessionBootstrap::new(policy());
    let mut attempts = 0;
    let outcome = loop {
        assert!(boot.attempts_left());
        attempts += 1;
        // Every attempt fails at the transport level.
        match boot.on_attempt(Err(XtbError::WriteError)) {
            LoginDecision::RetryAfter(delay) => assert_eq!(delay, 200),
            other => break other,
        }
    };
    assert_eq!(attempts, 3);
    assert_eq!(outcome, LoginDecision::Fail(XtbError::RetryExhausted));
    assert!(!boot.attempts_left());
}

#[test]
fn successful_login_hands_out_the_session_identifier() {
    let mut boot = SessionBootstrap::new(policy());
    let decision = boot.on_attempt(Ok(LoginResponse {
        status: true,
        stream_session_id: b"8469308861804289383".to_vec(),
    }));
    assert_eq!(decision, LoginDecision::Done(b"8469308861804289383".to_vec()));
    assert_eq!(boot.attempts_made, 1);
}

#[test]
fn rejection_short_circuits_consuming_one_attempt() {
    // The chosen policy: a server rejection is terminal at once and
    // consumes exactly the one attempt it answered - never a retry.
    let mut boot = SessionBootstrap::new(policy());
    let rejection = XtbError::AuthenticationFailed {
        code: b"BE005".to_vec(),
        description: b"login failed".to_vec(),
    };
    let decision = boot.on_attempt(Err(rejection.clone()));
    assert_eq!(decision, LoginDecision::Fail(rejection));
    assert_eq!(boot.attempts_made, 1);
    assert!(boot.attempts_left());
}

#[test]
fn transport_failure_then_success() {
    let mut boot = SessionBootstrap::new(policy());
    let first = boot.on_attempt(Err(XtbError::ConnectionClosed));
    assert_eq!(first, LoginDecision::RetryAfter(200));
    let second = boot.on_attempt(Ok(LoginResponse {
        status: true,
        stream_session_id: b"s".to_vec(),
    }));
    assert_eq!(second, LoginDecision::Done(b"s".to_vec()));
    assert_eq!(boot.attempts_made, 2);
}

#[test]
fn decode_failure_propagates_without_retry() {
    let mut boot = SessionBootstrap::new(policy());
    let failure = XtbError::DecodeError {
        raw: b"garbage".to_vec(),
        detail: b"malformed json".to_vec(),
    };
    let decision = boot.on_attempt(Err(failure.clone()));
    assert_eq!(decision, LoginDecision::Fail(failure));
}

#[test]
fn civil_reckoning_of_known_days() {
    assert_eq!(civil_from_days(0), Some((1970, 1, 1)));
    assert_eq!(civil_from_days(31), Some((1970, 2, 1)));
    assert_eq!(civil_from_days(365), Some((1971, 1, 1)));
    // 1972 is the first leap year after the epoch.
    assert_eq!(civil_from_days(730 + 59), Some((1972, 2, 29)));
    assert_eq!(civil_from_days(730 + 60), Some((1972, 3, 1)));
    // A modern date: 2024-01-01.
    assert_eq!(civil_from_days(19723), Some((2024, 1, 1)));
    // Days far past the epoch, and days before it.
    assert_eq!(civil_from_days(4_000_000), Some((12921, 8, 18)));
    assert_eq!(civil_from_days(-1), Some((1969, 12, 31)));
    assert_eq!(civil_from_days(-719528), Some((0, 1, 1)));
    // Beyond the reckoned years on either side.
    assert_eq!(civil_from_days(120_000_000), None);
    assert_eq!(civil_from_days(-120_000_000), None);
}

#[test]
fn pre_epoch_timestamp_renders() {
    // An instant in 1938; whatever the zone offset, the date stays within
    // a day of its UTC date.
    let shown = timestamp_to_datetime(-1_000_000_000_000);
    assert_eq!(shown.len(), 19);
    assert!(shown.starts_with("1938-04-2"));
}

#[test]
fn far_years_render_with_an_explicit_sign() {
    // Noon of a day in the year 10183: past four digits, the year carries
    // a plus sign, as the usual renderers write it.
    let shown = timestamp_to_datetime(259_200_043_200_000);
    assert!(shown.starts_with("+10183-09-2"));
    // Midsummer of the year 2001 BCE: a minus sign and the astronomical
    // year number.
    let shown = timestamp_to_datetime(-125_265_528_000_000);
    assert!(shown.starts_with("-2000-06-2"));
}

#[test]
fn timestamp_renders_as_calendar_text_or_empty() {
    // The local zone offset belongs to the machine, so only the shape is
    // fixed: either the 19-byte calendar form or, for instants the
    // supported calendar cannot hold, the empty string.
    let shown = timestamp_to_datetime(1_362_407_629_058);
    if !shown.is_empty() {
        let b = shown.as_bytes();
        assert_eq!(b.len(), 19);
        assert_eq!(b[4], b'-');
        assert_eq!(b[7], b'-');
        assert_eq!(b[10], b' ');
        assert_eq!(b[13], b':');
        assert_eq!(b[16], b':');
        // Whatever the zone offset, the instant stays within a day of its
        // UTC date.
        assert!(shown.starts_with("2013-03-0"));
    }
    // Far before the epoch: out of the supported range under any offset.
    assert_eq!(timestamp_to_datetime(i64::MIN), "");
}
