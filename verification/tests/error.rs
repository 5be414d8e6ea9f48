use slowrx::error::Error;
use slowrx::resample::MAX_INPUT_SAMPLE_RATE_HZ;

#[test]
fn invalid_sample_rate_renders_with_value() {
    let e = Error::InvalidSampleRate { got: 0 };
    assert_eq!(
        e.message(),
        format!(
            "invalid sample rate: 0 (must be > 0 and \u{2264} {})",
            MAX_INPUT_SAMPLE_RATE_HZ
        )
    );
}

#[test]
fn message_prints_multi_digit_rates() {
    let e = Error::InvalidSampleRate { got: 4_294_967_295 };
    assert_eq!(
        e.message(),
        "invalid sample rate: 4294967295 (must be > 0 and \u{2264} 192000)"
    );
    let e = Error::InvalidSampleRate { got: 192_001 };
    assert_eq!(
        e.message(),
        "invalid sample rate: 192001 (must be > 0 and \u{2264} 192000)"
    );
}

#[test]
fn push_decimal_appends_digits() {
    let mut s = String::from("n=");
    slowrx::error::push_decimal(&mut s, 1_050);
    assert_eq!(s, "n=1050");
    let mut z = String::new();
    slowrx::error::push_decimal(&mut z, 0);
    assert_eq!(z, "0");
}
