use slowrx::error::Error;
use slowrx::resample::{cutoff_centihz, validate_input_rate, MAX_INPUT_SAMPLE_RATE_HZ};

#[test]
fn rejects_zero_rate() {
    assert!(matches!(
        validate_input_rate(0),
        Err(Error::InvalidSampleRate { got: 0 })
    ));
}

#[test]
fn rejects_oversize_rate() {
    assert!(matches!(
        validate_input_rate(MAX_INPUT_SAMPLE_RATE_HZ + 1),
        Err(Error::InvalidSampleRate { .. })
    ));
}

#[test]
fn resample_accepts_common_rates() {
    for rate in [8_000, 11_025, 22_050, 32_000, 44_100, 48_000, 96_000] {
        assert!(validate_input_rate(rate).is_ok(), "{rate} should be accepted");
    }
}

#[test]
fn rejects_invalid_sample_rates() {
    assert!(matches!(
        validate_input_rate(0),
        Err(Error::InvalidSampleRate { got: 0 })
    ));
    assert!(matches!(
        validate_input_rate(MAX_INPUT_SAMPLE_RATE_HZ + 1),
        Err(Error::InvalidSampleRate { .. })
    ));
}

#[test]
fn decoder_accepts_common_rates() {
    assert!(validate_input_rate(11_025).is_ok());
    assert!(validate_input_rate(44_100).is_ok());
    assert!(validate_input_rate(48_000).is_ok());
}

#[test]
fn accepted_rate_is_returned_unchanged() {
    assert_eq!(validate_input_rate(MAX_INPUT_SAMPLE_RATE_HZ), Ok(MAX_INPUT_SAMPLE_RATE_HZ));
    assert_eq!(validate_input_rate(1), Ok(1));
}

#[test]
fn cutoff_follows_the_lower_rate() {
    assert_eq!(cutoff_centihz(8_000), 360_000);
    assert_eq!(cutoff_centihz(44_100), 450_000);
    assert_eq!(cutoff_centihz(1), 45);
}
