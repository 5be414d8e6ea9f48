use slowrx::decoder::{radio_frames_per_image, target_audio_samples};
use slowrx::modespec::{for_mode, SstvMode};

#[test]
fn pd_images_span_half_as_many_radio_lines() {
    assert_eq!(radio_frames_per_image(&for_mode(SstvMode::Pd120)), 248);
    assert_eq!(radio_frames_per_image(&for_mode(SstvMode::Robot72)), 240);
    assert_eq!(radio_frames_per_image(&for_mode(SstvMode::Scottie1)), 256);
}

#[test]
fn image_audio_lengths_at_working_rate() {
    assert_eq!(target_audio_samples(&for_mode(SstvMode::Pd120)), 1_390_286);
    assert_eq!(target_audio_samples(&for_mode(SstvMode::Pd240)), 2_734_200);
    assert_eq!(target_audio_samples(&for_mode(SstvMode::Robot36)), 396_900);
    assert_eq!(target_audio_samples(&for_mode(SstvMode::ScottieDx)), 2_964_366);
}
