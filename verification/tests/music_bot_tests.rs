use voiceapp::music_bot::{check_wav_spec, frame_plan, WavSpecError};

#[test]
fn wav_spec_checked_in_order() {
    assert!(check_wav_spec(48000, 1, 16).is_ok());
    assert_eq!(check_wav_spec(44100, 2, 8), Err(WavSpecError::InvalidSampleRate(44100)));
    assert_eq!(check_wav_spec(48000, 2, 8), Err(WavSpecError::NotMono(2)));
    assert_eq!(check_wav_spec(48000, 1, 24), Err(WavSpecError::InvalidBitDepth(24)));
    assert_eq!(WavSpecError::InvalidSampleRate(1).message(), "Invalid sample rate");
    assert_eq!(WavSpecError::NotMono(2).message(), "Not mono audio");
    assert_eq!(WavSpecError::InvalidBitDepth(8).message(), "Invalid bit depth");
}

#[test]
fn frames_cut_every_960_samples() {
    assert!(frame_plan(0).is_empty());
    assert_eq!(frame_plan(960), vec![(0, 960, 0)]);
    assert_eq!(frame_plan(2000), vec![(0, 960, 0), (960, 1920, 20), (1920, 2000, 40)]);
    assert_eq!(frame_plan(1), vec![(0, 1, 0)]);
}
