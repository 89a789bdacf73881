use krankulator_core::host::{PollResult, SilentAudioOutput};

#[test]
fn test_poll_result_default_is_idle() {
    let p = PollResult::default();
    assert!(!p.exit && !p.save_state && !p.load_state && !p.cycle_slot && !p.reset);
}

#[test]
fn test_silent_audio_output_constructs() {
    let _a = SilentAudioOutput::new();
    let _b = SilentAudioOutput::default();
}
