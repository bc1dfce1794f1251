use whispertype::audio::vad::VoiceActivityDetector;

fn rms_energy(samples: &[f32]) -> f32 {
    if samples.is_empty() {
        return 0.0;
    }
    let sum_sq: f32 = samples.iter().map(|s| s * s).sum();
    (sum_sq / samples.len() as f32).sqrt()
}

fn above(threshold: f32) -> impl Fn(&[f32]) -> bool {
    move |frame: &[f32]| rms_energy(frame) > threshold
}

fn speech_frame() -> Vec<f32> {
    (0..480).map(|i| (i as f32 * 0.1).sin() * 0.5).collect()
}

#[test]
fn test_silence_detected() {
    let mut vad = VoiceActivityDetector::new(above(0.01));
    let silence = vec![0.0f32; 480];
    assert!(!vad.process_frame(&silence));
}

#[test]
fn test_single_silent_frame_does_not_trigger_speech() {
    let mut vad = VoiceActivityDetector::new(above(0.01));
    let silence = vec![0.0f32; 480];
    let result = vad.process_frame(&silence);
    assert!(!result, "single silent frame should not indicate speech");
    assert!(!vad.is_speech(), "vad.is_speech should remain false");
}

#[test]
fn test_many_silent_frames_never_trigger_speech() {
    let mut vad = VoiceActivityDetector::new(above(0.01));
    let silence = vec![0.0f32; 480];
    for _ in 0..100 {
        assert!(
            !vad.process_frame(&silence),
            "silent frames should never trigger speech"
        );
    }
}

#[test]
fn test_speech_detected() {
    let mut vad = VoiceActivityDetector::new(above(0.01));
    let speech = speech_frame();
    vad.process_frame(&speech);
    vad.process_frame(&speech);
    assert!(vad.process_frame(&speech));
}

#[test]
fn test_speech_requires_min_consecutive_frames() {
    let mut vad = VoiceActivityDetector::new(above(0.01));
    let speech = speech_frame();

    assert!(
        !vad.process_frame(&speech),
        "1 frame should not trigger speech"
    );
    assert!(
        !vad.process_frame(&speech),
        "2 frames should not trigger speech"
    );
    assert!(vad.process_frame(&speech), "3 frames should trigger speech");
}

#[test]
fn test_speech_persists_after_detection() {
    let mut vad = VoiceActivityDetector::new(above(0.01));
    let speech = speech_frame();

    for _ in 0..3 {
        vad.process_frame(&speech);
    }
    assert!(vad.is_speech());

    assert!(vad.process_frame(&speech));
    assert!(vad.process_frame(&speech));
}

#[test]
fn test_silence_requires_min_consecutive_frames_to_end_speech() {
    let mut vad = VoiceActivityDetector::new(above(0.01));
    let speech = speech_frame();
    let silence = vec![0.0f32; 480];

    for _ in 0..3 {
        vad.process_frame(&speech);
    }
    assert!(vad.is_speech());

    for _ in 0..9 {
        let result = vad.process_frame(&silence);
        assert!(result, "speech should persist during silence countdown");
    }

    let result = vad.process_frame(&silence);
    assert!(
        !result,
        "speech should end after 10 consecutive silent frames"
    );
}

#[test]
fn test_speech_frame_resets_silence_counter() {
    let mut vad = VoiceActivityDetector::new(above(0.01));
    let speech = speech_frame();
    let silence = vec![0.0f32; 480];

    for _ in 0..3 {
        vad.process_frame(&speech);
    }

    for _ in 0..5 {
        vad.process_frame(&silence);
    }
    assert!(
        vad.is_speech(),
        "should still be in speech state after only 5 silent frames"
    );

    vad.process_frame(&speech);
    assert_eq!(
        vad.silence_frame_count(),
        0,
        "silence count should be reset by speech"
    );

    for _ in 0..5 {
        vad.process_frame(&silence);
    }
    assert!(
        vad.is_speech(),
        "should still be in speech after reset + 5 silent frames"
    );
}

#[test]
fn test_energy_below_threshold_is_silence() {
    let threshold = 0.05f32;
    let mut vad = VoiceActivityDetector::new(above(threshold));

    let value = threshold * 0.5;
    let frame = vec![value; 480];
    let energy = rms_energy(&frame);
    assert!(
        energy < threshold,
        "energy {} should be below threshold {}",
        energy,
        threshold
    );

    for _ in 0..10 {
        assert!(
            !vad.process_frame(&frame),
            "energy below threshold should be treated as silence"
        );
    }
}

#[test]
fn test_energy_just_above_threshold_is_speech() {
    let threshold = 0.01f32;
    let mut vad = VoiceActivityDetector::new(above(threshold));
    let value = threshold + 0.001;
    let frame = vec![value; 480];

    vad.process_frame(&frame);
    vad.process_frame(&frame);
    assert!(
        vad.process_frame(&frame),
        "energy above threshold should be detected as speech"
    );
}

#[test]
fn test_contains_speech_with_silence() {
    let mut vad = VoiceActivityDetector::new(above(0.01));
    let silence = vec![0.0f32; 4800];
    assert!(
        !vad.contains_speech(&silence),
        "silence should not be detected as speech"
    );
}

#[test]
fn test_contains_speech_with_speech() {
    let mut vad = VoiceActivityDetector::new(above(0.01));
    let speech: Vec<f32> = (0..7680).map(|i| (i as f32 * 0.1).sin() * 0.5).collect();
    assert!(
        vad.contains_speech(&speech),
        "loud audio should be detected as speech"
    );
}

#[test]
fn test_contains_speech_partial_speech_detected() {
    let mut vad = VoiceActivityDetector::new(above(0.01));
    let mut audio = vec![0.0f32; 480 * 5];
    let speech_frames: Vec<f32> = (0..(480 * 5))
        .map(|i| (i as f32 * 0.1).sin() * 0.5)
        .collect();
    audio.extend_from_slice(&speech_frames);

    assert!(
        vad.contains_speech(&audio),
        "audio with some speech should be detected"
    );
}

#[test]
fn test_contains_speech_non_multiple_frame_size() {
    let mut vad = VoiceActivityDetector::new(above(0.01));
    let speech: Vec<f32> = (0..1000).map(|i| (i as f32 * 0.1).sin() * 0.5).collect();
    let _ = vad.contains_speech(&speech);
}

#[test]
fn test_high_threshold_ignores_quiet_speech() {
    let mut vad = VoiceActivityDetector::new(above(0.5));
    let quiet: Vec<f32> = (0..480).map(|i| (i as f32 * 0.1).sin() * 0.1).collect();
    for _ in 0..10 {
        assert!(
            !vad.process_frame(&quiet),
            "quiet signal should not exceed high threshold"
        );
    }
}

#[test]
fn test_zero_threshold_detects_any_nonzero_signal() {
    let mut vad = VoiceActivityDetector::new(above(0.0));
    let tiny = vec![0.0001f32; 480];
    vad.process_frame(&tiny);
    vad.process_frame(&tiny);
    assert!(
        vad.process_frame(&tiny),
        "any nonzero signal should trigger speech with threshold 0"
    );
}

fn marked(frame: &[u8]) -> bool {
    frame[0] == 1
}

#[test]
fn streaks_are_counted_and_reset() {
    let mut vad = VoiceActivityDetector::new(marked);
    assert_eq!((vad.speech_frame_count(), vad.silence_frame_count()), (0, 0));
    vad.process_frame(&[1u8]);
    vad.process_frame(&[1u8]);
    assert_eq!((vad.speech_frame_count(), vad.silence_frame_count()), (2, 0));
    assert!(!vad.is_speech());
    vad.process_frame(&[0u8]);
    assert_eq!((vad.speech_frame_count(), vad.silence_frame_count()), (0, 1));
    // the streak was broken: two more loud frames are not enough
    assert!(!vad.process_frame(&[1u8]));
    assert!(!vad.process_frame(&[1u8]));
    assert!(vad.process_frame(&[1u8]));
    // one loud frame in the middle of the countdown starts it over
    for _ in 0..9 {
        assert!(vad.process_frame(&[0u8]));
    }
    assert_eq!(vad.silence_frame_count(), 9);
    assert!(vad.process_frame(&[1u8]));
    assert_eq!((vad.speech_frame_count(), vad.silence_frame_count()), (1, 0));
    for _ in 0..9 {
        assert!(vad.process_frame(&[0u8]));
    }
    assert!(!vad.process_frame(&[0u8]));
    // and a single loud frame does not switch it back on
    assert!(!vad.process_frame(&[1u8]));
}

#[test]
fn contains_speech_cuts_frames_of_480_and_keeps_the_rest() {
    let lengths = std::cell::RefCell::new(Vec::new());
    let mut vad = VoiceActivityDetector::new(|frame: &[u8]| {
        lengths.borrow_mut().push(frame.len());
        true
    });
    assert!(vad.contains_speech(&vec![0u8; 1000]));
    assert_eq!(*lengths.borrow(), vec![480, 480, 40]);
    lengths.borrow_mut().clear();
    assert!(vad.contains_speech(&vec![0u8; 960]));
    assert_eq!(*lengths.borrow(), vec![480, 480]);
    lengths.borrow_mut().clear();
    // the detector is still on from before, but an empty chunk has no frame to report it
    assert!(!vad.contains_speech(&[]));
    assert!(lengths.borrow().is_empty());
    assert!(vad.is_speech());
}

#[test]
fn contains_speech_carries_state_across_chunks() {
    let mut vad = VoiceActivityDetector::new(marked);
    // two loud frames: not yet
    let mut two = vec![0u8; 960];
    two[0] = 1;
    two[480] = 1;
    assert!(!vad.contains_speech(&two));
    // the third loud frame arrives in the next chunk
    let mut one = vec![0u8; 480];
    one[0] = 1;
    assert!(vad.contains_speech(&one));
    // nine quiet frames keep it on, and the chunk reports speech
    assert!(vad.contains_speech(&vec![0u8; 480 * 9]));
    // the tenth switches it off within this chunk: no frame left it on
    assert!(!vad.contains_speech(&vec![0u8; 480]));
    assert!(!vad.is_speech());
}
