use utterance::state_machine::{SpeakingState, TickAction, UtteranceStateMachine};

const BUF: usize = 240000; // 15 s at 16 kHz

#[test]
fn wake_word_starts_speaking_with_latency_offset() {
    let mut m = UtteranceStateMachine::new(16000);
    assert!(m.is_silent());
    let a = m.tick(10000, false, true, BUF);
    assert_eq!(a, TickAction::Idle);
    assert_eq!(m.state, SpeakingState::Speaking);
    assert_eq!(m.speaking_start, 8000);
    assert_eq!(m.detection_start, 10000);
}

#[test]
fn wake_word_near_epoch_saturates_offset() {
    let mut m = UtteranceStateMachine::new(16000);
    m.tick(500, false, true, BUF);
    assert_eq!(m.speaking_start, 0);
}

#[test]
fn no_detection_stays_silent() {
    let mut m = UtteranceStateMachine::new(16000);
    let a = m.tick(100, true, false, BUF);
    assert_eq!(a, TickAction::Idle);
    assert_eq!(m.state, SpeakingState::Silent);
}

#[test]
fn silence_begins_pending_end() {
    let mut m = UtteranceStateMachine::new(16000);
    m.tick(10000, false, true, BUF);
    m.tick(10010, true, false, BUF);
    assert_eq!(m.state, SpeakingState::Speaking);
    let a = m.tick(13000, false, false, BUF);
    assert_eq!(a, TickAction::Idle);
    assert_eq!(m.state, SpeakingState::PendingEnd { silence_started: 13000 });
}

#[test]
fn scripted_trace_matches_transition_table() {
    // 799 ms of silence after speech does not finalize; 801 ms does.
    let mut m = UtteranceStateMachine::new(16000);
    m.tick(10000, false, true, BUF); // wake
    m.tick(11000, true, false, BUF); // speaking continues
    m.tick(13000, false, false, BUF); // silence starts
    assert_eq!(m.state, SpeakingState::PendingEnd { silence_started: 13000 });
    let a = m.tick(13799, false, false, BUF);
    assert_eq!(a, TickAction::Idle);
    assert_eq!(m.state, SpeakingState::PendingEnd { silence_started: 13000 });
    let b = m.tick(13800, false, false, BUF); // exactly the threshold: not yet
    assert_eq!(b, TickAction::Idle);
    let c = m.tick(13801, false, false, BUF);
    // duration 13801 - 8000 = 5801 ms at 16 kHz
    assert_eq!(c, TickAction::Finalize { sample_count: 92816 });
    assert_eq!(m.state, SpeakingState::Silent);
}

#[test]
fn reentry_discards_pending_timer() {
    let mut m = UtteranceStateMachine::new(16000);
    m.tick(10000, false, true, BUF);
    m.tick(13000, false, false, BUF); // silence starts
    let a = m.tick(13500, true, false, BUF); // voice back after 500 ms
    assert_eq!(a, TickAction::Idle);
    assert_eq!(m.state, SpeakingState::Speaking);
    // a fresh pause must start a fresh timer
    m.tick(14000, false, false, BUF);
    assert_eq!(m.state, SpeakingState::PendingEnd { silence_started: 14000 });
}

#[test]
fn short_utterance_waits_for_minimum_length() {
    let mut m = UtteranceStateMachine::new(16000);
    m.tick(2000, false, true, BUF); // speaking_start = 0, detection_start = 2000
    m.tick(2100, false, false, BUF); // silence at once
    let a = m.tick(3000, false, false, BUF); // 900 ms silence, but only 1000 ms since detection
    assert_eq!(a, TickAction::Idle);
    assert_eq!(m.state, SpeakingState::PendingEnd { silence_started: 2100 });
    let b = m.tick(3601, false, false, BUF); // 1501 ms silence and 1601 ms since detection
    assert!(matches!(b, TickAction::Finalize { .. }));
}

#[test]
fn end_to_end_wake_speech_silence_finalizes_once() {
    // wake at t = 2000 (detection lag puts speech onset at t = 0); voice for
    // 3000 ms, then continuous silence; finalization comes 801 ms into the
    // silence and covers the whole 5801 ms window.
    let mut m = UtteranceStateMachine::new(16000);
    let mut finalizations = 0;
    let mut last_count = 0usize;
    for t in (2000u64..=7801).step_by(10) {
        let wake = t == 2000 && m.is_silent();
        let voice = t < 5000;
        match m.tick(t, voice, wake, BUF) {
            TickAction::Finalize { sample_count } => {
                finalizations += 1;
                last_count = sample_count;
                assert_eq!(t, 5810); // first tick after 5000 + 800 ms
            }
            TickAction::Idle => {}
        }
    }
    assert_eq!(finalizations, 1);
    // 5810 ms - speaking_start 0 = 5810 ms of audio at 16 kHz
    assert_eq!(last_count, 92960);
    assert_eq!(m.state, SpeakingState::Silent);
}

#[test]
fn finalize_sample_count_clamps_to_buffer() {
    // a 20 s utterance against a 15 s buffer yields exactly the buffer
    let mut m = UtteranceStateMachine::new(16000);
    m.tick(2000, false, true, BUF); // speaking_start = 0
    m.tick(20000, false, false, BUF);
    let a = m.tick(20801, false, false, BUF);
    assert_eq!(a, TickAction::Finalize { sample_count: BUF });
    // without clamping it would have been 20801 ms * 16 = 332816 samples
}

#[test]
fn wake_ignored_while_speaking() {
    let mut m = UtteranceStateMachine::new(16000);
    m.tick(10000, false, true, BUF);
    let start = m.speaking_start;
    m.tick(10500, true, true, BUF);
    assert_eq!(m.state, SpeakingState::Speaking);
    assert_eq!(m.speaking_start, start);
}
