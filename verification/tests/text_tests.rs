use utterance::text::{find_char, rfind_char, split_char, trim_str};
use utterance::vad::{ClassifierError, VoiceActivityGate};

#[test]
fn find_first_and_last_occurrence() {
    assert_eq!(find_char("a|b|c", '|'), Some(1));
    assert_eq!(rfind_char("a|b|c", '|'), Some(3));
    assert_eq!(find_char("abc", '|'), None);
    assert_eq!(rfind_char("", 'x'), None);
}

#[test]
fn split_keeps_empty_pieces() {
    let pieces = split_char("a,,b,", ',');
    assert_eq!(pieces, vec!["a".to_string(), "".to_string(), "b".to_string(), "".to_string()]);
    assert_eq!(split_char("plain", ','), vec!["plain".to_string()]);
}

#[test]
fn trim_removes_edge_whitespace() {
    assert_eq!(trim_str("  spaced out \t\n"), "spaced out");
    assert_eq!(trim_str("untouched"), "untouched");
    assert_eq!(trim_str(" \t "), "");
}

#[test]
fn vad_accepts_supported_frame_lengths() {
    let mut gate = VoiceActivityGate::new();
    // 10 ms of silence at 16 kHz: a supported length, classified quiet
    let silence = vec![0i16; 160];
    assert_eq!(gate.classify(&silence), Ok(false));
    // 20 and 30 ms are supported as well
    let mid = vec![0i16; 320];
    assert!(gate.classify(&mid).is_ok());
    let long = vec![0i16; 480];
    assert!(gate.classify(&long).is_ok());
}

#[test]
fn vad_refuses_unsupported_frame_length() {
    let mut gate = VoiceActivityGate::new();
    let odd = vec![0i16; 100];
    assert_eq!(gate.classify(&odd), Err(ClassifierError::InvalidFrame));
}
