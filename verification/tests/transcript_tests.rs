use utterance::transcript::{
    clean_segment, format_user_turn, join_segments, prompt_invokes_assistant, strip_brackets,
};

#[test]
fn strip_brackets_removes_annotations() {
    assert_eq!(strip_brackets("[music] hello (laughs) there"), " hello  there");
    assert_eq!(strip_brackets("no annotations"), "no annotations");
    assert_eq!(strip_brackets("(cough)[BLANK_AUDIO]"), "");
    // closing brackets without an opener cannot start a match
    assert_eq!(strip_brackets("a) b] no openers"), "a) b] no openers");
}

#[test]
fn clean_segment_trims_lowers_and_strips() {
    assert_eq!(clean_segment("  [Music] HELLO  "), " hello");
    assert_eq!(clean_segment(" What Time Is It? "), "what time is it?");
}

#[test]
fn join_segments_uses_single_spaces() {
    let parts = vec!["computer".to_string(), "what time".to_string(), "is it".to_string()];
    assert_eq!(join_segments(&parts), "computer what time is it");
    assert_eq!(join_segments(&vec!["one".to_string()]), "one");
    assert_eq!(join_segments(&Vec::new()), "");
}

#[test]
fn prompt_invocation_names_match() {
    assert_eq!(prompt_invokes_assistant("computer what time is it"), Some(true));
    assert_eq!(prompt_invokes_assistant("peter open the door"), Some(true));
    assert_eq!(prompt_invokes_assistant("hey peter open the door"), Some(true));
    assert_eq!(prompt_invokes_assistant("what time is it"), Some(false));
    assert_eq!(prompt_invokes_assistant("computers are fun"), Some(true));
}

#[test]
fn format_user_turn_wraps_prompt() {
    assert_eq!(
        format_user_turn("hello there"),
        "{\"type\": \"user\", \"content\": \"hello there\"}"
    );
}
