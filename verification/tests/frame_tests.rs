use utterance::frame::extract_frame;

#[test]
fn short_buffer_is_left_padded_with_silence() {
    let first: Vec<f32> = vec![0.25, -0.5];
    let second: Vec<f32> = vec![1.0];
    let frame = extract_frame(&first, &second, 6, 0.0f32);
    assert_eq!(frame, vec![0.0, 0.0, 0.0, 0.25, -0.5, 1.0]);
}

#[test]
fn frame_spans_the_split_point() {
    let first: Vec<i16> = vec![1, 2, 3];
    let second: Vec<i16> = vec![4, 5];
    assert_eq!(extract_frame(&first, &second, 4, 0i16), vec![2, 3, 4, 5]);
}

#[test]
fn frame_from_second_slice_alone() {
    let first: Vec<i16> = vec![1, 2];
    let second: Vec<i16> = vec![3, 4, 5, 6];
    assert_eq!(extract_frame(&first, &second, 3, 0i16), vec![4, 5, 6]);
}

#[test]
fn empty_buffer_gives_all_silence() {
    let first: Vec<f32> = Vec::new();
    let second: Vec<f32> = Vec::new();
    assert_eq!(extract_frame(&first, &second, 3, 0.0f32), vec![0.0, 0.0, 0.0]);
}

#[test]
fn exact_length_is_returned_whole() {
    let first: Vec<i16> = vec![9];
    let second: Vec<i16> = vec![8, 7];
    assert_eq!(extract_frame(&first, &second, 3, 0i16), vec![9, 8, 7]);
}
