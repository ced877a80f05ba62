use deepfilter_audio::frames::{join_frames, split_into_frames};
use deepfilter_audio::FRAME_SIZE;

#[test]
fn splits_and_pads_the_last_frame() {
    let samples: Vec<i32> = (1..=1000).collect();
    let frames = split_into_frames(&samples, FRAME_SIZE, 0);
    assert_eq!(frames.len(), 3);
    assert!(frames.iter().all(|f| f.len() == FRAME_SIZE));
    assert_eq!(frames[0][0], 1);
    assert_eq!(frames[2][39], 1000);
    assert!(frames[2][40..].iter().all(|&x| x == 0));
}

#[test]
fn exact_multiple_needs_no_padding_and_empty_input_no_frames() {
    let samples = vec![7u8; 960];
    assert_eq!(split_into_frames(&samples, 480, 0).len(), 2);
    let empty: Vec<u8> = Vec::new();
    assert!(split_into_frames(&empty, 480, 0).is_empty());
}

#[test]
fn join_uses_output_or_falls_back_to_input() {
    let samples: Vec<i32> = (0..10).collect();
    let frames = split_into_frames(&samples, 4, -1);
    assert_eq!(frames, vec![vec![0, 1, 2, 3], vec![4, 5, 6, 7], vec![8, 9, -1, -1]]);
    let outputs = vec![Some(vec![10, 11, 12, 13]), None, Some(vec![20, 21, 22, 23])];
    let joined = join_frames(&frames, &outputs, 4);
    assert_eq!(joined, vec![10, 11, 12, 13, 4, 5, 6, 7, 20, 21, 22, 23]);
}

#[test]
fn all_failed_frames_give_back_the_padded_recording() {
    let samples: Vec<i16> = (0..7).collect();
    let frames = split_into_frames(&samples, 3, 0);
    let outputs = vec![None; frames.len()];
    assert_eq!(join_frames(&frames, &outputs, 3), vec![0, 1, 2, 3, 4, 5, 6, 0, 0]);
}
