use deepfilter_audio::player::{AudioPlayer, RenderOutcome};

#[test]
fn idle_player_outputs_silence() {
    let mut p = AudioPlayer::new(vec![1, 2, 3]);
    let mut out = [9; 4];
    assert_eq!(p.render(&mut out, 0), RenderOutcome::Idle);
    assert_eq!(out, [0; 4]);
    assert!(!p.is_playing());
    assert!(!p.is_finished());
}

#[test]
fn plays_in_order_then_finishes() {
    let mut p = AudioPlayer::new(vec![1, 2, 3, 4, 5]);
    p.start();
    let mut out = [9; 2];
    assert_eq!(p.render(&mut out, 0), RenderOutcome::Played(2));
    assert_eq!(out, [1, 2]);
    assert_eq!(p.render(&mut out, 0), RenderOutcome::Played(2));
    assert_eq!(out, [3, 4]);
    assert_eq!(p.render(&mut out, 0), RenderOutcome::Played(1));
    assert_eq!(out, [5, 0]);
    assert_eq!(p.position(), 5);
    assert!(p.is_playing());
    assert_eq!(p.render(&mut out, 0), RenderOutcome::Finished);
    assert_eq!(out, [0, 0]);
    assert!(p.is_finished());
    assert!(!p.is_playing());
}

#[test]
fn stop_and_restart() {
    let mut p = AudioPlayer::new(vec![1, 2, 3]);
    p.start();
    let mut out = [0; 2];
    p.render(&mut out, 0);
    p.stop();
    assert!(!p.is_playing());
    assert_eq!(p.render(&mut out, 7), RenderOutcome::Idle);
    assert_eq!(out, [7, 7]);
    p.start();
    assert_eq!(p.position(), 0);
    assert_eq!(p.render(&mut out, 0), RenderOutcome::Played(2));
    assert_eq!(out, [1, 2]);
}

#[test]
fn empty_recording_finishes_at_once() {
    let mut p: AudioPlayer<i16> = AudioPlayer::new(Vec::new());
    p.start();
    let mut out = [5i16; 3];
    assert_eq!(p.render(&mut out, 0), RenderOutcome::Finished);
    assert_eq!(out, [0; 3]);
    assert!(p.is_finished());
}

#[test]
fn buffers_of_any_sizes_hold_the_recording_then_silence() {
    let mut p = AudioPlayer::new(vec![1, 2, 3, 4, 5, 6, 7]);
    p.start();
    let mut all = Vec::new();
    for len in [3usize, 0, 2, 4, 1] {
        let mut out = vec![9; len];
        p.render(&mut out, 0);
        all.extend_from_slice(&out);
    }
    assert_eq!(all, vec![1, 2, 3, 4, 5, 6, 7, 0, 0, 0]);
    assert_eq!(p.position(), 7);
    assert!(p.is_finished());
    assert!(!p.is_playing());
}
