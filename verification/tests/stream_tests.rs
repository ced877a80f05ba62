use deepfilter_audio::model::{DfConfig, NormSetting};
use deepfilter_audio::stream::{
    deinterleave, mix_streams, overwrite_prefix, tensor_dims, DfTap, FrameAction, FrameSizeError,
    StreamMix, StreamProcessor, TensorDims, UnsupportedRank,
};

fn config(nb_df: usize, df_order: usize) -> DfConfig {
    DfConfig {
        sr: 48000,
        hop_size: 480,
        fft_size: 960,
        nb_erb: 32,
        nb_df,
        min_nb_erb_freqs: 2,
        df_order,
        conv_lookahead: 2,
        df_lookahead: 2,
        norm: NormSetting::Tau("1".to_string()),
    }
}

#[test]
fn new_stream_reports_its_configuration() {
    let p = StreamProcessor::new(&config(96, 5), 1);
    assert_eq!(p.sample_rate(), 48000);
    assert_eq!(p.hop_size(), 480);
    assert!(p.is_enabled());
    assert_eq!(p.frame_count(), 0);
    let b = p.buffer_sizes();
    assert_eq!(b.spectrum, 481);
    assert_eq!(b.erb_features, 32);
    assert_eq!(b.complex_features, 192);
    assert_eq!(b.gains, 32);
    assert_eq!(b.df_coefs, 960);
    assert_eq!(b.df_buffer, 480);
}

#[test]
fn warmup_skips_inference_for_ten_frames() {
    let mut p = StreamProcessor::new(&config(96, 5), 0);
    for _ in 0..10 {
        assert_eq!(p.begin_frame(480, 480), Ok(FrameAction::Process { run_inference: false }));
    }
    assert_eq!(p.begin_frame(480, 480), Ok(FrameAction::Process { run_inference: true }));
    assert_eq!(p.frame_count(), 11);
    p.reset();
    assert_eq!(p.frame_count(), 0);
    assert_eq!(p.begin_frame(480, 480), Ok(FrameAction::Process { run_inference: false }));
}

#[test]
fn disabled_stream_passes_through_without_counting() {
    let mut p = StreamProcessor::new(&config(96, 5), 0);
    p.set_enabled(false);
    assert!(!p.is_enabled());
    assert_eq!(p.begin_frame(480, 480), Ok(FrameAction::Passthrough));
    assert_eq!(p.frame_count(), 0);
}

#[test]
fn wrong_frame_sizes_are_refused() {
    let mut p = StreamProcessor::new(&config(96, 5), 0);
    assert_eq!(
        p.begin_frame(479, 480),
        Err(FrameSizeError { input: 479, output: 480, expected: 480 })
    );
    assert_eq!(
        p.begin_frame(480, 0),
        Err(FrameSizeError { input: 480, output: 0, expected: 480 })
    );
    assert_eq!(p.frame_count(), 0);
}

#[test]
fn ring_taps_follow_the_rolling_index() {
    let mut p = StreamProcessor::new(&config(4, 3), 0);
    // Index 0: tap t reads frame (0 - t) mod 3.
    assert_eq!(
        p.df_taps(1, 12, 24),
        vec![
            DfTap { buffer_index: 1, coef_index: 2 },
            DfTap { buffer_index: 9, coef_index: 10 },
            DfTap { buffer_index: 5, coef_index: 18 },
        ]
    );
    assert_eq!(p.df_store_index(1, 12, 10), Some(1));
    p.advance_df_index();
    assert_eq!(p.df_store_index(1, 12, 10), Some(5));
    assert_eq!(
        p.df_taps(1, 12, 24),
        vec![
            DfTap { buffer_index: 5, coef_index: 2 },
            DfTap { buffer_index: 1, coef_index: 10 },
            DfTap { buffer_index: 9, coef_index: 18 },
        ]
    );
    p.advance_df_index();
    p.advance_df_index();
    assert_eq!(p.df_store_index(3, 12, 10), Some(3));
}

#[test]
fn taps_outside_short_buffers_are_left_out() {
    let p = StreamProcessor::new(&config(4, 3), 0);
    assert_eq!(p.df_taps(1, 6, 24), vec![DfTap { buffer_index: 1, coef_index: 2 }, DfTap { buffer_index: 5, coef_index: 18 }]);
    assert_eq!(p.df_taps(1, 12, 11), vec![DfTap { buffer_index: 1, coef_index: 2 }]);
    assert_eq!(p.df_store_index(3, 2, 10), None);
    assert_eq!(p.df_store_index(3, 12, 3), None);
}

#[test]
fn deinterleave_separates_real_and_imaginary_parts() {
    let buf = [1, 10, 2, 20, 3, 30, 99];
    assert_eq!(deinterleave(&buf, 3), vec![1, 2, 3, 10, 20, 30]);
    assert_eq!(deinterleave(&buf, 0), Vec::<i32>::new());
}

#[test]
fn overwrite_prefix_copies_as_far_as_both_reach() {
    let mut gains = vec![0, 0, 0];
    overwrite_prefix(&mut gains, &[5, 6]);
    assert_eq!(gains, vec![5, 6, 0]);
    overwrite_prefix(&mut gains, &[7, 8, 9, 10]);
    assert_eq!(gains, vec![7, 8, 9]);
}

#[test]
fn mixing_uses_the_enabled_streams() {
    assert_eq!(mix_streams(true, true, true, true), StreamMix::Average);
    assert_eq!(mix_streams(true, true, false, true), StreamMix::OnlyA);
    assert_eq!(mix_streams(false, true, true, true), StreamMix::OnlyB);
    assert_eq!(mix_streams(false, true, false, true), StreamMix::Passthrough);
    assert_eq!(mix_streams(true, false, true, true), StreamMix::Unfiltered);
    assert_eq!(mix_streams(true, true, true, false), StreamMix::Unfiltered);
}

#[test]
fn tensor_shapes_of_rank_one_to_four() {
    assert!(matches!(tensor_dims(&[5]), Ok(TensorDims::Rank1([5]))));
    assert!(matches!(tensor_dims(&[1, 2]), Ok(TensorDims::Rank2([1, 2]))));
    assert!(matches!(tensor_dims(&[1, 2, 3]), Ok(TensorDims::Rank3([1, 2, 3]))));
    assert!(matches!(tensor_dims(&[1, 2, 3, 4]), Ok(TensorDims::Rank4([1, 2, 3, 4]))));
    assert_eq!(tensor_dims(&[]).err(), Some(UnsupportedRank(0)));
    assert_eq!(tensor_dims(&[1, 1, 1, 1, 1]).err(), Some(UnsupportedRank(5)));
}

#[test]
fn warmup_counts_only_the_frames_processed() {
    let mut p = StreamProcessor::new(&config(96, 5), 0);
    for _ in 0..5 {
        assert_eq!(p.begin_frame(480, 480), Ok(FrameAction::Process { run_inference: false }));
    }
    for _ in 0..3 {
        assert!(p.begin_frame(479, 480).is_err());
    }
    p.set_enabled(false);
    for _ in 0..4 {
        assert_eq!(p.begin_frame(480, 480), Ok(FrameAction::Passthrough));
    }
    p.set_enabled(true);
    for _ in 0..5 {
        assert_eq!(p.begin_frame(480, 480), Ok(FrameAction::Process { run_inference: false }));
    }
    assert_eq!(p.frame_count(), 10);
    assert_eq!(p.begin_frame(480, 480), Ok(FrameAction::Process { run_inference: true }));
    p.reset();
    assert_eq!(p.begin_frame(480, 480), Ok(FrameAction::Process { run_inference: false }));
}

#[test]
fn reset_gives_a_fresh_processor_switched_as_before() {
    let c = config(4, 3);
    let mut p = StreamProcessor::new(&c, 1);
    for _ in 0..12 {
        let _ = p.begin_frame(480, 480);
        p.advance_df_index();
    }
    p.set_enabled(false);
    p.reset();
    let mut q = StreamProcessor::new(&c, 1);
    q.set_enabled(false);
    assert_eq!(p.is_enabled(), q.is_enabled());
    assert_eq!(p.frame_count(), q.frame_count());
    assert_eq!(p.stream_id(), q.stream_id());
    assert_eq!(p.buffer_sizes(), q.buffer_sizes());
    assert_eq!(p.df_taps(2, 12, 24), q.df_taps(2, 12, 24));
}

#[test]
fn two_streams_evolve_independently() {
    let c = config(4, 3);
    let mut a = StreamProcessor::new(&c, 0);
    let mut b = StreamProcessor::new(&c, 1);
    let mut alone = StreamProcessor::new(&c, 0);
    for k in 0..15 {
        if k % 3 == 0 {
            b.set_enabled(k % 2 == 0);
            b.reset();
        }
        let _ = b.begin_frame(480, 480);
        assert_eq!(a.begin_frame(480, 480), alone.begin_frame(480, 480));
    }
    assert_eq!(a.frame_count(), alone.frame_count());
}

#[test]
fn the_switch_keeps_the_last_value_set() {
    let mut p = StreamProcessor::new(&config(4, 3), 0);
    p.set_enabled(false);
    let _ = p.begin_frame(480, 480);
    p.reset();
    p.advance_df_index();
    let _ = p.begin_frame(1, 1);
    assert!(!p.is_enabled());
    p.set_enabled(true);
    p.reset();
    assert!(p.is_enabled());
}
