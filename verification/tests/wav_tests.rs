use deepfilter_audio::wav::{output_layout, sample_encoding, SampleEncoding, WavError, WavLayout, WavSampleFormat};

#[test]
fn integer_depths_and_floats() {
    assert_eq!(sample_encoding(WavSampleFormat::Int, 16), Ok(SampleEncoding::Int16));
    assert_eq!(sample_encoding(WavSampleFormat::Int, 32), Ok(SampleEncoding::Int32));
    assert_eq!(sample_encoding(WavSampleFormat::Int, 8), Ok(SampleEncoding::Int8));
    assert_eq!(sample_encoding(WavSampleFormat::Float, 32), Ok(SampleEncoding::Float32));
    assert_eq!(sample_encoding(WavSampleFormat::Int, 24), Err(WavError::UnsupportedBitDepth(24)));
}

#[test]
fn recordings_are_written_as_16_bit_pcm() {
    assert_eq!(
        output_layout(48000, 1),
        WavLayout { channels: 1, sample_rate: 48000, bits_per_sample: 16, format: WavSampleFormat::Int }
    );
}
