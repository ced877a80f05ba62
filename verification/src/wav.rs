//! The WAV formats the engine writes and reads. The files themselves are
//! read and written outside this crate; this module decides the layout.
use vstd::prelude::*;

verus! {

/// How samples are stored in a WAV file.
#[derive(PartialEq, Eq, Structural, Clone, Copy, Debug)]
pub enum WavSampleFormat {
    Int,
    Float,
}

/// The sample type a WAV file is decoded with.
#[derive(PartialEq, Eq, Structural, Clone, Copy, Debug)]
pub enum SampleEncoding {
    /// 8-bit integers, scaled by `i8::MAX`.
    Int8,
    /// 16-bit integers, scaled by `i16::MAX`.
    Int16,
    /// 32-bit integers, scaled by `i32::MAX`.
    Int32,
    /// 32-bit floats, taken as they are.
    Float32,
}

/// A WAV layout that cannot be read.
#[derive(PartialEq, Eq, Structural, Clone, Copy, Debug)]
pub enum WavError {
    UnsupportedBitDepth(u16),
}

/// The layout of a WAV file.
#[derive(PartialEq, Eq, Structural, Clone, Copy, Debug)]
pub struct WavLayout {
    pub channels: u16,
    pub sample_rate: u32,
    pub bits_per_sample: u16,
    pub format: WavSampleFormat,
}

/// How a file with the given sample format and bit depth is read: integer
/// samples of 8, 16 or 32 bits, or float samples; other integer depths are
/// refused.
pub open spec fn spec_sample_encoding(format: WavSampleFormat, bits: u16) -> Result<SampleEncoding, WavError> {
    match format {
        WavSampleFormat::Float => Ok(SampleEncoding::Float32),
        WavSampleFormat::Int => if bits == 16 {
            Ok(SampleEncoding::Int16)
        } else if bits == 32 {
            Ok(SampleEncoding::Int32)
        } else if bits == 8 {
            Ok(SampleEncoding::Int8)
        } else {
            Err(WavError::UnsupportedBitDepth(bits))
        },
    }
}

/// Chooses how to decode the samples of a file.
pub fn sample_encoding(format: WavSampleFormat, bits_per_sample: u16) -> (r: Result<SampleEncoding, WavError>)
    ensures
        r == spec_sample_encoding(format, bits_per_sample),
{
    match format {
        WavSampleFormat::Float => Ok(SampleEncoding::Float32),
        WavSampleFormat::Int => {
            if bits_per_sample == 16 {
                Ok(SampleEncoding::Int16)
            } else if bits_per_sample == 32 {
                Ok(SampleEncoding::Int32)
            } else if bits_per_sample == 8 {
                Ok(SampleEncoding::Int8)
            } else {
                Err(WavError::UnsupportedBitDepth(bits_per_sample))
            }
        },
    }
}

/// The layout recordings are written in: 16-bit integer samples at the
/// given rate and channel count.
pub fn output_layout(sample_rate: u32, channels: u16) -> (l: WavLayout)
    ensures
        l == (WavLayout { channels, sample_rate, bits_per_sample: 16, format: WavSampleFormat::Int }),
{
    WavLayout { channels, sample_rate, bits_per_sample: 16, format: WavSampleFormat::Int }
}

} // verus!
