//! Opening a capture stream: which configuration of a device is used, and
//! what happens to each block of samples the stream delivers.

use vstd::prelude::*;
use crate::devices::DeviceError;
use crate::sample::Sample;

verus! {

/// The rate, in samples per second, at which the recognition engine takes
/// its audio.
pub const TARGET_SAMPLE_RATE: u32 = 16000;

/// The encodings in which a device may deliver its samples.
#[derive(Clone, Copy, Debug, PartialEq, Eq, Structural)]
pub enum SampleFormat {
    I8,
    I16,
    I24,
    I32,
    I64,
    U8,
    U16,
    U24,
    U32,
    U64,
    F32,
    F64,
    DsdU8,
    DsdU16,
    DsdU32,
}

impl SampleFormat {
    /// Bytes one sample of this format takes in memory.
    pub open spec fn size(self) -> int {
        match self {
            SampleFormat::I8 | SampleFormat::U8 | SampleFormat::DsdU8 => 1,
            SampleFormat::I16 | SampleFormat::U16 | SampleFormat::DsdU16 => 2,
            SampleFormat::I24 | SampleFormat::U24 | SampleFormat::I32 | SampleFormat::U32
            | SampleFormat::F32 | SampleFormat::DsdU32 => 4,
            SampleFormat::I64 | SampleFormat::U64 | SampleFormat::F64 => 8,
        }
    }

    /// The format is a floating-point one.
    pub open spec fn float(self) -> bool {
        self == SampleFormat::F32 || self == SampleFormat::F64
    }

    /// The pipeline can normalize samples of this format.
    pub open spec fn capturable(self) -> bool {
        self == SampleFormat::I8 || self == SampleFormat::I16 || self == SampleFormat::I32 || self
            == SampleFormat::F32
    }

    /// Bytes one sample of this format takes in memory.
    pub fn sample_size(self) -> (bytes: u16)
        ensures
            bytes == self.size(),
    {
        match self {
            SampleFormat::I8 | SampleFormat::U8 | SampleFormat::DsdU8 => 1,
            SampleFormat::I16 | SampleFormat::U16 | SampleFormat::DsdU16 => 2,
            SampleFormat::I24 | SampleFormat::U24 | SampleFormat::I32 | SampleFormat::U32
            | SampleFormat::F32 | SampleFormat::DsdU32 => 4,
            SampleFormat::I64 | SampleFormat::U64 | SampleFormat::F64 => 8,
        }
    }

    /// Whether the format is a floating-point one.
    pub fn is_float(self) -> (float: bool)
        ensures
            float == self.float(),
    {
        match self {
            SampleFormat::F32 | SampleFormat::F64 => true,
            _ => false,
        }
    }

    /// Whether the pipeline can normalize samples of this format.
    pub fn is_capturable(self) -> (capturable: bool)
        ensures
            capturable == self.capturable(),
    {
        match self {
            SampleFormat::I8 | SampleFormat::I16 | SampleFormat::I32 | SampleFormat::F32 => true,
            _ => false,
        }
    }
}

/// The configuration a device offers for a stream.
#[derive(Clone, Copy, Debug, PartialEq, Eq, Structural)]
pub struct StreamConfig {
    pub channels: u16,
    pub sample_rate: u32,
    pub sample_format: SampleFormat,
}

/// How the samples of a WAV file are encoded.
#[derive(Clone, Copy, Debug, PartialEq, Eq, Structural)]
pub enum WavSampleFormat {
    Float,
    Int,
}

/// The header fields of a WAV file that holds a stream as it is delivered.
#[derive(Clone, Copy, Debug, PartialEq, Eq, Structural)]
pub struct WavSpec {
    pub channels: u16,
    pub sample_rate: u32,
    pub bits_per_sample: u16,
    pub sample_format: WavSampleFormat,
}

/// The WAV encoding of a sample format.
pub fn sample_format(format: SampleFormat) -> (wav: WavSampleFormat)
    ensures
        wav == if format.float() {
            WavSampleFormat::Float
        } else {
            WavSampleFormat::Int
        },
{
    if format.is_float() {
        WavSampleFormat::Float
    } else {
        WavSampleFormat::Int
    }
}

/// The WAV header for a stream of the given configuration: eight bits per
/// byte of a sample.
pub fn wav_spec_from_config(config: &StreamConfig) -> (spec: WavSpec)
    ensures
        spec.channels == config.channels,
        spec.sample_rate == config.sample_rate,
        spec.bits_per_sample == config.sample_format.size() * 8,
        spec.sample_format == if config.sample_format.float() {
            WavSampleFormat::Float
        } else {
            WavSampleFormat::Int
        },
{
    WavSpec {
        channels: config.channels,
        sample_rate: config.sample_rate,
        bits_per_sample: config.sample_format.sample_size() * 8,
        sample_format: sample_format(config.sample_format),
    }
}

/// The side of a device a capture stream is opened on.
#[derive(Clone, Copy, Debug, PartialEq, Eq, Structural)]
pub enum CaptureRole {
    /// The device is a capture device.
    Input,
    /// The device plays back; its output is taken as the capture source.
    Output,
}

/// The configuration that capture from a device uses: the device's default
/// input configuration if it has one, else its default output configuration.
pub open spec fn chosen_config(input: Option<StreamConfig>, output: Option<StreamConfig>) -> Option<
    (CaptureRole, StreamConfig),
> {
    match (input, output) {
        (Some(config), _) => Some((CaptureRole::Input, config)),
        (None, Some(config)) => Some((CaptureRole::Output, config)),
        (None, None) => None,
    }
}

/// A capture stream that is ready to be opened.
#[derive(Clone, Copy, Debug, PartialEq, Eq, Structural)]
pub struct AudioManager {
    pub role: CaptureRole,
    pub config: StreamConfig,
}

impl AudioManager {
    /// Plans capture from a device, given its default input and output
    /// configurations (`None` where it has none).  The input side is taken
    /// if there is one, else the output side.  A device with neither is
    /// unsupported, and so is a sample format other than 8, 16 or 32 bit
    /// signed integers and 32 bit floats.
    pub fn new(input: Option<StreamConfig>, output: Option<StreamConfig>) -> (plan: Result<
        AudioManager,
        DeviceError,
    >)
        ensures
            match chosen_config(input, output) {
                None => plan == Err::<AudioManager, DeviceError>(DeviceError::Unsupported),
                Some((role, config)) => if config.sample_format.capturable() {
                    plan == Ok::<AudioManager, DeviceError>(AudioManager { role, config })
                } else {
                    plan == Err::<AudioManager, DeviceError>(DeviceError::UnsupportedSampleFormat)
                },
            },
    {
        let (role, config) = match (input, output) {
            (Some(config), _) => (CaptureRole::Input, config),
            (None, Some(config)) => (CaptureRole::Output, config),
            (None, None) => {
                return Err(DeviceError::Unsupported);
            },
        };
        if config.sample_format.is_capturable() {
            Ok(AudioManager { role, config })
        } else {
            Err(DeviceError::UnsupportedSampleFormat)
        }
    }

    /// What the resampler is asked for each block of this stream.
    pub fn resample_request(&self) -> (request: ResampleRequest)
        ensures
            request == (ResampleRequest {
                from_rate: self.config.sample_rate,
                to_rate: TARGET_SAMPLE_RATE,
                channels: self.config.channels,
                converter: Converter::SincBestQuality,
            }),
            request.converter.band_limited(),
    {
        audio_resample(self.config.sample_rate, TARGET_SAMPLE_RATE, self.config.channels)
    }
}

/// The interpolation a resampler works with.
#[derive(Clone, Copy, Debug, PartialEq, Eq, Structural)]
pub enum Converter {
    /// Band-limited sinc interpolation of the best quality.
    SincBestQuality,
    /// Band-limited sinc interpolation of medium quality.
    SincMediumQuality,
    /// The fastest band-limited sinc interpolation.
    SincFastest,
    /// Each sample is held until the next one comes.
    ZeroOrderHold,
    /// Straight lines between the samples.
    Linear,
}

impl Converter {
    /// The interpolation is band-limited: it neither drops nor repeats
    /// samples to change the rate.
    pub open spec fn band_limited(self) -> bool {
        self == Converter::SincBestQuality || self == Converter::SincMediumQuality || self
            == Converter::SincFastest
    }
}

/// One request to the resampler: a block of interleaved frames of `channels`
/// channels is to be brought from `from_rate` to `to_rate` with the given
/// interpolation.
#[derive(Clone, Copy, Debug, PartialEq, Eq, Structural)]
pub struct ResampleRequest {
    pub from_rate: u32,
    pub to_rate: u32,
    pub channels: u16,
    pub converter: Converter,
}

impl ResampleRequest {
    /// The resampler can take a block of `len` samples: the rate it comes at
    /// is not zero, and it consists of whole frames.
    pub open spec fn admits(self, len: int) -> bool {
        self.from_rate > 0 && self.channels > 0 && len % (self.channels as int) == 0
    }

    /// Whether the resampler can take a block of `len` samples.
    pub fn accepts(&self, len: usize) -> (ok: bool)
        ensures
            ok == self.admits(len as int),
    {
        self.from_rate > 0 && self.channels > 0 && len % (self.channels as usize) == 0
    }
}

/// The request that brings audio from `from_rate` to `sample_rate`.  It
/// asks for band-limited interpolation of the best quality, whatever the
/// rates: audio for the engine is never brought to its rate by dropping or
/// repeating samples.
pub fn audio_resample(from_rate: u32, sample_rate: u32, channels: u16) -> (request: ResampleRequest)
    ensures
        request == (ResampleRequest {
            from_rate,
            to_rate: sample_rate,
            channels,
            converter: Converter::SincBestQuality,
        }),
        request.converter.band_limited(),
{
    ResampleRequest { from_rate, to_rate: sample_rate, channels, converter: Converter::SincBestQuality }
}

/// What is still to be done with a block after resampling.
#[derive(Debug, PartialEq, Eq)]
pub enum Conditioned {
    /// The block is mono and goes to the buffer as it is.
    Ready(Vec<Sample>),
    /// The block holds interleaved channels and is to be averaged down to
    /// one channel first.
    Downmix(Vec<Sample>),
}

/// The samples a failed step leaves: none.
pub open spec fn or_empty(outcome: Option<Vec<Sample>>) -> Seq<Sample> {
    match outcome {
        Some(samples) => samples@,
        None => Seq::empty(),
    }
}

/// Takes the outcome of resampling a block (`None` if the resampler failed)
/// and says what is next.  A failed block counts as empty.  With one channel
/// there is nothing to mix: the block is ready exactly as the resampler
/// left it.
pub fn after_resample(outcome: Option<Vec<Sample>>, channels: u16) -> (next: Conditioned)
    ensures
        channels <= 1 ==> (next matches Conditioned::Ready(samples) && samples@ == or_empty(
            outcome,
        )),
        channels > 1 ==> (next matches Conditioned::Downmix(samples) && samples@ == or_empty(
            outcome,
        )),
        outcome matches Some(resampled) ==> next == if channels > 1 {
            Conditioned::Downmix(resampled)
        } else {
            Conditioned::Ready(resampled)
        },
{
    let samples = match outcome {
        Some(samples) => samples,
        None => Vec::new(),
    };
    if channels > 1 {
        Conditioned::Downmix(samples)
    } else {
        Conditioned::Ready(samples)
    }
}

/// Takes the outcome of mixing a block down (`None` if that failed).  A
/// failed block counts as empty.
pub fn after_downmix(outcome: Option<Vec<Sample>>) -> (samples: Vec<Sample>)
    ensures
        samples@ == or_empty(outcome),
        outcome matches Some(mixed) ==> samples == mixed,
{
    match outcome {
        Some(samples) => samples,
        None => Vec::new(),
    }
}

/// Appends a conditioned block to the shared buffer.  The block is left
/// empty.
pub fn write_input_data(buffer: &mut Vec<Sample>, block: &mut Vec<Sample>)
    ensures
        final(buffer)@ == old(buffer)@ + old(block)@,
        final(block)@ == Seq::<Sample>::empty(),
{
    buffer.append(block);
}

} // verus!
