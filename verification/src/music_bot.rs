//! The music bot's own rules: which WAV files it streams (48000 Hz, mono,
//! 16-bit), and how it cuts their samples into 20 ms voice frames sent 20 ms
//! apart.  Reading the file and sending the frames are the front end's.
use vstd::prelude::*;

verus! {

/// The sample rate a streamed file must have.
pub const BOT_SAMPLE_RATE: u32 = 48000;

/// Samples per frame: 20 ms at 48 kHz.
pub const BOT_FRAME_SIZE: usize = 960;

/// Milliseconds between the send times of two frames.
pub const BOT_FRAME_DURATION_MS: u64 = 20;

/// Why a WAV file cannot be streamed; each carries the value found.
#[derive(Debug, Clone, Copy, PartialEq, Eq, Structural)]
pub enum WavSpecError {
    InvalidSampleRate(u32),
    NotMono(u16),
    InvalidBitDepth(u16),
}

impl WavSpecError {
    /// The error's text.
    pub fn message(&self) -> (m: &'static str)
        ensures
            *self is InvalidSampleRate ==> m@ == "Invalid sample rate"@,
            *self is NotMono ==> m@ == "Not mono audio"@,
            *self is InvalidBitDepth ==> m@ == "Invalid bit depth"@,
    {
        match self {
            WavSpecError::InvalidSampleRate(_) => "Invalid sample rate",
            WavSpecError::NotMono(_) => "Not mono audio",
            WavSpecError::InvalidBitDepth(_) => "Invalid bit depth",
        }
    }
}

/// A file of this format can be streamed, or the first of its rate, channel
/// count and bit depth that is wrong is reported, in that order.
pub fn check_wav_spec(rate: u32, channels: u16, bits: u16) -> (r: Result<(), WavSpecError>)
    ensures
        rate != BOT_SAMPLE_RATE ==> r == Err::<(), WavSpecError>(WavSpecError::InvalidSampleRate(rate)),
        rate == BOT_SAMPLE_RATE && channels != 1 ==> r == Err::<(), WavSpecError>(
            WavSpecError::NotMono(channels),
        ),
        rate == BOT_SAMPLE_RATE && channels == 1 && bits != 16 ==> r == Err::<(), WavSpecError>(
            WavSpecError::InvalidBitDepth(bits),
        ),
        rate == BOT_SAMPLE_RATE && channels == 1 && bits == 16 ==> r is Ok,
{
    if rate != BOT_SAMPLE_RATE {
        Err(WavSpecError::InvalidSampleRate(rate))
    } else if channels != 1 {
        Err(WavSpecError::NotMono(channels))
    } else if bits != 16 {
        Err(WavSpecError::InvalidBitDepth(bits))
    } else {
        Ok(())
    }
}

/// The `i`-th frame of `n` samples: the samples from `960 * i` up to the next
/// 960 or the end, sent `20 * i` ms after the first.
pub open spec fn frame_at(n: int, i: int) -> (usize, usize, u64) {
    let start = BOT_FRAME_SIZE * i;
    let end = if start + BOT_FRAME_SIZE <= n {
        start + BOT_FRAME_SIZE
    } else {
        n
    };
    (start as usize, end as usize, (BOT_FRAME_DURATION_MS * i) as u64)
}

/// The frames of `n` samples, in order: each is the first and end sample
/// positions and the send time in ms after the start of the stream.  Every
/// frame starts before the end, there is one for each 960 samples begun, and
/// the last ends at the last sample.
pub fn frame_plan(n: usize) -> (plan: Vec<(usize, usize, u64)>)
    ensures
        forall|i: int|
            0 <= i < plan.len() ==> #[trigger] plan[i] == frame_at(n as int, i) && BOT_FRAME_SIZE * i
                < n,
        BOT_FRAME_SIZE * plan.len() >= n,
{
    let mut plan: Vec<(usize, usize, u64)> = Vec::new();
    let mut start: usize = 0;
    let mut idx: u64 = 0;
    while start < n
        invariant
            start <= n,
            plan.len() == idx,
            start == if BOT_FRAME_SIZE * idx <= n {
                BOT_FRAME_SIZE * idx
            } else {
                n as int
            },
            BOT_FRAME_SIZE * idx < n + BOT_FRAME_SIZE,
            forall|i: int|
                0 <= i < plan.len() ==> #[trigger] plan[i] == frame_at(n as int, i) && BOT_FRAME_SIZE
                    * i < n,
        decreases n - start,
    {
        let end: usize = if n - start >= BOT_FRAME_SIZE {
            start + BOT_FRAME_SIZE
        } else {
            n
        };
        plan.push((start, end, BOT_FRAME_DURATION_MS * idx));
        start = end;
        idx = idx + 1;
    }
    plan
}

} // verus!
