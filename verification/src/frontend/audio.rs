//! The choice of a stream configuration for an audio device.  The device
//! reports the ranges it supports; the choice prefers 48 kHz in `f32`,
//! then `i16`, then `u16`, then `f32` at any rate, and otherwise takes the
//! first range at its highest rate.
use vstd::prelude::*;

verus! {

/// The sample rate the voice stream runs at.
pub const TARGET_SAMPLE_RATE: u32 = 48000;

/// The sample formats an audio device can offer.
#[derive(Debug, Clone, Copy, PartialEq, Eq, Structural)]
pub enum SampleFormat {
    I8,
    I16,
    I24,
    I32,
    I64,
    U8,
    U16,
    U24,
    U32,
    U64,
    F32,
    F64,
    DsdU8,
    DsdU16,
    DsdU32,
}

/// A range of stream configurations a device supports.
#[derive(Debug, Clone, Copy, PartialEq, Eq, Structural)]
pub struct StreamConfigRange {
    pub channels: u16,
    pub min_sample_rate: u32,
    pub max_sample_rate: u32,
    pub sample_format: SampleFormat,
}

/// A chosen stream configuration: sample rate, format and channel count.
#[derive(Debug, Clone, Copy, PartialEq, Eq, Structural)]
pub struct StreamChoice {
    pub sample_rate: u32,
    pub sample_format: SampleFormat,
    pub channels: u16,
}

/// Range `c` offers `format`, and `rate` when a rate is asked for.
pub open spec fn offers(c: StreamConfigRange, format: SampleFormat, rate: Option<u32>) -> bool {
    c.sample_format == format && match rate {
        Some(r) => c.min_sample_rate <= r && r <= c.max_sample_rate,
        None => true,
    }
}

/// The first range from position `i` on that offers `format` (and `rate`).
pub open spec fn first_offering(
    cs: Seq<StreamConfigRange>,
    format: SampleFormat,
    rate: Option<u32>,
    i: int,
) -> Option<int>
    decreases cs.len() - i,
{
    if i < 0 || i >= cs.len() {
        None
    } else if offers(cs[i], format, rate) {
        Some(i)
    } else {
        first_offering(cs, format, rate, i + 1)
    }
}

/// What a range found for a preference gives: the preferred rate, or the
/// range's highest rate where any rate will do.
pub open spec fn choice_from(c: StreamConfigRange, format: SampleFormat, rate: Option<u32>) -> StreamChoice {
    StreamChoice {
        sample_rate: match rate {
            Some(r) => r,
            None => c.max_sample_rate,
        },
        sample_format: format,
        channels: c.channels,
    }
}

/// The best configuration among `cs`, which is not empty.
pub open spec fn best_config(cs: Seq<StreamConfigRange>) -> StreamChoice {
    let target = Some(TARGET_SAMPLE_RATE);
    if first_offering(cs, SampleFormat::F32, target, 0) is Some {
        choice_from(cs[first_offering(cs, SampleFormat::F32, target, 0)->0], SampleFormat::F32, target)
    } else if first_offering(cs, SampleFormat::I16, target, 0) is Some {
        choice_from(cs[first_offering(cs, SampleFormat::I16, target, 0)->0], SampleFormat::I16, target)
    } else if first_offering(cs, SampleFormat::U16, target, 0) is Some {
        choice_from(cs[first_offering(cs, SampleFormat::U16, target, 0)->0], SampleFormat::U16, target)
    } else if first_offering(cs, SampleFormat::F32, None, 0) is Some {
        choice_from(cs[first_offering(cs, SampleFormat::F32, None, 0)->0], SampleFormat::F32, None)
    } else {
        StreamChoice {
            sample_rate: cs[0].max_sample_rate,
            sample_format: cs[0].sample_format,
            channels: cs[0].channels,
        }
    }
}

/// The first range that offers `format` (and `rate`).
fn find_offering(configs: &Vec<StreamConfigRange>, format: SampleFormat, rate: Option<u32>) -> (r:
    Option<usize>)
    ensures
        match r {
            Some(i) => first_offering(configs@, format, rate, 0) == Some(i as int) && i
                < configs@.len(),
            None => first_offering(configs@, format, rate, 0) is None,
        },
{
    let mut i: usize = configs.len();
    let mut found: Option<usize> = None;
    while i > 0
        invariant
            i <= configs@.len(),
            match found {
                Some(j) => first_offering(configs@, format, rate, i as int) == Some(j as int),
                None => first_offering(configs@, format, rate, i as int) is None,
            },
        decreases i,
    {
        i = i - 1;
        let c = configs[i];
        let fits = c.sample_format == format && match rate {
            Some(r) => c.min_sample_rate <= r && r <= c.max_sample_rate,
            None => true,
        };
        if fits {
            found = Some(i);
        }
    }
    proof {
        if let Some(j) = found {
            lemma_first_offering_in_range(configs@, format, rate, 0);
        }
    }
    found
}

/// A first offering lies within the ranges and offers what was asked.
proof fn lemma_first_offering_in_range(
    cs: Seq<StreamConfigRange>,
    format: SampleFormat,
    rate: Option<u32>,
    k: int,
)
    ensures
        first_offering(cs, format, rate, k) matches Some(i) ==> k <= i < cs.len() && offers(
            cs[i],
            format,
            rate,
        ),
    decreases cs.len() - k,
{
    if 0 <= k < cs.len() && !offers(cs[k], format, rate) {
        lemma_first_offering_in_range(cs, format, rate, k + 1);
    }
}

/// The best stream configuration among those a device supports, or the
/// error of a device that supports none.
pub fn find_best_stream_config(configs: &Vec<StreamConfigRange>) -> (r: Result<StreamChoice, String>)
    ensures
        configs@.len() == 0 ==> (r matches Err(e) && e@ == "No configurations found"@),
        configs@.len() > 0 ==> r == Ok::<StreamChoice, String>(best_config(configs@)),
{
    if configs.len() == 0 {
        proof {
            reveal_strlit("No configurations found");
        }
        return Err("No configurations found".to_owned());
    }
    let target = Some(TARGET_SAMPLE_RATE);
    match find_offering(configs, SampleFormat::F32, target) {
        Some(i) => {
            return Ok(
                StreamChoice {
                    sample_rate: TARGET_SAMPLE_RATE,
                    sample_format: SampleFormat::F32,
                    channels: configs[i].channels,
                },
            );
        },
        None => {},
    }
    match find_offering(configs, SampleFormat::I16, target) {
        Some(i) => {
            return Ok(
                StreamChoice {
                    sample_rate: TARGET_SAMPLE_RATE,
                    sample_format: SampleFormat::I16,
                    channels: configs[i].channels,
                },
            );
        },
        None => {},
    }
    match find_offering(configs, SampleFormat::U16, target) {
        Some(i) => {
            return Ok(
                StreamChoice {
                    sample_rate: TARGET_SAMPLE_RATE,
                    sample_format: SampleFormat::U16,
                    channels: configs[i].channels,
                },
            );
        },
        None => {},
    }
    match find_offering(configs, SampleFormat::F32, None) {
        Some(i) => {
            return Ok(
                StreamChoice {
                    sample_rate: configs[i].max_sample_rate,
                    sample_format: SampleFormat::F32,
                    channels: configs[i].channels,
                },
            );
        },
        None => {},
    }
    let first = configs[0];
    Ok(
        StreamChoice {
            sample_rate: first.max_sample_rate,
            sample_format: first.sample_format,
            channels: first.channels,
        },
    )
}

/// A range offering `f32` at 48 kHz is always the one chosen, the first
/// such range when there are several.
pub proof fn lemma_f32_at_target_preferred(cs: Seq<StreamConfigRange>, i: int)
    requires
        0 <= i < cs.len(),
        offers(cs[i], SampleFormat::F32, Some(TARGET_SAMPLE_RATE)),
        forall|j: int| 0 <= j < i ==> !offers(#[trigger] cs[j], SampleFormat::F32, Some(TARGET_SAMPLE_RATE)),
    ensures
        best_config(cs) == (StreamChoice {
            sample_rate: TARGET_SAMPLE_RATE,
            sample_format: SampleFormat::F32,
            channels: cs[i].channels,
        }),
    decreases i,
{
    lemma_first_offering_at(cs, SampleFormat::F32, Some(TARGET_SAMPLE_RATE), 0, i);
}

/// What the search for an offering range finds: a range from `k` on that
/// offers, or, when it finds none, that no range from `k` on offers.
proof fn lemma_first_offering_found(
    cs: Seq<StreamConfigRange>,
    format: SampleFormat,
    rate: Option<u32>,
    k: int,
)
    requires
        0 <= k,
    ensures
        first_offering(cs, format, rate, k) matches Some(i) ==> k <= i < cs.len() && offers(
            cs[i],
            format,
            rate,
        ),
        first_offering(cs, format, rate, k) is None ==> forall|j: int|
            k <= j < cs.len() ==> !offers(#[trigger] cs[j], format, rate),
    decreases cs.len() - k,
{
    if k < cs.len() && !offers(cs[k], format, rate) {
        lemma_first_offering_found(cs, format, rate, k + 1);
    }
}

/// Range `c` runs at 48 kHz in `format`.
pub open spec fn runs_at_target(c: StreamConfigRange, format: SampleFormat) -> bool {
    c.sample_format == format && c.min_sample_rate <= 48000 && 48000 <= c.max_sample_rate
}

/// A device that can run at 48 kHz in `f32`, `i16` or `u16` always runs at
/// 48 kHz: the choice never leaves the voice rate for a format at another
/// rate, and its format is one of those three.
pub proof fn lemma_target_rate_kept(cs: Seq<StreamConfigRange>, i: int)
    requires
        0 <= i < cs.len(),
        runs_at_target(cs[i], SampleFormat::F32) || runs_at_target(cs[i], SampleFormat::I16)
            || runs_at_target(cs[i], SampleFormat::U16),
    ensures
        best_config(cs).sample_rate == 48000,
        best_config(cs).sample_format == SampleFormat::F32 || best_config(cs).sample_format
            == SampleFormat::I16 || best_config(cs).sample_format == SampleFormat::U16,
{
    let t = Some(TARGET_SAMPLE_RATE);
    lemma_first_offering_found(cs, SampleFormat::F32, t, 0);
    lemma_first_offering_found(cs, SampleFormat::I16, t, 0);
    lemma_first_offering_found(cs, SampleFormat::U16, t, 0);
    assert(offers(cs[i], SampleFormat::F32, t) || offers(cs[i], SampleFormat::I16, t) || offers(
        cs[i],
        SampleFormat::U16,
        t,
    ));
}

/// With no range at 48 kHz in `f32`, the first range at 48 kHz in `i16` is
/// chosen, at 48 kHz in `i16` with its channels.
pub proof fn lemma_i16_at_target_next(cs: Seq<StreamConfigRange>, i: int)
    requires
        0 <= i < cs.len(),
        runs_at_target(cs[i], SampleFormat::I16),
        forall|j: int| 0 <= j < i ==> !runs_at_target(#[trigger] cs[j], SampleFormat::I16),
        forall|j: int| 0 <= j < cs.len() ==> !runs_at_target(#[trigger] cs[j], SampleFormat::F32),
    ensures
        best_config(cs) == (StreamChoice {
            sample_rate: 48000,
            sample_format: SampleFormat::I16,
            channels: cs[i].channels,
        }),
{
    let t = Some(TARGET_SAMPLE_RATE);
    lemma_first_offering_found(cs, SampleFormat::F32, t, 0);
    assert forall|j: int| 0 <= j < i implies !offers(#[trigger] cs[j], SampleFormat::I16, t) by {
        assert(!runs_at_target(cs[j], SampleFormat::I16));
    }
    lemma_first_offering_at(cs, SampleFormat::I16, t, 0, i);
    if first_offering(cs, SampleFormat::F32, t, 0) is Some {
        let k = first_offering(cs, SampleFormat::F32, t, 0)->0;
        assert(!runs_at_target(cs[k], SampleFormat::F32));
    }
}

/// With no range at 48 kHz in `f32` or `i16`, the first range at 48 kHz in
/// `u16` is chosen, at 48 kHz in `u16` with its channels, ahead of any
/// `f32` range at another rate.
pub proof fn lemma_u16_at_target_next(cs: Seq<StreamConfigRange>, i: int)
    requires
        0 <= i < cs.len(),
        runs_at_target(cs[i], SampleFormat::U16),
        forall|j: int| 0 <= j < i ==> !runs_at_target(#[trigger] cs[j], SampleFormat::U16),
        forall|j: int|
            0 <= j < cs.len() ==> !runs_at_target(#[trigger] cs[j], SampleFormat::F32)
                && !runs_at_target(cs[j], SampleFormat::I16),
    ensures
        best_config(cs) == (StreamChoice {
            sample_rate: 48000,
            sample_format: SampleFormat::U16,
            channels: cs[i].channels,
        }),
{
    let t = Some(TARGET_SAMPLE_RATE);
    lemma_first_offering_found(cs, SampleFormat::F32, t, 0);
    lemma_first_offering_found(cs, SampleFormat::I16, t, 0);
    assert forall|j: int| 0 <= j < i implies !offers(#[trigger] cs[j], SampleFormat::U16, t) by {
        assert(!runs_at_target(cs[j], SampleFormat::U16));
    }
    lemma_first_offering_at(cs, SampleFormat::U16, t, 0, i);
    if first_offering(cs, SampleFormat::F32, t, 0) is Some {
        let k = first_offering(cs, SampleFormat::F32, t, 0)->0;
        assert(!runs_at_target(cs[k], SampleFormat::F32));
    }
    if first_offering(cs, SampleFormat::I16, t, 0) is Some {
        let k = first_offering(cs, SampleFormat::I16, t, 0)->0;
        assert(!runs_at_target(cs[k], SampleFormat::I16));
    }
}

/// The first offering from `k` on is `i` when `i` offers and nothing
/// between `k` and `i` does.
proof fn lemma_first_offering_at(
    cs: Seq<StreamConfigRange>,
    format: SampleFormat,
    rate: Option<u32>,
    k: int,
    i: int,
)
    requires
        0 <= k <= i < cs.len(),
        offers(cs[i], format, rate),
        forall|j: int| k <= j < i ==> !offers(#[trigger] cs[j], format, rate),
    ensures
        first_offering(cs, format, rate, k) == Some(i),
    decreases i - k,
{
    if k < i {
        lemma_first_offering_at(cs, format, rate, k + 1, i);
    }
}

} // verus!
