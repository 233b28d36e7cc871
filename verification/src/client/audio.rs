//! The console client's choice of audio stream configuration: a device is
//! usable when one of its ranges reaches 48 kHz, and its stream runs at
//! 48 kHz in `f32` when a range offers that, else in the format of the
//! first range that reaches 48 kHz.
use crate::frontend::audio::{
    first_offering,
    SampleFormat,
    StreamChoice,
    StreamConfigRange,
    TARGET_SAMPLE_RATE,
};
use vstd::prelude::*;

verus! {

/// Range `c` reaches the rate `rate`.
pub open spec fn reaches(c: StreamConfigRange, rate: u32) -> bool {
    c.min_sample_rate <= rate && rate <= c.max_sample_rate
}

/// Some range reaches 48 kHz.
pub open spec fn any_reaches_target(cs: Seq<StreamConfigRange>) -> bool {
    exists|i: int| 0 <= i < cs.len() && reaches(cs[i], TARGET_SAMPLE_RATE)
}

/// The first range from position `i` on that reaches 48 kHz.
pub open spec fn first_reaching(cs: Seq<StreamConfigRange>, i: int) -> Option<int>
    decreases cs.len() - i,
{
    if i < 0 || i >= cs.len() {
        None
    } else if reaches(cs[i], TARGET_SAMPLE_RATE) {
        Some(i)
    } else {
        first_reaching(cs, i + 1)
    }
}

/// The stream configuration of a device with these ranges, or `None` when
/// no range reaches 48 kHz.
pub open spec fn target_config(cs: Seq<StreamConfigRange>) -> Option<StreamChoice> {
    let target = Some(TARGET_SAMPLE_RATE);
    if first_offering(cs, SampleFormat::F32, target, 0) is Some {
        Some(
            StreamChoice {
                sample_rate: TARGET_SAMPLE_RATE,
                sample_format: SampleFormat::F32,
                channels: cs[first_offering(cs, SampleFormat::F32, target, 0)->0].channels,
            },
        )
    } else if first_reaching(cs, 0) is Some {
        let c = cs[first_reaching(cs, 0)->0];
        Some(
            StreamChoice {
                sample_rate: TARGET_SAMPLE_RATE,
                sample_format: c.sample_format,
                channels: c.channels,
            },
        )
    } else {
        None
    }
}

/// The error text of a device none of whose ranges reaches 48 kHz.
pub open spec fn unsupported_rate_text() -> Seq<char> {
    "Device does not support 48000 Hz sample rate"@
}

/// The error text of a device without a configuration at 48 kHz.
pub open spec fn no_target_config_text() -> Seq<char> {
    "Device does not support 48kHz sample rate"@
}

/// The first range that reaches 48 kHz, if any.
fn find_reaching(configs: &Vec<StreamConfigRange>) -> (r: Option<usize>)
    ensures
        match r {
            Some(i) => first_reaching(configs@, 0) == Some(i as int) && i < configs@.len(),
            None => first_reaching(configs@, 0) is None,
        },
{
    let mut i: usize = configs.len();
    let mut found: Option<usize> = None;
    while i > 0
        invariant
            i <= configs@.len(),
            match found {
                Some(j) => first_reaching(configs@, i as int) == Some(j as int) && j < configs@.len(),
                None => first_reaching(configs@, i as int) is None,
            },
        decreases i,
    {
        i = i - 1;
        let c = configs[i];
        if c.min_sample_rate <= TARGET_SAMPLE_RATE && TARGET_SAMPLE_RATE <= c.max_sample_rate {
            found = Some(i);
        }
    }
    found
}

/// A first range reaching 48 kHz reaches it, and its absence means no
/// range does.
proof fn lemma_first_reaching(cs: Seq<StreamConfigRange>, k: int)
    requires
        0 <= k,
    ensures
        first_reaching(cs, k) matches Some(i) ==> k <= i < cs.len() && reaches(
            cs[i],
            TARGET_SAMPLE_RATE,
        ),
        first_reaching(cs, k) is None ==> forall|j: int|
            k <= j < cs.len() ==> !reaches(#[trigger] cs[j], TARGET_SAMPLE_RATE),
    decreases cs.len() - k,
{
    if k < cs.len() && !reaches(cs[k], TARGET_SAMPLE_RATE) {
        lemma_first_reaching(cs, k + 1);
    }
}

/// Whether a device with these ranges can run at 48 kHz; the error of one
/// that cannot.
pub fn check_device_rate(configs: &Vec<StreamConfigRange>) -> (r: Result<(), String>)
    ensures
        any_reaches_target(configs@) ==> r is Ok,
        !any_reaches_target(configs@) ==> (r matches Err(e) && e@ == unsupported_rate_text()),
{
    proof {
        lemma_first_reaching(configs@, 0);
    }
    match find_reaching(configs) {
        Some(_) => Ok(()),
        None => {
            proof {
                reveal_strlit("Device does not support 48000 Hz sample rate");
            }
            Err("Device does not support 48000 Hz sample rate".to_owned())
        },
    }
}

/// The stream configuration of a device with these ranges, or the error of
/// one without a range at 48 kHz.
pub fn stream_config_at_target(configs: &Vec<StreamConfigRange>) -> (r: Result<StreamChoice, String>)
    ensures
        match target_config(configs@) {
            Some(c) => r == Ok::<StreamChoice, String>(c),
            None => r matches Err(e) && e@ == no_target_config_text(),
        },
{
    let mut i: usize = configs.len();
    let mut found: Option<usize> = None;
    while i > 0
        invariant
            i <= configs@.len(),
            match found {
                Some(j) => first_offering(
                    configs@,
                    SampleFormat::F32,
                    Some(TARGET_SAMPLE_RATE),
                    i as int,
                ) == Some(j as int) && j < configs@.len(),
                None => first_offering(configs@, SampleFormat::F32, Some(TARGET_SAMPLE_RATE), i as int)
                    is None,
            },
        decreases i,
    {
        i = i - 1;
        let c = configs[i];
        if c.sample_format == SampleFormat::F32 && c.min_sample_rate <= TARGET_SAMPLE_RATE
            && TARGET_SAMPLE_RATE <= c.max_sample_rate {
            found = Some(i);
        }
    }
    match found {
        Some(j) => {
            return Ok(
                StreamChoice {
                    sample_rate: TARGET_SAMPLE_RATE,
                    sample_format: SampleFormat::F32,
                    channels: configs[j].channels,
                },
            );
        },
        None => {},
    }
    match find_reaching(configs) {
        Some(j) => Ok(
            StreamChoice {
                sample_rate: TARGET_SAMPLE_RATE,
                sample_format: configs[j].sample_format,
                channels: configs[j].channels,
            },
        ),
        None => {
            proof {
                reveal_strlit("Device does not support 48kHz sample rate");
            }
            Err("Device does not support 48kHz sample rate".to_owned())
        },
    }
}

/// A device whose ranges pass the 48 kHz check always gets a stream
/// configuration, at 48 kHz.
pub proof fn lemma_checked_device_has_config(cs: Seq<StreamConfigRange>)
    requires
        any_reaches_target(cs),
    ensures
        target_config(cs) matches Some(c) && c.sample_rate == TARGET_SAMPLE_RATE,
{
    lemma_first_reaching(cs, 0);
}

} // verus!
