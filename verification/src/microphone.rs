//! Choosing how to record, and what counts as a recording.

use crate::audio::FrequencyMode;
use vstd::prelude::*;
use vstd::string::*;

verus! {

/// Information about the selected audio input device.
#[derive(Debug, Clone)]
pub struct InputDeviceInfo {
    pub name: String,
    pub sample_rate: u32,
    pub channels: u16,
    pub sample_format: String,
}

/// The sample rates that an input configuration offers.
#[derive(Debug, Clone, Copy, PartialEq, Eq, Structural)]
pub struct RateRange {
    pub min: u32,
    pub max: u32,
}

/// A configuration, by its place in the list, and the rate to run it at.
#[derive(Debug, Clone, Copy, PartialEq, Eq, Structural)]
pub struct RateChoice {
    pub config: usize,
    pub rate: u32,
}

/// The range offers the rate.
pub open spec fn offers(range: RateRange, rate: u32) -> bool {
    range.min <= rate <= range.max
}

/// Some configuration offers the rate.
pub open spec fn offered(configs: Seq<RateRange>, rate: u32) -> bool {
    exists|i: int| 0 <= i < configs.len() && #[trigger] offers(configs[i], rate)
}

/// The choice is the first configuration that offers the rate.
pub open spec fn first_offer(configs: Seq<RateRange>, rate: u32, choice: RateChoice) -> bool {
    &&& choice.rate == rate
    &&& choice.config < configs.len()
    &&& offers(configs[choice.config as int], rate)
    &&& forall|i: int| 0 <= i < choice.config ==> !#[trigger] offers(configs[i], rate)
}

/// The choice is the first configuration with the highest rate, at that rate.
pub open spec fn first_highest(configs: Seq<RateRange>, choice: RateChoice) -> bool {
    &&& choice.config < configs.len()
    &&& choice.rate == configs[choice.config as int].max
    &&& forall|i: int|
        0 <= i < configs.len() ==> (#[trigger] configs[i]).max <= choice.rate && (i < choice.config
            ==> configs[i].max < choice.rate)
}

/// The choice for capture at a high rate: 96 kHz, else 48 kHz, else 44.1 kHz,
/// else the highest rate there is.
pub open spec fn high_rate(configs: Seq<RateRange>, choice: RateChoice) -> bool {
    if offered(configs, 96000) {
        first_offer(configs, 96000, choice)
    } else if offered(configs, 48000) {
        first_offer(configs, 48000, choice)
    } else if offered(configs, 44100) {
        first_offer(configs, 44100, choice)
    } else {
        first_highest(configs, choice)
    }
}

/// Finds the first configuration that offers a rate.
fn find_offer(configs: &Vec<RateRange>, rate: u32) -> (r: Option<RateChoice>)
    ensures
        r is Some <==> offered(configs@, rate),
        r matches Some(choice) ==> first_offer(configs@, rate, choice),
{
    let mut i: usize = 0;
    while i < configs.len()
        invariant
            i <= configs.len(),
            forall|j: int| 0 <= j < i ==> !#[trigger] offers(configs@[j], rate),
        decreases configs.len() - i,
    {
        if configs[i].min <= rate && rate <= configs[i].max {
            assert(offers(configs@[i as int], rate));
            return Some(RateChoice { config: i, rate });
        }
        i = i + 1;
    }
    None
}

/// Finds the first configuration with the highest rate.
fn find_highest(configs: &Vec<RateRange>) -> (r: Option<RateChoice>)
    ensures
        r is None <==> configs@.len() == 0,
        r matches Some(choice) ==> first_highest(configs@, choice),
{
    if configs.len() == 0 {
        return None;
    }
    let mut best: usize = 0;
    let mut i: usize = 1;
    while i < configs.len()
        invariant
            best < i <= configs.len(),
            forall|j: int|
                0 <= j < i ==> (#[trigger] configs@[j]).max <= configs@[best as int].max && (j < best
                    ==> configs@[j].max < configs@[best as int].max),
        decreases configs.len() - i,
    {
        if configs[i].max > configs[best].max {
            best = i;
        }
        i = i + 1;
    }
    Some(RateChoice { config: best, rate: configs[best].max })
}

/// Try to find an input config with a high sample rate (for ultrasonic capture).
/// There is none only where there are no configs.
pub fn find_high_rate_config(configs: &Vec<RateRange>) -> (r: Option<RateChoice>)
    ensures
        r is None <==> configs@.len() == 0,
        r matches Some(choice) ==> high_rate(configs@, choice),
{
    // Preferred rates in descending order
    if let Some(choice) = find_offer(configs, 96000) {
        return Some(choice);
    }
    if let Some(choice) = find_offer(configs, 48000) {
        return Some(choice);
    }
    if let Some(choice) = find_offer(configs, 44100) {
        return Some(choice);
    }
    // Fall back to the highest rate available
    find_highest(configs)
}

/// The configuration to record with in a mode; the default one where there is
/// no choice. Only the audible mode does without a high rate.
pub fn recording_config(mode: FrequencyMode, configs: &Vec<RateRange>) -> (r: Option<RateChoice>)
    ensures
        r is None <==> mode == FrequencyMode::Audible || configs@.len() == 0,
        r matches Some(choice) ==> high_rate(configs@, choice),
{
    match mode {
        FrequencyMode::Audible => None,
        _ => find_high_rate_config(configs),
    }
}

/// Whatever is chosen, the configuration exists and offers the rate.
pub proof fn law_chosen_rate_is_offered(configs: Seq<RateRange>, choice: RateChoice)
    requires
        high_rate(configs, choice),
        forall|i: int| 0 <= i < configs.len() ==> (#[trigger] configs[i]).min <= configs[i].max,
    ensures
        choice.config < configs.len(),
        offers(configs[choice.config as int], choice.rate),
{
}

/// What was recorded: the samples, unless the stream failed or gave none.
pub fn recorded<S>(stream_error: Option<String>, samples: Vec<S>) -> (r: Result<Vec<S>, String>)
    ensures
        match stream_error {
            Some(problem) => r matches Err(message) && message@ == "Audio stream error: "@
                + problem@,
            None => if samples@.len() == 0 {
                r matches Err(message) && message@
                    == "No audio samples were captured. Check that your microphone is working and permissions are granted."@
            } else {
                r == Ok::<Vec<S>, String>(samples)
            },
        },
{
    match stream_error {
        Some(problem) => {
            let mut message = "Audio stream error: ".to_owned();
            message.append(problem.as_str());
            Err(message)
        },
        None => {
            if samples.len() == 0 {
                Err(
                    "No audio samples were captured. Check that your microphone is working and permissions are granted.".to_owned(),
                )
            } else {
                Ok(samples)
            }
        },
    }
}

/// The highest of the preferred rates that any configuration offers is chosen,
/// or, where none offers one of them, the highest rate that there is.
pub proof fn law_highest_preferred_rate(configs: Seq<RateRange>, choice: RateChoice, i: int)
    requires
        high_rate(configs, choice),
        0 <= i < configs.len(),
    ensures
        choice.config < configs.len(),
        configs[i].min <= 96000 <= configs[i].max ==> choice.rate == 96000,
        configs[i].min <= 48000 <= configs[i].max ==> choice.rate == 96000 || choice.rate == 48000,
        configs[i].min <= 44100 <= configs[i].max ==> choice.rate == 96000 || choice.rate == 48000
            || choice.rate == 44100,
        choice.rate == 96000 || choice.rate == 48000 || choice.rate == 44100 || configs[i].max
            <= choice.rate,
        choice.rate <= configs[choice.config as int].max,
        configs[choice.config as int].min <= choice.rate || choice.rate
            == configs[choice.config as int].max,
        i < choice.config && (choice.rate == 96000 || choice.rate == 48000 || choice.rate == 44100)
            ==> !(configs[i].min <= choice.rate <= configs[i].max) || configs[i].max
            < choice.rate,
{
    assert(offers(configs[i], 96000) == (configs[i].min <= 96000 <= configs[i].max));
    assert(offers(configs[i], 48000) == (configs[i].min <= 48000 <= configs[i].max));
    assert(offers(configs[i], 44100) == (configs[i].min <= 44100 <= configs[i].max));
}

} // verus!
