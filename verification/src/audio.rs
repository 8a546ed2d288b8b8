//! Frequency modes: sample rates, band limits and names.

use crate::text::same_text;
use vstd::prelude::*;

verus! {

/// Default target sample rate for normal (audible) fingerprinting.
pub const TARGET_SAMPLE_RATE: u32 = 16000;

/// Target sample rate for ultrasonic mode (captures up to ~48 kHz).
pub const ULTRASONIC_SAMPLE_RATE: u32 = 96000;

/// Frequency modes for different use cases.
#[derive(Debug, Clone, Copy, PartialEq, Eq, Structural)]
pub enum FrequencyMode {
    /// Standard audible range: 20 Hz to 8 kHz (16 kHz sample rate).
    Audible,
    /// Ultrasonic range: 18 kHz to 48 kHz (96 kHz sample rate).
    /// Filters out audible frequencies so only inaudible content is fingerprinted.
    Ultrasonic,
    /// Full spectrum: preserves everything the source provides (up to 48 kHz at 96 kHz rate).
    /// Useful when you want to fingerprint both audible and ultrasonic content.
    Full,
}

/// A filter stage, with its cutoff in Hz.
#[derive(Debug, Clone, Copy, PartialEq, Eq, Structural)]
pub enum FilterStage {
    /// Removes what lies below the cutoff.
    HighPass(u32),
    /// Removes what lies above the cutoff.
    LowPass(u32),
}

impl FrequencyMode {
    /// The sample rate of a mode.
    pub open spec fn rate(self) -> u32 {
        match self {
            FrequencyMode::Audible => TARGET_SAMPLE_RATE,
            FrequencyMode::Ultrasonic => ULTRASONIC_SAMPLE_RATE,
            FrequencyMode::Full => ULTRASONIC_SAMPLE_RATE,
        }
    }

    /// The identifier of a mode.
    pub open spec fn name(self) -> Seq<char> {
        match self {
            FrequencyMode::Audible => "audible"@,
            FrequencyMode::Ultrasonic => "ultrasonic"@,
            FrequencyMode::Full => "full"@,
        }
    }

    /// The sample rate to use for this mode.
    pub fn sample_rate(&self) -> (r: u32)
        ensures
            r == self.rate(),
    {
        match self {
            FrequencyMode::Audible => TARGET_SAMPLE_RATE,
            FrequencyMode::Ultrasonic => ULTRASONIC_SAMPLE_RATE,
            FrequencyMode::Full => ULTRASONIC_SAMPLE_RATE,
        }
    }

    /// High-pass cutoff in Hz (signals below this are filtered out).
    /// Returns `None` if no high-pass is needed.
    pub fn highpass_cutoff(&self) -> (r: Option<u32>)
        ensures
            r == (if *self == FrequencyMode::Ultrasonic {
                Some(18000u32)
            } else {
                None
            }),
    {
        match self {
            FrequencyMode::Ultrasonic => Some(18000),
            _ => None,
        }
    }

    /// Low-pass cutoff in Hz (signals above this are filtered out).
    /// Returns `None` if no low-pass is needed.
    pub fn lowpass_cutoff(&self) -> (r: Option<u32>)
        ensures
            r == (if *self == FrequencyMode::Audible {
                Some(8000u32)
            } else {
                None
            }),
    {
        match self {
            FrequencyMode::Audible => Some(8000),
            _ => None,
        }
    }

    /// Human-readable description.
    pub fn description(&self) -> (r: &'static str)
        ensures
            r@ == (match self {
                FrequencyMode::Audible => "audible (20 Hz – 8 kHz)"@,
                FrequencyMode::Ultrasonic => "ultrasonic (18 kHz – 48 kHz)"@,
                FrequencyMode::Full => "full spectrum (20 Hz – 48 kHz)"@,
            }),
    {
        match self {
            FrequencyMode::Audible => "audible (20 Hz – 8 kHz)",
            FrequencyMode::Ultrasonic => "ultrasonic (18 kHz – 48 kHz)",
            FrequencyMode::Full => "full spectrum (20 Hz – 48 kHz)",
        }
    }

    /// Short string identifier for database storage.
    pub fn as_str(&self) -> (r: &'static str)
        ensures
            r@ == self.name(),
    {
        match self {
            FrequencyMode::Audible => "audible",
            FrequencyMode::Ultrasonic => "ultrasonic",
            FrequencyMode::Full => "full",
        }
    }

    /// The mode that an identifier names.
    pub open spec fn named(s: Seq<char>) -> Option<FrequencyMode> {
        if s == "audible"@ {
            Some(FrequencyMode::Audible)
        } else if s == "ultrasonic"@ {
            Some(FrequencyMode::Ultrasonic)
        } else if s == "full"@ {
            Some(FrequencyMode::Full)
        } else {
            None
        }
    }

    /// Parse from a stored string. Returns `None` for unknown values.
    pub fn parse(s: &str) -> (r: Option<FrequencyMode>)
        ensures
            r == FrequencyMode::named(s@),
    {
        if same_text(s, "audible") {
            Some(FrequencyMode::Audible)
        } else if same_text(s, "ultrasonic") {
            Some(FrequencyMode::Ultrasonic)
        } else if same_text(s, "full") {
            Some(FrequencyMode::Full)
        } else {
            None
        }
    }

    /// A mode's identifier is parsed as that mode, and nothing else is.
    pub proof fn law_name_is_parsed_back(s: Seq<char>, mode: FrequencyMode)
        ensures
            FrequencyMode::named(s) == Some(mode) <==> s == mode.name(),
    {
        reveal_strlit("audible");
        reveal_strlit("ultrasonic");
        reveal_strlit("full");
        assert("audible"@.len() != "ultrasonic"@.len());
        assert("audible"@.len() != "full"@.len());
        assert("ultrasonic"@.len() != "full"@.len());
    }

    /// The modes go by the names "audible", "ultrasonic" and "full", and no
    /// other text names one.
    pub proof fn law_what_the_modes_are_called(s: Seq<char>)
        ensures
            FrequencyMode::named(s) == Some(FrequencyMode::Audible) <==> s == "audible"@,
            FrequencyMode::named(s) == Some(FrequencyMode::Ultrasonic) <==> s == "ultrasonic"@,
            FrequencyMode::named(s) == Some(FrequencyMode::Full) <==> s == "full"@,
    {
        FrequencyMode::law_name_is_parsed_back(s, FrequencyMode::Audible);
        FrequencyMode::law_name_is_parsed_back(s, FrequencyMode::Ultrasonic);
        FrequencyMode::law_name_is_parsed_back(s, FrequencyMode::Full);
    }

    /// A mode's rate holds all that its filters let through: twice the highest
    /// frequency, which is 8 kHz in audible mode and 48 kHz in the others.
    pub proof fn law_rate_holds_the_band(self)
        ensures
            self.rate() == 2 * (if self is Audible {
                8000int
            } else {
                48000
            }),
            forall|i: int|
                0 <= i < self.stages().len() ==> match #[trigger] self.stages()[i] {
                    FilterStage::HighPass(cutoff) => self is Ultrasonic && cutoff == 18000,
                    FilterStage::LowPass(cutoff) => self is Audible && cutoff == 8000,
                },
            self.stages().len() == (if self is Full {
                0int
            } else {
                2
            }),
    {
    }

    /// The filter stages of a mode, in order. Each filter is applied twice for
    /// a steeper rolloff.
    pub open spec fn stages(self) -> Seq<FilterStage> {
        match self {
            FrequencyMode::Audible => seq![FilterStage::LowPass(8000), FilterStage::LowPass(8000)],
            FrequencyMode::Ultrasonic => seq![
                FilterStage::HighPass(18000),
                FilterStage::HighPass(18000),
            ],
            FrequencyMode::Full => Seq::empty(),
        }
    }

    /// The filter stages to apply to a signal in this mode, in order.
    pub fn filter_stages(&self) -> (r: Vec<FilterStage>)
        ensures
            r@ == self.stages(),
    {
        let mut stages: Vec<FilterStage> = Vec::new();
        if let Some(cutoff) = self.highpass_cutoff() {
            stages.push(FilterStage::HighPass(cutoff));
            // Apply twice for steeper rolloff (4th-order)
            stages.push(FilterStage::HighPass(cutoff));
        }
        if let Some(cutoff) = self.lowpass_cutoff() {
            stages.push(FilterStage::LowPass(cutoff));
            stages.push(FilterStage::LowPass(cutoff));
        }
        assert(stages@ =~= self.stages());
        stages
    }
}

} // verus!
