//! The visualiser's zone API: what its requests are answered.

use crate::capture::ZoneState;
use crate::database::{MatchResult, ZoneInfo};
use crate::fingerprint::Fingerprint;
use crate::ieee::{F32Bits, F64Bits};
use crate::signature::Signature;
use crate::text::trim;
use vstd::prelude::*;
use vstd::string::*;

verus! {

/// Most results of the search behind a one-shot detection.
pub const ONCE_RESULTS: usize = 5;

/// Most results of the search behind a continuous detection.
pub const CONTINUOUS_RESULTS: usize = 10;

/// A zone that audio matched.
#[derive(Debug)]
pub struct ZoneMatch {
    pub zone: String,
    pub confidence: F64Bits,
    pub match_count: usize,
}

/// An answer of the zone API.
#[derive(Debug)]
pub enum ApiReply {
    /// Audio is being captured.
    Capturing,
    /// No more audio is captured; so many samples were.
    CaptureStopped { samples: usize },
    /// A zone needs a name.
    NameRequired,
    /// There is nothing to save.
    NothingCaptured,
    /// What was captured gives no fingerprints.
    NoFingerprints,
    /// The zone was saved.
    Saved {
        zone: String,
        fingerprints: usize,
        signature_dim: usize,
        duration_secs: F32Bits,
        track_id: i64,
    },
    /// All zones.
    Zones(Vec<ZoneInfo>),
    /// The zone was deleted.
    Deleted { zone: String },
    /// There is no such zone.
    ZoneNotFound { message: String },
    /// Zones are being detected.
    Detecting,
    /// No more zones are detected.
    DetectionStopped,
    /// A zone was detected.
    Detected(ZoneMatch),
    /// No zone was detected, for the reason given.
    NotDetected { message: String },
}

impl ApiReply {
    /// The error that the answer reports, if any.
    pub open spec fn problem(self) -> Option<Seq<char>> {
        match self {
            ApiReply::NameRequired => Some("name is required"@),
            ApiReply::NothingCaptured => Some("No audio captured. Start capture first."@),
            ApiReply::NoFingerprints => Some(
                "No fingerprints could be extracted from the captured audio"@,
            ),
            ApiReply::ZoneNotFound { message } => Some(message@),
            _ => None,
        }
    }

    /// The error that the answer reports, if any.
    pub fn error(&self) -> (r: Option<&str>)
        ensures
            r is Some <==> self.problem() is Some,
            r matches Some(text) ==> Some(text@) == self.problem(),
    {
        match self {
            ApiReply::NameRequired => Some("name is required"),
            ApiReply::NothingCaptured => Some("No audio captured. Start capture first."),
            ApiReply::NoFingerprints => Some(
                "No fingerprints could be extracted from the captured audio",
            ),
            ApiReply::ZoneNotFound { message } => Some(message.as_str()),
            _ => None,
        }
    }

    /// The HTTP status of the answer: 404 for a zone that does not exist, 400
    /// for any other error.
    pub fn status(&self) -> (r: u16)
        ensures
            r == (if *self is ZoneNotFound {
                404u16
            } else if self.problem() is Some {
                400
            } else {
                200
            }),
    {
        match self {
            ApiReply::NameRequired => 400,
            ApiReply::NothingCaptured => 400,
            ApiReply::NoFingerprints => 400,
            ApiReply::ZoneNotFound { .. } => 404,
            _ => 200,
        }
    }
}

// ── Saving a zone ───────────────────────────────────────────────────

/// The text of a member of the JSON object that some text holds, as
/// `serde_json` reads it; none where the text is no JSON, no object, or the
/// member is missing or no string.
pub uninterp spec fn json_text_of(body: Seq<char>, key: Seq<char>) -> Option<Seq<char>>;

/// `serde_json::from_str` into a `serde_json::Value`, of which one member is
/// taken as text by `Value::get` and `Value::as_str`. The result is a function
/// of the text and of the member's name; how `serde_json` reads JSON is not
/// stated.
#[verifier::external_body]
fn json_text(body: &str, key: &str) -> (r: Option<String>)
    ensures
        r is Some <==> json_text_of(body@, key@) is Some,
        r matches Some(text) ==> Some(text@) == json_text_of(body@, key@),
{
    let value: serde_json::Value = serde_json::from_str(body).ok()?;
    let text = value.get(key)?.as_str()?;
    Some(text.to_owned())
}

/// The given text without the white space around it; empty where none is given.
pub open spec fn name_given(given: Option<Seq<char>>) -> Seq<char> {
    match given {
        Some(text) => crate::text::trimmed(text),
        None => Seq::empty(),
    }
}

/// The name to save a zone under is the given text without the white space
/// around it; one that is empty or missing is refused.
pub open spec fn is_zone_name(given: Option<Seq<char>>, r: Result<String, ApiReply>) -> bool {
    let name = name_given(given);
    match r {
        Ok(n) => name.len() > 0 && n@ == name,
        Err(reply) => name.len() == 0 && reply is NameRequired,
    }
}

/// The name to save a zone under, from what the request gives: its text
/// without the white space around it, which must not be empty.
pub fn zone_name(given: Option<&str>) -> (r: Result<String, ApiReply>)
    ensures
        is_zone_name(
            match given {
                Some(text) => Some(text@),
                None => None,
            },
            r,
        ),
{
    match given {
        Some(text) => {
            let name = trim(text);
            if name.unicode_len() == 0 {
                Err(ApiReply::NameRequired)
            } else {
                Ok(name.to_owned())
            }
        },
        None => Err(ApiReply::NameRequired),
    }
}

/// The audio to save, from what was captured: there must be some.
pub fn zone_audio<S>(captured: Vec<S>) -> (r: Result<Vec<S>, ApiReply>)
    ensures
        match r {
            Ok(samples) => captured@.len() > 0 && samples == captured,
            Err(reply) => captured@.len() == 0 && reply is NothingCaptured,
        },
{
    if captured.len() == 0 {
        Err(ApiReply::NothingCaptured)
    } else {
        Ok(captured)
    }
}

/// How saving a zone begins. Without a name it is refused and nothing changes.
/// With one, capturing ends and what was captured is taken; where nothing was,
/// it is refused.
pub open spec fn begins_save<S>(
    before: ZoneState<S>,
    given: Option<Seq<char>>,
    after: ZoneState<S>,
    r: Result<(String, Vec<S>), ApiReply>,
) -> bool {
    let name = name_given(given);
    if name.len() == 0 {
        &&& after == before
        &&& r matches Err(reply)
        &&& reply is NameRequired
    } else {
        &&& !after.capturing
        &&& after.capture_buf@ == Seq::<S>::empty()
        &&& after.mono_history == before.mono_history
        &&& after.max_history_samples == before.max_history_samples
        &&& after.detecting == before.detecting
        &&& after.last_detection == before.last_detection
        &&& match r {
            Ok((zone, samples)) => {
                &&& before.capture_buf@.len() > 0
                &&& zone@ == name
                &&& samples == before.capture_buf
            },
            Err(reply) => before.capture_buf@.len() == 0 && reply is NothingCaptured,
        }
    }
}

impl<S: Copy> ZoneState<S> {
    /// Begins to save a zone, from the body of the request: gives its name and
    /// its audio.
    pub fn begin_save(&mut self, body: &str) -> (r: Result<(String, Vec<S>), ApiReply>)
        ensures
            begins_save(*old(self), json_text_of(body@, "name"@), *final(self), r),
    {
        match json_text(body, "name") {
            Some(text) => self.begin_save_as(Some(text.as_str())),
            None => self.begin_save_as(None),
        }
    }

    /// Begins to save a zone under the name that the request gives.
    pub fn begin_save_as(&mut self, given: Option<&str>) -> (r: Result<
        (String, Vec<S>),
        ApiReply,
    >)
        ensures
            begins_save(
                *old(self),
                match given {
                    Some(text) => Some(text@),
                    None => None,
                },
                *final(self),
                r,
            ),
    {
        match zone_name(given) {
            Ok(name) => {
                let captured = self.take_capture();
                match zone_audio(captured) {
                    Ok(samples) => Ok((name, samples)),
                    Err(reply) => Err(reply),
                }
            },
            Err(reply) => Err(reply),
        }
    }
}

/// A zone is never saved, and no captured audio lost, by a request without a
/// name: once it was refused, one with a name gets all the audio.
pub proof fn law_refused_save_keeps_the_capture<S>(
    before: ZoneState<S>,
    blank: Option<Seq<char>>,
    between: ZoneState<S>,
    refusal: Result<(String, Vec<S>), ApiReply>,
    given: Option<Seq<char>>,
    after: ZoneState<S>,
    r: Result<(String, Vec<S>), ApiReply>,
)
    requires
        name_given(blank).len() == 0,
        begins_save(before, blank, between, refusal),
        name_given(given).len() > 0,
        before.capture_buf@.len() > 0,
        begins_save(between, given, after, r),
    ensures
        refusal is Err,
        between == before,
        r matches Ok((zone, samples)) && zone@ == name_given(given) && samples
            == before.capture_buf,
{
}

/// A track to store for a zone.
#[derive(Debug)]
pub struct ZoneTrack {
    pub title: String,
    pub artist: &'static str,
    pub frequency_mode: &'static str,
    pub fingerprint_count: usize,
    pub signature_bytes: Vec<u8>,
    pub signature_dim: usize,
}

/// The track to store for a zone, given what was analysed: there must be fingerprints.
pub fn zone_track(name: &str, fingerprints: &Vec<Fingerprint>, signature: &Signature) -> (r: Result<
    ZoneTrack,
    ApiReply,
>)
    ensures
        match r {
            Ok(track) => {
                &&& fingerprints@.len() > 0
                &&& track.title@ == "zone:"@ + name@
                &&& track.artist@ == "beacon"@
                &&& track.frequency_mode@ == "ultrasonic"@
                &&& track.fingerprint_count == fingerprints@.len()
                &&& track.signature_bytes@ == crate::signature::vector_bytes(signature.vector@)
                &&& track.signature_dim == signature.vector@.len()
            },
            Err(reply) => fingerprints@.len() == 0 && reply is NoFingerprints,
        },
{
    if fingerprints.len() == 0 {
        return Err(ApiReply::NoFingerprints);
    }
    let mut title = "zone:".to_owned();
    title.append(name);
    Ok(
        ZoneTrack {
            title,
            artist: "beacon",
            frequency_mode: "ultrasonic",
            fingerprint_count: fingerprints.len(),
            signature_bytes: signature.to_bytes(),
            signature_dim: signature.dim(),
        },
    )
}

/// The answer once a zone was saved.
pub fn zone_saved(
    name: String,
    track: &ZoneTrack,
    duration_secs: F32Bits,
    track_id: i64,
) -> (r: ApiReply)
    ensures
        r == (ApiReply::Saved {
            zone: name,
            fingerprints: track.fingerprint_count,
            signature_dim: track.signature_dim,
            duration_secs,
            track_id,
        }),
{
    ApiReply::Saved {
        zone: name,
        fingerprints: track.fingerprint_count,
        signature_dim: track.signature_dim,
        duration_secs,
        track_id,
    }
}

/// The answer to a deletion, given whether there was such a zone.
pub fn zone_deleted(name: String, found: bool) -> (r: ApiReply)
    ensures
        found ==> r == (ApiReply::Deleted { zone: name }),
        !found ==> (r matches ApiReply::ZoneNotFound { message } && message@ == "Zone '"@ + name@
            + "' not found"@),
{
    if found {
        ApiReply::Deleted { zone: name }
    } else {
        let mut message = "Zone '".to_owned();
        message.append(name.as_str());
        message.append("' not found");
        ApiReply::ZoneNotFound { message }
    }
}

// ── Detection ───────────────────────────────────────────────────────

/// How a detection came out.
#[derive(Debug)]
pub enum Outcome {
    /// Too little audio was heard so far.
    TooLittleAudio,
    /// The audio gives no fingerprints.
    NoFingerprints,
    /// The database could not be opened.
    NoDatabase { fingerprints: usize },
    /// The work did not finish.
    Crashed,
    /// The database was searched; `zones` holds the zone of each result, where
    /// it has one.
    Searched { fingerprints: usize, results: Vec<MatchResult>, zones: Vec<Option<ZoneInfo>> },
}

/// The match of a result with its zone.
pub open spec fn zone_match(result: MatchResult, zone: ZoneInfo) -> ZoneMatch {
    ZoneMatch { zone: zone.name, confidence: result.confidence, match_count: result.match_count }
}

/// All results that belong to zones.
pub open spec fn all_matches(
    results: Seq<MatchResult>,
    zones: Seq<Option<ZoneInfo>>,
) -> Seq<ZoneMatch>
    decreases results.len(),
{
    if results.len() == 0 {
        Seq::empty()
    } else {
        let rest = all_matches(results.drop_last(), zones);
        match zones[results.len() - 1] {
            Some(zone) => rest.push(zone_match(results.last(), zone)),
            None => rest,
        }
    }
}

/// The results that belong to zones, in order.
pub fn zone_matches(results: &Vec<MatchResult>, zones: &Vec<Option<ZoneInfo>>) -> (r: Vec<
    ZoneMatch,
>)
    requires
        zones@.len() == results@.len(),
    ensures
        r@ == all_matches(results@, zones@),
{
    let mut matches: Vec<ZoneMatch> = Vec::new();
    let mut i: usize = 0;
    while i < results.len()
        invariant
            i <= results.len(),
            zones@.len() == results@.len(),
            matches@ == all_matches(results@.take(i as int), zones@),
        decreases results.len() - i,
    {
        assert(results@.take(i + 1).drop_last() =~= results@.take(i as int));
        match &zones[i] {
            Some(zone) => {
                matches.push(
                    ZoneMatch {
                        zone: zone.name.clone(),
                        confidence: results[i].confidence,
                        match_count: results[i].match_count,
                    },
                );
            },
            None => {},
        }
        i = i + 1;
    }
    assert(results@.take(i as int) =~= results@);
    matches
}

/// What a one-shot detection is answered.
pub open spec fn answers_once(outcome: Outcome, reply: ApiReply) -> bool {
    match outcome {
        Outcome::TooLittleAudio => reply matches ApiReply::NotDetected { message } && message@
            == "Not enough audio accumulated yet"@,
        Outcome::NoFingerprints => reply matches ApiReply::NotDetected { message } && message@
            == "No fingerprints extracted"@,
        Outcome::NoDatabase { .. } => reply matches ApiReply::NotDetected { message } && message@
            == "Database not available"@,
        Outcome::Crashed => reply matches ApiReply::NotDetected { message } && message@
            == "Internal error"@,
        Outcome::Searched { results, zones, .. } => {
            let matches = all_matches(results@, zones@);
            if matches.len() == 0 {
                reply matches ApiReply::NotDetected { message } && message@ == "No zone match"@
            } else {
                reply == ApiReply::Detected(matches[0])
            }
        },
    }
}

/// The outcome gives a zone, or none, for each result.
pub open spec fn complete(outcome: Outcome) -> bool {
    outcome matches Outcome::Searched { results, zones, .. } ==> zones@.len() == results@.len()
}

/// No zone was detected.
fn not_detected(reason: &str) -> (r: ApiReply)
    ensures
        r matches ApiReply::NotDetected { message } && message@ == reason@,
{
    ApiReply::NotDetected { message: reason.to_owned() }
}

/// Answers a one-shot detection: with the first result that belongs to a zone.
pub fn once_reply(outcome: &Outcome) -> (r: ApiReply)
    requires
        complete(*outcome),
    ensures
        answers_once(*outcome, r),
{
    match outcome {
        Outcome::TooLittleAudio => not_detected("Not enough audio accumulated yet"),
        Outcome::NoFingerprints => not_detected("No fingerprints extracted"),
        Outcome::NoDatabase { .. } => not_detected("Database not available"),
        Outcome::Crashed => not_detected("Internal error"),
        Outcome::Searched { results, zones, .. } => {
            let mut matches = zone_matches(results, zones);
            if matches.len() == 0 {
                not_detected("No zone match")
            } else {
                ApiReply::Detected(matches.remove(0))
            }
        },
    }
}

/// A report of the continuous detection.
#[derive(Debug)]
pub struct DetectionReport {
    pub matches: Vec<ZoneMatch>,
    pub fingerprints: usize,
    pub message: Option<&'static str>,
}

/// Reports a continuous detection: all results that belong to zones. There is
/// nothing to report where too little audio was heard or the work did not
/// finish.
pub fn continuous_report(outcome: &Outcome) -> (r: Option<DetectionReport>)
    requires
        complete(*outcome),
    ensures
        match *outcome {
            Outcome::TooLittleAudio => r is None,
            Outcome::Crashed => r is None,
            Outcome::NoFingerprints => r matches Some(report) && report.matches@.len() == 0
                && report.fingerprints == 0 && (report.message matches Some(m) && m@
                == "No fingerprints extracted"@),
            Outcome::NoDatabase { fingerprints } => r matches Some(report)
                && report.matches@.len() == 0 && report.fingerprints == fingerprints && (
            report.message matches Some(m) && m@ == "Database not available"@),
            Outcome::Searched { fingerprints, results, zones } => r matches Some(report)
                && report.matches@ == all_matches(results@, zones@) && report.fingerprints
                == fingerprints && report.message is None,
        },
{
    match outcome {
        Outcome::TooLittleAudio => None,
        Outcome::Crashed => None,
        Outcome::NoFingerprints => Some(
            DetectionReport {
                matches: Vec::new(),
                fingerprints: 0,
                message: Some("No fingerprints extracted"),
            },
        ),
        Outcome::NoDatabase { fingerprints } => Some(
            DetectionReport {
                matches: Vec::new(),
                fingerprints: *fingerprints,
                message: Some("Database not available"),
            },
        ),
        Outcome::Searched { fingerprints, results, zones } => Some(
            DetectionReport {
                matches: zone_matches(results, zones),
                fingerprints: *fingerprints,
                message: None,
            },
        ),
    }
}

// ── What is refused, and what is reported ───────────────────────────

/// The replies that refuse, and no others, report an error and have a status
/// that says so.
pub proof fn law_refusals_report_an_error(reply: ApiReply)
    ensures
        reply.problem() is Some <==> reply is NameRequired || reply is NothingCaptured
            || reply is NoFingerprints || reply is ZoneNotFound,
        reply is NameRequired ==> reply.problem() == Some("name is required"@),
        reply is NothingCaptured ==> reply.problem() == Some(
            "No audio captured. Start capture first."@,
        ),
        reply is NoFingerprints ==> reply.problem() == Some(
            "No fingerprints could be extracted from the captured audio"@,
        ),
        reply matches ApiReply::ZoneNotFound { message } ==> reply.problem() == Some(message@),
{
}

/// Saving begins, in terms of the state before and after: a name that is only
/// white space, or missing, is refused and changes nothing; with any other the
/// capture is over and empty, and its samples are given out unless there were
/// none.
pub proof fn law_saving_takes_the_capture<S>(
    before: ZoneState<S>,
    given: Option<Seq<char>>,
    after: ZoneState<S>,
    r: Result<(String, Vec<S>), ApiReply>,
)
    requires
        begins_save(before, given, after, r),
    ensures
        ({
            let blank = given matches Some(text) ==> forall|i: int|
                0 <= i < text.len() ==> crate::text::is_space(#[trigger] text[i]);
            &&& blank ==> after == before && (r matches Err(reply) && reply is NameRequired)
            &&& !blank ==> !after.capturing && after.capture_buf@.len() == 0
            &&& after.mono_history@ == before.mono_history@
            &&& after.max_history_samples == before.max_history_samples
            &&& after.detecting == before.detecting
            &&& after.last_detection == before.last_detection
            &&& !blank && before.capture_buf@.len() == 0 ==> (r matches Err(reply)
                && reply is NothingCaptured)
            &&& !blank && before.capture_buf@.len() > 0 ==> (r matches Ok((zone, samples))
                && samples@ == before.capture_buf@ && zone@.len() > 0 && !crate::text::is_space(
                zone@.first(),
            ) && !crate::text::is_space(zone@.last()))
        }),
{
    if let Some(text) = given {
        let ends = crate::text::law_trimming_takes_white_space(text);
        let name = crate::text::trimmed(text);
        if name.len() > 0 {
            assert(text[ends.0] == name.first());
            assert(!crate::text::is_space(text[ends.0]));
        } else {
            assert forall|i: int| 0 <= i < text.len() implies crate::text::is_space(
                #[trigger] text[i],
            ) by {}
        }
    }
}

/// The matches are the results at these places, in order: all those that belong
/// to a zone, with the zone's name and the result's confidence and count.
pub open spec fn matched_at(
    results: Seq<MatchResult>,
    zones: Seq<Option<ZoneInfo>>,
    matches: Seq<ZoneMatch>,
    places: Seq<int>,
) -> bool {
    &&& places.len() == matches.len()
    &&& forall|k: int|
        #![trigger places[k]]
        #![trigger matches[k]]
        0 <= k < places.len() ==> 0 <= places[k] < results.len() && {
            &&& zones[places[k]] matches Some(zone)
            &&& matches[k].zone == zone.name
            &&& matches[k].confidence == results[places[k]].confidence
            &&& matches[k].match_count == results[places[k]].match_count
        }
    &&& forall|k: int, l: int|
        0 <= k < l < places.len() ==> (#[trigger] places[k]) < (#[trigger] places[l])
    &&& forall|j: int|
        #![trigger zones[j]]
        0 <= j < results.len() && zones[j] is Some ==> places.contains(j)
}

/// All results that belong to a zone are reported, and only those.
pub proof fn law_all_zone_matches_are_reported(
    results: Seq<MatchResult>,
    zones: Seq<Option<ZoneInfo>>,
) -> (places: Seq<int>)
    ensures
        matched_at(results, zones, all_matches(results, zones), places),
    decreases results.len(),
{
    if results.len() == 0 {
        Seq::empty()
    } else {
        let rest = results.drop_last();
        let n = results.len() - 1;
        let before = law_all_zone_matches_are_reported(rest, zones);
        let matches = all_matches(results, zones);
        assert forall|k: int| 0 <= k < before.len() implies rest[#[trigger] before[k]]
            == results[before[k]] by {}
        if zones[n] is Some {
            let places = before.push(n);
            assert forall|k: int|
                #![trigger places[k]]
                #![trigger matches[k]]
                0 <= k < places.len() implies 0 <= places[k] < results.len() && {
                &&& zones[places[k]] matches Some(zone)
                &&& matches[k].zone == zone.name
                &&& matches[k].confidence == results[places[k]].confidence
                &&& matches[k].match_count == results[places[k]].match_count
            } by {
                if k < before.len() {
                    assert(places[k] == before[k]);
                    assert(all_matches(rest, zones)[k] == matches[k]);
                }
            }
            assert forall|j: int|
                #![trigger zones[j]]
                0 <= j < results.len() && zones[j] is Some implies places.contains(j) by {
                if j < n {
                    assert(before.contains(j));
                    let k = choose|k: int| 0 <= k < before.len() && before[k] == j;
                    assert(places[k] == j);
                } else {
                    assert(places[before.len() as int] == j);
                }
            }
            places
        } else {
            before
        }
    }
}

/// A one-shot detection reports the first result that belongs to a zone; no
/// zone, where there is none or there was nothing to search for.
pub proof fn law_first_zone_match_is_reported(outcome: Outcome, reply: ApiReply, j: int)
    requires
        answers_once(outcome, reply),
    ensures
        match outcome {
            Outcome::Searched { results, zones, .. } => 0 <= j < results@.len() && zones@[j] is Some
                && (forall|i: int| 0 <= i < j ==> (#[trigger] zones@[i]) is None) ==> (
            reply matches ApiReply::Detected(m) && m.zone == zones@[j]->0.name && m.confidence
                == results@[j].confidence && m.match_count == results@[j].match_count),
            _ => reply is NotDetected,
        },
        outcome matches Outcome::Searched { results, zones, .. } ==> ((forall|i: int|
            0 <= i < results@.len() ==> (#[trigger] zones@[i]) is None) ==> reply is NotDetected),
{
    if let Outcome::Searched { results, zones, .. } = outcome {
        let matches = all_matches(results@, zones@);
        let places = law_all_zone_matches_are_reported(results@, zones@);
        if matches.len() > 0 {
            assert(zones@[places[0]] is Some);
        }
        if 0 <= j < results@.len() && zones@[j] is Some && (forall|i: int|
            0 <= i < j ==> (#[trigger] zones@[i]) is None) {
            assert(places.contains(j));
            let k = choose|k: int| 0 <= k < places.len() && places[k] == j;
            if k > 0 {
                assert(places[0] < places[k]);
                assert(zones@[places[0]] is Some);
            }
            assert(places[0] == j);
        }
    }
}

/// The name of a zone is the given text from its first character that is no
/// white space to its last; where there is none, a name is asked for.
pub proof fn law_zone_name_is_what_was_given(
    given: Option<Seq<char>>,
    r: Result<String, ApiReply>,
) -> (ends: (int, int))
    requires
        is_zone_name(given, r),
    ensures
        given is None ==> (r matches Err(reply) && reply is NameRequired),
        given matches Some(text) ==> {
            &&& 0 <= ends.0 <= ends.1 <= text.len()
            &&& forall|i: int|
                0 <= i < ends.0 || ends.1 <= i < text.len() ==> crate::text::is_space(
                    #[trigger] text[i],
                )
            &&& ends.0 < ends.1 ==> {
                &&& !crate::text::is_space(text[ends.0])
                &&& !crate::text::is_space(text[ends.1 - 1])
                &&& r matches Ok(name)
                &&& name@ == text.subrange(ends.0, ends.1)
            }
            &&& ends.0 == ends.1 ==> (r matches Err(reply) && reply is NameRequired)
        },
{
    match given {
        Some(text) => {
            let ends = crate::text::law_trimming_takes_white_space(text);
            let name = crate::text::trimmed(text);
            if name.len() > 0 {
                assert(text[ends.0] == name.first());
                assert(text[ends.1 - 1] == name.last());
            }
            ends
        },
        None => (0, 0),
    }
}

/// Where a one-shot detection finds no zone, it says why.
pub proof fn law_reason_for_no_zone(outcome: Outcome, reply: ApiReply)
    requires
        answers_once(outcome, reply),
    ensures
        reply matches ApiReply::NotDetected { message } ==> message@ == (match outcome {
            Outcome::TooLittleAudio => "Not enough audio accumulated yet"@,
            Outcome::NoFingerprints => "No fingerprints extracted"@,
            Outcome::NoDatabase { .. } => "Database not available"@,
            Outcome::Crashed => "Internal error"@,
            Outcome::Searched { .. } => "No zone match"@,
        }),
{
}

/// A detection that goes on looks at ten results, twice as many as one that is
/// made once.
pub proof fn law_results_looked_at()
    ensures
        CONTINUOUS_RESULTS == 10,
        CONTINUOUS_RESULTS == 2 * ONCE_RESULTS,
{
}

} // verus!
