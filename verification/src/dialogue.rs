//! The dialogue that answers a request.
//!
//! Answering takes outside work: reading audio, recording, querying the
//! database. The dialogue asks for one piece of it at a time and decides from
//! each answer what to ask for next or what to respond.

use crate::audio::FrequencyMode;
use crate::daemon::{DaemonRequest, DaemonResponse, ResponseData};
use crate::database::{DbStats, MatchResult, TrackInfo, ZoneInfo};
use crate::detection::{
    comparable_zones, match_fingerprints, match_signatures, pair_scores, track_to_look_up,
    zone_names, Detection, StoredSignature, ZoneSignature,
};
use crate::fingerprint::Fingerprint;
use crate::ieee::{F32Bits, F64Bits};
use crate::signature::Signature;
use crate::text::{push_decimal, push_signed};
use vstd::prelude::*;
use vstd::string::*;

verus! {

/// Seconds to record for a zone where a request does not say.
pub const DEFAULT_RECORD_SECS: u64 = 10;

/// Most results of a recognition.
pub const RECOGNIZE_RESULTS: usize = 5;

/// Most results of the search behind a zone detection.
pub const DETECT_RESULTS: usize = 3;

/// Where audio comes from.
#[derive(Debug)]
pub enum Source {
    /// A WAV file.
    File { path: String },
    /// The microphone, for a number of seconds.
    Microphone { seconds: u64 },
}

/// A piece of outside work.
#[derive(Debug)]
pub enum Action {
    /// Read a WAV file in a mode and fingerprint it.
    Fingerprint { path: String, mode: FrequencyMode },
    /// Get audio in a mode, fingerprint it and compute its signature.
    Analyse { source: Source, mode: FrequencyMode },
    /// Search the database for fingerprints.
    Search { fingerprints: Vec<Fingerprint>, max_results: usize, sample_rate: u32 },
    /// Store a track.
    InsertTrack {
        title: String,
        artist: String,
        album: Option<String>,
        duration_secs: F32Bits,
        file_path: Option<String>,
        fingerprints: Vec<Fingerprint>,
    },
    /// Store a zone.
    InsertZone { name: String, track_id: i64, mode: FrequencyMode, signature: Vec<u8> },
    /// Remove a track.
    RemoveTrack { track_id: i64 },
    /// Remove a zone.
    RemoveZone { name: String },
    /// List the tracks.
    ListTracks,
    /// Get the statistics.
    GetStats,
    /// List the zones.
    ListZones,
    /// Load the signatures of all zones.
    LoadSignatures,
    /// Compute the similarity of a signature to each of the zones'.
    Compare { query: Signature, zones: Vec<ZoneSignature> },
    /// Look up the zone of a track.
    FindZone { track_id: i64 },
}

/// How a piece of outside work came out.
#[derive(Debug)]
pub enum Event {
    /// It failed, for the reason given.
    Failed(String),
    /// Audio was read and fingerprinted.
    Fingerprinted { fingerprints: Vec<Fingerprint>, duration_secs: F32Bits },
    /// Audio was analysed.
    Analysed { fingerprints: Vec<Fingerprint>, signature: Signature, duration_secs: F32Bits },
    /// The results of a search.
    Found(Vec<MatchResult>),
    /// A row was stored under this number.
    Inserted(i64),
    /// Whether there was anything to remove.
    Removed(bool),
    /// The tracks.
    Tracks(Vec<TrackInfo>),
    /// The statistics.
    Stats(DbStats),
    /// The zones.
    Zones(Vec<ZoneInfo>),
    /// The signatures of the zones.
    Signatures(Vec<StoredSignature>),
    /// The similarities, in order, and the threshold that they must exceed.
    Compared { similarities: Vec<F64Bits>, threshold: F64Bits },
    /// The zone of a track, where it has one.
    Zone(Option<ZoneInfo>),
}

/// What a dialogue remembers while it waits for an answer.
#[derive(Debug)]
pub enum Pending {
    Recognize { mode: FrequencyMode },
    RecognizeSearch,
    Ingest { path: String, title: String, artist: String, album: Option<String> },
    IngestStored { title: String, artist: String, fingerprint_count: usize, duration_secs: F32Bits },
    Remove { track_id: i64 },
    List,
    Stats,
    ZoneAdd { name: String, path: Option<String>, mode: FrequencyMode },
    ZoneAddTrack { name: String, mode: FrequencyMode, signature: Signature, fingerprint_count: usize },
    ZoneAddZone {
        name: String,
        mode: FrequencyMode,
        track_id: i64,
        fingerprint_count: usize,
        signature_dim: usize,
    },
    ZoneList,
    ZoneRemove { name: String },
    Detect { mode: FrequencyMode },
    DetectLoad { mode: FrequencyMode, fingerprints: Vec<Fingerprint>, signature: Signature },
    DetectCompare { mode: FrequencyMode, fingerprints: Vec<Fingerprint>, zones: Vec<String> },
    DetectSearch { best: Option<Detection> },
    DetectZone { best: Option<Detection>, confidence: F64Bits },
}

/// The next step of a dialogue.
#[derive(Debug)]
pub enum Step {
    /// The answer.
    Done(DaemonResponse),
    /// A piece of work to do, and what to go on with.
    Ask { action: Action, pending: Pending },
}

/// The event is one that the action can come out with.
pub open spec fn answers(action: Action, event: Event) -> bool {
    (event is Failed && action !is Compare) || match action {
        Action::Fingerprint { .. } => event is Fingerprinted,
        Action::Analyse { .. } => event is Analysed,
        Action::Search { .. } => event is Found,
        Action::InsertTrack { .. } => event is Inserted,
        Action::InsertZone { .. } => event is Inserted,
        Action::RemoveTrack { .. } => event is Removed,
        Action::RemoveZone { .. } => event is Removed,
        Action::ListTracks => event is Tracks,
        Action::GetStats => event is Stats,
        Action::ListZones => event is Zones,
        Action::LoadSignatures => event is Signatures,
        Action::Compare { zones, .. } => event matches Event::Compared { similarities, .. }
            && similarities@.len() == zones@.len(),
        Action::FindZone { .. } => event is Zone,
    }
}

/// The event is one that the dialogue can go on with.
pub open spec fn awaits(pending: Pending, event: Event) -> bool {
    (event is Failed && pending !is DetectCompare) || match pending {
        Pending::Recognize { .. } => event is Fingerprinted,
        Pending::RecognizeSearch => event is Found,
        Pending::Ingest { .. } => event is Fingerprinted,
        Pending::IngestStored { .. } => event is Inserted,
        Pending::Remove { .. } => event is Removed,
        Pending::List => event is Tracks,
        Pending::Stats => event is Stats,
        Pending::ZoneAdd { .. } => event is Analysed,
        Pending::ZoneAddTrack { .. } => event is Inserted,
        Pending::ZoneAddZone { .. } => event is Inserted,
        Pending::ZoneList => event is Zones,
        Pending::ZoneRemove { .. } => event is Removed,
        Pending::Detect { .. } => event is Analysed,
        Pending::DetectLoad { .. } => event is Signatures,
        Pending::DetectCompare { zones, .. } => event matches Event::Compared { similarities, .. }
            && similarities@.len() == zones@.len(),
        Pending::DetectSearch { .. } => event is Found,
        Pending::DetectZone { .. } => event is Zone,
    }
}

/// Whether the event is one that the dialogue can go on with.
pub fn accepts(pending: &Pending, event: &Event) -> (r: bool)
    ensures
        r == awaits(*pending, *event),
{
    match (pending, event) {
        (Pending::DetectCompare { .. }, Event::Failed(_)) => false,
        (_, Event::Failed(_)) => true,
        (Pending::Recognize { .. }, Event::Fingerprinted { .. }) => true,
        (Pending::RecognizeSearch, Event::Found(_)) => true,
        (Pending::Ingest { .. }, Event::Fingerprinted { .. }) => true,
        (Pending::IngestStored { .. }, Event::Inserted(_)) => true,
        (Pending::Remove { .. }, Event::Removed(_)) => true,
        (Pending::List, Event::Tracks(_)) => true,
        (Pending::Stats, Event::Stats(_)) => true,
        (Pending::ZoneAdd { .. }, Event::Analysed { .. }) => true,
        (Pending::ZoneAddTrack { .. }, Event::Inserted(_)) => true,
        (Pending::ZoneAddZone { .. }, Event::Inserted(_)) => true,
        (Pending::ZoneList, Event::Zones(_)) => true,
        (Pending::ZoneRemove { .. }, Event::Removed(_)) => true,
        (Pending::Detect { .. }, Event::Analysed { .. }) => true,
        (Pending::DetectLoad { .. }, Event::Signatures(_)) => true,
        (Pending::DetectCompare { zones, .. }, Event::Compared { similarities, .. }) => {
            similarities.len() == zones.len()
        },
        (Pending::DetectSearch { .. }, Event::Found(_)) => true,
        (Pending::DetectZone { .. }, Event::Zone(_)) => true,
        _ => false,
    }
}

/// The dialogue is over, with this answer.
pub open spec fn ends(
    step: Step,
    success: bool,
    message: Seq<char>,
    data: Option<ResponseData>,
) -> bool {
    step matches Step::Done(r) && r.success == success && r.message@ == message && r.data == data
}

/// The mode that a request names, or `otherwise` where it names none.
pub open spec fn mode_of(
    frequency_mode: Option<String>,
    otherwise: FrequencyMode,
) -> FrequencyMode {
    match frequency_mode {
        Some(name) => match FrequencyMode::named(name@) {
            Some(mode) => mode,
            None => otherwise,
        },
        None => otherwise,
    }
}

/// The mode that a request about a track names, audible where it names none.
pub open spec fn track_mode(frequency_mode: Option<String>) -> FrequencyMode {
    mode_of(frequency_mode, FrequencyMode::Audible)
}

/// The mode that a request about a zone names, ultrasonic where it names none.
pub open spec fn zone_mode(frequency_mode: Option<String>) -> FrequencyMode {
    mode_of(frequency_mode, FrequencyMode::Ultrasonic)
}

/// The mode that a request names, or `otherwise` where it names none.
pub fn requested_mode(frequency_mode: &Option<String>, otherwise: FrequencyMode) -> (r:
    FrequencyMode)
    ensures
        r == mode_of(*frequency_mode, otherwise),
{
    match frequency_mode {
        Some(name) => match FrequencyMode::parse(name.as_str()) {
            Some(mode) => mode,
            None => otherwise,
        },
        None => otherwise,
    }
}

/// The first step of the dialogue about a request.
pub open spec fn begins(request: DaemonRequest, step: Step) -> bool {
    match request {
        DaemonRequest::Ping => ends(step, true, "pong"@, None),
        DaemonRequest::Recognize { path, frequency_mode } => step == (Step::Ask {
            action: Action::Fingerprint { path, mode: track_mode(frequency_mode) },
            pending: Pending::Recognize { mode: track_mode(frequency_mode) },
        }),
        DaemonRequest::Ingest { path, title, artist, album, frequency_mode } => step == (
        Step::Ask {
            action: Action::Fingerprint { path, mode: track_mode(frequency_mode) },
            pending: Pending::Ingest { path, title, artist, album },
        }),
        DaemonRequest::Remove { track_id } => step == (Step::Ask {
            action: Action::RemoveTrack { track_id },
            pending: Pending::Remove { track_id },
        }),
        DaemonRequest::List => step == (Step::Ask {
            action: Action::ListTracks,
            pending: Pending::List,
        }),
        DaemonRequest::Stats => step == (Step::Ask {
            action: Action::GetStats,
            pending: Pending::Stats,
        }),
        DaemonRequest::Shutdown => ends(step, true, "Shutting down..."@, None),
        DaemonRequest::ZoneAdd { name, path, frequency_mode, record_duration } => step == (
        Step::Ask {
            action: Action::Analyse {
                source: match path {
                    Some(p) => Source::File { path: p },
                    None => Source::Microphone {
                        seconds: match record_duration {
                            Some(s) => s,
                            None => DEFAULT_RECORD_SECS,
                        },
                    },
                },
                mode: zone_mode(frequency_mode),
            },
            pending: Pending::ZoneAdd { name, path, mode: zone_mode(frequency_mode) },
        }),
        DaemonRequest::ZoneList => step == (Step::Ask {
            action: Action::ListZones,
            pending: Pending::ZoneList,
        }),
        DaemonRequest::ZoneRemove { name } => step == (Step::Ask {
            action: Action::RemoveZone { name },
            pending: Pending::ZoneRemove { name },
        }),
        DaemonRequest::ZoneDetect { path, frequency_mode } => step == (Step::Ask {
            action: Action::Analyse { source: Source::File { path }, mode: zone_mode(frequency_mode) },
            pending: Pending::Detect { mode: zone_mode(frequency_mode) },
        }),
        DaemonRequest::MonitorSubscribe => ends(
            step,
            true,
            "Monitor mode — events will stream on this connection"@,
            None,
        ),
    }
}

/// Takes up a request.
pub fn begin(request: DaemonRequest) -> (r: Step)
    ensures
        begins(request, r),
{
    match request {
        DaemonRequest::Ping => Step::Done(DaemonResponse::ok("pong".to_owned())),
        DaemonRequest::Recognize { path, frequency_mode } => {
            let mode = requested_mode(&frequency_mode, FrequencyMode::Audible);
            Step::Ask {
                action: Action::Fingerprint { path, mode },
                pending: Pending::Recognize { mode },
            }
        },
        DaemonRequest::Ingest { path, title, artist, album, frequency_mode } => {
            let mode = requested_mode(&frequency_mode, FrequencyMode::Audible);
            Step::Ask {
                action: Action::Fingerprint { path: path.clone(), mode },
                pending: Pending::Ingest { path, title, artist, album },
            }
        },
        DaemonRequest::Remove { track_id } => Step::Ask {
            action: Action::RemoveTrack { track_id },
            pending: Pending::Remove { track_id },
        },
        DaemonRequest::List => Step::Ask { action: Action::ListTracks, pending: Pending::List },
        DaemonRequest::Stats => Step::Ask { action: Action::GetStats, pending: Pending::Stats },
        DaemonRequest::Shutdown => Step::Done(DaemonResponse::ok("Shutting down...".to_owned())),
        DaemonRequest::ZoneAdd { name, path, frequency_mode, record_duration } => {
            let mode = requested_mode(&frequency_mode, FrequencyMode::Ultrasonic);
            let source = match &path {
                Some(wav_path) => Source::File { path: wav_path.clone() },
                None => {
                    let seconds: u64 = match record_duration {
                        Some(s) => s,
                        None => DEFAULT_RECORD_SECS,
                    };
                    Source::Microphone { seconds }
                },
            };
            Step::Ask {
                action: Action::Analyse { source, mode },
                pending: Pending::ZoneAdd { name, path, mode },
            }
        },
        DaemonRequest::ZoneList => Step::Ask {
            action: Action::ListZones,
            pending: Pending::ZoneList,
        },
        DaemonRequest::ZoneRemove { name } => Step::Ask {
            action: Action::RemoveZone { name: name.clone() },
            pending: Pending::ZoneRemove { name },
        },
        DaemonRequest::ZoneDetect { path, frequency_mode } => {
            let mode = requested_mode(&frequency_mode, FrequencyMode::Ultrasonic);
            Step::Ask {
                action: Action::Analyse { source: Source::File { path }, mode },
                pending: Pending::Detect { mode },
            }
        },
        DaemonRequest::MonitorSubscribe => Step::Done(
            DaemonResponse::ok("Monitor mode — events will stream on this connection".to_owned()),
        ),
    }
}

/// Why nothing can be done with audio that gives no fingerprints.
pub open spec fn refuses_silence(step: Step) -> bool {
    ends(step, false, "No fingerprints could be extracted from audio"@, None)
}

/// A detection is over.
pub open spec fn reports(best: Option<Detection>, step: Step) -> bool {
    match best {
        Some(d) => ends(
            step,
            true,
            "Zone detected: "@ + d.zone@,
            Some(ResponseData::Detected(d)),
        ),
        None => ends(step, true, "No zone detected"@, Some(ResponseData::NoZone)),
    }
}

/// A detection goes on with the fingerprints, where there are any.
pub open spec fn searches(
    mode: FrequencyMode,
    fingerprints: Vec<Fingerprint>,
    best: Option<Detection>,
    step: Step,
) -> bool {
    if fingerprints@.len() == 0 {
        reports(best, step)
    } else {
        step == (Step::Ask {
            action: Action::Search {
                fingerprints,
                max_results: DETECT_RESULTS,
                sample_rate: mode.rate(),
            },
            pending: Pending::DetectSearch { best },
        })
    }
}

/// What a dialogue does where a piece of work failed.
pub open spec fn gives_up(pending: Pending, problem: Seq<char>, step: Step) -> bool {
    match pending {
        Pending::Recognize { .. } => ends(step, false, "Failed to read audio: "@ + problem, None),
        Pending::RecognizeSearch => ends(step, false, "Search failed: "@ + problem, None),
        Pending::Ingest { .. } => ends(step, false, "Failed to read audio: "@ + problem, None),
        Pending::IngestStored { .. } => ends(step, false, "Ingest failed: "@ + problem, None),
        Pending::Remove { .. } => ends(step, false, "Remove failed: "@ + problem, None),
        Pending::List => ends(step, false, "List failed: "@ + problem, None),
        Pending::Stats => ends(step, false, "Stats failed: "@ + problem, None),
        Pending::ZoneAdd { .. } => ends(step, false, "Failed to process audio: "@ + problem, None),
        Pending::ZoneAddTrack { .. } => ends(step, false, "Ingest failed: "@ + problem, None),
        Pending::ZoneAddZone { .. } => ends(
            step,
            false,
            "Failed to create zone: "@ + problem,
            None,
        ),
        Pending::ZoneList => ends(step, false, "Failed to list zones: "@ + problem, None),
        Pending::ZoneRemove { .. } => ends(step, false, "Remove failed: "@ + problem, None),
        Pending::Detect { .. } => ends(step, false, "Failed to read audio: "@ + problem, None),
        // A detection does without what it cannot have.
        Pending::DetectLoad { mode, fingerprints, .. } => searches(mode, fingerprints, None, step),
        Pending::DetectCompare { .. } => false,
        Pending::DetectSearch { best } => reports(best, step),
        Pending::DetectZone { best, .. } => reports(best, step),
    }
}

/// The next step of a dialogue after an answer.
pub open spec fn goes_on(pending: Pending, event: Event, step: Step) -> bool {
    match (pending, event) {
        (_, Event::Failed(problem)) => gives_up(pending, problem@, step),
        (
            Pending::Recognize { mode },
            Event::Fingerprinted { fingerprints, .. },
        ) => if fingerprints@.len() == 0 {
            refuses_silence(step)
        } else {
            step == (Step::Ask {
                action: Action::Search {
                    fingerprints,
                    max_results: RECOGNIZE_RESULTS,
                    sample_rate: mode.rate(),
                },
                pending: Pending::RecognizeSearch,
            })
        },
        (Pending::RecognizeSearch, Event::Found(results)) => if results@.len() == 0 {
            ends(step, true, "No matches found"@, Some(ResponseData::NoMatches))
        } else {
            ends(
                step,
                true,
                "Found "@ + crate::text::decimal(results@.len()) + " match(es)"@,
                Some(ResponseData::Matches(results)),
            )
        },
        (
            Pending::Ingest { path, title, artist, album },
            Event::Fingerprinted { fingerprints, duration_secs },
        ) => if fingerprints@.len() == 0 {
            refuses_silence(step)
        } else {
            step == (Step::Ask {
                action: Action::InsertTrack {
                    title,
                    artist,
                    album,
                    duration_secs,
                    file_path: Some(path),
                    fingerprints,
                },
                pending: Pending::IngestStored {
                    title,
                    artist,
                    fingerprint_count: fingerprints@.len() as usize,
                    duration_secs,
                },
            })
        },
        (
            Pending::IngestStored { title, artist, fingerprint_count, duration_secs },
            Event::Inserted(track_id),
        ) => ends(
            step,
            true,
            "Ingested '"@ + title@ + "' by '"@ + artist@ + "' ("@ + crate::text::decimal(
                fingerprint_count as nat,
            ) + " fingerprints)"@,
            Some(ResponseData::Ingested { track_id, fingerprint_count, duration_secs }),
        ),
        (Pending::Remove { track_id }, Event::Removed(found)) => if found {
            ends(step, true, "Removed track "@ + crate::text::signed_decimal(track_id as int), None)
        } else {
            ends(
                step,
                false,
                "Track "@ + crate::text::signed_decimal(track_id as int) + " not found"@,
                None,
            )
        },
        (Pending::List, Event::Tracks(tracks)) => ends(
            step,
            true,
            crate::text::decimal(tracks@.len()) + " track(s) in database"@,
            Some(ResponseData::Tracks(tracks)),
        ),
        (Pending::Stats, Event::Stats(stats)) => ends(
            step,
            true,
            "Database statistics"@,
            Some(ResponseData::Stats(stats)),
        ),
        (
            Pending::ZoneAdd { name, path, mode },
            Event::Analysed { fingerprints, signature, duration_secs },
        ) => if fingerprints@.len() == 0 {
            refuses_silence(step)
        } else {
            &&& step matches Step::Ask { action, pending: next }
            &&& action matches Action::InsertTrack {
                title,
                artist,
                album,
                duration_secs: duration,
                file_path,
                fingerprints: stored,
            }
            &&& title == name
            &&& artist@ == "zone"@
            &&& album is None
            &&& duration == duration_secs
            &&& file_path == path
            &&& stored == fingerprints
            &&& next == (Pending::ZoneAddTrack {
                name,
                mode,
                signature,
                fingerprint_count: fingerprints@.len() as usize,
            })
        },
        (
            Pending::ZoneAddTrack { name, mode, signature, fingerprint_count },
            Event::Inserted(track_id),
        ) => {
            &&& step matches Step::Ask { action, pending: next }
            &&& action matches Action::InsertZone {
                name: zone,
                track_id: track,
                mode: zone_mode,
                signature: bytes,
            }
            &&& zone == name
            &&& track == track_id
            &&& zone_mode == mode
            &&& bytes@ == crate::signature::vector_bytes(signature.vector@)
            &&& next == (Pending::ZoneAddZone {
                name,
                mode,
                track_id,
                fingerprint_count,
                signature_dim: signature.vector@.len() as usize,
            })
        },
        (
            Pending::ZoneAddZone { name, mode, track_id, fingerprint_count, signature_dim },
            Event::Inserted(zone_id),
        ) => ends(
            step,
            true,
            "Zone '"@ + name@ + "' registered ("@ + crate::text::decimal(fingerprint_count as nat)
                + " fingerprints, "@ + crate::text::decimal(signature_dim as nat)
                + "-dim signature, "@ + mode.name() + ")"@,
            Some(
                ResponseData::ZoneAdded {
                    zone_id,
                    track_id,
                    fingerprint_count,
                    signature_dim,
                    frequency_mode: mode,
                },
            ),
        ),
        (Pending::ZoneList, Event::Zones(zones)) => ends(
            step,
            true,
            crate::text::decimal(zones@.len()) + " zone(s)"@,
            Some(ResponseData::Zones(zones)),
        ),
        (Pending::ZoneRemove { name }, Event::Removed(found)) => if found {
            ends(step, true, "Zone '"@ + name@ + "' removed"@, None)
        } else {
            ends(step, false, "Zone '"@ + name@ + "' not found"@, None)
        },
        (Pending::Detect { mode }, Event::Analysed { fingerprints, signature, .. }) => step == (
        Step::Ask {
            action: Action::LoadSignatures,
            pending: Pending::DetectLoad { mode, fingerprints, signature },
        }),
        (Pending::DetectLoad { mode, fingerprints, signature }, Event::Signatures(stored)) => {
            &&& step matches Step::Ask { action, pending: next }
            &&& action matches Action::Compare { query, zones }
            &&& query == signature
            &&& crate::detection::comparable(stored@, signature.vector@.len(), zones@)
            &&& next matches Pending::DetectCompare {
                mode: next_mode,
                fingerprints: kept,
                zones: names,
            }
            &&& next_mode == mode
            &&& kept == fingerprints
            &&& names@ == zones@.map_values(|z: ZoneSignature| z.zone)
        },
        (
            Pending::DetectCompare { mode, fingerprints, zones },
            Event::Compared { similarities, threshold },
        ) => searches(
            mode,
            fingerprints,
            crate::detection::after_signatures(
                None,
                crate::detection::scores_of(zones@, similarities@),
                threshold,
            ),
            step,
        ),
        (Pending::DetectSearch { best }, Event::Found(results)) => match crate::detection::zone_track(
            results@,
        ) {
            Some(track_id) => step == (Step::Ask {
                action: Action::FindZone { track_id },
                pending: Pending::DetectZone { best, confidence: results@[0].confidence },
            }),
            None => reports(best, step),
        },
        (Pending::DetectZone { best, confidence }, Event::Zone(zone)) => reports(
            crate::detection::after_fingerprints(best, confidence, zone),
            step,
        ),
        _ => false,
    }
}

/// An error made of a prefix and a reason.
fn failure(prefix: &str, problem: &String) -> (r: Step)
    ensures
        ends(r, false, prefix@ + problem@, None),
{
    let mut message = prefix.to_owned();
    message.append(problem.as_str());
    Step::Done(DaemonResponse::error(message))
}

/// The answer where audio gives no fingerprints.
fn silence() -> (r: Step)
    ensures
        refuses_silence(r),
{
    Step::Done(DaemonResponse::error("No fingerprints could be extracted from audio".to_owned()))
}

/// The answer to a detection.
fn report(best: Option<Detection>) -> (r: Step)
    ensures
        reports(best, r),
{
    match best {
        Some(d) => {
            let mut message = "Zone detected: ".to_owned();
            message.append(d.zone.as_str());
            Step::Done(DaemonResponse::ok_with_data(message, ResponseData::Detected(d)))
        },
        None => Step::Done(
            DaemonResponse::ok_with_data("No zone detected".to_owned(), ResponseData::NoZone),
        ),
    }
}

/// Goes on with the fingerprints of a detection.
fn search(mode: FrequencyMode, fingerprints: Vec<Fingerprint>, best: Option<Detection>) -> (r: Step)
    ensures
        searches(mode, fingerprints, best, r),
{
    if fingerprints.len() == 0 {
        report(best)
    } else {
        Step::Ask {
            action: Action::Search {
                fingerprints,
                max_results: DETECT_RESULTS,
                sample_rate: mode.sample_rate(),
            },
            pending: Pending::DetectSearch { best },
        }
    }
}

/// Ends or bends a dialogue where a piece of work failed.
fn give_up(pending: Pending, problem: String) -> (r: Step)
    requires
        pending !is DetectCompare,
    ensures
        gives_up(pending, problem@, r),
{
    match pending {
        Pending::Recognize { .. } => failure("Failed to read audio: ", &problem),
        Pending::RecognizeSearch => failure("Search failed: ", &problem),
        Pending::Ingest { .. } => failure("Failed to read audio: ", &problem),
        Pending::IngestStored { .. } => failure("Ingest failed: ", &problem),
        Pending::Remove { .. } => failure("Remove failed: ", &problem),
        Pending::List => failure("List failed: ", &problem),
        Pending::Stats => failure("Stats failed: ", &problem),
        Pending::ZoneAdd { .. } => failure("Failed to process audio: ", &problem),
        Pending::ZoneAddTrack { .. } => failure("Ingest failed: ", &problem),
        Pending::ZoneAddZone { .. } => failure("Failed to create zone: ", &problem),
        Pending::ZoneList => failure("Failed to list zones: ", &problem),
        Pending::ZoneRemove { .. } => failure("Remove failed: ", &problem),
        Pending::Detect { .. } => failure("Failed to read audio: ", &problem),
        Pending::DetectLoad { mode, fingerprints, .. } => search(mode, fingerprints, None),
        Pending::DetectCompare { .. } => vstd::pervasive::unreached(),
        Pending::DetectSearch { best } => report(best),
        Pending::DetectZone { best, .. } => report(best),
    }
}

/// Goes on with a dialogue after an answer.
pub fn advance(pending: Pending, event: Event) -> (r: Step)
    requires
        awaits(pending, event),
    ensures
        goes_on(pending, event, r),
{
    match (pending, event) {
        (pending, Event::Failed(problem)) => give_up(pending, problem),
        (Pending::Recognize { mode }, Event::Fingerprinted { fingerprints, .. }) => {
            if fingerprints.len() == 0 {
                silence()
            } else {
                Step::Ask {
                    action: Action::Search {
                        fingerprints,
                        max_results: RECOGNIZE_RESULTS,
                        sample_rate: mode.sample_rate(),
                    },
                    pending: Pending::RecognizeSearch,
                }
            }
        },
        (Pending::RecognizeSearch, Event::Found(results)) => {
            if results.len() == 0 {
                Step::Done(
                    DaemonResponse::ok_with_data(
                        "No matches found".to_owned(),
                        ResponseData::NoMatches,
                    ),
                )
            } else {
                let mut message = "Found ".to_owned();
                push_decimal(&mut message, results.len() as u64);
                message.append(" match(es)");
                Step::Done(DaemonResponse::ok_with_data(message, ResponseData::Matches(results)))
            }
        },
        (
            Pending::Ingest { path, title, artist, album },
            Event::Fingerprinted { fingerprints, duration_secs },
        ) => {
            if fingerprints.len() == 0 {
                silence()
            } else {
                let fingerprint_count: usize = fingerprints.len();
                Step::Ask {
                    action: Action::InsertTrack {
                        title: title.clone(),
                        artist: artist.clone(),
                        album,
                        duration_secs,
                        file_path: Some(path),
                        fingerprints,
                    },
                    pending: Pending::IngestStored {
                        title,
                        artist,
                        fingerprint_count,
                        duration_secs,
                    },
                }
            }
        },
        (
            Pending::IngestStored { title, artist, fingerprint_count, duration_secs },
            Event::Inserted(track_id),
        ) => {
            let mut message = "Ingested '".to_owned();
            message.append(title.as_str());
            message.append("' by '");
            message.append(artist.as_str());
            message.append("' (");
            push_decimal(&mut message, fingerprint_count as u64);
            message.append(" fingerprints)");
            Step::Done(
                DaemonResponse::ok_with_data(
                    message,
                    ResponseData::Ingested { track_id, fingerprint_count, duration_secs },
                ),
            )
        },
        (Pending::Remove { track_id }, Event::Removed(found)) => {
            if found {
                let mut message = "Removed track ".to_owned();
                push_signed(&mut message, track_id);
                Step::Done(DaemonResponse::ok(message))
            } else {
                let mut message = "Track ".to_owned();
                push_signed(&mut message, track_id);
                message.append(" not found");
                Step::Done(DaemonResponse::error(message))
            }
        },
        (Pending::List, Event::Tracks(tracks)) => {
            let mut message = String::new();
            push_decimal(&mut message, tracks.len() as u64);
            message.append(" track(s) in database");
            Step::Done(DaemonResponse::ok_with_data(message, ResponseData::Tracks(tracks)))
        },
        (Pending::Stats, Event::Stats(stats)) => Step::Done(
            DaemonResponse::ok_with_data(
                "Database statistics".to_owned(),
                ResponseData::Stats(stats),
            ),
        ),
        (
            Pending::ZoneAdd { name, path, mode },
            Event::Analysed { fingerprints, signature, duration_secs },
        ) => {
            if fingerprints.len() == 0 {
                silence()
            } else {
                let fingerprint_count: usize = fingerprints.len();
                Step::Ask {
                    action: Action::InsertTrack {
                        title: name.clone(),
                        artist: "zone".to_owned(),
                        album: None,
                        duration_secs,
                        file_path: path,
                        fingerprints,
                    },
                    pending: Pending::ZoneAddTrack { name, mode, signature, fingerprint_count },
                }
            }
        },
        (
            Pending::ZoneAddTrack { name, mode, signature, fingerprint_count },
            Event::Inserted(track_id),
        ) => {
            let bytes = signature.to_bytes();
            let signature_dim: usize = signature.dim();
            Step::Ask {
                action: Action::InsertZone { name: name.clone(), track_id, mode, signature: bytes },
                pending: Pending::ZoneAddZone {
                    name,
                    mode,
                    track_id,
                    fingerprint_count,
                    signature_dim,
                },
            }
        },
        (
            Pending::ZoneAddZone { name, mode, track_id, fingerprint_count, signature_dim },
            Event::Inserted(zone_id),
        ) => {
            let mut message = "Zone '".to_owned();
            message.append(name.as_str());
            message.append("' registered (");
            push_decimal(&mut message, fingerprint_count as u64);
            message.append(" fingerprints, ");
            push_decimal(&mut message, signature_dim as u64);
            message.append("-dim signature, ");
            message.append(mode.as_str());
            message.append(")");
            Step::Done(
                DaemonResponse::ok_with_data(
                    message,
                    ResponseData::ZoneAdded {
                        zone_id,
                        track_id,
                        fingerprint_count,
                        signature_dim,
                        frequency_mode: mode,
                    },
                ),
            )
        },
        (Pending::ZoneList, Event::Zones(zones)) => {
            let mut message = String::new();
            push_decimal(&mut message, zones.len() as u64);
            message.append(" zone(s)");
            Step::Done(DaemonResponse::ok_with_data(message, ResponseData::Zones(zones)))
        },
        (Pending::ZoneRemove { name }, Event::Removed(found)) => {
            let mut message = "Zone '".to_owned();
            message.append(name.as_str());
            if found {
                message.append("' removed");
                Step::Done(DaemonResponse::ok(message))
            } else {
                message.append("' not found");
                Step::Done(DaemonResponse::error(message))
            }
        },
        (Pending::Detect { mode }, Event::Analysed { fingerprints, signature, .. }) => Step::Ask {
            action: Action::LoadSignatures,
            pending: Pending::DetectLoad { mode, fingerprints, signature },
        },
        (Pending::DetectLoad { mode, fingerprints, signature }, Event::Signatures(stored)) => {
            let zones = comparable_zones(&stored, signature.dim());
            let names = zone_names(&zones);
            Step::Ask {
                action: Action::Compare { query: signature, zones },
                pending: Pending::DetectCompare { mode, fingerprints, zones: names },
            }
        },
        (
            Pending::DetectCompare { mode, fingerprints, zones },
            Event::Compared { similarities, threshold },
        ) => {
            let scores = pair_scores(&zones, &similarities);
            let best = match_signatures(None, &scores, threshold);
            search(mode, fingerprints, best)
        },
        (Pending::DetectSearch { best }, Event::Found(results)) => {
            match track_to_look_up(&results) {
                Some(track_id) => Step::Ask {
                    action: Action::FindZone { track_id },
                    pending: Pending::DetectZone { best, confidence: results[0].confidence },
                },
                None => report(best),
            }
        },
        (Pending::DetectZone { best, confidence }, Event::Zone(zone)) => {
            report(match_fingerprints(best, confidence, &zone))
        },
        _ => vstd::pervasive::unreached(),
    }
}

/// Most answers that a dialogue still waits for.
pub open spec fn rounds(pending: Pending) -> nat {
    match pending {
        Pending::Recognize { .. } => 2,
        Pending::Ingest { .. } => 2,
        Pending::ZoneAdd { .. } => 3,
        Pending::ZoneAddTrack { .. } => 2,
        Pending::Detect { .. } => 5,
        Pending::DetectLoad { .. } => 4,
        Pending::DetectCompare { .. } => 3,
        Pending::DetectSearch { .. } => 2,
        _ => 1,
    }
}

/// Every dialogue ends: with each answer it waits for fewer more, and none
/// waits for more than five.
pub proof fn law_dialogue_ends(
    request: DaemonRequest,
    pending: Pending,
    event: Event,
    first: Step,
    next: Step,
)
    requires
        begins(request, first),
        goes_on(pending, event, next),
    ensures
        first matches Step::Ask { pending: p, .. } ==> rounds(p) <= 5,
        next matches Step::Ask { pending: p, .. } ==> rounds(p) < rounds(pending),
{
}

/// Whatever a piece of work comes out with, the dialogue that asked for it can
/// go on with it.
pub proof fn law_answers_are_awaited(
    request: DaemonRequest,
    pending: Pending,
    event: Event,
    step: Step,
    answer: Event,
)
    requires
        begins(request, step) || goes_on(pending, event, step),
        step matches Step::Ask { action, .. } ==> answers(action, answer),
    ensures
        step matches Step::Ask { pending: p, .. } ==> awaits(p, answer),
{
}

/// An error never carries data.
pub proof fn law_errors_carry_no_data(
    request: DaemonRequest,
    pending: Pending,
    event: Event,
    step: Step,
)
    requires
        begins(request, step) || goes_on(pending, event, step),
    ensures
        step matches Step::Done(r) ==> (!r.success ==> r.data is None),
{
}

/// A track is only ever stored with fingerprints.
pub proof fn law_stored_tracks_have_fingerprints(
    request: DaemonRequest,
    pending: Pending,
    event: Event,
    step: Step,
)
    requires
        begins(request, step) || goes_on(pending, event, step),
    ensures
        step matches Step::Ask { action: Action::InsertTrack { fingerprints, .. }, .. }
            ==> fingerprints@.len() > 0,
{
}

/// Work that fails is answered with an error, except in a detection that has
/// its audio: that one does without.
pub proof fn law_failures_are_reported(pending: Pending, problem: String, step: Step)
    requires
        awaits(pending, Event::Failed(problem)),
        goes_on(pending, Event::Failed(problem), step),
    ensures
        (pending is DetectLoad || pending is DetectSearch || pending is DetectZone) || (
        step matches Step::Done(r) && !r.success),
        step matches Step::Done(r) ==> (r.success ==> pending is DetectLoad
            || pending is DetectSearch || pending is DetectZone),
{
}

/// Recognizing a sound, from the request to the answer: it is read in the mode
/// asked for and, where it gives fingerprints, searched for at that mode's rate;
/// the answer holds what the search found.
pub proof fn law_recognition(
    path: String,
    frequency_mode: Option<String>,
    fingerprints: Vec<Fingerprint>,
    duration_secs: F32Bits,
    results: Vec<MatchResult>,
    asked: Step,
    searched: Step,
    answered: Step,
)
    requires
        begins(DaemonRequest::Recognize { path, frequency_mode }, asked),
        asked matches Step::Ask { pending, .. } ==> goes_on(
            pending,
            Event::Fingerprinted { fingerprints, duration_secs },
            searched,
        ),
        searched matches Step::Ask { pending, .. } ==> goes_on(
            pending,
            Event::Found(results),
            answered,
        ),
    ensures
        asked matches Step::Ask { action, .. } && action == (Action::Fingerprint {
            path,
            mode: track_mode(frequency_mode),
        }),
        fingerprints@.len() == 0 ==> refuses_silence(searched),
        fingerprints@.len() > 0 ==> (searched matches Step::Ask { action, .. } && action == (
        Action::Search {
            fingerprints,
            max_results: RECOGNIZE_RESULTS,
            sample_rate: track_mode(frequency_mode).rate(),
        })),
        fingerprints@.len() > 0 && results@.len() > 0 ==> ends(
            answered,
            true,
            "Found "@ + crate::text::decimal(results@.len()) + " match(es)"@,
            Some(ResponseData::Matches(results)),
        ),
        fingerprints@.len() > 0 && results@.len() == 0 ==> ends(
            answered,
            true,
            "No matches found"@,
            Some(ResponseData::NoMatches),
        ),
{
}

/// Ingesting a track, from the request to the answer: the audio is read in the
/// mode asked for, what is stored is what was asked for, with the fingerprints
/// of the audio, and the answer says so.
pub proof fn law_ingestion(
    path: String,
    title: String,
    artist: String,
    album: Option<String>,
    frequency_mode: Option<String>,
    fingerprints: Vec<Fingerprint>,
    duration_secs: F32Bits,
    track_id: i64,
    asked: Step,
    stored: Step,
    answered: Step,
)
    requires
        begins(DaemonRequest::Ingest { path, title, artist, album, frequency_mode }, asked),
        asked matches Step::Ask { pending, .. } ==> goes_on(
            pending,
            Event::Fingerprinted { fingerprints, duration_secs },
            stored,
        ),
        stored matches Step::Ask { pending, .. } ==> goes_on(
            pending,
            Event::Inserted(track_id),
            answered,
        ),
    ensures
        asked matches Step::Ask { action, .. } && action == (Action::Fingerprint {
            path,
            mode: track_mode(frequency_mode),
        }),
        fingerprints@.len() == 0 ==> refuses_silence(stored),
        fingerprints@.len() > 0 ==> {
            &&& stored matches Step::Ask { action, .. }
            &&& action == (Action::InsertTrack {
                title,
                artist,
                album,
                duration_secs,
                file_path: Some(path),
                fingerprints,
            })
            &&& answered matches Step::Done(r)
            &&& r.success
            &&& r.data == Some(
                ResponseData::Ingested {
                    track_id,
                    fingerprint_count: fingerprints@.len() as usize,
                    duration_secs,
                },
            )
        },
{
}

/// Registering a zone, from the request to the answer: its track is stored
/// under its name, its signature under that track, and the answer names both.
pub proof fn law_zone_registration(
    name: String,
    path: Option<String>,
    frequency_mode: Option<String>,
    record_duration: Option<u64>,
    fingerprints: Vec<Fingerprint>,
    signature: Signature,
    duration_secs: F32Bits,
    track_id: i64,
    zone_id: i64,
    asked: Step,
    track: Step,
    zone: Step,
    answered: Step,
)
    requires
        begins(DaemonRequest::ZoneAdd { name, path, frequency_mode, record_duration }, asked),
        asked matches Step::Ask { pending, .. } ==> goes_on(
            pending,
            Event::Analysed { fingerprints, signature, duration_secs },
            track,
        ),
        track matches Step::Ask { pending, .. } ==> goes_on(
            pending,
            Event::Inserted(track_id),
            zone,
        ),
        zone matches Step::Ask { pending, .. } ==> goes_on(
            pending,
            Event::Inserted(zone_id),
            answered,
        ),
        fingerprints@.len() > 0,
    ensures
        zone matches Step::Ask { action: Action::InsertZone { name: n, track_id: t, .. }, .. } && n
            == name && t == track_id,
        answered matches Step::Done(r) && r.success && r.data == Some(
            ResponseData::ZoneAdded {
                zone_id,
                track_id,
                fingerprint_count: fingerprints@.len() as usize,
                signature_dim: signature.vector@.len() as usize,
                frequency_mode: zone_mode(frequency_mode),
            },
        ),
{
}

/// Detecting a zone, from the request to the answer: it reports the best of
/// the similarities above the threshold and of the top fingerprint match, where
/// that is a zone's.
pub proof fn law_zone_detection(
    path: String,
    frequency_mode: Option<String>,
    fingerprints: Vec<Fingerprint>,
    signature: Signature,
    duration_secs: F32Bits,
    stored: Vec<StoredSignature>,
    similarities: Vec<F64Bits>,
    threshold: F64Bits,
    results: Vec<MatchResult>,
    zone: Option<ZoneInfo>,
    asked: Step,
    loaded: Step,
    compared: Step,
    searched: Step,
    looked_up: Step,
    answered: Step,
)
    requires
        begins(DaemonRequest::ZoneDetect { path, frequency_mode }, asked),
        asked matches Step::Ask { pending, .. } ==> goes_on(
            pending,
            Event::Analysed { fingerprints, signature, duration_secs },
            loaded,
        ),
        loaded matches Step::Ask { pending, .. } ==> goes_on(
            pending,
            Event::Signatures(stored),
            compared,
        ),
        compared matches Step::Ask { pending, .. } ==> goes_on(
            pending,
            Event::Compared { similarities, threshold },
            searched,
        ),
        searched matches Step::Ask { pending, .. } ==> goes_on(
            pending,
            Event::Found(results),
            looked_up,
        ),
        looked_up matches Step::Ask { pending, .. } ==> goes_on(
            pending,
            Event::Zone(zone),
            answered,
        ),
    ensures
        compared matches Step::Ask {
            action: Action::Compare { zones, .. },
            pending: Pending::DetectCompare { zones: names, .. },
        } && crate::detection::comparable(stored@, signature.vector@.len(), zones@) && names@
            == zones@.map_values(|z: ZoneSignature| z.zone) && {
            let best = crate::detection::after_signatures(
                None,
                crate::detection::scores_of(names@, similarities@),
                threshold,
            );
            if fingerprints@.len() == 0 {
                reports(best, searched)
            } else if crate::detection::zone_track(results@) is None {
                reports(best, looked_up)
            } else {
                reports(
                    crate::detection::after_fingerprints(best, results@[0].confidence, zone),
                    answered,
                )
            }
        },
{
}

// ── Requests, from end to end ───────────────────────────────────────

/// The text names the mode.
pub open spec fn goes_by(mode: FrequencyMode, name: Seq<char>) -> bool {
    match mode {
        FrequencyMode::Audible => name == "audible"@,
        FrequencyMode::Ultrasonic => name == "ultrasonic"@,
        FrequencyMode::Full => name == "full"@,
    }
}

/// The mode is the one that the request names, or the usual one where it names
/// none that there is.
pub open spec fn is_asked_for(
    frequency_mode: Option<String>,
    usual: FrequencyMode,
    mode: FrequencyMode,
) -> bool {
    ||| frequency_mode matches Some(name) && goes_by(mode, name@)
    ||| mode == usual && (frequency_mode matches Some(name) ==> name@ != "audible"@ && name@
        != "ultrasonic"@ && name@ != "full"@)
}

/// Samples per second of audio in a mode.
pub open spec fn samples_per_second(mode: FrequencyMode) -> u32 {
    if mode is Audible {
        16000
    } else {
        96000
    }
}

/// Audio is read in the mode that the request names: in audible mode where a
/// request about a track names none, in ultrasonic mode where one about a zone
/// names none.
pub proof fn law_audio_is_read_in_the_mode_asked_for(
    request: DaemonRequest,
    frequency_mode: Option<String>,
    mode: FrequencyMode,
    step: Step,
)
    requires
        begins(request, step),
        match request {
            DaemonRequest::Recognize { frequency_mode: f, .. } => f == frequency_mode
                && is_asked_for(f, FrequencyMode::Audible, mode),
            DaemonRequest::Ingest { frequency_mode: f, .. } => f == frequency_mode && is_asked_for(
                f,
                FrequencyMode::Audible,
                mode,
            ),
            DaemonRequest::ZoneAdd { frequency_mode: f, .. } => f == frequency_mode
                && is_asked_for(f, FrequencyMode::Ultrasonic, mode),
            DaemonRequest::ZoneDetect { frequency_mode: f, .. } => f == frequency_mode
                && is_asked_for(f, FrequencyMode::Ultrasonic, mode),
            _ => false,
        },
    ensures
        step matches Step::Ask { action, .. } && match request {
            DaemonRequest::Recognize { path, .. } => action == (Action::Fingerprint { path, mode }),
            DaemonRequest::Ingest { path, .. } => action == (Action::Fingerprint { path, mode }),
            DaemonRequest::ZoneAdd { path, record_duration, .. } => match (path, record_duration) {
                (Some(p), _) => action == (Action::Analyse {
                    source: Source::File { path: p },
                    mode,
                }),
                (None, Some(seconds)) => action == (Action::Analyse {
                    source: Source::Microphone { seconds },
                    mode,
                }),
                (None, None) => action == (Action::Analyse {
                    source: Source::Microphone { seconds: 10 },
                    mode,
                }),
            },
            DaemonRequest::ZoneDetect { path, .. } => action == (Action::Analyse {
                source: Source::File { path },
                mode,
            }),
            _ => true,
        },
{
    lemma_asked_for(frequency_mode, FrequencyMode::Audible, mode);
    lemma_asked_for(frequency_mode, FrequencyMode::Ultrasonic, mode);
}

proof fn lemma_asked_for(
    frequency_mode: Option<String>,
    usual: FrequencyMode,
    mode: FrequencyMode,
)
    ensures
        is_asked_for(frequency_mode, usual, mode) <==> mode_of(frequency_mode, usual) == mode,
{
    if let Some(name) = frequency_mode {
        FrequencyMode::law_what_the_modes_are_called(name@);
        FrequencyMode::law_what_the_modes_are_called("audible"@);
        FrequencyMode::law_what_the_modes_are_called("ultrasonic"@);
        FrequencyMode::law_what_the_modes_are_called("full"@);
    }
}

/// Recognizing, from end to end: the file's fingerprints are searched for at the
/// rate of the mode asked for, with at most five results, and what is found is
/// what is answered.
pub proof fn law_recognize_end_to_end(
    path: String,
    frequency_mode: Option<String>,
    mode: FrequencyMode,
    fingerprints: Vec<Fingerprint>,
    duration_secs: F32Bits,
    results: Vec<MatchResult>,
    asked: Step,
    searched: Step,
    answered: Step,
)
    requires
        begins(DaemonRequest::Recognize { path, frequency_mode }, asked),
        is_asked_for(frequency_mode, FrequencyMode::Audible, mode),
        asked matches Step::Ask { pending, .. } ==> goes_on(
            pending,
            Event::Fingerprinted { fingerprints, duration_secs },
            searched,
        ),
        searched matches Step::Ask { pending, .. } ==> goes_on(
            pending,
            Event::Found(results),
            answered,
        ),
    ensures
        fingerprints@.len() == 0 ==> (searched matches Step::Done(r) && !r.success
            && r.data is None),
        fingerprints@.len() > 0 ==> {
            &&& searched matches Step::Ask { action, .. }
            &&& action == (Action::Search {
                fingerprints,
                max_results: 5,
                sample_rate: samples_per_second(mode),
            })
            &&& answered matches Step::Done(r)
            &&& r.success
            &&& r.data == Some(
                if results@.len() == 0 {
                    ResponseData::NoMatches
                } else {
                    ResponseData::Matches(results)
                },
            )
        },
{
    lemma_asked_for(frequency_mode, FrequencyMode::Audible, mode);
}

/// Registering a zone, from end to end: where its audio gives fingerprints, a
/// track of its name is stored with them, and the zone with that track's number,
/// the mode asked for and the bytes of its signature; the answer says so.
pub proof fn law_zone_add_end_to_end(
    name: String,
    path: Option<String>,
    frequency_mode: Option<String>,
    record_duration: Option<u64>,
    mode: FrequencyMode,
    fingerprints: Vec<Fingerprint>,
    signature: Signature,
    duration_secs: F32Bits,
    track_id: i64,
    zone_id: i64,
    asked: Step,
    track: Step,
    zone: Step,
    answered: Step,
)
    requires
        begins(DaemonRequest::ZoneAdd { name, path, frequency_mode, record_duration }, asked),
        is_asked_for(frequency_mode, FrequencyMode::Ultrasonic, mode),
        asked matches Step::Ask { pending, .. } ==> goes_on(
            pending,
            Event::Analysed { fingerprints, signature, duration_secs },
            track,
        ),
        track matches Step::Ask { pending, .. } ==> goes_on(
            pending,
            Event::Inserted(track_id),
            zone,
        ),
        zone matches Step::Ask { pending, .. } ==> goes_on(
            pending,
            Event::Inserted(zone_id),
            answered,
        ),
    ensures
        fingerprints@.len() == 0 ==> (track matches Step::Done(r) && !r.success && r.data is None),
        fingerprints@.len() > 0 ==> {
            &&& track matches Step::Ask {
                action: Action::InsertTrack {
                    title,
                    artist,
                    album,
                    duration_secs: duration,
                    file_path,
                    fingerprints: stored,
                },
                ..
            }
            &&& title == name
            &&& artist@ == "zone"@
            &&& album is None
            &&& duration == duration_secs
            &&& file_path == path
            &&& stored == fingerprints
            &&& zone matches Step::Ask {
                action: Action::InsertZone { name: n, track_id: t, mode: m, signature: bytes },
                ..
            }
            &&& n == name
            &&& t == track_id
            &&& m == mode
            &&& bytes@.len() == 4 * signature.vector@.len()
            &&& forall|i: int|
                #![trigger signature.vector@[i]]
                0 <= i < signature.vector@.len() ==> bytes@[4 * i] + 0x100 * bytes@[4 * i + 1]
                    + 0x1_0000 * bytes@[4 * i + 2] + 0x100_0000 * bytes@[4 * i + 3]
                    == signature.vector@[i].bits
            &&& answered matches Step::Done(r)
            &&& r.success
            &&& r.data == Some(
                ResponseData::ZoneAdded {
                    zone_id,
                    track_id,
                    fingerprint_count: fingerprints@.len() as usize,
                    signature_dim: signature.vector@.len() as usize,
                    frequency_mode: mode,
                },
            )
        },
{
    lemma_asked_for(frequency_mode, FrequencyMode::Ultrasonic, mode);
    crate::signature::law_stored_vector_reads_back(signature.vector@);
}

/// Detecting a zone, from end to end: the query is compared with exactly the
/// stored signatures of its dimension; its fingerprints, where it has any, are
/// searched for at the rate of the mode asked for, with at most three results,
/// and the zone of the top one is looked up where it is confident enough; the
/// best of all that is what is answered.
pub proof fn law_zone_detect_end_to_end(
    path: String,
    frequency_mode: Option<String>,
    mode: FrequencyMode,
    fingerprints: Vec<Fingerprint>,
    signature: Signature,
    duration_secs: F32Bits,
    stored: Vec<StoredSignature>,
    similarities: Vec<F64Bits>,
    threshold: F64Bits,
    results: Vec<MatchResult>,
    zone: Option<ZoneInfo>,
    asked: Step,
    loaded: Step,
    compared: Step,
    searched: Step,
    looked_up: Step,
    answered: Step,
)
    requires
        begins(DaemonRequest::ZoneDetect { path, frequency_mode }, asked),
        is_asked_for(frequency_mode, FrequencyMode::Ultrasonic, mode),
        asked matches Step::Ask { pending, .. } ==> goes_on(
            pending,
            Event::Analysed { fingerprints, signature, duration_secs },
            loaded,
        ),
        loaded matches Step::Ask { pending, .. } ==> goes_on(
            pending,
            Event::Signatures(stored),
            compared,
        ),
        compared matches Step::Ask { action, pending } ==> answers(
            action,
            Event::Compared { similarities, threshold },
        ) && goes_on(pending, Event::Compared { similarities, threshold }, searched),
        searched matches Step::Ask { pending, .. } ==> goes_on(
            pending,
            Event::Found(results),
            looked_up,
        ),
        looked_up matches Step::Ask { pending, .. } ==> goes_on(
            pending,
            Event::Zone(zone),
            answered,
        ),
    ensures
        loaded matches Step::Ask { action, .. } && action is LoadSignatures,
        compared matches Step::Ask { action: Action::Compare { query, zones }, .. } && {
            let names = zones@.map_values(|z: ZoneSignature| z.zone);
            let none = Seq::<MatchResult>::empty();
            &&& query == signature
            &&& exists|places: Seq<int>| #[trigger]
                crate::detection::compared_at(
                    stored@,
                    signature.vector@.len(),
                    zones@,
                    places,
                )
            &&& fingerprints@.len() == 0 ==> answers_with_the_best(
                names,
                similarities@,
                threshold,
                none,
                None,
                searched,
            )
            &&& fingerprints@.len() > 0 ==> {
                &&& searched matches Step::Ask { action, .. }
                &&& action == (Action::Search {
                    fingerprints,
                    max_results: 3,
                    sample_rate: samples_per_second(mode),
                })
                &&& if results@.len() > 0 && results@[0].confidence.reaches(
                    F64Bits { bits: 0x3fa9_9999_9999_999a },
                ) {
                    &&& looked_up matches Step::Ask { action, .. }
                    &&& action == (Action::FindZone { track_id: results@[0].track.id })
                    &&& answers_with_the_best(
                        names,
                        similarities@,
                        threshold,
                        results@,
                        zone,
                        answered,
                    )
                } else {
                    answers_with_the_best(names, similarities@, threshold, none, None, looked_up)
                }
            }
        },
{
    lemma_asked_for(frequency_mode, FrequencyMode::Ultrasonic, mode);
    if let Step::Ask { action: Action::Compare { zones, .. }, .. } = compared {
        let names = zones@.map_values(|z: ZoneSignature| z.zone);
        let none = Seq::<MatchResult>::empty();
        let places = crate::detection::law_all_of_the_dimension_are_compared(
            stored@,
            signature.vector@.len(),
            zones@,
        );
        assert(crate::detection::compared_at(stored@, signature.vector@.len(), zones@, places));
        crate::detection::law_daemon_reports_the_best(
            names,
            similarities@,
            threshold,
            results@,
            zone,
        );
        crate::detection::law_daemon_reports_the_best(
            names,
            similarities@,
            threshold,
            none,
            None,
        );
    }
}

/// The dialogue is over, and answers with the best detection, or with none.
pub open spec fn answers_with_the_best(
    names: Seq<String>,
    similarities: Seq<F64Bits>,
    threshold: F64Bits,
    results: Seq<MatchResult>,
    zone: Option<ZoneInfo>,
    step: Step,
) -> bool {
    &&& step matches Step::Done(r)
    &&& r.success
    &&& match r.data {
        Some(ResponseData::Detected(d)) => crate::detection::is_best_detection(
            names,
            similarities,
            threshold,
            results,
            zone,
            Some(d),
        ),
        Some(ResponseData::NoZone) => crate::detection::is_best_detection(
            names,
            similarities,
            threshold,
            results,
            zone,
            None,
        ),
        _ => false,
    }
}

/// Listing and counting, from end to end: the daemon answers with what the
/// database holds.
pub proof fn law_questions_end_to_end(
    tracks: Vec<TrackInfo>,
    stats: DbStats,
    zones: Vec<ZoneInfo>,
    list: Step,
    listed: Step,
    count: Step,
    counted: Step,
    zone_list: Step,
    zones_listed: Step,
)
    requires
        begins(DaemonRequest::List, list),
        list matches Step::Ask { pending, .. } ==> goes_on(pending, Event::Tracks(tracks), listed),
        begins(DaemonRequest::Stats, count),
        count matches Step::Ask { pending, .. } ==> goes_on(pending, Event::Stats(stats), counted),
        begins(DaemonRequest::ZoneList, zone_list),
        zone_list matches Step::Ask { pending, .. } ==> goes_on(
            pending,
            Event::Zones(zones),
            zones_listed,
        ),
    ensures
        list matches Step::Ask { action, .. } && action is ListTracks,
        listed matches Step::Done(r) && r.success && r.data == Some(ResponseData::Tracks(tracks)),
        count matches Step::Ask { action, .. } && action is GetStats,
        counted matches Step::Done(r) && r.success && r.data == Some(ResponseData::Stats(stats)),
        zone_list matches Step::Ask { action, .. } && action is ListZones,
        zones_listed matches Step::Done(r) && r.success && r.data == Some(
            ResponseData::Zones(zones),
        ),
{
}

/// Removing, from end to end: exactly the track or zone asked for is removed,
/// and the answer is a success exactly where there was one.
pub proof fn law_removals_end_to_end(
    track_id: i64,
    name: String,
    found: bool,
    track: Step,
    track_removed: Step,
    zone: Step,
    zone_removed: Step,
)
    requires
        begins(DaemonRequest::Remove { track_id }, track),
        track matches Step::Ask { pending, .. } ==> goes_on(
            pending,
            Event::Removed(found),
            track_removed,
        ),
        begins(DaemonRequest::ZoneRemove { name }, zone),
        zone matches Step::Ask { pending, .. } ==> goes_on(
            pending,
            Event::Removed(found),
            zone_removed,
        ),
    ensures
        track matches Step::Ask { action, .. } && action == (Action::RemoveTrack { track_id }),
        track_removed matches Step::Done(r) && r.success == found && r.data is None,
        zone matches Step::Ask { action, .. } && action == (Action::RemoveZone { name }),
        zone_removed matches Step::Done(r) && r.success == found && r.data is None,
{
}

/// A ping, a subscription and a request to shut down are answered at once, each
/// with a success.
pub proof fn law_answered_at_once(request: DaemonRequest, step: Step)
    requires
        begins(request, step),
    ensures
        step is Done <==> request is Ping || request is Shutdown || request is MonitorSubscribe,
        step matches Step::Done(r) ==> r.success && r.data is None,
        request is Ping ==> (step matches Step::Done(r) && r.message@ == "pong"@),
        request is Shutdown ==> (step matches Step::Done(r) && r.message@ == "Shutting down..."@),
        request is MonitorSubscribe ==> (step matches Step::Done(r) && r.message@
            == "Monitor mode — events will stream on this connection"@),
{
}

/// A detection that cannot have the stored signatures goes on with the
/// fingerprints alone, and one whose search or look-up fails reports what the
/// signatures gave.
pub proof fn law_detection_does_without(
    mode: FrequencyMode,
    fingerprints: Vec<Fingerprint>,
    signature: Signature,
    best: Option<Detection>,
    confidence: F64Bits,
    problem: String,
    loaded: Step,
    searched: Step,
    looked_up: Step,
)
    requires
        goes_on(
            Pending::DetectLoad { mode, fingerprints, signature },
            Event::Failed(problem),
            loaded,
        ),
        goes_on(Pending::DetectSearch { best }, Event::Failed(problem), searched),
        goes_on(Pending::DetectZone { best, confidence }, Event::Failed(problem), looked_up),
    ensures
        fingerprints@.len() > 0 ==> (loaded matches Step::Ask { action, pending } && action == (
        Action::Search { fingerprints, max_results: 3, sample_rate: samples_per_second(mode) })
            && pending == (Pending::DetectSearch { best: None })),
        fingerprints@.len() == 0 ==> (loaded matches Step::Done(r) && r.success && r.data == Some(
            ResponseData::NoZone,
        )),
        searched matches Step::Done(r) && r.success && r.data == Some(
            match best {
                Some(d) => ResponseData::Detected(d),
                None => ResponseData::NoZone,
            },
        ),
        looked_up matches Step::Done(r) && r.success && r.data == Some(
            match best {
                Some(d) => ResponseData::Detected(d),
                None => ResponseData::NoZone,
            },
        ),
{
}

/// What goes wrong is told: the message of an answer to work that failed ends
/// with the reason.
pub proof fn law_reasons_are_told(pending: Pending, problem: String, step: Step)
    requires
        goes_on(pending, Event::Failed(problem), step),
    ensures
        step matches Step::Done(r) ==> (!r.success ==> exists|prefix: Seq<char>|
            prefix.len() > 0 && r.message@ == #[trigger] (prefix + problem@)),
{
    reveal_strlit("Failed to read audio: ");
    reveal_strlit("Search failed: ");
    reveal_strlit("Ingest failed: ");
    reveal_strlit("Remove failed: ");
    reveal_strlit("List failed: ");
    reveal_strlit("Stats failed: ");
    reveal_strlit("Failed to process audio: ");
    reveal_strlit("Failed to create zone: ");
    reveal_strlit("Failed to list zones: ");
    if let Step::Done(r) = step {
        let told = problem@;
        assert(!r.success ==> r.message@ == "Failed to read audio: "@ + told || r.message@
            == "Search failed: "@ + told || r.message@ == "Ingest failed: "@ + told || r.message@
            == "Remove failed: "@ + told || r.message@ == "List failed: "@ + told || r.message@
            == "Stats failed: "@ + told || r.message@ == "Failed to process audio: "@ + told
            || r.message@ == "Failed to create zone: "@ + told || r.message@
            == "Failed to list zones: "@ + told);
    }
}

// ── What comes of work ──────────────────────────────────────────────

/// The event is an outcome of the work: what the work was to give, or, of work
/// that can fail, its failure.
pub open spec fn is_outcome_of(action: Action, event: Event) -> bool {
    match action {
        Action::Fingerprint { .. } => event is Fingerprinted || event is Failed,
        Action::Analyse { .. } => event is Analysed || event is Failed,
        Action::Search { .. } => event is Found || event is Failed,
        Action::InsertTrack { .. } => event is Inserted || event is Failed,
        Action::InsertZone { .. } => event is Inserted || event is Failed,
        Action::RemoveTrack { .. } => event is Removed || event is Failed,
        Action::RemoveZone { .. } => event is Removed || event is Failed,
        Action::ListTracks => event is Tracks || event is Failed,
        Action::GetStats => event is Stats || event is Failed,
        Action::ListZones => event is Zones || event is Failed,
        Action::LoadSignatures => event is Signatures || event is Failed,
        Action::Compare { zones, .. } => event matches Event::Compared { similarities, .. }
            && similarities@.len() == zones@.len(),
        Action::FindZone { .. } => event is Zone || event is Failed,
    }
}

/// A dialogue waits for the outcome of the work that it asked for, and for
/// nothing else.
pub proof fn law_work_is_awaited(
    request: DaemonRequest,
    before: Pending,
    answer: Event,
    step: Step,
    event: Event,
)
    requires
        begins(request, step) || goes_on(before, answer, step),
    ensures
        step matches Step::Ask { action, pending } ==> (awaits(pending, event) <==> is_outcome_of(
            action,
            event,
        )),
{
}

/// Each failure is told with what failed, and ends the dialogue; only a
/// detection goes on without what it could not have.
pub proof fn law_failures_name_what_failed(pending: Pending, problem: String, step: Step)
    requires
        awaits(pending, Event::Failed(problem)),
        goes_on(pending, Event::Failed(problem), step),
    ensures
        pending !is DetectLoad && pending !is DetectSearch && pending !is DetectZone ==> (
        step matches Step::Done(r) && !r.success && r.data is None && r.message@ == (match pending {
            Pending::Recognize { .. } => "Failed to read audio: "@,
            Pending::Ingest { .. } => "Failed to read audio: "@,
            Pending::Detect { .. } => "Failed to read audio: "@,
            Pending::ZoneAdd { .. } => "Failed to process audio: "@,
            Pending::RecognizeSearch => "Search failed: "@,
            Pending::IngestStored { .. } => "Ingest failed: "@,
            Pending::ZoneAddTrack { .. } => "Ingest failed: "@,
            Pending::ZoneAddZone { .. } => "Failed to create zone: "@,
            Pending::Remove { .. } => "Remove failed: "@,
            Pending::ZoneRemove { .. } => "Remove failed: "@,
            Pending::List => "List failed: "@,
            Pending::ZoneList => "Failed to list zones: "@,
            _ => "Stats failed: "@,
        }) + problem@),
{
}

/// Audio that gives no fingerprints cannot be recognised, ingested or made a
/// zone of: the answer says so.
pub proof fn law_silence_is_refused(pending: Pending, event: Event, step: Step)
    requires
        pending is Recognize || pending is Ingest || pending is ZoneAdd,
        match event {
            Event::Fingerprinted { fingerprints, .. } => fingerprints@.len() == 0,
            Event::Analysed { fingerprints, .. } => fingerprints@.len() == 0,
            _ => false,
        },
        goes_on(pending, event, step),
    ensures
        step matches Step::Done(r) && !r.success && r.data is None && r.message@
            == "No fingerprints could be extracted from audio"@,
{
}

/// A detection that is over says what it found in words too.
pub proof fn law_detection_is_told(pending: Pending, event: Event, step: Step)
    requires
        goes_on(pending, event, step),
    ensures
        step matches Step::Done(r) ==> (r.data matches Some(ResponseData::Detected(d)) ==> r.success
            && r.message@ == "Zone detected: "@ + d.zone@),
        step matches Step::Done(r) ==> (r.data matches Some(ResponseData::NoZone) ==> r.success
            && r.message@ == "No zone detected"@),
{
}

} // verus!
