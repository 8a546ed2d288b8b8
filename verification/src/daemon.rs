//! The daemon's files, its requests and its responses.

use crate::audio::FrequencyMode;
use crate::database::{DbStats, MatchResult, TrackInfo, ZoneInfo};
use crate::detection::Detection;
use crate::ieee::F32Bits;
use crate::text::trim;
use vstd::prelude::*;
use vstd::string::*;

verus! {

/// Default daemon port.
pub const DEFAULT_PORT: u16 = 18923;

// ── Paths ───────────────────────────────────────────────────────────

/// `name` below the directory `base`.
pub open spec fn joined(base: Seq<char>, name: Seq<char>) -> Seq<char> {
    if base.len() == 0 || base.last() == '/' {
        base + name
    } else {
        base.push('/') + name
    }
}

/// The directory of the daemon's files.
pub open spec fn files_dir(home: Option<Seq<char>>) -> Seq<char> {
    joined(
        match home {
            Some(h) => h,
            None => "/tmp"@,
        },
        ".beacond"@,
    )
}

/// Appends a name to a directory.
fn join(base: &str, name: &str) -> (r: String)
    ensures
        r@ == joined(base@, name@),
{
    let mut path = base.to_owned();
    let n: usize = base.unicode_len();
    if n > 0 && base.get_char(n - 1) != '/' {
        path.push('/');
    }
    path.append(name);
    path
}

/// Default socket/config directory: below the home directory, or below `/tmp`
/// where there is none.
pub fn dirs_or_default(home: Option<&str>) -> (r: String)
    ensures
        r@ == files_dir(match home {
            Some(h) => Some(h@),
            None => None,
        }),
{
    match home {
        Some(h) => join(h, ".beacond"),
        None => join("/tmp", ".beacond"),
    }
}

/// Default database path.
pub fn default_db_path(home: Option<&str>) -> (r: String)
    ensures
        r@ == joined(
            files_dir(match home {
                Some(h) => Some(h@),
                None => None,
            }),
            "beacond.db"@,
        ),
{
    join(dirs_or_default(home).as_str(), "beacond.db")
}

/// Default PID file path.
pub fn pid_file_path(home: Option<&str>) -> (r: String)
    ensures
        r@ == joined(
            files_dir(match home {
                Some(h) => Some(h@),
                None => None,
            }),
            "beacond.pid"@,
        ),
{
    join(dirs_or_default(home).as_str(), "beacond.pid")
}

// ── Protocol ────────────────────────────────────────────────────────

/// Request types the daemon understands.
#[derive(Debug)]
pub enum DaemonRequest {
    /// Recognize audio from a WAV file path, read in the mode named.
    Recognize { path: String, frequency_mode: Option<String> },
    /// Ingest a new track into the database, read in the mode named.
    Ingest {
        path: String,
        title: String,
        artist: String,
        album: Option<String>,
        frequency_mode: Option<String>,
    },
    /// Remove a track from the database.
    Remove { track_id: i64 },
    /// List all tracks.
    List,
    /// Get database stats.
    Stats,
    /// Shutdown the daemon.
    Shutdown,
    /// Ping to check if daemon is alive.
    Ping,
    /// Register a named zone from a beacon WAV or mic recording.
    ZoneAdd {
        name: String,
        path: Option<String>,
        frequency_mode: Option<String>,
        record_duration: Option<u64>,
    },
    /// List all registered zones.
    ZoneList,
    /// Remove a zone and its beacon fingerprints.
    ZoneRemove { name: String },
    /// Detect which zone a WAV clip belongs to.
    ZoneDetect { path: String, frequency_mode: Option<String> },
    /// Subscribe to live zone transition events.
    MonitorSubscribe,
}

/// The data that a response carries.
#[derive(Debug)]
pub enum ResponseData {
    /// No track matched.
    NoMatches,
    /// The tracks that matched.
    Matches(Vec<MatchResult>),
    /// A track was stored.
    Ingested { track_id: i64, fingerprint_count: usize, duration_secs: F32Bits },
    /// All tracks.
    Tracks(Vec<TrackInfo>),
    /// Database statistics.
    Stats(DbStats),
    /// A zone was registered.
    ZoneAdded {
        zone_id: i64,
        track_id: i64,
        fingerprint_count: usize,
        signature_dim: usize,
        frequency_mode: FrequencyMode,
    },
    /// All zones.
    Zones(Vec<ZoneInfo>),
    /// A zone was detected.
    Detected(Detection),
    /// No zone was detected.
    NoZone,
}

/// Response from the daemon.
#[derive(Debug)]
pub struct DaemonResponse {
    pub success: bool,
    pub message: String,
    pub data: Option<ResponseData>,
}

impl DaemonResponse {
    /// A successful response.
    pub fn ok(message: String) -> (r: DaemonResponse)
        ensures
            r == (DaemonResponse { success: true, message, data: None }),
    {
        DaemonResponse { success: true, message, data: None }
    }

    /// A successful response with data.
    pub fn ok_with_data(message: String, data: ResponseData) -> (r: DaemonResponse)
        ensures
            r == (DaemonResponse { success: true, message, data: Some(data) }),
    {
        DaemonResponse { success: true, message, data: Some(data) }
    }

    /// A failure.
    pub fn error(message: String) -> (r: DaemonResponse)
        ensures
            r == (DaemonResponse { success: false, message, data: None }),
    {
        DaemonResponse { success: false, message, data: None }
    }
}

/// What a connection does once a request has been answered.
#[derive(Debug, Clone, Copy, PartialEq, Eq, Structural)]
pub enum FollowUp {
    /// Read the next request.
    ReadOn,
    /// Stream zone events until the client disconnects.
    StreamEvents,
    /// Shut the daemon down.
    ShutDown,
}

/// What follows the answer to a request.
pub open spec fn follow_up_of(request: DaemonRequest) -> FollowUp {
    match request {
        DaemonRequest::MonitorSubscribe => FollowUp::StreamEvents,
        DaemonRequest::Shutdown => FollowUp::ShutDown,
        _ => FollowUp::ReadOn,
    }
}

/// What to do after the answer to a request.
pub fn follow_up(request: &DaemonRequest) -> (r: FollowUp)
    ensures
        r == follow_up_of(*request),
{
    match request {
        DaemonRequest::MonitorSubscribe => FollowUp::StreamEvents,
        DaemonRequest::Shutdown => FollowUp::ShutDown,
        _ => FollowUp::ReadOn,
    }
}

/// The request on a line; a blank line holds none.
pub fn request_on_line(line: &str) -> (r: Option<&str>)
    ensures
        r is None <==> crate::text::trimmed(line@).len() == 0,
        r matches Some(text) ==> text@ == crate::text::trimmed(line@),
{
    let trimmed = trim(line);
    if trimmed.unicode_len() == 0 {
        None
    } else {
        Some(trimmed)
    }
}

/// The response to a line that is not a request.
pub fn invalid_request(problem: &str) -> (r: DaemonResponse)
    ensures
        !r.success,
        r.message@ == "Invalid request: "@ + problem@,
        r.data is None,
{
    let mut message = "Invalid request: ".to_owned();
    message.append(problem);
    DaemonResponse::error(message)
}

/// A file stands in its directory: its path is the directory's, one slash, and
/// its name.
pub proof fn law_file_stands_in_its_directory(base: Seq<char>, name: Seq<char>)
    ensures
        base.len() > 0 && base.last() != '/' ==> joined(base, name) == base + seq!['/'] + name,
        base.len() > 0 && base.last() == '/' ==> joined(base, name) == base + name,
        joined(Seq::empty(), name) == name,
        files_dir(None) == joined("/tmp"@, ".beacond"@),
        files_dir(Some(base)) == joined(base, ".beacond"@),
{
    assert(base.push('/') + name =~= base + seq!['/'] + name);
    assert(joined(Seq::empty(), name) =~= name);
}

} // verus!
