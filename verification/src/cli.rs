//! The command line: commands, what they ask of the daemon, and how results
//! are laid out.

use crate::audio::FrequencyMode;
use crate::daemon::DaemonRequest;
use crate::database::{copy_text, DbStats, MatchResult};
use crate::dialogue::Source;
use crate::fingerprint::Fingerprint;
use crate::ieee::F64Bits;
use crate::signature::Signature;
use crate::text::{chars_of, same_text};
use vstd::prelude::*;
use vstd::string::*;

verus! {

/// The command line.
#[derive(Debug)]
pub struct Cli {
    pub command: Command,
    /// Daemon port
    pub port: u16,
    /// Bind address
    pub bind: String,
    /// Database path (for direct mode)
    pub db: Option<String>,
    /// Verbose logging
    pub verbose: bool,
    /// Path to an ONNX audio embedding model
    pub model_path: Option<String>,
}

/// A command.
#[derive(Debug)]
pub enum Command {
    /// Start the beacon daemon
    Daemon { foreground: bool, monitor: bool },
    /// Ingest a WAV file into the fingerprint database
    Ingest {
        path: String,
        title: Option<String>,
        artist: String,
        album: Option<String>,
        audible: bool,
        full_spectrum: bool,
    },
    /// Ingest all WAV files in a directory
    IngestDir { path: String, artist: String, audible: bool, full_spectrum: bool },
    /// Recognize a WAV audio clip
    Recognize { path: String, audible: bool, full_spectrum: bool },
    /// Listen via microphone and recognize what's playing
    Listen { duration: u64, save: Option<String>, audible: bool, full_spectrum: bool },
    /// List available audio input devices
    Devices,
    /// List all tracks in the database
    List,
    /// Remove a track from the database
    Remove { track_id: i64 },
    /// Show database statistics
    Stats,
    /// Check if daemon is running
    Status,
    /// Stop the daemon
    Stop,
    /// Run a self-test / demo
    Demo,
    /// Manage named zones for spatial awareness
    Zone { command: ZoneCommand },
    /// Subscribe to live zone transition events from the daemon
    Monitor,
    /// Launch real-time spectrogram visualizer in the browser
    Spectrogram { viz_port: u16 },
}

/// A command about zones.
#[derive(Debug)]
pub enum ZoneCommand {
    /// Register a zone from a WAV file or by recording ambient audio
    Add {
        name: String,
        path: Option<String>,
        record: bool,
        duration: u64,
        audible: bool,
        full_spectrum: bool,
    },
    /// List all registered zones
    List,
    /// Remove a zone and its fingerprints
    Remove { name: String },
    /// Listen via microphone and detect which zone you're in
    Detect { duration: u64, audible: bool, full_spectrum: bool },
}

impl Cli {
    /// The database path: the one given, or the default one.
    pub fn db_path(&self, home: Option<&str>) -> (r: String)
        ensures
            match self.db {
                Some(path) => r == path,
                None => r@ == crate::daemon::joined(
                    crate::daemon::files_dir(
                        match home {
                            Some(h) => Some(h@),
                            None => None,
                        },
                    ),
                    "beacond.db"@,
                ),
            },
    {
        match &self.db {
            Some(path) => path.clone(),
            None => crate::daemon::default_db_path(home),
        }
    }

    /// The default log level.
    pub fn log_level(&self) -> (r: &'static str)
        ensures
            r@ == (if self.verbose {
                "debug"@
            } else {
                "info"@
            }),
    {
        if self.verbose {
            "debug"
        } else {
            "info"
        }
    }
}

/// The frequency mode that CLI flags select, ultrasonic without any.
pub open spec fn selected_mode(audible: bool, full_spectrum: bool) -> FrequencyMode {
    if audible {
        FrequencyMode::Audible
    } else if full_spectrum {
        FrequencyMode::Full
    } else {
        FrequencyMode::Ultrasonic
    }
}

/// Resolve frequency mode from CLI flags.
/// Default is ultrasonic. Use --audible for standard audio range.
pub fn resolve_mode(audible: bool, full_spectrum: bool) -> (r: FrequencyMode)
    ensures
        r == selected_mode(audible, full_spectrum),
{
    if audible {
        FrequencyMode::Audible
    } else if full_spectrum {
        FrequencyMode::Full
    } else {
        FrequencyMode::Ultrasonic
    }
}

/// The title of a track: the one given, else the stem of its file name, else "Unknown".
pub fn track_title(title: &Option<String>, file_stem: Option<&str>) -> (r: String)
    ensures
        r@ == (match (*title, file_stem) {
            (Some(t), _) => t@,
            (None, Some(stem)) => stem@,
            (None, None) => "Unknown"@,
        }),
{
    match (title, file_stem) {
        (Some(t), _) => t.clone(),
        (None, Some(stem)) => stem.to_owned(),
        (None, None) => "Unknown".to_owned(),
    }
}

/// A letter in lower case; only ASCII letters change.
pub open spec fn ascii_lower(c: char) -> char {
    if 'A' <= c <= 'Z' {
        (c as u8 + 32) as u8 as char
    } else {
        c
    }
}

/// Whether a file extension is that of a WAV file, in either case.
pub fn is_wav(extension: Option<&str>) -> (r: bool)
    ensures
        r <==> (extension matches Some(ext) && ext@.map_values(|c: char| ascii_lower(c)) == seq![
            'w',
            'a',
            'v',
        ]),
{
    match extension {
        Some(ext) => {
            let chars = chars_of(ext);
            let ghost lower = ext@.map_values(|c: char| ascii_lower(c));
            if chars.len() != 3 {
                assert(lower.len() != 3);
                return false;
            }
            let r = (chars[0] == 'w' || chars[0] == 'W') && (chars[1] == 'a' || chars[1] == 'A')
                && (chars[2] == 'v' || chars[2] == 'V');
            proof {
                assert(lower[0] == ascii_lower(ext@[0]));
                assert(lower[1] == ascii_lower(ext@[1]));
                assert(lower[2] == ascii_lower(ext@[2]));
                assert(r ==> lower =~= seq!['w', 'a', 'v']);
            }
            r
        },
        None => false,
    }
}

/// A request names the mode.
pub open spec fn names_mode(frequency_mode: Option<String>, mode: FrequencyMode) -> bool {
    frequency_mode matches Some(name) && name@ == mode.name()
}

/// The request that a command makes of a running daemon. The mode that the
/// command's flags select goes with it.
pub open spec fn asks(command: Command, file_stem: Option<Seq<char>>, request: Option<
    DaemonRequest,
>) -> bool {
    match command {
        Command::Ingest { path, title, artist, album, audible, full_spectrum } => {
            &&& request matches Some(DaemonRequest::Ingest {
                path: p,
                title: t,
                artist: a,
                album: al,
                frequency_mode,
            })
            &&& names_mode(frequency_mode, selected_mode(audible, full_spectrum))
            &&& p == path
            &&& a == artist
            &&& al == album
            &&& t@ == (match (title, file_stem) {
                (Some(given), _) => given@,
                (None, Some(stem)) => stem,
                (None, None) => "Unknown"@,
            })
        },
        Command::Recognize { path, audible, full_spectrum } => {
            &&& request matches Some(DaemonRequest::Recognize { path: p, frequency_mode })
            &&& p == path
            &&& names_mode(frequency_mode, selected_mode(audible, full_spectrum))
        },
        Command::List => request == Some(DaemonRequest::List),
        Command::Remove { track_id } => request == Some(DaemonRequest::Remove { track_id }),
        Command::Stats => request == Some(DaemonRequest::Stats),
        Command::Stop => request == Some(DaemonRequest::Shutdown),
        Command::Monitor => request == Some(DaemonRequest::MonitorSubscribe),
        _ => request is None,
    }
}

/// The request that a command makes of a running daemon, where it makes one.
pub fn daemon_request(command: &Command, file_stem: Option<&str>) -> (r: Option<DaemonRequest>)
    ensures
        asks(
            *command,
            match file_stem {
                Some(stem) => Some(stem@),
                None => None,
            },
            r,
        ),
{
    match command {
        Command::Ingest { path, title, artist, album, audible, full_spectrum } => Some(
            DaemonRequest::Ingest {
                path: path.clone(),
                title: track_title(title, file_stem),
                artist: artist.clone(),
                album: copy_text(album),
                frequency_mode: Some(resolve_mode(*audible, *full_spectrum).as_str().to_owned()),
            },
        ),
        Command::Recognize { path, audible, full_spectrum } => Some(
            DaemonRequest::Recognize {
                path: path.clone(),
                frequency_mode: Some(resolve_mode(*audible, *full_spectrum).as_str().to_owned()),
            },
        ),
        Command::List => Some(DaemonRequest::List),
        Command::Remove { track_id } => Some(DaemonRequest::Remove { track_id: *track_id }),
        Command::Stats => Some(DaemonRequest::Stats),
        Command::Stop => Some(DaemonRequest::Shutdown),
        Command::Monitor => Some(DaemonRequest::MonitorSubscribe),
        _ => None,
    }
}

/// Most results of a search in the demo.
pub const DEMO_RESULTS: usize = 3;

/// Who carries out a command.
#[derive(Debug)]
pub enum Dispatch {
    /// The running daemon.
    Daemon(DaemonRequest),
    /// The running daemon, by one request for each file of the directory: the
    /// one that `file_request` gives for this artist and mode.
    DaemonPerFile { artist: String, mode: FrequencyMode },
    /// This process.
    Direct,
}

/// The command looks for a running daemon first.
pub open spec fn tries_daemon(command: Command) -> bool {
    match command {
        Command::Ingest { .. } => true,
        Command::IngestDir { .. } => true,
        Command::Recognize { .. } => true,
        Command::List => true,
        Command::Remove { .. } => true,
        Command::Stats => true,
        Command::Status => true,
        Command::Stop => true,
        _ => false,
    }
}

/// Whether a command looks for a running daemon first.
pub fn looks_for_daemon(command: &Command) -> (r: bool)
    ensures
        r == tries_daemon(*command),
{
    match command {
        Command::Ingest { .. } => true,
        Command::IngestDir { .. } => true,
        Command::Recognize { .. } => true,
        Command::List => true,
        Command::Remove { .. } => true,
        Command::Stats => true,
        Command::Status => true,
        Command::Stop => true,
        _ => false,
    }
}

/// The request that hands a file of a directory to a running daemon: it is
/// ingested under the stem of its name, on no album.
pub open spec fn asks_for_file(
    path: Seq<char>,
    file_stem: Option<Seq<char>>,
    artist: Seq<char>,
    mode: FrequencyMode,
    request: DaemonRequest,
) -> bool {
    &&& request matches DaemonRequest::Ingest { path: p, title, artist: a, album, frequency_mode }
    &&& p@ == path
    &&& title@ == (match file_stem {
        Some(stem) => stem,
        None => "Unknown"@,
    })
    &&& a@ == artist
    &&& album is None
    &&& names_mode(frequency_mode, mode)
}

/// The request that hands a file of a directory to a running daemon.
pub fn file_request(
    path: &str,
    file_stem: Option<&str>,
    artist: &str,
    mode: FrequencyMode,
) -> (r: DaemonRequest)
    ensures
        asks_for_file(
            path@,
            match file_stem {
                Some(stem) => Some(stem@),
                None => None,
            },
            artist@,
            mode,
            r,
        ),
{
    DaemonRequest::Ingest {
        path: path.to_owned(),
        title: track_title(&None, file_stem),
        artist: artist.to_owned(),
        album: None,
        frequency_mode: Some(mode.as_str().to_owned()),
    }
}

/// The mode that a command's flags select reaches the work that a running
/// daemon does: it reads the file in that mode, the same that the command would
/// be carried out in without a daemon, and searches at that mode's rate.
pub proof fn law_selected_mode_reaches_the_daemon(
    command: Command,
    file_stem: Option<Seq<char>>,
    request: DaemonRequest,
    step: crate::dialogue::Step,
)
    requires
        asks(command, file_stem, Some(request)),
        crate::dialogue::begins(request, step),
    ensures
        command matches Command::Ingest { path, audible, full_spectrum, .. } ==> (
        step matches crate::dialogue::Step::Ask { action, .. } && action == (
        crate::dialogue::Action::Fingerprint {
            path,
            mode: selected_mode(audible, full_spectrum),
        })),
        command matches Command::Recognize { path, audible, full_spectrum } ==> step == (
        crate::dialogue::Step::Ask {
            action: crate::dialogue::Action::Fingerprint {
                path,
                mode: selected_mode(audible, full_spectrum),
            },
            pending: crate::dialogue::Pending::Recognize {
                mode: selected_mode(audible, full_spectrum),
            },
        }),
{
    match command {
        Command::Ingest { audible, full_spectrum, .. } => {
            let mode = selected_mode(audible, full_spectrum);
            FrequencyMode::law_name_is_parsed_back(mode.name(), mode);
        },
        Command::Recognize { audible, full_spectrum, .. } => {
            let mode = selected_mode(audible, full_spectrum);
            FrequencyMode::law_name_is_parsed_back(mode.name(), mode);
        },
        _ => {},
    }
}

/// The mode that is selected for a directory reaches the work that a running
/// daemon does on each of its files.
pub proof fn law_selected_mode_reaches_each_file(
    path: Seq<char>,
    file_stem: Option<Seq<char>>,
    artist: Seq<char>,
    mode: FrequencyMode,
    request: DaemonRequest,
    step: crate::dialogue::Step,
)
    requires
        asks_for_file(path, file_stem, artist, mode, request),
        crate::dialogue::begins(request, step),
    ensures
        step matches crate::dialogue::Step::Ask { action, .. } && (
        action matches crate::dialogue::Action::Fingerprint { path: p, mode: m } && p@ == path && m
            == mode),
{
    FrequencyMode::law_name_is_parsed_back(mode.name(), mode);
}

/// Who carries out a command: a running daemon, where the command has a request
/// for it or for each of its files, else this process.
pub fn dispatch(command: &Command, daemon_running: bool, file_stem: Option<&str>) -> (r: Dispatch)
    ensures
        match r {
            Dispatch::Daemon(request) => {
                &&& daemon_running
                &&& tries_daemon(*command)
                &&& asks(
                    *command,
                    match file_stem {
                        Some(stem) => Some(stem@),
                        None => None,
                    },
                    Some(request),
                )
            },
            Dispatch::DaemonPerFile { artist, mode } => {
                &&& daemon_running
                &&& command matches Command::IngestDir {
                    artist: given,
                    audible,
                    full_spectrum,
                    ..
                }
                &&& artist == given
                &&& mode == selected_mode(*audible, *full_spectrum)
            },
            Dispatch::Direct => {
                ||| !daemon_running
                ||| !tries_daemon(*command)
                ||| *command is Status
            },
        },
{
    if daemon_running && looks_for_daemon(command) {
        match daemon_request(command, file_stem) {
            Some(request) => Dispatch::Daemon(request),
            None => match command {
                Command::IngestDir { artist, audible, full_spectrum, .. } => {
                    Dispatch::DaemonPerFile {
                        artist: artist.clone(),
                        mode: resolve_mode(*audible, *full_spectrum),
                    }
                },
                _ => Dispatch::Direct,
            },
        }
    } else {
        Dispatch::Direct
    }
}

/// Where the audio of a new zone comes from: the microphone if recording is
/// asked for, else the file given; one of them is needed.
pub fn zone_source(record: bool, duration: u64, path: &Option<String>) -> (r: Result<
    Source,
    &'static str,
>)
    ensures
        match (record, *path) {
            (true, _) => r == Ok::<Source, &'static str>(Source::Microphone { seconds: duration }),
            (false, Some(p)) => r == Ok::<Source, &'static str>(Source::File { path: p }),
            (false, None) => r matches Err(message) && message@
                == "Provide a WAV file path or use --record to capture ambient audio"@,
        },
{
    if record {
        Ok(Source::Microphone { seconds: duration })
    } else {
        match path {
            Some(p) => Ok(Source::File { path: p.clone() }),
            None => Err("Provide a WAV file path or use --record to capture ambient audio"),
        }
    }
}

/// A zone to store, with its track.
#[derive(Debug)]
pub struct NewZone {
    pub name: String,
    pub artist: &'static str,
    pub file_path: Option<String>,
    pub frequency_mode: &'static str,
    pub signature_bytes: Vec<u8>,
    pub signature_dim: usize,
    pub fingerprint_count: usize,
}

/// The zone to store, given what was analysed; none where the audio gives no
/// fingerprints.
pub fn new_zone(
    name: &str,
    path: &Option<String>,
    mode: FrequencyMode,
    fingerprints: &Vec<Fingerprint>,
    signature: &Signature,
) -> (r: Option<NewZone>)
    ensures
        r is None <==> fingerprints@.len() == 0,
        r matches Some(zone) ==> {
            &&& zone.name@ == name@
            &&& zone.artist@ == "zone"@
            &&& zone.file_path == *path
            &&& zone.frequency_mode@ == mode.name()
            &&& zone.signature_bytes@ == crate::signature::vector_bytes(signature.vector@)
            &&& zone.signature_dim == signature.vector@.len()
            &&& zone.fingerprint_count == fingerprints@.len()
        },
{
    if fingerprints.len() == 0 {
        return None;
    }
    Some(
        NewZone {
            name: name.to_owned(),
            artist: "zone",
            file_path: copy_text(path),
            frequency_mode: mode.as_str(),
            signature_bytes: signature.to_bytes(),
            signature_dim: signature.dim(),
            fingerprint_count: fingerprints.len(),
        },
    )
}

// ── Layout ──────────────────────────────────────────────────────────

/// Cells of a confidence bar.
pub const BAR_CELLS: usize = 20;

/// Pattern of 0.5: a confidence above it is shown green.
pub const GREEN_ABOVE: u64 = 0x3fe0_0000_0000_0000;

/// Pattern of 0.2: a confidence above it is shown yellow.
pub const YELLOW_ABOVE: u64 = 0x3fc9_9999_9999_999a;

/// Pattern of 0.15: an unknown signal may match with a confidence below it.
pub const LOW_CONFIDENCE: u64 = 0x3fc3_3333_3333_3333;

/// Colour of a confidence bar.
#[derive(Debug, Clone, Copy, PartialEq, Eq, Structural)]
pub enum BarColor {
    Green,
    Yellow,
    Red,
}

/// A confidence bar: its filled cells, its empty cells, and its colour.
#[derive(Debug)]
pub struct ConfidenceBar {
    pub filled: String,
    pub empty: String,
    pub color: BarColor,
}

/// A text of `n` equal characters.
fn repeated(c: char, n: usize) -> (r: String)
    ensures
        r@ == Seq::new(n as nat, |i: int| c),
{
    let mut out = String::new();
    let mut i: usize = 0;
    while i < n
        invariant
            i <= n,
            out@ == Seq::new(i as nat, |j: int| c),
        decreases n - i,
    {
        out.push(c);
        i = i + 1;
        assert(out@ =~= Seq::new(i as nat, |j: int| c));
    }
    assert(out@ =~= Seq::new(n as nat, |j: int| c));
    out
}

/// Lays out a confidence, of which `twentieths` whole twentieths are reached.
pub fn confidence_bar(confidence: F64Bits, twentieths: usize) -> (r: ConfidenceBar)
    requires
        twentieths <= BAR_CELLS,
    ensures
        r.filled@ == Seq::new(twentieths as nat, |i: int| '█'),
        r.empty@ == Seq::new((BAR_CELLS - twentieths) as nat, |i: int| '░'),
        r.filled@.len() + r.empty@.len() == 20,
        r.color == (if confidence.exceeds(F64Bits { bits: GREEN_ABOVE }) {
            BarColor::Green
        } else if confidence.exceeds(F64Bits { bits: YELLOW_ABOVE }) {
            BarColor::Yellow
        } else {
            BarColor::Red
        }),
{
    let color = if confidence.gt(&F64Bits { bits: GREEN_ABOVE }) {
        BarColor::Green
    } else if confidence.gt(&F64Bits { bits: YELLOW_ABOVE }) {
        BarColor::Yellow
    } else {
        BarColor::Red
    };
    ConfidenceBar {
        filled: repeated('█', twentieths),
        empty: repeated('░', BAR_CELLS - twentieths),
        color,
    }
}

/// A text fitted into a column: where it has more than `width` bytes, its
/// first `width - 1` bytes and an ellipsis.
pub fn fitted(text: &str, width: usize) -> (r: String)
    requires
        width > 0,
        vstd::utf8::encode_utf8(text@).len() > width ==> vstd::utf8::is_char_boundary(
            vstd::utf8::encode_utf8(text@),
            width - 1,
        ),
    ensures
        vstd::utf8::encode_utf8(text@).len() <= width ==> r@ == text@,
        vstd::utf8::encode_utf8(text@).len() > width ==> exists|kept: Seq<char>|
            r@ == kept.push('…') && #[trigger] vstd::utf8::encode_utf8(kept)
                == vstd::utf8::encode_utf8(text@).take(width - 1),
{
    if text.as_bytes().len() > width {
        let (head, tail) = text.split_at(width - 1);
        let mut out = head.to_owned();
        out.push('…');
        assert(vstd::utf8::encode_utf8(head@) =~= vstd::utf8::encode_utf8(text@).take(width - 1));
        assert(out@ == head@.push('…'));
        out
    } else {
        text.to_owned()
    }
}

/// Average number of fingerprints per track, where there are tracks.
pub fn avg_fingerprints(stats: &DbStats) -> (r: Option<usize>)
    ensures
        r == (if stats.track_count > 0 {
            Some((stats.fingerprint_count / stats.track_count) as usize)
        } else {
            None
        }),
{
    if stats.track_count > 0 {
        Some(stats.fingerprint_count / stats.track_count)
    } else {
        None
    }
}

// ── Demo ────────────────────────────────────────────────────────────

/// Seed of the demo's noise.
pub const NOISE_SEED: u32 = 42;

/// The next state of the demo's noise generator, a linear congruential one.
pub fn next_noise(state: u32) -> (r: u32)
    ensures
        r as int == (state * 1103515245 + 12345) % 0x1_0000_0000,
{
    let product: u64 = state as u64 * 1103515245;
    ((product + 12345) % 0x1_0000_0000) as u32
}

/// The 16-bit level of a state of the noise generator.
pub fn noise_level(state: u32) -> (r: u32)
    ensures
        r == state / 0x1_0000,
        r < 0x1_0000,
{
    state / 0x1_0000
}

/// First sample of the demo's snippet: two seconds in.
pub const SNIPPET_START: usize = 32000;

/// The part of a song that the demo's snippet is: three seconds from the
/// middle, as far as the song goes.
pub fn snippet_range(song_len: usize) -> (r: (usize, usize))
    requires
        song_len >= SNIPPET_START,
    ensures
        r.0 == SNIPPET_START,
        r.0 == 32000,
        r.1 == (if song_len < 80000 {
            song_len as int
        } else {
            80000
        }),
{
    if song_len < 80000 {
        (SNIPPET_START, song_len)
    } else {
        (SNIPPET_START, 80000)
    }
}

/// What the demo makes of searching for a known song.
#[derive(Debug, Clone, Copy, PartialEq, Eq, Structural)]
pub enum KnownSong {
    /// The song was found.
    Found,
    /// Another song was found.
    Mistaken,
    /// Nothing was found.
    NoMatch,
}

/// Judges the top result of a search for a known song, by its title.
pub fn judge_known(results: &Vec<MatchResult>, title: &str) -> (r: KnownSong)
    ensures
        r == (if results@.len() == 0 {
            KnownSong::NoMatch
        } else if results@[0].track.title@ == title@ {
            KnownSong::Found
        } else {
            KnownSong::Mistaken
        }),
{
    if results.len() == 0 {
        KnownSong::NoMatch
    } else if same_text(results[0].track.title.as_str(), title) {
        KnownSong::Found
    } else {
        KnownSong::Mistaken
    }
}

/// What the demo makes of searching for an unknown signal.
#[derive(Debug, Clone, Copy, PartialEq, Eq, Structural)]
pub enum UnknownSignal {
    /// Correctly no match.
    NoMatch,
    /// A match of low confidence, which is acceptable.
    LowConfidence,
    /// A false positive.
    FalsePositive,
}

/// Judges the top confidence of a search for an unknown signal.
pub fn judge_unknown(top: Option<F64Bits>) -> (r: UnknownSignal)
    ensures
        r == (match top {
            None => UnknownSignal::NoMatch,
            Some(c) => if (F64Bits { bits: LOW_CONFIDENCE }).exceeds(c) {
                UnknownSignal::LowConfidence
            } else {
                UnknownSignal::FalsePositive
            },
        }),
{
    match top {
        None => UnknownSignal::NoMatch,
        Some(c) => {
            let limit = F64Bits { bits: LOW_CONFIDENCE };
            if limit.gt(&c) {
                UnknownSignal::LowConfidence
            } else {
                UnknownSignal::FalsePositive
            }
        },
    }
}

// ── What commands ask for ───────────────────────────────────────────

/// The flags select the mode: audible where its flag is given, else the full
/// spectrum where its flag is given, else ultrasonic.
pub proof fn law_flags_select_the_mode(full_spectrum: bool)
    ensures
        selected_mode(true, full_spectrum) is Audible,
        selected_mode(false, true) is Full,
        selected_mode(false, false) is Ultrasonic,
{
}

/// A command asks a running daemon for exactly what it was given.
pub proof fn law_commands_ask_for_what_they_were_given(
    command: Command,
    file_stem: Option<Seq<char>>,
    request: Option<DaemonRequest>,
)
    requires
        asks(command, file_stem, request),
    ensures
        match command {
            Command::Ingest { path, title, artist, album, audible, full_spectrum } => {
                &&& request matches Some(DaemonRequest::Ingest {
                    path: p,
                    title: t,
                    artist: a,
                    album: al,
                    frequency_mode: Some(mode),
                })
                &&& p == path
                &&& a == artist
                &&& al == album
                &&& title is Some ==> t@ == title->0@
                &&& title is None && file_stem is Some ==> t@ == file_stem->0
                &&& title is None && file_stem is None ==> t@ == "Unknown"@
                &&& audible ==> mode@ == "audible"@
                &&& !audible && full_spectrum ==> mode@ == "full"@
                &&& !audible && !full_spectrum ==> mode@ == "ultrasonic"@
            },
            Command::Recognize { path, audible, full_spectrum } => {
                &&& request matches Some(DaemonRequest::Recognize {
                    path: p,
                    frequency_mode: Some(mode),
                })
                &&& p == path
                &&& audible ==> mode@ == "audible"@
                &&& !audible && full_spectrum ==> mode@ == "full"@
                &&& !audible && !full_spectrum ==> mode@ == "ultrasonic"@
            },
            Command::List => request matches Some(r) && r is List,
            Command::Remove { track_id } => request matches Some(DaemonRequest::Remove {
                track_id: t,
            }) && t == track_id,
            Command::Stats => request matches Some(r) && r is Stats,
            Command::Stop => request matches Some(r) && r is Shutdown,
            Command::Monitor => request matches Some(r) && r is MonitorSubscribe,
            _ => request is None,
        },
{
}

/// The commands on tracks and on the daemon itself look for a running daemon;
/// those that need this process's microphone, screen or files do not.
pub proof fn law_who_looks_for_a_daemon(command: Command)
    ensures
        tries_daemon(command) <==> command is Ingest || command is IngestDir || command is Recognize
            || command is List || command is Remove || command is Stats || command is Status
            || command is Stop,
{
}

/// Only `A` to `Z` have a lower case: the letter as far on from `a`.
pub proof fn law_lower_case(c: char)
    ensures
        'A' <= c <= 'Z' ==> ascii_lower(c) as int - 'a' as int == c as int - 'A' as int,
        !('A' <= c <= 'Z') ==> ascii_lower(c) == c,
{
}

/// Each file of a directory is asked to be ingested from its path under the stem
/// of its name, by the artist given, on no album, in the mode given.
pub proof fn law_files_of_a_directory(
    path: Seq<char>,
    file_stem: Option<Seq<char>>,
    artist: Seq<char>,
    mode: FrequencyMode,
    request: DaemonRequest,
)
    requires
        asks_for_file(path, file_stem, artist, mode, request),
    ensures
        request matches DaemonRequest::Ingest {
            path: p,
            title,
            artist: a,
            album,
            frequency_mode: Some(name),
        } && {
            &&& p@ == path
            &&& a@ == artist
            &&& album is None
            &&& file_stem matches Some(stem) ==> title@ == stem
            &&& file_stem is None ==> title@ == "Unknown"@
            &&& crate::dialogue::goes_by(mode, name@)
        },
{
}

} // verus!
