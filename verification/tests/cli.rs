//! The command line and the choice of a microphone configuration.

use beacon::audio::FrequencyMode;
use beacon::cli::{
    avg_fingerprints, confidence_bar, daemon_request, dispatch, file_request, fitted, is_wav, judge_unknown,
    judge_known, looks_for_daemon, new_zone, next_noise, noise_level, resolve_mode, snippet_range,
    track_title, zone_source, BarColor, Cli, Command, Dispatch, KnownSong, UnknownSignal,
    NOISE_SEED,
};
use beacon::daemon::DaemonRequest;
use beacon::database::{DbStats, MatchResult, TrackInfo};
use beacon::dialogue::{begin, Action, Source, Step};
use beacon::fingerprint::Fingerprint;
use beacon::ieee::{F32Bits, F64Bits};
use beacon::microphone::{
    find_high_rate_config, recorded, recording_config, InputDeviceInfo, RateChoice, RateRange,
};
use beacon::signature::Signature;

fn double(x: f64) -> F64Bits {
    F64Bits { bits: x.to_bits() }
}

#[test]
fn modes_from_flags() {
    assert_eq!(resolve_mode(false, false), FrequencyMode::Ultrasonic);
    assert_eq!(resolve_mode(true, false), FrequencyMode::Audible);
    assert_eq!(resolve_mode(true, true), FrequencyMode::Audible);
    assert_eq!(resolve_mode(false, true), FrequencyMode::Full);
}

#[test]
fn options() {
    let mut cli = Cli {
        command: Command::Status,
        port: 1,
        bind: "127.0.0.1".to_string(),
        db: None,
        verbose: false,
        model_path: None,
    };
    assert_eq!(cli.log_level(), "info");
    assert_eq!(cli.db_path(Some("/h")), "/h/.beacond/beacond.db");
    cli.verbose = true;
    cli.db = Some("x.db".to_string());
    assert_eq!(cli.log_level(), "debug");
    assert_eq!(cli.db_path(Some("/h")), "x.db");
}

#[test]
fn titles() {
    assert_eq!(track_title(&Some("T".to_string()), Some("stem")), "T");
    assert_eq!(track_title(&None, Some("stem")), "stem");
    assert_eq!(track_title(&None, None), "Unknown");
}

#[test]
fn wav_files() {
    assert!(is_wav(Some("wav")));
    assert!(is_wav(Some("WaV")));
    assert!(!is_wav(Some("wave")));
    assert!(!is_wav(Some("mp3")));
    assert!(!is_wav(None));
}

#[test]
fn requests_of_commands() {
    let ingest = Command::Ingest {
        path: "p.wav".to_string(),
        title: None,
        artist: "A".to_string(),
        album: Some("B".to_string()),
        audible: false,
        full_spectrum: false,
    };
    assert!(matches!(
        daemon_request(&ingest, Some("p")),
        Some(DaemonRequest::Ingest {
            path,
            title,
            artist,
            album: Some(album),
            frequency_mode: Some(mode),
        }) if path == "p.wav"
            && title == "p"
            && artist == "A"
            && album == "B"
            && mode == "ultrasonic"
    ));
    assert!(matches!(
        daemon_request(&Command::Remove { track_id: 4 }, None),
        Some(DaemonRequest::Remove { track_id: 4 })
    ));
    assert!(matches!(
        daemon_request(&Command::Stop, None),
        Some(DaemonRequest::Shutdown)
    ));
    assert!(matches!(
        daemon_request(&Command::List, None),
        Some(DaemonRequest::List)
    ));
    assert!(daemon_request(&Command::Devices, None).is_none());
}

#[test]
fn who_carries_out_a_command() {
    assert!(matches!(
        dispatch(&Command::Stats, true, None),
        Dispatch::Daemon(DaemonRequest::Stats)
    ));
    assert!(matches!(
        dispatch(&Command::Stats, false, None),
        Dispatch::Direct
    ));
    assert!(matches!(
        dispatch(&Command::Status, true, None),
        Dispatch::Direct
    ));
    assert!(matches!(
        dispatch(&Command::Monitor, true, None),
        Dispatch::Direct
    ));
    let dir = Command::IngestDir {
        path: "music".to_string(),
        artist: "band".to_string(),
        audible: false,
        full_spectrum: false,
    };
    assert!(matches!(
        dispatch(&dir, true, None),
        Dispatch::DaemonPerFile { artist, mode: FrequencyMode::Ultrasonic } if artist == "band"
    ));
    assert!(matches!(dispatch(&dir, false, None), Dispatch::Direct));
    assert!(looks_for_daemon(&Command::Stop));
    assert!(!looks_for_daemon(&Command::Demo));
}

/// The mode that a running daemon reads a file in for a command.
fn mode_in_the_daemon(command: &Command) -> FrequencyMode {
    match dispatch(command, true, None) {
        Dispatch::Daemon(request) => match begin(request) {
            Step::Ask {
                action: Action::Fingerprint { path, mode },
                ..
            } => {
                assert_eq!(path, "a.wav");
                mode
            }
            other => panic!("went on with {:?}", other),
        },
        other => panic!("dispatched to {:?}", other),
    }
}

#[test]
fn the_selected_mode_reaches_the_daemon() {
    for (audible, full_spectrum, mode) in [
        (false, false, FrequencyMode::Ultrasonic),
        (true, false, FrequencyMode::Audible),
        (false, true, FrequencyMode::Full),
        (true, true, FrequencyMode::Audible),
    ] {
        assert_eq!(resolve_mode(audible, full_spectrum), mode);
        let path = "a.wav".to_string();
        assert_eq!(
            mode_in_the_daemon(&Command::Ingest {
                path: path.clone(),
                title: None,
                artist: "A".to_string(),
                album: None,
                audible,
                full_spectrum,
            }),
            mode
        );
        assert_eq!(
            mode_in_the_daemon(&Command::Recognize {
                path: path.clone(),
                audible,
                full_spectrum,
            }),
            mode
        );
        let dir = Command::IngestDir {
            path,
            artist: "A".to_string(),
            audible,
            full_spectrum,
        };
        match dispatch(&dir, true, None) {
            Dispatch::DaemonPerFile { artist, mode: m } => {
                assert_eq!(m, mode);
                assert!(matches!(
                    begin(file_request("b.wav", None, &artist, m)),
                    Step::Ask { action: Action::Fingerprint { path, mode: read_in }, .. }
                        if path == "b.wav" && read_in == mode
                ));
            }
            other => panic!("dispatched to {:?}", other),
        }
    }
}

#[test]
fn requests_for_the_files_of_a_directory() {
    match file_request("music/a.wav", Some("a"), "band", FrequencyMode::Full) {
        DaemonRequest::Ingest {
            path,
            title,
            artist,
            album,
            frequency_mode,
        } => {
            assert_eq!(frequency_mode.as_deref(), Some("full"));
            assert_eq!(path, "music/a.wav");
            assert_eq!(title, "a");
            assert_eq!(artist, "band");
            assert_eq!(album, None);
        }
        other => panic!("asked: {:?}", other),
    }
    assert!(matches!(
        file_request("x", None, "", FrequencyMode::Audible),
        DaemonRequest::Ingest { title, .. } if title == "Unknown"
    ));
}

#[test]
fn sources_of_zones() {
    let path = Some("z.wav".to_string());
    assert!(matches!(
        zone_source(true, 9, &path),
        Ok(Source::Microphone { seconds: 9 })
    ));
    assert!(matches!(zone_source(false, 9, &path), Ok(Source::File { path }) if path == "z.wav"));
    assert_eq!(
        zone_source(false, 9, &None).unwrap_err(),
        "Provide a WAV file path or use --record to capture ambient audio"
    );
}

#[test]
fn confidence_bars() {
    let bar = confidence_bar(double(0.75), 15);
    assert_eq!(bar.filled, "█".repeat(15));
    assert_eq!(bar.empty, "░".repeat(5));
    assert_eq!(bar.color, BarColor::Green);
    assert_eq!(confidence_bar(double(0.5), 10).color, BarColor::Yellow);
    assert_eq!(confidence_bar(double(0.2), 4).color, BarColor::Red);
    assert_eq!(confidence_bar(double(1.0), 20).empty, "");
    assert_eq!(confidence_bar(double(0.0), 0).filled, "");
}

#[test]
fn columns() {
    assert_eq!(fitted("short", 28), "short");
    let exact = "x".repeat(28);
    assert_eq!(fitted(&exact, 28), exact);
    let long = "x".repeat(29);
    assert_eq!(fitted(&long, 28), format!("{}…", "x".repeat(27)));
    let wide = "é".repeat(10);
    assert_eq!(fitted(&wide, 19), format!("{}…", "é".repeat(9)));
}

#[test]
fn averages() {
    let stats = |tracks, fps| DbStats {
        track_count: tracks,
        fingerprint_count: fps,
        db_size_bytes: 0,
    };
    assert_eq!(avg_fingerprints(&stats(3, 10)), Some(3));
    assert_eq!(avg_fingerprints(&stats(0, 10)), None);
}

#[test]
fn the_noise_of_the_demo() {
    let mut state = NOISE_SEED;
    let mut other: u32 = 42;
    for _ in 0..1000 {
        state = next_noise(state);
        other = other.wrapping_mul(1103515245).wrapping_add(12345);
        assert_eq!(state, other);
        assert_eq!(noise_level(state), other >> 16);
    }
}

#[test]
fn new_zones() {
    let sig = Signature::from_embedding(vec![F32Bits { bits: 9 }; 2]);
    let path = Some("z.wav".to_string());
    assert!(new_zone("hall", &path, FrequencyMode::Full, &Vec::new(), &sig).is_none());
    let fps = vec![Fingerprint { hash: 1, offset: 2 }];
    let zone = new_zone("hall", &path, FrequencyMode::Full, &fps, &sig).unwrap();
    assert_eq!((zone.name.as_str(), zone.artist), ("hall", "zone"));
    assert_eq!(zone.file_path, path);
    assert_eq!(zone.frequency_mode, "full");
    assert_eq!(zone.signature_bytes, sig.to_bytes());
    assert_eq!((zone.signature_dim, zone.fingerprint_count), (2, 1));
}

#[test]
fn snippets_and_known_songs() {
    assert_eq!(snippet_range(128000), (32000, 80000));
    assert_eq!(snippet_range(50000), (32000, 50000));
    let found = MatchResult {
        track: TrackInfo {
            id: 1,
            title: "Ocean Waves".to_string(),
            artist: String::new(),
            album: None,
            duration_secs: F32Bits { bits: 0 },
            file_path: None,
            fingerprint_count: 0,
            added_at: String::new(),
        },
        match_count: 5,
        confidence: double(0.5),
        best_offset: 0,
        estimated_position_secs: F32Bits { bits: 0 },
    };
    let results = vec![found];
    assert_eq!(judge_known(&results, "Ocean Waves"), KnownSong::Found);
    assert_eq!(judge_known(&results, "Electric Storm"), KnownSong::Mistaken);
    assert_eq!(judge_known(&Vec::new(), "Ocean Waves"), KnownSong::NoMatch);
}

#[test]
fn unknown_signals() {
    assert_eq!(judge_unknown(None), UnknownSignal::NoMatch);
    assert_eq!(
        judge_unknown(Some(double(0.1))),
        UnknownSignal::LowConfidence
    );
    assert_eq!(
        judge_unknown(Some(double(0.15))),
        UnknownSignal::FalsePositive
    );
    assert_eq!(
        judge_unknown(Some(double(f64::NAN))),
        UnknownSignal::FalsePositive
    );
}

fn range(min: u32, max: u32) -> RateRange {
    RateRange { min, max }
}

#[test]
fn high_rates() {
    let choice = |config, rate| Some(RateChoice { config, rate });
    assert_eq!(find_high_rate_config(&vec![]), None);
    assert_eq!(
        find_high_rate_config(&vec![range(8000, 48000), range(44100, 192000), range(1, 96000)]),
        choice(1, 96000)
    );
    assert_eq!(
        find_high_rate_config(&vec![range(44100, 44100), range(8000, 48000)]),
        choice(1, 48000)
    );
    assert_eq!(
        find_high_rate_config(&vec![range(8000, 44100), range(8000, 44100)]),
        choice(0, 44100)
    );
    assert_eq!(
        find_high_rate_config(&vec![range(8000, 16000), range(8000, 32000), range(1, 32000)]),
        choice(1, 32000)
    );
    assert_eq!(
        recording_config(FrequencyMode::Audible, &vec![range(1, 96000)]),
        None
    );
    assert_eq!(
        recording_config(FrequencyMode::Full, &vec![range(1, 96000)]),
        choice(0, 96000)
    );
}

#[test]
fn recordings() {
    assert_eq!(recorded(None, vec![1, 2]), Ok(vec![1, 2]));
    assert_eq!(
        recorded(Some("gone".to_string()), vec![1, 2]),
        Err("Audio stream error: gone".to_string())
    );
    assert!(recorded(None, Vec::<u8>::new())
        .unwrap_err()
        .starts_with("No audio samples were captured."));
    let info = InputDeviceInfo {
        name: "mic".to_string(),
        sample_rate: 48000,
        channels: 2,
        sample_format: "F32".to_string(),
    };
    assert_eq!(info.clone().name, "mic");
}
