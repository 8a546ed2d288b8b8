//! The daemon's dialogues, detection and monitor.

use beacon::audio::FrequencyMode;
use beacon::daemon::{
    default_db_path, dirs_or_default, follow_up, invalid_request, pid_file_path, request_on_line,
    DaemonRequest, DaemonResponse, FollowUp, ResponseData, DEFAULT_PORT,
};
use beacon::database::{DbStats, MatchResult, TrackInfo, ZoneInfo};
use beacon::detection::{
    best_zone, comparable_zones, direct_verdict, hash_score, match_fingerprints, match_signatures,
    pick_zone, top_track, track_to_look_up, Detection, Method, StoredSignature, Verdict, ZoneScore,
};
use beacon::dialogue::{accepts, advance, begin, Action, Event, Pending, Source, Step};
use beacon::fingerprint::Fingerprint;
use beacon::ieee::{F32Bits, F64Bits};
use beacon::monitor::{
    modes_to_scan, scan_accepts, scan_advance, scan_begin, transition, ScanStep, ZoneEvent,
};
use beacon::signature::Signature;

fn double(x: f64) -> F64Bits {
    F64Bits { bits: x.to_bits() }
}

fn single(x: f32) -> F32Bits {
    F32Bits { bits: x.to_bits() }
}

fn track(id: i64) -> TrackInfo {
    TrackInfo {
        id,
        title: "song".to_string(),
        artist: "band".to_string(),
        album: Some("album".to_string()),
        duration_secs: single(5.0),
        file_path: None,
        fingerprint_count: 3,
        added_at: "now".to_string(),
    }
}

fn found(id: i64, confidence: f64) -> MatchResult {
    MatchResult {
        track: track(id),
        match_count: 9,
        confidence: double(confidence),
        best_offset: 4,
        estimated_position_secs: single(0.1),
    }
}

fn zone(name: &str) -> ZoneInfo {
    ZoneInfo {
        id: 1,
        name: name.to_string(),
        track_id: 2,
        fingerprint_count: 3,
        duration_secs: single(4.0),
        frequency_mode: "ultrasonic".to_string(),
        added_at: "now".to_string(),
    }
}

fn some_fingerprints() -> Vec<Fingerprint> {
    vec![
        Fingerprint { hash: 1, offset: 2 },
        Fingerprint { hash: 3, offset: 4 },
    ]
}

fn signature(values: &[f32]) -> Signature {
    Signature::from_embedding(values.iter().map(|&v| single(v)).collect())
}

fn stored(name: &str, values: &[f32]) -> StoredSignature {
    StoredSignature {
        zone: name.to_string(),
        bytes: signature(values).to_bytes(),
    }
}

fn ask(step: Step) -> (Action, Pending) {
    match step {
        Step::Ask { action, pending } => (action, pending),
        Step::Done(r) => panic!("done: {:?}", r),
    }
}

fn done(step: Step) -> DaemonResponse {
    match step {
        Step::Done(r) => r,
        Step::Ask { action, .. } => panic!("asked: {:?}", action),
    }
}

fn go_on(pending: Pending, event: Event) -> Step {
    assert!(accepts(&pending, &event));
    advance(pending, event)
}

fn failed(pending: Pending) -> DaemonResponse {
    let r = done(go_on(pending, Event::Failed("why".to_string())));
    assert!(!r.success);
    assert!(r.data.is_none());
    r
}

#[test]
fn paths_below_the_home_directory() {
    assert_eq!(DEFAULT_PORT, 18923);
    assert_eq!(
        default_db_path(Some("/home/me")),
        "/home/me/.beacond/beacond.db"
    );
    assert_eq!(
        pid_file_path(Some("/home/me/")),
        "/home/me/.beacond/beacond.pid"
    );
    assert_eq!(default_db_path(None), "/tmp/.beacond/beacond.db");
    for home in ["", "/", "/home/me", "/home/me/", "rel", "/ü"] {
        let expected = std::path::PathBuf::from(home).join(".beacond");
        assert_eq!(dirs_or_default(Some(home)), expected.to_str().unwrap());
    }
}

#[test]
fn requests_answered_at_once() {
    let r = done(begin(DaemonRequest::Ping));
    assert!(r.success);
    assert_eq!(r.message, "pong");
    assert!(r.data.is_none());
    assert_eq!(
        done(begin(DaemonRequest::Shutdown)).message,
        "Shutting down..."
    );
    assert_eq!(
        done(begin(DaemonRequest::MonitorSubscribe)).message,
        "Monitor mode — events will stream on this connection"
    );
}

#[test]
fn what_follows_an_answer() {
    assert_eq!(follow_up(&DaemonRequest::Ping), FollowUp::ReadOn);
    assert_eq!(follow_up(&DaemonRequest::Shutdown), FollowUp::ShutDown);
    assert_eq!(
        follow_up(&DaemonRequest::MonitorSubscribe),
        FollowUp::StreamEvents
    );
}

#[test]
fn lines_and_invalid_requests() {
    assert_eq!(request_on_line(" \r\n"), None);
    assert_eq!(request_on_line("  {} \n"), Some("{}"));
    let r = invalid_request("expected value");
    assert!(!r.success);
    assert_eq!(r.message, "Invalid request: expected value");
    assert!(DaemonResponse::ok("m".to_string()).success);
    assert!(!DaemonResponse::error("m".to_string()).success);
    assert!(
        DaemonResponse::ok_with_data("m".to_string(), ResponseData::NoZone)
            .data
            .is_some()
    );
}

fn recognize() -> Pending {
    let (action, pending) = ask(begin(DaemonRequest::Recognize {
        path: "a.wav".to_string(),
        frequency_mode: None,
    }));
    assert!(matches!(
        action,
        Action::Fingerprint { path, mode: FrequencyMode::Audible } if path == "a.wav"
    ));
    pending
}

#[test]
fn recognizing_in_a_mode() {
    for (name, mode, rate) in [
        ("audible", FrequencyMode::Audible, 16000),
        ("ultrasonic", FrequencyMode::Ultrasonic, 96000),
        ("full", FrequencyMode::Full, 96000),
        ("loud", FrequencyMode::Audible, 16000),
    ] {
        let (action, pending) = ask(begin(DaemonRequest::Recognize {
            path: "a.wav".to_string(),
            frequency_mode: Some(name.to_string()),
        }));
        assert!(matches!(action, Action::Fingerprint { mode: m, .. } if m == mode));
        let (action, _) = ask(go_on(
            pending,
            Event::Fingerprinted {
                fingerprints: some_fingerprints(),
                duration_secs: single(1.0),
            },
        ));
        assert!(matches!(action, Action::Search { sample_rate, .. } if sample_rate == rate));
    }
}

fn recognize_search() -> Pending {
    let (action, pending) = ask(go_on(
        recognize(),
        Event::Fingerprinted {
            fingerprints: some_fingerprints(),
            duration_secs: single(1.0),
        },
    ));
    assert!(matches!(
        action,
        Action::Search { fingerprints, max_results: 5, sample_rate: 16000 }
            if fingerprints == some_fingerprints()
    ));
    pending
}

#[test]
fn recognizing() {
    let r = done(go_on(recognize_search(), Event::Found(Vec::new())));
    assert!(r.success);
    assert_eq!(r.message, "No matches found");
    assert!(matches!(r.data, Some(ResponseData::NoMatches)));

    let r = done(go_on(
        recognize_search(),
        Event::Found(vec![found(7, 0.5), found(8, 0.4)]),
    ));
    assert_eq!(r.message, "Found 2 match(es)");
    assert!(
        matches!(r.data, Some(ResponseData::Matches(m)) if m.len() == 2 && m[0].track.id == 7)
    );

    let r = done(go_on(
        recognize(),
        Event::Fingerprinted {
            fingerprints: Vec::new(),
            duration_secs: single(1.0),
        },
    ));
    assert!(!r.success);
    assert_eq!(r.message, "No fingerprints could be extracted from audio");

    assert_eq!(failed(recognize()).message, "Failed to read audio: why");
    assert_eq!(failed(recognize_search()).message, "Search failed: why");
}

fn ingest() -> Pending {
    let (action, pending) = ask(begin(DaemonRequest::Ingest {
        path: "a.wav".to_string(),
        title: "T".to_string(),
        artist: "A".to_string(),
        album: None,
        frequency_mode: Some("ultrasonic".to_string()),
    }));
    assert!(matches!(
        action,
        Action::Fingerprint { path, mode: FrequencyMode::Ultrasonic } if path == "a.wav"
    ));
    pending
}

fn ingest_stored() -> Pending {
    let (action, pending) = ask(go_on(
        ingest(),
        Event::Fingerprinted {
            fingerprints: some_fingerprints(),
            duration_secs: single(2.5),
        },
    ));
    match action {
        Action::InsertTrack {
            title,
            artist,
            album,
            duration_secs,
            file_path,
            fingerprints,
        } => {
            assert_eq!(title, "T");
            assert_eq!(artist, "A");
            assert_eq!(album, None);
            assert_eq!(duration_secs, single(2.5));
            assert_eq!(file_path.as_deref(), Some("a.wav"));
            assert_eq!(fingerprints, some_fingerprints());
        }
        other => panic!("{:?}", other),
    }
    pending
}

#[test]
fn ingesting() {
    let r = done(go_on(ingest_stored(), Event::Inserted(12)));
    assert!(r.success);
    assert_eq!(r.message, "Ingested 'T' by 'A' (2 fingerprints)");
    match r.data {
        Some(ResponseData::Ingested {
            track_id,
            fingerprint_count,
            duration_secs,
        }) => {
            assert_eq!((track_id, fingerprint_count), (12, 2));
            assert_eq!(duration_secs, single(2.5));
        }
        other => panic!("{:?}", other),
    }
    assert_eq!(failed(ingest()).message, "Failed to read audio: why");
    assert_eq!(failed(ingest_stored()).message, "Ingest failed: why");
}

#[test]
fn removing_listing_and_statistics() {
    let remove = || {
        let (action, pending) = ask(begin(DaemonRequest::Remove { track_id: -3 }));
        assert!(matches!(action, Action::RemoveTrack { track_id: -3 }));
        pending
    };
    let r = done(go_on(remove(), Event::Removed(true)));
    assert!(r.success);
    assert_eq!(r.message, "Removed track -3");
    let r = done(go_on(remove(), Event::Removed(false)));
    assert!(!r.success);
    assert_eq!(r.message, "Track -3 not found");
    assert_eq!(failed(remove()).message, "Remove failed: why");

    let list = || ask(begin(DaemonRequest::List)).1;
    let r = done(go_on(list(), Event::Tracks(vec![track(1)])));
    assert_eq!(r.message, "1 track(s) in database");
    assert!(matches!(r.data, Some(ResponseData::Tracks(t)) if t.len() == 1));
    assert_eq!(failed(list()).message, "List failed: why");

    let stats = || ask(begin(DaemonRequest::Stats)).1;
    let given = DbStats {
        track_count: 1,
        fingerprint_count: 2,
        db_size_bytes: 3,
    };
    let r = done(go_on(stats(), Event::Stats(given)));
    assert_eq!(r.message, "Database statistics");
    assert!(matches!(r.data, Some(ResponseData::Stats(s)) if s == given));
    assert_eq!(failed(stats()).message, "Stats failed: why");

    let zones = || ask(begin(DaemonRequest::ZoneList)).1;
    let r = done(go_on(zones(), Event::Zones(vec![zone("a"), zone("b")])));
    assert_eq!(r.message, "2 zone(s)");
    assert_eq!(failed(zones()).message, "Failed to list zones: why");

    let remove_zone = || {
        ask(begin(DaemonRequest::ZoneRemove {
            name: "hall".to_string(),
        }))
        .1
    };
    let r = done(go_on(remove_zone(), Event::Removed(true)));
    assert_eq!(r.message, "Zone 'hall' removed");
    let r = done(go_on(remove_zone(), Event::Removed(false)));
    assert!(!r.success);
    assert_eq!(r.message, "Zone 'hall' not found");
    assert_eq!(failed(remove_zone()).message, "Remove failed: why");
}

fn zone_add(path: Option<&str>, mode: Option<&str>, secs: Option<u64>) -> (Action, Pending) {
    ask(begin(DaemonRequest::ZoneAdd {
        name: "hall".to_string(),
        path: path.map(|p| p.to_string()),
        frequency_mode: mode.map(|m| m.to_string()),
        record_duration: secs,
    }))
}

#[test]
fn where_the_audio_of_a_zone_comes_from() {
    let source = |a: Action| match a {
        Action::Analyse { source, mode } => (source, mode),
        other => panic!("{:?}", other),
    };
    let (s, m) = source(zone_add(Some("z.wav"), Some("audible"), Some(4)).0);
    assert!(matches!(s, Source::File { path } if path == "z.wav"));
    assert_eq!(m, FrequencyMode::Audible);
    let (s, m) = source(zone_add(None, Some("nonsense"), Some(4)).0);
    assert!(matches!(s, Source::Microphone { seconds: 4 }));
    assert_eq!(m, FrequencyMode::Ultrasonic);
    let (s, _) = source(zone_add(None, None, None).0);
    assert!(matches!(s, Source::Microphone { seconds: 10 }));
}

fn zone_track() -> Pending {
    let (action, pending) = ask(go_on(
        zone_add(None, Some("full"), None).1,
        Event::Analysed {
            fingerprints: some_fingerprints(),
            signature: signature(&[0.5, 0.25, 0.125]),
            duration_secs: single(10.0),
        },
    ));
    match action {
        Action::InsertTrack {
            title,
            artist,
            album,
            file_path,
            ..
        } => {
            assert_eq!(title, "hall");
            assert_eq!(artist, "zone");
            assert!(album.is_none() && file_path.is_none());
        }
        other => panic!("{:?}", other),
    }
    pending
}

fn zone_zone() -> Pending {
    let (action, pending) = ask(go_on(zone_track(), Event::Inserted(31)));
    match action {
        Action::InsertZone {
            name,
            track_id,
            mode,
            signature: bytes,
        } => {
            assert_eq!(name, "hall");
            assert_eq!(track_id, 31);
            assert_eq!(mode, FrequencyMode::Full);
            assert_eq!(bytes, signature(&[0.5, 0.25, 0.125]).to_bytes());
        }
        other => panic!("{:?}", other),
    }
    pending
}

#[test]
fn registering_a_zone() {
    let r = done(go_on(zone_zone(), Event::Inserted(5)));
    assert!(r.success);
    assert_eq!(
        r.message,
        "Zone 'hall' registered (2 fingerprints, 3-dim signature, full)"
    );
    match r.data {
        Some(ResponseData::ZoneAdded {
            zone_id,
            track_id,
            fingerprint_count,
            signature_dim,
            frequency_mode,
        }) => {
            assert_eq!((zone_id, track_id), (5, 31));
            assert_eq!((fingerprint_count, signature_dim), (2, 3));
            assert_eq!(frequency_mode, FrequencyMode::Full);
        }
        other => panic!("{:?}", other),
    }
    let silent = go_on(
        zone_add(None, None, None).1,
        Event::Analysed {
            fingerprints: Vec::new(),
            signature: signature(&[1.0]),
            duration_secs: single(10.0),
        },
    );
    assert_eq!(
        done(silent).message,
        "No fingerprints could be extracted from audio"
    );
    assert_eq!(
        failed(zone_add(None, None, None).1).message,
        "Failed to process audio: why"
    );
    assert_eq!(failed(zone_track()).message, "Ingest failed: why");
    assert_eq!(failed(zone_zone()).message, "Failed to create zone: why");
}

fn detect() -> Pending {
    let (action, pending) = ask(begin(DaemonRequest::ZoneDetect {
        path: "q.wav".to_string(),
        frequency_mode: None,
    }));
    assert!(matches!(
        action,
        Action::Analyse { source: Source::File { path }, mode: FrequencyMode::Ultrasonic }
            if path == "q.wav"
    ));
    pending
}

fn detect_load(fingerprints: Vec<Fingerprint>) -> Pending {
    let (action, pending) = ask(go_on(
        detect(),
        Event::Analysed {
            fingerprints,
            signature: signature(&[1.0, 0.0]),
            duration_secs: single(3.0),
        },
    ));
    assert!(matches!(action, Action::LoadSignatures));
    pending
}

fn detect_compare(fingerprints: Vec<Fingerprint>) -> Pending {
    let (action, pending) = ask(go_on(
        detect_load(fingerprints),
        Event::Signatures(vec![
            stored("kitchen", &[0.5, 0.5]),
            stored("attic", &[1.0, 2.0, 3.0]),
            stored("office", &[0.75, 0.5]),
        ]),
    ));
    match action {
        Action::Compare { query, zones } => {
            assert_eq!(query.dim(), 2);
            let names: Vec<&str> = zones.iter().map(|z| z.zone.as_str()).collect();
            assert_eq!(names, vec!["kitchen", "office"]);
        }
        other => panic!("{:?}", other),
    }
    pending
}

fn compared(a: f64, b: f64) -> Event {
    Event::Compared {
        similarities: vec![double(a), double(b)],
        threshold: double(0.6),
    }
}

#[test]
fn detecting_by_signature_alone() {
    let r = done(go_on(detect_compare(Vec::new()), compared(0.7, 0.8)));
    assert!(r.success);
    assert_eq!(r.message, "Zone detected: office");
    match r.data {
        Some(ResponseData::Detected(d)) => {
            assert_eq!(d.zone, "office");
            assert_eq!(d.confidence, double(0.8));
            assert_eq!(d.method, Method::Signature);
            assert_eq!(d.method.as_str(), "signature");
        }
        other => panic!("{:?}", other),
    }
    let r = done(go_on(detect_compare(Vec::new()), compared(0.6, 0.1)));
    assert!(r.success);
    assert_eq!(r.message, "No zone detected");
    assert!(matches!(r.data, Some(ResponseData::NoZone)));
}

#[test]
fn detecting_by_both() {
    let search = |event: Event| {
        let (action, pending) = ask(go_on(detect_compare(some_fingerprints()), event));
        assert!(matches!(
            action,
            Action::Search { max_results: 3, sample_rate: 96000, .. }
        ));
        pending
    };
    // A better fingerprint match wins.
    let (action, pending) = ask(go_on(
        search(compared(0.7, 0.65)),
        Event::Found(vec![found(40, 0.9), found(41, 0.95)]),
    ));
    assert!(matches!(action, Action::FindZone { track_id: 40 }));
    let r = done(go_on(pending, Event::Zone(Some(zone("cellar")))));
    assert_eq!(r.message, "Zone detected: cellar");
    assert!(
        matches!(r.data, Some(ResponseData::Detected(d)) if d.method == Method::Fingerprint)
    );
    // A worse one does not, nor one that is no zone's, nor one that cannot be looked up.
    let look_up = || {
        ask(go_on(
            search(compared(0.7, 0.65)),
            Event::Found(vec![found(40, 0.06)]),
        ))
        .1
    };
    for event in [
        Event::Zone(Some(zone("cellar"))),
        Event::Zone(None),
        Event::Failed("why".to_string()),
    ] {
        let r = done(go_on(look_up(), event));
        assert_eq!(r.message, "Zone detected: kitchen");
    }
    // Too little confidence is not looked up.
    let r = done(go_on(
        search(compared(0.1, 0.2)),
        Event::Found(vec![found(40, 0.049)]),
    ));
    assert_eq!(r.message, "No zone detected");
    let r = done(go_on(
        search(compared(0.1, 0.2)),
        Event::Failed("why".to_string()),
    ));
    assert!(r.success);
    assert_eq!(r.message, "No zone detected");
}

#[test]
fn detecting_without_what_fails() {
    assert_eq!(failed(detect()).message, "Failed to read audio: why");
    let r = done(go_on(
        detect_load(Vec::new()),
        Event::Failed("why".to_string()),
    ));
    assert_eq!(r.message, "No zone detected");
    let (action, _) = ask(go_on(
        detect_load(some_fingerprints()),
        Event::Failed("why".to_string()),
    ));
    assert!(matches!(action, Action::Search { .. }));
}

#[test]
fn wrong_answers_are_not_accepted() {
    assert!(!accepts(&recognize(), &Event::Inserted(1)));
    assert!(!accepts(&ingest_stored(), &Event::Found(Vec::new())));
    let pending = detect_compare(Vec::new());
    assert!(!accepts(&pending, &Event::Failed(String::new())));
    assert!(!accepts(
        &pending,
        &Event::Compared {
            similarities: vec![double(0.1)],
            threshold: double(0.6)
        }
    ));
}

// ── Detection ───────────────────────────────────────────────────────

fn score(name: &str, x: f64) -> ZoneScore {
    ZoneScore {
        zone: name.to_string(),
        score: double(x),
    }
}

#[test]
fn unreadable_signatures_are_skipped() {
    let rows = vec![
        StoredSignature {
            zone: "odd".to_string(),
            bytes: vec![1, 2, 3],
        },
        StoredSignature {
            zone: "empty".to_string(),
            bytes: Vec::new(),
        },
        stored("good", &[2.0]),
    ];
    let zones = comparable_zones(&rows, 1);
    assert_eq!(zones.len(), 1);
    assert_eq!(zones[0].zone, "good");
    assert_eq!(zones[0].signature.vector[0], single(2.0));
    let empty = comparable_zones(&rows, 0);
    assert_eq!(empty.len(), 1);
    assert_eq!(empty[0].zone, "empty");
}

#[test]
fn the_first_of_the_most_similar_zones() {
    let d = match_signatures(
        None,
        &vec![
            score("nan", f64::NAN),
            score("a", 0.7),
            score("b", 0.9),
            score("c", 0.9),
        ],
        double(0.6),
    )
    .unwrap();
    assert_eq!(d.zone, "b");
    assert!(match_signatures(None, &vec![score("a", 0.6)], double(0.6)).is_none());
}

#[test]
fn the_confidence_that_counts() {
    assert_eq!(track_to_look_up(&vec![]), None);
    assert_eq!(track_to_look_up(&vec![found(3, 0.05)]), Some(3));
    assert_eq!(track_to_look_up(&vec![found(3, 0.04999)]), None);
    let best = Some(Detection {
        zone: "a".to_string(),
        confidence: double(0.5),
        method: Method::Signature,
    });
    let d = match_fingerprints(best, double(0.5), &Some(zone("b"))).unwrap();
    assert_eq!(d.zone, "a");
}

#[test]
fn a_direct_detection_compares_equal_dimensions() {
    let rows = vec![
        stored("small", &[1.0]),
        stored("hall", &[1.0, 0.0]),
        StoredSignature {
            zone: "odd".to_string(),
            bytes: vec![1, 2, 3],
        },
        stored("room", &[0.0, 1.0]),
    ];
    assert_eq!(comparable_zones(&rows, 2).len(), 2);
    assert!(matches!(
        direct_verdict(&rows, 2, &vec![double(0.7), double(0.9)], None),
        Verdict::BySignature { zone, similarity } if zone == "room" && similarity == double(0.9)
    ));
    assert!(matches!(
        direct_verdict(&rows, 1, &vec![double(0.7)], Some(score("hall", 0.8))),
        Verdict::ByHash { zone, .. } if zone == "hall"
    ));
    assert!(matches!(
        direct_verdict(&rows, 3, &vec![], None),
        Verdict::Nothing
    ));
}

#[test]
fn what_the_fingerprints_say_of_a_direct_detection() {
    assert_eq!(top_track(&vec![]), None);
    assert_eq!(top_track(&vec![found(3, 0.01), found(4, 0.9)]), Some(3));
    let s = hash_score(&vec![found(3, 0.01)], &Some(zone("hall"))).unwrap();
    assert_eq!((s.zone.as_str(), s.score), ("hall", double(0.01)));
    assert!(hash_score(&vec![found(3, 0.01)], &None).is_none());
    assert!(hash_score(&vec![], &Some(zone("hall"))).is_none());
}

/// Scans one mode, in which one zone of one dimension is stored.
fn scan_once(
    mode: FrequencyMode,
    best: Option<Detection>,
    zone_name: &str,
    similarity: f64,
    hash: Option<(&str, f64)>,
) -> Option<Detection> {
    let mut step = scan_begin(mode, best);
    loop {
        match step {
            ScanStep::Done(best) => return best,
            ScanStep::Ask { action, scan } => {
                let event = match action {
                    Action::Analyse { .. } => Event::Analysed {
                        fingerprints: some_fingerprints(),
                        signature: signature(&[1.0]),
                        duration_secs: single(3.0),
                    },
                    Action::LoadSignatures => Event::Signatures(vec![stored(zone_name, &[1.0])]),
                    Action::Compare { .. } => Event::Compared {
                        similarities: vec![double(similarity)],
                        threshold: double(0.6),
                    },
                    Action::Search { .. } => {
                        Event::Found(hash.iter().map(|h| found(9, h.1)).collect())
                    }
                    Action::FindZone { .. } => Event::Zone(hash.map(|h| zone(h.0))),
                    other => panic!("asked: {:?}", other),
                };
                assert!(scan_accepts(&scan, &event));
                step = scan_advance(scan, event);
            }
        }
    }
}

#[test]
fn the_best_match_across_all_modes() {
    let first = scan_once(FrequencyMode::Ultrasonic, None, "a", 0.7, None);
    let second = scan_once(FrequencyMode::Audible, first, "b", 0.5, Some(("c", 0.9)));
    let third = scan_once(FrequencyMode::Full, second, "d", 0.8, Some(("e", 0.04)));
    let d = third.unwrap();
    assert_eq!((d.zone.as_str(), d.confidence), ("c", double(0.9)));
    let d = scan_once(FrequencyMode::Full, Some(d), "d", 0.95, Some(("e", 0.9))).unwrap();
    assert_eq!((d.zone.as_str(), d.confidence), ("d", double(0.95)));
}

#[test]
fn what_a_direct_detection_reports() {
    assert!(best_zone(&vec![]).is_none());
    assert_eq!(
        best_zone(&vec![score("a", -0.5), score("b", 0.1), score("c", 0.1)])
            .unwrap()
            .zone,
        "b"
    );
    assert!(matches!(
        pick_zone(Some(score("a", 0.1)), Some(score("a", 0.3))),
        Verdict::Both { zone, confidence, similarity }
            if zone == "a" && confidence == double(0.3) && similarity == double(0.1)
    ));
    assert!(matches!(
        pick_zone(Some(score("a", 0.8)), Some(score("b", 0.7))),
        Verdict::BySignature { zone, .. } if zone == "a"
    ));
    assert!(matches!(
        pick_zone(Some(score("a", 0.8)), Some(score("b", 0.9))),
        Verdict::ByHash { zone, .. } if zone == "b"
    ));
    assert!(matches!(
        pick_zone(Some(score("a", 0.5)), Some(score("b", 0.1))),
        Verdict::ByHash { zone, .. } if zone == "b"
    ));
    assert!(matches!(
        pick_zone(Some(score("a", 0.61)), None),
        Verdict::BySignature { .. }
    ));
    assert!(matches!(
        pick_zone(Some(score("a", 0.6f32 as f64)), None),
        Verdict::Nothing
    ));
    assert!(matches!(
        pick_zone(None, Some(score("b", 0.01))),
        Verdict::ByHash { .. }
    ));
    assert!(matches!(pick_zone(None, None), Verdict::Nothing));
}

// ── Monitor ─────────────────────────────────────────────────────────

#[test]
fn unknown_modes_are_not_scanned() {
    let names = ["ultrasonic", "infra", "audible"].map(|s| s.to_string());
    assert_eq!(
        modes_to_scan(&names.to_vec()),
        vec![FrequencyMode::Ultrasonic, FrequencyMode::Audible]
    );
}

#[test]
fn a_scan() {
    let step = scan_begin(FrequencyMode::Audible, None);
    let ScanStep::Ask { action, scan } = step else {
        panic!("no recording")
    };
    assert!(matches!(
        action,
        Action::Analyse {
            source: Source::Microphone { seconds: 3 },
            mode: FrequencyMode::Audible
        }
    ));
    let analysed = Event::Analysed {
        fingerprints: some_fingerprints(),
        signature: signature(&[1.0]),
        duration_secs: single(3.0),
    };
    assert!(scan_accepts(&scan, &analysed));
    let ScanStep::Ask { scan, .. } = scan_advance(scan, analysed) else {
        panic!("no signatures")
    };
    assert!(!scan_accepts(&scan, &Event::Removed(true)));
    let ScanStep::Ask { action, scan } =
        scan_advance(scan, Event::Signatures(vec![stored("hall", &[0.5])]))
    else {
        panic!("no comparison")
    };
    assert!(matches!(action, Action::Compare { zones, .. } if zones.len() == 1));
    let ScanStep::Ask { action, scan } = scan_advance(
        scan,
        Event::Compared {
            similarities: vec![double(0.7)],
            threshold: double(0.6),
        },
    ) else {
        panic!("no search")
    };
    assert!(matches!(
        action,
        Action::Search { max_results: 1, sample_rate: 16000, .. }
    ));
    let ScanStep::Ask { action, scan } =
        scan_advance(scan, Event::Found(vec![found(9, 0.8)]))
    else {
        panic!("no look-up")
    };
    assert!(matches!(action, Action::FindZone { track_id: 9 }));
    let ScanStep::Done(best) = scan_advance(scan, Event::Zone(Some(zone("attic")))) else {
        panic!("not done")
    };
    assert_eq!(best.unwrap().zone, "attic");
}

#[test]
fn a_scan_that_hears_nothing_keeps_the_best() {
    let best = Some(Detection {
        zone: "hall".to_string(),
        confidence: double(0.7),
        method: Method::Signature,
    });
    let ScanStep::Ask { scan, .. } = scan_begin(FrequencyMode::Full, best) else {
        panic!("no recording")
    };
    let ScanStep::Done(kept) = scan_advance(scan, Event::Failed("no microphone".to_string()))
    else {
        panic!("not done")
    };
    assert_eq!(kept.unwrap().zone, "hall");
}

fn detected(name: &str, x: f64) -> Option<Detection> {
    Some(Detection {
        zone: name.to_string(),
        confidence: double(x),
        method: Method::Signature,
    })
}

fn told(events: &[ZoneEvent]) -> Vec<String> {
    events
        .iter()
        .map(|e| format!("{} {} {}", e.event, e.zone, e.timestamp))
        .collect()
}

#[test]
fn moving_between_zones() {
    let (zone, events) = transition(None, &None, "1", "2");
    assert_eq!((zone.clone(), events.len()), (None, 0));

    let (zone, events) = transition(zone, &detected("hall", 0.7), "3", "4");
    assert_eq!(zone.as_deref(), Some("hall"));
    assert_eq!(told(&events), vec!["zone_enter hall 3"]);
    assert_eq!(events[0].confidence, Some(double(0.7)));

    let (zone, events) = transition(zone, &detected("hall", 0.9), "5", "6");
    assert_eq!(zone.as_deref(), Some("hall"));
    assert!(events.is_empty());

    let (zone, events) = transition(zone, &detected("attic", 0.8), "7", "8");
    assert_eq!(zone.as_deref(), Some("attic"));
    assert_eq!(told(&events), vec!["zone_exit hall 8", "zone_enter attic 7"]);
    assert_eq!(events[0].confidence, None);

    let (zone, events) = transition(zone, &None, "9", "10");
    assert_eq!(zone, None);
    assert_eq!(told(&events), vec!["zone_exit attic 9"]);
}
