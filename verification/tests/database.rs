//! Storing, searching and removing, over a real database in memory.

use beacon::database::{
    fingerprint_rows, lookup_key, rank_matches, search_results, track_removal, zone_removal,
    DbStats, Deletion, MatchResult, Scored, TrackInfo, SCHEMA,
};
use beacon::fingerprint::{Fingerprint, Fingerprinter};
use beacon::ieee::{F32Bits, F64Bits};
use beacon::matching::{best_alignment, collect_votes, match_candidates, Candidate, Hit};
use beacon::spectrogram::{frame_count, frame_span, Spectrogram, SpectrogramConfig};
use rusqlite::{Connection, OptionalExtension};
use rustfft::num_complex::Complex;
use rustfft::FftPlanner;

fn composite(freqs: &[(f32, f32)], duration_secs: f32, sample_rate: u32) -> Vec<f32> {
    let n = (duration_secs * sample_rate as f32) as usize;
    (0..n)
        .map(|i| {
            let t = i as f32 / sample_rate as f32;
            freqs
                .iter()
                .map(|(freq, amp)| amp * (2.0 * std::f32::consts::PI * freq * t).sin())
                .sum()
        })
        .collect()
}

fn fingerprint(samples: &[f32], sample_rate: u32) -> Vec<Fingerprint> {
    let config = SpectrogramConfig::default();
    let window = config.window_size;
    let num_frames = frame_count(samples.len(), window, config.hop_size);
    let num_bins = config.num_bins();
    let fft = FftPlanner::<f32>::new().plan_fft_forward(window);
    let mut magnitudes = Vec::new();
    for frame in 0..num_frames {
        let (start, end) = frame_span(samples.len(), frame, window, config.hop_size);
        let mut buffer: Vec<Complex<f32>> = samples[start..end]
            .iter()
            .enumerate()
            .map(|(i, s)| {
                let x = 2.0 * std::f32::consts::PI * i as f32 / (window - 1) as f32;
                Complex::new(s * 0.5 * (1.0 - x.cos()), 0.0)
            })
            .collect();
        fft.process(&mut buffer);
        for c in &buffer[..num_bins] {
            magnitudes.push(F32Bits {
                bits: (c.re * c.re + c.im * c.im).sqrt().to_bits(),
            });
        }
    }
    Fingerprinter::with_defaults().fingerprint_spectrogram(&Spectrogram {
        magnitudes,
        num_frames,
        num_bins,
        hop_size: config.hop_size,
        sample_rate,
    })
}

fn open() -> Connection {
    let conn = Connection::open_in_memory().unwrap();
    conn.execute_batch(SCHEMA).unwrap();
    conn
}

fn insert_track(
    conn: &Connection,
    title: &str,
    artist: &str,
    album: Option<&str>,
    duration: f32,
    fingerprints: &[Fingerprint],
) -> i64 {
    conn.execute(
        "INSERT INTO tracks (title, artist, album, duration, fp_count) VALUES (?1, ?2, ?3, ?4, ?5)",
        (title, artist, album, duration, fingerprints.len()),
    )
    .unwrap();
    let track_id = conn.last_insert_rowid();
    for row in fingerprint_rows(fingerprints, track_id) {
        conn.execute(
            "INSERT INTO fingerprints (hash, track_id, offset) VALUES (?1, ?2, ?3)",
            (row.hash, row.track_id, row.offset),
        )
        .unwrap();
    }
    track_id
}

fn get_track(conn: &Connection, id: i64) -> Option<TrackInfo> {
    conn.query_row(
        "SELECT title, artist, album, duration, fp_count FROM tracks WHERE id = ?1",
        [id],
        |row| {
            Ok(TrackInfo {
                id,
                title: row.get(0)?,
                artist: row.get(1)?,
                album: row.get(2)?,
                duration_secs: F32Bits {
                    bits: row.get::<_, f32>(3)?.to_bits(),
                },
                file_path: None,
                fingerprint_count: row.get::<_, i64>(4)? as usize,
                added_at: String::new(),
            })
        },
    )
    .optional()
    .unwrap()
}

fn search(conn: &Connection, query: &Vec<Fingerprint>, max: usize, rate: u32) -> Vec<MatchResult> {
    let mut stmt = conn
        .prepare("SELECT track_id, offset FROM fingerprints WHERE hash = ?1")
        .unwrap();
    let rows: Vec<Vec<Hit>> = query
        .iter()
        .map(|fp| {
            stmt.query_map([lookup_key(fp.hash)], |row| {
                Ok(Hit {
                    track_id: row.get(0)?,
                    offset: row.get(1)?,
                })
            })
            .unwrap()
            .map(|hit| hit.unwrap())
            .collect()
        })
        .collect();
    let scored: Vec<Scored> = match_candidates(query, &rows)
        .into_iter()
        .map(|candidate| Scored {
            track: get_track(conn, candidate.track_id),
            confidence: F64Bits {
                bits: (candidate.match_count as f64 / query.len() as f64)
                    .min(1.0)
                    .to_bits(),
            },
            estimated_position_secs: F32Bits {
                bits: (candidate.best_offset as f32 * 512.0 / rate as f32)
                    .max(0.0)
                    .to_bits(),
            },
            candidate,
        })
        .collect();
    search_results(&scored, max)
}

fn carry_out(conn: &Connection, plan: &[Deletion]) -> usize {
    let mut rows = 0;
    for deletion in plan {
        rows = match deletion {
            Deletion::Zone { name } => conn.execute("DELETE FROM zones WHERE name = ?1", [name]),
            Deletion::Fingerprints { track_id } => {
                conn.execute("DELETE FROM fingerprints WHERE track_id = ?1", [track_id])
            }
            Deletion::Track { track_id } => {
                conn.execute("DELETE FROM tracks WHERE id = ?1", [track_id])
            }
        }
        .unwrap();
    }
    rows
}

fn remove_zone(conn: &Connection, name: &str) -> bool {
    let track_id: Option<i64> = conn
        .query_row("SELECT track_id FROM zones WHERE name = ?1", [name], |row| {
            row.get(0)
        })
        .optional()
        .unwrap();
    match zone_removal(name, track_id) {
        Some(plan) => {
            carry_out(conn, &plan);
            true
        }
        None => false,
    }
}

fn insert_zone(conn: &Connection, name: &str, track_id: i64, mode: &str) -> i64 {
    conn.execute(
        "INSERT INTO zones (name, track_id, frequency_mode) VALUES (?1, ?2, ?3)",
        (name, track_id, mode),
    )
    .unwrap();
    conn.last_insert_rowid()
}

fn zone_names(conn: &Connection) -> Vec<String> {
    conn.prepare("SELECT name FROM zones ORDER BY name")
        .unwrap()
        .query_map((), |row| row.get(0))
        .unwrap()
        .map(|name| name.unwrap())
        .collect()
}

fn zone_of_track(conn: &Connection, track_id: i64) -> Option<String> {
    conn.query_row(
        "SELECT name FROM zones WHERE track_id = ?1",
        [track_id],
        |row| row.get(0),
    )
    .optional()
    .unwrap()
}

fn count(conn: &Connection, sql: &str) -> i64 {
    conn.query_row(sql, (), |row| row.get(0)).unwrap()
}

#[test]
fn test_insert_and_search() {
    let db = open();

    // Create a "song"
    let song = composite(
        &[(440.0, 0.5), (880.0, 0.3), (1320.0, 0.2), (220.0, 0.4)],
        5.0,
        16000,
    );
    let fingerprints = fingerprint(&song, 16000);
    insert_track(
        &db,
        "Test Song",
        "Test Artist",
        Some("Test Album"),
        5.0,
        &fingerprints,
    );

    // Search with the same signal
    let query_fps = fingerprint(&song, 16000);
    let results = search(&db, &query_fps, 5, 16000);

    assert!(!results.is_empty(), "Should find at least one match");
    assert_eq!(results[0].track.title, "Test Song");
    assert!(f64::from_bits(results[0].confidence.bits) > 0.5);
}

#[test]
fn test_zone_crud() {
    let db = open();
    let song = composite(&[(440.0, 0.5), (880.0, 0.3)], 3.0, 16000);
    let fingerprints = fingerprint(&song, 16000);
    let track_id = insert_track(&db, "kitchen-beacon", "beacon", None, 3.0, &fingerprints);

    // Insert zone
    let zone_id = insert_zone(&db, "kitchen", track_id, "audible");
    assert!(zone_id > 0);

    // List zones
    assert_eq!(count(&db, "SELECT COUNT(*) FROM zones"), 1);
    assert_eq!(
        db.query_row("SELECT name FROM zones", (), |row| row.get::<_, String>(0))
            .unwrap(),
        "kitchen"
    );
    assert_eq!(count(&db, "SELECT track_id FROM zones"), track_id);

    // Look up by track_id
    assert_eq!(zone_of_track(&db, track_id).unwrap(), "kitchen");

    // Remove zone (cascades to track + fingerprints)
    assert!(remove_zone(&db, "kitchen"));
    assert_eq!(count(&db, "SELECT COUNT(*) FROM zones"), 0);
    assert!(get_track(&db, track_id).is_none());
    assert_eq!(count(&db, "SELECT COUNT(*) FROM fingerprints"), 0);

    // Remove non-existent zone
    assert!(!remove_zone(&db, "nonexistent"));
}

#[test]
fn removing_a_track_keeps_the_others() {
    let db = open();
    let fps = vec![Fingerprint { hash: 1, offset: 2 }];
    let a = insert_track(&db, "a", "x", None, 1.0, &fps);
    let b = insert_track(&db, "b", "x", None, 1.0, &fps);
    assert!(carry_out(&db, &track_removal(a)) > 0);
    assert!(get_track(&db, a).is_none());
    assert!(get_track(&db, b).is_some());
    assert_eq!(count(&db, "SELECT COUNT(*) FROM fingerprints"), 1);
    assert_eq!(carry_out(&db, &track_removal(a)), 0);
}

#[test]
fn zones_go_with_their_track() {
    let db = open();
    let fps = vec![Fingerprint { hash: 1, offset: 2 }];
    let a = insert_track(&db, "a", "x", None, 1.0, &fps);
    let b = insert_track(&db, "b", "x", None, 1.0, &fps);
    insert_zone(&db, "hall", a, "audible");
    insert_zone(&db, "lobby", a, "full");
    insert_zone(&db, "room", b, "audible");

    // Only zones of other tracks stay.
    assert_eq!(carry_out(&db, &track_removal(a)), 1);
    assert_eq!(zone_names(&db), vec!["room"]);
    assert!(get_track(&db, b).is_some());
    assert_eq!(count(&db, "SELECT COUNT(*) FROM fingerprints"), 1);
}

#[test]
fn removing_a_zone_removes_all_zones_of_its_track() {
    let db = open();
    let fps = vec![Fingerprint { hash: 1, offset: 2 }];
    let a = insert_track(&db, "a", "x", None, 1.0, &fps);
    let b = insert_track(&db, "b", "x", None, 1.0, &fps);
    insert_zone(&db, "hall", a, "audible");
    insert_zone(&db, "lobby", a, "full");
    insert_zone(&db, "room", b, "audible");
    assert!(remove_zone(&db, "hall"));
    assert_eq!(zone_names(&db), vec!["room"]);
    assert!(get_track(&db, a).is_none());
    assert_eq!(count(&db, "SELECT COUNT(*) FROM fingerprints"), 1);
}

#[test]
fn a_track_takes_its_fingerprints_along() {
    let db = open();
    let fps = vec![Fingerprint { hash: 1, offset: 2 }];
    let a = insert_track(&db, "a", "x", None, 1.0, &fps);
    carry_out(&db, &[Deletion::Track { track_id: a }]);
    assert_eq!(count(&db, "SELECT COUNT(*) FROM fingerprints"), 0);
}

#[test]
fn an_excerpt_is_found_where_it_was_taken() {
    let db = open();
    let track: Vec<Fingerprint> = (0..40u32)
        .map(|i| Fingerprint {
            hash: u64::MAX - i as u64,
            offset: 3 * i,
        })
        .collect();
    insert_track(&db, "track", "x", None, 1.0, &track);
    let excerpt: Vec<Fingerprint> = track[10..20]
        .iter()
        .map(|f| Fingerprint {
            hash: f.hash,
            offset: f.offset - 30,
        })
        .collect();
    let results = search(&db, &excerpt, 5, 16000);
    assert_eq!(results.len(), 1);
    assert_eq!(results[0].match_count, 10);
    assert_eq!(results[0].best_offset, 30);
    assert_eq!(f64::from_bits(results[0].confidence.bits), 1.0);
    assert_eq!(
        f32::from_bits(results[0].estimated_position_secs.bits),
        0.96
    );
}

#[test]
fn four_votes_are_too_few() {
    let query: Vec<Fingerprint> = (0..6u32)
        .map(|i| Fingerprint {
            hash: i as u64,
            offset: i,
        })
        .collect();
    let hits = |n: usize| -> Vec<Vec<Hit>> {
        (0..6)
            .map(|i| {
                if i < n {
                    vec![Hit {
                        track_id: 1,
                        offset: i as i64 + 9,
                    }]
                } else {
                    Vec::new()
                }
            })
            .collect()
    };
    assert!(match_candidates(&query, &hits(4)).is_empty());
    assert_eq!(
        match_candidates(&query, &hits(5)),
        vec![Candidate {
            track_id: 1,
            best_offset: 9,
            match_count: 5
        }]
    );
    assert!(match_candidates(&Vec::new(), &Vec::new()).is_empty());
}

#[test]
fn votes_are_gathered_by_track() {
    let query = vec![
        Fingerprint {
            hash: 1,
            offset: 10,
        },
        Fingerprint { hash: 2, offset: 4 },
    ];
    let rows = vec![
        vec![
            Hit {
                track_id: 7,
                offset: 12,
            },
            Hit {
                track_id: 3,
                offset: 1,
            },
        ],
        vec![Hit {
            track_id: 7,
            offset: 4,
        }],
    ];
    let votes = collect_votes(&query, &rows);
    assert_eq!(votes.len(), 2);
    assert_eq!(votes[0].track_id, 7);
    assert_eq!(votes[0].offsets, vec![2, 0]);
    assert_eq!(votes[1].track_id, 3);
    assert_eq!(votes[1].offsets, vec![-9]);
}

#[test]
fn the_peak_of_a_histogram() {
    assert_eq!(best_alignment(&vec![]), (0, 0));
    assert_eq!(best_alignment(&vec![4]), (4, 1));
    assert_eq!(best_alignment(&vec![1, 2, 2, -5, -5, 2]), (2, 3));
    assert_eq!(best_alignment(&vec![9, 3, 3, 9]), (9, 2));
}

fn result(id: i64, match_count: usize) -> MatchResult {
    MatchResult {
        track: TrackInfo {
            id,
            title: format!("t{}", id),
            artist: String::new(),
            album: None,
            duration_secs: F32Bits { bits: 0 },
            file_path: None,
            fingerprint_count: 0,
            added_at: String::new(),
        },
        match_count,
        confidence: F64Bits { bits: 0 },
        best_offset: 0,
        estimated_position_secs: F32Bits { bits: 0 },
    }
}

#[test]
fn ranking_is_stable() {
    let ranked = rank_matches(vec![
        result(1, 5),
        result(2, 9),
        result(3, 5),
        result(4, 9),
        result(5, 7),
    ]);
    let ids: Vec<i64> = ranked.iter().map(|r| r.track.id).collect();
    assert_eq!(ids, vec![2, 4, 5, 1, 3]);
}

#[test]
fn results_need_a_track_and_are_limited() {
    let scored = |id: i64, n: usize, known: bool| Scored {
        candidate: Candidate {
            track_id: id,
            best_offset: -1,
            match_count: n,
        },
        track: if known {
            Some(result(id, 0).track)
        } else {
            None
        },
        confidence: F64Bits { bits: 1 },
        estimated_position_secs: F32Bits { bits: 2 },
    };
    let all = vec![
        scored(1, 6, true),
        scored(2, 90, false),
        scored(3, 8, true),
        scored(4, 7, true),
    ];
    let top = search_results(&all, 2);
    assert_eq!(top.len(), 2);
    assert_eq!(top[0].track.id, 3);
    assert_eq!(top[1].track.id, 4);
    assert_eq!(top[0].best_offset, -1);
    assert_eq!(search_results(&all, 9).len(), 3);
    assert!(search_results(&all, 0).is_empty());
}

#[test]
fn keys_have_the_bits_of_the_hash() {
    for hash in [0u64, 1, 1 << 63, (1 << 63) - 1, u64::MAX, 0x9e37_79b9_7f4a_7c15] {
        assert_eq!(lookup_key(hash), hash as i64);
    }
}

fn float_size(bytes: u64) -> String {
    if bytes < 1024 {
        format!("{} B", bytes)
    } else if bytes < 1024 * 1024 {
        format!("{:.1} KB", bytes as f64 / 1024.0)
    } else if bytes < 1024 * 1024 * 1024 {
        format!("{:.1} MB", bytes as f64 / (1024.0 * 1024.0))
    } else {
        format!("{:.2} GB", bytes as f64 / (1024.0 * 1024.0 * 1024.0))
    }
}

fn human(bytes: u64) -> String {
    DbStats {
        track_count: 0,
        fingerprint_count: 0,
        db_size_bytes: bytes,
    }
    .db_size_human()
}

#[test]
fn sizes_for_people() {
    assert_eq!(human(0), "0 B");
    assert_eq!(human(1023), "1023 B");
    assert_eq!(human(1024), "1.0 KB");
    assert_eq!(human(1536), "1.5 KB");
    assert_eq!(human(1024 * 1024 - 1), "1024.0 KB");
    assert_eq!(human(5 * 1024 * 1024), "5.0 MB");
    assert_eq!(human(3 * 1024 * 1024 * 1024 / 2), "1.50 GB");
}

#[test]
fn sizes_are_rounded_as_floats_are() {
    for bytes in 0..200_000u64 {
        assert_eq!(human(bytes), float_size(bytes));
    }
    let mut x: u64 = 88172645463325252;
    for _ in 0..200_000 {
        x ^= x << 13;
        x ^= x >> 7;
        x ^= x << 17;
        for shift in [0, 10, 24, 33, 44] {
            assert_eq!(human(x >> shift), float_size(x >> shift));
        }
    }
    for e in 10..64 {
        for d in 0..40u64 {
            for bytes in [(1u64 << e) + d, (1u64 << e) - d, (1u64 << e) + (d << (e / 2))] {
                assert_eq!(human(bytes), float_size(bytes));
            }
        }
    }
    assert_eq!(human(u64::MAX), float_size(u64::MAX));
    // Halfway between two hundredths of a GB.
    for k in 0..500u64 {
        let bytes = (1 << 30) + (k << 25) + (1 << 24);
        assert_eq!(human(bytes), float_size(bytes));
    }
}
