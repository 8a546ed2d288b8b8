//! The visualiser: its wire formats, its requests, its page and its zone API.

use beacon::base64::base64_encode;
use beacon::capture::{encode_frame, FrameBuffer, ZoneState, FFT_SIZE, HOP_SIZE, NUM_BINS};
use beacon::database::{MatchResult, TrackInfo, ZoneInfo};
use beacon::fingerprint::Fingerprint;
use beacon::http::{
    json_response, page_response, parse_request, request_from_bytes, route, stream_event, stream_head,
    url_decode_bytes, urldecode, Route,
};
use beacon::ieee::{F32Bits, F64Bits};
use beacon::page::build_html;
use beacon::signature::Signature;
use beacon::zone_api::{
    continuous_report, once_reply, zone_audio, zone_deleted, zone_matches, zone_name, zone_saved,
    zone_track, ApiReply, Outcome,
};

// ── Base64 ──────────────────────────────────────────────────────────

#[test]
fn base64_vectors() {
    assert_eq!(base64_encode(b""), "");
    assert_eq!(base64_encode(b"f"), "Zg==");
    assert_eq!(base64_encode(b"fo"), "Zm8=");
    assert_eq!(base64_encode(b"foo"), "Zm9v");
    assert_eq!(base64_encode(b"foob"), "Zm9vYg==");
    assert_eq!(base64_encode(b"fooba"), "Zm9vYmE=");
    assert_eq!(base64_encode(b"foobar"), "Zm9vYmFy");
    assert_eq!(base64_encode(&[0xfb, 0xff, 0xbf]), "+/+/");
    assert_eq!(base64_encode(&[0x00, 0x10, 0x83]), "ABCD");
}

#[test]
fn base64_decodes_to_what_was_encoded() {
    let alphabet = "ABCDEFGHIJKLMNOPQRSTUVWXYZabcdefghijklmnopqrstuvwxyz0123456789+/";
    for len in 0..40usize {
        let data: Vec<u8> = (0..len).map(|i| (i * 37 + len * 11) as u8).collect();
        let mut bits: Vec<u8> = Vec::new();
        for c in base64_encode(&data).chars().filter(|c| *c != '=') {
            let v = alphabet.find(c).unwrap();
            for b in (0..6).rev() {
                bits.push((v >> b & 1) as u8);
            }
        }
        let decoded: Vec<u8> = bits
            .chunks_exact(8)
            .map(|byte| byte.iter().fold(0, |a, b| a * 2 + b))
            .collect();
        assert_eq!(decoded, data);
    }
}

// ── Requests ────────────────────────────────────────────────────────

#[test]
fn request_lines() {
    let r = parse_request("POST /zone/save HTTP/1.1\r\nHost: x\r\n\r\n{\"name\": \"a\"}");
    assert_eq!(r.method, "POST");
    assert_eq!(r.path, "/zone/save");
    assert_eq!(r.body, "{\"name\": \"a\"}");
    let r = parse_request("");
    assert_eq!((r.method.as_str(), r.path.as_str()), ("GET", "/"));
    assert_eq!(r.body, "");
    let r = parse_request("  DELETE \n/other");
    assert_eq!((r.method.as_str(), r.path.as_str()), ("DELETE", "/"));
    let r = parse_request("GET\t/a\u{2003}b");
    assert_eq!((r.method.as_str(), r.path.as_str()), ("GET", "/a"));
    let r = parse_request("GET / HTTP/1.1\r\n\r\none\r\n\r\ntwo");
    assert_eq!(r.body, "one");
    assert_eq!(parse_request("GET / HTTP/1.1\r\n\r\n").body, "");
}

#[test]
fn requests_are_read_as_the_text_methods_would() {
    for req in [
        "GET /zones HTTP/1.1\r\n\r\n",
        "\r\n\r\n",
        "\n",
        "a\r\n\r\n\r\n\r\nb",
        "\r\n\r\r\n\r\nx",
        "POST  /é  \r\nbody",
        "x",
    ] {
        let r = parse_request(req);
        let line = req.lines().next().unwrap_or("");
        let words: Vec<&str> = line.split_whitespace().collect();
        assert_eq!(r.method, words.first().copied().unwrap_or("GET"));
        assert_eq!(r.path, words.get(1).copied().unwrap_or("/"));
        assert_eq!(r.body, req.split("\r\n\r\n").nth(1).unwrap_or(""));
    }
}

#[test]
fn requests_from_bytes() {
    let r = request_from_bytes(b"GET /caf\xc3\xa9 HTTP/1.1\r\n\r\n");
    assert_eq!(r.path, "/café");
    let r = request_from_bytes(b"GET /\xff HTTP/1.1\r\n\r\nbody");
    assert_eq!(r.path, "/\u{fffd}");
    assert_eq!(r.body, "body");
}

/// A state that captures, and has captured two samples.
fn with_capture() -> ZoneState<u32> {
    let mut state: ZoneState<u32> = ZoneState::new(1);
    state.start_capture();
    state.feed(&[1, 2]);
    state
}

#[test]
fn names_in_bodies() {
    let (name, samples) = with_capture().begin_save("{\"name\": \" hall \"}").unwrap();
    assert_eq!(name, "hall");
    assert_eq!(samples, vec![1, 2]);
    let (name, _) = with_capture().begin_save("{\"name\":\"caf\\u00e9\"}").unwrap();
    assert_eq!(name, "café");
    for body in [
        "",
        "{}",
        "[\"name\"]",
        "{\"name\": 3}",
        "{\"name\": \"  \"}",
        "{\"name\": \"x\"",
    ] {
        let mut state = with_capture();
        let reply = state.begin_save(body).unwrap_err();
        assert_eq!(reply.error(), Some("name is required"));
        // Nothing has changed.
        assert!(state.capturing);
        assert_eq!(state.capture_buf, vec![1, 2]);
        assert_eq!(state.mono_history, vec![1, 2]);
    }
}

#[test]
fn saving_without_a_name_is_a_bad_request() {
    let r = request_from_bytes(b"POST /zone/save HTTP/1.1\r\n\r\n{\"name\":\"  \"}");
    assert!(matches!(route(&r.method, &r.path), Route::Save));
    let mut state = with_capture();
    let reply = state.begin_save(&r.body).unwrap_err();
    let body = format!("{{\"error\":\"{}\"}}", reply.error().unwrap());
    assert_eq!(
        json_response(reply.status(), &body),
        "HTTP/1.1 400 Bad Request\r\nContent-Type: application/json\r\nContent-Length: 28\r\n\
         Access-Control-Allow-Origin: *\r\n\r\n{\"error\":\"name is required\"}"
    );
    assert!(state.capturing);
    let (name, samples) = state.begin_save_as(Some(" hall ")).unwrap();
    assert_eq!((name.as_str(), samples), ("hall", vec![1, 2]));
    assert!(!state.capturing);
    assert!(state.capture_buf.is_empty());
    assert_eq!(state.mono_history, vec![1, 2]);
    assert!(matches!(
        state.begin_save_as(Some("hall")),
        Err(ApiReply::NothingCaptured)
    ));
    assert!(matches!(
        state.begin_save_as(None),
        Err(ApiReply::NameRequired)
    ));
}

#[test]
fn routes() {
    assert!(matches!(route("GET", "/stream"), Route::Stream));
    assert!(matches!(route("GET", "/info"), Route::Info));
    assert!(matches!(
        route("POST", "/zone/capture/start"),
        Route::CaptureStart
    ));
    assert!(matches!(
        route("POST", "/zone/capture/stop"),
        Route::CaptureStop
    ));
    assert!(matches!(route("POST", "/zone/save"), Route::Save));
    assert!(matches!(route("GET", "/zones"), Route::ListZones));
    assert!(matches!(
        route("POST", "/zone/detect/start"),
        Route::DetectStart
    ));
    assert!(matches!(
        route("POST", "/zone/detect/stop"),
        Route::DetectStop
    ));
    assert!(matches!(route("GET", "/zone/events"), Route::Events));
    assert!(matches!(
        route("GET", "/zone/detect/once"),
        Route::DetectOnce
    ));
    assert!(matches!(route("GET", "/"), Route::Page));
    assert!(matches!(route("POST", "/stream"), Route::Page));
    assert!(matches!(route("GET", "/zone/delete"), Route::Page));
    assert!(
        matches!(route("DELETE", "/zone/delete/my%20room"), Route::Delete { zone } if zone == "my room")
    );
    assert!(matches!(route("GET", "/zone/delete/"), Route::Delete { zone } if zone.is_empty()));
}

#[test]
fn percent_decoding() {
    assert_eq!(urldecode("my%20room+2"), "my room 2");
    assert_eq!(urldecode("caf%C3%A9"), "café");
    assert_eq!(urldecode("caf%c3%a9"), "café");
    assert_eq!(urldecode("plain-é"), "plain-é");
    assert_eq!(urldecode("%4"), "@");
    assert_eq!(urldecode("%"), "\0");
    assert_eq!(urldecode("%zz"), "\0");
    assert_eq!(urldecode("a%FFb"), "a\u{fffd}b");
    let bytes: Vec<u8> = (0..=255).collect();
    let encoded: String = bytes.iter().map(|b| format!("%{:02X}", b)).collect();
    assert_eq!(url_decode_bytes(encoded.as_bytes()), bytes);
    assert_eq!(url_decode_bytes(b"a-b_c"), b"a-b_c");
}

#[test]
fn responses() {
    assert_eq!(
        json_response(404, "{\"é\":1}"),
        "HTTP/1.1 404 Not Found\r\nContent-Type: application/json\r\nContent-Length: 8\r\n\
         Access-Control-Allow-Origin: *\r\n\r\n{\"é\":1}"
    );
    assert!(json_response(200, "").starts_with("HTTP/1.1 200 OK\r\n"));
    assert!(json_response(400, "").starts_with("HTTP/1.1 400 Bad Request\r\n"));
    assert!(json_response(500, "").starts_with("HTTP/1.1 500 OK\r\n"));
    assert_eq!(
        page_response("<p>–</p>"),
        "HTTP/1.1 200 OK\r\nContent-Type: text/html; charset=utf-8\r\nContent-Length: 10\r\n\r\n\
         <p>–</p>"
    );
    assert_eq!(
        stream_head(),
        "HTTP/1.1 200 OK\r\nContent-Type: text/event-stream\r\nCache-Control: no-cache\r\n\
         Connection: keep-alive\r\nAccess-Control-Allow-Origin: *\r\n\r\n"
    );
    assert_eq!(stream_event("abc"), "data: abc\n\n");
}

#[test]
fn the_page() {
    let html = build_html(96000, "Mic <1>", "46.9", "46.875");
    assert!(html.starts_with("<!DOCTYPE html>\n<html><head>"));
    assert!(html.ends_with("</script>\n</body></html>"));
    assert!(html.contains("Mic &lt;1&gt;"));
    assert!(html.contains("96000Hz · 48000Hz Nyquist · 46.9"));
    assert!(html.contains("const SAMPLE_RATE = 96000;\nconst NYQUIST = 48000;\nconst NUM_BINS = 1025;\nconst FREQ_RES = 46.875;"));
    assert!(html.contains("24–48"));
    assert!(html.contains("  full:  [0, 48000],\n"));
    assert_eq!(html.matches('{').count(), html.matches('}').count());
}

// ── Capture ─────────────────────────────────────────────────────────

#[test]
fn the_history_holds_the_last_samples() {
    let mut state: ZoneState<u32> = ZoneState::new(1);
    assert_eq!(state.max_history_samples, 10);
    state.feed(&[1, 2, 3]);
    assert_eq!(state.mono_history, vec![1, 2, 3]);
    state.feed(&(4..=12).collect::<Vec<u32>>());
    assert_eq!(state.mono_history, (3..=12).collect::<Vec<u32>>());
    state.feed(&(100..130).collect::<Vec<u32>>());
    assert_eq!(state.mono_history, (120..130).collect::<Vec<u32>>());
    assert!(state.capture_buf.is_empty());
}

#[test]
fn capturing() {
    let mut state: ZoneState<u32> = ZoneState::new(1);
    state.feed(&[1]);
    state.start_capture();
    state.feed(&[2, 3]);
    state.feed(&[4]);
    assert_eq!(state.stop_capture(), 3);
    state.feed(&[5]);
    assert_eq!(state.take_capture(), vec![2, 3, 4]);
    assert!(state.take_capture().is_empty());
    state.start_capture();
    state.feed(&[6]);
    state.start_capture();
    assert_eq!(state.stop_capture(), 0);
}

#[test]
fn detection_windows() {
    let mut state: ZoneState<u32> = ZoneState::new(1);
    state.feed(&[1, 2, 3, 4]);
    assert_eq!(state.detection_window(1), None);
    state.feed(&[5, 6]);
    assert_eq!(state.detection_window(1), Some(vec![2, 3, 4, 5, 6]));
    assert_eq!(state.continuous_window(1), None);
    state.start_detecting();
    state.set_last_detection("{}".to_string());
    assert_eq!(state.continuous_window(1), Some(vec![2, 3, 4, 5, 6]));
    assert_eq!(state.last_detection, "{}");
    state.stop_detecting();
    assert_eq!(state.continuous_window(1), None);
    assert_eq!(state.last_detection, "");
}

#[test]
fn frames_overlap_by_half() {
    let samples: Vec<u32> = (0..5000).collect();
    let mut buffer: FrameBuffer<u32> = FrameBuffer::new();
    assert_eq!(buffer.next_frame(), None);
    assert!(buffer.samples.is_empty());
    buffer.push(&samples);
    assert_eq!(buffer.samples, samples);
    buffer.compact();
    assert_eq!(buffer.samples, samples);
    for k in 0..3usize {
        let frame = buffer.next_frame().unwrap();
        assert_eq!(frame.len(), FFT_SIZE);
        assert_eq!(frame[0] as usize, k * HOP_SIZE);
        assert_eq!(frame[FFT_SIZE - 1] as usize, k * HOP_SIZE + FFT_SIZE - 1);
    }
    assert_eq!(buffer.next_frame(), None);
}

#[test]
fn compaction_and_limit() {
    let mut buffer: FrameBuffer<u32> = FrameBuffer::new();
    buffer.push(&(0..12000).collect::<Vec<u32>>());
    while buffer.next_frame().is_some() {}
    assert_eq!(buffer.cursor, 10240);
    buffer.compact();
    assert_eq!(buffer.cursor, 0);
    assert_eq!(buffer.samples, (10240..12000).collect::<Vec<u32>>());
    buffer.compact();
    assert_eq!(buffer.samples.len(), 1760);
    buffer.limit(1000);
    assert_eq!(buffer.samples.len(), 1760);
    buffer.push(&(12000..20000).collect::<Vec<u32>>());
    buffer.limit(1000);
    assert_eq!(buffer.samples, (15904..20000).collect::<Vec<u32>>());
}

#[test]
fn frame_messages() {
    let decibels: Vec<F32Bits> = (0..NUM_BINS)
        .map(|i| F32Bits {
            bits: (-(i as f32) / 8.0).to_bits(),
        })
        .collect();
    let msg = encode_frame(96000, &decibels);
    assert_eq!(msg.len(), 4106);
    assert_eq!(msg[0..2], 1025u16.to_le_bytes());
    assert_eq!(msg[2..6], 96000u32.to_le_bytes());
    assert_eq!(msg[6..10], (-0.0f32).to_le_bytes());
    assert_eq!(msg[4102..4106], (-128.0f32).to_le_bytes());
}

// ── Zone API ────────────────────────────────────────────────────────

fn zone(name: &str) -> ZoneInfo {
    ZoneInfo {
        id: 1,
        name: name.to_string(),
        track_id: 2,
        fingerprint_count: 3,
        duration_secs: F32Bits { bits: 0 },
        frequency_mode: "ultrasonic".to_string(),
        added_at: String::new(),
    }
}

fn found(match_count: usize) -> MatchResult {
    MatchResult {
        track: TrackInfo {
            id: 2,
            title: String::new(),
            artist: String::new(),
            album: None,
            duration_secs: F32Bits { bits: 0 },
            file_path: None,
            fingerprint_count: 0,
            added_at: String::new(),
        },
        match_count,
        confidence: F64Bits {
            bits: 0.25f64.to_bits(),
        },
        best_offset: 0,
        estimated_position_secs: F32Bits { bits: 0 },
    }
}

#[test]
fn saving_a_zone() {
    assert_eq!(zone_name(Some("  hall ")).unwrap(), "hall");
    let refused = zone_name(Some(" \t")).unwrap_err();
    assert_eq!(refused.error(), Some("name is required"));
    assert_eq!(refused.status(), 400);
    assert!(zone_name(None).is_err());

    assert_eq!(zone_audio(vec![1, 2]).unwrap(), vec![1, 2]);
    let refused = zone_audio(Vec::<u8>::new()).unwrap_err();
    assert_eq!(
        refused.error(),
        Some("No audio captured. Start capture first.")
    );
    assert_eq!(refused.status(), 400);

    let sig = Signature::from_embedding(vec![F32Bits { bits: 7 }; 3]);
    let refused = zone_track("hall", &Vec::new(), &sig).unwrap_err();
    assert_eq!(
        refused.error(),
        Some("No fingerprints could be extracted from the captured audio")
    );
    assert_eq!(refused.status(), 400);

    let fps = vec![Fingerprint { hash: 1, offset: 2 }];
    let track = zone_track("hall", &fps, &sig).unwrap();
    assert_eq!(track.title, "zone:hall");
    assert_eq!(track.artist, "beacon");
    assert_eq!(track.frequency_mode, "ultrasonic");
    assert_eq!(track.signature_bytes, sig.to_bytes());
    let reply = zone_saved("hall".to_string(), &track, F32Bits { bits: 5 }, 9);
    assert_eq!(reply.status(), 200);
    assert_eq!(reply.error(), None);
    assert!(matches!(
        reply,
        ApiReply::Saved { zone, fingerprints: 1, signature_dim: 3, track_id: 9, .. } if zone == "hall"
    ));
}

#[test]
fn deleting_a_zone() {
    let reply = zone_deleted("hall".to_string(), true);
    assert_eq!(reply.status(), 200);
    assert!(matches!(reply, ApiReply::Deleted { zone } if zone == "hall"));
    let reply = zone_deleted("hall".to_string(), false);
    assert_eq!(reply.status(), 404);
    assert_eq!(reply.error(), Some("Zone 'hall' not found"));
}

#[test]
fn detecting_once() {
    let reason = |outcome: Outcome| match once_reply(&outcome) {
        ApiReply::NotDetected { message } => message,
        other => panic!("{:?}", other),
    };
    assert_eq!(
        reason(Outcome::TooLittleAudio),
        "Not enough audio accumulated yet"
    );
    assert_eq!(reason(Outcome::NoFingerprints), "No fingerprints extracted");
    assert_eq!(
        reason(Outcome::NoDatabase { fingerprints: 4 }),
        "Database not available"
    );
    assert_eq!(reason(Outcome::Crashed), "Internal error");
    assert_eq!(
        reason(Outcome::Searched {
            fingerprints: 4,
            results: vec![found(5)],
            zones: vec![None],
        }),
        "No zone match"
    );
    let reply = once_reply(&Outcome::Searched {
        fingerprints: 4,
        results: vec![found(9), found(8), found(7)],
        zones: vec![None, Some(zone("hall")), Some(zone("attic"))],
    });
    assert!(
        matches!(reply, ApiReply::Detected(m) if m.zone == "hall" && m.match_count == 8)
    );
}

#[test]
fn detecting_continuously() {
    let matches = zone_matches(
        &vec![found(9), found(8), found(7)],
        &vec![Some(zone("hall")), None, Some(zone("attic"))],
    );
    let named: Vec<(&str, usize)> = matches
        .iter()
        .map(|m| (m.zone.as_str(), m.match_count))
        .collect();
    assert_eq!(named, vec![("hall", 9), ("attic", 7)]);

    assert!(continuous_report(&Outcome::TooLittleAudio).is_none());
    assert!(continuous_report(&Outcome::Crashed).is_none());
    let r = continuous_report(&Outcome::NoFingerprints).unwrap();
    assert_eq!(r.message, Some("No fingerprints extracted"));
    assert_eq!((r.matches.len(), r.fingerprints), (0, 0));
    let r = continuous_report(&Outcome::NoDatabase { fingerprints: 6 }).unwrap();
    assert_eq!(r.message, Some("Database not available"));
    assert_eq!(r.fingerprints, 6);
    let r = continuous_report(&Outcome::Searched {
        fingerprints: 11,
        results: vec![found(9)],
        zones: vec![Some(zone("hall"))],
    })
    .unwrap();
    assert_eq!((r.matches.len(), r.fingerprints), (1, 11));
    assert_eq!(r.message, None);
}
