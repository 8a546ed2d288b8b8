//! Stored tracks and zones: what is written, what is found, what is deleted.
//!
//! Tracks, fingerprints and zones live in SQL tables. This module decides which
//! rows are written and deleted, turns the rows that lookups return into ranked
//! matches, and states what the tables hold afterwards.

use crate::fingerprint::Fingerprint;
use crate::ieee::{F32Bits, F64Bits};
use crate::matching::{Candidate, Hit};
use crate::text::push_decimal;
use vstd::prelude::*;
use vstd::string::*;

verus! {

/// The database schema. Zones and fingerprints are linked to a track, and go
/// when it does.
pub const SCHEMA: &'static str =
    "
PRAGMA journal_mode = WAL;
PRAGMA synchronous = NORMAL;
PRAGMA cache_size = -64000;

CREATE TABLE IF NOT EXISTS tracks (
    id          INTEGER PRIMARY KEY AUTOINCREMENT,
    title       TEXT NOT NULL,
    artist      TEXT NOT NULL DEFAULT 'Unknown',
    album       TEXT,
    duration    REAL NOT NULL DEFAULT 0.0,
    file_path   TEXT,
    fp_count    INTEGER NOT NULL DEFAULT 0,
    added_at    TEXT NOT NULL DEFAULT (datetime('now'))
);

CREATE TABLE IF NOT EXISTS fingerprints (
    hash        INTEGER NOT NULL,
    track_id    INTEGER NOT NULL,
    offset      INTEGER NOT NULL,
    FOREIGN KEY (track_id) REFERENCES tracks(id) ON DELETE CASCADE
);

CREATE INDEX IF NOT EXISTS idx_fp_hash ON fingerprints(hash);
CREATE INDEX IF NOT EXISTS idx_fp_track ON fingerprints(track_id);

CREATE TABLE IF NOT EXISTS zones (
    id              INTEGER PRIMARY KEY AUTOINCREMENT,
    name            TEXT NOT NULL UNIQUE,
    track_id        INTEGER NOT NULL,
    frequency_mode  TEXT NOT NULL DEFAULT 'ultrasonic',
    signature       BLOB,
    added_at        TEXT NOT NULL DEFAULT (datetime('now')),
    FOREIGN KEY (track_id) REFERENCES tracks(id) ON DELETE CASCADE
);

CREATE INDEX IF NOT EXISTS idx_zone_name ON zones(name);
";

/// Metadata for a stored track.
#[derive(Debug)]
pub struct TrackInfo {
    pub id: i64,
    pub title: String,
    pub artist: String,
    pub album: Option<String>,
    pub duration_secs: F32Bits,
    pub file_path: Option<String>,
    pub fingerprint_count: usize,
    pub added_at: String,
}

/// A match result from the database.
#[derive(Debug)]
pub struct MatchResult {
    pub track: TrackInfo,
    /// Number of matching fingerprint hashes.
    pub match_count: usize,
    /// Confidence score (0.0 - 1.0).
    pub confidence: F64Bits,
    /// Best offset alignment (in frames).
    pub best_offset: i64,
    /// Estimated position in the track (seconds).
    pub estimated_position_secs: F32Bits,
}

/// Metadata for a named zone.
#[derive(Debug)]
pub struct ZoneInfo {
    pub id: i64,
    pub name: String,
    pub track_id: i64,
    pub fingerprint_count: usize,
    pub duration_secs: F32Bits,
    pub frequency_mode: String,
    pub added_at: String,
}

/// Database statistics.
#[derive(Debug, Clone, Copy, PartialEq, Eq, Structural)]
pub struct DbStats {
    pub track_count: usize,
    pub fingerprint_count: usize,
    pub db_size_bytes: u64,
}

/// A copy of an optional text.
pub fn copy_text(text: &Option<String>) -> (r: Option<String>)
    ensures
        r == *text,
{
    match text {
        Some(t) => Some(t.clone()),
        None => None,
    }
}

impl Clone for TrackInfo {
    fn clone(&self) -> (r: TrackInfo)
        ensures
            r == *self,
    {
        TrackInfo {
            id: self.id,
            title: self.title.clone(),
            artist: self.artist.clone(),
            album: copy_text(&self.album),
            duration_secs: self.duration_secs,
            file_path: copy_text(&self.file_path),
            fingerprint_count: self.fingerprint_count,
            added_at: self.added_at.clone(),
        }
    }
}

impl Clone for MatchResult {
    fn clone(&self) -> (r: MatchResult)
        ensures
            r == *self,
    {
        MatchResult {
            track: self.track.clone(),
            match_count: self.match_count,
            confidence: self.confidence,
            best_offset: self.best_offset,
            estimated_position_secs: self.estimated_position_secs,
        }
    }
}

impl Clone for ZoneInfo {
    fn clone(&self) -> (r: ZoneInfo)
        ensures
            r == *self,
    {
        ZoneInfo {
            id: self.id,
            name: self.name.clone(),
            track_id: self.track_id,
            fingerprint_count: self.fingerprint_count,
            duration_secs: self.duration_secs,
            frequency_mode: self.frequency_mode.clone(),
            added_at: self.added_at.clone(),
        }
    }
}

/// A row of the fingerprints table.
#[derive(Debug, Clone, Copy, PartialEq, Eq, Structural)]
pub struct StoredFingerprint {
    pub hash: i64,
    pub track_id: i64,
    pub offset: i64,
}

/// The signed 64-bit integer with the bits of a hash.
pub open spec fn key_of(hash: u64) -> int {
    if hash < 0x8000_0000_0000_0000 {
        hash as int
    } else {
        hash - 0x1_0000_0000_0000_0000
    }
}

/// The integer that a hash is stored and looked up by: the signed one with its bits.
pub fn lookup_key(hash: u64) -> (r: i64)
    ensures
        r == key_of(hash),
{
    if hash < 0x8000_0000_0000_0000 {
        hash as i64
    } else {
        -((u64::MAX - hash) as i64) - 1
    }
}

/// The rows that a track's fingerprints are stored in.
pub open spec fn rows_of(fingerprints: Seq<Fingerprint>, track_id: i64) -> Seq<StoredFingerprint> {
    fingerprints.map_values(
        |f: Fingerprint|
            StoredFingerprint {
                hash: key_of(f.hash) as i64,
                track_id,
                offset: f.offset as i64,
            },
    )
}

/// The rows to store for a track's fingerprints, in order.
pub fn fingerprint_rows(fingerprints: &[Fingerprint], track_id: i64) -> (r: Vec<StoredFingerprint>)
    ensures
        r@ == rows_of(fingerprints@, track_id),
{
    let mut rows: Vec<StoredFingerprint> = Vec::new();
    let mut i: usize = 0;
    while i < fingerprints.len()
        invariant
            i <= fingerprints.len(),
            rows@ == rows_of(fingerprints@, track_id).take(i as int),
        decreases fingerprints.len() - i,
    {
        let fp = fingerprints[i];
        rows.push(
            StoredFingerprint { hash: lookup_key(fp.hash), track_id, offset: fp.offset as i64 },
        );
        i = i + 1;
        assert(rows@ =~= rows_of(fingerprints@, track_id).take(i as int));
    }
    assert(rows@ =~= rows_of(fingerprints@, track_id));
    rows
}

/// What a lookup by key returns from the fingerprints table.
pub open spec fn hits_in(table: Seq<StoredFingerprint>, key: i64) -> Seq<Hit>
    decreases table.len(),
{
    if table.len() == 0 {
        Seq::empty()
    } else if table.last().hash == key {
        hits_in(table.drop_last(), key).push(
            Hit { track_id: table.last().track_id, offset: table.last().offset },
        )
    } else {
        hits_in(table.drop_last(), key)
    }
}

/// Different hashes have different keys.
pub proof fn law_keys_are_distinct(a: u64, b: u64)
    requires
        key_of(a) == key_of(b),
    ensures
        a == b,
{
}

/// A track that was stored is found: in a table that holds a track's
/// fingerprint rows, whatever else it holds, a search with enough fingerprints
/// that occur in the track at one common distance finds the track, with at
/// least one vote per query fingerprint.
pub proof fn law_ingested_track_is_found(
    table: Seq<StoredFingerprint>,
    fingerprints: Seq<Fingerprint>,
    track_id: i64,
    query: Seq<Fingerprint>,
    distance: i64,
    rows: Seq<Vec<Hit>>,
)
    requires
        forall|m: int|
            0 <= m < fingerprints.len() ==> table.contains(
                #[trigger] rows_of(fingerprints, track_id)[m],
            ),
        forall|i: int|
            0 <= i < query.len() ==> occurs_in(fingerprints, #[trigger] query[i], distance),
        rows.len() == query.len(),
        forall|i: int|
            0 <= i < query.len() ==> (#[trigger] rows[i])@ == hits_in(
                table,
                key_of(query[i].hash) as i64,
            ),
        query.len() >= crate::matching::MIN_MATCHES,
        crate::matching::votes(query, rows, query.len() as int).len() <= usize::MAX,
    ensures
        ({
            let cast = crate::matching::votes(query, rows, query.len() as int);
            let found = crate::matching::candidate_of(cast, track_id);
            &&& crate::matching::candidates_of(
                cast,
                crate::matching::tracks_of(cast),
            ).contains(found)
            &&& found.match_count >= query.len()
        }),
{
    let ballot = Hit { track_id, offset: distance };
    assert forall|i: int| 0 <= i < query.len() implies #[trigger] crate::matching::votes_for(
        query[i],
        rows[i]@,
        ballot,
    ) by {
        assert(occurs_in(fingerprints, query[i], distance));
        let m = choose|m: int|
            0 <= m < fingerprints.len() && (#[trigger] fingerprints[m]).hash == query[i].hash
                && fingerprints[m].offset - query[i].offset == distance;
        let row = rows_of(fingerprints, track_id)[m];
        assert(table.contains(row));
        let p = choose|p: int| 0 <= p < table.len() && table[p] == row;
        lemma_row_is_hit(table, p);
        let hits = rows[i]@;
        let hit = Hit { track_id, offset: row.offset };
        let j = choose|j: int| 0 <= j < hits.len() && hits[j] == hit;
        assert(crate::matching::vote(query[i], hits[j]) == ballot);
    }
    crate::matching::law_stored_track_is_found(query, rows, track_id, distance);
}

/// A sound is recognised wherever it stands in a track: where a track's
/// constellation is that of a sound, some frames later, a search with the
/// sound's fingerprints finds the track.
pub proof fn law_delayed_sound_is_recognised(
    fingerprinter: crate::fingerprint::Fingerprinter,
    peaks: Seq<crate::fingerprint::Peak>,
    k: int,
    table: Seq<StoredFingerprint>,
    track_id: i64,
    rows: Seq<Vec<Hit>>,
)
    requires
        0 <= k,
        forall|i: int| 0 <= i < peaks.len() ==> (#[trigger] peaks[i]).frame + k <= u32::MAX,
        ({
            let query = fingerprinter.fingerprints_of(peaks, peaks.len() as int);
            let stored = fingerprinter.fingerprints_of(
                crate::fingerprint::delayed(peaks, k),
                peaks.len() as int,
            );
            &&& forall|m: int|
                0 <= m < stored.len() ==> table.contains(#[trigger] rows_of(stored, track_id)[m])
            &&& rows.len() == query.len()
            &&& forall|i: int|
                0 <= i < query.len() ==> (#[trigger] rows[i])@ == hits_in(
                    table,
                    key_of(query[i].hash) as i64,
                )
            &&& query.len() >= crate::matching::MIN_MATCHES
            &&& crate::matching::votes(query, rows, query.len() as int).len() <= usize::MAX
        }),
    ensures
        ({
            let query = fingerprinter.fingerprints_of(peaks, peaks.len() as int);
            let cast = crate::matching::votes(query, rows, query.len() as int);
            let found = crate::matching::candidate_of(cast, track_id);
            &&& crate::matching::candidates_of(
                cast,
                crate::matching::tracks_of(cast),
            ).contains(found)
            &&& found.match_count >= query.len()
        }),
{
    let n = peaks.len() as int;
    let query = fingerprinter.fingerprints_of(peaks, n);
    let stored = fingerprinter.fingerprints_of(crate::fingerprint::delayed(peaks, k), n);
    fingerprinter.law_delay_moves_offsets(peaks, k, n);
    if peaks.len() == 0 {
        assert(query.len() == 0);
    }
    assert(peaks[0].frame + k <= u32::MAX);
    assert forall|i: int| 0 <= i < query.len() implies occurs_in(
        stored,
        #[trigger] query[i],
        k as i64,
    ) by {
        assert(stored[i].hash == query[i].hash);
        assert(stored[i].offset - query[i].offset == k);
    }
    law_ingested_track_is_found(table, stored, track_id, query, k as i64, rows);
}

/// A fingerprint's hash occurs in a track, `distance` frames later.
pub open spec fn occurs_in(
    fingerprints: Seq<Fingerprint>,
    query: Fingerprint,
    distance: i64,
) -> bool {
    exists|m: int|
        0 <= m < fingerprints.len() && (#[trigger] fingerprints[m]).hash == query.hash
            && fingerprints[m].offset - query.offset == distance
}

proof fn lemma_row_is_hit(table: Seq<StoredFingerprint>, p: int)
    requires
        0 <= p < table.len(),
    ensures
        hits_in(table, table[p].hash).contains(
            Hit { track_id: table[p].track_id, offset: table[p].offset },
        ),
    decreases table.len(),
{
    let rest = table.drop_last();
    let row = table[p];
    let hit = Hit { track_id: row.track_id, offset: row.offset };
    let hits = hits_in(table, row.hash);
    if p < rest.len() {
        lemma_row_is_hit(rest, p);
        let before = hits_in(rest, row.hash);
        let j = choose|j: int| 0 <= j < before.len() && before[j] == hit;
        assert(hits[j] == hit);
    } else {
        assert(hits[hits.len() - 1] == hit);
    }
}

/// A candidate with what was looked up and measured for it.
#[derive(Debug)]
pub struct Scored {
    pub candidate: Candidate,
    /// The candidate's track, where it could be looked up.
    pub track: Option<TrackInfo>,
    /// Aligned matches per query fingerprint, at most 1.
    pub confidence: F64Bits,
    /// The alignment in seconds, at least 0.
    pub estimated_position_secs: F32Bits,
}

/// The matches among scored candidates: those whose track could be looked up.
pub open spec fn matches_of(scored: Seq<Scored>) -> Seq<MatchResult>
    decreases scored.len(),
{
    if scored.len() == 0 {
        Seq::empty()
    } else {
        let rest = matches_of(scored.drop_last());
        let s = scored.last();
        match s.track {
            Some(track) => rest.push(
                MatchResult {
                    track,
                    match_count: s.candidate.match_count,
                    confidence: s.confidence,
                    best_offset: s.candidate.best_offset,
                    estimated_position_secs: s.estimated_position_secs,
                },
            ),
            None => rest,
        }
    }
}

/// `results` with `m` put behind all that have at least as many matches.
pub open spec fn put_in_rank(results: Seq<MatchResult>, m: MatchResult) -> Seq<MatchResult>
    decreases results.len(),
{
    if results.len() == 0 || results.last().match_count >= m.match_count {
        results.push(m)
    } else {
        put_in_rank(results.drop_last(), m).push(results.last())
    }
}

/// The results by match count, highest first; equal ones keep their order.
pub open spec fn ranked(results: Seq<MatchResult>) -> Seq<MatchResult>
    decreases results.len(),
{
    if results.len() == 0 {
        Seq::empty()
    } else {
        put_in_rank(ranked(results.drop_last()), results.last())
    }
}

/// The first `n` of `results`.
pub open spec fn at_most(results: Seq<MatchResult>, n: usize) -> Seq<MatchResult> {
    if results.len() <= n {
        results
    } else {
        results.take(n as int)
    }
}

/// Puts one result in rank.
fn insert_ranked(results: &mut Vec<MatchResult>, m: MatchResult)
    ensures
        final(results)@ == put_in_rank(old(results)@, m),
{
    let ghost start = results@;
    let mut at: usize = results.len();
    assert(start.take(at as int) =~= start);
    assert(start.skip(at as int) =~= Seq::empty());
    assert(put_in_rank(start, m) =~= put_in_rank(start.take(at as int), m) + start.skip(at as int));
    while at > 0 && results[at - 1].match_count < m.match_count
        invariant
            at <= results.len(),
            results@ == start,
            put_in_rank(start, m) == put_in_rank(start.take(at as int), m) + start.skip(at as int),
        decreases at,
    {
        proof {
            let head = start.take(at as int);
            assert(head.drop_last() =~= start.take(at - 1));
            assert(head.last() == start[at - 1]);
            assert(put_in_rank(head, m) + start.skip(at as int) =~= put_in_rank(
                start.take(at - 1),
                m,
            ) + start.skip(at - 1));
        }
        at = at - 1;
    }
    results.insert(at, m);
    proof {
        let head = start.take(at as int);
        if at > 0 {
            assert(head.last() == start[at - 1]);
        }
        assert(start.insert(at as int, m) =~= head.push(m) + start.skip(at as int));
    }
}

/// Sorts by match count descending, keeping the order of equals.
pub fn rank_matches(results: Vec<MatchResult>) -> (r: Vec<MatchResult>)
    ensures
        r@ == ranked(results@),
{
    let mut sorted: Vec<MatchResult> = Vec::new();
    let mut i: usize = 0;
    while i < results.len()
        invariant
            i <= results.len(),
            sorted@ == ranked(results@.take(i as int)),
        decreases results.len() - i,
    {
        insert_ranked(&mut sorted, results[i].clone());
        assert(results@.take(i + 1).drop_last() =~= results@.take(i as int));
        i = i + 1;
    }
    assert(results@.take(i as int) =~= results@);
    sorted
}

/// The results of a search: the candidates whose track could be looked up,
/// those with the most matches first, at most `max_results` of them.
pub fn search_results(scored: &Vec<Scored>, max_results: usize) -> (r: Vec<MatchResult>)
    ensures
        r@ == at_most(ranked(matches_of(scored@)), max_results),
{
    let mut found: Vec<MatchResult> = Vec::new();
    let mut i: usize = 0;
    while i < scored.len()
        invariant
            i <= scored.len(),
            found@ == matches_of(scored@.take(i as int)),
        decreases scored.len() - i,
    {
        let s = &scored[i];
        assert(scored@.take(i + 1).drop_last() =~= scored@.take(i as int));
        match &s.track {
            Some(track) => {
                found.push(
                    MatchResult {
                        track: track.clone(),
                        match_count: s.candidate.match_count,
                        confidence: s.confidence,
                        best_offset: s.candidate.best_offset,
                        estimated_position_secs: s.estimated_position_secs,
                    },
                );
            },
            None => {},
        }
        i = i + 1;
    }
    assert(scored@.take(i as int) =~= scored@);
    let mut results = rank_matches(found);
    results.truncate(max_results);
    results
}

/// The results with a given match count.
pub open spec fn with_count(results: Seq<MatchResult>, count: usize) -> Seq<MatchResult> {
    results.filter(|m: MatchResult| m.match_count == count)
}

/// Ranking only reorders: it keeps every result, puts none with fewer matches
/// before one with more, and keeps the order of those with equal matches.
pub proof fn law_ranking_is_stable(results: Seq<MatchResult>, count: usize)
    ensures
        ranked(results).len() == results.len(),
        with_count(ranked(results), count) == with_count(results, count),
        forall|i: int, j: int|
            0 <= i <= j < results.len() ==> ranked(results)[i].match_count >= ranked(
                results,
            )[j].match_count,
    decreases results.len(),
{
    let is_count = |m: MatchResult| m.match_count == count;
    if results.len() == 0 {
        assert(ranked(results) =~= results);
    } else {
        let rest = results.drop_last();
        law_ranking_is_stable(rest, count);
        lemma_put_in_rank(ranked(rest), results.last(), count);
        lemma_filter_push(rest, results.last(), is_count);
        lemma_filter_push(ranked(rest), results.last(), is_count);
        assert(rest.push(results.last()) =~= results);
    }
}

proof fn lemma_filter_push(s: Seq<MatchResult>, m: MatchResult, p: spec_fn(MatchResult) -> bool)
    ensures
        s.push(m).filter(p) == (if p(m) {
            s.filter(p).push(m)
        } else {
            s.filter(p)
        }),
{
    reveal(Seq::filter);
    assert(s.push(m).drop_last() =~= s);
}

proof fn lemma_put_in_rank(sorted: Seq<MatchResult>, m: MatchResult, count: usize)
    requires
        forall|i: int, j: int|
            0 <= i <= j < sorted.len() ==> sorted[i].match_count >= sorted[j].match_count,
    ensures
        put_in_rank(sorted, m).len() == sorted.len() + 1,
        with_count(put_in_rank(sorted, m), count) == with_count(sorted.push(m), count),
        forall|i: int, j: int|
            0 <= i <= j < sorted.len() + 1 ==> put_in_rank(sorted, m)[i].match_count
                >= put_in_rank(sorted, m)[j].match_count,
        forall|i: int|
            0 <= i < sorted.len() + 1 ==> (#[trigger] put_in_rank(sorted, m)[i]) == m
                || sorted.contains(put_in_rank(sorted, m)[i]),
    decreases sorted.len(),
{
    let is_count = |x: MatchResult| x.match_count == count;
    let placed = put_in_rank(sorted, m);
    if sorted.len() == 0 || sorted.last().match_count >= m.match_count {
        assert forall|i: int| 0 <= i < sorted.len() + 1 implies (#[trigger] placed[i]) == m
            || sorted.contains(placed[i]) by {
            if i < sorted.len() {
                assert(sorted[i] == placed[i]);
            }
        }
    } else {
        let rest = sorted.drop_last();
        let last = sorted.last();
        lemma_put_in_rank(rest, m, count);
        let before = put_in_rank(rest, m);
        lemma_filter_push(before, last, is_count);
        lemma_filter_push(rest, m, is_count);
        lemma_filter_push(rest, last, is_count);
        lemma_filter_push(sorted, m, is_count);
        assert(rest.push(last) =~= sorted);
        assert forall|i: int| 0 <= i < sorted.len() + 1 implies (#[trigger] placed[i]) == m
            || sorted.contains(placed[i]) by {
            if i < before.len() {
                assert(placed[i] == before[i]);
                if before[i] != m {
                    let k = choose|k: int| 0 <= k < rest.len() && rest[k] == before[i];
                    assert(sorted[k] == before[i]);
                }
            } else {
                assert(sorted[sorted.len() - 1] == last);
            }
        }
        assert forall|i: int, j: int| 0 <= i <= j < sorted.len() + 1 implies placed[i].match_count
            >= placed[j].match_count by {
            if j == before.len() && i < j {
                assert(placed[i] == before[i]);
                if before[i] != m {
                    let k = choose|k: int| 0 <= k < rest.len() && rest[k] == before[i];
                    assert(sorted[k] == before[i]);
                }
            }
        }
    }
}

// ── Deletions ───────────────────────────────────────────────────────

/// A deletion from one of the tables.
#[derive(Debug)]
pub enum Deletion {
    /// The zone of this name.
    Zone { name: String },
    /// All fingerprints of a track.
    Fingerprints { track_id: i64 },
    /// A track, and with it whatever is linked to it.
    Track { track_id: i64 },
}

/// What the tables hold, as far as deletions change it.
pub ghost struct Tables {
    pub zones: Map<Seq<char>, i64>,
    pub fingerprints: Seq<StoredFingerprint>,
    pub tracks: Set<i64>,
}

/// Every zone and every fingerprint is linked to a track that there is, as the
/// foreign keys of the schema demand.
pub open spec fn linked(tables: Tables) -> bool {
    &&& forall|name: Seq<char>| #[trigger]
        tables.zones.contains_key(name) ==> tables.tracks.contains(tables.zones[name])
    &&& forall|i: int|
        0 <= i < tables.fingerprints.len() ==> tables.tracks.contains(
            (#[trigger] tables.fingerprints[i]).track_id,
        )
}

/// The zones that are linked to another track.
pub open spec fn zones_of_others(zones: Map<Seq<char>, i64>, track_id: i64) -> Map<
    Seq<char>,
    i64,
> {
    Map::new(
        |name: Seq<char>| zones.contains_key(name) && zones[name] != track_id,
        |name: Seq<char>| zones[name],
    )
}

/// The fingerprints that are linked to another track, in order.
pub open spec fn fingerprints_of_others(
    fingerprints: Seq<StoredFingerprint>,
    track_id: i64,
) -> Seq<StoredFingerprint> {
    fingerprints.filter(|f: StoredFingerprint| f.track_id != track_id)
}

/// The tables after one deletion. Deleting a track cascades: the zones and the
/// fingerprints that are linked to it go too.
pub open spec fn deleted(tables: Tables, deletion: Deletion) -> Tables {
    match deletion {
        Deletion::Zone { name } => Tables { zones: tables.zones.remove(name@), ..tables },
        Deletion::Fingerprints { track_id } => Tables {
            fingerprints: fingerprints_of_others(tables.fingerprints, track_id),
            ..tables
        },
        Deletion::Track { track_id } => if tables.tracks.contains(track_id) {
            Tables {
                zones: zones_of_others(tables.zones, track_id),
                fingerprints: fingerprints_of_others(tables.fingerprints, track_id),
                tracks: tables.tracks.remove(track_id),
            }
        } else {
            tables
        },
    }
}

/// The tables after several deletions, in order.
pub open spec fn carried_out(tables: Tables, plan: Seq<Deletion>) -> Tables
    decreases plan.len(),
{
    if plan.len() == 0 {
        tables
    } else {
        deleted(carried_out(tables, plan.drop_last()), plan.last())
    }
}

/// The deletions that remove a track and its fingerprints.
pub open spec fn removes_track(plan: Seq<Deletion>, track_id: i64) -> bool {
    &&& plan.len() == 2
    &&& plan[0] == Deletion::Fingerprints { track_id }
    &&& plan[1] == Deletion::Track { track_id }
}

/// The deletions that remove a zone with its track and fingerprints.
pub open spec fn removes_zone(plan: Seq<Deletion>, name: Seq<char>, track_id: i64) -> bool {
    &&& plan.len() == 3
    &&& plan[0] matches Deletion::Zone { name: n } && n@ == name
    &&& removes_track(plan.skip(1), track_id)
}

/// The deletions to carry out to remove a track.
pub fn track_removal(track_id: i64) -> (r: Vec<Deletion>)
    ensures
        removes_track(r@, track_id),
{
    let mut plan: Vec<Deletion> = Vec::new();
    plan.push(Deletion::Fingerprints { track_id });
    plan.push(Deletion::Track { track_id });
    plan
}

/// The deletions to carry out to remove a zone, given the track that its name
/// was looked up to; nothing is removed where there is no such zone.
pub fn zone_removal(name: &str, track_id: Option<i64>) -> (r: Option<Vec<Deletion>>)
    ensures
        r is Some <==> track_id is Some,
        r matches Some(plan) ==> removes_zone(plan@, name@, track_id->0),
{
    match track_id {
        Some(tid) => {
            let mut plan: Vec<Deletion> = Vec::new();
            plan.push(Deletion::Zone { name: name.to_owned() });
            plan.push(Deletion::Fingerprints { track_id: tid });
            plan.push(Deletion::Track { track_id: tid });
            Some(plan)
        },
        None => None,
    }
}

proof fn lemma_fingerprints_of_others(fingerprints: Seq<StoredFingerprint>, track_id: i64)
    ensures
        forall|i: int|
            0 <= i < fingerprints_of_others(fingerprints, track_id).len() ==> {
                &&& (#[trigger] fingerprints_of_others(fingerprints, track_id)[i]).track_id
                    != track_id
                &&& fingerprints.contains(fingerprints_of_others(fingerprints, track_id)[i])
            },
        fingerprints_of_others(fingerprints_of_others(fingerprints, track_id), track_id)
            == fingerprints_of_others(fingerprints, track_id),
{
    let kept = |f: StoredFingerprint| f.track_id != track_id;
    let left = fingerprints.filter(kept);
    assert forall|i: int| 0 <= i < left.len() implies (#[trigger] left[i]).track_id != track_id
        && fingerprints.contains(left[i]) by {
        fingerprints.lemma_filter_pred(kept, i);
        fingerprints.lemma_filter_contains_rev(kept, left[i]);
    }
    lemma_filter_keeps_all(left, track_id);
}

proof fn lemma_filter_keeps_all(fingerprints: Seq<StoredFingerprint>, track_id: i64)
    requires
        forall|i: int|
            0 <= i < fingerprints.len() ==> (#[trigger] fingerprints[i]).track_id != track_id,
    ensures
        fingerprints_of_others(fingerprints, track_id) == fingerprints,
    decreases fingerprints.len(),
{
    reveal(Seq::filter);
    if fingerprints.len() > 0 {
        lemma_filter_keeps_all(fingerprints.drop_last(), track_id);
        assert(fingerprints.drop_last().push(fingerprints.last()) =~= fingerprints);
    }
}

/// No deletion leaves a zone or a fingerprint linked to a track that is gone.
pub proof fn law_deletions_keep_links(tables: Tables, plan: Seq<Deletion>)
    requires
        linked(tables),
    ensures
        linked(carried_out(tables, plan)),
    decreases plan.len(),
{
    if plan.len() > 0 {
        law_deletions_keep_links(tables, plan.drop_last());
        let before = carried_out(tables, plan.drop_last());
        match plan.last() {
            Deletion::Zone { .. } => {},
            Deletion::Fingerprints { track_id } => {
                lemma_fingerprints_of_others(before.fingerprints, track_id);
            },
            Deletion::Track { track_id } => {
                lemma_fingerprints_of_others(before.fingerprints, track_id);
            },
        }
    }
}

/// Removing a track leaves neither the track, nor any of its fingerprints, nor
/// any zone that is linked to it; zones, fingerprints and tracks of others stay
/// as they were.
pub proof fn law_track_removal(tables: Tables, plan: Seq<Deletion>, track_id: i64)
    requires
        linked(tables),
        removes_track(plan, track_id),
    ensures
        carried_out(tables, plan) == (Tables {
            zones: zones_of_others(tables.zones, track_id),
            fingerprints: fingerprints_of_others(tables.fingerprints, track_id),
            tracks: tables.tracks.remove(track_id),
        }),
        forall|name: Seq<char>| #[trigger]
            tables.zones.contains_key(name) ==> (carried_out(tables, plan).zones.contains_key(name)
                <==> tables.zones[name] != track_id),
        forall|i: int|
            0 <= i < carried_out(tables, plan).fingerprints.len() ==> (
            #[trigger] carried_out(tables, plan).fingerprints[i]).track_id != track_id,
        linked(carried_out(tables, plan)),
{
    reveal_with_fuel(carried_out, 3);
    assert(plan.drop_last().last() == plan[0]);
    lemma_fingerprints_of_others(tables.fingerprints, track_id);
    law_deletions_keep_links(tables, plan);
    let after = carried_out(tables, plan);
    assert(after.zones =~= zones_of_others(tables.zones, track_id));
    assert(after.tracks =~= tables.tracks.remove(track_id));
}

/// Removing a zone leaves no zone of that name, neither its track nor any of
/// that track's fingerprints, nor any other zone of that track; zones,
/// fingerprints and tracks of others stay as they were.
pub proof fn law_zone_removal(
    tables: Tables,
    plan: Seq<Deletion>,
    name: Seq<char>,
    track_id: i64,
)
    requires
        linked(tables),
        tables.zones.contains_key(name),
        tables.zones[name] == track_id,
        removes_zone(plan, name, track_id),
    ensures
        carried_out(tables, plan) == (Tables {
            zones: zones_of_others(tables.zones, track_id),
            fingerprints: fingerprints_of_others(tables.fingerprints, track_id),
            tracks: tables.tracks.remove(track_id),
        }),
        !carried_out(tables, plan).zones.contains_key(name),
        !carried_out(tables, plan).tracks.contains(track_id),
        linked(carried_out(tables, plan)),
{
    reveal_with_fuel(carried_out, 4);
    assert(plan.skip(1)[0] == plan[1]);
    assert(plan.skip(1)[1] == plan[2]);
    assert(plan.drop_last().last() == plan[1]);
    assert(plan.drop_last().drop_last().last() == plan[0]);
    lemma_fingerprints_of_others(tables.fingerprints, track_id);
    law_deletions_keep_links(tables, plan);
    let after = carried_out(tables, plan);
    assert(after.zones =~= zones_of_others(tables.zones, track_id));
}

// ── Sizes ───────────────────────────────────────────────────────────

/// The integer nearest to `n / d`; of two equally near the even one.
pub open spec fn nearest(n: nat, d: nat) -> nat
    recommends
        d > 0,
{
    if 2 * (n % d) > d || (2 * (n % d) == d && n / d % 2 == 1) {
        n / d + 1
    } else {
        n / d
    }
}

/// Distance between neighbouring double-precision numbers of the size of `n`,
/// at least 1.
pub open spec fn precision(n: nat) -> nat
    decreases n,
{
    if n < 0x20_0000_0000_0000 {
        1
    } else {
        2 * precision(n / 2)
    }
}

/// The double-precision number nearest to `n`, an integer.
pub open spec fn as_double(n: nat) -> nat {
    nearest(n, precision(n)) * precision(n)
}

/// A number given in tenths, with one decimal.
pub open spec fn one_decimal(tenths: nat) -> Seq<char> {
    crate::text::decimal(tenths / 10) + seq!['.', crate::text::digit_char(tenths % 10)]
}

/// A number given in hundredths, with two decimals.
pub open spec fn two_decimals(hundredths: nat) -> Seq<char> {
    crate::text::decimal(hundredths / 100) + seq![
        '.',
        crate::text::digit_char(hundredths / 10 % 10),
        crate::text::digit_char(hundredths % 10),
    ]
}

/// A size in bytes, in the unit that suits it.
pub open spec fn human_size(bytes: nat) -> Seq<char> {
    if bytes < 1024 {
        crate::text::decimal(bytes) + " B"@
    } else if bytes < 1024 * 1024 {
        one_decimal(nearest(10 * bytes, 1024)) + " KB"@
    } else if bytes < 1024 * 1024 * 1024 {
        one_decimal(nearest(10 * bytes, 1024 * 1024)) + " MB"@
    } else {
        two_decimals(nearest(100 * as_double(bytes), 1024 * 1024 * 1024)) + " GB"@
    }
}

/// The integer nearest to `n / d`; of two equally near the even one.
fn round_div(n: u128, d: u128) -> (r: u128)
    requires
        d > 0,
        d <= 0x1_0000_0000_0000_0000,
        n <= 0x80_0000_0000_0000_0000,
    ensures
        r == nearest(n as nat, d as nat),
        r <= n / d + 1,
{
    let quotient: u128 = n / d;
    let rest: u128 = n % d;
    proof {
        vstd::arithmetic::div_mod::lemma_mod_bound(n as int, d as int);
        vstd::arithmetic::div_mod::lemma_div_is_ordered_by_denominator(n as int, 1, d as int);
    }
    if 2 * rest > d || (2 * rest == d && quotient % 2 == 1) {
        quotient + 1
    } else {
        quotient
    }
}

/// The double-precision number nearest to `n`.
fn to_double(n: u64) -> (r: u128)
    ensures
        r == as_double(n as nat),
        r <= n + 0x1000,
{
    let mut unit: u128 = 1;
    let mut rest: u64 = n;
    while rest >= 0x20_0000_0000_0000
        invariant
            precision(n as nat) == unit * precision(rest as nat),
            1 <= unit,
            rest * unit <= n,
            unit * 0x20_0000_0000_0000 <= 2 * 0x1_0000_0000_0000_0000,
        decreases rest,
    {
        proof {
            let p = precision((rest / 2) as nat) as int;
            assert(unit * (2 * p) == (unit * 2) * p) by (nonlinear_arith);
            assert((rest / 2) * (unit * 2) <= rest * unit) by (nonlinear_arith)
                requires
                    2 * (rest / 2) <= rest,
                    unit >= 1,
            ;
            assert(unit * 0x20_0000_0000_0000 <= rest * unit) by (nonlinear_arith)
                requires
                    rest >= 0x20_0000_0000_0000,
            ;
        }
        unit = unit * 2;
        rest = rest / 2;
    }
    assert(unit * precision(rest as nat) == unit) by (nonlinear_arith)
        requires
            precision(rest as nat) == 1,
    ;
    assert(unit <= 0x1000);
    let count: u128 = round_div(n as u128, unit);
    assert(count * unit <= n + unit) by (nonlinear_arith)
        requires
            unit >= 1,
            count <= (n as u128) / unit + 1,
    ;
    count * unit
}

impl DbStats {
    /// The size of the database in B, KB, MB or GB.
    pub fn db_size_human(&self) -> (r: String)
        ensures
            r@ == human_size(self.db_size_bytes as nat),
    {
        let bytes = self.db_size_bytes;
        let mut out = String::new();
        if bytes < 1024 {
            push_decimal(&mut out, bytes);
            out.append(" B");
        } else if bytes < 1024 * 1024 {
            let tenths: u128 = round_div(10 * (bytes as u128), 1024);
            push_tenths(&mut out, tenths as u64);
            out.append(" KB");
        } else if bytes < 1024 * 1024 * 1024 {
            let tenths: u128 = round_div(10 * (bytes as u128), 1024 * 1024);
            push_tenths(&mut out, tenths as u64);
            out.append(" MB");
        } else {
            let hundredths: u128 = round_div(100 * to_double(bytes), 1024 * 1024 * 1024);
            push_hundredths(&mut out, hundredths as u64);
            out.append(" GB");
        }
        assert(out@ =~= human_size(bytes as nat));
        out
    }
}

/// Appends a number given in tenths, with one decimal.
fn push_tenths(out: &mut String, tenths: u64)
    ensures
        final(out)@ == old(out)@ + one_decimal(tenths as nat),
{
    push_decimal(out, tenths / 10);
    out.push('.');
    out.push((48 + (tenths % 10) as u8) as char);
    assert(out@ =~= old(out)@ + one_decimal(tenths as nat));
}

/// Appends a number given in hundredths, with two decimals.
fn push_hundredths(out: &mut String, hundredths: u64)
    ensures
        final(out)@ == old(out)@ + two_decimals(hundredths as nat),
{
    push_decimal(out, hundredths / 100);
    out.push('.');
    out.push((48 + (hundredths / 10 % 10) as u8) as char);
    out.push((48 + (hundredths % 10) as u8) as char);
    assert(out@ =~= old(out)@ + two_decimals(hundredths as nat));
}

// ── What is stored, found and kept ──────────────────────────────────

/// A hash is stored by the signed number with the same bits: the hash itself
/// where that fits, else the hash less two to the sixty-fourth.
pub proof fn law_key_has_the_bits_of_the_hash(hash: u64)
    ensures
        i64::MIN <= key_of(hash) <= i64::MAX,
        key_of(hash) == hash || key_of(hash) == hash - 0x1_0000_0000_0000_0000,
{
}

/// A track's fingerprints are stored one row each, in order, with their hashes
/// and offsets, under the track.
pub proof fn law_every_fingerprint_is_stored(
    fingerprints: Seq<Fingerprint>,
    track_id: i64,
    i: int,
)
    requires
        0 <= i < fingerprints.len(),
    ensures
        rows_of(fingerprints, track_id).len() == fingerprints.len(),
        rows_of(fingerprints, track_id)[i].track_id == track_id,
        rows_of(fingerprints, track_id)[i].offset == fingerprints[i].offset,
        (rows_of(fingerprints, track_id)[i].hash - fingerprints[i].hash) % 0x1_0000_0000_0000_0000
            == 0,
{
}

/// The result is the match of a candidate whose track could be looked up.
pub open spec fn is_match_of(result: MatchResult, s: Scored) -> bool {
    &&& s.track == Some(result.track)
    &&& result.match_count == s.candidate.match_count
    &&& result.best_offset == s.candidate.best_offset
    &&& result.confidence == s.confidence
    &&& result.estimated_position_secs == s.estimated_position_secs
}

/// The candidate at `a` comes before the one at `b`: it has more matches, or as
/// many and stands before it in the list.
pub open spec fn ranks_before(scored: Seq<Scored>, a: int, b: int) -> bool {
    scored[a].candidate.match_count > scored[b].candidate.match_count || (
    scored[a].candidate.match_count == scored[b].candidate.match_count && a < b)
}

/// The results are the matches of the candidates at these places: in the order
/// of their ranks, no more than allowed, and none with a track is left out but
/// for want of room.
pub open spec fn best_matches_at(
    scored: Seq<Scored>,
    max_results: usize,
    results: Seq<MatchResult>,
    places: Seq<int>,
) -> bool {
    &&& places.len() == results.len()
    &&& results.len() <= max_results
    &&& forall|k: int|
        #![trigger places[k]]
        #![trigger results[k]]
        0 <= k < places.len() ==> 0 <= places[k] < scored.len() && is_match_of(
            results[k],
            scored[places[k]],
        )
    &&& forall|k: int, l: int|
        0 <= k < l < places.len() ==> ranks_before(
            scored,
            #[trigger] places[k],
            #[trigger] places[l],
        )
    &&& forall|j: int|
        #![trigger scored[j]]
        0 <= j < scored.len() && scored[j].track is Some ==> places.contains(j) || (results.len()
            == max_results && forall|k: int|
            0 <= k < places.len() ==> ranks_before(scored, #[trigger] places[k], j))
}

proof fn lemma_match_places(scored: Seq<Scored>) -> (places: Seq<int>)
    ensures
        places.len() == matches_of(scored).len(),
        forall|k: int|
            #![trigger places[k]]
            0 <= k < places.len() ==> 0 <= places[k] < scored.len() && is_match_of(
                matches_of(scored)[k],
                scored[places[k]],
            ),
        forall|k: int, l: int|
            0 <= k < l < places.len() ==> (#[trigger] places[k]) < (#[trigger] places[l]),
        forall|j: int|
            #![trigger scored[j]]
            0 <= j < scored.len() && scored[j].track is Some ==> places.contains(j),
    decreases scored.len(),
{
    if scored.len() == 0 {
        Seq::empty()
    } else {
        let rest = scored.drop_last();
        let n = scored.len() - 1;
        let before = lemma_match_places(rest);
        assert forall|k: int| 0 <= k < before.len() implies rest[#[trigger] before[k]]
            == scored[before[k]] by {}
        if scored.last().track is Some {
            let places = before.push(n);
            assert forall|j: int|
                #![trigger scored[j]]
                0 <= j < scored.len() && scored[j].track is Some implies places.contains(j) by {
                if j < n {
                    assert(rest[j] == scored[j]);
                    let k = choose|k: int| 0 <= k < before.len() && before[k] == j;
                    assert(places[k] == j);
                } else {
                    assert(places[before.len() as int] == j);
                }
            }
            places
        } else {
            assert forall|j: int|
                #![trigger scored[j]]
                0 <= j < scored.len() && scored[j].track is Some implies before.contains(j) by {
                assert(rest[j] == scored[j]);
            }
            before
        }
    }
}

proof fn lemma_put_at(sorted: Seq<MatchResult>, m: MatchResult) -> (at: int)
    requires
        forall|i: int, j: int|
            0 <= i <= j < sorted.len() ==> sorted[i].match_count >= sorted[j].match_count,
    ensures
        0 <= at <= sorted.len(),
        put_in_rank(sorted, m) == sorted.insert(at, m),
        forall|i: int| 0 <= i < at ==> (#[trigger] sorted[i]).match_count >= m.match_count,
        forall|i: int|
            at <= i < sorted.len() ==> (#[trigger] sorted[i]).match_count < m.match_count,
    decreases sorted.len(),
{
    if sorted.len() == 0 || sorted.last().match_count >= m.match_count {
        assert(sorted.push(m) =~= sorted.insert(sorted.len() as int, m));
        sorted.len() as int
    } else {
        let rest = sorted.drop_last();
        let at = lemma_put_at(rest, m);
        assert(put_in_rank(sorted, m) =~= sorted.insert(at, m));
        assert forall|i: int| 0 <= i < at implies (#[trigger] sorted[i]).match_count
            >= m.match_count by {
            assert(rest[i] == sorted[i]);
        }
        assert forall|i: int| at <= i < sorted.len() implies (#[trigger] sorted[i]).match_count
            < m.match_count by {
            if i < rest.len() {
                assert(rest[i] == sorted[i]);
            }
        }
        at
    }
}

proof fn lemma_rank_places(results: Seq<MatchResult>) -> (places: Seq<int>)
    ensures
        places.len() == results.len(),
        ranked(results).len() == results.len(),
        forall|k: int|
            #![trigger places[k]]
            0 <= k < places.len() ==> 0 <= places[k] < results.len() && ranked(results)[k]
                == results[places[k]],
        forall|k: int, l: int|
            0 <= k < l < places.len() ==> ({
                let a = #[trigger] places[k];
                let b = #[trigger] places[l];
                results[a].match_count > results[b].match_count || (results[a].match_count
                    == results[b].match_count && a < b)
            }),
        forall|j: int| 0 <= j < results.len() ==> #[trigger] places.contains(j),
    decreases results.len(),
{
    if results.len() == 0 {
        Seq::empty()
    } else {
        let rest = results.drop_last();
        let n = results.len() - 1;
        let m = results.last();
        let before = lemma_rank_places(rest);
        law_ranking_is_stable(rest, 0);
        let at = lemma_put_at(ranked(rest), m);
        let places = before.insert(at, n);
        assert forall|k: int| 0 <= k < before.len() implies rest[#[trigger] before[k]]
            == results[before[k]] by {}
        assert forall|k: int|
            #![trigger places[k]]
            0 <= k < places.len() implies 0 <= places[k] < results.len() && ranked(results)[k]
            == results[places[k]] by {
            if k < at {
                assert(places[k] == before[k]);
            } else if k > at {
                assert(places[k] == before[k - 1]);
            }
        }
        assert forall|k: int, l: int| 0 <= k < l < places.len() implies ({
            let a = #[trigger] places[k];
            let b = #[trigger] places[l];
            results[a].match_count > results[b].match_count || (results[a].match_count
                == results[b].match_count && a < b)
        }) by {
            if k < at {
                assert(places[k] == before[k]);
                assert(ranked(rest)[k] == rest[before[k]]);
            } else if k > at {
                assert(places[k] == before[k - 1]);
            }
            if l < at {
                assert(places[l] == before[l]);
            } else if l > at {
                assert(places[l] == before[l - 1]);
                assert(ranked(rest)[l - 1] == rest[before[l - 1]]);
            }
        }
        assert forall|j: int| 0 <= j < results.len() implies #[trigger] places.contains(j) by {
            if j == n {
                assert(places[at] == j);
            } else {
                assert(before.contains(j));
                let k = choose|k: int| 0 <= k < before.len() && before[k] == j;
                if k < at {
                    assert(places[k] == j);
                } else {
                    assert(places[k + 1] == j);
                }
            }
        }
        places
    }
}

/// A search gives the candidates with the most matches, as many as allowed,
/// best first.
pub proof fn law_search_gives_the_best(scored: Seq<Scored>, max_results: usize) -> (places: Seq<
    int,
>)
    ensures
        best_matches_at(
            scored,
            max_results,
            at_most(ranked(matches_of(scored)), max_results),
            places,
        ),
{
    let found = matches_of(scored);
    let sources = lemma_match_places(scored);
    let order = lemma_rank_places(found);
    let all = Seq::new(order.len(), |k: int| sources[order[k]]);
    let results = at_most(ranked(found), max_results);
    let places = if all.len() <= max_results {
        all
    } else {
        all.take(max_results as int)
    };
    assert forall|k: int| 0 <= k < all.len() implies 0 <= #[trigger] all[k] < scored.len()
        && is_match_of(ranked(found)[k], scored[all[k]]) by {
        assert(ranked(found)[k] == found[order[k]]);
        assert(is_match_of(found[order[k]], scored[sources[order[k]]]));
    }
    assert forall|k: int, l: int| 0 <= k < l < all.len() implies ranks_before(
        scored,
        #[trigger] all[k],
        #[trigger] all[l],
    ) by {
        let a = order[k];
        let b = order[l];
        assert(is_match_of(found[a], scored[sources[a]]));
        assert(is_match_of(found[b], scored[sources[b]]));
        if a < b {
            assert(sources[a] < sources[b]);
        }
    }
    assert forall|j: int|
        #![trigger scored[j]]
        0 <= j < scored.len() && scored[j].track is Some implies places.contains(j) || (
    results.len() == max_results && forall|k: int|
        0 <= k < places.len() ==> ranks_before(scored, #[trigger] places[k], j)) by {
        assert(sources.contains(j));
        let a = choose|a: int| 0 <= a < sources.len() && sources[a] == j;
        assert(order.contains(a));
        let l = choose|l: int| 0 <= l < order.len() && order[l] == a;
        assert(all[l] == j);
        if l < places.len() {
            assert(places[l] == j);
        } else {
            assert forall|k: int| 0 <= k < places.len() implies ranks_before(
                scored,
                #[trigger] places[k],
                j,
            ) by {
                assert(places[k] == all[k]);
                assert(ranks_before(scored, all[k], all[l]));
            }
        }
    }
    assert forall|k: int|
        #![trigger places[k]]
        #![trigger results[k]]
        0 <= k < places.len() implies 0 <= places[k] < scored.len() && is_match_of(
        results[k],
        scored[places[k]],
    ) by {
        assert(places[k] == all[k]);
        assert(results[k] == ranked(found)[k]);
    }
    assert forall|k: int, l: int| 0 <= k < l < places.len() implies ranks_before(
        scored,
        #[trigger] places[k],
        #[trigger] places[l],
    ) by {
        assert(places[k] == all[k] && places[l] == all[l]);
    }
    places
}

/// Removing a track or a zone, row by row: of what is linked to the track
/// nothing is left, and all else is as it was.
pub proof fn law_removal_row_by_row(
    tables: Tables,
    plan: Seq<Deletion>,
    name: Seq<char>,
    track_id: i64,
    other: Seq<char>,
    row: StoredFingerprint,
    track: i64,
)
    requires
        linked(tables),
        removes_track(plan, track_id) || (removes_zone(plan, name, track_id)
            && tables.zones.contains_key(name) && tables.zones[name] == track_id),
    ensures
        ({
            let after = carried_out(tables, plan);
            &&& after.zones.contains_key(other) <==> tables.zones.contains_key(other)
                && tables.zones[other] != track_id
            &&& after.zones.contains_key(other) ==> after.zones[other] == tables.zones[other]
            &&& row.track_id == track_id ==> !after.fingerprints.contains(row)
            &&& row.track_id != track_id ==> after.fingerprints.to_multiset().count(row)
                == tables.fingerprints.to_multiset().count(row)
            &&& after.tracks.contains(track) <==> tables.tracks.contains(track) && track
                != track_id
        }),
{
    if removes_track(plan, track_id) {
        law_track_removal(tables, plan, track_id);
    } else {
        law_zone_removal(tables, plan, name, track_id);
    }
    lemma_fingerprints_of_others(tables.fingerprints, track_id);
    if row.track_id != track_id {
        lemma_count_of_others(tables.fingerprints, track_id, row);
    }
}

proof fn lemma_count_of_others(
    fingerprints: Seq<StoredFingerprint>,
    track_id: i64,
    row: StoredFingerprint,
)
    requires
        row.track_id != track_id,
    ensures
        fingerprints_of_others(fingerprints, track_id).to_multiset().count(row)
            == fingerprints.to_multiset().count(row),
    decreases fingerprints.len(),
{
    reveal(Seq::filter);
    broadcast use vstd::seq_lib::group_to_multiset_ensures;

    if fingerprints.len() == 0 {
        assert(fingerprints_of_others(fingerprints, track_id) =~= fingerprints);
    } else {
        let rest = fingerprints.drop_last();
        lemma_count_of_others(rest, track_id, row);
        assert(rest.push(fingerprints.last()) =~= fingerprints);
        assert(fingerprints.to_multiset() =~= rest.to_multiset().insert(fingerprints.last()));
        if fingerprints.last().track_id != track_id {
            let kept = fingerprints_of_others(rest, track_id);
            assert(fingerprints_of_others(fingerprints, track_id) =~= kept.push(
                fingerprints.last(),
            ));
        }
    }
}

/// Rounding gives the nearest integer: it is off by at most half, and even where
/// it is off by half.
pub proof fn law_rounding_is_to_nearest(n: nat, d: nat)
    requires
        d > 0,
    ensures
        2 * (n - d * nearest(n, d)) <= d,
        2 * (d * nearest(n, d) - n) <= d,
        2 * (n - d * nearest(n, d)) == d || 2 * (d * nearest(n, d) - n) == d ==> nearest(n, d) % 2
            == 0,
{
    vstd::arithmetic::div_mod::lemma_fundamental_div_mod(n as int, d as int);
    vstd::arithmetic::div_mod::lemma_mod_bound(n as int, d as int);
    assert(d * (n / d + 1) == d * (n / d) + d) by (nonlinear_arith);
}

/// A size is told in the largest unit of which it has at least one, to the
/// nearest tenth of a KB or MB and to the nearest hundredth of a GB.
pub proof fn law_size_suits_its_unit(bytes: nat)
    ensures
        bytes < 0x400 ==> human_size(bytes) == crate::text::decimal(bytes) + " B"@,
        0x400 <= bytes < 0x10_0000 ==> exists|tenths: nat| #[trigger]
            reads_as_tenths(human_size(bytes), tenths, " KB"@) && 2 * (10 * bytes - 0x400 * tenths)
                <= 0x400 && 2 * (0x400 * tenths - 10 * bytes) <= 0x400,
        0x10_0000 <= bytes < 0x4000_0000 ==> exists|tenths: nat| #[trigger]
            reads_as_tenths(human_size(bytes), tenths, " MB"@) && 2 * (10 * bytes - 0x10_0000
                * tenths) <= 0x10_0000 && 2 * (0x10_0000 * tenths - 10 * bytes) <= 0x10_0000,
        0x4000_0000 <= bytes < 0x20_0000_0000_0000 ==> exists|hundredths: nat| #[trigger]
            reads_as_hundredths(human_size(bytes), hundredths, " GB"@) && 2 * (100 * bytes
                - 0x4000_0000 * hundredths) <= 0x4000_0000 && 2 * (0x4000_0000 * hundredths - 100
                * bytes) <= 0x4000_0000,
        bytes >= 0x20_0000_0000_0000 ==> exists|hundredths: nat| #[trigger]
            reads_as_hundredths(human_size(bytes), hundredths, " GB"@) && 2 * (100 * as_double(
                bytes,
            ) - 0x4000_0000 * hundredths) <= 0x4000_0000 && 2 * (0x4000_0000 * hundredths - 100
                * as_double(bytes)) <= 0x4000_0000,
{
    if 0x400 <= bytes < 0x10_0000 {
        let tenths = nearest(10 * bytes, 0x400);
        law_rounding_is_to_nearest(10 * bytes, 0x400);
        lemma_one_decimal(tenths, " KB"@);
        assert(reads_as_tenths(human_size(bytes), tenths, " KB"@));
    } else if 0x10_0000 <= bytes < 0x4000_0000 {
        let tenths = nearest(10 * bytes, 0x10_0000);
        law_rounding_is_to_nearest(10 * bytes, 0x10_0000);
        lemma_one_decimal(tenths, " MB"@);
        assert(reads_as_tenths(human_size(bytes), tenths, " MB"@));
    } else if 0x4000_0000 <= bytes < 0x20_0000_0000_0000 {
        let hundredths = nearest(100 * bytes, 0x4000_0000);
        law_rounding_is_to_nearest(100 * bytes, 0x4000_0000);
        assert(as_double(bytes) == bytes) by {
            assert(precision(bytes) == 1);
            assert(bytes % 1 == 0 && bytes / 1 == bytes);
        }
        lemma_two_decimals(hundredths, " GB"@);
        assert(reads_as_hundredths(human_size(bytes), hundredths, " GB"@));
    } else if bytes >= 0x20_0000_0000_0000 {
        let hundredths = nearest(100 * as_double(bytes), 0x4000_0000);
        law_rounding_is_to_nearest(100 * as_double(bytes), 0x4000_0000);
        lemma_two_decimals(hundredths, " GB"@);
        assert(reads_as_hundredths(human_size(bytes), hundredths, " GB"@));
    }
}

proof fn lemma_one_decimal(tenths: nat, unit: Seq<char>)
    ensures
        reads_as_tenths(one_decimal(tenths) + unit, tenths, unit),
{
    let low = tenths % 10;
    assert(crate::text::decimal(low) =~= seq![crate::text::digit_char(low)]);
    assert(one_decimal(tenths) + unit =~= crate::text::decimal(tenths / 10) + seq!['.']
        + crate::text::decimal(low) + unit);
}

proof fn lemma_two_decimals(hundredths: nat, unit: Seq<char>)
    ensures
        reads_as_hundredths(two_decimals(hundredths) + unit, hundredths, unit),
{
    let high = hundredths / 10 % 10;
    let low = hundredths % 10;
    assert(crate::text::decimal(low) =~= seq![crate::text::digit_char(low)]);
    assert(crate::text::decimal(high) =~= seq![crate::text::digit_char(high)]);
    assert(two_decimals(hundredths) + unit =~= crate::text::decimal(hundredths / 100) + seq!['.']
        + crate::text::decimal(high) + crate::text::decimal(low) + unit);
}

/// The text is a number of hundredths as a decimal fraction, and a unit.
pub open spec fn reads_as_hundredths(text: Seq<char>, hundredths: nat, unit: Seq<char>) -> bool {
    text == crate::text::decimal(hundredths / 100) + seq!['.'] + crate::text::decimal(
        hundredths / 10 % 10,
    ) + crate::text::decimal(hundredths % 10) + unit
}

/// The text is a number of tenths as a decimal fraction, and a unit.
pub open spec fn reads_as_tenths(text: Seq<char>, tenths: nat, unit: Seq<char>) -> bool {
    text == crate::text::decimal(tenths / 10) + seq!['.'] + crate::text::decimal(tenths % 10) + unit
}

/// An integer as a double-precision number has 53 significant bits: it is the
/// multiple of a power of two that is nearest, and of two equally near ones the
/// even multiple. Below two to the 53rd it is the integer itself.
pub proof fn law_double_has_53_bits(n: nat) -> (e: nat)
    requires
        n >= 0x10_0000_0000_0000,
    ensures
        ({
            let unit = vstd::arithmetic::power2::pow2(e);
            &&& 0x10_0000_0000_0000 * unit <= n < 0x20_0000_0000_0000 * unit
            &&& exists|count: nat| #[trigger]
                is_rounded(n, unit, count) && as_double(n) == count * unit
        }),
        n < 0x20_0000_0000_0000 ==> as_double(n) == n,
{
    let e = lemma_precision(n);
    let unit = vstd::arithmetic::power2::pow2(e);
    let count = nearest(n, unit);
    law_rounding_is_to_nearest(n, unit);
    assert(unit * count == count * unit) by (nonlinear_arith);
    assert(is_rounded(n, unit, count));
    if n < 0x20_0000_0000_0000 {
        assert(n % 1 == 0 && n / 1 == n);
    }
    e
}

/// The multiple of `unit` is as near to `n` as any, and even where another is as
/// near.
pub open spec fn is_rounded(n: nat, unit: nat, count: nat) -> bool {
    &&& 2 * (n - count * unit) <= unit
    &&& 2 * (count * unit - n) <= unit
    &&& 2 * (n - count * unit) == unit || 2 * (count * unit - n) == unit ==> count % 2 == 0
}

proof fn lemma_precision(n: nat) -> (e: nat)
    requires
        n >= 0x10_0000_0000_0000,
    ensures
        precision(n) == vstd::arithmetic::power2::pow2(e),
        precision(n) > 0,
        0x10_0000_0000_0000 * precision(n) <= n < 0x20_0000_0000_0000 * precision(n),
    decreases n,
{
    if n < 0x20_0000_0000_0000 {
        vstd::arithmetic::power2::lemma2_to64();
        0
    } else {
        let half = lemma_precision(n / 2);
        vstd::arithmetic::power2::lemma_pow2_unfold(half + 1);
        half + 1
    }
}

} // verus!
