//! Offset-histogram alignment: which stored tracks a query matches, and where.
//!
//! Every stored hash that a query shares with a track votes for one alignment,
//! the stored offset less the query's. A track matches when enough votes fall
//! on the same alignment.

use crate::fingerprint::Fingerprint;
use std::collections::HashMap;
use vstd::prelude::*;

verus! {

broadcast use vstd::std_specs::hash::group_hash_axioms;

/// Fewest votes on one alignment for a valid match.
pub const MIN_MATCHES: usize = 5;

/// A stored fingerprint that a query hash was found at, or a vote of it.
#[derive(Debug, Clone, Copy, PartialEq, Eq, Structural)]
pub struct Hit {
    pub track_id: i64,
    pub offset: i64,
}

/// A track with enough votes on one alignment.
#[derive(Debug, Clone, Copy, PartialEq, Eq, Structural)]
pub struct Candidate {
    pub track_id: i64,
    /// The alignment with the most votes (in frames).
    pub best_offset: i64,
    /// Number of votes for it.
    pub match_count: usize,
}

/// The votes of one track.
pub struct TrackVotes {
    pub track_id: i64,
    pub offsets: Vec<i64>,
}

/// The vote that a hit casts for a query fingerprint.
pub open spec fn vote(query: Fingerprint, hit: Hit) -> Hit {
    Hit { track_id: hit.track_id, offset: (hit.offset - query.offset) as i64 }
}

/// One of the hits of a query fingerprint casts the given vote.
pub open spec fn votes_for(query: Fingerprint, hits: Seq<Hit>, ballot: Hit) -> bool {
    exists|j: int| 0 <= j < hits.len() && #[trigger] vote(query, hits[j]) == ballot
}

/// The votes cast for the first `n` query fingerprints, in order.
pub open spec fn votes(query: Seq<Fingerprint>, rows: Seq<Vec<Hit>>, n: int) -> Seq<Hit>
    decreases n,
{
    if n <= 0 {
        Seq::empty()
    } else {
        votes(query, rows, n - 1) + rows[n - 1]@.map_values(|h: Hit| vote(query[n - 1], h))
    }
}

/// The alignments that one track has votes for, in order.
pub open spec fn offsets_of(cast: Seq<Hit>, track_id: i64) -> Seq<i64>
    decreases cast.len(),
{
    if cast.len() == 0 {
        Seq::empty()
    } else if cast.last().track_id == track_id {
        offsets_of(cast.drop_last(), track_id).push(cast.last().offset)
    } else {
        offsets_of(cast.drop_last(), track_id)
    }
}

/// The tracks that have votes, each once, in the order of their first votes.
pub open spec fn tracks_of(cast: Seq<Hit>) -> Seq<i64>
    decreases cast.len(),
{
    if cast.len() == 0 {
        Seq::empty()
    } else if tracks_of(cast.drop_last()).contains(cast.last().track_id) {
        tracks_of(cast.drop_last())
    } else {
        tracks_of(cast.drop_last()).push(cast.last().track_id)
    }
}

/// Number of votes for an alignment.
pub open spec fn tally(offsets: Seq<i64>, offset: i64) -> nat
    decreases offsets.len(),
{
    if offsets.len() == 0 {
        0
    } else if offsets.last() == offset {
        tally(offsets.drop_last(), offset) + 1
    } else {
        tally(offsets.drop_last(), offset)
    }
}

/// Most votes for any of the first `n` alignments.
pub open spec fn most_votes(offsets: Seq<i64>, n: int) -> nat
    decreases n,
{
    if n <= 0 {
        0
    } else if tally(offsets, offsets[n - 1]) > most_votes(offsets, n - 1) {
        tally(offsets, offsets[n - 1])
    } else {
        most_votes(offsets, n - 1)
    }
}

/// Of the first `n` alignments the first one with the most votes.
pub open spec fn peak_offset(offsets: Seq<i64>, n: int) -> i64
    decreases n,
{
    if n <= 0 {
        0
    } else if tally(offsets, offsets[n - 1]) > most_votes(offsets, n - 1) {
        offsets[n - 1]
    } else {
        peak_offset(offsets, n - 1)
    }
}

/// The peak of a track's histogram.
pub open spec fn candidate_of(cast: Seq<Hit>, track_id: i64) -> Candidate {
    let offsets = offsets_of(cast, track_id);
    Candidate {
        track_id,
        best_offset: peak_offset(offsets, offsets.len() as int),
        match_count: most_votes(offsets, offsets.len() as int) as usize,
    }
}

/// The matching tracks among `tracks`.
pub open spec fn candidates_of(cast: Seq<Hit>, tracks: Seq<i64>) -> Seq<Candidate>
    decreases tracks.len(),
{
    if tracks.len() == 0 {
        Seq::empty()
    } else if candidate_of(cast, tracks.last()).match_count >= MIN_MATCHES {
        candidates_of(cast, tracks.drop_last()).push(candidate_of(cast, tracks.last()))
    } else {
        candidates_of(cast, tracks.drop_last())
    }
}

/// The histogram peak: the alignment with the most votes, and their number.
/// Of several such alignments it is the one voted for first.
pub fn best_alignment(offsets: &Vec<i64>) -> (r: (i64, usize))
    ensures
        r.0 == peak_offset(offsets@, offsets@.len() as int),
        r.1 == most_votes(offsets@, offsets@.len() as int),
{
    // Build histogram of offsets
    let mut histogram: HashMap<i64, usize> = HashMap::new();
    let mut i: usize = 0;
    while i < offsets.len()
        invariant
            i <= offsets.len(),
            forall|o: i64|
                #![trigger tally(offsets@.take(i as int), o)]
                #![trigger histogram@.contains_key(o)]
                (histogram@.contains_key(o) <==> tally(offsets@.take(i as int), o) > 0) && (
                histogram@.contains_key(o) ==> histogram@[o] == tally(
                    offsets@.take(i as int),
                    o,
                )),
        decreases offsets.len() - i,
    {
        let off = offsets[i];
        let ghost seen = offsets@.take(i as int);
        let count: usize = match histogram.get(&off) {
            Some(c) => *c,
            None => 0,
        };
        proof {
            lemma_tally_bounded(seen, off);
            assert(offsets@.take(i + 1).drop_last() =~= seen);
            assert(count == tally(seen, off));
        }
        histogram.insert(off, count + 1);
        i = i + 1;
    }
    assert(offsets@.take(i as int) =~= offsets@);

    // Find the peak
    let mut best: i64 = 0;
    let mut best_count: usize = 0;
    let mut j: usize = 0;
    while j < offsets.len()
        invariant
            j <= offsets.len(),
            forall|o: i64| #[trigger]
                tally(offsets@, o) > 0 ==> histogram@.contains_key(o) && histogram@[o] == tally(
                    offsets@,
                    o,
                ),
            best == peak_offset(offsets@, j as int),
            best_count == most_votes(offsets@, j as int),
        decreases offsets.len() - j,
    {
        let off = offsets[j];
        proof {
            lemma_tally_positive(offsets@, j as int);
        }
        let count: usize = match histogram.get(&off) {
            Some(c) => *c,
            None => 0,
        };
        if count > best_count {
            best = off;
            best_count = count;
        }
        j = j + 1;
    }
    (best, best_count)
}

/// The votes gathered so far, track by track.
spec fn gathered(groups: Seq<TrackVotes>, cast: Seq<Hit>) -> bool {
    &&& groups.len() == tracks_of(cast).len()
    &&& forall|g: int|
        0 <= g < groups.len() ==> (#[trigger] groups[g]).track_id == tracks_of(cast)[g]
            && groups[g].offsets@ == offsets_of(cast, tracks_of(cast)[g])
}

/// Where each track's votes are gathered.
spec fn indexed(groups: Seq<TrackVotes>, index: Map<i64, usize>) -> bool {
    &&& forall|t: i64| #[trigger]
        index.contains_key(t) ==> index[t] < groups.len() && groups[index[t] as int].track_id == t
    &&& forall|g: int| 0 <= g < groups.len() ==> index.contains_key(#[trigger] groups[g].track_id)
}

/// Collects all votes grouped by track, in the order of the tracks' first votes.
pub fn collect_votes(query: &Vec<Fingerprint>, rows: &Vec<Vec<Hit>>) -> (r: Vec<TrackVotes>)
    requires
        rows@.len() == query@.len(),
        forall|i: int, j: int|
            #![trigger rows@[i]@[j]]
            0 <= i < rows@.len() && 0 <= j < rows@[i]@.len() ==> rows@[i]@[j].offset
                - query@[i].offset >= i64::MIN,
    ensures
        ({
            let cast = votes(query@, rows@, query@.len() as int);
            &&& r@.len() == tracks_of(cast).len()
            &&& forall|g: int|
                0 <= g < r@.len() ==> (#[trigger] r@[g]).track_id == tracks_of(cast)[g]
                    && r@[g].offsets@ == offsets_of(cast, tracks_of(cast)[g])
        }),
{
    let mut groups: Vec<TrackVotes> = Vec::new();
    let mut index: HashMap<i64, usize> = HashMap::new();
    let mut i: usize = 0;
    while i < query.len()
        invariant
            i <= query.len(),
            rows@.len() == query@.len(),
            forall|i: int, j: int|
                #![trigger rows@[i]@[j]]
                0 <= i < rows@.len() && 0 <= j < rows@[i]@.len() ==> rows@[i]@[j].offset
                    - query@[i].offset >= i64::MIN,
            gathered(groups@, votes(query@, rows@, i as int)),
            indexed(groups@, index@),
        decreases query.len() - i,
    {
        let qfp = query[i];
        let row = &rows[i];
        let ghost start = votes(query@, rows@, i as int);
        let ghost new = rows@[i as int]@.map_values(|h: Hit| vote(query@[i as int], h));
        let mut j: usize = 0;
        assert(start + new.take(0) =~= start);
        while j < row.len()
            invariant
                i < query.len(),
                qfp == query@[i as int],
                rows@.len() == query@.len(),
                *row == rows@[i as int],
                new == row@.map_values(|h: Hit| vote(query@[i as int], h)),
                forall|i: int, j: int|
                    #![trigger rows@[i]@[j]]
                    0 <= i < rows@.len() && 0 <= j < rows@[i]@.len() ==> rows@[i]@[j].offset
                        - query@[i].offset >= i64::MIN,
                j <= row.len(),
                gathered(groups@, start + new.take(j as int)),
                indexed(groups@, index@),
            decreases row.len() - j,
        {
            let hit = row[j];
            assert(rows@[i as int]@[j as int].offset - query@[i as int].offset >= i64::MIN);
            let alignment: i64 = hit.offset - qfp.offset as i64;
            let ghost cast = start + new.take(j as int);
            let ghost next = start + new.take(j + 1);
            let ghost before = groups@;
            proof {
                assert(next.drop_last() =~= cast);
                assert(next.last() == Hit { track_id: hit.track_id, offset: alignment });
                lemma_tracks_distinct(cast);
            }
            let found: Option<usize> = match index.get(&hit.track_id) {
                Some(g) => Some(*g),
                None => None,
            };
            match found {
                Some(g) => {
                    assert(before[g as int].track_id == hit.track_id);
                    assert(tracks_of(cast)[g as int] == hit.track_id);
                    groups[g].offsets.push(alignment);
                    assert forall|k: int| 0 <= k < groups@.len() implies (
                    #[trigger] groups@[k]).track_id == tracks_of(next)[k] && groups@[k].offsets@
                        == offsets_of(next, tracks_of(next)[k]) by {
                        if k != g {
                            assert(before[k] == groups@[k]);
                            assert(tracks_of(cast)[k] != tracks_of(cast)[g as int]);
                        }
                    }
                    assert forall|k: int| 0 <= k < groups@.len() implies index@.contains_key(
                        #[trigger] groups@[k].track_id,
                    ) by {
                        assert(before[k].track_id == groups@[k].track_id);
                    }
                },
                None => {
                    proof {
                        if tracks_of(cast).contains(hit.track_id) {
                            let k = choose|k: int|
                                0 <= k < tracks_of(cast).len() && tracks_of(cast)[k]
                                    == hit.track_id;
                            assert(before[k].track_id == hit.track_id);
                        }
                        lemma_no_votes(cast, hit.track_id);
                    }
                    let mut offsets: Vec<i64> = Vec::new();
                    offsets.push(alignment);
                    let position: usize = groups.len();
                    groups.push(TrackVotes { track_id: hit.track_id, offsets });
                    index.insert(hit.track_id, position);
                    assert forall|k: int| 0 <= k < groups@.len() implies (
                    #[trigger] groups@[k]).track_id == tracks_of(next)[k] && groups@[k].offsets@
                        == offsets_of(next, tracks_of(next)[k]) by {
                        if k < before.len() {
                            assert(before[k] == groups@[k]);
                            assert(tracks_of(cast)[k] != hit.track_id);
                        }
                    }
                    assert forall|t: i64| #[trigger] index@.contains_key(t) implies index@[t]
                        < groups@.len() && groups@[index@[t] as int].track_id == t by {}
                },
            }
            j = j + 1;
        }
        proof {
            assert(new.take(j as int) =~= new);
        }
        i = i + 1;
    }
    groups
}

/// The tracks that a query matches: those with enough votes on one alignment.
/// `rows` holds, for each query fingerprint, the stored fingerprints of its hash.
pub fn match_candidates(query: &Vec<Fingerprint>, rows: &Vec<Vec<Hit>>) -> (r: Vec<Candidate>)
    requires
        rows@.len() == query@.len(),
        forall|i: int, j: int|
            #![trigger rows@[i]@[j]]
            0 <= i < rows@.len() && 0 <= j < rows@[i]@.len() ==> rows@[i]@[j].offset
                - query@[i].offset >= i64::MIN,
    ensures
        r@ == candidates_of(
            votes(query@, rows@, query@.len() as int),
            tracks_of(votes(query@, rows@, query@.len() as int)),
        ),
        are_the_matches(query@, rows@, r@),
{
    let ghost cast = votes(query@, rows@, query@.len() as int);
    let groups = collect_votes(query, rows);
    let mut candidates: Vec<Candidate> = Vec::new();
    let mut g: usize = 0;
    while g < groups.len()
        invariant
            g <= groups.len(),
            groups@.len() == tracks_of(cast).len(),
            forall|g: int|
                0 <= g < groups@.len() ==> (#[trigger] groups@[g]).track_id == tracks_of(cast)[g]
                    && groups@[g].offsets@ == offsets_of(cast, tracks_of(cast)[g]),
            candidates@ == candidates_of(cast, tracks_of(cast).take(g as int)),
        decreases groups.len() - g,
    {
        let (best_offset, best_count) = best_alignment(&groups[g].offsets);
        assert(tracks_of(cast).take(g + 1).drop_last() =~= tracks_of(cast).take(g as int));
        // Minimum threshold for a valid match
        if best_count >= MIN_MATCHES {
            candidates.push(
                Candidate { track_id: groups[g].track_id, best_offset, match_count: best_count },
            );
        }
        g = g + 1;
    }
    assert(tracks_of(cast).take(g as int) =~= tracks_of(cast));
    proof {
        assert forall|track_id: i64| #[trigger] offsets_of(cast, track_id).len()
            <= usize::MAX by {
            if tracks_of(cast).contains(track_id) {
                let k = choose|k: int|
                    0 <= k < tracks_of(cast).len() && tracks_of(cast)[k] == track_id;
                assert(groups@[k].offsets@.len() == groups@[k].offsets.len());
            } else {
                lemma_no_votes(cast, track_id);
            }
        }
        law_candidates_are_the_matches(query@, rows@);
    }
    candidates
}

proof fn lemma_tally_bounded(offsets: Seq<i64>, offset: i64)
    ensures
        tally(offsets, offset) <= offsets.len(),
    decreases offsets.len(),
{
    if offsets.len() > 0 {
        lemma_tally_bounded(offsets.drop_last(), offset);
    }
}

proof fn lemma_tally_positive(offsets: Seq<i64>, i: int)
    requires
        0 <= i < offsets.len(),
    ensures
        tally(offsets, offsets[i]) > 0,
    decreases offsets.len(),
{
    if i < offsets.len() - 1 {
        lemma_tally_positive(offsets.drop_last(), i);
        assert(offsets.drop_last()[i] == offsets[i]);
    }
}

proof fn lemma_tracks_distinct(cast: Seq<Hit>)
    ensures
        tracks_of(cast).no_duplicates(),
    decreases cast.len(),
{
    if cast.len() > 0 {
        lemma_tracks_distinct(cast.drop_last());
    }
}

proof fn lemma_no_votes(cast: Seq<Hit>, track_id: i64)
    requires
        !tracks_of(cast).contains(track_id),
    ensures
        offsets_of(cast, track_id) == Seq::<i64>::empty(),
    decreases cast.len(),
{
    if cast.len() > 0 {
        let rest = cast.drop_last();
        let t = cast.last().track_id;
        if tracks_of(rest).contains(t) {
            assert(t != track_id);
        } else {
            assert(tracks_of(cast)[tracks_of(rest).len() as int] == t);
            if tracks_of(rest).contains(track_id) {
                let k = choose|k: int|
                    0 <= k < tracks_of(rest).len() && tracks_of(rest)[k] == track_id;
                assert(tracks_of(cast)[k] == track_id);
            }
        }
        lemma_no_votes(rest, track_id);
    }
}

proof fn lemma_offsets_of_append(a: Seq<Hit>, b: Seq<Hit>, track_id: i64)
    ensures
        offsets_of(a + b, track_id) == offsets_of(a, track_id) + offsets_of(b, track_id),
    decreases b.len(),
{
    if b.len() == 0 {
        assert(a + b =~= a);
    } else {
        assert((a + b).drop_last() =~= a + b.drop_last());
        lemma_offsets_of_append(a, b.drop_last(), track_id);
    }
}

proof fn lemma_tally_append(a: Seq<i64>, b: Seq<i64>, offset: i64)
    ensures
        tally(a + b, offset) == tally(a, offset) + tally(b, offset),
    decreases b.len(),
{
    if b.len() == 0 {
        assert(a + b =~= a);
    } else {
        assert((a + b).drop_last() =~= a + b.drop_last());
        lemma_tally_append(a, b.drop_last(), offset);
    }
}

/// A vote among many is counted.
proof fn lemma_vote_counts(cast: Seq<Hit>, j: int)
    requires
        0 <= j < cast.len(),
    ensures
        tally(offsets_of(cast, cast[j].track_id), cast[j].offset) >= 1,
        tracks_of(cast).contains(cast[j].track_id),
    decreases cast.len(),
{
    let rest = cast.drop_last();
    let t = cast[j].track_id;
    let offsets = offsets_of(cast, t);
    if j < rest.len() {
        lemma_vote_counts(rest, j);
        assert(rest[j] == cast[j]);
        if cast.last().track_id == t {
            assert(offsets.drop_last() =~= offsets_of(rest, t));
        }
        let k = choose|k: int| 0 <= k < tracks_of(rest).len() && tracks_of(rest)[k] == t;
        assert(tracks_of(cast)[k] == t);
    } else {
        assert(offsets.drop_last() =~= offsets_of(rest, t));
        if !tracks_of(rest).contains(t) {
            assert(tracks_of(cast)[tracks_of(rest).len() as int] == t);
        }
    }
}

/// Where each of the first `n` query fingerprints has a vote for one alignment
/// of one track, that alignment has at least `n` votes.
proof fn lemma_aligned_votes(
    query: Seq<Fingerprint>,
    rows: Seq<Vec<Hit>>,
    n: int,
    track_id: i64,
    offset: i64,
)
    requires
        0 <= n <= query.len(),
        rows.len() == query.len(),
        forall|i: int|
            0 <= i < n ==> #[trigger] votes_for(query[i], rows[i]@, (Hit { track_id, offset })),
    ensures
        tally(offsets_of(votes(query, rows, n), track_id), offset) >= n,
        n > 0 ==> tracks_of(votes(query, rows, n)).contains(track_id),
    decreases n,
{
    if n > 0 {
        lemma_aligned_votes(query, rows, n - 1, track_id, offset);
        let before = votes(query, rows, n - 1);
        let new = rows[n - 1]@.map_values(|h: Hit| vote(query[n - 1], h));
        assert(votes_for(query[n - 1], rows[n - 1]@, Hit { track_id, offset }));
        let j = choose|j: int|
            0 <= j < rows[n - 1]@.len() && #[trigger] vote(query[n - 1], rows[n - 1]@[j]) == (Hit {
                track_id,
                offset,
            });
        assert(new[j] == Hit { track_id, offset });
        lemma_vote_counts(new, j);
        lemma_offsets_of_append(before, new, track_id);
        lemma_tally_append(offsets_of(before, track_id), offsets_of(new, track_id), offset);
        assert((before + new)[before.len() + j] == Hit { track_id, offset });
        lemma_vote_counts(before + new, before.len() + j);
    }
}

/// No alignment has more votes than the peak.
proof fn lemma_peak_is_highest(offsets: Seq<i64>, n: int, i: int)
    requires
        0 <= i < n <= offsets.len(),
    ensures
        tally(offsets, offsets[i]) <= most_votes(offsets, n),
    decreases n,
{
    if i < n - 1 {
        lemma_peak_is_highest(offsets, n - 1, i);
    }
}

proof fn lemma_tallied_occurs(offsets: Seq<i64>, offset: i64)
    requires
        tally(offsets, offset) > 0,
    ensures
        offsets.contains(offset),
    decreases offsets.len(),
{
    if offsets.last() == offset {
        assert(offsets[offsets.len() - 1] == offset);
    } else {
        lemma_tallied_occurs(offsets.drop_last(), offset);
        let k = choose|k: int| 0 <= k < offsets.drop_last().len() && offsets.drop_last()[k] == offset;
        assert(offsets[k] == offset);
    }
}

proof fn lemma_peak_is_attained(offsets: Seq<i64>, n: int)
    requires
        0 <= n <= offsets.len(),
    ensures
        most_votes(offsets, n) > 0 ==> tally(offsets, peak_offset(offsets, n)) == most_votes(
            offsets,
            n,
        ),
        most_votes(offsets, n) <= offsets.len(),
    decreases n,
{
    if n > 0 {
        lemma_peak_is_attained(offsets, n - 1);
        lemma_tally_bounded(offsets, offsets[n - 1]);
    }
}

proof fn lemma_offsets_of_bounded(cast: Seq<Hit>, track_id: i64)
    ensures
        offsets_of(cast, track_id).len() <= cast.len(),
    decreases cast.len(),
{
    if cast.len() > 0 {
        lemma_offsets_of_bounded(cast.drop_last(), track_id);
    }
}

proof fn lemma_candidate_listed(cast: Seq<Hit>, tracks: Seq<i64>, track_id: i64)
    requires
        tracks.contains(track_id),
        candidate_of(cast, track_id).match_count >= MIN_MATCHES,
    ensures
        candidates_of(cast, tracks).contains(candidate_of(cast, track_id)),
    decreases tracks.len(),
{
    let rest = tracks.drop_last();
    let listed = candidates_of(cast, tracks);
    if tracks.last() == track_id {
        assert(listed[listed.len() - 1] == candidate_of(cast, track_id));
    } else {
        let k = choose|k: int| 0 <= k < tracks.len() && tracks[k] == track_id;
        assert(rest[k] == track_id);
        lemma_candidate_listed(cast, rest, track_id);
        let before = candidates_of(cast, rest);
        let i = choose|i: int|
            0 <= i < before.len() && before[i] == candidate_of(cast, track_id);
        assert(listed[i] == candidate_of(cast, track_id));
    }
}

proof fn lemma_listed_is_candidate(cast: Seq<Hit>, tracks: Seq<i64>, i: int)
    requires
        0 <= i < candidates_of(cast, tracks).len(),
    ensures
        ({
            let c = candidates_of(cast, tracks)[i];
            tracks.contains(c.track_id) && c == candidate_of(cast, c.track_id) && c.match_count
                >= MIN_MATCHES
        }),
    decreases tracks.len(),
{
    let rest = tracks.drop_last();
    let before = candidates_of(cast, rest);
    if i < before.len() {
        lemma_listed_is_candidate(cast, rest, i);
        let c = before[i];
        let k = choose|k: int| 0 <= k < rest.len() && rest[k] == c.track_id;
        assert(tracks[k] == c.track_id);
    } else {
        assert(tracks[tracks.len() - 1] == tracks.last());
    }
}

/// A stored track is found again: where every query fingerprint was found in a
/// track at the same distance, and the query has enough fingerprints, the track
/// is among the candidates, with at least one vote per query fingerprint.
pub proof fn law_stored_track_is_found(
    query: Seq<Fingerprint>,
    rows: Seq<Vec<Hit>>,
    track_id: i64,
    offset: i64,
)
    requires
        rows.len() == query.len(),
        query.len() >= MIN_MATCHES,
        votes(query, rows, query.len() as int).len() <= usize::MAX,
        forall|i: int|
            0 <= i < query.len() ==> #[trigger] votes_for(
                query[i],
                rows[i]@,
                (Hit { track_id, offset }),
            ),
    ensures
        ({
            let cast = votes(query, rows, query.len() as int);
            &&& candidates_of(cast, tracks_of(cast)).contains(candidate_of(cast, track_id))
            &&& candidate_of(cast, track_id).match_count >= query.len()
        }),
{
    let cast = votes(query, rows, query.len() as int);
    let offsets = offsets_of(cast, track_id);
    lemma_aligned_votes(query, rows, query.len() as int, track_id, offset);
    lemma_tallied_occurs(offsets, offset);
    let i = choose|i: int| 0 <= i < offsets.len() && offsets[i] == offset;
    lemma_peak_is_highest(offsets, offsets.len() as int, i);
    lemma_peak_is_attained(offsets, offsets.len() as int);
    lemma_offsets_of_bounded(cast, track_id);
    lemma_candidate_listed(cast, tracks_of(cast), track_id);
}

/// Every candidate is a track that was voted for, has as many votes for its
/// alignment as it claims, at least the minimum, and no alignment of that track
/// has more.
pub proof fn law_candidates_are_supported(cast: Seq<Hit>, i: int, j: int)
    requires
        0 <= i < candidates_of(cast, tracks_of(cast)).len(),
        0 <= j < cast.len(),
        cast.len() <= usize::MAX,
    ensures
        ({
            let c = candidates_of(cast, tracks_of(cast))[i];
            let offsets = offsets_of(cast, c.track_id);
            &&& tracks_of(cast).contains(c.track_id)
            &&& c.match_count >= MIN_MATCHES
            &&& tally(offsets, c.best_offset) == c.match_count
            &&& cast[j].track_id == c.track_id ==> tally(offsets, cast[j].offset) <= c.match_count
        }),
{
    let c = candidates_of(cast, tracks_of(cast))[i];
    let offsets = offsets_of(cast, c.track_id);
    lemma_listed_is_candidate(cast, tracks_of(cast), i);
    lemma_offsets_of_bounded(cast, c.track_id);
    lemma_peak_is_attained(offsets, offsets.len() as int);
    if cast[j].track_id == c.track_id {
        lemma_vote_counts(cast, j);
        lemma_tallied_occurs(offsets, cast[j].offset);
        let k = choose|k: int| 0 <= k < offsets.len() && offsets[k] == cast[j].offset;
        lemma_peak_is_highest(offsets, offsets.len() as int, k);
    }
}

/// No track is a candidate twice.
pub proof fn law_candidates_are_distinct(cast: Seq<Hit>, i: int, j: int)
    requires
        0 <= i < j < candidates_of(cast, tracks_of(cast)).len(),
    ensures
        candidates_of(cast, tracks_of(cast))[i].track_id != candidates_of(
            cast,
            tracks_of(cast),
        )[j].track_id,
{
    lemma_tracks_distinct(cast);
    lemma_candidates_distinct(cast, tracks_of(cast), i, j);
}

proof fn lemma_candidates_distinct(cast: Seq<Hit>, tracks: Seq<i64>, i: int, j: int)
    requires
        tracks.no_duplicates(),
        0 <= i < j < candidates_of(cast, tracks).len(),
    ensures
        candidates_of(cast, tracks)[i].track_id != candidates_of(cast, tracks)[j].track_id,
    decreases tracks.len(),
{
    let rest = tracks.drop_last();
    let before = candidates_of(cast, rest);
    if j < before.len() {
        lemma_candidates_distinct(cast, rest, i, j);
    } else {
        lemma_listed_is_candidate(cast, rest, i);
        let k = choose|k: int| 0 <= k < rest.len() && rest[k] == before[i].track_id;
        assert(tracks[k] == rest[k]);
    }
}

// ── What the histogram counts ───────────────────────────────────────

/// The hits of a track that lie at one distance from their query fingerprints:
/// the pairs (`i`, `j`) where the `j`-th hit of query fingerprint `i` is one.
pub open spec fn aligned_hits(
    query: Seq<Fingerprint>,
    rows: Seq<Vec<Hit>>,
    track_id: i64,
    distance: i64,
) -> Set<(int, int)> {
    Set::new(
        |p: (int, int)|
            0 <= p.0 < query.len() && 0 <= p.1 < rows[p.0]@.len() && rows[p.0]@[p.1].track_id
                == track_id && rows[p.0]@[p.1].offset - query[p.0].offset == distance,
    )
}

/// Those among the first `n` query fingerprints and the first `m` hits of the
/// one after them.
spec fn aligned_before(
    query: Seq<Fingerprint>,
    rows: Seq<Vec<Hit>>,
    track_id: i64,
    distance: i64,
    n: int,
    m: int,
) -> Set<(int, int)> {
    Set::new(
        |p: (int, int)|
            ((0 <= p.0 < n && 0 <= p.1 < rows[p.0]@.len()) || (p.0 == n && 0 <= p.1 < m))
                && rows[p.0]@[p.1].track_id == track_id && rows[p.0]@[p.1].offset - query[p.0].offset
                == distance,
    )
}

/// No distance between a hit and its query fingerprint is too large to hold.
pub open spec fn distances_fit(query: Seq<Fingerprint>, rows: Seq<Vec<Hit>>) -> bool {
    &&& rows.len() == query.len()
    &&& forall|i: int, j: int|
        #![trigger rows[i]@[j]]
        0 <= i < rows.len() && 0 <= j < rows[i]@.len() ==> rows[i]@[j].offset - query[i].offset
            >= i64::MIN
}

proof fn lemma_row_is_counted(
    query: Seq<Fingerprint>,
    rows: Seq<Vec<Hit>>,
    track_id: i64,
    distance: i64,
    n: int,
    m: int,
)
    requires
        distances_fit(query, rows),
        0 <= n <= query.len(),
        0 <= m,
        n == query.len() ==> m == 0,
        n < query.len() ==> m <= rows[n]@.len(),
    ensures
        aligned_before(query, rows, track_id, distance, n, m).finite(),
        m == 0 ==> aligned_before(query, rows, track_id, distance, n, m).len() == tally(
            offsets_of(votes(query, rows, n), track_id),
            distance,
        ),
        m > 0 ==> aligned_before(query, rows, track_id, distance, n, m).len() == tally(
            offsets_of(
                votes(query, rows, n) + rows[n]@.map_values(|h: Hit| vote(query[n], h)).take(m),
                track_id,
            ),
            distance,
        ),
    decreases n, m,
{
    let here = aligned_before(query, rows, track_id, distance, n, m);
    if m > 0 {
        lemma_row_is_counted(query, rows, track_id, distance, n, m - 1);
        let before = aligned_before(query, rows, track_id, distance, n, m - 1);
        let start = votes(query, rows, n);
        let new = rows[n]@.map_values(|h: Hit| vote(query[n], h));
        let cast = start + new.take(m);
        assert(cast.drop_last() =~= start + new.take(m - 1));
        if m == 1 {
            assert(start + new.take(0) =~= start);
        }
        let hit = rows[n]@[m - 1];
        assert(hit.offset - query[n].offset >= i64::MIN);
        assert(cast.last() == vote(query[n], hit));
        let offsets = offsets_of(cast, track_id);
        if hit.track_id == track_id {
            assert(offsets.drop_last() =~= offsets_of(cast.drop_last(), track_id));
        }
        if hit.track_id == track_id && hit.offset - query[n].offset == distance {
            assert(here =~= before.insert((n, m - 1)));
        } else {
            assert(here =~= before);
        }
    } else if n > 0 {
        let whole = rows[n - 1]@.len() as int;
        lemma_row_is_counted(query, rows, track_id, distance, n - 1, whole);
        assert(here =~= aligned_before(query, rows, track_id, distance, n - 1, whole));
        let start = votes(query, rows, n - 1);
        let new = rows[n - 1]@.map_values(|h: Hit| vote(query[n - 1], h));
        assert(new.take(whole) =~= new);
        assert(votes(query, rows, n) =~= start + new);
        if whole == 0 {
            assert(votes(query, rows, n) =~= start);
        }
    } else {
        assert(here =~= Set::<(int, int)>::empty());
    }
}

/// Every hit of every query fingerprint casts its vote, whatever the others
/// found: the votes for an alignment of a track are as many as there are hits
/// of that track at that distance from their query fingerprints.
pub proof fn law_every_hit_votes(
    query: Seq<Fingerprint>,
    rows: Seq<Vec<Hit>>,
    track_id: i64,
    distance: i64,
)
    requires
        distances_fit(query, rows),
    ensures
        aligned_hits(query, rows, track_id, distance).finite(),
        tally(offsets_of(votes(query, rows, query.len() as int), track_id), distance)
            == aligned_hits(query, rows, track_id, distance).len(),
{
    lemma_row_is_counted(query, rows, track_id, distance, query.len() as int, 0);
    assert(aligned_hits(query, rows, track_id, distance) =~= aligned_before(
        query,
        rows,
        track_id,
        distance,
        query.len() as int,
        0,
    ));
}

/// What makes a list of candidates right. A track is a candidate exactly where
/// at least five hits lie at one distance, once; its alignment is a distance
/// with the most hits, and its count is their number.
pub open spec fn are_the_matches(
    query: Seq<Fingerprint>,
    rows: Seq<Vec<Hit>>,
    candidates: Seq<Candidate>,
) -> bool {
    &&& forall|c: int|
        0 <= c < candidates.len() ==> {
            &&& (#[trigger] candidates[c]).match_count >= 5
            &&& candidates[c].match_count == aligned_hits(
                query,
                rows,
                candidates[c].track_id,
                candidates[c].best_offset,
            ).len()
        }
    &&& forall|c: int, distance: i64|
        #![trigger aligned_hits(query, rows, candidates[c].track_id, distance)]
        0 <= c < candidates.len() ==> aligned_hits(
            query,
            rows,
            candidates[c].track_id,
            distance,
        ).len() <= candidates[c].match_count
    &&& forall|track_id: i64, distance: i64| #[trigger]
        aligned_hits(query, rows, track_id, distance).len() >= 5 ==> exists|c: int|
            0 <= c < candidates.len() && (#[trigger] candidates[c]).track_id == track_id
    &&& forall|c: int, d: int|
        0 <= c < d < candidates.len() ==> (#[trigger] candidates[c]).track_id != (
        #[trigger] candidates[d]).track_id
}

/// The candidates are the tracks with enough hits at one distance: no more, no
/// fewer, each with its best alignment and the number of hits there. No track
/// has more hits than can be counted.
pub proof fn law_candidates_are_the_matches(query: Seq<Fingerprint>, rows: Seq<Vec<Hit>>)
    requires
        distances_fit(query, rows),
        forall|track_id: i64|
            #[trigger] offsets_of(votes(query, rows, query.len() as int), track_id).len()
                <= usize::MAX,
    ensures
        are_the_matches(
            query,
            rows,
            candidates_of(
                votes(query, rows, query.len() as int),
                tracks_of(votes(query, rows, query.len() as int)),
            ),
        ),
{
    let cast = votes(query, rows, query.len() as int);
    let tracks = tracks_of(cast);
    let found = candidates_of(cast, tracks);
    assert forall|c: int| 0 <= c < found.len() implies {
        &&& (#[trigger] found[c]).match_count >= 5
        &&& found[c].match_count == aligned_hits(
            query,
            rows,
            found[c].track_id,
            found[c].best_offset,
        ).len()
    } by {
        lemma_listed_is_candidate(cast, tracks, c);
        let offsets = offsets_of(cast, found[c].track_id);
        lemma_peak_is_attained(offsets, offsets.len() as int);
        law_every_hit_votes(query, rows, found[c].track_id, found[c].best_offset);
    }
    assert forall|c: int, distance: i64|
        #![trigger aligned_hits(query, rows, found[c].track_id, distance)]
        0 <= c < found.len() implies aligned_hits(
        query,
        rows,
        found[c].track_id,
        distance,
    ).len() <= found[c].match_count by {
        law_every_hit_votes(query, rows, found[c].track_id, distance);
        lemma_listed_is_candidate(cast, tracks, c);
        let offsets = offsets_of(cast, found[c].track_id);
        lemma_peak_is_attained(offsets, offsets.len() as int);
        if tally(offsets, distance) > 0 {
            lemma_tallied_occurs(offsets, distance);
            let k = choose|k: int| 0 <= k < offsets.len() && offsets[k] == distance;
            lemma_peak_is_highest(offsets, offsets.len() as int, k);
        }
    }
    assert forall|track_id: i64, distance: i64| #[trigger]
        aligned_hits(query, rows, track_id, distance).len() >= 5 implies exists|c: int|
        0 <= c < found.len() && (#[trigger] found[c]).track_id == track_id by {
        law_every_hit_votes(query, rows, track_id, distance);
        let offsets = offsets_of(cast, track_id);
        lemma_tallied_occurs(offsets, distance);
        let k = choose|k: int| 0 <= k < offsets.len() && offsets[k] == distance;
        lemma_peak_is_highest(offsets, offsets.len() as int, k);
        lemma_peak_is_attained(offsets, offsets.len() as int);
        if !tracks.contains(track_id) {
            lemma_no_votes(cast, track_id);
        }
        lemma_candidate_listed(cast, tracks, track_id);
        let c = choose|c: int| 0 <= c < found.len() && found[c] == candidate_of(cast, track_id);
        assert(found[c].track_id == track_id);
    }
    assert forall|c: int, d: int| 0 <= c < d < found.len() implies (#[trigger] found[c]).track_id
        != (#[trigger] found[d]).track_id by {
        law_candidates_are_distinct(cast, c, d);
    }
}

/// Of several alignments with the most votes the one voted for first is taken:
/// every alignment that was voted for before the peak's first vote has fewer.
pub proof fn law_first_of_the_highest(offsets: Seq<i64>)
    requires
        offsets.len() > 0,
    ensures
        exists|k: int| #[trigger]
            is_first_peak(offsets, k) && peak_offset(offsets, offsets.len() as int) == offsets[k]
                && most_votes(offsets, offsets.len() as int) == places(offsets, offsets[k]).len(),
        peak_offset(offsets, 0) == 0,
        most_votes(offsets, 0) == 0,
{
    let k = lemma_peak_index(offsets, offsets.len() as int);
    assert forall|i: int| 0 <= i < offsets.len() implies places(
        offsets,
        #[trigger] offsets[i],
    ).len() == tally(offsets, offsets[i]) by {
        lemma_tally_counts_places(offsets, offsets[i]);
    }
    assert(is_first_peak(offsets, k));
}

/// Where an alignment occurs among votes.
pub open spec fn places(offsets: Seq<i64>, offset: i64) -> Set<int> {
    Set::new(|i: int| 0 <= i < offsets.len() && offsets[i] == offset)
}

/// No alignment occurs more often than the `k`-th, and all before it occur less
/// often.
pub open spec fn is_first_peak(offsets: Seq<i64>, k: int) -> bool {
    &&& 0 <= k < offsets.len()
    &&& forall|i: int|
        0 <= i < offsets.len() ==> places(offsets, #[trigger] offsets[i]).len() <= places(
            offsets,
            offsets[k],
        ).len()
    &&& forall|i: int|
        0 <= i < k ==> places(offsets, #[trigger] offsets[i]).len() < places(
            offsets,
            offsets[k],
        ).len()
}

proof fn lemma_tally_counts_places(offsets: Seq<i64>, offset: i64)
    ensures
        places(offsets, offset).finite(),
        tally(offsets, offset) == places(offsets, offset).len(),
    decreases offsets.len(),
{
    if offsets.len() == 0 {
        assert(places(offsets, offset) =~= Set::<int>::empty());
    } else {
        let rest = offsets.drop_last();
        lemma_tally_counts_places(rest, offset);
        if offsets.last() == offset {
            assert(places(offsets, offset) =~= places(rest, offset).insert(rest.len() as int));
        } else {
            assert(places(offsets, offset) =~= places(rest, offset));
        }
    }
}

proof fn lemma_peak_index(offsets: Seq<i64>, n: int) -> (k: int)
    requires
        0 < n <= offsets.len(),
    ensures
        0 <= k < n,
        peak_offset(offsets, n) == offsets[k],
        most_votes(offsets, n) == tally(offsets, offsets[k]),
        forall|i: int|
            0 <= i < n ==> tally(offsets, #[trigger] offsets[i]) <= tally(offsets, offsets[k]),
        forall|i: int|
            0 <= i < k ==> tally(offsets, #[trigger] offsets[i]) < tally(offsets, offsets[k]),
    decreases n,
{
    lemma_tally_positive(offsets, n - 1);
    if n == 1 {
        0
    } else {
        let k = lemma_peak_index(offsets, n - 1);
        if tally(offsets, offsets[n - 1]) > most_votes(offsets, n - 1) {
            n - 1
        } else {
            k
        }
    }
}

} // verus!
