//! Deciding which zone a recording belongs to.
//!
//! A recording is compared with the stored signatures of the zones, and its
//! fingerprints are searched for. Both give scores for zones; here the scores
//! become a decision.

use crate::database::{MatchResult, ZoneInfo};
use crate::ieee::F64Bits;
use crate::signature::Signature;
use crate::text::same_text;
use vstd::prelude::*;

verus! {

/// Pattern of 0.05: the least confidence of a fingerprint match that counts.
pub const MIN_CONFIDENCE: u64 = 0x3fa9_9999_9999_999a;

/// Pattern of the single-precision 0.6, widened: a similarity above it stands
/// on its own.
pub const STRONG_SIMILARITY: u64 = 0x3fe3_3333_4000_0000;

/// How a zone was recognised.
#[derive(Debug, Clone, Copy, PartialEq, Eq, Structural)]
pub enum Method {
    /// Similarity of signatures.
    Signature,
    /// Fingerprint match.
    Fingerprint,
}

impl Method {
    /// The name of the method.
    pub fn as_str(&self) -> (r: &'static str)
        ensures
            r@ == (match self {
                Method::Signature => "signature"@,
                Method::Fingerprint => "fingerprint"@,
            }),
    {
        match self {
            Method::Signature => "signature",
            Method::Fingerprint => "fingerprint",
        }
    }
}

/// A recognised zone.
#[derive(Debug)]
pub struct Detection {
    pub zone: String,
    pub confidence: F64Bits,
    pub method: Method,
}

/// A zone with a score: a similarity or a confidence.
#[derive(Debug)]
pub struct ZoneScore {
    pub zone: String,
    pub score: F64Bits,
}

/// A zone's signature as stored.
#[derive(Debug)]
pub struct StoredSignature {
    pub zone: String,
    pub bytes: Vec<u8>,
}

/// A zone's signature as read back.
#[derive(Debug)]
pub struct ZoneSignature {
    pub zone: String,
    pub signature: Signature,
}

/// The bytes are those of a signature with `dim` numbers.
pub open spec fn has_dim(stored: StoredSignature, dim: nat) -> bool {
    stored.bytes@.len() == 4 * dim
}

/// A signature was read from the stored bytes.
pub open spec fn reads(stored: StoredSignature, zone: ZoneSignature) -> bool {
    &&& zone.zone == stored.zone
    &&& 4 * zone.signature.vector@.len() == stored.bytes@.len()
    &&& forall|i: int|
        0 <= i < zone.signature.vector@.len() ==> (#[trigger] zone.signature.vector@[i]).bits
            == crate::wire::value32(stored.bytes@, 4 * i)
}

/// `zones` are the signatures with `dim` numbers among `stored`, in order.
pub open spec fn comparable(
    stored: Seq<StoredSignature>,
    dim: nat,
    zones: Seq<ZoneSignature>,
) -> bool
    decreases stored.len(),
{
    if stored.len() == 0 {
        zones.len() == 0
    } else if has_dim(stored.last(), dim) {
        &&& zones.len() > 0
        &&& reads(stored.last(), zones.last())
        &&& comparable(stored.drop_last(), dim, zones.drop_last())
    } else {
        comparable(stored.drop_last(), dim, zones)
    }
}

/// The zones whose signatures have `dim` numbers, in order.
pub open spec fn comparable_names(stored: Seq<StoredSignature>, dim: nat) -> Seq<String>
    decreases stored.len(),
{
    if stored.len() == 0 {
        Seq::empty()
    } else if has_dim(stored.last(), dim) {
        comparable_names(stored.drop_last(), dim).push(stored.last().zone)
    } else {
        comparable_names(stored.drop_last(), dim)
    }
}

/// The stored signatures that a signature with `dim` numbers can be compared
/// with: those that can be read and have as many numbers.
pub fn comparable_zones(stored: &Vec<StoredSignature>, dim: usize) -> (r: Vec<ZoneSignature>)
    ensures
        comparable(stored@, dim as nat, r@),
        r@.map_values(|z: ZoneSignature| z.zone) == comparable_names(stored@, dim as nat),
{
    let mut zones: Vec<ZoneSignature> = Vec::new();
    let mut i: usize = 0;
    while i < stored.len()
        invariant
            i <= stored.len(),
            comparable(stored@.take(i as int), dim as nat, zones@),
        decreases stored.len() - i,
    {
        let row = &stored[i];
        let ghost before = zones@;
        assert(stored@.take(i + 1).drop_last() =~= stored@.take(i as int));
        match Signature::from_bytes(row.bytes.as_slice()) {
            Some(signature) => {
                if signature.dim() == dim {
                    zones.push(ZoneSignature { zone: row.zone.clone(), signature });
                    assert(zones@.drop_last() =~= before);
                }
            },
            None => {},
        }
        i = i + 1;
    }
    assert(stored@.take(i as int) =~= stored@);
    proof {
        lemma_comparable_names(stored@, dim as nat, zones@);
    }
    zones
}

proof fn lemma_comparable_names(
    stored: Seq<StoredSignature>,
    dim: nat,
    zones: Seq<ZoneSignature>,
)
    requires
        comparable(stored, dim, zones),
    ensures
        zones.map_values(|z: ZoneSignature| z.zone) == comparable_names(stored, dim),
    decreases stored.len(),
{
    let names = zones.map_values(|z: ZoneSignature| z.zone);
    if stored.len() == 0 {
        assert(names =~= comparable_names(stored, dim));
    } else if has_dim(stored.last(), dim) {
        let before = zones.drop_last();
        lemma_comparable_names(stored.drop_last(), dim, before);
        assert(names =~= before.map_values(|z: ZoneSignature| z.zone).push(stored.last().zone));
    } else {
        lemma_comparable_names(stored.drop_last(), dim, zones);
    }
}

/// The names of zones.
pub fn zone_names(zones: &Vec<ZoneSignature>) -> (r: Vec<String>)
    ensures
        r@ == zones@.map_values(|z: ZoneSignature| z.zone),
{
    let ghost all = zones@.map_values(|z: ZoneSignature| z.zone);
    let mut names: Vec<String> = Vec::new();
    let mut i: usize = 0;
    while i < zones.len()
        invariant
            i <= zones.len(),
            all == zones@.map_values(|z: ZoneSignature| z.zone),
            names@ == all.take(i as int),
        decreases zones.len() - i,
    {
        names.push(zones[i].zone.clone());
        i = i + 1;
        assert(names@ =~= all.take(i as int));
    }
    assert(names@ =~= all);
    names
}

/// The zones with their similarities.
pub open spec fn scores_of(zones: Seq<String>, similarities: Seq<F64Bits>) -> Seq<ZoneScore> {
    Seq::new(zones.len(), |i: int| ZoneScore { zone: zones[i], score: similarities[i] })
}

/// Pairs zones with their similarities.
pub fn pair_scores(zones: &Vec<String>, similarities: &Vec<F64Bits>) -> (r: Vec<ZoneScore>)
    requires
        similarities@.len() == zones@.len(),
    ensures
        r@ == scores_of(zones@, similarities@),
{
    let mut scores: Vec<ZoneScore> = Vec::new();
    let mut i: usize = 0;
    while i < zones.len()
        invariant
            i <= zones.len(),
            similarities@.len() == zones@.len(),
            scores@ == scores_of(zones@, similarities@).take(i as int),
        decreases zones.len() - i,
    {
        scores.push(ZoneScore { zone: zones[i].clone(), score: similarities[i] });
        i = i + 1;
        assert(scores@ =~= scores_of(zones@, similarities@).take(i as int));
    }
    assert(scores@ =~= scores_of(zones@, similarities@));
    scores
}

/// The better of a detection and a new score, the detection where neither is.
pub open spec fn improved(
    best: Option<Detection>,
    zone: String,
    confidence: F64Bits,
    method: Method,
) -> Option<Detection> {
    match best {
        Some(d) if !confidence.exceeds(d.confidence) => best,
        _ => Some(Detection { zone, confidence, method }),
    }
}

/// The best detection after comparing with each of the zones.
pub open spec fn after_signatures(
    best: Option<Detection>,
    similarities: Seq<ZoneScore>,
    threshold: F64Bits,
) -> Option<Detection>
    decreases similarities.len(),
{
    if similarities.len() == 0 {
        best
    } else {
        let before = after_signatures(best, similarities.drop_last(), threshold);
        let s = similarities.last();
        if s.score.exceeds(threshold) {
            improved(before, s.zone, s.score, Method::Signature)
        } else {
            before
        }
    }
}

/// Takes a new score for a zone into account.
fn improve(best: Option<Detection>, zone: &String, confidence: F64Bits, method: Method) -> (r: Option<
    Detection,
>)
    ensures
        r == improved(best, *zone, confidence, method),
{
    let better = match &best {
        Some(d) => confidence.gt(&d.confidence),
        None => true,
    };
    if better {
        Some(Detection { zone: zone.clone(), confidence, method })
    } else {
        best
    }
}

/// Vector similarity matching: takes into account each similarity above the threshold.
pub fn match_signatures(
    best: Option<Detection>,
    similarities: &Vec<ZoneScore>,
    threshold: F64Bits,
) -> (r: Option<Detection>)
    ensures
        r == after_signatures(best, similarities@, threshold),
{
    let ghost start = best;
    let mut best = best;
    let mut i: usize = 0;
    while i < similarities.len()
        invariant
            i <= similarities.len(),
            best == after_signatures(start, similarities@.take(i as int), threshold),
        decreases similarities.len() - i,
    {
        let s = &similarities[i];
        assert(similarities@.take(i + 1).drop_last() =~= similarities@.take(i as int));
        if s.score.gt(&threshold) {
            best = improve(best, &s.zone, s.score, Method::Signature);
        }
        i = i + 1;
    }
    assert(similarities@.take(i as int) =~= similarities@);
    best
}

/// The track of the top result, where its confidence is high enough to count.
pub open spec fn zone_track(results: Seq<MatchResult>) -> Option<i64> {
    if results.len() > 0 && results[0].confidence.reaches(F64Bits { bits: MIN_CONFIDENCE }) {
        Some(results[0].track.id)
    } else {
        None
    }
}

/// The track whose zone to look up after a search: that of the top result,
/// where its confidence is high enough to count.
pub fn track_to_look_up(results: &Vec<MatchResult>) -> (r: Option<i64>)
    ensures
        r == zone_track(results@),
{
    if results.len() > 0 && results[0].confidence.ge(&F64Bits { bits: MIN_CONFIDENCE }) {
        Some(results[0].track.id)
    } else {
        None
    }
}

/// The best detection after a fingerprint match with a zone.
pub open spec fn after_fingerprints(
    best: Option<Detection>,
    confidence: F64Bits,
    zone: Option<ZoneInfo>,
) -> Option<Detection> {
    match zone {
        Some(z) => improved(best, z.name, confidence, Method::Fingerprint),
        None => best,
    }
}

/// Hash-based matching: takes a match into account where its track is a zone's.
pub fn match_fingerprints(
    best: Option<Detection>,
    confidence: F64Bits,
    zone: &Option<ZoneInfo>,
) -> (r: Option<Detection>)
    ensures
        r == after_fingerprints(best, confidence, *zone),
{
    match zone {
        Some(z) => improve(best, &z.name, confidence, Method::Fingerprint),
        None => best,
    }
}

/// The score that stands first among the highest.
pub open spec fn best_score(scores: Seq<ZoneScore>) -> Option<ZoneScore>
    decreases scores.len(),
{
    if scores.len() == 0 {
        None
    } else {
        match best_score(scores.drop_last()) {
            Some(s) if !scores.last().score.exceeds(s.score) => Some(s),
            _ => Some(scores.last()),
        }
    }
}

/// The zone with the highest score; the first of several.
pub fn best_zone(scores: &Vec<ZoneScore>) -> (r: Option<ZoneScore>)
    ensures
        r == best_score(scores@),
{
    let mut best: Option<usize> = None;
    let mut i: usize = 0;
    while i < scores.len()
        invariant
            i <= scores.len(),
            match best {
                Some(b) => b < i && best_score(scores@.take(i as int)) == Some(scores@[b as int]),
                None => i == 0,
            },
        decreases scores.len() - i,
    {
        assert(scores@.take(i + 1).drop_last() =~= scores@.take(i as int));
        let better = match best {
            Some(b) => scores[i].score.gt(&scores[b].score),
            None => true,
        };
        if better {
            best = Some(i);
        }
        i = i + 1;
    }
    assert(scores@.take(i as int) =~= scores@);
    match best {
        Some(b) => Some(ZoneScore { zone: scores[b].zone.clone(), score: scores[b].score }),
        None => None,
    }
}

/// What a direct detection reports.
#[derive(Debug)]
pub enum Verdict {
    /// Signature and fingerprints agree on the zone.
    Both { zone: String, confidence: F64Bits, similarity: F64Bits },
    /// The signature decides.
    BySignature { zone: String, similarity: F64Bits },
    /// The fingerprints decide.
    ByHash { zone: String, confidence: F64Bits },
    /// No zone.
    Nothing,
}

/// The zone to report, given the best of the signatures and that of the fingerprints.
pub open spec fn verdict(signature: Option<ZoneScore>, hash: Option<ZoneScore>) -> Verdict {
    let strong = F64Bits { bits: STRONG_SIMILARITY };
    match (signature, hash) {
        (Some(s), Some(h)) => if s.zone@ == h.zone@ {
            Verdict::Both { zone: s.zone, confidence: h.score, similarity: s.score }
        } else if s.score.exceeds(strong) && s.score.exceeds(h.score) {
            Verdict::BySignature { zone: s.zone, similarity: s.score }
        } else {
            Verdict::ByHash { zone: h.zone, confidence: h.score }
        },
        (Some(s), None) => if s.score.exceeds(strong) {
            Verdict::BySignature { zone: s.zone, similarity: s.score }
        } else {
            Verdict::Nothing
        },
        (None, Some(h)) => Verdict::ByHash { zone: h.zone, confidence: h.score },
        (None, None) => Verdict::Nothing,
    }
}

/// Picks the best result. A signature match is used if it is strong enough,
/// otherwise the hash match; where both agree, both are reported.
pub fn pick_zone(signature: Option<ZoneScore>, hash: Option<ZoneScore>) -> (r: Verdict)
    ensures
        r == verdict(signature, hash),
{
    let strong = F64Bits { bits: STRONG_SIMILARITY };
    match (signature, hash) {
        (Some(s), Some(h)) => {
            if same_text(s.zone.as_str(), h.zone.as_str()) {
                // Both agree — report with combined confidence.
                Verdict::Both { zone: s.zone, confidence: h.score, similarity: s.score }
            } else if s.score.gt(&strong) && s.score.gt(&h.score) {
                Verdict::BySignature { zone: s.zone, similarity: s.score }
            } else {
                Verdict::ByHash { zone: h.zone, confidence: h.score }
            }
        },
        (Some(s), None) => {
            if s.score.gt(&strong) {
                Verdict::BySignature { zone: s.zone, similarity: s.score }
            } else {
                Verdict::Nothing
            }
        },
        (None, Some(h)) => Verdict::ByHash { zone: h.zone, confidence: h.score },
        (None, None) => Verdict::Nothing,
    }
}

/// The track whose zone a direct detection looks up after a search: that of the
/// top result.
pub fn top_track(results: &Vec<MatchResult>) -> (r: Option<i64>)
    ensures
        r == (if results@.len() > 0 {
            Some(results@[0].track.id)
        } else {
            None
        }),
{
    if results.len() > 0 {
        Some(results[0].track.id)
    } else {
        None
    }
}

/// What the fingerprints say of a direct detection: the zone of the top result,
/// with its confidence, where that result's track is a zone's.
pub fn hash_score(results: &Vec<MatchResult>, zone: &Option<ZoneInfo>) -> (r: Option<ZoneScore>)
    ensures
        r == (match zone {
            Some(z) if results@.len() > 0 => Some(
                ZoneScore { zone: z.name, score: results@[0].confidence },
            ),
            _ => None,
        }),
{
    match zone {
        Some(z) => {
            if results.len() > 0 {
                Some(ZoneScore { zone: z.name.clone(), score: results[0].confidence })
            } else {
                None
            }
        },
        None => None,
    }
}

/// Detects a zone directly: compares the stored signatures of the query's
/// dimension, and no others, and picks between the best of them and the hash
/// match. `similarities` are those of the comparable zones, in order.
pub fn direct_verdict(
    stored: &Vec<StoredSignature>,
    dim: usize,
    similarities: &Vec<F64Bits>,
    hash: Option<ZoneScore>,
) -> (r: Verdict)
    requires
        similarities@.len() == comparable_names(stored@, dim as nat).len(),
    ensures
        r == verdict(
            best_score(scores_of(comparable_names(stored@, dim as nat), similarities@)),
            hash,
        ),
{
    let zones = comparable_zones(stored, dim);
    let names = zone_names(&zones);
    let scores = pair_scores(&names, similarities);
    pick_zone(best_zone(&scores), hash)
}

/// A direct detection reports a zone by its signature only where that signature
/// was compared: it is one of the stored ones and has the query's dimension.
pub proof fn law_direct_detection_skips_other_dimensions(
    stored: Seq<StoredSignature>,
    dim: nat,
    similarities: Seq<F64Bits>,
    hash: Option<ZoneScore>,
)
    requires
        similarities.len() == comparable_names(stored, dim).len(),
    ensures
        verdict(best_score(scores_of(comparable_names(stored, dim), similarities)), hash) matches (
        Verdict::BySignature { zone, .. }) ==> exists|k: int|
            0 <= k < stored.len() && has_dim(#[trigger] stored[k], dim) && stored[k].zone == zone,
{
    let scores = scores_of(comparable_names(stored, dim), similarities);
    if best_score(scores) is Some {
        lemma_best_score_is_listed(scores);
        let i = choose|i: int| 0 <= i < scores.len() && scores[i] == best_score(scores)->0;
        lemma_comparable_name_is_stored(stored, dim, i);
    }
}

proof fn lemma_best_score_is_listed(scores: Seq<ZoneScore>)
    requires
        best_score(scores) is Some,
    ensures
        exists|i: int| 0 <= i < scores.len() && scores[i] == best_score(scores)->0,
    decreases scores.len(),
{
    let rest = scores.drop_last();
    if best_score(scores) == Some(scores.last()) {
        assert(scores[scores.len() - 1] == scores.last());
    } else {
        lemma_best_score_is_listed(rest);
        let i = choose|i: int| 0 <= i < rest.len() && rest[i] == best_score(rest)->0;
        assert(scores[i] == rest[i]);
    }
}

proof fn lemma_comparable_name_is_stored(stored: Seq<StoredSignature>, dim: nat, i: int)
    requires
        0 <= i < comparable_names(stored, dim).len(),
    ensures
        exists|k: int|
            0 <= k < stored.len() && has_dim(#[trigger] stored[k], dim) && stored[k].zone
                == comparable_names(stored, dim)[i],
    decreases stored.len(),
{
    let rest = stored.drop_last();
    let before = comparable_names(rest, dim);
    if i < before.len() {
        lemma_comparable_name_is_stored(rest, dim, i);
        let k = choose|k: int|
            0 <= k < rest.len() && has_dim(#[trigger] rest[k], dim) && rest[k].zone == before[i];
        assert(stored[k] == rest[k]);
    } else {
        assert(has_dim(stored[stored.len() - 1], dim));
    }
}

/// A zone is detected by its signature exactly where some similarity is above
/// the threshold; it is then the zone with the highest similarity, the first of
/// several.
pub proof fn law_most_similar_zone_is_detected(similarities: Seq<ZoneScore>, threshold: F64Bits)
    ensures
        after_signatures(None, similarities, threshold) is None <==> forall|i: int|
            0 <= i < similarities.len() ==> !(#[trigger] similarities[i]).score.exceeds(threshold),
        after_signatures(None, similarities, threshold) matches Some(d) ==> {
            &&& d.method == Method::Signature
            &&& d.confidence.exceeds(threshold)
            &&& exists|i: int| is_first_highest(similarities, i, d)
        },
    decreases similarities.len(),
{
    if similarities.len() > 0 {
        let rest = similarities.drop_last();
        let last = similarities.last();
        let n = rest.len() as int;
        law_most_similar_zone_is_detected(rest, threshold);
        let before = after_signatures(None, rest, threshold);
        let after = after_signatures(None, similarities, threshold);
        assert(similarities[n] == last);
        assert forall|i: int| 0 <= i < n implies rest[i] == similarities[i] by {}
        if before is None {
            assert forall|i: int| 0 <= i < n implies !(
            #[trigger] similarities[i]).score.exceeds(threshold) by {
                assert(!rest[i].score.exceeds(threshold));
            }
            if after is Some {
                assert(is_first_highest(similarities, n, after->0));
            }
        } else {
            let d0 = before->0;
            let i0 = choose|i: int| is_first_highest(rest, i, d0);
            assert(rest[i0].score.exceeds(threshold));
            assert(similarities[i0].score.exceeds(threshold));
            let d = after->0;
            if last.score.exceeds(threshold) && last.score.exceeds(d0.confidence) {
                assert forall|j: int| 0 <= j < similarities.len() implies !(
                #[trigger] similarities[j]).score.exceeds(last.score) && (j < n
                    && similarities[j].score.exceeds(threshold) ==> last.score.exceeds(
                    similarities[j].score,
                )) by {
                    if j < n {
                        assert(!rest[j].score.exceeds(d0.confidence));
                    }
                }
                assert(is_first_highest(similarities, n, d));
            } else {
                assert forall|j: int| 0 <= j < similarities.len() implies !(
                #[trigger] similarities[j]).score.exceeds(d.confidence) && (j < i0
                    && !similarities[j].score.is_nan() ==> d.confidence.exceeds(
                    similarities[j].score,
                )) by {
                    if j < n {
                        assert(rest[j] == similarities[j]);
                    }
                }
                assert(is_first_highest(similarities, i0, d));
            }
        }
    }
}

/// The `i`-th score is that of the detection, none is higher, and every earlier
/// one that is a number is lower.
pub open spec fn is_first_highest(scores: Seq<ZoneScore>, i: int, d: Detection) -> bool {
    &&& 0 <= i < scores.len()
    &&& scores[i].zone == d.zone
    &&& scores[i].score == d.confidence
    &&& forall|j: int|
        0 <= j < scores.len() ==> !(#[trigger] scores[j]).score.exceeds(d.confidence) && (j < i
            && !scores[j].score.is_nan() ==> d.confidence.exceeds(scores[j].score))
}

/// Taking a further score into account never loses a detection and never
/// lowers its confidence.
pub proof fn law_detection_only_improves(
    best: Option<Detection>,
    zone: String,
    confidence: F64Bits,
    method: Method,
)
    ensures
        improved(best, zone, confidence, method) is Some,
        best matches Some(d) ==> !d.confidence.exceeds(
            improved(best, zone, confidence, method)->0.confidence,
        ),
        !confidence.exceeds(improved(best, zone, confidence, method)->0.confidence),
{
}

/// Something is detected, and the score is no higher than its confidence.
pub open spec fn at_least(best: Option<Detection>, score: F64Bits) -> bool {
    match best {
        Some(d) => !score.exceeds(d.confidence),
        None => false,
    }
}

pub(crate) proof fn lemma_improved(
    best: Option<Detection>,
    zone: String,
    confidence: F64Bits,
    method: Method,
)
    ensures
        at_least(improved(best, zone, confidence, method), confidence),
        forall|score: F64Bits| #[trigger]
            at_least(best, score) ==> at_least(improved(best, zone, confidence, method), score),
{
}

/// A score above the threshold, at its place among the scores.
pub open spec fn counts(scores: Seq<ZoneScore>, i: int, threshold: F64Bits) -> bool {
    0 <= i < scores.len() && scores[i].score.exceeds(threshold)
}

pub(crate) proof fn lemma_after_signatures(
    best: Option<Detection>,
    scores: Seq<ZoneScore>,
    threshold: F64Bits,
)
    ensures
        forall|score: F64Bits| #[trigger]
            at_least(best, score) ==> at_least(after_signatures(best, scores, threshold), score),
        forall|i: int| #[trigger]
            counts(scores, i, threshold) ==> at_least(
                after_signatures(best, scores, threshold),
                scores[i].score,
            ),
        after_signatures(best, scores, threshold) == best || exists|i: int| #[trigger]
            counts(scores, i, threshold) && after_signatures(best, scores, threshold) == Some(
                Detection {
                    zone: scores[i].zone,
                    confidence: scores[i].score,
                    method: Method::Signature,
                },
            ),
    decreases scores.len(),
{
    if scores.len() > 0 {
        let rest = scores.drop_last();
        let last = scores.last();
        let n = scores.len() - 1;
        let before = after_signatures(best, rest, threshold);
        let after = after_signatures(best, scores, threshold);
        lemma_after_signatures(best, rest, threshold);
        lemma_improved(before, last.zone, last.score, Method::Signature);
        assert forall|i: int| #[trigger] counts(scores, i, threshold) implies at_least(
            after,
            scores[i].score,
        ) by {
            if i < n {
                assert(counts(rest, i, threshold));
                assert(at_least(before, rest[i].score));
            }
        }
        if after == before && before != best {
            let i = choose|i: int| #[trigger]
                counts(rest, i, threshold) && before == Some(
                    Detection {
                        zone: rest[i].zone,
                        confidence: rest[i].score,
                        method: Method::Signature,
                    },
                );
            assert(counts(scores, i, threshold));
        } else if after != before {
            assert(counts(scores, n, threshold));
        }
    }
}

/// The highest confidence wins: whatever was detected before, and whatever is
/// in the end, neither the former's confidence nor a similarity above the
/// threshold nor a counted fingerprint match is higher.
pub proof fn law_highest_confidence_wins(
    best: Option<Detection>,
    similarities: Seq<ZoneScore>,
    threshold: F64Bits,
    confidence: F64Bits,
    zone: Option<ZoneInfo>,
)
    ensures
        ({
            let detected = after_fingerprints(
                after_signatures(best, similarities, threshold),
                confidence,
                zone,
            );
            &&& best matches Some(d) ==> at_least(detected, d.confidence)
            &&& forall|i: int| #[trigger]
                counts(similarities, i, threshold) ==> at_least(detected, similarities[i].score)
            &&& zone is Some ==> at_least(detected, confidence)
        }),
{
    lemma_after_signatures(best, similarities, threshold);
    let between = after_signatures(best, similarities, threshold);
    if best is Some {
        assert(at_least(best, best->0.confidence));
    }
    if zone is Some {
        lemma_improved(between, zone->0.name, confidence, Method::Fingerprint);
    }
}

/// Signatures of another dimension are skipped: each that is compared has as
/// many numbers as the query.
pub proof fn law_only_equal_dimensions_are_compared(
    stored: Seq<StoredSignature>,
    dim: nat,
    zones: Seq<ZoneSignature>,
    i: int,
)
    requires
        comparable(stored, dim, zones),
        0 <= i < zones.len(),
    ensures
        zones[i].signature.vector@.len() == dim,
        exists|k: int| 0 <= k < stored.len() && reads(#[trigger] stored[k], zones[i]),
    decreases stored.len(),
{
    let rest = stored.drop_last();
    if stored.len() > 0 {
        if has_dim(stored.last(), dim) && i == zones.len() - 1 {
            assert(reads(stored[stored.len() - 1], zones[i]));
        } else {
            let before = if has_dim(stored.last(), dim) {
                zones.drop_last()
            } else {
                zones
            };
            law_only_equal_dimensions_are_compared(rest, dim, before, i);
            let k = choose|k: int| 0 <= k < rest.len() && reads(#[trigger] rest[k], before[i]);
            assert(stored[k] == rest[k]);
        }
    }
}

// ── What a detection reports ────────────────────────────────────────

/// The `k`-th number is the first of the highest: no other exceeds it, and all
/// before it that are numbers are lower.
pub open spec fn first_highest(numbers: Seq<F64Bits>, k: int) -> bool {
    &&& 0 <= k < numbers.len()
    &&& forall|j: int| 0 <= j < numbers.len() ==> !(#[trigger] numbers[j]).exceeds(numbers[k])
    &&& forall|j: int|
        0 <= j < k && !(#[trigger] numbers[j]).is_nan() ==> numbers[k].exceeds(numbers[j])
}

/// The best zone is the one with the highest score, the first of several.
pub proof fn law_best_zone_has_the_highest_score(scores: Seq<ZoneScore>) -> (k: int)
    ensures
        best_score(scores) is None <==> scores.len() == 0,
        scores.len() > 0 ==> {
            &&& first_highest(scores.map_values(|s: ZoneScore| s.score), k)
            &&& best_score(scores) == Some(scores[k])
        },
    decreases scores.len(),
{
    if scores.len() == 0 {
        0
    } else {
        let rest = scores.drop_last();
        let n = scores.len() - 1;
        let numbers = scores.map_values(|s: ZoneScore| s.score);
        let fewer = rest.map_values(|s: ZoneScore| s.score);
        let before = law_best_zone_has_the_highest_score(rest);
        assert forall|j: int| 0 <= j < n implies numbers[j] == #[trigger] fewer[j] by {}
        let k = if rest.len() > 0 && !numbers[n].exceeds(fewer[before]) {
            before
        } else {
            n
        };
        if rest.len() > 0 {
            assert(scores[before] == rest[before]);
            assert forall|j: int| 0 <= j < n implies !(#[trigger] numbers[j]).exceeds(
                fewer[before],
            ) && (j < before && !numbers[j].is_nan() ==> fewer[before].exceeds(numbers[j])) by {
                assert(fewer[j] == numbers[j]);
            }
        }
        k
    }
}

/// A direct detection reports the most similar zone where its similarity is
/// above 0.6 and above the hash match, or where the hash match names the same
/// zone; else it reports the hash match, if there is one.
pub proof fn law_direct_detection_reports_the_most_similar(
    names: Seq<String>,
    similarities: Seq<F64Bits>,
    hash: Option<ZoneScore>,
    k: int,
)
    requires
        similarities.len() == names.len(),
        names.len() > 0 ==> first_highest(similarities, k),
        forall|j: int| 0 <= j < similarities.len() ==> !(#[trigger] similarities[j]).is_nan(),
    ensures
        ({
            let reported = verdict(best_score(scores_of(names, similarities)), hash);
            let strong = F64Bits { bits: 0x3fe3_3333_4000_0000 };
            &&& names.len() == 0 && hash is None ==> reported is Nothing
            &&& names.len() == 0 && hash is Some ==> reported == (Verdict::ByHash {
                zone: hash->0.zone,
                confidence: hash->0.score,
            })
            &&& names.len() > 0 && hash is None && similarities[k].exceeds(strong) ==> reported == (
            Verdict::BySignature { zone: names[k], similarity: similarities[k] })
            &&& names.len() > 0 && hash is None && !similarities[k].exceeds(strong)
                ==> reported is Nothing
            &&& names.len() > 0 && hash is Some && names[k]@ == hash->0.zone@ ==> reported == (
            Verdict::Both {
                zone: names[k],
                confidence: hash->0.score,
                similarity: similarities[k],
            })
            &&& names.len() > 0 && hash is Some && names[k]@ != hash->0.zone@ ==> reported == (
            if similarities[k].exceeds(strong) && similarities[k].exceeds(hash->0.score) {
                Verdict::BySignature { zone: names[k], similarity: similarities[k] }
            } else {
                Verdict::ByHash { zone: hash->0.zone, confidence: hash->0.score }
            })
        }),
{
    let scores = scores_of(names, similarities);
    let best = law_best_zone_has_the_highest_score(scores);
    if names.len() > 0 {
        let numbers = scores.map_values(|s: ZoneScore| s.score);
        assert(numbers =~= similarities);
        if best < k {
            assert(similarities[k].exceeds(similarities[best]));
            assert(!numbers[k].exceeds(numbers[best]));
        } else if k < best {
            assert(numbers[best].exceeds(numbers[k]));
            assert(!similarities[best].exceeds(similarities[k]));
        }
    }
}

/// The stored signatures at these places are those of the dimension, all of
/// them, in order, and the zones are what they hold: the names, and the numbers
/// whose patterns the bytes spell, the least significant byte first.
pub open spec fn compared_at(
    stored: Seq<StoredSignature>,
    dim: nat,
    zones: Seq<ZoneSignature>,
    places: Seq<int>,
) -> bool {
    &&& places.len() == zones.len()
    &&& forall|k: int, l: int|
        0 <= k < l < places.len() ==> (#[trigger] places[k]) < (#[trigger] places[l])
    &&& forall|j: int|
        #![trigger stored[j]]
        0 <= j < stored.len() ==> (stored[j].bytes@.len() == 4 * dim <==> places.contains(j))
    &&& forall|k: int|
        #![trigger places[k]]
        #![trigger zones[k]]
        0 <= k < places.len() ==> 0 <= places[k] < stored.len() && zones[k].zone
            == stored[places[k]].zone && zones[k].signature.vector@.len() == dim
    &&& forall|k: int, i: int|
        #![trigger zones[k].signature.vector@[i]]
        0 <= k < places.len() && 0 <= i < dim ==> {
            let bytes = stored[places[k]].bytes@;
            zones[k].signature.vector@[i].bits == bytes[4 * i] + 0x100 * bytes[4 * i + 1] + 0x1_0000
                * bytes[4 * i + 2] + 0x100_0000 * bytes[4 * i + 3]
        }
}

/// Exactly the stored signatures of the query's dimension are compared.
pub proof fn law_all_of_the_dimension_are_compared(
    stored: Seq<StoredSignature>,
    dim: nat,
    zones: Seq<ZoneSignature>,
) -> (places: Seq<int>)
    requires
        comparable(stored, dim, zones),
    ensures
        compared_at(stored, dim, zones, places),
    decreases stored.len(),
{
    if stored.len() == 0 {
        Seq::empty()
    } else {
        let n = stored.len() - 1;
        let rest = stored.drop_last();
        if has_dim(stored.last(), dim) {
            let before = law_all_of_the_dimension_are_compared(rest, dim, zones.drop_last());
            let places = before.push(n);
            let fewer = zones.drop_last();
            assert forall|j: int|
                #![trigger stored[j]]
                0 <= j < stored.len() implies (stored[j].bytes@.len() == 4 * dim
                <==> places.contains(j)) by {
                if j < n {
                    assert(rest[j] == stored[j]);
                    if before.contains(j) {
                        let k = choose|k: int| 0 <= k < before.len() && before[k] == j;
                        assert(places[k] == j);
                    }
                    if places.contains(j) {
                        let k = choose|k: int| 0 <= k < places.len() && places[k] == j;
                        assert(before[k] == j);
                    }
                } else {
                    assert(places[before.len() as int] == j);
                }
            }
            assert forall|k: int|
                #![trigger places[k]]
                #![trigger zones[k]]
                0 <= k < places.len() implies 0 <= places[k] < stored.len() && zones[k].zone
                == stored[places[k]].zone && zones[k].signature.vector@.len() == dim by {
                if k < before.len() {
                    assert(fewer[k] == zones[k]);
                    assert(before[k] == places[k]);
                }
            }
            assert forall|k: int, i: int|
                #![trigger zones[k].signature.vector@[i]]
                0 <= k < places.len() && 0 <= i < dim implies {
                let bytes = stored[places[k]].bytes@;
                zones[k].signature.vector@[i].bits == bytes[4 * i] + 0x100 * bytes[4 * i + 1]
                    + 0x1_0000 * bytes[4 * i + 2] + 0x100_0000 * bytes[4 * i + 3]
            } by {
                if k < before.len() {
                    assert(fewer[k] == zones[k]);
                    assert(fewer[k].signature.vector@[i] == zones[k].signature.vector@[i]);
                    assert(before[k] == places[k]);
                } else {
                    assert(places[k] == n);
                    assert(reads(stored.last(), zones.last()));
                }
            }
            places
        } else {
            let places = law_all_of_the_dimension_are_compared(rest, dim, zones);
            assert forall|j: int|
                #![trigger stored[j]]
                0 <= j < stored.len() implies (stored[j].bytes@.len() == 4 * dim
                <==> places.contains(j)) by {
                if j < n {
                    assert(rest[j] == stored[j]);
                }
            }
            places
        }
    }
}

/// The daemon takes a fingerprint match into account where the top result is at
/// least 0.05 confident and its track is a zone's.
pub open spec fn hash_counts(results: Seq<MatchResult>, zone: Option<ZoneInfo>) -> bool {
    &&& results.len() > 0
    &&& results[0].confidence.reaches(F64Bits { bits: 0x3fa9_9999_9999_999a })
    &&& zone is Some
}

/// What the daemon is to report, given the similarities of the named zones and
/// the top fingerprint match. Nothing, where no similarity is above the
/// threshold and no match counts; else the zone with the highest of those, the
/// similarity and the earlier zone where two are equal.
pub open spec fn is_best_detection(
    names: Seq<String>,
    similarities: Seq<F64Bits>,
    threshold: F64Bits,
    results: Seq<MatchResult>,
    zone: Option<ZoneInfo>,
    reported: Option<Detection>,
) -> bool {
    match reported {
        None => !hash_counts(results, zone) && forall|i: int|
            0 <= i < names.len() ==> !(#[trigger] similarities[i]).exceeds(threshold),
        Some(d) => match d.method {
            Method::Signature => {
                &&& hash_counts(results, zone) ==> !results[0].confidence.exceeds(d.confidence)
                &&& exists|k: int|
                    {
                        &&& 0 <= k < names.len()
                        &&& d.zone == names[k]
                        &&& d.confidence == #[trigger] similarities[k]
                        &&& d.confidence.exceeds(threshold)
                        &&& forall|j: int|
                            0 <= j < names.len() ==> !(#[trigger] similarities[j]).exceeds(
                                d.confidence,
                            )
                        &&& forall|j: int|
                            0 <= j < k && (#[trigger] similarities[j]).exceeds(threshold)
                                ==> d.confidence.exceeds(similarities[j])
                    }
            },
            Method::Fingerprint => {
                &&& hash_counts(results, zone)
                &&& d.zone == zone->0.name
                &&& d.confidence == results[0].confidence
                &&& forall|j: int|
                    0 <= j < names.len() && (#[trigger] similarities[j]).exceeds(threshold)
                        ==> d.confidence.exceeds(similarities[j])
            },
        },
    }
}

/// The daemon reports the best of the similarities and the fingerprint match.
pub proof fn law_daemon_reports_the_best(
    names: Seq<String>,
    similarities: Seq<F64Bits>,
    threshold: F64Bits,
    results: Seq<MatchResult>,
    zone: Option<ZoneInfo>,
)
    requires
        similarities.len() == names.len(),
    ensures
        ({
            let best = after_signatures(None, scores_of(names, similarities), threshold);
            let reported = if zone_track(results) is Some {
                after_fingerprints(best, results[0].confidence, zone)
            } else {
                best
            };
            &&& zone_track(results) == (if results.len() > 0 && results[0].confidence.reaches(
                F64Bits { bits: 0x3fa9_9999_9999_999a },
            ) {
                Some(results[0].track.id)
            } else {
                None
            })
            &&& is_best_detection(names, similarities, threshold, results, zone, reported)
        }),
{
    let scores = scores_of(names, similarities);
    let best = after_signatures(None, scores, threshold);
    law_most_similar_zone_is_detected(scores, threshold);
    assert forall|i: int| 0 <= i < names.len() implies scores[i].score
        == #[trigger] similarities[i] by {}
    assert forall|i: int| 0 <= i < names.len() implies similarities[i]
        == (#[trigger] scores[i]).score by {}
    if best is Some {
        let d = best->0;
        let k = choose|k: int| is_first_highest(scores, k, d);
        assert(is_first_highest(scores, k, d));
        assert(d.confidence == similarities[k]);
        lemma_after_signatures(None, scores, threshold);
        let c = choose|c: int| #[trigger]
            counts(scores, c, threshold) && best == Some(
                Detection {
                    zone: scores[c].zone,
                    confidence: scores[c].score,
                    method: Method::Signature,
                },
            );
        assert(counts(scores, c, threshold));
        assert forall|j: int| 0 <= j < names.len() implies !(#[trigger] similarities[j]).exceeds(
            d.confidence,
        ) by {
            assert(!scores[j].score.exceeds(d.confidence));
        }
        assert forall|j: int|
            0 <= j < k && (#[trigger] similarities[j]).exceeds(threshold) implies d.confidence.exceeds(
            similarities[j],
        ) by {
            assert(!scores[j].score.exceeds(d.confidence));
        }
    } else {
        lemma_after_signatures(None, scores, threshold);
        assert forall|i: int| 0 <= i < names.len() implies !(#[trigger] similarities[i]).exceeds(
            threshold,
        ) by {
            if similarities[i].exceeds(threshold) {
                assert(counts(scores, i, threshold));
            }
        }
    }
}

} // verus!
