//! The monitor: which modes to scan, and the events of moving between zones.

use crate::audio::FrequencyMode;
use crate::detection::{
    comparable_zones, match_fingerprints, match_signatures, pair_scores, track_to_look_up,
    zone_names, Detection,
};
use crate::dialogue::{Action, Event, Source};
use crate::fingerprint::Fingerprint;
use crate::ieee::F64Bits;
use crate::signature::Signature;
use crate::text::same_text;
use vstd::prelude::*;

verus! {

/// Seconds recorded in each mode.
pub const RECORD_SECS: u64 = 3;

/// Seconds between two scans.
pub const PAUSE_SECS: u64 = 1;

/// Seconds to wait while no zone is registered.
pub const IDLE_SECS: u64 = 5;

/// Most results of the search behind a scan.
pub const SCAN_RESULTS: usize = 1;

/// A zone transition event emitted by the monitor loop.
#[derive(Debug)]
pub struct ZoneEvent {
    pub event: String,
    pub zone: String,
    pub confidence: Option<F64Bits>,
    pub timestamp: String,
}

/// The modes among stored mode names.
pub open spec fn modes_named(names: Seq<String>) -> Seq<FrequencyMode>
    decreases names.len(),
{
    if names.len() == 0 {
        Seq::empty()
    } else {
        let rest = modes_named(names.drop_last());
        match FrequencyMode::named(names.last()@) {
            Some(mode) => rest.push(mode),
            None => rest,
        }
    }
}

/// Determines which frequency modes need to be scanned; unknown ones are passed over.
pub fn modes_to_scan(names: &Vec<String>) -> (r: Vec<FrequencyMode>)
    ensures
        r@ == modes_named(names@),
{
    let mut modes: Vec<FrequencyMode> = Vec::new();
    let mut i: usize = 0;
    while i < names.len()
        invariant
            i <= names.len(),
            modes@ == modes_named(names@.take(i as int)),
        decreases names.len() - i,
    {
        assert(names@.take(i + 1).drop_last() =~= names@.take(i as int));
        match FrequencyMode::parse(names[i].as_str()) {
            Some(mode) => {
                modes.push(mode);
            },
            None => {},
        }
        i = i + 1;
    }
    assert(names@.take(i as int) =~= names@);
    modes
}

// ── Scanning one mode ───────────────────────────────────────────────

/// What a scan remembers while it waits for an answer; `best` is what the
/// scans so far detected.
#[derive(Debug)]
pub enum Scan {
    Record { mode: FrequencyMode, best: Option<Detection> },
    Load {
        mode: FrequencyMode,
        fingerprints: Vec<Fingerprint>,
        signature: Signature,
        best: Option<Detection>,
    },
    Compare {
        mode: FrequencyMode,
        fingerprints: Vec<Fingerprint>,
        zones: Vec<String>,
        best: Option<Detection>,
    },
    Search { best: Option<Detection> },
    Zone { best: Option<Detection>, confidence: F64Bits },
}

/// The next step of a scan.
#[derive(Debug)]
pub enum ScanStep {
    /// The best detection so far.
    Done(Option<Detection>),
    /// A piece of work to do, and what to go on with.
    Ask { action: Action, scan: Scan },
}

/// The event is one that the scan can go on with.
pub open spec fn scan_awaits(scan: Scan, event: Event) -> bool {
    (event is Failed && scan !is Compare) || match scan {
        Scan::Record { .. } => event is Analysed,
        Scan::Load { .. } => event is Signatures,
        Scan::Compare { zones, .. } => event matches Event::Compared { similarities, .. }
            && similarities@.len() == zones@.len(),
        Scan::Search { .. } => event is Found,
        Scan::Zone { .. } => event is Zone,
    }
}

/// Whether the event is one that the scan can go on with.
pub fn scan_accepts(scan: &Scan, event: &Event) -> (r: bool)
    ensures
        r == scan_awaits(*scan, *event),
{
    match (scan, event) {
        (Scan::Compare { .. }, Event::Failed(_)) => false,
        (_, Event::Failed(_)) => true,
        (Scan::Record { .. }, Event::Analysed { .. }) => true,
        (Scan::Load { .. }, Event::Signatures(_)) => true,
        (Scan::Compare { zones, .. }, Event::Compared { similarities, .. }) => {
            similarities.len() == zones.len()
        },
        (Scan::Search { .. }, Event::Found(_)) => true,
        (Scan::Zone { .. }, Event::Zone(_)) => true,
        _ => false,
    }
}

/// The first step of a scan in a mode: it records from the microphone.
pub open spec fn scan_begins(
    mode: FrequencyMode,
    best: Option<Detection>,
    step: ScanStep,
) -> bool {
    step == (ScanStep::Ask {
        action: Action::Analyse { source: Source::Microphone { seconds: RECORD_SECS }, mode },
        scan: Scan::Record { mode, best },
    })
}

/// Starts a scan in a mode: records from the microphone.
pub fn scan_begin(mode: FrequencyMode, best: Option<Detection>) -> (r: ScanStep)
    ensures
        scan_begins(mode, best, r),
{
    ScanStep::Ask {
        action: Action::Analyse { source: Source::Microphone { seconds: RECORD_SECS }, mode },
        scan: Scan::Record { mode, best },
    }
}

/// A scan goes on with the fingerprints, where there are any.
pub open spec fn scan_searches(
    mode: FrequencyMode,
    fingerprints: Vec<Fingerprint>,
    best: Option<Detection>,
    step: ScanStep,
) -> bool {
    if fingerprints@.len() == 0 {
        step == ScanStep::Done(best)
    } else {
        step == (ScanStep::Ask {
            action: Action::Search {
                fingerprints,
                max_results: SCAN_RESULTS,
                sample_rate: mode.rate(),
            },
            scan: Scan::Search { best },
        })
    }
}

/// The next step of a scan after an answer. Work that fails is done without.
pub open spec fn scan_goes_on(scan: Scan, event: Event, step: ScanStep) -> bool {
    match (scan, event) {
        (Scan::Record { best, .. }, Event::Failed(_)) => step == ScanStep::Done(best),
        (Scan::Record { mode, best }, Event::Analysed { fingerprints, signature, .. }) => step == (
        ScanStep::Ask {
            action: Action::LoadSignatures,
            scan: Scan::Load { mode, fingerprints, signature, best },
        }),
        (Scan::Load { mode, fingerprints, best, .. }, Event::Failed(_)) => scan_searches(
            mode,
            fingerprints,
            best,
            step,
        ),
        (Scan::Load { mode, fingerprints, signature, best }, Event::Signatures(stored)) => {
            &&& step matches ScanStep::Ask { action, scan: next }
            &&& action matches Action::Compare { query, zones }
            &&& query == signature
            &&& crate::detection::comparable(stored@, signature.vector@.len(), zones@)
            &&& next matches Scan::Compare {
                mode: next_mode,
                fingerprints: kept,
                zones: names,
                best: next_best,
            }
            &&& next_mode == mode
            &&& kept == fingerprints
            &&& next_best == best
            &&& names@ == zones@.map_values(|z: crate::detection::ZoneSignature| z.zone)
        },
        (
            Scan::Compare { mode, fingerprints, zones, best },
            Event::Compared { similarities, threshold },
        ) => scan_searches(
            mode,
            fingerprints,
            crate::detection::after_signatures(
                best,
                crate::detection::scores_of(zones@, similarities@),
                threshold,
            ),
            step,
        ),
        (Scan::Search { best }, Event::Failed(_)) => step == ScanStep::Done(best),
        (Scan::Search { best }, Event::Found(results)) => match crate::detection::zone_track(
            results@,
        ) {
            Some(track_id) => step == (ScanStep::Ask {
                action: Action::FindZone { track_id },
                scan: Scan::Zone { best, confidence: results@[0].confidence },
            }),
            None => step == ScanStep::Done(best),
        },
        (Scan::Zone { best, .. }, Event::Failed(_)) => step == ScanStep::Done(best),
        (Scan::Zone { best, confidence }, Event::Zone(zone)) => step == ScanStep::Done(
            crate::detection::after_fingerprints(best, confidence, zone),
        ),
        _ => false,
    }
}

/// Goes on with the fingerprints of a scan.
fn scan_search(
    mode: FrequencyMode,
    fingerprints: Vec<Fingerprint>,
    best: Option<Detection>,
) -> (r: ScanStep)
    ensures
        scan_searches(mode, fingerprints, best, r),
{
    if fingerprints.len() == 0 {
        ScanStep::Done(best)
    } else {
        ScanStep::Ask {
            action: Action::Search {
                fingerprints,
                max_results: SCAN_RESULTS,
                sample_rate: mode.sample_rate(),
            },
            scan: Scan::Search { best },
        }
    }
}

/// Goes on with a scan after an answer.
pub fn scan_advance(scan: Scan, event: Event) -> (r: ScanStep)
    requires
        scan_awaits(scan, event),
    ensures
        scan_goes_on(scan, event, r),
{
    match (scan, event) {
        (Scan::Record { best, .. }, Event::Failed(_)) => ScanStep::Done(best),
        (Scan::Record { mode, best }, Event::Analysed { fingerprints, signature, .. }) => {
            ScanStep::Ask {
                action: Action::LoadSignatures,
                scan: Scan::Load { mode, fingerprints, signature, best },
            }
        },
        (Scan::Load { mode, fingerprints, best, .. }, Event::Failed(_)) => scan_search(
            mode,
            fingerprints,
            best,
        ),
        (Scan::Load { mode, fingerprints, signature, best }, Event::Signatures(stored)) => {
            let zones = comparable_zones(&stored, signature.dim());
            let names = zone_names(&zones);
            ScanStep::Ask {
                action: Action::Compare { query: signature, zones },
                scan: Scan::Compare { mode, fingerprints, zones: names, best },
            }
        },
        (
            Scan::Compare { mode, fingerprints, zones, best },
            Event::Compared { similarities, threshold },
        ) => {
            let scores = pair_scores(&zones, &similarities);
            scan_search(mode, fingerprints, match_signatures(best, &scores, threshold))
        },
        (Scan::Search { best }, Event::Failed(_)) => ScanStep::Done(best),
        (Scan::Search { best }, Event::Found(results)) => {
            match track_to_look_up(&results) {
                Some(track_id) => ScanStep::Ask {
                    action: Action::FindZone { track_id },
                    scan: Scan::Zone { best, confidence: results[0].confidence },
                },
                None => ScanStep::Done(best),
            }
        },
        (Scan::Zone { best, .. }, Event::Failed(_)) => ScanStep::Done(best),
        (Scan::Zone { best, confidence }, Event::Zone(zone)) => ScanStep::Done(
            match_fingerprints(best, confidence, &zone),
        ),
        _ => vstd::pervasive::unreached(),
    }
}

/// Most answers that a scan still waits for.
pub open spec fn scan_rounds(scan: Scan) -> nat {
    match scan {
        Scan::Record { .. } => 5,
        Scan::Load { .. } => 4,
        Scan::Compare { .. } => 3,
        Scan::Search { .. } => 2,
        Scan::Zone { .. } => 1,
    }
}

/// Every scan ends, and goes on with whatever comes of the work that it asked for.
pub proof fn law_scan_ends(scan: Scan, event: Event, step: ScanStep, answer: Event)
    requires
        scan_goes_on(scan, event, step),
    ensures
        step matches ScanStep::Ask { action, scan: next } ==> scan_rounds(next) < scan_rounds(scan)
            && (crate::dialogue::answers(action, answer) ==> scan_awaits(next, answer)),
{
}

// ── A round through several modes ───────────────────────────────────

/// A scan from beginning to end: its steps, and the events that led from each
/// to the next.
pub ghost struct ScanRun {
    pub steps: Seq<ScanStep>,
    pub events: Seq<Event>,
}

impl ScanRun {
    /// The event after step `i` led to the step after it.
    pub open spec fn moves(self, i: int) -> bool {
        match self.steps[i] {
            ScanStep::Ask { scan, .. } => {
                &&& scan_awaits(scan, self.events[i])
                &&& scan_goes_on(scan, self.events[i], self.steps[i + 1])
            },
            ScanStep::Done(_) => false,
        }
    }

    /// The scan was begun in a mode with what was detected before, and ended.
    pub open spec fn is_complete(self, mode: FrequencyMode, best: Option<Detection>) -> bool {
        &&& self.steps.len() == self.events.len() + 1
        &&& scan_begins(mode, best, self.steps[0])
        &&& forall|i: int| 0 <= i < self.events.len() ==> #[trigger] self.moves(i)
        &&& self.steps.last() is Done
    }

    /// What was detected in the end.
    pub open spec fn outcome(self) -> Option<Detection> {
        carried(self.steps.last())
    }

    /// The score came up at step `i` and counts.
    pub open spec fn saw_at(self, i: int, score: F64Bits) -> bool {
        0 <= i < self.events.len() && match self.steps[i] {
            ScanStep::Ask { scan, .. } => comes_up(scan, self.events[i], score),
            ScanStep::Done(_) => false,
        }
    }

    /// The score came up and counts.
    pub open spec fn saw(self, score: F64Bits) -> bool {
        exists|i: int| self.saw_at(i, score)
    }
}

/// The best detection that a step carries.
pub open spec fn carried(step: ScanStep) -> Option<Detection> {
    match step {
        ScanStep::Done(best) => best,
        ScanStep::Ask { scan, .. } => match scan {
            Scan::Record { best, .. } => best,
            Scan::Load { best, .. } => best,
            Scan::Compare { best, .. } => best,
            Scan::Search { best } => best,
            Scan::Zone { best, .. } => best,
        },
    }
}

/// The event brings a score that counts: a similarity above the threshold, or
/// the confidence of a fingerprint match with a zone.
pub open spec fn comes_up(scan: Scan, event: Event, score: F64Bits) -> bool {
    match (scan, event) {
        (Scan::Compare { zones, .. }, Event::Compared { similarities, threshold }) => exists|i: int|
            #[trigger] crate::detection::counts(
                crate::detection::scores_of(zones@, similarities@),
                i,
                threshold,
            ) && similarities@[i] == score,
        (Scan::Zone { confidence, .. }, Event::Zone(Some(_))) => score == confidence,
        _ => false,
    }
}

proof fn lemma_scan_step(scan: Scan, event: Event, step: ScanStep, action: Action)
    requires
        scan_awaits(scan, event),
        scan_goes_on(scan, event, step),
    ensures
        ({
            let before = carried(ScanStep::Ask { action, scan });
            &&& forall|score: F64Bits| #[trigger]
                crate::detection::at_least(before, score) ==> crate::detection::at_least(
                    carried(step),
                    score,
                )
            &&& forall|score: F64Bits| #[trigger]
                comes_up(scan, event, score) ==> crate::detection::at_least(carried(step), score)
            &&& carried(step) == before || (carried(step) is Some && comes_up(
                scan,
                event,
                carried(step)->0.confidence,
            ))
        }),
{
    match (scan, event) {
        (Scan::Compare { zones, best, .. }, Event::Compared { similarities, threshold }) => {
            let scores = crate::detection::scores_of(zones@, similarities@);
            crate::detection::lemma_after_signatures(best, scores, threshold);
            assert forall|score: F64Bits| #[trigger]
                comes_up(scan, event, score) implies crate::detection::at_least(
                carried(step),
                score,
            ) by {
                let i = choose|i: int| #[trigger]
                    crate::detection::counts(scores, i, threshold) && similarities@[i] == score;
                assert(scores[i].score == score);
            }
        },
        (Scan::Zone { best, confidence }, Event::Zone(Some(zone))) => {
            crate::detection::lemma_improved(
                best,
                zone.name,
                confidence,
                crate::detection::Method::Fingerprint,
            );
        },
        _ => {},
    }
}

proof fn lemma_scan_run(run: ScanRun, mode: FrequencyMode, best: Option<Detection>, n: int)
    requires
        run.is_complete(mode, best),
        0 <= n <= run.events.len(),
    ensures
        forall|score: F64Bits| #[trigger]
            crate::detection::at_least(best, score) ==> crate::detection::at_least(
                carried(run.steps[n]),
                score,
            ),
        forall|i: int, score: F64Bits| #[trigger]
            run.saw_at(i, score) && i < n ==> crate::detection::at_least(
                carried(run.steps[n]),
                score,
            ),
        carried(run.steps[n]) == best || (carried(run.steps[n]) is Some && run.saw(
            carried(run.steps[n])->0.confidence,
        )),
    decreases n,
{
    if n > 0 {
        let k = n - 1;
        lemma_scan_run(run, mode, best, k);
        assert(run.moves(k));
        let scan = run.steps[k]->scan;
        let action = run.steps[k]->action;
        lemma_scan_step(scan, run.events[k], run.steps[n], action);
        if carried(run.steps[n]) != carried(run.steps[k]) {
            assert(run.saw_at(k, carried(run.steps[n])->0.confidence));
        }
    }
}

/// One scan improves on what was detected before: in the end the confidence is
/// at least that, and at least every score that came up and counts; and what is
/// detected is either what was before or one of those.
pub proof fn law_scan_keeps_the_best(run: ScanRun, mode: FrequencyMode, best: Option<Detection>)
    requires
        run.is_complete(mode, best),
    ensures
        best matches Some(d) ==> crate::detection::at_least(run.outcome(), d.confidence),
        forall|score: F64Bits| #[trigger]
            run.saw(score) ==> crate::detection::at_least(run.outcome(), score),
        run.outcome() == best || (run.outcome() is Some && run.saw(run.outcome()->0.confidence)),
{
    lemma_scan_run(run, mode, best, run.events.len() as int);
    if best is Some {
        assert(crate::detection::at_least(best, best->0.confidence));
    }
    assert forall|score: F64Bits| #[trigger] run.saw(score) implies crate::detection::at_least(
        run.outcome(),
        score,
    ) by {
        let i = choose|i: int| run.saw_at(i, score);
        assert(run.saw_at(i, score));
    }
}

/// What was detected after the scans, given what was before.
pub open spec fn round_outcome(best: Option<Detection>, runs: Seq<ScanRun>) -> Option<Detection> {
    if runs.len() == 0 {
        best
    } else {
        runs.last().outcome()
    }
}

/// A round: one scan in each mode, each begun with what the scans before it
/// detected.
pub open spec fn is_round(
    modes: Seq<FrequencyMode>,
    best: Option<Detection>,
    runs: Seq<ScanRun>,
) -> bool {
    &&& runs.len() == modes.len()
    &&& forall|k: int|
        0 <= k < runs.len() ==> (#[trigger] runs[k]).is_complete(
            modes[k],
            round_outcome(best, runs.take(k)),
        )
}

/// The best match across all modes is taken: after a round, the confidence is at
/// least what it was before and at least every score that came up in any mode
/// and counts; and what is detected is either what was before or one of those.
pub proof fn law_round_takes_the_best(
    modes: Seq<FrequencyMode>,
    best: Option<Detection>,
    runs: Seq<ScanRun>,
)
    requires
        is_round(modes, best, runs),
    ensures
        best matches Some(d) ==> crate::detection::at_least(
            round_outcome(best, runs),
            d.confidence,
        ),
        forall|k: int, score: F64Bits|
            0 <= k < runs.len() && #[trigger] runs[k].saw(score) ==> crate::detection::at_least(
                round_outcome(best, runs),
                score,
            ),
        round_outcome(best, runs) == best || (round_outcome(best, runs) is Some && exists|k: int|
            0 <= k < runs.len() && #[trigger] runs[k].saw(
                round_outcome(best, runs)->0.confidence,
            )),
{
    lemma_round(modes, best, runs);
    if best is Some {
        assert(crate::detection::at_least(best, best->0.confidence));
    }
}

proof fn lemma_round(modes: Seq<FrequencyMode>, best: Option<Detection>, runs: Seq<ScanRun>)
    requires
        is_round(modes, best, runs),
    ensures
        forall|score: F64Bits| #[trigger]
            crate::detection::at_least(best, score) ==> crate::detection::at_least(
                round_outcome(best, runs),
                score,
            ),
        forall|k: int, score: F64Bits|
            0 <= k < runs.len() && #[trigger] runs[k].saw(score) ==> crate::detection::at_least(
                round_outcome(best, runs),
                score,
            ),
        round_outcome(best, runs) == best || (round_outcome(best, runs) is Some && exists|k: int|
            0 <= k < runs.len() && #[trigger] runs[k].saw(
                round_outcome(best, runs)->0.confidence,
            )),
    decreases runs.len(),
{
    if runs.len() > 0 {
        let n = runs.len() - 1;
        let past = runs.drop_last();
        assert forall|k: int| 0 <= k < past.len() implies (#[trigger] past[k]).is_complete(
            modes.drop_last()[k],
            round_outcome(best, past.take(k)),
        ) by {
            assert(runs[k].is_complete(modes[k], round_outcome(best, runs.take(k))));
            assert(past.take(k) =~= runs.take(k));
        }
        lemma_round(modes.drop_last(), best, past);
        let before = round_outcome(best, past);
        assert(runs.take(n) =~= past);
        let run = runs[n];
        assert(run.is_complete(modes[n], before));
        lemma_scan_run(run, modes[n], before, run.events.len() as int);
        law_scan_keeps_the_best(run, modes[n], before);
        assert forall|k: int, score: F64Bits|
            0 <= k < runs.len() && #[trigger] runs[k].saw(score) implies crate::detection::at_least(
            run.outcome(),
            score,
        ) by {
            if k < n {
                assert(past[k].saw(score));
            }
        }
        if run.outcome() == before && before != best {
            let k = choose|k: int|
                0 <= k < past.len() && #[trigger] past[k].saw(before->0.confidence);
            assert(runs[k].saw(before->0.confidence));
        } else if run.outcome() != before {
            assert(runs[n].saw(run.outcome()->0.confidence));
        }
    }
}

// ── Moving between zones ────────────────────────────────────────────

/// The event says that a zone was entered.
pub open spec fn is_enter(e: ZoneEvent, zone: Seq<char>, confidence: F64Bits, at: Seq<char>) -> bool {
    e.event@ == "zone_enter"@ && e.zone@ == zone && e.confidence == Some(confidence) && e.timestamp@
        == at
}

/// The event says that a zone was left.
pub open spec fn is_exit(e: ZoneEvent, zone: Seq<char>, at: Seq<char>) -> bool {
    e.event@ == "zone_exit"@ && e.zone@ == zone && e.confidence is None && e.timestamp@ == at
}

/// The events of going from one zone, or none, to what a scan detected.
pub open spec fn moves(
    current: Option<String>,
    detected: Option<Detection>,
    now: Seq<char>,
    exit_now: Seq<char>,
    next: Option<String>,
    events: Seq<ZoneEvent>,
) -> bool {
    match (current, detected) {
        (None, None) => next is None && events.len() == 0,
        (None, Some(d)) => {
            &&& next == Some(d.zone)
            &&& events.len() == 1
            &&& is_enter(events[0], d.zone@, d.confidence, now)
        },
        (Some(prev), Some(d)) => if prev@ == d.zone@ {
            next == current && events.len() == 0
        } else {
            &&& next == Some(d.zone)
            &&& events.len() == 2
            &&& is_exit(events[0], prev@, exit_now)
            &&& is_enter(events[1], d.zone@, d.confidence, now)
        },
        (Some(prev), None) => {
            &&& next is None
            &&& events.len() == 1
            &&& is_exit(events[0], prev@, now)
        },
    }
}

/// The event of entering a zone.
fn enter(zone: &str, confidence: F64Bits, at: &str) -> (r: ZoneEvent)
    ensures
        is_enter(r, zone@, confidence, at@),
{
    ZoneEvent {
        event: "zone_enter".to_owned(),
        zone: zone.to_owned(),
        confidence: Some(confidence),
        timestamp: at.to_owned(),
    }
}

/// The event of leaving a zone.
fn exit(zone: &str, at: &str) -> (r: ZoneEvent)
    ensures
        is_exit(r, zone@, at@),
{
    ZoneEvent {
        event: "zone_exit".to_owned(),
        zone: zone.to_owned(),
        confidence: None,
        timestamp: at.to_owned(),
    }
}

/// Goes from one zone, or none, to what a scan detected: the zone that is
/// current then, and the events to send, in order. `now` is when the scan
/// ended, `exit_now` a moment later, used where one zone follows another.
pub fn transition(
    current: Option<String>,
    detected: &Option<Detection>,
    now: &str,
    exit_now: &str,
) -> (r: (Option<String>, Vec<ZoneEvent>))
    ensures
        moves(current, *detected, now@, exit_now@, r.0, r.1@),
{
    let mut events: Vec<ZoneEvent> = Vec::new();
    match (current, detected) {
        (None, Some(d)) => {
            events.push(enter(d.zone.as_str(), d.confidence, now));
            (Some(d.zone.clone()), events)
        },
        (Some(prev), Some(d)) => {
            if same_text(prev.as_str(), d.zone.as_str()) {
                // Same zone — no event
                (Some(prev), events)
            } else {
                events.push(exit(prev.as_str(), exit_now));
                events.push(enter(d.zone.as_str(), d.confidence, now));
                (Some(d.zone.clone()), events)
            }
        },
        (Some(prev), None) => {
            events.push(exit(prev.as_str(), now));
            (None, events)
        },
        (None, None) => (None, events),
    }
}

/// A client's idea of the current zone after an event.
pub open spec fn heard(zone: Option<Seq<char>>, e: ZoneEvent) -> Option<Seq<char>> {
    if e.event@ == "zone_enter"@ {
        Some(e.zone@)
    } else {
        None
    }
}

/// A client's idea of the current zone after several events.
pub open spec fn followed(zone: Option<Seq<char>>, events: Seq<ZoneEvent>) -> Option<Seq<char>>
    decreases events.len(),
{
    if events.len() == 0 {
        zone
    } else {
        heard(followed(zone, events.drop_last()), events.last())
    }
}

/// The name of a zone, where there is one.
pub open spec fn name_of(zone: Option<String>) -> Option<Seq<char>> {
    match zone {
        Some(z) => Some(z@),
        None => None,
    }
}

/// The events make sense: a zone is entered only from outside, and only the
/// current zone is left.
pub open spec fn consistent(zone: Option<Seq<char>>, events: Seq<ZoneEvent>) -> bool
    decreases events.len(),
{
    events.len() == 0 || {
        let before = followed(zone, events.drop_last());
        let e = events.last();
        &&& consistent(zone, events.drop_last())
        &&& (e.event@ == "zone_enter"@ && before is None) || (e.event@ == "zone_exit"@ && before
            == Some(e.zone@))
    }
}

/// A client that follows the events knows the current zone; what it is told
/// makes sense, and it is told something exactly when the zone changes. After a
/// scan the current zone is the detected one.
pub proof fn law_events_follow_the_zone(
    current: Option<String>,
    detected: Option<Detection>,
    now: Seq<char>,
    exit_now: Seq<char>,
    next: Option<String>,
    events: Seq<ZoneEvent>,
)
    requires
        moves(current, detected, now, exit_now, next, events),
    ensures
        followed(name_of(current), events) == name_of(next),
        consistent(name_of(current), events),
        events.len() == 0 <==> name_of(current) == name_of(next),
        name_of(next) == (match detected {
            Some(d) => Some(d.zone@),
            None => None,
        }),
{
    reveal_with_fuel(followed, 3);
    reveal_with_fuel(consistent, 3);
    reveal_strlit("zone_enter");
    reveal_strlit("zone_exit");
    assert("zone_enter"@.len() != "zone_exit"@.len());
    if events.len() == 2 {
        assert(events.drop_last().last() == events[0]);
        assert(events.drop_last().drop_last().len() == 0);
    }
}

// ── What the monitor does ───────────────────────────────────────────

/// The modes are those that the names at these places name, in order: all names
/// that name one.
pub open spec fn named_at(
    names: Seq<String>,
    modes: Seq<FrequencyMode>,
    places: Seq<int>,
) -> bool {
    &&& places.len() == modes.len()
    &&& forall|k: int|
        #![trigger places[k]]
        #![trigger modes[k]]
        0 <= k < places.len() ==> 0 <= places[k] < names.len() && crate::dialogue::goes_by(
            modes[k],
            names[places[k]]@,
        )
    &&& forall|k: int, l: int|
        0 <= k < l < places.len() ==> (#[trigger] places[k]) < (#[trigger] places[l])
    &&& forall|j: int|
        #![trigger names[j]]
        0 <= j < names.len() && (names[j]@ == "audible"@ || names[j]@ == "ultrasonic"@ || names[j]@
            == "full"@) ==> places.contains(j)
}

/// Every mode that is stored for a zone is scanned; what names no mode is passed
/// over.
pub proof fn law_every_stored_mode_is_scanned(names: Seq<String>) -> (places: Seq<int>)
    ensures
        named_at(names, modes_named(names), places),
    decreases names.len(),
{
    if names.len() == 0 {
        Seq::empty()
    } else {
        let rest = names.drop_last();
        let n = names.len() - 1;
        let before = law_every_stored_mode_is_scanned(rest);
        FrequencyMode::law_what_the_modes_are_called(names.last()@);
        assert forall|k: int| 0 <= k < before.len() implies rest[#[trigger] before[k]]
            == names[before[k]] by {}
        let modes = modes_named(names);
        if FrequencyMode::named(names.last()@) is Some {
            let places = before.push(n);
            assert forall|k: int|
                #![trigger places[k]]
                #![trigger modes[k]]
                0 <= k < places.len() implies 0 <= places[k] < names.len()
                && crate::dialogue::goes_by(modes[k], names[places[k]]@) by {
                if k < before.len() {
                    assert(places[k] == before[k]);
                    assert(modes_named(rest)[k] == modes[k]);
                }
            }
            assert forall|j: int|
                #![trigger names[j]]
                0 <= j < names.len() && (names[j]@ == "audible"@ || names[j]@ == "ultrasonic"@
                    || names[j]@ == "full"@) implies places.contains(j) by {
                if j < n {
                    assert(rest[j] == names[j]);
                    assert(before.contains(j));
                    let k = choose|k: int| 0 <= k < before.len() && before[k] == j;
                    assert(places[k] == j);
                } else {
                    assert(places[before.len() as int] == j);
                }
            }
            places
        } else {
            assert forall|j: int|
                #![trigger names[j]]
                0 <= j < names.len() && (names[j]@ == "audible"@ || names[j]@ == "ultrasonic"@
                    || names[j]@ == "full"@) implies before.contains(j) by {
                if j < n {
                    assert(rest[j] == names[j]);
                }
            }
            before
        }
    }
}

/// A scan, from end to end: three seconds are recorded in the mode; the query is
/// compared with exactly the stored signatures of its dimension; its
/// fingerprints, where it has any, are searched for at the mode's rate, with at
/// most one result, and the zone of that result is looked up where it is
/// confident enough.
pub proof fn law_scan_end_to_end(
    mode: FrequencyMode,
    best: Option<Detection>,
    fingerprints: Vec<Fingerprint>,
    signature: Signature,
    duration_secs: crate::ieee::F32Bits,
    stored: Vec<crate::detection::StoredSignature>,
    similarities: Vec<F64Bits>,
    threshold: F64Bits,
    results: Vec<crate::database::MatchResult>,
    begun: ScanStep,
    loaded: ScanStep,
    compared: ScanStep,
    searched: ScanStep,
    looked_up: ScanStep,
)
    requires
        scan_begins(mode, best, begun),
        begun matches ScanStep::Ask { scan, .. } ==> scan_goes_on(
            scan,
            Event::Analysed { fingerprints, signature, duration_secs },
            loaded,
        ),
        loaded matches ScanStep::Ask { scan, .. } ==> scan_goes_on(
            scan,
            Event::Signatures(stored),
            compared,
        ),
        compared matches ScanStep::Ask { scan, .. } ==> scan_goes_on(
            scan,
            Event::Compared { similarities, threshold },
            searched,
        ),
        searched matches ScanStep::Ask { scan, .. } ==> scan_goes_on(
            scan,
            Event::Found(results),
            looked_up,
        ),
    ensures
        begun matches ScanStep::Ask { action, .. } && action == (Action::Analyse {
            source: Source::Microphone { seconds: 3 },
            mode,
        }),
        loaded matches ScanStep::Ask { action, .. } && action is LoadSignatures,
        compared matches ScanStep::Ask { action: Action::Compare { query, zones }, scan } && {
            &&& query == signature
            &&& exists|places: Seq<int>| #[trigger]
                crate::detection::compared_at(stored@, signature.vector@.len(), zones@, places)
            &&& scan matches Scan::Compare { zones: names, .. }
            &&& names@ == zones@.map_values(|z: crate::detection::ZoneSignature| z.zone)
        },
        fingerprints@.len() == 0 ==> searched is Done,
        fingerprints@.len() > 0 ==> {
            &&& searched matches ScanStep::Ask { action, .. }
            &&& action == (Action::Search {
                fingerprints,
                max_results: 1,
                sample_rate: crate::dialogue::samples_per_second(mode),
            })
            &&& if results@.len() > 0 && results@[0].confidence.reaches(
                F64Bits { bits: 0x3fa9_9999_9999_999a },
            ) {
                &&& looked_up matches ScanStep::Ask { action, scan }
                &&& action == (Action::FindZone { track_id: results@[0].track.id })
                &&& scan matches Scan::Zone { confidence, .. }
                &&& confidence == results@[0].confidence
            } else {
                looked_up is Done
            }
        },
{
    if let ScanStep::Ask { action: Action::Compare { zones, .. }, .. } = compared {
        let places = crate::detection::law_all_of_the_dimension_are_compared(
            stored@,
            signature.vector@.len(),
            zones@,
        );
        assert(crate::detection::compared_at(stored@, signature.vector@.len(), zones@, places));
    }
}

/// A scan whose work fails keeps what was detected before, and goes on with the
/// fingerprints where only the stored signatures are missing.
pub proof fn law_failed_scan_keeps_the_best(scan: Scan, problem: String, step: ScanStep)
    requires
        scan_awaits(scan, Event::Failed(problem)),
        scan_goes_on(scan, Event::Failed(problem), step),
    ensures
        match scan {
            Scan::Record { best, .. } => step == ScanStep::Done(best),
            Scan::Load { mode, fingerprints, best, .. } => if fingerprints@.len() == 0 {
                step == ScanStep::Done(best)
            } else {
                step matches ScanStep::Ask { action, scan: next } && action == (Action::Search {
                    fingerprints,
                    max_results: 1,
                    sample_rate: crate::dialogue::samples_per_second(mode),
                }) && next == (Scan::Search { best })
            },
            Scan::Search { best } => step == ScanStep::Done(best),
            Scan::Zone { best, .. } => step == ScanStep::Done(best),
            Scan::Compare { .. } => true,
        },
{
}

/// The events of moving, one by one: a zone that is left is told without a
/// confidence, a zone that is entered with that of the detection; leaving comes
/// first. An entry bears the time of the scan, and so does an exit that no entry
/// follows; one that an entry follows bears the later time.
pub proof fn law_events_tell_what_happened(
    current: Option<String>,
    detected: Option<Detection>,
    now: Seq<char>,
    exit_now: Seq<char>,
    next: Option<String>,
    events: Seq<ZoneEvent>,
)
    requires
        moves(current, detected, now, exit_now, next, events),
    ensures
        ({
            let stays = current is Some && detected is Some && current->0@ == detected->0.zone@;
            let leaves = current is Some && !stays;
            let enters = detected is Some && !stays;
            &&& events.len() == (if leaves {
                1int
            } else {
                0
            }) + (if enters {
                1int
            } else {
                0
            })
            &&& leaves ==> {
                &&& events[0].event@ == "zone_exit"@
                &&& events[0].zone@ == current->0@
                &&& events[0].confidence is None
                &&& events[0].timestamp@ == (if enters {
                    exit_now
                } else {
                    now
                })
            }
            &&& enters ==> {
                &&& events.last().event@ == "zone_enter"@
                &&& events.last().zone@ == detected->0.zone@
                &&& events.last().confidence == Some(detected->0.confidence)
                &&& events.last().timestamp@ == now
            }
            &&& detected is Some <==> next is Some
            &&& detected is Some ==> next->0@ == detected->0.zone@
        }),
{
}

/// A scan waits for the outcome of the work that it asked for, and for nothing
/// else.
pub proof fn law_scan_work_is_awaited(
    mode: FrequencyMode,
    best: Option<Detection>,
    before: Scan,
    answer: Event,
    step: ScanStep,
    event: Event,
)
    requires
        scan_begins(mode, best, step) || scan_goes_on(before, answer, step),
    ensures
        step matches ScanStep::Ask { action, scan } ==> (scan_awaits(scan, event)
            <==> crate::dialogue::is_outcome_of(action, event)),
{
}

/// Between rounds the monitor pauses for a second, and five times as long where
/// there is nothing to scan for.
pub proof fn law_pace_of_rounds()
    ensures
        PAUSE_SECS == 1,
        IDLE_SECS == 5 * PAUSE_SECS,
{
}

} // verus!
