//! Live capture: the rolling history, zone captures, and the frames that are analysed.

use crate::ieee::F32Bits;
use crate::wire::{push_u16, push_u32};
use vstd::prelude::*;

verus! {

/// FFT configuration for the real-time spectrogram.
pub const FFT_SIZE: usize = 2048;

/// Samples between two frames.
pub const HOP_SIZE: usize = 1024;

/// Bins of a frame.
pub const NUM_BINS: usize = 1025;

/// How many seconds of audio to keep for zone capture / detection.
pub const AUDIO_HISTORY_SECS: usize = 10;

/// How many seconds of audio a detection looks at.
pub const DETECT_SECS: usize = 5;

/// Target frame rate for SSE output.
pub const TARGET_FPS: u32 = 60;

/// The last `n` of some samples, or all of them.
pub open spec fn recent<S>(samples: Seq<S>, n: int) -> Seq<S> {
    if samples.len() <= n {
        samples
    } else {
        samples.skip(samples.len() - n)
    }
}

/// A capture after new samples were fed: it takes them only while capturing.
pub open spec fn captured<S>(capture: Seq<S>, capturing: bool, new: Seq<S>) -> Seq<S> {
    if capturing {
        capture + new
    } else {
        capture
    }
}

/// Shared state for zone capture and detection.
#[derive(Debug)]
pub struct ZoneState<S> {
    /// Rolling buffer of mono samples at capture sample rate.
    pub mono_history: Vec<S>,
    /// Max samples to keep in history.
    pub max_history_samples: usize,
    /// Whether we are currently capturing for a new zone.
    pub capturing: bool,
    /// Accumulated samples during capture.
    pub capture_buf: Vec<S>,
    /// Whether continuous detection is enabled.
    pub detecting: bool,
    /// Last detection result (JSON string).
    pub last_detection: String,
}

impl<S: Copy> ZoneState<S> {
    /// The history never outgrows its limit.
    pub open spec fn wf(self) -> bool {
        self.mono_history@.len() <= self.max_history_samples
    }

    /// Nothing heard, nothing captured, no detection.
    pub fn new(sample_rate: u32) -> (r: ZoneState<S>)
        requires
            sample_rate * AUDIO_HISTORY_SECS <= usize::MAX,
        ensures
            r.wf(),
            r.mono_history@ == Seq::<S>::empty(),
            r.max_history_samples == sample_rate * AUDIO_HISTORY_SECS,
            !r.capturing,
            r.capture_buf@ == Seq::<S>::empty(),
            !r.detecting,
            r.last_detection@ == Seq::<char>::empty(),
    {
        ZoneState {
            mono_history: Vec::new(),
            max_history_samples: sample_rate as usize * AUDIO_HISTORY_SECS,
            capturing: false,
            capture_buf: Vec::new(),
            detecting: false,
            last_detection: String::new(),
        }
    }

    /// Feeds new samples into the history and, while capturing, into the capture.
    pub fn feed(&mut self, new_mono: &[S])
        requires
            old(self).wf(),
        ensures
            final(self).wf(),
            final(self).mono_history@ == recent(
                old(self).mono_history@ + new_mono@,
                old(self).max_history_samples as int,
            ),
            final(self).capture_buf@ == captured(
                old(self).capture_buf@,
                old(self).capturing,
                new_mono@,
            ),
            final(self).max_history_samples == old(self).max_history_samples,
            final(self).capturing == old(self).capturing,
            final(self).detecting == old(self).detecting,
            final(self).last_detection == old(self).last_detection,
    {
        // Append to rolling history
        push_all(&mut self.mono_history, new_mono);
        if self.mono_history.len() > self.max_history_samples {
            let excess: usize = self.mono_history.len() - self.max_history_samples;
            self.mono_history = self.mono_history.split_off(excess);
        }
        // If capturing, also accumulate
        if self.capturing {
            push_all(&mut self.capture_buf, new_mono);
        }
        assert(self.mono_history@ =~= recent(
            old(self).mono_history@ + new_mono@,
            old(self).max_history_samples as int,
        ));
    }

    /// Starts capturing audio for a new zone.
    pub fn start_capture(&mut self)
        ensures
            final(self).capturing,
            final(self).capture_buf@ == Seq::<S>::empty(),
            final(self).mono_history == old(self).mono_history,
            final(self).max_history_samples == old(self).max_history_samples,
            final(self).detecting == old(self).detecting,
            final(self).last_detection == old(self).last_detection,
    {
        self.capturing = true;
        self.capture_buf.clear();
    }

    /// Stops capturing; returns the number of samples captured.
    pub fn stop_capture(&mut self) -> (r: usize)
        ensures
            r == old(self).capture_buf@.len(),
            *final(self) == (ZoneState { capturing: false, ..*old(self) }),
    {
        self.capturing = false;
        self.capture_buf.len()
    }

    /// Stops capturing and takes the captured samples.
    pub fn take_capture(&mut self) -> (r: Vec<S>)
        ensures
            r == old(self).capture_buf,
            final(self).capture_buf@ == Seq::<S>::empty(),
            !final(self).capturing,
            final(self).mono_history == old(self).mono_history,
            final(self).max_history_samples == old(self).max_history_samples,
            final(self).detecting == old(self).detecting,
            final(self).last_detection == old(self).last_detection,
    {
        self.capturing = false;
        let mut taken: Vec<S> = Vec::new();
        std::mem::swap(&mut self.capture_buf, &mut taken);
        taken
    }

    /// Enables continuous detection.
    pub fn start_detecting(&mut self)
        ensures
            *final(self) == (ZoneState { detecting: true, ..*old(self) }),
    {
        self.detecting = true;
    }

    /// Disables continuous detection and forgets its last result.
    pub fn stop_detecting(&mut self)
        ensures
            !final(self).detecting,
            final(self).last_detection@ == Seq::<char>::empty(),
            final(self).mono_history == old(self).mono_history,
            final(self).max_history_samples == old(self).max_history_samples,
            final(self).capturing == old(self).capturing,
            final(self).capture_buf == old(self).capture_buf,
    {
        self.detecting = false;
        self.last_detection = String::new();
    }

    /// Keeps the result of a detection.
    pub fn set_last_detection(&mut self, json: String)
        ensures
            *final(self) == (ZoneState { last_detection: json, ..*old(self) }),
    {
        self.last_detection = json;
    }

    /// The last samples that a detection looks at; none while too few were heard.
    pub fn detection_window(&self, sample_rate: u32) -> (r: Option<Vec<S>>)
        requires
            sample_rate * DETECT_SECS <= usize::MAX,
        ensures
            r is None <==> self.mono_history@.len() < sample_rate * DETECT_SECS,
            r matches Some(samples) ==> samples@ == recent(
                self.mono_history@,
                sample_rate * DETECT_SECS,
            ),
    {
        let detect_samples: usize = sample_rate as usize * DETECT_SECS;
        if self.mono_history.len() < detect_samples {
            return None;
        }
        let start: usize = self.mono_history.len() - detect_samples;
        let samples = copy_from(&self.mono_history, start);
        assert(samples@ =~= recent(self.mono_history@, sample_rate * DETECT_SECS));
        Some(samples)
    }

    /// The last samples to look at where continuous detection is enabled.
    pub fn continuous_window(&self, sample_rate: u32) -> (r: Option<Vec<S>>)
        requires
            sample_rate * DETECT_SECS <= usize::MAX,
        ensures
            r is Some <==> self.detecting && self.mono_history@.len() >= sample_rate * DETECT_SECS,
            r matches Some(samples) ==> samples@ == recent(
                self.mono_history@,
                sample_rate * DETECT_SECS,
            ),
    {
        if !self.detecting {
            return None;
        }
        self.detection_window(sample_rate)
    }
}

/// Appends samples.
fn push_all<S: Copy>(out: &mut Vec<S>, new: &[S])
    ensures
        final(out)@ == old(out)@ + new@,
{
    let ghost start = out@;
    let mut i: usize = 0;
    assert(start + new@.take(0) =~= start);
    while i < new.len()
        invariant
            i <= new.len(),
            out@ == start + new@.take(i as int),
        decreases new.len() - i,
    {
        out.push(new[i]);
        i = i + 1;
        assert(out@ =~= start + new@.take(i as int));
    }
    assert(new@.take(i as int) =~= new@);
}

/// The samples from `start` on.
fn copy_from<S: Copy>(samples: &Vec<S>, start: usize) -> (r: Vec<S>)
    requires
        start <= samples@.len(),
    ensures
        r@ == samples@.skip(start as int),
{
    copy_range(samples, start, samples.len())
}

/// The samples from `start` up to `end`.
fn copy_range<S: Copy>(samples: &Vec<S>, start: usize, end: usize) -> (r: Vec<S>)
    requires
        start <= end <= samples@.len(),
    ensures
        r@ == samples@.subrange(start as int, end as int),
{
    let mut out: Vec<S> = Vec::new();
    let mut i: usize = start;
    while i < end
        invariant
            start <= i <= end <= samples@.len(),
            out@ == samples@.subrange(start as int, i as int),
        decreases end - i,
    {
        out.push(samples[i]);
        i = i + 1;
        assert(out@ =~= samples@.subrange(start as int, i as int));
    }
    out
}

/// Several batches of samples as one.
pub open spec fn joined<S>(batches: Seq<Seq<S>>) -> Seq<S>
    decreases batches.len(),
{
    if batches.len() == 0 {
        Seq::empty()
    } else {
        joined(batches.drop_last()) + batches.last()
    }
}

/// The history after several batches were fed.
pub open spec fn history_after<S>(history: Seq<S>, batches: Seq<Seq<S>>, n: int) -> Seq<S>
    decreases batches.len(),
{
    if batches.len() == 0 {
        history
    } else {
        recent(history_after(history, batches.drop_last(), n) + batches.last(), n)
    }
}

/// However the samples come in, the history holds the last ones, as many as
/// are kept.
pub proof fn law_history_holds_the_last_samples<S>(batches: Seq<Seq<S>>, n: int)
    requires
        n >= 0,
    ensures
        history_after(Seq::empty(), batches, n) == recent(joined(batches), n),
    decreases batches.len(),
{
    if batches.len() > 0 {
        let before = joined(batches.drop_last());
        law_history_holds_the_last_samples(batches.drop_last(), n);
        assert(recent(recent(before, n) + batches.last(), n) =~= recent(
            before + batches.last(),
            n,
        ));
    } else {
        assert(history_after(Seq::<S>::empty(), batches, n) =~= recent(joined(batches), n));
    }
}

/// The capture after several batches were fed.
pub open spec fn capture_after<S>(
    capture: Seq<S>,
    capturing: bool,
    batches: Seq<Seq<S>>,
) -> Seq<S>
    decreases batches.len(),
{
    if batches.len() == 0 {
        capture
    } else {
        captured(
            capture_after(capture, capturing, batches.drop_last()),
            capturing,
            batches.last(),
        )
    }
}

/// From the start of a capture on, all that is fed is captured, in order; while
/// nothing is being captured, nothing is.
pub proof fn law_capture_holds_what_was_fed<S>(capture: Seq<S>, batches: Seq<Seq<S>>)
    ensures
        capture_after(Seq::empty(), true, batches) == joined(batches),
        capture_after(capture, false, batches) == capture,
    decreases batches.len(),
{
    if batches.len() > 0 {
        law_capture_holds_what_was_fed(capture, batches.drop_last());
    }
    assert(capture_after(Seq::<S>::empty(), true, batches) =~= joined(batches));
}

/// Mono samples waiting to be analysed. Frames are read with a cursor, so that
/// samples need not be moved for each of them.
#[derive(Debug)]
pub struct FrameBuffer<S> {
    pub samples: Vec<S>,
    /// Read position.
    pub cursor: usize,
}

impl<S: Copy> FrameBuffer<S> {
    /// The cursor stands within the samples.
    pub open spec fn wf(self) -> bool {
        self.cursor <= self.samples@.len()
    }

    /// The samples that frames are still to be read from.
    pub open spec fn waiting(self) -> Seq<S> {
        self.samples@.skip(self.cursor as int)
    }

    /// An empty buffer.
    pub fn new() -> (r: FrameBuffer<S>)
        ensures
            r.wf(),
            r.samples@ == Seq::<S>::empty(),
            r.cursor == 0,
            r.waiting() == Seq::<S>::empty(),
    {
        let r = FrameBuffer { samples: Vec::new(), cursor: 0 };
        assert(r.waiting() =~= Seq::<S>::empty());
        r
    }

    /// Appends samples.
    pub fn push(&mut self, new: &[S])
        requires
            old(self).wf(),
        ensures
            final(self).wf(),
            final(self).samples@ == old(self).samples@ + new@,
            final(self).cursor == old(self).cursor,
            final(self).waiting() == old(self).waiting() + new@,
    {
        push_all(&mut self.samples, new);
        assert(self.waiting() =~= old(self).waiting() + new@);
    }

    /// Reads the next frame, where there are samples enough, and moves on by a hop.
    pub fn next_frame(&mut self) -> (r: Option<Vec<S>>)
        requires
            old(self).wf(),
        ensures
            final(self).wf(),
            r is Some <==> old(self).waiting().len() >= FFT_SIZE,
            r matches Some(frame) ==> frame@ == old(self).waiting().take(FFT_SIZE as int)
                && final(self).cursor == old(self).cursor + HOP_SIZE && final(self).waiting()
                == old(self).waiting().skip(HOP_SIZE as int),
            r is None ==> *final(self) == *old(self),
            final(self).samples == old(self).samples,
    {
        if self.samples.len() - self.cursor < FFT_SIZE {
            return None;
        }
        let frame = copy_range(&self.samples, self.cursor, self.cursor + FFT_SIZE);
        assert(frame@ =~= self.waiting().take(FFT_SIZE as int));
        self.cursor = self.cursor + HOP_SIZE;
        assert(self.waiting() =~= old(self).waiting().skip(HOP_SIZE as int));
        Some(frame)
    }

    /// Drops the samples that were read, once the cursor is past half of them.
    pub fn compact(&mut self)
        requires
            old(self).wf(),
        ensures
            final(self).wf(),
            final(self).waiting() == old(self).waiting(),
            if old(self).cursor > old(self).samples@.len() / 2 && old(self).cursor > 4 * FFT_SIZE {
                final(self).cursor == 0 && final(self).samples@ == old(self).waiting()
            } else {
                *final(self) == *old(self)
            },
    {
        if self.cursor > self.samples.len() / 2 && self.cursor > FFT_SIZE * 4 {
            self.samples = self.samples.split_off(self.cursor);
            self.cursor = 0;
        }
        assert(self.waiting() =~= old(self).waiting());
    }

    /// Prevents unbounded growth: where more than two seconds wait, all but the
    /// last samples are dropped.
    pub fn limit(&mut self, sample_rate: u32)
        requires
            old(self).wf(),
            2 * sample_rate <= usize::MAX,
            old(self).waiting().len() > 2 * sample_rate ==> old(self).samples@.len() >= 2
                * FFT_SIZE,
        ensures
            final(self).wf(),
            old(self).waiting().len() <= 2 * sample_rate ==> *final(self) == *old(self),
            old(self).waiting().len() > 2 * sample_rate ==> final(self).samples@ == recent(
                old(self).samples@,
                2 * FFT_SIZE,
            ) && final(self).cursor == 0,
    {
        let max_buf: usize = sample_rate as usize * 2;
        if self.samples.len() - self.cursor > max_buf {
            let new_start: usize = self.samples.len() - FFT_SIZE * 2;
            self.samples = self.samples.split_off(new_start);
            self.cursor = 0;
            assert(self.samples@ =~= recent(old(self).samples@, 2 * FFT_SIZE));
        }
    }
}

/// Number of frames that can be read from `len` samples.
pub open spec fn frames_waiting(len: int) -> int {
    if len < FFT_SIZE {
        0
    } else {
        (len - FFT_SIZE) / HOP_SIZE as int + 1
    }
}

/// What waits after `k` frames were read.
pub open spec fn after_frames<S>(waiting: Seq<S>, k: int) -> Seq<S>
    decreases k,
{
    if k <= 0 {
        waiting
    } else {
        after_frames(waiting, k - 1).skip(HOP_SIZE as int)
    }
}

/// The frames that are read overlap by half: the `k`-th starts `k` hops into
/// the samples. As many are read as fit.
pub proof fn law_frames_overlap_by_half<S>(waiting: Seq<S>, k: int)
    requires
        0 <= k <= frames_waiting(waiting.len() as int),
    ensures
        after_frames(waiting, k) == waiting.skip(k * HOP_SIZE),
        after_frames(waiting, k).len() >= FFT_SIZE <==> k < frames_waiting(waiting.len() as int),
        k < frames_waiting(waiting.len() as int) ==> after_frames(waiting, k).take(FFT_SIZE as int)
            == waiting.subrange(k * HOP_SIZE, k * HOP_SIZE + FFT_SIZE),
    decreases k,
{
    if k > 0 {
        law_frames_overlap_by_half(waiting, k - 1);
        assert(after_frames(waiting, k) =~= waiting.skip(k * HOP_SIZE));
    } else {
        assert(after_frames(waiting, k) =~= waiting.skip(0));
    }
    if k < frames_waiting(waiting.len() as int) {
        assert(after_frames(waiting, k).take(FFT_SIZE as int) =~= waiting.subrange(
            k * HOP_SIZE,
            k * HOP_SIZE + FFT_SIZE,
        ));
    }
}

/// The message of a frame: the number of bins, the sample rate, and the
/// magnitudes in dB, all little-endian.
pub open spec fn frame_message(sample_rate: u32, decibels: Seq<F32Bits>) -> Seq<u8> {
    crate::wire::le16(NUM_BINS as u16) + crate::wire::le32(sample_rate)
        + crate::signature::vector_bytes(decibels)
}

/// Encodes a frame for the stream.
pub fn encode_frame(sample_rate: u32, decibels: &Vec<F32Bits>) -> (r: Vec<u8>)
    requires
        decibels@.len() == NUM_BINS,
    ensures
        r@ == frame_message(sample_rate, decibels@),
{
    let mut msg: Vec<u8> = Vec::new();
    push_u16(&mut msg, NUM_BINS as u16);
    push_u32(&mut msg, sample_rate);
    let mut i: usize = 0;
    let ghost head = msg@;
    assert(head + crate::signature::vector_bytes(decibels@.take(0)) =~= head);
    while i < decibels.len()
        invariant
            i <= decibels.len(),
            msg@ == head + crate::signature::vector_bytes(decibels@.take(i as int)),
        decreases decibels.len() - i,
    {
        push_u32(&mut msg, decibels[i].bits);
        assert(decibels@.take(i + 1).drop_last() =~= decibels@.take(i as int));
        i = i + 1;
        assert(msg@ =~= head + crate::signature::vector_bytes(decibels@.take(i as int)));
    }
    assert(decibels@.take(i as int) =~= decibels@);
    assert(msg@ =~= frame_message(sample_rate, decibels@));
    msg
}

/// Every frame message has the same length: a head of six bytes and four for
/// each bin.
pub proof fn law_frame_message_length(sample_rate: u32, decibels: Seq<F32Bits>)
    requires
        decibels.len() == NUM_BINS,
    ensures
        frame_message(sample_rate, decibels).len() == 6 + 4 * NUM_BINS,
{
    crate::signature::law_stored_vector_reads_back(decibels);
}

/// The recent samples are the last ones, in order: as many as asked for, or all.
pub proof fn law_recent_are_the_last<S>(samples: Seq<S>, n: int)
    requires
        n >= 0,
    ensures
        recent(samples, n).len() == (if samples.len() <= n {
            samples.len() as int
        } else {
            n
        }),
        forall|i: int|
            0 <= i < recent(samples, n).len() ==> #[trigger] recent(samples, n)[i] == samples[i
                + samples.len() - recent(samples, n).len()],
{
}

/// A frame message tells the number of bins, the sample rate and the magnitudes,
/// each by its bytes, the least significant first.
pub proof fn law_frame_message_tells_all(sample_rate: u32, decibels: Seq<F32Bits>)
    requires
        decibels.len() == NUM_BINS,
    ensures
        ({
            let m = frame_message(sample_rate, decibels);
            &&& m.len() == 6 + 4 * decibels.len()
            &&& m[0] + 0x100 * m[1] == decibels.len()
            &&& m[2] + 0x100 * m[3] + 0x1_0000 * m[4] + 0x100_0000 * m[5] == sample_rate
            &&& forall|i: int|
                #![trigger decibels[i]]
                0 <= i < decibels.len() ==> m[6 + 4 * i] + 0x100 * m[7 + 4 * i] + 0x1_0000 * m[8 + 4
                    * i] + 0x100_0000 * m[9 + 4 * i] == decibels[i].bits
        }),
{
    let m = frame_message(sample_rate, decibels);
    let bytes = crate::signature::vector_bytes(decibels);
    crate::wire::law_bytes_are_digits(NUM_BINS as u16, sample_rate, 0);
    crate::signature::law_stored_vector_reads_back(decibels);
    assert forall|i: int|
        #![trigger decibels[i]]
        0 <= i < decibels.len() implies m[6 + 4 * i] + 0x100 * m[7 + 4 * i] + 0x1_0000 * m[8 + 4
        * i] + 0x100_0000 * m[9 + 4 * i] == decibels[i].bits by {
        assert(decibels[i].bits == crate::wire::value32(bytes, 4 * i));
        assert(m[6 + 4 * i] == bytes[4 * i]);
        assert(m[7 + 4 * i] == bytes[4 * i + 1]);
        assert(m[8 + 4 * i] == bytes[4 * i + 2]);
        assert(m[9 + 4 * i] == bytes[4 * i + 3]);
    }
}

/// While capturing, what is fed is added at the end; otherwise nothing is.
pub proof fn law_capture_grows_by_what_is_fed<S>(capture: Seq<S>, new: Seq<S>)
    ensures
        captured(capture, true, new).len() == capture.len() + new.len(),
        captured(capture, true, new).take(capture.len() as int) == capture,
        captured(capture, true, new).skip(capture.len() as int) == new,
        captured(capture, false, new) == capture,
{
    assert(captured(capture, true, new).take(capture.len() as int) =~= capture);
    assert(captured(capture, true, new).skip(capture.len() as int) =~= new);
}

/// The sizes fit together: neighbouring frames share half of their 2048 samples,
/// a frame has a bin for each half of its samples and one more, and of the ten
/// seconds that are kept a detection looks at the last half.
pub proof fn law_sizes_fit_together()
    ensures
        FFT_SIZE == 2048,
        2 * HOP_SIZE == FFT_SIZE,
        NUM_BINS == FFT_SIZE / 2 + 1,
        AUDIO_HISTORY_SECS == 10,
        2 * DETECT_SECS == AUDIO_HISTORY_SECS,
{
}

} // verus!
