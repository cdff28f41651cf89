//! The end-of-track clock.
//!
//! A track plays at full level up to its fade start, ramps down linearly to
//! silence over the fade window, and is silent from its end on. All timing is
//! counted in rendered frames, so a pause shifts nothing.
use vstd::prelude::*;
use vstd::math::abs;
use crate::ring_buffer::{fill_silence, silence};

verus! {

/// Native output rate of the synthesis engine, in frames per second.
pub const SAMPLE_RATE: u32 = 32000;

/// Largest denominator of an attenuation factor that [`scale`] takes: the
/// product of a sample and the numerator has to fit in 64 bits.
pub const MAX_GAIN_DENOMINATOR: u64 = 0x1_0000_0000_0000;

/// Where playback stands relative to the fade window.
#[derive(Clone, Copy, Debug, PartialEq, Eq, Structural)]
pub enum Phase {
    /// Before the fade starts: samples pass through unchanged.
    Normal,
    /// Inside the fade window: samples are scaled down linearly.
    FadingOut,
    /// At or past the end: output is silence.
    Ended,
}

/// The phase of a track with the given fade window, if it has one, at frame
/// position `pos`. A track without a window never leaves `Normal`. Where a
/// window ends before it starts, the end wins.
pub open spec fn phase_at(window: Option<(int, int)>, pos: int) -> Phase {
    match window {
        None => Phase::Normal,
        Some((fade_start, end)) => if pos >= end {
            Phase::Ended
        } else if pos < fade_start {
            Phase::Normal
        } else {
            Phase::FadingOut
        },
    }
}

/// The attenuation factor at frame position `pos`, as numerator and
/// denominator: 1/1 before the fade, `(end - pos) / (end - fade_start)`
/// inside it, 0/1 from the end on.
pub open spec fn gain_at(window: Option<(int, int)>, pos: int) -> (int, int) {
    match window {
        None => (1, 1),
        Some((fade_start, end)) => match phase_at(window, pos) {
            Phase::Normal => (1, 1),
            Phase::FadingOut => (end - pos, end - fade_start),
            Phase::Ended => (0, 1),
        },
    }
}

/// `sample * num / den`, rounded toward zero.
pub open spec fn scaled(sample: int, num: int, den: int) -> int {
    if sample >= 0 {
        (sample * num) / den
    } else {
        -(((-sample) * num) / den)
    }
}

/// The sample that leaves the clock for `sample` at frame position `pos`.
pub open spec fn attenuated(window: Option<(int, int)>, pos: int, sample: i16) -> i16 {
    scaled(sample as int, gain_at(window, pos).0, gain_at(window, pos).1) as i16
}

/// A frame position after `frames` more frames; the count stops at the
/// largest value a `u64` holds.
pub open spec fn advanced(pos: u64, frames: nat) -> u64 {
    if pos + frames > u64::MAX {
        u64::MAX
    } else {
        (pos + frames) as u64
    }
}

/// Fade timing of one track, derived once from its metadata and never
/// changed afterwards.
#[derive(Clone, Copy, Debug, PartialEq, Eq, Structural)]
pub struct EndState {
    fade_start_sample: i64,
    end_sample: i64,
}

impl EndState {
    /// Frame position at which the fade starts.
    pub closed spec fn spec_fade_start_sample(&self) -> int {
        self.fade_start_sample as int
    }

    /// Frame position from which output is silent.
    pub closed spec fn spec_end_sample(&self) -> int {
        self.end_sample as int
    }

    /// The fade window as a pair: fade start, end.
    pub open spec fn window(&self) -> (int, int) {
        (self.spec_fade_start_sample(), self.spec_end_sample())
    }

    /// Both positions are ones that [`EndState::from_tag`] can produce.
    pub closed spec fn wf(&self) -> bool {
        &&& -0x4000_0000_0000 <= self.fade_start_sample <= 0x4000_0000_0000
        &&& -0x20_0000_0000 <= self.end_sample - self.fade_start_sample <= 0x20_0000_0000
    }

    /// The timing of a track whose metadata asks for `seconds` of play
    /// before a fade of `fade_ms` milliseconds.
    pub fn from_tag(seconds: i32, fade_ms: i32) -> (end_state: EndState)
        ensures
            end_state.wf(),
            end_state.spec_fade_start_sample() == seconds * SAMPLE_RATE,
            end_state.spec_end_sample() == seconds * SAMPLE_RATE + (fade_ms * SAMPLE_RATE) / 1000,
    {
        let rate: i64 = SAMPLE_RATE as i64;
        let fade_start_sample: i64 = seconds as i64 * rate;
        let fade_frames: i64 = fade_ms as i64 * (rate / 1000);
        assert((fade_ms * SAMPLE_RATE) / 1000 == fade_ms * 32);
        EndState { fade_start_sample, end_sample: fade_start_sample + fade_frames }
    }

    /// Frame position at which the fade starts.
    pub fn fade_start_sample(&self) -> (pos: i64)
        ensures
            pos == self.spec_fade_start_sample(),
    {
        self.fade_start_sample
    }

    /// Frame position from which output is silent.
    pub fn end_sample(&self) -> (pos: i64)
        ensures
            pos == self.spec_end_sample(),
    {
        self.end_sample
    }

    /// The phase at frame position `pos`.
    pub fn phase_at(&self, pos: u64) -> (phase: Phase)
        ensures
            phase == phase_at(Some(self.window()), pos as int),
    {
        if self.end_sample <= 0 || pos >= self.end_sample as u64 {
            Phase::Ended
        } else if (pos as i64) < self.fade_start_sample {
            Phase::Normal
        } else {
            Phase::FadingOut
        }
    }

    /// The attenuation factor at frame position `pos`, as numerator and
    /// denominator.
    pub fn gain_at(&self, pos: u64) -> (gain: (u64, u64))
        requires
            self.wf(),
        ensures
            (gain.0 as int, gain.1 as int) == gain_at(Some(self.window()), pos as int),
            gain.0 <= gain.1 <= MAX_GAIN_DENOMINATOR,
            0 < gain.1,
    {
        match self.phase_at(pos) {
            Phase::Normal => (1, 1),
            Phase::FadingOut => (
                (self.end_sample - pos as i64) as u64,
                (self.end_sample - self.fade_start_sample) as u64,
            ),
            Phase::Ended => (0, 1),
        }
    }

    /// The sample that leaves the clock for `sample` at frame position
    /// `pos`.
    pub fn attenuate(&self, pos: u64, sample: i16) -> (out: i16)
        requires
            self.wf(),
        ensures
            out == attenuated(Some(self.window()), pos as int, sample),
    {
        let (num, den) = self.gain_at(pos);
        scale(sample, num, den)
    }
}

/// `sample * num / den`, rounded toward zero, for a factor of at most one.
pub fn scale(sample: i16, num: u64, den: u64) -> (out: i16)
    requires
        0 < den,
        num <= den <= MAX_GAIN_DENOMINATOR,
    ensures
        out == scaled(sample as int, num as int, den as int),
{
    if sample >= 0 {
        let magnitude: u64 = sample as u64;
        proof {
            lemma_scaled_magnitude(magnitude as int, num as int, den as int);
            assert(magnitude * den <= 0x8000 * 0x1_0000_0000_0000) by (nonlinear_arith)
                requires
                    magnitude <= 0x8000,
                    den <= 0x1_0000_0000_0000,
            ;
        }
        let quotient: u64 = magnitude * num / den;
        quotient as i16
    } else {
        let magnitude: u64 = (-(sample as i64)) as u64;
        proof {
            lemma_scaled_magnitude(magnitude as int, num as int, den as int);
            assert(magnitude * den <= 0x8000 * 0x1_0000_0000_0000) by (nonlinear_arith)
                requires
                    magnitude <= 0x8000,
                    den <= 0x1_0000_0000_0000,
            ;
        }
        let quotient: u64 = magnitude * num / den;
        (-(quotient as i64)) as i16
    }
}

/// Scaling a magnitude by a factor between zero and one gives a magnitude
/// that is no larger.
pub proof fn lemma_scaled_magnitude(magnitude: int, num: int, den: int)
    by (nonlinear_arith)
    requires
        0 <= magnitude,
        0 <= num <= den,
        0 < den,
    ensures
        0 <= magnitude * num <= magnitude * den,
        0 <= (magnitude * num) / den <= magnitude,
{
}

/// What a playback clock holds, as plain values.
pub struct ClockModel {
    /// Fade start and end of the track, where its metadata gives them.
    pub window: Option<(int, int)>,
    /// Number of frames rendered so far.
    pub pos: u64,
    /// Whether playback is paused.
    pub paused: bool,
    /// Whether the end of the track has been reported.
    pub reported: bool,
}

/// The fade window of a track with the given timing, if it has any.
pub open spec fn window_of(end_state: Option<EndState>) -> Option<(int, int)> {
    match end_state {
        Some(end_state) => Some(end_state.window()),
        None => None,
    }
}

impl ClockModel {
    /// A running clock at position `pos` that has reported nothing yet.
    pub open spec fn fresh(window: Option<(int, int)>, pos: u64) -> ClockModel {
        ClockModel { window, pos, paused: false, reported: false }
    }

    /// The phase the clock is in.
    pub open spec fn phase(self) -> Phase {
        phase_at(self.window, self.pos as int)
    }

    /// The same clock, paused or running.
    pub open spec fn with_paused(self, paused: bool) -> ClockModel {
        ClockModel { paused, ..self }
    }

    /// What one render call makes of the raw samples `raw`, interleaved left
    /// before right: silence while paused, else each sample attenuated for
    /// the position of its frame.
    pub open spec fn rendered(self, raw: Seq<i16>) -> Seq<i16> {
        if self.paused {
            silence(raw.len())
        } else {
            Seq::new(
                raw.len(),
                |i: int| attenuated(self.window, advanced(self.pos, (i / 2) as nat) as int, raw[i]),
            )
        }
    }

    /// Whether a render call of `frames` frames reports the end of the
    /// track: it is the first call to leave a running clock in `Ended`.
    pub open spec fn fires(self, frames: nat) -> bool {
        !self.paused && !self.reported && phase_at(
            self.window,
            advanced(self.pos, frames) as int,
        ) == Phase::Ended
    }

    /// The clock after one render call of `frames` frames. A paused clock
    /// stands still.
    pub open spec fn after_render(self, frames: nat) -> ClockModel {
        if self.paused {
            self
        } else {
            ClockModel {
                pos: advanced(self.pos, frames),
                reported: self.reported || self.fires(frames),
                ..self
            }
        }
    }

    /// The clock after one render call for each entry of `calls`, which
    /// gives the frames of that call.
    pub open spec fn after_renders(self, calls: Seq<nat>) -> ClockModel
        decreases calls.len(),
    {
        if calls.len() == 0 {
            self
        } else {
            self.after_renders(calls.drop_last()).after_render(calls.last())
        }
    }

    /// Whether call `k` of `calls` reports the end of the track.
    pub open spec fn fires_at(self, calls: Seq<nat>, k: int) -> bool {
        self.after_renders(calls.take(k)).fires(calls[k])
    }

    /// How many of `calls` report the end of the track.
    pub open spec fn fire_count(self, calls: Seq<nat>) -> nat
        decreases calls.len(),
    {
        if calls.len() == 0 {
            0
        } else {
            self.fire_count(calls.drop_last()) + if self.after_renders(calls.drop_last()).fires(
                calls.last(),
            ) {
                1nat
            } else {
                0nat
            }
        }
    }
}

/// What one render call did.
#[derive(Clone, Copy, Debug, PartialEq, Eq, Structural)]
pub struct RenderOutcome {
    /// Number of whole frames in the buffer that was filled.
    pub frames_written: usize,
    /// Whether this call is the one that reports the end of the track.
    pub finished: bool,
}

/// Counts rendered frames and derives phase and attenuation from them.
pub struct PlaybackClock {
    end_state: Option<EndState>,
    sample_pos: u64,
    paused: bool,
    finished_reported: bool,
}

impl View for PlaybackClock {
    type V = ClockModel;

    closed spec fn view(&self) -> ClockModel {
        ClockModel {
            window: window_of(self.end_state),
            pos: self.sample_pos,
            paused: self.paused,
            reported: self.finished_reported,
        }
    }
}

impl PlaybackClock {
    /// The fade timing is one that [`EndState::from_tag`] can produce.
    pub closed spec fn wf(&self) -> bool {
        self.end_state matches Some(end_state) ==> end_state.wf()
    }

    /// A running clock at position zero.
    pub fn new(end_state: Option<EndState>) -> (clock: PlaybackClock)
        requires
            end_state matches Some(e) ==> e.wf(),
        ensures
            clock.wf(),
            clock@ == ClockModel::fresh(window_of(end_state), 0),
    {
        PlaybackClock::with_position(end_state, 0)
    }

    /// A running clock for a track of which `sample_pos` frames have been
    /// rendered already. Nothing has been reported yet.
    pub fn with_position(end_state: Option<EndState>, sample_pos: u64) -> (clock: PlaybackClock)
        requires
            end_state matches Some(e) ==> e.wf(),
        ensures
            clock.wf(),
            clock@ == ClockModel::fresh(window_of(end_state), sample_pos),
    {
        PlaybackClock { end_state, sample_pos, paused: false, finished_reported: false }
    }

    /// The fade timing, where the track has any.
    pub fn end_state(&self) -> (end_state: Option<EndState>)
        requires
            self.wf(),
        ensures
            end_state matches Some(e) ==> e.wf(),
            window_of(end_state) == self@.window,
    {
        self.end_state
    }

    /// Number of frames rendered so far.
    pub fn sample_pos(&self) -> (pos: u64)
        ensures
            pos == self@.pos,
    {
        self.sample_pos
    }

    /// Whether playback is paused.
    pub fn is_paused(&self) -> (paused: bool)
        ensures
            paused == self@.paused,
    {
        self.paused
    }

    /// Whether the end of the track has been reported.
    pub fn is_finished(&self) -> (finished: bool)
        ensures
            finished == self@.reported,
    {
        self.finished_reported
    }

    /// Pauses or resumes. Position and fade timing stay as they are.
    pub fn set_paused(&mut self, paused: bool)
        requires
            old(self).wf(),
        ensures
            final(self).wf(),
            final(self)@ == old(self)@.with_paused(paused),
    {
        self.paused = paused;
    }

    /// The phase the clock is in.
    pub fn phase(&self) -> (phase: Phase)
        ensures
            phase == self@.phase(),
    {
        match self.end_state {
            Some(end_state) => end_state.phase_at(self.sample_pos),
            None => Phase::Normal,
        }
    }

    /// The attenuation factor at the current position, as numerator and
    /// denominator.
    pub fn gain(&self) -> (gain: (u64, u64))
        requires
            self.wf(),
        ensures
            (gain.0 as int, gain.1 as int) == gain_at(self@.window, self@.pos as int),
            gain.0 <= gain.1,
            0 < gain.1,
    {
        match self.end_state {
            Some(end_state) => end_state.gain_at(self.sample_pos),
            None => (1, 1),
        }
    }

    /// Whether the next render call reads what the synthesizer left in the
    /// buffer. It does not while the clock is paused or past the end of the
    /// track: the call then gives silence whatever the buffer holds, and the
    /// synthesizer need not run.
    pub fn needs_raw_samples(&self) -> (needed: bool)
        ensures
            needed == (!self@.paused && self@.phase() != Phase::Ended),
            !needed ==> forall|raw: Seq<i16>| #[trigger] self@.rendered(raw) == silence(raw.len()),
    {
        let needed = !self.paused && self.phase() != Phase::Ended;
        proof {
            if !needed {
                assert forall|raw: Seq<i16>| #[trigger] self@.rendered(raw) == silence(
                    raw.len(),
                ) by {
                    if !self@.paused {
                        self@.lemma_silent_after_end(raw);
                    }
                }
            }
        }
        needed
    }

    /// Takes the raw samples that the synthesizer left in `out`, interleaved
    /// left before right, and turns them into what the device is to play:
    /// each sample attenuated for the position of its frame, or silence while
    /// paused. A running clock advances by the frames of `out`; a paused
    /// one stands still.
    pub fn render(&mut self, out: &mut [i16]) -> (outcome: RenderOutcome)
        requires
            old(self).wf(),
        ensures
            final(self).wf(),
            final(out)@ == old(self)@.rendered(old(out)@),
            final(self)@ == old(self)@.after_render(old(out)@.len() / 2),
            outcome.frames_written == old(out)@.len() / 2,
            outcome.finished == old(self)@.fires(old(out)@.len() / 2),
    {
        let len = out.len();
        let frames = len / 2;
        if self.paused {
            fill_silence(out);
            return RenderOutcome { frames_written: frames, finished: false };
        }
        match self.end_state {
            Some(end_state) => {
                let mut i: usize = 0;
                while i < len
                    invariant
                        end_state.wf(),
                        self@ == old(self)@,
                        self@.window == Some(end_state.window()),
                        !self@.paused,
                        out@.len() == len,
                        old(out)@.len() == len,
                        i <= len,
                        forall|j: int| 0 <= j < i ==> out@[j] == old(self)@.rendered(old(out)@)[j],
                        forall|j: int| i <= j < len ==> out@[j] == old(out)@[j],
                    decreases len - i,
                {
                    let pos = saturating_pos(self.sample_pos, i / 2);
                    out[i] = end_state.attenuate(pos, out[i]);
                    i += 1;
                }
            },
            None => {
                assert forall|j: int| 0 <= j < len implies out@[j] == old(self)@.rendered(
                    old(out)@,
                )[j] by {
                    lemma_unattenuated(advanced(self@.pos, (j / 2) as nat) as int, out@[j]);
                }
            },
        }
        assert(out@ =~= old(self)@.rendered(old(out)@));
        self.sample_pos = saturating_pos(self.sample_pos, frames);
        let finished = !self.finished_reported && self.phase() == Phase::Ended;
        if finished {
            self.finished_reported = true;
        }
        RenderOutcome { frames_written: frames, finished }
    }
}

/// The frame position `frames` after `pos`, stopping at the largest `u64`.
fn saturating_pos(pos: u64, frames: usize) -> (next: u64)
    ensures
        next == advanced(pos, frames as nat),
{
    let step: u64 = frames as u64;
    if step > u64::MAX - pos {
        u64::MAX
    } else {
        pos + step
    }
}

/// A track without fade timing passes every sample through unchanged,
/// whatever the position.
pub proof fn lemma_unattenuated(pos: int, sample: i16)
    ensures
        attenuated(None, pos, sample) == sample,
{
    assert(scaled(sample as int, 1, 1) == sample as int);
}

/// The factor lies between zero and one at every position and for every
/// window, so an attenuated sample is never louder than the raw one and
/// keeps its sign.
pub proof fn lemma_attenuation_bounds(window: Option<(int, int)>, pos: int, sample: i16)
    ensures
        0 <= gain_at(window, pos).0 <= gain_at(window, pos).1,
        0 < gain_at(window, pos).1,
        attenuated(window, pos, sample) as int == scaled(
            sample as int,
            gain_at(window, pos).0,
            gain_at(window, pos).1,
        ),
        sample >= 0 ==> 0 <= attenuated(window, pos, sample) <= sample,
        sample <= 0 ==> sample <= attenuated(window, pos, sample) <= 0,
{
    let (num, den) = gain_at(window, pos);
    lemma_scaled_magnitude(abs(sample as int) as int, num, den);
}

/// The ends of the ramp: a sample at the fade start, and any sample before
/// it, passes unchanged; a sample at the end, and any sample after it, is
/// zero; halfway through the window the factor is one half.
pub proof fn lemma_ramp_endpoints(fade_start: int, end: int, pos: int, sample: i16)
    ensures
        pos <= fade_start && pos < end ==> attenuated(Some((fade_start, end)), pos, sample)
            == sample,
        pos >= end ==> attenuated(Some((fade_start, end)), pos, sample) == 0,
        fade_start <= pos < end && 2 * (end - pos) == end - fade_start ==> 2 * gain_at(
            Some((fade_start, end)),
            pos,
        ).0 == gain_at(Some((fade_start, end)), pos).1,
{
    let window = Some((fade_start, end));
    if pos >= end {
        assert(scaled(sample as int, 0, 1) == 0) by (nonlinear_arith);
    } else if pos < fade_start {
        assert(scaled(sample as int, 1, 1) == sample as int);
    } else if pos == fade_start {
        let den = end - fade_start;
        assert(scaled(sample as int, den, den) == sample as int) by (nonlinear_arith)
            requires
                den > 0,
        ;
    }
}

/// The ramp never rises: of two positions, the later one has the smaller
/// or equal factor, and its sample is no louder.
pub proof fn lemma_fade_is_monotonic(window: Option<(int, int)>, earlier: int, later: int, sample: i16)
    requires
        earlier <= later,
    ensures
        gain_at(window, later).0 * gain_at(window, earlier).1 <= gain_at(window, earlier).0
            * gain_at(window, later).1,
        abs(attenuated(window, later, sample) as int) <= abs(
            attenuated(window, earlier, sample) as int,
        ),
{
    let (n1, d1) = gain_at(window, earlier);
    let (n2, d2) = gain_at(window, later);
    let magnitude: int = abs(sample as int) as int;
    lemma_attenuation_bounds(window, earlier, sample);
    lemma_attenuation_bounds(window, later, sample);
    lemma_scaled_magnitude(magnitude, n1, d1);
    lemma_scaled_magnitude(magnitude, n2, d2);
    if phase_at(window, earlier) == Phase::FadingOut && phase_at(window, later)
        == Phase::FadingOut {
        assert(n2 * d1 <= n1 * d2 && (magnitude * n2) / d2 <= (magnitude * n1) / d1)
            by (nonlinear_arith)
            requires
                0 <= n2 <= n1,
                d1 == d2,
                0 < d1,
                0 <= magnitude,
        ;
    } else if phase_at(window, earlier) == Phase::Normal {
        assert((magnitude * 1) / 1 == magnitude);
        assert(n2 * 1 <= 1 * d2);
    } else {
        assert((magnitude * 0) / 1 == 0);
    }
}

impl ClockModel {
    /// Once a running clock is past the end of its track, every render call
    /// gives silence and leaves it past the end.
    pub proof fn lemma_silent_after_end(self, raw: Seq<i16>)
        requires
            self.phase() == Phase::Ended,
        ensures
            self.rendered(raw) == silence(raw.len()),
            self.after_render(raw.len() / 2).phase() == Phase::Ended,
    {
        let (fade_start, end) = self.window->0;
        assert(self.after_render(raw.len() / 2).pos >= self.pos);
        if !self.paused {
            assert forall|i: int| 0 <= i < raw.len() implies self.rendered(raw)[i] == 0i16 by {
                let pos = advanced(self.pos, (i / 2) as nat) as int;
                assert(pos >= end);
                lemma_ramp_endpoints(fade_start, end, pos, raw[i]);
            }
        }
        assert(self.rendered(raw) =~= silence(raw.len()));
    }

    /// Render calls leave window and pause flag alone and never move the
    /// position back.
    pub proof fn lemma_renders_advance(self, calls: Seq<nat>)
        ensures
            self.after_renders(calls).window == self.window,
            self.after_renders(calls).paused == self.paused,
            self.after_renders(calls).pos >= self.pos,
        decreases calls.len(),
    {
        if calls.len() > 0 {
            self.lemma_renders_advance(calls.drop_last());
        }
    }

    /// The end of the track is reported exactly once. Over any run of render
    /// calls on a running clock, at most one call reports it, and one does
    /// exactly if the run leaves the clock past the end and no earlier call
    /// had reported it.
    pub proof fn lemma_finished_reported_once(self, calls: Seq<nat>)
        requires
            !self.paused,
            self.reported ==> self.phase() == Phase::Ended,
        ensures
            self.fire_count(calls) <= 1,
            self.fire_count(calls) == 1 <==> !self.reported && calls.len() > 0
                && self.after_renders(calls).phase() == Phase::Ended,
            calls.len() > 0 ==> self.after_renders(calls).reported == (self.reported
                || self.after_renders(calls).phase() == Phase::Ended),
            calls.len() == 0 ==> self.after_renders(calls) == self,
        decreases calls.len(),
    {
        if calls.len() > 0 {
            let before = self.after_renders(calls.drop_last());
            self.lemma_finished_reported_once(calls.drop_last());
            self.lemma_renders_advance(calls.drop_last());
            assert(before.after_render(calls.last()).pos >= before.pos);
        }
    }

    /// The call that reports the end of the track is the first one that
    /// leaves the clock past the end: call `k` reports exactly if the clock
    /// is past the end after it and was not after the calls before it.
    pub proof fn lemma_finished_on_crossing(self, calls: Seq<nat>, k: int)
        requires
            !self.paused,
            !self.reported,
            0 <= k < calls.len(),
        ensures
            self.fires_at(calls, k) <==> self.after_renders(calls.take(k + 1)).phase()
                == Phase::Ended && (k == 0 || self.after_renders(calls.take(k)).phase()
                != Phase::Ended),
    {
        let before = self.after_renders(calls.take(k));
        self.lemma_finished_reported_once(calls.take(k));
        self.lemma_renders_advance(calls.take(k));
        assert(calls.take(k + 1).drop_last() =~= calls.take(k));
        assert(calls.take(k + 1).last() == calls[k]);
        assert(before.after_render(calls[k]).pos >= before.pos);
    }

    /// A track without fade timing stays in `Normal` however far it has
    /// played: every render call passes the raw samples through, and none
    /// reports an end.
    pub proof fn lemma_no_window_stays_normal(self, calls: Seq<nat>, raw: Seq<i16>)
        requires
            self.window is None,
            !self.paused,
        ensures
            self.phase() == Phase::Normal,
            self.after_renders(calls).phase() == Phase::Normal,
            self.after_renders(calls).rendered(raw) == raw,
            self.fire_count(calls) == 0,
        decreases calls.len(),
    {
        self.lemma_renders_advance(calls);
        let now = self.after_renders(calls);
        assert forall|i: int| 0 <= i < raw.len() implies now.rendered(raw)[i] == raw[i] by {
            lemma_unattenuated(advanced(now.pos, (i / 2) as nat) as int, raw[i]);
        }
        assert(now.rendered(raw) =~= raw);
        if calls.len() > 0 {
            self.lemma_no_window_stays_normal(calls.drop_last(), raw);
            self.lemma_renders_advance(calls.drop_last());
        }
    }

    /// A pause shifts nothing. While paused, render calls give silence,
    /// report nothing and leave the position where it was, so a clock that
    /// is paused, rendered any number of times and resumed is the clock it
    /// was before the pause.
    pub proof fn lemma_pause_freezes(self, calls: Seq<nat>, raw: Seq<i16>)
        requires
            !self.paused,
        ensures
            self.with_paused(true).after_renders(calls) == self.with_paused(true),
            self.with_paused(true).after_renders(calls).pos == self.pos,
            self.with_paused(true).after_renders(calls).rendered(raw) == silence(raw.len()),
            self.with_paused(true).fire_count(calls) == 0,
            self.with_paused(true).after_renders(calls).with_paused(false) == self,
            self.with_paused(true).after_renders(calls).with_paused(false).rendered(raw)
                == self.rendered(raw),
        decreases calls.len(),
    {
        if calls.len() > 0 {
            self.lemma_pause_freezes(calls.drop_last(), raw);
        }
    }

    /// Frames leave in the order of their positions, none twice and none
    /// left out: rendering a buffer of whole frames and then a second one
    /// gives what rendering both as one buffer gives, and leaves the clock
    /// at the same position.
    pub proof fn lemma_render_splits(self, first: Seq<i16>, second: Seq<i16>)
        requires
            first.len() % 2 == 0,
        ensures
            self.rendered(first + second) == self.rendered(first) + self.after_render(
                first.len() / 2,
            ).rendered(second),
            self.after_render((first + second).len() / 2).pos == self.after_render(
                first.len() / 2,
            ).after_render(second.len() / 2).pos,
    {
        let both = first + second;
        let next = self.after_render(first.len() / 2);
        assert forall|i: int| 0 <= i < both.len() implies self.rendered(both)[i] == (
        self.rendered(first) + next.rendered(second))[i] by {
            if !self.paused && i >= first.len() {
                let j = i - first.len();
                assert(i / 2 == first.len() / 2 + j / 2);
                assert(advanced(self.pos, (i / 2) as nat) == advanced(next.pos, (j / 2) as nat));
            }
        }
        assert(self.rendered(both) =~= self.rendered(first) + next.rendered(second));
    }
}

} // verus!
