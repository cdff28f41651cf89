//! A playback session: one loaded track, its summary and its clock.
//!
//! The session does not run the synthesizer. Whoever owns the synthesizer
//! lets it fill a buffer with raw samples and hands the buffer to
//! [`SpcPlayer::render`], which turns it into what the device is to play.
use vstd::prelude::*;
use crate::clock::{
    window_of,
    ClockModel,
    EndState,
    Phase,
    PlaybackClock,
    RenderOutcome,
    SAMPLE_RATE,
};
use crate::ring_buffer::silence;
use crate::snapshot::{Id666Tag, TrackSnapshot};
use crate::track_info::{get_spc_info, info_text};

verus! {

/// The fade window that a tag asks for: fade start and end, in frames.
pub open spec fn tag_window(tag: Option<Id666Tag>) -> Option<(int, int)> {
    match tag {
        Some(tag) => Some(
            (
                tag.seconds_to_play_before_fading_out * SAMPLE_RATE,
                tag.seconds_to_play_before_fading_out * SAMPLE_RATE + (tag.fade_out_length
                    * SAMPLE_RATE) / 1000,
            ),
        ),
        None => None,
    }
}

/// One loaded track with its clock.
pub struct SpcPlayer {
    path: String,
    spc: TrackSnapshot,
    clock: PlaybackClock,
}

impl View for SpcPlayer {
    type V = ClockModel;

    /// The state of the session's clock.
    closed spec fn view(&self) -> ClockModel {
        self.clock@
    }
}

impl SpcPlayer {
    /// Where the track was loaded from.
    pub closed spec fn spec_path(&self) -> Seq<char> {
        self.path@
    }

    /// The loaded track.
    pub closed spec fn spec_snapshot(&self) -> TrackSnapshot {
        self.spc
    }

    /// The clock is valid and has the fade window that the track's tag
    /// asks for.
    pub closed spec fn wf(&self) -> bool {
        &&& self.clock.wf()
        &&& self.clock@.window == tag_window(self.spc.id666_tag)
    }

    /// A session for the track `spc` that was loaded from `path`: running,
    /// at position zero, with the fade window of the track's tag if it has
    /// one.
    pub fn new(path: &str, spc: TrackSnapshot) -> (player: SpcPlayer)
        ensures
            player.wf(),
            player.spec_path() == path@,
            player.spec_snapshot() == spc,
            player@ == ClockModel::fresh(tag_window(spc.id666_tag), 0),
    {
        let end_state = match &spc.id666_tag {
            Some(tag) => Some(
                EndState::from_tag(tag.seconds_to_play_before_fading_out, tag.fade_out_length),
            ),
            None => None,
        };
        SpcPlayer { path: path.to_owned(), spc, clock: PlaybackClock::new(end_state) }
    }

    /// The summary of the loaded track.
    pub fn get_spc_info(&self) -> (info: String)
        ensures
            info@ == info_text(self.spec_path(), self.spec_snapshot()),
    {
        get_spc_info(self.path.as_str(), &self.spc)
    }

    /// Takes the raw samples that the synthesizer left in `out`, interleaved
    /// left before right, and turns them into what the device is to play.
    /// See [`PlaybackClock::render`].
    pub fn render(&mut self, out: &mut [i16]) -> (outcome: RenderOutcome)
        requires
            old(self).wf(),
        ensures
            final(self).wf(),
            final(self).spec_path() == old(self).spec_path(),
            final(self).spec_snapshot() == old(self).spec_snapshot(),
            final(out)@ == old(self)@.rendered(old(out)@),
            final(self)@ == old(self)@.after_render(old(out)@.len() / 2),
            outcome.frames_written == old(out)@.len() / 2,
            outcome.finished == old(self)@.fires(old(out)@.len() / 2),
    {
        self.clock.render(out)
    }

    /// Whether the next render call reads what the synthesizer left in the
    /// buffer. See [`PlaybackClock::needs_raw_samples`].
    pub fn needs_raw_samples(&self) -> (needed: bool)
        ensures
            needed == (!self@.paused && self@.phase() != Phase::Ended),
            !needed ==> forall|raw: Seq<i16>| #[trigger] self@.rendered(raw) == silence(raw.len()),
    {
        self.clock.needs_raw_samples()
    }

    /// Pauses or resumes. Position and fade timing stay as they are.
    pub fn set_paused(&mut self, paused: bool)
        requires
            old(self).wf(),
        ensures
            final(self).wf(),
            final(self).spec_path() == old(self).spec_path(),
            final(self).spec_snapshot() == old(self).spec_snapshot(),
            final(self)@ == old(self)@.with_paused(paused),
    {
        self.clock.set_paused(paused);
    }

    /// Whether playback is paused.
    pub fn is_paused(&self) -> (paused: bool)
        ensures
            paused == self@.paused,
    {
        self.clock.is_paused()
    }

    /// Whether the end of the track has been reported.
    pub fn is_finished(&self) -> (finished: bool)
        ensures
            finished == self@.reported,
    {
        self.clock.is_finished()
    }

    /// Number of frames rendered so far.
    pub fn sample_pos(&self) -> (pos: u64)
        ensures
            pos == self@.pos,
    {
        self.clock.sample_pos()
    }

    /// The phase the session is in.
    pub fn phase(&self) -> (phase: Phase)
        ensures
            phase == self@.phase(),
    {
        self.clock.phase()
    }

    /// The fade timing, where the track has any.
    pub fn end_state(&self) -> (end_state: Option<EndState>)
        requires
            self.wf(),
        ensures
            end_state matches Some(e) ==> e.wf(),
            window_of(end_state) == self@.window,
    {
        self.clock.end_state()
    }
}

} // verus!
