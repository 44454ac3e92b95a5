//! Realtime voice runs: the one-shot terminal claim that settles races
//! between the provider, the device and cancellation, the reading of
//! realtime events into voice phases and stream frames, and the checks on
//! a voice route.

use vstd::prelude::*;

use crate::errors::RunExecutionError;
use crate::run::{RunHarnessKind, RunId};
use crate::text::{append_decimal, spec_decimal};

verus! {

/// A flag that exactly one claimant wins.
#[derive(Debug)]
pub struct TerminalOnce {
    claimed: bool,
}

impl TerminalOnce {
    /// Whether the terminal outcome has been claimed.
    pub closed spec fn is_claimed(&self) -> bool {
        self.claimed
    }

    /// An unclaimed flag.
    pub fn new() -> (t: Self)
        ensures
            !t.is_claimed(),
    {
        TerminalOnce { claimed: false }
    }

    /// Claim the terminal outcome: true for the first claim only.
    pub fn claim(&mut self) -> (won: bool)
        ensures
            won == !old(self).is_claimed(),
            final(self).is_claimed(),
    {
        let won = !self.claimed;
        self.claimed = true;
        won
    }
}

/// Of two claims in a row, at most one wins, and on a fresh flag the first does.
pub proof fn law_terminal_claimed_once(t0: TerminalOnce, t1: TerminalOnce, t2: TerminalOnce, first: bool, second: bool)
    requires
        first == !t0.is_claimed(),
        t1.is_claimed(),
        second == !t1.is_claimed(),
        t2.is_claimed(),
    ensures
        !(first && second),
        !t0.is_claimed() ==> first,
        !second,
{
}

/// Why a voice stream ended.
#[derive(Debug, Clone, Copy, PartialEq, Eq, Structural)]
pub enum VoiceStreamEndReason {
    Interrupted,
    CaptureOverflow,
    PlaybackOverflow,
    DeviceUnavailable,
    Replaced,
    Shutdown,
}

/// The failure detail recorded when a voice stream ends for `reason`.
pub open spec fn spec_end_reason_detail(reason: VoiceStreamEndReason) -> Seq<char> {
    match reason {
        VoiceStreamEndReason::Interrupted => "voice input was interrupted"@,
        VoiceStreamEndReason::CaptureOverflow => "voice capture backpressure limit was exceeded"@,
        VoiceStreamEndReason::PlaybackOverflow => "voice playback backpressure limit was exceeded"@,
        VoiceStreamEndReason::DeviceUnavailable => "voice device became unavailable"@,
        VoiceStreamEndReason::Replaced => "voice session was replaced"@,
        VoiceStreamEndReason::Shutdown => "voice bridge shut down"@,
    }
}

/// The failure detail recorded when a voice stream ends.
pub fn end_reason_detail(reason: VoiceStreamEndReason) -> (s: &'static str)
    ensures
        s@ == spec_end_reason_detail(reason),
{
    match reason {
        VoiceStreamEndReason::Interrupted => "voice input was interrupted",
        VoiceStreamEndReason::CaptureOverflow => "voice capture backpressure limit was exceeded",
        VoiceStreamEndReason::PlaybackOverflow => "voice playback backpressure limit was exceeded",
        VoiceStreamEndReason::DeviceUnavailable => "voice device became unavailable",
        VoiceStreamEndReason::Replaced => "voice session was replaced",
        VoiceStreamEndReason::Shutdown => "voice bridge shut down",
    }
}

/// What a realtime session reports.
#[derive(Debug)]
pub enum RealtimeEvent {
    Connected,
    Listening,
    Speaking,
    TranscriptDelta(String),
    ResponseCompleted,
    PlaybackInterrupted,
}

/// The phase a voice run shows.
#[derive(Debug, Clone, Copy, PartialEq, Eq, Structural)]
pub enum VoicePhase {
    Listening,
    Speaking,
}

/// A frame that a realtime event adds to the run's agent stream.
#[derive(Debug)]
pub enum VoiceFrame {
    AssistantTurnStarted,
    AssistantMessageDelta { delta: String },
    AssistantTurnCompleted,
}

/// The plain content of a voice frame.
pub enum VoiceFrameView {
    AssistantTurnStarted,
    AssistantMessageDelta { delta: Seq<char> },
    AssistantTurnCompleted,
}

impl VoiceFrame {
    /// The plain content of the frame.
    pub open spec fn view_frame(&self) -> VoiceFrameView {
        match self {
            VoiceFrame::AssistantTurnStarted => VoiceFrameView::AssistantTurnStarted,
            VoiceFrame::AssistantMessageDelta { delta } => VoiceFrameView::AssistantMessageDelta { delta: delta@ },
            VoiceFrame::AssistantTurnCompleted => VoiceFrameView::AssistantTurnCompleted,
        }
    }
}

/// The frames of a list of realtime events, in order: speaking starts an
/// assistant turn, a transcript delta adds to it, a completed response ends it.
pub open spec fn spec_voice_frames(events: Seq<RealtimeEvent>) -> Seq<VoiceFrameView>
    decreases events.len(),
{
    if events.len() == 0 {
        Seq::empty()
    } else {
        let prev = spec_voice_frames(events.drop_last());
        match events.last() {
            RealtimeEvent::Speaking => prev.push(VoiceFrameView::AssistantTurnStarted),
            RealtimeEvent::TranscriptDelta(d) => prev.push(VoiceFrameView::AssistantMessageDelta { delta: d@ }),
            RealtimeEvent::ResponseCompleted => prev.push(VoiceFrameView::AssistantTurnCompleted),
            _ => prev,
        }
    }
}

/// The phase after a list of realtime events: the last phase change wins
/// (connecting or listening shows listening, speaking shows speaking).
pub open spec fn spec_voice_phase(events: Seq<RealtimeEvent>) -> Option<VoicePhase>
    decreases events.len(),
{
    if events.len() == 0 {
        None
    } else {
        match events.last() {
            RealtimeEvent::Connected | RealtimeEvent::Listening => Some(VoicePhase::Listening),
            RealtimeEvent::Speaking => Some(VoicePhase::Speaking),
            _ => spec_voice_phase(events.drop_last()),
        }
    }
}

/// Whether any of the events interrupted playback.
pub open spec fn spec_playback_interrupted(events: Seq<RealtimeEvent>) -> bool {
    exists|i: int| 0 <= i < events.len() && #[trigger] events[i] is PlaybackInterrupted
}

/// What a batch of realtime events means for the run.
#[derive(Debug)]
pub struct VoiceEventsPlan {
    /// The phase to show, when a phase changed.
    pub phase: Option<VoicePhase>,
    pub playback_interrupted: bool,
    /// The frames to add to the run's agent stream, in order.
    pub frames: Vec<VoiceFrame>,
}

/// The plain contents of a list of frames.
pub open spec fn spec_frame_views(frames: Seq<VoiceFrame>) -> Seq<VoiceFrameView> {
    frames.map_values(|f: VoiceFrame| f.view_frame())
}

fn copy_text(s: &String) -> (t: String)
    ensures
        t@ == s@,
{
    s.clone()
}

/// Read a batch of realtime events (see [`spec_voice_phase`],
/// [`spec_playback_interrupted`] and [`spec_voice_frames`]).
pub fn plan_voice_events(events: &Vec<RealtimeEvent>) -> (p: VoiceEventsPlan)
    ensures
        p.phase == spec_voice_phase(events@),
        p.playback_interrupted == spec_playback_interrupted(events@),
        spec_frame_views(p.frames@) == spec_voice_frames(events@),
{
    let mut phase: Option<VoicePhase> = None;
    let mut interrupted = false;
    let mut frames: Vec<VoiceFrame> = Vec::new();
    let mut i: usize = 0;
    while i < events.len()
        invariant
            0 <= i <= events.len(),
            phase == spec_voice_phase(events@.take(i as int)),
            interrupted == spec_playback_interrupted(events@.take(i as int)),
            spec_frame_views(frames@) == spec_voice_frames(events@.take(i as int)),
        decreases events.len() - i,
    {
        let ghost prefix = events@.take((i + 1) as int);
        assert(prefix.drop_last() == events@.take(i as int));
        assert(prefix.last() == events@[i as int]);
        match &events[i] {
            RealtimeEvent::Connected | RealtimeEvent::Listening => {
                phase = Some(VoicePhase::Listening);
            },
            RealtimeEvent::Speaking => {
                phase = Some(VoicePhase::Speaking);
                frames.push(VoiceFrame::AssistantTurnStarted);
            },
            RealtimeEvent::TranscriptDelta(delta) => {
                frames.push(VoiceFrame::AssistantMessageDelta { delta: copy_text(delta) });
            },
            RealtimeEvent::ResponseCompleted => {
                frames.push(VoiceFrame::AssistantTurnCompleted);
            },
            RealtimeEvent::PlaybackInterrupted => {
                interrupted = true;
            },
        }
        proof {
            assert(spec_frame_views(frames@) =~= spec_voice_frames(prefix));
            if interrupted {
                if prefix.last() is PlaybackInterrupted {
                    assert(prefix[i as int] is PlaybackInterrupted);
                } else {
                    let k = choose|k: int| 0 <= k < i && #[trigger] events@.take(i as int)[k] is PlaybackInterrupted;
                    assert(prefix[k] is PlaybackInterrupted);
                }
            } else {
                assert forall|k: int| 0 <= k < prefix.len() implies !(#[trigger] prefix[k] is PlaybackInterrupted) by {
                    if k < i {
                        assert(events@.take(i as int)[k] == prefix[k]);
                    }
                }
            }
        }
        i = i + 1;
    }
    assert(events@.take(events.len() as int) == events@);
    VoiceEventsPlan { phase, playback_interrupted: interrupted, frames }
}

/// The turn and item key of a voice run's stream: `voice-` and the run id.
pub open spec fn spec_voice_stream_key(run_id: RunId) -> Seq<char> {
    "voice-"@ + spec_decimal(run_id as nat)
}

/// The turn and item key of a voice run's stream.
pub fn voice_stream_key(run_id: RunId) -> (k: String)
    ensures
        k@ == spec_voice_stream_key(run_id),
{
    let mut k = String::from_str("voice-");
    append_decimal(&mut k, run_id);
    k
}

/// The next fragment sequence of a voice stream, saturating at `u64::MAX`.
pub fn next_fragment_sequence(sequence: u64) -> (next: u64)
    ensures
        next == if sequence == u64::MAX {
            u64::MAX
        } else {
            (sequence + 1) as u64
        },
{
    sequence.saturating_add(1)
}

/// The model of a voice route: the run's runtime profile must execute
/// realtime voice and its route must use the realtime voice harness, with a
/// model.
pub fn check_realtime_route(
    profile_is_realtime_voice: bool,
    harness: RunHarnessKind,
    model_id: Option<String>,
) -> (r: Result<String, RunExecutionError>)
    ensures
        !profile_is_realtime_voice || harness != RunHarnessKind::RealtimeVoice ==> (r matches Err(
            RunExecutionError::ProviderExecutionFailed(m),
        ) && m@ == "stored run route is not realtime voice"@),
        profile_is_realtime_voice && harness == RunHarnessKind::RealtimeVoice && model_id is None ==> (r matches Err(
            RunExecutionError::ProviderExecutionFailed(m),
        ) && m@ == "realtime voice requires a model"@),
        profile_is_realtime_voice && harness == RunHarnessKind::RealtimeVoice && model_id is Some ==> (r matches Ok(
            m,
        ) && m@ == model_id->0@),
{
    if !profile_is_realtime_voice || harness != RunHarnessKind::RealtimeVoice {
        return Err(RunExecutionError::ProviderExecutionFailed(String::from_str("stored run route is not realtime voice")));
    }
    match model_id {
        Some(m) => Ok(m),
        None => Err(RunExecutionError::ProviderExecutionFailed(String::from_str("realtime voice requires a model"))),
    }
}

} // verus!
