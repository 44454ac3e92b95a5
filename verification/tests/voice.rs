use ta_orchestrator::voice::{
    check_realtime_route, end_reason_detail, next_fragment_sequence, plan_voice_events, voice_stream_key,
    RealtimeEvent, TerminalOnce, VoiceFrame, VoicePhase, VoiceStreamEndReason,
};
use ta_orchestrator::run::RunHarnessKind;
use ta_orchestrator::errors::RunExecutionError;

#[test]
fn provider_device_and_cancel_races_have_one_terminal_owner() {
    let mut terminal = TerminalOnce::new();
    let claims = (0..8).map(|_| terminal.claim()).filter(|claimed| *claimed).count();
    assert_eq!(claims, 1);
}

#[test]
fn end_reasons_have_their_details() {
    assert_eq!(end_reason_detail(VoiceStreamEndReason::Interrupted), "voice input was interrupted");
    assert_eq!(
        end_reason_detail(VoiceStreamEndReason::CaptureOverflow),
        "voice capture backpressure limit was exceeded"
    );
    assert_eq!(
        end_reason_detail(VoiceStreamEndReason::PlaybackOverflow),
        "voice playback backpressure limit was exceeded"
    );
    assert_eq!(end_reason_detail(VoiceStreamEndReason::DeviceUnavailable), "voice device became unavailable");
    assert_eq!(end_reason_detail(VoiceStreamEndReason::Replaced), "voice session was replaced");
    assert_eq!(end_reason_detail(VoiceStreamEndReason::Shutdown), "voice bridge shut down");
}

#[test]
fn realtime_events_become_phases_and_frames() {
    let events = vec![
        RealtimeEvent::Connected,
        RealtimeEvent::Speaking,
        RealtimeEvent::TranscriptDelta("hi".to_string()),
        RealtimeEvent::ResponseCompleted,
        RealtimeEvent::PlaybackInterrupted,
    ];
    let plan = plan_voice_events(&events);
    assert_eq!(plan.phase, Some(VoicePhase::Speaking));
    assert!(plan.playback_interrupted);
    assert_eq!(plan.frames.len(), 3);
    assert!(matches!(plan.frames[0], VoiceFrame::AssistantTurnStarted));
    assert!(matches!(&plan.frames[1], VoiceFrame::AssistantMessageDelta { delta } if delta == "hi"));
    assert!(matches!(plan.frames[2], VoiceFrame::AssistantTurnCompleted));

    let quiet = plan_voice_events(&vec![RealtimeEvent::Speaking, RealtimeEvent::Listening]);
    assert_eq!(quiet.phase, Some(VoicePhase::Listening));
    assert!(!quiet.playback_interrupted);
    let none = plan_voice_events(&Vec::new());
    assert_eq!(none.phase, None);
    assert!(none.frames.is_empty());
}

#[test]
fn voice_stream_keys_and_sequences() {
    assert_eq!(voice_stream_key(1234), "voice-1234");
    assert_eq!(voice_stream_key(0), "voice-0");
    assert_eq!(next_fragment_sequence(4), 5);
    assert_eq!(next_fragment_sequence(u64::MAX), u64::MAX);
}

#[test]
fn realtime_routes_need_voice_profile_harness_and_model() {
    assert!(matches!(
        check_realtime_route(false, RunHarnessKind::RealtimeVoice, Some("m".to_string())),
        Err(RunExecutionError::ProviderExecutionFailed(m)) if m == "stored run route is not realtime voice"
    ));
    assert!(matches!(
        check_realtime_route(true, RunHarnessKind::Native, Some("m".to_string())),
        Err(RunExecutionError::ProviderExecutionFailed(m)) if m == "stored run route is not realtime voice"
    ));
    assert!(matches!(
        check_realtime_route(true, RunHarnessKind::RealtimeVoice, None),
        Err(RunExecutionError::ProviderExecutionFailed(m)) if m == "realtime voice requires a model"
    ));
    assert_eq!(check_realtime_route(true, RunHarnessKind::RealtimeVoice, Some("gpt".to_string())).unwrap(), "gpt");
}
