use hola::config::{detector_choice, Config, Core, DetectorKind, Video};
use hola::gate::{evaluate_gates, outcome_of_abort, severity, AbortReason, Advisory, Outcome,
                 Severity};
use hola::gate::advisory_on_abort;
use hola::session::{advisory_on_session, outcome_of_session, Session, SessionStatus};

fn bits(x: f64) -> u64 {
    x.to_bits()
}

fn core_flags() -> Core {
    Core {
        detection_notice: false,
        no_confirmation: false,
        suppress_unknown: false,
        suppress_timeout: false,
        ignore_ssh: false,
        ignore_closed_lid: false,
        disabled: false,
        use_cnn: false,
    }
}

fn video(certainty: f64, timeout: u64) -> Video {
    Video { certainty: bits(certainty), timeout, device: 0, max_height: 320 }
}

#[test]
fn gate_precedence_disabled_wins() {
    // Service disabled and a remote-session marker present and remote
    // sessions ignored: the first gate in the fixed order decides.
    let mut core = core_flags();
    core.disabled = true;
    core.ignore_ssh = true;
    let r = evaluate_gates(&core, true, false, 3);
    assert_eq!(r, Some(AbortReason::ServiceDisabled));
    assert_eq!(outcome_of_abort(&AbortReason::ServiceDisabled), Outcome::AuthInfoUnavailable);
}

#[test]
fn gates_fire_in_the_fixed_order() {
    let mut core = core_flags();
    core.ignore_ssh = true;
    core.ignore_closed_lid = true;
    assert_eq!(evaluate_gates(&core, true, true, 3), Some(AbortReason::RemoteSessionIgnored));
    assert_eq!(evaluate_gates(&core, false, true, 3), Some(AbortReason::LidClosed));
    assert_eq!(evaluate_gates(&core, false, false, 0), Some(AbortReason::NoEnrolledTemplates));
    assert_eq!(evaluate_gates(&core, false, false, 3), None);
}

#[test]
fn markers_are_ignored_when_flags_are_off() {
    let core = core_flags();
    assert_eq!(evaluate_gates(&core, true, true, 3), None);
}

#[test]
fn empty_store_maps_to_user_unknown_with_suppressible_advisory() {
    let core = core_flags();
    assert_eq!(outcome_of_abort(&AbortReason::NoEnrolledTemplates), Outcome::UserUnknown);
    assert_eq!(
        advisory_on_abort(&AbortReason::NoEnrolledTemplates, &core),
        Some(Advisory::UnknownUser)
    );
    assert_eq!(severity(&Advisory::UnknownUser), Severity::Error);
    let mut muted = core_flags();
    muted.suppress_unknown = true;
    assert_eq!(advisory_on_abort(&AbortReason::NoEnrolledTemplates, &muted), None);
    // The other aborts never carry an advisory.
    assert_eq!(advisory_on_abort(&AbortReason::ServiceDisabled, &core), None);
}

#[test]
fn end_to_end_accepts_on_the_third_tick() {
    // Threshold 0.4, timeout 5 s, one enrolled template. The recognizer
    // sees nothing, then a face at distance 0.6, then one at 0.2.
    let cfg = Config { core: core_flags(), video: video(0.4, 5) };
    let mut s = Session::start(&cfg.video, 0);
    assert_eq!(s.tick(1, &vec![]), SessionStatus::Capturing);
    assert_eq!(s.tick(2, &vec![vec![bits(0.6)]]), SessionStatus::Capturing);
    let r = s.tick(3, &vec![vec![bits(0.2)]]);
    assert_eq!(r, SessionStatus::Accepted);
    assert_eq!(outcome_of_session(&r), Outcome::Success);
    assert_eq!(advisory_on_session(&r, &cfg.core), Some(Advisory::Confirmation));
}

#[test]
fn multi_face_frame_accepts_when_any_candidate_matches() {
    let mut s = Session::start(&video(0.4, 5), 0);
    // One frame, two faces: one stranger, one match.
    let frame = vec![vec![bits(0.9)], vec![bits(0.2)]];
    assert_eq!(s.tick(1, &frame), SessionStatus::Accepted);
}

#[test]
fn never_matching_recognizer_times_out_at_the_deadline() {
    let core = core_flags();
    let mut s = Session::start(&video(0.4, 5), 10);
    for now in 11..15 {
        assert_eq!(s.tick(now, &vec![vec![bits(0.8)]]), SessionStatus::Capturing);
    }
    let r = s.tick(15, &vec![vec![bits(0.8)]]);
    assert_eq!(r, SessionStatus::TimedOut);
    assert_eq!(outcome_of_session(&r), Outcome::AuthError);
    assert_eq!(advisory_on_session(&r, &core), Some(Advisory::TimeoutNotice));
    let mut muted = core_flags();
    muted.suppress_timeout = true;
    assert_eq!(advisory_on_session(&r, &muted), None);
}

#[test]
fn a_match_on_the_deadline_tick_still_wins() {
    let mut s = Session::start(&video(0.4, 5), 0);
    assert_eq!(s.tick(5, &vec![vec![bits(0.1)]]), SessionStatus::Accepted);
}

#[test]
fn detector_follows_the_configuration() {
    let mut core = core_flags();
    assert_eq!(detector_choice(&core), DetectorKind::Fast);
    core.use_cnn = true;
    assert_eq!(detector_choice(&core), DetectorKind::Accurate);
}

#[test]
fn zero_timeout_expires_on_the_first_empty_tick() {
    let mut s = Session::start(&video(0.4, 0), 100);
    assert_eq!(s.tick(100, &vec![]), SessionStatus::TimedOut);
}
