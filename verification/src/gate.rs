//! Gate evaluator: the pre-capture abort conditions, evaluated once, in a
//! fixed order, before the camera is ever opened; and the mapping from
//! attempt endings to the outcome codes and advisory messages reported to
//! the host.

use vstd::prelude::*;
use crate::config::Core;

verus! {

/// Why an attempt was aborted before capture started.
#[derive(Clone, Copy, PartialEq, Eq, Structural, Debug)]
pub enum AbortReason {
    /// The agent is switched off in the configuration.
    ServiceDisabled,
    /// The attempt runs inside a remote session and those are ignored.
    RemoteSessionIgnored,
    /// The laptop lid is closed and closed lids are ignored.
    LidClosed,
    /// The user has no enrolled templates.
    NoEnrolledTemplates,
}

/// The outcome codes an attempt reports to the host authentication stack.
#[derive(Clone, Copy, PartialEq, Eq, Structural, Debug)]
pub enum Outcome {
    Success,
    UserUnknown,
    AuthInfoUnavailable,
    AuthError,
}

/// The advisory messages an attempt may deliver through the host's
/// message conversation; the host renders the text.
#[derive(Clone, Copy, PartialEq, Eq, Structural, Debug)]
pub enum Advisory {
    /// Face detection is about to start.
    DetectionStart,
    /// No face model is known for the user.
    UnknownUser,
    /// The face was identified.
    Confirmation,
    /// The detection timeout was reached.
    TimeoutNotice,
}

/// Severity of an advisory message.
#[derive(Clone, Copy, PartialEq, Eq, Structural, Debug)]
pub enum Severity {
    Info,
    Error,
}

/// Which abort, if any, the pre-capture checks settle on. They run one
/// after another — disabled first, then remote session, then closed lid,
/// then an empty store — and the earliest one that holds wins; `None`
/// means capture may start.
pub open spec fn spec_gate(
    core: Core,
    remote_session: bool,
    lid_closed: bool,
    enrolled: nat,
) -> Option<AbortReason> {
    if core.disabled {
        Some(AbortReason::ServiceDisabled)
    } else if core.ignore_ssh && remote_session {
        Some(AbortReason::RemoteSessionIgnored)
    } else if core.ignore_closed_lid && lid_closed {
        Some(AbortReason::LidClosed)
    } else if enrolled == 0 {
        Some(AbortReason::NoEnrolledTemplates)
    } else {
        None
    }
}

/// Evaluates the pre-capture gates. `remote_session` says whether any of
/// the remote-session environment markers is present, `lid_closed` whether
/// the lid-state indicator reports a closed lid, and `enrolled` how many
/// templates the user's store holds.
pub fn evaluate_gates(
    core: &Core,
    remote_session: bool,
    lid_closed: bool,
    enrolled: usize,
) -> (r: Option<AbortReason>)
    ensures
        r == spec_gate(*core, remote_session, lid_closed, enrolled as nat),
{
    if core.disabled {
        Some(AbortReason::ServiceDisabled)
    } else if core.ignore_ssh && remote_session {
        Some(AbortReason::RemoteSessionIgnored)
    } else if core.ignore_closed_lid && lid_closed {
        Some(AbortReason::LidClosed)
    } else if enrolled == 0 {
        Some(AbortReason::NoEnrolledTemplates)
    } else {
        None
    }
}

/// The outcome code each abort reason maps to: an empty template set means
/// the user is unknown; the other gates mean authentication information is
/// unavailable.
pub open spec fn spec_outcome_of_abort(reason: AbortReason) -> Outcome {
    match reason {
        AbortReason::NoEnrolledTemplates => Outcome::UserUnknown,
        _ => Outcome::AuthInfoUnavailable,
    }
}

/// Maps an abort reason to the outcome code reported to the host.
pub fn outcome_of_abort(reason: &AbortReason) -> (r: Outcome)
    ensures
        r == spec_outcome_of_abort(*reason),
{
    match reason {
        AbortReason::NoEnrolledTemplates => Outcome::UserUnknown,
        _ => Outcome::AuthInfoUnavailable,
    }
}

/// The advisory a gate abort produces: only the empty-template-set abort
/// carries one, and the configuration can suppress it.
pub fn advisory_on_abort(reason: &AbortReason, core: &Core) -> (r: Option<Advisory>)
    ensures
        r == (if reason is NoEnrolledTemplates && !core.suppress_unknown {
            Some(Advisory::UnknownUser)
        } else {
            None::<Advisory>
        }),
{
    match reason {
        AbortReason::NoEnrolledTemplates => {
            if !core.suppress_unknown {
                Some(Advisory::UnknownUser)
            } else {
                None
            }
        },
        _ => None,
    }
}

/// The advisory shown when capture is about to start: present exactly when
/// the configuration asks for a detection notice.
pub fn start_advisory(core: &Core) -> (r: Option<Advisory>)
    ensures
        r == (if core.detection_notice {
            Some(Advisory::DetectionStart)
        } else {
            None::<Advisory>
        }),
{
    if core.detection_notice {
        Some(Advisory::DetectionStart)
    } else {
        None
    }
}

/// The severity each advisory is delivered with.
pub fn severity(advisory: &Advisory) -> (r: Severity)
    ensures
        r == (match *advisory {
            Advisory::DetectionStart | Advisory::Confirmation => Severity::Info,
            Advisory::UnknownUser | Advisory::TimeoutNotice => Severity::Error,
        }),
{
    match advisory {
        Advisory::DetectionStart | Advisory::Confirmation => Severity::Info,
        Advisory::UnknownUser | Advisory::TimeoutNotice => Severity::Error,
    }
}

/// Gate precedence: with the service disabled, the attempt aborts as
/// `ServiceDisabled` whatever the remote-session marker, the lid state or
/// the store say — the first gate in the fixed order wins.
pub proof fn lemma_gate_precedence(core: Core, remote_session: bool, lid_closed: bool, enrolled: nat)
    requires
        core.disabled,
    ensures
        spec_gate(core, remote_session, lid_closed, enrolled) == Some(AbortReason::ServiceDisabled),
{
}

} // verus!
