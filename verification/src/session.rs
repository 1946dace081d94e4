//! Session controller: the bounded polling loop of one authentication
//! attempt, as a state machine stepped once per tick; and the enrollment
//! workflow that appends a new template when exactly one face is seen.
//!
//! The frame source and recognizer run outside the core: each tick hands
//! the core the candidate templates the recognizer derived from the frame
//! (empty when no frame or no face was available this tick, which the core
//! treats identically) together with the current clock reading.

use vstd::prelude::*;
use crate::config::{Core, Video};
use crate::gate::{Advisory, Outcome};
use crate::matcher::{identify, spec_identify};
use crate::store::{App, Model};

verus! {

/// Where an authentication attempt stands.
#[derive(Clone, Copy, PartialEq, Eq, Structural, Debug)]
pub enum SessionStatus {
    /// Still polling frames; the deadline has not passed.
    Capturing,
    /// A candidate matched an enrolled template.
    Accepted,
    /// The deadline passed before any candidate matched.
    TimedOut,
}

/// One running authentication attempt: the certainty threshold it matches
/// under and the absolute deadline it must resolve by.
pub struct Session {
    pub certainty: u64,
    pub deadline: u64,
    pub status: SessionStatus,
}

/// Some candidate in the frame matches: its distance to some enrolled
/// template is strictly below the threshold. An empty tick matches nothing.
pub open spec fn spec_any_match(candidates: Seq<Vec<u64>>, certainty: u64) -> bool {
    exists|i: int| 0 <= i < candidates.len() && spec_identify(candidates[i]@, certainty)
}

/// What one tick resolves to: a matching candidate accepts the attempt;
/// otherwise a clock at or past the deadline times it out; otherwise the
/// attempt keeps capturing.
pub open spec fn spec_tick(s: Session, now: u64, candidates: Seq<Vec<u64>>) -> SessionStatus {
    if spec_any_match(candidates, s.certainty) {
        SessionStatus::Accepted
    } else if now >= s.deadline {
        SessionStatus::TimedOut
    } else {
        SessionStatus::Capturing
    }
}

impl Session {
    /// Opens an attempt at clock reading `now`: the deadline is `now` plus
    /// the configured timeout in seconds, saturated at the clock's top.
    pub fn start(video: &Video, now: u64) -> (s: Session)
        ensures
            s.certainty == video.certainty,
            s.status == SessionStatus::Capturing,
            s.deadline == (if now + video.timeout <= u64::MAX {
                now + video.timeout
            } else {
                u64::MAX as int
            }),
    {
        let deadline: u64 = if now <= u64::MAX - video.timeout {
            now + video.timeout
        } else {
            u64::MAX
        };
        Session { certainty: video.certainty, deadline, status: SessionStatus::Capturing }
    }

    /// Steps the attempt by one tick. `candidates` holds, per face the
    /// recognizer saw this tick, its distance codes to the enrolled
    /// templates in store order; a tick without a frame or without faces
    /// hands an empty sequence. Matching wins over the deadline within a
    /// tick, and any single matching candidate accepts the attempt even if
    /// others in the same frame do not match.
    pub fn tick(&mut self, now: u64, candidates: &Vec<Vec<u64>>) -> (r: SessionStatus)
        requires
            old(self).status == SessionStatus::Capturing,
        ensures
            final(self).certainty == old(self).certainty,
            final(self).deadline == old(self).deadline,
            final(self).status == spec_tick(*old(self), now, candidates@),
            r == final(self).status,
    {
        let mut i: usize = 0;
        while i < candidates.len()
            invariant
                i <= candidates.len(),
                self == old(self),
                forall|j: int| 0 <= j < i ==> !spec_identify(candidates@[j]@, self.certainty),
            decreases candidates.len() - i,
        {
            if identify(&candidates[i], self.certainty) {
                assert(spec_any_match(candidates@, self.certainty)) by {
                    assert(spec_identify(candidates@[i as int]@, self.certainty));
                }
                self.status = SessionStatus::Accepted;
                return SessionStatus::Accepted;
            }
            i += 1;
        }
        if now >= self.deadline {
            self.status = SessionStatus::TimedOut;
            SessionStatus::TimedOut
        } else {
            SessionStatus::Capturing
        }
    }
}

/// Deadline respected: on any tick whose clock reading has reached the
/// deadline and whose candidates all fail to match, the attempt resolves
/// to `TimedOut` — it never keeps capturing past its deadline, so a
/// recognizer that never matches cannot run the attempt forever.
pub proof fn lemma_deadline_respected(s: Session, now: u64, candidates: Seq<Vec<u64>>)
    requires
        !spec_any_match(candidates, s.certainty),
        now >= s.deadline,
    ensures
        spec_tick(s, now, candidates) == SessionStatus::TimedOut,
{
}

/// The outcome code a resolved attempt reports: acceptance is success,
/// running out of time is an authentication error.
pub fn outcome_of_session(status: &SessionStatus) -> (r: Outcome)
    requires
        *status != SessionStatus::Capturing,
    ensures
        r == (if *status == SessionStatus::Accepted {
            Outcome::Success
        } else {
            Outcome::AuthError
        }),
{
    match status {
        SessionStatus::Accepted => Outcome::Success,
        _ => Outcome::AuthError,
    }
}

/// The advisory a resolved attempt delivers: a confirmation on acceptance
/// and a timeout notice on expiry, each unless the configuration
/// suppresses it.
pub fn advisory_on_session(status: &SessionStatus, core: &Core) -> (r: Option<Advisory>)
    requires
        *status != SessionStatus::Capturing,
    ensures
        r == (if *status == SessionStatus::Accepted {
            if !core.no_confirmation {
                Some(Advisory::Confirmation)
            } else {
                None::<Advisory>
            }
        } else {
            if !core.suppress_timeout {
                Some(Advisory::TimeoutNotice)
            } else {
                None::<Advisory>
            }
        }),
{
    match status {
        SessionStatus::Accepted => {
            if !core.no_confirmation {
                Some(Advisory::Confirmation)
            } else {
                None
            }
        },
        _ => {
            if !core.suppress_timeout {
                Some(Advisory::TimeoutNotice)
            } else {
                None
            }
        },
    }
}

/// What one enrollment tick resolved to.
#[derive(Clone, Copy, PartialEq, Eq, Structural, Debug)]
pub enum EnrollStep {
    /// No face this tick; try the next frame.
    Retry,
    /// Exactly one face was seen and enrolled; carries the new id.
    Enrolled(usize),
    /// More than one face was seen; nothing was stored and the operator
    /// must retry with a single face in frame.
    Ambiguous,
}

/// Steps the enrollment workflow by one tick. `encodings` holds the
/// embedding of each face the recognizer saw this tick; a frame with
/// exactly one face enrolls it under `label` at time `time`, and any other
/// frame leaves the store untouched.
pub fn enroll_tick(app: &mut App, encodings: Vec<Vec<u64>>, label: &String, time: i64) -> (r:
    EnrollStep)
    ensures
        final(app).config == old(app).config,
        encodings@.len() == 0 ==> r == EnrollStep::Retry && final(app).models@ == old(app).models@,
        encodings@.len() == 1 ==> r == EnrollStep::Enrolled(old(app).models.len())
            && final(app).models@ == old(app).models@.push(
            (Model { data: encodings@[0], label: *label, id: old(app).models.len(), time }),
        ),
        encodings@.len() > 1 ==> r == EnrollStep::Ambiguous && final(app).models@ == old(
            app,
        ).models@,
{
    if encodings.len() == 0 {
        EnrollStep::Retry
    } else if encodings.len() == 1 {
        let id = app.models.len();
        let mut e = encodings;
        let data = e.remove(0);
        app.push_model_at(data, label.clone(), time);
        EnrollStep::Enrolled(id)
    } else {
        EnrollStep::Ambiguous
    }
}

} // verus!
