//! Attaching the module to a GTK process.
use vstd::prelude::*;
use crate::gtk::config::{spec_from_major, GtkApi};

verus! {

pub const ATTACH_RETRIES: u32 = 50;

pub const ATTACH_RETRY_MS: u64 = 100;

/// The toolkit version a major version number stands for.
pub fn detected_gtk(major: u32) -> (r: (u32, Option<GtkApi>))
    ensures
        r == (major, spec_from_major(major)),
{
    (major, GtkApi::from_major(major))
}

/// What to do on an attempt to attach.
#[derive(Clone, Copy, Debug, PartialEq, Eq)]
pub enum AttachAction {
    /// Attach the stylesheet and subscribe to change signals.
    Attach(GtkApi),
    /// The process runs a GTK major version the module does not serve.
    Unsupported(u32),
    /// GTK is not there yet: try again after a delay.
    Retry { next_attempt: u32, delay_ms: u64 },
    /// GTK never showed up.
    GiveUp,
}

/// Decides attempt `attempt` from what detection found (`None` while the
/// GTK symbols are not there).
pub fn attach_or_retry(detected: Option<(u32, Option<GtkApi>)>, attempt: u32) -> (r: AttachAction)
    ensures
        r == match detected {
            Some((major, Some(gtk))) => AttachAction::Attach(gtk),
            Some((major, None)) => AttachAction::Unsupported(major),
            None => spec_retry(attempt),
        },
{
    match detected {
        Some((major, Some(gtk))) => AttachAction::Attach(gtk),
        Some((major, None)) => AttachAction::Unsupported(major),
        None => retry_or_skip(attempt),
    }
}

/// Retrying after a delay until the attempts run out.
pub open spec fn spec_retry(attempt: u32) -> AttachAction {
    if attempt >= ATTACH_RETRIES {
        AttachAction::GiveUp
    } else {
        AttachAction::Retry { next_attempt: (attempt + 1) as u32, delay_ms: ATTACH_RETRY_MS }
    }
}

/// Retries after a delay until the attempts run out.
pub fn retry_or_skip(attempt: u32) -> (r: AttachAction)
    ensures
        r == spec_retry(attempt),
{
    if attempt >= ATTACH_RETRIES {
        AttachAction::GiveUp
    } else {
        AttachAction::Retry { next_attempt: attempt + 1, delay_ms: ATTACH_RETRY_MS }
    }
}

/// How many retries follow attempt `attempt` while GTK does not show up,
/// going by `spec_retry`.
pub open spec fn retries_from(attempt: u32) -> nat
    decreases ATTACH_RETRIES - attempt,
{
    match spec_retry(attempt) {
        AttachAction::Retry { next_attempt, .. } => if next_attempt > attempt {
            1 + retries_from(next_attempt)
        } else {
            0
        },
        _ => 0,
    }
}

proof fn lemma_retries_from(attempt: u32)
    ensures
        retries_from(attempt) == if attempt >= ATTACH_RETRIES {
            0
        } else {
            (ATTACH_RETRIES - attempt) as nat
        },
    decreases ATTACH_RETRIES - attempt,
{
    if attempt < ATTACH_RETRIES {
        lemma_retries_from((attempt + 1) as u32);
    }
}

/// Each retry asks for the next attempt, and from the first attempt exactly
/// `ATTACH_RETRIES` retries happen before the module gives up.
pub proof fn law_retries_are_bounded(attempt: u32)
    ensures
        spec_retry(attempt) matches AttachAction::Retry { next_attempt, .. } ==> next_attempt
            == attempt + 1 && next_attempt <= ATTACH_RETRIES,
        retries_from(attempt) <= ATTACH_RETRIES,
        retries_from(0) == ATTACH_RETRIES,
{
    lemma_retries_from(attempt);
    lemma_retries_from(0);
}

} // verus!
