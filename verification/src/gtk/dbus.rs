//! The change signal the module listens to.
use vstd::prelude::*;
use crate::gtk::config::{spec_mode_parse, Mode};

verus! {

/// A change signal: the revision, the stylesheet path and the mode.
pub struct ChangeSignal {
    pub revision: u64,
    pub css_path: String,
    pub mode: Mode,
}

/// Reads the parameters of a change signal (`None` where they are not a
/// `(u64, string, string)` triple): the mode text is read as a `Mode`.
pub fn handle_changed(parameters: Option<(u64, &str, &str)>) -> (r: Option<ChangeSignal>)
    ensures
        parameters is None ==> r is None,
        parameters matches Some((rev, path, mode)) ==> (r matches Some(c) && c.revision == rev
            && c.css_path@ == path@ && c.mode == spec_mode_parse(mode@)),
{
    match parameters {
        None => None,
        Some((revision, path, mode)) => Some(
            ChangeSignal { revision, css_path: path.to_owned(), mode: Mode::parse(mode) },
        ),
    }
}

/// Takes the stored subscription, if any, for the caller to cancel; none
/// is stored afterwards.
pub fn unsubscribe<T>(slot: &mut Option<T>) -> (r: Option<T>)
    ensures
        r == *old(slot),
        *final(slot) is None,
{
    let mut taken: Option<T> = None;
    std::mem::swap(&mut taken, slot);
    taken
}

} // verus!
