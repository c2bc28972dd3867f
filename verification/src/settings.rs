//! User-facing settings carried between sessions. Loading and saving them
//! is plain file plumbing and stays with the caller.

use vstd::prelude::*;

verus! {

/// The two persisted switches.
#[derive(Clone, Copy, Debug, PartialEq, Eq, Structural)]
pub struct Settings {
    pub upload_confirmed: bool,
    pub onboarding_complete: bool,
}

impl Default for Settings {
    /// Nothing confirmed yet.
    fn default() -> (r: Settings)
        ensures
            !r.upload_confirmed,
            !r.onboarding_complete,
    {
        Settings { upload_confirmed: false, onboarding_complete: false }
    }
}

impl Settings {
    /// Record the upload consent decision.
    pub fn set_upload_confirmed(&mut self, confirmed: bool)
        ensures
            final(self).upload_confirmed == confirmed,
            final(self).onboarding_complete == old(self).onboarding_complete,
    {
        self.upload_confirmed = confirmed;
    }

    /// Record that onboarding finished.
    pub fn set_onboarding_complete(&mut self, complete: bool)
        ensures
            final(self).onboarding_complete == complete,
            final(self).upload_confirmed == old(self).upload_confirmed,
    {
        self.onboarding_complete = complete;
    }
}

} // verus!
