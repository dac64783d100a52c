//! Screensaver inhibition during playback: the bookkeeping of the cookie
//! the desktop hands back. The toolkit calls that inhibit and release are
//! made by the application shell.

use vstd::prelude::*;

verus! {

/// Whether the screensaver is inhibited, and by which cookie.
pub struct ScreensaverInhibitor {
    inhibit_cookie: Option<u32>,
}

impl View for ScreensaverInhibitor {
    type V = Option<u32>;

    closed spec fn view(&self) -> Option<u32> {
        self.inhibit_cookie
    }
}

impl ScreensaverInhibitor {
    /// Not inhibited.
    pub fn new() -> (r: Self)
        ensures
            r@ is None,
    {
        ScreensaverInhibitor { inhibit_cookie: None }
    }

    /// Whether an inhibit request should be made: not when one is already in
    /// force.
    pub fn needs_inhibit(&self) -> (r: bool)
        ensures
            r == (self@ is None),
    {
        self.inhibit_cookie.is_none()
    }

    /// Record the cookie the desktop answered an inhibit request with; zero
    /// means the request was refused and nothing is recorded. Has no effect
    /// when an inhibition is already in force.
    pub fn record_inhibit(&mut self, cookie: u32)
        ensures
            final(self)@ == (if old(self)@ is None && cookie != 0 {
                Some(cookie)
            } else {
                old(self)@
            }),
    {
        if self.inhibit_cookie.is_none() && cookie != 0 {
            self.inhibit_cookie = Some(cookie);
        }
    }

    /// Give up the inhibition: the cookie to release, if one was in force.
    /// Afterwards nothing is in force.
    pub fn take_cookie(&mut self) -> (r: Option<u32>)
        ensures
            r == old(self)@,
            final(self)@ is None,
    {
        self.inhibit_cookie.take()
    }

    /// Whether an inhibition is in force.
    pub fn is_inhibited(&self) -> (r: bool)
        ensures
            r == (self@ is Some),
    {
        self.inhibit_cookie.is_some()
    }
}

} // verus!
