//! The active window as the KWin script reports it, and the flags that tell
//! the main loop to rebuild its layers or to count the user as active.
use vstd::prelude::*;

verus! {

/// The focused window's title and class.
#[derive(Debug, PartialEq, Eq)]
pub struct ActiveWindowInfo {
    pub title: String,
    pub class: String,
}

impl Clone for ActiveWindowInfo {
    fn clone(&self) -> (r: ActiveWindowInfo)
        ensures
            r == *self,
    {
        ActiveWindowInfo { title: self.title.clone(), class: self.class.clone() }
    }
}

/// Why no window information can be given.
#[derive(Debug, Clone, Copy, PartialEq, Eq)]
pub enum WindowInfoError {
    /// The KWin script has not reported a window yet.
    NoWindowYet,
}

/// What the session knows about the focused window.
#[derive(Debug)]
pub struct WindowTracker {
    pub cached: Option<ActiveWindowInfo>,
    pub cache_updated: bool,
    pub inactivity_reset: bool,
}

impl WindowTracker {
    /// Nothing reported yet.
    pub fn new() -> (t: WindowTracker)
        ensures
            t.cached.is_none(),
            !t.cache_updated,
            !t.inactivity_reset,
    {
        WindowTracker { cached: None, cache_updated: false, inactivity_reset: false }
    }

    /// The KWin script reports the focused window. A window that differs in
    /// class or title from the one known is stored and flagged as news.
    pub fn set_active_window(&mut self, class: String, title: String)
        ensures
            ({
                let changed = window_changed(old(self).cached, class@, title@);
                &&& changed ==> final(self).cached == Some(ActiveWindowInfo { title, class })
                    && final(self).cache_updated
                &&& !changed ==> final(self).cached == old(self).cached
                    && final(self).cache_updated == old(self).cache_updated
                &&& final(self).inactivity_reset == old(self).inactivity_reset
            }),
    {
        let changed = match &self.cached {
            None => true,
            Some(c) => c.class != class || c.title != title,
        };
        if changed {
            self.cached = Some(ActiveWindowInfo { title, class });
            self.cache_updated = true;
        }
    }

    /// The desktop reports user activity.
    pub fn reset_inactivity(&mut self)
        ensures
            final(self).inactivity_reset,
            final(self).cached == old(self).cached,
            final(self).cache_updated == old(self).cache_updated,
    {
        self.inactivity_reset = true;
    }
}

/// The focused window, once the KWin script has reported one.
pub fn get_active_window_info(t: &WindowTracker) -> (r: Result<ActiveWindowInfo, WindowInfoError>)
    ensures
        match t.cached {
            Some(i) => r == Ok::<ActiveWindowInfo, WindowInfoError>(i),
            None => r == Err::<ActiveWindowInfo, WindowInfoError>(WindowInfoError::NoWindowYet),
        },
{
    match &t.cached {
        Some(i) => Ok(i.clone()),
        None => Err(WindowInfoError::NoWindowYet),
    }
}

/// Whether a new window was reported since the last call; clears the flag.
pub fn check_and_reset_cache_updated(t: &mut WindowTracker) -> (was: bool)
    ensures
        was == old(t).cache_updated,
        !final(t).cache_updated,
        final(t).cached == old(t).cached,
        final(t).inactivity_reset == old(t).inactivity_reset,
{
    let was = t.cache_updated;
    t.cache_updated = false;
    was
}

/// Whether activity was reported since the last call; clears the flag.
pub fn check_and_reset_inactivity(t: &mut WindowTracker) -> (was: bool)
    ensures
        was == old(t).inactivity_reset,
        !final(t).inactivity_reset,
        final(t).cached == old(t).cached,
        final(t).cache_updated == old(t).cache_updated,
{
    let was = t.inactivity_reset;
    t.inactivity_reset = false;
    was
}

/// Whether a report of `class` and `title` differs from the window known.
pub open spec fn window_changed(known: Option<ActiveWindowInfo>, class: Seq<char>, title: Seq<char>) -> bool {
    match known {
        None => true,
        Some(c) => c.class@ != class || c.title@ != title,
    }
}

/// Reporting a window makes it the known one, so reporting it again is no news.
pub proof fn law_same_window_is_news_once(known: Option<ActiveWindowInfo>, class: String, title: String)
    ensures
        ({
            let after = if window_changed(known, class@, title@) {
                Some(ActiveWindowInfo { title, class })
            } else {
                known
            };
            !window_changed(after, class@, title@)
        }),
{
}

} // verus!
