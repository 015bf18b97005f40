//! The Touch Bar backlight policy: full brightness while the user is active,
//! dimmed after an idle timeout, off after a longer one or while the lid is
//! closed. Times are milliseconds on a monotonic clock that the caller reads.
use vstd::prelude::*;
use crate::text::{contains, str_contains};

verus! {

/// Milliseconds from `since` to `now`; zero if the clock reads earlier.
pub open spec fn elapsed_ms(now: u64, since: u64) -> u64 {
    if now >= since { (now - since) as u64 } else { 0 }
}

/// The lesser of two values.
pub open spec fn min_u32(a: u32, b: u32) -> u32 {
    if a <= b { a } else { b }
}

fn min32(a: u32, b: u32) -> (r: u32)
    ensures
        r == min_u32(a, b),
{
    if a <= b { a } else { b }
}

/// The state of the backlight policy.
pub struct BacklightManager {
    pub last_active_ms: u64,
    pub max_bl: u32,
    pub current_bl: u32,
    pub lid_closed: bool,
    pub display_max_bl: Option<u32>,
    pub active_brightness: u32,
    pub dimmed_brightness: u32,
    pub brightness_dim_timeout_ms: u32,
    pub brightness_off_timeout_ms: u32,
    pub adaptive_brightness: bool,
}

impl BacklightManager {
    /// The level that the policy asks for at `now`. `adaptive_level` is the
    /// level that follows the display backlight, when it could be read.
    pub open spec fn target(self, now: u64, adaptive_level: Option<u32>) -> u32 {
        let since = elapsed_ms(now, self.last_active_ms);
        min_u32(
            self.max_bl,
            if self.lid_closed {
                0
            } else if since < self.brightness_dim_timeout_ms as u64 {
                if self.adaptive_brightness {
                    match adaptive_level {
                        Some(l) => l,
                        None => min_u32(self.active_brightness, self.max_bl),
                    }
                } else {
                    min_u32(self.active_brightness, self.max_bl)
                }
            } else if since < self.brightness_off_timeout_ms as u64 {
                min_u32(self.dimmed_brightness, self.max_bl)
            } else {
                0
            },
        )
    }

    /// The backlight is never driven above its maximum.
    pub open spec fn wf(self) -> bool {
        self.current_bl <= self.max_bl
    }

    /// A manager for a backlight whose `max_brightness` read as
    /// `max_reading` (1 if it could not be read), starting at full brightness,
    /// lid open, with no dimming or switching off until configured.
    pub fn new(max_reading: Option<u32>, display_max_bl: Option<u32>, now: u64) -> (m: BacklightManager)
        ensures
            m.wf(),
            m.max_bl == (match max_reading { Some(v) => v, None => 1u32 }),
            m.current_bl == m.max_bl,
            m.active_brightness == m.max_bl,
            m.dimmed_brightness == 1,
            m.brightness_dim_timeout_ms == u32::MAX,
            m.brightness_off_timeout_ms == u32::MAX,
            !m.adaptive_brightness,
            !m.lid_closed,
            m.last_active_ms == now,
            m.display_max_bl == display_max_bl,
    {
        let max_bl = match max_reading {
            Some(v) => v,
            None => 1,
        };
        BacklightManager {
            last_active_ms: now,
            max_bl,
            current_bl: max_bl,
            lid_closed: false,
            display_max_bl,
            active_brightness: max_bl,
            dimmed_brightness: 1,
            brightness_dim_timeout_ms: u32::MAX,
            brightness_off_timeout_ms: u32::MAX,
            adaptive_brightness: false,
        }
    }

    /// Takes the user's settings; brightness levels are capped at the maximum.
    pub fn set_config(&mut self, active: u32, dimmed: u32, dim_timeout_ms: u32, off_timeout_ms: u32, adaptive: bool)
        ensures
            final(self).active_brightness == min_u32(active, old(self).max_bl),
            final(self).dimmed_brightness == min_u32(dimmed, old(self).max_bl),
            final(self).brightness_dim_timeout_ms == dim_timeout_ms,
            final(self).brightness_off_timeout_ms == off_timeout_ms,
            final(self).adaptive_brightness == adaptive,
            final(self).max_bl == old(self).max_bl,
            final(self).current_bl == old(self).current_bl,
            final(self).lid_closed == old(self).lid_closed,
            final(self).last_active_ms == old(self).last_active_ms,
            final(self).display_max_bl == old(self).display_max_bl,
    {
        self.active_brightness = min32(active, self.max_bl);
        self.dimmed_brightness = min32(dimmed, self.max_bl);
        self.brightness_dim_timeout_ms = dim_timeout_ms;
        self.brightness_off_timeout_ms = off_timeout_ms;
        self.adaptive_brightness = adaptive;
    }

    /// A key press, pointer motion, gesture or touch: the user is active.
    pub fn record_activity(&mut self, now: u64)
        ensures
            *final(self) == (BacklightManager { last_active_ms: now, ..*old(self) }),
    {
        self.last_active_ms = now;
    }

    /// The lid switch toggled; opening the lid counts as activity.
    pub fn lid_switch(&mut self, closed: bool, now: u64)
        ensures
            final(self).lid_closed == closed,
            final(self).last_active_ms == (if closed { old(self).last_active_ms } else { now }),
            *final(self) == (BacklightManager {
                lid_closed: closed,
                last_active_ms: final(self).last_active_ms,
                ..*old(self)
            }),
    {
        self.lid_closed = closed;
        if !closed {
            self.last_active_ms = now;
        }
    }

    /// Whether the policy reads the display backlight at `now`: only while the
    /// lid is open, the user is active and adaptive brightness is on.
    pub fn wants_display_level(&self, now: u64) -> (b: bool)
        ensures
            b == (!self.lid_closed && elapsed_ms(now, self.last_active_ms)
                < self.brightness_dim_timeout_ms as u64 && self.adaptive_brightness),
    {
        let since: u64 = if now >= self.last_active_ms { now - self.last_active_ms } else { 0 };
        !self.lid_closed && since < self.brightness_dim_timeout_ms as u64 && self.adaptive_brightness
    }

    /// The level the policy asks for at `now`.
    pub fn target_level(&self, now: u64, adaptive_level: Option<u32>) -> (l: u32)
        ensures
            l == self.target(now, adaptive_level),
    {
        let since: u64 = if now >= self.last_active_ms { now - self.last_active_ms } else { 0 };
        let want: u32 = if self.lid_closed {
            0
        } else if since < self.brightness_dim_timeout_ms as u64 {
            if self.adaptive_brightness {
                match adaptive_level {
                    Some(l) => l,
                    None => min32(self.active_brightness, self.max_bl),
                }
            } else {
                min32(self.active_brightness, self.max_bl)
            }
        } else if since < self.brightness_off_timeout_ms as u64 {
            min32(self.dimmed_brightness, self.max_bl)
        } else {
            0
        };
        min32(self.max_bl, want)
    }

    /// Moves the backlight to the level the policy asks for at `now`. Returns
    /// the level to write to the device when it changed, else `None`.
    pub fn update_backlight(&mut self, now: u64, adaptive_level: Option<u32>) -> (w: Option<u32>)
        requires
            old(self).wf(),
        ensures
            final(self).wf(),
            final(self).current_bl == old(self).target(now, adaptive_level),
            w == (if old(self).current_bl != old(self).target(now, adaptive_level) {
                Some(old(self).target(now, adaptive_level))
            } else {
                None::<u32>
            }),
            *final(self) == (BacklightManager { current_bl: final(self).current_bl, ..*old(self) }),
    {
        let new_bl = self.target_level(now, adaptive_level);
        if self.current_bl != new_bl {
            self.current_bl = new_bl;
            Some(new_bl)
        } else {
            None
        }
    }

    /// The level the backlight is at.
    pub fn current_bl(&self) -> (l: u32)
        ensures
            l == self.current_bl,
    {
        self.current_bl
    }

    /// Counts as activity, as a request from the desktop session does.
    pub fn reset_activity(&mut self, now: u64)
        ensures
            *final(self) == (BacklightManager { last_active_ms: now, ..*old(self) }),
    {
        self.last_active_ms = now;
    }
}

/// The names under which the Touch Bar's own backlight appears.
pub open spec fn touchbar_backlight_names() -> Seq<Seq<char>> {
    seq!["display-pipe"@, "228600000.dsi.0"@, "appletb_backlight"@]
}

/// A backlight device name that holds one of the Touch Bar names.
pub open spec fn is_touchbar_backlight(name: Seq<char>) -> bool {
    exists|i: int| 0 <= i < 3 && contains(name, #[trigger] touchbar_backlight_names()[i])
}

/// Whether a backlight device is the Touch Bar's own.
pub fn touchbar_backlight(name: &str) -> (b: bool)
    ensures
        b == is_touchbar_backlight(name@),
{
    let a = str_contains(name, "display-pipe");
    let b = str_contains(name, "228600000.dsi.0");
    let c = str_contains(name, "appletb_backlight");
    proof {
        assert(touchbar_backlight_names()[0] == "display-pipe"@);
        assert(touchbar_backlight_names()[1] == "228600000.dsi.0"@);
        assert(touchbar_backlight_names()[2] == "appletb_backlight"@);
    }
    a || b || c
}

/// The first device in directory order that is the Touch Bar's backlight.
pub fn find_touchbar_backlight(names: &Vec<String>) -> (r: Option<usize>)
    ensures
        match r {
            Some(i) => i < names@.len() && is_touchbar_backlight(names@[i as int]@)
                && forall|j: int| 0 <= j < i ==> !is_touchbar_backlight(#[trigger] names@[j]@),
            None => forall|j: int| 0 <= j < names@.len() ==> !is_touchbar_backlight(#[trigger] names@[j]@),
        },
{
    let mut i: usize = 0;
    while i < names.len()
        invariant
            i <= names@.len(),
            forall|j: int| 0 <= j < i ==> !is_touchbar_backlight(#[trigger] names@[j]@),
        decreases names@.len() - i,
    {
        if touchbar_backlight(names[i].as_str()) {
            return Some(i);
        }
        i = i + 1;
    }
    None
}

/// The first device in directory order that is not the Touch Bar's: the
/// main display's backlight.
pub fn find_display_backlight(names: &Vec<String>) -> (r: Option<usize>)
    ensures
        match r {
            Some(i) => i < names@.len() && !is_touchbar_backlight(names@[i as int]@)
                && forall|j: int| 0 <= j < i ==> is_touchbar_backlight(#[trigger] names@[j]@),
            None => forall|j: int| 0 <= j < names@.len() ==> is_touchbar_backlight(#[trigger] names@[j]@),
        },
{
    let mut i: usize = 0;
    while i < names.len()
        invariant
            i <= names@.len(),
            forall|j: int| 0 <= j < i ==> is_touchbar_backlight(#[trigger] names@[j]@),
        decreases names@.len() - i,
    {
        if !touchbar_backlight(names[i].as_str()) {
            return Some(i);
        }
        i = i + 1;
    }
    None
}

} // verus!

verus! {

/// The policy never asks for more than the device's maximum.
pub proof fn law_target_within_max(m: BacklightManager, now: u64, adaptive_level: Option<u32>)
    ensures
        m.target(now, adaptive_level) <= m.max_bl,
{
}

/// With the lid closed the backlight is off, whatever else holds.
pub proof fn law_lid_closed_is_dark(m: BacklightManager, now: u64, adaptive_level: Option<u32>)
    requires
        m.lid_closed,
    ensures
        m.target(now, adaptive_level) == 0,
{
}

/// Right after activity, with the lid open, a non-zero dim timeout and
/// adaptive brightness off, the backlight is at the active level.
pub proof fn law_activity_restores_active_level(m: BacklightManager, now: u64, adaptive_level: Option<u32>)
    requires
        !m.lid_closed,
        !m.adaptive_brightness,
        m.brightness_dim_timeout_ms > 0,
    ensures
        (BacklightManager { last_active_ms: now, ..m }).target(now, adaptive_level) == min_u32(
            m.active_brightness,
            m.max_bl,
        ),
{
}

/// Idle for at least both timeouts, the backlight is off.
pub proof fn law_idle_past_timeouts_is_dark(m: BacklightManager, now: u64, adaptive_level: Option<u32>)
    requires
        elapsed_ms(now, m.last_active_ms) >= m.brightness_dim_timeout_ms as u64,
        elapsed_ms(now, m.last_active_ms) >= m.brightness_off_timeout_ms as u64,
    ensures
        m.target(now, adaptive_level) == 0,
{
}

/// Between the dim and the off timeout, the backlight is at the dimmed level.
pub proof fn law_idle_between_timeouts_is_dimmed(m: BacklightManager, now: u64, adaptive_level: Option<u32>)
    requires
        !m.lid_closed,
        elapsed_ms(now, m.last_active_ms) >= m.brightness_dim_timeout_ms as u64,
        elapsed_ms(now, m.last_active_ms) < m.brightness_off_timeout_ms as u64,
    ensures
        m.target(now, adaptive_level) == min_u32(m.dimmed_brightness, m.max_bl),
{
}

/// Without adaptive brightness and with the dimmed level no brighter than the
/// active one, the backlight never brightens while the user stays idle.
pub proof fn law_idle_never_brightens(m: BacklightManager, t1: u64, t2: u64, adaptive_level: Option<u32>)
    requires
        !m.adaptive_brightness,
        m.dimmed_brightness <= m.active_brightness,
        m.last_active_ms <= t1 <= t2,
    ensures
        m.target(t2, adaptive_level) <= m.target(t1, adaptive_level),
{
}

/// The level asked for does not depend on the level the backlight is at, so
/// a second update at the same moment writes nothing.
pub proof fn law_update_settles(m: BacklightManager, now: u64, adaptive_level: Option<u32>)
    ensures
        (BacklightManager { current_bl: m.target(now, adaptive_level), ..m }).target(now, adaptive_level)
            == m.target(now, adaptive_level),
{
}

} // verus!
