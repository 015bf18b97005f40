//! Panel navigation: the panel on screen, the panels to go back to, and the
//! time of the last touch, after which an idle panel returns to the main layer.
use vstd::prelude::*;

verus! {

/// Where the user is among the panels. Times are milliseconds on a
/// monotonic clock that the caller reads.
#[derive(Debug, Clone)]
pub struct NavigationState {
    pub navigation_stack: Vec<String>,
    pub current_panel: Option<String>,
    pub last_interaction_ms: u64,
}

/// Panels as names: the stack from the bottom, then the current panel.
pub open spec fn names(v: Seq<String>) -> Seq<Seq<char>> {
    v.map_values(|s: String| s@)
}

/// The current panel's name.
pub open spec fn opt_name(o: Option<String>) -> Option<Seq<char>> {
    match o {
        Some(s) => Some(s@),
        None => None,
    }
}

impl NavigationState {
    /// The stack of panels to go back to, by name.
    pub open spec fn stack(self) -> Seq<Seq<char>> {
        names(self.navigation_stack@)
    }

    /// The panel on screen, by name; `None` is the main layer.
    pub open spec fn current(self) -> Option<Seq<char>> {
        opt_name(self.current_panel)
    }

    /// How many steps back lead to the main layer.
    pub open spec fn depth(self) -> nat {
        self.stack().len() + if self.current().is_some() { 1nat } else { 0nat }
    }

    /// On the main layer, with nothing to go back to.
    pub fn new(now: u64) -> (n: NavigationState)
        ensures
            n.stack() == Seq::<Seq<char>>::empty(),
            n.current().is_none(),
            n.last_interaction_ms == now,
    {
        let n = NavigationState { navigation_stack: Vec::new(), current_panel: None, last_interaction_ms: now };
        assert(n.stack() =~= Seq::<Seq<char>>::empty());
        n
    }

    /// Opens a panel; the panel on screen, if any, goes onto the stack.
    pub fn push_panel(&mut self, panel_name: String, now: u64)
        ensures
            (final(self).stack(), final(self).current()) == push_view(old(self).stack(), old(self).current(), panel_name@),
            final(self).last_interaction_ms == now,
    {
        let previous = self.current_panel.take();
        self.current_panel = Some(panel_name);
        match previous {
            Some(c) => {
                self.navigation_stack.push(c);
                assert(names(self.navigation_stack@) =~= names(old(self).navigation_stack@).push(c@));
            },
            None => {},
        }
        self.last_interaction_ms = now;
    }

    /// Goes back one panel: to the top of the stack, else to the main layer.
    /// Returns whether anything changed; on the main layer nothing does.
    pub fn pop_panel(&mut self, now: u64) -> (moved: bool)
        ensures
            (final(self).stack(), final(self).current(), moved) == pop_view(old(self).stack(), old(self).current()),
            final(self).last_interaction_ms == (if moved { now } else { old(self).last_interaction_ms }),
    {
        match self.navigation_stack.pop() {
            Some(previous) => {
                assert(names(self.navigation_stack@) =~= names(old(self).navigation_stack@).drop_last());
                self.current_panel = Some(previous);
                self.last_interaction_ms = now;
                true
            },
            None => {
                if self.current_panel.is_some() {
                    self.current_panel = None;
                    self.last_interaction_ms = now;
                    true
                } else {
                    false
                }
            },
        }
    }

    /// Back to the main layer, with nothing to go back to.
    pub fn reset_to_main(&mut self, now: u64)
        ensures
            final(self).stack() == Seq::<Seq<char>>::empty(),
            final(self).current().is_none(),
            final(self).last_interaction_ms == now,
    {
        self.navigation_stack.clear();
        self.current_panel = None;
        self.last_interaction_ms = now;
        assert(self.stack() =~= Seq::<Seq<char>>::empty());
    }

    /// Records a touch.
    pub fn update_interaction_time(&mut self, now: u64)
        ensures
            final(self).stack() == old(self).stack(),
            final(self).current() == old(self).current(),
            final(self).last_interaction_ms == now,
    {
        self.last_interaction_ms = now;
    }

    /// Whether a panel has been idle for `timeout_seconds` whole seconds; a
    /// timeout of zero never expires, and the main layer never times out.
    pub fn should_timeout(&self, timeout_seconds: u32, now: u64) -> (b: bool)
        ensures
            b == (timeout_seconds > 0 && self.current().is_some()
                && (if now >= self.last_interaction_ms { (now - self.last_interaction_ms) / 1000 } else { 0 })
                >= timeout_seconds),
    {
        let elapsed_s: u64 = if now >= self.last_interaction_ms {
            (now - self.last_interaction_ms) / 1000
        } else {
            0
        };
        timeout_seconds > 0 && self.current_panel.is_some() && elapsed_s >= timeout_seconds as u64
    }
}

/// The navigation view after opening panel `p`.
pub open spec fn push_view(stack: Seq<Seq<char>>, current: Option<Seq<char>>, p: Seq<char>) -> (Seq<Seq<char>>, Option<Seq<char>>) {
    (match current {
        Some(c) => stack.push(c),
        None => stack,
    }, Some(p))
}

/// The navigation view after going back, and whether anything changed.
pub open spec fn pop_view(stack: Seq<Seq<char>>, current: Option<Seq<char>>) -> (Seq<Seq<char>>, Option<Seq<char>>, bool) {
    if stack.len() > 0 {
        (stack.drop_last(), Some(stack.last()), true)
    } else if current.is_some() {
        (stack, None, true)
    } else {
        (stack, None, false)
    }
}

/// How many steps back lead to the main layer.
pub open spec fn view_depth(stack: Seq<Seq<char>>, current: Option<Seq<char>>) -> nat {
    stack.len() + if current.is_some() { 1nat } else { 0nat }
}

/// A panel is on screen whenever there is one to go back to.
pub open spec fn view_wf(stack: Seq<Seq<char>>, current: Option<Seq<char>>) -> bool {
    stack.len() > 0 ==> current.is_some()
}

/// Opening and going back keep a panel on screen whenever there is one to go back to.
pub proof fn law_navigation_keeps_wf(stack: Seq<Seq<char>>, current: Option<Seq<char>>, p: Seq<char>)
    requires
        view_wf(stack, current),
    ensures
        view_wf(push_view(stack, current, p).0, push_view(stack, current, p).1),
        view_wf(pop_view(stack, current).0, pop_view(stack, current).1),
{
}

/// Opening a panel and going back returns to where the user was.
pub proof fn law_push_then_pop_restores(stack: Seq<Seq<char>>, current: Option<Seq<char>>, p: Seq<char>)
    requires
        view_wf(stack, current),
    ensures
        ({
            let (s1, c1) = push_view(stack, current, p);
            pop_view(s1, c1) == (stack, current, true)
        }),
{
    match current {
        Some(c) => {
            assert(stack.push(c).drop_last() =~= stack);
        },
        None => {},
    }
}

/// Every step back brings the user one step nearer the main layer; on the
/// main layer going back changes nothing.
pub proof fn law_pop_shortens(stack: Seq<Seq<char>>, current: Option<Seq<char>>)
    requires
        view_wf(stack, current),
    ensures
        ({
            let (s1, c1, moved) = pop_view(stack, current);
            &&& moved ==> view_depth(s1, c1) + 1 == view_depth(stack, current)
            &&& !moved ==> view_depth(stack, current) == 0 && s1 == stack && c1 == current
        }),
{
}

/// Opening a panel goes one step deeper.
pub proof fn law_push_deepens(stack: Seq<Seq<char>>, current: Option<Seq<char>>, p: Seq<char>)
    requires
        view_wf(stack, current),
    ensures
        ({
            let (s1, c1) = push_view(stack, current, p);
            view_depth(s1, c1) == view_depth(stack, current) + 1
        }),
{
}

} // verus!
