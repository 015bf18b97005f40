//! What touches do: which widget a finger holds, which keys are held down,
//! which panel actions wait for the press highlight to show, and what each
//! touch-down, motion and lift asks of the widgets. Times are milliseconds on
//! a monotonic clock that the caller reads.
use vstd::prelude::*;
use std::collections::{HashMap, HashSet};
use vstd::std_specs::hash::spec_hash_keys_iter;
use vstd::std_specs::iter::IteratorSpec;
use crate::config::Action;
use crate::navigation::{NavigationState, push_view, pop_view};

verus! {

broadcast use vstd::seq_lib::group_seq_properties;

/// A key to press or release on the virtual keyboard.
#[derive(Debug, Clone, Copy, PartialEq, Eq, Structural)]
pub struct KeyEvent {
    pub code: u16,
    pub pressed: bool,
}

/// Release events for each key, in order.
pub open spec fn releases(keys: Seq<u16>) -> Seq<KeyEvent> {
    keys.map_values(|k: u16| KeyEvent { code: k, pressed: false })
}

/// Press events for each key, in order.
pub open spec fn presses(keys: Seq<u16>) -> Seq<KeyEvent> {
    keys.map_values(|k: u16| KeyEvent { code: k, pressed: true })
}

/// Release events for exactly the keys of `held`, each once, in some order
/// (a set has none of its own).
pub open spec fn releases_all(events: Seq<KeyEvent>, held: Set<u16>) -> bool {
    exists|order: Seq<u16>| order.no_duplicates() && order.to_set() == held && events == #[trigger] releases(order)
}

/// Release events for exactly the keys of `held`, then the events `then`.
pub open spec fn releases_then(events: Seq<KeyEvent>, held: Set<u16>, then: Seq<KeyEvent>) -> bool {
    &&& events.len() >= then.len()
    &&& releases_all(events.subrange(0, events.len() - then.len()), held)
    &&& events.subrange(events.len() - then.len(), events.len() as int) == then
}

/// The keys held down on the virtual keyboard.
#[derive(Debug)]
pub struct HeldKeys {
    pub keys: HashSet<u16>,
}

impl HeldKeys {
    /// The set of held keys.
    pub open spec fn set(self) -> Set<u16> {
        self.keys@
    }

    /// No key held.
    pub fn new() -> (h: HeldKeys)
        ensures
            h.set() == Set::<u16>::empty(),
    {
        HeldKeys { keys: HashSet::new() }
    }

    /// Whether `code` is held.
    pub fn holds(&self, code: u16) -> (b: bool)
        ensures
            b == self.set().contains(code),
    {
        broadcast use vstd::std_specs::hash::group_hash_axioms;
        self.keys.contains(&code)
    }

    /// Marks `code` held.
    pub fn insert(&mut self, code: u16)
        ensures
            final(self).set() == old(self).set().insert(code),
    {
        broadcast use vstd::std_specs::hash::group_hash_axioms;
        self.keys.insert(code);
    }

    /// Marks `code` released.
    pub fn remove(&mut self, code: u16)
        ensures
            final(self).set() == old(self).set().remove(code),
    {
        broadcast use vstd::std_specs::hash::group_hash_axioms;
        self.keys.remove(&code);
    }

    /// The held keys, each once, in the set's iteration order.
    fn key_list(&self) -> (out: Vec<u16>)
        ensures
            out@.no_duplicates(),
            out@.to_set() == self.set(),
    {
        broadcast use vstd::std_specs::hash::group_hash_axioms;
        let ghost all = spec_hash_keys_iter(&self.keys).remaining();
        let mut out: Vec<u16> = Vec::new();
        for k in it: self.keys.iter()
            invariant
                all == spec_hash_keys_iter(&self.keys).remaining(),
                it.seq() == all,
                out@ == all.take(it.index() as int).map_values(|r: &u16| *r),
        {
            out.push(*k);
            proof {
                assert(all.take(it.index() + 1 as int).map_values(|r: &u16| *r) =~= out@);
            }
        }
        proof {
            assert(out@ =~= all.map_values(|r: &u16| *r));
            assert(all.unref() =~= all.map_values(|r: &u16| *r));
        }
        out
    }

    /// Releases every held key: one release event per held key.
    pub fn release_all(&mut self) -> (events: Vec<KeyEvent>)
        ensures
            final(self).set() == Set::<u16>::empty(),
            releases_all(events@, old(self).set()),
    {
        let order = self.key_list();
        let mut events: Vec<KeyEvent> = Vec::new();
        let mut i: usize = 0;
        while i < order.len()
            invariant
                i <= order@.len(),
                events@ == releases(order@.subrange(0, i as int)),
            decreases order@.len() - i,
        {
            events.push(KeyEvent { code: order[i], pressed: false });
            assert(releases(order@.subrange(0, i + 1)) =~= releases(order@.subrange(0, i as int)).push(KeyEvent { code: order@[i as int], pressed: false }));
            i = i + 1;
        }
        assert(order@.subrange(0, order@.len() as int) =~= order@);
        self.keys.clear();
        assert(events@ == releases(order@));
        events
    }

    /// A key action's press: first every held key is released, then the
    /// action's keys are pressed in order and held.
    pub fn press(&mut self, keys: &Vec<u16>) -> (events: Vec<KeyEvent>)
        ensures
            final(self).set() == keys@.to_set(),
            releases_then(events@, old(self).set(), presses(keys@)),
    {
        let mut events = self.release_all();
        let ghost released = events@;
        let mut i: usize = 0;
        while i < keys.len()
            invariant
                i <= keys@.len(),
                self.set() == keys@.subrange(0, i as int).to_set(),
                events@ == released + presses(keys@.subrange(0, i as int)),
            decreases keys@.len() - i,
        {
            let k = keys[i];
            events.push(KeyEvent { code: k, pressed: true });
            self.insert(k);
            proof {
                assert(keys@.subrange(0, i + 1) =~= keys@.subrange(0, i as int).push(k));
                broadcast use vstd::seq_lib::group_seq_properties;
                assert(keys@.subrange(0, i as int).push(k).to_set() =~= keys@.subrange(0, i as int).to_set().insert(k));
                assert(presses(keys@.subrange(0, i + 1)) =~= presses(keys@.subrange(0, i as int)).push(KeyEvent { code: k, pressed: true }));
            }
            i = i + 1;
        }
        assert(keys@.subrange(0, keys@.len() as int) =~= keys@);
        proof {
            let n = events@.len();
            let m = presses(keys@).len();
            assert(events@.subrange(0, n - m) =~= released);
            assert(events@.subrange(n - m, n as int) =~= presses(keys@));
        }
        events
    }

    /// A key action's release: the action's keys are released in reverse
    /// order, whether held or not, and are no longer held.
    pub fn release(&mut self, keys: &Vec<u16>) -> (events: Vec<KeyEvent>)
        ensures
            final(self).set() == old(self).set().difference(keys@.to_set()),
            events@ == releases(keys@.reverse()),
    {
        let mut events: Vec<KeyEvent> = Vec::new();
        let n = keys.len();
        let mut i: usize = n;
        while i > 0
            invariant
                n == keys@.len(),
                i <= n,
                self.set() == old(self).set().difference(keys@.subrange(i as int, n as int).to_set()),
                events@ == releases(keys@.subrange(i as int, n as int).reverse()),
            decreases i,
        {
            let k = keys[i - 1];
            events.push(KeyEvent { code: k, pressed: false });
            self.remove(k);
            proof {
                let s0 = keys@.subrange(i as int, n as int);
                let s1 = keys@.subrange(i - 1, n as int);
                assert(s1 =~= seq![k] + s0);
                assert(s1.reverse() =~= s0.reverse().push(k));
                assert(releases(s1.reverse()) =~= releases(s0.reverse()).push(KeyEvent { code: k, pressed: false }));
                assert forall|m: u16| s1.to_set().contains(m) <==> (s0.to_set().contains(m) || m == k) by {
                    if s1.contains(m) {
                        let p = choose|p: int| 0 <= p < s1.len() && #[trigger] s1[p] == m;
                        if p > 0 {
                            assert(s0[p - 1] == m);
                        }
                    }
                    if s0.contains(m) {
                        let p = choose|p: int| 0 <= p < s0.len() && #[trigger] s0[p] == m;
                        assert(s1[p + 1] == m);
                    }
                    if m == k {
                        assert(s1[0] == m);
                    }
                }
                assert(self.set() =~= old(self).set().difference(s1.to_set()));
            }
            i = i - 1;
        }
        assert(keys@.subrange(0, n as int) =~= keys@);
        events
    }
}

/// Pressing an action's keys and then releasing them leaves no key held,
/// and every key pressed is released.
pub proof fn law_press_release_balanced(held: Set<u16>, keys: Seq<u16>)
    ensures
        keys.to_set().difference(keys.to_set()) == Set::<u16>::empty(),
        forall|i: int| 0 <= i < keys.len() ==> releases(keys.reverse()).contains(
            KeyEvent { code: #[trigger] keys[i], pressed: false },
        ),
{
    assert(keys.to_set().difference(keys.to_set()) =~= Set::<u16>::empty());
    assert forall|i: int| 0 <= i < keys.len() implies releases(keys.reverse()).contains(
        KeyEvent { code: #[trigger] keys[i], pressed: false },
    ) by {
        let j = keys.len() - 1 - i;
        assert(keys.reverse()[j] == keys[i]);
        assert(releases(keys.reverse())[j] == KeyEvent { code: keys[i], pressed: false });
    }
}

} // verus!

verus! {

/// How long a panel, back or command action waits, so that the press
/// highlight shows before the layer changes.
pub const ACTION_DELAY_MS: u64 = 150;

/// An action that runs once its time has come.
#[derive(Debug, Clone, PartialEq, Eq)]
pub struct PendingAction {
    pub action: Option<Action>,
    pub execution_ms: u64,
    pub widget_index: usize,
    pub child_index: Option<usize>,
    pub layer_index: usize,
}

/// What the caller carries out after an action: key events to send, whether
/// the panel shown changed, and a shell command to start.
#[derive(Debug, Clone, PartialEq, Eq)]
pub struct ActionOutcome {
    pub key_events: Vec<KeyEvent>,
    pub navigated: bool,
    pub command: Option<String>,
}

/// The widget a finger holds: layer, widget, and child within a container.
#[derive(Debug, Clone, Copy, PartialEq, Eq, Structural)]
pub struct TouchTarget {
    pub layer: usize,
    pub widget: usize,
    pub child: Option<usize>,
}

/// Touch slots and the widget each holds.
#[derive(Debug, Clone)]
pub struct TouchTable {
    pub entries: HashMap<u32, TouchTarget>,
}

impl TouchTable {
    /// The table as a map from slot to target.
    pub open spec fn map(self) -> Map<u32, TouchTarget> {
        self.entries@
    }

    /// No finger down.
    pub fn new() -> (t: TouchTable)
        ensures
            t.map() == Map::<u32, TouchTarget>::empty(),
    {
        TouchTable { entries: HashMap::new() }
    }

    /// The widget the finger in `slot` holds.
    pub fn get(&self, slot: u32) -> (r: Option<TouchTarget>)
        ensures
            r == (if self.map().contains_key(slot) { Some(self.map()[slot]) } else { None::<TouchTarget> }),
    {
        broadcast use vstd::std_specs::hash::group_hash_axioms;
        match self.entries.get(&slot) {
            Some(t) => Some(*t),
            None => None,
        }
    }

    /// Records that the finger in `slot` holds `target`, replacing what it held.
    pub fn insert(&mut self, slot: u32, target: TouchTarget)
        ensures
            final(self).map() == old(self).map().insert(slot, target),
    {
        broadcast use vstd::std_specs::hash::group_hash_axioms;
        self.entries.insert(slot, target);
    }

    /// Forgets the finger in `slot`; returns what it held.
    pub fn remove(&mut self, slot: u32) -> (r: Option<TouchTarget>)
        ensures
            final(self).map() == old(self).map().remove(slot),
            r == (if old(self).map().contains_key(slot) { Some(old(self).map()[slot]) } else { None::<TouchTarget> }),
    {
        broadcast use vstd::std_specs::hash::group_hash_axioms;
        self.entries.remove(&slot)
    }

    /// Forgets every finger.
    pub fn clear(&mut self)
        ensures
            final(self).map() == Map::<u32, TouchTarget>::empty(),
    {
        self.entries.clear();
    }

    /// Whether no finger is down.
    pub fn is_empty(&self) -> (b: bool)
        ensures
            b == (self.map() =~= Map::<u32, TouchTarget>::empty()),
    {
        let b = self.entries.is_empty();
        proof {
            if !b {
                let s = choose|s: u32| self.map().contains_key(s);
                assert(self.map().contains_key(s));
            }
        }
        b
    }
}

} // verus!

verus! {

/// The moment an action queued at `now` runs.
pub open spec fn due_time(now: u64) -> u64 {
    if now <= u64::MAX - ACTION_DELAY_MS { (now + ACTION_DELAY_MS) as u64 } else { u64::MAX }
}

/// What a widget under a finger is, as far as touches are concerned.
#[derive(Debug, Clone, Copy, PartialEq, Eq, Structural)]
pub struct WidgetFacts {
    pub is_slider: bool,
    pub dragging: bool,
    pub active: bool,
    pub live_update: bool,
}

/// What a touch asks of the widget it concerns.
#[derive(Debug, Clone, Copy, PartialEq, Eq, Structural)]
pub struct TouchResponse {
    /// The widget a finger is on, if any.
    pub target: Option<TouchTarget>,
    /// New dragging state of the slider.
    pub set_dragging: Option<bool>,
    /// Move the slider to the finger.
    pub slider_update: bool,
    /// Write the slider's value to the system now.
    pub slider_write: bool,
    /// Write the slider's value and stop dragging.
    pub slider_commit: bool,
    /// New pressed state of the widget.
    pub set_active: Option<bool>,
    /// Redraw the widget and, for a child, its container.
    pub mark_changed: bool,
    pub mark_parent_changed: bool,
    /// Run the widget's action with this pressed state.
    pub trigger: Option<bool>,
    /// Counts as interaction for the panel timeout.
    pub interaction: bool,
}

/// A response that asks nothing.
pub open spec fn quiet(target: Option<TouchTarget>) -> TouchResponse {
    TouchResponse {
        target,
        set_dragging: None,
        slider_update: false,
        slider_write: false,
        slider_commit: false,
        set_active: None,
        mark_changed: false,
        mark_parent_changed: false,
        trigger: None,
        interaction: false,
    }
}

/// A finger lands on `hit` (the widget the layout finds there, if any).
pub open spec fn spec_down(layer: usize, hit: Option<(usize, Option<usize>)>, facts: WidgetFacts) -> TouchResponse {
    match hit {
        None => quiet(None),
        Some((w, c)) => {
            let t = Some(TouchTarget { layer, widget: w, child: c });
            if facts.is_slider {
                TouchResponse {
                    set_dragging: Some(true),
                    slider_update: true,
                    set_active: Some(true),
                    interaction: true,
                    ..quiet(t)
                }
            } else if !facts.active {
                TouchResponse {
                    set_active: Some(true),
                    mark_changed: true,
                    mark_parent_changed: c.is_some(),
                    trigger: Some(true),
                    interaction: true,
                    ..quiet(t)
                }
            } else {
                TouchResponse { interaction: true, ..quiet(t) }
            }
        },
    }
}

/// Whether a moving finger is still on its widget: the layout's answer for
/// the widget it holds (`rehit`) names no other child of it.
pub open spec fn still_on(rehit: Option<(usize, Option<usize>)>, child: Option<usize>) -> bool {
    match rehit {
        None => true,
        Some((_, None)) => true,
        Some((_, Some(c))) => c == (match child { Some(x) => x, None => 0usize }),
    }
}

/// A finger that holds `t` moves.
pub open spec fn spec_motion(t: TouchTarget, facts: WidgetFacts, rehit: Option<(usize, Option<usize>)>) -> TouchResponse {
    if facts.dragging {
        TouchResponse {
            slider_update: true,
            slider_write: facts.live_update,
            interaction: true,
            ..quiet(Some(t))
        }
    } else {
        let on = still_on(rehit, t.child);
        if facts.active != on {
            TouchResponse {
                set_active: Some(on),
                mark_changed: true,
                mark_parent_changed: t.child.is_some(),
                trigger: Some(on),
                interaction: true,
                ..quiet(Some(t))
            }
        } else {
            TouchResponse { interaction: true, ..quiet(Some(t)) }
        }
    }
}

/// A finger that holds `t` lifts.
pub open spec fn spec_up(t: TouchTarget, facts: WidgetFacts) -> TouchResponse {
    if facts.dragging {
        TouchResponse {
            slider_commit: true,
            set_active: Some(false),
            interaction: true,
            ..quiet(Some(t))
        }
    } else if facts.active {
        TouchResponse {
            set_active: Some(false),
            mark_changed: true,
            mark_parent_changed: t.child.is_some(),
            trigger: Some(false),
            interaction: true,
            ..quiet(Some(t))
        }
    } else {
        TouchResponse { interaction: true, ..quiet(Some(t)) }
    }
}

/// The interaction state of the user session: panels, fingers, held keys,
/// queued actions, the layer shown and whether it needs a full redraw.
pub struct Controller {
    pub navigation: NavigationState,
    pub touches: TouchTable,
    pub held: HeldKeys,
    pub pending: Vec<PendingAction>,
    pub active_layer: usize,
    pub needs_complete_redraw: bool,
}

impl Controller {
    /// On the main layer, nothing touched, nothing held or queued, a full
    /// redraw due.
    pub fn new(now: u64) -> (c: Controller)
        ensures
            c.navigation.stack().len() == 0,
            c.navigation.current().is_none(),
            c.touches.map() == Map::<u32, TouchTarget>::empty(),
            c.held.set() == Set::<u16>::empty(),
            c.pending@.len() == 0,
            c.active_layer == 0,
            c.needs_complete_redraw,
    {
        Controller {
            navigation: NavigationState::new(now),
            touches: TouchTable::new(),
            held: HeldKeys::new(),
            pending: Vec::new(),
            active_layer: 0,
            needs_complete_redraw: true,
        }
    }

    /// Runs or queues a widget's action. Key actions press on touch and
    /// release on lift. Panel, back and command actions run on touch only: a
    /// widget's action is queued to run `ACTION_DELAY_MS` later; one without a
    /// widget runs now.
    pub fn handle_widget_action(
        &mut self,
        action: &Option<Action>,
        active: bool,
        widget_index: Option<usize>,
        child_index: Option<usize>,
        now: u64,
    ) -> (out: ActionOutcome)
        ensures
            final(self).touches == old(self).touches,
            final(self).active_layer == old(self).active_layer,
            final(self).needs_complete_redraw == old(self).needs_complete_redraw,
            match action {
                None => {
                    &&& out.key_events@.len() == 0 && !out.navigated && out.command.is_none()
                    &&& final(self).held == old(self).held
                    &&& final(self).pending@ == old(self).pending@
                    &&& final(self).navigation == old(self).navigation
                },
                Some(Action::Key(keys)) => {
                    &&& !out.navigated && out.command.is_none()
                    &&& final(self).pending@ == old(self).pending@
                    &&& final(self).navigation == old(self).navigation
                    &&& active ==> final(self).held.set() == keys@.to_set()
                        && releases_then(out.key_events@, old(self).held.set(), presses(keys@))
                    &&& !active ==> final(self).held.set() == old(self).held.set().difference(keys@.to_set())
                        && out.key_events@ == releases(keys@.reverse())
                },
                Some(a) => {
                    &&& out.key_events@.len() == 0
                    &&& final(self).held == old(self).held
                    &&& !active ==> !out.navigated && out.command.is_none()
                        && final(self).pending@ == old(self).pending@
                        && final(self).navigation == old(self).navigation
                    &&& active && widget_index.is_some() ==> !out.navigated && out.command.is_none()
                        && final(self).navigation == old(self).navigation
                        && final(self).pending@ == old(self).pending@.push(PendingAction {
                            action: Some(*a),
                            execution_ms: due_time(now),
                            widget_index: widget_index.unwrap(),
                            child_index,
                            layer_index: 0,
                        })
                    &&& active && widget_index.is_none() ==> final(self).pending@ == old(self).pending@
                        && match a {
                            Action::Back => {
                                let (s, c, moved) = pop_view(old(self).navigation.stack(), old(self).navigation.current());
                                &&& out.navigated == moved && out.command.is_none()
                                &&& final(self).navigation.stack() == s
                                &&& final(self).navigation.current() == c
                            },
                            Action::Panel(p) => {
                                let (s, c) = push_view(old(self).navigation.stack(), old(self).navigation.current(), p@);
                                &&& out.navigated && out.command.is_none()
                                &&& final(self).navigation.stack() == s
                                &&& final(self).navigation.current() == c
                            },
                            Action::Exec(cmd) => {
                                &&& !out.navigated && out.command == Some(*cmd)
                                &&& final(self).navigation == old(self).navigation
                            },
                            Action::Key(_) => true,
                        }
                },
            },
    {
        let none = ActionOutcome { key_events: Vec::new(), navigated: false, command: None };
        match action {
            None => none,
            Some(Action::Key(keys)) => {
                let events = if active {
                    self.held.press(keys)
                } else {
                    self.held.release(keys)
                };
                ActionOutcome { key_events: events, navigated: false, command: None }
            },
            Some(a) => {
                if !active {
                    return none;
                }
                match widget_index {
                    Some(widx) => {
                        let due: u64 = if now <= u64::MAX - ACTION_DELAY_MS { now + ACTION_DELAY_MS } else { u64::MAX };
                        self.pending.push(PendingAction {
                            action: Some(a.clone()),
                            execution_ms: due,
                            widget_index: widx,
                            child_index,
                            layer_index: 0,
                        });
                        none
                    },
                    None => match a {
                        Action::Back => {
                            let moved = self.navigation.pop_panel(now);
                            ActionOutcome { key_events: Vec::new(), navigated: moved, command: None }
                        },
                        Action::Panel(p) => {
                            self.navigation.push_panel(p.clone(), now);
                            ActionOutcome { key_events: Vec::new(), navigated: true, command: None }
                        },
                        Action::Exec(cmd) => ActionOutcome { key_events: Vec::new(), navigated: false, command: Some(cmd.clone()) },
                        Action::Key(_) => none,
                    },
                }
            },
        }
    }
}

} // verus!

verus! {

/// The actions whose time has come, in queue order.
pub open spec fn expired(q: Seq<PendingAction>, now: u64) -> Seq<PendingAction> {
    q.filter(|p: PendingAction| now >= p.execution_ms)
}

/// The actions still waiting, in queue order.
pub open spec fn waiting(q: Seq<PendingAction>, now: u64) -> Seq<PendingAction> {
    q.filter(|p: PendingAction| now < p.execution_ms)
}

impl Controller {
    /// A finger lands. `hit` is the widget the layout finds under it and
    /// `facts` describe that widget. The finger is recorded as holding it.
    pub fn touch_down(&mut self, slot: u32, hit: Option<(usize, Option<usize>)>, facts: WidgetFacts) -> (r: TouchResponse)
        ensures
            r == spec_down(old(self).active_layer, hit, facts),
            final(self).touches.map() == (match r.target {
                Some(t) => old(self).touches.map().insert(slot, t),
                None => old(self).touches.map(),
            }),
            final(self).held == old(self).held,
            final(self).pending == old(self).pending,
            final(self).navigation == old(self).navigation,
            final(self).active_layer == old(self).active_layer,
            final(self).needs_complete_redraw == old(self).needs_complete_redraw,
    {
        let layer = self.active_layer;
        let q = TouchResponse {
            target: None,
            set_dragging: None,
            slider_update: false,
            slider_write: false,
            slider_commit: false,
            set_active: None,
            mark_changed: false,
            mark_parent_changed: false,
            trigger: None,
            interaction: false,
        };
        match hit {
            None => q,
            Some((w, c)) => {
                let t = TouchTarget { layer, widget: w, child: c };
                self.touches.insert(slot, t);
                if facts.is_slider {
                    TouchResponse {
                        target: Some(t),
                        set_dragging: Some(true),
                        slider_update: true,
                        set_active: Some(true),
                        interaction: true,
                        ..q
                    }
                } else if !facts.active {
                    TouchResponse {
                        target: Some(t),
                        set_active: Some(true),
                        mark_changed: true,
                        mark_parent_changed: c.is_some(),
                        trigger: Some(true),
                        interaction: true,
                        ..q
                    }
                } else {
                    TouchResponse { target: Some(t), interaction: true, ..q }
                }
            },
        }
    }

    /// A finger moves. `facts` describe the widget it holds and `rehit` is
    /// the layout's answer for that widget at the new position. A finger that
    /// holds nothing asks nothing.
    pub fn touch_motion(&mut self, slot: u32, facts: WidgetFacts, rehit: Option<(usize, Option<usize>)>) -> (r: TouchResponse)
        ensures
            *final(self) == *old(self),
            r == (if old(self).touches.map().contains_key(slot) {
                spec_motion(old(self).touches.map()[slot], facts, rehit)
            } else {
                quiet(None)
            }),
    {
        let q = TouchResponse {
            target: None,
            set_dragging: None,
            slider_update: false,
            slider_write: false,
            slider_commit: false,
            set_active: None,
            mark_changed: false,
            mark_parent_changed: false,
            trigger: None,
            interaction: false,
        };
        match self.touches.get(slot) {
            None => q,
            Some(t) => {
                if facts.dragging {
                    TouchResponse {
                        target: Some(t),
                        slider_update: true,
                        slider_write: facts.live_update,
                        interaction: true,
                        ..q
                    }
                } else {
                    let on = match rehit {
                        None => true,
                        Some((_, None)) => true,
                        Some((_, Some(c))) => c == (match t.child {
                            Some(x) => x,
                            None => 0,
                        }),
                    };
                    if facts.active != on {
                        TouchResponse {
                            target: Some(t),
                            set_active: Some(on),
                            mark_changed: true,
                            mark_parent_changed: t.child.is_some(),
                            trigger: Some(on),
                            interaction: true,
                            ..q
                        }
                    } else {
                        TouchResponse { target: Some(t), interaction: true, ..q }
                    }
                }
            },
        }
    }

    /// A finger lifts; it no longer holds anything. `facts` describe the
    /// widget it held.
    pub fn touch_up(&mut self, slot: u32, facts: WidgetFacts) -> (r: TouchResponse)
        ensures
            final(self).touches.map() == old(self).touches.map().remove(slot),
            r == (if old(self).touches.map().contains_key(slot) {
                spec_up(old(self).touches.map()[slot], facts)
            } else {
                quiet(None)
            }),
            final(self).held == old(self).held,
            final(self).pending == old(self).pending,
            final(self).navigation == old(self).navigation,
            final(self).active_layer == old(self).active_layer,
            final(self).needs_complete_redraw == old(self).needs_complete_redraw,
    {
        let q = TouchResponse {
            target: None,
            set_dragging: None,
            slider_update: false,
            slider_write: false,
            slider_commit: false,
            set_active: None,
            mark_changed: false,
            mark_parent_changed: false,
            trigger: None,
            interaction: false,
        };
        match self.touches.remove(slot) {
            None => q,
            Some(t) => {
                if facts.dragging {
                    TouchResponse {
                        target: Some(t),
                        slider_commit: true,
                        set_active: Some(false),
                        interaction: true,
                        ..q
                    }
                } else if facts.active {
                    TouchResponse {
                        target: Some(t),
                        set_active: Some(false),
                        mark_changed: true,
                        mark_parent_changed: t.child.is_some(),
                        trigger: Some(false),
                        interaction: true,
                        ..q
                    }
                } else {
                    TouchResponse { target: Some(t), interaction: true, ..q }
                }
            },
        }
    }

    /// Takes the queued actions whose time has come, in queue order; the
    /// others stay queued in order.
    pub fn take_expired_pending(&mut self, now: u64) -> (due: Vec<PendingAction>)
        ensures
            due@ == expired(old(self).pending@, now),
            final(self).pending@ == waiting(old(self).pending@, now),
            final(self).touches == old(self).touches,
            final(self).held == old(self).held,
            final(self).navigation == old(self).navigation,
            final(self).active_layer == old(self).active_layer,
            final(self).needs_complete_redraw == old(self).needs_complete_redraw,
    {
        let ghost q = self.pending@;
        let mut src: Vec<PendingAction> = Vec::new();
        std::mem::swap(&mut src, &mut self.pending);
        let mut due: Vec<PendingAction> = Vec::new();
        let mut rest: Vec<PendingAction> = Vec::new();
        let ghost mut k: int = 0;
        while src.len() > 0
            invariant
                0 <= k <= q.len(),
                src@ == q.subrange(k, q.len() as int),
                due@ == expired(q.subrange(0, k), now),
                rest@ == waiting(q.subrange(0, k), now),
                self.touches == old(self).touches,
                self.held == old(self).held,
                self.navigation == old(self).navigation,
                self.active_layer == old(self).active_layer,
                self.needs_complete_redraw == old(self).needs_complete_redraw,
            decreases src@.len(),
        {
            let p = src.remove(0);
            proof {
                assert(p == q[k]);
                assert(q.subrange(0, k + 1).drop_last() =~= q.subrange(0, k));
                assert(q.subrange(0, k + 1).last() == p);
                reveal_with_fuel(Seq::filter, 1);
            }
            if now >= p.execution_ms {
                due.push(p);
            } else {
                rest.push(p);
            }
            proof {
                k = k + 1;
                assert(src@ =~= q.subrange(k, q.len() as int));
            }
        }
        assert(q.subrange(0, q.len() as int) =~= q);
        self.pending = rest;
        due
    }

    /// Runs a queued action: back goes back one panel, a panel opens, a
    /// command is handed out to start.
    pub fn run_pending(&mut self, pa: &PendingAction, now: u64) -> (out: ActionOutcome)
        ensures
            out.key_events@.len() == 0,
            final(self).touches == old(self).touches,
            final(self).held == old(self).held,
            final(self).pending == old(self).pending,
            final(self).active_layer == old(self).active_layer,
            final(self).needs_complete_redraw == old(self).needs_complete_redraw,
            match pa.action {
                Some(Action::Back) => {
                    let (s, c, moved) = pop_view(old(self).navigation.stack(), old(self).navigation.current());
                    &&& out.navigated == moved && out.command.is_none()
                    &&& final(self).navigation.stack() == s
                    &&& final(self).navigation.current() == c
                },
                Some(Action::Panel(p)) => {
                    let (s, c) = push_view(old(self).navigation.stack(), old(self).navigation.current(), p@);
                    &&& out.navigated && out.command.is_none()
                    &&& final(self).navigation.stack() == s
                    &&& final(self).navigation.current() == c
                },
                Some(Action::Exec(cmd)) => {
                    &&& !out.navigated && out.command == Some(cmd)
                    &&& final(self).navigation == old(self).navigation
                },
                _ => {
                    &&& !out.navigated && out.command.is_none()
                    &&& final(self).navigation == old(self).navigation
                },
            },
    {
        match &pa.action {
            Some(Action::Back) => {
                let moved = self.navigation.pop_panel(now);
                ActionOutcome { key_events: Vec::new(), navigated: moved, command: None }
            },
            Some(Action::Panel(p)) => {
                self.navigation.push_panel(p.clone(), now);
                ActionOutcome { key_events: Vec::new(), navigated: true, command: None }
            },
            Some(Action::Exec(cmd)) => ActionOutcome { key_events: Vec::new(), navigated: false, command: Some(cmd.clone()) },
            _ => ActionOutcome { key_events: Vec::new(), navigated: false, command: None },
        }
    }

    /// Shows the function-key layer while Fn is held, the main layer
    /// otherwise. A switch asks for a full redraw and lets go of every
    /// finger; returns whether the layer changed.
    pub fn select_layer(&mut self, fn_pressed: bool) -> (switched: bool)
        ensures
            final(self).active_layer == (if fn_pressed { 1usize } else { 0usize }),
            switched == (old(self).active_layer != final(self).active_layer),
            switched ==> final(self).needs_complete_redraw && final(self).touches.map() == Map::<u32, TouchTarget>::empty(),
            !switched ==> final(self).needs_complete_redraw == old(self).needs_complete_redraw
                && final(self).touches == old(self).touches,
            final(self).held == old(self).held,
            final(self).pending == old(self).pending,
            final(self).navigation == old(self).navigation,
    {
        let desired: usize = if fn_pressed { 1 } else { 0 };
        if self.active_layer != desired {
            self.active_layer = desired;
            self.needs_complete_redraw = true;
            self.touches.clear();
            true
        } else {
            false
        }
    }

    /// Lets go of every finger and releases every held key; the caller
    /// clears the widgets' pressed and dragging states and sends the events.
    pub fn drop_touches(&mut self) -> (events: Vec<KeyEvent>)
        ensures
            final(self).touches.map() == Map::<u32, TouchTarget>::empty(),
            final(self).held.set() == Set::<u16>::empty(),
            releases_all(events@, old(self).held.set()),
            final(self).pending == old(self).pending,
            final(self).navigation == old(self).navigation,
            final(self).active_layer == old(self).active_layer,
            final(self).needs_complete_redraw == old(self).needs_complete_redraw,
    {
        self.touches.clear();
        self.held.release_all()
    }

    /// A new configuration is in force: back to the main layer with nothing
    /// touched, held or queued, and a full redraw. Returns the key releases
    /// to send.
    pub fn reload(&mut self, now: u64) -> (events: Vec<KeyEvent>)
        ensures
            final(self).active_layer == 0,
            final(self).navigation.stack().len() == 0,
            final(self).navigation.current().is_none(),
            final(self).navigation.last_interaction_ms == now,
            final(self).touches.map() == Map::<u32, TouchTarget>::empty(),
            final(self).held.set() == Set::<u16>::empty(),
            releases_all(events@, old(self).held.set()),
            final(self).pending@.len() == 0,
            final(self).needs_complete_redraw,
    {
        self.active_layer = 0;
        self.navigation.reset_to_main(now);
        let events = self.drop_touches();
        self.pending = Vec::new();
        self.needs_complete_redraw = true;
        events
    }

    /// An idle panel returns to the main layer: with a full redraw, every
    /// finger let go and every key released. Returns the key events, or
    /// `None` if the panel is not idle long enough.
    pub fn check_panel_timeout(&mut self, timeout_seconds: u32, now: u64) -> (r: Option<Vec<KeyEvent>>)
        ensures
            ({
                let idle = timeout_seconds > 0 && old(self).navigation.current().is_some()
                    && (if now >= old(self).navigation.last_interaction_ms {
                        (now - old(self).navigation.last_interaction_ms) / 1000
                    } else {
                        0
                    }) >= timeout_seconds;
                &&& idle ==> {
                    &&& (r matches Some(ev) && releases_all(ev@, old(self).held.set()))
                    &&& final(self).navigation.stack().len() == 0
                    &&& final(self).navigation.current().is_none()
                    &&& final(self).needs_complete_redraw
                    &&& final(self).touches.map() == Map::<u32, TouchTarget>::empty()
                    &&& final(self).held.set() == Set::<u16>::empty()
                }
                &&& !idle ==> r.is_none() && *final(self) == *old(self)
            }),
    {
        if self.navigation.current_panel.is_some() && self.navigation.should_timeout(timeout_seconds, now) {
            self.navigation.reset_to_main(now);
            self.needs_complete_redraw = true;
            let ev = self.drop_touches();
            Some(ev)
        } else {
            None
        }
    }
}

/// Every queued action is either taken or stays queued, and none twice.
pub proof fn law_pending_split_conserves(q: Seq<PendingAction>, now: u64)
    ensures
        expired(q, now).len() + waiting(q, now).len() == q.len(),
        forall|i: int| 0 <= i < expired(q, now).len() ==> now >= #[trigger] expired(q, now)[i].execution_ms,
        forall|i: int| 0 <= i < waiting(q, now).len() ==> now < #[trigger] waiting(q, now)[i].execution_ms,
    decreases q.len(),
{
    reveal_with_fuel(Seq::filter, 1);
    if q.len() > 0 {
        law_pending_split_conserves(q.drop_last(), now);
    }
    assert forall|i: int| 0 <= i < expired(q, now).len() implies now >= #[trigger] expired(q, now)[i].execution_ms by {
        q.lemma_filter_pred(|p: PendingAction| now >= p.execution_ms, i);
    }
    assert forall|i: int| 0 <= i < waiting(q, now).len() implies now < #[trigger] waiting(q, now)[i].execution_ms by {
        q.lemma_filter_pred(|p: PendingAction| now < p.execution_ms, i);
    }
}

/// A finger that lands on a button and lifts presses the button and then
/// releases it: the action runs pressed, then released, and the finger is
/// forgotten.
pub proof fn law_tap_presses_then_releases(
    layer: usize,
    w: usize,
    c: Option<usize>,
    table: Map<u32, TouchTarget>,
    slot: u32,
)
    ensures
        ({
            let down = spec_down(layer, Some((w, c)), WidgetFacts { is_slider: false, dragging: false, active: false, live_update: false });
            let t = down.target.unwrap();
            let up = spec_up(t, WidgetFacts { is_slider: false, dragging: false, active: true, live_update: false });
            &&& down.trigger == Some(true) && down.set_active == Some(true)
            &&& up.trigger == Some(false) && up.set_active == Some(false)
            &&& table.insert(slot, t).remove(slot) == table.remove(slot)
        }),
{
    let t = TouchTarget { layer, widget: w, child: c };
    assert(table.insert(slot, t).remove(slot) =~= table.remove(slot));
}

/// A finger that presses a widget and moves while the layout still finds it
/// on that widget (on no child of it, on the child it pressed, or nowhere
/// the layout can tell) leaves the widget pressed: its state is not changed
/// and its action is not run again. Once the layout finds it on another child,
/// the widget is released and its action runs released; a finger that comes
/// back presses it again.
pub proof fn law_motion_keeps_press_while_on(t: TouchTarget, facts: WidgetFacts, rehit: Option<(usize, Option<usize>)>)
    requires
        !facts.dragging,
    ensures
        ({
            let pressed = WidgetFacts { active: true, ..facts };
            let released = WidgetFacts { active: false, ..facts };
            let same_place = match rehit {
                None => true,
                Some((_, None)) => true,
                Some((_, Some(c))) => t.child == Some(c) || (t.child.is_none() && c == 0),
            };
            &&& same_place ==> spec_motion(t, pressed, rehit).set_active.is_none()
                && spec_motion(t, pressed, rehit).trigger.is_none()
                && !spec_motion(t, pressed, rehit).mark_changed
            &&& !same_place ==> spec_motion(t, pressed, rehit).set_active == Some(false)
                && spec_motion(t, pressed, rehit).trigger == Some(false)
            &&& same_place ==> spec_motion(t, released, rehit).set_active == Some(true)
                && spec_motion(t, released, rehit).trigger == Some(true)
            &&& !same_place ==> spec_motion(t, released, rehit).set_active.is_none()
                && spec_motion(t, released, rehit).trigger.is_none()
            &&& spec_motion(t, pressed, rehit).target == Some(t)
            &&& spec_motion(t, released, rehit).target == Some(t)
        }),
{
}

/// A finger taps a plain button and slides on it: the press from landing
/// stays, and the slide neither releases the button nor runs its action again.
pub proof fn law_slide_on_button_keeps_press(layer: usize, w: usize, live: bool)
    ensures
        ({
            let down = spec_down(layer, Some((w, None)), WidgetFacts { is_slider: false, dragging: false, active: false, live_update: live });
            let t = down.target.unwrap();
            let mv = spec_motion(t, WidgetFacts { is_slider: false, dragging: false, active: true, live_update: live }, Some((w, None)));
            &&& down.set_active == Some(true) && down.trigger == Some(true)
            &&& mv.set_active.is_none() && mv.trigger.is_none()
        }),
{
}

/// A finger that lands on a slider drags it until it lifts, when the value
/// is written and the slider lets go.
pub proof fn law_slider_drag_commits(layer: usize, w: usize, c: Option<usize>, live: bool)
    ensures
        ({
            let down = spec_down(layer, Some((w, c)), WidgetFacts { is_slider: true, dragging: false, active: false, live_update: live });
            let t = down.target.unwrap();
            let mv = spec_motion(t, WidgetFacts { is_slider: true, dragging: true, active: true, live_update: live }, None);
            let up = spec_up(t, WidgetFacts { is_slider: true, dragging: true, active: true, live_update: live });
            &&& down.set_dragging == Some(true) && down.slider_update && down.trigger.is_none()
            &&& mv.slider_update && mv.slider_write == live && mv.trigger.is_none()
            &&& up.slider_commit && up.set_active == Some(false) && up.trigger.is_none()
        }),
{
}

} // verus!

verus! {

/// The hardware daemon's fingers: while a desktop session draws the bar,
/// touches are passed on to it; without one, the daemon's own function-key
/// row answers them.
pub struct HardwareTouches {
    pub touches: TouchTable,
}

impl HardwareTouches {
    /// No finger down.
    pub fn new() -> (h: HardwareTouches)
        ensures
            h.touches.map() == Map::<u32, TouchTarget>::empty(),
    {
        HardwareTouches { touches: TouchTable::new() }
    }

    /// A finger lands while the session draws: it is remembered and passed on.
    pub fn forward_down(&mut self, slot: u32)
        ensures
            final(self).touches.map() == old(self).touches.map().insert(slot, TouchTarget { layer: 0, widget: 0, child: None }),
    {
        self.touches.insert(slot, TouchTarget { layer: 0, widget: 0, child: None });
    }

    /// A finger moves while the session draws: passed on if it landed.
    pub fn forward_motion(&self, slot: u32) -> (pass: bool)
        ensures
            pass == self.touches.map().contains_key(slot),
    {
        self.touches.get(slot).is_some()
    }

    /// A finger lifts while the session draws: passed on if it landed, and forgotten.
    pub fn forward_up(&mut self, slot: u32) -> (pass: bool)
        ensures
            final(self).touches.map() == old(self).touches.map().remove(slot),
            pass == old(self).touches.map().contains_key(slot),
    {
        self.touches.remove(slot).is_some()
    }

    /// A finger lands on the daemon's own row at button `hit` (if any): the
    /// finger holds the button, and the button's key (if it has one) is pressed.
    pub fn fallback_down(&mut self, slot: u32, hit: Option<usize>, keys: &Vec<u16>) -> (press: Option<u16>)
        ensures
            match hit {
                Some(w) => {
                    &&& final(self).touches.map() == old(self).touches.map().insert(slot, TouchTarget { layer: 0, widget: w, child: None })
                    &&& press == (if w < keys@.len() { Some(keys@[w as int]) } else { None::<u16> })
                },
                None => final(self).touches.map() == old(self).touches.map() && press.is_none(),
            },
    {
        match hit {
            Some(w) => {
                self.touches.insert(slot, TouchTarget { layer: 0, widget: w, child: None });
                if w < keys.len() {
                    Some(keys[w])
                } else {
                    None
                }
            },
            None => None,
        }
    }

    /// A finger lifts from the daemon's own row: the key of the button it
    /// held (if any) is released, and the finger forgotten.
    pub fn fallback_up(&mut self, slot: u32, keys: &Vec<u16>) -> (release: Option<u16>)
        ensures
            final(self).touches.map() == old(self).touches.map().remove(slot),
            release == (if old(self).touches.map().contains_key(slot) && old(self).touches.map()[slot].widget < keys@.len() {
                Some(keys@[old(self).touches.map()[slot].widget as int])
            } else {
                None::<u16>
            }),
    {
        match self.touches.remove(slot) {
            Some(t) => {
                if t.widget < keys.len() {
                    Some(keys[t.widget])
                } else {
                    None
                }
            },
            None => None,
        }
    }
}

/// A tap on the daemon's own row presses a key and releases the same key.
pub proof fn law_fallback_tap_balanced(table: Map<u32, TouchTarget>, slot: u32, w: usize, keys: Seq<u16>)
    requires
        w < keys.len(),
    ensures
        ({
            let t = table.insert(slot, TouchTarget { layer: 0, widget: w, child: None });
            &&& t.contains_key(slot)
            &&& keys[t[slot].widget as int] == keys[w as int]
            &&& t.remove(slot) == table.remove(slot)
        }),
{
    assert(table.insert(slot, TouchTarget { layer: 0, widget: w, child: None }).remove(slot) =~= table.remove(slot));
}

/// The minutes at which the clock and the battery widgets were last redrawn.
pub struct MinuteTracker {
    pub last_redraw_minute: u32,
    pub last_battery_minute: u32,
}

impl MinuteTracker {
    /// Both last seen at the wall clock's current minute.
    pub fn new() -> (m: MinuteTracker)
        ensures
            m.last_redraw_minute < 60,
            m.last_battery_minute == m.last_redraw_minute,
    {
        let minute = crate::system_monitor::wall_clock_minute();
        MinuteTracker { last_redraw_minute: minute, last_battery_minute: minute }
    }

    /// The minute reads `minute`: returns whether the layer needs a full
    /// redraw (it shows a clock and the minute changed) and whether its
    /// battery widgets need one (it shows a battery and the minute changed).
    pub fn observe(&mut self, minute: u32, displays_time: bool, displays_battery: bool) -> (r: (bool, bool))
        ensures
            r.0 == (displays_time && minute != old(self).last_redraw_minute),
            r.1 == (displays_battery && minute != old(self).last_battery_minute),
            final(self).last_redraw_minute == (if r.0 { minute } else { old(self).last_redraw_minute }),
            final(self).last_battery_minute == (if r.1 { minute } else { old(self).last_battery_minute }),
    {
        let redraw = displays_time && minute != self.last_redraw_minute;
        if redraw {
            self.last_redraw_minute = minute;
        }
        let battery = displays_battery && minute != self.last_battery_minute;
        if battery {
            self.last_battery_minute = minute;
        }
        (redraw, battery)
    }
}

/// Whether the desktop session's renderer is on the bus.
pub struct SessionPresence {
    pub connected: bool,
}

impl SessionPresence {
    /// The answer of the latest bus check: returns the new state when it
    /// changed (the bar then needs a full redraw; on a disconnect the
    /// daemon's own row is rebuilt), else `None`.
    pub fn observe(&mut self, connected: bool) -> (changed: Option<bool>)
        ensures
            final(self).connected == connected,
            changed == (if connected != old(self).connected { Some(connected) } else { None::<bool> }),
    {
        if connected != self.connected {
            self.connected = connected;
            Some(connected)
        } else {
            None
        }
    }
}

} // verus!
