use ktouchbar::config::Action;
use ktouchbar::interaction::{
    Controller, HardwareTouches, HeldKeys, KeyEvent, MinuteTracker, PendingAction,
    SessionPresence, TouchTable, TouchTarget, WidgetFacts, ACTION_DELAY_MS,
};

fn ev(code: u16, pressed: bool) -> KeyEvent {
    KeyEvent { code, pressed }
}

const BUTTON: WidgetFacts = WidgetFacts { is_slider: false, dragging: false, active: false, live_update: false };
const PRESSED: WidgetFacts = WidgetFacts { is_slider: false, dragging: false, active: true, live_update: false };

#[test]
fn key_combo_press_then_release_leaves_nothing_held() {
    let mut held = HeldKeys::new();
    let keys = vec![29u16, 42, 20];
    let down = held.press(&keys);
    assert_eq!(down, vec![ev(29, true), ev(42, true), ev(20, true)]);
    assert!(held.holds(29) && held.holds(42) && held.holds(20));
    let up = held.release(&keys);
    assert_eq!(up, vec![ev(20, false), ev(42, false), ev(29, false)]);
    assert!(held.keys.is_empty());
}

#[test]
fn pressing_releases_what_was_held_first() {
    let mut held = HeldKeys::new();
    held.press(&vec![59u16]);
    let events = held.press(&vec![60u16, 60]);
    assert_eq!(events, vec![ev(59, false), ev(60, true), ev(60, true)]);
    assert!(held.holds(60) && !held.holds(59));
    assert_eq!(held.keys.len(), 1);
    assert_eq!(held.release_all(), vec![ev(60, false)]);
    assert!(held.release_all().is_empty());
}

#[test]
fn touch_table_map_semantics() {
    let mut t = TouchTable::new();
    let a = TouchTarget { layer: 0, widget: 1, child: None };
    let b = TouchTarget { layer: 1, widget: 2, child: Some(0) };
    t.insert(3, a);
    t.insert(4, b);
    t.insert(3, b);
    assert_eq!(t.get(3), Some(b));
    assert_eq!(t.remove(4), Some(b));
    assert_eq!(t.remove(4), None);
    assert!(!t.is_empty());
    t.clear();
    assert!(t.is_empty());
}

#[test]
fn tap_on_key_button() {
    let mut c = Controller::new(0);
    let down = c.touch_down(1, Some((2, None)), BUTTON);
    assert_eq!(down.set_active, Some(true));
    assert_eq!(down.trigger, Some(true));
    assert!(down.mark_changed && !down.mark_parent_changed);
    let action = Some(Action::Key(vec![59]));
    let out = c.handle_widget_action(&action, true, Some(2), None, 10);
    assert_eq!(out.key_events, vec![ev(59, true)]);
    let up = c.touch_up(1, PRESSED);
    assert_eq!(up.trigger, Some(false));
    assert_eq!(up.set_active, Some(false));
    let out = c.handle_widget_action(&action, false, Some(2), None, 20);
    assert_eq!(out.key_events, vec![ev(59, false)]);
    assert!(c.held.keys.is_empty());
    assert!(c.touches.is_empty());
}

#[test]
fn touch_on_nothing_is_ignored() {
    let mut c = Controller::new(0);
    let r = c.touch_down(1, None, BUTTON);
    assert_eq!(r.target, None);
    assert!(!r.interaction);
    assert!(c.touches.is_empty());
    let m = c.touch_motion(9, BUTTON, None);
    assert_eq!(m.target, None);
    let u = c.touch_up(9, BUTTON);
    assert_eq!(u.target, None);
}

#[test]
fn child_of_container_marks_parent() {
    let mut c = Controller::new(0);
    let r = c.touch_down(1, Some((0, Some(3))), BUTTON);
    assert!(r.mark_parent_changed);
    assert_eq!(r.target, Some(TouchTarget { layer: 0, widget: 0, child: Some(3) }));
}

#[test]
fn sliding_off_a_button_releases_it() {
    let mut c = Controller::new(0);
    c.touch_down(1, Some((0, Some(1))), BUTTON);
    let off = c.touch_motion(1, PRESSED, Some((0, Some(2))));
    assert_eq!(off.set_active, Some(false));
    assert_eq!(off.trigger, Some(false));
    let back_on = c.touch_motion(1, BUTTON, Some((0, Some(1))));
    assert_eq!(back_on.set_active, Some(true));
    let outside_vertically = c.touch_motion(1, PRESSED, None);
    assert_eq!(outside_vertically.set_active, None);
    assert!(outside_vertically.interaction);
}

#[test]
fn slider_drag() {
    let mut c = Controller::new(0);
    let slider = WidgetFacts { is_slider: true, dragging: false, active: false, live_update: true };
    let d = c.touch_down(5, Some((1, None)), slider);
    assert_eq!(d.set_dragging, Some(true));
    assert!(d.slider_update);
    assert_eq!(d.trigger, None);
    let dragging = WidgetFacts { dragging: true, active: true, ..slider };
    let m = c.touch_motion(5, dragging, None);
    assert!(m.slider_update && m.slider_write);
    let u = c.touch_up(5, dragging);
    assert!(u.slider_commit);
    assert_eq!(u.set_active, Some(false));
}

#[test]
fn panel_actions_wait_then_navigate() {
    let mut c = Controller::new(0);
    let action = Some(Action::Panel("media".to_string()));
    let out = c.handle_widget_action(&action, true, Some(1), None, 1000);
    assert!(!out.navigated);
    assert_eq!(c.pending.len(), 1);
    assert_eq!(c.pending[0].execution_ms, 1000 + ACTION_DELAY_MS);
    assert!(c.take_expired_pending(1100).is_empty());
    let due = c.take_expired_pending(1150);
    assert_eq!(due.len(), 1);
    assert!(c.pending.is_empty());
    let out = c.run_pending(&due[0], 1150);
    assert!(out.navigated);
    assert_eq!(c.navigation.current_panel, Some("media".to_string()));
    let back = PendingAction { action: Some(Action::Back), execution_ms: 0, widget_index: 0, child_index: None, layer_index: 0 };
    assert!(c.run_pending(&back, 1200).navigated);
    assert_eq!(c.navigation.current_panel, None);
    assert!(!c.run_pending(&back, 1300).navigated);
}

#[test]
fn pending_split_keeps_order() {
    let mut c = Controller::new(0);
    for (i, t) in [(0usize, 10u64), (1, 30), (2, 20), (3, 40)] {
        c.pending.push(PendingAction { action: None, execution_ms: t, widget_index: i, child_index: None, layer_index: 0 });
    }
    let due = c.take_expired_pending(25);
    assert_eq!(due.iter().map(|p| p.widget_index).collect::<Vec<_>>(), vec![0, 2]);
    assert_eq!(c.pending.iter().map(|p| p.widget_index).collect::<Vec<_>>(), vec![1, 3]);
}

#[test]
fn actions_without_widget_run_at_once() {
    let mut c = Controller::new(0);
    let out = c.handle_widget_action(&Some(Action::Exec("konsole".to_string())), true, None, None, 0);
    assert_eq!(out.command, Some("konsole".to_string()));
    let out = c.handle_widget_action(&Some(Action::Panel("p".to_string())), true, None, None, 0);
    assert!(out.navigated);
    let out = c.handle_widget_action(&Some(Action::Back), false, None, None, 0);
    assert!(!out.navigated);
    let out = c.handle_widget_action(&None, true, Some(0), None, 0);
    assert!(out.key_events.is_empty() && !out.navigated && out.command.is_none());
}

#[test]
fn fn_key_switches_layer() {
    let mut c = Controller::new(0);
    c.needs_complete_redraw = false;
    c.touch_down(1, Some((0, None)), BUTTON);
    assert!(!c.select_layer(false));
    assert!(!c.needs_complete_redraw);
    assert!(c.select_layer(true));
    assert_eq!(c.active_layer, 1);
    assert!(c.needs_complete_redraw);
    assert!(c.touches.is_empty());
}

#[test]
fn idle_panel_times_out() {
    let mut c = Controller::new(0);
    c.handle_widget_action(&Some(Action::Panel("media".to_string())), true, None, None, 0);
    c.held.press(&vec![30]);
    assert!(c.check_panel_timeout(5, 4_999).is_none());
    assert!(c.check_panel_timeout(0, 100_000).is_none());
    let ev_out = c.check_panel_timeout(5, 5_000).unwrap();
    assert_eq!(ev_out, vec![ev(30, false)]);
    assert_eq!(c.navigation.current_panel, None);
    assert!(c.check_panel_timeout(5, 100_000).is_none());
}

#[test]
fn hardware_fallback_row() {
    let mut h = HardwareTouches::new();
    let keys = vec![59u16, 60, 61];
    assert_eq!(h.fallback_down(7, Some(1), &keys), Some(60));
    assert_eq!(h.fallback_up(7, &keys), Some(60));
    assert_eq!(h.fallback_up(7, &keys), None);
    assert_eq!(h.fallback_down(8, Some(5), &keys), None);
    assert_eq!(h.fallback_up(8, &keys), None);
    assert_eq!(h.fallback_down(9, None, &keys), None);
}

#[test]
fn hardware_forwarding() {
    let mut h = HardwareTouches::new();
    assert!(!h.forward_motion(1));
    h.forward_down(1);
    assert!(h.forward_motion(1));
    assert!(h.forward_up(1));
    assert!(!h.forward_up(1));
}

#[test]
fn minute_changes_redraw() {
    let start = MinuteTracker::new();
    assert!(start.last_redraw_minute < 60);
    assert_eq!(start.last_battery_minute, start.last_redraw_minute);
    let mut m = MinuteTracker { last_redraw_minute: 10, last_battery_minute: 10 };
    assert_eq!(m.observe(10, true, true), (false, false));
    assert_eq!(m.observe(11, true, false), (true, false));
    assert_eq!(m.observe(11, true, true), (false, true));
    assert_eq!(m.observe(12, false, false), (false, false));
    assert_eq!(m.last_redraw_minute, 11);
}

#[test]
fn session_presence_changes() {
    let mut p = SessionPresence { connected: false };
    assert_eq!(p.observe(false), None);
    assert_eq!(p.observe(true), Some(true));
    assert_eq!(p.observe(true), None);
    assert_eq!(p.observe(false), Some(false));
}

#[test]
fn reload_returns_to_a_clean_main_layer() {
    let mut c = Controller::new(0);
    c.handle_widget_action(&Some(Action::Panel("media".to_string())), true, None, None, 5);
    c.handle_widget_action(&Some(Action::Back), true, Some(1), None, 6);
    c.select_layer(true);
    c.touch_down(2, Some((0, None)), BUTTON);
    c.held.press(&vec![29u16, 42]);
    c.needs_complete_redraw = false;
    assert!(!c.touches.is_empty());
    assert_eq!(c.pending.len(), 1);
    let mut released = c.reload(100);
    released.sort_by_key(|e| e.code);
    assert_eq!(released, vec![ev(29, false), ev(42, false)]);
    assert_eq!(c.active_layer, 0);
    assert!(c.navigation.current_panel.is_none());
    assert!(c.navigation.navigation_stack.is_empty());
    assert_eq!(c.navigation.last_interaction_ms, 100);
    assert!(c.touches.is_empty());
    assert!(c.held.keys.is_empty());
    assert!(c.pending.is_empty());
    assert!(c.needs_complete_redraw);
}

#[test]
fn pressing_a_combo_releases_every_held_key_once_first() {
    let mut held = HeldKeys::new();
    held.press(&vec![29u16, 42, 20]);
    let events = held.press(&vec![56u16]);
    assert_eq!(events.len(), 4);
    let mut released: Vec<u16> = events[..3].iter().map(|e| { assert!(!e.pressed); e.code }).collect();
    released.sort();
    assert_eq!(released, vec![20, 29, 42]);
    assert_eq!(events[3], ev(56, true));
    assert!(held.holds(56) && !held.holds(29));
}
