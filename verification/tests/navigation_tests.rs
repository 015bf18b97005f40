use ktouchbar::navigation::NavigationState;

#[test]
fn push_then_pop_restores() {
    let mut n = NavigationState::new(0);
    n.push_panel("a".to_string(), 1);
    n.push_panel("b".to_string(), 2);
    assert_eq!(n.current_panel, Some("b".to_string()));
    assert_eq!(n.navigation_stack, vec!["a".to_string()]);
    assert!(n.pop_panel(3));
    assert_eq!(n.current_panel, Some("a".to_string()));
    assert!(n.navigation_stack.is_empty());
    assert!(n.pop_panel(4));
    assert_eq!(n.current_panel, None);
    assert!(!n.pop_panel(5));
    assert_eq!(n.last_interaction_ms, 4);
}

#[test]
fn reset_and_timeout() {
    let mut n = NavigationState::new(0);
    assert!(!n.should_timeout(5, 60_000));
    n.push_panel("media".to_string(), 1_000);
    assert!(!n.should_timeout(5, 5_999));
    assert!(n.should_timeout(5, 6_000));
    assert!(!n.should_timeout(0, 600_000));
    n.update_interaction_time(6_000);
    assert!(!n.should_timeout(5, 6_000));
    n.reset_to_main(7_000);
    assert_eq!(n.current_panel, None);
    assert!(n.navigation_stack.is_empty());
}
