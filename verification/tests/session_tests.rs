use ktouchbar::dynamicshortcuts::{
    check_and_reset_cache_updated, check_and_reset_inactivity, get_active_window_info,
    ActiveWindowInfo, WindowInfoError, WindowTracker,
};
use ktouchbar::paths::{
    path_join, session_bus_socket, slider_icon_path, slider_icons_dir, unix_bus_address, user_config_dir,
    user_configs_dir,
};
use ktouchbar::system_monitor::{get_current_minute, should_cleanup_cache, SystemMonitor, SystemState};
use ktouchbar::text::{str_contains, str_eq_ignore_ascii_case, trimmed};
use ktouchbar::user_cache::{
    get_cached_user_environment, initialize_user_environment_cache, CachedUserEnvironment,
    UserEnvCache,
};

#[test]
fn window_reports() {
    let mut t = WindowTracker::new();
    assert_eq!(get_active_window_info(&t), Err(WindowInfoError::NoWindowYet));
    t.set_active_window("konsole".to_string(), "Shell".to_string());
    assert!(check_and_reset_cache_updated(&mut t));
    assert!(!check_and_reset_cache_updated(&mut t));
    t.set_active_window("konsole".to_string(), "Shell".to_string());
    assert!(!check_and_reset_cache_updated(&mut t));
    t.set_active_window("konsole".to_string(), "Other".to_string());
    assert!(check_and_reset_cache_updated(&mut t));
    assert_eq!(
        get_active_window_info(&t),
        Ok(ActiveWindowInfo { title: "Other".to_string(), class: "konsole".to_string() })
    );
    assert!(!check_and_reset_inactivity(&mut t));
    t.reset_inactivity();
    assert!(check_and_reset_inactivity(&mut t));
    assert!(!check_and_reset_inactivity(&mut t));
}

#[test]
fn cleanup_every_sixty_ticks() {
    let fresh = SystemMonitor::new();
    assert!(fresh.state.current_minute < 60);
    assert!(!fresh.state.cache_cleanup_due);
    assert_eq!(fresh.cleanup_counter, 0);
    let mut m = SystemMonitor { state: SystemState { current_minute: 3, cache_cleanup_due: false }, cleanup_counter: 0 };
    for _ in 0..59 {
        m.tick(4);
        assert!(!m.state.cache_cleanup_due);
    }
    m.tick(5);
    assert!(m.state.cache_cleanup_due);
    assert_eq!(get_current_minute(&m.state), 5);
    assert!(should_cleanup_cache(&mut m.state));
    assert!(!should_cleanup_cache(&mut m.state));
    let s = SystemState::new();
    assert!(s.current_minute < 60);
    assert!(!s.cache_cleanup_due);
    let mut n = SystemMonitor::new();
    n.tick_now();
    assert!(n.state.current_minute < 60);
    assert_eq!(n.cleanup_counter, 1);
}

#[test]
fn user_environment() {
    let mut c = UserEnvCache::new();
    assert_eq!(get_cached_user_environment(&c), None);
    initialize_user_environment_cache(&mut c, Some("alice".to_string()));
    assert_eq!(
        get_cached_user_environment(&c),
        Some(CachedUserEnvironment { username: "alice".to_string() })
    );
    initialize_user_environment_cache(&mut c, None);
    assert_eq!(get_cached_user_environment(&c), None);
}

#[test]
fn paths() {
    assert_eq!(path_join("/home/a/.config", "ktouchbar"), "/home/a/.config/ktouchbar");
    assert_eq!(path_join("/home/a/.config/", "ktouchbar"), "/home/a/.config/ktouchbar");
    assert_eq!(path_join("", "x"), "x");
    assert_eq!(path_join("/base", "/abs/icon.svg"), "/abs/icon.svg");
    assert_eq!(user_config_dir(true, "/home/a/.config"), "/home/a/.config/ktouchbar");
    assert_eq!(user_config_dir(false, "/home/a/.config"), "/etc/ktouchbar");
    assert_eq!(slider_icons_dir("/etc/ktouchbar"), "/etc/ktouchbar/icons");
    assert_eq!(user_configs_dir("/etc/ktouchbar"), "/etc/ktouchbar/configs");
    assert_eq!(slider_icon_path("/etc/ktouchbar/icons", "h.png"), "/etc/ktouchbar/icons/h.png");
    for (b, p) in [("/a", "b"), ("/a/", "b"), ("", "b"), ("/a", "/b")] {
        let std_join = std::path::Path::new(b).join(p);
        assert_eq!(path_join(b, p), std_join.to_str().unwrap());
    }
}

#[test]
fn text_helpers() {
    assert_eq!(trimmed("\t hi there \n"), "hi there");
    assert_eq!(trimmed("\u{a0}x\u{3000}"), "x");
    assert!(str_contains("228200000.display-pipe.0", "display-pipe"));
    assert!(str_contains("abc", ""));
    assert!(!str_contains("ab", "abc"));
    assert!(str_eq_ignore_ascii_case("DEFAULT", "default"));
    assert!(!str_eq_ignore_ascii_case("Ä", "ä"));
}

#[test]
fn session_bus_of_a_user() {
    assert_eq!(session_bus_socket("1000\n"), "/run/user/1000/bus");
    assert_eq!(session_bus_socket(" 1001 "), "/run/user/1001/bus");
    assert_eq!(unix_bus_address("/run/user/1000/bus"), "unix:path=/run/user/1000/bus");
}
