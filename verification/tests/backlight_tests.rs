use ktouchbar::backlight::{find_display_backlight, find_touchbar_backlight, touchbar_backlight, BacklightManager};

fn configured(now: u64) -> BacklightManager {
    let mut m = BacklightManager::new(Some(255), Some(1000), now);
    m.set_config(128, 1, 120_000, 300_000, false);
    m
}

#[test]
fn new_manager_starts_at_max() {
    let m = BacklightManager::new(Some(255), None, 5);
    assert_eq!(m.current_bl(), 255);
    assert_eq!(m.active_brightness, 255);
    assert_eq!(m.dimmed_brightness, 1);
    assert_eq!(m.brightness_dim_timeout_ms, u32::MAX);
    let d = BacklightManager::new(None, None, 5);
    assert_eq!(d.max_bl, 1);
}

#[test]
fn config_levels_are_capped() {
    let mut m = BacklightManager::new(Some(100), None, 0);
    m.set_config(500, 300, 1, 2, true);
    assert_eq!(m.active_brightness, 100);
    assert_eq!(m.dimmed_brightness, 100);
    assert!(m.adaptive_brightness);
}

#[test]
fn active_dimmed_off_by_idle_time() {
    let mut m = configured(0);
    assert_eq!(m.update_backlight(1_000, None), Some(128));
    assert_eq!(m.update_backlight(2_000, None), None);
    assert_eq!(m.update_backlight(120_000, None), Some(1));
    assert_eq!(m.update_backlight(300_000, None), Some(0));
    m.record_activity(300_500);
    assert_eq!(m.update_backlight(300_600, None), Some(128));
}

#[test]
fn lid_closed_turns_off_and_opening_wakes() {
    let mut m = configured(0);
    m.lid_switch(true, 10);
    assert_eq!(m.target_level(20, None), 0);
    m.lid_switch(false, 500_000);
    assert_eq!(m.target_level(500_001, None), 128);
}

#[test]
fn adaptive_level_used_when_active() {
    let mut m = BacklightManager::new(Some(255), Some(1000), 0);
    m.set_config(128, 1, 120_000, 300_000, true);
    assert!(m.wants_display_level(10));
    assert_eq!(m.target_level(10, Some(91)), 91);
    assert_eq!(m.target_level(10, None), 128);
    assert!(!m.wants_display_level(130_000));
}

#[test]
fn clock_reading_earlier_counts_as_no_time() {
    let m = configured(1_000);
    assert_eq!(m.target_level(0, None), 128);
}

#[test]
fn backlight_device_names() {
    assert!(touchbar_backlight("228200000.display-pipe.0"));
    assert!(touchbar_backlight("appletb_backlight"));
    assert!(!touchbar_backlight("intel_backlight"));
    let names = vec!["acpi_video0".to_string(), "appletb_backlight".to_string(), "intel_backlight".to_string()];
    assert_eq!(find_touchbar_backlight(&names), Some(1));
    assert_eq!(find_display_backlight(&names), Some(0));
    let only_tb = vec!["appletb_backlight".to_string()];
    assert_eq!(find_display_backlight(&only_tb), None);
    assert_eq!(find_touchbar_backlight(&vec!["x".to_string()]), None);
}
