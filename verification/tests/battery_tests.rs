use ktouchbar::battery::{
    battery_icon, battery_mode_from_str, battery_state_from_status, bolt_icon_name,
    capacity_from_sources, charging_icon_index, charging_icon_list, get_battery_state,
    get_cached_battery_state, is_battery_supply, plain_icon_index, plain_icon_list,
    read_battery_info, BatteryCache, BatteryIcon, BatteryIconMode, BatteryInfo, BatteryState,
};

#[test]
fn status_classification() {
    assert_eq!(battery_state_from_status("Charging\n", 50), BatteryState::Charging);
    assert_eq!(battery_state_from_status("Full", 100), BatteryState::Charging);
    assert_eq!(battery_state_from_status("Discharging\n", 9), BatteryState::Low);
    assert_eq!(battery_state_from_status("Discharging", 10), BatteryState::NotCharging);
    assert_eq!(battery_state_from_status("Not charging", 5), BatteryState::NotCharging);
    assert_eq!(battery_state_from_status("Unknown", 3), BatteryState::NotCharging);
}

#[test]
fn capacity_sources_in_order() {
    assert_eq!(capacity_from_sources(Some(42), Some(50), Some(60)), 42);
    assert_eq!(capacity_from_sources(None, Some(50), Some(60)), 50);
    assert_eq!(capacity_from_sources(None, None, Some(60)), 60);
    assert_eq!(capacity_from_sources(None, None, None), 100);
    assert_eq!(
        read_battery_info("Discharging", None, None, Some(7)),
        BatteryInfo { capacity: 7, state: BatteryState::Low }
    );
}

#[test]
fn modes() {
    assert!(BatteryIconMode::Both.should_draw_icon());
    assert!(BatteryIconMode::Both.should_draw_text());
    assert!(!BatteryIconMode::Percentage.should_draw_icon());
    assert!(!BatteryIconMode::Icon.should_draw_text());
    assert_eq!(battery_mode_from_str("icon"), Some(BatteryIconMode::Icon));
    assert_eq!(battery_mode_from_str("percentage"), Some(BatteryIconMode::Percentage));
    assert_eq!(battery_mode_from_str("both"), Some(BatteryIconMode::Both));
    assert_eq!(battery_mode_from_str("Both"), None);
}

#[test]
fn icon_levels() {
    assert_eq!(plain_icon_index(0), 0);
    assert_eq!(plain_icon_index(20), 1);
    assert_eq!(plain_icon_index(21), 2);
    assert_eq!(plain_icon_index(99), 6);
    assert_eq!(plain_icon_index(100), 7);
    assert_eq!(charging_icon_index(0), 0);
    assert_eq!(charging_icon_index(55), 3);
    assert_eq!(charging_icon_index(120), 6);
    assert_eq!(plain_icon_list()[plain_icon_index(45)], "battery-050");
    assert_eq!(charging_icon_list()[charging_icon_index(85)], "battery-090-charging");
    assert_eq!(bolt_icon_name(), "battery-100-charging");
}

#[test]
fn icon_choice() {
    assert_eq!(
        battery_icon(BatteryIconMode::Both, 35, BatteryState::Charging),
        Some(BatteryIcon::Charging(2))
    );
    assert_eq!(battery_icon(BatteryIconMode::Icon, 0, BatteryState::Low), Some(BatteryIcon::Plain(0)));
    assert_eq!(
        battery_icon(BatteryIconMode::Percentage, 35, BatteryState::Charging),
        Some(BatteryIcon::Bolt)
    );
    assert_eq!(battery_icon(BatteryIconMode::Percentage, 35, BatteryState::NotCharging), None);
}

#[test]
fn cache_before_direct_reading() {
    let mut cache = BatteryCache::new();
    let direct = BatteryInfo { capacity: 80, state: BatteryState::NotCharging };
    assert_eq!(get_cached_battery_state(&cache), None);
    assert_eq!(get_battery_state(&cache, direct), (80, BatteryState::NotCharging));
    cache.store(BatteryInfo { capacity: 5, state: BatteryState::Low });
    assert_eq!(get_cached_battery_state(&cache), Some((5, BatteryState::Low)));
    assert_eq!(get_battery_state(&cache, direct), (5, BatteryState::Low));
}

#[test]
fn supply_type() {
    assert!(is_battery_supply("Battery\n"));
    assert!(!is_battery_supply("Mains\n"));
}
