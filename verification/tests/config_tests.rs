use ktouchbar::config::{
    action_from_proxy, button_face, choose_layer, clock_pattern, expand_plan, function_keys,
    handle_size_or_default, layer_flags, merge_named, merge_setting, padding_from_i64,
    padding_from_str, padding_from_u64, resolve_live_update, resolve_margins, resolve_padding,
    resolve_side_paddings, resolve_theme, Action, ActionError, ActionProxy, ButtonFace,
    ExpandStep, NamedMap, PaddingError, PaddingSpec, SliderType, WidgetTag,
    fallback_globals, layer_or_default, merge_globals, resolve_globals, GlobalOverrides,
};

#[test]
fn slider_display_names() {
    assert_eq!(SliderType::Volume.display_name(), "Volume");
    assert_eq!(SliderType::Brightness.display_name(), "Brightness");
    assert_eq!(SliderType::KeyboardBrightness.display_name(), "Kbd Brightness");
}

#[test]
fn padding_from_integers_keeps_low_bits() {
    assert_eq!(padding_from_u64(5), PaddingSpec::Value(5));
    assert_eq!(padding_from_u64(70000), PaddingSpec::Value(4464));
    assert_eq!(padding_from_i64(12), PaddingSpec::Value(12));
    assert_eq!(padding_from_i64(-1), PaddingSpec::Value(65535));
    assert_eq!(padding_from_i64(i64::MIN), PaddingSpec::Value(0));
}

#[test]
fn padding_default_string_any_case() {
    assert_eq!(padding_from_str("default"), Ok(PaddingSpec::Default));
    assert_eq!(padding_from_str("DeFaUlT"), Ok(PaddingSpec::Default));
    assert_eq!(
        padding_from_str("wide"),
        Err(PaddingError::InvalidString("wide".to_string()))
    );
    assert_eq!(
        padding_from_str("defaults"),
        Err(PaddingError::InvalidString("defaults".to_string()))
    );
}

#[test]
fn padding_resolution() {
    assert_eq!(resolve_padding(None, Some(7)), None);
    assert_eq!(resolve_padding(Some(PaddingSpec::Value(3)), Some(7)), Some(3));
    assert_eq!(resolve_padding(Some(PaddingSpec::Default), Some(7)), Some(7));
    assert_eq!(resolve_padding(Some(PaddingSpec::Default), None), None);
    assert_eq!(
        resolve_side_paddings(Some(PaddingSpec::Value(4)), None, Some(PaddingSpec::Default), Some(9)),
        (Some(4), Some(9))
    );
    assert_eq!(resolve_side_paddings(None, None, None, Some(9)), (None, None));
}

#[test]
fn margin_resolution() {
    assert_eq!(resolve_margins(None, None, None), (0, 0));
    assert_eq!(resolve_margins(Some(10), None, Some(2)), (10, 2));
    assert_eq!(resolve_margins(None, Some(5), None), (5, 0));
}

#[test]
fn actions_from_tables() {
    assert_eq!(
        action_from_proxy(ActionProxy::Key { key: vec![29, 46] }),
        Ok(Action::Key(vec![29, 46]))
    );
    assert_eq!(
        action_from_proxy(ActionProxy::Panel { panel: "media".to_string() }),
        Ok(Action::Panel("media".to_string()))
    );
    assert_eq!(action_from_proxy(ActionProxy::Back { back: true }), Ok(Action::Back));
    assert_eq!(
        action_from_proxy(ActionProxy::Back { back: false }),
        Err(ActionError::BackFalse)
    );
    assert_eq!(
        action_from_proxy(ActionProxy::Exec { command: "konsole".to_string() }),
        Ok(Action::Exec("konsole".to_string()))
    );
}

#[test]
fn clock_presets() {
    assert_eq!(clock_pattern("24hr"), "%H:%M    %a %-e %b");
    assert_eq!(clock_pattern("12hr"), "%-l:%M %p    %a %-e %b");
    assert_eq!(clock_pattern("%I:%M%P %-e/%m"), "%I:%M%P %-e/%m");
}

#[test]
fn user_panels_replace_system_panels() {
    let sys = vec![("media".to_string(), 1), ("tools".to_string(), 2)];
    let user = vec![("media".to_string(), 10), ("apps".to_string(), 3)];
    let m: NamedMap<i32> = merge_named(sys, user);
    assert_eq!(m.get("media"), Some(&10));
    assert_eq!(m.get("tools"), Some(&2));
    assert_eq!(m.get("apps"), Some(&3));
    assert_eq!(m.get("missing"), None);
    assert_eq!(m.entries.len(), 3);
}

#[test]
fn named_map_insert_replaces() {
    let mut m: NamedMap<u8> = NamedMap::new();
    m.insert("a".to_string(), 1);
    m.insert("a".to_string(), 2);
    assert_eq!(m.get("a"), Some(&2));
    assert_eq!(m.entries.len(), 1);
}

#[test]
fn layer_choice_prefers_user() {
    assert_eq!(choose_layer(Some(vec![1, 2]), Some(vec![3])), vec![3]);
    assert_eq!(choose_layer(Some(vec![1, 2]), None), vec![1, 2]);
    assert_eq!(choose_layer::<u8>(None, None), Vec::<u8>::new());
    assert_eq!(choose_layer(Some(vec![1]), Some(vec![])), Vec::<i32>::new());
    assert_eq!(merge_setting(Some(1), Some(2)), Some(2));
    assert_eq!(merge_setting(Some(1), None), Some(1));
}

#[test]
fn function_key_row() {
    let keys = function_keys();
    assert_eq!(keys.len(), 12);
    assert_eq!(keys[0], ("F1".to_string(), 59));
    assert_eq!(keys[9], ("F10".to_string(), 68));
    assert_eq!(keys[10], ("F11".to_string(), 87));
    assert_eq!(keys[11], ("F12".to_string(), 88));
}

#[test]
fn dynamic_widgets_expand() {
    let tags = vec![WidgetTag::Button, WidgetTag::Dynamic, WidgetTag::Clock];
    assert_eq!(
        expand_plan(&tags, true, true),
        vec![ExpandStep::Keep(0), ExpandStep::RuleContainer(1), ExpandStep::Keep(2)]
    );
    assert_eq!(
        expand_plan(&tags, true, false),
        vec![ExpandStep::Keep(0), ExpandStep::ClassContainer(1), ExpandStep::Keep(2)]
    );
    assert_eq!(expand_plan(&tags, false, false), vec![ExpandStep::Keep(0), ExpandStep::Keep(2)]);
    assert_eq!(expand_plan(&vec![WidgetTag::Dynamic], false, false), vec![ExpandStep::Placeholder]);
    assert_eq!(expand_plan(&vec![], true, true), vec![ExpandStep::Placeholder]);
}

#[test]
fn layer_shows_clock_and_battery() {
    assert_eq!(layer_flags(&vec![WidgetTag::Button, WidgetTag::Clock]), (true, false));
    assert_eq!(layer_flags(&vec![WidgetTag::Battery, WidgetTag::Clock]), (true, true));
    assert_eq!(layer_flags(&vec![WidgetTag::Container]), (false, false));
}

#[test]
fn widget_settings_fallbacks() {
    assert_eq!(
        button_face(Some("F1".to_string()), Some("icon".to_string())),
        ButtonFace::Text("F1".to_string())
    );
    assert_eq!(button_face(None, Some("icon".to_string())), ButtonFace::Icon("icon".to_string()));
    assert_eq!(resolve_theme(Some("breeze".to_string()), Some("auto")), Some("breeze".to_string()));
    assert_eq!(resolve_theme(None, Some("auto")), Some("auto".to_string()));
    assert_eq!(resolve_theme(None, None), None);
    assert!(resolve_live_update(None, Some(true)));
    assert!(!resolve_live_update(Some(false), Some(true)));
    assert!(!resolve_live_update(None, None));
    assert_eq!(handle_size_or_default(None), 20);
    assert_eq!(handle_size_or_default(Some(32)), 32);
}

#[test]
fn user_globals_take_precedence_over_system_globals() {
    let system = GlobalOverrides {
        active_brightness: Some(200),
        dimmed_brightness: Some(3),
        icon_theme: Some("breeze".to_string()),
        ..Default::default()
    };
    let user = GlobalOverrides {
        active_brightness: Some(90),
        panel_timeout_seconds: Some(0),
        ..Default::default()
    };
    let merged = merge_globals(system, user);
    assert_eq!(merged.active_brightness, Some(90));
    assert_eq!(merged.dimmed_brightness, Some(3));
    assert_eq!(merged.panel_timeout_seconds, Some(0));
    assert_eq!(merged.icon_theme, Some("breeze".to_string()));
    assert_eq!(merged.debug, None);
}

#[test]
fn global_defaults() {
    let g = resolve_globals(GlobalOverrides::default());
    assert!(!g.debug);
    assert!(g.show_outline);
    assert!(!g.enable_pixel_shift);
    assert_eq!(g.font_template, "sans-serif");
    assert!(g.adaptive_brightness);
    assert_eq!(g.active_brightness, 128);
    assert_eq!(g.brightness_dim_timeout_ms, 120000);
    assert_eq!(g.brightness_off_timeout_ms, 300000);
    assert_eq!(g.dimmed_brightness, 1);
    assert_eq!(g.panel_timeout_seconds, 5);
    assert_eq!(g.icon_theme, "auto");
    assert_eq!(g.default_padding, None);
    assert_eq!(g.slider_color_source, "kde");
    assert!(!g.slider_live_update);
    let given = resolve_globals(GlobalOverrides {
        font_template: Some("Inter:Bold".to_string()),
        default_padding: Some(12),
        slider_live_update: Some(true),
        ..Default::default()
    });
    assert_eq!(given.font_template, "Inter:Bold");
    assert_eq!(given.default_padding, Some(12));
    assert!(given.slider_live_update);
}

#[test]
fn hardware_daemon_globals() {
    let g = fallback_globals();
    assert!(!g.adaptive_brightness);
    assert_eq!(g.active_brightness, 255);
    assert_eq!(g.brightness_dim_timeout_ms, u32::MAX);
    assert_eq!(g.brightness_off_timeout_ms, u32::MAX);
    assert_eq!(g.dimmed_brightness, 1);
    assert_eq!(g.panel_timeout_seconds, 5);
    assert!(g.show_outline);
    assert_eq!(g.icon_theme, "auto");
}

#[test]
fn empty_layer_falls_back_to_default() {
    assert_eq!(layer_or_default(None::<Vec<u8>>, None, vec![9]), vec![9]);
    assert_eq!(layer_or_default(Some(vec![1, 2]), None, vec![9]), vec![1, 2]);
    assert_eq!(layer_or_default(Some(vec![1]), Some(vec![]), vec![9]), vec![9]);
    assert_eq!(layer_or_default(Some(vec![1]), Some(vec![3]), vec![9]), vec![3]);
}
