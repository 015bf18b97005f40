use ktouchbar::icon::{
    cache_key, cleanup_cache, get_icon_cached, preload_app_icons, preload_common_icons,
    preload_extended_icons, icon_candidates, IconLoader,
};

#[test]
fn cache_keys() {
    assert_eq!(cache_key("back", Some("breeze")), "breeze:back");
    assert_eq!(cache_key("back", None), ":back");
    assert_eq!(cache_key("", Some("")), ":");
}

#[test]
fn lookup_is_remembered() {
    let mut l = IconLoader::new();
    assert_eq!(l.cached("back", Some("breeze")), None);
    let p = get_icon_cached(&mut l, "back", Some("breeze"), Some("/usr/share/icons/back.svg".to_string()), 100);
    assert_eq!(p, Some("/usr/share/icons/back.svg".to_string()));
    assert_eq!(l.cached("back", Some("breeze")), Some("/usr/share/icons/back.svg".to_string()));
    let again = get_icon_cached(&mut l, "back", Some("breeze"), Some("/other.svg".to_string()), 200);
    assert_eq!(again, Some("/usr/share/icons/back.svg".to_string()));
    assert_eq!(get_icon_cached(&mut l, "missing", None, None, 300), None);
    assert_eq!(l.cache.len(), 1);
}

#[test]
fn cleanup_forgets_stale_entries() {
    let mut l = IconLoader::new();
    l.remember(cache_key("a", None), "/a.svg".to_string(), 0);
    l.remember(cache_key("b", None), "/b.svg".to_string(), 200_000);
    cleanup_cache(&mut l, 299_999);
    assert_eq!(l.cache.len(), 2);
    cleanup_cache(&mut l, 300_000);
    assert_eq!(l.cached("a", None), None);
    assert_eq!(l.cached("b", None), Some("/b.svg".to_string()));
    l.cleanup(500_000);
    assert!(l.cache.is_empty());
}

#[test]
fn preload_lists() {
    let apps = preload_app_icons();
    assert_eq!(apps.len(), 74);
    assert_eq!(apps[0], ("code".to_string(), Some("breeze".to_string())));
    assert_eq!(apps[1], ("app-code".to_string(), None));
    assert_eq!(apps[73], ("app-vlc".to_string(), None));
    let common = preload_common_icons();
    assert_eq!(common.len(), 84);
    assert_eq!(common[2], ("application-default-icon".to_string(), None));
    assert_eq!(common[10], apps[0]);
    let ext = preload_extended_icons();
    assert_eq!(ext.len(), 10);
    assert_eq!(ext[9], ("camera-photo".to_string(), Some("breeze".to_string())));
}

#[test]
fn icon_search_order() {
    let c = icon_candidates("/home/a/.local/share/icons/breeze", "/usr/share/icons/breeze", "actions/22,apps/48", "back");
    assert_eq!(
        c,
        vec![
            "/home/a/.local/share/icons/breeze/actions/22/back.svg",
            "/usr/share/icons/breeze/actions/22/back.svg",
            "/home/a/.local/share/icons/breeze/actions/22/back.png",
            "/usr/share/icons/breeze/actions/22/back.png",
            "/home/a/.local/share/icons/breeze/actions/22/back.xpm",
            "/usr/share/icons/breeze/actions/22/back.xpm",
            "/home/a/.local/share/icons/breeze/apps/48/back.svg",
            "/usr/share/icons/breeze/apps/48/back.svg",
            "/home/a/.local/share/icons/breeze/apps/48/back.png",
            "/usr/share/icons/breeze/apps/48/back.png",
            "/home/a/.local/share/icons/breeze/apps/48/back.xpm",
            "/usr/share/icons/breeze/apps/48/back.xpm",
        ]
    );
    let single = icon_candidates("/o/", "/b", "", "x");
    assert_eq!(single, vec!["/o/x.svg", "/b/x.svg", "/o/x.png", "/b/x.png", "/o/x.xpm", "/b/x.xpm"]);
}
