use ktouchbar::parse::{
    css_define_color, gtk_color, gtk_theme_from_gsettings, ini_get, ini_has_section, ini_line,
    is_regular_uid, leading_words, parse_color_hex, parse_gtk_css, parse_kdeglobals, parse_u32,
    passwd_user_name, read_attr_value, session_candidate, session_is_graphical, split_on, IniLine,
    graphical_env_entry,
};

#[test]
fn u32_numbers() {
    assert_eq!(parse_u32("0"), Some(0));
    assert_eq!(parse_u32("+42"), Some(42));
    assert_eq!(parse_u32("4294967295"), Some(u32::MAX));
    assert_eq!(parse_u32("4294967296"), None);
    assert_eq!(parse_u32("99999999999999999999"), None);
    assert_eq!(parse_u32(""), None);
    assert_eq!(parse_u32("+"), None);
    assert_eq!(parse_u32("-1"), None);
    assert_eq!(parse_u32(" 1"), None);
    assert_eq!(parse_u32("12a"), None);
    for s in ["7", "007", "+0", "123456"] {
        assert_eq!(parse_u32(s), s.parse::<u32>().ok());
    }
}

#[test]
fn sysfs_attribute() {
    assert_eq!(read_attr_value("255\n"), Some(255));
    assert_eq!(read_attr_value("  12  "), Some(12));
    assert_eq!(read_attr_value("n/a"), None);
}

#[test]
fn uids_and_passwd() {
    assert!(is_regular_uid(1000));
    assert!(is_regular_uid(65533));
    assert!(!is_regular_uid(999));
    assert!(!is_regular_uid(65534));
    assert_eq!(passwd_user_name("alice:x:1000:1000::/home/alice:/bin/bash\n"), "alice");
    assert_eq!(passwd_user_name("nocolon"), "nocolon");
}

#[test]
fn loginctl_sessions() {
    assert_eq!(
        session_candidate("  2 1000 alice seat0 tty2"),
        Some(("2".to_string(), "alice".to_string()))
    );
    assert_eq!(session_candidate("3 0 root seat0 tty3"), None);
    assert_eq!(session_candidate("4 1001 bob seat1"), None);
    assert_eq!(session_candidate("5 1001 bob"), None);
    assert!(session_is_graphical("Type=wayland\n"));
    assert!(session_is_graphical("Type=x11\n"));
    assert!(!session_is_graphical("Type=tty\n"));
    assert_eq!(leading_words(" a  b\tc ", 2), vec!["a".to_string(), "b".to_string()]);
    assert_eq!(leading_words("a", 3), vec!["a".to_string()]);
}

#[test]
fn hex_colors() {
    assert_eq!(parse_color_hex("#ff8000"), Some((255, 128, 0)));
    assert_eq!(parse_color_hex("  ##1A2b3C "), Some((26, 43, 60)));
    assert_eq!(parse_color_hex("+f+f+f"), Some((15, 15, 15)));
    assert_eq!(parse_color_hex("#fff"), None);
    assert_eq!(parse_color_hex("#gg0000"), None);
    assert_eq!(parse_color_hex("61,174,233"), None);
}

#[test]
fn gsettings_theme() {
    assert_eq!(gtk_theme_from_gsettings("'Breeze'\n"), Some("Breeze".to_string()));
    assert_eq!(gtk_theme_from_gsettings("'default'\n"), None);
    assert_eq!(gtk_theme_from_gsettings("''\n"), None);
}

#[test]
fn gtk_stylesheet_colors() {
    assert_eq!(
        css_define_color("  @define-color theme_bg_color #202020;"),
        Some(("theme_bg_color".to_string(), (32, 32, 32)))
    );
    assert_eq!(css_define_color("@define-color x red;"), None);
    assert_eq!(css_define_color("color: #fff;"), None);
    let css = "@define-color a #010203;\nbody {}\n@define-color b #0a0b0c;\n@define-color a #ffffff;\n";
    let v = parse_gtk_css(css);
    assert_eq!(v.len(), 3);
    assert_eq!(gtk_color(&v, "a"), Some((255, 255, 255)));
    assert_eq!(gtk_color(&v, "b"), Some((10, 11, 12)));
    assert_eq!(gtk_color(&v, "c"), None);
}

#[test]
fn kde_globals() {
    match ini_line(" [Colors:View] ") {
        IniLine::Section(s) => assert_eq!(s, "Colors:View"),
        _ => panic!("expected a section"),
    }
    match ini_line("ForegroundNormal = 252,252,252") {
        IniLine::Entry(k, v) => {
            assert_eq!(k, "ForegroundNormal");
            assert_eq!(v, "252,252,252");
        }
        _ => panic!("expected an entry"),
    }
    assert!(matches!(ini_line("just text"), IniLine::Other));
    let doc = parse_kdeglobals("orphan=1\n[General]\ngtkTheme=Breeze\r\n[Colors:View]\nBackgroundNormal=#112233\nBackgroundNormal=20,31,42\n[Empty]\n");
    assert!(ini_has_section(&doc, "Empty"));
    assert!(!ini_has_section(&doc, "Colors:Selection"));
    assert_eq!(ini_get(&doc, "General", "gtkTheme"), Some("Breeze".to_string()));
    assert_eq!(ini_get(&doc, "Colors:View", "BackgroundNormal"), Some("20,31,42".to_string()));
    assert_eq!(ini_get(&doc, "", "orphan"), None);
    assert_eq!(split_on("a\n\nb", '\n'), vec!["a".to_string(), "".to_string(), "b".to_string()]);
}

#[test]
fn graphical_environment_lines() {
    assert_eq!(
        graphical_env_entry("WAYLAND_DISPLAY=wayland-0"),
        Some(("WAYLAND_DISPLAY".to_string(), "wayland-0".to_string()))
    );
    assert_eq!(graphical_env_entry("DISPLAY= :0 "), Some(("DISPLAY".to_string(), ":0".to_string())));
    assert_eq!(
        graphical_env_entry("XAUTHORITY=/run/user/1000/xauth=x"),
        Some(("XAUTHORITY".to_string(), "/run/user/1000/xauth=x".to_string()))
    );
    assert_eq!(graphical_env_entry("XDG_SESSION_TYPE="), Some(("XDG_SESSION_TYPE".to_string(), String::new())));
    assert_eq!(graphical_env_entry("HOME=/home/alice"), None);
    assert_eq!(graphical_env_entry(" DISPLAY=:0"), None);
    assert_eq!(graphical_env_entry("DISPLAY"), None);
}
