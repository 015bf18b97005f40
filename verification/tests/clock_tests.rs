use ktouchbar::clock::{clock_format, ClockFormatError};

#[test]
fn preset_formats_are_accepted() {
    let cf = clock_format("24hr", None).expect("24hr preset");
    assert!(!cf.items.is_empty());
    assert!(cf.locale.is_none());
    assert!(clock_format("12hr", None).is_ok());
    assert!(clock_format("%I:%M%P %-e/%m", None).is_ok());
}

#[test]
fn unknown_specifier_is_refused_with_its_pattern() {
    match clock_format("%H:%J", None) {
        Err(ClockFormatError::InvalidPattern(p)) => assert_eq!(p, "%H:%J"),
        Ok(_) => panic!("pattern with %J accepted"),
    }
}

#[test]
fn preset_pattern_is_what_chrono_reads() {
    let a = clock_format("24hr", None).unwrap();
    let b = clock_format("%H:%M    %a %-e %b", None).unwrap();
    assert_eq!(a.items, b.items);
    let c = clock_format("%H:%M", None).unwrap();
    assert_ne!(a.items, c.items);
}

#[test]
fn known_locale_is_kept_and_unknown_falls_back() {
    let de = clock_format("%H:%M", Some("de_DE")).unwrap();
    assert_eq!(de.locale, Some(chrono::Locale::de_DE));
    let de_again = clock_format("%M", Some("de_DE")).unwrap();
    assert_eq!(de_again.locale, de.locale);
    let unknown = clock_format("%H:%M", Some("xx_YY")).unwrap();
    assert!(unknown.locale.is_none());
}
