use ktouchbar::display::{is_card_node, is_touchbar_digitizer, looks_like_touchbar, redraw_from_first_changed};

#[test]
fn touchbar_mode_is_thirty_times_taller_than_wide() {
    assert!(looks_like_touchbar(60, 2008));
    assert!(looks_like_touchbar(64, 1920));
    assert!(looks_like_touchbar(10, 300));
    assert!(!looks_like_touchbar(10, 299));
    assert!(!looks_like_touchbar(1920, 1080));
    assert!(!looks_like_touchbar(1080, 1920));
}

#[test]
fn card_nodes_are_recognised_by_name() {
    assert!(is_card_node("card0"));
    assert!(is_card_node("card1"));
    assert!(is_card_node("card"));
    assert!(!is_card_node("renderD128"));
    assert!(!is_card_node("by-path"));
    assert!(!is_card_node("car"));
    assert!(!is_card_node(""));
}

#[test]
fn touchbar_digitizer_is_found_by_name() {
    assert!(is_touchbar_digitizer("Apple Inc. Touch Bar Display Touchpad"));
    assert!(is_touchbar_digitizer("MacBookPro17,1 Touch Bar"));
    assert!(!is_touchbar_digitizer("Apple Internal Keyboard / Trackpad"));
    assert!(!is_touchbar_digitizer("TouchBar"));
}

#[test]
fn partial_redraw_repaints_from_first_change() {
    assert_eq!(
        redraw_from_first_changed(&vec![false, false, true, false, true, false]),
        vec![false, false, true, true, true, true]
    );
    assert_eq!(redraw_from_first_changed(&vec![false, false]), vec![false, false]);
    assert_eq!(redraw_from_first_changed(&vec![true, false]), vec![true, true]);
    assert!(redraw_from_first_changed(&vec![]).is_empty());
}
