use bedwatch_updater::tray::{badge_label, tray_tooltip};

#[test]
fn the_badge_spells_out_up_to_ninety_nine() {
    assert_eq!(badge_label(0), None);
    assert_eq!(badge_label(7).as_deref(), Some("7"));
    assert_eq!(badge_label(99).as_deref(), Some("99"));
    assert_eq!(badge_label(100).as_deref(), Some("99+"));
}

#[test]
fn the_tooltip_says_how_many_updates_wait() {
    assert_eq!(tray_tooltip(0), "PM Updater — up to date");
    assert_eq!(tray_tooltip(1), "PM Updater — 1 update available");
    assert_eq!(tray_tooltip(12), "PM Updater — 12 updates available");
}
