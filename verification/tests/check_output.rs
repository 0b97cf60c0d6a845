use bedwatch_updater::check_output::{
    collect_output, count_for, parse_items, strip_trailing_parenthetical, summary_count,
    total_from_counts,
};
use bedwatch_updater::section_map::SectionMap;

fn lines(s: &str) -> Vec<String> {
    s.lines().map(|l| l.to_string()).collect()
}

#[test]
fn counts_itemised_sections_by_item() {
    let out = lines(
        "→  Refreshing Homebrew…\n\
         ⚠  Outdated apps:\n   \
         alt-tab (6.46.1) != 11.4.4\n   \
         brave-browser (1.91.172.0) != 1.93.136.0\n\
         →  To upgrade all: brew upgrade --cask",
    );
    let items = parse_items("brew_casks", &out);
    assert_eq!(items.len(), 2);
    assert_eq!(items[0].id, "alt-tab");
    // the trailing "→" line must not be counted as an app
    assert_eq!(count_for("brew_casks", &out), 2);
}

#[test]
fn reads_the_summary_count_for_non_itemised_sections() {
    let out = lines(
        "⚠  7 outdated formula(e):\n   \
         foo 1.0 -> 2.0\n\
         →  To upgrade all: brew upgrade",
    );
    assert_eq!(count_for("brew_formulae", &out), 7);
}

#[test]
fn a_warning_without_a_number_counts_as_one() {
    let out = lines("⚠  Current: ruby-3.1.0  |  Latest: ruby-3.3.0");
    assert_eq!(count_for("ruby_rvm", &out), 1);
}

#[test]
fn up_to_date_sections_count_zero() {
    assert_eq!(count_for("brew_formulae", &lines("✔  All up to date.")), 0);
    assert_eq!(
        count_for("brew_casks", &lines("✔  All Homebrew cask apps are up to date.")),
        0
    );
}

#[test]
fn parses_app_store_ids_and_names() {
    let out = lines(
        "⚠  Outdated App Store apps:\n   \
         497799835 Xcode (15.0 -> 15.1)\n   \
         garbage line without an id",
    );
    let items = parse_items("app_store", &out);
    assert_eq!(items.len(), 1);
    assert_eq!(items[0].id, "497799835");
    assert_eq!(items[0].name, "Xcode");
}

#[test]
fn parses_macos_labels_and_untracked_app_dirs() {
    let macos = lines("   * Label: macOS Sequoia 15.2-24C101\n   Title: macOS Sequoia");
    let items = parse_items("macos_updates", &macos);
    assert_eq!(items.len(), 1);
    assert_eq!(items[0].name, "macOS Sequoia 15.2-24C101");

    let untracked = lines("⚠  Slack\n⚠  Figma [~/Applications]\n✔  No untracked apps found.");
    let items = parse_items("untracked_apps", &untracked);
    assert_eq!(items.len(), 2);
    assert_eq!(items[1].name, "Figma");
    assert_eq!(items[1].app_dir.as_deref(), Some("~/Applications"));
}

#[test]
fn badge_total_counts_only_apps_and_system_updates() {
    let mut counts = SectionMap::new();
    counts.insert("brew_casks".to_string(), 3);
    counts.insert("app_store".to_string(), 2);
    counts.insert("macos_updates".to_string(), 1);
    counts.insert("untracked_apps".to_string(), 9);
    // developer tooling is checked and shown, but never inflates the badge
    counts.insert("brew_formulae".to_string(), 137);
    counts.insert("ruby_rvm".to_string(), 265);
    counts.insert("npm_globals".to_string(), 2);
    counts.insert("pip_packages".to_string(), 7);
    assert_eq!(total_from_counts(&counts, false), 6);
    // opting in adds the package managers but never untracked apps
    assert_eq!(total_from_counts(&counts, true), 6 + 137 + 265 + 2 + 7);
}

#[test]
fn summary_numbers_add_up_across_warning_lines() {
    let out = lines("⚠  3 outdated npm packages:\n⚠  2 more\n   not a warning 9");
    assert_eq!(count_for("npm_globals", &out), 5);
    assert_eq!(summary_count(&out), Some(5));
}

#[test]
fn a_number_too_large_for_a_count_counts_as_one() {
    let out = lines("⚠  99999999999999999999999 outdated gems");
    assert_eq!(count_for("ruby_rbenv", &out), 1);
}

#[test]
fn summary_totals_past_usize_are_refused() {
    let big = format!("⚠  {} outdated", usize::MAX);
    let out = vec![big.clone(), big];
    assert_eq!(summary_count(&out), None);
}

#[test]
fn parentheticals_are_stripped_from_names() {
    assert_eq!(strip_trailing_parenthetical("Xcode (15.0 -> 15.1)"), "Xcode");
    assert_eq!(strip_trailing_parenthetical("  Plain Name  "), "  Plain Name");
    assert_eq!(strip_trailing_parenthetical("Pages ( x ) "), "Pages");
    assert_eq!(strip_trailing_parenthetical("Odd (name"), "Odd (name");
}

#[test]
fn untracked_apps_are_never_counted_in_the_badge() {
    let mut counts = SectionMap::new();
    counts.insert("untracked_apps".to_string(), 40);
    assert_eq!(total_from_counts(&counts, false), 0);
    assert_eq!(total_from_counts(&counts, true), 0);
}

#[test]
fn counting_a_section_again_replaces_its_count() {
    let mut counts = SectionMap::new();
    counts.insert("brew_casks".to_string(), 3);
    counts.insert("brew_casks".to_string(), 1);
    assert_eq!(counts.len(), 1);
    assert_eq!(counts.get("brew_casks"), Some(&1));
    assert_eq!(total_from_counts(&counts, false), 1);
}

#[test]
fn collected_output_is_stdout_then_stderr_with_bad_bytes_replaced() {
    let out = collect_output(b"one\r\ntwo\n", b"err \xff\n");
    assert_eq!(out, vec!["one".to_string(), "two".to_string(), "err \u{fffd}".to_string()]);
}
