use bedwatch_updater::schedule::{
    agent_current, agent_plist, apply_settings, bootstrap_error, calendar_entries, checked_section,
    ensure_agent_current, is_due, is_due_at, next_hourly_after, next_run, next_run_after,
    next_run_from, notification_body, plist_points_at, record_recheck, record_recount,
    record_run, record_section, record_snooze, sync_agent, xml_escape, AgentAction, LastCheck,
    ScheduleConfig, SCHEDULED_RUN_FLAG,
};
use bedwatch_updater::section_map::SectionMap;
use chrono::{Datelike, Local, TimeZone, Timelike};

#[test]
fn weekly_lands_on_the_chosen_day_and_time() {
    let mut cfg = ScheduleConfig::default();
    cfg.frequency = "weekly".into();
    cfg.weekday = 3; // Wednesday
    cfg.hour = 9;
    cfg.minute = 30;

    let from = Local.with_ymd_and_hms(2026, 8, 13, 12, 0, 0).unwrap(); // a Thursday
    let next = Local.timestamp_opt(next_run_after(from.timestamp(), &cfg), 0).unwrap();

    assert_eq!(next.weekday().num_days_from_sunday(), 3);
    assert_eq!((next.hour(), next.minute()), (9, 30));
    assert!(next > from, "must be in the future");
    // the very next Wednesday, not the one after
    assert!((next - from).num_days() < 7);
}

#[test]
fn daily_rolls_to_tomorrow_once_todays_slot_has_passed() {
    let mut cfg = ScheduleConfig::default();
    cfg.frequency = "daily".into();
    cfg.hour = 10;
    cfg.minute = 0;

    let before = Local.with_ymd_and_hms(2026, 8, 13, 9, 0, 0).unwrap();
    let next = Local.timestamp_opt(next_run_after(before.timestamp(), &cfg), 0).unwrap();
    assert_eq!((next.hour(), next.minute()), (10, 0));
    assert_eq!((next - before).num_hours(), 1);

    let after = Local.with_ymd_and_hms(2026, 8, 13, 11, 0, 0).unwrap();
    let next = Local.timestamp_opt(next_run_after(after.timestamp(), &cfg), 0).unwrap();
    assert_eq!((next - after).num_hours(), 23);
}

#[test]
fn hourly_uses_the_minute_and_ignores_the_hour() {
    let mut cfg = ScheduleConfig::default();
    cfg.frequency = "hourly".into();
    cfg.minute = 15;

    let from = Local.with_ymd_and_hms(2026, 8, 13, 9, 20, 0).unwrap();
    let next = Local.timestamp_opt(next_run_after(from.timestamp(), &cfg), 0).unwrap();
    assert_eq!((next.hour(), next.minute()), (10, 15));
}

#[test]
fn a_schedule_that_never_ran_waits_for_its_slot() {
    let mut cfg = ScheduleConfig::default();
    cfg.enabled = true;
    cfg.last_run = 0;
    assert!(!is_due(&cfg));
}

#[test]
fn plist_calendar_keys_match_the_frequency() {
    let mut cfg = ScheduleConfig::default();
    cfg.frequency = "hourly".into();
    cfg.minute = 5;
    let hourly = calendar_entries(&cfg);
    assert!(hourly.contains("<key>Minute</key><integer>5</integer>"));
    assert!(!hourly.contains("Hour"), "hourly must not pin an hour: {hourly}");

    cfg.frequency = "weekly".into();
    cfg.weekday = 6;
    let weekly = calendar_entries(&cfg);
    assert!(weekly.contains("<key>Weekday</key><integer>6</integer>"), "{weekly}");
    assert!(weekly.contains("<key>Hour</key>"), "{weekly}");
}

#[test]
fn daily_calendar_pins_hour_and_minute_but_no_weekday() {
    let mut cfg = ScheduleConfig::default();
    cfg.hour = 4;
    cfg.minute = 20;
    assert_eq!(
        calendar_entries(&cfg),
        "        <key>Minute</key><integer>20</integer>\n        <key>Hour</key><integer>4</integer>\n"
    );
}

#[test]
fn out_of_range_times_are_clamped() {
    let mut cfg = ScheduleConfig::default();
    cfg.minute = 75;
    cfg.hour = 30;
    cfg.weekday = 9;
    assert_eq!(cfg.minute(), 59);
    assert_eq!(cfg.hour(), 23);
    assert_eq!(cfg.weekday(), 2);
}

#[test]
fn the_next_hourly_run_is_the_first_mark_after_now() {
    assert_eq!(next_hourly_after(1000, 400), 4000);
    assert_eq!(next_hourly_after(1000, 1000), 4600);
    assert_eq!(next_hourly_after(1000, 1200), 1200);
}

#[test]
fn a_slot_must_be_later_and_on_the_chosen_weekday() {
    let mut cfg = ScheduleConfig::default();
    cfg.frequency = "weekly".into();
    cfg.weekday = 3;
    let slots = [Some((500, 3)), Some((2000, 2)), Some((3000, 3)), None];
    assert_eq!(next_run_from(1000, &cfg, None, &slots), 3000);
    cfg.frequency = "daily".into();
    assert_eq!(next_run_from(1000, &cfg, None, &slots), 2000);
    // nothing qualifies: a day (or a week) after `from`
    assert_eq!(next_run_from(5000, &cfg, None, &slots), 5000 + 24 * 3600);
    cfg.frequency = "weekly".into();
    assert_eq!(next_run_from(5000, &cfg, None, &slots), 5000 + 7 * 24 * 3600);
}

#[test]
fn a_run_is_due_only_once_its_slot_has_come() {
    let mut cfg = ScheduleConfig::default();
    cfg.enabled = true;
    cfg.last_run = 100;
    assert!(is_due_at(&cfg, 500, 500));
    assert!(!is_due_at(&cfg, 499, 500));
    cfg.enabled = false;
    assert!(!is_due_at(&cfg, 900, 500));
}

#[test]
fn a_disabled_schedule_never_runs() {
    let cfg = ScheduleConfig::default();
    assert_eq!(next_run(&cfg), 0);
}

#[test]
fn a_run_records_its_time_counts_and_total() {
    let cfg = ScheduleConfig::default();
    let mut counts = SectionMap::new();
    counts.insert("brew_casks".to_string(), 2);
    counts.insert("npm_globals".to_string(), 5);
    let cfg = record_run(cfg, counts, 777).unwrap();
    assert_eq!(cfg.last_run, 777);
    assert_eq!(cfg.last_total, 2);
    assert_eq!(cfg.last_counts.get("npm_globals"), Some(&5));
}

#[test]
fn a_recount_replaces_one_section_and_the_total() {
    let mut cfg = ScheduleConfig::default();
    cfg.last_counts.insert("brew_casks".to_string(), 4);
    cfg.last_counts.insert("app_store".to_string(), 1);
    cfg.last_total = 5;
    let cfg = record_recount(cfg, "brew_casks", 0).unwrap();
    assert_eq!(cfg.last_counts.get("brew_casks"), Some(&0));
    assert_eq!(cfg.last_counts.get("app_store"), Some(&1));
    assert_eq!(cfg.last_total, 1);
}

#[test]
fn snoozing_keeps_the_count() {
    let mut cfg = ScheduleConfig::default();
    cfg.last_total = 3;
    let cfg = record_snooze(cfg, 1000, 2).unwrap();
    assert_eq!(cfg.snoozed_until, 1000 + 2 * 3600);
    assert_eq!(cfg.last_total, 3);
    assert!(record_snooze(ScheduleConfig::default(), u64::MAX, 1).is_none());
}

#[test]
fn new_settings_keep_the_run_history() {
    let mut previous = ScheduleConfig::default();
    previous.last_run = 42;
    previous.snoozed_until = 99;
    previous.last_counts.insert("npm_globals".to_string(), 8);
    previous.last_counts.insert("app_store".to_string(), 1);
    previous.last_total = 1;
    let mut sent = ScheduleConfig::default();
    sent.enabled = true;
    sent.count_dev_updates = true;
    sent.last_run = 0;
    let cfg = apply_settings(previous, sent).unwrap();
    assert!(cfg.enabled);
    assert_eq!(cfg.last_run, 42);
    assert_eq!(cfg.snoozed_until, 99);
    assert_eq!(cfg.last_total, 9);
}

#[test]
fn notifications_name_the_count_and_respect_the_snooze() {
    let mut cfg = ScheduleConfig::default();
    cfg.last_total = 1;
    assert_eq!(
        notification_body(&cfg, 10).as_deref(),
        Some("1 update is available. Open PartyMAN to install or postpone.")
    );
    cfg.last_total = 12;
    assert_eq!(
        notification_body(&cfg, 10).as_deref(),
        Some("12 updates are available. Open PartyMAN to install or postpone.")
    );
    cfg.snoozed_until = 11;
    assert_eq!(notification_body(&cfg, 10), None);
    cfg.snoozed_until = 0;
    cfg.notify = false;
    assert_eq!(notification_body(&cfg, 10), None);
}

#[test]
fn the_plist_runs_this_binary_with_the_scheduled_flag() {
    let mut cfg = ScheduleConfig::default();
    cfg.hour = 4;
    cfg.minute = 20;
    let plist = agent_plist("/Apps/A & B.app/bin", &cfg);
    assert!(plist.contains("<string>/Apps/A &amp; B.app/bin</string>"));
    assert!(plist.contains(SCHEDULED_RUN_FLAG));
    assert!(plist.contains("<key>Hour</key><integer>4</integer>"));
    assert!(plist_points_at(&plist, "/Apps/A & B.app/bin"));
    assert!(!plist_points_at(&plist, "/Elsewhere/bin"));
}

#[test]
fn xml_special_characters_are_escaped() {
    assert_eq!(xml_escape("a<b>&c"), "a&lt;b&gt;&amp;c");
}

#[test]
fn bootstrap_errors_carry_launchctls_words() {
    assert_eq!(bootstrap_error("  Input/output error\n"), "launchctl bootstrap failed: Input/output error");
}

#[test]
fn the_agent_follows_the_schedule() {
    let mut cfg = ScheduleConfig::default();
    assert_eq!(sync_agent(&cfg), AgentAction::Remove);
    assert_eq!(ensure_agent_current(&cfg, false), AgentAction::Keep);
    cfg.enabled = true;
    assert_eq!(sync_agent(&cfg), AgentAction::Install);
    assert_eq!(ensure_agent_current(&cfg, false), AgentAction::Install);
    assert_eq!(ensure_agent_current(&cfg, true), AgentAction::Keep);
}

#[test]
fn only_update_sections_are_checked_on_schedule() {
    assert!(checked_section("brew_formulae"));
    assert!(!checked_section("untracked_apps"));
    assert!(!checked_section("nonsense"));
}

#[test]
fn a_section_checked_during_a_run_is_recorded_twice_over() {
    let mut counts = SectionMap::new();
    let mut last = LastCheck::default();
    last.ts = 5;
    record_section(&mut counts, &mut last, "ruby_rvm", vec!["⚠  Current: a  |  Latest: b".to_string()]);
    assert_eq!(counts.get("ruby_rvm"), Some(&1));
    assert_eq!(last.sections.get("ruby_rvm").map(|v| v.len()), Some(1));
    assert_eq!(last.ts, 5);
}

#[test]
fn a_recheck_stamps_a_first_run() {
    let last = record_recheck(LastCheck::default(), "app_store", vec![], 77);
    assert_eq!(last.ts, 77);
    let last = record_recheck(last, "app_store", vec!["x".to_string()], 99);
    assert_eq!(last.ts, 77);
    assert_eq!(last.sections.len(), 1);
}

#[test]
fn beyond_local_times_range_the_fallback_period_applies() {
    let mut cfg = ScheduleConfig::default();
    let far = 9_000_000_000_000;
    assert_eq!(next_run_after(far, &cfg), far + 24 * 3600);
    cfg.frequency = "weekly".into();
    assert_eq!(next_run_after(-far, &cfg), -far + 7 * 24 * 3600);
    cfg.frequency = "hourly".into();
    assert_eq!(next_run_after(far, &cfg), far + 3600);
    assert_eq!(next_run_after(i64::MAX - 10, &cfg), i64::MAX);
}

#[test]
fn slots_are_looked_up_near_the_end_of_chronos_range() {
    let cfg = ScheduleConfig::default();
    let from = 8_100_000_000_000;
    let next = next_run_after(from, &cfg);
    assert!(next > from && next - from <= 26 * 3600);
    let t = Local.timestamp_opt(next, 0).unwrap();
    assert_eq!((t.hour(), t.minute()), (10, 0));
}

#[test]
fn an_agent_is_current_only_when_loaded_and_pointing_here() {
    let cfg = ScheduleConfig::default();
    let plist = agent_plist("/Apps/PM.app/bin", &cfg);
    assert!(agent_current(true, &plist, "/Apps/PM.app/bin"));
    assert!(!agent_current(false, &plist, "/Apps/PM.app/bin"));
    assert!(!agent_current(true, &plist, "/Moved/PM.app/bin"));
}
