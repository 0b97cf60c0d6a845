use bedwatch_updater::scripts::{
    adopt_cask_fn, askpass_scope, cask_fns, check_script, macos_heads_up, protected_bundle_fn,
    section_label, upgrade_script, MACOS_INSTALLING_NOTE,
};
use bedwatch_updater::upgrade::{
    adopt_script, cask_entries, history_entry, is_cask_marker, is_valid_cask_token,
    plan_track_apps, plan_upgrade_items, split_cask_groups, ItemsPlan, TrackItem,
};

fn strings(v: &[&str]) -> Vec<String> {
    v.iter().map(|s| s.to_string()).collect()
}

#[test]
fn cask_tokens_admit_only_safe_characters() {
    assert!(is_valid_cask_token("visual-studio-code"));
    assert!(is_valid_cask_token("font_fira@2.0"));
    assert!(!is_valid_cask_token("evil'; rm -rf ~"));
    assert!(!is_valid_cask_token("a b"));
}

#[test]
fn nothing_selected_means_nothing_to_do() {
    assert!(matches!(plan_upgrade_items("brew_casks", &[], &[]), ItemsPlan::NothingSelected));
    let bad = strings(&["bad token"]);
    assert!(matches!(plan_upgrade_items("brew_casks", &bad, &[]), ItemsPlan::NothingSelected));
    let some = strings(&["x"]);
    assert!(matches!(plan_upgrade_items("npm_globals", &some, &[]), ItemsPlan::Unsupported));
}

#[test]
fn a_cask_batch_runs_in_one_shell_with_sentinels() {
    let items = strings(&["firefox", "bad token", "slack"]);
    let names = strings(&["Firefox", "Bad", "Slack"]);
    match plan_upgrade_items("brew_casks", &items, &names) {
        ItemsPlan::Casks { script, pairs } => {
            assert_eq!(
                pairs,
                vec![("firefox".to_string(), "Firefox".to_string()), ("slack".to_string(), "Slack".to_string())]
            );
            let body = "echo '__PM_CASK_START__:firefox'\nbrew_upgrade_cask 'firefox'\necho '__PM_CASK_END__:firefox'\n\
                        echo '__PM_CASK_START__:slack'\nbrew_upgrade_cask 'slack'\necho '__PM_CASK_END__:slack'\n";
            let expected = format!(
                "export PATH=\"/opt/homebrew/bin:/usr/local/bin:$PATH\"\nif command -v brew &>/dev/null; then\nexport PM_ASKPASS_APP='{scope}'\n{fn_def}\n{body}else\n  echo '✖  brew not found'\nfi",
                scope = "these 2 apps",
                fn_def = cask_fns(),
                body = body,
            );
            assert_eq!(script, expected);
        }
        _ => panic!("expected a cask batch"),
    }
}

#[test]
fn missing_display_names_fall_back_to_tokens() {
    let items = strings(&["alpha", "beta"]);
    let names = strings(&["Alpha"]);
    match plan_upgrade_items("brew_casks", &items, &names) {
        ItemsPlan::Casks { pairs, .. } => {
            assert_eq!(
                pairs,
                vec![("alpha".to_string(), "Alpha".to_string()), ("beta".to_string(), "beta".to_string())]
            );
        }
        _ => panic!("expected a cask batch"),
    }
}

#[test]
fn app_store_selections_open_the_store_listing_the_names() {
    let items = strings(&["1", "2"]);
    let names = strings(&["Xcode", "Keynote"]);
    match plan_upgrade_items("app_store", &items, &names) {
        ItemsPlan::Batch { script, names } => {
            assert_eq!(
                script,
                "echo '→  Opening App Store Updates for: Xcode, Keynote'\nopen 'macappstores://showUpdatesPage'\necho '✔  App Store opened — please click Update next to each app.'"
            );
            assert_eq!(names, strings(&["Xcode", "Keynote"]));
        }
        _ => panic!("expected a batch"),
    }
}

#[test]
fn macos_selections_quote_each_label() {
    let items = strings(&["macOS \"15\".2"]);
    match plan_upgrade_items("macos_updates", &items, &[]) {
        ItemsPlan::Batch { script, names } => {
            let heads_up = macos_heads_up("macOS 15.2");
            let labels = "\\\"macOS \\\"15\\\".2\\\"";
            let expected = format!(
                "{heads_up}\n{MACOS_INSTALLING_NOTE}\nosascript -e 'do shell script \"softwareupdate -i {labels}\" with administrator privileges' 2>&1\necho '→  macOS update complete.'"
            );
            assert_eq!(script, expected);
            assert_eq!(names, items);
        }
        _ => panic!("expected a batch"),
    }
}

#[test]
fn batch_output_splits_into_one_record_per_cask() {
    let lines = strings(&[
        "preamble noise",
        "__PM_CASK_START__:firefox",
        "==> Upgrading firefox",
        "__PM_CASK_END__:firefox",
        "between",
        "__PM_CASK_START__:slack",
        "==> Upgrading slack",
        "__PM_CASK_START__:zoom",
        "zoom line",
    ]);
    let groups = split_cask_groups(&lines);
    assert_eq!(
        groups,
        vec![
            ("firefox".to_string(), strings(&["==> Upgrading firefox"])),
            ("slack".to_string(), strings(&["==> Upgrading slack"])),
            ("zoom".to_string(), strings(&["zoom line"])),
        ]
    );
    let pairs = vec![("firefox".to_string(), "Firefox".to_string())];
    let entries = cask_entries(groups, &pairs, 42);
    assert_eq!(entries.len(), 3);
    assert_eq!(entries[0].item_names, strings(&["Firefox"]));
    assert_eq!(entries[1].item_names, strings(&["slack"]));
    assert_eq!(entries[2].label, "Homebrew Apps");
    assert_eq!(entries[2].ts, 42);
}

#[test]
fn sentinels_are_hidden_from_the_live_view() {
    assert!(is_cask_marker("__PM_CASK_END__:x"));
    assert!(!is_cask_marker("==> Upgrading"));
}

#[test]
fn history_entries_carry_the_section_label() {
    let e = history_entry(9, "ruby_rbenv", vec![], vec![], strings(&["ok"]));
    assert_eq!(e.label, "rbenv");
    assert_eq!(e.section, "ruby_rbenv");
    assert_eq!(e.lines, strings(&["ok"]));
}

#[test]
fn adopting_one_app_uses_the_user_folder_only_when_asked() {
    let script = adopt_script("slack", &Some("~/Applications".to_string())).unwrap();
    let expected = format!(
        "export PATH=\"/opt/homebrew/bin:/usr/local/bin:$PATH\"\nif command -v brew &>/dev/null; then\n{helper}\n{adopt}\nadopt_cask '{ud}' '{token}'\necho '→  Run a check to see this app move to Homebrew Apps.'\nelse\n  echo '✖  brew not found'\nfi",
        helper = protected_bundle_fn(),
        adopt = adopt_cask_fn(),
        ud = "user",
        token = "slack",
    );
    assert_eq!(script, expected);
    let other = adopt_script("slack", &Some("/tmp/evil".to_string())).unwrap();
    assert!(other.contains("adopt_cask '' 'slack'"));
    assert_eq!(adopt_script("bad token", &None), None);
}

#[test]
fn adopting_a_batch_skips_bad_tokens() {
    let items = vec![
        TrackItem { token: "slack".to_string(), name: "Slack".to_string(), appdir: None },
        TrackItem { token: "x y".to_string(), name: "Bad".to_string(), appdir: None },
        TrackItem { token: "figma".to_string(), name: "Figma".to_string(), appdir: Some("~/Applications".to_string()) },
    ];
    let plan = plan_track_apps(&items).unwrap();
    assert_eq!(plan.tokens, strings(&["slack", "figma"]));
    assert_eq!(plan.names, strings(&["Slack", "Figma"]));
    let expected = format!(
        "export PATH=\"/opt/homebrew/bin:/usr/local/bin:$PATH\"\nif command -v brew &>/dev/null; then\nexport PM_ASKPASS_APP='{scope}'\n{helper}\n{adopt}\n{calls}echo '→  All set! Run a check to move these apps to Homebrew Apps.'\nelse\n  echo '✖  brew not found'\nfi",
        scope = "these 2 apps",
        helper = protected_bundle_fn(),
        adopt = adopt_cask_fn(),
        calls = "adopt_cask '' 'slack'\nadopt_cask 'user' 'figma'\n",
    );
    assert_eq!(plan.script, expected);
    let none = vec![TrackItem { token: "x y".to_string(), name: "Bad".to_string(), appdir: None }];
    assert!(plan_track_apps(&none).is_none());
}

#[test]
fn the_password_dialog_names_one_app_or_counts_them() {
    assert_eq!(askpass_scope(&strings(&["Bob's \"App\"\\"])), "Bob'\\''s App");
    assert_eq!(askpass_scope(&strings(&["A", "B", "C"])), "these 3 apps");
    assert_eq!(askpass_scope(&[]), "these 0 apps");
}

#[test]
fn sections_have_labels_checks_and_upgrades() {
    assert_eq!(section_label("macos_updates"), "OS System Updates");
    assert_eq!(section_label("brew_formulae"), "brew");
    assert_eq!(section_label("other"), "Unknown");
    assert!(check_script("pip_packages").is_some());
    assert!(check_script("other").is_none());
    assert!(upgrade_script("untracked_apps").is_none());
    let macos = upgrade_script("macos_updates").unwrap();
    let heads_up = macos_heads_up("your available macOS system updates");
    assert_eq!(
        macos,
        format!("{heads_up}\n{MACOS_INSTALLING_NOTE}\nosascript -e 'do shell script \"softwareupdate -ia --verbose\" with administrator privileges' 2>&1\necho '→  macOS update complete.'")
    );
    let casks = upgrade_script("brew_casks").unwrap();
    assert!(casks.contains(&cask_fns()));
    assert!(casks.contains("brew upgrade --cask --greedy"));
}

#[test]
fn the_heads_up_names_what_is_installed() {
    let template = r#"osascript -e 'display dialog "PartyMAN Update Manager is about to install __WHAT__.\n\nmacOS will now ask for your administrator password. Its prompt is shown by the system and may appear as \"osascript\"." with title "PartyMAN Update Manager" with icon note buttons {"Cancel", "Continue"} default button "Continue"' >/dev/null 2>&1 || { echo "✖  Update cancelled."; exit 0; }"#;
    assert_eq!(macos_heads_up("Safari 18"), template.replace("__WHAT__", "Safari 18"));
}

#[test]
fn the_cask_helpers_come_in_order() {
    assert!(cask_fns().starts_with(protected_bundle_fn()));
}
