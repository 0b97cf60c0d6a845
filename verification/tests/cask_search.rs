use bedwatch_updater::cask_search::{
    after_exact_lookup, CaskLookup,
    candidates_from_info, candidates_from_search, cask_info_script, cask_search_script, guess_token,
};

fn pairs(v: &[bedwatch_updater::cask_search::CaskCandidate]) -> Vec<(String, String)> {
    v.iter().map(|c| (c.token.clone(), c.name.clone())).collect()
}

#[test]
fn a_token_is_guessed_from_the_app_name() {
    assert_eq!(guess_token("Visual Studio Code"), "visual-studio-code");
    assert_eq!(guess_token("Notepad++"), "notepad++");
    assert_eq!(guess_token("Bob's App!"), "bobs-app");
    assert_eq!(guess_token("ÉCLAIR"), "éclair");
}

#[test]
fn the_lookup_scripts_quote_the_name_safely() {
    assert_eq!(
        cask_info_script("Bob's App"),
        "export PATH=\"/usr/local/bin:/opt/homebrew/bin:$PATH\"; brew info --cask --json=v2 'bobs-app' 2>/dev/null"
    );
    assert_eq!(
        cask_search_script("Bob's App"),
        "export PATH=\"/usr/local/bin:/opt/homebrew/bin:$PATH\"; brew search --casks 'Bobs App' 2>/dev/null"
    );
}

#[test]
fn exact_lookups_read_tokens_and_first_names() {
    let json = br#"{"casks":[
        {"token":"firefox","name":["Mozilla Firefox","Firefox"]},
        {"token":"nameless","name":[]},
        {"name":["No Token"]}
    ]}"#;
    assert_eq!(
        pairs(&candidates_from_info(true, json)),
        vec![
            ("firefox".to_string(), "Mozilla Firefox".to_string()),
            ("nameless".to_string(), "nameless".to_string()),
        ]
    );
}

#[test]
fn a_failed_or_empty_lookup_finds_nothing() {
    assert!(candidates_from_info(false, br#"{"casks":[{"token":"a"}]}"#).is_empty());
    assert!(candidates_from_info(true, b"").is_empty());
    assert!(candidates_from_info(true, b"Error: No available cask").is_empty());
    assert!(candidates_from_info(true, br#"{"casks":"oops"}"#).is_empty());
}

#[test]
fn a_search_offers_its_first_five_hits_trimmed() {
    let out = b"==> Casks\n  a \nb\n\nNo formulae or casks found\nc\nd\ne\nf\n";
    assert_eq!(
        pairs(&candidates_from_search(true, out)),
        vec![
            ("a".to_string(), "a".to_string()),
            ("b".to_string(), "b".to_string()),
            ("c".to_string(), "c".to_string()),
            ("d".to_string(), "d".to_string()),
            ("e".to_string(), "e".to_string()),
        ]
    );
    assert!(candidates_from_search(false, out).is_empty());
}

#[test]
fn an_empty_exact_lookup_falls_back_to_a_search() {
    match after_exact_lookup("Slack", true, br#"{"casks":[{"token":"slack","name":["Slack"]}]}"#) {
        CaskLookup::Found(v) => assert_eq!(pairs(&v), vec![("slack".to_string(), "Slack".to_string())]),
        CaskLookup::Search(_) => panic!("expected the exact hit"),
    }
    match after_exact_lookup("Slack", false, b"") {
        CaskLookup::Search(s) => assert_eq!(s, cask_search_script("Slack")),
        CaskLookup::Found(_) => panic!("expected a search"),
    }
}
