use nightcrab::browser::{App, Key, Mode, Panel};
use nightcrab::catalogue::load_catalogue;
use nightcrab::filter::filter_indices;
use nightcrab::json::Json;
use nightcrab::scan::{match_scan_output, match_scan_text, MatchRule, ScanError};
use nightcrab::search::{first_containing, search_position};
use nightcrab::weapons::{Attribute, Rank, Weapon};

fn obj(members: Vec<(&str, Json)>) -> Json {
    Json::Object(members.into_iter().map(|(k, v)| (String::from(k), v)).collect())
}

fn text(s: &str) -> Json {
    Json::Str(String::from(s))
}

fn named(s: &str) -> Json {
    obj(vec![("name", text(s))])
}

fn entry(name: &str, entries: &[(&str, &str)]) -> Json {
    let scaling = Json::Array(
        entries
            .iter()
            .map(|(attr, rank)| obj(vec![("value", text(rank)), ("attribute", named(attr))]))
            .collect(),
    );
    obj(vec![
        ("name", text(name)),
        ("weaponPassive", Json::Null),
        ("weaponType", named("Sword")),
        ("attackAffinity", Json::Null),
        ("attackPower", Json::Null),
        ("guardedNegation", Json::Null),
        ("attributeScaling", scaling),
        ("statusAilment", obj(vec![("value", Json::Null)])),
        ("ashOfWar", Json::Null),
    ])
}

fn document(entries: Vec<Json>) -> Json {
    let list = Json::Array(
        entries
            .into_iter()
            .map(|e| obj(vec![("data", obj(vec![("staticDataEntity", e)]))]))
            .collect(),
    );
    obj(vec![(
        "data",
        obj(vec![(
            "game",
            obj(vec![(
                "documents",
                obj(vec![("wikiDocuments", obj(vec![("documents", list)]))]),
            )]),
        )]),
    )])
}

fn catalogue(entries: Vec<Json>) -> Vec<Weapon> {
    load_catalogue(&document(entries)).ok().unwrap()
}

fn three() -> Vec<Weapon> {
    catalogue(vec![
        entry("Dagger", &[("Dexterity", "B"), ("Strength", "E")]),
        entry("Moonveil", &[("Dexterity", "C"), ("Intelligence", "B")]),
        entry("Greatsword", &[("Strength", "A")]),
    ])
}

fn names(app: &App) -> Vec<String> {
    app.displayed
        .iter()
        .map(|&i| app.catalogue[i].name.clone())
        .collect()
}

fn key(app: App, c: char) -> App {
    app.on_key(Key::Char(c))
}

#[test]
fn strength_filter_shows_only_strength_sorted_and_toggles_back() {
    let app = App::new(three());
    assert_eq!(names(&app), vec!["Dagger", "Moonveil", "Greatsword"]);
    let app = key(app, 's');
    assert_eq!(app.filter, Some(Attribute::Strength));
    assert_eq!(names(&app), vec!["Greatsword", "Dagger"]);
    let app = key(app, 's');
    assert_eq!(app.filter, None);
    assert_eq!(names(&app), vec!["Dagger", "Moonveil", "Greatsword"]);
}

#[test]
fn filter_twice_restores_subset() {
    for c in ['s', 'd', 'i', 'f', 'a'] {
        let app = App::new(three());
        let before = app.displayed.clone();
        let app = key(key(app, c), c);
        assert_eq!(app.displayed, before);
    }
}

#[test]
fn filter_on_set_attribute_twice_restores_subset() {
    let app = key(App::new(three()), 'd');
    let before = app.displayed.clone();
    let app = key(key(app, 'd'), 'd');
    assert_eq!(app.displayed, before);
}

#[test]
fn filter_sorts_by_rank_and_keeps_ties_in_order() {
    let cat = catalogue(vec![
        entry("E1", &[("Faith", "E")]),
        entry("S1", &[("Faith", "S")]),
        entry("None", &[]),
        entry("C1", &[("Faith", "C")]),
        entry("S2", &[("Faith", "S")]),
        entry("A1", &[("Faith", "A")]),
    ]);
    let shown = filter_indices(&cat, Attribute::Faith);
    assert_eq!(shown, vec![1, 4, 5, 3, 0]);
    let ranks: Vec<Option<Rank>> = shown.iter().map(|&i| cat[i].scaling[3].1).collect();
    assert!(ranks.iter().all(|r| r.is_some()));
}

#[test]
fn switching_filter_replaces_the_previous_one() {
    let app = key(App::new(three()), 's');
    let app = key(app, 'i');
    assert_eq!(app.filter, Some(Attribute::Intelligence));
    assert_eq!(names(&app), vec!["Moonveil"]);
    let app = key(app, 'n');
    assert_eq!(app.filter, None);
    assert_eq!(names(&app).len(), 3);
}

#[test]
fn filter_keeps_the_selected_record() {
    let app = App::new(three());
    let app = key(key(app, 'j'), 'j');
    assert_eq!(app.selected, Some(2));
    let app = key(app, 's');
    assert_eq!(names(&app)[app.selected.unwrap()], "Greatsword");
    assert_eq!(app.selected, Some(0));
    let app = key(app, 'a');
    assert_eq!(app.displayed.len(), 0);
    assert_eq!(app.selected, None);
}

#[test]
fn selection_of_a_hidden_record_moves_to_first_row() {
    let app = key(App::new(three()), 'j');
    assert_eq!(app.selected, Some(1));
    let app = key(app, 's');
    assert_eq!(app.selected, Some(0));
}

#[test]
fn navigation_wraps_at_both_ends() {
    let app = App::new(three());
    assert_eq!(app.selected, Some(0));
    let app = app.on_key(Key::Up);
    assert_eq!(app.selected, Some(2));
    let app = key(app, 'j');
    assert_eq!(app.selected, Some(0));
    let app = app.on_key(Key::Down);
    assert_eq!(app.selected, Some(1));
    let app = key(app, 'k');
    assert_eq!(app.selected, Some(0));
}

#[test]
fn navigation_wraps_within_the_visible_subset() {
    let app = key(App::new(three()), 's');
    assert_eq!(app.selected, Some(1));
    let app = key(app, 'j');
    assert_eq!(app.selected, Some(0));
    let app = key(app, 'j');
    assert_eq!(app.selected, Some(1));
}

#[test]
fn empty_catalogue_selects_nothing() {
    let app = App::new(Vec::new());
    assert_eq!(app.selected, None);
    let app = key(app, 'j');
    assert_eq!(app.selected, None);
}

#[test]
fn mode_transitions() {
    let app = App::new(three());
    assert_eq!(app.mode, Mode::Navigating);
    let app = key(app, '/');
    assert_eq!(app.mode, Mode::Searching);
    let app = app.on_key(Key::Enter);
    assert_eq!(app.mode, Mode::Navigating);
    let app = key(app, 'v');
    assert_eq!(app.mode, Mode::Scanning);
    let app = key(app, 'q');
    assert_eq!(app.mode, Mode::Scanning);
    let app = app.on_key(Key::Esc);
    assert_eq!(app.mode, Mode::Navigating);
    let app = key(app, 'q');
    assert_eq!(app.mode, Mode::Exiting);
    let app = key(app, '/');
    assert_eq!(app.mode, Mode::Exiting);
}

#[test]
fn search_selects_first_match_case_insensitively() {
    let app = key(App::new(three()), '/');
    let app = key(app, 'M');
    assert_eq!(app.query, vec!['m']);
    assert_eq!(app.selected, Some(1));
    let app = key(app, 'z');
    assert_eq!(app.selected, None);
    let app = app.on_key(Key::Backspace);
    assert_eq!(app.query, vec!['m']);
    assert_eq!(app.selected, Some(1));
}

#[test]
fn search_runs_against_the_visible_subset() {
    let app = key(App::new(three()), 's');
    let app = key(app, '/');
    let app = key(key(app, 'g'), 'r');
    assert_eq!(app.selected, Some(0));
    let app = key(app, 'e');
    assert_eq!(names(&app)[app.selected.unwrap()], "Greatsword");
}

#[test]
fn leaving_search_clears_query_and_keeps_selection() {
    let app = key(App::new(three()), '/');
    let app = key(key(app, 'o'), 'o');
    assert_eq!(app.selected, Some(1));
    let app = app.on_key(Key::Esc);
    assert_eq!(app.mode, Mode::Navigating);
    assert!(app.query.is_empty());
    assert_eq!(app.selected, Some(1));
}

#[test]
fn backspace_on_empty_query_matches_first() {
    let app = key(App::new(three()), '/');
    let app = app.on_key(Key::Backspace);
    assert!(app.query.is_empty());
    assert_eq!(app.selected, Some(0));
}

#[test]
fn longer_query_matches_a_subset() {
    let cat = three();
    let all: Vec<usize> = vec![0, 1, 2];
    let queries = ["", "e", "ea", "eat", "eats", "eatsz"];
    let mut previous: Vec<usize> = all.clone();
    for q in queries {
        let query: Vec<char> = q.chars().collect();
        let matching: Vec<usize> = all
            .iter()
            .copied()
            .filter(|&p| search_position(&cat, &vec![all[p]], &query).is_some())
            .collect();
        assert!(matching.iter().all(|p| previous.contains(p)));
        previous = matching;
    }
    assert!(previous.is_empty());
}

#[test]
fn first_containing_uses_folded_names_as_given() {
    let folded = vec![String::from("dagger"), String::from("moonveil")];
    let shown = vec![1, 0];
    assert_eq!(first_containing(&folded, &shown, &vec!['g', 'g']), Some(1));
    assert_eq!(first_containing(&folded, &shown, &vec!['v']), Some(0));
    assert_eq!(first_containing(&folded, &shown, &vec!['x']), None);
}

#[test]
fn scan_matches_name_ignoring_case_and_trailing_space() {
    let cat = three();
    assert_eq!(match_scan_text("moonveil \n", &cat, MatchRule::Contains), Ok(1));
    assert_eq!(match_scan_text("MOONVEIL", &cat, MatchRule::Exact), Ok(1));
    assert_eq!(
        match_scan_output(b"moonveil\n".to_vec(), &cat, MatchRule::Contains),
        Ok(1)
    );
}

#[test]
fn scan_contains_matches_a_part_of_the_name() {
    let cat = three();
    assert_eq!(match_scan_text("sword", &cat, MatchRule::Contains), Ok(2));
    assert_eq!(
        match_scan_text("sword", &cat, MatchRule::Exact),
        Err(ScanError::NoRecordMatched {
            raw_text: String::from("sword")
        })
    );
}

#[test]
fn scan_without_match_leaves_selection_unchanged() {
    let cat = three();
    let outcome = match_scan_text("zzz-not-a-weapon", &cat, MatchRule::Contains);
    assert_eq!(
        outcome,
        Err(ScanError::NoRecordMatched {
            raw_text: String::from("zzz-not-a-weapon")
        })
    );
    let app = key(key(App::new(cat), 'j'), 'v');
    let app = app.on_scan(Panel::Upper, outcome);
    assert_eq!(app.selected, Some(1));
    assert_eq!(app.upper, None);
    assert_eq!(
        app.diagnostic,
        "Could not find matching item\n Scanned: zzz-not-a-weapon"
    );
}

#[test]
fn scan_result_fills_its_panel() {
    let app = App::new(three());
    let app = app.on_scan(Panel::Lower, Ok(2));
    assert_eq!(app.lower, Some(2));
    assert_eq!(app.upper, None);
    assert_eq!(app.selected, Some(0));
    let app = app.on_scan(Panel::Upper, Ok(1));
    assert_eq!(app.upper, Some(1));
    assert_eq!(app.lower, Some(2));
}

#[test]
fn scan_errors() {
    let cat = three();
    assert_eq!(
        match_scan_text("", &cat, MatchRule::Contains),
        Err(ScanError::NoTextFound)
    );
    assert_eq!(
        match_scan_output(Vec::new(), &cat, MatchRule::Contains),
        Err(ScanError::NoTextFound)
    );
    assert_eq!(
        match_scan_output(vec![0xff, 0xfe], &cat, MatchRule::Contains),
        Err(ScanError::DecodeFailed)
    );
    assert_eq!(ScanError::NoTextFound.message(), "Scanned nothing");
    assert_eq!(
        ScanError::CaptureUnavailable.message(),
        "Failed to start the screen capture"
    );
    assert_eq!(
        ScanError::OcrUnavailable.message(),
        "Failed to read text from the capture"
    );
    assert_eq!(
        ScanError::DecodeFailed.message(),
        "Failed to decode the scanned text"
    );
}
