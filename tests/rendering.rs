use nightcrab::display::{table_row, WeaponDetailsWidget};
use nightcrab::http::{build_request, without_controls, LineRoute, ResponseLines};
use nightcrab::json::Json;
use nightcrab::text::{contains, decimal_string, trim};
use nightcrab::weapons::Weapon;

fn obj(members: Vec<(&str, Json)>) -> Json {
    Json::Object(members.into_iter().map(|(k, v)| (String::from(k), v)).collect())
}

fn text(s: &str) -> Json {
    Json::Str(String::from(s))
}

fn named(s: &str) -> Json {
    obj(vec![("name", text(s))])
}

fn values(vs: &[u64]) -> Json {
    Json::Array(
        vs.iter()
            .map(|v| obj(vec![("value", Json::Number(Some(*v)))]))
            .collect(),
    )
}

fn uchigatana(affinity: Json, ailment: Json) -> Weapon {
    let scaling = Json::Array(vec![
        obj(vec![("value", text("D")), ("attribute", named("Strength"))]),
        obj(vec![("value", text("C")), ("attribute", named("Dexterity"))]),
    ]);
    let data = obj(vec![
        ("name", text("Uchigatana")),
        ("weaponPassive", Json::Null),
        ("weaponType", named("Katana")),
        ("attackAffinity", affinity),
        ("attackPower", values(&[115, 0, 0, 0, 0, 100])),
        ("guardedNegation", values(&[60, 35, 35, 35, 35, 25])),
        ("attributeScaling", scaling),
        ("statusAilment", ailment),
        ("ashOfWar", Json::Null),
    ]);
    Weapon::new(&data).ok().unwrap()
}

fn bleed(v: u64) -> Json {
    obj(vec![
        ("value", Json::Number(Some(v))),
        ("statusAilmentType", named("Blood Loss")),
    ])
}

fn pairs(w: &WeaponDetailsWidget) -> Vec<(&str, &str)> {
    w.details
        .iter()
        .map(|(l, r)| (l.as_str(), r.as_str()))
        .collect()
}

#[test]
fn details_pair_damage_with_scaling() {
    let w = uchigatana(named("Keen"), bleed(45));
    let panel = WeaponDetailsWidget::new(&w);
    assert_eq!(panel.name, "Uchigatana");
    assert_eq!(
        pairs(&panel),
        vec![
            ("Katana", "Keen"),
            ("Phy: 115", "Str: D"),
            ("Crit: 100", "Dex: C"),
            ("Blood Loss: 45", ""),
        ]
    );
}

#[test]
fn details_pad_the_shorter_column() {
    let w = uchigatana(Json::Null, obj(vec![("value", Json::Null)]));
    let mut w = w;
    w.attack_power = [10, 20, 30, 0, 0, 0];
    let panel = WeaponDetailsWidget::new(&w);
    assert_eq!(
        pairs(&panel),
        vec![
            ("Katana", ""),
            ("Phy: 10", "Str: D"),
            ("Mag: 20", "Dex: C"),
            ("Fire: 30", ""),
            ("", ""),
        ]
    );
}

#[test]
fn details_placeholder() {
    let panel = WeaponDetailsWidget::default();
    assert_eq!(panel.name, "No scanning");
    assert!(panel.details.is_empty());
}

#[test]
fn table_row_cells() {
    let w = uchigatana(Json::Null, bleed(7));
    assert_eq!(
        table_row(&w),
        vec![
            "Uchigatana",
            "Unknown",
            "D",
            "C",
            "-",
            "-",
            "-",
            "115   0   0   0   0 100",
            " 60  35  35  35  35  25",
            "Bloodloss 7",
        ]
    );
}

#[test]
fn table_row_without_ailment() {
    let w = uchigatana(named("Heavy"), obj(vec![("value", Json::Null)]));
    let row = table_row(&w);
    assert_eq!(row[1], "Heavy");
    assert_eq!(row[9], "-");
}

#[test]
fn request_text_is_exact() {
    let r = build_request("example.org", "query {\n  weapons\n}");
    let body = "{\"variables\":{\"input\":{\"staticDataTypes\":[\"weapons\"]}},\"query\":\"query {  weapons}\"}";
    let expected = format!(
        "POST /api/elden-ring-nightreign/v1/graphql/query HTTP/1.1\r\nHost: example.org\r\nUser-Agent: Wget/1.25.0\r\nAccept: */*\r\nAccept-Encoding: identity\r\nConnection: close\r\nContent-Type: application/json\r\nContent-Length: {}\r\n\r\n{}",
        body.len(),
        body
    );
    assert_eq!(r, expected);
    assert!(r.contains("Content-Length: 83\r\n"));
}

#[test]
fn content_length_counts_bytes() {
    let r = build_request("h", "é");
    assert!(r.contains("Content-Length: 68\r\n"));
}

#[test]
fn control_characters_are_dropped() {
    assert_eq!(without_controls("a\tb\r\nc\u{7f}d\u{85}"), "abcd");
    assert_eq!(without_controls(""), "");
}

#[test]
fn response_lines_are_sorted() {
    let mut lines = ResponseLines::new();
    let route = |lines: &mut ResponseLines, s: &str| match lines.route(s) {
        LineRoute::Document(t) => (true, t),
        LineRoute::Other(t) => (false, t),
    };
    assert_eq!(
        route(&mut lines, "HTTP/1.1 200 OK\r\n"),
        (false, String::from("HTTP/1.1 200 OK"))
    );
    assert_eq!(
        route(&mut lines, "{\"data\":{\r\n"),
        (true, String::from("{\"data\":{"))
    );
    assert_eq!(route(&mut lines, "0\r\n"), (false, String::from("0")));
    assert_eq!(
        route(&mut lines, "\"game\":1}}\n"),
        (true, String::from("\"game\":1}}"))
    );
    assert!(lines.in_document);
}

#[test]
fn text_helpers() {
    assert_eq!(trim("  \tMoonveil \n"), "Moonveil");
    assert_eq!(trim(" \u{3000} "), "");
    assert!(contains("moonveil", "veil"));
    assert!(contains("moonveil", ""));
    assert!(!contains("veil", "moonveil"));
    assert_eq!(decimal_string(0), "0");
    assert_eq!(decimal_string(1234567), "1234567");
    assert_eq!(decimal_string(u64::MAX), "18446744073709551615");
}
