use nightcrab::catalogue::{load_catalogue, ParseError};
use nightcrab::json::Json;
use nightcrab::weapons::{Attribute, Field, FieldError, Rank, StatusAilment, Weapon};

fn obj(members: Vec<(&str, Json)>) -> Json {
    Json::Object(members.into_iter().map(|(k, v)| (String::from(k), v)).collect())
}

fn text(s: &str) -> Json {
    Json::Str(String::from(s))
}

fn named(s: &str) -> Json {
    obj(vec![("name", text(s))])
}

fn num(n: u64) -> Json {
    Json::Number(Some(n))
}

fn values(vs: &[Option<u64>]) -> Json {
    Json::Array(
        vs.iter()
            .map(|v| obj(vec![("value", v.map_or(Json::Null, num))]))
            .collect(),
    )
}

fn scaling(entries: &[(&str, &str)]) -> Json {
    Json::Array(
        entries
            .iter()
            .map(|(attr, rank)| obj(vec![("value", text(rank)), ("attribute", named(attr))]))
            .collect(),
    )
}

fn entry(name: &str, entries: &[(&str, &str)]) -> Vec<(&'static str, Json)> {
    vec![
        ("name", text(name)),
        ("weaponPassive", Json::Null),
        ("weaponType", named("Katana")),
        ("attackAffinity", named("Standard")),
        (
            "attackPower",
            values(&[Some(110), Some(0), None, Some(5), Some(0), Some(100)]),
        ),
        (
            "guardedNegation",
            values(&[Some(60), Some(35), Some(35), Some(35), Some(35), Some(25)]),
        ),
        ("attributeScaling", scaling(entries)),
        ("statusAilment", obj(vec![("value", Json::Null)])),
        ("ashOfWar", named("Transient Moonlight")),
    ]
}

fn with(mut members: Vec<(&'static str, Json)>, key: &'static str, v: Json) -> Json {
    for m in members.iter_mut() {
        if m.0 == key {
            m.1 = v;
            return obj(members);
        }
    }
    members.push((key, v));
    obj(members)
}

fn without(members: Vec<(&'static str, Json)>, key: &str) -> Json {
    obj(members.into_iter().filter(|m| m.0 != key).collect())
}

fn document(entries: Vec<Json>) -> Json {
    let list = Json::Array(
        entries
            .into_iter()
            .map(|e| obj(vec![("data", obj(vec![("staticDataEntity", e)]))]))
            .collect(),
    );
    obj(vec![(
        "data",
        obj(vec![(
            "game",
            obj(vec![(
                "documents",
                obj(vec![("wikiDocuments", obj(vec![("documents", list)]))]),
            )]),
        )]),
    )])
}

#[test]
fn parses_a_full_entry() {
    let data = obj(entry("Moonveil", &[("Dexterity", "B"), ("Intelligence", "C")]));
    let w = Weapon::new(&data).ok().unwrap();
    assert_eq!(w.name, "Moonveil");
    assert_eq!(w.kind, "Katana");
    assert_eq!(w.passive, None);
    assert_eq!(w.attack_affinity.as_deref(), Some("Standard"));
    assert_eq!(w.active.as_deref(), Some("Transient Moonlight"));
    assert_eq!(w.range, None);
    assert_eq!(w.attack_power, [110, 0, 0, 5, 0, 100]);
    assert_eq!(w.guarded_negation, [60, 35, 35, 35, 35, 25]);
    assert_eq!(
        w.scaling,
        [
            (Attribute::Strength, None),
            (Attribute::Dexterity, Some(Rank::B)),
            (Attribute::Intelligence, Some(Rank::C)),
            (Attribute::Faith, None),
            (Attribute::Arcane, None),
        ]
    );
    assert_eq!(w.status_ailment, None);
}

#[test]
fn null_references_stay_absent() {
    let mut members = entry("Club", &[("Strength", "A")]);
    for m in members.iter_mut() {
        if m.0 == "attackAffinity" || m.0 == "ashOfWar" {
            m.1 = Json::Null;
        }
    }
    let w = Weapon::new(&obj(members)).ok().unwrap();
    assert_eq!(w.passive, None);
    assert_eq!(w.attack_affinity, None);
    assert_eq!(w.active, None);
}

#[test]
fn reference_without_string_name_fails() {
    let data = with(entry("Club", &[]), "weaponPassive", obj(vec![("name", num(3))]));
    assert_eq!(
        Weapon::new(&data).err(),
        Some(FieldError::NotAString(Field::Passive))
    );
}

#[test]
fn missing_name_fails() {
    let data = without(entry("Club", &[]), "name");
    assert_eq!(Weapon::new(&data).err(), Some(FieldError::NotAString(Field::Name)));
}

#[test]
fn missing_kind_fails() {
    let data = with(entry("Club", &[]), "weaponType", Json::Null);
    assert_eq!(Weapon::new(&data).err(), Some(FieldError::NotAString(Field::Kind)));
}

#[test]
fn status_ailment_is_read_when_its_value_is_set() {
    let ailment = obj(vec![
        ("value", num(66)),
        ("statusAilmentType", named("Blood Loss")),
    ]);
    let data = with(entry("Uchigatana", &[]), "statusAilment", ailment);
    let w = Weapon::new(&data).ok().unwrap();
    assert_eq!(w.status_ailment, Some((StatusAilment::BloodLoss, 66)));
}

#[test]
fn unknown_ailment_fails() {
    let ailment = obj(vec![("value", num(66)), ("statusAilmentType", named("Hunger"))]);
    let data = with(entry("Club", &[]), "statusAilment", ailment);
    assert_eq!(Weapon::new(&data).err(), Some(FieldError::UnknownAilment));
}

#[test]
fn ailment_value_out_of_range_fails() {
    let ailment = obj(vec![("value", num(256)), ("statusAilmentType", named("Sleep"))]);
    let data = with(entry("Club", &[]), "statusAilment", ailment);
    assert_eq!(
        Weapon::new(&data).err(),
        Some(FieldError::BadNumber(Field::StatusAilment))
    );
}

#[test]
fn element_value_out_of_range_fails() {
    let data = with(
        entry("Club", &[]),
        "attackPower",
        values(&[Some(300), None, None, None, None, None]),
    );
    assert_eq!(
        Weapon::new(&data).err(),
        Some(FieldError::BadNumber(Field::AttackPower))
    );
}

#[test]
fn negative_element_value_fails() {
    let list = Json::Array(vec![obj(vec![("value", Json::Number(None))])]);
    let data = with(entry("Club", &[]), "guardedNegation", list);
    assert_eq!(
        Weapon::new(&data).err(),
        Some(FieldError::BadNumber(Field::GuardedNegation))
    );
}

#[test]
fn all_six_element_slots_are_read() {
    let data = with(
        entry("Club", &[]),
        "attackPower",
        values(&[Some(1), Some(2), Some(3), Some(4), Some(5), Some(255)]),
    );
    let w = Weapon::new(&data).ok().unwrap();
    assert_eq!(w.attack_power, [1, 2, 3, 4, 5, 255]);
}

#[test]
fn null_element_list_is_all_zero() {
    let data = with(entry("Club", &[]), "attackPower", Json::Null);
    let w = Weapon::new(&data).ok().unwrap();
    assert_eq!(w.attack_power, [0; 6]);
}

#[test]
fn unknown_rank_letter_fails() {
    let data = obj(entry("Club", &[("Strength", "F")]));
    assert_eq!(Weapon::new(&data).err(), Some(FieldError::UnknownRank));
}

#[test]
fn unknown_attribute_fails() {
    let data = obj(entry("Club", &[("Endurance", "A")]));
    assert_eq!(Weapon::new(&data).err(), Some(FieldError::UnknownAttribute));
}

#[test]
fn later_scaling_entry_overwrites_earlier() {
    let data = obj(entry("Club", &[("Faith", "E"), ("Faith", "S")]));
    let w = Weapon::new(&data).ok().unwrap();
    assert_eq!(w.scaling[3], (Attribute::Faith, Some(Rank::S)));
}

#[test]
fn null_scaling_means_no_scaling() {
    let data = with(entry("Club", &[]), "attributeScaling", Json::Null);
    let w = Weapon::new(&data).ok().unwrap();
    assert!(w.scaling.iter().all(|s| s.1.is_none()));
    assert_eq!(w.scaling[4].0, Attribute::Arcane);
}

#[test]
fn scaling_that_is_not_a_list_fails() {
    let data = with(entry("Club", &[]), "attributeScaling", text("S"));
    assert_eq!(
        Weapon::new(&data).err(),
        Some(FieldError::NotAList(Field::Scaling))
    );
}

#[test]
fn range_is_read_when_present() {
    let data = with(entry("Longbow", &[]), "range", num(40));
    assert_eq!(Weapon::new(&data).ok().unwrap().range, Some(40));
}

#[test]
fn catalogue_keeps_source_order() {
    let doc = document(vec![
        obj(entry("Dagger", &[])),
        obj(entry("Club", &[])),
        obj(entry("Moonveil", &[])),
    ]);
    let ws = load_catalogue(&doc).ok().unwrap();
    let names: Vec<&str> = ws.iter().map(|w| w.name.as_str()).collect();
    assert_eq!(names, vec!["Dagger", "Club", "Moonveil"]);
}

#[test]
fn catalogue_with_nameless_entry_fails_whole() {
    let doc = document(vec![
        obj(entry("Dagger", &[])),
        without(entry("Club", &[]), "name"),
        obj(entry("Moonveil", &[])),
    ]);
    assert_eq!(
        load_catalogue(&doc).err(),
        Some(ParseError::Entry {
            index: 1,
            error: FieldError::NotAString(Field::Name)
        })
    );
}

#[test]
fn catalogue_reports_first_bad_entry() {
    let doc = document(vec![
        obj(entry("Dagger", &[("Strength", "Q")])),
        without(entry("Club", &[]), "name"),
    ]);
    assert_eq!(
        load_catalogue(&doc).err(),
        Some(ParseError::Entry {
            index: 0,
            error: FieldError::UnknownRank
        })
    );
}

#[test]
fn document_without_list_fails() {
    let doc = obj(vec![("data", obj(vec![]))]);
    assert_eq!(load_catalogue(&doc).err(), Some(ParseError::NoCatalogue));
}

#[test]
fn empty_catalogue_loads() {
    let doc = document(vec![]);
    assert_eq!(load_catalogue(&doc).ok().map(|ws| ws.len()), Some(0));
}
