use raid_planner::character_header::{
    available_entries, chevron_class, class_border, class_color, class_spec_rows, contains_char, custom_template,
    entry_key, entry_label, finish_editing, name_query, realm_entries, row_chevron, shown_realm, sort_realm_hits,
    name_results, resolve_class, pick_class_spec, click_name, click_spec, pick_spec_row, spec_line, spec_rows_picking, split_query, starts_picking, str_le, template_for_entry, ChevronDirection,
    PlayerClass, RealmHit, RosterEntry,
};
use raid_planner::domain::{LocalizedString, PlannerRealm};
use raid_planner::lookup::Lookup;
use raid_planner::ui_character::{UiCharacter, UiCharacterTemplate};
use raid_planner::ui_state::UiState;

fn text(en: &str, local: &str) -> LocalizedString {
    LocalizedString { en_us: en.to_string(), local: local.to_string() }
}

fn realm(name: &str, slug: &str) -> PlannerRealm {
    PlannerRealm { name: text(name, name), slug: slug.to_string() }
}

fn entry(name: &str, realm_: Option<PlannerRealm>, class: PlayerClass) -> RosterEntry {
    RosterEntry { name: name.to_string(), realm: realm_, class }
}

fn character(uuid: u128, name: Option<&str>, realm_: Option<PlannerRealm>) -> UiCharacter {
    UiCharacter {
        uuid,
        name: name.map(|n| n.to_string()),
        realm: realm_,
        class: None,
        spec: None,
        spells: Lookup::new(),
        assignments: Lookup::new(),
        editing: true,
        editable: true,
        is_general: false,
    }
}

#[test]
fn class_colours() {
    assert_eq!(class_color(&Some(text("Demon Hunter", "Dämonenjäger"))), "cc-demon-hunter");
    assert_eq!(class_color(&Some(text("Priest", "Priester"))), "cc-priest");
    assert_eq!(class_color(&None), "cc-general");
    assert_eq!(class_border(&PlayerClass::Known(text("Death Knight", "Todesritter"))), "border-cc-death-knight");
    assert_eq!(class_border(&PlayerClass::Unknown), "border-transparent");
    assert_eq!(class_border(&PlayerClass::Missing), "border-transparent");
}

#[test]
fn the_spec_line() {
    assert_eq!(spec_line(&Some(text("Holy", "Heilig")), &Some(text("Paladin", "Paladin"))), "\u{200B}Heilig Paladin");
    assert_eq!(spec_line(&None, &Some(text("Paladin", "Paladin"))), "\u{200B} Paladin");
    assert_eq!(spec_line(&None, &None), "\u{200B}");
}

#[test]
fn realm_shown_only_when_not_the_users() {
    let r = Some(realm("Ragnaros", "ragnaros"));
    assert!(shown_realm(&Some(text("Ragnaros", "Ragnaros")), &r).is_none());
    let shown = shown_realm(&Some(text("Antonidas", "Antonidas")), &r).unwrap();
    assert_eq!(shown.local, "Ragnaros");
    assert!(shown_realm(&None, &r).is_some());
    assert!(shown_realm(&Some(text("Ragnaros", "Ragnaros")), &None).is_none());
}

#[test]
fn name_field_keeps_letters_and_dashes() {
    assert_eq!(name_query("Thrall-Ragna ros1!"), "Thrall-Ragnaros");
    assert_eq!(name_query("Jäger"), "Jäger");
    assert_eq!(name_query("123"), "");
}

#[test]
fn queries_split_at_the_first_dash() {
    assert_eq!(split_query("thrall-ragnaros"), Some(("thrall".to_string(), "ragnaros".to_string())));
    assert_eq!(split_query("a-b-c"), Some(("a".to_string(), "b-c".to_string())));
    assert_eq!(split_query("-x"), Some(("".to_string(), "x".to_string())));
    assert_eq!(split_query("thrall"), None);
    assert!(contains_char("a-b", '-'));
    assert!(!contains_char("ab", '-'));
}

#[test]
fn string_order() {
    assert!(str_le("", ""));
    assert!(str_le("abc", "abd"));
    assert!(str_le("ab", "abc"));
    assert!(!str_le("abc", "ab"));
    assert!(str_le("Z", "a"));
    assert!(!str_le("é", "z"));
    for (a, b) in [("Antonidas", "Aegwynn"), ("Blackhand", "Blackmoore"), ("x", "x")] {
        assert_eq!(str_le(a, b), a <= b);
    }
}

fn hit(score: i32, name: &str) -> RealmHit {
    RealmHit { score, realm: realm(name, &name.to_lowercase()), class: text("Shaman", "Schamane"), sort_name: name.to_string() }
}

#[test]
fn realm_hits_best_score_first_then_by_name() {
    let sorted = sort_realm_hits(vec![hit(1, "Blackhand"), hit(5, "Zuluhed"), hit(1, "Aegwynn"), hit(5, "Antonidas")]);
    let names: Vec<&str> = sorted.iter().map(|h| h.sort_name.as_str()).collect();
    assert_eq!(names, vec!["Antonidas", "Zuluhed", "Aegwynn", "Blackhand"]);
}

#[test]
fn realm_hits_keep_ties_in_order() {
    let mut a = hit(3, "Same");
    a.realm.slug = "first".to_string();
    let mut b = hit(3, "Same");
    b.realm.slug = "second".to_string();
    let sorted = sort_realm_hits(vec![a, b]);
    assert_eq!(sorted[0].realm.slug, "first");
    assert_eq!(sorted[1].realm.slug, "second");
}

#[test]
fn entries_from_realm_hits() {
    let entries = realm_entries("thrall", vec![hit(0, "Blackhand"), hit(2, "Aegwynn")]);
    assert_eq!(entries.len(), 2);
    assert_eq!(entries[0].name, "Thrall");
    assert_eq!(entries[0].realm.as_ref().unwrap().slug, "aegwynn");
    assert_eq!(entries[1].realm.as_ref().unwrap().slug, "blackhand");
    assert!(matches!(entries[1].class, PlayerClass::Known(_)));
}

#[test]
fn taken_and_unknown_entries_are_left_out() {
    let shaman = || PlayerClass::Known(text("Shaman", "Schamane"));
    let a = character(1, Some("Thrall"), Some(realm("Ragnaros", "ragnaros")));
    let b = character(2, Some("Jaina"), Some(realm("Ragnaros", "ragnaros")));
    let chars = vec![&a, &b];
    let entries = vec![
        entry("Thrall", Some(realm("Ragnaros", "ragnaros")), shaman()),
        entry("Thrall", Some(realm("Antonidas", "antonidas")), shaman()),
        entry("Jaina", Some(realm("Ragnaros", "ragnaros")), shaman()),
        entry("Anduin", Some(realm("Ragnaros", "ragnaros")), PlayerClass::Unknown),
        entry("Garrosh", None, PlayerClass::Missing),
    ];
    let kept = available_entries(entries, &chars, 1);
    let kept: Vec<(String, String)> = kept.iter().map(|e| (e.name.clone(), e.realm.as_ref().unwrap().slug.clone())).collect();
    assert_eq!(kept, vec![("Thrall".to_string(), "ragnaros".to_string()), ("Thrall".to_string(), "antonidas".to_string())]);
}

#[test]
fn keys_and_labels() {
    let e = entry("Thrall", Some(realm("Ragnaros", "ragnaros")), PlayerClass::Unknown);
    assert_eq!(entry_key(&e), "Thrall-ragnaros");
    assert_eq!(entry_key(&entry("Thrall", None, PlayerClass::Unknown)), "Thrall-");
    assert_eq!(entry_label(&e, "thr"), "Thrall");
    assert_eq!(entry_label(&e, "thrall-rag"), "Thrall-Ragnaros");
    assert_eq!(entry_label(&entry("Thrall", None, PlayerClass::Unknown), "thrall-rag"), "Thrall");
}

#[test]
fn picking_an_entry() {
    let specs = vec![text("Elemental", "Elementar"), text("Restoration", "Wiederherstellung")];
    let e = entry("Thrall", None, PlayerClass::Known(text("Shaman", "Schamane")));
    let t = template_for_entry(e, &specs, Some(realm("Antonidas", "antonidas"))).unwrap();
    assert_eq!(t.name.as_deref(), Some("Thrall"));
    assert_eq!(t.realm.as_ref().unwrap().slug, "antonidas");
    assert_eq!(t.spec.as_ref().unwrap().en_us, "Restoration");
    assert_eq!(t.class.as_ref().unwrap().en_us, "Shaman");

    let e = entry("Thrall", Some(realm("Ragnaros", "ragnaros")), PlayerClass::Known(text("Shaman", "Schamane")));
    let t = template_for_entry(e, &specs, None).unwrap();
    assert_eq!(t.realm.as_ref().unwrap().slug, "ragnaros");

    let e = entry("Thrall", None, PlayerClass::Unknown);
    assert!(template_for_entry(e, &specs, None).is_none());
    let e = entry("Thrall", None, PlayerClass::Known(text("Shaman", "Schamane")));
    assert!(template_for_entry(e, &vec![], None).is_none());
}

#[test]
fn picking_the_query() {
    let t = custom_template("thrall");
    assert_eq!(t.name.as_deref(), Some("Thrall"));
    assert!(t.realm.is_none() && t.class.is_none() && t.spec.is_none());
}

#[test]
fn class_and_spec_rows() {
    let shaman = Some(text("Shaman", "Schamane"));
    let specs = vec![text("Elemental", "E"), text("Enhancement", "V"), text("Restoration", "W")];
    let rows = class_spec_rows(&shaman, &specs);
    assert_eq!(rows.len(), 3);
    assert_eq!(rows[1].0.en_us, "Shaman");
    assert_eq!(rows[1].1.as_ref().unwrap().en_us, "Enhancement");
    let classes = vec![text("Mage", "Magier"), text("Priest", "Priester")];
    let rows = class_spec_rows(&None, &classes);
    assert_eq!(rows[0].0.en_us, "Mage");
    assert!(rows[0].1.is_none());
}

#[test]
fn current_spec_comes_first() {
    let shaman = Some(text("Shaman", "Schamane"));
    let specs = vec![text("Elemental", "E"), text("Enhancement", "V"), text("Restoration", "W")];
    let rows = spec_rows_picking(&shaman, &Some(text("Restoration", "W")), &specs);
    let names: Vec<String> = rows.iter().map(|r| r.1.as_ref().unwrap().en_us.clone()).collect();
    assert_eq!(names, vec!["Restoration", "Elemental", "Enhancement"]);
    let rows = spec_rows_picking(&shaman, &None, &specs);
    let names: Vec<String> = rows.iter().map(|r| r.1.as_ref().unwrap().en_us.clone()).collect();
    assert_eq!(names, vec!["Elemental", "Enhancement", "Restoration"]);
    let rows = spec_rows_picking(&None, &None, &vec![text("Mage", "Magier")]);
    assert_eq!(rows.len(), 1);
    assert!(rows[0].1.is_none());
}

#[test]
fn chevrons_and_picking() {
    assert_eq!(chevron_class(ChevronDirection::Up), "fa-chevron-up");
    assert_eq!(chevron_class(ChevronDirection::Down), "fa-chevron-down");
    assert_eq!(row_chevron(true), Some(ChevronDirection::Up));
    assert_eq!(row_chevron(false), None);
    assert!(starts_picking(&None, &Some(text("Holy", "Heilig"))));
    assert!(starts_picking(&Some(text("Priest", "Priester")), &None));
    assert!(!starts_picking(&Some(text("Priest", "Priester")), &Some(text("Holy", "Heilig"))));
}

#[test]
fn leaving_the_header() {
    let mut state = UiState::new(vec![]);
    state.add_ui_character_with_uuid(10, UiCharacterTemplate::new_general());
    state.add_ui_character_with_uuid(11, UiCharacterTemplate::new_custom("Thrall".to_string()));
    assert!(state.ui_character_editing(10));
    finish_editing(&mut state, 10);
    assert!(state.character(10).is_none());
    assert!(state.character(11).is_some());
    state.set_ui_character_editing(11, true);
    finish_editing(&mut state, 11);
    assert!(!state.ui_character_editing(11));
}

#[test]
fn unknown_classes_take_the_found_class() {
    let e = resolve_class(entry("Thrall", None, PlayerClass::Unknown), PlayerClass::Known(text("Shaman", "Schamane")));
    assert!(matches!(e.class, PlayerClass::Known(ref c) if c.en_us == "Shaman"));
    let e = resolve_class(entry("Thrall", None, PlayerClass::Missing), PlayerClass::Known(text("Shaman", "Schamane")));
    assert!(matches!(e.class, PlayerClass::Missing));
}

#[test]
fn results_of_the_name_field() {
    let roster: Vec<RosterEntry> = (0..12).map(|i| entry(&format!("N{i}"), None, PlayerClass::Unknown)).collect();
    assert!(name_results("", vec![entry("A", None, PlayerClass::Unknown)], vec![]).is_empty());
    let r = name_results("a", vec![entry("A", None, PlayerClass::Unknown)], vec![]);
    assert_eq!(r.len(), 1);
    let r = name_results("n", vec![], roster);
    assert_eq!(r.len(), 10);
    assert_eq!(r[9].name, "N9");
    let r = name_results("n", vec![], vec![entry("B", None, PlayerClass::Unknown)]);
    assert_eq!(r.len(), 1);
}

#[test]
fn realm_hits_take_their_order_name_from_the_realm() {
    let r = PlannerRealm { name: text("Blackmoore", "Schwarzmoor"), slug: "blackmoore".to_string() };
    let by_local = RealmHit::new(3, r.duplicate(), text("Mage", "Magier"), true);
    assert_eq!(by_local.sort_name, "Schwarzmoor");
    let by_english = RealmHit::new(3, r, text("Mage", "Magier"), false);
    assert_eq!(by_english.sort_name, "Blackmoore");
    assert_eq!(by_english.score, 3);
}

fn header_state() -> UiState {
    let mut state = UiState::new(vec![]);
    state.add_ui_character_with_uuid(10, UiCharacterTemplate::new_custom("Thrall".to_string()));
    state
}

#[test]
fn picking_a_class_and_spec_in_the_header() {
    let mut state = header_state();
    let still = pick_class_spec(&mut state, 10, text("Shaman", "Schamane"), None, true);
    assert!(still);
    let c = state.character(10).unwrap();
    assert_eq!(c.class.as_ref().unwrap().en_us, "Shaman");
    assert!(c.spec.is_none());
    let still = pick_class_spec(&mut state, 10, text("Shaman", "Schamane"), Some(text("Restoration", "W")), true);
    assert!(!still);
    assert_eq!(state.character(10).unwrap().spec.as_ref().unwrap().en_us, "Restoration");
}

#[test]
fn clicking_the_name_edits_only_editable_columns() {
    let mut state = header_state();
    state.set_ui_character_editing(10, false);
    click_name(&mut state, 10);
    assert!(state.ui_character_editing(10));
    let mut state = header_state();
    state.set_ui_character_editing(10, false);
    state.ui_characters.take(10).map(|mut c| {
        c.editable = false;
        state.ui_characters.put(c);
    });
    click_name(&mut state, 10);
    assert!(!state.ui_character_editing(10));
    assert!(click_spec(true, false));
    assert!(!click_spec(false, false));
    assert!(click_spec(false, true));
}

#[test]
fn clicking_a_row_of_the_spec_list() {
    let mut state = header_state();
    let still = pick_spec_row(&mut state, 10, &(text("Priest", "Priester"), None), true);
    assert!(still);
    assert_eq!(state.character(10).unwrap().class.as_ref().unwrap().en_us, "Priest");
    let still = pick_spec_row(&mut state, 10, &(text("Priest", "Priester"), Some(text("Holy", "Heilig"))), true);
    assert!(!still);
    let c = state.character(10).unwrap();
    assert_eq!(c.spec.as_ref().unwrap().en_us, "Holy");
    assert_eq!(c.class.as_ref().unwrap().en_us, "Priest");
}
