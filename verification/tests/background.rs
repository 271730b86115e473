use raid_planner::background::{background_image, background_position, background_request, offset_for};
use raid_planner::domain::{LocalizedString, PlannerRealm};
use raid_planner::lookup::Lookup;
use raid_planner::ui_character::UiCharacter;

fn realm(slug: &str) -> PlannerRealm {
    PlannerRealm {
        name: LocalizedString { en_us: slug.to_string(), local: slug.to_string() },
        slug: slug.to_string(),
    }
}

fn character(name: Option<&str>, realm: Option<PlannerRealm>, is_general: bool) -> UiCharacter {
    UiCharacter {
        uuid: 1,
        name: name.map(|n| n.to_string()),
        realm,
        class: None,
        spec: None,
        spells: Lookup::new(),
        assignments: Lookup::new(),
        editing: false,
        editable: !is_general,
        is_general,
    }
}

#[test]
fn offsets_by_race_and_gender() {
    assert_eq!(offset_for("Blood Elf", "MALE"), (180, -232));
    assert_eq!(offset_for("Undead", "MALE"), (190, -275));
    assert_eq!(offset_for("Undead", "FEMALE"), (180, -270));
    assert_eq!(offset_for("Human", "MALE"), (-480, -200));
    assert_eq!(offset_for("Orc", "FEMALE"), (-480, -200));
}

#[test]
fn positions_are_written_as_floats_are() {
    assert_eq!(background_position("Blood Elf", "MALE"), "right calc(34% - 18rem) top -23.2rem");
    assert_eq!(background_position("Undead", "MALE"), "right calc(34% - 19rem) top -27.5rem");
    assert_eq!(background_position("Kul Tiran", "MALE"), "right calc(34% - 18rem) top -20rem");
    assert_eq!(background_position("Human", "FEMALE"), "right calc(34% - -48rem) top -20rem");
    assert_eq!(background_position("Human", "FEMALE"), format!("right calc(34% - {}rem) top {}rem", -48.0f64, -20.0f64));
    assert_eq!(background_position("Dracthyr", "MALE"), format!("right calc(34% - {}rem) top {}rem", 18.0f64, -19.3f64));
}

#[test]
fn image_in_url() {
    assert_eq!(background_image("https://render.example/a.jpg"), "url(https://render.example/a.jpg)");
}

#[test]
fn which_picture_is_fetched() {
    assert!(background_request(&character(None, None, true), &None).is_none());
    assert!(background_request(&character(Some("General"), None, true), &None).is_none());
    assert!(background_request(&character(None, Some(realm("ragnaros")), false), &None).is_none());
    assert!(background_request(&character(Some(""), Some(realm("ragnaros")), false), &None).is_none());
    assert_eq!(
        background_request(&character(Some("Thrall"), Some(realm("ragnaros")), false), &Some(realm("antonidas"))),
        Some(("Thrall".to_string(), "ragnaros".to_string()))
    );
    assert_eq!(
        background_request(&character(Some("Thrall"), None, false), &Some(realm("antonidas"))),
        Some(("Thrall".to_string(), "antonidas".to_string()))
    );
    assert_eq!(
        background_request(&character(Some("Thrall"), None, false), &None),
        Some(("Thrall".to_string(), "".to_string()))
    );
}
