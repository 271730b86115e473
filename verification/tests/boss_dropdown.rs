use raid_planner::boss_dropdown::{boss_image, boss_title, fight_rows, pick_fight};
use raid_planner::domain::LocalizedString;
use raid_planner::fights::{assault, kazzara};
use raid_planner::ui_state::UiState;

fn name(en: &str, local: &str) -> LocalizedString {
    LocalizedString { en_us: en.to_string(), local: local.to_string() }
}

#[test]
fn rows_title_and_picking() {
    let mut s = UiState::new(vec![
        kazzara::mythic(1, name("Kazzara", "Kazzara die Höllengeschmiedete")),
        assault::mythic(2, name("Assault", "Angriff")),
    ]);
    assert_eq!(boss_title(&s), Some("Kazzara die Höllengeschmiedete".to_string()));
    let rows = fight_rows(&s);
    assert_eq!(rows.len(), 2);
    assert!(rows[0].selected && !rows[1].selected);
    assert_eq!(rows[1].name, "Angriff");
    assert_eq!(boss_image(&s), ("boss/kazzara.png".to_string(), 40));
    assert!(!pick_fight(&mut s, 1));
    assert_eq!(s.selected_fight_index(), 1);
    assert_eq!(boss_image(&s), ("boss/assault.png".to_string(), 35));
    assert!(fight_rows(&s)[1].selected);
    pick_fight(&mut s, 5);
    assert_eq!(boss_title(&s), None);
    assert_eq!(boss_image(&s), (String::new(), 0));
}
