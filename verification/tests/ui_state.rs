use raid_planner::domain::{Identifier, LocalizedString, UiAssignment, UiAssignmentState, UiSpell};
use raid_planner::fights::kazzara;
use raid_planner::ui_character::UiCharacterTemplate;
use raid_planner::ui_state::UiState;

const THRALL: u128 = 100;
const JAINA: u128 = 200;
const SPELL: u128 = 1000;
const OTHER_SPELL: u128 = 1001;

fn spell(uuid: u128, charges: usize, identifier: Identifier) -> UiSpell {
    UiSpell {
        uuid,
        name: "Spirit Link Totem".to_string(),
        icon_text: None,
        power: 1000,
        cooldown: 180000,
        cast_time: 0,
        identifier,
        charges,
        exclusive_with: vec![],
        enabled: true,
        minor: false,
    }
}

fn state() -> (UiState, u128) {
    let fight = kazzara::mythic(2688, LocalizedString { en_us: "Kazzara".to_string(), local: "Kazzara".to_string() });
    let attack = fight.attacks.items()[1].uuid;
    let mut s = UiState::new(vec![fight]);
    let mut t = UiCharacterTemplate::new_custom("Thrall".to_string());
    t.spells.put(spell(SPELL, 1, Identifier::Spell(98008)));
    t.spells.put(spell(OTHER_SPELL, 0, Identifier::Spell(108280)));
    s.add_ui_character_with_uuid(THRALL, t);
    s.add_ui_character_with_uuid(JAINA, UiCharacterTemplate::new_custom("Jaina".to_string()));
    (s, attack)
}

fn assignment(uuid: u128, spell: u128, attack: u128, state: UiAssignmentState) -> UiAssignment {
    UiAssignment { uuid, character: THRALL, spell, attack, state }
}

fn assignments_of(s: &UiState, c: u128) -> Vec<(u128, bool)> {
    s.character(c).unwrap().assignments.items().iter().map(|a| (a.uuid, a.state == UiAssignmentState::Forced)).collect()
}

#[test]
fn starts_with_the_general_column_only() {
    let s = UiState::new(vec![]);
    assert_eq!(s.ui_characters().len(), 1);
    assert!(s.ui_characters()[0].is_general);
    assert!(!s.planning());
    assert_eq!(s.selected_fight_index(), 0);
    assert!(s.selected_fight().is_none());
    assert!(s.attacks().is_empty());
}

#[test]
fn characters_come_in_order() {
    let (s, _) = state();
    let uuids: Vec<u128> = s.ui_characters().iter().map(|c| c.uuid).collect();
    assert_eq!(&uuids[..2], &[THRALL, JAINA]);
    assert!(s.ui_characters()[2].is_general);
    assert_eq!(s.characters().len(), 2);
}

#[test]
fn attack_times_come_from_the_selected_fight() {
    let (s, attack) = state();
    assert_eq!(s.attack_time(attack), Some(17000));
    assert_eq!(s.attack_time(12345), None);
    assert_eq!(s.attacks().len(), 15);
}

#[test]
fn toggling_puts_then_takes() {
    let (mut s, attack) = state();
    let a = assignment(1, SPELL, attack, UiAssignmentState::Suggested);
    assert!(s.is_spell_assignable(&a));
    s.toggle_assignment(&a);
    assert_eq!(assignments_of(&s, THRALL), vec![(1, false)]);
    s.lock_suggestions();
    assert_eq!(assignments_of(&s, THRALL), vec![(1, true)]);
    assert_eq!(s.locked_assignments().len(), 1);
    let forced = assignment(1, SPELL, attack, UiAssignmentState::Forced);
    s.toggle_assignment(&forced);
    assert_eq!(assignments_of(&s, THRALL), vec![]);
    assert_eq!(s.locked_assignments().len(), 0);
}

#[test]
fn a_spell_without_charges_cannot_be_assigned() {
    let (mut s, attack) = state();
    let a = assignment(2, OTHER_SPELL, attack, UiAssignmentState::Suggested);
    assert!(!s.is_spell_assignable(&a));
    s.toggle_assignment(&a);
    assert_eq!(assignments_of(&s, THRALL), vec![]);
}

#[test]
fn locked_suggestions_become_forced() {
    let (mut s, attack) = state();
    s.toggle_assignment(&assignment(1, SPELL, attack, UiAssignmentState::Suggested));
    s.lock_suggestions();
    s.lock_suggestions();
    assert_eq!(assignments_of(&s, THRALL), vec![(1, true)]);
    let groups = s.all_assignments();
    assert_eq!(groups.len(), 15);
    let cell = groups.iter().find(|g| g.0 == (THRALL, attack)).unwrap();
    assert_eq!(cell.1.len(), 3);
    assert_eq!(cell.1.get(1).map(|a| a.state == UiAssignmentState::Forced), Some(true));
    let unassigned = cell.1.items().iter().filter(|a| a.state == UiAssignmentState::Unassigned).count();
    assert_eq!(unassigned, 2);
}

#[test]
fn header_setters() {
    let (mut s, _) = state();
    s.set_ui_character_editing(THRALL, true);
    assert!(s.ui_character_editing(THRALL));
    let class = LocalizedString { en_us: "Shaman".to_string(), local: "Schamane".to_string() };
    s.set_ui_character_class(THRALL, Some(class));
    s.set_ui_character_spec(THRALL, None);
    let c = s.character(THRALL).unwrap();
    assert_eq!(c.class.as_ref().unwrap().en_us, "Shaman");
    assert!(c.spec.is_none());
    assert!(c.editing);
}

#[test]
fn toggling_a_spell() {
    let (mut s, _) = state();
    s.toggle_spell_enabled(THRALL, SPELL);
    assert!(!s.character(THRALL).unwrap().spells.get(SPELL).unwrap().enabled);
    s.toggle_spell_enabled(THRALL, SPELL);
    assert!(s.character(THRALL).unwrap().spells.get(SPELL).unwrap().enabled);
}

#[test]
fn replacing_and_removing() {
    let (mut s, _) = state();
    s.replace_ui_character_with_uuid(JAINA, 300, UiCharacterTemplate::new_custom("Anduin".to_string()));
    let uuids: Vec<u128> = s.ui_characters().iter().map(|c| c.uuid).collect();
    assert_eq!(&uuids[..2], &[THRALL, 300]);
    s.remove_ui_character(THRALL);
    assert!(s.character(THRALL).is_none());
    s.remove_ui_character(THRALL);
    assert_eq!(s.ui_characters().len(), 2);
}

#[test]
fn selecting_fights_and_planning() {
    let (mut s, _) = state();
    s.set_selected_fight_index(3);
    assert!(s.selected_fight().is_none());
    assert!(s.attacks().is_empty());
    s.set_selected_fight_index(0);
    assert_eq!(s.selected_fight().unwrap().encounter_id, 2688);
    s.set_planning(true);
    assert!(s.planning());
}
