use raid_planner::assignment_icon::{icon_background, icon_classes, icon_tag, spell_toggle_classes};
use raid_planner::domain::{Identifier, UiAssignmentState, UiSpell};

fn spell(identifier: Identifier, icon_text: Option<&str>, minor: bool, enabled: bool) -> UiSpell {
    UiSpell {
        uuid: 1,
        name: "Rallying Cry".to_string(),
        icon_text: icon_text.map(|t| t.to_string()),
        power: 0,
        cooldown: 0,
        cast_time: 0,
        identifier,
        charges: 1,
        exclusive_with: vec![],
        enabled,
        minor,
    }
}

#[test]
fn pictures_and_tags() {
    assert_eq!(icon_background(&spell(Identifier::Spell(97462), None, false, true)), "url(\"/spell_icon/97462\")");
    assert_eq!(icon_background(&spell(Identifier::Text("Go".to_string()), None, false, true)), "");
    assert_eq!(icon_tag(&spell(Identifier::Spell(1), Some("RC"), false, true)), "RC");
    assert_eq!(icon_tag(&spell(Identifier::Spell(1), None, false, true)), "\u{00A0}");
}

#[test]
fn icon_classes_by_state() {
    assert_eq!(icon_classes(UiAssignmentState::Forced, true, false), "");
    assert_eq!(icon_classes(UiAssignmentState::Suggested, true, true), "w-8 hover:brightness-125 border-0 opacity-50");
    assert_eq!(
        icon_classes(UiAssignmentState::Unassigned, true, false),
        "opacity-5 blur-xs contrast-300 grayscale brightness-75 hover:opacity-20 hover:brightness-100 hover:grayscale-0 hover:contrast-100"
    );
    assert_eq!(
        icon_classes(UiAssignmentState::Forced, false, false),
        "border-red-700 border-3 hover:border-red-700 hover:border-3"
    );
}

#[test]
fn toggle_classes() {
    assert_eq!(spell_toggle_classes(&spell(Identifier::Spell(1), None, false, true)), "w-12 hover:brightness-125");
    assert_eq!(spell_toggle_classes(&spell(Identifier::Spell(1), None, true, false)), "w-8 grayscale brightness-75 hover:brightness-100");
}
