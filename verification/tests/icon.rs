use raid_planner::domain::Identifier;
use raid_planner::icon::icon_url;

#[test]
fn icon_addresses() {
    assert_eq!(icon_url(Identifier::Spell(31821)), Some("/spell_icon/31821".to_string()));
    assert_eq!(icon_url(Identifier::Spell(0)), Some("/spell_icon/0".to_string()));
    assert_eq!(
        icon_url(Identifier::Icon("spell_holy_auramastery".to_string(), 7)),
        Some("/icon/spell_holy_auramastery".to_string())
    );
    assert_eq!(icon_url(Identifier::Marker(3)), Some("/raid_marker/3.png".to_string()));
    assert_eq!(icon_url(Identifier::Marker(255)), Some("/raid_marker/255.png".to_string()));
    assert_eq!(icon_url(Identifier::Text("Rally".to_string())), None);
}
