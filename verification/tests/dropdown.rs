use raid_planner::autocomplete::Key;
use raid_planner::dropdown::{AutocompleteDropdownState, DropdownAction};

fn entry_index(a: &DropdownAction) -> Option<usize> {
    match a {
        DropdownAction::SelectEntry(i) => Some(*i),
        _ => None,
    }
}

#[test]
fn typing_drops_spaces_and_resets_selection() {
    let mut d = AutocompleteDropdownState::new();
    d.selection = 3;
    d.on_input(" Ar thas ");
    assert_eq!(d.query, "Arthas");
    assert_eq!(d.selection, 0);
    assert!(d.shows_custom());
    d.on_input("   ");
    assert_eq!(d.query, "");
    assert!(!d.shows_custom());
}

#[test]
fn arrows_move_between_first_row_and_query_row() {
    let mut d = AutocompleteDropdownState::new();
    let (a, prevent) = d.on_key(Key::ArrowUp, 2);
    assert!(matches!(a, DropdownAction::Nothing));
    assert!(prevent);
    assert_eq!(d.selection, 0);
    d.on_key(Key::ArrowDown, 2);
    assert_eq!(d.selection, 1);
    d.on_key(Key::ArrowDown, 2);
    assert_eq!(d.selection, 2);
    d.on_key(Key::ArrowDown, 2);
    assert_eq!(d.selection, 2);
    d.on_key(Key::ArrowUp, 2);
    assert_eq!(d.selection, 1);
    assert!(d.is_selected(1));
    assert!(!d.is_selected(0));
}

#[test]
fn dropdown_down_then_up_comes_back() {
    let mut d = AutocompleteDropdownState::new();
    d.selection = 1;
    d.on_key(Key::ArrowDown, 3);
    d.on_key(Key::ArrowUp, 3);
    assert_eq!(d.selection, 1);
}

#[test]
fn down_past_a_shrunk_list_stops_at_query_row() {
    let mut d = AutocompleteDropdownState::new();
    d.selection = 7;
    d.on_key(Key::ArrowDown, 2);
    assert_eq!(d.selection, 2);
}

#[test]
fn enter_picks_entry_or_query() {
    let mut d = AutocompleteDropdownState::new();
    d.on_input("thrall");
    d.on_key(Key::ArrowDown, 2);
    let (a, prevent) = d.on_key(Key::Enter, 2);
    assert!(prevent);
    assert_eq!(entry_index(&a), Some(1));
    d.on_key(Key::ArrowDown, 2);
    let (a, _) = d.on_key(Key::Enter, 2);
    match a {
        DropdownAction::SelectCustom(q) => assert_eq!(q, "thrall"),
        _ => panic!("expected the query"),
    }
    let (a, _) = d.on_key(Key::Enter, 0);
    assert!(matches!(a, DropdownAction::SelectCustom(_)));
}

#[test]
fn escape_clears_and_leaves() {
    let mut d = AutocompleteDropdownState::new();
    d.on_input("thrall");
    d.selection = 1;
    let (a, prevent) = d.on_key(Key::Escape, 2);
    assert!(matches!(a, DropdownAction::Blur));
    assert!(prevent);
    assert_eq!(d.query, "");
    assert_eq!(d.selection, 0);
}

#[test]
fn other_keys_do_nothing() {
    let mut d = AutocompleteDropdownState::new();
    d.on_input("x");
    let (a, prevent) = d.on_key(Key::Tab, 2);
    assert!(matches!(a, DropdownAction::Nothing));
    assert!(!prevent);
    assert_eq!(d.query, "x");
}

#[test]
fn clicks() {
    let mut d = AutocompleteDropdownState::new();
    d.on_input("jaina");
    assert_eq!(entry_index(&d.on_entry_click(0, 2)), Some(0));
    assert!(matches!(d.on_entry_click(2, 2), DropdownAction::Nothing));
    match d.on_custom_click() {
        DropdownAction::SelectCustom(q) => assert_eq!(q, "jaina"),
        _ => panic!("expected the query"),
    }
}
