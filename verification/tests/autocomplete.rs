use raid_planner::autocomplete::{AutocompleteContext, AutocompleteId, InputKeyAction, Key};

fn ids(names: &[&str]) -> Vec<AutocompleteId> {
    names.iter().map(|n| AutocompleteId::from(*n)).collect()
}

fn highlighted(c: &AutocompleteContext) -> Option<String> {
    c.highlighted_item().map(|i| i.to_string())
}

#[test]
fn new_ids_are_nanoids() {
    let a = AutocompleteId::new();
    let b = AutocompleteId::new();
    assert_eq!(a.as_str().chars().count(), 21);
    assert!(a.as_str().chars().all(|c| c == '_' || c == '-' || c.is_ascii_alphanumeric()));
    assert!(a != b);
}

#[test]
fn ids_from_text() {
    let a = AutocompleteId::from("abc");
    assert_eq!(a.as_str(), "abc");
    assert_eq!(a.to_string(), "abc");
    assert!(a == AutocompleteId::from("abc"));
    assert!(a.same_as(&AutocompleteId::from("abc")));
    assert!(!a.same_as(&AutocompleteId::from("abd")));
}

#[test]
fn key_names() {
    assert_eq!(Key::from_name("Enter"), Key::Enter);
    assert_eq!(Key::from_name("Tab"), Key::Tab);
    assert_eq!(Key::from_name("ArrowUp"), Key::ArrowUp);
    assert_eq!(Key::from_name("ArrowDown"), Key::ArrowDown);
    assert_eq!(Key::from_name("Escape"), Key::Escape);
    assert_eq!(Key::from_name("enter"), Key::Other);
    assert_eq!(Key::from_name("a"), Key::Other);
}

#[test]
fn moving_the_highlight() {
    let list = ids(&["a", "b", "c"]);
    let mut c = AutocompleteContext::new();
    assert_eq!(highlighted(&c), None);
    let r = c.move_keyboard_highlight(1, &list);
    assert_eq!(r.map(|i| i.to_string()), Some("a".to_string()));
    c.move_keyboard_highlight(1, &list);
    assert_eq!(highlighted(&c), Some("b".to_string()));
    c.move_keyboard_highlight(-1, &list);
    assert_eq!(highlighted(&c), Some("a".to_string()));
    c.move_keyboard_highlight(-1, &list);
    assert_eq!(highlighted(&c), Some("a".to_string()));
    c.move_keyboard_highlight(5, &list);
    assert_eq!(highlighted(&c), Some("c".to_string()));
    c.move_keyboard_highlight(1, &list);
    assert_eq!(highlighted(&c), Some("c".to_string()));
    c.move_keyboard_highlight(isize::MIN, &list);
    assert_eq!(highlighted(&c), Some("a".to_string()));
    c.move_keyboard_highlight(isize::MAX, &list);
    assert_eq!(highlighted(&c), Some("c".to_string()));
}

#[test]
fn down_then_up_comes_back() {
    let list = ids(&["a", "b", "c"]);
    let mut c = AutocompleteContext::new();
    c.move_keyboard_highlight_to_first_option(&list);
    c.move_keyboard_highlight(1, &list);
    assert_eq!(highlighted(&c), Some("b".to_string()));
    c.move_keyboard_highlight(1, &list);
    c.move_keyboard_highlight(-1, &list);
    assert_eq!(highlighted(&c), Some("b".to_string()));
}

#[test]
fn moving_without_options_changes_nothing() {
    let mut c = AutocompleteContext::new();
    c.set_mouse_highlight(AutocompleteId::from("x"));
    assert!(c.move_keyboard_highlight(1, &Vec::new()).is_none());
    assert_eq!(highlighted(&c), Some("x".to_string()));
}

#[test]
fn highlight_not_in_list_moves_to_first() {
    let list = ids(&["a", "b"]);
    let mut c = AutocompleteContext::new();
    c.set_mouse_highlight(AutocompleteId::from("gone"));
    c.move_keyboard_highlight(1, &list);
    assert_eq!(highlighted(&c), Some("a".to_string()));
    assert!(c.mouse_highlighted_item.is_none());
}

#[test]
fn first_option_opens_the_list() {
    let list = ids(&["a", "b"]);
    let mut c = AutocompleteContext::new();
    c.move_keyboard_highlight_to_first_option(&Vec::new());
    assert!(!c.active);
    assert_eq!(highlighted(&c), None);
    c.set_mouse_highlight(AutocompleteId::from("b"));
    c.move_keyboard_highlight_to_first_option(&list);
    assert!(c.active);
    assert_eq!(highlighted(&c), Some("a".to_string()));
}

#[test]
fn mouse_wins_and_leaving_keeps_the_highlight() {
    let list = ids(&["a", "b"]);
    let mut c = AutocompleteContext::new();
    c.move_keyboard_highlight_to_first_option(&list);
    c.set_mouse_highlight(AutocompleteId::from("b"));
    assert_eq!(highlighted(&c), Some("b".to_string()));
    c.set_keyboard_highlight_to_mouse_highlight();
    assert_eq!(highlighted(&c), Some("b".to_string()));
    assert!(c.mouse_highlighted_item.is_none());
    c.set_keyboard_highlight_to_mouse_highlight();
    assert_eq!(highlighted(&c), Some("b".to_string()));
}

#[test]
fn selecting_needs_a_registered_option() {
    let list = ids(&["a", "b"]);
    let mut c = AutocompleteContext::new();
    assert!(c.select_highlighted().is_none());
    c.move_keyboard_highlight_to_first_option(&list);
    assert!(c.select_highlighted().is_none());
    c.register_item(AutocompleteId::from("a"));
    c.register_item(AutocompleteId::from("a"));
    assert_eq!(c.registered.len(), 1);
    assert_eq!(c.select_highlighted().map(|i| i.to_string()), Some("a".to_string()));
    c.unregister_item(&AutocompleteId::from("a"));
    assert!(c.select_highlighted().is_none());
    assert_eq!(c.registered.len(), 0);
}

#[test]
fn empty_note() {
    let mut c = AutocompleteContext::new();
    assert!(!c.should_show_empty(&Vec::new()));
    c.active = true;
    assert!(c.should_show_empty(&Vec::new()));
    assert!(!c.should_show_empty(&ids(&["a"])));
}

#[test]
fn keys_in_the_list() {
    let list = ids(&["a", "b"]);
    let mut c = AutocompleteContext::new();
    c.register_item(AutocompleteId::from("a"));
    c.register_item(AutocompleteId::from("b"));
    c.move_keyboard_highlight_to_first_option(&list);

    let out = c.on_key(Key::ArrowDown, &list);
    assert_eq!(out.scroll_to.map(|i| i.to_string()), Some("b".to_string()));
    assert!(out.select.is_none());

    let out = c.on_key(Key::Tab, &list);
    assert!(out.prevent_default);
    assert_eq!(out.select.map(|i| i.to_string()), Some("b".to_string()));
    assert!(!c.active);

    c.active = true;
    let out = c.on_key(Key::Enter, &list);
    assert!(!out.prevent_default);
    assert_eq!(out.select.map(|i| i.to_string()), Some("b".to_string()));
    assert!(!c.active);

    let mut d = AutocompleteContext::new();
    d.active = true;
    let out = d.on_key(Key::Tab, &list);
    assert!(!out.prevent_default);
    assert!(out.select.is_none());
    assert!(d.active);
    let out = d.on_key(Key::Enter, &list);
    assert!(out.select.is_none());
    assert!(!d.active);

    let out = c.on_key(Key::Other, &list);
    assert!(out.select.is_none() && out.scroll_to.is_none() && !out.prevent_default);
}

#[test]
fn keys_in_the_field() {
    let mut c = AutocompleteContext::new();
    c.active = true;
    assert_eq!(c.on_input_key(Key::ArrowUp), InputKeyAction::PreventDefault);
    assert_eq!(c.on_input_key(Key::ArrowDown), InputKeyAction::PreventDefault);
    assert_eq!(c.on_input_key(Key::Other), InputKeyAction::HighlightFirstOption);
    assert_eq!(c.on_input_key(Key::Enter), InputKeyAction::HighlightFirstOption);
    assert!(c.active);
    assert_eq!(c.on_input_key(Key::Escape), InputKeyAction::Blur);
    assert!(!c.active);
}
