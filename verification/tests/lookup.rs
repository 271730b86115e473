use raid_planner::domain::{UiAssignment, UiAssignmentState};
use raid_planner::lookup::Lookup;

fn a(uuid: u128, attack: u128) -> UiAssignment {
    UiAssignment { uuid, character: 1, spell: 2, attack, state: UiAssignmentState::Suggested }
}

fn attacks_of(l: &Lookup<UiAssignment>) -> Vec<(u128, u128)> {
    l.items().iter().map(|x| (x.uuid, x.attack)).collect()
}

#[test]
fn put_replaces_in_place_or_appends() {
    let mut l = Lookup::new();
    l.put(a(1, 10));
    l.put(a(2, 20));
    l.put(a(1, 30));
    assert_eq!(attacks_of(&l), vec![(1, 30), (2, 20)]);
    assert_eq!(l.len(), 2);
}

#[test]
fn get_after_put() {
    let mut l = Lookup::new();
    l.put(a(5, 50));
    assert_eq!(l.get(5).map(|x| x.attack), Some(50));
    assert!(l.get(6).is_none());
    assert!(l.contains_key(5));
    assert!(!l.contains_key(6));
}

#[test]
fn take_undoes_put() {
    let mut l = Lookup::new();
    l.put(a(1, 10));
    l.put(a(2, 20));
    let taken = l.take(2);
    assert_eq!(taken.map(|x| x.attack), Some(20));
    assert_eq!(attacks_of(&l), vec![(1, 10)]);
    assert!(l.take(2).is_none());
    assert!(l.get(2).is_none());
}

#[test]
fn put_twice_is_put_once() {
    let mut once = Lookup::new();
    once.put(a(1, 10));
    let mut twice = Lookup::new();
    twice.put(a(1, 10));
    twice.put(a(1, 10));
    assert_eq!(attacks_of(&once), attacks_of(&twice));
}

#[test]
fn replace_keeps_the_place() {
    let mut l = Lookup::new();
    l.put(a(1, 10));
    l.put(a(2, 20));
    l.put(a(3, 30));
    l.replace(2, a(4, 40));
    assert_eq!(attacks_of(&l), vec![(1, 10), (4, 40), (3, 30)]);
    l.replace(4, a(1, 11));
    assert_eq!(attacks_of(&l), vec![(1, 11), (3, 30)]);
    l.replace(9, a(5, 50));
    assert_eq!(attacks_of(&l), vec![(1, 11), (3, 30)]);
}

#[test]
fn collecting_keeps_the_last_of_each_key() {
    let l = Lookup::from_vec(vec![a(1, 10), a(2, 20), a(1, 11)]);
    assert_eq!(attacks_of(&l), vec![(1, 11), (2, 20)]);
    assert!(Lookup::<UiAssignment>::from_vec(vec![]).is_empty());
}
