use raid_planner::domain::Assignment;
use raid_planner::lookup::Lookup;
use raid_planner::optimizer::OptimizerRequests;
use raid_planner::ui_state::UiState;

#[test]
fn requests_get_increasing_ids() {
    let s = UiState::new(vec![]);
    let mut r = OptimizerRequests::new();
    assert!(!r.planning);
    let a = r.request(&s);
    let b = r.request(&s);
    assert_eq!(a.request_id, 1);
    assert_eq!(b.request_id, 2);
    assert_eq!(r.response_id, 2);
    assert!(r.planning);
    r.on_done();
    assert!(!r.planning);
}

#[test]
fn only_answers_to_the_latest_request_are_taken() {
    let mut s = UiState::new(vec![]);
    let mut r = OptimizerRequests::new();
    r.request(&s);
    r.request(&s);
    assert!(!r.accepts(1));
    assert!(r.accepts(2));
    assert!(r.accepts(3));
    let mut answer = Lookup::new();
    answer.put(Assignment { uuid: 9, character: 1, spell: 2, attack: 3, forced: false });
    assert!(!r.on_response(&mut s, 1, answer));
    assert!(s.suggested_assignments.is_empty());
    let mut answer = Lookup::new();
    answer.put(Assignment { uuid: 9, character: 1, spell: 2, attack: 3, forced: false });
    assert!(r.on_response(&mut s, 2, answer));
    assert_eq!(s.suggested_assignments.len(), 1);
}
