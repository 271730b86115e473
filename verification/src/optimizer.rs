//! Asking the optimizer for assignments: every change of the plan makes a new request
//! with a larger id, and an answer is taken only when it answers the latest request
//! (or a later one).
use vstd::prelude::*;
use crate::domain::{Assignment, Attack};
use crate::lookup::Lookup;
use crate::ui_character::Character;
use crate::ui_state::UiState;

verus! {

/// What the optimizer is asked: the characters, the attacks and the assignments that
/// the user locked, under the request's id.
pub struct OptimizeRequest {
    pub request_id: usize,
    pub characters: Lookup<Character>,
    pub attacks: Lookup<Attack>,
    pub initial_assignments: Lookup<Assignment>,
}

/// The ids of the requests made and of the one whose answers are awaited, and whether
/// an answer is still being worked out.
pub struct OptimizerRequests {
    pub request_id: usize,
    pub response_id: usize,
    pub planning: bool,
}

impl OptimizerRequests {
    pub fn new() -> (r: Self)
        ensures
            r.request_id == 0,
            r.response_id == 0,
            !r.planning,
    {
        OptimizerRequests { request_id: 0, response_id: 0, planning: false }
    }

    /// A new request for the plan as it is now: its id is one more than the last one,
    /// answers to it are awaited from now on, and planning is under way.
    pub fn request(&mut self, ui_state: &UiState) -> (req: OptimizeRequest)
        requires
            old(self).request_id < usize::MAX,
            ui_state.wf(),
        ensures
            req.request_id == old(self).request_id + 1,
            final(self).request_id == req.request_id,
            final(self).response_id == req.request_id,
            final(self).planning,
            req.characters@.len() == crate::ui_state::named_characters(ui_state.all_characters()).len(),
            forall|i: int| 0 <= i < req.characters@.len() ==> crate::ui_state::copied_character(
                #[trigger] req.characters@[i], crate::ui_state::named_characters(ui_state.all_characters())[i]),
            req.attacks@ == ui_state.spec_attacks(),
            req.initial_assignments@ == ui_state.spec_locked(),
    {
        self.request_id = self.request_id + 1;
        self.response_id = self.request_id;
        self.planning = true;
        OptimizeRequest {
            request_id: self.request_id,
            characters: ui_state.characters(),
            attacks: ui_state.attacks(),
            initial_assignments: ui_state.locked_assignments(),
        }
    }

    /// Whether an answer to the request `response_request_id` is taken: it answers the
    /// awaited request or a later one.
    pub fn accepts(&self, response_request_id: usize) -> (b: bool)
        ensures
            b == (response_request_id >= self.response_id),
    {
        response_request_id >= self.response_id
    }

    /// An answer arrived: the suggestions are replaced by it when it is taken.
    /// Returns whether it was taken.
    pub fn on_response(&self, ui_state: &mut UiState, response_request_id: usize, assignments: Lookup<Assignment>) -> (taken: bool)
        requires
            old(ui_state).wf(),
            assignments.wf(),
        ensures
            taken == (response_request_id >= self.response_id),
            final(ui_state).wf(),
            taken ==> final(ui_state).suggested_assignments@ == assignments@.map_values(
                |a: Assignment| crate::ui_state::suggested_of(a)),
            !taken ==> *final(ui_state) == *old(ui_state),
            final(ui_state).ui_characters == old(ui_state).ui_characters,
            final(ui_state).general_character == old(ui_state).general_character,
            final(ui_state).selected_fight_index == old(ui_state).selected_fight_index,
            final(ui_state).fights == old(ui_state).fights,
    {
        if self.accepts(response_request_id) {
            ui_state.update_assignment_suggestions(assignments);
            true
        } else {
            false
        }
    }

    /// The optimizer finished a run.
    pub fn on_done(&mut self)
        ensures
            !final(self).planning,
            final(self).request_id == old(self).request_id,
            final(self).response_id == old(self).response_id,
    {
        self.planning = false;
    }
}

/// Once a new request is made, answers to every earlier request are refused and
/// answers to it are taken.
pub proof fn law_only_latest_answers(before: OptimizerRequests, after: OptimizerRequests, earlier: usize)
    requires
        after.request_id == before.request_id + 1,
        after.response_id == after.request_id,
        earlier <= before.request_id,
    ensures
        !(earlier >= after.response_id),
        after.request_id >= after.response_id,
{
}

} // verus!
