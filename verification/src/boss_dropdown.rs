//! The list of fights to plan for: the selected one named at the top, each fight a row
//! that can be picked unless it is the selected one.
use vstd::prelude::*;
use crate::ui_state::UiState;

verus! {

/// A row of the list: the fight's name in the user's language, and whether it is the
/// selected fight (which is shown greyed out and cannot be picked).
pub struct FightRow {
    pub index: usize,
    pub name: String,
    pub selected: bool,
}

/// The title: the selected fight's name, if the selection names a fight.
pub fn boss_title(ui_state: &UiState) -> (r: Option<String>)
    ensures
        match r {
            Some(t) => ui_state.selected_fight_index < ui_state.fights@.len()
                && t@ == ui_state.fights@[ui_state.selected_fight_index as int].encounter_name.local@,
            None => ui_state.selected_fight_index >= ui_state.fights@.len(),
        },
{
    match ui_state.selected_fight() {
        Some(f) => Some(f.encounter_name.local.clone()),
        None => None,
    }
}

/// One row per fight, in order.
pub fn fight_rows(ui_state: &UiState) -> (rows: Vec<FightRow>)
    ensures
        rows@.len() == ui_state.fights@.len(),
        forall|i: int| 0 <= i < rows@.len() ==> {
            &&& (#[trigger] rows@[i]).index == i
            &&& rows@[i].name@ == ui_state.fights@[i].encounter_name.local@
            &&& rows@[i].selected == (i == ui_state.selected_fight_index)
        },
{
    let fights = ui_state.fights();
    let mut rows: Vec<FightRow> = Vec::new();
    let mut i: usize = 0;
    while i < fights.len()
        invariant
            *fights == ui_state.fights,
            i <= fights@.len(),
            rows@.len() == i,
            forall|k: int| 0 <= k < i ==> {
                &&& (#[trigger] rows@[k]).index == k
                &&& rows@[k].name@ == ui_state.fights@[k].encounter_name.local@
                &&& rows@[k].selected == (k == ui_state.selected_fight_index)
            },
        decreases fights.len() - i,
    {
        rows.push(FightRow {
            index: i,
            name: fights[i].encounter_name.local.clone(),
            selected: i == ui_state.selected_fight_index(),
        });
        i = i + 1;
    }
    rows
}

/// Picking a fight selects it; the list closes (the returned state of the list).
pub fn pick_fight(ui_state: &mut UiState, index: usize) -> (picking: bool)
    ensures
        *final(ui_state) == (UiState { selected_fight_index: index, ..*old(ui_state) }),
        !picking,
{
    ui_state.set_selected_fight_index(index);
    false
}

/// The picture of the selected fight's boss and its offset; an empty path and no
/// offset when no fight is selected.
pub fn boss_image(ui_state: &UiState) -> (r: (String, i64))
    ensures
        ui_state.selected_fight_index < ui_state.fights@.len() ==>
            r.0@ == ui_state.fights@[ui_state.selected_fight_index as int].image_path@
            && r.1 == ui_state.fights@[ui_state.selected_fight_index as int].image_offset,
        ui_state.selected_fight_index >= ui_state.fights@.len() ==> r.0@.len() == 0 && r.1 == 0,
{
    match ui_state.selected_fight() {
        Some(f) => (f.image_path.clone(), f.image_offset),
        None => (String::new(), 0),
    }
}

} // verus!
