//! A boss fight as the planner offers it: its encounter, its picture and its attacks.
use vstd::prelude::*;
use crate::domain::{Attack, LocalizedString};
use crate::lookup::Lookup;

verus! {

pub struct UiFight {
    pub encounter_id: u64,
    pub encounter_name: LocalizedString,
    pub image_path: String,
    pub image_offset: i64,
    pub attacks: Lookup<Attack>,
}

impl UiFight {
    pub fn new(encounter_id: u64, encounter_name: LocalizedString, image_path: String, image_offset: i64, attacks: Lookup<Attack>) -> (f: UiFight)
        ensures
            f.encounter_id == encounter_id,
            f.encounter_name == encounter_name,
            f.image_path == image_path,
            f.image_offset == image_offset,
            f.attacks == attacks,
    {
        UiFight { encounter_id, encounter_name, image_path, image_offset, attacks }
    }
}

} // verus!
