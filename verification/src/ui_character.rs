//! A character in the planner's grid: who it is, its spells and the assignments
//! of its spells that the user has made.
use vstd::prelude::*;
use crate::domain::{LocalizedString, PlannerRealm, UiSpell, UiAssignment, Spell};
use crate::lookup::{Lookup, LookupKey};

verus! {

/// What a new character is made from.
pub struct UiCharacterTemplate {
    pub name: Option<String>,
    pub realm: Option<PlannerRealm>,
    pub class: Option<LocalizedString>,
    pub spec: Option<LocalizedString>,
    pub spells: Lookup<UiSpell>,
}

impl UiCharacterTemplate {
    /// The template of the "general" column: no name (it is filled in with the
    /// localized word for "General"), no class, no spells.
    pub fn new_general() -> (t: UiCharacterTemplate)
        ensures
            t.name is None,
            t.realm is None,
            t.class is None,
            t.spec is None,
            t.spells@.len() == 0,
            t.spells.wf(),
    {
        UiCharacterTemplate { name: None, realm: None, class: None, spec: None, spells: Lookup::new() }
    }

    /// A character that the user typed in by name.
    pub fn new_custom(name: String) -> (t: UiCharacterTemplate)
        ensures
            t.name == Some(name),
            t.realm is None,
            t.class is None,
            t.spec is None,
            t.spells@.len() == 0,
            t.spells.wf(),
    {
        UiCharacterTemplate { name: Some(name), realm: None, class: None, spec: None, spells: Lookup::new() }
    }

    /// A character found on a realm, with its class and the spec that the planner picked.
    pub fn new_known(name: String, realm: PlannerRealm, class: LocalizedString, spec: LocalizedString) -> (t: UiCharacterTemplate)
        ensures
            t.name == Some(name),
            t.realm == Some(realm),
            t.class == Some(class),
            t.spec == Some(spec),
            t.spells@.len() == 0,
            t.spells.wf(),
    {
        UiCharacterTemplate { name: Some(name), realm: Some(realm), class: Some(class), spec: Some(spec), spells: Lookup::new() }
    }
}

pub struct UiCharacter {
    pub uuid: u128,
    pub name: Option<String>,
    pub realm: Option<PlannerRealm>,
    pub class: Option<LocalizedString>,
    pub spec: Option<LocalizedString>,
    pub spells: Lookup<UiSpell>,
    pub assignments: Lookup<UiAssignment>,
    pub editing: bool,
    pub editable: bool,
    pub is_general: bool,
}

impl LookupKey for UiCharacter {
    open spec fn key(&self) -> u128 {
        self.uuid
    }

    fn lookup_key(&self) -> (k: u128) {
        self.uuid
    }
}

impl UiCharacter {
    pub open spec fn wf(&self) -> bool {
        self.spells.wf() && self.assignments.wf()
    }

    /// A character made from a template: not yet assigned anything; the general
    /// column cannot be edited, a player's column can, and one without a name starts
    /// out being edited.
    pub fn new(uuid: u128, template: UiCharacterTemplate, is_general: bool) -> (c: UiCharacter)
        requires
            template.spells.wf(),
        ensures
            c.wf(),
            c.uuid == uuid,
            c.name == template.name,
            c.realm == template.realm,
            c.class == template.class,
            c.spec == template.spec,
            c.spells == template.spells,
            c.assignments@.len() == 0,
            c.is_general == is_general,
            c.editable == !is_general,
            c.editing == (!is_general && template.name is None),
    {
        let editing = !is_general && template.name.is_none();
        UiCharacter {
            uuid,
            name: template.name,
            realm: template.realm,
            class: template.class,
            spec: template.spec,
            spells: template.spells,
            assignments: Lookup::new(),
            editing,
            editable: !is_general,
            is_general,
        }
    }
}

/// `c` is a new character with the given uuid, made from `t`.
pub open spec fn made_from(c: UiCharacter, uuid: u128, t: UiCharacterTemplate, is_general: bool) -> bool {
    &&& c.wf()
    &&& c.uuid == uuid
    &&& c.name == t.name
    &&& c.realm == t.realm
    &&& c.class == t.class
    &&& c.spec == t.spec
    &&& c.spells == t.spells
    &&& c.assignments@.len() == 0
    &&& c.is_general == is_general
    &&& c.editable == !is_general
    &&& c.editing == (!is_general && t.name is None)
}

/// `b` is `a` with, at most, another class, spec or editing flag.
pub open spec fn same_but_header(a: UiCharacter, b: UiCharacter) -> bool {
    &&& a.uuid == b.uuid
    &&& a.name == b.name
    &&& a.realm == b.realm
    &&& a.spells == b.spells
    &&& a.assignments == b.assignments
    &&& a.editable == b.editable
    &&& a.is_general == b.is_general
}

/// `b` is `a` with, at most, other assignments.
pub open spec fn same_but_assignments(a: UiCharacter, b: UiCharacter) -> bool {
    &&& a.uuid == b.uuid
    &&& a.name == b.name
    &&& a.realm == b.realm
    &&& a.class == b.class
    &&& a.spec == b.spec
    &&& a.spells == b.spells
    &&& a.editing == b.editing
    &&& a.editable == b.editable
    &&& a.is_general == b.is_general
}

/// `b` is `a` with, at most, other spells.
pub open spec fn same_but_spells(a: UiCharacter, b: UiCharacter) -> bool {
    &&& a.uuid == b.uuid
    &&& a.name == b.name
    &&& a.realm == b.realm
    &&& a.class == b.class
    &&& a.spec == b.spec
    &&& a.assignments == b.assignments
    &&& a.editing == b.editing
    &&& a.editable == b.editable
    &&& a.is_general == b.is_general
}

/// A character as the optimizer takes it.
pub struct Character {
    pub uuid: u128,
    pub name: String,
    pub spells: Lookup<Spell>,
}

impl LookupKey for Character {
    open spec fn key(&self) -> u128 {
        self.uuid
    }

    fn lookup_key(&self) -> (k: u128) {
        self.uuid
    }
}

} // verus!
