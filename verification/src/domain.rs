//! The planner's data: characters, their spells, the attacks of a fight and the
//! assignments of spells to attacks.
//!
//! Times (`TimeStep`s) are signed counts of milliseconds since the pull; uuids are
//! 128-bit numbers; a power is counted in thousandths.
use vstd::prelude::*;
use crate::lookup::LookupKey;

verus! {

/// Milliseconds for `minutes:seconds`.
pub open spec fn spec_mm_ss(minutes: int, seconds: int) -> int {
    (minutes * 60 + seconds) * 1000
}

/// `minutes:seconds` as a time step.
pub open spec fn ms(minutes: i64, seconds: i64) -> i64 {
    spec_mm_ss(minutes as int, seconds as int) as i64
}

/// The time step `minutes:seconds`, in milliseconds.
pub fn mm_ss(minutes: i64, seconds: i64) -> (t: i64)
    requires
        0 <= minutes <= 1_000_000,
        0 <= seconds < 60,
    ensures
        t == spec_mm_ss(minutes as int, seconds as int),
        t == ms(minutes, seconds),
{
    (minutes * 60 + seconds) * 1000
}

/// What a spell's icon is made of.
pub enum Identifier {
    Spell(u64),
    Icon(String, u64),
    Marker(u8),
    Text(String),
}

pub enum IdentifierView {
    Spell(u64),
    Icon(Seq<char>, u64),
    Marker(u8),
    Text(Seq<char>),
}

impl View for Identifier {
    type V = IdentifierView;

    open spec fn view(&self) -> IdentifierView {
        match self {
            Identifier::Spell(id) => IdentifierView::Spell(*id),
            Identifier::Icon(path, n) => IdentifierView::Icon(path@, *n),
            Identifier::Marker(m) => IdentifierView::Marker(*m),
            Identifier::Text(t) => IdentifierView::Text(t@),
        }
    }
}

impl Identifier {
    /// Whether two identifiers name the same icon.
    pub fn same_as(&self, other: &Identifier) -> (b: bool)
        ensures
            b == (self@ == other@),
    {
        match (self, other) {
            (Identifier::Spell(a), Identifier::Spell(b)) => *a == *b,
            (Identifier::Icon(p, a), Identifier::Icon(q, b)) => *a == *b && *p == *q,
            (Identifier::Marker(a), Identifier::Marker(b)) => *a == *b,
            (Identifier::Text(a), Identifier::Text(b)) => *a == *b,
            _ => false,
        }
    }

    pub fn duplicate(&self) -> (r: Identifier)
        ensures
            r@ == self@,
    {
        match self {
            Identifier::Spell(id) => Identifier::Spell(*id),
            Identifier::Icon(path, n) => Identifier::Icon(path.clone(), *n),
            Identifier::Marker(m) => Identifier::Marker(*m),
            Identifier::Text(t) => Identifier::Text(t.clone()),
        }
    }
}

/// Whether `ids` holds an identifier equal to `id`.
pub fn identifiers_contain(ids: &Vec<Identifier>, id: &Identifier) -> (b: bool)
    ensures
        b == exists|i: int| 0 <= i < ids@.len() && #[trigger] ids@[i]@ == id@,
{
    let mut i: usize = 0;
    while i < ids.len()
        invariant
            i <= ids@.len(),
            forall|j: int| 0 <= j < i ==> #[trigger] ids@[j]@ != id@,
        decreases ids@.len() - i,
    {
        if ids[i].same_as(id) {
            return true;
        }
        i = i + 1;
    }
    false
}

pub fn duplicate_identifiers(ids: &Vec<Identifier>) -> (r: Vec<Identifier>)
    ensures
        r@.len() == ids@.len(),
        forall|i: int| 0 <= i < ids@.len() ==> #[trigger] r@[i]@ == ids@[i]@,
{
    let mut r: Vec<Identifier> = Vec::new();
    let mut i: usize = 0;
    while i < ids.len()
        invariant
            i <= ids@.len(),
            r@.len() == i,
            forall|j: int| 0 <= j < i ==> #[trigger] r@[j]@ == ids@[j]@,
        decreases ids@.len() - i,
    {
        r.push(ids[i].duplicate());
        i = i + 1;
    }
    r
}

pub fn duplicate_opt_string(s: &Option<String>) -> (r: Option<String>)
    ensures
        r == *s,
{
    match s {
        Some(t) => Some(t.clone()),
        None => None,
    }
}

/// A text in the user's language, with its English (United States) form beside it.
pub struct LocalizedString {
    pub en_us: String,
    pub local: String,
}

impl LocalizedString {
    pub fn duplicate(&self) -> (r: LocalizedString)
        ensures
            r == *self,
    {
        LocalizedString { en_us: self.en_us.clone(), local: self.local.clone() }
    }
}

pub fn duplicate_opt_localized(s: &Option<LocalizedString>) -> (r: Option<LocalizedString>)
    ensures
        r == *s,
{
    match s {
        Some(t) => Some(t.duplicate()),
        None => None,
    }
}

/// A realm, by its display name and its slug.
pub struct PlannerRealm {
    pub name: LocalizedString,
    pub slug: String,
}

impl PlannerRealm {
    pub fn duplicate(&self) -> (r: PlannerRealm)
        ensures
            r == *self,
    {
        PlannerRealm { name: self.name.duplicate(), slug: self.slug.clone() }
    }
}

pub fn duplicate_opt_realm(s: &Option<PlannerRealm>) -> (r: Option<PlannerRealm>)
    ensures
        r == *s,
{
    match s {
        Some(t) => Some(t.duplicate()),
        None => None,
    }
}

/// A spell of a character, as the planner shows it.
pub struct UiSpell {
    pub uuid: u128,
    pub name: String,
    pub icon_text: Option<String>,
    pub power: u64,
    pub cooldown: i64,
    pub cast_time: i64,
    pub identifier: Identifier,
    pub charges: usize,
    pub exclusive_with: Vec<Identifier>,
    pub enabled: bool,
    pub minor: bool,
}

/// A spell as the optimizer takes it: the same fields as `UiSpell`.
pub type Spell = UiSpell;

pub struct UiSpellView {
    pub uuid: u128,
    pub name: Seq<char>,
    pub icon_text: Option<Seq<char>>,
    pub power: u64,
    pub cooldown: i64,
    pub cast_time: i64,
    pub identifier: IdentifierView,
    pub charges: usize,
    pub exclusive_with: Seq<IdentifierView>,
    pub enabled: bool,
    pub minor: bool,
}

impl View for UiSpell {
    type V = UiSpellView;

    open spec fn view(&self) -> UiSpellView {
        UiSpellView {
            uuid: self.uuid,
            name: self.name@,
            icon_text: match self.icon_text {
                Some(t) => Some(t@),
                None => None,
            },
            power: self.power,
            cooldown: self.cooldown,
            cast_time: self.cast_time,
            identifier: self.identifier@,
            charges: self.charges,
            exclusive_with: self.exclusive_with@.map_values(|i: Identifier| i@),
            enabled: self.enabled,
            minor: self.minor,
        }
    }
}

impl LookupKey for UiSpell {
    open spec fn key(&self) -> u128 {
        self.uuid
    }

    fn lookup_key(&self) -> (k: u128) {
        self.uuid
    }
}

impl UiSpell {
    pub fn duplicate(&self) -> (r: UiSpell)
        ensures
            r@ == self@,
            r.uuid == self.uuid,
    {
        let ex = duplicate_identifiers(&self.exclusive_with);
        let r = UiSpell {
            uuid: self.uuid,
            name: self.name.clone(),
            icon_text: duplicate_opt_string(&self.icon_text),
            power: self.power,
            cooldown: self.cooldown,
            cast_time: self.cast_time,
            identifier: self.identifier.duplicate(),
            charges: self.charges,
            exclusive_with: ex,
            enabled: self.enabled,
            minor: self.minor,
        };
        assert(r.exclusive_with@.map_values(|i: Identifier| i@) =~= self.exclusive_with@.map_values(
            |i: Identifier| i@,
        ));
        r
    }
}

/// How far an assignment of a spell to an attack has come.
#[derive(PartialEq, Eq, Structural, Clone, Copy)]
pub enum UiAssignmentState {
    Unassigned,
    Suggested,
    Forced,
}

/// A spell of a character, used against an attack.
#[derive(PartialEq, Eq, Structural, Clone, Copy)]
pub struct UiAssignment {
    pub uuid: u128,
    pub character: u128,
    pub spell: u128,
    pub attack: u128,
    pub state: UiAssignmentState,
}

impl LookupKey for UiAssignment {
    open spec fn key(&self) -> u128 {
        self.uuid
    }

    fn lookup_key(&self) -> (k: u128) {
        self.uuid
    }
}

/// An assignment as the optimizer takes and gives it.
#[derive(PartialEq, Eq, Structural, Clone, Copy)]
pub struct Assignment {
    pub uuid: u128,
    pub character: u128,
    pub spell: u128,
    pub attack: u128,
    pub forced: bool,
}

impl LookupKey for Assignment {
    open spec fn key(&self) -> u128 {
        self.uuid
    }

    fn lookup_key(&self) -> (k: u128) {
        self.uuid
    }
}

#[derive(PartialEq, Eq, Structural, Clone, Copy)]
pub enum AttackType {
    Generic,
    RaidDamage,
    RotDamage,
    Movement,
    Debuffs,
    Dispels,
}

#[derive(PartialEq, Eq, Structural, Clone, Copy)]
pub enum CleuEventType {
    SpellCastStart,
    SpellAuraApplied,
    SpellAuraRemoved,
}

/// The combat-log event that starts an attack's timer.
#[derive(PartialEq, Eq, Structural, Clone, Copy)]
pub struct CleuEvent {
    pub event_type: CleuEventType,
    pub event: u64,
    pub counter: u64,
}

/// When an attack comes: `dynamic_timer` after the start of its phase.
#[derive(PartialEq, Eq, Structural, Clone, Copy)]
pub struct AttackTimer {
    pub dynamic_timer: Option<i64>,
    pub phase_start: Option<i64>,
    pub phase_end: Option<i64>,
    pub dynamic_trigger_cleu_event: Option<CleuEvent>,
}

pub open spec fn opt_time(t: Option<i64>) -> int {
    match t {
        Some(x) => x as int,
        None => 0,
    }
}

impl AttackTimer {
    /// The time of the attack since the pull: the phase start plus the timer within the phase.
    pub open spec fn spec_static_timer(&self) -> int {
        opt_time(self.phase_start) + opt_time(self.dynamic_timer)
    }

    pub fn static_timer(&self) -> (t: i128)
        ensures
            t == self.spec_static_timer(),
    {
        let start: i128 = match self.phase_start {
            Some(x) => x as i128,
            None => 0,
        };
        let dynamic: i128 = match self.dynamic_timer {
            Some(x) => x as i128,
            None => 0,
        };
        start + dynamic
    }

    /// A timer with only the given fields set.
    pub fn timed(dynamic_timer: i64) -> (t: AttackTimer)
        ensures
            t == (AttackTimer { dynamic_timer: Some(dynamic_timer), phase_start: None, phase_end: None, dynamic_trigger_cleu_event: None }),
    {
        AttackTimer { dynamic_timer: Some(dynamic_timer), phase_start: None, phase_end: None, dynamic_trigger_cleu_event: None }
    }
}

/// Something the boss does at a time in the fight.
pub struct Attack {
    pub uuid: u128,
    pub name: String,
    pub power: u64,
    pub attack_type: AttackType,
    pub timer: AttackTimer,
}

pub struct AttackView {
    pub uuid: u128,
    pub name: Seq<char>,
    pub power: u64,
    pub attack_type: AttackType,
    pub timer: AttackTimer,
}

impl View for Attack {
    type V = AttackView;

    open spec fn view(&self) -> AttackView {
        AttackView {
            uuid: self.uuid,
            name: self.name@,
            power: self.power,
            attack_type: self.attack_type,
            timer: self.timer,
        }
    }
}

impl LookupKey for Attack {
    open spec fn key(&self) -> u128 {
        self.uuid
    }

    fn lookup_key(&self) -> (k: u128) {
        self.uuid
    }
}

impl Attack {
    pub fn duplicate(&self) -> (r: Attack)
        ensures
            r == *self,
    {
        Attack {
            uuid: self.uuid,
            name: self.name.clone(),
            power: self.power,
            attack_type: self.attack_type,
            timer: self.timer,
        }
    }

    pub open spec fn time(&self) -> int {
        self.timer.spec_static_timer()
    }

    pub fn static_timer(&self) -> (t: i128)
        ensures
            t == self.time(),
    {
        self.timer.static_timer()
    }
}

} // verus!
