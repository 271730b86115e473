//! The planner's state: the characters in the grid, the suggested assignments, the
//! fights and which one is selected; what the user does to it, and what the grid shows
//! of it.
use vstd::prelude::*;
use crate::domain::{Assignment, Attack, UiAssignment, UiAssignmentState, UiSpell, identifiers_contain};
use crate::lookup::{Lookup, LookupKey, has_key, keys_unique, key_index, spec_get, spec_put, spec_take, spec_replace, spec_collect, lemma_put_unique, lemma_key_index_unique, lemma_collect_of_unique, lemma_remove_insert};
use crate::ui_character::{Character, UiCharacter, UiCharacterTemplate, same_but_assignments, same_but_spells, same_but_header, made_from};
use crate::ui_fight::UiFight;
use crate::ids::new_uuid;

verus! {

pub struct UiState {
    pub ui_characters: Lookup<UiCharacter>,
    pub general_character: UiCharacter,
    pub suggested_assignments: Lookup<UiAssignment>,
    pub planning: bool,
    pub selected_fight_index: usize,
    pub fights: Vec<UiFight>,
}

/// An assignment that the user has fixed, as the optimizer takes it.
pub open spec fn locked_of(a: UiAssignment) -> Assignment {
    Assignment { uuid: a.uuid, character: a.character, spell: a.spell, attack: a.attack, forced: true }
}

/// The forced ones among `s`, as the optimizer takes them, in their order.
pub open spec fn forced_assignments(s: Seq<UiAssignment>) -> Seq<Assignment>
    decreases s.len(),
{
    if s.len() == 0 {
        Seq::empty()
    } else {
        let r = forced_assignments(s.drop_last());
        if s.last().state == UiAssignmentState::Forced {
            r.push(locked_of(s.last()))
        } else {
            r
        }
    }
}

/// What a character contributes to the locked assignments: its forced assignments,
/// if it has a name.
pub open spec fn locked_of_character(c: UiCharacter) -> Seq<Assignment> {
    if c.name is Some {
        forced_assignments(c.assignments@)
    } else {
        Seq::empty()
    }
}

/// The locked assignments of the characters, one character after the other.
pub open spec fn locked_seq(cs: Seq<UiCharacter>) -> Seq<Assignment>
    decreases cs.len(),
{
    if cs.len() == 0 {
        Seq::empty()
    } else {
        locked_seq(cs.drop_last()) + locked_of_character(cs.last())
    }
}

/// An assignment that the optimizer suggests, as the grid shows it.
pub open spec fn suggested_of(a: Assignment) -> UiAssignment {
    UiAssignment { uuid: a.uuid, character: a.character, spell: a.spell, attack: a.attack, state: UiAssignmentState::Suggested }
}

/// `u` is the uuid of one of `spells` that `spell` is exclusive with.
pub open spec fn excludes(spells: Seq<UiSpell>, spell: UiSpell, u: u128) -> bool {
    exists|i: int, j: int|
        0 <= i < spells.len() && 0 <= j < spell.exclusive_with@.len() && #[trigger] spells[i].uuid == u
            && #[trigger] spell.exclusive_with@[j]@ == spells[i].identifier@
}

/// The assignment's spell is one of `spells` with the same icon as `spell`.
pub open spec fn same_identifier(spells: Seq<UiSpell>, spell: UiSpell, x: Assignment) -> bool {
    has_key(spells, x.spell) && spec_get(spells, x.spell).unwrap().identifier@ == spell.identifier@
}

pub open spec fn elsewhere_pred(a: UiAssignment) -> spec_fn(Assignment) -> bool {
    |x: Assignment| x.character != a.character && x.attack != a.attack && x.spell != a.spell
}

pub open spec fn same_identifier_pred(spells: Seq<UiSpell>, spell: UiSpell) -> spec_fn(Assignment) -> bool {
    |x: Assignment| same_identifier(spells, spell, x)
}

/// The assignments of a character after the user clicks `a`: a forced assignment is
/// taken back; another is put in as it is, where it can be assigned.
pub open spec fn toggled(s: Seq<UiAssignment>, a: UiAssignment, assignable: bool) -> Seq<UiAssignment> {
    if a.state == UiAssignmentState::Forced {
        spec_take(s, a.uuid)
    } else if assignable {
        spec_put(s, a)
    } else {
        s
    }
}

/// A suggested assignment becomes a forced one; others stay as they are.
pub open spec fn lock_one(a: UiAssignment) -> UiAssignment {
    if a.state == UiAssignmentState::Suggested {
        UiAssignment { state: UiAssignmentState::Forced, ..a }
    } else {
        a
    }
}

pub open spec fn lock_fn() -> spec_fn(UiAssignment) -> UiAssignment {
    |a: UiAssignment| lock_one(a)
}

/// The key by which the grid groups assignments: the character's column and the attack's row.
pub open spec fn cell_of(a: UiAssignment) -> (u128, u128) {
    (a.character, a.attack)
}

/// Puts an assignment into its cell's group, or opens a group for a new cell.
pub open spec fn put_grouped(g: Seq<((u128, u128), Seq<UiAssignment>)>, x: UiAssignment) -> Seq<((u128, u128), Seq<UiAssignment>)> {
    if exists|i: int| 0 <= i < g.len() && #[trigger] g[i].0 == cell_of(x) {
        let i = choose|i: int| 0 <= i < g.len() && #[trigger] g[i].0 == cell_of(x);
        g.update(i, (cell_of(x), spec_put(g[i].1, x)))
    } else {
        g.push((cell_of(x), seq![x]))
    }
}

/// The assignments grouped by cell, the cells in the order in which they first come,
/// each group collected as a lookup.
pub open spec fn grouped(s: Seq<UiAssignment>) -> Seq<((u128, u128), Seq<UiAssignment>)>
    decreases s.len(),
{
    if s.len() == 0 {
        Seq::empty()
    } else {
        put_grouped(grouped(s.drop_last()), s.last())
    }
}

/// Every assignment of the characters with a name, one character after the other.
pub open spec fn named_assignments(cs: Seq<UiCharacter>) -> Seq<UiAssignment>
    decreases cs.len(),
{
    if cs.len() == 0 {
        Seq::empty()
    } else {
        named_assignments(cs.drop_last()) + (if cs.last().name is Some { cs.last().assignments@ } else { Seq::empty() })
    }
}

/// The cells that a character's spells could be assigned to, spell by spell, attack by attack.
pub open spec fn spell_cells(c: u128, spells: Seq<UiSpell>, attacks: Seq<Attack>) -> Seq<(u128, u128, u128)>
    decreases spells.len(),
{
    if spells.len() == 0 {
        Seq::empty()
    } else {
        spell_cells(c, spells.drop_last(), attacks) + attacks.map_values(|a: Attack| (c, spells.last().uuid, a.uuid))
    }
}

/// For every character with a name, every spell and every attack: (character, spell, attack).
pub open spec fn all_cells(cs: Seq<UiCharacter>, attacks: Seq<Attack>) -> Seq<(u128, u128, u128)>
    decreases cs.len(),
{
    if cs.len() == 0 {
        Seq::empty()
    } else {
        all_cells(cs.drop_last(), attacks) + (if cs.last().name is Some { spell_cells(cs.last().uuid, cs.last().spells@, attacks) } else { Seq::empty() })
    }
}

pub open spec fn cell_triple(a: UiAssignment) -> (u128, u128, u128) {
    (a.character, a.spell, a.attack)
}

/// `base` holds, for each of `cells`, an unassigned assignment of that spell to that
/// attack (with whatever uuid).
pub open spec fn unassigned_for(base: Seq<UiAssignment>, cells: Seq<(u128, u128, u128)>) -> bool {
    &&& base.len() == cells.len()
    &&& forall|i: int| 0 <= i < base.len() ==> cell_triple(#[trigger] base[i]) == cells[i] && base[i].state == UiAssignmentState::Unassigned
}

/// The view of groups: each cell with its assignments.
pub open spec fn groups_view(g: Seq<((u128, u128), Lookup<UiAssignment>)>) -> Seq<((u128, u128), Seq<UiAssignment>)> {
    g.map_values(|p: ((u128, u128), Lookup<UiAssignment>)| (p.0, p.1@))
}

/// Groups assignments by cell: the cells in the order in which they first come, each
/// group collected as a lookup.
pub fn group_assignments(items: &Vec<UiAssignment>) -> (r: Vec<((u128, u128), Lookup<UiAssignment>)>)
    ensures
        groups_view(r@) == grouped(items@),
        forall|i: int| 0 <= i < r@.len() ==> (#[trigger] r@[i]).1.wf(),
{
    let mut r: Vec<((u128, u128), Lookup<UiAssignment>)> = Vec::new();
    let mut i: usize = 0;
    while i < items.len()
        invariant
            i <= items@.len(),
            groups_view(r@) == grouped(items@.subrange(0, i as int)),
            forall|j: int| 0 <= j < r@.len() ==> (#[trigger] r@[j]).1.wf(),
        decreases items@.len() - i,
    {
        let x = items[i];
        let ghost g = groups_view(r@);
        let mut found: Option<usize> = None;
        let mut j: usize = 0;
        while j < r.len()
            invariant
                j <= r@.len(),
                g == groups_view(r@),
                found matches Some(k) ==> k < r@.len() && r@[k as int].0 == (x.character, x.attack)
                    && forall|m: int| 0 <= m < k ==> #[trigger] r@[m].0 != (x.character, x.attack),
                found is None ==> forall|m: int| 0 <= m < j ==> #[trigger] r@[m].0 != (x.character, x.attack),
            decreases r@.len() - j,
        {
            if found.is_none() && r[j].0.0 == x.character && r[j].0.1 == x.attack {
                found = Some(j);
            }
            j = j + 1;
        }
        proof {
            assert(items@.subrange(0, i + 1).drop_last() =~= items@.subrange(0, i as int));
            assert(items@.subrange(0, i + 1).last() == x);
        }
        match found {
            Some(k) => {
                let ghost rr = r@;
                let mut group = r.remove(k);
                let ghost before = group.1@;
                group.1.put(x);
                r.insert(k, group);
                proof {
                    assert(g[k as int].0 == cell_of(x));
                    let c = choose|c: int| 0 <= c < g.len() && #[trigger] g[c].0 == cell_of(x);
                    // the first group with this cell is the only one
                    assert(c == k) by {
                        lemma_groups_distinct(items@.subrange(0, i as int));
                        if c != k {
                            assert(g[c].0 != g[k as int].0);
                        }
                    }
                    assert(groups_view(r@) =~= g.update(k as int, (cell_of(x), spec_put(g[k as int].1, x))));
                    assert forall|m: int| 0 <= m < r@.len() implies (#[trigger] r@[m]).1.wf() by {
                        if m != k {
                            if m < k {
                                assert(r@[m] == rr[m]);
                            } else {
                                assert(r@[m] == rr[m]);
                            }
                        }
                    }
                }
            },
            None => {
                let mut l = Lookup::new();
                l.put(x);
                r.push(((x.character, x.attack), l));
                proof {
                    assert(!(exists|c: int| 0 <= c < g.len() && #[trigger] g[c].0 == cell_of(x))) by {
                        if exists|c: int| 0 <= c < g.len() && #[trigger] g[c].0 == cell_of(x) {
                            let c = choose|c: int| 0 <= c < g.len() && #[trigger] g[c].0 == cell_of(x);
                            assert(r@[c].0 == cell_of(x));
                        }
                    }
                    assert(spec_put(Seq::<UiAssignment>::empty(), x) =~= seq![x]);
                    assert(groups_view(r@) =~= g.push((cell_of(x), seq![x])));
                }
            },
        }
        i = i + 1;
    }
    assert(items@.subrange(0, items@.len() as int) =~= items@);
    r
}

/// No two groups share a cell.
pub proof fn lemma_groups_distinct(s: Seq<UiAssignment>)
    ensures
        forall|a: int, b: int| 0 <= a < grouped(s).len() && 0 <= b < grouped(s).len() && a != b ==> #[trigger] grouped(s)[a].0 != #[trigger] grouped(s)[b].0,
    decreases s.len(),
{
    if s.len() > 0 {
        lemma_groups_distinct(s.drop_last());
        let g = grouped(s.drop_last());
        let x = s.last();
        let r = grouped(s);
        if exists|i: int| 0 <= i < g.len() && #[trigger] g[i].0 == cell_of(x) {
            let i = choose|i: int| 0 <= i < g.len() && #[trigger] g[i].0 == cell_of(x);
            assert forall|a: int, b: int| 0 <= a < r.len() && 0 <= b < r.len() && a != b implies #[trigger] r[a].0 != #[trigger] r[b].0 by {
                assert(r[a].0 == g[a].0);
                assert(r[b].0 == g[b].0);
            }
        } else {
            assert forall|a: int, b: int| 0 <= a < r.len() && 0 <= b < r.len() && a != b implies #[trigger] r[a].0 != #[trigger] r[b].0 by {
                if a < g.len() {
                    assert(r[a].0 == g[a].0);
                }
                if b < g.len() {
                    assert(r[b].0 == g[b].0);
                }
            }
        }
    }
}

pub proof fn lemma_unassigned_concat(a: Seq<UiAssignment>, ca: Seq<(u128, u128, u128)>, b: Seq<UiAssignment>, cb: Seq<(u128, u128, u128)>)
    requires
        unassigned_for(a, ca),
        unassigned_for(b, cb),
    ensures
        unassigned_for(a + b, ca + cb),
{
    assert forall|i: int| 0 <= i < (a + b).len() implies cell_triple(#[trigger] (a + b)[i]) == (ca + cb)[i] && (a + b)[i].state == UiAssignmentState::Unassigned by {
        if i < a.len() {
            assert((a + b)[i] == a[i]);
        } else {
            assert((a + b)[i] == b[i - a.len()]);
        }
    }
}

/// Appends, for each spell of a character and each attack, an unassigned assignment
/// with a fresh uuid.
fn push_unassigned(out: &mut Vec<UiAssignment>, c: &UiCharacter, attacks: &Vec<Attack>)
    requires
        c.wf(),
    ensures
        final(out)@.len() >= old(out)@.len(),
        final(out)@.subrange(0, old(out)@.len() as int) == old(out)@,
        unassigned_for(final(out)@.subrange(old(out)@.len() as int, final(out)@.len() as int), spell_cells(c.uuid, c.spells@, attacks@)),
{
    let ghost o = old(out)@;
    let spells = c.spells.items();
    let mut k: usize = 0;
    while k < spells.len()
        invariant
            spells@ == c.spells@,
            k <= spells@.len(),
            out@.len() >= o.len(),
            out@.subrange(0, o.len() as int) == o,
            unassigned_for(out@.subrange(o.len() as int, out@.len() as int), spell_cells(c.uuid, c.spells@.subrange(0, k as int), attacks@)),
        decreases spells@.len() - k,
    {
        let spell_uuid = spells[k].uuid;
        let ghost mid = out@;
        let mut j: usize = 0;
        while j < attacks.len()
            invariant
                j <= attacks@.len(),
                out@.len() == mid.len() + j,
                out@.subrange(0, mid.len() as int) == mid,
                unassigned_for(out@.subrange(mid.len() as int, out@.len() as int), attacks@.subrange(0, j as int).map_values(|a: Attack| (c.uuid, spell_uuid, a.uuid))),
            decreases attacks@.len() - j,
        {
            let uuid = new_uuid();
            let ghost prev = out@;
            out.push(UiAssignment { uuid, character: c.uuid, spell: spell_uuid, attack: attacks[j].uuid, state: UiAssignmentState::Unassigned });
            proof {
                assert(out@.subrange(0, mid.len() as int) =~= prev.subrange(0, mid.len() as int));
                let added = out@.subrange(mid.len() as int, out@.len() as int);
                assert(added =~= prev.subrange(mid.len() as int, prev.len() as int).push(out@.last()));
                assert(attacks@.subrange(0, j + 1).map_values(|a: Attack| (c.uuid, spell_uuid, a.uuid)) =~= attacks@.subrange(0, j as int).map_values(|a: Attack| (c.uuid, spell_uuid, a.uuid)).push((c.uuid, spell_uuid, attacks@[j as int].uuid)));
            }
            j = j + 1;
        }
        proof {
            assert(attacks@.subrange(0, attacks@.len() as int) =~= attacks@);
            let cs = c.spells@.subrange(0, k + 1);
            assert(cs.drop_last() =~= c.spells@.subrange(0, k as int));
            assert(cs.last().uuid == spell_uuid);
            let a1 = mid.subrange(o.len() as int, mid.len() as int);
            let a2 = out@.subrange(mid.len() as int, out@.len() as int);
            lemma_unassigned_concat(a1, spell_cells(c.uuid, c.spells@.subrange(0, k as int), attacks@), a2, attacks@.map_values(|a: Attack| (c.uuid, spell_uuid, a.uuid)));
            assert(out@.subrange(o.len() as int, out@.len() as int) =~= a1 + a2);
            assert(out@.subrange(0, o.len() as int) =~= mid.subrange(0, o.len() as int));
        }
        k = k + 1;
    }
    assert(c.spells@.subrange(0, spells@.len() as int) =~= c.spells@);
}

/// The characters that have a name, in their order.
pub open spec fn named_characters(cs: Seq<UiCharacter>) -> Seq<UiCharacter>
    decreases cs.len(),
{
    if cs.len() == 0 {
        Seq::empty()
    } else if cs.last().name is Some {
        named_characters(cs.drop_last()).push(cs.last())
    } else {
        named_characters(cs.drop_last())
    }
}

/// `ch` is the optimizer's copy of `c`: its uuid, its name and copies of its spells.
pub open spec fn copied_character(ch: Character, c: UiCharacter) -> bool {
    &&& ch.uuid == c.uuid
    &&& c.name == Some(ch.name)
    &&& ch.spells.wf()
    &&& ch.spells@.len() == c.spells@.len()
    &&& forall|i: int| 0 <= i < ch.spells@.len() ==> (#[trigger] ch.spells@[i])@ == c.spells@[i]@ && ch.spells@[i].uuid == c.spells@[i].uuid
}

/// The optimizer's copy of a character with a name.
fn copy_character(c: &UiCharacter) -> (ch: Character)
    requires
        c.wf(),
        c.name is Some,
    ensures
        copied_character(ch, *c),
{
    let items = c.spells.items();
    let mut v: Vec<UiSpell> = Vec::new();
    let mut i: usize = 0;
    while i < items.len()
        invariant
            items@ == c.spells@,
            i <= items@.len(),
            v@.len() == i,
            forall|j: int| 0 <= j < i ==> (#[trigger] v@[j])@ == items@[j]@ && v@[j].uuid == items@[j].uuid,
        decreases items@.len() - i,
    {
        v.push(items[i].duplicate());
        i = i + 1;
    }
    proof {
        assert forall|a: int, b: int| 0 <= a < v@.len() && 0 <= b < v@.len() && a != b implies #[trigger] v@[a].key() != #[trigger] v@[b].key() by {
            assert(items@[a].key() != items@[b].key());
        }
        lemma_collect_of_unique(v@);
    }
    let name = match &c.name {
        Some(n) => n.clone(),
        None => String::new(),
    };
    Character { uuid: c.uuid, name, spells: Lookup::from_vec(v) }
}

/// The named characters of characters with distinct uuids have distinct uuids.
pub proof fn lemma_named_unique(cs: Seq<UiCharacter>)
    requires
        keys_unique(cs),
    ensures
        keys_unique(named_characters(cs)),
        forall|i: int| 0 <= i < named_characters(cs).len() ==> cs.contains(#[trigger] named_characters(cs)[i]),
    decreases cs.len(),
{
    if cs.len() > 0 {
        let d = cs.drop_last();
        assert(keys_unique(d)) by {
            assert forall|a: int, b: int| 0 <= a < d.len() && 0 <= b < d.len() && a != b implies #[trigger] d[a].key() != #[trigger] d[b].key() by {
                assert(d[a] == cs[a]);
                assert(d[b] == cs[b]);
            }
        }
        lemma_named_unique(d);
        let nd = named_characters(d);
        let r = named_characters(cs);
        assert forall|i: int| 0 <= i < r.len() implies cs.contains(#[trigger] r[i]) by {
            if i < nd.len() {
                assert(r[i] == nd[i]);
                assert(d.contains(nd[i]));
                let k = choose|k: int| 0 <= k < d.len() && d[k] == nd[i];
                assert(cs[k] == d[k]);
            } else {
                assert(r[i] == cs.last());
                assert(cs[cs.len() - 1] == cs.last());
            }
        }
        if cs.last().name is Some {
            assert forall|a: int, b: int| 0 <= a < r.len() && 0 <= b < r.len() && a != b implies #[trigger] r[a].key() != #[trigger] r[b].key() by {
                if a == nd.len() || b == nd.len() {
                    let o = if a == nd.len() { b } else { a };
                    assert(r[o] == nd[o]);
                    assert(d.contains(nd[o]));
                    let k = choose|k: int| 0 <= k < d.len() && d[k] == nd[o];
                    assert(cs[k] == d[k]);
                    assert(cs[k].key() != cs[cs.len() - 1].key());
                } else {
                    assert(r[a] == nd[a]);
                    assert(r[b] == nd[b]);
                }
            }
        }
    }
}

/// Only the character at `i` may differ.
pub open spec fn only_at(old: Seq<UiCharacter>, new: Seq<UiCharacter>, i: int) -> bool {
    &&& new.len() == old.len()
    &&& forall|j: int| 0 <= j < old.len() && j != i ==> #[trigger] new[j] == old[j]
}

impl UiState {
    /// Nothing but the user's characters differs between the two states.
    pub open spec fn same_but_characters(&self, other: &UiState) -> bool {
        &&& self.general_character == other.general_character
        &&& self.suggested_assignments == other.suggested_assignments
        &&& self.planning == other.planning
        &&& self.selected_fight_index == other.selected_fight_index
        &&& self.fights == other.fights
    }

    pub open spec fn wf(&self) -> bool {
        &&& self.ui_characters.wf()
        &&& forall|i: int| 0 <= i < self.ui_characters@.len() ==> (#[trigger] self.ui_characters@[i]).wf()
        &&& self.general_character.wf()
        &&& self.suggested_assignments.wf()
        &&& forall|i: int| 0 <= i < self.fights@.len() ==> (#[trigger] self.fights@[i]).attacks.wf()
    }

    /// The characters of the grid: the user's, with the general column put among them.
    pub open spec fn all_characters(&self) -> Seq<UiCharacter> {
        spec_put(self.ui_characters@, self.general_character)
    }

    /// The attacks of the selected fight (none when no fight is selected).
    pub open spec fn spec_attacks(&self) -> Seq<Attack> {
        if self.selected_fight_index < self.fights@.len() {
            self.fights@[self.selected_fight_index as int].attacks@
        } else {
            Seq::empty()
        }
    }

    /// The assignments that the user has fixed, as the optimizer takes them.
    pub open spec fn spec_locked(&self) -> Seq<Assignment> {
        spec_collect(locked_seq(self.all_characters()))
    }

    pub open spec fn character_of(&self, uuid: u128) -> UiCharacter {
        spec_get(self.all_characters(), uuid).unwrap()
    }

    /// The locked assignments of other characters, at other attacks, with other spells
    /// than `a`.
    pub open spec fn forced_elsewhere(&self, a: UiAssignment) -> Seq<Assignment> {
        self.spec_locked().filter(elsewhere_pred(a))
    }

    /// `a` can be assigned: no locked assignment elsewhere uses a spell that its spell
    /// is exclusive with or a spell with the same icon, and its spell has a charge.
    pub open spec fn spec_is_spell_assignable(&self, a: UiAssignment) -> bool {
        let c = self.character_of(a.character);
        let spell = spec_get(c.spells@, a.spell).unwrap();
        let forced = self.forced_elsewhere(a);
        &&& !(exists|i: int| 0 <= i < forced.len() && excludes(c.spells@, spell, #[trigger] forced[i].spell))
        &&& !(exists|i: int| 0 <= i < forced.len() && same_identifier(c.spells@, spell, #[trigger] forced[i]))
        &&& spell.charges > 0
    }

    proof fn lemma_all_characters(&self)
        requires
            self.wf(),
        ensures
            keys_unique(self.all_characters()),
            self.all_characters().len() >= self.ui_characters@.len(),
            forall|i: int| 0 <= i < self.ui_characters@.len() ==> #[trigger] self.all_characters()[i] == (
                if self.ui_characters@[i].uuid == self.general_character.uuid { self.general_character } else { self.ui_characters@[i] }),
            has_key(self.ui_characters@, self.general_character.uuid) ==> self.all_characters().len() == self.ui_characters@.len(),
            !has_key(self.ui_characters@, self.general_character.uuid) ==> self.all_characters() == self.ui_characters@.push(self.general_character),
            forall|i: int| 0 <= i < self.all_characters().len() ==> (#[trigger] self.all_characters()[i]).wf(),
    {
        let s = self.ui_characters@;
        let g = self.general_character;
        lemma_put_unique(s, g);
        if has_key(s, g.uuid) {
            let k = key_index(s, g.uuid);
            assert forall|i: int| 0 <= i < s.len() implies #[trigger] self.all_characters()[i] == (
                if s[i].uuid == g.uuid { g } else { s[i] }) by {
                if s[i].uuid == g.uuid {
                    lemma_key_index_unique(s, i);
                }
            }
        } else {
            assert forall|i: int| 0 <= i < s.len() implies #[trigger] self.all_characters()[i] == (
                if s[i].uuid == g.uuid { g } else { s[i] }) by {
                assert(s[i].key() != g.uuid);
            }
        }
    }

    /// The character at position `i` among the user's, with the general column in the
    /// place of one that shares its uuid.
    fn character_at(&self, i: usize) -> (c: &UiCharacter)
        requires
            self.wf(),
            i < self.ui_characters@.len(),
        ensures
            *c == self.all_characters()[i as int],
    {
        proof {
            self.lemma_all_characters();
        }
        let c = self.ui_characters.at(i);
        if c.uuid == self.general_character.uuid {
            &self.general_character
        } else {
            c
        }
    }

    /// The character with the given uuid among all of the grid.
    pub fn character(&self, uuid: u128) -> (c: Option<&UiCharacter>)
        requires
            self.wf(),
        ensures
            c matches Some(x) ==> spec_get(self.all_characters(), uuid) == Some(*x),
            c is None ==> !has_key(self.all_characters(), uuid),
    {
        proof {
            lemma_put_unique(self.ui_characters@, self.general_character);
        }
        if uuid == self.general_character.uuid {
            Some(&self.general_character)
        } else {
            self.ui_characters.get(uuid)
        }
    }

    /// The time of the selected fight's attack with the given uuid.
    pub fn attack_time(&self, uuid: u128) -> (t: Option<i128>)
        requires
            self.wf(),
        ensures
            t is None <==> !has_key(self.spec_attacks(), uuid),
            t matches Some(x) ==> x == spec_get(self.spec_attacks(), uuid).unwrap().time(),
    {
        if self.selected_fight_index < self.fights.len() {
            let attacks = &self.fights[self.selected_fight_index].attacks;
            match attacks.get(uuid) {
                Some(a) => Some(a.static_timer()),
                None => None,
            }
        } else {
            None
        }
    }

    /// The locked assignments: the forced assignments of every character with a name,
    /// as the optimizer takes them.
    pub fn locked_assignments(&self) -> (r: Lookup<Assignment>)
        requires
            self.wf(),
        ensures
            r.wf(),
            r@ == self.spec_locked(),
    {
        proof {
            self.lemma_all_characters();
        }
        let ghost all = self.all_characters();
        let mut out: Vec<Assignment> = Vec::new();
        let n = self.ui_characters.len();
        let mut i: usize = 0;
        while i < n
            invariant
                self.wf(),
                all == self.all_characters(),
                n == self.ui_characters@.len(),
                n <= all.len(),
                i <= n,
                out@ == locked_seq(all.subrange(0, i as int)),
            decreases n - i,
        {
            let c = self.character_at(i);
            push_locked_of_character(&mut out, c);
            proof {
                assert(all.subrange(0, i + 1).drop_last() =~= all.subrange(0, i as int));
                assert(all.subrange(0, i + 1).last() == all[i as int]);
            }
            i = i + 1;
        }
        if !self.ui_characters.contains_key(self.general_character.uuid) {
            push_locked_of_character(&mut out, &self.general_character);
            proof {
                assert(all.drop_last() =~= all.subrange(0, n as int));
            }
        } else {
            assert(all.subrange(0, n as int) =~= all);
        }
        Lookup::from_vec(out)
    }

    /// Whether the user may lock `assignment`: no locked assignment of another character,
    /// at another attack, with another spell, uses a spell that the assignment's spell
    /// is exclusive with, or one with the same icon; and the spell has a charge.
    pub fn is_spell_assignable(&self, assignment: &UiAssignment) -> (b: bool)
        requires
            self.wf(),
            has_key(self.all_characters(), assignment.character),
            has_key(self.character_of(assignment.character).spells@, assignment.spell),
            has_key(self.spec_attacks(), assignment.attack),
        ensures
            b == self.spec_is_spell_assignable(*assignment),
    {
        let a = *assignment;
        proof {
            self.lemma_all_characters();
        }
        let c = self.character(a.character).unwrap();
        let spells = &c.spells;
        let spell = spells.get(a.spell).unwrap();
        proof {
            crate::lookup::lemma_key_index(c.spells@, a.spell);
        }
        let attack_time = self.attack_time(a.attack).unwrap();
        let ghost sp = c.spells@;

        // the locked assignments of other characters at other attacks with other spells
        let locked = self.locked_assignments();
        let ghost pe = elsewhere_pred(a);
        let items = locked.items();
        let mut forced: Vec<Assignment> = Vec::new();
        let mut i: usize = 0;
        while i < items.len()
            invariant
                items@ == self.spec_locked(),
                i <= items@.len(),
                pe == elsewhere_pred(a),
                forced@ == items@.subrange(0, i as int).filter(pe),
            decreases items@.len() - i,
        {
            let x = items[i];
            proof {
                reveal(Seq::filter);
                assert(items@.subrange(0, i + 1).drop_last() =~= items@.subrange(0, i as int));
                assert(items@.subrange(0, i + 1).last() == x);
            }
            if x.character != a.character && x.attack != a.attack && x.spell != a.spell {
                forced.push(x);
            }
            i = i + 1;
        }
        assert(items@.subrange(0, items@.len() as int) =~= items@);
        let ghost f = forced@;
        assert(f == self.forced_elsewhere(a));

        // the uuids of the character's spells that the spell is exclusive with
        let spell_items = spells.items();
        let mut exclusive: Vec<u128> = Vec::new();
        let mut k: usize = 0;
        while k < spell_items.len()
            invariant
                spell_items@ == sp,
                k <= sp.len(),
                forall|u: u128| #[trigger] exclusive@.contains(u) <==> exists|m: int, j: int|
                    0 <= m < k && 0 <= j < spell.exclusive_with@.len() && #[trigger] sp[m].uuid == u
                        && #[trigger] spell.exclusive_with@[j]@ == sp[m].identifier@,
            decreases sp.len() - k,
        {
            let s = &spell_items[k];
            let found = identifiers_contain(&spell.exclusive_with, &s.identifier);
            let ghost before = exclusive@;
            if found {
                exclusive.push(s.uuid);
            }
            proof {
                assert forall|u: u128| #[trigger] exclusive@.contains(u) <==> exists|m: int, j: int|
                    0 <= m < k + 1 && 0 <= j < spell.exclusive_with@.len() && #[trigger] sp[m].uuid == u
                        && #[trigger] spell.exclusive_with@[j]@ == sp[m].identifier@ by {
                    if found {
                        assert(exclusive@ == before.push(s.uuid));
                        if exclusive@.contains(u) && !before.contains(u) {
                            let q = choose|q: int| 0 <= q < exclusive@.len() && exclusive@[q] == u;
                            if q < before.len() {
                                assert(before[q] == u);
                            }
                            assert(u == s.uuid);
                            let j = choose|j: int| 0 <= j < spell.exclusive_with@.len() && spell.exclusive_with@[j]@ == s.identifier@;
                            assert(sp[k as int].uuid == u);
                        }
                        if before.contains(u) {
                            let q = choose|q: int| 0 <= q < before.len() && before[q] == u;
                            assert(exclusive@[q] == u);
                        }
                        if u == s.uuid {
                            assert(exclusive@[before.len() as int] == u);
                        }
                    } else {
                        if exists|m: int, j: int|
                            0 <= m < k + 1 && 0 <= j < spell.exclusive_with@.len() && #[trigger] sp[m].uuid == u
                                && #[trigger] spell.exclusive_with@[j]@ == sp[m].identifier@ {
                            let (m, j) = choose|m: int, j: int|
                                0 <= m < k + 1 && 0 <= j < spell.exclusive_with@.len() && #[trigger] sp[m].uuid == u
                                    && #[trigger] spell.exclusive_with@[j]@ == sp[m].identifier@;
                            if m == k {
                                assert(spell.exclusive_with@[j]@ == s.identifier@);
                                assert(false);
                            }
                        }
                    }
                }
            }
            k = k + 1;
        }
        assert(forall|u: u128| #[trigger] exclusive@.contains(u) <==> excludes(sp, *spell, u));

        let mut has_assigned_exclusives = false;
        let mut i: usize = 0;
        while i < forced.len()
            invariant
                forced@ == f,
                i <= f.len(),
                forall|u: u128| #[trigger] exclusive@.contains(u) <==> excludes(sp, *spell, u),
                has_assigned_exclusives == exists|m: int| 0 <= m < i && excludes(sp, *spell, #[trigger] f[m].spell),
            decreases f.len() - i,
        {
            let x = forced[i];
            let mut hit = false;
            let mut j: usize = 0;
            while j < exclusive.len()
                invariant
                    j <= exclusive@.len(),
                    hit == exists|q: int| 0 <= q < j && exclusive@[q] == x.spell,
                decreases exclusive@.len() - j,
            {
                if exclusive[j] == x.spell {
                    hit = true;
                }
                j = j + 1;
            }
            assert(hit == exclusive@.contains(x.spell));
            if hit {
                has_assigned_exclusives = true;
            }
            proof {
                assert(f[i as int] == x);
            }
            i = i + 1;
        }
        if has_assigned_exclusives {
            return false;
        }
        assert(!(exists|m: int| 0 <= m < f.len() && excludes(sp, *spell, #[trigger] f[m].spell)));

        // the locked assignments elsewhere whose spell has the same icon
        let ghost ps = same_identifier_pred(sp, *spell);
        let mut other_usages: Vec<Assignment> = Vec::new();
        let mut i: usize = 0;
        while i < forced.len()
            invariant
                forced@ == f,
                i <= f.len(),
                spells.wf(),
                spells@ == sp,
                ps == same_identifier_pred(sp, *spell),
                other_usages@ == f.subrange(0, i as int).filter(ps),
            decreases f.len() - i,
        {
            let x = forced[i];
            let same = match spells.get(x.spell) {
                Some(assigned_spell) => assigned_spell.identifier.same_as(&spell.identifier),
                None => false,
            };
            proof {
                reveal(Seq::filter);
                assert(f.subrange(0, i + 1).drop_last() =~= f.subrange(0, i as int));
                assert(f.subrange(0, i + 1).last() == x);
                assert(same == ps(x));
            }
            if same {
                other_usages.push(x);
            }
            i = i + 1;
        }
        assert(f.subrange(0, f.len() as int) =~= f);
        let ghost uses_same_icon = exists|m: int| 0 <= m < f.len() && same_identifier(sp, *spell, #[trigger] f[m]);
        proof {
            broadcast use vstd::seq_lib::group_filter_ensures;
            assert forall|m: int| 0 <= m < other_usages@.len() implies #[trigger] other_usages@[m].spell != spell.uuid by {
                assert(f.filter(ps).contains(other_usages@[m]));
                f.lemma_filter_contains_rev(ps, other_usages@[m]);
                let q = choose|q: int| 0 <= q < f.len() && f[q] == other_usages@[m];
                assert(self.spec_locked().filter(pe).contains(f[q]));
                self.spec_locked().lemma_filter_contains_rev(pe, f[q]);
                let r = choose|r: int| 0 <= r < self.spec_locked().len() && self.spec_locked()[r] == f[q];
                assert(pe(f[q])) by {
                    let fl = self.spec_locked().filter(pe);
                    let w = choose|w: int| 0 <= w < fl.len() && fl[w] == f[q];
                    assert(pe(fl[w]));
                }
            }
            assert(uses_same_icon <==> other_usages@.len() > 0) by {
                if uses_same_icon {
                    let m = choose|m: int| 0 <= m < f.len() && same_identifier(sp, *spell, #[trigger] f[m]);
                    assert(ps(f[m]));
                    assert(f.filter(ps).contains(f[m]));
                }
                if other_usages@.len() > 0 {
                    let o = other_usages@[0];
                    assert(f.filter(ps).contains(o));
                    f.lemma_filter_contains_rev(ps, o);
                    let m = choose|m: int| 0 <= m < f.len() && f[m] == o;
                    let fl = f.filter(ps);
                    assert(ps(fl[0]));
                }
            }
        }

        let mut i: usize = 0;
        while i < other_usages.len()
            invariant
                i <= other_usages@.len(),
                forall|m: int| 0 <= m < other_usages@.len() ==> #[trigger] other_usages@[m].spell != spell.uuid,
                forall|m: int| 0 <= m < i ==> #[trigger] other_usages@[m].spell == spell.uuid,
                a == *assignment,
                other_usages@.len() > 0 ==> !self.spec_is_spell_assignable(a),
            decreases other_usages@.len() - i,
        {
            if other_usages[i].spell != spell.uuid {
                return false;
            }
            i = i + 1;
        }
        if other_usages.len() > 0 {
            assert(other_usages@[0].spell == spell.uuid);
        }
        assert(other_usages@.len() == 0);

        // the other usages within the spell's cooldown of this attack
        let mut within_cooldown: usize = 0;
        let mut i: usize = 0;
        while i < other_usages.len()
            invariant
                i <= other_usages@.len(),
                within_cooldown <= i,
                other_usages@.len() == 0,
            decreases other_usages@.len() - i,
        {
            let other_time = self.attack_time(other_usages[i].attack);
            if let Some(t) = other_time {
                let diff = if t >= attack_time { t - attack_time } else { attack_time - t };
                if diff <= spell.cooldown as i128 {
                    within_cooldown = within_cooldown + 1;
                }
            }
            i = i + 1;
        }
        assert(within_cooldown == 0);
        if within_cooldown >= spell.charges {
            return false;
        }
        true
    }

    proof fn lemma_wf_update(&self, other: &UiState, i: int)
        requires
            self.wf(),
            other.same_but_characters(self),
            other.ui_characters.wf(),
            0 <= i < self.ui_characters@.len(),
            only_at(self.ui_characters@, other.ui_characters@, i),
            other.ui_characters@[i].wf(),
        ensures
            other.wf(),
    {
        assert forall|j: int| 0 <= j < other.ui_characters@.len() implies (#[trigger] other.ui_characters@[j]).wf() by {
            if j != i {
                assert(other.ui_characters@[j] == self.ui_characters@[j]);
            }
        }
    }

    /// The user clicks an assignment: a forced assignment is taken back; another is put
    /// into the character's assignments as it is, where it can be assigned.
    pub fn toggle_assignment(&mut self, assignment: &UiAssignment)
        requires
            old(self).wf(),
            has_key(old(self).ui_characters@, assignment.character),
            has_key(old(self).character_of(assignment.character).spells@, assignment.spell),
            has_key(old(self).spec_attacks(), assignment.attack),
        ensures
            final(self).wf(),
            final(self).same_but_characters(old(self)),
            only_at(old(self).ui_characters@, final(self).ui_characters@, key_index(old(self).ui_characters@, assignment.character)),
            same_but_assignments(
                old(self).ui_characters@[key_index(old(self).ui_characters@, assignment.character)],
                final(self).ui_characters@[key_index(old(self).ui_characters@, assignment.character)],
            ),
            final(self).ui_characters@[key_index(old(self).ui_characters@, assignment.character)].assignments@ == toggled(
                old(self).ui_characters@[key_index(old(self).ui_characters@, assignment.character)].assignments@,
                *assignment,
                old(self).spec_is_spell_assignable(*assignment),
            ),
    {
        proof {
            self.lemma_all_characters();
            lemma_put_unique(self.ui_characters@, self.general_character);
        }
        let assignable = self.is_spell_assignable(assignment);
        let i = self.ui_characters.find(assignment.character).unwrap();
        let ghost old_self = *self;
        let mut c = self.ui_characters.remove_at(i);
        assert(c.wf());
        if assignment.state == UiAssignmentState::Forced {
            c.assignments.take(assignment.uuid);
        } else if assignable {
            c.assignments.put(*assignment);
        }
        self.ui_characters.insert_at(i, c);
        proof {
            lemma_remove_insert(old_self.ui_characters@, i as int, c);
            old_self.lemma_wf_update(self, i as int);
        }
    }

    /// The user locks the optimizer's suggestions: every suggested assignment of the
    /// user's characters becomes a forced one.
    pub fn lock_suggestions(&mut self)
        requires
            old(self).wf(),
        ensures
            final(self).wf(),
            final(self).same_but_characters(old(self)),
            final(self).ui_characters@.len() == old(self).ui_characters@.len(),
            forall|i: int| 0 <= i < old(self).ui_characters@.len() ==> {
                &&& same_but_assignments(old(self).ui_characters@[i], #[trigger] final(self).ui_characters@[i])
                &&& final(self).ui_characters@[i].assignments@ == old(self).ui_characters@[i].assignments@.map_values(lock_fn())
            },
    {
        let ghost old_self = *self;
        let n = self.ui_characters.len();
        let mut i: usize = 0;
        while i < n
            invariant
                old_self.wf(),
                self.wf(),
                self.same_but_characters(&old_self),
                n == old_self.ui_characters@.len(),
                self.ui_characters@.len() == n,
                i <= n,
                forall|j: int| 0 <= j < i ==> {
                    &&& same_but_assignments(old_self.ui_characters@[j], #[trigger] self.ui_characters@[j])
                    &&& self.ui_characters@[j].assignments@ == old_self.ui_characters@[j].assignments@.map_values(lock_fn())
                },
                forall|j: int| i <= j < n ==> #[trigger] self.ui_characters@[j] == old_self.ui_characters@[j],
            decreases n - i,
        {
            let ghost before = *self;
            let mut c = self.ui_characters.remove_at(i);
            assert(c.wf());
            let ghost ca = c.assignments@;
            let ghost c0 = c;
            let ghost removed = *self;
            let m = c.assignments.len();
            let mut j: usize = 0;
            while j < m
                invariant
                    *self == removed,
                    !has_key(removed.ui_characters@, c0.uuid),
                    same_but_assignments(c0, c),
                    c0.wf(),
                    c.assignments.wf(),
                    m == ca.len(),
                    c.assignments@.len() == m,
                    j <= m,
                    forall|k: int| 0 <= k < j ==> #[trigger] c.assignments@[k] == lock_one(ca[k]),
                    forall|k: int| j <= k < m ==> #[trigger] c.assignments@[k] == ca[k],
                decreases m - j,
            {
                let a = *c.assignments.at(j);
                if a.state == UiAssignmentState::Suggested {
                    c.assignments.set_at(j, UiAssignment { state: UiAssignmentState::Forced, ..a });
                }
                j = j + 1;
            }
            assert(c.assignments@ =~= ca.map_values(lock_fn()));
            self.ui_characters.insert_at(i, c);
            proof {
                lemma_remove_insert(before.ui_characters@, i as int, c);
                before.lemma_wf_update(self, i as int);
            }
            i = i + 1;
        }
    }

    /// Changes whether the user is editing the name of one of their characters.
    pub fn set_ui_character_editing(&mut self, uuid: u128, editing: bool)
        requires
            old(self).wf(),
            has_key(old(self).ui_characters@, uuid),
        ensures
            final(self).wf(),
            final(self).same_but_characters(old(self)),
            only_at(old(self).ui_characters@, final(self).ui_characters@, key_index(old(self).ui_characters@, uuid)),
            same_but_header(old(self).ui_characters@[key_index(old(self).ui_characters@, uuid)], final(self).ui_characters@[key_index(old(self).ui_characters@, uuid)]),
            final(self).ui_characters@[key_index(old(self).ui_characters@, uuid)].editing == editing,
            final(self).ui_characters@[key_index(old(self).ui_characters@, uuid)].class == old(self).ui_characters@[key_index(old(self).ui_characters@, uuid)].class,
            final(self).ui_characters@[key_index(old(self).ui_characters@, uuid)].spec == old(self).ui_characters@[key_index(old(self).ui_characters@, uuid)].spec,
    {
        let i = self.ui_characters.find(uuid).unwrap();
        let ghost old_self = *self;
        let mut c = self.ui_characters.remove_at(i);
        c.editing = editing;
        self.ui_characters.insert_at(i, c);
        proof {
            lemma_remove_insert(old_self.ui_characters@, i as int, c);
            old_self.lemma_wf_update(self, i as int);
        }
    }

    /// Sets the class of one of the user's characters.
    pub fn set_ui_character_class(&mut self, uuid: u128, class: Option<crate::domain::LocalizedString>)
        requires
            old(self).wf(),
            has_key(old(self).ui_characters@, uuid),
        ensures
            final(self).wf(),
            final(self).same_but_characters(old(self)),
            only_at(old(self).ui_characters@, final(self).ui_characters@, key_index(old(self).ui_characters@, uuid)),
            same_but_header(old(self).ui_characters@[key_index(old(self).ui_characters@, uuid)], final(self).ui_characters@[key_index(old(self).ui_characters@, uuid)]),
            final(self).ui_characters@[key_index(old(self).ui_characters@, uuid)].class == class,
            final(self).ui_characters@[key_index(old(self).ui_characters@, uuid)].spec == old(self).ui_characters@[key_index(old(self).ui_characters@, uuid)].spec,
            final(self).ui_characters@[key_index(old(self).ui_characters@, uuid)].editing == old(self).ui_characters@[key_index(old(self).ui_characters@, uuid)].editing,
    {
        let i = self.ui_characters.find(uuid).unwrap();
        let ghost old_self = *self;
        let mut c = self.ui_characters.remove_at(i);
        c.class = class;
        self.ui_characters.insert_at(i, c);
        proof {
            lemma_remove_insert(old_self.ui_characters@, i as int, c);
            old_self.lemma_wf_update(self, i as int);
        }
    }

    /// Sets the spec of one of the user's characters.
    pub fn set_ui_character_spec(&mut self, uuid: u128, spec: Option<crate::domain::LocalizedString>)
        requires
            old(self).wf(),
            has_key(old(self).ui_characters@, uuid),
        ensures
            final(self).wf(),
            final(self).same_but_characters(old(self)),
            only_at(old(self).ui_characters@, final(self).ui_characters@, key_index(old(self).ui_characters@, uuid)),
            same_but_header(old(self).ui_characters@[key_index(old(self).ui_characters@, uuid)], final(self).ui_characters@[key_index(old(self).ui_characters@, uuid)]),
            final(self).ui_characters@[key_index(old(self).ui_characters@, uuid)].spec == spec,
            final(self).ui_characters@[key_index(old(self).ui_characters@, uuid)].class == old(self).ui_characters@[key_index(old(self).ui_characters@, uuid)].class,
            final(self).ui_characters@[key_index(old(self).ui_characters@, uuid)].editing == old(self).ui_characters@[key_index(old(self).ui_characters@, uuid)].editing,
    {
        let i = self.ui_characters.find(uuid).unwrap();
        let ghost old_self = *self;
        let mut c = self.ui_characters.remove_at(i);
        c.spec = spec;
        self.ui_characters.insert_at(i, c);
        proof {
            lemma_remove_insert(old_self.ui_characters@, i as int, c);
            old_self.lemma_wf_update(self, i as int);
        }
    }

    /// Turns one of a character's spells on or off.
    pub fn toggle_spell_enabled(&mut self, character: u128, spell: u128)
        requires
            old(self).wf(),
            has_key(old(self).ui_characters@, character),
            has_key(old(self).ui_characters@[key_index(old(self).ui_characters@, character)].spells@, spell),
        ensures
            final(self).wf(),
            final(self).same_but_characters(old(self)),
            only_at(old(self).ui_characters@, final(self).ui_characters@, key_index(old(self).ui_characters@, character)),
            same_but_spells(old(self).ui_characters@[key_index(old(self).ui_characters@, character)], final(self).ui_characters@[key_index(old(self).ui_characters@, character)]),
            ({
                let s = old(self).ui_characters@[key_index(old(self).ui_characters@, character)].spells@;
                let k = key_index(s, spell);
                final(self).ui_characters@[key_index(old(self).ui_characters@, character)].spells@ == s.update(k, UiSpell { enabled: !s[k].enabled, ..s[k] })
            }),
    {
        let i = self.ui_characters.find(character).unwrap();
        let ghost old_self = *self;
        let mut c = self.ui_characters.remove_at(i);
        assert(c.wf());
        let k = c.spells.find(spell).unwrap();
        let ghost sk = c.spells@;
        let mut s = c.spells.remove_at(k);
        s.enabled = !s.enabled;
        c.spells.insert_at(k, s);
        proof {
            lemma_remove_insert(sk, k as int, s);
        }
        self.ui_characters.insert_at(i, c);
        proof {
            lemma_remove_insert(old_self.ui_characters@, i as int, c);
            old_self.lemma_wf_update(self, i as int);
        }
    }

    /// The state at start-up: no characters of the user's, the general column, no
    /// suggestions, not planning, the first fight selected.
    pub fn new(fights: Vec<UiFight>) -> (r: UiState)
        requires
            forall|i: int| 0 <= i < fights@.len() ==> (#[trigger] fights@[i]).attacks.wf(),
        ensures
            r.wf(),
            r.ui_characters@.len() == 0,
            r.general_character.name is None,
            r.general_character.realm is None,
            r.general_character.class is None,
            r.general_character.spec is None,
            r.general_character.spells@.len() == 0,
            r.general_character.assignments@.len() == 0,
            r.general_character.is_general,
            !r.general_character.editable,
            !r.general_character.editing,
            r.suggested_assignments@.len() == 0,
            !r.planning,
            r.selected_fight_index == 0,
            r.fights == fights,
    {
        let uuid = new_uuid();
        let general = UiCharacter::new(uuid, UiCharacterTemplate::new_general(), true);
        UiState {
            ui_characters: Lookup::new(),
            general_character: general,
            suggested_assignments: Lookup::new(),
            planning: false,
            selected_fight_index: 0,
            fights,
        }
    }

    /// Names the general column (with the localized word for "General").
    pub fn set_general_name(&mut self, name: String)
        requires
            old(self).wf(),
        ensures
            final(self).wf(),
            final(self).general_character == (UiCharacter { name: Some(name), ..old(self).general_character }),
            final(self).ui_characters == old(self).ui_characters,
            final(self).suggested_assignments == old(self).suggested_assignments,
            final(self).planning == old(self).planning,
            final(self).selected_fight_index == old(self).selected_fight_index,
            final(self).fights == old(self).fights,
    {
        self.general_character.name = Some(name);
    }

    /// Adds a character, made from `template`, with the given uuid.
    pub fn add_ui_character_with_uuid(&mut self, uuid: u128, template: UiCharacterTemplate)
        requires
            old(self).wf(),
            template.spells.wf(),
        ensures
            final(self).wf(),
            final(self).same_but_characters(old(self)),
            has_key(final(self).ui_characters@, uuid),
            made_from(spec_get(final(self).ui_characters@, uuid).unwrap(), uuid, template, false),
            final(self).ui_characters@ == spec_put(old(self).ui_characters@, spec_get(final(self).ui_characters@, uuid).unwrap()),
    {
        let ghost old_self = *self;
        let c = UiCharacter::new(uuid, template, false);
        proof {
            lemma_put_unique(self.ui_characters@, c);
        }
        self.ui_characters.put(c);
        proof {
            assert forall|j: int| 0 <= j < self.ui_characters@.len() implies (#[trigger] self.ui_characters@[j]).wf() by {
                let o = old_self.ui_characters@;
                if has_key(o, uuid) {
                    if j != key_index(o, uuid) {
                        assert(self.ui_characters@[j] == o[j]);
                    }
                } else if j < o.len() {
                    assert(self.ui_characters@[j] == o[j]);
                }
            }
        }
    }

    /// Adds a character made from `template`, with a fresh uuid.
    pub fn add_ui_character(&mut self, template: UiCharacterTemplate)
        requires
            old(self).wf(),
            template.spells.wf(),
        ensures
            final(self).wf(),
            final(self).same_but_characters(old(self)),
            exists|uuid: u128| {
                &&& has_key(final(self).ui_characters@, uuid)
                &&& made_from(#[trigger] spec_get(final(self).ui_characters@, uuid).unwrap(), uuid, template, false)
                &&& final(self).ui_characters@ == spec_put(old(self).ui_characters@, spec_get(final(self).ui_characters@, uuid).unwrap())
            },
    {
        let uuid = new_uuid();
        self.add_ui_character_with_uuid(uuid, template);
    }

    /// Puts a character made from `template`, with the given uuid, in the place of the
    /// character `prev`; without a character `prev`, nothing changes.
    pub fn replace_ui_character_with_uuid(&mut self, prev: u128, uuid: u128, template: UiCharacterTemplate)
        requires
            old(self).wf(),
            template.spells.wf(),
        ensures
            final(self).wf(),
            final(self).same_but_characters(old(self)),
            !has_key(old(self).ui_characters@, prev) ==> final(self).ui_characters == old(self).ui_characters,
            has_key(old(self).ui_characters@, prev) ==> {
                &&& has_key(final(self).ui_characters@, uuid)
                &&& made_from(spec_get(final(self).ui_characters@, uuid).unwrap(), uuid, template, false)
                &&& final(self).ui_characters@ == spec_replace(old(self).ui_characters@, prev, spec_get(final(self).ui_characters@, uuid).unwrap())
            },
    {
        let ghost old_self = *self;
        if !self.ui_characters.contains_key(prev) {
            return;
        }
        let c = UiCharacter::new(uuid, template, false);
        let ghost cg = c;
        self.ui_characters.replace(prev, c);
        proof {
            let o = old_self.ui_characters@;
            let r = self.ui_characters@;
            let pi = key_index(o, prev);
            if uuid == prev || !has_key(o, uuid) {
                assert(r == o.update(pi, cg));
                assert(r[pi] == cg);
                lemma_key_index_unique(r, pi);
                assert forall|j: int| 0 <= j < r.len() implies (#[trigger] r[j]).wf() by {
                    if j != pi {
                        assert(r[j] == o[j]);
                    }
                }
            } else {
                crate::lookup::lemma_take_unique(o, prev);
                let t = spec_take(o, prev);
                lemma_put_unique(t, cg);
                assert forall|j: int| 0 <= j < t.len() implies (#[trigger] t[j]).wf() by {
                    if j < pi {
                        assert(t[j] == o[j]);
                    } else {
                        assert(t[j] == o[j + 1]);
                    }
                }
                assert forall|j: int| 0 <= j < r.len() implies (#[trigger] r[j]).wf() by {
                    if has_key(t, uuid) {
                        if j != key_index(t, uuid) {
                            assert(r[j] == t[j]);
                        }
                    } else if j < t.len() {
                        assert(r[j] == t[j]);
                    }
                }
            }
        }
    }

    /// Puts a character made from `template`, with a fresh uuid, in the place of the
    /// character `prev`; without a character `prev`, nothing changes.
    pub fn replace_ui_character(&mut self, prev: u128, template: UiCharacterTemplate)
        requires
            old(self).wf(),
            template.spells.wf(),
        ensures
            final(self).wf(),
            final(self).same_but_characters(old(self)),
            !has_key(old(self).ui_characters@, prev) ==> final(self).ui_characters == old(self).ui_characters,
            has_key(old(self).ui_characters@, prev) ==> exists|uuid: u128| {
                &&& has_key(final(self).ui_characters@, uuid)
                &&& made_from(#[trigger] spec_get(final(self).ui_characters@, uuid).unwrap(), uuid, template, false)
                &&& final(self).ui_characters@ == spec_replace(old(self).ui_characters@, prev, spec_get(final(self).ui_characters@, uuid).unwrap())
            },
    {
        let uuid = new_uuid();
        self.replace_ui_character_with_uuid(prev, uuid, template);
    }

    /// Takes one of the user's characters out of the grid.
    pub fn remove_ui_character(&mut self, uuid: u128)
        requires
            old(self).wf(),
        ensures
            final(self).wf(),
            final(self).same_but_characters(old(self)),
            final(self).ui_characters@ == spec_take(old(self).ui_characters@, uuid),
    {
        let ghost o = self.ui_characters@;
        self.ui_characters.take(uuid);
        proof {
            if has_key(o, uuid) {
                let pi = key_index(o, uuid);
                assert forall|j: int| 0 <= j < self.ui_characters@.len() implies (#[trigger] self.ui_characters@[j]).wf() by {
                    if j < pi {
                        assert(self.ui_characters@[j] == o[j]);
                    } else {
                        assert(self.ui_characters@[j] == o[j + 1]);
                    }
                }
            }
        }
    }

    pub fn set_planning(&mut self, value: bool)
        ensures
            *final(self) == (UiState { planning: value, ..*old(self) }),
    {
        self.planning = value;
    }

    pub fn planning(&self) -> (b: bool)
        ensures
            b == self.planning,
    {
        self.planning
    }

    pub fn set_selected_fight_index(&mut self, index: usize)
        ensures
            *final(self) == (UiState { selected_fight_index: index, ..*old(self) }),
    {
        self.selected_fight_index = index;
    }

    pub fn selected_fight_index(&self) -> (i: usize)
        ensures
            i == self.selected_fight_index,
    {
        self.selected_fight_index
    }

    pub fn fights(&self) -> (r: &Vec<UiFight>)
        ensures
            *r == self.fights,
    {
        &self.fights
    }

    /// The selected fight, if the selected index names one.
    pub fn selected_fight(&self) -> (r: Option<&UiFight>)
        ensures
            self.selected_fight_index < self.fights@.len() ==> r == Some(&self.fights@[self.selected_fight_index as int]),
            self.selected_fight_index >= self.fights@.len() ==> r is None,
    {
        if self.selected_fight_index < self.fights.len() {
            Some(&self.fights[self.selected_fight_index])
        } else {
            None
        }
    }

    /// The optimizer's suggestions, as the grid shows them.
    pub fn update_assignment_suggestions(&mut self, suggestions: Lookup<crate::domain::Assignment>)
        requires
            old(self).wf(),
            suggestions.wf(),
        ensures
            final(self).wf(),
            final(self).suggested_assignments@ == suggestions@.map_values(|a: Assignment| suggested_of(a)),
            final(self).ui_characters == old(self).ui_characters,
            final(self).general_character == old(self).general_character,
            final(self).planning == old(self).planning,
            final(self).selected_fight_index == old(self).selected_fight_index,
            final(self).fights == old(self).fights,
    {
        let items = suggestions.items();
        let mut v: Vec<UiAssignment> = Vec::new();
        let mut i: usize = 0;
        while i < items.len()
            invariant
                items@ == suggestions@,
                i <= items@.len(),
                v@ == suggestions@.subrange(0, i as int).map_values(|a: Assignment| suggested_of(a)),
            decreases items@.len() - i,
        {
            let a = items[i];
            v.push(UiAssignment { uuid: a.uuid, character: a.character, spell: a.spell, attack: a.attack, state: UiAssignmentState::Suggested });
            proof {
                assert(v@ =~= suggestions@.subrange(0, i + 1).map_values(|a: Assignment| suggested_of(a)));
            }
            i = i + 1;
        }
        assert(suggestions@.subrange(0, items@.len() as int) =~= suggestions@);
        proof {
            assert forall|a: int, b: int| 0 <= a < v@.len() && 0 <= b < v@.len() && a != b implies #[trigger] v@[a].key() != #[trigger] v@[b].key() by {
                assert(suggestions@[a].key() != suggestions@[b].key());
            }
            lemma_collect_of_unique(v@);
        }
        self.suggested_assignments = Lookup::from_vec(v);
    }

    /// Whether the user is editing the name of the character.
    pub fn ui_character_editing(&self, uuid: u128) -> (b: bool)
        requires
            self.wf(),
            has_key(self.all_characters(), uuid),
        ensures
            b == self.character_of(uuid).editing,
    {
        self.character(uuid).unwrap().editing
    }

    /// The attacks of the selected fight (none when no fight is selected).
    pub fn attacks(&self) -> (r: Lookup<Attack>)
        requires
            self.wf(),
        ensures
            r.wf(),
            r@ == self.spec_attacks(),
    {
        if self.selected_fight_index < self.fights.len() {
            let attacks = &self.fights[self.selected_fight_index].attacks;
            let items = attacks.items();
            let mut v: Vec<Attack> = Vec::new();
            let mut i: usize = 0;
            while i < items.len()
                invariant
                    items@ == attacks@,
                    i <= items@.len(),
                    v@ == items@.subrange(0, i as int),
                decreases items@.len() - i,
            {
                v.push(items[i].duplicate());
                proof {
                    assert(v@ =~= items@.subrange(0, i + 1));
                }
                i = i + 1;
            }
            assert(items@.subrange(0, items@.len() as int) =~= items@);
            proof {
                lemma_collect_of_unique(v@);
            }
            Lookup::from_vec(v)
        } else {
            Lookup::new()
        }
    }

    /// The characters of the grid, in their order, the general column among them.
    pub fn ui_characters(&self) -> (r: Vec<&UiCharacter>)
        requires
            self.wf(),
        ensures
            r@.len() == self.all_characters().len(),
            forall|i: int| 0 <= i < r@.len() ==> *#[trigger] r@[i] == self.all_characters()[i],
    {
        proof {
            self.lemma_all_characters();
        }
        let mut r: Vec<&UiCharacter> = Vec::new();
        let n = self.ui_characters.len();
        let mut i: usize = 0;
        while i < n
            invariant
                self.wf(),
                n == self.ui_characters@.len(),
                n <= self.all_characters().len(),
                i <= n,
                r@.len() == i,
                forall|j: int| 0 <= j < i ==> *#[trigger] r@[j] == self.all_characters()[j],
            decreases n - i,
        {
            r.push(self.character_at(i));
            i = i + 1;
        }
        if !self.ui_characters.contains_key(self.general_character.uuid) {
            r.push(&self.general_character);
        }
        r
    }

    /// The attacks of the selected fight, as a list.
    fn attack_list(&self) -> (r: Vec<Attack>)
        requires
            self.wf(),
        ensures
            r@ == self.spec_attacks(),
    {
        let l = self.attacks();
        let items = l.items();
        let mut v: Vec<Attack> = Vec::new();
        let mut i: usize = 0;
        while i < items.len()
            invariant
                items@ == self.spec_attacks(),
                i <= items@.len(),
                v@ == items@.subrange(0, i as int),
            decreases items@.len() - i,
        {
            v.push(items[i].duplicate());
            proof {
                assert(v@ =~= items@.subrange(0, i + 1));
            }
            i = i + 1;
        }
        assert(items@.subrange(0, items@.len() as int) =~= items@);
        v
    }

    /// Every assignment that the grid shows, grouped by cell: for each character with
    /// a name, each of its spells and each attack an unassigned one (with a fresh uuid),
    /// then the suggested ones, then the characters' own; each cell's group is collected
    /// as a lookup, so a later assignment with an earlier one's uuid takes its place.
    pub fn all_assignments(&self) -> (r: Vec<((u128, u128), Lookup<UiAssignment>)>)
        requires
            self.wf(),
        ensures
            forall|i: int| 0 <= i < r@.len() ==> (#[trigger] r@[i]).1.wf(),
            forall|i: int, j: int| 0 <= i < r@.len() && 0 <= j < r@[i].1@.len() ==> cell_of(#[trigger] r@[i].1@[j]) == r@[i].0,
            exists|base: Seq<UiAssignment>| {
                &&& unassigned_for(base, all_cells(self.all_characters(), self.spec_attacks()))
                &&& groups_view(r@) == grouped(#[trigger] (base + self.suggested_assignments@ + named_assignments(self.all_characters())))
            },
    {
        proof {
            self.lemma_all_characters();
        }
        let ghost all = self.all_characters();
        let attacks = self.attack_list();
        let mut items: Vec<UiAssignment> = Vec::new();
        let n = self.ui_characters.len();
        let mut i: usize = 0;
        while i < n
            invariant
                self.wf(),
                all == self.all_characters(),
                attacks@ == self.spec_attacks(),
                n == self.ui_characters@.len(),
                n <= all.len(),
                forall|j: int| 0 <= j < all.len() ==> (#[trigger] all[j]).wf(),
                i <= n,
                unassigned_for(items@, all_cells(all.subrange(0, i as int), attacks@)),
            decreases n - i,
        {
            let c = self.character_at(i);
            let ghost before = items@;
            if c.name.is_some() {
                push_unassigned(&mut items, c, &attacks);
            }
            proof {
                let cs = all.subrange(0, i + 1);
                assert(cs.drop_last() =~= all.subrange(0, i as int));
                assert(cs.last() == *c);
                if c.name.is_some() {
                    let added = items@.subrange(before.len() as int, items@.len() as int);
                    lemma_unassigned_concat(before, all_cells(all.subrange(0, i as int), attacks@), added, spell_cells(c.uuid, c.spells@, attacks@));
                    assert(items@ =~= before + added);
                } else {
                    assert(all_cells(cs, attacks@) =~= all_cells(all.subrange(0, i as int), attacks@));
                }
            }
            i = i + 1;
        }
        if !self.ui_characters.contains_key(self.general_character.uuid) {
            let ghost before = items@;
            let g = &self.general_character;
            if g.name.is_some() {
                push_unassigned(&mut items, g, &attacks);
            }
            proof {
                assert(all.drop_last() =~= all.subrange(0, n as int));
                if g.name.is_some() {
                    let added = items@.subrange(before.len() as int, items@.len() as int);
                    lemma_unassigned_concat(before, all_cells(all.subrange(0, n as int), attacks@), added, spell_cells(g.uuid, g.spells@, attacks@));
                    assert(items@ =~= before + added);
                } else {
                    assert(all_cells(all, attacks@) =~= all_cells(all.subrange(0, n as int), attacks@));
                }
            }
        } else {
            assert(all.subrange(0, n as int) =~= all);
        }
        let ghost base = items@;

        // the optimizer's suggestions
        let suggested = self.suggested_assignments.items();
        let mut k: usize = 0;
        while k < suggested.len()
            invariant
                k <= suggested@.len(),
                items@ == base + suggested@.subrange(0, k as int),
            decreases suggested@.len() - k,
        {
            items.push(suggested[k]);
            proof {
                assert(items@ =~= base + suggested@.subrange(0, k + 1));
            }
            k = k + 1;
        }
        assert(suggested@.subrange(0, suggested@.len() as int) =~= suggested@);
        let ghost with_suggested = items@;

        // the characters' own assignments
        let mut i: usize = 0;
        while i < n
            invariant
                self.wf(),
                all == self.all_characters(),
                n == self.ui_characters@.len(),
                n <= all.len(),
                i <= n,
                items@ == with_suggested + named_assignments(all.subrange(0, i as int)),
            decreases n - i,
        {
            let c = self.character_at(i);
            let ghost before = items@;
            if c.name.is_some() {
                push_all(&mut items, &c.assignments);
            }
            proof {
                let cs = all.subrange(0, i + 1);
                assert(cs.drop_last() =~= all.subrange(0, i as int));
                assert(cs.last() == *c);
                assert(items@ =~= with_suggested + named_assignments(cs));
            }
            i = i + 1;
        }
        if !self.ui_characters.contains_key(self.general_character.uuid) {
            let g = &self.general_character;
            if g.name.is_some() {
                push_all(&mut items, &g.assignments);
            }
            proof {
                assert(all.drop_last() =~= all.subrange(0, n as int));
                assert(items@ =~= with_suggested + named_assignments(all));
            }
        } else {
            assert(all.subrange(0, n as int) =~= all);
        }
        let r = group_assignments(&items);
        assert(items@ == base + self.suggested_assignments@ + named_assignments(self.all_characters()));
        proof {
            law_groups_hold_their_cell(items@);
            assert forall|i: int, j: int| 0 <= i < r@.len() && 0 <= j < r@[i].1@.len() implies cell_of(#[trigger] r@[i].1@[j]) == r@[i].0 by {
                assert(groups_view(r@)[i] == (r@[i].0, r@[i].1@));
                assert(grouped(items@)[i].1[j] == r@[i].1@[j]);
            }
        }
        r
    }

    /// The characters as the optimizer takes them: those with a name, with copies of
    /// their spells.
    pub fn characters(&self) -> (r: Lookup<Character>)
        requires
            self.wf(),
        ensures
            r.wf(),
            r@.len() == named_characters(self.all_characters()).len(),
            forall|i: int| 0 <= i < r@.len() ==> copied_character(#[trigger] r@[i], named_characters(self.all_characters())[i]),
    {
        proof {
            self.lemma_all_characters();
        }
        let ghost all = self.all_characters();
        let mut v: Vec<Character> = Vec::new();
        let n = self.ui_characters.len();
        let mut i: usize = 0;
        while i < n
            invariant
                self.wf(),
                all == self.all_characters(),
                n == self.ui_characters@.len(),
                n <= all.len(),
                forall|j: int| 0 <= j < all.len() ==> (#[trigger] all[j]).wf(),
                i <= n,
                v@.len() == named_characters(all.subrange(0, i as int)).len(),
                forall|j: int| 0 <= j < v@.len() ==> copied_character(#[trigger] v@[j], named_characters(all.subrange(0, i as int))[j]),
            decreases n - i,
        {
            let c = self.character_at(i);
            proof {
                let cs = all.subrange(0, i + 1);
                assert(cs.drop_last() =~= all.subrange(0, i as int));
                assert(cs.last() == *c);
            }
            if c.name.is_some() {
                v.push(copy_character(c));
            }
            i = i + 1;
        }
        if !self.ui_characters.contains_key(self.general_character.uuid) {
            proof {
                assert(all.drop_last() =~= all.subrange(0, n as int));
            }
            if self.general_character.name.is_some() {
                v.push(copy_character(&self.general_character));
            }
        } else {
            assert(all.subrange(0, n as int) =~= all);
        }
        proof {
            lemma_named_unique(all);
            let nm = named_characters(all);
            assert forall|a: int, b: int| 0 <= a < v@.len() && 0 <= b < v@.len() && a != b implies #[trigger] v@[a].key() != #[trigger] v@[b].key() by {
                assert(nm[a].key() != nm[b].key());
            }
            lemma_collect_of_unique(v@);
        }
        Lookup::from_vec(v)
    }
}

/// Appends every item of a lookup, in order.
fn push_all(out: &mut Vec<UiAssignment>, l: &Lookup<UiAssignment>)
    ensures
        final(out)@ == old(out)@ + l@,
{
    let items = l.items();
    let mut j: usize = 0;
    while j < items.len()
        invariant
            items@ == l@,
            j <= items@.len(),
            out@ == old(out)@ + l@.subrange(0, j as int),
        decreases items@.len() - j,
    {
        out.push(items[j]);
        proof {
            assert(out@ =~= old(out)@ + l@.subrange(0, j + 1));
        }
        j = j + 1;
    }
    assert(l@.subrange(0, items@.len() as int) =~= l@);
}

/// Appends what a character contributes to the locked assignments.
fn push_locked_of_character(out: &mut Vec<Assignment>, c: &UiCharacter)
    ensures
        final(out)@ == old(out)@ + locked_of_character(*c),
{
    if c.name.is_some() {
        let items = c.assignments.items();
        let ghost s = c.assignments@;
        let mut j: usize = 0;
        while j < items.len()
            invariant
                items@ == s,
                j <= s.len(),
                out@ == old(out)@ + forced_assignments(s.subrange(0, j as int)),
            decreases s.len() - j,
        {
            let a = items[j];
            proof {
                assert(s.subrange(0, j + 1).drop_last() =~= s.subrange(0, j as int));
                assert(s.subrange(0, j + 1).last() == a);
            }
            if a.state == UiAssignmentState::Forced {
                out.push(Assignment { uuid: a.uuid, character: a.character, spell: a.spell, attack: a.attack, forced: true });
            }
            proof {
                assert(out@ =~= old(out)@ + forced_assignments(s.subrange(0, j + 1)));
            }
            j = j + 1;
        }
        assert(s.subrange(0, s.len() as int) =~= s);
    } else {
        assert(out@ =~= old(out)@ + locked_of_character(*c));
    }
}

/// Locking suggestions leaves no suggested assignment, and locking twice is locking once.
pub proof fn law_lock_suggestions(s: Seq<UiAssignment>)
    ensures
        forall|i: int| 0 <= i < s.len() ==> (#[trigger] s.map_values(lock_fn())[i]).state != UiAssignmentState::Suggested,
        s.map_values(lock_fn()).map_values(lock_fn()) == s.map_values(lock_fn()),
        forall|i: int| 0 <= i < s.len() ==> (#[trigger] s.map_values(lock_fn())[i]).uuid == s[i].uuid,
{
    assert(s.map_values(lock_fn()).map_values(lock_fn()) =~= s.map_values(lock_fn()));
}

/// Clicking a forced assignment takes it back; clicking another one that can be
/// assigned puts it in as it is; clicking one that cannot changes nothing.
pub proof fn law_toggle(s: Seq<UiAssignment>, a: UiAssignment, assignable: bool)
    requires
        keys_unique(s),
    ensures
        a.state == UiAssignmentState::Forced ==> spec_get(toggled(s, a, assignable), a.uuid) is None,
        a.state != UiAssignmentState::Forced && assignable ==> spec_get(toggled(s, a, assignable), a.uuid) == Some(a),
        a.state != UiAssignmentState::Forced && !assignable ==> toggled(s, a, assignable) == s,
        forall|k: u128| k != a.uuid ==> spec_get(#[trigger] toggled(s, a, assignable), k) == spec_get(s, k),
{
    crate::lookup::lemma_take_unique(s, a.uuid);
    lemma_put_unique(s, a);
}

/// Clicking a forced assignment, then clicking it (as assigned) once more, puts it back
/// when it can be assigned; clicking an assigned one and then the forced one takes it out.
pub proof fn law_toggle_round_trip(s: Seq<UiAssignment>, a: UiAssignment)
    requires
        keys_unique(s),
        !has_key(s, a.uuid),
        a.state == UiAssignmentState::Forced,
    ensures
        toggled(spec_put(s, a), a, true) == s,
{
    crate::lookup::law_take_undoes_put(s, a);
}

/// Every locked assignment is marked forced and comes from a forced assignment of a
/// character with a name.
pub proof fn law_locked_are_forced(cs: Seq<UiCharacter>)
    ensures
        forall|i: int| 0 <= i < locked_seq(cs).len() ==> (#[trigger] locked_seq(cs)[i]).forced,
        forall|i: int| 0 <= i < spec_collect(locked_seq(cs)).len() ==> (#[trigger] spec_collect(locked_seq(cs))[i]).forced,
    decreases cs.len(),
{
    if cs.len() > 0 {
        law_locked_are_forced(cs.drop_last());
        lemma_forced_marked(cs.last().assignments@);
        let d = locked_seq(cs.drop_last());
        let e = locked_of_character(cs.last());
        assert forall|i: int| 0 <= i < locked_seq(cs).len() implies (#[trigger] locked_seq(cs)[i]).forced by {
            if i < d.len() {
                assert(locked_seq(cs)[i] == d[i]);
            } else {
                assert(locked_seq(cs)[i] == e[i - d.len()]);
            }
        }
    }
    lemma_collect_keeps(locked_seq(cs));
}

proof fn lemma_forced_marked(s: Seq<UiAssignment>)
    ensures
        forall|i: int| 0 <= i < forced_assignments(s).len() ==> (#[trigger] forced_assignments(s)[i]).forced,
    decreases s.len(),
{
    if s.len() > 0 {
        lemma_forced_marked(s.drop_last());
        let d = forced_assignments(s.drop_last());
        let r = forced_assignments(s);
        assert forall|i: int| 0 <= i < r.len() implies (#[trigger] r[i]).forced by {
            if i < d.len() {
                assert(r[i] == d[i]);
            }
        }
    }
}

/// Collecting keeps only items that were there: every item of the collected lookup is
/// an item of the input.
pub proof fn lemma_collect_keeps(s: Seq<Assignment>)
    ensures
        forall|i: int| 0 <= i < spec_collect(s).len() ==> s.contains(#[trigger] spec_collect(s)[i]),
        (forall|i: int| 0 <= i < s.len() ==> (#[trigger] s[i]).forced) ==> forall|i: int| 0 <= i < spec_collect(s).len() ==> (#[trigger] spec_collect(s)[i]).forced,
    decreases s.len(),
{
    if s.len() > 0 {
        let d = s.drop_last();
        lemma_collect_keeps(d);
        let c = spec_collect(d);
        let r = spec_collect(s);
        assert forall|i: int| 0 <= i < r.len() implies s.contains(#[trigger] r[i]) by {
            if r[i] == s.last() {
                assert(s[s.len() - 1] == s.last());
            } else {
                assert(i < c.len() && r[i] == c[i]);
                assert(d.contains(c[i]));
                let k = choose|k: int| 0 <= k < d.len() && d[k] == c[i];
                assert(s[k] == d[k]);
            }
        }
        if forall|i: int| 0 <= i < s.len() ==> (#[trigger] s[i]).forced {
            assert forall|i: int| 0 <= i < r.len() implies (#[trigger] r[i]).forced by {
                let k = choose|k: int| 0 <= k < s.len() && s[k] == r[i];
            }
        }
    }
}

/// Every assignment in a cell's group belongs to that cell.
pub proof fn law_groups_hold_their_cell(s: Seq<UiAssignment>)
    ensures
        forall|i: int, j: int| 0 <= i < grouped(s).len() && 0 <= j < grouped(s)[i].1.len() ==> cell_of(#[trigger] grouped(s)[i].1[j]) == grouped(s)[i].0,
    decreases s.len(),
{
    if s.len() > 0 {
        law_groups_hold_their_cell(s.drop_last());
        let g = grouped(s.drop_last());
        let x = s.last();
        let r = grouped(s);
        if exists|i: int| 0 <= i < g.len() && #[trigger] g[i].0 == cell_of(x) {
            let k = choose|i: int| 0 <= i < g.len() && #[trigger] g[i].0 == cell_of(x);
            assert forall|i: int, j: int| 0 <= i < r.len() && 0 <= j < r[i].1.len() implies cell_of(#[trigger] r[i].1[j]) == r[i].0 by {
                if i == k {
                    let old_g = g[k].1;
                    if has_key(old_g, x.uuid) {
                        let p = key_index(old_g, x.uuid);
                        if j != p {
                            assert(r[i].1[j] == old_g[j]);
                        }
                    } else if j < old_g.len() {
                        assert(r[i].1[j] == old_g[j]);
                    }
                } else {
                    assert(r[i] == g[i]);
                }
            }
        } else {
            assert forall|i: int, j: int| 0 <= i < r.len() && 0 <= j < r[i].1.len() implies cell_of(#[trigger] r[i].1[j]) == r[i].0 by {
                if i < g.len() {
                    assert(r[i] == g[i]);
                }
            }
        }
    }
}


/// `x` is the locked form of a forced assignment of a character with a name.
pub open spec fn forced_of_named(cs: Seq<UiCharacter>, x: Assignment) -> bool {
    exists|k: int, j: int| #![trigger cs[k].assignments@[j]]
        0 <= k < cs.len() && cs[k].name is Some && 0 <= j < cs[k].assignments@.len()
            && cs[k].assignments@[j].state == UiAssignmentState::Forced && locked_of(cs[k].assignments@[j]) == x
}

/// `x` is the locked form of a forced assignment among `s`.
pub open spec fn from_forced(s: Seq<UiAssignment>, x: Assignment) -> bool {
    exists|j: int| 0 <= j < s.len() && (#[trigger] s[j]).state == UiAssignmentState::Forced && locked_of(s[j]) == x
}

proof fn lemma_forced_elements(s: Seq<UiAssignment>)
    ensures
        forall|i: int| 0 <= i < forced_assignments(s).len() ==> from_forced(s, #[trigger] forced_assignments(s)[i]),
        forall|j: int| 0 <= j < s.len() && (#[trigger] s[j]).state == UiAssignmentState::Forced
            ==> forced_assignments(s).contains(locked_of(s[j])),
    decreases s.len(),
{
    if s.len() > 0 {
        let d = s.drop_last();
        lemma_forced_elements(d);
        let f = forced_assignments(d);
        let r = forced_assignments(s);
        assert forall|i: int| 0 <= i < r.len() implies from_forced(s, #[trigger] r[i]) by {
            if i < f.len() {
                assert(r[i] == f[i]);
                assert(from_forced(d, f[i]));
                let j = choose|j: int| 0 <= j < d.len() && (#[trigger] d[j]).state == UiAssignmentState::Forced && locked_of(d[j]) == f[i];
                assert(s[j] == d[j]);
            } else {
                assert(s[s.len() - 1] == s.last());
            }
        }
        assert forall|j: int| 0 <= j < s.len() && (#[trigger] s[j]).state == UiAssignmentState::Forced
            implies r.contains(locked_of(s[j])) by {
            if j < d.len() {
                assert(d[j] == s[j]);
                let k = choose|k: int| 0 <= k < f.len() && f[k] == locked_of(d[j]);
                assert(r[k] == f[k]);
            } else {
                assert(r[r.len() - 1] == locked_of(s.last()));
            }
        }
    }
}

proof fn lemma_locked_seq_elements(cs: Seq<UiCharacter>)
    ensures
        forall|i: int| 0 <= i < locked_seq(cs).len() ==> forced_of_named(cs, #[trigger] locked_seq(cs)[i]),
        forall|k: int, j: int| #![trigger cs[k].assignments@[j]]
            0 <= k < cs.len() && cs[k].name is Some && 0 <= j < cs[k].assignments@.len()
                && cs[k].assignments@[j].state == UiAssignmentState::Forced
            ==> locked_seq(cs).contains(locked_of(cs[k].assignments@[j])),
    decreases cs.len(),
{
    if cs.len() > 0 {
        let d = cs.drop_last();
        let c = cs.last();
        lemma_locked_seq_elements(d);
        lemma_forced_elements(c.assignments@);
        let ld = locked_seq(d);
        let e = locked_of_character(c);
        let r = locked_seq(cs);
        assert forall|i: int| 0 <= i < r.len() implies forced_of_named(cs, #[trigger] r[i]) by {
            if i < ld.len() {
                assert(r[i] == ld[i]);
                assert(forced_of_named(d, ld[i]));
                let (k, j) = choose|k: int, j: int| #![trigger d[k].assignments@[j]]
                    0 <= k < d.len() && d[k].name is Some && 0 <= j < d[k].assignments@.len()
                        && d[k].assignments@[j].state == UiAssignmentState::Forced && locked_of(d[k].assignments@[j]) == ld[i];
                assert(cs[k] == d[k]);
                assert(cs[k].assignments@[j] == d[k].assignments@[j]);
            } else {
                assert(r[i] == e[i - ld.len()]);
                let s = c.assignments@;
                assert(from_forced(s, forced_assignments(s)[i - ld.len()]));
                let j = choose|j: int| 0 <= j < s.len() && (#[trigger] s[j]).state == UiAssignmentState::Forced && locked_of(s[j]) == forced_assignments(s)[i - ld.len()];
                assert(cs[cs.len() - 1] == c);
                assert(cs[cs.len() - 1].assignments@[j] == s[j]);
            }
        }
        assert forall|k: int, j: int| #![trigger cs[k].assignments@[j]]
            0 <= k < cs.len() && cs[k].name is Some && 0 <= j < cs[k].assignments@.len()
                && cs[k].assignments@[j].state == UiAssignmentState::Forced
            implies r.contains(locked_of(cs[k].assignments@[j])) by {
            let x = locked_of(cs[k].assignments@[j]);
            if k < d.len() {
                assert(cs[k] == d[k]);
                assert(d[k].assignments@[j] == cs[k].assignments@[j]);
                let m = choose|m: int| 0 <= m < ld.len() && ld[m] == x;
                assert(r[m] == ld[m]);
            } else {
                assert(cs[k] == c);
                let s = c.assignments@;
                assert(s[j] == cs[k].assignments@[j]);
                let m = choose|m: int| 0 <= m < forced_assignments(s).len() && forced_assignments(s)[m] == x;
                assert(r[ld.len() + m] == e[m]);
            }
        }
    }
}

proof fn lemma_collect_has_keys(s: Seq<Assignment>)
    ensures
        forall|i: int| 0 <= i < s.len() ==> has_key(spec_collect(s), #[trigger] s[i].uuid),
    decreases s.len(),
{
    if s.len() > 0 {
        let d = s.drop_last();
        lemma_collect_has_keys(d);
        crate::lookup::lemma_collect_unique(d);
        lemma_put_unique(spec_collect(d), s.last());
        assert forall|i: int| 0 <= i < s.len() implies has_key(spec_collect(s), #[trigger] s[i].uuid) by {
            if i < d.len() {
                assert(s[i] == d[i]);
                assert(has_key(spec_collect(d), d[i].key()));
            } else {
                assert(s[i] == s.last());
            }
        }
    }
}

/// The locked assignments are the forced assignments of the characters with a name:
/// each locked one comes from such an assignment, each such assignment's uuid is
/// locked, and where no two of them share a uuid they are exactly these, in order.
pub proof fn law_locked_are_the_forced_of_named(state: UiState)
    ensures
        forall|i: int| 0 <= i < state.spec_locked().len() ==> forced_of_named(state.all_characters(), #[trigger] state.spec_locked()[i]),
        forall|k: int, j: int| #![trigger state.all_characters()[k].assignments@[j]]
            0 <= k < state.all_characters().len() && state.all_characters()[k].name is Some
                && 0 <= j < state.all_characters()[k].assignments@.len()
                && state.all_characters()[k].assignments@[j].state == UiAssignmentState::Forced
            ==> has_key(state.spec_locked(), state.all_characters()[k].assignments@[j].uuid),
        keys_unique(locked_seq(state.all_characters())) ==> state.spec_locked() == locked_seq(state.all_characters()),
{
    let cs = state.all_characters();
    let l = locked_seq(cs);
    lemma_locked_seq_elements(cs);
    lemma_collect_keeps(l);
    lemma_collect_has_keys(l);
    assert forall|i: int| 0 <= i < state.spec_locked().len() implies forced_of_named(cs, #[trigger] state.spec_locked()[i]) by {
        let x = state.spec_locked()[i];
        assert(l.contains(x));
        let m = choose|m: int| 0 <= m < l.len() && l[m] == x;
        assert(forced_of_named(cs, l[m]));
    }
    assert forall|k: int, j: int| #![trigger cs[k].assignments@[j]]
        0 <= k < cs.len() && cs[k].name is Some && 0 <= j < cs[k].assignments@.len()
            && cs[k].assignments@[j].state == UiAssignmentState::Forced
        implies has_key(state.spec_locked(), cs[k].assignments@[j].uuid) by {
        let x = locked_of(cs[k].assignments@[j]);
        assert(l.contains(x));
        let m = choose|m: int| 0 <= m < l.len() && l[m] == x;
        assert(l[m].uuid == cs[k].assignments@[j].uuid);
    }
    if keys_unique(l) {
        lemma_collect_of_unique(l);
    }
}
} // verus!
