//! The header of a character's column: its colour, the lines it shows, the search for
//! a character by name (and realm, after a `-`), and what picking a result makes.
use vstd::prelude::*;
use convert_case::Casing;
use crate::domain::{LocalizedString, PlannerRealm, duplicate_opt_realm};
use crate::text::{push_str, chars_to_string};
use crate::order::{insert_by, sort_by, insert_pos, lemma_insert_by, sorted_by, total, transitive, lemma_sort_by_sorted};
use crate::ui_character::{UiCharacter, UiCharacterTemplate, same_but_header};
use crate::ui_state::{UiState, only_at};
use crate::lookup::{LookupKey, has_key, key_index, spec_take, keys_unique, lemma_key_index, lemma_key_index_unique};

verus! {

/// What `convert_case` writes for `s` in kebab case (`"Demon Hunter"` gives
/// `"demon-hunter"`).
pub uninterp spec fn kebab_case(s: Seq<char>) -> Seq<char>;

/// What `convert_case` writes for `s` in train case (`"thrall"` gives `"Thrall"`).
pub uninterp spec fn train_case(s: Seq<char>) -> Seq<char>;

/// Whether `char::is_alphabetic` holds of `c` (the Unicode `Alphabetic` property).
pub uninterp spec fn alphabetic(c: char) -> bool;

/// `convert_case`'s `to_case(Case::Kebab)`: the text in kebab case, a function of the
/// text alone.
#[verifier::external_body]
fn to_kebab_case(s: &str) -> (r: String)
    ensures
        r@ == kebab_case(s@),
{
    s.to_case(convert_case::Case::Kebab)
}

/// `convert_case`'s `to_case(Case::Train)`: the text in train case, a function of the
/// text alone.
#[verifier::external_body]
fn to_train_case(s: &str) -> (r: String)
    ensures
        r@ == train_case(s@),
{
    s.to_case(convert_case::Case::Train)
}

/// `char::is_alphabetic`.
#[verifier::external_body]
fn is_alphabetic(c: char) -> (r: bool)
    ensures
        r == alphabetic(c),
{
    c.is_alphabetic()
}

/// The colour class of a character's class: `cc-` and the class's English name in
/// kebab case, or `cc-general` for a character without a class.
pub open spec fn class_color_text(class: Option<LocalizedString>) -> Seq<char> {
    match class {
        Some(c) => "cc-"@ + kebab_case(c.en_us@),
        None => "cc-general"@,
    }
}

pub fn class_color(class: &Option<LocalizedString>) -> (s: String)
    ensures
        s@ == class_color_text(*class),
{
    let mut out: Vec<char> = Vec::new();
    push_str(&mut out, "cc-");
    match class {
        Some(c) => {
            let k = to_kebab_case(c.en_us.as_str());
            push_str(&mut out, k.as_str());
        },
        None => {
            push_str(&mut out, "general");
        },
    }
    proof {
        reveal_strlit("cc-");
        reveal_strlit("general");
        reveal_strlit("cc-general");
    }
    assert(out@ =~= class_color_text(*class));
    chars_to_string(&out)
}

/// The text under a character's name: a zero-width space (so that the line keeps its
/// height), the spec's name, then a space and the class's name, each in the user's
/// language and each only where there is one.
pub open spec fn spec_line_text(spec: Option<LocalizedString>, class: Option<LocalizedString>) -> Seq<char> {
    seq!['\u{200B}']
        + match spec { Some(s) => s.local@, None => Seq::empty() }
        + match class { Some(c) => seq![' '] + c.local@, None => Seq::empty() }
}

pub fn spec_line(spec: &Option<LocalizedString>, class: &Option<LocalizedString>) -> (s: String)
    ensures
        s@ == spec_line_text(*spec, *class),
{
    let mut out: Vec<char> = Vec::new();
    out.push('\u{200B}');
    if let Some(s) = spec {
        push_str(&mut out, s.local.as_str());
    }
    if let Some(c) = class {
        out.push(' ');
        push_str(&mut out, c.local.as_str());
    }
    assert(out@ =~= spec_line_text(*spec, *class));
    chars_to_string(&out)
}

/// Two texts are the same in both languages.
pub open spec fn same_text(a: LocalizedString, b: LocalizedString) -> bool {
    a.en_us@ == b.en_us@ && a.local@ == b.local@
}

/// The realm shown after a character's name: only one other than the user's own realm.
pub open spec fn shown_realm_of(user_realm: Option<LocalizedString>, realm: Option<PlannerRealm>) -> Option<LocalizedString> {
    match realm {
        Some(r) => if user_realm matches Some(u) && same_text(u, r.name) { None } else { Some(r.name) },
        None => None,
    }
}

pub fn same_localized(a: &LocalizedString, b: &LocalizedString) -> (r: bool)
    ensures
        r == same_text(*a, *b),
{
    a.en_us == b.en_us && a.local == b.local
}

pub fn shown_realm(user_realm: &Option<LocalizedString>, realm: &Option<PlannerRealm>) -> (r: Option<LocalizedString>)
    ensures
        r == shown_realm_of(*user_realm, *realm),
{
    match realm {
        Some(r) => {
            let same = match user_realm {
                Some(u) => same_localized(u, &r.name),
                None => false,
            };
            if same {
                None
            } else {
                Some(r.name.duplicate())
            }
        },
        None => None,
    }
}


/// What is known of a roster character's class: the class, that the character has no
/// class to be found, or that it has not been looked up yet.
pub enum PlayerClass {
    Known(LocalizedString),
    Missing,
    Unknown,
}

/// A character that can be picked for a column.
pub struct RosterEntry {
    pub name: String,
    pub realm: Option<PlannerRealm>,
    pub class: PlayerClass,
}

/// The characters kept of the text typed into the name field: letters and `-`.
pub open spec fn name_chars(s: Seq<char>) -> Seq<char>
    decreases s.len(),
{
    if s.len() == 0 {
        s
    } else if alphabetic(s.last()) || s.last() == '-' {
        name_chars(s.drop_last()).push(s.last())
    } else {
        name_chars(s.drop_last())
    }
}

/// The query for the text typed into the name field.
pub fn name_query(text: &str) -> (q: String)
    ensures
        q@ == name_chars(text@),
{
    let n = text.unicode_len();
    let mut out: Vec<char> = Vec::new();
    let mut i: usize = 0;
    while i < n
        invariant
            n == text@.len(),
            i <= n,
            out@ == name_chars(text@.subrange(0, i as int)),
        decreases n - i,
    {
        let c = text.get_char(i);
        proof {
            assert(text@.subrange(0, i + 1).drop_last() =~= text@.subrange(0, i as int));
        }
        if is_alphabetic(c) || c == '-' {
            out.push(c);
        }
        i = i + 1;
    }
    assert(text@.subrange(0, n as int) =~= text@);
    chars_to_string(&out)
}

/// The position of the first `-` in `s`.
pub open spec fn first_dash(s: Seq<char>) -> Option<int> {
    if exists|i: int| 0 <= i < s.len() && s[i] == '-' {
        Some(choose|i: int| 0 <= i < s.len() && s[i] == '-' && forall|j: int| 0 <= j < i ==> s[j] != '-')
    } else {
        None
    }
}

/// A query of the form `name-realm`: the name before the first `-` and the realm after it.
pub open spec fn split_query_text(s: Seq<char>) -> Option<(Seq<char>, Seq<char>)> {
    match first_dash(s) {
        Some(i) => Some((s.subrange(0, i), s.subrange(i + 1, s.len() as int))),
        None => None,
    }
}

/// Splits a query at its first `-`, as `str::split_once('-')` does.
pub fn split_query(query: &str) -> (r: Option<(String, String)>)
    ensures
        match r {
            Some((name, realm)) => split_query_text(query@) == Some((name@, realm@)),
            None => split_query_text(query@) is None,
        },
{
    let n = query.unicode_len();
    let mut i: usize = 0;
    while i < n
        invariant
            n == query@.len(),
            i <= n,
            forall|j: int| 0 <= j < i ==> query@[j] != '-',
        decreases n - i,
    {
        if query.get_char(i) == '-' {
            let ghost s = query@;
            proof {
                let c = choose|k: int| 0 <= k < s.len() && s[k] == '-' && forall|j: int| 0 <= j < k ==> s[j] != '-';
                assert(c == i) by {
                    if c < i {
                        assert(s[c] != '-');
                    } else if c > i {
                        assert(s[i as int] != '-');
                    }
                }
            }
            let mut name: Vec<char> = Vec::new();
            let mut j: usize = 0;
            while j < i
                invariant
                    j <= i,
                    i < n,
                    n == query@.len(),
                    name@ == query@.subrange(0, j as int),
                decreases i - j,
            {
                name.push(query.get_char(j));
                j = j + 1;
                assert(name@ =~= query@.subrange(0, j as int));
            }
            let mut realm: Vec<char> = Vec::new();
            let mut j: usize = i + 1;
            while j < n
                invariant
                    i + 1 <= j <= n,
                    n == query@.len(),
                    realm@ == query@.subrange(i + 1, j as int),
                decreases n - j,
            {
                realm.push(query.get_char(j));
                j = j + 1;
                assert(realm@ =~= query@.subrange(i + 1, j as int));
            }
            return Some((chars_to_string(&name), chars_to_string(&realm)));
        }
        i = i + 1;
    }
    None
}

/// Whether `a` comes before `b` in `String`'s order (by characters, in code point order,
/// which is the order of the UTF-8 bytes), or is equal to it.
pub open spec fn text_le(a: Seq<char>, b: Seq<char>) -> bool
    decreases a.len(),
{
    if a.len() == 0 {
        true
    } else if b.len() == 0 {
        false
    } else if a[0] != b[0] {
        a[0] < b[0]
    } else {
        text_le(a.drop_first(), b.drop_first())
    }
}

pub fn str_le(a: &str, b: &str) -> (r: bool)
    ensures
        r == text_le(a@, b@),
{
    let n = a.unicode_len();
    let m = b.unicode_len();
    let mut i: usize = 0;
    assert(a@.skip(0) =~= a@);
    assert(b@.skip(0) =~= b@);
    while i < n
        invariant
            n == a@.len(),
            m == b@.len(),
            i <= n,
            i <= m,
            forall|j: int| 0 <= j < i ==> a@[j] == b@[j],
            text_le(a@, b@) == text_le(a@.skip(i as int), b@.skip(i as int)),
        decreases n - i,
    {
        if i == m {
            assert(b@.skip(i as int).len() == 0);
            return false;
        }
        let x = a.get_char(i);
        let y = b.get_char(i);
        if x != y {
            return x < y;
        }
        assert(a@.skip(i as int).drop_first() =~= a@.skip(i + 1));
        assert(b@.skip(i as int).drop_first() =~= b@.skip(i + 1));
        i = i + 1;
    }
    assert(a@.skip(i as int).len() == 0);
    true
}

proof fn lemma_text_le_total(a: Seq<char>, b: Seq<char>)
    ensures
        text_le(a, b) || text_le(b, a),
    decreases a.len(),
{
    if a.len() > 0 && b.len() > 0 {
        if a[0] == b[0] {
            lemma_text_le_total(a.drop_first(), b.drop_first());
        }
    }
}

proof fn lemma_text_le_transitive(a: Seq<char>, b: Seq<char>, c: Seq<char>)
    requires
        text_le(a, b),
        text_le(b, c),
    ensures
        text_le(a, c),
    decreases a.len(),
{
    if a.len() > 0 && b.len() > 0 && c.len() > 0 && a[0] == b[0] && b[0] == c[0] {
        lemma_text_le_transitive(a.drop_first(), b.drop_first(), c.drop_first());
    }
}

/// A realm on which a character of the searched name was found, with the score of the
/// realm's name against the searched realm and the name the realms are ordered by.
pub struct RealmHit {
    pub score: i32,
    pub realm: PlannerRealm,
    pub class: LocalizedString,
    pub sort_name: String,
}

/// The name that realm hits are ordered by: the realm's name in the user's language,
/// or its English name.
pub open spec fn realm_sort_name(realm: PlannerRealm, by_user_language: bool) -> Seq<char> {
    if by_user_language { realm.name.local@ } else { realm.name.en_us@ }
}

impl RealmHit {
    /// A hit with its score, ordered by the realm's name in the user's language (the
    /// search by name) or by its English name (the search in a column's header).
    pub fn new(score: i32, realm: PlannerRealm, class: LocalizedString, by_user_language: bool) -> (h: RealmHit)
        ensures
            h.score == score,
            h.realm == realm,
            h.class == class,
            h.sort_name@ == realm_sort_name(realm, by_user_language),
    {
        let sort_name = if by_user_language { realm.name.local.clone() } else { realm.name.en_us.clone() };
        RealmHit { score, realm, class, sort_name }
    }
}

/// Realm hits are ordered by score, the best first, then by name.
pub open spec fn hit_le() -> spec_fn(RealmHit, RealmHit) -> bool {
    |a: RealmHit, b: RealmHit| a.score > b.score || (a.score == b.score && text_le(a.sort_name@, b.sort_name@))
}

/// The order of realm hits is a total preorder.
proof fn lemma_hit_le_preorder()
    ensures
        total(hit_le()),
        transitive(hit_le()),
{
    assert forall|x: RealmHit, y: RealmHit| #[trigger] hit_le()(x, y) || hit_le()(y, x) by {
        lemma_text_le_total(x.sort_name@, y.sort_name@);
    }
    assert forall|x: RealmHit, y: RealmHit, z: RealmHit| #[trigger] hit_le()(x, y) && #[trigger] hit_le()(y, z) implies hit_le()(x, z) by {
        if x.score == y.score && y.score == z.score {
            lemma_text_le_transitive(x.sort_name@, y.sort_name@, z.sort_name@);
        }
    }
}

/// The realm hits come out in order: a better score first, and by name among equal
/// scores.
pub proof fn law_realm_hits_in_order(hits: Seq<RealmHit>)
    ensures
        forall|i: int, j: int| 0 <= i < j < sort_by(hits, hit_le()).len() ==> {
            let a = #[trigger] sort_by(hits, hit_le())[i];
            let b = #[trigger] sort_by(hits, hit_le())[j];
            a.score > b.score || (a.score == b.score && text_le(a.sort_name@, b.sort_name@))
        },
{
    lemma_hit_le_preorder();
    lemma_sort_by_sorted(hits, hit_le());
    let r = sort_by(hits, hit_le());
    assert forall|i: int, j: int| 0 <= i < j < r.len() implies ({
        let a = #[trigger] r[i];
        let b = #[trigger] r[j];
        a.score > b.score || (a.score == b.score && text_le(a.sort_name@, b.sort_name@))
    }) by {
        assert(hit_le()(r[i], r[j]));
    }
}

fn hit_before(a: &RealmHit, b: &RealmHit) -> (r: bool)
    ensures
        r == hit_le()(*a, *b),
{
    a.score > b.score || (a.score == b.score && str_le(a.sort_name.as_str(), b.sort_name.as_str()))
}

/// The realm hits in order: by score, the best first, then by name; hits that tie keep
/// their order.
pub fn sort_realm_hits(hits: Vec<RealmHit>) -> (r: Vec<RealmHit>)
    ensures
        r@ == sort_by(hits@, hit_le()),
{
    let mut out: Vec<RealmHit> = Vec::new();
    let mut rest = hits;
    let ghost all = rest@;
    let n = rest.len();
    let mut i: usize = 0;
    assert(rest@ =~= all.subrange(0, n as int));
    while i < n
        invariant
            n == all.len(),
            i <= n,
            rest@ == all.subrange(i as int, n as int),
            out@ == sort_by(all.subrange(0, i as int), hit_le()),
        decreases n - i,
    {
        assert(rest@.len() == n - i);
        let x = rest.remove(0);
        proof {
            assert(x == all[i as int]);
            assert(rest@ =~= all.subrange(i + 1, n as int));
            assert(all.subrange(0, i + 1).drop_last() =~= all.subrange(0, i as int));
        }
        let mut j: usize = out.len();
        assert(out@.subrange(0, j as int) =~= out@);
        while j > 0 && !hit_before(&out[j - 1], &x)
            invariant
                j <= out@.len(),
                insert_pos(out@, x, hit_le()) == insert_pos(out@.subrange(0, j as int), x, hit_le()),
            decreases j,
        {
            assert(out@.subrange(0, j as int).drop_last() =~= out@.subrange(0, j - 1));
            j = j - 1;
        }
        proof {
            if j > 0 {
                assert(out@.subrange(0, j as int).last() == out@[j - 1]);
            }
            assert(insert_pos(out@.subrange(0, j as int), x, hit_le()) == j);
            lemma_insert_by(out@, x, hit_le());
        }
        out.insert(j, x);
        i = i + 1;
    }
    assert(all.subrange(0, n as int) =~= all);
    out
}

/// The entries for a search by name on realms: the name in train case on each realm
/// hit, in the order of `sort_realm_hits`, with the class found there.
pub fn realm_entries(query_name: &str, hits: Vec<RealmHit>) -> (r: Vec<RosterEntry>)
    ensures
        r@.len() == hits@.len(),
        forall|i: int| #![trigger r@[i]] 0 <= i < r@.len() ==> {
            let h = sort_by(hits@, hit_le())[i];
            &&& r@[i].name@ == train_case(query_name@)
            &&& r@[i].realm == Some(h.realm)
            &&& r@[i].class == PlayerClass::Known(h.class)
        },
{
    let name = to_train_case(query_name);
    let sorted = sort_realm_hits(hits);
    proof {
        crate::order::lemma_sort_by_len(hits@, hit_le());
    }
    let mut out: Vec<RosterEntry> = Vec::new();
    let n = sorted.len();
    let mut i: usize = 0;
    while i < n
        invariant
            n == sorted@.len(),
            i <= n,
            out@.len() == i,
            name@ == train_case(query_name@),
            forall|k: int| 0 <= k < i ==> {
                &&& (#[trigger] out@[k]).name@ == name@
                &&& out@[k].realm == Some(sorted@[k].realm)
                &&& out@[k].class == PlayerClass::Known(sorted@[k].class)
            },
        decreases n - i,
    {
        let h = &sorted[i];
        out.push(RosterEntry {
            name: name.clone(),
            realm: Some(h.realm.duplicate()),
            class: PlayerClass::Known(h.class.duplicate()),
        });
        i = i + 1;
    }
    out
}


/// Two realms are the same: same name in both languages, same slug.
pub open spec fn same_realm(a: Option<PlannerRealm>, b: Option<PlannerRealm>) -> bool {
    match (a, b) {
        (Some(x), Some(y)) => same_text(x.name, y.name) && x.slug@ == y.slug@,
        (None, None) => true,
        _ => false,
    }
}

fn same_realm_exec(a: &Option<PlannerRealm>, b: &Option<PlannerRealm>) -> (r: bool)
    ensures
        r == same_realm(*a, *b),
{
    match (a, b) {
        (Some(x), Some(y)) => same_localized(&x.name, &y.name) && x.slug == y.slug,
        (None, None) => true,
        _ => false,
    }
}

/// The entry is already in another column than `current`: a character there has the
/// entry's name and realm.
pub open spec fn taken_elsewhere(e: RosterEntry, characters: Seq<UiCharacter>, current: u128) -> bool {
    exists|k: int| 0 <= k < characters.len() && {
        let c = #[trigger] characters[k];
        &&& c.uuid != current
        &&& c.name matches Some(n) && n@ == e.name@
        &&& same_realm(c.realm, e.realm)
    }
}

/// An entry can be picked when its class is known and it is in no other column.
pub open spec fn can_pick(e: RosterEntry, characters: Seq<UiCharacter>, current: u128) -> bool {
    e.class is Known && !taken_elsewhere(e, characters, current)
}

pub open spec fn pickable(entries: Seq<RosterEntry>, characters: Seq<UiCharacter>, current: u128) -> Seq<RosterEntry>
    decreases entries.len(),
{
    if entries.len() == 0 {
        entries
    } else if can_pick(entries.last(), characters, current) {
        pickable(entries.drop_last(), characters, current).push(entries.last())
    } else {
        pickable(entries.drop_last(), characters, current)
    }
}

pub open spec fn deref_all(characters: Seq<&UiCharacter>) -> Seq<UiCharacter> {
    characters.map_values(|c: &UiCharacter| *c)
}

fn is_taken(e: &RosterEntry, characters: &Vec<&UiCharacter>, current: u128) -> (r: bool)
    ensures
        r == taken_elsewhere(*e, deref_all(characters@), current),
{
    let ghost cs = deref_all(characters@);
    let mut i: usize = 0;
    while i < characters.len()
        invariant
            i <= characters@.len(),
            cs == deref_all(characters@),
            forall|k: int| 0 <= k < i ==> !({
                let c = #[trigger] cs[k];
                &&& c.uuid != current
                &&& c.name matches Some(n) && n@ == e.name@
                &&& same_realm(c.realm, e.realm)
            }),
        decreases characters.len() - i,
    {
        let c = characters[i];
        assert(cs[i as int] == *c);
        let same_name = match &c.name {
            Some(n) => n.as_str().unicode_len() == e.name.as_str().unicode_len() && crate::text::str_eq(n.as_str(), e.name.as_str()),
            None => false,
        };
        if c.uuid != current && same_name && same_realm_exec(&c.realm, &e.realm) {
            return true;
        }
        i = i + 1;
    }
    false
}

/// The entries that can be picked for the column `current`, in their order.
pub fn available_entries(entries: Vec<RosterEntry>, characters: &Vec<&UiCharacter>, current: u128) -> (r: Vec<RosterEntry>)
    ensures
        r@ == pickable(entries@, deref_all(characters@), current),
{
    let ghost all = entries@;
    let ghost cs = deref_all(characters@);
    let mut rest = entries;
    let mut out: Vec<RosterEntry> = Vec::new();
    let n = rest.len();
    let mut i: usize = 0;
    assert(rest@ =~= all.subrange(0, n as int));
    while i < n
        invariant
            n == all.len(),
            i <= n,
            cs == deref_all(characters@),
            rest@ == all.subrange(i as int, n as int),
            out@ == pickable(all.subrange(0, i as int), cs, current),
        decreases n - i,
    {
        assert(rest@.len() == n - i);
        let e = rest.remove(0);
        proof {
            assert(e == all[i as int]);
            assert(rest@ =~= all.subrange(i + 1, n as int));
            assert(all.subrange(0, i + 1).drop_last() =~= all.subrange(0, i as int));
        }
        let known = match &e.class {
            PlayerClass::Known(_) => true,
            _ => false,
        };
        if known && !is_taken(&e, characters, current) {
            out.push(e);
        }
        i = i + 1;
    }
    assert(all.subrange(0, n as int) =~= all);
    out
}

/// Every entry offered can be picked: its class is known and no other column holds it.
pub proof fn law_offered_entries_can_be_picked(entries: Seq<RosterEntry>, characters: Seq<UiCharacter>, current: u128)
    ensures
        forall|i: int| 0 <= i < pickable(entries, characters, current).len()
            ==> can_pick(#[trigger] pickable(entries, characters, current)[i], characters, current),
    decreases entries.len(),
{
    if entries.len() > 0 {
        law_offered_entries_can_be_picked(entries.drop_last(), characters, current);
        let p = pickable(entries.drop_last(), characters, current);
        if can_pick(entries.last(), characters, current) {
            assert forall|i: int| 0 <= i < p.push(entries.last()).len() implies can_pick(#[trigger] p.push(entries.last())[i], characters, current) by {
                if i < p.len() {
                    assert(p.push(entries.last())[i] == p[i]);
                }
            }
        }
    }
}

/// An entry whose class has not been looked up yet takes the class found for it;
/// other entries stay as they are.
pub fn resolve_class(entry: RosterEntry, found: PlayerClass) -> (r: RosterEntry)
    ensures
        r.name == entry.name,
        r.realm == entry.realm,
        r.class == (if entry.class is Unknown { found } else { entry.class }),
{
    match entry.class {
        PlayerClass::Unknown => RosterEntry { name: entry.name, realm: entry.realm, class: found },
        _ => entry,
    }
}

/// What the name field offers: nothing for an empty query; the characters found on
/// realms when there are any; else the first ten hits in the guild roster.
pub fn name_results(query: &str, realm_hits: Vec<RosterEntry>, roster_hits: Vec<RosterEntry>) -> (r: Vec<RosterEntry>)
    ensures
        query@.len() == 0 ==> r@.len() == 0,
        query@.len() > 0 && realm_hits@.len() > 0 ==> r@ == realm_hits@,
        query@.len() > 0 && realm_hits@.len() == 0 ==> r@ == roster_hits@.take(
            if roster_hits@.len() < 10 { roster_hits@.len() as int } else { 10 }),
{
    if query.unicode_len() == 0 {
        return Vec::new();
    }
    if realm_hits.len() > 0 {
        return realm_hits;
    }
    let mut out: Vec<RosterEntry> = Vec::new();
    let mut rest = roster_hits;
    let ghost all = rest@;
    let n: usize = if rest.len() < 10 { rest.len() } else { 10 };
    while out.len() < n
        invariant
            n <= all.len(),
            out@.len() <= n,
            out@ == all.take(out@.len() as int),
            rest@ == all.skip(out@.len() as int),
        decreases n - out@.len(),
    {
        let e = rest.remove(0);
        let ghost k = out@.len() as int;
        out.push(e);
        assert(out@ =~= all.take(k + 1));
        assert(rest@ =~= all.skip(k + 1));
    }
    out
}

/// The key of an entry among the results: its name, `-` and its realm's slug.
pub open spec fn entry_key_text(e: RosterEntry) -> Seq<char> {
    e.name@ + seq!['-'] + match e.realm { Some(r) => r.slug@, None => Seq::empty() }
}

pub fn entry_key(entry: &RosterEntry) -> (s: String)
    ensures
        s@ == entry_key_text(*entry),
{
    let mut out: Vec<char> = Vec::new();
    push_str(&mut out, entry.name.as_str());
    out.push('-');
    if let Some(r) = &entry.realm {
        push_str(&mut out, r.slug.as_str());
    }
    assert(out@ =~= entry_key_text(*entry));
    chars_to_string(&out)
}

/// How an entry is shown: its name, followed by `-` and its realm's name when the query
/// names a realm (holds a `-`).
pub open spec fn entry_label_text(e: RosterEntry, query: Seq<char>) -> Seq<char> {
    e.name@ + if query.contains('-') {
        match e.realm { Some(r) => seq!['-'] + r.name.local@, None => Seq::empty() }
    } else {
        Seq::empty()
    }
}

/// Whether `s` holds the character `c`.
pub fn contains_char(s: &str, c: char) -> (r: bool)
    ensures
        r == s@.contains(c),
{
    let n = s.unicode_len();
    let mut i: usize = 0;
    while i < n
        invariant
            n == s@.len(),
            i <= n,
            forall|j: int| 0 <= j < i ==> s@[j] != c,
        decreases n - i,
    {
        if s.get_char(i) == c {
            assert(s@[i as int] == c);
            return true;
        }
        i = i + 1;
    }
    false
}

pub fn entry_label(entry: &RosterEntry, query: &str) -> (s: String)
    ensures
        s@ == entry_label_text(*entry, query@),
{
    let mut out: Vec<char> = Vec::new();
    push_str(&mut out, entry.name.as_str());
    if contains_char(query, '-') {
        if let Some(r) = &entry.realm {
            out.push('-');
            push_str(&mut out, r.name.local.as_str());
        }
    }
    assert(out@ =~= entry_label_text(*entry, query@));
    chars_to_string(&out)
}

/// The border colour of an entry: its class's colour, or none while the class is not
/// known.
pub open spec fn class_border_text(class: PlayerClass) -> Seq<char> {
    match class {
        PlayerClass::Known(c) => "border-cc-"@ + kebab_case(c.en_us@),
        _ => "border-transparent"@,
    }
}

pub fn class_border(class: &PlayerClass) -> (s: String)
    ensures
        s@ == class_border_text(*class),
{
    match class {
        PlayerClass::Known(c) => {
            let mut out: Vec<char> = Vec::new();
            push_str(&mut out, "border-cc-");
            let k = to_kebab_case(c.en_us.as_str());
            push_str(&mut out, k.as_str());
            chars_to_string(&out)
        },
        _ => crate::text::string_of("border-transparent"),
    }
}

/// The character made from a picked entry: its name, its realm (or the user's realm
/// when the entry has none), its class and the last spec of that class. Nothing is
/// made while the class is not known or the class has no spec.
pub fn template_for_entry(entry: RosterEntry, specs: &Vec<LocalizedString>, user_realm: Option<PlannerRealm>) -> (t: Option<UiCharacterTemplate>)
    requires
        entry.class is Known && specs@.len() > 0 ==> entry.realm is Some || user_realm is Some,
    ensures
        match t {
            Some(t) => {
                &&& entry.class is Known
                &&& specs@.len() > 0
                &&& t.name == Some(entry.name)
                &&& t.realm == Some(if entry.realm is Some { entry.realm.unwrap() } else { user_realm.unwrap() })
                &&& t.class == Some(entry.class->Known_0)
                &&& t.spec == Some(specs@.last())
                &&& t.spells@.len() == 0
                &&& t.spells.wf()
            },
            None => !(entry.class is Known) || specs@.len() == 0,
        },
{
    match entry.class {
        PlayerClass::Known(class) => {
            if specs.len() == 0 {
                return None;
            }
            let spec = specs[specs.len() - 1].duplicate();
            let realm = match entry.realm {
                Some(r) => r,
                None => user_realm.unwrap(),
            };
            Some(UiCharacterTemplate::new_known(entry.name, realm, class, spec))
        },
        _ => None,
    }
}

/// The character made from the query itself: the query in train case, nothing else
/// known of it.
pub fn custom_template(query: &str) -> (t: UiCharacterTemplate)
    ensures
        t.name matches Some(n) && n@ == train_case(query@),
        t.realm is None,
        t.class is None,
        t.spec is None,
        t.spells@.len() == 0,
        t.spells.wf(),
{
    UiCharacterTemplate::new_custom(to_train_case(query))
}

/// What is offered when picking a class and spec: the class's specs when the
/// character has a class, else every class (without a spec).
pub fn class_spec_rows(class: &Option<LocalizedString>, specs_or_classes: &Vec<LocalizedString>) -> (r: Vec<(LocalizedString, Option<LocalizedString>)>)
    ensures
        r@.len() == specs_or_classes@.len(),
        forall|i: int| 0 <= i < r@.len() ==> #[trigger] r@[i] == (match *class {
            Some(c) => (c, Some(specs_or_classes@[i])),
            None => (specs_or_classes@[i], None),
        }),
{
    let mut out: Vec<(LocalizedString, Option<LocalizedString>)> = Vec::new();
    let mut i: usize = 0;
    while i < specs_or_classes.len()
        invariant
            i <= specs_or_classes@.len(),
            out@.len() == i,
            forall|k: int| 0 <= k < i ==> #[trigger] out@[k] == (match *class {
                Some(c) => (c, Some(specs_or_classes@[k])),
                None => (specs_or_classes@[k], None),
            }),
        decreases specs_or_classes.len() - i,
    {
        let x = specs_or_classes[i].duplicate();
        let row = match class {
            Some(c) => (c.duplicate(), Some(x)),
            None => (x, None),
        };
        out.push(row);
        i = i + 1;
    }
    out
}

/// The rows when picking a spec: the character's current spec first, then the other
/// specs in their order (a stable ordering on whether a row is the current spec).
pub open spec fn current_first(rows: Seq<(LocalizedString, Option<LocalizedString>)>, current: Option<LocalizedString>) -> Seq<(LocalizedString, Option<LocalizedString>)> {
    rows.filter(row_is(current)) + rows.filter(row_is_not(current))
}

pub open spec fn row_is(current: Option<LocalizedString>) -> spec_fn((LocalizedString, Option<LocalizedString>)) -> bool {
    |r: (LocalizedString, Option<LocalizedString>)| same_opt_text(r.1, current)
}

pub open spec fn row_is_not(current: Option<LocalizedString>) -> spec_fn((LocalizedString, Option<LocalizedString>)) -> bool {
    |r: (LocalizedString, Option<LocalizedString>)| !same_opt_text(r.1, current)
}

/// Both absent, or both present and the same text.
pub open spec fn same_opt_text(a: Option<LocalizedString>, b: Option<LocalizedString>) -> bool {
    match (a, b) {
        (Some(x), Some(y)) => same_text(x, y),
        (None, None) => true,
        _ => false,
    }
}

pub fn spec_rows_picking(class: &Option<LocalizedString>, current_spec: &Option<LocalizedString>, specs_or_classes: &Vec<LocalizedString>) -> (r: Vec<(LocalizedString, Option<LocalizedString>)>)
    ensures
        class is Some ==> r@ == current_first(
            Seq::new(specs_or_classes@.len(), |i: int| (class.unwrap(), Some(specs_or_classes@[i]))), *current_spec),
        class is None ==> r@ == Seq::new(specs_or_classes@.len(), |i: int| (specs_or_classes@[i], None::<LocalizedString>)),
{
    let rows = class_spec_rows(class, specs_or_classes);
    let ghost rs = rows@;
    if class.is_none() {
        assert(rows@ =~= Seq::new(specs_or_classes@.len(), |i: int| (specs_or_classes@[i], None::<LocalizedString>)));
        return rows;
    }
    let ghost expected = Seq::new(specs_or_classes@.len(), |i: int| (class.unwrap(), Some(specs_or_classes@[i])));
    assert(rs =~= expected);
    let mut first: Vec<(LocalizedString, Option<LocalizedString>)> = Vec::new();
    let mut later: Vec<(LocalizedString, Option<LocalizedString>)> = Vec::new();
    let mut rest = rows;
    let n = rest.len();
    let mut i: usize = 0;
    let ghost eq_f = row_is(*current_spec);
    let ghost ne_f = row_is_not(*current_spec);
    assert(rest@ =~= rs.subrange(0, n as int));
    while i < n
        invariant
            n == rs.len(),
            i <= n,
            rest@ == rs.subrange(i as int, n as int),
            eq_f == row_is(*current_spec),
            ne_f == row_is_not(*current_spec),
            first@ == rs.subrange(0, i as int).filter(eq_f),
            later@ == rs.subrange(0, i as int).filter(ne_f),
        decreases n - i,
    {
        assert(rest@.len() == n - i);
        let row = rest.remove(0);
        proof {
            assert(row == rs[i as int]);
            assert(rest@ =~= rs.subrange(i + 1, n as int));
        }
        let is_current = match (&row.1, current_spec) {
            (Some(a), Some(b)) => same_localized(a, b),
            (None, None) => true,
            _ => false,
        };
        proof {
            let prefix = rs.subrange(0, i + 1);
            assert(prefix.last() == row);
            assert(prefix.drop_last() =~= rs.subrange(0, i as int));
            assert(is_current == eq_f(row));
            assert(prefix.filter(eq_f) == (if eq_f(row) { rs.subrange(0, i as int).filter(eq_f).push(row) } else { rs.subrange(0, i as int).filter(eq_f) })) by {
                reveal(Seq::filter);
            }
            assert(prefix.filter(ne_f) == (if ne_f(row) { rs.subrange(0, i as int).filter(ne_f).push(row) } else { rs.subrange(0, i as int).filter(ne_f) })) by {
                reveal(Seq::filter);
            }
        }
        if is_current {
            first.push(row);
        } else {
            later.push(row);
        }
        i = i + 1;
    }
    assert(rs.subrange(0, n as int) =~= rs);
    let mut out = first;
    out.append(&mut later);
    out
}

/// When the header loses the focus: the column stops being edited and, when its
/// character has no name yet, it is taken out.
pub fn finish_editing(ui_state: &mut UiState, uuid: u128)
    requires
        old(ui_state).wf(),
        has_key(old(ui_state).ui_characters@, uuid),
    ensures
        final(ui_state).wf(),
        final(ui_state).same_but_characters(old(ui_state)),
        ({
            let i = key_index(old(ui_state).ui_characters@, uuid);
            let before = old(ui_state).ui_characters@;
            let after = final(ui_state).ui_characters@;
            if before[i].name is None {
                after == spec_take(before, uuid)
            } else {
                &&& only_at(before, after, i)
                &&& same_but_header(before[i], after[i])
                &&& !after[i].editing
                &&& after[i].class == before[i].class
                &&& after[i].spec == before[i].spec
            }
        }),
{
    let ghost before = ui_state.ui_characters@;
    let i = ui_state.ui_characters.find(uuid).unwrap();
    let name_is_none = ui_state.ui_characters.at(i).name.is_none();
    ui_state.set_ui_character_editing(uuid, false);
    if name_is_none {
        let ghost mid = ui_state.ui_characters@;
        ui_state.remove_ui_character(uuid);
        proof {
            lemma_key_index(before, uuid);
            let k = key_index(before, uuid);
            assert(mid[k].uuid == before[k].uuid);
            assert(keys_unique(mid));
            lemma_key_index_unique(mid, k);
            assert(mid[k].key() == uuid);
            assert(mid.remove(k) =~= before.remove(k));
        }
    }
}

/// Which way a chevron points.
#[derive(PartialEq, Eq, Structural, Clone, Copy, Debug)]
pub enum ChevronDirection {
    Up,
    Down,
}

/// The icon class of a chevron.
pub fn chevron_class(direction: ChevronDirection) -> (s: &'static str)
    ensures
        s@ == (if direction == ChevronDirection::Up { "fa-chevron-up"@ } else { "fa-chevron-down"@ }),
{
    match direction {
        ChevronDirection::Up => "fa-chevron-up",
        ChevronDirection::Down => "fa-chevron-down",
    }
}

/// The chevron of a row in the list of specs: the first row points up (it closes the
/// list); the others have none.
pub fn row_chevron(is_first: bool) -> (d: Option<ChevronDirection>)
    ensures
        d == (if is_first { Some(ChevronDirection::Up) } else { None }),
{
    if is_first { Some(ChevronDirection::Up) } else { None }
}

/// A character without a class or without a spec opens with the list of specs shown.
pub fn starts_picking(class: &Option<LocalizedString>, spec: &Option<LocalizedString>) -> (b: bool)
    ensures
        b == (class is None || spec is None),
{
    class.is_none() || spec.is_none()
}

/// A click on a row of the header's class and spec picker: the character takes the
/// row's class and spec; the picker closes when the row names a spec and otherwise
/// stays as it was (a class without a spec still needs its spec).
pub fn pick_class_spec(ui_state: &mut UiState, uuid: u128, class: LocalizedString, spec: Option<LocalizedString>, picking: bool) -> (still_picking: bool)
    requires
        old(ui_state).wf(),
        has_key(old(ui_state).ui_characters@, uuid),
    ensures
        final(ui_state).wf(),
        final(ui_state).same_but_characters(old(ui_state)),
        ({
            let k = key_index(old(ui_state).ui_characters@, uuid);
            let before = old(ui_state).ui_characters@;
            let after = final(ui_state).ui_characters@;
            &&& only_at(before, after, k)
            &&& same_but_header(before[k], after[k])
            &&& after[k].class == Some(class)
            &&& after[k].spec == spec
            &&& after[k].editing == before[k].editing
        }),
        still_picking == (if spec is Some { false } else { picking }),
{
    let ghost before = ui_state.ui_characters@;
    let ghost k = key_index(before, uuid);
    let closes = spec.is_some();
    ui_state.set_ui_character_class(uuid, Some(class));
    proof {
        lemma_same_index(before, ui_state.ui_characters@, uuid);
    }
    let ghost mid = ui_state.ui_characters@;
    ui_state.set_ui_character_spec(uuid, spec);
    proof {
        assert forall|j: int| 0 <= j < before.len() && j != k implies #[trigger] ui_state.ui_characters@[j] == before[j] by {
            assert(mid[j] == before[j]);
        }
    }
    if closes { false } else { picking }
}

/// After a change at the character with key `uuid` that keeps every uuid, that
/// character is still found at the same place.
proof fn lemma_same_index(before: Seq<UiCharacter>, after: Seq<UiCharacter>, uuid: u128)
    requires
        has_key(before, uuid),
        keys_unique(after),
        only_at(before, after, key_index(before, uuid)),
        after[key_index(before, uuid)].uuid == before[key_index(before, uuid)].uuid,
    ensures
        has_key(after, uuid),
        key_index(after, uuid) == key_index(before, uuid),
{
    lemma_key_index(before, uuid);
    let k = key_index(before, uuid);
    assert(after[k].key() == uuid);
    lemma_key_index_unique(after, k);
}

/// A click on the character's name starts editing it, when the column can be edited;
/// otherwise nothing changes.
pub fn click_name(ui_state: &mut UiState, uuid: u128)
    requires
        old(ui_state).wf(),
        has_key(old(ui_state).ui_characters@, uuid),
    ensures
        final(ui_state).wf(),
        ({
            let k = key_index(old(ui_state).ui_characters@, uuid);
            let before = old(ui_state).ui_characters@;
            let after = final(ui_state).ui_characters@;
            if before[k].editable {
                &&& final(ui_state).same_but_characters(old(ui_state))
                &&& only_at(before, after, k)
                &&& same_but_header(before[k], after[k])
                &&& after[k].editing
                &&& after[k].class == before[k].class
                &&& after[k].spec == before[k].spec
            } else {
                *final(ui_state) == *old(ui_state)
            }
        }),
{
    let i = ui_state.ui_characters.find(uuid).unwrap();
    if ui_state.ui_characters.at(i).editable {
        ui_state.set_ui_character_editing(uuid, true);
    }
}

/// A click on the spec line opens the picker when the column can be edited; otherwise
/// the picker stays as it was.
pub fn click_spec(editable: bool, picking: bool) -> (still_picking: bool)
    ensures
        still_picking == (editable || picking),
{
    editable || picking
}

/// A click on a row of the spec list: a row with a spec gives the character that spec
/// and closes the list; a row with only a class gives the character that class and
/// keeps the list open.
pub fn pick_spec_row(ui_state: &mut UiState, uuid: u128, row: &(LocalizedString, Option<LocalizedString>), picking: bool) -> (still_picking: bool)
    requires
        old(ui_state).wf(),
        has_key(old(ui_state).ui_characters@, uuid),
    ensures
        final(ui_state).wf(),
        final(ui_state).same_but_characters(old(ui_state)),
        ({
            let k = key_index(old(ui_state).ui_characters@, uuid);
            let before = old(ui_state).ui_characters@;
            let after = final(ui_state).ui_characters@;
            &&& only_at(before, after, k)
            &&& same_but_header(before[k], after[k])
            &&& after[k].editing == before[k].editing
            &&& match row.1 {
                Some(spec) => after[k].spec == Some(spec) && after[k].class == before[k].class,
                None => after[k].class == Some(row.0) && after[k].spec == before[k].spec,
            }
        }),
        still_picking == (if row.1 is Some { false } else { picking }),
{
    match &row.1 {
        Some(spec) => {
            ui_state.set_ui_character_spec(uuid, Some(spec.duplicate()));
            false
        },
        None => {
            ui_state.set_ui_character_class(uuid, Some(row.0.duplicate()));
            picking
        },
    }
}

} // verus!
