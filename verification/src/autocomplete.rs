//! The state of an autocomplete list: which option is highlighted by the keyboard and
//! which by the mouse, which options are registered, and what the keys do.
use vstd::prelude::*;
use crate::text::str_eq;
use vstd::assert_sets_equal;

verus! {

/// Whether `c` is one of the characters that identifiers of options are made of
/// (`_`, `-`, digits and ASCII letters).
pub open spec fn is_id_char(c: char) -> bool {
    c == '_' || c == '-' || ('0' <= c && c <= '9') || ('a' <= c && c <= 'z') || ('A' <= c && c <= 'Z')
}

/// `nanoid::format` with nanoid's `SAFE` alphabet and its default random source: `size`
/// characters, each taken from that alphabet. Which characters come out is left open:
/// they are drawn at random.
#[verifier::external_body]
fn random_safe_id(size: usize) -> (s: String)
    requires
        0 < size <= usize::MAX / 8,
    ensures
        s@.len() == size,
        forall|i: int| 0 <= i < s@.len() ==> is_id_char(#[trigger] s@[i]),
{
    nanoid::format(nanoid::rngs::default, &nanoid::alphabet::SAFE, size)
}

/// The identifier of one option of an autocomplete list.
#[derive(Debug, Hash)]
pub struct AutocompleteId(String);

impl View for AutocompleteId {
    type V = Seq<char>;

    closed spec fn view(&self) -> Seq<char> {
        self.0@
    }
}

impl Clone for AutocompleteId {
    fn clone(&self) -> (r: Self)
        ensures
            r == *self,
    {
        AutocompleteId(self.0.clone())
    }
}

impl PartialEq for AutocompleteId {
    fn eq(&self, other: &Self) -> (r: bool) {
        self.0 == other.0
    }
}

impl vstd::std_specs::cmp::PartialEqSpecImpl for AutocompleteId {
    open spec fn obeys_eq_spec() -> bool {
        true
    }

    open spec fn eq_spec(&self, other: &Self) -> bool {
        self@ == other@
    }
}

impl Eq for AutocompleteId {}

impl<'a> From<&'a str> for AutocompleteId {
    fn from(s: &'a str) -> (id: Self)
        ensures
            id@ == s@,
    {
        AutocompleteId(crate::text::string_of(s))
    }
}

impl<'a> vstd::std_specs::convert::FromSpecImpl<&'a str> for AutocompleteId {
    open spec fn obeys_from_spec() -> bool {
        false
    }

    open spec fn from_spec(v: &'a str) -> Self {
        vstd::pervasive::arbitrary()
    }
}

impl AutocompleteId {
    /// A fresh identifier: 21 random characters of nanoid's URL-safe alphabet.
    pub fn new() -> (id: Self)
        ensures
            id@.len() == 21,
            forall|i: int| 0 <= i < id@.len() ==> is_id_char(#[trigger] id@[i]),
    {
        AutocompleteId(random_safe_id(21))
    }

    pub fn as_str(&self) -> (s: &str)
        ensures
            s@ == self@,
    {
        self.0.as_str()
    }

    /// The identifier as text.
    pub fn to_string(&self) -> (s: String)
        ensures
            s@ == self@,
    {
        self.0.clone()
    }

    /// Whether `self` and `other` are the same identifier.
    pub fn same_as(&self, other: &Self) -> (r: bool)
        ensures
            r == (self@ == other@),
    {
        self.0 == other.0
    }
}

/// The keys that an autocomplete list reacts to.
#[derive(PartialEq, Eq, Structural, Clone, Copy, Debug)]
pub enum Key {
    Enter,
    Tab,
    ArrowUp,
    ArrowDown,
    Escape,
    Other,
}

/// The key named `name`, as a keyboard event names it.
pub open spec fn key_named(name: Seq<char>) -> Key {
    if name == "Enter"@ {
        Key::Enter
    } else if name == "Tab"@ {
        Key::Tab
    } else if name == "ArrowUp"@ {
        Key::ArrowUp
    } else if name == "ArrowDown"@ {
        Key::ArrowDown
    } else if name == "Escape"@ {
        Key::Escape
    } else {
        Key::Other
    }
}

impl Key {
    pub fn from_name(name: &str) -> (k: Key)
        ensures
            k == key_named(name@),
    {
        if str_eq(name, "Enter") {
            Key::Enter
        } else if str_eq(name, "Tab") {
            Key::Tab
        } else if str_eq(name, "ArrowUp") {
            Key::ArrowUp
        } else if str_eq(name, "ArrowDown") {
            Key::ArrowDown
        } else if str_eq(name, "Escape") {
            Key::Escape
        } else {
            Key::Other
        }
    }
}


/// The identifiers' texts, in order.
pub open spec fn views_of(ids: Seq<AutocompleteId>) -> Seq<Seq<char>> {
    ids.map_values(|id: AutocompleteId| id@)
}

pub open spec fn opt_view(id: Option<AutocompleteId>) -> Option<Seq<char>> {
    match id {
        Some(id) => Some(id@),
        None => None,
    }
}

/// The first position of `v` in `ids`, if it occurs.
pub open spec fn first_index(ids: Seq<Seq<char>>, v: Seq<char>) -> Option<int> {
    if exists|k: int| 0 <= k < ids.len() && ids[k] == v {
        Some(choose|k: int| 0 <= k < ids.len() && ids[k] == v && forall|j: int| 0 <= j < k ==> ids[j] != v)
    } else {
        None
    }
}

/// `i + delta`, held between `0` and `usize::MAX`.
pub open spec fn saturating_step(i: int, delta: int) -> int {
    if i + delta < 0 {
        0
    } else if i + delta > usize::MAX {
        usize::MAX as int
    } else {
        i + delta
    }
}

/// No identifier occurs twice.
pub open spec fn distinct(ids: Seq<Seq<char>>) -> bool {
    forall|i: int, j: int| 0 <= i < ids.len() && 0 <= j < ids.len() && i != j ==> ids[i] != ids[j]
}

/// What an autocomplete list's state is, by the identifiers' texts.
pub struct AutocompleteView {
    pub active: bool,
    pub keyboard: Option<Seq<char>>,
    pub mouse: Option<Seq<char>>,
    pub registered: Set<Seq<char>>,
}

impl AutocompleteView {
    /// The highlighted option: the one under the mouse, else the keyboard's.
    pub open spec fn highlighted(self) -> Option<Seq<char>> {
        if self.mouse is Some {
            self.mouse
        } else {
            self.keyboard
        }
    }

    /// The "nothing found" note shows while the list is open and has no options.
    pub open spec fn shows_empty(self, ids: Seq<Seq<char>>) -> bool {
        self.active && ids.len() == 0
    }

    /// The keyboard highlight on the first option, the list open; nothing changes
    /// when there is no option.
    pub open spec fn on_first_option(self, ids: Seq<Seq<char>>) -> Self {
        if ids.len() > 0 {
            AutocompleteView { active: true, keyboard: Some(ids[0]), mouse: None, ..self }
        } else {
            self
        }
    }

    /// The position that moving the highlight by `delta` goes to: `delta` steps from
    /// the highlighted option (at most to the last one), or the first option when no
    /// listed option is highlighted.
    pub open spec fn target_index(self, ids: Seq<Seq<char>>, delta: int) -> int {
        match self.highlighted() {
            Some(h) => match first_index(ids, h) {
                Some(i) => {
                    let step = saturating_step(i, delta);
                    if step < ids.len() - 1 { step } else { ids.len() - 1 }
                },
                None => 0,
            },
            None => 0,
        }
    }

    /// The keyboard highlight moved by `delta`; the mouse highlight is dropped. Nothing
    /// changes when there is no option.
    pub open spec fn moved(self, ids: Seq<Seq<char>>, delta: int) -> Self {
        let t = self.target_index(ids, delta);
        if 0 <= t < ids.len() {
            AutocompleteView { keyboard: Some(ids[t]), mouse: None, ..self }
        } else {
            self
        }
    }

    /// The mouse leaves the list: the keyboard highlight takes over the mouse's.
    pub open spec fn mouse_left(self) -> Self {
        AutocompleteView {
            keyboard: if self.mouse is Some { self.mouse } else { self.keyboard },
            mouse: None,
            ..self
        }
    }

    pub open spec fn with_mouse(self, id: Seq<char>) -> Self {
        AutocompleteView { mouse: Some(id), ..self }
    }

    /// The option that selecting picks: the highlighted one, if it is registered.
    pub open spec fn selection(self) -> Option<Seq<char>> {
        match self.highlighted() {
            Some(h) => if self.registered.contains(h) { Some(h) } else { None },
            None => None,
        }
    }

    /// The state after `key` is pressed in the list: Enter selects and closes the list,
    /// Tab does so only when there is something to select, the arrows move the
    /// highlight; other keys change nothing here.
    pub open spec fn after_key(self, key: Key, ids: Seq<Seq<char>>) -> Self {
        match key {
            Key::Enter => AutocompleteView { active: false, ..self },
            Key::Tab => if self.selection() is Some { AutocompleteView { active: false, ..self } } else { self },
            Key::ArrowUp => self.moved(ids, -1),
            Key::ArrowDown => self.moved(ids, 1),
            _ => self,
        }
    }
}

/// What the caller does after a key was pressed in the list: run the selection of the
/// given option, keep the browser from acting on the key, scroll to an option.
pub struct KeyOutcome {
    pub select: Option<AutocompleteId>,
    pub prevent_default: bool,
    pub scroll_to: Option<AutocompleteId>,
}

/// What the caller does after a key was pressed in the text field.
#[derive(PartialEq, Eq, Structural, Clone, Copy, Debug)]
pub enum InputKeyAction {
    /// Take the focus away from the field (the list has been closed).
    Blur,
    /// Keep the browser from moving the cursor.
    PreventDefault,
    /// Once the options have been drawn again, highlight the first of them.
    HighlightFirstOption,
}

/// The state of an autocomplete list. The options themselves (what selecting one does)
/// are kept by the caller under their identifiers.
pub struct AutocompleteContext {
    pub active: bool,
    pub keyboard_highlighted_item: Option<AutocompleteId>,
    pub mouse_highlighted_item: Option<AutocompleteId>,
    pub registered: Vec<AutocompleteId>,
}

impl View for AutocompleteContext {
    type V = AutocompleteView;

    open spec fn view(&self) -> AutocompleteView {
        AutocompleteView {
            active: self.active,
            keyboard: opt_view(self.keyboard_highlighted_item),
            mouse: opt_view(self.mouse_highlighted_item),
            registered: Set::new(|v: Seq<char>| exists|k: int| 0 <= k < self.registered@.len() && (#[trigger] self.registered@[k])@ == v),
        }
    }
}

/// The position of `id` in `ids`, as `Iterator::position` finds it.
fn position_of(ids: &Vec<AutocompleteId>, id: &AutocompleteId) -> (r: Option<usize>)
    ensures
        match r {
            Some(i) => first_index(views_of(ids@), id@) == Some(i as int),
            None => first_index(views_of(ids@), id@) is None,
        },
{
    let ghost vs = views_of(ids@);
    let mut i: usize = 0;
    while i < ids.len()
        invariant
            i <= ids@.len(),
            vs == views_of(ids@),
            forall|j: int| 0 <= j < i ==> vs[j] != id@,
        decreases ids.len() - i,
    {
        if ids[i].same_as(id) {
            proof {
                assert(vs[i as int] == id@);
                let c = choose|k: int| 0 <= k < vs.len() && vs[k] == id@ && forall|j: int| 0 <= j < k ==> vs[j] != id@;
                assert(c == i) by {
                    if c < i {
                        assert(vs[c] != id@);
                    } else if c > i {
                        assert(vs[i as int] != id@);
                    }
                }
            }
            return Some(i);
        }
        i = i + 1;
    }
    None
}

impl AutocompleteContext {
    /// A closed list with nothing highlighted and no option registered.
    pub fn new() -> (c: Self)
        ensures
            c@.active == false,
            c@.keyboard is None,
            c@.mouse is None,
            c@.registered == Set::<Seq<char>>::empty(),
    {
        let c = AutocompleteContext {
            active: false,
            keyboard_highlighted_item: None,
            mouse_highlighted_item: None,
            registered: Vec::new(),
        };
        assert(c@.registered =~= Set::<Seq<char>>::empty());
        c
    }

    pub fn highlighted_item(&self) -> (r: Option<AutocompleteId>)
        ensures
            opt_view(r) == self@.highlighted(),
    {
        match &self.mouse_highlighted_item {
            Some(m) => Some(m.clone()),
            None => match &self.keyboard_highlighted_item {
                Some(k) => Some(k.clone()),
                None => None,
            },
        }
    }

    pub fn should_show_empty(&self, ordered_ids: &Vec<AutocompleteId>) -> (r: bool)
        ensures
            r == self@.shows_empty(views_of(ordered_ids@)),
    {
        self.active && ordered_ids.len() == 0
    }

    /// Registers the option `key`.
    pub fn register_item(&mut self, key: AutocompleteId)
        ensures
            final(self)@ == (AutocompleteView { registered: old(self)@.registered.insert(key@), ..old(self)@ }),
    {
        let ghost before = self@;
        let mut present = false;
        let mut i: usize = 0;
        while i < self.registered.len()
            invariant
                i <= self.registered@.len(),
                self@ == before,
                present == exists|j: int| 0 <= j < i && (#[trigger] self.registered@[j])@ == key@,
            decreases self.registered.len() - i,
        {
            if self.registered[i].same_as(&key) {
                present = true;
            }
            i = i + 1;
        }
        let ghost old_regs = self.registered@;
        if !present {
            self.registered.push(key);
        }
        proof {
            assert_sets_equal!(self@.registered, before.registered.insert(key@), v => {
                if v == key@ {
                    if !present {
                        assert(self.registered@[old_regs.len() as int]@ == v);
                    }
                } else if before.registered.contains(v) {
                    let k = choose|k: int| 0 <= k < old_regs.len() && (#[trigger] old_regs[k])@ == v;
                    assert(self.registered@[k] == old_regs[k]);
                } else if self@.registered.contains(v) {
                    let k = choose|k: int| 0 <= k < self.registered@.len() && (#[trigger] self.registered@[k])@ == v;
                    if k < old_regs.len() {
                        assert(self.registered@[k] == old_regs[k]);
                    }
                }
            });
        }
    }

    /// Takes the option `key` out of the registered ones.
    pub fn unregister_item(&mut self, key: &AutocompleteId)
        ensures
            final(self)@ == (AutocompleteView { registered: old(self)@.registered.remove(key@), ..old(self)@ }),
    {
        let ghost before = self@;
        let mut kept: Vec<AutocompleteId> = Vec::new();
        let mut i: usize = 0;
        while i < self.registered.len()
            invariant
                i <= self.registered@.len(),
                self@ == before,
                forall|j: int| 0 <= j < kept@.len() ==> (#[trigger] kept@[j])@ != key@
                    && before.registered.contains(kept@[j]@),
                forall|j: int| 0 <= j < i && (#[trigger] self.registered@[j])@ != key@
                    ==> exists|m: int| 0 <= m < kept@.len() && (#[trigger] kept@[m])@ == self.registered@[j]@,
            decreases self.registered.len() - i,
        {
            if !self.registered[i].same_as(key) {
                let ghost old_kept = kept@;
                kept.push(self.registered[i].clone());
                proof {
                    assert(kept@[old_kept.len() as int]@ == self.registered@[i as int]@);
                    assert forall|j: int| 0 <= j < i + 1 && (#[trigger] self.registered@[j])@ != key@
                        implies exists|m: int| 0 <= m < kept@.len() && (#[trigger] kept@[m])@ == self.registered@[j]@ by {
                        if j < i {
                            let m = choose|m: int| 0 <= m < old_kept.len() && (#[trigger] old_kept[m])@ == self.registered@[j]@;
                            assert(kept@[m] == old_kept[m]);
                        } else {
                            assert(kept@[old_kept.len() as int]@ == self.registered@[j]@);
                        }
                    }
                    assert forall|j: int| 0 <= j < kept@.len() implies (#[trigger] kept@[j])@ != key@
                        && before.registered.contains(kept@[j]@) by {
                        if j < old_kept.len() {
                            assert(kept@[j] == old_kept[j]);
                        } else {
                            assert(before.registered.contains(self.registered@[i as int]@));
                        }
                    }
                }
            }
            i = i + 1;
        }
        self.registered = kept;
        proof {
            assert_sets_equal!(self@.registered, before.registered.remove(key@), v => {
                if self@.registered.contains(v) {
                    let k = choose|k: int| 0 <= k < self.registered@.len() && (#[trigger] self.registered@[k])@ == v;
                    assert(before.registered.contains(self.registered@[k]@));
                } else if before.registered.remove(key@).contains(v) {
                    let k2 = choose|k: int| 0 <= k < old(self).registered@.len() && (#[trigger] old(self).registered@[k])@ == v;
                    assert(old(self).registered@[k2]@ != key@);
                    let m = choose|m: int| 0 <= m < kept@.len() && (#[trigger] kept@[m])@ == old(self).registered@[k2]@;
                    assert(self.registered@[m]@ == v);
                }
            });
        }
    }

    /// Puts the keyboard highlight on the first of `ordered_ids` and opens the list;
    /// nothing changes when there is no option.
    pub fn move_keyboard_highlight_to_first_option(&mut self, ordered_ids: &Vec<AutocompleteId>)
        ensures
            final(self)@ == old(self)@.on_first_option(views_of(ordered_ids@)),
            final(self).registered == old(self).registered,
    {
        if ordered_ids.len() > 0 {
            self.keyboard_highlighted_item = Some(ordered_ids[0].clone());
            self.mouse_highlighted_item = None;
            self.active = true;
        }
    }

    /// Moves the keyboard highlight by `delta` options (up for a negative `delta`),
    /// staying within the list, and drops the mouse highlight. Returns the option that
    /// is now highlighted, for the caller to scroll to; `None` (and no change) when
    /// there is no option.
    pub fn move_keyboard_highlight(&mut self, delta: isize, ordered_ids: &Vec<AutocompleteId>) -> (r: Option<AutocompleteId>)
        ensures
            final(self)@ == old(self)@.moved(views_of(ordered_ids@), delta as int),
            final(self).registered == old(self).registered,
            opt_view(r) == (if ordered_ids@.len() > 0 {
                Some(views_of(ordered_ids@)[old(self)@.target_index(views_of(ordered_ids@), delta as int)])
            } else {
                None
            }),
    {
        let ghost ids = views_of(ordered_ids@);
        let current_index = match self.highlighted_item() {
            Some(id) => position_of(ordered_ids, &id),
            None => None,
        };
        let new_index: usize = match current_index {
            Some(current) => {
                let sum: i128 = current as i128 + delta as i128;
                let step: usize = if sum < 0 {
                    0
                } else if sum > usize::MAX as i128 {
                    usize::MAX
                } else {
                    sum as usize
                };
                if step < ordered_ids.len() - 1 {
                    step
                } else {
                    ordered_ids.len() - 1
                }
            },
            None => 0,
        };
        assert(new_index == self@.target_index(ids, delta as int));
        if new_index < ordered_ids.len() {
            let id = ordered_ids[new_index].clone();
            self.keyboard_highlighted_item = Some(id.clone());
            self.mouse_highlighted_item = None;
            Some(id)
        } else {
            None
        }
    }

    /// When the mouse leaves the list, the keyboard highlight takes over the option
    /// under the mouse.
    pub fn set_keyboard_highlight_to_mouse_highlight(&mut self)
        ensures
            final(self)@ == old(self)@.mouse_left(),
            final(self).registered == old(self).registered,
    {
        if let Some(m) = &self.mouse_highlighted_item {
            self.keyboard_highlighted_item = Some(m.clone());
        }
        self.mouse_highlighted_item = None;
    }

    pub fn set_mouse_highlight(&mut self, id: AutocompleteId)
        ensures
            final(self)@ == old(self)@.with_mouse(id@),
            final(self).registered == old(self).registered,
    {
        self.mouse_highlighted_item = Some(id);
    }

    /// The option to select: the highlighted one, if it is registered. The caller runs
    /// what selecting it does.
    pub fn select_highlighted(&self) -> (r: Option<AutocompleteId>)
        ensures
            opt_view(r) == self@.selection(),
    {
        match self.highlighted_item() {
            Some(id) => {
                let mut i: usize = 0;
                while i < self.registered.len()
                    invariant
                        i <= self.registered@.len(),
                        self@.highlighted() == Some(id@),
                        forall|j: int| 0 <= j < i ==> (#[trigger] self.registered@[j])@ != id@,
                    decreases self.registered.len() - i,
                {
                    if self.registered[i].same_as(&id) {
                        assert(self@.registered.contains(self.registered@[i as int]@));
                        return Some(id);
                    }
                    i = i + 1;
                }
                None
            },
            None => None,
        }
    }

    /// A key pressed in the list (or in its field, from where it reaches the list).
    pub fn on_key(&mut self, key: Key, ordered_ids: &Vec<AutocompleteId>) -> (out: KeyOutcome)
        ensures
            final(self)@ == old(self)@.after_key(key, views_of(ordered_ids@)),
            final(self).registered == old(self).registered,
            opt_view(out.select) == (match key {
                Key::Enter | Key::Tab => old(self)@.selection(),
                _ => None,
            }),
            out.prevent_default == (key == Key::Tab && old(self)@.selection() is Some),
            opt_view(out.scroll_to) == (match key {
                Key::ArrowUp | Key::ArrowDown => if ordered_ids@.len() > 0 {
                    Some(views_of(ordered_ids@)[old(self)@.target_index(views_of(ordered_ids@), if key == Key::ArrowUp { -1int } else { 1int })])
                } else {
                    None
                },
                _ => None,
            }),
    {
        match key {
            Key::Enter => {
                let select = self.select_highlighted();
                self.active = false;
                KeyOutcome { select, prevent_default: false, scroll_to: None }
            },
            Key::Tab => {
                let select = self.select_highlighted();
                let chosen = select.is_some();
                if chosen {
                    self.active = false;
                }
                KeyOutcome { select, prevent_default: chosen, scroll_to: None }
            },
            Key::ArrowUp => {
                let scroll_to = self.move_keyboard_highlight(-1, ordered_ids);
                KeyOutcome { select: None, prevent_default: false, scroll_to }
            },
            Key::ArrowDown => {
                let scroll_to = self.move_keyboard_highlight(1, ordered_ids);
                KeyOutcome { select: None, prevent_default: false, scroll_to }
            },
            _ => KeyOutcome { select: None, prevent_default: false, scroll_to: None },
        }
    }

    /// A key pressed in the text field: Escape closes the list, the arrows are kept from
    /// moving the cursor, any other key (the text changes) asks for the first option to
    /// be highlighted once the options are drawn again.
    pub fn on_input_key(&mut self, key: Key) -> (action: InputKeyAction)
        ensures
            final(self)@ == (if key == Key::Escape { AutocompleteView { active: false, ..old(self)@ } } else { old(self)@ }),
            final(self).registered == old(self).registered,
            action == (match key {
                Key::Escape => InputKeyAction::Blur,
                Key::ArrowUp | Key::ArrowDown => InputKeyAction::PreventDefault,
                _ => InputKeyAction::HighlightFirstOption,
            }),
    {
        match key {
            Key::Escape => {
                self.active = false;
                InputKeyAction::Blur
            },
            Key::ArrowUp | Key::ArrowDown => InputKeyAction::PreventDefault,
            _ => InputKeyAction::HighlightFirstOption,
        }
    }
}


/// In a list without repeated identifiers, an option is found at its own position.
pub proof fn lemma_first_index_distinct(ids: Seq<Seq<char>>, i: int)
    requires
        distinct(ids),
        0 <= i < ids.len(),
    ensures
        first_index(ids, ids[i]) == Some(i),
{
    let v = ids[i];
    assert(exists|k: int| 0 <= k < ids.len() && ids[k] == v);
    let c = choose|k: int| 0 <= k < ids.len() && ids[k] == v && forall|j: int| 0 <= j < k ==> ids[j] != v;
    assert(forall|j: int| 0 <= j < i ==> ids[j] != v);
    assert(c == i);
}

/// When the mouse leaves the list, the highlighted option stays the same.
pub proof fn law_mouse_leave_keeps_highlight(s: AutocompleteView)
    ensures
        s.mouse_left().highlighted() == s.highlighted(),
        s.mouse_left().mouse is None,
{
}

/// The option under the mouse is the highlighted one.
pub proof fn law_mouse_highlight_wins(s: AutocompleteView, id: Seq<char>)
    ensures
        s.with_mouse(id).highlighted() == Some(id),
{
}

/// Highlighting the first option highlights it and opens the list.
pub proof fn law_first_option(s: AutocompleteView, ids: Seq<Seq<char>>)
    requires
        ids.len() > 0,
    ensures
        s.on_first_option(ids).highlighted() == Some(ids[0]),
        s.on_first_option(ids).active,
{
}

/// Moving the highlight always lands on an option of the list, when there is one.
pub proof fn law_move_lands_on_option(s: AutocompleteView, ids: Seq<Seq<char>>, delta: int)
    requires
        ids.len() > 0,
        -0x8000_0000_0000_0000 <= delta < 0x8000_0000_0000_0000,
    ensures
        0 <= s.target_index(ids, delta) < ids.len(),
        s.moved(ids, delta).highlighted() == Some(ids[s.target_index(ids, delta)]),
{
}

/// Down then up, from an option that has one below it, comes back to that option
/// (the identifiers being distinct).
pub proof fn law_down_then_up(s: AutocompleteView, ids: Seq<Seq<char>>, i: int)
    requires
        distinct(ids),
        ids.len() <= usize::MAX,
        0 <= i,
        i + 1 < ids.len(),
        s.highlighted() == Some(ids[i]),
    ensures
        s.moved(ids, 1).highlighted() == Some(ids[i + 1]),
        s.moved(ids, 1).moved(ids, -1).highlighted() == Some(ids[i]),
{
    lemma_first_index_distinct(ids, i);
    lemma_first_index_distinct(ids, i + 1);
    assert(s.target_index(ids, 1) == i + 1);
}

/// Up then down, from an option that has one above it, comes back to that option.
pub proof fn law_up_then_down(s: AutocompleteView, ids: Seq<Seq<char>>, i: int)
    requires
        distinct(ids),
        ids.len() <= usize::MAX,
        0 < i < ids.len(),
        s.highlighted() == Some(ids[i]),
    ensures
        s.moved(ids, -1).highlighted() == Some(ids[i - 1]),
        s.moved(ids, -1).moved(ids, 1).highlighted() == Some(ids[i]),
{
    lemma_first_index_distinct(ids, i);
    lemma_first_index_distinct(ids, i - 1);
    assert(s.target_index(ids, -1) == i - 1);
}

/// The highlight stops at the ends of the list: down from the last option and up from
/// the first leave it where it is.
pub proof fn law_move_stops_at_ends(s: AutocompleteView, ids: Seq<Seq<char>>)
    requires
        distinct(ids),
        0 < ids.len() <= usize::MAX,
    ensures
        s.highlighted() == Some(ids[ids.len() - 1]) ==> s.moved(ids, 1).highlighted() == s.highlighted(),
        s.highlighted() == Some(ids[0]) ==> s.moved(ids, -1).highlighted() == s.highlighted(),
{
    lemma_first_index_distinct(ids, ids.len() - 1);
    lemma_first_index_distinct(ids, 0);
}

/// A highlighted option is selected once it is registered, and no more once it has
/// been taken out.
pub proof fn law_selection_follows_registration(s: AutocompleteView, id: Seq<char>)
    requires
        s.highlighted() == Some(id),
    ensures
        (AutocompleteView { registered: s.registered.insert(id), ..s }).selection() == Some(id),
        (AutocompleteView { registered: s.registered.remove(id), ..s }).selection() is None,
{
}

/// Enter closes the list whatever is highlighted; Tab closes it only when it selects.
pub proof fn law_enter_closes(s: AutocompleteView, ids: Seq<Seq<char>>)
    ensures
        !s.after_key(Key::Enter, ids).active,
        s.after_key(Key::Tab, ids).active == (s.active && s.selection() is None),
{
}

} // verus!
