//! A search field over a list of entries, with the entries below it and, when the
//! query is not empty, a last row that takes the query itself. The selection runs over
//! the entries and then that last row.
use vstd::prelude::*;
use crate::autocomplete::Key;
use crate::text::chars_to_string;

verus! {

/// `s` without its spaces.
pub open spec fn without_spaces(s: Seq<char>) -> Seq<char>
    decreases s.len(),
{
    if s.len() == 0 {
        s
    } else if s.last() == ' ' {
        without_spaces(s.drop_last())
    } else {
        without_spaces(s.drop_last()).push(s.last())
    }
}

/// What the dropdown holds: the query typed so far and the selected row (the entries
/// come first; the row at the number of entries is the query itself).
pub struct AutocompleteDropdownState {
    pub query: String,
    pub selection: usize,
}

/// What the caller does after an event: nothing, leave the field, pick the entry at a
/// position, or pick the query itself.
pub enum DropdownAction {
    Nothing,
    Blur,
    SelectEntry(usize),
    SelectCustom(String),
}

/// The selection one row up, stopping at the first row.
pub open spec fn row_up(s: int) -> int {
    if s < 1 { 0 } else { s - 1 }
}

/// The selection one row down, stopping at the row of the query.
pub open spec fn row_down(s: int, count: int) -> int {
    if s + 1 < count { s + 1 } else { count }
}

impl AutocompleteDropdownState {
    pub fn new() -> (d: Self)
        ensures
            d.query@ == Seq::<char>::empty(),
            d.selection == 0,
    {
        AutocompleteDropdownState { query: String::new(), selection: 0 }
    }

    /// The text of the field changed: the query is the text without spaces, and the
    /// selection goes back to the first row.
    pub fn on_input(&mut self, text: &str)
        ensures
            final(self).query@ == without_spaces(text@),
            final(self).selection == 0,
    {
        let n = text.unicode_len();
        let mut out: Vec<char> = Vec::new();
        let mut i: usize = 0;
        while i < n
            invariant
                n == text@.len(),
                i <= n,
                out@ == without_spaces(text@.subrange(0, i as int)),
            decreases n - i,
        {
            let c = text.get_char(i);
            proof {
                assert(text@.subrange(0, i + 1).drop_last() =~= text@.subrange(0, i as int));
            }
            if c != ' ' {
                out.push(c);
            }
            i = i + 1;
        }
        assert(text@.subrange(0, n as int) =~= text@);
        self.query = chars_to_string(&out);
        self.selection = 0;
    }

    /// Whether the entry at `index` (or, at `count`, the query's row) is the selected one.
    pub fn is_selected(&self, index: usize) -> (r: bool)
        ensures
            r == (index == self.selection),
    {
        index == self.selection
    }

    /// Whether the query's own row is shown.
    pub fn shows_custom(&self) -> (r: bool)
        ensures
            r == (self.query@.len() > 0),
    {
        self.query.as_str().unicode_len() > 0
    }

    /// A key pressed in the field, with `count` entries listed.
    /// Escape clears the query and leaves the field; the arrows move the selection,
    /// up to the first row and down to the query's row; Enter picks the selected entry,
    /// or the query itself when the selection is past the entries. The browser is kept
    /// from acting on these four keys.
    pub fn on_key(&mut self, key: Key, count: usize) -> (r: (DropdownAction, bool))
        ensures
            r.1 == (key == Key::Escape || key == Key::ArrowUp || key == Key::ArrowDown || key == Key::Enter),
            match key {
                Key::Escape => final(self).query@ == Seq::<char>::empty() && final(self).selection == 0
                    && r.0 is Blur,
                Key::ArrowUp => final(self).query == old(self).query
                    && final(self).selection == row_up(old(self).selection as int) && r.0 is Nothing,
                Key::ArrowDown => final(self).query == old(self).query
                    && final(self).selection == row_down(old(self).selection as int, count as int) && r.0 is Nothing,
                Key::Enter => *final(self) == *old(self) && if old(self).selection < count {
                    r.0 == DropdownAction::SelectEntry(old(self).selection)
                } else {
                    r.0 matches DropdownAction::SelectCustom(q) && q@ == old(self).query@
                },
                _ => *final(self) == *old(self) && r.0 is Nothing,
            },
    {
        match key {
            Key::Escape => {
                self.selection = 0;
                self.query = String::new();
                (DropdownAction::Blur, true)
            },
            Key::ArrowUp => {
                self.selection = if self.selection < 1 { 0 } else { self.selection - 1 };
                (DropdownAction::Nothing, true)
            },
            Key::ArrowDown => {
                self.selection = if self.selection < count && self.selection + 1 < count {
                    self.selection + 1
                } else {
                    count
                };
                (DropdownAction::Nothing, true)
            },
            Key::Enter => {
                if self.selection < count {
                    (DropdownAction::SelectEntry(self.selection), true)
                } else {
                    (DropdownAction::SelectCustom(self.query.clone()), true)
                }
            },
            _ => (DropdownAction::Nothing, false),
        }
    }

    /// A click on the entry at `index`, with `count` entries listed.
    pub fn on_entry_click(&self, index: usize, count: usize) -> (r: DropdownAction)
        ensures
            r == (if index < count { DropdownAction::SelectEntry(index) } else { DropdownAction::Nothing }),
    {
        if index < count {
            DropdownAction::SelectEntry(index)
        } else {
            DropdownAction::Nothing
        }
    }

    /// A click on the query's own row.
    pub fn on_custom_click(&self) -> (r: DropdownAction)
        ensures
            r matches DropdownAction::SelectCustom(q) && q@ == self.query@,
    {
        DropdownAction::SelectCustom(self.query.clone())
    }
}

/// Down then up from a row above the query's row comes back to it.
pub proof fn law_down_then_up(s: int, count: int)
    requires
        0 <= s < count,
    ensures
        row_up(row_down(s, count)) == s,
{
}

/// Up then down from a row below the first comes back to it, as long as it is not past
/// the query's row.
pub proof fn law_up_then_down(s: int, count: int)
    requires
        0 < s <= count,
    ensures
        row_down(row_up(s), count) == s,
{
}

/// The selection stays on the rows: up stops at the first row, down at the query's row.
pub proof fn law_selection_stays_on_rows(s: int, count: int)
    requires
        0 <= s <= count,
    ensures
        0 <= row_up(s) <= count,
        0 <= row_down(s, count) <= count,
        row_up(0) == 0,
        row_down(count, count) == count,
{
}

/// The query never holds a space.
pub proof fn law_query_has_no_space(s: Seq<char>)
    ensures
        forall|i: int| 0 <= i < without_spaces(s).len() ==> without_spaces(s)[i] != ' ',
    decreases s.len(),
{
    if s.len() > 0 {
        law_query_has_no_space(s.drop_last());
        let w = without_spaces(s.drop_last());
        if s.last() != ' ' {
            assert forall|i: int| 0 <= i < w.push(s.last()).len() implies w.push(s.last())[i] != ' ' by {
                if i < w.len() {
                    assert(w.push(s.last())[i] == w[i]);
                }
            }
        }
    }
}

} // verus!
