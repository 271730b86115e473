//! How a spell's icon in the grid looks: its picture, the text on it, and the style
//! classes that its assignment's state turns on.
use vstd::prelude::*;
use crate::domain::{UiAssignmentState, UiSpell};
use crate::icon::{icon_url, icon_path};
use crate::text::{push_str, chars_to_string, string_of};
use crate::grid::join_space;

verus! {

/// The icon's `background-image`: `url("<address>")`, or nothing for an identifier
/// without an icon.
pub open spec fn icon_background_text(spell: UiSpell) -> Seq<char> {
    match icon_path(spell.identifier@) {
        Some(p) => "url(\""@ + p + "\")"@,
        None => Seq::empty(),
    }
}

pub fn icon_background(spell: &UiSpell) -> (s: String)
    ensures
        s@ == icon_background_text(*spell),
{
    match icon_url(spell.identifier.duplicate()) {
        Some(src) => {
            let mut out: Vec<char> = Vec::new();
            push_str(&mut out, "url(\"");
            push_str(&mut out, src.as_str());
            push_str(&mut out, "\")");
            chars_to_string(&out)
        },
        None => {
            proof {
                reveal_strlit("");
            }
            string_of("")
        },
    }
}

/// The text on the icon: the spell's own, or a no-break space.
pub open spec fn icon_tag_text(spell: UiSpell) -> Seq<char> {
    match spell.icon_text {
        Some(t) => t@,
        None => seq!['\u{00A0}'],
    }
}

pub fn icon_tag(spell: &UiSpell) -> (s: String)
    ensures
        s@ == icon_tag_text(*spell),
{
    match &spell.icon_text {
        Some(t) => t.clone(),
        None => {
            let mut out: Vec<char> = Vec::new();
            out.push('\u{00A0}');
            chars_to_string(&out)
        },
    }
}

/// One style class when `on`.
pub open spec fn class_if(on: bool, name: Seq<char>) -> Seq<Seq<char>> {
    if on { seq![name] } else { Seq::empty() }
}

/// The style classes that an icon turns on: narrower for a minor spell; faded when only
/// suggested; nearly hidden, blurred and grey when unassigned; outlined in red when
/// forced and no longer assignable, and on hover whenever it is not assignable.
pub open spec fn icon_classes_list(state: UiAssignmentState, is_assignable: bool, minor: bool) -> Seq<Seq<char>> {
    let assigned = state != UiAssignmentState::Unassigned;
    let forced = state == UiAssignmentState::Forced;
    class_if(minor, "w-8"@)
        + class_if(assigned && !forced, "hover:brightness-125"@)
        + class_if(assigned && !forced, "border-0"@)
        + class_if(assigned && !forced, "opacity-50"@)
        + class_if(!assigned, "opacity-5"@)
        + class_if(!assigned, "blur-xs"@)
        + class_if(!assigned, "contrast-300"@)
        + class_if(!assigned, "grayscale"@)
        + class_if(!assigned, "brightness-75"@)
        + class_if(!assigned, "hover:opacity-20"@)
        + class_if(!assigned, "hover:brightness-100"@)
        + class_if(!assigned, "hover:grayscale-0"@)
        + class_if(!assigned, "hover:contrast-100"@)
        + class_if(!is_assignable && forced, "border-red-700"@)
        + class_if(!is_assignable && forced, "border-3"@)
        + class_if(!is_assignable, "hover:border-red-700"@)
        + class_if(!is_assignable, "hover:border-3"@)
}

fn push_class(out: &mut Vec<char>, Ghost(parts): Ghost<Seq<Seq<char>>>, first: bool, on: bool, name: &str) -> (r: (Ghost<Seq<Seq<char>>>, bool))
    requires
        old(out)@ == join_space(parts),
        first == (parts.len() == 0),
    ensures
        final(out)@ == join_space(r.0@),
        r.0@ == parts + class_if(on, name@),
        r.1 == (r.0@.len() == 0),
{
    if on {
        let ghost p2 = parts.push(name@);
        assert(p2.drop_last() =~= parts);
        if !first {
            out.push(' ');
        }
        push_str(out, name);
        assert(out@ =~= join_space(p2));
        assert(p2 =~= parts + class_if(on, name@));
        (Ghost(p2), false)
    } else {
        assert(parts =~= parts + class_if(on, name@));
        (Ghost(parts), first)
    }
}

/// The style classes of an icon, separated by spaces.
pub fn icon_classes(state: UiAssignmentState, is_assignable: bool, minor: bool) -> (s: String)
    ensures
        s@ == join_space(icon_classes_list(state, is_assignable, minor)),
{
    let assigned = match state {
        UiAssignmentState::Unassigned => false,
        _ => true,
    };
    let forced = match state {
        UiAssignmentState::Forced => true,
        _ => false,
    };
    let mut out: Vec<char> = Vec::new();
    let g = Ghost(Seq::<Seq<char>>::empty());
    let first = true;
    let (g, first) = push_class(&mut out, g, first, minor, "w-8");
    let (g, first) = push_class(&mut out, g, first, assigned && !forced, "hover:brightness-125");
    let (g, first) = push_class(&mut out, g, first, assigned && !forced, "border-0");
    let (g, first) = push_class(&mut out, g, first, assigned && !forced, "opacity-50");
    let (g, first) = push_class(&mut out, g, first, !assigned, "opacity-5");
    let (g, first) = push_class(&mut out, g, first, !assigned, "blur-xs");
    let (g, first) = push_class(&mut out, g, first, !assigned, "contrast-300");
    let (g, first) = push_class(&mut out, g, first, !assigned, "grayscale");
    let (g, first) = push_class(&mut out, g, first, !assigned, "brightness-75");
    let (g, first) = push_class(&mut out, g, first, !assigned, "hover:opacity-20");
    let (g, first) = push_class(&mut out, g, first, !assigned, "hover:brightness-100");
    let (g, first) = push_class(&mut out, g, first, !assigned, "hover:grayscale-0");
    let (g, first) = push_class(&mut out, g, first, !assigned, "hover:contrast-100");
    let (g, first) = push_class(&mut out, g, first, !is_assignable && forced, "border-red-700");
    let (g, first) = push_class(&mut out, g, first, !is_assignable && forced, "border-3");
    let (g, first) = push_class(&mut out, g, first, !is_assignable, "hover:border-red-700");
    let (g, first) = push_class(&mut out, g, first, !is_assignable, "hover:border-3");
    assert(g@ =~= icon_classes_list(state, is_assignable, minor));
    chars_to_string(&out)
}

/// The style classes that a spell's toggle turns on: wide or narrow (minor), brighter
/// on hover when enabled, grey and dimmed when disabled.
pub open spec fn toggle_classes_list(minor: bool, enabled: bool) -> Seq<Seq<char>> {
    class_if(!minor, "w-12"@)
        + class_if(minor, "w-8"@)
        + class_if(enabled, "hover:brightness-125"@)
        + class_if(!enabled, "grayscale"@)
        + class_if(!enabled, "brightness-75"@)
        + class_if(!enabled, "hover:brightness-100"@)
}

/// The style classes of a spell's toggle, separated by spaces.
pub fn spell_toggle_classes(spell: &UiSpell) -> (s: String)
    ensures
        s@ == join_space(toggle_classes_list(spell.minor, spell.enabled)),
{
    let minor = spell.minor;
    let enabled = spell.enabled;
    let mut out: Vec<char> = Vec::new();
    let g = Ghost(Seq::<Seq<char>>::empty());
    let first = true;
    let (g, first) = push_class(&mut out, g, first, !minor, "w-12");
    let (g, first) = push_class(&mut out, g, first, minor, "w-8");
    let (g, first) = push_class(&mut out, g, first, enabled, "hover:brightness-125");
    let (g, first) = push_class(&mut out, g, first, !enabled, "grayscale");
    let (g, first) = push_class(&mut out, g, first, !enabled, "brightness-75");
    let (g, first) = push_class(&mut out, g, first, !enabled, "hover:brightness-100");
    assert(g@ =~= toggle_classes_list(minor, enabled));
    chars_to_string(&out)
}

} // verus!
