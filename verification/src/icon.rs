//! Where the icon of an assignment's identifier is served from.
use vstd::prelude::*;
use crate::domain::{Identifier, IdentifierView};
use crate::text::{decimal, push_decimal, push_str, chars_to_string};

verus! {

/// The address of the icon for an identifier; text has no icon.
pub open spec fn icon_path(id: IdentifierView) -> Option<Seq<char>> {
    match id {
        IdentifierView::Spell(n) => Some("/spell_icon/"@ + decimal(n as nat)),
        IdentifierView::Icon(path, _) => Some("/icon/"@ + path),
        IdentifierView::Marker(m) => Some("/raid_marker/"@ + decimal(m as nat) + ".png"@),
        IdentifierView::Text(_) => None,
    }
}

pub fn icon_url(identifier: Identifier) -> (r: Option<String>)
    ensures
        match r {
            Some(s) => icon_path(identifier@) == Some(s@),
            None => icon_path(identifier@) is None,
        },
{
    match identifier {
        Identifier::Spell(id) => {
            let mut out: Vec<char> = Vec::new();
            push_str(&mut out, "/spell_icon/");
            push_decimal(&mut out, id);
            Some(chars_to_string(&out))
        },
        Identifier::Icon(path, _) => {
            let mut out: Vec<char> = Vec::new();
            push_str(&mut out, "/icon/");
            push_str(&mut out, path.as_str());
            Some(chars_to_string(&out))
        },
        Identifier::Marker(marker) => {
            let mut out: Vec<char> = Vec::new();
            push_str(&mut out, "/raid_marker/");
            push_decimal(&mut out, marker as u64);
            push_str(&mut out, ".png");
            Some(chars_to_string(&out))
        },
        Identifier::Text(_) => None,
    }
}

} // verus!
