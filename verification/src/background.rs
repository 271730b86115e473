//! The picture behind a character's column: which character's picture is fetched, and
//! how it is placed, by race and gender (offsets in tenths of a `rem`).
use vstd::prelude::*;
use crate::domain::PlannerRealm;
use crate::ui_character::UiCharacter;
use crate::text::{str_eq, push_str, push_decimal, chars_to_string, decimal, string_of};

verus! {

/// Where the picture sits for a race and gender (by their English names), in tenths of
/// a `rem`: how far from the right and from the top.
pub open spec fn race_offset(race: Seq<char>, gender: Seq<char>) -> Option<(int, int)> {
    if race == "Blood Elf"@ && gender == "MALE"@ { Some((180, -232)) }
    else if race == "Blood Elf"@ && gender == "FEMALE"@ { Some((180, -260)) }
    else if race == "Dracthyr"@ && gender == "FEMALE"@ { Some((180, -193)) }
    else if race == "Dracthyr"@ && gender == "MALE"@ { Some((180, -193)) }
    else if race == "Goblin"@ && gender == "MALE"@ { Some((180, -340)) }
    else if race == "Gnome"@ && gender == "MALE"@ { Some((180, -350)) }
    else if race == "Gnome"@ && gender == "FEMALE"@ { Some((180, -360)) }
    else if race == "Highmountain Tauren"@ && gender == "FEMALE"@ { Some((180, -210)) }
    else if race == "Highmountain Tauren"@ && gender == "MALE"@ { Some((180, -265)) }
    else if race == "Kul Tiran"@ && gender == "MALE"@ { Some((180, -200)) }
    else if race == "Night Elf"@ && gender == "FEMALE"@ { Some((180, -226)) }
    else if race == "Nightborne"@ && gender == "FEMALE"@ { Some((180, -222)) }
    else if race == "Orc"@ && gender == "MALE"@ { Some((180, -255)) }
    else if race == "Pandaren"@ && gender == "MALE"@ { Some((180, -240)) }
    else if race == "Tauren"@ && gender == "FEMALE"@ { Some((180, -210)) }
    else if race == "Tauren"@ && gender == "MALE"@ { Some((180, -265)) }
    else if race == "Troll"@ && gender == "FEMALE"@ { Some((180, -200)) }
    else if race == "Undead"@ && gender == "FEMALE"@ { Some((180, -270)) }
    else if race == "Undead"@ && gender == "MALE"@ { Some((190, -275)) }
    else if race == "Vulpera"@ && gender == "FEMALE"@ { Some((180, -340)) }
    else if race == "Zandalari Troll"@ && gender == "FEMALE"@ { Some((180, -205)) }
    else { None }
}

/// The offset used for a race and gender that the table does not hold.
pub open spec fn default_offset() -> (int, int) {
    (-480, -200)
}

fn is(race: &str, gender: &str, r: &str, g: &str) -> (b: bool)
    ensures
        b == (race@ == r@ && gender@ == g@),
{
    str_eq(race, r) && str_eq(gender, g)
}

/// The offset for a race and gender, or the default one.
pub fn offset_for(race: &str, gender: &str) -> (o: (i32, i32))
    ensures
        (o.0 as int, o.1 as int) == match race_offset(race@, gender@) {
            Some(x) => x,
            None => default_offset(),
        },
{
    if is(race, gender, "Blood Elf", "MALE") { (180, -232) }
    else if is(race, gender, "Blood Elf", "FEMALE") { (180, -260) }
    else if is(race, gender, "Dracthyr", "FEMALE") { (180, -193) }
    else if is(race, gender, "Dracthyr", "MALE") { (180, -193) }
    else if is(race, gender, "Goblin", "MALE") { (180, -340) }
    else if is(race, gender, "Gnome", "MALE") { (180, -350) }
    else if is(race, gender, "Gnome", "FEMALE") { (180, -360) }
    else if is(race, gender, "Highmountain Tauren", "FEMALE") { (180, -210) }
    else if is(race, gender, "Highmountain Tauren", "MALE") { (180, -265) }
    else if is(race, gender, "Kul Tiran", "MALE") { (180, -200) }
    else if is(race, gender, "Night Elf", "FEMALE") { (180, -226) }
    else if is(race, gender, "Nightborne", "FEMALE") { (180, -222) }
    else if is(race, gender, "Orc", "MALE") { (180, -255) }
    else if is(race, gender, "Pandaren", "MALE") { (180, -240) }
    else if is(race, gender, "Tauren", "FEMALE") { (180, -210) }
    else if is(race, gender, "Tauren", "MALE") { (180, -265) }
    else if is(race, gender, "Troll", "FEMALE") { (180, -200) }
    else if is(race, gender, "Undead", "FEMALE") { (180, -270) }
    else if is(race, gender, "Undead", "MALE") { (190, -275) }
    else if is(race, gender, "Vulpera", "FEMALE") { (180, -340) }
    else if is(race, gender, "Zandalari Troll", "FEMALE") { (180, -205) }
    else { (-480, -200) }
}

/// A number of tenths written as a decimal number, as a float is written: a minus
/// sign for a negative number, the whole part, and a point and the tenths when there
/// are tenths (`180` gives `18`, `-232` gives `-23.2`).
pub open spec fn tenths_text(t: int) -> Seq<char> {
    let a = if t < 0 { -t } else { t };
    (if t < 0 { seq!['-'] } else { Seq::empty() })
        + decimal((a / 10) as nat)
        + if a % 10 == 0 { Seq::empty() } else { seq!['.'] + decimal((a % 10) as nat) }
}

fn push_tenths(out: &mut Vec<char>, t: i32)
    ensures
        final(out)@ == old(out)@ + tenths_text(t as int),
{
    let a: u64 = if t < 0 { (-(t as i64)) as u64 } else { t as u64 };
    if t < 0 {
        out.push('-');
    }
    push_decimal(out, a / 10);
    if a % 10 != 0 {
        out.push('.');
        push_decimal(out, a % 10);
    }
    assert(out@ =~= old(out)@ + tenths_text(t as int));
}

/// The picture's `background-position`: `right calc(34% - <x>rem) top <y>rem`.
pub open spec fn position_text(offset: (int, int)) -> Seq<char> {
    "right calc(34% - "@ + tenths_text(offset.0) + "rem) top "@ + tenths_text(offset.1) + "rem"@
}

pub fn background_position(race: &str, gender: &str) -> (s: String)
    ensures
        s@ == position_text(match race_offset(race@, gender@) {
            Some(x) => x,
            None => default_offset(),
        }),
{
    let o = offset_for(race, gender);
    let mut out: Vec<char> = Vec::new();
    push_str(&mut out, "right calc(34% - ");
    push_tenths(&mut out, o.0);
    push_str(&mut out, "rem) top ");
    push_tenths(&mut out, o.1);
    push_str(&mut out, "rem");
    chars_to_string(&out)
}

/// The picture's `background-image`: `url(<address>)`.
pub fn background_image(image_url: &str) -> (s: String)
    ensures
        s@ == "url("@ + image_url@ + ")"@,
{
    let mut out: Vec<char> = Vec::new();
    push_str(&mut out, "url(");
    push_str(&mut out, image_url);
    push_str(&mut out, ")");
    chars_to_string(&out)
}

/// Whose picture is fetched for a column: nothing for the general column or a character
/// without a name; else its name and its realm's slug (the user's realm when the
/// character has none, and an empty slug when neither is known).
pub fn background_request(character: &UiCharacter, user_realm: &Option<PlannerRealm>) -> (r: Option<(String, String)>)
    ensures
        match r {
            Some((name, slug)) => {
                &&& !character.is_general
                &&& character.name matches Some(n) && n@.len() > 0 && name@ == n@
                &&& slug@ == match character.realm {
                    Some(realm) => realm.slug@,
                    None => match *user_realm {
                        Some(realm) => realm.slug@,
                        None => Seq::empty(),
                    },
                }
            },
            None => character.is_general || character.name is None || character.name.unwrap()@.len() == 0,
        },
{
    if character.is_general {
        return None;
    }
    let name = match &character.name {
        Some(n) => n,
        None => return None,
    };
    if name.as_str().unicode_len() == 0 {
        return None;
    }
    let slug = match &character.realm {
        Some(realm) => realm.slug.clone(),
        None => match user_realm {
            Some(realm) => realm.slug.clone(),
            None => string_of(""),
        },
    };
    proof {
        reveal_strlit("");
    }
    Some((name.clone(), slug))
}

} // verus!
