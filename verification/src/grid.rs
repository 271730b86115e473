//! The layout of the planner's grid: its named columns (the attacks' name and time,
//! then one per character, with the button that adds a character before the last one)
//! and its named rows (the characters' names and spells, then one per attack).
use vstd::prelude::*;
use crate::text::{push_str, chars_to_string};

verus! {

/// The lowercase hexadecimal digit for `d < 16`.
pub open spec fn hex_char(d: nat) -> char {
    if d < 10 {
        crate::text::digit_char(d)
    } else if d == 10 { 'a' }
    else if d == 11 { 'b' }
    else if d == 12 { 'c' }
    else if d == 13 { 'd' }
    else if d == 14 { 'e' }
    else { 'f' }
}

/// The last `k` hexadecimal digits of `u`, most significant first.
pub open spec fn hex_digits(u: nat, k: nat) -> Seq<char>
    decreases k,
{
    if k == 0 {
        Seq::empty()
    } else {
        hex_digits(u / 16, (k - 1) as nat).push(hex_char(u % 16))
    }
}

/// A UUID written as `uuid`'s `Display` writes it: 32 lowercase hexadecimal digits in
/// groups of 8, 4, 4, 4 and 12, joined by hyphens.
pub open spec fn uuid_text(u: u128) -> Seq<char> {
    let h = hex_digits(u as nat, 32);
    h.subrange(0, 8) + seq!['-'] + h.subrange(8, 12) + seq!['-'] + h.subrange(12, 16) + seq!['-']
        + h.subrange(16, 20) + seq!['-'] + h.subrange(20, 32)
}

/// The parts joined, with one space between two parts.
pub open spec fn join_space(parts: Seq<Seq<char>>) -> Seq<char>
    decreases parts.len(),
{
    if parts.len() == 0 {
        Seq::empty()
    } else if parts.len() == 1 {
        parts[0]
    } else {
        join_space(parts.drop_last()) + seq![' '] + parts.last()
    }
}

/// A named grid line and its track size: `[name] size`.
pub open spec fn track(name: Seq<char>, size: Seq<char>) -> Seq<char> {
    seq!['['] + name + seq![']', ' '] + size
}

/// The track of the character or attack with the given UUID: `[prefix<uuid>] size`.
pub open spec fn uuid_track(prefix: Seq<char>, u: u128, size: Seq<char>) -> Seq<char> {
    track(prefix + uuid_text(u), size)
}

/// The column tracks: the attack's name and time, every character but the last, the
/// button that adds a character, then the last character.
pub open spec fn column_tracks(characters: Seq<u128>, add_size: Seq<char>, last_size: Seq<char>) -> Seq<Seq<char>> {
    seq![track("attack_name"@, "max-content"@), track("attack_timer"@, "max-content"@)]
        + Seq::new(if characters.len() > 0 { (characters.len() - 1) as nat } else { 0 },
            |i: int| uuid_track("character_"@, characters[i], "auto"@))
        + seq![track("add_character"@, add_size)]
        + if characters.len() > 0 {
            seq![uuid_track("character_"@, characters.last(), last_size)]
        } else {
            Seq::empty()
        }
}

/// The row tracks: the characters' names and spells, one per attack, then the rest.
pub open spec fn row_tracks(attacks: Seq<u128>) -> Seq<Seq<char>> {
    seq![track("character_name"@, "auto"@), track("character_spells"@, "auto"@)]
        + Seq::new(attacks.len(), |i: int| uuid_track("attack_"@, attacks[i], "auto"@))
        + seq![track("last_row"@, "1fr"@)]
}

fn hex_digit(d: u128) -> (c: char)
    requires
        d < 16,
    ensures
        c == hex_char(d as nat),
{
    if d < 10 {
        crate::text::digit(d as u64)
    } else if d == 10 { 'a' }
    else if d == 11 { 'b' }
    else if d == 12 { 'c' }
    else if d == 13 { 'd' }
    else if d == 14 { 'e' }
    else { 'f' }
}

fn push_hex(out: &mut Vec<char>, u: u128, k: usize)
    ensures
        final(out)@ == old(out)@ + hex_digits(u as nat, k as nat),
    decreases k,
{
    if k > 0 {
        push_hex(out, u / 16, k - 1);
        out.push(hex_digit(u % 16));
        assert(out@ =~= old(out)@ + hex_digits(u as nat, k as nat));
    } else {
        assert(out@ =~= old(out)@ + hex_digits(u as nat, k as nat));
    }
}

fn push_range(out: &mut Vec<char>, src: &Vec<char>, a: usize, b: usize)
    requires
        a <= b <= src@.len(),
    ensures
        final(out)@ == old(out)@ + src@.subrange(a as int, b as int),
{
    let mut i: usize = a;
    while i < b
        invariant
            a <= i <= b,
            b <= src@.len(),
            out@ == old(out)@ + src@.subrange(a as int, i as int),
        decreases b - i,
    {
        out.push(src[i]);
        i = i + 1;
        assert(out@ =~= old(out)@ + src@.subrange(a as int, i as int));
    }
}

proof fn lemma_hex_len(u: nat, k: nat)
    ensures
        hex_digits(u, k).len() == k,
    decreases k,
{
    if k > 0 {
        lemma_hex_len(u / 16, (k - 1) as nat);
    }
}

/// Appends the UUID `u` as `uuid_text` writes it.
pub fn push_uuid(out: &mut Vec<char>, u: u128)
    ensures
        final(out)@ == old(out)@ + uuid_text(u),
{
    let mut h: Vec<char> = Vec::new();
    push_hex(&mut h, u, 32);
    proof {
        lemma_hex_len(u as nat, 32);
        assert(h@ =~= hex_digits(u as nat, 32));
    }
    push_range(out, &h, 0, 8);
    out.push('-');
    push_range(out, &h, 8, 12);
    out.push('-');
    push_range(out, &h, 12, 16);
    out.push('-');
    push_range(out, &h, 16, 20);
    out.push('-');
    push_range(out, &h, 20, 32);
    assert(out@ =~= old(out)@ + uuid_text(u));
}

/// A UUID as text, as `uuid`'s `Display` writes it.
pub fn uuid_string(u: u128) -> (s: String)
    ensures
        s@ == uuid_text(u),
{
    let mut out: Vec<char> = Vec::new();
    push_uuid(&mut out, u);
    chars_to_string(&out)
}

/// Appends a part to the parts joined so far.
fn push_part(out: &mut Vec<char>, Ghost(parts): Ghost<Seq<Seq<char>>>, part: &Vec<char>, first: bool)
    requires
        old(out)@ == join_space(parts),
        first == (parts.len() == 0),
    ensures
        final(out)@ == join_space(parts.push(part@)),
{
    assert(parts.push(part@).drop_last() =~= parts);
    let n = part.len();
    if !first {
        out.push(' ');
    }
    let ghost mid = out@;
    let mut i: usize = 0;
    while i < n
        invariant
            n == part@.len(),
            i <= n,
            out@ == mid + part@.subrange(0, i as int),
        decreases n - i,
    {
        out.push(part[i]);
        i = i + 1;
        assert(out@ =~= mid + part@.subrange(0, i as int));
    }
    assert(part@.subrange(0, n as int) =~= part@);
    proof {
        if first {
            assert(out@ =~= part@);
        }
    }
}

/// `[name] size`.
fn make_track(name: &str, size: &str) -> (t: Vec<char>)
    ensures
        t@ == track(name@, size@),
{
    let mut t: Vec<char> = Vec::new();
    t.push('[');
    push_str(&mut t, name);
    t.push(']');
    t.push(' ');
    push_str(&mut t, size);
    assert(t@ =~= track(name@, size@));
    t
}

/// `[prefix<uuid>] size`.
fn make_uuid_track(prefix: &str, u: u128, size: &str) -> (t: Vec<char>)
    ensures
        t@ == uuid_track(prefix@, u, size@),
{
    let mut t: Vec<char> = Vec::new();
    t.push('[');
    push_str(&mut t, prefix);
    push_uuid(&mut t, u);
    t.push(']');
    t.push(' ');
    push_str(&mut t, size);
    assert(t@ =~= uuid_track(prefix@, u, size@));
    t
}

/// The grid's `grid-template-columns`, for the characters with the given UUIDs (in
/// their order), the button's column of size `add_size` and the last character's
/// column of size `last_size`.
pub fn grid_template_columns(characters: &Vec<u128>, add_size: &str, last_size: &str) -> (s: String)
    ensures
        s@ == join_space(column_tracks(characters@, add_size@, last_size@)),
{
    let ghost tracks = column_tracks(characters@, add_size@, last_size@);
    let mut out: Vec<char> = Vec::new();
    let ghost mut parts: Seq<Seq<char>> = Seq::empty();
    let t = make_track("attack_name", "max-content");
    push_part(&mut out, Ghost(parts), &t, true);
    proof { parts = parts.push(t@); }
    let t = make_track("attack_timer", "max-content");
    push_part(&mut out, Ghost(parts), &t, false);
    proof { parts = parts.push(t@); }
    let n = characters.len();
    let before_last: usize = if n > 0 { n - 1 } else { 0 };
    let mut i: usize = 0;
    while i < before_last
        invariant
            n == characters@.len(),
            before_last == (if n > 0 { n - 1 } else { 0 }),
            i <= before_last,
            out@ == join_space(parts),
            parts == seq![track("attack_name"@, "max-content"@), track("attack_timer"@, "max-content"@)]
                + Seq::new(i as nat, |j: int| uuid_track("character_"@, characters@[j], "auto"@)),
        decreases before_last - i,
    {
        let t = make_uuid_track("character_", characters[i], "auto");
        push_part(&mut out, Ghost(parts), &t, false);
        proof {
            parts = parts.push(t@);
            assert(parts =~= seq![track("attack_name"@, "max-content"@), track("attack_timer"@, "max-content"@)]
                + Seq::new((i + 1) as nat, |j: int| uuid_track("character_"@, characters@[j], "auto"@)));
        }
        i = i + 1;
    }
    let t = make_track("add_character", add_size);
    push_part(&mut out, Ghost(parts), &t, false);
    proof { parts = parts.push(t@); }
    if n > 0 {
        let t = make_uuid_track("character_", characters[n - 1], last_size);
        push_part(&mut out, Ghost(parts), &t, false);
        proof { parts = parts.push(t@); }
    }
    assert(parts =~= tracks);
    chars_to_string(&out)
}

/// The grid's `grid-template-rows`, for the attacks with the given UUIDs (in order).
pub fn grid_template_rows(attacks: &Vec<u128>) -> (s: String)
    ensures
        s@ == join_space(row_tracks(attacks@)),
{
    let mut out: Vec<char> = Vec::new();
    let ghost mut parts: Seq<Seq<char>> = Seq::empty();
    let t = make_track("character_name", "auto");
    push_part(&mut out, Ghost(parts), &t, true);
    proof { parts = parts.push(t@); }
    let t = make_track("character_spells", "auto");
    push_part(&mut out, Ghost(parts), &t, false);
    proof { parts = parts.push(t@); }
    let n = attacks.len();
    let mut i: usize = 0;
    while i < n
        invariant
            n == attacks@.len(),
            i <= n,
            out@ == join_space(parts),
            parts == seq![track("character_name"@, "auto"@), track("character_spells"@, "auto"@)]
                + Seq::new(i as nat, |j: int| uuid_track("attack_"@, attacks@[j], "auto"@)),
        decreases n - i,
    {
        let t = make_uuid_track("attack_", attacks[i], "auto");
        push_part(&mut out, Ghost(parts), &t, false);
        proof {
            parts = parts.push(t@);
            assert(parts =~= seq![track("character_name"@, "auto"@), track("character_spells"@, "auto"@)]
                + Seq::new((i + 1) as nat, |j: int| uuid_track("attack_"@, attacks@[j], "auto"@)));
        }
        i = i + 1;
    }
    let t = make_track("last_row", "1fr");
    push_part(&mut out, Ghost(parts), &t, false);
    proof { parts = parts.push(t@); }
    assert(parts =~= row_tracks(attacks@));
    chars_to_string(&out)
}

/// The columns of the grid drawn while the planner loads: the button's column is
/// `2rem` wide and the last character's `auto`.
pub fn skeleton_template_columns(characters: &Vec<u128>) -> (s: String)
    ensures
        s@ == join_space(column_tracks(characters@, "2rem"@, "auto"@)),
{
    grid_template_columns(characters, "2rem", "auto")
}

/// The columns of the planner's grid: the button's column is `auto` and the last
/// character's at most `12rem` wide.
pub fn main_template_columns(characters: &Vec<u128>) -> (s: String)
    ensures
        s@ == join_space(column_tracks(characters@, "auto"@, "minmax(auto, 12rem)"@)),
{
    grid_template_columns(characters, "auto", "minmax(auto, 12rem)")
}

/// The name of a character's column: `character_<uuid>`.
pub fn column_name(character: u128) -> (s: String)
    ensures
        s@ == "character_"@ + uuid_text(character),
{
    let mut out: Vec<char> = Vec::new();
    push_str(&mut out, "character_");
    push_uuid(&mut out, character);
    chars_to_string(&out)
}

/// The name of an attack's row: `attack_<uuid>`.
pub fn row_name(attack: u128) -> (s: String)
    ensures
        s@ == "attack_"@ + uuid_text(attack),
{
    let mut out: Vec<char> = Vec::new();
    push_str(&mut out, "attack_");
    push_uuid(&mut out, attack);
    chars_to_string(&out)
}

} // verus!
