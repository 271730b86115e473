//! The timer inputs of a fight's parameters: text in the form `mm:ss` (or a number of
//! seconds) read as a time, and a time written back as `mm:ss`.
use vstd::prelude::*;
use crate::text::{digit_value, digit_char, decimal, push_decimal, chars_to_string, lemma_decimal_digits};

verus! {

/// The value of a non-empty run of decimal digits.
pub open spec fn digits_value(d: Seq<char>) -> nat
    decreases d.len(),
{
    if d.len() == 0 {
        0
    } else {
        digits_value(d.drop_last()) * 10 + digit_value(d.last()).unwrap()
    }
}

pub open spec fn all_digits(d: Seq<char>) -> bool {
    forall|i: int| 0 <= i < d.len() ==> (#[trigger] digit_value(d[i])) is Some
}

/// What `u64::from_str` reads: an optional `+`, then one or more decimal digits, of a
/// value that fits in a `u64`.
pub open spec fn spec_parse_u64(s: Seq<char>) -> Option<u64> {
    let d = if s.len() > 0 && s[0] == '+' { s.drop_first() } else { s };
    if d.len() > 0 && all_digits(d) && digits_value(d) <= u64::MAX {
        Some(digits_value(d) as u64)
    } else {
        None
    }
}

/// The position of the first `:`, if there is one.
pub open spec fn first_colon(s: Seq<char>) -> Option<int> {
    if exists|i: int| 0 <= i < s.len() && s[i] == ':' {
        Some(choose|i: int| 0 <= i < s.len() && s[i] == ':' && forall|j: int| 0 <= j < i ==> s[j] != ':')
    } else {
        None
    }
}

/// The seconds written in `s`: `mm:ss` with at most two characters on each side and
/// fewer than 60 seconds, or (without a `:`) a plain number of seconds.
pub open spec fn spec_read_seconds(s: Seq<char>) -> Option<u64> {
    match first_colon(s) {
        Some(i) => {
            let m = s.subrange(0, i);
            let sec = s.subrange(i + 1, s.len() as int);
            if m.len() <= 2 && sec.len() <= 2 && spec_parse_u64(m) is Some && spec_parse_u64(sec) is Some
                && spec_parse_u64(sec).unwrap() < 60 {
                Some((spec_parse_u64(m).unwrap() * 60 + spec_parse_u64(sec).unwrap()) as u64)
            } else {
                None
            }
        },
        None => spec_parse_u64(s),
    }
}

/// A time that the input accepts: under 100 minutes, after `min` and before `max`
/// where they are given.
pub open spec fn accepted(t: u64, min: Option<u64>, max: Option<u64>) -> bool {
    &&& t / 60 < 100
    &&& (min matches Some(lo) ==> t > lo)
    &&& (max matches Some(hi) ==> t < hi)
}

/// What the timer input reads from `s`, in seconds.
pub open spec fn spec_parse_timer(s: Seq<char>, min: Option<u64>, max: Option<u64>) -> Option<u64> {
    match spec_read_seconds(s) {
        Some(t) => if accepted(t, min, max) { Some(t) } else { None },
        None => None,
    }
}

/// At least two digits: a leading zero before a single digit.
pub open spec fn pad2(d: Seq<char>) -> Seq<char> {
    if d.len() < 2 { seq!['0'] + d } else { d }
}

/// `mm:ss` for a number of seconds.
pub open spec fn spec_format_timer(t: nat) -> Seq<char> {
    pad2(decimal(t / 60)) + seq![':'] + pad2(decimal(t % 60))
}

/// Reads a `u64` as `u64::from_str` does.
pub fn parse_u64(s: &Vec<char>) -> (r: Option<u64>)
    ensures
        r == spec_parse_u64(s@),
{
    let n = s.len();
    let start: usize = if n > 0 && s[0] == '+' { 1 } else { 0 };
    let ghost d = if s@.len() > 0 && s@[0] == '+' { s@.drop_first() } else { s@ };
    assert(d =~= s@.subrange(start as int, n as int));
    if start >= n {
        return None;
    }
    let mut value: u64 = 0;
    let mut i: usize = start;
    while i < n
        invariant
            start <= i <= n,
            n == s@.len(),
            start < n,
            d == (if s@.len() > 0 && s@[0] == '+' { s@.drop_first() } else { s@ }),
            d == s@.subrange(start as int, n as int),
            all_digits(d.subrange(0, i - start)),
            value == digits_value(d.subrange(0, i - start)),
        decreases n - i,
    {
        let c = s[i];
        let dv: u64 = if '0' <= c && c <= '9' { (c as u32 - '0' as u32) as u64 } else { 10 };
        proof {
            assert(d.subrange(0, i + 1 - start).drop_last() =~= d.subrange(0, i - start));
            assert(d.subrange(0, i + 1 - start).last() == c);
        }
        if dv == 10 {
            proof {
                assert(!all_digits(d)) by {
                    assert(d[i - start] == c);
                    assert(digit_value(d[i - start]) is None);
                }
            }
            return None;
        }
        assert(digit_value(c) == Some(dv as nat));
        if value > (u64::MAX - dv) / 10 {
            proof {
                assert(digits_value(d.subrange(0, i + 1 - start)) > u64::MAX) by (nonlinear_arith)
                    requires
                        digits_value(d.subrange(0, i + 1 - start)) == value * 10 + dv,
                        value > (u64::MAX - dv) / 10,
                        dv < 10,
                ;
                if all_digits(d) {
                    lemma_digits_value_prefix(d, i + 1 - start);
                }
            }
            return None;
        }
        assert(value * 10 + dv <= u64::MAX) by (nonlinear_arith)
            requires
                value <= (u64::MAX - dv) / 10,
                dv < 10,
        ;
        value = value * 10 + dv;
        i = i + 1;
        proof {
            assert(all_digits(d.subrange(0, i - start))) by {
                assert forall|k: int| 0 <= k < d.subrange(0, i - start).len() implies (#[trigger] digit_value(d.subrange(0, i - start)[k])) is Some by {
                    if k < i - 1 - start {
                        assert(d.subrange(0, i - start)[k] == d.subrange(0, i - 1 - start)[k]);
                    }
                }
            }
        }
    }
    assert(d.subrange(0, n - start) =~= d);
    Some(value)
}

/// A longer run of digits is worth at least as much as its prefix.
pub proof fn lemma_digits_value_prefix(d: Seq<char>, k: int)
    requires
        0 <= k <= d.len(),
        all_digits(d),
    ensures
        digits_value(d.subrange(0, k)) <= digits_value(d),
    decreases d.len() - k,
{
    if k < d.len() {
        lemma_digits_value_prefix(d, k + 1);
        assert(d.subrange(0, k + 1).drop_last() =~= d.subrange(0, k));
        assert(digit_value(d[k]) is Some);
        assert(d.subrange(0, k + 1).last() == d[k]);
        assert(digits_value(d.subrange(0, k)) <= digits_value(d.subrange(0, k + 1))) by (nonlinear_arith)
            requires
                digits_value(d.subrange(0, k + 1)) == digits_value(d.subrange(0, k)) * 10 + digit_value(d[k]).unwrap(),
        ;
    } else {
        assert(d.subrange(0, k) =~= d);
    }
}

/// Reads a timer's text, as the input does; `min` and `max` are excluded.
pub fn parse_timer(s: &str, min: Option<u64>, max: Option<u64>) -> (r: Option<u64>)
    ensures
        r == spec_parse_timer(s@, min, max),
{
    let cs = crate::text::str_chars(s);
    let n = cs.len();
    let mut colon: Option<usize> = None;
    let mut i: usize = 0;
    while i < n
        invariant
            n == cs@.len(),
            i <= n,
            colon matches Some(k) ==> k < n && cs@[k as int] == ':' && forall|j: int| 0 <= j < k ==> cs@[j] != ':',
            colon is None ==> forall|j: int| 0 <= j < i ==> cs@[j] != ':',
        decreases n - i,
    {
        if colon.is_none() && cs[i] == ':' {
            colon = Some(i);
        }
        i = i + 1;
    }
    let seconds: Option<u64> = match colon {
        Some(k) => {
            proof {
                assert(exists|i: int| 0 <= i < cs@.len() && cs@[i] == ':') by {
                    assert(cs@[k as int] == ':');
                }
                let c = choose|i: int| 0 <= i < cs@.len() && cs@[i] == ':' && forall|j: int| 0 <= j < i ==> cs@[j] != ':';
                assert(c == k as int) by {
                    if c < k {
                        assert(cs@[c] != ':');
                    } else if c > k {
                        assert(cs@[k as int] != ':');
                    }
                }
            }
            let mut m: Vec<char> = Vec::new();
            let mut j: usize = 0;
            while j < k
                invariant
                    j <= k,
                    k < n,
                    n == cs@.len(),
                    m@ == cs@.subrange(0, j as int),
                decreases k - j,
            {
                m.push(cs[j]);
                j = j + 1;
                proof {
                    assert(m@ =~= cs@.subrange(0, j as int));
                }
            }
            let mut sec: Vec<char> = Vec::new();
            let mut j: usize = k + 1;
            while j < n
                invariant
                    k + 1 <= j <= n,
                    n == cs@.len(),
                    sec@ == cs@.subrange(k + 1, j as int),
                decreases n - j,
            {
                sec.push(cs[j]);
                j = j + 1;
                proof {
                    assert(sec@ =~= cs@.subrange(k + 1, j as int));
                }
            }
            if m.len() <= 2 && sec.len() <= 2 {
                match (parse_u64(&m), parse_u64(&sec)) {
                    (Some(minutes), Some(secs)) => {
                        proof {
                            lemma_small_value(m@);
                        }
                        if secs < 60 {
                            Some(minutes * 60 + secs)
                        } else {
                            None
                        }
                    },
                    _ => None,
                }
            } else {
                None
            }
        },
        None => {
            proof {
                assert(!(exists|i: int| 0 <= i < cs@.len() && cs@[i] == ':'));
            }
            parse_u64(&cs)
        },
    };
    match seconds {
        Some(t) => {
            let ok = t / 60 < 100 && match min {
                Some(lo) => t > lo,
                None => true,
            } && match max {
                Some(hi) => t < hi,
                None => true,
            };
            if ok {
                Some(t)
            } else {
                None
            }
        },
        None => None,
    }
}

/// At most two characters (after an optional `+`) are worth at most 99.
proof fn lemma_small_value(s: Seq<char>)
    requires
        s.len() <= 2,
        spec_parse_u64(s) is Some,
    ensures
        spec_parse_u64(s).unwrap() <= 99,
{
    reveal_with_fuel(digits_value, 3);
    let d = if s.len() > 0 && s[0] == '+' { s.drop_first() } else { s };
    assert(digit_value(d[0]) is Some);
    if d.len() == 1 {
        assert(d.drop_last() =~= Seq::<char>::empty());
        assert(digits_value(d) == digit_value(d[0]).unwrap());
    } else {
        assert(digit_value(d[1]) is Some);
        assert(d.drop_last().drop_last() =~= Seq::<char>::empty());
        assert(digits_value(d.drop_last()) == digit_value(d[0]).unwrap());
        assert(digits_value(d) == digit_value(d[0]).unwrap() * 10 + digit_value(d[1]).unwrap());
    }
    if s.len() > 0 && s[0] == '+' {
    } else {
        assert(d == s);
    }
}

/// Writes `n` with at least two digits.
fn push_pad2(out: &mut Vec<char>, n: u64)
    ensures
        final(out)@ == old(out)@ + pad2(decimal(n as nat)),
{
    if n < 10 {
        out.push('0');
    }
    let ghost mid = out@;
    push_decimal(out, n);
    proof {
        if n < 10 {
            assert(decimal(n as nat).len() == 1);
            assert(out@ =~= old(out)@ + pad2(decimal(n as nat)));
        } else {
            lemma_decimal_len_2(n as nat);
        }
    }
}

proof fn lemma_decimal_len_2(n: nat)
    requires
        n >= 10,
    ensures
        decimal(n).len() >= 2,
{
    lemma_decimal_digits(n / 10);
}

/// `mm:ss` for a number of seconds, each part with at least two digits.
pub fn format_timer(t: u64) -> (s: String)
    ensures
        s@ == spec_format_timer(t as nat),
{
    let mut out: Vec<char> = Vec::new();
    push_pad2(&mut out, t / 60);
    out.push(':');
    push_pad2(&mut out, t % 60);
    assert(out@ =~= spec_format_timer(t as nat));
    chars_to_string(&out)
}

/// What the input does when its text changes: the time read (if any) is handed on,
/// the input is marked invalid when nothing could be read, and, unless the input has
/// the focus, a readable text is rewritten in the `mm:ss` form.
pub struct TimerInputUpdate {
    pub result: Option<u64>,
    pub invalid: bool,
    pub text: String,
}

pub fn update_timer_input(text: String, focused: bool, min: Option<u64>, max: Option<u64>) -> (u: TimerInputUpdate)
    ensures
        u.result == spec_parse_timer(text@, min, max),
        u.invalid == (spec_parse_timer(text@, min, max) is None),
        u.text@ == (if !focused && spec_parse_timer(text@, min, max) is Some {
            spec_format_timer(spec_parse_timer(text@, min, max).unwrap() as nat)
        } else {
            text@
        }),
{
    let result = parse_timer(text.as_str(), min, max);
    let invalid = result.is_none();
    let new_text = match result {
        Some(t) => if !focused { format_timer(t) } else { text },
        None => text,
    };
    TimerInputUpdate { result, invalid, text: new_text }
}

/// The value of the two digits of `pad2(decimal(n))` for `n < 100`.
proof fn lemma_pad2_value(n: nat)
    requires
        n < 100,
    ensures
        pad2(decimal(n)).len() == 2,
        all_digits(pad2(decimal(n))),
        digits_value(pad2(decimal(n))) == n,
        pad2(decimal(n))[0] != '+',
        pad2(decimal(n))[0] != ':' && pad2(decimal(n))[1] != ':',
{
    reveal_with_fuel(digits_value, 3);
    let p = pad2(decimal(n));
    if n < 10 {
        assert(decimal(n) == seq![digit_char(n)]);
        assert(p =~= seq!['0', digit_char(n)]);
    } else {
        assert(decimal(n / 10) == seq![digit_char(n / 10)]);
        assert(decimal(n) =~= seq![digit_char(n / 10), digit_char(n % 10)]);
        assert(p == decimal(n));
    }
    assert(p.drop_last().drop_last() =~= Seq::<char>::empty());
    assert(digit_value(p[0]) is Some);
    assert(digit_value(p[1]) is Some);
    assert(digits_value(p.drop_last()) == digit_value(p[0]).unwrap());
}

/// Writing a time the input accepts and reading the text back gives the same time.
pub proof fn law_format_then_parse(t: u64, min: Option<u64>, max: Option<u64>)
    requires
        accepted(t, min, max),
    ensures
        spec_parse_timer(spec_format_timer(t as nat), min, max) == Some(t),
{
    let m = t / 60;
    let sec = t % 60;
    lemma_pad2_value(m as nat);
    lemma_pad2_value(sec as nat);
    let pm = pad2(decimal(m as nat));
    let ps = pad2(decimal(sec as nat));
    let s = spec_format_timer(t as nat);
    assert(s =~= pm + seq![':'] + ps);
    assert(s[2] == ':');
    assert(exists|i: int| 0 <= i < s.len() && s[i] == ':');
    let c = choose|i: int| 0 <= i < s.len() && s[i] == ':' && forall|j: int| 0 <= j < i ==> s[j] != ':';
    assert(s[0] != ':' && s[1] != ':');
    assert(c == 2) by {
        assert(forall|j: int| 0 <= j < 2 ==> s[j] != ':');
        if c < 2 {
            assert(s[c] != ':');
        } else if c > 2 {
            assert(s[2] != ':');
        }
    }
    assert(s.subrange(0, 2) =~= pm);
    assert(s.subrange(3, 5) =~= ps);
    assert(spec_parse_u64(pm) == Some(m));
    assert(spec_parse_u64(ps) == Some(sec));
}

/// Rewriting a readable text is stable: updating with the rewritten text reads the same
/// time and leaves the text as it is.
pub proof fn law_update_is_stable(text: Seq<char>, min: Option<u64>, max: Option<u64>)
    requires
        spec_parse_timer(text, min, max) is Some,
    ensures
        spec_parse_timer(spec_format_timer(spec_parse_timer(text, min, max).unwrap() as nat), min, max)
            == spec_parse_timer(text, min, max),
{
    law_format_then_parse(spec_parse_timer(text, min, max).unwrap(), min, max);
}


/// The decimal writing of a number under 100: one or two digits worth the number, and
/// neither a `+` nor a `:`.
proof fn lemma_decimal_value(n: nat)
    requires
        n < 100,
    ensures
        1 <= decimal(n).len() <= 2,
        all_digits(decimal(n)),
        digits_value(decimal(n)) == n,
        decimal(n)[0] != '+',
        forall|i: int| 0 <= i < decimal(n).len() ==> decimal(n)[i] != ':',
        spec_parse_u64(decimal(n)) == Some(n as u64),
{
    reveal_with_fuel(digits_value, 3);
    let d = decimal(n);
    if n < 10 {
        assert(d == seq![digit_char(n)]);
        assert(d.drop_last() =~= Seq::<char>::empty());
        assert(digit_value(d[0]) is Some);
    } else {
        assert(decimal(n / 10) == seq![digit_char(n / 10)]);
        assert(d =~= seq![digit_char(n / 10), digit_char(n % 10)]);
        assert(d.drop_last().drop_last() =~= Seq::<char>::empty());
        assert(digit_value(d[0]) is Some);
        assert(digit_value(d[1]) is Some);
        assert(digits_value(d.drop_last()) == digit_value(d[0]).unwrap());
    }
}

/// Minutes and seconds typed without leading zeros are read too: for any minutes under
/// 100 and seconds under 60, the text `m:s` (each part with one or two digits, as the
/// number is written) reads as `m * 60 + s` seconds, when that lies strictly between
/// the bounds.
pub proof fn law_unpadded_parts_parse(m: nat, sec: nat, min: Option<u64>, max: Option<u64>)
    requires
        m < 100,
        sec < 60,
        min matches Some(lo) ==> lo < m * 60 + sec,
        max matches Some(hi) ==> m * 60 + sec < hi,
    ensures
        spec_parse_timer(decimal(m) + seq![':'] + decimal(sec), min, max) == Some((m * 60 + sec) as u64),
{
    lemma_decimal_value(m);
    lemma_decimal_value(sec);
    let dm = decimal(m);
    let ds = decimal(sec);
    let s = dm + seq![':'] + ds;
    let k = dm.len() as int;
    assert(s[k] == ':');
    assert(exists|i: int| 0 <= i < s.len() && s[i] == ':');
    assert forall|j: int| 0 <= j < k implies s[j] != ':' by {
        assert(s[j] == dm[j]);
    }
    let c = choose|i: int| 0 <= i < s.len() && s[i] == ':' && forall|j: int| 0 <= j < i ==> s[j] != ':';
    assert(c == k) by {
        if c < k {
            assert(s[c] == dm[c]);
        } else if c > k {
            assert(s[k] != ':');
        }
    }
    assert(s.subrange(0, k) =~= dm);
    assert(s.subrange(k + 1, s.len() as int) =~= ds);
    let t = (m * 60 + sec) as u64;
    assert(t / 60 == m) by (nonlinear_arith)
        requires
            t == m * 60 + sec,
            sec < 60,
    ;
}
} // verus!
