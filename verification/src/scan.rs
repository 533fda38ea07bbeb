//! The pattern library: one fixed pattern per scalar metric, applied against
//! provider output.
//!
//! Three shapes cover every metric:
//! - a labelled temperature, `<label>` then whitespace then `+` then a
//!   decimal reading (the capture);
//! - a labelled fan speed, `<label>` then whitespace then digits (the
//!   capture) then whitespace then `RPM`;
//! - a chip-qualified fan speed: a chip header, then a fan-speed match on
//!   the same line as the end of the header.
//!
//! Matches are leftmost; repeated extraction resumes after the previous
//! match, so captures come in order of appearance.

use vstd::prelude::*;
use vstd::string::*;

use crate::text::CharClass;
use crate::text::class_spec;
use crate::text::eq_at;
use crate::text::is_num;
use crate::text::match_at;
use crate::text::run_end;
use crate::text::run_to;

verus! {

// ---------------------------------------------------------------------------
// Labelled temperature: `<label>\s+\+<reading>`
// ---------------------------------------------------------------------------

/// End of the whitespace run after the label matched at `i`.
pub open spec fn temp_ws_end(s: Seq<char>, lab: Seq<char>, i: int) -> int {
    run_end(s, i + lab.len(), class_spec(CharClass::Ws))
}

/// First position of the captured reading.
pub open spec fn temp_cap_lo(s: Seq<char>, lab: Seq<char>, i: int) -> int {
    temp_ws_end(s, lab, i) + 1
}

/// Position just after the captured reading.
pub open spec fn temp_cap_hi(s: Seq<char>, lab: Seq<char>, i: int) -> int {
    run_end(s, temp_cap_lo(s, lab, i), class_spec(CharClass::Num))
}

/// The temperature pattern matches at `i`: the label, at least one
/// whitespace character, a `+`, then at least one digit or point.
pub open spec fn temp_match_at(s: Seq<char>, lab: Seq<char>, i: int) -> bool {
    &&& match_at(s, lab, i)
    &&& temp_ws_end(s, lab, i) > i + lab.len()
    &&& temp_ws_end(s, lab, i) < s.len()
    &&& s[temp_ws_end(s, lab, i)] == '+'
    &&& temp_cap_lo(s, lab, i) < s.len()
    &&& is_num(s[temp_cap_lo(s, lab, i)])
}

pub open spec fn temp_cap(s: Seq<char>, lab: Seq<char>, i: int) -> Seq<char> {
    s.subrange(temp_cap_lo(s, lab, i), temp_cap_hi(s, lab, i))
}

/// The first position `>= i` where the temperature pattern matches.
pub open spec fn temp_find_from(s: Seq<char>, lab: Seq<char>, i: int) -> Option<int>
    decreases s.len() - i,
    when 0 <= i <= s.len()
{
    if i >= s.len() {
        None
    } else if temp_match_at(s, lab, i) {
        Some(i)
    } else {
        temp_find_from(s, lab, i + 1)
    }
}

/// What extracting the first labelled temperature returns.
pub open spec fn temp_value(s: Seq<char>, lab: Seq<char>) -> Option<Seq<char>> {
    match temp_find_from(s, lab, 0) {
        None => None,
        Some(i) => Some(temp_cap(s, lab, i)),
    }
}

/// All captures of the pattern, each search resuming where the previous
/// match ended. (The bound checks on `e` always hold at a match; they make
/// termination plain.)
pub open spec fn temp_caps_from(s: Seq<char>, lab: Seq<char>, i: int) -> Seq<Seq<char>>
    decreases s.len() - i,
    when 0 <= i <= s.len()
{
    if i >= s.len() {
        Seq::empty()
    } else if temp_match_at(s, lab, i) {
        let e = temp_cap_hi(s, lab, i);
        if i < e <= s.len() {
            seq![temp_cap(s, lab, i)] + temp_caps_from(s, lab, e)
        } else {
            Seq::empty()
        }
    } else {
        temp_caps_from(s, lab, i + 1)
    }
}

/// Checks the temperature pattern at one position; on a match, returns the
/// capture's bounds.
fn temp_probe(s: &str, lab: &str, i: usize) -> (r: Option<(usize, usize)>)
    requires
        i <= s@.len(),
    ensures
        match r {
            Some((lo, hi)) => {
                &&& temp_match_at(s@, lab@, i as int)
                &&& lo == temp_cap_lo(s@, lab@, i as int)
                &&& hi == temp_cap_hi(s@, lab@, i as int)
                &&& i < lo <= hi <= s@.len()
            },
            None => !temp_match_at(s@, lab@, i as int),
        },
{
    let len = s.unicode_len();
    let lab_len = lab.unicode_len();
    if !eq_at(s, lab, i) {
        return None;
    }
    let j = i + lab_len;
    let w = run_to(s, j, CharClass::Ws);
    if w == j {
        return None;
    }
    if w >= len || s.get_char(w) != '+' {
        return None;
    }
    if w + 1 >= len {
        return None;
    }
    let c = s.get_char(w + 1);
    if !(('0' <= c && c <= '9') || c == '.') {
        return None;
    }
    let hi = run_to(s, w + 1, CharClass::Num);
    Some((w + 1, hi))
}

/// The first capture of `<label>` whitespace `+` reading, as the pattern
/// library hands it to the snapshot.
pub fn extract_sensor_value(s: &str, lab: &str) -> (r: Option<String>)
    ensures
        match r {
            None => temp_value(s@, lab@) is None,
            Some(v) => temp_value(s@, lab@) == Some(v@),
        },
{
    let len = s.unicode_len();
    let mut i: usize = 0;
    while i < len
        invariant
            0 <= i <= len,
            len == s@.len(),
            temp_find_from(s@, lab@, 0) == temp_find_from(s@, lab@, i as int),
        decreases len - i,
    {
        match temp_probe(s, lab, i) {
            Some((lo, hi)) => {
                let cap = s.substring_char(lo, hi);
                return Some(String::from_str(cap));
            },
            None => {},
        }
        i = i + 1;
    }
    None
}

/// Every capture of the pattern, in order of appearance.
pub fn extract_all_sensor_values(s: &str, lab: &str) -> (r: Vec<String>)
    ensures
        r.deep_view() == temp_caps_from(s@, lab@, 0),
{
    let len = s.unicode_len();
    let mut acc: Vec<String> = Vec::new();
    let mut i: usize = 0;
    proof {
        assert(acc.deep_view() + temp_caps_from(s@, lab@, 0) =~= temp_caps_from(s@, lab@, 0));
    }
    while i < len
        invariant
            0 <= i <= len,
            len == s@.len(),
            temp_caps_from(s@, lab@, 0) == acc.deep_view() + temp_caps_from(s@, lab@, i as int),
        decreases len - i,
    {
        match temp_probe(s, lab, i) {
            Some((lo, hi)) => {
                let cap = s.substring_char(lo, hi);
                let ghost pre = acc.deep_view();
                acc.push(String::from_str(cap));
                proof {
                    assert(acc.deep_view() =~= pre.push(cap@));
                    assert(pre + (seq![temp_cap(s@, lab@, i as int)] + temp_caps_from(
                        s@,
                        lab@,
                        hi as int,
                    )) =~= acc.deep_view() + temp_caps_from(s@, lab@, hi as int));
                }
                i = hi;
            },
            None => {
                i = i + 1;
            },
        }
    }
    proof {
        assert(acc.deep_view() + Seq::<Seq<char>>::empty() =~= acc.deep_view());
    }
    acc
}

} // verus!

verus! {

// ---------------------------------------------------------------------------
// Labelled fan speed: `<label>\s+<digits>\s+RPM`
// ---------------------------------------------------------------------------

/// End of the whitespace run after the label matched at `i`.
pub open spec fn fan_w1(s: Seq<char>, lab: Seq<char>, i: int) -> int {
    run_end(s, i + lab.len(), class_spec(CharClass::Ws))
}

/// Position just after the captured digits.
pub open spec fn fan_d(s: Seq<char>, lab: Seq<char>, i: int) -> int {
    run_end(s, fan_w1(s, lab, i), class_spec(CharClass::Digit))
}

/// End of the whitespace run after the digits.
pub open spec fn fan_w2(s: Seq<char>, lab: Seq<char>, i: int) -> int {
    run_end(s, fan_d(s, lab, i), class_spec(CharClass::Ws))
}

/// The fan pattern matches at `i`: the label, whitespace, at least one
/// digit, whitespace, then the unit `RPM`.
pub open spec fn fan_match_at(s: Seq<char>, lab: Seq<char>, i: int) -> bool {
    &&& match_at(s, lab, i)
    &&& fan_w1(s, lab, i) > i + lab.len()
    &&& fan_d(s, lab, i) > fan_w1(s, lab, i)
    &&& fan_w2(s, lab, i) > fan_d(s, lab, i)
    &&& match_at(s, "RPM"@, fan_w2(s, lab, i))
}

pub open spec fn fan_cap(s: Seq<char>, lab: Seq<char>, i: int) -> Seq<char> {
    s.subrange(fan_w1(s, lab, i), fan_d(s, lab, i))
}

pub open spec fn fan_find_from(s: Seq<char>, lab: Seq<char>, i: int) -> Option<int>
    decreases s.len() - i,
    when 0 <= i <= s.len()
{
    if i >= s.len() {
        None
    } else if fan_match_at(s, lab, i) {
        Some(i)
    } else {
        fan_find_from(s, lab, i + 1)
    }
}

/// What extracting the first labelled fan speed returns: the bare digits.
pub open spec fn fan_value(s: Seq<char>, lab: Seq<char>) -> Option<Seq<char>> {
    match fan_find_from(s, lab, 0) {
        None => None,
        Some(i) => Some(fan_cap(s, lab, i)),
    }
}

/// Checks the fan pattern at one position; on a match, returns the
/// capture's bounds.
fn fan_probe(s: &str, lab: &str, i: usize) -> (r: Option<(usize, usize)>)
    requires
        i <= s@.len(),
    ensures
        match r {
            Some((lo, hi)) => {
                &&& fan_match_at(s@, lab@, i as int)
                &&& lo == fan_w1(s@, lab@, i as int)
                &&& hi == fan_d(s@, lab@, i as int)
                &&& i <= lo <= hi <= s@.len()
            },
            None => !fan_match_at(s@, lab@, i as int),
        },
{
    let len = s.unicode_len();
    let lab_len = lab.unicode_len();
    if !eq_at(s, lab, i) {
        return None;
    }
    let j = i + lab_len;
    let w1 = run_to(s, j, CharClass::Ws);
    if w1 == j {
        return None;
    }
    let d = run_to(s, w1, CharClass::Digit);
    if d == w1 {
        return None;
    }
    let w2 = run_to(s, d, CharClass::Ws);
    if w2 == d {
        return None;
    }
    if !eq_at(s, "RPM", w2) {
        return None;
    }
    Some((w1, d))
}

/// The first capture of `<label>` whitespace digits whitespace `RPM`.
pub fn extract_fan_value(s: &str, lab: &str) -> (r: Option<String>)
    ensures
        match r {
            None => fan_value(s@, lab@) is None,
            Some(v) => fan_value(s@, lab@) == Some(v@),
        },
{
    let len = s.unicode_len();
    let mut i: usize = 0;
    while i < len
        invariant
            0 <= i <= len,
            len == s@.len(),
            fan_find_from(s@, lab@, 0) == fan_find_from(s@, lab@, i as int),
        decreases len - i,
    {
        match fan_probe(s, lab, i) {
            Some((lo, hi)) => {
                let cap = s.substring_char(lo, hi);
                return Some(String::from_str(cap));
            },
            None => {},
        }
        i = i + 1;
    }
    None
}

// ---------------------------------------------------------------------------
// Chip-qualified fan speed: `<chip header>` then, before the next line
// break, a fan-speed match
// ---------------------------------------------------------------------------

/// The first fan-pattern match at a position `>= i` reachable without
/// crossing a line break.
pub open spec fn fan_on_line_from(s: Seq<char>, flab: Seq<char>, i: int) -> Option<int>
    decreases s.len() - i,
    when 0 <= i <= s.len()
{
    if i >= s.len() {
        None
    } else if fan_match_at(s, flab, i) {
        Some(i)
    } else if s[i] == '\n' {
        None
    } else {
        fan_on_line_from(s, flab, i + 1)
    }
}

/// The chip-qualified pattern matches at `i`: the chip header, then a fan
/// match on the same line.
pub open spec fn chip_match_at(s: Seq<char>, chip: Seq<char>, flab: Seq<char>, i: int) -> bool {
    &&& match_at(s, chip, i)
    &&& fan_on_line_from(s, flab, i + chip.len()) is Some
}

pub open spec fn chip_find_from(s: Seq<char>, chip: Seq<char>, flab: Seq<char>, i: int) -> Option<
    int,
>
    decreases s.len() - i,
    when 0 <= i <= s.len()
{
    if i >= s.len() {
        None
    } else if chip_match_at(s, chip, flab, i) {
        Some(i)
    } else {
        chip_find_from(s, chip, flab, i + 1)
    }
}

/// What extracting the chip-qualified fan speed returns: the digits of the
/// first fan match on the first chip header line that has one.
pub open spec fn chip_fan_value(s: Seq<char>, chip: Seq<char>, flab: Seq<char>) -> Option<
    Seq<char>,
> {
    match chip_find_from(s, chip, flab, 0) {
        None => None,
        Some(i) => match fan_on_line_from(s, flab, i + chip.len()) {
            None => None,
            Some(k) => Some(fan_cap(s, flab, k)),
        },
    }
}

/// Scans one line for the fan pattern, stopping at a line break.
fn fan_on_line_scan(s: &str, flab: &str, from: usize) -> (r: Option<(usize, usize, usize)>)
    requires
        from <= s@.len(),
    ensures
        match r {
            Some((k, lo, hi)) => {
                &&& fan_on_line_from(s@, flab@, from as int) == Some(k as int)
                &&& fan_match_at(s@, flab@, k as int)
                &&& lo == fan_w1(s@, flab@, k as int)
                &&& hi == fan_d(s@, flab@, k as int)
                &&& lo <= hi <= s@.len()
            },
            None => fan_on_line_from(s@, flab@, from as int) is None,
        },
{
    let len = s.unicode_len();
    let mut k = from;
    while k < len
        invariant
            from <= k <= len,
            len == s@.len(),
            fan_on_line_from(s@, flab@, from as int) == fan_on_line_from(s@, flab@, k as int),
        decreases len - k,
    {
        match fan_probe(s, flab, k) {
            Some((lo, hi)) => {
                return Some((k, lo, hi));
            },
            None => {},
        }
        if s.get_char(k) == '\n' {
            return None;
        }
        k = k + 1;
    }
    None
}

/// The chip-qualified fan capture: `chip` is the chip header text, `flab`
/// the fan label.
pub fn extract_chip_fan(s: &str, chip: &str, flab: &str) -> (r: Option<String>)
    ensures
        match r {
            None => chip_fan_value(s@, chip@, flab@) is None,
            Some(v) => chip_fan_value(s@, chip@, flab@) == Some(v@),
        },
{
    let len = s.unicode_len();
    let chip_len = chip.unicode_len();
    let mut i: usize = 0;
    while i < len
        invariant
            0 <= i <= len,
            len == s@.len(),
            chip_len == chip@.len(),
            chip_find_from(s@, chip@, flab@, 0) == chip_find_from(s@, chip@, flab@, i as int),
        decreases len - i,
    {
        if eq_at(s, chip, i) {
            match fan_on_line_scan(s, flab, i + chip_len) {
                Some((k, lo, hi)) => {
                    proof {
                        assert(chip_match_at(s@, chip@, flab@, i as int));
                    }
                    let cap = s.substring_char(lo, hi);
                    return Some(String::from_str(cap));
                },
                None => {
                    proof {
                        assert(!chip_match_at(s@, chip@, flab@, i as int));
                    }
                },
            }
        }
        i = i + 1;
    }
    None
}

} // verus!
