//! Character-level scanning primitives: character classes, maximal runs,
//! first-occurrence search for characters and substrings.
//!
//! Everything in this crate works on `&str` through its `Seq<char>` view; the
//! specs below are the vocabulary the higher-level parsers are stated in.

use vstd::prelude::*;
use vstd::string::*;

verus! {

/// ASCII whitespace, the separator class the diagnostic tools emit.
pub open spec fn is_ws(c: char) -> bool {
    c == ' ' || c == '\t' || c == '\r' || c == '\n'
}

pub open spec fn is_digit(c: char) -> bool {
    '0' <= c && c <= '9'
}

/// A character of a decimal reading: a digit or the point.
pub open spec fn is_num(c: char) -> bool {
    is_digit(c) || c == '.'
}

pub open spec fn is_plus(c: char) -> bool {
    c == '+'
}

/// The character classes the scanners take maximal runs of.
#[derive(Clone, Copy)]
pub enum CharClass {
    Ws,
    Digit,
    Num,
    Plus,
}

pub open spec fn class_spec(cc: CharClass) -> spec_fn(char) -> bool {
    match cc {
        CharClass::Ws => |c: char| is_ws(c),
        CharClass::Digit => |c: char| is_digit(c),
        CharClass::Num => |c: char| is_num(c),
        CharClass::Plus => |c: char| is_plus(c),
    }
}

pub fn class_holds(cc: CharClass, c: char) -> (r: bool)
    ensures
        r == class_spec(cc)(c),
{
    match cc {
        CharClass::Ws => c == ' ' || c == '\t' || c == '\r' || c == '\n',
        CharClass::Digit => '0' <= c && c <= '9',
        CharClass::Num => ('0' <= c && c <= '9') || c == '.',
        CharClass::Plus => c == '+',
    }
}

/// The end of the maximal run of characters satisfying `p` that starts at `i`.
pub open spec fn run_end(s: Seq<char>, i: int, p: spec_fn(char) -> bool) -> int
    decreases s.len() - i,
    when 0 <= i <= s.len()
{
    if i >= s.len() || !p(s[i]) {
        i
    } else {
        run_end(s, i + 1, p)
    }
}

pub proof fn lemma_run_end(s: Seq<char>, i: int, p: spec_fn(char) -> bool)
    requires
        0 <= i <= s.len(),
    ensures
        i <= run_end(s, i, p) <= s.len(),
        forall|m: int| i <= m < run_end(s, i, p) ==> p(s[m]),
        run_end(s, i, p) < s.len() ==> !p(s[run_end(s, i, p)]),
    decreases s.len() - i,
{
    if i < s.len() && p(s[i]) {
        lemma_run_end(s, i + 1, p);
    }
}

/// The end of the maximal run of `cc`-class characters starting at `i`.
pub fn run_to(s: &str, i: usize, cc: CharClass) -> (k: usize)
    requires
        i <= s@.len(),
    ensures
        k == run_end(s@, i as int, class_spec(cc)),
        i <= k <= s@.len(),
{
    let len = s.unicode_len();
    let mut k = i;
    while k < len && class_holds(cc, s.get_char(k))
        invariant
            i <= k <= len,
            len == s@.len(),
            run_end(s@, i as int, class_spec(cc)) == run_end(s@, k as int, class_spec(cc)),
        decreases len - k,
    {
        k = k + 1;
    }
    proof {
        lemma_run_end(s@, k as int, class_spec(cc));
    }
    k
}

/// The first position `>= i` holding character `c`.
pub open spec fn find_from(s: Seq<char>, i: int, c: char) -> Option<int>
    decreases s.len() - i,
    when 0 <= i <= s.len()
{
    if i >= s.len() {
        None
    } else if s[i] == c {
        Some(i)
    } else {
        find_from(s, i + 1, c)
    }
}

pub proof fn lemma_find_from(s: Seq<char>, i: int, c: char)
    requires
        0 <= i <= s.len(),
    ensures
        match find_from(s, i, c) {
            Some(j) => i <= j < s.len() && s[j] == c && (forall|m: int| i <= m < j ==> s[m] != c),
            None => forall|m: int| i <= m < s.len() ==> s[m] != c,
        },
    decreases s.len() - i,
{
    if i < s.len() && s[i] != c {
        lemma_find_from(s, i + 1, c);
    }
}

pub fn find_char_from(s: &str, i: usize, c: char) -> (r: Option<usize>)
    requires
        i <= s@.len(),
    ensures
        match r {
            Some(j) => find_from(s@, i as int, c) == Some(j as int) && i <= j < s@.len(),
            None => find_from(s@, i as int, c) is None,
        },
{
    let len = s.unicode_len();
    let mut k = i;
    while k < len
        invariant
            i <= k <= len,
            len == s@.len(),
            find_from(s@, i as int, c) == find_from(s@, k as int, c),
        decreases len - k,
    {
        if s.get_char(k) == c {
            return Some(k);
        }
        k = k + 1;
    }
    None
}

/// `p` occurs in `s` at position `i`.
pub open spec fn match_at(s: Seq<char>, p: Seq<char>, i: int) -> bool {
    &&& 0 <= i
    &&& i + p.len() <= s.len()
    &&& forall|j: int| 0 <= j < p.len() ==> s[i + j] == p[j]
}

/// `p` occurs at the start of `s`.
pub open spec fn is_prefix(p: Seq<char>, s: Seq<char>) -> bool {
    match_at(s, p, 0)
}

pub fn eq_at(s: &str, p: &str, i: usize) -> (r: bool)
    requires
        i <= s@.len(),
    ensures
        r == match_at(s@, p@, i as int),
{
    let s_len = s.unicode_len();
    let p_len = p.unicode_len();
    if s_len - i < p_len {
        return false;
    }
    let mut j: usize = 0;
    while j < p_len
        invariant
            0 <= j <= p_len,
            p_len == p@.len(),
            s_len == s@.len(),
            i + p_len <= s_len,
            forall|m: int| 0 <= m < j ==> s@[i + m] == p@[m],
        decreases p_len - j,
    {
        if s.get_char(i + j) != p.get_char(j) {
            return false;
        }
        j = j + 1;
    }
    true
}

pub fn starts_with(s: &str, p: &str) -> (r: bool)
    ensures
        r == is_prefix(p@, s@),
{
    eq_at(s, p, 0)
}

/// The first position `>= i` where `p` occurs in `s`.
pub open spec fn find_sub_from(s: Seq<char>, p: Seq<char>, i: int) -> Option<int>
    decreases s.len() - i,
    when 0 <= i <= s.len()
{
    if i + p.len() > s.len() {
        None
    } else if match_at(s, p, i) {
        Some(i)
    } else {
        find_sub_from(s, p, i + 1)
    }
}

/// `p` occurs somewhere in `s`.
pub open spec fn contains_sub(s: Seq<char>, p: Seq<char>) -> bool {
    find_sub_from(s, p, 0) is Some
}

pub fn find_sub(s: &str, p: &str, i: usize) -> (r: Option<usize>)
    requires
        i <= s@.len(),
    ensures
        match r {
            Some(j) => find_sub_from(s@, p@, i as int) == Some(j as int) && i <= j
                && j + p@.len() <= s@.len(),
            None => find_sub_from(s@, p@, i as int) is None,
        },
{
    let s_len = s.unicode_len();
    let p_len = p.unicode_len();
    if p_len > s_len - i {
        return None;
    }
    if p_len == 0 {
        return Some(i);
    }
    let last = s_len - p_len;
    let mut k = i;
    while k <= last
        invariant
            i <= k <= last + 1,
            last == s_len - p_len,
            1 <= p_len == p@.len(),
            s_len == s@.len(),
            i <= s_len,
            find_sub_from(s@, p@, i as int) == find_sub_from(s@, p@, k as int),
        decreases last + 1 - k,
    {
        if eq_at(s, p, k) {
            return Some(k);
        }
        k = k + 1;
    }
    None
}

pub fn contains(s: &str, p: &str) -> (r: bool)
    ensures
        r == contains_sub(s@, p@),
{
    match find_sub(s, p, 0) {
        Some(_) => true,
        None => false,
    }
}

} // verus!

verus! {

// ---------------------------------------------------------------------------
// Splitting into lines and tokens
// ---------------------------------------------------------------------------

/// One trailing carriage return is dropped from a line that ended in `\n`.
pub open spec fn strip_cr(s: Seq<char>) -> Seq<char> {
    if s.len() > 0 && s[s.len() - 1] == '\r' {
        s.drop_last()
    } else {
        s
    }
}

/// Line decomposition: lines end at `\n` (a `\r` just before it is dropped);
/// a last line without `\n` is kept as it is; text ending in `\n` has no
/// empty final line. `cur` is the part of the current line already read.
pub open spec fn lines_rec(s: Seq<char>, cur: Seq<char>) -> Seq<Seq<char>>
    decreases s.len(),
{
    if s.len() == 0 {
        if cur.len() == 0 {
            Seq::empty()
        } else {
            seq![cur]
        }
    } else if s[0] == '\n' {
        seq![strip_cr(cur)] + lines_rec(s.drop_first(), Seq::empty())
    } else {
        lines_rec(s.drop_first(), cur.push(s[0]))
    }
}

pub open spec fn spec_lines(s: Seq<char>) -> Seq<Seq<char>> {
    lines_rec(s, Seq::empty())
}

pub fn split_lines(s: &str) -> (r: Vec<String>)
    ensures
        r.deep_view() == spec_lines(s@),
{
    let len = s.unicode_len();
    let mut acc: Vec<String> = Vec::new();
    let mut start: usize = 0;
    let mut i: usize = 0;
    proof {
        assert(s@.skip(0) =~= s@);
        assert(s@.subrange(0, 0) =~= Seq::<char>::empty());
        assert(acc.deep_view() + lines_rec(s@, Seq::<char>::empty()) =~= lines_rec(
            s@,
            Seq::<char>::empty(),
        ));
    }
    while i < len
        invariant
            0 <= start <= i <= len,
            len == s@.len(),
            spec_lines(s@) == acc.deep_view() + lines_rec(
                s@.skip(i as int),
                s@.subrange(start as int, i as int),
            ),
        decreases len - i,
    {
        let ghost cur = s@.subrange(start as int, i as int);
        let c = s.get_char(i);
        proof {
            assert(s@.skip(i as int)[0] == s@[i as int]);
            assert(s@.skip(i as int).drop_first() =~= s@.skip(i as int + 1));
        }
        if c == '\n' {
            let line: &str = if i > start && s.get_char(i - 1) == '\r' {
                proof {
                    assert(cur.len() > 0 && cur[cur.len() - 1] == s@[i as int - 1]);
                    assert(cur.drop_last() =~= s@.subrange(start as int, i as int - 1));
                }
                s.substring_char(start, i - 1)
            } else {
                s.substring_char(start, i)
            };
            proof {
                assert(line@ == strip_cr(cur));
            }
            let ghost pre = acc.deep_view();
            let owned = String::from_str(line);
            acc.push(owned);
            proof {
                assert(acc.deep_view() =~= pre.push(line@));
                assert(pre + (seq![strip_cr(cur)] + lines_rec(
                    s@.skip(i as int + 1),
                    Seq::<char>::empty(),
                )) =~= acc.deep_view() + lines_rec(s@.skip(i as int + 1), Seq::<char>::empty()));
                assert(s@.subrange(i as int + 1, i as int + 1) =~= Seq::<char>::empty());
            }
            start = i + 1;
        } else {
            proof {
                assert(s@.subrange(start as int, i as int + 1) =~= cur.push(s@[i as int]));
            }
        }
        i = i + 1;
    }
    proof {
        assert(s@.skip(len as int) =~= Seq::<char>::empty());
    }
    if start < len {
        let line = s.substring_char(start, len);
        let ghost pre = acc.deep_view();
        acc.push(String::from_str(line));
        proof {
            assert(acc.deep_view() =~= pre.push(line@));
            assert(pre + seq![line@] =~= acc.deep_view());
        }
    }
    proof {
        assert(acc.deep_view() + Seq::<Seq<char>>::empty() =~= acc.deep_view());
    }
    acc
}

} // verus!

verus! {

/// Whitespace-separated tokens; `cur` is the token being read.
pub open spec fn split_ws_rec(s: Seq<char>, cur: Seq<char>) -> Seq<Seq<char>>
    decreases s.len(),
{
    if s.len() == 0 {
        if cur.len() == 0 {
            Seq::empty()
        } else {
            seq![cur]
        }
    } else if is_ws(s[0]) {
        if cur.len() == 0 {
            split_ws_rec(s.drop_first(), cur)
        } else {
            seq![cur] + split_ws_rec(s.drop_first(), Seq::empty())
        }
    } else {
        split_ws_rec(s.drop_first(), cur.push(s[0]))
    }
}

pub open spec fn split_ws(s: Seq<char>) -> Seq<Seq<char>> {
    split_ws_rec(s, Seq::empty())
}

pub fn split_whitespace(s: &str) -> (r: Vec<String>)
    ensures
        r.deep_view() == split_ws(s@),
{
    let len = s.unicode_len();
    let mut acc: Vec<String> = Vec::new();
    let mut start: usize = 0;
    let mut i: usize = 0;
    proof {
        assert(s@.skip(0) =~= s@);
        assert(s@.subrange(0, 0) =~= Seq::<char>::empty());
        assert(acc.deep_view() + split_ws_rec(s@, Seq::<char>::empty()) =~= split_ws_rec(
            s@,
            Seq::<char>::empty(),
        ));
    }
    while i < len
        invariant
            0 <= start <= i <= len,
            len == s@.len(),
            split_ws(s@) == acc.deep_view() + split_ws_rec(
                s@.skip(i as int),
                s@.subrange(start as int, i as int),
            ),
        decreases len - i,
    {
        let ghost cur = s@.subrange(start as int, i as int);
        let c = s.get_char(i);
        proof {
            assert(s@.skip(i as int)[0] == s@[i as int]);
            assert(s@.skip(i as int).drop_first() =~= s@.skip(i as int + 1));
        }
        if class_holds(CharClass::Ws, c) {
            if start < i {
                let tok = s.substring_char(start, i);
                let ghost pre = acc.deep_view();
                acc.push(String::from_str(tok));
                proof {
                    assert(acc.deep_view() =~= pre.push(tok@));
                    assert(pre + (seq![cur] + split_ws_rec(
                        s@.skip(i as int + 1),
                        Seq::<char>::empty(),
                    )) =~= acc.deep_view() + split_ws_rec(
                        s@.skip(i as int + 1),
                        Seq::<char>::empty(),
                    ));
                }
            } else {
                proof {
                    assert(cur =~= Seq::<char>::empty());
                }
            }
            proof {
                assert(s@.subrange(i as int + 1, i as int + 1) =~= Seq::<char>::empty());
            }
            start = i + 1;
        } else {
            proof {
                assert(s@.subrange(start as int, i as int + 1) =~= cur.push(s@[i as int]));
            }
        }
        i = i + 1;
    }
    proof {
        assert(s@.skip(len as int) =~= Seq::<char>::empty());
    }
    if start < len {
        let tok = s.substring_char(start, len);
        let ghost pre = acc.deep_view();
        acc.push(String::from_str(tok));
        proof {
            assert(acc.deep_view() =~= pre.push(tok@));
            assert(pre + seq![tok@] =~= acc.deep_view());
        }
    }
    proof {
        assert(acc.deep_view() + Seq::<Seq<char>>::empty() =~= acc.deep_view());
    }
    acc
}

/// Fields between occurrences of a separator, empty fields kept:
/// an empty text has the single empty field.
pub open spec fn split_sep_rec(s: Seq<char>, sep: char, cur: Seq<char>) -> Seq<Seq<char>>
    decreases s.len(),
{
    if s.len() == 0 {
        seq![cur]
    } else if s[0] == sep {
        seq![cur] + split_sep_rec(s.drop_first(), sep, Seq::empty())
    } else {
        split_sep_rec(s.drop_first(), sep, cur.push(s[0]))
    }
}

pub open spec fn split_sep(s: Seq<char>, sep: char) -> Seq<Seq<char>> {
    split_sep_rec(s, sep, Seq::empty())
}

pub fn split_on(s: &str, sep: char) -> (r: Vec<String>)
    ensures
        r.deep_view() == split_sep(s@, sep),
{
    let len = s.unicode_len();
    let mut acc: Vec<String> = Vec::new();
    let mut start: usize = 0;
    let mut i: usize = 0;
    proof {
        assert(s@.skip(0) =~= s@);
        assert(s@.subrange(0, 0) =~= Seq::<char>::empty());
        assert(acc.deep_view() + split_sep_rec(s@, sep, Seq::<char>::empty()) =~= split_sep_rec(
            s@,
            sep,
            Seq::<char>::empty(),
        ));
    }
    while i < len
        invariant
            0 <= start <= i <= len,
            len == s@.len(),
            split_sep(s@, sep) == acc.deep_view() + split_sep_rec(
                s@.skip(i as int),
                sep,
                s@.subrange(start as int, i as int),
            ),
        decreases len - i,
    {
        let ghost cur = s@.subrange(start as int, i as int);
        let c = s.get_char(i);
        proof {
            assert(s@.skip(i as int)[0] == s@[i as int]);
            assert(s@.skip(i as int).drop_first() =~= s@.skip(i as int + 1));
        }
        if c == sep {
            let field = s.substring_char(start, i);
            let ghost pre = acc.deep_view();
            acc.push(String::from_str(field));
            proof {
                assert(acc.deep_view() =~= pre.push(field@));
                assert(pre + (seq![cur] + split_sep_rec(
                    s@.skip(i as int + 1),
                    sep,
                    Seq::<char>::empty(),
                )) =~= acc.deep_view() + split_sep_rec(
                    s@.skip(i as int + 1),
                    sep,
                    Seq::<char>::empty(),
                ));
                assert(s@.subrange(i as int + 1, i as int + 1) =~= Seq::<char>::empty());
            }
            start = i + 1;
        } else {
            proof {
                assert(s@.subrange(start as int, i as int + 1) =~= cur.push(s@[i as int]));
            }
        }
        i = i + 1;
    }
    proof {
        assert(s@.skip(len as int) =~= Seq::<char>::empty());
    }
    let field = s.substring_char(start, len);
    let ghost pre = acc.deep_view();
    acc.push(String::from_str(field));
    proof {
        assert(acc.deep_view() =~= pre.push(field@));
        assert(pre + seq![field@] =~= acc.deep_view());
    }
    acc
}

// ---------------------------------------------------------------------------
// Trimming
// ---------------------------------------------------------------------------

pub open spec fn trim_start_spec(s: Seq<char>) -> Seq<char> {
    s.subrange(run_end(s, 0, class_spec(CharClass::Ws)), s.len() as int)
}

/// The length of `s` once trailing whitespace is dropped.
pub open spec fn trim_end_len(s: Seq<char>) -> int
    decreases s.len(),
{
    if s.len() == 0 {
        0
    } else if is_ws(s[s.len() - 1]) {
        trim_end_len(s.drop_last())
    } else {
        s.len() as int
    }
}

pub open spec fn trim_spec(s: Seq<char>) -> Seq<char> {
    let t = trim_start_spec(s);
    t.subrange(0, trim_end_len(t))
}

pub fn trim_start(s: &str) -> (r: &str)
    ensures
        r@ == trim_start_spec(s@),
{
    let i = run_to(s, 0, CharClass::Ws);
    s.substring_char(i, s.unicode_len())
}

pub fn trim(s: &str) -> (r: &str)
    ensures
        r@ == trim_spec(s@),
{
    let len = s.unicode_len();
    let i = run_to(s, 0, CharClass::Ws);
    let mut j = len;
    while j > i && class_holds(CharClass::Ws, s.get_char(j - 1))
        invariant
            i <= j <= len,
            len == s@.len(),
            i == run_end(s@, 0, class_spec(CharClass::Ws)),
            trim_end_len(s@.subrange(i as int, len as int)) == trim_end_len(
                s@.subrange(i as int, j as int),
            ),
        decreases j,
    {
        proof {
            let t = s@.subrange(i as int, j as int);
            assert(t[t.len() - 1] == s@[j as int - 1]);
            assert(t.drop_last() =~= s@.subrange(i as int, j as int - 1));
        }
        j = j - 1;
    }
    proof {
        let t = s@.subrange(i as int, len as int);
        let u = s@.subrange(i as int, j as int);
        if j == i {
            assert(trim_end_len(u) == 0);
        } else {
            assert(u[u.len() - 1] == s@[j as int - 1]);
            assert(trim_end_len(u) == u.len());
        }
        assert(t.subrange(0, trim_end_len(t)) =~= u);
    }
    s.substring_char(i, j)
}

/// Leading `+` signs dropped, as on a temperature reading.
pub open spec fn strip_plus_spec(s: Seq<char>) -> Seq<char> {
    s.subrange(run_end(s, 0, class_spec(CharClass::Plus)), s.len() as int)
}

pub fn strip_plus(s: &str) -> (r: &str)
    ensures
        r@ == strip_plus_spec(s@),
{
    let i = run_to(s, 0, CharClass::Plus);
    s.substring_char(i, s.unicode_len())
}

} // verus!

verus! {

// ---------------------------------------------------------------------------
// Decimal numbers
// ---------------------------------------------------------------------------

/// The value of a decimal digit string, read most significant first.
pub open spec fn dec_val(s: Seq<char>) -> int
    decreases s.len(),
{
    if s.len() == 0 {
        0
    } else {
        dec_val(s.drop_last()) * 10 + (s[s.len() - 1] as int - '0' as int)
    }
}

pub open spec fn all_digits(s: Seq<char>) -> bool {
    s.len() > 0 && (forall|i: int| 0 <= i < s.len() ==> is_digit(s[i]))
}

/// The shape an unsigned decimal accepts: an optional leading `+`,
/// then one or more digits.
pub open spec fn u64_shape(s: Seq<char>) -> bool {
    if s.len() > 0 && s[0] == '+' {
        all_digits(s.drop_first())
    } else {
        all_digits(s)
    }
}

pub open spec fn u64_digits(s: Seq<char>) -> Seq<char> {
    if s.len() > 0 && s[0] == '+' {
        s.drop_first()
    } else {
        s
    }
}

/// What parsing an unsigned 64-bit decimal returns: the digit value when the
/// shape is right and the value fits, nothing otherwise.
pub open spec fn parse_u64_spec(s: Seq<char>) -> Option<u64> {
    if u64_shape(s) && dec_val(u64_digits(s)) <= u64::MAX {
        Some(dec_val(u64_digits(s)) as u64)
    } else {
        None
    }
}

pub proof fn lemma_dec_val_nonneg(s: Seq<char>)
    requires
        forall|i: int| 0 <= i < s.len() ==> is_digit(s[i]),
    ensures
        dec_val(s) >= 0,
    decreases s.len(),
{
    if s.len() > 0 {
        lemma_dec_val_nonneg(s.drop_last());
    }
}

/// A prefix of a digit string never exceeds the whole string's value.
pub proof fn lemma_dec_val_prefix(s: Seq<char>, m: int)
    requires
        0 <= m <= s.len(),
        forall|i: int| 0 <= i < s.len() ==> is_digit(s[i]),
    ensures
        dec_val(s.take(m)) <= dec_val(s),
    decreases s.len() - m,
{
    if m == s.len() {
        assert(s.take(m) =~= s);
    } else {
        lemma_dec_val_prefix(s.drop_last(), m);
        assert(s.drop_last().take(m) =~= s.take(m));
        lemma_dec_val_nonneg(s.drop_last());
    }
}

pub fn parse_u64(s: &str) -> (r: Option<u64>)
    ensures
        r == parse_u64_spec(s@),
{
    let len = s.unicode_len();
    let off: usize = if len > 0 && s.get_char(0) == '+' {
        1
    } else {
        0
    };
    let ghost digits = u64_digits(s@);
    proof {
        assert(digits =~= s@.subrange(off as int, len as int));
    }
    if len == off {
        return None;
    }
    let mut acc: u128 = 0;
    let mut j = off;
    while j < len
        invariant
            off <= j <= len,
            off <= 1,
            len == s@.len(),
            len > off,
            digits == s@.subrange(off as int, len as int),
            digits == u64_digits(s@),
            forall|m: int| off <= m < j ==> is_digit(s@[m]),
            acc == dec_val(s@.subrange(off as int, j as int)),
            acc <= u64::MAX,
        decreases len - j,
    {
        let c = s.get_char(j);
        if !class_holds(CharClass::Digit, c) {
            proof {
                assert(digits[j - off] == s@[j as int]);
                assert(!u64_shape(s@));
            }
            return None;
        }
        let d: u128 = (c as u32) as u128 - ('0' as u32) as u128;
        let next: u128 = acc * 10 + d;
        proof {
            assert(s@.subrange(off as int, j as int + 1).drop_last() =~= s@.subrange(
                off as int,
                j as int,
            ));
            assert(s@.subrange(off as int, j as int + 1).last() == s@[j as int]);
        }
        if next > u64::MAX as u128 {
            proof {
                if u64_shape(s@) {
                    assert(digits.take(j + 1 - off) =~= s@.subrange(off as int, j as int + 1));
                    lemma_dec_val_prefix(digits, j + 1 - off);
                }
            }
            return None;
        }
        acc = next;
        j = j + 1;
    }
    proof {
        assert(s@.subrange(off as int, len as int) =~= digits);
        assert(all_digits(digits));
        assert(u64_shape(s@));
    }
    Some(acc as u64)
}

// ---------------------------------------------------------------------------
// ASCII-case-insensitive search
// ---------------------------------------------------------------------------

/// `a` reads as the (lower-case ASCII) pattern character `b` once case is
/// folded.
pub open spec fn folds_to(a: char, b: char) -> bool {
    a == b || ('A' <= a && a <= 'Z' && a as int + 32 == b as int)
}

pub open spec fn ci_match_at(s: Seq<char>, p: Seq<char>, i: int) -> bool {
    &&& 0 <= i
    &&& i + p.len() <= s.len()
    &&& forall|j: int| 0 <= j < p.len() ==> folds_to(s[i + j], p[j])
}

/// The first position `>= i` where `p` occurs up to ASCII case.
pub open spec fn ci_find_from(s: Seq<char>, p: Seq<char>, i: int) -> Option<int>
    decreases s.len() - i,
    when 0 <= i <= s.len()
{
    if i + p.len() > s.len() {
        None
    } else if ci_match_at(s, p, i) {
        Some(i)
    } else {
        ci_find_from(s, p, i + 1)
    }
}

/// `p`, a lower-case ASCII pattern, occurs in `s` up to ASCII case.
pub open spec fn contains_ci(s: Seq<char>, p: Seq<char>) -> bool {
    ci_find_from(s, p, 0) is Some
}

fn folds_to_exec(a: char, b: char) -> (r: bool)
    ensures
        r == folds_to(a, b),
{
    a == b || ('A' <= a && a <= 'Z' && (a as u32) + 32 == (b as u32))
}

fn ci_eq_at(s: &str, p: &str, i: usize) -> (r: bool)
    requires
        i <= s@.len(),
    ensures
        r == ci_match_at(s@, p@, i as int),
{
    let s_len = s.unicode_len();
    let p_len = p.unicode_len();
    if s_len - i < p_len {
        return false;
    }
    let mut j: usize = 0;
    while j < p_len
        invariant
            0 <= j <= p_len,
            p_len == p@.len(),
            s_len == s@.len(),
            i + p_len <= s_len,
            forall|m: int| 0 <= m < j ==> folds_to(s@[i + m], p@[m]),
        decreases p_len - j,
    {
        if !folds_to_exec(s.get_char(i + j), p.get_char(j)) {
            return false;
        }
        j = j + 1;
    }
    true
}

pub fn contains_nocase(s: &str, p: &str) -> (r: bool)
    ensures
        r == contains_ci(s@, p@),
{
    let s_len = s.unicode_len();
    let p_len = p.unicode_len();
    if p_len > s_len {
        return false;
    }
    if p_len == 0 {
        return true;
    }
    let last = s_len - p_len;
    let mut k: usize = 0;
    while k <= last
        invariant
            0 <= k <= last + 1,
            last == s_len - p_len,
            1 <= p_len == p@.len(),
            s_len == s@.len(),
            ci_find_from(s@, p@, 0) == ci_find_from(s@, p@, k as int),
        decreases last + 1 - k,
    {
        if ci_eq_at(s, p, k) {
            return true;
        }
        k = k + 1;
    }
    false
}

// ---------------------------------------------------------------------------
// Formatting
// ---------------------------------------------------------------------------

/// A fan reading with the unit the display layer expects.
pub fn with_rpm(v: &str) -> (r: String)
    ensures
        r@ == v@ + " RPM"@,
{
    let mut r = String::from_str(v);
    r.append(" RPM");
    r
}

} // verus!

verus! {

/// Character-for-character equality of two string slices.
pub fn str_eq(a: &str, b: &str) -> (r: bool)
    ensures
        r == (a@ == b@),
{
    let a_len = a.unicode_len();
    let b_len = b.unicode_len();
    if a_len != b_len {
        return false;
    }
    let r = eq_at(a, b, 0);
    proof {
        if r {
            assert(a@ =~= b@);
        } else {
            if a@ == b@ {
                assert(match_at(a@, b@, 0));
            }
        }
    }
    r
}

} // verus!
