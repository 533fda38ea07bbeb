//! CPU utilization from two samples of the kernel's scheduler counters.
//!
//! A sample is the first line of the counter pseudo-file: a label token, then
//! unsigned counters. Tokens that do not parse are dropped. `idle` is the
//! fourth counter plus the fifth (the idle and iowait times; a missing fifth
//! counts as zero); `total` is the sum of the first eight. Utilization over
//! the window between two samples is the non-idle share of the elapsed
//! counter time, held in hundredths of a percent so that the record stays in
//! integers; the display layer divides by 100.

use vstd::arithmetic::div_mod::lemma_div_is_ordered;
use vstd::arithmetic::div_mod::lemma_div_multiples_vanish;
use vstd::prelude::*;

use crate::text::parse_u64;
use crate::text::parse_u64_spec;
use crate::text::spec_lines;
use crate::text::split_lines;
use crate::text::split_ws;
use crate::text::split_whitespace;

verus! {

/// The tokens that parse as unsigned integers, in order.
pub open spec fn numeric_fields(toks: Seq<Seq<char>>) -> Seq<u64>
    decreases toks.len(),
{
    if toks.len() == 0 {
        Seq::empty()
    } else {
        match parse_u64_spec(toks[0]) {
            Some(v) => seq![v] + numeric_fields(toks.drop_first()),
            None => numeric_fields(toks.drop_first()),
        }
    }
}

/// The counters of a sample: first line, label token dropped, numeric
/// tokens kept.
pub open spec fn stat_values(text: Seq<char>) -> Seq<u64> {
    let ls = spec_lines(text);
    if ls.len() == 0 {
        Seq::empty()
    } else {
        let toks = split_ws(ls[0]);
        if toks.len() == 0 {
            Seq::empty()
        } else {
            numeric_fields(toks.drop_first())
        }
    }
}

pub fn parse_stat_values(text: &str) -> (r: Vec<u64>)
    ensures
        r@ == stat_values(text@),
{
    let lines = split_lines(text);
    let mut r: Vec<u64> = Vec::new();
    if lines.len() == 0 {
        return r;
    }
    let line: &String = &lines[0];
    let toks = split_whitespace(line.as_str());
    proof {
        assert(lines.deep_view()[0] == lines@[0]@);
        assert(toks.deep_view() == split_ws(spec_lines(text@)[0]));
    }
    if toks.len() == 0 {
        return r;
    }
    let ghost rest = toks.deep_view().drop_first();
    let n = toks.len();
    let mut k: usize = 1;
    proof {
        assert(r@ + numeric_fields(rest.skip(0)) =~= numeric_fields(rest.skip(0)));
        assert(rest.skip(0) =~= rest);
    }
    while k < n
        invariant
            1 <= k <= n,
            n == toks@.len(),
            rest == toks.deep_view().drop_first(),
            rest.len() == n - 1,
            forall|m: int| 0 <= m < rest.len() ==> rest[m] == toks@[m + 1]@,
            numeric_fields(rest) == r@ + numeric_fields(rest.skip(k - 1)),
        decreases n - k,
    {
        proof {
            assert(rest.skip(k - 1)[0] == toks@[k as int]@);
            assert(rest.skip(k - 1).drop_first() =~= rest.skip(k as int));
        }
        match parse_u64(toks[k].as_str()) {
            Some(v) => {
                r.push(v);
            },
            None => {},
        }
        k = k + 1;
    }
    proof {
        assert(rest.skip(n - 1) =~= Seq::<Seq<char>>::empty());
        assert(r@ + Seq::<u64>::empty() =~= r@);
    }
    r
}

/// The sum of the first `n` counters.
pub open spec fn sum_prefix(v: Seq<u64>, n: int) -> int
    decreases n,
    when 0 <= n <= v.len()
{
    if n <= 0 {
        0
    } else {
        sum_prefix(v, n - 1) + v[n - 1]
    }
}

pub proof fn lemma_sum_prefix_bounds(v: Seq<u64>, n: int)
    requires
        0 <= n <= v.len(),
    ensures
        0 <= sum_prefix(v, n) <= n * (u64::MAX as int),
    decreases n,
{
    if n > 0 {
        lemma_sum_prefix_bounds(v, n - 1);
    }
}

/// Total counter time of a sample: the eight standard counters; extra
/// fields are ignored, missing ones simply absent from the sum.
pub open spec fn total_count(v: Seq<u64>) -> int {
    sum_prefix(
        v,
        if v.len() >= 8 {
            8
        } else {
            v.len() as int
        },
    )
}

/// Idle counter time of a sample with at least four counters.
pub open spec fn idle_count(v: Seq<u64>) -> int {
    v[3] + if v.len() >= 5 {
        v[4] as int
    } else {
        0
    }
}

/// Subtraction clamped at zero, as the counters may wrap or reset.
pub open spec fn sat_diff(a: int, b: int) -> int {
    if a >= b {
        a - b
    } else {
        0
    }
}

/// CPU utilization between two samples, in hundredths of a percent: the
/// non-idle share of the elapsed counter time, zero when either sample is
/// short or no counter time elapsed. This is the pure computation; the
/// snapshot applies it only to well-formed samples and treats a short one
/// as a failed read that retains the previous load.
pub open spec fn usage_hundredths(v1: Seq<u64>, v2: Seq<u64>) -> int {
    if v1.len() >= 4 && v2.len() >= 4 {
        let td = sat_diff(total_count(v2), total_count(v1));
        let id = sat_diff(idle_count(v2), idle_count(v1));
        if td > 0 {
            sat_diff(td, id) * 10000 / td
        } else {
            0
        }
    } else {
        0
    }
}

/// Utilization never leaves `[0, 100]` percent, and reads exactly zero when
/// no counter time elapsed between the samples.
pub proof fn lemma_usage_bounds(v1: Seq<u64>, v2: Seq<u64>)
    ensures
        0 <= usage_hundredths(v1, v2) <= 10000,
        v1.len() >= 4 && v2.len() >= 4 && sat_diff(total_count(v2), total_count(v1)) == 0
            ==> usage_hundredths(v1, v2) == 0,
{
    if v1.len() >= 4 && v2.len() >= 4 {
        let td = sat_diff(total_count(v2), total_count(v1));
        let id = sat_diff(idle_count(v2), idle_count(v1));
        if td > 0 {
            let x = sat_diff(td, id);
            assert(0 <= x <= td);
            assert(x * 10000 <= td * 10000);
            lemma_div_is_ordered(x * 10000, td * 10000, td);
            lemma_div_multiples_vanish(10000, td);
            assert(td * 10000 == 10000 * td) by (nonlinear_arith);
            assert(td * 10000 / td == 10000);
            lemma_div_is_ordered(0, x * 10000, td);
        }
    }
}

/// Sums the first eight counters exactly (in 128-bit arithmetic, which the
/// sum of eight 64-bit counters cannot overflow).
fn sum_first8(v: &Vec<u64>) -> (t: u128)
    ensures
        t as int == total_count(v@),
{
    let n: usize = if v.len() >= 8 {
        8
    } else {
        v.len()
    };
    let mut t: u128 = 0;
    let mut k: usize = 0;
    while k < n
        invariant
            0 <= k <= n <= v@.len(),
            n == if v@.len() >= 8 {
                8int
            } else {
                v@.len() as int
            },
            t as int == sum_prefix(v@, k as int),
            t as int <= k * (u64::MAX as int),
        decreases n - k,
    {
        t = t + (v[k] as u128);
        k = k + 1;
    }
    t
}

/// CPU utilization between two samples, in hundredths of a percent.
pub fn cpu_usage_hundredths(v1: &Vec<u64>, v2: &Vec<u64>) -> (r: u32)
    ensures
        r as int == usage_hundredths(v1@, v2@),
        r <= 10000,
{
    proof {
        lemma_usage_bounds(v1@, v2@);
    }
    if v1.len() < 4 || v2.len() < 4 {
        return 0;
    }
    let t1 = sum_first8(v1);
    let t2 = sum_first8(v2);
    let i1: u128 = (v1[3] as u128) + (if v1.len() >= 5 {
        v1[4]
    } else {
        0
    } as u128);
    let i2: u128 = (v2[3] as u128) + (if v2.len() >= 5 {
        v2[4]
    } else {
        0
    } as u128);
    let td: u128 = if t2 >= t1 {
        t2 - t1
    } else {
        0
    };
    let id: u128 = if i2 >= i1 {
        i2 - i1
    } else {
        0
    };
    proof {
        lemma_sum_prefix_bounds(
            v2@,
            if v2@.len() >= 8 {
                8
            } else {
                v2@.len() as int
            },
        );
    }
    if td > 0 {
        let x: u128 = if td >= id {
            td - id
        } else {
            0
        };
        let r128: u128 = x * 10000 / td;
        r128 as u32
    } else {
        0
    }
}

} // verus!
