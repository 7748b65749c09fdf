//! Durations written as a number and a unit, such as `10min` or `2d`.
use vstd::prelude::*;
use vstd::wrapping::u64_specs::wrapping_mul;
use crate::text::{all_digits, dec_value, is_digit, is_ascii_digit, parse_u64, parse_u64_spec};

verus! {

/// The digits of `s`, in order.
pub open spec fn digits_in(s: Seq<char>) -> Seq<char>
    decreases s.len(),
{
    if s.len() == 0 {
        s
    } else if is_digit(s.last()) {
        digits_in(s.drop_last()).push(s.last())
    } else {
        digits_in(s.drop_last())
    }
}

/// The characters of `s` that are not digits, in order.
pub open spec fn non_digits_in(s: Seq<char>) -> Seq<char>
    decreases s.len(),
{
    if s.len() == 0 {
        s
    } else if !is_digit(s.last()) {
        non_digits_in(s.drop_last()).push(s.last())
    } else {
        non_digits_in(s.drop_last())
    }
}

/// The number of seconds in one of the unit `u`: `s`, `sec`, `secs` or no unit
/// at all are seconds; `m`, `min`, `mins` minutes; `h`, `hr`, `hrs` hours;
/// `d`, `day`, `days` days.
pub open spec fn unit_seconds(u: Seq<char>) -> Option<u64> {
    if u == seq!['s'] || u == seq!['s', 'e', 'c'] || u == seq!['s', 'e', 'c', 's'] || u.len() == 0 {
        Some(1)
    } else if u == seq!['m'] || u == seq!['m', 'i', 'n'] || u == seq!['m', 'i', 'n', 's'] {
        Some(60)
    } else if u == seq!['h'] || u == seq!['h', 'r'] || u == seq!['h', 'r', 's'] {
        Some(3600)
    } else if u == seq!['d'] || u == seq!['d', 'a', 'y'] || u == seq!['d', 'a', 'y', 's'] {
        Some(86400)
    } else {
        None
    }
}

/// The number of seconds that `s` denotes: its digits, wherever they stand,
/// read as one number, times the unit that its other characters spell; the
/// product wraps around at 2^64.
pub open spec fn duration_spec(s: Seq<char>) -> Option<u64> {
    match parse_u64_spec(digits_in(s)) {
        None => None,
        Some(v) => match unit_seconds(non_digits_in(s)) {
            None => None,
            Some(f) => Some(vstd::wrapping::u64_specs::wrapping_mul(v, f)),
        },
    }
}

fn unit_factor(u: &Vec<char>) -> (r: Option<u64>)
    ensures
        r == unit_seconds(u@),
{
    let n = u.len();
    if n == 0 {
        return Some(1);
    }
    let secs = crate::text::same_as_str(u, "s") || crate::text::same_as_str(u, "sec")
        || crate::text::same_as_str(u, "secs");
    let mins = crate::text::same_as_str(u, "m") || crate::text::same_as_str(u, "min")
        || crate::text::same_as_str(u, "mins");
    let hours = crate::text::same_as_str(u, "h") || crate::text::same_as_str(u, "hr")
        || crate::text::same_as_str(u, "hrs");
    let days = crate::text::same_as_str(u, "d") || crate::text::same_as_str(u, "day")
        || crate::text::same_as_str(u, "days");
    proof {
        reveal_strlit("s");
        reveal_strlit("sec");
        reveal_strlit("secs");
        reveal_strlit("m");
        reveal_strlit("min");
        reveal_strlit("mins");
        reveal_strlit("h");
        reveal_strlit("hr");
        reveal_strlit("hrs");
        reveal_strlit("d");
        reveal_strlit("day");
        reveal_strlit("days");
        assert("s"@ =~= seq!['s']);
        assert("sec"@ =~= seq!['s', 'e', 'c']);
        assert("secs"@ =~= seq!['s', 'e', 'c', 's']);
        assert("m"@ =~= seq!['m']);
        assert("min"@ =~= seq!['m', 'i', 'n']);
        assert("mins"@ =~= seq!['m', 'i', 'n', 's']);
        assert("h"@ =~= seq!['h']);
        assert("hr"@ =~= seq!['h', 'r']);
        assert("hrs"@ =~= seq!['h', 'r', 's']);
        assert("d"@ =~= seq!['d']);
        assert("day"@ =~= seq!['d', 'a', 'y']);
        assert("days"@ =~= seq!['d', 'a', 'y', 's']);
    }
    if secs {
        Some(1)
    } else if mins {
        Some(60)
    } else if hours {
        Some(3600)
    } else if days {
        Some(86400)
    } else {
        None
    }
}

/// The number of seconds that `s` denotes (`10min` is 600); `None` when its
/// digits are missing or too large for a `u64`, or its unit is unknown.
pub fn parse_duration(s: &str) -> (r: Option<u64>)
    ensures
        r == duration_spec(s@),
{
    let v = crate::text::chars_of(s);
    let mut num: Vec<char> = Vec::new();
    let mut unit: Vec<char> = Vec::new();
    let mut i: usize = 0;
    while i < v.len()
        invariant
            i <= v.len(),
            num@ == digits_in(v@.take(i as int)),
            unit@ == non_digits_in(v@.take(i as int)),
        decreases v.len() - i,
    {
        assert(v@.take(i + 1).drop_last() =~= v@.take(i as int));
        let c = v[i];
        if is_ascii_digit(c) {
            num.push(c);
        } else {
            unit.push(c);
        }
        i = i + 1;
    }
    assert(v@.take(v.len() as int) =~= v@);
    let val = match parse_u64(&num) {
        Some(x) => x,
        None => return None,
    };
    match unit_factor(&unit) {
        Some(f) => Some(val.wrapping_mul(f)),
        None => None,
    }
}


proof fn lemma_split_digits(a: Seq<char>, b: Seq<char>)
    ensures
        digits_in(a + b) == digits_in(a) + digits_in(b),
        non_digits_in(a + b) == non_digits_in(a) + non_digits_in(b),
    decreases b.len(),
{
    if b.len() == 0 {
        assert(a + b =~= a);
        assert(digits_in(a) + digits_in(b) =~= digits_in(a));
        assert(non_digits_in(a) + non_digits_in(b) =~= non_digits_in(a));
    } else {
        lemma_split_digits(a, b.drop_last());
        assert((a + b).drop_last() =~= a + b.drop_last());
        assert((a + b).last() == b.last());
        assert(digits_in(a + b) =~= digits_in(a) + digits_in(b));
        assert(non_digits_in(a + b) =~= non_digits_in(a) + non_digits_in(b));
    }
}

proof fn lemma_only_digits(d: Seq<char>)
    requires
        all_digits(d),
    ensures
        digits_in(d) == d,
        non_digits_in(d) == Seq::<char>::empty(),
    decreases d.len(),
{
    if d.len() > 0 {
        lemma_only_digits(d.drop_last());
        assert(is_digit(d[d.len() - 1]));
        assert(digits_in(d.drop_last()).push(d.last()) =~= d);
    }
}

proof fn lemma_no_digits(u: Seq<char>)
    requires
        forall|i: int| 0 <= i < u.len() ==> !is_digit(#[trigger] u[i]),
    ensures
        digits_in(u) == Seq::<char>::empty(),
        non_digits_in(u) == u,
    decreases u.len(),
{
    if u.len() > 0 {
        lemma_no_digits(u.drop_last());
        assert(!is_digit(u[u.len() - 1]));
        assert(non_digits_in(u.drop_last()).push(u.last()) =~= u);
    }
}

/// A number written in digits and followed by a unit word (or by nothing)
/// denotes that number times the unit's length in seconds: `10min` is 600.
pub proof fn lemma_number_then_unit(d: Seq<char>, u: Seq<char>)
    requires
        d.len() > 0,
        all_digits(d),
        dec_value(d) <= u64::MAX,
        unit_seconds(u) is Some,
    ensures
        duration_spec(d + u) == Some(
            vstd::wrapping::u64_specs::wrapping_mul(dec_value(d) as u64, unit_seconds(u)->0),
        ),
{
    assert forall|i: int| 0 <= i < u.len() implies !is_digit(#[trigger] u[i]) by {}
    lemma_split_digits(d, u);
    lemma_only_digits(d);
    lemma_no_digits(u);
    assert(digits_in(d + u) =~= d);
    assert(non_digits_in(d + u) =~= u);
    assert(is_digit(d[0]));
}

/// The units a duration may carry and what each is worth: a number `v`
/// alone, or followed by `s`, `sec` or `secs`, is `v` seconds; by `m`, `min`
/// or `mins`, `v` minutes (60 s); by `h`, `hr` or `hrs`, `v` hours (3600 s);
/// by `d`, `day` or `days`, `v` days (86400 s); the product wraps around at
/// 2^64.
pub proof fn lemma_duration_units(d: Seq<char>, v: nat)
    requires
        d.len() > 0,
        all_digits(d),
        v == dec_value(d),
        v <= u64::MAX,
    ensures
        duration_spec(d) == Some(v as u64),
        duration_spec(d + seq!['s']) == Some(wrapping_mul(v as u64, 1)),
        duration_spec(d + seq!['s', 'e', 'c']) == Some(wrapping_mul(v as u64, 1)),
        duration_spec(d + seq!['s', 'e', 'c', 's']) == Some(wrapping_mul(v as u64, 1)),
        duration_spec(d + seq!['m']) == Some(wrapping_mul(v as u64, 60)),
        duration_spec(d + seq!['m', 'i', 'n']) == Some(wrapping_mul(v as u64, 60)),
        duration_spec(d + seq!['m', 'i', 'n', 's']) == Some(wrapping_mul(v as u64, 60)),
        duration_spec(d + seq!['h']) == Some(wrapping_mul(v as u64, 3600)),
        duration_spec(d + seq!['h', 'r']) == Some(wrapping_mul(v as u64, 3600)),
        duration_spec(d + seq!['h', 'r', 's']) == Some(wrapping_mul(v as u64, 3600)),
        duration_spec(d + seq!['d']) == Some(wrapping_mul(v as u64, 86400)),
        duration_spec(d + seq!['d', 'a', 'y']) == Some(wrapping_mul(v as u64, 86400)),
        duration_spec(d + seq!['d', 'a', 'y', 's']) == Some(wrapping_mul(v as u64, 86400)),
{
    assert(duration_spec(d) == Some(v as u64)) by {
        lemma_number_then_unit(d, Seq::<char>::empty());
        assert(d + Seq::<char>::empty() =~= d);
    }
    assert(duration_spec(d + seq!['s']) == Some(wrapping_mul(v as u64, 1))) by {
        lemma_number_then_unit(d, seq!['s']);
    }
    assert(duration_spec(d + seq!['s', 'e', 'c']) == Some(wrapping_mul(v as u64, 1))) by {
        lemma_number_then_unit(d, seq!['s', 'e', 'c']);
    }
    assert(duration_spec(d + seq!['s', 'e', 'c', 's']) == Some(wrapping_mul(v as u64, 1))) by {
        lemma_number_then_unit(d, seq!['s', 'e', 'c', 's']);
    }
    assert(duration_spec(d + seq!['m']) == Some(wrapping_mul(v as u64, 60))) by {
        lemma_number_then_unit(d, seq!['m']);
    }
    assert(duration_spec(d + seq!['m', 'i', 'n']) == Some(wrapping_mul(v as u64, 60))) by {
        lemma_number_then_unit(d, seq!['m', 'i', 'n']);
    }
    assert(duration_spec(d + seq!['m', 'i', 'n', 's']) == Some(wrapping_mul(v as u64, 60))) by {
        lemma_number_then_unit(d, seq!['m', 'i', 'n', 's']);
    }
    assert(duration_spec(d + seq!['h']) == Some(wrapping_mul(v as u64, 3600))) by {
        lemma_number_then_unit(d, seq!['h']);
    }
    assert(duration_spec(d + seq!['h', 'r']) == Some(wrapping_mul(v as u64, 3600))) by {
        lemma_number_then_unit(d, seq!['h', 'r']);
    }
    assert(duration_spec(d + seq!['h', 'r', 's']) == Some(wrapping_mul(v as u64, 3600))) by {
        lemma_number_then_unit(d, seq!['h', 'r', 's']);
    }
    assert(duration_spec(d + seq!['d']) == Some(wrapping_mul(v as u64, 86400))) by {
        lemma_number_then_unit(d, seq!['d']);
    }
    assert(duration_spec(d + seq!['d', 'a', 'y']) == Some(wrapping_mul(v as u64, 86400))) by {
        lemma_number_then_unit(d, seq!['d', 'a', 'y']);
    }
    assert(duration_spec(d + seq!['d', 'a', 'y', 's']) == Some(wrapping_mul(v as u64, 86400))) by {
        lemma_number_then_unit(d, seq!['d', 'a', 'y', 's']);
    }
}

} // verus!
