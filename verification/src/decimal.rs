//! Decimal numerals read as fixed-point values.
//!
//! A numeral is an optional sign, then digits with at most one point
//! among them, and at least one digit in all: `12`, `-0.5`, `+3.`, `.25`.
//! Digits behind the ninth decimal place are dropped, and a value out of
//! range saturates.
use crate::fixed::clamp;
use crate::fixed::signed;
use crate::fixed::Fixed;
use crate::fixed::SCALE;
use vstd::prelude::*;
use vstd::string::StrSliceExecFns;

verus! {

/// Whether `c` is one of the ten digits.
pub open spec fn is_digit(c: char) -> bool {
    '0' <= c && c <= '9'
}

/// The value of a digit.
pub open spec fn digit_of(c: char) -> int {
    c as int - '0' as int
}

/// Whether `s` holds digits only.
pub open spec fn all_digits(s: Seq<char>) -> bool {
    forall|i: int| 0 <= i < s.len() ==> is_digit(#[trigger] s[i])
}

/// The whole number that the digits of `s` spell.
pub open spec fn whole_value(s: Seq<char>) -> int
    decreases s.len(),
{
    if s.len() == 0 {
        0
    } else {
        whole_value(s.drop_last()) * 10 + digit_of(s.last())
    }
}

/// The raw value of the digits `s` behind the point, where the first of
/// them counts `place` raw units and each next one a tenth of the one
/// before; a digit whose place is below one raw unit counts nothing.
pub open spec fn fraction_value(s: Seq<char>, place: int) -> int
    decreases s.len(),
{
    if s.len() == 0 {
        0
    } else {
        digit_of(s[0]) * place + fraction_value(s.drop_first(), place / 10)
    }
}

/// How many characters the sign takes: one or none.
pub open spec fn sign_len(s: Seq<char>) -> int {
    if s.len() > 0 && (s[0] == '-' || s[0] == '+') {
        1
    } else {
        0
    }
}

/// The position of the first point at or behind `from`, or the length of
/// `s` where there is none.
pub open spec fn point_at(s: Seq<char>, from: int) -> int
    decreases s.len() - from,
{
    if from < 0 || from >= s.len() {
        s.len() as int
    } else if s[from] == '.' {
        from
    } else {
        point_at(s, from + 1)
    }
}

/// The digits before the point.
pub open spec fn whole_part(s: Seq<char>) -> Seq<char> {
    s.subrange(sign_len(s), point_at(s, sign_len(s)))
}

/// The digits behind the point; none where there is no point.
pub open spec fn fraction_part(s: Seq<char>) -> Seq<char> {
    let dot = point_at(s, sign_len(s));
    if dot < s.len() {
        s.subrange(dot + 1, s.len() as int)
    } else {
        Seq::<char>::empty()
    }
}

/// Whether `s` is a numeral.
pub open spec fn is_decimal(s: Seq<char>) -> bool {
    &&& all_digits(whole_part(s))
    &&& all_digits(fraction_part(s))
    &&& whole_part(s).len() + fraction_part(s).len() > 0
}

/// The raw value of the numeral `s`.
pub open spec fn decimal_raw(s: Seq<char>) -> int {
    clamp(
        signed(
            s.len() > 0 && s[0] == '-',
            whole_value(whole_part(s)) * SCALE + fraction_value(fraction_part(s), 100_000_000),
        ),
    )
}

/// The value of `s` where it is a numeral.
pub open spec fn parsed(s: Seq<char>) -> Option<Fixed> {
    if is_decimal(s) {
        Some(Fixed { raw: decimal_raw(s) as i64 })
    } else {
        None
    }
}

/// The first point at or behind `from` is neither before `from` nor
/// behind the end.
pub proof fn lemma_point_at_bounds(s: Seq<char>, from: int)
    requires
        0 <= from <= s.len(),
    ensures
        from <= point_at(s, from) <= s.len(),
        point_at(s, from) < s.len() ==> s[point_at(s, from)] == '.',
    decreases s.len() - from,
{
    if from < s.len() && s[from] != '.' {
        lemma_point_at_bounds(s, from + 1);
    }
}

/// Digits spell a number that is not negative, and one more digit makes
/// it no smaller.
pub proof fn lemma_whole_value_grows(s: Seq<char>)
    requires
        all_digits(s),
    ensures
        0 <= whole_value(s),
        s.len() > 0 ==> whole_value(s.drop_last()) <= whole_value(s),
    decreases s.len(),
{
    if s.len() > 0 {
        assert(is_digit(s.last()));
        assert forall|i: int| 0 <= i < s.drop_last().len() implies is_digit(
            #[trigger] s.drop_last()[i],
        ) by {
            assert(s.drop_last()[i] == s[i]);
        }
        lemma_whole_value_grows(s.drop_last());
    }
}

/// The digits behind the point are worth less than ten of the first
/// place.
pub proof fn lemma_fraction_value_bound(s: Seq<char>, place: int)
    requires
        all_digits(s),
        0 <= place,
    ensures
        0 <= fraction_value(s, place) <= 10 * place,
        place == 0 ==> fraction_value(s, place) == 0,
    decreases s.len(),
{
    if s.len() > 0 {
        assert(is_digit(s[0]));
        assert forall|i: int| 0 <= i < s.drop_first().len() implies is_digit(
            #[trigger] s.drop_first()[i],
        ) by {
            assert(s.drop_first()[i] == s[i + 1]);
        }
        lemma_fraction_value_bound(s.drop_first(), place / 10);
        assert(digit_of(s[0]) * place <= 9 * place) by (nonlinear_arith)
            requires
                0 <= digit_of(s[0]) <= 9,
                0 <= place,
        ;
        assert(0 <= digit_of(s[0]) * place) by (nonlinear_arith)
            requires
                0 <= digit_of(s[0]),
                0 <= place,
        ;
    }
}

fn digit(c: char) -> (r: Option<u8>)
    ensures
        r.is_some() == is_digit(c),
        r.is_some() ==> r.unwrap() == digit_of(c),
{
    if c >= '0' && c <= '9' {
        Some(((c as u32) - ('0' as u32)) as u8)
    } else {
        None
    }
}

/// Reads a numeral.
pub fn parse_decimal(text: &str) -> (r: Option<Fixed>)
    ensures
        r == parsed(text@),
{
    let n = text.unicode_len();
    let mut negative = false;
    let mut i: usize = 0;
    if n > 0 {
        let c = text.get_char(0);
        if c == '-' {
            negative = true;
            i = 1;
        } else if c == '+' {
            i = 1;
        }
    }
    let start = i;
    let mut whole: u128 = 0;
    proof {
        assert(text@.subrange(start as int, i as int) =~= Seq::<char>::empty());
        lemma_point_at_bounds(text@, start as int);
    }
    while i < n && text.get_char(i) != '.'
        invariant
            n == text@.len(),
            start == sign_len(text@),
            start <= i <= n,
            point_at(text@, start as int) == point_at(text@, i as int),
            all_digits(text@.subrange(start as int, i as int)),
            whole_value(text@.subrange(start as int, i as int)) < 100_000_000_000 ==> whole
                == whole_value(text@.subrange(start as int, i as int)),
            whole_value(text@.subrange(start as int, i as int)) >= 100_000_000_000 ==> whole
                >= 100_000_000_000,
            whole < 1_000_000_000_010,
        decreases n - i,
    {
        let c = text.get_char(i);
        let ghost before = text@.subrange(start as int, i as int);
        let ghost after = text@.subrange(start as int, i + 1);
        proof {
            lemma_point_at_bounds(text@, i + 1);
            assert(after.drop_last() =~= before);
            assert(after.last() == c);
        }
        match digit(c) {
            None => {
                proof {
                    let w = whole_part(text@);
                    assert(w[i - start] == c);
                }
                return None;
            },
            Some(d) => {
                proof {
                    assert forall|k: int| 0 <= k < after.len() implies is_digit(
                        #[trigger] after[k],
                    ) by {
                        if k < before.len() {
                            assert(after[k] == before[k]);
                        }
                    }
                    lemma_whole_value_grows(after);
                }
                if whole < 100_000_000_000 {
                    whole = whole * 10 + d as u128;
                }
            },
        }
        i = i + 1;
    }
    let dot = i;
    proof {
        lemma_point_at_bounds(text@, i as int);
        assert(point_at(text@, start as int) == dot);
        assert(whole_part(text@) =~= text@.subrange(start as int, dot as int));
    }
    let mut fraction: u128 = 0;
    let mut place: u128 = 100_000_000;
    let mut digits: usize = dot - start;
    if i < n {
        i = i + 1;
        let ghost all = fraction_part(text@);
        proof {
            assert(all =~= text@.subrange(dot + 1, n as int));
            assert(text@.subrange(i as int, n as int) =~= all);
            assert(all.subrange(0, 0) =~= Seq::<char>::empty());
        }
        while i < n
            invariant
                n == text@.len(),
                dot < i <= n,
                all == text@.subrange(dot + 1, n as int),
                all == fraction_part(text@),
                all_digits(all.subrange(0, i - dot - 1)),
                place <= 100_000_000,
                fraction + 10 * place <= 1_000_000_000,
                fraction + fraction_value(text@.subrange(i as int, n as int), place as int)
                    == fraction_value(all, 100_000_000),
                digits == (dot - start) + (i - dot - 1),
            decreases n - i,
        {
            let c = text.get_char(i);
            let ghost rest = text@.subrange(i as int, n as int);
            proof {
                assert(rest[0] == c);
                assert(rest.drop_first() =~= text@.subrange(i + 1, n as int));
                assert(all[i - dot - 1] == c);
            }
            match digit(c) {
                None => {
                    proof {
                        assert(!is_digit(all[i - dot - 1]));
                    }
                    return None;
                },
                Some(d) => {
                    proof {
                        let seen = all.subrange(0, i - dot);
                        assert forall|k: int| 0 <= k < seen.len() implies is_digit(
                            #[trigger] seen[k],
                        ) by {
                            if k < i - dot - 1 {
                                assert(seen[k] == all.subrange(0, i - dot - 1)[k]);
                            }
                        }
                        assert(d as u128 * place <= 9 * place) by (nonlinear_arith)
                            requires
                                d <= 9,
                        ;
                    }
                    fraction = fraction + d as u128 * place;
                    place = place / 10;
                    digits = digits + 1;
                },
            }
            i = i + 1;
        }
        proof {
            assert(all.subrange(0, all.len() as int) =~= all);
            assert(text@.subrange(n as int, n as int) =~= Seq::<char>::empty());
        }
    } else {
        proof {
            assert(fraction_part(text@) =~= Seq::<char>::empty());
        }
    }
    if digits == 0 {
        return None;
    }
    proof {
        let w = whole_value(whole_part(text@));
        let f = fraction_value(fraction_part(text@), 100_000_000);
        lemma_whole_value_grows(whole_part(text@));
        lemma_fraction_value_bound(fraction_part(text@), 100_000_000);
        assert(f == fraction);
        if w >= 100_000_000_000 {
            assert(w * SCALE + f >= 100_000_000_000 * 1_000_000_000) by (nonlinear_arith)
                requires
                    w >= 100_000_000_000,
                    f >= 0,
                    SCALE == 1_000_000_000,
            ;
        }
    }
    Some(Fixed::from_magnitude(negative, whole * 1_000_000_000 + fraction))
}

} // verus!
