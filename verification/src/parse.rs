//! Parsing of status-endpoint fields: a decimal string with a trailing
//! unit suffix becomes an exact centi-unit value. Parsing is total: a
//! malformed field degrades to zero, and a magnitude too large for `i64`
//! saturates.

use vstd::prelude::*;
use vstd::string::StrSliceExecFns;

verus! {

/// Is `c` a decimal digit?
pub open spec fn is_digit(c: char) -> bool {
    48 <= c as u32 <= 57
}

/// The value of a decimal digit character.
pub open spec fn digit_val(c: char) -> int {
    c as u32 - 48
}

/// The number denoted by a digit string, most significant digit first.
pub open spec fn digits_val(s: Seq<char>) -> int
    decreases s.len(),
{
    if s.len() == 0 {
        0
    } else {
        digits_val(s.drop_last()) * 10 + digit_val(s.last())
    }
}

/// Every character of `s` is a decimal digit.
pub open spec fn all_digits(s: Seq<char>) -> bool {
    forall|k: int| 0 <= k < s.len() ==> is_digit(#[trigger] s[k])
}

/// `s` without its trailing run of `c` characters.
pub open spec fn strip_suffix_chars(s: Seq<char>, c: char) -> Seq<char>
    decreases s.len(),
{
    if s.len() > 0 && s.last() == c {
        strip_suffix_chars(s.drop_last(), c)
    } else {
        s
    }
}

/// Position of the first `c` in `s` at or after `k`, or `s.len()` when
/// there is none.
pub open spec fn find_char_from(s: Seq<char>, c: char, k: int) -> int
    decreases s.len() - k,
{
    if k < 0 || k >= s.len() {
        s.len() as int
    } else if s[k] == c {
        k
    } else {
        find_char_from(s, c, k + 1)
    }
}

/// The hundredths contributed by a fraction-digit string: only the first
/// two places count, further places are truncated.
pub open spec fn frac_centi(s: Seq<char>) -> int {
    if s.len() == 0 {
        0
    } else if s.len() == 1 {
        digit_val(s[0]) * 10
    } else {
        digit_val(s[0]) * 10 + digit_val(s[1])
    }
}

/// The exact centi-unit value a decimal string denotes: an optional sign,
/// digits, an optional point and fraction digits, at least one digit or
/// fraction digit in all. Anything else denotes nothing.
pub open spec fn spec_parse_decimal(s: Seq<char>) -> Option<int> {
    let signed = s.len() > 0 && (s[0] == '-' || s[0] == '+');
    let neg = s.len() > 0 && s[0] == '-';
    let body = if signed {
        s.subrange(1, s.len() as int)
    } else {
        s
    };
    let dot = find_char_from(body, '.', 0);
    let ip = body.subrange(0, dot);
    let fp = if dot < body.len() {
        body.subrange(dot + 1, body.len() as int)
    } else {
        Seq::empty()
    };
    if all_digits(ip) && all_digits(fp) && ip.len() + fp.len() > 0 {
        let mag = digits_val(ip) * 100 + frac_centi(fp);
        Some(
            if neg {
                -mag
            } else {
                mag
            },
        )
    } else {
        None
    }
}

/// A parsed value squeezed into `i64`: magnitudes beyond what sixteen
/// whole digits and a two-place fraction can reach saturate.
pub open spec fn clamp_centi(v: int) -> int {
    if v > 9000000000000000099 {
        9223372036854775807
    } else if v < -9000000000000000099 {
        -9223372036854775807
    } else {
        v
    }
}

/// What a parsed field yields: the clamped value, or zero on failure.
pub open spec fn spec_parse_centi(s: Seq<char>) -> int {
    match spec_parse_decimal(s) {
        Option::Some(v) => clamp_centi(v),
        Option::None => 0,
    }
}

/// What a power field denotes: strip trailing `W`, parse, zero on failure.
pub open spec fn spec_parse_power(s: Seq<char>) -> int {
    spec_parse_centi(strip_suffix_chars(s, 'W'))
}

/// What a battery field denotes: strip trailing `%`, parse, zero on
/// failure.
pub open spec fn spec_parse_percentage(s: Seq<char>) -> int {
    spec_parse_centi(strip_suffix_chars(s, '%'))
}

proof fn lemma_strip_is_subrange(s: Seq<char>, c: char, end: int)
    requires
        0 <= end <= s.len(),
        forall|k: int| end <= k < s.len() ==> s[k] == c,
        end > 0 ==> s[end - 1] != c,
    ensures
        strip_suffix_chars(s, c) == s.subrange(0, end),
    decreases s.len(),
{
    if s.len() > 0 && s.last() == c {
        assert(end < s.len());
        let t = s.drop_last();
        assert(forall|k: int| end <= k < t.len() ==> t[k] == s[k]);
        lemma_strip_is_subrange(t, c, end);
        assert(t.subrange(0, end) =~= s.subrange(0, end));
    } else {
        assert(end == s.len());
        assert(s.subrange(0, end) =~= s);
    }
}

proof fn lemma_digits_val_nonneg(s: Seq<char>)
    requires
        all_digits(s),
    ensures
        digits_val(s) >= 0,
    decreases s.len(),
{
    if s.len() > 0 {
        assert(all_digits(s.drop_last()));
        lemma_digits_val_nonneg(s.drop_last());
    }
}

proof fn lemma_find_char_props(s: Seq<char>, c: char, k: int)
    requires
        0 <= k <= s.len(),
    ensures
        k <= find_char_from(s, c, k) <= s.len(),
        find_char_from(s, c, k) < s.len() ==> s[find_char_from(s, c, k)] == c,
        forall|j: int| k <= j < find_char_from(s, c, k) ==> s[j] != c,
    decreases s.len() - k,
{
    if k < s.len() && s[k] != c {
        lemma_find_char_props(s, c, k + 1);
    }
}

fn digit_at(s: &str, i: usize) -> (r: bool)
    requires
        i < s@.len(),
    ensures
        r == is_digit(s@[i as int]),
{
    let u = s.get_char(i) as u32;
    48 <= u && u <= 57
}

/// Where the trailing run of `c` characters starts.
fn strip_end(s: &str, c: char) -> (end: usize)
    ensures
        end <= s@.len(),
        strip_suffix_chars(s@, c) == s@.subrange(0, end as int),
{
    let n = s.unicode_len();
    let mut end = n;
    while end > 0 && s.get_char(end - 1) == c
        invariant
            end <= n,
            n == s@.len(),
            forall|k: int| end <= k < s@.len() ==> s@[k] == c,
        decreases end,
    {
        end -= 1;
    }
    proof {
        lemma_strip_is_subrange(s@, c, end as int);
    }
    end
}

/// Parse the first `end` characters of `s` as a signed decimal, in
/// saturated hundredths; zero when malformed.
fn parse_decimal_range(s: &str, end: usize) -> (r: i64)
    requires
        end <= s@.len(),
    ensures
        r as int == spec_parse_centi(s@.subrange(0, end as int)),
{
    let ghost whole = s@.subrange(0, end as int);
    if end == 0 {
        proof {
            assert(whole =~= Seq::<char>::empty());
        }
        return 0;
    }
    let first = s.get_char(0);
    let signed = first == '-' || first == '+';
    let neg = first == '-';
    let start: usize = if signed {
        1
    } else {
        0
    };
    let ghost body = if signed {
        whole.subrange(1, whole.len() as int)
    } else {
        whole
    };
    proof {
        assert(body =~= s@.subrange(start as int, end as int));
        assert(whole[0] == s@[0]);
        lemma_find_char_props(body, '.', 0);
    }
    let ghost dot = find_char_from(body, '.', 0);
    // Whole part: accumulate digits up to the point or the end; saturate
    // past sixteen digits.
    let mut i = start;
    let mut acc: i64 = 0;
    let mut big = false;
    while i < end && digit_at(s, i)
        invariant
            start <= i <= end <= s@.len(),
            all_digits(s@.subrange(start as int, i as int)),
            !big ==> acc == digits_val(s@.subrange(start as int, i as int)) && 0 <= acc
                <= 90000000000000000,
            big ==> digits_val(s@.subrange(start as int, i as int)) > 90000000000000000,
        decreases end - i,
    {
        let c = s.get_char(i);
        let d: i64 = (c as u32) as i64 - 48;
        proof {
            let pre = s@.subrange(start as int, i as int);
            let post = s@.subrange(start as int, i as int + 1);
            assert(post.drop_last() =~= pre);
            assert(post.last() == s@[i as int]);
            if big {
                lemma_digits_val_nonneg(pre);
            }
        }
        if !big {
            let next = acc * 10 + d;
            if next > 90000000000000000 {
                big = true;
            } else {
                acc = next;
            }
        }
        i += 1;
    }
    let ghost ip = s@.subrange(start as int, i as int);
    proof {
        // The first point, if any, is not before position `i`.
        if dot < i - start {
            assert(body[dot] == '.');
            assert(is_digit(ip[dot]));
            assert(false);
        }
    }
    // Fraction part: a single point, then digits; only the first two
    // places count.
    let mut frac: i64 = 0;
    let mut ok = i == end;
    if i < end {
        let c = s.get_char(i);
        if c == '.' {
            proof {
                assert(body[i - start] == '.');
                assert(dot == i - start);
            }
            let mut j = i + 1;
            let mut seen: usize = 0;
            ok = true;
            while j < end
                invariant
                    i + 1 <= j <= end <= s@.len(),
                    seen <= 2,
                    ok ==> all_digits(s@.subrange(i as int + 1, j as int)),
                    ok && seen == 0 ==> frac == 0 && j == i + 1,
                    ok && seen >= 1 ==> j >= i + 2 && frac == frac_centi(
                        s@.subrange(i as int + 1, j as int),
                    ),
                    ok && seen == 1 ==> j == i + 2,
                    ok && seen == 2 ==> j >= i + 3,
                    !ok ==> !all_digits(s@.subrange(i as int + 1, end as int)) && j == end,
                    0 <= frac <= 99,
                decreases end - j,
            {
                if !digit_at(s, j) {
                    ok = false;
                    proof {
                        let fp = s@.subrange(i as int + 1, end as int);
                        assert(!is_digit(fp[j as int - (i as int + 1)]));
                        assert(!all_digits(fp));
                    }
                    j = end;
                } else {
                    proof {
                        let pre = s@.subrange(i as int + 1, j as int);
                        let post = s@.subrange(i as int + 1, j as int + 1);
                        assert(post.drop_last() =~= pre);
                        assert(post.last() == s@[j as int]);
                        assert(forall|k: int| 0 <= k < pre.len() ==> post[k] == pre[k]);
                    }
                    let c2 = s.get_char(j);
                    let d: i64 = (c2 as u32) as i64 - 48;
                    if seen == 0 {
                        frac = d * 10;
                        seen = 1;
                    } else if seen == 1 {
                        frac = frac + d;
                        seen = 2;
                    }
                    proof {
                        let pre = s@.subrange(i as int + 1, j as int);
                        let post = s@.subrange(i as int + 1, j as int + 1);
                        assert(post.len() == pre.len() + 1);
                        if post.len() == 1 {
                            assert(post[0] == s@[j as int]);
                            assert(frac_centi(post) == digit_val(s@[j as int]) * 10);
                        } else if post.len() == 2 {
                            assert(post[1] == s@[j as int]);
                            assert(post[0] == pre[0]);
                            assert(frac_centi(post) == digit_val(post[0]) * 10 + digit_val(
                                s@[j as int],
                            ));
                        } else {
                            assert(post[0] == pre[0]);
                            assert(post[1] == pre[1]);
                            assert(frac_centi(post) == frac_centi(pre));
                        }
                        assert(frac == frac_centi(post));
                    }
                    j += 1;
                }
            }
        } else {
            ok = false;
        }
    }
    let ghost spec_ip = body.subrange(0, dot);
    let ghost spec_fp = if dot < body.len() {
        body.subrange(dot + 1, body.len() as int)
    } else {
        Seq::<char>::empty()
    };
    if !ok {
        proof {
            if i < end && s@[i as int] != '.' {
                assert(dot >= i - start);
                if dot == i - start {
                    assert(body[dot] == '.');
                    assert(false);
                }
                assert(!is_digit(spec_ip[i - start]));
                assert(!all_digits(spec_ip));
            } else {
                assert(dot == i - start);
                assert(spec_fp =~= s@.subrange(i as int + 1, end as int));
            }
        }
        return 0;
    }
    proof {
        if i == end {
            assert(dot == body.len());
            assert(spec_ip =~= body);
            assert(spec_ip =~= ip);
            assert(spec_fp =~= Seq::<char>::empty());
        } else {
            assert(s@[i as int] == '.');
            assert(dot == i - start);
            assert(spec_ip =~= ip);
            assert(spec_fp =~= s@.subrange(i as int + 1, end as int));
        }
        assert(all_digits(spec_ip));
        assert(all_digits(spec_fp));
    }
    if big {
        proof {
            lemma_digits_val_nonneg(ip);
            assert(digits_val(spec_ip) * 100 + frac_centi(spec_fp) > 9000000000000000099);
        }
        return if neg {
            -9223372036854775807
        } else {
            9223372036854775807
        };
    }
    proof {
        if i == end {
            assert(frac == 0);
            assert(frac_centi(spec_fp) == 0);
        } else {
            assert(frac == frac_centi(spec_fp));
        }
    }
    let mag = acc * 100 + frac;
    proof {
        if spec_ip.len() + spec_fp.len() == 0 {
            assert(acc == 0);
            assert(mag == 0);
        }
    }
    if neg {
        -mag
    } else {
        mag
    }
}

/// A power field's centi-watt value: trailing `W` characters stripped, the
/// rest parsed as a decimal, zero when malformed.
pub fn parse_power_value(s: &str) -> (r: i64)
    ensures
        r as int == spec_parse_power(s@),
{
    let end = strip_end(s, 'W');
    parse_decimal_range(s, end)
}

/// A battery field's centi-percent value: trailing `%` characters
/// stripped, the rest parsed as a decimal, zero when malformed.
pub fn parse_battery_percentage(s: &str) -> (r: i64)
    ensures
        r as int == spec_parse_percentage(s@),
{
    let end = strip_end(s, '%');
    parse_decimal_range(s, end)
}

} // verus!
