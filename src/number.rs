//! Formatting of native numbers as culture formatted strings: the canonical
//! rendering is split into sign, whole digits and fraction digits, the
//! fraction is padded or rounded half up digit by digit (carrying into the
//! whole part), and the whole part is grouped with the thousand separator.
use vstd::prelude::*;

use thousands::Separable;

use crate::errors::ConversionError;
use crate::pattern::{NumberCultureSettings, Separator, ThousandGrouping};
use crate::string_to_number::{clean_spec, remove_sep, replace_sep};
use crate::text::{all_digits, chars_of, digit, is_digit, push_chars, string_from_chars};
use crate::{Culture, culture_decimal, culture_grouping, culture_thousand};

verus! {

/// The length of the longest prefix of `s` made of digits.
pub open spec fn digit_run(s: Seq<char>) -> nat
    decreases s.len(),
{
    if s.len() > 0 && is_digit(s[0]) {
        1 + digit_run(s.drop_first())
    } else {
        0
    }
}

/// Splits a canonical rendering `[+-]?[0-9]+(\.[0-9]*)?` into whether it is
/// negative, its whole digits and its fraction digits.
pub open spec fn split_spec(s: Seq<char>) -> Result<(bool, Seq<char>, Seq<char>), ConversionError> {
    let signed = s.len() > 0 && (s[0] == '-' || s[0] == '+');
    let neg = s.len() > 0 && s[0] == '-';
    let body = if signed {
        s.drop_first()
    } else {
        s
    };
    let n = digit_run(body) as int;
    let rest = body.skip(n);
    if n == 0 {
        Err(ConversionError::NotCaptureFoundWhenConvertNumberToString)
    } else if rest.len() == 0 {
        Ok((neg, body.take(n), Seq::empty()))
    } else if rest[0] == '.' && all_digits(rest.drop_first()) {
        Ok((neg, body.take(n), rest.drop_first()))
    } else {
        Err(ConversionError::UnableToConvertNumberToString)
    }
}

/// The digit after `c`, for digits below nine.
pub open spec fn next_digit(c: char) -> char {
    if c == '0' {
        '1'
    } else if c == '1' {
        '2'
    } else if c == '2' {
        '3'
    } else if c == '3' {
        '4'
    } else if c == '4' {
        '5'
    } else if c == '5' {
        '6'
    } else if c == '6' {
        '7'
    } else if c == '7' {
        '8'
    } else {
        '9'
    }
}

/// Adds one to a digit string of fixed width; the flag tells that it
/// overflowed (the digits were all nines and are now all zeros).
pub open spec fn inc_digits(d: Seq<char>) -> (Seq<char>, bool)
    decreases d.len(),
{
    if d.len() == 0 {
        (Seq::empty(), true)
    } else if d.last() == '9' {
        let (p, c) = inc_digits(d.drop_last());
        (p.push('0'), c)
    } else {
        (d.drop_last().push(next_digit(d.last())), false)
    }
}

/// The digits of the whole number one above `w`.
pub open spec fn increment_whole(w: Seq<char>) -> Seq<char> {
    let (p, c) = inc_digits(w);
    if c {
        seq!['1'] + p
    } else {
        p
    }
}

/// `n` zeros.
pub open spec fn zeros(n: nat) -> Seq<char> {
    Seq::new(n, |i: int| '0')
}

/// The fraction digits kept by the option, and whether the rounding
/// carries into the whole part. Without a minimum the fraction is dropped,
/// rounding half up; a short fraction is padded with zeros; a long one is
/// rounded half up to the maximum.
pub open spec fn round_fraction(f: Seq<char>, min: u8, max: u8) -> (Seq<char>, bool) {
    if min == 0 {
        (Seq::empty(), f.len() > 0 && f[0] >= '5')
    } else if f.len() < min {
        (f + zeros((min - f.len()) as nat), false)
    } else if f.len() > max {
        if f[max as int] >= '5' {
            inc_digits(f.take(max as int))
        } else {
            (f.take(max as int), false)
        }
    } else {
        (f, false)
    }
}

/// The digits with `sep` between groups whose sizes are read from the
/// right in `groups`, the last size repeating.
pub open spec fn separate_spec(d: Seq<char>, sep: Seq<char>, groups: Seq<u8>) -> Seq<char>
    decreases d.len(),
{
    if groups.len() == 0 || groups[0] == 0 || d.len() <= groups[0] {
        d
    } else {
        let cut = d.len() - groups[0];
        let rest = if groups.len() > 1 {
            groups.drop_first()
        } else {
            groups
        };
        separate_spec(d.take(cut), sep, rest) + sep + d.skip(cut)
    }
}

/// The whole digits grouped by the settings.
pub open spec fn group_whole(w: Seq<char>, th: char, g: ThousandGrouping) -> Seq<char> {
    separate_spec(w, seq![th], g.sizes())
}

/// The formatted text of a split number.
pub open spec fn format_parts_spec(
    neg: bool,
    w: Seq<char>,
    f: Seq<char>,
    th: char,
    de: char,
    g: ThousandGrouping,
    min: u8,
    max: u8,
) -> Seq<char> {
    let (rf, carry) = round_fraction(f, min, max);
    let w2 = if carry {
        increment_whole(w)
    } else {
        w
    };
    (if neg {
        seq!['-']
    } else {
        Seq::empty()
    }) + group_whole(w2, th, g) + if rf.len() > 0 {
        seq![de] + rf
    } else {
        Seq::empty()
    }
}

/// The formatted text of a canonical rendering, or why it cannot be split.
pub open spec fn format_spec(
    s: Seq<char>,
    th: char,
    de: char,
    g: ThousandGrouping,
    min: u8,
    max: u8,
) -> Result<Seq<char>, ConversionError> {
    match split_spec(s) {
        Ok((neg, w, f)) => Ok(format_parts_spec(neg, w, f, th, de, g, min, max)),
        Err(e) => Err(e),
    }
}

/// The number of fraction digits a format specifier `N<d>` asks for.
pub open spec fn nb_digits_spec(format: Seq<char>) -> Result<u8, ConversionError> {
    if format.len() == 2 && format[0] == 'N' && is_digit(format[1]) {
        Ok((format[1] as u32 - '0' as u32) as u8)
    } else {
        Err(ConversionError::UnableToDisplayFormat)
    }
}

/// The canonical text of a split number after rounding: sign, whole digits
/// after any carry, then `.` and the kept fraction digits, if any.
pub open spec fn rounded_canonical(neg: bool, w: Seq<char>, f: Seq<char>, min: u8, max: u8) -> Seq<
    char,
> {
    let (rf, carry) = round_fraction(f, min, max);
    let w2 = if carry {
        increment_whole(w)
    } else {
        w
    };
    (if neg {
        seq!['-']
    } else {
        Seq::empty()
    }) + w2 + if rf.len() > 0 {
        seq!['.'] + rf
    } else {
        Seq::empty()
    }
}

/// Separators that a formatted text can be read back with: neither stands
/// for a digit or a minus sign, and the thousand separator does not stand
/// for the decimal one.
pub open spec fn readable_back(th: Separator, de: Separator) -> bool {
    &&& forall|c: char| #[trigger] is_digit(c) ==> !th.accepts(c) && !de.accepts(c)
    &&& !th.accepts('-')
    &&& !de.accepts('-')
    &&& !th.accepts(de.char_of())
}

proof fn lemma_accepts_own(sep: Separator)
    ensures
        sep.accepts(sep.char_of()),
{
}

proof fn lemma_remove_concat(a: Seq<char>, b: Seq<char>, sep: Separator)
    ensures
        remove_sep(a + b, sep) == remove_sep(a, sep) + remove_sep(b, sep),
    decreases b.len(),
{
    if b.len() == 0 {
        assert(a + b =~= a);
        assert(remove_sep(a, sep) + remove_sep(b, sep) =~= remove_sep(a, sep));
    } else {
        assert((a + b).drop_last() =~= a + b.drop_last());
        lemma_remove_concat(a, b.drop_last(), sep);
        assert((a + b).last() == b.last());
        let tail = if sep.accepts(b.last()) {
            Seq::<char>::empty()
        } else {
            seq![b.last()]
        };
        assert(remove_sep(a, sep) + remove_sep(b.drop_last(), sep) + tail =~= remove_sep(a, sep)
            + (remove_sep(b.drop_last(), sep) + tail));
    }
}

proof fn lemma_remove_kept(s: Seq<char>, sep: Separator)
    requires
        forall|i: int| 0 <= i < s.len() ==> !sep.accepts(#[trigger] s[i]),
    ensures
        remove_sep(s, sep) == s,
    decreases s.len(),
{
    if s.len() > 0 {
        assert forall|i: int| 0 <= i < s.drop_last().len() implies !sep.accepts(
            #[trigger] s.drop_last()[i],
        ) by {
            assert(s.drop_last()[i] == s[i]);
        }
        lemma_remove_kept(s.drop_last(), sep);
        assert(!sep.accepts(s[s.len() - 1]));
        assert(s.drop_last() + seq![s.last()] =~= s);
    }
}

/// Removing the thousand separator from grouped digits gives the digits
/// back.
proof fn lemma_ungroup(d: Seq<char>, th: Separator, groups: Seq<u8>)
    requires
        all_digits(d),
        forall|c: char| #[trigger] is_digit(c) ==> !th.accepts(c),
    ensures
        remove_sep(separate_spec(d, seq![th.char_of()], groups), th) == d,
    decreases d.len(),
{
    assert forall|i: int| 0 <= i < d.len() implies !th.accepts(#[trigger] d[i]) by {
        assert(is_digit(d[i]));
    }
    if groups.len() == 0 || groups[0] == 0 || d.len() <= groups[0] {
        lemma_remove_kept(d, th);
    } else {
        let cut = d.len() - groups[0];
        let rest = if groups.len() > 1 {
            groups.drop_first()
        } else {
            groups
        };
        let a = d.take(cut);
        let b = d.skip(cut);
        assert forall|i: int| 0 <= i < a.len() implies is_digit(#[trigger] a[i]) by {
            assert(a[i] == d[i]);
        }
        assert forall|i: int| 0 <= i < b.len() implies !th.accepts(#[trigger] b[i]) by {
            assert(b[i] == d[i + cut]);
            assert(is_digit(d[i + cut]));
        }
        lemma_ungroup(a, th, rest);
        let sep = seq![th.char_of()];
        lemma_accepts_own(th);
        lemma_remove_concat(separate_spec(a, sep, rest) + sep, b, th);
        lemma_remove_concat(separate_spec(a, sep, rest), sep, th);
        assert(remove_sep(sep, th) =~= Seq::<char>::empty()) by {
            assert(sep.drop_last() =~= Seq::<char>::empty());
            assert(remove_sep(sep.drop_last(), th) =~= Seq::<char>::empty());
            assert(sep.last() == th.char_of());
        }
        lemma_remove_kept(b, th);
        assert(a + b =~= d);
        assert(remove_sep(separate_spec(a, sep, rest), th) + Seq::<char>::empty() + b =~= a + b);
    }
}

/// Reading back a formatted number: cleaning the formatted text with the
/// same settings gives the canonical text of the number rounded as the
/// format asked, whatever the grouping.
pub proof fn lemma_format_round_trip(
    s: Seq<char>,
    settings: NumberCultureSettings,
    min: u8,
    max: u8,
)
    requires
        split_spec(s) is Ok,
        readable_back(settings.thousand(), settings.decimal()),
    ensures
        ({
            let (neg, w, f) = split_spec(s)->Ok_0;
            &&& format_spec(
                s,
                settings.thousand().char_of(),
                settings.decimal().char_of(),
                settings.grouping(),
                min,
                max,
            ) is Ok
            &&& clean_spec(
                format_spec(
                    s,
                    settings.thousand().char_of(),
                    settings.decimal().char_of(),
                    settings.grouping(),
                    min,
                    max,
                )->Ok_0,
                Some(settings),
            ) == rounded_canonical(neg, w, f, min, max)
        }),
{
    let th = settings.thousand();
    let de = settings.decimal();
    let (neg, w, f) = split_spec(s)->Ok_0;
    lemma_split_digits(s);
    lemma_round_fraction(f, min, max, w);
    let (rf, carry) = round_fraction(f, min, max);
    let w2 = if carry {
        increment_whole(w)
    } else {
        w
    };
    let sign = if neg {
        seq!['-']
    } else {
        Seq::<char>::empty()
    };
    let grouped = group_whole(w2, th.char_of(), settings.grouping());
    let tail = if rf.len() > 0 {
        seq![de.char_of()] + rf
    } else {
        Seq::<char>::empty()
    };
    let out = sign + grouped + tail;
    assert(format_parts_spec(
        neg,
        w,
        f,
        th.char_of(),
        de.char_of(),
        settings.grouping(),
        min,
        max,
    ) == out);
    // the thousand separator only removes what grouping inserted
    lemma_ungroup(w2, th, settings.grouping().sizes());
    lemma_remove_concat(sign + grouped, tail, th);
    lemma_remove_concat(sign, grouped, th);
    assert forall|i: int| 0 <= i < sign.len() implies !th.accepts(#[trigger] sign[i]) by {}
    lemma_remove_kept(sign, th);
    assert forall|i: int| 0 <= i < tail.len() implies !th.accepts(#[trigger] tail[i]) by {
        if i > 0 {
            assert(tail[i] == rf[i - 1]);
            assert(is_digit(rf[i - 1]));
        }
    }
    lemma_remove_kept(tail, th);
    let stripped = sign + w2 + tail;
    assert(remove_sep(out, th) == stripped);
    // the decimal separator becomes the decimal point, nothing else changes
    lemma_accepts_own(de);
    let canon = rounded_canonical(neg, w, f, min, max);
    assert(canon == sign + w2 + if rf.len() > 0 {
        seq!['.'] + rf
    } else {
        Seq::<char>::empty()
    });
    assert(stripped.len() == canon.len());
    assert forall|i: int| 0 <= i < stripped.len() implies #[trigger] replace_sep(
        stripped,
        de,
        '.',
    )[i] == canon[i] by {
        if i < sign.len() {
        } else if i < sign.len() + w2.len() {
            assert(stripped[i] == w2[i - sign.len()]);
            assert(canon[i] == w2[i - sign.len()]);
            assert(is_digit(w2[i - sign.len()]));
        } else if i == sign.len() + w2.len() {
        } else {
            let k = i - sign.len() - w2.len() - 1;
            assert(stripped[i] == rf[k]);
            assert(canon[i] == rf[k]);
            assert(is_digit(rf[k]));
        }
    }
    assert(replace_sep(stripped, de, '.') =~= canon);
}

/// The separators of every known culture can be read back.
pub proof fn lemma_cultures_read_back(c: Culture)
    ensures
        readable_back(culture_thousand(c), culture_decimal(c)),
{
    assert forall|x: char| #[trigger] is_digit(x) implies !culture_thousand(c).accepts(x)
        && !culture_decimal(c).accepts(x) by {
        assert(x as u32 >= 0x30 && x as u32 <= 0x39);
    }
}

/// Reading back a number formatted for a culture gives the canonical text
/// of the number rounded as the format asked.
pub proof fn lemma_culture_round_trip(
    s: Seq<char>,
    c: Culture,
    settings: NumberCultureSettings,
    min: u8,
    max: u8,
)
    requires
        split_spec(s) is Ok,
        settings.thousand() == culture_thousand(c),
        settings.decimal() == culture_decimal(c),
        settings.grouping() == culture_grouping(c),
    ensures
        ({
            let (neg, w, f) = split_spec(s)->Ok_0;
            let formatted = format_spec(
                s,
                culture_thousand(c).char_of(),
                culture_decimal(c).char_of(),
                culture_grouping(c),
                min,
                max,
            );
            &&& formatted is Ok
            &&& clean_spec(formatted->Ok_0, Some(settings)) == rounded_canonical(neg, w, f, min, max)
        }),
{
    lemma_cultures_read_back(c);
    lemma_format_round_trip(s, settings, min, max);
}

/// The whole and fraction digits of a split are digits.
proof fn lemma_split_digits(s: Seq<char>)
    requires
        split_spec(s) is Ok,
    ensures
        all_digits(split_spec(s)->Ok_0.1),
        all_digits(split_spec(s)->Ok_0.2),
{
    let signed = s.len() > 0 && (s[0] == '-' || s[0] == '+');
    let body = if signed {
        s.drop_first()
    } else {
        s
    };
    lemma_digit_run_digits(body);
    let n = digit_run(body) as int;
    assert forall|m: int| 0 <= m < body.take(n).len() implies is_digit(#[trigger] body.take(n)[m]) by {
        assert(body.take(n)[m] == body[m]);
    }
}

proof fn lemma_digit_run_digits(b: Seq<char>)
    ensures
        digit_run(b) <= b.len(),
        forall|m: int| 0 <= m < digit_run(b) ==> is_digit(#[trigger] b[m]),
    decreases b.len(),
{
    if b.len() > 0 && is_digit(b[0]) {
        lemma_digit_run_digits(b.drop_first());
        assert forall|m: int| 0 <= m < digit_run(b) implies is_digit(#[trigger] b[m]) by {
            if m > 0 {
                assert(b[m] == b.drop_first()[m - 1]);
            }
        }
    }
}

proof fn lemma_digit_run(b: Seq<char>, n: int)
    requires
        0 <= n <= b.len(),
        forall|m: int| 0 <= m < n ==> is_digit(#[trigger] b[m]),
        n == b.len() || !is_digit(b[n]),
    ensures
        digit_run(b) == n,
    decreases n,
{
    if n > 0 {
        assert forall|m: int| 0 <= m < n - 1 implies is_digit(#[trigger] b.drop_first()[m]) by {
            assert(b.drop_first()[m] == b[m + 1]);
        }
        if n < b.len() {
            assert(b.drop_first()[n - 1] == b[n]);
        }
        lemma_digit_run(b.drop_first(), n - 1);
    }
}

proof fn lemma_inc_digits(d: Seq<char>)
    requires
        all_digits(d),
    ensures
        all_digits(inc_digits(d).0),
        inc_digits(d).0.len() == d.len(),
    decreases d.len(),
{
    if d.len() > 0 {
        lemma_inc_digits(d.drop_last());
        let p = inc_digits(d.drop_last()).0;
        if d.last() == '9' {
            assert forall|i: int| 0 <= i < p.push('0').len() implies is_digit(
                #[trigger] p.push('0')[i],
            ) by {
                if i < p.len() {
                    assert(p.push('0')[i] == p[i]);
                }
            }
        } else {
            assert(is_digit(d.last()));
            let q = d.drop_last();
            assert forall|i: int| 0 <= i < q.push(next_digit(d.last())).len() implies is_digit(
                #[trigger] q.push(next_digit(d.last()))[i],
            ) by {
                if i < q.len() {
                    assert(q.push(next_digit(d.last()))[i] == d[i]);
                }
            }
        }
    }
}

proof fn lemma_round_fraction(f: Seq<char>, min: u8, max: u8, w: Seq<char>)
    requires
        all_digits(f),
        all_digits(w),
    ensures
        all_digits(round_fraction(f, min, max).0),
        all_digits(increment_whole(w)),
{
    lemma_inc_digits(w);
    let p = inc_digits(w).0;
    assert forall|i: int| 0 <= i < (seq!['1'] + p).len() implies is_digit(
        #[trigger] (seq!['1'] + p)[i],
    ) by {
        if i > 0 {
            assert((seq!['1'] + p)[i] == p[i - 1]);
        }
    }
    if min != 0 && f.len() < min {
        let z = zeros((min - f.len()) as nat);
        assert forall|i: int| 0 <= i < (f + z).len() implies is_digit(#[trigger] (f + z)[i]) by {
            if i >= f.len() {
                assert((f + z)[i] == z[i - f.len()]);
            }
        }
    } else if min != 0 && f.len() > max {
        let t = f.take(max as int);
        assert forall|i: int| 0 <= i < t.len() implies is_digit(#[trigger] t[i]) by {
            assert(t[i] == f[i]);
        }
        lemma_inc_digits(t);
    }
}

/// Relies on `thousands::Separable::separate_by_policy` for `str`: on a text
/// made of ASCII digits only, `separator` goes between groups whose sizes are
/// read from the right in `groups`, the last size repeating.
#[verifier::external_body]
fn separate_digits(digits: &str, separator: &str, groups: &[u8]) -> (r: String)
    requires
        all_digits(digits@),
        forall|i: int| 0 <= i < groups@.len() ==> #[trigger] groups@[i] > 0,
    ensures
        r@ == separate_spec(digits@, separator@, groups@),
{
    digits.separate_by_policy(
        thousands::SeparatorPolicy {
            separator,
            groups,
            digits: thousands::digits::ASCII_DECIMAL,
        },
    )
}

/// The first `n` characters of `d`.
fn prefix(d: &Vec<char>, n: usize) -> (r: Vec<char>)
    requires
        n <= d@.len(),
    ensures
        r@ == d@.take(n as int),
{
    let mut r: Vec<char> = Vec::new();
    let mut i: usize = 0;
    while i < n
        invariant
            i <= n <= d@.len(),
            r@ == d@.take(i as int),
        decreases n - i,
    {
        r.push(d[i]);
        assert(r@ =~= d@.take(i + 1));
        i = i + 1;
    }
    r
}

/// The digit after `c`, for digits below nine.
fn next_digit_of(c: char) -> (r: char)
    ensures
        r == next_digit(c),
{
    if c == '0' {
        '1'
    } else if c == '1' {
        '2'
    } else if c == '2' {
        '3'
    } else if c == '3' {
        '4'
    } else if c == '4' {
        '5'
    } else if c == '5' {
        '6'
    } else if c == '6' {
        '7'
    } else if c == '7' {
        '8'
    } else {
        '9'
    }
}

/// Adds one to the first `n` digits of `d`.
fn increment_prefix(d: &Vec<char>, n: usize) -> (r: (Vec<char>, bool))
    requires
        n <= d@.len(),
    ensures
        (r.0@, r.1) == inc_digits(d@.take(n as int)),
    decreases n,
{
    if n == 0 {
        assert(d@.take(0) =~= Seq::<char>::empty());
        (Vec::new(), true)
    } else {
        assert(d@.take(n as int).drop_last() =~= d@.take(n - 1));
        if d[n - 1] == '9' {
            let (mut p, c) = increment_prefix(d, n - 1);
            p.push('0');
            (p, c)
        } else {
            let mut p = prefix(d, n - 1);
            p.push(next_digit_of(d[n - 1]));
            (p, false)
        }
    }
}

/// The digits of the whole number one above `w`.
fn increment_whole_digits(w: &Vec<char>) -> (r: Vec<char>)
    ensures
        r@ == increment_whole(w@),
{
    assert(w@.take(w@.len() as int) =~= w@);
    let (p, c) = increment_prefix(w, w.len());
    if c {
        let mut r = vec!['1'];
        push_chars(&mut r, &p);
        r
    } else {
        p
    }
}

/// Splits a canonical rendering into its sign, whole digits and fraction
/// digits.
fn split_chars(s: &Vec<char>) -> (r: Result<(bool, Vec<char>, Vec<char>), ConversionError>)
    ensures
        match split_spec(s@) {
            Ok((neg, w, f)) => r is Ok && r->Ok_0.0 == neg && r->Ok_0.1@ == w && r->Ok_0.2@ == f,
            Err(e) => r == Err::<(bool, Vec<char>, Vec<char>), ConversionError>(e),
        },
        r is Ok ==> all_digits(r->Ok_0.1@) && all_digits(r->Ok_0.2@),
{
    let len = s.len();
    let signed = len > 0 && (s[0] == '-' || s[0] == '+');
    let neg = len > 0 && s[0] == '-';
    let start: usize = if signed {
        1
    } else {
        0
    };
    let ghost body = if signed {
        s@.drop_first()
    } else {
        s@
    };
    assert(body =~= s@.skip(start as int));
    let mut j: usize = start;
    while j < len && digit(s[j])
        invariant
            start <= j <= len == s@.len(),
            body == s@.skip(start as int),
            forall|m: int| start <= m < j ==> is_digit(#[trigger] s@[m]),
        decreases len - j,
    {
        j = j + 1;
    }
    proof {
        assert forall|m: int| 0 <= m < j - start implies is_digit(#[trigger] body[m]) by {
            assert(body[m] == s@[m + start]);
        }
        if j < len {
            assert(body[j - start] == s@[j as int]);
        }
        lemma_digit_run(body, j - start);
    }
    if j == start {
        return Err(ConversionError::NotCaptureFoundWhenConvertNumberToString);
    }
    let mut whole: Vec<char> = Vec::new();
    let mut i: usize = start;
    while i < j
        invariant
            start <= i <= j <= len == s@.len(),
            whole@ == s@.subrange(start as int, i as int),
        decreases j - i,
    {
        whole.push(s[i]);
        assert(whole@ =~= s@.subrange(start as int, i + 1));
        i = i + 1;
    }
    assert(whole@ =~= body.take(j - start));
    assert forall|m: int| 0 <= m < whole@.len() implies is_digit(#[trigger] whole@[m]) by {
        assert(whole@[m] == s@[m + start]);
    }
    let ghost rest = body.skip(j - start);
    assert(rest =~= s@.skip(j as int));
    if j == len {
        let empty: Vec<char> = Vec::new();
        assert(all_digits(empty@));
        return Ok((neg, whole, empty));
    }
    if s[j] != '.' {
        return Err(ConversionError::UnableToConvertNumberToString);
    }
    let mut frac: Vec<char> = Vec::new();
    let mut k: usize = j + 1;
    while k < len
        invariant
            j < k <= len == s@.len(),
            rest == s@.skip(j as int),
            s@[j as int] == '.',
            j > start,
            body == (if s@.len() > 0 && (s@[0] == '-' || s@[0] == '+') {
                s@.drop_first()
            } else {
                s@
            }),
            digit_run(body) == j - start,
            rest == body.skip(j - start),
            frac@ == s@.subrange(j + 1, k as int),
            all_digits(frac@),
            all_digits(whole@),
        decreases len - k,
    {
        if !digit(s[k]) {
            assert(rest[k - j] == s@[k as int]);
            assert(rest.drop_first()[k - j - 1] == s@[k as int]);
            assert(!all_digits(rest.drop_first()));
            assert(rest[0] == '.');
            return Err(ConversionError::UnableToConvertNumberToString);
        }
        frac.push(s[k]);
        assert(frac@ =~= s@.subrange(j + 1, k + 1));
        k = k + 1;
    }
    assert(frac@ =~= rest.drop_first());
    Ok((neg, whole, frac))
}

/// Rounds or pads fraction digits as the option asks; the flag tells that
/// the rounding carries into the whole part.
fn round_fraction_digits(f: &Vec<char>, min: u8, max: u8) -> (r: (Vec<char>, bool))
    ensures
        (r.0@, r.1) == round_fraction(f@, min, max),
{
    if min == 0 {
        (Vec::new(), f.len() > 0 && f[0] >= '5')
    } else if f.len() < min as usize {
        let mut r = prefix(f, f.len());
        assert(f@.take(f@.len() as int) =~= f@);
        while r.len() < min as usize
            invariant
                f@.len() <= r@.len() <= min,
                r@ == f@ + zeros((r@.len() - f@.len()) as nat),
            decreases min - r@.len(),
        {
            r.push('0');
            assert(r@ =~= f@ + zeros((r@.len() - f@.len()) as nat));
        }
        (r, false)
    } else if f.len() > max as usize {
        if f[max as usize] >= '5' {
            increment_prefix(f, max as usize)
        } else {
            (prefix(f, max as usize), false)
        }
    } else {
        assert(f@.take(f@.len() as int) =~= f@);
        (prefix(f, f.len()), false)
    }
}

/// Formats a split number: rounds the fraction, carries into the whole
/// part, groups the whole part and joins the pieces.
fn format_parts(
    neg: bool,
    whole: &Vec<char>,
    frac: &Vec<char>,
    settings: &NumberCultureSettings,
    min: u8,
    max: u8,
) -> (r: String)
    requires
        all_digits(whole@),
        all_digits(frac@),
    ensures
        r@ == format_parts_spec(
            neg,
            whole@,
            frac@,
            settings.thousand().char_of(),
            settings.decimal().char_of(),
            settings.grouping(),
            min,
            max,
        ),
{
    proof {
        lemma_round_fraction(frac@, min, max, whole@);
    }
    let (rf, carry) = round_fraction_digits(frac, min, max);
    let w2 = if carry {
        increment_whole_digits(whole)
    } else {
        prefix(whole, whole.len())
    };
    assert(whole@.take(whole@.len() as int) =~= whole@);
    let groups = settings.thousand_grouping().group_sizes();
    let sep = settings.into_thousand_separator_string();
    let w2s = string_from_chars(&w2);
    let grouped = separate_digits(w2s.as_str(), sep.as_str(), groups.as_slice());
    let mut out: Vec<char> = Vec::new();
    if neg {
        out.push('-');
    }
    let grouped_chars = chars_of(grouped.as_str());
    push_chars(&mut out, &grouped_chars);
    if rf.len() > 0 {
        out.push(settings.decimal_separator().to_char());
        push_chars(&mut out, &rf);
    }
    let ghost sign = if neg {
        seq!['-']
    } else {
        Seq::<char>::empty()
    };
    let ghost tail = if rf@.len() > 0 {
        seq![settings.decimal().char_of()] + rf@
    } else {
        Seq::<char>::empty()
    };
    assert(out@ =~= sign + grouped@ + tail);
    string_from_chars(&out)
}

/// The fraction digits and carry that the option gives, or nothing when
/// the option drops the fraction.
pub fn apply_decimal_format(decimal_part: &str, options: &FormatOption) -> (r: Option<
    (String, bool),
>)
    ensures
        options.min_digits() == 0 ==> r is None,
        options.min_digits() != 0 ==> r is Some && (r->Some_0.0@, r->Some_0.1) == round_fraction(
            decimal_part@,
            options.min_digits(),
            options.max_digits(),
        ),
{
    if options.minimum_fraction_digit == 0 {
        return None;
    }
    let f = chars_of(decimal_part);
    let (rf, carry) = round_fraction_digits(
        &f,
        options.minimum_fraction_digit,
        options.maximum_fraction_digit,
    );
    Some((string_from_chars(&rf), carry))
}

/// Splits a canonical rendering into its sign (`+` or `-`), its whole
/// digits and its fraction digits, if any.
pub fn split_number(text: &str) -> (r: Result<(String, String, Option<String>), ConversionError>)
    ensures
        split_result(text@, r),
{
    let chars = chars_of(text);
    let (neg, whole, frac) = split_chars(&chars)?;
    let sign = if neg {
        vec!['-']
    } else {
        vec!['+']
    };
    assert(sign@ =~= if neg {
        seq!['-']
    } else {
        seq!['+']
    });
    let frac_text = if frac.len() == 0 {
        None
    } else {
        Some(string_from_chars(&frac))
    };
    Ok((string_from_chars(&sign), string_from_chars(&whole), frac_text))
}

/// What splitting `text` gives: the sign (`+` or `-`), the whole digits and
/// the fraction digits, if any, or the error of `split_spec`.
pub open spec fn split_result(
    text: Seq<char>,
    r: Result<(String, String, Option<String>), ConversionError>,
) -> bool {
    match split_spec(text) {
        Ok((neg, w, f)) => r is Ok && r->Ok_0.0@ == (if neg {
            seq!['-']
        } else {
            seq!['+']
        }) && r->Ok_0.1@ == w && (r->Ok_0.2 is None <==> f.len() == 0) && (r->Ok_0.2 is Some
            ==> r->Ok_0.2->Some_0@ == f),
        Err(e) => r == Err::<(String, String, Option<String>), ConversionError>(e),
    }
}

/// What formatting `text` gives: the text of `format_spec`, or its error.
pub open spec fn format_result(
    text: Seq<char>,
    th: char,
    de: char,
    g: ThousandGrouping,
    min: u8,
    max: u8,
    r: Result<String, ConversionError>,
) -> bool {
    match format_spec(text, th, de, g, min, max) {
        Ok(t) => r is Ok && r->Ok_0@ == t,
        Err(e) => r == Err::<String, ConversionError>(e),
    }
}

/// Formats a canonical rendering `[+-]?[0-9]+(\.[0-9]*)?` with the
/// separators and grouping of `settings`, keeping the fraction digits that
/// `option` asks for.
pub fn format_canonical(text: &str, settings: &NumberCultureSettings, option: &FormatOption) -> (r:
    Result<String, ConversionError>)
    ensures
        match format_spec(
            text@,
            settings.thousand().char_of(),
            settings.decimal().char_of(),
            settings.grouping(),
            option.min_digits(),
            option.max_digits(),
        ) {
            Ok(t) => r is Ok && r->Ok_0@ == t,
            Err(e) => r == Err::<String, ConversionError>(e),
        },
{
    let chars = chars_of(text);
    let (neg, whole, frac) = split_chars(&chars)?;
    Ok(
        format_parts(
            neg,
            &whole,
            &frac,
            settings,
            option.minimum_fraction_digit,
            option.maximum_fraction_digit,
        ),
    )
}

/// Formats a canonical rendering with a format specifier `N0` to `N9`,
/// which asks for that many fraction digits exactly.
pub fn format_canonical_with(text: &str, format: &str, settings: &NumberCultureSettings) -> (r:
    Result<String, ConversionError>)
    ensures
        nb_digits_spec(format@) is Err ==> r == Err::<String, ConversionError>(
            ConversionError::UnableToDisplayFormat,
        ),
        nb_digits_spec(format@) is Ok ==> {
            let d = nb_digits_spec(format@)->Ok_0;
            match format_spec(
                text@,
                settings.thousand().char_of(),
                settings.decimal().char_of(),
                settings.grouping(),
                d,
                d,
            ) {
                Ok(t) => r is Ok && r->Ok_0@ == t,
                Err(e) => r == Err::<String, ConversionError>(e),
            }
        },
{
    let d = set_nb_digits(format)?;
    format_canonical(text, settings, &FormatOption::new(d, d))
}

/// How many fraction digits to display.
#[derive(Debug, Clone, Copy)]
pub struct FormatOption {
    minimum_fraction_digit: u8,
    maximum_fraction_digit: u8,
}

impl FormatOption {
    pub closed spec fn min_digits(self) -> u8 {
        self.minimum_fraction_digit
    }

    pub closed spec fn max_digits(self) -> u8 {
        self.maximum_fraction_digit
    }

    pub fn new(minimum_fraction_digit: u8, maximum_fraction_digit: u8) -> (r: FormatOption)
        ensures
            r.min_digits() == minimum_fraction_digit,
            r.max_digits() == maximum_fraction_digit,
    {
        FormatOption { minimum_fraction_digit, maximum_fraction_digit }
    }
}

/// Two fraction digits by default.
impl Default for FormatOption {
    fn default() -> (r: FormatOption)
        ensures
            r.min_digits() == 2,
            r.max_digits() == 2,
    {
        FormatOption { minimum_fraction_digit: 2, maximum_fraction_digit: 2 }
    }
}

/// A native number to format.
#[derive(Debug, Clone, Copy, PartialEq)]
pub struct Number<T> {
    pub num: T,
}

impl<T: std::fmt::Display> Number<T> {
    pub fn new(num: T) -> (r: Number<T>)
        ensures
            r.num == num,
    {
        Number { num }
    }

    /// Splits the `Display` rendering of the number into its sign, whole
    /// digits and fraction digits.
    pub fn regex_read_number(&self) -> (r: Result<(String, String, Option<String>), ConversionError>)
        ensures
            exists|s: String|
                #[trigger] vstd::string::to_string_from_display_ensures::<T>(&self.num, s)
                    && split_result(s@, r),
    {
        let rendered = self.num.to_string();
        let r = split_number(rendered.as_str());
        assert(vstd::string::to_string_from_display_ensures::<T>(&self.num, rendered) && split_result(
            rendered@,
            r,
        ));
        r
    }

    /// Formats the `Display` rendering of the number with the separators
    /// of `culture`.
    pub fn to_format_options(&self, culture: &Culture, format: FormatOption) -> (r: Result<
        String,
        ConversionError,
    >)
        ensures
            exists|s: String|
                #[trigger] vstd::string::to_string_from_display_ensures::<T>(&self.num, s)
                    && format_result(
                    s@,
                    culture_thousand(*culture).char_of(),
                    culture_decimal(*culture).char_of(),
                    culture_grouping(*culture),
                    format.min_digits(),
                    format.max_digits(),
                    r,
                ),
    {
        self.to_format_settings(&culture.settings(), format)
    }

    /// Formats the `Display` rendering of the number with the given
    /// separators and grouping.
    pub fn to_format_settings(&self, settings: &NumberCultureSettings, format: FormatOption) -> (r:
        Result<String, ConversionError>)
        ensures
            exists|s: String|
                #[trigger] vstd::string::to_string_from_display_ensures::<T>(&self.num, s)
                    && format_result(
                    s@,
                    settings.thousand().char_of(),
                    settings.decimal().char_of(),
                    settings.grouping(),
                    format.min_digits(),
                    format.max_digits(),
                    r,
                ),
    {
        let rendered = self.num.to_string();
        let r = format_canonical(rendered.as_str(), settings, &format);
        assert(vstd::string::to_string_from_display_ensures::<T>(&self.num, rendered)
            && format_result(
            rendered@,
            settings.thousand().char_of(),
            settings.decimal().char_of(),
            settings.grouping(),
            format.min_digits(),
            format.max_digits(),
            r,
        ));
        r
    }
}

/// Display of a number with a format specifier `N0` to `N9`, the number of
/// fraction digits, and a culture or explicit separators.
pub trait ToFormat: Sized + std::fmt::Display {
    /// Formats the `Display` rendering of the value with the separators of
    /// `culture`.
    fn to_format(self, format: &str, culture: Culture) -> (r: Result<String, ConversionError>)
        ensures
            nb_digits_spec(format@) is Err ==> r == Err::<String, ConversionError>(
                ConversionError::UnableToDisplayFormat,
            ),
            nb_digits_spec(format@) is Ok ==> exists|s: String|
                #[trigger] vstd::string::to_string_from_display_ensures::<Self>(&self, s)
                    && format_result(
                    s@,
                    culture_thousand(culture).char_of(),
                    culture_decimal(culture).char_of(),
                    culture_grouping(culture),
                    nb_digits_spec(format@)->Ok_0,
                    nb_digits_spec(format@)->Ok_0,
                    r,
                ),
    ;

    /// Formats the `Display` rendering of the value with the given
    /// separators and grouping.
    fn to_format_separators(self, format: &str, settings: NumberCultureSettings) -> (r: Result<
        String,
        ConversionError,
    >)
        ensures
            nb_digits_spec(format@) is Err ==> r == Err::<String, ConversionError>(
                ConversionError::UnableToDisplayFormat,
            ),
            nb_digits_spec(format@) is Ok ==> exists|s: String|
                #[trigger] vstd::string::to_string_from_display_ensures::<Self>(&self, s)
                    && format_result(
                    s@,
                    settings.thousand().char_of(),
                    settings.decimal().char_of(),
                    settings.grouping(),
                    nb_digits_spec(format@)->Ok_0,
                    nb_digits_spec(format@)->Ok_0,
                    r,
                ),
    ;
}

impl<T: std::fmt::Display> ToFormat for T {
    fn to_format(self, format: &str, culture: Culture) -> (r: Result<String, ConversionError>) {
        let d = set_nb_digits(format)?;
        Number::new(self).to_format_options(&culture, FormatOption::new(d, d))
    }

    fn to_format_separators(self, format: &str, settings: NumberCultureSettings) -> (r: Result<
        String,
        ConversionError,
    >) {
        let d = set_nb_digits(format)?;
        Number::new(self).to_format_settings(&settings, FormatOption::new(d, d))
    }
}

/// The number of fraction digits that a format specifier `N0` to `N9` asks
/// for.
pub fn set_nb_digits(format: &str) -> (r: Result<u8, ConversionError>)
    ensures
        r == nb_digits_spec(format@),
{
    if format.unicode_len() != 2 {
        return Err(ConversionError::UnableToDisplayFormat);
    }
    let n = format.get_char(0);
    let d = format.get_char(1);
    if n != 'N' || !digit(d) {
        return Err(ConversionError::UnableToDisplayFormat);
    }
    Ok((d as u32 - '0' as u32) as u8)
}

} // verus!
