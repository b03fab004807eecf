use vstd::prelude::*;
use vstd::string::*;

verus! {

/// The unit that a time value is written in.
#[derive(Debug, Clone, Copy, PartialEq, Eq, Structural)]
pub enum TimeUnit {
    Milliseconds,
    Seconds,
}

/// How large a time in milliseconds is, for choosing how to show it.
#[derive(Debug, Clone, Copy, PartialEq, Eq, Structural)]
pub enum Magnitude {
    /// Less than 100 ms.
    BelowHundred,
    /// At least 100 ms and less than 1000 ms.
    BelowThousand,
    /// Anything else (1000 ms or more, or not a number).
    Other,
}

/// How to show a time: in which unit, and with how many decimals.
#[derive(Debug, Clone, Copy, PartialEq, Eq, Structural)]
pub struct TimeFormat {
    pub unit: TimeUnit,
    pub decimals: usize,
}

/// The format for a time in milliseconds of the given magnitude: below 100 ms in
/// milliseconds with one decimal, below 1000 ms in milliseconds with none, and otherwise
/// in seconds with `digits` decimals, but at least two.
pub open spec fn spec_ms_then_s_format(magnitude: Magnitude, digits: usize) -> TimeFormat {
    match magnitude {
        Magnitude::BelowHundred => TimeFormat { unit: TimeUnit::Milliseconds, decimals: 1 },
        Magnitude::BelowThousand => TimeFormat { unit: TimeUnit::Milliseconds, decimals: 0 },
        Magnitude::Other => TimeFormat {
            unit: TimeUnit::Seconds,
            decimals: if digits < 2 {
                2
            } else {
                digits
            },
        },
    }
}

/// Times of 1000 ms or more are always shown in seconds, with the larger of `digits` and two
/// decimals; shorter ones are shown in milliseconds, with one decimal below 100 ms and none
/// from there on, whatever `digits` is.
pub proof fn lemma_ms_then_s_format_choices(digits: usize, other_digits: usize)
    ensures
        spec_ms_then_s_format(Magnitude::Other, digits).unit == TimeUnit::Seconds,
        spec_ms_then_s_format(Magnitude::Other, digits).decimals >= 2,
        spec_ms_then_s_format(Magnitude::Other, digits).decimals >= digits,
        spec_ms_then_s_format(Magnitude::Other, digits).decimals == 2 || spec_ms_then_s_format(
            Magnitude::Other,
            digits,
        ).decimals == digits,
        spec_ms_then_s_format(Magnitude::BelowHundred, digits).unit == TimeUnit::Milliseconds,
        spec_ms_then_s_format(Magnitude::BelowHundred, digits).decimals == 1,
        spec_ms_then_s_format(Magnitude::BelowThousand, digits).unit == TimeUnit::Milliseconds,
        spec_ms_then_s_format(Magnitude::BelowThousand, digits).decimals == 0,
        spec_ms_then_s_format(Magnitude::BelowHundred, digits) == spec_ms_then_s_format(
            Magnitude::BelowHundred,
            other_digits,
        ),
        spec_ms_then_s_format(Magnitude::BelowThousand, digits) == spec_ms_then_s_format(
            Magnitude::BelowThousand,
            other_digits,
        ),
{
}

/// Chooses how to show a time in milliseconds, given its magnitude.
pub fn ms_then_s_format(magnitude: Magnitude, digits: usize) -> (f: TimeFormat)
    ensures
        f == spec_ms_then_s_format(magnitude, digits),
        magnitude == Magnitude::BelowHundred ==> f.unit == TimeUnit::Milliseconds && f.decimals
            == 1,
        magnitude == Magnitude::BelowThousand ==> f.unit == TimeUnit::Milliseconds && f.decimals
            == 0,
        magnitude == Magnitude::Other ==> {
            &&& f.unit == TimeUnit::Seconds
            &&& f.decimals >= 2
            &&& f.decimals >= digits
            &&& (f.decimals == 2 || f.decimals == digits)
        },
{
    match magnitude {
        Magnitude::BelowHundred => TimeFormat { unit: TimeUnit::Milliseconds, decimals: 1 },
        Magnitude::BelowThousand => TimeFormat { unit: TimeUnit::Milliseconds, decimals: 0 },
        Magnitude::Other => TimeFormat {
            unit: TimeUnit::Seconds,
            decimals: if digits < 2 {
                2
            } else {
                digits
            },
        },
    }
}

/// Rust's `char::is_whitespace`: whether `c` has the Unicode `White_Space` property.
pub open spec fn is_white_space(c: char) -> bool {
    let x = c as u32;
    ||| x == 0x20
    ||| 0x09 <= x <= 0x0d
    ||| x == 0x85
    ||| x == 0xa0
    ||| x == 0x1680
    ||| 0x2000 <= x <= 0x200a
    ||| x == 0x2028
    ||| x == 0x2029
    ||| x == 0x202f
    ||| x == 0x205f
    ||| x == 0x3000
}

/// A set of characters that trailing runs are trimmed of.
#[derive(Debug, Clone, Copy, PartialEq, Eq, Structural)]
pub enum TrimSet {
    /// White space, as `str::trim_end` removes it.
    WhiteSpace,
    /// `' '`, `'m'`, `'M'`, `'s'` and `'S'`.
    MillisecondSuffix,
    /// `' '`, `'s'` and `'S'`.
    SecondSuffix,
}

/// Whether `set` holds `c`.
pub open spec fn trims(set: TrimSet, c: char) -> bool {
    match set {
        TrimSet::WhiteSpace => is_white_space(c),
        TrimSet::MillisecondSuffix => c == ' ' || c == 'm' || c == 'M' || c == 's' || c == 'S',
        TrimSet::SecondSuffix => c == ' ' || c == 's' || c == 'S',
    }
}

/// The length of the first `n` characters of `s` once the trailing run of characters in
/// `set` is removed.
pub open spec fn trimmed_len(s: Seq<char>, set: TrimSet, n: nat) -> nat
    decreases n,
{
    if n > 0 && trims(set, s[n - 1]) {
        trimmed_len(s, set, (n - 1) as nat)
    } else {
        n
    }
}

/// `s` without its trailing run of characters in `set`.
pub open spec fn trim_end_by(s: Seq<char>, set: TrimSet) -> Seq<char> {
    s.subrange(0, trimmed_len(s, set, s.len()) as int)
}

/// Whether `s` ends with the two characters `a` and `b`.
pub open spec fn ends_with_pair(s: Seq<char>, a: char, b: char) -> bool {
    s.len() >= 2 && s[s.len() - 2] == a && s[s.len() - 1] == b
}

/// Whether `s` ends with `c`.
pub open spec fn ends_with_char(s: Seq<char>, c: char) -> bool {
    s.len() >= 1 && s[s.len() - 1] == c
}

/// How a time typed as text splits into its number and its unit. Trailing white space is
/// ignored. Text ending in `ms` or `MS` is in milliseconds, and its number is what is left
/// once every trailing `' '`, `m`, `M`, `s` and `S` is removed; otherwise text ending in `s`
/// or `S` is in seconds, and its number is what is left once every trailing `' '`, `s` and
/// `S` is removed; any other text has no unit.
pub open spec fn spec_split_ms_then_s(s: Seq<char>) -> Option<(Seq<char>, TimeUnit)> {
    let t = trim_end_by(s, TrimSet::WhiteSpace);
    if ends_with_pair(t, 'm', 's') || ends_with_pair(t, 'M', 'S') {
        Some((trim_end_by(t, TrimSet::MillisecondSuffix), TimeUnit::Milliseconds))
    } else if ends_with_char(t, 's') || ends_with_char(t, 'S') {
        Some((trim_end_by(t, TrimSet::SecondSuffix), TimeUnit::Seconds))
    } else {
        None
    }
}

/// Trimming from `n` goes past every character from `k` up to `n` that is in the set.
proof fn lemma_trimmed_len_skips(s: Seq<char>, set: TrimSet, k: nat, n: nat)
    requires
        k <= n <= s.len(),
        forall|i: int| k <= i < n ==> trims(set, #[trigger] s[i]),
    ensures
        trimmed_len(s, set, n) == trimmed_len(s, set, k),
    decreases n,
{
    if n > k {
        lemma_trimmed_len_skips(s, set, k, (n - 1) as nat);
    }
}

/// What trimming removes is all in the set, and it stops right after a character that is not.
proof fn lemma_trimmed_len_removes(s: Seq<char>, set: TrimSet, n: nat)
    requires
        n <= s.len(),
    ensures
        trimmed_len(s, set, n) <= n,
        forall|i: int| trimmed_len(s, set, n) <= i < n ==> trims(set, #[trigger] s[i]),
        trimmed_len(s, set, n) == 0 || !trims(set, s[trimmed_len(s, set, n) - 1]),
    decreases n,
{
    if n > 0 && trims(set, s[n - 1]) {
        lemma_trimmed_len_removes(s, set, (n - 1) as nat);
    }
}

/// Trimming `d + u`, where every character of `u` is in the set and `d` does not end with
/// one, leaves exactly `d`.
proof fn lemma_trim_suffix_of_set(d: Seq<char>, u: Seq<char>, set: TrimSet)
    requires
        forall|i: int| 0 <= i < u.len() ==> trims(set, #[trigger] u[i]),
        d.len() == 0 || !trims(set, d.last()),
    ensures
        trim_end_by(d + u, set) == d,
{
    let s = d + u;
    assert forall|i: int| d.len() <= i < s.len() implies trims(set, #[trigger] s[i]) by {
        assert(s[i] == u[i - d.len()]);
    }
    lemma_trimmed_len_skips(s, set, d.len(), s.len());
    if d.len() > 0 {
        assert(s[d.len() - 1] == d.last());
    }
    assert(s.subrange(0, d.len() as int) =~= d);
}

/// The number is a prefix of the text: when a unit is found, the number is the text up to
/// some point, everything after it is white space or one of `' '`, `m`, `M`, `s`, `S`, and
/// the number does not itself end with a character of its unit's suffix.
pub proof fn lemma_split_number_is_prefix(s: Seq<char>)
    ensures
        spec_split_ms_then_s(s) matches Some((number, unit)) ==> {
            &&& number.len() <= s.len()
            &&& number == s.subrange(0, number.len() as int)
            &&& forall|i: int|
                number.len() <= i < s.len() ==> is_white_space(#[trigger] s[i]) || trims(
                    TrimSet::MillisecondSuffix,
                    s[i],
                )
            &&& unit == TimeUnit::Milliseconds ==> number.len() == 0 || !trims(
                TrimSet::MillisecondSuffix,
                number.last(),
            )
            &&& unit == TimeUnit::Seconds ==> number.len() == 0 || !trims(
                TrimSet::SecondSuffix,
                number.last(),
            )
        },
{
    let n = s.len();
    let k = trimmed_len(s, TrimSet::WhiteSpace, n);
    lemma_trimmed_len_removes(s, TrimSet::WhiteSpace, n);
    let t = trim_end_by(s, TrimSet::WhiteSpace);
    assert(t == s.subrange(0, k as int));
    if spec_split_ms_then_s(s) is Some {
        let set = if ends_with_pair(t, 'm', 's') || ends_with_pair(t, 'M', 'S') {
            TrimSet::MillisecondSuffix
        } else {
            TrimSet::SecondSuffix
        };
        let j = trimmed_len(t, set, t.len());
        lemma_trimmed_len_removes(t, set, t.len());
        let number = trim_end_by(t, set);
        assert(number == t.subrange(0, j as int));
        assert(number =~= s.subrange(0, j as int));
        assert forall|i: int| j <= i < s.len() implies is_white_space(#[trigger] s[i]) || trims(
            TrimSet::MillisecondSuffix,
            s[i],
        ) by {
            if i < k {
                assert(s[i] == t[i]);
                assert(trims(set, t[i]));
            }
        }
        if j > 0 {
            assert(number.last() == t[j - 1]);
        }
    }
}

/// A number followed by a unit and white space splits into exactly that number and unit:
/// for any text `d` that does not end with `' '`, `m`, `M`, `s` or `S` (such as digits with
/// an optional point) and any white space `w`, `d` followed by `ms` or `MS` (with or
/// without a space before it) is `d` in milliseconds, and `d` followed by `s` or `S` (with
/// or without a space) is `d` in seconds.
pub proof fn lemma_split_number_and_unit(d: Seq<char>, w: Seq<char>)
    requires
        d.len() == 0 || !trims(TrimSet::MillisecondSuffix, d.last()),
        forall|i: int| 0 <= i < w.len() ==> is_white_space(#[trigger] w[i]),
    ensures
        spec_split_ms_then_s(d + seq![' ', 'm', 's'] + w) == Some((d, TimeUnit::Milliseconds)),
        spec_split_ms_then_s(d + seq!['m', 's'] + w) == Some((d, TimeUnit::Milliseconds)),
        spec_split_ms_then_s(d + seq![' ', 'M', 'S'] + w) == Some((d, TimeUnit::Milliseconds)),
        spec_split_ms_then_s(d + seq!['M', 'S'] + w) == Some((d, TimeUnit::Milliseconds)),
        spec_split_ms_then_s(d + seq![' ', 's'] + w) == Some((d, TimeUnit::Seconds)),
        spec_split_ms_then_s(d + seq!['s'] + w) == Some((d, TimeUnit::Seconds)),
        spec_split_ms_then_s(d + seq![' ', 'S'] + w) == Some((d, TimeUnit::Seconds)),
        spec_split_ms_then_s(d + seq!['S'] + w) == Some((d, TimeUnit::Seconds)),
{
    lemma_split_with_suffix(d, seq![' ', 'm', 's'], w, TimeUnit::Milliseconds);
    lemma_split_with_suffix(d, seq!['m', 's'], w, TimeUnit::Milliseconds);
    lemma_split_with_suffix(d, seq![' ', 'M', 'S'], w, TimeUnit::Milliseconds);
    lemma_split_with_suffix(d, seq!['M', 'S'], w, TimeUnit::Milliseconds);
    lemma_split_with_suffix(d, seq![' ', 's'], w, TimeUnit::Seconds);
    lemma_split_with_suffix(d, seq!['s'], w, TimeUnit::Seconds);
    lemma_split_with_suffix(d, seq![' ', 'S'], w, TimeUnit::Seconds);
    lemma_split_with_suffix(d, seq!['S'], w, TimeUnit::Seconds);
}

/// One case of `lemma_split_number_and_unit`: `d`, then the unit's suffix `u`, then white
/// space `w`.
proof fn lemma_split_with_suffix(d: Seq<char>, u: Seq<char>, w: Seq<char>, unit: TimeUnit)
    requires
        d.len() == 0 || !trims(TrimSet::MillisecondSuffix, d.last()),
        forall|i: int| 0 <= i < w.len() ==> is_white_space(#[trigger] w[i]),
        unit == TimeUnit::Milliseconds ==> u == seq![' ', 'm', 's'] || u == seq!['m', 's'] || u
            == seq![' ', 'M', 'S'] || u == seq!['M', 'S'],
        unit == TimeUnit::Seconds ==> u == seq![' ', 's'] || u == seq!['s'] || u == seq![' ', 'S']
            || u == seq!['S'],
    ensures
        spec_split_ms_then_s(d + u + w) == Some((d, unit)),
{
    let t = d + u;
    assert(!is_white_space(t.last())) by {
        assert(t.last() == u.last());
    }
    lemma_trim_suffix_of_set(t, w, TrimSet::WhiteSpace);
    assert(trim_end_by(d + u + w, TrimSet::WhiteSpace) == t);
    let set = match unit {
        TimeUnit::Milliseconds => TrimSet::MillisecondSuffix,
        TimeUnit::Seconds => TrimSet::SecondSuffix,
    };
    assert forall|i: int| 0 <= i < u.len() implies trims(set, #[trigger] u[i]) by {}
    lemma_trim_suffix_of_set(d, u, set);
    assert(t[t.len() - 1] == u[u.len() - 1]);
    if u.len() >= 2 {
        assert(t[t.len() - 2] == u[u.len() - 2]);
    } else if d.len() > 0 {
        assert(t[t.len() - 2] == d.last());
    }
}

/// Whether `set` holds `c`.
fn in_trim_set(set: TrimSet, c: char) -> (b: bool)
    ensures
        b == trims(set, c),
{
    match set {
        TrimSet::WhiteSpace => {
            let x = c as u32;
            x == 0x20 || (0x09 <= x && x <= 0x0d) || x == 0x85 || x == 0xa0 || x == 0x1680 || (
            0x2000 <= x && x <= 0x200a) || x == 0x2028 || x == 0x2029 || x == 0x202f || x
                == 0x205f || x == 0x3000
        },
        TrimSet::MillisecondSuffix => c == ' ' || c == 'm' || c == 'M' || c == 's' || c == 'S',
        TrimSet::SecondSuffix => c == ' ' || c == 's' || c == 'S',
    }
}

/// The length of the first `n` characters of `chars` once their trailing run of characters
/// in `set` is removed.
fn trim_end_len(chars: &Vec<char>, n: usize, set: TrimSet) -> (k: usize)
    requires
        n <= chars@.len(),
    ensures
        k == trimmed_len(chars@, set, n as nat),
{
    let mut k = n;
    while k > 0 && in_trim_set(set, chars[k - 1])
        invariant
            k <= n <= chars@.len(),
            trimmed_len(chars@, set, k as nat) == trimmed_len(chars@, set, n as nat),
        decreases k,
    {
        k = k - 1;
    }
    k
}

/// Trimming the first `k` characters, where `k` is itself a trimmed length, trims nothing
/// more when the character before `k` is not in the set.
proof fn lemma_trim_of_prefix(s: Seq<char>, set: TrimSet, k: nat)
    requires
        k <= s.len(),
    ensures
        trim_end_by(s.subrange(0, k as int), set) == s.subrange(
            0,
            trimmed_len(s, set, k) as int,
        ),
        trimmed_len(s, set, k) <= k,
    decreases k,
{
    let p = s.subrange(0, k as int);
    lemma_trimmed_len_prefix(s, set, k, k);
    assert(p.subrange(0, trimmed_len(s, set, k) as int) =~= s.subrange(
        0,
        trimmed_len(s, set, k) as int,
    ));
}

/// Trimmed lengths only look at the characters before the length they start from.
proof fn lemma_trimmed_len_prefix(s: Seq<char>, set: TrimSet, k: nat, n: nat)
    requires
        n <= k <= s.len(),
    ensures
        trimmed_len(s.subrange(0, k as int), set, n) == trimmed_len(s, set, n),
        trimmed_len(s, set, n) <= n,
    decreases n,
{
    if n > 0 {
        lemma_trimmed_len_prefix(s, set, k, (n - 1) as nat);
    }
}

/// Splits a time typed as text into its number (as text) and its unit, as
/// `spec_split_ms_then_s` describes; `None` when the text names no unit. The number is
/// a prefix of the input.
pub fn split_ms_then_s(input: &str) -> (r: Option<(&str, TimeUnit)>)
    ensures
        match spec_split_ms_then_s(input@) {
            None => r is None,
            Some((number, unit)) => r matches Some((text, u)) && text@ == number && u == unit,
        },
{
    let len = input.unicode_len();
    let mut chars: Vec<char> = Vec::with_capacity(len);
    let mut i: usize = 0;
    while i < len
        invariant
            len == input@.len(),
            i <= len,
            chars@ == input@.subrange(0, i as int),
        decreases len - i,
    {
        chars.push(input.get_char(i));
        i = i + 1;
        assert(chars@ =~= input@.subrange(0, i as int));
    }
    assert(chars@ =~= input@);
    let t = trim_end_len(&chars, len, TrimSet::WhiteSpace);
    proof {
        lemma_trim_of_prefix(input@, TrimSet::WhiteSpace, len as nat);
        assert(input@.subrange(0, len as int) =~= input@);
    }
    let ghost trimmed = input@.subrange(0, t as int);
    assert(trimmed == trim_end_by(input@, TrimSet::WhiteSpace));
    let is_ms = t >= 2 && ((chars[t - 2] == 'm' && chars[t - 1] == 's') || (chars[t - 2] == 'M'
        && chars[t - 1] == 'S'));
    let is_sec = t >= 1 && (chars[t - 1] == 's' || chars[t - 1] == 'S');
    if is_ms {
        let k = trim_end_len(&chars, t, TrimSet::MillisecondSuffix);
        proof {
            lemma_trim_of_prefix(input@, TrimSet::MillisecondSuffix, t as nat);
            lemma_trimmed_len_prefix(input@, TrimSet::WhiteSpace, t as nat, t as nat);
            assert(trim_end_by(trimmed, TrimSet::MillisecondSuffix) =~= input@.subrange(
                0,
                k as int,
            ));
        }
        Some((input.substring_char(0, k), TimeUnit::Milliseconds))
    } else if is_sec {
        let k = trim_end_len(&chars, t, TrimSet::SecondSuffix);
        proof {
            lemma_trim_of_prefix(input@, TrimSet::SecondSuffix, t as nat);
            assert(trim_end_by(trimmed, TrimSet::SecondSuffix) =~= input@.subrange(0, k as int));
        }
        Some((input.substring_char(0, k), TimeUnit::Seconds))
    } else {
        None
    }
}

} // verus!
