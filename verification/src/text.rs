//! Character-level string helpers shared by the parsers and formatters.

use vstd::prelude::*;

verus! {

/// `String::push` appends one character, as its documentation states.
pub assume_specification[ String::push ](s: &mut String, ch: char)
    ensures
        final(s)@ == old(s)@.push(ch),
;

/// The Unicode `White_Space` property, which `char::is_whitespace` reports.
pub open spec fn is_ws(c: char) -> bool {
    ||| ('\u{9}' <= c && c <= '\u{d}')
    ||| c == ' '
    ||| c == '\u{85}'
    ||| c == '\u{a0}'
    ||| c == '\u{1680}'
    ||| ('\u{2000}' <= c && c <= '\u{200a}')
    ||| c == '\u{2028}'
    ||| c == '\u{2029}'
    ||| c == '\u{202f}'
    ||| c == '\u{205f}'
    ||| c == '\u{3000}'
}

/// Whether `c` is white space in the Unicode sense.
pub fn char_is_ws(c: char) -> (r: bool)
    ensures
        r == is_ws(c),
{
    ('\u{9}' <= c && c <= '\u{d}') || c == ' ' || c == '\u{85}' || c == '\u{a0}' || c == '\u{1680}'
        || ('\u{2000}' <= c && c <= '\u{200a}') || c == '\u{2028}' || c == '\u{2029}' || c
        == '\u{202f}' || c == '\u{205f}' || c == '\u{3000}'
}

/// The Unicode general category `Cc`, which `char::is_control` reports.
pub open spec fn is_control(c: char) -> bool {
    c <= '\u{1f}' || ('\u{7f}' <= c && c <= '\u{9f}')
}

/// An ASCII decimal digit.
pub open spec fn is_digit(c: char) -> bool {
    '0' <= c && c <= '9'
}

/// Drops leading white space.
pub open spec fn trim_start(s: Seq<char>) -> Seq<char>
    decreases s.len(),
{
    if s.len() > 0 && is_ws(s[0]) {
        trim_start(s.drop_first())
    } else {
        s
    }
}

/// Drops trailing white space.
pub open spec fn trim_end(s: Seq<char>) -> Seq<char>
    decreases s.len(),
{
    if s.len() > 0 && is_ws(s.last()) {
        trim_end(s.drop_last())
    } else {
        s
    }
}

/// What `str::trim` returns: `s` without leading and trailing white space.
pub open spec fn trim(s: Seq<char>) -> Seq<char> {
    trim_end(trim_start(s))
}

/// ASCII lower-casing of one character, as `char::to_ascii_lowercase`.
pub open spec fn ascii_lower(c: char) -> char {
    if 'A' <= c && c <= 'Z' {
        (((c as u8) + 32) as u8) as char
    } else {
        c
    }
}

/// ASCII lower-casing of a string, as `str::to_ascii_lowercase`.
pub open spec fn ascii_lower_seq(s: Seq<char>) -> Seq<char> {
    s.map_values(|c: char| ascii_lower(c))
}

/// Whether `p` is a prefix of `s`.
pub open spec fn has_prefix(s: Seq<char>, p: Seq<char>) -> bool {
    p.len() <= s.len() && s.subrange(0, p.len() as int) == p
}

/// Whether `p` is a suffix of `s`.
pub open spec fn has_suffix(s: Seq<char>, p: Seq<char>) -> bool {
    p.len() <= s.len() && s.subrange(s.len() - p.len(), s.len() as int) == p
}

/// The decimal digits of `n`, most significant first, with no leading zeros.
pub open spec fn decimal(n: nat) -> Seq<char>
    decreases n,
{
    if n < 10 {
        seq![digit_char(n)]
    } else {
        decimal(n / 10).push(digit_char(n % 10))
    }
}

/// The ASCII character for a single decimal digit.
pub open spec fn digit_char(d: nat) -> char {
    (('0' as u32) + d) as char
}

/// The value of a run of decimal digits.
pub open spec fn digits_value(d: Seq<char>) -> int
    decreases d.len(),
{
    if d.len() == 0 {
        0
    } else {
        digits_value(d.drop_last()) * 10 + (d.last() as int - '0' as int)
    }
}

/// Appending a digit multiplies the value by ten and adds the digit.
pub proof fn lemma_digits_grow(d: Seq<char>, c: char)
    requires
        is_digit(c),
        forall|j: int| 0 <= j < d.len() ==> is_digit(d[j]),
    ensures
        digits_value(d.push(c)) == digits_value(d) * 10 + (c as int - '0' as int),
        digits_value(d.push(c)) >= digits_value(d),
{
    assert(d.push(c).drop_last() == d);
    lemma_digits_nonneg(d);
}

/// The decimal digits of `n` are digits, at least one, and read back as `n`.
pub proof fn lemma_decimal_value(n: nat)
    ensures
        decimal(n).len() > 0,
        all_digits(decimal(n)),
        digits_value(decimal(n)) == n,
    decreases n,
{
    if n >= 10 {
        lemma_decimal_value(n / 10);
        let d = decimal(n / 10);
        let c = digit_char(n % 10);
        assert(c as int == '0' as int + n % 10);
        assert(is_digit(c));
        lemma_digits_grow(d, c);
        assert((n / 10) * 10 + n % 10 == n);
        assert(digits_value(d.push(c)) == (n / 10) * 10 + n % 10);
        assert(decimal(n) == d.push(c));
        assert forall|j: int| 0 <= j < decimal(n).len() implies is_digit(decimal(n)[j]) by {
            if j < d.len() {
                assert(decimal(n)[j] == d[j]);
            }
        }
    } else {
        let c = digit_char(n);
        assert(c as int == '0' as int + n);
        assert(decimal(n) == seq![c]);
        assert(seq![c].drop_last() =~= Seq::<char>::empty());
        assert(digits_value(Seq::<char>::empty()) == 0);
        assert(seq![c].last() == c);
        assert(digits_value(seq![c]) == digits_value(seq![c].drop_last()) * 10 + (c as int - '0' as int));
    }
}

/// A run of digits has a non-negative value.
pub proof fn lemma_digits_nonneg(d: Seq<char>)
    requires
        forall|j: int| 0 <= j < d.len() ==> is_digit(d[j]),
    ensures
        digits_value(d) >= 0,
    decreases d.len(),
{
    if d.len() > 0 {
        lemma_digits_nonneg(d.drop_last());
    }
}

/// Whether every character of `d` is an ASCII digit.
pub open spec fn all_digits(d: Seq<char>) -> bool {
    forall|j: int| 0 <= j < d.len() ==> is_digit(d[j])
}

/// The value `str::parse` gives an unsigned integer written as `s`: an
/// optional `+`, then one or more ASCII digits; `None` for anything else.
/// (The bound of the target type is checked separately.)
pub open spec fn unsigned_text(s: Seq<char>) -> Option<int> {
    let d = if s.len() > 0 && s[0] == '+' {
        s.skip(1)
    } else {
        s
    };
    if d.len() > 0 && all_digits(d) {
        Some(digits_value(d))
    } else {
        None
    }
}

/// The value `str::parse` gives a signed integer written as `s`: a `-`
/// and one or more digits, or an unsigned form.
pub open spec fn signed_text(s: Seq<char>) -> Option<int> {
    if s.len() > 0 && s[0] == '-' {
        let d = s.skip(1);
        if d.len() > 0 && all_digits(d) {
            Some(-digits_value(d))
        } else {
            None
        }
    } else {
        unsigned_text(s)
    }
}

/// The value of the digits `cs[from..]`, when all are digits and the value
/// is at most `max`.
fn digits_at_most(cs: &Vec<char>, from: usize, max: u64) -> (r: Option<u64>)
    requires
        from <= cs@.len(),
    ensures
        match r {
            Some(v) => all_digits(cs@.skip(from as int)) && v as int == digits_value(cs@.skip(from as int)) && v
                <= max,
            None => !all_digits(cs@.skip(from as int)) || digits_value(cs@.skip(from as int)) > max,
        },
{
    let mut acc: u64 = 0;
    let mut q = from;
    while q < cs.len()
        invariant
            from <= q <= cs@.len(),
            all_digits(cs@.subrange(from as int, q as int)),
            acc as int == digits_value(cs@.subrange(from as int, q as int)),
            acc <= max,
        decreases cs@.len() - q,
    {
        let c = cs[q];
        if !('0' <= c && c <= '9') {
            proof {
                assert(cs@.skip(from as int)[q - from] == c);
            }
            return None;
        }
        proof {
            assert(cs@.subrange(from as int, q + 1) == cs@.subrange(from as int, q as int).push(c));
            lemma_digits_grow(cs@.subrange(from as int, q as int), c);
        }
        let d = (c as u32 - '0' as u32) as u64;
        if d > max || acc > (max - d) / 10 {
            proof {
                if d <= max {
                    assert(digits_value(cs@.subrange(from as int, q + 1)) > max) by (nonlinear_arith)
                        requires
                            digits_value(cs@.subrange(from as int, q + 1)) == acc * 10 + d,
                            acc > (max - d) / 10,
                            d <= 9,
                            d <= max,
                    ;
                } else {
                    assert(digits_value(cs@.subrange(from as int, q + 1)) > max) by (nonlinear_arith)
                        requires
                            digits_value(cs@.subrange(from as int, q + 1)) == acc * 10 + d,
                            acc >= 0,
                            d > max,
                    ;
                }
                assert(cs@.skip(from as int).take((q + 1 - from) as int) == cs@.subrange(from as int, q + 1));
                lemma_digits_prefix_bound(cs@.skip(from as int), (q + 1 - from) as int, max as int);
            }
            return None;
        }
        proof {
            assert(acc * 10 + d <= max) by (nonlinear_arith)
                requires
                    acc <= (max - d) / 10,
                    d <= 9,
                    d <= max,
            ;
        }
        acc = acc * 10 + d;
        q = q + 1;
    }
    proof {
        assert(cs@.subrange(from as int, q as int) == cs@.skip(from as int));
    }
    Some(acc)
}

/// A run of digits is worth at least any of its prefixes.
proof fn lemma_digits_prefix_bound(d: Seq<char>, k: int, max: int)
    requires
        0 <= k <= d.len(),
        all_digits(d) ==> digits_value(d.take(k)) > max,
        max >= 0,
    ensures
        all_digits(d) ==> digits_value(d) > max,
    decreases d.len() - k,
{
    if k < d.len() && all_digits(d) {
        assert(d.take(k + 1) == d.take(k).push(d[k]));
        assert(all_digits(d.take(k)));
        lemma_digits_grow(d.take(k), d[k]);
        lemma_digits_prefix_bound(d, k + 1, max);
    } else if k == d.len() {
        assert(d.take(k) == d);
    }
}

/// Parses an unsigned integer no larger than `max`, as `str::parse` does
/// for the unsigned type whose largest value is `max`.
pub fn parse_unsigned(s: &str, max: u64) -> (r: Option<u64>)
    ensures
        match r {
            Some(v) => unsigned_text(s@) == Some(v as int) && v <= max,
            None => !(unsigned_text(s@) matches Some(v) && v <= max),
        },
{
    let cs = to_chars(s);
    let from: usize = if cs.len() > 0 && cs[0] == '+' {
        1
    } else {
        0
    };
    if from == cs.len() {
        return None;
    }
    proof {
        assert(cs@.skip(0) == cs@);
    }
    digits_at_most(&cs, from, max)
}

/// Parses a signed 64-bit integer, as `str::parse::<i64>` does.
pub fn parse_i64(s: &str) -> (r: Option<i64>)
    ensures
        match r {
            Some(v) => signed_text(s@) == Some(v as int),
            None => !(signed_text(s@) matches Some(v) && i64::MIN <= v <= i64::MAX),
        },
{
    let cs = to_chars(s);
    if cs.len() > 0 && cs[0] == '-' {
        if cs.len() == 1 {
            return None;
        }
        match digits_at_most(&cs, 1, 0x8000_0000_0000_0000u64) {
            Some(v) => {
                if v == 0x8000_0000_0000_0000u64 {
                    Some(i64::MIN)
                } else {
                    Some(-(v as i64))
                }
            },
            None => None,
        }
    } else {
        match parse_unsigned(s, 0x7fff_ffff_ffff_ffffu64) {
            Some(v) => Some(v as i64),
            None => None,
        }
    }
}

/// Texts joined with `sep` between them.
pub open spec fn joined(parts: Seq<Seq<char>>, sep: Seq<char>) -> Seq<char>
    decreases parts.len(),
{
    if parts.len() == 0 {
        Seq::empty()
    } else if parts.len() == 1 {
        parts[0]
    } else {
        joined(parts.drop_last(), sep) + sep + parts.last()
    }
}

/// `s` without trailing white space, as `str::trim_end` returns it.
pub fn trim_end_str(s: &str) -> (r: String)
    ensures
        r@ == trim_end(s@),
{
    let cs = to_chars(s);
    let mut end: usize = cs.len();
    while end > 0 && char_is_ws(cs[end - 1])
        invariant
            end <= cs@.len(),
            forall|j: int| end <= j < cs@.len() ==> is_ws(cs@[j]),
        decreases end,
    {
        end = end - 1;
    }
    proof {
        lemma_trim_end_take(cs@, end as int);
        let kept = cs@.subrange(0, end as int);
        if kept.len() > 0 {
            assert(!is_ws(kept.last()));
        }
        assert(trim_end(kept) == kept);
    }
    string_of_range(&cs, 0, end)
}

/// The parts joined with `sep` between them, as `[String]::join` does.
pub fn join_with(parts: &Vec<String>, sep: &str) -> (r: String)
    ensures
        r@ == joined(parts@.map_values(|p: String| p@), sep@),
{
    let ghost views = parts@.map_values(|p: String| p@);
    let mut out = String::new();
    let mut i: usize = 0;
    while i < parts.len()
        invariant
            i <= parts@.len(),
            views == parts@.map_values(|p: String| p@),
            out@ == joined(views.take(i as int), sep@),
        decreases parts@.len() - i,
    {
        let ghost before = out@;
        if i > 0 {
            append(&mut out, sep);
        }
        append(&mut out, parts[i].as_str());
        proof {
            let next = views.take(i + 1);
            assert(next.drop_last() == views.take(i as int));
            assert(next.last() == parts@[i as int]@);
            if i == 0 {
                assert(out@ =~= next[0]);
            } else {
                assert(out@ =~= before + sep@ + next.last());
            }
        }
        i = i + 1;
    }
    proof {
        assert(views.take(i as int) == views);
    }
    out
}

/// The characters of `s`, in order.
pub fn to_chars(s: &str) -> (r: Vec<char>)
    ensures
        r@ == s@,
{
    let mut out: Vec<char> = Vec::new();
    for c in it: s.chars()
        invariant
            out@ == it.seq().take(it.index() as int),
            it.seq() == s@,
    {
        out.push(c);
    }
    out
}

/// A `String` holding `cs[from..to]`.
pub fn string_of_range(cs: &Vec<char>, from: usize, to: usize) -> (r: String)
    requires
        from <= to <= cs@.len(),
    ensures
        r@ == cs@.subrange(from as int, to as int),
{
    let mut out = String::new();
    let mut i = from;
    while i < to
        invariant
            from <= i <= to <= cs@.len(),
            out@ == cs@.subrange(from as int, i as int),
        decreases to - i,
    {
        out.push(cs[i]);
        proof {
            assert(cs@.subrange(from as int, i + 1) == cs@.subrange(from as int, i as int).push(cs@[i as int]));
        }
        i = i + 1;
    }
    out
}

/// A `String` holding `cs`.
pub fn from_chars(cs: &[char]) -> (r: String)
    ensures
        r@ == cs@,
{
    let mut out = String::new();
    let mut i: usize = 0;
    while i < cs.len()
        invariant
            i <= cs@.len(),
            out@ == cs@.take(i as int),
        decreases cs@.len() - i,
    {
        out.push(cs[i]);
        i = i + 1;
        proof {
            assert(cs@.take(i as int) == cs@.take((i - 1) as int).push(cs@[i - 1]));
        }
    }
    proof {
        assert(cs@.take(cs@.len() as int) == cs@);
    }
    out
}

/// A copy of a string slice.
pub fn owned(s: &str) -> (r: String)
    ensures
        r@ == s@,
{
    s.to_owned()
}

/// Appends `b` to `out`.
pub fn append(out: &mut String, b: &str)
    ensures
        final(out)@ == old(out)@ + b@,
{
    let bc = to_chars(b);
    let mut i: usize = 0;
    let ghost start = out@;
    while i < bc.len()
        invariant
            i <= bc@.len(),
            bc@ == b@,
            out@ == start + bc@.take(i as int),
        decreases bc@.len() - i,
    {
        out.push(bc[i]);
        i = i + 1;
        proof {
            assert(bc@.take(i as int) == bc@.take((i - 1) as int).push(bc@[i - 1]));
            assert(start + bc@.take(i as int) == (start + bc@.take((i - 1) as int)).push(
                bc@[i - 1],
            ));
        }
    }
    proof {
        assert(bc@.take(bc@.len() as int) == bc@);
    }
}

/// Whether two strings hold the same characters.
pub fn str_eq(a: &str, b: &str) -> (r: bool)
    ensures
        r == (a@ == b@),
{
    let ac = to_chars(a);
    let bc = to_chars(b);
    chars_eq(&ac, &bc)
}

/// Whether two character slices are equal.
pub fn chars_eq(a: &[char], b: &[char]) -> (r: bool)
    ensures
        r == (a@ == b@),
{
    if a.len() != b.len() {
        return false;
    }
    let mut i: usize = 0;
    while i < a.len()
        invariant
            a@.len() == b@.len(),
            i <= a@.len(),
            forall|j: int| 0 <= j < i ==> a@[j] == b@[j],
        decreases a@.len() - i,
    {
        if a[i] != b[i] {
            return false;
        }
        i = i + 1;
    }
    proof {
        assert(a@ =~= b@);
    }
    true
}

/// Whether `s` begins with `p`.
pub fn starts_with(s: &str, p: &str) -> (r: bool)
    ensures
        r == has_prefix(s@, p@),
{
    let sc = to_chars(s);
    let pc = to_chars(p);
    if pc.len() > sc.len() {
        return false;
    }
    let mut i: usize = 0;
    while i < pc.len()
        invariant
            pc@.len() <= sc@.len(),
            i <= pc@.len(),
            sc@ == s@,
            pc@ == p@,
            forall|j: int| 0 <= j < i ==> sc@[j] == pc@[j],
        decreases pc@.len() - i,
    {
        if sc[i] != pc[i] {
            assert(sc@.subrange(0, pc@.len() as int)[i as int] != pc@[i as int]);
            return false;
        }
        i = i + 1;
    }
    proof {
        assert(sc@.subrange(0, pc@.len() as int) =~= pc@);
    }
    true
}

proof fn lemma_trim_start_skip(s: Seq<char>, i: int)
    requires
        0 <= i <= s.len(),
        forall|j: int| 0 <= j < i ==> is_ws(s[j]),
    ensures
        trim_start(s) == trim_start(s.subrange(i, s.len() as int)),
    decreases i,
{
    if i > 0 {
        assert(s.drop_first() == s.subrange(1, s.len() as int));
        lemma_trim_start_skip(s.drop_first(), i - 1);
        assert(s.drop_first().subrange(i - 1, s.drop_first().len() as int) == s.subrange(
            i,
            s.len() as int,
        ));
    } else {
        assert(s.subrange(0, s.len() as int) == s);
    }
}

proof fn lemma_trim_end_take(s: Seq<char>, k: int)
    requires
        0 <= k <= s.len(),
        forall|j: int| k <= j < s.len() ==> is_ws(s[j]),
    ensures
        trim_end(s) == trim_end(s.subrange(0, k)),
    decreases s.len() - k,
{
    if k < s.len() {
        assert(s.drop_last() == s.subrange(0, s.len() - 1));
        lemma_trim_end_take(s.drop_last(), k);
        assert(s.drop_last().subrange(0, k) == s.subrange(0, k));
    } else {
        assert(s.subrange(0, s.len() as int) == s);
    }
}

/// The index range `[start, end)` that `trim` keeps of `cs`.
pub fn trim_bounds(cs: &[char]) -> (r: (usize, usize))
    ensures
        r.0 <= r.1 <= cs@.len(),
        cs@.subrange(r.0 as int, r.1 as int) == trim(cs@),
{
    let mut start: usize = 0;
    while start < cs.len() && char_is_ws(cs[start])
        invariant
            start <= cs@.len(),
            forall|j: int| 0 <= j < start ==> is_ws(cs@[j]),
        decreases cs@.len() - start,
    {
        start = start + 1;
    }
    let ghost rest = cs@.subrange(start as int, cs@.len() as int);
    proof {
        lemma_trim_start_skip(cs@, start as int);
        if rest.len() > 0 {
            assert(!is_ws(rest[0]));
        }
        assert(trim_start(rest) == rest);
    }
    let mut end: usize = cs.len();
    while end > start && char_is_ws(cs[end - 1])
        invariant
            start <= end <= cs@.len(),
            forall|j: int| end <= j < cs@.len() ==> is_ws(cs@[j]),
        decreases end,
    {
        end = end - 1;
    }
    proof {
        let k = end - start;
        assert forall|j: int| k <= j < rest.len() implies is_ws(rest[j]) by {
            assert(rest[j] == cs@[start + j]);
        }
        lemma_trim_end_take(rest, k);
        let kept = rest.subrange(0, k);
        assert(kept == cs@.subrange(start as int, end as int));
        if kept.len() > 0 {
            assert(!is_ws(kept.last()));
        }
        assert(trim_end(kept) == kept);
    }
    (start, end)
}

/// `s` without leading and trailing white space.
pub fn trim_str(s: &str) -> (r: String)
    ensures
        r@ == trim(s@),
{
    let cs = to_chars(s);
    let (a, b) = trim_bounds(&cs);
    from_chars(&cs.as_slice()[a..b])
}

/// The decimal representation of `n`.
pub fn usize_to_string(n: usize) -> (r: String)
    ensures
        r@ == decimal(n as nat),
{
    u64_to_string(n as u64)
}

/// The decimal digits of `n`, as `format!("{n}")` prints them.
pub fn u64_to_string(n: u64) -> (r: String)
    ensures
        r@ == decimal(n as nat),
    decreases n,
{
    let d = n % 10;
    let c = if d == 0 { '0' } else if d == 1 { '1' } else if d == 2 { '2' } else if d == 3 {
        '3'
    } else if d == 4 { '4' } else if d == 5 { '5' } else if d == 6 { '6' } else if d == 7 {
        '7'
    } else if d == 8 { '8' } else { '9' };
    proof {
        assert(c == digit_char(d as nat));
    }
    if n < 10 {
        let mut out = String::new();
        out.push(c);
        out
    } else {
        let mut out = u64_to_string(n / 10);
        out.push(c);
        out
    }
}

/// A signed integer in decimal, with a leading `-` when negative.
pub open spec fn signed_decimal(n: int) -> Seq<char> {
    if n < 0 {
        "-"@ + decimal((-n) as nat)
    } else {
        decimal(n as nat)
    }
}

/// The decimal text of `n`, as `format!("{n}")` prints it.
pub fn i64_to_string(n: i64) -> (r: String)
    ensures
        r@ == signed_decimal(n as int),
{
    if n < 0 {
        let m: u64 = ((-(n + 1)) as u64) + 1;
        let mut out = owned("-");
        let digits = u64_to_string(m);
        append(&mut out, digits.as_str());
        out
    } else {
        u64_to_string(n as u64)
    }
}

} // verus!

verus! {

/// The text `format!("{:?}", s)` gives for a string: `s` in double quotes,
/// with quotes, backslashes and control characters escaped.
pub uninterp spec fn spec_debug_str(s: Seq<char>) -> Seq<char>;

/// Formats `s` with `{:?}`.
#[verifier::external_body]
pub(crate) fn debug_str(s: &str) -> (r: String)
    ensures
        r@ == spec_debug_str(s@),
        r@.len() >= 2,
        r@[0] == '"',
        r@.last() == '"',
{
    format!("{:?}", s)
}

} // verus!
