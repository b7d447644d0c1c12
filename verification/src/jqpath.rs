//! The subset of jq path syntax that source plugins use to point at JSON
//! fields: `.`, `.a.b`, `.a[]`, `.a[3]`, `.a[-1]`, and chains of these.
//! Field names are jq identifiers (an ASCII letter or `_`, then ASCII
//! letters, digits and `_`); names that would need quoting, such as
//! `one-piece`, are not accepted. Every accepted path means the same under
//! real `jq`.

use vstd::prelude::*;

use crate::json::{obj_get, obj_values, object_get, Json};
use crate::text::{
    append, debug_str, spec_debug_str, decimal, digits_value, from_chars, is_digit, is_ws, trim_end, trim_start, lemma_decimal_value, lemma_digits_grow, owned,
    signed_decimal, to_chars, trim, trim_bounds,
};

verus! {

/// One step of a path, as data.
pub enum PathStep {
    /// `.name`
    Field(Seq<char>),
    /// `[n]`, negative counting from the end.
    Index(int),
    /// `[]`
    Iterate,
}

/// One parsed step of a path.
#[derive(Debug, Clone, PartialEq, Eq)]
pub enum Segment {
    /// `.name` — index into an object.
    Field(String),
    /// `[n]` — index into an array (negative counts from the end).
    Index(i64),
    /// `[]` — every element of an array, or every value of an object.
    Iterate,
}

impl Segment {
    /// This segment as data.
    pub open spec fn step(&self) -> PathStep {
        match self {
            Segment::Field(name) => PathStep::Field(name@),
            Segment::Index(i) => PathStep::Index(*i as int),
            Segment::Iterate => PathStep::Iterate,
        }
    }
}

/// Why a path string was refused.
pub enum ParseFailure {
    /// The (trimmed) path does not start with `.`.
    NoLeadingDot,
    /// A `.` is followed by a character that starts no step.
    AfterDot(char),
    /// A `[` is not closed by `]` after its optional `-` and digits.
    MissingBracket,
    /// The text between `[` and `]` is no `i64`.
    BadIndex(Seq<char>),
    /// A step starts with a character other than `.` or `[`.
    Unexpected(char),
}

/// The human-readable reason for a failure.
pub open spec fn failure_reason(f: ParseFailure) -> Seq<char> {
    match f {
        ParseFailure::NoLeadingDot => "path must start with '.'"@,
        ParseFailure::AfterDot(c) => "unexpected character '"@ + seq![c] + "' after '.'"@,
        ParseFailure::MissingBracket => "expected ']'"@,
        ParseFailure::BadIndex(d) => "invalid index '"@ + d + "'"@,
        ParseFailure::Unexpected(c) => "unexpected character '"@ + seq![c] + "'"@,
    }
}

/// An ASCII letter.
pub open spec fn ascii_letter(c: char) -> bool {
    ('a' <= c && c <= 'z') || ('A' <= c && c <= 'Z')
}

/// Characters a field name may start with, as in a jq identifier: an
/// ASCII letter or `_`.
pub open spec fn ident_start(c: char) -> bool {
    ascii_letter(c) || c == '_'
}

/// Characters a field name may hold, as in a jq identifier: ASCII letters,
/// digits and `_`. Anything else (such as `-`) ends the name.
pub open spec fn ident_char(c: char) -> bool {
    ascii_letter(c) || is_digit(c) || c == '_'
}

/// The end of the run of field-name characters starting at `p`.
pub open spec fn ident_end(t: Seq<char>, p: int) -> int
    decreases t.len() - p,
{
    if p < t.len() && ident_char(t[p]) {
        ident_end(t, p + 1)
    } else {
        p
    }
}

/// The end of the run of ASCII digits starting at `p`.
pub open spec fn digits_end(t: Seq<char>, p: int) -> int
    decreases t.len() - p,
{
    if 0 <= p < t.len() && is_digit(t[p]) {
        digits_end(t, p + 1)
    } else {
        p
    }
}

/// What `str::parse::<i64>` makes of an optional `-` followed by the
/// digits `ds`: `None` when there are no digits or the value does not fit.
pub open spec fn index_value(neg: bool, ds: Seq<char>) -> Option<int> {
    let v = if neg {
        -digits_value(ds)
    } else {
        digits_value(ds)
    };
    if ds.len() == 0 || v < i64::MIN || v > i64::MAX {
        None
    } else {
        Some(v)
    }
}

/// Parses the steps of `t` from position `p`, where `t[p]`, if any, starts
/// a step.
pub open spec fn parse_from(t: Seq<char>, p: int) -> Result<Seq<PathStep>, ParseFailure>
    decreases t.len() - p, 0int,
{
    if p < 0 || p >= t.len() {
        Ok(seq![])
    } else if t[p] == '.' {
        if p + 1 == t.len() {
            Ok(seq![])
        } else if t[p + 1] == '[' {
            parse_from(t, p + 1)
        } else if ident_start(t[p + 1]) {
            let q = ident_end(t, p + 1);
            if q <= p + 1 || q > t.len() {
                Ok(seq![])
            } else {
                prepend(PathStep::Field(t.subrange(p + 1, q)), parse_from(t, q))
            }
        } else {
            Err(ParseFailure::AfterDot(t[p + 1]))
        }
    } else if t[p] == '[' {
        let neg = p + 1 < t.len() && t[p + 1] == '-';
        let ds = if neg {
            p + 2
        } else {
            p + 1
        };
        let de = digits_end(t, ds);
        if de >= t.len() || t[de] != ']' || de < ds {
            Err(ParseFailure::MissingBracket)
        } else if !neg && de == ds {
            parse_from_after(t, de + 1, PathStep::Iterate)
        } else {
            match index_value(neg, t.subrange(ds, de)) {
                Some(v) => parse_from_after(t, de + 1, PathStep::Index(v)),
                None => Err(ParseFailure::BadIndex(t.subrange(p + 1, de))),
            }
        }
    } else {
        Err(ParseFailure::Unexpected(t[p]))
    }
}

/// `step` followed by the steps parsed from `q` on.
pub open spec fn parse_from_after(t: Seq<char>, q: int, step: PathStep) -> Result<
    Seq<PathStep>,
    ParseFailure,
>
    decreases t.len() - q, 1int,
{
    if q <= 0 {
        Ok(seq![])
    } else {
        prepend(step, parse_from(t, q))
    }
}

/// Puts `step` in front of a successful parse.
pub open spec fn prepend(step: PathStep, r: Result<Seq<PathStep>, ParseFailure>) -> Result<
    Seq<PathStep>,
    ParseFailure,
> {
    match r {
        Ok(s) => Ok(seq![step] + s),
        Err(e) => Err(e),
    }
}

/// The steps a path string denotes, or why it is refused.
pub open spec fn parse_steps(raw: Seq<char>) -> Result<Seq<PathStep>, ParseFailure> {
    let t = trim(raw);
    if t.len() == 0 || t[0] != '.' {
        Err(ParseFailure::NoLeadingDot)
    } else {
        parse_from(t, 0)
    }
}

/// The values one step reaches from `v`.
pub open spec fn step_one(step: PathStep, v: Json) -> Seq<Json> {
    match step {
        PathStep::Field(name) => match v {
            Json::Object(es) => match obj_get(es@, name) {
                Some(x) => seq![x],
                None => seq![],
            },
            _ => seq![],
        },
        PathStep::Index(i) => match v {
            Json::Array(a) => {
                let idx = if i < 0 {
                    i + a@.len()
                } else {
                    i
                };
                if 0 <= idx < a@.len() {
                    seq![a@[idx]]
                } else {
                    seq![]
                }
            },
            _ => seq![],
        },
        PathStep::Iterate => match v {
            Json::Array(a) => a@,
            Json::Object(es) => obj_values(es@),
            _ => seq![],
        },
    }
}

/// The values one step reaches from each of `vs`, in order.
pub open spec fn step_all(step: PathStep, vs: Seq<Json>) -> Seq<Json>
    decreases vs.len(),
{
    if vs.len() == 0 {
        seq![]
    } else {
        step_all(step, vs.drop_last()) + step_one(step, vs.last())
    }
}

/// The values a sequence of steps reaches from `vs`.
pub open spec fn eval_steps(steps: Seq<PathStep>, vs: Seq<Json>) -> Seq<Json>
    decreases steps.len(),
{
    if steps.len() == 0 {
        vs
    } else {
        eval_steps(steps.drop_first(), step_all(steps[0], vs))
    }
}

/// A parsed, ready-to-evaluate jq-style path.
#[derive(Debug, Clone, PartialEq, Eq)]
pub struct JqPath {
    segments: Vec<Segment>,
    raw: String,
}

/// The text of a path error: the refused path, quoted, and the reason.
pub open spec fn jq_error_text(raw: Seq<char>, reason: Seq<char>) -> Seq<char> {
    "invalid jq path "@ + spec_debug_str(raw) + ": "@ + reason
}

/// A path string that isn't valid syntax for the supported subset.
#[derive(Debug, Clone, PartialEq, Eq)]
pub struct JqPathError {
    raw: String,
    reason: String,
}

impl JqPathError {
    /// The refused path string.
    pub closed spec fn spec_raw(&self) -> Seq<char> {
        self.raw@
    }

    /// Why it was refused.
    pub closed spec fn spec_reason(&self) -> Seq<char> {
        self.reason@
    }

    /// Why the path was refused.
    pub fn reason(&self) -> (r: &str)
        ensures
            r@ == self.spec_reason(),
    {
        self.reason.as_str()
    }

    /// The error's text: `invalid jq path "<raw>": <reason>`.
    pub fn message(&self) -> (r: String)
        ensures
            r@ == jq_error_text(self.spec_raw(), self.spec_reason()),
    {
        let mut out = owned("invalid jq path ");
        let quoted = debug_str(self.raw.as_str());
        append(&mut out, quoted.as_str());
        append(&mut out, ": ");
        append(&mut out, self.reason.as_str());
        out
    }

    /// The refused path string, as given.
    pub fn raw(&self) -> (r: &str)
        ensures
            r@ == self.spec_raw(),
    {
        self.raw.as_str()
    }
}

impl JqPath {
    /// The steps of this path.
    pub closed spec fn steps(&self) -> Seq<PathStep> {
        self.segments@.map_values(|s: Segment| s.step())
    }

    /// The path string it was parsed from.
    pub closed spec fn spec_raw(&self) -> Seq<char> {
        self.raw@
    }

    /// The values this path reaches from `root`.
    pub open spec fn eval(&self, root: Json) -> Seq<Json> {
        eval_steps(self.steps(), seq![root])
    }
}

/// Whether `c` may start a field name.
pub fn is_ident_start(c: char) -> (r: bool)
    ensures
        r == ident_start(c),
{
    ('a' <= c && c <= 'z') || ('A' <= c && c <= 'Z') || c == '_'
}

/// Whether `c` may appear in a field name.
pub fn is_ident_char(c: char) -> (r: bool)
    ensures
        r == ident_char(c),
{
    ('a' <= c && c <= 'z') || ('A' <= c && c <= 'Z') || ('0' <= c && c <= '9') || c == '_'
}

/// Reads the field name starting at `p`; returns it and the position after
/// it.
pub fn take_ident(t: &Vec<char>, p: usize) -> (r: (String, usize))
    requires
        p <= t@.len(),
    ensures
        r.1 == ident_end(t@, p as int),
        p <= r.1 <= t@.len(),
        r.0@ == t@.subrange(p as int, r.1 as int),
{
    let mut q = p;
    while q < t.len() && is_ident_char(t[q])
        invariant
            p <= q <= t@.len(),
            ident_end(t@, p as int) == ident_end(t@, q as int),
        decreases t@.len() - q,
    {
        q = q + 1;
    }
    (from_chars(&t.as_slice()[p..q]), q)
}

proof fn lemma_ident_end_bounds(t: Seq<char>, p: int)
    requires
        0 <= p <= t.len(),
    ensures
        p <= ident_end(t, p) <= t.len(),
    decreases t.len() - p,
{
    if p < t.len() && ident_char(t[p]) {
        lemma_ident_end_bounds(t, p + 1);
    }
}

/// Reads the run of digits in `t[s..]`; returns where it ends and, when its
/// value is at most 2^63, that value.
fn read_digits(t: &Vec<char>, s: usize) -> (r: (usize, Option<u64>))
    requires
        s <= t@.len(),
    ensures
        r.0 == digits_end(t@, s as int),
        s <= r.0 <= t@.len(),
        forall|j: int| s <= j < r.0 ==> is_digit(t@[j]),
        match r.1 {
            Some(v) => v as int == digits_value(t@.subrange(s as int, r.0 as int)) && v
                <= 0x8000_0000_0000_0000u64,
            None => digits_value(t@.subrange(s as int, r.0 as int)) > 0x8000_0000_0000_0000u64,
        },
{
    let mut q = s;
    let mut acc: u64 = 0;
    let mut big = false;
    while q < t.len() && '0' <= t[q] && t[q] <= '9'
        invariant
            s <= q <= t@.len(),
            digits_end(t@, s as int) == digits_end(t@, q as int),
            forall|j: int| s <= j < q ==> is_digit(t@[j]),
            big ==> digits_value(t@.subrange(s as int, q as int)) > 0x8000_0000_0000_0000u64,
            !big ==> acc as int == digits_value(t@.subrange(s as int, q as int)) && acc
                <= 0x8000_0000_0000_0000u64,
        decreases t@.len() - q,
    {
        let c = t[q];
        proof {
            assert(t@.subrange(s as int, q + 1) == t@.subrange(s as int, q as int).push(c));
            lemma_digits_grow(t@.subrange(s as int, q as int), c);
        }
        if !big {
            let d = (c as u32 - '0' as u32) as u64;
            if acc > 0x0CCC_CCCC_CCCC_CCCDu64 {
                big = true;
            } else {
                let next = acc * 10 + d;
                if next > 0x8000_0000_0000_0000u64 {
                    big = true;
                } else {
                    acc = next;
                }
            }
        }
        q = q + 1;
    }
    if big {
        (q, None)
    } else {
        (q, Some(acc))
    }
}

proof fn lemma_digits_end_bounds(t: Seq<char>, p: int)
    requires
        0 <= p <= t.len(),
    ensures
        p <= digits_end(t, p) <= t.len(),
    decreases t.len() - p,
{
    if 0 <= p < t.len() && is_digit(t[p]) {
        lemma_digits_end_bounds(t, p + 1);
    }
}

impl JqPath {
    /// Parses a path like `.a.b[].c[2]`. Every path must start with `.`
    /// (after surrounding white space is trimmed).
    pub fn parse(raw: &str) -> (r: Result<JqPath, JqPathError>)
        ensures
            match parse_steps(raw@) {
                Ok(steps) => r matches Ok(p) && p.steps() == steps && p.spec_raw() == raw@,
                Err(f) => r matches Err(e) && e.spec_raw() == raw@ && e.spec_reason()
                    == failure_reason(f),
            },
    {
        let all = to_chars(raw);
        let (a, b) = trim_bounds(&all);
        let mut t: Vec<char> = Vec::new();
        let mut k = a;
        while k < b
            invariant
                a <= k <= b <= all@.len(),
                t@ == all@.subrange(a as int, k as int),
            decreases b - k,
        {
            t.push(all[k]);
            k = k + 1;
            proof {
                assert(all@.subrange(a as int, k as int) == all@.subrange(a as int, k - 1).push(
                    all@[k - 1],
                ));
            }
        }
        let ghost tt = t@;
        assert(tt == trim(raw@));
        if t.len() == 0 || t[0] != '.' {
            return Err(JqPathError { raw: owned(raw), reason: owned("path must start with '.'") });
        }
        let mut segments: Vec<Segment> = Vec::new();
        let mut p: usize = 0;
        loop
            invariant
                tt == t@,
                tt == trim(raw@),
                tt.len() > 0 && tt[0] == '.',
                p <= t@.len(),
                parse_from(tt, 0) == lift(segments@.map_values(|s: Segment| s.step()), parse_from(tt, p as int)),
            decreases t@.len() - p,
        {
            let ghost done = segments@.map_values(|s: Segment| s.step());
            if p >= t.len() {
                proof {
                    assert(parse_from(tt, p as int) == Ok::<Seq<PathStep>, ParseFailure>(seq![]));
                    assert(done + seq![] == done);
                    assert(parse_steps(raw@) == parse_from(tt, 0));
                }
                let out = JqPath { segments, raw: owned(raw) };
                assert(out.steps() == done);
                return Ok(out);
            }
            if t[p] == '.' {
                if p + 1 == t.len() {
                    proof {
                        assert(done + seq![] == done);
                    }
                    return Ok(JqPath { segments, raw: owned(raw) });
                }
                let c = t[p + 1];
                if c == '[' {
                    proof {
                        assert(parse_from(tt, p as int) == parse_from(tt, p + 1));
                    }
                    p = p + 1;
                } else if is_ident_start(c) {
                    proof {
                        lemma_ident_end_bounds(tt, p + 1);
                    }
                    let (ident, q) = take_ident(&t, p + 1);
                    let ghost step = PathStep::Field(tt.subrange(p + 1, q as int));
                    proof {
                        lemma_ident_end_bounds(tt, p + 2);
                        assert(ident_end(tt, p + 1) == ident_end(tt, p + 2));
                        assert(parse_from(tt, p as int) == prepend(step, parse_from(tt, q as int)));
                    }
                    segments.push(Segment::Field(ident));
                    proof {
                        assert(segments@.map_values(|s: Segment| s.step()) == done.push(step));
                        lemma_lift_push(done, step, parse_from(tt, q as int));
                    }
                    p = q;
                } else {
                    let mut reason = owned("unexpected character '");
                    let ghost r0 = reason@;
                    reason.push(c);
                    append(&mut reason, "' after '.'");
                    proof {
                        assert(r0.push(c) == r0 + seq![c]);
                        assert(parse_from(tt, p as int) == Err::<Seq<PathStep>, ParseFailure>(ParseFailure::AfterDot(c)));
                    }
                    return Err(JqPathError { raw: owned(raw), reason });
                }
            } else if t[p] != '[' {
                let c = t[p];
                let mut reason = owned("unexpected character '");
                let ghost r0 = reason@;
                reason.push(c);
                append(&mut reason, "'");
                proof {
                    assert(r0.push(c) == r0 + seq![c]);
                }
                return Err(JqPathError { raw: owned(raw), reason });
            } else {
                let neg = p + 1 < t.len() && t[p + 1] == '-';
                let ds = if neg { p + 2 } else { p + 1 };
                let (de, val) = read_digits(&t, ds);
                if de >= t.len() || t[de] != ']' {
                    return Err(JqPathError { raw: owned(raw), reason: owned("expected ']'") });
                }
                if !neg && de == ds {
                    proof {
                        assert(tt[p as int] == '[');
                        assert(de as int == digits_end(tt, ds as int));
                        assert(parse_from(tt, p as int) == parse_from_after(tt, de + 1, PathStep::Iterate));
                        assert(parse_from_after(tt, de + 1, PathStep::Iterate) == prepend(PathStep::Iterate, parse_from(tt, de + 1)));
                        assert(parse_from(tt, p as int) == prepend(PathStep::Iterate, parse_from(tt, de + 1)));
                    }
                    segments.push(Segment::Iterate);
                    proof {
                        assert(segments@.map_values(|s: Segment| s.step()) == done.push(PathStep::Iterate));
                        lemma_lift_push(done, PathStep::Iterate, parse_from(tt, de + 1));
                    }
                    p = de + 1;
                } else {
                    let ghost dv = digits_value(tt.subrange(ds as int, de as int));
                    let parsed: Option<i64> = match val {
                        Some(v) => {
                            if neg {
                                if v == 0x8000_0000_0000_0000u64 {
                                    Some(-0x8000_0000_0000_0000i64)
                                } else {
                                    Some(-(v as i64))
                                }
                            } else if v <= 0x7FFF_FFFF_FFFF_FFFFu64 {
                                Some(v as i64)
                            } else {
                                None
                            }
                        },
                        None => None,
                    };
                    let ok = de > ds && parsed.is_some();
                    if !ok {
                        let mut reason = owned("invalid index '");
                        let inner = from_chars(&t.as_slice()[p + 1..de]);
                        append(&mut reason, inner.as_str());
                        append(&mut reason, "'");
                        return Err(JqPathError { raw: owned(raw), reason });
                    }
                    let iv = parsed.unwrap();
                    proof {
                        let v = val.unwrap();
                        assert(v as int == dv);
                        if neg {
                            assert(iv as int == -dv);
                        } else {
                            assert(iv as int == dv);
                        }
                        assert(index_value(neg, tt.subrange(ds as int, de as int)) == Some(iv as int));
                        assert(tt[p as int] == '[');
                        assert(de as int == digits_end(tt, ds as int));
                        assert(!(!neg && de == ds));
                        assert(parse_from(tt, p as int) == parse_from_after(tt, de + 1, PathStep::Index(iv as int)));
                        assert(parse_from(tt, p as int) == prepend(PathStep::Index(iv as int), parse_from(tt, de + 1)));
                    }
                    segments.push(Segment::Index(iv));
                    proof {
                        assert(index_value(neg, tt.subrange(ds as int, de as int)) == Some(iv as int));
                        assert(tt[p as int] == '[');
                        assert(de as int == digits_end(tt, ds as int));
                        assert(!(!neg && de == ds));
                        assert(parse_from(tt, p as int) == parse_from_after(tt, de + 1, PathStep::Index(iv as int)));
                        assert(segments@.map_values(|s: Segment| s.step()) == done.push(PathStep::Index(iv as int)));
                        lemma_lift_push(done, PathStep::Index(iv as int), parse_from(tt, de + 1));
                    }
                    p = de + 1;
                }
            }
        }
    }
}

/// Appends to `out` the values one step reaches from `v`.
fn step_into<'a>(seg: &Segment, v: &'a Json, out: &mut Vec<&'a Json>)
    ensures
        derefs(final(out)@) == derefs(old(out)@) + step_one(seg.step(), *v),
{
    match seg {
        Segment::Field(name) => {
            if let Json::Object(es) = v {
                match object_get(es, name) {
                    Some(x) => {
                        out.push(x);
                        proof {
                            assert(derefs(out@) == derefs(old(out)@).push(*x));
                        }
                    },
                    None => {
                        assert(derefs(out@) == derefs(out@) + Seq::<Json>::empty());
                    },
                }
            }
        },
        Segment::Index(i) => {
            if let Json::Array(a) = v {
                let len = a.len();
                if *i < 0 {
                    let back: u64 = if *i == -0x8000_0000_0000_0000i64 {
                        0x8000_0000_0000_0000u64
                    } else {
                        (-*i) as u64
                    };
                    if back <= len as u64 {
                        let idx = len - back as usize;
                        if idx < len {
                            out.push(&a[idx]);
                            proof {
                                assert(derefs(out@) == derefs(old(out)@).push(a@[idx as int]));
                            }
                        }
                    }
                } else if (*i as u64) < len as u64 {
                    out.push(&a[*i as usize]);
                    proof {
                        assert(derefs(out@) == derefs(old(out)@).push(a@[*i as int]));
                    }
                }
            }
            proof {
                assert(derefs(old(out)@) + seq![] == derefs(old(out)@));
            }
        },
        Segment::Iterate => {
            match v {
                Json::Array(a) => {
                    let mut k: usize = 0;
                    let ghost start = out@;
                    while k < a.len()
                        invariant
                            k <= a@.len(),
                            derefs(out@) == derefs(start) + a@.take(k as int),
                        decreases a@.len() - k,
                    {
                        let ghost before = out@;
                        out.push(&a[k]);
                        k = k + 1;
                        proof {
                            assert(derefs(out@) == derefs(before).push(a@[k - 1]));
                            assert(a@.take(k as int) == a@.take(k - 1).push(a@[k - 1]));
                        }
                    }
                    proof {
                        assert(a@.take(a@.len() as int) == a@);
                    }
                },
                Json::Object(es) => {
                    let mut k: usize = 0;
                    let ghost start = out@;
                    while k < es.len()
                        invariant
                            k <= es@.len(),
                            derefs(out@) == derefs(start) + obj_values(es@.take(k as int)),
                        decreases es@.len() - k,
                    {
                        let ghost before = out@;
                        out.push(&es[k].1);
                        proof {
                            assert(derefs(out@) == derefs(before).push(es@[k as int].1));
                        }
                        k = k + 1;
                        proof {
                            assert(es@.take(k as int) == es@.take(k - 1).push(es@[k - 1]));
                            assert(obj_values(es@.take(k as int)) == obj_values(es@.take(k - 1)).push(es@[k - 1].1));
                        }
                    }
                    proof {
                        assert(es@.take(es@.len() as int) == es@);
                    }
                },
                _ => {
                    assert(derefs(out@) + Seq::<Json>::empty() == derefs(out@));
                },
            }
        },
    }
}

/// The values a sequence of references points at.
pub open spec fn derefs<'a>(s: Seq<&'a Json>) -> Seq<Json> {
    s.map_values(|r: &'a Json| *r)
}

impl JqPath {
    /// Evaluates the path against `root`, returning every value it reaches
    /// (0, 1, or many — many only when the path contains `[]`).
    pub fn eval_all<'a>(&self, root: &'a Json) -> (r: Vec<&'a Json>)
        ensures
            derefs(r@) == self.eval(*root),
    {
        let mut current: Vec<&'a Json> = Vec::new();
        current.push(root);
        proof {
            assert(derefs(current@) == seq![*root]);
        }
        let ghost steps = self.steps();
        let mut k: usize = 0;
        proof {
            assert(steps.skip(0) == steps);
        }
        while k < self.segments.len()
            invariant
                k <= self.segments@.len(),
                steps == self.steps(),
                steps.len() == self.segments@.len(),
                self.eval(*root) == eval_steps(steps.skip(k as int), derefs(current@)),
            decreases self.segments@.len() - k,
        {
            let seg = &self.segments[k];
            let mut next: Vec<&'a Json> = Vec::new();
            let mut j: usize = 0;
            while j < current.len()
                invariant
                    j <= current@.len(),
                    derefs(next@) == step_all(seg.step(), derefs(current@.take(j as int))),
                decreases current@.len() - j,
            {
                proof {
                    assert(derefs(current@.take(j + 1)).drop_last() == derefs(current@.take(j as int)));
                    assert(derefs(current@.take(j + 1)).last() == *current@[j as int]);
                }
                step_into(seg, current[j], &mut next);
                j = j + 1;
            }
            proof {
                assert(current@.take(current@.len() as int) == current@);
                assert(steps.skip(k as int)[0] == seg.step());
                assert(derefs(next@) == step_all(seg.step(), derefs(current@)));
                assert(steps.skip(k as int).drop_first() == steps.skip(k + 1));
            }
            current = next;
            k = k + 1;
        }
        proof {
            assert(steps.skip(k as int).len() == 0);
        }
        current
    }

    /// The first value the path reaches from `root`, if any.
    pub fn eval_first<'a>(&self, root: &'a Json) -> (r: Option<&'a Json>)
        ensures
            self.eval(*root).len() == 0 ==> r is None,
            self.eval(*root).len() > 0 ==> (r matches Some(x) && *x == self.eval(*root)[0]),
    {
        let all = self.eval_all(root);
        if all.len() == 0 {
            None
        } else {
            assert(derefs(all@)[0] == *all@[0]);
            Some(all[0])
        }
    }

    /// The original path string, as passed to [`JqPath::parse`].
    pub fn as_str(&self) -> (r: &str)
        ensures
            r@ == self.spec_raw(),
    {
        self.raw.as_str()
    }
}

/// Puts the already-parsed steps in front of a parse of the rest.
pub open spec fn lift(done: Seq<PathStep>, r: Result<Seq<PathStep>, ParseFailure>) -> Result<
    Seq<PathStep>,
    ParseFailure,
> {
    match r {
        Ok(s) => Ok(done + s),
        Err(e) => Err(e),
    }
}

proof fn lemma_lift_push(done: Seq<PathStep>, step: PathStep, r: Result<Seq<PathStep>, ParseFailure>)
    ensures
        lift(done, prepend(step, r)) == lift(done.push(step), r),
{
    match r {
        Ok(s) => {
            assert(done + (seq![step] + s) == done.push(step) + s);
        },
        Err(e) => {},
    }
}


/// Steps other than `[]` reach at most one value from at most one.
proof fn lemma_single_steps(steps: Seq<PathStep>, vs: Seq<Json>)
    requires
        vs.len() <= 1,
        forall|i: int| 0 <= i < steps.len() ==> !(#[trigger] steps[i] is Iterate),
    ensures
        eval_steps(steps, vs).len() <= 1,
    decreases steps.len(),
{
    if steps.len() > 0 {
        let st = steps[0];
        assert(!(steps[0] is Iterate));
        let next = step_all(st, vs);
        if vs.len() == 1 {
            assert(vs.drop_last().len() == 0);
            assert(step_all(st, vs.drop_last()) == Seq::<Json>::empty());
            assert(next == Seq::<Json>::empty() + step_one(st, vs.last()));
            assert(next.len() <= 1);
        } else {
            assert(next.len() == 0);
        }
        assert forall|i: int| 0 <= i < steps.drop_first().len() implies !(#[trigger] steps.drop_first()[i] is Iterate) by {
            assert(steps.drop_first()[i] == steps[i + 1]);
        }
        lemma_single_steps(steps.drop_first(), next);
    }
}

/// A path without `[]` reaches at most one value: only `[]` fans out.
pub proof fn law_single_valued_without_iterate(p: JqPath, root: Json)
    requires
        forall|i: int| 0 <= i < p.steps().len() ==> !(#[trigger] p.steps()[i] is Iterate),
    ensures
        p.eval(root).len() <= 1,
{
    lemma_single_steps(p.steps(), seq![root]);
}


/// Whether a name is a jq identifier: an ASCII letter or `_`, then ASCII
/// letters, digits and `_`.
pub open spec fn is_ident(n: Seq<char>) -> bool {
    n.len() > 0 && ident_start(n[0]) && forall|j: int| 0 <= j < n.len() ==> ident_char(#[trigger] n[j])
}

/// How a step is written: `.name`, `[n]` or `[]`.
pub open spec fn step_text(step: PathStep) -> Seq<char> {
    match step {
        PathStep::Field(n) => "."@ + n,
        PathStep::Index(i) => "["@ + signed_decimal(i) + "]"@,
        PathStep::Iterate => "[]"@,
    }
}

/// Steps written one after the other.
pub open spec fn steps_text(steps: Seq<PathStep>) -> Seq<char>
    decreases steps.len(),
{
    if steps.len() == 0 {
        Seq::empty()
    } else {
        step_text(steps[0]) + steps_text(steps.drop_first())
    }
}

/// The text of a path: its steps written out, after a leading `.` when
/// the first step is not a field (`.`, `.a[0]`, `.[]`).
pub open spec fn path_text(steps: Seq<PathStep>) -> Seq<char> {
    if steps.len() > 0 && steps[0] is Field {
        steps_text(steps)
    } else {
        "."@ + steps_text(steps)
    }
}

/// Whether steps can be written as a path: field names are identifiers
/// and indices fit an `i64`.
pub open spec fn writable(steps: Seq<PathStep>) -> bool {
    forall|i: int|
        0 <= i < steps.len() ==> match #[trigger] steps[i] {
            PathStep::Field(n) => is_ident(n),
            PathStep::Index(v) => i64::MIN <= v <= i64::MAX,
            PathStep::Iterate => true,
        }
}

proof fn lemma_ident_end_at(t: Seq<char>, p: int, k: int)
    requires
        0 <= p <= k <= t.len(),
        forall|j: int| p <= j < k ==> ident_char(#[trigger] t[j]),
        k == t.len() || !ident_char(t[k]),
    ensures
        ident_end(t, p) == k,
    decreases k - p,
{
    if p < k {
        lemma_ident_end_at(t, p + 1, k);
    }
}

proof fn lemma_digits_end_at(t: Seq<char>, p: int, k: int)
    requires
        0 <= p <= k <= t.len(),
        forall|j: int| p <= j < k ==> is_digit(#[trigger] t[j]),
        k == t.len() || !is_digit(t[k]),
    ensures
        digits_end(t, p) == k,
    decreases k - p,
{
    if p < k {
        lemma_digits_end_at(t, p + 1, k);
    }
}

/// The text of any steps starts with `.` or `[`, when there is one.
proof fn lemma_steps_text_head(steps: Seq<PathStep>)
    ensures
        steps.len() == 0 ==> steps_text(steps).len() == 0,
        steps.len() > 0 ==> steps_text(steps).len() > 0 && (steps_text(steps)[0] == '.' || steps_text(steps)[0]
            == '['),
{
    reveal_strlit(".");
    reveal_strlit("[");
    reveal_strlit("[]");
    if steps.len() > 0 {
        let st = step_text(steps[0]);
        assert(st.len() > 0 && (st[0] == '.' || st[0] == '['));
        assert(steps_text(steps)[0] == st[0]);
    }
}

/// Written steps parse back, from wherever they start in a text.
proof fn lemma_parse_written(t: Seq<char>, p: int, steps: Seq<PathStep>)
    requires
        0 <= p <= t.len(),
        t.subrange(p, t.len() as int) == steps_text(steps),
        writable(steps),
    ensures
        parse_from(t, p) == Ok::<Seq<PathStep>, ParseFailure>(steps),
    decreases steps.len(),
{
    reveal_strlit(".");
    reveal_strlit("[");
    reveal_strlit("]");
    reveal_strlit("[]");
    reveal_strlit("-");
    if steps.len() == 0 {
        assert(p == t.len());
        assert(steps =~= Seq::<PathStep>::empty());
    } else {
        let st = step_text(steps[0]);
        let rest = steps.drop_first();
        assert(writable(rest)) by {
            assert forall|i: int| 0 <= i < rest.len() implies match #[trigger] rest[i] {
                PathStep::Field(n) => is_ident(n),
                PathStep::Index(v) => i64::MIN <= v <= i64::MAX,
                PathStep::Iterate => true,
            } by {
                assert(rest[i] == steps[i + 1]);
            }
        }
        let whole = t.subrange(p, t.len() as int);
        assert(whole == st + steps_text(rest));
        let q = p + st.len();
        assert forall|k: int| 0 <= k < st.len() implies t[p + k] == #[trigger] st[k] by {
            assert(whole[k] == t[p + k]);
        }
        assert(t.subrange(q, t.len() as int) =~= steps_text(rest)) by {
            assert forall|k: int| 0 <= k < t.len() - q implies t.subrange(q, t.len() as int)[k] == steps_text(rest)[k] by {
                assert(whole[st.len() + k] == t[q + k]);
            }
        }
        lemma_steps_text_head(rest);
        let after_ok = q == t.len() || t[q] == '.' || t[q] == '[';
        assert(after_ok) by {
            if q < t.len() {
                assert(t[q] == whole[st.len() as int]);
                assert(steps_text(rest)[0] == whole[st.len() as int]);
            }
        }
        lemma_parse_written(t, q, rest);
        assert(steps[0] == match steps[0] {
            PathStep::Field(n) => PathStep::Field(n),
            PathStep::Index(v) => PathStep::Index(v),
            PathStep::Iterate => PathStep::Iterate,
        });
        match steps[0] {
            PathStep::Field(n) => {
                assert(is_ident(n));
                assert(st == "."@ + n);
                assert(st[0] == '.' && st[1] == n[0]);
                assert(t[p] == st[0]);
                assert(t[p + 1] == st[1]);
                assert forall|j: int| p + 1 <= j < q implies ident_char(#[trigger] t[j]) by {
                    assert(t[j] == st[j - p]);
                    assert(st[j - p] == n[j - p - 1]);
                }
                lemma_ident_end_at(t, p + 1, q);
                assert(t.subrange(p + 1, q) =~= n) by {
                    assert forall|j: int| 0 <= j < n.len() implies t.subrange(p + 1, q)[j] == n[j] by {
                        assert(t[p + 1 + j] == st[1 + j]);
                    }
                }
                assert(p + 1 < t.len() && t[p + 1] != '[' && ident_start(t[p + 1]));
                assert(parse_from(t, p) == prepend(PathStep::Field(n), parse_from(t, q)));
            },
            PathStep::Iterate => {
                assert(st == "[]"@);
                assert(st[0] == '[' && st[1] == ']');
                assert(t[p] == st[0] && t[p + 1] == st[1]);
                lemma_digits_end_at(t, p + 1, p + 1);
                assert(parse_from(t, p) == parse_from_after(t, p + 2, PathStep::Iterate));
                assert(parse_from(t, p) == prepend(PathStep::Iterate, parse_from(t, q)));
            },
            PathStep::Index(v) => {
                assert(st == "["@ + signed_decimal(v) + "]"@);
                assert(st[0] == '[');
                assert(t[p] == st[0]);
                if v < 0 {
                    let ds = decimal((-v) as nat);
                    lemma_decimal_value((-v) as nat);
                    assert(signed_decimal(v) == "-"@ + ds);
                    assert(st =~= seq!['[', '-'] + ds + seq![']']);
                    let de = p + 2 + ds.len();
                    assert(t[p + 1] == st[1]);
                    assert forall|j: int| p + 2 <= j < de implies is_digit(#[trigger] t[j]) by {
                        assert(t[j] == st[j - p]);
                        assert(st[j - p] == ds[j - p - 2]);
                    }
                    assert(t[de] == st[de - p]);
                    lemma_digits_end_at(t, p + 2, de);
                    assert(t.subrange(p + 2, de) =~= ds) by {
                        assert forall|j: int| 0 <= j < ds.len() implies t.subrange(p + 2, de)[j] == ds[j] by {
                            assert(t[p + 2 + j] == st[2 + j]);
                        }
                    }
                    assert(index_value(true, ds) == Some(v));
                    assert(q == de + 1);
                    assert(parse_from(t, p) == parse_from_after(t, de + 1, PathStep::Index(v)));
                    assert(parse_from(t, p) == prepend(PathStep::Index(v), parse_from(t, q)));
                } else {
                    let ds = decimal(v as nat);
                    lemma_decimal_value(v as nat);
                    assert(signed_decimal(v) == ds);
                    assert(st =~= seq!['['] + ds + seq![']']);
                    let de = p + 1 + ds.len();
                    assert(t[p + 1] == st[1]);
                    assert(st[1] == ds[0]);
                    assert(t[p + 1] != '-');
                    assert forall|j: int| p + 1 <= j < de implies is_digit(#[trigger] t[j]) by {
                        assert(t[j] == st[j - p]);
                        assert(st[j - p] == ds[j - p - 1]);
                    }
                    assert(t[de] == st[de - p]);
                    lemma_digits_end_at(t, p + 1, de);
                    assert(t.subrange(p + 1, de) =~= ds) by {
                        assert forall|j: int| 0 <= j < ds.len() implies t.subrange(p + 1, de)[j] == ds[j] by {
                            assert(t[p + 1 + j] == st[1 + j]);
                        }
                    }
                    assert(index_value(false, ds) == Some(v));
                    assert(q == de + 1);
                    assert(parse_from(t, p) == parse_from_after(t, de + 1, PathStep::Index(v)));
                    assert(parse_from(t, p) == prepend(PathStep::Index(v), parse_from(t, q)));
                }
            },
        }
        assert(parse_from(t, p) == prepend(steps[0], parse_from(t, q)));
        assert(seq![steps[0]] + rest =~= steps);
    }
}


/// The last character of written steps is `]` or a field-name character.
proof fn lemma_steps_text_last(steps: Seq<PathStep>)
    requires
        steps.len() > 0,
        writable(steps),
    ensures
        steps_text(steps).len() > 0,
        steps_text(steps).last() == ']' || ident_char(steps_text(steps).last()),
    decreases steps.len(),
{
    reveal_strlit(".");
    reveal_strlit("]");
    reveal_strlit("[]");
    let st = step_text(steps[0]);
    let rest = steps.drop_first();
    assert(steps_text(steps) == st + steps_text(rest));
    if rest.len() > 0 {
        assert(writable(rest)) by {
            assert forall|i: int| 0 <= i < rest.len() implies match #[trigger] rest[i] {
                PathStep::Field(n) => is_ident(n),
                PathStep::Index(v) => i64::MIN <= v <= i64::MAX,
                PathStep::Iterate => true,
            } by {
                assert(rest[i] == steps[i + 1]);
            }
        }
        lemma_steps_text_last(rest);
    } else {
        assert(steps_text(rest).len() == 0);
        assert(steps[0] == steps[0]);
        match steps[0] {
            PathStep::Field(n) => {
                assert(is_ident(n));
                assert(st.last() == n.last());
                assert(ident_char(n[n.len() - 1]));
            },
            PathStep::Index(v) => {
                assert(st.last() == ']');
            },
            PathStep::Iterate => {
                assert(st.last() == ']');
            },
        }
        assert(steps_text(steps) =~= st);
    }
}

/// Path grammar: every sequence of steps whose field names are jq
/// identifiers and whose indices fit an `i64`, written as a path (`.name`
/// for a field, `[n]` for an index, `[]` for iteration, after a leading
/// `.` when the first step is not a field), is accepted and parsed back
/// into exactly those steps.
pub proof fn law_path_text_round_trip(steps: Seq<PathStep>)
    requires
        writable(steps),
    ensures
        parse_steps(path_text(steps)) == Ok::<Seq<PathStep>, ParseFailure>(steps),
{
    reveal_strlit(".");
    reveal_strlit("[");
    reveal_strlit("]");
    reveal_strlit("[]");
    let t = path_text(steps);
    lemma_steps_text_head(steps);
    if steps.len() > 0 {
        lemma_steps_text_last(steps);
    }
    // No white space at either end, so trimming keeps the text.
    assert(t.len() > 0 && t[0] == '.');
    assert(!is_ws(t[0]));
    assert(!is_ws(t.last())) by {
        if steps.len() > 0 {
            assert(t.last() == steps_text(steps).last());
        } else {
            assert(t =~= "."@);
        }
    }
    assert(trim_start(t) == t);
    assert(trim_end(t) == t);
    assert(trim(t) == t);
    if steps.len() > 0 && steps[0] is Field {
        assert(t.subrange(0, t.len() as int) =~= steps_text(steps));
        lemma_parse_written(t, 0, steps);
    } else if steps.len() == 0 {
        assert(t =~= "."@);
        assert(t.len() == 1);
        assert(steps =~= Seq::<PathStep>::empty());
    } else {
        assert(t == "."@ + steps_text(steps));
        assert(steps_text(steps)[0] == '[') by {
            let st = step_text(steps[0]);
            assert(steps_text(steps) == st + steps_text(steps.drop_first()));
            match steps[0] {
                PathStep::Field(n) => {},
                PathStep::Index(v) => {
                    assert(st[0] == '[');
                },
                PathStep::Iterate => {
                    assert(st[0] == '[');
                },
            }
        }
        assert(t[1] == '[');
        assert(t.subrange(1, t.len() as int) =~= steps_text(steps));
        lemma_parse_written(t, 1, steps);
        assert(parse_from(t, 0) == parse_from(t, 1));
    }
}

/// Every character of the run `ident_end` measures is a field-name character.
proof fn lemma_ident_run(t: Seq<char>, p: int)
    requires
        0 <= p <= t.len(),
    ensures
        forall|j: int| p <= j < ident_end(t, p) ==> ident_char(#[trigger] t[j]),
    decreases t.len() - p,
{
    if p < t.len() && ident_char(t[p]) {
        lemma_ident_run(t, p + 1);
    }
}

/// A step in front of writable steps keeps them writable.
proof fn lemma_writable_prepend(step: PathStep, rest: Seq<PathStep>)
    requires
        writable(rest),
        writable(seq![step]),
    ensures
        writable(seq![step] + rest),
{
    let all = seq![step] + rest;
    assert forall|i: int| 0 <= i < all.len() implies match #[trigger] all[i] {
        PathStep::Field(n) => is_ident(n),
        PathStep::Index(v) => i64::MIN <= v <= i64::MAX,
        PathStep::Iterate => true,
    } by {
        if i == 0 {
            assert(all[0] == seq![step][0]);
        } else {
            assert(all[i] == rest[i - 1]);
        }
    }
}

/// Whatever `parse_from` accepts is writable.
proof fn lemma_parsed_writable(t: Seq<char>, p: int)
    ensures
        parse_from(t, p) is Ok ==> writable(parse_from(t, p)->Ok_0),
    decreases t.len() - p, 0int,
{
    if p < 0 || p >= t.len() {
    } else if t[p] == '.' {
        if p + 1 == t.len() {
        } else if t[p + 1] == '[' {
            lemma_parsed_writable(t, p + 1);
        } else if ident_start(t[p + 1]) {
            let q = ident_end(t, p + 1);
            if q <= p + 1 || q > t.len() {
            } else {
                lemma_parsed_writable(t, q);
                let n = t.subrange(p + 1, q);
                lemma_ident_run(t, p + 1);
                assert(is_ident(n)) by {
                    assert forall|j: int| 0 <= j < n.len() implies ident_char(#[trigger] n[j]) by {
                        assert(n[j] == t[p + 1 + j]);
                    }
                }
                assert(parse_from(t, p) == prepend(PathStep::Field(n), parse_from(t, q)));
                if parse_from(t, q) is Ok {
                    lemma_writable_prepend(PathStep::Field(n), parse_from(t, q)->Ok_0);
                }
            }
        }
    } else if t[p] == '[' {
        let neg = p + 1 < t.len() && t[p + 1] == '-';
        let ds = if neg {
            p + 2
        } else {
            p + 1
        };
        let de = digits_end(t, ds);
        if de >= t.len() || t[de] != ']' || de < ds {
        } else if !neg && de == ds {
            lemma_digits_end_bounds(t, ds);
            lemma_parsed_writable(t, de + 1);
            assert(parse_from(t, p) == parse_from_after(t, de + 1, PathStep::Iterate));
            assert(parse_from(t, p) == prepend(PathStep::Iterate, parse_from(t, de + 1)));
            if parse_from(t, de + 1) is Ok {
                lemma_writable_prepend(PathStep::Iterate, parse_from(t, de + 1)->Ok_0);
            }
        } else {
            match index_value(neg, t.subrange(ds, de)) {
                Some(v) => {
                    lemma_digits_end_bounds(t, ds);
                    lemma_parsed_writable(t, de + 1);
                    assert(i64::MIN <= v <= i64::MAX);
                    assert(parse_from(t, p) == parse_from_after(t, de + 1, PathStep::Index(v)));
                    assert(parse_from(t, p) == prepend(PathStep::Index(v), parse_from(t, de + 1)));
                    if parse_from(t, de + 1) is Ok {
                        lemma_writable_prepend(PathStep::Index(v), parse_from(t, de + 1)->Ok_0);
                    }
                },
                None => {},
            }
        }
    }
}

/// Path grammar, the other way: every step of an accepted path is
/// writable, so field names are jq identifiers and indices fit an `i64`.
pub proof fn law_parsed_steps_are_writable(raw: Seq<char>)
    requires
        parse_steps(raw) is Ok,
    ensures
        writable(parse_steps(raw)->Ok_0),
{
    lemma_parsed_writable(trim(raw), 0);
}

/// Whether `[]` occurs in a text.
pub open spec fn holds_iterate(t: Seq<char>) -> bool {
    exists|j: int| 0 <= j && j + 1 < t.len() && #[trigger] t[j] == '[' && t[j + 1] == ']'
}

/// What `parse_from` accepts from a text with no `[]` after `p` holds no
/// iteration step.
proof fn lemma_parsed_without_iterate(t: Seq<char>, p: int)
    requires
        forall|j: int| p <= j && j + 1 < t.len() ==> !(#[trigger] t[j] == '[' && t[j + 1] == ']'),
    ensures
        parse_from(t, p) is Ok ==> forall|i: int|
            0 <= i < parse_from(t, p)->Ok_0.len() ==> !(#[trigger] parse_from(t, p)->Ok_0[i] is Iterate),
    decreases t.len() - p, 0int,
{
    if p < 0 || p >= t.len() {
    } else if t[p] == '.' {
        if p + 1 == t.len() {
        } else if t[p + 1] == '[' {
            lemma_parsed_without_iterate(t, p + 1);
        } else if ident_start(t[p + 1]) {
            let q = ident_end(t, p + 1);
            if q <= p + 1 || q > t.len() {
            } else {
                lemma_parsed_without_iterate(t, q);
                let n = t.subrange(p + 1, q);
                assert(parse_from(t, p) == prepend(PathStep::Field(n), parse_from(t, q)));
                if parse_from(t, q) is Ok {
                    let all = parse_from(t, p)->Ok_0;
                    let rest = parse_from(t, q)->Ok_0;
                    assert(all == seq![PathStep::Field(n)] + rest);
                    assert forall|i: int| 0 <= i < all.len() implies !(#[trigger] all[i] is Iterate) by {
                        if i > 0 {
                            assert(all[i] == rest[i - 1]);
                        }
                    }
                }
            }
        }
    } else if t[p] == '[' {
        let neg = p + 1 < t.len() && t[p + 1] == '-';
        let ds = if neg {
            p + 2
        } else {
            p + 1
        };
        let de = digits_end(t, ds);
        if de >= t.len() || t[de] != ']' || de < ds {
        } else if !neg && de == ds {
            assert(t[p] == '[' && t[p + 1] == ']');
        } else {
            match index_value(neg, t.subrange(ds, de)) {
                Some(v) => {
                    lemma_digits_end_bounds(t, ds);
                    lemma_parsed_without_iterate(t, de + 1);
                    assert(parse_from(t, p) == parse_from_after(t, de + 1, PathStep::Index(v)));
                    assert(parse_from(t, p) == prepend(PathStep::Index(v), parse_from(t, de + 1)));
                    if parse_from(t, de + 1) is Ok {
                        let all = parse_from(t, p)->Ok_0;
                        let rest = parse_from(t, de + 1)->Ok_0;
                        assert(all == seq![PathStep::Index(v)] + rest);
                        assert forall|i: int| 0 <= i < all.len() implies !(#[trigger] all[i] is Iterate) by {
                            if i > 0 {
                                assert(all[i] == rest[i - 1]);
                            }
                        }
                    }
                },
                None => {},
            }
        }
    }
}

/// Dropping leading white space leaves a suffix of the text.
proof fn lemma_trim_start_suffix(s: Seq<char>) -> (k: int)
    ensures
        0 <= k <= s.len(),
        trim_start(s) == s.subrange(k, s.len() as int),
    decreases s.len(),
{
    if s.len() > 0 && is_ws(s[0]) {
        let k1 = lemma_trim_start_suffix(s.drop_first());
        assert(s.drop_first().subrange(k1, s.drop_first().len() as int) =~= s.subrange(k1 + 1, s.len() as int));
        k1 + 1
    } else {
        assert(s.subrange(0, s.len() as int) =~= s);
        0
    }
}

/// Dropping trailing white space leaves a prefix of the text.
proof fn lemma_trim_end_prefix(s: Seq<char>) -> (k: int)
    ensures
        0 <= k <= s.len(),
        trim_end(s) == s.subrange(0, k),
    decreases s.len(),
{
    if s.len() > 0 && is_ws(s.last()) {
        let k1 = lemma_trim_end_prefix(s.drop_last());
        assert(s.drop_last().subrange(0, k1) =~= s.subrange(0, k1));
        k1
    } else {
        assert(s.subrange(0, s.len() as int) =~= s);
        s.len() as int
    }
}

/// A path whose text holds no `[]` reaches at most one value from any
/// root: only `[]` fans out.
pub proof fn law_single_valued_without_brackets(raw: Seq<char>, root: Json)
    requires
        parse_steps(raw) is Ok,
        !holds_iterate(raw),
    ensures
        eval_steps(parse_steps(raw)->Ok_0, seq![root]).len() <= 1,
{
    let a = lemma_trim_start_suffix(raw);
    let mid = trim_start(raw);
    let b = lemma_trim_end_prefix(mid);
    let t = trim(raw);
    assert(t == mid.subrange(0, b));
    assert forall|j: int| 0 <= j && j + 1 < t.len() implies !(#[trigger] t[j] == '[' && t[j + 1] == ']') by {
        assert(t[j] == raw[a + j]);
        assert(t[j + 1] == raw[a + j + 1]);
        if t[j] == '[' && t[j + 1] == ']' {
            assert(raw[a + j] == '[' && raw[a + j + 1] == ']');
            assert(holds_iterate(raw));
        }
    }
    lemma_parsed_without_iterate(t, 0);
    lemma_single_steps(parse_steps(raw)->Ok_0, seq![root]);
}

} // verus!
