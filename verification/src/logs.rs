//! The daemon's log file, as `anime-notif logs` shows it: which of the
//! daily-rotated files is the current one, the last lines of it, and the
//! complete lines among bytes read while following it.

use vstd::prelude::*;

use crate::text::{append, has_prefix, joined, starts_with, string_of_range, to_chars};

verus! {

/// Prefix of the daily-rotated log files, named `<FILE_PREFIX>.<YYYY-MM-DD>`.
pub const FILE_PREFIX: &'static str = "anime-notif.log";

/// Whether `a` sorts strictly before `b`, character by character (the
/// order of `str`, since UTF-8 preserves code point order).
pub open spec fn lex_less(a: Seq<char>, b: Seq<char>) -> bool
    decreases a.len(),
{
    if b.len() == 0 {
        false
    } else if a.len() == 0 {
        true
    } else if a[0] != b[0] {
        a[0] < b[0]
    } else {
        lex_less(a.drop_first(), b.drop_first())
    }
}

/// `lex_less` is a strict total order on distinct strings.
pub proof fn lemma_lex_total(a: Seq<char>, b: Seq<char>)
    ensures
        a != b ==> (lex_less(a, b) || lex_less(b, a)),
        !(lex_less(a, b) && lex_less(b, a)),
        !lex_less(a, a),
    decreases a.len(),
{
    if a.len() == 0 || b.len() == 0 {
        if a.len() == 0 && b.len() == 0 {
            assert(a =~= b);
        }
    } else if a[0] != b[0] {
        assert(a[0] < b[0] || b[0] < a[0]);
    } else {
        lemma_lex_total(a.drop_first(), b.drop_first());
        if a != b {
            if a.drop_first() == b.drop_first() {
                assert(a =~= seq![a[0]] + a.drop_first());
                assert(b =~= seq![b[0]] + b.drop_first());
                assert(a == b);
            }
        }
    }
    if a.len() > 0 {
        lemma_lex_total(a.drop_first(), a.drop_first());
    }
}

/// `lex_less` is transitive.
pub proof fn lemma_lex_transitive(a: Seq<char>, b: Seq<char>, c: Seq<char>)
    requires
        lex_less(a, b),
        lex_less(b, c),
    ensures
        lex_less(a, c),
    decreases a.len(),
{
    if a.len() > 0 && b.len() > 0 && c.len() > 0 && a[0] == b[0] && b[0] == c[0] {
        lemma_lex_transitive(a.drop_first(), b.drop_first(), c.drop_first());
    }
}

/// Compares two strings in `str` order.
fn less_than(a: &Vec<char>, b: &Vec<char>) -> (r: bool)
    ensures
        r == lex_less(a@, b@),
{
    let mut i: usize = 0;
    proof {
        assert(a@.skip(0) == a@);
        assert(b@.skip(0) == b@);
    }
    while i < a.len() && i < b.len()
        invariant
            i <= a@.len(),
            i <= b@.len(),
            a@.subrange(0, i as int) == b@.subrange(0, i as int),
            lex_less(a@, b@) == lex_less(a@.skip(i as int), b@.skip(i as int)),
        decreases a@.len() - i,
    {
        if a[i] != b[i] {
            proof {
                assert(a@.skip(i as int)[0] == a@[i as int]);
                assert(b@.skip(i as int)[0] == b@[i as int]);
            }
            return a[i] < b[i];
        }
        proof {
            assert(a@.skip(i as int).drop_first() == a@.skip(i + 1));
            assert(b@.skip(i as int).drop_first() == b@.skip(i + 1));
            assert(a@.subrange(0, i + 1) == a@.subrange(0, i as int).push(a@[i as int]));
            assert(b@.subrange(0, i + 1) == b@.subrange(0, i as int).push(b@[i as int]));
        }
        i = i + 1;
    }
    i < b.len()
}

/// Whether a directory entry is a log file of the daemon.
pub open spec fn is_log_name(name: Seq<char>) -> bool {
    has_prefix(name, FILE_PREFIX@)
}

/// Picks the current log file among the names of a directory's entries:
/// the greatest (in `str` order) that starts with [`FILE_PREFIX`]. Dated
/// names sort chronologically, since `YYYY-MM-DD` is zero-padded.
pub fn latest_log_name(names: &Vec<String>) -> (r: Option<String>)
    ensures
        r is None <==> forall|i: int| 0 <= i < names@.len() ==> !is_log_name(#[trigger] names@[i]@),
        r matches Some(n) ==> is_log_name(n@) && (exists|i: int| 0 <= i < names@.len() && names@[i]@ == n@)
            && forall|i: int| 0 <= i < names@.len() && is_log_name(#[trigger] names@[i]@) ==> !lex_less(n@, names@[i]@),
{
    let mut best: Option<Vec<char>> = None;
    let mut best_index: usize = 0;
    let mut i: usize = 0;
    while i < names.len()
        invariant
            i <= names@.len(),
            best is None <==> forall|j: int| 0 <= j < i ==> !is_log_name(#[trigger] names@[j]@),
            best matches Some(b) ==> best_index < i && names@[best_index as int]@ == b@ && is_log_name(b@)
                && forall|j: int| 0 <= j < i && is_log_name(#[trigger] names@[j]@) ==> !lex_less(b@, names@[j]@),
        decreases names@.len() - i,
    {
        let name = names[i].as_str();
        if starts_with(name, FILE_PREFIX) {
            let cs = to_chars(name);
            let replace = match &best {
                None => true,
                Some(b) => less_than(b, &cs),
            };
            if replace {
                proof {
                    if best is Some {
                        let b = best->0;
                        assert forall|j: int| 0 <= j < i && is_log_name(#[trigger] names@[j]@) implies !lex_less(
                            cs@,
                            names@[j]@,
                        ) by {
                            lemma_lex_total(b@, names@[j]@);
                            if lex_less(cs@, names@[j]@) {
                                lemma_lex_total(cs@, b@);
                                if names@[j]@ == b@ {
                                } else {
                                    lemma_lex_transitive(b@, cs@, names@[j]@);
                                }
                            }
                        }
                    }
                    lemma_lex_total(cs@, cs@);
                }
                best = Some(cs);
                best_index = i;
            } else {
                proof {
                    if best is Some {
                        lemma_lex_total(best->0@, cs@);
                    }
                }
            }
        }
        i = i + 1;
    }
    match best {
        None => None,
        Some(_) => Some(names[best_index].clone()),
    }
}

/// The index of the first `\n` in `s`, or -1.
pub open spec fn first_newline(s: Seq<char>) -> int
    decreases s.len(),
{
    if s.len() == 0 {
        -1
    } else if s[0] == '\n' {
        0
    } else {
        let k = first_newline(s.drop_first());
        if k < 0 {
            -1
        } else {
            k + 1
        }
    }
}

/// A line without a final `\r`.
pub open spec fn without_cr(line: Seq<char>) -> Seq<char> {
    if line.len() > 0 && line.last() == '\r' {
        line.drop_last()
    } else {
        line
    }
}

/// The lines of `s`, as `str::lines` gives them: split at `\n`, a `\r`
/// before it dropped, no empty line after a final `\n`.
pub open spec fn lines_of(s: Seq<char>) -> Seq<Seq<char>>
    decreases s.len(),
{
    if s.len() == 0 {
        Seq::empty()
    } else {
        proof {
            lemma_first_newline(s);
        }
        let k = first_newline(s);
        if k < 0 {
            seq![s]
        } else {
            seq![without_cr(s.subrange(0, k))] + lines_of(s.subrange(k + 1, s.len() as int))
        }
    }
}

/// `first_newline` finds the first `\n`, if any.
pub proof fn lemma_first_newline(s: Seq<char>)
    ensures
        -1 <= first_newline(s) < s.len(),
        first_newline(s) >= 0 ==> s[first_newline(s)] == '\n',
        forall|j: int|
            0 <= j < (if first_newline(s) < 0 {
                s.len() as int
            } else {
                first_newline(s)
            }) ==> s[j] != '\n',
    decreases s.len(),
{
    if s.len() > 0 && s[0] != '\n' {
        lemma_first_newline(s.drop_first());
        let k = first_newline(s.drop_first());
        assert forall|j: int|
            0 <= j < (if first_newline(s) < 0 {
                s.len() as int
            } else {
                first_newline(s)
            }) implies s[j] != '\n' by {
            if j > 0 {
                assert(s[j] == s.drop_first()[j - 1]);
            }
        }
    }
}

/// The first `\n` from position `from` is at `k` (or there is none: -1).
proof fn lemma_first_newline_is(s: Seq<char>, k: int)
    requires
        -1 <= k < s.len(),
        k >= 0 ==> s[k] == '\n',
        forall|j: int| 0 <= j < (if k < 0 { s.len() as int } else { k }) ==> s[j] != '\n',
    ensures
        first_newline(s) == k,
    decreases s.len(),
{
    if s.len() > 0 && k != 0 {
        let k2 = if k < 0 { -1 } else { k - 1 };
        assert forall|j: int| 0 <= j < (if k2 < 0 { s.drop_first().len() as int } else { k2 }) implies s.drop_first()[j]
            != '\n' by {
            assert(s.drop_first()[j] == s[j + 1]);
        }
        lemma_first_newline_is(s.drop_first(), k2);
    }
}

/// The lines of a text.
fn split_lines(content: &str) -> (r: Vec<String>)
    ensures
        r@.map_values(|l: String| l@) == lines_of(content@),
{
    let cs = to_chars(content);
    let mut out: Vec<String> = Vec::new();
    let mut start: usize = 0;
    proof {
        assert(cs@.subrange(0, cs@.len() as int) == cs@);
    }
    while start < cs.len()
        invariant
            start <= cs@.len(),
            out@.map_values(|l: String| l@) + lines_of(cs@.subrange(start as int, cs@.len() as int)) == lines_of(cs@),
        decreases cs@.len() - start,
    {
        let ghost rest = cs@.subrange(start as int, cs@.len() as int);
        let mut k = start;
        while k < cs.len() && cs[k] != '\n'
            invariant
                start <= k <= cs@.len(),
                forall|j: int| start <= j < k ==> cs@[j] != '\n',
            decreases cs@.len() - k,
        {
            k = k + 1;
        }
        let mut end = k;
        if end > start && cs[end - 1] == '\r' && k < cs.len() {
            end = end - 1;
        }
        let line = string_of_range(&cs, start, end);
        let ghost before = out@;
        out.push(line);
        proof {
            let kk: int = if k < cs@.len() { k - start } else { -1 };
            assert forall|j: int| 0 <= j < (if kk < 0 { rest.len() as int } else { kk }) implies rest[j] != '\n' by {
                assert(rest[j] == cs@[start + j]);
            }
            lemma_first_newline_is(rest, kk);
            assert(out@.map_values(|l: String| l@) =~= before.map_values(|l: String| l@).push(line@));
            if k < cs@.len() {
                assert(rest.subrange(0, kk) == cs@.subrange(start as int, k as int));
                assert(rest.subrange(kk + 1, rest.len() as int) == cs@.subrange(k + 1, cs@.len() as int));
                assert(line@ == without_cr(rest.subrange(0, kk)));
            } else {
                assert(line@ == rest);
                assert(cs@.subrange(cs@.len() as int, cs@.len() as int).len() == 0);
            }
        }
        start = if k < cs.len() {
            k + 1
        } else {
            k
        };
    }
    proof {
        assert(cs@.subrange(start as int, cs@.len() as int).len() == 0);
        assert(out@.map_values(|l: String| l@) =~= out@.map_values(|l: String| l@) + Seq::<Seq<char>>::empty());
    }
    out
}

/// The last `n` lines of a text, each ending in a newline (a lone newline
/// when there are none).
pub open spec fn tail_text(content: Seq<char>, n: nat) -> Seq<char> {
    let all = lines_of(content);
    let start = if all.len() > n {
        all.len() - n
    } else {
        0
    };
    joined(all.skip(start as int), "\n"@) + "\n"@
}

/// The last `lines` lines of a log file's content, joined with newlines
/// and newline-terminated.
pub fn tail_lines(content: &str, lines: usize) -> (r: String)
    ensures
        r@ == tail_text(content@, lines as nat),
{
    let all = split_lines(content);
    let start: usize = if all.len() > lines {
        all.len() - lines
    } else {
        0
    };
    let mut kept: Vec<String> = Vec::new();
    let mut i = start;
    while i < all.len()
        invariant
            start <= i <= all@.len(),
            kept@ == all@.subrange(start as int, i as int),
        decreases all@.len() - i,
    {
        kept.push(all[i].clone());
        proof {
            assert(all@.subrange(start as int, i + 1) == all@.subrange(start as int, i as int).push(all@[i as int]));
        }
        i = i + 1;
    }
    let mut out = crate::text::join_with(&kept, "\n");
    out.push('\n');
    proof {
        reveal_strlit("\n");
        assert(kept@.map_values(|l: String| l@) =~= all@.map_values(|l: String| l@).skip(start as int));
    }
    out
}


/// The bytes of `lines`, each followed by a newline.
pub open spec fn newline_terminated(lines: Seq<Seq<u8>>) -> Seq<u8>
    decreases lines.len(),
{
    if lines.len() == 0 {
        Seq::empty()
    } else {
        newline_terminated(lines.drop_last()) + lines.last() + seq![10u8]
    }
}

/// The byte contents of a list of lines.
pub open spec fn byte_lines(v: Seq<Vec<u8>>) -> Seq<Seq<u8>> {
    v.map_values(|l: Vec<u8>| l@)
}

/// Takes the complete lines off the front of bytes read so far from a
/// followed log file: each line without its newline, in order; the bytes
/// after the last newline (an unfinished line) stay in `pending`.
pub fn take_complete_lines(pending: &mut Vec<u8>) -> (r: Vec<Vec<u8>>)
    ensures
        old(pending)@ == newline_terminated(byte_lines(r@)) + final(pending)@,
        !final(pending)@.contains(10u8),
        forall|i: int| 0 <= i < r@.len() ==> !(#[trigger] r@[i])@.contains(10u8),
{
    let ghost start = pending@;
    let mut lines: Vec<Vec<u8>> = Vec::new();
    let mut cur: Vec<u8> = Vec::new();
    let mut i: usize = 0;
    while i < pending.len()
        invariant
            i <= pending@.len(),
            pending@ == start,
            start.take(i as int) == newline_terminated(byte_lines(lines@)) + cur@,
            !cur@.contains(10u8),
            forall|k: int| 0 <= k < lines@.len() ==> !(#[trigger] lines@[k])@.contains(10u8),
        decreases pending@.len() - i,
    {
        let b = pending[i];
        proof {
            assert(start.take(i + 1) == start.take(i as int).push(b));
        }
        if b == 10u8 {
            let ghost before = byte_lines(lines@);
            let done = cur;
            cur = Vec::new();
            lines.push(done);
            proof {
                assert(byte_lines(lines@).drop_last() =~= before);
                assert(byte_lines(lines@).last() == done@);
                assert(cur@ =~= Seq::<u8>::empty());
            }
        } else {
            let ghost old_cur = cur@;
            cur.push(b);
            proof {
                assert(cur@ == old_cur.push(b));
                if cur@.contains(10u8) {
                    let k = choose|k: int| 0 <= k < cur@.len() && cur@[k] == 10u8;
                    if k < old_cur.len() {
                        assert(old_cur[k] == 10u8);
                    }
                }
            }
        }
        i = i + 1;
    }
    proof {
        assert(start.take(i as int) == start);
    }
    *pending = cur;
    lines
}

} // verus!
