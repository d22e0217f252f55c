//! Character-level text utilities: the whitespace and digit classes the
//! parsers use, case folding for locale-tolerant matching, trimming, and
//! line splitting.

use vstd::prelude::*;

verus! {

/// The whitespace characters this library trims and skips: the ASCII blanks
/// that occur in console table output.
pub open spec fn is_space_char(c: char) -> bool {
    c == ' ' || c == '\t' || c == '\r' || c == '\n'
}

pub fn is_space(c: char) -> (r: bool)
    ensures
        r == is_space_char(c),
{
    c == ' ' || c == '\t' || c == '\r' || c == '\n'
}

pub open spec fn is_digit_char(c: char) -> bool {
    48 <= c as u32 <= 57
}

pub fn is_digit(c: char) -> (r: bool)
    ensures
        r == is_digit_char(c),
{
    let u = c as u32;
    48 <= u && u <= 57
}

/// Lower-cases ASCII letters and the accented Latin-1 letters that appear in
/// the localized header and key tables; every other character is unchanged.
pub open spec fn lower_char(c: char) -> char {
    let u = c as u32;
    if 65 <= u <= 90 {
        // 'A'..='Z'
        ((u + 32) as u8) as char
    } else if 192 <= u <= 222 && u != 215 {
        // 'À'..='Þ' except the multiplication sign
        ((u + 32) as u8) as char
    } else {
        c
    }
}

pub fn to_lower(c: char) -> (r: char)
    ensures
        r == lower_char(c),
{
    let u = c as u32;
    if (65 <= u && u <= 90) || (192 <= u && u <= 222 && u != 215) {
        ((u + 32) as u8) as char
    } else {
        c
    }
}

/// A sequence of characters, each lower-cased.
pub open spec fn lower_seq(s: Seq<char>) -> Seq<char> {
    s.map_values(|c: char| lower_char(c))
}

/// The characters of `s`, in order.
pub fn str_chars(s: &str) -> (v: Vec<char>)
    ensures
        v@ == s@,
{
    let n = s.unicode_len();
    let mut v: Vec<char> = Vec::new();
    let mut i: usize = 0;
    while i < n
        invariant
            n == s@.len(),
            i <= n,
            v@ == s@.subrange(0, i as int),
        decreases n - i,
    {
        v.push(s.get_char(i));
        i += 1;
        proof {
            assert(v@ =~= s@.subrange(0, i as int));
        }
    }
    proof {
        assert(v@ =~= s@);
    }
    v
}

/// Index of the first non-space character at or after `i`, or `s.len()`.
pub open spec fn skip_spaces_from(s: Seq<char>, i: int) -> int
    decreases s.len() - i,
{
    if 0 <= i < s.len() && is_space_char(s[i]) {
        skip_spaces_from(s, i + 1)
    } else {
        i
    }
}

/// Index just after the last non-space character strictly before `i`, or 0.
pub open spec fn trim_end_from(s: Seq<char>, i: int) -> int
    decreases i,
{
    if 0 < i <= s.len() && is_space_char(s[i - 1]) {
        trim_end_from(s, i - 1)
    } else {
        i
    }
}

/// `s` with leading and trailing whitespace removed.
pub open spec fn trim_seq(s: Seq<char>) -> Seq<char> {
    let a = skip_spaces_from(s, 0);
    let b = trim_end_from(s, s.len() as int);
    if a >= b {
        Seq::<char>::empty()
    } else {
        s.subrange(a, b)
    }
}

/// The trim bounds of `v`: start and end of the non-whitespace middle.
pub fn trim_bounds(v: &Vec<char>) -> (r: (usize, usize))
    ensures
        r.0 as int == skip_spaces_from(v@, 0),
        r.1 as int == trim_end_from(v@, v@.len() as int),
        r.0 <= v.len(),
        r.1 <= v.len(),
{
    let n = v.len();
    let mut a: usize = 0;
    while a < n && is_space(v[a])
        invariant
            a <= n,
            n == v@.len(),
            skip_spaces_from(v@, 0) == skip_spaces_from(v@, a as int),
        decreases n - a,
    {
        a += 1;
    }
    let mut b: usize = n;
    while b > 0 && is_space(v[b - 1])
        invariant
            b <= n,
            n == v@.len(),
            trim_end_from(v@, n as int) == trim_end_from(v@, b as int),
        decreases b,
    {
        b -= 1;
    }
    (a, b)
}

/// `s` with leading and trailing whitespace removed.
pub fn trim_str(s: &str) -> (r: String)
    ensures
        r@ == trim_seq(s@),
{
    let v = str_chars(s);
    let (a, b) = trim_bounds(&v);
    if a >= b {
        String::new()
    } else {
        s.substring_char(a, b).to_owned()
    }
}

/// Index of the first `'\n'` at or after `i`, or `s.len()`.
pub open spec fn find_nl_from(s: Seq<char>, i: int) -> int
    decreases s.len() - i,
{
    if 0 <= i < s.len() {
        if s[i] == '\n' {
            i
        } else {
            find_nl_from(s, i + 1)
        }
    } else {
        s.len() as int
    }
}

pub proof fn lemma_find_nl_bounds(s: Seq<char>, i: int)
    requires
        0 <= i <= s.len(),
    ensures
        i <= find_nl_from(s, i) <= s.len(),
    decreases s.len() - i,
{
    if i < s.len() && s[i] != '\n' {
        lemma_find_nl_bounds(s, i + 1);
    }
}

/// `l` without a single trailing carriage return, if one is present.
pub open spec fn strip_tail_cr(l: Seq<char>) -> Seq<char> {
    if l.len() > 0 && l[l.len() - 1] == '\r' {
        l.drop_last()
    } else {
        l
    }
}

/// Index just after the last `'\r'` strictly before `i`, or 0 if none.
pub open spec fn after_last_cr_from(l: Seq<char>, i: int) -> int
    decreases i,
{
    if 0 < i <= l.len() {
        if l[i - 1] == '\r' {
            i
        } else {
            after_last_cr_from(l, i - 1)
        }
    } else {
        0
    }
}

/// The text after the final carriage return of `l`, or all of `l` if it
/// has none: the final rendered state of an in-place progress overwrite.
/// A line ending in a bare carriage return was cut off mid-redraw, so
/// nothing of it remains.
pub open spec fn resolve_overwrites(l: Seq<char>) -> Seq<char> {
    l.subrange(after_last_cr_from(l, l.len() as int), l.len() as int)
}

/// `resolve_overwrites` for a segment that a newline terminated: there a
/// single trailing carriage return is the remnant of a CRLF line ending,
/// not an overwrite, and is dropped before resolving.
pub open spec fn resolve_terminated(l: Seq<char>) -> Seq<char> {
    resolve_overwrites(strip_tail_cr(l))
}

/// Resolves in-place progress overwrites in one line: a spinner that
/// redraws with carriage returns leaves only the text after its final
/// carriage return.
pub fn resolve_progress_line(line: &str) -> (r: String)
    ensures
        r@ == resolve_overwrites(line@),
{
    let v = str_chars(line);
    let n = v.len();
    let mut b: usize = n;
    while b > 0 && v[b - 1] != '\r'
        invariant
            b <= n,
            n == v@.len(),
            v@ == line@,
            after_last_cr_from(line@, n as int) == after_last_cr_from(line@, b as int),
        decreases b,
    {
        b -= 1;
    }
    proof {
        assert(after_last_cr_from(line@, b as int) == b);
        assert(line@.subrange(b as int, n as int) =~= resolve_overwrites(line@));
    }
    line.substring_char(b, n).to_owned()
}

/// Resolves a newline-terminated segment: drops the CRLF leftover, then
/// keeps the text after the final carriage return.
fn resolve_terminated_segment(seg: &str) -> (r: String)
    ensures
        r@ == resolve_terminated(seg@),
{
    let v = str_chars(seg);
    let n = v.len();
    let end: usize = if n > 0 && v[n - 1] == '\r' {
        n - 1
    } else {
        n
    };
    let mut b: usize = end;
    while b > 0 && v[b - 1] != '\r'
        invariant
            b <= end,
            end <= n,
            n == v@.len(),
            v@ == seg@,
            strip_tail_cr(seg@) =~= seg@.subrange(0, end as int),
            after_last_cr_from(strip_tail_cr(seg@), end as int) == after_last_cr_from(
                strip_tail_cr(seg@),
                b as int,
            ),
        decreases b,
    {
        proof {
            assert(strip_tail_cr(seg@)[b - 1] == seg@[b - 1]);
        }
        b -= 1;
    }
    proof {
        let t = strip_tail_cr(seg@);
        assert(after_last_cr_from(t, b as int) == b);
        assert(seg@.subrange(b as int, end as int) =~= resolve_terminated(seg@));
    }
    seg.substring_char(b, end).to_owned()
}

/// The segments of `s` between `'\n'` characters, beginning at `start`;
/// empty segments are kept, so a trailing newline yields a final empty
/// segment.
pub open spec fn split_from(s: Seq<char>, start: int) -> Seq<Seq<char>>
    decreases s.len() - start,
    via split_from_decreases
{
    let n = find_nl_from(s, start);
    if start < 0 || n >= s.len() {
        seq![s.subrange(start, s.len() as int)]
    } else {
        seq![s.subrange(start, n)] + split_from(s, n + 1)
    }
}

#[via_fn]
proof fn split_from_decreases(s: Seq<char>, start: int) {
    if 0 <= start <= s.len() {
        lemma_find_nl_bounds(s, start);
    }
}

/// The lines of `s` in the sense of console text: split at `'\n'`, each
/// terminated line stripped of a trailing `'\r'`, and no final empty line.
pub open spec fn lines_from(s: Seq<char>, start: int) -> Seq<Seq<char>>
    decreases s.len() - start,
    via lines_from_decreases
{
    if start < 0 || start >= s.len() {
        Seq::<Seq<char>>::empty()
    } else {
        let n = find_nl_from(s, start);
        if n >= s.len() {
            seq![s.subrange(start, s.len() as int)]
        } else {
            seq![strip_tail_cr(s.subrange(start, n))] + lines_from(s, n + 1)
        }
    }
}

#[via_fn]
proof fn lines_from_decreases(s: Seq<char>, start: int) {
    if 0 <= start <= s.len() {
        lemma_find_nl_bounds(s, start);
    }
}

pub open spec fn lines_of(s: Seq<char>) -> Seq<Seq<char>> {
    lines_from(s, 0)
}

/// The views of a vector of owned lines.
pub open spec fn string_views(v: Seq<String>) -> Seq<Seq<char>> {
    v.map_values(|x: String| x@)
}

/// Splits `s` into lines: at `'\n'`, dropping one trailing `'\r'` from each
/// terminated line, with no final empty line for a trailing newline.
pub fn split_lines(s: &str) -> (r: Vec<String>)
    ensures
        string_views(r@) == lines_of(s@),
{
    let v = str_chars(s);
    let n = v.len();
    let mut r: Vec<String> = Vec::new();
    let mut start: usize = 0;
    let mut i: usize = 0;
    while i < n
        invariant
            start <= i <= n,
            n == v@.len(),
            v@ == s@,
            find_nl_from(s@, start as int) == find_nl_from(s@, i as int),
            lines_of(s@) == string_views(r@) + lines_from(s@, start as int),
        decreases n - i,
    {
        if v[i] == '\n' {
            let seg_end: usize = if i > start && v[i - 1] == '\r' {
                i - 1
            } else {
                i
            };
            let line = s.substring_char(start, seg_end).to_owned();
            proof {
                assert(find_nl_from(s@, start as int) == find_nl_from(s@, i as int));
                assert(line@ =~= strip_tail_cr(s@.subrange(start as int, i as int)));
                assert(string_views(r@.push(line)) =~= string_views(r@) + seq![line@]);
                assert(string_views(r@) + lines_from(s@, start as int) =~= string_views(
                    r@.push(line),
                ) + lines_from(s@, i + 1));
            }
            r.push(line);
            start = i + 1;
        }
        i += 1;
    }
    if start < n {
        let line = s.substring_char(start, n).to_owned();
        proof {
            assert(find_nl_from(s@, start as int) == find_nl_from(s@, n as int));
            assert(lines_from(s@, start as int) =~= seq![line@]);
            assert(string_views(r@.push(line)) =~= string_views(r@) + seq![line@]);
        }
        r.push(line);
        proof {
            assert(string_views(r@) =~= lines_of(s@));
        }
        r
    } else {
        proof {
            assert(lines_from(s@, start as int) =~= Seq::<Seq<char>>::empty());
            assert(string_views(r@) =~= lines_of(s@));
        }
        r
    }
}

/// Splits `s` at every `'\n'`, keeping empty segments, so that joining the
/// result with `'\n'` rebuilds `s`.
pub fn split_keep_all(s: &str) -> (r: Vec<String>)
    ensures
        string_views(r@) == split_from(s@, 0),
{
    let v = str_chars(s);
    let n = v.len();
    let mut r: Vec<String> = Vec::new();
    let mut start: usize = 0;
    let mut i: usize = 0;
    while i < n
        invariant
            start <= i <= n,
            n == v@.len(),
            v@ == s@,
            find_nl_from(s@, start as int) == find_nl_from(s@, i as int),
            split_from(s@, 0) == string_views(r@) + split_from(s@, start as int),
        decreases n - i,
    {
        if v[i] == '\n' {
            let line = s.substring_char(start, i).to_owned();
            proof {
                assert(string_views(r@.push(line)) =~= string_views(r@) + seq![line@]);
                assert(string_views(r@) + split_from(s@, start as int) =~= string_views(
                    r@.push(line),
                ) + split_from(s@, i + 1));
            }
            r.push(line);
            start = i + 1;
        }
        i += 1;
    }
    let line = s.substring_char(start, n).to_owned();
    proof {
        lemma_find_nl_bounds(s@, start as int);
        assert(split_from(s@, start as int) =~= seq![line@]);
        assert(string_views(r@.push(line)) =~= string_views(r@) + seq![line@]);
    }
    r.push(line);
    proof {
        assert(string_views(r@) =~= split_from(s@, 0));
    }
    r
}

/// The segments joined back together with `'\n'` between them.
pub open spec fn join_nl(parts: Seq<Seq<char>>) -> Seq<char>
    decreases parts.len(),
{
    if parts.len() == 0 {
        Seq::<char>::empty()
    } else if parts.len() == 1 {
        parts[0]
    } else {
        parts[0] + seq!['\n'] + join_nl(parts.drop_first())
    }
}

fn join_from(parts: &Vec<String>, i: usize) -> (r: String)
    requires
        i <= parts.len(),
    ensures
        r@ == join_nl(string_views(parts@).skip(i as int)),
    decreases parts.len() - i,
{
    let ghost views = string_views(parts@);
    proof {
        assert(views.skip(i as int).len() == parts@.len() - i);
    }
    if i >= parts.len() {
        String::new()
    } else if i + 1 == parts.len() {
        proof {
            assert(views.skip(i as int)[0] == parts@[i as int]@);
        }
        parts[i].clone()
    } else {
        let mut x = parts[i].clone();
        let rest = join_from(parts, i + 1);
        x.append("\n");
        x.append(rest.as_str());
        proof {
            assert(views.skip(i as int)[0] == parts@[i as int]@);
            assert(views.skip(i as int).drop_first() =~= views.skip(i + 1));
            assert(seq!['\n'] =~= "\n"@) by {
                reveal_strlit("\n");
            }
        }
        x
    }
}

/// Raw process text after line-ending normalization and progress-overwrite
/// resolution: CRLF becomes LF — a trailing carriage return on every
/// newline-terminated segment is dropped as the CRLF remnant — and each
/// line then keeps only the text after its final carriage return. The
/// final segment of unterminated output gets no CRLF treatment: a bare
/// carriage return at its end is an overwrite cut off mid-redraw, after
/// which nothing remains.
pub open spec fn normalize_spec(s: Seq<char>) -> Seq<char> {
    let parts = split_from(s, 0);
    join_nl(
        Seq::new(
            parts.len(),
            |i: int|
                if i + 1 < parts.len() {
                    resolve_terminated(parts[i])
                } else {
                    resolve_overwrites(parts[i])
                },
        ),
    )
}

/// Cleans raw captured output: normalizes line endings and resolves
/// in-place progress overwrites line by line.
pub fn normalize_output(raw: &str) -> (r: String)
    ensures
        r@ == normalize_spec(raw@),
{
    let parts = split_keep_all(raw);
    let ghost split = split_from(raw@, 0);
    let ghost mapped = Seq::new(
        split.len(),
        |i: int|
            if i + 1 < split.len() {
                resolve_terminated(split[i])
            } else {
                resolve_overwrites(split[i])
            },
    );
    let n = parts.len();
    let mut resolved: Vec<String> = Vec::new();
    let mut i: usize = 0;
    while i < n
        invariant
            i <= n,
            n == parts@.len(),
            string_views(parts@) == split,
            mapped == Seq::new(
                split.len(),
                |k: int|
                    if k + 1 < split.len() {
                        resolve_terminated(split[k])
                    } else {
                        resolve_overwrites(split[k])
                    },
            ),
            string_views(resolved@) =~= mapped.take(i as int),
        decreases n - i,
    {
        let line = if i + 1 < n {
            resolve_terminated_segment(parts[i].as_str())
        } else {
            resolve_progress_line(parts[i].as_str())
        };
        proof {
            assert(line@ == mapped[i as int]);
            assert(string_views(resolved@.push(line)) =~= string_views(resolved@) + seq![line@]);
            assert(mapped.take(i + 1) =~= mapped.take(i as int) + seq![mapped[i as int]]);
        }
        resolved.push(line);
        i += 1;
    }
    proof {
        assert(string_views(resolved@) =~= mapped);
    }
    join_from(&resolved, 0)
}

/// Whether a lowered `s` equals the (already lower-case) `lit`.
pub fn lower_eq(s: &str, lit: &str) -> (r: bool)
    ensures
        r == (lower_seq(s@) == lit@),
{
    let sv = str_chars(s);
    let lv = str_chars(lit);
    if sv.len() != lv.len() {
        proof {
            assert(lower_seq(s@).len() == s@.len());
        }
        return false;
    }
    let n = sv.len();
    let mut i: usize = 0;
    while i < n
        invariant
            i <= n,
            n == sv@.len() == lv@.len(),
            sv@ == s@,
            lv@ == lit@,
            forall|k: int| 0 <= k < i ==> lower_char(s@[k]) == lit@[k],
        decreases n - i,
    {
        if to_lower(sv[i]) != lv[i] {
            proof {
                assert(lower_seq(s@)[i as int] != lit@[i as int]);
            }
            return false;
        }
        i += 1;
    }
    proof {
        assert(lower_seq(s@) =~= lit@);
    }
    true
}

/// Whether two strings hold the same characters.
pub fn str_eq(a: &str, b: &str) -> (r: bool)
    ensures
        r == (a@ == b@),
{
    let av = str_chars(a);
    let bv = str_chars(b);
    if av.len() != bv.len() {
        return false;
    }
    let n = av.len();
    let mut i: usize = 0;
    while i < n
        invariant
            i <= n,
            n == av@.len() == bv@.len(),
            av@ == a@,
            bv@ == b@,
            forall|k: int| 0 <= k < i ==> a@[k] == b@[k],
        decreases n - i,
    {
        if av[i] != bv[i] {
            proof {
                assert(a@[i as int] != b@[i as int]);
            }
            return false;
        }
        i += 1;
    }
    proof {
        assert(a@ =~= b@);
    }
    true
}

/// Whether `c` occurs in `s`.
pub fn contains_char(s: &str, c: char) -> (r: bool)
    ensures
        r == s@.contains(c),
{
    let v = str_chars(s);
    let n = v.len();
    let mut i: usize = 0;
    while i < n
        invariant
            i <= n,
            n == v@.len(),
            v@ == s@,
            forall|k: int| 0 <= k < i ==> s@[k] != c,
        decreases n - i,
    {
        if v[i] == c {
            proof {
                assert(s@[i as int] == c);
            }
            return true;
        }
        i += 1;
    }
    proof {
        assert(!s@.contains(c)) by {
            if s@.contains(c) {
                let j = choose|j: int| 0 <= j < s@.len() && s@[j] == c;
                assert(s@[j] != c);
            }
        }
    }
    false
}

/// Index of the first occurrence of `c` at or after `i`, or `s.len()`.
pub open spec fn find_char_from(s: Seq<char>, c: char, i: int) -> int
    decreases s.len() - i,
{
    if 0 <= i < s.len() {
        if s[i] == c {
            i
        } else {
            find_char_from(s, c, i + 1)
        }
    } else {
        s.len() as int
    }
}

/// Index just before the last occurrence of `c` strictly before `i`, as an
/// index into `s`, or -1 if there is none.
pub open spec fn rfind_char(s: Seq<char>, c: char, i: int) -> int
    decreases i,
{
    if i <= 0 {
        -1
    } else if 0 < i <= s.len() && s[i - 1] == c {
        i - 1
    } else {
        rfind_char(s, c, i - 1)
    }
}

/// Finds the first occurrence of `c` in `v`, returning `v.len()` if none.
pub fn find_in(v: &Vec<char>, c: char) -> (r: usize)
    ensures
        r as int == find_char_from(v@, c, 0),
        r <= v.len(),
{
    let n = v.len();
    let mut i: usize = 0;
    while i < n
        invariant
            i <= n,
            n == v@.len(),
            find_char_from(v@, c, 0) == find_char_from(v@, c, i as int),
        decreases n - i,
    {
        if v[i] == c {
            return i;
        }
        i += 1;
    }
    n
}

/// Finds the last occurrence of `c` in `v`.
pub fn rfind_in(v: &Vec<char>, c: char) -> (r: Option<usize>)
    ensures
        match r {
            Some(k) => k as int == rfind_char(v@, c, v@.len() as int) && k < v.len(),
            None => rfind_char(v@, c, v@.len() as int) == -1,
        },
{
    let n = v.len();
    let mut j: usize = n;
    while j > 0
        invariant
            j <= n,
            n == v@.len(),
            rfind_char(v@, c, n as int) == rfind_char(v@, c, j as int),
        decreases j,
    {
        if v[j - 1] == c {
            return Some(j - 1);
        }
        j -= 1;
    }
    None
}

pub open spec fn dec_digit(d: int) -> char {
    if d == 0 {
        '0'
    } else if d == 1 {
        '1'
    } else if d == 2 {
        '2'
    } else if d == 3 {
        '3'
    } else if d == 4 {
        '4'
    } else if d == 5 {
        '5'
    } else if d == 6 {
        '6'
    } else if d == 7 {
        '7'
    } else if d == 8 {
        '8'
    } else {
        '9'
    }
}

/// The decimal rendering of a non-negative integer.
pub open spec fn dec_str(n: int) -> Seq<char>
    decreases n,
{
    if n < 10 {
        seq![dec_digit(n)]
    } else {
        dec_str(n / 10) + seq![dec_digit(n % 10)]
    }
}

fn digit_str(d: usize) -> (r: &'static str)
    requires
        d < 10,
    ensures
        r@ == seq![dec_digit(d as int)],
{
    proof {
        reveal_strlit("0");
        reveal_strlit("1");
        reveal_strlit("2");
        reveal_strlit("3");
        reveal_strlit("4");
        reveal_strlit("5");
        reveal_strlit("6");
        reveal_strlit("7");
        reveal_strlit("8");
        reveal_strlit("9");
    }
    match d {
        0 => "0",
        1 => "1",
        2 => "2",
        3 => "3",
        4 => "4",
        5 => "5",
        6 => "6",
        7 => "7",
        8 => "8",
        _ => "9",
    }
}

/// Renders `n` in decimal.
pub fn usize_to_string(n: usize) -> (r: String)
    ensures
        r@ == dec_str(n as int),
    decreases n,
{
    if n < 10 {
        digit_str(n).to_owned()
    } else {
        let mut s = usize_to_string(n / 10);
        s.append(digit_str(n % 10));
        s
    }
}

/// Applies the two-tiered exit policy to captured process output and
/// cleans it. Lenient (read-only queries) treats a non-zero exit as
/// success when trimmed standard output is non-empty, the way the tool
/// signals "no results"; strict (mutating operations) treats any non-zero
/// exit as failure. The failure message prefers trimmed standard error,
/// falling back to trimmed standard output.
pub fn resolve_tool_output(success: bool, strict: bool, stdout: &str, stderr: &str) -> (r: Result<
    String,
    String,
>)
    ensures
        (success || (!strict && trim_seq(stdout@).len() > 0)) ==> (r matches Ok(o) && o@
            == normalize_spec(stdout@)),
        !(success || (!strict && trim_seq(stdout@).len() > 0)) ==> (r matches Err(e) && e@
            == "winget failed: "@ + (if trim_seq(stderr@).len() > 0 {
            trim_seq(stderr@)
        } else {
            trim_seq(stdout@)
        })),
{
    if !success {
        let so = trim_str(stdout);
        if strict || so.as_str().is_empty() {
            let se = trim_str(stderr);
            let mut msg = String::new();
            msg.append("winget failed: ");
            if se.as_str().is_empty() {
                msg.append(so.as_str());
            } else {
                msg.append(se.as_str());
            }
            return Err(msg);
        }
    }
    Ok(normalize_output(stdout))
}

/// `s` cut to at most `max` characters, the last replaced by an ellipsis
/// when it does not fit.
pub open spec fn truncate_spec(s: Seq<char>, max: int) -> Seq<char> {
    if s.len() <= max {
        s
    } else {
        s.take(max - 1) + seq!['…']
    }
}

/// Cuts `s` for display in a cell `max` characters wide.
pub fn truncate(s: &str, max: usize) -> (r: String)
    requires
        max > 0,
    ensures
        r@ == truncate_spec(s@, max as int),
{
    let v = str_chars(s);
    if v.len() <= max {
        s.to_owned()
    } else {
        let mut x = s.substring_char(0, max - 1).to_owned();
        x.append("…");
        proof {
            assert(seq!['…'] =~= "…"@) by {
                reveal_strlit("…");
            }
            assert(s@.subrange(0, max - 1) =~= s@.take(max - 1));
        }
        x
    }
}

/// Renders `n` in decimal.
pub fn u64_to_string(n: u64) -> (r: String)
    ensures
        r@ == dec_str(n as int),
    decreases n,
{
    if n < 10 {
        digit_str((n % 10) as usize).to_owned()
    } else {
        let mut s = u64_to_string(n / 10);
        s.append(digit_str((n % 10) as usize));
        s
    }
}

} // verus!
