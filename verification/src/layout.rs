//! Column layout detection: finds the header/separator pair in cleaned
//! table output and infers column names and start offsets, the offsets
//! measured in display-width units.

use vstd::prelude::*;
use crate::text::{trim_seq, trim_bounds, str_chars, string_views};
use crate::width::{width_sum, char_display_width};

verus! {

/// One inferred column: its header name and its start offset in display
/// columns.
#[derive(Debug)]
pub struct Column {
    pub name: String,
    pub start: u128,
}

/// The mathematical contents of a `Column`.
pub struct ColumnView {
    pub name: Seq<char>,
    pub start: int,
}

impl View for Column {
    type V = ColumnView;

    open spec fn view(&self) -> ColumnView {
        ColumnView { name: self.name@, start: self.start as int }
    }
}

impl Clone for Column {
    fn clone(&self) -> (r: Self)
        ensures
            r@ == self@,
    {
        Column { name: self.name.clone(), start: self.start }
    }
}

pub open spec fn column_views(s: Seq<Column>) -> Seq<ColumnView> {
    s.map_values(|c: Column| c@)
}

/// A table separator: its trimmed form is longer than ten characters,
/// consists only of dashes and spaces, and holds at least one dash.
pub open spec fn is_separator_line(l: Seq<char>) -> bool {
    let t = trim_seq(l);
    &&& t.len() > 10
    &&& forall|k: int| 0 <= k < t.len() ==> t[k] == '-' || t[k] == ' '
    &&& exists|k: int| 0 <= k < t.len() && t[k] == '-'
}

pub fn is_separator(line: &str) -> (r: bool)
    ensures
        r == is_separator_line(line@),
{
    let v = str_chars(line);
    let (a, b) = trim_bounds(&v);
    let ghost t = trim_seq(line@);
    if a >= b || b - a <= 10 {
        proof {
            if a >= b {
                assert(t.len() == 0);
            } else {
                assert(t.len() == b - a);
            }
        }
        return false;
    }
    proof {
        assert(t =~= line@.subrange(a as int, b as int));
    }
    let mut has_dash = false;
    let mut i: usize = a;
    while i < b
        invariant
            a <= i <= b <= v@.len(),
            v@ == line@,
            t == trim_seq(line@),
            t =~= line@.subrange(a as int, b as int),
            forall|k: int| 0 <= k < i - a ==> t[k] == '-' || t[k] == ' ',
            has_dash == exists|k: int| 0 <= k < i - a && t[k] == '-',
        decreases b - i,
    {
        let c = v[i];
        if c == '-' {
            proof {
                assert(t[i - a] == '-');
            }
            has_dash = true;
        } else if c != ' ' {
            proof {
                let kk = i - a;
                assert(t[kk] == line@[i as int]);
                assert(0 <= kk < t.len() && t[kk] != '-' && t[kk] != ' ');
                assert(!is_separator_line(line@)) by {
                    if is_separator_line(line@) {
                        assert(trim_seq(line@)[kk] == '-' || trim_seq(line@)[kk] == ' ');
                    }
                }
            }
            return false;
        }
        i += 1;
    }
    has_dash
}

/// Index of the first separator line at or after `i`, or `lines.len()`.
pub open spec fn find_sep_from(lines: Seq<Seq<char>>, i: int) -> int
    decreases lines.len() - i,
{
    if 0 <= i < lines.len() {
        if is_separator_line(lines[i]) {
            i
        } else {
            find_sep_from(lines, i + 1)
        }
    } else {
        lines.len() as int
    }
}

/// Finds the first separator line, or `lines.len()` if none exists.
pub fn find_separator(lines: &Vec<String>) -> (r: usize)
    ensures
        r as int == find_sep_from(string_views(lines@), 0),
        r <= lines.len(),
{
    let n = lines.len();
    let mut i: usize = 0;
    while i < n
        invariant
            i <= n,
            n == lines@.len(),
            find_sep_from(string_views(lines@), 0) == find_sep_from(string_views(lines@), i as int),
        decreases n - i,
    {
        if is_separator(lines[i].as_str()) {
            proof {
                assert(string_views(lines@)[i as int] == lines@[i as int]@);
            }
            return i;
        }
        proof {
            assert(string_views(lines@)[i as int] == lines@[i as int]@);
        }
        i += 1;
    }
    n
}

/// Index of the end of the maximal non-blank run beginning at `i`.
pub open spec fn token_end(s: Seq<char>, i: int) -> int
    decreases s.len() - i,
{
    if 0 <= i < s.len() && s[i] != ' ' {
        token_end(s, i + 1)
    } else {
        i
    }
}

pub proof fn lemma_token_end_bounds(s: Seq<char>, i: int)
    requires
        0 <= i <= s.len(),
    ensures
        i <= token_end(s, i) <= s.len(),
    decreases s.len() - i,
{
    if i < s.len() && s[i] != ' ' {
        lemma_token_end_bounds(s, i + 1);
    }
}

/// The columns of a header line, scanning from position `i`: each maximal
/// run of non-space characters is one column name, recorded with the
/// display width of everything before it as its start offset.
pub open spec fn columns_from(s: Seq<char>, i: int) -> Seq<ColumnView>
    decreases s.len() - i,
    via columns_from_decreases
{
    if i < 0 || i >= s.len() {
        Seq::<ColumnView>::empty()
    } else if s[i] == ' ' {
        columns_from(s, i + 1)
    } else {
        let j = token_end(s, i);
        seq![ColumnView { name: s.subrange(i, j), start: width_sum(s, i) }] + columns_from(s, j)
    }
}

#[via_fn]
proof fn columns_from_decreases(s: Seq<char>, i: int) {
    if 0 <= i < s.len() && s[i] != ' ' {
        lemma_token_end_bounds(s, i + 1);
    }
}

/// The column layout read from a header line.
pub open spec fn columns_of(header: Seq<char>) -> Seq<ColumnView> {
    columns_from(header, 0)
}

proof fn lemma_width_sum_mono(s: Seq<char>, i: int, j: int)
    requires
        0 <= i <= j <= s.len(),
        forall|k: int| 0 <= k < s.len() ==> crate::width::display_width(#[trigger] s[k]) >= 1,
    ensures
        width_sum(s, i) + (j - i) <= width_sum(s, j),
    decreases j - i,
{
    if i < j {
        lemma_width_sum_mono(s, i, j - 1);
        assert(crate::width::display_width(s[j - 1]) >= 1);
    }
}

proof fn lemma_columns_from_increasing(s: Seq<char>, i: int)
    requires
        0 <= i <= s.len(),
        forall|k: int| 0 <= k < s.len() ==> crate::width::display_width(#[trigger] s[k]) >= 1,
    ensures
        forall|m: int|
            0 <= m < columns_from(s, i).len() ==> width_sum(s, i) <= (#[trigger] columns_from(
                s,
                i,
            )[m]).start,
        forall|m: int|
            0 <= m && m + 1 < columns_from(s, i).len() ==> (#[trigger] columns_from(
                s,
                i,
            )[m]).start < columns_from(s, i)[m + 1].start,
    decreases s.len() - i,
{
    broadcast use vstd::seq::group_seq_axioms;

    let cols = columns_from(s, i);
    if i >= s.len() {
    } else if s[i] == ' ' {
        lemma_columns_from_increasing(s, i + 1);
        let inner = columns_from(s, i + 1);
        assert(cols == inner);
        assert forall|m: int|
            0 <= m < cols.len() implies width_sum(s, i) <= (#[trigger] cols[m]).start by {
            assert(width_sum(s, i + 1) <= inner[m].start);
            assert(cols[m] == inner[m]);
        }
        assert forall|m: int|
            0 <= m && m + 1 < cols.len() implies (#[trigger] cols[m]).start < cols[m
                + 1].start by {
            assert(inner[m].start < inner[m + 1].start);
            assert(cols[m] == inner[m] && cols[m + 1] == inner[m + 1]);
        }
    } else {
        let j = token_end(s, i);
        lemma_token_end_bounds(s, i + 1);
        lemma_columns_from_increasing(s, j);
        lemma_width_sum_mono(s, i, j);
        let head = ColumnView { name: s.subrange(i, j), start: width_sum(s, i) };
        let rest = columns_from(s, j);
        assert(cols == seq![head] + rest);
        assert(cols.len() == 1 + rest.len());
        assert forall|m: int|
            0 <= m < cols.len() implies width_sum(s, i) <= (#[trigger] cols[m]).start by {
            if m == 0 {
                assert(cols[0] == head);
            } else {
                vstd::seq::axiom_seq_add_index2::<ColumnView>(seq![head], rest, m);
                assert(cols[m] == rest[m - 1]);
                assert(width_sum(s, j) <= rest[m - 1].start);
            }
        }
        assert forall|m: int|
            0 <= m && m + 1 < cols.len() implies (#[trigger] cols[m]).start < cols[m
                + 1].start by {
            vstd::seq::axiom_seq_add_index2::<ColumnView>(seq![head], rest, m + 1);
            assert(cols[m + 1] == rest[m]);
            if m == 0 {
                assert(cols[0] == head);
                assert(width_sum(s, j) <= rest[0].start);
            } else {
                vstd::seq::axiom_seq_add_index2::<ColumnView>(seq![head], rest, m);
                assert(cols[m] == rest[m - 1]);
                assert(rest[m - 1].start < rest[m].start);
            }
        }
    }
}

/// The data-model invariant of an inferred layout: column start offsets
/// are strictly increasing whenever every header character occupies at
/// least one display column — as every character of the printable-ASCII
/// headers the tool emits does.
pub proof fn lemma_columns_strictly_increasing(header: Seq<char>)
    requires
        forall|k: int|
            0 <= k < header.len() ==> crate::width::display_width(#[trigger] header[k]) >= 1,
    ensures
        forall|m: int|
            0 <= m && m + 1 < columns_of(header).len() ==> (#[trigger] columns_of(
                header,
            )[m]).start < columns_of(header)[m + 1].start,
{
    lemma_columns_from_increasing(header, 0);
}

/// Tokenizes a header line into column names with display-width start
/// offsets.
pub fn detect_columns(header: &str) -> (r: Vec<Column>)
    ensures
        column_views(r@) == columns_of(header@),
{
    let v = str_chars(header);
    let n = v.len();
    let mut r: Vec<Column> = Vec::new();
    let mut ci: usize = 0;
    let mut w: u128 = 0;
    while ci < n
        invariant
            ci <= n,
            n == v@.len(),
            v@ == header@,
            w == width_sum(header@, ci as int),
            w <= 3 * (ci as int),
            columns_of(header@) == column_views(r@) + columns_from(header@, ci as int),
        decreases n - ci,
    {
        if v[ci] == ' ' {
            let cw = char_display_width(v[ci]);
            w = w + (cw as u128);
            ci += 1;
        } else {
            let start_ci = ci;
            let start_w = w;
            while ci < n && v[ci] != ' '
                invariant
                    start_ci <= ci <= n,
                    n == v@.len(),
                    v@ == header@,
                    w == width_sum(header@, ci as int),
                    w <= 3 * (ci as int),
                    token_end(header@, start_ci as int) == token_end(header@, ci as int),
                decreases n - ci,
            {
                let cw = char_display_width(v[ci]);
                w = w + (cw as u128);
                ci += 1;
            }
            let name = header.substring_char(start_ci, ci).to_owned();
            let col = Column { name, start: start_w };
            proof {
                assert(token_end(header@, start_ci as int) == ci as int);
                assert(col@ == ColumnView {
                    name: header@.subrange(start_ci as int, ci as int),
                    start: width_sum(header@, start_ci as int),
                });
                assert(columns_from(header@, start_ci as int) =~= seq![col@] + columns_from(
                    header@,
                    ci as int,
                ));
                assert(column_views(r@.push(col)) =~= column_views(r@) + seq![col@]);
                assert(column_views(r@) + columns_from(header@, start_ci as int) =~= column_views(
                    r@.push(col),
                ) + columns_from(header@, ci as int));
            }
            r.push(col);
        }
    }
    proof {
        assert(columns_from(header@, ci as int) =~= Seq::<ColumnView>::empty());
        assert(column_views(r@) =~= columns_of(header@));
    }
    r
}

} // verus!
