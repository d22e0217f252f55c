//! Row parsing: column-bounded field extraction from data lines, the
//! locale tables and positional fallback that map fields to columns, the
//! footer filter, and the plausibility filter on identifiers.

use vstd::prelude::*;
use crate::text::{
    is_space, is_digit, is_digit_char, lower_seq, trim_seq, trim_str, str_chars,
    skip_spaces_from,
};
use crate::width::{display_width, width_sum};
use crate::layout::{Column, ColumnView, column_views, columns_of, find_sep_from};
use crate::models::PackageView;

verus! {

/// Whether the display-width interval occupied by character `k` of `line`
/// overlaps the column interval `[start, end)`.
pub open spec fn in_column(line: Seq<char>, k: int, start: int, end: int) -> bool {
    width_sum(line, k) < end && width_sum(line, k) + display_width(line[k]) > start
}

/// The characters of `line` from position `k` on whose occupied width
/// interval overlaps `[start, end)`.
pub open spec fn extract_from(line: Seq<char>, k: int, start: int, end: int) -> Seq<char>
    decreases line.len() - k,
{
    if k < 0 || k >= line.len() {
        Seq::<char>::empty()
    } else {
        let rest = extract_from(line, k + 1, start, end);
        if in_column(line, k, start, end) {
            seq![line[k]] + rest
        } else {
            rest
        }
    }
}

/// The trimmed text of the column `[start, end)` of a data line.
pub open spec fn extract_field(line: Seq<char>, start: int, end: int) -> Seq<char> {
    trim_seq(extract_from(line, 0, start, end))
}

/// The end bound of column `idx`: the next column's start, or unbounded
/// (in effect) for the last column.
pub open spec fn col_end(cols: Seq<ColumnView>, idx: int) -> int {
    if idx + 1 < cols.len() {
        cols[idx + 1].start
    } else {
        u128::MAX as int
    }
}

/// The trimmed field of column `idx`, or empty if there is no such column.
pub open spec fn get_field_spec(line: Seq<char>, cols: Seq<ColumnView>, idx: int) -> Seq<char> {
    if 0 <= idx < cols.len() {
        extract_field(line, cols[idx].start, col_end(cols, idx))
    } else {
        Seq::<char>::empty()
    }
}

/// Extracts the trimmed text of column `idx` of a data line, walking the
/// line's characters and accumulating display width.
pub fn get_field(line: &str, cols: &Vec<Column>, idx: usize) -> (r: String)
    ensures
        r@ == get_field_spec(line@, column_views(cols@), idx as int),
{
    let ghost cviews = column_views(cols@);
    if idx >= cols.len() {
        return String::new();
    }
    proof {
        assert(cviews[idx as int] == cols@[idx as int]@);
        if idx + 1 < cols.len() {
            assert(cviews[idx as int + 1] == cols@[idx as int + 1]@);
        }
    }
    let start: u128 = cols[idx].start;
    let end: u128 = if idx + 1 < cols.len() {
        cols[idx + 1].start
    } else {
        u128::MAX
    };
    let ghost gstart = start as int;
    let ghost gend = col_end(cviews, idx as int);
    proof {
        assert(gend == end as int);
    }
    let v = str_chars(line);
    let n = v.len();
    let mut acc = String::new();
    let mut w: u128 = 0;
    let mut k: usize = 0;
    while k < n
        invariant
            k <= n,
            n == v@.len(),
            v@ == line@,
            w == width_sum(line@, k as int),
            w <= 3 * (k as int),
            gstart == start as int,
            gend == end as int,
            extract_from(line@, 0, gstart, gend) == acc@ + extract_from(
                line@,
                k as int,
                gstart,
                gend,
            ),
        decreases n - k,
    {
        let cw = crate::width::char_display_width(v[k]);
        if w < end && w + (cw as u128) > start {
            let piece = line.substring_char(k, k + 1);
            proof {
                assert(piece@ =~= seq![line@[k as int]]);
                assert(in_column(line@, k as int, gstart, gend));
                assert((acc@ + piece@) + extract_from(line@, k + 1, gstart, gend) =~= acc@
                    + extract_from(line@, k as int, gstart, gend));
            }
            acc.append(piece);
        } else {
            proof {
                assert(!in_column(line@, k as int, gstart, gend));
            }
        }
        w = w + (cw as u128);
        k += 1;
    }
    proof {
        assert(extract_from(line@, n as int, gstart, gend) =~= Seq::<char>::empty());
        assert(acc@ =~= extract_from(line@, 0, gstart, gend));
    }
    trim_str(acc.as_str())
}

/// Index of the first non-digit character at or after `i`, or `s.len()`.
pub open spec fn digit_run_from(s: Seq<char>, i: int) -> int
    decreases s.len() - i,
{
    if 0 <= i < s.len() && is_digit_char(s[i]) {
        digit_run_from(s, i + 1)
    } else {
        i
    }
}

/// An informational footer: after leading whitespace the line begins with
/// one or more ASCII digits immediately followed by a space, the way
/// counting messages do in any locale. A product name such as one
/// beginning with a digit followed by a non-space character is not a
/// footer.
pub open spec fn is_footer_line(l: Seq<char>) -> bool {
    let a = skip_spaces_from(l, 0);
    let d = digit_run_from(l, a);
    d > a && d < l.len() && l[d] == ' '
}

/// Whether `line` is an informational footer to be skipped.
pub fn is_footer(line: &str) -> (r: bool)
    ensures
        r == is_footer_line(line@),
{
    let v = str_chars(line);
    let n = v.len();
    let mut a: usize = 0;
    while a < n && is_space(v[a])
        invariant
            a <= n,
            n == v@.len(),
            v@ == line@,
            skip_spaces_from(line@, 0) == skip_spaces_from(line@, a as int),
        decreases n - a,
    {
        a += 1;
    }
    let mut d: usize = a;
    while d < n && is_digit(v[d])
        invariant
            a <= d <= n,
            n == v@.len(),
            v@ == line@,
            digit_run_from(line@, a as int) == digit_run_from(line@, d as int),
        decreases n - d,
    {
        d += 1;
    }
    d > a && d < n && v[d] == ' '
}

/// The column index each record field resolves to, if any.
pub struct FieldMap {
    pub name: Option<int>,
    pub id: Option<int>,
    pub version: Option<int>,
    pub source: Option<int>,
    pub available: Option<int>,
}

/// Whether `lowered` occurs in the table `names`.
pub open spec fn name_in(names: Seq<Seq<char>>, lowered: Seq<char>) -> bool {
    exists|j: int| 0 <= j < names.len() && lowered == names[j]
}

/// Index of the first column at or after `i` whose lower-cased name is in
/// the table `names`.
pub open spec fn find_col_from(cols: Seq<ColumnView>, names: Seq<Seq<char>>, i: int) -> Option<
    int,
>
    decreases cols.len() - i,
{
    if 0 <= i < cols.len() {
        if name_in(names, lower_seq(cols[i].name)) {
            Some(i)
        } else {
            find_col_from(cols, names, i + 1)
        }
    } else {
        None
    }
}

pub open spec fn name_table() -> Seq<Seq<char>> {
    seq!["name"@, "nom"@, "nombre"@, "nome"@]
}

pub open spec fn id_table() -> Seq<Seq<char>> {
    seq!["id"@, "id."@]
}

pub open spec fn version_table() -> Seq<Seq<char>> {
    seq!["version"@, "versión"@, "versão"@, "versione"@]
}

pub open spec fn source_table() -> Seq<Seq<char>> {
    seq!["source"@, "quelle"@, "origen"@, "fonte"@, "origine"@]
}

pub open spec fn available_table() -> Seq<Seq<char>> {
    seq!["available"@, "verfügbar"@, "disponible"@, "disponível"@, "disponibile"@]
}

/// The field-to-column resolution for a layout: by localized name first,
/// then, if the identifier column is unresolved and the layout has at
/// least four columns, by position for an unrecognized locale.
pub open spec fn resolved_columns(cols: Seq<ColumnView>) -> FieldMap {
    let name0 = find_col_from(cols, name_table(), 0);
    let id0 = find_col_from(cols, id_table(), 0);
    let ver0 = find_col_from(cols, version_table(), 0);
    let src0 = find_col_from(cols, source_table(), 0);
    let av0 = find_col_from(cols, available_table(), 0);
    if id0 is None && cols.len() >= 4 {
        FieldMap {
            name: if name0 is Some {
                name0
            } else {
                Some(0)
            },
            id: Some(1),
            version: if ver0 is Some {
                ver0
            } else {
                Some(2)
            },
            source: if src0 is Some {
                src0
            } else {
                if cols.len() >= 5 {
                    Some(4)
                } else {
                    Some(3)
                }
            },
            available: if av0 is Some {
                av0
            } else {
                if cols.len() >= 5 {
                    Some(3)
                } else {
                    None
                }
            },
        }
    } else {
        FieldMap { name: name0, id: id0, version: ver0, source: src0, available: av0 }
    }
}

/// The field text for an optional column index: empty when unresolved.
pub open spec fn opt_field(line: Seq<char>, cols: Seq<ColumnView>, idx: Option<int>) -> Seq<
    char,
> {
    match idx {
        Some(i) => get_field_spec(line, cols, i),
        None => Seq::<char>::empty(),
    }
}

/// Whether an identifier looks plausible: non-empty and holding a `.` or a
/// `\`, the shapes real package identifiers take. This filters out text
/// from informational lines that lands in the identifier column.
pub open spec fn plausible_id(id: Seq<char>) -> bool {
    id.len() > 0 && (id.contains('.') || id.contains('\\'))
}

/// The record parsed from one data line under a layout, or `None` when the
/// line's identifier field is empty or implausible.
pub open spec fn parse_row_spec(line: Seq<char>, cols: Seq<ColumnView>) -> Option<PackageView> {
    let m = resolved_columns(cols);
    let id = opt_field(line, cols, m.id);
    if !plausible_id(id) {
        None
    } else {
        Some(
            PackageView {
                id: id,
                name: opt_field(line, cols, m.name),
                version: opt_field(line, cols, m.version),
                source: opt_field(line, cols, m.source),
                available_version: opt_field(line, cols, m.available),
            },
        )
    }
}

/// The records of the data lines from index `i` on: blank lines and
/// footers are skipped line by line, and rows the plausibility filter
/// rejects are dropped.
pub open spec fn rows_from(lines: Seq<Seq<char>>, i: int, cols: Seq<ColumnView>) -> Seq<
    PackageView,
>
    decreases lines.len() - i,
{
    if i < 0 || i >= lines.len() {
        Seq::<PackageView>::empty()
    } else {
        let rest = rows_from(lines, i + 1, cols);
        let l = lines[i];
        if trim_seq(l).len() == 0 {
            rest
        } else if is_footer_line(l) {
            rest
        } else {
            match parse_row_spec(l, cols) {
                Some(p) => seq![p] + rest,
                None => rest,
            }
        }
    }
}

/// The records parsed from a whole table text: the first separator line
/// (not the first line overall) determines the header, and every line
/// after the separator is a candidate row. Without a separator the result
/// is empty.
pub open spec fn parse_packages_spec(text: Seq<char>) -> Seq<PackageView> {
    let lines = crate::text::lines_of(text);
    let k = find_sep_from(lines, 0);
    if k == 0 || k >= lines.len() {
        Seq::<PackageView>::empty()
    } else {
        rows_from(lines, k + 1, columns_of(lines[k - 1]))
    }
}

proof fn lemma_opt_field_same(
    line: Seq<char>,
    cols1: Seq<ColumnView>,
    cols2: Seq<ColumnView>,
    oi: Option<int>,
)
    requires
        cols1.len() == cols2.len(),
        forall|i: int| 0 <= i < cols1.len() ==> cols1[i].start == cols2[i].start,
    ensures
        opt_field(line, cols1, oi) == opt_field(line, cols2, oi),
{
    match oi {
        Some(i) => {
            if 0 <= i < cols1.len() {
                assert(cols1[i].start == cols2[i].start);
                assert(col_end(cols1, i) == col_end(cols2, i));
            }
        },
        None => {},
    }
}

/// Locale independence: a data line parses to the same record under any
/// two layouts that share their column start offsets and resolve the
/// record fields to the same columns — as two supported locales' headers
/// for the same table do. The parsed field values depend only on the
/// resolved columns and their offsets, never on the header language.
pub proof fn lemma_locale_independent_row(
    line: Seq<char>,
    cols1: Seq<ColumnView>,
    cols2: Seq<ColumnView>,
)
    requires
        cols1.len() == cols2.len(),
        forall|i: int| 0 <= i < cols1.len() ==> cols1[i].start == cols2[i].start,
        resolved_columns(cols1) == resolved_columns(cols2),
    ensures
        parse_row_spec(line, cols1) == parse_row_spec(line, cols2),
{
    let m = resolved_columns(cols1);
    lemma_opt_field_same(line, cols1, cols2, m.id);
    lemma_opt_field_same(line, cols1, cols2, m.name);
    lemma_opt_field_same(line, cols1, cols2, m.version);
    lemma_opt_field_same(line, cols1, cols2, m.source);
    lemma_opt_field_same(line, cols1, cols2, m.available);
}

/// Parsing is deterministic: it is a pure function of the cleaned text,
/// so parsing identical normalized input twice yields identical record
/// lists.
pub proof fn lemma_parse_deterministic(a: Seq<char>, b: Seq<char>)
    requires
        a == b,
    ensures
        parse_packages_spec(a) == parse_packages_spec(b),
{
}

/// Whether two column names fall into exactly the same locale tables —
/// as corresponding entries of one table do (`Name` and `Nome`, `Id` and
/// `ID`, `Available` and `Verfügbar`), and as names foreign to every
/// table do among themselves.
pub open spec fn same_table_membership(n1: Seq<char>, n2: Seq<char>) -> bool {
    &&& name_in(name_table(), lower_seq(n1)) == name_in(name_table(), lower_seq(n2))
    &&& name_in(id_table(), lower_seq(n1)) == name_in(id_table(), lower_seq(n2))
    &&& name_in(version_table(), lower_seq(n1)) == name_in(version_table(), lower_seq(n2))
    &&& name_in(source_table(), lower_seq(n1)) == name_in(source_table(), lower_seq(n2))
    &&& name_in(available_table(), lower_seq(n1)) == name_in(available_table(), lower_seq(n2))
}

/// Two layouts are locale-equivalent when they have the same column
/// geometry and their column names resolve through the locale tables
/// alike: two supported languages' headers for the same table.
pub open spec fn locale_equivalent_columns(c1: Seq<ColumnView>, c2: Seq<ColumnView>) -> bool {
    &&& c1.len() == c2.len()
    &&& forall|m: int| 0 <= m < c1.len() ==> c1[m].start == #[trigger] c2[m].start
    &&& forall|m: int|
        0 <= m < c1.len() ==> same_table_membership(c1[m].name, #[trigger] c2[m].name)
}

proof fn lemma_find_col_same(
    c1: Seq<ColumnView>,
    c2: Seq<ColumnView>,
    names: Seq<Seq<char>>,
    i: int,
)
    requires
        c1.len() == c2.len(),
        forall|m: int|
            0 <= m < c1.len() ==> name_in(names, lower_seq(c1[m].name)) == name_in(
                names,
                lower_seq(#[trigger] c2[m].name),
            ),
    ensures
        find_col_from(c1, names, i) == find_col_from(c2, names, i),
    decreases c1.len() - i,
{
    if 0 <= i < c1.len() && !name_in(names, lower_seq(c1[i].name)) {
        lemma_find_col_same(c1, c2, names, i + 1);
    }
}

proof fn lemma_resolved_same(c1: Seq<ColumnView>, c2: Seq<ColumnView>)
    requires
        locale_equivalent_columns(c1, c2),
    ensures
        resolved_columns(c1) == resolved_columns(c2),
{
    lemma_find_col_same(c1, c2, name_table(), 0);
    lemma_find_col_same(c1, c2, id_table(), 0);
    lemma_find_col_same(c1, c2, version_table(), 0);
    lemma_find_col_same(c1, c2, source_table(), 0);
    lemma_find_col_same(c1, c2, available_table(), 0);
}

proof fn lemma_rows_from_same(
    lines1: Seq<Seq<char>>,
    lines2: Seq<Seq<char>>,
    i: int,
    c1: Seq<ColumnView>,
    c2: Seq<ColumnView>,
)
    requires
        lines1.len() == lines2.len(),
        forall|j: int| i <= j < lines1.len() ==> lines1[j] == #[trigger] lines2[j],
        c1.len() == c2.len(),
        forall|m: int| 0 <= m < c1.len() ==> c1[m].start == #[trigger] c2[m].start,
        resolved_columns(c1) == resolved_columns(c2),
    ensures
        rows_from(lines1, i, c1) == rows_from(lines2, i, c2),
    decreases lines1.len() - i,
{
    if 0 <= i < lines1.len() {
        lemma_rows_from_same(lines1, lines2, i + 1, c1, c2);
        lemma_locale_independent_row(lines1[i], c1, c2);
    }
}

/// Locale independence of a whole table: two texts that are identical but
/// for the header line, whose layouts sit at the same display-width
/// offsets and whose column names resolve through the locale tables
/// alike, parse to the same records — the parsed field values never
/// depend on which supported language named the columns.
pub proof fn lemma_locale_independent_table(t1: Seq<char>, t2: Seq<char>)
    requires
        crate::text::lines_of(t1).len() == crate::text::lines_of(t2).len(),
        ({
            let lines1 = crate::text::lines_of(t1);
            let lines2 = crate::text::lines_of(t2);
            let k = find_sep_from(lines1, 0);
            &&& find_sep_from(lines2, 0) == k
            &&& 0 < k < lines1.len()
            &&& forall|j: int| 0 <= j < lines1.len() && j != k - 1 ==> lines1[j] == #[trigger] lines2[j]
            &&& locale_equivalent_columns(columns_of(lines1[k - 1]), columns_of(lines2[k - 1]))
        }),
    ensures
        parse_packages_spec(t1) == parse_packages_spec(t2),
{
    let lines1 = crate::text::lines_of(t1);
    let lines2 = crate::text::lines_of(t2);
    let k = find_sep_from(lines1, 0);
    let c1 = columns_of(lines1[k - 1]);
    let c2 = columns_of(lines2[k - 1]);
    lemma_resolved_same(c1, c2);
    lemma_rows_from_same(lines1, lines2, k + 1, c1, c2);
}

/// The views of a table of borrowed name strings.
pub open spec fn str_views(names: Seq<&str>) -> Seq<Seq<char>> {
    names.map_values(|s: &str| s@)
}

/// An optional column index, as a mathematical value.
pub open spec fn opt_idx(o: Option<usize>) -> Option<int> {
    match o {
        Some(i) => Some(i as int),
        None => None,
    }
}

/// Extracts the field of an optionally resolved column: empty when the
/// field resolved to no column.
pub fn get_field_opt(line: &str, cols: &Vec<Column>, idx: Option<usize>) -> (r: String)
    ensures
        r@ == opt_field(line@, column_views(cols@), opt_idx(idx)),
{
    match idx {
        Some(i) => get_field(line, cols, i),
        None => String::new(),
    }
}

pub open spec fn argument_table() -> Seq<Seq<char>> {
    seq!["argument"@]
}

pub open spec fn type_table() -> Seq<Seq<char>> {
    seq!["type"@, "typ"@, "tipo"@]
}

/// The column index each source field resolves to, if any.
pub struct SourceFieldMap {
    pub name: Option<int>,
    pub arg: Option<int>,
    pub typ: Option<int>,
}

/// The field-to-column resolution for a source table, with a positional
/// fallback for an unrecognized locale.
pub open spec fn resolved_source_columns(cols: Seq<ColumnView>) -> SourceFieldMap {
    let name0 = find_col_from(cols, name_table(), 0);
    let arg0 = find_col_from(cols, argument_table(), 0);
    let typ0 = find_col_from(cols, type_table(), 0);
    if name0 is None && cols.len() >= 3 {
        SourceFieldMap { name: Some(0), arg: Some(1), typ: Some(2) }
    } else {
        SourceFieldMap { name: name0, arg: arg0, typ: typ0 }
    }
}

/// The source parsed from one data line, or `None` when its name field is
/// empty.
pub open spec fn parse_source_spec(line: Seq<char>, cols: Seq<ColumnView>) -> Option<
    crate::models::SourceView,
> {
    let m = resolved_source_columns(cols);
    let name = opt_field(line, cols, m.name);
    if name.len() == 0 {
        None
    } else {
        Some(
            crate::models::SourceView {
                name: name,
                url: opt_field(line, cols, m.arg),
                source_type: opt_field(line, cols, m.typ),
            },
        )
    }
}

/// The sources of the data lines from index `i` on; blank lines are
/// skipped.
pub open spec fn sources_from(lines: Seq<Seq<char>>, i: int, cols: Seq<ColumnView>) -> Seq<
    crate::models::SourceView,
>
    decreases lines.len() - i,
{
    if i < 0 || i >= lines.len() {
        Seq::<crate::models::SourceView>::empty()
    } else {
        let rest = sources_from(lines, i + 1, cols);
        let l = lines[i];
        if trim_seq(l).len() == 0 {
            rest
        } else {
            match parse_source_spec(l, cols) {
                Some(s) => seq![s] + rest,
                None => rest,
            }
        }
    }
}

/// The sources parsed from a whole table text.
pub open spec fn parse_sources_spec(text: Seq<char>) -> Seq<crate::models::SourceView> {
    let lines = crate::text::lines_of(text);
    let k = find_sep_from(lines, 0);
    if k == 0 || k >= lines.len() {
        Seq::<crate::models::SourceView>::empty()
    } else {
        sources_from(lines, k + 1, columns_of(lines[k - 1]))
    }
}

} // verus!
