//! The table and detail interpreters for the command-line tool's console
//! output. The methods here are pure text interpretation: running the
//! tool and capturing its streams happens outside the library.

use vstd::prelude::*;
use crate::layout::{Column, column_views, columns_of, find_separator};
use crate::models::{
    Package, PackageView, package_views, opt_package_view, Source, source_views, PackageDetail,
    DetailView,
};
use crate::detail::{
    DetailKey, classify_key, classify_show_key, canon_of, starts_two_spaces, is_indented,
    is_found_header, header_name, header_id, desc_from, show_from, parse_show_spec,
    line_starts_two_spaces,
};
use crate::rows::{
    name_table, id_table, version_table, source_table, available_table, argument_table,
    type_table, str_views, opt_idx, find_col_from, name_in, resolved_columns,
    resolved_source_columns, parse_row_spec, parse_packages_spec, parse_source_spec,
    parse_sources_spec, rows_from, sources_from, plausible_id, get_field_opt, is_footer,
    opt_field,
};
use crate::text::{
    lower_seq, lower_eq, trim_seq, trim_str, trim_bounds, str_chars, string_views, lines_of,
    contains_char,
};

verus! {

/// Interprets the console output of the command-line package manager.
pub struct CliBackend;

impl CliBackend {
    pub fn new() -> Self {
        CliBackend
    }

    /// Tokenizes a header line into column names and display-width start
    /// offsets.
    pub fn detect_columns(header: &str) -> (r: Vec<Column>)
        ensures
            column_views(r@) == columns_of(header@),
    {
        crate::layout::detect_columns(header)
    }

    /// Finds the first column whose name matches any of `names`,
    /// case-insensitively.
    pub fn find_column_ci(cols: &Vec<Column>, names: &Vec<&str>) -> (r: Option<usize>)
        ensures
            opt_idx(r) == find_col_from(column_views(cols@), str_views(names@), 0),
            r matches Some(i) ==> i < cols.len(),
    {
        let ghost cv = column_views(cols@);
        let ghost nv = str_views(names@);
        let n = cols.len();
        let mut i: usize = 0;
        while i < n
            invariant
                i <= n,
                n == cols@.len(),
                cv == column_views(cols@),
                nv == str_views(names@),
                find_col_from(cv, nv, 0) == find_col_from(cv, nv, i as int),
            decreases n - i,
        {
            proof {
                assert(cv[i as int] == cols@[i as int]@);
            }
            let m = names.len();
            let mut found = false;
            let mut j: usize = 0;
            while j < m
                invariant
                    j <= m,
                    i < n,
                    n == cols@.len(),
                    m == names@.len(),
                    cv == column_views(cols@),
                    nv == str_views(names@),
                    cv[i as int] == cols@[i as int]@,
                    found == exists|jj: int|
                        0 <= jj < j && lower_seq(cols@[i as int].name@) == nv[jj],
                decreases m - j,
            {
                if lower_eq(cols[i].name.as_str(), names[j]) {
                    proof {
                        assert(nv[j as int] == names@[j as int]@);
                        assert(lower_seq(cols@[i as int].name@) == nv[j as int]);
                    }
                    found = true;
                } else {
                    proof {
                        assert(nv[j as int] == names@[j as int]@);
                    }
                }
                j += 1;
            }
            if found {
                proof {
                    assert(name_in(nv, lower_seq(cv[i as int].name)));
                }
                return Some(i);
            }
            proof {
                assert(!name_in(nv, lower_seq(cv[i as int].name))) by {
                    if name_in(nv, lower_seq(cv[i as int].name)) {
                        let jj = choose|jj: int|
                            0 <= jj < nv.len() && lower_seq(cv[i as int].name) == nv[jj];
                        assert(lower_seq(cols@[i as int].name@) == nv[jj]);
                    }
                }
            }
            i += 1;
        }
        None
    }

    /// Parses one data line under the inferred layout. The result is
    /// `None` exactly when the identifier field is empty or holds neither
    /// `.` nor `\`: such a line is an informational line misread as a
    /// row, not a record.
    pub fn parse_table_row(&self, line: &str, cols: &Vec<Column>) -> (r: Option<Package>)
        ensures
            opt_package_view(r) == parse_row_spec(line@, column_views(cols@)),
    {
        let ghost cv = column_views(cols@);
        let name_names: Vec<&str> = vec!["name", "nom", "nombre", "nome"];
        let id_names: Vec<&str> = vec!["id", "id."];
        let ver_names: Vec<&str> = vec!["version", "versión", "versão", "versione"];
        let src_names: Vec<&str> = vec!["source", "quelle", "origen", "fonte", "origine"];
        let avail_names: Vec<&str> = vec![
            "available",
            "verfügbar",
            "disponible",
            "disponível",
            "disponibile",
        ];
        proof {
            assert(str_views(name_names@) =~= name_table());
            assert(str_views(id_names@) =~= id_table());
            assert(str_views(ver_names@) =~= version_table());
            assert(str_views(src_names@) =~= source_table());
            assert(str_views(avail_names@) =~= available_table());
        }
        let mut name_idx = Self::find_column_ci(cols, &name_names);
        let mut id_idx = Self::find_column_ci(cols, &id_names);
        let mut ver_idx = Self::find_column_ci(cols, &ver_names);
        let mut source_idx = Self::find_column_ci(cols, &src_names);
        let mut avail_idx = Self::find_column_ci(cols, &avail_names);

        if id_idx.is_none() && cols.len() >= 4 {
            if name_idx.is_none() {
                name_idx = Some(0);
            }
            id_idx = Some(1);
            if ver_idx.is_none() {
                ver_idx = Some(2);
            }
            if cols.len() >= 5 {
                if avail_idx.is_none() {
                    avail_idx = Some(3);
                }
                if source_idx.is_none() {
                    source_idx = Some(4);
                }
            } else {
                if source_idx.is_none() {
                    source_idx = Some(3);
                }
            }
        }
        let ghost m = resolved_columns(cv);
        proof {
            assert(opt_idx(name_idx) == m.name);
            assert(opt_idx(id_idx) == m.id);
            assert(opt_idx(ver_idx) == m.version);
            assert(opt_idx(source_idx) == m.source);
            assert(opt_idx(avail_idx) == m.available);
        }

        let id = get_field_opt(line, cols, id_idx);
        if id.as_str().unicode_len() == 0 {
            proof {
                assert(!plausible_id(opt_field(line@, cv, m.id)));
            }
            return None;
        }
        if !contains_char(id.as_str(), '.') && !contains_char(id.as_str(), '\\') {
            proof {
                assert(!plausible_id(opt_field(line@, cv, m.id)));
            }
            return None;
        }
        let p = Package {
            name: get_field_opt(line, cols, name_idx),
            id,
            version: get_field_opt(line, cols, ver_idx),
            source: get_field_opt(line, cols, source_idx),
            available_version: get_field_opt(line, cols, avail_idx),
        };
        proof {
            assert(plausible_id(opt_field(line@, cv, m.id)));
        }
        Some(p)
    }

    /// Parses a whole table text into records: locates the separator and
    /// header, infers the layout, and reads every later line as a
    /// candidate row, skipping blank lines and informational footers line
    /// by line.
    pub fn parse_packages_from_table(&self, output: &str) -> (r: Vec<Package>)
        ensures
            package_views(r@) == parse_packages_spec(output@),
    {
        let lines = crate::text::split_lines(output);
        let ghost lv = lines_of(output@);
        let sep = find_separator(&lines);
        if sep == 0 || sep >= lines.len() {
            proof {
                assert(package_views(Seq::<Package>::empty()) =~= parse_packages_spec(output@));
            }
            return Vec::new();
        }
        proof {
            assert(lv[sep - 1] == lines@[sep - 1]@);
        }
        let cols = Self::detect_columns(lines[sep - 1].as_str());
        let ghost cv = columns_of(lv[sep - 1]);
        let n = lines.len();
        let mut r: Vec<Package> = Vec::new();
        let mut i: usize = sep + 1;
        while i < n
            invariant
                sep + 1 <= i <= n,
                n == lines@.len(),
                lv == string_views(lines@),
                cv == column_views(cols@),
                rows_from(lv, sep + 1, cv) == package_views(r@) + rows_from(lv, i as int, cv),
            decreases n - i,
        {
            proof {
                assert(lv[i as int] == lines@[i as int]@);
            }
            let lstr = lines[i].as_str();
            let v = str_chars(lstr);
            let (a, b) = trim_bounds(&v);
            if a >= b {
                proof {
                    assert(trim_seq(lv[i as int]).len() == 0);
                }
            } else if is_footer(lstr) {
                proof {
                    assert(trim_seq(lv[i as int]) =~= lv[i as int].subrange(a as int, b as int));
                    assert(trim_seq(lv[i as int]).len() > 0);
                }
            } else {
                proof {
                    assert(trim_seq(lv[i as int]) =~= lv[i as int].subrange(a as int, b as int));
                    assert(trim_seq(lv[i as int]).len() > 0);
                }
                match self.parse_table_row(lstr, &cols) {
                    Some(p) => {
                        proof {
                            assert(package_views(r@.push(p)) =~= package_views(r@) + seq![p@]);
                            assert(package_views(r@) + rows_from(lv, i as int, cv)
                                =~= package_views(r@.push(p)) + rows_from(lv, i + 1, cv));
                        }
                        r.push(p);
                    },
                    None => {},
                }
            }
            i += 1;
        }
        proof {
            assert(rows_from(lv, n as int, cv) =~= Seq::<PackageView>::empty());
            assert(package_views(r@) =~= parse_packages_spec(output@));
        }
        r
    }

    /// Parses the source-list table into configured sources.
    pub fn parse_sources_from_table(&self, output: &str) -> (r: Vec<Source>)
        ensures
            source_views(r@) == parse_sources_spec(output@),
    {
        let lines = crate::text::split_lines(output);
        let ghost lv = lines_of(output@);
        let sep = find_separator(&lines);
        if sep == 0 || sep >= lines.len() {
            proof {
                assert(source_views(Seq::<Source>::empty()) =~= parse_sources_spec(output@));
            }
            return Vec::new();
        }
        proof {
            assert(lv[sep - 1] == lines@[sep - 1]@);
        }
        let cols = Self::detect_columns(lines[sep - 1].as_str());
        let ghost cv = columns_of(lv[sep - 1]);
        let n = lines.len();
        let mut r: Vec<Source> = Vec::new();
        let mut i: usize = sep + 1;
        while i < n
            invariant
                sep + 1 <= i <= n,
                n == lines@.len(),
                lv == string_views(lines@),
                cv == column_views(cols@),
                sources_from(lv, sep + 1, cv) == source_views(r@) + sources_from(lv, i as int, cv),
            decreases n - i,
        {
            proof {
                assert(lv[i as int] == lines@[i as int]@);
            }
            let lstr = lines[i].as_str();
            let v = str_chars(lstr);
            let (a, b) = trim_bounds(&v);
            if a >= b {
                proof {
                    assert(trim_seq(lv[i as int]).len() == 0);
                }
            } else {
                proof {
                    assert(trim_seq(lv[i as int]) =~= lv[i as int].subrange(a as int, b as int));
                    assert(trim_seq(lv[i as int]).len() > 0);
                }
                match Self::parse_source_row(lstr, &cols) {
                    Some(s) => {
                        proof {
                            assert(source_views(r@.push(s)) =~= source_views(r@) + seq![s@]);
                            assert(source_views(r@) + sources_from(lv, i as int, cv)
                                =~= source_views(r@.push(s)) + sources_from(lv, i + 1, cv));
                        }
                        r.push(s);
                    },
                    None => {},
                }
            }
            i += 1;
        }
        proof {
            assert(sources_from(lv, n as int, cv) =~= Seq::<crate::models::SourceView>::empty());
            assert(source_views(r@) =~= parse_sources_spec(output@));
        }
        r
    }

    /// Normalizes a detail key to its canonical English name,
    /// case-insensitively and with known translations for common locales;
    /// an unrecognized key maps to the empty string.
    pub fn normalize_show_key(key: &str) -> (r: &'static str)
        ensures
            r@ == canon_of(classify_key(crate::text::lower_seq(key@))),
    {
        let k = classify_show_key(key);
        match k {
            DetailKey::Version => "version",
            DetailKey::Publisher => "publisher",
            DetailKey::Description => "description",
            DetailKey::Homepage => "homepage",
            DetailKey::PublisherUrl => "publisher_url",
            DetailKey::License => "license",
            DetailKey::Source => "source",
            DetailKey::Unknown => {
                proof {
                    reveal_strlit("");
                    assert(""@ =~= Seq::<char>::empty());
                }
                ""
            },
        }
    }

    /// Parses a single-item detail block: a locale-variant "found" header
    /// line gives the name and identifier, and non-indented "Key: Value"
    /// lines fill the canonical fields, with multi-line description
    /// continuation.
    pub fn parse_show_output(&self, output: &str) -> (r: PackageDetail)
        ensures
            r@ == parse_show_spec(output@),
    {
        let lines = crate::text::split_lines(output);
        let ghost lv = lines_of(output@);
        let n = lines.len();
        let mut detail = PackageDetail::default();
        let mut i: usize = 0;
        while i < n
            invariant
                i <= n,
                n == lines@.len(),
                lv == string_views(lines@),
                show_from(lv, 0, DetailView::empty()) == show_from(lv, i as int, detail@),
            decreases n - i,
        {
            proof {
                assert(lv[i as int] == lines@[i as int]@);
            }
            let ghost d0 = detail@;
            let lstr = lines[i].as_str();
            let v = str_chars(lstr);
            let (a, b) = trim_bounds(&v);
            let t_str = if a >= b {
                lstr.substring_char(0, 0)
            } else {
                lstr.substring_char(a, b)
            };
            let ghost t = trim_seq(lv[i as int]);
            proof {
                assert(t_str@ =~= t);
            }
            let tv = str_chars(t_str);
            let bs_o = crate::text::rfind_in(&tv, '[');
            let be_o = crate::text::rfind_in(&tv, ']');
            let has_colon = contains_char(t_str, ':');
            let header_ok = match (bs_o, be_o) {
                (Some(bs), Some(be)) => be > bs && !has_colon,
                _ => false,
            };
            proof {
                assert(header_ok == is_found_header(t));
            }
            if header_ok {
                let bs = match bs_o {
                    Some(x) => x,
                    None => 0,
                };
                let be = match be_o {
                    Some(x) => x,
                    None => 0,
                };
                proof {
                    assert(bs as int == crate::text::rfind_char(t, '[', t.len() as int));
                    assert(be as int == crate::text::rfind_char(t, ']', t.len() as int));
                }
                let id = t_str.substring_char(bs + 1, be).to_owned();
                let before_full = t_str.substring_char(0, bs);
                let bt = trim_str(before_full);
                proof {
                    assert(before_full@ =~= t.subrange(0, bs as int));
                }
                let btv = str_chars(bt.as_str());
                let p = crate::text::find_in(&btv, ' ');
                let name = if p < btv.len() {
                    trim_str(bt.as_str().substring_char(p + 1, btv.len()))
                } else {
                    String::new()
                };
                proof {
                    assert(id@ =~= header_id(t));
                    assert(name@ =~= header_name(t));
                }
                detail.name = name;
                detail.id = id;
                proof {
                    assert(detail@ == DetailView { name: header_name(t), id: header_id(t), ..d0 });
                }
            } else if v.len() > 0 && (v[0] == ' ' || v[0] == '\t') {
                proof {
                    assert(is_indented(lv[i as int]));
                }
            } else {
                proof {
                    assert(!is_indented(lv[i as int]));
                }
                let ci = crate::text::find_in(&tv, ':');
                if ci >= tv.len() {
                    proof {
                        assert(crate::text::find_char_from(t, ':', 0) >= t.len());
                    }
                } else {
                    let key = trim_str(t_str.substring_char(0, ci));
                    let value = trim_str(t_str.substring_char(ci + 1, tv.len()));
                    proof {
                        assert(t_str@.subrange(0, ci as int) =~= t.subrange(0, ci as int));
                        assert(t_str@.subrange(ci + 1, t_str@.len() as int) =~= t.subrange(
                            ci + 1,
                            t.len() as int,
                        ));
                    }
                    let k = classify_show_key(key.as_str());
                    match k {
                        DetailKey::Version => {
                            detail.version = value;
                        },
                        DetailKey::Publisher => {
                            detail.publisher = value;
                        },
                        DetailKey::Description => {
                            let ghost i0 = i as int;
                            let ghost value0 = value@;
                            let mut desc = value;
                            while i + 1 < n && line_starts_two_spaces(lines[i + 1].as_str())
                                invariant
                                    i0 <= i < n,
                                    n == lines@.len(),
                                    lv == string_views(lines@),
                                    desc_from(lv, i0, value0) == desc_from(lv, i as int, desc@),
                                decreases n - i,
                            {
                                proof {
                                    assert(lv[i + 1] == lines@[i + 1]@);
                                    assert(starts_two_spaces(lv[i + 1]));
                                }
                                let ghost desc_before = desc@;
                                i += 1;
                                let lt = trim_str(lines[i].as_str());
                                if !desc.as_str().is_empty() {
                                    desc.append(" ");
                                    proof {
                                        assert(seq![' '] =~= " "@) by {
                                            reveal_strlit(" ");
                                        }
                                    }
                                }
                                desc.append(lt.as_str());
                                proof {
                                    if desc_before.len() == 0 {
                                        assert(desc@ =~= trim_seq(lv[i as int]));
                                    } else {
                                        assert(desc@ =~= desc_before + seq![' '] + trim_seq(
                                            lv[i as int],
                                        ));
                                    }
                                }
                            }
                            proof {
                                assert(desc_from(lv, i as int, desc@) == (desc@, i as int));
                            }
                            detail.description = desc;
                            proof {
                                assert(detail@ == DetailView { description: desc_from(
                                    lv,
                                    i0,
                                    value0,
                                ).0, ..d0 });
                            }
                        },
                        DetailKey::Homepage => {
                            detail.homepage = value;
                        },
                        DetailKey::PublisherUrl => {
                            if detail.homepage.as_str().is_empty() {
                                detail.homepage = value;
                            }
                        },
                        DetailKey::License => {
                            detail.license = value;
                        },
                        DetailKey::Source => {
                            detail.source = value;
                        },
                        DetailKey::Unknown => {},
                    }
                }
            }
            i += 1;
        }
        proof {
            assert(show_from(lv, n as int, detail@) == detail@);
        }
        detail
    }

    /// Parses one line of the source-list table; `None` when the name
    /// field is empty.
    fn parse_source_row(line: &str, cols: &Vec<Column>) -> (r: Option<Source>)
        ensures
            ({
                let s = parse_source_spec(line@, column_views(cols@));
                match r {
                    Some(src) => s == Some(src@),
                    None => s is None,
                }
            }),
    {
        let ghost cv = column_views(cols@);
        let name_names: Vec<&str> = vec!["name", "nom", "nombre", "nome"];
        let arg_names: Vec<&str> = vec!["argument"];
        let type_names: Vec<&str> = vec!["type", "typ", "tipo"];
        proof {
            assert(str_views(name_names@) =~= name_table());
            assert(str_views(arg_names@) =~= argument_table());
            assert(str_views(type_names@) =~= type_table());
        }
        let mut name_idx = Self::find_column_ci(cols, &name_names);
        let mut arg_idx = Self::find_column_ci(cols, &arg_names);
        let mut type_idx = Self::find_column_ci(cols, &type_names);
        if name_idx.is_none() && cols.len() >= 3 {
            name_idx = Some(0);
            arg_idx = Some(1);
            type_idx = Some(2);
        }
        let ghost m = resolved_source_columns(cv);
        proof {
            assert(opt_idx(name_idx) == m.name);
            assert(opt_idx(arg_idx) == m.arg);
            assert(opt_idx(type_idx) == m.typ);
        }
        let name = get_field_opt(line, cols, name_idx);
        if name.as_str().unicode_len() == 0 {
            return None;
        }
        Some(
            Source {
                name,
                url: get_field_opt(line, cols, arg_idx),
                source_type: get_field_opt(line, cols, type_idx),
            },
        )
    }
}

} // verus!
