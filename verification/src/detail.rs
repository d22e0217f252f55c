//! Detail parsing: the key/value record and "found" header line read from
//! a single-item detail text block, tolerant of localized key names.

use vstd::prelude::*;
use crate::text::{
    lower_seq, trim_seq, find_char_from, rfind_char, lines_of,
};
use crate::models::DetailView;

verus! {

/// The canonical detail field a localized key maps to.
#[derive(Debug, Clone, Copy, PartialEq, Eq, Structural)]
pub enum DetailKey {
    Version,
    Publisher,
    Description,
    Homepage,
    PublisherUrl,
    License,
    Source,
    Unknown,
}

/// The canonical field for a lower-cased key, per the translation table.
pub open spec fn classify_key(lk: Seq<char>) -> DetailKey {
    if lk == "version"@ || lk == "packageversion"@ {
        DetailKey::Version
    } else if lk == "publisher"@ || lk == "herausgeber"@ || lk == "éditeur"@ || lk == "editore"@
        || lk == "editor"@ {
        DetailKey::Publisher
    } else if lk == "description"@ || lk == "beschreibung"@ || lk == "descripción"@
        || lk == "descrição"@ || lk == "descrizione"@ {
        DetailKey::Description
    } else if lk == "homepage"@ || lk == "startseite"@ {
        DetailKey::Homepage
    } else if lk == "publisher url"@ || lk == "herausgeber-url"@ {
        DetailKey::PublisherUrl
    } else if lk == "license"@ || lk == "lizenz"@ || lk == "licence"@ || lk == "licencia"@
        || lk == "licença"@ || lk == "licenza"@ {
        DetailKey::License
    } else if lk == "source"@ || lk == "quelle"@ || lk == "origen"@ || lk == "fonte"@
        || lk == "origine"@ {
        DetailKey::Source
    } else {
        DetailKey::Unknown
    }
}

/// Classifies a raw key, case-insensitively.
pub fn classify_show_key(key: &str) -> (r: DetailKey)
    ensures
        r == classify_key(lower_seq(key@)),
{
    if crate::text::lower_eq(key, "version") || crate::text::lower_eq(key, "packageversion") {
        DetailKey::Version
    } else if crate::text::lower_eq(key, "publisher") || crate::text::lower_eq(key, "herausgeber")
        || crate::text::lower_eq(key, "éditeur") || crate::text::lower_eq(key, "editore")
        || crate::text::lower_eq(key, "editor") {
        DetailKey::Publisher
    } else if crate::text::lower_eq(key, "description") || crate::text::lower_eq(
        key,
        "beschreibung",
    ) || crate::text::lower_eq(key, "descripción") || crate::text::lower_eq(key, "descrição")
        || crate::text::lower_eq(key, "descrizione") {
        DetailKey::Description
    } else if crate::text::lower_eq(key, "homepage") || crate::text::lower_eq(key, "startseite") {
        DetailKey::Homepage
    } else if crate::text::lower_eq(key, "publisher url") || crate::text::lower_eq(
        key,
        "herausgeber-url",
    ) {
        DetailKey::PublisherUrl
    } else if crate::text::lower_eq(key, "license") || crate::text::lower_eq(key, "lizenz")
        || crate::text::lower_eq(key, "licence") || crate::text::lower_eq(key, "licencia")
        || crate::text::lower_eq(key, "licença") || crate::text::lower_eq(key, "licenza") {
        DetailKey::License
    } else if crate::text::lower_eq(key, "source") || crate::text::lower_eq(key, "quelle")
        || crate::text::lower_eq(key, "origen") || crate::text::lower_eq(key, "fonte")
        || crate::text::lower_eq(key, "origine") {
        DetailKey::Source
    } else {
        DetailKey::Unknown
    }
}

/// The canonical English name of a detail key; empty for an unrecognized
/// key.
pub open spec fn canon_of(k: DetailKey) -> Seq<char> {
    match k {
        DetailKey::Version => "version"@,
        DetailKey::Publisher => "publisher"@,
        DetailKey::Description => "description"@,
        DetailKey::Homepage => "homepage"@,
        DetailKey::PublisherUrl => "publisher_url"@,
        DetailKey::License => "license"@,
        DetailKey::Source => "source"@,
        DetailKey::Unknown => Seq::<char>::empty(),
    }
}

/// Whether a line begins with the two-space indent that marks a
/// description continuation.
pub open spec fn starts_two_spaces(l: Seq<char>) -> bool {
    l.len() >= 2 && l[0] == ' ' && l[1] == ' '
}

/// Whether a line is indented and therefore not a top-level "Key: Value"
/// line.
pub open spec fn is_indented(l: Seq<char>) -> bool {
    l.len() > 0 && (l[0] == ' ' || l[0] == '\t')
}

pub fn line_starts_two_spaces(s: &str) -> (r: bool)
    ensures
        r == starts_two_spaces(s@),
{
    let v = crate::text::str_chars(s);
    if v.len() < 2 {
        false
    } else {
        v[0] == ' ' && v[1] == ' '
    }
}

/// A locale-variant "found" header: the trimmed line holds a bracket pair
/// (last `[` before last `]`) and no colon.
pub open spec fn is_found_header(t: Seq<char>) -> bool {
    let bs = rfind_char(t, '[', t.len() as int);
    let be = rfind_char(t, ']', t.len() as int);
    bs >= 0 && be >= 0 && be > bs && !t.contains(':')
}

/// The display name on a "found" header line: the text before the opening
/// bracket, with its first whitespace-delimited token (the localized
/// prefix word) dropped.
pub open spec fn header_name(t: Seq<char>) -> Seq<char> {
    let bs = rfind_char(t, '[', t.len() as int);
    let before = trim_seq(t.subrange(0, bs));
    let p = find_char_from(before, ' ', 0);
    if p < before.len() {
        trim_seq(before.subrange(p + 1, before.len() as int))
    } else {
        Seq::<char>::empty()
    }
}

/// The identifier on a "found" header line: the bracket contents.
pub open spec fn header_id(t: Seq<char>) -> Seq<char> {
    let bs = rfind_char(t, '[', t.len() as int);
    let be = rfind_char(t, ']', t.len() as int);
    t.subrange(bs + 1, be)
}

/// Appends indented continuation lines to an accumulated description:
/// starting after line `i`, every following line indented by two or more
/// spaces is trimmed and space-joined. Returns the joined text and the
/// index of the last line consumed.
pub open spec fn desc_from(lines: Seq<Seq<char>>, i: int, acc: Seq<char>) -> (Seq<char>, int)
    decreases lines.len() - i,
{
    if 0 <= i && i + 1 < lines.len() && starts_two_spaces(lines[i + 1]) {
        let t = trim_seq(lines[i + 1]);
        let acc2 = if acc.len() == 0 {
            t
        } else {
            acc + seq![' '] + t
        };
        desc_from(lines, i + 1, acc2)
    } else {
        (acc, i)
    }
}

pub proof fn lemma_desc_from_bounds(lines: Seq<Seq<char>>, i: int, acc: Seq<char>)
    requires
        0 <= i,
    ensures
        i <= desc_from(lines, i, acc).1,
        desc_from(lines, i, acc).1 == i || desc_from(lines, i, acc).1 < lines.len(),
    decreases lines.len() - i,
{
    if i + 1 < lines.len() && starts_two_spaces(lines[i + 1]) {
        let t = trim_seq(lines[i + 1]);
        let acc2 = if acc.len() == 0 {
            t
        } else {
            acc + seq![' '] + t
        };
        lemma_desc_from_bounds(lines, i + 1, acc2);
    }
}

/// The detail accumulated from the lines at and after `i`, starting from
/// `d`: "found" header lines set name and identifier; non-indented
/// "Key: Value" lines set the field their key maps to, with description
/// continuation lines space-joined and publisher-url serving only as a
/// fallback for an unset homepage; every other line is ignored.
pub open spec fn show_from(lines: Seq<Seq<char>>, i: int, d: DetailView) -> DetailView
    decreases lines.len() - i,
    via show_from_decreases
{
    if i < 0 || i >= lines.len() {
        d
    } else {
        let l = lines[i];
        let t = trim_seq(l);
        if is_found_header(t) {
            show_from(lines, i + 1, DetailView { name: header_name(t), id: header_id(t), ..d })
        } else if is_indented(l) {
            show_from(lines, i + 1, d)
        } else {
            let ci = find_char_from(t, ':', 0);
            if ci >= t.len() {
                show_from(lines, i + 1, d)
            } else {
                let key = trim_seq(t.subrange(0, ci));
                let value = trim_seq(t.subrange(ci + 1, t.len() as int));
                match classify_key(lower_seq(key)) {
                    DetailKey::Version => show_from(lines, i + 1, DetailView { version: value, ..d }),
                    DetailKey::Publisher => show_from(
                        lines,
                        i + 1,
                        DetailView { publisher: value, ..d },
                    ),
                    DetailKey::Description => {
                        let r = desc_from(lines, i, value);
                        show_from(lines, r.1 + 1, DetailView { description: r.0, ..d })
                    },
                    DetailKey::Homepage => show_from(lines, i + 1, DetailView { homepage: value, ..d }),
                    DetailKey::PublisherUrl => show_from(
                        lines,
                        i + 1,
                        DetailView {
                            homepage: if d.homepage.len() == 0 {
                                value
                            } else {
                                d.homepage
                            },
                            ..d
                        },
                    ),
                    DetailKey::License => show_from(lines, i + 1, DetailView { license: value, ..d }),
                    DetailKey::Source => show_from(lines, i + 1, DetailView { source: value, ..d }),
                    DetailKey::Unknown => show_from(lines, i + 1, d),
                }
            }
        }
    }
}

#[via_fn]
proof fn show_from_decreases(lines: Seq<Seq<char>>, i: int, d: DetailView) {
    if 0 <= i < lines.len() {
        let l = lines[i];
        let t = trim_seq(l);
        if !is_found_header(t) && !is_indented(l) {
            let ci = find_char_from(t, ':', 0);
            if ci < t.len() {
                let value = trim_seq(t.subrange(ci + 1, t.len() as int));
                lemma_desc_from_bounds(lines, i, value);
            }
        }
    }
}

/// The detail record parsed from a whole detail text block.
pub open spec fn parse_show_spec(text: Seq<char>) -> DetailView {
    show_from(lines_of(text), 0, DetailView::empty())
}

} // verus!
