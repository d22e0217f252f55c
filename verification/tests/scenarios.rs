use winget_tui::cli_backend::CliBackend;
use winget_tui::models::{AppMode, Package, SourceFilter};

#[test]
fn single_upgrade_row_parses_to_full_record() {
    let backend = CliBackend::new();
    let output = "\
Name           Id             Version     Available   Source
------------------------------------------------------------
Google Chrome  Google.Chrome  131.0.6778  132.0.6834  winget
";
    let packages = backend.parse_packages_from_table(output);
    assert_eq!(packages.len(), 1);
    assert_eq!(packages[0].name, "Google Chrome");
    assert_eq!(packages[0].id, "Google.Chrome");
    assert_eq!(packages[0].version, "131.0.6778");
    assert_eq!(packages[0].available_version, "132.0.6834");
    assert_eq!(packages[0].source, "winget");
}

#[test]
fn german_detail_block_parses_locale_independently() {
    let backend = CliBackend::new();
    let output = "\
Gefunden Chrome [Google.Chrome]
Herausgeber: Google LLC
";
    let detail = backend.parse_show_output(output);
    assert_eq!(detail.name, "Chrome");
    assert_eq!(detail.id, "Google.Chrome");
    assert_eq!(detail.publisher, "Google LLC");
}

#[test]
fn digit_leading_product_name_with_footer_yields_two_records() {
    let backend = CliBackend::new();
    let output = "\
Name                  Id               Version  Available  Source
------------------------------------------------------------------
7-Zip 25.01 (x64)     7zip.7zip        25.01               winget
CPUID CPU-Z MSI 2.15  CPUID.CPU-Z.MSI  2.15     2.18       winget
2 upgrades available.
";
    let packages = backend.parse_packages_from_table(output);
    assert_eq!(packages.len(), 2);
    assert_eq!(packages[0].name, "7-Zip 25.01 (x64)");
    assert_eq!(packages[0].id, "7zip.7zip");
    assert_eq!(packages[1].id, "CPUID.CPU-Z.MSI");
}

#[test]
fn same_record_from_english_and_german_tables() {
    let backend = CliBackend::new();
    let english = "\
Name           Id             Version     Available   Source
------------------------------------------------------------
Google Chrome  Google.Chrome  131.0.6778  132.0.6834  winget
";
    let german = "\
Name           ID             Version     Verfügbar   Quelle
------------------------------------------------------------
Google Chrome  Google.Chrome  131.0.6778  132.0.6834  winget
";
    let spanish = "\
Nombre         Id             Versión     Disponible  Origen
------------------------------------------------------------
Google Chrome  Google.Chrome  131.0.6778  132.0.6834  winget
";
    let a = backend.parse_packages_from_table(english);
    let b = backend.parse_packages_from_table(german);
    let c = backend.parse_packages_from_table(spanish);
    assert_eq!(a.len(), 1);
    assert_eq!(b.len(), 1);
    assert_eq!(c.len(), 1);
    for other in [&b[0], &c[0]] {
        assert_eq!(a[0].name, other.name);
        assert_eq!(a[0].id, other.id);
        assert_eq!(a[0].version, other.version);
        assert_eq!(a[0].available_version, other.available_version);
        assert_eq!(a[0].source, other.source);
    }
}

#[test]
fn implausible_identifier_is_rejected_wherever_it_stands() {
    let backend = CliBackend::new();
    let output = "\
Name           Id             Version  Source
------------------------------------------------
First Thing    NoDotsHere     1.0      winget
Real Package   Real.Package   2.0      winget
Machine Entry  ARP\\X64\\Git    3.0      winget
Last Thing     AlsoNoDots     4.0      winget
";
    let packages = backend.parse_packages_from_table(output);
    assert_eq!(packages.len(), 2);
    assert_eq!(packages[0].id, "Real.Package");
    assert_eq!(packages[1].id, "ARP\\X64\\Git");
}

#[test]
fn footer_is_a_per_line_filter_not_a_cutoff() {
    let backend = CliBackend::new();
    // A counting message in the middle must skip only itself.
    let output = "\
Name           Id             Version  Source
------------------------------------------------
First Thing    First.Thing    1.0      winget
3 Pakete gefunden und mehr Text
Second Thing   Second.Thing   2.0      winget
";
    let packages = backend.parse_packages_from_table(output);
    assert_eq!(packages.len(), 2);
    assert_eq!(packages[0].id, "First.Thing");
    assert_eq!(packages[1].id, "Second.Thing");
}

#[test]
fn wide_glyphs_keep_fields_aligned() {
    let backend = CliBackend::new();
    // Each of the three ideographs is one character of display width two,
    // so the name cell is six columns wide although it is nine bytes.
    let output = "\
Name    Id        Version  Source
----------------------------------
日本語  Nihon.Go  1.0      winget
";
    let packages = backend.parse_packages_from_table(output);
    assert_eq!(packages.len(), 1);
    assert_eq!(packages[0].name, "日本語");
    assert_eq!(packages[0].id, "Nihon.Go");
    assert_eq!(packages[0].version, "1.0");
    assert_eq!(packages[0].source, "winget");
}

#[test]
fn uppercase_accented_header_still_resolves() {
    let backend = CliBackend::new();
    let output = "\
NAME           ID             VERSION     VERFÜGBAR   QUELLE
------------------------------------------------------------
Google Chrome  Google.Chrome  131.0.6778  132.0.6834  winget
";
    let packages = backend.parse_packages_from_table(output);
    assert_eq!(packages.len(), 1);
    assert_eq!(packages[0].available_version, "132.0.6834");
    assert_eq!(packages[0].source, "winget");
}

#[test]
fn no_separator_means_empty_result() {
    let backend = CliBackend::new();
    assert_eq!(backend.parse_packages_from_table("just some text\nno table here\n").len(), 0);
    // A separator on the first line has no header above it.
    assert_eq!(backend.parse_packages_from_table("---------------\nrow Some.Id 1 x\n").len(), 0);
    assert_eq!(backend.parse_packages_from_table("").len(), 0);
}

#[test]
fn detect_columns_reports_names_and_display_offsets() {
    let cols = CliBackend::detect_columns("Name           Id    Version");
    assert_eq!(cols.len(), 3);
    assert_eq!(cols[0].name, "Name");
    assert_eq!(cols[0].start, 0);
    assert_eq!(cols[1].name, "Id");
    assert_eq!(cols[1].start, 15);
    assert_eq!(cols[2].name, "Version");
    assert_eq!(cols[2].start, 21);
}

#[test]
fn show_keys_normalize_across_locales() {
    assert_eq!(CliBackend::normalize_show_key("Herausgeber"), "publisher");
    assert_eq!(CliBackend::normalize_show_key("PUBLISHER"), "publisher");
    assert_eq!(CliBackend::normalize_show_key("Descrição"), "description");
    assert_eq!(CliBackend::normalize_show_key("Startseite"), "homepage");
    assert_eq!(CliBackend::normalize_show_key("Herausgeber-URL"), "publisher_url");
    assert_eq!(CliBackend::normalize_show_key("Lizenz"), "license");
    assert_eq!(CliBackend::normalize_show_key("Quelle"), "source");
    assert_eq!(CliBackend::normalize_show_key("PackageVersion"), "version");
    assert_eq!(CliBackend::normalize_show_key("Moniker"), "");
}

#[test]
fn description_continuation_lines_are_joined() {
    let backend = CliBackend::new();
    let output = "\
Found Tool [Vendor.Tool]
Description: First part
  second part
  third part
License: MIT
";
    let detail = backend.parse_show_output(output);
    assert_eq!(detail.description, "First part second part third part");
    assert_eq!(detail.license, "MIT");
}

#[test]
fn publisher_url_is_only_a_homepage_fallback() {
    let backend = CliBackend::new();
    let with_homepage = "\
Publisher URL: https://fallback.example
Homepage: https://primary.example
";
    let detail = backend.parse_show_output(with_homepage);
    assert_eq!(detail.homepage, "https://primary.example");

    let without_homepage = "Publisher URL: https://fallback.example\n";
    let detail = backend.parse_show_output(without_homepage);
    assert_eq!(detail.homepage, "https://fallback.example");
}

#[test]
fn source_filter_matches_case_insensitively() {
    assert!(SourceFilter::All.matches("anything"));
    assert!(SourceFilter::Winget.matches("winget"));
    assert!(SourceFilter::Winget.matches("WinGet"));
    assert!(!SourceFilter::Winget.matches("msstore"));
    assert!(SourceFilter::MsStore.matches("MSSTORE"));
    assert_eq!(SourceFilter::All.cycle(), SourceFilter::Winget);
    assert_eq!(SourceFilter::Winget.cycle(), SourceFilter::MsStore);
    assert_eq!(SourceFilter::MsStore.cycle(), SourceFilter::All);
}

#[test]
fn app_mode_cycles_and_labels() {
    assert_eq!(AppMode::Search.cycle(), AppMode::Installed);
    assert_eq!(AppMode::Installed.cycle(), AppMode::Upgrades);
    assert_eq!(AppMode::Upgrades.cycle(), AppMode::Search);
    assert_eq!(AppMode::Search.cycle_back(), AppMode::Upgrades);
    assert_eq!(AppMode::Installed.cycle_back(), AppMode::Search);
    assert_eq!(AppMode::Upgrades.cycle_back(), AppMode::Installed);
    assert_eq!(AppMode::Search.label(), "Search");
    assert_eq!(AppMode::Installed.label(), "Installed");
    assert_eq!(AppMode::Upgrades.label(), "Upgrades");
}

#[test]
fn truncation_flag_follows_trailing_ellipsis() {
    let mut p = Package {
        id: "Microsoft.Sysinternals.R\u{2026}".to_string(),
        name: String::new(),
        version: String::new(),
        source: String::new(),
        available_version: String::new(),
    };
    assert!(p.is_truncated());
    p.id = "Microsoft.Sysinternals".to_string();
    assert!(!p.is_truncated());
    p.id = String::new();
    assert!(!p.is_truncated());
}

#[test]
fn parsing_identical_input_twice_gives_identical_lists() {
    let backend = CliBackend::new();
    let output = "\
Name           Id             Version     Available   Source
------------------------------------------------------------
Google Chrome  Google.Chrome  131.0.6778  132.0.6834  winget
7-Zip          7zip.7zip      25.01                   winget
";
    let a = backend.parse_packages_from_table(output);
    let b = backend.parse_packages_from_table(output);
    assert_eq!(a.len(), b.len());
    for (x, y) in a.iter().zip(b.iter()) {
        assert_eq!(x.id, y.id);
        assert_eq!(x.name, y.name);
        assert_eq!(x.version, y.version);
        assert_eq!(x.source, y.source);
        assert_eq!(x.available_version, y.available_version);
    }
}

#[test]
fn source_table_parses_names_and_urls() {
    let backend = CliBackend::new();
    let output = "\
Name     Argument                                       Type
----------------------------------------------------------------------
msstore  https://storeedgefd.dsx.mp.microsoft.com/v9.0  Microsoft.Rest
winget   https://cdn.winget.microsoft.com/cache         Microsoft.PreIndexed.Package
";
    let sources = backend.parse_sources_from_table(output);
    assert_eq!(sources.len(), 2);
    assert_eq!(sources[0].name, "msstore");
    assert_eq!(sources[1].name, "winget");
    assert_eq!(sources[1].url, "https://cdn.winget.microsoft.com/cache");
    assert_eq!(sources[1].source_type, "Microsoft.PreIndexed.Package");
}
