use winget_tui::cli_backend::CliBackend;

#[test]
fn parse_english_upgrade_table() {
    let backend = CliBackend::new();
    let output = "\
Name                           Id                          Version     Available   Source
-----------------------------------------------------------------------------------------------
Google Chrome                  Google.Chrome               131.0.6778  132.0.6834  winget
Microsoft Visual Studio Code   Microsoft.VisualStudioCode  1.95.3      1.96.0      winget
";
    let packages = backend.parse_packages_from_table(output);
    assert_eq!(packages.len(), 2);
    assert_eq!(packages[0].id, "Google.Chrome");
    assert_eq!(packages[0].version, "131.0.6778");
    assert_eq!(packages[0].available_version, "132.0.6834");
    assert_eq!(packages[0].source, "winget");
    assert_eq!(packages[1].id, "Microsoft.VisualStudioCode");
}

#[test]
fn parse_german_upgrade_table() {
    let backend = CliBackend::new();
    let output = "\
Name                           ID                          Version     Verfügbar   Quelle
-----------------------------------------------------------------------------------------------
Google Chrome                  Google.Chrome               131.0.6778  132.0.6834  winget
Microsoft Visual Studio Code   Microsoft.VisualStudioCode  1.95.3      1.96.0      winget
";
    let packages = backend.parse_packages_from_table(output);
    assert_eq!(packages.len(), 2, "should parse German table headers");
    assert_eq!(packages[0].id, "Google.Chrome");
    assert_eq!(packages[0].available_version, "132.0.6834");
    assert_eq!(packages[0].source, "winget");
    assert_eq!(packages[1].id, "Microsoft.VisualStudioCode");
}

#[test]
fn parse_unknown_locale_positional_fallback() {
    let backend = CliBackend::new();
    // Unrecognized column headers trigger positional fallback
    let output = "\
Foo                            Bar                         Baz         Qux         Quux
-----------------------------------------------------------------------------------------------
Google Chrome                  Google.Chrome               131.0.6778  132.0.6834  winget
";
    let packages = backend.parse_packages_from_table(output);
    assert_eq!(packages.len(), 1, "should parse via positional fallback");
    assert_eq!(packages[0].name, "Google Chrome");
    assert_eq!(packages[0].id, "Google.Chrome");
    assert_eq!(packages[0].version, "131.0.6778");
    assert_eq!(packages[0].available_version, "132.0.6834");
    assert_eq!(packages[0].source, "winget");
}

#[test]
fn parse_english_show_output() {
    let backend = CliBackend::new();
    let output = "\
Found Google Chrome [Google.Chrome]
Version: 132.0.6834
Publisher: Google LLC
Description: A fast, secure, and free web browser
Homepage: https://www.google.com/chrome
License: Proprietary
Source: winget
";
    let detail = backend.parse_show_output(output);
    assert_eq!(detail.id, "Google.Chrome");
    assert_eq!(detail.name, "Google Chrome");
    assert_eq!(detail.version, "132.0.6834");
    assert_eq!(detail.publisher, "Google LLC");
    assert_eq!(detail.description, "A fast, secure, and free web browser");
    assert_eq!(detail.homepage, "https://www.google.com/chrome");
    assert_eq!(detail.license, "Proprietary");
}

#[test]
fn parse_german_show_output() {
    let backend = CliBackend::new();
    let output = "\
Gefunden Google Chrome [Google.Chrome]
Version: 132.0.6834
Herausgeber: Google LLC
Beschreibung: Ein schneller, sicherer und kostenloser Webbrowser
Startseite: https://www.google.com/chrome
Lizenz: Proprietary
Quelle: winget
";
    let detail = backend.parse_show_output(output);
    assert_eq!(detail.id, "Google.Chrome");
    assert_eq!(detail.name, "Google Chrome");
    assert_eq!(detail.version, "132.0.6834");
    assert_eq!(detail.publisher, "Google LLC");
    assert_eq!(detail.description, "Ein schneller, sicherer und kostenloser Webbrowser");
    assert_eq!(detail.homepage, "https://www.google.com/chrome");
    assert_eq!(detail.license, "Proprietary");
}

#[test]
fn parse_german_list_table_without_available() {
    let backend = CliBackend::new();
    let output = "\
Name                           ID                          Version  Quelle
---------------------------------------------------------------------------
Google Chrome                  Google.Chrome               131.0.6  winget
";
    let packages = backend.parse_packages_from_table(output);
    assert_eq!(packages.len(), 1);
    assert_eq!(packages[0].id, "Google.Chrome");
    assert_eq!(packages[0].source, "winget");
    assert!(packages[0].available_version.is_empty());
}

#[test]
fn parse_upgrade_table_with_german_pin_message() {
    let backend = CliBackend::new();
    // Real output from winget upgrade with pinned packages (German locale)
    let output = "\
Name                           ID                          Version     Verfügbar   Quelle
-------------------------------------------------------------------------------------------------
RamMap                         Microsoft.Sysinternals.R... 1.61        1.62        winget
vc_clip                        vc_clip.vc_dir              2026.01.29              winget
2 Pakete verfügen über Pins, die ein Upgrade verhindern. Verwenden Sie den Befehl \"winget pin\", um Pins anzuzeigen und zu bearbeiten. Wenn Sie das --include-pinned-Argument verwenden, werden möglicherweise weitere Ergebnisse angezeigt.
";
    let packages = backend.parse_packages_from_table(output);
    assert_eq!(packages.len(), 2, "should parse only the package rows, not the pin message");
    assert_eq!(packages[0].id, "Microsoft.Sysinternals.R...");
    assert_eq!(packages[0].version, "1.61");
    assert_eq!(packages[0].available_version, "1.62");
    assert_eq!(packages[1].id, "vc_clip.vc_dir");
}

#[test]
fn parse_upgrade_table_with_english_pin_message() {
    let backend = CliBackend::new();
    // English version of pin message
    let output = "\
Name                           Id                          Version     Available   Source
-------------------------------------------------------------------------------------------------
Google Chrome                  Google.Chrome               131.0.6778  132.0.6834  winget
2 packages have pins that prevent upgrade. Use the \"winget pin\" command to view and edit pins. If you use the --include-pinned argument, additional results may be displayed.
";
    let packages = backend.parse_packages_from_table(output);
    assert_eq!(packages.len(), 1, "should parse only the package rows, not the pin message");
    assert_eq!(packages[0].id, "Google.Chrome");
    assert_eq!(packages[0].available_version, "132.0.6834");
}

#[test]
fn parse_upgrade_table_with_upgrades_available_footer() {
    let backend = CliBackend::new();
    // Footer message indicating number of upgrades
    let output = "\
Name                           Id                          Version     Available   Source
-------------------------------------------------------------------------------------------------
Google Chrome                  Google.Chrome               131.0.6778  132.0.6834  winget
Microsoft Visual Studio Code   Microsoft.VisualStudioCode  1.95.3      1.96.0      winget
2 upgrades available.
";
    let packages = backend.parse_packages_from_table(output);
    assert_eq!(packages.len(), 2, "should parse package rows, stopping at footer");
    assert_eq!(packages[0].id, "Google.Chrome");
    assert_eq!(packages[1].id, "Microsoft.VisualStudioCode");
}

#[test]
fn parse_upgrade_table_with_multiple_footer_lines() {
    let backend = CliBackend::new();
    // Multiple footer messages
    let output = "\
Name                           Id                          Version     Available   Source
-------------------------------------------------------------------------------------------------
Google Chrome                  Google.Chrome               131.0.6778  132.0.6834  winget
1 upgrade available.
2 packages have pins that prevent upgrade. Use the \"winget pin\" command to view and edit pins.
";
    let packages = backend.parse_packages_from_table(output);
    assert_eq!(packages.len(), 1, "should stop at first footer line");
    assert_eq!(packages[0].id, "Google.Chrome");
}

#[test]
fn parse_table_with_digit_starting_package_name() {
    let backend = CliBackend::new();
    // 7-Zip starts with a digit — must NOT be treated as a footer line
    let output = "\
Name                                               Id                                                  Version          Available  Source
-----------------------------------------------------------------------------------------------------------------------------------------
7-Zip 25.01 (x64)                                  7zip.7zip                                           25.01                       winget
CPUID CPU-Z MSI 2.15                               CPUID.CPU-Z.MSI                                     2.15             2.18       winget
Docker Desktop                                     Docker.DockerDesktop                                4.56.0           4.59.0     winget
2 upgrades available.
";
    let packages = backend.parse_packages_from_table(output);
    assert_eq!(packages.len(), 3, "7-Zip must not be treated as footer");
    assert_eq!(packages[0].id, "7zip.7zip");
    assert_eq!(packages[0].name, "7-Zip 25.01 (x64)");
    assert_eq!(packages[1].id, "CPUID.CPU-Z.MSI");
    assert_eq!(packages[2].id, "Docker.DockerDesktop");
}

#[test]
fn parse_table_with_truncated_ids() {
    let backend = CliBackend::new();
    // MSIX packages with truncated IDs (ending with …)
    let output = "\
Name                                  Id                                    Version
---------------------------------------------------------------------------------------
Bluesky                               MSIX\\bsky.app-C52C8C38_1.0.0.0_neutr\u{2026} 1.0.0.0
Slack                                 SlackTechnologies.Slack               4.48.92.0
";
    let packages = backend.parse_packages_from_table(output);
    assert_eq!(packages.len(), 2);
    assert!(packages[0].is_truncated(), "truncated MSIX ID should be detected");
    assert!(!packages[1].is_truncated(), "normal ID should not be truncated");
}

#[test]
fn parse_table_long_footer_not_treated_as_package() {
    let backend = CliBackend::new();
    // A long localized footer whose text extends into the ID column area.
    // With a per-line filter + ID validation, this must not produce a package,
    // AND Chrome after it must still be parsed.
    let output = "\
Name                           Id                          Version     Available   Source
-------------------------------------------------------------------------------------------------
Google Chrome                  Google.Chrome               131.0.6778  132.0.6834  winget
2 Pakete verfuegen ueber Pins die ein Upgrade verhindern, ein Upgrade kann ueber winget durchgefuehrt
Microsoft Visual Studio Code   Microsoft.VisualStudioCode  1.95.3      1.96.0      winget
";
    let packages = backend.parse_packages_from_table(output);
    assert_eq!(packages.len(), 2, "footer must be skipped, but VS Code after it must be kept");
    assert_eq!(packages[0].id, "Google.Chrome");
    assert_eq!(packages[1].id, "Microsoft.VisualStudioCode");
}
