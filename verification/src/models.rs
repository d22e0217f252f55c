//! Core data types: package records, details, operations, and the
//! enumerations that drive the interactive views.

use vstd::prelude::*;
use crate::text::dec_str;

verus! {

/// Which package source the user has restricted the view to.
#[derive(Debug, Clone, PartialEq, Eq, Structural)]
pub enum SourceFilter {
    All,
    Winget,
    MsStore,
}

impl SourceFilter {
    /// The filter that follows `self` when the user cycles forward.
    pub open spec fn spec_cycle(self) -> SourceFilter {
        match self {
            SourceFilter::All => SourceFilter::Winget,
            SourceFilter::Winget => SourceFilter::MsStore,
            SourceFilter::MsStore => SourceFilter::All,
        }
    }

    pub fn cycle(&self) -> (r: Self)
        ensures
            r == self.spec_cycle(),
    {
        match self {
            SourceFilter::All => SourceFilter::Winget,
            SourceFilter::Winget => SourceFilter::MsStore,
            SourceFilter::MsStore => SourceFilter::All,
        }
    }

    /// Whether a record labelled `source` passes this filter,
    /// case-insensitively.
    pub open spec fn spec_matches(self, source: Seq<char>) -> bool {
        match self {
            SourceFilter::All => true,
            SourceFilter::Winget => crate::text::lower_seq(source) == "winget"@,
            SourceFilter::MsStore => crate::text::lower_seq(source) == "msstore"@,
        }
    }

    pub fn matches(&self, source: &str) -> (r: bool)
        ensures
            r == self.spec_matches(source@),
    {
        match self {
            SourceFilter::All => true,
            SourceFilter::Winget => crate::text::lower_eq(source, "winget"),
            SourceFilter::MsStore => crate::text::lower_eq(source, "msstore"),
        }
    }
}

/// Which of the three main views is active.
#[derive(Debug, Clone, Copy, PartialEq, Eq, Structural)]
pub enum AppMode {
    Search,
    Installed,
    Upgrades,
}

impl AppMode {
    pub open spec fn spec_cycle(self) -> AppMode {
        match self {
            AppMode::Search => AppMode::Installed,
            AppMode::Installed => AppMode::Upgrades,
            AppMode::Upgrades => AppMode::Search,
        }
    }

    pub open spec fn spec_cycle_back(self) -> AppMode {
        match self {
            AppMode::Search => AppMode::Upgrades,
            AppMode::Installed => AppMode::Search,
            AppMode::Upgrades => AppMode::Installed,
        }
    }

    pub fn cycle(&self) -> (r: Self)
        ensures
            r == self.spec_cycle(),
    {
        match self {
            AppMode::Search => AppMode::Installed,
            AppMode::Installed => AppMode::Upgrades,
            AppMode::Upgrades => AppMode::Search,
        }
    }

    pub fn cycle_back(&self) -> (r: Self)
        ensures
            r == self.spec_cycle_back(),
    {
        match self {
            AppMode::Search => AppMode::Upgrades,
            AppMode::Installed => AppMode::Search,
            AppMode::Upgrades => AppMode::Installed,
        }
    }

    pub fn label(&self) -> (r: &'static str)
        ensures
            self is Search ==> r@ == "Search"@,
            self is Installed ==> r@ == "Installed"@,
            self is Upgrades ==> r@ == "Upgrades"@,
    {
        match self {
            AppMode::Search => "Search",
            AppMode::Installed => "Installed",
            AppMode::Upgrades => "Upgrades",
        }
    }
}

/// Whether key presses edit the search query or drive the normal bindings.
#[derive(Debug, Clone, Copy, PartialEq, Eq, Structural)]
pub enum InputMode {
    Normal,
    Search,
}

/// One row of a package table.
#[derive(Debug)]
pub struct Package {
    pub id: String,
    pub name: String,
    pub version: String,
    pub source: String,
    /// Only present in upgrade listings.
    pub available_version: String,
}

/// The mathematical contents of a `Package`.
pub struct PackageView {
    pub id: Seq<char>,
    pub name: Seq<char>,
    pub version: Seq<char>,
    pub source: Seq<char>,
    pub available_version: Seq<char>,
}

impl View for Package {
    type V = PackageView;

    open spec fn view(&self) -> PackageView {
        PackageView {
            id: self.id@,
            name: self.name@,
            version: self.version@,
            source: self.source@,
            available_version: self.available_version@,
        }
    }
}

impl Clone for Package {
    fn clone(&self) -> (r: Self)
        ensures
            r@ == self@,
    {
        Package {
            id: self.id.clone(),
            name: self.name.clone(),
            version: self.version.clone(),
            source: self.source.clone(),
            available_version: self.available_version.clone(),
        }
    }
}

pub open spec fn package_views(s: Seq<Package>) -> Seq<PackageView> {
    s.map_values(|p: Package| p@)
}

pub open spec fn opt_package_view(o: Option<Package>) -> Option<PackageView> {
    match o {
        Some(p) => Some(p@),
        None => None,
    }
}

impl Package {
    /// An identifier cut off by the table renderer ends in an ellipsis; a
    /// follow-up detail lookup for such a record is unreliable.
    pub open spec fn spec_is_truncated(self) -> bool {
        self.id@.len() > 0 && self.id@.last() == '…'
    }

    pub fn is_truncated(&self) -> (r: bool)
        ensures
            r == self.spec_is_truncated(),
    {
        let v = crate::text::str_chars(self.id.as_str());
        if v.len() == 0 {
            false
        } else {
            v[v.len() - 1] == '…'
        }
    }
}

/// Detailed information about a single package.
#[derive(Debug)]
pub struct PackageDetail {
    pub id: String,
    pub name: String,
    pub version: String,
    pub publisher: String,
    pub description: String,
    pub homepage: String,
    pub license: String,
    pub source: String,
    /// Available version when viewing an upgrade (empty otherwise).
    pub available_version: String,
}

/// The mathematical contents of a `PackageDetail`.
pub struct DetailView {
    pub id: Seq<char>,
    pub name: Seq<char>,
    pub version: Seq<char>,
    pub publisher: Seq<char>,
    pub description: Seq<char>,
    pub homepage: Seq<char>,
    pub license: Seq<char>,
    pub source: Seq<char>,
    pub available_version: Seq<char>,
}

impl DetailView {
    /// The detail whose fields are all empty.
    pub open spec fn empty() -> DetailView {
        DetailView {
            id: Seq::<char>::empty(),
            name: Seq::<char>::empty(),
            version: Seq::<char>::empty(),
            publisher: Seq::<char>::empty(),
            description: Seq::<char>::empty(),
            homepage: Seq::<char>::empty(),
            license: Seq::<char>::empty(),
            source: Seq::<char>::empty(),
            available_version: Seq::<char>::empty(),
        }
    }
}

impl View for PackageDetail {
    type V = DetailView;

    open spec fn view(&self) -> DetailView {
        DetailView {
            id: self.id@,
            name: self.name@,
            version: self.version@,
            publisher: self.publisher@,
            description: self.description@,
            homepage: self.homepage@,
            license: self.license@,
            source: self.source@,
            available_version: self.available_version@,
        }
    }
}

impl Clone for PackageDetail {
    fn clone(&self) -> (r: Self)
        ensures
            r@ == self@,
    {
        PackageDetail {
            id: self.id.clone(),
            name: self.name.clone(),
            version: self.version.clone(),
            publisher: self.publisher.clone(),
            description: self.description.clone(),
            homepage: self.homepage.clone(),
            license: self.license.clone(),
            source: self.source.clone(),
            available_version: self.available_version.clone(),
        }
    }
}

impl Default for PackageDetail {
    fn default() -> (r: Self)
        ensures
            r@ == DetailView::empty(),
    {
        PackageDetail {
            id: String::new(),
            name: String::new(),
            version: String::new(),
            publisher: String::new(),
            description: String::new(),
            homepage: String::new(),
            license: String::new(),
            source: String::new(),
            available_version: String::new(),
        }
    }
}

/// One configured package source.
#[derive(Debug)]
pub struct Source {
    pub name: String,
    pub url: String,
    pub source_type: String,
}

/// The mathematical contents of a `Source`.
pub struct SourceView {
    pub name: Seq<char>,
    pub url: Seq<char>,
    pub source_type: Seq<char>,
}

impl View for Source {
    type V = SourceView;

    open spec fn view(&self) -> SourceView {
        SourceView { name: self.name@, url: self.url@, source_type: self.source_type@ }
    }
}

impl Clone for Source {
    fn clone(&self) -> (r: Self)
        ensures
            r@ == self@,
    {
        Source {
            name: self.name.clone(),
            url: self.url.clone(),
            source_type: self.source_type.clone(),
        }
    }
}

pub open spec fn source_views(s: Seq<Source>) -> Seq<SourceView> {
    s.map_values(|x: Source| x@)
}

/// A mutating request against the package manager.
#[derive(Debug)]
pub enum Operation {
    Install { id: String, version: Option<String> },
    Uninstall { id: String },
    Upgrade { id: String },
    /// A multi-selection upgraded one member at a time.
    BatchUpgrade { ids: Vec<String> },
}

impl Clone for Operation {
    fn clone(&self) -> (r: Self)
        ensures
            r.spec_describe() == self.spec_describe(),
            r.spec_target_ids() == self.spec_target_ids(),
    {
        match self {
            Operation::Install { id, version } => Operation::Install {
                id: id.clone(),
                version: match version {
                    Some(v) => Some(v.clone()),
                    None => None,
                },
            },
            Operation::Uninstall { id } => Operation::Uninstall { id: id.clone() },
            Operation::Upgrade { id } => Operation::Upgrade { id: id.clone() },
            Operation::BatchUpgrade { ids } => {
                let mut copied: Vec<String> = Vec::new();
                let mut i: usize = 0;
                while i < ids.len()
                    invariant
                        i <= ids.len(),
                        copied@.len() == i,
                        forall|k: int| 0 <= k < i ==> copied@[k]@ == ids@[k]@,
                    decreases ids.len() - i,
                {
                    copied.push(ids[i].clone());
                    i += 1;
                }
                proof {
                    assert(copied@.map_values(|s: String| s@) =~= ids@.map_values(
                        |s: String| s@,
                    ));
                }
                Operation::BatchUpgrade { ids: copied }
            },
        }
    }
}

impl Operation {
    /// The identifiers whose cache entries a completed run of this
    /// operation invalidates.
    pub open spec fn spec_target_ids(self) -> Seq<Seq<char>> {
        match self {
            Operation::Install { id, .. } => seq![id@],
            Operation::Uninstall { id } => seq![id@],
            Operation::Upgrade { id } => seq![id@],
            Operation::BatchUpgrade { ids } => ids@.map_values(|s: String| s@),
        }
    }

    /// The status line announcing this operation.
    pub open spec fn spec_describe(self) -> Seq<char> {
        match self {
            Operation::Install { id, version: Some(v) } => "Installing "@ + id@ + " v"@ + v@,
            Operation::Install { id, version: None } => "Installing "@ + id@,
            Operation::Uninstall { id } => "Uninstalling "@ + id@,
            Operation::Upgrade { id } => "Upgrading "@ + id@,
            Operation::BatchUpgrade { ids } => "Upgrading "@ + dec_str(ids@.len() as int)
                + " packages"@,
        }
    }

    /// Renders the status line announcing this operation.
    pub fn describe(&self) -> (r: String)
        ensures
            r@ == self.spec_describe(),
    {
        match self {
            Operation::Install { id, version } => {
                let mut s = String::new();
                s.append("Installing ");
                s.append(id.as_str());
                match version {
                    Some(v) => {
                        s.append(" v");
                        s.append(v.as_str());
                    },
                    None => {},
                }
                s
            },
            Operation::Uninstall { id } => {
                let mut s = String::new();
                s.append("Uninstalling ");
                s.append(id.as_str());
                s
            },
            Operation::Upgrade { id } => {
                let mut s = String::new();
                s.append("Upgrading ");
                s.append(id.as_str());
                s
            },
            Operation::BatchUpgrade { ids } => {
                let mut s = String::new();
                s.append("Upgrading ");
                let count = crate::text::usize_to_string(ids.len());
                s.append(count.as_str());
                s.append(" packages");
                s
            },
        }
    }
}

/// The outcome of a completed operation.
#[derive(Debug)]
pub struct OpResult {
    pub operation: Operation,
    pub success: bool,
    pub message: String,
}

/// A pending confirmation dialog.
#[derive(Debug)]
pub struct ConfirmDialog {
    pub message: String,
    pub operation: Operation,
}

/// A message reported back by a background unit of work.
#[derive(Debug)]
pub enum AppMessage {
    PackagesLoaded { generation: u64, packages: Vec<Package> },
    DetailLoaded { generation: u64, detail: PackageDetail },
    OperationComplete(OpResult),
    StatusUpdate(String),
    Error(String),
}

} // verus!
