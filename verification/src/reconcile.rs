//! Generation-based reconciliation: the single state object the control
//! loop owns, its detail cache, and the rules that keep displayed state
//! consistent under concurrent, unordered, possibly stale asynchronous
//! fetch results.

use vstd::prelude::*;
use crate::models::{
    AppMode, InputMode, SourceFilter, Package, PackageView, package_views, PackageDetail,
    DetailView, ConfirmDialog, AppMessage, Operation, OpResult,
};
use crate::text::{dec_str, usize_to_string};

verus! {

/// One detail cache entry, keyed by package identifier.
#[derive(Debug)]
pub struct CacheEntry {
    pub id: String,
    pub detail: PackageDetail,
}

/// The mathematical contents of a `CacheEntry`.
pub struct CacheEntryView {
    pub id: Seq<char>,
    pub detail: DetailView,
}

impl View for CacheEntry {
    type V = CacheEntryView;

    open spec fn view(&self) -> CacheEntryView {
        CacheEntryView { id: self.id@, detail: self.detail@ }
    }
}

impl Clone for CacheEntry {
    fn clone(&self) -> (r: Self)
        ensures
            r@ == self@,
    {
        CacheEntry { id: self.id.clone(), detail: self.detail.clone() }
    }
}

pub open spec fn cache_views(c: Seq<CacheEntry>) -> Seq<CacheEntryView> {
    c.map_values(|e: CacheEntry| e@)
}

/// Index of the first cache entry at or after `i` keyed by `id`.
pub open spec fn cache_find_from(c: Seq<CacheEntryView>, id: Seq<char>, i: int) -> Option<int>
    decreases c.len() - i,
{
    if 0 <= i < c.len() {
        if c[i].id == id {
            Some(i)
        } else {
            cache_find_from(c, id, i + 1)
        }
    } else {
        None
    }
}

/// The cached detail for `id`, if any.
pub open spec fn cache_get_spec(c: Seq<CacheEntryView>, id: Seq<char>) -> Option<DetailView> {
    match cache_find_from(c, id, 0) {
        Some(i) => Some(c[i].detail),
        None => None,
    }
}

/// The cache with the entry for `id` (if any) removed.
pub open spec fn cache_removed_spec(c: Seq<CacheEntryView>, id: Seq<char>) -> Seq<
    CacheEntryView,
> {
    match cache_find_from(c, id, 0) {
        Some(i) => c.remove(i),
        None => c,
    }
}

/// The cache with the entries for all of `ids` removed, first to last.
pub open spec fn cache_removed_all_from(
    c: Seq<CacheEntryView>,
    ids: Seq<Seq<char>>,
    k: int,
) -> Seq<CacheEntryView>
    decreases ids.len() - k,
{
    if k < 0 || k >= ids.len() {
        c
    } else {
        cache_removed_all_from(cache_removed_spec(c, ids[k]), ids, k + 1)
    }
}

/// The cache with the entry for `id` replaced or added.
pub open spec fn cache_insert_spec(
    c: Seq<CacheEntryView>,
    id: Seq<char>,
    d: DetailView,
) -> Seq<CacheEntryView> {
    match cache_find_from(c, id, 0) {
        Some(i) => c.update(i, CacheEntryView { id: id, detail: d }),
        None => c.push(CacheEntryView { id: id, detail: d }),
    }
}

/// Cache well-formedness: identifiers are non-empty and pairwise distinct.
pub open spec fn cache_wf(c: Seq<CacheEntryView>) -> bool {
    &&& forall|i: int| 0 <= i < c.len() ==> (#[trigger] c[i].id).len() > 0
    &&& forall|i: int, j: int|
        0 <= i < j < c.len() ==> (#[trigger] c[i].id) != (#[trigger] c[j].id)
}

proof fn lemma_cache_find_none(c: Seq<CacheEntryView>, id: Seq<char>, i: int)
    requires
        0 <= i <= c.len(),
        cache_find_from(c, id, i) is None,
    ensures
        forall|k: int| i <= k < c.len() ==> (#[trigger] c[k].id) != id,
    decreases c.len() - i,
{
    if i < c.len() {
        lemma_cache_find_none(c, id, i + 1);
    }
}

/// Looks up the cached detail for `id`.
pub fn cache_get(cache: &Vec<CacheEntry>, id: &str) -> (r: Option<PackageDetail>)
    ensures
        match r {
            Some(d) => cache_get_spec(cache_views(cache@), id@) == Some(d@),
            None => cache_get_spec(cache_views(cache@), id@) is None,
        },
{
    let ghost cv = cache_views(cache@);
    let n = cache.len();
    let mut i: usize = 0;
    while i < n
        invariant
            i <= n,
            n == cache@.len(),
            cv == cache_views(cache@),
            cache_find_from(cv, id@, 0) == cache_find_from(cv, id@, i as int),
        decreases n - i,
    {
        proof {
            assert(cv[i as int] == cache@[i as int]@);
        }
        if crate::text::str_eq(cache[i].id.as_str(), id) {
            return Some(cache[i].detail.clone());
        }
        i += 1;
    }
    None
}

/// Inserts or replaces the cache entry for `d.id`.
pub fn cache_insert(cache: &mut Vec<CacheEntry>, d: &PackageDetail)
    requires
        d.id@.len() > 0,
        cache_wf(cache_views(old(cache)@)),
    ensures
        cache_views(final(cache)@) == cache_insert_spec(cache_views(old(cache)@), d.id@, d@),
        cache_wf(cache_views(final(cache)@)),
{
    let ghost cv = cache_views(old(cache)@);
    let n = cache.len();
    let mut i: usize = 0;
    while i < n
        invariant
            i <= n,
            n == cache@.len(),
            cache@ == old(cache)@,
            cv == cache_views(cache@),
            cache_wf(cv),
            cache_find_from(cv, d.id@, 0) == cache_find_from(cv, d.id@, i as int),
        decreases n - i,
    {
        proof {
            assert(cv[i as int] == cache@[i as int]@);
        }
        if crate::text::str_eq(cache[i].id.as_str(), d.id.as_str()) {
            let entry = CacheEntry { id: d.id.clone(), detail: d.clone() };
            proof {
                assert(cache_find_from(cv, d.id@, i as int) == Some(i as int));
            }
            cache[i] = entry;
            proof {
                let nv = cv.update(i as int, CacheEntryView { id: d.id@, detail: d@ });
                assert(cache_views(cache@) =~= nv);
                assert forall|k: int| 0 <= k < nv.len() implies (#[trigger] nv[k]).id == cv[k].id
                by {
                    if k == i {
                        assert(cv[k].id == d.id@);
                    }
                }
            }
            return ;
        }
        i += 1;
    }
    proof {
        lemma_cache_find_none(cv, d.id@, 0);
    }
    let entry = CacheEntry { id: d.id.clone(), detail: d.clone() };
    cache.push(entry);
    proof {
        assert(cache_views(cache@) =~= cv.push(CacheEntryView { id: d.id@, detail: d@ }));
    }
}

/// Removes the cache entry for `id`, if present.
pub fn cache_remove(cache: &mut Vec<CacheEntry>, id: &str)
    requires
        cache_wf(cache_views(old(cache)@)),
    ensures
        cache_views(final(cache)@) == cache_removed_spec(cache_views(old(cache)@), id@),
        cache_wf(cache_views(final(cache)@)),
{
    let ghost cv = cache_views(old(cache)@);
    let n = cache.len();
    let mut i: usize = 0;
    while i < n
        invariant
            i <= n,
            n == cache@.len(),
            cache@ == old(cache)@,
            cv == cache_views(cache@),
            cache_wf(cv),
            cache_find_from(cv, id@, 0) == cache_find_from(cv, id@, i as int),
        decreases n - i,
    {
        proof {
            assert(cv[i as int] == cache@[i as int]@);
        }
        if crate::text::str_eq(cache[i].id.as_str(), id) {
            proof {
                assert(cache_find_from(cv, id@, i as int) == Some(i as int));
            }
            cache.remove(i);
            proof {
                let nv = cv.remove(i as int);
                cv.remove_ensures(i as int);
                assert(cache_views(cache@) =~= nv);
                assert forall|a: int, b: int|
                    0 <= a < b < nv.len() implies (#[trigger] nv[a]).id != (
                #[trigger] nv[b]).id by {
                    if a < i {
                        assert(nv[a] == cv[a]);
                    } else {
                        assert(nv[a] == cv[a + 1]);
                    }
                    if b < i {
                        assert(nv[b] == cv[b]);
                    } else {
                        assert(nv[b] == cv[b + 1]);
                    }
                }
                assert forall|k: int| 0 <= k < nv.len() implies (#[trigger] nv[k]).id.len() > 0 by {
                    if k < i {
                        assert(nv[k] == cv[k]);
                    } else {
                        assert(nv[k] == cv[k + 1]);
                    }
                }
            }
            return ;
        }
        i += 1;
    }
    proof {
        lemma_cache_find_none(cv, id@, 0);
        assert(cache_views(cache@) =~= cv);
    }
}

/// A detail fetch to dispatch as background work, tagged with the
/// generation under which it was issued.
#[derive(Debug)]
pub struct DetailRequest {
    pub generation: u64,
    pub id: String,
}

/// The work a view refresh asks for: either the result is already known
/// (an empty search), or a list fetch must run in the background.
#[derive(Debug)]
pub enum FetchPlan {
    EmptyResult { generation: u64 },
    FetchList { generation: u64, mode: AppMode, query: String, source_arg: Option<String> },
}

/// The provisional detail synthesized from already-known summary fields,
/// shown while the full fetch proceeds.
pub open spec fn provisional_of(p: PackageView) -> DetailView {
    DetailView {
        id: p.id,
        name: p.name,
        version: p.version,
        source: p.source,
        publisher: Seq::<char>::empty(),
        description: Seq::<char>::empty(),
        homepage: Seq::<char>::empty(),
        license: Seq::<char>::empty(),
        available_version: Seq::<char>::empty(),
    }
}

/// Index of the first package at or after `i` whose identifier is `id`.
pub open spec fn find_pkg_from(s: Seq<PackageView>, id: Seq<char>, i: int) -> Option<int>
    decreases s.len() - i,
{
    if 0 <= i < s.len() {
        if s[i].id == id {
            Some(i)
        } else {
            find_pkg_from(s, id, i + 1)
        }
    } else {
        None
    }
}

/// The view of an optional detail value.
pub open spec fn opt_detail_view(o: Option<PackageDetail>) -> Option<DetailView> {
    match o {
        Some(d) => Some(d@),
        None => None,
    }
}

/// Finds the first package in `v` whose identifier is `id`.
pub fn find_package_index(v: &Vec<Package>, id: &str) -> (r: Option<usize>)
    ensures
        match r {
            Some(j) => j < v@.len() && find_pkg_from(package_views(v@), id@, 0) == Some(j as int),
            None => find_pkg_from(package_views(v@), id@, 0) is None,
        },
{
    let ghost fviews = package_views(v@);
    let n = v.len();
    let mut i: usize = 0;
    while i < n
        invariant
            i <= n,
            n == v@.len(),
            fviews == package_views(v@),
            find_pkg_from(fviews, id@, 0) == find_pkg_from(fviews, id@, i as int),
        decreases n - i,
    {
        proof {
            assert(fviews[i as int] == v@[i as int]@);
        }
        if crate::text::str_eq(v[i].id.as_str(), id) {
            return Some(i);
        }
        i += 1;
    }
    None
}

/// The single mutable state object of the interactive session. The control
/// loop owns it exclusively; background units report back only through
/// messages.
pub struct App {
    pub mode: AppMode,
    pub input_mode: InputMode,
    pub source_filter: SourceFilter,
    pub search_query: String,
    pub packages: Vec<Package>,
    pub filtered_packages: Vec<Package>,
    pub selected: usize,
    pub detail: Option<PackageDetail>,
    pub detail_loading: bool,
    pub status_message: String,
    pub loading: bool,
    pub confirm: Option<ConfirmDialog>,
    pub show_help: bool,
    pub should_quit: bool,
    /// Scroll offset of the package list table (set during rendering).
    pub table_scroll_offset: usize,
    /// Tick counter for animations.
    pub tick: usize,
    /// Incremented on each view refresh; stale results are discarded.
    pub view_generation: u64,
    /// Incremented on each detail load; stale results are discarded.
    pub detail_generation: u64,
    /// Details already fetched this session, keyed by identifier.
    pub detail_cache: Vec<CacheEntry>,
    /// Indices into the filtered list selected for batch operations.
    pub selected_packages: Vec<usize>,
}

impl App {
    /// Structural soundness: the selection stays inside the filtered list
    /// and the cache is well-keyed.
    pub open spec fn wf(self) -> bool {
        &&& (self.filtered_packages@.len() == 0 ==> self.selected == 0)
        &&& (self.filtered_packages@.len() > 0 ==> (self.selected as int)
            < self.filtered_packages@.len())
        &&& cache_wf(cache_views(self.detail_cache@))
    }

    pub fn new() -> (r: App)
        ensures
            r.wf(),
            r.mode == AppMode::Installed,
            r.input_mode == InputMode::Normal,
            r.source_filter == SourceFilter::All,
            r.search_query@ == Seq::<char>::empty(),
            r.packages@.len() == 0,
            r.filtered_packages@.len() == 0,
            r.selected == 0,
            r.detail is None,
            !r.detail_loading,
            r.status_message@ == "Loading..."@,
            !r.loading,
            r.confirm is None,
            !r.show_help,
            !r.should_quit,
            r.table_scroll_offset == 0,
            r.tick == 0,
            r.view_generation == 0,
            r.detail_generation == 0,
            r.detail_cache@.len() == 0,
            r.selected_packages@.len() == 0,
    {
        App {
            mode: AppMode::Installed,
            input_mode: InputMode::Normal,
            source_filter: SourceFilter::All,
            search_query: String::new(),
            packages: Vec::new(),
            filtered_packages: Vec::new(),
            selected: 0,
            detail: None,
            detail_loading: false,
            status_message: "Loading...".to_owned(),
            loading: false,
            confirm: None,
            show_help: false,
            should_quit: false,
            table_scroll_offset: 0,
            tick: 0,
            view_generation: 0,
            detail_generation: 0,
            detail_cache: Vec::new(),
            selected_packages: Vec::new(),
        }
    }

    /// Rebuilds the filtered list from the loaded packages. When a source
    /// filter other than `All` is active the tool has already filtered
    /// server-side (and omits the source column), so every returned
    /// package is accepted; under `All` each record's source label is
    /// tested, which also accepts everything. The selection is clamped
    /// into bounds and any pending multi-selection is cleared, since its
    /// indices are now stale.
    pub fn apply_filter(&mut self)
        requires
            old(self).wf(),
        ensures
            final(self).wf(),
            package_views(final(self).filtered_packages@) == package_views(old(self).packages@),
            final(self).selected == ({
                let len = old(self).packages@.len() as int;
                if (old(self).selected as int) < len {
                    old(self).selected as int
                } else if len == 0 {
                    0
                } else {
                    len - 1
                }
            }),
            final(self).selected_packages@.len() == 0,
            final(self).packages == old(self).packages,
            final(self).mode == old(self).mode,
            final(self).input_mode == old(self).input_mode,
            final(self).source_filter == old(self).source_filter,
            final(self).search_query == old(self).search_query,
            final(self).detail == old(self).detail,
            final(self).detail_loading == old(self).detail_loading,
            final(self).status_message == old(self).status_message,
            final(self).loading == old(self).loading,
            final(self).confirm == old(self).confirm,
            final(self).show_help == old(self).show_help,
            final(self).should_quit == old(self).should_quit,
            final(self).table_scroll_offset == old(self).table_scroll_offset,
            final(self).tick == old(self).tick,
            final(self).view_generation == old(self).view_generation,
            final(self).detail_generation == old(self).detail_generation,
            final(self).detail_cache == old(self).detail_cache,
    {
        let n = self.packages.len();
        let mut filtered: Vec<Package> = Vec::new();
        let is_all = match self.source_filter {
            SourceFilter::All => true,
            _ => false,
        };
        if is_all {
            let mut i: usize = 0;
            while i < n
                invariant
                    i <= n,
                    n == self.packages@.len(),
                    self.source_filter == SourceFilter::All,
                    package_views(filtered@) =~= package_views(self.packages@).take(i as int),
                decreases n - i,
            {
                if self.source_filter.matches(self.packages[i].source.as_str()) {
                    let p = self.packages[i].clone();
                    proof {
                        assert(package_views(filtered@.push(p)) =~= package_views(filtered@)
                            + seq![p@]);
                        assert(package_views(self.packages@).take(i + 1) =~= package_views(
                            self.packages@,
                        ).take(i as int) + seq![self.packages@[i as int]@]);
                    }
                    filtered.push(p);
                }
                i += 1;
            }
        } else {
            let mut i: usize = 0;
            while i < n
                invariant
                    i <= n,
                    n == self.packages@.len(),
                    package_views(filtered@) =~= package_views(self.packages@).take(i as int),
                decreases n - i,
            {
                let p = self.packages[i].clone();
                proof {
                    assert(package_views(filtered@.push(p)) =~= package_views(filtered@)
                        + seq![p@]);
                    assert(package_views(self.packages@).take(i + 1) =~= package_views(
                        self.packages@,
                    ).take(i as int) + seq![self.packages@[i as int]@]);
                }
                filtered.push(p);
                i += 1;
            }
        }
        proof {
            assert(package_views(filtered@) =~= package_views(self.packages@));
        }
        self.filtered_packages = filtered;
        let len = self.filtered_packages.len();
        if self.selected >= len {
            self.selected = if len == 0 {
                0
            } else {
                len - 1
            };
        }
        self.selected_packages.clear();
        proof {
            assert(package_views(self.filtered_packages@).len() == self.filtered_packages@.len());
            assert(package_views(old(self).packages@).len() == old(self).packages@.len());
        }
    }

    /// The currently selected package, if the selection is in bounds.
    pub fn selected_package(&self) -> (r: Option<&Package>)
        ensures
            match r {
                Some(p) => (self.selected as int) < self.filtered_packages@.len() && *p
                    == self.filtered_packages@[self.selected as int],
                None => (self.selected as int) >= self.filtered_packages@.len(),
            },
    {
        if self.selected < self.filtered_packages.len() {
            Some(&self.filtered_packages[self.selected])
        } else {
            None
        }
    }

    /// Moves the selection by `delta`, wrapping around the filtered list.
    pub fn move_selection(&mut self, delta: isize)
        requires
            old(self).wf(),
        ensures
            final(self).wf(),
            old(self).filtered_packages@.len() == 0 ==> *final(self) == *old(self),
            old(self).filtered_packages@.len() > 0 ==> final(self).selected as int == (old(self).selected as int + delta as int) % (old(self).filtered_packages@.len() as int),
            *final(self) == (App { selected: final(self).selected, ..*old(self) }),
    {
        let len = self.filtered_packages.len();
        if len == 0 {
            return ;
        }
        let li: i128 = len as i128;
        let x: i128 = self.selected as i128 + delta as i128;
        match x.checked_rem_euclid(li) {
            Some(v) => {
                proof {
                    vstd::arithmetic::div_mod::lemma_mod_division_less_than_divisor(
                        x as int,
                        li as int,
                    );
                }
                self.selected = v as usize;
            },
            None => {
                proof {
                    assert(false);
                }
            },
        }
    }

    /// Sets the status line.
    pub fn set_status(&mut self, msg: &str)
        requires
            old(self).wf(),
        ensures
            final(self).wf(),
            final(self).status_message@ == msg@,
            *final(self) == (App { status_message: final(self).status_message, ..*old(self) }),
    {
        self.status_message = msg.to_owned();
    }

    /// The spinner frame for the current tick.
    pub open spec fn spec_spinner(t: int) -> char {
        let k = t % 10;
        if k == 0 {
            '⠋'
        } else if k == 1 {
            '⠙'
        } else if k == 2 {
            '⠹'
        } else if k == 3 {
            '⠸'
        } else if k == 4 {
            '⠼'
        } else if k == 5 {
            '⠴'
        } else if k == 6 {
            '⠦'
        } else if k == 7 {
            '⠧'
        } else if k == 8 {
            '⠇'
        } else {
            '⠏'
        }
    }

    pub fn spinner(&self) -> (r: char)
        ensures
            r == Self::spec_spinner(self.tick as int),
    {
        match self.tick % 10 {
            0 => '⠋',
            1 => '⠙',
            2 => '⠹',
            3 => '⠸',
            4 => '⠼',
            5 => '⠴',
            6 => '⠦',
            7 => '⠧',
            8 => '⠇',
            _ => '⠏',
        }
    }

    /// Issues a new list fetch: bumps the view generation synchronously,
    /// before any background work starts, so that any in-flight result of
    /// an older generation will be discarded on arrival. An empty search
    /// needs no fetch: its result is empty.
    pub fn refresh_view(&mut self) -> (r: FetchPlan)
        requires
            old(self).wf(),
            old(self).view_generation < u64::MAX,
        ensures
            final(self).wf(),
            final(self).view_generation == old(self).view_generation + 1,
            *final(self) == (App { view_generation: final(self).view_generation, ..*old(self) }),
            ({
                let empty_search = old(self).mode == AppMode::Search && old(self).search_query@.len() == 0;
                match r {
                    FetchPlan::EmptyResult { generation } => empty_search && generation == final(self).view_generation,
                    FetchPlan::FetchList { generation, mode, query, source_arg } => {
                        &&& !empty_search
                        &&& generation == final(self).view_generation
                        &&& mode == old(self).mode
                        &&& query@ == old(self).search_query@
                        &&& match source_arg {
                            Some(s) => (old(self).source_filter == SourceFilter::Winget && s@
                                == "winget"@) || (old(self).source_filter == SourceFilter::MsStore
                                && s@ == "msstore"@),
                            None => old(self).source_filter == SourceFilter::All,
                        }
                    },
                }
            }),
    {
        self.view_generation = self.view_generation + 1;
        let generation = self.view_generation;
        let empty_search = match self.mode {
            AppMode::Search => self.search_query.as_str().is_empty(),
            _ => false,
        };
        if empty_search {
            FetchPlan::EmptyResult { generation }
        } else {
            let source_arg = match self.source_filter {
                SourceFilter::Winget => Some("winget".to_owned()),
                SourceFilter::MsStore => Some("msstore".to_owned()),
                SourceFilter::All => None,
            };
            FetchPlan::FetchList {
                generation,
                mode: self.mode,
                query: self.search_query.clone(),
                source_arg,
            }
        }
    }

    /// Requests the detail for `id`. The detail generation is always
    /// bumped first, invalidating any in-flight older fetch even before
    /// it returns. On a cache hit the cached detail is applied
    /// synchronously and no fetch is dispatched. Otherwise a provisional
    /// detail is synthesized from the summary fields already on screen,
    /// and the returned request is to be dispatched in the background.
    pub fn load_detail(&mut self, id: &str) -> (r: Option<DetailRequest>)
        requires
            old(self).wf(),
            old(self).detail_generation < u64::MAX,
        ensures
            final(self).wf(),
            final(self).detail_generation == old(self).detail_generation + 1,
            ({
                let cached = cache_get_spec(cache_views(old(self).detail_cache@), id@);
                match r {
                    None => {
                        &&& cached matches Some(d)
                        &&& opt_detail_view(final(self).detail) == Some(d)
                        &&& !final(self).detail_loading
                        &&& *final(self) == (App {
                            detail: final(self).detail,
                            detail_loading: false,
                            detail_generation: final(self).detail_generation,
                            ..*old(self)
                        })
                    },
                    Some(req) => {
                        &&& cached is None
                        &&& req.generation == final(self).detail_generation
                        &&& req.id@ == id@
                        &&& final(self).detail_loading
                        &&& opt_detail_view(final(self).detail) == (match find_pkg_from(
                            package_views(old(self).filtered_packages@),
                            id@,
                            0,
                        ) {
                            Some(j) => Some(
                                provisional_of(
                                    package_views(old(self).filtered_packages@)[j],
                                ),
                            ),
                            None => opt_detail_view(old(self).detail),
                        })
                        &&& *final(self) == (App {
                            detail: final(self).detail,
                            detail_loading: true,
                            detail_generation: final(self).detail_generation,
                            ..*old(self)
                        })
                    },
                }
            }),
    {
        self.detail_generation = self.detail_generation + 1;

        match cache_get(&self.detail_cache, id) {
            Some(cached) => {
                self.detail = Some(cached);
                self.detail_loading = false;
                return None;
            },
            None => {},
        }

        match find_package_index(&self.filtered_packages, id) {
            Some(j) => {
                let pkg = &self.filtered_packages[j];
                let mut d = PackageDetail::default();
                d.id = pkg.id.clone();
                d.name = pkg.name.clone();
                d.version = pkg.version.clone();
                d.source = pkg.source.clone();
                self.detail = Some(d);
            },
            None => {},
        }
        self.detail_loading = true;
        Some(DetailRequest { generation: self.detail_generation, id: id.to_owned() })
    }
}

/// The merge of a freshly fetched detail with the currently displayed one:
/// for identifier, name, version, source and available version the fresh
/// value wins unless it is empty, in which case the displayed value is
/// retained; publisher, description, homepage and license always take the
/// fresh value.
pub open spec fn merged_detail(existing: Option<DetailView>, fresh: DetailView) -> DetailView {
    match existing {
        None => fresh,
        Some(e) => DetailView {
            id: if fresh.id.len() == 0 {
                e.id
            } else {
                fresh.id
            },
            name: if fresh.name.len() == 0 {
                e.name
            } else {
                fresh.name
            },
            version: if fresh.version.len() == 0 {
                e.version
            } else {
                fresh.version
            },
            source: if fresh.source.len() == 0 {
                e.source
            } else {
                fresh.source
            },
            publisher: fresh.publisher,
            description: fresh.description,
            homepage: fresh.homepage,
            license: fresh.license,
            available_version: if fresh.available_version.len() == 0 {
                e.available_version
            } else {
                fresh.available_version
            },
        },
    }
}

/// Merges a freshly fetched detail with the currently displayed one.
pub fn merge_detail(existing: &Option<PackageDetail>, fresh: &PackageDetail) -> (r: PackageDetail)
    ensures
        r@ == merged_detail(opt_detail_view(*existing), fresh@),
{
    match existing {
        None => fresh.clone(),
        Some(e) => PackageDetail {
            id: if fresh.id.as_str().is_empty() {
                e.id.clone()
            } else {
                fresh.id.clone()
            },
            name: if fresh.name.as_str().is_empty() {
                e.name.clone()
            } else {
                fresh.name.clone()
            },
            version: if fresh.version.as_str().is_empty() {
                e.version.clone()
            } else {
                fresh.version.clone()
            },
            source: if fresh.source.as_str().is_empty() {
                e.source.clone()
            } else {
                fresh.source.clone()
            },
            publisher: fresh.publisher.clone(),
            description: fresh.description.clone(),
            homepage: fresh.homepage.clone(),
            license: fresh.license.clone(),
            available_version: if fresh.available_version.as_str().is_empty() {
                e.available_version.clone()
            } else {
                fresh.available_version.clone()
            },
        },
    }
}

/// The selection clamped into a list of length `len`.
pub open spec fn clamp_sel(sel: int, len: int) -> int {
    if sel < len {
        sel
    } else if len == 0 {
        0
    } else {
        len - 1
    }
}

/// The status line reporting how many packages a fetch found.
pub open spec fn packages_found_msg(count: int) -> Seq<char> {
    if count == 1 {
        dec_str(count) + " package found"@
    } else {
        dec_str(count) + " packages found"@
    }
}

/// The status line for a completed operation.
pub open spec fn op_status_msg(result: OpResult) -> Seq<char> {
    if result.success {
        result.operation.spec_describe() + " — done"@
    } else {
        result.operation.spec_describe() + " — failed: "@ + result.message@
    }
}

/// What a fresh detail load did, relative to the cache it consulted: a
/// cache hit was applied synchronously with no fetch dispatched, a miss
/// left a provisional detail and a request to dispatch.
pub open spec fn detail_load_outcome(
    cache_old: Seq<CacheEntryView>,
    new: App,
    fid: Seq<char>,
    dr: Option<DetailRequest>,
) -> bool {
    let cached = cache_get_spec(cache_old, fid);
    match dr {
        None => {
            &&& cached matches Some(d)
            &&& opt_detail_view(new.detail) == Some(d)
            &&& !new.detail_loading
        },
        Some(req) => {
            &&& cached is None
            &&& req.generation == new.detail_generation
            &&& req.id@ == fid
            &&& new.detail_loading
        },
    }
}

impl App {
    /// Consumes one message reported by a background unit of work,
    /// reconciling it against the current generations. A result tagged
    /// with a generation older than the consumer's current generation for
    /// its class is discarded without any state change. The returned pair
    /// holds a list fetch to dispatch (after a completed operation) and a
    /// detail fetch to dispatch (after a fresh package list selected a
    /// record whose detail is uncached).
    #[verifier::rlimit(50)]
    #[verifier::spinoff_prover]
    pub fn handle_message(&mut self, msg: AppMessage) -> (r: (
        Option<FetchPlan>,
        Option<DetailRequest>,
    ))
        requires
            old(self).wf(),
            old(self).view_generation < u64::MAX,
            old(self).detail_generation < u64::MAX,
        ensures
            final(self).wf(),
            final(self).mode == old(self).mode,
            final(self).input_mode == old(self).input_mode,
            final(self).source_filter == old(self).source_filter,
            final(self).search_query == old(self).search_query,
            final(self).confirm == old(self).confirm,
            final(self).show_help == old(self).show_help,
            final(self).should_quit == old(self).should_quit,
            final(self).table_scroll_offset == old(self).table_scroll_offset,
            final(self).tick == old(self).tick,
            ({
                match msg {
                    AppMessage::PackagesLoaded { generation, packages } => {
                        if generation < old(self).view_generation {
                            *final(self) == *old(self) && r.0 is None && r.1 is None
                        } else {
                            &&& r.0 is None
                            &&& final(self).packages == packages
                            &&& package_views(final(self).filtered_packages@) == package_views(
                                packages@,
                            )
                            &&& !final(self).loading
                            &&& final(self).selected as int == clamp_sel(
                                old(self).selected as int,
                                packages@.len() as int,
                            )
                            &&& final(self).selected_packages@.len() == 0
                            &&& final(self).status_message@ == packages_found_msg(
                                packages@.len() as int,
                            )
                            &&& final(self).view_generation == old(self).view_generation
                            &&& final(self).detail_cache == old(self).detail_cache
                            &&& if packages@.len() == 0 {
                                &&& r.1 is None
                                &&& final(self).detail == old(self).detail
                                &&& final(self).detail_generation == old(self).detail_generation
                                &&& final(self).detail_loading == old(self).detail_loading
                            } else {
                                &&& final(self).detail_generation == old(self).detail_generation
                                    + 1
                                &&& detail_load_outcome(
                                    cache_views(old(self).detail_cache@),
                                    *final(self),
                                    final(self).filtered_packages@[final(self).selected as int]@.id,
                                    r.1,
                                )
                            }
                        }
                    },
                    AppMessage::DetailLoaded { generation, detail } => {
                        if generation < old(self).detail_generation {
                            *final(self) == *old(self) && r.0 is None && r.1 is None
                        } else {
                            let merged = merged_detail(
                                opt_detail_view(old(self).detail),
                                detail@,
                            );
                            &&& r.0 is None
                            &&& r.1 is None
                            &&& opt_detail_view(final(self).detail) == Some(merged)
                            &&& !final(self).detail_loading
                            &&& cache_views(final(self).detail_cache@) == (if merged.id.len() > 0 {
                                cache_insert_spec(
                                    cache_views(old(self).detail_cache@),
                                    merged.id,
                                    merged,
                                )
                            } else {
                                cache_views(old(self).detail_cache@)
                            })
                            &&& final(self).packages == old(self).packages
                            &&& final(self).filtered_packages == old(self).filtered_packages
                            &&& final(self).selected == old(self).selected
                            &&& final(self).selected_packages == old(self).selected_packages
                            &&& final(self).status_message == old(self).status_message
                            &&& final(self).loading == old(self).loading
                            &&& final(self).view_generation == old(self).view_generation
                            &&& final(self).detail_generation == old(self).detail_generation
                        }
                    },
                    AppMessage::OperationComplete(result) => {
                        &&& r.1 is None
                        &&& cache_views(final(self).detail_cache@) == cache_removed_all_from(
                            cache_views(old(self).detail_cache@),
                            result.operation.spec_target_ids(),
                            0,
                        )
                        &&& (result.operation matches Operation::BatchUpgrade { .. } ==> final(self).selected_packages@.len() == 0)
                        &&& (!(result.operation matches Operation::BatchUpgrade { .. }) ==> final(self).selected_packages == old(self).selected_packages)
                        &&& final(self).status_message@ == op_status_msg(result)
                        &&& !final(self).loading
                        &&& final(self).view_generation == old(self).view_generation + 1
                        &&& (r.0 matches Some(plan) && (match plan {
                            FetchPlan::EmptyResult { generation } => {
                                &&& old(self).mode == AppMode::Search
                                &&& old(self).search_query@.len() == 0
                                &&& generation == final(self).view_generation
                            },
                            FetchPlan::FetchList { generation, mode, query, source_arg } => {
                                &&& !(old(self).mode == AppMode::Search && old(self).search_query@.len() == 0)
                                &&& generation == final(self).view_generation
                                &&& mode == old(self).mode
                                &&& query@ == old(self).search_query@
                            },
                        }))
                        &&& final(self).packages == old(self).packages
                        &&& final(self).filtered_packages == old(self).filtered_packages
                        &&& final(self).selected == old(self).selected
                        &&& final(self).detail == old(self).detail
                        &&& final(self).detail_loading == old(self).detail_loading
                        &&& final(self).detail_generation == old(self).detail_generation
                    },
                    AppMessage::Error(m) => {
                        &&& r.0 is None
                        &&& r.1 is None
                        &&& final(self).status_message@ == "Error: "@ + m@
                        &&& !final(self).loading
                        &&& *final(self) == (App {
                            status_message: final(self).status_message,
                            loading: false,
                            ..*old(self)
                        })
                    },
                    AppMessage::StatusUpdate(m) => {
                        &&& r.0 is None
                        &&& r.1 is None
                        &&& final(self).status_message@ == m@
                        &&& *final(self) == (App {
                            status_message: final(self).status_message,
                            ..*old(self)
                        })
                    },
                }
            }),
    {
        match msg {
            AppMessage::PackagesLoaded { generation, packages } => {
                if generation < self.view_generation {
                    return (None, None);
                }
                self.packages = packages;
                self.apply_filter();
                self.loading = false;
                let count = self.filtered_packages.len();
                let mut m = usize_to_string(count);
                if count == 1 {
                    m.append(" package found");
                } else {
                    m.append(" packages found");
                }
                self.status_message = m;
                let id_opt = match self.selected_package() {
                    Some(pkg) => Some(pkg.id.clone()),
                    None => None,
                };
                match id_opt {
                    Some(id) => {
                        let dr = self.load_detail(id.as_str());
                        (None, dr)
                    },
                    None => (None, None),
                }
            },
            AppMessage::DetailLoaded { generation, detail } => {
                if generation < self.detail_generation {
                    return (None, None);
                }
                let merged = merge_detail(&self.detail, &detail);
                if !merged.id.as_str().is_empty() {
                    cache_insert(&mut self.detail_cache, &merged);
                }
                self.detail = Some(merged);
                self.detail_loading = false;
                (None, None)
            },
            AppMessage::OperationComplete(result) => {
                let ghost cv0 = cache_views(self.detail_cache@);
                let ghost targets = result.operation.spec_target_ids();
                match &result.operation {
                    Operation::Install { id, .. } => {
                        cache_remove(&mut self.detail_cache, id.as_str());
                        proof {
                            assert(targets[0] == id@);
                            assert(cache_removed_all_from(
                                cache_removed_spec(cv0, targets[0]),
                                targets,
                                1,
                            ) == cache_removed_spec(cv0, targets[0]));
                            assert(cache_views(self.detail_cache@) == cache_removed_all_from(
                                cv0,
                                targets,
                                0,
                            ));
                        }
                    },
                    Operation::Uninstall { id } => {
                        cache_remove(&mut self.detail_cache, id.as_str());
                        proof {
                            assert(targets[0] == id@);
                            assert(cache_removed_all_from(
                                cache_removed_spec(cv0, targets[0]),
                                targets,
                                1,
                            ) == cache_removed_spec(cv0, targets[0]));
                            assert(cache_views(self.detail_cache@) == cache_removed_all_from(
                                cv0,
                                targets,
                                0,
                            ));
                        }
                    },
                    Operation::Upgrade { id } => {
                        cache_remove(&mut self.detail_cache, id.as_str());
                        proof {
                            assert(targets[0] == id@);
                            assert(cache_removed_all_from(
                                cache_removed_spec(cv0, targets[0]),
                                targets,
                                1,
                            ) == cache_removed_spec(cv0, targets[0]));
                            assert(cache_views(self.detail_cache@) == cache_removed_all_from(
                                cv0,
                                targets,
                                0,
                            ));
                        }
                    },
                    Operation::BatchUpgrade { ids } => {
                        let n = ids.len();
                        let mut i: usize = 0;
                        while i < n
                            invariant
                                i <= n,
                                n == ids@.len(),
                                targets == ids@.map_values(|s: String| s@),
                                cache_wf(cache_views(self.detail_cache@)),
                                cache_removed_all_from(cv0, targets, 0) == cache_removed_all_from(
                                    cache_views(self.detail_cache@),
                                    targets,
                                    i as int,
                                ),
                                *self == (App { detail_cache: self.detail_cache, ..*old(self) }),
                                old(self).wf(),
                                old(self).view_generation < u64::MAX,
                            decreases n - i,
                        {
                            proof {
                                assert(targets[i as int] == ids@[i as int]@);
                            }
                            cache_remove(&mut self.detail_cache, ids[i].as_str());
                            i += 1;
                        }
                        self.selected_packages.clear();
                    },
                }
                let mut m = result.operation.describe();
                if result.success {
                    m.append(" — done");
                } else {
                    m.append(" — failed: ");
                    m.append(result.message.as_str());
                }
                self.status_message = m;
                self.loading = false;
                let plan = self.refresh_view();
                (Some(plan), None)
            },
            AppMessage::Error(m) => {
                let mut s = String::new();
                s.append("Error: ");
                s.append(m.as_str());
                self.status_message = s;
                self.loading = false;
                (None, None)
            },
            AppMessage::StatusUpdate(m) => {
                self.status_message = m;
                (None, None)
            },
        }
    }
}

/// The outcome record for one completed operation, from the raw result of
/// running it.
pub fn op_result_of(operation: Operation, result: Result<String, String>) -> (r: OpResult)
    ensures
        r.operation == operation,
        r.success == (result is Ok),
        r.message@ == (match result {
            Ok(m) => m@,
            Err(e) => e@,
        }),
{
    match result {
        Ok(m) => OpResult { operation, success: true, message: m },
        Err(e) => OpResult { operation, success: false, message: e },
    }
}

/// The status line announced before step `index` (zero-based) of a batch
/// of `total` upgrades.
pub fn batch_status_message(index: usize, total: usize, id: &str) -> (r: String)
    requires
        index < usize::MAX,
    ensures
        r@ == "Upgrading "@ + dec_str(index + 1) + "/"@ + dec_str(total as int) + ": "@ + id@
            + "..."@,
{
    let mut s = String::new();
    s.append("Upgrading ");
    let ni = usize_to_string(index + 1);
    s.append(ni.as_str());
    s.append("/");
    let nt = usize_to_string(total);
    s.append(nt.as_str());
    s.append(": ");
    s.append(id);
    s.append("...");
    proof {
        assert(s@ =~= "Upgrading "@ + dec_str(index + 1) + "/"@ + dec_str(total as int) + ": "@
            + id@ + "..."@);
    }
    s
}

/// One line of a batch failure report: the failed identifier with its
/// individual error.
pub fn failure_entry(id: &str, err: &str) -> (r: String)
    ensures
        r@ == id@ + ": "@ + err@,
{
    let mut s = String::new();
    s.append(id);
    s.append(": ");
    s.append(err);
    proof {
        assert(s@ =~= id@ + ": "@ + err@);
    }
    s
}

/// The entries joined with `"; "` between them.
pub open spec fn join_semi(parts: Seq<Seq<char>>) -> Seq<char>
    decreases parts.len(),
{
    if parts.len() == 0 {
        Seq::<char>::empty()
    } else if parts.len() == 1 {
        parts[0]
    } else {
        parts[0] + "; "@ + join_semi(parts.drop_first())
    }
}

fn join_semi_from(parts: &Vec<String>, i: usize) -> (r: String)
    requires
        i <= parts.len(),
    ensures
        r@ == join_semi(crate::text::string_views(parts@).skip(i as int)),
    decreases parts.len() - i,
{
    let ghost views = crate::text::string_views(parts@);
    proof {
        assert(views.skip(i as int).len() == parts@.len() - i);
    }
    if i >= parts.len() {
        String::new()
    } else if i + 1 == parts.len() {
        proof {
            assert(views.skip(i as int)[0] == parts@[i as int]@);
        }
        parts[i].clone()
    } else {
        let mut x = parts[i].clone();
        let rest = join_semi_from(parts, i + 1);
        x.append("; ");
        x.append(rest.as_str());
        proof {
            assert(views.skip(i as int)[0] == parts@[i as int]@);
            assert(views.skip(i as int).drop_first() =~= views.skip(i + 1));
        }
        x
    }
}

/// The aggregate outcome of a sequential batch upgrade: success only when
/// every step succeeded, otherwise a failure enumerating each failed
/// identifier with its individual error. Steps already applied remain
/// applied either way.
pub fn batch_outcome(total: usize, failures: &Vec<String>) -> (r: Result<String, String>)
    requires
        failures@.len() <= total,
    ensures
        failures@.len() == 0 ==> (r matches Ok(m) && m@ == "All "@ + dec_str(total as int)
            + " packages upgraded successfully"@),
        failures@.len() > 0 ==> (r matches Err(e) && e@ == dec_str(
            total - failures@.len(),
        ) + "/"@ + dec_str(total as int) + " succeeded, "@ + dec_str(failures@.len() as int)
            + " failed: "@ + join_semi(crate::text::string_views(failures@))),
{
    if failures.len() == 0 {
        let mut s = String::new();
        s.append("All ");
        let nt = usize_to_string(total);
        s.append(nt.as_str());
        s.append(" packages upgraded successfully");
        proof {
            assert(s@ =~= "All "@ + dec_str(total as int) + " packages upgraded successfully"@);
        }
        Ok(s)
    } else {
        let mut s = usize_to_string(total - failures.len());
        s.append("/");
        let nt = usize_to_string(total);
        s.append(nt.as_str());
        s.append(" succeeded, ");
        let nf = usize_to_string(failures.len());
        s.append(nf.as_str());
        s.append(" failed: ");
        let joined = join_semi_from(failures, 0);
        s.append(joined.as_str());
        proof {
            assert(crate::text::string_views(failures@).skip(0) =~= crate::text::string_views(
                failures@,
            ));
            assert(s@ =~= dec_str(total - failures@.len()) + "/"@ + dec_str(total as int)
                + " succeeded, "@ + dec_str(failures@.len() as int) + " failed: "@ + join_semi(
                crate::text::string_views(failures@),
            ));
        }
        Err(s)
    }
}

} // verus!
