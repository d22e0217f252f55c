use winget_tui::models::{AppMessage, AppMode, Operation, OpResult, Package, PackageDetail};
use winget_tui::reconcile::{
    App, FetchPlan, batch_outcome, batch_status_message, failure_entry, op_result_of,
};

fn pkg(name: &str, id: &str, version: &str, source: &str) -> Package {
    Package {
        id: id.to_string(),
        name: name.to_string(),
        version: version.to_string(),
        source: source.to_string(),
        available_version: String::new(),
    }
}

fn detail(id: &str, name: &str, publisher: &str) -> PackageDetail {
    let mut d = PackageDetail::default();
    d.id = id.to_string();
    d.name = name.to_string();
    d.publisher = publisher.to_string();
    d
}

#[test]
fn stale_packages_result_is_discarded() {
    let mut app = App::new();
    let _ = app.refresh_view();
    let _ = app.refresh_view();
    assert_eq!(app.view_generation, 2);
    let before_status = app.status_message.clone();

    // A result tagged with generation 1 arrives after the consumer's
    // generation advanced to 2: it must produce no state change.
    let (plan, dr) = app.handle_message(AppMessage::PackagesLoaded {
        generation: 1,
        packages: vec![pkg("Stale", "Stale.Package", "1.0", "winget")],
    });
    assert!(plan.is_none());
    assert!(dr.is_none());
    assert_eq!(app.packages.len(), 0);
    assert_eq!(app.filtered_packages.len(), 0);
    assert_eq!(app.status_message, before_status);
}

#[test]
fn current_generation_result_is_applied() {
    let mut app = App::new();
    let plan = app.refresh_view();
    let generation = match plan {
        FetchPlan::FetchList { generation, mode, .. } => {
            assert_eq!(mode, AppMode::Installed);
            generation
        },
        FetchPlan::EmptyResult { .. } => panic!("installed view always fetches"),
    };
    let (plan, dr) = app.handle_message(AppMessage::PackagesLoaded {
        generation,
        packages: vec![pkg("Google Chrome", "Google.Chrome", "131.0", "winget")],
    });
    assert!(plan.is_none());
    assert_eq!(app.packages.len(), 1);
    assert_eq!(app.filtered_packages.len(), 1);
    assert_eq!(app.status_message, "1 package found");
    // The selected record's detail is uncached, so a fetch is dispatched
    // and a provisional detail is shown meanwhile.
    let dr = dr.expect("detail fetch for the selected package");
    assert_eq!(dr.id, "Google.Chrome");
    let d = app.detail.as_ref().expect("provisional detail");
    assert_eq!(d.id, "Google.Chrome");
    assert_eq!(d.name, "Google Chrome");
    assert_eq!(d.version, "131.0");
    assert_eq!(d.publisher, "");
    assert!(app.detail_loading);
}

#[test]
fn stale_detail_result_is_discarded() {
    let mut app = App::new();
    let _ = app.load_detail("Some.Package");
    let _ = app.load_detail("Other.Package");
    assert_eq!(app.detail_generation, 2);
    let shown = app.detail.clone();

    let (plan, dr) = app.handle_message(AppMessage::DetailLoaded {
        generation: 1,
        detail: detail("Some.Package", "Some", "Nobody"),
    });
    assert!(plan.is_none());
    assert!(dr.is_none());
    match (&app.detail, &shown) {
        (None, None) => {},
        (Some(a), Some(b)) => assert_eq!(a.id, b.id),
        _ => panic!("stale detail must not change the displayed detail"),
    }
}

#[test]
fn cached_detail_is_returned_synchronously_and_stale_fetch_ignored() {
    let mut app = App::new();

    // A full fetch completes and is cached.
    let _ = app.load_detail("Google.Chrome");
    let g1 = app.detail_generation;
    let (_, _) = app.handle_message(AppMessage::DetailLoaded {
        generation: g1,
        detail: detail("Google.Chrome", "Google Chrome", "Google LLC"),
    });
    assert_eq!(app.detail_cache.len(), 1);

    // Requesting the same identifier hits the cache: applied at once,
    // no fetch dispatched.
    let dr = app.load_detail("Google.Chrome");
    assert!(dr.is_none(), "cache hit must not dispatch a fetch");
    assert!(!app.detail_loading);
    assert_eq!(app.detail.as_ref().unwrap().publisher, "Google LLC");

    // A stale fetch from the prior generation arriving afterwards is
    // discarded and does not overwrite the cache-derived display.
    let (_, _) = app.handle_message(AppMessage::DetailLoaded {
        generation: g1,
        detail: detail("Google.Chrome", "Google Chrome", "Impostor Inc"),
    });
    assert_eq!(app.detail.as_ref().unwrap().publisher, "Google LLC");
    assert_eq!(app.detail_cache[0].detail.publisher, "Google LLC");
}

#[test]
fn merge_keeps_displayed_summary_fields_when_fresh_is_empty() {
    let mut app = App::new();
    let generation = match app.refresh_view() {
        FetchPlan::FetchList { generation, .. } => generation,
        _ => panic!(),
    };
    let (_, dr) = app.handle_message(AppMessage::PackagesLoaded {
        generation,
        packages: vec![pkg("Tool", "Vendor.Tool", "2.0", "winget")],
    });
    let dr = dr.unwrap();

    // The fetched detail has an empty version: the provisional version
    // stays; the publisher always takes the fresh value.
    let mut fresh = PackageDetail::default();
    fresh.id = "Vendor.Tool".to_string();
    fresh.publisher = "Vendor".to_string();
    let (_, _) = app.handle_message(AppMessage::DetailLoaded { generation: dr.generation, detail: fresh });
    let d = app.detail.as_ref().unwrap();
    assert_eq!(d.version, "2.0");
    assert_eq!(d.publisher, "Vendor");
    assert_eq!(d.name, "Tool");
}

#[test]
fn completed_operation_invalidates_cache_and_refreshes() {
    let mut app = App::new();
    let _ = app.load_detail("Google.Chrome");
    let g = app.detail_generation;
    let (_, _) = app.handle_message(AppMessage::DetailLoaded {
        generation: g,
        detail: detail("Google.Chrome", "Google Chrome", "Google LLC"),
    });
    assert_eq!(app.detail_cache.len(), 1);

    let vg = app.view_generation;
    let (plan, dr) = app.handle_message(AppMessage::OperationComplete(OpResult {
        operation: Operation::Upgrade { id: "Google.Chrome".to_string() },
        success: true,
        message: "done".to_string(),
    }));
    // The cache entry is gone regardless of the operation's outcome, and
    // a view refresh is dispatched under a new generation.
    assert_eq!(app.detail_cache.len(), 0);
    assert!(dr.is_none());
    assert_eq!(app.view_generation, vg + 1);
    match plan.unwrap() {
        FetchPlan::FetchList { generation, .. } => assert_eq!(generation, vg + 1),
        FetchPlan::EmptyResult { .. } => panic!("installed view always fetches"),
    }
    assert_eq!(app.status_message, "Upgrading Google.Chrome — done");

    // The next detail request for that identifier misses the cache.
    let dr = app.load_detail("Google.Chrome");
    assert!(dr.is_some(), "invalidated entry must be fetched again");
}

#[test]
fn failed_operation_also_invalidates_and_reports() {
    let mut app = App::new();
    let _ = app.load_detail("Vendor.Tool");
    let g = app.detail_generation;
    let (_, _) = app.handle_message(AppMessage::DetailLoaded {
        generation: g,
        detail: detail("Vendor.Tool", "Tool", "Vendor"),
    });
    assert_eq!(app.detail_cache.len(), 1);

    let (_, _) = app.handle_message(AppMessage::OperationComplete(OpResult {
        operation: Operation::Uninstall { id: "Vendor.Tool".to_string() },
        success: false,
        message: "access denied".to_string(),
    }));
    assert_eq!(app.detail_cache.len(), 0, "removal is unconditional, independent of outcome");
    assert_eq!(app.status_message, "Uninstalling Vendor.Tool — failed: access denied");
}

#[test]
fn batch_completion_clears_cache_entries_and_multiselect() {
    let mut app = App::new();
    for id in ["A.One", "B.Two"] {
        let _ = app.load_detail(id);
        let g = app.detail_generation;
        let (_, _) = app.handle_message(AppMessage::DetailLoaded {
            generation: g,
            detail: detail(id, "x", "y"),
        });
    }
    assert_eq!(app.detail_cache.len(), 2);
    app.selected_packages = vec![0, 1];

    let (_, _) = app.handle_message(AppMessage::OperationComplete(OpResult {
        operation: Operation::BatchUpgrade { ids: vec!["A.One".to_string(), "B.Two".to_string()] },
        success: true,
        message: "ok".to_string(),
    }));
    assert_eq!(app.detail_cache.len(), 0);
    assert_eq!(app.selected_packages.len(), 0);
}

#[test]
fn error_message_sets_status() {
    let mut app = App::new();
    app.loading = true;
    let (plan, dr) = app.handle_message(AppMessage::Error("tool not found".to_string()));
    assert!(plan.is_none() && dr.is_none());
    assert_eq!(app.status_message, "Error: tool not found");
    assert!(!app.loading);
}

#[test]
fn status_update_sets_status() {
    let mut app = App::new();
    let (_, _) = app.handle_message(AppMessage::StatusUpdate("Upgrading 1/2: A.One...".to_string()));
    assert_eq!(app.status_message, "Upgrading 1/2: A.One...");
}

#[test]
fn empty_search_needs_no_fetch() {
    let mut app = App::new();
    app.mode = AppMode::Search;
    app.search_query = String::new();
    match app.refresh_view() {
        FetchPlan::EmptyResult { generation } => assert_eq!(generation, app.view_generation),
        FetchPlan::FetchList { .. } => panic!("empty search must not fetch"),
    }
    app.search_query = "chrome".to_string();
    match app.refresh_view() {
        FetchPlan::FetchList { query, .. } => assert_eq!(query, "chrome"),
        FetchPlan::EmptyResult { .. } => panic!("non-empty search must fetch"),
    }
}

#[test]
fn move_selection_wraps_around() {
    let mut app = App::new();
    app.packages = vec![
        pkg("a", "a.a", "1", "winget"),
        pkg("b", "b.b", "1", "winget"),
        pkg("c", "c.c", "1", "winget"),
    ];
    app.apply_filter();
    assert_eq!(app.selected, 0);
    app.move_selection(-1);
    assert_eq!(app.selected, 2);
    app.move_selection(1);
    assert_eq!(app.selected, 0);
    app.move_selection(7);
    assert_eq!(app.selected, 1);
    app.move_selection(-20);
    assert_eq!(app.selected, 2);
}

#[test]
fn apply_filter_clamps_selection_and_clears_multiselect() {
    let mut app = App::new();
    app.packages = vec![pkg("a", "a.a", "1", "winget"), pkg("b", "b.b", "1", "msstore")];
    app.selected = 5;
    app.selected_packages = vec![1];
    app.apply_filter();
    assert_eq!(app.filtered_packages.len(), 2);
    assert_eq!(app.selected, 1);
    assert_eq!(app.selected_packages.len(), 0);
}

#[test]
fn batch_helper_messages() {
    assert_eq!(batch_status_message(0, 3, "A.One"), "Upgrading 1/3: A.One...");
    assert_eq!(batch_status_message(2, 3, "C.Three"), "Upgrading 3/3: C.Three...");
    assert_eq!(failure_entry("A.One", "locked"), "A.One: locked");

    let r = batch_outcome(3, &vec![]);
    assert_eq!(r.unwrap(), "All 3 packages upgraded successfully");

    let failures = vec![
        failure_entry("A.One", "locked"),
        failure_entry("B.Two", "not found"),
    ];
    let r = batch_outcome(3, &failures);
    assert_eq!(r.unwrap_err(), "1/3 succeeded, 2 failed: A.One: locked; B.Two: not found");
}

#[test]
fn op_result_of_maps_success_and_failure() {
    let r = op_result_of(
        Operation::Install { id: "A.One".to_string(), version: None },
        Ok("installed".to_string()),
    );
    assert!(r.success);
    assert_eq!(r.message, "installed");
    let r = op_result_of(
        Operation::Upgrade { id: "A.One".to_string() },
        Err("failed hard".to_string()),
    );
    assert!(!r.success);
    assert_eq!(r.message, "failed hard");
}

#[test]
fn operation_descriptions() {
    assert_eq!(
        Operation::Install { id: "A.One".to_string(), version: Some("2.0".to_string()) }
            .describe(),
        "Installing A.One v2.0"
    );
    assert_eq!(Operation::Install { id: "A.One".to_string(), version: None }.describe(), "Installing A.One");
    assert_eq!(Operation::Uninstall { id: "A.One".to_string() }.describe(), "Uninstalling A.One");
    assert_eq!(Operation::Upgrade { id: "A.One".to_string() }.describe(), "Upgrading A.One");
    assert_eq!(
        Operation::BatchUpgrade { ids: vec!["a.a".to_string(), "b.b".to_string()] }.describe(),
        "Upgrading 2 packages"
    );
}
