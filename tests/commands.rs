use tab_core::close_tabs::{
    ActiveTabsState, CloseReport, CurrentTab, MainCloseTabsService, Request,
};
use tab_core::fuzzy::{FuzzySelection, FuzzyShutdown, TerminalFuzzyCarrier, TerminalSend, TerminalShutdown};
use tab_core::list_tabs::{MainListTabsService, WorkspaceState, WorkspaceTab};
use tab_core::registry::{TabManagerRecv, TabManagerService};
use tab_core::tab::{normalize_name, CreateTabMetadata, TabId};

fn registry_with(names: &[&str]) -> TabManagerService {
    let mut reg = TabManagerService::new();
    for (k, n) in names.iter().enumerate() {
        reg.handle(
            TabManagerRecv::CreateTab(CreateTabMetadata { name: n.to_string(), doc: None }),
            k as u64,
        );
    }
    reg
}

#[test]
fn normalize_name_trims_spaces() {
    assert_eq!(normalize_name("  foo \t"), "foo");
    assert_eq!(normalize_name("a b"), "a b");
    assert_eq!(normalize_name("   "), "");
}

#[test]
fn partial_close_closes_known_and_reports_unknown() {
    let mut reg = registry_with(&["a", "b"]);
    let state = ActiveTabsState { tabs: reg.tabs_state().tabs };
    let plan = MainCloseTabsService::close_tabs(vec!["a".to_string(), "c".to_string()], &state, None);
    assert_eq!(plan.requests, vec![Request::DisconnectTab(TabId(0))]);
    assert!(matches!(&plan.reports[0], CloseReport::Closing(n) if n == "a"));
    assert!(matches!(&plan.reports[1], CloseReport::NotRunning(n) if n == "c"));
    for r in plan.requests {
        if let Request::DisconnectTab(id) = r {
            reg.handle(TabManagerRecv::CloseTab(id), 9);
        }
    }
    let names: Vec<String> = reg.tabs_state().tabs.iter().map(|t| t.name.clone()).collect();
    assert_eq!(names, vec!["b".to_string()]);
}

#[test]
fn close_normalizes_names() {
    let reg = registry_with(&["a", "b"]);
    let state = ActiveTabsState { tabs: reg.tabs_state().tabs };
    let plan = MainCloseTabsService::close_tabs(vec![" b ".to_string()], &state, None);
    assert_eq!(plan.requests, vec![Request::DisconnectTab(TabId(1))]);
}

#[test]
fn close_matches_live_names_after_normalizing() {
    let reg = registry_with(&[" a", "b"]);
    let state = ActiveTabsState { tabs: reg.tabs_state().tabs };
    let plan = MainCloseTabsService::close_tabs(vec!["a".to_string()], &state, None);
    assert_eq!(plan.requests, vec![Request::DisconnectTab(TabId(0))]);
}

#[test]
fn empty_close_disconnects_current_tab() {
    let state = ActiveTabsState { tabs: Vec::new() };
    let current = CurrentTab { id: TabId(5), name: "work".to_string() };
    let plan = MainCloseTabsService::close_tabs(Vec::new(), &state, Some(current));
    assert_eq!(plan.requests, vec![Request::DisconnectTab(TabId(5))]);
    assert!(matches!(&plan.reports[..], [CloseReport::ClosingCurrent(n)] if n == "work"));
}

#[test]
fn empty_close_without_current_tab_sends_nothing() {
    let state = ActiveTabsState { tabs: Vec::new() };
    let plan = MainCloseTabsService::close_tabs(Vec::new(), &state, None);
    assert!(plan.requests.is_empty());
    assert!(matches!(&plan.reports[..], [CloseReport::NoTarget]));
}

#[test]
fn find_name_gives_live_id() {
    let reg = registry_with(&["a", "b"]);
    let state = ActiveTabsState { tabs: reg.tabs_state().tabs };
    assert_eq!(state.find_name(&"b".to_string()), Some(TabId(1)));
    assert_eq!(state.find_name(&"z".to_string()), None);
}

fn tab(name: &str, doc: Option<&str>) -> WorkspaceTab {
    WorkspaceTab { name: name.to_string(), doc: doc.map(|d| d.to_string()) }
}

#[test]
fn list_aligns_docs() {
    let lines = MainListTabsService::echo_tabs(&vec![tab("alpha", None), tab("build", Some("cargo build"))]);
    assert_eq!(lines, vec!["Available tabs:", "    alpha", "    build    (cargo build)"]);
}

#[test]
fn list_pads_shorter_names() {
    let lines = MainListTabsService::echo_tabs(&vec![tab("ab", Some("x")), tab("abcd", Some("y"))]);
    assert_eq!(lines, vec!["Available tabs:", "    ab      (x)", "    abcd    (y)"]);
}

#[test]
fn list_without_tabs() {
    assert_eq!(MainListTabsService::echo_tabs(&Vec::new()), vec!["No active tabs."]);
}

#[test]
fn list_output_reports_startup_errors_first() {
    let ws = WorkspaceState { tabs: vec![tab("a", None)], errors: vec!["bad".to_string()] };
    let out = MainListTabsService::list_output(&ws);
    assert_eq!(
        out.notice,
        vec!["Workspace errors were found during startup.  Use `tab --check` for more details.", ""]
    );
    assert_eq!(out.listing, vec!["Available tabs:", "    a"]);
    let ws = WorkspaceState { tabs: Vec::new(), errors: Vec::new() };
    assert!(MainListTabsService::list_output(&ws).notice.is_empty());
}

#[test]
fn carrier_maps_messages() {
    assert!(TerminalFuzzyCarrier::carry_workspace(None).is_none());
    let ws = WorkspaceState { tabs: vec![tab("a", Some("d")), tab("b", None)], errors: Vec::new() };
    let s = TerminalFuzzyCarrier::carry_workspace(Some(ws)).unwrap();
    assert_eq!(s.tabs.len(), 2);
    assert_eq!((s.tabs[0].name.as_str(), s.tabs[0].doc.as_deref()), ("a", Some("d")));
    assert_eq!((s.tabs[1].name.as_str(), s.tabs[1].doc.as_deref()), ("b", None));
    let TerminalSend::FuzzySelection(name) = TerminalFuzzyCarrier::carry_selection(FuzzySelection("x".to_string()));
    assert_eq!(name, "x");
    assert_eq!(TerminalFuzzyCarrier::carry_shutdown(FuzzyShutdown {}), TerminalShutdown {});
}
