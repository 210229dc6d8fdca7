use tab_core::registry::{TabManagerRecv, TabManagerSend, TabManagerService};
use tab_core::tab::{CreateTabMetadata, TabId};

fn create(name: &str) -> TabManagerRecv {
    TabManagerRecv::CreateTab(CreateTabMetadata { name: name.to_string(), doc: None })
}

fn snapshot_names(sends: &[TabManagerSend]) -> Option<Vec<String>> {
    let mut last = None;
    for s in sends {
        if let TabManagerSend::TabsState(state) = s {
            last = Some(state.tabs.iter().map(|t| t.name.clone()).collect());
        }
    }
    last
}

#[test]
fn create_offers_then_publishes_snapshot() {
    let mut reg = TabManagerService::new();
    let out = reg.handle(create("a"), 7);
    assert_eq!(out.len(), 2);
    match &out[0] {
        TabManagerSend::AssignTab(t) => {
            assert_eq!(t.id, TabId(0));
            assert_eq!(t.name, "a");
            assert_eq!(t.selected, 7);
        }
        other => panic!("unexpected {:?}", other),
    }
    assert_eq!(snapshot_names(&out), Some(vec!["a".to_string()]));
}

#[test]
fn duplicate_create_is_ignored_and_allocates_no_id() {
    let mut reg = TabManagerService::new();
    reg.handle(create("a"), 1);
    let out = reg.handle(create("a"), 2);
    assert!(out.is_empty());
    assert_eq!(reg.tabs_state().tabs.len(), 1);
    let out = reg.handle(create("b"), 3);
    match &out[0] {
        TabManagerSend::AssignTab(t) => assert_eq!(t.id, TabId(1)),
        other => panic!("unexpected {:?}", other),
    }
}

#[test]
fn ids_strictly_increase_and_are_not_reused() {
    let mut reg = TabManagerService::new();
    let mut ids = Vec::new();
    for (k, name) in ["a", "b", "c"].iter().enumerate() {
        let out = reg.handle(create(name), k as u64);
        if let TabManagerSend::AssignTab(t) = &out[0] {
            ids.push(t.id.0);
        }
    }
    reg.handle(TabManagerRecv::CloseTab(TabId(2)), 10);
    let out = reg.handle(create("c"), 11);
    if let TabManagerSend::AssignTab(t) = &out[0] {
        ids.push(t.id.0);
    }
    assert_eq!(ids, vec![0, 1, 2, 3]);
}

#[test]
fn create_create_close_converges_to_second_tab() {
    let mut reg = TabManagerService::new();
    reg.handle(create("A"), 1);
    reg.handle(create("B"), 2);
    let out = reg.handle(TabManagerRecv::CloseTab(TabId(0)), 3);
    assert_eq!(snapshot_names(&out), Some(vec!["B".to_string()]));
    let names: Vec<String> = reg.tabs_state().tabs.iter().map(|t| t.name.clone()).collect();
    assert_eq!(names, vec!["B".to_string()]);
}

#[test]
fn update_and_close_of_absent_id_are_noops() {
    let mut reg = TabManagerService::new();
    reg.handle(create("a"), 1);
    assert!(reg.handle(TabManagerRecv::UpdateTimestamp(TabId(9)), 2).is_empty());
    assert!(reg.handle(TabManagerRecv::CloseTab(TabId(9)), 3).is_empty());
    let state = reg.tabs_state();
    assert_eq!(state.tabs.len(), 1);
    assert_eq!(state.tabs[0].selected, 1);
}

#[test]
fn update_broadcasts_without_snapshot() {
    let mut reg = TabManagerService::new();
    reg.handle(create("a"), 1);
    let out = reg.handle(TabManagerRecv::UpdateTimestamp(TabId(0)), 42);
    assert_eq!(out.len(), 1);
    match &out[0] {
        TabManagerSend::Updated(t) => assert_eq!((t.id, t.selected), (TabId(0), 42)),
        other => panic!("unexpected {:?}", other),
    }
    assert_eq!(reg.tabs_state().tabs[0].selected, 42);
}

#[test]
fn close_sends_stopped_before_snapshot() {
    let mut reg = TabManagerService::new();
    reg.handle(create("a"), 1);
    reg.handle(create("b"), 1);
    let out = reg.handle(TabManagerRecv::CloseTab(TabId(0)), 2);
    assert_eq!(out.len(), 3);
    assert!(matches!(out[0], TabManagerSend::Stopped(TabId(0))));
    assert!(matches!(out[1], TabManagerSend::Terminate(TabId(0))));
    assert_eq!(snapshot_names(&out[2..]), Some(vec!["b".to_string()]));
}

#[test]
fn create_with_same_normalized_name_is_ignored() {
    let mut reg = TabManagerService::new();
    reg.handle(create("a"), 1);
    assert!(reg.handle(create(" a "), 2).is_empty());
    assert!(reg.handle(create("a\t"), 3).is_empty());
    assert_eq!(reg.tabs_state().tabs.len(), 1);
    let out = reg.handle(create("b"), 4);
    match &out[0] {
        TabManagerSend::AssignTab(t) => assert_eq!(t.id, TabId(1)),
        other => panic!("unexpected {:?}", other),
    }
}
