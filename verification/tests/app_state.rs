use svcdeck::app::{App, Mode, Tab, VisibleItem};
use svcdeck::engine::{ApplyEngine, StepOutcome};
use svcdeck::services::{ChangeAction, ChangeResult, Service, ServiceInfo, ServiceScope};

fn svc(name: &str, enabled: bool, active: bool) -> Service {
    Service { name: name.to_string(), enabled, active }
}

/// NetworkManager and iwd fall under Network, pipewire under Audio, the
/// custom unit under Other; groups appear in the fixed category order.
fn sample() -> Vec<Service> {
    vec![
        svc("NetworkManager.service", true, true),
        svc("pipewire.service", true, true),
        svc("my-custom-thing.service", false, false),
        svc("iwd.service", false, false),
    ]
}

fn loaded() -> App {
    let mut app = App::new();
    app.refresh(sample());
    app
}

#[test]
fn test_refresh_builds_groups_in_order() {
    let app = loaded();
    let names: Vec<&str> = app.categories.iter().map(|g| g.name).collect();
    assert_eq!(names, vec!["Audio", "Network", "Other"]);
    assert_eq!(app.categories[0].services, vec![1]);
    assert_eq!(app.categories[1].services, vec![0, 3]);
    assert_eq!(app.categories[2].services, vec![2]);
    assert!(app.categories.iter().all(|g| !g.collapsed));
    assert_eq!(app.cursor, 0);
    assert!(app.filter.is_empty());
}

#[test]
fn test_visible_items_flattened() {
    let app = loaded();
    assert_eq!(
        app.visible_items,
        vec![
            VisibleItem::Category(0),
            VisibleItem::Service(1),
            VisibleItem::Category(1),
            VisibleItem::Service(0),
            VisibleItem::Service(3),
            VisibleItem::Category(2),
            VisibleItem::Service(2),
        ]
    );
}

#[test]
fn test_toggle_round_trip_clears_dirty() {
    let mut app = loaded();
    app.move_cursor(1); // onto pipewire
    assert_eq!(app.pending_count(), 0);
    app.toggle_current();
    assert!(!app.services[1].enabled);
    assert!(app.is_service_dirty(&app.services[1]));
    assert_eq!(app.pending_count(), 1);
    assert!(app.has_pending_changes());
    app.toggle_current();
    assert!(app.services[1].enabled);
    assert!(!app.is_service_dirty(&app.services[1]));
    assert_eq!(app.pending_count(), 0);
    assert!(!app.has_pending_changes());
}

#[test]
fn test_toggle_on_category_is_noop() {
    let mut app = loaded();
    // cursor starts on the Audio category header
    app.toggle_current();
    assert_eq!(app.pending_count(), 0);
    assert!(app.services.iter().zip(sample().iter()).all(|(a, b)| a.enabled == b.enabled));
}

#[test]
fn test_filter_shows_only_matches() {
    let mut app = loaded();
    app.set_filter("NET".to_string());
    // Case-insensitive: NetworkManager only; its category header stays.
    assert_eq!(
        app.visible_items,
        vec![VisibleItem::Category(1), VisibleItem::Service(0)]
    );
    assert_eq!(app.cursor, 0);
    app.set_filter(String::new());
    assert_eq!(app.visible_items.len(), 7);
}

#[test]
fn test_filter_without_matches_empties_view() {
    let mut app = loaded();
    app.set_filter("no-such-unit".to_string());
    assert!(app.visible_items.is_empty());
    assert_eq!(app.cursor, 0);
}

#[test]
fn test_collapse_removes_exactly_member_services() {
    let mut app = loaded();
    let before = app.visible_items.clone();
    app.move_cursor(2); // onto the Network category header
    app.toggle_collapse();
    assert!(app.categories[1].collapsed);
    assert_eq!(
        app.visible_items,
        vec![
            VisibleItem::Category(0),
            VisibleItem::Service(1),
            VisibleItem::Category(1),
            VisibleItem::Category(2),
            VisibleItem::Service(2),
        ]
    );
    app.toggle_collapse();
    assert!(!app.categories[1].collapsed);
    assert_eq!(app.visible_items, before);
}

#[test]
fn test_collapse_from_member_service_and_cursor_clamp() {
    let mut app = loaded();
    app.move_cursor(6); // onto my-custom-thing, the last item
    app.toggle_collapse(); // collapses Other via its member
    assert!(app.categories[2].collapsed);
    // The projection shrank under the cursor: clamped to the last item.
    assert_eq!(app.cursor, app.visible_items.len() - 1);
}

#[test]
fn test_move_cursor_wraps_both_ways() {
    let mut app = loaded();
    assert_eq!(app.cursor, 0);
    app.move_cursor(-1);
    assert_eq!(app.cursor, 6);
    app.move_cursor(1);
    assert_eq!(app.cursor, 0);
    app.move_cursor(9);
    assert_eq!(app.cursor, 2);
    app.move_cursor(-14);
    assert_eq!(app.cursor, 2);
}

#[test]
fn test_move_cursor_empty_is_noop() {
    let mut app = App::new();
    app.move_cursor(5);
    assert_eq!(app.cursor, 0);
    app.move_cursor(-5);
    assert_eq!(app.cursor, 0);
}

#[test]
fn test_pending_changes_in_list_order() {
    let mut app = loaded();
    app.move_cursor(4); // iwd (disabled)
    app.toggle_current();
    app.move_cursor(-3); // pipewire (enabled)
    app.toggle_current();
    let changes = app.pending_changes();
    assert_eq!(changes.len(), 2);
    // List order, not toggle order: pipewire (index 1) before iwd (index 3).
    assert_eq!(changes[0].service, "pipewire.service");
    assert!(matches!(changes[0].action, ChangeAction::Disable));
    assert_eq!(changes[1].service, "iwd.service");
    assert!(matches!(changes[1].action, ChangeAction::Enable));
    assert!(changes.iter().all(|c| c.scope == ServiceScope::System));
}

#[test]
fn test_switch_tab_clears_filter_and_dirty() {
    let mut app = loaded();
    app.set_filter("pipe".to_string());
    app.move_cursor(1);
    app.toggle_current();
    assert!(app.has_pending_changes());
    app.switch_tab(vec![svc("user-unit.service", false, false)]);
    assert_eq!(app.tab, Tab::User);
    assert!(app.filter.is_empty());
    assert_eq!(app.pending_count(), 0);
    assert_eq!(app.services.len(), 1);
    app.switch_tab(sample());
    assert_eq!(app.tab, Tab::System);
}

#[test]
fn test_apply_done_records_results_and_reloads() {
    let mut app = loaded();
    app.move_cursor(1);
    app.toggle_current();
    let results = vec![ChangeResult {
        service: "pipewire.service".to_string(),
        success: true,
        message: "disabled and stoped".to_string(),
    }];
    let mut reloaded = sample();
    reloaded[1].enabled = false;
    app.apply_done(results, reloaded);
    assert_eq!(app.results.len(), 1);
    assert!(app.results[0].success);
    // Ground truth replaced the optimistic toggle; nothing is dirty.
    assert!(!app.services[1].enabled);
    assert_eq!(app.pending_count(), 0);
    assert_eq!(app.cursor, 0);
}

#[test]
fn test_show_info_only_on_services() {
    let mut app = loaded();
    let mut info = ServiceInfo::empty();
    info.description = "A sound server".to_string();
    app.show_info(info.clone());
    // Cursor on a category header: nothing happens.
    assert_eq!(app.mode, Mode::Normal);
    assert!(app.info.is_none());
    app.move_cursor(1);
    app.show_info(info);
    assert_eq!(app.mode, Mode::Info);
    assert_eq!(app.info.as_ref().unwrap().description, "A sound server");
}

#[test]
fn test_full_apply_cycle() {
    let mut app = loaded();
    app.move_cursor(4); // iwd: off, toggled on
    app.toggle_current();
    let changes = app.pending_changes();
    assert_eq!(changes.len(), 1);
    let mut engine = ApplyEngine::new(changes);
    let mut issued: Vec<String> = Vec::new();
    while let Some(cmd) = engine.next_command() {
        issued.push(format!("{} {}", cmd.verb, cmd.service));
        engine.feed(StepOutcome::Succeeded);
    }
    assert_eq!(issued, vec!["enable iwd.service", "start iwd.service"]);
    let results = engine.into_results();
    assert_eq!(results.len(), 1);
    assert!(results[0].success);
    assert_eq!(results[0].message, "enabled and started");
    let mut reloaded = sample();
    reloaded[3].enabled = true;
    app.apply_done(results, reloaded);
    assert!(app.services[3].enabled);
    assert!(!app.has_pending_changes());
    assert_eq!(app.results.len(), 1);
}

#[test]
fn test_rebuild_visible_idempotent() {
    let mut app = loaded();
    app.set_filter("i".to_string());
    app.rebuild_visible();
    let first = app.visible_items.clone();
    let cursor = app.cursor;
    app.rebuild_visible();
    assert_eq!(app.visible_items, first);
    assert_eq!(app.cursor, cursor);
}
