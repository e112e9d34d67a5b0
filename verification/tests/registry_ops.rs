use tab_registry::errors::TabError;
use tab_registry::geometry::{content_rect, strip_size, LogicalSize};
use tab_registry::registry::{TabRegistry, TabSnapshot};
use tab_registry::tab_id::TabId;

fn win() -> LogicalSize {
    LogicalSize { width: 800, height: 600 }
}

fn snapshots_equal(a: &TabSnapshot, b: &TabSnapshot) -> bool {
    a.active == b.active && a.tabs.len() == b.tabs.len()
        && a.tabs.iter().zip(b.tabs.iter()).all(|(x, y)| {
            x.id == y.id && x.title == y.title && x.url == y.url
        })
}

#[test]
fn add_first_tab_returns_tab_0_and_active_stays_none() {
    // Scenario: the very first add mints "tab_0"; nothing becomes active
    // until an explicit activation.
    let mut reg = TabRegistry::new(0);
    let out = reg.add_tab("https://a.test", win()).unwrap();
    assert_eq!(out.id.text(), "tab_0");
    assert_eq!(reg.tabs.len(), 1);
    assert_eq!(reg.active, None);
    assert!(!reg.tabs[0].shown);
    // the first add also restores the tab-bar strip
    assert_eq!(out.tab_bar, Some(LogicalSize { width: 800, height: 40 }));
    assert_eq!(out.content.x, 0);
    assert_eq!(out.content.y, 40);
    assert_eq!(out.content.width, 800);
    assert_eq!(out.content.height, 560);
}

#[test]
fn closing_active_tab_activates_remaining_one() {
    // Scenario: two tabs, the active one is closed; the other becomes active
    // and its surface is shown.
    let mut reg = TabRegistry::new(0);
    let a = reg.add_tab("https://a.test", win()).unwrap().id;
    let b = reg.add_tab("https://b.test", win()).unwrap().id;
    assert_eq!(a.text(), "tab_0");
    assert_eq!(b.text(), "tab_1");
    reg.set_active_tab(a).unwrap();
    let out = reg.close_tab(a, win()).unwrap();
    assert_eq!(out.new_active, Some(b));
    assert_eq!(reg.active, Some(b));
    assert_eq!(reg.tabs.len(), 1);
    assert!(reg.tabs[0].shown);
    assert_eq!(out.tab_bar, None);
}

#[test]
fn closing_last_tab_clears_active_and_grows_tab_bar() {
    // Scenario: the only tab is closed; no tab is active and the tab-bar
    // strip must grow to the whole window.
    let mut reg = TabRegistry::new(0);
    let a = reg.add_tab("https://a.test", win()).unwrap().id;
    reg.set_active_tab(a).unwrap();
    let out = reg.close_tab(a, win()).unwrap();
    assert_eq!(out.new_active, None);
    assert_eq!(reg.active, None);
    assert_eq!(reg.tabs.len(), 0);
    assert_eq!(out.tab_bar, Some(win()));
}

#[test]
fn update_title_of_unknown_tab_is_not_found() {
    // Scenario: updating a title for an id that was never registered fails
    // and changes nothing.
    let mut reg = TabRegistry::new(0);
    let before = reg.snapshot();
    let err = reg.update_tab(TabId { num: 0 }, "Example".to_string()).unwrap_err();
    match err {
        TabError::NotFound(m) => assert_eq!(m, "Tab with id tab_0 not found"),
        _ => panic!("expected NotFound"),
    }
    let after = reg.snapshot();
    assert!(snapshots_equal(&before, &after));
}

#[test]
fn add_with_malformed_url_is_invalid_input_and_allocates_nothing() {
    // Scenario: a string that does not parse as a URL is rejected; no id is
    // allocated and the counter does not move.
    let mut reg = TabRegistry::new(0);
    let err = reg.add_tab("not a url", win()).unwrap_err();
    assert!(matches!(err, TabError::InvalidInput(_)));
    assert_eq!(reg.next_id, 0);
    assert_eq!(reg.tabs.len(), 0);
    let ok = reg.add_tab("https://a.test", win()).unwrap();
    assert_eq!(ok.id.text(), "tab_0");
}

#[test]
fn ids_are_distinct_and_strictly_increasing() {
    // Uniqueness: ids minted across adds, with closes in between, strictly
    // increase in numeric suffix and are never reused.
    let mut reg = TabRegistry::new(0);
    let mut minted: Vec<TabId> = Vec::new();
    for i in 0..4 {
        let id = reg.add_tab(&format!("https://t{}.test", i), win()).unwrap().id;
        minted.push(id);
    }
    reg.close_tab(minted[1], win()).unwrap();
    reg.close_tab(minted[3], win()).unwrap();
    minted.push(reg.add_tab("https://t4.test", win()).unwrap().id);
    minted.push(reg.add_tab("https://t5.test", win()).unwrap().id);
    for w in minted.windows(2) {
        assert!(w[0].num < w[1].num);
    }
    assert_eq!(minted.last().unwrap().text(), "tab_5");
}

#[test]
fn active_tab_is_always_registered() {
    // Active invariant: after a mixed sequence of calls the active tab, if
    // any, is one of the live tabs.
    let mut reg = TabRegistry::new(0);
    let a = reg.add_tab("https://a.test", win()).unwrap().id;
    let b = reg.add_tab("https://b.test", win()).unwrap().id;
    let c = reg.add_tab("https://c.test", win()).unwrap().id;
    reg.set_active_tab(b).unwrap();
    reg.update_tab(c, "C".to_string()).unwrap();
    reg.close_tab(a, win()).unwrap();
    reg.close_tab(b, win()).unwrap();
    if let Some(active) = reg.active {
        assert!(reg.tabs.iter().any(|t| t.id == active));
    }
    assert!(reg.set_active_tab(TabId { num: 99 }).is_err());
    if let Some(active) = reg.active {
        assert!(reg.tabs.iter().any(|t| t.id == active));
    }
}

#[test]
fn exactly_the_active_surface_is_shown() {
    // Visibility invariant: right after an activation or a close, the active
    // surface (if any) is shown and every other is hidden.
    let mut reg = TabRegistry::new(0);
    let a = reg.add_tab("https://a.test", win()).unwrap().id;
    let b = reg.add_tab("https://b.test", win()).unwrap().id;
    let c = reg.add_tab("https://c.test", win()).unwrap().id;
    reg.set_active_tab(c).unwrap();
    assert_eq!(reg.tabs.iter().filter(|t| t.shown).count(), 1);
    assert!(reg.tabs.iter().find(|t| t.id == c).unwrap().shown);
    reg.set_active_tab(a).unwrap();
    assert_eq!(reg.tabs.iter().filter(|t| t.shown).count(), 1);
    assert!(reg.tabs.iter().find(|t| t.id == a).unwrap().shown);
    reg.close_tab(a, win()).unwrap();
    assert_eq!(reg.tabs.iter().filter(|t| t.shown).count(), 1);
    assert!(reg.tabs.iter().find(|t| t.id == b).unwrap().shown);
}

#[test]
fn closing_active_tab_reassigns_to_lowest_remaining() {
    // Close-reassignment: with several tabs left, the new active tab is a
    // member of the remaining set (pinned to the lowest numeric suffix);
    // closing the last tab leaves none active.
    let mut reg = TabRegistry::new(0);
    let a = reg.add_tab("https://a.test", win()).unwrap().id;
    let b = reg.add_tab("https://b.test", win()).unwrap().id;
    let c = reg.add_tab("https://c.test", win()).unwrap().id;
    reg.set_active_tab(b).unwrap();
    let out = reg.close_tab(b, win()).unwrap();
    let new_active = out.new_active.unwrap();
    assert!(reg.tabs.iter().any(|t| t.id == new_active));
    assert_eq!(new_active, a);
    reg.close_tab(a, win()).unwrap();
    reg.close_tab(c, win()).unwrap();
    assert_eq!(reg.active, None);
}

#[test]
fn not_found_leaves_registry_unchanged() {
    // Not-found: activate, close, and update with an unregistered id all
    // report NotFound and leave tabs, titles, and the active tab unchanged.
    let mut reg = TabRegistry::new(0);
    let a = reg.add_tab("https://a.test", win()).unwrap().id;
    reg.set_active_tab(a).unwrap();
    reg.update_tab(a, "A".to_string()).unwrap();
    let before = reg.snapshot();
    let ghost_id = TabId { num: 7 };
    let e1 = reg.set_active_tab(ghost_id).unwrap_err();
    let e2 = reg.close_tab(ghost_id, win()).unwrap_err();
    let e3 = reg.update_tab(ghost_id, "X".to_string()).unwrap_err();
    for e in [e1, e2, e3] {
        match e {
            TabError::NotFound(m) => assert_eq!(m, "Tab with id tab_7 not found"),
            _ => panic!("expected NotFound"),
        }
    }
    let after = reg.snapshot();
    assert!(snapshots_equal(&before, &after));
}

#[test]
fn snapshot_is_idempotent_without_mutation() {
    // Idempotent snapshot: two snapshots with no mutation in between are
    // identical.
    let mut reg = TabRegistry::new(0);
    let a = reg.add_tab("https://a.test", win()).unwrap().id;
    reg.add_tab("https://b.test", win()).unwrap();
    reg.set_active_tab(a).unwrap();
    reg.update_tab(a, "Alpha".to_string()).unwrap();
    let s1 = reg.snapshot();
    let s2 = reg.snapshot();
    assert!(snapshots_equal(&s1, &s2));
}

#[test]
fn snapshot_carries_titles_urls_and_active() {
    let mut reg = TabRegistry::new(0);
    let a = reg.add_tab("https://a.test", win()).unwrap().id;
    reg.update_tab(a, "Alpha".to_string()).unwrap();
    reg.set_active_tab(a).unwrap();
    let snap = reg.snapshot();
    assert_eq!(snap.active, Some(a));
    assert_eq!(snap.tabs.len(), 1);
    assert_eq!(snap.tabs[0].id, a);
    assert_eq!(snap.tabs[0].title, "Alpha");
    assert_eq!(snap.tabs[0].url, "https://a.test/");
}

#[test]
fn stored_url_is_the_parsers_serialization() {
    // The registry stores what the URL parser returns, not the raw input:
    // parsing normalizes (here it adds the root path).
    let mut reg = TabRegistry::new(0);
    reg.add_tab("https://a.test", win()).unwrap();
    reg.add_tab("HTTPS://B.Test/x?q=1", win()).unwrap();
    assert_eq!(reg.tabs[0].url, "https://a.test/");
    assert_eq!(reg.tabs[1].url, "https://b.test/x?q=1");
}

#[test]
fn counter_seed_names_the_first_tab() {
    // The counter starts at an externally seeded value.
    let mut reg = TabRegistry::new(17);
    let id = reg.add_tab("https://a.test", win()).unwrap().id;
    assert_eq!(id.text(), "tab_17");
}

#[test]
fn tab_id_text_is_tab_prefix_and_decimal() {
    assert_eq!(TabId { num: 0 }.text(), "tab_0");
    assert_eq!(TabId { num: 9 }.text(), "tab_9");
    assert_eq!(TabId { num: 10 }.text(), "tab_10");
    assert_eq!(TabId { num: 12345 }.text(), "tab_12345");
    assert_eq!(TabId { num: u64::MAX }.text(), "tab_18446744073709551615");
}

#[test]
fn tab_id_text_round_trips_through_from_text() {
    for num in [0u64, 7, 10, 40, 999, 123456789, u64::MAX] {
        let id = TabId { num };
        assert_eq!(TabId::from_text(&id.text()), Some(id));
    }
}

#[test]
fn from_text_rejects_non_canonical_tokens() {
    assert_eq!(TabId::from_text(""), None);
    assert_eq!(TabId::from_text("tab_"), None);
    assert_eq!(TabId::from_text("tab"), None);
    assert_eq!(TabId::from_text("tab_x"), None);
    assert_eq!(TabId::from_text("tab_1x"), None);
    assert_eq!(TabId::from_text("Tab_1"), None);
    assert_eq!(TabId::from_text("tab_01"), None);
    assert_eq!(TabId::from_text("tab_1 "), None);
    // one past the largest representable counter value
    assert_eq!(TabId::from_text("tab_18446744073709551616"), None);
    assert_eq!(TabId::from_text("tab_18446744073709551615"), Some(TabId { num: u64::MAX }));
}

#[test]
fn error_messages_are_carried() {
    let e = TabError::SurfaceCreationFailed("no surface".to_string());
    assert_eq!(e.message(), "no surface");
    let e = TabError::InvalidInput("bad".to_string());
    assert_eq!(e.message(), "bad");
    let e = TabError::NotFound("gone".to_string());
    assert_eq!(e.message(), "gone");
}

#[test]
fn geometry_reserves_the_tab_bar_strip() {
    let r = content_rect(LogicalSize { width: 1200, height: 800 });
    assert_eq!((r.x, r.y, r.width, r.height), (0, 40, 1200, 760));
    // a window shorter than the strip leaves no content height
    let r = content_rect(LogicalSize { width: 300, height: 30 });
    assert_eq!((r.x, r.y, r.width, r.height), (0, 40, 300, 0));
    let s = strip_size(LogicalSize { width: 1200, height: 800 });
    assert_eq!((s.width, s.height), (1200, 40));
}

#[test]
fn adding_into_emptied_registry_restores_tab_bar_strip() {
    // After the last tab is closed the strip covers the window; the next add
    // reports the strip size to bring it back.
    let mut reg = TabRegistry::new(0);
    let a = reg.add_tab("https://a.test", win()).unwrap().id;
    reg.close_tab(a, win()).unwrap();
    let out = reg.add_tab("https://b.test", win()).unwrap();
    assert_eq!(out.tab_bar, Some(LogicalSize { width: 800, height: 40 }));
    // with a tab already present no strip resize is needed
    let out2 = reg.add_tab("https://c.test", win()).unwrap();
    assert_eq!(out2.tab_bar, None);
}

#[test]
fn closing_inactive_tab_keeps_active_and_reports_it() {
    let mut reg = TabRegistry::new(0);
    let a = reg.add_tab("https://a.test", win()).unwrap().id;
    let b = reg.add_tab("https://b.test", win()).unwrap().id;
    reg.set_active_tab(b).unwrap();
    let out = reg.close_tab(a, win()).unwrap();
    assert_eq!(out.new_active, Some(b));
    assert_eq!(reg.active, Some(b));
    assert!(reg.tabs[0].shown);
    // closing a non-active tab while nothing is active reports none
    let mut reg2 = TabRegistry::new(0);
    reg2.add_tab("https://a.test", win()).unwrap();
    reg2.add_tab("https://b.test", win()).unwrap();
    let out2 = reg2.close_tab(TabId { num: 0 }, win()).unwrap();
    assert_eq!(out2.new_active, None);
    assert_eq!(reg2.active, None);
}
