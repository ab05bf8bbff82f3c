use tray_menu::menu::command_id;
use tray_menu::{Backend, CheckEntry, Divider, MenuOp, PopupMenu, SubMenu, TextEntry};

fn sample_menu() -> PopupMenu {
    let mut menu = PopupMenu::new();
    menu.add(&TextEntry::of("show", "Show Window"));
    menu.add(&TextEntry::of("settings", "Settings").inactive());
    menu.add(&Divider);

    let mut help = SubMenu::of("Help");
    help.add(&TextEntry::of("about", "About"));
    help.add(&TextEntry::of("docs", "Documentation"));
    menu.add(&help);

    menu.add(&Divider);
    menu.add(&CheckEntry::of("notifications", "Notifications", true));
    menu.add(&Divider);
    menu.add(&TextEntry::of("quit", "Quit"));
    menu
}

fn ids(plan: &tray_menu::MenuPlan) -> Vec<&str> {
    plan.ids.iter().map(|id| id.0.as_str()).collect()
}

#[test]
fn plan_lists_selectable_entries_depth_first() {
    let plan = sample_menu().plan();
    assert_eq!(ids(&plan), vec!["show", "settings", "about", "docs", "notifications", "quit"]);
}

#[test]
fn plan_steps_follow_the_menu() {
    let plan = sample_menu().plan();
    assert_eq!(plan.ops.len(), 11);
    match &plan.ops[0] {
        MenuOp::Item { slot, text, check, enabled } => {
            assert_eq!(*slot, 0);
            assert_eq!(text, "Show Window");
            assert_eq!(*check, None);
            assert!(*enabled);
        }
        _ => panic!("expected an item"),
    }
    match &plan.ops[1] {
        MenuOp::Item { slot, enabled, .. } => {
            assert_eq!(*slot, 1);
            assert!(!*enabled);
        }
        _ => panic!("expected an item"),
    }
    assert!(matches!(plan.ops[2], MenuOp::Separator));
    match &plan.ops[3] {
        MenuOp::BeginSub { text, enabled } => {
            assert_eq!(text, "Help");
            assert!(*enabled);
        }
        _ => panic!("expected a submenu"),
    }
    assert!(matches!(plan.ops[4], MenuOp::Item { slot: 2, .. }));
    assert!(matches!(plan.ops[5], MenuOp::Item { slot: 3, .. }));
    assert!(matches!(plan.ops[6], MenuOp::EndSub));
    assert!(matches!(plan.ops[7], MenuOp::Separator));
    match &plan.ops[8] {
        MenuOp::Item { slot, text, check, .. } => {
            assert_eq!(*slot, 4);
            assert_eq!(text, "Notifications");
            assert_eq!(*check, Some(true));
        }
        _ => panic!("expected a checkbox item"),
    }
    assert!(matches!(plan.ops[9], MenuOp::Separator));
    assert!(matches!(plan.ops[10], MenuOp::Item { slot: 5, .. }));
}

#[test]
fn every_item_slot_selects_its_own_id() {
    let plan = sample_menu().plan();
    for op in &plan.ops {
        if let MenuOp::Item { slot, text, .. } = op {
            let id = plan.selected(*slot).expect("slot in table");
            let expected = match text.as_str() {
                "Show Window" => "show",
                "Settings" => "settings",
                "About" => "about",
                "Documentation" => "docs",
                "Notifications" => "notifications",
                "Quit" => "quit",
                other => panic!("unexpected item {other}"),
            };
            assert_eq!(id.0, expected);
        }
    }
}

#[test]
fn selection_by_backend_numbering() {
    let plan = sample_menu().plan();
    assert_eq!(plan.selected(5).map(|id| id.0), Some("quit".to_string()));
    assert!(plan.selected(6).is_none());

    // Windows: command = slot + 1, 0 = dismissed.
    assert_eq!(plan.selected_command(1).map(|id| id.0), Some("show".to_string()));
    assert_eq!(plan.selected_command(6).map(|id| id.0), Some("quit".to_string()));
    assert!(plan.selected_command(0).is_none());
    assert!(plan.selected_command(-3).is_none());
    assert!(plan.selected_command(7).is_none());

    // Qt: data index, negative = none.
    assert_eq!(plan.selected_data(2).map(|id| id.0), Some("about".to_string()));
    assert!(plan.selected_data(-1).is_none());
    assert!(plan.selected_data(6).is_none());
}

#[test]
fn adding_an_entry_extends_the_plan() {
    let mut menu = sample_menu();
    let before = menu.plan();
    menu.add(&CheckEntry::of("extra", "Extra", false));
    let after = menu.plan();
    assert_eq!(after.ops.len(), before.ops.len() + 1);
    assert_eq!(after.ids.len(), before.ids.len() + 1);
    assert_eq!(after.ids[6].0, "extra");
    assert!(matches!(after.ops[11], MenuOp::Item { slot: 6, check: Some(false), .. }));
}

#[test]
fn empty_menu_has_empty_plan() {
    let plan = PopupMenu::new().plan();
    assert!(plan.ops.is_empty());
    assert!(plan.ids.is_empty());
    assert!(plan.selected(0).is_none());
    assert!(plan.selected_command(1).is_none());
}

#[test]
fn nested_submenus_are_planned_inside_out() {
    let mut inner = SubMenu::of("Inner").inactive();
    inner.add(&TextEntry::of("deep", "Deep"));
    let mut outer = SubMenu::of("Outer");
    outer.add(&TextEntry::of("first", "First"));
    outer.add(&inner);
    let mut menu = PopupMenu::new();
    menu.add(&outer);
    menu.add(&TextEntry::of("last", "Last"));

    let plan = menu.plan();
    assert_eq!(ids(&plan), vec!["first", "deep", "last"]);
    assert_eq!(plan.ops.len(), 7);
    assert!(matches!(plan.ops[0], MenuOp::BeginSub { enabled: true, .. }));
    assert!(matches!(plan.ops[1], MenuOp::Item { slot: 0, .. }));
    assert!(matches!(plan.ops[2], MenuOp::BeginSub { enabled: false, .. }));
    assert!(matches!(plan.ops[3], MenuOp::Item { slot: 1, .. }));
    assert!(matches!(plan.ops[4], MenuOp::EndSub));
    assert!(matches!(plan.ops[5], MenuOp::EndSub));
    assert!(matches!(plan.ops[6], MenuOp::Item { slot: 2, .. }));
}

#[test]
fn backend_codes_round_trip() {
    assert_eq!(Backend::default(), Backend::Gtk);
    assert_eq!(Backend::Gtk.code(), 0);
    assert_eq!(Backend::Qt.code(), 1);
    assert_eq!(Backend::from_code(Backend::Qt.code()), Backend::Qt);
    assert_eq!(Backend::from_code(Backend::Gtk.code()), Backend::Gtk);
    assert_eq!(Backend::from_code(7), Backend::Gtk);
}

#[test]
fn submenu_steps_nest_properly() {
    let mut inner = SubMenu::of("Inner");
    inner.add(&Divider);
    let mut outer = SubMenu::of("Outer");
    outer.add(&inner);
    outer.add(&SubMenu::of("Empty"));
    let mut menu = sample_menu();
    menu.add(&outer);

    let plan = menu.plan();
    let mut depth: i64 = 0;
    for op in &plan.ops {
        match op {
            MenuOp::BeginSub { .. } => depth += 1,
            MenuOp::EndSub => depth -= 1,
            _ => {}
        }
        assert!(depth >= 0);
    }
    assert_eq!(depth, 0);
}

#[test]
fn windows_command_ids_select_their_slot() {
    let plan = sample_menu().plan();
    for slot in 0..plan.ids.len() {
        let cmd = command_id(slot);
        assert!(cmd > 0);
        assert_eq!(plan.selected_command(cmd as i32), plan.selected(slot));
    }
}
