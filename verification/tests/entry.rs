use std::collections::HashSet;

use tray_menu::{AsEntry, CheckEntry, Divider, EntryKind, ItemId, PopupMenu, SubMenu, TextEntry};

#[test]
fn test_item_id_creation() {
    let id1 = ItemId::of("test");
    assert_eq!(id1.0, "test");

    let id2: ItemId = "test2".into();
    assert_eq!(id2.0, "test2");

    let id3: ItemId = String::from("test3").into();
    assert_eq!(id3.0, "test3");
}

#[test]
fn test_item_id_equality() {
    let id1 = ItemId::of("same");
    let id2 = ItemId::of("same");
    let id3 = ItemId::of("different");

    assert_eq!(id1, id2);
    assert_ne!(id1, id3);
}

#[test]
fn test_item_id_hash() {
    let mut set = HashSet::new();
    set.insert(ItemId::of("a"));
    set.insert(ItemId::of("b"));
    set.insert(ItemId::of("a"));

    assert_eq!(set.len(), 2);
}

#[test]
fn test_text_entry_creation() {
    let entry = TextEntry::of("id1", "Label");
    assert_eq!(entry.id().0, "id1");
    assert_eq!(entry.text(), "Label");
    assert!(entry.active());
}

#[test]
fn test_text_entry_inactive() {
    let entry = TextEntry::of("id1", "Label").inactive();
    assert!(!entry.active());
}

#[test]
fn test_check_entry() {
    let entry = CheckEntry::of("check1", "Check Label", true);
    assert_eq!(entry.id().0, "check1");
    assert_eq!(entry.text(), "Check Label");
    assert!(entry.ticked());
    assert!(entry.active());

    let entry2 = CheckEntry::of("check2", "Unchecked", false).inactive();
    assert!(!entry2.ticked());
    assert!(!entry2.active());
}

#[test]
fn test_submenu() {
    let mut submenu = SubMenu::of("File");
    assert_eq!(submenu.text(), "File");
    assert!(submenu.entries().is_empty());

    let entry = TextEntry::of("open", "Open");
    submenu.add(&entry);
    submenu.add(&Divider);

    assert_eq!(submenu.entries().len(), 2);
}

#[test]
fn test_as_entry_trait() {
    let entry = TextEntry::of("id", "Label");
    let kind = entry.as_entry();
    assert!(matches!(kind, EntryKind::Text(_)));

    let check = CheckEntry::of("id", "Label", true);
    let kind = check.as_entry();
    assert!(matches!(kind, EntryKind::Check(_)));

    let submenu = SubMenu::of("Sub");
    let kind = submenu.as_entry();
    assert!(matches!(kind, EntryKind::Sub(_)));

    let divider = Divider;
    let kind = divider.as_entry();
    assert!(matches!(kind, EntryKind::Divider));
}

#[test]
fn test_entry_kind_item_id() {
    let entry = TextEntry::of("item_id", "Label");
    let kind = entry.as_entry();
    assert_eq!(kind.item_id().map(|id| id.0.as_str()), Some("item_id"));

    let divider = Divider;
    let kind = divider.as_entry();
    assert!(kind.item_id().is_none());
}

#[test]
fn item_id_as_ref_gives_the_string() {
    let id = ItemId::of("quit");
    let s: &str = id.as_ref();
    assert_eq!(s, "quit");
}

#[test]
fn inactive_keeps_id_and_label() {
    let entry = TextEntry::of("a", "Alpha").inactive().inactive();
    assert_eq!(entry.id().0, "a");
    assert_eq!(entry.text(), "Alpha");
    assert!(!entry.active());

    let check = CheckEntry::of("c", "Gamma", true).inactive();
    assert_eq!(check.id().0, "c");
    assert_eq!(check.text(), "Gamma");
    assert!(check.ticked());

    let sub = SubMenu::of("Sub").inactive();
    assert_eq!(sub.text(), "Sub");
    assert!(!sub.active());
    assert!(SubMenu::of("Other").active());
}

#[test]
fn check_and_submenu_entries_carry_ids() {
    let check = CheckEntry::of("notify", "Notifications", false);
    let kind = check.as_entry();
    assert_eq!(kind.item_id().map(|id| id.0.as_str()), Some("notify"));

    let mut sub = SubMenu::of("Help");
    sub.add(&TextEntry::of("about", "About"));
    let kind = sub.as_entry();
    assert!(kind.item_id().is_none());
}

#[test]
fn menu_entries_come_in_the_order_added() {
    let mut menu = PopupMenu::new();
    assert!(menu.entries().is_empty());
    menu.add(&TextEntry::of("show", "Show Window"));
    menu.add(&Divider);
    menu.add(&CheckEntry::of("notify", "Notifications", true));

    let entries = menu.entries();
    assert_eq!(entries.len(), 3);
    assert_eq!(entries[0].item_id().map(|id| id.0.as_str()), Some("show"));
    assert!(matches!(entries[1], EntryKind::Divider));
    match &entries[2] {
        EntryKind::Check(c) => {
            assert_eq!(c.text(), "Notifications");
            assert!(c.ticked());
        }
        _ => panic!("expected a checkbox entry"),
    }

    let default_menu = PopupMenu::default();
    assert!(default_menu.entries().is_empty());
}

#[test]
fn cloned_submenu_keeps_nested_entries() {
    let mut inner = SubMenu::of("Inner");
    inner.add(&TextEntry::of("deep", "Deep"));
    let mut outer = SubMenu::of("Outer");
    outer.add(&inner);
    outer.add(&Divider);

    let copy = outer.clone();
    assert_eq!(copy.text(), "Outer");
    assert_eq!(copy.entries().len(), 2);
    match &copy.entries()[0] {
        EntryKind::Sub(s) => {
            assert_eq!(s.text(), "Inner");
            assert_eq!(s.entries()[0].item_id().map(|id| id.0.as_str()), Some("deep"));
        }
        _ => panic!("expected a submenu"),
    }
}

#[test]
fn entries_keep_every_add_in_order() {
    let mut menu = PopupMenu::new();
    let names = ["a", "b", "a", "c"];
    for name in names {
        menu.add(&TextEntry::of(name, name));
    }
    let got: Vec<&str> = menu.entries().iter().map(|e| e.item_id().unwrap().0.as_str()).collect();
    assert_eq!(got, names.to_vec());

    let mut sub = SubMenu::of("S");
    sub.add(&TextEntry::of("x", "X"));
    let mut sub = sub.inactive();
    sub.add(&Divider);
    sub.add(&CheckEntry::of("y", "Y", true));
    assert_eq!(sub.text(), "S");
    assert!(!sub.active());
    assert_eq!(sub.entries().len(), 3);
    assert_eq!(sub.entries()[0].item_id().map(|id| id.0.as_str()), Some("x"));
    assert!(matches!(sub.entries()[1], EntryKind::Divider));
    assert_eq!(sub.entries()[2].item_id().map(|id| id.0.as_str()), Some("y"));
}
