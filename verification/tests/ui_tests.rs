use s4::ui::dialog::{DialogEngine, DialogResult};
use s4::ui::entity::{entity_hit_test, Entity, EntityManager, Rect};
use s4::ui::vtable_tags;
use s4::ui::widget::{widget_button_ctor, ListControl, Scrollbar, ScrollbarDirection};

#[test]
fn test_dialog_engine_creation() {
    let engine = DialogEngine::new();
    assert!(!engine.mode_flag);
    assert!(!engine.ready_flag);
    assert_eq!(engine.result_value, -1);
}

#[test]
fn test_dialog_result() {
    assert_eq!(DialogResult::Confirm, DialogResult::Confirm);
    assert_ne!(DialogResult::Cancel, DialogResult::Yes);
}

#[test]
fn test_rect_contains() {
    let r = Rect::new(10, 20, 100, 50);
    assert!(r.contains(50, 30));
    assert!(!r.contains(5, 30));
}

#[test]
fn test_entity_creation() {
    let mut mgr = EntityManager::new();
    let id = mgr.create(vtable_tags::ROOT);
    assert_eq!(mgr.get(id).unwrap().vtable_id, vtable_tags::ROOT);
}

#[test]
fn test_entity_parent_child() {
    let mut mgr = EntityManager::new();
    let parent = mgr.create(vtable_tags::ROOT);
    let child = mgr.create(vtable_tags::BUTTON);
    mgr.add_child(parent, child);
    assert_eq!(mgr.get(child).unwrap().parent, Some(parent));
    assert!(mgr.get(parent).unwrap().children.contains(&child));
}

#[test]
fn test_hit_test() {
    let mut entity = Entity::new(vtable_tags::RECT_BASE);
    entity.rect = Rect::new(0, 0, 100, 50);
    entity.set_visible(true);
    assert!(entity_hit_test(&entity, 50, 25));
    assert!(!entity_hit_test(&entity, 150, 25));
}

#[test]
fn test_button_creation() {
    let mut entity = Entity::new(vtable_tags::TEXT);
    widget_button_ctor(&mut entity, Rect::new(10, 10, 100, 30), Some(42));
    assert_eq!(entity.vtable_id, vtable_tags::BUTTON);
    assert_eq!(entity.rect.w, 100);
}

#[test]
fn test_scrollbar() {
    let mut sb = Scrollbar::new(0, ScrollbarDirection::Vertical);
    sb.set_range(0, 100);
    sb.set_value(50);
    sb.page_up();
    assert_eq!(sb.value, 40);
    sb.page_down();
    sb.page_down();
    assert_eq!(sb.value, 60);
}

#[test]
fn test_list_control() {
    let mut mgr = EntityManager::new();
    let list_id = mgr.create(vtable_tags::ROOT);
    let mut list = ListControl::new(list_id);
    list.create_entries(&mut mgr, 5);
    assert_eq!(list.entries.len(), 5);
    list.select(2);
    assert_eq!(list.selected, Some(2));
}
