use s4::ui::dialog::{show_simple, show_with_cancel, show_with_selection, DialogEngine, DialogResult};
use s4::ui::dialog_flags;
use s4::ui::entity::{Entity, EntityManager, Rect, FLAG10_HIT_TEST};
use s4::ui::vtable_tags;
use s4::ui::widget::{widget_base_init, widget_subctrl_setup, Button, Panel, Scrollbar, ScrollbarDirection};

#[test]
fn destroyed_ids_are_reused() {
    let mut mgr = EntityManager::new();
    let root = mgr.create(vtable_tags::ROOT);
    let a = mgr.create(vtable_tags::BUTTON);
    let b = mgr.create(vtable_tags::BUTTON);
    mgr.add_child(root, a);
    mgr.add_child(a, b);
    mgr.destroy(a);
    assert_eq!(mgr.get(a).unwrap().vtable_id, 0);
    assert_eq!(mgr.get(b).unwrap().vtable_id, 0);
    assert_eq!(mgr.create(vtable_tags::TEXT), a);
    assert_eq!(mgr.create(vtable_tags::TEXT), b);
    assert_eq!(mgr.create(vtable_tags::TEXT), 3);
    assert_eq!(mgr.get(a).unwrap().vtable_id, vtable_tags::TEXT);
}

fn visible_hit(mgr: &mut EntityManager, id: usize, rect: Rect) {
    let e = mgr.get_mut(id).unwrap();
    e.rect = rect;
    e.set_visible(true);
    e.set_flag10(FLAG10_HIT_TEST, true);
}

#[test]
fn deep_hit_test_prefers_children() {
    let mut mgr = EntityManager::new();
    let root = mgr.create(vtable_tags::ROOT);
    let child = mgr.create(vtable_tags::BUTTON);
    let hidden = mgr.create(vtable_tags::BUTTON);
    mgr.add_child(root, hidden);
    mgr.add_child(root, child);
    visible_hit(&mut mgr, root, Rect::new(0, 0, 100, 100));
    visible_hit(&mut mgr, child, Rect::new(10, 10, 10, 10));
    mgr.get_mut(hidden).unwrap().rect = Rect::new(0, 0, 100, 100);
    assert_eq!(mgr.hit_test_deep(root, 15, 15), Some(child));
    assert_eq!(mgr.hit_test_deep(root, 50, 50), Some(root));
    assert_eq!(mgr.hit_test_deep(root, 150, 50), None);
    mgr.get_mut(root).unwrap().set_visible(false);
    assert_eq!(mgr.hit_test_deep(root, 15, 15), None);
}

#[test]
fn bring_to_front_moves_child_last() {
    let mut mgr = EntityManager::new();
    let root = mgr.create(vtable_tags::ROOT);
    let a = mgr.create(vtable_tags::BUTTON);
    let b = mgr.create(vtable_tags::BUTTON);
    mgr.add_child(root, a);
    mgr.add_child(root, b);
    mgr.bring_to_front(a);
    assert_eq!(mgr.get(root).unwrap().children, vec![b, a]);
    mgr.bring_to_front(root);
    assert_eq!(mgr.get(root).unwrap().children, vec![b, a]);
}

#[test]
fn entity_flags() {
    let mut e = Entity::new(vtable_tags::WINDOW);
    assert!(!e.is_visible() && !e.is_modal() && !e.is_dtor_eligible());
    e.set_modal(true);
    assert!(e.is_modal());
    assert_eq!(e.flag_byte, 0x80);
    e.set_modal(false);
    assert_eq!(e.flag_byte, 0);
    e.set_flag10(0x0006, true);
    assert!(e.test_flag10(0x0002));
    e.set_flag10(0x0002, false);
    assert_eq!(e.flags, 0x0004);
    assert_eq!(e.vtable_method(0x10), vtable_tags::WINDOW + 0x10);
    let mut w = Entity::new(0xFFFF);
    w.flag_byte = 0x08;
    assert!(w.is_dtor_eligible());
    assert_eq!(w.vtable_method(2), 1);
}

#[test]
fn rect_operations() {
    let a = Rect::new(0, 0, 10, 10);
    assert!(a.intersects(&Rect::new(9, 9, 5, 5)));
    assert!(!a.intersects(&Rect::new(10, 0, 5, 5)));
    let mut r = Rect::default();
    r.set_ordered(10, 2, 4, 8);
    assert_eq!((r.x, r.y, r.w, r.h), (4, 2, 6, 6));
}

#[test]
fn widget_setup() {
    let mut e = Entity::new(vtable_tags::ROOT);
    e.flag_byte = 0xFF;
    e.refcount = 3;
    e.children.push(9);
    widget_base_init(&mut e);
    assert_eq!(e.vtable_id, vtable_tags::TEXT);
    assert_eq!((e.flag_byte, e.refcount), (0, 3));
    assert!(e.children.is_empty());
    widget_subctrl_setup(&mut e, None, 0x12, 0, 0x3456);
    assert_eq!((e.field_11, e.flags), (0, 0x1256));
    let b = Button::new(4, Rect::new(1, 2, 3, 4));
    assert_eq!((b.entity_id, b.callback, b.font_data.len()), (4, None, 0));
}

#[test]
fn scrollbar_clamps() {
    let mut sb = Scrollbar::new(1, ScrollbarDirection::Horizontal);
    sb.set_value(200);
    assert_eq!(sb.value, 100);
    sb.set_value(-5);
    assert_eq!(sb.value, 0);
    sb.set_value(70);
    sb.set_range(0, 50);
    assert_eq!(sb.value, 50);
    sb.page_down();
    assert_eq!(sb.value, 50);
    sb.set_range(60, 80);
    assert_eq!(sb.value, 60);
    assert_eq!(sb.hit_test(0, 0), None);
}

#[test]
fn scrollbar_parts_are_created() {
    let mut mgr = EntityManager::new();
    let mut sb = Scrollbar::new(0, ScrollbarDirection::Vertical);
    sb.init_children(&mut mgr);
    assert_eq!((sb.arrow_up_id, sb.arrow_down_id, sb.thumb_id), (Some(0), Some(1), Some(2)));
    assert_eq!(mgr.get(2).unwrap().vtable_id, vtable_tags::RECT_INTERACTIVE);
    assert_eq!(mgr.get(4).unwrap().vtable_id, vtable_tags::RECT_BASE);
    assert!(mgr.get(5).is_none());
}

#[test]
fn popup_has_one_byte_per_pixel() {
    let p = Panel::new(Rect::new(0, 0, 3, 4), true);
    assert_eq!(p.render_popup(), vec![0u8; 12]);
}

#[test]
fn dialogs() {
    assert_eq!(show_simple("t", dialog_flags::DIRECT_RETURN), DialogResult::NoResult);
    assert_eq!(show_with_cancel("t"), DialogResult::NoResult);
    assert_eq!(
        show_with_selection("t", vec!["a".to_string()], vec![3]),
        DialogResult::NoResult
    );
    let mut e = DialogEngine::new();
    let r = e.show(
        "pick",
        dialog_flags::DIRECT_RETURN | dialog_flags::YES_NO,
        Some(vec!["a".to_string(), "b".to_string()]),
        None,
    );
    assert_eq!(r, DialogResult::Selected(0));
    assert_eq!(e.text, "pick");
    assert_eq!(e.options.len(), 2);
    assert!(e.mapping.is_empty());
    let yes = e.entities.get(3).unwrap();
    assert_eq!((yes.vtable_id, yes.rect), (vtable_tags::BUTTON, Rect::new(200, 300, 80, 30)));
    assert_eq!(e.entities.get(4).unwrap().rect, Rect::new(300, 300, 80, 30));
    assert!(e.entities.get(5).is_none());
}

#[test]
fn dialog_events() {
    let mut e = DialogEngine::new();
    e.event_dispatch(2, 7);
    assert!(e.ready_flag);
    assert_eq!(e.result_value, 7);
    e.event_dispatch(1, 0xFF8);
    assert_eq!(e.result_value, 7);
    e.event_dispatch(2, 0xFFFF);
    assert_eq!(e.result_value, -1);
    assert_eq!(e.input_wait(), -1);
    assert!(!e.ready_flag);
}
