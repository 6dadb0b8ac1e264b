//! Widgets built on entities: buttons, scrollbars, lists and panels.

use vstd::prelude::*;
use crate::ui::entity::{
    Entity,
    EntityManager,
    EntityView,
    ManagerView,
    Rect,
    create_spec,
    add_child_spec,
    free_ids_valid,
};
use crate::ui::vtable_tags;

verus! {

/// Kinds of widgets.
#[derive(Debug, Clone, Copy, PartialEq, Eq, Structural)]
pub enum WidgetType {
    Base,
    Button,
    Scrollbar,
    NumInput,
    List,
    Text,
    Panel,
}

/// The callback id, or 0 for none.
pub open spec fn callback_or_zero(callback: Option<u16>) -> u16 {
    match callback {
        Some(c) => c,
        None => 0,
    }
}

/// An entity reset as a base widget: text tag, empty rectangle, flags
/// and callback cleared, no children and no parent; the rest kept.
pub open spec fn base_widget(e: EntityView) -> EntityView {
    EntityView {
        vtable_id: vtable_tags::TEXT,
        rect: Rect { x: 0, y: 0, w: 0, h: 0 },
        flags: 0,
        flag_byte: 0,
        field_11: 0,
        children: Seq::empty(),
        parent: None,
        ..e
    }
}

/// Resets `entity` as a base widget (see `base_widget`).
pub fn widget_base_init(entity: &mut Entity)
    ensures
        final(entity)@ == base_widget(old(entity)@),
{
    entity.vtable_id = vtable_tags::TEXT;
    entity.rect = Rect::new(0, 0, 0, 0);
    entity.flags = 0;
    entity.flag_byte = 0;
    entity.field_11 = 0;
    entity.children.clear();
    entity.parent = None;
}

/// Makes `entity` a button over `rect` with `callback`.
pub fn widget_button_ctor(entity: &mut Entity, rect: Rect, callback: Option<u16>)
    ensures
        final(entity)@ == (EntityView {
            vtable_id: vtable_tags::BUTTON,
            rect,
            field_11: callback_or_zero(callback),
            ..base_widget(old(entity)@)
        }),
{
    widget_base_init(entity);
    entity.vtable_id = vtable_tags::BUTTON;
    entity.rect = rect;
    entity.field_11 = match callback {
        Some(c) => c,
        None => 0,
    };
}

/// Sets up a sub-control: its callback, and a flag word holding the type
/// id in the high byte and the low byte of `geometry` in the low byte.
pub fn widget_subctrl_setup(
    entity: &mut Entity,
    callback: Option<u16>,
    type_id: u8,
    secondary: u16,
    geometry: u16,
)
    ensures
        final(entity)@ == (EntityView {
            field_11: callback_or_zero(callback),
            flags: ((type_id as u16) << 8u16) | (geometry & 0xFF),
            ..old(entity)@
        }),
{
    entity.field_11 = match callback {
        Some(c) => c,
        None => 0,
    };
    entity.flags = (type_id as u16) << 8 | (geometry & 0xFF);
}

/// A button widget.
#[derive(Debug, Clone)]
pub struct Button {
    pub entity_id: usize,
    pub rect: Rect,
    pub callback: Option<u16>,
    pub font_data: Vec<u8>,
}

impl Button {
    /// A button for entity `entity_id` over `rect`, with no callback and
    /// no font data.
    pub fn new(entity_id: usize, rect: Rect) -> (b: Self)
        ensures
            b.entity_id == entity_id,
            b.rect == rect,
            b.callback is None,
            b.font_data@ == Seq::<u8>::empty(),
    {
        Button { entity_id, rect, callback: None, font_data: Vec::new() }
    }
}

/// Orientation of a scrollbar.
#[derive(Debug, Clone, Copy, PartialEq, Eq, Structural)]
pub enum ScrollbarDirection {
    Vertical,
    Horizontal,
}

/// The parts of a scrollbar a click can hit.
#[derive(Debug, Clone, Copy, PartialEq, Eq, Structural)]
pub enum ScrollbarPart {
    Thumb,
    ArrowUp,
    ArrowDown,
    PageUp,
    PageDown,
}

/// A scrollbar: a value within a range, moved by pages.
pub struct Scrollbar {
    pub entity_id: usize,
    pub direction: ScrollbarDirection,
    pub min: i32,
    pub max: i32,
    pub value: i32,
    pub page_size: i32,
    pub thumb_id: Option<usize>,
    pub arrow_up_id: Option<usize>,
    pub arrow_down_id: Option<usize>,
}

/// `v` raised to at least `lo`, then lowered to at most `hi`.
pub open spec fn clamp_spec(v: int, lo: int, hi: int) -> int {
    let a = if v >= lo {
        v
    } else {
        lo
    };
    if a <= hi {
        a
    } else {
        hi
    }
}

/// The table after the scrollbar's five parts are created in order: two
/// arrows, the thumb, the page-up and the page-down areas. Gives the table
/// and the ids of the two arrows and the thumb.
pub open spec fn scrollbar_parts(m: ManagerView) -> (ManagerView, usize, usize, usize) {
    let (m1, a1) = create_spec(m, 0x9D52);
    let (m2, a2) = create_spec(m1, 0x9D52);
    let (m3, t) = create_spec(m2, vtable_tags::RECT_INTERACTIVE);
    let (m4, p1) = create_spec(m3, vtable_tags::RECT_BASE);
    let (m5, p2) = create_spec(m4, vtable_tags::RECT_BASE);
    (m5, a1, a2, t)
}

impl Scrollbar {
    /// A scrollbar for entity `entity_id` over `0..=100`, at 0, with pages
    /// of 10 and no parts yet.
    pub fn new(entity_id: usize, direction: ScrollbarDirection) -> (s: Self)
        ensures
            s == (Scrollbar {
                entity_id,
                direction,
                min: 0,
                max: 100,
                value: 0,
                page_size: 10,
                thumb_id: None,
                arrow_up_id: None,
                arrow_down_id: None,
            }),
    {
        Scrollbar {
            entity_id,
            direction,
            min: 0,
            max: 100,
            value: 0,
            page_size: 10,
            thumb_id: None,
            arrow_up_id: None,
            arrow_down_id: None,
        }
    }

    /// Creates the five part entities in `mgr` (see `scrollbar_parts`) and
    /// records the arrows and the thumb.
    pub fn init_children(&mut self, mgr: &mut EntityManager)
        requires
            free_ids_valid(old(mgr)@),
            old(mgr)@.entities.len() + 5 <= usize::MAX,
        ensures
            free_ids_valid(final(mgr)@),
            ({
                let (m, a1, a2, t) = scrollbar_parts(old(mgr)@);
                &&& final(mgr)@ == m
                &&& *final(self) == (Scrollbar {
                    arrow_up_id: Some(a1),
                    arrow_down_id: Some(a2),
                    thumb_id: Some(t),
                    ..*old(self)
                })
            }),
    {
        let base_vtable: u16 = match self.direction {
            ScrollbarDirection::Vertical => 0x9D52,
            ScrollbarDirection::Horizontal => 0x9D52,
        };
        let arrow1 = mgr.create(base_vtable);
        self.arrow_up_id = Some(arrow1);
        let arrow2 = mgr.create(base_vtable);
        self.arrow_down_id = Some(arrow2);
        let thumb = mgr.create(vtable_tags::RECT_INTERACTIVE);
        self.thumb_id = Some(thumb);
        let _page_up = mgr.create(vtable_tags::RECT_BASE);
        let _page_down = mgr.create(vtable_tags::RECT_BASE);
    }

    /// Sets the range and clamps the value into it (raised to `min` first,
    /// then lowered to `max`).
    pub fn set_range(&mut self, min: i32, max: i32)
        ensures
            *final(self) == (Scrollbar {
                min,
                max,
                value: clamp_spec(old(self).value as int, min as int, max as int) as i32,
                ..*old(self)
            }),
    {
        self.min = min;
        self.max = max;
        let v = if self.value >= min {
            self.value
        } else {
            min
        };
        self.value = if v <= max {
            v
        } else {
            max
        };
    }

    /// Sets the value, clamped into the range.
    pub fn set_value(&mut self, val: i32)
        ensures
            *final(self) == (Scrollbar {
                value: clamp_spec(val as int, old(self).min as int, old(self).max as int) as i32,
                ..*old(self)
            }),
    {
        let v = if val >= self.min {
            val
        } else {
            self.min
        };
        self.value = if v <= self.max {
            v
        } else {
            self.max
        };
    }

    /// Moves the value back one page, not below `min`.
    pub fn page_up(&mut self)
        requires
            i32::MIN <= old(self).value - old(self).page_size <= i32::MAX,
        ensures
            *final(self) == (Scrollbar {
                value: if old(self).value - old(self).page_size >= old(self).min {
                    (old(self).value - old(self).page_size) as i32
                } else {
                    old(self).min
                },
                ..*old(self)
            }),
    {
        let v = self.value - self.page_size;
        self.value = if v >= self.min {
            v
        } else {
            self.min
        };
    }

    /// Moves the value on one page, not above `max`.
    pub fn page_down(&mut self)
        requires
            i32::MIN <= old(self).value + old(self).page_size <= i32::MAX,
        ensures
            *final(self) == (Scrollbar {
                value: if old(self).value + old(self).page_size <= old(self).max {
                    (old(self).value + old(self).page_size) as i32
                } else {
                    old(self).max
                },
                ..*old(self)
            }),
    {
        let v = self.value + self.page_size;
        self.value = if v <= self.max {
            v
        } else {
            self.max
        };
    }

    /// The part under a click: the scrollbar has no part geometry of its
    /// own, so no part is hit.
    pub fn hit_test(&self, px: i16, py: i16) -> (r: Option<ScrollbarPart>)
        ensures
            r is None,
    {
        None
    }
}

/// With `lo <= hi`, clamping lands in `lo..=hi`, and a value already
/// there is kept.
pub proof fn lemma_clamp_in_range(v: int, lo: int, hi: int)
    requires
        lo <= hi,
    ensures
        lo <= clamp_spec(v, lo, hi) <= hi,
        lo <= v <= hi ==> clamp_spec(v, lo, hi) == v,
{
}

/// A list of entries, each a child entity of the list's entity.
pub struct ListControl {
    pub entity_id: usize,
    pub entries: Vec<usize>,
    pub selected: Option<usize>,
}

/// The table and entry ids after `count` entries are created under the
/// list entity `list_id`, each created and then linked as a child.
pub open spec fn list_entries(m: ManagerView, list_id: usize, count: nat) -> (ManagerView, Seq<usize>)
    decreases count,
{
    if count == 0 {
        (m, Seq::empty())
    } else {
        let (m1, es) = list_entries(m, list_id, (count - 1) as nat);
        let (m2, e) = create_spec(m1, vtable_tags::RECT_INTERACTIVE);
        (add_child_spec(m2, list_id, e), es.push(e))
    }
}

/// Creating entries and linking them keeps the free ids valid and adds at
/// most one entity each.
proof fn lemma_list_entries(m: ManagerView, list_id: usize, count: nat)
    requires
        free_ids_valid(m),
    ensures
        free_ids_valid(list_entries(m, list_id, count).0),
        list_entries(m, list_id, count).0.entities.len() <= m.entities.len() + count,
    decreases count,
{
    if count > 0 {
        lemma_list_entries(m, list_id, (count - 1) as nat);
    }
}

impl ListControl {
    /// An empty list for entity `entity_id`, nothing selected.
    pub fn new(entity_id: usize) -> (l: Self)
        ensures
            l.entity_id == entity_id,
            l.entries@ == Seq::<usize>::empty(),
            l.selected is None,
    {
        ListControl { entity_id, entries: Vec::new(), selected: None }
    }

    /// Creates `count` entries under the list entity (see `list_entries`)
    /// and appends their ids.
    pub fn create_entries(&mut self, mgr: &mut EntityManager, count: usize)
        requires
            free_ids_valid(old(mgr)@),
            old(mgr)@.entities.len() + count <= usize::MAX,
        ensures
            free_ids_valid(final(mgr)@),
            ({
                let (m, es) = list_entries(old(mgr)@, old(self).entity_id, count as nat);
                &&& final(mgr)@ == m
                &&& final(self).entries@ == old(self).entries@ + es
                &&& final(self).entity_id == old(self).entity_id
                &&& final(self).selected == old(self).selected
            }),
    {
        let ghost m0 = mgr@;
        let mut k: usize = 0;
        while k < count
            invariant
                k <= count,
                m0 == old(mgr)@,
                free_ids_valid(m0),
                m0.entities.len() + count <= usize::MAX,
                mgr@ == list_entries(m0, self.entity_id, k as nat).0,
                self.entries@ == old(self).entries@ + list_entries(m0, self.entity_id, k as nat).1,
                self.entity_id == old(self).entity_id,
                self.selected == old(self).selected,
            decreases count - k,
        {
            proof {
                lemma_list_entries(m0, self.entity_id, k as nat);
            }
            let entry = mgr.create(vtable_tags::RECT_INTERACTIVE);
            self.entries.push(entry);
            mgr.add_child(self.entity_id, entry);
            proof {
                assert(self.entries@ =~= old(self).entries@ + list_entries(
                    m0,
                    self.entity_id,
                    (k + 1) as nat,
                ).1);
            }
            k = k + 1;
        }
        proof {
            lemma_list_entries(m0, self.entity_id, count as nat);
        }
    }

    /// Selects entry `index` when there is one.
    pub fn select(&mut self, index: usize)
        ensures
            final(self).entity_id == old(self).entity_id,
            final(self).entries@ == old(self).entries@,
            index < old(self).entries@.len() ==> final(self).selected == Some(index),
            index >= old(self).entries@.len() ==> final(self).selected == old(self).selected,
    {
        if index < self.entries.len() {
            self.selected = Some(index);
        }
    }
}

/// A panel, possibly a popup.
pub struct Panel {
    pub rect: Rect,
    pub popup: bool,
}

impl Panel {
    /// A panel over `rect`.
    pub fn new(rect: Rect, popup: bool) -> (p: Self)
        ensures
            p.rect == rect,
            p.popup == popup,
    {
        Panel { rect, popup }
    }

    /// The popup background: one zero byte per pixel of the panel.
    pub fn render_popup(&self) -> (r: Vec<u8>)
        ensures
            r@ == Seq::new((self.rect.w * self.rect.h) as nat, |i: int| 0u8),
    {
        let w = self.rect.w as usize;
        let h = self.rect.h as usize;
        assert(w * h <= 0xFFFF_FFFF) by (nonlinear_arith)
            requires
                w <= 0xFFFF,
                h <= 0xFFFF,
        ;
        let n = w * h;
        let v = vec![0u8; n];
        assert(v@ =~= Seq::new((self.rect.w * self.rect.h) as nat, |i: int| 0u8));
        v
    }
}

} // verus!
