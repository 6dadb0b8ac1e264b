//! UI entities: rectangles, flag bits, and the entity table with its
//! parent/child tree.

use vstd::prelude::*;

verus! {

/// An entity's bounding rectangle: origin and size. Its far edges are the
/// origin plus the size read as a signed 16-bit number.
#[derive(Debug, Clone, Copy, Default, PartialEq, Eq, Structural)]
pub struct Rect {
    pub x: i16,
    pub y: i16,
    pub w: u16,
    pub h: u16,
}

/// Whether `v` fits a signed 16-bit number.
pub open spec fn fits16(v: int) -> bool {
    i16::MIN <= v <= i16::MAX
}

/// The right edge of `r`: `x + w`, with `w` read as signed.
pub open spec fn rect_right(r: Rect) -> int {
    r.x + (r.w as i16)
}

/// The bottom edge of `r`: `y + h`, with `h` read as signed.
pub open spec fn rect_bottom(r: Rect) -> int {
    r.y + (r.h as i16)
}

/// Testing the point against `r` computes no edge beyond 16 bits: an edge
/// is only computed once the tests before it have passed.
pub open spec fn contains_safe(r: Rect, px: int, py: int) -> bool {
    &&& px >= r.x ==> fits16(rect_right(r))
    &&& px >= r.x && px < rect_right(r) && py >= r.y ==> fits16(rect_bottom(r))
}

/// Whether the point lies in `r`.
pub open spec fn rect_contains(r: Rect, px: int, py: int) -> bool {
    r.x <= px < rect_right(r) && r.y <= py < rect_bottom(r)
}

/// Whether `a` and `b` overlap.
pub open spec fn rect_intersects(a: Rect, b: Rect) -> bool {
    a.x < rect_right(b) && rect_right(a) > b.x && a.y < rect_bottom(b) && rect_bottom(a) > b.y
}

impl Rect {
    /// The rectangle at `(x, y)` of size `w` by `h`.
    pub fn new(x: i16, y: i16, w: u16, h: u16) -> (r: Self)
        ensures
            r == (Rect { x, y, w, h }),
    {
        Rect { x, y, w, h }
    }

    /// Whether `(px, py)` lies in the rectangle.
    pub fn contains(&self, px: i16, py: i16) -> (r: bool)
        requires
            contains_safe(*self, px as int, py as int),
        ensures
            r == rect_contains(*self, px as int, py as int),
    {
        px >= self.x && px < self.x + self.w as i16 && py >= self.y && py < self.y + self.h as i16
    }

    /// Whether the rectangle overlaps `other`.
    pub fn intersects(&self, other: &Rect) -> (r: bool)
        requires
            fits16(rect_right(*other)),
            self.x < rect_right(*other) ==> fits16(rect_right(*self)),
            self.x < rect_right(*other) && rect_right(*self) > other.x ==> fits16(
                rect_bottom(*other),
            ),
            self.x < rect_right(*other) && rect_right(*self) > other.x && self.y < rect_bottom(
                *other,
            ) ==> fits16(rect_bottom(*self)),
        ensures
            r == rect_intersects(*self, *other),
    {
        self.x < other.x + other.w as i16 && self.x + self.w as i16 > other.x && self.y < other.y
            + other.h as i16 && self.y + self.h as i16 > other.y
    }

    /// Makes the rectangle span the corners `(x1, y1)` and `(x2, y2)`: the
    /// smaller coordinates as origin, the distances as size.
    pub fn set_ordered(&mut self, x1: i16, y1: i16, x2: i16, y2: i16)
        requires
            fits16(x2 - x1),
            fits16(y2 - y1),
        ensures
            final(self).x == if x1 <= x2 {
                x1
            } else {
                x2
            },
            final(self).y == if y1 <= y2 {
                y1
            } else {
                y2
            },
            final(self).w == if x2 >= x1 {
                x2 - x1
            } else {
                x1 - x2
            },
            final(self).h == if y2 >= y1 {
                y2 - y1
            } else {
                y1 - y2
            },
    {
        self.x = if x1 <= x2 {
            x1
        } else {
            x2
        };
        self.y = if y1 <= y2 {
            y1
        } else {
            y2
        };
        let dx = x2 - x1;
        let dy = y2 - y1;
        self.w = if dx >= 0 {
            dx as u16
        } else {
            (-(dx as i32)) as u16
        };
        self.h = if dy >= 0 {
            dy as u16
        } else {
            (-(dy as i32)) as u16
        };
    }
}

/// Flag byte bit: the entity is visible.
pub const ENTITY_FLAG_VISIBLE: u8 = 0x01;

/// Flag byte bit: the entity takes part in event dispatch.
pub const ENTITY_FLAG_DISPATCH: u8 = 0x02;

/// Flag byte bit: the entity's destructor is to run.
pub const ENTITY_FLAG_DTOR_ELIGIBLE: u8 = 0x08;

/// Flag byte bit: the entity is modal and blocks events below it.
pub const ENTITY_FLAG_MODAL: u8 = 0x80;

/// Flag byte bit: the entity is positioned relative to its viewport.
pub const ENTITY_FLAG_POSITION_MODE: u8 = 0x40;

/// Flag word bit: the entity takes part in hit testing.
pub const FLAG10_HIT_TEST: u16 = 0x0002;

/// The type tag of an entity, which selects its behavior.
pub type VtableId = u16;

/// A UI entity.
#[derive(Debug)]
pub struct Entity {
    pub vtable_id: VtableId,
    pub rect: Rect,
    pub flags: u16,
    pub flag_byte: u8,
    pub field_11: u16,
    pub viewport_origin: (i16, i16),
    pub work_rect: Rect,
    pub children: Vec<usize>,
    pub parent: Option<usize>,
    pub list_index: Option<usize>,
    pub refcount: u16,
}

/// An entity with its child list as a sequence.
pub struct EntityView {
    pub vtable_id: u16,
    pub rect: Rect,
    pub flags: u16,
    pub flag_byte: u8,
    pub field_11: u16,
    pub viewport_origin: (i16, i16),
    pub work_rect: Rect,
    pub children: Seq<usize>,
    pub parent: Option<usize>,
    pub list_index: Option<usize>,
    pub refcount: u16,
}

impl View for Entity {
    type V = EntityView;

    open spec fn view(&self) -> EntityView {
        EntityView {
            vtable_id: self.vtable_id,
            rect: self.rect,
            flags: self.flags,
            flag_byte: self.flag_byte,
            field_11: self.field_11,
            viewport_origin: self.viewport_origin,
            work_rect: self.work_rect,
            children: self.children@,
            parent: self.parent,
            list_index: self.list_index,
            refcount: self.refcount,
        }
    }
}

/// A fresh entity with tag `vtable_id`: everything else zero or empty.
pub open spec fn new_entity_view(vtable_id: u16) -> EntityView {
    EntityView {
        vtable_id,
        rect: Rect { x: 0, y: 0, w: 0, h: 0 },
        flags: 0,
        flag_byte: 0,
        field_11: 0,
        viewport_origin: (0, 0),
        work_rect: Rect { x: 0, y: 0, w: 0, h: 0 },
        children: Seq::empty(),
        parent: None,
        list_index: None,
        refcount: 0,
    }
}

/// Whether the flag byte has `bit` set.
pub open spec fn has_bit(flag_byte: u8, bit: u8) -> bool {
    flag_byte & bit != 0
}

/// The flag byte with `bit` set or cleared.
pub open spec fn with_bit(flag_byte: u8, bit: u8, on: bool) -> u8 {
    if on {
        flag_byte | bit
    } else {
        flag_byte & !bit
    }
}

/// The flag word with the bits of `mask` set or cleared.
pub open spec fn with_mask(flags: u16, mask: u16, on: bool) -> u16 {
    if on {
        flags | mask
    } else {
        flags & !mask
    }
}

impl Clone for Entity {
    fn clone(&self) -> (e: Self)
        ensures
            e@ == self@,
    {
        Entity {
            vtable_id: self.vtable_id,
            rect: self.rect,
            flags: self.flags,
            flag_byte: self.flag_byte,
            field_11: self.field_11,
            viewport_origin: (self.viewport_origin.0, self.viewport_origin.1),
            work_rect: self.work_rect,
            children: self.children.clone(),
            parent: self.parent,
            list_index: self.list_index,
            refcount: self.refcount,
        }
    }
}

impl Default for Entity {
    fn default() -> (e: Self)
        ensures
            e@ == new_entity_view(0),
    {
        Entity {
            vtable_id: 0,
            rect: Rect::new(0, 0, 0, 0),
            flags: 0,
            flag_byte: 0,
            field_11: 0,
            viewport_origin: (0, 0),
            work_rect: Rect::new(0, 0, 0, 0),
            children: Vec::new(),
            parent: None,
            list_index: None,
            refcount: 0,
        }
    }
}

impl Entity {
    /// A fresh entity with tag `vtable_id`.
    pub fn new(vtable_id: VtableId) -> (e: Self)
        ensures
            e@ == new_entity_view(vtable_id),
    {
        let mut e = Self::default();
        e.vtable_id = vtable_id;
        e
    }

    /// Whether the visible bit is set.
    pub fn is_visible(&self) -> (r: bool)
        ensures
            r == has_bit(self.flag_byte, ENTITY_FLAG_VISIBLE),
    {
        self.flag_byte & ENTITY_FLAG_VISIBLE != 0
    }

    /// Sets or clears the visible bit.
    pub fn set_visible(&mut self, visible: bool)
        ensures
            final(self)@ == (EntityView {
                flag_byte: with_bit(old(self).flag_byte, ENTITY_FLAG_VISIBLE, visible),
                ..old(self)@
            }),
    {
        if visible {
            self.flag_byte = self.flag_byte | ENTITY_FLAG_VISIBLE;
        } else {
            self.flag_byte = self.flag_byte & !ENTITY_FLAG_VISIBLE;
        }
    }

    /// Whether the modal bit is set.
    pub fn is_modal(&self) -> (r: bool)
        ensures
            r == has_bit(self.flag_byte, ENTITY_FLAG_MODAL),
    {
        self.flag_byte & ENTITY_FLAG_MODAL != 0
    }

    /// Sets or clears the modal bit.
    pub fn set_modal(&mut self, modal: bool)
        ensures
            final(self)@ == (EntityView {
                flag_byte: with_bit(old(self).flag_byte, ENTITY_FLAG_MODAL, modal),
                ..old(self)@
            }),
    {
        if modal {
            self.flag_byte = self.flag_byte | ENTITY_FLAG_MODAL;
        } else {
            self.flag_byte = self.flag_byte & !ENTITY_FLAG_MODAL;
        }
    }

    /// Whether the destructor bit is set.
    pub fn is_dtor_eligible(&self) -> (r: bool)
        ensures
            r == has_bit(self.flag_byte, ENTITY_FLAG_DTOR_ELIGIBLE),
    {
        self.flag_byte & ENTITY_FLAG_DTOR_ELIGIBLE != 0
    }

    /// Whether any bit of `mask` is set in the flag word.
    pub fn test_flag10(&self, mask: u16) -> (r: bool)
        ensures
            r == (self.flags & mask != 0),
    {
        self.flags & mask != 0
    }

    /// Sets or clears the bits of `mask` in the flag word.
    pub fn set_flag10(&mut self, mask: u16, set: bool)
        ensures
            final(self)@ == (EntityView { flags: with_mask(old(self).flags, mask, set), ..old(self)@ }),
    {
        if set {
            self.flags = self.flags | mask;
        } else {
            self.flags = self.flags & !mask;
        }
    }

    /// The handler of method slot `offset`: the tag plus the offset,
    /// wrapping at 16 bits.
    pub fn vtable_method(&self, offset: u8) -> (r: u16)
        ensures
            r == vstd::wrapping::u16_specs::wrapping_add(self.vtable_id, offset as u16),
    {
        self.vtable_id.wrapping_add(offset as u16)
    }
}

/// Whether the point hits the entity: it is visible and its rectangle
/// holds the point.
pub fn entity_hit_test(entity: &Entity, px: i16, py: i16) -> (r: bool)
    requires
        has_bit(entity.flag_byte, ENTITY_FLAG_VISIBLE) ==> contains_safe(
            entity.rect,
            px as int,
            py as int,
        ),
    ensures
        r == (has_bit(entity.flag_byte, ENTITY_FLAG_VISIBLE) && rect_contains(
            entity.rect,
            px as int,
            py as int,
        )),
{
    if !entity.is_visible() {
        return false;
    }
    entity.rect.contains(px, py)
}

/// What the entity table holds: the entities by id, the root, and the
/// ids free for reuse (the last one is reused first).
pub struct ManagerView {
    pub entities: Seq<EntityView>,
    pub root_id: Option<usize>,
    pub free_list: Seq<usize>,
}

/// The entity table.
pub struct EntityManager {
    entities: Vec<Entity>,
    root_id: Option<usize>,
    free_list: Vec<usize>,
}

impl View for EntityManager {
    type V = ManagerView;

    closed spec fn view(&self) -> ManagerView {
        ManagerView {
            entities: self.entities@.map_values(|e: Entity| e@),
            root_id: self.root_id,
            free_list: self.free_list@,
        }
    }
}

/// Destroying entity `id` and, first, the trees of its children in
/// order: each destroyed entity is reset and its id appended to the free
/// list. `None` where an id is out of range or the tree is deeper than
/// `fuel`.
pub open spec fn destroy_tree(ents: Seq<EntityView>, free: Seq<usize>, id: usize, fuel: nat) -> Option<
    (Seq<EntityView>, Seq<usize>),
>
    decreases fuel, 0nat, 0nat,
{
    if fuel == 0 || id >= ents.len() {
        None
    } else {
        match destroy_children(ents, free, ents[id as int].children, 0, (fuel - 1) as nat) {
            None => None,
            Some(s) => Some((s.0.update(id as int, new_entity_view(0)), s.1.push(id))),
        }
    }
}

/// Destroying the trees of `cs[k..]` in order (see `destroy_tree`).
pub open spec fn destroy_children(
    ents: Seq<EntityView>,
    free: Seq<usize>,
    cs: Seq<usize>,
    k: int,
    fuel: nat,
) -> Option<(Seq<EntityView>, Seq<usize>)>
    decreases fuel, 1nat, cs.len() - k,
{
    if k < 0 || k >= cs.len() {
        Some((ents, free))
    } else {
        match destroy_tree(ents, free, cs[k], fuel) {
            None => None,
            Some(s) => destroy_children(s.0, s.1, cs, k + 1, fuel),
        }
    }
}

/// The deepest entity under `id` hit by the point: an entity that is
/// hidden or does not take part in hit testing hits nothing; otherwise
/// its children are tried in order, then its own rectangle. `None` where
/// an id is out of range, a rectangle test would overflow, or the tree is
/// deeper than `fuel`.
pub open spec fn hit_deep(ents: Seq<EntityView>, id: usize, px: int, py: int, fuel: nat) -> Option<
    Option<usize>,
>
    decreases fuel, 0nat, 0nat,
{
    if fuel == 0 || id >= ents.len() {
        None
    } else {
        let e = ents[id as int];
        if !has_bit(e.flag_byte, ENTITY_FLAG_VISIBLE) || e.flags & FLAG10_HIT_TEST == 0 {
            Some(None)
        } else {
            match hit_children(ents, e.children, 0, px, py, (fuel - 1) as nat) {
                None => None,
                Some(Some(h)) => Some(Some(h)),
                Some(None) => if !contains_safe(e.rect, px, py) {
                    None
                } else if rect_contains(e.rect, px, py) {
                    Some(Some(id))
                } else {
                    Some(None)
                },
            }
        }
    }
}

/// The first hit among the trees of `cs[k..]` (see `hit_deep`).
pub open spec fn hit_children(
    ents: Seq<EntityView>,
    cs: Seq<usize>,
    k: int,
    px: int,
    py: int,
    fuel: nat,
) -> Option<Option<usize>>
    decreases fuel, 1nat, cs.len() - k,
{
    if k < 0 || k >= cs.len() {
        Some(None)
    } else {
        match hit_deep(ents, cs[k], px, py, fuel) {
            None => None,
            Some(Some(h)) => Some(Some(h)),
            Some(None) => hit_children(ents, cs, k + 1, px, py, fuel),
        }
    }
}

/// More fuel does not change a destruction that succeeds.
proof fn lemma_destroy_tree_more_fuel(ents: Seq<EntityView>, free: Seq<usize>, id: usize, f1: nat, f2: nat)
    requires
        f1 <= f2,
        destroy_tree(ents, free, id, f1) is Some,
    ensures
        destroy_tree(ents, free, id, f2) == destroy_tree(ents, free, id, f1),
    decreases f1, 0nat, 0nat,
{
    lemma_destroy_children_more_fuel(ents, free, ents[id as int].children, 0, (f1 - 1) as nat, (f2 - 1) as nat);
}

proof fn lemma_destroy_children_more_fuel(
    ents: Seq<EntityView>,
    free: Seq<usize>,
    cs: Seq<usize>,
    k: int,
    f1: nat,
    f2: nat,
)
    requires
        f1 <= f2,
        destroy_children(ents, free, cs, k, f1) is Some,
    ensures
        destroy_children(ents, free, cs, k, f2) == destroy_children(ents, free, cs, k, f1),
    decreases f1, 1nat, cs.len() - k,
{
    if 0 <= k < cs.len() {
        lemma_destroy_tree_more_fuel(ents, free, cs[k], f1, f2);
        let s = destroy_tree(ents, free, cs[k], f1).unwrap();
        lemma_destroy_children_more_fuel(s.0, s.1, cs, k + 1, f1, f2);
    }
}

/// Destroying a tree gives one result for every fuel that suffices: the
/// result at a larger fuel, and at any other fuel that succeeds, is the
/// same.
pub proof fn lemma_destroy_tree_fuel(ents: Seq<EntityView>, free: Seq<usize>, id: usize, f1: nat, f2: nat)
    requires
        destroy_tree(ents, free, id, f1) is Some,
    ensures
        f1 <= f2 ==> destroy_tree(ents, free, id, f2) == destroy_tree(ents, free, id, f1),
        destroy_tree(ents, free, id, f2) is Some ==> destroy_tree(ents, free, id, f2) == destroy_tree(
            ents,
            free,
            id,
            f1,
        ),
{
    if f1 <= f2 {
        lemma_destroy_tree_more_fuel(ents, free, id, f1, f2);
    } else if destroy_tree(ents, free, id, f2) is Some {
        lemma_destroy_tree_more_fuel(ents, free, id, f2, f1);
    }
}

/// More fuel does not change a hit test that succeeds.
proof fn lemma_hit_deep_more_fuel(ents: Seq<EntityView>, id: usize, px: int, py: int, f1: nat, f2: nat)
    requires
        f1 <= f2,
        hit_deep(ents, id, px, py, f1) is Some,
    ensures
        hit_deep(ents, id, px, py, f2) == hit_deep(ents, id, px, py, f1),
    decreases f1, 0nat, 0nat,
{
    let e = ents[id as int];
    if has_bit(e.flag_byte, ENTITY_FLAG_VISIBLE) && e.flags & FLAG10_HIT_TEST != 0 {
        lemma_hit_children_more_fuel(ents, e.children, 0, px, py, (f1 - 1) as nat, (f2 - 1) as nat);
    }
}

proof fn lemma_hit_children_more_fuel(
    ents: Seq<EntityView>,
    cs: Seq<usize>,
    k: int,
    px: int,
    py: int,
    f1: nat,
    f2: nat,
)
    requires
        f1 <= f2,
        hit_children(ents, cs, k, px, py, f1) is Some,
    ensures
        hit_children(ents, cs, k, px, py, f2) == hit_children(ents, cs, k, px, py, f1),
    decreases f1, 1nat, cs.len() - k,
{
    if 0 <= k < cs.len() {
        lemma_hit_deep_more_fuel(ents, cs[k], px, py, f1, f2);
        if hit_deep(ents, cs[k], px, py, f1) == Some(None::<usize>) {
            lemma_hit_children_more_fuel(ents, cs, k + 1, px, py, f1, f2);
        }
    }
}

/// A deep hit test gives one result for every fuel that suffices: the
/// result at a larger fuel, and at any other fuel that succeeds, is the
/// same.
pub proof fn lemma_hit_deep_fuel(ents: Seq<EntityView>, id: usize, px: int, py: int, f1: nat, f2: nat)
    requires
        hit_deep(ents, id, px, py, f1) is Some,
    ensures
        f1 <= f2 ==> hit_deep(ents, id, px, py, f2) == hit_deep(ents, id, px, py, f1),
        hit_deep(ents, id, px, py, f2) is Some ==> hit_deep(ents, id, px, py, f2) == hit_deep(
            ents,
            id,
            px,
            py,
            f1,
        ),
{
    if f1 <= f2 {
        lemma_hit_deep_more_fuel(ents, id, px, py, f1, f2);
    } else if hit_deep(ents, id, px, py, f2) is Some {
        lemma_hit_deep_more_fuel(ents, id, px, py, f2, f1);
    }
}

/// `cs` with the first occurrence of `x` moved to the end; unchanged when
/// `x` does not occur.
pub open spec fn moved_to_back(cs: Seq<usize>, x: usize) -> Seq<usize> {
    if cs.contains(x) {
        let pos = choose|p: int| 0 <= p < cs.len() && cs[p] == x && forall|q: int| 0 <= q < p ==> cs[q] != x;
        cs.remove(pos).push(x)
    } else {
        cs
    }
}

/// Creating an entity with tag `vtable_id`: the last free id is reused
/// when there is one, else the entity is appended. Gives the new table and
/// the entity's id.
pub open spec fn create_spec(m: ManagerView, vtable_id: u16) -> (ManagerView, usize) {
    if m.free_list.len() > 0 {
        let id = m.free_list.last();
        (
            ManagerView {
                entities: m.entities.update(id as int, new_entity_view(vtable_id)),
                free_list: m.free_list.drop_last(),
                ..m
            },
            id,
        )
    } else {
        (ManagerView { entities: m.entities.push(new_entity_view(vtable_id)), ..m }, m.entities.len() as usize)
    }
}

/// Linking `child` under `parent`: the child is appended to the parent's
/// children and the parent recorded as the child's parent, each where
/// that entity exists.
pub open spec fn add_child_spec(m: ManagerView, parent: usize, child: usize) -> ManagerView {
    ManagerView {
        entities: Seq::new(
            m.entities.len(),
            |i: int|
                EntityView {
                    children: if i == parent {
                        m.entities[i].children.push(child)
                    } else {
                        m.entities[i].children
                    },
                    parent: if i == child {
                        Some(parent)
                    } else {
                        m.entities[i].parent
                    },
                    ..m.entities[i]
                },
        ),
        ..m
    }
}

/// Every id on the free list names an entity.
pub open spec fn free_ids_valid(m: ManagerView) -> bool {
    forall|k: int| 0 <= k < m.free_list.len() ==> #[trigger] m.free_list[k] < m.entities.len()
}

impl Default for EntityManager {
    fn default() -> (m: Self)
        ensures
            m@ == (ManagerView { entities: Seq::empty(), root_id: None, free_list: Seq::empty() }),
    {
        let m = EntityManager { entities: Vec::new(), root_id: None, free_list: Vec::new() };
        assert(m@.entities =~= Seq::empty());
        m
    }
}

impl EntityManager {
    /// An empty table.
    pub fn new() -> (m: Self)
        ensures
            m@ == (ManagerView { entities: Seq::empty(), root_id: None, free_list: Seq::empty() }),
    {
        Self::default()
    }

    /// Creates an entity with tag `vtable_id`: the last free id is reused
    /// when there is one, else the entity is appended.
    pub fn create(&mut self, vtable_id: VtableId) -> (id: usize)
        requires
            free_ids_valid(old(self)@),
            old(self)@.free_list.len() == 0 ==> old(self)@.entities.len() < usize::MAX,
        ensures
            free_ids_valid(final(self)@),
            (final(self)@, id) == create_spec(old(self)@, vtable_id),
            id < final(self)@.entities.len(),
    {
        let ghost old_ents = self.entities@;
        match self.free_list.pop() {
            Some(free_id) => {
                assert(free_id < old_ents.len());
                self.entities.set(free_id, Entity::new(vtable_id));
                proof {
                    assert(self@.entities =~= old(self)@.entities.update(
                        free_id as int,
                        new_entity_view(vtable_id),
                    ));
                    assert forall|k: int| 0 <= k < self@.free_list.len() implies #[trigger] self@.free_list[k]
                        < self@.entities.len() by {
                        assert(self@.free_list[k] == old(self)@.free_list[k]);
                    }
                }
                free_id
            },
            None => {
                let id = self.entities.len();
                self.entities.push(Entity::new(vtable_id));
                proof {
                    assert(self@.entities =~= old(self)@.entities.push(new_entity_view(vtable_id)));
                }
                id
            },
        }
    }

    /// The entity with id `id`, if there is one.
    pub fn get(&self, id: usize) -> (r: Option<&Entity>)
        ensures
            id < self@.entities.len() ==> (r matches Some(e) && e@ == self@.entities[id as int]),
            id >= self@.entities.len() ==> r is None,
    {
        if id < self.entities.len() {
            Some(&self.entities[id])
        } else {
            None
        }
    }

    /// The entity with id `id`, for changing, if there is one.
    pub fn get_mut(&mut self, id: usize) -> (r: Option<&mut Entity>)
        ensures
            id < old(self)@.entities.len() ==> (r matches Some(e) && e@ == old(self)@.entities[id as int]
                && final(self)@.entities == old(self)@.entities.update(id as int, final(e)@)),
            final(self)@.root_id == old(self)@.root_id,
            final(self)@.free_list == old(self)@.free_list,
            id >= old(self)@.entities.len() ==> r is None && final(self)@ == old(self)@,
    {
        if id < self.entities.len() {
            Some(&mut self.entities[id])
        } else {
            None
        }
    }

    /// Appends `child_id` to the children of `parent_id` and makes
    /// `parent_id` the parent of `child_id`, each where that entity exists.
    pub fn add_child(&mut self, parent_id: usize, child_id: usize)
        ensures
            final(self)@ == add_child_spec(old(self)@, parent_id, child_id),
    {
        if parent_id < self.entities.len() {
            self.entities[parent_id].children.push(child_id);
        }
        if child_id < self.entities.len() {
            self.entities[child_id].parent = Some(parent_id);
        }
        proof {
            assert(self@.entities =~= add_child_spec(old(self)@, parent_id, child_id).entities);
        }
    }

    /// Destroys entity `id` and, first, the trees of its children (see
    /// `destroy_tree`); needs the tree to be finite, with ids in range.
    pub fn destroy(&mut self, id: usize)
        requires
            exists|fuel: nat| #[trigger] destroy_tree(old(self)@.entities, old(self)@.free_list, id, fuel) is Some,
        ensures
            ({
                let fuel = choose|fuel: nat| #[trigger] destroy_tree(old(self)@.entities, old(self)@.free_list, id, fuel) is Some;
                let r = destroy_tree(old(self)@.entities, old(self)@.free_list, id, fuel).unwrap();
                &&& final(self)@.entities == r.0
                &&& final(self)@.free_list == r.1
                &&& final(self)@.root_id == old(self)@.root_id
            }),
            final(self)@.entities.len() == old(self)@.entities.len(),
            free_ids_valid(old(self)@) ==> free_ids_valid(final(self)@),
    {
        let ghost fuel = choose|fuel: nat| #[trigger] destroy_tree(self@.entities, self@.free_list, id, fuel) is Some;
        self.destroy_rec(id, Ghost(fuel));
    }

    fn destroy_rec(&mut self, id: usize, Ghost(fuel): Ghost<nat>)
        requires
            destroy_tree(old(self)@.entities, old(self)@.free_list, id, fuel) is Some,
        ensures
            ({
                let r = destroy_tree(old(self)@.entities, old(self)@.free_list, id, fuel).unwrap();
                &&& final(self)@.entities == r.0
                &&& final(self)@.free_list == r.1
                &&& final(self)@.root_id == old(self)@.root_id
            }),
            final(self)@.entities.len() == old(self)@.entities.len(),
            free_ids_valid(old(self)@) ==> free_ids_valid(final(self)@),
        decreases fuel,
    {
        let ghost e0 = self@.entities;
        let ghost f0 = self@.free_list;
        let children: Vec<usize> = self.entities[id].children.clone();
        let ghost cs = children@;
        assert(cs == e0[id as int].children);
        let ghost target = destroy_children(e0, f0, cs, 0, (fuel - 1) as nat);
        let mut k: usize = 0;
        while k < children.len()
            invariant
                k <= children@.len(),
                children@ == cs,
                fuel > 0,
                id < e0.len(),
                target == destroy_children(e0, f0, cs, 0, (fuel - 1) as nat),
                target is Some,
                destroy_children(self@.entities, self@.free_list, cs, k as int, (fuel - 1) as nat) == target,
                self@.root_id == old(self)@.root_id,
                self@.entities.len() == e0.len(),
                e0 == old(self)@.entities,
                free_ids_valid(old(self)@) ==> free_ids_valid(self@),
            decreases children@.len() - k,
        {
            let ghost before = (self@.entities, self@.free_list);
            self.destroy_rec(children[k], Ghost((fuel - 1) as nat));
            proof {
                let t = destroy_tree(before.0, before.1, cs[k as int], (fuel - 1) as nat).unwrap();
                lemma_destroy_len(before.0, before.1, cs[k as int], (fuel - 1) as nat);
            }
            k = k + 1;
        }
        let ghost before_push = self@;
        self.entities.set(id, Entity::default());
        self.free_list.push(id);
        proof {
            assert(self@.entities =~= target.unwrap().0.update(id as int, new_entity_view(0)));
            if free_ids_valid(old(self)@) {
                assert forall|j: int| 0 <= j < self@.free_list.len() implies #[trigger] self@.free_list[j]
                    < self@.entities.len() by {
                    if j < before_push.free_list.len() {
                        assert(self@.free_list[j] == before_push.free_list[j]);
                    }
                }
            }
        }
    }

    /// The deepest entity under `root_id` hit by the point (see
    /// `hit_deep`); needs the tree to be finite, with ids in range and no
    /// rectangle test overflowing.
    pub fn hit_test_deep(&self, root_id: usize, px: i16, py: i16) -> (r: Option<usize>)
        requires
            exists|fuel: nat| #[trigger] hit_deep(self@.entities, root_id, px as int, py as int, fuel) is Some,
        ensures
            ({
                let fuel = choose|fuel: nat| #[trigger] hit_deep(self@.entities, root_id, px as int, py as int, fuel) is Some;
                r == hit_deep(self@.entities, root_id, px as int, py as int, fuel).unwrap()
            }),
    {
        let ghost fuel = choose|fuel: nat| #[trigger] hit_deep(self@.entities, root_id, px as int, py as int, fuel) is Some;
        self.hit_rec(root_id, px, py, Ghost(fuel))
    }

    fn hit_rec(&self, id: usize, px: i16, py: i16, Ghost(fuel): Ghost<nat>) -> (r: Option<usize>)
        requires
            hit_deep(self@.entities, id, px as int, py as int, fuel) is Some,
        ensures
            r == hit_deep(self@.entities, id, px as int, py as int, fuel).unwrap(),
        decreases fuel,
    {
        let ghost ents = self@.entities;
        let entity = &self.entities[id];
        assert(entity@ == ents[id as int]);
        if !entity.is_visible() || !entity.test_flag10(FLAG10_HIT_TEST) {
            return None;
        }
        let ghost cs = entity@.children;
        let mut k: usize = 0;
        while k < entity.children.len()
            invariant
                k <= cs.len(),
                id < ents.len(),
                entity@ == ents[id as int],
                ents == self@.entities,
                has_bit(entity.flag_byte, ENTITY_FLAG_VISIBLE),
                entity.flags & FLAG10_HIT_TEST != 0,
                hit_deep(ents, id, px as int, py as int, fuel) is Some,
                cs == entity@.children,
                fuel > 0,
                hit_children(ents, cs, 0, px as int, py as int, (fuel - 1) as nat) is Some,
                hit_children(ents, cs, k as int, px as int, py as int, (fuel - 1) as nat) == hit_children(
                    ents,
                    cs,
                    0,
                    px as int,
                    py as int,
                    (fuel - 1) as nat,
                ),
            decreases cs.len() - k,
        {
            let child_id = entity.children[k];
            match self.hit_rec(child_id, px, py, Ghost((fuel - 1) as nat)) {
                Some(hit_id) => {
                    return Some(hit_id);
                },
                None => {},
            }
            k = k + 1;
        }
        if entity.rect.contains(px, py) {
            Some(id)
        } else {
            None
        }
    }

    /// Moves entity `id` to the end of its parent's children, where it is
    /// listed there.
    pub fn bring_to_front(&mut self, id: usize)
        requires
            id < old(self)@.entities.len(),
            old(self)@.entities[id as int].parent matches Some(p) ==> p < old(self)@.entities.len(),
        ensures
            final(self)@.root_id == old(self)@.root_id,
            final(self)@.free_list == old(self)@.free_list,
            old(self)@.entities[id as int].parent is None ==> final(self)@ == old(self)@,
            old(self)@.entities[id as int].parent matches Some(p) ==> final(self)@.entities == old(
                self,
            )@.entities.update(
                p as int,
                EntityView {
                    children: moved_to_back(old(self)@.entities[p as int].children, id),
                    ..old(self)@.entities[p as int]
                },
            ),
    {
        match self.entities[id].parent {
            Some(parent_id) => {
                let ghost cs = self@.entities[parent_id as int].children;
                let mut pos: usize = 0;
                let n = self.entities[parent_id].children.len();
                while pos < n
                    invariant
                        pos <= n,
                        n == cs.len(),
                        parent_id < self@.entities.len(),
                        self@ == old(self)@,
                        cs == self@.entities[parent_id as int].children,
                        forall|q: int| 0 <= q < pos ==> cs[q] != id,
                    ensures
                        pos <= n,
                        self@ == old(self)@,
                        forall|q: int| 0 <= q < pos ==> cs[q] != id,
                        pos < n ==> cs[pos as int] == id,
                    decreases n - pos,
                {
                    if self.entities[parent_id].children[pos] == id {
                        break;
                    }
                    pos = pos + 1;
                }
                if pos < n {
                    let child = self.entities[parent_id].children.remove(pos);
                    self.entities[parent_id].children.push(child);
                    proof {
                        assert(cs.contains(id));
                        let p = choose|p: int| 0 <= p < cs.len() && cs[p] == id && forall|q: int| 0 <= q < p ==> cs[q] != id;
                        assert(p == pos);
                        assert(self@.entities =~= old(self)@.entities.update(
                            parent_id as int,
                            EntityView {
                                children: moved_to_back(cs, id),
                                ..old(self)@.entities[parent_id as int]
                            },
                        ));
                    }
                } else {
                    proof {
                        assert(!cs.contains(id));
                        assert(self@.entities =~= old(self)@.entities.update(
                            parent_id as int,
                            EntityView {
                                children: moved_to_back(cs, id),
                                ..old(self)@.entities[parent_id as int]
                            },
                        ));
                    }
                }
            },
            None => {},
        }
    }
}

/// Destroying an entity resets it and frees its id last, so the next
/// entity created reuses that id.
pub proof fn lemma_destroy_then_create(m: ManagerView, id: usize, fuel: nat, vtable_id: u16)
    requires
        destroy_tree(m.entities, m.free_list, id, fuel) is Some,
    ensures
        ({
            let r = destroy_tree(m.entities, m.free_list, id, fuel).unwrap();
            let after = ManagerView { entities: r.0, root_id: m.root_id, free_list: r.1 };
            &&& r.0[id as int] == new_entity_view(0)
            &&& create_spec(after, vtable_id).1 == id
            &&& create_spec(after, vtable_id).0.entities[id as int] == new_entity_view(vtable_id)
        }),
{
    let s = destroy_children(m.entities, m.free_list, m.entities[id as int].children, 0, (fuel - 1) as nat).unwrap();
    lemma_destroy_children_len(m.entities, m.free_list, m.entities[id as int].children, 0, (fuel - 1) as nat);
}

/// Destroying a tree keeps the number of entities.
proof fn lemma_destroy_len(ents: Seq<EntityView>, free: Seq<usize>, id: usize, fuel: nat)
    requires
        destroy_tree(ents, free, id, fuel) is Some,
    ensures
        destroy_tree(ents, free, id, fuel).unwrap().0.len() == ents.len(),
    decreases fuel, 0nat, 0nat,
{
    lemma_destroy_children_len(ents, free, ents[id as int].children, 0, (fuel - 1) as nat);
}

/// Destroying a list of trees keeps the number of entities.
proof fn lemma_destroy_children_len(
    ents: Seq<EntityView>,
    free: Seq<usize>,
    cs: Seq<usize>,
    k: int,
    fuel: nat,
)
    requires
        destroy_children(ents, free, cs, k, fuel) is Some,
    ensures
        destroy_children(ents, free, cs, k, fuel).unwrap().0.len() == ents.len(),
    decreases fuel, 1nat, cs.len() - k,
{
    if 0 <= k < cs.len() {
        lemma_destroy_len(ents, free, cs[k], fuel);
        let s = destroy_tree(ents, free, cs[k], fuel).unwrap();
        lemma_destroy_children_len(s.0, s.1, cs, k + 1, fuel);
    }
}

} // verus!
