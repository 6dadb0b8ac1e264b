//! The dialog engine: flag-selected buttons, direct return, and the
//! input event loop.

use vstd::prelude::*;
use crate::ui::entity::{
    EntityManager,
    EntityView,
    ManagerView,
    Rect,
    create_spec,
    free_ids_valid,
};
use crate::ui::vtable_tags;

pub use crate::ui::dialog_flags;

verus! {

/// What a dialog returns.
#[derive(Debug, Clone, Copy, PartialEq, Eq, Structural)]
pub enum DialogResult {
    Confirm,
    Cancel,
    Yes,
    No,
    Selected(usize),
    Toggle,
    NoResult,
}

/// The dialog engine's state.
pub struct DialogEngine {
    pub mode_flag: bool,
    pub ready_flag: bool,
    pub result_value: i16,
    pub entities: EntityManager,
    pub text: String,
    pub options: Vec<String>,
    pub mapping: Vec<u8>,
}

/// Entity `id` given rectangle `r`, where it exists.
pub open spec fn with_rect(m: ManagerView, id: usize, r: Rect) -> ManagerView {
    if id < m.entities.len() {
        ManagerView {
            entities: m.entities.update(id as int, EntityView { rect: r, ..m.entities[id as int] }),
            ..m
        }
    } else {
        m
    }
}

/// A button created and placed at `r`.
pub open spec fn button_at(m: ManagerView, r: Rect) -> ManagerView {
    let (m1, b) = create_spec(m, vtable_tags::BUTTON);
    with_rect(m1, b, r)
}

/// The entity table after a dialog is laid out for `flags`: the list
/// container, window frame and content entities, then yes and no buttons,
/// a cancel button and a confirm button as the flags select them.
pub open spec fn dialog_layout(m: ManagerView, flags: u8) -> ManagerView {
    let m1 = create_spec(
        create_spec(create_spec(m, 0xA476).0, vtable_tags::WINDOW).0,
        0xA61E,
    ).0;
    let m2 = if flags & dialog_flags::YES_NO != 0 {
        let (ma, yes) = create_spec(m1, vtable_tags::BUTTON);
        let (mb, no) = create_spec(ma, vtable_tags::BUTTON);
        with_rect(
            with_rect(mb, yes, Rect { x: 200, y: 300, w: 80, h: 30 }),
            no,
            Rect { x: 300, y: 300, w: 80, h: 30 },
        )
    } else {
        m1
    };
    let m3 = if flags & dialog_flags::CANCEL != 0 {
        button_at(m2, Rect { x: 250, y: 300, w: 80, h: 30 })
    } else {
        m2
    };
    if flags & dialog_flags::CONFIRM != 0 {
        button_at(m3, Rect { x: 250, y: 300, w: 80, h: 30 })
    } else {
        m3
    }
}

/// What `show` returns: with direct return, the first option when there
/// are options and nothing otherwise; through the event loop, nothing,
/// since no input arrives.
pub open spec fn show_result(flags: u8, n_options: nat) -> DialogResult {
    if flags & dialog_flags::DIRECT_RETURN != 0 && n_options > 0 {
        DialogResult::Selected(0)
    } else {
        DialogResult::NoResult
    }
}

/// What a dialog answers: with direct return, the first option when it
/// has options and nothing when it has none; without it, nothing, as no
/// input reaches the event loop.
pub proof fn lemma_show_result_cases(flags: u8, n_options: nat)
    ensures
        flags & dialog_flags::DIRECT_RETURN != 0 ==> show_result(flags, n_options) == if n_options > 0 {
            DialogResult::Selected(0)
        } else {
            DialogResult::NoResult
        },
        flags & dialog_flags::DIRECT_RETURN == 0 ==> show_result(flags, n_options) == DialogResult::NoResult,
{
}

/// Placing a rectangle keeps the free ids valid and the table's size.
proof fn lemma_with_rect(m: ManagerView, id: usize, r: Rect)
    requires
        free_ids_valid(m),
    ensures
        free_ids_valid(with_rect(m, id, r)),
        with_rect(m, id, r).entities.len() == m.entities.len(),
{
}

impl Default for DialogEngine {
    fn default() -> (d: Self)
        ensures
            !d.mode_flag,
            !d.ready_flag,
            d.result_value == -1,
            d.entities@ == (ManagerView { entities: Seq::empty(), root_id: None, free_list: Seq::empty() }),
            d.text@ == Seq::<char>::empty(),
            d.options@ == Seq::<String>::empty(),
            d.mapping@ == Seq::<u8>::empty(),
    {
        DialogEngine {
            mode_flag: false,
            ready_flag: false,
            result_value: -1,
            entities: EntityManager::new(),
            text: String::new(),
            options: Vec::new(),
            mapping: Vec::new(),
        }
    }
}

impl DialogEngine {
    /// An idle engine with an empty entity table.
    pub fn new() -> (d: Self)
        ensures
            !d.mode_flag,
            !d.ready_flag,
            d.result_value == -1,
            d.entities@ == (ManagerView { entities: Seq::empty(), root_id: None, free_list: Seq::empty() }),
            d.text@ == Seq::<char>::empty(),
            d.options@ == Seq::<String>::empty(),
            d.mapping@ == Seq::<u8>::empty(),
    {
        Self::default()
    }

    /// Shows a dialog: stores the text, options and mapping, lays out the
    /// entities for `flags` (see `dialog_layout`), then returns at once
    /// with direct return or runs the event loop (see `show_result`).
    pub fn show(
        &mut self,
        text: &str,
        flags: u8,
        options: Option<Vec<String>>,
        mapping: Option<Vec<u8>>,
    ) -> (r: DialogResult)
        requires
            free_ids_valid(old(self).entities@),
            old(self).entities@.entities.len() + 7 <= usize::MAX,
        ensures
            r == show_result(
                flags,
                match options {
                    Some(o) => o@.len(),
                    None => 0,
                },
            ),
            final(self).text@ == text@,
            final(self).options@ == match options {
                Some(o) => o@,
                None => Seq::<String>::empty(),
            },
            final(self).mapping@ == match mapping {
                Some(m) => m@,
                None => Seq::<u8>::empty(),
            },
            final(self).entities@ == dialog_layout(old(self).entities@, flags),
            final(self).mode_flag == old(self).mode_flag,
            flags & dialog_flags::DIRECT_RETURN != 0 ==> final(self).ready_flag == old(self).ready_flag
                && final(self).result_value == old(self).result_value,
            flags & dialog_flags::DIRECT_RETURN == 0 ==> !final(self).ready_flag
                && final(self).result_value == -1,
    {
        self.text = text.to_owned();
        self.options = match options {
            Some(o) => o,
            None => Vec::new(),
        };
        self.mapping = match mapping {
            Some(m) => m,
            None => Vec::new(),
        };
        let ghost m0 = self.entities@;
        self.init_vtables();
        self.render_text();
        let ghost m1 = self.entities@;
        if flags & dialog_flags::YES_NO != 0 {
            self.create_yes_no_buttons();
        }
        let ghost m2 = self.entities@;
        if flags & dialog_flags::CANCEL != 0 {
            self.create_cancel_button();
        }
        let ghost m3 = self.entities@;
        if flags & dialog_flags::CONFIRM != 0 {
            self.create_confirm_button();
        }
        if flags & dialog_flags::DIRECT_RETURN != 0 {
            return self.process_direct_return();
        }
        self.event_loop(flags)
    }

    /// Creates the list container, window frame and content entities.
    fn init_vtables(&mut self)
        requires
            free_ids_valid(old(self).entities@),
            old(self).entities@.entities.len() + 7 <= usize::MAX,
        ensures
            free_ids_valid(final(self).entities@),
            final(self).entities@ == create_spec(
                create_spec(create_spec(old(self).entities@, 0xA476).0, vtable_tags::WINDOW).0,
                0xA61E,
            ).0,
            final(self).entities@.entities.len() <= old(self).entities@.entities.len() + 3,
            final(self).mode_flag == old(self).mode_flag,
            final(self).ready_flag == old(self).ready_flag,
            final(self).result_value == old(self).result_value,
            final(self).text@ == old(self).text@,
            final(self).options@ == old(self).options@,
            final(self).mapping@ == old(self).mapping@,
    {
        let _list_container = self.entities.create(0xA476);
        let _window_frame = self.entities.create(vtable_tags::WINDOW);
        let _content = self.entities.create(0xA61E);
    }

    /// Draws the text; the text has no drawing of its own here.
    fn render_text(&self) {
    }

    /// Creates the yes and no buttons and places them.
    fn create_yes_no_buttons(&mut self)
        requires
            free_ids_valid(old(self).entities@),
            old(self).entities@.entities.len() + 4 <= usize::MAX,
        ensures
            free_ids_valid(final(self).entities@),
            ({
                let (ma, yes) = create_spec(old(self).entities@, vtable_tags::BUTTON);
                let (mb, no) = create_spec(ma, vtable_tags::BUTTON);
                final(self).entities@ == with_rect(
                    with_rect(mb, yes, Rect { x: 200, y: 300, w: 80, h: 30 }),
                    no,
                    Rect { x: 300, y: 300, w: 80, h: 30 },
                )
            }),
            final(self).entities@.entities.len() <= old(self).entities@.entities.len() + 2,
            final(self).mode_flag == old(self).mode_flag,
            final(self).ready_flag == old(self).ready_flag,
            final(self).result_value == old(self).result_value,
            final(self).text@ == old(self).text@,
            final(self).options@ == old(self).options@,
            final(self).mapping@ == old(self).mapping@,
    {
        let yes_btn = self.entities.create(vtable_tags::BUTTON);
        let no_btn = self.entities.create(vtable_tags::BUTTON);
        let ghost mb = self.entities@;
        match self.entities.get_mut(yes_btn) {
            Some(entity) => {
                entity.rect = Rect::new(200, 300, 80, 30);
            },
            None => {},
        }
        proof {
            assert(self.entities@.entities =~= with_rect(
                mb,
                yes_btn,
                Rect { x: 200, y: 300, w: 80, h: 30 },
            ).entities);
            lemma_with_rect(mb, yes_btn, Rect { x: 200, y: 300, w: 80, h: 30 });
        }
        let ghost mc = self.entities@;
        match self.entities.get_mut(no_btn) {
            Some(entity) => {
                entity.rect = Rect::new(300, 300, 80, 30);
            },
            None => {},
        }
        proof {
            assert(self.entities@.entities =~= with_rect(
                mc,
                no_btn,
                Rect { x: 300, y: 300, w: 80, h: 30 },
            ).entities);
            lemma_with_rect(mc, no_btn, Rect { x: 300, y: 300, w: 80, h: 30 });
        }
    }

    /// Creates a button and places it at `(250, 300)`.
    fn create_placed_button(&mut self)
        requires
            free_ids_valid(old(self).entities@),
            old(self).entities@.entities.len() + 1 <= usize::MAX,
        ensures
            free_ids_valid(final(self).entities@),
            final(self).entities@ == button_at(old(self).entities@, Rect { x: 250, y: 300, w: 80, h: 30 }),
            final(self).entities@.entities.len() <= old(self).entities@.entities.len() + 1,
            final(self).mode_flag == old(self).mode_flag,
            final(self).ready_flag == old(self).ready_flag,
            final(self).result_value == old(self).result_value,
            final(self).text@ == old(self).text@,
            final(self).options@ == old(self).options@,
            final(self).mapping@ == old(self).mapping@,
    {
        let btn = self.entities.create(vtable_tags::BUTTON);
        let ghost m1 = self.entities@;
        match self.entities.get_mut(btn) {
            Some(entity) => {
                entity.rect = Rect::new(250, 300, 80, 30);
            },
            None => {},
        }
        proof {
            assert(self.entities@.entities =~= with_rect(
                m1,
                btn,
                Rect { x: 250, y: 300, w: 80, h: 30 },
            ).entities);
            lemma_with_rect(m1, btn, Rect { x: 250, y: 300, w: 80, h: 30 });
        }
    }

    /// Creates the cancel button.
    fn create_cancel_button(&mut self)
        requires
            free_ids_valid(old(self).entities@),
            old(self).entities@.entities.len() + 1 <= usize::MAX,
        ensures
            free_ids_valid(final(self).entities@),
            final(self).entities@ == button_at(old(self).entities@, Rect { x: 250, y: 300, w: 80, h: 30 }),
            final(self).entities@.entities.len() <= old(self).entities@.entities.len() + 1,
            final(self).mode_flag == old(self).mode_flag,
            final(self).ready_flag == old(self).ready_flag,
            final(self).result_value == old(self).result_value,
            final(self).text@ == old(self).text@,
            final(self).options@ == old(self).options@,
            final(self).mapping@ == old(self).mapping@,
    {
        self.create_placed_button();
    }

    /// Creates the confirm button.
    fn create_confirm_button(&mut self)
        requires
            free_ids_valid(old(self).entities@),
            old(self).entities@.entities.len() + 1 <= usize::MAX,
        ensures
            free_ids_valid(final(self).entities@),
            final(self).entities@ == button_at(old(self).entities@, Rect { x: 250, y: 300, w: 80, h: 30 }),
            final(self).entities@.entities.len() <= old(self).entities@.entities.len() + 1,
            final(self).mode_flag == old(self).mode_flag,
            final(self).ready_flag == old(self).ready_flag,
            final(self).result_value == old(self).result_value,
            final(self).text@ == old(self).text@,
            final(self).options@ == old(self).options@,
            final(self).mapping@ == old(self).mapping@,
    {
        self.create_placed_button();
    }

    /// The result of a direct-return dialog: the first option, if any.
    fn process_direct_return(&self) -> (r: DialogResult)
        ensures
            r == (if self.options@.len() > 0 {
                DialogResult::Selected(0)
            } else {
                DialogResult::NoResult
            }),
    {
        if self.options.len() > 0 {
            DialogResult::Selected(0)
        } else {
            DialogResult::NoResult
        }
    }

    /// Waits for input and interprets it: 0xFFD toggles the mode and waits
    /// again, 0xFFE cancels, 0xFFF answers yes, a value up to 0xFF selects
    /// (through the mapping table in selection mode); anything else gives
    /// nothing. No input arrives, so the wait gives -1 and the result is
    /// nothing.
    fn event_loop(&mut self, flags: u8) -> (r: DialogResult)
        ensures
            r == DialogResult::NoResult,
            final(self).mode_flag == old(self).mode_flag,
            !final(self).ready_flag,
            final(self).result_value == -1,
            final(self).entities@ == old(self).entities@,
            final(self).text@ == old(self).text@,
            final(self).options@ == old(self).options@,
            final(self).mapping@ == old(self).mapping@,
    {
        loop
            invariant
                self.mode_flag == old(self).mode_flag,
                self.entities@ == old(self).entities@,
                self.text@ == old(self).text@,
                self.options@ == old(self).options@,
                self.mapping@ == old(self).mapping@,
            decreases 1nat,
        {
            let result = self.input_wait();
            if result == 0xFFD {
                self.mode_flag = !self.mode_flag;
                continue;
            } else if result == 0xFFE {
                return DialogResult::Cancel;
            } else if result == 0xFFF {
                return DialogResult::Yes;
            } else if 0 <= result && result <= 0xFF {
                if flags & dialog_flags::SELECTION != 0 {
                    let mapped = if (result as usize) < self.mapping.len() {
                        self.mapping[result as usize] as usize
                    } else {
                        result as usize
                    };
                    return DialogResult::Selected(mapped);
                }
                return DialogResult::NoResult;
            } else {
                return DialogResult::NoResult;
            }
        }
    }

    /// Clears the ready flag and the result and processes input until a
    /// completion arrives; no input source is attached, so it returns at
    /// once with -1.
    pub fn input_wait(&mut self) -> (r: i16)
        ensures
            r == -1,
            !final(self).ready_flag,
            final(self).result_value == -1,
            final(self).mode_flag == old(self).mode_flag,
            final(self).entities@ == old(self).entities@,
            final(self).text@ == old(self).text@,
            final(self).options@ == old(self).options@,
            final(self).mapping@ == old(self).mapping@,
    {
        self.ready_flag = false;
        self.result_value = -1;
        self.result_value
    }

    /// Handles an event: type 2 signals completion with `event_data` as
    /// the result (its bits read as signed); other events change nothing.
    pub fn event_dispatch(&mut self, event_type: u16, event_data: u16)
        ensures
            event_type == 2 ==> final(self).ready_flag && final(self).result_value == event_data as i16,
            event_type != 2 ==> final(self).ready_flag == old(self).ready_flag
                && final(self).result_value == old(self).result_value,
            final(self).mode_flag == old(self).mode_flag,
            final(self).entities@ == old(self).entities@,
            final(self).text@ == old(self).text@,
            final(self).options@ == old(self).options@,
            final(self).mapping@ == old(self).mapping@,
    {
        if event_type == 2 {
            self.ready_flag = true;
            self.result_value = event_data as i16;
        }
    }
}

/// Shows a dialog with `flags` on a fresh engine.
pub fn show_simple(text: &str, flags: u8) -> (r: DialogResult)
    ensures
        r == show_result(flags, 0),
{
    let mut engine = DialogEngine::new();
    engine.show(text, flags, None, None)
}

/// Shows a dialog with a cancel button on a fresh engine.
pub fn show_with_cancel(text: &str) -> (r: DialogResult)
    ensures
        r == show_result(dialog_flags::CANCEL, 0),
{
    show_simple(text, dialog_flags::CANCEL)
}

/// Shows a selection dialog over `options` and `mapping` on a fresh
/// engine.
pub fn show_with_selection(text: &str, options: Vec<String>, mapping: Vec<u8>) -> (r: DialogResult)
    ensures
        r == show_result(dialog_flags::SELECTION, options@.len()),
{
    let mut engine = DialogEngine::new();
    engine.show(text, dialog_flags::SELECTION, Some(options), Some(mapping))
}

} // verus!
