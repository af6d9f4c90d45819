//! Caret movement, deletion and Shift+Arrow selection in Composing.

use vstd::prelude::*;
use super::composing::{shows_composition, backspaced, deleted};
use super::{aux_silent, same_sources, InputMethodEngine, InputMode, EngineResult, EngineAction, CAPACITY, commit_of};
use crate::keys::Keysym;
use crate::buffer::{spec_settle, spec_set_cursor, spec_extend_selection, settled_model, BufferModel};

verus! {

/// Where a caret movement goes.
pub enum CaretTarget {
    Left,
    Right,
    Home,
    End,
}

/// The caret position a movement from `cursor` reaches in a reading of
/// `len` characters.
pub open spec fn spec_target_pos(t: CaretTarget, cursor: int, len: int) -> int {
    match t {
        CaretTarget::Left => if cursor > 0 { cursor - 1 } else { 0 },
        CaretTarget::Right => cursor + 1,
        CaretTarget::Home => 0,
        CaretTarget::End => len,
    }
}

/// The caret movement an arrow key (or Home, End) makes.
pub open spec fn caret_key(k: Keysym) -> Option<CaretTarget> {
    match k {
        Keysym::LEFT => Some(CaretTarget::Left),
        Keysym::RIGHT => Some(CaretTarget::Right),
        Keysym::HOME => Some(CaretTarget::Home),
        Keysym::END => Some(CaretTarget::End),
        _ => None,
    }
}

fn target_pos(t: &CaretTarget, cursor: usize, len: usize) -> (p: usize)
    requires
        cursor <= len < usize::MAX,
    ensures
        p == spec_target_pos(*t, cursor as int, len as int),
{
    match t {
        CaretTarget::Left => if cursor > 0 { cursor - 1 } else { 0 },
        CaretTarget::Right => cursor + 1,
        CaretTarget::Home => 0,
        CaretTarget::End => len,
    }
}

/// The buffer after moving the caret by `t`: the selection goes; nothing
/// settles.
pub open spec fn caret_moved(m: BufferModel, t: CaretTarget) -> BufferModel {
    spec_set_cursor(m, spec_target_pos(t, m.cursor, m.text.len() as int))
}

/// The buffer after extending the selection by `t`; nothing settles.
pub open spec fn selection_extended(m: BufferModel, t: CaretTarget) -> BufferModel {
    spec_extend_selection(m, spec_target_pos(t, m.cursor, m.text.len() as int))
}

/// The buffer a selection is made in: the composition as shown, so a
/// shown live conversion is first baked in (with the pending keys after
/// it); one too long to bake is dropped and the pending keys settle.
pub open spec fn selection_base(e: InputMethodEngine) -> BufferModel {
    if e.live.text@.len() == 0 {
        e.input_buf@
    } else if e.live.text@.len() + e.input_buf@.live.len() <= CAPACITY {
        settled_model(e.live.text@ + e.input_buf@.live)
    } else {
        spec_settle(e.input_buf@)
    }
}

/// A caret movement by `t` in Composing: the caret moves (nothing
/// settles, the selection goes), a shown live conversion is dropped, a
/// temporary alphabet word ends; the preedit is redrawn, the candidate
/// window hidden and the aux line updated, in that order.
pub open spec fn caret_move_done(pre: InputMethodEngine, post: InputMethodEngine, r: EngineResult, t: CaretTarget) -> bool {
    &&& same_sources(pre, post)
    &&& r.consumed
    &&& commit_of(r.actions@) is None
    &&& post.input_buf@ == caret_moved(pre.input_buf@, t)
    &&& post.input_mode == (if pre.input_mode == InputMode::Alphabet { InputMode::Hiragana } else { pre.input_mode })
    &&& post.live.text@.len() == 0
    &&& shows_composition(post)
    &&& r.actions@.len() == 3
    &&& r.actions@[0] matches EngineAction::UpdatePreedit(p) && p.text_view() == post.spec_composing_text()
    &&& r.actions@[1] is HideCandidates
    &&& r.actions@[2] matches EngineAction::UpdateAuxText(a) && a@ == post.spec_aux_composing()
}

impl InputMethodEngine {
    /// Move the caret: the live conversion is dropped, the selection goes
    /// and a temporary alphabet word ends; pending keys stay pending.
    fn move_caret(&mut self, target: CaretTarget) -> (r: EngineResult)
        requires
            old(self).wf(),
        ensures
            same_sources(*old(self), *final(self)),
            final(self).learning == old(self).learning,
            final(self).wf(),
            final(self).config == old(self).config,
            !old(self).config.show_aux_text ==> aux_silent(r.actions@),
            caret_move_done(*old(self), *final(self), r, target),
    {
        if self.input_mode == InputMode::Alphabet {
            self.input_mode = InputMode::Hiragana;
        }
        self.live.text = String::new();
        let pos = target_pos(&target, self.input_buf.cursor(), self.input_buf.char_count());
        self.input_buf.set_cursor(pos);
        let preedit = self.set_composing_state();
        let aux = self.format_aux_composing();
        EngineResult::consumed()
            .with_action(EngineAction::UpdatePreedit(preedit))
            .with_action(EngineAction::HideCandidates)
            .with_action(EngineAction::UpdateAuxText(aux))
    }

    /// Backspace in Composing: remove one displayed character before the
    /// caret (a pending key, else a settled character, taking back a key
    /// that can still combine); an emptied composition returns to Empty.
    pub(crate) fn backspace_composing(&mut self) -> (r: EngineResult)
        requires
            old(self).wf(),
        ensures
            same_sources(*old(self), *final(self)),
            final(self).learning == old(self).learning,
            final(self).wf(),
            final(self).config == old(self).config,
            !old(self).config.show_aux_text ==> aux_silent(r.actions@),
            r.consumed,
            commit_of(r.actions@) is None,
            backspaced(*old(self), *final(self), r),
    {
        let reading_before = self.input_buf.reading_chars();
        if !self.input_buf.backspace() {
            return EngineResult::consumed();
        }
        if let Some(result) = self.try_reset_if_empty() {
            return result;
        }
        let reading_after = self.input_buf.reading_chars();
        if crate::text::chars_eq(reading_before.as_slice(), reading_after.as_slice()) {
            // Only a pending key went: the candidates stay as they are.
            let preedit = self.set_composing_state();
            let aux = self.format_aux_composing();
            return EngineResult::consumed()
                .with_action(EngineAction::UpdatePreedit(preedit))
                .with_action(EngineAction::UpdateAuxText(aux));
        }
        self.refresh_input_state()
    }

    pub(crate) fn move_caret_left(&mut self) -> (r: EngineResult)
        requires
            old(self).wf(),
        ensures
            same_sources(*old(self), *final(self)),
            final(self).learning == old(self).learning,
            final(self).wf(),
            final(self).config == old(self).config,
            !old(self).config.show_aux_text ==> aux_silent(r.actions@),
            caret_move_done(*old(self), *final(self), r, CaretTarget::Left),
    {
        self.move_caret(CaretTarget::Left)
    }

    pub(crate) fn move_caret_right(&mut self) -> (r: EngineResult)
        requires
            old(self).wf(),
        ensures
            same_sources(*old(self), *final(self)),
            final(self).learning == old(self).learning,
            final(self).wf(),
            final(self).config == old(self).config,
            !old(self).config.show_aux_text ==> aux_silent(r.actions@),
            caret_move_done(*old(self), *final(self), r, CaretTarget::Right),
    {
        self.move_caret(CaretTarget::Right)
    }

    /// Delete in Composing: remove the character after the caret.
    pub(crate) fn delete_composing(&mut self) -> (r: EngineResult)
        requires
            old(self).wf(),
        ensures
            same_sources(*old(self), *final(self)),
            final(self).learning == old(self).learning,
            final(self).wf(),
            final(self).config == old(self).config,
            !old(self).config.show_aux_text ==> aux_silent(r.actions@),
            r.consumed,
            commit_of(r.actions@) is None,
            deleted(*old(self), *final(self), r),
    {
        if !self.input_buf.delete_at_cursor() {
            return EngineResult::consumed();
        }
        if let Some(result) = self.try_reset_if_empty() {
            return result;
        }
        self.refresh_input_state()
    }

    pub(crate) fn move_caret_home(&mut self) -> (r: EngineResult)
        requires
            old(self).wf(),
        ensures
            same_sources(*old(self), *final(self)),
            final(self).learning == old(self).learning,
            final(self).wf(),
            final(self).config == old(self).config,
            !old(self).config.show_aux_text ==> aux_silent(r.actions@),
            caret_move_done(*old(self), *final(self), r, CaretTarget::Home),
    {
        self.move_caret(CaretTarget::Home)
    }

    pub(crate) fn move_caret_end(&mut self) -> (r: EngineResult)
        requires
            old(self).wf(),
        ensures
            same_sources(*old(self), *final(self)),
            final(self).learning == old(self).learning,
            final(self).wf(),
            final(self).config == old(self).config,
            !old(self).config.show_aux_text ==> aux_silent(r.actions@),
            caret_move_done(*old(self), *final(self), r, CaretTarget::End),
    {
        self.move_caret(CaretTarget::End)
    }

    /// Extend (or shrink) the selection with a caret movement. A shown
    /// live conversion is first baked in, so the selection is made in the
    /// text the user sees.
    fn shift_select(&mut self, target: CaretTarget) -> (r: EngineResult)
        requires
            old(self).wf(),
        ensures
            same_sources(*old(self), *final(self)),
            final(self).learning == old(self).learning,
            final(self).wf(),
            final(self).config == old(self).config,
            !old(self).config.show_aux_text ==> aux_silent(r.actions@),
            r.consumed,
            commit_of(r.actions@) is None,
            final(self).spec_state() is Composing,
            final(self).input_buf@ == selection_extended(selection_base(*old(self)), target),
            final(self).live.text@.len() == 0,
            shows_composition(*final(self)),
    {
        self.bake_live_for_selection();
        let pos = target_pos(&target, self.input_buf.cursor(), self.input_buf.char_count());
        self.input_buf.extend_selection_to(pos);
        let preedit = self.set_composing_state();
        let aux = self.format_aux_composing();
        EngineResult::consumed()
            .with_action(EngineAction::UpdatePreedit(preedit))
            .with_action(EngineAction::HideCandidates)
            .with_action(EngineAction::UpdateAuxText(aux))
    }

    pub(crate) fn shift_select_left(&mut self) -> (r: EngineResult)
        requires
            old(self).wf(),
        ensures
            same_sources(*old(self), *final(self)),
            final(self).learning == old(self).learning,
            final(self).wf(),
            final(self).config == old(self).config,
            !old(self).config.show_aux_text ==> aux_silent(r.actions@),
            r.consumed,
            commit_of(r.actions@) is None,
            final(self).spec_state() is Composing,
            final(self).input_buf@ == selection_extended(selection_base(*old(self)), CaretTarget::Left),
            final(self).live.text@.len() == 0,
    {
        self.shift_select(CaretTarget::Left)
    }

    pub(crate) fn shift_select_right(&mut self) -> (r: EngineResult)
        requires
            old(self).wf(),
        ensures
            same_sources(*old(self), *final(self)),
            final(self).learning == old(self).learning,
            final(self).wf(),
            final(self).config == old(self).config,
            !old(self).config.show_aux_text ==> aux_silent(r.actions@),
            r.consumed,
            commit_of(r.actions@) is None,
            final(self).spec_state() is Composing,
            final(self).input_buf@ == selection_extended(selection_base(*old(self)), CaretTarget::Right),
            final(self).live.text@.len() == 0,
    {
        self.shift_select(CaretTarget::Right)
    }

    pub(crate) fn shift_select_home(&mut self) -> (r: EngineResult)
        requires
            old(self).wf(),
        ensures
            same_sources(*old(self), *final(self)),
            final(self).learning == old(self).learning,
            final(self).wf(),
            final(self).config == old(self).config,
            !old(self).config.show_aux_text ==> aux_silent(r.actions@),
            r.consumed,
            commit_of(r.actions@) is None,
            final(self).spec_state() is Composing,
            final(self).input_buf@ == selection_extended(selection_base(*old(self)), CaretTarget::Home),
            final(self).live.text@.len() == 0,
    {
        self.shift_select(CaretTarget::Home)
    }

    pub(crate) fn shift_select_end(&mut self) -> (r: EngineResult)
        requires
            old(self).wf(),
        ensures
            same_sources(*old(self), *final(self)),
            final(self).learning == old(self).learning,
            final(self).wf(),
            final(self).config == old(self).config,
            !old(self).config.show_aux_text ==> aux_silent(r.actions@),
            r.consumed,
            commit_of(r.actions@) is None,
            final(self).spec_state() is Composing,
            final(self).input_buf@ == selection_extended(selection_base(*old(self)), CaretTarget::End),
            final(self).live.text@.len() == 0,
    {
        self.shift_select(CaretTarget::End)
    }

    /// Bake a shown live conversion into the composition, remembering the
    /// reading behind it; nothing happens when none is shown. What is
    /// baked is what is shown: the live conversion followed by the pending
    /// keys.
    fn bake_live_for_selection(&mut self)
        requires
            old(self).wf(),
        ensures
            same_sources(*old(self), *final(self)),
            final(self).wf(),
            final(self).config == old(self).config,
            final(self).learning == old(self).learning,
            final(self).live.text@.len() == 0,
            final(self).live.enabled == old(self).live.enabled,
            old(self).live.text@.len() == 0 ==> *final(self) == *old(self),
            final(self).spec_state() == old(self).spec_state(),
            old(self).live.text@.len() > 0 && old(self).live.text@.len() + old(self).input_buf@.live.len() > CAPACITY
                ==> final(self).input_buf@ == spec_settle(old(self).input_buf@),
            old(self).live.text@.len() > 0 && old(self).live.text@.len() + old(self).input_buf@.live.len() <= CAPACITY ==> {
                &&& final(self).input_buf@ == settled_model(old(self).live.text@ + old(self).input_buf@.live)
                &&& final(self).spec_partial().original_reading == (match old(self).spec_partial().original_reading {
                    Some(o) => Some(o),
                    None => Some(final(self).spec_partial().original_reading->0),
                })
                &&& old(self).spec_partial().original_reading is None ==>
                    final(self).spec_partial().original_reading->0@ == spec_settle(old(self).input_buf@).text
            },
    {
        if self.live.text.as_str().unicode_len() == 0 {
            return;
        }
        let shown = crate::text::chars_of(self.live.text.as_str());
        let pending = self.input_buf.live_keys();
        let live_text = crate::text::concat_chars(shown.as_slice(), pending.as_slice());
        self.settle_romaji();
        if live_text.len() > CAPACITY {
            self.live.text = String::new();
            return;
        }
        if self.partial.original_reading.is_none() {
            self.partial.original_reading = Some(self.input_buf.reading());
        }
        self.input_buf.replace_all_settled(live_text.as_slice());
        self.live.text = String::new();
    }
}

} // verus!
