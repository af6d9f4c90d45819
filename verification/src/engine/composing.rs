//! Composing input: the Empty and Composing states.

use vstd::prelude::*;
use super::{aux_silent, same_sources, aux_of, hides_aux, window_of, window_action, InputMethodEngine, InputMode, InputState, EngineResult, EngineAction, Preedit, CAPACITY, commit_of};
use super::conversion::{space_converted, suggestion_picked, dict_cand, variant_cand, learning_view, record_opt};
use super::cursor::{caret_move_done, caret_key, selection_extended, selection_base, CaretTarget};
use super::direct::{fkey_form, direct_committed};
use crate::buffer::{spec_type_key, spec_insert_text, settled_model, spec_settle, spec_backspace, spec_delete, BufferModel};
use crate::candidates::{
    Candidate, CandidateList, CandView, AnnView, append_candidates_dedup, append_dedup, opt_view, cand_views, string_views,
};
use crate::kana::{hiragana_to_katakana, spec_hira_to_kata};
use crate::keys::{KeyEvent, Keysym};
use crate::sources::spec_rewrite;
use crate::text::string_of;

verus! {

/// Shift+letter: an upper-case letter, or a letter typed with Shift held.
pub open spec fn spec_is_shift_alpha(ch: char, shift_active: bool) -> bool {
    ('A' <= ch && ch <= 'Z') || (shift_active && (('a' <= ch && ch <= 'z') || ('A' <= ch && ch <= 'Z')))
}

pub open spec fn spec_to_upper(ch: char) -> char {
    if 'a' <= ch && ch <= 'z' { ((ch as u32) - 0x20) as char } else { ch }
}

fn is_shift_alpha(ch: char, shift_active: bool) -> (b: bool)
    ensures
        b == spec_is_shift_alpha(ch, shift_active),
{
    ('A' <= ch && ch <= 'Z') || (shift_active && (('a' <= ch && ch <= 'z') || ('A' <= ch && ch <= 'Z')))
}

fn to_upper(ch: char) -> (u: char)
    ensures
        u == spec_to_upper(ch),
{
    if 'a' <= ch && ch <= 'z' { crate::kana::char_of((ch as u32) - 0x20) } else { ch }
}

/// The buffer after typing `ch` into an empty composition in mode `m`.
pub open spec fn spec_first_input(m: InputMode, ch: char) -> crate::buffer::BufferModel {
    if m == InputMode::Alphabet {
        spec_insert_text(settled_model(seq![]), seq![ch])
    } else {
        spec_type_key(settled_model(seq![]), ch)
    }
}

/// The buffer after typing `c` in mode `m`: literally in alphabet and
/// emoji modes, as a romaji key otherwise.
pub open spec fn spec_typed(m: InputMode, b: BufferModel, c: char) -> BufferModel {
    if m == InputMode::Alphabet || m == InputMode::Emoji {
        spec_insert_text(b, seq![c])
    } else {
        spec_type_key(b, c)
    }
}

/// The engine shows its composition: Composing, with the composition text
/// as preedit.
pub open spec fn shows_composition(e: InputMethodEngine) -> bool {
    e.spec_state() matches InputState::Composing { preedit, .. } && preedit.text_view() == e.spec_composing_text()
}

/// The buffer a temporary alphabet word starts from when Shift+letter is
/// typed in mode `m`: pending keys settle, and shown katakana becomes the
/// reading itself.
pub open spec fn alphabet_switch_buffer(m: InputMode, b: BufferModel) -> BufferModel {
    if m == InputMode::Katakana {
        spec_settle(settled_model(spec_settle(b).text.map_values(|c: char| spec_hira_to_kata(c))))
    } else {
        spec_settle(b)
    }
}

/// The composition redrawn after an edit, with the suggestions
/// recomputed for its reading: the preedit shows the composition, then the
/// candidate window shows exactly the suggestions (or hides when there are
/// none) and the aux line shows the composition (the reading when the
/// converter had a suggestion). With live conversion on, the converter's
/// top suggestion is what the preedit shows. With suggestions off, no live
/// conversion is shown and the window and aux line are hidden.
pub open spec fn refreshed(e: InputMethodEngine, r: EngineResult) -> bool {
    &&& r.consumed
    &&& commit_of(r.actions@) is None
    &&& shows_composition(e)
    &&& r.actions@.len() == 3
    &&& r.actions@[0] matches EngineAction::UpdatePreedit(p) && p.text_view() == e.spec_composing_text()
    &&& !e.config.auto_suggest ==> {
        &&& e.live.text@.len() == 0
        &&& e.suggest_candidates is None
        &&& r.actions@[1] is HideCandidates
        &&& r.actions@[2] is HideAuxText
    }
    &&& e.config.auto_suggest ==> {
        &&& e.live.text@ == (if e.spec_shows_live() { e.spec_suggest_model()->0[0] } else { Seq::<char>::empty() })
        &&& opt_cand_views(e.suggest_candidates) == e.spec_suggestions()
        &&& window_action(r.actions@[1]) == Some(e.spec_suggestions())
        &&& r.actions@[2] matches EngineAction::UpdateAuxText(a) && a@ == (if e.spec_suggest_model() is None {
            e.spec_aux_composing()
        } else {
            e.spec_aux(e.input_buf@.text)
        })
    }
}

/// Typing the printable character `ch` while composing: Shift+letter
/// first starts a temporary alphabet word (upper-case); the character then
/// goes in, unless the composition is at its capacity.
pub open spec fn char_typed(pre: InputMethodEngine, post: InputMethodEngine, r: EngineResult, ch: char, shift_active: bool) -> bool {
    let shift_alpha = spec_is_shift_alpha(ch, shift_active);
    let switch = shift_alpha && pre.input_mode != InputMode::Alphabet;
    let m = if switch { InputMode::Alphabet } else { pre.input_mode };
    let c = if m == InputMode::Alphabet && shift_alpha { spec_to_upper(ch) } else { ch };
    let base = if switch { alphabet_switch_buffer(pre.input_mode, pre.input_buf@) } else { pre.input_buf@ };
    &&& same_sources(pre, post)
    &&& commit_of(r.actions@) is None
    &&& r.consumed <==> base.text.len() + base.live.len() <= CAPACITY - 16
    &&& r.consumed ==> {
        &&& post.input_mode == m
        &&& post.input_buf@ == spec_typed(m, base, c)
        &&& shows_composition(post)
        &&& !(m == InputMode::Alphabet && !switch && pre.live.text@.len() > 0) ==> refreshed(post, r)
    }
}

/// Alphabet mode with a live conversion still shown: redrawing keeps it.
pub open spec fn alphabet_keeps_live(e: InputMethodEngine) -> bool {
    e.input_mode == InputMode::Alphabet && e.live.text@.len() > 0
}

/// Backspace while composing: one displayed character before the caret
/// goes, and an emptied composition returns to Empty. When only a pending
/// key went, the display is redrawn as it was (suggestions and live
/// conversion stay); otherwise the suggestions are recomputed. Nothing
/// changes when there is nothing to remove.
pub open spec fn backspaced(pre: InputMethodEngine, post: InputMethodEngine, r: EngineResult) -> bool {
    let (b, changed) = spec_backspace(pre.input_buf@);
    &&& same_sources(pre, post)
    &&& r.consumed
    &&& commit_of(r.actions@) is None
    &&& changed && b.text.len() == 0 && b.live.len() == 0 ==> post.spec_state() is Empty && post.live.text@.len() == 0
    &&& changed && !(b.text.len() == 0 && b.live.len() == 0) ==> {
        &&& post.input_buf@ == b
        &&& b.text == pre.input_buf@.text ==> post.live == pre.live && shows_composition(post)
        &&& b.text != pre.input_buf@.text && !alphabet_keeps_live(pre) ==> refreshed(post, r)
    }
    &&& !changed ==> post.input_buf@ == pre.input_buf@ && post.spec_state() == pre.spec_state()
}

/// Delete while composing: the character after the caret goes and the
/// suggestions are recomputed; an emptied composition returns to Empty.
/// Nothing changes when there is nothing after the caret.
pub open spec fn deleted(pre: InputMethodEngine, post: InputMethodEngine, r: EngineResult) -> bool {
    let (b, changed) = spec_delete(pre.input_buf@);
    &&& same_sources(pre, post)
    &&& r.consumed
    &&& commit_of(r.actions@) is None
    &&& changed && b.text.len() == 0 && b.live.len() == 0 ==> post.spec_state() is Empty && post.live.text@.len() == 0
    &&& changed && !(b.text.len() == 0 && b.live.len() == 0) ==> {
        &&& post.input_buf@ == b
        &&& !alphabet_keeps_live(pre) ==> refreshed(post, r)
    }
    &&& !changed ==> post.input_buf@ == pre.input_buf@ && post.spec_state() == pre.spec_state()
}

/// The caret movement an Emacs-style Ctrl key makes in Composing: Ctrl+A
/// home, Ctrl+B left, Ctrl+E end, Ctrl+F right.
pub open spec fn ctrl_caret_key(k: Keysym) -> Option<CaretTarget> {
    if k.spec_is_letter('a') {
        Some(CaretTarget::Home)
    } else if k.spec_is_letter('b') {
        Some(CaretTarget::Left)
    } else if k.spec_is_letter('e') {
        Some(CaretTarget::End)
    } else if k.spec_is_letter('f') {
        Some(CaretTarget::Right)
    } else {
        None
    }
}

/// Ctrl+Space while composing: a full-width space goes in at the caret,
/// unless the composition is at its capacity.
pub open spec fn fullwidth_space_typed(pre: InputMethodEngine, post: InputMethodEngine, r: EngineResult) -> bool {
    &&& same_sources(pre, post)
    &&& commit_of(r.actions@) is None
    &&& r.consumed <==> pre.input_buf@.text.len() + pre.input_buf@.live.len() <= CAPACITY - 16
    &&& r.consumed ==> post.input_buf@ == spec_insert_text(pre.input_buf@, seq!['\u{3000}'])
        && (!alphabet_keeps_live(pre) ==> refreshed(post, r))
    &&& !r.consumed ==> post == pre
}

/// Ctrl+K while composing: the display switches between katakana and
/// hiragana; the composition stays.
pub open spec fn katakana_toggled(pre: InputMethodEngine, post: InputMethodEngine, r: EngineResult) -> bool {
    &&& same_sources(pre, post)
    &&& r.consumed
    &&& commit_of(r.actions@) is None
    &&& post.input_mode == (if pre.input_mode == InputMode::Katakana { InputMode::Hiragana } else { InputMode::Katakana })
    &&& post.input_buf == pre.input_buf
    &&& post.live.text@.len() == 0
    &&& shows_composition(post)
}

/// Escape while composing: a shown live conversion goes back to the
/// reading; otherwise the composition is dropped (an emoji query commits
/// its literal text).
pub open spec fn composing_cancelled(pre: InputMethodEngine, post: InputMethodEngine, r: EngineResult) -> bool {
    &&& same_sources(pre, post)
    &&& r.consumed
    &&& if pre.live.text@.len() > 0 {
        &&& post.spec_state() is Composing
        &&& post.input_buf == pre.input_buf
        &&& post.live.text@.len() == 0
        &&& commit_of(r.actions@) is None
    } else {
        &&& post.spec_state() is Empty
        &&& commit_of(r.actions@) == (if pre.input_mode == InputMode::Emoji && pre.input_buf@.text.len() > 0 {
            Some(pre.input_buf@.text)
        } else {
            None
        })
    }
}

/// What Enter commits in emoji mode for the query `q`: the first variant
/// the rewriters offer, else the query itself.
pub open spec fn emoji_commit_text(e: InputMethodEngine, q: Seq<char>) -> Seq<char> {
    let v = spec_rewrite(e.converters.rewriters.view(), q);
    if v.len() > 0 { v[0].0 } else { q }
}

/// The first printable key `ch` starts a composition: `:` an emoji query,
/// Shift+letter a temporary alphabet word, any other key a romaji key.
pub open spec fn first_key_typed(pre: InputMethodEngine, post: InputMethodEngine, r: EngineResult, ch: char, shift_active: bool) -> bool {
    let colon = ch == ':' || (shift_active && ch == ';');
    let shift_alpha = spec_is_shift_alpha(ch, shift_active);
    let mode = if shift_alpha { InputMode::Alphabet } else { pre.input_mode };
    let c = if mode == InputMode::Alphabet && shift_alpha { spec_to_upper(ch) } else { ch };
    &&& same_sources(pre, post)
    &&& r.consumed
    &&& commit_of(r.actions@) is None
    &&& shows_composition(post)
    &&& colon && pre.input_mode != InputMode::Alphabet ==> post.input_mode == InputMode::Emoji
        && post.input_buf@ == spec_insert_text(settled_model(seq![]), seq![':']) && refreshed(post, r)
    &&& !(colon && pre.input_mode != InputMode::Alphabet) ==> {
        &&& post.input_mode == mode
        &&& post.input_buf@ == spec_first_input(mode, c)
        &&& post.live.text@.len() == 0
        // The preedit shows the composition, then the aux line shows it too
        // (with suggestions on) or is hidden.
        &&& r.actions@.len() == 2
        &&& r.actions@[0] matches EngineAction::UpdatePreedit(p) && p.text_view() == post.spec_composing_text()
        &&& pre.config.auto_suggest ==> aux_of(r.actions@) == Some(post.spec_aux_composing())
        &&& !pre.config.auto_suggest ==> r.actions@[1] is HideAuxText
    }
}

impl InputMethodEngine {
    /// Process a key in the Empty state.
    pub(crate) fn process_key_empty(&mut self, key: &KeyEvent, shift_active: bool) -> (r: EngineResult)
        requires
            old(self).wf(),
            old(self).spec_state() is Empty,
        ensures
            same_sources(*old(self), *final(self)),
            final(self).learning == old(self).learning,
            final(self).wf(),
            final(self).config == old(self).config,
            !old(self).config.show_aux_text ==> aux_silent(r.actions@),
            key.keysym == Keysym::SPACE && !key.modifiers.alt_key ==> {
                &&& r.consumed
                &&& commit_of(r.actions@) == Some(seq!['\u{3000}'])
                &&& *final(self) == *old(self)
            },
            key.spec_to_char() is None ==> !r.consumed && *final(self) == *old(self),
            (key.modifiers.control_key || key.modifiers.alt_key) && key.keysym != Keysym::SPACE
                ==> !r.consumed && *final(self) == *old(self),
            r.consumed && key.keysym != Keysym::SPACE ==> final(self).spec_state() is Composing,
            commit_of(r.actions@) is Some ==> key.keysym == Keysym::SPACE,
            // A printable key starts a composition.
            key.spec_to_char() is Some && key.keysym != Keysym::SPACE
                && !key.modifiers.control_key && !key.modifiers.alt_key
                ==> first_key_typed(*old(self), *final(self), r, key.spec_to_char()->0, shift_active),
    {
        // Space (or Ctrl+Space): a full-width space, committed directly.
        if key.keysym == Keysym::SPACE && !key.modifiers.alt_key {
            proof {
                reveal_strlit("\u{3000}");
            }
            return EngineResult::consumed().with_action(EngineAction::Commit(String::from_str("\u{3000}")));
        }
        let ch = match key.to_char() {
            Some(c) => c,
            None => return EngineResult::not_consumed(),
        };
        if key.modifiers.control_key || key.modifiers.alt_key {
            return EngineResult::not_consumed();
        }
        // `:` starts an emoji shortcode (the colon keysym, or Shift+`;`).
        let typed_colon = ch == ':' || (shift_active && ch == ';');
        if typed_colon && self.input_mode != InputMode::Alphabet {
            return self.start_emoji_mode();
        }
        // Shift+letter starts a temporary alphabet word.
        let shift_alpha = is_shift_alpha(ch, shift_active);
        if shift_alpha && self.input_mode != InputMode::Alphabet {
            self.input_mode = InputMode::Alphabet;
        }
        let ch = if self.input_mode == InputMode::Alphabet && shift_alpha { to_upper(ch) } else { ch };
        self.start_input(ch)
    }

    /// Start a composition with its first character: taken literally in
    /// alphabet mode, as a romaji key otherwise. Not taken when it yields
    /// nothing.
    pub(crate) fn start_input(&mut self, ch: char) -> (r: EngineResult)
        requires
            old(self).wf(),
        ensures
            same_sources(*old(self), *final(self)),
            final(self).wf(),
            final(self).config == old(self).config,
            !old(self).config.show_aux_text ==> aux_silent(r.actions@),
            commit_of(r.actions@) is None,
            r.consumed,
            final(self).input_buf@ == spec_first_input(old(self).input_mode, ch),
            final(self).spec_state() matches InputState::Composing { preedit, .. }
                && preedit.text_view() == final(self).spec_composing_text(),
            final(self).input_mode == old(self).input_mode,
            final(self).learning == old(self).learning,
            // The preedit shows the composition; the aux line shows it too
            // (empty when the aux line is off), or is hidden without
            // suggestions.
            final(self).live.text@.len() == 0,
            r.actions@.len() == 2,
            r.actions@[0] matches EngineAction::UpdatePreedit(p) && p.text_view() == final(self).spec_composing_text(),
            old(self).config.auto_suggest ==> aux_of(r.actions@) == Some(final(self).spec_aux_composing()),
            !old(self).config.auto_suggest ==> r.actions@[1] is HideAuxText,
    {
        self.input_buf.clear();
        // A new composition shows no live conversion until it is refreshed.
        self.live.text = String::new();
        if self.input_mode == InputMode::Alphabet {
            let v: Vec<char> = vec![ch];
            self.input_buf.insert_text(v.as_slice());
            assert(v@ =~= seq![ch]);
        } else {
            proof {
                crate::buffer::lemma_growth(self.input_buf@, ch);
            }
            self.input_buf.type_key(ch);
            if self.input_buf.is_empty() {
                return EngineResult::not_consumed();
            }
        }
        let preedit = self.set_composing_state();
        let result = EngineResult::consumed().with_action(EngineAction::UpdatePreedit(preedit));
        if self.config.auto_suggest {
            let aux = self.format_aux_composing();
            result.with_action(EngineAction::UpdateAuxText(aux))
        } else {
            result.with_action(EngineAction::HideAuxText)
        }
    }

    /// Insert a full-width space at the caret.
    fn input_fullwidth_space(&mut self) -> (r: EngineResult)
        requires
            old(self).wf(),
            !(old(self).spec_state() is Empty),
        ensures
            same_sources(*old(self), *final(self)),
            final(self).learning == old(self).learning,
            final(self).wf(),
            final(self).config == old(self).config,
            !old(self).config.show_aux_text ==> aux_silent(r.actions@),
            commit_of(r.actions@) is None,
            // Taken unless the composition is at its capacity.
            r.consumed <==> old(self).input_buf@.text.len() + old(self).input_buf@.live.len() <= CAPACITY - 16,
            fullwidth_space_typed(*old(self), *final(self), r),
    {
        if self.input_buf.char_count() + self.input_buf.live_len() > CAPACITY - 16 {
            return EngineResult::not_consumed();
        }
        let v: Vec<char> = vec!['\u{3000}'];
        self.input_buf.insert_text(v.as_slice());
        assert(v@ =~= seq!['\u{3000}']);
        self.refresh_input_state()
    }

    /// Process a key in the Composing state.
    pub(crate) fn process_key_composing(&mut self, key: &KeyEvent, shift_active: bool) -> (r: EngineResult)
        requires
            old(self).wf(),
            old(self).spec_state() is Composing,
        ensures
            same_sources(*old(self), *final(self)),
            key.keysym != Keysym::RETURN ==> final(self).learning == old(self).learning,
            final(self).wf(),
            final(self).config == old(self).config,
            !old(self).config.show_aux_text ==> aux_silent(r.actions@),
            // F6-F10: the settled reading is committed in the key's form.
            fkey_form(key.keysym) matches Some(f) ==> direct_committed(*old(self), *final(self), r, f),
            // Enter commits the composition.
            key.keysym == Keysym::RETURN ==> {
                let text = spec_settle(old(self).input_buf@).text;
                &&& r.consumed
                &&& final(self).spec_state() is Empty
                &&& old(self).input_mode != InputMode::Katakana && old(self).input_mode != InputMode::Emoji
                    && old(self).live.text@.len() == 0 ==> commit_of(r.actions@) == (if text.len() == 0 { None } else { Some(text) })
                &&& old(self).input_mode == InputMode::Katakana ==> commit_of(r.actions@) == (if text.len() == 0 { None } else {
                    Some(text.map_values(|c: char| spec_hira_to_kata(c)))
                })
                &&& old(self).input_mode != InputMode::Katakana && old(self).input_mode != InputMode::Emoji
                    && old(self).live.text@.len() > 0 ==> commit_of(r.actions@) == Some(old(self).live.text@)
                &&& old(self).input_mode == InputMode::Emoji ==> {
                    let t = emoji_commit_text(*old(self), text);
                    commit_of(r.actions@) == (if t.len() == 0 { None } else { Some(t) })
                }
                &&& old(self).input_mode != InputMode::Emoji && commit_of(r.actions@) is Some ==>
                    learning_view(final(self).learning) == record_opt(
                        learning_view(old(self).learning),
                        match old(self).spec_partial().original_reading { Some(o) => o@, None => text },
                        commit_of(r.actions@)->0,
                    )
            },
            // Escape drops a shown live conversion, else the composition.
            key.keysym == Keysym::ESCAPE ==> composing_cancelled(*old(self), *final(self), r),
            // Ctrl+Space, Ctrl+K and the Emacs-style caret keys.
            key.modifiers.control_key && key.keysym == Keysym::SPACE ==> fullwidth_space_typed(*old(self), *final(self), r),
            key.modifiers.control_key && key.keysym.spec_is_letter('k') ==> katakana_toggled(*old(self), *final(self), r),
            key.modifiers.control_key && ctrl_caret_key(key.keysym) is Some
                ==> caret_move_done(*old(self), *final(self), r, ctrl_caret_key(key.keysym)->0),
            // Space converts (Shift+Space without the learning cache).
            key.keysym == Keysym::SPACE && !key.modifiers.control_key && old(self).input_mode != InputMode::Alphabet
                ==> space_converted(*old(self), *final(self), r, shift_active),
            // Shift+arrows extend the selection in the composition as shown;
            // arrows move the caret.
            caret_key(key.keysym) is Some && shift_active
                ==> final(self).input_buf@ == selection_extended(selection_base(*old(self)), caret_key(key.keysym)->0),
            caret_key(key.keysym) is Some && !shift_active
                ==> caret_move_done(*old(self), *final(self), r, caret_key(key.keysym)->0),
            // A printable key types its character; Space does in alphabet
            // mode.
            (key.keysym matches Keysym::Char(_)) && key.spec_to_char() is Some
                && !key.modifiers.control_key && !key.modifiers.alt_key
                ==> char_typed(*old(self), *final(self), r, key.spec_to_char()->0, shift_active),
            key.keysym == Keysym::SPACE && !key.modifiers.control_key && old(self).input_mode == InputMode::Alphabet
                ==> char_typed(*old(self), *final(self), r, ' ', false),
            key.keysym == Keysym::BACKSPACE ==> backspaced(*old(self), *final(self), r),
            key.keysym == Keysym::DELETE ==> deleted(*old(self), *final(self), r),
            // Tab and Down pick from the suggestions already shown.
            key.keysym == Keysym::DOWN || key.keysym == Keysym::TAB ==> suggestion_picked(*old(self), *final(self), r),
    {
        if key.modifiers.control_key {
            if key.keysym == Keysym::SPACE {
                return self.input_fullwidth_space();
            } else if key.keysym.is_letter('k') {
                return self.enter_katakana_mode();
            } else if key.keysym.is_letter('a') {
                return self.move_caret_home();
            } else if key.keysym.is_letter('b') {
                return self.move_caret_left();
            } else if key.keysym.is_letter('e') {
                return self.move_caret_end();
            } else if key.keysym.is_letter('f') {
                return self.move_caret_right();
            }
        }
        match key.keysym {
            Keysym::RETURN => self.commit_composing(),
            Keysym::ESCAPE => self.cancel_composing(),
            Keysym::BACKSPACE => self.backspace_composing(),
            Keysym::DELETE => self.delete_composing(),
            Keysym::F6 => self.direct_convert_hiragana(),
            Keysym::F7 => self.direct_convert_katakana(),
            Keysym::F8 => self.direct_convert_half_katakana(),
            Keysym::F9 => self.direct_convert_fullwidth(),
            Keysym::F10 => self.direct_convert_halfwidth(),
            Keysym::SPACE if self.input_mode == InputMode::Alphabet => self.input_char(' '),
            // Shift+Space: conversion that leaves out the learning cache.
            Keysym::SPACE if shift_active => self.start_conversion(true),
            Keysym::SPACE => self.start_conversion(false),
            // Tab/Down: pick from the suggestions already shown.
            Keysym::DOWN | Keysym::TAB => self.select_auto_suggest(),
            Keysym::LEFT if shift_active => self.shift_select_left(),
            Keysym::RIGHT if shift_active => self.shift_select_right(),
            Keysym::HOME if shift_active => self.shift_select_home(),
            Keysym::END if shift_active => self.shift_select_end(),
            Keysym::LEFT => self.move_caret_left(),
            Keysym::RIGHT => self.move_caret_right(),
            Keysym::HOME => self.move_caret_home(),
            Keysym::END => self.move_caret_end(),
            _ => {
                let ch = match key.to_char() {
                    Some(c) => c,
                    None => return EngineResult::not_consumed(),
                };
                if key.modifiers.control_key || key.modifiers.alt_key {
                    return EngineResult::not_consumed();
                }
                let shift_alpha = is_shift_alpha(ch, shift_active);
                if shift_alpha && self.input_mode != InputMode::Alphabet {
                    // Keep the katakana shown before switching.
                    if self.input_mode == InputMode::Katakana {
                        self.bake_katakana();
                    }
                    self.input_mode = InputMode::Alphabet;
                    self.settle_romaji();
                    self.live.text = String::new();
                }
                let ch = if self.input_mode == InputMode::Alphabet && shift_alpha { to_upper(ch) } else { ch };
                self.input_char(ch)
            },
        }
    }

    /// Ctrl+K: switch between katakana and hiragana display.
    fn enter_katakana_mode(&mut self) -> (r: EngineResult)
        requires
            old(self).wf(),
        ensures
            same_sources(*old(self), *final(self)),
            final(self).learning == old(self).learning,
            final(self).wf(),
            final(self).config == old(self).config,
            !old(self).config.show_aux_text ==> aux_silent(r.actions@),
            r.consumed,
            commit_of(r.actions@) is None,
            final(self).input_mode == (if old(self).input_mode == InputMode::Katakana { InputMode::Hiragana } else { InputMode::Katakana }),
            katakana_toggled(*old(self), *final(self), r),
    {
        self.input_mode = if self.input_mode == InputMode::Katakana { InputMode::Hiragana } else { InputMode::Katakana };
        self.live.text = String::new();
        let preedit = self.set_composing_state();
        EngineResult::consumed().with_action(EngineAction::UpdatePreedit(preedit))
    }

    /// Turn the shown katakana into the reading itself.
    fn bake_katakana(&mut self)
        requires
            old(self).wf(),
        ensures
            same_sources(*old(self), *final(self)),
            final(self).learning == old(self).learning,
            final(self).wf(),
            final(self).config == old(self).config,
            final(self).input_buf@ == settled_model(
                spec_settle(old(self).input_buf@).text.map_values(|c: char| spec_hira_to_kata(c)),
            ),
            final(self).input_mode == old(self).input_mode,
            final(self).spec_state() == old(self).spec_state(),
    {
        self.settle_romaji();
        let text = self.input_buf.reading_chars();
        let kata = crate::kana::hiragana_to_katakana(text.as_slice());
        self.input_buf.replace_all_settled(kata.as_slice());
    }

    /// Begin an emoji shortcode: the composition restarts as `:` in emoji
    /// mode.
    fn start_emoji_mode(&mut self) -> (r: EngineResult)
        requires
            old(self).wf(),
        ensures
            same_sources(*old(self), *final(self)),
            final(self).learning == old(self).learning,
            final(self).wf(),
            final(self).config == old(self).config,
            !old(self).config.show_aux_text ==> aux_silent(r.actions@),
            final(self).input_mode == InputMode::Emoji,
            final(self).input_buf@ == spec_insert_text(settled_model(seq![]), seq![':']),
            shows_composition(*final(self)),
            refreshed(*final(self), r),
            r.consumed,
            commit_of(r.actions@) is None,
    {
        self.input_buf.clear();
        self.live.text = String::new();
        self.input_mode = InputMode::Emoji;
        let v: Vec<char> = vec![':'];
        self.input_buf.insert_text(v.as_slice());
        assert(v@ =~= seq![':']);
        self.refresh_input_state()
    }

    /// The first variant the rewriters offer for `reading`.
    fn first_emoji_candidate(&self, reading: &String) -> (r: Option<String>)
        ensures
            match r {
                Some(t) => crate::sources::spec_rewrite(self.converters.rewriters.view(), reading@).len() > 0
                    && t@ == crate::sources::spec_rewrite(self.converters.rewriters.view(), reading@)[0].0,
                None => crate::sources::spec_rewrite(self.converters.rewriters.view(), reading@).len() == 0,
            },
    {
        let variants = self.converters.rewriters.rewrite(reading);
        if variants.len() > 0 {
            assert(crate::sources::variant_views(variants@)[0] == (variants@[0].0@, opt_view(variants@[0].1)));
            Some(variants[0].0.clone())
        } else {
            None
        }
    }

    /// Type a character: literally in alphabet and emoji modes, as a
    /// romaji key otherwise. An emptied composition returns to Empty.
    fn input_char(&mut self, ch: char) -> (r: EngineResult)
        requires
            old(self).wf(),
            !(old(self).spec_state() is Empty),
        ensures
            same_sources(*old(self), *final(self)),
            final(self).learning == old(self).learning,
            final(self).wf(),
            final(self).config == old(self).config,
            !old(self).config.show_aux_text ==> aux_silent(r.actions@),
            commit_of(r.actions@) is None,
            // Taken unless the composition is at its capacity.
            r.consumed <==> old(self).input_buf@.text.len() + old(self).input_buf@.live.len() <= CAPACITY - 16,
            r.consumed ==> final(self).input_buf@ == spec_typed(old(self).input_mode, old(self).input_buf@, ch)
                && shows_composition(*final(self)) && final(self).input_mode == old(self).input_mode,
            // The aux line shows the composition (the reading when the
            // converter had a suggestion), or is hidden without suggestions.
            r.consumed && !(old(self).input_mode == InputMode::Alphabet && old(self).live.text@.len() > 0)
                ==> refreshed(*final(self), r),
            !r.consumed ==> *final(self) == *old(self),
    {
        if self.input_buf.char_count() + self.input_buf.live_len() > CAPACITY - 16 {
            return EngineResult::not_consumed();
        }
        if self.input_mode == InputMode::Alphabet || self.input_mode == InputMode::Emoji {
            let v: Vec<char> = vec![ch];
            self.input_buf.insert_text(v.as_slice());
            assert(v@ =~= seq![ch]);
            return self.refresh_input_state();
        }
        proof {
            crate::buffer::lemma_growth(self.input_buf@, ch);
        }
        self.input_buf.type_key(ch);
        if let Some(result) = self.try_reset_if_empty() {
            return result;
        }
        self.refresh_input_state()
    }

    /// Enter in Composing: commit the composition (the first emoji in
    /// emoji mode, katakana in katakana mode, the live conversion when one
    /// is shown, else the reading), record it for learning, and return to
    /// Empty.
    fn commit_composing(&mut self) -> (r: EngineResult)
        requires
            old(self).wf(),
        ensures
            same_sources(*old(self), *final(self)),
            final(self).wf(),
            final(self).config == old(self).config,
            !old(self).config.show_aux_text ==> aux_silent(r.actions@),
            final(self).spec_state() is Empty,
            r.consumed,
            old(self).input_mode == InputMode::Katakana ==> commit_of(r.actions@) == (
                if spec_settle(old(self).input_buf@).text.len() == 0 { None } else {
                    Some(spec_settle(old(self).input_buf@).text.map_values(|c: char| spec_hira_to_kata(c)))
                }),
            old(self).input_mode != InputMode::Katakana && old(self).input_mode != InputMode::Emoji
                && old(self).live.text@.len() == 0 ==> commit_of(r.actions@) == (
                if spec_settle(old(self).input_buf@).text.len() == 0 { None } else {
                    Some(spec_settle(old(self).input_buf@).text)
                }),
            // A shown live conversion is what Enter commits.
            old(self).input_mode != InputMode::Katakana && old(self).input_mode != InputMode::Emoji
                && old(self).live.text@.len() > 0 ==> commit_of(r.actions@) == Some(old(self).live.text@),
            // What is committed is learned for the reading behind it: the
            // reading before any partial conversion, else the reading.
            old(self).input_mode != InputMode::Emoji && commit_of(r.actions@) is Some ==>
                learning_view(final(self).learning) == record_opt(
                    learning_view(old(self).learning),
                    match old(self).spec_partial().original_reading {
                        Some(o) => o@,
                        None => spec_settle(old(self).input_buf@).text,
                    },
                    commit_of(r.actions@)->0,
                ),
            // An emoji query commits its first emoji, and hiragana input
            // resumes.
            old(self).input_mode == InputMode::Emoji ==> {
                let t = emoji_commit_text(*old(self), spec_settle(old(self).input_buf@).text);
                &&& commit_of(r.actions@) == (if t.len() == 0 { None } else { Some(t) })
                &&& t.len() > 0 ==> final(self).input_mode == InputMode::Hiragana
            },
    {
        self.settle_romaji();
        let reading_chars = self.input_buf.reading_chars();
        let reading = string_of(reading_chars.as_slice());
        let text: String = if self.input_mode == InputMode::Emoji {
            match self.first_emoji_candidate(&reading) {
                Some(t) => t,
                None => reading.clone(),
            }
        } else if self.input_mode == InputMode::Katakana {
            string_of(hiragana_to_katakana(reading_chars.as_slice()).as_slice())
        } else if self.live.text.as_str().unicode_len() > 0 {
            self.live.text.clone()
        } else {
            reading.clone()
        };
        if text.as_str().unicode_len() == 0 {
            self.enter_empty_state();
            return EngineResult::consumed().with_action(EngineAction::HideAuxText);
        }
        // Learn the reading behind the whole result: the pre-bake reading
        // when parts were converted and baked, else the reading itself.
        if self.input_mode != InputMode::Emoji {
            let learning_reading = self.take_learning_reading(reading);
            self.record_learning(&learning_reading, &text);
        }
        let was_emoji = self.input_mode == InputMode::Emoji;
        self.enter_empty_state();
        if was_emoji {
            self.input_mode = InputMode::Hiragana;
        }
        EngineResult::consumed()
            .with_action(EngineAction::UpdatePreedit(Preedit::new()))
            .with_action(EngineAction::Commit(text))
            .with_action(EngineAction::HideAuxText)
    }

    /// Escape in Composing: a shown live conversion goes back to the
    /// reading; otherwise the composition is dropped (an emoji query
    /// commits its literal text).
    fn cancel_composing(&mut self) -> (r: EngineResult)
        requires
            old(self).wf(),
        ensures
            same_sources(*old(self), *final(self)),
            final(self).learning == old(self).learning,
            final(self).wf(),
            final(self).config == old(self).config,
            !old(self).config.show_aux_text ==> aux_silent(r.actions@),
            r.consumed,
            old(self).live.text@.len() > 0 ==> {
                &&& final(self).spec_state() is Composing
                &&& final(self).input_buf == old(self).input_buf
                &&& final(self).live.text@.len() == 0
                &&& commit_of(r.actions@) is None
            },
            old(self).live.text@.len() == 0 ==> {
                &&& final(self).spec_state() is Empty
                &&& commit_of(r.actions@) == (if old(self).input_mode == InputMode::Emoji && old(self).input_buf@.text.len() > 0 {
                    Some(old(self).input_buf@.text)
                } else {
                    None
                })
            },
    {
        if self.live.text.as_str().unicode_len() > 0 {
            self.live.text = String::new();
            let preedit = self.set_composing_state();
            let aux = self.format_aux_composing();
            return EngineResult::consumed()
                .with_action(EngineAction::UpdatePreedit(preedit))
                .with_action(EngineAction::HideCandidates)
                .with_action(EngineAction::UpdateAuxText(aux));
        }
        let emoji_literal = if self.input_mode == InputMode::Emoji && self.input_buf.char_count() > 0 {
            Some(self.input_buf.reading())
        } else {
            None
        };
        let was_emoji = self.input_mode == InputMode::Emoji;
        self.enter_empty_state();
        if was_emoji {
            self.input_mode = InputMode::Hiragana;
        }
        let result = EngineResult::consumed()
            .with_action(EngineAction::UpdatePreedit(Preedit::new()))
            .with_action(EngineAction::HideCandidates)
            .with_action(EngineAction::HideAuxText);
        match emoji_literal {
            Some(literal) => result.with_action(EngineAction::Commit(literal)),
            None => result,
        }
    }
}

} // verus!

verus! {

/// A converter suggestion among the candidates shown while typing.
pub open spec fn model_cand(t: Seq<char>, r: Seq<char>) -> CandView {
    CandView { text: t, reading: Some(r), source_label: None, description: None }
}

/// The views of optional candidates.
pub open spec fn opt_cand_views(o: Option<Vec<Candidate>>) -> Option<Seq<CandView>> {
    match o {
        Some(v) => Some(cand_views(v@)),
        None => None,
    }
}

impl InputMethodEngine {
    /// The converter's suggestions for the reading while typing, when it
    /// has one that differs from the reading (never in alphabet mode).
    pub open spec fn spec_suggest_model(&self) -> Option<Seq<Seq<char>>> {
        let r = self.input_buf@.text;
        let m = self.spec_model_conversions(r, 1);
        if self.input_mode != InputMode::Alphabet && r.len() > 0 && m.len() > 0 && m[0] != r {
            Some(m)
        } else {
            None
        }
    }

    /// Whether the top suggestion replaces the reading in the preedit.
    pub open spec fn spec_shows_live(&self) -> bool {
        self.spec_suggest_model() is Some && self.live.enabled && self.input_mode != InputMode::Katakana
    }

    /// The candidates offered while typing: learning, then (without live
    /// conversion) the converter's suggestions, then dictionary candidates;
    /// when the converter has nothing to add, rewriter variants come last.
    /// Each text once; `None` when there are none.
    pub open spec fn spec_suggestions(&self) -> Option<Seq<CandView>> {
        let r = self.input_buf@.text;
        let learned = self.spec_learning_candidates(r);
        let dict = self.spec_dict_search(r, CandidateList::DEFAULT_PAGE_SIZE as int).map_values(
            |c: AnnView| dict_cand(c, r),
        );
        match self.spec_suggest_model() {
            None => {
                let variants = spec_rewrite(self.converters.rewriters.view(), r).map_values(
                    |v: (Seq<char>, Option<Seq<char>>)| variant_cand(v, r),
                );
                let all = append_dedup(append_dedup(learned, dict), variants);
                if all.len() == 0 { None } else { Some(all) }
            },
            Some(m) => if self.live.enabled && self.input_mode != InputMode::Katakana {
                let all = append_dedup(learned, dict);
                if all.len() == 0 { None } else { Some(all) }
            } else {
                Some(append_dedup(append_dedup(learned, m.map_values(|t: Seq<char>| model_cand(t, r))), dict))
            },
        }
    }

    /// Rebuild the Composing display and the suggestions for the current
    /// reading: learning, converter and dictionary candidates (and
    /// rewriter variants when the converter has nothing to add); with live
    /// conversion on, the top conversion is shown in place of the reading.
    pub(crate) fn refresh_input_state(&mut self) -> (r: EngineResult)
        requires
            old(self).wf(),
        ensures
            same_sources(*old(self), *final(self)),
            final(self).wf(),
            !old(self).config.show_aux_text ==> aux_silent(r.actions@),
            r.consumed,
            commit_of(r.actions@) is None,
            final(self).input_buf == old(self).input_buf,
            final(self).input_mode == old(self).input_mode,
            final(self).spec_state() matches InputState::Composing { preedit, .. }
                && preedit.text_view() == final(self).spec_composing_text(),
            final(self).spec_partial() == old(self).spec_partial(),
            final(self).learning == old(self).learning,
            final(self).config == old(self).config,
            final(self).converters == old(self).converters,
            final(self).dicts == old(self).dicts,
            final(self).live.enabled == old(self).live.enabled,
            old(self).input_mode == InputMode::Alphabet && old(self).live.text@.len() > 0 ==>
                final(self).live.text == old(self).live.text,
            old(self).input_mode == InputMode::Alphabet && old(self).live.text@.len() > 0 ==>
                r.actions@.len() == 1,
            !(old(self).input_mode == InputMode::Alphabet && old(self).live.text@.len() > 0) ==> refreshed(*final(self), r),
            !(old(self).input_mode == InputMode::Alphabet && old(self).live.text@.len() > 0) ==> {
                &&& !old(self).config.auto_suggest ==> final(self).live.text@.len() == 0
                    && final(self).suggest_candidates is None
                &&& !old(self).config.auto_suggest ==> window_of(r.actions@) == Some(None::<Seq<CandView>>)
                    && aux_of(r.actions@) is None && hides_aux(r.actions@)
                &&& old(self).config.auto_suggest ==> {
                    &&& final(self).live.text@ == (if old(self).spec_shows_live() {
                        old(self).spec_suggest_model()->0[0]
                    } else {
                        Seq::<char>::empty()
                    })
                    &&& opt_cand_views(final(self).suggest_candidates) == old(self).spec_suggestions()
                    // The window shows exactly the suggestions, or hides when
                    // there are none; the aux line shows the composition (the
                    // reading when the converter had something).
                    &&& window_of(r.actions@) == Some(old(self).spec_suggestions())
                    &&& aux_of(r.actions@) == Some(if old(self).spec_suggest_model() is None {
                        final(self).spec_aux_composing()
                    } else {
                        final(self).spec_aux(old(self).input_buf@.text)
                    })
                }
            },
    {
        // Alphabet mode with a live conversion shown: keep showing it.
        if self.input_mode == InputMode::Alphabet && self.live.text.as_str().unicode_len() > 0 {
            let preedit = self.set_composing_state();
            return EngineResult::consumed().with_action(EngineAction::UpdatePreedit(preedit));
        }
        if !self.config.auto_suggest {
            self.live.text = String::new();
            self.suggest_candidates = None;
            let preedit = self.set_composing_state();
            return EngineResult::consumed()
                .with_action(EngineAction::UpdatePreedit(preedit))
                .with_action(EngineAction::HideCandidates)
                .with_action(EngineAction::HideAuxText);
        }
        let ghost r0 = self.input_buf@.text;
        let reading = self.input_buf.reading();
        let model: Option<Vec<String>> = if self.input_mode != InputMode::Alphabet && reading.as_str().unicode_len() > 0 {
            let result = self.run_auto_suggest(&reading, 1);
            if result.len() > 0 && result[0] != reading { Some(result) } else { None }
        } else {
            None
        };
        assert(match model {
            Some(m) => self.spec_suggest_model() == Some(string_views(m@)),
            None => self.spec_suggest_model() is None,
        }) by {
            if self.input_mode != InputMode::Alphabet && r0.len() > 0 {
                let m = self.spec_model_conversions(r0, 1);
                if m.len() == 0 {
                    assert(seq![r0][0] == r0);
                }
            }
        }
        match model {
            None => {
                // Nothing from the converter: learning, dictionary and
                // rewriter candidates only.
                self.live.text = String::new();
                let preedit = self.set_composing_state();
                let mut all = self.lookup_learning_candidates(&reading);
                append_candidates_dedup(&mut all, self.lookup_dict_candidates(&reading));
                append_candidates_dedup(&mut all, self.lookup_rewriter_variants(&reading));
                let aux = self.format_aux_composing();
                if all.len() == 0 {
                    self.suggest_candidates = None;
                    return EngineResult::consumed()
                        .with_action(EngineAction::UpdatePreedit(preedit))
                        .with_action(EngineAction::HideCandidates)
                        .with_action(EngineAction::UpdateAuxText(aux));
                }
                let shown = CandidateList::new(copy_candidates(&all));
                self.suggest_candidates = Some(all);
                EngineResult::consumed()
                    .with_action(EngineAction::UpdatePreedit(preedit))
                    .with_action(EngineAction::ShowCandidates(shown))
                    .with_action(EngineAction::UpdateAuxText(aux))
            },
            Some(candidates) => {
                let rchars = self.input_buf.reading_chars();
                if self.live.enabled && self.input_mode != InputMode::Katakana {
                    // Live conversion: the top conversion replaces the
                    // reading in the preedit.
                    self.live.text = candidates[0].clone();
                    let preedit = self.set_composing_state();
                    let mut all = self.lookup_learning_candidates(&reading);
                    append_candidates_dedup(&mut all, self.lookup_dict_candidates(&reading));
                    let mut result = EngineResult::consumed().with_action(EngineAction::UpdatePreedit(preedit));
                    if all.len() == 0 {
                        self.suggest_candidates = None;
                        result = result.with_action(EngineAction::HideCandidates);
                    } else {
                        let shown = CandidateList::new(copy_candidates(&all));
                        self.suggest_candidates = Some(all);
                        result = result.with_action(EngineAction::ShowCandidates(shown));
                    }
                    let aux = self.format_aux(rchars.as_slice());
                    return result.with_action(EngineAction::UpdateAuxText(aux));
                }
                // Plain suggestions: learning, then the converter, then the
                // dictionaries.
                self.live.text = String::new();
                let preedit = self.set_composing_state();
                let mut all = self.lookup_learning_candidates(&reading);
                let ghost mv = string_views(candidates@).map_values(|t: Seq<char>| model_cand(t, r0));
                let mut model_candidates: Vec<Candidate> = Vec::new();
                let mut i: usize = 0;
                while i < candidates.len()
                    invariant
                        i <= candidates@.len(),
                        reading@ == r0,
                        mv == string_views(candidates@).map_values(|t: Seq<char>| model_cand(t, r0)),
                        cand_views(model_candidates@) == mv.take(i as int),
                    decreases candidates@.len() - i,
                {
                    let c = Candidate::with_reading(candidates[i].clone(), reading.clone());
                    let ghost before = cand_views(model_candidates@);
                    model_candidates.push(c);
                    i = i + 1;
                    assert(cand_views(model_candidates@) =~= before.push(c@));
                    assert(mv.take(i as int) =~= mv.take(i - 1).push(mv[i - 1]));
                }
                assert(mv.take(candidates@.len() as int) =~= mv);
                append_candidates_dedup(&mut all, model_candidates);
                append_candidates_dedup(&mut all, self.lookup_dict_candidates(&reading));
                let shown = CandidateList::new(copy_candidates(&all));
                self.suggest_candidates = Some(all);
                let aux = self.format_aux(rchars.as_slice());
                EngineResult::consumed()
                    .with_action(EngineAction::UpdatePreedit(preedit))
                    .with_action(EngineAction::ShowCandidates(shown))
                    .with_action(EngineAction::UpdateAuxText(aux))
            },
        }
    }
}

/// A copy of a candidate vector.
pub fn copy_candidates(v: &Vec<Candidate>) -> (r: Vec<Candidate>)
    ensures
        r@ == v@,
{
    let mut r: Vec<Candidate> = Vec::new();
    let mut i: usize = 0;
    while i < v.len()
        invariant
            i <= v@.len(),
            r@ == v@.take(i as int),
        decreases v@.len() - i,
    {
        r.push(v[i].duplicate());
        i = i + 1;
        assert(r@ =~= v@.take(i as int));
    }
    assert(v@.take(v@.len() as int) =~= v@);
    r
}


/// Law: the Emacs-style caret keys move the caret as the arrows do:
/// Ctrl+B one character left (stopping at the start), Ctrl+F one right
/// (stopping at the end), Ctrl+A to the start and Ctrl+E to the end; the
/// composition itself and its pending keys stay.
pub proof fn law_ctrl_caret_keys_move_like_arrows(k: Keysym, pre: InputMethodEngine, post: InputMethodEngine, r: EngineResult)
    requires
        pre.input_buf@.cursor <= pre.input_buf@.text.len(),
        ctrl_caret_key(k) is Some,
        caret_move_done(pre, post, r, ctrl_caret_key(k)->0),
    ensures
        post.input_buf@.text == pre.input_buf@.text,
        post.input_buf@.live == pre.input_buf@.live,
        k.spec_is_letter('b') ==> post.input_buf@.cursor == (if pre.input_buf@.cursor > 0 { pre.input_buf@.cursor - 1 } else { 0 }),
        k.spec_is_letter('f') ==> post.input_buf@.cursor == (if pre.input_buf@.cursor < pre.input_buf@.text.len() {
            pre.input_buf@.cursor + 1
        } else {
            pre.input_buf@.text.len() as int
        }),
        k.spec_is_letter('a') ==> post.input_buf@.cursor == 0,
        k.spec_is_letter('e') ==> post.input_buf@.cursor == pre.input_buf@.text.len(),
{
}

/// Law: exactly Ctrl+A, Ctrl+B, Ctrl+E and Ctrl+F (either case) are the
/// Emacs-style caret keys.
pub proof fn law_ctrl_caret_keys_are_abef(k: Keysym)
    ensures
        ctrl_caret_key(k) is Some <==> (k.spec_is_letter('a') || k.spec_is_letter('b')
            || k.spec_is_letter('e') || k.spec_is_letter('f')),
{
}

} // verus!
