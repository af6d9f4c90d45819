//! Selection-based partial conversion (Shift+Arrow, then Space).
//!
//! Shift+Arrow selects a span of the composition; Space converts only that
//! span. Committing bakes the result back into the composition instead of
//! committing it, so other spans can be converted next; a final Enter with
//! nothing selected commits the whole composition.
//!
//! A selection may cover kanji or katakana that an earlier conversion
//! produced. The converter needs hiragana, so the surface is aligned
//! against the reading the composition had before anything was baked in,
//! and the reading behind the selection is converted instead. A run of
//! kanji between two kana is atomic: `会議室` re-converts as a whole.

use vstd::prelude::*;
use super::{aux_silent, same_sources, InputMethodEngine, EngineResult, EngineAction, Preedit, CAPACITY, commit_of};
use crate::align::{align, map_range, spec_align, spec_map_range, law_align_map_range};
use crate::kana::{is_pure_hiragana, spec_is_pure_hiragana};
use crate::text::{slice_chars, concat_chars, chars_of, string_of};
use crate::buffer::settled_model;

verus! {

/// The span to convert for the selection `[s, e)` of `full`, as
/// `(reading, before, after)`. A pure-hiragana selection (or any selection
/// when no earlier reading is known) is its own reading; otherwise the
/// selection is widened to whole alignment segments and the reading behind
/// them is taken from the earlier reading `original`.
pub open spec fn spec_resolve(full: Seq<char>, s: int, e: int, original: Option<Seq<char>>) -> (Seq<char>, Seq<char>, Seq<char>) {
    let selected = full.subrange(s, e);
    match original {
        Some(o) => if spec_is_pure_hiragana(selected) {
            (selected, full.take(s), full.skip(e))
        } else {
            let (rs, re, ws, we) = spec_map_range(spec_align(full, o), s, e);
            (o.subrange(rs, re), full.take(ws), full.skip(we))
        },
        None => (selected, full.take(s), full.skip(e)),
    }
}

/// Law: the span converted for a selection `[s, e)` covers the whole
/// selection: the text kept aside before and after it are a prefix and a
/// suffix of the composition that leave the selection between them. A
/// pure-hiragana selection (or any, with no earlier reading) is converted
/// as it is; otherwise a part of the earlier reading is converted.
pub proof fn law_resolve_covers_selection(full: Seq<char>, s: int, e: int, original: Option<Seq<char>>)
    requires
        0 <= s < e <= full.len(),
    ensures
        ({
            let (rd, before, after) = spec_resolve(full, s, e, original);
            &&& before.len() <= s
            &&& e <= full.len() - after.len()
            &&& before == full.take(before.len() as int)
            &&& after == full.skip(full.len() - after.len())
            &&& (original is None || spec_is_pure_hiragana(full.subrange(s, e))) ==> rd == full.subrange(s, e)
                && before == full.take(s) && after == full.skip(e)
            &&& original is Some && !spec_is_pure_hiragana(full.subrange(s, e)) ==>
                exists|a: int, b: int| 0 <= a <= b <= original->0.len() && rd == original->0.subrange(a, b)
        }),
{
    match original {
        Some(o) => {
            if !spec_is_pure_hiragana(full.subrange(s, e)) {
                law_align_map_range(full, o, s, e);
                let (rs, re, ws, we) = spec_map_range(spec_align(full, o), s, e);
                assert(full.skip(we).len() == full.len() - we);
                assert(o.subrange(rs, re) == o.subrange(rs, re));
            }
        },
        None => {},
    }
}

impl InputMethodEngine {
    /// Resolve the selection `[sel_start, sel_end)` of `full` into
    /// `(reading to convert, text before, text after)`.
    pub(crate) fn resolve_selection(&self, full: &[char], sel_start: usize, sel_end: usize)
        -> (r: (Vec<char>, Vec<char>, Vec<char>))
        requires
            self.wf(),
            sel_start < sel_end <= full@.len(),
            full@.len() <= CAPACITY,
        ensures
            (r.0@, r.1@, r.2@) == spec_resolve(full@, sel_start as int, sel_end as int,
                match self.spec_partial().original_reading { Some(o) => Some(o@), None => None }),
    {
        let selected = slice_chars(full, sel_start, sel_end);
        let pure_hiragana = is_pure_hiragana(selected.as_slice());
        let original = match &self.partial.original_reading {
            Some(o) if !pure_hiragana => o,
            _ => {
                let before = slice_chars(full, 0, sel_start);
                let after = slice_chars(full, sel_end, full.len());
                assert(before@ =~= full@.take(sel_start as int));
                assert(after@ =~= full@.skip(sel_end as int));
                return (selected, before, after);
            },
        };
        let full_s = string_of(full);
        let segments = align(full_s.as_str(), original.as_str());
        proof {
            law_align_map_range(full@, original@, sel_start as int, sel_end as int);
        }
        let (r_start, r_end, wide_start, wide_end) = map_range(segments.as_slice(), sel_start, sel_end);
        let ochars = chars_of(original.as_str());
        let reading = slice_chars(ochars.as_slice(), r_start, r_end);
        let before = slice_chars(full, 0, wide_start);
        let after = slice_chars(full, wide_end, full.len());
        assert(before@ =~= full@.take(wide_start as int));
        assert(after@ =~= full@.skip(wide_end as int));
        (reading, before, after)
    }

    /// The composition Shift+Arrow bakes from Conversion: the selected
    /// candidate between the text kept aside by a partial conversion.
    pub open spec fn spec_baked_selection(&self) -> Seq<char> {
        let t = self.spec_selected_conversion().0;
        match self.partial.remaining {
            Some((before, after)) => before@ + t + after@,
            None => t,
        }
    }

    /// Whether a partial conversion is in flight (Enter bakes instead of
    /// committing).
    pub(crate) fn has_partial_conversion(&self) -> (b: bool)
        ensures
            b == (self.spec_partial().remaining is Some),
    {
        self.partial.remaining.is_some()
    }

    /// Bake a committed partial conversion into the composition: it
    /// becomes `before + converted + after` and the engine returns to
    /// Composing. The reading before the first bake is kept for aligning
    /// later selections. Not taken when no partial conversion is in
    /// flight.
    pub(crate) fn bake_partial_conversion(&mut self, converted: &String) -> (r: EngineResult)
        requires
            old(self).wf(),
        ensures
            same_sources(*old(self), *final(self)),
            final(self).wf(),
            final(self).config == old(self).config,
            !old(self).config.show_aux_text ==> aux_silent(r.actions@),
            old(self).spec_partial().remaining is None ==> !r.consumed && *final(self) == *old(self),
            final(self).learning == old(self).learning,
            old(self).spec_partial().remaining matches Some((before, after)) ==> {
                let baked = before@ + converted@ + after@;
                &&& r.consumed
                &&& final(self).spec_partial().remaining is None
                &&& final(self).live.text@.len() == 0
                &&& baked.len() == 0 ==> final(self).spec_state() is Empty && commit_of(r.actions@) is None
                &&& 0 < baked.len() <= CAPACITY ==> {
                    &&& final(self).spec_state() is Composing
                    &&& final(self).input_buf@ == crate::buffer::settled_model(baked)
                    &&& commit_of(r.actions@) is None
                    &&& final(self).spec_partial().original_reading == (match old(self).spec_partial().original_reading {
                        Some(o) => Some(o),
                        None => Some(final(self).spec_partial().original_reading->0),
                    })
                    &&& old(self).spec_partial().original_reading is None ==>
                        final(self).spec_partial().original_reading->0@ == old(self).input_buf@.text
                }
                // Too long to keep composing: it is committed and the
                // composition ends.
                &&& baked.len() > CAPACITY ==> commit_of(r.actions@) == Some(baked) && final(self).spec_state() is Empty
            },
    {
        let (before, after) = match self.partial.remaining.take() {
            Some(x) => x,
            None => return EngineResult::not_consumed(),
        };
        if self.partial.original_reading.is_none() {
            self.partial.original_reading = Some(self.input_buf.reading());
        }
        let b = chars_of(before.as_str());
        let c = chars_of(converted.as_str());
        let a = chars_of(after.as_str());
        let bc = concat_chars(b.as_slice(), c.as_slice());
        let baked = concat_chars(bc.as_slice(), a.as_slice());
        if baked.len() == 0 {
            self.enter_empty_state();
            return EngineResult::consumed()
                .with_action(EngineAction::UpdatePreedit(Preedit::new()))
                .with_action(EngineAction::HideCandidates)
                .with_action(EngineAction::HideAuxText);
        }
        if baked.len() > CAPACITY {
            // Too long to keep composing: commit it.
            self.enter_empty_state();
            return EngineResult::consumed()
                .with_action(EngineAction::UpdatePreedit(Preedit::new()))
                .with_action(EngineAction::HideCandidates)
                .with_action(EngineAction::HideAuxText)
                .with_action(EngineAction::Commit(string_of(baked.as_slice())));
        }
        self.input_buf.replace_all_settled(baked.as_slice());
        self.live.text = String::new();
        let preedit = self.set_composing_state();
        let aux = self.format_aux_composing();
        EngineResult::consumed()
            .with_action(EngineAction::UpdatePreedit(preedit))
            .with_action(EngineAction::HideCandidates)
            .with_action(EngineAction::UpdateAuxText(aux))
    }

    /// Shift+Right from Conversion: bake, caret at the start, select
    /// rightward.
    pub(crate) fn conversion_to_selection_right(&mut self) -> (r: EngineResult)
        requires
            old(self).wf(),
        ensures
            same_sources(*old(self), *final(self)),
            final(self).learning == old(self).learning,
            final(self).wf(),
            final(self).config == old(self).config,
            !old(self).config.show_aux_text ==> aux_silent(r.actions@),
            r.consumed,
            commit_of(r.actions@) is None,
            final(self).spec_state() is Composing,
            old(self).spec_state() is Conversion && 0 < old(self).spec_baked_selection().len() <= CAPACITY ==> {
                let baked = old(self).spec_baked_selection();
                crate::buffer::spec_selection(final(self).input_buf@) == Some((0int, 1int))
            },
    {
        self.bake_conversion_for_selection();
        self.input_buf.set_cursor(0);
        self.shift_select_right()
    }

    /// Shift+Left from Conversion: bake, caret at the end, select
    /// leftward.
    pub(crate) fn conversion_to_selection_left(&mut self) -> (r: EngineResult)
        requires
            old(self).wf(),
        ensures
            same_sources(*old(self), *final(self)),
            final(self).learning == old(self).learning,
            final(self).wf(),
            final(self).config == old(self).config,
            !old(self).config.show_aux_text ==> aux_silent(r.actions@),
            r.consumed,
            commit_of(r.actions@) is None,
            final(self).spec_state() is Composing,
            old(self).spec_state() is Conversion && 0 < old(self).spec_baked_selection().len() <= CAPACITY ==> {
                let baked = old(self).spec_baked_selection();
                crate::buffer::spec_selection(final(self).input_buf@) == Some((baked.len() - 1, baked.len() as int))
            },
    {
        self.bake_conversion_for_selection();
        let end = self.input_buf.char_count();
        self.input_buf.set_cursor(end);
        self.shift_select_left()
    }

    /// Shift+Home from Conversion: bake, then select to the start.
    pub(crate) fn conversion_to_selection_home(&mut self) -> (r: EngineResult)
        requires
            old(self).wf(),
        ensures
            same_sources(*old(self), *final(self)),
            final(self).learning == old(self).learning,
            final(self).wf(),
            final(self).config == old(self).config,
            !old(self).config.show_aux_text ==> aux_silent(r.actions@),
            r.consumed,
            commit_of(r.actions@) is None,
            final(self).spec_state() is Composing,
            old(self).spec_state() is Conversion && 0 < old(self).spec_baked_selection().len() <= CAPACITY ==> {
                let baked = old(self).spec_baked_selection();
                crate::buffer::spec_selection(final(self).input_buf@) == Some((0int, baked.len() as int))
            },
    {
        self.bake_conversion_for_selection();
        let end = self.input_buf.char_count();
        self.input_buf.set_cursor(end);
        self.shift_select_home()
    }

    /// Shift+End from Conversion: bake, then select to the end.
    pub(crate) fn conversion_to_selection_end(&mut self) -> (r: EngineResult)
        requires
            old(self).wf(),
        ensures
            same_sources(*old(self), *final(self)),
            final(self).learning == old(self).learning,
            final(self).wf(),
            final(self).config == old(self).config,
            !old(self).config.show_aux_text ==> aux_silent(r.actions@),
            r.consumed,
            commit_of(r.actions@) is None,
            final(self).spec_state() is Composing,
            old(self).spec_state() is Conversion && 0 < old(self).spec_baked_selection().len() <= CAPACITY ==> {
                let baked = old(self).spec_baked_selection();
                crate::buffer::spec_selection(final(self).input_buf@) == Some((0int, baked.len() as int))
            },
    {
        self.bake_conversion_for_selection();
        self.input_buf.set_cursor(0);
        self.shift_select_end()
    }

    /// Fold the selected candidate (with the text before and after a
    /// partial conversion) into the composition and return to Composing,
    /// keeping the earlier reading for alignment.
    fn bake_conversion_for_selection(&mut self)
        requires
            old(self).wf(),
        ensures
            same_sources(*old(self), *final(self)),
            final(self).wf(),
            final(self).config == old(self).config,
            final(self).learning == old(self).learning,
            !(old(self).spec_state() is Conversion) ==> *final(self) == *old(self),
            old(self).spec_state() is Conversion ==> {
                let baked = old(self).spec_baked_selection();
                &&& final(self).spec_state() is Composing
                &&& final(self).spec_partial().remaining is None
                &&& final(self).live.text@.len() == 0
                &&& baked.len() <= CAPACITY ==> final(self).input_buf@ == settled_model(baked)
                &&& final(self).spec_partial().original_reading == (match old(self).spec_partial().original_reading {
                    Some(o) => Some(o),
                    None => Some(final(self).spec_partial().original_reading->0),
                })
                &&& old(self).spec_partial().original_reading is None ==>
                    final(self).spec_partial().original_reading->0@ == old(self).input_buf@.text
            },
    {
        let text = match self.selected_conversion_info() {
            Some((t, _)) => t,
            None => return,
        };
        self.conversion_space_count = 0;
        if self.partial.original_reading.is_none() {
            self.partial.original_reading = Some(self.input_buf.reading());
        }
        let t = chars_of(text.as_str());
        let baked = match self.partial.remaining.take() {
            Some((before, after)) => {
                let b = chars_of(before.as_str());
                let a = chars_of(after.as_str());
                let bt = concat_chars(b.as_slice(), t.as_slice());
                concat_chars(bt.as_slice(), a.as_slice())
            },
            None => t,
        };
        if baked.len() <= CAPACITY {
            self.input_buf.replace_all_settled(baked.as_slice());
        }
        self.live.text = String::new();
        self.set_composing_state();
    }

    /// The reading to learn when the whole composition is committed: the
    /// reading before any bake if a partial conversion happened, else
    /// `fallback`.
    pub(crate) fn take_learning_reading(&mut self, fallback: String) -> (r: String)
        requires
            old(self).wf(),
        ensures
            same_sources(*old(self), *final(self)),
            final(self).learning == old(self).learning,
            final(self).wf(),
            final(self).config == old(self).config,
            r == (match old(self).spec_partial().original_reading { Some(o) => o, None => fallback }),
            final(self).spec_partial().original_reading is None,
            *final(self) == (InputMethodEngine { partial: final(self).spec_partial(), ..*old(self) }),
            final(self).spec_partial().remaining == old(self).spec_partial().remaining,
    {
        match self.partial.original_reading.take() {
            Some(o) => o,
            None => fallback,
        }
    }
}


/// Law: when a selection that is not pure hiragana is re-converted against
/// an earlier reading, the span converted is exactly the expanded surface
/// range that `map_range` gives over the alignment: the text kept before
/// and after is the composition outside that range, so the kept text and
/// the converted span cover each surface character exactly once, and the
/// reading converted is the part of the earlier reading behind the range.
pub proof fn law_resolve_keeps_outside_expanded_range(full: Seq<char>, s: int, e: int, o: Seq<char>)
    requires
        0 <= s < e <= full.len(),
        !spec_is_pure_hiragana(full.subrange(s, e)),
    ensures
        ({
            let (rs, re, ss, se) = spec_map_range(spec_align(full, o), s, e);
            let (rd, before, after) = spec_resolve(full, s, e, Some(o));
            &&& 0 <= ss <= s && e <= se <= full.len()
            &&& before == full.take(ss)
            &&& after == full.skip(se)
            &&& before + full.subrange(ss, se) + after == full
            &&& before.len() + (se - ss) + after.len() == full.len()
            &&& rd == o.subrange(rs, re)
        }),
{
    law_align_map_range(full, o, s, e);
    let (rs, re, ss, se) = spec_map_range(spec_align(full, o), s, e);
    assert(full.take(ss) + full.subrange(ss, se) + full.skip(se) =~= full);
}

} // verus!
