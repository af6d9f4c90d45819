//! F6-F10 direct conversion: commit the reading in a fixed form without
//! conversion.
//!
//! | Key | Form |
//! |-----|------|
//! | F6  | hiragana |
//! | F7  | full-width katakana |
//! | F8  | half-width katakana |
//! | F9  | full-width alphanumeric |
//! | F10 | half-width alphanumeric |
//!
//! The settled reading is the source of all five. F9/F10 act on the ASCII
//! already in the reading (text typed in alphabet mode): kana are not
//! turned back into romaji.

use vstd::prelude::*;
use super::{aux_silent, same_sources, InputMethodEngine, EngineResult, EngineAction, Preedit, commit_of};
use crate::kana::hiragana_to_katakana;
use crate::keys::{Keysym};
use crate::text::{string_of};
use crate::buffer::spec_settle;
use crate::kana::{
    spec_kata_to_hira, spec_hira_to_kata, spec_half_width, spec_ascii_to_fullwidth, spec_fullwidth_to_ascii,
    katakana_to_hiragana, katakana_to_half_width, ascii_to_fullwidth_char, fullwidth_to_ascii_char,
};

verus! {

/// The fixed forms of direct conversion.
pub enum DirectForm {
    Hiragana,
    Katakana,
    HalfKatakana,
    FullwidthAscii,
    HalfwidthAscii,
}

/// The reading `s` in form `f`.
pub open spec fn spec_direct(f: DirectForm, s: Seq<char>) -> Seq<char> {
    match f {
        DirectForm::Hiragana => s.map_values(|c: char| spec_kata_to_hira(c)),
        DirectForm::Katakana => s.map_values(|c: char| spec_hira_to_kata(c)),
        DirectForm::HalfKatakana => spec_half_width(s.map_values(|c: char| spec_hira_to_kata(c))),
        DirectForm::FullwidthAscii => s.map_values(|c: char| spec_ascii_to_fullwidth(c)),
        DirectForm::HalfwidthAscii => s.map_values(|c: char| spec_fullwidth_to_ascii(c)),
    }
}

/// The form a function key converts to.
pub open spec fn fkey_form(k: Keysym) -> Option<DirectForm> {
    match k {
        Keysym::F6 => Some(DirectForm::Hiragana),
        Keysym::F7 => Some(DirectForm::Katakana),
        Keysym::F8 => Some(DirectForm::HalfKatakana),
        Keysym::F9 => Some(DirectForm::FullwidthAscii),
        Keysym::F10 => Some(DirectForm::HalfwidthAscii),
        _ => None,
    }
}

/// The reading `s` in form `f`.
pub fn direct_transform(f: &DirectForm, s: &[char]) -> (r: Vec<char>)
    ensures
        r@ == spec_direct(*f, s@),
{
    match f {
        DirectForm::Hiragana => katakana_to_hiragana(s),
        DirectForm::Katakana => hiragana_to_katakana(s),
        DirectForm::HalfKatakana => {
            let k = hiragana_to_katakana(s);
            katakana_to_half_width(k.as_slice())
        },
        DirectForm::FullwidthAscii => {
            let mut r: Vec<char> = Vec::new();
            let mut i: usize = 0;
            while i < s.len()
                invariant
                    i <= s@.len(),
                    r@ == s@.take(i as int).map_values(|c: char| spec_ascii_to_fullwidth(c)),
                decreases s@.len() - i,
            {
                r.push(ascii_to_fullwidth_char(s[i]));
                i = i + 1;
                assert(r@ =~= s@.take(i as int).map_values(|c: char| spec_ascii_to_fullwidth(c)));
            }
            assert(s@.take(s@.len() as int) =~= s@);
            r
        },
        DirectForm::HalfwidthAscii => {
            let mut r: Vec<char> = Vec::new();
            let mut i: usize = 0;
            while i < s.len()
                invariant
                    i <= s@.len(),
                    r@ == s@.take(i as int).map_values(|c: char| spec_fullwidth_to_ascii(c)),
                decreases s@.len() - i,
            {
                r.push(fullwidth_to_ascii_char(s[i]));
                i = i + 1;
                assert(r@ =~= s@.take(i as int).map_values(|c: char| spec_fullwidth_to_ascii(c)));
            }
            assert(s@.take(s@.len() as int) =~= s@);
            r
        },
    }
}

/// The composition's reading, settled, is committed in form `form` and the
/// engine returns to Empty: the preedit is cleared, the text committed, the
/// candidate window and aux line hidden, in that order. With an empty
/// reading the key is not taken and nothing is sent.
pub open spec fn direct_committed(pre: InputMethodEngine, post: InputMethodEngine, r: EngineResult, form: DirectForm) -> bool {
    let text = spec_settle(pre.input_buf@).text;
    &&& same_sources(pre, post)
    &&& text.len() == 0 ==> !r.consumed && r.actions@.len() == 0
    &&& text.len() > 0 ==> {
        &&& r.consumed
        &&& post.spec_state() is Empty
        &&& post.input_buf@.text.len() == 0
        &&& commit_of(r.actions@) == Some(spec_direct(form, text))
        &&& r.actions@.len() == 4
        &&& r.actions@[0] matches EngineAction::UpdatePreedit(p) && p.text_view().len() == 0
        &&& r.actions@[1] is Commit
        &&& r.actions@[2] is HideCandidates
        &&& r.actions@[3] is HideAuxText
    }
}

impl InputMethodEngine {
    /// Settle the composition and commit its reading in form `form`,
    /// ending the composition. Not taken when the reading is empty, so the
    /// key goes on to the application.
    fn commit_direct(&mut self, form: DirectForm) -> (r: EngineResult)
        requires
            old(self).wf(),
        ensures
            same_sources(*old(self), *final(self)),
            final(self).learning == old(self).learning,
            final(self).wf(),
            final(self).config == old(self).config,
            !old(self).config.show_aux_text ==> aux_silent(r.actions@),
            direct_committed(*old(self), *final(self), r, form),
    {
        self.settle_romaji();
        let reading = self.input_buf.reading_chars();
        if reading.len() == 0 {
            return EngineResult::not_consumed();
        }
        let text = direct_transform(&form, reading.as_slice());
        self.enter_empty_state();
        EngineResult::consumed()
            .with_action(EngineAction::UpdatePreedit(Preedit::new()))
            .with_action(EngineAction::Commit(string_of(text.as_slice())))
            .with_action(EngineAction::HideCandidates)
            .with_action(EngineAction::HideAuxText)
    }

    /// F6: commit as hiragana.
    pub(crate) fn direct_convert_hiragana(&mut self) -> (r: EngineResult)
        requires
            old(self).wf(),
        ensures
            same_sources(*old(self), *final(self)),
            final(self).learning == old(self).learning,
            final(self).wf(),
            final(self).config == old(self).config,
            !old(self).config.show_aux_text ==> aux_silent(r.actions@),
            direct_committed(*old(self), *final(self), r, DirectForm::Hiragana),
    {
        self.commit_direct(DirectForm::Hiragana)
    }

    /// F7: commit as full-width katakana.
    pub(crate) fn direct_convert_katakana(&mut self) -> (r: EngineResult)
        requires
            old(self).wf(),
        ensures
            same_sources(*old(self), *final(self)),
            final(self).learning == old(self).learning,
            final(self).wf(),
            final(self).config == old(self).config,
            !old(self).config.show_aux_text ==> aux_silent(r.actions@),
            direct_committed(*old(self), *final(self), r, DirectForm::Katakana),
    {
        self.commit_direct(DirectForm::Katakana)
    }

    /// F8: commit as half-width katakana.
    pub(crate) fn direct_convert_half_katakana(&mut self) -> (r: EngineResult)
        requires
            old(self).wf(),
        ensures
            same_sources(*old(self), *final(self)),
            final(self).learning == old(self).learning,
            final(self).wf(),
            final(self).config == old(self).config,
            !old(self).config.show_aux_text ==> aux_silent(r.actions@),
            direct_committed(*old(self), *final(self), r, DirectForm::HalfKatakana),
    {
        self.commit_direct(DirectForm::HalfKatakana)
    }

    /// F9: commit as full-width alphanumeric.
    pub(crate) fn direct_convert_fullwidth(&mut self) -> (r: EngineResult)
        requires
            old(self).wf(),
        ensures
            same_sources(*old(self), *final(self)),
            final(self).learning == old(self).learning,
            final(self).wf(),
            final(self).config == old(self).config,
            !old(self).config.show_aux_text ==> aux_silent(r.actions@),
            direct_committed(*old(self), *final(self), r, DirectForm::FullwidthAscii),
    {
        self.commit_direct(DirectForm::FullwidthAscii)
    }

    /// F10: commit as half-width alphanumeric.
    pub(crate) fn direct_convert_halfwidth(&mut self) -> (r: EngineResult)
        requires
            old(self).wf(),
        ensures
            same_sources(*old(self), *final(self)),
            final(self).learning == old(self).learning,
            final(self).wf(),
            final(self).config == old(self).config,
            !old(self).config.show_aux_text ==> aux_silent(r.actions@),
            direct_committed(*old(self), *final(self), r, DirectForm::HalfwidthAscii),
    {
        self.commit_direct(DirectForm::HalfwidthAscii)
    }

    /// F6-F10 in Conversion: back to the untouched composition first, so
    /// the reading (not the selected candidate) is transformed.
    pub(crate) fn direct_convert_from_conversion(&mut self, form: DirectForm) -> (r: EngineResult)
        requires
            old(self).wf(),
        ensures
            same_sources(*old(self), *final(self)),
            final(self).learning == old(self).learning,
            final(self).wf(),
            final(self).config == old(self).config,
            !old(self).config.show_aux_text ==> aux_silent(r.actions@),
            direct_committed(*old(self), *final(self), r, form),
    {
        self.set_composing_state();
        self.commit_direct(form)
    }
}


/// Law: F9 widens every printable ASCII character, digits and punctuation
/// included, to the full-width character 0xFEE0 above it (a space becomes
/// the ideographic space); other characters stay. F10 undoes it: on
/// printable ASCII text, F9 then F10 gives the text back.
pub proof fn law_f9_widens_all_printable_ascii(s: Seq<char>)
    ensures
        fkey_form(Keysym::F9) == Some(DirectForm::FullwidthAscii),
        fkey_form(Keysym::F10) == Some(DirectForm::HalfwidthAscii),
        spec_direct(DirectForm::FullwidthAscii, s).len() == s.len(),
        forall|i: int| 0 <= i < s.len() && '!' <= s[i] && s[i] <= '~' ==>
            (#[trigger] spec_direct(DirectForm::FullwidthAscii, s)[i]) as u32 == (s[i] as u32) + 0xFEE0,
        forall|i: int| 0 <= i < s.len() && s[i] == ' ' ==>
            #[trigger] spec_direct(DirectForm::FullwidthAscii, s)[i] == '\u{3000}',
        forall|i: int| 0 <= i < s.len() && (s[i] as u32) < 0x20 ==>
            #[trigger] spec_direct(DirectForm::FullwidthAscii, s)[i] == s[i],
        (forall|i: int| 0 <= i < s.len() ==> ' ' <= #[trigger] s[i] && s[i] <= '~') ==>
            spec_direct(DirectForm::HalfwidthAscii, spec_direct(DirectForm::FullwidthAscii, s)) == s,
{
    let w = spec_direct(DirectForm::FullwidthAscii, s);
    assert forall|i: int| 0 <= i < s.len() && '!' <= s[i] && s[i] <= '~' implies
        (#[trigger] w[i]) as u32 == (s[i] as u32) + 0xFEE0 by {
        let c = s[i];
        assert(w[i] == spec_ascii_to_fullwidth(c));
        assert(0xFF01 <= (c as u32) + 0xFEE0 <= 0xFF5E);
    }
    if forall|i: int| 0 <= i < s.len() ==> ' ' <= #[trigger] s[i] && s[i] <= '~' {
        let h = spec_direct(DirectForm::HalfwidthAscii, w);
        assert forall|i: int| 0 <= i < s.len() implies #[trigger] h[i] == s[i] by {
            let c = s[i];
            assert(w[i] == spec_ascii_to_fullwidth(c));
            assert(h[i] == spec_fullwidth_to_ascii(w[i]));
            if c != ' ' {
                assert(0xFF01 <= (c as u32) + 0xFEE0 <= 0xFF5E);
            }
        }
        assert(h =~= s);
    }
}

} // verus!
