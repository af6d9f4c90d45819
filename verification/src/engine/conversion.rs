//! The Conversion state: building candidates, choosing among them,
//! committing or cancelling.

use vstd::prelude::*;
use super::{aux_silent, same_sources, window_action, ConversionStrategy, InputMethodEngine, InputMode, InputState, EngineResult, EngineAction, Preedit, CAPACITY, commit_of};
use super::direct::{fkey_form, direct_committed};
use super::cursor::caret_key;
use crate::buffer::{spec_settle, settled_model};
use crate::candidates::{
    Candidate, CandidateList, CandView, AnnotatedCandidate, AnnView, CandidateBuilder, CandidateSource, cand_views,
    has_text, has_ann_text, width_annotation, spec_width_annotation, opt_view, copy_opt_string, string_views,
    ann_views, ann, push_new, dedup_strings, merge_candidates_dedup,
};
use crate::kana::{hiragana_to_katakana, spec_hira_to_kata, spec_is_kana, is_kana};
use crate::keys::{KeyEvent, Keysym};
use crate::sources::{
    sort_candidates_by_score, sort_by_score, DictCandidate, Dictionary, dict_views, spec_lookup, spec_prefix_lookup,
    LearnedView, spec_rewrite, variant_views, SymbolView, spec_symbol_description,
};
use crate::text::{chars_of, concat_chars, string_of};

verus! {

/// Most learning candidates offered for one reading.
pub const MAX_LEARNING_CANDIDATES: usize = 3;

/// Whether `s` holds a hiragana or katakana character.
pub open spec fn spec_contains_kana(s: Seq<char>) -> bool {
    exists|i: int| 0 <= i < s.len() && spec_is_kana(#[trigger] s[i])
}

pub fn contains_kana(s: &[char]) -> (b: bool)
    ensures
        b == spec_contains_kana(s@),
{
    let mut i: usize = 0;
    while i < s.len()
        invariant
            i <= s@.len(),
            forall|k: int| 0 <= k < i ==> !spec_is_kana(s@[k]),
        decreases s@.len() - i,
    {
        if is_kana(s[i]) {
            return true;
        }
        i = i + 1;
    }
    false
}

/// The first `n` of `s` (all of `s` when it is shorter).
pub open spec fn at_most<A>(s: Seq<A>, n: int) -> Seq<A> {
    s.take(if n < s.len() { n } else { s.len() as int })
}

// ---------------------------------------------------------------------
// Learning candidates
// ---------------------------------------------------------------------

/// A learning candidate: a learned surface with the reading it was
/// learned for.
pub open spec fn learned_cand(text: Seq<char>, reading: Seq<char>) -> CandView {
    CandView {
        text,
        reading: Some(reading),
        source_label: Some(CandidateSource::Learning.spec_label()),
        description: None,
    }
}

/// `acc` with `c` appended, unless `acc` is full or already has its text.
pub open spec fn push_learned(acc: Seq<CandView>, c: CandView) -> Seq<CandView> {
    if acc.len() >= MAX_LEARNING_CANDIDATES || has_text(acc, c.text) { acc } else { acc.push(c) }
}

/// The exact matches `s` (surface, count) for `r`, pushed in order.
pub open spec fn learned_exact(acc: Seq<CandView>, s: Seq<(Seq<char>, u64)>, r: Seq<char>) -> Seq<CandView>
    decreases s.len(),
{
    if s.len() == 0 {
        acc
    } else {
        push_learned(learned_exact(acc, s.drop_last(), r), learned_cand(s.last().0, r))
    }
}

/// The predictive matches `s` for `r`, pushed in order; entries for
/// exactly `r` are skipped.
pub open spec fn learned_prefix(acc: Seq<CandView>, s: Seq<LearnedView>, r: Seq<char>) -> Seq<CandView>
    decreases s.len(),
{
    if s.len() == 0 {
        acc
    } else {
        let a = learned_prefix(acc, s.drop_last(), r);
        if s.last().0 == r { a } else { push_learned(a, learned_cand(s.last().1, s.last().0)) }
    }
}

/// The learning candidates of the cache `v` for `r`: exact matches, then
/// predictive matches for longer readings, each surface once, at most
/// three.
pub open spec fn spec_learned(v: Seq<LearnedView>, r: Seq<char>) -> Seq<CandView> {
    learned_prefix(learned_exact(seq![], spec_lookup(v, r), r), spec_prefix_lookup(v, r), r)
}

// ---------------------------------------------------------------------
// Dictionary candidates
// ---------------------------------------------------------------------

/// `acc` with `c` appended unless `acc` holds `limit` candidates already
/// or has its text.
pub open spec fn push_limited(acc: Seq<AnnView>, c: AnnView, limit: int) -> Seq<AnnView> {
    if acc.len() >= limit { acc } else { push_new(acc, c) }
}

/// The dictionary candidates `s`, pushed in order as candidates of source
/// `src`.
pub open spec fn push_dict(acc: Seq<AnnView>, s: Seq<(Seq<char>, u32)>, src: CandidateSource, limit: int) -> Seq<AnnView>
    decreases s.len(),
{
    if s.len() == 0 {
        acc
    } else {
        push_limited(push_dict(acc, s.drop_last(), src, limit), ann(s.last().0, src), limit)
    }
}

/// What the dictionary `d` (if any) holds for exactly `r`.
pub open spec fn found_in(d: Option<Dictionary>, r: Seq<char>) -> Seq<(Seq<char>, u32)> {
    match d {
        Some(d) => match d.spec_search(r) {
            Some(v) => v,
            None => seq![],
        },
        None => seq![],
    }
}

/// A dictionary candidate as shown while typing.
pub open spec fn dict_cand(c: AnnView, r: Seq<char>) -> CandView {
    CandView { text: c.text, reading: Some(r), source_label: Some(c.source.spec_label()), description: None }
}

/// A rewriter variant as shown while typing.
pub open spec fn variant_cand(v: (Seq<char>, Option<Seq<char>>), r: Seq<char>) -> CandView {
    CandView { text: v.0, reading: Some(r), source_label: Some(CandidateSource::Rewriter.spec_label()), description: v.1 }
}

// ---------------------------------------------------------------------
// Conversion candidates
// ---------------------------------------------------------------------

/// A learning candidate among conversion candidates; an exact match keeps
/// no reading (it is the conversion's own).
pub open spec fn learned_ann(c: CandView, r: Seq<char>) -> AnnView {
    AnnView {
        text: c.text,
        reading: if c.reading == Some(r) { None } else { c.reading },
        source: CandidateSource::Learning,
        description: None,
    }
}

/// The candidates of `s` with source `src`, pushed in order.
pub open spec fn push_source(acc: Seq<AnnView>, s: Seq<AnnView>, src: CandidateSource) -> Seq<AnnView>
    decreases s.len(),
{
    if s.len() == 0 {
        acc
    } else {
        let a = push_source(acc, s.drop_last(), src);
        if s.last().source == src { push_new(a, s.last()) } else { a }
    }
}

/// The candidates of `s`, pushed in order.
pub open spec fn push_each(acc: Seq<AnnView>, s: Seq<AnnView>) -> Seq<AnnView>
    decreases s.len(),
{
    if s.len() == 0 {
        acc
    } else {
        push_new(push_each(acc, s.drop_last()), s.last())
    }
}

/// A fallback candidate without a description gets the description the
/// symbol table `t` has for its text, if any.
pub open spec fn describe_fallback(t: Seq<SymbolView>, c: AnnView) -> AnnView {
    if c.source == CandidateSource::Fallback && c.description is None {
        AnnView { description: spec_symbol_description(t, c.text), ..c }
    } else {
        c
    }
}

/// A conversion candidate as finally shown: a symbol description for a
/// fallback, else (or when there is none) a width annotation.
pub open spec fn finish_candidate(t: Seq<SymbolView>, c: AnnView) -> AnnView {
    annotate_width(describe_fallback(t, c))
}

/// A candidate without a description gets the width annotation of its
/// text (if it is pure kana).
pub open spec fn annotate_width(c: AnnView) -> AnnView {
    if c.description is None {
        AnnView { description: spec_width_annotation(c.text), ..c }
    } else {
        c
    }
}

/// A rewriter variant among conversion candidates.
pub open spec fn variant_ann(v: (Seq<char>, Option<Seq<char>>)) -> AnnView {
    AnnView { text: v.0, reading: None, source: CandidateSource::Rewriter, description: v.1 }
}

/// A conversion candidate as shown: its reading defaults to the
/// conversion's, its label is its source's (none when empty).
pub open spec fn conv_cand(a: AnnView, r: Seq<char>) -> CandView {
    CandView {
        text: a.text,
        reading: Some(match a.reading { Some(x) => x, None => r }),
        source_label: if a.source.spec_label().len() > 0 { Some(a.source.spec_label()) } else { None },
        description: a.description,
    }
}

/// The suggestion shown while typing stays among the candidates: it goes
/// first when it differs from the reading and no candidate has its text.
pub open spec fn keep_shown(c: Seq<AnnView>, shown: Seq<char>, r: Seq<char>) -> Seq<AnnView> {
    if shown.len() > 0 && shown != r && !has_ann_text(c, shown) {
        seq![ann(shown, CandidateSource::Model)] + c
    } else {
        c
    }
}

/// The views of an optional pair of strings.
pub open spec fn opt_pair_view(o: Option<(String, String)>) -> Option<(Seq<char>, Seq<char>)> {
    match o {
        Some((a, b)) => Some((a@, b@)),
        None => None,
    }
}

/// Whether some annotated candidate of `v` has the text `t`.
fn has_candidate_text(v: &Vec<AnnotatedCandidate>, t: &String) -> (b: bool)
    ensures
        b == has_ann_text(ann_views(v@), t@),
{
    let ghost vv = ann_views(v@);
    let mut i: usize = 0;
    while i < v.len()
        invariant
            i <= v@.len(),
            vv == ann_views(v@),
            forall|k: int| 0 <= k < i ==> vv[k].text != t@,
        decreases v@.len() - i,
    {
        assert(vv[i as int].text == v@[i as int].text@);
        if v[i].text == *t {
            return true;
        }
        i = i + 1;
    }
    false
}

/// What Space does: the engine `e0` becomes `e1`. The pending keys settle;
/// the span to convert (see `spec_conversion_span`) is converted with the
/// candidates of `spec_start_candidates`, the first selected, and the text
/// around a selection is kept aside; without candidates the composition
/// stays.
pub open spec fn conversion_started(e0: InputMethodEngine, e1: InputMethodEngine, skip_learning: bool) -> bool {
    let (reading, remaining) = e0.spec_conversion_span();
    let cands = e0.spec_start_candidates(reading, skip_learning);
    &&& e1.input_buf@.text == spec_settle(e0.input_buf@).text
    &&& e1.input_buf@.live.len() == 0
    &&& e1.input_buf@.anchor is None
    &&& e1.suggest_candidates is None
    &&& e1.live.text@.len() == 0
    &&& e1.spec_partial().original_reading == e0.spec_partial().original_reading
    &&& e1.learning == e0.learning
    &&& e1.input_mode == e0.input_mode
    &&& reading.len() == 0 ==> e1.spec_state() == e0.spec_state()
        && opt_pair_view(e1.spec_partial().remaining) == remaining
    &&& reading.len() > 0 && cands.len() == 0 ==> e1.spec_state() is Composing
        && e1.spec_partial().remaining is None
    &&& reading.len() > 0 && cands.len() > 0 ==> {
        &&& e1.spec_state() matches InputState::Conversion { candidates, .. }
            && cand_views(candidates.items()) == cands.map_values(|a: AnnView| conv_cand(a, reading))
            && candidates.pos() == 0
        &&& opt_pair_view(e1.spec_partial().remaining) == remaining
    }
}

/// Entering Conversion over `reading`: the preedit is redrawn, then,
/// when the window threshold lets it show at the first press, the window
/// shows the candidates and the aux line the reading with the selected
/// position; otherwise both are hidden.
pub open spec fn conversion_entered(post: InputMethodEngine, r: EngineResult, reading: Seq<char>) -> bool {
    post.spec_state() matches InputState::Conversion { candidates, .. } && {
        &&& r.actions@.len() == 3
        &&& r.actions@[0] is UpdatePreedit
        &&& post.config.candidate_window_threshold <= 1 ==> {
            &&& window_action(r.actions@[1]) == Some(Some(cand_views(candidates.items())))
            &&& r.actions@[2] matches EngineAction::UpdateAuxText(a) && a@ == post.spec_aux_conversion(reading, Some(candidates))
        }
        &&& post.config.candidate_window_threshold > 1 ==> r.actions@[1] is HideCandidates && r.actions@[2] is HideAuxText
    }
}

/// Space while composing: a conversion starts (see `conversion_started`)
/// and, when it has candidates, Conversion is entered and shown.
pub open spec fn space_converted(pre: InputMethodEngine, post: InputMethodEngine, r: EngineResult, skip_learning: bool) -> bool {
    let reading = pre.spec_conversion_span().0;
    &&& same_sources(pre, post)
    &&& r.consumed
    &&& commit_of(r.actions@) is None
    &&& conversion_started(pre, post, skip_learning)
    &&& reading.len() > 0 && pre.spec_start_candidates(reading, skip_learning).len() > 0
        ==> conversion_entered(post, r, reading)
}

/// The learning cache's entries, if there is a cache.
pub open spec fn learning_view(o: Option<crate::sources::LearningCache>) -> Option<Seq<LearnedView>> {
    match o {
        Some(c) => Some(c.view()),
        None => None,
    }
}

/// Recording that `s` was chosen for `r`, in the cache if there is one.
pub open spec fn record_opt(o: Option<Seq<LearnedView>>, r: Seq<char>, s: Seq<char>) -> Option<Seq<LearnedView>> {
    match o {
        Some(v) => Some(crate::sources::spec_record(v, r, s)),
        None => None,
    }
}

/// Accepting the candidate text `t` turns `e0` into `e1` with result `r`:
/// it is learned for its reading (when `learn` and it has one); during a
/// partial conversion it is baked into the composition between the text
/// kept aside, otherwise it is committed and the engine returns to Empty.
pub open spec fn candidate_accepted(
    e0: InputMethodEngine,
    e1: InputMethodEngine,
    r: EngineResult,
    t: Seq<char>,
    reading: Option<Seq<char>>,
    learn: bool,
) -> bool {
    &&& r.consumed
    &&& learning_view(e1.learning) == (match reading {
        Some(rd) => if learn { record_opt(learning_view(e0.learning), rd, t) } else { learning_view(e0.learning) },
        None => learning_view(e0.learning),
    })
    &&& match e0.partial.remaining {
        None => commit_of(r.actions@) == Some(t) && e1.spec_state() is Empty,
        Some((before, after)) => {
            let baked = before@ + t + after@;
            &&& e1.spec_partial().remaining is None
            &&& e1.live.text@.len() == 0
            &&& 0 < baked.len() <= CAPACITY ==> commit_of(r.actions@) is None && e1.spec_state() is Composing
                && e1.input_buf@ == settled_model(baked)
                // A later selection is aligned against the reading from
                // before the first bake.
                && e1.spec_partial().original_reading == (match e0.spec_partial().original_reading {
                    Some(o) => Some(o),
                    None => Some(e1.spec_partial().original_reading->0),
                })
                && (e0.spec_partial().original_reading is None ==>
                    e1.spec_partial().original_reading->0@ == e0.input_buf@.text)
            // Too long to keep composing, it is committed instead.
            &&& baked.len() > CAPACITY ==> commit_of(r.actions@) == Some(baked) && e1.spec_state() is Empty
        },
    }
}

/// The digit key `digit` in Conversion picks the candidate in that slot
/// of the page shown and accepts it (learning it); a slot with no
/// candidate changes nothing.
pub open spec fn digit_picked(pre: InputMethodEngine, post: InputMethodEngine, r: EngineResult, digit: usize) -> bool {
    pre.spec_state() matches InputState::Conversion { candidates, .. } && {
        let idx = (candidates.pos() / candidates.page()) * candidates.page() + digit - 1;
        let found = 1 <= digit <= candidates.page() && idx < candidates.items().len();
        &&& !found ==> r.consumed && commit_of(r.actions@) is None && post.spec_state() == pre.spec_state()
        &&& found ==> candidate_accepted(pre, post, r, candidates.items()[idx].text@,
            opt_view(candidates.items()[idx].reading), true)
    }
}

/// A printable key `ch` in Conversion commits the selected candidate
/// (after the text kept aside before it, in a partial conversion; learned
/// outside emoji mode) and starts a new composition with `ch`.
pub open spec fn conversion_continued(pre: InputMethodEngine, post: InputMethodEngine, r: EngineResult, ch: char) -> bool {
    let (t, rd) = pre.spec_selected_conversion();
    let m = if pre.input_mode == InputMode::Alphabet || pre.input_mode == InputMode::Emoji {
        InputMode::Hiragana
    } else {
        pre.input_mode
    };
    &&& same_sources(pre, post)
    &&& r.consumed
    &&& commit_of(r.actions@) == Some(match pre.partial.remaining {
        Some((before, _after)) => before@ + t,
        None => t,
    })
    &&& learning_view(post.learning) == (match rd {
        Some(x) => if pre.input_mode != InputMode::Emoji {
            record_opt(learning_view(pre.learning), x, t)
        } else {
            learning_view(pre.learning)
        },
        None => learning_view(pre.learning),
    })
    &&& post.input_mode == m
    &&& post.input_buf@ == super::composing::spec_first_input(m, ch)
    &&& super::composing::shows_composition(post)
    &&& post.live.text@.len() == 0
}

/// Shift+arrow in Conversion: the selected candidate is baked into the
/// composition and a selection starts in it: its last character
/// (Shift+Left), its first (Shift+Right), or all of it (Shift+Home/End).
pub open spec fn selection_from_conversion(pre: InputMethodEngine, post: InputMethodEngine, r: EngineResult, k: Keysym) -> bool {
    let baked = pre.spec_baked_selection();
    &&& same_sources(pre, post)
    &&& r.consumed
    &&& commit_of(r.actions@) is None
    &&& post.spec_state() is Composing
    &&& 0 < baked.len() <= CAPACITY ==> crate::buffer::spec_selection(post.input_buf@) == (
        if k == Keysym::LEFT {
            Some((baked.len() - 1, baked.len() as int))
        } else if k == Keysym::RIGHT {
            Some((0int, 1int))
        } else {
            Some((0int, baked.len() as int))
        })
}

/// The reading of the selected candidate of `l` (empty without one).
pub open spec fn selected_reading(l: CandidateList) -> Seq<char> {
    match l.spec_selected() {
        Some(c) => match c.reading {
            Some(x) => x@,
            None => Seq::<char>::empty(),
        },
        None => Seq::<char>::empty(),
    }
}

/// Conversion redrawn after the selection moved: the preedit shows the
/// selected candidate (between the text kept aside, in a partial
/// conversion); then, once the conversion key has been pressed as often as
/// the window threshold asks, the window shows the candidates and the aux
/// line the selected candidate's reading and position; otherwise both are
/// hidden.
pub open spec fn conversion_redrawn(post: InputMethodEngine, r: EngineResult) -> bool {
    post.spec_state() matches InputState::Conversion { candidates, .. } && {
        let show = post.config.candidate_window_threshold == 0
            || post.conversion_space_count >= post.config.candidate_window_threshold;
        &&& r.actions@.len() == 3
        &&& r.actions@[0] matches EngineAction::UpdatePreedit(p)
            && p.text_view() == post.spec_conversion_preedit(post.spec_selected_conversion().0).0
        &&& show ==> {
            &&& window_action(r.actions@[1]) == Some(Some(cand_views(candidates.items())))
            &&& r.actions@[2] matches EngineAction::UpdateAuxText(a)
                && a@ == post.spec_aux_conversion(selected_reading(candidates), Some(candidates))
        }
        &&& !show ==> r.actions@[1] is HideCandidates && r.actions@[2] is HideAuxText
    }
}

/// The keys Conversion answers by name: Enter, Escape, Backspace, F6-F10
/// and the keys that move the selection.
pub open spec fn conversion_named_key(k: Keysym) -> bool {
    k == Keysym::RETURN || k == Keysym::ESCAPE || k == Keysym::BACKSPACE || fkey_form(k) is Some
        || move_key(k) is Some
}

/// Moves through the candidate list.
pub enum CandidateMove {
    Next,
    Prev,
    NextPage,
    PrevPage,
}

/// The selected position after the move `mv` in a list of `n`
/// candidates shown `page` at a time, from position `pos`: the next and
/// previous candidate wrap around; a page move goes to the first
/// candidate of the next or previous page, if there is one.
pub open spec fn moved_pos(n: int, pos: int, page: int, mv: CandidateMove) -> int {
    match mv {
        CandidateMove::Next => if n == 0 { pos } else if pos + 1 < n { pos + 1 } else { 0 },
        CandidateMove::Prev => if n == 0 { pos } else if pos > 0 { pos - 1 } else { n - 1 },
        CandidateMove::NextPage => if (pos / page + 1) * page < n { (pos / page + 1) * page } else { pos },
        CandidateMove::PrevPage => if pos / page > 0 { (pos / page - 1) * page } else { pos },
    }
}

/// The move through the candidates a key makes in Conversion: Space, Down
/// and Tab the next, Up the previous, the page keys a page.
pub open spec fn move_key(k: Keysym) -> Option<CandidateMove> {
    if k == Keysym::SPACE || k == Keysym::DOWN || k == Keysym::TAB {
        Some(CandidateMove::Next)
    } else if k == Keysym::UP {
        Some(CandidateMove::Prev)
    } else if k == Keysym::PAGE_DOWN {
        Some(CandidateMove::NextPage)
    } else if k == Keysym::PAGE_UP {
        Some(CandidateMove::PrevPage)
    } else {
        None
    }
}

/// The selection moved by `m` over the same candidates.
pub open spec fn selection_moved(pre: InputMethodEngine, post: InputMethodEngine, r: EngineResult, m: CandidateMove) -> bool {
    pre.spec_state() matches InputState::Conversion { candidates: c0, .. } && {
        &&& r.consumed
        &&& commit_of(r.actions@) is None
        &&& post.spec_state() matches InputState::Conversion { candidates: c1, .. }
            && c1.items() == c0.items() && c1.pos() == moved_pos(c0.items().len() as int, c0.pos(), c0.page(), m)
        &&& c0.items().len() > 0 ==> conversion_redrawn(post, r)
    }
}

impl InputMethodEngine {
    /// Conversions of `reading` when `n` are asked for. The converters
    /// are for kana: a reading without kana gets none, as does an engine
    /// without a main converter. The converters are given the reading in
    /// katakana; the strategy says which of them answer (see
    /// `ConversionStrategy`).
    pub open spec fn spec_model_conversions(&self, reading: Seq<char>, n: usize) -> Seq<Seq<char>> {
        if !spec_contains_kana(reading) {
            seq![]
        } else {
            match self.converters.kanji {
                None => seq![],
                Some(main) => {
                    let kata = reading.map_values(|c: char| spec_hira_to_kata(c));
                    match self.converters.strategy {
                        ConversionStrategy::MainModel => at_most(main.conversions(kata), n as int),
                        ConversionStrategy::LightModel => match self.converters.light_kanji {
                            Some(light) => at_most(light.conversions(kata), 1),
                            None => seq![],
                        },
                        ConversionStrategy::ParallelBeam => match self.converters.light_kanji {
                            Some(light) => at_most(
                                dedup_strings(seq![], at_most(main.conversions(kata), 1) + at_most(light.conversions(kata), n as int)),
                                n as int,
                            ),
                            None => seq![],
                        },
                    }
                },
            }
        }
    }

    /// The learning candidates for `r` (none without a learning cache).
    pub open spec fn spec_learning_candidates(&self, r: Seq<char>) -> Seq<CandView> {
        match self.learning {
            Some(c) => spec_learned(c.view(), r),
            None => seq![],
        }
    }

    /// Dictionary candidates for `r`, at most `limit`: the user
    /// dictionary's, then the system dictionary's by ascending cost, each
    /// text once.
    pub open spec fn spec_dict_search(&self, r: Seq<char>, limit: int) -> Seq<AnnView> {
        let a = push_dict(seq![], found_in(self.dicts.user, r), CandidateSource::UserDictionary, limit);
        push_dict(a, sort_by_score(found_in(self.dicts.system, r)), CandidateSource::Dictionary, limit)
    }

    /// The candidates of an explicit conversion of `r`, in priority order:
    /// learning (unless skipped; these are kept even when a later source
    /// repeats their text), user dictionary, converter, system dictionary,
    /// the hiragana and katakana forms as fallback, rewriter variants;
    /// each later text once. A fallback that the symbol table knows gets
    /// its description; candidates still without one get a width
    /// annotation.
    pub open spec fn spec_conversion_candidates(&self, r: Seq<char>, n: usize, skip_learning: bool) -> Seq<AnnView> {
        let model = self.spec_model_conversions(r, n);
        let dict = self.spec_dict_search(r, usize::MAX as int);
        let a1 = if skip_learning {
            seq![]
        } else {
            self.spec_learning_candidates(r).map_values(|c: CandView| learned_ann(c, r))
        };
        let a2 = push_source(a1, dict, CandidateSource::UserDictionary);
        let a3 = push_each(a2, model.map_values(|t: Seq<char>| ann(t, CandidateSource::Model)));
        let a4 = push_source(a3, dict, CandidateSource::Dictionary);
        let a5 = if self.input_mode != InputMode::Emoji {
            push_new(
                push_new(a4, ann(r, CandidateSource::Fallback)),
                ann(r.map_values(|c: char| spec_hira_to_kata(c)), CandidateSource::Fallback),
            )
        } else {
            a4
        };
        let variants = spec_rewrite(self.converters.rewriters.view(), r).map_values(
            |v: (Seq<char>, Option<Seq<char>>)| variant_ann(v),
        );
        let symbols = self.converters.symbols.view();
        push_each(a5, variants).map_values(|c: AnnView| finish_candidate(symbols, c))
    }

    /// Conversions of `reading` by the kana-kanji converters, at most
    /// `num_candidates` (see `spec_model_conversions`).
    fn run_kana_kanji_conversion(&self, reading: &String, num_candidates: usize) -> (r: Vec<String>)
        ensures
            string_views(r@) == self.spec_model_conversions(reading@, num_candidates),
    {
        let rc = chars_of(reading.as_str());
        if !contains_kana(rc.as_slice()) {
            let v: Vec<String> = Vec::new();
            assert(string_views(v@) =~= Seq::<Seq<char>>::empty());
            return v;
        }
        let main = match &self.converters.kanji {
            Some(k) => k,
            None => {
                let v: Vec<String> = Vec::new();
                assert(string_views(v@) =~= Seq::<Seq<char>>::empty());
                return v;
            },
        };
        let katakana = string_of(hiragana_to_katakana(rc.as_slice()).as_slice());
        match self.converters.strategy {
            ConversionStrategy::MainModel => main.convert(&katakana, num_candidates),
            ConversionStrategy::LightModel => match &self.converters.light_kanji {
                Some(light) => light.convert(&katakana, 1),
                None => {
                    let v: Vec<String> = Vec::new();
                    assert(string_views(v@) =~= Seq::<Seq<char>>::empty());
                    v
                },
            },
            ConversionStrategy::ParallelBeam => match &self.converters.light_kanji {
                Some(light) => {
                    let default_top1 = main.convert(&katakana, 1);
                    let light_candidates = light.convert(&katakana, num_candidates);
                    merge_candidates_dedup(default_top1, light_candidates, num_candidates)
                },
                None => {
                    let v: Vec<String> = Vec::new();
                    assert(string_views(v@) =~= Seq::<Seq<char>>::empty());
                    v
                },
            },
        }
    }

    /// Suggestions for `reading`: the converter's, or the reading itself
    /// when the converter has none.
    pub(crate) fn run_auto_suggest(&self, reading: &String, num_candidates: usize) -> (r: Vec<String>)
        ensures
            string_views(r@) == (if self.spec_model_conversions(reading@, num_candidates).len() == 0 {
                seq![reading@]
            } else {
                self.spec_model_conversions(reading@, num_candidates)
            }),
    {
        let candidates = self.run_kana_kanji_conversion(reading, num_candidates);
        if candidates.len() == 0 {
            let v: Vec<String> = vec![reading.clone()];
            assert(string_views(v@) =~= seq![reading@]);
            v
        } else {
            candidates
        }
    }

    /// Learning candidates for `reading`: exact matches, then predictive
    /// (prefix) matches for longer readings, each surface once, at most
    /// three.
    pub(crate) fn lookup_learning_candidates(&self, reading: &String) -> (r: Vec<Candidate>)
        ensures
            cand_views(r@) == self.spec_learning_candidates(reading@),
    {
        let cache = match &self.learning {
            Some(c) => c,
            None => {
                let v: Vec<Candidate> = Vec::new();
                assert(cand_views(v@) =~= Seq::<CandView>::empty());
                return v;
            },
        };
        let ghost rd = reading@;
        let mut candidates: Vec<Candidate> = Vec::new();
        let label = CandidateSource::Learning.label();
        let exact = cache.lookup(reading);
        let ghost sl = spec_lookup(cache.view(), rd);
        assert(sl.take(0) =~= Seq::<(Seq<char>, u64)>::empty());
        assert(cand_views(candidates@) =~= Seq::<CandView>::empty());
        let mut i: usize = 0;
        while i < exact.len()
            invariant
                i <= exact@.len(),
                rd == reading@,
                exact@.map_values(|x: (String, u64)| (x.0@, x.1)) == sl,
                label@ == CandidateSource::Learning.spec_label(),
                cand_views(candidates@) == learned_exact(seq![], sl.take(i as int), rd),
            decreases exact@.len() - i,
        {
            assert(sl.take(i + 1).drop_last() =~= sl.take(i as int));
            assert(sl[i as int] == (exact@[i as int].0@, exact@[i as int].1));
            let surface = exact[i].0.clone();
            let ghost before = cand_views(candidates@);
            if candidates.len() < MAX_LEARNING_CANDIDATES && !crate::candidates::contains_text(&candidates, &surface) {
                let c = Candidate {
                    text: surface,
                    reading: Some(reading.clone()),
                    source_label: Some(label.clone()),
                    description: None,
                };
                assert(c@ == learned_cand(sl[i as int].0, rd));
                candidates.push(c);
                assert(cand_views(candidates@) =~= before.push(c@));
            }
            i = i + 1;
        }
        assert(sl.take(exact@.len() as int) =~= sl);
        let ghost a0 = cand_views(candidates@);
        let prefix = cache.prefix_lookup(reading);
        let ghost sp = spec_prefix_lookup(cache.view(), rd);
        assert(sp.take(0) =~= Seq::<LearnedView>::empty());
        let mut j: usize = 0;
        while j < prefix.len()
            invariant
                j <= prefix@.len(),
                rd == reading@,
                prefix@.map_values(|x: (String, String, u64)| (x.0@, x.1@, x.2)) == sp,
                label@ == CandidateSource::Learning.spec_label(),
                cand_views(candidates@) == learned_prefix(a0, sp.take(j as int), rd),
            decreases prefix@.len() - j,
        {
            assert(sp.take(j + 1).drop_last() =~= sp.take(j as int));
            assert(sp[j as int] == (prefix@[j as int].0@, prefix@[j as int].1@, prefix@[j as int].2));
            let full_reading = prefix[j].0.clone();
            let surface = prefix[j].1.clone();
            let ghost before = cand_views(candidates@);
            if full_reading != *reading && candidates.len() < MAX_LEARNING_CANDIDATES
                && !crate::candidates::contains_text(&candidates, &surface) {
                let c = Candidate {
                    text: surface,
                    reading: Some(full_reading),
                    source_label: Some(label.clone()),
                    description: None,
                };
                assert(c@ == learned_cand(sp[j as int].1, sp[j as int].0));
                candidates.push(c);
                assert(cand_views(candidates@) =~= before.push(c@));
            }
            j = j + 1;
        }
        assert(sp.take(prefix@.len() as int) =~= sp);
        candidates
    }

    /// Dictionary candidates for `reading`, at most `limit`: the user
    /// dictionary's first, then the system dictionary's by ascending cost,
    /// each surface once.
    fn search_dictionaries(&self, reading: &String, limit: usize) -> (r: Vec<AnnotatedCandidate>)
        ensures
            ann_views(r@) == self.spec_dict_search(reading@, limit as int),
    {
        let ghost rd = reading@;
        let mut builder = CandidateBuilder::new();
        let user_found: Vec<DictCandidate> = match &self.dicts.user {
            Some(d) => match d.exact_match_search(reading) {
                Some(v) => v,
                None => Vec::new(),
            },
            None => Vec::new(),
        };
        let ghost uf = found_in(self.dicts.user, rd);
        assert(dict_views(user_found@) =~= uf);
        assert(uf.take(0) =~= Seq::<(Seq<char>, u32)>::empty());
        let mut i: usize = 0;
        while i < user_found.len()
            invariant
                i <= user_found@.len(),
                dict_views(user_found@) == uf,
                builder.spec_items() == push_dict(seq![], uf.take(i as int), CandidateSource::UserDictionary, limit as int),
            decreases user_found@.len() - i,
        {
            assert(uf.take(i + 1).drop_last() =~= uf.take(i as int));
            assert(uf[i as int].0 == user_found@[i as int].surface@);
            if builder.candidates.len() < limit {
                builder.push(AnnotatedCandidate::new(user_found[i].surface.clone(), CandidateSource::UserDictionary));
            }
            i = i + 1;
        }
        assert(uf.take(user_found@.len() as int) =~= uf);
        let ghost a0 = builder.spec_items();
        let system_found: Vec<DictCandidate> = match &self.dicts.system {
            Some(d) => match d.exact_match_search(reading) {
                Some(v) => v,
                None => Vec::new(),
            },
            None => Vec::new(),
        };
        assert(dict_views(system_found@) =~= found_in(self.dicts.system, rd));
        let sorted = sort_candidates_by_score(system_found);
        let ghost sf = sort_by_score(found_in(self.dicts.system, rd));
        assert(sf.take(0) =~= Seq::<(Seq<char>, u32)>::empty());
        let mut k: usize = 0;
        while k < sorted.len()
            invariant
                k <= sorted@.len(),
                dict_views(sorted@) == sf,
                builder.spec_items() == push_dict(a0, sf.take(k as int), CandidateSource::Dictionary, limit as int),
            decreases sorted@.len() - k,
        {
            assert(sf.take(k + 1).drop_last() =~= sf.take(k as int));
            assert(sf[k as int].0 == sorted@[k as int].surface@);
            if builder.candidates.len() < limit {
                builder.push(AnnotatedCandidate::new(sorted[k].surface.clone(), CandidateSource::Dictionary));
            }
            k = k + 1;
        }
        assert(sf.take(sorted@.len() as int) =~= sf);
        builder.into_candidates()
    }

    /// Dictionary candidates for `reading` (one page), as shown while
    /// typing.
    pub(crate) fn lookup_dict_candidates(&self, reading: &String) -> (r: Vec<Candidate>)
        ensures
            cand_views(r@) == self.spec_dict_search(reading@, CandidateList::DEFAULT_PAGE_SIZE as int).map_values(
                |c: AnnView| dict_cand(c, reading@),
            ),
    {
        let found = self.search_dictionaries(reading, CandidateList::DEFAULT_PAGE_SIZE);
        let ghost fv = ann_views(found@);
        let mut out: Vec<Candidate> = Vec::new();
        let mut i: usize = 0;
        while i < found.len()
            invariant
                i <= found@.len(),
                fv == ann_views(found@),
                cand_views(out@) == fv.take(i as int).map_values(|c: AnnView| dict_cand(c, reading@)),
            decreases found@.len() - i,
        {
            let ac = &found[i];
            let c = Candidate {
                text: ac.text.clone(),
                reading: Some(reading.clone()),
                source_label: Some(ac.source.label()),
                description: None,
            };
            let ghost before = cand_views(out@);
            out.push(c);
            i = i + 1;
            assert(cand_views(out@) =~= before.push(c@));
            assert(fv.take(i as int).map_values(|c: AnnView| dict_cand(c, reading@))
                =~= fv.take(i - 1).map_values(|c: AnnView| dict_cand(c, reading@)).push(dict_cand(fv[i - 1], reading@)));
        }
        assert(fv.take(found@.len() as int) =~= fv);
        out
    }

    /// Rewriter variants for the reading itself (symbol variants etc.).
    pub(crate) fn lookup_rewriter_variants(&self, reading: &String) -> (r: Vec<Candidate>)
        ensures
            cand_views(r@) == spec_rewrite(self.converters.rewriters.view(), reading@).map_values(
                |v: (Seq<char>, Option<Seq<char>>)| variant_cand(v, reading@),
            ),
    {
        let label = CandidateSource::Rewriter.label();
        let variants = self.converters.rewriters.rewrite(reading);
        let ghost vv = variant_views(variants@);
        let mut out: Vec<Candidate> = Vec::new();
        let mut i: usize = 0;
        while i < variants.len()
            invariant
                i <= variants@.len(),
                vv == variant_views(variants@),
                label@ == CandidateSource::Rewriter.spec_label(),
                cand_views(out@) == vv.take(i as int).map_values(|v: (Seq<char>, Option<Seq<char>>)| variant_cand(v, reading@)),
            decreases variants@.len() - i,
        {
            let c = Candidate {
                text: variants[i].0.clone(),
                reading: Some(reading.clone()),
                source_label: Some(label.clone()),
                description: copy_opt_string(&variants[i].1),
            };
            let ghost before = cand_views(out@);
            out.push(c);
            i = i + 1;
            assert(cand_views(out@) =~= before.push(c@));
            assert(vv.take(i as int).map_values(|v: (Seq<char>, Option<Seq<char>>)| variant_cand(v, reading@))
                =~= vv.take(i - 1).map_values(|v: (Seq<char>, Option<Seq<char>>)| variant_cand(v, reading@)).push(
                    variant_cand(vv[i - 1], reading@)));
        }
        assert(vv.take(variants@.len() as int) =~= vv);
        out
    }
}

} // verus!

verus! {

/// Tab or Down while composing: the suggestions already shown become the
/// conversion candidates, first one selected, over the settled reading;
/// without suggestions a conversion starts.
pub open spec fn suggestion_picked(pre: InputMethodEngine, post: InputMethodEngine, r: EngineResult) -> bool {
    &&& same_sources(pre, post)
    &&& r.consumed
    &&& commit_of(r.actions@) is None
    &&& match pre.suggest_candidates {
        Some(v) => if v@.len() > 0 {
            &&& post.input_buf@.text == spec_settle(pre.input_buf@).text
            &&& spec_settle(pre.input_buf@).text.len() > 0 ==> (
                post.spec_state() matches InputState::Conversion { candidates, .. }
                    && candidates.items() == v@ && candidates.pos() == 0)
            &&& spec_settle(pre.input_buf@).text.len() == 0 ==> post.spec_state() == pre.spec_state()
        } else {
            conversion_started(InputMethodEngine { suggest_candidates: None, ..pre }, post, false)
        },
        None => conversion_started(pre, post, false),
    }
}

impl InputMethodEngine {
    /// Candidates for an explicit conversion of `reading`, in priority
    /// order: learning (unless skipped), user dictionary, converter, system
    /// dictionary, hiragana and katakana fallbacks, rewriter variants; each
    /// text once. A fallback that is a known symbol gets its description;
    /// pure-kana candidates still without one get a width annotation.
    pub(crate) fn build_conversion_candidates(&self, reading: &String, num_candidates: usize, skip_learning: bool)
        -> (r: Vec<AnnotatedCandidate>)
        ensures
            ann_views(r@) == self.spec_conversion_candidates(reading@, num_candidates, skip_learning),
    {
        let ghost rd = reading@;
        let candidates = self.run_kana_kanji_conversion(reading, num_candidates);
        let rchars = chars_of(reading.as_str());
        let hiragana = reading.clone();
        let katakana = string_of(hiragana_to_katakana(rchars.as_slice()).as_slice());
        let mut builder = CandidateBuilder::new();

        // 1. Learning cache (forced, so it wins over later duplicates).
        let ghost lv = self.spec_learning_candidates(rd).map_values(|c: CandView| learned_ann(c, rd));
        if !skip_learning {
            let learned = self.lookup_learning_candidates(reading);
            let ghost lc = cand_views(learned@);
            let mut i: usize = 0;
            while i < learned.len()
                invariant
                    i <= learned@.len(),
                    lc == cand_views(learned@),
                    rd == reading@,
                    builder.spec_items() == lc.take(i as int).map_values(|c: CandView| learned_ann(c, rd)),
                decreases learned@.len() - i,
            {
                let c = learned[i].duplicate();
                // An exact match's reading is the input reading: keep none.
                let cand_reading = match c.reading {
                    Some(r) => if r == *reading { None } else { Some(r) },
                    None => None,
                };
                let a = AnnotatedCandidate::new(c.text, CandidateSource::Learning).with_reading(cand_reading);
                assert(a@ == learned_ann(lc[i as int], rd));
                let ghost before = builder.spec_items();
                builder.push_force(a);
                i = i + 1;
                assert(lc.take(i as int).map_values(|c: CandView| learned_ann(c, rd))
                    =~= lc.take(i - 1).map_values(|c: CandView| learned_ann(c, rd)).push(learned_ann(lc[i - 1], rd)));
            }
            assert(lc.take(learned@.len() as int) =~= lc);
        } else {
            assert(builder.spec_items() =~= Seq::<AnnView>::empty());
        }
        let ghost a1 = builder.spec_items();
        assert(a1 == (if skip_learning { seq![] } else { lv }));

        // 2. Dictionary results; user dictionary entries go first.
        let dict_results = self.search_dictionaries(reading, usize::MAX);
        let ghost dv = ann_views(dict_results@);
        assert(dv.take(0) =~= Seq::<AnnView>::empty());
        let mut i: usize = 0;
        while i < dict_results.len()
            invariant
                i <= dict_results@.len(),
                dv == ann_views(dict_results@),
                builder.spec_items() == push_source(a1, dv.take(i as int), CandidateSource::UserDictionary),
            decreases dict_results@.len() - i,
        {
            assert(dv.take(i + 1).drop_last() =~= dv.take(i as int));
            if dict_results[i].source == CandidateSource::UserDictionary {
                builder.push(dict_results[i].duplicate());
            }
            i = i + 1;
        }
        assert(dv.take(dict_results@.len() as int) =~= dv);
        let ghost a2 = builder.spec_items();

        // 3. Converter results.
        let ghost mv = string_views(candidates@).map_values(|t: Seq<char>| ann(t, CandidateSource::Model));
        assert(mv.take(0) =~= Seq::<AnnView>::empty());
        let mut i: usize = 0;
        while i < candidates.len()
            invariant
                i <= candidates@.len(),
                mv == string_views(candidates@).map_values(|t: Seq<char>| ann(t, CandidateSource::Model)),
                builder.spec_items() == push_each(a2, mv.take(i as int)),
            decreases candidates@.len() - i,
        {
            assert(mv.take(i + 1).drop_last() =~= mv.take(i as int));
            builder.push(AnnotatedCandidate::new(candidates[i].clone(), CandidateSource::Model));
            i = i + 1;
        }
        assert(mv.take(candidates@.len() as int) =~= mv);
        let ghost a3 = builder.spec_items();

        // 4. System dictionary.
        let mut i: usize = 0;
        while i < dict_results.len()
            invariant
                i <= dict_results@.len(),
                dv == ann_views(dict_results@),
                builder.spec_items() == push_source(a3, dv.take(i as int), CandidateSource::Dictionary),
            decreases dict_results@.len() - i,
        {
            assert(dv.take(i + 1).drop_last() =~= dv.take(i as int));
            if dict_results[i].source == CandidateSource::Dictionary {
                builder.push(dict_results[i].duplicate());
            }
            i = i + 1;
        }
        let ghost a4 = builder.spec_items();

        // 5/6. Hiragana and katakana fallbacks, then rewriter variants.
        let variants = self.converters.rewriters.rewrite(reading);
        if self.input_mode != InputMode::Emoji {
            builder.push(AnnotatedCandidate::new(hiragana, CandidateSource::Fallback));
            builder.push(AnnotatedCandidate::new(katakana, CandidateSource::Fallback));
        }
        let ghost a5 = builder.spec_items();
        let ghost vv = variant_views(variants@).map_values(|v: (Seq<char>, Option<Seq<char>>)| variant_ann(v));
        assert(vv.take(0) =~= Seq::<AnnView>::empty());
        let mut i: usize = 0;
        while i < variants.len()
            invariant
                i <= variants@.len(),
                vv == variant_views(variants@).map_values(|v: (Seq<char>, Option<Seq<char>>)| variant_ann(v)),
                builder.spec_items() == push_each(a5, vv.take(i as int)),
            decreases variants@.len() - i,
        {
            assert(vv.take(i + 1).drop_last() =~= vv.take(i as int));
            let a = AnnotatedCandidate::new(variants[i].0.clone(), CandidateSource::Rewriter)
                .with_description(copy_opt_string(&variants[i].1));
            assert(a@ == vv[i as int]);
            builder.push(a);
            i = i + 1;
        }
        assert(vv.take(variants@.len() as int) =~= vv);
        let ghost a6 = builder.spec_items();

        // 7. Symbol descriptions for fallback candidates, then 8. width
        //    annotations for candidates still without a description.
        let ghost t = self.converters.symbols.view();
        let built = builder.into_candidates();
        let mut out: Vec<AnnotatedCandidate> = Vec::new();
        let mut i: usize = 0;
        while i < built.len()
            invariant
                i <= built@.len(),
                ann_views(built@) == a6,
                t == self.converters.symbols.view(),
                ann_views(out@) == a6.take(i as int).map_values(|c: AnnView| finish_candidate(t, c)),
            decreases built@.len() - i,
        {
            let mut c = built[i].duplicate();
            if c.source == CandidateSource::Fallback && c.description.is_none() {
                c.description = self.converters.symbols.describe(&c.text);
            }
            assert(c@ == describe_fallback(t, a6[i as int]));
            if c.description.is_none() {
                let tc = chars_of(c.text.as_str());
                c.description = width_annotation(tc.as_slice());
            }
            assert(c@ == finish_candidate(t, a6[i as int]));
            let ghost before = ann_views(out@);
            out.push(c);
            i = i + 1;
            assert(ann_views(out@) =~= before.push(c@));
            assert(a6.take(i as int).map_values(|c: AnnView| finish_candidate(t, c))
                =~= a6.take(i - 1).map_values(|c: AnnView| finish_candidate(t, c)).push(finish_candidate(t, a6[i - 1])));
        }
        assert(a6.take(built@.len() as int) =~= a6);
        out
    }

    /// The public candidates for `reading`: each keeps its reading (the
    /// conversion's reading when it has none), its source's label (none
    /// when empty) and its description.
    fn to_conversion_candidate_list(candidates: Vec<AnnotatedCandidate>, reading: &String) -> (l: CandidateList)
        ensures
            l.wf(),
            l.pos() == 0,
            cand_views(l.items()) == ann_views(candidates@).map_values(|a: AnnView| conv_cand(a, reading@)),
    {
        let ghost av = ann_views(candidates@);
        let mut out: Vec<Candidate> = Vec::new();
        let mut i: usize = 0;
        while i < candidates.len()
            invariant
                i <= candidates@.len(),
                av == ann_views(candidates@),
                cand_views(out@) == av.take(i as int).map_values(|a: AnnView| conv_cand(a, reading@)),
            decreases candidates@.len() - i,
        {
            let ac = candidates[i].duplicate();
            let label = ac.source.label();
            let cand_reading = match ac.reading {
                Some(r) => Some(r),
                None => Some(reading.clone()),
            };
            let source_label = if label.as_str().unicode_len() > 0 { Some(label) } else { None };
            let c = Candidate { text: ac.text, reading: cand_reading, source_label, description: ac.description };
            assert(c@ == conv_cand(av[i as int], reading@));
            let ghost before = cand_views(out@);
            out.push(c);
            i = i + 1;
            assert(cand_views(out@) =~= before.push(c@));
            assert(av.take(i as int).map_values(|a: AnnView| conv_cand(a, reading@))
                =~= av.take(i - 1).map_values(|a: AnnView| conv_cand(a, reading@)).push(conv_cand(av[i - 1], reading@)));
        }
        assert(av.take(candidates@.len() as int) =~= av);
        CandidateList::new(out)
    }

    /// The Conversion preedit for `selected`: framed by the text before
    /// and after a partial conversion, the caret after the selection.
    pub open spec fn spec_conversion_preedit(&self, selected: Seq<char>) -> (Seq<char>, int) {
        match self.partial.remaining {
            Some((before, after)) => (before@ + selected + after@, (before@.len() + selected.len()) as int),
            None => (selected, selected.len() as int),
        }
    }

    fn build_conversion_preedit(&self, selected_text: &String) -> (p: Preedit)
        ensures
            (p.text_view(), p.caret_pos()) == self.spec_conversion_preedit(selected_text@),
    {
        match &self.partial.remaining {
            Some((before, after)) => {
                let b = chars_of(before.as_str());
                let s = chars_of(selected_text.as_str());
                let a = chars_of(after.as_str());
                let bs = concat_chars(b.as_slice(), s.as_slice());
                let full = concat_chars(bs.as_slice(), a.as_slice());
                Preedit::from_chars(full.as_slice(), bs.len())
            },
            None => {
                let s = chars_of(selected_text.as_str());
                Preedit::from_chars(s.as_slice(), s.len())
            },
        }
    }

    /// Enter the Conversion state for `reading` with `candidates`, the
    /// first one selected; the candidate window shows when the threshold
    /// allows.
    fn enter_conversion_state(&mut self, reading: &String, candidates: CandidateList) -> (r: EngineResult)
        requires
            old(self).wf(),
            candidates.wf(),
        ensures
            same_sources(*old(self), *final(self)),
            final(self).wf(),
            !old(self).config.show_aux_text ==> aux_silent(r.actions@),
            r.consumed,
            commit_of(r.actions@) is None,
            final(self).spec_state() matches InputState::Conversion { candidates: c, preedit }
                && c.items() == candidates.items() && c.pos() == candidates.pos(),
            final(self).input_buf == old(self).input_buf,
            final(self).spec_partial() == old(self).spec_partial(),
            final(self).live == old(self).live,
            final(self).config == old(self).config,
            final(self).learning == old(self).learning,
            final(self).input_mode == old(self).input_mode,
            final(self).suggest_candidates == old(self).suggest_candidates,
            conversion_entered(*final(self), r, reading@),
    {
        let selected_text = match candidates.selected_text() {
            Some(t) => t,
            None => reading.clone(),
        };
        let preedit = self.build_conversion_preedit(&selected_text);
        let shown = candidates.duplicate();
        let shown2 = candidates.duplicate();
        self.state = InputState::Conversion { preedit: preedit.duplicate(), candidates };
        self.conversion_space_count = 1;
        let threshold = self.config.candidate_window_threshold;
        let show = threshold == 0 || self.conversion_space_count >= threshold;
        let result = EngineResult::consumed().with_action(EngineAction::UpdatePreedit(preedit));
        if show {
            let rc = chars_of(reading.as_str());
            let aux = self.format_aux_conversion_with_page(rc.as_slice(), Some(&shown2));
            result.with_action(EngineAction::ShowCandidates(shown)).with_action(EngineAction::UpdateAuxText(aux))
        } else {
            result.with_action(EngineAction::HideCandidates).with_action(EngineAction::HideAuxText)
        }
    }

    /// What Space converts: the settled composition's selection (resolved
    /// against the earlier reading, see `spec_resolve`) with the text
    /// around it, or the whole reading.
    pub open spec fn spec_conversion_span(&self) -> (Seq<char>, Option<(Seq<char>, Seq<char>)>) {
        let m = spec_settle(self.input_buf@);
        match crate::buffer::spec_selection(m) {
            Some((s, e)) => {
                let (rd, before, after) = super::partial::spec_resolve(m.text, s, e, opt_view(self.partial.original_reading));
                (rd, Some((before, after)))
            },
            None => (m.text, None),
        }
    }

    /// The candidates Space offers for `reading`.
    pub open spec fn spec_start_candidates(&self, reading: Seq<char>, skip_learning: bool) -> Seq<AnnView> {
        keep_shown(self.spec_conversion_candidates(reading, self.config.num_candidates, skip_learning), self.live.text@, reading)
    }

    /// Space in Composing: convert the selection (or the whole reading).
    /// The suggestion shown while typing stays among the candidates.
    pub(crate) fn start_conversion(&mut self, skip_learning: bool) -> (r: EngineResult)
        requires
            old(self).wf(),
        ensures
            same_sources(*old(self), *final(self)),
            final(self).learning == old(self).learning,
            final(self).wf(),
            final(self).config == old(self).config,
            !old(self).config.show_aux_text ==> aux_silent(r.actions@),
            r.consumed,
            commit_of(r.actions@) is None,
            conversion_started(*old(self), *final(self), skip_learning),
            ({
                let reading = old(self).spec_conversion_span().0;
                reading.len() > 0 && old(self).spec_start_candidates(reading, skip_learning).len() > 0
                    ==> conversion_entered(*final(self), r, reading)
            }),
    {
        let ghost old_self = *self;
        self.suggest_candidates = None;
        self.settle_romaji();
        let full = self.input_buf.reading_chars();
        let (reading_chars, remaining): (Vec<char>, Option<(String, String)>) = match self.input_buf.selection_range() {
            Some((s, e)) => {
                let (rd, before, after) = self.resolve_selection(full.as_slice(), s, e);
                (rd, Some((string_of(before.as_slice()), string_of(after.as_slice()))))
            },
            None => (full, None),
        };
        let reading = string_of(reading_chars.as_slice());
        assert((reading@, opt_pair_view(remaining)) == old_self.spec_conversion_span());
        self.partial.remaining = remaining;
        self.input_buf.clear_selection();
        let prev_suggest_text = self.live.text.clone();
        self.live.text = String::new();
        if reading_chars.len() == 0 {
            return EngineResult::consumed();
        }
        let mut candidates = self.build_conversion_candidates(&reading, self.config.num_candidates, skip_learning);
        assert(self.spec_conversion_candidates(reading@, self.config.num_candidates, skip_learning)
            == old_self.spec_conversion_candidates(reading@, old_self.config.num_candidates, skip_learning));
        // Keep the suggestion that was shown while typing.
        let ghost built = ann_views(candidates@);
        if prev_suggest_text.as_str().unicode_len() > 0 && prev_suggest_text != reading {
            if !has_candidate_text(&candidates, &prev_suggest_text) {
                let a = AnnotatedCandidate::new(prev_suggest_text, CandidateSource::Model);
                candidates.insert(0, a);
                assert(ann_views(candidates@) =~= seq![a@] + built);
            }
        }
        assert(ann_views(candidates@) == keep_shown(built, old_self.live.text@, reading@));
        if candidates.len() == 0 {
            self.partial.remaining = None;
            let preedit = self.set_composing_state();
            return EngineResult::consumed().with_action(EngineAction::UpdatePreedit(preedit));
        }
        let list = Self::to_conversion_candidate_list(candidates, &reading);
        self.enter_conversion_state(&reading, list)
    }

    /// Tab/Down in Composing: enter Conversion with the suggestions
    /// already shown (no new conversion); without any, convert.
    pub(crate) fn select_auto_suggest(&mut self) -> (r: EngineResult)
        requires
            old(self).wf(),
        ensures
            same_sources(*old(self), *final(self)),
            final(self).learning == old(self).learning,
            final(self).wf(),
            final(self).config == old(self).config,
            !old(self).config.show_aux_text ==> aux_silent(r.actions@),
            suggestion_picked(*old(self), *final(self), r),
    {
        let candidates = match self.suggest_candidates.take() {
            Some(c) => c,
            None => return self.start_conversion(false),
        };
        if candidates.len() == 0 {
            return self.start_conversion(false);
        }
        self.settle_romaji();
        let reading = self.input_buf.reading();
        self.input_buf.clear_selection();
        self.live.text = String::new();
        if self.input_buf.char_count() == 0 {
            return EngineResult::consumed();
        }
        let list = CandidateList::new(candidates);
        let selected_text = match list.selected_text() {
            Some(t) => t,
            None => reading.clone(),
        };
        let st = chars_of(selected_text.as_str());
        let preedit = Preedit::from_chars(st.as_slice(), st.len());
        let shown = list.duplicate();
        let shown2 = list.duplicate();
        self.state = InputState::Conversion { preedit: preedit.duplicate(), candidates: list };
        // Show the candidate window at once.
        self.conversion_space_count = if self.config.candidate_window_threshold > 1 { self.config.candidate_window_threshold } else { 1 };
        let rc = chars_of(reading.as_str());
        let aux = self.format_aux_conversion_with_page(rc.as_slice(), Some(&shown2));
        EngineResult::consumed()
            .with_action(EngineAction::UpdatePreedit(preedit))
            .with_action(EngineAction::ShowCandidates(shown))
            .with_action(EngineAction::UpdateAuxText(aux))
    }

    /// The selected candidate's text and reading (empty when none is
    /// selected).
    pub open spec fn spec_selected_conversion(&self) -> (Seq<char>, Option<Seq<char>>) {
        match self.spec_state() {
            InputState::Conversion { candidates, .. } => match candidates.spec_selected() {
                Some(c) => (c.text@, opt_view(c.reading)),
                None => (Seq::<char>::empty(), None),
            },
            _ => (Seq::<char>::empty(), None),
        }
    }

    /// The selected candidate's text and reading, in Conversion.
    pub(crate) fn selected_conversion_info(&self) -> (r: Option<(String, Option<String>)>)
        ensures
            match self.spec_state() {
                InputState::Conversion { candidates, .. } => r matches Some((t, rd)) && match candidates.spec_selected() {
                    Some(c) => t == c.text && rd == c.reading,
                    None => t@ == Seq::<char>::empty() && rd is None,
                },
                _ => r is None,
            },
    {
        match &self.state {
            InputState::Conversion { candidates, .. } => match candidates.selected() {
                Some(c) => Some((c.text.clone(), copy_opt_string(&c.reading))),
                None => {
                    proof {
                        reveal_strlit("");
                    }
                    Some((String::new(), None))
                },
            },
            _ => None,
        }
    }

    /// Record a chosen conversion in the learning cache.
    pub(crate) fn record_learning(&mut self, reading: &String, surface: &String)
        requires
            old(self).wf(),
        ensures
            same_sources(*old(self), *final(self)),
            final(self).wf(),
            final(self).config == old(self).config,
            *final(self) == (InputMethodEngine { learning: final(self).learning, ..*old(self) }),
            match old(self).learning {
                Some(c) => final(self).learning matches Some(c2)
                    && c2.view() == crate::sources::spec_record(c.view(), reading@, surface@),
                None => final(self).learning is None,
            },
    {
        match &mut self.learning {
            Some(cache) => cache.record(reading, surface),
            None => {},
        }
    }

    /// Enter in Conversion: commit the selected candidate (learning it);
    /// during a partial conversion it is baked into the composition
    /// instead.
    fn commit_conversion(&mut self) -> (r: EngineResult)
        requires
            old(self).wf(),
        ensures
            same_sources(*old(self), *final(self)),
            final(self).wf(),
            final(self).config == old(self).config,
            !old(self).config.show_aux_text ==> aux_silent(r.actions@),
            !(old(self).spec_state() is Conversion) ==> !r.consumed && final(self).spec_state() == old(self).spec_state()
                && final(self).input_buf == old(self).input_buf,
            old(self).spec_state() is Conversion ==> {
                let (t, rd) = old(self).spec_selected_conversion();
                &&& t.len() == 0 ==> r.consumed && commit_of(r.actions@) is None
                &&& t.len() > 0 ==> candidate_accepted(*old(self), *final(self), r, t, rd, old(self).input_mode != InputMode::Emoji)
            },
    {
        self.conversion_space_count = 0;
        let (text, reading) = match self.selected_conversion_info() {
            Some(info) => info,
            None => return EngineResult::not_consumed(),
        };
        if text.as_str().unicode_len() == 0 {
            return EngineResult::consumed();
        }
        if self.input_mode != InputMode::Emoji {
            if let Some(rd) = &reading {
                self.record_learning(rd, &text);
            }
        }
        if self.has_partial_conversion() {
            return self.bake_partial_conversion(&text);
        }
        self.enter_empty_state();
        if self.input_mode == InputMode::Emoji {
            self.input_mode = InputMode::Hiragana;
        }
        EngineResult::consumed()
            .with_action(EngineAction::UpdatePreedit(Preedit::new()))
            .with_action(EngineAction::HideCandidates)
            .with_action(EngineAction::HideAuxText)
            .with_action(EngineAction::Commit(text))
    }

    /// A printable key in Conversion: commit the selection (with the text
    /// before a partial conversion; the text after it is dropped) and start
    /// a new composition with the key.
    fn commit_conversion_and_continue(&mut self, ch: char) -> (r: EngineResult)
        requires
            old(self).wf(),
        ensures
            same_sources(*old(self), *final(self)),
            final(self).wf(),
            final(self).config == old(self).config,
            !old(self).config.show_aux_text ==> aux_silent(r.actions@),
            !(old(self).spec_state() is Conversion) ==> !r.consumed && final(self).spec_state() == old(self).spec_state(),
            old(self).spec_state() is Conversion ==> conversion_continued(*old(self), *final(self), r, ch),
    {
        let (text, reading) = match self.selected_conversion_info() {
            Some(info) => info,
            None => return EngineResult::not_consumed(),
        };
        if self.input_mode != InputMode::Emoji {
            if let Some(rd) = &reading {
                self.record_learning(rd, &text);
            }
        }
        let commit_text = match self.partial.remaining.take() {
            Some((before, _after)) => {
                let b = chars_of(before.as_str());
                let t = chars_of(text.as_str());
                string_of(concat_chars(b.as_slice(), t.as_slice()).as_slice())
            },
            None => text,
        };
        self.enter_empty_state();
        if self.input_mode == InputMode::Emoji {
            self.input_mode = InputMode::Hiragana;
        }
        let new_input = self.start_input(ch);
        let mut result = EngineResult::consumed()
            .with_action(EngineAction::Commit(commit_text))
            .with_action(EngineAction::HideCandidates);
        let mut actions = new_input.actions;
        result.actions.append(&mut actions);
        result
    }

    /// Escape in Conversion: back to Composing with the whole reading
    /// (a partial conversion is dropped), caret at the end.
    pub(crate) fn cancel_conversion(&mut self) -> (r: EngineResult)
        requires
            old(self).wf(),
        ensures
            same_sources(*old(self), *final(self)),
            final(self).learning == old(self).learning,
            final(self).wf(),
            final(self).config == old(self).config,
            !old(self).config.show_aux_text ==> aux_silent(r.actions@),
            commit_of(r.actions@) is None,
            !(old(self).spec_state() is Conversion) ==> !r.consumed && final(self).input_buf == old(self).input_buf,
            old(self).spec_state() is Conversion ==> {
                &&& r.consumed
                &&& commit_of(r.actions@) is None
                &&& final(self).spec_partial().remaining is None
                &&& spec_settle(old(self).input_buf@).text.len() > 0 ==> {
                    &&& final(self).spec_state() is Composing
                    &&& final(self).input_buf@.text == spec_settle(old(self).input_buf@).text
                    &&& final(self).input_buf@.cursor == final(self).input_buf@.text.len()
                }
            },
    {
        self.conversion_space_count = 0;
        match self.state {
            InputState::Conversion { .. } => {},
            _ => return EngineResult::not_consumed(),
        }
        self.partial.remaining = None;
        self.settle_romaji();
        if self.input_buf.char_count() == 0 {
            self.enter_empty_state();
            return EngineResult::consumed()
                .with_action(EngineAction::UpdatePreedit(Preedit::new()))
                .with_action(EngineAction::HideCandidates)
                .with_action(EngineAction::HideAuxText);
        }
        let end = self.input_buf.char_count();
        self.input_buf.set_cursor(end);
        let preedit = self.set_composing_state();
        let aux = self.format_aux_composing();
        EngineResult::consumed()
            .with_action(EngineAction::UpdatePreedit(preedit))
            .with_action(EngineAction::HideCandidates)
            .with_action(EngineAction::UpdateAuxText(aux))
    }

    /// Move through the candidates, then refresh the preedit.
    fn navigate_candidate(&mut self, mv: CandidateMove) -> (r: EngineResult)
        requires
            old(self).wf(),
        ensures
            same_sources(*old(self), *final(self)),
            final(self).learning == old(self).learning,
            final(self).wf(),
            final(self).config == old(self).config,
            !old(self).config.show_aux_text ==> aux_silent(r.actions@),
            commit_of(r.actions@) is None,
            !(old(self).spec_state() is Conversion) ==> !r.consumed && *final(self) == *old(self),
            old(self).spec_state() matches InputState::Conversion { candidates: c0, .. } ==> {
                &&& r.consumed
                &&& final(self).spec_state() matches InputState::Conversion { candidates: c1, .. }
                    && c1.items() == c0.items() && c1.pos() == moved_pos(c0.items().len() as int, c0.pos(), c0.page(), mv)
                &&& final(self).input_buf == old(self).input_buf
                &&& final(self).spec_partial() == old(self).spec_partial()
                &&& c0.items().len() > 0 ==> conversion_redrawn(*final(self), r)
            },
    {
        let mut cands = match &self.state {
            InputState::Conversion { candidates, .. } => candidates.duplicate(),
            _ => return EngineResult::not_consumed(),
        };
        match mv {
            CandidateMove::Next => { cands.move_next(); },
            CandidateMove::Prev => { cands.move_prev(); },
            CandidateMove::NextPage => { cands.next_page(); },
            CandidateMove::PrevPage => { cands.prev_page(); },
        }
        let text = match cands.selected_text() {
            Some(t) => t,
            None => String::new(),
        };
        self.update_conversion_preedit(&text, cands)
    }

    /// Select the next candidate (another conversion-key press).
    fn next_candidate(&mut self) -> (r: EngineResult)
        requires
            old(self).wf(),
        ensures
            same_sources(*old(self), *final(self)),
            final(self).learning == old(self).learning,
            final(self).wf(),
            final(self).config == old(self).config,
            !old(self).config.show_aux_text ==> aux_silent(r.actions@),
            commit_of(r.actions@) is None,
            old(self).spec_state() matches InputState::Conversion { candidates: c0, .. } ==> {
                &&& r.consumed
                &&& final(self).spec_state() matches InputState::Conversion { candidates: c1, .. }
                    && c1.items() == c0.items() && c1.pos() == moved_pos(c0.items().len() as int, c0.pos(), c0.page(), CandidateMove::Next)
                &&& c0.items().len() > 0 ==> conversion_redrawn(*final(self), r)
            },
    {
        if self.conversion_space_count < usize::MAX {
            self.conversion_space_count = self.conversion_space_count + 1;
        }
        self.navigate_candidate(CandidateMove::Next)
    }

    fn prev_candidate(&mut self) -> (r: EngineResult)
        requires
            old(self).wf(),
        ensures
            same_sources(*old(self), *final(self)),
            final(self).learning == old(self).learning,
            final(self).wf(),
            final(self).config == old(self).config,
            !old(self).config.show_aux_text ==> aux_silent(r.actions@),
            commit_of(r.actions@) is None,
            old(self).spec_state() matches InputState::Conversion { candidates: c0, .. } ==> {
                &&& r.consumed
                &&& final(self).spec_state() matches InputState::Conversion { candidates: c1, .. }
                    && c1.items() == c0.items() && c1.pos() == moved_pos(c0.items().len() as int, c0.pos(), c0.page(), CandidateMove::Prev)
                &&& c0.items().len() > 0 ==> conversion_redrawn(*final(self), r)
            },
    {
        self.navigate_candidate(CandidateMove::Prev)
    }

    fn next_candidate_page(&mut self) -> (r: EngineResult)
        requires
            old(self).wf(),
        ensures
            same_sources(*old(self), *final(self)),
            final(self).learning == old(self).learning,
            final(self).wf(),
            final(self).config == old(self).config,
            !old(self).config.show_aux_text ==> aux_silent(r.actions@),
            commit_of(r.actions@) is None,
            old(self).spec_state() matches InputState::Conversion { candidates: c0, .. } ==> {
                &&& r.consumed
                &&& final(self).spec_state() matches InputState::Conversion { candidates: c1, .. }
                    && c1.items() == c0.items() && c1.pos() == moved_pos(c0.items().len() as int, c0.pos(), c0.page(), CandidateMove::NextPage)
                &&& c0.items().len() > 0 ==> conversion_redrawn(*final(self), r)
            },
    {
        self.navigate_candidate(CandidateMove::NextPage)
    }

    fn prev_candidate_page(&mut self) -> (r: EngineResult)
        requires
            old(self).wf(),
        ensures
            same_sources(*old(self), *final(self)),
            final(self).learning == old(self).learning,
            final(self).wf(),
            final(self).config == old(self).config,
            !old(self).config.show_aux_text ==> aux_silent(r.actions@),
            commit_of(r.actions@) is None,
            old(self).spec_state() matches InputState::Conversion { candidates: c0, .. } ==> {
                &&& r.consumed
                &&& final(self).spec_state() matches InputState::Conversion { candidates: c1, .. }
                    && c1.items() == c0.items() && c1.pos() == moved_pos(c0.items().len() as int, c0.pos(), c0.page(), CandidateMove::PrevPage)
                &&& c0.items().len() > 0 ==> conversion_redrawn(*final(self), r)
            },
    {
        self.navigate_candidate(CandidateMove::PrevPage)
    }

    /// A digit 1-9 in Conversion: pick that candidate of the page and
    /// commit it at once (baked in during a partial conversion).
    fn select_candidate_by_digit(&mut self, digit: usize) -> (r: EngineResult)
        requires
            old(self).wf(),
        ensures
            same_sources(*old(self), *final(self)),
            final(self).wf(),
            final(self).config == old(self).config,
            !old(self).config.show_aux_text ==> aux_silent(r.actions@),
            !(old(self).spec_state() is Conversion) ==> !r.consumed && final(self).spec_state() == old(self).spec_state(),
            old(self).spec_state() is Conversion ==> digit_picked(*old(self), *final(self), r, digit),
    {
        let mut cands = match &self.state {
            InputState::Conversion { candidates, .. } => candidates.duplicate(),
            _ => return EngineResult::not_consumed(),
        };
        if !cands.select_on_page(digit) {
            return EngineResult::consumed();
        }
        let (text, reading) = match cands.selected() {
            Some(c) => (c.text.clone(), copy_opt_string(&c.reading)),
            None => (String::new(), None),
        };
        if let Some(rd) = &reading {
            self.record_learning(rd, &text);
        }
        self.conversion_space_count = 0;
        if self.has_partial_conversion() {
            return self.bake_partial_conversion(&text);
        }
        self.enter_empty_state();
        EngineResult::consumed()
            .with_action(EngineAction::UpdatePreedit(Preedit::new()))
            .with_action(EngineAction::HideCandidates)
            .with_action(EngineAction::HideAuxText)
            .with_action(EngineAction::Commit(text))
    }

    /// Show a new selection: the preedit follows it, and the candidate
    /// window shows once the conversion key was pressed often enough.
    fn update_conversion_preedit(&mut self, selected_text: &String, candidates: CandidateList) -> (r: EngineResult)
        requires
            old(self).wf(),
            candidates.wf(),
        ensures
            same_sources(*old(self), *final(self)),
            final(self).wf(),
            final(self).config == old(self).config,
            !old(self).config.show_aux_text ==> aux_silent(r.actions@),
            r.consumed,
            commit_of(r.actions@) is None,
            final(self).spec_state() matches InputState::Conversion { candidates: c, .. }
                && c.items() == candidates.items() && c.pos() == candidates.pos(),
            final(self).input_buf == old(self).input_buf,
            final(self).spec_partial() == old(self).spec_partial(),
            final(self).learning == old(self).learning,
            final(self).input_mode == old(self).input_mode,
            final(self).conversion_space_count == old(self).conversion_space_count,
            candidates.spec_selected() matches Some(c) && c.text@ == selected_text@ ==> conversion_redrawn(*final(self), r),
    {
        let preedit = self.build_conversion_preedit(selected_text);
        let reading = match candidates.selected() {
            Some(c) => match &c.reading {
                Some(r) => r.clone(),
                None => String::new(),
            },
            None => String::new(),
        };
        let shown = candidates.duplicate();
        let shown2 = candidates.duplicate();
        self.state = InputState::Conversion { preedit: preedit.duplicate(), candidates };
        let threshold = self.config.candidate_window_threshold;
        let show = threshold == 0 || self.conversion_space_count >= threshold;
        let result = EngineResult::consumed().with_action(EngineAction::UpdatePreedit(preedit));
        if show {
            let rc = chars_of(reading.as_str());
            let aux = self.format_aux_conversion_with_page(rc.as_slice(), Some(&shown2));
            result.with_action(EngineAction::ShowCandidates(shown)).with_action(EngineAction::UpdateAuxText(aux))
        } else {
            result.with_action(EngineAction::HideCandidates).with_action(EngineAction::HideAuxText)
        }
    }

    /// Backspace in Conversion: back to the reading.
    fn backspace_conversion(&mut self) -> (r: EngineResult)
        requires
            old(self).wf(),
        ensures
            same_sources(*old(self), *final(self)),
            final(self).learning == old(self).learning,
            final(self).wf(),
            final(self).config == old(self).config,
            !old(self).config.show_aux_text ==> aux_silent(r.actions@),
            commit_of(r.actions@) is None,
            old(self).spec_state() is Conversion ==> {
                &&& r.consumed
                &&& final(self).spec_partial().remaining is None
                &&& spec_settle(old(self).input_buf@).text.len() > 0 ==> {
                    &&& final(self).spec_state() is Composing
                    &&& final(self).input_buf@.text == spec_settle(old(self).input_buf@).text
                    &&& final(self).input_buf@.cursor == final(self).input_buf@.text.len()
                }
            },
    {
        self.cancel_conversion()
    }

    /// Process a key in the Conversion state.
    pub(crate) fn process_key_conversion(&mut self, key: &KeyEvent, shift_active: bool) -> (r: EngineResult)
        requires
            old(self).wf(),
            old(self).spec_state() is Conversion,
        ensures
            same_sources(*old(self), *final(self)),
            key.keysym != Keysym::RETURN && !(key.keysym matches Keysym::Char(_)) ==> final(self).learning == old(self).learning,
            final(self).wf(),
            final(self).config == old(self).config,
            !old(self).config.show_aux_text ==> aux_silent(r.actions@),
            // F6-F10 convert the reading, not the selected candidate.
            fkey_form(key.keysym) matches Some(f) ==> direct_committed(*old(self), *final(self), r, f),
            // Enter accepts the selected candidate.
            key.keysym == Keysym::RETURN ==> {
                let (t, rd) = old(self).spec_selected_conversion();
                &&& t.len() == 0 ==> r.consumed && commit_of(r.actions@) is None
                &&& t.len() > 0 ==> candidate_accepted(*old(self), *final(self), r, t, rd, old(self).input_mode != InputMode::Emoji)
            },
            // Escape and Backspace go back to the whole reading.
            key.keysym == Keysym::ESCAPE || key.keysym == Keysym::BACKSPACE ==> {
                &&& r.consumed
                &&& commit_of(r.actions@) is None
                &&& final(self).spec_partial().remaining is None
                &&& spec_settle(old(self).input_buf@).text.len() > 0 ==> {
                    &&& final(self).spec_state() is Composing
                    &&& final(self).input_buf@.text == spec_settle(old(self).input_buf@).text
                }
            },
            // Shift+arrows bake the selected candidate into the composition
            // and start a selection in it.
            shift_active && (key.keysym == Keysym::LEFT || key.keysym == Keysym::RIGHT
                || key.keysym == Keysym::HOME || key.keysym == Keysym::END)
                ==> selection_from_conversion(*old(self), *final(self), r, key.keysym),
            // Space, Down, Tab, Up and the page keys move the selection.
            move_key(key.keysym) matches Some(m) ==> selection_moved(*old(self), *final(self), r, m),
            // Ctrl+N and Ctrl+P move to the next and previous candidate.
            key.modifiers.control_key && !key.modifiers.alt_key && key.keysym.spec_is_letter('n')
                ==> selection_moved(*old(self), *final(self), r, CandidateMove::Next),
            key.modifiers.control_key && !key.modifiers.alt_key && key.keysym.spec_is_letter('p')
                ==> selection_moved(*old(self), *final(self), r, CandidateMove::Prev),
            // Any other key that types nothing is left to the application.
            !conversion_named_key(key.keysym) && !(shift_active && caret_key(key.keysym) is Some)
                && !(key.modifiers.control_key && !key.modifiers.alt_key
                    && (key.keysym.spec_is_letter('n') || key.keysym.spec_is_letter('p')))
                && key.keysym.spec_digit_value() is None
                && (key.spec_to_char() is None || key.modifiers.control_key || key.modifiers.alt_key)
                ==> !r.consumed && *final(self) == *old(self),
            // A digit picks a candidate on the page shown; any other
            // printable key commits the selection and goes on composing.
            key.keysym.spec_digit_value() is Some ==> digit_picked(*old(self), *final(self), r, key.keysym.spec_digit_value()->0),
            (key.keysym matches Keysym::Char(_)) && key.keysym.spec_digit_value() is None && key.spec_to_char() is Some
                && !key.modifiers.control_key && !key.modifiers.alt_key
                ==> conversion_continued(*old(self), *final(self), r, key.spec_to_char()->0),
    {
        match key.keysym {
            Keysym::RIGHT if shift_active => self.conversion_to_selection_right(),
            Keysym::LEFT if shift_active => self.conversion_to_selection_left(),
            Keysym::HOME if shift_active => self.conversion_to_selection_home(),
            Keysym::END if shift_active => self.conversion_to_selection_end(),
            Keysym::RETURN => self.commit_conversion(),
            Keysym::ESCAPE => self.cancel_conversion(),
            Keysym::F6 => self.direct_convert_from_conversion(super::direct::DirectForm::Hiragana),
            Keysym::F7 => self.direct_convert_from_conversion(super::direct::DirectForm::Katakana),
            Keysym::F8 => self.direct_convert_from_conversion(super::direct::DirectForm::HalfKatakana),
            Keysym::F9 => self.direct_convert_from_conversion(super::direct::DirectForm::FullwidthAscii),
            Keysym::F10 => self.direct_convert_from_conversion(super::direct::DirectForm::HalfwidthAscii),
            Keysym::SPACE | Keysym::DOWN | Keysym::TAB => self.next_candidate(),
            Keysym::UP => self.prev_candidate(),
            Keysym::PAGE_DOWN => self.next_candidate_page(),
            Keysym::PAGE_UP => self.prev_candidate_page(),
            Keysym::BACKSPACE => self.backspace_conversion(),
            _ => {
                // Ctrl+N / Ctrl+P move through the candidates.
                if key.modifiers.control_key && !key.modifiers.alt_key {
                    if key.keysym.is_letter('n') {
                        return self.next_candidate();
                    }
                    if key.keysym.is_letter('p') {
                        return self.prev_candidate();
                    }
                }
                if let Some(digit) = key.keysym.digit_value() {
                    return self.select_candidate_by_digit(digit);
                }
                if let Some(ch) = key.to_char() {
                    if !key.modifiers.control_key && !key.modifiers.alt_key {
                        return self.commit_conversion_and_continue(ch);
                    }
                }
                EngineResult::not_consumed()
            },
        }
    }
}

} // verus!
