//! The input-method engine: a state machine over Empty, Composing and
//! Conversion that turns key events into preedit, candidate and commit
//! actions.

use vstd::prelude::*;
use crate::buffer::{InputBuffer, spec_display};
use crate::candidates::{Candidate, CandidateList, CandView, cand_views};
use crate::kana::{spec_hira_to_kata, hiragana_to_katakana};
use crate::keys::{KeyEvent, Keysym};
use crate::sources::{KanjiConverter, LearningCache, RewriteTable, Dictionary, SymbolTable};
use crate::text::{chars_of, concat_chars, decimal, spec_decimal, string_of};

pub mod composing;
pub mod conversion;
pub mod cursor;
pub mod direct;
pub mod partial;
pub mod laws;

use direct::{fkey_form, direct_committed};
use conversion::{
    space_converted, candidate_accepted, suggestion_picked, digit_picked, conversion_continued, move_key,
    selection_moved, learning_view, record_opt, selection_from_conversion, conversion_named_key, CandidateMove,
};
use composing::{
    first_key_typed, char_typed, backspaced, deleted, composing_cancelled, fullwidth_space_typed, katakana_toggled,
    ctrl_caret_key, emoji_commit_text,
};
use cursor::{caret_move_done, selection_extended, selection_base, caret_key};
use crate::buffer::spec_settle;

verus! {

/// Longest reading the engine edits. A `Vec<char>` holds at most
/// `isize::MAX` bytes, four per character, which is `usize::MAX / 8`
/// characters: no text in memory is longer, so this is the machine's own
/// limit, stated so the offset arithmetic can be proved on every word size.
pub const CAPACITY: usize = usize::MAX / 8;

/// How typed keys are interpreted.
#[derive(Debug, Clone, Copy, PartialEq, Eq, Structural)]
pub enum InputMode {
    /// Romaji to hiragana.
    Hiragana,
    /// Romaji to hiragana, shown and committed as katakana.
    Katakana,
    /// Keys are taken literally (Shift+letter starts a temporary
    /// alphabet word).
    Alphabet,
    /// A `:shortcode` query for emoji.
    Emoji,
}

/// Text being composed, with its caret.
#[derive(Debug, Clone)]
pub struct Preedit {
    text: String,
    caret: usize,
}

impl Preedit {
    pub closed spec fn text_view(&self) -> Seq<char> {
        self.text@
    }

    pub closed spec fn caret_pos(&self) -> int {
        self.caret as int
    }

    /// An empty preedit.
    pub fn new() -> (p: Preedit)
        ensures
            p.text_view() == Seq::<char>::empty(),
            p.caret_pos() == 0,
    {
        Preedit { text: String::new(), caret: 0 }
    }

    /// A preedit showing `text` with the caret at `caret`.
    pub fn from_chars(text: &[char], caret: usize) -> (p: Preedit)
        ensures
            p.text_view() == text@,
            p.caret_pos() == caret,
    {
        Preedit { text: string_of(text), caret }
    }

    /// The preedit text.
    pub fn text(&self) -> (s: &str)
        ensures
            s@ == self.text_view(),
    {
        self.text.as_str()
    }

    /// The caret position in characters.
    pub fn caret(&self) -> (c: usize)
        ensures
            c == self.caret_pos(),
    {
        self.caret
    }

    pub fn duplicate(&self) -> (p: Preedit)
        ensures
            p == *self,
    {
        Preedit { text: self.text.clone(), caret: self.caret }
    }
}

/// The engine's state.
#[derive(Debug)]
pub enum InputState {
    /// Nothing is being composed.
    Empty,
    /// A reading is being typed.
    Composing { preedit: Preedit, romaji_buffer: String },
    /// Candidates for a reading are shown.
    Conversion { preedit: Preedit, candidates: CandidateList },
}

impl InputState {
    /// The preedit shown in this state.
    pub fn preedit(&self) -> (p: Option<&Preedit>)
        ensures
            match self {
                InputState::Empty => p is None,
                InputState::Composing { preedit, .. } => p == Some(preedit),
                InputState::Conversion { preedit, .. } => p == Some(preedit),
            },
    {
        match self {
            InputState::Empty => None,
            InputState::Composing { preedit, .. } => Some(preedit),
            InputState::Conversion { preedit, .. } => Some(preedit),
        }
    }

    /// The candidate list, in the Conversion state.
    pub fn candidates(&self) -> (c: Option<&CandidateList>)
        ensures
            match self {
                InputState::Conversion { candidates, .. } => c == Some(candidates),
                _ => c is None,
            },
    {
        match self {
            InputState::Conversion { candidates, .. } => Some(candidates),
            _ => None,
        }
    }

    /// The reading of the selected candidate, in the Conversion state.
    pub fn reading(&self) -> (r: Option<String>)
        ensures
            match self {
                InputState::Conversion { candidates, .. } => match candidates.spec_selected() {
                    Some(c) => r == c.reading,
                    None => r is None,
                },
                _ => r is None,
            },
    {
        match self {
            InputState::Conversion { candidates, .. } => match candidates.selected() {
                Some(c) => crate::candidates::copy_opt_string(&c.reading),
                None => None,
            },
            _ => None,
        }
    }
}

/// Something the front end should do.
#[derive(Debug)]
pub enum EngineAction {
    UpdatePreedit(Preedit),
    Commit(String),
    ShowCandidates(CandidateList),
    HideCandidates,
    UpdateAuxText(String),
    HideAuxText,
}

/// The outcome of a key event: whether the engine took it, and what the
/// front end should do.
#[derive(Debug)]
pub struct EngineResult {
    pub consumed: bool,
    pub actions: Vec<EngineAction>,
}

/// `b` has the same converters, dictionaries and live-conversion switch
/// as `a`: what the engine consults stays as it was.
pub open spec fn same_sources(a: InputMethodEngine, b: InputMethodEngine) -> bool {
    &&& b.converters == a.converters
    &&& b.dicts == a.dicts
    &&& b.live.enabled == a.live.enabled
}

/// The text of the first commit among `acts`.
pub open spec fn commit_of(acts: Seq<EngineAction>) -> Option<Seq<char>>
    decreases acts.len(),
{
    if acts.len() == 0 {
        None
    } else {
        match acts[0] {
            EngineAction::Commit(t) => Some(t@),
            _ => commit_of(acts.drop_first()),
        }
    }
}

/// The text of the first aux-text update among `acts`.
pub open spec fn aux_of(acts: Seq<EngineAction>) -> Option<Seq<char>>
    decreases acts.len(),
{
    if acts.len() == 0 {
        None
    } else {
        match acts[0] {
            EngineAction::UpdateAuxText(t) => Some(t@),
            _ => aux_of(acts.drop_first()),
        }
    }
}

/// What the first candidate-window action among `acts` does:
/// `Some(Some(v))` shows the candidates `v`, `Some(None)` hides the window.
pub open spec fn window_of(acts: Seq<EngineAction>) -> Option<Option<Seq<CandView>>>
    decreases acts.len(),
{
    if acts.len() == 0 {
        None
    } else {
        match acts[0] {
            EngineAction::ShowCandidates(l) => Some(Some(cand_views(l.items()))),
            EngineAction::HideCandidates => Some(None),
            _ => window_of(acts.drop_first()),
        }
    }
}

/// The window action that `a` is, if it is one.
pub open spec fn window_action(a: EngineAction) -> Option<Option<Seq<CandView>>> {
    match a {
        EngineAction::ShowCandidates(l) => Some(Some(cand_views(l.items()))),
        EngineAction::HideCandidates => Some(None),
        _ => None,
    }
}

/// How long the aux text an action shows is (0 for other actions).
pub open spec fn aux_text_len(a: EngineAction) -> int {
    match a {
        EngineAction::UpdateAuxText(t) => t@.len() as int,
        _ => 0,
    }
}

/// No action among `acts` shows aux text: every aux update is empty.
pub open spec fn aux_silent(acts: Seq<EngineAction>) -> bool {
    forall|i: int| 0 <= i < acts.len() ==> #[trigger] aux_text_len(acts[i]) == 0
}

/// Whether `acts` hides the aux text.
pub open spec fn hides_aux(acts: Seq<EngineAction>) -> bool {
    exists|i: int| 0 <= i < acts.len() && acts[i] is HideAuxText
}

pub proof fn lemma_commit_of_push(acts: Seq<EngineAction>, a: EngineAction)
    ensures
        commit_of(acts.push(a)) == (match commit_of(acts) {
            Some(t) => Some(t),
            None => match a {
                EngineAction::Commit(t) => Some(t@),
                _ => None,
            },
        }),
        aux_of(acts.push(a)) == (match aux_of(acts) {
            Some(t) => Some(t),
            None => match a {
                EngineAction::UpdateAuxText(t) => Some(t@),
                _ => None,
            },
        }),
        window_of(acts.push(a)) == (match window_of(acts) {
            Some(w) => Some(w),
            None => window_action(a),
        }),
    decreases acts.len(),
{
    let pushed = acts.push(a);
    if acts.len() > 0 {
        assert(pushed[0] == acts[0]);
        assert(pushed.drop_first() =~= acts.drop_first().push(a));
        lemma_commit_of_push(acts.drop_first(), a);
    } else {
        assert(pushed[0] == a);
        assert(pushed.drop_first() =~= Seq::<EngineAction>::empty());
        assert(commit_of(pushed.drop_first()) is None);
        assert(aux_of(pushed.drop_first()) is None);
        assert(window_of(pushed.drop_first()) is None);
    }
}

impl EngineResult {
    /// Taken, no actions yet.
    pub fn consumed() -> (r: EngineResult)
        ensures
            r.consumed,
            r.actions@ == Seq::<EngineAction>::empty(),
            aux_silent(r.actions@),
    {
        EngineResult { consumed: true, actions: Vec::new() }
    }

    /// Not taken: the key goes on to the application.
    pub fn not_consumed() -> (r: EngineResult)
        ensures
            !r.consumed,
            r.actions@ == Seq::<EngineAction>::empty(),
            aux_silent(r.actions@),
    {
        EngineResult { consumed: false, actions: Vec::new() }
    }

    /// This result with one more action.
    pub fn with_action(self, a: EngineAction) -> (r: EngineResult)
        ensures
            r.consumed == self.consumed,
            r.actions@ == self.actions@.push(a),
            commit_of(r.actions@) == (match commit_of(self.actions@) {
                Some(t) => Some(t),
                None => match a {
                    EngineAction::Commit(t) => Some(t@),
                    _ => None,
                },
            }),
            aux_of(r.actions@) == (match aux_of(self.actions@) {
                Some(t) => Some(t),
                None => match a {
                    EngineAction::UpdateAuxText(t) => Some(t@),
                    _ => None,
                },
            }),
            window_of(r.actions@) == (match window_of(self.actions@) {
                Some(w) => Some(w),
                None => window_action(a),
            }),
            (a is HideAuxText || hides_aux(self.actions@)) ==> hides_aux(r.actions@),
            aux_silent(self.actions@) && aux_text_len(a) == 0 ==> aux_silent(r.actions@),
    {
        proof {
            lemma_commit_of_push(self.actions@, a);
        }
        let mut actions = self.actions;
        let ghost before = actions@;
        actions.push(a);
        proof {
            if hides_aux(before) {
                let i = choose|i: int| 0 <= i < before.len() && before[i] is HideAuxText;
                assert(actions@[i] == before[i]);
            }
            if a is HideAuxText {
                assert(actions@[before.len() as int] == a);
            }
            if aux_silent(before) && aux_text_len(a) == 0 {
                assert forall|i: int| 0 <= i < actions@.len() implies #[trigger] aux_text_len(actions@[i]) == 0 by {
                    if i < before.len() {
                        assert(actions@[i] == before[i]);
                    }
                }
            }
        }
        EngineResult { consumed: self.consumed, actions }
    }
}

/// Engine settings.
#[derive(Debug, Clone, Copy)]
pub struct EngineConfig {
    /// Candidates requested for an explicit conversion.
    pub num_candidates: usize,
    /// Conversion-key presses before the candidate window shows (0: at
    /// once).
    pub candidate_window_threshold: usize,
    /// Show suggestions while composing.
    pub auto_suggest: bool,
    /// Start with live conversion on.
    pub live_conversion: bool,
    /// Show the aux line at all.
    pub show_aux_text: bool,
    /// Add details (the converter's name) to the aux line.
    pub verbose: bool,
}

impl Default for EngineConfig {
    fn default() -> (c: EngineConfig)
        ensures
            c.num_candidates == 9,
            c.candidate_window_threshold == 1,
            c.auto_suggest,
            c.live_conversion,
            c.show_aux_text,
            !c.verbose,
    {
        EngineConfig {
            num_candidates: 9,
            candidate_window_threshold: 1,
            auto_suggest: true,
            live_conversion: true,
            show_aux_text: true,
            verbose: false,
        }
    }
}

/// Live conversion: while typing, the top conversion is shown in place of
/// the reading.
pub struct LiveConversion {
    pub enabled: bool,
    /// The conversion shown (empty when none is shown).
    pub text: String,
}

/// How the kana-kanji converters share a conversion that asks for `n`
/// candidates.
#[derive(Debug, Clone, Copy, PartialEq, Eq, Structural)]
pub enum ConversionStrategy {
    /// The main converter alone: its best `n` conversions.
    MainModel,
    /// The light converter alone: its best conversion.
    LightModel,
    /// Both: the main converter's best conversion, then the light
    /// converter's best `n`, each text once, at most `n`.
    ParallelBeam,
}

/// Converters the engine consults.
pub struct Converters {
    /// The main kana-kanji converter, if one is loaded.
    pub kanji: Option<KanjiConverter>,
    /// A lighter, faster converter, if one is loaded.
    pub light_kanji: Option<KanjiConverter>,
    /// How the two share a conversion.
    pub strategy: ConversionStrategy,
    /// Rule-based variants (symbols, emoji shortcodes).
    pub rewriters: RewriteTable,
    /// Descriptions shown beside fallback candidates that are symbols.
    pub symbols: SymbolTable,
}

/// The user's and the system's dictionaries.
pub struct Dictionaries {
    pub user: Option<Dictionary>,
    pub system: Option<Dictionary>,
}

/// Selection-based partial conversion in flight.
pub struct PartialConversion {
    /// The reading of the composition before any conversion result was
    /// baked into it.
    pub original_reading: Option<String>,
    /// Text before and after the span being converted.
    pub remaining: Option<(String, String)>,
}

/// The input-method engine.
pub struct InputMethodEngine {
    pub state: InputState,
    pub input_buf: InputBuffer,
    pub input_mode: InputMode,
    pub live: LiveConversion,
    pub config: EngineConfig,
    pub converters: Converters,
    pub dicts: Dictionaries,
    pub learning: Option<LearningCache>,
    pub partial: PartialConversion,
    pub suggest_candidates: Option<Vec<Candidate>>,
    pub conversion_space_count: usize,
}

/// Ctrl+Shift with the letter `lower`.
pub open spec fn is_toggle_key(key: KeyEvent, lower: char) -> bool {
    key.modifiers.control_key && key.modifiers.shift_key && key.keysym.spec_is_letter(lower)
}

/// The mode indicator shown on the aux line.
pub open spec fn spec_indicator(m: InputMode) -> Seq<char> {
    match m {
        InputMode::Hiragana => "[あ]"@,
        InputMode::Katakana => "[ア]"@,
        InputMode::Alphabet => "[A]"@,
        InputMode::Emoji => "[:]"@,
    }
}

impl InputMethodEngine {
    /// The engine's invariant: a well-formed buffer within capacity, a
    /// well-formed candidate list in Conversion, and a kept reading within
    /// capacity.
    pub open spec fn wf(&self) -> bool {
        &&& self.input_buf.wf()
        &&& self.input_buf@.text.len() + self.input_buf@.live.len() <= CAPACITY
        &&& (self.state matches InputState::Conversion { candidates, .. } ==> candidates.wf())
        &&& (self.partial.original_reading matches Some(o) ==> o@.len() <= CAPACITY)
    }

    /// The current state.
    pub open spec fn spec_state(&self) -> InputState {
        self.state
    }

    /// The partial conversion in flight.
    pub open spec fn spec_partial(&self) -> PartialConversion {
        self.partial
    }

    /// An engine with the default settings.
    pub fn new() -> (e: InputMethodEngine)
        ensures
            e.wf(),
            e.spec_state() is Empty,
            e.input_buf@ == crate::buffer::settled_model(seq![]),
            e.config.num_candidates == 9 && e.config.candidate_window_threshold == 1,
            e.config.auto_suggest && e.config.live_conversion && e.config.show_aux_text && !e.config.verbose,
            e.input_mode == InputMode::Hiragana,
            e.live.enabled && e.live.text@.len() == 0,
            e.converters.kanji is None && e.converters.light_kanji is None,
            e.converters.strategy == ConversionStrategy::MainModel,
            e.converters.rewriters.view().len() == 0,
            e.dicts.user is None && e.dicts.system is None,
            e.learning matches Some(c) && c.view().len() == 0,
            e.spec_partial().original_reading is None && e.spec_partial().remaining is None,
    {
        Self::with_config(EngineConfig::default())
    }

    /// An engine with `config`: no converter loaded, no dictionaries, an
    /// empty learning cache.
    pub fn with_config(config: EngineConfig) -> (e: InputMethodEngine)
        ensures
            e.wf(),
            e.spec_state() is Empty,
            e.input_buf@.text.len() == 0,
            e.config == config,
            e.input_mode == InputMode::Hiragana,
            e.live.enabled == config.live_conversion,
            e.live.text@.len() == 0,
            e.input_buf@ == crate::buffer::settled_model(seq![]),
            e.converters.kanji is None,
            e.converters.light_kanji is None,
            e.converters.strategy == ConversionStrategy::MainModel,
            e.converters.rewriters.view().len() == 0,
            e.dicts.user is None && e.dicts.system is None,
            e.learning matches Some(c) && c.view().len() == 0,
            e.spec_partial().original_reading is None && e.spec_partial().remaining is None,
            e.suggest_candidates is None,
            e.conversion_space_count == 0,
    {
        let e = InputMethodEngine {
            state: InputState::Empty,
            input_buf: InputBuffer::new(),
            input_mode: InputMode::Hiragana,
            live: LiveConversion { enabled: config.live_conversion, text: String::new() },
            config,
            converters: Converters {
                kanji: None,
                light_kanji: None,
                strategy: ConversionStrategy::MainModel,
                rewriters: RewriteTable::new(),
                symbols: SymbolTable::new(),
            },
            dicts: Dictionaries { user: None, system: None },
            learning: Some(LearningCache::new()),
            partial: PartialConversion { original_reading: None, remaining: None },
            suggest_candidates: None,
            conversion_space_count: 0,
        };
        assert(e.live.text@ =~= Seq::<char>::empty());
        e
    }

    /// The current state.
    pub fn state(&self) -> (s: &InputState)
        ensures
            *s == self.spec_state(),
    {
        &self.state
    }

    /// The preedit of the current state.
    pub fn preedit(&self) -> (p: Option<&Preedit>)
        ensures
            match self.spec_state() {
                InputState::Empty => p is None,
                InputState::Composing { preedit, .. } => p == Some(&preedit),
                InputState::Conversion { preedit, .. } => p == Some(&preedit),
            },
    {
        self.state.preedit()
    }

    /// The mode indicator.
    fn indicator(&self) -> (s: Vec<char>)
        ensures
            s@ == spec_indicator(self.input_mode),
    {
        match self.input_mode {
            InputMode::Hiragana => chars_of("[あ]"),
            InputMode::Katakana => chars_of("[ア]"),
            InputMode::Alphabet => chars_of("[A]"),
            InputMode::Emoji => chars_of("[:]"),
        }
    }

    /// The aux line for `body`: empty when the aux line is off, else the
    /// mode indicator, the body and (verbose) the converter's name.
    pub open spec fn spec_aux(&self, body: Seq<char>) -> Seq<char> {
        if !self.config.show_aux_text {
            seq![]
        } else {
            let base = spec_indicator(self.input_mode) + seq![' '] + body;
            if self.config.verbose && self.converters.kanji is Some {
                base + " | "@ + self.spec_model_name()
            } else {
                base
            }
        }
    }

    fn format_aux(&self, body: &[char]) -> (s: String)
        ensures
            s@ == self.spec_aux(body@),
    {
        if !self.config.show_aux_text {
            return String::new();
        }
        let ind = self.indicator();
        let sp: Vec<char> = vec![' '];
        let a = concat_chars(ind.as_slice(), sp.as_slice());
        let b = concat_chars(a.as_slice(), body);
        assert(sp@ =~= seq![' ']);
        if self.config.verbose && self.converters.kanji.is_some() {
            let sep = chars_of(" | ");
            let name = self.model_name();
            let c = concat_chars(b.as_slice(), sep.as_slice());
            let d = concat_chars(c.as_slice(), name.as_slice());
            return string_of(d.as_slice());
        }
        string_of(b.as_slice())
    }

    /// The name of the converter (or converters) a conversion uses, as
    /// the verbose aux line shows it.
    pub open spec fn spec_model_name(&self) -> Seq<char> {
        match self.converters.kanji {
            None => seq![],
            Some(main) => match self.converters.strategy {
                ConversionStrategy::MainModel => main.name(),
                ConversionStrategy::LightModel => match self.converters.light_kanji {
                    Some(light) => light.name(),
                    None => main.name(),
                },
                ConversionStrategy::ParallelBeam => main.name() + seq!['+'] + match self.converters.light_kanji {
                    Some(light) => light.name(),
                    None => Seq::<char>::empty(),
                },
            },
        }
    }

    fn model_name(&self) -> (s: Vec<char>)
        ensures
            s@ == self.spec_model_name(),
    {
        match &self.converters.kanji {
            None => Vec::new(),
            Some(main) => {
                let main_name = chars_of(main.model_display_name().as_str());
                match self.converters.strategy {
                    ConversionStrategy::MainModel => main_name,
                    ConversionStrategy::LightModel => match &self.converters.light_kanji {
                        Some(light) => chars_of(light.model_display_name().as_str()),
                        None => main_name,
                    },
                    ConversionStrategy::ParallelBeam => {
                        let plus: Vec<char> = vec!['+'];
                        assert(plus@ =~= seq!['+']);
                        let a = concat_chars(main_name.as_slice(), plus.as_slice());
                        match &self.converters.light_kanji {
                            Some(light) => {
                                let l = chars_of(light.model_display_name().as_str());
                                concat_chars(a.as_slice(), l.as_slice())
                            },
                            None => {
                                assert(a@ + Seq::<char>::empty() =~= a@);
                                a
                            },
                        }
                    },
                }
            },
        }
    }

    /// What the Composing preedit shows: the live conversion (with any
    /// pending keys) when one is shown, else the composition, in katakana
    /// in katakana mode.
    pub open spec fn spec_composing_text(&self) -> Seq<char> {
        if self.live.text@.len() > 0 {
            self.live.text@ + self.input_buf@.live
        } else if self.input_mode == InputMode::Katakana {
            spec_display(self.input_buf@).map_values(|c: char| spec_hira_to_kata(c))
        } else {
            spec_display(self.input_buf@)
        }
    }

    /// Caret of the Composing preedit.
    pub open spec fn spec_composing_caret(&self) -> int {
        if self.live.text@.len() > 0 {
            self.spec_composing_text().len() as int
        } else {
            self.input_buf@.cursor + self.input_buf@.live.len()
        }
    }

    fn composing_text(&self) -> (s: Vec<char>)
        requires
            self.input_buf.wf(),
        ensures
            s@ == self.spec_composing_text(),
    {
        if self.live.text.as_str().unicode_len() > 0 {
            let t = chars_of(self.live.text.as_str());
            let k = self.input_buf.live_keys();
            concat_chars(t.as_slice(), k.as_slice())
        } else if self.input_mode == InputMode::Katakana {
            let d = self.input_buf.display_chars();
            hiragana_to_katakana(d.as_slice())
        } else {
            self.input_buf.display_chars()
        }
    }

    /// The aux line while composing.
    pub open spec fn spec_aux_composing(&self) -> Seq<char> {
        self.spec_aux(self.spec_composing_text())
    }

    fn format_aux_composing(&self) -> (s: String)
        requires
            self.input_buf.wf(),
        ensures
            s@ == self.spec_aux_composing(),
    {
        let t = self.composing_text();
        self.format_aux(t.as_slice())
    }

    /// The aux line in conversion: the reading and, with candidates, the
    /// selected position out of their number.
    pub open spec fn spec_aux_conversion(&self, reading: Seq<char>, cands: Option<CandidateList>) -> Seq<char> {
        match cands {
            Some(l) => if l.items().len() > 0 {
                self.spec_aux(reading + seq![' '] + spec_decimal((l.pos() + 1) as nat) + seq!['/'] + spec_decimal(l.items().len()))
            } else {
                self.spec_aux(reading)
            },
            None => self.spec_aux(reading),
        }
    }

    fn format_aux_conversion_with_page(&self, reading: &[char], cands: Option<&CandidateList>) -> (s: String)
        requires
            cands matches Some(l) ==> l.wf(),
        ensures
            s@ == self.spec_aux_conversion(reading@, match cands { Some(l) => Some(*l), None => None }),
    {
        match cands {
            Some(l) => {
                if l.len() > 0 {
                    let sp: Vec<char> = vec![' '];
                    let sl: Vec<char> = vec!['/'];
                    let a = concat_chars(reading, sp.as_slice());
                    let b = concat_chars(a.as_slice(), decimal(l.cursor() + 1).as_slice());
                    let c = concat_chars(b.as_slice(), sl.as_slice());
                    let d = concat_chars(c.as_slice(), decimal(l.len()).as_slice());
                    assert(sp@ =~= seq![' ']);
                    assert(sl@ =~= seq!['/']);
                    self.format_aux(d.as_slice())
                } else {
                    self.format_aux(reading)
                }
            },
            None => self.format_aux(reading),
        }
    }

    /// Show the composition: the state becomes Composing with the
    /// composing preedit, which is returned.
    fn set_composing_state(&mut self) -> (p: Preedit)
        requires
            old(self).wf(),
        ensures
            same_sources(*old(self), *final(self)),
            final(self).learning == old(self).learning,
            final(self).wf(),
            final(self).config == old(self).config,
            *final(self) == (InputMethodEngine { state: final(self).spec_state(), ..*old(self) }),
            final(self).spec_state() matches InputState::Composing { preedit, romaji_buffer }
                && preedit == p && romaji_buffer@ == old(self).input_buf@.live,
            p.text_view() == old(self).spec_composing_text(),
            p.caret_pos() == old(self).spec_composing_caret(),
    {
        let text = self.composing_text();
        let caret = if self.live.text.as_str().unicode_len() > 0 {
            text.len()
        } else {
            self.input_buf.cursor() + self.input_buf.live_len()
        };
        let p = Preedit::from_chars(text.as_slice(), caret);
        let rb = string_of(self.input_buf.live_keys().as_slice());
        self.state = InputState::Composing { preedit: p.duplicate(), romaji_buffer: rb };
        p
    }

    /// Back to Empty: the composition, the live conversion, the partial
    /// conversion and the suggestions are dropped; a temporary alphabet
    /// word ends.
    fn enter_empty_state(&mut self)
        requires
            old(self).wf(),
        ensures
            same_sources(*old(self), *final(self)),
            final(self).wf(),
            final(self).spec_state() is Empty,
            final(self).input_buf@ == crate::buffer::settled_model(seq![]),
            final(self).live.text@ == Seq::<char>::empty(),
            final(self).live.enabled == old(self).live.enabled,
            final(self).spec_partial().original_reading is None,
            final(self).spec_partial().remaining is None,
            final(self).input_mode == (if old(self).input_mode == InputMode::Alphabet { InputMode::Hiragana } else { old(self).input_mode }),
            final(self).config == old(self).config,
            final(self).learning == old(self).learning,
            final(self).converters == old(self).converters,
            final(self).dicts == old(self).dicts,
    {
        self.state = InputState::Empty;
        self.input_buf.clear();
        self.live.text = String::new();
        self.partial = PartialConversion { original_reading: None, remaining: None };
        self.suggest_candidates = None;
        self.conversion_space_count = 0;
        if self.input_mode == InputMode::Alphabet {
            self.input_mode = InputMode::Hiragana;
        }
    }

    /// When the composition became empty: back to Empty, with the actions
    /// that clear the display.
    fn try_reset_if_empty(&mut self) -> (r: Option<EngineResult>)
        requires
            old(self).wf(),
        ensures
            same_sources(*old(self), *final(self)),
            final(self).learning == old(self).learning,
            final(self).wf(),
            final(self).config == old(self).config,
            old(self).input_buf@.text.len() == 0 && old(self).input_buf@.live.len() == 0 ==> {
                &&& r matches Some(res) && res.consumed && commit_of(res.actions@) is None && aux_silent(res.actions@)
                &&& final(self).spec_state() is Empty
                &&& final(self).live.text@.len() == 0
            },
            !(old(self).input_buf@.text.len() == 0 && old(self).input_buf@.live.len() == 0) ==> {
                &&& r is None
                &&& *final(self) == *old(self)
            },
    {
        if self.input_buf.is_empty() {
            self.enter_empty_state();
            Some(
                EngineResult::consumed()
                    .with_action(EngineAction::UpdatePreedit(Preedit::new()))
                    .with_action(EngineAction::HideCandidates)
                    .with_action(EngineAction::HideAuxText),
            )
        } else {
            None
        }
    }

    /// Settle the pending romaji keys into the reading.
    fn settle_romaji(&mut self)
        requires
            old(self).wf(),
        ensures
            same_sources(*old(self), *final(self)),
            final(self).learning == old(self).learning,
            final(self).wf(),
            final(self).config == old(self).config,
            final(self).input_buf@ == crate::buffer::spec_settle(old(self).input_buf@),
            *final(self) == (InputMethodEngine { input_buf: final(self).input_buf, ..*old(self) }),
    {
        self.input_buf.settle();
    }

    /// Handle a key event.
    pub fn process_key(&mut self, key: &KeyEvent) -> (r: EngineResult)
        requires
            old(self).wf(),
        ensures
            final(self).wf(),
            // A key press keeps the converters and dictionaries; only
            // Ctrl+Shift+L switches live conversion.
            final(self).converters == old(self).converters,
            final(self).dicts == old(self).dicts,
            !is_toggle_key(*key, 'l') ==> final(self).live.enabled == old(self).live.enabled,
            // Only accepting a conversion or a candidate records learning.
            old(self).spec_state() is Empty ==> final(self).learning == old(self).learning,
            old(self).spec_state() is Composing && key.keysym != Keysym::RETURN ==> final(self).learning == old(self).learning,
            old(self).spec_state() is Conversion && key.keysym != Keysym::RETURN && !(key.keysym matches Keysym::Char(_))
                ==> final(self).learning == old(self).learning,
            final(self).config.show_aux_text == old(self).config.show_aux_text,
            // With the aux line off, no key shows aux text.
            !old(self).config.show_aux_text ==> aux_silent(r.actions@),
            // Ctrl+Shift+L and Ctrl+Shift+V switch live conversion and
            // verbose details.
            is_toggle_key(*key, 'l') ==> {
                &&& r.consumed
                &&& commit_of(r.actions@) is None
                &&& final(self).live.enabled == !old(self).live.enabled
                &&& old(self).config.show_aux_text ==> aux_of(r.actions@) == Some(
                    if final(self).live.enabled { "ライブ変換: ON"@ } else { "ライブ変換: OFF"@ },
                )
                &&& !old(self).config.show_aux_text ==> aux_of(r.actions@) is None && hides_aux(r.actions@)
            },
            is_toggle_key(*key, 'v') ==> {
                &&& r.consumed
                &&& commit_of(r.actions@) is None
                &&& final(self).config.verbose == !old(self).config.verbose
                &&& old(self).config.show_aux_text ==> aux_of(r.actions@) == Some(
                    if final(self).config.verbose { "詳細表示: ON"@ } else { "詳細表示: OFF"@ },
                )
                &&& !old(self).config.show_aux_text ==> aux_of(r.actions@) is None && hides_aux(r.actions@)
            },
            !is_toggle_key(*key, 'l') && !is_toggle_key(*key, 'v') ==> {
                &&& final(self).config == old(self).config
                // Empty: Space commits a full-width space; a key that types
                // nothing is left to the application.
                &&& old(self).spec_state() is Empty && key.keysym == Keysym::SPACE && !key.modifiers.alt_key ==>
                    r.consumed && commit_of(r.actions@) == Some(seq!['\u{3000}']) && final(self).spec_state() is Empty
                &&& old(self).spec_state() is Empty && key.spec_to_char() is None ==>
                    !r.consumed && *final(self) == *old(self)
                &&& old(self).spec_state() is Empty && (key.modifiers.control_key || key.modifiers.alt_key)
                    && key.keysym != Keysym::SPACE ==> !r.consumed && *final(self) == *old(self)
                // Empty: any other printable key starts a composition.
                &&& old(self).spec_state() is Empty && key.spec_to_char() is Some && key.keysym != Keysym::SPACE
                    && !key.modifiers.control_key && !key.modifiers.alt_key ==>
                    first_key_typed(*old(self), *final(self), r, key.spec_to_char()->0, key.modifiers.shift_key)
                // Composing: a printable key types its character (Space does
                // in alphabet mode); Backspace and Delete remove one; Tab and
                // Down pick from the suggestions shown.
                &&& old(self).spec_state() is Composing && (key.keysym matches Keysym::Char(_)) && key.spec_to_char() is Some
                    && !key.modifiers.control_key && !key.modifiers.alt_key
                    ==> char_typed(*old(self), *final(self), r, key.spec_to_char()->0, key.modifiers.shift_key)
                &&& old(self).spec_state() is Composing && key.keysym == Keysym::SPACE && !key.modifiers.control_key
                    && old(self).input_mode == InputMode::Alphabet ==> char_typed(*old(self), *final(self), r, ' ', false)
                &&& old(self).spec_state() is Composing && key.keysym == Keysym::BACKSPACE ==> backspaced(*old(self), *final(self), r)
                &&& old(self).spec_state() is Composing && key.keysym == Keysym::DELETE ==> deleted(*old(self), *final(self), r)
                &&& old(self).spec_state() is Composing && (key.keysym == Keysym::DOWN || key.keysym == Keysym::TAB)
                    ==> suggestion_picked(*old(self), *final(self), r)
                &&& old(self).spec_state() is Composing && key.keysym == Keysym::ESCAPE
                    ==> composing_cancelled(*old(self), *final(self), r)
                // Composing: Ctrl+Space, Ctrl+K and the Emacs-style caret keys.
                &&& old(self).spec_state() is Composing && key.modifiers.control_key && key.keysym == Keysym::SPACE
                    ==> fullwidth_space_typed(*old(self), *final(self), r)
                &&& old(self).spec_state() is Composing && key.modifiers.control_key && !key.modifiers.shift_key
                    && key.keysym.spec_is_letter('k') ==> katakana_toggled(*old(self), *final(self), r)
                &&& old(self).spec_state() is Composing && key.modifiers.control_key && !key.modifiers.shift_key
                    && ctrl_caret_key(key.keysym) is Some
                    ==> caret_move_done(*old(self), *final(self), r, ctrl_caret_key(key.keysym)->0)
                // Conversion: Space, Down, Tab, Up and the page keys move the
                // selection.
                &&& old(self).spec_state() is Conversion && move_key(key.keysym) is Some
                    ==> selection_moved(*old(self), *final(self), r, move_key(key.keysym)->0)
                &&& old(self).spec_state() is Conversion && key.modifiers.control_key && !key.modifiers.alt_key
                    && key.keysym.spec_is_letter('n') ==> selection_moved(*old(self), *final(self), r, CandidateMove::Next)
                &&& old(self).spec_state() is Conversion && key.modifiers.control_key && !key.modifiers.alt_key
                    && key.keysym.spec_is_letter('p') ==> selection_moved(*old(self), *final(self), r, CandidateMove::Prev)
                // Conversion: any other key that types nothing is left to
                // the application.
                &&& old(self).spec_state() is Conversion && !conversion_named_key(key.keysym)
                    && !(key.modifiers.shift_key && caret_key(key.keysym) is Some)
                    && !(key.modifiers.control_key && !key.modifiers.alt_key
                        && (key.keysym.spec_is_letter('n') || key.keysym.spec_is_letter('p')))
                    && key.keysym.spec_digit_value() is None
                    && (key.spec_to_char() is None || key.modifiers.control_key || key.modifiers.alt_key)
                    ==> !r.consumed && *final(self) == *old(self)
                // Composing: arrows move the caret, Shift+arrows extend the
                // selection (in the composition as shown); nothing pending
                // settles.
                &&& old(self).spec_state() is Composing && !key.modifiers.shift_key && caret_key(key.keysym) is Some
                    ==> caret_move_done(*old(self), *final(self), r, caret_key(key.keysym)->0)
                &&& old(self).spec_state() is Composing && key.modifiers.shift_key && caret_key(key.keysym) is Some
                    ==> final(self).input_buf@ == selection_extended(selection_base(*old(self)), caret_key(key.keysym)->0)
                // F6-F10 while composing or converting: the settled
                // reading is committed in the key's form.
                &&& !(old(self).spec_state() is Empty) ==> (fkey_form(key.keysym) matches Some(f)
                    ==> direct_committed(*old(self), *final(self), r, f))
                // Composing: Enter commits, Space converts.
                &&& old(self).spec_state() is Composing && key.keysym == Keysym::RETURN ==> {
                    let text = spec_settle(old(self).input_buf@).text;
                    &&& r.consumed
                    &&& final(self).spec_state() is Empty
                    &&& old(self).input_mode != InputMode::Katakana && old(self).input_mode != InputMode::Emoji
                        && old(self).live.text@.len() == 0 ==> commit_of(r.actions@) == (if text.len() == 0 { None } else { Some(text) })
                    &&& old(self).input_mode != InputMode::Katakana && old(self).input_mode != InputMode::Emoji
                        && old(self).live.text@.len() > 0 ==> commit_of(r.actions@) == Some(old(self).live.text@)
                    &&& old(self).input_mode == InputMode::Katakana ==> commit_of(r.actions@) == (if text.len() == 0 { None } else {
                        Some(text.map_values(|c: char| spec_hira_to_kata(c)))
                    })
                    &&& old(self).input_mode == InputMode::Emoji ==> {
                        let t = emoji_commit_text(*old(self), text);
                        commit_of(r.actions@) == (if t.len() == 0 { None } else { Some(t) })
                    }
                    // What is committed is learned for the reading behind it.
                    &&& old(self).input_mode != InputMode::Emoji && commit_of(r.actions@) is Some ==>
                        learning_view(final(self).learning) == record_opt(
                            learning_view(old(self).learning),
                            match old(self).spec_partial().original_reading { Some(o) => o@, None => text },
                            commit_of(r.actions@)->0,
                        )
                }
                &&& old(self).spec_state() is Composing && key.keysym == Keysym::SPACE && !key.modifiers.control_key
                    && old(self).input_mode != InputMode::Alphabet
                    ==> space_converted(*old(self), *final(self), r, key.modifiers.shift_key)
                // Conversion: Escape and Backspace go back to the whole
                // reading; Shift+arrows bake the selected candidate in and
                // start a selection in it.
                &&& old(self).spec_state() is Conversion && (key.keysym == Keysym::ESCAPE || key.keysym == Keysym::BACKSPACE) ==> {
                    &&& r.consumed
                    &&& commit_of(r.actions@) is None
                    &&& spec_settle(old(self).input_buf@).text.len() > 0 ==> final(self).spec_state() is Composing
                        && final(self).input_buf@.text == spec_settle(old(self).input_buf@).text
                }
                &&& old(self).spec_state() is Conversion && key.modifiers.shift_key && caret_key(key.keysym) is Some
                    ==> selection_from_conversion(*old(self), *final(self), r, key.keysym)
                // Conversion: a digit picks a candidate on the page shown;
                // any other printable key commits the selection and goes on
                // composing.
                &&& old(self).spec_state() is Conversion && key.keysym.spec_digit_value() is Some
                    ==> digit_picked(*old(self), *final(self), r, key.keysym.spec_digit_value()->0)
                &&& old(self).spec_state() is Conversion && (key.keysym matches Keysym::Char(_))
                    && key.keysym.spec_digit_value() is None && key.spec_to_char() is Some
                    && !key.modifiers.control_key && !key.modifiers.alt_key
                    ==> conversion_continued(*old(self), *final(self), r, key.spec_to_char()->0)
                // Conversion: Enter accepts the selected candidate.
                &&& old(self).spec_state() is Conversion && key.keysym == Keysym::RETURN ==> {
                    let (t, rd) = old(self).spec_selected_conversion();
                    &&& t.len() == 0 ==> r.consumed && commit_of(r.actions@) is None
                    &&& t.len() > 0 ==> candidate_accepted(*old(self), *final(self), r, t, rd, old(self).input_mode != InputMode::Emoji)
                }
            },
    {
        let shift = key.modifiers.shift_key;
        if key.modifiers.control_key && shift {
            if key.keysym.is_letter('l') {
                return self.toggle_live_conversion();
            }
            if key.keysym.is_letter('v') {
                return self.toggle_verbose();
            }
        }
        match self.state {
            InputState::Empty => self.process_key_empty(key, shift),
            InputState::Composing { .. } => self.process_key_composing(key, shift),
            InputState::Conversion { .. } => self.process_key_conversion(key, shift),
        }
    }

    /// Ctrl+Shift+L: switch live conversion on or off, and report it on
    /// the aux line (unless the aux line is off).
    fn toggle_live_conversion(&mut self) -> (r: EngineResult)
        requires
            old(self).wf(),
        ensures
            final(self).converters == old(self).converters && final(self).dicts == old(self).dicts,
            final(self).learning == old(self).learning,
            final(self).wf(),
            final(self).config == old(self).config,
            !old(self).config.show_aux_text ==> aux_silent(r.actions@),
            final(self).live.enabled == !old(self).live.enabled,
            r.consumed,
            commit_of(r.actions@) is None,
            old(self).config.show_aux_text ==> aux_of(r.actions@) == Some(
                if final(self).live.enabled { "ライブ変換: ON"@ } else { "ライブ変換: OFF"@ },
            ),
            !old(self).config.show_aux_text ==> aux_of(r.actions@) is None && hides_aux(r.actions@),
    {
        self.live.enabled = !self.live.enabled;
        let mut result = EngineResult::consumed();
        if !self.live.enabled && self.live.text.as_str().unicode_len() > 0 {
            self.live.text = String::new();
            if let InputState::Composing { .. } = self.state {
                let p = self.set_composing_state();
                result = result.with_action(EngineAction::UpdatePreedit(p));
            }
        }
        if self.config.show_aux_text {
            let msg = if self.live.enabled {
                String::from_str("ライブ変換: ON")
            } else {
                String::from_str("ライブ変換: OFF")
            };
            result.with_action(EngineAction::UpdateAuxText(msg))
        } else {
            result.with_action(EngineAction::HideAuxText)
        }
    }

    /// Ctrl+Shift+V: switch verbose aux details on or off, and report it
    /// (unless the aux line is off).
    fn toggle_verbose(&mut self) -> (r: EngineResult)
        requires
            old(self).wf(),
        ensures
            same_sources(*old(self), *final(self)),
            final(self).learning == old(self).learning,
            final(self).wf(),
            !old(self).config.show_aux_text ==> aux_silent(r.actions@),
            final(self).config == (EngineConfig { verbose: !old(self).config.verbose, ..old(self).config }),
            r.consumed,
            commit_of(r.actions@) is None,
            old(self).config.show_aux_text ==> aux_of(r.actions@) == Some(
                if final(self).config.verbose { "詳細表示: ON"@ } else { "詳細表示: OFF"@ },
            ),
            !old(self).config.show_aux_text ==> aux_of(r.actions@) is None && hides_aux(r.actions@),
    {
        self.config.verbose = !self.config.verbose;
        if self.config.show_aux_text {
            let msg = if self.config.verbose {
                String::from_str("詳細表示: ON")
            } else {
                String::from_str("詳細表示: OFF")
            };
            EngineResult::consumed().with_action(EngineAction::UpdateAuxText(msg))
        } else {
            EngineResult::consumed().with_action(EngineAction::HideAuxText)
        }
    }
}

} // verus!
