//! Conversion candidates: the public candidate type, the selectable
//! candidate list with pages, and deduplicated candidate building.

use vstd::prelude::*;

verus! {

/// A conversion candidate shown to the user.
#[derive(Debug, Clone)]
pub struct Candidate {
    pub text: String,
    pub reading: Option<String>,
    pub source_label: Option<String>,
    pub description: Option<String>,
}

/// `Some(s@)` or `None`.
pub open spec fn opt_view(o: Option<String>) -> Option<Seq<char>> {
    match o {
        Some(s) => Some(s@),
        None => None,
    }
}

pub fn copy_opt_string(o: &Option<String>) -> (r: Option<String>)
    ensures
        r == *o,
{
    match o {
        Some(s) => Some(s.clone()),
        None => None,
    }
}

impl Candidate {
    /// A candidate with only its text.
    pub fn new(text: String) -> (c: Candidate)
        ensures
            c.text == text,
            c.reading is None,
            c.source_label is None,
            c.description is None,
    {
        Candidate { text, reading: None, source_label: None, description: None }
    }

    /// A candidate with its text and reading.
    pub fn with_reading(text: String, reading: String) -> (c: Candidate)
        ensures
            c.text == text,
            c.reading == Some(reading),
            c.source_label is None,
            c.description is None,
    {
        Candidate { text, reading: Some(reading), source_label: None, description: None }
    }

    /// An identical copy.
    pub fn duplicate(&self) -> (c: Candidate)
        ensures
            c == *self,
    {
        Candidate {
            text: self.text.clone(),
            reading: copy_opt_string(&self.reading),
            source_label: copy_opt_string(&self.source_label),
            description: copy_opt_string(&self.description),
        }
    }
}

/// A candidate as plain values.
pub struct CandView {
    pub text: Seq<char>,
    pub reading: Option<Seq<char>>,
    pub source_label: Option<Seq<char>>,
    pub description: Option<Seq<char>>,
}

impl View for Candidate {
    type V = CandView;

    open spec fn view(&self) -> CandView {
        CandView {
            text: self.text@,
            reading: opt_view(self.reading),
            source_label: opt_view(self.source_label),
            description: opt_view(self.description),
        }
    }
}

/// The views of a candidate sequence.
pub open spec fn cand_views(v: Seq<Candidate>) -> Seq<CandView> {
    v.map_values(|c: Candidate| c@)
}

/// Whether some candidate of `v` has the text `t`.
pub open spec fn has_text(v: Seq<CandView>, t: Seq<char>) -> bool {
    exists|i: int| 0 <= i < v.len() && #[trigger] v[i].text == t
}

/// Whether some candidate of `v` has the text `t`.
pub fn contains_text(v: &Vec<Candidate>, t: &String) -> (b: bool)
    ensures
        b == has_text(cand_views(v@), t@),
{
    let ghost vv = cand_views(v@);
    let mut i: usize = 0;
    while i < v.len()
        invariant
            i <= v@.len(),
            vv == cand_views(v@),
            forall|k: int| 0 <= k < i ==> vv[k].text != t@,
        decreases v@.len() - i,
    {
        assert(vv[i as int].text == v@[i as int].text@);
        if v[i].text == *t {
            return true;
        }
        i = i + 1;
    }
    false
}

/// Appending `s` to `acc`, skipping candidates whose text is already
/// present (in `acc` or earlier in `s`).
pub open spec fn append_dedup(acc: Seq<CandView>, s: Seq<CandView>) -> Seq<CandView>
    decreases s.len(),
{
    if s.len() == 0 {
        acc
    } else {
        let acc2 = if has_text(acc, s[0].text) { acc } else { acc.push(s[0]) };
        append_dedup(acc2, s.drop_first())
    }
}

/// Append candidates to `target`, skipping duplicates by text.
pub fn append_candidates_dedup(target: &mut Vec<Candidate>, source: Vec<Candidate>)
    ensures
        cand_views(final(target)@) == append_dedup(cand_views(old(target)@), cand_views(source@)),
{
    let ghost t0 = cand_views(target@);
    let ghost sv = cand_views(source@);
    let mut i: usize = 0;
    assert(sv.skip(0) =~= sv);
    while i < source.len()
        invariant
            i <= source@.len(),
            sv == cand_views(source@),
            append_dedup(t0, sv) == append_dedup(cand_views(target@), sv.skip(i as int)),
        decreases source@.len() - i,
    {
        let c = source[i].duplicate();
        assert(sv.skip(i as int).drop_first() =~= sv.skip(i + 1));
        assert(sv.skip(i as int)[0] == c@);
        let ghost before = cand_views(target@);
        if !contains_text(target, &c.text) {
            target.push(c);
            assert(cand_views(target@) =~= before.push(sv[i as int]));
        }
        i = i + 1;
    }
    assert(sv.skip(source@.len() as int) =~= Seq::<CandView>::empty());
}

/// Keep the first occurrence of every text of `s`, appended to `acc`.
pub open spec fn dedup_strings(acc: Seq<Seq<char>>, s: Seq<Seq<char>>) -> Seq<Seq<char>>
    decreases s.len(),
{
    if s.len() == 0 {
        acc
    } else {
        let acc2 = if acc.contains(s[0]) { acc } else { acc.push(s[0]) };
        dedup_strings(acc2, s.drop_first())
    }
}

pub open spec fn string_views(v: Seq<String>) -> Seq<Seq<char>> {
    v.map_values(|s: String| s@)
}

/// Whether `v` holds a string equal to `t`.
fn contains_string(v: &Vec<String>, t: &String) -> (b: bool)
    ensures
        b == string_views(v@).contains(t@),
{
    let mut i: usize = 0;
    while i < v.len()
        invariant
            i <= v@.len(),
            forall|k: int| 0 <= k < i ==> v@[k]@ != t@,
        decreases v@.len() - i,
    {
        if v[i] == *t {
            assert(string_views(v@)[i as int] == t@);
            return true;
        }
        i = i + 1;
    }
    proof {
        if string_views(v@).contains(t@) {
            let k = choose|k: int| 0 <= k < string_views(v@).len() && string_views(v@)[k] == t@;
            assert(v@[k]@ == t@);
        }
    }
    false
}

proof fn lemma_dedup_concat(acc: Seq<Seq<char>>, a: Seq<Seq<char>>, b: Seq<Seq<char>>)
    ensures
        dedup_strings(acc, a + b) == dedup_strings(dedup_strings(acc, a), b),
    decreases a.len(),
{
    if a.len() > 0 {
        let acc2 = if acc.contains(a[0]) { acc } else { acc.push(a[0]) };
        assert((a + b).drop_first() =~= a.drop_first() + b);
        assert((a + b)[0] == a[0]);
        lemma_dedup_concat(acc2, a.drop_first(), b);
    } else {
        assert(a + b =~= b);
    }
}

/// Append to `acc` the strings of `src` whose text is not yet present.
fn dedup_append(acc: &mut Vec<String>, src: &Vec<String>)
    ensures
        string_views(final(acc)@) == dedup_strings(string_views(old(acc)@), string_views(src@)),
{
    let ghost all = string_views(src@);
    let mut i: usize = 0;
    assert(all.skip(0) =~= all);
    while i < src.len()
        invariant
            all == string_views(src@),
            i <= src@.len(),
            dedup_strings(string_views(old(acc)@), all) == dedup_strings(string_views(acc@), all.skip(i as int)),
        decreases src@.len() - i,
    {
        let s = src[i].clone();
        assert(all.skip(i as int).drop_first() =~= all.skip(i + 1));
        assert(all.skip(i as int)[0] == s@);
        if !contains_string(acc, &s) {
            let ghost before = string_views(acc@);
            acc.push(s);
            assert(string_views(acc@) =~= before.push(s@));
        }
        i = i + 1;
    }
    assert(all.skip(src@.len() as int) =~= Seq::<Seq<char>>::empty());
}

/// Merge two candidate lists: primary first, then secondary, each text
/// once (first occurrence kept), at most `max_candidates` of them.
pub fn merge_candidates_dedup(primary: Vec<String>, secondary: Vec<String>, max_candidates: usize) -> (r: Vec<String>)
    ensures
        string_views(r@) == dedup_strings(seq![], string_views(primary@) + string_views(secondary@)).take(
            if max_candidates < dedup_strings(seq![], string_views(primary@) + string_views(secondary@)).len() {
                max_candidates as int
            } else {
                dedup_strings(seq![], string_views(primary@) + string_views(secondary@)).len() as int
            },
        ),
{
    let ghost all = string_views(primary@) + string_views(secondary@);
    let mut acc: Vec<String> = Vec::new();
    assert(string_views(acc@) =~= Seq::<Seq<char>>::empty());
    dedup_append(&mut acc, &primary);
    dedup_append(&mut acc, &secondary);
    proof {
        lemma_dedup_concat(seq![], string_views(primary@), string_views(secondary@));
    }
    if acc.len() > max_candidates {
        acc.truncate(max_candidates);
    }
    assert(string_views(acc@) =~= dedup_strings(seq![], all).take(
        if max_candidates < dedup_strings(seq![], all).len() { max_candidates as int } else { dedup_strings(seq![], all).len() as int },
    ));
    acc
}

/// A list of candidates with a selection cursor, shown in pages.
#[derive(Debug, Clone)]
pub struct CandidateList {
    candidates: Vec<Candidate>,
    cursor: usize,
    page_size: usize,
}

impl CandidateList {
    pub const DEFAULT_PAGE_SIZE: usize = 9;

    /// The candidates.
    pub closed spec fn items(&self) -> Seq<Candidate> {
        self.candidates@
    }

    /// The selected position.
    pub closed spec fn pos(&self) -> int {
        self.cursor as int
    }

    /// Candidates per page.
    pub closed spec fn page(&self) -> int {
        self.page_size as int
    }

    pub open spec fn wf(&self) -> bool {
        &&& self.page() == Self::DEFAULT_PAGE_SIZE
        &&& (self.items().len() == 0 && self.pos() == 0) || (0 <= self.pos() < self.items().len())
    }

    /// The selected candidate, if the list is not empty.
    pub open spec fn spec_selected(&self) -> Option<Candidate> {
        if 0 <= self.pos() < self.items().len() { Some(self.items()[self.pos()]) } else { None }
    }

    /// A list over `candidates` with the first one selected.
    pub fn new(candidates: Vec<Candidate>) -> (l: CandidateList)
        ensures
            l.wf(),
            l.items() == candidates@,
            l.pos() == 0,
    {
        CandidateList { candidates, cursor: 0, page_size: Self::DEFAULT_PAGE_SIZE }
    }

    /// An identical copy.
    pub fn duplicate(&self) -> (l: CandidateList)
        ensures
            l.items() == self.items(),
            l.pos() == self.pos(),
            l.page() == self.page(),
    {
        let mut v: Vec<Candidate> = Vec::new();
        let mut i: usize = 0;
        while i < self.candidates.len()
            invariant
                i <= self.candidates@.len(),
                v@ == self.candidates@.take(i as int),
            decreases self.candidates@.len() - i,
        {
            v.push(self.candidates[i].duplicate());
            i = i + 1;
            assert(v@ =~= self.candidates@.take(i as int));
        }
        assert(v@ =~= self.candidates@);
        CandidateList { candidates: v, cursor: self.cursor, page_size: self.page_size }
    }

    pub fn len(&self) -> (n: usize)
        ensures
            n == self.items().len(),
    {
        self.candidates.len()
    }

    pub fn is_empty(&self) -> (b: bool)
        ensures
            b == (self.items().len() == 0),
    {
        self.candidates.len() == 0
    }

    /// The selected position.
    pub fn cursor(&self) -> (c: usize)
        ensures
            c == self.pos(),
    {
        self.cursor
    }

    /// The candidate at `i`.
    pub fn get(&self, i: usize) -> (c: Option<&Candidate>)
        ensures
            i < self.items().len() ==> c == Some(&self.items()[i as int]),
            i >= self.items().len() ==> c is None,
    {
        if i < self.candidates.len() { Some(&self.candidates[i]) } else { None }
    }

    /// The selected candidate.
    pub fn selected(&self) -> (c: Option<&Candidate>)
        ensures
            match c {
                Some(x) => self.spec_selected() == Some(*x),
                None => self.spec_selected() is None,
            },
    {
        if self.cursor < self.candidates.len() { Some(&self.candidates[self.cursor]) } else { None }
    }

    /// Text of the selected candidate.
    pub fn selected_text(&self) -> (t: Option<String>)
        ensures
            match t {
                Some(x) => self.spec_selected() matches Some(c) && c.text == x,
                None => self.spec_selected() is None,
            },
    {
        match self.selected() {
            Some(c) => Some(c.text.clone()),
            None => None,
        }
    }

    /// Select the next candidate, wrapping to the first after the last.
    /// False when the list is empty.
    pub fn move_next(&mut self) -> (moved: bool)
        requires
            old(self).wf(),
        ensures
            final(self).wf(),
            final(self).items() == old(self).items(),
            moved == (old(self).items().len() > 0),
            final(self).pos() == (if old(self).pos() + 1 < old(self).items().len() { old(self).pos() + 1 } else { 0 }),
    {
        if self.candidates.len() == 0 {
            return false;
        }
        if self.cursor + 1 < self.candidates.len() {
            self.cursor = self.cursor + 1;
        } else {
            self.cursor = 0;
        }
        true
    }

    /// Select the previous candidate, wrapping to the last before the
    /// first. False when the list is empty.
    pub fn move_prev(&mut self) -> (moved: bool)
        requires
            old(self).wf(),
        ensures
            final(self).wf(),
            final(self).items() == old(self).items(),
            moved == (old(self).items().len() > 0),
            old(self).items().len() > 0 ==> final(self).pos() == (if old(self).pos() > 0 { old(self).pos() - 1 } else { old(self).items().len() - 1 }),
            old(self).items().len() == 0 ==> final(self).pos() == old(self).pos(),
    {
        if self.candidates.len() == 0 {
            return false;
        }
        if self.cursor > 0 {
            self.cursor = self.cursor - 1;
        } else {
            self.cursor = self.candidates.len() - 1;
        }
        true
    }

    /// Select the first candidate of the next page, if there is one.
    pub fn next_page(&mut self) -> (moved: bool)
        requires
            old(self).wf(),
        ensures
            final(self).wf(),
            final(self).items() == old(self).items(),
            ({
                let start = (old(self).pos() / old(self).page() + 1) * old(self).page();
                &&& moved == (start < old(self).items().len())
                &&& final(self).pos() == (if moved { start } else { old(self).pos() })
            }),
    {
        let page = self.cursor / self.page_size;
        assert(page * self.page_size <= self.cursor) by (nonlinear_arith)
            requires page == self.cursor / self.page_size, self.page_size > 0;
        if self.page_size < self.candidates.len() - page * self.page_size {
            self.cursor = page * self.page_size + self.page_size;
            assert((page + 1) * self.page_size == page * self.page_size + self.page_size) by (nonlinear_arith);
            true
        } else {
            assert((page + 1) * self.page_size == page * self.page_size + self.page_size) by (nonlinear_arith);
            false
        }
    }

    /// Select the first candidate of the previous page, if there is one.
    pub fn prev_page(&mut self) -> (moved: bool)
        requires
            old(self).wf(),
        ensures
            final(self).wf(),
            final(self).items() == old(self).items(),
            ({
                let page = old(self).pos() / old(self).page();
                &&& moved == (page > 0)
                &&& final(self).pos() == (if moved { (page - 1) * old(self).page() } else { old(self).pos() })
            }),
    {
        let page = self.cursor / self.page_size;
        if page > 0 {
            assert((page - 1) * self.page_size <= self.cursor) by (nonlinear_arith)
                requires page == self.cursor / self.page_size, self.page_size > 0, page > 0;
            self.cursor = (page - 1) * self.page_size;
            true
        } else {
            false
        }
    }

    /// Select the `digit`-th candidate (1-based) of the current page.
    pub fn select_on_page(&mut self, digit: usize) -> (found: bool)
        requires
            old(self).wf(),
        ensures
            final(self).wf(),
            final(self).items() == old(self).items(),
            ({
                let idx = (old(self).pos() / old(self).page()) * old(self).page() + digit - 1;
                &&& found == (1 <= digit <= old(self).page() && idx < old(self).items().len())
                &&& final(self).pos() == (if found { idx } else { old(self).pos() })
            }),
    {
        let page = self.cursor / self.page_size;
        assert(page * self.page_size <= self.cursor) by (nonlinear_arith)
            requires page == self.cursor / self.page_size, self.page_size > 0;
        if digit >= 1 && digit <= self.page_size && digit - 1 < self.candidates.len() - page * self.page_size {
            self.cursor = page * self.page_size + (digit - 1);
            true
        } else {
            false
        }
    }
}

/// Where a conversion candidate came from.
#[derive(Debug, Clone, Copy, PartialEq, Eq, Structural)]
pub enum CandidateSource {
    Learning,
    UserDictionary,
    Model,
    Dictionary,
    Fallback,
    Rewriter,
}

impl CandidateSource {
    pub open spec fn spec_label(self) -> Seq<char> {
        match self {
            CandidateSource::Learning => "📝 学習"@,
            CandidateSource::UserDictionary => "👤 ユーザー辞書"@,
            CandidateSource::Model => "🤖 AI"@,
            CandidateSource::Dictionary => "📚 辞書"@,
            CandidateSource::Fallback => ""@,
            CandidateSource::Rewriter => "🔄 変換"@,
        }
    }

    /// The label shown beside candidates of this source (empty for the
    /// hiragana/katakana fallbacks).
    pub fn label(&self) -> (s: String)
        ensures
            s@ == self.spec_label(),
    {
        match self {
            CandidateSource::Learning => String::from_str("📝 学習"),
            CandidateSource::UserDictionary => String::from_str("👤 ユーザー辞書"),
            CandidateSource::Model => String::from_str("🤖 AI"),
            CandidateSource::Dictionary => String::from_str("📚 辞書"),
            CandidateSource::Fallback => {
                proof {
                    reveal_strlit("");
                }
                String::new()
            },
            CandidateSource::Rewriter => String::from_str("🔄 変換"),
        }
    }
}

/// A candidate under construction, with its source.
#[derive(Debug, Clone)]
pub struct AnnotatedCandidate {
    pub text: String,
    pub reading: Option<String>,
    pub source: CandidateSource,
    pub description: Option<String>,
}

impl AnnotatedCandidate {
    pub fn new(text: String, source: CandidateSource) -> (c: AnnotatedCandidate)
        ensures
            c.text == text,
            c.source == source,
            c.reading is None,
            c.description is None,
    {
        AnnotatedCandidate { text, reading: None, source, description: None }
    }

    pub fn with_reading(self, reading: Option<String>) -> (c: AnnotatedCandidate)
        ensures
            c == (AnnotatedCandidate { reading, ..self }),
    {
        AnnotatedCandidate { reading, ..self }
    }

    pub fn with_description(self, description: Option<String>) -> (c: AnnotatedCandidate)
        ensures
            c == (AnnotatedCandidate { description, ..self }),
    {
        AnnotatedCandidate { description, ..self }
    }

    pub fn duplicate(&self) -> (c: AnnotatedCandidate)
        ensures
            c == *self,
    {
        AnnotatedCandidate {
            text: self.text.clone(),
            reading: copy_opt_string(&self.reading),
            source: self.source,
            description: copy_opt_string(&self.description),
        }
    }
}

/// An annotated candidate as plain values.
pub struct AnnView {
    pub text: Seq<char>,
    pub reading: Option<Seq<char>>,
    pub source: CandidateSource,
    pub description: Option<Seq<char>>,
}

impl View for AnnotatedCandidate {
    type V = AnnView;

    open spec fn view(&self) -> AnnView {
        AnnView {
            text: self.text@,
            reading: opt_view(self.reading),
            source: self.source,
            description: opt_view(self.description),
        }
    }
}

/// The views of an annotated candidate sequence.
pub open spec fn ann_views(v: Seq<AnnotatedCandidate>) -> Seq<AnnView> {
    v.map_values(|c: AnnotatedCandidate| c@)
}

/// A fresh annotated candidate: text and source only.
pub open spec fn ann(text: Seq<char>, source: CandidateSource) -> AnnView {
    AnnView { text, reading: None, source, description: None }
}

/// Whether some annotated candidate of `v` has the text `t`.
pub open spec fn has_ann_text(v: Seq<AnnView>, t: Seq<char>) -> bool {
    exists|i: int| 0 <= i < v.len() && #[trigger] v[i].text == t
}

/// `acc` with `c` appended unless its text is already present.
pub open spec fn push_new(acc: Seq<AnnView>, c: AnnView) -> Seq<AnnView> {
    if has_ann_text(acc, c.text) { acc } else { acc.push(c) }
}

/// A deduplicating list of annotated candidates: `push` skips a text that
/// is already present, `push_force` always appends (so an earlier source
/// can win over a duplicate from a later one).
/// Whether a text is already present is found by a scan of the list
/// itself, so what `push` keeps is stated over the list's view alone.
pub struct CandidateBuilder {
    pub candidates: Vec<AnnotatedCandidate>,
}

impl CandidateBuilder {
    pub open spec fn spec_items(&self) -> Seq<AnnView> {
        ann_views(self.candidates@)
    }

    pub fn new() -> (b: CandidateBuilder)
        ensures
            b.spec_items() == Seq::<AnnView>::empty(),
    {
        let b = CandidateBuilder { candidates: Vec::new() };
        assert(b.spec_items() =~= Seq::<AnnView>::empty());
        b
    }

    fn contains(&self, t: &String) -> (b: bool)
        ensures
            b == has_ann_text(self.spec_items(), t@),
    {
        let ghost vv = self.spec_items();
        let mut i: usize = 0;
        while i < self.candidates.len()
            invariant
                i <= self.candidates@.len(),
                vv == self.spec_items(),
                forall|k: int| 0 <= k < i ==> vv[k].text != t@,
            decreases self.candidates@.len() - i,
        {
            assert(vv[i as int].text == self.candidates@[i as int].text@);
            if self.candidates[i].text == *t {
                return true;
            }
            i = i + 1;
        }
        false
    }

    /// Push a candidate if its text hasn't been seen yet.
    pub fn push(&mut self, ac: AnnotatedCandidate)
        ensures
            final(self).spec_items() == push_new(old(self).spec_items(), ac@),
    {
        let ghost before = self.spec_items();
        if !self.contains(&ac.text) {
            self.candidates.push(ac);
            assert(self.spec_items() =~= before.push(ac@));
        }
    }

    /// Push a candidate unconditionally.
    pub fn push_force(&mut self, ac: AnnotatedCandidate)
        ensures
            final(self).spec_items() == old(self).spec_items().push(ac@),
    {
        let ghost before = self.spec_items();
        self.candidates.push(ac);
        assert(self.spec_items() =~= before.push(ac@));
    }

    pub fn is_empty(&self) -> (b: bool)
        ensures
            b == (self.spec_items().len() == 0),
    {
        self.candidates.len() == 0
    }

    pub fn into_candidates(self) -> (v: Vec<AnnotatedCandidate>)
        ensures
            ann_views(v@) == self.spec_items(),
    {
        self.candidates
    }
}

/// Full-width katakana letters and the prolonged sound mark.
pub open spec fn spec_is_full_katakana_char(c: char) -> bool {
    ('\u{30A1}' <= c && c <= '\u{30FA}') || c == '\u{30FC}'
}

pub open spec fn spec_is_pure_full_katakana(s: Seq<char>) -> bool {
    s.len() > 0 && forall|k: int| 0 <= k < s.len() ==> spec_is_full_katakana_char(#[trigger] s[k])
}

fn is_pure_full_katakana(s: &[char]) -> (r: bool)
    ensures
        r == spec_is_pure_full_katakana(s@),
{
    if s.len() == 0 {
        return false;
    }
    let mut i: usize = 0;
    while i < s.len()
        invariant
            i <= s@.len(),
            forall|k: int| 0 <= k < i ==> spec_is_full_katakana_char(#[trigger] s@[k]),
        decreases s@.len() - i,
    {
        let c = s[i];
        if !(('\u{30A1}' <= c && c <= '\u{30FA}') || c == '\u{30FC}') {
            return false;
        }
        i = i + 1;
    }
    true
}

/// Width/script annotation of a pure-kana text.
pub open spec fn spec_width_annotation(t: Seq<char>) -> Option<Seq<char>> {
    if crate::kana::spec_is_pure_hiragana(t) {
        Some("[全]ひらがな"@)
    } else if spec_is_pure_full_katakana(t) {
        Some("[全]カタカナ"@)
    } else {
        None
    }
}

/// Mozc-style width/script annotation for a pure-kana candidate, or `None`
/// if the text mixes scripts or holds kanji or punctuation.
pub fn width_annotation(text: &[char]) -> (r: Option<String>)
    ensures
        opt_view(r) == spec_width_annotation(text@),
{
    if crate::kana::is_pure_hiragana(text) {
        Some(String::from_str("[全]ひらがな"))
    } else if is_pure_full_katakana(text) {
        Some(String::from_str("[全]カタカナ"))
    } else {
        None
    }
}

} // verus!
