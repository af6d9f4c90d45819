//! The composition buffer: the settled reading, the romaji keys still
//! pending at the caret, the caret and the selection anchor.

use vstd::prelude::*;
use crate::romaji::{resolve, settle, resolve_keys, settle_keys, Emitted, rule_codes, is_consonant_prefix, spec_rule, plain};
use crate::text::{slice_chars, concat_chars, string_of};

verus! {

/// The buffer as plain values.
pub struct BufferModel {
    /// Settled reading.
    pub text: Seq<char>,
    /// For each settled character, the lone key it came from when that key
    /// can be taken back into the pending keys by a deletion.
    pub marks: Seq<Option<char>>,
    /// Romaji keys still pending, shown at the caret.
    pub live: Seq<char>,
    /// Caret position in the settled reading.
    pub cursor: int,
    /// Selection anchor; the selection spans anchor..caret.
    pub anchor: Option<int>,
}

/// The composition buffer.
pub struct InputBuffer {
    text: Vec<char>,
    marks: Vec<Option<char>>,
    live: Vec<char>,
    cursor: usize,
    anchor: Option<usize>,
}

/// `m` with `e` inserted at the caret; the caret moves past it, and so does
/// a selection anchor at or after the caret (the pending keys are shown
/// before it).
pub open spec fn insert_emitted(m: BufferModel, e: Emitted) -> BufferModel {
    BufferModel {
        text: m.text.take(m.cursor) + e.map_values(|x: (char, Option<char>)| x.0) + m.text.skip(m.cursor),
        marks: m.marks.take(m.cursor) + e.map_values(|x: (char, Option<char>)| x.1) + m.marks.skip(m.cursor),
        live: m.live,
        cursor: m.cursor + e.len(),
        anchor: match m.anchor {
            Some(a) => Some(if a >= m.cursor { a + e.len() } else { a }),
            None => None,
        },
    }
}

/// Typing the romaji key `c`: the pending keys and `c` are resolved, the
/// emitted characters go in at the caret and the rest stays pending. The
/// selection is dropped.
pub open spec fn spec_type_key(m: BufferModel, c: char) -> BufferModel {
    let (e, l) = resolve(m.live.push(c));
    let m2 = insert_emitted(m, e);
    BufferModel { live: l, anchor: None, ..m2 }
}

/// Settling: the pending keys become settled characters at the caret.
pub open spec fn spec_settle(m: BufferModel) -> BufferModel {
    let m2 = insert_emitted(m, settle(m.live));
    BufferModel { live: seq![], ..m2 }
}

/// Inserting literal text (after settling): the characters go in at the
/// caret, none of them reclaimable. The selection is dropped.
pub open spec fn spec_insert_text(m: BufferModel, s: Seq<char>) -> BufferModel {
    let m2 = insert_emitted(spec_settle(m), s.map_values(|c: char| (c, None::<char>)));
    BufferModel { anchor: None, ..m2 }
}

/// When nothing is pending and the character before the caret can be
/// taken back, it returns to the pending keys.
pub open spec fn reclaim(m: BufferModel) -> BufferModel {
    if m.live.len() == 0 && m.cursor > 0 && m.marks[m.cursor - 1] is Some {
        BufferModel {
            text: m.text.remove(m.cursor - 1),
            marks: m.marks.remove(m.cursor - 1),
            live: seq![m.marks[m.cursor - 1]->0],
            cursor: m.cursor - 1,
            anchor: None,
        }
    } else {
        m
    }
}

/// Backspace: drop the last pending key, or else the settled character
/// before the caret; then take back a reclaimable character before the
/// caret. The flag says whether anything was removed.
pub open spec fn spec_backspace(m: BufferModel) -> (BufferModel, bool) {
    if m.live.len() > 0 {
        (reclaim(BufferModel { live: m.live.drop_last(), anchor: None, ..m }), true)
    } else if m.cursor > 0 {
        (reclaim(BufferModel {
            text: m.text.remove(m.cursor - 1),
            marks: m.marks.remove(m.cursor - 1),
            cursor: m.cursor - 1,
            anchor: None,
            ..m
        }), true)
    } else {
        (m, false)
    }
}

/// Delete: remove the settled character after the caret, if any.
pub open spec fn spec_delete(m: BufferModel) -> (BufferModel, bool) {
    if m.cursor < m.text.len() {
        (BufferModel {
            text: m.text.remove(m.cursor),
            marks: m.marks.remove(m.cursor),
            anchor: None,
            ..m
        }, true)
    } else {
        (m, false)
    }
}

pub open spec fn clamp(pos: int, len: int) -> int {
    if pos < len { pos } else { len }
}

/// Moving the caret clamps the position to the reading and drops the
/// selection. Nothing settles: the pending keys stay pending, shown at the
/// caret, so typing after the move can still combine with them.
pub open spec fn spec_set_cursor(m: BufferModel, pos: int) -> BufferModel {
    BufferModel { cursor: clamp(pos, m.text.len() as int), anchor: None, ..m }
}

/// Extending the selection: anchor at the old caret if no selection is
/// open, and move the caret. Nothing settles.
pub open spec fn spec_extend_selection(m: BufferModel, pos: int) -> BufferModel {
    let anchor = match m.anchor { Some(a) => a, None => m.cursor };
    BufferModel { cursor: clamp(pos, m.text.len() as int), anchor: Some(anchor), ..m }
}

/// The selected range `(start, end)` with `start < end`, if any.
pub open spec fn spec_selection(m: BufferModel) -> Option<(int, int)> {
    match m.anchor {
        Some(a) => if a < m.cursor {
            Some((a, m.cursor))
        } else if m.cursor < a {
            Some((m.cursor, a))
        } else {
            None
        },
        None => None,
    }
}

/// The displayed composition: the reading with the pending keys at the
/// caret.
pub open spec fn spec_display(m: BufferModel) -> Seq<char> {
    m.text.take(m.cursor) + m.live + m.text.skip(m.cursor)
}

/// A buffer holding exactly `s`, settled, caret at the end.
pub open spec fn settled_model(s: Seq<char>) -> BufferModel {
    BufferModel {
        text: s,
        marks: Seq::new(s.len(), |i: int| None::<char>),
        live: seq![],
        cursor: s.len() as int,
        anchor: None,
    }
}

/// Typing a key grows the reading and the pending keys together by at most
/// twelve characters; settling keeps their total.
pub proof fn lemma_growth(m: BufferModel, c: char)
    requires
        model_wf(m),
    ensures
        spec_type_key(m, c).text.len() + spec_type_key(m, c).live.len() <= m.text.len() + 12,
        spec_settle(m).text.len() == m.text.len() + m.live.len(),
        spec_settle(m).live.len() == 0,
        spec_type_key(m, c).text.len() + spec_type_key(m, c).live.len() > m.text.len(),
{
    crate::romaji::lemma_resolve_len(m.live.push(c));
    crate::romaji::lemma_resolve_nonempty(m.live.push(c));
    assert(settle(m.live).len() == m.live.len());
}

/// Law: a trailing `n` left pending becomes `ん` when the composition
/// settles (on commit or conversion), so `kann` and `kan` both give
/// `かん`.
pub proof fn law_trailing_n_settles(m: BufferModel)
    requires
        model_wf(m),
        m.live == seq!['n'],
    ensures
        spec_settle(m).text == m.text.take(m.cursor) + seq!['\u{3093}'] + m.text.skip(m.cursor),
        spec_settle(m).live.len() == 0,
{
    assert(settle(m.live) == seq![('\u{3093}', None::<char>)]);
    assert(settle(m.live).map_values(|x: (char, Option<char>)| x.0) =~= seq!['\u{3093}']);
}

/// Law: Backspace removes exactly one displayed character before the
/// caret (a pending key, or else a settled character; a character taken
/// back into the pending keys stays displayed). With nothing before the
/// caret it removes nothing.
pub proof fn law_backspace_removes_one(m: BufferModel)
    requires
        model_wf(m),
    ensures
        spec_backspace(m).1 ==> spec_display(spec_backspace(m).0).len() + 1 == spec_display(m).len()
            && model_wf(spec_backspace(m).0),
        !spec_backspace(m).1 <==> m.live.len() == 0 && m.cursor == 0,
{
    let (m2, removed) = spec_backspace(m);
    if m.live.len() > 0 {
        let m1 = BufferModel { live: m.live.drop_last(), anchor: None, ..m };
        assert(m1.live.len() == m.live.len() - 1);
        assert(m2 == reclaim(m1));
    } else if m.cursor > 0 {
        let m1 = BufferModel {
            text: m.text.remove(m.cursor - 1),
            marks: m.marks.remove(m.cursor - 1),
            cursor: m.cursor - 1,
            anchor: None,
            ..m
        };
        assert(m1.text.len() == m.text.len() - 1);
        assert(m2 == reclaim(m1));
    }
}

/// Law: Delete removes exactly the settled character after the caret,
/// when there is one.
pub proof fn law_delete_removes_one(m: BufferModel)
    requires
        model_wf(m),
    ensures
        spec_delete(m).1 <==> m.cursor < m.text.len(),
        spec_delete(m).1 ==> spec_delete(m).0.text == m.text.take(m.cursor) + m.text.skip(m.cursor + 1)
            && spec_display(spec_delete(m).0).len() + 1 == spec_display(m).len(),
{
    if m.cursor < m.text.len() {
        assert(m.text.remove(m.cursor) =~= m.text.take(m.cursor) + m.text.skip(m.cursor + 1));
    }
}

impl View for InputBuffer {
    type V = BufferModel;

    closed spec fn view(&self) -> BufferModel {
        BufferModel {
            text: self.text@,
            marks: self.marks@,
            live: self.live@,
            cursor: self.cursor as int,
            anchor: match self.anchor { Some(a) => Some(a as int), None => None },
        }
    }
}

/// Well-formed buffer models.
pub open spec fn model_wf(m: BufferModel) -> bool {
    &&& m.marks.len() == m.text.len()
    &&& 0 <= m.cursor <= m.text.len()
    &&& m.anchor matches Some(a) ==> 0 <= a <= m.text.len()
    &&& m.live.len() <= 3
    &&& m.text.len() <= MAX_TEXT
}

/// Capacity of the settled reading. A `Vec<char>` holds at most
/// `isize::MAX` bytes, four per character, so no reading in memory is
/// longer than `usize::MAX / 8`; this bound only keeps the offset
/// arithmetic within `usize`.
pub const MAX_TEXT: usize = usize::MAX / 4;

impl InputBuffer {
    pub open spec fn wf(&self) -> bool {
        model_wf(self@)
    }

    /// An empty buffer.
    pub fn new() -> (b: InputBuffer)
        ensures
            b.wf(),
            b@ == settled_model(seq![]),
    {
        let b = InputBuffer { text: Vec::new(), marks: Vec::new(), live: Vec::new(), cursor: 0, anchor: None };
        assert(b@.marks =~= settled_model(seq![]).marks);
        b
    }

    /// The settled reading.
    pub fn reading(&self) -> (s: String)
        ensures
            s@ == self@.text,
    {
        string_of(self.text.as_slice())
    }

    /// The settled reading as characters.
    pub fn reading_chars(&self) -> (s: Vec<char>)
        ensures
            s@ == self@.text,
    {
        slice_chars(self.text.as_slice(), 0, self.text.len())
    }

    /// The pending romaji keys.
    pub fn live_keys(&self) -> (s: Vec<char>)
        ensures
            s@ == self@.live,
    {
        slice_chars(self.live.as_slice(), 0, self.live.len())
    }

    /// The displayed composition (reading with the pending keys at the
    /// caret).
    pub fn display_chars(&self) -> (s: Vec<char>)
        requires
            self.wf(),
        ensures
            s@ == spec_display(self@),
    {
        let before = slice_chars(self.text.as_slice(), 0, self.cursor);
        let after = slice_chars(self.text.as_slice(), self.cursor, self.text.len());
        let a = concat_chars(before.as_slice(), self.live.as_slice());
        let r = concat_chars(a.as_slice(), after.as_slice());
        proof {
            assert(self@.text.take(self@.cursor) =~= self.text@.subrange(0, self.cursor as int));
            assert(self@.text.skip(self@.cursor) =~= self.text@.subrange(self.cursor as int, self.text@.len() as int));
        }
        r
    }

    /// Caret position in the settled reading.
    pub fn cursor(&self) -> (c: usize)
        ensures
            c == self@.cursor,
    {
        self.cursor
    }

    /// Number of settled characters.
    pub fn char_count(&self) -> (n: usize)
        ensures
            n == self@.text.len(),
    {
        self.text.len()
    }

    /// Number of pending romaji keys.
    pub fn live_len(&self) -> (n: usize)
        ensures
            n == self@.live.len(),
    {
        self.live.len()
    }

    /// Whether nothing is settled and nothing is pending.
    pub fn is_empty(&self) -> (b: bool)
        ensures
            b == (self@.text.len() == 0 && self@.live.len() == 0),
    {
        self.text.len() == 0 && self.live.len() == 0
    }

    /// The selected range `(start, end)`, `start < end`, if any.
    pub fn selection_range(&self) -> (r: Option<(usize, usize)>)
        ensures
            match r {
                Some((s, e)) => spec_selection(self@) == Some((s as int, e as int)),
                None => spec_selection(self@) is None,
            },
    {
        match self.anchor {
            Some(a) => if a < self.cursor {
                Some((a, self.cursor))
            } else if self.cursor < a {
                Some((self.cursor, a))
            } else {
                None
            },
            None => None,
        }
    }

    /// Drop the selection.
    pub fn clear_selection(&mut self)
        requires
            old(self).wf(),
        ensures
            final(self).wf(),
            final(self)@ == (BufferModel { anchor: None, ..old(self)@ }),
    {
        self.anchor = None;
    }

    /// Empty the buffer.
    pub fn clear(&mut self)
        ensures
            final(self).wf(),
            final(self)@ == settled_model(seq![]),
    {
        *self = InputBuffer::new();
    }

    fn insert_emitted_exec(&mut self, e: &Vec<(char, Option<char>)>)
        requires
            old(self).wf(),
            old(self)@.text.len() + e@.len() <= MAX_TEXT,
        ensures
            final(self).wf(),
            final(self)@ == insert_emitted(old(self)@, e@),
    {
        let ghost m0 = self@;
        let mut t: usize = 0;
        while t < e.len()
            invariant
                t <= e@.len(),
                self.wf(),
                self@.live == m0.live,
                self@.anchor == (match m0.anchor {
                    Some(a) => Some(if a >= m0.cursor { a + t } else { a }),
                    None => None,
                }),
                m0.text.len() + e@.len() <= MAX_TEXT,
                self@.cursor == m0.cursor + t,
                self@.text == m0.text.take(m0.cursor) + e@.take(t as int).map_values(|x: (char, Option<char>)| x.0) + m0.text.skip(m0.cursor),
                self@.marks == m0.marks.take(m0.cursor) + e@.take(t as int).map_values(|x: (char, Option<char>)| x.1) + m0.marks.skip(m0.cursor),
                model_wf(m0),
            decreases e@.len() - t,
        {
            let (c, k) = e[t];
            let pos = self.cursor;
            self.text.insert(pos, c);
            self.marks.insert(pos, k);
            self.cursor = pos + 1;
            match self.anchor {
                Some(a) => if a >= pos {
                    self.anchor = Some(a + 1);
                },
                None => {},
            }
            t = t + 1;
            proof {
                assert(self@.text =~= m0.text.take(m0.cursor) + e@.take(t as int).map_values(|x: (char, Option<char>)| x.0) + m0.text.skip(m0.cursor));
                assert(self@.marks =~= m0.marks.take(m0.cursor) + e@.take(t as int).map_values(|x: (char, Option<char>)| x.1) + m0.marks.skip(m0.cursor));
            }
        }
        assert(e@.take(e@.len() as int) =~= e@);
    }

    /// Settle the pending keys into the reading.
    pub fn settle(&mut self)
        requires
            old(self).wf(),
            old(self)@.text.len() + 3 <= MAX_TEXT,
        ensures
            final(self).wf(),
            final(self)@ == spec_settle(old(self)@),
    {
        let e = settle_keys(self.live.as_slice());
        assert(e@.len() <= self@.live.len());
        self.live = Vec::new();
        self.insert_emitted_exec(&e);
    }

    /// Type one romaji key.
    pub fn type_key(&mut self, c: char)
        requires
            old(self).wf(),
            old(self)@.text.len() + 8 <= MAX_TEXT,
        ensures
            final(self).wf(),
            final(self)@ == spec_type_key(old(self)@, c),
    {
        let mut keys = slice_chars(self.live.as_slice(), 0, self.live.len());
        keys.push(c);
        assert(keys@ =~= self@.live.push(c));
        let (e, l) = resolve_keys(keys.as_slice());
        proof {
            crate::romaji::lemma_resolve_len(keys@);
            crate::romaji::law_pending_is_prefix(keys@);
            crate::romaji::lemma_prefix_len(l@);
        }
        self.live = Vec::new();
        self.insert_emitted_exec(&e);
        self.live = l;
        self.anchor = None;
    }

    /// Insert literal text at the caret (pending keys settle first).
    pub fn insert_text(&mut self, s: &[char])
        requires
            old(self).wf(),
            old(self)@.text.len() + s@.len() + 3 <= MAX_TEXT,
        ensures
            final(self).wf(),
            final(self)@ == spec_insert_text(old(self)@, s@),
    {
        self.settle();
        let mut e: Vec<(char, Option<char>)> = Vec::new();
        let mut i: usize = 0;
        while i < s.len()
            invariant
                i <= s@.len(),
                e@ == s@.take(i as int).map_values(|c: char| (c, None::<char>)),
            decreases s@.len() - i,
        {
            e.push((s[i], None));
            i = i + 1;
            assert(e@ =~= s@.take(i as int).map_values(|c: char| (c, None::<char>)));
        }
        assert(s@.take(s@.len() as int) =~= s@);
        self.insert_emitted_exec(&e);
        self.anchor = None;
    }

    fn reclaim_exec(&mut self)
        requires
            old(self).wf(),
        ensures
            final(self).wf(),
            final(self)@ == reclaim(old(self)@),
    {
        if self.live.len() == 0 && self.cursor > 0 {
            match self.marks[self.cursor - 1] {
                Some(k) => {
                    let pos = self.cursor - 1;
                    self.text.remove(pos);
                    self.marks.remove(pos);
                    self.cursor = pos;
                    self.anchor = None;
                    self.live = vec![k];
                    assert(self@.live =~= seq![k]);
                },
                None => {},
            }
        }
    }

    /// Backspace; whether anything was removed.
    pub fn backspace(&mut self) -> (removed: bool)
        requires
            old(self).wf(),
        ensures
            final(self).wf(),
            (final(self)@, removed) == spec_backspace(old(self)@),
    {
        if self.live.len() > 0 {
            self.live.pop();
            self.anchor = None;
            self.reclaim_exec();
            true
        } else if self.cursor > 0 {
            let pos = self.cursor - 1;
            self.text.remove(pos);
            self.marks.remove(pos);
            self.cursor = pos;
            self.anchor = None;
            self.reclaim_exec();
            true
        } else {
            false
        }
    }

    /// Delete the character after the caret; whether anything was removed.
    pub fn delete_at_cursor(&mut self) -> (removed: bool)
        requires
            old(self).wf(),
        ensures
            final(self).wf(),
            (final(self)@, removed) == spec_delete(old(self)@),
    {
        if self.cursor < self.text.len() {
            let pos = self.cursor;
            self.text.remove(pos);
            self.marks.remove(pos);
            self.anchor = None;
            true
        } else {
            false
        }
    }

    /// Move the caret (the selection is dropped; pending keys stay).
    pub fn set_cursor(&mut self, pos: usize)
        requires
            old(self).wf(),
        ensures
            final(self).wf(),
            final(self)@ == spec_set_cursor(old(self)@, pos as int),
    {
        self.cursor = if pos < self.text.len() { pos } else { self.text.len() };
        self.anchor = None;
    }

    /// Move the caret while keeping (or opening) a selection.
    pub fn extend_selection_to(&mut self, pos: usize)
        requires
            old(self).wf(),
        ensures
            final(self).wf(),
            final(self)@ == spec_extend_selection(old(self)@, pos as int),
    {
        let a = match self.anchor { Some(a) => a, None => self.cursor };
        self.anchor = Some(a);
        self.cursor = if pos < self.text.len() { pos } else { self.text.len() };
    }

    /// Replace the whole composition with settled text, caret at the end.
    pub fn replace_all_settled(&mut self, s: &[char])
        requires
            s@.len() <= MAX_TEXT,
        ensures
            final(self).wf(),
            final(self)@ == settled_model(s@),
    {
        let mut marks: Vec<Option<char>> = Vec::new();
        let mut i: usize = 0;
        while i < s.len()
            invariant
                i <= s@.len(),
                marks@ == Seq::new(i as nat, |k: int| None::<char>),
            decreases s@.len() - i,
        {
            marks.push(None);
            i = i + 1;
            assert(marks@ =~= Seq::new(i as nat, |k: int| None::<char>));
        }
        self.text = slice_chars(s, 0, s.len());
        self.marks = marks;
        self.live = Vec::new();
        self.cursor = s.len();
        self.anchor = None;
        assert(s@.subrange(0, s@.len() as int) =~= s@);
        assert(self@.live =~= Seq::<char>::empty());
    }
}


/// Law: Backspace with pending romaji keys removes the last of them, the
/// one just before the caret: with two or more pending, the others stay in
/// order and the settled text, caret and marks are untouched; with one,
/// it goes (and a reclaimable character before the caret may come back as
/// the pending key).
pub proof fn law_backspace_drops_last_pending_key(m: BufferModel)
    requires
        m.live.len() > 0,
    ensures
        spec_backspace(m).1,
        m.live.len() >= 2 ==> {
            let b = spec_backspace(m).0;
            &&& b.live == m.live.take(m.live.len() - 1)
            &&& b.text == m.text
            &&& b.marks == m.marks
            &&& b.cursor == m.cursor
        },
        m.live.len() == 1 && (m.cursor == 0 || m.marks[m.cursor - 1] is None) ==> {
            let b = spec_backspace(m).0;
            &&& b.live.len() == 0
            &&& b.text == m.text
            &&& b.cursor == m.cursor
        },
{
    assert(m.live.drop_last() =~= m.live.take(m.live.len() - 1));
}

/// Law: typing `n` then an apostrophe into a composition with nothing
/// pending puts exactly `ん` in at the caret and leaves nothing pending
/// (`n'` is the explicit `ん`, as `nn` is).
pub proof fn law_n_apostrophe_is_n_kana(m: BufferModel)
    requires
        m.live.len() == 0,
        0 <= m.cursor <= m.text.len(),
    ensures
        ({
            let m2 = spec_type_key(spec_type_key(m, 'n'), '\'');
            &&& m2.text == m.text.take(m.cursor) + seq!['\u{3093}'] + m.text.skip(m.cursor)
            &&& m2.live.len() == 0
            &&& m2.cursor == m.cursor + 1
        }),
{
    assert(m.live.push('n') =~= seq!['n']);
    assert(rule_codes(seq!['n']) == (0u32, 0u32));
    assert(is_consonant_prefix(seq!['n']));
    let m1 = spec_type_key(m, 'n');
    assert(resolve(seq!['n']) == (Seq::<(char, Option<char>)>::empty(), seq!['n']));
    assert(m1.live == seq!['n']);
    assert(m1.text =~= m.text);
    assert(m1.cursor == m.cursor);
    assert(m1.live.push('\'') =~= seq!['n', '\'']);
    assert(rule_codes(seq!['n', '\'']) == (0x3093u32, 0u32));
    assert(spec_rule(seq!['n', '\'']) == Some(seq![0x3093u32 as char]));
    assert((0x3093u32 as char) == '\u{3093}');
    let e = plain(seq!['\u{3093}']);
    assert(e.map_values(|x: (char, Option<char>)| x.0) =~= seq!['\u{3093}']);
}

} // verus!
