//! Candidate sources the engine consults: the learning cache, the user and
//! system dictionaries, rewrite tables (symbol and emoji variants) and the
//! kana-kanji converter table.

use vstd::prelude::*;
use crate::candidates::{string_views, copy_opt_string};

verus! {

// ---------------------------------------------------------------------
// Learning cache
// ---------------------------------------------------------------------

/// One learned conversion: a reading, the surface chosen for it and how
/// often it was chosen.
#[derive(Debug, Clone)]
pub struct LearnedEntry {
    pub reading: String,
    pub surface: String,
    pub count: u64,
}

/// Learned conversions, most recently chosen first.
pub struct LearningCache {
    entries: Vec<LearnedEntry>,
}

/// A learned entry as plain values.
pub type LearnedView = (Seq<char>, Seq<char>, u64);

pub open spec fn learned_view(e: LearnedEntry) -> LearnedView {
    (e.reading@, e.surface@, e.count)
}

/// `v` without the entry for `(r, s)`.
pub open spec fn without_pair(v: Seq<LearnedView>, r: Seq<char>, s: Seq<char>) -> Seq<LearnedView> {
    v.filter(other_pair(r, s))
}

/// Entries that are not `(r, s)`.
pub open spec fn other_pair(r: Seq<char>, s: Seq<char>) -> spec_fn(LearnedView) -> bool {
    |e: LearnedView| !(e.0 == r && e.1 == s)
}

/// Entries for the reading `r`.
pub open spec fn for_reading(r: Seq<char>) -> spec_fn(LearnedView) -> bool {
    |e: LearnedView| e.0 == r
}

/// Entries whose reading starts with `r`.
pub open spec fn under_prefix(r: Seq<char>) -> spec_fn(LearnedView) -> bool {
    |e: LearnedView| is_prefix_of(r, e.0)
}

/// Surface and count of an entry.
pub open spec fn surface_count(e: LearnedView) -> (Seq<char>, u64) {
    (e.1, e.2)
}

/// How often `(r, s)` was chosen according to `v`.
pub open spec fn count_of(v: Seq<LearnedView>, r: Seq<char>, s: Seq<char>) -> u64
    decreases v.len(),
{
    if v.len() == 0 {
        0
    } else if v[0].0 == r && v[0].1 == s {
        v[0].2
    } else {
        count_of(v.drop_first(), r, s)
    }
}

/// Recording `(r, s)`: its entry moves to the front with its count raised
/// by one (saturating).
pub open spec fn spec_record(v: Seq<LearnedView>, r: Seq<char>, s: Seq<char>) -> Seq<LearnedView> {
    let c = count_of(v, r, s);
    let c2: u64 = if c < u64::MAX { (c + 1) as u64 } else { c };
    seq![(r, s, c2)] + without_pair(v, r, s)
}

/// The surfaces learned for exactly the reading `r`, most recent first.
pub open spec fn spec_lookup(v: Seq<LearnedView>, r: Seq<char>) -> Seq<(Seq<char>, u64)> {
    v.filter(for_reading(r)).map_values(|e: LearnedView| surface_count(e))
}

/// Whether `p` is a prefix of `s`.
pub open spec fn is_prefix_of(p: Seq<char>, s: Seq<char>) -> bool {
    p.len() <= s.len() && s.take(p.len() as int) == p
}

/// The entries whose reading starts with `r`, most recent first.
pub open spec fn spec_prefix_lookup(v: Seq<LearnedView>, r: Seq<char>) -> Seq<LearnedView> {
    v.filter(under_prefix(r))
}

impl View for LearningCache {
    type V = Seq<LearnedView>;

    closed spec fn view(&self) -> Seq<LearnedView> {
        self.entries@.map_values(|e: LearnedEntry| learned_view(e))
    }
}

impl LearningCache {
    /// An empty cache.
    pub fn new() -> (c: LearningCache)
        ensures
            c.view() == Seq::<LearnedView>::empty(),
    {
        let c = LearningCache { entries: Vec::new() };
        assert(c.view() =~= Seq::<LearnedView>::empty());
        c
    }

    /// Number of learned entries.
    pub fn len(&self) -> (n: usize)
        ensures
            n == self.view().len(),
    {
        self.entries.len()
    }

    /// Record that `surface` was chosen for `reading`.
    pub fn record(&mut self, reading: &String, surface: &String)
        ensures
            final(self).view() == spec_record(old(self).view(), reading@, surface@),
    {
        let ghost v0 = self.view();
        let ghost r = reading@;
        let ghost s = surface@;
        let mut kept: Vec<LearnedEntry> = Vec::new();
        let mut count: u64 = 0;
        let mut found = false;
        let mut i: usize = 0;
        let ghost pred = other_pair(r, s);
        assert(v0.skip(0) =~= v0);
        assert(v0.take(0).filter(pred) =~= Seq::<LearnedView>::empty()) by {
            reveal(Seq::filter);
        }
        assert(kept@.map_values(|e: LearnedEntry| learned_view(e)) =~= Seq::<LearnedView>::empty());
        while i < self.entries.len()
            invariant
                v0 == self.view(),
                i <= v0.len(),
                pred == other_pair(r, s),
                r == reading@,
                s == surface@,
                kept@.map_values(|e: LearnedEntry| learned_view(e)) == v0.take(i as int).filter(pred),
                found ==> count == count_of(v0, r, s),
                !found ==> count_of(v0, r, s) == count_of(v0.skip(i as int), r, s) && count == 0,
            decreases v0.len() - i,
        {
            let e = &self.entries[i];
            let ghost x = v0[i as int];
            assert(x == learned_view(*e));
            let matches = e.reading == *reading && e.surface == *surface;
            assert(matches == !pred(x));
            assert(v0.take(i + 1).drop_last() =~= v0.take(i as int));
            assert(v0.take(i + 1).last() == v0[i as int]);
            proof {
                v0.take(i as int).lemma_filter_push(v0[i as int], pred);
                assert(v0.take(i + 1) =~= v0.take(i as int).push(v0[i as int]));
            }
            if matches {
                if !found {
                    proof {
                        assert(v0.skip(i as int)[0] == v0[i as int]);
                    }
                    count = e.count;
                    found = true;
                }
            } else {
                let ghost before = kept@;
                kept.push(LearnedEntry { reading: e.reading.clone(), surface: e.surface.clone(), count: e.count });
                assert(kept@.map_values(|e: LearnedEntry| learned_view(e))
                    =~= before.map_values(|e: LearnedEntry| learned_view(e)).push(v0[i as int]));
            }
            proof {
                if !found {
                    assert(v0.skip(i as int).drop_first() =~= v0.skip(i + 1));
                }
            }
            i = i + 1;
        }
        assert(v0.take(v0.len() as int) =~= v0);
        let c2: u64 = if count < u64::MAX { count + 1 } else { count };
        let first = LearnedEntry { reading: reading.clone(), surface: surface.clone(), count: c2 };
        let mut entries: Vec<LearnedEntry> = vec![first];
        let ghost one = entries@;
        entries.append(&mut kept);
        self.entries = entries;
        proof {
            assert(!found ==> v0.skip(v0.len() as int) =~= Seq::<LearnedView>::empty());
            assert(self.view() =~= spec_record(v0, r, s));
        }
    }

    /// The surfaces learned for exactly `reading` with their counts, most
    /// recent first.
    pub fn lookup(&self, reading: &String) -> (r: Vec<(String, u64)>)
        ensures
            r@.map_values(|x: (String, u64)| (x.0@, x.1)) == spec_lookup(self.view(), reading@),
    {
        let ghost v0 = self.view();
        let ghost rd = reading@;
        let ghost pred = for_reading(rd);
        let ghost proj = |e: LearnedView| surface_count(e);
        let mut out: Vec<(String, u64)> = Vec::new();
        let mut i: usize = 0;
        assert(v0.take(0).filter(pred) =~= Seq::<LearnedView>::empty()) by {
            reveal(Seq::filter);
        }
        assert(out@.map_values(|x: (String, u64)| (x.0@, x.1)) =~= v0.take(0).filter(pred).map_values(proj));
        while i < self.entries.len()
            invariant
                v0 == self.view(),
                i <= v0.len(),
                pred == for_reading(rd),
                rd == reading@,
                proj == (|e: LearnedView| surface_count(e)),
                out@.map_values(|x: (String, u64)| (x.0@, x.1)) == v0.take(i as int).filter(pred).map_values(proj),
            decreases v0.len() - i,
        {
            let e = &self.entries[i];
            let ghost x = v0[i as int];
            assert(x == learned_view(*e));
            proof {
                v0.take(i as int).lemma_filter_push(v0[i as int], pred);
                assert(v0.take(i + 1) =~= v0.take(i as int).push(v0[i as int]));
            }
            if e.reading == *reading {
                assert(pred(x));
                let ghost before = out@;
                out.push((e.surface.clone(), e.count));
                assert(out@.map_values(|x: (String, u64)| (x.0@, x.1))
                    =~= before.map_values(|x: (String, u64)| (x.0@, x.1)).push(proj(v0[i as int])));
                assert(v0.take(i + 1).filter(pred).map_values(proj)
                    =~= v0.take(i as int).filter(pred).map_values(proj).push(proj(v0[i as int])));
            } else {
                assert(!pred(x));
            }
            i = i + 1;
        }
        assert(v0.take(v0.len() as int) =~= v0);
        out
    }

    /// The entries whose reading starts with `reading`, most recent first:
    /// `(full reading, surface, count)`.
    pub fn prefix_lookup(&self, reading: &String) -> (r: Vec<(String, String, u64)>)
        ensures
            r@.map_values(|x: (String, String, u64)| (x.0@, x.1@, x.2)) == spec_prefix_lookup(self.view(), reading@),
    {
        let ghost v0 = self.view();
        let ghost rd = reading@;
        let ghost pred = under_prefix(rd);
        let rchars = crate::text::chars_of(reading.as_str());
        let mut out: Vec<(String, String, u64)> = Vec::new();
        let mut i: usize = 0;
        assert(v0.take(0).filter(pred) =~= Seq::<LearnedView>::empty()) by {
            reveal(Seq::filter);
        }
        assert(out@.map_values(|x: (String, String, u64)| (x.0@, x.1@, x.2)) =~= Seq::<LearnedView>::empty());
        while i < self.entries.len()
            invariant
                v0 == self.view(),
                rchars@ == rd,
                i <= v0.len(),
                pred == under_prefix(rd),
                out@.map_values(|x: (String, String, u64)| (x.0@, x.1@, x.2)) == v0.take(i as int).filter(pred),
            decreases v0.len() - i,
        {
            let e = &self.entries[i];
            let ghost x = v0[i as int];
            assert(x == learned_view(*e));
            proof {
                v0.take(i as int).lemma_filter_push(v0[i as int], pred);
                assert(v0.take(i + 1) =~= v0.take(i as int).push(v0[i as int]));
            }
            let echars = crate::text::chars_of(e.reading.as_str());
            if starts_with(echars.as_slice(), rchars.as_slice()) {
                let ghost before = out@;
                out.push((e.reading.clone(), e.surface.clone(), e.count));
                assert(out@.map_values(|x: (String, String, u64)| (x.0@, x.1@, x.2))
                    =~= before.map_values(|x: (String, String, u64)| (x.0@, x.1@, x.2)).push(v0[i as int]));
            }
            i = i + 1;
        }
        assert(v0.take(v0.len() as int) =~= v0);
        out
    }
}

/// Whether `p` is a prefix of `s`.
pub fn starts_with(s: &[char], p: &[char]) -> (b: bool)
    ensures
        b == is_prefix_of(p@, s@),
{
    if p.len() > s.len() {
        return false;
    }
    let mut i: usize = 0;
    while i < p.len()
        invariant
            p@.len() <= s@.len(),
            i <= p@.len(),
            forall|k: int| 0 <= k < i ==> s@[k] == p@[k],
        decreases p@.len() - i,
    {
        if s[i] != p[i] {
            assert(s@.take(p@.len() as int)[i as int] != p@[i as int]);
            return false;
        }
        i = i + 1;
    }
    assert(s@.take(p@.len() as int) =~= p@);
    true
}

/// Law: right after `(reading, surface)` is recorded, an exact lookup of
/// `reading` gives `surface` first.
pub proof fn law_record_then_lookup(v: Seq<LearnedView>, r: Seq<char>, s: Seq<char>)
    ensures
        spec_lookup(spec_record(v, r, s), r).len() > 0,
        spec_lookup(spec_record(v, r, s), r)[0].0 == s,
{
    let w = spec_record(v, r, s);
    let rest = without_pair(v, r, s);
    let pred = for_reading(r);
    assert(w =~= seq![w[0]] + rest);
    Seq::filter_distributes_over_add(seq![w[0]], rest, pred);
    Seq::<LearnedView>::empty().lemma_filter_push(w[0], pred);
    assert(Seq::<LearnedView>::empty().push(w[0]) =~= seq![w[0]]);
    reveal(Seq::filter);
    assert(Seq::<LearnedView>::empty().filter(pred) =~= Seq::<LearnedView>::empty());
}

// ---------------------------------------------------------------------
// Rewrite table (symbol, number and emoji variants)
// ---------------------------------------------------------------------

/// A rewrite rule: a reading, a variant offered for it and an optional
/// description of the variant.
#[derive(Debug, Clone)]
pub struct RewriteRule {
    pub reading: String,
    pub variant: String,
    pub description: Option<String>,
}

/// Rule-based variants, looked up by exact reading.
pub struct RewriteTable {
    rules: Vec<RewriteRule>,
}

pub type RewriteView = (Seq<char>, Seq<char>, Option<Seq<char>>);

pub open spec fn rewrite_view(r: RewriteRule) -> RewriteView {
    (r.reading@, r.variant@, crate::candidates::opt_view(r.description))
}

pub open spec fn rule_for(r: Seq<char>) -> spec_fn(RewriteView) -> bool {
    |e: RewriteView| e.0 == r
}

pub open spec fn variant_of(e: RewriteView) -> (Seq<char>, Option<Seq<char>>) {
    (e.1, e.2)
}

/// The variants for reading `r`, in rule order.
pub open spec fn spec_rewrite(v: Seq<RewriteView>, r: Seq<char>) -> Seq<(Seq<char>, Option<Seq<char>>)> {
    v.filter(rule_for(r)).map_values(|e: RewriteView| variant_of(e))
}

pub open spec fn variant_views(v: Seq<(String, Option<String>)>) -> Seq<(Seq<char>, Option<Seq<char>>)> {
    v.map_values(|x: (String, Option<String>)| (x.0@, crate::candidates::opt_view(x.1)))
}

impl View for RewriteTable {
    type V = Seq<RewriteView>;

    closed spec fn view(&self) -> Seq<RewriteView> {
        self.rules@.map_values(|r: RewriteRule| rewrite_view(r))
    }
}

impl RewriteTable {
    pub fn new() -> (t: RewriteTable)
        ensures
            t.view() == Seq::<RewriteView>::empty(),
    {
        let t = RewriteTable { rules: Vec::new() };
        assert(t.view() =~= Seq::<RewriteView>::empty());
        t
    }

    /// Add a rule after the existing ones.
    pub fn add(&mut self, rule: RewriteRule)
        ensures
            final(self).view() == old(self).view().push(rewrite_view(rule)),
    {
        let ghost v0 = self.view();
        self.rules.push(rule);
        assert(self.view() =~= v0.push(rewrite_view(rule)));
    }

    /// The variants for `reading`, in rule order.
    pub fn rewrite(&self, reading: &String) -> (out: Vec<(String, Option<String>)>)
        ensures
            variant_views(out@) == spec_rewrite(self.view(), reading@),
    {
        let ghost v0 = self.view();
        let ghost rd = reading@;
        let ghost pred = rule_for(rd);
        let mut out: Vec<(String, Option<String>)> = Vec::new();
        let mut i: usize = 0;
        assert(v0.take(0).filter(pred) =~= Seq::<RewriteView>::empty()) by {
            reveal(Seq::filter);
        }
        assert(variant_views(out@) =~= Seq::<(Seq<char>, Option<Seq<char>>)>::empty());
        while i < self.rules.len()
            invariant
                v0 == self.view(),
                rd == reading@,
                pred == rule_for(rd),
                i <= v0.len(),
                variant_views(out@) == v0.take(i as int).filter(pred).map_values(|e: RewriteView| variant_of(e)),
            decreases v0.len() - i,
        {
            let e = &self.rules[i];
            let ghost x = v0[i as int];
            assert(x == rewrite_view(*e));
            proof {
                v0.take(i as int).lemma_filter_push(x, pred);
                assert(v0.take(i + 1) =~= v0.take(i as int).push(x));
            }
            if e.reading == *reading {
                let ghost before = out@;
                out.push((e.variant.clone(), copy_opt_string(&e.description)));
                assert(variant_views(out@) =~= variant_views(before).push(variant_of(x)));
                assert(v0.take(i + 1).filter(pred).map_values(|e: RewriteView| variant_of(e))
                    =~= v0.take(i as int).filter(pred).map_values(|e: RewriteView| variant_of(e)).push(variant_of(x)));
            }
            i = i + 1;
        }
        assert(v0.take(v0.len() as int) =~= v0);
        out
    }
}

// ---------------------------------------------------------------------
// Symbol descriptions
// ---------------------------------------------------------------------

/// Descriptions of symbol texts (such as `。。。`), which the engine shows
/// beside a fallback candidate of that text. The library's user fills the
/// table; the first entry for a text is the one that counts.
pub struct SymbolTable {
    entries: Vec<(String, String)>,
}

/// A description entry as plain values: `(text, description)`.
pub type SymbolView = (Seq<char>, Seq<char>);

/// The description of `text` in the entries `t`: the first entry's for it.
pub open spec fn spec_symbol_description(t: Seq<SymbolView>, text: Seq<char>) -> Option<Seq<char>>
    decreases t.len(),
{
    if t.len() == 0 {
        None
    } else if t[0].0 == text {
        Some(t[0].1)
    } else {
        spec_symbol_description(t.drop_first(), text)
    }
}

impl View for SymbolTable {
    type V = Seq<SymbolView>;

    closed spec fn view(&self) -> Seq<SymbolView> {
        self.entries@.map_values(|e: (String, String)| (e.0@, e.1@))
    }
}

impl SymbolTable {
    /// An empty table.
    pub fn new() -> (t: SymbolTable)
        ensures
            t.view() == Seq::<SymbolView>::empty(),
    {
        let t = SymbolTable { entries: Vec::new() };
        assert(t.view() =~= Seq::<SymbolView>::empty());
        t
    }

    /// Add a description after the existing ones.
    pub fn add(&mut self, text: String, description: String)
        ensures
            final(self).view() == old(self).view().push((text@, description@)),
    {
        let ghost v0 = self.view();
        let ghost e = (text@, description@);
        self.entries.push((text, description));
        assert(self.view() =~= v0.push(e));
    }

    /// The description of `text`, if the table has one.
    pub fn describe(&self, text: &String) -> (d: Option<String>)
        ensures
            crate::candidates::opt_view(d) == spec_symbol_description(self.view(), text@),
    {
        let ghost v = self.view();
        let mut i: usize = 0;
        assert(v.subrange(0, v.len() as int) =~= v);
        while i < self.entries.len()
            invariant
                i <= self.entries@.len(),
                v == self.view(),
                v.len() == self.entries@.len(),
                spec_symbol_description(v, text@) == spec_symbol_description(v.subrange(i as int, v.len() as int), text@),
            decreases self.entries@.len() - i,
        {
            let ghost rest = v.subrange(i as int, v.len() as int);
            assert(rest[0] == (self.entries@[i as int].0@, self.entries@[i as int].1@));
            if self.entries[i].0 == *text {
                return Some(self.entries[i].1.clone());
            }
            assert(rest.drop_first() =~= v.subrange(i + 1, v.len() as int));
            i = i + 1;
        }
        assert(v.subrange(i as int, v.len() as int) =~= Seq::<SymbolView>::empty());
        None
    }
}

// ---------------------------------------------------------------------
// Kana-kanji converter table
// ---------------------------------------------------------------------

/// The kana-kanji converter the engine consults: for a reading, its
/// conversions best first. This library carries no neural model; its
/// user fills the table (for example from a model it runs).
pub struct KanjiConverter {
    model_name: String,
    table: Vec<(String, Vec<String>)>,
}

/// Index of the first table row for reading `r`, if any.
pub open spec fn first_row(keys: Seq<Seq<char>>, r: Seq<char>) -> Option<int>
    decreases keys.len(),
{
    if keys.len() == 0 {
        None
    } else if keys[0] == r {
        Some(0)
    } else {
        match first_row(keys.drop_first(), r) {
            Some(k) => Some(k + 1),
            None => None,
        }
    }
}

pub proof fn lemma_first_row(keys: Seq<Seq<char>>, r: Seq<char>)
    ensures
        first_row(keys, r) matches Some(k) ==> 0 <= k < keys.len() && keys[k] == r
            && forall|j: int| 0 <= j < k ==> keys[j] != r,
        first_row(keys, r) is None ==> forall|j: int| 0 <= j < keys.len() ==> keys[j] != r,
    decreases keys.len(),
{
    if keys.len() > 0 {
        lemma_first_row(keys.drop_first(), r);
        if keys[0] != r {
            assert forall|j: int| 1 <= j < keys.len() implies keys[j] == keys.drop_first()[j - 1] by {}
        }
    }
}

impl KanjiConverter {
    /// Readings of the table rows.
    pub closed spec fn keys(&self) -> Seq<Seq<char>> {
        self.table@.map_values(|row: (String, Vec<String>)| row.0@)
    }

    /// Conversions of table row `k`.
    pub closed spec fn row(&self, k: int) -> Seq<Seq<char>> {
        string_views(self.table@[k].1@)
    }

    /// The name shown for this converter.
    pub closed spec fn name(&self) -> Seq<char> {
        self.model_name@
    }

    /// The conversions known for `r`, best first (empty if none).
    pub open spec fn conversions(&self, r: Seq<char>) -> Seq<Seq<char>> {
        match first_row(self.keys(), r) {
            Some(k) => self.row(k),
            None => seq![],
        }
    }

    pub fn new(model_name: String) -> (c: KanjiConverter)
        ensures
            c.keys() == Seq::<Seq<char>>::empty(),
            c.name() == model_name@,
    {
        let c = KanjiConverter { model_name, table: Vec::new() };
        assert(c.keys() =~= Seq::<Seq<char>>::empty());
        c
    }

    /// The name shown for this converter.
    pub fn model_display_name(&self) -> (s: String)
        ensures
            s@ == self.name(),
    {
        self.model_name.clone()
    }

    /// Add the conversions for `reading` (an earlier row for the same
    /// reading takes precedence).
    pub fn add(&mut self, reading: String, conversions: Vec<String>)
        ensures
            final(self).keys() == old(self).keys().push(reading@),
            forall|k: int| 0 <= k < old(self).keys().len() ==> final(self).row(k) == old(self).row(k),
            final(self).row(old(self).keys().len() as int) == string_views(conversions@),
            final(self).name() == old(self).name(),
    {
        let ghost k0 = self.keys();
        let ghost r = reading@;
        let ghost cv = string_views(conversions@);
        self.table.push((reading, conversions));
        assert(self.keys() =~= k0.push(r));
    }

    /// At most `n` conversions of `reading`, best first.
    pub fn convert(&self, reading: &String, n: usize) -> (out: Vec<String>)
        ensures
            string_views(out@) == self.conversions(reading@).take(
                if n < self.conversions(reading@).len() { n as int } else { self.conversions(reading@).len() as int },
            ),
    {
        let ghost keys = self.keys();
        proof {
            lemma_first_row(keys, reading@);
        }
        let mut i: usize = 0;
        while i < self.table.len()
            invariant
                keys == self.keys(),
                keys.len() == self.table@.len(),
                i <= keys.len(),
                forall|j: int| 0 <= j < i ==> keys[j] != reading@,
            decreases keys.len() - i,
        {
            assert(keys[i as int] == self.table@[i as int].0@);
            if self.table[i].0 == *reading {
                proof {
                    lemma_first_row(keys, reading@);
                    if let Some(k) = first_row(keys, reading@) {
                        assert(k == i);
                    }
                }
                let row = &self.table[i].1;
                let mut out: Vec<String> = Vec::new();
                let mut t: usize = 0;
                let ghost rv = string_views(row@);
                assert(rv == self.row(i as int));
                while t < row.len() && t < n
                    invariant
                        rv == string_views(row@),
                        t <= row@.len(),
                        t <= n,
                        string_views(out@) == rv.take(t as int),
                    decreases row@.len() - t,
                {
                    let ghost before = out@;
                    let x = row[t].clone();
                    out.push(x);
                    t = t + 1;
                    assert(string_views(out@) =~= string_views(before).push(x@));
                    assert(string_views(out@) =~= rv.take(t as int));
                }
                assert(self.conversions(reading@) == rv);
                return out;
            }
            i = i + 1;
        }
        let out: Vec<String> = Vec::new();
        assert(string_views(out@) =~= Seq::<Seq<char>>::empty());
        out
    }
}

// ---------------------------------------------------------------------
// Dictionaries
// ---------------------------------------------------------------------

/// A dictionary candidate: a surface and its cost (lower is better).
#[derive(Debug, Clone)]
pub struct DictCandidate {
    pub surface: String,
    pub score: u32,
}

/// A dictionary candidate as plain values.
pub type DictView = (Seq<char>, u32);

pub open spec fn dict_view(c: DictCandidate) -> DictView {
    (c.surface@, c.score)
}

pub open spec fn dict_views(v: Seq<DictCandidate>) -> Seq<DictView> {
    v.map_values(|c: DictCandidate| dict_view(c))
}

/// A reading and its candidates.
pub struct DictEntry {
    pub reading: String,
    pub candidates: Vec<DictCandidate>,
}

/// A dictionary: readings with their candidates.
pub struct Dictionary {
    entries: Vec<DictEntry>,
}

impl DictCandidate {
    pub fn duplicate(&self) -> (c: DictCandidate)
        ensures
            c == *self,
    {
        DictCandidate { surface: self.surface.clone(), score: self.score }
    }
}

impl Dictionary {
    pub closed spec fn keys(&self) -> Seq<Seq<char>> {
        self.entries@.map_values(|e: DictEntry| e.reading@)
    }

    pub closed spec fn row(&self, k: int) -> Seq<DictView> {
        dict_views(self.entries@[k].candidates@)
    }

    /// The candidates of the first entry for `r`, if there is one.
    pub open spec fn spec_search(&self, r: Seq<char>) -> Option<Seq<DictView>> {
        match first_row(self.keys(), r) {
            Some(k) => Some(self.row(k)),
            None => None,
        }
    }

    pub fn new() -> (d: Dictionary)
        ensures
            d.keys() == Seq::<Seq<char>>::empty(),
    {
        let d = Dictionary { entries: Vec::new() };
        assert(d.keys() =~= Seq::<Seq<char>>::empty());
        d
    }

    /// Add an entry after the existing ones (an earlier entry for the same
    /// reading is the one found).
    pub fn add_entry(&mut self, reading: String, candidates: Vec<DictCandidate>)
        ensures
            final(self).keys() == old(self).keys().push(reading@),
            forall|k: int| 0 <= k < old(self).keys().len() ==> final(self).row(k) == old(self).row(k),
            final(self).row(old(self).keys().len() as int) == dict_views(candidates@),
    {
        let ghost k0 = self.keys();
        let ghost r = reading@;
        self.entries.push(DictEntry { reading, candidates });
        assert(self.keys() =~= k0.push(r));
    }

    /// The candidates for exactly `reading`.
    pub fn exact_match_search(&self, reading: &String) -> (out: Option<Vec<DictCandidate>>)
        ensures
            match out {
                Some(v) => self.spec_search(reading@) == Some(dict_views(v@)),
                None => self.spec_search(reading@) is None,
            },
    {
        let ghost keys = self.keys();
        proof {
            lemma_first_row(keys, reading@);
        }
        let mut i: usize = 0;
        while i < self.entries.len()
            invariant
                keys == self.keys(),
                keys.len() == self.entries@.len(),
                i <= keys.len(),
                forall|j: int| 0 <= j < i ==> keys[j] != reading@,
            decreases keys.len() - i,
        {
            assert(keys[i as int] == self.entries@[i as int].reading@);
            if self.entries[i].reading == *reading {
                proof {
                    lemma_first_row(keys, reading@);
                    assert(keys[i as int] == reading@);
                    if let Some(k) = first_row(keys, reading@) {
                        assert(k == i);
                    }
                }
                let row = &self.entries[i].candidates;
                let mut out: Vec<DictCandidate> = Vec::new();
                let mut t: usize = 0;
                while t < row.len()
                    invariant
                        t <= row@.len(),
                        out@ == row@.take(t as int),
                    decreases row@.len() - t,
                {
                    out.push(row[t].duplicate());
                    t = t + 1;
                    assert(out@ =~= row@.take(t as int));
                }
                assert(out@ =~= row@);
                return Some(out);
            }
            i = i + 1;
        }
        None
    }
}

/// Insert `x` into `s` after every element of lower or equal cost.
pub open spec fn insert_by_score(s: Seq<DictView>, x: DictView) -> Seq<DictView>
    decreases s.len(),
{
    if s.len() == 0 {
        seq![x]
    } else if x.1 < s.last().1 {
        insert_by_score(s.drop_last(), x).push(s.last())
    } else {
        s.push(x)
    }
}

/// `s` sorted by cost, ascending; equal costs keep their order.
pub open spec fn sort_by_score(s: Seq<DictView>) -> Seq<DictView>
    decreases s.len(),
{
    if s.len() == 0 {
        s
    } else {
        insert_by_score(sort_by_score(s.drop_last()), s.last())
    }
}

/// Costs never decrease along `s`.
pub open spec fn score_sorted(s: Seq<DictView>) -> bool {
    forall|i: int, j: int| 0 <= i <= j < s.len() ==> s[i].1 <= s[j].1
}

proof fn lemma_insert_at(s: Seq<DictView>, x: DictView, p: int)
    requires
        0 <= p <= s.len(),
        forall|k: int| p <= k < s.len() ==> x.1 < #[trigger] s[k].1,
        p == 0 || s[p - 1].1 <= x.1,
    ensures
        insert_by_score(s, x) == s.insert(p, x),
    decreases s.len(),
{
    if s.len() == 0 {
        assert(s.insert(p, x) =~= seq![x]);
    } else if p == s.len() {
        assert(s.insert(p, x) =~= s.push(x));
    } else {
        assert(x.1 < s.last().1);
        lemma_insert_at(s.drop_last(), x, p);
        assert(s.drop_last().insert(p, x).push(s.last()) =~= s.insert(p, x));
    }
}

proof fn lemma_insert_sorted(s: Seq<DictView>, x: DictView)
    requires
        score_sorted(s),
    ensures
        score_sorted(insert_by_score(s, x)),
        insert_by_score(s, x).len() == s.len() + 1,
    decreases s.len(),
{
    if s.len() > 0 && x.1 < s.last().1 {
        lemma_insert_sorted(s.drop_last(), x);
        let t = insert_by_score(s.drop_last(), x);
        assert forall|k: int| 0 <= k < t.len() implies t[k].1 <= s.last().1 by {
            lemma_insert_members(s.drop_last(), x, k);
        }
    }
}

proof fn lemma_insert_members(s: Seq<DictView>, x: DictView, k: int)
    requires
        0 <= k < insert_by_score(s, x).len(),
    ensures
        insert_by_score(s, x).len() == s.len() + 1,
        insert_by_score(s, x)[k] == x || exists|j: int| 0 <= j < s.len() && insert_by_score(s, x)[k] == s[j],
    decreases s.len(),
{
    if s.len() > 0 && x.1 < s.last().1 {
        let t = insert_by_score(s.drop_last(), x);
        lemma_insert_members_len(s.drop_last(), x);
        if k < t.len() {
            lemma_insert_members(s.drop_last(), x, k);
            if t[k] != x {
                let j = choose|j: int| 0 <= j < s.drop_last().len() && t[k] == s.drop_last()[j];
                assert(s[j] == s.drop_last()[j]);
            }
        } else {
            assert(insert_by_score(s, x)[k] == s[s.len() - 1]);
        }
    } else if s.len() > 0 {
        if k < s.len() {
            assert(insert_by_score(s, x)[k] == s[k]);
        }
    }
}

proof fn lemma_insert_members_len(s: Seq<DictView>, x: DictView)
    ensures
        insert_by_score(s, x).len() == s.len() + 1,
    decreases s.len(),
{
    if s.len() > 0 && x.1 < s.last().1 {
        lemma_insert_members_len(s.drop_last(), x);
    }
}

/// Law: sorting by cost gives a sequence whose costs never decrease.
pub proof fn law_sort_by_score_sorted(s: Seq<DictView>)
    ensures
        score_sorted(sort_by_score(s)),
        sort_by_score(s).len() == s.len(),
    decreases s.len(),
{
    if s.len() > 0 {
        law_sort_by_score_sorted(s.drop_last());
        lemma_insert_sorted(sort_by_score(s.drop_last()), s.last());
    }
}

/// Sort candidates by cost, ascending; equal costs keep their order.
pub fn sort_candidates_by_score(v: Vec<DictCandidate>) -> (r: Vec<DictCandidate>)
    ensures
        dict_views(r@) == sort_by_score(dict_views(v@)),
{
    let ghost vv = dict_views(v@);
    let mut r: Vec<DictCandidate> = Vec::new();
    let mut i: usize = 0;
    assert(vv.take(0) =~= Seq::<DictView>::empty());
    assert(dict_views(r@) =~= Seq::<DictView>::empty());
    while i < v.len()
        invariant
            vv == dict_views(v@),
            i <= v@.len(),
            dict_views(r@) == sort_by_score(vv.take(i as int)),
        decreases v@.len() - i,
    {
        let x = v[i].duplicate();
        let ghost xv = dict_view(x);
        let ghost rv = dict_views(r@);
        let mut p = r.len();
        while p > 0 && x.score < r[p - 1].score
            invariant
                p <= r@.len(),
                rv == dict_views(r@),
                xv == dict_view(x),
                forall|k: int| p <= k < r@.len() ==> xv.1 < #[trigger] rv[k].1,
            decreases p,
        {
            assert(rv[p - 1] == dict_view(r@[p - 1]));
            p = p - 1;
        }
        assert(p == 0 || rv[p - 1].1 <= xv.1) by {
            if p > 0 {
                assert(rv[p - 1] == dict_view(r@[p - 1]));
            }
        }
        proof {
            lemma_insert_at(rv, xv, p as int);
            assert(vv.take(i + 1).drop_last() =~= vv.take(i as int));
            assert(vv.take(i + 1).last() == xv);
        }
        r.insert(p, x);
        assert(dict_views(r@) =~= rv.insert(p as int, xv));
        i = i + 1;
    }
    assert(vv.take(v@.len() as int) =~= vv);
    r
}

} // verus!
