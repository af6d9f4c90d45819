//! Alignment of a converted surface text with the hiragana
//! reading, and the mapping of a surface range back to a reading range.
//!
//! The walk is greedy, left to right. Kana in the surface (katakana
//! normalized to hiragana) are anchors that must match the reading; runs
//! of other characters (kanji etc.) form atomic blocks whose reading spans
//! up to the next anchor. A contiguous kanji compound is therefore one
//! segment, and it re-converts as a whole.

use vstd::prelude::*;
use crate::kana::{spec_is_kana, spec_kata_to_hira, is_kana, katakana_to_hiragana_char};
use crate::text::{string_of, slice_chars, chars_of};

verus! {

/// How a segment is aligned to the reading.
#[derive(Debug, Clone, PartialEq, Eq, Structural)]
pub enum SegmentKind {
    /// Hiragana/katakana segment with 1:1 character alignment to reading.
    Kana,
    /// Non-kana (kanji etc.) block; the whole block maps to its reading range.
    Kanji,
}

/// One aligned piece: a run of the surface and the reading behind it.
#[derive(Debug, Clone)]
pub struct Segment {
    pub surface: String,
    pub reading: String,
    pub kind: SegmentKind,
}

/// A segment as plain values: surface characters, reading characters, kind.
pub type SegView = (Seq<char>, Seq<char>, SegmentKind);

impl View for Segment {
    type V = SegView;

    open spec fn view(&self) -> SegView {
        (self.surface@, self.reading@, self.kind)
    }
}

/// The plain-value view of a segment list.
pub open spec fn segs_view(segs: Seq<Segment>) -> Seq<SegView> {
    segs.map_values(|s: Segment| s.view())
}

// ---------------------------------------------------------------------
// The greedy walk, as spec functions over the surface `s` and reading `r`.
// ---------------------------------------------------------------------

/// The reading form of a surface character (katakana → hiragana).
pub open spec fn norm(c: char) -> char {
    spec_kata_to_hira(c)
}

/// Whether `t` occurs in `r[j..]`.
pub open spec fn occurs_from(r: Seq<char>, j: int, t: char) -> bool {
    exists|k: int| j <= k < r.len() && r[k] == t
}

/// Surface character `i` is kana and matches reading character `j`.
pub open spec fn matches_at(s: Seq<char>, r: Seq<char>, i: int, j: int) -> bool {
    &&& 0 <= i < s.len()
    &&& spec_is_kana(s[i])
    &&& 0 <= j < r.len()
    &&& norm(s[i]) == r[j]
}

/// Surface character `i` is a kana that still occurs in `r[j..]`, so it
/// ends a non-kana block.
pub open spec fn is_anchor(s: Seq<char>, r: Seq<char>, i: int, j: int) -> bool {
    spec_is_kana(s[i]) && occurs_from(r, j, norm(s[i]))
}

/// End of the block that starts at `i`: the first anchor at or after `i`,
/// or the end of the surface.
pub open spec fn block_end(s: Seq<char>, r: Seq<char>, i: int, j: int) -> int
    decreases s.len() - i,
{
    if i >= s.len() || i < 0 {
        s.len() as int
    } else if is_anchor(s, r, i, j) {
        i
    } else {
        block_end(s, r, i + 1, j)
    }
}

/// First position at or after `j` where `r` holds `t` (or `r.len()`).
pub open spec fn advance(r: Seq<char>, j: int, t: char) -> int
    decreases r.len() - j,
{
    if j >= r.len() || j < 0 {
        r.len() as int
    } else if r[j] == t {
        j
    } else {
        advance(r, j + 1, t)
    }
}

/// Where the reading resumes after a block ending at surface position `e`.
pub open spec fn block_reading_end(s: Seq<char>, r: Seq<char>, e: int, j: int) -> int {
    if e < s.len() { advance(r, j, norm(s[e])) } else { r.len() as int }
}

pub proof fn lemma_block_end_bounds(s: Seq<char>, r: Seq<char>, i: int, j: int)
    requires
        0 <= i <= s.len(),
    ensures
        i <= block_end(s, r, i, j) <= s.len(),
        block_end(s, r, i, j) < s.len() ==> is_anchor(s, r, block_end(s, r, i, j), j),
        forall|k: int| i <= k < block_end(s, r, i, j) ==> !is_anchor(s, r, k, j),
    decreases s.len() - i,
{
    if i < s.len() && !is_anchor(s, r, i, j) {
        lemma_block_end_bounds(s, r, i + 1, j);
    }
}

pub proof fn lemma_advance(r: Seq<char>, j: int, t: char)
    requires
        0 <= j <= r.len(),
    ensures
        j <= advance(r, j, t) <= r.len(),
        occurs_from(r, j, t) ==> advance(r, j, t) < r.len() && r[advance(r, j, t)] == t,
        forall|k: int| j <= k < advance(r, j, t) ==> r[k] != t,
    decreases r.len() - j,
{
    if j < r.len() && r[j] != t {
        lemma_advance(r, j + 1, t);
        if occurs_from(r, j, t) {
            let k = choose|k: int| j <= k < r.len() && r[k] == t;
            assert(j + 1 <= k);
        }
    }
}

/// The segments the greedy walk produces from position `(i, j)` on.
pub open spec fn align_from(s: Seq<char>, r: Seq<char>, i: int, j: int) -> Seq<SegView>
    decreases s.len() - i, (if matches_at(s, r, i, j) { 0int } else { 1int }),
{
    if i < 0 || i >= s.len() || j < 0 || j > r.len() {
        seq![]
    } else if matches_at(s, r, i, j) {
        seq![(seq![s[i]], seq![r[j]], SegmentKind::Kana)] + align_from(s, r, i + 1, j + 1)
    } else {
        let e = block_end(s, r, i, j);
        let j2 = block_reading_end(s, r, e, j);
        proof {
            lemma_block_end_bounds(s, r, i, j);
            if e < s.len() {
                lemma_advance(r, j, norm(s[e]));
            }
        }
        if e > i {
            seq![(s.subrange(i, e), r.subrange(j, j2), SegmentKind::Kanji)] + align_from(s, r, e, j2)
        } else {
            align_from(s, r, e, j2)
        }
    }
}

/// The full alignment of `surface` against `reading`.
pub open spec fn spec_align(s: Seq<char>, r: Seq<char>) -> Seq<SegView> {
    align_from(s, r, 0, 0)
}

// ---------------------------------------------------------------------
// Executable alignment
// ---------------------------------------------------------------------

/// Whether `t` occurs in `r[j..]`.
fn occurs_from_exec(r: &[char], j: usize, t: char) -> (b: bool)
    ensures
        b == occurs_from(r@, j as int, t),
{
    let mut k = j;
    while k < r.len()
        invariant
            j <= k,
            forall|x: int| j <= x < k && x < r@.len() ==> r@[x] != t,
        decreases r@.len() - k,
    {
        if r[k] == t {
            return true;
        }
        k = k + 1;
    }
    false
}

fn single(c: char) -> (s: String)
    ensures
        s@ == seq![c],
{
    let v: Vec<char> = vec![c];
    string_of(v.as_slice())
}

/// Align the converted `surface` with the hiragana `reading` it came from.
pub fn align(surface: &str, reading: &str) -> (segs: Vec<Segment>)
    ensures
        segs_view(segs@) == spec_align(surface@, reading@),
{
    let surf_chars = chars_of(surface);
    let read_chars = chars_of(reading);
    let ghost s = surf_chars@;
    let ghost r = read_chars@;
    let n = surf_chars.len();
    let m = read_chars.len();
    let mut segments: Vec<Segment> = Vec::new();
    let mut i: usize = 0;
    let mut j: usize = 0;

    while i < n
        invariant
            s == surface@,
            r == reading@,
            s == surf_chars@,
            r == read_chars@,
            n == s.len(),
            m == r.len(),
            i <= n,
            j <= m,
            segs_view(segments@) + align_from(s, r, i as int, j as int) == spec_align(s, r),
        decreases n - i, (if matches_at(s, r, i as int, j as int) { 0int } else { 1int }),
    {
        let c = surf_chars[i];
        if is_kana(c) {
            let c_norm = katakana_to_hiragana_char(c);
            if j < m && c_norm == read_chars[j] {
                let seg = Segment { surface: single(c), reading: single(read_chars[j]), kind: SegmentKind::Kana };
                let ghost old_segs = segments@;
                segments.push(seg);
                assert(segs_view(segments@) =~= segs_view(old_segs).push(seg.view()));
                assert(segs_view(segments@) + align_from(s, r, i + 1, j + 1)
                    =~= segs_view(old_segs) + align_from(s, r, i as int, j as int));
                i = i + 1;
                j = j + 1;
                continue;
            }
        }
        assert(!matches_at(s, r, i as int, j as int));
        let start_i = i;
        let start_j = j;
        proof {
            lemma_block_end_bounds(s, r, i as int, j as int);
        }
        let ghost e = block_end(s, r, start_i as int, start_j as int);
        while i < n
            invariant
                s == surf_chars@,
                r == read_chars@,
                n == s.len(),
                m == r.len(),
                start_i <= i <= e <= n,
                j == start_j,
                j <= m,
                e == block_end(s, r, start_i as int, start_j as int),
                forall|k: int| start_i <= k < e ==> !is_anchor(s, r, k, start_j as int),
                e < n ==> is_anchor(s, r, e, start_j as int),
            ensures
                i == e,
            decreases n - i,
        {
            let ci = surf_chars[i];
            if is_kana(ci) {
                let t = katakana_to_hiragana_char(ci);
                if occurs_from_exec(read_chars.as_slice(), j, t) {
                    assert(is_anchor(s, r, i as int, j as int));
                    assert(i == e) by {
                        if i < e {
                            assert(!is_anchor(s, r, i as int, start_j as int));
                        }
                    }
                    break;
                }
            }
            assert(!is_anchor(s, r, i as int, j as int));
            i = i + 1;
        }
        if i < n {
            let target = katakana_to_hiragana_char(surf_chars[i]);
            proof {
                lemma_advance(r, j as int, target);
            }
            while j < m && read_chars[j] != target
                invariant
                    r == read_chars@,
                    m == r.len(),
                    start_j <= j <= m,
                    occurs_from(r, start_j as int, target),
                    advance(r, start_j as int, target) < m,
                    r[advance(r, start_j as int, target)] == target,
                    forall|k: int| start_j <= k < advance(r, start_j as int, target) ==> r[k] != target,
                    j <= advance(r, start_j as int, target),
                decreases m - j,
            {
                j = j + 1;
            }
        } else {
            j = m;
        }
        let ghost j2 = block_reading_end(s, r, e, start_j as int);
        assert(j == j2);
        let surface_segment = string_of(slice_chars(surf_chars.as_slice(), start_i, i).as_slice());
        let reading_segment = string_of(slice_chars(read_chars.as_slice(), start_j, j).as_slice());
        if i > start_i {
            let seg = Segment { surface: surface_segment, reading: reading_segment, kind: SegmentKind::Kanji };
            let ghost old_segs = segments@;
            segments.push(seg);
            assert(segs_view(segments@) =~= segs_view(old_segs).push(seg.view()));
            assert(segs_view(segments@) + align_from(s, r, i as int, j as int)
                =~= segs_view(old_segs) + align_from(s, r, start_i as int, start_j as int));
        } else {
            assert(align_from(s, r, i as int, j as int) == align_from(s, r, start_i as int, start_j as int));
            assert(matches_at(s, r, i as int, j as int));
        }
    }
    assert(align_from(s, r, i as int, j as int) =~= Seq::<SegView>::empty());
    assert(segs_view(segments@) =~= spec_align(s, r));
    segments
}

// ---------------------------------------------------------------------
// Mapping a surface range back to the reading
// ---------------------------------------------------------------------

/// Surface offset of segment `k`: the total surface length before it.
pub open spec fn surf_off(segs: Seq<SegView>, k: int) -> int
    decreases k,
{
    if k <= 0 { 0 } else { surf_off(segs, k - 1) + segs[k - 1].0.len() }
}

/// Reading offset of segment `k`: the total reading length before it.
pub open spec fn read_off(segs: Seq<SegView>, k: int) -> int
    decreases k,
{
    if k <= 0 { 0 } else { read_off(segs, k - 1) + segs[k - 1].1.len() }
}

/// Segment `k` overlaps the surface range `[a, b)`.
pub open spec fn overlaps(segs: Seq<SegView>, k: int, a: int, b: int) -> bool {
    surf_off(segs, k) < b && a < surf_off(segs, k + 1)
}

/// The first segment among `segs[..k]` that overlaps `[a, b)`.
pub open spec fn first_overlap(segs: Seq<SegView>, a: int, b: int, k: int) -> Option<int>
    decreases k,
{
    if k <= 0 {
        None
    } else {
        match first_overlap(segs, a, b, k - 1) {
            Some(x) => Some(x),
            None => if overlaps(segs, k - 1, a, b) { Some(k - 1) } else { None },
        }
    }
}

/// The last segment among `segs[..k]` that overlaps `[a, b)`.
pub open spec fn last_overlap(segs: Seq<SegView>, a: int, b: int, k: int) -> Option<int>
    decreases k,
{
    if k <= 0 {
        None
    } else if overlaps(segs, k - 1, a, b) {
        Some(k - 1)
    } else {
        last_overlap(segs, a, b, k - 1)
    }
}

/// Where the mapped range starts inside the first overlapping segment `k`:
/// `(reading position, surface position)`. A kana segment maps character
/// by character; a kanji block starts at its own beginning.
pub open spec fn start_at(segs: Seq<SegView>, k: int, a: int) -> (int, int) {
    let s0 = surf_off(segs, k);
    let r0 = read_off(segs, k);
    match segs[k].2 {
        SegmentKind::Kana => {
            let ls = if a > s0 { a - s0 } else { 0 };
            (r0 + ls, s0 + ls)
        },
        SegmentKind::Kanji => (r0, s0),
    }
}

/// Where the mapped range ends inside the last overlapping segment `k`:
/// `(reading position, surface position)`. A kanji block ends at its own
/// end.
pub open spec fn end_at(segs: Seq<SegView>, k: int, b: int) -> (int, int) {
    let s0 = surf_off(segs, k);
    let r0 = read_off(segs, k);
    let slen = segs[k].0.len() as int;
    match segs[k].2 {
        SegmentKind::Kana => {
            let le = if b - s0 < slen { b - s0 } else { slen };
            (r0 + le, s0 + le)
        },
        SegmentKind::Kanji => (r0 + segs[k].1.len(), s0 + slen),
    }
}

/// The result of `map_range`: `(reading_start, reading_end,
/// expanded_surface_start, expanded_surface_end)`; with no overlapping
/// segment it is `(0, 0, a, b)`.
pub open spec fn spec_map_range(segs: Seq<SegView>, a: int, b: int) -> (int, int, int, int) {
    let n = segs.len() as int;
    let (rs, ss) = match first_overlap(segs, a, b, n) {
        Some(k) => start_at(segs, k, a),
        None => (0, a),
    };
    let (re, se) = match last_overlap(segs, a, b, n) {
        Some(k) => end_at(segs, k, b),
        None => (0, b),
    };
    (rs, re, ss, se)
}

pub proof fn lemma_offsets_monotone(segs: Seq<SegView>, k1: int, k2: int)
    requires
        0 <= k1 <= k2 <= segs.len(),
    ensures
        surf_off(segs, k1) <= surf_off(segs, k2),
        read_off(segs, k1) <= read_off(segs, k2),
    decreases k2 - k1,
{
    if k1 < k2 {
        lemma_offsets_monotone(segs, k1, k2 - 1);
    }
}

pub proof fn lemma_first_overlap(segs: Seq<SegView>, a: int, b: int, k: int)
    requires
        0 <= k <= segs.len(),
    ensures
        first_overlap(segs, a, b, k) matches Some(x) ==> 0 <= x < k && overlaps(segs, x, a, b)
            && forall|y: int| 0 <= y < x ==> !overlaps(segs, y, a, b),
        first_overlap(segs, a, b, k) is None ==> forall|y: int| 0 <= y < k ==> !overlaps(segs, y, a, b),
    decreases k,
{
    if k > 0 {
        lemma_first_overlap(segs, a, b, k - 1);
    }
}

pub proof fn lemma_last_overlap(segs: Seq<SegView>, a: int, b: int, k: int)
    requires
        0 <= k <= segs.len(),
    ensures
        last_overlap(segs, a, b, k) matches Some(x) ==> 0 <= x < k && overlaps(segs, x, a, b)
            && forall|y: int| x < y < k ==> !overlaps(segs, y, a, b),
        last_overlap(segs, a, b, k) is None ==> forall|y: int| 0 <= y < k ==> !overlaps(segs, y, a, b),
    decreases k,
{
    if k > 0 {
        lemma_last_overlap(segs, a, b, k - 1);
    }
}

/// Given a character range `[surf_start, surf_end)` in the joined surface
/// (the concatenation of all segment surfaces), find the corresponding
/// reading range. A range that partially overlaps a kanji segment is
/// expanded to cover the whole block.
///
/// Returns `(reading_start, reading_end, expanded_surface_start,
/// expanded_surface_end)`.
pub fn map_range(segments: &[Segment], surf_start: usize, surf_end: usize) -> (res: (usize, usize, usize, usize))
    requires
        surf_off(segs_view(segments@), segments@.len() as int)
            + read_off(segs_view(segments@), segments@.len() as int) <= usize::MAX,
    ensures
        (res.0 as int, res.1 as int, res.2 as int, res.3 as int)
            == spec_map_range(segs_view(segments@), surf_start as int, surf_end as int),
{
    let ghost sv = segs_view(segments@);
    let ghost a = surf_start as int;
    let ghost b = surf_end as int;
    let ghost total = surf_off(sv, sv.len() as int) + read_off(sv, sv.len() as int);
    let mut s_pos: usize = 0;
    let mut r_pos: usize = 0;
    let mut r_start: Option<usize> = None;
    let mut r_end: Option<usize> = None;
    let mut new_surf_start: Option<usize> = None;
    let mut new_surf_end: Option<usize> = None;

    let mut k: usize = 0;
    while k < segments.len()
        invariant
            sv == segs_view(segments@),
            sv.len() == segments@.len(),
            a == surf_start,
            b == surf_end,
            total == surf_off(sv, sv.len() as int) + read_off(sv, sv.len() as int),
            total <= usize::MAX,
            k <= segments@.len(),
            s_pos == surf_off(sv, k as int),
            r_pos == read_off(sv, k as int),
            r_start is Some <==> first_overlap(sv, a, b, k as int) is Some,
            new_surf_start is Some <==> first_overlap(sv, a, b, k as int) is Some,
            first_overlap(sv, a, b, k as int) matches Some(x) ==> (r_start->0 as int, new_surf_start->0 as int) == start_at(sv, x, a),
            r_end is Some <==> last_overlap(sv, a, b, k as int) is Some,
            new_surf_end is Some <==> last_overlap(sv, a, b, k as int) is Some,
            last_overlap(sv, a, b, k as int) matches Some(x) ==> (r_end->0 as int, new_surf_end->0 as int) == end_at(sv, x, b),
        decreases segments@.len() - k,
    {
        let seg = &segments[k];
        proof {
            lemma_offsets_monotone(sv, k as int + 1, sv.len() as int);
            assert(sv[k as int] == seg.view());
        }
        let seg_surf_len = seg.surface.as_str().unicode_len();
        let seg_read_len = seg.reading.as_str().unicode_len();
        let s_seg_start = s_pos;
        let s_seg_end = s_pos + seg_surf_len;
        let overlaps_now = s_seg_start < surf_end && surf_start < s_seg_end;
        assert(overlaps_now == overlaps(sv, k as int, a, b));

        if overlaps_now {
            match seg.kind {
                SegmentKind::Kana => {
                    let local_start = if surf_start > s_seg_start { surf_start - s_seg_start } else { 0 };
                    let local_end = if surf_end - s_seg_start < seg_surf_len { surf_end - s_seg_start } else { seg_surf_len };
                    if r_start.is_none() {
                        r_start = Some(r_pos + local_start);
                        new_surf_start = Some(s_seg_start + local_start);
                    }
                    r_end = Some(r_pos + local_end);
                    new_surf_end = Some(s_seg_start + local_end);
                },
                SegmentKind::Kanji => {
                    if r_start.is_none() {
                        r_start = Some(r_pos);
                        new_surf_start = Some(s_seg_start);
                    }
                    r_end = Some(r_pos + seg_read_len);
                    new_surf_end = Some(s_seg_end);
                },
            }
        }

        s_pos = s_seg_end;
        r_pos = r_pos + seg_read_len;
        k = k + 1;
    }

    (
        match r_start { Some(x) => x, None => 0 },
        match r_end { Some(x) => x, None => 0 },
        match new_surf_start { Some(x) => x, None => surf_start },
        match new_surf_end { Some(x) => x, None => surf_end },
    )
}

// ---------------------------------------------------------------------
// Laws of the alignment
// ---------------------------------------------------------------------

/// The surfaces of `v`, joined.
pub open spec fn joined_surface(v: Seq<SegView>) -> Seq<char>
    decreases v.len(),
{
    if v.len() == 0 { seq![] } else { v[0].0 + joined_surface(v.drop_first()) }
}

/// Every segment of `v` is well formed: its surface is not empty, and a
/// kana segment is one kana character whose hiragana form is its
/// one-character reading.
pub open spec fn well_formed_segments(v: Seq<SegView>) -> bool {
    forall|k: int| 0 <= k < v.len() ==> {
        &&& (#[trigger] v[k]).0.len() > 0
        &&& v[k].2 == SegmentKind::Kana ==> {
            &&& v[k].0.len() == 1
            &&& v[k].1.len() == 1
            &&& spec_is_kana(v[k].0[0])
            &&& norm(v[k].0[0]) == v[k].1[0]
        }
    }
}

/// The readings of `v` are slices of `r`, in order and without overlap,
/// all at or after position `j`.
pub open spec fn reading_slices(v: Seq<SegView>, r: Seq<char>, j: int) -> bool
    decreases v.len(),
{
    if v.len() == 0 {
        0 <= j <= r.len()
    } else {
        exists|p: int, q: int|
            #![trigger r.subrange(p, q)]
            j <= p <= q <= r.len() && v[0].1 == r.subrange(p, q) && reading_slices(v.drop_first(), r, q)
    }
}

proof fn lemma_reading_slices_weaken(v: Seq<SegView>, r: Seq<char>, j1: int, j2: int)
    requires
        0 <= j1 <= j2,
        reading_slices(v, r, j2),
    ensures
        reading_slices(v, r, j1),
{
    if v.len() > 0 {
        let (p, q) = choose|p: int, q: int|
            #![trigger r.subrange(p, q)]
            j2 <= p <= q <= r.len() && v[0].1 == r.subrange(p, q) && reading_slices(v.drop_first(), r, q);
        assert(j1 <= p <= q <= r.len() && v[0].1 == r.subrange(p, q) && reading_slices(v.drop_first(), r, q));
    }
}

proof fn lemma_prepend_wf(x: SegView, v: Seq<SegView>)
    requires
        well_formed_segments(v),
        well_formed_segments(seq![x]),
    ensures
        well_formed_segments(seq![x] + v),
{
    assert forall|k: int| 0 <= k < (seq![x] + v).len() implies {
        &&& (#[trigger] (seq![x] + v)[k]).0.len() > 0
        &&& (seq![x] + v)[k].2 == SegmentKind::Kana ==> {
            &&& (seq![x] + v)[k].0.len() == 1
            &&& (seq![x] + v)[k].1.len() == 1
            &&& spec_is_kana((seq![x] + v)[k].0[0])
            &&& norm((seq![x] + v)[k].0[0]) == (seq![x] + v)[k].1[0]
        }
    } by {
        if k == 0 {
            assert((seq![x] + v)[k] == seq![x][0]);
        } else {
            assert((seq![x] + v)[k] == v[k - 1]);
        }
    }
}

/// The walk from `(i, j)` covers the rest of the surface exactly, yields
/// well-formed segments, and takes their readings as in-order slices of
/// the reading.
pub proof fn lemma_align_from(s: Seq<char>, r: Seq<char>, i: int, j: int)
    requires
        0 <= i <= s.len(),
        0 <= j <= r.len(),
    ensures
        joined_surface(align_from(s, r, i, j)) == s.subrange(i, s.len() as int),
        well_formed_segments(align_from(s, r, i, j)),
        reading_slices(align_from(s, r, i, j), r, j),
    decreases s.len() - i, (if matches_at(s, r, i, j) { 0int } else { 1int }),
{
    let v = align_from(s, r, i, j);
    if i >= s.len() {
        assert(s.subrange(i, s.len() as int) =~= Seq::<char>::empty());
        assert(v =~= Seq::<SegView>::empty());
    } else if matches_at(s, r, i, j) {
        lemma_align_from(s, r, i + 1, j + 1);
        let x: SegView = (seq![s[i]], seq![r[j]], SegmentKind::Kana);
        let rest = align_from(s, r, i + 1, j + 1);
        assert(v == seq![x] + rest);
        assert(v.drop_first() =~= rest);
        assert(joined_surface(v) == v[0].0 + joined_surface(v.drop_first()));
        assert(seq![s[i]] + s.subrange(i + 1, s.len() as int) =~= s.subrange(i, s.len() as int));
        lemma_prepend_wf(x, rest);
        assert(seq![r[j]] =~= r.subrange(j, j + 1));
        assert(j <= j <= j + 1 <= r.len() && v[0].1 == r.subrange(j, j + 1)
            && reading_slices(v.drop_first(), r, j + 1));
    } else {
        let e = block_end(s, r, i, j);
        let j2 = block_reading_end(s, r, e, j);
        lemma_block_end_bounds(s, r, i, j);
        if e < s.len() {
            lemma_advance(r, j, norm(s[e]));
        }
        lemma_align_from(s, r, e, j2);
        let rest = align_from(s, r, e, j2);
        if e > i {
            let x: SegView = (s.subrange(i, e), r.subrange(j, j2), SegmentKind::Kanji);
            assert(v == seq![x] + rest);
            assert(v.drop_first() =~= rest);
            assert(joined_surface(v) == v[0].0 + joined_surface(v.drop_first()));
            assert(s.subrange(i, e) + s.subrange(e, s.len() as int) =~= s.subrange(i, s.len() as int));
            lemma_prepend_wf(x, rest);
            assert(j <= j <= j2 <= r.len() && v[0].1 == r.subrange(j, j2)
                && reading_slices(v.drop_first(), r, j2));
        } else {
            lemma_reading_slices_weaken(rest, r, j, j2);
        }
    }
}

/// Law: the segments of `align(surface, reading)` join back into exactly
/// the surface; no segment is empty; each kana segment is one kana whose
/// hiragana form is its one-character reading; and the segment readings
/// are slices of the reading, in order and without overlap.
pub proof fn law_align_partitions_surface(s: Seq<char>, r: Seq<char>)
    ensures
        joined_surface(spec_align(s, r)) == s,
        well_formed_segments(spec_align(s, r)),
        reading_slices(spec_align(s, r), r, 0),
{
    lemma_align_from(s, r, 0, 0);
    assert(s.subrange(0, s.len() as int) =~= s);
}

/// Surface characters `i..` match reading characters `i..` one for one.
pub open spec fn kana_spells_from(s: Seq<char>, r: Seq<char>, i: int) -> bool {
    s.len() == r.len() && forall|k: int| i <= k < s.len() ==> #[trigger] matches_at(s, r, k, k)
}

/// The segments of a kana surface that spells its reading one for one.
pub open spec fn kana_segments(s: Seq<char>, r: Seq<char>, i: int) -> Seq<SegView> {
    Seq::new((s.len() - i) as nat, |k: int| (seq![s[i + k]], seq![r[i + k]], SegmentKind::Kana))
}

proof fn lemma_kana_spells_from(s: Seq<char>, r: Seq<char>, i: int)
    requires
        0 <= i <= s.len(),
        kana_spells_from(s, r, i),
    ensures
        align_from(s, r, i, i) == kana_segments(s, r, i),
    decreases s.len() - i,
{
    if i < s.len() {
        assert(matches_at(s, r, i, i));
        lemma_kana_spells_from(s, r, i + 1);
        assert(align_from(s, r, i, i) =~= kana_segments(s, r, i));
    } else {
        assert(align_from(s, r, i, i) =~= kana_segments(s, r, i));
    }
}

/// Law: a kana surface that spells its reading character for character
/// (hiragana, or katakana of the same letters) aligns one kana segment per
/// character.
pub proof fn law_align_kana_one_to_one(s: Seq<char>, r: Seq<char>)
    requires
        kana_spells_from(s, r, 0),
    ensures
        spec_align(s, r) == kana_segments(s, r, 0),
{
    lemma_kana_spells_from(s, r, 0);
}

proof fn lemma_segment_containing(segs: Seq<SegView>, x: int, n: int) -> (k: int)
    requires
        0 <= n <= segs.len(),
        0 <= x < surf_off(segs, n),
    ensures
        0 <= k < n,
        surf_off(segs, k) <= x < surf_off(segs, k + 1),
    decreases n,
{
    if x >= surf_off(segs, n - 1) {
        n - 1
    } else {
        lemma_segment_containing(segs, x, n - 1)
    }
}

/// Law: on well-formed segments (such as `align` produces), a non-empty
/// surface range `[a, b)` inside the joined surface maps to an expanded
/// surface range that contains it, and to a reading range that is ordered
/// and lies within the joined reading. A kanji block that the range only
/// partly covers is taken whole.
pub proof fn law_map_range_covers(segs: Seq<SegView>, a: int, b: int)
    requires
        well_formed_segments(segs),
        0 <= a < b <= surf_off(segs, segs.len() as int),
    ensures
        ({
            let (rs, re, ss, se) = spec_map_range(segs, a, b);
            &&& 0 <= ss <= a
            &&& b <= se <= surf_off(segs, segs.len() as int)
            &&& 0 <= rs <= re <= read_off(segs, segs.len() as int)
        }),
{
    let n = segs.len() as int;
    let k0 = lemma_segment_containing(segs, a, n);
    let k1 = lemma_segment_containing(segs, b - 1, n);
    lemma_first_overlap(segs, a, b, n);
    lemma_last_overlap(segs, a, b, n);
    assert(overlaps(segs, k0, a, b));
    assert(overlaps(segs, k1, a, b));
    assert(first_overlap(segs, a, b, n) == Some(k0)) by {
        if let Some(x) = first_overlap(segs, a, b, n) {
            if x < k0 {
                lemma_offsets_monotone(segs, x + 1, k0);
            }
        }
    }
    assert(last_overlap(segs, a, b, n) == Some(k1)) by {
        if let Some(x) = last_overlap(segs, a, b, n) {
            if x > k1 {
                lemma_offsets_monotone(segs, k1 + 1, x);
            }
        }
    }
    assert(k0 <= k1) by {
        if k1 < k0 {
            lemma_offsets_monotone(segs, k1 + 1, k0);
        }
    }
    assert(segs[k0].0.len() > 0);
    lemma_offsets_monotone(segs, 0, k0);
    if k0 < k1 {
        lemma_offsets_monotone(segs, k0 + 1, k1);
    }
    lemma_offsets_monotone(segs, k1 + 1, n);
    lemma_offsets_monotone(segs, 0, k1);
}

proof fn lemma_offsets_drop_first(v: Seq<SegView>, k: int)
    requires
        1 <= k <= v.len(),
    ensures
        surf_off(v, k) == v[0].0.len() + surf_off(v.drop_first(), k - 1),
        read_off(v, k) == v[0].1.len() + read_off(v.drop_first(), k - 1),
    decreases k,
{
    if k > 1 {
        lemma_offsets_drop_first(v, k - 1);
        assert(v.drop_first()[k - 2] == v[k - 1]);
        assert(surf_off(v.drop_first(), k - 1) == surf_off(v.drop_first(), k - 2) + v.drop_first()[k - 2].0.len());
        assert(read_off(v.drop_first(), k - 1) == read_off(v.drop_first(), k - 2) + v.drop_first()[k - 2].1.len());
    } else {
        assert(surf_off(v, 1) == surf_off(v, 0) + v[0].0.len());
        assert(read_off(v, 1) == read_off(v, 0) + v[0].1.len());
    }
}

/// The joined surface is as long as the total surface offset, and the
/// readings taken as in-order slices of `r` from `j` fit in `r[j..]`.
pub proof fn lemma_totals(v: Seq<SegView>, r: Seq<char>, j: int)
    requires
        reading_slices(v, r, j),
        0 <= j,
    ensures
        surf_off(v, v.len() as int) == joined_surface(v).len(),
        read_off(v, v.len() as int) <= r.len() - j,
    decreases v.len(),
{
    if v.len() > 0 {
        let (p, q) = choose|p: int, q: int|
            #![trigger r.subrange(p, q)]
            j <= p <= q <= r.len() && v[0].1 == r.subrange(p, q) && reading_slices(v.drop_first(), r, q);
        lemma_totals(v.drop_first(), r, q);
        lemma_offsets_drop_first(v, v.len() as int);
    }
}

/// Law: for a selection `[a, b)` inside a surface aligned against a
/// reading, the mapped reading range lies within the reading and the
/// expanded surface range contains the selection and lies within the
/// surface.
pub proof fn law_align_map_range(s: Seq<char>, r: Seq<char>, a: int, b: int)
    requires
        0 <= a < b <= s.len(),
    ensures
        ({
            let (rs, re, ss, se) = spec_map_range(spec_align(s, r), a, b);
            &&& 0 <= rs <= re <= r.len()
            &&& 0 <= ss <= a
            &&& b <= se <= s.len()
        }),
        surf_off(spec_align(s, r), spec_align(s, r).len() as int) == s.len(),
        read_off(spec_align(s, r), spec_align(s, r).len() as int) <= r.len(),
{
    law_align_partitions_surface(s, r);
    lemma_totals(spec_align(s, r), r, 0);
    law_map_range_covers(spec_align(s, r), a, b);
}

/// No kanji block directly follows another: the segment after a kanji
/// block, if any, is a kana segment.
pub open spec fn no_adjacent_kanji(v: Seq<SegView>) -> bool {
    forall|k: int| 0 <= k && k + 1 < v.len() && (#[trigger] v[k]).2 == SegmentKind::Kanji
        ==> v[k + 1].2 == SegmentKind::Kana
}

/// The readings of `v` are in-order slices of `r` from position `j` on,
/// each kanji block's reading starts exactly where the reading of the
/// segment before it ended (at `j` for the first), and a kanji block that
/// ends the list reads to the end of `r`.
pub open spec fn kanji_readings_contiguous(v: Seq<SegView>, r: Seq<char>, j: int) -> bool
    decreases v.len(),
{
    if v.len() == 0 {
        0 <= j <= r.len()
    } else {
        exists|p: int, q: int|
            #![trigger r.subrange(p, q)]
            j <= p <= q <= r.len() && v[0].1 == r.subrange(p, q)
                && (v[0].2 == SegmentKind::Kanji ==> p == j)
                && (v[0].2 == SegmentKind::Kanji && v.len() == 1 ==> q == r.len())
                && kanji_readings_contiguous(v.drop_first(), r, q)
    }
}

/// After a block that ends at an anchor, the walk goes on with a kana
/// segment.
proof fn lemma_anchor_starts_kana(s: Seq<char>, r: Seq<char>, i: int, j: int)
    requires
        0 <= i <= s.len(),
        0 <= j <= r.len(),
        block_end(s, r, i, j) < s.len(),
    ensures
        ({
            let e = block_end(s, r, i, j);
            let j2 = block_reading_end(s, r, e, j);
            &&& matches_at(s, r, e, j2)
            &&& align_from(s, r, e, j2).len() > 0
            &&& align_from(s, r, e, j2)[0].2 == SegmentKind::Kana
        }),
{
    let e = block_end(s, r, i, j);
    lemma_block_end_bounds(s, r, i, j);
    lemma_advance(r, j, norm(s[e]));
    let j2 = block_reading_end(s, r, e, j);
    assert(matches_at(s, r, e, j2));
    let x: SegView = (seq![s[e]], seq![r[j2]], SegmentKind::Kana);
    assert(align_from(s, r, e, j2) == seq![x] + align_from(s, r, e + 1, j2 + 1));
}

proof fn lemma_contiguous_weaken(v: Seq<SegView>, r: Seq<char>, j1: int, j2: int)
    requires
        0 <= j1 <= j2,
        kanji_readings_contiguous(v, r, j2),
        v.len() > 0 ==> v[0].2 == SegmentKind::Kana,
    ensures
        kanji_readings_contiguous(v, r, j1),
{
    if v.len() > 0 {
        let (p, q) = choose|p: int, q: int|
            #![trigger r.subrange(p, q)]
            j2 <= p <= q <= r.len() && v[0].1 == r.subrange(p, q)
                && (v[0].2 == SegmentKind::Kanji ==> p == j2)
                && (v[0].2 == SegmentKind::Kanji && v.len() == 1 ==> q == r.len())
                && kanji_readings_contiguous(v.drop_first(), r, q);
        assert(j1 <= p <= q <= r.len() && v[0].1 == r.subrange(p, q)
            && (v[0].2 == SegmentKind::Kanji ==> p == j1)
            && (v[0].2 == SegmentKind::Kanji && v.len() == 1 ==> q == r.len())
            && kanji_readings_contiguous(v.drop_first(), r, q));
    }
}

proof fn lemma_prepend_no_adjacent(x: SegView, v: Seq<SegView>)
    requires
        no_adjacent_kanji(v),
        x.2 == SegmentKind::Kanji && v.len() > 0 ==> v[0].2 == SegmentKind::Kana,
    ensures
        no_adjacent_kanji(seq![x] + v),
{
    let w = seq![x] + v;
    assert forall|k: int| 0 <= k && k + 1 < w.len() && (#[trigger] w[k]).2 == SegmentKind::Kanji
        implies w[k + 1].2 == SegmentKind::Kana by {
        assert(w[k + 1] == v[k]);
        if k > 0 {
            assert(w[k] == v[k - 1]);
        }
    }
}

/// The walk from `(i, j)` never puts two kanji blocks side by side, and
/// each kanji block reads from where the segment before it stopped.
#[verifier::spinoff_prover]
#[verifier::rlimit(40)]
proof fn lemma_align_blocks(s: Seq<char>, r: Seq<char>, i: int, j: int)
    requires
        0 <= i <= s.len(),
        0 <= j <= r.len(),
    ensures
        no_adjacent_kanji(align_from(s, r, i, j)),
        kanji_readings_contiguous(align_from(s, r, i, j), r, j),
        align_from(s, r, i, j).len() > 0 && matches_at(s, r, i, j) ==> align_from(s, r, i, j)[0].2 == SegmentKind::Kana,
    decreases s.len() - i, (if matches_at(s, r, i, j) { 0int } else { 1int }),
{
    let v = align_from(s, r, i, j);
    if i >= s.len() {
        assert(v =~= Seq::<SegView>::empty());
    } else if matches_at(s, r, i, j) {
        lemma_align_blocks(s, r, i + 1, j + 1);
        let x: SegView = (seq![s[i]], seq![r[j]], SegmentKind::Kana);
        let rest = align_from(s, r, i + 1, j + 1);
        assert(v == seq![x] + rest);
        assert(v.drop_first() =~= rest);
        lemma_prepend_no_adjacent(x, rest);
        assert(seq![r[j]] =~= r.subrange(j, j + 1));
        assert(j <= j <= j + 1 <= r.len() && v[0].1 == r.subrange(j, j + 1)
            && (v[0].2 == SegmentKind::Kanji ==> j == j)
            && (v[0].2 == SegmentKind::Kanji && v.len() == 1 ==> j + 1 == r.len())
            && kanji_readings_contiguous(v.drop_first(), r, j + 1));
    } else {
        let e = block_end(s, r, i, j);
        let j2 = block_reading_end(s, r, e, j);
        lemma_block_end_bounds(s, r, i, j);
        if e < s.len() {
            lemma_advance(r, j, norm(s[e]));
            lemma_anchor_starts_kana(s, r, i, j);
        }
        lemma_align_blocks(s, r, e, j2);
        let rest = align_from(s, r, e, j2);
        if e > i {
            let x: SegView = (s.subrange(i, e), r.subrange(j, j2), SegmentKind::Kanji);
            assert(v == seq![x] + rest);
            assert(v.drop_first() =~= rest);
            lemma_prepend_no_adjacent(x, rest);
            assert(rest.len() == 0 ==> j2 == r.len());
            assert(j <= j <= j2 <= r.len() && v[0].1 == r.subrange(j, j2)
                && (v[0].2 == SegmentKind::Kanji ==> j == j)
                && (v[0].2 == SegmentKind::Kanji && v.len() == 1 ==> j2 == r.len())
                && kanji_readings_contiguous(v.drop_first(), r, j2));
        } else {
            lemma_contiguous_weaken(rest, r, j, j2);
        }
    }
}

/// Law: in `align(surface, reading)` no two kanji blocks are adjacent (a
/// contiguous non-kana run is one block), each kanji block's reading
/// starts exactly where the previous segment's reading ended (at the start
/// of the reading for a leading block), and a final kanji block reads to
/// the end of the reading.
pub proof fn law_align_kanji_blocks(s: Seq<char>, r: Seq<char>)
    ensures
        no_adjacent_kanji(spec_align(s, r)),
        kanji_readings_contiguous(spec_align(s, r), r, 0),
{
    lemma_align_blocks(s, r, 0, 0);
}

/// Law: `map_range` takes every kanji block that the range `[a, b)`
/// touches whole, in the surface and in the reading; when no segment
/// touches the range it gives `(0, 0, a, b)`.
pub proof fn law_map_range_takes_kanji_whole(segs: Seq<SegView>, a: int, b: int, k: int)
    requires
        well_formed_segments(segs),
        0 <= k < segs.len(),
        segs[k].2 == SegmentKind::Kanji,
        overlaps(segs, k, a, b),
    ensures
        ({
            let (rs, re, ss, se) = spec_map_range(segs, a, b);
            &&& ss <= surf_off(segs, k) && surf_off(segs, k + 1) <= se
            &&& rs <= read_off(segs, k) && read_off(segs, k + 1) <= re
        }),
{
    let n = segs.len() as int;
    lemma_first_overlap(segs, a, b, n);
    lemma_last_overlap(segs, a, b, n);
    let k0 = first_overlap(segs, a, b, n)->0;
    let k1 = last_overlap(segs, a, b, n)->0;
    assert(k0 <= k && k <= k1);
    if k0 < k {
        lemma_offsets_monotone(segs, k0 + 1, k);
    }
    if k < k1 {
        lemma_offsets_monotone(segs, k + 1, k1);
    }
}

/// Law: with no segment touching `[a, b)`, `map_range` gives
/// `(0, 0, a, b)`.
pub proof fn law_map_range_untouched(segs: Seq<SegView>, a: int, b: int)
    requires
        forall|k: int| 0 <= k < segs.len() ==> !overlaps(segs, k, a, b),
    ensures
        spec_map_range(segs, a, b) == (0int, 0int, a, b),
{
    let n = segs.len() as int;
    lemma_first_overlap(segs, a, b, n);
    lemma_last_overlap(segs, a, b, n);
    if first_overlap(segs, a, b, n) is Some {
        let x = first_overlap(segs, a, b, n)->0;
        assert(overlaps(segs, x, a, b));
    }
    if last_overlap(segs, a, b, n) is Some {
        let x = last_overlap(segs, a, b, n)->0;
        assert(overlaps(segs, x, a, b));
    }
}

/// Law: on well-formed segments, with `a` in segment `k0` and `b - 1` in
/// segment `k1`, `map_range` gives those segments' offsets: a kanji block
/// at either end is taken whole, a kana segment maps character for
/// character.
pub proof fn law_map_range_by_end_segments(segs: Seq<SegView>, a: int, b: int, k0: int, k1: int)
    requires
        well_formed_segments(segs),
        a < b,
        0 <= k0 < segs.len(),
        0 <= k1 < segs.len(),
        surf_off(segs, k0) <= a < surf_off(segs, k0 + 1),
        surf_off(segs, k1) <= b - 1 < surf_off(segs, k1 + 1),
    ensures
        spec_map_range(segs, a, b) == (
            if segs[k0].2 == SegmentKind::Kanji { read_off(segs, k0) } else { read_off(segs, k0) + (a - surf_off(segs, k0)) },
            if segs[k1].2 == SegmentKind::Kanji { read_off(segs, k1 + 1) } else { read_off(segs, k1) + (b - surf_off(segs, k1)) },
            if segs[k0].2 == SegmentKind::Kanji { surf_off(segs, k0) } else { a },
            if segs[k1].2 == SegmentKind::Kanji { surf_off(segs, k1 + 1) } else { b },
        ),
{
    let n = segs.len() as int;
    lemma_first_overlap(segs, a, b, n);
    lemma_last_overlap(segs, a, b, n);
    assert(overlaps(segs, k0, a, b));
    assert(overlaps(segs, k1, a, b));
    assert(first_overlap(segs, a, b, n) == Some(k0)) by {
        if let Some(x) = first_overlap(segs, a, b, n) {
            if x < k0 {
                lemma_offsets_monotone(segs, x + 1, k0);
            }
        }
    }
    assert(last_overlap(segs, a, b, n) == Some(k1)) by {
        if let Some(x) = last_overlap(segs, a, b, n) {
            if x > k1 {
                lemma_offsets_monotone(segs, k1 + 1, x);
            }
        }
    }
    assert(segs[k0].0.len() > 0);
    assert(segs[k1].0.len() > 0);
}

/// Law: on well-formed segments (such as `align` gives), with `a` in
/// segment `f` and `b - 1` in segment `l`, `map_range` gives exactly the
/// bounds of segments `f..=l`: `(R(f), R(l + 1), S(f), S(l + 1))` for the
/// reading and surface offsets `R` and `S`. So the expanded range contains
/// `[a, b)`, the reading range is ordered, and no segment is partly inside
/// the expanded range.
pub proof fn law_map_range_segment_bounds(segs: Seq<SegView>, a: int, b: int, f: int, l: int)
    requires
        well_formed_segments(segs),
        a < b,
        0 <= f < segs.len(),
        0 <= l < segs.len(),
        surf_off(segs, f) <= a < surf_off(segs, f + 1),
        surf_off(segs, l) <= b - 1 < surf_off(segs, l + 1),
    ensures
        spec_map_range(segs, a, b) == (read_off(segs, f), read_off(segs, l + 1), surf_off(segs, f), surf_off(segs, l + 1)),
        f <= l,
        surf_off(segs, f) <= a && b <= surf_off(segs, l + 1),
        read_off(segs, f) <= read_off(segs, l + 1),
{
    law_map_range_by_end_segments(segs, a, b, f, l);
    assert(f <= l) by {
        if l < f {
            lemma_offsets_monotone(segs, l + 1, f);
        }
    }
    lemma_offsets_monotone(segs, f, l + 1);
}

/// Law: a range that ends at 0 or starts at or after the end of the
/// joined surface touches no segment, and `map_range` gives `(0, 0, a, b)`.
pub proof fn law_map_range_outside(segs: Seq<SegView>, a: int, b: int)
    requires
        b <= 0 || a >= surf_off(segs, segs.len() as int),
    ensures
        spec_map_range(segs, a, b) == (0int, 0int, a, b),
{
    assert forall|k: int| 0 <= k < segs.len() implies !overlaps(segs, k, a, b) by {
        lemma_offsets_monotone(segs, 0, k);
        lemma_offsets_monotone(segs, k + 1, segs.len() as int);
    }
    law_map_range_untouched(segs, a, b);
}

} // verus!
