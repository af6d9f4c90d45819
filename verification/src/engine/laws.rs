//! What every conversion offers: laws over the candidate lists the engine
//! builds.

use vstd::prelude::*;
use super::{InputMethodEngine, InputMode};
use super::conversion::{
    learning_view, learned_cand, push_learned, learned_exact, learned_prefix, spec_learned, learned_ann,
    push_source, push_each, finish_candidate, variant_ann,
};
use crate::candidates::{AnnView, CandView, CandidateSource, ann, push_new, has_ann_text, has_text};
use crate::kana::spec_hira_to_kata;
use crate::sources::{LearnedView, SymbolView, spec_record, spec_lookup, law_record_then_lookup};

verus! {

/// `b` begins with `a`.
pub open spec fn extends(b: Seq<AnnView>, a: Seq<AnnView>) -> bool {
    a.len() <= b.len() && forall|i: int| 0 <= i < a.len() ==> #[trigger] b[i] == a[i]
}

/// No two candidates of `v` have the same text.
pub open spec fn distinct_texts(v: Seq<AnnView>) -> bool {
    forall|i: int, j: int| 0 <= i < j < v.len() ==> #[trigger] v[i].text != #[trigger] v[j].text
}

/// No two learning candidates of `v` have the same text.
pub open spec fn distinct_cand_texts(v: Seq<CandView>) -> bool {
    forall|i: int, j: int| 0 <= i < j < v.len() ==> #[trigger] v[i].text != #[trigger] v[j].text
}

/// No candidate of `v` comes from the learning cache.
pub open spec fn without_learned(v: Seq<AnnView>) -> bool {
    forall|i: int| 0 <= i < v.len() ==> #[trigger] v[i].source != CandidateSource::Learning
}

proof fn lemma_extends_trans(a: Seq<AnnView>, b: Seq<AnnView>, c: Seq<AnnView>)
    requires
        extends(b, a),
        extends(c, b),
    ensures
        extends(c, a),
{
    assert forall|i: int| 0 <= i < a.len() implies #[trigger] c[i] == a[i] by {
        assert(c[i] == b[i]);
    }
}

proof fn lemma_extends_has(a: Seq<AnnView>, b: Seq<AnnView>, t: Seq<char>)
    requires
        extends(b, a),
        has_ann_text(a, t),
    ensures
        has_ann_text(b, t),
{
    let i = choose|i: int| 0 <= i < a.len() && #[trigger] a[i].text == t;
    assert(b[i] == a[i]);
}

proof fn lemma_push_new(acc: Seq<AnnView>, c: AnnView)
    ensures
        extends(push_new(acc, c), acc),
        has_ann_text(push_new(acc, c), c.text),
        distinct_texts(acc) ==> distinct_texts(push_new(acc, c)),
        without_learned(acc) && c.source != CandidateSource::Learning ==> without_learned(push_new(acc, c)),
{
    let r = push_new(acc, c);
    if !has_ann_text(acc, c.text) {
        assert(r[acc.len() as int] == c);
        if distinct_texts(acc) {
            assert forall|i: int, j: int| 0 <= i < j < r.len() implies #[trigger] r[i].text != #[trigger] r[j].text by {
                if j == acc.len() {
                    assert(r[i] == acc[i]);
                }
            }
        }
        if without_learned(acc) && c.source != CandidateSource::Learning {
            assert forall|i: int| 0 <= i < r.len() implies #[trigger] r[i].source != CandidateSource::Learning by {
                if i < acc.len() {
                    assert(r[i] == acc[i]);
                }
            }
        }
    }
}

proof fn lemma_push_source(acc: Seq<AnnView>, s: Seq<AnnView>, src: CandidateSource)
    ensures
        extends(push_source(acc, s, src), acc),
        distinct_texts(acc) ==> distinct_texts(push_source(acc, s, src)),
        without_learned(acc) && src != CandidateSource::Learning ==> without_learned(push_source(acc, s, src)),
    decreases s.len(),
{
    if s.len() > 0 {
        lemma_push_source(acc, s.drop_last(), src);
        let a = push_source(acc, s.drop_last(), src);
        if s.last().source == src {
            lemma_push_new(a, s.last());
            lemma_extends_trans(acc, a, push_source(acc, s, src));
        }
    }
}

proof fn lemma_push_each(acc: Seq<AnnView>, s: Seq<AnnView>)
    ensures
        extends(push_each(acc, s), acc),
        distinct_texts(acc) ==> distinct_texts(push_each(acc, s)),
        without_learned(acc) && without_learned(s) ==> without_learned(push_each(acc, s)),
    decreases s.len(),
{
    if s.len() > 0 {
        lemma_push_each(acc, s.drop_last());
        let a = push_each(acc, s.drop_last());
        assert(without_learned(s) ==> without_learned(s.drop_last())) by {
            if without_learned(s) {
                assert forall|i: int| 0 <= i < s.drop_last().len() implies
                    #[trigger] s.drop_last()[i].source != CandidateSource::Learning by {
                    assert(s.drop_last()[i] == s[i]);
                }
            }
        }
        assert(without_learned(s) ==> s.last().source != CandidateSource::Learning) by {
            if without_learned(s) {
                assert(s[s.len() - 1].source != CandidateSource::Learning);
            }
        }
        lemma_push_new(a, s.last());
        lemma_extends_trans(acc, a, push_each(acc, s));
    }
}

proof fn lemma_push_learned(acc: Seq<CandView>, c: CandView)
    ensures
        push_learned(acc, c).len() >= acc.len(),
        forall|i: int| 0 <= i < acc.len() ==> #[trigger] push_learned(acc, c)[i] == acc[i],
        acc.len() == 0 ==> push_learned(acc, c) == seq![c],
        distinct_cand_texts(acc) ==> distinct_cand_texts(push_learned(acc, c)),
{
    let r = push_learned(acc, c);
    if !(acc.len() >= 3 || has_text(acc, c.text)) {
        assert(r[acc.len() as int] == c);
        if acc.len() == 0 {
            assert(r =~= seq![c]);
        }
        if distinct_cand_texts(acc) {
            assert forall|i: int, j: int| 0 <= i < j < r.len() implies #[trigger] r[i].text != #[trigger] r[j].text by {
                if j == acc.len() {
                    assert(r[i] == acc[i]);
                }
            }
        }
    }
}

proof fn lemma_learned_exact(s: Seq<(Seq<char>, u64)>, r: Seq<char>)
    ensures
        s.len() > 0 ==> learned_exact(seq![], s, r).len() > 0
            && learned_exact(seq![], s, r)[0] == learned_cand(s[0].0, r),
        distinct_cand_texts(learned_exact(seq![], s, r)),
    decreases s.len(),
{
    if s.len() > 0 {
        lemma_learned_exact(s.drop_last(), r);
        let a = learned_exact(seq![], s.drop_last(), r);
        lemma_push_learned(a, learned_cand(s.last().0, r));
        if s.len() == 1 {
            assert(s.drop_last() =~= Seq::<(Seq<char>, u64)>::empty());
        } else {
            assert(s.drop_last()[0] == s[0]);
        }
    }
}

proof fn lemma_learned_prefix(acc: Seq<CandView>, s: Seq<LearnedView>, r: Seq<char>)
    ensures
        learned_prefix(acc, s, r).len() >= acc.len(),
        forall|i: int| 0 <= i < acc.len() ==> #[trigger] learned_prefix(acc, s, r)[i] == acc[i],
        distinct_cand_texts(acc) ==> distinct_cand_texts(learned_prefix(acc, s, r)),
    decreases s.len(),
{
    if s.len() > 0 {
        lemma_learned_prefix(acc, s.drop_last(), r);
        let a = learned_prefix(acc, s.drop_last(), r);
        if s.last().0 != r {
            lemma_push_learned(a, learned_cand(s.last().1, s.last().0));
            assert forall|i: int| 0 <= i < acc.len() implies #[trigger] learned_prefix(acc, s, r)[i] == acc[i] by {
                assert(a[i] == acc[i]);
            }
        }
    }
}

/// The learning candidates of any cache have distinct texts.
proof fn lemma_learned_distinct(v: Seq<LearnedView>, r: Seq<char>)
    ensures
        distinct_cand_texts(spec_learned(v, r)),
{
    lemma_learned_exact(spec_lookup(v, r), r);
    lemma_learned_prefix(learned_exact(seq![], spec_lookup(v, r), r), crate::sources::spec_prefix_lookup(v, r), r);
}

/// The candidates `v` as finally shown, with symbol descriptions from `t`
/// and width annotations.
pub open spec fn annotated(t: Seq<SymbolView>, v: Seq<AnnView>) -> Seq<AnnView> {
    v.map_values(|c: AnnView| finish_candidate(t, c))
}

/// Descriptions and annotations keep each candidate's text and source.
proof fn lemma_annotate(t: Seq<SymbolView>, v: Seq<AnnView>)
    ensures
        annotated(t, v).len() == v.len(),
        forall|i: int| 0 <= i < v.len() ==> (#[trigger] annotated(t, v)[i]).text == v[i].text
            && annotated(t, v)[i].source == v[i].source,
{
}

/// The candidates before the width annotation.
pub open spec fn unannotated(e: InputMethodEngine, r: Seq<char>, n: usize, skip_learning: bool) -> Seq<AnnView> {
    let model = e.spec_model_conversions(r, n);
    let dict = e.spec_dict_search(r, usize::MAX as int);
    let a1 = if skip_learning {
        seq![]
    } else {
        e.spec_learning_candidates(r).map_values(|c: CandView| learned_ann(c, r))
    };
    let a2 = push_source(a1, dict, CandidateSource::UserDictionary);
    let a3 = push_each(a2, model.map_values(|t: Seq<char>| ann(t, CandidateSource::Model)));
    let a4 = push_source(a3, dict, CandidateSource::Dictionary);
    let a5 = if e.input_mode != InputMode::Emoji {
        push_new(
            push_new(a4, ann(r, CandidateSource::Fallback)),
            ann(r.map_values(|c: char| spec_hira_to_kata(c)), CandidateSource::Fallback),
        )
    } else {
        a4
    };
    let variants = crate::sources::spec_rewrite(e.converters.rewriters.view(), r).map_values(
        |v: (Seq<char>, Option<Seq<char>>)| variant_ann(v),
    );
    push_each(a5, variants)
}

/// The steps of `unannotated`: the first learning candidates stay first,
/// texts stay distinct, and nothing but the learning step adds a
/// learning candidate; in all modes but emoji the reading and its
/// katakana form are among the candidates.
proof fn lemma_unannotated(e: InputMethodEngine, r: Seq<char>, n: usize, skip_learning: bool)
    ensures
        ({
            let a1 = if skip_learning {
                seq![]
            } else {
                e.spec_learning_candidates(r).map_values(|c: CandView| learned_ann(c, r))
            };
            let u = unannotated(e, r, n, skip_learning);
            &&& extends(u, a1)
            &&& distinct_texts(a1) ==> distinct_texts(u)
            &&& skip_learning ==> without_learned(u)
            &&& e.input_mode != InputMode::Emoji ==> has_ann_text(u, r)
                && has_ann_text(u, r.map_values(|c: char| spec_hira_to_kata(c)))
        }),
{
    let model = e.spec_model_conversions(r, n);
    let dict = e.spec_dict_search(r, usize::MAX as int);
    let a1 = if skip_learning {
        seq![]
    } else {
        e.spec_learning_candidates(r).map_values(|c: CandView| learned_ann(c, r))
    };
    let a2 = push_source(a1, dict, CandidateSource::UserDictionary);
    lemma_push_source(a1, dict, CandidateSource::UserDictionary);
    let mv = model.map_values(|t: Seq<char>| ann(t, CandidateSource::Model));
    let a3 = push_each(a2, mv);
    assert(without_learned(mv));
    lemma_push_each(a2, mv);
    lemma_extends_trans(a1, a2, a3);
    let a4 = push_source(a3, dict, CandidateSource::Dictionary);
    lemma_push_source(a3, dict, CandidateSource::Dictionary);
    lemma_extends_trans(a1, a3, a4);
    let kata = r.map_values(|c: char| spec_hira_to_kata(c));
    let b = push_new(a4, ann(r, CandidateSource::Fallback));
    let a5 = if e.input_mode != InputMode::Emoji { push_new(b, ann(kata, CandidateSource::Fallback)) } else { a4 };
    if e.input_mode != InputMode::Emoji {
        lemma_push_new(a4, ann(r, CandidateSource::Fallback));
        lemma_push_new(b, ann(kata, CandidateSource::Fallback));
        lemma_extends_trans(a4, b, a5);
        lemma_extends_has(b, a5, r);
    }
    lemma_extends_trans(a1, a4, a5);
    let variants = crate::sources::spec_rewrite(e.converters.rewriters.view(), r).map_values(
        |v: (Seq<char>, Option<Seq<char>>)| variant_ann(v),
    );
    assert(without_learned(variants));
    lemma_push_each(a5, variants);
    lemma_extends_trans(a1, a5, push_each(a5, variants));
    if e.input_mode != InputMode::Emoji {
        lemma_extends_has(a5, push_each(a5, variants), r);
        lemma_extends_has(a5, push_each(a5, variants), kata);
    }
    if skip_learning {
        assert(without_learned(a1));
    }
}

/// Law: once `s` has been chosen for the reading `r`, it is the first
/// candidate offered for `r`: first among the learning candidates shown
/// while typing, and first among the candidates of a conversion that
/// consults the learning cache.
pub proof fn law_chosen_conversion_comes_first(e: InputMethodEngine, v: Seq<LearnedView>, r: Seq<char>, s: Seq<char>, n: usize)
    requires
        learning_view(e.learning) == Some(spec_record(v, r, s)),
    ensures
        e.spec_learning_candidates(r).len() > 0,
        e.spec_learning_candidates(r)[0].text == s,
        e.spec_conversion_candidates(r, n, false).len() > 0,
        e.spec_conversion_candidates(r, n, false)[0].text == s,
{
    let w = spec_record(v, r, s);
    law_record_then_lookup(v, r, s);
    lemma_learned_exact(spec_lookup(w, r), r);
    let ex = learned_exact(seq![], spec_lookup(w, r), r);
    lemma_learned_prefix(ex, crate::sources::spec_prefix_lookup(w, r), r);
    assert(e.spec_learning_candidates(r) == spec_learned(w, r));
    assert(spec_learned(w, r)[0] == ex[0]);
    let a1 = e.spec_learning_candidates(r).map_values(|c: CandView| learned_ann(c, r));
    lemma_unannotated(e, r, n, false);
    let u = unannotated(e, r, n, false);
    assert(u[0] == a1[0]);
    lemma_annotate(e.converters.symbols.view(), u);
    assert(e.spec_conversion_candidates(r, n, false) == annotated(e.converters.symbols.view(), u));
}

/// Law: the candidates of a conversion never repeat a text.
pub proof fn law_conversion_candidates_distinct(e: InputMethodEngine, r: Seq<char>, n: usize, skip_learning: bool)
    ensures
        forall|i: int, j: int| 0 <= i < j < e.spec_conversion_candidates(r, n, skip_learning).len() ==>
            e.spec_conversion_candidates(r, n, skip_learning)[i].text
                != e.spec_conversion_candidates(r, n, skip_learning)[j].text,
{
    let a1 = if skip_learning {
        seq![]
    } else {
        e.spec_learning_candidates(r).map_values(|c: CandView| learned_ann(c, r))
    };
    if !skip_learning {
        match e.learning {
            Some(c) => lemma_learned_distinct(c.view(), r),
            None => {},
        }
        let l = e.spec_learning_candidates(r);
        assert forall|i: int, j: int| 0 <= i < j < a1.len() implies #[trigger] a1[i].text != #[trigger] a1[j].text by {
            assert(a1[i].text == l[i].text);
            assert(a1[j].text == l[j].text);
        }
    }
    lemma_unannotated(e, r, n, skip_learning);
    let u = unannotated(e, r, n, skip_learning);
    lemma_annotate(e.converters.symbols.view(), u);
    assert(e.spec_conversion_candidates(r, n, skip_learning) == annotated(e.converters.symbols.view(), u));
    let c = e.spec_conversion_candidates(r, n, skip_learning);
    assert forall|i: int, j: int| 0 <= i < j < c.len() implies c[i].text != c[j].text by {
        assert(c[i].text == u[i].text);
        assert(c[j].text == u[j].text);
    }
}

/// Law: a conversion that leaves out the learning cache (Shift+Space)
/// offers no learning candidate.
pub proof fn law_skip_learning_leaves_out_learned(e: InputMethodEngine, r: Seq<char>, n: usize)
    ensures
        forall|i: int| 0 <= i < e.spec_conversion_candidates(r, n, true).len() ==>
            e.spec_conversion_candidates(r, n, true)[i].source != CandidateSource::Learning,
{
    lemma_unannotated(e, r, n, true);
    let u = unannotated(e, r, n, true);
    lemma_annotate(e.converters.symbols.view(), u);
    assert(e.spec_conversion_candidates(r, n, true) == annotated(e.converters.symbols.view(), u));
    let c = e.spec_conversion_candidates(r, n, true);
    assert forall|i: int| 0 <= i < c.len() implies c[i].source != CandidateSource::Learning by {
        assert(c[i].source == u[i].source);
    }
}

/// Law: outside emoji mode a conversion always offers the reading itself
/// and its katakana form.
pub proof fn law_conversion_offers_kana_forms(e: InputMethodEngine, r: Seq<char>, n: usize, skip_learning: bool)
    requires
        e.input_mode != InputMode::Emoji,
    ensures
        has_ann_text(e.spec_conversion_candidates(r, n, skip_learning), r),
        has_ann_text(e.spec_conversion_candidates(r, n, skip_learning), r.map_values(|c: char| spec_hira_to_kata(c))),
{
    lemma_unannotated(e, r, n, skip_learning);
    let u = unannotated(e, r, n, skip_learning);
    lemma_annotate(e.converters.symbols.view(), u);
    assert(e.spec_conversion_candidates(r, n, skip_learning) == annotated(e.converters.symbols.view(), u));
    let c = e.spec_conversion_candidates(r, n, skip_learning);
    let kata = r.map_values(|c: char| spec_hira_to_kata(c));
    let i = choose|i: int| 0 <= i < u.len() && #[trigger] u[i].text == r;
    assert(c[i].text == r);
    let j = choose|j: int| 0 <= j < u.len() && #[trigger] u[j].text == kata;
    assert(c[j].text == kata);
}

/// The place of a candidate source in the conversion's priority order.
pub open spec fn source_rank(s: CandidateSource) -> int {
    match s {
        CandidateSource::Learning => 0,
        CandidateSource::UserDictionary => 1,
        CandidateSource::Model => 2,
        CandidateSource::Dictionary => 3,
        CandidateSource::Fallback => 4,
        CandidateSource::Rewriter => 5,
    }
}

/// The candidates of `v` come in priority order of their sources, none
/// ranked after `k`.
pub open spec fn ranked_upto(v: Seq<AnnView>, k: int) -> bool {
    &&& forall|i: int, j: int| 0 <= i < j < v.len() ==>
        source_rank(#[trigger] v[i].source) <= source_rank(#[trigger] v[j].source)
    &&& forall|i: int| 0 <= i < v.len() ==> source_rank(#[trigger] v[i].source) <= k
}

proof fn lemma_ranked_weaken(v: Seq<AnnView>, k: int, k2: int)
    requires
        ranked_upto(v, k),
        k <= k2,
    ensures
        ranked_upto(v, k2),
{
}

proof fn lemma_rank_push_new(acc: Seq<AnnView>, c: AnnView)
    requires
        ranked_upto(acc, source_rank(c.source)),
    ensures
        ranked_upto(push_new(acc, c), source_rank(c.source)),
{
    let r = push_new(acc, c);
    if !has_ann_text(acc, c.text) {
        assert(r[acc.len() as int] == c);
        assert forall|i: int, j: int| 0 <= i < j < r.len() implies
            source_rank(#[trigger] r[i].source) <= source_rank(#[trigger] r[j].source) by {
            assert(r[i] == acc[i]);
            if j < acc.len() {
                assert(r[j] == acc[j]);
            }
        }
        assert forall|i: int| 0 <= i < r.len() implies source_rank(#[trigger] r[i].source) <= source_rank(c.source) by {
            if i < acc.len() {
                assert(r[i] == acc[i]);
            }
        }
    }
}

proof fn lemma_rank_push_source(acc: Seq<AnnView>, s: Seq<AnnView>, src: CandidateSource)
    requires
        ranked_upto(acc, source_rank(src)),
    ensures
        ranked_upto(push_source(acc, s, src), source_rank(src)),
    decreases s.len(),
{
    if s.len() > 0 {
        lemma_rank_push_source(acc, s.drop_last(), src);
        let a = push_source(acc, s.drop_last(), src);
        if s.last().source == src {
            lemma_rank_push_new(a, s.last());
        }
    }
}

proof fn lemma_rank_push_each(acc: Seq<AnnView>, s: Seq<AnnView>, k: int)
    requires
        ranked_upto(acc, k),
        forall|i: int| 0 <= i < s.len() ==> source_rank(#[trigger] s[i].source) == k,
    ensures
        ranked_upto(push_each(acc, s), k),
    decreases s.len(),
{
    if s.len() > 0 {
        let d = s.drop_last();
        assert forall|i: int| 0 <= i < d.len() implies source_rank(#[trigger] d[i].source) == k by {
            assert(d[i] == s[i]);
        }
        lemma_rank_push_each(acc, d, k);
        assert(source_rank(s.last().source) == k);
        lemma_rank_push_new(push_each(acc, d), s.last());
    }
}

/// Law: a conversion offers its candidates in the priority order of their
/// sources (learning, user dictionary, converter, system dictionary, the
/// kana forms as fallback, rewriter variants), and unless the learning
/// cache is left out, the learning candidates for the reading lead, in
/// their own order.
pub proof fn law_conversion_candidates_ranked(e: InputMethodEngine, r: Seq<char>, n: usize, skip_learning: bool)
    ensures
        ({
            let c = e.spec_conversion_candidates(r, n, skip_learning);
            &&& forall|i: int, j: int| 0 <= i < j < c.len() ==>
                source_rank(#[trigger] c[i].source) <= source_rank(#[trigger] c[j].source)
            &&& !skip_learning ==> {
                let l = e.spec_learning_candidates(r);
                &&& l.len() <= c.len()
                &&& forall|i: int| 0 <= i < l.len() ==> (#[trigger] c[i]).text == l[i].text
                    && c[i].source == CandidateSource::Learning
            }
        }),
{
    let model = e.spec_model_conversions(r, n);
    let dict = e.spec_dict_search(r, usize::MAX as int);
    let a1 = if skip_learning {
        seq![]
    } else {
        e.spec_learning_candidates(r).map_values(|c: CandView| learned_ann(c, r))
    };
    assert(ranked_upto(a1, 0));
    lemma_ranked_weaken(a1, 0, 1);
    let a2 = push_source(a1, dict, CandidateSource::UserDictionary);
    lemma_rank_push_source(a1, dict, CandidateSource::UserDictionary);
    lemma_ranked_weaken(a2, 1, 2);
    let mv = model.map_values(|t: Seq<char>| ann(t, CandidateSource::Model));
    let a3 = push_each(a2, mv);
    lemma_rank_push_each(a2, mv, 2);
    lemma_ranked_weaken(a3, 2, 3);
    let a4 = push_source(a3, dict, CandidateSource::Dictionary);
    lemma_rank_push_source(a3, dict, CandidateSource::Dictionary);
    lemma_ranked_weaken(a4, 3, 4);
    let kata = r.map_values(|c: char| spec_hira_to_kata(c));
    let b = push_new(a4, ann(r, CandidateSource::Fallback));
    let a5 = if e.input_mode != InputMode::Emoji { push_new(b, ann(kata, CandidateSource::Fallback)) } else { a4 };
    if e.input_mode != InputMode::Emoji {
        lemma_rank_push_new(a4, ann(r, CandidateSource::Fallback));
        lemma_rank_push_new(b, ann(kata, CandidateSource::Fallback));
    }
    lemma_ranked_weaken(a5, 4, 5);
    let variants = crate::sources::spec_rewrite(e.converters.rewriters.view(), r).map_values(
        |v: (Seq<char>, Option<Seq<char>>)| variant_ann(v),
    );
    lemma_rank_push_each(a5, variants, 5);
    let u = unannotated(e, r, n, skip_learning);
    assert(u == push_each(a5, variants));
    lemma_unannotated(e, r, n, skip_learning);
    lemma_annotate(e.converters.symbols.view(), u);
    assert(e.spec_conversion_candidates(r, n, skip_learning) == annotated(e.converters.symbols.view(), u));
    let c = e.spec_conversion_candidates(r, n, skip_learning);
    assert forall|i: int, j: int| 0 <= i < j < c.len() implies
        source_rank(#[trigger] c[i].source) <= source_rank(#[trigger] c[j].source) by {
        assert(c[i].source == u[i].source);
        assert(c[j].source == u[j].source);
    }
    if !skip_learning {
        let l = e.spec_learning_candidates(r);
        assert forall|i: int| 0 <= i < l.len() implies (#[trigger] c[i]).text == l[i].text
            && c[i].source == CandidateSource::Learning by {
            assert(u[i] == a1[i]);
            assert(c[i].text == u[i].text);
            assert(c[i].source == u[i].source);
        }
    }
}

proof fn lemma_append_dedup_distinct(acc: Seq<CandView>, s: Seq<CandView>)
    requires
        distinct_cand_texts(acc),
    ensures
        distinct_cand_texts(crate::candidates::append_dedup(acc, s)),
    decreases s.len(),
{
    if s.len() > 0 {
        let acc2 = if has_text(acc, s[0].text) { acc } else { acc.push(s[0]) };
        if !has_text(acc, s[0].text) {
            assert forall|i: int, j: int| 0 <= i < j < acc2.len() implies #[trigger] acc2[i].text != #[trigger] acc2[j].text by {
                assert(acc2[i] == acc[i]);
                if j < acc.len() {
                    assert(acc2[j] == acc[j]);
                } else {
                    assert(acc2[j] == s[0]);
                }
            }
        }
        lemma_append_dedup_distinct(acc2, s.drop_first());
    }
}

/// Law: the suggestions offered while typing never repeat a text.
pub proof fn law_suggestions_distinct(e: InputMethodEngine)
    ensures
        e.spec_suggestions() matches Some(v) ==> distinct_cand_texts(v),
{
    let r = e.input_buf@.text;
    match e.learning {
        Some(c) => lemma_learned_distinct(c.view(), r),
        None => {},
    }
    let learned = e.spec_learning_candidates(r);
    assert(distinct_cand_texts(learned));
    let dict = e.spec_dict_search(r, crate::candidates::CandidateList::DEFAULT_PAGE_SIZE as int).map_values(
        |c: AnnView| super::conversion::dict_cand(c, r),
    );
    let variants = crate::sources::spec_rewrite(e.converters.rewriters.view(), r).map_values(
        |v: (Seq<char>, Option<Seq<char>>)| super::conversion::variant_cand(v, r),
    );
    let ld = crate::candidates::append_dedup(learned, dict);
    lemma_append_dedup_distinct(learned, dict);
    lemma_append_dedup_distinct(ld, variants);
    match e.spec_suggest_model() {
        Some(m) => {
            let mc = m.map_values(|t: Seq<char>| super::composing::model_cand(t, r));
            let lm = crate::candidates::append_dedup(learned, mc);
            lemma_append_dedup_distinct(learned, mc);
            lemma_append_dedup_distinct(lm, dict);
        },
        None => {},
    }
}

} // verus!
