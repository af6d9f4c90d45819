use lib::align::{align, map_range, SegmentKind};
use lib::candidates::{merge_candidates_dedup, Candidate, CandidateList};
use lib::kana::{
    ascii_to_fullwidth_char, char_of, fullwidth_to_ascii_char, hiragana_to_katakana, is_pure_hiragana,
    katakana_to_half_width, katakana_to_hiragana,
};
use lib::keys::Keysym;
use lib::romaji::{lookup_rule, resolve_keys, settle_keys};
use lib::sources::{sort_candidates_by_score, DictCandidate, KanjiConverter, LearningCache, RewriteRule, RewriteTable};
use lib::text::{decimal, string_of};

fn chars(s: &str) -> Vec<char> {
    s.chars().collect()
}

fn text(v: &[char]) -> String {
    v.iter().collect()
}

#[test]
fn char_of_gives_the_character_of_a_code() {
    assert_eq!(char_of(0x3042), 'あ');
    assert_eq!(char_of(0x41), 'A');
}

#[test]
fn string_of_collects_characters() {
    assert_eq!(string_of(&chars("かなabc")), "かなabc");
    assert_eq!(string_of(&[]), "");
}

#[test]
fn decimal_spells_numbers() {
    assert_eq!(text(&decimal(0)), "0");
    assert_eq!(text(&decimal(120)), "120");
}

#[test]
fn kana_conversions() {
    assert_eq!(text(&hiragana_to_katakana(&chars("がっこう"))), "ガッコウ");
    assert_eq!(text(&katakana_to_hiragana(&chars("ガッコウ"))), "がっこう");
    assert_eq!(text(&katakana_to_half_width(&chars("ガッコウ"))), "ｶﾞｯｺｳ");
    assert_eq!(text(&katakana_to_half_width(&chars("パン"))), "ﾊﾟﾝ");
    assert_eq!(ascii_to_fullwidth_char('A'), 'Ａ');
    assert_eq!(ascii_to_fullwidth_char('あ'), 'あ');
    assert_eq!(fullwidth_to_ascii_char('Ｚ'), 'Z');
    assert!(is_pure_hiragana(&chars("かなー")));
    assert!(!is_pure_hiragana(&chars("カな")));
    assert!(!is_pure_hiragana(&[]));
}

#[test]
fn katakana_round_trip_restores_hiragana() {
    let s = chars("わたしはぺんです");
    assert_eq!(katakana_to_hiragana(&hiragana_to_katakana(&s)), s);
}

#[test]
fn romaji_rules() {
    assert_eq!(lookup_rule(&chars("kya")).map(|v| text(&v)).as_deref(), Some("きゃ"));
    assert_eq!(lookup_rule(&chars("nn")).map(|v| text(&v)).as_deref(), Some("ん"));
    assert_eq!(lookup_rule(&chars("ltsu")).map(|v| text(&v)).as_deref(), Some("っ"));
    assert_eq!(lookup_rule(&chars("-")).map(|v| text(&v)).as_deref(), Some("ー"));
    assert!(lookup_rule(&chars("q")).is_none());
}

#[test]
fn romaji_resolution() {
    let (emitted, pending) = resolve_keys(&chars("kka"));
    assert_eq!(emitted, vec![('っ', Some('k')), ('か', None)]);
    assert!(pending.is_empty());

    let (emitted, pending) = resolve_keys(&chars("thx"));
    assert_eq!(emitted, vec![('t', Some('t')), ('h', Some('h'))]);
    assert_eq!(pending, vec!['x']);

    let (emitted, pending) = resolve_keys(&chars("ns"));
    assert_eq!(emitted, vec![('ん', Some('n'))]);
    assert_eq!(pending, vec!['s']);

    assert_eq!(settle_keys(&chars("n")), vec![('ん', None)]);
    assert_eq!(settle_keys(&chars("ky")), vec![('k', Some('k')), ('y', Some('y'))]);
}

#[test]
fn alignment_partitions_the_surface() {
    let segs = align("働きすぎる", "はたらきすぎる");
    let joined: String = segs.iter().map(|s| s.surface.clone()).collect();
    assert_eq!(joined, "働きすぎる");
    let reading: String = segs.iter().map(|s| s.reading.clone()).collect();
    assert_eq!(reading, "はたらきすぎる");
    assert_eq!(segs[0].kind, SegmentKind::Kanji);
    assert_eq!(segs[1].kind, SegmentKind::Kana);
}

#[test]
fn alignment_of_kana_is_one_to_one() {
    let segs = align("カナ", "かな");
    assert_eq!(segs.len(), 2);
    assert!(segs.iter().all(|s| s.kind == SegmentKind::Kana));
    assert_eq!(segs[0].reading, "か");
}

#[test]
fn map_range_covers_the_selection() {
    let segs = align("会議室で待つ", "かいぎしつでまつ");
    let (rs, re, ss, se) = map_range(&segs, 1, 4);
    assert!(ss <= 1 && 4 <= se);
    assert_eq!((rs, re, ss, se), (0, 6, 0, 4));
}

#[test]
fn merge_keeps_first_occurrences_up_to_the_limit() {
    let a = vec!["a".to_string(), "b".to_string()];
    let b = vec!["b".to_string(), "c".to_string(), "d".to_string()];
    assert_eq!(merge_candidates_dedup(a.clone(), b.clone(), 3), vec!["a", "b", "c"]);
    assert_eq!(merge_candidates_dedup(a, b, 10), vec!["a", "b", "c", "d"]);
}

#[test]
fn sort_by_score_is_stable_and_ascending() {
    let v = vec![
        DictCandidate { surface: "x".to_string(), score: 3 },
        DictCandidate { surface: "y".to_string(), score: 1 },
        DictCandidate { surface: "z".to_string(), score: 3 },
        DictCandidate { surface: "w".to_string(), score: 0 },
    ];
    let sorted: Vec<String> = sort_candidates_by_score(v).into_iter().map(|c| c.surface).collect();
    assert_eq!(sorted, vec!["w", "y", "x", "z"]);
}

#[test]
fn learning_cache_keeps_the_latest_choice_first() {
    let mut cache = LearningCache::new();
    cache.record(&"かな".to_string(), &"仮名".to_string());
    cache.record(&"かな".to_string(), &"カナ".to_string());
    cache.record(&"かなしい".to_string(), &"悲しい".to_string());
    assert_eq!(cache.lookup(&"かな".to_string()), vec![("カナ".to_string(), 1), ("仮名".to_string(), 1)]);
    cache.record(&"かな".to_string(), &"仮名".to_string());
    assert_eq!(cache.lookup(&"かな".to_string()), vec![("仮名".to_string(), 2), ("カナ".to_string(), 1)]);
    assert_eq!(cache.len(), 3);
    let prefixed = cache.prefix_lookup(&"かな".to_string());
    assert_eq!(prefixed.len(), 3);
    assert_eq!(prefixed[0], ("かな".to_string(), "仮名".to_string(), 2));
    assert_eq!(prefixed[1], ("かなしい".to_string(), "悲しい".to_string(), 1));
}

#[test]
fn rewrite_table_offers_variants_in_rule_order() {
    let mut t = RewriteTable::new();
    t.add(RewriteRule { reading: "「".to_string(), variant: "『".to_string(), description: None });
    t.add(RewriteRule { reading: "「".to_string(), variant: "【".to_string(), description: Some("括弧".to_string()) });
    let v = t.rewrite(&"「".to_string());
    assert_eq!(v, vec![("『".to_string(), None), ("【".to_string(), Some("括弧".to_string()))]);
    assert!(t.rewrite(&"」".to_string()).is_empty());
}

#[test]
fn converter_gives_at_most_n_conversions() {
    let mut k = KanjiConverter::new("m".to_string());
    k.add("カナ".to_string(), vec!["仮名".to_string(), "彼方".to_string()]);
    k.add("カナ".to_string(), vec!["hidden".to_string()]);
    assert_eq!(k.convert(&"カナ".to_string(), 1), vec!["仮名"]);
    assert_eq!(k.convert(&"カナ".to_string(), 5), vec!["仮名", "彼方"]);
    assert!(k.convert(&"カ".to_string(), 5).is_empty());
}

#[test]
fn candidate_list_pages() {
    let cands: Vec<Candidate> = (0..20).map(|i| Candidate::new(format!("c{i}"))).collect();
    let mut list = CandidateList::new(cands);
    assert!(list.next_page());
    assert_eq!(list.cursor(), 9);
    assert!(list.next_page());
    assert_eq!(list.cursor(), 18);
    assert!(!list.next_page());
    assert!(list.prev_page());
    assert_eq!(list.cursor(), 9);
    assert!(list.select_on_page(3));
    assert_eq!(list.cursor(), 11);
    assert!(!list.select_on_page(10));
    assert!(list.prev_page());
    assert!(list.move_prev());
    assert_eq!(list.cursor(), 19);
    assert!(list.move_next());
    assert_eq!(list.cursor(), 0);
}

#[test]
fn keysym_digits() {
    assert_eq!(Keysym::Char('3').digit_value(), Some(3));
    assert_eq!(Keysym::Char('0').digit_value(), None);
    assert_eq!(Keysym::F6.digit_value(), None);
    assert_eq!(Keysym::from_char(' '), Keysym::SPACE);
}

#[test]
fn kanji_blocks_are_never_adjacent_and_read_contiguously() {
    let segs = align("私は東京に行く", "わたしはとうきょうにいく");
    for w in segs.windows(2) {
        assert!(!(w[0].kind == SegmentKind::Kanji && w[1].kind == SegmentKind::Kanji));
    }
    let joined: String = segs.iter().map(|s| s.reading.as_str()).collect();
    assert_eq!(joined, "わたしはとうきょうにいく");
    let kanji: Vec<(&str, &str)> = segs
        .iter()
        .filter(|s| s.kind == SegmentKind::Kanji)
        .map(|s| (s.surface.as_str(), s.reading.as_str()))
        .collect();
    assert_eq!(kanji, vec![("私", "わたし"), ("東京", "とうきょう"), ("行", "い")]);
}

#[test]
fn map_range_takes_a_touched_kanji_block_whole() {
    let segs = align("私は東京に行く", "わたしはとうきょうにいく");
    // Surface range covering only "京" expands to the whole "東京" block.
    assert_eq!(map_range(&segs, 3, 4), (4, 9, 2, 4));
}

#[test]
fn map_range_outside_every_segment() {
    let segs = align("はと", "はと");
    assert_eq!(map_range(&segs, 5, 7), (0, 0, 5, 7));
}

#[test]
fn a_final_kanji_block_reads_to_the_end() {
    let segs = align("私は学生", "わたしはがくせい");
    let last = segs.last().unwrap();
    assert_eq!(last.kind, SegmentKind::Kanji);
    assert_eq!((last.surface.as_str(), last.reading.as_str()), ("学生", "がくせい"));
    // "は" maps one for one; "学" is taken with its whole block.
    assert_eq!(map_range(&segs, 1, 3), (3, 8, 1, 4));
}

#[test]
fn map_range_gives_the_bounds_of_the_end_segments() {
    let segs = align("私は東京に行く", "わたしはとうきょうにいく");
    // From "は" to "京": segments "は" .. "東京".
    assert_eq!(map_range(&segs, 1, 4), (3, 9, 1, 4));
    assert_eq!(map_range(&segs, 0, 0), (0, 0, 0, 0));
}
