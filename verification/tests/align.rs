use lib::align::{align, map_range, Segment, SegmentKind};

fn segments_str(segs: &[Segment]) -> Vec<(String, String)> {
    segs.iter()
        .map(|s| (s.surface.clone(), s.reading.clone()))
        .collect()
}

#[test]
fn align_basic() {
    let segs = align("私はペンです", "わたしはぺんです");
    assert_eq!(
        segments_str(&segs),
        vec![
            ("私".to_string(), "わたし".to_string()),
            ("は".to_string(), "は".to_string()),
            ("ペ".to_string(), "ぺ".to_string()),
            ("ン".to_string(), "ん".to_string()),
            ("で".to_string(), "で".to_string()),
            ("す".to_string(), "す".to_string()),
        ]
    );
}

#[test]
fn align_kanji_compound() {
    // No internal kana anchors: the whole compound is one atomic segment.
    let segs = align("会議室", "かいぎしつ");
    assert_eq!(segs.len(), 1);
    assert_eq!(segs[0].surface, "会議室");
    assert_eq!(segs[0].reading, "かいぎしつ");
    assert_eq!(segs[0].kind, SegmentKind::Kanji);
}

#[test]
fn align_okurigana() {
    let segs = align("働きすぎる", "はたらきすぎる");
    assert_eq!(segs[0].surface, "働");
    assert_eq!(segs[0].reading, "はたら");
}

#[test]
fn align_repeated_kana() {
    // "は" appears twice in the reading; the greedy walk picks the first.
    let segs = align("明日は晴れる", "あしたははれる");
    assert_eq!(segs[0].surface, "明日");
    assert_eq!(segs[0].reading, "あした");
}

#[test]
fn map_range_kana_only() {
    let segs = align("はとです", "はとです");
    let (rs, re, ss, se) = map_range(&segs, 0, 2);
    assert_eq!((rs, re), (0, 2));
    assert_eq!((ss, se), (0, 2));
}

#[test]
fn map_range_through_kanji() {
    let segs = align("私はペンです", "わたしはぺんです");
    let (rs, re, ss, se) = map_range(&segs, 2, 4);
    assert_eq!((rs, re), (4, 6));
    assert_eq!((ss, se), (2, 4));
}

#[test]
fn map_range_expands_into_kanji() {
    let segs = align("私はペンです", "わたしはぺんです");
    let (rs, re, ss, se) = map_range(&segs, 0, 1);
    assert_eq!((rs, re), (0, 3));
    assert_eq!((ss, se), (0, 1));
}

#[test]
fn map_range_compound_atomic() {
    let segs = align("会議室", "かいぎしつ");
    // Even if only [0..2] is selected, the whole compound expands.
    let (rs, re, ss, se) = map_range(&segs, 0, 2);
    assert_eq!((rs, re), (0, 5));
    assert_eq!((ss, se), (0, 3));
}
