use lib::engine::{EngineAction, InputMethodEngine, InputState};
use lib::keys::{KeyEvent, Keysym, Modifiers};

fn press(ch: char) -> KeyEvent {
    KeyEvent::new(Keysym::from_char(ch), Modifiers::none())
}

fn press_key(keysym: Keysym) -> KeyEvent {
    KeyEvent::new(keysym, Modifiers::none())
}

#[test]
fn test_passthrough_no_double_counting() {
    // Typing '<' twice should produce "＜＜", not "＜＜＜".
    let mut engine = InputMethodEngine::new();

    engine.process_key(&press('<'));
    assert!(matches!(engine.state(), InputState::Composing { .. }));
    assert_eq!(engine.preedit().unwrap().text(), "＜");

    engine.process_key(&press('<'));
    assert_eq!(engine.preedit().unwrap().text(), "＜＜");
}

#[test]
fn test_thx_chars_not_lost() {
    // Typing "thx" should show "thx" in the preedit, losing no character.
    let mut engine = InputMethodEngine::new();

    engine.process_key(&press('t'));
    assert_eq!(engine.preedit().unwrap().text(), "t");

    engine.process_key(&press('h'));
    assert_eq!(engine.preedit().unwrap().text(), "th");

    engine.process_key(&press('x'));
    let preedit = engine.preedit().unwrap().text().to_string();
    assert_eq!(preedit, "thx", "Should show 'thx', not lose characters");

    let result = engine.process_key(&press_key(Keysym::RETURN));
    let has_commit = result
        .actions
        .iter()
        .any(|a| matches!(a, EngineAction::Commit(text) if text == "thx"));
    assert!(has_commit, "Should commit 'thx'");
}

#[test]
fn test_passthrough_after_hiragana_no_double() {
    let mut engine = InputMethodEngine::new();

    engine.process_key(&press('a'));
    assert_eq!(engine.preedit().unwrap().text(), "あ");

    engine.process_key(&press('<'));
    let preedit = engine.preedit().unwrap().text().to_string();
    assert_eq!(preedit, "あ＜", "Should be 'あ＜', not 'あ＜＜'");

    engine.process_key(&press('<'));
    let preedit = engine.preedit().unwrap().text().to_string();
    assert_eq!(preedit, "あ＜＜", "Should be 'あ＜＜', not 'あ＜＜＜'");
}

#[test]
fn test_digit_starts_input_mode() {
    // A digit from Empty enters Composing instead of committing.
    let mut engine = InputMethodEngine::new();

    let result = engine.process_key(&press('2'));
    assert!(result.consumed);
    assert!(
        matches!(engine.state(), InputState::Composing { .. }),
        "Digit should enter Composing, not stay Empty"
    );
    assert_eq!(engine.preedit().unwrap().text(), "2");

    engine.process_key(&press('0'));
    assert!(matches!(engine.state(), InputState::Composing { .. }));
    assert_eq!(engine.preedit().unwrap().text(), "20");

    engine.process_key(&press('s'));
    engine.process_key(&press('e'));
    engine.process_key(&press('i'));
    engine.process_key(&press('k'));
    engine.process_key(&press('i'));
    assert!(matches!(engine.state(), InputState::Composing { .. }));
    assert_eq!(engine.preedit().unwrap().text(), "20せいき");

    let result = engine.process_key(&press_key(Keysym::RETURN));
    let has_commit = result
        .actions
        .iter()
        .any(|a| matches!(a, EngineAction::Commit(text) if text == "20せいき"));
    assert!(has_commit, "Should commit '20せいき'");
}

#[test]
fn test_digit_in_middle_of_hiragana() {
    let mut engine = InputMethodEngine::new();

    engine.process_key(&press('a'));
    assert_eq!(engine.preedit().unwrap().text(), "あ");

    engine.process_key(&press('2'));
    assert!(matches!(engine.state(), InputState::Composing { .. }));
    assert_eq!(engine.preedit().unwrap().text(), "あ2");
}

#[test]
fn test_backspace_reclaims_passthrough_for_romaji() {
    // "hs" passes 'h' through; backspacing 's' takes 'h' back so that 'a'
    // gives "は", not "hあ".
    let mut engine = InputMethodEngine::new();

    engine.process_key(&press('h'));
    assert_eq!(engine.preedit().unwrap().text(), "h");

    engine.process_key(&press('s'));
    assert_eq!(engine.preedit().unwrap().text(), "hs");

    engine.process_key(&press_key(Keysym::BACKSPACE));
    assert_eq!(engine.preedit().unwrap().text(), "h");

    engine.process_key(&press('a'));
    assert_eq!(engine.preedit().unwrap().text(), "は", "Should produce は, not hあ");
}

#[test]
fn test_backspace_reclaim_with_preceding_hiragana() {
    let mut engine = InputMethodEngine::new();

    engine.process_key(&press('k'));
    engine.process_key(&press('a'));
    assert_eq!(engine.preedit().unwrap().text(), "か");

    engine.process_key(&press('h'));
    engine.process_key(&press('s'));
    assert_eq!(engine.preedit().unwrap().text(), "かhs");

    engine.process_key(&press_key(Keysym::BACKSPACE));
    assert_eq!(engine.preedit().unwrap().text(), "かh");

    engine.process_key(&press('a'));
    assert_eq!(engine.preedit().unwrap().text(), "かは");
}

#[test]
fn test_backspace_reclaims_passthrough_after_hiragana_deletion() {
    // "namko" gives "なmこ"; deleting "こ" takes 'm' back so that "a"
    // gives "なま".
    let mut engine = InputMethodEngine::new();

    for ch in "namko".chars() {
        engine.process_key(&press(ch));
    }
    assert_eq!(engine.preedit().unwrap().text(), "なmこ");

    engine.process_key(&press_key(Keysym::BACKSPACE));
    assert_eq!(engine.preedit().unwrap().text(), "なm");

    engine.process_key(&press('a'));
    assert_eq!(engine.preedit().unwrap().text(), "なま", "Should produce なま, not なmあ");

    engine.process_key(&press('k'));
    engine.process_key(&press('o'));
    assert_eq!(engine.preedit().unwrap().text(), "なまこ");
}

#[test]
fn test_backspace_reclaim_n_before_consonant() {
    // "ns" gives ん + pending s; backspacing 's' takes ん back as 'n'.
    let mut engine = InputMethodEngine::new();

    engine.process_key(&press('n'));
    engine.process_key(&press('s'));
    assert_eq!(engine.preedit().unwrap().text(), "んs");

    engine.process_key(&press_key(Keysym::BACKSPACE));
    assert_eq!(engine.preedit().unwrap().text(), "n");

    engine.process_key(&press('a'));
    assert_eq!(engine.preedit().unwrap().text(), "な", "Should produce な, not んあ");
}
