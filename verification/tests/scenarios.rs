use lib::engine::{ConversionStrategy, EngineAction, EngineConfig, EngineResult, InputMethodEngine, InputState};
use lib::keys::{KeyEvent, Keysym, Modifiers};
use lib::sources::{DictCandidate, Dictionary, KanjiConverter, RewriteRule};

fn press(ch: char) -> KeyEvent {
    KeyEvent::new(Keysym::from_char(ch), Modifiers::none())
}

fn press_key(keysym: Keysym) -> KeyEvent {
    KeyEvent::new(keysym, Modifiers::none())
}

fn press_shift_key(keysym: Keysym) -> KeyEvent {
    KeyEvent::new(keysym, Modifiers::shift())
}

fn press_ctrl(keysym: Keysym) -> KeyEvent {
    KeyEvent::new(keysym, Modifiers { shift_key: false, control_key: true, alt_key: false })
}

fn type_str(engine: &mut InputMethodEngine, s: &str) -> Vec<EngineResult> {
    s.chars().map(|ch| engine.process_key(&press(ch))).collect()
}

fn commit_of(result: &EngineResult) -> Option<String> {
    result.actions.iter().find_map(|a| match a {
        EngineAction::Commit(text) => Some(text.clone()),
        _ => None,
    })
}

fn preedit_text(engine: &InputMethodEngine) -> String {
    engine.preedit().map(|p| p.text().to_string()).unwrap_or_default()
}

fn candidate_texts(engine: &InputMethodEngine) -> Vec<String> {
    let list = engine.state().candidates().expect("conversion state expected");
    (0..list.len()).map(|i| list.get(i).unwrap().text.clone()).collect()
}

fn selected_text(engine: &InputMethodEngine) -> String {
    engine
        .state()
        .candidates()
        .and_then(|c| c.selected())
        .map(|c| c.text.clone())
        .unwrap_or_default()
}

fn engine_with_converter() -> InputMethodEngine {
    let mut e = InputMethodEngine::new();
    let mut k = KanjiConverter::new("jinen".to_string());
    k.add("ワタシハペンデス".to_string(), vec!["私はペンです".to_string()]);
    k.add("ペン".to_string(), vec!["便".to_string(), "ペン".to_string()]);
    e.converters.kanji = Some(k);
    e
}

#[test]
fn reconvert_a_word_inside_a_live_conversion() {
    // わたしはぺんです -> live 私はペンです -> select ペン -> 便 -> 私は便です
    let mut e = engine_with_converter();
    type_str(&mut e, "watashihapendesu");
    assert_eq!(preedit_text(&e), "私はペンです");

    e.process_key(&press_shift_key(Keysym::LEFT));
    assert_eq!(e.input_buf.reading(), "私はペンです");
    assert_eq!(e.input_buf.selection_range(), Some((5, 6)));
    e.process_key(&press_key(Keysym::LEFT));
    e.process_key(&press_shift_key(Keysym::LEFT));
    e.process_key(&press_shift_key(Keysym::LEFT));
    assert_eq!(e.input_buf.selection_range(), Some((2, 4)));

    e.process_key(&press_key(Keysym::SPACE));
    assert!(matches!(e.state(), InputState::Conversion { .. }));
    assert_eq!(e.state().reading().unwrap(), "ぺん");
    assert_eq!(candidate_texts(&e), vec!["便", "ペン", "ぺん"]);
    assert_eq!(preedit_text(&e), "私は便です");

    let r = e.process_key(&press_key(Keysym::RETURN));
    assert!(commit_of(&r).is_none());
    assert_eq!(e.input_buf.reading(), "私は便です");

    let r = e.process_key(&press_key(Keysym::RETURN));
    assert_eq!(commit_of(&r).as_deref(), Some("私は便です"));
    assert!(matches!(e.state(), InputState::Empty));
}

#[test]
fn a_chosen_conversion_is_offered_first_next_time() {
    let mut e = engine_with_converter();
    type_str(&mut e, "pen");
    e.process_key(&press_key(Keysym::SPACE));
    assert_eq!(candidate_texts(&e), vec!["便", "ペン", "ぺん"]);
    // Choose the second candidate
    e.process_key(&press_key(Keysym::SPACE));
    assert_eq!(selected_text(&e), "ペン");
    let r = e.process_key(&press_key(Keysym::RETURN));
    assert_eq!(commit_of(&r).as_deref(), Some("ペン"));

    type_str(&mut e, "pen");
    e.process_key(&press_key(Keysym::SPACE));
    assert_eq!(selected_text(&e), "ペン");
    let first = e.state().candidates().unwrap().get(0).unwrap();
    assert_eq!(first.source_label.as_deref(), Some("📝 学習"));
}

#[test]
fn shift_space_leaves_out_learned_candidates() {
    let mut e = engine_with_converter();
    type_str(&mut e, "pen");
    e.process_key(&press_key(Keysym::SPACE));
    e.process_key(&press_key(Keysym::SPACE));
    e.process_key(&press_key(Keysym::RETURN));

    type_str(&mut e, "pen");
    e.process_key(&press_shift_key(Keysym::SPACE));
    let list = e.state().candidates().unwrap();
    for i in 0..list.len() {
        assert_ne!(list.get(i).unwrap().source_label.as_deref(), Some("📝 学習"));
    }
    assert_eq!(candidate_texts(&e), vec!["便", "ペン", "ぺん"]);
}

#[test]
fn candidate_texts_are_distinct() {
    let mut e = engine_with_converter();
    type_str(&mut e, "pen");
    e.process_key(&press_key(Keysym::SPACE));
    let texts = candidate_texts(&e);
    for i in 0..texts.len() {
        for j in (i + 1)..texts.len() {
            assert_ne!(texts[i], texts[j]);
        }
    }
}

#[test]
fn conversion_offers_the_hiragana_and_katakana_forms() {
    let mut e = InputMethodEngine::new();
    type_str(&mut e, "kana");
    e.process_key(&press_key(Keysym::SPACE));
    assert_eq!(candidate_texts(&e), vec!["かな", "カナ"]);
    let list = e.state().candidates().unwrap();
    assert_eq!(list.get(0).unwrap().description.as_deref(), Some("[全]ひらがな"));
    assert_eq!(list.get(1).unwrap().description.as_deref(), Some("[全]カタカナ"));
}

#[test]
fn dictionaries_come_in_priority_order() {
    let mut e = InputMethodEngine::new();
    let mut user = Dictionary::new();
    user.add_entry("かな".to_string(), vec![DictCandidate { surface: "仮名".to_string(), score: 0 }]);
    let mut system = Dictionary::new();
    system.add_entry(
        "かな".to_string(),
        vec![
            DictCandidate { surface: "哉".to_string(), score: 5 },
            DictCandidate { surface: "叶".to_string(), score: 1 },
            DictCandidate { surface: "仮名".to_string(), score: 0 },
        ],
    );
    e.dicts.user = Some(user);
    e.dicts.system = Some(system);
    type_str(&mut e, "kana");
    e.process_key(&press_key(Keysym::SPACE));
    assert_eq!(candidate_texts(&e), vec!["仮名", "叶", "哉", "かな", "カナ"]);
}

#[test]
fn trailing_n_becomes_n_kana_on_commit() {
    let mut e = InputMethodEngine::new();
    type_str(&mut e, "kan");
    assert_eq!(preedit_text(&e), "かn");
    let r = e.process_key(&press_key(Keysym::RETURN));
    assert_eq!(commit_of(&r).as_deref(), Some("かん"));
}

#[test]
fn trailing_n_becomes_n_kana_on_conversion() {
    let mut e = InputMethodEngine::new();
    type_str(&mut e, "kan");
    e.process_key(&press_key(Keysym::SPACE));
    assert_eq!(e.state().reading().unwrap(), "かん");
}

#[test]
fn aux_line_stays_empty_when_disabled() {
    let mut e = InputMethodEngine::with_config(EngineConfig { show_aux_text: false, ..EngineConfig::default() });
    let mut results = type_str(&mut e, "kana");
    results.push(e.process_key(&press_key(Keysym::SPACE)));
    results.push(e.process_key(&press_key(Keysym::SPACE)));
    results.push(e.process_key(&press_key(Keysym::ESCAPE)));
    results.push(e.process_key(&press_key(Keysym::LEFT)));
    results.push(e.process_key(&press_shift_key(Keysym::LEFT)));
    results.push(e.process_key(&press_key(Keysym::BACKSPACE)));
    results.push(e.process_key(&press_key(Keysym::RETURN)));
    for r in &results {
        for a in &r.actions {
            if let EngineAction::UpdateAuxText(t) = a {
                assert_eq!(t, "");
            }
        }
    }
}

#[test]
fn aux_line_shows_mode_and_reading() {
    let mut e = InputMethodEngine::new();
    let r = e.process_key(&press('a'));
    let aux = r.actions.iter().find_map(|a| match a {
        EngineAction::UpdateAuxText(t) => Some(t.clone()),
        _ => None,
    });
    assert_eq!(aux.as_deref(), Some("[あ] あ"));
}

#[test]
fn conversion_aux_shows_position() {
    let mut e = InputMethodEngine::new();
    type_str(&mut e, "kana");
    let r = e.process_key(&press_key(Keysym::SPACE));
    let aux = r.actions.iter().find_map(|a| match a {
        EngineAction::UpdateAuxText(t) => Some(t.clone()),
        _ => None,
    });
    assert_eq!(aux.as_deref(), Some("[あ] かな 1/2"));
}

#[test]
fn verbose_aux_names_the_converters() {
    let mut e = engine_with_converter();
    e.config.verbose = true;
    let mut light = KanjiConverter::new("light".to_string());
    light.add("ペン".to_string(), vec!["ペン".to_string(), "便".to_string()]);
    e.converters.light_kanji = Some(light);
    e.converters.strategy = ConversionStrategy::ParallelBeam;
    let r = e.process_key(&press('a'));
    let aux = r.actions.iter().find_map(|a| match a {
        EngineAction::UpdateAuxText(t) => Some(t.clone()),
        _ => None,
    });
    assert_eq!(aux.as_deref(), Some("[あ] あ | jinen+light"));
}

#[test]
fn parallel_beam_merges_the_two_converters() {
    let mut e = engine_with_converter();
    let mut light = KanjiConverter::new("light".to_string());
    light.add("ペン".to_string(), vec!["ペン".to_string(), "便".to_string(), "弁".to_string()]);
    e.converters.light_kanji = Some(light);
    e.converters.strategy = ConversionStrategy::ParallelBeam;
    type_str(&mut e, "pen");
    e.process_key(&press_key(Keysym::SPACE));
    // main's best (便), then light's (ペン, 弁), then the reading
    assert_eq!(candidate_texts(&e), vec!["便", "ペン", "弁", "ぺん"]);
}

#[test]
fn light_model_alone_gives_its_best() {
    let mut e = engine_with_converter();
    let mut light = KanjiConverter::new("light".to_string());
    light.add("ペン".to_string(), vec!["弁".to_string(), "便".to_string()]);
    e.converters.light_kanji = Some(light);
    e.converters.strategy = ConversionStrategy::LightModel;
    type_str(&mut e, "pen");
    e.process_key(&press_key(Keysym::SPACE));
    assert_eq!(candidate_texts(&e), vec!["弁", "ぺん", "ペン"]);
}

#[test]
fn digit_picks_and_commits_a_candidate() {
    let mut e = InputMethodEngine::new();
    type_str(&mut e, "kana");
    e.process_key(&press_key(Keysym::SPACE));
    let r = e.process_key(&press('2'));
    assert_eq!(commit_of(&r).as_deref(), Some("カナ"));
    assert!(matches!(e.state(), InputState::Empty));
}

#[test]
fn digit_beyond_the_candidates_commits_nothing() {
    let mut e = InputMethodEngine::new();
    type_str(&mut e, "kana");
    e.process_key(&press_key(Keysym::SPACE));
    let r = e.process_key(&press('7'));
    assert!(r.consumed);
    assert!(commit_of(&r).is_none());
    assert!(matches!(e.state(), InputState::Conversion { .. }));
}

#[test]
fn candidate_selection_wraps_around() {
    let mut e = InputMethodEngine::new();
    type_str(&mut e, "kana");
    e.process_key(&press_key(Keysym::SPACE));
    assert_eq!(selected_text(&e), "かな");
    e.process_key(&press_key(Keysym::SPACE));
    assert_eq!(selected_text(&e), "カナ");
    e.process_key(&press_key(Keysym::SPACE));
    assert_eq!(selected_text(&e), "かな");
    e.process_key(&press_key(Keysym::UP));
    assert_eq!(selected_text(&e), "カナ");
}

#[test]
fn typing_in_conversion_commits_and_starts_anew() {
    let mut e = InputMethodEngine::new();
    type_str(&mut e, "kana");
    e.process_key(&press_key(Keysym::SPACE));
    e.process_key(&press_key(Keysym::SPACE));
    let r = e.process_key(&press('a'));
    assert_eq!(commit_of(&r).as_deref(), Some("カナ"));
    assert!(matches!(e.state(), InputState::Composing { .. }));
    assert_eq!(preedit_text(&e), "あ");
}

#[test]
fn backspace_in_conversion_returns_to_the_reading() {
    let mut e = InputMethodEngine::new();
    type_str(&mut e, "kana");
    e.process_key(&press_key(Keysym::SPACE));
    e.process_key(&press_key(Keysym::BACKSPACE));
    assert!(matches!(e.state(), InputState::Composing { .. }));
    assert_eq!(preedit_text(&e), "かな");
}

#[test]
fn emoji_shortcode_commits_the_emoji() {
    let mut e = InputMethodEngine::new();
    e.converters.rewriters.add(RewriteRule {
        reading: ":smile".to_string(),
        variant: "😄".to_string(),
        description: Some("smile".to_string()),
    });
    e.process_key(&press(':'));
    type_str(&mut e, "smile");
    assert_eq!(preedit_text(&e), ":smile");
    let r = e.process_key(&press_key(Keysym::RETURN));
    assert_eq!(commit_of(&r).as_deref(), Some("😄"));
    // Back in hiragana mode afterwards
    type_str(&mut e, "a");
    assert_eq!(preedit_text(&e), "あ");
}

#[test]
fn escape_commits_an_emoji_query_literally() {
    let mut e = InputMethodEngine::new();
    e.process_key(&press(':'));
    type_str(&mut e, "xyz");
    let r = e.process_key(&press_key(Keysym::ESCAPE));
    assert_eq!(commit_of(&r).as_deref(), Some(":xyz"));
    assert!(matches!(e.state(), InputState::Empty));
}

#[test]
fn escape_drops_a_plain_composition() {
    let mut e = InputMethodEngine::new();
    type_str(&mut e, "kana");
    let r = e.process_key(&press_key(Keysym::ESCAPE));
    assert!(commit_of(&r).is_none());
    assert!(matches!(e.state(), InputState::Empty));
}

#[test]
fn ctrl_k_shows_and_commits_katakana() {
    let mut e = InputMethodEngine::new();
    type_str(&mut e, "kana");
    e.process_key(&press_ctrl(Keysym::Char('k')));
    assert_eq!(preedit_text(&e), "カナ");
    let r = e.process_key(&press_key(Keysym::RETURN));
    assert_eq!(commit_of(&r).as_deref(), Some("カナ"));
}

#[test]
fn ctrl_space_inserts_a_fullwidth_space() {
    let mut e = InputMethodEngine::new();
    type_str(&mut e, "a");
    e.process_key(&press_ctrl(Keysym::SPACE));
    assert_eq!(preedit_text(&e), "あ\u{3000}");
}

#[test]
fn space_on_empty_commits_a_fullwidth_space() {
    let mut e = InputMethodEngine::new();
    let r = e.process_key(&press_key(Keysym::SPACE));
    assert_eq!(commit_of(&r).as_deref(), Some("\u{3000}"));
    assert!(matches!(e.state(), InputState::Empty));
}

#[test]
fn delete_removes_the_character_after_the_caret() {
    let mut e = InputMethodEngine::new();
    type_str(&mut e, "aiu");
    e.process_key(&press_key(Keysym::HOME));
    e.process_key(&press_key(Keysym::DELETE));
    assert_eq!(preedit_text(&e), "いう");
}

#[test]
fn backspace_removes_one_displayed_character() {
    let mut e = InputMethodEngine::new();
    type_str(&mut e, "kak");
    assert_eq!(preedit_text(&e), "かk");
    e.process_key(&press_key(Keysym::BACKSPACE));
    assert_eq!(preedit_text(&e), "か");
    let r = e.process_key(&press_key(Keysym::BACKSPACE));
    assert!(r.consumed);
    assert!(matches!(e.state(), InputState::Empty));
}

#[test]
fn caret_moves_and_typing_goes_in_at_the_caret() {
    let mut e = InputMethodEngine::new();
    type_str(&mut e, "aiu");
    e.process_key(&press_key(Keysym::LEFT));
    type_str(&mut e, "ka");
    assert_eq!(preedit_text(&e), "あいかう");
    e.process_key(&press_key(Keysym::END));
    type_str(&mut e, "e");
    assert_eq!(preedit_text(&e), "あいかうえ");
}

#[test]
fn tab_picks_from_the_suggestions() {
    let mut e = InputMethodEngine::new();
    let mut system = Dictionary::new();
    system.add_entry("かな".to_string(), vec![DictCandidate { surface: "仮名".to_string(), score: 1 }]);
    e.dicts.system = Some(system);
    type_str(&mut e, "kana");
    e.process_key(&press_key(Keysym::TAB));
    assert!(matches!(e.state(), InputState::Conversion { .. }));
    assert_eq!(candidate_texts(&e), vec!["仮名"]);
}

#[test]
fn live_conversion_toggle_reports_off_then_on() {
    let mut e = InputMethodEngine::new();
    let ctrl_shift_l = KeyEvent::new(Keysym::Char('L'), Modifiers::ctrl_shift());
    let r = e.process_key(&ctrl_shift_l);
    let aux = r.actions.iter().find_map(|a| match a {
        EngineAction::UpdateAuxText(t) => Some(t.clone()),
        _ => None,
    });
    assert_eq!(aux.as_deref(), Some("ライブ変換: OFF"));
    assert!(!e.live.enabled);
    let r = e.process_key(&ctrl_shift_l);
    let aux = r.actions.iter().find_map(|a| match a {
        EngineAction::UpdateAuxText(t) => Some(t.clone()),
        _ => None,
    });
    assert_eq!(aux.as_deref(), Some("ライブ変換: ON"));
}

#[test]
fn enter_commits_the_live_conversion() {
    let mut e = engine_with_converter();
    type_str(&mut e, "watashihapendesu");
    assert_eq!(preedit_text(&e), "私はペンです");
    let r = e.process_key(&press_key(Keysym::RETURN));
    assert_eq!(commit_of(&r).as_deref(), Some("私はペンです"));
    assert!(matches!(e.state(), InputState::Empty));
}

#[test]
fn escape_returns_from_live_conversion_to_the_reading() {
    let mut e = engine_with_converter();
    type_str(&mut e, "watashihapendesu");
    e.process_key(&press_key(Keysym::ESCAPE));
    assert_eq!(preedit_text(&e), "わたしはぺんです");
    let r = e.process_key(&press_key(Keysym::RETURN));
    assert_eq!(commit_of(&r).as_deref(), Some("わたしはぺんです"));
}

#[test]
fn system_dictionary_comes_before_the_kana_forms() {
    let mut e = InputMethodEngine::new();
    let mut system = Dictionary::new();
    system.add_entry("かな".to_string(), vec![DictCandidate { surface: "叶".to_string(), score: 1 }]);
    e.dicts.system = Some(system);
    type_str(&mut e, "kana");
    e.process_key(&press_key(Keysym::SPACE));
    assert_eq!(candidate_texts(&e), vec!["叶", "かな", "カナ"]);
}

#[test]
fn caret_moves_keep_pending_keys() {
    let mut e = InputMethodEngine::new();
    type_str(&mut e, "aik");
    e.process_key(&press_key(Keysym::LEFT));
    type_str(&mut e, "a");
    let r = e.process_key(&press_key(Keysym::RETURN));
    assert_eq!(commit_of(&r).as_deref(), Some("あかい"));
}

#[test]
fn typing_shows_the_suggestions_window() {
    let mut e = InputMethodEngine::new();
    let mut system = Dictionary::new();
    system.add_entry("かな".to_string(), vec![DictCandidate { surface: "仮名".to_string(), score: 1 }]);
    e.dicts.system = Some(system);
    let results = type_str(&mut e, "kana");
    let last = results.last().unwrap();
    let shown: Vec<String> = last
        .actions
        .iter()
        .find_map(|a| match a {
            EngineAction::ShowCandidates(l) => Some((0..l.len()).map(|i| l.get(i).unwrap().text.clone()).collect()),
            _ => None,
        })
        .expect("the suggestions are shown");
    assert_eq!(shown, vec!["仮名"]);
    // "ka" has no suggestion: the window is hidden.
    assert!(results[1].actions.iter().any(|a| matches!(a, EngineAction::HideCandidates)));
}

#[test]
fn without_auto_suggest_typing_hides_window_and_aux() {
    let mut e = InputMethodEngine::new();
    e.config.auto_suggest = false;
    let results = type_str(&mut e, "kana");
    let last = results.last().unwrap();
    assert!(last.actions.iter().any(|a| matches!(a, EngineAction::HideCandidates)));
    assert!(last.actions.iter().any(|a| matches!(a, EngineAction::HideAuxText)));
    assert!(!last.actions.iter().any(|a| matches!(a, EngineAction::ShowCandidates(_))));
}

#[test]
fn direct_conversion_sends_four_actions_in_order() {
    let mut e = InputMethodEngine::new();
    type_str(&mut e, "kana");
    let r = e.process_key(&press_key(Keysym::F7));
    assert!(r.consumed);
    assert_eq!(r.actions.len(), 4);
    assert!(matches!(&r.actions[0], EngineAction::UpdatePreedit(p) if p.text().is_empty()));
    assert!(matches!(&r.actions[1], EngineAction::Commit(t) if t == "カナ"));
    assert!(matches!(r.actions[2], EngineAction::HideCandidates));
    assert!(matches!(r.actions[3], EngineAction::HideAuxText));
}

#[test]
fn first_key_sends_preedit_then_aux() {
    let mut e = InputMethodEngine::new();
    let r = e.process_key(&press('k'));
    assert!(r.consumed);
    assert_eq!(r.actions.len(), 2);
    assert!(matches!(&r.actions[0], EngineAction::UpdatePreedit(p) if p.text() == "k"));
    assert!(matches!(r.actions[1], EngineAction::UpdateAuxText(_)));
}

#[test]
fn ctrl_a_and_ctrl_e_move_the_caret() {
    let mut e = InputMethodEngine::new();
    type_str(&mut e, "aiu");
    e.process_key(&press_ctrl(Keysym::Char('a')));
    type_str(&mut e, "e");
    assert_eq!(preedit_text(&e), "えあいう");
    e.process_key(&press_ctrl(Keysym::Char('e')));
    type_str(&mut e, "o");
    assert_eq!(preedit_text(&e), "えあいうお");
}

#[test]
fn a_symbol_fallback_gets_its_description() {
    let mut e = InputMethodEngine::new();
    e.converters.symbols.add("。。。".to_string(), "三点リーダー".to_string());
    type_str(&mut e, "...");
    e.process_key(&press_key(Keysym::SPACE));
    let list = e.state().candidates().expect("conversion state expected");
    assert_eq!(list.get(0).unwrap().text, "。。。");
    assert_eq!(list.get(0).unwrap().description.as_deref(), Some("三点リーダー"));
}

#[test]
fn repeated_shift_right_grows_the_selection() {
    let mut e = InputMethodEngine::new();
    type_str(&mut e, "aiu");
    e.process_key(&press_key(Keysym::HOME));
    e.process_key(&press_shift_key(Keysym::RIGHT));
    assert_eq!(e.input_buf.selection_range(), Some((0, 1)));
    e.process_key(&press_shift_key(Keysym::RIGHT));
    assert_eq!(e.input_buf.selection_range(), Some((0, 2)));
}

#[test]
fn ctrl_n_and_ctrl_p_move_through_the_candidates() {
    let mut e = InputMethodEngine::new();
    type_str(&mut e, "kana");
    e.process_key(&press_key(Keysym::SPACE));
    e.process_key(&press_ctrl(Keysym::Char('n')));
    assert_eq!(selected_text(&e), "カナ");
    e.process_key(&press_ctrl(Keysym::Char('p')));
    assert_eq!(selected_text(&e), "かな");
}

#[test]
fn an_unhandled_key_in_conversion_is_left_to_the_application() {
    let mut e = InputMethodEngine::new();
    type_str(&mut e, "kana");
    e.process_key(&press_key(Keysym::SPACE));
    let r = e.process_key(&press_key(Keysym::Other(0xffe1)));
    assert!(!r.consumed);
    assert!(r.actions.is_empty());
    assert!(matches!(e.state(), InputState::Conversion { .. }));
}

#[test]
fn moving_the_selection_redraws_preedit_window_and_aux() {
    let mut e = InputMethodEngine::new();
    type_str(&mut e, "kana");
    e.process_key(&press_key(Keysym::SPACE));
    let r = e.process_key(&press_key(Keysym::DOWN));
    assert_eq!(r.actions.len(), 3);
    assert!(matches!(&r.actions[0], EngineAction::UpdatePreedit(p) if p.text() == "カナ"));
    assert!(matches!(&r.actions[1], EngineAction::ShowCandidates(_)));
    assert!(matches!(&r.actions[2], EngineAction::UpdateAuxText(_)));
}

#[test]
fn suggestions_never_repeat_a_text() {
    let mut e = InputMethodEngine::new();
    let mut user = Dictionary::new();
    user.add_entry("かな".to_string(), vec![DictCandidate { surface: "仮名".to_string(), score: 0 }]);
    let mut system = Dictionary::new();
    system.add_entry("かな".to_string(), vec![DictCandidate { surface: "仮名".to_string(), score: 1 }]);
    e.dicts.user = Some(user);
    e.dicts.system = Some(system);
    let results = type_str(&mut e, "kana");
    let shown: Vec<String> = results
        .last()
        .unwrap()
        .actions
        .iter()
        .find_map(|a| match a {
            EngineAction::ShowCandidates(l) => Some((0..l.len()).map(|i| l.get(i).unwrap().text.clone()).collect()),
            _ => None,
        })
        .expect("the suggestions are shown");
    assert_eq!(shown, vec!["仮名"]);
}
