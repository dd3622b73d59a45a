use memori_vault::excerpt::build_reference_excerpt;
use memori_vault::settings_rank::{
    choose_ranked_keys, pick_ranked_keys, settings_rank_prompt, tool_ranked_keys, tool_settings_rank_prompt,
    SettingsSearchCandidate,
};

fn cand(key: &str, text: &str) -> SettingsSearchCandidate {
    SettingsSearchCandidate { key: key.to_string(), text: text.to_string() }
}

fn cands() -> Vec<SettingsSearchCandidate> {
    vec![cand(" basic ", " General options "), cand("models", "Model providers and endpoints"), cand("  ", "blank key")]
}

#[test]
fn rank_prompt_in_english_lists_trimmed_candidates() {
    let prompt = settings_rank_prompt("  endpoint ", &cands(), Some("en")).unwrap();
    assert_eq!(
        prompt,
        "You are a settings retrieval assistant.\nQuery: endpoint\nCandidates:\nbasic => General options\nmodels => Model providers and endpoints\n => blank key\n\nReturn only a JSON array of best-matching keys, max 3. Example: [\"basic\",\"models\"].\nDo not output explanations."
    );
}

#[test]
fn rank_prompt_in_chinese_for_chinese_language() {
    let prompt = settings_rank_prompt("模型", &cands()[..1], Some(" ZH-cn ")).unwrap();
    assert_eq!(
        prompt,
        "你是设置检索助手。用户搜索词：模型\n候选设置项：\nbasic => General options\n\n请仅返回 JSON 数组，内容为最匹配的 key，最多 3 个。示例：[\"basic\",\"models\"]。\n禁止输出解释文字。"
    );
}

#[test]
fn rank_prompt_is_english_without_language() {
    let prompt = settings_rank_prompt("x", &cands()[1..2], None).unwrap();
    assert!(prompt.starts_with("You are a settings retrieval assistant.\nQuery: x\n"));
}

#[test]
fn nothing_is_asked_for_blank_query_or_no_candidates() {
    assert!(settings_rank_prompt("   ", &cands(), None).is_none());
    assert!(settings_rank_prompt("models", &[], None).is_none());
    assert!(tool_settings_rank_prompt(" ", &cands()).is_none());
}

#[test]
fn tool_prompt_has_no_example() {
    let prompt = tool_settings_rank_prompt("q", &cands()[1..2]).unwrap();
    assert_eq!(
        prompt,
        "You are a settings retrieval assistant.\nQuery: q\nCandidates:\nmodels => Model providers and endpoints\n\nReturn only a JSON array of best-matching keys, max 3. Do not output explanations."
    );
}

#[test]
fn json_answer_keeps_only_candidate_keys() {
    let keys = pick_ranked_keys("[\"models\", \"unknown\", \" basic \"]", &cands());
    assert_eq!(keys, vec!["models".to_string(), " basic ".to_string()]);
}

#[test]
fn bracketed_part_is_read_when_answer_has_text_around() {
    let keys = pick_ranked_keys("Here you go: [\"basic\"] hope it helps", &cands());
    assert_eq!(keys, vec!["basic".to_string()]);
}

#[test]
fn mentioned_keys_are_the_fallback() {
    let keys = pick_ranked_keys("I would look at MODELS first, then Basic.", &cands());
    assert_eq!(keys, vec!["basic".to_string(), "models".to_string()]);
}

#[test]
fn json_without_known_keys_falls_back_to_mentions() {
    let keys = pick_ranked_keys("[\"other\"] models", &cands());
    assert_eq!(keys, vec!["models".to_string()]);
    assert!(pick_ranked_keys("nothing relevant", &cands()).is_empty());
}

#[test]
fn chosen_keys_follow_the_given_parses() {
    let whole = Some(vec!["models".to_string()]);
    let part = Some(vec!["basic".to_string()]);
    assert_eq!(choose_ranked_keys("x", whole, part.clone(), &cands()), vec!["models".to_string()]);
    assert_eq!(choose_ranked_keys("x", None, part, &cands()), vec!["basic".to_string()]);
    assert_eq!(choose_ranked_keys("see models", Some(vec![]), None, &cands()), vec!["models".to_string()]);
}

#[test]
fn tool_keys_are_the_json_array_or_nothing() {
    assert_eq!(tool_ranked_keys("[\"a\",\"b\"]"), vec!["a".to_string(), "b".to_string()]);
    assert!(tool_ranked_keys("a, b").is_empty());
}

#[test]
fn excerpt_is_chunk_when_file_unreadable() {
    assert_eq!(build_reference_excerpt(None, "  chunk  "), "  chunk  ");
}

#[test]
fn excerpt_widens_to_neighbours_of_short_paragraphs() {
    let text = "Intro para\r\n\r\nSecond paragraph holds the chunk text here\n\n\n\nThird";
    let excerpt = build_reference_excerpt(Some(text), " chunk text ");
    assert_eq!(excerpt, "Intro para\n\nSecond paragraph holds the chunk text here\n\nThird");
}

#[test]
fn excerpt_stops_at_target_length() {
    let long = "x".repeat(2000);
    let text = format!("before\n\n{long} needle\n\nafter");
    let excerpt = build_reference_excerpt(Some(&text), "needle");
    assert_eq!(excerpt, format!("{long} needle"));
}

#[test]
fn excerpt_prefers_longer_next_paragraph() {
    let a = "a".repeat(900);
    let b = "b".repeat(1600);
    let text = format!("{a}\n\nneedle here\n\n{b}\n\nlast");
    let excerpt = build_reference_excerpt(Some(&text), "needle here");
    // the next paragraph (1600) is at least as long as the previous one (900), so it is taken
    // first, and that reaches the target
    assert_eq!(excerpt, format!("needle here\n\n{b}"));
    let c = "c".repeat(1000);
    let text = format!("{a}\n\nneedle here\n\n{c}\n\nlast");
    // 11 + 1000 is short of the target, so the previous paragraph joins too
    assert_eq!(build_reference_excerpt(Some(&text), "needle here"), format!("{a}\n\nneedle here\n\n{c}"));
}

#[test]
fn excerpt_uses_anchor_line_when_chunk_is_not_found() {
    let text = "one\n\nthe anchor line is here and more\n\ntwo";
    let excerpt = build_reference_excerpt(Some(text), "short\nthe anchor line is here\nmissing tail");
    assert_eq!(excerpt, "one\n\nthe anchor line is here and more\n\ntwo");
}

#[test]
fn excerpt_is_chunk_when_nowhere_found_or_file_blank() {
    assert_eq!(build_reference_excerpt(Some("alpha\n\nbeta"), "gamma delta"), "gamma delta");
    assert_eq!(build_reference_excerpt(Some(" \n\n \r\n"), "c"), "c");
}
