use byetype::learning::{
    apply_analysis, apply_generated_text, append_learning_items, build_learning_input, json_body,
    merge_user_document, parse_generated_items, parse_rules, prompt_document_step, LearningAnalysis,
    LearningOutcome, PromptDocumentStep, DOCUMENT_HEADER, LEGACY_DEFAULT_LEARNING_PROMPT,
    PREVIOUS_DEFAULT_LEARNING_PROMPT,
};
use byetype::text::chars_of;

fn rules_of(content: &str) -> Vec<String> {
    parse_rules(&chars_of(content)).iter().map(|r| r.iter().collect()).collect()
}

fn analysis(related: bool, remove: &[&str], add: &[&str]) -> LearningAnalysis {
    LearningAnalysis {
        related,
        remove: remove.iter().map(|s| s.to_string()).collect(),
        add: add.iter().map(|s| s.to_string()).collect(),
    }
}

#[test]
fn parses_json_wrapped_in_markdown_fence() {
    let response = r#"```json
{"related":true,"remove":["项目智能，应为项目技能"],"add":["项目技能，不是项目智能"]}
```"#;

    let body = json_body(response);
    let value: serde_json::Value = serde_json::from_str(&body).expect("response should parse");
    let strings = |key: &str| -> Vec<String> {
        value[key]
            .as_array()
            .unwrap()
            .iter()
            .map(|v| v.as_str().unwrap().to_string())
            .collect()
    };
    let parsed = LearningAnalysis {
        related: value["related"].as_bool().unwrap(),
        remove: strings("remove"),
        add: strings("add"),
    };

    assert_eq!(
        parsed,
        LearningAnalysis {
            related: true,
            remove: vec!["项目智能，应为项目技能".to_string()],
            add: vec!["项目技能，不是项目智能".to_string()],
        }
    );
}

#[test]
fn appends_every_item_selected_by_ai() {
    let existing = "# 语音纠正学习\n\n以下规则由自动学习生成。\n\n- 项目智能，应为项目技能\n- 保持API大写\n";

    let update = apply_analysis(
        existing,
        &analysis(true, &["项目智能，应为项目技能"], &["项目技能，不是项目智能", "保持API大写"]),
    );

    assert_eq!(update.outcome, LearningOutcome::Updated { added: 2, removed: 0 });
    assert_eq!(
        update.document.expect("learning document should exist"),
        "# 语音纠正学习\n\n以下规则由自动学习生成。\n\n- 项目智能，应为项目技能\n- 保持API大写\n- 项目技能，不是项目智能\n- 保持API大写\n"
    );
}

#[test]
fn unrelated_text_does_not_create_learning_document() {
    let update = apply_analysis("", &analysis(false, &[], &["无关规则"]));

    assert_eq!(update.outcome, LearningOutcome::Unrelated);
    assert!(update.document.is_none());
}

#[test]
fn applies_only_unique_lines_from_edited_generated_text() {
    let existing = format!("{DOCUMENT_HEADER}- 词汇：ByeType\n");

    let update = apply_generated_text(
        &existing,
        "- 词汇：ByeType\n规则：项目智能→项目技能\n规则：项目智能→项目技能\n",
    )
    .expect("generated text should be applied");

    assert_eq!(update.outcome, LearningOutcome::Updated { added: 1, removed: 0 });
    let content = update.document.expect("learning document should exist");
    assert_eq!(content.matches("词汇：ByeType").count(), 1);
    assert_eq!(content.matches("规则：项目智能→项目技能").count(), 1);
}

#[test]
fn rejects_untyped_generated_lines() {
    let error = parse_generated_items("帮我记住ByeType")
        .expect_err("untyped learning content should be rejected");

    assert_eq!(error, "学习结果第1行格式不正确，请以「词汇：」或「规则：」开头");
}

#[test]
fn empty_tagged_line_is_rejected() {
    let error = parse_generated_items("规则：项目技能\n\n词汇：  \n").unwrap_err();

    assert_eq!(error, "学习结果第3行内容不能为空");
}

#[test]
fn learning_input_contains_all_reference_content() {
    let input = build_learning_input("原始文本", "修正文本", "规则内容", "词汇内容", "自动学习内容");
    let value: serde_json::Value =
        serde_json::from_str(&input).expect("learning input should be valid JSON");

    assert_eq!(value["original"], "原始文本");
    assert_eq!(value["corrected"], "修正文本");
    assert_eq!(value["existingContent"]["transcriptionRules"], "规则内容");
    assert_eq!(value["existingContent"]["vocabulary"], "词汇内容");
    assert_eq!(value["existingContent"]["autoLearning"], "自动学习内容");
}

#[test]
fn learning_input_escapes_quotes_and_line_breaks() {
    let input = build_learning_input("说\"你好\"\n", "", "", "", "");
    let value: serde_json::Value = serde_json::from_str(&input).unwrap();

    assert_eq!(value["original"], "说\"你好\"\n");
}

#[test]
fn learning_update_preserves_user_markdown() {
    let existing = "# 我的学习规则\n\n这段说明由用户维护。\n\n- 智能，不是技能\n\n## 备注\n\n保留这里。\n";

    let update = apply_analysis(
        existing,
        &analysis(true, &["智能，不是技能"], &["项目技能，不是项目智能"]),
    );

    let content = update.document.expect("learning document should exist");
    assert!(content.contains("# 我的学习规则"));
    assert!(content.contains("这段说明由用户维护。"));
    assert!(content.contains("## 备注\n\n保留这里。"));
    assert!(content.contains("- 智能，不是技能"));
    assert!(content.contains("- 项目技能，不是项目智能"));
}

#[test]
fn concurrent_manual_save_merges_external_rule_update() {
    let base = "# 语音纠正学习\n\n用户说明。\n\n- 原规则\n";
    let edited = "# 我的规则\n\n用户改过的说明。\n";
    let current = "# 语音纠正学习\n\n用户说明。\n\n- 原规则\n- AI新增规则\n";

    let merged = merge_user_document(base, edited, current);

    assert!(merged.contains("# 我的规则"));
    assert!(merged.contains("用户改过的说明。"));
    assert!(!merged.contains("- 原规则"));
    assert!(merged.contains("- AI新增规则"));
}

#[test]
fn merge_keeps_a_rule_the_user_added() {
    let base = "- 甲\n";
    let edited = "- 甲\n- 乙\n";
    let current = "- 甲\n- 丙\n";

    let merged = merge_user_document(base, edited, current);

    assert_eq!(merged, "- 甲\n- 乙\n- 丙\n");
}

#[test]
fn unrelated_existing_rule_is_not_removed_when_adding_a_new_rule() {
    let existing = format!("{DOCUMENT_HEADER}- 李氏，不是李四\n");

    let update = apply_analysis(
        &existing,
        &analysis(true, &["李氏，不是李四"], &["宠物组，不是宠物族"]),
    );

    let content = update.document.expect("learning document should exist");
    assert!(content.contains("- 李氏，不是李四"));
    assert!(content.contains("- 宠物组，不是宠物族"));
}

#[test]
fn appending_to_an_empty_document_writes_the_header_first() {
    let content = append_learning_items("", &vec!["规则一".to_string()]);

    assert_eq!(content, format!("{DOCUMENT_HEADER}- 规则一\n"));
}

#[test]
fn appending_keeps_the_document_as_a_prefix() {
    let existing = "# 标题\n用户文字";
    let content = append_learning_items(existing, &vec!["新规则".to_string()]);

    assert!(content.starts_with(existing));
    assert_eq!(content, "# 标题\n用户文字\n- 新规则\n");
}

#[test]
fn analysis_without_usable_rules_changes_nothing() {
    let update = apply_analysis("- 旧规则\n", &analysis(true, &[], &["  -  ", ""]));

    assert_eq!(update.outcome, LearningOutcome::NoChange);
    assert!(update.document.is_none());
}

#[test]
fn learning_input_writes_keys_in_sorted_order() {
    let input = build_learning_input("a", "b", "c", "d", "e");

    assert_eq!(
        input,
        r#"{"corrected":"b","existingContent":{"autoLearning":"e","transcriptionRules":"c","vocabulary":"d"},"original":"a"}"#
    );
}

#[test]
fn appended_rules_read_back_after_the_existing_ones() {
    let existing = "# 标题\n- 旧规则\r\n说明\n-  第二条  \r";
    let content = append_learning_items(existing, &vec!["新规则一".to_string(), "新规则二".to_string()]);

    assert_eq!(rules_of(existing), vec!["旧规则", "第二条"]);
    assert_eq!(rules_of(&content), vec!["旧规则", "第二条", "新规则一", "新规则二"]);
}

#[test]
fn a_new_document_reads_back_only_the_added_rules() {
    let content = append_learning_items("", &vec!["规则一".to_string(), "规则二".to_string()]);

    assert!(rules_of(DOCUMENT_HEADER).is_empty());
    assert_eq!(rules_of(&content), vec!["规则一", "规则二"]);
}

#[test]
fn earlier_default_prompts_are_replaced_and_edited_ones_kept() {
    let last = "上一版默认的学习提示词";
    assert_eq!(prompt_document_step(None, last), PromptDocumentStep::WriteDefault);
    assert_eq!(prompt_document_step(Some(LEGACY_DEFAULT_LEARNING_PROMPT), last), PromptDocumentStep::WriteDefault);
    assert_eq!(prompt_document_step(Some(PREVIOUS_DEFAULT_LEARNING_PROMPT), last), PromptDocumentStep::WriteDefault);
    assert_eq!(prompt_document_step(Some(last), last), PromptDocumentStep::WriteDefault);
    assert_eq!(prompt_document_step(Some("用户修改后的学习提示词"), last), PromptDocumentStep::Keep);
    let trailing = format!("{LEGACY_DEFAULT_LEARNING_PROMPT} ");
    assert_eq!(prompt_document_step(Some(&trailing), last), PromptDocumentStep::Keep);
}

#[test]
fn learning_files_lie_in_the_prompts_directory_of_the_data_directory() {
    let manager = byetype::learning::VoiceLearningManager::new("/data");
    let sep = std::path::MAIN_SEPARATOR;

    assert_eq!(manager.rules_path(), &format!("/data{sep}prompts{sep}voice-learning.md"));
    assert_eq!(manager.prompt_path(), &format!("/data{sep}prompts{sep}voice-learning-prompt.md"));
}
