use byetype::config::AppConfig;
use byetype::prompt::{
    build_extract_prompt, build_optimize_prompt, build_transcribe_prompt, builtin_prompt_filename,
    load_template_prompt, resolve_prompt_path, template_prompt_path, wrap_document,
};

#[test]
fn appends_learning_rules_to_transcription_prompt() {
    let prompt = build_transcribe_prompt("", "", "", "- 项目技能，不是项目智能");

    assert_eq!(
        prompt,
        "<document name=\"voice-learning\">\n- 项目技能，不是项目智能\n</document>"
    );
}

#[test]
fn transcription_prompt_frames_each_document() {
    let prompt = build_transcribe_prompt("角色", "词汇", "规则", "");

    assert_eq!(
        prompt,
        "<document name=\"agent\">\n角色\n</document>\n\n<document name=\"vocabulary\">\n词汇\n</document>\n\n<document name=\"rules\">\n规则\n</document>"
    );
}

#[test]
fn optimize_prompt_reuses_transcription_references_without_agent_role() {
    let prompt = build_optimize_prompt("文本优化提示词", "转录规则", "专有词汇", "自动学习结果");

    assert_eq!(
        prompt,
        "以下文档共同构成文本优化要求。先按 rules、vocabulary 和 voice-learning 修正转录文本，再按 text-optimize 处理输出样式。text-optimize 中限制修改原文的要求，不阻止执行上述转录修正。\n\n\
<document name=\"text-optimize\">\n文本优化提示词\n</document>\n\n\
<document name=\"rules\">\n转录规则\n</document>\n\n\
<document name=\"vocabulary\">\n专有词汇\n</document>\n\n\
<document name=\"voice-learning\">\n自动学习结果\n</document>"
    );
    assert!(!prompt.contains("角色定义"));
}

#[test]
fn empty_document_is_left_out() {
    assert_eq!(wrap_document("rules", ""), "");
    assert_eq!(wrap_document("rules", "x"), "<document name=\"rules\">\nx\n</document>");
}

#[test]
fn custom_prompt_path_wins_over_the_builtin_one() {
    assert_eq!(resolve_prompt_path("/my/vocabulary.md", "/builtin/vocabulary.md"), "/my/vocabulary.md");
    assert_eq!(resolve_prompt_path("", "/builtin/vocabulary.md"), "/builtin/vocabulary.md");
}

#[test]
fn builtin_templates_have_builtin_prompt_files() {
    assert_eq!(builtin_prompt_filename("voice-optimize"), Some("text-optimize.md"));
    assert_eq!(builtin_prompt_filename("voice-translate"), Some("voice-translate.md"));
    assert_eq!(builtin_prompt_filename("image-extract"), Some("text-extract.md"));
    assert_eq!(builtin_prompt_filename("image-translate"), Some("image-translate.md"));
    assert_eq!(builtin_prompt_filename("voice-custom"), None);
}

#[test]
fn template_prompt_comes_from_custom_then_builtin_content() {
    assert_eq!(load_template_prompt("voice-optimize", "我的", "内置"), "我的");
    assert_eq!(load_template_prompt("voice-optimize", "", "内置"), "内置");
    assert_eq!(load_template_prompt("voice-custom", "", "内置"), "");
    assert_eq!(build_extract_prompt("image-extract", "", "识别"), "识别");
}

#[test]
fn template_prompt_path_of_the_first_matching_template() {
    let mut config = AppConfig::default();
    config.voice_templates.templates[1].prompt = "/p/translate.md".to_string();

    assert_eq!(
        template_prompt_path(&config.voice_templates.templates, "voice-translate"),
        "/p/translate.md"
    );
    assert_eq!(template_prompt_path(&config.voice_templates.templates, "voice-optimize"), "");
    assert_eq!(template_prompt_path(&config.voice_templates.templates, "missing"), "");
}
