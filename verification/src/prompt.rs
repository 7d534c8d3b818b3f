//! System prompts assembled from the user's Markdown documents.
//!
//! Reading the documents from disk is the caller's part; these functions
//! decide which documents are used and how they are put together.
use vstd::prelude::*;

use crate::config::TemplateEntry;
use crate::text::{chars_of, chars_eq, join, join_chars, path_join, string_of, views};

verus! {

/// The sentence that opens an optimization prompt that has reference
/// documents.
pub const OPTIMIZE_CONTEXT_INSTRUCTION: &'static str = "以下文档共同构成文本优化要求。先按 rules、vocabulary 和 voice-learning 修正转录文本，再按 text-optimize 处理输出样式。text-optimize 中限制修改原文的要求，不阻止执行上述转录修正。";

/// `content` framed as a named document; empty content gives nothing.
pub open spec fn spec_wrap_document(name: Seq<char>, content: Seq<char>) -> Seq<char> {
    if content.len() == 0 {
        Seq::empty()
    } else {
        "<document name=\""@ + name + "\">\n"@ + content + "\n</document>"@
    }
}

/// The non-empty texts of `parts`, in order.
pub open spec fn non_empty(parts: Seq<Seq<char>>) -> Seq<Seq<char>> {
    parts.filter_map(|p: Seq<char>| if p.len() > 0 { Some(p) } else { None })
}

/// The non-empty texts of `parts` joined by blank lines.
pub open spec fn paragraphs(parts: Seq<Seq<char>>) -> Seq<char> {
    join(non_empty(parts), "\n\n"@)
}

/// Frames `content` as `<document name="…">` … `</document>`; empty content
/// gives an empty string.
pub fn wrap_document(name: &str, content: &str) -> (r: String)
    ensures
        r@ == spec_wrap_document(name@, content@),
{
    if content.unicode_len() == 0 {
        return String::new();
    }
    let mut out = String::from_str("<document name=\"");
    out.append(name);
    out.append("\">\n");
    out.append(content);
    out.append("\n</document>");
    out
}

/// The user's own prompt path when one is set, else the built-in one.
pub fn resolve_prompt_path(custom: &str, builtin: &str) -> (r: String)
    ensures
        custom@.len() > 0 ==> r@ == custom@,
        custom@.len() == 0 ==> r@ == builtin@,
{
    if custom.unicode_len() > 0 {
        String::from_str(custom)
    } else {
        String::from_str(builtin)
    }
}

/// The non-empty texts of `parts` joined by blank lines.
fn join_paragraphs(parts: &Vec<String>) -> (r: String)
    ensures
        r@ == paragraphs(parts@.map_values(|p: String| p@)),
{
    let ghost all = parts@.map_values(|p: String| p@);
    let ghost f = |p: Seq<char>| if p.len() > 0 { Some(p) } else { None::<Seq<char>> };
    let mut kept: Vec<Vec<char>> = Vec::new();
    let mut i: usize = 0;
    while i < parts.len()
        invariant
            i <= parts.len(),
            all == parts@.map_values(|p: String| p@),
            f == (|p: Seq<char>| if p.len() > 0 { Some(p) } else { None::<Seq<char>> }),
            views(kept@) == all.take(i as int).filter_map(f),
        decreases parts.len() - i,
    {
        proof {
            all.lemma_filter_map_take_succ(f, i as int);
        }
        let part = chars_of(parts[i].as_str());
        if part.len() > 0 {
            let ghost prev = kept@;
            kept.push(part);
            assert(views(kept@) =~= views(prev).push(part@));
        }
        assert(views(kept@) =~= all.take(i + 1).filter_map(f));
        i = i + 1;
    }
    assert(all.take(parts.len() as int) =~= all);
    let sep = chars_of("\n\n");
    let joined = join_chars(&kept, &sep);
    assert(kept@.map_values(|p: Vec<char>| p@) == views(kept@));
    string_of(&joined)
}

/// The transcription prompt: the agent, vocabulary and rules documents and
/// the learned corrections, each framed, empty ones left out, separated by
/// blank lines.
pub fn build_transcribe_prompt(
    agent_content: &str,
    vocabulary_content: &str,
    rules_content: &str,
    learning_rules: &str,
) -> (r: String)
    ensures
        r@ == paragraphs(
            seq![
                spec_wrap_document("agent"@, agent_content@),
                spec_wrap_document("vocabulary"@, vocabulary_content@),
                spec_wrap_document("rules"@, rules_content@),
                spec_wrap_document("voice-learning"@, learning_rules@),
            ],
        ),
{
    let mut parts: Vec<String> = Vec::new();
    parts.push(wrap_document("agent", agent_content));
    parts.push(wrap_document("vocabulary", vocabulary_content));
    parts.push(wrap_document("rules", rules_content));
    parts.push(wrap_document("voice-learning", learning_rules));
    let r = join_paragraphs(&parts);
    assert(parts@.map_values(|p: String| p@) =~= seq![
        spec_wrap_document("agent"@, agent_content@),
        spec_wrap_document("vocabulary"@, vocabulary_content@),
        spec_wrap_document("rules"@, rules_content@),
        spec_wrap_document("voice-learning"@, learning_rules@),
    ]);
    r
}

/// The reference documents of an optimization prompt.
pub open spec fn optimize_references(rules: Seq<char>, vocabulary: Seq<char>, learning: Seq<char>) -> Seq<
    Seq<char>,
> {
    non_empty(
        seq![
            spec_wrap_document("rules"@, rules),
            spec_wrap_document("vocabulary"@, vocabulary),
            spec_wrap_document("voice-learning"@, learning),
        ],
    )
}

/// The text-optimization prompt: nothing without an optimization document;
/// else that document, preceded by the context sentence and followed by the
/// rules, vocabulary and learned corrections when any of them is present.
/// The agent role is never part of it.
pub open spec fn spec_optimize_prompt(
    optimize: Seq<char>,
    rules: Seq<char>,
    vocabulary: Seq<char>,
    learning: Seq<char>,
) -> Seq<char> {
    if optimize.len() == 0 {
        Seq::empty()
    } else {
        let refs = optimize_references(rules, vocabulary, learning);
        let head = spec_wrap_document("text-optimize"@, optimize);
        if refs.len() == 0 {
            join(seq![head], "\n\n"@)
        } else {
            join(seq![OPTIMIZE_CONTEXT_INSTRUCTION@, head] + refs, "\n\n"@)
        }
    }
}

pub fn build_optimize_prompt(
    optimize_content: &str,
    rules_content: &str,
    vocabulary_content: &str,
    learning_rules: &str,
) -> (r: String)
    ensures
        r@ == spec_optimize_prompt(
            optimize_content@,
            rules_content@,
            vocabulary_content@,
            learning_rules@,
        ),
{
    if optimize_content.unicode_len() == 0 {
        return String::new();
    }
    let mut refs: Vec<String> = Vec::new();
    refs.push(wrap_document("rules", rules_content));
    refs.push(wrap_document("vocabulary", vocabulary_content));
    refs.push(wrap_document("voice-learning", learning_rules));
    let ghost refs_v = refs@.map_values(|p: String| p@);
    assert(refs_v =~= seq![
        spec_wrap_document("rules"@, rules_content@),
        spec_wrap_document("vocabulary"@, vocabulary_content@),
        spec_wrap_document("voice-learning"@, learning_rules@),
    ]);
    let mut parts: Vec<String> = Vec::new();
    let mut any_ref = false;
    let mut i: usize = 0;
    while i < refs.len()
        invariant
            i <= refs.len() == 3,
            refs_v == refs@.map_values(|p: String| p@),
            any_ref == (non_empty(refs_v.take(i as int)).len() > 0),
        decreases refs.len() - i,
    {
        proof {
            refs_v.lemma_filter_map_take_succ(
                |p: Seq<char>| if p.len() > 0 { Some(p) } else { None::<Seq<char>> },
                i as int,
            );
        }
        if refs[i].unicode_len() > 0 {
            any_ref = true;
        }
        i = i + 1;
    }
    assert(refs_v.take(3) =~= refs_v);
    let head = wrap_document("text-optimize", optimize_content);
    if any_ref {
        parts.push(String::from_str(OPTIMIZE_CONTEXT_INSTRUCTION));
    }
    parts.push(head);
    let mut j: usize = 0;
    let ghost start = parts@.map_values(|p: String| p@);
    while j < refs.len()
        invariant
            j <= refs.len() == 3,
            parts@.map_values(|p: String| p@) == start + refs_v.take(j as int),
            refs_v == refs@.map_values(|p: String| p@),
        decreases refs.len() - j,
    {
        let ghost prev = parts@;
        parts.push(refs[j].clone());
        assert(parts@.map_values(|p: String| p@) =~= prev.map_values(|p: String| p@).push(
            refs_v[j as int],
        ));
        assert(refs_v.take(j + 1) =~= refs_v.take(j as int).push(refs_v[j as int]));
        j = j + 1;
    }
    let r = join_paragraphs(&parts);
    proof {
        let all = parts@.map_values(|p: String| p@);
        let f = |p: Seq<char>| if p.len() > 0 { Some(p) } else { None::<Seq<char>> };
        let headv = spec_wrap_document("text-optimize"@, optimize_content@);
        assert(headv.len() > 0);
        assert(OPTIMIZE_CONTEXT_INSTRUCTION@.len() > 0) by {
            reveal_strlit("以下文档共同构成文本优化要求。先按 rules、vocabulary 和 voice-learning 修正转录文本，再按 text-optimize 处理输出样式。text-optimize 中限制修改原文的要求，不阻止执行上述转录修正。");
        }
        lemma_non_empty_append(start, refs_v);
        if any_ref {
            assert(start =~= seq![OPTIMIZE_CONTEXT_INSTRUCTION@, headv]);
            lemma_non_empty_of_non_empty(seq![OPTIMIZE_CONTEXT_INSTRUCTION@, headv]);
        } else {
            assert(start =~= seq![headv]);
            lemma_non_empty_of_non_empty(seq![headv]);
        }
        assert(refs_v.take(3) =~= refs_v);
    }
    r
}

/// Filtering out empty texts distributes over concatenation.
proof fn lemma_non_empty_append(a: Seq<Seq<char>>, b: Seq<Seq<char>>)
    ensures
        non_empty(a + b) == non_empty(a) + non_empty(b),
    decreases b.len(),
{
    if b.len() == 0 {
        assert(a + b =~= a);
        assert(non_empty(a) + non_empty(b) =~= non_empty(a));
    } else {
        lemma_non_empty_append(a, b.drop_last());
        assert((a + b).drop_last() =~= a + b.drop_last());
        assert((a + b).last() == b.last());
        let f = |p: Seq<char>| if p.len() > 0 { Some(p) } else { None::<Seq<char>> };
        if b.last().len() > 0 {
            assert(non_empty(a) + non_empty(b) =~= (non_empty(a) + non_empty(b.drop_last())).push(
                b.last(),
            ));
        } else {
            assert(non_empty(b) == non_empty(b.drop_last()));
        }
    }
}

/// Texts that are all non-empty pass the filter unchanged.
proof fn lemma_non_empty_of_non_empty(a: Seq<Seq<char>>)
    requires
        forall|k: int| 0 <= k < a.len() ==> #[trigger] a[k].len() > 0,
    ensures
        non_empty(a) == a,
    decreases a.len(),
{
    if a.len() > 0 {
        lemma_non_empty_of_non_empty(a.drop_last());
        assert(a.drop_last().push(a.last()) =~= a);
    }
}

/// The built-in prompt file of a built-in template.
pub open spec fn spec_builtin_prompt_filename(template_id: Seq<char>) -> Option<Seq<char>> {
    if template_id == "voice-optimize"@ {
        Some("text-optimize.md"@)
    } else if template_id == "voice-translate"@ {
        Some("voice-translate.md"@)
    } else if template_id == "image-extract"@ {
        Some("text-extract.md"@)
    } else if template_id == "image-translate"@ {
        Some("image-translate.md"@)
    } else {
        None
    }
}

/// The built-in prompt file of a built-in template, if it is one.
pub fn builtin_prompt_filename(template_id: &str) -> (r: Option<&'static str>)
    ensures
        match r {
            Some(f) => spec_builtin_prompt_filename(template_id@) == Some(f@),
            None => spec_builtin_prompt_filename(template_id@) is None,
        },
{
    let id = chars_of(template_id);
    if chars_eq(&id, &chars_of("voice-optimize")) {
        Some("text-optimize.md")
    } else if chars_eq(&id, &chars_of("voice-translate")) {
        Some("voice-translate.md")
    } else if chars_eq(&id, &chars_of("image-extract")) {
        Some("text-extract.md")
    } else if chars_eq(&id, &chars_of("image-translate")) {
        Some("image-translate.md")
    } else {
        None
    }
}

/// The custom prompt path of the first template with id `template_id`
/// (empty when there is no such template or it sets none).
pub open spec fn spec_template_prompt_path(templates: Seq<TemplateEntry>, template_id: Seq<char>) -> Seq<
    char,
>
    decreases templates.len(),
{
    if templates.len() == 0 {
        Seq::empty()
    } else if templates[0].id@ == template_id {
        templates[0].prompt@
    } else {
        spec_template_prompt_path(templates.drop_first(), template_id)
    }
}

/// The custom prompt file that a template sets, empty when none.
pub fn template_prompt_path(templates: &Vec<TemplateEntry>, template_id: &str) -> (r: String)
    ensures
        r@ == spec_template_prompt_path(templates@, template_id@),
{
    let id = chars_of(template_id);
    let mut i: usize = 0;
    assert(templates@.subrange(0, templates.len() as int) =~= templates@);
    while i < templates.len()
        invariant
            i <= templates.len(),
            id@ == template_id@,
            spec_template_prompt_path(templates@, template_id@) == spec_template_prompt_path(
                templates@.subrange(i as int, templates.len() as int),
                template_id@,
            ),
        decreases templates.len() - i,
    {
        let tid = chars_of(templates[i].id.as_str());
        assert(templates@.subrange(i as int, templates.len() as int)[0] == templates@[i as int]);
        if chars_eq(&tid, &id) {
            return templates[i].prompt.clone();
        }
        assert(templates@.subrange(i as int, templates.len() as int).drop_first() =~= templates@.subrange(
            i + 1,
            templates.len() as int,
        ));
        i = i + 1;
    }
    String::new()
}

/// The prompt of a template: the content of its custom file when that is
/// non-empty, else the content of its built-in file when it has one, else
/// nothing. `custom_content` is what the custom file held (empty when no
/// file is set or it could not be read), `builtin_content` what the built-in
/// file held.
pub fn load_template_prompt(template_id: &str, custom_content: &str, builtin_content: &str) -> (r:
    String)
    ensures
        custom_content@.len() > 0 ==> r@ == custom_content@,
        custom_content@.len() == 0 && spec_builtin_prompt_filename(template_id@) is Some ==> r@
            == builtin_content@,
        custom_content@.len() == 0 && spec_builtin_prompt_filename(template_id@) is None ==> r@
            == Seq::<char>::empty(),
{
    if custom_content.unicode_len() > 0 {
        return String::from_str(custom_content);
    }
    match builtin_prompt_filename(template_id) {
        Some(_) => String::from_str(builtin_content),
        None => String::new(),
    }
}

/// The image-recognition prompt of a template.
pub fn build_extract_prompt(template_id: &str, custom_content: &str, builtin_content: &str) -> (r:
    String)
    ensures
        custom_content@.len() > 0 ==> r@ == custom_content@,
        custom_content@.len() == 0 && spec_builtin_prompt_filename(template_id@) is Some ==> r@
            == builtin_content@,
        custom_content@.len() == 0 && spec_builtin_prompt_filename(template_id@) is None ==> r@
            == Seq::<char>::empty(),
{
    load_template_prompt(template_id, custom_content, builtin_content)
}

/// The files of the transcription references: the user's rules and
/// vocabulary files when set, else the built-in ones in `prompts_dir`.
pub fn resolve_transcription_reference_paths(
    rules_custom: &str,
    vocabulary_custom: &str,
    prompts_dir: &str,
) -> (r: (String, String))
    ensures
        rules_custom@.len() > 0 ==> r.0@ == rules_custom@,
        vocabulary_custom@.len() > 0 ==> r.1@ == vocabulary_custom@,
{
    let mut rules_file = String::from_str("rules");
    rules_file.append(".md");
    let rules_builtin = path_join(prompts_dir, rules_file.as_str());
    let vocabulary_builtin = path_join(prompts_dir, "vocabulary.md");
    (
        resolve_prompt_path(rules_custom, rules_builtin.as_str()),
        resolve_prompt_path(vocabulary_custom, vocabulary_builtin.as_str()),
    )
}

} // verus!
