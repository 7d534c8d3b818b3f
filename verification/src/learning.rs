//! The voice-learning document: a Markdown file whose `- ` lines are
//! correction rules that later transcriptions follow.
use vstd::prelude::*;

use crate::text::{
    decimal, decimal_chars, join, join_chars, path_join, push_chars, strip_suffix, strip_suffix_chars,
    chars_eq, chars_of, ends_with, ends_with_chars, lines, lines_of, strip_prefix,
    strip_prefix_chars, string_of, trim, trim_chars, views, is_ws, trim_start, trim_end, strip_cr,
    lemma_trim_edges, lemma_trim_idempotent, lemma_trim_len, lemma_trim_end_keeps_start,
    lemma_trim_strip_cr, lemma_lines_terminate, lemma_lines_concat, lemma_single_line, str_eq,
    joined_path, lemma_joined_no_question_mark, lemma_plain_component, no_question_mark, no_char,
    lemma_subrange_no_char, lemma_trim_no_char, lemma_lines_no_newline, starts_with,
};

verus! {

/// Heading written into a learning document that did not exist yet.
pub const DOCUMENT_HEADER: &'static str = "# 语音纠正学习\n\n以下规则由自动学习生成，供后续语音转写参考。\n\n";

// ---------------------------------------------------------------------------
// Specification
// ---------------------------------------------------------------------------

/// A rule written by a user or a model, cleaned: surrounding white space and
/// one leading `-` removed; `None` when nothing is left.
pub open spec fn spec_normalize_rule(rule: Seq<char>) -> Option<Seq<char>> {
    let t = trim(rule);
    let u = match strip_prefix(t, seq!['-']) {
        Some(x) => x,
        None => t,
    };
    let w = trim(u);
    if w.len() == 0 {
        None
    } else {
        Some(w)
    }
}

/// The rule that a document line holds: a trimmed line that starts with `- `.
pub open spec fn spec_rule_of_line(line: Seq<char>) -> Option<Seq<char>> {
    match strip_prefix(trim(line), seq!['-', ' ']) {
        Some(r) => spec_normalize_rule(r),
        None => None,
    }
}

/// The rules of a learning document, in document order.
pub open spec fn spec_parse_rules(content: Seq<char>) -> Seq<Seq<char>> {
    lines(content).filter_map(|l: Seq<char>| spec_rule_of_line(l))
}

/// `items` written as `- item` lines, each ending with a line feed.
pub open spec fn bullet_lines(items: Seq<Seq<char>>) -> Seq<char>
    decreases items.len(),
{
    if items.len() == 0 {
        Seq::empty()
    } else {
        bullet_lines(items.drop_last()) + seq!['-', ' '] + items.last() + seq!['\n']
    }
}

/// `lines` written back, each followed by a line feed.
pub open spec fn terminated_lines(ls: Seq<Seq<char>>) -> Seq<char>
    decreases ls.len(),
{
    if ls.len() == 0 {
        Seq::empty()
    } else {
        terminated_lines(ls.drop_last()) + ls.last() + seq!['\n']
    }
}

/// The document `content` with `additions` appended as new rule lines.
pub open spec fn spec_append_learning_items(content: Seq<char>, additions: Seq<Seq<char>>) -> Seq<
    char,
> {
    let base = if content.len() == 0 {
        DOCUMENT_HEADER@
    } else {
        content
    };
    let base = if ends_with(base, seq!['\n']) {
        base
    } else {
        base.push('\n')
    };
    base + bullet_lines(additions)
}

/// Keeps `x` when `keep(x)`.
pub open spec fn keep_if(keep: spec_fn(Seq<char>) -> bool) -> spec_fn(Seq<char>) -> Option<
    Seq<char>,
> {
    |x: Seq<char>| if keep(x) { Some(x) } else { None }
}

/// The lines of `content` whose rule is not in `removed`.
pub open spec fn kept_lines(content: Seq<char>, removed: Seq<Seq<char>>) -> Seq<Seq<char>> {
    lines(content).filter_map(
        keep_if(
            |l: Seq<char>|
                !(spec_rule_of_line(l) is Some && removed.contains(spec_rule_of_line(l)->0)),
        ),
    )
}

/// The document `content` rewritten so that its rules go from `old_rules` to
/// `new_rules`: lines of rules that left are dropped, every other line is
/// kept as it stands, and rules that are new and not yet present are
/// appended as `- rule` lines (under the standard heading when nothing else
/// is left).
pub open spec fn spec_update_rule_lines(
    content: Seq<char>,
    old_rules: Seq<Seq<char>>,
    new_rules: Seq<Seq<char>>,
) -> Seq<char> {
    let removed = old_rules.filter_map(keep_if(|r: Seq<char>| !new_rules.contains(r)));
    let kept = kept_lines(content, removed);
    let present = kept.filter_map(|l: Seq<char>| spec_rule_of_line(l));
    let missing = new_rules.filter_map(keep_if(|r: Seq<char>| !present.contains(r)));
    let out = terminated_lines(kept);
    let out = if out.len() == 0 && missing.len() > 0 {
        DOCUMENT_HEADER@
    } else if missing.len() > 0 && !ends_with(out, seq!['\n']) {
        out.push('\n')
    } else {
        out
    };
    out + bullet_lines(missing)
}

/// `acc` followed by the items of `items` that are not in it yet, each once.
pub open spec fn append_new(acc: Seq<Seq<char>>, items: Seq<Seq<char>>) -> Seq<Seq<char>>
    decreases items.len(),
{
    if items.len() == 0 {
        acc
    } else {
        let prev = append_new(acc, items.drop_last());
        if prev.contains(items.last()) {
            prev
        } else {
            prev.push(items.last())
        }
    }
}

/// The rules after a three-way merge: rules of `current` survive unless the
/// user removed them (in `base`, not in `edited`); rules the user added
/// (in `edited`, not in `base`) are added once.
pub open spec fn merged_rules(
    base: Seq<Seq<char>>,
    edited: Seq<Seq<char>>,
    current: Seq<Seq<char>>,
) -> Seq<Seq<char>> {
    let kept = current.filter_map(keep_if(|r: Seq<char>| !base.contains(r) || edited.contains(r)));
    let added = edited.filter_map(keep_if(|r: Seq<char>| !base.contains(r)));
    append_new(kept, added)
}

/// The user's edit of `base`, saved while the document had become `current`.
pub open spec fn spec_merge_user_document(
    base: Seq<char>,
    edited: Seq<char>,
    current: Seq<char>,
) -> Seq<char> {
    let edited_rules = spec_parse_rules(edited);
    spec_update_rule_lines(
        edited,
        edited_rules,
        merged_rules(spec_parse_rules(base), edited_rules, spec_parse_rules(current)),
    )
}

// ---------------------------------------------------------------------------
// Rules
// ---------------------------------------------------------------------------

/// Cleans one rule: trims it, drops one leading `-`, trims again.
pub fn normalize_rule(rule: &Vec<char>) -> (r: Option<Vec<char>>)
    ensures
        match r {
            Some(v) => spec_normalize_rule(rule@) == Some(v@),
            None => spec_normalize_rule(rule@) is None,
        },
{
    let t = trim_chars(rule);
    let dash = vec!['-'];
    let u = match strip_prefix_chars(&t, &dash) {
        Some(x) => x,
        None => t,
    };
    assert(seq!['-'] =~= dash@);
    let w = trim_chars(&u);
    if w.len() == 0 {
        None
    } else {
        Some(w)
    }
}

/// The rule held by one document line, if it is a `- ` line.
pub fn rule_of_line(line: &Vec<char>) -> (r: Option<Vec<char>>)
    ensures
        match r {
            Some(v) => spec_rule_of_line(line@) == Some(v@),
            None => spec_rule_of_line(line@) is None,
        },
{
    let t = trim_chars(line);
    let bullet = vec!['-', ' '];
    assert(seq!['-', ' '] =~= bullet@);
    match strip_prefix_chars(&t, &bullet) {
        Some(rest) => normalize_rule(&rest),
        None => None,
    }
}

/// The rules of a document, in order.
pub fn parse_rules(content: &Vec<char>) -> (r: Vec<Vec<char>>)
    ensures
        views(r@) == spec_parse_rules(content@),
{
    let ls = lines_of(content);
    let ghost ls_v = lines(content@);
    let ghost f = |l: Seq<char>| spec_rule_of_line(l);
    let mut r: Vec<Vec<char>> = Vec::new();
    let mut i: usize = 0;
    while i < ls.len()
        invariant
            i <= ls.len() == ls_v.len(),
            ls_v == lines(content@),
            f == (|l: Seq<char>| spec_rule_of_line(l)),
            forall|k: int| 0 <= k < ls.len() ==> #[trigger] ls@[k]@ == ls_v[k],
            views(r@) == ls_v.take(i as int).filter_map(f),
        decreases ls.len() - i,
    {
        let rule = rule_of_line(&ls[i]);
        proof {
            ls_v.lemma_filter_map_take_succ(f, i as int);
        }
        match rule {
            Some(v) => {
                r.push(v);
                assert(views(r@) =~= ls_v.take(i + 1).filter_map(f));
            },
            None => {
                assert(views(r@) =~= ls_v.take(i + 1).filter_map(f));
            },
        }
        i = i + 1;
    }
    assert(ls_v.take(ls.len() as int) =~= ls_v);
    r
}

/// `true` exactly when `v` holds a text equal to `x`.
pub fn contains_text(v: &Vec<Vec<char>>, x: &Vec<char>) -> (b: bool)
    ensures
        b == views(v@).contains(x@),
{
    let mut i: usize = 0;
    while i < v.len()
        invariant
            i <= v.len(),
            forall|k: int| 0 <= k < i ==> v@[k]@ != x@,
        decreases v.len() - i,
    {
        if chars_eq(&v[i], x) {
            assert(views(v@)[i as int] == x@);
            return true;
        }
        i = i + 1;
    }
    assert forall|k: int| 0 <= k < views(v@).len() implies views(v@)[k] != x@ by {
        assert(views(v@)[k] == v@[k]@);
    }
    false
}

fn push_bullet_line(out: &mut Vec<char>, item: &Vec<char>)
    ensures
        final(out)@ == old(out)@ + seq!['-', ' '] + item@ + seq!['\n'],
{
    out.push('-');
    out.push(' ');
    out.extend_from_slice(item.as_slice());
    out.push('\n');
    assert(out@ =~= old(out)@ + seq!['-', ' '] + item@ + seq!['\n']);
}

fn append_bullets(out: &mut Vec<char>, items: &Vec<Vec<char>>)
    ensures
        final(out)@ == old(out)@ + bullet_lines(views(items@)),
{
    let ghost start = out@;
    let mut i: usize = 0;
    while i < items.len()
        invariant
            i <= items.len(),
            out@ == start + bullet_lines(views(items@).take(i as int)),
        decreases items.len() - i,
    {
        push_bullet_line(out, &items[i]);
        proof {
            let t = views(items@).take(i + 1);
            assert(t.drop_last() =~= views(items@).take(i as int));
            assert(t.last() == items@[i as int]@);
        }
        i = i + 1;
    }
    assert(views(items@).take(items.len() as int) =~= views(items@));
}

fn header_chars() -> (v: Vec<char>)
    ensures
        v@ == DOCUMENT_HEADER@,
{
    chars_of(DOCUMENT_HEADER)
}

/// Appends each of `additions` as a `- ` line to a learning document; an
/// empty document first gets the standard heading.
pub fn append_learning_items(content: &str, additions: &Vec<String>) -> (r: String)
    ensures
        r@ == spec_append_learning_items(content@, additions@.map_values(|a: String| a@)),
{
    let c = chars_of(content);
    let mut items: Vec<Vec<char>> = Vec::new();
    let mut i: usize = 0;
    while i < additions.len()
        invariant
            i <= additions.len(),
            views(items@) == additions@.map_values(|a: String| a@).take(i as int),
        decreases additions.len() - i,
    {
        let ch = chars_of(additions[i].as_str());
        assert(ch@ == additions@[i as int]@);
        let ghost prev = items@;
        items.push(ch);
        assert(views(items@) =~= views(prev).push(ch@));
        assert(additions@.map_values(|a: String| a@).take(i + 1) =~= additions@.map_values(
            |a: String| a@,
        ).take(i as int).push(additions@[i as int]@));
        i = i + 1;
    }
    assert(additions@.map_values(|a: String| a@).take(additions.len() as int) =~= additions@.map_values(
        |a: String| a@,
    ));
    let out = append_items_chars(&c, &items);
    string_of(&out)
}

fn append_items_chars(c: &Vec<char>, items: &Vec<Vec<char>>) -> (r: Vec<char>)
    ensures
        r@ == spec_append_learning_items(c@, views(items@)),
{
    let mut out = if c.len() == 0 {
        header_chars()
    } else {
        c.clone()
    };
    let nl = vec!['\n'];
    assert(nl@ =~= seq!['\n']);
    if !ends_with_chars(&out, &nl) {
        out.push('\n');
    }
    append_bullets(&mut out, items);
    out
}

/// Writes `ls` back as text, each line followed by a line feed.
fn write_terminated(ls: &Vec<Vec<char>>) -> (r: Vec<char>)
    ensures
        r@ == terminated_lines(views(ls@)),
{
    let mut out: Vec<char> = Vec::new();
    let mut i: usize = 0;
    while i < ls.len()
        invariant
            i <= ls.len(),
            out@ == terminated_lines(views(ls@).take(i as int)),
        decreases ls.len() - i,
    {
        out.extend_from_slice(ls[i].as_slice());
        out.push('\n');
        proof {
            let t = views(ls@).take(i + 1);
            assert(t.drop_last() =~= views(ls@).take(i as int));
            assert(t.last() == ls@[i as int]@);
        }
        i = i + 1;
    }
    assert(views(ls@).take(ls.len() as int) =~= views(ls@));
    out
}

/// The items of `items` for which `keep` holds, by a flag per item.
fn select(items: &Vec<Vec<char>>, flags: &Vec<bool>, keep: Ghost<spec_fn(Seq<char>) -> bool>) -> (r:
    Vec<Vec<char>>)
    requires
        flags.len() == items.len(),
        forall|k: int| 0 <= k < items.len() ==> flags@[k] == (keep@)(#[trigger] items@[k]@),
    ensures
        views(r@) == views(items@).filter_map(keep_if(keep@)),
{
    let ghost f = keep_if(keep@);
    let mut r: Vec<Vec<char>> = Vec::new();
    let mut i: usize = 0;
    while i < items.len()
        invariant
            i <= items.len() == flags.len(),
            f == keep_if(keep@),
            forall|k: int| 0 <= k < items.len() ==> flags@[k] == (keep@)(#[trigger] items@[k]@),
            views(r@) == views(items@).take(i as int).filter_map(f),
        decreases items.len() - i,
    {
        proof {
            views(items@).lemma_filter_map_take_succ(f, i as int);
            assert(views(items@)[i as int] == items@[i as int]@);
        }
        if flags[i] {
            r.push(items[i].clone());
        }
        assert(views(r@) =~= views(items@).take(i + 1).filter_map(f));
        i = i + 1;
    }
    assert(views(items@).take(items.len() as int) =~= views(items@));
    r
}

/// Items of `items` that are not in `among`.
fn not_in(items: &Vec<Vec<char>>, among: &Vec<Vec<char>>) -> (r: Vec<Vec<char>>)
    ensures
        views(r@) == views(items@).filter_map(
            keep_if(|x: Seq<char>| !views(among@).contains(x)),
        ),
{
    let ghost keep = |x: Seq<char>| !views(among@).contains(x);
    let mut flags: Vec<bool> = Vec::new();
    let mut i: usize = 0;
    while i < items.len()
        invariant
            i <= items.len(),
            flags.len() == i,
            keep == (|x: Seq<char>| !views(among@).contains(x)),
            forall|k: int| 0 <= k < i ==> flags@[k] == keep(#[trigger] items@[k]@),
        decreases items.len() - i,
    {
        flags.push(!contains_text(among, &items[i]));
        i = i + 1;
    }
    select(items, &flags, Ghost(keep))
}

/// Rewrites `content` so that its rules go from `old_rules` to `new_rules`.
pub fn update_rule_lines(content: &Vec<char>, old_rules: &Vec<Vec<char>>, new_rules: &Vec<Vec<char>>) -> (r:
    Vec<char>)
    ensures
        r@ == spec_update_rule_lines(content@, views(old_rules@), views(new_rules@)),
{
    let removed = not_in(old_rules, new_rules);
    let ls = lines_of(content);
    assert(views(ls@) =~= lines(content@)) by {
        assert forall|k: int| 0 <= k < ls@.len() implies views(ls@)[k] == lines(content@)[k] by {
            assert(ls@[k]@ == lines(content@)[k]);
        }
    }
    let ghost drop_line = |l: Seq<char>|
        !(spec_rule_of_line(l) is Some && views(removed@).contains(spec_rule_of_line(l)->0));
    let mut flags: Vec<bool> = Vec::new();
    let mut i: usize = 0;
    while i < ls.len()
        invariant
            i <= ls.len(),
            flags.len() == i,
            drop_line == (|l: Seq<char>|
                !(spec_rule_of_line(l) is Some && views(removed@).contains(
                    spec_rule_of_line(l)->0,
                ))),
            forall|k: int| 0 <= k < i ==> flags@[k] == drop_line(#[trigger] ls@[k]@),
        decreases ls.len() - i,
    {
        let keep = match rule_of_line(&ls[i]) {
            Some(rule) => !contains_text(&removed, &rule),
            None => true,
        };
        flags.push(keep);
        i = i + 1;
    }
    let kept = select(&ls, &flags, Ghost(drop_line));
    let mut present: Vec<Vec<char>> = Vec::new();
    let ghost g = |l: Seq<char>| spec_rule_of_line(l);
    let mut j: usize = 0;
    while j < kept.len()
        invariant
            j <= kept.len(),
            g == (|l: Seq<char>| spec_rule_of_line(l)),
            views(present@) == views(kept@).take(j as int).filter_map(g),
        decreases kept.len() - j,
    {
        proof {
            views(kept@).lemma_filter_map_take_succ(g, j as int);
            assert(views(kept@)[j as int] == kept@[j as int]@);
        }
        match rule_of_line(&kept[j]) {
            Some(rule) => {
                present.push(rule);
            },
            None => {},
        }
        assert(views(present@) =~= views(kept@).take(j + 1).filter_map(g));
        j = j + 1;
    }
    assert(views(kept@).take(kept.len() as int) =~= views(kept@));
    let missing = not_in(new_rules, &present);
    let mut out = write_terminated(&kept);
    let nl = vec!['\n'];
    assert(nl@ =~= seq!['\n']);
    if out.len() == 0 && missing.len() > 0 {
        out = header_chars();
    } else if missing.len() > 0 && !ends_with_chars(&out, &nl) {
        out.push('\n');
    }
    append_bullets(&mut out, &missing);
    proof {
        let removed_s = views(old_rules@).filter_map(
            keep_if(|r: Seq<char>| !views(new_rules@).contains(r)),
        );
        assert(views(removed@) == removed_s);
        assert(views(kept@) == kept_lines(content@, removed_s));
    }
    out
}

/// Appends to `acc` each item of `items` that it does not hold yet.
fn push_new(acc: &mut Vec<Vec<char>>, items: &Vec<Vec<char>>)
    ensures
        views(final(acc)@) == append_new(views(old(acc)@), views(items@)),
{
    let ghost start = views(acc@);
    let mut i: usize = 0;
    while i < items.len()
        invariant
            i <= items.len(),
            views(acc@) == append_new(start, views(items@).take(i as int)),
        decreases items.len() - i,
    {
        let seen = contains_text(acc, &items[i]);
        proof {
            let t = views(items@).take(i + 1);
            assert(t.drop_last() =~= views(items@).take(i as int));
            assert(t.last() == items@[i as int]@);
        }
        if !seen {
            let ghost prev = acc@;
            acc.push(items[i].clone());
            assert(views(acc@) =~= views(prev).push(items@[i as int]@));
        }
        i = i + 1;
    }
    assert(views(items@).take(items.len() as int) =~= views(items@));
}

/// Saves the user's edit `edited` of `base` onto a document that meanwhile
/// became `current`: rules added elsewhere since `base` survive, rules the
/// user removed go, rules the user added are added, and the user's own text
/// is kept.
pub fn merge_user_document(base: &str, edited: &str, current: &str) -> (r: String)
    ensures
        r@ == spec_merge_user_document(base@, edited@, current@),
{
    let base_v = chars_of(base);
    let edited_v = chars_of(edited);
    let current_v = chars_of(current);
    let base_rules = parse_rules(&base_v);
    let edited_rules = parse_rules(&edited_v);
    let current_rules = parse_rules(&current_v);
    let ghost keep_current = |r: Seq<char>|
        !views(base_rules@).contains(r) || views(edited_rules@).contains(r);
    let mut flags: Vec<bool> = Vec::new();
    let mut i: usize = 0;
    while i < current_rules.len()
        invariant
            i <= current_rules.len(),
            flags.len() == i,
            keep_current == (|r: Seq<char>|
                !views(base_rules@).contains(r) || views(edited_rules@).contains(r)),
            forall|k: int| 0 <= k < i ==> flags@[k] == keep_current(#[trigger] current_rules@[k]@),
        decreases current_rules.len() - i,
    {
        let keep = !contains_text(&base_rules, &current_rules[i]) || contains_text(
            &edited_rules,
            &current_rules[i],
        );
        flags.push(keep);
        i = i + 1;
    }
    let mut merged = select(&current_rules, &flags, Ghost(keep_current));
    let added = not_in(&edited_rules, &base_rules);
    push_new(&mut merged, &added);
    let out = update_rule_lines(&edited_v, &edited_rules, &merged);
    string_of(&out)
}


// ---------------------------------------------------------------------------
// Generated learning items
// ---------------------------------------------------------------------------

/// One learned item: a vocabulary entry or a transcription rule.
#[derive(Debug, Clone, PartialEq, Eq)]
pub enum LearningItem {
    Vocabulary(String),
    Rule(String),
}

/// Vocabulary items are `(true, value)`, rules `(false, value)`.
pub open spec fn item_view(item: LearningItem) -> (bool, Seq<char>) {
    match item {
        LearningItem::Vocabulary(v) => (true, v@),
        LearningItem::Rule(v) => (false, v@),
    }
}

pub open spec fn vocabulary_tag() -> Seq<char> {
    "词汇："@
}

pub open spec fn rule_tag() -> Seq<char> {
    "规则："@
}

/// The document text of an item: its tag followed by its value.
pub open spec fn item_text(item: (bool, Seq<char>)) -> Seq<char> {
    if item.0 {
        vocabulary_tag() + item.1
    } else {
        rule_tag() + item.1
    }
}

/// The error for a line `n` (counted from 1) without a known tag.
pub open spec fn untyped_line_error(n: nat) -> Seq<char> {
    "学习结果第"@ + decimal(n) + "行格式不正确，请以「词汇：」或「规则：」开头"@
}

/// The error for a line `n` (counted from 1) whose value is empty.
pub open spec fn empty_line_error(n: nat) -> Seq<char> {
    "学习结果第"@ + decimal(n) + "行内容不能为空"@
}

/// A generated line with its list dash and surrounding space removed.
pub open spec fn item_body(line: Seq<char>) -> Seq<char> {
    let t = trim(line);
    let u = match strip_prefix(t, seq!['-']) {
        Some(x) => x,
        None => t,
    };
    trim(u)
}

/// The item on line `i` (counted from 0): `Ok(None)` for a blank line.
pub open spec fn parse_item_line(line: Seq<char>, i: nat) -> Result<Option<(bool, Seq<char>)>, Seq<char>> {
    let body = item_body(line);
    if body.len() == 0 {
        Ok(None)
    } else {
        let parsed = match strip_prefix(body, vocabulary_tag()) {
            Some(x) => Some((true, trim(x))),
            None => match strip_prefix(body, rule_tag()) {
                Some(x) => Some((false, trim(x))),
                None => None,
            },
        };
        match parsed {
            None => Err(untyped_line_error(i + 1)),
            Some(item) => if item.1.len() == 0 {
                Err(empty_line_error(i + 1))
            } else {
                Ok(Some(item))
            },
        }
    }
}

/// The items of lines `i..` of `ls`, or the error of the first bad line.
pub open spec fn parse_items_from(ls: Seq<Seq<char>>, i: int) -> Result<Seq<(bool, Seq<char>)>, Seq<char>>
    decreases ls.len() - i,
{
    if i < 0 || i >= ls.len() {
        Ok(Seq::empty())
    } else {
        match parse_item_line(ls[i], i as nat) {
            Err(e) => Err(e),
            Ok(None) => parse_items_from(ls, i + 1),
            Ok(Some(item)) => match parse_items_from(ls, i + 1) {
                Ok(rest) => Ok(seq![item] + rest),
                Err(e) => Err(e),
            },
        }
    }
}

/// The items of a generated text, one per non-blank line.
pub open spec fn spec_parse_generated_items(generated: Seq<char>) -> Result<Seq<(bool, Seq<char>)>, Seq<char>> {
    parse_items_from(lines(generated), 0)
}

pub open spec fn prepend_items(acc: Seq<(bool, Seq<char>)>, r: Result<Seq<(bool, Seq<char>)>, Seq<char>>) -> Result<Seq<(bool, Seq<char>)>, Seq<char>> {
    match r {
        Ok(rest) => Ok(acc + rest),
        Err(e) => Err(e),
    }
}

impl LearningItem {
    /// The item as a document line: its tag followed by its value.
    pub fn into_document_text(self) -> (r: String)
        ensures
            r@ == item_text(item_view(self)),
    {
        self.document_text()
    }

    /// The item as a document line, without consuming it.
    pub fn document_text(&self) -> (r: String)
        ensures
            r@ == item_text(item_view(*self)),
    {
        match self {
            LearningItem::Vocabulary(value) => {
                let mut out = String::from_str("词汇：");
                out.append(value.as_str());
                out
            },
            LearningItem::Rule(value) => {
                let mut out = String::from_str("规则：");
                out.append(value.as_str());
                out
            },
        }
    }
}

/// Reads the items of a generated text, one per non-blank line, each tagged
/// `词汇：` or `规则：`; the first untagged or empty line is an error.
pub fn parse_generated_items(generated: &str) -> (r: Result<Vec<LearningItem>, String>)
    ensures
        match r {
            Ok(items) => spec_parse_generated_items(generated@) == Ok::<Seq<(bool, Seq<char>)>, Seq<char>>(
                items@.map_values(|it: LearningItem| item_view(it)),
            ),
            Err(e) => spec_parse_generated_items(generated@) == Err::<Seq<(bool, Seq<char>)>, Seq<char>>(e@),
        },
{
    let text = chars_of(generated);
    let ls = lines_of(&text);
    let ghost ls_v = lines(text@);
    let vocab = chars_of("词汇：");
    let rule = chars_of("规则：");
    let mut items: Vec<LearningItem> = Vec::new();
    let mut i: usize = 0;
    while i < ls.len()
        invariant
            i <= ls.len() == ls_v.len(),
            ls_v == lines(generated@),
            vocab@ == vocabulary_tag(),
            rule@ == rule_tag(),
            forall|k: int| 0 <= k < ls.len() ==> #[trigger] ls@[k]@ == ls_v[k],
            parse_items_from(ls_v, 0) == prepend_items(
                items@.map_values(|it: LearningItem| item_view(it)),
                parse_items_from(ls_v, i as int),
            ),
        decreases ls.len() - i,
    {
        let ghost acc = items@.map_values(|it: LearningItem| item_view(it));
        let t = trim_chars(&ls[i]);
        let dash = vec!['-'];
        assert(dash@ =~= seq!['-']);
        let u = match strip_prefix_chars(&t, &dash) {
            Some(x) => x,
            None => t,
        };
        let body = trim_chars(&u);
        assert(body@ == item_body(ls_v[i as int]));
        if body.len() == 0 {
            i = i + 1;
            continue;
        }
        let parsed = match strip_prefix_chars(&body, &vocab) {
            Some(x) => Some((true, trim_chars(&x))),
            None => match strip_prefix_chars(&body, &rule) {
                Some(x) => Some((false, trim_chars(&x))),
                None => None,
            },
        };
        match parsed {
            None => {
                let e = line_error(i, true);
                return Err(e);
            },
            Some((is_vocab, value)) => {
                if value.len() == 0 {
                    let e = line_error(i, false);
                    return Err(e);
                }
                let value_s = string_of(&value);
                let item = if is_vocab {
                    LearningItem::Vocabulary(value_s)
                } else {
                    LearningItem::Rule(value_s)
                };
                items.push(item);
                proof {
                    let it = (is_vocab, value@);
                    assert(items@.map_values(|it: LearningItem| item_view(it)) =~= acc.push(it));
                    match parse_items_from(ls_v, i + 1) {
                        Ok(rest) => {
                            assert(acc + (seq![it] + rest) =~= acc.push(it) + rest);
                        },
                        Err(_) => {},
                    }
                }
            },
        }
        i = i + 1;
    }
    proof {
        let acc = items@.map_values(|it: LearningItem| item_view(it));
        assert(acc + Seq::<(bool, Seq<char>)>::empty() =~= acc);
    }
    Ok(items)
}

/// The error message for line `i` (counted from 0).
fn line_error(i: usize, untyped: bool) -> (e: String)
    requires
        i < usize::MAX,
    ensures
        untyped ==> e@ == untyped_line_error((i + 1) as nat),
        !untyped ==> e@ == empty_line_error((i + 1) as nat),
{
    let mut out = String::from_str("学习结果第");
    let n = decimal_chars((i + 1) as u64);
    push_chars(&mut out, &n);
    if untyped {
        out.append("行格式不正确，请以「词汇：」或「规则：」开头");
    } else {
        out.append("行内容不能为空");
    }
    out
}


// ---------------------------------------------------------------------------
// Applying learned items
// ---------------------------------------------------------------------------

/// What applying learned content did to the learning document.
#[derive(Debug, Clone, Copy, PartialEq, Eq)]
pub enum LearningOutcome {
    Unrelated,
    NoChange,
    Updated { added: usize, removed: usize },
}

/// The outcome of an update and the new document text, when there is one.
#[derive(Debug, Clone, PartialEq, Eq)]
pub struct LearningUpdate {
    pub outcome: LearningOutcome,
    pub document: Option<String>,
}

/// The document texts of learned items that `existing` does not hold as
/// rules yet, each once, in order.
pub open spec fn spec_generated_additions(existing: Seq<char>, items: Seq<(bool, Seq<char>)>) -> Seq<
    Seq<char>,
> {
    let texts = items.map_values(|it: (bool, Seq<char>)| item_text(it));
    let rules = spec_parse_rules(existing);
    append_new(Seq::empty(), texts.filter_map(keep_if(|t: Seq<char>| !rules.contains(t))))
}

/// The update that appending `additions` to `existing` makes.
pub open spec fn update_for(existing: Seq<char>, additions: Seq<Seq<char>>, outcome: LearningOutcome, document: Option<String>) -> bool {
    if additions.len() == 0 {
        outcome == LearningOutcome::NoChange && document is None
    } else {
        &&& outcome == (LearningOutcome::Updated { added: additions.len() as usize, removed: 0 })
        &&& document is Some
        &&& document->0@ == spec_append_learning_items(existing, additions)
    }
}

fn to_char_vecs(v: &Vec<String>) -> (r: Vec<Vec<char>>)
    ensures
        views(r@) == v@.map_values(|s: String| s@),
{
    let mut r: Vec<Vec<char>> = Vec::new();
    let mut i: usize = 0;
    while i < v.len()
        invariant
            i <= v.len(),
            views(r@) == v@.map_values(|s: String| s@).take(i as int),
        decreases v.len() - i,
    {
        let ch = chars_of(v[i].as_str());
        let ghost prev = r@;
        r.push(ch);
        assert(views(r@) =~= views(prev).push(ch@));
        assert(v@.map_values(|s: String| s@).take(i + 1) =~= v@.map_values(|s: String| s@).take(
            i as int,
        ).push(v@[i as int]@));
        i = i + 1;
    }
    assert(v@.map_values(|s: String| s@).take(v.len() as int) =~= v@.map_values(|s: String| s@));
    r
}

fn update_with(existing: &Vec<char>, additions: &Vec<Vec<char>>) -> (u: LearningUpdate)
    ensures
        update_for(existing@, views(additions@), u.outcome, u.document),
{
    if additions.len() == 0 {
        return LearningUpdate { outcome: LearningOutcome::NoChange, document: None };
    }
    let doc = append_items_chars(existing, additions);
    LearningUpdate {
        outcome: LearningOutcome::Updated { added: additions.len(), removed: 0 },
        document: Some(string_of(&doc)),
    }
}

/// Applies a generated (possibly user-edited) learning text to the document
/// `existing`: each tagged line becomes a `- ` rule unless the document
/// already holds it or an earlier line gave it.
pub fn apply_generated_text(existing: &str, generated: &str) -> (r: Result<LearningUpdate, String>)
    ensures
        match spec_parse_generated_items(generated@) {
            Err(e) => r is Err && r->Err_0@ == e,
            Ok(items) => r is Ok && update_for(
                existing@,
                spec_generated_additions(existing@, items),
                r->Ok_0.outcome,
                r->Ok_0.document,
            ),
        },
{
    let existing_v = chars_of(existing);
    let existing_rules = parse_rules(&existing_v);
    let items = match parse_generated_items(generated) {
        Ok(items) => items,
        Err(e) => return Err(e),
    };
    let ghost items_v = items@.map_values(|it: LearningItem| item_view(it));
    let ghost texts = items_v.map_values(|it: (bool, Seq<char>)| item_text(it));
    let mut text_vecs: Vec<Vec<char>> = Vec::new();
    let mut i: usize = 0;
    while i < items.len()
        invariant
            i <= items.len(),
            items_v == items@.map_values(|it: LearningItem| item_view(it)),
            texts == items_v.map_values(|it: (bool, Seq<char>)| item_text(it)),
            views(text_vecs@) == texts.take(i as int),
        decreases items.len() - i,
    {
        let t = items[i].document_text();
        let ch = chars_of(t.as_str());
        let ghost prev = text_vecs@;
        text_vecs.push(ch);
        assert(views(text_vecs@) =~= views(prev).push(ch@));
        assert(texts.take(i + 1) =~= texts.take(i as int).push(texts[i as int]));
        i = i + 1;
    }
    assert(texts.take(items.len() as int) =~= texts);
    let fresh = not_in(&text_vecs, &existing_rules);
    let mut additions: Vec<Vec<char>> = Vec::new();
    assert(views(additions@) =~= Seq::<Seq<char>>::empty());
    push_new(&mut additions, &fresh);
    Ok(update_with(&existing_v, &additions))
}

/// A model's verdict on a user's correction.
#[derive(Debug, Clone, PartialEq, Eq)]
pub struct LearningAnalysis {
    pub related: bool,
    pub remove: Vec<String>,
    pub add: Vec<String>,
}

/// The rules of `add` that survive cleaning, in order.
pub open spec fn normalized_additions(add: Seq<Seq<char>>) -> Seq<Seq<char>> {
    add.filter_map(|r: Seq<char>| spec_normalize_rule(r))
}

/// Applies a model's analysis to the document `existing`: unrelated text
/// changes nothing; otherwise every added rule that survives cleaning is
/// appended (nothing is ever removed).
pub fn apply_analysis(existing: &str, analysis: &LearningAnalysis) -> (u: LearningUpdate)
    ensures
        !analysis.related ==> u.outcome == LearningOutcome::Unrelated && u.document is None,
        analysis.related ==> update_for(
            existing@,
            normalized_additions(analysis.add@.map_values(|s: String| s@)),
            u.outcome,
            u.document,
        ),
{
    if !analysis.related {
        return LearningUpdate { outcome: LearningOutcome::Unrelated, document: None };
    }
    let adds = to_char_vecs(&analysis.add);
    let ghost adds_v = views(adds@);
    let ghost f = |r: Seq<char>| spec_normalize_rule(r);
    let mut additions: Vec<Vec<char>> = Vec::new();
    let mut i: usize = 0;
    while i < adds.len()
        invariant
            i <= adds.len(),
            adds_v == views(adds@),
            f == (|r: Seq<char>| spec_normalize_rule(r)),
            views(additions@) == adds_v.take(i as int).filter_map(f),
        decreases adds.len() - i,
    {
        proof {
            adds_v.lemma_filter_map_take_succ(f, i as int);
            assert(adds_v[i as int] == adds@[i as int]@);
        }
        match normalize_rule(&adds[i]) {
            Some(rule) => {
                let ghost prev = additions@;
                additions.push(rule);
                assert(views(additions@) =~= views(prev).push(rule@));
            },
            None => {},
        }
        assert(views(additions@) =~= adds_v.take(i + 1).filter_map(f));
        i = i + 1;
    }
    assert(adds_v.take(adds.len() as int) =~= adds_v);
    let existing_v = chars_of(existing);
    update_with(&existing_v, &additions)
}

/// The body of a model reply: trimmed, with a surrounding Markdown code fence
/// (optionally tagged `json`) taken off.
pub open spec fn spec_json_body(response: Seq<char>) -> Seq<char> {
    let t = trim(response);
    match strip_prefix(t, "```"@) {
        Some(f) => {
            let f = match strip_prefix(f, "json"@) {
                Some(g) => g,
                None => f,
            };
            let f = match strip_suffix(f, "```"@) {
                Some(g) => g,
                None => f,
            };
            trim(f)
        },
        None => t,
    }
}

/// The JSON text inside a model reply, as the analysis parser reads it.
pub fn json_body(response: &str) -> (r: String)
    ensures
        r@ == spec_json_body(response@),
{
    let t = trim_chars(&chars_of(response));
    let fence = chars_of("```");
    match strip_prefix_chars(&t, &fence) {
        Some(f) => {
            let tag = chars_of("json");
            let f = match strip_prefix_chars(&f, &tag) {
                Some(g) => g,
                None => f,
            };
            let f = match strip_suffix_chars(&f, &fence) {
                Some(g) => g,
                None => f,
            };
            string_of(&trim_chars(&f))
        },
        None => string_of(&t),
    }
}

// ---------------------------------------------------------------------------
// Model input and drafts
// ---------------------------------------------------------------------------

/// The JSON string literal for `s`, as `serde_json::to_string` writes a
/// `&str` (quotes and escapes).
pub uninterp spec fn json_string_literal(s: Seq<char>) -> Seq<char>;

/// Writes `s` as a JSON string literal with `serde_json::to_string`, which
/// cannot fail for a `&str`; the result is named, not spelled out.
#[verifier::external_body]
fn json_quote(s: &str) -> (r: String)
    ensures
        r@ == json_string_literal(s@),
{
    match serde_json::to_string(s) {
        Ok(text) => text,
        Err(_) => String::new(),
    }
}

/// The JSON object that the learning model reads, with its keys in the
/// sorted order in which `serde_json` writes an object.
pub open spec fn spec_learning_input(
    original: Seq<char>,
    corrected: Seq<char>,
    transcription_rules: Seq<char>,
    vocabulary: Seq<char>,
    auto_learning: Seq<char>,
) -> Seq<char> {
    "{\"corrected\":"@ + json_string_literal(corrected) + ",\"existingContent\":{\"autoLearning\":"@
        + json_string_literal(auto_learning) + ",\"transcriptionRules\":"@ + json_string_literal(
        transcription_rules,
    ) + ",\"vocabulary\":"@ + json_string_literal(vocabulary) + "},\"original\":"@ + json_string_literal(
        original,
    ) + "}"@
}

/// The JSON input for the learning model: the last output, the user's
/// correction and the existing rules, vocabulary and learned content.
pub fn build_learning_input(
    original: &str,
    corrected: &str,
    transcription_rules: &str,
    vocabulary: &str,
    auto_learning: &str,
) -> (r: String)
    ensures
        r@ == spec_learning_input(original@, corrected@, transcription_rules@, vocabulary@, auto_learning@),
{
    let mut out = String::from_str("{\"corrected\":");
    out.append(json_quote(corrected).as_str());
    out.append(",\"existingContent\":{\"autoLearning\":");
    out.append(json_quote(auto_learning).as_str());
    out.append(",\"transcriptionRules\":");
    out.append(json_quote(transcription_rules).as_str());
    out.append(",\"vocabulary\":");
    out.append(json_quote(vocabulary).as_str());
    out.append("},\"original\":");
    out.append(json_quote(original).as_str());
    out.append("}");
    out
}

/// A learning draft shown to the user before anything is written.
#[derive(Debug, Clone, PartialEq, Eq)]
pub struct LearningDraft {
    pub original: String,
    pub corrected: String,
    pub generated: String,
    pub notice: String,
}

/// The learning document and where it lives.
#[derive(Debug, Clone, PartialEq, Eq)]
pub struct LearningDocument {
    pub path: String,
    pub content: String,
}

/// How many items an apply added.
#[derive(Debug, Clone, Copy, PartialEq, Eq)]
pub struct LearningApplyResult {
    pub added: usize,
}

/// A field-by-field copy of a draft.
pub fn copy_draft(d: &LearningDraft) -> (r: LearningDraft)
    ensures
        r == *d,
{
    LearningDraft {
        original: d.original.clone(),
        corrected: d.corrected.clone(),
        generated: d.generated.clone(),
        notice: d.notice.clone(),
    }
}

/// The notice for a draft of `n` generated items.
pub open spec fn generated_notice(n: nat) -> Seq<char> {
    "AI生成了"@ + decimal(n) + "条学习内容，确认后才会录入。"@
}

/// The items of `add` joined by line feeds.
pub open spec fn joined_items(add: Seq<Seq<char>>) -> Seq<char> {
    join(add, seq!['\n'])
}

/// The draft for a model's analysis of a correction.
pub fn draft_from_analysis(original: String, corrected: String, analysis: &LearningAnalysis) -> (d:
    LearningDraft)
    requires
        analysis.add.len() < u64::MAX,
    ensures
        d.original == original,
        d.corrected == corrected,
        !analysis.related ==> d.generated@ == Seq::<char>::empty()
            && d.notice@ == "没有识别到可学习的修改，可以编辑前两栏后重新生成。"@,
        analysis.related && analysis.add.len() == 0 ==> d.generated@ == Seq::<char>::empty()
            && d.notice@ == "已有规则覆盖了本次修改，也可以在右栏手动填写。"@,
        analysis.related && analysis.add.len() > 0 ==> d.generated@ == joined_items(
            analysis.add@.map_values(|s: String| s@),
        ) && d.notice@ == generated_notice(analysis.add.len() as nat),
{
    if !analysis.related {
        return LearningDraft {
            original,
            corrected,
            generated: String::new(),
            notice: String::from_str("没有识别到可学习的修改，可以编辑前两栏后重新生成。"),
        };
    }
    if analysis.add.len() == 0 {
        return LearningDraft {
            original,
            corrected,
            generated: String::new(),
            notice: String::from_str("已有规则覆盖了本次修改，也可以在右栏手动填写。"),
        };
    }
    let parts = to_char_vecs(&analysis.add);
    let nl = vec!['\n'];
    assert(nl@ =~= seq!['\n']);
    let joined = join_chars(&parts, &nl);
    assert(parts@.map_values(|p: Vec<char>| p@) == views(parts@));
    let mut notice = String::from_str("AI生成了");
    push_chars(&mut notice, &decimal_chars(analysis.add.len() as u64));
    notice.append("条学习内容，确认后才会录入。");
    LearningDraft { original, corrected, generated: string_of(&joined), notice }
}

/// The draft opened when the clipboard holds no correction.
pub fn empty_clipboard_draft(original: String) -> (d: LearningDraft)
    ensures
        d.original == original,
        d.corrected@ == Seq::<char>::empty(),
        d.generated@ == Seq::<char>::empty(),
        d.notice@ == "请在中栏输入自然语言新增要求，再点击重新生成。"@,
{
    LearningDraft {
        original,
        corrected: String::new(),
        generated: String::new(),
        notice: String::from_str("请在中栏输入自然语言新增要求，再点击重新生成。"),
    }
}

/// A correction must hold more than white space.
pub fn check_correction(corrected: &str) -> (r: Result<(), String>)
    ensures
        r is Ok <==> trim(corrected@).len() > 0,
        r is Err ==> r->Err_0@ == "用户修订不能为空"@,
{
    if trim_chars(&chars_of(corrected)).len() == 0 {
        Err(String::from_str("用户修订不能为空"))
    } else {
        Ok(())
    }
}

/// A learning prompt must hold more than white space.
pub fn check_prompt_content(content: String) -> (r: Result<String, String>)
    ensures
        trim(content@).len() > 0 ==> r == Ok::<String, String>(content),
        trim(content@).len() == 0 ==> r is Err && r->Err_0@ == "自动学习提示词不能为空"@,
{
    if trim_chars(&chars_of(content.as_str())).len() == 0 {
        Err(String::from_str("自动学习提示词不能为空"))
    } else {
        Ok(content)
    }
}

/// Applies learned content that the user confirmed: empty content is
/// refused; otherwise it goes through `apply_generated_text`.
pub fn apply_confirmed_text(existing: &str, generated: &str) -> (r: Result<LearningUpdate, String>)
    ensures
        trim(generated@).len() == 0 ==> r is Err && r->Err_0@ == "学习内容不能为空"@,
        trim(generated@).len() > 0 ==> match spec_parse_generated_items(generated@) {
            Err(e) => r is Err && r->Err_0@ == e,
            Ok(items) => r is Ok && update_for(
                existing@,
                spec_generated_additions(existing@, items),
                r->Ok_0.outcome,
                r->Ok_0.document,
            ),
        },
{
    if trim_chars(&chars_of(generated)).len() == 0 {
        return Err(String::from_str("学习内容不能为空"));
    }
    apply_generated_text(existing, generated)
}

/// The number of items an update added.
pub fn added_count(outcome: LearningOutcome) -> (n: usize)
    ensures
        n == match outcome {
            LearningOutcome::Updated { added, .. } => added,
            _ => 0,
        },
{
    match outcome {
        LearningOutcome::Updated { added, .. } => added,
        _ => 0,
    }
}

/// The saved text of a user's edit: the edit itself when the document did
/// not change meanwhile, else the three-way merge.
pub fn saved_document(content: &str, base_content: &str, current: &str) -> (r: String)
    ensures
        current@ == base_content@ ==> r@ == content@,
        current@ != base_content@ ==> r@ == spec_merge_user_document(base_content@, content@, current@),
{
    let cur = chars_of(current);
    let base = chars_of(base_content);
    if chars_eq(&cur, &base) {
        String::from_str(content)
    } else {
        merge_user_document(base_content, content, current)
    }
}

/// The default learning prompt of the first versions.
pub const LEGACY_DEFAULT_LEARNING_PROMPT: &'static str = r#"你负责从用户对语音转写结果的手动修改中提取简短纠错规则。

输入包含：

- original：最近一次最终展示文本。
- corrected：当前剪贴板文本。
- existingRules：已有学习规则。

要求：

1. 先判断corrected是否由original修改而来。主题或文本结构明显无关时，related为false，不输出任何规则。
2. 只学习语音识别造成的词语错误。忽略标点、排版、语气、增删内容和改写表达。
3. 每条规则只保留正确词及周围1至2个能说明语境的词，格式为「正确片段，不是错误片段」。例如：「项目技能，不是项目智能」。
4. 与existingRules完全重复时不要添加。学习规则只累加，不删除或替换已有规则，remove始终返回空数组。
5. 只返回JSON，不要使用Markdown或解释。格式必须是：{"related":true,"remove":[],"add":[]}。
"#;
/// The default learning prompt that followed it.
pub const PREVIOUS_DEFAULT_LEARNING_PROMPT: &'static str = r#"你负责判断用户对语音转写结果的修改是否包含值得长期学习的内容，并提取可复用的学习项。

输入包含：

- original：最近一次最终展示文本。
- corrected：当前剪贴板文本。
- existingContent.transcriptionRules：当前使用的全部转录规则。
- existingContent.vocabulary：当前使用的全部专有词汇。
- existingContent.autoLearning：此前由自动学习追加的内容。

要求：

1. 由你完整判断corrected是否由original修改而来，以及修改中是否有内容值得长期学习。主题或文本结构明显无关时，related为false。
2. 从两个方面判断是否值得学习：
   - 专有词汇：人名、品牌名、产品名、行业术语、技术名词、固定写法等。
   - 转录规则：能在后续语音转写中重复使用的纠错、格式或表达转换规则。
3. 扫描existingContent中的全部内容，按含义比较。已有内容已经覆盖的词汇或规则不要重复添加；没有覆盖的内容才追加到add。
4. 只提取本次修改能够明确证明的内容，不猜测。每项写成可直接用于后续转写的简短指令，并标明「词汇」或「规则」。例如：「词汇：ByeType」「规则：将项目智能纠正为项目技能」。
5. 由你决定是否学习及学习哪些内容。add可以同时包含词汇和规则，也可以为空。已有内容只用于比较，不删除或改写，remove始终返回空数组。
6. 只返回JSON，不要使用Markdown或解释。格式必须是：{"related":true,"remove":[],"add":[]}。
"#;

/// What to do with the learning prompt file before a model run.
#[derive(Debug, Clone, Copy, PartialEq, Eq)]
pub enum PromptDocumentStep {
    /// The file holds a prompt of the user's: leave it.
    Keep,
    /// Write the current default prompt into the file.
    WriteDefault,
}

/// A missing prompt file is created with the default prompt, and one that
/// still holds a default prompt of an earlier version is brought up to
/// date: the two oldest, kept here, and `last_default`, the one shipped
/// just before the current default, which comes with the application's
/// prompt files as the current default does. Any other content is the
/// user's and is kept.
pub fn prompt_document_step(existing: Option<&str>, last_default: &str) -> (s: PromptDocumentStep)
    ensures
        s == (match existing {
            None => PromptDocumentStep::WriteDefault,
            Some(c) => if c@ == LEGACY_DEFAULT_LEARNING_PROMPT@ || c@ == PREVIOUS_DEFAULT_LEARNING_PROMPT@
                || c@ == last_default@ {
                PromptDocumentStep::WriteDefault
            } else {
                PromptDocumentStep::Keep
            },
        }),
{
    match existing {
        None => PromptDocumentStep::WriteDefault,
        Some(c) => {
            if str_eq(c, LEGACY_DEFAULT_LEARNING_PROMPT) || str_eq(c, PREVIOUS_DEFAULT_LEARNING_PROMPT)
                || str_eq(c, last_default) {
                PromptDocumentStep::WriteDefault
            } else {
                PromptDocumentStep::Keep
            }
        },
    }
}

// ---------------------------------------------------------------------------
// Session state
// ---------------------------------------------------------------------------

/// The learning session: the last output shown, the draft the user is reading,
/// whether a model run is going on, and where the documents live.
pub struct VoiceLearningManager {
    latest_output: Option<String>,
    rules_path: String,
    prompt_path: String,
    running: bool,
    draft: Option<LearningDraft>,
}

impl VoiceLearningManager {
    pub closed spec fn spec_latest_output(&self) -> Option<String> {
        self.latest_output
    }

    pub closed spec fn spec_running(&self) -> bool {
        self.running
    }

    pub closed spec fn spec_draft(&self) -> Option<LearningDraft> {
        self.draft
    }

    /// Where the learning document is kept.
    pub closed spec fn spec_rules_path(&self) -> Seq<char> {
        self.rules_path@
    }

    /// Where the learning prompt is kept.
    pub closed spec fn spec_prompt_path(&self) -> Seq<char> {
        self.prompt_path@
    }

    /// A session for the data directory `data_dir`: nothing recorded, no
    /// draft, no run going on.
    pub fn new(data_dir: &str) -> (m: Self)
        ensures
            m.spec_latest_output() is None,
            !m.spec_running(),
            m.spec_draft() is None,
            no_question_mark(data_dir@) ==> exists|p: Seq<char>|
                #![trigger joined_path(data_dir@, "prompts"@, p)]
                joined_path(data_dir@, "prompts"@, p) && joined_path(p, "voice-learning.md"@, m.spec_rules_path())
                    && joined_path(p, "voice-learning-prompt.md"@, m.spec_prompt_path()),
    {
        let prompts = path_join(data_dir, "prompts");
        let rules_path = path_join(prompts.as_str(), "voice-learning.md");
        let prompt_path = path_join(prompts.as_str(), "voice-learning-prompt.md");
        proof {
            reveal_strlit("prompts");
            reveal_strlit("voice-learning.md");
            reveal_strlit("voice-learning-prompt.md");
            assert("prompts"@.len() == 7);
            assert(forall|k: int| 0 <= k < 7 ==> #[trigger] "prompts"@[k] != '/' && "prompts"@[k] != '\\' && "prompts"@[k] != ':' && "prompts"@[k] != '?');
            lemma_plain_component("prompts"@);
            assert("voice-learning.md"@.len() == 17);
            assert(forall|k: int| 0 <= k < 17 ==> #[trigger] "voice-learning.md"@[k] != '/' && "voice-learning.md"@[k] != '\\' && "voice-learning.md"@[k] != ':' && "voice-learning.md"@[k] != '?');
            lemma_plain_component("voice-learning.md"@);
            assert("voice-learning-prompt.md"@.len() == 24);
            assert(forall|k: int| 0 <= k < 24 ==> #[trigger] "voice-learning-prompt.md"@[k] != '/' && "voice-learning-prompt.md"@[k] != '\\' && "voice-learning-prompt.md"@[k] != ':' && "voice-learning-prompt.md"@[k] != '?');
            lemma_plain_component("voice-learning-prompt.md"@);
            if no_question_mark(data_dir@) {
                lemma_joined_no_question_mark(data_dir@, "prompts"@, prompts@);
                assert(joined_path(data_dir@, "prompts"@, prompts@));
            }
        }
        VoiceLearningManager {
            latest_output: None,
            rules_path,
            prompt_path,
            running: false,
            draft: None,
        }
    }

    /// Remembers the last text shown to the user.
    pub fn record_output(&mut self, text: &str)
        ensures
            final(self).spec_rules_path() == old(self).spec_rules_path(),
            final(self).spec_prompt_path() == old(self).spec_prompt_path(),
            final(self).spec_latest_output() is Some,
            final(self).spec_latest_output()->0@ == text@,
            final(self).spec_running() == old(self).spec_running(),
            final(self).spec_draft() == old(self).spec_draft(),
    {
        self.latest_output = Some(String::from_str(text));
    }

    pub fn latest_output(&self) -> (r: Option<String>)
        ensures
            r == self.spec_latest_output(),
    {
        self.latest_output.clone()
    }

    pub fn rules_path(&self) -> (p: &String)
        ensures
            p@ == self.spec_rules_path(),
    {
        &self.rules_path
    }

    pub fn prompt_path(&self) -> (p: &String)
        ensures
            p@ == self.spec_prompt_path(),
    {
        &self.prompt_path
    }

    /// Starts a model run; refused while another one is going on.
    pub fn begin(&mut self) -> (r: Result<(), String>)
        ensures
            final(self).spec_rules_path() == old(self).spec_rules_path(),
            final(self).spec_prompt_path() == old(self).spec_prompt_path(),
            old(self).spec_running() ==> r is Err && r->Err_0@ == "自动学习正在进行，请稍候"@
                && final(self).spec_running(),
            !old(self).spec_running() ==> r is Ok && final(self).spec_running(),
            final(self).spec_latest_output() == old(self).spec_latest_output(),
            final(self).spec_draft() == old(self).spec_draft(),
    {
        if self.running {
            return Err(String::from_str("自动学习正在进行，请稍候"));
        }
        self.running = true;
        Ok(())
    }

    /// Ends the model run.
    pub fn finish(&mut self)
        ensures
            final(self).spec_rules_path() == old(self).spec_rules_path(),
            final(self).spec_prompt_path() == old(self).spec_prompt_path(),
            !final(self).spec_running(),
            final(self).spec_latest_output() == old(self).spec_latest_output(),
            final(self).spec_draft() == old(self).spec_draft(),
    {
        self.running = false;
    }

    pub fn draft(&self) -> (r: Option<LearningDraft>)
        ensures
            r == self.spec_draft(),
    {
        match &self.draft {
            Some(d) => Some(copy_draft(d)),
            None => None,
        }
    }

    pub fn set_draft(&mut self, draft: LearningDraft)
        ensures
            final(self).spec_rules_path() == old(self).spec_rules_path(),
            final(self).spec_prompt_path() == old(self).spec_prompt_path(),
            final(self).spec_draft() == Some(draft),
            final(self).spec_running() == old(self).spec_running(),
            final(self).spec_latest_output() == old(self).spec_latest_output(),
    {
        self.draft = Some(draft);
    }
}

// ---------------------------------------------------------------------------
// Laws
// ---------------------------------------------------------------------------

proof fn lemma_keep_if_contains(s: Seq<Seq<char>>, keep: spec_fn(Seq<char>) -> bool, x: Seq<char>)
    ensures
        s.filter_map(keep_if(keep)).contains(x) <==> s.contains(x) && keep(x),
    decreases s.len(),
{
    if s.len() > 0 {
        lemma_keep_if_contains(s.drop_last(), keep, x);
        let rest = s.drop_last().filter_map(keep_if(keep));
        if keep(s.last()) {
            assert(s.filter_map(keep_if(keep)) == rest + seq![s.last()]);
            if (rest + seq![s.last()]).contains(x) {
                let k = choose|k: int| 0 <= k < (rest + seq![s.last()]).len() && (rest + seq![s.last()])[k] == x;
                if k < rest.len() {
                    assert(rest[k] == x);
                }
            }
            if rest.contains(x) {
                let k = choose|k: int| 0 <= k < rest.len() && rest[k] == x;
                assert((rest + seq![s.last()])[k] == x);
            }
            if x == s.last() {
                assert((rest + seq![s.last()])[rest.len() as int] == x);
            }
        } else {
            assert(s.filter_map(keep_if(keep)) == rest);
        }
        if s.contains(x) {
            let k = choose|k: int| 0 <= k < s.len() && s[k] == x;
            if k < s.len() - 1 {
                assert(s.drop_last()[k] == x);
            }
        }
        if s.drop_last().contains(x) {
            let k = choose|k: int| 0 <= k < s.drop_last().len() && s.drop_last()[k] == x;
            assert(s[k] == x);
        }
    }
}

proof fn lemma_append_new_contains(acc: Seq<Seq<char>>, items: Seq<Seq<char>>, x: Seq<char>)
    ensures
        append_new(acc, items).contains(x) <==> acc.contains(x) || items.contains(x),
    decreases items.len(),
{
    if items.len() > 0 {
        lemma_append_new_contains(acc, items.drop_last(), x);
        let prev = append_new(acc, items.drop_last());
        if !prev.contains(items.last()) {
            if prev.push(items.last()).contains(x) {
                let k = choose|k: int| 0 <= k < prev.push(items.last()).len() && prev.push(items.last())[k] == x;
                if k < prev.len() {
                    assert(prev[k] == x);
                }
            }
            if prev.contains(x) {
                let k = choose|k: int| 0 <= k < prev.len() && prev[k] == x;
                assert(prev.push(items.last())[k] == x);
            }
            assert(prev.push(items.last())[prev.len() as int] == items.last());
        }
        if items.contains(x) {
            let k = choose|k: int| 0 <= k < items.len() && items[k] == x;
            if k < items.len() - 1 {
                assert(items.drop_last()[k] == x);
            }
        }
        if items.drop_last().contains(x) {
            let k = choose|k: int| 0 <= k < items.drop_last().len() && items.drop_last()[k] == x;
            assert(items[k] == x);
        }
    }
}

proof fn lemma_append_new_distinct(acc: Seq<Seq<char>>, items: Seq<Seq<char>>)
    requires
        acc.no_duplicates(),
    ensures
        append_new(acc, items).no_duplicates(),
    decreases items.len(),
{
    if items.len() > 0 {
        lemma_append_new_distinct(acc, items.drop_last());
        let prev = append_new(acc, items.drop_last());
        if !prev.contains(items.last()) {
            let next = prev.push(items.last());
            assert forall|a: int, b: int| 0 <= a < next.len() && 0 <= b < next.len() && a != b implies next[a]
                != next[b] by {
                if a == prev.len() {
                    assert(prev[b] == next[b]);
                } else if b == prev.len() {
                    assert(prev[a] == next[a]);
                }
            }
        }
    }
}

/// A saved edit keeps what the user decided and what was learned meanwhile:
/// a rule the user added is kept, a rule the user removed is gone, and a
/// rule learned while the user was editing (in the current document, not
/// in the one the edit started from) is kept unless the user's text holds
/// it too. No rule is listed twice when the current document lists none
/// twice.
pub proof fn lemma_merge_keeps_both_sides(
    base: Seq<Seq<char>>,
    edited: Seq<Seq<char>>,
    current: Seq<Seq<char>>,
    r: Seq<char>,
)
    ensures
        edited.contains(r) && !base.contains(r) ==> merged_rules(base, edited, current).contains(r),
        base.contains(r) && !edited.contains(r) ==> !merged_rules(base, edited, current).contains(r),
        current.contains(r) && !base.contains(r) ==> merged_rules(base, edited, current).contains(r),
        current.contains(r) && edited.contains(r) ==> merged_rules(base, edited, current).contains(r),
        merged_rules(base, edited, current).contains(r) ==> current.contains(r) || edited.contains(r),
{
    let keep_kept = |x: Seq<char>| !base.contains(x) || edited.contains(x);
    let keep_added = |x: Seq<char>| !base.contains(x);
    lemma_keep_if_contains(current, keep_kept, r);
    lemma_keep_if_contains(edited, keep_added, r);
    lemma_append_new_contains(
        current.filter_map(keep_if(keep_kept)),
        edited.filter_map(keep_if(keep_added)),
        r,
    );
}

/// Learning from a generated text never adds a rule the document already
/// holds, nor the same rule twice.
pub proof fn lemma_generated_additions_are_new(existing: Seq<char>, items: Seq<(bool, Seq<char>)>)
    ensures
        spec_generated_additions(existing, items).no_duplicates(),
        forall|t: Seq<char>|
            #![trigger spec_generated_additions(existing, items).contains(t)]
            spec_generated_additions(existing, items).contains(t) ==> !spec_parse_rules(existing).contains(t),
{
    let texts = items.map_values(|it: (bool, Seq<char>)| item_text(it));
    let rules = spec_parse_rules(existing);
    let keep = |t: Seq<char>| !rules.contains(t);
    let fresh = texts.filter_map(keep_if(keep));
    lemma_append_new_distinct(Seq::empty(), fresh);
    assert forall|t: Seq<char>| #[trigger] spec_generated_additions(existing, items).contains(t) implies !rules.contains(t) by {
        lemma_append_new_contains(Seq::empty(), fresh, t);
        lemma_keep_if_contains(texts, keep, t);
    }
}

/// Learning only appends: a document that is not empty is kept as it
/// stands at the start of the updated one, and the new rules follow as
/// `- rule` lines.
pub proof fn lemma_append_keeps_document(content: Seq<char>, additions: Seq<Seq<char>>)
    requires
        content.len() > 0,
    ensures
        spec_append_learning_items(content, additions).take(content.len() as int) == content,
        spec_append_learning_items(content, additions).len() >= content.len(),
        ends_with(spec_append_learning_items(content, additions), bullet_lines(additions)),
{
    let base = if ends_with(content, seq!['\n']) {
        content
    } else {
        content.push('\n')
    };
    let out = base + bullet_lines(additions);
    assert(out.take(content.len() as int) =~= content);
    assert(out.subrange(out.len() - bullet_lines(additions).len(), out.len() as int) =~= bullet_lines(additions));
}


proof fn lemma_filter_map_add(
    a: Seq<Seq<char>>,
    b: Seq<Seq<char>>,
    f: spec_fn(Seq<char>) -> Option<Seq<char>>,
)
    ensures
        (a + b).filter_map(f) == a.filter_map(f) + b.filter_map(f),
    decreases b.len(),
{
    if b.len() == 0 {
        assert(a + b =~= a);
        assert(a.filter_map(f) + b.filter_map(f) =~= a.filter_map(f));
    } else {
        lemma_filter_map_add(a, b.drop_last(), f);
        assert((a + b).drop_last() =~= a + b.drop_last());
        assert((a + b).last() == b.last());
        match f(b.last()) {
            Some(x) => {
                assert(a.filter_map(f) + (b.drop_last().filter_map(f) + seq![x]) =~= (a.filter_map(f)
                    + b.drop_last().filter_map(f)) + seq![x]);
            },
            None => {},
        }
    }
}

/// A line that starts with neither white space nor `-` holds no rule.
proof fn lemma_plain_line(l: Seq<char>)
    requires
        l.len() > 0 ==> !is_ws(l[0]) && l[0] != '-',
    ensures
        spec_rule_of_line(l) is None,
{
    if l.len() > 0 {
        assert(trim_start(l) == l);
        lemma_trim_end_keeps_start(l);
        if trim_end(l).len() >= 2 {
            assert(trim_end(l).subrange(0, 2)[0] == l[0]);
        }
    } else {
        assert(trim(l).len() == 0);
    }
}

/// A normalized rule, written as a `- ` line, reads back as itself.
proof fn lemma_bullet_rule(a: Seq<char>)
    requires
        spec_normalize_rule(a) == Some(a),
    ensures
        a.len() > 0,
        !is_ws(a.last()),
        spec_rule_of_line(seq!['-', ' '] + a) == Some(a),
{
    let t = trim(a);
    let u = match strip_prefix(t, seq!['-']) {
        Some(x) => x,
        None => t,
    };
    lemma_trim_edges(u);
    lemma_trim_idempotent(u);
    if a[0] == '-' {
        assert(a.subrange(0, 1) =~= seq!['-']);
        lemma_trim_len(a.subrange(1, a.len() as int));
        assert(false);
    }
    let l = seq!['-', ' '] + a;
    assert(l[0] == '-');
    assert(trim_start(l) == l);
    assert(l.last() == a.last());
    assert(trim_end(l) == l);
    assert(l.subrange(0, 2) =~= seq!['-', ' ']);
    assert(l.subrange(2, l.len() as int) =~= a);
}

proof fn lemma_bullet_lines_read_back(adds: Seq<Seq<char>>)
    requires
        forall|i: int| 0 <= i < adds.len() ==> spec_normalize_rule(#[trigger] adds[i]) == Some(adds[i]),
        forall|i: int, k: int| 0 <= i < adds.len() && 0 <= k < adds[i].len() ==> #[trigger] adds[i][k] != '\n',
    ensures
        spec_parse_rules(bullet_lines(adds)) == adds,
        bullet_lines(adds).len() > 0 ==> bullet_lines(adds).last() == '\n',
    decreases adds.len(),
{
    if adds.len() == 0 {
        assert(lines(Seq::<char>::empty()) =~= Seq::<Seq<char>>::empty());
    } else {
        let rest = adds.drop_last();
        let a = adds.last();
        assert(a == adds[adds.len() - 1]);
        lemma_bullet_lines_read_back(rest);
        let base = bullet_lines(rest);
        let l = seq!['-', ' '] + a;
        lemma_bullet_rule(a);
        assert(bullet_lines(adds) =~= base + l.push('\n'));
        lemma_lines_concat(base, l.push('\n'));
        assert forall|k: int| 0 <= k < l.len() implies l[k] != '\n' by {
            if k >= 2 {
                assert(l[k] == a[k - 2]);
                assert(adds[adds.len() - 1][k - 2] != '\n');
            }
        }
        lemma_single_line(l);
        assert(strip_cr(l) == l);
        let f = |x: Seq<char>| spec_rule_of_line(x);
        let q = lines(base) + seq![l];
        assert(lines(bullet_lines(adds)) == q);
        assert(q.drop_last() =~= lines(base));
        assert(q.last() == l);
        assert(q.filter_map(f) == lines(base).filter_map(f) + seq![a]);
        assert(rest.push(a) =~= adds);
    }
}

/// Ending an unterminated last line with a line feed keeps the rules.
proof fn lemma_terminate_keeps_rules(content: Seq<char>)
    requires
        content.len() > 0,
        !ends_with(content, seq!['\n']),
    ensures
        spec_parse_rules(content.push('\n')) == spec_parse_rules(content),
{
    if content.last() == '\n' {
        assert(content.subrange(content.len() - 1, content.len() as int) =~= seq!['\n']);
    }
    lemma_lines_terminate(content);
    let q = lines(content);
    lemma_trim_strip_cr(q.last());
    let q2 = q.drop_last().push(strip_cr(q.last()));
    assert(q2.drop_last() =~= q.drop_last());
    assert(q2.last() == strip_cr(q.last()));
}

/// The heading of a new document holds no rule.
proof fn lemma_header_holds_no_rule()
    ensures
        DOCUMENT_HEADER@.len() > 0,
        DOCUMENT_HEADER@.last() == '\n',
        spec_parse_rules(DOCUMENT_HEADER@) == Seq::<Seq<char>>::empty(),
{
    reveal_strlit("# 语音纠正学习\n\n以下规则由自动学习生成，供后续语音转写参考。\n\n");
    reveal_strlit("# 语音纠正学习");
    reveal_strlit("以下规则由自动学习生成，供后续语音转写参考。");
    let h = DOCUMENT_HEADER@;
    let l1 = "# 语音纠正学习"@;
    let l2 = Seq::<char>::empty();
    let l3 = "以下规则由自动学习生成，供后续语音转写参考。"@;
    let p1 = l1.push('\n');
    let p2 = l2.push('\n');
    let p3 = l3.push('\n');
    assert(h =~= p1 + (p2 + (p3 + p2)));
    lemma_single_line(l1);
    lemma_single_line(l2);
    lemma_single_line(l3);
    lemma_lines_concat(p3, p2);
    lemma_lines_concat(p2, p3 + p2);
    lemma_lines_concat(p1, p2 + (p3 + p2));
    lemma_plain_line(l1);
    lemma_plain_line(l2);
    lemma_plain_line(l3);
    let f = |x: Seq<char>| spec_rule_of_line(x);
    let q = seq![l1] + (seq![l2] + (seq![l3] + seq![l2]));
    assert(lines(h) == q);
    assert(q =~= seq![l1, l2, l3, l2]);
    reveal_with_fuel(Seq::filter_map, 5);
    assert(seq![l1, l2, l3, l2].drop_last() =~= seq![l1, l2, l3]);
    assert(seq![l1, l2, l3].drop_last() =~= seq![l1, l2]);
    assert(seq![l1, l2].drop_last() =~= seq![l1]);
    assert(seq![l1].drop_last() =~= Seq::<Seq<char>>::empty());
    assert(q.filter_map(f) =~= Seq::<Seq<char>>::empty());
}

/// Reading back a document after learning: the rules it held come first,
/// in their order, and the new rules follow in the order they were given,
/// for additions that are normalized rules without line breaks.
pub proof fn lemma_appended_rules_read_back(content: Seq<char>, additions: Seq<Seq<char>>)
    requires
        forall|i: int|
            0 <= i < additions.len() ==> spec_normalize_rule(#[trigger] additions[i]) == Some(
                additions[i],
            ),
        forall|i: int, k: int|
            0 <= i < additions.len() && 0 <= k < additions[i].len() ==> #[trigger] additions[i][k]
                != '\n',
    ensures
        spec_parse_rules(spec_append_learning_items(content, additions)) == spec_parse_rules(content)
            + additions,
{
    let f = |x: Seq<char>| spec_rule_of_line(x);
    let base0 = if content.len() == 0 {
        DOCUMENT_HEADER@
    } else {
        content
    };
    let base = if ends_with(base0, seq!['\n']) {
        base0
    } else {
        base0.push('\n')
    };
    if content.len() == 0 {
        lemma_header_holds_no_rule();
        let h = DOCUMENT_HEADER@;
        assert(h.subrange(h.len() - 1, h.len() as int) =~= seq!['\n']);
        assert(lines(content) =~= Seq::<Seq<char>>::empty());
        assert(spec_parse_rules(content) =~= Seq::<Seq<char>>::empty());
    } else if !ends_with(content, seq!['\n']) {
        lemma_terminate_keeps_rules(content);
    } else {
        assert(content.subrange(content.len() - 1, content.len() as int)[0] == content.last());
    }
    assert(base.len() > 0 && base.last() == '\n');
    assert(spec_parse_rules(base) == spec_parse_rules(content));
    lemma_bullet_lines_read_back(additions);
    lemma_lines_concat(base, bullet_lines(additions));
    lemma_filter_map_add(lines(base), lines(bullet_lines(additions)), f);
}


/// Applying a confirmed learning result drops no item: the text of every
/// item, a vocabulary entry (`词汇：…`) as much as a rule (`规则：…`),
/// is afterwards either a rule the document already held or one of the
/// additions; and every addition is the text of one of the items.
pub proof fn lemma_generated_items_all_covered(existing: Seq<char>, items: Seq<(bool, Seq<char>)>)
    ensures
        forall|i: int|
            0 <= i < items.len() ==> spec_parse_rules(existing).contains(#[trigger] item_text(items[i]))
                || spec_generated_additions(existing, items).contains(item_text(items[i])),
        forall|i: int|
            0 <= i < items.len() && items[i].0 ==> spec_parse_rules(existing).contains(
                #[trigger] (vocabulary_tag() + items[i].1),
            ) || spec_generated_additions(existing, items).contains(vocabulary_tag() + items[i].1),
        forall|t: Seq<char>|
            #![trigger spec_generated_additions(existing, items).contains(t)]
            spec_generated_additions(existing, items).contains(t) ==> exists|i: int|
                0 <= i < items.len() && #[trigger] item_text(items[i]) == t,
{
    let texts = items.map_values(|it: (bool, Seq<char>)| item_text(it));
    let rules = spec_parse_rules(existing);
    let keep = |t: Seq<char>| !rules.contains(t);
    let fresh = texts.filter_map(keep_if(keep));
    assert forall|i: int|
        0 <= i < items.len() implies spec_parse_rules(existing).contains(#[trigger] item_text(items[i]))
            || spec_generated_additions(existing, items).contains(item_text(items[i])) by {
        let x = item_text(items[i]);
        assert(texts[i] == x);
        if !rules.contains(x) {
            lemma_keep_if_contains(texts, keep, x);
            lemma_append_new_contains(Seq::empty(), fresh, x);
        }
    }
    assert forall|i: int|
        0 <= i < items.len() && items[i].0 implies spec_parse_rules(existing).contains(
            #[trigger] (vocabulary_tag() + items[i].1),
        ) || spec_generated_additions(existing, items).contains(vocabulary_tag() + items[i].1) by {
        assert(item_text(items[i]) == vocabulary_tag() + items[i].1);
        let x = item_text(items[i]);
        assert(texts[i] == x);
        if !rules.contains(x) {
            lemma_keep_if_contains(texts, keep, x);
            lemma_append_new_contains(Seq::empty(), fresh, x);
        }
    }
    assert forall|t: Seq<char>| #[trigger] spec_generated_additions(existing, items).contains(t) implies exists|i: int|
        0 <= i < items.len() && #[trigger] item_text(items[i]) == t by {
        lemma_append_new_contains(Seq::empty(), fresh, t);
        lemma_keep_if_contains(texts, keep, t);
        let i = choose|i: int| 0 <= i < texts.len() && texts[i] == t;
        assert(item_text(items[i]) == t);
    }
}


/// A parsed item's value: not empty, no white space at either end, no
/// line feed.
pub open spec fn good_item(item: (bool, Seq<char>)) -> bool {
    &&& item.1.len() > 0
    &&& !is_ws(item.1[0])
    &&& !is_ws(item.1.last())
    &&& no_char(item.1, '\n')
}

proof fn lemma_strip_prefix_no_char(s: Seq<char>, p: Seq<char>)
    requires
        no_char(s, '\n'),
    ensures
        strip_prefix(s, p) matches Some(x) ==> no_char(x, '\n'),
{
    if starts_with(s, p) {
        lemma_subrange_no_char(s, '\n', p.len() as int, s.len() as int);
    }
}

proof fn lemma_item_line_good(line: Seq<char>, i: nat)
    requires
        no_char(line, '\n'),
    ensures
        parse_item_line(line, i) matches Ok(Some(item)) ==> good_item(item),
{
    let t = trim(line);
    lemma_trim_no_char(line, '\n');
    lemma_strip_prefix_no_char(t, seq!['-']);
    let u = match strip_prefix(t, seq!['-']) {
        Some(x) => x,
        None => t,
    };
    lemma_trim_no_char(u, '\n');
    let body = item_body(line);
    lemma_strip_prefix_no_char(body, vocabulary_tag());
    lemma_strip_prefix_no_char(body, rule_tag());
    match strip_prefix(body, vocabulary_tag()) {
        Some(x) => {
            lemma_trim_no_char(x, '\n');
            lemma_trim_edges(x);
        },
        None => match strip_prefix(body, rule_tag()) {
            Some(x) => {
                lemma_trim_no_char(x, '\n');
                lemma_trim_edges(x);
            },
            None => {},
        },
    }
}

proof fn lemma_items_good(ls: Seq<Seq<char>>, i: int)
    requires
        forall|k: int| 0 <= k < ls.len() ==> no_char(#[trigger] ls[k], '\n'),
    ensures
        parse_items_from(ls, i) is Ok ==> forall|m: int|
            0 <= m < parse_items_from(ls, i)->Ok_0.len() ==> good_item(#[trigger] parse_items_from(ls, i)->Ok_0[m]),
    decreases ls.len() - i,
{
    if 0 <= i < ls.len() {
        lemma_item_line_good(ls[i], i as nat);
        lemma_items_good(ls, i + 1);
        match parse_item_line(ls[i], i as nat) {
            Ok(Some(item)) => {
                if parse_items_from(ls, i + 1) is Ok {
                    let rest = parse_items_from(ls, i + 1)->Ok_0;
                    let all = seq![item] + rest;
                    assert forall|m: int| 0 <= m < all.len() implies good_item(#[trigger] all[m]) by {
                        if m > 0 {
                            assert(all[m] == rest[m - 1]);
                        }
                    }
                }
            },
            _ => {},
        }
    }
}

proof fn lemma_item_text_is_rule(item: (bool, Seq<char>))
    requires
        good_item(item),
    ensures
        spec_normalize_rule(item_text(item)) == Some(item_text(item)),
        no_char(item_text(item), '\n'),
{
    reveal_strlit("词汇：");
    reveal_strlit("规则：");
    let tag = if item.0 { vocabulary_tag() } else { rule_tag() };
    let s = item_text(item);
    assert(s == tag + item.1);
    assert(tag.len() == 3);
    assert(s[0] == tag[0]);
    assert(!is_ws(s[0]));
    assert(s.last() == item.1.last());
    assert(trim_start(s) == s);
    assert(trim_end(s) == s);
    assert(trim(s) == s);
    assert(strip_prefix(s, seq!['-']) is None) by {
        if starts_with(s, seq!['-']) {
            assert(s.subrange(0, 1)[0] == s[0]);
        }
    }
    assert forall|k: int| 0 <= k < s.len() implies #[trigger] s[k] != '\n' by {
        if k >= 3 {
            assert(s[k] == item.1[k - 3]);
        } else {
            assert(s[k] == tag[k]);
        }
    }
}

/// A confirmed learning result ends up in the document: once it is
/// applied, the text of every item it holds, vocabulary or rule, reads
/// back as a rule of the document (the one left unchanged when nothing is
/// new, else the one with the additions appended).
pub proof fn lemma_confirmed_items_become_rules(existing: Seq<char>, generated: Seq<char>)
    ensures
        spec_parse_generated_items(generated) is Ok ==> ({
            let items = spec_parse_generated_items(generated)->Ok_0;
            let additions = spec_generated_additions(existing, items);
            let document = if additions.len() == 0 {
                existing
            } else {
                spec_append_learning_items(existing, additions)
            };
            forall|i: int|
                0 <= i < items.len() ==> spec_parse_rules(document).contains(#[trigger] item_text(items[i]))
        }),
{
    if spec_parse_generated_items(generated) is Ok {
        let items = spec_parse_generated_items(generated)->Ok_0;
        let additions = spec_generated_additions(existing, items);
        lemma_lines_no_newline(generated);
        lemma_items_good(lines(generated), 0);
        lemma_generated_items_all_covered(existing, items);
        if additions.len() > 0 {
            assert forall|i: int| 0 <= i < additions.len() implies spec_normalize_rule(#[trigger] additions[i])
                == Some(additions[i]) && no_char(additions[i], '\n') by {
                assert(additions.contains(additions[i]));
                let m = choose|m: int| 0 <= m < items.len() && #[trigger] item_text(items[m]) == additions[i];
                assert(good_item(items[m]));
                lemma_item_text_is_rule(items[m]);
            }
            assert forall|i: int, k: int| 0 <= i < additions.len() && 0 <= k < additions[i].len() implies #[trigger] additions[i][k]
                != '\n' by {
                assert(no_char(additions[i], '\n'));
            }
            lemma_appended_rules_read_back(existing, additions);
            let document = spec_append_learning_items(existing, additions);
            assert forall|i: int| 0 <= i < items.len() implies spec_parse_rules(document).contains(
                #[trigger] item_text(items[i]),
            ) by {
                let x = item_text(items[i]);
                let old = spec_parse_rules(existing);
                if old.contains(x) {
                    let k = choose|k: int| 0 <= k < old.len() && old[k] == x;
                    assert((old + additions)[k] == x);
                } else {
                    assert(additions.contains(x));
                    let k = choose|k: int| 0 <= k < additions.len() && additions[k] == x;
                    assert((old + additions)[old.len() + k] == x);
                }
            }
        } else {
            assert forall|i: int| 0 <= i < items.len() implies spec_parse_rules(existing).contains(
                #[trigger] item_text(items[i]),
            ) by {
                assert(!additions.contains(item_text(items[i])));
            }
        }
    }
}

} // verus!
